# rtc

Peer-to-peer data channels: the request for a connection, the numbering of its channels, the
negotiation between two peers, and the delivery of messages.

`src/` holds what an endpoint decides, with contracts that Verus proves. It performs no
network operation. A connection in the making hands its driver one action at a time and is
told what came of it:

- `peer`, `channel`, `channel_ids`: what a caller asks for, and which number each channel gets
- `message`, `error`: what peers tell each other, and what can go wrong
- `negotiation`, `negotiation_laws`: the exchange of descriptions and candidates
- `queue`, `delivery`: the way of messages from a callback to the caller
- `drain`, `claim`: taking items out of lists and putting them into order
- `backend::native`: the side of `libdatachannel`
- `backend::handshake`, `backend::wasm`, `backend::native_pion`: stacks with offers and answers
- `sdp`: the parser of session descriptions

`app/` is the driver: it performs the actions on the network stack of the platform.
