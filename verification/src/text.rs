//! Texts and their beginnings.
use vstd::prelude::*;
use vstd::string::*;

verus! {

/// Whether two texts are the same.
pub fn same_text(a: &str, b: &str) -> (r: bool)
    ensures
        r == (a@ == b@),
{
    a.to_string() == b.to_string()
}

/// What follows `prefix` in `text`, if `text` begins with it.
pub fn after_prefix<'a>(text: &'a str, prefix: &str) -> (r: Option<&'a str>)
    ensures
        match r {
            Some(rest) => text@ == prefix@ + rest@,
            None => !prefix@.is_prefix_of(text@),
        },
{
    let n: usize = text.unicode_len();
    let k: usize = prefix.unicode_len();
    if n < k {
        return None;
    }
    let head = text.substring_char(0, k);
    if same_text(head, prefix) {
        let rest = text.substring_char(k, n);
        assert(text@ =~= prefix@ + rest@);
        Some(rest)
    } else {
        assert(!prefix@.is_prefix_of(text@)) by {
            if prefix@.is_prefix_of(text@) {
                assert(head@ =~= prefix@);
            }
        }
        None
    }
}

/// A beginning and the rest make up the text again, and a text that begins so is never taken
/// for one that does not.
pub proof fn law_prefix_and_rest_make_up_the_text(
    text: &str,
    prefix: &str,
    r: Option<&str>,
    same: bool,
)
    requires
        call_ensures(after_prefix, (text, prefix), r),
        call_ensures(same_text, (text, prefix), same),
    ensures
        r is Some <==> prefix@.is_prefix_of(text@),
        r matches Some(rest) ==> rest@ == text@.skip(prefix@.len() as int),
        same <==> text@ == prefix@,
        same ==> (r matches Some(rest) && rest@.len() == 0),
{
    if r is Some {
        let rest = r->0;
        assert(text@.skip(prefix@.len() as int) =~= rest@);
        assert(prefix@.is_prefix_of(text@));
    }
}

} // verus!
