use vstd::prelude::*;
use vstd::string::{StrSliceExecFns, StringExecFns};

verus! {

/// Whether `s` begins with `prefix`.
pub open spec fn starts_with(s: Seq<char>, prefix: Seq<char>) -> bool {
    prefix.len() <= s.len() && s.take(prefix.len() as int) == prefix
}

/// The endpoint for what a user typed: unchanged when it names the `http://`
/// or `https://` scheme, else with `https://` put in front.
pub open spec fn target_of(input: Seq<char>) -> Seq<char> {
    if starts_with(input, "http://"@) || starts_with(input, "https://"@) {
        input
    } else {
        "https://"@ + input
    }
}

fn has_prefix(s: &str, prefix: &str) -> (r: bool)
    ensures
        r == starts_with(s@, prefix@),
{
    let n = prefix.unicode_len();
    if n > s.unicode_len() {
        return false;
    }
    let mut i: usize = 0;
    while i < n
        invariant
            n == prefix@.len(),
            n <= s@.len(),
            i <= n,
            forall|k: int| 0 <= k < i ==> s@[k] == prefix@[k],
        decreases n - i,
    {
        if s.get_char(i) != prefix.get_char(i) {
            assert(s@.take(n as int)[i as int] != prefix@[i as int]);
            return false;
        }
        i = i + 1;
    }
    assert(s@.take(n as int) =~= prefix@);
    true
}

/// Resolves a user-supplied target to an endpoint, assuming the secure scheme
/// when none is given.
pub fn normalize_target(input: &str) -> (r: String)
    ensures
        r@ == target_of(input@),
{
    if has_prefix(input, "http://") || has_prefix(input, "https://") {
        String::from_str(input)
    } else {
        let mut url = String::from_str("https://");
        url.append(input);
        url
    }
}

} // verus!
