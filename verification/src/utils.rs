use vstd::prelude::*;

verus! {

/// A character that `fastrand::alphanumeric` can produce: an ASCII letter or digit.
pub open spec fn is_alphanumeric_char(c: char) -> bool {
    ||| ('A' <= c && c <= 'Z')
    ||| ('a' <= c && c <= 'z')
    ||| ('0' <= c && c <= '9')
}

/// Calls `fastrand::alphanumeric`, which draws a random character from
/// `A-Z`, `a-z` and `0-9`. Only that range is claimed of the result.
#[verifier::external_body]
fn random_alphanumeric() -> (c: char)
    ensures
        is_alphanumeric_char(c),
{
    fastrand::alphanumeric()
}

/// Calls `String::push`, which appends one character at the end.
#[verifier::external_body]
pub(crate) fn push_char(s: &mut String, c: char)
    ensures
        final(s)@ == old(s)@.push(c),
{
    s.push(c)
}

/// A random string of `len` alphanumeric characters (used for segment ids).
pub fn get_random_str(len: usize) -> (s: String)
    ensures
        s@.len() == len,
        forall|i: int| 0 <= i < len ==> is_alphanumeric_char(#[trigger] s@[i]),
{
    let mut s = String::new();
    let mut i: usize = 0;
    while i < len
        invariant
            i <= len,
            s@.len() == i,
            forall|j: int| 0 <= j < i ==> is_alphanumeric_char(#[trigger] s@[j]),
        decreases len - i,
    {
        let c = random_alphanumeric();
        push_char(&mut s, c);
        i = i + 1;
    }
    s
}

} // verus!
