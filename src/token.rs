use rand::distributions::Alphanumeric;
use crate::text::push_char;
use rand::Rng;
use vstd::prelude::*;

verus! {

/// Number of characters of a confirmation token.
pub const TOKEN_LEN: usize = 25;

/// `c` is an ASCII letter or digit.
pub open spec fn is_ascii_alphanumeric(c: char) -> bool {
    ('a' <= c && c <= 'z') || ('A' <= c && c <= 'Z') || ('0' <= c && c <= '9')
}

/// A confirmation token has the fixed length and ASCII letters and digits only.
pub open spec fn is_token_shape(s: Seq<char>) -> bool {
    &&& s.len() == TOKEN_LEN
    &&& forall|i: int| 0 <= i < s.len() ==> is_ascii_alphanumeric(#[trigger] s[i])
}

/// Relies on `rand::distributions::Alphanumeric` sampled from `thread_rng`:
/// one of the bytes `A-Z`, `a-z`, `0-9`, drawn uniformly.
#[verifier::external_body]
fn random_alphanumeric() -> (c: char)
    ensures
        is_ascii_alphanumeric(c),
{
    char::from(rand::thread_rng().sample(Alphanumeric))
}

/// Draws a fresh confirmation token: 25 random ASCII letters and digits.
pub fn generate_sub_token() -> (r: String)
    ensures
        is_token_shape(r@),
{
    let mut token = String::new();
    let mut i: usize = 0;
    while i < TOKEN_LEN
        invariant
            i <= TOKEN_LEN,
            token@.len() == i,
            forall|j: int| 0 <= j < i ==> is_ascii_alphanumeric(#[trigger] token@[j]),
        decreases TOKEN_LEN - i,
    {
        let c = random_alphanumeric();
        push_char(&mut token, c);
        i = i + 1;
    }
    token
}

} // verus!
