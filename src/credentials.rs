use crate::store::SubscriptionStore;
use crate::text::push_char;
use sha3::Digest;
use vstd::prelude::*;
use vstd::slice::slice_subrange;
use vstd::utf8::{decode_utf8, encode_utf8, valid_utf8};

verus! {

/// Why an operator was not let through. Each answer to it carries a
/// challenge that asks for credentials.
#[derive(Clone, Copy, Debug, PartialEq, Eq, Structural)]
pub enum AuthError {
    MissingHeader,
    HeaderNotVisibleAscii,
    NotBasicScheme,
    InvalidBase64,
    CredentialsNotUtf8,
    MissingUsername,
    MissingPassword,
    InvalidCredentials,
}

/// The diagnostic of each refusal.
pub open spec fn auth_message(e: AuthError) -> Seq<char> {
    match e {
        AuthError::MissingHeader => "Authorization header is missing"@,
        AuthError::HeaderNotVisibleAscii => "Authorization header is not a valid UTF-8 string"@,
        AuthError::NotBasicScheme => "Authorization scheme was not 'Basic'"@,
        AuthError::InvalidBase64 => "Failed to decode base64"@,
        AuthError::CredentialsNotUtf8 => "Decoded credentials are not valid UTF-8"@,
        AuthError::MissingUsername => "Username must be provided"@,
        AuthError::MissingPassword => "Password must be provided"@,
        AuthError::InvalidCredentials => "Invalid username or password"@,
    }
}

impl AuthError {
    /// A diagnostic for the logs.
    pub fn message(&self) -> (r: &'static str)
        ensures
            r@ == auth_message(*self),
    {
        match self {
            AuthError::MissingHeader => "Authorization header is missing",
            AuthError::HeaderNotVisibleAscii => "Authorization header is not a valid UTF-8 string",
            AuthError::NotBasicScheme => "Authorization scheme was not 'Basic'",
            AuthError::InvalidBase64 => "Failed to decode base64",
            AuthError::CredentialsNotUtf8 => "Decoded credentials are not valid UTF-8",
            AuthError::MissingUsername => "Username must be provided",
            AuthError::MissingPassword => "Password must be provided",
            AuthError::InvalidCredentials => "Invalid username or password",
        }
    }
}

/// A user name and a password, as the operator sent them.
pub struct Credentials {
    pub username: String,
    pub password: String,
}

/// The bytes that a header value may hold: tab and the visible ASCII range.
pub open spec fn is_visible_ascii(b: u8) -> bool {
    b == 9 || (32 <= b && b < 127)
}

pub open spec fn all_visible_ascii(h: Seq<u8>) -> bool {
    forall|i: int| 0 <= i < h.len() ==> is_visible_ascii(#[trigger] h[i])
}

/// `Basic ` in ASCII.
pub open spec fn basic_prefix() -> Seq<u8> {
    seq![66u8, 97u8, 115u8, 105u8, 99u8, 32u8]
}

pub open spec fn has_basic_prefix(h: Seq<u8>) -> bool {
    h.len() >= 6 && h.take(6) == basic_prefix()
}

/// What the standard base64 alphabet, with padding, decodes `s` to.
pub uninterp spec fn base64_standard_decode(s: Seq<u8>) -> Option<Seq<u8>>;

/// The SHA3-256 digest of `data`.
pub uninterp spec fn sha3_256_of(data: Seq<u8>) -> Seq<u8>;

/// `i` is the position of the first `:` of `s`.
pub open spec fn is_first_colon(s: Seq<char>, i: int) -> bool {
    0 <= i < s.len() && s[i] == ':' && forall|j: int| 0 <= j < i ==> s[j] != ':'
}

pub open spec fn has_colon(s: Seq<char>) -> bool {
    exists|i: int| 0 <= i < s.len() && s[i] == ':'
}

/// The bytes of a header value, if there is one.
pub open spec fn header_bytes(header: Option<&[u8]>) -> Option<Seq<u8>> {
    match header {
        Some(h) => Some(h@),
        None => None,
    }
}

/// What a `Basic` authorization header holds: the text before the first `:`
/// of the decoded payload is the user name, the rest the password; neither
/// may be empty.
pub open spec fn basic_credentials(header: Option<Seq<u8>>) -> Result<(Seq<char>, Seq<char>), AuthError> {
    match header {
        None => Err(AuthError::MissingHeader),
        Some(h) => if !all_visible_ascii(h) {
            Err(AuthError::HeaderNotVisibleAscii)
        } else if !has_basic_prefix(h) {
            Err(AuthError::NotBasicScheme)
        } else if h.len() - 6 > usize::MAX - 3 {
            // beyond what the decoder can size its buffer for
            Err(AuthError::InvalidBase64)
        } else {
            match base64_standard_decode(h.skip(6)) {
                None => Err(AuthError::InvalidBase64),
                Some(d) => if !valid_utf8(d) {
                    Err(AuthError::CredentialsNotUtf8)
                } else {
                    let s = decode_utf8(d);
                    if !has_colon(s) {
                        Err(AuthError::MissingPassword)
                    } else {
                        let i = choose|i: int| is_first_colon(s, i);
                        if i == 0 {
                            Err(AuthError::MissingUsername)
                        } else if i + 1 == s.len() {
                            Err(AuthError::MissingPassword)
                        } else {
                            Ok((s.take(i), s.skip(i + 1)))
                        }
                    }
                },
            }
        },
    }
}

/// Relies on `base64::decode_config` with `base64::STANDARD`: the decoded
/// bytes, or a refusal, fixed by the input alone. Its capacity estimate adds
/// 3 to the length and panics on overflow, hence the bound.
#[verifier::external_body]
fn decode_base64(input: &[u8]) -> (r: Option<Vec<u8>>)
    requires
        input@.len() <= usize::MAX - 3,
    ensures
        match r {
            Some(v) => base64_standard_decode(input@) == Some(v@),
            None => base64_standard_decode(input@) is None,
        },
{
    base64::decode_config(input, base64::STANDARD).ok()
}

/// Relies on `String::from_utf8`: accepts exactly the valid UTF-8 byte
/// sequences and yields the characters they encode.
#[verifier::external_body]
fn string_from_utf8(bytes: Vec<u8>) -> (r: Option<String>)
    ensures
        r is Some <==> valid_utf8(bytes@),
        r matches Some(s) ==> s@ == decode_utf8(bytes@),
{
    String::from_utf8(bytes).ok()
}

/// Relies on `sha3::Sha3_256::digest`: a digest of 32 bytes.
#[verifier::external_body]
fn sha3_256(data: &[u8]) -> (r: Vec<u8>)
    ensures
        r@ == sha3_256_of(data@),
        r@.len() == 32,
{
    sha3::Sha3_256::digest(data).to_vec()
}

/// Lower-case hexadecimal digit of a value below 16.
pub open spec fn hex_digit(n: u8) -> char {
    if n < 10 {
        (n + 48) as char
    } else {
        (n + 87) as char
    }
}

/// Two lower-case hexadecimal digits per byte, the high one first.
pub open spec fn hex_lower(data: Seq<u8>) -> Seq<char>
    decreases data.len(),
{
    if data.len() == 0 {
        Seq::empty()
    } else {
        let last = data.last();
        hex_lower(data.drop_last()).push(hex_digit(last / 16)).push(hex_digit(last % 16))
    }
}

/// The digest under which an operator's password is kept.
pub open spec fn password_digest(password: Seq<char>) -> Seq<char> {
    hex_lower(sha3_256_of(encode_utf8(password)))
}

fn hex_char(n: u8) -> (r: char)
    requires
        n < 16,
    ensures
        r == hex_digit(n),
{
    if n < 10 {
        (n + 48) as char
    } else {
        (n + 87) as char
    }
}

/// Writes `data` as lower-case hexadecimal.
pub fn to_hex_lower(data: &[u8]) -> (r: String)
    ensures
        r@ == hex_lower(data@),
{
    let mut out = String::new();
    let mut i: usize = 0;
    while i < data.len()
        invariant
            i <= data@.len(),
            out@ == hex_lower(data@.take(i as int)),
        decreases data@.len() - i,
    {
        let b = data[i];
        push_char(&mut out, hex_char(b / 16));
        push_char(&mut out, hex_char(b % 16));
        proof {
            assert(data@.take(i + 1).drop_last() == data@.take(i as int));
        }
        i = i + 1;
    }
    assert(data@.take(data@.len() as int) == data@);
    out
}

/// The SHA3-256 digest of the password's UTF-8 bytes, in lower-case hex.
pub fn hash_password(password: &str) -> (r: String)
    ensures
        r@ == password_digest(password@),
{
    let digest = sha3_256(password.as_bytes());
    to_hex_lower(digest.as_slice())
}

/// Reads the user name and password of a `Basic` authorization header.
/// The header must be there, hold visible ASCII only, start with `Basic `,
/// and carry base64 of UTF-8 text of the form `user:password`, with a
/// non-empty user name and a non-empty password.
pub fn basic_auth(header: Option<&[u8]>) -> (r: Result<Credentials, AuthError>)
    ensures
        match (r, basic_credentials(header_bytes(header))) {
            (Ok(c), Ok((u, p))) => c.username@ == u && c.password@ == p,
            (Err(e), Err(f)) => e == f,
            _ => false,
        },
{
    if header.is_none() {
        return Err(AuthError::MissingHeader);
    }
    let h = header.unwrap();
    assert(header_bytes(header) == Some(h@));
    let mut i: usize = 0;
    while i < h.len()
        invariant
            i <= h@.len(),
            header_bytes(header) == Some(h@),
            forall|j: int| 0 <= j < i ==> is_visible_ascii(#[trigger] h@[j]),
        decreases h@.len() - i,
    {
        let b = h[i];
        if !(b == 9 || (32 <= b && b < 127)) {
            assert(!is_visible_ascii(h@[i as int]));
            assert(basic_credentials(header_bytes(header)) == Err::<(Seq<char>, Seq<char>), AuthError>(
                AuthError::HeaderNotVisibleAscii,
            ));
            return Err(AuthError::HeaderNotVisibleAscii);
        }
        i = i + 1;
    }
    if h.len() < 6 || h[0] != 66u8 || h[1] != 97u8 || h[2] != 115u8 || h[3] != 105u8 || h[4] != 99u8
        || h[5] != 32u8 {
        proof {
            if h@.len() >= 6 && h@.take(6) == basic_prefix() {
                assert(h@.take(6)[0] == h@[0]);
                assert(h@.take(6)[1] == h@[1]);
                assert(h@.take(6)[2] == h@[2]);
                assert(h@.take(6)[3] == h@[3]);
                assert(h@.take(6)[4] == h@[4]);
                assert(h@.take(6)[5] == h@[5]);
            }
        }
        return Err(AuthError::NotBasicScheme);
    }
    assert(h@.take(6) =~= basic_prefix());
    let encoded = slice_subrange(h, 6, h.len());
    assert(encoded@ == h@.skip(6));
    if encoded.len() > usize::MAX - 3 {
        return Err(AuthError::InvalidBase64);
    }
    let decoded = match decode_base64(encoded) {
        None => {
            return Err(AuthError::InvalidBase64);
        },
        Some(d) => d,
    };
    let text = match string_from_utf8(decoded) {
        None => {
            return Err(AuthError::CredentialsNotUtf8);
        },
        Some(t) => t,
    };
    let ghost s = text@;
    let len = text.as_str().unicode_len();
    let mut colon: Option<usize> = None;
    let mut k: usize = 0;
    for c in it: text.as_str().chars()
        invariant
            it.seq() == s,
            k == it.index(),
            k <= s.len(),
            len == s.len(),
            match colon {
                None => forall|j: int| 0 <= j < k ==> s[j] != ':',
                Some(i) => is_first_colon(s, i as int),
            },
    {
        assert(k < s.len());
        if colon.is_none() && c == ':' {
            colon = Some(k);
        }
        k = k + 1;
    }
    match colon {
        None => {
            proof {
                assert(!has_colon(s));
            }
            Err(AuthError::MissingPassword)
        },
        Some(i) => {
            proof {
                let j = choose|j: int| is_first_colon(s, j);
                assert(j == i as int) by {
                    if j < i {
                        assert(s[j] != ':');
                    } else if i < j {
                        assert(s[i as int] != ':');
                    }
                }
            }
            if i == 0 {
                return Err(AuthError::MissingUsername);
            }
            if i + 1 == k {
                return Err(AuthError::MissingPassword);
            }
            let username = text.as_str().substring_char(0, i).to_owned();
            let password = text.as_str().substring_char(i + 1, k).to_owned();
            proof {
                assert(s.take(i as int) == s.subrange(0, i as int));
                assert(s.skip(i + 1) == s.subrange(i + 1, k as int));
            }
            Ok(Credentials { username, password })
        },
    }
}

/// What the credential check concludes from the store's answer to the
/// lookup of a user name and a password digest: the operator found, or a
/// refusal.
pub fn credential_lookup(found: Option<u128>) -> (r: Result<u128, AuthError>)
    ensures
        match found {
            Some(id) => r == Ok::<u128, AuthError>(id),
            None => r == Err::<u128, AuthError>(AuthError::InvalidCredentials),
        },
{
    match found {
        Some(id) => Ok(id),
        None => Err(AuthError::InvalidCredentials),
    }
}

/// Lets the operator through when the store holds a credential with the
/// same user name and the digest of the same password; yields its id.
pub fn validate_credentials(store: &SubscriptionStore, credentials: &Credentials) -> (r: Result<
    u128,
    AuthError,
>)
    ensures
        r is Err ==> r == Err::<u128, AuthError>(AuthError::InvalidCredentials),
        r is Err <==> !(exists|k: int|
            0 <= k < store@.operators.len() && #[trigger] store@.operators[k].username@
                == credentials.username@ && store@.operators[k].password_hash@ == password_digest(
                credentials.password@,
            )),
        r matches Ok(id) ==> exists|k: int|
            0 <= k < store@.operators.len() && #[trigger] store@.operators[k].username@
                == credentials.username@ && store@.operators[k].password_hash@ == password_digest(
                credentials.password@,
            ) && store@.operators[k].user_id == id,
{
    let digest = hash_password(credentials.password.as_str());
    credential_lookup(store.find_operator(credentials.username.as_str(), digest.as_str()))
}

/// The credential check: reads the header and checks its credentials.
pub fn authenticate(store: &SubscriptionStore, header: Option<&[u8]>) -> (r: Result<u128, AuthError>)
    ensures
        match basic_credentials(header_bytes(header)) {
            Err(e) => r == Err::<u128, AuthError>(e),
            Ok((u, p)) => match r {
                Ok(id) => exists|k: int|
                    0 <= k < store@.operators.len() && #[trigger] store@.operators[k].username@ == u
                        && store@.operators[k].password_hash@ == password_digest(p)
                        && store@.operators[k].user_id == id,
                Err(e) => e == AuthError::InvalidCredentials && !(exists|k: int|
                    0 <= k < store@.operators.len() && #[trigger] store@.operators[k].username@ == u
                        && store@.operators[k].password_hash@ == password_digest(p)),
            },
        },
{
    match basic_auth(header) {
        Ok(credentials) => validate_credentials(store, &credentials),
        Err(e) => Err(e),
    }
}

} // verus!
