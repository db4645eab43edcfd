use unicode_segmentation::UnicodeSegmentation;
use vstd::prelude::*;

verus! {

/// Number of extended grapheme clusters in a text.
pub uninterp spec fn grapheme_count(s: Seq<char>) -> nat;

/// Whether a character has the Unicode `White_Space` property: tab to
/// carriage return, space, U+0085, U+00A0, U+1680, U+2000 to U+200A,
/// U+2028, U+2029, U+202F, U+205F and U+3000.
pub open spec fn is_white_space(c: char) -> bool {
    let u = c as u32;
    (0x9 <= u && u <= 0xD) || u == 0x20 || u == 0x85 || u == 0xA0 || u == 0x1680 || (0x2000 <= u
        && u <= 0x200A) || u == 0x2028 || u == 0x2029 || u == 0x202F || u == 0x205F || u == 0x3000
}

/// Relies on `UnicodeSegmentation::graphemes` with extended clusters: the
/// count of the clusters depends on the text alone.
#[verifier::external_body]
fn count_graphemes(s: &str) -> (r: usize)
    ensures
        r as nat == grapheme_count(s@),
{
    s.graphemes(true).count()
}

/// Tells whether `c` has the `White_Space` property, as `char::is_whitespace`
/// does.
pub fn white_space(c: char) -> (r: bool)
    ensures
        r == is_white_space(c),
{
    let u = c as u32;
    (0x9 <= u && u <= 0xD) || u == 0x20 || u == 0x85 || u == 0xA0 || u == 0x1680 || (0x2000 <= u
        && u <= 0x200A) || u == 0x2028 || u == 0x2029 || u == 0x202F || u == 0x205F || u == 0x3000
}

/// Every character of `s` is white space (this includes the empty text).
pub open spec fn is_blank(s: Seq<char>) -> bool {
    forall|i: int| 0 <= i < s.len() ==> is_white_space(#[trigger] s[i])
}

/// Tells whether `s` holds nothing but white space.
pub fn blank(s: &str) -> (r: bool)
    ensures
        r == is_blank(s@),
{
    let mut all_white = true;
    for c in it: s.chars()
        invariant
            it.seq() == s@,
            all_white == (forall|j: int| 0 <= j < it.index() ==> is_white_space(#[trigger] s@[j])),
    {
        let w = white_space(c);
        all_white = all_white && w;
    }
    all_white
}

/// Largest number of grapheme clusters that a name may have.
pub const MAX_NAME_GRAPHEMES: usize = 256;

/// Characters that a name may not hold.
pub open spec fn is_forbidden_name_char(c: char) -> bool {
    c == '/' || c == '"' || c == '\\' || c == '(' || c == ')' || c == '{' || c == '}' || c == '<'
        || c == '>'
}

pub open spec fn has_forbidden_char(s: Seq<char>) -> bool {
    exists|i: int| 0 <= i < s.len() && is_forbidden_name_char(#[trigger] s[i])
}

/// A name is accepted when it is not blank, has at most 256 grapheme
/// clusters and holds none of the forbidden characters.
pub open spec fn is_valid_name(s: Seq<char>) -> bool {
    &&& !is_blank(s)
    &&& grapheme_count(s) <= MAX_NAME_GRAPHEMES
    &&& !has_forbidden_char(s)
}

/// Tells whether `c` is one of the characters that a name may not hold.
pub fn forbidden_name_char(c: char) -> (r: bool)
    ensures
        r == is_forbidden_name_char(c),
{
    c == '/' || c == '"' || c == '\\' || c == '(' || c == ')' || c == '{' || c == '}' || c == '<'
        || c == '>'
}

/// Tells whether `s` holds a forbidden character.
pub fn contains_forbidden_char(s: &str) -> (r: bool)
    ensures
        r == has_forbidden_char(s@),
{
    let mut found = false;
    for c in it: s.chars()
        invariant
            it.seq() == s@,
            found == (exists|j: int| 0 <= j < it.index() && is_forbidden_name_char(#[trigger] s@[j])),
    {
        let f = forbidden_name_char(c);
        proof {
            if !found && f {
                assert(is_forbidden_name_char(s@[it.index() as int]));
            }
        }
        found = found || f;
    }
    found
}

/// The message that comes with a rejected name.
pub open spec fn invalid_name_message(s: Seq<char>) -> Seq<char> {
    "invalid name: "@ + s
}

/// Lemma: a name with a forbidden character, a name of white space alone
/// (spaces alone, or nothing), or one with more than 256 grapheme clusters,
/// is refused; a name of exactly 256 clusters that is not blank and
/// holds no forbidden character is accepted.
pub proof fn lemma_name_rules(s: Seq<char>)
    ensures
        has_forbidden_char(s) ==> !is_valid_name(s),
        is_blank(s) ==> !is_valid_name(s),
        (forall|i: int| 0 <= i < s.len() ==> s[i] == ' ') ==> !is_valid_name(s),
        grapheme_count(s) > MAX_NAME_GRAPHEMES ==> !is_valid_name(s),
        grapheme_count(s) == MAX_NAME_GRAPHEMES && !is_blank(s) && !has_forbidden_char(s)
            ==> is_valid_name(s),
{
}

/// The name of a subscriber: never blank, at most 256 grapheme clusters,
/// none of the characters `/ " \\ ( ) { } < >`.
pub struct SubscriberName(String);

impl View for SubscriberName {
    type V = Seq<char>;

    closed spec fn view(&self) -> Seq<char> {
        self.0@
    }
}

impl SubscriberName {
    /// Checks `value` and wraps it; on failure the error says which name
    /// was refused.
    pub fn try_from(value: String) -> (r: Result<SubscriberName, String>)
        ensures
            r is Ok <==> is_valid_name(value@),
            r matches Ok(n) ==> n@ == value@,
            r matches Err(e) ==> e@ == invalid_name_message(value@),
    {
        let is_empty_or_whitespace = blank(value.as_str());
        let is_too_long = count_graphemes(value.as_str()) > MAX_NAME_GRAPHEMES;
        let contains_forbidden = contains_forbidden_char(value.as_str());
        if is_empty_or_whitespace || is_too_long || contains_forbidden {
            let mut message = String::from_str("invalid name: ");
            message.append(value.as_str());
            proof {
                reveal_strlit("invalid name: ");
            }
            Err(message)
        } else {
            Ok(SubscriberName(value))
        }
    }

    /// The name as text.
    pub fn as_ref(&self) -> (r: &str)
        ensures
            r@ == self@,
    {
        self.0.as_str()
    }
}

} // verus!
