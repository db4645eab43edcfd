use vstd::prelude::*;

verus! {

/// Whether `validator::validate_email` accepts a text (the HTML5 form of an
/// address, with its limits on the lengths of the two parts).
pub uninterp spec fn email_accepted(s: Seq<char>) -> bool;

/// `s` holds an `@` whose last occurrence has text on both sides: a local
/// part and a domain.
pub open spec fn has_local_and_domain(s: Seq<char>) -> bool {
    exists|i: int|
        0 < i < s.len() - 1 && #[trigger] s[i] == '@' && (forall|j: int|
            i < j < s.len() ==> s[j] != '@')
}

/// Relies on `validator::validate_email`: it refuses a text with no `@`,
/// splits at the last `@`, and asks for a non-empty local part (its pattern
/// ends in `+`) and a domain that matches a non-empty pattern.
#[verifier::external_body]
fn validate_email(s: &str) -> (r: bool)
    ensures
        r == email_accepted(s@),
        r ==> has_local_and_domain(s@),
{
    validator::validate_email(s)
}

/// The message that comes with a rejected address.
pub open spec fn invalid_email_message(s: Seq<char>) -> Seq<char> {
    "invalid email: "@ + s
}

/// The email address of a subscriber, checked by `SubscriberEmail::try_from`.
pub struct SubscriberEmail(String);

impl View for SubscriberEmail {
    type V = Seq<char>;

    closed spec fn view(&self) -> Seq<char> {
        self.0@
    }
}

impl SubscriberEmail {
    /// Checks `value` and wraps it; on failure the error says which address
    /// was refused.
    pub fn try_from(value: String) -> (r: Result<SubscriberEmail, String>)
        ensures
            r is Ok <==> email_accepted(value@),
            r is Ok ==> has_local_and_domain(value@),
            r matches Ok(e) ==> e@ == value@,
            r matches Err(e) ==> e@ == invalid_email_message(value@),
    {
        if validate_email(value.as_str()) {
            Ok(SubscriberEmail(value))
        } else {
            let mut message = String::from_str("invalid email: ");
            message.append(value.as_str());
            proof {
                reveal_strlit("invalid email: ");
            }
            Err(message)
        }
    }

    /// The address as text.
    pub fn as_ref(&self) -> (r: &str)
        ensures
            r@ == self@,
    {
        self.0.as_str()
    }

    /// A copy of the address.
    pub fn clone(&self) -> (r: SubscriberEmail)
        ensures
            r@ == self@,
    {
        SubscriberEmail(self.0.clone())
    }
}

} // verus!
