use crate::email::{email_accepted, invalid_email_message, SubscriberEmail};
use crate::name::{invalid_name_message, is_valid_name, SubscriberName};
use vstd::prelude::*;

verus! {

/// A prospective subscriber whose name and address were both checked.
pub struct NewSubscriber {
    pub name: SubscriberName,
    pub email: SubscriberEmail,
}

/// The raw fields of a subscription form.
pub struct FormData {
    pub email: String,
    pub name: String,
}

impl NewSubscriber {
    /// Checks the name, then the address; the first refusal is the error.
    pub fn new(name: String, email: String) -> (r: Result<NewSubscriber, String>)
        ensures
            r is Ok <==> is_valid_name(name@) && email_accepted(email@),
            r matches Ok(s) ==> s.name@ == name@ && s.email@ == email@,
            r matches Err(e) ==> e@ == if !is_valid_name(name@) {
                invalid_name_message(name@)
            } else {
                invalid_email_message(email@)
            },
    {
        let name = SubscriberName::try_from(name)?;
        let email = SubscriberEmail::try_from(email)?;
        Ok(NewSubscriber { name, email })
    }

    /// Checks the fields of a form, as `NewSubscriber::new` does.
    pub fn try_from(value: FormData) -> (r: Result<NewSubscriber, String>)
        ensures
            r is Ok <==> is_valid_name(value.name@) && email_accepted(value.email@),
            r matches Ok(s) ==> s.name@ == value.name@ && s.email@ == value.email@,
            r matches Err(e) ==> e@ == if !is_valid_name(value.name@) {
                invalid_name_message(value.name@)
            } else {
                invalid_email_message(value.email@)
            },
    {
        NewSubscriber::new(value.name, value.email)
    }
}

} // verus!
