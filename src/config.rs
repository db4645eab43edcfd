use crate::text::{push_char, text_eq};
use vstd::prelude::*;

verus! {

/// The settings of the service.
pub struct Config {
    pub application: AppConfig,
    pub database: DatabaseConfig,
}

/// Where the relational store is reached.
pub struct DatabaseConfig {
    pub username: String,
    pub password: String,
    pub port: u16,
    pub host: String,
    pub database_name: String,
    pub require_ssl: bool,
}

/// Where the service listens.
pub struct AppConfig {
    pub port: u16,
    pub host: String,
}

/// The base of the links that the service hands out.
pub struct AppBaseUrl(pub String);

/// The decimal digit of a value below 10.
pub open spec fn digit_char(n: nat) -> char {
    (n + 48) as char
}

/// The decimal form of `n`, without leading zeros.
pub open spec fn decimal(n: nat) -> Seq<char>
    decreases n,
{
    if n < 10 {
        seq![digit_char(n)]
    } else {
        decimal(n / 10).push(digit_char(n % 10))
    }
}

fn push_decimal(out: &mut String, n: u16)
    ensures
        final(out)@ == old(out)@ + decimal(n as nat),
    decreases n,
{
    if n >= 10 {
        push_decimal(out, n / 10);
    }
    let d = (n % 10) as u8;
    push_char(out, (d + 48) as char);
}

impl AppConfig {
    /// `host:port`, the address to listen on.
    pub fn address(&self) -> (r: String)
        ensures
            r@ == self.host@ + ":"@ + decimal(self.port as nat),
    {
        let mut out = String::new();
        out.append(self.host.as_str());
        out.append(":");
        push_decimal(&mut out, self.port);
        proof {
            reveal_strlit(":");
        }
        out
    }
}

/// Which set of settings applies.
#[derive(Clone, Copy, Debug, PartialEq, Eq, Structural)]
pub enum Environment {
    Local,
    Production,
}

/// The text under which an environment is named.
pub open spec fn environment_word(e: Environment) -> Seq<char> {
    match e {
        Environment::Local => "local"@,
        Environment::Production => "production"@,
    }
}

/// The text `s` in lower case.
pub uninterp spec fn lower_of(s: Seq<char>) -> Seq<char>;

/// Relies on `str::to_lowercase`: the lower-case form depends on the
/// characters alone.
#[verifier::external_body]
fn lowercase(s: &str) -> (r: String)
    ensures
        r@ == lower_of(s@),
{
    s.to_lowercase()
}

/// The message that comes with a name that is no environment.
pub open spec fn unknown_environment_message(s: Seq<char>) -> Seq<char> {
    s + " is not supported environment. Use either `local` or `production`"@
}

impl Environment {
    /// The name of the environment, which also names its settings file.
    pub fn as_str(&self) -> (r: &'static str)
        ensures
            r@ == environment_word(*self),
    {
        match self {
            Environment::Local => "local",
            Environment::Production => "production",
        }
    }

    /// Reads an environment from its name, in any case.
    pub fn try_from(value: String) -> (r: Result<Environment, String>)
        ensures
            lower_of(value@) == "local"@ ==> r == Ok::<Environment, String>(Environment::Local),
            lower_of(value@) == "production"@ ==> r == Ok::<Environment, String>(
                Environment::Production,
            ),
            lower_of(value@) != "local"@ && lower_of(value@) != "production"@ ==> (r matches Err(
                m,
            ) && m@ == unknown_environment_message(lower_of(value@))),
    {
        let lower = lowercase(value.as_str());
        proof {
            reveal_strlit("local");
            reveal_strlit("production");
            assert("local"@.len() != "production"@.len());
        }
        if text_eq(lower.as_str(), "local") {
            Ok(Environment::Local)
        } else if text_eq(lower.as_str(), "production") {
            Ok(Environment::Production)
        } else {
            let mut message = lower;
            message.append(" is not supported environment. Use either `local` or `production`");
            Err(message)
        }
    }
}

} // verus!
