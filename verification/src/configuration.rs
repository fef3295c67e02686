//! Typed application settings.
//!
//! Loading and merging the layered configuration sources (base file,
//! environment file, environment-variable overrides) is host plumbing;
//! the core owns the typed shape of the result, the validation of the
//! sender address, and the names of the two runtime environments. Secrets
//! (the database password, the provider's authorization token) are held
//! as `SecretString`, whose text can only be read through an explicit
//! accessor.

use crate::domain::SubscriberEmail;
use crate::domain::is_unicode_whitespace;
use crate::domain::unicode_whitespace;
use crate::domain::valid_subscriber_email;
use crate::secret::SecretString;
use vstd::prelude::*;

verus! {

/// The root settings structure.
pub struct Settings {
    pub database: DatabaseSettings,
    pub application: ApplicationSettings,
    pub email_client: EmailClientSettings,
}

/// Relational store connection parameters.
pub struct DatabaseSettings {
    pub username: String,
    pub password: SecretString,
    pub port: u16,
    pub host: String,
    pub database_name: String,
    pub require_ssl: bool,
}

/// HTTP server parameters and the public base URL used in confirmation
/// links.
pub struct ApplicationSettings {
    pub port: u16,
    pub host: String,
    pub base_url: String,
}

/// Notification provider parameters.
pub struct EmailClientSettings {
    pub base_url: String,
    pub sender_email: String,
    pub authorization_token: SecretString,
    pub timeout_milliseconds: u64,
}

/// What `core::time::Duration::from_millis` returns for a count of
/// milliseconds. The value itself is opaque here; the name records that it
/// is a function of the count alone.
pub uninterp spec fn duration_from_millis(millis: u64) -> core::time::Duration;

/// Relies on `core::time::Duration::from_millis`: a pure function of its
/// argument, so its result carries the name `duration_from_millis`.
pub assume_specification[ core::time::Duration::from_millis ](millis: u64) -> (d:
    core::time::Duration)
    ensures
        d == duration_from_millis(millis),
;

impl EmailClientSettings {
    /// Validates the configured sender address; succeeds exactly when it
    /// satisfies the email grammar.
    pub fn sender_email(&self) -> (r: Result<SubscriberEmail, String>)
        ensures
            r is Ok <==> valid_subscriber_email(self.sender_email@),
            r is Ok ==> r->Ok_0@ == self.sender_email@,
    {
        SubscriberEmail::parse(self.sender_email.clone())
    }

    /// The configured request timeout as a duration.
    pub fn timeout_duration(&self) -> (r: core::time::Duration)
        ensures
            r == duration_from_millis(self.timeout_milliseconds),
    {
        core::time::Duration::from_millis(self.timeout_milliseconds)
    }
}

/// The runtime environment the process was started for, which picks the
/// environment-specific configuration file.
#[derive(Clone, Copy, Debug)]
pub enum Environment {
    Local,
    Production,
}

/// The string with its leading whitespace removed.
pub open spec fn trimmed_start(s: Seq<char>) -> Seq<char>
    decreases s.len(),
{
    if s.len() == 0 {
        s
    } else if is_unicode_whitespace(s[0]) {
        trimmed_start(s.skip(1))
    } else {
        s
    }
}

/// The string with its trailing whitespace removed.
pub open spec fn trimmed_end(s: Seq<char>) -> Seq<char>
    decreases s.len(),
{
    if s.len() == 0 {
        s
    } else if is_unicode_whitespace(s.last()) {
        trimmed_end(s.drop_last())
    } else {
        s
    }
}

/// The string with surrounding whitespace removed, as `str::trim` leaves
/// it.
pub open spec fn trimmed(s: Seq<char>) -> Seq<char> {
    trimmed_end(trimmed_start(s))
}

fn trim_start_str(s: &str) -> (r: &str)
    ensures
        r@ == trimmed_start(s@),
    decreases s@.len(),
{
    let len = s.unicode_len();
    if len == 0 {
        s
    } else if unicode_whitespace(s.get_char(0)) {
        let rest = s.substring_char(1, len);
        proof {
            assert(rest@ =~= s@.skip(1));
        }
        trim_start_str(rest)
    } else {
        s
    }
}

fn trim_end_str(s: &str) -> (r: &str)
    ensures
        r@ == trimmed_end(s@),
    decreases s@.len(),
{
    let len = s.unicode_len();
    if len == 0 {
        s
    } else if unicode_whitespace(s.get_char(len - 1)) {
        let rest = s.substring_char(0, len - 1);
        proof {
            assert(rest@ =~= s@.drop_last());
        }
        trim_end_str(rest)
    } else {
        s
    }
}

/// The two characters agree up to ASCII case.
pub open spec fn eq_ignore_ascii_case_char(a: char, b: char) -> bool {
    ||| a == b
    ||| (65 <= a as u32 <= 90 && b as u32 == a as u32 + 32)
    ||| (65 <= b as u32 <= 90 && a as u32 == b as u32 + 32)
}

/// The two strings agree up to ASCII case.
pub open spec fn chars_eq_ignore_ascii_case(a: Seq<char>, b: Seq<char>) -> bool {
    a.len() == b.len() && forall|i: int|
        0 <= i < a.len() ==> eq_ignore_ascii_case_char(#[trigger] a[i], b[i])
}

fn eq_ignore_ascii_case(a: &str, b: &str) -> (r: bool)
    ensures
        r == chars_eq_ignore_ascii_case(a@, b@),
{
    let la = a.unicode_len();
    let lb = b.unicode_len();
    if la != lb {
        return false;
    }
    let mut i: usize = 0;
    while i < la
        invariant
            0 <= i <= la,
            la == a@.len(),
            la == b@.len(),
            forall|j: int| 0 <= j < i ==> eq_ignore_ascii_case_char(#[trigger] a@[j], b@[j]),
        decreases la - i,
    {
        let ca = a.get_char(i);
        let cb = b.get_char(i);
        let same = ca == cb || ((ca as u32) >= 65 && (ca as u32) <= 90 && (cb as u32) == (
        ca as u32) + 32) || ((cb as u32) >= 65 && (cb as u32) <= 90 && (ca as u32) == (cb as u32)
            + 32);
        if !same {
            return false;
        }
        i += 1;
    }
    true
}

impl Environment {
    /// The configuration file name stem for this environment.
    pub fn as_str(&self) -> (r: &'static str)
        ensures
            self is Local ==> r@ == ("local")@,
            self is Production ==> r@ == ("production")@,
    {
        match self {
            Environment::Local => "local",
            Environment::Production => "production",
        }
    }

    /// Recognizes the two environment names, ignoring ASCII case and
    /// surrounding whitespace; any other string is rejected with an error
    /// naming the trimmed input.
    pub fn parse(s: &str) -> (r: Result<Environment, String>)
        ensures
            r is Ok <==> (chars_eq_ignore_ascii_case(trimmed(s@), ("local")@)
                || chars_eq_ignore_ascii_case(trimmed(s@), ("production")@)),
            chars_eq_ignore_ascii_case(trimmed(s@), ("local")@) ==> r == Ok::<Environment, String>(
                Environment::Local,
            ),
            chars_eq_ignore_ascii_case(trimmed(s@), ("production")@) ==> r == Ok::<
                Environment,
                String,
            >(Environment::Production),
            r is Err ==> r->Err_0@ == trimmed(s@) + (
            " is not a supported environment. Use either `local` or `production`.")@,
    {
        let s = trim_end_str(trim_start_str(s));
        if eq_ignore_ascii_case(s, "local") {
            proof {
                reveal_strlit("local");
                reveal_strlit("production");
                assert(("local")@.len() != ("production")@.len());
            }
            Ok(Environment::Local)
        } else if eq_ignore_ascii_case(s, "production") {
            Ok(Environment::Production)
        } else {
            let mut message = String::from_str(s);
            message.append(" is not a supported environment. Use either `local` or `production`.");
            Err(message)
        }
    }
}

} // verus!
