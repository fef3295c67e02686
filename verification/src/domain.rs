//! Validated domain values: subscriber names and email addresses.
//!
//! Construction through `parse` is the only validation point; once built,
//! a value is immutable and exposes its text read-only, so every
//! `SubscriberName` and `SubscriberEmail` in the system satisfies its
//! grammar by construction.

use vstd::prelude::*;

verus! {

/// Upper bound on the number of characters in a subscriber name.
pub const MAX_SUBSCRIBER_NAME_CHARS: usize = 256;

/// Characters never accepted in a subscriber name: a fixed denylist of
/// punctuation that is troublesome in HTML, SQL and shell contexts, plus
/// the ASCII control characters.
pub open spec fn is_forbidden_name_char(c: char) -> bool {
    ||| c == '/'
    ||| c == '('
    ||| c == ')'
    ||| c == '"'
    ||| c == '<'
    ||| c == '>'
    ||| c == '\\'
    ||| c == '{'
    ||| c == '}'
    ||| (c as u32) < 32
    ||| (c as u32) == 127
}

/// A Unicode white-space character, the set `str::trim` strips: the ASCII
/// whitespace controls and space, next line, and the non-ASCII space
/// separators.
pub open spec fn is_unicode_whitespace(c: char) -> bool {
    ||| (9 <= c as u32 <= 13)
    ||| c as u32 == 32
    ||| c as u32 == 0x85
    ||| c as u32 == 0xA0
    ||| c as u32 == 0x1680
    ||| (0x2000 <= c as u32 <= 0x200A)
    ||| c as u32 == 0x2028
    ||| c as u32 == 0x2029
    ||| c as u32 == 0x202F
    ||| c as u32 == 0x205F
    ||| c as u32 == 0x3000
}

/// A valid subscriber name: non-empty, not whitespace-only, within the
/// length bound, and free of forbidden characters.
pub open spec fn valid_subscriber_name(s: Seq<char>) -> bool {
    &&& 0 < s.len() <= MAX_SUBSCRIBER_NAME_CHARS
    &&& exists|i: int| 0 <= i < s.len() && !is_unicode_whitespace(s[i])
    &&& forall|i: int| 0 <= i < s.len() ==> !is_forbidden_name_char(s[i])
}

/// `i` marks the single `@` of a well-formed address: the local part before
/// it is non-empty, the domain after it is non-empty and contains a dot
/// that is neither the first character of the domain nor the last
/// character of the address.
pub open spec fn is_email_split(s: Seq<char>, i: int) -> bool {
    &&& 0 < i < s.len() - 1
    &&& s[i] == '@'
    &&& forall|j: int| 0 <= j < s.len() && j != i ==> s[j] != '@'
    &&& exists|j: int| i + 1 < j < s.len() - 1 && s[j] == '.'
}

/// A valid email address: `local-part@domain` with both sides non-empty
/// and at least one dot inside the domain.
pub open spec fn valid_subscriber_email(s: Seq<char>) -> bool {
    exists|i: int| is_email_split(s, i)
}

fn forbidden_name_char(c: char) -> (r: bool)
    ensures
        r == is_forbidden_name_char(c),
{
    c == '/' || c == '(' || c == ')' || c == '"' || c == '<' || c == '>' || c == '\\' || c == '{'
        || c == '}' || (c as u32) < 32 || (c as u32) == 127
}

pub(crate) fn unicode_whitespace(c: char) -> (r: bool)
    ensures
        r == is_unicode_whitespace(c),
{
    let v = c as u32;
    (9 <= v && v <= 13) || v == 32 || v == 0x85 || v == 0xA0 || v == 0x1680 || (0x2000 <= v && v
        <= 0x200A) || v == 0x2028 || v == 0x2029 || v == 0x202F || v == 0x205F || v == 0x3000
}

fn name_error(s: &str) -> (r: String)
    ensures
        r@ == s@ + (" is not a valid subscriber name.")@,
{
    let mut message = String::from_str(s);
    message.append(" is not a valid subscriber name.");
    message
}

fn email_error(s: &str) -> (r: String)
    ensures
        r@ == s@ + (" is not a valid subscriber email.")@,
{
    let mut message = String::from_str(s);
    message.append(" is not a valid subscriber email.");
    message
}

/// A subscriber's display name, validated on construction.
#[derive(Debug)]
pub struct SubscriberName {
    name: String,
}

impl View for SubscriberName {
    type V = Seq<char>;

    closed spec fn view(&self) -> Seq<char> {
        self.name@
    }
}

impl SubscriberName {
    /// Accepts exactly the strings satisfying `valid_subscriber_name` and
    /// keeps the accepted text unchanged.
    pub fn parse(s: String) -> (r: Result<SubscriberName, String>)
        ensures
            r is Ok <==> valid_subscriber_name(s@),
            r is Ok ==> r->Ok_0@ == s@,
            r is Err ==> r->Err_0@ == s@ + (" is not a valid subscriber name.")@,
    {
        let len = s.as_str().unicode_len();
        if len == 0 || len > MAX_SUBSCRIBER_NAME_CHARS {
            return Err(name_error(s.as_str()));
        }
        let mut i: usize = 0;
        let mut seen_mark = false;
        while i < len
            invariant
                0 <= i <= len,
                len == s@.len(),
                seen_mark <==> exists|j: int| 0 <= j < i && !is_unicode_whitespace(s@[j]),
                forall|j: int| 0 <= j < i ==> !is_forbidden_name_char(s@[j]),
            decreases len - i,
        {
            let c = s.as_str().get_char(i);
            if forbidden_name_char(c) {
                return Err(name_error(s.as_str()));
            }
            if !unicode_whitespace(c) {
                seen_mark = true;
            }
            i += 1;
        }
        if seen_mark {
            Ok(SubscriberName { name: s })
        } else {
            Err(name_error(s.as_str()))
        }
    }

    /// The validated text, read-only.
    pub fn as_str(&self) -> (r: &str)
        ensures
            r@ == self@,
    {
        self.name.as_str()
    }
}

/// A subscriber's email address, validated on construction.
#[derive(Debug)]
pub struct SubscriberEmail {
    email: String,
}

impl View for SubscriberEmail {
    type V = Seq<char>;

    closed spec fn view(&self) -> Seq<char> {
        self.email@
    }
}

impl SubscriberEmail {
    /// Accepts exactly the strings satisfying `valid_subscriber_email` and
    /// keeps the accepted text unchanged.
    pub fn parse(s: String) -> (r: Result<SubscriberEmail, String>)
        ensures
            r is Ok <==> valid_subscriber_email(s@),
            r is Ok ==> r->Ok_0@ == s@,
            r is Err ==> r->Err_0@ == s@ + (" is not a valid subscriber email.")@,
    {
        let len = s.as_str().unicode_len();
        let mut i: usize = 0;
        let mut at_count: usize = 0;
        let mut first_at: usize = 0;
        let mut second_at: usize = 0;
        while i < len
            invariant
                0 <= i <= len,
                len == s@.len(),
                at_count <= i,
                at_count == 0 ==> forall|j: int| 0 <= j < i ==> s@[j] != '@',
                at_count == 1 ==> first_at < i && s@[first_at as int] == '@' && forall|j: int|
                    0 <= j < i && j != first_at ==> s@[j] != '@',
                at_count >= 2 ==> first_at < second_at < i && s@[first_at as int] == '@'
                    && s@[second_at as int] == '@',
            decreases len - i,
        {
            if s.as_str().get_char(i) == '@' {
                if at_count == 0 {
                    first_at = i;
                } else if at_count == 1 {
                    second_at = i;
                }
                at_count = at_count + 1;
            }
            i += 1;
        }
        if at_count == 0 {
            return Err(email_error(s.as_str()));
        }
        if at_count >= 2 {
            proof {
                assert forall|k: int| !is_email_split(s@, k) by {
                    if 0 <= k < s@.len() && s@[k] == '@' {
                        if k == first_at {
                            assert(s@[second_at as int] == '@' && second_at != k);
                        } else {
                            assert(s@[first_at as int] == '@' && first_at != k);
                        }
                    }
                }
            }
            return Err(email_error(s.as_str()));
        }
        // Exactly one '@', at position first_at.
        if first_at == 0 || first_at + 1 >= len {
            return Err(email_error(s.as_str()));
        }
        // Look for a dot strictly inside the domain.
        let mut j: usize = first_at + 2;
        while j < len - 1
            invariant
                len == s@.len(),
                2 <= len,
                0 < first_at,
                first_at + 1 < len,
                first_at + 2 <= j <= len,
                s@[first_at as int] == '@',
                forall|k: int| 0 <= k < s@.len() && k != first_at ==> s@[k] != '@',
                forall|k: int| first_at + 1 < k < j ==> s@[k] != '.',
            decreases len - j,
        {
            if s.as_str().get_char(j) == '.' {
                proof {
                    assert(s@[j as int] == '.');
                    assert(is_email_split(s@, first_at as int));
                }
                return Ok(SubscriberEmail { email: s });
            }
            j += 1;
        }
        proof {
            assert forall|k: int| !is_email_split(s@, k) by {
                if 0 <= k < s@.len() && s@[k] == '@' {
                    assert(k == first_at);
                    assert(forall|m: int| first_at + 1 < m < s@.len() - 1 ==> s@[m] != '.');
                }
            }
        }
        Err(email_error(s.as_str()))
    }

    /// The validated text, read-only.
    pub fn as_str(&self) -> (r: &str)
        ensures
            r@ == self@,
    {
        self.email.as_str()
    }
}

/// The validated intake payload: a subscriber-to-be whose name and email
/// both passed their grammars.
#[derive(Debug)]
pub struct NewSubscriber {
    pub email: SubscriberEmail,
    pub name: SubscriberName,
}

} // verus!
