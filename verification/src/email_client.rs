//! Notification client core: building the outbound request for the
//! transactional-email provider, and classifying what came back.
//!
//! The request is a single HTTP POST to `{base_url}/email` whose JSON body
//! carries From, To, Subject, HtmlBody and TextBody fields; the
//! authorization header carries a secret token. Both the exact body text
//! (including JSON string escaping) and the outcome classification are
//! verified here; performing the HTTP exchange is the host's job.

use crate::domain::SubscriberEmail;
use crate::hex::hex_digit_str;
use crate::hex::spec_hex_digit;
use crate::secret::SecretString;
use vstd::prelude::*;

verus! {

/// JSON string escaping of one character: quote, backslash and the named
/// control characters get a two-character escape, the remaining control
/// characters a `\u00XX` escape, and every other character stands as is.
pub open spec fn json_escaped_char(c: char) -> Seq<char> {
    if c == '"' {
        seq!['\\', '"']
    } else if c == '\\' {
        seq!['\\', '\\']
    } else if c == '\n' {
        seq!['\\', 'n']
    } else if c == '\r' {
        seq!['\\', 'r']
    } else if c == '\t' {
        seq!['\\', 't']
    } else if (c as u32) < 32 {
        seq![
            '\\',
            'u',
            '0',
            '0',
            spec_hex_digit(((c as u32) / 16) as int),
            spec_hex_digit(((c as u32) % 16) as int),
        ]
    } else {
        seq![c]
    }
}

/// JSON string escaping of a whole string.
pub open spec fn json_escaped(s: Seq<char>) -> Seq<char>
    decreases s.len(),
{
    if s.len() == 0 {
        Seq::empty()
    } else {
        json_escaped(s.drop_last()) + json_escaped_char(s.last())
    }
}

/// Escapes a string for inclusion inside a JSON string literal.
pub fn json_escape(s: &str) -> (r: String)
    ensures
        r@ == json_escaped(s@),
{
    let len = s.unicode_len();
    let mut out = String::new();
    let mut i: usize = 0;
    while i < len
        invariant
            0 <= i <= len,
            len == s@.len(),
            out@ == json_escaped(s@.take(i as int)),
        decreases len - i,
    {
        let c = s.get_char(i);
        if c == '"' {
            out.append("\\\"");
            proof {
                reveal_strlit("\\\"");
                assert(("\\\"")@ =~= json_escaped_char(c));
            }
        } else if c == '\\' {
            out.append("\\\\");
            proof {
                reveal_strlit("\\\\");
                assert(("\\\\")@ =~= json_escaped_char(c));
            }
        } else if c == '\n' {
            out.append("\\n");
            proof {
                reveal_strlit("\\n");
                assert(("\\n")@ =~= json_escaped_char(c));
            }
        } else if c == '\r' {
            out.append("\\r");
            proof {
                reveal_strlit("\\r");
                assert(("\\r")@ =~= json_escaped_char(c));
            }
        } else if c == '\t' {
            out.append("\\t");
            proof {
                reveal_strlit("\\t");
                assert(("\\t")@ =~= json_escaped_char(c));
            }
        } else if (c as u32) < 32 {
            let v = c as u32;
            out.append("\\u00");
            out.append(hex_digit_str((v / 16) as u8));
            out.append(hex_digit_str((v % 16) as u8));
            proof {
                reveal_strlit("\\u00");
                assert(("\\u00")@ + seq![spec_hex_digit((v / 16) as int)] + seq![
                    spec_hex_digit((v % 16) as int),
                ] =~= json_escaped_char(c));
            }
        } else {
            let piece = s.substring_char(i, i + 1);
            out.append(piece);
            proof {
                assert(piece@ =~= json_escaped_char(c));
            }
        }
        proof {
            assert(s@.take(i as int + 1).drop_last() =~= s@.take(i as int));
            assert(s@.take(i as int + 1).last() == s@[i as int]);
        }
        i += 1;
    }
    proof {
        assert(s@.take(len as int) =~= s@);
    }
    out
}

/// The provider-specific JSON body of a send-email request: an object with
/// capitalized From, To, Subject, HtmlBody and TextBody string fields, in
/// that order, each value JSON-escaped.
pub open spec fn email_request_json(
    from: Seq<char>,
    to: Seq<char>,
    subject: Seq<char>,
    html_body: Seq<char>,
    text_body: Seq<char>,
) -> Seq<char> {
    ("{\"From\":\"")@ + json_escaped(from) + ("\",\"To\":\"")@ + json_escaped(to) + (
    "\",\"Subject\":\"")@ + json_escaped(subject) + ("\",\"HtmlBody\":\"")@ + json_escaped(
        html_body,
    ) + ("\",\"TextBody\":\"")@ + json_escaped(text_body) + ("\"}")@
}

/// A fully built send-email request: the URL to POST to and the JSON body.
/// The authorization header value is the client's secret token, exposed
/// only at the point of use.
pub struct SendEmailRequest {
    pub url: String,
    pub body: String,
}

/// What the host observed when it performed the HTTP exchange.
#[derive(Clone, Copy, PartialEq, Eq, Structural, Debug)]
pub enum SendEvent {
    /// The provider answered with this HTTP status code.
    Responded(u16),
    /// No response arrived within the configured timeout.
    TimedOut,
    /// The request could not be carried out (DNS, connection reset).
    TransportFailed,
}

/// Failure of a send: a timeout, a non-2xx provider status, or a
/// transport-level fault.
#[derive(Clone, Copy, PartialEq, Eq, Structural, Debug)]
pub enum SendError {
    Timeout,
    ProviderRejected(u16),
    Transport,
}

/// Classification of a send outcome: only a 2xx response is success; a
/// non-2xx status, a timeout or a transport fault is always reported as
/// the matching failure, never as a silent success.
pub open spec fn spec_send_email_result(event: SendEvent) -> Result<(), SendError> {
    match event {
        SendEvent::Responded(status) => if 200 <= status < 300 {
            Ok(())
        } else {
            Err(SendError::ProviderRejected(status))
        },
        SendEvent::TimedOut => Err(SendError::Timeout),
        SendEvent::TransportFailed => Err(SendError::Transport),
    }
}

/// Turns the observed outcome of the HTTP exchange into the caller's
/// result, exactly as `spec_send_email_result` says.
pub fn send_email_result(event: SendEvent) -> (r: Result<(), SendError>)
    ensures
        r == spec_send_email_result(event),
{
    match event {
        SendEvent::Responded(status) => if 200 <= status && status < 300 {
            Ok(())
        } else {
            Err(SendError::ProviderRejected(status))
        },
        SendEvent::TimedOut => Err(SendError::Timeout),
        SendEvent::TransportFailed => Err(SendError::Transport),
    }
}

/// Configuration of the notification client: where to POST, who the sender
/// is, the secret authorization token, and the request timeout.
pub struct EmailClient {
    base_url: String,
    sender: SubscriberEmail,
    authorization_token: SecretString,
    timeout: core::time::Duration,
}

impl EmailClient {
    pub closed spec fn spec_base_url(&self) -> Seq<char> {
        self.base_url@
    }

    pub closed spec fn spec_sender(&self) -> Seq<char> {
        self.sender@
    }

    pub closed spec fn spec_authorization_token(&self) -> Seq<char> {
        self.authorization_token@
    }

    pub closed spec fn spec_timeout(&self) -> core::time::Duration {
        self.timeout
    }

    pub fn new(
        base_url: String,
        sender: SubscriberEmail,
        authorization_token: SecretString,
        timeout: core::time::Duration,
    ) -> (r: EmailClient)
        ensures
            r.spec_base_url() == base_url@,
            r.spec_sender() == sender@,
            r.spec_authorization_token() == authorization_token@,
            r.spec_timeout() == timeout,
    {
        EmailClient { base_url, sender, authorization_token, timeout }
    }

    pub fn sender(&self) -> (r: &SubscriberEmail)
        ensures
            r@ == self.spec_sender(),
    {
        &self.sender
    }

    pub fn authorization_token(&self) -> (r: &SecretString)
        ensures
            r@ == self.spec_authorization_token(),
    {
        &self.authorization_token
    }

    pub fn timeout(&self) -> (r: core::time::Duration)
        ensures
            r == self.spec_timeout(),
    {
        self.timeout
    }

    /// Builds the one request this client ever sends: a POST to
    /// `{base_url}/email` whose body is the provider's JSON payload for
    /// the given recipient, subject and contents.
    pub fn build_send_email_request(
        &self,
        recipient: &SubscriberEmail,
        subject: &str,
        html_content: &str,
        text_content: &str,
    ) -> (r: SendEmailRequest)
        ensures
            r.url@ == self.spec_base_url() + ("/email")@,
            r.body@ == email_request_json(
                self.spec_sender(),
                recipient@,
                subject@,
                html_content@,
                text_content@,
            ),
    {
        let url = self.base_url.clone().concat("/email");
        let mut body = String::from_str("{\"From\":\"");
        body.append(json_escape(self.sender.as_str()).as_str());
        body.append("\",\"To\":\"");
        body.append(json_escape(recipient.as_str()).as_str());
        body.append("\",\"Subject\":\"");
        body.append(json_escape(subject).as_str());
        body.append("\",\"HtmlBody\":\"");
        body.append(json_escape(html_content).as_str());
        body.append("\",\"TextBody\":\"");
        body.append(json_escape(text_content).as_str());
        body.append("\"}");
        proof {
            assert(body@ =~= email_request_json(
                self.spec_sender(),
                recipient@,
                subject@,
                html_content@,
                text_content@,
            ));
        }
        SendEmailRequest { url, body }
    }
}

} // verus!
