//! The inbound delivery dialog: the per-connection session state machine
//! (command loop and data capture), the response chosen once a message is
//! complete, and the name under which its raw bytes are stored.  Socket
//! and file I/O are the caller's concern; every decision is made here.

use vstd::prelude::*;

use crate::api_client::{DeliveryResult, ReceiveEmailResponse};
use crate::strutil::{
    chars_eq, chars_to_string, push_all, starts_with_chars, str_to_chars, trim_chars, trim_spec,
    upper_of, uppercase,
};

verus! {

/// Which phase of the dialog a session is in: reading commands, or
/// capturing message data until the lone dot line.
pub enum SessionState {
    CommandLoop,
    DataMode,
}

/// One connection's dialog state: the phase, the recorded envelope lines,
/// and the raw message bytes captured so far.
pub struct Session {
    pub state: SessionState,
    pub mail_from: String,
    pub rcpt_to: String,
    pub email_data: String,
}

/// What the caller must do after feeding one line to the session.
pub enum SessionAction {
    /// Write this reply and keep reading.
    Reply(String),
    /// Write this reply and close the connection.
    ReplyThenClose(String),
    /// A message is complete: run the completion sequence on the carried
    /// raw bytes, then reply with `completion_response`.
    CompleteMessage(String),
    /// Keep reading; data lines are acknowledged only at the dot line.
    NoReply,
}

/// The command class of a line, judged on its upper-cased trimmed form in
/// the order the dialog checks them.
pub enum CommandClass {
    Hello,
    MailFrom,
    RcptTo,
    Data,
    Quit,
    Unknown,
}

/// Classify one command line.
pub open spec fn classify_command(line: Seq<char>) -> CommandClass {
    let u = upper_of(trim_spec(line));
    if "HELO"@.is_prefix_of(u) || "EHLO"@.is_prefix_of(u) {
        CommandClass::Hello
    } else if "MAIL FROM"@.is_prefix_of(u) {
        CommandClass::MailFrom
    } else if "RCPT TO"@.is_prefix_of(u) {
        CommandClass::RcptTo
    } else if u == "DATA"@ {
        CommandClass::Data
    } else if u == "QUIT"@ {
        CommandClass::Quit
    } else {
        CommandClass::Unknown
    }
}

impl Session {
    /// A fresh session, in the command loop with nothing recorded.
    pub fn new() -> (r: Session)
        ensures
            r.state == SessionState::CommandLoop,
            r.mail_from@ == Seq::<char>::empty(),
            r.rcpt_to@ == Seq::<char>::empty(),
            r.email_data@ == Seq::<char>::empty(),
    {
        Session {
            state: SessionState::CommandLoop,
            mail_from: String::new(),
            rcpt_to: String::new(),
            email_data: String::new(),
        }
    }

    /// Consume one raw line (terminator included) and say what to do.
    ///
    /// In the command loop, greetings, envelope commands, `DATA`, `QUIT`
    /// and unknown lines each draw their fixed reply; the envelope
    /// commands record the trimmed line.  In data mode, a line whose
    /// trimmed form is a single dot completes the message and hands the
    /// captured bytes back; any other line is appended verbatim.
    pub fn step(&mut self, line: &str) -> (act: SessionAction)
        ensures
            old(self).state == SessionState::CommandLoop ==> match classify_command(line@) {
                CommandClass::Hello => {
                    &&& *final (self) == *old(self)
                    &&& act matches SessionAction::Reply(m) && m@ == "250 Hello\r\n"@
                },
                CommandClass::MailFrom => {
                    &&& final (self).state == SessionState::CommandLoop
                    &&& final (self).mail_from@ == trim_spec(line@)
                    &&& final (self).rcpt_to == old(self).rcpt_to
                    &&& final (self).email_data == old(self).email_data
                    &&& act matches SessionAction::Reply(m) && m@ == "250 Ok\r\n"@
                },
                CommandClass::RcptTo => {
                    &&& final (self).state == SessionState::CommandLoop
                    &&& final (self).rcpt_to@ == trim_spec(line@)
                    &&& final (self).mail_from == old(self).mail_from
                    &&& final (self).email_data == old(self).email_data
                    &&& act matches SessionAction::Reply(m) && m@ == "250 Ok\r\n"@
                },
                CommandClass::Data => {
                    &&& final (self).state == SessionState::DataMode
                    &&& final (self).mail_from == old(self).mail_from
                    &&& final (self).rcpt_to == old(self).rcpt_to
                    &&& final (self).email_data == old(self).email_data
                    &&& act matches SessionAction::Reply(m) && m@
                        == "354 End data with <CR><LF>.<CR><LF>\r\n"@
                },
                CommandClass::Quit => {
                    &&& *final (self) == *old(self)
                    &&& act matches SessionAction::ReplyThenClose(m) && m@ == "221 Bye\r\n"@
                },
                CommandClass::Unknown => {
                    &&& *final (self) == *old(self)
                    &&& act matches SessionAction::Reply(m) && m@ == "500 Unknown\r\n"@
                },
            },
            old(self).state == SessionState::DataMode ==> if trim_spec(line@) == "."@ {
                &&& final (self).state == SessionState::CommandLoop
                &&& final (self).email_data@ == Seq::<char>::empty()
                &&& final (self).mail_from == old(self).mail_from
                &&& final (self).rcpt_to == old(self).rcpt_to
                &&& act matches SessionAction::CompleteMessage(data) && data@ == old(
                    self,
                ).email_data@
            } else {
                &&& final (self).state == SessionState::DataMode
                &&& final (self).email_data@ == old(self).email_data@ + line@
                &&& final (self).mail_from == old(self).mail_from
                &&& final (self).rcpt_to == old(self).rcpt_to
                &&& act == SessionAction::NoReply
            },
    {
        let chars = str_to_chars(line);
        let t = trim_chars(&chars);
        match self.state {
            SessionState::DataMode => {
                let dot = str_to_chars(".");
                if chars_eq(&t, &dot) {
                    let data = self.email_data.clone();
                    self.email_data = String::new();
                    self.state = SessionState::CommandLoop;
                    SessionAction::CompleteMessage(data)
                } else {
                    self.email_data.append(line);
                    SessionAction::NoReply
                }
            },
            SessionState::CommandLoop => {
                let t_str = chars_to_string(&t);
                let upper = uppercase(t_str.as_str());
                let u = str_to_chars(upper.as_str());
                let helo = str_to_chars("HELO");
                let ehlo = str_to_chars("EHLO");
                let mail_from = str_to_chars("MAIL FROM");
                let rcpt_to = str_to_chars("RCPT TO");
                let data_cmd = str_to_chars("DATA");
                let quit_cmd = str_to_chars("QUIT");
                if starts_with_chars(&u, &helo) || starts_with_chars(&u, &ehlo) {
                    SessionAction::Reply(String::from_str("250 Hello\r\n"))
                } else if starts_with_chars(&u, &mail_from) {
                    self.mail_from = t_str;
                    SessionAction::Reply(String::from_str("250 Ok\r\n"))
                } else if starts_with_chars(&u, &rcpt_to) {
                    self.rcpt_to = t_str;
                    SessionAction::Reply(String::from_str("250 Ok\r\n"))
                } else if chars_eq(&u, &data_cmd) {
                    self.state = SessionState::DataMode;
                    SessionAction::Reply(
                        String::from_str("354 End data with <CR><LF>.<CR><LF>\r\n"),
                    )
                } else if chars_eq(&u, &quit_cmd) {
                    SessionAction::ReplyThenClose(String::from_str("221 Bye\r\n"))
                } else {
                    SessionAction::Reply(String::from_str("500 Unknown\r\n"))
                }
            },
        }
    }
}

/// The greeting written the moment a delivery connection opens.
pub fn greeting_line() -> (r: String)
    ensures
        r@ == "220 localhost ESMTP Restmail-Receiver\r\n"@,
{
    String::from_str("220 localhost ESMTP Restmail-Receiver\r\n")
}

/// How many recipients in a submission outcome succeeded.
pub open spec fn success_count(rs: Seq<DeliveryResult>) -> nat
    decreases rs.len(),
{
    if rs.len() == 0 {
        0
    } else {
        success_count(rs.drop_last()) + (if rs.last().success {
            1nat
        } else {
            0nat
        })
    }
}

/// The delivery dialog's final response for one completed message, from
/// the submission outcome (when one was attempted) and whether the raw
/// bytes reached the local file:
/// every recipient stored, or no submission attempted but the file written,
/// is plain success; a mixed outcome is partial success; an outcome with
/// no recipient stored degrades to file-only success while the file holds
/// the bytes, and is a permanent failure when it does not; and with no
/// submission and no file the failure is temporary.
pub fn completion_response(outcome: Option<&ReceiveEmailResponse>, file_saved: bool) -> (r: String)
    ensures
        match outcome {
            None => if file_saved {
                r@ == "250 2.0.0 Ok: Queued\r\n"@
            } else {
                r@ == "451 4.3.0 Error: Could not save email\r\n"@
            },
            Some(resp) => {
                let c = success_count(resp.delivered_to@);
                let t = resp.delivered_to@.len();
                if c == t {
                    r@ == "250 2.0.0 Ok: Queued\r\n"@
                } else if c > 0 {
                    r@ == "250 2.0.0 Ok: Partially queued\r\n"@
                } else if file_saved {
                    r@ == "250 2.0.0 Ok: Queued (file only)\r\n"@
                } else {
                    r@ == "550 5.1.1 Delivery failed\r\n"@
                }
            },
        },
{
    match outcome {
        None => {
            if file_saved {
                String::from_str("250 2.0.0 Ok: Queued\r\n")
            } else {
                String::from_str("451 4.3.0 Error: Could not save email\r\n")
            }
        },
        Some(resp) => {
            let n = resp.delivered_to.len();
            let mut c: usize = 0;
            let mut i: usize = 0;
            while i < n
                invariant
                    0 <= i <= n,
                    n == resp.delivered_to@.len(),
                    c <= i,
                    c == success_count(resp.delivered_to@.take(i as int)),
                decreases n - i,
            {
                proof {
                    let tk = resp.delivered_to@.take(i + 1);
                    assert(tk.drop_last() == resp.delivered_to@.take(i as int));
                    assert(tk.last() == resp.delivered_to@[i as int]);
                }
                if resp.delivered_to[i].success {
                    c = c + 1;
                }
                i = i + 1;
            }
            proof {
                assert(resp.delivered_to@.take(n as int) == resp.delivered_to@);
            }
            if c == n {
                String::from_str("250 2.0.0 Ok: Queued\r\n")
            } else if c > 0 {
                String::from_str("250 2.0.0 Ok: Partially queued\r\n")
            } else if file_saved {
                String::from_str("250 2.0.0 Ok: Queued (file only)\r\n")
            } else {
                String::from_str("550 5.1.1 Delivery failed\r\n")
            }
        },
    }
}

/// Relies on `chrono::Local::now` and its `%Y%m%d_%H%M%S` format item: a
/// compact stamp of the current local time.  The result depends on the
/// clock, so nothing is stated of it.
#[verifier::external_body]
fn local_timestamp_string() -> (r: String) {
    format!("{}", chrono::Local::now().format("%Y%m%d_%H%M%S"))
}

/// Relies on `uuid::Uuid::new_v4` and its `Display` form: a fresh random
/// identifier written as 36 hyphenated hexadecimal characters.  The value
/// is random, so only its length is stated.
#[verifier::external_body]
fn fresh_message_id() -> (r: String)
    ensures
        r@.len() == 36,
{
    format!("{}", uuid::Uuid::new_v4())
}

/// The file name a message is stored under, from a time stamp and an
/// identifier.
pub fn eml_filename(stamp: &str, id: &str) -> (r: String)
    ensures
        r@ == stamp@ + "_"@ + id@ + ".eml"@,
{
    let mut out = str_to_chars(stamp);
    let us = str_to_chars("_");
    push_all(&mut out, &us);
    let iv = str_to_chars(id);
    push_all(&mut out, &iv);
    let ext = str_to_chars(".eml");
    push_all(&mut out, &ext);
    chars_to_string(&out)
}

/// A collision-resistant `.eml` file name: the current time stamp joined
/// to a fresh random identifier.
pub fn generate_message_filename() -> (r: String)
    ensures
        exists|stamp: Seq<char>, id: Seq<char>|
            r@ == stamp + "_"@ + id + ".eml"@ && id.len() == 36,
{
    let stamp = local_timestamp_string();
    let id = fresh_message_id();
    let r = eml_filename(stamp.as_str(), id.as_str());
    proof {
        assert(r@ == stamp@ + "_"@ + id@ + ".eml"@ && id@.len() == 36);
    }
    r
}

} // verus!
