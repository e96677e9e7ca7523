//! The policy delegation protocol: one query of `name=value` lines ended
//! by a blank line, one verdict line in reply.  Reading and writing the
//! socket is the caller's concern; the state transitions and the exact
//! verdict text are decided here.

use vstd::prelude::*;

use crate::strutil::{
    chars_to_string, last_index_of, rfind_char, starts_with_chars, str_to_chars, subrange_chars,
    trim_chars, trim_spec,
};

verus! {

/// The query being read: the last `recipient=` value seen so far.
pub struct PolicyQuery {
    pub recipient: String,
}

impl PolicyQuery {
    pub fn new() -> (r: PolicyQuery)
        ensures
            r.recipient@ == Seq::<char>::empty(),
    {
        PolicyQuery { recipient: String::new() }
    }

    /// Consume one query line.  A blank line ends the query: the caller
    /// must now decide and answer.  A `recipient=` line records everything
    /// after its last `=` (a later occurrence wins); any other line is
    /// ignored.
    pub fn step(&mut self, line: &str) -> (respond: bool)
        ensures
            ({
                let t = trim_spec(line@);
                if t.len() == 0 {
                    respond && final(self).recipient@ == old(self).recipient@
                } else if "recipient="@.is_prefix_of(t) {
                    !respond && final(self).recipient@ == t.skip(last_index_of(t, '=') + 1)
                } else {
                    !respond && final(self).recipient@ == old(self).recipient@
                }
            }),
    {
        let chars = str_to_chars(line);
        let t = trim_chars(&chars);
        if t.len() == 0 {
            return true;
        }
        let prefix = str_to_chars("recipient=");
        if starts_with_chars(&t, &prefix) {
            proof {
                reveal_strlit("recipient=");
                assert("recipient="@.len() == 10);
                assert(t@.subrange(0, 10) == "recipient="@);
                assert(t@[9] == t@.subrange(0, 10)[9]);
                assert(t@[9] == '=');
            }
            match rfind_char(&t, '=') {
                Some(i) => {
                    let rest = subrange_chars(&t, i + 1, t.len());
                    self.recipient = chars_to_string(&rest);
                },
                None => {
                    proof {
                        assert(false);
                    }
                },
            }
        }
        false
    }
}

/// The verdict the policy handler writes: accept, reject, or ask the
/// agent to defer while permitted.
pub enum PolicyVerdict {
    Accept,
    Reject,
    Defer,
}

/// The exact response line (with its terminating blank line) for a
/// verdict.
pub fn verdict_line(v: &PolicyVerdict) -> (r: String)
    ensures
        match *v {
            PolicyVerdict::Accept => r@ == "action=OK\n\n"@,
            PolicyVerdict::Reject => r@ == "action=REJECT Email address not found\n\n"@,
            PolicyVerdict::Defer => r@
                == "action=DEFER_IF_PERMIT Service temporarily unavailable\n\n"@,
        },
{
    match v {
        PolicyVerdict::Accept => String::from_str("action=OK\n\n"),
        PolicyVerdict::Reject => String::from_str("action=REJECT Email address not found\n\n"),
        PolicyVerdict::Defer => String::from_str(
            "action=DEFER_IF_PERMIT Service temporarily unavailable\n\n",
        ),
    }
}

} // verus!
