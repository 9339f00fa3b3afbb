//! An explicit log buffer: components hold a handle to it and append
//! timestamped lines; printing the buffer is the caller's affair.

use vstd::prelude::*;
use vstd::string::StringExecFns;

verus! {

/// A wall-clock time of day as `HH:MM:SS`, from seconds since the epoch.
pub open spec fn spec_clock_string(secs: nat) -> Seq<char> {
    crate::numbers::spec_pad2((secs / 3600) % 24) + ":"@ + crate::numbers::spec_pad2(
        (secs / 60) % 60,
    ) + ":"@ + crate::numbers::spec_pad2(secs % 60)
}

/// Renders seconds since the epoch as an `HH:MM:SS` time of day.
pub fn format_clock_time(secs: u64) -> (r: String)
    ensures
        r@ == spec_clock_string(secs as nat),
{
    let mut s = crate::numbers::pad2((secs / 3600) % 24);
    s.append(":");
    let m = crate::numbers::pad2((secs / 60) % 60);
    s.append(m.as_str());
    s.append(":");
    let sec = crate::numbers::pad2(secs % 60);
    s.append(sec.as_str());
    proof {
        assert(s@ =~= spec_clock_string(secs as nat));
    }
    s
}

/// Relies on std::time::SystemTime: seconds since the Unix epoch, now.
/// Nothing can be promised of the clock's reading.
#[verifier::external_body]
fn now_unix_seconds() -> u64 {
    std::time::SystemTime::now().duration_since(std::time::SystemTime::UNIX_EPOCH).map(
        |d| d.as_secs(),
    ).unwrap_or(0)
}

/// The current wall-clock time of day as `HH:MM:SS`.
pub fn current_time_str() -> (r: String)
    ensures
        exists|secs: nat| r@ == spec_clock_string(secs),
{
    let secs = now_unix_seconds();
    let r = format_clock_time(secs);
    proof {
        assert(r@ == spec_clock_string(secs as nat));
    }
    r
}

/// A log line: the message under a bracketed clock time.
pub open spec fn spec_log_line(secs: nat, msg: Seq<char>) -> Seq<char> {
    "["@ + spec_clock_string(secs) + "] "@ + msg
}

/// The in-memory log buffer.
pub struct Logger {
    pub messages: Vec<String>,
}

impl Logger {
    /// An empty log.
    pub fn new() -> (r: Self)
        ensures
            r.messages@.len() == 0,
    {
        Logger { messages: Vec::new() }
    }

    /// Appends a message under the current clock time; every earlier line
    /// stays as it is.
    pub fn log(&mut self, msg: &str)
        ensures
            final(self).messages@.len() == old(self).messages@.len() + 1,
            forall|i: int|
                0 <= i < old(self).messages@.len() ==> final(self).messages@[i] == old(
                    self,
                ).messages@[i],
            exists|secs: nat| final(self).messages@.last()@ == spec_log_line(secs, msg@),
    {
        let time_str = current_time_str();
        let ghost secs = choose|secs: nat| time_str@ == spec_clock_string(secs);
        let mut line = String::new();
        line.append("[");
        line.append(time_str.as_str());
        line.append("] ");
        line.append(msg);
        proof {
            assert(line@ =~= spec_log_line(secs, msg@));
        }
        self.messages.push(line);
    }
}

} // verus!
