//! The small decisions around mpv's JSON IPC: request ids, what a command
//! reply means, and whether two player paths name the same program.
use vstd::prelude::*;

use crate::numbers::{decimal, push_decimal};
use crate::text::{chars_of, push_str, string_from_chars, to_owned, trim, trim_end_char, trim_end_chars, trim_start_char, trim_start_chars, trim_str, chars_equal};

verus! {

/// Hands out ids in increasing order, as an atomic `fetch_add(1)` does:
/// each call returns the current value and advances it, wrapping at the
/// end of `i64`.
#[derive(Debug)]
pub struct IdCounter {
    next: i64,
}

impl IdCounter {
    /// The id the next call returns.
    pub closed spec fn peek(&self) -> i64 {
        self.next
    }

    /// A counter whose first id is `first`.
    pub fn new(first: i64) -> (r: Self)
        ensures
            r.peek() == first,
    {
        IdCounter { next: first }
    }

    /// The next id.
    pub fn next_id(&mut self) -> (r: i64)
        ensures
            r == old(self).peek(),
            final(self).peek() == (if old(self).peek() == i64::MAX { i64::MIN } else { (old(self).peek() + 1) as i64 }),
    {
        let id = self.next;
        self.next = if id == i64::MAX {
            i64::MIN
        } else {
            id + 1
        };
        id
    }
}

/// The properties the controller observes, in the order it registers them.
pub open spec fn observed_property(i: int) -> Seq<char> {
    if i == 0 {
        "pause"@
    } else if i == 1 {
        "time-pos"@
    } else if i == 2 {
        "playback-time"@
    } else if i == 3 {
        "duration"@
    } else if i == 4 {
        "volume"@
    } else if i == 5 {
        "mute"@
    } else if i == 6 {
        "eof-reached"@
    } else if i == 7 {
        "seeking"@
    } else if i == 8 {
        "playback-abort"@
    } else {
        "chapter-list"@
    }
}

/// How many properties the controller observes.
pub const OBSERVED_PROPERTY_COUNT: usize = 10;

/// Property `i` of the observed ones.
fn observed_property_name(i: usize) -> (r: &'static str)
    requires
        i < OBSERVED_PROPERTY_COUNT,
    ensures
        r@ == observed_property(i as int),
{
    proof {
        reveal_strlit("pause");
        reveal_strlit("time-pos");
        reveal_strlit("playback-time");
        reveal_strlit("duration");
        reveal_strlit("volume");
        reveal_strlit("mute");
        reveal_strlit("eof-reached");
        reveal_strlit("seeking");
        reveal_strlit("playback-abort");
        reveal_strlit("chapter-list");
    }
    if i == 0 {
        "pause"
    } else if i == 1 {
        "time-pos"
    } else if i == 2 {
        "playback-time"
    } else if i == 3 {
        "duration"
    } else if i == 4 {
        "volume"
    } else if i == 5 {
        "mute"
    } else if i == 6 {
        "eof-reached"
    } else if i == 7 {
        "seeking"
    } else if i == 8 {
        "playback-abort"
    } else {
        "chapter-list"
    }
}

/// `x` as an `i64` that wrapped past its end once.
pub open spec fn wrapped(x: int) -> i64 {
    if x > i64::MAX {
        (x - 18446744073709551616) as i64
    } else {
        x as i64
    }
}

/// An mpv `observe_property` command: `["observe_property", observer_id,
/// property]` with its request id.
#[derive(Debug, Clone, Copy, PartialEq, Eq)]
pub struct ObserveCommand {
    pub observer_id: i64,
    pub property: &'static str,
    pub request_id: i64,
}

/// The commands that register the observed properties, in order, each
/// taking an observer id and then a request id from `ids`.
pub fn observe_commands(ids: &mut IdCounter) -> (r: Vec<ObserveCommand>)
    ensures
        r@.len() == OBSERVED_PROPERTY_COUNT,
        forall|i: int|
            0 <= i < OBSERVED_PROPERTY_COUNT ==> {
                &&& (#[trigger] r@[i]).property@ == observed_property(i)
                &&& r@[i].observer_id == wrapped(old(ids).peek() + 2 * i)
                &&& r@[i].request_id == wrapped(old(ids).peek() + 2 * i + 1)
            },
        final(ids).peek() == wrapped(old(ids).peek() + 2 * OBSERVED_PROPERTY_COUNT),
{
    let ghost first = ids.peek() as int;
    let mut out: Vec<ObserveCommand> = Vec::new();
    let mut i: usize = 0;
    while i < OBSERVED_PROPERTY_COUNT
        invariant
            i <= OBSERVED_PROPERTY_COUNT,
            out@.len() == i,
            ids.peek() == wrapped(first + 2 * i),
            first == old(ids).peek(),
            forall|k: int|
                0 <= k < i ==> {
                    &&& (#[trigger] out@[k]).property@ == observed_property(k)
                    &&& out@[k].observer_id == wrapped(first + 2 * k)
                    &&& out@[k].request_id == wrapped(first + 2 * k + 1)
                },
        decreases OBSERVED_PROPERTY_COUNT - i,
    {
        let observer_id = ids.next_id();
        let request_id = ids.next_id();
        out.push(ObserveCommand { observer_id, property: observed_property_name(i), request_id });
        i = i + 1;
    }
    out
}

/// Why an mpv command failed: the connection failed, or mpv refused it.
#[derive(Debug, Clone, Copy, PartialEq, Eq)]
pub enum FailureKind {
    Transport,
    Rejected,
}

/// An mpv command failure and its description.
#[derive(Debug, Clone)]
pub struct IpcCommandFailure {
    pub kind: FailureKind,
    pub message: String,
}

impl IpcCommandFailure {
    /// Whether the connection failed (rather than mpv refusing the command).
    pub fn is_transport(&self) -> (r: bool)
        ensures
            r == (self.kind == FailureKind::Transport),
    {
        match self.kind {
            FailureKind::Transport => true,
            FailureKind::Rejected => false,
        }
    }

    /// The same failure, its description prefixed by `context` and `: `.
    pub fn with_context(self, context: &str) -> (r: Self)
        ensures
            r.kind == self.kind,
            r.message@ == context@ + ": "@ + self.message@,
    {
        let mut message = to_owned(context);
        push_str(&mut message, ": ");
        push_str(&mut message, self.message.as_str());
        IpcCommandFailure { kind: self.kind, message }
    }
}

/// The kind of a reply that is not a success.
#[derive(Debug, Clone, Copy, PartialEq, Eq)]
pub enum ReplyErrorKind {
    /// mpv answered with an error status.
    Other,
    /// The reply carried no error status.
    InvalidData,
}

/// A reply that is not a success, and its description.
#[derive(Debug, Clone)]
pub struct ReplyError {
    pub kind: ReplyErrorKind,
    pub message: String,
}

/// What a reply to request `request_id` means, given its `error` status
/// (none when the reply has no string status): `success` is success; any
/// other status is a refusal naming it; no status is invalid data.
pub open spec fn reply_result_spec(error: Option<Seq<char>>, request_id: i64) -> Result<(), (ReplyErrorKind, Seq<char>)> {
    match error {
        Some(e) => if e == "success"@ {
            Ok(())
        } else {
            Err((ReplyErrorKind::Other, "mpv rejected request "@ + decimal(request_id as int) + ": "@ + e))
        },
        None => Err(
            (
                ReplyErrorKind::InvalidData,
                "mpv reply for request "@ + decimal(request_id as int) + " did not contain an error status"@,
            ),
        ),
    }
}

/// Interprets mpv's reply to request `request_id` from its `error` status.
pub fn command_reply_result(error: Option<&str>, request_id: i64) -> (r: Result<(), ReplyError>)
    ensures
        match (r, reply_result_spec(crate::text::opt_view(error), request_id)) {
            (Ok(()), Ok(())) => true,
            (Err(e), Err((kind, message))) => e.kind == kind && e.message@ == message,
            _ => false,
        },
{
    match error {
        Some(e) => {
            let status = chars_of(e);
            let success = chars_of("success");
            if chars_equal(&status, &success) {
                Ok(())
            } else {
                let mut message = to_owned("mpv rejected request ");
                push_decimal(&mut message, request_id);
                push_str(&mut message, ": ");
                push_str(&mut message, e);
                Err(ReplyError { kind: ReplyErrorKind::Other, message })
            }
        },
        None => {
            let mut message = to_owned("mpv reply for request ");
            push_decimal(&mut message, request_id);
            push_str(&mut message, " did not contain an error status");
            Err(ReplyError { kind: ReplyErrorKind::InvalidData, message })
        },
    }
}

/// A player path as compared: without surrounding white space, then
/// without surrounding quotes.
pub open spec fn normalized_path_spec(path: Seq<char>) -> Seq<char> {
    trim_end_char(trim_start_char(trim(path), '"'), '"')
}

/// The form of a player path used for comparison.
pub fn normalize_mpv_path_for_compare(path: &str) -> (r: String)
    ensures
        r@ == normalized_path_spec(path@),
{
    let v = chars_of(trim_str(path));
    let a = trim_start_chars(&v, '"');
    let b = trim_end_chars(&a, '"');
    string_from_chars(&b)
}

/// Whether two player paths name the same program.
pub fn equivalent_mpv_path(left: &str, right: &str) -> (r: bool)
    ensures
        r == (normalized_path_spec(left@) == normalized_path_spec(right@)),
{
    let l = normalize_mpv_path_for_compare(left);
    let r = normalize_mpv_path_for_compare(right);
    let lc = chars_of(l.as_str());
    let rc = chars_of(r.as_str());
    chars_equal(&lc, &rc)
}

} // verus!
