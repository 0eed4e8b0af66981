//! The resume seek after mpv loads a file: mpv opens the file at its start,
//! and a seek to the resume position follows once the file has settled,
//! retried until mpv reports a position near the target. Until then the
//! resume position, not mpv's transient start, is what the server hears.
use vstd::prelude::*;

verus! {

/// How long after the file loads the resume seek is first sent, in milliseconds.
pub const STARTUP_SEEK_DELAY_MS: u64 = 500;

/// How long after a sent or refused seek it is sent again, in milliseconds.
pub const STARTUP_SEEK_RETRY_DELAY_MS: u64 = 1_000;

/// How far before the target, in ticks, a reported position still counts
/// as having arrived.
pub const STARTUP_SEEK_POSITION_TOLERANCE: i64 = 30_000_000;

/// A resume seek waiting to land. Times are milliseconds on the
/// controller's clock.
#[derive(Debug, Clone, Copy, PartialEq, Eq)]
pub struct StartupSeek {
    pub target_ticks: i64,
    pub due_at_ms: u64,
    pub sent_at_ms: Option<u64>,
}

/// How sending the seek went.
#[derive(Debug, Clone, Copy, PartialEq, Eq)]
pub enum SeekOutcome {
    /// mpv accepted the command.
    Sent,
    /// mpv refused the command.
    Rejected,
    /// The connection to mpv failed.
    TransportFailed,
}

/// `a + b`, saturating.
pub open spec fn sat_add(a: u64, b: u64) -> u64 {
    if a + b > u64::MAX {
        u64::MAX
    } else {
        (a + b) as u64
    }
}

/// `a + b`, saturating.
fn add_saturating(a: u64, b: u64) -> (r: u64)
    ensures
        r == sat_add(a, b),
{
    if a > u64::MAX - b {
        u64::MAX
    } else {
        a + b
    }
}

/// The seek queued once a file loads at clock reading `now`: one to the
/// start position when it is positive, due after the delay; none otherwise.
pub open spec fn queued_spec(start_ticks: i64, now: u64) -> Option<StartupSeek> {
    if start_ticks > 0 {
        Some(StartupSeek { target_ticks: start_ticks, due_at_ms: sat_add(now, STARTUP_SEEK_DELAY_MS), sent_at_ms: None })
    } else {
        None
    }
}

/// The seek queued once a file loads at clock reading `now_ms`: one to the
/// start position when it is positive, due after the delay; none otherwise.
pub fn queue_startup_seek(start_ticks: i64, now_ms: u64) -> (r: Option<StartupSeek>)
    ensures
        r == queued_spec(start_ticks, now_ms),
{
    if start_ticks > 0 {
        Some(
            StartupSeek {
                target_ticks: start_ticks,
                due_at_ms: add_saturating(now_ms, STARTUP_SEEK_DELAY_MS),
                sent_at_ms: None,
            },
        )
    } else {
        None
    }
}

/// The position to seek to at clock reading `now_ms`, when a seek is due.
pub fn due_startup_seek(seek: &Option<StartupSeek>, now_ms: u64) -> (r: Option<i64>)
    ensures
        r == (match *seek {
            Some(s) => if now_ms >= s.due_at_ms {
                Some(s.target_ticks)
            } else {
                None
            },
            None => None,
        }),
{
    match seek {
        Some(s) => if now_ms >= s.due_at_ms {
            Some(s.target_ticks)
        } else {
            None
        },
        None => None,
    }
}

/// The seek after sending it at clock reading `now`, and whether the mpv
/// session is lost: a sent seek is due again after the retry delay (it may
/// not land), a refused one too, without resetting mpv; a failed connection
/// loses the session.
pub open spec fn after_sent_spec(seek: Option<StartupSeek>, outcome: SeekOutcome, now: u64) -> (Option<StartupSeek>, bool) {
    match (seek, outcome) {
        (Some(s), SeekOutcome::Sent) => (
            Some(StartupSeek { sent_at_ms: Some(now), due_at_ms: sat_add(now, STARTUP_SEEK_RETRY_DELAY_MS), ..s }),
            false,
        ),
        (Some(s), SeekOutcome::Rejected) => (
            Some(StartupSeek { due_at_ms: sat_add(now, STARTUP_SEEK_RETRY_DELAY_MS), ..s }),
            false,
        ),
        (_, SeekOutcome::TransportFailed) => (seek, true),
        (None, _) => (None, false),
    }
}

/// The seek after sending it at clock reading `now_ms`, and whether the
/// mpv session is lost.
pub fn after_startup_seek_sent(seek: Option<StartupSeek>, outcome: SeekOutcome, now_ms: u64) -> (r: (
    Option<StartupSeek>,
    bool,
))
    ensures
        r == after_sent_spec(seek, outcome, now_ms),
{
    match (seek, outcome) {
        (Some(s), SeekOutcome::Sent) => (
            Some(
                StartupSeek {
                    sent_at_ms: Some(now_ms),
                    due_at_ms: add_saturating(now_ms, STARTUP_SEEK_RETRY_DELAY_MS),
                    ..s
                },
            ),
            false,
        ),
        (Some(s), SeekOutcome::Rejected) => (
            Some(StartupSeek { due_at_ms: add_saturating(now_ms, STARTUP_SEEK_RETRY_DELAY_MS), ..s }),
            false,
        ),
        (_, SeekOutcome::TransportFailed) => (seek, true),
        (None, _) => (None, false),
    }
}

/// `a - b`, saturating.
pub open spec fn sat_sub(a: i64, b: i64) -> i64 {
    if a - b < i64::MIN {
        i64::MIN
    } else if a - b > i64::MAX {
        i64::MAX
    } else {
        (a - b) as i64
    }
}

/// Whether a reported position is held back while the seek is pending: it
/// lies more than the tolerance before a positive target.
pub open spec fn held_spec(s: StartupSeek, ticks: i64) -> bool {
    s.target_ticks > 0 && ticks < sat_sub(s.target_ticks, STARTUP_SEEK_POSITION_TOLERANCE)
}

/// Takes a position mpv reported while a seek may be pending. Returns
/// whether the position is held back (the resume position stays what the
/// server hears); a position that is not held ends the pending seek.
pub fn defer_startup_position_update(seek: &mut Option<StartupSeek>, ticks: i64) -> (held: bool)
    ensures
        match *old(seek) {
            Some(s) => if held_spec(s, ticks) {
                held && *final(seek) == *old(seek)
            } else {
                !held && *final(seek) is None
            },
            None => !held && *final(seek) is None,
        },
{
    match *seek {
        None => false,
        Some(s) => {
            let minimum = if s.target_ticks < i64::MIN + STARTUP_SEEK_POSITION_TOLERANCE {
                i64::MIN
            } else {
                s.target_ticks - STARTUP_SEEK_POSITION_TOLERANCE
            };
            if s.target_ticks > 0 && ticks < minimum {
                true
            } else {
                *seek = None;
                false
            }
        },
    }
}

/// A pending seek stays pending, to the same target and due again later,
/// whether mpv took or refused it; only a lost connection or a position
/// near the target ends it. A position at or past the tolerance before the
/// target is never held.
pub proof fn law_seek_retried_until_it_lands(s: StartupSeek, outcome: SeekOutcome, now: u64, ticks: i64)
    ensures
        outcome != SeekOutcome::TransportFailed ==> (after_sent_spec(Some(s), outcome, now).0 matches Some(n)
            && n.target_ticks == s.target_ticks && n.due_at_ms >= now && !after_sent_spec(Some(s), outcome, now).1),
        ticks >= s.target_ticks - STARTUP_SEEK_POSITION_TOLERANCE ==> !held_spec(s, ticks),
{
}

} // verus!
