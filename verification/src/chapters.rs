//! The chapter list mpv shows: the file's own chapters, with the segment
//! markers merged in once the segments and the duration are known. The
//! merged list is sent until mpv reports it back, at most a fixed number of
//! times; the markers are told apart from the file's chapters by comparing
//! with the markers that were put in.
use vstd::prelude::*;

use crate::markers::{build_segment_chapter_markers, copy_chapter, dedup_spec, inside, merge_chapter_markers, raw_markers_ok, sort_spec, Chapter};
use crate::segments::SkipSegment;

verus! {

/// How many times the merged chapter list is sent before giving up.
pub const CHAPTER_MARKER_MAX_ATTEMPTS: u32 = 15;

/// How long after a send the list is sent again, in milliseconds.
pub const CHAPTER_MARKER_RETRY_INTERVAL_MS: u64 = 1_000;

/// Two chapters with the same time and title.
pub open spec fn same_chapter(a: Chapter, b: Chapter) -> bool {
    a.time_ticks == b.time_ticks && a.title@ == b.title@
}

/// Whether a chapter like `c` is in `s`.
pub open spec fn contains_chapter(s: Seq<Chapter>, c: Chapter) -> bool {
    exists|j: int| 0 <= j < s.len() && same_chapter(#[trigger] s[j], c)
}

/// Two lists of the same chapters in the same order.
pub open spec fn same_list(a: Seq<Chapter>, b: Seq<Chapter>) -> bool {
    a.len() == b.len() && forall|i: int| 0 <= i < a.len() ==> same_chapter(#[trigger] a[i], b[i])
}

/// The chapters that are not among the markers put in.
pub open spec fn without_injected(chapters: Seq<Chapter>, injected: Seq<Chapter>) -> Seq<Chapter> {
    chapters.filter(|c: Chapter| !contains_chapter(injected, c))
}

/// Whether every marker put in is in the list.
pub open spec fn all_present(chapters: Seq<Chapter>, injected: Seq<Chapter>) -> bool {
    forall|i: int| 0 <= i < injected.len() ==> contains_chapter(chapters, #[trigger] injected[i])
}

/// The markers built for `segments` in a file of `duration_ticks`.
pub open spec fn built(segments: Seq<SkipSegment>, duration_ticks: i64, markers: Seq<Chapter>) -> bool {
    exists|raw: Seq<Chapter>| #[trigger] raw_markers_ok(segments, raw) && markers == dedup_spec(
        sort_spec(raw.filter(|c: Chapter| inside(c, duration_ticks))),
    )
}

/// The file's chapters and the markers merged.
pub open spec fn merged(base: Seq<Chapter>, markers: Seq<Chapter>) -> Seq<Chapter> {
    dedup_spec(sort_spec(base + markers))
}

/// A known, positive duration.
pub open spec fn positive_duration(d: Option<i64>) -> bool {
    d matches Some(t) && t > 0
}

/// The view of an optional list.
pub open spec fn opt_seq(v: Option<Vec<Chapter>>) -> Option<Seq<Chapter>> {
    match v {
        Some(l) => Some(l@),
        None => None,
    }
}

/// The chapter bookkeeping of one mpv session.
#[derive(Debug)]
pub struct ChapterMarkers {
    /// The file's own chapters, once mpv reported them.
    pub file_chapters: Option<Vec<Chapter>>,
    /// The markers last merged in.
    pub injected: Vec<Chapter>,
    /// The list last sent to mpv.
    pub last_sent: Option<Vec<Chapter>>,
    /// The list waiting to be sent.
    pub pending: Option<Vec<Chapter>>,
    pub attempts: u32,
    pub next_attempt_at_ms: Option<u64>,
}

/// Whether `b` keeps everything of `a` but the list waiting to be sent and
/// its schedule.
pub open spec fn same_but_queue(a: ChapterMarkers, b: ChapterMarkers) -> bool {
    &&& opt_seq(b.file_chapters) == opt_seq(a.file_chapters)
    &&& b.injected@ == a.injected@
    &&& opt_seq(b.last_sent) == opt_seq(a.last_sent)
}

/// Whether the two agree in everything.
pub open spec fn same_markers(a: ChapterMarkers, b: ChapterMarkers) -> bool {
    &&& same_but_queue(a, b)
    &&& opt_seq(b.pending) == opt_seq(a.pending)
    &&& b.attempts == a.attempts
    &&& b.next_attempt_at_ms == a.next_attempt_at_ms
}

/// `new` is `old` with `list` queued at `now`: a list that was last sent
/// and is not superseded, or that is already waiting, changes nothing;
/// otherwise it waits to be sent at once, with no attempt made yet.
pub open spec fn queued(old: ChapterMarkers, new: ChapterMarkers, list: Seq<Chapter>, now: u64) -> bool {
    &&& same_but_queue(old, new)
    &&& if (old.pending is None && (opt_seq(old.last_sent) matches Some(l) && same_list(l, list))) || (opt_seq(
        old.pending,
    ) matches Some(p) && same_list(p, list)) {
        &&& opt_seq(new.pending) == opt_seq(old.pending)
        &&& new.attempts == old.attempts
        &&& new.next_attempt_at_ms == old.next_attempt_at_ms
    } else {
        &&& opt_seq(new.pending) == Some(list)
        &&& new.attempts == 0
        &&& new.next_attempt_at_ms == Some(now)
    }
}

/// `new` and `r` are what refreshing with markers `m` and the file's
/// chapters `base` at `now` make of `old`: without markers nothing is put
/// in or waiting, and a list sent before is replaced by the file's own
/// chapters at once; with markers they are put in and the merged list is
/// queued.
pub open spec fn refreshed_with(
    old: ChapterMarkers,
    new: ChapterMarkers,
    m: Seq<Chapter>,
    base: Seq<Chapter>,
    now: u64,
    r: Option<Seq<Chapter>>,
) -> bool {
    if m.len() == 0 {
        &&& new.injected@ == Seq::<Chapter>::empty()
        &&& new.pending is None
        &&& new.next_attempt_at_ms is None
        &&& new.last_sent is None
        &&& new.attempts == old.attempts
        &&& opt_seq(new.file_chapters) == opt_seq(old.file_chapters)
        &&& r == (if old.last_sent is Some {
            Some(base)
        } else {
            None
        })
    } else {
        &&& new.injected@ == m
        &&& queued(ChapterMarkers { injected: new.injected, ..old }, new, merged(base, m), now)
        &&& r is None
    }
}

/// A copy of a list of chapters.
fn copy_chapters(v: &Vec<Chapter>) -> (r: Vec<Chapter>)
    ensures
        r@ == v@,
{
    let mut out: Vec<Chapter> = Vec::new();
    let mut i: usize = 0;
    while i < v.len()
        invariant
            i <= v@.len(),
            out@ == v@.take(i as int),
        decreases v.len() - i,
    {
        out.push(copy_chapter(&v[i]));
        proof {
            assert(out@ =~= v@.take(i + 1));
        }
        i = i + 1;
    }
    proof {
        assert(v@.take(v@.len() as int) =~= v@);
    }
    out
}

/// Whether two chapters have the same time and title.
fn chapter_eq(a: &Chapter, b: &Chapter) -> (r: bool)
    ensures
        r == same_chapter(*a, *b),
{
    a.time_ticks == b.time_ticks && crate::model::str_eq(a.title.as_str(), b.title.as_str())
}

/// Whether a chapter like `c` is in `s`.
fn contains(s: &Vec<Chapter>, c: &Chapter) -> (r: bool)
    ensures
        r == contains_chapter(s@, *c),
{
    let mut i: usize = 0;
    while i < s.len()
        invariant
            i <= s@.len(),
            forall|j: int| 0 <= j < i ==> !same_chapter(#[trigger] s@[j], *c),
        decreases s.len() - i,
    {
        if chapter_eq(&s[i], c) {
            return true;
        }
        i = i + 1;
    }
    false
}

/// Whether two lists hold the same chapters in the same order.
fn lists_equal(a: &Vec<Chapter>, b: &Vec<Chapter>) -> (r: bool)
    ensures
        r == same_list(a@, b@),
{
    if a.len() != b.len() {
        return false;
    }
    let mut i: usize = 0;
    while i < a.len()
        invariant
            a@.len() == b@.len(),
            i <= a@.len(),
            forall|j: int| 0 <= j < i ==> same_chapter(#[trigger] a@[j], b@[j]),
        decreases a.len() - i,
    {
        if !chapter_eq(&a[i], &b[i]) {
            return false;
        }
        i = i + 1;
    }
    true
}

/// Whether `o` holds a list like `l`.
fn opt_equal(o: &Option<Vec<Chapter>>, l: &Vec<Chapter>) -> (r: bool)
    ensures
        r == (opt_seq(*o) matches Some(x) && same_list(x, l@)),
{
    match o {
        Some(x) => lists_equal(x, l),
        None => false,
    }
}

/// The chapters that are not among the markers put in.
fn filter_injected(chapters: &Vec<Chapter>, injected: &Vec<Chapter>) -> (r: Vec<Chapter>)
    ensures
        r@ == without_injected(chapters@, injected@),
{
    let ghost keep = |c: Chapter| !contains_chapter(injected@, c);
    let mut out: Vec<Chapter> = Vec::new();
    let mut i: usize = 0;
    proof {
        assert(chapters@.take(0) =~= Seq::<Chapter>::empty());
        assert(Seq::<Chapter>::empty().filter(keep) =~= Seq::<Chapter>::empty()) by {
            reveal(Seq::filter);
        }
    }
    while i < chapters.len()
        invariant
            i <= chapters@.len(),
            keep == (|c: Chapter| !contains_chapter(injected@, c)),
            out@ == chapters@.take(i as int).filter(keep),
        decreases chapters.len() - i,
    {
        proof {
            reveal(Seq::filter);
            let t = chapters@.take(i + 1);
            assert(t.drop_last() =~= chapters@.take(i as int));
            assert(t.last() == chapters@[i as int]);
        }
        if !contains(injected, &chapters[i]) {
            out.push(copy_chapter(&chapters[i]));
        }
        i = i + 1;
    }
    proof {
        assert(chapters@.take(chapters@.len() as int) =~= chapters@);
    }
    out
}

/// Whether every marker put in is in the list.
fn every_injected_present(chapters: &Vec<Chapter>, injected: &Vec<Chapter>) -> (r: bool)
    ensures
        r == all_present(chapters@, injected@),
{
    let mut i: usize = 0;
    while i < injected.len()
        invariant
            i <= injected@.len(),
            forall|j: int| 0 <= j < i ==> contains_chapter(chapters@, #[trigger] injected@[j]),
        decreases injected.len() - i,
    {
        if !contains(chapters, &injected[i]) {
            return false;
        }
        i = i + 1;
    }
    true
}

impl ChapterMarkers {
    /// Nothing known, put in, sent or waiting.
    pub fn new() -> (r: Self)
        ensures
            r.file_chapters is None,
            r.injected@ == Seq::<Chapter>::empty(),
            r.last_sent is None,
            r.pending is None,
            r.attempts == 0,
            r.next_attempt_at_ms is None,
    {
        ChapterMarkers {
            file_chapters: None,
            injected: Vec::new(),
            last_sent: None,
            pending: None,
            attempts: 0,
            next_attempt_at_ms: None,
        }
    }

    /// Takes the chapters mpv reported: the file's own are those that are
    /// not markers put in. Returns whether they changed, so the markers are
    /// to be refreshed.
    pub fn capture_original_chapters(&mut self, chapters: Vec<Chapter>) -> (refresh: bool)
        ensures
            ({
                let base = without_injected(chapters@, old(self).injected@);
                if opt_seq(old(self).file_chapters) matches Some(o) && same_list(o, base) {
                    same_markers(*old(self), *final(self)) && !refresh
                } else {
                    &&& opt_seq(final(self).file_chapters) == Some(base)
                    &&& final(self).injected@ == old(self).injected@
                    &&& opt_seq(final(self).last_sent) == opt_seq(old(self).last_sent)
                    &&& opt_seq(final(self).pending) == opt_seq(old(self).pending)
                    &&& final(self).attempts == old(self).attempts
                    &&& final(self).next_attempt_at_ms == old(self).next_attempt_at_ms
                    &&& refresh
                }
            }),
    {
        let base = filter_injected(&chapters, &self.injected);
        if opt_equal(&self.file_chapters, &base) {
            return false;
        }
        self.file_chapters = Some(base);
        true
    }

    /// mpv reported its chapter list: when it holds every marker put in,
    /// the merged list arrived; it is recorded as sent, nothing waits any
    /// more, and the file's own chapters are the rest. Otherwise the list
    /// is taken as the file's own chapters. Returns whether the markers are
    /// to be refreshed.
    pub fn handle_chapter_list_event(&mut self, chapters: Vec<Chapter>) -> (refresh: bool)
        ensures
            ({
                let base = without_injected(chapters@, old(self).injected@);
                if old(self).injected@.len() > 0 && all_present(chapters@, old(self).injected@) {
                    &&& opt_seq(final(self).file_chapters) == Some(base)
                    &&& opt_seq(final(self).last_sent) == Some(chapters@)
                    &&& final(self).pending is None
                    &&& final(self).next_attempt_at_ms is None
                    &&& final(self).injected@ == old(self).injected@
                    &&& final(self).attempts == old(self).attempts
                    &&& !refresh
                } else if opt_seq(old(self).file_chapters) matches Some(o) && same_list(o, base) {
                    same_markers(*old(self), *final(self)) && !refresh
                } else {
                    &&& opt_seq(final(self).file_chapters) == Some(base)
                    &&& final(self).injected@ == old(self).injected@
                    &&& opt_seq(final(self).last_sent) == opt_seq(old(self).last_sent)
                    &&& opt_seq(final(self).pending) == opt_seq(old(self).pending)
                    &&& final(self).attempts == old(self).attempts
                    &&& final(self).next_attempt_at_ms == old(self).next_attempt_at_ms
                    &&& refresh
                }
            }),
    {
        if self.injected.len() > 0 && every_injected_present(&chapters, &self.injected) {
            self.pending = None;
            self.next_attempt_at_ms = None;
            let base = filter_injected(&chapters, &self.injected);
            self.file_chapters = Some(base);
            self.last_sent = Some(chapters);
            return false;
        }
        self.capture_original_chapters(chapters)
    }

    /// Queues `list` to be sent at clock reading `now_ms`.
    pub fn queue_chapter_list(&mut self, list: Vec<Chapter>, now_ms: u64)
        ensures
            queued(*old(self), *final(self), list@, now_ms),
    {
        if self.pending.is_none() && opt_equal(&self.last_sent, &list) {
            return;
        }
        if opt_equal(&self.pending, &list) {
            return;
        }
        self.pending = Some(list);
        self.attempts = 0;
        self.next_attempt_at_ms = Some(now_ms);
    }

    /// Refreshes the markers at clock reading `now_ms` for `segments` in a
    /// file of `duration_ticks`, while mpv plays for us when `active`.
    /// Nothing happens while mpv is inactive, or while segments exist but
    /// the file's chapters or a positive duration are unknown. Returns a
    /// list to send at once: the file's own chapters, when markers that
    /// were sent are to go.
    pub fn refresh_chapter_markers(
        &mut self,
        active: bool,
        segments: &[SkipSegment],
        duration_ticks: Option<i64>,
        now_ms: u64,
    ) -> (r: Option<Vec<Chapter>>)
        ensures
            !active || (segments@.len() > 0 && (old(self).file_chapters is None || !positive_duration(duration_ticks)))
                ==> same_markers(*old(self), *final(self)) && r is None,
            active && segments@.len() == 0 ==> refreshed_with(
                *old(self),
                *final(self),
                Seq::<Chapter>::empty(),
                match opt_seq(old(self).file_chapters) {
                    Some(o) => o,
                    None => Seq::<Chapter>::empty(),
                },
                now_ms,
                opt_seq(r),
            ),
            active && segments@.len() > 0 && old(self).file_chapters is Some && positive_duration(duration_ticks)
                ==> exists|m: Seq<Chapter>|
                #[trigger] built(segments@, duration_ticks.unwrap(), m) && refreshed_with(
                    *old(self),
                    *final(self),
                    m,
                    opt_seq(old(self).file_chapters).unwrap(),
                    now_ms,
                    opt_seq(r),
                ),
    {
        if !active {
            return None;
        }
        let markers = if segments.len() == 0 {
            Vec::new()
        } else {
            if self.file_chapters.is_none() {
                return None;
            }
            let d = match duration_ticks {
                Some(d) => d,
                None => return None,
            };
            if d <= 0 {
                return None;
            }
            build_segment_chapter_markers(segments, d)
        };
        let ghost m = markers@;
        let base = match &self.file_chapters {
            Some(o) => copy_chapters(o),
            None => Vec::new(),
        };
        if markers.len() == 0 {
            self.injected = Vec::new();
            self.pending = None;
            self.next_attempt_at_ms = None;
            let sent = self.last_sent.is_some();
            self.last_sent = None;
            proof {
                if segments@.len() > 0 {
                    assert(built(segments@, duration_ticks.unwrap(), m));
                }
            }
            return if sent {
                Some(base)
            } else {
                None
            };
        }
        self.injected = copy_chapters(&markers);
        let ghost with_markers = *self;
        let list = merge_chapter_markers(base, markers);
        self.queue_chapter_list(list, now_ms);
        proof {
            assert(with_markers == ChapterMarkers { injected: with_markers.injected, ..*old(self) });
            if segments@.len() > 0 {
                assert(built(segments@, duration_ticks.unwrap(), m));
            }
        }
        None
    }

    /// The list to send at clock reading `now_ms`, while mpv plays for us
    /// when `active`: the waiting list once its time has come. After the
    /// last attempt the list is given up.
    pub fn maybe_apply_chapter_markers(&mut self, active: bool, now_ms: u64) -> (r: Option<Vec<Chapter>>)
        ensures
            match opt_seq(old(self).pending) {
                None => same_markers(*old(self), *final(self)) && r is None,
                Some(list) => if !active || (old(self).next_attempt_at_ms matches Some(at) && now_ms < at) {
                    same_markers(*old(self), *final(self)) && r is None
                } else if old(self).attempts >= CHAPTER_MARKER_MAX_ATTEMPTS {
                    &&& same_but_queue(*old(self), *final(self))
                    &&& final(self).pending is None
                    &&& final(self).next_attempt_at_ms is None
                    &&& final(self).attempts == old(self).attempts
                    &&& r is None
                } else {
                    &&& opt_seq(final(self).file_chapters) == opt_seq(old(self).file_chapters)
                    &&& final(self).injected@ == old(self).injected@
                    &&& opt_seq(final(self).pending) == Some(list)
                    &&& opt_seq(final(self).last_sent) == Some(list)
                    &&& final(self).attempts == old(self).attempts + 1
                    &&& final(self).next_attempt_at_ms == Some(
                        if now_ms > u64::MAX - CHAPTER_MARKER_RETRY_INTERVAL_MS {
                            u64::MAX
                        } else {
                            (now_ms + CHAPTER_MARKER_RETRY_INTERVAL_MS) as u64
                        },
                    )
                    &&& opt_seq(r) == Some(list)
                },
            },
    {
        let list = match &self.pending {
            Some(l) => copy_chapters(l),
            None => return None,
        };
        if !active {
            return None;
        }
        if let Some(at) = self.next_attempt_at_ms {
            if now_ms < at {
                return None;
            }
        }
        if self.attempts >= CHAPTER_MARKER_MAX_ATTEMPTS {
            self.pending = None;
            self.next_attempt_at_ms = None;
            return None;
        }
        self.attempts = self.attempts + 1;
        self.last_sent = Some(copy_chapters(&list));
        self.next_attempt_at_ms = Some(
            if now_ms > u64::MAX - CHAPTER_MARKER_RETRY_INTERVAL_MS {
                u64::MAX
            } else {
                now_ms + CHAPTER_MARKER_RETRY_INTERVAL_MS
            },
        );
        Some(list)
    }
}

/// Queuing a list a second time changes nothing: a list is sent once per
/// change, not once per request.
pub proof fn law_queue_twice_changes_nothing(
    a: ChapterMarkers,
    b: ChapterMarkers,
    c: ChapterMarkers,
    list: Seq<Chapter>,
    now: u64,
    later: u64,
)
    requires
        queued(a, b, list, now),
        queued(b, c, list, later),
    ensures
        same_markers(b, c),
{
    assert(same_list(list, list));
}

} // verus!
