//! Chapter markers for skippable segments: where each segment starts and
//! ends, merged into the file's own chapters in time order, markers that
//! fall within a millisecond of an earlier chapter dropped.
use vstd::prelude::*;

use crate::segments::SkipSegment;
use crate::text::to_owned;

verus! {

/// A chapter: its time in ticks and its title.
#[derive(Debug, Clone, PartialEq, Eq)]
pub struct Chapter {
    pub time_ticks: i64,
    pub title: String,
}

/// Whether chapters are in time order.
pub open spec fn time_ordered(s: Seq<Chapter>) -> bool {
    forall|i: int, j: int| 0 <= i <= j < s.len() ==> #[trigger] s[i].time_ticks <= #[trigger] s[j].time_ticks
}

/// Where a stable insertion puts a chapter at time `t`: after the last
/// chapter, counted from the end, that is not later than `t`.
pub open spec fn insert_pos(s: Seq<Chapter>, t: i64) -> int
    decreases s.len(),
{
    if s.len() == 0 {
        0
    } else if s.last().time_ticks <= t {
        s.len() as int
    } else {
        insert_pos(s.drop_last(), t)
    }
}

/// `c` inserted into `s` after every chapter not later than it.
pub open spec fn insert_sorted(s: Seq<Chapter>, c: Chapter) -> Seq<Chapter> {
    s.insert(insert_pos(s, c.time_ticks), c)
}

/// A stable sort by time: each chapter in turn inserted after the earlier
/// ones that are not later than it.
pub open spec fn sort_spec(s: Seq<Chapter>) -> Seq<Chapter>
    decreases s.len(),
{
    if s.len() == 0 {
        Seq::empty()
    } else {
        insert_sorted(sort_spec(s.drop_last()), s.last())
    }
}

/// Whether two times lie less than a millisecond apart.
pub open spec fn within_a_millisecond(a: i64, b: i64) -> bool {
    -10_000 < a - b < 10_000
}

/// `Vec::dedup_by`: a chapter within a millisecond of the last one kept is dropped.
pub open spec fn dedup_spec(s: Seq<Chapter>) -> Seq<Chapter>
    decreases s.len(),
{
    if s.len() == 0 {
        Seq::empty()
    } else {
        let d = dedup_spec(s.drop_last());
        if d.len() > 0 && within_a_millisecond(s.last().time_ticks, d.last().time_ticks) {
            d
        } else {
            d.push(s.last())
        }
    }
}

/// Where an insertion goes: not later chapters before it, later ones after.
proof fn lemma_insert_pos(s: Seq<Chapter>, t: i64)
    ensures
        0 <= insert_pos(s, t) <= s.len(),
        insert_pos(s, t) > 0 ==> s[insert_pos(s, t) - 1].time_ticks <= t,
        forall|i: int| insert_pos(s, t) <= i < s.len() ==> #[trigger] s[i].time_ticks > t,
    decreases s.len(),
{
    if s.len() > 0 && s.last().time_ticks > t {
        lemma_insert_pos(s.drop_last(), t);
        assert forall|i: int| insert_pos(s, t) <= i < s.len() implies #[trigger] s[i].time_ticks > t by {
            if i < s.len() - 1 {
                assert(s[i] == s.drop_last()[i]);
            }
        }
    }
}

/// Inserting into time-ordered chapters keeps them time-ordered.
proof fn lemma_insert_sorted_ordered(s: Seq<Chapter>, c: Chapter)
    requires
        time_ordered(s),
    ensures
        time_ordered(insert_sorted(s, c)),
        insert_sorted(s, c).to_multiset() == s.to_multiset().insert(c),
{
    let p = insert_pos(s, c.time_ticks);
    lemma_insert_pos(s, c.time_ticks);
    let r = insert_sorted(s, c);
    s.insert_ensures(p, c);
    assert forall|i: int, j: int| 0 <= i <= j < r.len() implies #[trigger] r[i].time_ticks <= #[trigger] r[j].time_ticks by {
        if i < p && j < p {
            assert(r[i] == s[i] && r[j] == s[j]);
        } else if i < p && j == p {
            assert(r[i] == s[i]);
            assert(s[i].time_ticks <= s[p - 1].time_ticks);
        } else if i < p {
            assert(r[i] == s[i] && r[j] == s[j - 1]);
        } else if i == p && j > p {
            assert(r[j] == s[j - 1]);
        } else if i > p {
            assert(r[i] == s[i - 1] && r[j] == s[j - 1]);
        }
    }
    vstd::seq_lib::to_multiset_insert(s, p, c);
}

/// The sort orders chapters by time and keeps every one of them.
pub proof fn law_sort_orders_and_keeps(s: Seq<Chapter>)
    ensures
        time_ordered(sort_spec(s)),
        sort_spec(s).to_multiset() == s.to_multiset(),
        sort_spec(s).len() == s.len(),
    decreases s.len(),
{
    if s.len() > 0 {
        law_sort_orders_and_keeps(s.drop_last());
        lemma_insert_sorted_ordered(sort_spec(s.drop_last()), s.last());
        assert(s =~= s.drop_last().push(s.last()));
        vstd::seq_lib::to_multiset_build(s.drop_last(), s.last());
        vstd::seq_lib::to_multiset_len(sort_spec(s));
        vstd::seq_lib::to_multiset_len(s);
    } else {
        assert(sort_spec(s) =~= s);
    }
}

/// After dropping near-duplicates, consecutive time-ordered chapters lie at
/// least a millisecond apart.
pub proof fn law_dedup_spaces_chapters(s: Seq<Chapter>)
    requires
        time_ordered(s),
    ensures
        forall|i: int| 0 <= i < dedup_spec(s).len() - 1 ==> dedup_spec(s)[i + 1].time_ticks - #[trigger] dedup_spec(
            s,
        )[i].time_ticks >= 10_000,
        time_ordered(dedup_spec(s)),
        dedup_spec(s).len() <= s.len(),
        s.len() > 0 ==> dedup_spec(s).len() > 0 && dedup_spec(s)[0] == s[0],
    decreases s.len(),
{
    if s.len() > 0 {
        let t = s.drop_last();
        assert(time_ordered(t)) by {
            assert forall|i: int, j: int| 0 <= i <= j < t.len() implies #[trigger] t[i].time_ticks <= #[trigger] t[j].time_ticks by {
                assert(t[i] == s[i] && t[j] == s[j]);
            }
        }
        law_dedup_spaces_chapters(t);
        lemma_dedup_from(t);
        let d = dedup_spec(t);
        if d.len() > 0 {
            assert(s.last().time_ticks >= d.last().time_ticks);
        }
        if t.len() == 0 {
            assert(dedup_spec(t) =~= Seq::<Chapter>::empty());
        }
    }
}

/// Chapters kept by the dedup are chapters of the input, in its order.
proof fn lemma_dedup_from(s: Seq<Chapter>)
    ensures
        forall|i: int| 0 <= i < dedup_spec(s).len() ==> exists|j: int| 0 <= j < s.len() && #[trigger] dedup_spec(s)[i]
            == s[j],
    decreases s.len(),
{
    if s.len() > 0 {
        lemma_dedup_from(s.drop_last());
        let d = dedup_spec(s.drop_last());
        assert forall|i: int| 0 <= i < dedup_spec(s).len() implies exists|j: int| 0 <= j < s.len() && #[trigger] dedup_spec(s)[i]
            == s[j] by {
            if i < d.len() {
                let j = choose|j: int| 0 <= j < s.drop_last().len() && d[i] == s.drop_last()[j];
                assert(dedup_spec(s)[i] == d[i]);
                assert(s.drop_last()[j] == s[j]);
            } else {
                assert(dedup_spec(s)[i] == s[s.len() - 1]);
            }
        }
    }
}

/// A copy of a chapter.
pub fn copy_chapter(c: &Chapter) -> (r: Chapter)
    ensures
        r == *c,
{
    Chapter { time_ticks: c.time_ticks, title: c.title.clone() }
}

/// Where a chapter at time `t` goes in `out`.
fn find_insert_pos(out: &Vec<Chapter>, t: i64) -> (p: usize)
    ensures
        p == insert_pos(out@, t),
{
    let mut p = out.len();
    proof {
        assert(out@.take(p as int) =~= out@);
    }
    while p > 0 && out[p - 1].time_ticks > t
        invariant
            p <= out.len(),
            insert_pos(out@, t) == insert_pos(out@.take(p as int), t),
        decreases p,
    {
        proof {
            let s = out@.take(p as int);
            assert(s.drop_last() =~= out@.take(p - 1));
            assert(s.last() == out@[p - 1]);
        }
        p = p - 1;
    }
    proof {
        let s = out@.take(p as int);
        if p > 0 {
            assert(s.last() == out@[p - 1]);
        }
    }
    p
}

/// Chapters sorted by time, stably.
pub fn sort_chapters(chapters: Vec<Chapter>) -> (r: Vec<Chapter>)
    ensures
        r@ == sort_spec(chapters@),
{
    let ghost all = chapters@;
    let mut rest = chapters;
    let mut out: Vec<Chapter> = Vec::new();
    let ghost mut done: int = 0;
    proof {
        assert(all.skip(0) =~= all);
        assert(all.take(0) =~= Seq::<Chapter>::empty());
    }
    while rest.len() > 0
        invariant
            0 <= done <= all.len(),
            rest@ == all.skip(done),
            out@ == sort_spec(all.take(done)),
        decreases rest.len(),
    {
        let c = rest.remove(0);
        let p = find_insert_pos(&out, c.time_ticks);
        proof {
            lemma_insert_pos(out@, c.time_ticks);
            let t = all.take(done + 1);
            assert(t.drop_last() =~= all.take(done));
            assert(t.last() == c);
            assert(rest@ =~= all.skip(done + 1));
        }
        out.insert(p, c);
        proof {
            done = done + 1;
        }
    }
    proof {
        assert(all.take(done) =~= all);
    }
    out
}

/// Whether two times lie less than a millisecond apart.
fn close_times(a: i64, b: i64) -> (r: bool)
    ensures
        r == within_a_millisecond(a, b),
{
    let d = a as i128 - b as i128;
    -10_000 < d && d < 10_000
}

/// Chapters without those within a millisecond of the last one kept.
pub fn dedup_chapters(chapters: &Vec<Chapter>) -> (r: Vec<Chapter>)
    ensures
        r@ == dedup_spec(chapters@),
{
    let mut out: Vec<Chapter> = Vec::new();
    let mut i: usize = 0;
    proof {
        assert(chapters@.take(0) =~= Seq::<Chapter>::empty());
    }
    while i < chapters.len()
        invariant
            i <= chapters.len(),
            out@ == dedup_spec(chapters@.take(i as int)),
        decreases chapters.len() - i,
    {
        proof {
            let t = chapters@.take(i + 1);
            assert(t.drop_last() =~= chapters@.take(i as int));
            assert(t.last() == chapters@[i as int]);
        }
        let keep = out.len() == 0 || !close_times(chapters[i].time_ticks, out[out.len() - 1].time_ticks);
        if keep {
            out.push(copy_chapter(&chapters[i]));
        }
        i = i + 1;
    }
    proof {
        assert(chapters@.take(chapters.len() as int) =~= chapters@);
    }
    out
}

/// Whether a marker lies inside the file: after its start and before its end.
pub open spec fn inside(c: Chapter, duration_ticks: i64) -> bool {
    0 < c.time_ticks && c.time_ticks < duration_ticks
}

/// The start and end markers of every segment, in segment order, each with
/// its title.
pub open spec fn raw_markers_ok(segments: Seq<SkipSegment>, markers: Seq<Chapter>) -> bool {
    &&& markers.len() == 2 * segments.len()
    &&& forall|i: int| 0 <= i < segments.len() ==> {
        &&& #[trigger] markers[2 * i].time_ticks == segments[i].start_ticks
        &&& markers[2 * i].title@ == segments[i].segment_type.countdown_label_spec()
        &&& markers[2 * i + 1].time_ticks == segments[i].end_ticks
        &&& markers[2 * i + 1].title@ == segments[i].segment_type.marker_end_label_spec()
    }
}

/// Chapter markers for `segments` in a file of `duration_ticks`: each
/// segment's start and end, those inside the file, in time order, without
/// markers within a millisecond of the previous one.
pub fn build_segment_chapter_markers(segments: &[SkipSegment], duration_ticks: i64) -> (r: Vec<Chapter>)
    ensures
        exists|raw: Seq<Chapter>| #[trigger] raw_markers_ok(segments@, raw) && r@ == dedup_spec(
            sort_spec(raw.filter(|c: Chapter| inside(c, duration_ticks))),
        ),
{
    let mut raw: Vec<Chapter> = Vec::new();
    let mut i: usize = 0;
    while i < segments.len()
        invariant
            i <= segments.len(),
            raw_markers_ok(segments@.take(i as int), raw@),
        decreases segments.len() - i,
    {
        let s = segments[i];
        let ghost prev = raw@;
        raw.push(Chapter { time_ticks: s.start_ticks, title: to_owned(s.segment_type.marker_start_label()) });
        raw.push(Chapter { time_ticks: s.end_ticks, title: to_owned(s.segment_type.marker_end_label()) });
        proof {
            let t = segments@.take(i + 1);
            assert forall|k: int| 0 <= k < t.len() implies {
                &&& #[trigger] raw@[2 * k].time_ticks == t[k].start_ticks
                &&& raw@[2 * k].title@ == t[k].segment_type.countdown_label_spec()
                &&& raw@[2 * k + 1].time_ticks == t[k].end_ticks
                &&& raw@[2 * k + 1].title@ == t[k].segment_type.marker_end_label_spec()
            } by {
                if k < i {
                    assert(t[k] == segments@.take(i as int)[k]);
                    assert(raw@[2 * k] == prev[2 * k]);
                    assert(raw@[2 * k + 1] == prev[2 * k + 1]);
                } else {
                    assert(t[k] == s);
                }
            }
        }
        i = i + 1;
    }
    proof {
        assert(segments@.take(segments.len() as int) =~= segments@);
    }
    let ghost keep = |c: Chapter| inside(c, duration_ticks);
    let mut kept: Vec<Chapter> = Vec::new();
    let mut j: usize = 0;
    proof {
        assert(raw@.take(0) =~= Seq::<Chapter>::empty());
        assert(Seq::<Chapter>::empty().filter(keep) =~= Seq::<Chapter>::empty()) by {
            reveal(Seq::filter);
        }
    }
    while j < raw.len()
        invariant
            j <= raw.len(),
            keep == (|c: Chapter| inside(c, duration_ticks)),
            kept@ == raw@.take(j as int).filter(keep),
        decreases raw.len() - j,
    {
        proof {
            reveal(Seq::filter);
            let t = raw@.take(j + 1);
            assert(t.drop_last() =~= raw@.take(j as int));
            assert(t.last() == raw@[j as int]);
        }
        let t = raw[j].time_ticks;
        if 0 < t && t < duration_ticks {
            kept.push(copy_chapter(&raw[j]));
        }
        j = j + 1;
    }
    proof {
        assert(raw@.take(raw.len() as int) =~= raw@);
    }
    let sorted = sort_chapters(kept);
    dedup_chapters(&sorted)
}

/// The file's chapters and the segment markers together, in time order, a
/// chapter within a millisecond of the previous one dropped; on equal times
/// the file's own chapter comes first and stays.
pub fn merge_chapter_markers(base: Vec<Chapter>, markers: Vec<Chapter>) -> (r: Vec<Chapter>)
    ensures
        r@ == dedup_spec(sort_spec(base@ + markers@)),
{
    let mut all = base;
    let mut rest = markers;
    all.append(&mut rest);
    let sorted = sort_chapters(all);
    dedup_chapters(&sorted)
}

} // verus!
