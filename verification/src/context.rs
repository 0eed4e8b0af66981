//! Playback identities, the metadata that the web client sends about them,
//! and the registry that holds that metadata until a request claims it.
use vstd::prelude::*;

use crate::text::{non_empty, non_empty_spec, opt_string_view, opt_view};
use crate::model::{opt_str, PlaybackRequest};

verus! {

/// Metadata that the web client reports about a playback.
#[derive(Debug, Clone, Default)]
pub struct PlaybackContext {
    pub item_id: Option<String>,
    pub media_source_id: Option<String>,
    pub play_session_id: Option<String>,
    pub title: Option<String>,
    pub runtime_ticks: Option<i64>,
}

/// The identity of the playback that a player runs.
#[derive(Debug, Clone)]
pub struct Identity {
    pub playback_id: i64,
    pub item_id: Option<String>,
    pub media_source_id: Option<String>,
    pub play_session_id: Option<String>,
}

/// The three identity fields, trimmed, blank ones left out.
pub open spec fn identity_keys(
    item_id: Option<String>,
    media_source_id: Option<String>,
    play_session_id: Option<String>,
) -> Seq<Option<Seq<char>>> {
    seq![
        non_empty_spec(opt_string_view(item_id)),
        non_empty_spec(opt_string_view(media_source_id)),
        non_empty_spec(opt_string_view(play_session_id)),
    ]
}

/// Whether both sides of field `i` are present.
pub open spec fn both_present(expected: Seq<Option<Seq<char>>>, actual: Seq<Option<Seq<char>>>, i: int) -> bool {
    expected[i] is Some && actual[i] is Some
}

/// A context matches an identity when some field is present on both sides
/// and every field present on both sides agrees.
pub open spec fn matches_spec(expected: Seq<Option<Seq<char>>>, actual: Seq<Option<Seq<char>>>) -> bool {
    &&& exists|i: int| 0 <= i < 3 && #[trigger] both_present(expected, actual, i)
    &&& forall|i: int| 0 <= i < 3 && #[trigger] both_present(expected, actual, i) ==> expected[i] == actual[i]
}

impl Identity {
    /// The identity of playback `playback_id` of `launch`.
    pub fn from_launch(playback_id: i64, launch: &PlaybackRequest) -> (r: Identity)
        ensures
            r.playback_id == playback_id,
            r.item_id == launch.item_id,
            r.media_source_id == launch.media_source_id,
            r.play_session_id == launch.play_session_id,
    {
        Identity {
            playback_id,
            item_id: clone_opt(&launch.item_id),
            media_source_id: clone_opt(&launch.media_source_id),
            play_session_id: clone_opt(&launch.play_session_id),
        }
    }

    /// A copy of the identity.
    pub fn duplicate(&self) -> (r: Identity)
        ensures
            r == *self,
    {
        Identity {
            playback_id: self.playback_id,
            item_id: clone_opt(&self.item_id),
            media_source_id: clone_opt(&self.media_source_id),
            play_session_id: clone_opt(&self.play_session_id),
        }
    }

    /// The identity's trimmed, non-blank fields.
    pub open spec fn keys(&self) -> Seq<Option<Seq<char>>> {
        identity_keys(self.item_id, self.media_source_id, self.play_session_id)
    }
}

impl PlaybackContext {
    /// The context's trimmed, non-blank identity fields.
    pub open spec fn keys(&self) -> Seq<Option<Seq<char>>> {
        identity_keys(self.item_id, self.media_source_id, self.play_session_id)
    }
}

/// Compares one field: `Some(false)` on a conflict, `Some(true)` when both
/// sides are present and equal, `None` when a side is missing.
fn compare_field(expected: &Option<String>, actual: &Option<String>) -> (r: Option<bool>)
    ensures
        r is None <==> !(non_empty_spec(opt_string_view(*expected)) is Some && non_empty_spec(
            opt_string_view(*actual),
        ) is Some),
        r matches Some(b) ==> b == (non_empty_spec(opt_string_view(*expected)) == non_empty_spec(
            opt_string_view(*actual),
        )),
{
    let e = non_empty(opt_str(expected));
    let a = non_empty(opt_str(actual));
    match (e, a) {
        (Some(x), Some(y)) => {
            let same = crate::model::str_eq(x, y);
            Some(same)
        },
        _ => None,
    }
}

/// Whether a context describes the identity's playback: it shares at least
/// one identity field with it and contradicts none.
pub fn identity_matches_context(identity: &Identity, context: &PlaybackContext) -> (r: bool)
    ensures
        r == matches_spec(identity.keys(), context.keys()),
{
    let ghost e = identity.keys();
    let ghost a = context.keys();
    let c0 = compare_field(&identity.item_id, &context.item_id);
    let c1 = compare_field(&identity.media_source_id, &context.media_source_id);
    let c2 = compare_field(&identity.play_session_id, &context.play_session_id);
    proof {
        assert(c0 is None <==> !both_present(e, a, 0));
        assert(c1 is None <==> !both_present(e, a, 1));
        assert(c2 is None <==> !both_present(e, a, 2));
    }
    if c0 == Some(false) || c1 == Some(false) || c2 == Some(false) {
        proof {
            if c0 == Some(false) {
                assert(both_present(e, a, 0) && e[0] != a[0]);
            } else if c1 == Some(false) {
                assert(both_present(e, a, 1) && e[1] != a[1]);
            } else {
                assert(both_present(e, a, 2) && e[2] != a[2]);
            }
        }
        return false;
    }
    let matched = c0.is_some() || c1.is_some() || c2.is_some();
    proof {
        if matched {
            if c0 is Some {
                assert(both_present(e, a, 0));
            } else if c1 is Some {
                assert(both_present(e, a, 1));
            } else {
                assert(both_present(e, a, 2));
            }
        }
        assert forall|i: int| 0 <= i < 3 && #[trigger] both_present(e, a, i) implies e[i] == a[i] by {
            if i == 0 {
            } else if i == 1 {
            } else {
            }
        }
        if !matched {
            assert forall|i: int| 0 <= i < 3 implies !#[trigger] both_present(e, a, i) by {
                if i == 0 {
                } else if i == 1 {
                } else {
                }
            }
        }
    }
    matched
}

/// A copy of an optional string.
pub fn clone_opt(value: &Option<String>) -> (r: Option<String>)
    ensures
        r == *value,
        opt_string_view(r) == opt_string_view(*value),
{
    match value {
        Some(v) => Some(v.clone()),
        None => None,
    }
}

/// `target` when it is set, else `source`.
pub open spec fn fill_spec(target: Option<Seq<char>>, source: Option<Seq<char>>) -> Option<Seq<char>> {
    if target is Some {
        target
    } else {
        source
    }
}

/// `target` when it has a non-blank value, else the trimmed `value` when
/// that is non-blank, else `target` unchanged.
pub open spec fn fill_string_spec(target: Option<Seq<char>>, value: Option<Seq<char>>) -> Option<Seq<char>> {
    if non_empty_spec(target) is None && non_empty_spec(value) is Some {
        non_empty_spec(value)
    } else {
        target
    }
}

/// Sets a blank or missing `target` to the trimmed `value` when that is not blank.
pub fn fill_string(target: &mut Option<String>, value: Option<&str>)
    ensures
        opt_string_view(*final(target)) == fill_string_spec(opt_string_view(*old(target)), opt_view(value)),
{
    if non_empty(opt_str(target)).is_none() {
        if let Some(v) = non_empty(value) {
            *target = Some(crate::text::to_owned(v));
        }
    }
}

/// Fills the identity's blank fields from the context's non-blank ones,
/// trimmed; fields it already has stay as they are.
pub fn fill_identity_from_context(identity: &mut Identity, context: &PlaybackContext)
    ensures
        final(identity).playback_id == old(identity).playback_id,
        opt_string_view(final(identity).item_id) == fill_string_spec(
            opt_string_view(old(identity).item_id),
            opt_string_view(context.item_id),
        ),
        opt_string_view(final(identity).media_source_id) == fill_string_spec(
            opt_string_view(old(identity).media_source_id),
            opt_string_view(context.media_source_id),
        ),
        opt_string_view(final(identity).play_session_id) == fill_string_spec(
            opt_string_view(old(identity).play_session_id),
            opt_string_view(context.play_session_id),
        ),
{
    fill_string(&mut identity.item_id, opt_str(&context.item_id));
    fill_string(&mut identity.media_source_id, opt_str(&context.media_source_id));
    fill_string(&mut identity.play_session_id, opt_str(&context.play_session_id));
}

/// Fills the identity's missing fields from a context; fields it already has
/// stay as they are.
pub fn update_identity_from_context(identity: &mut Identity, context: &PlaybackContext)
    ensures
        final(identity).playback_id == old(identity).playback_id,
        opt_string_view(final(identity).item_id) == fill_spec(
            opt_string_view(old(identity).item_id),
            opt_string_view(context.item_id),
        ),
        opt_string_view(final(identity).media_source_id) == fill_spec(
            opt_string_view(old(identity).media_source_id),
            opt_string_view(context.media_source_id),
        ),
        opt_string_view(final(identity).play_session_id) == fill_spec(
            opt_string_view(old(identity).play_session_id),
            opt_string_view(context.play_session_id),
        ),
{
    if identity.item_id.is_none() {
        identity.item_id = clone_opt(&context.item_id);
    }
    if identity.media_source_id.is_none() {
        identity.media_source_id = clone_opt(&context.media_source_id);
    }
    if identity.play_session_id.is_none() {
        identity.play_session_id = clone_opt(&context.play_session_id);
    }
}

/// Filling an identity from a context that matches it keeps it matching.
pub proof fn law_update_keeps_match(identity: Identity, after: Identity, context: PlaybackContext)
    requires
        matches_spec(identity.keys(), context.keys()),
        opt_string_view(after.item_id) == fill_spec(opt_string_view(identity.item_id), opt_string_view(context.item_id)),
        opt_string_view(after.media_source_id) == fill_spec(
            opt_string_view(identity.media_source_id),
            opt_string_view(context.media_source_id),
        ),
        opt_string_view(after.play_session_id) == fill_spec(
            opt_string_view(identity.play_session_id),
            opt_string_view(context.play_session_id),
        ),
    ensures
        matches_spec(after.keys(), context.keys()),
{
    let e = identity.keys();
    let f = after.keys();
    let a = context.keys();
    let w = choose|i: int| 0 <= i < 3 && #[trigger] both_present(e, a, i);
    assert(f[w] == e[w]);
    assert(both_present(f, a, w));
    assert forall|i: int| 0 <= i < 3 && #[trigger] both_present(f, a, i) implies f[i] == a[i] by {
        if both_present(e, a, i) {
            assert(f[i] == e[i]);
        }
    }
}

// ---------------------------------------------------------------------------
// Shutdown deadlines
// ---------------------------------------------------------------------------

/// How long the application waits for an MPC-HC controller to acknowledge shutdown.
pub const SHUTDOWN_ACK_TIMEOUT_MS: u64 = 25_000;

/// How long pending playstate reports may take to flush during shutdown.
pub const PLAYSTATE_SHUTDOWN_FLUSH_TIMEOUT_MS: u64 = 11_000;

/// How long the final close command to MPC-HC may take.
pub const SHUTDOWN_SEND_TIMEOUT_MS: u64 = 5_000;

/// The shutdown acknowledgement outlasts the playstate flush followed by the
/// player's close.
pub proof fn law_shutdown_ack_covers_flush_and_close()
    ensures
        SHUTDOWN_ACK_TIMEOUT_MS > PLAYSTATE_SHUTDOWN_FLUSH_TIMEOUT_MS + SHUTDOWN_SEND_TIMEOUT_MS,
{
}

// ---------------------------------------------------------------------------
// Context registry
// ---------------------------------------------------------------------------

/// `std::time::Instant`, a point on the monotonic clock.
#[verifier::external_type_specification]
#[verifier::external_body]
pub struct ExInstant(std::time::Instant);

/// Reads the monotonic clock (`Instant::now`). Nothing is claimed of the
/// instant it returns.
#[verifier::external_body]
fn instant_now() -> std::time::Instant {
    std::time::Instant::now()
}

/// Milliseconds elapsed since `origin` on the monotonic clock
/// (`Instant::elapsed`, then `Duration::as_millis`). The value depends on
/// the time of the call, so nothing is claimed of it.
#[verifier::external_body]
fn millis_since(origin: &std::time::Instant) -> u128 {
    origin.elapsed().as_millis()
}

/// How long a context stays claimable by default: fifteen minutes.
pub const DEFAULT_CONTEXT_TTL_MS: u64 = 900_000;

/// A context and the clock reading, in milliseconds, at which it arrived.
#[derive(Debug, Clone)]
pub struct PendingContext {
    pub context: PlaybackContext,
    pub seen_at_ms: u128,
}

/// Holds web-client metadata that can arrive before or after the media
/// request it belongs to, for a limited time.
#[derive(Debug)]
pub struct PlaybackContextRegistry {
    ttl_ms: u64,
    origin: std::time::Instant,
    contexts: Vec<PendingContext>,
}

/// Whether a context seen at `seen_at` is still fresh at `now`: the time
/// since then, zero when the clock reads earlier, is at most `ttl`.
pub open spec fn fresh(now: u128, ttl: u64, seen_at: u128) -> bool {
    (if now >= seen_at { now - seen_at } else { 0 }) <= ttl
}

/// The entries that are still fresh at `now`, in their order.
pub open spec fn pruned(entries: Seq<PendingContext>, now: u128, ttl: u64) -> Seq<PendingContext> {
    entries.filter(|p: PendingContext| fresh(now, ttl, p.seen_at_ms))
}

/// Filtering a one-element sequence keeps the element exactly when it passes.
proof fn lemma_filter_one<A>(x: A, keep: spec_fn(A) -> bool)
    ensures
        seq![x].filter(keep) == (if keep(x) { seq![x] } else { Seq::<A>::empty() }),
{
    reveal(Seq::filter);
    assert(seq![x].drop_last() =~= Seq::<A>::empty());
    assert(Seq::<A>::empty().filter(keep) =~= Seq::<A>::empty());
    assert(Seq::<A>::empty().push(x) =~= seq![x]);
}

/// Filtering twice by the same test is filtering once.
proof fn lemma_filter_twice<A>(s: Seq<A>, keep: spec_fn(A) -> bool)
    ensures
        s.filter(keep).filter(keep) == s.filter(keep),
    decreases s.len(),
{
    reveal(Seq::filter);
    if s.len() > 0 {
        lemma_filter_twice(s.drop_last(), keep);
        let f = s.drop_last().filter(keep);
        if keep(s.last()) {
            assert(f.push(s.last()).drop_last() =~= f);
            assert(f.push(s.last()).last() == s.last());
        }
    } else {
        assert(s.filter(keep) =~= Seq::<A>::empty());
        assert(Seq::<A>::empty().filter(keep) =~= Seq::<A>::empty());
    }
}

impl PlaybackContextRegistry {
    /// The pending contexts, oldest first.
    pub closed spec fn entries(&self) -> Seq<PendingContext> {
        self.contexts@
    }

    /// How long, in milliseconds, a context stays claimable.
    pub closed spec fn ttl(&self) -> u64 {
        self.ttl_ms
    }

    /// An empty registry whose contexts stay claimable for `ttl_ms` milliseconds.
    pub fn new(ttl_ms: u64) -> (r: Self)
        ensures
            r.entries() == Seq::<PendingContext>::empty(),
            r.ttl() == ttl_ms,
    {
        PlaybackContextRegistry { ttl_ms, origin: instant_now(), contexts: Vec::new() }
    }

    /// The number of pending contexts.
    pub fn len(&self) -> (r: usize)
        ensures
            r == self.entries().len(),
    {
        self.contexts.len()
    }

    /// The pending context at `index`, oldest first.
    pub fn entry(&self, index: usize) -> (r: &PendingContext)
        requires
            index < self.entries().len(),
        ensures
            *r == self.entries()[index as int],
    {
        &self.contexts[index]
    }

    /// Drops the contexts that are no longer fresh at clock reading `now_ms`.
    pub fn prune_at(&mut self, now_ms: u128)
        ensures
            final(self).entries() == pruned(old(self).entries(), now_ms, old(self).ttl()),
            final(self).ttl() == old(self).ttl(),
    {
        let ghost all = self.contexts@;
        let ttl = self.ttl_ms;
        let ghost keep = |p: PendingContext| fresh(now_ms, ttl, p.seen_at_ms);
        let mut rest: Vec<PendingContext> = Vec::new();
        std::mem::swap(&mut rest, &mut self.contexts);
        let mut kept: Vec<PendingContext> = Vec::new();
        let ghost mut done: int = 0;
        proof {
            assert(all.skip(0) =~= all);
            assert(all.take(0) =~= Seq::<PendingContext>::empty());
            assert(Seq::<PendingContext>::empty().filter(keep) =~= Seq::<PendingContext>::empty()) by {
                reveal(Seq::filter);
            }
        }
        while rest.len() > 0
            invariant
                0 <= done <= all.len(),
                rest@ == all.skip(done),
                kept@ == all.take(done).filter(keep),
                keep == (|p: PendingContext| fresh(now_ms, ttl, p.seen_at_ms)),
            decreases rest.len(),
        {
            let p = rest.remove(0);
            let ghost prev = kept@;
            proof {
                assert(all.take(done + 1) =~= all.take(done) + seq![p]);
                Seq::filter_distributes_over_add(all.take(done), seq![p], keep);
                lemma_filter_one(p, keep);
                assert(rest@ =~= all.skip(done + 1));
            }
            let age = if now_ms >= p.seen_at_ms { now_ms - p.seen_at_ms } else { 0 };
            if age <= ttl as u128 {
                kept.push(p);
                proof {
                    assert(kept@ =~= prev + seq![p]);
                }
            } else {
                proof {
                    assert(kept@ =~= prev + Seq::<PendingContext>::empty());
                }
            }
            proof {
                done = done + 1;
            }
        }
        proof {
            assert(all.take(done) =~= all);
        }
        self.contexts = kept;
    }

    /// Records `context` as seen at clock reading `now_ms`, after dropping
    /// the contexts that are no longer fresh then.
    pub fn remember_at(&mut self, context: PlaybackContext, now_ms: u128)
        ensures
            final(self).entries() == pruned(old(self).entries(), now_ms, old(self).ttl()).push(
                PendingContext { context, seen_at_ms: now_ms },
            ),
            final(self).ttl() == old(self).ttl(),
    {
        self.prune_at(now_ms);
        self.contexts.push(PendingContext { context, seen_at_ms: now_ms });
    }

    /// Drops the contexts that are no longer fresh now.
    pub fn prune(&mut self)
        ensures
            exists|now: u128| final(self).entries() == pruned(old(self).entries(), now, old(self).ttl()),
            final(self).ttl() == old(self).ttl(),
    {
        let now = millis_since(&self.origin);
        self.prune_at(now);
    }

    /// Records `context` as seen now, after dropping stale contexts.
    pub fn remember(&mut self, context: PlaybackContext)
        ensures
            exists|now: u128|
                final(self).entries() == pruned(old(self).entries(), now, old(self).ttl()).push(
                    PendingContext { context, seen_at_ms: now },
                ),
            final(self).ttl() == old(self).ttl(),
    {
        let now = millis_since(&self.origin);
        self.remember_at(context, now);
    }
}

impl Default for PlaybackContextRegistry {
    fn default() -> (r: Self)
        ensures
            r.entries() == Seq::<PendingContext>::empty(),
            r.ttl() == DEFAULT_CONTEXT_TTL_MS,
    {
        Self::new(DEFAULT_CONTEXT_TTL_MS)
    }
}

/// Pruning twice at the same clock reading drops nothing more.
pub proof fn law_prune_idempotent(entries: Seq<PendingContext>, now: u128, ttl: u64)
    ensures
        pruned(pruned(entries, now, ttl), now, ttl) == pruned(entries, now, ttl),
{
    lemma_filter_twice(entries, |p: PendingContext| fresh(now, ttl, p.seen_at_ms));
}

/// A context just remembered survives a prune at the same clock reading,
/// as the newest entry.
pub proof fn law_remembered_context_is_kept(entries: Seq<PendingContext>, context: PlaybackContext, now: u128, ttl: u64)
    ensures
        pruned(pruned(entries, now, ttl).push(PendingContext { context, seen_at_ms: now }), now, ttl)
            == pruned(entries, now, ttl).push(PendingContext { context, seen_at_ms: now }),
{
    let keep = |p: PendingContext| fresh(now, ttl, p.seen_at_ms);
    let p = PendingContext { context, seen_at_ms: now };
    let base = pruned(entries, now, ttl);
    assert(base.push(p) =~= base + seq![p]);
    Seq::filter_distributes_over_add(base, seq![p], keep);
    lemma_filter_one(p, keep);
    lemma_filter_twice(entries, keep);
}

/// Every context that a prune keeps is fresh at that clock reading.
pub proof fn law_pruned_entries_are_fresh(entries: Seq<PendingContext>, now: u128, ttl: u64)
    ensures
        forall|i: int| 0 <= i < pruned(entries, now, ttl).len()
            ==> fresh(now, ttl, #[trigger] pruned(entries, now, ttl)[i].seen_at_ms),
{
    let keep = |p: PendingContext| fresh(now, ttl, p.seen_at_ms);
    assert forall|i: int| 0 <= i < pruned(entries, now, ttl).len() implies fresh(
        now,
        ttl,
        #[trigger] pruned(entries, now, ttl)[i].seen_at_ms,
    ) by {
        entries.lemma_filter_pred(keep, i);
    }
}

} // verus!
