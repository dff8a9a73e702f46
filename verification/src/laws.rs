//! Properties that relate several registry operations, proved once over the
//! transition relations of `registry`.
//!
//! Each lemma quantifies over arbitrary registry views related by an
//! operation's transition relation, so it covers every reachable state.

use vstd::prelude::*;

use crate::registry::{
    commit_step, grade_step, modify_step, publish_step, submit_step,
};
use crate::types::{
    ActorId, IncomingQuest, Listing, Modifiable, QuestError, QuestId, QuestTier, TierRecord,
    first_entry_of, has_committed, has_graded_entry, has_submitted_entry, lemma_first_entry_of,
    registry_status_capacity_ok, status_capacity_ok,
};

verus! {

// ----------------------------------------------------------------------
// The status/capacity link.
//
// Capacity is an unsigned count, so it is non-negative at every observable
// point by construction.  The lemmas below show that the link between a
// listing's derived status and its capacity — `Full` exactly at capacity
// zero on the capacity-consuming tiers, permanently `Open` elsewhere — is
// preserved by every operation.  `publish` preserves it for every payload
// whose capacity is positive on a capacity-consuming tier; a Mid/Top
// listing published with zero capacity starts `Open` with nothing left to
// take, which is the one payload the link does not cover.
// ----------------------------------------------------------------------

/// `publish` preserves the status/capacity link, provided a Mid/Top payload
/// carries at least one slot.
pub proof fn publish_preserves_status_capacity_link(
    pre: Seq<Listing>,
    approved: Seq<ActorId>,
    min_gradings: u8,
    caller: ActorId,
    tier: QuestTier,
    info: IncomingQuest,
    block_height: u64,
    post: Seq<Listing>,
    r: Result<QuestId, QuestError>,
)
    requires
        publish_step(pre, approved, min_gradings, caller, tier, info, block_height, post, r),
        registry_status_capacity_ok(pre),
        (tier is Mid || tier is Top) ==> info.capacity >= 1,
    ensures
        registry_status_capacity_ok(post),
{
    if r is Ok {
        assert forall|j: int| 0 <= j < post.len() implies status_capacity_ok(#[trigger] post[j]) by {
            if j < pre.len() {
                assert(post[j] == pre[j]);
                assert(status_capacity_ok(pre[j]));
            }
        }
    }
}

/// `commit` preserves the status/capacity link: a successful commit on a
/// capacity-consuming listing turns it `Full` exactly when it takes the
/// last slot.
pub proof fn commit_preserves_status_capacity_link(
    pre: Seq<Listing>,
    caller: ActorId,
    id: QuestId,
    post: Seq<Listing>,
    r: Result<QuestTier, QuestError>,
)
    requires
        commit_step(pre, caller, id, post, r),
        registry_status_capacity_ok(pre),
    ensures
        registry_status_capacity_ok(post),
{
    if r is Ok {
        assert forall|j: int| 0 <= j < post.len() implies status_capacity_ok(#[trigger] post[j]) by {
            if j != id as int {
                assert(post[j] == pre[j]);
                assert(status_capacity_ok(pre[j]));
            } else {
                assert(status_capacity_ok(pre[j]));
            }
        }
    }
}

/// `submit` touches neither capacity nor status, so it preserves the link.
pub proof fn submit_preserves_status_capacity_link(
    pre: Seq<Listing>,
    caller: ActorId,
    id: QuestId,
    submission: String,
    post: Seq<Listing>,
    r: Result<(), QuestError>,
)
    requires
        submit_step(pre, caller, id, submission, post, r),
        registry_status_capacity_ok(pre),
    ensures
        registry_status_capacity_ok(post),
{
    if r is Ok {
        assert forall|j: int| 0 <= j < post.len() implies status_capacity_ok(#[trigger] post[j]) by {
            assert(status_capacity_ok(pre[j]));
            if j != id as int {
                assert(post[j] == pre[j]);
            }
        }
    }
}

/// `grade` preserves the status/capacity link: restoring a slot on a full
/// capacity-consuming listing reopens it exactly when the restored capacity
/// is one.
pub proof fn grade_preserves_status_capacity_link(
    pre: Seq<Listing>,
    id: QuestId,
    committer: ActorId,
    grading: u8,
    post: Seq<Listing>,
    r: Result<(), QuestError>,
)
    requires
        grade_step(pre, id, committer, grading, post, r),
        registry_status_capacity_ok(pre),
    ensures
        registry_status_capacity_ok(post),
{
    if r is Ok {
        assert forall|j: int| 0 <= j < post.len() implies status_capacity_ok(#[trigger] post[j]) by {
            assert(status_capacity_ok(pre[j]));
            if j != id as int {
                assert(post[j] == pre[j]);
            }
        }
    }
}

/// `modify` touches neither capacity nor status, so it preserves the link.
pub proof fn modify_preserves_status_capacity_link(
    pre: Seq<Listing>,
    caller: ActorId,
    id: QuestId,
    info: Modifiable,
    post: Seq<Listing>,
    r: Result<(), QuestError>,
)
    requires
        modify_step(pre, caller, id, info, post, r),
        registry_status_capacity_ok(pre),
    ensures
        registry_status_capacity_ok(post),
{
    if r is Ok {
        assert forall|j: int| 0 <= j < post.len() implies status_capacity_ok(#[trigger] post[j]) by {
            assert(status_capacity_ok(pre[j]));
            if j != id as int {
                assert(post[j] == pre[j]);
            }
        }
    }
}

// ----------------------------------------------------------------------
// History: what every operation leaves intact.
//
// A listing, once published, is never removed; its identifier, provider and
// tier record never change; its submission log only grows, entries keep
// their committer and are never removed or reordered; handed-in work never
// reverts to a placeholder; and a spent one-shot modification stays spent.
// ----------------------------------------------------------------------

/// What any single operation preserves of one listing.
pub open spec fn listing_evolves_to(a: Listing, b: Listing) -> bool {
    &&& b.id == a.id
    &&& b.record == a.record
    &&& b.base.provider == a.base.provider
    &&& a.base.modified ==> b.base.modified
    &&& a.base.submissions@.len() <= b.base.submissions@.len()
    &&& forall|m: int|
        0 <= m < a.base.submissions@.len() ==> (#[trigger] b.base.submissions@[m]).committer
            == a.base.submissions@[m].committer
    &&& forall|m: int|
        0 <= m < a.base.submissions@.len() && (#[trigger] a.base.submissions@[m]).payload
            is Some ==> b.base.submissions@[m].payload is Some
    &&& forall|m: int|
        0 <= m < a.base.submissions@.len() && (#[trigger] a.base.submissions@[m]).grading
            is Some ==> b.base.submissions@[m].grading is Some
}

/// What any single operation preserves of the whole registry.
pub open spec fn evolves_to(pre: Seq<Listing>, post: Seq<Listing>) -> bool {
    &&& pre.len() <= post.len()
    &&& forall|j: int| 0 <= j < pre.len() ==> listing_evolves_to(#[trigger] pre[j], post[j])
}

/// `publish` only appends.
pub proof fn publish_evolves(
    pre: Seq<Listing>,
    approved: Seq<ActorId>,
    min_gradings: u8,
    caller: ActorId,
    tier: QuestTier,
    info: IncomingQuest,
    block_height: u64,
    post: Seq<Listing>,
    r: Result<QuestId, QuestError>,
)
    requires
        publish_step(pre, approved, min_gradings, caller, tier, info, block_height, post, r),
    ensures
        evolves_to(pre, post),
{
    assert forall|j: int| 0 <= j < pre.len() implies listing_evolves_to(
        #[trigger] pre[j],
        post[j],
    ) by {
        assert(post[j] == pre[j]);
    }
}

/// `commit` only appends one placeholder entry to one log.
pub proof fn commit_evolves(
    pre: Seq<Listing>,
    caller: ActorId,
    id: QuestId,
    post: Seq<Listing>,
    r: Result<QuestTier, QuestError>,
)
    requires
        commit_step(pre, caller, id, post, r),
    ensures
        evolves_to(pre, post),
{
    assert forall|j: int| 0 <= j < pre.len() implies listing_evolves_to(
        #[trigger] pre[j],
        post[j],
    ) by {
        if !(r is Ok) || j != id as int {
            assert(post[j] == pre[j]);
        }
    }
}

/// `submit` only replaces one placeholder by handed-in work.
pub proof fn submit_evolves(
    pre: Seq<Listing>,
    caller: ActorId,
    id: QuestId,
    submission: String,
    post: Seq<Listing>,
    r: Result<(), QuestError>,
)
    requires
        submit_step(pre, caller, id, submission, post, r),
    ensures
        evolves_to(pre, post),
{
    assert forall|j: int| 0 <= j < pre.len() implies listing_evolves_to(
        #[trigger] pre[j],
        post[j],
    ) by {
        if !(r is Ok) || j != id as int {
            assert(post[j] == pre[j]);
        } else {
            lemma_first_entry_of(pre[j].base.submissions@, caller);
        }
    }
}

/// `grade` only records a grading beside handed-in work.
pub proof fn grade_evolves(
    pre: Seq<Listing>,
    id: QuestId,
    committer: ActorId,
    grading: u8,
    post: Seq<Listing>,
    r: Result<(), QuestError>,
)
    requires
        grade_step(pre, id, committer, grading, post, r),
    ensures
        evolves_to(pre, post),
{
    assert forall|j: int| 0 <= j < pre.len() implies listing_evolves_to(
        #[trigger] pre[j],
        post[j],
    ) by {
        if !(r is Ok) || j != id as int {
            assert(post[j] == pre[j]);
        } else {
            lemma_first_entry_of(pre[j].base.submissions@, committer);
        }
    }
}

/// `modify` only overwrites replaceable base fields of an untouched
/// listing, and spends the one shot.
pub proof fn modify_evolves(
    pre: Seq<Listing>,
    caller: ActorId,
    id: QuestId,
    info: Modifiable,
    post: Seq<Listing>,
    r: Result<(), QuestError>,
)
    requires
        modify_step(pre, caller, id, info, post, r),
    ensures
        evolves_to(pre, post),
{
    assert forall|j: int| 0 <= j < pre.len() implies listing_evolves_to(
        #[trigger] pre[j],
        post[j],
    ) by {
        if !(r is Ok) || j != id as int {
            assert(post[j] == pre[j]);
        }
    }
}

/// Evolution composes across any sequence of operations.
pub proof fn evolves_to_trans(a: Seq<Listing>, b: Seq<Listing>, c: Seq<Listing>)
    requires
        evolves_to(a, b),
        evolves_to(b, c),
    ensures
        evolves_to(a, c),
{
    assert forall|j: int| 0 <= j < a.len() implies listing_evolves_to(#[trigger] a[j], c[j]) by {
        assert(listing_evolves_to(a[j], b[j]));
        assert(listing_evolves_to(b[j], c[j]));
    }
}

/// A slot once taken stays taken: `has_committed` survives any evolution.
pub proof fn has_committed_persists(pre: Seq<Listing>, post: Seq<Listing>, j: int, who: ActorId)
    requires
        evolves_to(pre, post),
        0 <= j < pre.len(),
        has_committed(pre[j].base.submissions@, who),
    ensures
        has_committed(post[j].base.submissions@, who),
{
    let a = pre[j].base.submissions@;
    let b = post[j].base.submissions@;
    lemma_first_entry_of(a, who);
    let k = first_entry_of(a, who);
    assert(b[k].committer == who);
    lemma_first_entry_of(b, who);
}

/// Handed-in work never reverts to a placeholder: `has_submitted_entry`
/// survives any evolution.
pub proof fn submitted_entry_persists(
    pre: Seq<Listing>,
    post: Seq<Listing>,
    j: int,
    who: ActorId,
)
    requires
        evolves_to(pre, post),
        0 <= j < pre.len(),
        has_submitted_entry(pre[j].base.submissions@, who),
    ensures
        has_submitted_entry(post[j].base.submissions@, who),
{
    let a = pre[j].base.submissions@;
    let b = post[j].base.submissions@;
    lemma_first_entry_of(a, who);
    let k = first_entry_of(a, who);
    assert(b[k].committer == who);
    lemma_first_entry_of(b, who);
    let k2 = first_entry_of(b, who);
    assert forall|m: int| 0 <= m < k implies b[m].committer != who by {
        assert(b[m].committer == a[m].committer);
    }
    assert(k2 == k);
    assert(b[k].payload is Some);
}

// ----------------------------------------------------------------------
// The one-shot modification.
// ----------------------------------------------------------------------

/// A listing whose one-shot modification is spent rejects every further
/// `modify`, whatever happened in between: a spent shot stays spent (see
/// `listing_evolves_to`).
pub proof fn modify_rejected_when_spent(
    pre: Seq<Listing>,
    post: Seq<Listing>,
    caller: ActorId,
    id: QuestId,
    info: Modifiable,
    r: Result<(), QuestError>,
)
    requires
        modify_step(pre, caller, id, info, post, r),
        (id as int) < pre.len(),
        pre[id as int].base.modified,
    ensures
        r is Err,
        post == pre,
        caller == pre[id as int].base.provider && pre[id as int].base.submissions@.len() == 0
            ==> r == Err::<(), QuestError>(QuestError::AlreadyModified),
{
}

/// A listing with any commitment on record rejects every further `modify`,
/// whatever happened in between: the log never shrinks (see
/// `listing_evolves_to`).
pub proof fn modify_rejected_with_commitments(
    pre: Seq<Listing>,
    post: Seq<Listing>,
    caller: ActorId,
    id: QuestId,
    info: Modifiable,
    r: Result<(), QuestError>,
)
    requires
        modify_step(pre, caller, id, info, post, r),
        (id as int) < pre.len(),
        pre[id as int].base.submissions@.len() > 0,
    ensures
        r is Err,
        post == pre,
        caller == pre[id as int].base.provider ==> r == Err::<(), QuestError>(
            QuestError::AlreadyHasCommitments,
        ),
{
}

/// A modification is accepted at most once: after a successful `modify`, a
/// second `modify` on the same listing is rejected — `AlreadyModified` for
/// the provider, `NotOwner` for anyone else.
pub proof fn modify_rejected_after_modify(
    pre: Seq<Listing>,
    mid: Seq<Listing>,
    post: Seq<Listing>,
    caller1: ActorId,
    caller2: ActorId,
    id: QuestId,
    info1: Modifiable,
    info2: Modifiable,
    r1: Result<(), QuestError>,
    r2: Result<(), QuestError>,
)
    requires
        modify_step(pre, caller1, id, info1, mid, r1),
        r1 is Ok,
        modify_step(mid, caller2, id, info2, post, r2),
    ensures
        caller2 == pre[id as int].base.provider ==> r2 == Err::<(), QuestError>(
            QuestError::AlreadyModified,
        ),
        caller2 != pre[id as int].base.provider ==> r2 == Err::<(), QuestError>(
            QuestError::NotOwner,
        ),
        post == mid,
{
}

/// A modification is never accepted after a commitment: once any `commit`
/// has succeeded on a listing, `modify` is rejected —
/// `AlreadyHasCommitments` for the provider, `NotOwner` for anyone else.
pub proof fn modify_rejected_after_commit(
    pre: Seq<Listing>,
    mid: Seq<Listing>,
    post: Seq<Listing>,
    committer: ActorId,
    caller: ActorId,
    id: QuestId,
    info: Modifiable,
    r1: Result<QuestTier, QuestError>,
    r2: Result<(), QuestError>,
)
    requires
        commit_step(pre, committer, id, mid, r1),
        r1 is Ok,
        modify_step(mid, caller, id, info, post, r2),
    ensures
        caller == pre[id as int].base.provider ==> r2 == Err::<(), QuestError>(
            QuestError::AlreadyHasCommitments,
        ),
        caller != pre[id as int].base.provider ==> r2 == Err::<(), QuestError>(QuestError::NotOwner),
        post == mid,
{
}

// ----------------------------------------------------------------------
// Commitments are taken at most once per caller.
// ----------------------------------------------------------------------

/// A successful `commit` is the caller's first on that listing, and takes
/// the caller's slot.
pub proof fn commit_succeeds_at_most_once(
    pre: Seq<Listing>,
    post: Seq<Listing>,
    caller: ActorId,
    id: QuestId,
    r: Result<QuestTier, QuestError>,
)
    requires
        commit_step(pre, caller, id, post, r),
        r is Ok,
    ensures
        !has_committed(pre[id as int].base.submissions@, caller),
        has_committed(post[id as int].base.submissions@, caller),
{
    let a = pre[id as int].base.submissions@;
    let b = post[id as int].base.submissions@;
    lemma_first_entry_of(a, caller);
    lemma_first_entry_of(b, caller);
    assert(b[a.len() as int].committer == caller);
}

/// A repeated `commit` by the same caller on a listing that is still open
/// to them is rejected as `AlreadyCommitted`, whatever happened in between.
/// (A listing that has meanwhile turned `Full` rejects every commit as
/// `QuestNotOpen` before the duplicate check is reached.)
pub proof fn second_commit_rejected(
    pre: Seq<Listing>,
    post: Seq<Listing>,
    caller: ActorId,
    id: QuestId,
    r: Result<QuestTier, QuestError>,
)
    requires
        commit_step(pre, caller, id, post, r),
        (id as int) < pre.len(),
        pre[id as int].status is Open,
        has_committed(pre[id as int].base.submissions@, caller),
        pre[id as int].record matches TierRecord::Dedicated { dedicated_to } ==> caller
            == dedicated_to,
    ensures
        r == Err::<QuestTier, QuestError>(QuestError::AlreadyCommitted),
        post == pre,
{
}

// ----------------------------------------------------------------------
// Work is handed in once, and only against a taken slot.
// ----------------------------------------------------------------------

/// `submit` without a prior successful `commit` by the same caller on an
/// existing listing is rejected as `NotCommitted`.
pub proof fn submit_requires_commitment(
    pre: Seq<Listing>,
    post: Seq<Listing>,
    caller: ActorId,
    id: QuestId,
    submission: String,
    r: Result<(), QuestError>,
)
    requires
        submit_step(pre, caller, id, submission, post, r),
        (id as int) < pre.len(),
        !has_committed(pre[id as int].base.submissions@, caller),
    ensures
        r == Err::<(), QuestError>(QuestError::NotCommitted),
        post == pre,
{
}

/// Once a caller's slot holds handed-in work, any further `submit` by them
/// is rejected as `AlreadySubmitted` — also after the work was graded.
pub proof fn submit_rejected_after_submission(
    pre: Seq<Listing>,
    post: Seq<Listing>,
    caller: ActorId,
    id: QuestId,
    submission: String,
    r: Result<(), QuestError>,
)
    requires
        submit_step(pre, caller, id, submission, post, r),
        (id as int) < pre.len(),
        has_submitted_entry(pre[id as int].base.submissions@, caller),
    ensures
        r == Err::<(), QuestError>(QuestError::AlreadySubmitted),
        post == pre,
{
}

/// A slot is graded at most once: once a committer's slot holds a grading,
/// any further `grade` targeting them is rejected as `NotSubmitted`.
pub proof fn grade_rejected_after_grading(
    pre: Seq<Listing>,
    post: Seq<Listing>,
    committer: ActorId,
    id: QuestId,
    grading: u8,
    r: Result<(), QuestError>,
)
    requires
        grade_step(pre, id, committer, grading, post, r),
        (id as int) < pre.len(),
        has_graded_entry(pre[id as int].base.submissions@, committer),
    ensures
        r == Err::<(), QuestError>(QuestError::NotSubmitted),
        post == pre,
{
}

/// A second `submit` directly after a successful one is rejected as
/// `AlreadySubmitted`.
pub proof fn second_submit_rejected(
    pre: Seq<Listing>,
    mid: Seq<Listing>,
    post: Seq<Listing>,
    caller: ActorId,
    id: QuestId,
    submission1: String,
    submission2: String,
    r1: Result<(), QuestError>,
    r2: Result<(), QuestError>,
)
    requires
        submit_step(pre, caller, id, submission1, mid, r1),
        r1 is Ok,
        submit_step(mid, caller, id, submission2, post, r2),
    ensures
        r2 == Err::<(), QuestError>(QuestError::AlreadySubmitted),
        post == mid,
{
    let a = pre[id as int].base.submissions@;
    let b = mid[id as int].base.submissions@;
    lemma_first_entry_of(a, caller);
    let k = first_entry_of(a, caller);
    assert(b[k].committer == caller);
    assert forall|m: int| 0 <= m < k implies b[m].committer != caller by {
        assert(b[m] == a[m]);
    }
    lemma_first_entry_of(b, caller);
    assert(first_entry_of(b, caller) == k);
    assert(b[k].payload is Some);
}

} // verus!
