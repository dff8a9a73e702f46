//! The quest registry: owns every published listing and exposes the five
//! operations `publish`, `commit`, `submit`, `grade` and `modify`.
//!
//! Each operation's contract is a transition relation over the registry's
//! view, a `Seq<Listing>`: the relation pins down, for every input, both the
//! outcome and the successor state.  Identifiers are allocated as a
//! monotonically increasing counter, so the listing with identifier `id`
//! sits at position `id` of the view (`ids_in_place`).

use vstd::prelude::*;

use crate::types::{
    ActorId, Base, IncomingQuest, Listing, Modifiable, QuestError, QuestId, QuestStatus, QuestTier,
    SubmissionEntry, TierRecord, first_entry_of, has_committed, has_submitted_entry,
    lemma_first_entry_of,
};

verus! {

/// Every listing's identifier equals its position in the view: identifiers
/// are dense, unique, and allocated in publication order.
pub open spec fn ids_in_place(s: Seq<Listing>) -> bool {
    forall|j: int| 0 <= j < s.len() ==> (#[trigger] s[j]).id == j as u64
}

/// The views agree everywhere but at position `idx`.
pub open spec fn unchanged_except_at(pre: Seq<Listing>, post: Seq<Listing>, idx: int) -> bool {
    &&& post.len() == pre.len()
    &&& forall|j: int| 0 <= j < pre.len() && j != idx ==> post[j] == #[trigger] pre[j]
}

/// Every base field of `b` equals that of `a`, except the submission log and
/// the capacity, which commit and grade change.
pub open spec fn base_eq_mod_log_and_capacity(a: Base, b: Base) -> bool {
    &&& b.provider == a.provider
    &&& b.institution_name == a.institution_name
    &&& b.quest_name == a.quest_name
    &&& b.description == a.description
    &&& b.deliverables == a.deliverables
    &&& b.contact_info == a.contact_info
    &&& b.deadline == a.deadline
    &&& b.skill_token_name == a.skill_token_name
    &&& b.open_try == a.open_try
    &&& b.modified == a.modified
}

/// What `publish` creates: an `Open` listing owned by `caller`, its base
/// fields taken from the payload, its submission log empty, its one-shot
/// modification still available, and its record built from the fields that
/// the selected tier reads.
pub open spec fn fresh_listing(
    l: Listing,
    id: QuestId,
    caller: ActorId,
    tier: QuestTier,
    info: IncomingQuest,
) -> bool {
    &&& l.id == id
    &&& l.status is Open
    &&& l.base.provider == caller
    &&& l.base.institution_name == info.institution_name
    &&& l.base.quest_name == info.quest_name
    &&& l.base.description == info.description
    &&& l.base.deliverables == info.deliverables
    &&& l.base.contact_info == info.contact_info
    &&& l.base.deadline == info.deadline
    &&& l.base.capacity == info.capacity
    &&& l.base.skill_token_name == info.skill_token_name
    &&& l.base.open_try == info.open_try
    &&& l.base.submissions@ == Seq::<SubmissionEntry>::empty()
    &&& l.base.modified == false
    &&& match tier {
        QuestTier::Entry => l.record == (TierRecord::Entry { free_gradings: info.free_gradings }),
        QuestTier::Mid => l.record == (TierRecord::Mid {
            free_gradings: info.free_gradings,
            hiring_for: info.hiring_for,
            skill_tags: info.skill_tags,
            reputation_token: info.reputation_token,
        }),
        QuestTier::Top => l.record == (TierRecord::Top {
            prize: info.prize,
            application_deadline: info.application_deadline,
            reputation_token: info.reputation_token,
        }),
        QuestTier::Dedicated => l.record == (TierRecord::Dedicated {
            dedicated_to: info.dedicated_to,
        }),
    }
}

/// The transition relation of `publish`.  Only allow-listed providers may
/// publish; Entry/Mid payloads must meet the minimum-free-gradings
/// threshold; a Top payload's application deadline must be strictly in the
/// future.  On success the new listing is appended, its identifier is the
/// previous number of listings, and nothing else changes.  On failure the
/// registry is untouched and no identifier is allocated.
pub open spec fn publish_step(
    pre: Seq<Listing>,
    approved: Seq<ActorId>,
    min_gradings: u8,
    caller: ActorId,
    tier: QuestTier,
    info: IncomingQuest,
    block_height: u64,
    post: Seq<Listing>,
    r: Result<QuestId, QuestError>,
) -> bool {
    if !approved.contains(caller) {
        post == pre && r == Err::<QuestId, QuestError>(QuestError::NotApprovedProvider)
    } else if (tier is Entry || tier is Mid) && info.free_gradings < min_gradings {
        post == pre && r == Err::<QuestId, QuestError>(QuestError::BelowMinimumGradings)
    } else if tier is Top && info.application_deadline <= block_height {
        post == pre && r == Err::<QuestId, QuestError>(QuestError::DeadlineNotInFuture)
    } else {
        &&& post.len() == pre.len() + 1
        &&& forall|j: int| 0 <= j < pre.len() ==> post[j] == #[trigger] pre[j]
        &&& fresh_listing(post[pre.len() as int], pre.len() as u64, caller, tier, info)
        &&& r == Ok::<QuestId, QuestError>(pre.len() as u64)
    }
}

/// How `commit` rewrites the listing it touches: a placeholder entry for
/// `caller` is appended to the log; a capacity-consuming tier gives up one
/// slot and turns `Full` when the last slot goes; everything else is kept.
pub open spec fn committed_listing(l: Listing, l2: Listing, caller: ActorId) -> bool {
    &&& l2.id == l.id
    &&& l2.record == l.record
    &&& base_eq_mod_log_and_capacity(l.base, l2.base)
    &&& l2.base.submissions@ == l.base.submissions@.push(
        (SubmissionEntry { committer: caller, payload: None, grading: None }),
    )
    &&& if l.consumes_capacity() {
        &&& l2.base.capacity == l.base.capacity - 1
        &&& l2.status == (if l.base.capacity == 1 {
            QuestStatus::Full
        } else {
            l.status
        })
    } else {
        &&& l2.base.capacity == l.base.capacity
        &&& l2.status == l.status
    }
}

/// The transition relation of `commit`.  The listing must exist and be
/// `Open`; a Dedicated listing takes only its dedicated actor; a repeated
/// commit by the same caller is rejected; a capacity-consuming listing with
/// no remaining slot takes no further committers.  On success the caller's
/// placeholder entry is appended and a tier-labelled confirmation returned;
/// on failure the registry is untouched.
pub open spec fn commit_step(
    pre: Seq<Listing>,
    caller: ActorId,
    id: QuestId,
    post: Seq<Listing>,
    r: Result<QuestTier, QuestError>,
) -> bool {
    if id >= pre.len() {
        post == pre && r == Err::<QuestTier, QuestError>(QuestError::QuestNotFound)
    } else {
        let l = pre[id as int];
        if !(l.status is Open) {
            post == pre && r == Err::<QuestTier, QuestError>(QuestError::QuestNotOpen)
        } else if l.record matches TierRecord::Dedicated { dedicated_to } && caller
            != dedicated_to {
            post == pre && r == Err::<QuestTier, QuestError>(QuestError::NotEligible)
        } else if has_committed(l.base.submissions@, caller) {
            post == pre && r == Err::<QuestTier, QuestError>(QuestError::AlreadyCommitted)
        } else if l.consumes_capacity() && l.base.capacity == 0 {
            post == pre && r == Err::<QuestTier, QuestError>(QuestError::QuestNotOpen)
        } else {
            &&& unchanged_except_at(pre, post, id as int)
            &&& committed_listing(l, post[id as int], caller)
            &&& r == Ok::<QuestTier, QuestError>(l.tier())
        }
    }
}

/// How `submit` rewrites the listing it touches: the caller's placeholder
/// at position `k` of the log is replaced by the handed-in payload; status,
/// capacity and every other field are kept.
pub open spec fn submitted_listing(
    l: Listing,
    l2: Listing,
    k: int,
    caller: ActorId,
    submission: String,
) -> bool {
    &&& l2.id == l.id
    &&& l2.record == l.record
    &&& l2.status == l.status
    &&& base_eq_mod_log_and_capacity(l.base, l2.base)
    &&& l2.base.capacity == l.base.capacity
    &&& l2.base.submissions@ == l.base.submissions@.update(
        k,
        (SubmissionEntry {
            committer: caller,
            payload: Some(submission),
            grading: l.base.submissions@[k].grading,
        }),
    )
}

/// The transition relation of `submit`.  The listing must exist; the caller
/// must hold a slot from an earlier `commit` whose payload is still the
/// placeholder.  On success the payload is filled in; on failure the
/// registry is untouched.  Status is not consulted: a full listing still
/// accepts the work of its committers.
pub open spec fn submit_step(
    pre: Seq<Listing>,
    caller: ActorId,
    id: QuestId,
    submission: String,
    post: Seq<Listing>,
    r: Result<(), QuestError>,
) -> bool {
    if id >= pre.len() {
        post == pre && r == Err::<(), QuestError>(QuestError::QuestNotFound)
    } else {
        let l = pre[id as int];
        let subs = l.base.submissions@;
        let k = first_entry_of(subs, caller);
        if k < 0 {
            post == pre && r == Err::<(), QuestError>(QuestError::NotCommitted)
        } else if subs[k].payload is Some {
            post == pre && r == Err::<(), QuestError>(QuestError::AlreadySubmitted)
        } else {
            &&& unchanged_except_at(pre, post, id as int)
            &&& submitted_listing(l, post[id as int], k, caller, submission)
            &&& r == Ok::<(), QuestError>(())
        }
    }
}

/// How `grade` rewrites the listing it touches: the grading is recorded
/// against the committer's slot at position `k`, whose payload is kept; a
/// capacity-consuming tier regains one slot and reopens when the restored
/// capacity is exactly one.
pub open spec fn graded_listing(l: Listing, l2: Listing, k: int, grading: u8) -> bool {
    let subs = l.base.submissions@;
    &&& l2.id == l.id
    &&& l2.record == l.record
    &&& base_eq_mod_log_and_capacity(l.base, l2.base)
    &&& l2.base.submissions@ == subs.update(
        k,
        (SubmissionEntry {
            committer: subs[k].committer,
            payload: subs[k].payload,
            grading: Some(grading),
        }),
    )
    &&& if l.consumes_capacity() {
        &&& l2.base.capacity == l.base.capacity + 1
        &&& l2.status == (if l.base.capacity + 1 == 1 {
            QuestStatus::Open
        } else {
            l.status
        })
    } else {
        &&& l2.base.capacity == l.base.capacity
        &&& l2.status == l.status
    }
}

/// The transition relation of `grade`.  The listing must exist and the
/// target committer must hold an ungraded slot on its log: a committer
/// without a slot and one whose slot was already graded are both rejected
/// as `NotSubmitted`, so a slot is graded at most once.  A placeholder may
/// be graded: holding a slot is what `grade` checks, not handed-in work.
/// The caller is not consulted: the operation does not demand the
/// listing's provider.  On success the grading is recorded and a
/// capacity-consuming tier regains one slot; on failure the registry is
/// untouched.
pub open spec fn grade_step(
    pre: Seq<Listing>,
    id: QuestId,
    committer: ActorId,
    grading: u8,
    post: Seq<Listing>,
    r: Result<(), QuestError>,
) -> bool {
    if id >= pre.len() {
        post == pre && r == Err::<(), QuestError>(QuestError::QuestNotFound)
    } else {
        let l = pre[id as int];
        let subs = l.base.submissions@;
        let k = first_entry_of(subs, committer);
        if k < 0 || subs[k].grading is Some {
            post == pre && r == Err::<(), QuestError>(QuestError::NotSubmitted)
        } else {
            &&& unchanged_except_at(pre, post, id as int)
            &&& graded_listing(l, post[id as int], k, grading)
            &&& r == Ok::<(), QuestError>(())
        }
    }
}

/// How `modify` rewrites the listing it touches: the five replaceable base
/// fields are overwritten, the modification is spent, and everything else —
/// provider, institution, capacity, status, log and tier record — is kept.
pub open spec fn modified_listing(l: Listing, l2: Listing, info: Modifiable) -> bool {
    &&& l2.id == l.id
    &&& l2.record == l.record
    &&& l2.status == l.status
    &&& l2.base.provider == l.base.provider
    &&& l2.base.institution_name == l.base.institution_name
    &&& l2.base.capacity == l.base.capacity
    &&& l2.base.skill_token_name == l.base.skill_token_name
    &&& l2.base.open_try == l.base.open_try
    &&& l2.base.submissions@ == l.base.submissions@
    &&& l2.base.quest_name == info.quest_name
    &&& l2.base.description == info.description
    &&& l2.base.deliverables == info.deliverables
    &&& l2.base.deadline == info.deadline
    &&& l2.base.contact_info == info.contact_info
    &&& l2.base.modified == true
}

/// The transition relation of `modify`.  The listing must exist, the caller
/// must be its provider, no commitment may have been taken, and the one-shot
/// modification must still be available.  On success the replaceable base
/// fields are overwritten and the shot spent; on failure the registry is
/// untouched.
pub open spec fn modify_step(
    pre: Seq<Listing>,
    caller: ActorId,
    id: QuestId,
    info: Modifiable,
    post: Seq<Listing>,
    r: Result<(), QuestError>,
) -> bool {
    if id >= pre.len() {
        post == pre && r == Err::<(), QuestError>(QuestError::QuestNotFound)
    } else {
        let l = pre[id as int];
        if caller != l.base.provider {
            post == pre && r == Err::<(), QuestError>(QuestError::NotOwner)
        } else if l.base.submissions@.len() > 0 {
            post == pre && r == Err::<(), QuestError>(QuestError::AlreadyHasCommitments)
        } else if l.base.modified {
            post == pre && r == Err::<(), QuestError>(QuestError::AlreadyModified)
        } else {
            &&& unchanged_except_at(pre, post, id as int)
            &&& modified_listing(l, post[id as int], info)
            &&& r == Ok::<(), QuestError>(())
        }
    }
}

/// The registry.  One instance exists per deployment; all mutation happens
/// through the five operations.
pub struct Quests {
    listings: Vec<Listing>,
    approved_providers: Vec<ActorId>,
    minimum_free_gradings: u8,
}

impl View for Quests {
    type V = Seq<Listing>;

    closed spec fn view(&self) -> Seq<Listing> {
        self.listings@
    }
}

/// No two entries of a submission log belong to the same committer.
spec fn entries_unique(s: Seq<SubmissionEntry>) -> bool {
    forall|k1: int, k2: int|
        #![trigger s[k1], s[k2]]
        0 <= k1 < k2 < s.len() ==> s[k1].committer != s[k2].committer
}

/// Number of log entries that have not been graded yet.  For a Mid/Top
/// listing, capacity plus this count never exceeds what was published, which
/// bounds the capacity restored by grading.
spec fn active_count(s: Seq<SubmissionEntry>) -> int
    decreases s.len(),
{
    if s.len() <= 0 {
        0
    } else {
        active_count(s.drop_last()) + if s.last().grading is Some {
            0int
        } else {
            1int
        }
    }
}

proof fn lemma_active_count_bounds(s: Seq<SubmissionEntry>)
    ensures
        0 <= active_count(s) <= s.len(),
    decreases s.len(),
{
    if s.len() > 0 {
        lemma_active_count_bounds(s.drop_last());
    }
}

proof fn lemma_active_count_push(s: Seq<SubmissionEntry>, e: SubmissionEntry)
    ensures
        active_count(s.push(e)) == active_count(s) + if e.grading is Some {
            0int
        } else {
            1int
        },
{
    assert(s.push(e).drop_last() =~= s);
    assert(s.push(e).last() == e);
}

proof fn lemma_active_count_update(s: Seq<SubmissionEntry>, k: int, e: SubmissionEntry)
    requires
        0 <= k < s.len(),
    ensures
        active_count(s.update(k, e)) == active_count(s) - (if s[k].grading is Some {
            0int
        } else {
            1int
        }) + (if e.grading is Some {
            0int
        } else {
            1int
        }),
    decreases s.len(),
{
    let t = s.update(k, e);
    if k == s.len() - 1 {
        assert(t.drop_last() =~= s.drop_last());
        assert(t.last() == e);
        assert(s.last() == s[k]);
    } else {
        assert(t.drop_last() =~= s.drop_last().update(k, e));
        assert(t.last() == s.last());
        lemma_active_count_update(s.drop_last(), k, e);
        assert(s.drop_last()[k] == s[k]);
    }
}

/// At least one entry is ungraded when some position holds an ungraded one.
proof fn lemma_active_count_lower(s: Seq<SubmissionEntry>, k: int)
    requires
        0 <= k < s.len(),
        !(s[k].grading is Some),
    ensures
        active_count(s) >= 1,
    decreases s.len(),
{
    lemma_active_count_bounds(s.drop_last());
    if k < s.len() - 1 {
        lemma_active_count_lower(s.drop_last(), k);
    }
}

/// Internal well-formedness of one listing at position `j`: its identifier
/// is its position, no committer appears twice in its log, and for a
/// capacity-consuming tier the capacity restored by grading every
/// outstanding entry still fits in the counter.
spec fn listing_wf(l: Listing, j: int) -> bool {
    &&& l.id == j as u64
    &&& entries_unique(l.base.submissions@)
    &&& l.consumes_capacity() ==> l.base.capacity as int + active_count(l.base.submissions@)
        <= u64::MAX as int
}

impl Quests {
    #[verifier::type_invariant]
    spec fn wf(self) -> bool {
        forall|j: int| 0 <= j < self.listings@.len() ==> listing_wf(#[trigger] self.listings@[j], j)
    }

    /// The provider allow-list fixed at construction.
    pub closed spec fn approved(&self) -> Seq<ActorId> {
        self.approved_providers@
    }

    /// The registry-wide minimum on `free_gradings`, fixed at construction.
    pub closed spec fn min_gradings(&self) -> u8 {
        self.minimum_free_gradings
    }

    /// Constructs an empty registry from the allow-list of approved
    /// providers and the minimum-free-gradings threshold.
    pub fn new(approved_providers: Vec<ActorId>, minimum_free_gradings: u8) -> (q: Quests)
        ensures
            q@ == Seq::<Listing>::empty(),
            q.approved() == approved_providers@,
            q.min_gradings() == minimum_free_gradings,
            ids_in_place(q@),
            crate::types::registry_status_capacity_ok(q@),
    {
        Quests { listings: Vec::new(), approved_providers, minimum_free_gradings }
    }

    /// Check against the approved providers list.
    fn is_approved(&self, sender: ActorId) -> (b: bool)
        ensures
            b == self.approved().contains(sender),
    {
        contains_actor(&self.approved_providers, sender)
    }

    /// How many listings have been published.
    pub fn listing_count(&self) -> (n: usize)
        ensures
            n == self@.len(),
    {
        self.listings.len()
    }

    /// Publishes a new listing of the selected tier on behalf of `caller`.
    /// `block_height` is the externally supplied monotonic counter against
    /// which a Top payload's application deadline is checked.  Returns the
    /// allocated identifier, or the rejection; a rejected publication
    /// allocates nothing.
    pub fn publish(
        &mut self,
        caller: ActorId,
        tier: QuestTier,
        info: IncomingQuest,
        block_height: u64,
    ) -> (r: Result<QuestId, QuestError>)
        ensures
            publish_step(
                old(self)@,
                old(self).approved(),
                old(self).min_gradings(),
                caller,
                tier,
                info,
                block_height,
                final(self)@,
                r,
            ),
            final(self).approved() == old(self).approved(),
            final(self).min_gradings() == old(self).min_gradings(),
            ids_in_place(final(self)@),
    {
        proof {
            use_type_invariant(&*self);
        }
        if !self.is_approved(caller) {
            return Err(QuestError::NotApprovedProvider);
        }
        match tier {
            QuestTier::Entry | QuestTier::Mid => {
                if info.free_gradings < self.minimum_free_gradings {
                    return Err(QuestError::BelowMinimumGradings);
                }
            },
            QuestTier::Top => {
                if info.application_deadline <= block_height {
                    return Err(QuestError::DeadlineNotInFuture);
                }
            },
            QuestTier::Dedicated => {},
        }
        let id = self.listings.len() as u64;
        let IncomingQuest {
            institution_name,
            quest_name,
            description,
            deliverables,
            contact_info,
            deadline,
            capacity,
            skill_token_name,
            open_try,
            free_gradings,
            hiring_for,
            skill_tags,
            reputation_token,
            prize,
            application_deadline,
            dedicated_to,
        } = info;
        let record = match tier {
            QuestTier::Entry => TierRecord::Entry { free_gradings },
            QuestTier::Mid => TierRecord::Mid {
                free_gradings,
                hiring_for,
                skill_tags,
                reputation_token,
            },
            QuestTier::Top => TierRecord::Top { prize, application_deadline, reputation_token },
            QuestTier::Dedicated => TierRecord::Dedicated { dedicated_to },
        };
        let base = Base {
            provider: caller,
            institution_name,
            quest_name,
            description,
            deliverables,
            contact_info,
            deadline,
            capacity,
            skill_token_name,
            open_try,
            submissions: Vec::new(),
            modified: false,
        };
        let listing = Listing { id, status: QuestStatus::Open, base, record };
        let mut listings: Vec<Listing> = Vec::new();
        core::mem::swap(&mut listings, &mut self.listings);
        listings.push(listing);
        proof {
            assert(active_count(listings@[listings@.len() - 1].base.submissions@) == 0);
        }
        self.listings = listings;
        Ok(id)
    }
}

/// Removing the element at `i` and inserting `x` in its place updates the
/// sequence at `i`.
proof fn lemma_remove_insert_is_update<A>(s: Seq<A>, i: int, x: A)
    requires
        0 <= i < s.len(),
    ensures
        s.remove(i).insert(i, x) == s.update(i, x),
{
    s.remove_ensures(i);
    s.remove(i).insert_ensures(i, x);
    assert(s.remove(i).insert(i, x) =~= s.update(i, x));
}

impl Quests {
    /// Commits `caller` to the listing `id`: records the placeholder entry
    /// that `submit` later replaces, and draws down capacity on the
    /// capacity-consuming tiers.
    pub fn commit(&mut self, caller: ActorId, id: QuestId) -> (r: Result<QuestTier, QuestError>)
        ensures
            commit_step(old(self)@, caller, id, final(self)@, r),
            final(self).approved() == old(self).approved(),
            final(self).min_gradings() == old(self).min_gradings(),
            ids_in_place(final(self)@),
    {
        proof {
            use_type_invariant(&*self);
        }
        let n = self.listings.len();
        if id >= n as u64 {
            return Err(QuestError::QuestNotFound);
        }
        let idx = id as usize;
        let l = &self.listings[idx];
        if l.status != QuestStatus::Open {
            return Err(QuestError::QuestNotOpen);
        }
        if let TierRecord::Dedicated { dedicated_to } = &l.record {
            if caller != *dedicated_to {
                return Err(QuestError::NotEligible);
            }
        }
        if find_entry(&l.base.submissions, caller).is_some() {
            return Err(QuestError::AlreadyCommitted);
        }
        let consumes = matches!(l.record, TierRecord::Mid { .. } | TierRecord::Top { .. });
        if consumes && l.base.capacity == 0 {
            return Err(QuestError::QuestNotOpen);
        }
        let tier = match &l.record {
            TierRecord::Entry { .. } => QuestTier::Entry,
            TierRecord::Mid { .. } => QuestTier::Mid,
            TierRecord::Top { .. } => QuestTier::Top,
            TierRecord::Dedicated { .. } => QuestTier::Dedicated,
        };
        let ghost pre = self.listings@;
        let mut listings: Vec<Listing> = Vec::new();
        core::mem::swap(&mut listings, &mut self.listings);
        let mut listing = listings.remove(idx);
        let ghost old_subs = listing.base.submissions@;
        listing.base.submissions.push(
            SubmissionEntry { committer: caller, payload: None, grading: None },
        );
        if consumes {
            listing.base.capacity = listing.base.capacity - 1;
            if listing.base.capacity == 0 {
                listing.status = QuestStatus::Full;
            }
        }
        proof {
            lemma_remove_insert_is_update(pre, idx as int, listing);
            lemma_active_count_push(
                old_subs,
                SubmissionEntry { committer: caller, payload: None, grading: None },
            );
            lemma_first_entry_of(old_subs, caller);
        }
        listings.insert(idx, listing);
        self.listings = listings;
        Ok(tier)
    }

    /// Hands in `caller`'s work against the listing `id`, replacing the
    /// placeholder entry recorded by `commit`.  Each committer submits at
    /// most once; capacity and status are untouched.
    pub fn submit(&mut self, caller: ActorId, id: QuestId, submission: String) -> (r: Result<
        (),
        QuestError,
    >)
        ensures
            submit_step(old(self)@, caller, id, submission, final(self)@, r),
            final(self).approved() == old(self).approved(),
            final(self).min_gradings() == old(self).min_gradings(),
            ids_in_place(final(self)@),
    {
        proof {
            use_type_invariant(&*self);
        }
        let n = self.listings.len();
        if id >= n as u64 {
            return Err(QuestError::QuestNotFound);
        }
        let idx = id as usize;
        let l = &self.listings[idx];
        let k = match find_entry(&l.base.submissions, caller) {
            None => {
                return Err(QuestError::NotCommitted);
            },
            Some(k) => k,
        };
        if l.base.submissions[k].payload.is_some() {
            return Err(QuestError::AlreadySubmitted);
        }
        let ghost pre = self.listings@;
        let mut listings: Vec<Listing> = Vec::new();
        core::mem::swap(&mut listings, &mut self.listings);
        let mut listing = listings.remove(idx);
        let ghost old_subs = listing.base.submissions@;
        let e = listing.base.submissions.remove(k);
        let e2 = SubmissionEntry {
            committer: e.committer,
            payload: Some(submission),
            grading: e.grading,
        };
        proof {
            lemma_remove_insert_is_update(old_subs, k as int, e2);
            lemma_active_count_update(old_subs, k as int, e2);
            lemma_first_entry_of(old_subs, caller);
        }
        listing.base.submissions.insert(k, e2);
        proof {
            lemma_remove_insert_is_update(pre, idx as int, listing);
        }
        listings.insert(idx, listing);
        self.listings = listings;
        Ok(())
    }

    /// Records `grading` against `committer`'s slot on the listing `id`
    /// and restores one slot of capacity on the capacity-consuming tiers,
    /// reopening a full listing.  Each slot is graded at most once.  The
    /// caller and the submission reference are accepted and not consulted:
    /// in particular, grading is not reserved to the listing's provider.
    pub fn grade(
        &mut self,
        _caller: ActorId,
        id: QuestId,
        committer: ActorId,
        _submission: String,
        grading: u8,
    ) -> (r: Result<(), QuestError>)
        ensures
            grade_step(old(self)@, id, committer, grading, final(self)@, r),
            final(self).approved() == old(self).approved(),
            final(self).min_gradings() == old(self).min_gradings(),
            ids_in_place(final(self)@),
    {
        proof {
            use_type_invariant(&*self);
        }
        let n = self.listings.len();
        if id >= n as u64 {
            return Err(QuestError::QuestNotFound);
        }
        let idx = id as usize;
        let l = &self.listings[idx];
        let k = match find_entry(&l.base.submissions, committer) {
            None => {
                return Err(QuestError::NotSubmitted);
            },
            Some(k) => k,
        };
        if l.base.submissions[k].grading.is_some() {
            return Err(QuestError::NotSubmitted);
        }
        let consumes = matches!(l.record, TierRecord::Mid { .. } | TierRecord::Top { .. });
        let ghost pre = self.listings@;
        let mut listings: Vec<Listing> = Vec::new();
        core::mem::swap(&mut listings, &mut self.listings);
        let mut listing = listings.remove(idx);
        let ghost old_subs = listing.base.submissions@;
        proof {
            lemma_active_count_lower(old_subs, k as int);
            lemma_first_entry_of(old_subs, committer);
        }
        let e = listing.base.submissions.remove(k);
        let e2 = SubmissionEntry {
            committer: e.committer,
            payload: e.payload,
            grading: Some(grading),
        };
        proof {
            lemma_remove_insert_is_update(old_subs, k as int, e2);
            lemma_active_count_update(old_subs, k as int, e2);
        }
        listing.base.submissions.insert(k, e2);
        if consumes {
            listing.base.capacity = listing.base.capacity + 1;
            if listing.base.capacity == 1 {
                listing.status = QuestStatus::Open;
            }
        }
        proof {
            lemma_remove_insert_is_update(pre, idx as int, listing);
        }
        listings.insert(idx, listing);
        self.listings = listings;
        Ok(())
    }

    /// One-shot replacement of the listing's modifiable base fields, open
    /// only to the listing's provider and only while no commitment has been
    /// taken.
    pub fn modify(&mut self, caller: ActorId, id: QuestId, info: Modifiable) -> (r: Result<
        (),
        QuestError,
    >)
        ensures
            modify_step(old(self)@, caller, id, info, final(self)@, r),
            final(self).approved() == old(self).approved(),
            final(self).min_gradings() == old(self).min_gradings(),
            ids_in_place(final(self)@),
    {
        proof {
            use_type_invariant(&*self);
        }
        let n = self.listings.len();
        if id >= n as u64 {
            return Err(QuestError::QuestNotFound);
        }
        let idx = id as usize;
        let l = &self.listings[idx];
        if caller != l.base.provider {
            return Err(QuestError::NotOwner);
        }
        if l.base.submissions.len() > 0 {
            return Err(QuestError::AlreadyHasCommitments);
        }
        if l.base.modified {
            return Err(QuestError::AlreadyModified);
        }
        let Modifiable { quest_name, description, deliverables, deadline, contact_info } = info;
        let ghost pre = self.listings@;
        let mut listings: Vec<Listing> = Vec::new();
        core::mem::swap(&mut listings, &mut self.listings);
        let mut listing = listings.remove(idx);
        listing.base.quest_name = quest_name;
        listing.base.description = description;
        listing.base.deliverables = deliverables;
        listing.base.deadline = deadline;
        listing.base.contact_info = contact_info;
        listing.base.modified = true;
        proof {
            lemma_remove_insert_is_update(pre, idx as int, listing);
        }
        listings.insert(idx, listing);
        self.listings = listings;
        Ok(())
    }

    /// The derived status of the listing `id`, if it exists.
    pub fn status_of(&self, id: QuestId) -> (r: Option<QuestStatus>)
        ensures
            r == (if id < self@.len() {
                Some(self@[id as int].status)
            } else {
                None::<QuestStatus>
            }),
    {
        if id < self.listings.len() as u64 {
            Some(self.listings[id as usize].status)
        } else {
            None
        }
    }

    /// The remaining capacity of the listing `id`, if it exists.
    pub fn capacity_of(&self, id: QuestId) -> (r: Option<u64>)
        ensures
            r == (if id < self@.len() {
                Some(self@[id as int].base.capacity)
            } else {
                None::<u64>
            }),
    {
        if id < self.listings.len() as u64 {
            Some(self.listings[id as usize].base.capacity)
        } else {
            None
        }
    }

    /// The tier of the listing `id`, if it exists.
    pub fn tier_of(&self, id: QuestId) -> (r: Option<QuestTier>)
        ensures
            r == (if id < self@.len() {
                Some(self@[id as int].tier())
            } else {
                None::<QuestTier>
            }),
    {
        if id < self.listings.len() as u64 {
            Some(
                match &self.listings[id as usize].record {
                    TierRecord::Entry { .. } => QuestTier::Entry,
                    TierRecord::Mid { .. } => QuestTier::Mid,
                    TierRecord::Top { .. } => QuestTier::Top,
                    TierRecord::Dedicated { .. } => QuestTier::Dedicated,
                },
            )
        } else {
            None
        }
    }

    /// The provider of the listing `id`, if it exists.
    pub fn provider_of(&self, id: QuestId) -> (r: Option<ActorId>)
        ensures
            r == (if id < self@.len() {
                Some(self@[id as int].base.provider)
            } else {
                None::<ActorId>
            }),
    {
        if id < self.listings.len() as u64 {
            Some(self.listings[id as usize].base.provider)
        } else {
            None
        }
    }

    /// Whether the one-shot modification of the listing `id` has been
    /// spent, if the listing exists.
    pub fn is_modified(&self, id: QuestId) -> (r: Option<bool>)
        ensures
            r == (if id < self@.len() {
                Some(self@[id as int].base.modified)
            } else {
                None::<bool>
            }),
    {
        if id < self.listings.len() as u64 {
            Some(self.listings[id as usize].base.modified)
        } else {
            None
        }
    }

    /// How many entries the listing's submission log holds, if the listing
    /// exists.
    pub fn submission_count(&self, id: QuestId) -> (r: Option<usize>)
        ensures
            r == (if id < self@.len() {
                Some(self@[id as int].base.submissions@.len() as usize)
            } else {
                None::<usize>
            }),
    {
        if id < self.listings.len() as u64 {
            Some(self.listings[id as usize].base.submissions.len())
        } else {
            None
        }
    }

    /// Whether `who` holds a slot in the listing's submission log.  False
    /// when the listing does not exist.
    pub fn has_committed_to(&self, id: QuestId, who: ActorId) -> (b: bool)
        ensures
            b == (id < self@.len() && has_committed(self@[id as int].base.submissions@, who)),
    {
        if id < self.listings.len() as u64 {
            find_entry(&self.listings[id as usize].base.submissions, who).is_some()
        } else {
            false
        }
    }

    /// Whether `who`'s slot on the listing holds handed-in work.  False
    /// when the listing does not exist or `who` holds no slot.
    pub fn has_submitted_to(&self, id: QuestId, who: ActorId) -> (b: bool)
        ensures
            b == (id < self@.len() && has_submitted_entry(self@[id as int].base.submissions@, who)),
    {
        if id < self.listings.len() as u64 {
            match find_entry(&self.listings[id as usize].base.submissions, who) {
                Some(k) => self.listings[id as usize].base.submissions[k].payload.is_some(),
                None => false,
            }
        } else {
            false
        }
    }

    /// The grading recorded against `who`'s slot on the listing, or `None`
    /// when the listing does not exist, `who` holds no slot, or the slot is
    /// ungraded.
    pub fn grading_of(&self, id: QuestId, who: ActorId) -> (r: Option<u8>)
        ensures
            r == (if id < self@.len() && has_committed(self@[id as int].base.submissions@, who) {
                self@[id as int].base.submissions@[first_entry_of(
                    self@[id as int].base.submissions@,
                    who,
                )].grading
            } else {
                None::<u8>
            }),
    {
        if id < self.listings.len() as u64 {
            match find_entry(&self.listings[id as usize].base.submissions, who) {
                Some(k) => self.listings[id as usize].base.submissions[k].grading,
                None => None,
            }
        } else {
            None
        }
    }
}

/// First entry of `who` in a submission log, scanned from the front.
fn find_entry(subs: &Vec<SubmissionEntry>, who: ActorId) -> (r: Option<usize>)
    ensures
        match r {
            Some(k) => k < subs@.len() && subs@[k as int].committer == who && first_entry_of(
                subs@,
                who,
            ) == k as int,
            None => first_entry_of(subs@, who) < 0,
        },
{
    let mut i: usize = 0;
    while i < subs.len()
        invariant
            i <= subs@.len(),
            forall|m: int| 0 <= m < i ==> subs@[m].committer != who,
        decreases subs@.len() - i,
    {
        if subs[i].committer == who {
            proof {
                lemma_first_entry_of(subs@, who);
            }
            return Some(i);
        }
        i = i + 1;
    }
    proof {
        lemma_first_entry_of(subs@, who);
    }
    None
}

/// Linear scan of the allow-list.
fn contains_actor(v: &Vec<ActorId>, who: ActorId) -> (b: bool)
    ensures
        b == v@.contains(who),
{
    let mut i: usize = 0;
    while i < v.len()
        invariant
            i <= v@.len(),
            forall|m: int| 0 <= m < i ==> v@[m] != who,
        decreases v@.len() - i,
    {
        if v[i] == who {
            return true;
        }
        i = i + 1;
    }
    false
}

} // verus!
