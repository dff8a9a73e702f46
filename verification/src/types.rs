//! Data model of the quest registry: actors, tiers, listings, submission
//! logs, and the spec-level helpers that the transition relations and laws
//! share.

use vstd::prelude::*;

verus! {

/// Opaque identity of an external party (a provider or a committer).  The
/// core consumes nothing of it beyond equality.
pub type ActorId = u64;

/// Identifier of a published listing, allocated by the registry as a
/// monotonically increasing counter.
pub type QuestId = u64;

/// The four listing tiers.
#[derive(Clone, Copy, PartialEq, Eq, Structural, Debug)]
pub enum QuestTier {
    Entry,
    Mid,
    Top,
    Dedicated,
}

/// Availability of a listing.  Derived from capacity, never set directly:
/// `Open -> Full` when a capacity-consuming commit drives capacity to zero,
/// `Full -> Open` when a grade raises it back to exactly one.
#[derive(Clone, Copy, PartialEq, Eq, Structural, Debug)]
pub enum QuestStatus {
    Open,
    Full,
}

/// Business-rule rejections.  All are locally recoverable: the caller may
/// retry with corrected input or observe the rejection.
#[derive(Clone, Copy, PartialEq, Eq, Structural, Debug)]
pub enum QuestError {
    NotApprovedProvider,
    BelowMinimumGradings,
    DeadlineNotInFuture,
    QuestNotFound,
    QuestNotOpen,
    NotEligible,
    AlreadyCommitted,
    NotCommitted,
    AlreadySubmitted,
    NotSubmitted,
    NotOwner,
    AlreadyHasCommitments,
    AlreadyModified,
}

/// One slot of a listing's append-only submission log.  `commit` creates
/// the slot as a placeholder (no payload, no grading); `submit` fills the
/// payload at most once; `grade` fills the grading at most once.
pub struct SubmissionEntry {
    pub committer: ActorId,
    /// The handed-in work, or `None` while the slot is still the
    /// commit-time placeholder.
    pub payload: Option<String>,
    /// The grading recorded against the slot, or `None` while ungraded.
    pub grading: Option<u8>,
}

/// Fields shared by every tier.
pub struct Base {
    /// The caller that published the listing; immutable thereafter.
    pub provider: ActorId,
    pub institution_name: String,
    pub quest_name: String,
    pub description: String,
    pub deliverables: String,
    pub contact_info: String,
    /// Informational timestamp; not enforced by the core.
    pub deadline: u64,
    /// Remaining open slots.  Consumed by Mid/Top commits only.
    pub capacity: u64,
    pub skill_token_name: String,
    /// Whether repeated commit attempts are allowed; carried but not
    /// consumed by the commit policy of any tier.
    pub open_try: bool,
    /// Append-only log of commitments and submissions.
    pub submissions: Vec<SubmissionEntry>,
    /// True once the one-shot modification has occurred.
    pub modified: bool,
}

/// Tier-specific extension fields wrapping a base record.
pub enum TierRecord {
    Entry {
        free_gradings: u8,
    },
    Mid {
        free_gradings: u8,
        hiring_for: String,
        skill_tags: Vec<String>,
        reputation_token: u64,
    },
    Top {
        prize: u64,
        application_deadline: u64,
        reputation_token: u64,
    },
    Dedicated {
        /// The sole actor eligible to commit.
        dedicated_to: ActorId,
    },
}

/// A published listing: identifier, derived status, shared base fields and
/// the tier-specific extension.
pub struct Listing {
    pub id: QuestId,
    pub status: QuestStatus,
    pub base: Base,
    pub record: TierRecord,
}

/// Creation payload handed to `publish`.  Every tier reads the shared
/// fields; each tier reads its own extension fields and ignores the rest.
pub struct IncomingQuest {
    pub institution_name: String,
    pub quest_name: String,
    pub description: String,
    pub deliverables: String,
    pub contact_info: String,
    pub deadline: u64,
    pub capacity: u64,
    pub skill_token_name: String,
    pub open_try: bool,
    pub free_gradings: u8,
    pub hiring_for: String,
    pub skill_tags: Vec<String>,
    pub reputation_token: u64,
    pub prize: u64,
    pub application_deadline: u64,
    pub dedicated_to: ActorId,
}

/// Replacement base fields for the one-shot `modify`.
pub struct Modifiable {
    pub quest_name: String,
    pub description: String,
    pub deliverables: String,
    pub deadline: u64,
    pub contact_info: String,
}

impl Listing {
    /// The tier selector matching this listing's record.
    pub open spec fn tier(self) -> QuestTier {
        match self.record {
            TierRecord::Entry { .. } => QuestTier::Entry,
            TierRecord::Mid { .. } => QuestTier::Mid,
            TierRecord::Top { .. } => QuestTier::Top,
            TierRecord::Dedicated { .. } => QuestTier::Dedicated,
        }
    }

    /// Mid and Top listings model a fixed cohort: their commits draw down
    /// capacity and their grades restore it.  Entry and Dedicated listings
    /// never touch capacity.
    pub open spec fn consumes_capacity(self) -> bool {
        self.record is Mid || self.record is Top
    }
}

/// Index of the first entry of `who` in a submission log, or `-1` when `who`
/// has no entry.
pub open spec fn first_entry_of(s: Seq<SubmissionEntry>, who: ActorId) -> int
    decreases s.len(),
{
    if s.len() <= 0 {
        -1
    } else if s[0].committer == who {
        0
    } else {
        let rest = first_entry_of(s.drop_first(), who);
        if rest < 0 {
            -1
        } else {
            rest + 1
        }
    }
}

/// Whether `who` holds a slot in the log, i.e. a commit by `who` succeeded.
pub open spec fn has_committed(s: Seq<SubmissionEntry>, who: ActorId) -> bool {
    first_entry_of(s, who) >= 0
}

/// `k` is the position of `who`'s first entry, stated pointwise.
pub open spec fn is_first_entry_of(s: Seq<SubmissionEntry>, who: ActorId, k: int) -> bool {
    &&& 0 <= k < s.len()
    &&& s[k].committer == who
    &&& forall|m: int| 0 <= m < k ==> s[m].committer != who
}

/// Whether `who`'s slot, if any, holds handed-in work rather than the
/// commit-time placeholder.
pub open spec fn has_submitted_entry(s: Seq<SubmissionEntry>, who: ActorId) -> bool {
    has_committed(s, who) && s[first_entry_of(s, who)].payload is Some
}

/// Whether `who`'s slot, if any, has been graded.
pub open spec fn has_graded_entry(s: Seq<SubmissionEntry>, who: ActorId) -> bool {
    has_committed(s, who) && s[first_entry_of(s, who)].grading is Some
}

/// `first_entry_of` agrees with the pointwise description `is_first_entry_of`.
pub proof fn lemma_first_entry_of(s: Seq<SubmissionEntry>, who: ActorId)
    ensures
        first_entry_of(s, who) < 0 ==> forall|m: int| 0 <= m < s.len() ==> s[m].committer != who,
        first_entry_of(s, who) >= 0 ==> is_first_entry_of(s, who, first_entry_of(s, who)),
    decreases s.len(),
{
    if s.len() > 0 && s[0].committer != who {
        let t = s.drop_first();
        lemma_first_entry_of(t, who);
        let r = first_entry_of(t, who);
        if r < 0 {
            assert forall|m: int| 0 <= m < s.len() implies s[m].committer != who by {
                if m > 0 {
                    assert(t[m - 1] == s[m]);
                }
            }
        } else {
            assert(first_entry_of(s, who) == r + 1);
            assert(s[r + 1] == t[r]);
            assert forall|m: int| 0 <= m < r + 1 implies s[m].committer != who by {
                if m > 0 {
                    assert(t[m - 1] == s[m]);
                }
            }
        }
    }
}

/// The tie between a listing's derived status and its capacity: a Mid/Top
/// listing is `Full` exactly when its remaining capacity is zero, and an
/// Entry/Dedicated listing, which never consumes capacity, stays `Open`.
/// Capacity itself is an unsigned count, non-negative at every point.
pub open spec fn status_capacity_ok(l: Listing) -> bool {
    if l.consumes_capacity() {
        l.status is Full <==> l.base.capacity == 0
    } else {
        l.status is Open
    }
}

/// `status_capacity_ok` for every listing of a registry view.
pub open spec fn registry_status_capacity_ok(s: Seq<Listing>) -> bool {
    forall|j: int| 0 <= j < s.len() ==> status_capacity_ok(#[trigger] s[j])
}

} // verus!
