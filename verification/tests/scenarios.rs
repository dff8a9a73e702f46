//! Lifecycle scenarios: capacity and status cycling, tier eligibility, the
//! one-shot modification, deadline enforcement at publication, and every
//! rejection the registry can answer.

use quest::registry::Quests;
use quest::types::{IncomingQuest, Modifiable, QuestError, QuestStatus, QuestTier};

const PROVIDER: u64 = 1;
const ACTOR_A: u64 = 2;
const ACTOR_B: u64 = 3;

fn info_with_capacity(capacity: u64) -> IncomingQuest {
    IncomingQuest {
        institution_name: String::from("institution"),
        quest_name: String::from("quest"),
        description: String::from("description"),
        deliverables: String::from("deliverables"),
        contact_info: String::from("contact"),
        deadline: 0,
        capacity,
        skill_token_name: String::from("token"),
        open_try: false,
        free_gradings: 5,
        hiring_for: String::from("role"),
        skill_tags: vec![String::from("tag")],
        reputation_token: 7,
        prize: 11,
        application_deadline: 1000,
        dedicated_to: ACTOR_A,
    }
}

fn replacement_fields() -> Modifiable {
    Modifiable {
        quest_name: String::from("new quest name"),
        description: String::from("new description"),
        deliverables: String::from("new deliverables"),
        deadline: 99,
        contact_info: String::from("new contact"),
    }
}

// Mid tier, one slot: the slot cycles Open -> Full on the last commit and
// Full -> Open on the grade that restores capacity to one.
#[test]
fn mid_tier_capacity_cycle() {
    let mut q = Quests::new(vec![PROVIDER], 0);
    let id = q
        .publish(PROVIDER, QuestTier::Mid, info_with_capacity(1), 10)
        .expect("publishing must succeed");
    assert_eq!(q.status_of(id), Some(QuestStatus::Open));

    assert_eq!(q.commit(ACTOR_A, id), Ok(QuestTier::Mid));
    assert_eq!(q.status_of(id), Some(QuestStatus::Full));
    assert_eq!(q.capacity_of(id), Some(0));

    assert_eq!(q.commit(ACTOR_B, id), Err(QuestError::QuestNotOpen));

    assert_eq!(q.grade(PROVIDER, id, ACTOR_A, String::from("reference"), 90), Ok(()));
    assert_eq!(q.status_of(id), Some(QuestStatus::Open));
    assert_eq!(q.capacity_of(id), Some(1));

    assert_eq!(q.commit(ACTOR_B, id), Ok(QuestTier::Mid));
}

// Dedicated tier: only the dedicated actor may commit.
#[test]
fn dedicated_tier_eligibility() {
    let mut q = Quests::new(vec![PROVIDER], 0);
    let id = q
        .publish(PROVIDER, QuestTier::Dedicated, info_with_capacity(1), 10)
        .expect("publishing must succeed");
    assert_eq!(q.commit(ACTOR_B, id), Err(QuestError::NotEligible));
    assert_eq!(q.commit(ACTOR_A, id), Ok(QuestTier::Dedicated));
}

// The modification is one-shot: a second modify always fails.
#[test]
fn modify_only_once() {
    let mut q = Quests::new(vec![PROVIDER], 0);
    let id = q
        .publish(PROVIDER, QuestTier::Entry, info_with_capacity(1), 10)
        .expect("publishing must succeed");
    assert_eq!(q.is_modified(id), Some(false));
    assert_eq!(q.modify(PROVIDER, id, replacement_fields()), Ok(()));
    assert_eq!(q.is_modified(id), Some(true));
    assert_eq!(q.modify(PROVIDER, id, replacement_fields()), Err(QuestError::AlreadyModified));
}

// A Top listing whose application deadline is not strictly in the future is
// rejected, and nothing is created.
#[test]
fn top_tier_deadline_must_be_in_future() {
    let mut q = Quests::new(vec![PROVIDER], 0);
    let mut info = info_with_capacity(1);
    info.application_deadline = 50;
    let res = q.publish(PROVIDER, QuestTier::Top, info, 100);
    assert_eq!(res, Err(QuestError::DeadlineNotInFuture));
    assert_eq!(q.listing_count(), 0);
    assert_eq!(q.status_of(0), None);

    // a deadline equal to the current height is not in the future either
    let mut info = info_with_capacity(1);
    info.application_deadline = 100;
    let res = q.publish(PROVIDER, QuestTier::Top, info, 100);
    assert_eq!(res, Err(QuestError::DeadlineNotInFuture));
    assert_eq!(q.listing_count(), 0);
}

#[test]
fn publish_requires_approved_provider() {
    let mut q = Quests::new(vec![PROVIDER], 0);
    let res = q.publish(ACTOR_B, QuestTier::Entry, info_with_capacity(1), 10);
    assert_eq!(res, Err(QuestError::NotApprovedProvider));
    assert_eq!(q.listing_count(), 0);
}

// Entry and Mid publications must meet the minimum-free-gradings threshold;
// Top and Dedicated publications ignore it.
#[test]
fn publish_enforces_minimum_gradings() {
    let mut q = Quests::new(vec![PROVIDER], 10);
    let mut info = info_with_capacity(1);
    info.free_gradings = 9;
    assert_eq!(
        q.publish(PROVIDER, QuestTier::Entry, info, 10),
        Err(QuestError::BelowMinimumGradings)
    );
    let mut info = info_with_capacity(1);
    info.free_gradings = 9;
    assert_eq!(
        q.publish(PROVIDER, QuestTier::Mid, info, 10),
        Err(QuestError::BelowMinimumGradings)
    );
    let mut info = info_with_capacity(1);
    info.free_gradings = 10;
    assert_eq!(q.publish(PROVIDER, QuestTier::Entry, info, 10), Ok(0));
    let mut info = info_with_capacity(1);
    info.free_gradings = 9;
    assert_eq!(q.publish(PROVIDER, QuestTier::Dedicated, info, 10), Ok(1));
    let mut info = info_with_capacity(1);
    info.free_gradings = 9;
    assert_eq!(q.publish(PROVIDER, QuestTier::Top, info, 10), Ok(2));
}

#[test]
fn modify_requires_owner() {
    let mut q = Quests::new(vec![PROVIDER], 0);
    let id = q
        .publish(PROVIDER, QuestTier::Entry, info_with_capacity(1), 10)
        .expect("publishing must succeed");
    assert_eq!(q.modify(ACTOR_A, id, replacement_fields()), Err(QuestError::NotOwner));
    assert_eq!(q.is_modified(id), Some(false));
}

#[test]
fn modify_rejected_after_commitment() {
    let mut q = Quests::new(vec![PROVIDER], 0);
    let id = q
        .publish(PROVIDER, QuestTier::Entry, info_with_capacity(1), 10)
        .expect("publishing must succeed");
    q.commit(ACTOR_A, id).expect("the commit must succeed");
    assert_eq!(
        q.modify(PROVIDER, id, replacement_fields()),
        Err(QuestError::AlreadyHasCommitments)
    );
}

#[test]
fn modify_missing_quest() {
    let mut q = Quests::new(vec![PROVIDER], 0);
    assert_eq!(q.modify(PROVIDER, 0, replacement_fields()), Err(QuestError::QuestNotFound));
}

#[test]
fn submit_missing_quest() {
    let mut q = Quests::new(vec![PROVIDER], 0);
    assert_eq!(
        q.submit(ACTOR_A, 0, String::from("work")),
        Err(QuestError::QuestNotFound)
    );
}

#[test]
fn grade_missing_quest() {
    let mut q = Quests::new(vec![PROVIDER], 0);
    assert_eq!(
        q.grade(PROVIDER, 0, ACTOR_A, String::from("reference"), 80),
        Err(QuestError::QuestNotFound)
    );
}

// Grading records the exact grading value against the committer's slot and
// leaves an Entry listing's capacity and status untouched.
#[test]
fn grade_records_grading() {
    let mut q = Quests::new(vec![PROVIDER], 0);
    let id = q
        .publish(PROVIDER, QuestTier::Entry, info_with_capacity(3), 10)
        .expect("publishing must succeed");
    q.commit(ACTOR_A, id).expect("the commit must succeed");
    q.submit(ACTOR_A, id, String::from("work")).expect("the submission must succeed");
    assert_eq!(q.grading_of(id, ACTOR_A), None);
    assert_eq!(q.grade(PROVIDER, id, ACTOR_A, String::from("reference"), 77), Ok(()));
    assert_eq!(q.grading_of(id, ACTOR_A), Some(77));
    assert_eq!(q.capacity_of(id), Some(3));
    assert_eq!(q.status_of(id), Some(QuestStatus::Open));
}

#[test]
fn grade_requires_a_slot() {
    let mut q = Quests::new(vec![PROVIDER], 0);
    let id = q
        .publish(PROVIDER, QuestTier::Entry, info_with_capacity(1), 10)
        .expect("publishing must succeed");
    assert_eq!(
        q.grade(PROVIDER, id, ACTOR_A, String::from("reference"), 80),
        Err(QuestError::NotSubmitted)
    );
}

// A slot is graded at most once.
#[test]
fn grade_only_once_per_slot() {
    let mut q = Quests::new(vec![PROVIDER], 0);
    let id = q
        .publish(PROVIDER, QuestTier::Entry, info_with_capacity(1), 10)
        .expect("publishing must succeed");
    q.commit(ACTOR_A, id).expect("the commit must succeed");
    q.grade(PROVIDER, id, ACTOR_A, String::from("reference"), 60)
        .expect("the first grade must succeed");
    assert_eq!(
        q.grade(PROVIDER, id, ACTOR_A, String::from("reference"), 70),
        Err(QuestError::NotSubmitted)
    );
    assert_eq!(q.grading_of(id, ACTOR_A), Some(60));
}

// A placeholder slot may be graded: holding a slot is what grade checks.
#[test]
fn grade_accepts_placeholder() {
    let mut q = Quests::new(vec![PROVIDER], 0);
    let id = q
        .publish(PROVIDER, QuestTier::Entry, info_with_capacity(1), 10)
        .expect("publishing must succeed");
    q.commit(ACTOR_A, id).expect("the commit must succeed");
    assert!(!q.has_submitted_to(id, ACTOR_A));
    assert_eq!(q.grade(PROVIDER, id, ACTOR_A, String::from("reference"), 50), Ok(()));
    assert_eq!(q.grading_of(id, ACTOR_A), Some(50));
}

// Entry commits never draw down capacity.
#[test]
fn entry_tier_commit_keeps_capacity() {
    let mut q = Quests::new(vec![PROVIDER], 0);
    let id = q
        .publish(PROVIDER, QuestTier::Entry, info_with_capacity(3), 10)
        .expect("publishing must succeed");
    q.commit(ACTOR_A, id).expect("the commit must succeed");
    q.commit(ACTOR_B, id).expect("the second commit must succeed");
    assert_eq!(q.capacity_of(id), Some(3));
    assert_eq!(q.status_of(id), Some(QuestStatus::Open));
    assert_eq!(q.submission_count(id), Some(2));
}

// A Top listing consumes capacity exactly like a Mid listing.
#[test]
fn top_tier_capacity_cycle() {
    let mut q = Quests::new(vec![PROVIDER], 0);
    let id = q
        .publish(PROVIDER, QuestTier::Top, info_with_capacity(2), 10)
        .expect("publishing must succeed");
    assert_eq!(q.commit(ACTOR_A, id), Ok(QuestTier::Top));
    assert_eq!(q.capacity_of(id), Some(1));
    assert_eq!(q.status_of(id), Some(QuestStatus::Open));
    assert_eq!(q.commit(ACTOR_B, id), Ok(QuestTier::Top));
    assert_eq!(q.capacity_of(id), Some(0));
    assert_eq!(q.status_of(id), Some(QuestStatus::Full));
    q.submit(ACTOR_A, id, String::from("work")).expect("the submission must succeed");
    assert_eq!(q.grade(PROVIDER, id, ACTOR_A, String::from("reference"), 95), Ok(()));
    assert_eq!(q.capacity_of(id), Some(1));
    assert_eq!(q.status_of(id), Some(QuestStatus::Open));
}

// Identifiers are allocated in publication order.
#[test]
fn identifiers_count_up_from_zero() {
    let mut q = Quests::new(vec![PROVIDER], 0);
    let first = q
        .publish(PROVIDER, QuestTier::Entry, info_with_capacity(1), 10)
        .expect("publishing must succeed");
    let second = q
        .publish(PROVIDER, QuestTier::Dedicated, info_with_capacity(1), 10)
        .expect("publishing must succeed");
    assert_eq!(first, 0);
    assert_eq!(second, 1);
    assert_eq!(q.listing_count(), 2);
    assert_eq!(q.tier_of(0), Some(QuestTier::Entry));
    assert_eq!(q.tier_of(1), Some(QuestTier::Dedicated));
}

// A commit by one actor never blocks a different actor's first commit, and
// a duplicate is rejected whoever else acted in between.
#[test]
fn duplicate_commit_rejected_despite_interleaving() {
    let mut q = Quests::new(vec![PROVIDER], 0);
    let id = q
        .publish(PROVIDER, QuestTier::Entry, info_with_capacity(5), 10)
        .expect("publishing must succeed");
    q.commit(ACTOR_A, id).expect("the commit must succeed");
    q.commit(ACTOR_B, id).expect("the second actor's commit must succeed");
    q.submit(ACTOR_B, id, String::from("other work")).expect("the submission must succeed");
    q.grade(PROVIDER, id, ACTOR_B, String::from("reference"), 88)
        .expect("the grade must succeed");
    assert_eq!(q.commit(ACTOR_A, id), Err(QuestError::AlreadyCommitted));
}

// Capacity sits at the integer bound: Entry listings never move it, and a
// Mid listing draws it down one commit at a time.
#[test]
fn capacity_at_integer_bound() {
    let mut q = Quests::new(vec![PROVIDER], 0);
    let entry = q
        .publish(PROVIDER, QuestTier::Entry, info_with_capacity(u64::MAX), 10)
        .expect("publishing must succeed");
    q.commit(ACTOR_A, entry).expect("the commit must succeed");
    q.grade(PROVIDER, entry, ACTOR_A, String::from("reference"), 1)
        .expect("the grade must succeed");
    assert_eq!(q.capacity_of(entry), Some(u64::MAX));

    let mid = q
        .publish(PROVIDER, QuestTier::Mid, info_with_capacity(u64::MAX), 10)
        .expect("publishing must succeed");
    q.commit(ACTOR_A, mid).expect("the commit must succeed");
    assert_eq!(q.capacity_of(mid), Some(u64::MAX - 1));
}

// A Mid listing published with zero capacity is open by publication rule,
// yet a commit finds no slot to take and is turned away as not open.
#[test]
fn zero_capacity_mid_listing_takes_no_committers() {
    let mut q = Quests::new(vec![PROVIDER], 0);
    let id = q
        .publish(PROVIDER, QuestTier::Mid, info_with_capacity(0), 10)
        .expect("publishing must succeed");
    assert_eq!(q.status_of(id), Some(QuestStatus::Open));
    assert_eq!(q.commit(ACTOR_A, id), Err(QuestError::QuestNotOpen));
    assert_eq!(q.submission_count(id), Some(0));
}
