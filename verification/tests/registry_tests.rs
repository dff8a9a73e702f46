//! Basic functionality of the quest registry: committing (claiming) a
//! listing, submitting work against it, and publishing.

use quest::registry::Quests;
use quest::types::{IncomingQuest, QuestError, QuestStatus, QuestTier};

const PROVIDER: u64 = 1;
const SELF_ID: u64 = 2;

fn quest_info() -> IncomingQuest {
    IncomingQuest {
        institution_name: String::from("test quest entity"),
        quest_name: String::from("test quest name"),
        description: String::from("test quest description"),
        deliverables: String::from("test quest location"),
        contact_info: String::from("Email"),
        deadline: 0,
        capacity: 1,
        skill_token_name: String::from("test skill badge"),
        open_try: false,
        free_gradings: 5,
        hiring_for: String::from("test quest name"),
        skill_tags: vec![String::from("English")],
        reputation_token: 0,
        prize: 0,
        application_deadline: 100,
        dedicated_to: 0,
    }
}

fn registry_with_entry_listing() -> (Quests, u64) {
    let mut q = Quests::new(vec![PROVIDER], 0);
    let id = q
        .publish(PROVIDER, QuestTier::Entry, quest_info(), 10)
        .expect("publishing the test listing must succeed");
    (q, id)
}

#[test]
fn claim_success() {
    let (mut q, id) = registry_with_entry_listing();
    let res = q.commit(SELF_ID, id);
    assert_eq!(res, Ok(QuestTier::Entry));
    assert!(q.has_committed_to(id, SELF_ID));
}

// a claimer cannot claim a quest twice
#[test]
fn claim_fail_double_claim() {
    let (mut q, id) = registry_with_entry_listing();
    q.commit(SELF_ID, id).expect("the first commit must succeed");
    let res = q.commit(SELF_ID, id);
    assert_eq!(res, Err(QuestError::AlreadyCommitted));
}

// cannot claim a non exists quest
#[test]
fn claim_fail_non_exist_quest() {
    let (mut q, _id) = registry_with_entry_listing();
    let res = q.commit(SELF_ID, 999);
    assert_eq!(res, Err(QuestError::QuestNotFound));
}

#[test]
fn submit_success() {
    let (mut q, id) = registry_with_entry_listing();
    q.commit(SELF_ID, id).expect("the commit must succeed");
    let res = q.submit(SELF_ID, id, String::from("link to submission"));
    assert_eq!(res, Ok(()));
    assert!(q.has_submitted_to(id, SELF_ID));
}

// only existing claimers can submit to a quest
#[test]
fn submit_fail_non_existing_claimer() {
    let (mut q, id) = registry_with_entry_listing();
    let res = q.submit(SELF_ID, id, String::from("link to submission"));
    assert_eq!(res, Err(QuestError::NotCommitted));
}

// a claimer can only submit to a quest once
#[test]
fn submit_fail_double_submission() {
    let (mut q, id) = registry_with_entry_listing();
    q.commit(SELF_ID, id).expect("the commit must succeed");
    q.submit(SELF_ID, id, String::from("submission"))
        .expect("the first submission must succeed");
    let res = q.submit(SELF_ID, id, String::from("link to submission"));
    assert_eq!(res, Err(QuestError::AlreadySubmitted));
}

#[test]
fn publish_success() {
    let mut q = Quests::new(vec![PROVIDER], 0);
    let res = q.publish(PROVIDER, QuestTier::Entry, quest_info(), 10);
    assert_eq!(res, Ok(0));
    assert_eq!(q.listing_count(), 1);
    assert_eq!(q.tier_of(0), Some(QuestTier::Entry));
    assert_eq!(q.status_of(0), Some(QuestStatus::Open));
    assert_eq!(q.capacity_of(0), Some(1));
    assert_eq!(q.provider_of(0), Some(PROVIDER));
    assert_eq!(q.is_modified(0), Some(false));
    assert_eq!(q.submission_count(0), Some(0));
}
