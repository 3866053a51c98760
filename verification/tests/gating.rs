use growth::GrowthError;
use growth::Key;
use growth::Org;
use growth::Score;
use growth::create_organization;
use growth::effective_timestamp;
use growth::receive_score;
use growth::register;
use growth::send_score;
use growth::update_scores;
use growth::verify;

fn key(n: u64) -> Key {
    Key { w0: n, w1: 0, w2: 0, w3: 0 }
}

fn authority() -> Key {
    key(2)
}

fn one_group_org(min_reviews: u8, level_wait: i32) -> Org {
    create_organization(
        vec![1],
        vec![],
        vec![vec![1, 3]],
        String::from("acme"),
        min_reviews,
        String::from("https://badges.example"),
        level_wait,
        key(1),
        authority(),
        7,
    )
    .expect("configuration should be valid")
}

fn registered(org: &Org) -> Score {
    register(
        org,
        String::from("alice"),
        vec![0; org.levels.len()],
        0,
        authority(),
        key(3),
        key(4),
        1,
    )
    .expect("registration should succeed")
}

#[test]
fn commit_and_publish_when_quorum_and_cooldown_hold() {
    let org = one_group_org(1, 60);
    let mut s = registered(&org);
    let r = receive_score(&org, &mut s, &vec![5], 100, true);
    assert_eq!(r, Ok(Some(String::from("https://badges.example/1.json"))));
    assert_eq!(s.levels, vec![1]);
    assert_eq!(s.last_update, 100);
    assert_eq!(s.scores_sum, vec![5]);
    assert_eq!(s.reviews_received, vec![1]);
}

#[test]
fn no_commit_when_quorum_not_met() {
    let org = one_group_org(2, 60);
    let mut s = registered(&org);
    let r = receive_score(&org, &mut s, &vec![5], 100, true);
    assert_eq!(r, Ok(None));
    assert_eq!(s.levels, vec![0]);
    assert_eq!(s.last_update, 0);
    assert_eq!(s.scores_sum, vec![5]);
    assert_eq!(s.reviews_received, vec![1]);
}

#[test]
fn no_commit_while_cooldown_active() {
    let org = one_group_org(1, 60);
    let mut s = registered(&org);
    s.last_update = 90;
    let r = receive_score(&org, &mut s, &vec![5], 100, true);
    assert_eq!(r, Ok(None));
    assert_eq!(s.levels, vec![0]);
    assert_eq!(s.last_update, 90);
}

#[test]
fn unchanged_candidate_only_refreshes_timestamp() {
    let org = one_group_org(1, 60);
    let mut s = registered(&org);
    let r = receive_score(&org, &mut s, &vec![0], 100, true);
    assert_eq!(r, Ok(None));
    assert_eq!(s.levels, vec![0]);
    assert_eq!(s.last_update, 100);
    assert_eq!(s.reviews_received, vec![0]);
}

#[test]
fn commit_without_publication_when_unverified() {
    let org = one_group_org(1, 60);
    let mut s = registered(&org);
    let r = receive_score(&org, &mut s, &vec![5], 100, false);
    assert_eq!(r, Ok(None));
    assert_eq!(s.levels, vec![1]);
    assert_eq!(s.last_update, 100);
}

#[test]
fn submission_of_wrong_length_is_rejected() {
    let org = one_group_org(1, 60);
    let mut s = registered(&org);
    let r = receive_score(&org, &mut s, &vec![5, 5], 100, true);
    assert_eq!(r, Err(GrowthError::LengthMismatch));
    assert_eq!(s.levels, vec![0]);
    assert_eq!(s.scores_sum, vec![0]);
    assert_eq!(s.last_update, 0);
}

#[test]
fn submission_overflowing_a_sum_is_rejected() {
    let org = one_group_org(1, 60);
    let mut s = registered(&org);
    s.scores_sum = vec![u64::MAX];
    let r = receive_score(&org, &mut s, &vec![1], 100, true);
    assert_eq!(r, Err(GrowthError::CounterOverflow));
    assert_eq!(s.scores_sum, vec![u64::MAX]);
    assert_eq!(s.reviews_received, vec![0]);
}

#[test]
fn submission_overflowing_a_review_count_is_rejected() {
    let org = one_group_org(1, 60);
    let mut s = registered(&org);
    s.reviews_received = vec![u16::MAX];
    let r = receive_score(&org, &mut s, &vec![1], 100, true);
    assert_eq!(r, Err(GrowthError::CounterOverflow));
    assert_eq!(s.reviews_received, vec![u16::MAX]);
    assert_eq!(s.scores_sum, vec![0]);
}

#[test]
fn quorum_counts_the_best_reviewed_criterion() {
    let org = create_organization(
        vec![1, 1],
        vec![1],
        vec![vec![1], vec![100]],
        String::from("acme"),
        2,
        String::from("https://badges.example"),
        0,
        key(1),
        authority(),
        7,
    )
    .expect("configuration should be valid");
    let mut s = register(&org, String::from("alice"), vec![0, 0], 0, authority(), key(3), key(4), 1)
        .expect("registration should succeed");
    s.reviews_received = vec![0, 2];
    let r = receive_score(&org, &mut s, &vec![5, 0], 100, true);
    assert_eq!(r, Ok(Some(String::from("https://badges.example/1-0.json"))));
    assert_eq!(s.levels, vec![1, 0]);
}

#[test]
fn admin_override_replaces_levels_exactly() {
    let org = one_group_org(200, i32::MAX);
    let mut s = registered(&org);
    let r = update_scores(&org, &mut s, authority(), vec![9], vec![1], 500, vec![2], true);
    assert_eq!(r, Ok(String::from("https://badges.example/2.json")));
    assert_eq!(s.levels, vec![2]);
    assert_eq!(s.last_update, 500);
    assert_eq!(s.scores_sum, vec![9]);
    assert_eq!(s.reviews_received, vec![1]);
}

#[test]
fn admin_path_commits_candidate_without_gates() {
    let org = one_group_org(200, i32::MAX);
    let mut s = registered(&org);
    let r = update_scores(&org, &mut s, authority(), vec![9], vec![1], 500, vec![0], false);
    assert_eq!(r, Ok(String::from("https://badges.example/1.json")));
    assert_eq!(s.levels, vec![1]);
    assert_eq!(s.last_update, 500);
}

#[test]
fn admin_path_requires_authority() {
    let org = one_group_org(1, 60);
    let mut s = registered(&org);
    let r = update_scores(&org, &mut s, key(99), vec![9], vec![1], 500, vec![0], false);
    assert_eq!(r, Err(GrowthError::AuthorityMismatch));
    assert_eq!(s.levels, vec![0]);
    assert_eq!(s.scores_sum, vec![0]);
}

#[test]
fn admin_path_rejects_wrong_lengths() {
    let org = one_group_org(1, 60);
    let mut s = registered(&org);
    let r = update_scores(&org, &mut s, authority(), vec![9, 9], vec![1], 500, vec![0], false);
    assert_eq!(r, Err(GrowthError::LengthMismatch));
    let r = update_scores(&org, &mut s, authority(), vec![9], vec![1, 1], 500, vec![0], false);
    assert_eq!(r, Err(GrowthError::LengthMismatch));
    let r = update_scores(&org, &mut s, authority(), vec![9], vec![1], 500, vec![0, 0], false);
    assert_eq!(r, Err(GrowthError::LengthMismatch));
}

#[test]
fn register_builds_blank_record() {
    let org = one_group_org(1, 60);
    let s = registered(&org);
    assert_eq!(s.name, "alice");
    assert_eq!(s.scores_sum, vec![0]);
    assert_eq!(s.reviews_received, vec![0]);
    assert_eq!(s.scores, vec![0]);
    assert_eq!(s.levels, vec![0]);
    assert_eq!(s.reviews_sent, 0);
    assert_eq!(s.last_update, 0);
    assert_eq!(s.applicant, key(3));
    assert_eq!(s.mint, key(4));
    assert_eq!(s.bump, 1);
}

#[test]
fn register_requires_authority() {
    let org = one_group_org(1, 60);
    let r = register(&org, String::from("alice"), vec![0], 0, key(99), key(3), key(4), 1);
    assert!(matches!(r, Err(GrowthError::AuthorityMismatch)));
}

#[test]
fn register_rejects_wrong_level_count() {
    let org = one_group_org(1, 60);
    let r = register(&org, String::from("alice"), vec![0, 0], 0, authority(), key(3), key(4), 1);
    assert!(matches!(r, Err(GrowthError::LengthMismatch)));
}

#[test]
fn send_score_increments_counter() {
    let org = one_group_org(1, 60);
    let mut s = registered(&org);
    assert_eq!(send_score(&org, &mut s, authority()), Ok(()));
    assert_eq!(s.reviews_sent, 1);
}

#[test]
fn send_score_requires_authority() {
    let org = one_group_org(1, 60);
    let mut s = registered(&org);
    assert_eq!(send_score(&org, &mut s, key(99)), Err(GrowthError::AuthorityMismatch));
    assert_eq!(s.reviews_sent, 0);
}

#[test]
fn send_score_rejects_saturated_counter() {
    let org = one_group_org(1, 60);
    let mut s = registered(&org);
    s.reviews_sent = u16::MAX;
    assert_eq!(send_score(&org, &mut s, authority()), Err(GrowthError::CounterOverflow));
    assert_eq!(s.reviews_sent, u16::MAX);
}

#[test]
fn verify_decides_collection_attestation() {
    let org = one_group_org(1, 60);
    assert_eq!(verify(&org, authority(), false), Ok(true));
    assert_eq!(verify(&org, authority(), true), Ok(false));
    assert_eq!(verify(&org, key(99), false), Err(GrowthError::AuthorityMismatch));
}

#[test]
fn level_regression_commits_one_step_down() {
    let org = one_group_org(1, 0);
    let mut s = registered(&org);
    s.levels = vec![2];
    s.scores_sum = vec![0];
    s.reviews_received = vec![1];
    let r = receive_score(&org, &mut s, &vec![0], 100, true);
    assert_eq!(r, Ok(Some(String::from("https://badges.example/1.json"))));
    assert_eq!(s.levels, vec![1]);
}

#[test]
fn negative_cooldown_is_always_elapsed() {
    let org = one_group_org(1, -100);
    let mut s = registered(&org);
    s.last_update = 100;
    let r = receive_score(&org, &mut s, &vec![5], 50, true);
    assert_eq!(r, Ok(Some(String::from("https://badges.example/1.json"))));
    assert_eq!(s.levels, vec![1]);
    assert_eq!(s.last_update, 50);
}

#[test]
fn submissions_accumulate_across_calls() {
    let org = one_group_org(3, 60);
    let mut s = registered(&org);
    assert_eq!(receive_score(&org, &mut s, &vec![2], 100, true), Ok(None));
    assert_eq!(receive_score(&org, &mut s, &vec![4], 200, true), Ok(None));
    assert_eq!(s.scores_sum, vec![6]);
    assert_eq!(s.reviews_received, vec![2]);
    assert_eq!(s.levels, vec![0]);
    let r = receive_score(&org, &mut s, &vec![6], 300, true);
    assert_eq!(r, Ok(Some(String::from("https://badges.example/1.json"))));
    assert_eq!(s.scores_sum, vec![12]);
    assert_eq!(s.reviews_received, vec![3]);
    assert_eq!(s.levels, vec![1]);
    assert_eq!(s.last_update, 300);
}

#[test]
fn effective_timestamp_prefers_override() {
    assert_eq!(effective_timestamp(50, 100), 50);
    assert_eq!(effective_timestamp(0, 100), 100);
    assert_eq!(effective_timestamp(-5, 100), -5);
}
