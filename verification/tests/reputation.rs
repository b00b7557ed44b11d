use escrow::{AccountId, ContractStatus, Error, Escrow, ReleaseAuthorization, Reputation};

const ADMIN: AccountId = 1;
const TOKEN: AccountId = 100;
const ESCROW_ADDRESS: AccountId = 200;

const MILESTONE_ONE: i128 = 200_0000000;
const MILESTONE_TWO: i128 = 400_0000000;
const MILESTONE_THREE: i128 = 600_0000000;

fn total_milestone_amount() -> i128 {
    MILESTONE_ONE + MILESTONE_TWO + MILESTONE_THREE
}

fn valid_comment() -> &'static str {
    "Great job!"
}

fn registered() -> Escrow {
    let mut e = Escrow::new();
    e.initialize(ADMIN).unwrap();
    e.bind_settlement_token(ADMIN, TOKEN, ESCROW_ADDRESS).unwrap();
    e
}

fn create_for(e: &mut Escrow, client: AccountId, freelancer: AccountId) -> u32 {
    e.create_contract(
        client,
        freelancer,
        None,
        vec![MILESTONE_ONE, MILESTONE_TWO, MILESTONE_THREE],
        ReleaseAuthorization::ClientOnly,
    )
    .unwrap()
}

/// Completes a new escrow between `client` and `freelancer`.
fn complete_contract_for(e: &mut Escrow, client: AccountId, freelancer: AccountId) -> u32 {
    let id = create_for(e, client, freelancer);
    e.deposit_funds(id, client, total_milestone_amount()).unwrap();
    for i in 0..3u32 {
        e.approve_milestone_release(id, client, i, 0).unwrap();
        e.release_milestone(id, client, i, 0).unwrap();
    }
    assert_eq!(e.get_contract(id).unwrap().status, ContractStatus::Completed);
    id
}

/// A completed contract between client 10 and freelancer 11.
fn complete_contract() -> (Escrow, AccountId, AccountId, u32) {
    let mut e = registered();
    let id = complete_contract_for(&mut e, 10, 11);
    (e, 10, 11, id)
}

#[test]
fn pending_reputation_credits_accumulate_and_drain_across_completed_contracts() {
    let mut e = registered();
    let freelancer = 50;
    let (first_client, second_client, third_client) = (51, 52, 53);

    let first = complete_contract_for(&mut e, first_client, freelancer);
    assert_eq!(e.get_pending_reputation_credits(freelancer), 1);
    let second = complete_contract_for(&mut e, second_client, freelancer);
    assert_eq!(e.get_pending_reputation_credits(freelancer), 2);
    let third = complete_contract_for(&mut e, third_client, freelancer);
    assert_eq!(e.get_pending_reputation_credits(freelancer), 3);

    let refunded_client = 54;
    let refunded = create_for(&mut e, refunded_client, freelancer);
    e.deposit_funds(refunded, refunded_client, total_milestone_amount()).unwrap();
    assert_eq!(
        e.refund_unreleased_milestones(refunded, vec![0, 1, 2], 0),
        Ok(total_milestone_amount())
    );
    assert_eq!(e.get_contract(refunded).unwrap().status, ContractStatus::Refunded);
    assert_eq!(e.get_pending_reputation_credits(freelancer), 3);

    assert_eq!(e.issue_reputation(first, first_client, 5, valid_comment()), Ok(()));
    assert_eq!(e.get_pending_reputation_credits(freelancer), 2);
    assert_eq!(e.get_reputation(freelancer).unwrap().completed_contracts, 1);

    assert_eq!(e.issue_reputation(second, second_client, 4, valid_comment()), Ok(()));
    assert_eq!(e.get_pending_reputation_credits(freelancer), 1);
    assert_eq!(e.get_reputation(freelancer).unwrap().completed_contracts, 2);

    assert_eq!(e.issue_reputation(third, third_client, 3, valid_comment()), Ok(()));
    assert_eq!(e.get_pending_reputation_credits(freelancer), 0);
    assert_eq!(e.get_reputation(freelancer).unwrap().completed_contracts, 3);

    assert_eq!(
        e.issue_reputation(first, first_client, 1, valid_comment()),
        Err(Error::ReputationAlreadyIssued)
    );
    assert_eq!(e.get_pending_reputation_credits(freelancer), 0);
}

#[test]
fn issue_reputation_rejects_unauthorized_caller() {
    let (mut e, _client, _freelancer, id) = complete_contract();
    assert_eq!(e.issue_reputation(id, 99, 5, valid_comment()), Err(Error::UnauthorizedRole));
}

#[test]
fn issue_reputation_rejects_non_completed_contract() {
    let mut e = registered();
    let id = create_for(&mut e, 10, 11);
    assert_eq!(e.issue_reputation(id, 10, 5, valid_comment()), Err(Error::NotCompleted));
}

#[test]
fn issue_reputation_rejects_invalid_rating_bounds() {
    let (mut e, client, _freelancer, id) = complete_contract();
    assert_eq!(e.issue_reputation(id, client, 0, valid_comment()), Err(Error::InvalidRating));
    assert_eq!(e.issue_reputation(id, client, 6, valid_comment()), Err(Error::InvalidRating));
}

#[test]
fn issue_reputation_rejects_empty_comment() {
    let (mut e, client, _freelancer, id) = complete_contract();
    assert_eq!(e.issue_reputation(id, client, 5, ""), Err(Error::EmptyComment));
}

#[test]
fn issue_reputation_rejects_comment_too_long() {
    let (mut e, client, _freelancer, id) = complete_contract();
    let long_comment = "a".repeat(201);
    assert_eq!(e.issue_reputation(id, client, 5, &long_comment), Err(Error::CommentTooLong));
    let longest = "a".repeat(200);
    assert_eq!(e.issue_reputation(id, client, 5, &longest), Ok(()));
}

#[test]
fn issue_reputation_rejects_duplicate_issuance() {
    let (mut e, client, _freelancer, id) = complete_contract();
    assert_eq!(e.issue_reputation(id, client, 5, valid_comment()), Ok(()));
    assert_eq!(
        e.issue_reputation(id, client, 4, valid_comment()),
        Err(Error::ReputationAlreadyIssued)
    );
}

#[test]
fn issue_reputation_rejects_self_rating_when_client_equals_freelancer() {
    let (mut e, client, _freelancer, id) = complete_contract();
    e.contracts[(id - 1) as usize].freelancer = client;
    assert_eq!(e.issue_reputation(id, client, 5, valid_comment()), Err(Error::SelfRating));
}

#[test]
fn issue_reputation_succeeds_for_distinct_client_and_freelancer() {
    let (mut e, client, _freelancer, id) = complete_contract();
    assert!(e.issue_reputation(id, client, 5, valid_comment()).is_ok());
    assert!(e.get_contract(id).unwrap().reputation_issued);
}

#[test]
fn issue_reputation_updates_reputation_record_and_pending_credits() {
    let (mut e, client, freelancer, id) = complete_contract();
    assert_eq!(e.get_pending_reputation_credits(freelancer), 1);
    e.issue_reputation(id, client, 5, valid_comment()).unwrap();
    let reputation = e.get_reputation(freelancer).expect("expected reputation record");
    assert_eq!(
        reputation,
        Reputation { completed_contracts: 1, total_rating: 5, last_rating: 5 }
    );
    assert_eq!(e.get_pending_reputation_credits(freelancer), 0);
}

#[test]
fn get_average_rating_returns_none_for_unknown_address() {
    let e = registered();
    assert!(e.get_average_rating(77).is_none());
    assert!(e.get_reputation(77).is_none());
}

#[test]
fn get_average_rating_single_rating_returns_scaled_value() {
    let (mut e, client, freelancer, id) = complete_contract();
    e.issue_reputation(id, client, 4, valid_comment()).unwrap();
    assert_eq!(e.get_average_rating(freelancer), Some(40_000));
}

#[test]
fn get_average_rating_multiple_ratings_returns_correct_scaled_average() {
    let (mut e, client1, freelancer, id1) = complete_contract();
    e.issue_reputation(id1, client1, 3, valid_comment()).unwrap();
    let id2 = complete_contract_for(&mut e, 20, freelancer);
    e.issue_reputation(id2, 20, 5, valid_comment()).unwrap();
    assert_eq!(e.get_average_rating(freelancer), Some(40_000));
}

#[test]
fn get_average_rating_fractional_average_is_preserved() {
    let (mut e, client1, freelancer, id1) = complete_contract();
    e.issue_reputation(id1, client1, 1, valid_comment()).unwrap();
    let id2 = complete_contract_for(&mut e, 20, freelancer);
    e.issue_reputation(id2, 20, 2, valid_comment()).unwrap();
    assert_eq!(e.get_average_rating(freelancer), Some(15_000));
    let rep = e.get_reputation(freelancer).unwrap();
    assert_eq!(rep.total_rating, 3);
    assert_eq!(rep.last_rating, 2);
}

#[test]
fn issue_reputation_rejects_unknown_contract() {
    let mut e = registered();
    assert_eq!(e.issue_reputation(0, 10, 5, valid_comment()), Err(Error::ContractNotFound));
    assert_eq!(e.issue_reputation(9, 10, 5, valid_comment()), Err(Error::ContractNotFound));
}

#[test]
fn issue_reputation_blocked_while_paused() {
    let (mut e, client, freelancer, id) = complete_contract();
    e.pause().unwrap();
    assert_eq!(e.issue_reputation(id, client, 5, valid_comment()), Err(Error::ContractPaused));
    assert_eq!(e.get_pending_reputation_credits(freelancer), 1);
}

#[test]
fn issue_reputation_blocked_during_emergency() {
    let (mut e, client, _freelancer, id) = complete_contract();
    e.activate_emergency_pause().unwrap();
    e.paused = false;
    assert_eq!(e.issue_reputation(id, client, 5, valid_comment()), Err(Error::EmergencyActive));
}

#[test]
fn unpause_blocked_while_emergency_active() {
    let mut e = registered();
    e.activate_emergency_pause().unwrap();
    assert_eq!(e.unpause(), Err(Error::EmergencyActive));
    assert!(e.is_paused());
    e.resolve_emergency().unwrap();
    assert!(!e.is_paused());
}

#[test]
fn refund_mixed_with_release_completes_and_credits() {
    let mut e = registered();
    let id = create_for(&mut e, 10, 11);
    e.deposit_funds(id, 10, total_milestone_amount()).unwrap();
    e.approve_milestone_release(id, 10, 0, 0).unwrap();
    e.release_milestone(id, 10, 0, 0).unwrap();
    assert_eq!(e.refund_unreleased_milestones(id, vec![2], 0), Ok(MILESTONE_THREE));
    let c = e.get_contract(id).unwrap();
    assert_eq!(c.status, ContractStatus::Funded);
    assert_eq!(c.refunded_amount, MILESTONE_THREE);
    assert_eq!(e.get_pending_reputation_credits(11), 0);
    assert_eq!(e.refund_unreleased_milestones(id, vec![1], 0), Ok(MILESTONE_TWO));
    assert_eq!(e.get_contract(id).unwrap().status, ContractStatus::Completed);
    assert_eq!(e.get_pending_reputation_credits(11), 1);
    let ms = e.get_milestones(id).unwrap();
    assert!(ms[1].refunded && ms[1].refunded_amount == MILESTONE_TWO);
    assert!(ms[0].released && !ms[0].refunded);
}

#[test]
fn refund_request_errors() {
    let mut e = registered();
    let id = create_for(&mut e, 10, 11);
    assert_eq!(e.refund_unreleased_milestones(id, vec![0], 0), Err(Error::InvalidState));
    e.deposit_funds(id, 10, total_milestone_amount()).unwrap();
    assert_eq!(e.refund_unreleased_milestones(id, vec![], 0), Err(Error::EmptyRefundRequest));
    assert_eq!(e.refund_unreleased_milestones(id, vec![1, 1], 0), Err(Error::DuplicateMilestoneInRefund));
    assert_eq!(e.refund_unreleased_milestones(id, vec![0, 3], 0), Err(Error::IndexOutOfBounds));
    assert_eq!(e.refund_unreleased_milestones(9, vec![0], 0), Err(Error::ContractNotFound));
    e.approve_milestone_release(id, 10, 0, 0).unwrap();
    e.release_milestone(id, 10, 0, 0).unwrap();
    assert_eq!(e.refund_unreleased_milestones(id, vec![1, 0], 0), Err(Error::AlreadyReleased));
    assert_eq!(e.get_contract(id).unwrap().refunded_amount, 0);
    e.refund_unreleased_milestones(id, vec![1], 0).unwrap();
    assert_eq!(e.refund_unreleased_milestones(id, vec![1], 0), Err(Error::AlreadyRefunded));
    e.pause().unwrap();
    assert_eq!(e.refund_unreleased_milestones(id, vec![2], 0), Err(Error::ContractPaused));
}

#[test]
fn refund_after_full_refund_is_terminal() {
    let mut e = registered();
    let id = create_for(&mut e, 10, 11);
    e.deposit_funds(id, 10, total_milestone_amount()).unwrap();
    assert!(e.refund_unreleased_milestones(id, vec![0, 1, 2], 0).unwrap() > 0);
    assert_eq!(e.refund_unreleased_milestones(id, vec![0, 1, 2], 0), Err(Error::ContractRefunded));
    assert_eq!(e.finalize_contract(id, 10, 1), Err(Error::InvalidStatusTransition));
}

#[test]
fn refund_after_cancel_is_rejected() {
    let mut e = registered();
    let id = create_for(&mut e, 10, 11);
    e.deposit_funds(id, 10, total_milestone_amount()).unwrap();
    e.cancel_contract(id, 10).unwrap();
    assert_eq!(e.refund_unreleased_milestones(id, vec![0], 0), Err(Error::ContractCancelled));
}

#[test]
fn refund_waits_for_milestone_deadline() {
    let mut e = registered();
    let id = create_for(&mut e, 10, 11);
    e.deposit_funds(id, 10, total_milestone_amount()).unwrap();
    e.milestones[(id - 1) as usize][1].deadline = Some(1_000);
    assert!(!e.is_milestone_overdue(id, 1, 1_000));
    assert!(e.is_milestone_overdue(id, 1, 1_001));
    assert!(!e.is_milestone_overdue(id, 0, 5_000));
    assert!(!e.is_milestone_overdue(id, 7, 5_000));
    assert!(!e.is_milestone_overdue(9, 0, 5_000));
    assert_eq!(e.refund_unreleased_milestones(id, vec![1], 1_000), Err(Error::MilestoneNotOverdue));
    assert_eq!(e.refund_unreleased_milestones(id, vec![1], 1_001), Ok(MILESTONE_TWO));
}

#[test]
fn bounds_report_validation_limits() {
    let b = Escrow::get_bounds();
    assert_eq!(b.max_milestones, 10);
    assert_eq!(b.max_single_milestone_stroops, 100_000_000_000_000_000);
    assert_eq!(b.max_total_escrow_stroops, 10_000_000_000_000);
    assert_eq!(b.max_fee_bps, 10_000);
    assert_eq!(b.max_disputes, 1);
}

#[test]
fn rating_comment_is_kept_with_its_contract() {
    let mut e = registered();
    let first = complete_contract_for(&mut e, 10, 11);
    let second = complete_contract_for(&mut e, 12, 11);
    assert_eq!(e.reputation_comments[(first - 1) as usize], None);
    assert_eq!(e.issue_reputation(first, 10, 5, "Delivered early"), Ok(()));
    assert_eq!(e.reputation_comments[(first - 1) as usize].as_deref(), Some("Delivered early"));
    assert_eq!(e.reputation_comments[(second - 1) as usize], None);
    assert_eq!(e.issue_reputation(first, 10, 4, "again"), Err(Error::ReputationAlreadyIssued));
    assert_eq!(e.reputation_comments[(first - 1) as usize].as_deref(), Some("Delivered early"));
}
