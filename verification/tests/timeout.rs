use escrow::{AccountId, ContractStatus, Error, Escrow, ReleaseAuthorization};

const ADMIN: AccountId = 1;
const CLIENT: AccountId = 10;
const FREELANCER: AccountId = 11;
const TOKEN: AccountId = 100;
const ESCROW_ADDRESS: AccountId = 200;

const MILESTONE_ONE: i128 = 200_0000000;
const MILESTONE_TWO: i128 = 400_0000000;
const MILESTONE_THREE: i128 = 600_0000000;

fn total_milestone_amount() -> i128 {
    MILESTONE_ONE + MILESTONE_TWO + MILESTONE_THREE
}

fn initialized() -> Escrow {
    let mut e = Escrow::new();
    e.initialize(ADMIN).unwrap();
    e.bind_settlement_token(ADMIN, TOKEN, ESCROW_ADDRESS).unwrap();
    e
}

/// A funded contract whose milestone 1 is due at `deadline_ts`.
fn setup_funded_with_deadline(deadline_ts: u64) -> (Escrow, u32) {
    let mut e = initialized();
    let id = e
        .create_contract_with_deadlines(
            CLIENT,
            FREELANCER,
            None,
            vec![MILESTONE_ONE, MILESTONE_TWO, MILESTONE_THREE],
            ReleaseAuthorization::ClientOnly,
            Some(vec![0, deadline_ts, 0]),
        )
        .unwrap();
    e.deposit_funds(id, CLIENT, total_milestone_amount()).unwrap();
    (e, id)
}

fn release(e: &mut Escrow, id: u32, index: u32) {
    e.approve_milestone_release(id, CLIENT, index, 0).unwrap();
    e.release_milestone(id, CLIENT, index, 0).unwrap();
}

#[test]
fn deadlines_are_stored_with_their_milestones() {
    let (e, id) = setup_funded_with_deadline(2000);
    let ms = e.get_milestones(id).unwrap();
    assert_eq!(ms[0].deadline, Some(0));
    assert_eq!(ms[1].deadline, Some(2000));
    assert_eq!(ms[2].deadline, Some(0));
}

#[test]
fn deadline_list_must_match_milestones() {
    let mut e = initialized();
    assert_eq!(
        e.create_contract_with_deadlines(
            CLIENT,
            FREELANCER,
            None,
            vec![100, 200],
            ReleaseAuthorization::ClientOnly,
            Some(vec![3000]),
        ),
        Err(Error::InvalidMilestone)
    );
    assert_eq!(e.get_next_contract_id(), 1);
}

#[test]
fn claim_timeout_refund_fails_before_deadline() {
    let (mut e, id) = setup_funded_with_deadline(2000);
    assert_eq!(e.claim_timeout_refund(id, 1, 1000), Err(Error::DeadlineNotPassed));
}

#[test]
fn claim_timeout_refund_fails_at_exact_deadline() {
    let (mut e, id) = setup_funded_with_deadline(2000);
    assert_eq!(e.claim_timeout_refund(id, 1, 2000), Err(Error::DeadlineNotPassed));
}

#[test]
fn claim_timeout_refund_succeeds_after_deadline() {
    let (mut e, id) = setup_funded_with_deadline(2000);
    assert_eq!(e.claim_timeout_refund(id, 1, 2001), Ok(400_0000000));
    let ms = e.get_milestones(id).unwrap();
    assert!(ms[1].refunded);
    assert!(!ms[1].released);
    let c = e.get_contract(id).unwrap();
    assert_eq!(c.refunded_amount, 400_0000000);
    assert_eq!(c.status, ContractStatus::Funded);
}

#[test]
fn claim_timeout_refund_completes_contract_when_all_milestones_dealt() {
    let (mut e, id) = setup_funded_with_deadline(2000);
    release(&mut e, id, 0);
    release(&mut e, id, 2);
    assert_eq!(e.claim_timeout_refund(id, 1, 2001), Ok(400_0000000));
    assert_eq!(e.get_contract(id).unwrap().status, ContractStatus::Completed);
    assert_eq!(e.get_pending_reputation_credits(FREELANCER), 1);
}

#[test]
fn claim_timeout_refund_fails_when_no_deadline_set() {
    let mut e = initialized();
    let id = e.create_contract(CLIENT, FREELANCER, None, vec![100], ReleaseAuthorization::ClientOnly).unwrap();
    e.deposit_funds(id, CLIENT, 100).unwrap();
    assert_eq!(e.claim_timeout_refund(id, 0, u64::MAX), Err(Error::DeadlineNotPassed));
}

#[test]
fn claim_timeout_refund_fails_when_already_released() {
    let (mut e, id) = setup_funded_with_deadline(2000);
    release(&mut e, id, 1);
    assert_eq!(e.claim_timeout_refund(id, 1, 2001), Err(Error::AlreadyReleased));
}

#[test]
fn claim_timeout_refund_fails_when_already_refunded() {
    let (mut e, id) = setup_funded_with_deadline(2000);
    assert!(e.claim_timeout_refund(id, 1, 2001).is_ok());
    assert_eq!(e.claim_timeout_refund(id, 1, 2001), Err(Error::AlreadyRefunded));
}

#[test]
fn claim_timeout_refund_fails_out_of_bounds() {
    let (mut e, id) = setup_funded_with_deadline(2000);
    assert_eq!(e.claim_timeout_refund(id, 99, 2001), Err(Error::IndexOutOfBounds));
}

#[test]
fn claim_timeout_refund_fails_when_paused() {
    let (mut e, id) = setup_funded_with_deadline(2000);
    e.pause().unwrap();
    assert_eq!(e.claim_timeout_refund(id, 1, 2001), Err(Error::ContractPaused));
}

#[test]
fn claim_timeout_refund_fails_in_completed_state() {
    let (mut e, id) = setup_funded_with_deadline(2000);
    for i in 0..3u32 {
        release(&mut e, id, i);
    }
    assert_eq!(e.claim_timeout_refund(id, 1, 2001), Err(Error::InvalidState));
}

#[test]
fn claim_timeout_refund_works_only_on_individual_milestones() {
    let mut e = initialized();
    let id = e
        .create_contract_with_deadlines(
            CLIENT,
            FREELANCER,
            None,
            vec![100, 200],
            ReleaseAuthorization::ClientOnly,
            Some(vec![3000, 4000]),
        )
        .unwrap();
    e.deposit_funds(id, CLIENT, 300).unwrap();
    assert_eq!(e.claim_timeout_refund(id, 0, 3500), Ok(100));
    assert_eq!(e.claim_timeout_refund(id, 1, 3500), Err(Error::DeadlineNotPassed));
    assert_eq!(e.claim_timeout_refund(id, 1, 5000), Ok(200));
    assert_eq!(e.get_contract(id).unwrap().status, ContractStatus::Refunded);
}

#[test]
fn claim_timeout_refund_needs_the_funds_in_escrow() {
    let mut e = initialized();
    let id = e
        .create_contract_with_deadlines(
            CLIENT,
            FREELANCER,
            None,
            vec![100, 200],
            ReleaseAuthorization::ClientOnly,
            Some(vec![10, 10]),
        )
        .unwrap();
    assert_eq!(e.claim_timeout_refund(id, 0, 11), Err(Error::InsufficientFunds));
    e.deposit_funds(id, CLIENT, 100).unwrap();
    assert_eq!(e.get_contract(id).unwrap().status, ContractStatus::PartiallyFunded);
    assert_eq!(e.claim_timeout_refund(id, 1, 11), Err(Error::InsufficientFunds));
    assert_eq!(e.claim_timeout_refund(id, 0, 11), Ok(100));
    assert_eq!(e.get_contract(id).unwrap().refunded_amount, 100);
}

#[test]
fn claim_timeout_refund_rejects_finalized_and_unknown_contracts() {
    let (mut e, id) = setup_funded_with_deadline(2000);
    assert_eq!(e.claim_timeout_refund(id + 1, 1, 2001), Err(Error::ContractNotFound));
    for i in 0..3u32 {
        release(&mut e, id, i);
    }
    e.finalize_contract(id, CLIENT, 5).unwrap();
    assert_eq!(e.claim_timeout_refund(id, 1, 2001), Err(Error::AlreadyFinalized));
}
