use escrow::{AccountId, ContractStatus, Error, Escrow, ReleaseAuthorization};

use escrow::ttl::PENDING_APPROVAL_TTL_LEDGERS;
use ReleaseAuthorization::{ArbiterOnly, ClientAndArbiter, ClientOnly, MultiSig};

const C: AccountId = 10;
const F: AccountId = 11;
const A: AccountId = 12;
const STRANGER: AccountId = 99;

/// An initialized escrow with a bound settlement token.
fn new_client() -> Escrow {
    let mut e = Escrow::new();
    e.initialize(1).unwrap();
    e.bind_settlement_token(1, 2, 3).unwrap();
    e
}

/// A contract with milestones 500 + 300 (not funded).
fn create(e: &mut Escrow, arbiter: Option<AccountId>, auth: ReleaseAuthorization) -> u32 {
    e.create_contract(C, F, arbiter, vec![500, 300], auth).unwrap()
}

/// The same contract, fully funded.
fn create_funded(e: &mut Escrow, arbiter: Option<AccountId>, auth: ReleaseAuthorization) -> u32 {
    let id = create(e, arbiter, auth);
    e.deposit_funds(id, C, 800).unwrap();
    id
}

fn funded(arbiter: Option<AccountId>, auth: ReleaseAuthorization) -> (Escrow, u32) {
    let mut e = new_client();
    let id = create_funded(&mut e, arbiter, auth);
    (e, id)
}

#[test]
fn approve_at_index_zero_accepted() {
    let (mut e, id) = funded(None, ClientOnly);
    assert!(e.approve_milestone_release(id, C, 0, 0).is_ok());
}

#[test]
fn approve_at_last_valid_index_accepted() {
    let (mut e, id) = funded(None, ClientOnly);
    assert!(e.approve_milestone_release(id, C, 1, 0).is_ok());
}

#[test]
fn approve_at_out_of_bounds_index_rejected() {
    let (mut e, id) = funded(None, ClientOnly);
    assert_eq!(e.approve_milestone_release(id, C, 2, 0), Err(Error::IndexOutOfBounds));
}

#[test]
fn release_at_out_of_bounds_index_rejected() {
    let (mut e, id) = funded(None, ClientOnly);
    e.approve_milestone_release(id, C, 0, 0).unwrap();
    assert!(e.release_milestone(id, C, 2, 0).is_err());
}

#[test]
fn client_only_zero_approvals_insufficient() {
    let (mut e, id) = funded(None, ClientOnly);
    assert_eq!(e.release_milestone(id, C, 0, 0), Err(Error::InsufficientApprovals));
}

#[test]
fn client_only_exactly_required_approval_accepted() {
    let (mut e, id) = funded(None, ClientOnly);
    assert!(e.approve_milestone_release(id, C, 0, 0).is_ok());
    assert!(e.release_milestone(id, C, 0, 0).is_ok());
}

#[test]
fn arbiter_only_zero_approvals_insufficient() {
    let (mut e, id) = funded(Some(A), ArbiterOnly);
    assert_eq!(e.release_milestone(id, A, 0, 0), Err(Error::InsufficientApprovals));
}

#[test]
fn arbiter_only_exactly_required_approval_accepted() {
    let (mut e, id) = funded(Some(A), ArbiterOnly);
    assert!(e.approve_milestone_release(id, A, 0, 0).is_ok());
    assert!(e.release_milestone(id, A, 0, 0).is_ok());
}

#[test]
fn client_and_arbiter_zero_approvals_insufficient() {
    let (mut e, id) = funded(Some(A), ClientAndArbiter);
    assert_eq!(e.release_milestone(id, C, 0, 0), Err(Error::InsufficientApprovals));
}

#[test]
fn client_and_arbiter_client_alone_is_sufficient() {
    let (mut e, id) = funded(Some(A), ClientAndArbiter);
    assert!(e.approve_milestone_release(id, C, 0, 0).is_ok());
    assert!(e.release_milestone(id, C, 0, 0).is_ok());
}

#[test]
fn client_and_arbiter_arbiter_alone_is_sufficient() {
    let (mut e, id) = funded(Some(A), ClientAndArbiter);
    assert!(e.approve_milestone_release(id, A, 0, 0).is_ok());
    assert!(e.release_milestone(id, A, 0, 0).is_ok());
}

#[test]
fn multisig_zero_approvals_insufficient() {
    let (mut e, id) = funded(None, MultiSig);
    assert_eq!(e.release_milestone(id, C, 0, 0), Err(Error::InsufficientApprovals));
}

#[test]
fn multisig_one_short_client_only_insufficient() {
    let (mut e, id) = funded(None, MultiSig);
    assert!(e.approve_milestone_release(id, C, 0, 0).is_ok());
    assert_eq!(e.release_milestone(id, C, 0, 0), Err(Error::InsufficientApprovals));
}

#[test]
fn multisig_one_short_freelancer_only_insufficient() {
    let (mut e, id) = funded(None, MultiSig);
    assert!(e.approve_milestone_release(id, F, 0, 0).is_ok());
    assert_eq!(e.release_milestone(id, F, 0, 0), Err(Error::InsufficientApprovals));
}

#[test]
fn multisig_both_approvals_exactly_required_accepted() {
    let (mut e, id) = funded(None, MultiSig);
    assert!(e.approve_milestone_release(id, C, 0, 0).is_ok());
    assert!(e.approve_milestone_release(id, F, 0, 0).is_ok());
    assert!(e.release_milestone(id, C, 0, 0).is_ok());
}

#[test]
fn client_only_duplicate_approval_rejected() {
    let (mut e, id) = funded(None, ClientOnly);
    assert!(e.approve_milestone_release(id, C, 0, 0).is_ok());
    assert_eq!(e.approve_milestone_release(id, C, 0, 0), Err(Error::AlreadyApproved));
}

#[test]
fn multisig_client_duplicate_approval_rejected() {
    let (mut e, id) = funded(None, MultiSig);
    assert!(e.approve_milestone_release(id, C, 0, 0).is_ok());
    assert_eq!(e.approve_milestone_release(id, C, 0, 0), Err(Error::AlreadyApproved));
}

#[test]
fn multisig_freelancer_duplicate_approval_rejected() {
    let (mut e, id) = funded(None, MultiSig);
    assert!(e.approve_milestone_release(id, F, 0, 0).is_ok());
    assert_eq!(e.approve_milestone_release(id, F, 0, 0), Err(Error::AlreadyApproved));
}

#[test]
fn arbiter_only_duplicate_approval_rejected() {
    let (mut e, id) = funded(Some(A), ArbiterOnly);
    assert!(e.approve_milestone_release(id, A, 0, 0).is_ok());
    assert_eq!(e.approve_milestone_release(id, A, 0, 0), Err(Error::AlreadyApproved));
}

#[test]
fn client_only_freelancer_cannot_approve() {
    let (mut e, id) = funded(None, ClientOnly);
    assert_eq!(e.approve_milestone_release(id, F, 0, 0), Err(Error::UnauthorizedRole));
}

#[test]
fn client_only_arbiter_cannot_approve() {
    let (mut e, id) = funded(Some(A), ClientOnly);
    assert_eq!(e.approve_milestone_release(id, A, 0, 0), Err(Error::UnauthorizedRole));
}

#[test]
fn client_only_stranger_cannot_approve() {
    let (mut e, id) = funded(None, ClientOnly);
    assert_eq!(e.approve_milestone_release(id, STRANGER, 0, 0), Err(Error::UnauthorizedRole));
}

#[test]
fn arbiter_only_client_cannot_approve() {
    let (mut e, id) = funded(Some(A), ArbiterOnly);
    assert_eq!(e.approve_milestone_release(id, C, 0, 0), Err(Error::UnauthorizedRole));
}

#[test]
fn arbiter_only_freelancer_cannot_approve() {
    let (mut e, id) = funded(Some(A), ArbiterOnly);
    assert_eq!(e.approve_milestone_release(id, F, 0, 0), Err(Error::UnauthorizedRole));
}

#[test]
fn client_and_arbiter_freelancer_cannot_approve() {
    let (mut e, id) = funded(Some(A), ClientAndArbiter);
    assert_eq!(e.approve_milestone_release(id, F, 0, 0), Err(Error::UnauthorizedRole));
}

#[test]
fn multisig_arbiter_cannot_approve() {
    let (mut e, id) = funded(Some(A), MultiSig);
    assert_eq!(e.approve_milestone_release(id, A, 0, 0), Err(Error::UnauthorizedRole));
}

#[test]
fn stranger_cannot_approve_any_mode() {
    for (arbiter, auth) in [(None, ClientOnly), (Some(A), ArbiterOnly), (Some(A), ClientAndArbiter), (None, MultiSig)] {
        let (mut e, id) = funded(arbiter, auth);
        assert_eq!(e.approve_milestone_release(id, STRANGER, 0, 0), Err(Error::UnauthorizedRole));
    }
}

#[test]
fn client_only_freelancer_cannot_release_with_valid_approval() {
    let (mut e, id) = funded(None, ClientOnly);
    e.approve_milestone_release(id, C, 0, 0).unwrap();
    assert_eq!(e.release_milestone(id, F, 0, 0), Err(Error::UnauthorizedRole));
}

#[test]
fn arbiter_only_client_cannot_release_with_valid_approval() {
    let (mut e, id) = funded(Some(A), ArbiterOnly);
    e.approve_milestone_release(id, A, 0, 0).unwrap();
    assert_eq!(e.release_milestone(id, C, 0, 0), Err(Error::UnauthorizedRole));
}

#[test]
fn arbiter_only_freelancer_cannot_release_with_valid_approval() {
    let (mut e, id) = funded(Some(A), ArbiterOnly);
    e.approve_milestone_release(id, A, 0, 0).unwrap();
    assert_eq!(e.release_milestone(id, F, 0, 0), Err(Error::UnauthorizedRole));
}

#[test]
fn client_and_arbiter_freelancer_cannot_release_with_valid_approval() {
    let (mut e, id) = funded(Some(A), ClientAndArbiter);
    e.approve_milestone_release(id, C, 0, 0).unwrap();
    assert_eq!(e.release_milestone(id, F, 0, 0), Err(Error::UnauthorizedRole));
}

#[test]
fn multisig_arbiter_cannot_release_with_both_approvals() {
    let (mut e, id) = funded(Some(A), MultiSig);
    e.approve_milestone_release(id, C, 0, 0).unwrap();
    e.approve_milestone_release(id, F, 0, 0).unwrap();
    assert_eq!(e.release_milestone(id, A, 0, 0), Err(Error::UnauthorizedRole));
}

#[test]
fn arbiter_only_requires_arbiter_at_creation() {
    let mut e = new_client();
    assert_eq!(e.create_contract(C, F, None, vec![500, 300], ArbiterOnly), Err(Error::MissingArbiter));
}

#[test]
fn client_and_arbiter_requires_arbiter_at_creation() {
    let mut e = new_client();
    assert_eq!(e.create_contract(C, F, None, vec![500, 300], ClientAndArbiter), Err(Error::MissingArbiter));
}

#[test]
fn client_only_does_not_require_arbiter() {
    let mut e = new_client();
    assert!(e.create_contract(C, F, None, vec![500, 300], ClientOnly).is_ok());
}

#[test]
fn multisig_does_not_require_arbiter() {
    let mut e = new_client();
    assert!(e.create_contract(C, F, None, vec![500, 300], MultiSig).is_ok());
}

#[test]
fn approve_on_created_contract_fails_invalid_state() {
    let mut e = new_client();
    let id = create(&mut e, None, ClientOnly);
    assert_eq!(e.approve_milestone_release(id, C, 0, 0), Err(Error::InvalidState));
}

#[test]
fn release_on_created_contract_fails_invalid_state() {
    let mut e = new_client();
    let id = create(&mut e, None, ClientOnly);
    assert_eq!(e.release_milestone(id, C, 0, 0), Err(Error::InvalidState));
}

/// Completes contract `id` (ClientOnly) by releasing both milestones.
fn complete(e: &mut Escrow, id: u32) {
    for i in 0..2u32 {
        e.approve_milestone_release(id, C, i, 0).unwrap();
        e.release_milestone(id, C, i, 0).unwrap();
    }
    assert_eq!(e.get_contract(id).unwrap().status, ContractStatus::Completed);
}

#[test]
fn release_on_completed_contract_fails_invalid_state() {
    let (mut e, id) = funded(None, ClientOnly);
    complete(&mut e, id);
    assert_eq!(e.release_milestone(id, C, 0, 0), Err(Error::InvalidState));
}

#[test]
fn approve_on_completed_contract_fails_invalid_state() {
    let (mut e, id) = funded(None, ClientOnly);
    complete(&mut e, id);
    assert_eq!(e.approve_milestone_release(id, C, 0, 0), Err(Error::InvalidState));
}

#[test]
fn release_on_cancelled_contract_fails_invalid_state() {
    let (mut e, id) = funded(None, ClientOnly);
    e.cancel_contract(id, C).unwrap();
    assert_eq!(e.release_milestone(id, C, 0, 0), Err(Error::InvalidState));
}

#[test]
fn approve_on_cancelled_contract_fails_invalid_state() {
    let (mut e, id) = funded(None, ClientOnly);
    e.cancel_contract(id, C).unwrap();
    assert_eq!(e.approve_milestone_release(id, C, 0, 0), Err(Error::InvalidState));
}

#[test]
fn arbiter_only_wrong_party_approval_does_not_unlock_release() {
    let (mut e, id) = funded(Some(A), ArbiterOnly);
    assert_eq!(e.approve_milestone_release(id, C, 0, 0), Err(Error::UnauthorizedRole));
    assert_eq!(e.release_milestone(id, A, 0, 0), Err(Error::InsufficientApprovals));
}

#[test]
fn client_only_wrong_party_approval_does_not_unlock_release() {
    let (mut e, id) = funded(Some(A), ClientOnly);
    assert_eq!(e.approve_milestone_release(id, A, 0, 0), Err(Error::UnauthorizedRole));
    assert_eq!(e.release_milestone(id, C, 0, 0), Err(Error::InsufficientApprovals));
}

#[test]
fn multisig_single_party_approval_does_not_unlock_release() {
    let (mut e, id) = funded(None, MultiSig);
    assert!(e.approve_milestone_release(id, F, 0, 0).is_ok());
    assert_eq!(e.release_milestone(id, F, 0, 0), Err(Error::InsufficientApprovals));
    assert_eq!(e.release_milestone(id, C, 0, 0), Err(Error::InsufficientApprovals));
}

#[test]
fn paused_contract_blocks_approve() {
    let (mut e, id) = funded(None, ClientOnly);
    e.pause().unwrap();
    assert_eq!(e.approve_milestone_release(id, C, 0, 0), Err(Error::ContractPaused));
}

#[test]
fn paused_contract_blocks_release() {
    let (mut e, id) = funded(None, ClientOnly);
    e.approve_milestone_release(id, C, 0, 0).unwrap();
    e.pause().unwrap();
    assert_eq!(e.release_milestone(id, C, 0, 0), Err(Error::ContractPaused));
}

#[test]
fn unpause_restores_approve_and_release() {
    let (mut e, id) = funded(None, ClientOnly);
    e.pause().unwrap();
    e.unpause().unwrap();
    assert!(e.approve_milestone_release(id, C, 0, 0).is_ok());
    assert!(e.release_milestone(id, C, 0, 0).is_ok());
}

#[test]
fn failed_release_unauthorized_leaves_state_unchanged() {
    let (mut e, id) = funded(None, ClientOnly);
    e.approve_milestone_release(id, C, 0, 0).unwrap();
    let before = e.get_contract(id).unwrap();
    assert!(e.release_milestone(id, STRANGER, 0, 0).is_err());
    let after = e.get_contract(id).unwrap();
    assert_eq!(before.released_amount, after.released_amount);
    assert_eq!(before.status, after.status);
}

#[test]
fn failed_release_insufficient_approvals_leaves_state_unchanged() {
    let (mut e, id) = funded(None, ClientOnly);
    let before = e.get_contract(id).unwrap();
    assert!(e.release_milestone(id, C, 0, 0).is_err());
    let after = e.get_contract(id).unwrap();
    assert_eq!(before.released_amount, after.released_amount);
    assert_eq!(before.status, after.status);
}

#[test]
fn expired_approval_does_not_unlock_release() {
    let (mut e, id) = funded(None, ClientOnly);
    e.approve_milestone_release(id, C, 0, 100).unwrap();
    let last_live = 100 + PENDING_APPROVAL_TTL_LEDGERS;
    assert_eq!(e.release_milestone(id, C, 0, last_live + 1), Err(Error::InsufficientApprovals));
    assert_eq!(e.approve_milestone_release(id, C, 0, last_live + 1), Ok(()));
    assert!(e.release_milestone(id, C, 0, last_live + 1).is_ok());
}
