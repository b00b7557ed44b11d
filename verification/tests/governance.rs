use escrow::{AccountId, Error, Escrow, ADMIN_ROTATION_MIN_DELAY_LEDGERS};

const ADMIN: AccountId = 1;

fn register_client() -> Escrow {
    let mut e = Escrow::new();
    e.initialize(ADMIN).unwrap();
    e
}

#[test]
fn admin_transfer_propose_and_accept_happy_path() {
    let mut e = register_client();
    assert_eq!(e.propose_governance_admin(2, 10), Ok(()));
    assert_eq!(e.get_pending_governance_admin(), Some(2));
    assert_eq!(e.accept_governance_admin(10 + ADMIN_ROTATION_MIN_DELAY_LEDGERS), Ok(()));
    assert_eq!(e.get_governance_admin(), Some(2));
    assert_eq!(e.get_admin(), Some(2));
    assert_eq!(e.get_pending_governance_admin(), None);
}

#[test]
fn propose_self_as_admin_rejected() {
    let mut e = register_client();
    assert_eq!(e.propose_governance_admin(ADMIN, 10), Err(Error::CannotProposeSelf));
    assert_eq!(e.get_pending_governance_admin(), None);
}

#[test]
fn propose_overwrites_pending_admin() {
    let mut e = register_client();
    e.propose_governance_admin(2, 10).unwrap();
    assert_eq!(e.get_pending_governance_admin(), Some(2));
    e.propose_governance_admin(3, 11).unwrap();
    assert_eq!(e.get_pending_governance_admin(), Some(3));
}

#[test]
fn cancel_proposal_clears_pending_admin() {
    let mut e = register_client();
    e.propose_governance_admin(2, 10).unwrap();
    assert_eq!(e.cancel_governance_admin_proposal(), Ok(()));
    assert_eq!(e.get_pending_governance_admin(), None);
}

#[test]
fn cancel_without_proposal_fails() {
    let mut e = register_client();
    assert_eq!(e.cancel_governance_admin_proposal(), Err(Error::InvalidState));
}

#[test]
fn accept_after_cancel_fails() {
    let mut e = register_client();
    e.propose_governance_admin(2, 10).unwrap();
    e.cancel_governance_admin_proposal().unwrap();
    assert_eq!(
        e.accept_governance_admin(10 + ADMIN_ROTATION_MIN_DELAY_LEDGERS),
        Err(Error::InvalidState)
    );
}

#[test]
fn propose_not_initialized_fails() {
    let mut e = Escrow::new();
    assert_eq!(e.propose_governance_admin(2, 10), Err(Error::NotInitialized));
}

#[test]
fn accept_not_initialized_fails() {
    let mut e = Escrow::new();
    assert_eq!(e.accept_governance_admin(10), Err(Error::NotInitialized));
}

#[test]
fn cancel_not_initialized_fails() {
    let mut e = Escrow::new();
    assert_eq!(e.cancel_governance_admin_proposal(), Err(Error::NotInitialized));
}

#[test]
fn propose_then_cancel_then_new_propose_then_accept() {
    let mut e = register_client();
    e.propose_governance_admin(2, 10).unwrap();
    assert_eq!(e.get_pending_governance_admin(), Some(2));
    e.cancel_governance_admin_proposal().unwrap();
    assert_eq!(e.get_pending_governance_admin(), None);
    e.propose_governance_admin(3, 20).unwrap();
    assert_eq!(e.get_pending_governance_admin(), Some(3));
    assert_eq!(e.accept_governance_admin(20 + ADMIN_ROTATION_MIN_DELAY_LEDGERS), Ok(()));
    assert_eq!(e.get_governance_admin(), Some(3));
    assert_eq!(e.get_pending_governance_admin(), None);
}

#[test]
fn accept_before_timelock_fails() {
    let mut e = register_client();
    e.propose_governance_admin(2, 10).unwrap();
    assert_eq!(e.accept_governance_admin(10), Err(Error::TimelockNotElapsed));
    assert_eq!(e.get_governance_admin(), Some(ADMIN));
}
