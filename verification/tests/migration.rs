use escrow::ttl::PENDING_MIGRATION_TTL_LEDGERS;
use escrow::{AccountId, ContractStatus, Error, Escrow, PendingClientMigration, ReleaseAuthorization};

const ADMIN: AccountId = 1;
const CLIENT: AccountId = 10;
const FREELANCER: AccountId = 11;
const ARBITER: AccountId = 12;
const NEW_CLIENT: AccountId = 13;

fn setup() -> (Escrow, u32) {
    let mut e = Escrow::new();
    e.initialize(ADMIN).unwrap();
    e.bind_settlement_token(ADMIN, 100, 200).unwrap();
    let id = e
        .create_contract(CLIENT, FREELANCER, Some(ARBITER), vec![100, 200], ReleaseAuthorization::ClientOnly)
        .unwrap();
    (e, id)
}

#[test]
fn migration_hands_contract_to_new_client() {
    let (mut e, id) = setup();
    assert!(!e.has_pending_client_migration(id, 10));
    assert_eq!(e.get_pending_client_migration(id, 10), Err(Error::InvalidState));
    assert_eq!(e.propose_client_migration(id, CLIENT, NEW_CLIENT, 10), Ok(()));
    assert!(e.has_pending_client_migration(id, 10));
    assert_eq!(
        e.get_pending_client_migration(id, 11),
        Ok(PendingClientMigration {
            current_client: CLIENT,
            new_client: NEW_CLIENT,
            requested_at_ledger: 10,
            live_until_ledger: 10 + PENDING_MIGRATION_TTL_LEDGERS,
        })
    );
    assert_eq!(e.propose_client_migration(id, CLIENT, 14, 12), Err(Error::InvalidState));
    assert_eq!(e.accept_client_migration(id, 14, 12), Err(Error::UnauthorizedRole));
    assert_eq!(e.accept_client_migration(id, NEW_CLIENT, 12), Ok(()));
    assert_eq!(e.get_contract(id).unwrap().client, NEW_CLIENT);
    assert!(!e.has_pending_client_migration(id, 12));
    assert_eq!(e.deposit_funds(id, CLIENT, 300), Err(Error::UnauthorizedRole));
    assert_eq!(e.deposit_funds(id, NEW_CLIENT, 300), Ok(()));
    assert_eq!(e.get_contract(id).unwrap().status, ContractStatus::Funded);
    // The participant index is keyed by the creating client and never moves.
    assert_eq!(e.list_by_participant(CLIENT, 0, 0, 10), vec![id]);
    assert_eq!(e.list_by_participant(NEW_CLIENT, 0, 0, 10), Vec::<u32>::new());
}

#[test]
fn migration_rejects_invalid_parties() {
    let (mut e, id) = setup();
    assert_eq!(e.propose_client_migration(id, FREELANCER, NEW_CLIENT, 1), Err(Error::UnauthorizedRole));
    assert_eq!(e.propose_client_migration(id, CLIENT, CLIENT, 1), Err(Error::InvalidParticipant));
    assert_eq!(e.propose_client_migration(id, CLIENT, FREELANCER, 1), Err(Error::InvalidParticipant));
    assert_eq!(e.propose_client_migration(id, CLIENT, ARBITER, 1), Err(Error::InvalidArbiter));
    assert_eq!(e.propose_client_migration(9, CLIENT, NEW_CLIENT, 1), Err(Error::ContractNotFound));
}

#[test]
fn migration_proposal_expires() {
    let (mut e, id) = setup();
    e.propose_client_migration(id, CLIENT, NEW_CLIENT, 100).unwrap();
    let expiry = 100 + PENDING_MIGRATION_TTL_LEDGERS;
    assert!(e.has_pending_client_migration(id, expiry));
    assert!(!e.has_pending_client_migration(id, expiry + 1));
    assert_eq!(e.accept_client_migration(id, NEW_CLIENT, expiry + 1), Err(Error::InvalidState));
    assert_eq!(e.propose_client_migration(id, CLIENT, 14, expiry + 1), Ok(()));
    assert_eq!(e.accept_client_migration(id, 14, expiry + 2), Ok(()));
    assert_eq!(e.get_contract(id).unwrap().client, 14);
}

#[test]
fn migration_cancel_by_current_client() {
    let (mut e, id) = setup();
    assert_eq!(e.cancel_client_migration(id, CLIENT, 1), Err(Error::InvalidState));
    e.propose_client_migration(id, CLIENT, NEW_CLIENT, 1).unwrap();
    assert_eq!(e.cancel_client_migration(id, FREELANCER, 1), Err(Error::UnauthorizedRole));
    assert_eq!(e.cancel_client_migration(id, CLIENT, 2), Ok(()));
    assert!(!e.has_pending_client_migration(id, 2));
    assert_eq!(e.accept_client_migration(id, NEW_CLIENT, 2), Err(Error::InvalidState));
}

#[test]
fn migration_needs_open_contract_and_no_pause() {
    let (mut e, id) = setup();
    e.deposit_funds(id, CLIENT, 300).unwrap();
    e.raise_dispute(id, CLIENT).unwrap();
    assert_eq!(e.propose_client_migration(id, CLIENT, NEW_CLIENT, 1), Err(Error::InvalidState));
    let (mut e2, id2) = setup();
    e2.pause().unwrap();
    assert_eq!(e2.propose_client_migration(id2, CLIENT, NEW_CLIENT, 1), Err(Error::ContractPaused));
}
