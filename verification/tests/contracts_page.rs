use escrow::{AccountId, ContractStatus, Escrow, ReleaseAuthorization};

const ADMIN: AccountId = 1;
const CLIENT: AccountId = 10;
const FREELANCER: AccountId = 11;

struct Fixture {
    escrow: Escrow,
    escrow_id: u32,
    client: AccountId,
    freelancer: AccountId,
}

fn funded() -> Fixture {
    let mut escrow = Escrow::new();
    escrow.initialize(ADMIN).unwrap();
    escrow.bind_settlement_token(ADMIN, 100, 200).unwrap();
    let escrow_id = escrow
        .create_contract(
            CLIENT,
            FREELANCER,
            None,
            vec![200_0000000, 400_0000000, 600_0000000],
            ReleaseAuthorization::ClientOnly,
        )
        .unwrap();
    escrow.deposit_funds(escrow_id, CLIENT, 1_200_0000000).unwrap();
    Fixture { escrow, escrow_id, client: CLIENT, freelancer: FREELANCER }
}

#[test]
fn empty_page() {
    let mut escrow = Escrow::new();
    escrow.initialize(ADMIN).unwrap();
    let page = escrow.get_contracts_page(0, 10);
    assert_eq!(page.len(), 0);
}

#[test]
fn single_page() {
    let fix = funded();
    let page = fix.escrow.get_contracts_page(0, 10);
    assert_eq!(page.len(), 1);
    let entry = page[0];
    assert_eq!(entry.id, fix.escrow_id);
    assert_eq!(entry.client, fix.client);
    assert_eq!(entry.freelancer, fix.freelancer);
    assert_eq!(entry.status, ContractStatus::Funded);
}

#[test]
fn pagination_continuation() {
    let mut fix = funded();
    fix.escrow
        .create_contract(20, 21, None, vec![1000], ReleaseAuthorization::ClientOnly)
        .unwrap();
    let p1 = fix.escrow.get_contracts_page(0, 1);
    assert_eq!(p1.len(), 1);
    assert_eq!(p1[0].id, 1);
    let p2 = fix.escrow.get_contracts_page(1, 1);
    assert_eq!(p2.len(), 1);
    assert_eq!(p2[0].id, 2);
    assert_eq!(p2[0].status, ContractStatus::Created);
    assert_eq!(fix.escrow.get_contracts_page(2, 1).len(), 0);
}

#[test]
fn ceiling_clamp() {
    let mut fix = funded();
    for _ in 0..60 {
        fix.escrow
            .create_contract(20, 21, None, vec![1000], ReleaseAuthorization::ClientOnly)
            .unwrap();
    }
    let page = fix.escrow.get_contracts_page(0, 100);
    assert_eq!(page.len(), 50);
    assert_eq!(fix.escrow.get_contracts_page(50, 100).len(), 11);
}
