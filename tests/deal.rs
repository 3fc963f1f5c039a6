use vaultix_escrow::address::Address;
use vaultix_escrow::types::{DataKey, Escrow, EscrowStatus};

#[test]
fn new_deal_starts_created() {
    let buyer = Address::new("GBUYER".to_string());
    let seller = Address::new("GSELLER".to_string());
    let token = Address::new("CTOKEN".to_string());
    let deal = Escrow::new(buyer.clone(), seller.clone(), token.clone(), 2500, 1706400000);
    assert_eq!(deal.buyer, buyer);
    assert_eq!(deal.seller, seller);
    assert_eq!(deal.token_address, token);
    assert_eq!(deal.amount, 2500);
    assert_eq!(deal.status, EscrowStatus::Created);
    assert_eq!(deal.deadline, 1706400000);
    assert_ne!(DataKey::Escrow(1), DataKey::EscrowCounter);
}

#[test]
fn address_text_round_trip() {
    let a = Address::new("GABC".to_string());
    assert_eq!(a.as_str(), "GABC");
    assert_eq!(a.duplicate(), a);
    assert_ne!(a, Address::new("GABD".to_string()));
}
