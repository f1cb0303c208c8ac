use crowdfunding::{Crowdfunding, LedgerError, CAMPAIGN_CREATION_FEE};

fn fresh() -> Crowdfunding {
    Crowdfunding::new("platform.wallet".to_string())
}

fn mint(c: &mut Crowdfunding, owner: &str, title: &str) -> u64 {
    c.mint_nft(
        title.to_string(),
        "a collectible".to_string(),
        "media.url".to_string(),
        owner.to_string(),
    )
}

#[test]
fn mint_assigns_sequential_ids_and_starts_unlisted() {
    let mut c = fresh();
    let a = mint(&mut c, "minter", "Art1");
    let b = mint(&mut c, "minter", "Art2");
    assert_eq!(a, 0);
    assert_eq!(b, 1);
    let token = c.get_nft(0).unwrap();
    assert_eq!(token.owner_id, "minter");
    assert_eq!(token.metadata.title, "Art1");
    assert_eq!(token.metadata.description, "a collectible");
    assert_eq!(token.metadata.media, "media.url");
    assert!(!token.for_sale);
    assert_eq!(token.price, None);
}

#[test]
fn get_nft_of_missing_token_is_none() {
    let c = fresh();
    assert!(c.get_nft(0).is_none());
}

#[test]
fn list_marks_token_for_sale_at_price() {
    let mut c = fresh();
    mint(&mut c, "minter", "Art1");
    assert_eq!(c.list_nft_for_sale(0, 50, "minter".to_string()), Ok(()));
    let token = c.get_nft(0).unwrap();
    assert!(token.for_sale);
    assert_eq!(token.price, Some(50));
    assert_eq!(token.owner_id, "minter");
}

#[test]
fn list_by_non_owner_fails_and_changes_nothing() {
    let mut c = fresh();
    mint(&mut c, "minter", "Art1");
    let r = c.list_nft_for_sale(0, 50, "mallory".to_string());
    assert_eq!(r, Err(LedgerError::Unauthorized));
    let token = c.get_nft(0).unwrap();
    assert!(!token.for_sale);
    assert_eq!(token.price, None);
}

#[test]
fn list_missing_token_fails() {
    let mut c = fresh();
    let r = c.list_nft_for_sale(0, 50, "minter".to_string());
    assert_eq!(r, Err(LedgerError::NotFound));
}

#[test]
fn buy_unlisted_token_fails_and_grants_nothing() {
    let mut c = fresh();
    mint(&mut c, "minter", "Art1");
    let r = c.buy_nft(0, "buyer".to_string(), 50);
    assert_eq!(r.unwrap_err(), LedgerError::NotForSale);
    assert!(!c.has_access(0, "buyer".to_string()));
}

#[test]
fn buy_own_token_fails_and_grants_nothing() {
    let mut c = fresh();
    mint(&mut c, "minter", "Art1");
    c.list_nft_for_sale(0, 50, "minter".to_string()).unwrap();
    let r = c.buy_nft(0, "minter".to_string(), 50);
    assert_eq!(r.unwrap_err(), LedgerError::SelfPurchase);
    assert!(!c.has_access(0, "minter".to_string()));
}

#[test]
fn buy_with_insufficient_payment_fails() {
    let mut c = fresh();
    mint(&mut c, "minter", "Art1");
    c.list_nft_for_sale(0, 50, "minter".to_string()).unwrap();
    let r = c.buy_nft(0, "buyer".to_string(), 49);
    assert_eq!(r.unwrap_err(), LedgerError::InsufficientPayment);
    assert!(!c.has_access(0, "buyer".to_string()));
}

#[test]
fn buy_missing_token_fails() {
    let mut c = fresh();
    let r = c.buy_nft(0, "buyer".to_string(), 50);
    assert_eq!(r.unwrap_err(), LedgerError::NotFound);
}

#[test]
fn buy_transfers_full_payment_and_grants_access() {
    let mut c = fresh();
    mint(&mut c, "minter", "Art1");
    c.list_nft_for_sale(0, 50, "minter".to_string()).unwrap();
    let transfer = c.buy_nft(0, "buyer".to_string(), 80).unwrap();
    assert_eq!(transfer.to, "minter");
    // The buyer pays the full attached amount, even above the price.
    assert_eq!(transfer.amount, 80);
    assert!(c.has_access(0, "buyer".to_string()));
    // Ownership and the listing itself are left as they were.
    let token = c.get_nft(0).unwrap();
    assert_eq!(token.owner_id, "minter");
    assert!(token.for_sale);
    assert_eq!(token.price, Some(50));
}

#[test]
fn access_grant_survives_unrelated_operations() {
    let mut c = fresh();
    mint(&mut c, "minter", "Art1");
    c.list_nft_for_sale(0, 50, "minter".to_string()).unwrap();
    c.buy_nft(0, "buyer".to_string(), 50).unwrap();
    assert!(c.has_access(0, "buyer".to_string()));
    // Unrelated operations leave the grant in place.
    mint(&mut c, "someone", "Art2");
    c.list_nft_for_sale(1, 10, "someone".to_string()).unwrap();
    c.buy_nft(1, "other".to_string(), 10).unwrap();
    c.create_campaign(
        "i".to_string(),
        "t".to_string(),
        "d".to_string(),
        10,
        100,
        "alice".to_string(),
        CAMPAIGN_CREATION_FEE,
    )
    .unwrap();
    c.donate(0, "bob".to_string(), 5, 1).unwrap();
    c.set_platform_wallet("new.wallet".to_string(), "platform.wallet".to_string()).unwrap();
    assert!(c.has_access(0, "buyer".to_string()));
    assert!(c.has_access(1, "other".to_string()));
}

#[test]
fn has_access_defaults_to_false() {
    let c = fresh();
    assert!(!c.has_access(0, "anyone".to_string()));
    let mut c = fresh();
    mint(&mut c, "minter", "Art1");
    assert!(!c.has_access(0, "minter".to_string()));
    assert!(!c.has_access(7, "minter".to_string()));
}

#[test]
fn get_all_nfts_lists_every_token_with_its_id() {
    let mut c = fresh();
    mint(&mut c, "a", "Art1");
    mint(&mut c, "b", "Art2");
    let all = c.get_all_nfts();
    assert_eq!(all.len(), 2);
    assert_eq!(all[0].0, 0);
    assert_eq!(all[0].1.metadata.title, "Art1");
    assert_eq!(all[1].0, 1);
    assert_eq!(all[1].1.metadata.title, "Art2");
}

#[test]
fn mint_list_buy_scenario() {
    let mut c = fresh();
    let id = mint(&mut c, "minter", "Art1");
    assert_eq!(id, 0);
    let token = c.get_nft(0).unwrap();
    assert_eq!(token.owner_id, "minter");
    assert!(!token.for_sale);
    c.list_nft_for_sale(0, 50, "minter".to_string()).unwrap();
    let token = c.get_nft(0).unwrap();
    assert!(token.for_sale);
    assert_eq!(token.price, Some(50));
    let transfer = c.buy_nft(0, "b".to_string(), 50).unwrap();
    assert_eq!(transfer.to, "minter");
    assert_eq!(transfer.amount, 50);
    assert!(c.has_access(0, "b".to_string()));
}
