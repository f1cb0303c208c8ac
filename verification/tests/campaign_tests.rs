use crowdfunding::{Crowdfunding, LedgerError, CAMPAIGN_CREATION_FEE};

fn fresh() -> Crowdfunding {
    Crowdfunding::new("platform.wallet".to_string())
}

fn create_default(c: &mut Crowdfunding, creator: &str, target: u128, deadline: u64) -> u64 {
    c.create_campaign(
        "image".to_string(),
        "title".to_string(),
        "description".to_string(),
        target,
        deadline,
        creator.to_string(),
        CAMPAIGN_CREATION_FEE,
    )
    .unwrap()
}

#[test]
fn create_campaign_allocates_sequential_ids() {
    let mut c = fresh();
    let a = create_default(&mut c, "alice", 1000, 100);
    let b = create_default(&mut c, "bob", 2000, 200);
    assert_eq!(a, 0);
    assert_eq!(b, 1);
}

#[test]
fn create_campaign_below_fee_fails_without_spending_an_id() {
    let mut c = fresh();
    let r = c.create_campaign(
        "image".to_string(),
        "title".to_string(),
        "description".to_string(),
        1000,
        100,
        "alice".to_string(),
        CAMPAIGN_CREATION_FEE - 1,
    );
    assert_eq!(r, Err(LedgerError::InsufficientFee));
    assert_eq!(c.get_campaigns().len(), 0);
    // The next successful creation still gets the first identifier.
    let id = create_default(&mut c, "alice", 1000, 100);
    assert_eq!(id, 0);
}

#[test]
fn create_campaign_with_exact_fee_succeeds() {
    let mut c = fresh();
    let r = c.create_campaign(
        "image".to_string(),
        "title".to_string(),
        "description".to_string(),
        1000,
        100,
        "alice".to_string(),
        CAMPAIGN_CREATION_FEE,
    );
    assert_eq!(r, Ok(0));
}

#[test]
fn donate_splits_ninety_ten_exactly() {
    let mut c = fresh();
    create_default(&mut c, "alice", 1000, 100);
    let (creator_tx, platform_tx) = c.donate(0, "bob".to_string(), 500, 10).unwrap();
    assert_eq!(creator_tx.to, "alice");
    assert_eq!(creator_tx.amount, 450);
    assert_eq!(platform_tx.to, "platform.wallet");
    assert_eq!(platform_tx.amount, 50);
}

#[test]
fn donate_split_rounds_down_and_platform_absorbs_remainder() {
    let mut c = fresh();
    create_default(&mut c, "alice", 1000, 100);
    let (t1, t2) = c.donate(0, "bob".to_string(), 99, 10).unwrap();
    assert_eq!((t1.amount, t2.amount), (89, 10));
    let (t1, t2) = c.donate(0, "bob".to_string(), 1, 10).unwrap();
    assert_eq!((t1.amount, t2.amount), (0, 1));
    let (t1, t2) = c.donate(0, "bob".to_string(), 0, 10).unwrap();
    assert_eq!((t1.amount, t2.amount), (0, 0));
}

#[test]
fn donate_split_is_exact_at_the_largest_amount() {
    let mut c = fresh();
    create_default(&mut c, "alice", 1000, 100);
    let (t1, t2) = c.donate(0, "bob".to_string(), u128::MAX, 10).unwrap();
    assert_eq!(t1.amount, 306254130228844617117037146688591390309);
    assert_eq!(t2.amount, 34028236692093846346337460743176821146);
    assert_eq!(t1.amount + t2.amount, u128::MAX);
}

#[test]
fn donate_to_missing_campaign_fails() {
    let mut c = fresh();
    let r = c.donate(0, "bob".to_string(), 500, 10);
    assert_eq!(r, Err(LedgerError::NotFound));
}

#[test]
fn donate_after_deadline_fails_and_changes_nothing() {
    let mut c = fresh();
    create_default(&mut c, "alice", 1000, 100);
    c.donate(0, "bob".to_string(), 500, 10).unwrap();
    let before = c.get_campaigns();
    let r = c.donate(0, "bob".to_string(), 300, 101);
    assert_eq!(r, Err(LedgerError::CampaignEnded));
    let after = c.get_campaigns();
    assert_eq!(after.len(), before.len());
    assert_eq!(after[0].1.amount_collected, before[0].1.amount_collected);
    assert_eq!(after[0].1.deadline, before[0].1.deadline);
    assert_eq!(c.get_donations(0).unwrap(), vec![("bob".to_string(), "500".to_string())]);
}

#[test]
fn donate_at_the_deadline_still_succeeds() {
    let mut c = fresh();
    create_default(&mut c, "alice", 1000, 100);
    assert!(c.donate(0, "bob".to_string(), 500, 100).is_ok());
}

#[test]
fn donation_overflow_fails_and_changes_nothing() {
    let mut c = fresh();
    create_default(&mut c, "alice", 1000, 100);
    c.donate(0, "bob".to_string(), u128::MAX, 10).unwrap();
    let r = c.donate(0, "carol".to_string(), 1, 10);
    assert_eq!(r, Err(LedgerError::Overflow));
    let donations = c.get_donations(0).unwrap();
    assert_eq!(donations.len(), 1);
    assert_eq!(donations[0].0, "bob");
}

#[test]
fn collected_amount_is_the_sum_of_donations() {
    let mut c = fresh();
    create_default(&mut c, "alice", 1000, 100);
    c.donate(0, "bob".to_string(), 500, 10).unwrap();
    c.donate(0, "carol".to_string(), 40, 20).unwrap();
    c.donate(0, "bob".to_string(), 300, 30).unwrap();
    let campaigns = c.get_campaigns();
    assert_eq!(campaigns[0].1.amount_collected, "840");
    let mut donations = c.get_donations(0).unwrap();
    donations.sort();
    assert_eq!(
        donations,
        vec![
            ("bob".to_string(), "800".to_string()),
            ("carol".to_string(), "40".to_string()),
        ]
    );
}

#[test]
fn donation_scenario_before_and_after_deadline() {
    let mut c = fresh();
    create_default(&mut c, "alice", 1000, 50);
    c.donate(0, "x".to_string(), 500, 10).unwrap();
    c.donate(0, "x".to_string(), 300, 20).unwrap();
    assert_eq!(c.get_campaigns()[0].1.amount_collected, "800");
    assert_eq!(c.get_donations(0).unwrap(), vec![("x".to_string(), "800".to_string())]);
    let r = c.donate(0, "x".to_string(), 100, 51);
    assert_eq!(r, Err(LedgerError::CampaignEnded));
    assert_eq!(c.get_campaigns()[0].1.amount_collected, "800");
}

#[test]
fn get_donations_of_missing_campaign_fails() {
    let c = fresh();
    assert_eq!(c.get_donations(0), Err(LedgerError::NotFound));
}

#[test]
fn campaign_views_render_amounts_as_decimal_strings() {
    let mut c = fresh();
    create_default(&mut c, "alice", u128::MAX, 77);
    let campaigns = c.get_campaigns();
    assert_eq!(campaigns.len(), 1);
    let (id, view) = &campaigns[0];
    assert_eq!(*id, 0);
    assert_eq!(view.creator, "alice");
    assert_eq!(view.image, "image");
    assert_eq!(view.title, "title");
    assert_eq!(view.description, "description");
    assert_eq!(view.target, "340282366920938463463374607431768211455");
    assert_eq!(view.deadline, 77);
    assert_eq!(view.amount_collected, "0");
}

#[test]
fn set_platform_wallet_requires_current_wallet() {
    let mut c = fresh();
    let r = c.set_platform_wallet("mallory.wallet".to_string(), "mallory".to_string());
    assert_eq!(r, Err(LedgerError::Unauthorized));
    let r = c.set_platform_wallet("new.wallet".to_string(), "platform.wallet".to_string());
    assert_eq!(r, Ok(()));
    // The fee share of the next donation goes to the new wallet.
    create_default(&mut c, "alice", 1000, 100);
    let (_, platform_tx) = c.donate(0, "bob".to_string(), 100, 10).unwrap();
    assert_eq!(platform_tx.to, "new.wallet");
}
