use sdk_utils::auction::{Auction, AuctionEngine, CTypeParams};
use sdk_utils::cdp::{
    add_collateral_type, borrow, create_vault, get_allowlist, get_collateral_amount,
    get_collateral_value, get_debt, get_target_collateral_value, init_custom_cdp, liquidate,
    remove_collateral, repay, set_allowlist, set_liquidator, update_interest, CDP,
};
use sdk_utils::dutchauctionliquidator::{
    claim, get_collateral_amount_of_auction, get_default_c_type_params, get_price,
    init_custom_dutchauctionliquidator, is_expired, reset_auction,
};
use sdk_utils::fixed_point::{fp_to_u64, u128_to_fp, u64_to_fp, u64_to_i256, UFP128};
use sdk_utils::types::{Bits256, Effect, Error, Identity};

fn bits(n: u64) -> Bits256 {
    Bits256 { a: 0, b: 0, c: 0, d: n }
}

fn stable() -> Bits256 {
    bits(1)
}

fn collat() -> Bits256 {
    bits(2)
}

fn wallet() -> Identity {
    Identity::Address(bits(100))
}

fn stranger() -> Identity {
    Identity::Address(bits(101))
}

fn engine_id() -> Identity {
    Identity::ContractId(bits(200))
}

fn one() -> Option<UFP128> {
    Some(u64_to_fp(1))
}

/// Token balances and the reported surplus, as the collaborators keep them.
struct Host {
    balances: Vec<(Bits256, Identity, u64)>,
    surplus: u128,
}

impl Host {
    fn new() -> Host {
        Host { balances: Vec::new(), surplus: 0 }
    }

    fn balance(&self, asset: Bits256, who: Identity) -> u64 {
        self.balances.iter().filter(|e| e.0 == asset && e.1 == who).map(|e| e.2).sum()
    }

    fn mint(&mut self, asset: Bits256, who: Identity, amount: u64) {
        self.balances.push((asset, who, amount));
    }

    fn take(&mut self, asset: Bits256, who: Identity, amount: u64) {
        let have = self.balance(asset, who);
        assert!(have >= amount, "insufficient balance");
        self.balances.retain(|e| !(e.0 == asset && e.1 == who));
        self.balances.push((asset, who, have - amount));
    }

    fn apply(&mut self, effects: &Vec<Effect>) {
        for e in effects {
            match *e {
                Effect::Debit { asset, from, amount } => self.take(asset, from, amount),
                Effect::Credit { asset, to, amount } => self.mint(asset, to, amount),
                Effect::ReportSurplus { amount } => self.surplus += amount.underlying.d as u128,
                Effect::ReportDeficit { amount } => self.surplus -= amount.underlying.d as u128,
            }
        }
    }
}

/// A vault engine with one collateral type (floor 100, ceiling 10000,
/// ratio 1.5, interest 0.5 per second) and a liquidator (initial price
/// ratio 1.5, interval 1 s, change rate 0.5, reset threshold 3).
fn test_deploy() -> (AuctionEngine, CDP, Host) {
    let mut cdp = init_custom_cdp(stable());
    let liquidator = init_custom_dutchauctionliquidator(
        engine_id(),
        stable(),
        &mut cdp,
        u128_to_fp(0b11 << 63),
        1,
        u128_to_fp(0b1 << 63),
        3,
    )
    .unwrap();
    let id = add_collateral_type(
        &mut cdp,
        collat(),
        bits(3),
        u64_to_fp(100),
        u64_to_fp(10000),
        u128_to_fp(0b11 << 63),
        u128_to_fp(0b1 << 63),
        true,
        false,
    )
    .unwrap();
    assert_eq!(id, 0);
    (liquidator, cdp, Host::new())
}

/// Opens a vault with 150 collateral at time 0, borrows 100, accrues one
/// second of interest and liquidates at time 1.
fn setup_test_and_liquidate() -> (AuctionEngine, CDP, Host) {
    let (mut liquidator, mut cdp, mut host) = test_deploy();
    host.mint(collat(), wallet(), 150);
    let (vault_id, effects) = create_vault(&mut cdp, wallet(), 0, 150, None, 0).unwrap();
    host.apply(&effects);
    let effects = borrow(&mut cdp, wallet(), vault_id, 100, 0, one()).unwrap();
    host.apply(&effects);
    let effects = update_interest(&mut cdp, vault_id, 1).unwrap();
    host.apply(&effects);
    let (auction_id, effects) = liquidate(&mut cdp, &mut liquidator, vault_id, 1, one()).unwrap();
    host.apply(&effects);
    assert_eq!(auction_id, 0);
    (liquidator, cdp, host)
}

#[test]
fn test_create_vault() {
    let (_liquidator, mut cdp, mut host) = test_deploy();
    let collat_amount: u64 = 150;
    host.mint(collat(), wallet(), collat_amount);
    let (vault_id, effects) = create_vault(&mut cdp, wallet(), 0, collat_amount, None, 0).unwrap();
    host.apply(&effects);
    assert_eq!(vault_id, 0);
    assert_eq!(host.balance(collat(), wallet()), 0);
    assert_eq!(get_collateral_amount(&cdp, vault_id), Ok(150));
    assert_eq!(get_debt(&cdp, vault_id), Ok(0));
}

#[test]
#[should_panic]
fn test_bad_liquidation() {
    let (mut liquidator, mut cdp, mut host) = test_deploy();
    let collat_amount: u64 = 150;
    host.mint(collat(), wallet(), collat_amount);
    let (vault_id, effects) = create_vault(&mut cdp, wallet(), 0, collat_amount, None, 0).unwrap();
    host.apply(&effects);
    liquidate(&mut cdp, &mut liquidator, vault_id, 0, one()).unwrap();
}

#[test]
fn test_good_liquidation() {
    let (mut liquidator, mut cdp, mut host) = test_deploy();
    let collat_amount: u64 = 150;
    let loan_amount: u64 = 100;
    host.mint(collat(), wallet(), collat_amount);
    let (vault_id, effects) = create_vault(&mut cdp, wallet(), 0, collat_amount, None, 0).unwrap();
    host.apply(&effects);
    assert_eq!(host.balance(stable(), wallet()), 0);
    let effects = borrow(&mut cdp, wallet(), vault_id, loan_amount, 0, one()).unwrap();
    host.apply(&effects);
    assert_eq!(host.balance(stable(), wallet()), loan_amount);
    let effects = update_interest(&mut cdp, vault_id, 1).unwrap();
    host.apply(&effects);
    let target = get_target_collateral_value(&cdp, vault_id).unwrap();
    println!("target: {}", target);
    assert_eq!(target, 225);
    liquidate(&mut cdp, &mut liquidator, vault_id, 1, one()).unwrap();
}

#[test]
fn test_repay() {
    let (_liquidator, mut cdp, mut host) = test_deploy();
    let collat_amount: u64 = 150;
    let loan_amount: u64 = 100;
    host.mint(collat(), wallet(), collat_amount);
    let (vault_id, effects) = create_vault(&mut cdp, wallet(), 0, collat_amount, None, 0).unwrap();
    host.apply(&effects);
    assert_eq!(host.balance(stable(), wallet()), 0);
    let effects = borrow(&mut cdp, wallet(), vault_id, loan_amount, 0, one()).unwrap();
    host.apply(&effects);
    assert_eq!(host.balance(stable(), wallet()), loan_amount);
    let effects = update_interest(&mut cdp, vault_id, 1).unwrap();
    host.apply(&effects);
    let debt = get_debt(&cdp, vault_id).unwrap();
    host.mint(stable(), wallet(), debt);
    let effects = repay(&mut cdp, wallet(), vault_id, debt, 1).unwrap();
    host.apply(&effects);
    assert_eq!(host.balance(stable(), wallet()), loan_amount);
    assert!(get_debt(&cdp, vault_id).unwrap() < debt);
}

#[test]
fn test_remove_collateral() {
    let (_liquidator, mut cdp, mut host) = test_deploy();
    let collat_amount: u64 = 150;
    host.mint(collat(), wallet(), collat_amount);
    let (vault_id, effects) = create_vault(&mut cdp, wallet(), 0, collat_amount, None, 0).unwrap();
    host.apply(&effects);
    let collat_balance = host.balance(collat(), wallet());
    println!("collat_balance: {}", collat_balance);
    let effects = remove_collateral(&mut cdp, vault_id, collat_amount, 0, one()).unwrap();
    host.apply(&effects);
    assert_eq!(host.balance(collat(), wallet()), collat_balance + collat_amount);
}

#[test]
fn test_collateral_amount() {
    let (liquidator, cdp, host) = setup_test_and_liquidate();
    let _default_c_type_params = get_default_c_type_params(&liquidator);
    let collateral_amount = get_collateral_amount_of_auction(&liquidator, 0).unwrap();
    assert_eq!(collateral_amount, 150);
    // The liquidated vault is emptied; its collateral is in the engine's custody.
    assert_eq!(get_collateral_amount(&cdp, 0), Ok(0));
    assert_eq!(host.balance(collat(), engine_id()), collateral_amount);
}

#[test]
#[should_panic]
fn test_underpay() {
    let (mut liquidator, _cdp, mut host) = setup_test_and_liquidate();
    let price = get_price(&liquidator, 0, 1).unwrap();
    host.mint(stable(), wallet(), price);
    claim(&mut liquidator, wallet(), 0, price - 1, 1).unwrap();
}

#[test]
fn test_claim_auction() {
    let (mut liquidator, _cdp, mut host) = setup_test_and_liquidate();
    let price = get_price(&liquidator, 0, 1).unwrap();
    assert_eq!(price, 225);
    assert_eq!(is_expired(&liquidator, 0, 1), Ok(false));
    let second_price = get_price(&liquidator, 0, 2).unwrap();
    assert!(second_price < price);
    host.mint(stable(), wallet(), second_price);
    let effects = claim(&mut liquidator, wallet(), 0, second_price, 2).unwrap();
    host.apply(&effects);
    assert_eq!(host.balance(collat(), wallet()), 150);
}

#[test]
#[should_panic]
fn test_claim_expired_auction() {
    let (mut liquidator, _cdp, mut host) = setup_test_and_liquidate();
    let price = get_price(&liquidator, 0, 1).unwrap();
    assert_eq!(price, 225);
    assert_eq!(is_expired(&liquidator, 0, 1), Ok(false));
    let second_price = get_price(&liquidator, 0, 4).unwrap();
    assert!(second_price < price);
    host.mint(stable(), wallet(), second_price);
    assert_eq!(is_expired(&liquidator, 0, 4), Ok(true));
    claim(&mut liquidator, wallet(), 0, second_price, 4).unwrap();
}

#[test]
fn test_reset_expired_auction() {
    let (mut liquidator, _cdp, _host) = setup_test_and_liquidate();
    assert_eq!(is_expired(&liquidator, 0, 1), Ok(false));
    assert_eq!(is_expired(&liquidator, 0, 4), Ok(true));
    let fresh = reset_auction(&mut liquidator, 0, 4).unwrap();
    assert_eq!(fresh, 1);
    assert_eq!(is_expired(&liquidator, 1, 4), Ok(false));
}

#[test]
#[should_panic]
fn test_premature_reset() {
    let (mut liquidator, _cdp, _host) = setup_test_and_liquidate();
    assert_eq!(is_expired(&liquidator, 0, 1), Ok(false));
    reset_auction(&mut liquidator, 0, 1).unwrap();
}

#[test]
fn scenario_from_vault_to_claim() {
    let (mut liquidator, mut cdp, mut host) = test_deploy();
    host.mint(collat(), wallet(), 150);
    let (vault_id, effects) = create_vault(&mut cdp, wallet(), 0, 150, None, 0).unwrap();
    host.apply(&effects);
    let effects = borrow(&mut cdp, wallet(), vault_id, 100, 0, one()).unwrap();
    host.apply(&effects);
    assert_eq!(get_debt(&cdp, vault_id), Ok(100));
    let effects = update_interest(&mut cdp, vault_id, 1).unwrap();
    host.apply(&effects);
    assert_eq!(get_debt(&cdp, vault_id), Ok(150));
    assert_eq!(host.surplus, 50);
    assert_eq!(get_collateral_value(&cdp, vault_id, one()), Ok(150));
    assert_eq!(get_target_collateral_value(&cdp, vault_id), Ok(225));
    let t0: u64 = 1;
    let (auction, effects) = liquidate(&mut cdp, &mut liquidator, vault_id, t0, one()).unwrap();
    host.apply(&effects);
    assert_eq!(get_price(&liquidator, auction, t0), Ok(225));
    assert!(get_price(&liquidator, auction, t0 + 1).unwrap() < 225);
    assert_eq!(is_expired(&liquidator, auction, t0 + 2), Ok(false));
    assert_eq!(is_expired(&liquidator, auction, t0 + 3), Ok(true));
    let price = get_price(&liquidator, auction, t0).unwrap();
    host.mint(stable(), stranger(), price);
    assert_eq!(claim(&mut liquidator, stranger(), auction, price - 1, t0), Err(Error::Underpayment));
    let effects = claim(&mut liquidator, stranger(), auction, price, t0).unwrap();
    host.apply(&effects);
    assert_eq!(host.balance(collat(), stranger()), 150);
    assert_eq!(host.balance(stable(), stranger()), 0);
    assert_eq!(host.surplus, 50 + 225);
}

#[test]
fn settling_amount_is_the_price_rounded_up() {
    let (mut liquidator, _cdp, _host) = setup_test_and_liquidate();
    assert_eq!(get_price(&liquidator, 0, 2), Ok(113));
    assert_eq!(get_price(&liquidator, 0, 3), Ok(57));
    assert_eq!(get_price(&liquidator, 7, 3), Err(Error::UnknownAuction));
    assert_eq!(claim(&mut liquidator, wallet(), 0, 112, 2), Err(Error::Underpayment));
    assert!(claim(&mut liquidator, wallet(), 0, 113, 2).is_ok());
}

#[test]
fn liquidator_setup_rejects_invalid_parameters() {
    let mut cdp = init_custom_cdp(stable());
    set_liquidator(&mut cdp, stranger());
    let r = init_custom_dutchauctionliquidator(
        engine_id(),
        stable(),
        &mut cdp,
        u64_to_fp(1),
        0,
        u64_to_fp(0),
        3,
    );
    assert_eq!(r.err(), Some(Error::InvalidConfig));
    // The earlier liquidator stays: the new engine cannot liquidate.
    let mut engine =
        AuctionEngine::new(engine_id(), stable(), get_default_c_type_params(&test_deploy().0))
            .unwrap();
    add_collateral_type(
        &mut cdp,
        collat(),
        bits(3),
        u64_to_fp(0),
        u64_to_fp(10000),
        u64_to_fp(2),
        u64_to_fp(1),
        true,
        true,
    )
    .unwrap();
    assert_eq!(
        create_vault(&mut cdp, wallet(), 0, 10, None, 0).err(),
        Some(Error::Unauthorized)
    );
    set_allowlist(&mut cdp, wallet(), true);
    assert!(get_allowlist(&cdp, wallet()));
    create_vault(&mut cdp, wallet(), 0, 10, None, 0).unwrap();
    borrow(&mut cdp, wallet(), 0, 5, 0, one()).unwrap();
    update_interest(&mut cdp, 0, 1).unwrap();
    assert_eq!(
        liquidate(&mut cdp, &mut engine, 0, 1, one()).err(),
        Some(Error::Unauthorized)
    );
    assert_eq!(get_debt(&cdp, 0), Ok(10));
}

#[test]
fn add_collateral_type_rejects_invalid_configuration() {
    let mut cdp = init_custom_cdp(stable());
    let r = add_collateral_type(
        &mut cdp,
        collat(),
        bits(3),
        u64_to_fp(100),
        u64_to_fp(10000),
        u128_to_fp(1 << 63),
        u64_to_fp(2),
        true,
        false,
    );
    assert_eq!(r, Err(Error::InvalidConfig));
    let r = add_collateral_type(
        &mut cdp,
        collat(),
        bits(3),
        u64_to_fp(10001),
        u64_to_fp(10000),
        u64_to_fp(1),
        u64_to_fp(2),
        true,
        false,
    );
    assert_eq!(r, Err(Error::InvalidConfig));
    assert_eq!(cdp.registry.len(), 0);
}
