use sdk_utils::auction::{Auction, AuctionEngine, AuctionStatus, CTypeParams};
use sdk_utils::fixed_point::{fp_to_u128, u128_to_fp, u64_to_fp, u64_to_i256, UFP128};
use sdk_utils::registry::{CollateralParams, CollateralRegistry};
use sdk_utils::types::{Bits256, Effect, Error, Identity};
use sdk_utils::vault::VaultLedger;

const ONE: u128 = 1 << 64;

fn bits(n: u64) -> Bits256 {
    Bits256 { a: 0, b: 0, c: 0, d: n }
}

fn stable() -> Bits256 {
    bits(1)
}

fn token() -> Bits256 {
    bits(2)
}

fn owner() -> Identity {
    Identity::Address(bits(100))
}

fn bidder() -> Identity {
    Identity::Address(bits(101))
}

fn keeper() -> Identity {
    Identity::ContractId(bits(200))
}

fn price(n: u64) -> Option<UFP128> {
    Some(u64_to_fp(n))
}

fn defaults() -> CTypeParams {
    CTypeParams {
        initial_price_ratio: u128_to_fp(0b11 << 63),
        time_interval: 1,
        change_rate: u128_to_fp(0b1 << 63),
        reset_threshold: 3,
    }
}

fn auction(debt: u64, params: CTypeParams, start_time: u64) -> Auction {
    Auction {
        auction_id: 0,
        vault_id: 0,
        token: token(),
        collateral_amount: 150,
        debt_value: u64_to_fp(debt),
        start_time,
        params,
        claimed: false,
        superseded: false,
    }
}

/// A vault with 150 collateral and a debt of 150 at time 1, a ledger that
/// knows the engine as its liquidator, and the engine.
fn deploy() -> (CollateralRegistry, VaultLedger, AuctionEngine) {
    let mut reg = CollateralRegistry::new();
    reg.register(CollateralParams {
        token: token(),
        price_source: bits(3),
        debt_floor: u64_to_fp(100),
        debt_ceiling: u64_to_fp(10000),
        collateral_ratio: u128_to_fp(0b11 << 63),
        interest_rate: u128_to_fp(0b1 << 63),
        borrowing_enabled: true,
        allowlist_enabled: false,
    })
    .unwrap();
    let mut ledger = VaultLedger::new(stable());
    ledger.set_liquidator(keeper());
    ledger.create_vault(&reg, owner(), None, 0, 150, 0).unwrap();
    ledger.borrow(&mut reg, owner(), 0, 100, 0, price(1)).unwrap();
    ledger.update_interest(&mut reg, 0, 1).unwrap();
    let engine = AuctionEngine::new(keeper(), stable(), defaults()).unwrap();
    (reg, ledger, engine)
}

fn deploy_liquidated() -> (CollateralRegistry, VaultLedger, AuctionEngine) {
    let (mut reg, mut ledger, mut engine) = deploy();
    let (id, _) = engine.liquidate(&mut ledger, &mut reg, 0, 1, price(1)).unwrap();
    assert_eq!(id, 0);
    (reg, ledger, engine)
}

#[test]
fn engine_rejects_invalid_parameters() {
    let zero_interval = CTypeParams { time_interval: 0, ..defaults() };
    assert_eq!(
        AuctionEngine::new(keeper(), stable(), zero_interval).err(),
        Some(Error::InvalidConfig)
    );
    let zero_threshold = CTypeParams { reset_threshold: 0, ..defaults() };
    assert_eq!(
        AuctionEngine::new(keeper(), stable(), zero_threshold).err(),
        Some(Error::InvalidConfig)
    );
    let steep = CTypeParams { change_rate: u128_to_fp(ONE + 1), ..defaults() };
    assert_eq!(AuctionEngine::new(keeper(), stable(), steep).err(), Some(Error::InvalidConfig));
    let edge = CTypeParams { change_rate: u64_to_fp(1), ..defaults() };
    let engine = AuctionEngine::new(keeper(), stable(), edge).unwrap();
    assert_eq!(engine.get_default_c_type_params(), edge);
}

#[test]
fn price_starts_at_debt_times_ratio() {
    let a = auction(150, defaults(), 10);
    assert_eq!(a.price_at(10), u64_to_fp(225));
    // Before the start no interval has elapsed.
    assert_eq!(a.price_at(3), u64_to_fp(225));
    let plain = CTypeParams { initial_price_ratio: u64_to_fp(1), ..defaults() };
    assert_eq!(auction(77, plain, 0).price_at(0), u64_to_fp(77));
}

#[test]
fn price_halves_each_interval() {
    let a = auction(150, defaults(), 10);
    assert_eq!(fp_to_u128(a.price_at(11)), 225 * ONE / 2);
    assert_eq!(fp_to_u128(a.price_at(12)), 225 * ONE / 4);
    assert_eq!(fp_to_u128(a.price_at(13)), 225 * ONE / 8);
    assert_eq!(fp_to_u128(a.price_at(10 + 64)), 225);
    assert_eq!(fp_to_u128(a.price_at(10 + 65)), 0);
    assert_eq!(fp_to_u128(a.price_at(u64::MAX)), 0);
}

#[test]
fn price_goes_by_whole_intervals() {
    let slow = CTypeParams { time_interval: 10, ..defaults() };
    let a = auction(150, slow, 100);
    assert_eq!(a.intervals_at(100), 0);
    assert_eq!(a.intervals_at(109), 0);
    assert_eq!(a.intervals_at(110), 1);
    assert_eq!(a.intervals_at(129), 2);
    assert_eq!(a.intervals_at(99), 0);
    assert_eq!(a.price_at(109), u64_to_fp(225));
    assert_eq!(fp_to_u128(a.price_at(110)), 225 * ONE / 2);
}

#[test]
fn price_never_rises() {
    let params = CTypeParams {
        initial_price_ratio: u128_to_fp(ONE + ONE / 3),
        time_interval: 7,
        change_rate: u128_to_fp(ONE / 10),
        reset_threshold: 50,
    };
    let a = auction(1234, params, 5);
    assert_eq!(fp_to_u128(a.price_at(5)), 1234 * (ONE + ONE / 3));
    let mut last = fp_to_u128(a.price_at(0));
    for now in 1..2000u64 {
        let next = fp_to_u128(a.price_at(now));
        assert!(next <= last);
        last = next;
    }
    assert!(last < fp_to_u128(a.price_at(5)));
}

#[test]
fn price_without_decay_or_with_full_decay() {
    let flat = CTypeParams { change_rate: u128_to_fp(0), ..defaults() };
    assert_eq!(auction(150, flat, 0).price_at(1_000_000), u64_to_fp(225));
    let cliff = CTypeParams { change_rate: u64_to_fp(1), ..defaults() };
    assert_eq!(auction(150, cliff, 0).price_at(0), u64_to_fp(225));
    assert_eq!(auction(150, cliff, 0).price_at(1), u64_to_fp(0));
}

#[test]
fn starting_price_is_held_at_the_largest_whole_number() {
    let huge = CTypeParams { initial_price_ratio: u128_to_fp(u128::MAX), ..defaults() };
    let a = auction(u64::MAX, huge, 0);
    assert_eq!(a.price_at(0), u64_to_fp(u64::MAX));
}

#[test]
fn expiry_is_threshold_times_interval() {
    let params = CTypeParams { time_interval: 2, reset_threshold: 3, ..defaults() };
    let a = auction(150, params, 100);
    assert!(!a.expired_at(100));
    assert!(!a.expired_at(105));
    assert!(a.expired_at(106));
    assert!(a.expired_at(107));
    assert!(a.expired_at(u64::MAX));
    assert!(!a.expired_at(0));
}

#[test]
fn liquidate_opens_an_auction_and_empties_the_vault() {
    let (mut reg, mut ledger, mut engine) = deploy();
    let (id, effects) = engine.liquidate(&mut ledger, &mut reg, 0, 1, price(1)).unwrap();
    assert_eq!(id, 0);
    assert_eq!(effects, vec![Effect::Credit { asset: token(), to: keeper(), amount: 150 }]);
    assert_eq!(
        engine.get_auction(0),
        Ok(Auction {
            auction_id: 0,
            vault_id: 0,
            token: token(),
            collateral_amount: 150,
            debt_value: u64_to_fp(150),
            start_time: 1,
            params: defaults(),
            claimed: false,
            superseded: false,
        })
    );
    assert_eq!(ledger.collateral_amount(0), Ok(0));
    assert_eq!(ledger.debt(0), Ok(u64_to_fp(0)));
    assert_eq!(reg.get(0).unwrap().total_debt, u64_to_fp(0));
}

#[test]
fn liquidate_rejects_a_healthy_vault() {
    let (mut reg, mut ledger, mut engine) = deploy();
    // At price 1.5 the collateral is worth exactly the debt times the ratio.
    let edge = Some(u128_to_fp(0b11 << 63));
    assert_eq!(
        engine.liquidate(&mut ledger, &mut reg, 0, 1, edge).err(),
        Some(Error::HealthyVault)
    );
    assert_eq!(
        engine.liquidate(&mut ledger, &mut reg, 0, 1, price(2)).err(),
        Some(Error::HealthyVault)
    );
    assert_eq!(ledger.collateral_amount(0), Ok(150));
    assert_eq!(engine.get_auction(0), Err(Error::UnknownAuction));
    // One raw step below the edge the vault can be liquidated.
    let below = Some(u128_to_fp((0b11 << 63) - 1));
    assert!(engine.liquidate(&mut ledger, &mut reg, 0, 1, below).is_ok());
}

#[test]
fn liquidate_rejects_an_emptied_vault() {
    let (mut reg, mut ledger, mut engine) = deploy_liquidated();
    assert_eq!(
        engine.liquidate(&mut ledger, &mut reg, 0, 2, price(1)).err(),
        Some(Error::HealthyVault)
    );
    assert_eq!(
        engine.liquidate(&mut ledger, &mut reg, 0, 2, Some(u128_to_fp(0))).err(),
        Some(Error::HealthyVault)
    );
}

#[test]
fn liquidate_needs_a_vault_and_a_price() {
    let (mut reg, mut ledger, mut engine) = deploy();
    assert_eq!(
        engine.liquidate(&mut ledger, &mut reg, 1, 1, price(1)).err(),
        Some(Error::UnknownVault)
    );
    assert_eq!(
        engine.liquidate(&mut ledger, &mut reg, 0, 1, None).err(),
        Some(Error::PriceUnavailable)
    );
    assert_eq!(engine.liquidate(&mut ledger, &mut reg, 1, 1, None).err(), Some(Error::UnknownVault));
}

#[test]
fn liquidate_needs_the_ledger_to_know_the_engine() {
    let (mut reg, mut ledger, _) = deploy();
    let mut stranger =
        AuctionEngine::new(Identity::ContractId(bits(201)), stable(), defaults()).unwrap();
    assert_eq!(
        stranger.liquidate(&mut ledger, &mut reg, 0, 1, price(1)).err(),
        Some(Error::Unauthorized)
    );
    assert_eq!(ledger.collateral_amount(0), Ok(150));
    assert_eq!(stranger.get_auction(0), Err(Error::UnknownAuction));
}

#[test]
fn claim_at_the_price_settles_the_auction() {
    let (_, _, mut engine) = deploy_liquidated();
    assert_eq!(engine.price(0, 1), Ok(u64_to_fp(225)));
    assert_eq!(engine.claim(bidder(), 0, 224, 1), Err(Error::Underpayment));
    assert_eq!(engine.get_collateral_amount_of_auction(0), Ok(150));
    let effects = engine.claim(bidder(), 0, 225, 1).unwrap();
    assert_eq!(
        effects,
        vec![
            Effect::Debit { asset: stable(), from: bidder(), amount: 225 },
            Effect::Credit { asset: token(), to: bidder(), amount: 150 },
            Effect::ReportSurplus { amount: u64_to_i256(225) },
        ]
    );
    assert!(engine.get_auction(0).unwrap().claimed);
    assert!(!engine.get_auction(0).unwrap().superseded);
}

#[test]
fn claim_below_a_broken_price_is_an_underpayment() {
    let (_, _, mut engine) = deploy_liquidated();
    // After one interval the price is 112.5.
    assert_eq!(fp_to_u128(engine.price(0, 2).unwrap()), 225 * ONE / 2);
    assert_eq!(engine.claim(bidder(), 0, 112, 2), Err(Error::Underpayment));
    assert!(engine.claim(bidder(), 0, 113, 2).is_ok());
}

#[test]
fn claim_above_the_price_settles_too() {
    let (_, _, mut engine) = deploy_liquidated();
    let effects = engine.claim(bidder(), 0, 1000, 1).unwrap();
    assert_eq!(effects[0], Effect::Debit { asset: stable(), from: bidder(), amount: 1000 });
    assert_eq!(effects[1], Effect::Credit { asset: token(), to: bidder(), amount: 150 });
}

#[test]
fn claim_of_an_expired_auction_fails() {
    let (_, _, mut engine) = deploy_liquidated();
    assert_eq!(engine.is_expired(0, 3), Ok(false));
    assert_eq!(engine.is_expired(0, 4), Ok(true));
    assert_eq!(engine.claim(bidder(), 0, 1000, 4), Err(Error::AuctionExpired));
    assert!(!engine.get_auction(0).unwrap().claimed);
    assert!(engine.claim(bidder(), 0, 1000, 3).is_ok());
}

#[test]
fn a_claimed_auction_is_gone() {
    let (_, _, mut engine) = deploy_liquidated();
    engine.claim(bidder(), 0, 225, 1).unwrap();
    assert_eq!(engine.claim(bidder(), 0, 225, 1), Err(Error::UnknownAuction));
    assert_eq!(engine.price(0, 1), Err(Error::UnknownAuction));
    assert_eq!(engine.get_collateral_amount_of_auction(0), Err(Error::UnknownAuction));
    assert_eq!(engine.reset_auction(0, 10), Err(Error::UnknownAuction));
    assert_eq!(engine.is_expired(0, 1), Ok(false));
}

#[test]
fn unknown_auction() {
    let (_, _, mut engine) = deploy_liquidated();
    assert_eq!(engine.price(1, 1), Err(Error::UnknownAuction));
    assert_eq!(engine.is_expired(1, 1), Err(Error::UnknownAuction));
    assert_eq!(engine.get_collateral_amount_of_auction(1), Err(Error::UnknownAuction));
    assert_eq!(engine.claim(bidder(), 1, 225, 1), Err(Error::UnknownAuction));
    assert_eq!(engine.reset_auction(1, 10), Err(Error::UnknownAuction));
    assert_eq!(engine.get_auction(1), Err(Error::UnknownAuction));
}

#[test]
fn reset_replaces_an_expired_auction() {
    let (_, _, mut engine) = deploy_liquidated();
    assert_eq!(engine.reset_auction(0, 3), Err(Error::AuctionNotExpired));
    assert_eq!(engine.reset_auction(0, 4), Ok(1));
    assert_eq!(
        engine.get_auction(1),
        Ok(Auction {
            auction_id: 1,
            vault_id: 0,
            token: token(),
            collateral_amount: 150,
            debt_value: u64_to_fp(150),
            start_time: 4,
            params: defaults(),
            claimed: false,
            superseded: false,
        })
    );
    assert_eq!(engine.is_expired(1, 4), Ok(false));
    assert_eq!(engine.price(1, 4), Ok(u64_to_fp(225)));
    // The old auction stays expired and cannot be used.
    assert_eq!(engine.is_expired(0, 4), Ok(true));
    assert_eq!(engine.price(0, 4), Err(Error::UnknownAuction));
    assert_eq!(engine.claim(bidder(), 0, 1000, 4), Err(Error::UnknownAuction));
    assert_eq!(engine.reset_auction(0, 9), Err(Error::UnknownAuction));
    // The new one can be claimed.
    assert!(engine.claim(bidder(), 1, 225, 4).is_ok());
}

#[test]
fn status_goes_by_the_marks_and_the_time() {
    let (_, _, mut engine) = deploy_liquidated();
    assert_eq!(engine.status(0, 1), Ok(AuctionStatus::Active));
    assert_eq!(engine.status(0, 3), Ok(AuctionStatus::Active));
    assert_eq!(engine.status(0, 4), Ok(AuctionStatus::Expired));
    assert_eq!(engine.status(1, 4), Err(Error::UnknownAuction));
    engine.reset_auction(0, 4).unwrap();
    assert!(engine.get_auction(0).unwrap().superseded);
    // A superseded auction stays expired, whatever the time.
    assert_eq!(engine.status(0, 0), Ok(AuctionStatus::Expired));
    assert_eq!(engine.status(1, 4), Ok(AuctionStatus::Active));
    engine.claim(bidder(), 1, 225, 4).unwrap();
    assert_eq!(engine.status(1, 4), Ok(AuctionStatus::Claimed));
    assert_eq!(engine.status(1, 400), Ok(AuctionStatus::Claimed));
}
