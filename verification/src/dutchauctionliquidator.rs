//! The entry points of the Dutch-auction liquidator.

use vstd::prelude::*;
use crate::auction::{lemma_price_bounded, Auction, AuctionEngine, CTypeParams};
use crate::cdp::CDP;
use crate::fixed_point::{fp_to_u64_up, lemma_below_whole_up, UFP128};
use crate::types::{Bits256, Effect, Error, Identity};
use crate::vault::Vault;

verus! {

/// An engine without auctions under the identity `identity`, which is
/// made the liquidator of `cdp`. Invalid parameters are rejected with
/// `InvalidConfig` and leave `cdp` as it was.
pub fn init_custom_dutchauctionliquidator(
    identity: Identity,
    stable: Bits256,
    cdp: &mut CDP,
    default_initial_price_ratio: UFP128,
    default_time_interval: u64,
    default_change_rate: UFP128,
    default_reset_threshold: u64,
) -> (r: Result<AuctionEngine, Error>)
    requires
        old(cdp).wf(),
    ensures
        final(cdp).wf(),
        final(cdp).ledger.vaults() == old(cdp).ledger.vaults(),
        final(cdp).ledger.allowed() == old(cdp).ledger.allowed(),
        final(cdp).ledger.stable() == old(cdp).ledger.stable(),
        final(cdp).registry@ == old(cdp).registry@,
        ({
            let defaults = CTypeParams {
                initial_price_ratio: default_initial_price_ratio,
                time_interval: default_time_interval,
                change_rate: default_change_rate,
                reset_threshold: default_reset_threshold,
            };
            &&& defaults.valid() ==> (r matches Ok(engine) && engine.wf() && engine.auctions().len()
                == 0 && engine.defaults() == defaults && engine.identity() == identity
                && engine.stable() == stable) && final(cdp).ledger.liquidator() == Some(identity)
            &&& !defaults.valid() ==> (r matches Err(e) && e == Error::InvalidConfig) && final(cdp).ledger.liquidator() == old(cdp).ledger.liquidator()
        }),
{
    let defaults = CTypeParams {
        initial_price_ratio: default_initial_price_ratio,
        time_interval: default_time_interval,
        change_rate: default_change_rate,
        reset_threshold: default_reset_threshold,
    };
    match AuctionEngine::new(identity, stable, defaults) {
        Err(e) => Err(e),
        Ok(engine) => {
            crate::cdp::set_liquidator(cdp, identity);
            Ok(engine)
        },
    }
}

/// The least whole amount of the stable asset that settles the live
/// auction `auction_id` at `now`: its price, rounded up. A claim for less
/// is an underpayment; a claim for this amount or more is not.
pub fn get_price(instance: &AuctionEngine, auction_id: u64, now: u64) -> (r: Result<u64, Error>)
    requires
        instance.wf(),
    ensures
        instance.live(auction_id) ==> (r matches Ok(amount) && amount as nat == instance.auctions()[
            auction_id as int].settling_amount(now) && forall|paid: u64|
            Vault::units(paid) < instance.auctions()[auction_id as int].price(now) <==> paid
                < amount),
        !instance.live(auction_id) ==> r == Err::<u64, Error>(Error::UnknownAuction),
{
    match instance.price(auction_id, now) {
        Err(e) => Err(e),
        Ok(p) => {
            proof {
                lemma_price_bounded(instance.auctions()[auction_id as int], now);
                UFP128::lemma_from_raw(instance.auctions()[auction_id as int].price(now));
            }
            let amount: u64 = fp_to_u64_up(p);
            proof {
                assert forall|paid: u64|
                    Vault::units(paid) < instance.auctions()[auction_id as int].price(now) <==> paid
                        < amount by {
                    lemma_below_whole_up(paid as nat, p.raw());
                }
            }
            Ok(amount)
        },
    }
}

/// Whether the auction `auction_id` has expired at `now`.
pub fn is_expired(instance: &AuctionEngine, auction_id: u64, now: u64) -> (r: Result<bool, Error>)
    requires
        instance.wf(),
    ensures
        (auction_id as nat) < instance.auctions().len() ==> r == Ok::<bool, Error>(
            instance.auctions()[auction_id as int].expired(now),
        ),
        (auction_id as nat) >= instance.auctions().len() ==> r == Err::<bool, Error>(
            Error::UnknownAuction,
        ),
{
    instance.is_expired(auction_id, now)
}

/// The collateral that the live auction `auction_id` holds.
pub fn get_collateral_amount_of_auction(instance: &AuctionEngine, auction_id: u64) -> (r: Result<
    u64,
    Error,
>)
    ensures
        instance.live(auction_id) ==> r == Ok::<u64, Error>(
            instance.auctions()[auction_id as int].collateral_amount,
        ),
        !instance.live(auction_id) ==> r == Err::<u64, Error>(Error::UnknownAuction),
{
    instance.get_collateral_amount_of_auction(auction_id)
}

/// The parameters that new auctions take.
pub fn get_default_c_type_params(instance: &AuctionEngine) -> (r: CTypeParams)
    ensures
        r == instance.defaults(),
{
    instance.get_default_c_type_params()
}

/// Settles the live auction `auction_id` at `now` for `amount` of the
/// stable asset, paid by `claimant`, who gets all of its collateral.
pub fn claim(
    instance: &mut AuctionEngine,
    claimant: Identity,
    auction_id: u64,
    amount: u64,
    now: u64,
) -> (r: Result<Vec<Effect>, Error>)
    requires
        old(instance).wf(),
    ensures
        final(instance).wf(),
        final(instance).same_settings(old(instance)),
        match old(instance).claim_error(auction_id, amount, now) {
            Some(e) => (r matches Err(x) && x == e) && final(instance).auctions() == old(instance).auctions(),
            None => (r matches Ok(effects) && effects@ == old(instance).claim_effects(
                claimant,
                auction_id,
                amount,
            )) && final(instance).auctions() == old(instance).auctions().update(
                auction_id as int,
                Auction { claimed: true, ..old(instance).auctions()[auction_id as int] },
            ),
        },
{
    instance.claim(claimant, auction_id, amount, now)
}

/// Replaces the expired live auction `auction_id` by a new one that
/// starts at `now`, and returns the new id. The new auction has not
/// expired at `now`.
pub fn reset_auction(instance: &mut AuctionEngine, auction_id: u64, now: u64) -> (r: Result<
    u64,
    Error,
>)
    requires
        old(instance).wf(),
    ensures
        final(instance).wf(),
        final(instance).same_settings(old(instance)),
        match old(instance).reset_error(auction_id, now) {
            Some(e) => r == Err::<u64, Error>(e) && final(instance).auctions() == old(instance).auctions(),
            None => ({
                let a = old(instance).auctions()[auction_id as int];
                &&& r == Ok::<u64, Error>(old(instance).auctions().len() as u64)
                &&& final(instance).auctions() == old(instance).auctions().update(
                    auction_id as int,
                    Auction { superseded: true, ..a },
                ).push(
                    old(instance).opened(
                        a.vault_id,
                        a.token,
                        a.collateral_amount,
                        a.debt_value,
                        now,
                    ),
                )
                &&& !final(instance).auctions()[r.unwrap() as int].expired(now)
                &&& final(instance).live(r.unwrap())
            }),
        },
{
    instance.reset_auction(auction_id, now)
}

} // verus!
