//! The Dutch-auction liquidator: auctions over the collateral of
//! liquidated vaults, whose price falls with time.

use vstd::prelude::*;
use crate::fixed_point::{
    decay, decay_factor, fp_to_u128, is_covered, least, lemma_below_whole_up,
    lemma_decay_monotone, lemma_scaled_monotone, lemma_scaled_shrinks, max_whole_raw, mul_floor,
    scaled, u128_to_fp, u64_to_i256, unit, whole_up, I256, UFP128,
};
use crate::registry::{CollateralRegistry, CollateralType};
use crate::types::{Bits256, Effect, Error, Identity};
use crate::vault::{Vault, VaultLedger};

verus! {

/// How the price of an auction falls: it starts at the debt times
/// `initial_price_ratio`, loses the share `change_rate` every
/// `time_interval`, and after `reset_threshold` intervals the auction has
/// expired.
#[derive(Clone, Copy, Debug, PartialEq, Eq, Structural)]
pub struct CTypeParams {
    pub initial_price_ratio: UFP128,
    pub time_interval: u64,
    pub change_rate: UFP128,
    pub reset_threshold: u64,
}

impl CTypeParams {
    /// The interval is not zero, the rate is at most one, and an auction
    /// lasts for one interval at least.
    pub open spec fn valid(self) -> bool {
        &&& self.time_interval > 0
        &&& self.change_rate.raw() <= unit()
        &&& self.reset_threshold > 0
    }

    /// The raw share of the price that one interval leaves.
    pub open spec fn kept(self) -> nat {
        (unit() - self.change_rate.raw()) as nat
    }
}

/// Where an auction stands. An auction that was superseded by a reset
/// counts as expired for good.
#[derive(Clone, Copy, Debug, PartialEq, Eq, Structural)]
pub enum AuctionStatus {
    Active,
    Expired,
    Claimed,
}

/// An auction over the collateral of one liquidated vault.
#[derive(Clone, Copy, Debug, PartialEq, Eq, Structural)]
pub struct Auction {
    pub auction_id: u64,
    pub vault_id: u64,
    pub token: Bits256,
    pub collateral_amount: u64,
    pub debt_value: UFP128,
    pub start_time: u64,
    pub params: CTypeParams,
    pub claimed: bool,
    pub superseded: bool,
}

impl Auction {
    /// The number of whole intervals from the start to `now`; none before
    /// the start.
    pub open spec fn elapsed_intervals(self, now: u64) -> nat {
        if now >= self.start_time {
            ((now - self.start_time) / self.params.time_interval as int) as nat
        } else {
            0
        }
    }

    /// Whether the auction can still be priced, claimed or reset: it was
    /// neither claimed nor superseded.
    pub open spec fn open(self) -> bool {
        !self.claimed && !self.superseded
    }

    /// Where the auction stands at `now`. Nothing but the two marks and
    /// the time decides it.
    pub open spec fn status(self, now: u64) -> AuctionStatus {
        if self.claimed {
            AuctionStatus::Claimed
        } else if self.superseded || self.expired(now) {
            AuctionStatus::Expired
        } else {
            AuctionStatus::Active
        }
    }

    /// Whether the auction has run for `reset_threshold` intervals at
    /// `now`.
    pub open spec fn expired(self, now: u64) -> bool {
        self.elapsed_intervals(now) >= self.params.reset_threshold as nat
    }

    /// The raw price at the start: the debt times the initial ratio,
    /// rounded down and held at the largest whole number of units.
    pub open spec fn starting_price(self) -> nat {
        least(
            scaled(self.debt_value.raw(), self.params.initial_price_ratio.raw()),
            max_whole_raw(),
        )
    }

    /// The least whole amount that is not below the price at `now`: what
    /// a claim at `now` has to pay at least.
    pub open spec fn settling_amount(self, now: u64) -> nat {
        whole_up(self.price(now))
    }

    /// The raw price at `now`: the starting price times the share that the
    /// elapsed intervals have left of it, rounded down.
    pub open spec fn price(self, now: u64) -> nat {
        scaled(self.starting_price(), decay(self.params.kept(), self.elapsed_intervals(now)))
    }

    /// Computes `elapsed_intervals`.
    pub fn intervals_at(self, now: u64) -> (r: u64)
        requires
            self.params.valid(),
        ensures
            r as nat == self.elapsed_intervals(now),
    {
        if now >= self.start_time {
            (now - self.start_time) / self.params.time_interval
        } else {
            0
        }
    }

    /// Computes `expired`.
    pub fn expired_at(self, now: u64) -> (r: bool)
        requires
            self.params.valid(),
        ensures
            r == self.expired(now),
    {
        self.intervals_at(now) >= self.params.reset_threshold
    }

    /// Computes `status`.
    pub fn status_at(self, now: u64) -> (r: AuctionStatus)
        requires
            self.params.valid(),
        ensures
            r == self.status(now),
    {
        if self.claimed {
            AuctionStatus::Claimed
        } else if self.superseded || self.expired_at(now) {
            AuctionStatus::Expired
        } else {
            AuctionStatus::Active
        }
    }

    /// Computes `price`.
    pub fn price_at(self, now: u64) -> (r: UFP128)
        requires
            self.params.valid(),
        ensures
            r.raw() == self.price(now),
            r == UFP128::from_raw(self.price(now)),
            r.raw() <= max_whole_raw(),
    {
        let one: u128 = 0x1_0000_0000_0000_0000;
        let cap: u128 = 0xffff_ffff_ffff_ffff_0000_0000_0000_0000;
        let kept: u128 = one - fp_to_u128(self.params.change_rate);
        let product: u128 = mul_floor(
            fp_to_u128(self.debt_value),
            fp_to_u128(self.params.initial_price_ratio),
        );
        let start: u128 = if product <= cap {
            product
        } else {
            cap
        };
        let n: u64 = self.intervals_at(now);
        let left: u128 = decay_factor(kept, n);
        proof {
            lemma_decay_monotone(kept as nat, n as nat, n as nat);
            lemma_scaled_shrinks(start as nat, left as nat);
        }
        u128_to_fp(mul_floor(start, left))
    }
}

/// The price of an auction is never above its starting price, which is a
/// raw value of at most 2^64 - 1 units.
pub proof fn lemma_price_bounded(a: Auction, now: u64)
    requires
        a.params.valid(),
    ensures
        a.price(now) <= a.starting_price(),
        a.starting_price() <= max_whole_raw(),
{
    let n = a.elapsed_intervals(now);
    lemma_decay_monotone(a.params.kept(), n, n);
    lemma_scaled_shrinks(a.starting_price(), decay(a.params.kept(), n));
}

/// The price of an auction never rises with time.
pub proof fn lemma_price_non_increasing(a: Auction, earlier: u64, later: u64)
    requires
        a.params.valid(),
        earlier <= later,
    ensures
        a.price(later) <= a.price(earlier),
{
    let d = a.params.time_interval as int;
    let m = a.elapsed_intervals(earlier);
    let n = a.elapsed_intervals(later);
    if earlier >= a.start_time {
        let x = earlier - a.start_time;
        let y = later - a.start_time;
        assert(x / d <= y / d) by (nonlinear_arith)
            requires
                0 <= x <= y,
                d > 0,
        ;
    }
    lemma_decay_monotone(a.params.kept(), m, n);
    lemma_scaled_monotone(decay(a.params.kept(), n), decay(a.params.kept(), m), a.starting_price());
}

/// At its start the price of an auction is the starting price: the debt
/// times the initial ratio, rounded down, where that is a raw value.
pub proof fn lemma_price_at_start(a: Auction)
    requires
        a.params.valid(),
    ensures
        a.price(a.start_time) == a.starting_price(),
        scaled(a.debt_value.raw(), a.params.initial_price_ratio.raw()) <= max_whole_raw()
            ==> a.price(a.start_time) == scaled(
            a.debt_value.raw(),
            a.params.initial_price_ratio.raw(),
        ),
{
    let d = a.params.time_interval as int;
    assert(0int / d == 0) by (nonlinear_arith)
        requires
            d > 0,
    ;
    assert(a.elapsed_intervals(a.start_time) == 0);
    let x = a.starting_price();
    assert(x * unit() / unit() == x) by (nonlinear_arith);
}

/// An auction has expired exactly when the time since its start is at
/// least `reset_threshold` intervals.
pub proof fn lemma_expired_iff(a: Auction, now: u64)
    requires
        a.params.valid(),
    ensures
        a.expired(now) <==> now - a.start_time >= a.params.reset_threshold
            * a.params.time_interval,
{
    let d = a.params.time_interval as int;
    let k = a.params.reset_threshold as int;
    let x = now - a.start_time;
    if x >= 0 {
        assert((x / d >= k) <==> (x >= k * d)) by (nonlinear_arith)
            requires
                d > 0,
                x >= 0,
                k >= 0,
        ;
    } else {
        assert(k * d > 0) by (nonlinear_arith)
            requires
                d > 0,
                k > 0,
        ;
    }
}

/// The least whole amount that settles an auction never rises with time,
/// and a payment is below the price exactly when it is below that amount.
pub proof fn lemma_settling_amount(a: Auction, earlier: u64, later: u64, paid: u64)
    requires
        a.params.valid(),
        earlier <= later,
    ensures
        a.settling_amount(later) <= a.settling_amount(earlier),
        Vault::units(paid) < a.price(later) <==> (paid as nat) < a.settling_amount(later),
{
    lemma_price_non_increasing(a, earlier, later);
    lemma_below_whole_up(paid as nat, a.price(later));
    let x = a.price(later);
    let y = a.price(earlier);
    assert((x + unit() - 1) / unit() as int <= (y + unit() - 1) / unit() as int)
        by (nonlinear_arith)
        requires
            x <= y,
            unit() > 0,
    ;
}

/// The auctions, the parameters that new auctions take, the engine's own
/// identity, under which it holds collateral and marks vaults liquidated,
/// and the stable asset that claims are paid in.
#[derive(Clone, Debug)]
pub struct AuctionEngine {
    auctions: Vec<Auction>,
    defaults: CTypeParams,
    identity: Identity,
    stable: Bits256,
}

impl AuctionEngine {
    /// The auction records, each at the index that is its id.
    pub closed spec fn auctions(&self) -> Seq<Auction> {
        self.auctions@
    }

    /// The parameters that new auctions take.
    pub closed spec fn defaults(&self) -> CTypeParams {
        self.defaults
    }

    /// The engine's own identity.
    pub closed spec fn identity(&self) -> Identity {
        self.identity
    }

    /// The stable asset.
    pub closed spec fn stable(&self) -> Bits256 {
        self.stable
    }

    /// Everything but the auction records is as in `other`.
    pub open spec fn same_settings(&self, other: &AuctionEngine) -> bool {
        &&& self.defaults() == other.defaults()
        &&& self.identity() == other.identity()
        &&& self.stable() == other.stable()
    }

    /// Auction ids are given in sequence and all parameters are valid.
    pub open spec fn wf(&self) -> bool {
        &&& self.defaults().valid()
        &&& forall|i: int|
            0 <= i < self.auctions().len() ==> {
                &&& (#[trigger] self.auctions()[i]).auction_id as int == i
                &&& self.auctions()[i].params.valid()
            }
    }

    /// Whether `auction_id` names an auction that is neither claimed nor
    /// superseded.
    pub open spec fn live(&self, auction_id: u64) -> bool {
        (auction_id as nat) < self.auctions().len() && self.auctions()[auction_id as int].open()
    }

    /// An engine without auctions, or `InvalidConfig` where the
    /// parameters are not valid.
    pub fn new(identity: Identity, stable: Bits256, defaults: CTypeParams) -> (r: Result<
        AuctionEngine,
        Error,
    >)
        ensures
            defaults.valid() ==> (r matches Ok(engine) && engine.wf() && engine.auctions().len()
                == 0 && engine.defaults() == defaults && engine.identity() == identity
                && engine.stable() == stable),
            !defaults.valid() ==> (r matches Err(e) && e == Error::InvalidConfig),
    {
        let one: u128 = 0x1_0000_0000_0000_0000;
        if defaults.time_interval == 0 || defaults.reset_threshold == 0 || fp_to_u128(
            defaults.change_rate,
        ) > one {
            return Err(Error::InvalidConfig);
        }
        Ok(AuctionEngine { auctions: Vec::new(), defaults, identity, stable })
    }

    /// The live auction `auction_id`.
    fn find(&self, auction_id: u64) -> (r: Option<Auction>)
        ensures
            self.live(auction_id) ==> r == Some(self.auctions()[auction_id as int]),
            !self.live(auction_id) ==> r is None,
    {
        if (auction_id as u128) >= (self.auctions.len() as u128) {
            return None;
        }
        let a: Auction = self.auctions[auction_id as usize];
        if a.claimed || a.superseded {
            None
        } else {
            Some(a)
        }
    }

    /// The parameters that new auctions take.
    pub fn get_default_c_type_params(&self) -> (r: CTypeParams)
        ensures
            r == self.defaults(),
    {
        self.defaults
    }

    /// The price of the live auction `auction_id` at `now`.
    pub fn price(&self, auction_id: u64, now: u64) -> (r: Result<UFP128, Error>)
        requires
            self.wf(),
        ensures
            self.live(auction_id) ==> r == Ok::<UFP128, Error>(
                UFP128::from_raw(self.auctions()[auction_id as int].price(now)),
            ),
            !self.live(auction_id) ==> r == Err::<UFP128, Error>(Error::UnknownAuction),
    {
        match self.find(auction_id) {
            None => Err(Error::UnknownAuction),
            Some(a) => Ok(a.price_at(now)),
        }
    }

    /// Whether the auction `auction_id` has expired at `now`. The answer
    /// goes by the time alone, so it is given for an auction that was
    /// claimed or superseded too.
    pub fn is_expired(&self, auction_id: u64, now: u64) -> (r: Result<bool, Error>)
        requires
            self.wf(),
        ensures
            (auction_id as nat) < self.auctions().len() ==> r == Ok::<bool, Error>(
                self.auctions()[auction_id as int].expired(now),
            ),
            (auction_id as nat) >= self.auctions().len() ==> r == Err::<bool, Error>(
                Error::UnknownAuction,
            ),
    {
        if (auction_id as u128) >= (self.auctions.len() as u128) {
            return Err(Error::UnknownAuction);
        }
        let a: Auction = self.auctions[auction_id as usize];
        Ok(a.expired_at(now))
    }

    /// Where the auction `auction_id` stands at `now`.
    pub fn status(&self, auction_id: u64, now: u64) -> (r: Result<AuctionStatus, Error>)
        requires
            self.wf(),
        ensures
            (auction_id as nat) < self.auctions().len() ==> r == Ok::<AuctionStatus, Error>(
                self.auctions()[auction_id as int].status(now),
            ),
            (auction_id as nat) >= self.auctions().len() ==> r == Err::<AuctionStatus, Error>(
                Error::UnknownAuction,
            ),
    {
        if (auction_id as u128) >= (self.auctions.len() as u128) {
            return Err(Error::UnknownAuction);
        }
        let a: Auction = self.auctions[auction_id as usize];
        Ok(a.status_at(now))
    }

    /// The collateral that the live auction `auction_id` holds.
    pub fn get_collateral_amount_of_auction(&self, auction_id: u64) -> (r: Result<u64, Error>)
        ensures
            self.live(auction_id) ==> r == Ok::<u64, Error>(
                self.auctions()[auction_id as int].collateral_amount,
            ),
            !self.live(auction_id) ==> r == Err::<u64, Error>(Error::UnknownAuction),
    {
        match self.find(auction_id) {
            None => Err(Error::UnknownAuction),
            Some(a) => Ok(a.collateral_amount),
        }
    }

    /// Why the vault `vault_id` cannot be liquidated at the price `price`,
    /// if it cannot: there is no such vault, no price is at hand, the
    /// collateral covers the debt times the ratio, or the ledger does not
    /// know this engine as its liquidator.
    pub open spec fn liquidate_error(
        &self,
        ledger: &VaultLedger,
        reg: &CollateralRegistry,
        vault_id: u64,
        price: Option<UFP128>,
    ) -> Option<Error> {
        if vault_id as nat >= ledger.vaults().len() {
            Some(Error::UnknownVault)
        } else if price is None {
            Some(Error::PriceUnavailable)
        } else if ledger.vaults()[vault_id as int].healthy(
            ledger.type_of(reg, vault_id),
            price.unwrap().raw(),
        ) {
            Some(Error::HealthyVault)
        } else if ledger.liquidator() != Some(self.identity()) {
            Some(Error::Unauthorized)
        } else {
            None
        }
    }

    /// The auction that a liquidation or a reset at `now` opens over the
    /// given collateral and debt: it takes the next id and the engine's
    /// parameters.
    pub open spec fn opened(
        &self,
        vault_id: u64,
        token: Bits256,
        collateral_amount: u64,
        debt_value: UFP128,
        now: u64,
    ) -> Auction {
        Auction {
            auction_id: self.auctions().len() as u64,
            vault_id,
            token,
            collateral_amount,
            debt_value,
            start_time: now,
            params: self.defaults(),
            claimed: false,
            superseded: false,
        }
    }

    /// Liquidates the vault `vault_id` if, at the price `price`, its
    /// collateral is worth less than its debt times the ratio of its type:
    /// the vault's collateral and debt go into a new auction that starts
    /// at `now`, the vault is emptied, and the collateral is handed to the
    /// engine. A rejected call changes nothing.
    pub fn liquidate(
        &mut self,
        ledger: &mut VaultLedger,
        reg: &mut CollateralRegistry,
        vault_id: u64,
        now: u64,
        price: Option<UFP128>,
    ) -> (r: Result<(u64, Vec<Effect>), Error>)
        requires
            old(self).wf(),
            old(ledger).wf(old(reg)),
        ensures
            final(self).wf(),
            final(ledger).wf(final(reg)),
            final(self).same_settings(old(self)),
            match old(self).liquidate_error(old(ledger), old(reg), vault_id, price) {
                Some(e) => (r matches Err(x) && x == e) && final(self).auctions() == old(self).auctions() && final(ledger).unchanged(final(reg)@, old(ledger), old(reg)@),
                None => ({
                    let v = old(ledger).vaults()[vault_id as int];
                    let ty = old(ledger).type_of(old(reg), vault_id);
                    &&& r matches Ok((id, effects)) && id as nat == old(self).auctions().len()
                        && effects@ == seq![
                        Effect::Credit {
                            asset: ty.params.token,
                            to: final(self).identity(),
                            amount: v.collateral_amount,
                        },
                    ]
                    &&& final(self).auctions() == old(self).auctions().push(
                        old(self).opened(
                            vault_id,
                            ty.params.token,
                            v.collateral_amount,
                            v.debt_amount,
                            now,
                        ),
                    )
                    &&& final(ledger).replaced(
                        final(reg)@,
                        old(ledger),
                        old(reg)@,
                        vault_id,
                        v.emptied(),
                    )
                }),
            },
    {
        let v: Vault = match ledger.get_vault(vault_id) {
            Ok(v) => v,
            Err(_) => {
                return Err(Error::UnknownVault);
            },
        };
        let ty: CollateralType = match reg.get(v.collateral_type_id) {
            Ok(t) => t,
            Err(_) => {
                return Err(Error::UnknownVault);
            },
        };
        let p: UFP128 = match price {
            Some(p) => p,
            None => {
                return Err(Error::PriceUnavailable);
            },
        };
        if is_covered(
            v.collateral_amount,
            fp_to_u128(p),
            fp_to_u128(v.debt_amount),
            fp_to_u128(ty.params.collateral_ratio),
        ) {
            return Err(Error::HealthyVault);
        }
        match ledger.mark_liquidated(reg, self.identity, vault_id) {
            Err(e) => Err(e),
            Ok(_) => {
                let id: u64 = self.auctions.len() as u64;
                self.auctions.push(
                    Auction {
                        auction_id: id,
                        vault_id,
                        token: ty.params.token,
                        collateral_amount: v.collateral_amount,
                        debt_value: v.debt_amount,
                        start_time: now,
                        params: self.defaults,
                        claimed: false,
                        superseded: false,
                    },
                );
                let mut effects: Vec<Effect> = Vec::new();
                effects.push(
                    Effect::Credit {
                        asset: ty.params.token,
                        to: self.identity,
                        amount: v.collateral_amount,
                    },
                );
                proof {
                    assert(effects@ =~= seq![
                        Effect::Credit {
                            asset: ty.params.token,
                            to: self.identity,
                            amount: v.collateral_amount,
                        },
                    ]);
                    assert forall|i: int| 0 <= i < self.auctions().len() implies (
                    #[trigger] self.auctions()[i]).auction_id as int == i
                        && self.auctions()[i].params.valid() by {
                        if i < old(self).auctions().len() {
                            assert(self.auctions()[i] == old(self).auctions()[i]);
                        }
                    }
                }
                Ok((id, effects))
            },
        }
    }

    /// Why the auction `auction_id` cannot be claimed for `paid_amount` at
    /// `now`, if it cannot: it is not live, it has expired, or the amount
    /// is below the price.
    pub open spec fn claim_error(&self, auction_id: u64, paid_amount: u64, now: u64) -> Option<
        Error,
    > {
        if !self.live(auction_id) {
            Some(Error::UnknownAuction)
        } else if self.auctions()[auction_id as int].expired(now) {
            Some(Error::AuctionExpired)
        } else if Vault::units(paid_amount) < self.auctions()[auction_id as int].price(now) {
            Some(Error::Underpayment)
        } else {
            None
        }
    }

    /// What a claim asks of the collaborators: the payment taken from the
    /// claimant, the whole collateral given to the claimant, and the
    /// payment reported to the balance sheet.
    pub open spec fn claim_effects(&self, claimant: Identity, auction_id: u64, paid_amount: u64) -> Seq<
        Effect,
    > {
        let a = self.auctions()[auction_id as int];
        seq![
            Effect::Debit { asset: self.stable(), from: claimant, amount: paid_amount },
            Effect::Credit { asset: a.token, to: claimant, amount: a.collateral_amount },
            Effect::ReportSurplus { amount: I256::from_whole(paid_amount) },
        ]
    }

    /// Settles the live auction `auction_id` at `now` for `paid_amount`
    /// of the stable asset, which must be at least the price. The claimant
    /// gets all of the auction's collateral and the auction is marked claimed. A
    /// rejected call changes nothing.
    pub fn claim(&mut self, claimant: Identity, auction_id: u64, paid_amount: u64, now: u64) -> (r:
        Result<Vec<Effect>, Error>)
        requires
            old(self).wf(),
        ensures
            final(self).wf(),
            final(self).same_settings(old(self)),
            match old(self).claim_error(auction_id, paid_amount, now) {
                Some(e) => (r matches Err(x) && x == e) && final(self).auctions() == old(self).auctions(),
                None => (r matches Ok(effects) && effects@ == old(self).claim_effects(
                    claimant,
                    auction_id,
                    paid_amount,
                )) && final(self).auctions() == old(self).auctions().update(
                    auction_id as int,
                    Auction { claimed: true, ..old(self).auctions()[auction_id as int] },
                ),
            },
    {
        let a: Auction = match self.find(auction_id) {
            Some(a) => a,
            None => {
                return Err(Error::UnknownAuction);
            },
        };
        if a.expired_at(now) {
            return Err(Error::AuctionExpired);
        }
        let offered: u128 = paid_amount as u128 * 0x1_0000_0000_0000_0000;
        if offered < fp_to_u128(a.price_at(now)) {
            return Err(Error::Underpayment);
        }
        let n: usize = self.auctions.len();
        self.auctions.set(auction_id as usize, Auction { claimed: true, ..a });
        let mut effects: Vec<Effect> = Vec::new();
        effects.push(Effect::Debit { asset: self.stable, from: claimant, amount: paid_amount });
        effects.push(Effect::Credit { asset: a.token, to: claimant, amount: a.collateral_amount });
        effects.push(Effect::ReportSurplus { amount: u64_to_i256(paid_amount) });
        proof {
            assert(effects@ =~= old(self).claim_effects(claimant, auction_id, paid_amount));
        }
        Ok(effects)
    }

    /// Why the auction `auction_id` cannot be reset at `now`, if it
    /// cannot: it is not live, or it has not expired.
    pub open spec fn reset_error(&self, auction_id: u64, now: u64) -> Option<Error> {
        if !self.live(auction_id) {
            Some(Error::UnknownAuction)
        } else if !self.auctions()[auction_id as int].expired(now) {
            Some(Error::AuctionNotExpired)
        } else {
            None
        }
    }

    /// Replaces the expired live auction `auction_id` by a new one over
    /// the same collateral and debt, which starts at `now` under the next
    /// id with the engine's parameters. The old auction is marked superseded. A
    /// rejected call changes nothing.
    pub fn reset_auction(&mut self, auction_id: u64, now: u64) -> (r: Result<u64, Error>)
        requires
            old(self).wf(),
        ensures
            final(self).wf(),
            final(self).same_settings(old(self)),
            match old(self).reset_error(auction_id, now) {
                Some(e) => r == Err::<u64, Error>(e) && final(self).auctions() == old(self).auctions(),
                None => ({
                    let a = old(self).auctions()[auction_id as int];
                    &&& r == Ok::<u64, Error>(old(self).auctions().len() as u64)
                    &&& final(self).auctions() == old(self).auctions().update(
                        auction_id as int,
                        Auction { superseded: true, ..a },
                    ).push(
                        old(self).opened(
                            a.vault_id,
                            a.token,
                            a.collateral_amount,
                            a.debt_value,
                            now,
                        ),
                    )
                    &&& !final(self).auctions()[r.unwrap() as int].expired(now)
                    &&& final(self).live(r.unwrap())
                }),
            },
    {
        let a: Auction = match self.find(auction_id) {
            Some(a) => a,
            None => {
                return Err(Error::UnknownAuction);
            },
        };
        if !a.expired_at(now) {
            return Err(Error::AuctionNotExpired);
        }
        let id: u64 = self.auctions.len() as u64;
        self.auctions.set(auction_id as usize, Auction { superseded: true, ..a });
        let fresh = Auction {
            auction_id: id,
            vault_id: a.vault_id,
            token: a.token,
            collateral_amount: a.collateral_amount,
            debt_value: a.debt_value,
            start_time: now,
            params: self.defaults,
            claimed: false,
            superseded: false,
        };
        self.auctions.push(fresh);
        proof {
            let d = self.defaults.time_interval as int;
            assert(0int / d == 0) by (nonlinear_arith)
                requires
                    d > 0,
            ;
            assert(fresh.elapsed_intervals(now) == 0);
        }
        Ok(id)
    }

    /// The record of the auction `auction_id`, live or not.
    pub fn get_auction(&self, auction_id: u64) -> (r: Result<Auction, Error>)
        ensures
            (auction_id as nat) < self.auctions().len() ==> r == Ok::<Auction, Error>(
                self.auctions()[auction_id as int],
            ),
            (auction_id as nat) >= self.auctions().len() ==> r == Err::<Auction, Error>(
                Error::UnknownAuction,
            ),
    {
        if (auction_id as u128) >= (self.auctions.len() as u128) {
            return Err(Error::UnknownAuction);
        }
        Ok(self.auctions[auction_id as usize])
    }
}

} // verus!
