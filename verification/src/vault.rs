//! The vault ledger: vault records, interest accrual and the
//! collateralization checks.

use vstd::prelude::*;
use crate::allowlist::Allowlist;
use crate::fixed_point::{
    covers, fp_to_u128, is_covered, least, max_raw, mul_floor, mul_whole, scaled, u128_to_fp,
    u64_to_i256, unit, whole, I256, UFP128,
};
use crate::registry::{CollateralRegistry, CollateralType};
use crate::types::{Bits256, Effect, Error, Identity};

verus! {

/// One collateral and debt position.
#[derive(Clone, Copy, Debug, PartialEq, Eq, Structural)]
pub struct Vault {
    pub vault_id: u64,
    pub owner: Identity,
    pub collateral_type_id: u64,
    pub collateral_amount: u64,
    pub debt_amount: UFP128,
    pub last_accrual_time: u64,
}

impl Vault {
    /// The time over which interest is due at `now`: none if `now` is not
    /// after the last accrual.
    pub open spec fn elapsed(self, now: u64) -> nat {
        if now > self.last_accrual_time {
            (now - self.last_accrual_time) as nat
        } else {
            0
        }
    }

    /// The raw interest added at `now`: the debt times the rate, rounded
    /// down, for each unit of time, and no more than the total debt of the
    /// type `ty` can still take in.
    pub open spec fn interest(self, ty: CollateralType, now: u64) -> nat {
        least(
            scaled(self.debt_amount.raw(), ty.params.interest_rate.raw()) * self.elapsed(now),
            (max_raw() - ty.total_debt.raw()) as nat,
        )
    }

    /// The vault after interest has accrued up to `now`.
    pub open spec fn accrued(self, ty: CollateralType, now: u64) -> Vault {
        Vault {
            debt_amount: UFP128::from_raw(self.debt_amount.raw() + self.interest(ty, now)),
            last_accrual_time: if now > self.last_accrual_time {
                now
            } else {
                self.last_accrual_time
            },
            ..self
        }
    }

    /// Whether the collateral, at the raw price `price`, is worth at least
    /// the debt times the ratio of `ty`.
    pub open spec fn healthy(self, ty: CollateralType, price: nat) -> bool {
        covers(
            self.collateral_amount as nat,
            price,
            self.debt_amount.raw(),
            ty.params.collateral_ratio.raw(),
        )
    }

    /// The same vault with another debt.
    pub open spec fn with_debt(self, raw: nat) -> Vault {
        Vault { debt_amount: UFP128::from_raw(raw), ..self }
    }

    /// The raw amount that stands for `amount` whole units.
    pub open spec fn units(amount: u64) -> nat {
        amount as nat * unit()
    }

    /// The raw debt once interest has accrued up to `now`.
    pub open spec fn debt_at(self, ty: CollateralType, now: u64) -> nat {
        self.debt_amount.raw() + self.interest(ty, now)
    }

    /// What borrowing `amount` at `now` gives: the vault with interest
    /// accrued and the loan added, or the reason why not. The caller must
    /// be the owner; the total debt of the type, with the interest and
    /// the loan, must not pass the ceiling; a price must be at hand; and
    /// at that price the collateral must cover the new debt.
    pub open spec fn borrow_outcome(
        self,
        ty: CollateralType,
        caller: Identity,
        amount: u64,
        now: u64,
        price: Option<UFP128>,
    ) -> Result<Vault, Error> {
        let debt = self.debt_at(ty, now) + Vault::units(amount);
        if caller != self.owner {
            Err(Error::Unauthorized)
        } else if ty.total_debt.raw() + self.interest(ty, now) + Vault::units(amount)
            > ty.params.debt_ceiling.raw() {
            Err(Error::DebtCeilingExceeded)
        } else if price is None {
            Err(Error::PriceUnavailable)
        } else if !covers(
            self.collateral_amount as nat,
            price.unwrap().raw(),
            debt,
            ty.params.collateral_ratio.raw(),
        ) {
            Err(Error::Undercollateralized)
        } else {
            Ok(self.accrued(ty, now).with_debt(debt))
        }
    }

    /// What a borrowing asks of the collaborators: the interest surplus,
    /// then the loan paid out to the owner.
    pub open spec fn borrow_effects(
        self,
        ty: CollateralType,
        stable: Bits256,
        amount: u64,
        now: u64,
    ) -> Seq<Effect> {
        surplus_effects(self.debt_amount.raw(), self.debt_at(ty, now)).push(
            Effect::Credit { asset: stable, to: self.owner, amount },
        )
    }

    /// The vault after `amount` has been repaid at `now`: interest accrues,
    /// then the debt goes down by the amount, and to zero where the amount
    /// is more than the debt.
    pub open spec fn repay_outcome(self, ty: CollateralType, amount: u64, now: u64) -> Vault {
        let debt = self.debt_at(ty, now);
        self.accrued(ty, now).with_debt((debt - least(Vault::units(amount), debt)) as nat)
    }

    /// The whole units that a repayment of `amount` takes from the payer:
    /// the amount, or the debt rounded up where the amount is more.
    pub open spec fn repay_charge(self, ty: CollateralType, amount: u64, now: u64) -> nat {
        let debt = self.debt_at(ty, now);
        if Vault::units(amount) <= debt {
            amount as nat
        } else {
            (debt + unit() - 1) as nat / unit()
        }
    }

    /// What a repayment asks of the collaborators: the interest surplus,
    /// then the charge taken from the payer.
    pub open spec fn repay_effects(
        self,
        ty: CollateralType,
        stable: Bits256,
        caller: Identity,
        amount: u64,
        now: u64,
    ) -> Seq<Effect> {
        surplus_effects(self.debt_amount.raw(), self.debt_at(ty, now)).push(
            Effect::Debit {
                asset: stable,
                from: caller,
                amount: self.repay_charge(ty, amount, now) as u64,
            },
        )
    }

    /// What taking `amount` of collateral out at `now` gives: the vault
    /// with interest accrued and less collateral, or the reason why not.
    /// A vault without debt needs no price.
    pub open spec fn remove_outcome(
        self,
        ty: CollateralType,
        amount: u64,
        now: u64,
        price: Option<UFP128>,
    ) -> Result<Vault, Error> {
        let debt = self.debt_at(ty, now);
        if amount > self.collateral_amount {
            Err(Error::InsufficientCollateral)
        } else if debt > 0 && price is None {
            Err(Error::PriceUnavailable)
        } else if debt > 0 && !covers(
            (self.collateral_amount - amount) as nat,
            price.unwrap().raw(),
            debt,
            ty.params.collateral_ratio.raw(),
        ) {
            Err(Error::Undercollateralized)
        } else {
            Ok(
                Vault {
                    collateral_amount: (self.collateral_amount - amount) as u64,
                    ..self.accrued(ty, now)
                },
            )
        }
    }

    /// What a removal asks of the collaborators: the interest surplus,
    /// then the collateral paid out to the owner.
    pub open spec fn remove_effects(self, ty: CollateralType, amount: u64, now: u64) -> Seq<
        Effect,
    > {
        surplus_effects(self.debt_amount.raw(), self.debt_at(ty, now)).push(
            Effect::Credit { asset: ty.params.token, to: self.owner, amount },
        )
    }

    /// The vault once liquidated: without collateral and without debt.
    pub open spec fn emptied(self) -> Vault {
        Vault { collateral_amount: 0, debt_amount: UFP128::from_raw(0), ..self }
    }

    /// What the vault adds to the debt of type `t`.
    pub open spec fn share(self, t: nat) -> nat {
        if self.collateral_type_id as nat == t {
            self.debt_amount.raw()
        } else {
            0
        }
    }
}

/// The debt of all the vaults in `vaults` that are of type `t`.
pub open spec fn debt_sum(vaults: Seq<Vault>, t: nat) -> nat
    decreases vaults.len(),
{
    if vaults.len() == 0 {
        0
    } else {
        debt_sum(vaults.drop_last(), t) + vaults.last().share(t)
    }
}

/// A vault put at the end adds its share.
pub proof fn lemma_debt_sum_push(vaults: Seq<Vault>, v: Vault, t: nat)
    ensures
        debt_sum(vaults.push(v), t) == debt_sum(vaults, t) + v.share(t),
{
    assert(vaults.push(v).drop_last() =~= vaults);
}

/// A vault replaced takes its old share out and puts its new share in.
pub proof fn lemma_debt_sum_update(vaults: Seq<Vault>, i: int, v: Vault, t: nat)
    requires
        0 <= i < vaults.len(),
    ensures
        debt_sum(vaults.update(i, v), t) + vaults[i].share(t) == debt_sum(vaults, t) + v.share(t),
        vaults[i].share(t) <= debt_sum(vaults, t),
    decreases vaults.len(),
{
    if i == vaults.len() - 1 {
        assert(vaults.update(i, v).drop_last() =~= vaults.drop_last());
    } else {
        assert(vaults.update(i, v).drop_last() =~= vaults.drop_last().update(i, v));
        lemma_debt_sum_update(vaults.drop_last(), i, v, t);
    }
}

/// Where no vault is of type `t`, the debt of type `t` is zero.
pub proof fn lemma_debt_sum_none(vaults: Seq<Vault>, t: nat)
    requires
        forall|i: int| 0 <= i < vaults.len() ==> (#[trigger] vaults[i]).collateral_type_id as nat != t,
    ensures
        debt_sum(vaults, t) == 0,
    decreases vaults.len(),
{
    if vaults.len() > 0 {
        assert(vaults.last() == vaults[vaults.len() - 1]);
        assert forall|i: int| 0 <= i < vaults.drop_last().len() implies (
        #[trigger] vaults.drop_last()[i]).collateral_type_id as nat != t by {
            assert(vaults.drop_last()[i] == vaults[i]);
        }
        lemma_debt_sum_none(vaults.drop_last(), t);
    }
}

/// Borrowing an amount and repaying the same amount at the same time
/// brings the debt back to what it was once interest had accrued; with no
/// time elapsed since the last accrual, that is the debt before the
/// borrowing.
pub proof fn lemma_borrow_then_repay(
    v: Vault,
    ty: CollateralType,
    caller: Identity,
    amount: u64,
    now: u64,
    price: Option<UFP128>,
)
    requires
        v.debt_amount.raw() <= ty.total_debt.raw(),
        v.borrow_outcome(ty, caller, amount, now, price) is Ok,
    ensures
        ({
            let borrowed = v.borrow_outcome(ty, caller, amount, now, price).unwrap();
            let charged = ty.with_total(
                ty.total_debt.raw() + v.interest(ty, now) + Vault::units(amount),
            );
            let repaid = borrowed.repay_outcome(charged, amount, now);
            &&& repaid.debt_amount.raw() == v.debt_at(ty, now)
            &&& now <= v.last_accrual_time ==> repaid.debt_amount == v.debt_amount
        }),
{
    let borrowed = v.borrow_outcome(ty, caller, amount, now, price).unwrap();
    let charged = ty.with_total(ty.total_debt.raw() + v.interest(ty, now) + Vault::units(amount));
    ty.params.debt_ceiling.lemma_raw_round_trip();
    UFP128::lemma_from_raw(v.debt_at(ty, now) + Vault::units(amount));
    UFP128::lemma_from_raw(v.debt_at(ty, now));
    assert(borrowed.elapsed(now) == 0);
    assert(scaled(borrowed.debt_amount.raw(), charged.params.interest_rate.raw()) * 0 == 0);
    assert(borrowed.interest(charged, now) == 0);
    if now <= v.last_accrual_time {
        assert(scaled(v.debt_amount.raw(), ty.params.interest_rate.raw()) * 0 == 0);
        v.debt_amount.lemma_raw_round_trip();
    }
}

/// A repayment keeps a vault healthy: where the collateral covers the
/// debt once interest has accrued, it covers what is left after the
/// repayment.
pub proof fn lemma_repay_keeps_health(
    v: Vault,
    ty: CollateralType,
    amount: u64,
    now: u64,
    price: nat,
)
    requires
        v.debt_amount.raw() <= ty.total_debt.raw(),
        v.accrued(ty, now).healthy(ty, price),
    ensures
        v.repay_outcome(ty, amount, now).healthy(ty, price),
{
    let debt = v.debt_at(ty, now);
    let left = (debt - least(Vault::units(amount), debt)) as nat;
    ty.total_debt.lemma_raw_round_trip();
    UFP128::lemma_from_raw(debt);
    UFP128::lemma_from_raw(left);
    let ratio = ty.params.collateral_ratio.raw();
    assert(left * ratio <= debt * ratio) by (nonlinear_arith)
        requires
            left <= debt,
    ;
}

/// The vault `v` after interest has accrued up to `now`, and the raw
/// interest added.
pub fn accrue(v: Vault, ty: CollateralType, now: u64) -> (r: (Vault, u128))
    requires
        v.debt_amount.raw() <= ty.total_debt.raw(),
    ensures
        r.0 == v.accrued(ty, now),
        r.1 as nat == v.interest(ty, now),
        r.0.debt_amount.raw() == v.debt_amount.raw() + r.1 as nat,
{
    let debt: u128 = fp_to_u128(v.debt_amount);
    let total: u128 = fp_to_u128(ty.total_debt);
    let room: u128 = u128::MAX - total;
    if now <= v.last_accrual_time {
        proof {
            v.debt_amount.lemma_raw_round_trip();
            assert(scaled(v.debt_amount.raw(), ty.params.interest_rate.raw()) * 0 == 0);
        }
        return (v, 0);
    }
    let elapsed: u64 = now - v.last_accrual_time;
    let per_unit: u128 = mul_floor(debt, fp_to_u128(ty.params.interest_rate));
    let due: u128 = mul_whole(per_unit, elapsed);
    let added: u128 = if due <= room {
        due
    } else {
        room
    };
    proof {
        let exact: nat = scaled(v.debt_amount.raw(), ty.params.interest_rate.raw());
        let e: nat = elapsed as nat;
        if exact > max_raw() {
            assert(exact * e >= exact) by (nonlinear_arith)
                requires
                    e >= 1,
            ;
            assert(per_unit as nat * e >= per_unit as nat) by (nonlinear_arith)
                requires
                    e >= 1,
            ;
        }
        assert(added as nat == v.interest(ty, now));
    }
    (Vault { debt_amount: u128_to_fp(debt + added), last_accrual_time: now, ..v }, added)
}

/// What the balance sheet is told when a debt grows from `before` to
/// `after` by interest: the growth of its whole part, if it grew.
pub open spec fn surplus_effects(before: nat, after: nat) -> Seq<Effect> {
    if whole(after) > whole(before) {
        seq![
            Effect::ReportSurplus {
                amount: I256::from_whole((whole(after) - whole(before)) as u64),
            },
        ]
    } else {
        Seq::empty()
    }
}

/// Computes `surplus_effects`.
pub fn surplus(before: u128, after: u128) -> (r: Vec<Effect>)
    ensures
        r@ == surplus_effects(before as nat, after as nat),
{
    let s: u128 = 0x1_0000_0000_0000_0000;
    let mut out: Vec<Effect> = Vec::new();
    if after / s > before / s {
        let grown: u64 = (after / s - before / s) as u64;
        out.push(Effect::ReportSurplus { amount: u64_to_i256(grown) });
        proof {
            assert(out@ =~= surplus_effects(before as nat, after as nat));
        }
    } else {
        proof {
            assert(out@ =~= surplus_effects(before as nat, after as nat));
        }
    }
    out
}

/// Borrows `amount` against the vault `v` of type `ty` at `now`: the new
/// vault and the calls to make, or the reason why not.
pub fn borrow_from(
    v: Vault,
    ty: CollateralType,
    stable: Bits256,
    caller: Identity,
    amount: u64,
    now: u64,
    price: Option<UFP128>,
) -> (r: Result<(Vault, Vec<Effect>), Error>)
    requires
        v.debt_amount.raw() <= ty.total_debt.raw(),
    ensures
        match r {
            Ok((nv, effects)) => v.borrow_outcome(ty, caller, amount, now, price) == Ok::<
                Vault,
                Error,
            >(nv) && effects@ == v.borrow_effects(ty, stable, amount, now)
                && nv.debt_amount.raw() == v.debt_at(ty, now) + Vault::units(amount),
            Err(e) => v.borrow_outcome(ty, caller, amount, now, price) == Err::<Vault, Error>(e),
        },
{
    if caller != v.owner {
        return Err(Error::Unauthorized);
    }
    let (a, interest) = accrue(v, ty, now);
    let total: u128 = fp_to_u128(ty.total_debt);
    let ceiling: u128 = fp_to_u128(ty.params.debt_ceiling);
    let loan: u128 = amount as u128 * 0x1_0000_0000_0000_0000;
    let accrued_total: u128 = total + interest;
    if accrued_total > ceiling || loan > ceiling - accrued_total {
        return Err(Error::DebtCeilingExceeded);
    }
    let debt: u128 = fp_to_u128(a.debt_amount) + loan;
    match price {
        None => Err(Error::PriceUnavailable),
        Some(p) => {
            if !is_covered(
                v.collateral_amount,
                fp_to_u128(p),
                debt,
                fp_to_u128(ty.params.collateral_ratio),
            ) {
                return Err(Error::Undercollateralized);
            }
            let mut effects: Vec<Effect> = surplus(fp_to_u128(v.debt_amount), fp_to_u128(a.debt_amount));
            effects.push(Effect::Credit { asset: stable, to: v.owner, amount });
            proof {
                UFP128::lemma_from_raw(debt as nat);
            }
            Ok((Vault { debt_amount: u128_to_fp(debt), ..a }, effects))
        },
    }
}

/// Repays `amount` into the vault `v` of type `ty` at `now`: the new vault
/// and the calls to make.
pub fn repay_into(
    v: Vault,
    ty: CollateralType,
    stable: Bits256,
    caller: Identity,
    amount: u64,
    now: u64,
) -> (r: (Vault, Vec<Effect>))
    requires
        v.debt_amount.raw() <= ty.total_debt.raw(),
    ensures
        r.0 == v.repay_outcome(ty, amount, now),
        r.1@ == v.repay_effects(ty, stable, caller, amount, now),
        r.0.debt_amount.raw() == v.debt_at(ty, now) - least(
            Vault::units(amount),
            v.debt_at(ty, now),
        ),
{
    let s: u128 = 0x1_0000_0000_0000_0000;
    let (a, interest) = accrue(v, ty, now);
    let debt: u128 = fp_to_u128(a.debt_amount);
    let offered: u128 = amount as u128 * s;
    let mut effects: Vec<Effect> = surplus(fp_to_u128(v.debt_amount), debt);
    if offered <= debt {
        effects.push(Effect::Debit { asset: stable, from: caller, amount });
        proof {
            UFP128::lemma_from_raw((debt - offered) as nat);
        }
        (Vault { debt_amount: u128_to_fp(debt - offered), ..a }, effects)
    } else {
        let charge: u64 = (debt / s + if debt % s > 0 {
            1u128
        } else {
            0u128
        }) as u64;
        effects.push(Effect::Debit { asset: stable, from: caller, amount: charge });
        proof {
            UFP128::lemma_from_raw(0);
        }
        (Vault { debt_amount: u128_to_fp(0), ..a }, effects)
    }
}

/// Takes `amount` of collateral out of the vault `v` of type `ty` at `now`:
/// the new vault and the calls to make, or the reason why not.
pub fn remove_from(v: Vault, ty: CollateralType, amount: u64, now: u64, price: Option<UFP128>) -> (r:
    Result<(Vault, Vec<Effect>), Error>)
    requires
        v.debt_amount.raw() <= ty.total_debt.raw(),
    ensures
        match r {
            Ok((nv, effects)) => v.remove_outcome(ty, amount, now, price) == Ok::<Vault, Error>(nv)
                && effects@ == v.remove_effects(ty, amount, now) && nv.debt_amount.raw()
                == v.debt_at(ty, now),
            Err(e) => v.remove_outcome(ty, amount, now, price) == Err::<Vault, Error>(e),
        },
{
    if amount > v.collateral_amount {
        return Err(Error::InsufficientCollateral);
    }
    let (a, interest) = accrue(v, ty, now);
    let debt: u128 = fp_to_u128(a.debt_amount);
    let left: u64 = v.collateral_amount - amount;
    if debt > 0 {
        match price {
            None => {
                return Err(Error::PriceUnavailable);
            },
            Some(p) => {
                if !is_covered(left, fp_to_u128(p), debt, fp_to_u128(ty.params.collateral_ratio)) {
                    return Err(Error::Undercollateralized);
                }
            },
        }
    }
    let mut effects: Vec<Effect> = surplus(fp_to_u128(v.debt_amount), debt);
    effects.push(Effect::Credit { asset: ty.params.token, to: v.owner, amount });
    Ok((Vault { collateral_amount: left, ..a }, effects))
}

/// The vaults, the allow-list of owners, the identity that may mark a vault
/// liquidated, and the stable asset that debt is paid out in.
#[derive(Clone, Debug)]
pub struct VaultLedger {
    vaults: Vec<Vault>,
    allowlist: Allowlist,
    liquidator: Option<Identity>,
    stable: Bits256,
}

impl VaultLedger {
    /// The vault records, each at the index that is its id.
    pub closed spec fn vaults(&self) -> Seq<Vault> {
        self.vaults@
    }

    /// The allow-listed identities.
    pub closed spec fn allowed(&self) -> Set<Identity> {
        self.allowlist@
    }

    /// The identity that may mark vaults liquidated, once set.
    pub closed spec fn liquidator(&self) -> Option<Identity> {
        self.liquidator
    }

    /// The stable asset.
    pub closed spec fn stable(&self) -> Bits256 {
        self.stable
    }

    /// Everything but the vault records is as in `other`.
    pub open spec fn same_settings(&self, other: &VaultLedger) -> bool {
        &&& self.allowed() == other.allowed()
        &&& self.liquidator() == other.liquidator()
        &&& self.stable() == other.stable()
    }

    /// The ledger fits the registry `reg`: vault ids are given in sequence,
    /// every vault is of a registered type, and the total debt of each type
    /// is the sum of the debts of its vaults.
    pub open spec fn wf(&self, reg: &CollateralRegistry) -> bool {
        &&& reg.wf()
        &&& forall|i: int|
            0 <= i < self.vaults().len() ==> {
                &&& (#[trigger] self.vaults()[i]).vault_id as int == i
                &&& (self.vaults()[i].collateral_type_id as nat) < reg@.len()
            }
        &&& forall|t: int|
            0 <= t < reg@.len() ==> (#[trigger] reg@[t]).total_debt.raw() == debt_sum(
                self.vaults(),
                t as nat,
            )
    }

    /// A ledger without vaults, with an empty allow-list and no liquidator.
    pub fn new(stable: Bits256) -> (r: VaultLedger)
        ensures
            r.vaults().len() == 0,
            r.allowed() =~= Set::<Identity>::empty(),
            r.liquidator() is None,
            r.stable() == stable,
    {
        VaultLedger { vaults: Vec::new(), allowlist: Allowlist::new(), liquidator: None, stable }
    }

    /// The ledger and the registry `types` are what `before` and
    /// `types_before` were, but for the vault `id`, which is now `v`, and
    /// for the total debt of its type, which has moved by as much as the
    /// vault's debt.
    pub open spec fn replaced(
        &self,
        types: Seq<CollateralType>,
        before: &VaultLedger,
        types_before: Seq<CollateralType>,
        id: u64,
        v: Vault,
    ) -> bool {
        let was = before.vaults()[id as int];
        let ty = types_before[was.collateral_type_id as int];
        &&& self.same_settings(before)
        &&& self.vaults() == before.vaults().update(id as int, v)
        &&& types == types_before.update(
            was.collateral_type_id as int,
            ty.with_total((ty.total_debt.raw() + v.debt_amount.raw() - was.debt_amount.raw()) as nat),
        )
    }

    /// Nothing has changed.
    pub open spec fn unchanged(
        &self,
        types: Seq<CollateralType>,
        before: &VaultLedger,
        types_before: Seq<CollateralType>,
    ) -> bool {
        &&& self.same_settings(before)
        &&& self.vaults() == before.vaults()
        &&& types == types_before
    }

    /// The type of the vault `id`.
    pub open spec fn type_of(&self, reg: &CollateralRegistry, id: u64) -> CollateralType {
        reg@[self.vaults()[id as int].collateral_type_id as int]
    }

    /// The vault `id` and its type, where the vault exists.
    fn find(&self, reg: &CollateralRegistry, id: u64) -> (r: Option<(Vault, CollateralType)>)
        requires
            self.wf(reg),
        ensures
            (id as nat) >= self.vaults().len() ==> r is None,
            (id as nat) < self.vaults().len() ==> r == Some(
                (self.vaults()[id as int], self.type_of(reg, id)),
            ) && self.vaults()[id as int].debt_amount.raw() <= self.type_of(
                reg,
                id,
            ).total_debt.raw(),
    {
        if (id as u128) >= (self.vaults.len() as u128) {
            return None;
        }
        let v: Vault = self.vaults[id as usize];
        match reg.get(v.collateral_type_id) {
            Ok(ty) => {
                proof {
                    lemma_debt_sum_update(
                        self.vaults(),
                        id as int,
                        v,
                        v.collateral_type_id as nat,
                    );
                }
                Some((v, ty))
            },
            Err(_) => None,
        }
    }

    /// Accrues the interest of the vault `vault_id` up to `now` and asks
    /// for the surplus to be reported. With no time elapsed nothing
    /// changes.
    pub fn update_interest(&mut self, reg: &mut CollateralRegistry, vault_id: u64, now: u64) -> (r:
        Result<Vec<Effect>, Error>)
        requires
            old(self).wf(old(reg)),
        ensures
            final(self).wf(final(reg)),
            (vault_id as nat) >= old(self).vaults().len() ==> r is Err && r.unwrap_err()
                == Error::UnknownVault && final(self).unchanged(final(reg)@, old(self), old(reg)@),
            (vault_id as nat) < old(self).vaults().len() ==> r is Ok && ({
                let v = old(self).vaults()[vault_id as int];
                let ty = old(self).type_of(old(reg), vault_id);
                &&& final(self).replaced(
                    final(reg)@,
                    old(self),
                    old(reg)@,
                    vault_id,
                    v.accrued(ty, now),
                )
                &&& r.unwrap()@ == surplus_effects(v.debt_amount.raw(), v.debt_at(ty, now))
            }),
    {
        match self.find(reg, vault_id) {
            None => Err(Error::UnknownVault),
            Some((v, ty)) => {
                let (a, interest) = accrue(v, ty, now);
                let effects: Vec<Effect> = surplus(
                    fp_to_u128(v.debt_amount),
                    fp_to_u128(a.debt_amount),
                );
                self.commit(reg, a, interest, 0, 0);
                Ok(effects)
            },
        }
    }

    /// Borrows `amount` of the stable asset against the vault `vault_id`,
    /// after accruing its interest up to `now`. A rejected call changes
    /// nothing, the accrual included.
    pub fn borrow(
        &mut self,
        reg: &mut CollateralRegistry,
        caller: Identity,
        vault_id: u64,
        amount: u64,
        now: u64,
        price: Option<UFP128>,
    ) -> (r: Result<Vec<Effect>, Error>)
        requires
            old(self).wf(old(reg)),
        ensures
            final(self).wf(final(reg)),
            (vault_id as nat) >= old(self).vaults().len() ==> r is Err && r.unwrap_err()
                == Error::UnknownVault && final(self).unchanged(final(reg)@, old(self), old(reg)@),
            (vault_id as nat) < old(self).vaults().len() ==> ({
                let v = old(self).vaults()[vault_id as int];
                let ty = old(self).type_of(old(reg), vault_id);
                match v.borrow_outcome(ty, caller, amount, now, price) {
                    Ok(nv) => r is Ok && r.unwrap()@ == v.borrow_effects(
                        ty,
                        final(self).stable(),
                        amount,
                        now,
                    ) && final(self).replaced(final(reg)@, old(self), old(reg)@, vault_id, nv)
                        && nv.healthy(ty, price.unwrap().raw()),
                    Err(e) => r is Err && r.unwrap_err() == e && final(self).unchanged(
                        final(reg)@,
                        old(self),
                        old(reg)@,
                    ),
                }
            }),
    {
        match self.find(reg, vault_id) {
            None => Err(Error::UnknownVault),
            Some((v, ty)) => {
                match borrow_from(v, ty, self.stable, caller, amount, now, price) {
                    Err(e) => Err(e),
                    Ok((nv, effects)) => {
                        let (a, interest) = accrue(v, ty, now);
                        let loan: u128 = fp_to_u128(nv.debt_amount) - fp_to_u128(a.debt_amount);
                        proof {
                            ty.params.debt_ceiling.lemma_raw_round_trip();
                        }
                        self.commit(reg, nv, interest, loan, 0);
                        Ok(effects)
                    },
                }
            },
        }
    }

    /// Repays `amount` of the stable asset into the vault `vault_id`, after
    /// accruing its interest up to `now`. Anyone may repay; the payer is
    /// charged no more than the debt.
    pub fn repay(
        &mut self,
        reg: &mut CollateralRegistry,
        caller: Identity,
        vault_id: u64,
        amount: u64,
        now: u64,
    ) -> (r: Result<Vec<Effect>, Error>)
        requires
            old(self).wf(old(reg)),
        ensures
            final(self).wf(final(reg)),
            (vault_id as nat) >= old(self).vaults().len() ==> r is Err && r.unwrap_err()
                == Error::UnknownVault && final(self).unchanged(final(reg)@, old(self), old(reg)@),
            (vault_id as nat) < old(self).vaults().len() ==> r is Ok && ({
                let v = old(self).vaults()[vault_id as int];
                let ty = old(self).type_of(old(reg), vault_id);
                &&& final(self).replaced(
                    final(reg)@,
                    old(self),
                    old(reg)@,
                    vault_id,
                    v.repay_outcome(ty, amount, now),
                )
                &&& r.unwrap()@ == v.repay_effects(ty, final(self).stable(), caller, amount, now)
            }),
    {
        match self.find(reg, vault_id) {
            None => Err(Error::UnknownVault),
            Some((v, ty)) => {
                let (nv, effects) = repay_into(v, ty, self.stable, caller, amount, now);
                let (a, interest) = accrue(v, ty, now);
                let paid: u128 = fp_to_u128(a.debt_amount) - fp_to_u128(nv.debt_amount);
                self.commit(reg, nv, interest, 0, paid);
                Ok(effects)
            },
        }
    }

    /// Takes `amount` of collateral out of the vault `vault_id` and pays
    /// it to the owner, after accruing interest up to `now`. A rejected
    /// call changes nothing, the accrual included.
    pub fn remove_collateral(
        &mut self,
        reg: &mut CollateralRegistry,
        vault_id: u64,
        amount: u64,
        now: u64,
        price: Option<UFP128>,
    ) -> (r: Result<Vec<Effect>, Error>)
        requires
            old(self).wf(old(reg)),
        ensures
            final(self).wf(final(reg)),
            (vault_id as nat) >= old(self).vaults().len() ==> r is Err && r.unwrap_err()
                == Error::UnknownVault && final(self).unchanged(final(reg)@, old(self), old(reg)@),
            (vault_id as nat) < old(self).vaults().len() ==> ({
                let v = old(self).vaults()[vault_id as int];
                let ty = old(self).type_of(old(reg), vault_id);
                match v.remove_outcome(ty, amount, now, price) {
                    Ok(nv) => r is Ok && r.unwrap()@ == v.remove_effects(ty, amount, now)
                        && final(self).replaced(final(reg)@, old(self), old(reg)@, vault_id, nv)
                        && (nv.debt_amount.raw() > 0 ==> nv.healthy(ty, price.unwrap().raw())),
                    Err(e) => r is Err && r.unwrap_err() == e && final(self).unchanged(
                        final(reg)@,
                        old(self),
                        old(reg)@,
                    ),
                }
            }),
    {
        match self.find(reg, vault_id) {
            None => Err(Error::UnknownVault),
            Some((v, ty)) => {
                match remove_from(v, ty, amount, now, price) {
                    Err(e) => Err(e),
                    Ok((nv, effects)) => {
                        let (a, interest) = accrue(v, ty, now);
                        self.commit(reg, nv, interest, 0, 0);
                        Ok(effects)
                    },
                }
            },
        }
    }

    /// Why a vault of type `id` cannot be opened for `owner` with `amount`
    /// of collateral, if it cannot: the type is not registered or closed to
    /// borrowing, the owner is not on the allow-list that the type asks
    /// for, or the amount is zero.
    pub open spec fn create_error(
        &self,
        reg: &CollateralRegistry,
        owner: Identity,
        id: u64,
        amount: u64,
    ) -> Option<Error> {
        if id as nat >= reg@.len() || !reg@[id as int].params.borrowing_enabled {
            Some(Error::CollateralTypeDisabled)
        } else if reg@[id as int].params.allowlist_enabled && !self.allowed().contains(owner) {
            Some(Error::Unauthorized)
        } else if amount == 0 {
            Some(Error::ZeroAmount)
        } else {
            None
        }
    }

    /// Opens a vault of type `collateral_type_id` with `collateral_amount`
    /// of collateral, taken from the caller. The vault belongs to
    /// `alt_owner` where one is given, else to the caller. Its id is the
    /// number of vaults opened before it.
    pub fn create_vault(
        &mut self,
        reg: &CollateralRegistry,
        caller: Identity,
        alt_owner: Option<Identity>,
        collateral_type_id: u64,
        collateral_amount: u64,
        now: u64,
    ) -> (r: Result<(u64, Vec<Effect>), Error>)
        requires
            old(self).wf(reg),
        ensures
            final(self).wf(reg),
            final(self).same_settings(old(self)),
            ({
                let owner = if alt_owner is Some {
                    alt_owner.unwrap()
                } else {
                    caller
                };
                match old(self).create_error(reg, owner, collateral_type_id, collateral_amount) {
                    Some(e) => r is Err && r.unwrap_err() == e && final(self).vaults() == old(self).vaults(),
                    None => r is Ok && r.unwrap().0 as nat == old(self).vaults().len()
                        && final(self).vaults() == old(self).vaults().push(
                        Vault {
                            vault_id: old(self).vaults().len() as u64,
                            owner,
                            collateral_type_id,
                            collateral_amount,
                            debt_amount: UFP128::from_raw(0),
                            last_accrual_time: now,
                        },
                    ) && r.unwrap().1@ == seq![
                        Effect::Debit {
                            asset: reg@[collateral_type_id as int].params.token,
                            from: caller,
                            amount: collateral_amount,
                        },
                    ],
                }
            }),
    {
        let owner: Identity = match alt_owner {
            Some(o) => o,
            None => caller,
        };
        let ty: CollateralType = match reg.get(collateral_type_id) {
            Ok(t) => t,
            Err(_) => {
                return Err(Error::CollateralTypeDisabled);
            },
        };
        if !ty.params.borrowing_enabled {
            return Err(Error::CollateralTypeDisabled);
        }
        if ty.params.allowlist_enabled && !self.allowlist.get_allowlist(owner) {
            return Err(Error::Unauthorized);
        }
        if collateral_amount == 0 {
            return Err(Error::ZeroAmount);
        }
        let id: u64 = self.vaults.len() as u64;
        let v = Vault {
            vault_id: id,
            owner,
            collateral_type_id,
            collateral_amount,
            debt_amount: u128_to_fp(0),
            last_accrual_time: now,
        };
        let ghost before = self.vaults@;
        self.vaults.push(v);
        let mut effects: Vec<Effect> = Vec::new();
        effects.push(Effect::Debit { asset: ty.params.token, from: caller, amount: collateral_amount });
        proof {
            UFP128::lemma_from_raw(0);
            assert forall|t: int| 0 <= t < reg@.len() implies (#[trigger] reg@[t]).total_debt.raw()
                == debt_sum(self.vaults(), t as nat) by {
                lemma_debt_sum_push(before, v, t as nat);
            }
            assert(effects@ =~= seq![
                Effect::Debit { asset: ty.params.token, from: caller, amount: collateral_amount },
            ]);
        }
        Ok((id, effects))
    }

    /// Why `caller` cannot mark the vault `vault_id` liquidated, if it
    /// cannot: it is not the liquidator, or there is no such vault.
    pub open spec fn mark_error(&self, caller: Identity, vault_id: u64) -> Option<Error> {
        if self.liquidator() != Some(caller) {
            Some(Error::Unauthorized)
        } else if vault_id as nat >= self.vaults().len() {
            Some(Error::UnknownVault)
        } else {
            None
        }
    }

    /// Marks the vault `vault_id` liquidated: its collateral and its debt
    /// become zero and the total debt of its type goes down by the debt.
    /// Only the liquidator may call it. Returns the vault as it was.
    pub fn mark_liquidated(&mut self, reg: &mut CollateralRegistry, caller: Identity, vault_id: u64) -> (r:
        Result<Vault, Error>)
        requires
            old(self).wf(old(reg)),
        ensures
            final(self).wf(final(reg)),
            match old(self).mark_error(caller, vault_id) {
                Some(e) => r == Err::<Vault, Error>(e) && final(self).unchanged(
                    final(reg)@,
                    old(self),
                    old(reg)@,
                ),
                None => r == Ok::<Vault, Error>(old(self).vaults()[vault_id as int])
                    && final(self).replaced(
                    final(reg)@,
                    old(self),
                    old(reg)@,
                    vault_id,
                    old(self).vaults()[vault_id as int].emptied(),
                ),
            },
    {
        match self.liquidator {
            None => {
                return Err(Error::Unauthorized);
            },
            Some(l) => {
                if l != caller {
                    return Err(Error::Unauthorized);
                }
            },
        }
        match self.find(reg, vault_id) {
            None => Err(Error::UnknownVault),
            Some((v, ty)) => {
                proof {
                    UFP128::lemma_from_raw(0);
                    ty.total_debt.lemma_raw_round_trip();
                }
                self.commit(
                    reg,
                    Vault { collateral_amount: 0, debt_amount: u128_to_fp(0), ..v },
                    0,
                    0,
                    fp_to_u128(v.debt_amount),
                );
                Ok(v)
            },
        }
    }

    /// Names the identity that may mark vaults liquidated.
    pub fn set_liquidator(&mut self, liquidator: Identity)
        ensures
            final(self).liquidator() == Some(liquidator),
            final(self).vaults() == old(self).vaults(),
            final(self).allowed() == old(self).allowed(),
            final(self).stable() == old(self).stable(),
    {
        self.liquidator = Some(liquidator);
    }

    /// Puts `id` on the allow-list of owners or takes it off.
    pub fn set_allowlist(&mut self, id: Identity, value: bool)
        ensures
            value ==> final(self).allowed() =~= old(self).allowed().insert(id),
            !value ==> final(self).allowed() =~= old(self).allowed().remove(id),
            final(self).vaults() == old(self).vaults(),
            final(self).liquidator() == old(self).liquidator(),
            final(self).stable() == old(self).stable(),
    {
        self.allowlist.set_allowlist(id, value);
    }

    /// Whether `id` is on the allow-list of owners.
    pub fn get_allowlist(&self, id: Identity) -> (r: bool)
        ensures
            r == self.allowed().contains(id),
    {
        self.allowlist.get_allowlist(id)
    }

    /// The number of vaults opened so far.
    pub fn len(&self) -> (r: u64)
        ensures
            r as nat == self.vaults().len(),
    {
        self.vaults.len() as u64
    }

    /// The record of the vault `vault_id`.
    pub fn get_vault(&self, vault_id: u64) -> (r: Result<Vault, Error>)
        ensures
            (vault_id as nat) < self.vaults().len() ==> r == Ok::<Vault, Error>(
                self.vaults()[vault_id as int],
            ),
            (vault_id as nat) >= self.vaults().len() ==> r == Err::<Vault, Error>(
                Error::UnknownVault,
            ),
    {
        if (vault_id as u128) < (self.vaults.len() as u128) {
            Ok(self.vaults[vault_id as usize])
        } else {
            Err(Error::UnknownVault)
        }
    }

    /// The debt of the vault `vault_id` as it stands in the ledger.
    pub fn debt(&self, vault_id: u64) -> (r: Result<UFP128, Error>)
        ensures
            (vault_id as nat) < self.vaults().len() ==> r == Ok::<UFP128, Error>(
                self.vaults()[vault_id as int].debt_amount,
            ),
            (vault_id as nat) >= self.vaults().len() ==> r == Err::<UFP128, Error>(
                Error::UnknownVault,
            ),
    {
        match self.get_vault(vault_id) {
            Ok(v) => Ok(v.debt_amount),
            Err(e) => Err(e),
        }
    }

    /// The collateral that the vault `vault_id` holds.
    pub fn collateral_amount(&self, vault_id: u64) -> (r: Result<u64, Error>)
        ensures
            (vault_id as nat) < self.vaults().len() ==> r == Ok::<u64, Error>(
                self.vaults()[vault_id as int].collateral_amount,
            ),
            (vault_id as nat) >= self.vaults().len() ==> r == Err::<u64, Error>(
                Error::UnknownVault,
            ),
    {
        match self.get_vault(vault_id) {
            Ok(v) => Ok(v.collateral_amount),
            Err(e) => Err(e),
        }
    }

    /// The value of the collateral of the vault `vault_id` at the price
    /// `price`: the amount times the price, held at the largest raw value.
    pub fn collateral_value(&self, vault_id: u64, price: Option<UFP128>) -> (r: Result<
        UFP128,
        Error,
    >)
        ensures
            (vault_id as nat) >= self.vaults().len() ==> r == Err::<UFP128, Error>(
                Error::UnknownVault,
            ),
            (vault_id as nat) < self.vaults().len() && price is None ==> r == Err::<UFP128, Error>(
                Error::PriceUnavailable,
            ),
            (vault_id as nat) < self.vaults().len() && price is Some ==> r == Ok::<UFP128, Error>(
                UFP128::from_raw(
                    least(
                        price.unwrap().raw() * self.vaults()[vault_id as int].collateral_amount as nat,
                        max_raw(),
                    ),
                ),
            ),
    {
        let v: Vault = match self.get_vault(vault_id) {
            Ok(v) => v,
            Err(e) => {
                return Err(e);
            },
        };
        match price {
            None => Err(Error::PriceUnavailable),
            Some(p) => Ok(u128_to_fp(mul_whole(fp_to_u128(p), v.collateral_amount))),
        }
    }

    /// The collateral value that the debt of the vault `vault_id` asks
    /// for: the debt times the ratio of its type, rounded down and held at
    /// the largest raw value.
    pub fn target_collateral_value(&self, reg: &CollateralRegistry, vault_id: u64) -> (r: Result<
        UFP128,
        Error,
    >)
        requires
            self.wf(reg),
        ensures
            (vault_id as nat) >= self.vaults().len() ==> r == Err::<UFP128, Error>(
                Error::UnknownVault,
            ),
            (vault_id as nat) < self.vaults().len() ==> r == Ok::<UFP128, Error>(
                UFP128::from_raw(
                    least(
                        scaled(
                            self.vaults()[vault_id as int].debt_amount.raw(),
                            self.type_of(reg, vault_id).params.collateral_ratio.raw(),
                        ),
                        max_raw(),
                    ),
                ),
            ),
    {
        match self.find(reg, vault_id) {
            None => Err(Error::UnknownVault),
            Some((v, ty)) => Ok(
                u128_to_fp(
                    mul_floor(fp_to_u128(v.debt_amount), fp_to_u128(ty.params.collateral_ratio)),
                ),
            ),
        }
    }

    /// Replaces the vault `v.vault_id` by `v` and moves the total debt of
    /// its type through the registry: the interest is accrued, the loan is
    /// charged and the payment is released. The vault's debt has moved by
    /// the same amounts.
    fn commit(
        &mut self,
        reg: &mut CollateralRegistry,
        v: Vault,
        interest: u128,
        charged: u128,
        released: u128,
    )
        requires
            old(self).wf(old(reg)),
            (v.vault_id as nat) < old(self).vaults().len(),
            v.collateral_type_id == old(self).vaults()[v.vault_id as int].collateral_type_id,
            old(self).vaults()[v.vault_id as int].debt_amount.raw() + interest + charged
                == v.debt_amount.raw() + released,
            old(reg)@[v.collateral_type_id as int].total_debt.raw() + interest + charged <= max_raw(),
            charged > 0 ==> old(reg)@[v.collateral_type_id as int].total_debt.raw() + interest
                + charged <= old(reg)@[v.collateral_type_id as int].params.debt_ceiling.raw(),
        ensures
            final(self).wf(final(reg)),
            final(self).replaced(final(reg)@, old(self), old(reg)@, v.vault_id, v),
    {
        let ghost before = self.vaults@;
        let ghost types = reg@;
        let ghost i = v.vault_id as int;
        let ghost ty = v.collateral_type_id as int;
        let ghost total = types[ty].total_debt.raw();
        proof {
            lemma_debt_sum_update(before, i, v, ty as nat);
            UFP128::lemma_from_raw(interest as nat);
            UFP128::lemma_from_raw(charged as nat);
            UFP128::lemma_from_raw(released as nat);
            UFP128::lemma_from_raw((total + interest) as nat);
            UFP128::lemma_from_raw((total + interest + charged) as nat);
            UFP128::lemma_from_raw((total + interest + charged - released) as nat);
        }
        let n: usize = self.vaults.len();
        self.vaults.set(v.vault_id as usize, v);
        let _ = reg.accrue_debt(v.collateral_type_id, u128_to_fp(interest));
        if charged > 0 {
            let _ = reg.charge_debt(v.collateral_type_id, u128_to_fp(charged));
        }
        let _ = reg.release_debt(v.collateral_type_id, u128_to_fp(released));
        proof {
            assert(reg@ =~= types.update(
                ty,
                types[ty].with_total((total + interest + charged - released) as nat),
            ));
            assert forall|t: int| 0 <= t < reg@.len() implies (#[trigger] reg@[t]).total_debt.raw()
                == debt_sum(self.vaults(), t as nat) by {
                lemma_debt_sum_update(before, i, v, t as nat);
                assert(types[t].total_debt.raw() == debt_sum(before, t as nat));
            }
        }
    }
}

} // verus!
