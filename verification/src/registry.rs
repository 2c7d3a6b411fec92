//! The collateral registry: the configuration of each collateral type and
//! the debt issued against it.

use vstd::prelude::*;
use crate::fixed_point::{fp_to_u128, least, max_raw, u128_to_fp, unit, UFP128};
use crate::types::{Bits256, Error};

verus! {

/// What a collateral type is registered with.
#[derive(Clone, Copy, Debug, PartialEq, Eq, Structural)]
pub struct CollateralParams {
    pub token: Bits256,
    pub price_source: Bits256,
    pub debt_floor: UFP128,
    pub debt_ceiling: UFP128,
    pub collateral_ratio: UFP128,
    pub interest_rate: UFP128,
    pub borrowing_enabled: bool,
    pub allowlist_enabled: bool,
}

impl CollateralParams {
    /// The ratio is at least one and the floor is not above the ceiling.
    pub open spec fn valid(self) -> bool {
        &&& self.collateral_ratio.raw() >= unit()
        &&& self.debt_floor.raw() <= self.debt_ceiling.raw()
    }
}

/// A registered collateral type.
#[derive(Clone, Copy, Debug, PartialEq, Eq, Structural)]
pub struct CollateralType {
    pub collateral_type_id: u64,
    pub params: CollateralParams,
    pub total_debt: UFP128,
}

impl CollateralType {
    /// The same type with another total debt.
    pub open spec fn with_total(self, raw: nat) -> CollateralType {
        CollateralType { total_debt: UFP128::from_raw(raw), ..self }
    }
}

/// The registered collateral types, each found by its id.
#[derive(Clone, Debug)]
pub struct CollateralRegistry {
    types: Vec<CollateralType>,
}

impl View for CollateralRegistry {
    type V = Seq<CollateralType>;

    closed spec fn view(&self) -> Seq<CollateralType> {
        self.types@
    }
}

impl CollateralRegistry {
    /// Ids are given in sequence and every type's configuration is valid.
    pub open spec fn wf(&self) -> bool {
        forall|i: int|
            0 <= i < self@.len() ==> {
                &&& (#[trigger] self@[i]).collateral_type_id as int == i
                &&& self@[i].params.valid()
            }
    }

    /// A registry without types.
    pub fn new() -> (r: CollateralRegistry)
        ensures
            r@.len() == 0,
            r.wf(),
    {
        CollateralRegistry { types: Vec::new() }
    }

    /// The number of registered types, which is the next id.
    pub fn len(&self) -> (r: u64)
        ensures
            r as nat == self@.len(),
    {
        self.types.len() as u64
    }

    /// Registers a type with no debt under the next id, or rejects an
    /// invalid configuration.
    pub fn register(&mut self, params: CollateralParams) -> (r: Result<u64, Error>)
        requires
            old(self).wf(),
        ensures
            final(self).wf(),
            params.valid() ==> r == Ok::<u64, Error>(old(self)@.len() as u64)
                && final(self)@ == old(self)@.push(
                CollateralType {
                    collateral_type_id: old(self)@.len() as u64,
                    params,
                    total_debt: UFP128::from_raw(0),
                },
            ),
            !params.valid() ==> r == Err::<u64, Error>(Error::InvalidConfig) && final(self)@ == old(self)@,
    {
        let one: u128 = 0x1_0000_0000_0000_0000;
        if fp_to_u128(params.collateral_ratio) < one {
            return Err(Error::InvalidConfig);
        }
        if fp_to_u128(params.debt_floor) > fp_to_u128(params.debt_ceiling) {
            return Err(Error::InvalidConfig);
        }
        let id: u64 = self.types.len() as u64;
        self.types.push(CollateralType { collateral_type_id: id, params, total_debt: u128_to_fp(0) });
        Ok(id)
    }

    /// Adds `delta` to the total debt of type `id`, unless the new total
    /// would pass the type's debt ceiling.
    pub fn charge_debt(&mut self, id: u64, delta: UFP128) -> (r: Result<(), Error>)
        requires
            old(self).wf(),
        ensures
            final(self).wf(),
            r == old(self).charge_result(id, delta.raw()),
            r is Ok ==> final(self)@ == old(self)@.update(
                id as int,
                old(self)@[id as int].with_total(
                    old(self)@[id as int].total_debt.raw() + delta.raw(),
                ),
            ),
            r is Err ==> final(self)@ == old(self)@,
    {
        if (id as u128) >= (self.types.len() as u128) {
            return Err(Error::UnknownCollateralType);
        }
        let t: CollateralType = self.types[id as usize];
        let total: u128 = fp_to_u128(t.total_debt);
        let ceiling: u128 = fp_to_u128(t.params.debt_ceiling);
        let d: u128 = fp_to_u128(delta);
        if total > ceiling || d > ceiling - total {
            return Err(Error::DebtCeilingExceeded);
        }
        self.types.set(id as usize, CollateralType { total_debt: u128_to_fp(total + d), ..t });
        Ok(())
    }

    /// What `charge_debt` answers for a raw amount `delta`.
    pub open spec fn charge_result(&self, id: u64, delta: nat) -> Result<(), Error> {
        if id as nat >= self@.len() {
            Err(Error::UnknownCollateralType)
        } else if self@[id as int].total_debt.raw() + delta
            > self@[id as int].params.debt_ceiling.raw() {
            Err(Error::DebtCeilingExceeded)
        } else {
            Ok(())
        }
    }

    /// Takes `delta` from the total debt of type `id`; the total never goes
    /// below zero.
    pub fn release_debt(&mut self, id: u64, delta: UFP128) -> (r: Result<(), Error>)
        requires
            old(self).wf(),
        ensures
            final(self).wf(),
            (id as nat) >= old(self)@.len() ==> r == Err::<(), Error>(Error::UnknownCollateralType)
                && final(self)@ == old(self)@,
            (id as nat) < old(self)@.len() ==> r == Ok::<(), Error>(()) && final(self)@ == old(self)@.update(
                id as int,
                old(self)@[id as int].with_total(
                    (old(self)@[id as int].total_debt.raw() - least(
                        delta.raw(),
                        old(self)@[id as int].total_debt.raw(),
                    )) as nat,
                ),
            ),
    {
        if (id as u128) >= (self.types.len() as u128) {
            return Err(Error::UnknownCollateralType);
        }
        let t: CollateralType = self.types[id as usize];
        let total: u128 = fp_to_u128(t.total_debt);
        let d: u128 = fp_to_u128(delta);
        let taken: u128 = if d <= total {
            d
        } else {
            total
        };
        self.types.set(id as usize, CollateralType { total_debt: u128_to_fp(total - taken), ..t });
        Ok(())
    }

    /// Adds accrued interest `delta` to the total debt of type `id`. The
    /// ceiling does not bound interest; the total is held at the largest
    /// raw value.
    pub fn accrue_debt(&mut self, id: u64, delta: UFP128) -> (r: Result<(), Error>)
        requires
            old(self).wf(),
        ensures
            final(self).wf(),
            (id as nat) >= old(self)@.len() ==> r == Err::<(), Error>(Error::UnknownCollateralType)
                && final(self)@ == old(self)@,
            (id as nat) < old(self)@.len() ==> r == Ok::<(), Error>(()) && final(self)@ == old(self)@.update(
                id as int,
                old(self)@[id as int].with_total(
                    least(old(self)@[id as int].total_debt.raw() + delta.raw(), max_raw()),
                ),
            ),
    {
        if (id as u128) >= (self.types.len() as u128) {
            return Err(Error::UnknownCollateralType);
        }
        let t: CollateralType = self.types[id as usize];
        let total: u128 = fp_to_u128(t.total_debt);
        let d: u128 = fp_to_u128(delta);
        let sum: u128 = if d <= u128::MAX - total {
            total + d
        } else {
            u128::MAX
        };
        self.types.set(id as usize, CollateralType { total_debt: u128_to_fp(sum), ..t });
        Ok(())
    }

    /// The type registered under `id`.
    pub fn get(&self, id: u64) -> (r: Result<CollateralType, Error>)
        ensures
            (id as nat) < self@.len() ==> r == Ok::<CollateralType, Error>(self@[id as int]),
            (id as nat) >= self@.len() ==> r == Err::<CollateralType, Error>(
                Error::UnknownCollateralType,
            ),
    {
        if (id as u128) < (self.types.len() as u128) {
            Ok(self.types[id as usize])
        } else {
            Err(Error::UnknownCollateralType)
        }
    }
}

} // verus!
