//! The entry points of the vault engine: a registry and a ledger held
//! together, and one function for each operation.

use vstd::prelude::*;
use crate::auction::AuctionEngine;
use crate::fixed_point::{fp_to_u64, least, max_raw, scaled, whole, UFP128};
use crate::registry::{CollateralParams, CollateralRegistry, CollateralType};
use crate::types::{Bits256, Effect, Error, Identity};
use crate::vault::{debt_sum, lemma_debt_sum_none, surplus_effects, Vault, VaultLedger};

verus! {

/// The vault engine: the collateral registry and the vault ledger.
#[derive(Clone, Debug)]
pub struct CDP {
    pub registry: CollateralRegistry,
    pub ledger: VaultLedger,
}

impl CDP {
    /// The ledger fits the registry.
    pub open spec fn wf(&self) -> bool {
        self.ledger.wf(&self.registry)
    }

    /// The vault `vault_id`.
    pub open spec fn vault(&self, vault_id: u64) -> Vault {
        self.ledger.vaults()[vault_id as int]
    }

    /// The type of the vault `vault_id`.
    pub open spec fn type_of(&self, vault_id: u64) -> CollateralType {
        self.ledger.type_of(&self.registry, vault_id)
    }

    /// Whether there is a vault `vault_id`.
    pub open spec fn has(&self, vault_id: u64) -> bool {
        (vault_id as nat) < self.ledger.vaults().len()
    }

    /// Nothing has changed since `before`.
    pub open spec fn unchanged(&self, before: &CDP) -> bool {
        self.ledger.unchanged(self.registry@, &before.ledger, before.registry@)
    }

    /// Nothing has changed since `before` but the vault `vault_id`, which
    /// is now `v`, and the total debt of its type.
    pub open spec fn replaced(&self, before: &CDP, vault_id: u64, v: Vault) -> bool {
        self.ledger.replaced(self.registry@, &before.ledger, before.registry@, vault_id, v)
    }
}

/// A vault engine without collateral types or vaults, which pays debt out
/// in the asset `stable`.
pub fn init_custom_cdp(stable: Bits256) -> (r: CDP)
    ensures
        r.wf(),
        r.registry@.len() == 0,
        r.ledger.vaults().len() == 0,
        r.ledger.allowed() =~= Set::<Identity>::empty(),
        r.ledger.liquidator() is None,
        r.ledger.stable() == stable,
{
    CDP { registry: CollateralRegistry::new(), ledger: VaultLedger::new(stable) }
}

/// Names the identity that may liquidate vaults.
pub fn set_liquidator(instance: &mut CDP, liquidator: Identity)
    requires
        old(instance).wf(),
    ensures
        final(instance).wf(),
        final(instance).ledger.liquidator() == Some(liquidator),
        final(instance).ledger.vaults() == old(instance).ledger.vaults(),
        final(instance).ledger.allowed() == old(instance).ledger.allowed(),
        final(instance).ledger.stable() == old(instance).ledger.stable(),
        final(instance).registry@ == old(instance).registry@,
{
    instance.ledger.set_liquidator(liquidator);
}

/// Puts `id` on the allow-list of vault owners or takes it off.
pub fn set_allowlist(instance: &mut CDP, id: Identity, value: bool)
    requires
        old(instance).wf(),
    ensures
        final(instance).wf(),
        value ==> final(instance).ledger.allowed() =~= old(instance).ledger.allowed().insert(id),
        !value ==> final(instance).ledger.allowed() =~= old(instance).ledger.allowed().remove(id),
        final(instance).ledger.vaults() == old(instance).ledger.vaults(),
        final(instance).ledger.liquidator() == old(instance).ledger.liquidator(),
        final(instance).ledger.stable() == old(instance).ledger.stable(),
        final(instance).registry@ == old(instance).registry@,
{
    instance.ledger.set_allowlist(id, value);
}

/// Whether `id` is on the allow-list of vault owners.
pub fn get_allowlist(instance: &CDP, id: Identity) -> (r: bool)
    ensures
        r == instance.ledger.allowed().contains(id),
{
    instance.ledger.get_allowlist(id)
}

/// Registers a collateral type and returns its id, the number of types
/// registered before it. A ratio below one or a floor above the ceiling
/// is rejected with `InvalidConfig`.
pub fn add_collateral_type(
    instance: &mut CDP,
    token: Bits256,
    price_source: Bits256,
    debt_floor: UFP128,
    debt_ceiling: UFP128,
    collateral_ratio: UFP128,
    interest_rate: UFP128,
    borrowing_enabled: bool,
    allowlist_enabled: bool,
) -> (r: Result<u64, Error>)
    requires
        old(instance).wf(),
    ensures
        final(instance).wf(),
        final(instance).ledger.same_settings(&old(instance).ledger),
        final(instance).ledger.vaults() == old(instance).ledger.vaults(),
        ({
            let params = CollateralParams {
                token,
                price_source,
                debt_floor,
                debt_ceiling,
                collateral_ratio,
                interest_rate,
                borrowing_enabled,
                allowlist_enabled,
            };
            &&& params.valid() ==> r == Ok::<u64, Error>(old(instance).registry@.len() as u64)
                && final(instance).registry@ == old(instance).registry@.push(
                CollateralType {
                    collateral_type_id: old(instance).registry@.len() as u64,
                    params,
                    total_debt: UFP128::from_raw(0),
                },
            )
            &&& !params.valid() ==> r == Err::<u64, Error>(Error::InvalidConfig)
                && final(instance).registry@ == old(instance).registry@
        }),
{
    let params = CollateralParams {
        token,
        price_source,
        debt_floor,
        debt_ceiling,
        collateral_ratio,
        interest_rate,
        borrowing_enabled,
        allowlist_enabled,
    };
    let r = instance.registry.register(params);
    proof {
        if r is Ok {
            let t = old(instance).registry@.len();
            lemma_debt_sum_none(instance.ledger.vaults(), t);
            UFP128::lemma_from_raw(0);
            assert forall|k: int| 0 <= k < instance.registry@.len() implies (
            #[trigger] instance.registry@[k]).total_debt.raw() == debt_sum(instance.ledger.vaults(), k as nat) by {
                if k < t {
                    assert(instance.registry@[k] == old(instance).registry@[k]);
                }
            }
        }
    }
    r
}

/// Opens a vault of type `collateral_type_id` with `collateral_amount` of
/// collateral, taken from the caller, for `alt_owner` or else for the
/// caller. Returns the vault's id and the calls to make.
pub fn create_vault(
    instance: &mut CDP,
    caller: Identity,
    collateral_type_id: u64,
    collateral_amount: u64,
    alt_owner: Option<Identity>,
    now: u64,
) -> (r: Result<(u64, Vec<Effect>), Error>)
    requires
        old(instance).wf(),
    ensures
        final(instance).wf(),
        final(instance).registry@ == old(instance).registry@,
        final(instance).ledger.same_settings(&old(instance).ledger),
        ({
            let owner = if alt_owner is Some {
                alt_owner.unwrap()
            } else {
                caller
            };
            match old(instance).ledger.create_error(
                &old(instance).registry,
                owner,
                collateral_type_id,
                collateral_amount,
            ) {
                Some(e) => (r matches Err(x) && x == e) && final(instance).ledger.vaults() == old(instance).ledger.vaults(),
                None => (r matches Ok((id, effects)) && id as nat == old(instance).ledger.vaults().len() && effects@ == seq![
                    Effect::Debit {
                        asset: old(instance).registry@[collateral_type_id as int].params.token,
                        from: caller,
                        amount: collateral_amount,
                    },
                ]) && final(instance).ledger.vaults() == old(instance).ledger.vaults().push(
                    Vault {
                        vault_id: old(instance).ledger.vaults().len() as u64,
                        owner,
                        collateral_type_id,
                        collateral_amount,
                        debt_amount: UFP128::from_raw(0),
                        last_accrual_time: now,
                    },
                ),
            }
        }),
{
    instance.ledger.create_vault(
        &instance.registry,
        caller,
        alt_owner,
        collateral_type_id,
        collateral_amount,
        now,
    )
}

/// Liquidates the vault `vault_id` through the engine `liquidator` if its
/// collateral, at the price `price`, is worth less than its debt times the
/// ratio of its type. Returns the id of the auction that was opened and
/// the calls to make.
pub fn liquidate(
    instance: &mut CDP,
    liquidator: &mut AuctionEngine,
    vault_id: u64,
    now: u64,
    price: Option<UFP128>,
) -> (r: Result<(u64, Vec<Effect>), Error>)
    requires
        old(instance).wf(),
        old(liquidator).wf(),
    ensures
        final(instance).wf(),
        final(liquidator).wf(),
        final(liquidator).same_settings(old(liquidator)),
        match old(liquidator).liquidate_error(
            &old(instance).ledger,
            &old(instance).registry,
            vault_id,
            price,
        ) {
            Some(e) => (r matches Err(x) && x == e) && final(liquidator).auctions() == old(liquidator).auctions() && final(instance).unchanged(old(instance)),
            None => ({
                let v = old(instance).vault(vault_id);
                let ty = old(instance).type_of(vault_id);
                &&& r matches Ok((id, effects)) && id as nat == old(liquidator).auctions().len()
                    && effects@ == seq![
                    Effect::Credit {
                        asset: ty.params.token,
                        to: final(liquidator).identity(),
                        amount: v.collateral_amount,
                    },
                ]
                &&& final(liquidator).auctions() == old(liquidator).auctions().push(
                    old(liquidator).opened(
                        vault_id,
                        ty.params.token,
                        v.collateral_amount,
                        v.debt_amount,
                        now,
                    ),
                )
                &&& final(instance).replaced(old(instance), vault_id, v.emptied())
            }),
        },
{
    liquidator.liquidate(&mut instance.ledger, &mut instance.registry, vault_id, now, price)
}

/// Accrues the interest of the vault `vault_id` up to `now`.
pub fn update_interest(instance: &mut CDP, vault_id: u64, now: u64) -> (r: Result<
    Vec<Effect>,
    Error,
>)
    requires
        old(instance).wf(),
    ensures
        final(instance).wf(),
        !old(instance).has(vault_id) ==> (r matches Err(e) && e == Error::UnknownVault) && final(instance).unchanged(old(instance)),
        old(instance).has(vault_id) ==> ({
            let v = old(instance).vault(vault_id);
            let ty = old(instance).type_of(vault_id);
            &&& final(instance).replaced(old(instance), vault_id, v.accrued(ty, now))
            &&& r matches Ok(effects) && effects@ == surplus_effects(
                v.debt_amount.raw(),
                v.debt_at(ty, now),
            )
        }),
{
    instance.ledger.update_interest(&mut instance.registry, vault_id, now)
}

/// Borrows `amount` of the stable asset against the vault `vault_id` for
/// its owner `caller`, after accruing interest up to `now`. On success
/// the collateral, at the price `price`, covers the new debt times the
/// ratio.
pub fn borrow(
    instance: &mut CDP,
    caller: Identity,
    vault_id: u64,
    amount: u64,
    now: u64,
    price: Option<UFP128>,
) -> (r: Result<Vec<Effect>, Error>)
    requires
        old(instance).wf(),
    ensures
        final(instance).wf(),
        !old(instance).has(vault_id) ==> (r matches Err(e) && e == Error::UnknownVault) && final(instance).unchanged(old(instance)),
        old(instance).has(vault_id) ==> ({
            let v = old(instance).vault(vault_id);
            let ty = old(instance).type_of(vault_id);
            match v.borrow_outcome(ty, caller, amount, now, price) {
                Ok(nv) => (r matches Ok(effects) && effects@ == v.borrow_effects(
                    ty,
                    old(instance).ledger.stable(),
                    amount,
                    now,
                )) && final(instance).replaced(old(instance), vault_id, nv) && nv.healthy(
                    ty,
                    price.unwrap().raw(),
                ),
                Err(e) => (r matches Err(x) && x == e) && final(instance).unchanged(old(instance)),
            }
        }),
{
    instance.ledger.borrow(&mut instance.registry, caller, vault_id, amount, now, price)
}

/// Repays `amount` of the stable asset into the vault `vault_id`, after
/// accruing interest up to `now`. The payer `caller` is charged no more
/// than the debt.
pub fn repay(instance: &mut CDP, caller: Identity, vault_id: u64, amount: u64, now: u64) -> (r:
    Result<Vec<Effect>, Error>)
    requires
        old(instance).wf(),
    ensures
        final(instance).wf(),
        !old(instance).has(vault_id) ==> (r matches Err(e) && e == Error::UnknownVault) && final(instance).unchanged(old(instance)),
        old(instance).has(vault_id) ==> ({
            let v = old(instance).vault(vault_id);
            let ty = old(instance).type_of(vault_id);
            &&& final(instance).replaced(old(instance), vault_id, v.repay_outcome(ty, amount, now))
            &&& r matches Ok(effects) && effects@ == v.repay_effects(
                ty,
                old(instance).ledger.stable(),
                caller,
                amount,
                now,
            )
        }),
{
    instance.ledger.repay(&mut instance.registry, caller, vault_id, amount, now)
}

/// Takes `amount` of collateral out of the vault `vault_id` and pays it to
/// the owner, after accruing interest up to `now`. On success a vault
/// that still has debt is covered at the price `price`.
pub fn remove_collateral(
    instance: &mut CDP,
    vault_id: u64,
    amount: u64,
    now: u64,
    price: Option<UFP128>,
) -> (r: Result<Vec<Effect>, Error>)
    requires
        old(instance).wf(),
    ensures
        final(instance).wf(),
        !old(instance).has(vault_id) ==> (r matches Err(e) && e == Error::UnknownVault) && final(instance).unchanged(old(instance)),
        old(instance).has(vault_id) ==> ({
            let v = old(instance).vault(vault_id);
            let ty = old(instance).type_of(vault_id);
            match v.remove_outcome(ty, amount, now, price) {
                Ok(nv) => (r matches Ok(effects) && effects@ == v.remove_effects(ty, amount, now))
                    && final(instance).replaced(old(instance), vault_id, nv) && (
                nv.debt_amount.raw() > 0 ==> nv.healthy(ty, price.unwrap().raw())),
                Err(e) => (r matches Err(x) && x == e) && final(instance).unchanged(old(instance)),
            }
        }),
{
    instance.ledger.remove_collateral(&mut instance.registry, vault_id, amount, now, price)
}

/// The whole part of the value of the collateral of the vault `vault_id`
/// at the price `price`; the value is held at the largest raw value.
pub fn get_collateral_value(instance: &CDP, vault_id: u64, price: Option<UFP128>) -> (r: Result<
    u64,
    Error,
>)
    ensures
        !instance.has(vault_id) ==> r == Err::<u64, Error>(Error::UnknownVault),
        instance.has(vault_id) && price is None ==> r == Err::<u64, Error>(Error::PriceUnavailable),
        instance.has(vault_id) && price is Some ==> (r matches Ok(value) && value as nat == whole(
            least(
                price.unwrap().raw() * instance.vault(vault_id).collateral_amount as nat,
                max_raw(),
            ),
        )),
{
    match instance.ledger.collateral_value(vault_id, price) {
        Ok(value) => {
            proof {
                UFP128::lemma_from_raw(
                    least(
                        price.unwrap().raw() * instance.vault(vault_id).collateral_amount as nat,
                        max_raw(),
                    ),
                );
            }
            Ok(fp_to_u64(value))
        },
        Err(e) => Err(e),
    }
}

/// The whole part of the debt of the vault `vault_id` as it stands in the
/// ledger.
pub fn get_debt(instance: &CDP, vault_id: u64) -> (r: Result<u64, Error>)
    ensures
        !instance.has(vault_id) ==> r == Err::<u64, Error>(Error::UnknownVault),
        instance.has(vault_id) ==> (r matches Ok(value) && value as nat == whole(
            instance.vault(vault_id).debt_amount.raw(),
        )),
{
    match instance.ledger.debt(vault_id) {
        Ok(value) => Ok(fp_to_u64(value)),
        Err(e) => Err(e),
    }
}

/// The whole part of the collateral value that the debt of the vault
/// `vault_id` asks for: the debt times the ratio of its type, rounded down
/// and held at the largest raw value.
pub fn get_target_collateral_value(instance: &CDP, vault_id: u64) -> (r: Result<u64, Error>)
    requires
        instance.wf(),
    ensures
        !instance.has(vault_id) ==> r == Err::<u64, Error>(Error::UnknownVault),
        instance.has(vault_id) ==> (r matches Ok(value) && value as nat == whole(
            least(
                scaled(
                    instance.vault(vault_id).debt_amount.raw(),
                    instance.type_of(vault_id).params.collateral_ratio.raw(),
                ),
                max_raw(),
            ),
        )),
{
    match instance.ledger.target_collateral_value(&instance.registry, vault_id) {
        Ok(value) => {
            proof {
                UFP128::lemma_from_raw(
                    least(
                        scaled(
                            instance.vault(vault_id).debt_amount.raw(),
                            instance.type_of(vault_id).params.collateral_ratio.raw(),
                        ),
                        max_raw(),
                    ),
                );
            }
            Ok(fp_to_u64(value))
        },
        Err(e) => Err(e),
    }
}

/// The collateral that the vault `vault_id` holds.
pub fn get_collateral_amount(instance: &CDP, vault_id: u64) -> (r: Result<u64, Error>)
    ensures
        !instance.has(vault_id) ==> r == Err::<u64, Error>(Error::UnknownVault),
        instance.has(vault_id) ==> r == Ok::<u64, Error>(
            instance.vault(vault_id).collateral_amount,
        ),
{
    instance.ledger.collateral_amount(vault_id)
}

} // verus!
