//! The identities that may open vaults of a collateral type that asks for
//! an allow-list.

use vstd::prelude::*;
use crate::types::Identity;

verus! {

/// A set of identities.
#[derive(Clone, Debug)]
pub struct Allowlist {
    members: Vec<Identity>,
}

impl View for Allowlist {
    type V = Set<Identity>;

    closed spec fn view(&self) -> Set<Identity> {
        Set::new(|id: Identity| self.members@.contains(id))
    }
}

impl Allowlist {
    /// The empty list.
    pub fn new() -> (r: Allowlist)
        ensures
            r@ =~= Set::<Identity>::empty(),
    {
        Allowlist { members: Vec::new() }
    }

    /// Whether `id` is on the list.
    pub fn get_allowlist(&self, id: Identity) -> (r: bool)
        ensures
            r == self@.contains(id),
    {
        let mut i: usize = 0;
        while i < self.members.len()
            invariant
                i <= self.members@.len(),
                forall|j: int| 0 <= j < i ==> self.members@[j] != id,
            decreases self.members@.len() - i,
        {
            if self.members[i] == id {
                return true;
            }
            i = i + 1;
        }
        false
    }

    /// Puts `id` on the list (`value` true) or takes it off (`value`
    /// false); every other identity stays as it was.
    pub fn set_allowlist(&mut self, id: Identity, value: bool)
        ensures
            value ==> final(self)@ =~= old(self)@.insert(id),
            !value ==> final(self)@ =~= old(self)@.remove(id),
    {
        let mut kept: Vec<Identity> = Vec::new();
        let mut i: usize = 0;
        while i < self.members.len()
            invariant
                i <= self.members@.len(),
                forall|x: Identity|
                    kept@.contains(x) <==> (x != id && exists|j: int|
                        0 <= j < i && self.members@[j] == x),
            decreases self.members@.len() - i,
        {
            let m: Identity = self.members[i];
            let ghost before = kept@;
            if m != id {
                kept.push(m);
                proof {
                    assert(kept@[kept@.len() - 1] == m);
                    assert forall|x: Identity|
                        kept@.contains(x) <==> (x != id && exists|j: int|
                            0 <= j < i + 1 && self.members@[j] == x) by {
                        if kept@.contains(x) {
                            let k = choose|k: int| 0 <= k < kept@.len() && kept@[k] == x;
                            if k < before.len() {
                                assert(before[k] == x);
                                assert(before.contains(x));
                            } else {
                                assert(self.members@[i as int] == x);
                            }
                        }
                        if x != id && exists|j: int| 0 <= j < i + 1 && self.members@[j] == x {
                            let j = choose|j: int| 0 <= j < i + 1 && self.members@[j] == x;
                            if j < i {
                                assert(before.contains(x));
                                let k = choose|k: int| 0 <= k < before.len() && before[k] == x;
                                assert(kept@[k] == x);
                            } else {
                                assert(kept@[kept@.len() - 1] == x);
                            }
                        }
                    }
                }
            }
            i = i + 1;
        }
        let ghost filtered = kept@;
        let ghost before = self.members@;
        if value {
            kept.push(id);
        }
        proof {
            assert forall|x: Identity|
                kept@.contains(x) <==> ((x != id && before.contains(x)) || (value && x == id)) by {
                if kept@.contains(x) {
                    let k = choose|k: int| 0 <= k < kept@.len() && kept@[k] == x;
                    if k < filtered.len() {
                        assert(filtered[k] == x);
                        assert(filtered.contains(x));
                        let j = choose|j: int| 0 <= j < before.len() && before[j] == x;
                        assert(before[j] == x);
                    }
                }
                if x != id && before.contains(x) {
                    let j = choose|j: int| 0 <= j < before.len() && before[j] == x;
                    assert(filtered.contains(x));
                    let k = choose|k: int| 0 <= k < filtered.len() && filtered[k] == x;
                    assert(kept@[k] == x);
                }
                if value && x == id {
                    assert(kept@[kept@.len() - 1] == x);
                }
            }
        }
        self.members = kept;
        proof {
            if value {
                assert forall|x: Identity| self@.contains(x) == old(self)@.insert(id).contains(
                    x,
                ) by {
                    assert(self@.contains(x) == kept@.contains(x));
                    assert(old(self)@.contains(x) == before.contains(x));
                }
            }
        }
    }
}

} // verus!
