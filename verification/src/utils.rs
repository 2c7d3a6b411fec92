//! Hexadecimal text for numbers and identifiers, and the storage slots
//! that are found by the SHA-256 digest of their name.

use vstd::prelude::*;
use vstd::string::StringExecFns;
use sha2::{Digest, Sha256};
use crate::fixed_point::UFP128;
use crate::types::Bits256;

verus! {

/// The sixteen hexadecimal digits, in lower case.
pub open spec fn hex_digits() -> Seq<char> {
    seq!['0', '1', '2', '3', '4', '5', '6', '7', '8', '9', 'a', 'b', 'c', 'd', 'e', 'f']
}

/// Sixteen to the power `k`.
pub open spec fn pow16(k: nat) -> nat
    decreases k,
{
    if k == 0 {
        1
    } else {
        16 * pow16((k - 1) as nat)
    }
}

/// The sixteen hexadecimal digits of `num`, the highest first.
pub open spec fn hex16(num: u64) -> Seq<char> {
    Seq::new(16, |i: int| hex_digits()[(num as nat / pow16((15 - i) as nat)) as int % 16])
}

/// The text of `int_to_hex`: the sixteen digits of `num`, then 48 zeros.
pub open spec fn padded_hex(num: u64) -> Seq<char> {
    hex16(num) + Seq::new(48, |i: int| '0')
}

/// The hexadecimal digit for a number below sixteen, as text.
fn digit(n: u64) -> (r: &'static str)
    requires
        n < 16,
    ensures
        r@ == seq![hex_digits()[n as int]],
{
    if n == 0 {
        proof {
            reveal_strlit("0");
        }
        assert("0"@ =~= seq![hex_digits()[n as int]]);
        "0"
    } else if n == 1 {
        proof {
            reveal_strlit("1");
        }
        assert("1"@ =~= seq![hex_digits()[n as int]]);
        "1"
    } else if n == 2 {
        proof {
            reveal_strlit("2");
        }
        assert("2"@ =~= seq![hex_digits()[n as int]]);
        "2"
    } else if n == 3 {
        proof {
            reveal_strlit("3");
        }
        assert("3"@ =~= seq![hex_digits()[n as int]]);
        "3"
    } else if n == 4 {
        proof {
            reveal_strlit("4");
        }
        assert("4"@ =~= seq![hex_digits()[n as int]]);
        "4"
    } else if n == 5 {
        proof {
            reveal_strlit("5");
        }
        assert("5"@ =~= seq![hex_digits()[n as int]]);
        "5"
    } else if n == 6 {
        proof {
            reveal_strlit("6");
        }
        assert("6"@ =~= seq![hex_digits()[n as int]]);
        "6"
    } else if n == 7 {
        proof {
            reveal_strlit("7");
        }
        assert("7"@ =~= seq![hex_digits()[n as int]]);
        "7"
    } else if n == 8 {
        proof {
            reveal_strlit("8");
        }
        assert("8"@ =~= seq![hex_digits()[n as int]]);
        "8"
    } else if n == 9 {
        proof {
            reveal_strlit("9");
        }
        assert("9"@ =~= seq![hex_digits()[n as int]]);
        "9"
    } else if n == 10 {
        proof {
            reveal_strlit("a");
        }
        assert("a"@ =~= seq![hex_digits()[n as int]]);
        "a"
    } else if n == 11 {
        proof {
            reveal_strlit("b");
        }
        assert("b"@ =~= seq![hex_digits()[n as int]]);
        "b"
    } else if n == 12 {
        proof {
            reveal_strlit("c");
        }
        assert("c"@ =~= seq![hex_digits()[n as int]]);
        "c"
    } else if n == 13 {
        proof {
            reveal_strlit("d");
        }
        assert("d"@ =~= seq![hex_digits()[n as int]]);
        "d"
    } else if n == 14 {
        proof {
            reveal_strlit("e");
        }
        assert("e"@ =~= seq![hex_digits()[n as int]]);
        "e"
    } else {
        proof {
            reveal_strlit("f");
        }
        assert("f"@ =~= seq![hex_digits()[n as int]]);
        "f"
    }
}

proof fn lemma_pow16_top()
    ensures
        pow16(15) == 0x1000_0000_0000_0000,
{
    reveal_with_fuel(pow16, 17);
}

/// Puts the sixteen hexadecimal digits of `num` at the end of `out`.
fn push_hex16(out: &mut String, num: u64)
    ensures
        final(out)@ == old(out)@ + hex16(num),
{
    let ghost before = out@;
    let mut d: u64 = 0x1000_0000_0000_0000;
    let mut i: usize = 0;
    proof {
        lemma_pow16_top();
    }
    while i < 16
        invariant
            i <= 16,
            i < 16 ==> d as nat == pow16((15 - i) as nat),
            out@.len() == before.len() + i,
            forall|j: int| 0 <= j < before.len() ==> out@[j] == before[j],
            forall|j: int| 0 <= j < i ==> out@[before.len() + j] == hex16(num)[j],
        decreases 16 - i,
    {
        proof {
            assert(pow16((15 - i) as nat) > 0) by {
                lemma_pow16_positive((15 - i) as nat);
            }
        }
        let n: u64 = (num / d) % 16;
        out.append(digit(n));
        proof {
            if i < 15 {
                assert(pow16((15 - i) as nat) == 16 * pow16((14 - i) as nat));
            }
        }
        d = d / 16;
        i = i + 1;
    }
    proof {
        assert(out@ =~= before + hex16(num));
    }
}

proof fn lemma_pow16_positive(k: nat)
    ensures
        pow16(k) > 0,
    decreases k,
{
    if k > 0 {
        lemma_pow16_positive((k - 1) as nat);
    }
}

/// The number `num` as 64 hexadecimal digits: its own sixteen, then 48
/// zeros.
pub fn int_to_hex(num: u64) -> (r: String)
    ensures
        r@ == padded_hex(num),
{
    let mut out: String = String::new();
    push_hex16(&mut out, num);
    let mut i: usize = 0;
    while i < 48
        invariant
            i <= 48,
            out@ == hex16(num) + Seq::new(i as nat, |j: int| '0'),
        decreases 48 - i,
    {
        proof {
            reveal_strlit("0");
        }
        out.append("0");
        i = i + 1;
        proof {
            assert(out@ =~= hex16(num) + Seq::new(i as nat, |j: int| '0'));
        }
    }
    out
}

/// The text of `get_id_key`: `0x`, then the 64 hexadecimal digits of the
/// identifier.
pub open spec fn id_key(id: Bits256) -> Seq<char> {
    seq!['0', 'x'] + hex16(id.a) + hex16(id.b) + hex16(id.c) + hex16(id.d)
}

/// The identifier `asset_id` as `0x` and 64 hexadecimal digits.
pub fn get_id_key(asset_id: &Bits256) -> (r: String)
    ensures
        r@ == id_key(*asset_id),
{
    let mut out: String = String::new();
    proof {
        reveal_strlit("0x");
    }
    out.append("0x");
    assert(out@ =~= seq!['0', 'x']);
    push_hex16(&mut out, asset_id.a);
    push_hex16(&mut out, asset_id.b);
    push_hex16(&mut out, asset_id.c);
    push_hex16(&mut out, asset_id.d);
    out
}

/// The SHA-256 digest of the UTF-8 bytes of a text, as the text of its
/// hexadecimal digits in lower case.
pub uninterp spec fn sha256_hex(input: Seq<char>) -> Seq<char>;

/// Calls `Sha256::new`, `update` and `finalize` of the crate sha2 on the
/// bytes of `input` and formats the digest with `{:x}`. The contract
/// claims only that the result is a function of the input: it names the
/// result `sha256_hex`.
#[verifier::external_body]
fn sha256(input: &str) -> (r: String)
    ensures
        r@ == sha256_hex(input@),
{
    let mut hasher = Sha256::new();
    hasher.update(input.as_bytes());
    let result = hasher.finalize();
    format!("{:x}", result)
}

/// One storage slot: the digest of its name, and its value.
#[derive(Clone, Debug)]
pub struct StorageSlot {
    pub key: String,
    pub value: String,
}

/// The keys and values of the slots as texts.
pub open spec fn slot_texts(slots: Seq<StorageSlot>) -> Seq<(Seq<char>, Seq<char>)> {
    Seq::new(slots.len(), |i: int| (slots[i].key@, slots[i].value@))
}

/// Whether `i` is the first slot whose key is `hash`.
pub open spec fn is_first(slots: Seq<(Seq<char>, Seq<char>)>, hash: Seq<char>, i: int) -> bool {
    &&& 0 <= i < slots.len()
    &&& slots[i].0 == hash
    &&& forall|j: int| 0 <= j < i ==> slots[j].0 != hash
}

/// Whether some slot has the key `hash`.
pub open spec fn has_slot(slots: Seq<(Seq<char>, Seq<char>)>, hash: Seq<char>) -> bool {
    exists|i: int| 0 <= i < slots.len() && slots[i].0 == hash
}

/// The index of the first slot whose key is `hash`.
fn find_slot(slots: &Vec<StorageSlot>, hash: &String) -> (r: Option<usize>)
    ensures
        match r {
            Some(i) => is_first(slot_texts(slots@), hash@, i as int),
            None => !has_slot(slot_texts(slots@), hash@),
        },
{
    let mut i: usize = 0;
    while i < slots.len()
        invariant
            i <= slots@.len(),
            forall|j: int| 0 <= j < i ==> slot_texts(slots@)[j].0 != hash@,
        decreases slots@.len() - i,
    {
        if slots[i].key == *hash {
            return Some(i);
        }
        i = i + 1;
    }
    None
}

/// The value of the first slot whose key is `hash`, if there is one.
pub fn slot_value(slots: &Vec<StorageSlot>, hash: &String) -> (r: Option<String>)
    ensures
        match r {
            Some(v) => exists|i: int|
                is_first(slot_texts(slots@), hash@, i) && v@ == slot_texts(slots@)[i].1,
            None => !has_slot(slot_texts(slots@), hash@),
        },
{
    match find_slot(slots, hash) {
        None => None,
        Some(i) => {
            let v: String = slots[i].value.clone();
            proof {
                assert(is_first(slot_texts(slots@), hash@, i as int));
            }
            Some(v)
        },
    }
}

/// The value of the slot named `key`: of the first slot whose key is the
/// SHA-256 digest of `key`, if there is one.
pub fn get_storage_val(slots: &Vec<StorageSlot>, key: &str) -> (r: Option<String>)
    ensures
        match r {
            Some(v) => exists|i: int|
                is_first(slot_texts(slots@), sha256_hex(key@), i) && v@ == slot_texts(slots@)[i].1,
            None => !has_slot(slot_texts(slots@), sha256_hex(key@)),
        },
{
    let hash: String = sha256(key);
    slot_value(slots, &hash)
}

/// The slots once the first slot whose key is `hash` has the value
/// `value`; without such a slot, the slots as they are.
pub open spec fn slots_with(
    slots: Seq<(Seq<char>, Seq<char>)>,
    hash: Seq<char>,
    value: Seq<char>,
) -> Seq<(Seq<char>, Seq<char>)> {
    if has_slot(slots, hash) {
        slots.update(choose|i: int| is_first(slots, hash, i), (hash, value))
    } else {
        slots
    }
}

/// The first slot with a key is the only first one.
proof fn lemma_first_is_one(slots: Seq<(Seq<char>, Seq<char>)>, hash: Seq<char>, i: int)
    requires
        is_first(slots, hash, i),
    ensures
        has_slot(slots, hash),
        (choose|k: int| is_first(slots, hash, k)) == i,
{
    let k = choose|k: int| is_first(slots, hash, k);
    assert(is_first(slots, hash, k));
    if k < i {
        assert(slots[k].0 != hash);
    }
    if i < k {
        assert(slots[i].0 != hash);
    }
}

/// Gives the first slot whose key is `hash` the value `value`. Returns
/// whether that changed the value, or `None` where there is no such slot.
pub fn set_slot(slots: &mut Vec<StorageSlot>, hash: &String, value: &str) -> (r: Option<bool>)
    ensures
        slot_texts(final(slots)@) == slots_with(slot_texts(old(slots)@), hash@, value@),
        match r {
            Some(edited) => exists|i: int|
                is_first(slot_texts(old(slots)@), hash@, i) && edited == (slot_texts(
                    old(slots)@,
                )[i].1 != value@),
            None => !has_slot(slot_texts(old(slots)@), hash@),
        },
{
    match find_slot(slots, hash) {
        None => None,
        Some(i) => {
            let fresh: String = value.to_owned();
            let edited: bool = !(slots[i].value == fresh);
            let key: String = slots[i].key.clone();
            proof {
                lemma_first_is_one(slot_texts(slots@), hash@, i as int);
            }
            slots.set(i, StorageSlot { key, value: fresh });
            proof {
                assert(slot_texts(slots@) =~= slots_with(slot_texts(old(slots)@), hash@, value@));
            }
            Some(edited)
        },
    }
}

/// Gives the slot named `key` the value `value`: the first slot whose
/// key is the SHA-256 digest of `key`. Returns whether that changed the
/// value, or `None` where there is no such slot.
pub fn set_storage_val(slots: &mut Vec<StorageSlot>, key: &str, value: &str) -> (r: Option<bool>)
    ensures
        slot_texts(final(slots)@) == slots_with(
            slot_texts(old(slots)@),
            sha256_hex(key@),
            value@,
        ),
        match r {
            Some(edited) => exists|i: int|
                is_first(slot_texts(old(slots)@), sha256_hex(key@), i) && edited == (slot_texts(
                    old(slots)@,
                )[i].1 != value@),
            None => !has_slot(slot_texts(old(slots)@), sha256_hex(key@)),
        },
{
    let hash: String = sha256(key);
    set_slot(slots, &hash, value)
}

/// The name of the slot that holds the upper word of the fixed-point
/// number named `key`.
pub open spec fn upper_name(key: Seq<char>) -> Seq<char> {
    key + seq!['_', '0', '_', '0']
}

/// The name of the slot that holds the lower word of the fixed-point
/// number named `key`.
pub open spec fn lower_name(key: Seq<char>) -> Seq<char> {
    key + seq!['_', '0', '_', '1']
}

/// Writes the fixed-point number `value` into the two slots named
/// `key` with `_0_0` and `_0_1` behind it: the upper word, then the
/// lower, each as 64 hexadecimal digits. A slot that is missing is left
/// out; the result says whether both were there.
pub fn write_fp(slots: &mut Vec<StorageSlot>, key: &str, value: &UFP128) -> (r: bool)
    ensures
        ({
            let first = slots_with(
                slot_texts(old(slots)@),
                sha256_hex(upper_name(key@)),
                padded_hex(value.value.upper),
            );
            &&& slot_texts(final(slots)@) == slots_with(
                first,
                sha256_hex(lower_name(key@)),
                padded_hex(value.value.lower),
            )
            &&& r == (has_slot(slot_texts(old(slots)@), sha256_hex(upper_name(key@))) && has_slot(
                first,
                sha256_hex(lower_name(key@)),
            ))
        }),
{
    proof {
        reveal_strlit("_0_0");
        reveal_strlit("_0_1");
    }
    let upper: String = key.to_owned().concat("_0_0");
    let lower: String = key.to_owned().concat("_0_1");
    assert(upper@ =~= upper_name(key@));
    assert(lower@ =~= lower_name(key@));
    let a: Option<bool> = set_storage_val(slots, upper.as_str(), int_to_hex(value.value.upper).as_str());
    let b: Option<bool> = set_storage_val(slots, lower.as_str(), int_to_hex(value.value.lower).as_str());
    a.is_some() && b.is_some()
}

} // verus!
