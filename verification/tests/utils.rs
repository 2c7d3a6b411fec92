use sdk_utils::fixed_point::{u128_to_fp, u64_to_fp};
use sdk_utils::types::Bits256;
use sdk_utils::utils::{
    get_id_key, get_storage_val, int_to_hex, set_slot, set_storage_val, slot_value, write_fp,
    StorageSlot,
};

const DIGEST_STORAGE_0: &str = "f383b0ce51358be57daa3b725fe44acdb2d880604e367199080b4379c41bb6ed";
const DIGEST_UPPER: &str = "bc9348da9e88c7c0cea7fb648e3e4e37106bef446cf0f2123d865a4f8e3045e8";
const DIGEST_LOWER: &str = "7e3d2921c452323764fc5cee8fc51ffe2bf6e410f1d7c7ba1a2767521740b282";

fn slot(key: &str, value: &str) -> StorageSlot {
    StorageSlot { key: key.to_string(), value: value.to_string() }
}

#[test]
fn int_to_hex_pads_to_64_digits() {
    assert_eq!(int_to_hex(255), format!("00000000000000ff{}", "0".repeat(48)));
    assert_eq!(int_to_hex(0), "0".repeat(64));
    assert_eq!(int_to_hex(u64::MAX), format!("ffffffffffffffff{}", "0".repeat(48)));
    assert_eq!(int_to_hex(0x0123_4567_89ab_cdef), format!("0123456789abcdef{}", "0".repeat(48)));
    assert_eq!(int_to_hex(3), format!("{:016x}{}", 3, "0".repeat(48)));
}

#[test]
fn id_key_is_prefixed_hex() {
    let id = Bits256 { a: 1, b: 0xff, c: 0, d: 0xabcd };
    assert_eq!(
        get_id_key(&id),
        "0x000000000000000100000000000000ff0000000000000000000000000000abcd"
    );
    assert_eq!(get_id_key(&Bits256 { a: 0, b: 0, c: 0, d: 0 }), format!("0x{}", "0".repeat(64)));
}

#[test]
fn storage_value_is_found_by_digest_of_name() {
    let slots = vec![slot("00", "first"), slot(DIGEST_STORAGE_0, "second"), slot("11", "third")];
    assert_eq!(get_storage_val(&slots, "storage_0"), Some("second".to_string()));
    assert_eq!(get_storage_val(&slots, "storage_1"), None);
    // The name itself is no key.
    let plain = vec![slot("storage_0", "x")];
    assert_eq!(get_storage_val(&plain, "storage_0"), None);
}

#[test]
fn slot_value_takes_the_first_match() {
    let slots = vec![slot("k", "one"), slot("k", "two")];
    assert_eq!(slot_value(&slots, &"k".to_string()), Some("one".to_string()));
    assert_eq!(slot_value(&slots, &"q".to_string()), None);
    assert_eq!(slot_value(&Vec::new(), &"k".to_string()), None);
}

#[test]
fn set_slot_reports_whether_it_edited() {
    let mut slots = vec![slot("a", "1"), slot("k", "one"), slot("k", "two")];
    assert_eq!(set_slot(&mut slots, &"k".to_string(), "one"), Some(false));
    assert_eq!(slots[1].value, "one");
    assert_eq!(set_slot(&mut slots, &"k".to_string(), "new"), Some(true));
    assert_eq!(slots[0].value, "1");
    assert_eq!(slots[1].key, "k");
    assert_eq!(slots[1].value, "new");
    assert_eq!(slots[2].value, "two");
    assert_eq!(set_slot(&mut slots, &"zz".to_string(), "new"), None);
    assert_eq!(slots.len(), 3);
}

#[test]
fn set_storage_val_goes_by_digest() {
    let mut slots = vec![slot(DIGEST_STORAGE_0, "old"), slot("other", "keep")];
    assert_eq!(set_storage_val(&mut slots, "storage_0", "new"), Some(true));
    assert_eq!(slots[0].key, DIGEST_STORAGE_0);
    assert_eq!(slots[0].value, "new");
    assert_eq!(slots[1].value, "keep");
    assert_eq!(set_storage_val(&mut slots, "storage_0", "new"), Some(false));
    assert_eq!(set_storage_val(&mut slots, "storage_9", "new"), None);
    assert_eq!(slots[0].value, "new");
}

#[test]
fn write_fp_fills_both_words() {
    let mut slots = vec![slot(DIGEST_LOWER, ""), slot(DIGEST_UPPER, "")];
    assert!(write_fp(&mut slots, "storage_3_0", &u128_to_fp(0b11 << 63)));
    assert_eq!(slots[1].value, int_to_hex(1));
    assert_eq!(slots[0].value, int_to_hex(1 << 63));
    assert_eq!(slots[0].value, format!("8000000000000000{}", "0".repeat(48)));
}

#[test]
fn write_fp_reports_a_missing_word() {
    let mut slots = vec![slot(DIGEST_UPPER, "")];
    assert!(!write_fp(&mut slots, "storage_3_0", &u64_to_fp(2)));
    assert_eq!(slots[0].value, int_to_hex(2));
    let mut none: Vec<StorageSlot> = Vec::new();
    assert!(!write_fp(&mut none, "storage_3_0", &u64_to_fp(2)));
}
