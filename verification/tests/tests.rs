// The compiled-type behaviour, exercised through the library's compile
// and instantiate pipeline.

// check that having a `Debug` import doesn't lead to a conflict
#[allow(unused)]
use std::fmt::Debug;

use bitmask_enum::ast::{Expr, FlagVariant};
use bitmask_enum::bitmask::Bitmask;
use bitmask_enum::emitter::BitmaskType;

fn flag(name: &str) -> FlagVariant {
    FlagVariant { name: name.to_string(), explicit_value: None }
}

fn flag_with(name: &str, e: Expr) -> FlagVariant {
    FlagVariant { name: name.to_string(), explicit_value: Some(e) }
}

fn or_refs(a: &str, b: &str) -> Expr {
    Expr::Or(
        Box::new(Expr::Ref(a.to_string())),
        Box::new(Expr::Ref(b.to_string())),
    )
}

fn compile(
    typ: Option<&str>,
    cfg: Option<&[&str]>,
    name: &str,
    variants: Vec<FlagVariant>,
) -> BitmaskType {
    let g = bitmask_enum::bitmask(
        typ.map(|s| s.to_string()),
        cfg.map(|c| c.iter().map(|s| s.to_string()).collect()),
        name.to_string(),
        &variants,
    )
    .unwrap();
    g.instantiate().unwrap()
}

fn eight_flags() -> BitmaskType {
    compile(
        None,
        None,
        "Bitmask",
        vec![
            flag("Flag1"),
            flag("Flag2"),
            flag("Flag3"),
            flag("Flag4"),
            flag("Flag5"),
            flag("Flag6"),
            flag("Flag7"),
            flag("Flag8"),
        ],
    )
}

fn get(bt: &BitmaskType, name: &str) -> Bitmask {
    bt.get(&name.to_string()).unwrap()
}

#[test]
fn tests_test() {
    let bt = eight_flags();
    let mut bm = bt.none();
    assert!(bm.eq_bits(0));

    bm.or_assign(get(&bt, "Flag5"));
    assert_eq!(bm, get(&bt, "Flag5"));

    bm.or_assign(get(&bt, "Flag1").or(get(&bt, "Flag8")));
    assert!(bm.eq_bits(0b10010001));

    bm.and_assign(get(&bt, "Flag1").not().and(get(&bt, "Flag5").not()));
    assert!(bm.eq_bits(0b10000000));

    bm.or_assign(get(&bt, "Flag8").not());
    assert_eq!(bm.is_all_bits(), true);
}

#[test]
fn test_bits() {
    let bt = eight_flags();
    let all = bt.all_bits();
    assert_eq!(all.bits(), usize::MAX as u128);
}

#[test]
fn test_all_bits() {
    let bt = eight_flags();
    let all = bt.all_bits();
    assert_eq!(all.is_all_bits(), true);
    assert!(all.eq_bits(usize::MAX as u128));
}

#[test]
fn test_none() {
    let bt = eight_flags();
    let none = bt.none();
    assert_eq!(none.is_none(), true);
    assert!(none.eq_bits(usize::MIN as u128));
}

#[test]
fn test_all_flags() {
    let bt = eight_flags();
    let all_flags = bt.all_flags();
    assert_eq!(bt.is_all_flags(&all_flags), true);
    assert_eq!(
        all_flags,
        get(&bt, "Flag1")
            .or(get(&bt, "Flag2"))
            .or(get(&bt, "Flag3"))
            .or(get(&bt, "Flag4"))
            .or(get(&bt, "Flag5"))
            .or(get(&bt, "Flag6"))
            .or(get(&bt, "Flag7"))
            .or(get(&bt, "Flag8"))
    );
}

#[test]
fn test_truncate() {
    let bt = eight_flags();
    let all = bt.all_bits();
    assert_eq!(all.is_all_bits(), true);
    assert_eq!(bt.is_all_flags(&all), false);
    assert_eq!(bt.is_all_flags(&bt.truncate(all)), true);
}

#[test]
fn test_intersects() {
    let bt = eight_flags();
    let bm = get(&bt, "Flag4");
    assert_eq!(bm.intersects(get(&bt, "Flag4")), true);
    assert_eq!(bm.intersects(get(&bt, "Flag4").or(get(&bt, "Flag1"))), true);
    assert_eq!(bm.intersects(get(&bt, "Flag1")), false);
}

#[test]
fn test_contains() {
    let bt = eight_flags();
    let bm = get(&bt, "Flag4").or(get(&bt, "Flag6"));
    assert_eq!(bm.contains(get(&bt, "Flag4")), true);
    assert_eq!(bm.contains(get(&bt, "Flag4").or(get(&bt, "Flag6"))), true);
    assert_eq!(bm.contains(get(&bt, "Flag1")), false);
    assert_eq!(bm.contains(get(&bt, "Flag4").or(get(&bt, "Flag1"))), false);
}

#[test]
fn test_from() {
    let bt = eight_flags();
    let mask: u128 = 0b100010;
    let bm = bt.from_bits(mask);

    assert_eq!(bm, get(&bt, "Flag2").or(get(&bt, "Flag6")));

    let value: u128 = bm.bits();
    assert_eq!(value, mask);
}

#[test]
fn test_types() {
    for typ in [
        "usize", "u8", "u16", "u32", "u64", "u128", "isize", "i8", "i16", "i32", "i64",
        "i128",
    ] {
        let bt = compile(Some(typ), None, "BitmaskTyped", vec![flag("Flag1"), flag("Flag2")]);
        assert!(get(&bt, "Flag1").eq_bits(0b01));
        assert!(get(&bt, "Flag2").eq_bits(0b10));
    }
}

fn custom_variants() -> Vec<FlagVariant> {
    vec![
        flag("Flag1"),
        flag("Flag2"),
        flag_with("Flag12", or_refs("Flag1", "Flag2")),
        flag("Flag3"),
        flag_with("Flag123", or_refs("Flag12", "Flag3")),
        flag("Flag4"),
    ]
}

#[test]
fn test_custom() {
    let bt = compile(None, None, "BitmaskCustom", custom_variants());
    assert!(get(&bt, "Flag1").eq_bits(0b1));
    assert!(get(&bt, "Flag2").eq_bits(0b10));
    assert!(get(&bt, "Flag12").eq_bits(0b11));
    assert!(get(&bt, "Flag3").eq_bits(0b100));
    assert!(get(&bt, "Flag123").eq_bits(0b111));
    assert!(get(&bt, "Flag4").eq_bits(0b1000));

    let bt = compile(Some("u8"), None, "BitmaskCustomTyped", custom_variants());
    assert!(get(&bt, "Flag1").eq_bits(0b1));
    assert!(get(&bt, "Flag2").eq_bits(0b10));
    assert!(get(&bt, "Flag12").eq_bits(0b11));
    assert!(get(&bt, "Flag3").eq_bits(0b100));
    assert!(get(&bt, "Flag123").eq_bits(0b111));
    assert!(get(&bt, "Flag4").eq_bits(0b1000));
}

#[test]
fn test_inverted() {
    let bt = compile(
        None,
        Some(&["inverted_flags"]),
        "BitmaskInverted",
        vec![flag("Flag1"), flag("Flag2"), flag("Flag3"), flag("Flag4")],
    );
    assert_eq!(
        get(&bt, "InvertedFlag1"),
        bt.all_bits().xor(get(&bt, "Flag1"))
    );
    assert_eq!(
        get(&bt, "InvertedFlag2"),
        bt.all_bits().xor(get(&bt, "Flag2"))
    );
    assert_eq!(
        get(&bt, "InvertedFlag3"),
        bt.all_bits().xor(get(&bt, "Flag3"))
    );
    assert_eq!(
        get(&bt, "InvertedFlag4"),
        bt.all_bits().xor(get(&bt, "Flag4"))
    );
}

#[test]
fn test_type_with_inverted() {
    let bt = compile(
        Some("usize"),
        Some(&["inverted_flags"]),
        "BitmaskUsize",
        vec![flag("Flag1"), flag("Flag2")],
    );
    assert!(get(&bt, "InvertedFlag1").eq_bits(0b01 ^ (usize::MAX as u128)));
    assert!(get(&bt, "InvertedFlag2").eq_bits(0b10 ^ (usize::MAX as u128)));

    let bt = compile(
        Some("u8"),
        Some(&["inverted_flags"]),
        "BitmaskU8",
        vec![flag("Flag1"), flag("Flag2")],
    );
    assert!(get(&bt, "InvertedFlag1").eq_bits(0b11111110));
    assert!(get(&bt, "InvertedFlag2").eq_bits(0b11111101));

    let bt = compile(
        Some("i16"),
        Some(&["inverted_flags"]),
        "BitmaskI16",
        vec![flag("Flag1"), flag("Flag2")],
    );
    assert!(get(&bt, "InvertedFlag1").eq_bits(0b1111111111111110));
    assert!(get(&bt, "InvertedFlag2").eq_bits(0b1111111111111101));
}

#[test]
fn test_custom_inverted() {
    let bt = compile(
        None,
        Some(&["inverted_flags"]),
        "BitmaskCustom",
        custom_variants(),
    );
    assert!(get(&bt, "Flag1").eq_bits(0b1));
    assert!(get(&bt, "Flag2").eq_bits(0b10));
    assert!(get(&bt, "Flag12").eq_bits(0b11));
    assert!(get(&bt, "Flag3").eq_bits(0b100));
    assert!(get(&bt, "Flag123").eq_bits(0b111));
    assert!(get(&bt, "Flag4").eq_bits(0b1000));
    assert!(get(&bt, "InvertedFlag1").eq_bits((!0b1usize) as u128));
    assert!(get(&bt, "InvertedFlag2").eq_bits((!0b10usize) as u128));
    assert!(get(&bt, "InvertedFlag12").eq_bits((!0b11usize) as u128));
    assert!(get(&bt, "InvertedFlag3").eq_bits((!0b100usize) as u128));
    assert!(get(&bt, "InvertedFlag123").eq_bits((!0b111usize) as u128));
    assert!(get(&bt, "InvertedFlag4").eq_bits((!0b1000usize) as u128));

    let bt = compile(
        Some("u8"),
        Some(&["inverted_flags"]),
        "BitmaskCustomTyped",
        custom_variants(),
    );
    assert!(get(&bt, "Flag1").eq_bits(0b1));
    assert!(get(&bt, "Flag2").eq_bits(0b10));
    assert!(get(&bt, "Flag12").eq_bits(0b11));
    assert!(get(&bt, "Flag3").eq_bits(0b100));
    assert!(get(&bt, "Flag123").eq_bits(0b111));
    assert!(get(&bt, "Flag4").eq_bits(0b1000));
    assert!(get(&bt, "InvertedFlag1").eq_bits((!0b1u8) as u128));
    assert!(get(&bt, "InvertedFlag2").eq_bits((!0b10u8) as u128));
    assert!(get(&bt, "InvertedFlag12").eq_bits((!0b11u8) as u128));
    assert!(get(&bt, "InvertedFlag3").eq_bits((!0b100u8) as u128));
    assert!(get(&bt, "InvertedFlag123").eq_bits((!0b111u8) as u128));
    assert!(get(&bt, "InvertedFlag4").eq_bits((!0b1000u8) as u128));
}

#[test]
fn test_vec_debug() {
    let bt = compile(
        None,
        Some(&["vec_debug"]),
        "BitmaskVecDebug",
        vec![
            flag("Flag1"),
            flag("Flag2"),
            flag_with("Flag12", or_refs("Flag1", "Flag2")),
            flag("Flag3"),
        ],
    );

    assert_eq!(bt.debug_string(&bt.none()), "BitmaskVecDebug[]");
    assert_eq!(bt.debug_string(&get(&bt, "Flag1")), "BitmaskVecDebug[Flag1]");
    assert_eq!(bt.debug_string(&get(&bt, "Flag2")), "BitmaskVecDebug[Flag2]");
    assert_eq!(
        bt.debug_string(&get(&bt, "Flag12")),
        "BitmaskVecDebug[Flag1, Flag2, Flag12]"
    );
    assert_eq!(bt.debug_string(&get(&bt, "Flag3")), "BitmaskVecDebug[Flag3]");
    assert_eq!(
        bt.debug_string(&get(&bt, "Flag2").or(get(&bt, "Flag3"))),
        "BitmaskVecDebug[Flag2, Flag3]"
    );
    assert_eq!(
        bt.debug_string(&bt.all_flags()),
        "BitmaskVecDebug[Flag1, Flag2, Flag12, Flag3]"
    );

    // default formatting
    let bt = eight_flags();
    assert_eq!(bt.debug_string(&bt.none()), "Bitmask { bits: 0 }");
    assert_eq!(bt.debug_string(&get(&bt, "Flag1")), "Bitmask { bits: 1 }");
    assert_eq!(bt.debug_string(&get(&bt, "Flag2")), "Bitmask { bits: 2 }");
    assert_eq!(
        bt.debug_string(&get(&bt, "Flag1").or(get(&bt, "Flag2"))),
        "Bitmask { bits: 3 }"
    );
    assert_eq!(bt.debug_string(&get(&bt, "Flag3")), "Bitmask { bits: 4 }");
}

#[test]
fn test_vec_debug_inverted() {
    let bt = compile(
        Some("u8"),
        Some(&["vec_debug", "inverted_flags"]),
        "BitmaskVecDebug",
        vec![flag("Flag1"), flag("Flag2")],
    );

    assert_eq!(bt.debug_string(&bt.none()), "BitmaskVecDebug[]");
    assert_eq!(bt.debug_string(&get(&bt, "Flag1")), "BitmaskVecDebug[Flag1]");
    assert_eq!(bt.debug_string(&get(&bt, "Flag2")), "BitmaskVecDebug[Flag2]");
    assert_eq!(
        bt.debug_string(&get(&bt, "InvertedFlag1")),
        "BitmaskVecDebug[InvertedFlag1, Flag2]"
    );
    assert_eq!(
        bt.debug_string(&get(&bt, "InvertedFlag2")),
        "BitmaskVecDebug[Flag1, InvertedFlag2]"
    );
    assert_eq!(
        bt.debug_string(&bt.all_flags()),
        "BitmaskVecDebug[Flag1, InvertedFlag1, Flag2, InvertedFlag2]"
    );
}

#[test]
fn test_import_debug() {
    // this should just compile alongside the `Debug` import above
    let bt = compile(
        None,
        None,
        "BitmaskImportDebug",
        vec![flag("Flag1"), flag("Flag2")],
    );
    let _ = bt.debug_string(&bt.none());
}

#[test]
fn test_fields_iter() {
    let bt = compile(
        Some("u8"),
        Some(&["flags_iter"]),
        "BitmaskFlagsIter",
        vec![
            flag("Flag1"),
            flag("Flag2"),
            flag("Flag3"),
            flag_with("FlagCustom", Expr::Lit(123)),
        ],
    );

    let entries: Vec<(&str, u128)> =
        bt.flags().iter().map(|e| (e.name.as_str(), e.value)).collect();
    assert_eq!(
        entries,
        vec![
            ("Flag1", get(&bt, "Flag1").bits()),
            ("Flag2", get(&bt, "Flag2").bits()),
            ("Flag3", get(&bt, "Flag3").bits()),
            ("FlagCustom", get(&bt, "FlagCustom").bits()),
        ],
    );
}

#[test]
fn test_fields_iter_inverted() {
    let bt = compile(
        Some("u8"),
        Some(&["flags_iter", "inverted_flags"]),
        "BitmaskFlagsIter",
        vec![flag("Flag1"), flag_with("FlagCustom", Expr::Lit(123))],
    );

    let entries: Vec<(&str, u128)> =
        bt.flags().iter().map(|e| (e.name.as_str(), e.value)).collect();
    assert_eq!(
        entries,
        vec![
            ("Flag1", get(&bt, "Flag1").bits()),
            ("InvertedFlag1", get(&bt, "InvertedFlag1").bits()),
            ("FlagCustom", get(&bt, "FlagCustom").bits()),
            ("InvertedFlagCustom", get(&bt, "InvertedFlagCustom").bits()),
        ],
    );
}
