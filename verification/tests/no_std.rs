// The full set of configuration toggles on one type, pointer-sized and
// eight-bit.

use bitmask_enum::ast::FlagVariant;
use bitmask_enum::bitmask::Bitmask;
use bitmask_enum::emitter::BitmaskType;

fn flag(name: &str) -> FlagVariant {
    FlagVariant { name: name.to_string(), explicit_value: None }
}

fn compile_all_toggles(typ: Option<&str>, name: &str) -> BitmaskType {
    let g = bitmask_enum::bitmask(
        typ.map(|s| s.to_string()),
        Some(vec![
            "inverted_flags".to_string(),
            "vec_debug".to_string(),
            "flags_iter".to_string(),
        ]),
        name.to_string(),
        &vec![flag("Flag1"), flag("Flag2")],
    )
    .unwrap();
    g.instantiate().unwrap()
}

fn get(bt: &BitmaskType, name: &str) -> Bitmask {
    bt.get(&name.to_string()).unwrap()
}

#[test]
fn no_std_test() {
    let bt = compile_all_toggles(None, "NoStdBitmask");
    let mut bm = bt.none();
    assert!(bm.eq_bits(0));

    bm.or_assign(get(&bt, "Flag1"));
    assert_eq!(bm, get(&bt, "Flag1"));

    bm.or_assign(get(&bt, "InvertedFlag1"));
    assert_eq!(bm.is_all_bits(), true);

    let bt = compile_all_toggles(Some("u8"), "NoStdBitmaskU8");
    let mut bm = bt.none();
    assert!(bm.eq_bits(0));

    bm.or_assign(get(&bt, "Flag1"));
    assert_eq!(bm, get(&bt, "Flag1"));

    bm.or_assign(get(&bt, "InvertedFlag1"));
    assert_eq!(bm.is_all_bits(), true);
}
