//! The laws of the compiler, stated and proved over the spec models
//! that the function contracts use.

use vstd::prelude::*;

use crate::ast::{Constant, Expr, FlagVariant, GeneratedType};
use crate::bitmask::Bitmask;
use crate::emitter::{lemma_table_rows, spec_build_table, spec_or_all, spec_table, BitmaskType};
use crate::eval::{lemma_eval_extend, spec_eval, spec_mask};
use crate::parser::{count_defaults, parse_result_ok, spec_assigned, spec_constant_ok};

verus! {

/// When every variant is defaulted, the position counter walks in step
/// with the variant index.
proof fn lemma_count_all_defaulted(vars: Seq<FlagVariant>, i: int)
    requires
        0 <= i <= vars.len(),
        forall|j: int| 0 <= j < vars.len() ==> (#[trigger] vars[j]).explicit_value is None,
    ensures
        count_defaults(vars, i) == i,
    decreases i,
{
    if i > 0 {
        lemma_count_all_defaulted(vars, i - 1);
    }
}

/// A constants list whose expressions are all single-bit values
/// evaluates without error: such an expression resolves nothing.
proof fn lemma_build_bits_ok(constants: Seq<Constant>, acc: Seq<(Seq<char>, u128)>, w: nat)
    requires
        forall|j: int| 0 <= j < constants.len() ==> (#[trigger] constants[j]).value is Bit,
    ensures
        spec_build_table(constants, acc, w) is Ok,
    decreases constants.len(),
{
    if constants.len() > 0 {
        let c = constants.first();
        let v = spec_eval(c.value, acc, w)->Ok_0;
        assert(forall|j: int|
            0 <= j < constants.drop_first().len() ==> #[trigger] constants.drop_first()[j]
                == constants[j + 1]);
        lemma_build_bits_ok(constants.drop_first(), acc.push((c.name@, v)), w);
    }
}

/// For `n` defaulted flags with no explicit values and no inverted
/// expansion, constant evaluation succeeds and the generated values are
/// exactly `1 << 0, …, 1 << (n - 1)` in declaration order, pairwise
/// distinct and each a single set bit.
pub proof fn lemma_defaulted_flags(g: GeneratedType, name: String, vars: Seq<FlagVariant>)
    requires
        parse_result_ok(g, g.storage_type, g.config, name, vars),
        !g.config.inverted_flags,
        forall|j: int| 0 <= j < vars.len() ==> (#[trigger] vars[j]).explicit_value is None,
        vars.len() <= g.storage_type.spec_width(),
    ensures
        spec_table(g.constants@, g.storage_type.spec_width()) matches Ok(t) && {
            &&& t.len() == vars.len()
            &&& forall|i: int|
                0 <= i < t.len() ==> #[trigger] t[i] == (vars[i].name@, 1u128 << (i as u128))
            &&& forall|i: int, j: int| 0 <= i < j < t.len() ==> t[i].1 != t[j].1
        },
{
    let w = g.storage_type.spec_width();
    let cs = g.constants@;
    assert forall|j: int| 0 <= j < cs.len() implies (#[trigger] cs[j]).value is Bit by {
        lemma_count_all_defaulted(vars, j);
        assert(spec_constant_ok(cs[j], vars, g.config, j));
    }
    lemma_build_bits_ok(cs, Seq::empty(), w);
    let t = spec_table(cs, w)->Ok_0;
    lemma_table_rows(cs, Seq::empty(), w, t);
    assert forall|i: int| 0 <= i < t.len() implies #[trigger] t[i] == (
        vars[i].name@,
        1u128 << (i as u128),
    ) by {
        lemma_count_all_defaulted(vars, i);
        assert(spec_constant_ok(cs[i], vars, g.config, i));
        assert(cs[i].value == Expr::Bit(i as usize));
        assert(spec_eval(cs[i].value, t.take(0 + i), w) == Ok::<u128, Seq<char>>(t[0 + i].1));
    }
    assert forall|i: int, j: int| 0 <= i < j < t.len() implies t[i].1 != t[j].1 by {
        let iu = i as u128;
        let ju = j as u128;
        assert(iu < ju && ju < 128 ==> (1u128 << iu) != (1u128 << ju)) by (bit_vector);
    }
}

/// With `inverted_flags` configured, the table pairs every flag with an
/// adjacent companion under the `Inverted` prefix whose value is the
/// flag's bitwise complement across the storage width.
pub proof fn lemma_inverted_flags(
    g: GeneratedType,
    name: String,
    vars: Seq<FlagVariant>,
    t: Seq<(Seq<char>, u128)>,
)
    requires
        parse_result_ok(g, g.storage_type, g.config, name, vars),
        g.config.inverted_flags,
        spec_table(g.constants@, g.storage_type.spec_width()) == Ok::<
            Seq<(Seq<char>, u128)>,
            Seq<char>,
        >(t),
    ensures
        t.len() == 2 * vars.len(),
        forall|i: int|
            0 <= i < vars.len() ==> {
                &&& (#[trigger] t[2 * i]).0 == vars[i].name@
                &&& t[2 * i + 1].0 == "Inverted"@ + vars[i].name@
                &&& t[2 * i + 1].1 == t[2 * i].1 ^ spec_mask(g.storage_type.spec_width())
            },
{
    let w = g.storage_type.spec_width();
    let cs = g.constants@;
    lemma_table_rows(cs, Seq::empty(), w, t);
    assert forall|i: int| 0 <= i < vars.len() implies {
        &&& (#[trigger] t[2 * i]).0 == vars[i].name@
        &&& t[2 * i + 1].0 == "Inverted"@ + vars[i].name@
        &&& t[2 * i + 1].1 == t[2 * i].1 ^ spec_mask(w)
    } by {
        assert(spec_constant_ok(cs[2 * i], vars, g.config, 2 * i));
        assert(spec_constant_ok(cs[2 * i + 1], vars, g.config, 2 * i + 1));
        let e = spec_assigned(vars, i);
        assert(cs[2 * i].value == e);
        assert(cs[2 * i + 1].value == Expr::Not(Box::new(e)));
        assert(spec_eval(cs[2 * i].value, t.take(0 + 2 * i), w) == Ok::<u128, Seq<char>>(
            t[0 + 2 * i].1,
        ));
        assert(spec_eval(cs[2 * i + 1].value, t.take(0 + (2 * i + 1)), w) == Ok::<
            u128,
            Seq<char>,
        >(t[0 + (2 * i + 1)].1));
        assert(t.take(2 * i + 1) =~= t.take(2 * i) + seq![t[2 * i]]);
        lemma_eval_extend(e, t.take(2 * i), seq![t[2 * i]], w);
    }
}

/// Equal sequences stay equal when a shared prefix is cut off.
proof fn lemma_prefix_cancel(p: Seq<char>, a: Seq<char>, b: Seq<char>)
    requires
        p + a == p + b,
    ensures
        a == b,
{
    assert(a =~= (p + a).skip(p.len() as int));
    assert(b =~= (p + b).skip(p.len() as int));
}

/// The compiled description keeps its names unique: distinct variant
/// names yield distinct constant names, provided no variant is already
/// named like the `Inverted` companion of another when that expansion
/// is configured.
pub proof fn lemma_unique_names(g: GeneratedType, name: String, vars: Seq<FlagVariant>)
    requires
        parse_result_ok(g, g.storage_type, g.config, name, vars),
        forall|i1: int, i2: int|
            0 <= i1 < i2 < vars.len() ==> (#[trigger] vars[i1]).name@ != (
            #[trigger] vars[i2]).name@,
        g.config.inverted_flags ==> forall|i1: int, i2: int|
            0 <= i1 < vars.len() && 0 <= i2 < vars.len() ==> (#[trigger] vars[i1]).name@
                != "Inverted"@ + (#[trigger] vars[i2]).name@,
    ensures
        forall|j1: int, j2: int|
            0 <= j1 < j2 < g.constants@.len() ==> (#[trigger] g.constants@[j1]).name@ != (
            #[trigger] g.constants@[j2]).name@,
{
    let cs = g.constants@;
    assert forall|j1: int, j2: int|
        0 <= j1 < j2 < cs.len() implies (#[trigger] cs[j1]).name@ != (
    #[trigger] cs[j2]).name@ by {
        assert(spec_constant_ok(cs[j1], vars, g.config, j1));
        assert(spec_constant_ok(cs[j2], vars, g.config, j2));
        if g.config.inverted_flags {
            let i1 = j1 / 2;
            let i2 = j2 / 2;
            if j1 % 2 == 1 && j2 % 2 == 1 {
                if cs[j1].name@ == cs[j2].name@ {
                    lemma_prefix_cancel("Inverted"@, vars[i1].name@, vars[i2].name@);
                }
            }
        }
    }
}

/// Truncation is idempotent: reducing a value to the flag bits twice
/// yields the same bits as reducing it once.
pub proof fn lemma_truncate_idempotent(t: BitmaskType, v: Bitmask)
    ensures
        ({
            let f = spec_or_all(t.tview());
            (v.bits & f) & f == v.bits & f
        }),
{
    let f = spec_or_all(t.tview());
    let b = v.bits;
    assert((b & f) & f == b & f) by (bit_vector);
}

/// Round trip: rebuilding a value of the type from its raw storage bits
/// yields the value itself.
pub proof fn lemma_bits_round_trip(t: BitmaskType, v: Bitmask)
    requires
        v.width == t.storage.spec_width(),
    ensures
        (Bitmask { bits: v.bits, width: t.storage.spec_width() as u32 }) == v,
{
}

} // verus!
