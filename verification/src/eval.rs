//! The constant-evaluation stage: reduces value expressions to concrete
//! values of the storage width, resolving references against the
//! constants already evaluated, in a single left-to-right pass.

use vstd::prelude::*;

use crate::ast::{CompileError, Expr, FlagEntry};

verus! {

/// The value with exactly the low `w` bits set: every evaluated constant
/// is reduced to these bits.
pub open spec fn spec_mask(w: nat) -> u128 {
    if w >= 128 {
        u128::MAX
    } else {
        ((1u128 << (w as u128)) - 1) as u128
    }
}

/// Whether `v` holds no bits outside the storage width `w`.
pub open spec fn is_masked(v: u128, w: nat) -> bool {
    v & spec_mask(w) == v
}

/// Returns the value with exactly the low `w` bits set.
pub fn mask_of(w: u32) -> (m: u128)
    requires
        w <= 128,
    ensures
        m == spec_mask(w as nat),
{
    if w == 128 {
        u128::MAX
    } else {
        let sh: u128 = w as u128;
        proof {
            assert(sh < 128 ==> (1u128 << sh) >= 1) by (bit_vector);
        }
        (1u128 << sh) - 1
    }
}

/// The views of the evaluated constants table.
pub open spec fn table_view(t: Seq<FlagEntry>) -> Seq<(Seq<char>, u128)> {
    t.map_values(|e: FlagEntry| e@)
}

/// The value of the first table entry with the given name, if any.
pub open spec fn spec_lookup(table: Seq<(Seq<char>, u128)>, name: Seq<char>) -> Option<u128>
    decreases table.len(),
{
    if table.len() == 0 {
        None
    } else if table.first().0 == name {
        Some(table.first().1)
    } else {
        spec_lookup(table.drop_first(), name)
    }
}

/// Returns the value of the first table entry with the given name.
pub(crate) fn lookup(table: &Vec<FlagEntry>, name: &String) -> (r: Option<u128>)
    ensures
        r == spec_lookup(table_view(table@), name@),
{
    let n = table.len();
    proof {
        assert(table_view(table@).skip(0) =~= table_view(table@));
    }
    for i in 0..n
        invariant
            n == table@.len(),
            spec_lookup(table_view(table@), name@) == spec_lookup(
                table_view(table@).skip(i as int),
                name@,
            ),
    {
        proof {
            assert(table_view(table@).skip(i as int).first() == table@[i as int]@);
            assert(table_view(table@).skip(i as int).drop_first() =~= table_view(
                table@,
            ).skip(i + 1));
        }
        if table[i].name == *name {
            return Some(table[i].value);
        }
    }
    proof {
        assert(table_view(table@).skip(n as int) =~= Seq::<(Seq<char>, u128)>::empty());
    }
    None
}

/// What an expression evaluates to against the given environment, every
/// operation reduced to the storage width `w`, or the first reference,
/// in left-to-right operand order, that the environment does not
/// resolve.
pub open spec fn spec_eval(e: Expr, env: Seq<(Seq<char>, u128)>, w: nat) -> Result<
    u128,
    Seq<char>,
>
    decreases e,
{
    match e {
        Expr::Lit(v) => Ok(v & spec_mask(w)),
        Expr::Ref(s) => match spec_lookup(env, s@) {
            Some(v) => Ok(v),
            None => Err(s@),
        },
        Expr::Bit(k) => Ok(
            if k < w {
                1u128 << (k as u128)
            } else {
                0u128
            },
        ),
        Expr::Not(a) => match spec_eval(*a, env, w) {
            Ok(v) => Ok(v ^ spec_mask(w)),
            Err(n) => Err(n),
        },
        Expr::And(a, b) => match (spec_eval(*a, env, w), spec_eval(*b, env, w)) {
            (Ok(va), Ok(vb)) => Ok(va & vb),
            (Err(n), _) => Err(n),
            (_, Err(n)) => Err(n),
        },
        Expr::Or(a, b) => match (spec_eval(*a, env, w), spec_eval(*b, env, w)) {
            (Ok(va), Ok(vb)) => Ok(va | vb),
            (Err(n), _) => Err(n),
            (_, Err(n)) => Err(n),
        },
        Expr::Xor(a, b) => match (spec_eval(*a, env, w), spec_eval(*b, env, w)) {
            (Ok(va), Ok(vb)) => Ok(va ^ vb),
            (Err(n), _) => Err(n),
            (_, Err(n)) => Err(n),
        },
    }
}

/// Whether every value in the environment holds no bits outside the
/// storage width.
pub open spec fn env_masked(env: Seq<(Seq<char>, u128)>, w: nat) -> bool {
    forall|i: int| 0 <= i < env.len() ==> is_masked((#[trigger] env[i]).1, w)
}

pub proof fn lemma_lookup_masked(env: Seq<(Seq<char>, u128)>, name: Seq<char>, w: nat)
    requires
        env_masked(env, w),
    ensures
        spec_lookup(env, name) matches Some(v) ==> is_masked(v, w),
    decreases env.len(),
{
    if env.len() > 0 && env.first().0 != name {
        assert(env_masked(env.drop_first(), w)) by {
            assert(forall|i: int|
                0 <= i < env.drop_first().len() ==> (#[trigger] env.drop_first()[i])
                    == env[i + 1]);
        }
        lemma_lookup_masked(env.drop_first(), name, w);
    }
}

/// Every value an expression evaluates to holds no bits outside the
/// storage width, provided the environment does not either.
pub proof fn lemma_eval_masked(e: Expr, env: Seq<(Seq<char>, u128)>, w: nat)
    requires
        w <= 128,
        env_masked(env, w),
    ensures
        spec_eval(e, env, w) matches Ok(v) ==> is_masked(v, w),
    decreases e,
{
    let m = spec_mask(w);
    let wu = w as u128;
    assert(wu < 128 ==> (1u128 << wu) >= 1) by (bit_vector);
    assert(w < 128 ==> m == (1u128 << wu) - 1);
    assert(w >= 128 ==> m == u128::MAX);
    match e {
        Expr::Lit(v) => {
            assert((v & m) & m == v & m) by (bit_vector);
        },
        Expr::Ref(s) => {
            lemma_lookup_masked(env, s@, w);
        },
        Expr::Bit(k) => {
            if k < w {
                let kk = k as u128;
                assert(kk < wu);
                if w == 128 {
                    assert((1u128 << kk) & u128::MAX == (1u128 << kk)) by (bit_vector);
                } else {
                    assert((1u128 << kk) & (((1u128 << wu) - 1) as u128) == (1u128 << kk))
                        by (bit_vector)
                        requires
                            kk < wu,
                            wu < 128,
                    ;
                }
            } else {
                assert(0u128 & m == 0u128) by (bit_vector);
            }
        },
        Expr::Not(a) => {
            lemma_eval_masked(*a, env, w);
            if let Ok(v) = spec_eval(*a, env, w) {
                assert((v ^ m) & m == v ^ m) by (bit_vector)
                    requires
                        v & m == v,
                ;
            }
        },
        Expr::And(a, b) => {
            lemma_eval_masked(*a, env, w);
            lemma_eval_masked(*b, env, w);
            if let (Ok(va), Ok(vb)) = (spec_eval(*a, env, w), spec_eval(*b, env, w)) {
                assert((va & vb) & m == va & vb) by (bit_vector)
                    requires
                        va & m == va,
                ;
            }
        },
        Expr::Or(a, b) => {
            lemma_eval_masked(*a, env, w);
            lemma_eval_masked(*b, env, w);
            if let (Ok(va), Ok(vb)) = (spec_eval(*a, env, w), spec_eval(*b, env, w)) {
                assert((va | vb) & m == va | vb) by (bit_vector)
                    requires
                        va & m == va,
                        vb & m == vb,
                ;
            }
        },
        Expr::Xor(a, b) => {
            lemma_eval_masked(*a, env, w);
            lemma_eval_masked(*b, env, w);
            if let (Ok(va), Ok(vb)) = (spec_eval(*a, env, w), spec_eval(*b, env, w)) {
                assert((va ^ vb) & m == va ^ vb) by (bit_vector)
                    requires
                        va & m == va,
                        vb & m == vb,
                ;
            }
        },
    }
}

pub proof fn lemma_lookup_extend(env: Seq<(Seq<char>, u128)>, ext: Seq<(Seq<char>, u128)>, name: Seq<char>)
    requires
        spec_lookup(env, name) is Some,
    ensures
        spec_lookup(env + ext, name) == spec_lookup(env, name),
    decreases env.len(),
{
    assert((env + ext).first() == env.first());
    if env.first().0 != name {
        assert((env + ext).drop_first() =~= env.drop_first() + ext);
        lemma_lookup_extend(env.drop_first(), ext, name);
    }
}

/// A resolvable expression keeps its value when the table grows: the
/// environment resolves by first match, so entries appended later
/// change nothing.
pub proof fn lemma_eval_extend(e: Expr, env: Seq<(Seq<char>, u128)>, ext: Seq<(Seq<char>, u128)>, w: nat)
    requires
        spec_eval(e, env, w) is Ok,
    ensures
        spec_eval(e, env + ext, w) == spec_eval(e, env, w),
    decreases e,
{
    match e {
        Expr::Lit(_) => {},
        Expr::Ref(s) => {
            lemma_lookup_extend(env, ext, s@);
        },
        Expr::Bit(_) => {},
        Expr::Not(a) => {
            lemma_eval_extend(*a, env, ext, w);
        },
        Expr::And(a, b) => {
            lemma_eval_extend(*a, env, ext, w);
            lemma_eval_extend(*b, env, ext, w);
        },
        Expr::Or(a, b) => {
            lemma_eval_extend(*a, env, ext, w);
            lemma_eval_extend(*b, env, ext, w);
        },
        Expr::Xor(a, b) => {
            lemma_eval_extend(*a, env, ext, w);
            lemma_eval_extend(*b, env, ext, w);
        },
    }
}

/// Evaluates an expression against the constants already in the table.
pub fn eval(e: &Expr, env: &Vec<FlagEntry>, w: u32) -> (r: Result<u128, CompileError>)
    requires
        w <= 128,
    ensures
        ({
            match spec_eval(*e, table_view(env@), w as nat) {
                Ok(v) => r == Ok::<u128, CompileError>(v),
                Err(n) => {
                    &&& r matches Err(CompileError::UnresolvedReference(s))
                    &&& s@ == n
                },
            }
        }),
    decreases e,
{
    match e {
        Expr::Lit(v) => Ok(*v & mask_of(w)),
        Expr::Ref(s) => match lookup(env, s) {
            Some(v) => Ok(v),
            None => Err(CompileError::UnresolvedReference(s.clone())),
        },
        Expr::Bit(k) => {
            if *k < w as usize {
                let sh: u128 = *k as u128;
                Ok(1u128 << sh)
            } else {
                Ok(0u128)
            }
        },
        Expr::Not(a) => match eval(a, env, w) {
            Ok(v) => Ok(v ^ mask_of(w)),
            Err(n) => Err(n),
        },
        Expr::And(a, b) => match eval(a, env, w) {
            Ok(va) => match eval(b, env, w) {
                Ok(vb) => Ok(va & vb),
                Err(n) => Err(n),
            },
            Err(n) => Err(n),
        },
        Expr::Or(a, b) => match eval(a, env, w) {
            Ok(va) => match eval(b, env, w) {
                Ok(vb) => Ok(va | vb),
                Err(n) => Err(n),
            },
            Err(n) => Err(n),
        },
        Expr::Xor(a, b) => match eval(a, env, w) {
            Ok(va) => match eval(b, env, w) {
                Ok(vb) => Ok(va ^ vb),
                Err(n) => Err(n),
            },
            Err(n) => Err(n),
        },
    }
}

} // verus!
