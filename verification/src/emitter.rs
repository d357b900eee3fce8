//! The instantiated generated type: the evaluated constants table
//! together with the operation surface that needs it.

use vstd::prelude::*;

use crate::ast::{CompileError, Config, Constant, FlagEntry, GeneratedType, StorageType};
use crate::bitmask::Bitmask;
use crate::eval::{
    env_masked, eval, is_masked, lemma_eval_masked, lookup, mask_of, spec_eval, spec_lookup,
    spec_mask, table_view,
};

verus! {

/// Left-to-right evaluation of a constants list, extending the table
/// `acc`: each constant's expression is evaluated against the constants
/// before it, or the pass stops at the first unresolved reference.
pub open spec fn spec_build_table(
    constants: Seq<Constant>,
    acc: Seq<(Seq<char>, u128)>,
    w: nat,
) -> Result<Seq<(Seq<char>, u128)>, Seq<char>>
    decreases constants.len(),
{
    if constants.len() == 0 {
        Ok(acc)
    } else {
        let c = constants.first();
        match spec_eval(c.value, acc, w) {
            Ok(v) => spec_build_table(constants.drop_first(), acc.push((c.name@, v)), w),
            Err(n) => Err(n),
        }
    }
}

/// The evaluated table of a constants list, or the first unresolved
/// reference.
pub open spec fn spec_table(constants: Seq<Constant>, w: nat) -> Result<
    Seq<(Seq<char>, u128)>,
    Seq<char>,
> {
    spec_build_table(constants, Seq::empty(), w)
}

/// Shape of a successfully built table: it keeps the rows it started
/// from, adds one row per constant, and each added row holds its
/// constant's name and the value that constant's expression takes
/// against exactly the rows before it.
pub proof fn lemma_table_rows(
    constants: Seq<Constant>,
    acc: Seq<(Seq<char>, u128)>,
    w: nat,
    t: Seq<(Seq<char>, u128)>,
)
    requires
        spec_build_table(constants, acc, w) == Ok::<Seq<(Seq<char>, u128)>, Seq<char>>(t),
    ensures
        t.len() == acc.len() + constants.len(),
        forall|i: int| 0 <= i < acc.len() ==> t[i] == acc[i],
        forall|j: int|
            0 <= j < constants.len() ==> {
                &&& (#[trigger] t[acc.len() + j]).0 == constants[j].name@
                &&& spec_eval(constants[j].value, t.take(acc.len() + j), w) == Ok::<
                    u128,
                    Seq<char>,
                >(t[acc.len() + j].1)
            },
    decreases constants.len(),
{
    if constants.len() > 0 {
        let c = constants.first();
        let v = spec_eval(c.value, acc, w)->Ok_0;
        let acc1 = acc.push((c.name@, v));
        lemma_table_rows(constants.drop_first(), acc1, w, t);
        assert(t.take(acc.len() as int) =~= acc);
        assert(t[acc.len() as int] == acc1[acc.len() as int]);
        assert forall|j: int| 0 <= j < constants.len() implies {
            &&& (#[trigger] t[acc.len() + j]).0 == constants[j].name@
            &&& spec_eval(constants[j].value, t.take(acc.len() + j), w) == Ok::<
                u128,
                Seq<char>,
            >(t[acc.len() + j].1)
        } by {
            if j == 0 {
                assert(spec_eval(c.value, acc, w) == Ok::<u128, Seq<char>>(v));
            } else {
                assert(constants.drop_first()[j - 1] == constants[j]);
                assert((t[acc1.len() + (j - 1)]).0 == constants.drop_first()[j - 1].name@);
                assert(spec_eval(
                    constants.drop_first()[j - 1].value,
                    t.take(acc1.len() + (j - 1)),
                    w,
                ) == Ok::<u128, Seq<char>>(t[acc1.len() + (j - 1)].1));
                assert(acc1.len() + (j - 1) == acc.len() + j);
            }
        }
    }
}

/// The bitwise OR of every value in the table.
pub open spec fn spec_or_all(t: Seq<(Seq<char>, u128)>) -> u128
    decreases t.len(),
{
    if t.len() == 0 {
        0
    } else {
        spec_or_all(t.drop_last()) | t.last().1
    }
}

/// A generated bitmask type, instantiated: its evaluated constants
/// table and everything of the operation surface that reads the table.
pub struct BitmaskType {
    pub name: String,
    pub storage: StorageType,
    pub config: Config,
    pub table: Vec<FlagEntry>,
}

impl BitmaskType {
    /// The storage width of the type, in bits.
    pub open spec fn spec_width(self) -> nat {
        self.storage.spec_width()
    }

    /// The evaluated constants table, as name/value pairs.
    pub open spec fn tview(self) -> Seq<(Seq<char>, u128)> {
        table_view(self.table@)
    }

    /// A type is well formed when every table value stays inside the
    /// storage width.
    pub open spec fn wf(self) -> bool {
        env_masked(self.tview(), self.spec_width())
    }

    /// Returns a bitmask that does not contain any values.
    pub fn none(&self) -> (r: Bitmask)
        ensures
            r == (Bitmask { bits: 0, width: self.storage.spec_width() as u32 }),
            r.wf(),
    {
        let r = Bitmask { bits: 0, width: self.storage.width() };
        proof {
            assert(0u128 & spec_mask(r.width as nat) == 0u128) by (bit_vector);
        }
        r
    }

    /// Returns a bitmask that contains all values, flags or not: its
    /// bits are `!0` across the storage width.
    pub fn all_bits(&self) -> (r: Bitmask)
        ensures
            r == (Bitmask {
                bits: spec_mask(self.storage.spec_width() as nat),
                width: self.storage.spec_width() as u32,
            }),
            r.wf(),
    {
        let w = self.storage.width();
        let m = mask_of(w);
        proof {
            assert(m & m == m) by (bit_vector);
        }
        Bitmask { bits: m, width: w }
    }

    /// Returns a bitmask that contains all flags: the bitwise OR of
    /// every constant of the type.
    pub fn all_flags(&self) -> (r: Bitmask)
        requires
            self.wf(),
        ensures
            r == (Bitmask {
                bits: spec_or_all(self.tview()),
                width: self.storage.spec_width() as u32,
            }),
            r.wf(),
    {
        let w = self.storage.width();
        let ghost wn = self.spec_width();
        let mut acc: u128 = 0;
        proof {
            assert(0u128 & spec_mask(wn) == 0u128) by (bit_vector);
        }
        let n = self.table.len();
        for i in 0..n
            invariant
                n == self.table@.len(),
                acc == spec_or_all(self.tview().take(i as int)),
                is_masked(acc, wn),
                wn == self.spec_width(),
                self.wf(),
        {
            proof {
                let t = self.tview();
                assert(t.take(i + 1).drop_last() =~= t.take(i as int));
                assert(t.take(i + 1).last() == t[i as int]);
                let (a, b, m) = (acc, t[i as int].1, spec_mask(wn));
                assert((a | b) & m == a | b) by (bit_vector)
                    requires
                        a & m == a,
                        b & m == b,
                ;
            }
            acc = acc | self.table[i].value;
        }
        proof {
            assert(self.tview().take(n as int) =~= self.tview());
        }
        Bitmask { bits: acc, width: w }
    }

    /// Returns a bitmask that contains all values. Kept for
    /// compatibility; use `all_bits`.
    pub fn all(&self) -> (r: Bitmask)
        ensures
            r == (Bitmask {
                bits: spec_mask(self.storage.spec_width() as nat),
                width: self.storage.spec_width() as u32,
            }),
            r.wf(),
    {
        self.all_bits()
    }

    /// Returns a bitmask that contains all flags. Kept for
    /// compatibility; use `all_flags`.
    pub fn full(&self) -> (r: Bitmask)
        requires
            self.wf(),
        ensures
            r == (Bitmask {
                bits: spec_or_all(self.tview()),
                width: self.storage.spec_width() as u32,
            }),
            r.wf(),
    {
        self.all_flags()
    }

    /// Returns `true` if the bitmask contains all flags of the type.
    /// Kept for compatibility; use `is_all_flags`.
    pub fn is_full(&self, v: &Bitmask) -> (r: bool)
        requires
            self.wf(),
        ensures
            r == (v.bits == spec_or_all(self.tview())),
    {
        self.is_all_flags(v)
    }

    /// Returns the bitmask with the given raw storage bits.
    pub fn from_bits(&self, raw: u128) -> (r: Bitmask)
        requires
            is_masked(raw, self.storage.spec_width()),
        ensures
            r == (Bitmask { bits: raw, width: self.storage.spec_width() as u32 }),
            r.wf(),
    {
        Bitmask { bits: raw, width: self.storage.width() }
    }

    /// Returns the constant with the given name, if the type declares
    /// one.
    pub fn get(&self, name: &String) -> (r: Option<Bitmask>)
        requires
            self.wf(),
        ensures
            ({
                match spec_lookup(self.tview(), name@) {
                    Some(v) => {
                        &&& r matches Some(b)
                        &&& b == (Bitmask { bits: v, width: self.storage.spec_width() as u32 })
                        &&& b.wf()
                    },
                    None => r is None,
                }
            }),
    {
        proof {
            crate::eval::lemma_lookup_masked(self.tview(), name@, self.spec_width());
        }
        match lookup(&self.table, name) {
            Some(v) => Some(Bitmask { bits: v, width: self.storage.width() }),
            None => None,
        }
    }

    /// Returns `true` if the bitmask contains all flags of the type.
    pub fn is_all_flags(&self, v: &Bitmask) -> (r: bool)
        requires
            self.wf(),
        ensures
            r == (v.bits == spec_or_all(self.tview())),
    {
        let af = self.all_flags();
        v.bits == af.bits
    }

    /// Returns the bitmask reduced to the bits that correspond to flags
    /// of the type.
    pub fn truncate(&self, v: Bitmask) -> (r: Bitmask)
        requires
            self.wf(),
            v.width == self.storage.spec_width(),
        ensures
            r.bits == v.bits & spec_or_all(self.tview()),
            r.width == v.width,
            r.wf(),
    {
        let af = self.all_flags();
        proof {
            let (a, b, m) = (v.bits, af.bits, spec_mask(self.spec_width()));
            assert((a & b) & m == a & b) by (bit_vector)
                requires
                    b & m == b,
            ;
        }
        Bitmask { bits: v.bits & af.bits, width: v.width }
    }

    /// Returns the ordered name/value table of all constants of the
    /// type; available when the `flags_iter` toggle is configured.
    pub fn flags(&self) -> (r: &Vec<FlagEntry>)
        requires
            self.config.flags_iter,
        ensures
            r@ == self.table@,
    {
        &self.table
    }
}

impl GeneratedType {
    /// Instantiates the compiled type description: evaluates every
    /// constant, in order, against the constants before it, producing
    /// the runnable type, or the first unresolved reference as an
    /// `UnresolvedReference` error.
    pub fn instantiate(&self) -> (r: Result<BitmaskType, CompileError>)
        ensures
            ({
                match spec_table(self.constants@, self.storage_type.spec_width()) {
                    Ok(t) => {
                        &&& r matches Ok(bt)
                        &&& bt.name@ == self.name@
                        &&& bt.storage == self.storage_type
                        &&& bt.config == self.config
                        &&& bt.tview() == t
                        &&& bt.wf()
                    },
                    Err(n) => {
                        &&& r matches Err(CompileError::UnresolvedReference(s))
                        &&& s@ == n
                    },
                }
            }),
    {
        let w = self.storage_type.width();
        let ghost wn = self.storage_type.spec_width();
        let mut table: Vec<FlagEntry> = Vec::new();
        proof {
            assert(table_view(table@) =~= Seq::<(Seq<char>, u128)>::empty());
            assert(self.constants@.skip(0) =~= self.constants@);
        }
        let n = self.constants.len();
        for i in 0..n
            invariant
                n == self.constants@.len(),
                w == wn,
                wn == self.storage_type.spec_width(),
                spec_table(self.constants@, wn) == spec_build_table(
                    self.constants@.skip(i as int),
                    table_view(table@),
                    wn,
                ),
                env_masked(table_view(table@), wn),
        {
            proof {
                assert(self.constants@.skip(i as int).first() == self.constants@[i as int]);
                assert(self.constants@.skip(i as int).drop_first() =~= self.constants@.skip(
                    i + 1,
                ));
            }
            let c = &self.constants[i];
            let v = match eval(&c.value, &table, w) {
                Ok(v) => v,
                Err(e) => {
                    return Err(e);
                },
            };
            proof {
                lemma_eval_masked(c.value, table_view(table@), wn);
            }
            let ghost old_table = table@;
            table.push(FlagEntry { name: c.name.clone(), value: v });
            proof {
                assert(table_view(table@) =~= table_view(old_table).push((c.name@, v)));
            }
        }
        proof {
            assert(self.constants@.skip(n as int) =~= Seq::<Constant>::empty());
        }
        Ok(BitmaskType {
            name: self.name.clone(),
            storage: self.storage_type,
            config: self.config,
            table,
        })
    }
}

} // verus!
