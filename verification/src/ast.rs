//! Data model of a flag spec and of the compiled type description.

use vstd::prelude::*;

verus! {

/// The integer width and signedness backing a generated bitmask type.
///
/// Pointer-sized storage is modelled as 64 bits wide.
#[derive(Clone, Copy, PartialEq, Eq, Structural, Debug)]
pub enum StorageType {
    U8,
    U16,
    U32,
    U64,
    U128,
    Usize,
    I8,
    I16,
    I32,
    I64,
    I128,
    Isize,
}

impl StorageType {
    /// Number of bits of the storage, as a mathematical value.
    pub open spec fn spec_width(self) -> nat {
        match self {
            StorageType::U8 | StorageType::I8 => 8,
            StorageType::U16 | StorageType::I16 => 16,
            StorageType::U32 | StorageType::I32 => 32,
            StorageType::U64 | StorageType::I64 => 64,
            StorageType::U128 | StorageType::I128 => 128,
            StorageType::Usize | StorageType::Isize => 64,
        }
    }

    /// Whether values of the storage are interpreted as two's-complement
    /// signed integers.
    pub open spec fn spec_is_signed(self) -> bool {
        match self {
            StorageType::I8
            | StorageType::I16
            | StorageType::I32
            | StorageType::I64
            | StorageType::I128
            | StorageType::Isize => true,
            _ => false,
        }
    }

    /// Number of bits of the storage.
    pub fn width(&self) -> (w: u32)
        ensures
            w == self.spec_width(),
            8 <= w <= 128,
    {
        match self {
            StorageType::U8 | StorageType::I8 => 8,
            StorageType::U16 | StorageType::I16 => 16,
            StorageType::U32 | StorageType::I32 => 32,
            StorageType::U64 | StorageType::I64 => 64,
            StorageType::U128 | StorageType::I128 => 128,
            StorageType::Usize | StorageType::Isize => 64,
        }
    }

    /// Whether the storage is a signed integer type.
    pub fn is_signed(&self) -> (s: bool)
        ensures
            s == self.spec_is_signed(),
    {
        match self {
            StorageType::I8
            | StorageType::I16
            | StorageType::I32
            | StorageType::I64
            | StorageType::I128
            | StorageType::Isize => true,
            _ => false,
        }
    }
}

/// The configuration toggles of a flag spec; all default to off.
#[derive(Clone, Copy, PartialEq, Eq, Structural, Debug)]
pub struct Config {
    pub inverted_flags: bool,
    pub vec_debug: bool,
    pub flags_iter: bool,
}

/// One entry of the ordered variant list: a flag name and, optionally,
/// the explicit value expression it was declared with.
#[derive(Debug)]
pub struct FlagVariant {
    pub name: String,
    pub explicit_value: Option<Expr>,
}

/// A value expression attached to a generated constant.
///
/// Explicit expressions may combine literals and references to constants
/// of earlier variants with the bitwise operators; the value assigner
/// produces single-bit values for defaulted variants, and the feature
/// expander produces complements for inverted flags. Expressions are
/// recorded by the compiler and evaluated only by the separate
/// constant-evaluation stage.
#[derive(Debug)]
pub enum Expr {
    /// A literal value.
    Lit(u128),
    /// A reference, by name, to a constant declared earlier in the spec.
    Ref(String),
    /// The single set bit `1 << k`, assigned to the defaulted variant at
    /// counter value `k`.
    Bit(usize),
    /// Bitwise complement across the full storage width.
    Not(Box<Expr>),
    /// Bitwise conjunction.
    And(Box<Expr>, Box<Expr>),
    /// Bitwise disjunction.
    Or(Box<Expr>, Box<Expr>),
    /// Bitwise exclusive disjunction.
    Xor(Box<Expr>, Box<Expr>),
}

impl Expr {
    /// An equal copy of the expression.
    pub fn duplicate(&self) -> (r: Expr)
        ensures
            r == *self,
        decreases self,
    {
        match self {
            Expr::Lit(v) => Expr::Lit(*v),
            Expr::Ref(s) => Expr::Ref(s.clone()),
            Expr::Bit(k) => Expr::Bit(*k),
            Expr::Not(e) => Expr::Not(Box::new(e.duplicate())),
            Expr::And(a, b) => Expr::And(Box::new(a.duplicate()), Box::new(b.duplicate())),
            Expr::Or(a, b) => Expr::Or(Box::new(a.duplicate()), Box::new(b.duplicate())),
            Expr::Xor(a, b) => Expr::Xor(Box::new(a.duplicate()), Box::new(b.duplicate())),
        }
    }
}

/// A named constant of the compiled type, with its value expression.
#[derive(Debug)]
pub struct Constant {
    pub name: String,
    pub value: Expr,
}

/// The compiled output: the description of a generated bitmask type.
///
/// `constants` holds, in emission order, every constant of the type:
/// the declared flags with their assigned value expressions and, when
/// `inverted_flags` is configured, the synthesized complement of each
/// flag immediately after its source flag.
#[derive(Debug)]
pub struct GeneratedType {
    pub name: String,
    pub storage_type: StorageType,
    pub config: Config,
    pub constants: Vec<Constant>,
}

/// One row of the evaluated constants table: a constant's name and its
/// concrete value, reduced to the storage width.
#[derive(Debug)]
pub struct FlagEntry {
    pub name: String,
    pub value: u128,
}

impl View for FlagEntry {
    type V = (Seq<char>, u128);

    open spec fn view(&self) -> (Seq<char>, u128) {
        (self.name@, self.value)
    }
}

/// Why a compilation pass failed. Every error is terminal for the pass
/// and names the offending token or identifier.
#[derive(Debug)]
pub enum CompileError {
    /// The width token is not in the allowed set; carries that token.
    InvalidWidth(String),
    /// The config clause holds an identifier outside the recognized set;
    /// carries that identifier.
    UnknownConfigOption(String),
    /// A value expression references a name not defined at that point;
    /// carries that name. Reported by the constant-evaluation stage, not
    /// by the compiler.
    UnresolvedReference(String),
}

} // verus!
