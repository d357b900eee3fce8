//! A compiler for declarative bitmask specifications.
//!
//! A flag spec is an ordered list of named flags, each with an optional
//! explicit value expression, together with a storage width token and a
//! small set of configuration toggles. Compilation assigns every flag a
//! concrete value expression, expands the configured extras (inverted
//! flags, an introspection table), and yields a description of the
//! generated bitmask type. A separate constant-evaluation stage turns
//! that description into a runnable bitmask type with the full operation
//! surface: set algebra, conversions, introspection and formatting.

use vstd::prelude::*;

pub mod ast;
pub mod bitmask;
pub mod emitter;
pub mod eval;
pub mod laws;
pub mod parser;
pub mod render;

use crate::ast::{CompileError, FlagVariant, GeneratedType};

verus! {

/// Compiles one flag spec: the optional width token, the optional config
/// clause, the type name and the ordered variant list, into the
/// description of the generated bitmask type, or fails with the first
/// error the pass meets.
pub fn bitmask(
    typ: Option<String>,
    config_args: Option<Vec<String>>,
    name: String,
    variants: &Vec<FlagVariant>,
) -> (r: Result<GeneratedType, CompileError>)
    ensures
        parser::parse_post(r, typ, config_args, name, variants@),
{
    parser::parse(typ, config_args, name, variants)
}

} // verus!
