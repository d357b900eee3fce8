//! The compilation pass: width resolution, config resolution, value
//! assignment and feature expansion, producing a [`GeneratedType`].

use vstd::prelude::*;

use crate::ast::{Config, Constant, CompileError, Expr, FlagVariant, GeneratedType, StorageType};

verus! {

/// The storage type a width token denotes, or `None` for a token outside
/// the allowed set.
pub open spec fn spec_width_of_token(s: Seq<char>) -> Option<StorageType> {
    if s == "u8"@ {
        Some(StorageType::U8)
    } else if s == "u16"@ {
        Some(StorageType::U16)
    } else if s == "u32"@ {
        Some(StorageType::U32)
    } else if s == "u64"@ {
        Some(StorageType::U64)
    } else if s == "u128"@ {
        Some(StorageType::U128)
    } else if s == "usize"@ {
        Some(StorageType::Usize)
    } else if s == "i8"@ {
        Some(StorageType::I8)
    } else if s == "i16"@ {
        Some(StorageType::I16)
    } else if s == "i32"@ {
        Some(StorageType::I32)
    } else if s == "i64"@ {
        Some(StorageType::I64)
    } else if s == "i128"@ {
        Some(StorageType::I128)
    } else if s == "isize"@ {
        Some(StorageType::Isize)
    } else {
        None
    }
}

/// The storage type that an optional width token resolves to: an absent
/// token means pointer-sized unsigned storage.
pub open spec fn spec_resolved_width(t: Option<String>) -> Option<StorageType> {
    match t {
        None => Some(StorageType::Usize),
        Some(s) => spec_width_of_token(s@),
    }
}

/// Whether the string reads as the given literal.
fn str_matches(s: &String, lit: &str) -> (b: bool)
    ensures
        b == (s@ == lit@),
{
    let l = String::from_str(lit);
    *s == l
}

/// Resolves the raw width token. An absent token yields pointer-sized
/// unsigned storage; a token outside the allowed width set is an
/// `InvalidWidth` error naming that token.
pub fn parse_typ(attr: Option<String>) -> (r: Result<StorageType, CompileError>)
    ensures
        ({
            match spec_resolved_width(attr) {
                Some(t) => r == Ok::<StorageType, CompileError>(t),
                None => {
                    &&& r matches Err(CompileError::InvalidWidth(tok))
                    &&& attr matches Some(s) && tok@ == s@
                },
            }
        }),
{
    match attr {
        None => Ok(StorageType::Usize),
        Some(t) => {
            if str_matches(&t, "u8") {
                Ok(StorageType::U8)
            } else if str_matches(&t, "u16") {
                Ok(StorageType::U16)
            } else if str_matches(&t, "u32") {
                Ok(StorageType::U32)
            } else if str_matches(&t, "u64") {
                Ok(StorageType::U64)
            } else if str_matches(&t, "u128") {
                Ok(StorageType::U128)
            } else if str_matches(&t, "usize") {
                Ok(StorageType::Usize)
            } else if str_matches(&t, "i8") {
                Ok(StorageType::I8)
            } else if str_matches(&t, "i16") {
                Ok(StorageType::I16)
            } else if str_matches(&t, "i32") {
                Ok(StorageType::I32)
            } else if str_matches(&t, "i64") {
                Ok(StorageType::I64)
            } else if str_matches(&t, "i128") {
                Ok(StorageType::I128)
            } else if str_matches(&t, "isize") {
                Ok(StorageType::Isize)
            } else {
                Err(CompileError::InvalidWidth(t))
            }
        },
    }
}

/// The views of a list of identifiers.
pub open spec fn names_of(args: Seq<String>) -> Seq<Seq<char>> {
    args.map_values(|s: String| s@)
}

/// Left-to-right resolution of a config clause, starting from `acc`:
/// each recognized identifier switches its toggle on, and the first
/// identifier outside the recognized set is the error.
pub open spec fn spec_config_fold(names: Seq<Seq<char>>, acc: Config) -> Result<Config, Seq<char>>
    decreases names.len(),
{
    if names.len() == 0 {
        Ok(acc)
    } else {
        let a = names.first();
        if a == "inverted_flags"@ {
            spec_config_fold(
                names.drop_first(),
                Config { inverted_flags: true, vec_debug: acc.vec_debug, flags_iter: acc.flags_iter },
            )
        } else if a == "vec_debug"@ {
            spec_config_fold(
                names.drop_first(),
                Config { inverted_flags: acc.inverted_flags, vec_debug: true, flags_iter: acc.flags_iter },
            )
        } else if a == "flags_iter"@ {
            spec_config_fold(
                names.drop_first(),
                Config { inverted_flags: acc.inverted_flags, vec_debug: acc.vec_debug, flags_iter: true },
            )
        } else {
            Err(a)
        }
    }
}

/// What a config clause resolves to: the toggles it switches on, or its
/// first unrecognized identifier.
pub open spec fn spec_parse_config(names: Seq<Seq<char>>) -> Result<Config, Seq<char>> {
    spec_config_fold(names, Config::spec_new())
}

/// What an optional config clause resolves to: absence yields the
/// default configuration.
pub open spec fn spec_resolved_config(args: Option<Vec<String>>) -> Result<Config, Seq<char>> {
    match args {
        None => Ok(Config::spec_new()),
        Some(v) => spec_parse_config(names_of(v@)),
    }
}

impl Config {
    /// The default configuration: every toggle off.
    pub open spec fn spec_new() -> Config {
        Config { inverted_flags: false, vec_debug: false, flags_iter: false }
    }

    /// Returns the default configuration, with every toggle off.
    pub fn new() -> (c: Config)
        ensures
            c == Config::spec_new(),
    {
        Config { inverted_flags: false, vec_debug: false, flags_iter: false }
    }

    /// Resolves a config clause: a list of bare identifiers, each of
    /// which must be one of `inverted_flags`, `vec_debug` or
    /// `flags_iter`. Any other identifier is an `UnknownConfigOption`
    /// error naming the first such identifier.
    pub fn parse(args: &Vec<String>) -> (r: Result<Config, CompileError>)
        ensures
            ({
                match spec_parse_config(names_of(args@)) {
                    Ok(c) => r == Ok::<Config, CompileError>(c),
                    Err(n) => {
                        &&& r matches Err(CompileError::UnknownConfigOption(opt))
                        &&& opt@ == n
                    },
                }
            }),
    {
        let mut config = Config::new();
        proof {
            assert(names_of(args@).skip(0) =~= names_of(args@));
        }
        let n = args.len();
        for i in 0..n
            invariant
                n == args@.len(),
                spec_parse_config(names_of(args@)) == spec_config_fold(
                    names_of(args@).skip(i as int),
                    config,
                ),
        {
            proof {
                assert(names_of(args@).skip(i as int).first() == args@[i as int]@);
                assert(names_of(args@).skip(i as int).drop_first() =~= names_of(args@).skip(
                    i + 1,
                ));
            }
            let arg = &args[i];
            if str_matches(arg, "inverted_flags") {
                config.inverted_flags = true;
            } else if str_matches(arg, "vec_debug") {
                config.vec_debug = true;
            } else if str_matches(arg, "flags_iter") {
                config.flags_iter = true;
            } else {
                return Err(CompileError::UnknownConfigOption(arg.clone()));
            }
        }
        Ok(config)
    }
}

/// How many of the first `i` variants are defaulted (have no explicit
/// value): the position counter of the value assigner after processing
/// them.
pub open spec fn count_defaults(vars: Seq<FlagVariant>, i: int) -> int
    decreases i,
{
    if i <= 0 {
        0
    } else {
        count_defaults(vars, i - 1) + if vars[i - 1].explicit_value is None {
            1int
        } else {
            0int
        }
    }
}

/// The counter never runs ahead of the variants processed.
proof fn lemma_count_defaults_bounds(vars: Seq<FlagVariant>, i: int)
    requires
        0 <= i,
    ensures
        0 <= count_defaults(vars, i) <= i,
    decreases i,
{
    if i > 0 {
        lemma_count_defaults_bounds(vars, i - 1);
    }
}

/// The value expression the assigner attaches to variant `i`: its own
/// explicit expression unchanged, or the single set bit at the counter
/// value reached there.
pub open spec fn spec_assigned(vars: Seq<FlagVariant>, i: int) -> Expr {
    match vars[i].explicit_value {
        Some(e) => e,
        None => Expr::Bit(count_defaults(vars, i) as usize),
    }
}

/// How many constants the compiled type holds for `n` variants.
pub open spec fn spec_constants_len(c: Config, n: int) -> int {
    if c.inverted_flags {
        2 * n
    } else {
        n
    }
}

/// What constant `j` of the compiled type must be: without
/// `inverted_flags`, the assigned value of variant `j` under its name;
/// with it, the constants come in adjacent pairs, the assigned value of
/// variant `j / 2` followed by its complement under the `Inverted`
/// prefix.
pub open spec fn spec_constant_ok(cst: Constant, vars: Seq<FlagVariant>, c: Config, j: int) -> bool {
    if c.inverted_flags {
        if j % 2 == 0 {
            &&& cst.name@ == vars[j / 2].name@
            &&& cst.value == spec_assigned(vars, j / 2)
        } else {
            &&& cst.name@ == "Inverted"@ + vars[j / 2].name@
            &&& cst.value == Expr::Not(Box::new(spec_assigned(vars, j / 2)))
        }
    } else {
        &&& cst.name@ == vars[j].name@
        &&& cst.value == spec_assigned(vars, j)
    }
}

/// What a successful compilation pass yields for the given storage,
/// configuration, type name and variant list.
pub open spec fn parse_result_ok(
    g: GeneratedType,
    t: StorageType,
    c: Config,
    name: String,
    vars: Seq<FlagVariant>,
) -> bool {
    &&& g.storage_type == t
    &&& g.config == c
    &&& g.name@ == name@
    &&& g.constants@.len() == spec_constants_len(c, vars.len() as int)
    &&& forall|j: int|
        0 <= j < g.constants@.len() ==> spec_constant_ok(
            #[trigger] g.constants@[j],
            vars,
            c,
            j,
        )
}

/// The full postcondition of the compilation pass, covering the error
/// cases: an unresolvable width token wins over a bad config clause, and
/// a pass with both resolved yields the compiled type description.
pub open spec fn parse_post(
    r: Result<GeneratedType, CompileError>,
    typ: Option<String>,
    config_args: Option<Vec<String>>,
    name: String,
    vars: Seq<FlagVariant>,
) -> bool {
    match spec_resolved_width(typ) {
        None => {
            &&& r matches Err(CompileError::InvalidWidth(tok))
            &&& typ matches Some(s) && tok@ == s@
        },
        Some(t) => match spec_resolved_config(config_args) {
            Err(n) => {
                &&& r matches Err(CompileError::UnknownConfigOption(opt))
                &&& opt@ == n
            },
            Ok(c) => {
                &&& r matches Ok(g)
                &&& parse_result_ok(g, t, c, name, vars)
            },
        },
    }
}

/// One compilation pass: resolves the width token and the config clause,
/// assigns every variant its value expression (a fresh single bit for a
/// defaulted variant, its own expression for an explicit one), expands
/// inverted flags when configured, and assembles the compiled type
/// description.
pub fn parse(
    typ: Option<String>,
    config_args: Option<Vec<String>>,
    name: String,
    variants: &Vec<FlagVariant>,
) -> (r: Result<GeneratedType, CompileError>)
    ensures
        parse_post(r, typ, config_args, name, variants@),
{
    let storage = match parse_typ(typ) {
        Ok(t) => t,
        Err(e) => {
            return Err(e);
        },
    };
    let config = match &config_args {
        Some(a) => match Config::parse(a) {
            Ok(c) => c,
            Err(e) => {
                return Err(e);
            },
        },
        None => Config::new(),
    };

    let n = variants.len();
    let mut constants: Vec<Constant> = Vec::new();
    let mut k: usize = 0;
    let mut i: usize = 0;
    while i < n
        invariant
            n == variants@.len(),
            i <= n,
            k == count_defaults(variants@, i as int),
            constants@.len() == spec_constants_len(config, i as int),
            forall|j: int|
                0 <= j < constants@.len() ==> spec_constant_ok(
                    #[trigger] constants@[j],
                    variants@,
                    config,
                    j,
                ),
        decreases n - i,
    {
        let v = &variants[i];
        proof {
            lemma_count_defaults_bounds(variants@, i as int);
        }
        let expr: Expr = match &v.explicit_value {
            Some(e) => e.duplicate(),
            None => {
                let b = Expr::Bit(k);
                k = k + 1;
                b
            },
        };
        if config.inverted_flags {
            let inv_value = Expr::Not(Box::new(expr.duplicate()));
            let mut inv_name = String::from_str("Inverted");
            inv_name.append(v.name.as_str());
            constants.push(Constant { name: v.name.clone(), value: expr });
            constants.push(Constant { name: inv_name, value: inv_value });
        } else {
            constants.push(Constant { name: v.name.clone(), value: expr });
        }
        i = i + 1;
    }
    Ok(GeneratedType { name, storage_type: storage, config, constants })
}

} // verus!
