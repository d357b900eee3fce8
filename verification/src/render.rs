//! Textual views of runtime values: the numeric views that mirror the
//! storage integer's own representation, and the two textual-debug
//! strategies a generated type can select.

use vstd::prelude::*;

use crate::bitmask::Bitmask;
use crate::emitter::BitmaskType;
use crate::eval::{is_masked, mask_of, spec_mask};

verus! {

/// Relies on String::push: appends the given character to the string.
#[verifier::external_body]
fn push_char(s: &mut String, c: char)
    ensures
        final(s)@ == old(s)@.push(c),
{
    s.push(c);
}

/// The digit character for a value below sixteen.
pub open spec fn spec_digit_char(d: nat, upper: bool) -> char {
    if d == 0 {
        '0'
    } else if d == 1 {
        '1'
    } else if d == 2 {
        '2'
    } else if d == 3 {
        '3'
    } else if d == 4 {
        '4'
    } else if d == 5 {
        '5'
    } else if d == 6 {
        '6'
    } else if d == 7 {
        '7'
    } else if d == 8 {
        '8'
    } else if d == 9 {
        '9'
    } else if d == 10 {
        if upper {
            'A'
        } else {
            'a'
        }
    } else if d == 11 {
        if upper {
            'B'
        } else {
            'b'
        }
    } else if d == 12 {
        if upper {
            'C'
        } else {
            'c'
        }
    } else if d == 13 {
        if upper {
            'D'
        } else {
            'd'
        }
    } else if d == 14 {
        if upper {
            'E'
        } else {
            'e'
        }
    } else {
        if upper {
            'F'
        } else {
            'f'
        }
    }
}

fn digit_char(d: u128, upper: bool) -> (c: char)
    requires
        d < 16,
    ensures
        c == spec_digit_char(d as nat, upper),
{
    if d == 0 {
        '0'
    } else if d == 1 {
        '1'
    } else if d == 2 {
        '2'
    } else if d == 3 {
        '3'
    } else if d == 4 {
        '4'
    } else if d == 5 {
        '5'
    } else if d == 6 {
        '6'
    } else if d == 7 {
        '7'
    } else if d == 8 {
        '8'
    } else if d == 9 {
        '9'
    } else if d == 10 {
        if upper {
            'A'
        } else {
            'a'
        }
    } else if d == 11 {
        if upper {
            'B'
        } else {
            'b'
        }
    } else if d == 12 {
        if upper {
            'C'
        } else {
            'c'
        }
    } else if d == 13 {
        if upper {
            'D'
        } else {
            'd'
        }
    } else if d == 14 {
        if upper {
            'E'
        } else {
            'e'
        }
    } else {
        if upper {
            'F'
        } else {
            'f'
        }
    }
}

/// The digits of `n` in the given base, most significant first, with no
/// leading zeros except for `n == 0` itself.
pub open spec fn spec_radix_digits(n: nat, base: nat, upper: bool) -> Seq<char>
    recommends
        2 <= base <= 16,
    decreases n,
{
    if base < 2 {
        Seq::empty()
    } else if n < base {
        seq![spec_digit_char(n, upper)]
    } else {
        proof {
            vstd::arithmetic::div_mod::lemma_div_decreases(n as int, base as int);
        }
        spec_radix_digits(n / base, base, upper).push(spec_digit_char(n % base, upper))
    }
}

/// Renders `n` in the given base, as the storage integer's own
/// representation would: most significant digit first, no leading
/// zeros, no prefix.
pub fn radix_string(n: u128, base: u128, upper: bool) -> (r: String)
    requires
        2 <= base <= 16,
    ensures
        r@ == spec_radix_digits(n as nat, base as nat, upper),
    decreases n,
{
    if n < base {
        let mut s = String::new();
        push_char(&mut s, digit_char(n, upper));
        proof {
            assert(s@ =~= seq![spec_digit_char(n as nat, upper)]);
        }
        s
    } else {
        proof {
            vstd::arithmetic::div_mod::lemma_div_decreases(n as int, base as int);
        }
        let mut s = radix_string(n / base, base, upper);
        push_char(&mut s, digit_char(n % base, upper));
        s
    }
}

/// Whether the storage value reads as negative: signed storage with the
/// top bit of the width set.
pub open spec fn spec_reads_negative(bits: u128, w: nat, signed: bool) -> bool {
    signed && w >= 1 && bits >= (1u128 << ((w - 1) as u128))
}

/// The decimal rendering of the raw storage value: for a signed storage
/// type with the top bit set, the two's-complement magnitude behind a
/// minus sign, else the value itself.
pub open spec fn spec_storage_decimal(bits: u128, w: nat, signed: bool) -> Seq<char> {
    if spec_reads_negative(bits, w, signed) {
        seq!['-'] + spec_radix_digits((spec_mask(w) - bits + 1) as nat, 10, false)
    } else {
        spec_radix_digits(bits as nat, 10, false)
    }
}

/// Renders the raw storage value in decimal, as the storage integer's
/// own representation: two's-complement signed for signed storage.
pub fn storage_decimal(bits: u128, w: u32, signed: bool) -> (r: String)
    requires
        1 <= w <= 128,
        is_masked(bits, w as nat),
    ensures
        r@ == spec_storage_decimal(bits, w as nat, signed),
{
    let m = mask_of(w);
    proof {
        assert(bits & m == bits ==> bits <= m) by (bit_vector);
    }
    let sh: u128 = (w - 1) as u128;
    let half: u128 = 1u128 << sh;
    if signed && bits >= half {
        proof {
            assert(1u128 << sh >= 1) by (bit_vector)
                requires
                    sh < 128,
            ;
        }
        let mag = (m - bits) + 1;
        let mut s = String::new();
        push_char(&mut s, '-');
        let digits = radix_string(mag, 10, false);
        s.append(digits.as_str());
        proof {
            assert(s@ =~= seq!['-'] + digits@);
        }
        s
    } else {
        radix_string(bits, 10, false)
    }
}

/// The names of the table entries whose value is a non-strict bitwise
/// subset of the given value, in table order.
pub open spec fn spec_subset_names(t: Seq<(Seq<char>, u128)>, bits: u128) -> Seq<Seq<char>>
    decreases t.len(),
{
    if t.len() == 0 {
        Seq::empty()
    } else {
        let pre = spec_subset_names(t.drop_last(), bits);
        if t.last().1 & bits == t.last().1 {
            pre.push(t.last().0)
        } else {
            pre
        }
    }
}

/// The given names joined by a comma and a space.
pub open spec fn spec_joined(names: Seq<Seq<char>>) -> Seq<char>
    decreases names.len(),
{
    if names.len() == 0 {
        Seq::empty()
    } else if names.len() == 1 {
        names[0]
    } else {
        spec_joined(names.drop_last()) + ", "@ + names.last()
    }
}

/// The subset-listing debug view: the type name, then the bracketed,
/// comma-separated names of every table entry contained in the value,
/// in table order.
pub open spec fn spec_vec_debug(name: Seq<char>, t: Seq<(Seq<char>, u128)>, bits: u128) -> Seq<
    char,
> {
    name + "["@ + spec_joined(spec_subset_names(t, bits)) + "]"@
}

/// The default debug view: the type name and the raw storage value.
pub open spec fn spec_struct_debug(name: Seq<char>, bits: u128, w: nat, signed: bool) -> Seq<
    char,
> {
    name + " { bits: "@ + spec_storage_decimal(bits, w, signed) + " }"@
}

impl BitmaskType {
    /// The subset-listing debug strategy that the `vec_debug` toggle
    /// selects.
    fn vec_debug_string(&self, v: &Bitmask) -> (r: String)
        ensures
            r@ == spec_vec_debug(self.name@, self.tview(), v.bits),
    {
        let mut s = self.name.clone();
        s.append("[");
        let mut has_flags = false;
        let n = self.table.len();
        for i in 0..n
            invariant
                n == self.table@.len(),
                s@ == self.name@ + "["@ + spec_joined(
                    spec_subset_names(self.tview().take(i as int), v.bits),
                ),
                has_flags == (spec_subset_names(self.tview().take(i as int), v.bits).len()
                    > 0),
        {
            let ghost t = self.tview();
            let ghost names = spec_subset_names(t.take(i as int), v.bits);
            proof {
                assert(t.take(i + 1).drop_last() =~= t.take(i as int));
                assert(t.take(i + 1).last() == t[i as int]);
            }
            let e = &self.table[i];
            if e.value & v.bits == e.value {
                proof {
                    assert(names.push(t[i as int].0).drop_last() =~= names);
                }
                if has_flags {
                    s.append(", ");
                } else {
                    has_flags = true;
                }
                s.append(e.name.as_str());
                proof {
                    assert(s@ =~= self.name@ + "["@ + spec_joined(
                        spec_subset_names(t.take(i + 1), v.bits),
                    ));
                }
            }
        }
        s.append("]");
        proof {
            assert(self.tview().take(n as int) =~= self.tview());
            assert(s@ =~= spec_vec_debug(self.name@, self.tview(), v.bits));
        }
        s
    }

    /// The default debug strategy: the type name and the raw storage
    /// value, signed storage rendered in two's complement.
    fn struct_debug_string(&self, v: &Bitmask) -> (r: String)
        requires
            v.wf(),
            v.width == self.storage.spec_width(),
        ensures
            r@ == spec_struct_debug(
                self.name@,
                v.bits,
                self.storage.spec_width(),
                self.storage.spec_is_signed(),
            ),
    {
        let mut s = self.name.clone();
        s.append(" { bits: ");
        let d = storage_decimal(v.bits, v.width, self.storage.is_signed());
        s.append(d.as_str());
        s.append(" }");
        proof {
            assert(s@ =~= spec_struct_debug(
                self.name@,
                v.bits,
                self.storage.spec_width(),
                self.storage.spec_is_signed(),
            ));
        }
        s
    }

    /// The textual-debug view of a value of the type, under the
    /// strategy the configuration selects: the subset listing when
    /// `vec_debug` is configured, else the type name and the raw
    /// storage value.
    pub fn debug_string(&self, v: &Bitmask) -> (r: String)
        requires
            v.wf(),
            v.width == self.storage.spec_width(),
        ensures
            r@ == (if self.config.vec_debug {
                spec_vec_debug(self.name@, self.tview(), v.bits)
            } else {
                spec_struct_debug(
                    self.name@,
                    v.bits,
                    self.storage.spec_width(),
                    self.storage.spec_is_signed(),
                )
            }),
    {
        if self.config.vec_debug {
            self.vec_debug_string(v)
        } else {
            self.struct_debug_string(v)
        }
    }
}

impl Bitmask {
    /// The binary view of the bitmask: the storage bits in base two.
    pub fn binary_string(&self) -> (r: String)
        ensures
            r@ == spec_radix_digits(self.bits as nat, 2, false),
    {
        radix_string(self.bits, 2, false)
    }

    /// The octal view of the bitmask: the storage bits in base eight.
    pub fn octal_string(&self) -> (r: String)
        ensures
            r@ == spec_radix_digits(self.bits as nat, 8, false),
    {
        radix_string(self.bits, 8, false)
    }

    /// The lower-case hexadecimal view of the bitmask.
    pub fn lower_hex_string(&self) -> (r: String)
        ensures
            r@ == spec_radix_digits(self.bits as nat, 16, false),
    {
        radix_string(self.bits, 16, false)
    }

    /// The upper-case hexadecimal view of the bitmask.
    pub fn upper_hex_string(&self) -> (r: String)
        ensures
            r@ == spec_radix_digits(self.bits as nat, 16, true),
    {
        radix_string(self.bits, 16, true)
    }
}

} // verus!
