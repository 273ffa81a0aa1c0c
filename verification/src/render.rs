//! Decimal rendering of numbers and the serialized text forms of ranges,
//! versions and namespaces.
use vstd::prelude::*;

use crate::namespace::{namespace_kw, NamespaceView};
use crate::property::RangeView;
use crate::semver::SemVerView;

verus! {

pub open spec fn digit_char(d: int) -> char {
    if d == 0 {
        '0'
    } else if d == 1 {
        '1'
    } else if d == 2 {
        '2'
    } else if d == 3 {
        '3'
    } else if d == 4 {
        '4'
    } else if d == 5 {
        '5'
    } else if d == 6 {
        '6'
    } else if d == 7 {
        '7'
    } else if d == 8 {
        '8'
    } else {
        '9'
    }
}

/// The decimal digits of `n`, most significant first, without leading zeros.
pub open spec fn spec_dec(n: nat) -> Seq<char>
    decreases n,
{
    if n < 10 {
        seq![digit_char(n as int)]
    } else {
        spec_dec(n / 10) + seq![digit_char((n % 10) as int)]
    }
}

pub open spec fn spec_int_text(v: int) -> Seq<char> {
    if v < 0 {
        seq!['-'] + spec_dec((-v) as nat)
    } else {
        spec_dec(v as nat)
    }
}

/// The exact serialized form of a range: `[L, U]`, `[, U]`, `[L,]`, or the
/// empty string when both bounds are absent.
pub open spec fn spec_range_text(r: RangeView) -> Seq<char> {
    match (r.lower, r.upper) {
        (None, None) => Seq::<char>::empty(),
        (Some(l), Some(u)) => seq!['['] + spec_int_text(l) + seq![',', ' '] + spec_int_text(u)
            + seq![']'],
        (None, Some(u)) => seq!['[', ',', ' '] + spec_int_text(u) + seq![']'],
        (Some(l), None) => seq!['['] + spec_int_text(l) + seq![',', ']'],
    }
}

/// The serialized form of a version: all three numeric components, then the
/// tags that are present.
pub open spec fn render_semver(v: SemVerView) -> Seq<char> {
    spec_dec(v.major as nat) + seq!['.'] + spec_dec(v.minor as nat) + seq!['.'] + spec_dec(
        v.patch as nat,
    ) + (if v.prerelease.len() > 0 {
        seq!['-'] + v.prerelease
    } else {
        Seq::<char>::empty()
    }) + (if v.build.len() > 0 {
        seq!['+'] + v.build
    } else {
        Seq::<char>::empty()
    })
}

/// The serialized form of a namespace declaration.
pub open spec fn render_namespace(ns: NamespaceView) -> Seq<char> {
    namespace_kw() + seq![' '] + ns.name + (match ns.version {
        Some(v) => seq!['@'] + render_semver(v),
        None => Seq::<char>::empty(),
    })
}

fn digit_str(d: u64) -> (r: &'static str)
    requires
        d < 10,
    ensures
        r@ == seq![digit_char(d as int)],
{
    let digits = "0123456789";
    proof {
        reveal_strlit("0123456789");
    }
    let ds = digits.substring_char(d as usize, d as usize + 1);
    proof {
        assert(ds@ =~= seq![digit_char(d as int)]);
    }
    ds
}

pub fn u64_to_string(n: u64) -> (r: String)
    ensures
        r@ == spec_dec(n as nat),
    decreases n,
{
    let d: u64 = n % 10;
    let ds = digit_str(d);
    if n < 10 {
        ds.to_owned()
    } else {
        let mut s = u64_to_string(n / 10);
        s.append(ds);
        s
    }
}

pub fn i64_to_string(v: i64) -> (r: String)
    ensures
        r@ == spec_int_text(v as int),
{
    if v < 0 {
        let mag: u64 = (-(v as i128)) as u64;
        let mut s = String::new();
        proof {
            reveal_strlit("-");
            assert("-"@ =~= seq!['-']);
        }
        s.append("-");
        let num = u64_to_string(mag);
        s.append(num.as_str());
        proof {
            assert(s@ =~= seq!['-'] + spec_dec((-(v as int)) as nat));
        }
        s
    } else {
        u64_to_string(v as u64)
    }
}

} // verus!
