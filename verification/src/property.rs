//! The property grammar engine: header, meta-clause dispatch with bounded
//! repetition, and the generic ranged clause, stated once over the numeric
//! bounds of the scalar kind and instantiated per kind.
use vstd::prelude::*;

use crate::text::{
    digits_value, ident_end, is_ident_start, scan_digits, skip_ws, spec_digits_end,
    spec_ident_end, spec_skip_ws, spec_tag, tag_at,
};

verus! {

/// A two-sided, independently optional numeric bound.
#[verifier::ext_equal]
pub ghost struct RangeView {
    pub lower: Option<int>,
    pub upper: Option<int>,
}

/// The kind-independent content of a parsed property declaration.
#[verifier::ext_equal]
pub ghost struct PropertyView {
    pub class: Seq<char>,
    pub name: Seq<char>,
    pub is_optional: bool,
    pub is_array: bool,
    pub default_value: Option<int>,
    pub domain_validator: Option<RangeView>,
}

/// One meta-clause: a domain range, a default value, or the optional flag.
#[verifier::ext_equal]
pub ghost enum MetaView {
    Domain(RangeView),
    Default(int),
    Optional,
}

pub open spec fn range_kw() -> Seq<char> {
    seq!['r', 'a', 'n', 'g', 'e']
}

pub open spec fn default_kw() -> Seq<char> {
    seq!['d', 'e', 'f', 'a', 'u', 'l', 't']
}

pub open spec fn optional_kw() -> Seq<char> {
    seq!['o', 'p', 't', 'i', 'o', 'n', 'a', 'l']
}

/// An optionally signed decimal literal at `i`, accepted only when its value
/// lies in `[min, max]`; a literal out of range fails without consuming.
pub open spec fn spec_int_lit(s: Seq<char>, i: int, min: int, max: int) -> Option<(int, int)> {
    let (neg, j): (bool, int) = if 0 <= i < s.len() && s[i] == '-' {
        (true, i + 1)
    } else if 0 <= i < s.len() && s[i] == '+' {
        (false, i + 1)
    } else {
        (false, i)
    };
    let e = spec_digits_end(s, j);
    if e == j {
        None
    } else {
        let mag = digits_value(s.subrange(j, e));
        let v = if neg {
            -mag
        } else {
            mag
        };
        if min <= v <= max {
            Some((v, e))
        } else {
            None
        }
    }
}

/// `range <ws>* = <ws>* [ <ws>* lower? <ws>* , <ws>* upper? <ws>* ]`, both
/// bounds independently optional. No ordering between the bounds is checked.
pub open spec fn spec_range_clause(s: Seq<char>, i: int, min: int, max: int) -> Option<
    (RangeView, int),
> {
    if !spec_tag(s, i, range_kw()) {
        None
    } else {
        let j = spec_skip_ws(s, i + range_kw().len());
        if !(j < s.len() && s[j] == '=') {
            None
        } else {
            let k = spec_skip_ws(s, j + 1);
            if !(k < s.len() && s[k] == '[') {
                None
            } else {
                let m = spec_skip_ws(s, k + 1);
                let (lower, m2): (Option<int>, int) = match spec_int_lit(s, m, min, max) {
                    Some((v, p)) => (Some(v), spec_skip_ws(s, p)),
                    None => (None, m),
                };
                if !(m2 < s.len() && s[m2] == ',') {
                    None
                } else {
                    let m3 = spec_skip_ws(s, m2 + 1);
                    let (upper, m4): (Option<int>, int) = match spec_int_lit(s, m3, min, max) {
                        Some((v, p)) => (Some(v), spec_skip_ws(s, p)),
                        None => (None, m3),
                    };
                    if !(m4 < s.len() && s[m4] == ']') {
                        None
                    } else {
                        Some((RangeView { lower, upper }, m4 + 1))
                    }
                }
            }
        }
    }
}

/// `default <ws>* = <ws>* <literal>`; a wrong-typed or out-of-range literal
/// fails the whole clause without consuming it.
pub open spec fn spec_default_clause(s: Seq<char>, i: int, min: int, max: int) -> Option<
    (int, int),
> {
    if !spec_tag(s, i, default_kw()) {
        None
    } else {
        let j = spec_skip_ws(s, i + default_kw().len());
        if !(j < s.len() && s[j] == '=') {
            None
        } else {
            let k = spec_skip_ws(s, j + 1);
            spec_int_lit(s, k, min, max)
        }
    }
}

/// One whitespace-prefixed meta-clause at `i`, probing range, then default,
/// then the bare `optional` keyword, in that fixed order.
pub open spec fn spec_meta(s: Seq<char>, i: int, min: int, max: int) -> Option<(MetaView, int)> {
    let j = spec_skip_ws(s, i);
    if j == i {
        None
    } else {
        match spec_range_clause(s, j, min, max) {
            Some((rv, e)) => Some((MetaView::Domain(rv), e)),
            None => match spec_default_clause(s, j, min, max) {
                Some((v, e)) => Some((MetaView::Default(v), e)),
                None => if spec_tag(s, j, optional_kw()) {
                    Some((MetaView::Optional, j + optional_kw().len()))
                } else {
                    None
                },
            },
        }
    }
}

/// Folds one meta-clause into the record: the later clause of a kind
/// silently overwrites the earlier one.
pub open spec fn spec_apply(p: PropertyView, m: MetaView) -> PropertyView {
    match m {
        MetaView::Domain(r) => PropertyView { domain_validator: Some(r), ..p },
        MetaView::Default(v) => PropertyView { default_value: Some(v), ..p },
        MetaView::Optional => PropertyView { is_optional: true, ..p },
    }
}

/// At most `n` meta-clauses folded in encounter order; stops without error
/// at the first position where none matches.
pub open spec fn spec_apply_metas(
    s: Seq<char>,
    i: int,
    min: int,
    max: int,
    n: nat,
    p: PropertyView,
) -> (PropertyView, int)
    decreases n,
{
    if n == 0 {
        (p, i)
    } else {
        match spec_meta(s, i, min, max) {
            None => (p, i),
            Some((m, j)) => spec_apply_metas(s, j, min, max, (n - 1) as nat, spec_apply(p, m)),
        }
    }
}

/// The optional array marker directly after the type keyword: a bracket
/// pair, possibly with interior horizontal whitespace.
pub open spec fn spec_array_marker(s: Seq<char>, k: int) -> (bool, int) {
    if 0 <= k < s.len() && s[k] == '[' && ({
        let m = spec_skip_ws(s, k + 1);
        m < s.len() && s[m] == ']'
    }) {
        (true, spec_skip_ws(s, k + 1) + 1)
    } else {
        (false, k)
    }
}

/// The property header at `i`: `o <ws>+ <kw> ('[' <ws>* ']')? <ws>+ <name>`.
pub open spec fn spec_header(s: Seq<char>, i: int, kw: Seq<char>) -> Option<(Seq<char>, bool, int)> {
    if !(0 <= i < s.len() && s[i] == 'o') {
        None
    } else {
        let j = spec_skip_ws(s, i + 1);
        if j == i + 1 {
            None
        } else if !spec_tag(s, j, kw) {
            None
        } else {
            let k = j + kw.len();
            let (is_array, k2) = spec_array_marker(s, k);
            let n0 = spec_skip_ws(s, k2);
            if n0 == k2 {
                None
            } else {
                let e = spec_ident_end(s, n0);
                if e == n0 {
                    None
                } else {
                    Some((s.subrange(n0, e), is_array, e))
                }
            }
        }
    }
}

/// A whole property declaration of the kind named by `kw`, tagged `class`,
/// with literals bounded by `[min, max]`: the header, then at most three
/// meta-clauses, leftover text unconsumed.
pub open spec fn spec_property(
    s: Seq<char>,
    i: int,
    kw: Seq<char>,
    class: Seq<char>,
    min: int,
    max: int,
) -> Option<(PropertyView, int)> {
    match spec_header(s, i, kw) {
        None => None,
        Some((name, is_array, j)) => {
            let p0 = PropertyView {
                class,
                name,
                is_optional: false,
                is_array,
                default_value: None,
                domain_validator: None,
            };
            let (p, e) = spec_apply_metas(s, j, min, max, 3, p0);
            Some((p, e))
        },
    }
}

pub(crate) fn char_at_is(s: &str, i: usize, c: char) -> (b: bool)
    requires
        i <= s@.len(),
    ensures
        b == (i < s@.len() && s@[i as int] == c),
{
    i < s.unicode_len() && s.get_char(i) == c
}

pub(crate) fn parse_lit_i32(s: &str, i: usize) -> (r: Option<(i32, usize)>)
    requires
        i <= s@.len(),
    ensures
        match spec_int_lit(s@, i as int, i32::MIN as int, i32::MAX as int) {
            Some((v, e)) => r matches Some((rv, re)) && rv as int == v && re as int == e && i <= re
                <= s@.len(),
            None => r is None,
        },
{
    let len = s.unicode_len();
    let (neg, j): (bool, usize) = if i < len && s.get_char(i) == '-' {
        (true, i + 1)
    } else if i < len && s.get_char(i) == '+' {
        (false, i + 1)
    } else {
        (false, i)
    };
    let cap: u64 = if neg {
        2147483648
    } else {
        2147483647
    };
    let (e, m) = scan_digits(s, j, cap);
    if e == j {
        return None;
    }
    match m {
        None => None,
        Some(mag) => {
            let v: i32 = if neg {
                (-(mag as i64)) as i32
            } else {
                mag as i32
            };
            Some((v, e))
        },
    }
}

pub(crate) fn parse_lit_i64(s: &str, i: usize) -> (r: Option<(i64, usize)>)
    requires
        i <= s@.len(),
    ensures
        match spec_int_lit(s@, i as int, i64::MIN as int, i64::MAX as int) {
            Some((v, e)) => r matches Some((rv, re)) && rv as int == v && re as int == e && i <= re
                <= s@.len(),
            None => r is None,
        },
{
    let len = s.unicode_len();
    let (neg, j): (bool, usize) = if i < len && s.get_char(i) == '-' {
        (true, i + 1)
    } else if i < len && s.get_char(i) == '+' {
        (false, i + 1)
    } else {
        (false, i)
    };
    let cap: u64 = if neg {
        9223372036854775808
    } else {
        9223372036854775807
    };
    let (e, m) = scan_digits(s, j, cap);
    if e == j {
        return None;
    }
    match m {
        None => None,
        Some(mag) => {
            let v: i64 = if neg {
                (-(mag as i128)) as i64
            } else {
                mag as i64
            };
            Some((v, e))
        },
    }
}

pub(crate) fn parse_header(s: &str, kw: &str) -> (r: Option<(String, bool, usize)>)
    ensures
        match spec_header(s@, 0, kw@) {
            Some((name, is_array, e)) => r matches Some((n, a, re)) && n@ == name && a == is_array
                && re as int == e && re <= s@.len(),
            None => r is None,
        },
{
    let len = s.unicode_len();
    if !(0 < len && s.get_char(0) == 'o') {
        return None;
    }
    let j = skip_ws(s, 1);
    if j == 1 {
        return None;
    }
    if !tag_at(s, j, kw) {
        return None;
    }
    let k = j + kw.unicode_len();
    let (is_array, k2): (bool, usize) = if k < len && s.get_char(k) == '[' {
        let m = skip_ws(s, k + 1);
        if m < len && s.get_char(m) == ']' {
            (true, m + 1)
        } else {
            (false, k)
        }
    } else {
        (false, k)
    };
    let n0 = skip_ws(s, k2);
    if n0 == k2 {
        return None;
    }
    let e = ident_end(s, n0);
    if e == n0 {
        return None;
    }
    Some((s.substring_char(n0, e).to_owned(), is_array, e))
}

} // verus!
