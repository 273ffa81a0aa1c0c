//! The 32-bit integer instantiation of the property grammar engine.
use vstd::prelude::*;

use crate::property::{
    char_at_is, parse_header, parse_lit_i32, spec_apply, spec_apply_metas, spec_default_clause,
    spec_meta, spec_property, spec_range_clause, optional_kw,
    range_kw, default_kw, MetaView, PropertyView, RangeView,
};
use crate::render::{i64_to_string, spec_range_text};
use crate::text::{skip_ws, tag_at};
use crate::syntax_error;
use crate::SyntaxError;

verus! {

/// A 32-bit integer property declaration.
#[derive(Debug, PartialEq, Clone)]
pub struct IntegerProperty {
    pub class: String,
    pub name: String,
    pub is_optional: bool,
    pub is_array: bool,
    pub default_value: Option<i32>,
    pub domain_validator: Option<IntegerDomainValidator>,
}

/// A numeric domain attached to a 32-bit integer property; each bound is
/// independently optional and no ordering between them is enforced.
#[derive(Debug, PartialEq, Clone)]
pub struct IntegerDomainValidator {
    pub lower: Option<i32>,
    pub upper: Option<i32>,
}

impl View for IntegerDomainValidator {
    type V = RangeView;

    open spec fn view(&self) -> RangeView {
        RangeView {
            lower: match self.lower {
                Some(v) => Some(v as int),
                None => None,
            },
            upper: match self.upper {
                Some(v) => Some(v as int),
                None => None,
            },
        }
    }
}

impl View for IntegerProperty {
    type V = PropertyView;

    open spec fn view(&self) -> PropertyView {
        PropertyView {
            class: self.class@,
            name: self.name@,
            is_optional: self.is_optional,
            is_array: self.is_array,
            default_value: match self.default_value {
                Some(v) => Some(v as int),
                None => None,
            },
            domain_validator: match self.domain_validator {
                Some(r) => Some(r@),
                None => None,
            },
        }
    }
}

impl IntegerDomainValidator {
    /// The serialized text form of this range, reproduced byte-exactly for
    /// interchange consumers.
    pub fn to_text(&self) -> (r: String)
        ensures
            r@ == spec_range_text(self@),
    {
        match (self.lower, self.upper) {
            (None, None) => String::new(),
            (Some(l), Some(u)) => {
                let mut s = String::new();
                proof {
                    reveal_strlit("[");
                    reveal_strlit(", ");
                    reveal_strlit("]");
                }
                s.append("[");
                let ls = i64_to_string(l as i64);
                s.append(ls.as_str());
                s.append(", ");
                let us = i64_to_string(u as i64);
                s.append(us.as_str());
                s.append("]");
                proof {
                    assert(s@ =~= spec_range_text(self@));
                }
                s
            },
            (None, Some(u)) => {
                let mut s = String::new();
                proof {
                    reveal_strlit("[, ");
                    reveal_strlit("]");
                }
                s.append("[, ");
                let us = i64_to_string(u as i64);
                s.append(us.as_str());
                s.append("]");
                proof {
                    assert(s@ =~= spec_range_text(self@));
                }
                s
            },
            (Some(l), None) => {
                let mut s = String::new();
                proof {
                    reveal_strlit("[");
                    reveal_strlit(",]");
                }
                s.append("[");
                let ls = i64_to_string(l as i64);
                s.append(ls.as_str());
                s.append(",]");
                proof {
                    assert(s@ =~= spec_range_text(self@));
                }
                s
            },
        }
    }
}

pub open spec fn integer_kw() -> Seq<char> {
    seq!['I', 'n', 't', 'e', 'g', 'e', 'r']
}

pub open spec fn integer_class() -> Seq<char> {
    seq!['I', 'n', 't', 'e', 'g', 'e', 'r', 'P', 'r', 'o', 'p', 'e', 'r', 't', 'y']
}

pub open spec fn spec_integer_property(s: Seq<char>) -> Option<(PropertyView, int)> {
    spec_property(s, 0, integer_kw(), integer_class(), i32::MIN as int, i32::MAX as int)
}

enum IntegerMeta {
    Domain(IntegerDomainValidator),
    Default(i32),
    Optional,
}

impl View for IntegerMeta {
    type V = MetaView;

    closed spec fn view(&self) -> MetaView {
        match self {
            IntegerMeta::Domain(r) => MetaView::Domain(r@),
            IntegerMeta::Default(v) => MetaView::Default(*v as int),
            IntegerMeta::Optional => MetaView::Optional,
        }
    }
}

fn integer_range_at(s: &str, i: usize) -> (r: Option<(IntegerDomainValidator, usize)>)
    requires
        i <= s@.len(),
    ensures
        match spec_range_clause(s@, i as int, i32::MIN as int, i32::MAX as int) {
            Some((rv, e)) => r matches Some((dv, re)) && dv@ == rv && re as int == e && re
                <= s@.len(),
            None => r is None,
        },
{
    proof {
        reveal_strlit("range");
        assert("range"@ =~= range_kw());
    }
    let _len = s.unicode_len();
    if !tag_at(s, i, "range") {
        return None;
    }
    let j = skip_ws(s, i + 5);
    if !char_at_is(s, j, '=') {
        return None;
    }
    let k = skip_ws(s, j + 1);
    if !char_at_is(s, k, '[') {
        return None;
    }
    let m = skip_ws(s, k + 1);
    let (lower, m2): (Option<i32>, usize) = match parse_lit_i32(s, m) {
        Some((v, p)) => (Some(v), skip_ws(s, p)),
        None => (None, m),
    };
    if !char_at_is(s, m2, ',') {
        return None;
    }
    let m3 = skip_ws(s, m2 + 1);
    let (upper, m4): (Option<i32>, usize) = match parse_lit_i32(s, m3) {
        Some((v, p)) => (Some(v), skip_ws(s, p)),
        None => (None, m3),
    };
    if !char_at_is(s, m4, ']') {
        return None;
    }
    Some((IntegerDomainValidator { lower, upper }, m4 + 1))
}

fn integer_default_at(s: &str, i: usize) -> (r: Option<(i32, usize)>)
    requires
        i <= s@.len(),
    ensures
        match spec_default_clause(s@, i as int, i32::MIN as int, i32::MAX as int) {
            Some((v, e)) => r matches Some((rv, re)) && rv as int == v && re as int == e && re
                <= s@.len(),
            None => r is None,
        },
{
    proof {
        reveal_strlit("default");
        assert("default"@ =~= default_kw());
    }
    let _len = s.unicode_len();
    if !tag_at(s, i, "default") {
        return None;
    }
    let j = skip_ws(s, i + 7);
    if !char_at_is(s, j, '=') {
        return None;
    }
    let k = skip_ws(s, j + 1);
    parse_lit_i32(s, k)
}

fn integer_meta_at(s: &str, i: usize) -> (r: Option<(IntegerMeta, usize)>)
    requires
        i <= s@.len(),
    ensures
        match spec_meta(s@, i as int, i32::MIN as int, i32::MAX as int) {
            Some((m, e)) => r matches Some((em, re)) && em@ == m && re as int == e && re
                <= s@.len(),
            None => r is None,
        },
{
    let _len = s.unicode_len();
    let j = skip_ws(s, i);
    if j == i {
        return None;
    }
    match integer_range_at(s, j) {
        Some((dv, e)) => {
            return Some((IntegerMeta::Domain(dv), e));
        },
        None => {},
    }
    match integer_default_at(s, j) {
        Some((v, e)) => {
            return Some((IntegerMeta::Default(v), e));
        },
        None => {},
    }
    proof {
        reveal_strlit("optional");
        assert("optional"@ =~= optional_kw());
    }
    if tag_at(s, j, "optional") {
        return Some((IntegerMeta::Optional, j + 8));
    }
    None
}

/// Parses a 32-bit integer property declaration with its meta-clauses. At
/// most three meta-clauses are consumed; of two clauses of the same kind the
/// later one silently overwrites the earlier.
pub fn integer_property(input: &str) -> (r: Result<(&str, IntegerProperty), SyntaxError>)
    ensures
        match spec_integer_property(input@) {
            Some((p, e)) => r matches Ok((rem, prop)) && prop@ == p && rem@ == input@.subrange(
                e,
                input@.len() as int,
            ),
            None => r is Err,
        },
{
    proof {
        reveal_strlit("Integer");
        assert("Integer"@ =~= integer_kw());
        reveal_strlit("IntegerProperty");
        assert("IntegerProperty"@ =~= integer_class());
    }
    match parse_header(input, "Integer") {
        None => Err(syntax_error("IntegerProperty", 0)),
        Some((name, is_array, j0)) => {
            let mut prop = IntegerProperty {
                class: "IntegerProperty".to_owned(),
                name,
                is_optional: false,
                is_array,
                default_value: None,
                domain_validator: None,
            };
            let ghost p0 = prop@;
            let ghost smin = i32::MIN as int;
            let ghost smax = i32::MAX as int;
            let mut pos = j0;
            let mut count: usize = 0;
            let mut stop = false;
            while count < 3 && !stop
                invariant
                    smin == i32::MIN as int,
                    smax == i32::MAX as int,
                    pos <= input@.len(),
                    count <= 3,
                    spec_apply_metas(input@, j0 as int, smin, smax, 3, p0) == spec_apply_metas(
                        input@,
                        pos as int,
                        smin,
                        smax,
                        (3 - count) as nat,
                        prop@,
                    ),
                    stop ==> spec_meta(input@, pos as int, smin, smax) is None,
                decreases 3 - count, (if stop { 0int } else { 1int }),
            {
                match integer_meta_at(input, pos) {
                    None => {
                        stop = true;
                    },
                    Some((m, e)) => {
                        let ghost prev = prop@;
                        let ghost mv = m@;
                        match m {
                            IntegerMeta::Domain(dv) => {
                                prop.domain_validator = Some(dv);
                            },
                            IntegerMeta::Default(v) => {
                                prop.default_value = Some(v);
                            },
                            IntegerMeta::Optional => {
                                prop.is_optional = true;
                            },
                        }
                        proof {
                            assert(prop@ =~= spec_apply(prev, mv));
                            assert(spec_meta(input@, pos as int, smin, smax) == Some(
                                (mv, e as int),
                            ));
                            assert(spec_apply_metas(
                                input@,
                                pos as int,
                                smin,
                                smax,
                                (3 - count) as nat,
                                prev,
                            ) == spec_apply_metas(
                                input@,
                                e as int,
                                smin,
                                smax,
                                (3 - count - 1) as nat,
                                spec_apply(prev, mv),
                            ));
                        }
                        pos = e;
                        count = count + 1;
                    },
                }
            }
            let rem = input.substring_char(pos, input.unicode_len());
            Ok((rem, prop))
        },
    }
}

/// Parses a `default=` clause for a 32-bit integer property.
pub fn integer_default_value(input: &str) -> (r: Result<(&str, i32), SyntaxError>)
    ensures
        match spec_default_clause(input@, 0, i32::MIN as int, i32::MAX as int) {
            Some((v, e)) => r matches Ok((rem, rv)) && rv as int == v && rem@ == input@.subrange(
                e,
                input@.len() as int,
            ),
            None => r is Err,
        },
{
    match integer_default_at(input, 0) {
        Some((v, e)) => Ok((input.substring_char(e, input.unicode_len()), v)),
        None => Err(syntax_error("IntegerDefaultValue", 0)),
    }
}

/// Parses a `range=[..]` clause for a 32-bit integer property.
pub fn integer_domain_validator(input: &str) -> (r: Result<
    (&str, IntegerDomainValidator),
    SyntaxError,
>)
    ensures
        match spec_range_clause(input@, 0, i32::MIN as int, i32::MAX as int) {
            Some((rv, e)) => r matches Ok((rem, dv)) && dv@ == rv && rem@ == input@.subrange(
                e,
                input@.len() as int,
            ),
            None => r is Err,
        },
{
    match integer_range_at(input, 0) {
        Some((dv, e)) => Ok((input.substring_char(e, input.unicode_len()), dv)),
        None => Err(syntax_error("IntegerDomainValidator", 0)),
    }
}

} // verus!
