//! Laws of the library, proved once and for all inputs: clause order does
//! not matter across kinds, repetition of meta-clauses is bounded at three,
//! and serializing a parsed namespace parses back to the same value.
use vstd::prelude::*;

use crate::namespace::{namespace_kw, spec_namespace, NamespaceView};
use crate::property::{spec_apply, spec_apply_metas, spec_meta, MetaView, PropertyView};
use crate::render::{digit_char, render_namespace, render_semver, spec_dec};
use crate::semver::{spec_opt_component, spec_opt_tag, spec_semver, SemVerView};
use crate::text::{
    comp_value, digit_val, is_space, digits_value, is_digit, is_ident_char, is_ident_start, is_tag_char,
    spec_digits_end, spec_ident_end, spec_ident_tail_end, spec_qname_end, spec_skip_ws,
    spec_tag, spec_tag_end,
};

verus! {

/// Both meta-clauses set the same field of the property record.
pub open spec fn same_meta_kind(a: MetaView, b: MetaView) -> bool {
    match (a, b) {
        (MetaView::Domain(_), MetaView::Domain(_)) => true,
        (MetaView::Default(_), MetaView::Default(_)) => true,
        (MetaView::Optional, MetaView::Optional) => true,
        _ => false,
    }
}

/// Clause order does not change the result: folding two meta-clauses of
/// different kinds into a property record commutes.
pub proof fn lemma_meta_apply_commutes(p: PropertyView, a: MetaView, b: MetaView)
    requires
        !same_meta_kind(a, b),
    ensures
        spec_apply(spec_apply(p, a), b) == spec_apply(spec_apply(p, b), a),
{
    assert(spec_apply(spec_apply(p, a), b) =~= spec_apply(spec_apply(p, b), a));
}

/// Bounded repetition: once three meta-clauses have been consumed the
/// dispatcher stops at the position after the third, so a fourth clause
/// beginning there stays in the remainder whether or not it would match.
pub proof fn lemma_meta_repetition_bounded(
    s: Seq<char>,
    i: int,
    min: int,
    max: int,
    p: PropertyView,
    m1: MetaView,
    j1: int,
    m2: MetaView,
    j2: int,
    m3: MetaView,
    j3: int,
)
    requires
        spec_meta(s, i, min, max) == Some((m1, j1)),
        spec_meta(s, j1, min, max) == Some((m2, j2)),
        spec_meta(s, j2, min, max) == Some((m3, j3)),
    ensures
        spec_apply_metas(s, i, min, max, 3, p) == (
            spec_apply(spec_apply(spec_apply(p, m1), m2), m3),
            j3,
        ),
{
    let after_one = spec_apply(p, m1);
    let after_two = spec_apply(after_one, m2);
    let after_three = spec_apply(after_two, m3);
    assert(spec_apply_metas(s, j3, min, max, 0, after_three) == (after_three, j3));
    assert(spec_apply_metas(s, j2, min, max, 1, after_two) == (after_three, j3));
    assert(spec_apply_metas(s, j1, min, max, 2, after_one) == (after_three, j3));
    assert(spec_apply_metas(s, i, min, max, 3, p) == (after_three, j3));
}

// ---------------------------------------------------------------------------
// Scan characterizations used by the round-trip proof
// ---------------------------------------------------------------------------
proof fn lemma_digits_end_at(s: Seq<char>, i: int, e: int)
    requires
        0 <= i <= e <= s.len(),
        forall|k: int| i <= k < e ==> is_digit(#[trigger] s[k]),
        e == s.len() || !is_digit(s[e]),
    ensures
        spec_digits_end(s, i) == e,
    decreases e - i,
{
    if i < e {
        lemma_digits_end_at(s, i + 1, e);
    }
}

proof fn lemma_tag_end_at(s: Seq<char>, i: int, e: int)
    requires
        0 <= i <= e <= s.len(),
        forall|k: int| i <= k < e ==> is_tag_char(#[trigger] s[k]),
        e == s.len() || !is_tag_char(s[e]),
    ensures
        spec_tag_end(s, i) == e,
    decreases e - i,
{
    if i < e {
        lemma_tag_end_at(s, i + 1, e);
    }
}

proof fn lemma_ident_tail_props(s: Seq<char>, i: int)
    requires
        0 <= i <= s.len(),
    ensures
        ({
            let e = spec_ident_tail_end(s, i);
            i <= e <= s.len() && (forall|k: int| i <= k < e ==> is_ident_char(#[trigger] s[k])) && (
            e == s.len() || !is_ident_char(s[e]))
        }),
    decreases s.len() - i,
{
    if i < s.len() && is_ident_char(s[i]) {
        lemma_ident_tail_props(s, i + 1);
    }
}

// ---------------------------------------------------------------------------
// Decimal rendering parses back to the same number
// ---------------------------------------------------------------------------
proof fn lemma_spec_dec_digits(n: nat)
    ensures
        spec_dec(n).len() >= 1,
        forall|k: int| 0 <= k < spec_dec(n).len() ==> is_digit(#[trigger] spec_dec(n)[k]),
    decreases n,
{
    if n < 10 {
        assert(is_digit(digit_char(n as int)));
    } else {
        lemma_spec_dec_digits(n / 10);
        assert forall|k: int| 0 <= k < spec_dec(n).len() implies is_digit(
            #[trigger] spec_dec(n)[k],
        ) by {
            if k < spec_dec(n / 10).len() {
                assert(spec_dec(n)[k] == spec_dec(n / 10)[k]);
            } else {
                assert(spec_dec(n)[k] == digit_char((n % 10) as int));
            }
        }
    }
}

proof fn lemma_digit_char_val(d: int)
    requires
        0 <= d < 10,
    ensures
        digit_val(digit_char(d)) == d,
{
}

proof fn lemma_digits_value_dec(n: nat)
    ensures
        digits_value(spec_dec(n)) == n,
    decreases n,
{
    assert(digits_value(Seq::<char>::empty()) == 0);
    if n < 10 {
        lemma_digit_char_val(n as int);
        assert(spec_dec(n).drop_last() =~= Seq::<char>::empty());
        assert(spec_dec(n).last() == digit_char(n as int));
    } else {
        lemma_digit_char_val((n % 10) as int);
        lemma_digits_value_dec(n / 10);
        assert(spec_dec(n).drop_last() =~= spec_dec(n / 10));
        assert(spec_dec(n).last() == digit_char((n % 10) as int));
    }
}

// ---------------------------------------------------------------------------
// Round trip: serializing a parsed namespace parses back to the same value
// ---------------------------------------------------------------------------
/// Position `k` of a qualified name holds an identifier character, or a dot
/// followed by the start of another segment.
pub open spec fn qname_char_ok(n: Seq<char>, k: int) -> bool {
    is_ident_char(n[k]) || (n[k] == '.' && k + 1 < n.len() && is_ident_start(n[k + 1]))
}

/// A well-formed qualified name: identifier segments joined by single dots.
pub open spec fn valid_qname(n: Seq<char>) -> bool {
    n.len() > 0 && is_ident_start(n[0]) && (forall|k: int|
        0 <= k < n.len() ==> #[trigger] qname_char_ok(n, k))
}

/// A well-formed prerelease or build tag.
pub open spec fn valid_tag(t: Seq<char>) -> bool {
    forall|k: int| 0 <= k < t.len() ==> is_tag_char(#[trigger] t[k])
}

/// A namespace value that the grammar can produce.
pub open spec fn valid_namespace(ns: NamespaceView) -> bool {
    valid_qname(ns.name) && match ns.version {
        Some(v) => valid_tag(v.prerelease) && valid_tag(v.build),
        None => true,
    }
}

proof fn lemma_skip_ws_ge(s: Seq<char>, i: int)
    ensures
        spec_skip_ws(s, i) >= i,
    decreases s.len() - i,
{
    if 0 <= i < s.len() && is_space(s[i]) {
        lemma_skip_ws_ge(s, i + 1);
    }
}

proof fn lemma_tag_scan_props(s: Seq<char>, i: int)
    requires
        0 <= i <= s.len(),
    ensures
        ({
            let e = spec_tag_end(s, i);
            i <= e <= s.len() && (forall|k: int| i <= k < e ==> is_tag_char(#[trigger] s[k]))
        }),
    decreases s.len() - i,
{
    if i < s.len() && is_tag_char(s[i]) {
        lemma_tag_scan_props(s, i + 1);
    }
}

proof fn lemma_opt_tag_valid(s: Seq<char>, i: int, mark: char)
    ensures
        valid_tag(spec_opt_tag(s, i, mark).0),
{
    if 0 <= i < s.len() && s[i] == mark && spec_tag_end(s, i + 1) > i + 1 {
        lemma_tag_scan_props(s, i + 1);
        let t = s.subrange(i + 1, spec_tag_end(s, i + 1));
        assert forall|k: int| 0 <= k < t.len() implies is_tag_char(#[trigger] t[k]) by {
            assert(t[k] == s[i + 1 + k]);
        };
    }
}

/// The region a qualified-name scan consumes is itself a well-formed
/// qualified name.
proof fn lemma_qname_region(s: Seq<char>, j: int)
    requires
        0 <= j < s.len(),
        is_ident_start(s[j]),
    ensures
        ({
            let e = spec_qname_end(s, j);
            j < e <= s.len() && valid_qname(s.subrange(j, e))
        }),
    decreases s.len() - j,
{
    lemma_ident_tail_props(s, j + 1);
    let e0 = spec_ident_tail_end(s, j + 1);
    assert(spec_ident_end(s, j) == e0);
    if e0 < s.len() && s[e0] == '.' && e0 + 1 < s.len() && is_ident_start(s[e0 + 1]) {
        lemma_qname_region(s, e0 + 1);
        let e = spec_qname_end(s, e0 + 1);
        assert(spec_qname_end(s, j) == e);
        let name = s.subrange(j, e);
        let name2 = s.subrange(e0 + 1, e);
        assert(name[0] == s[j]);
        assert forall|k: int| 0 <= k < name.len() implies #[trigger] qname_char_ok(name, k) by {
            if k < e0 - j {
                assert(name[k] == s[j + k]);
            } else if k == e0 - j {
                assert(name[k] == s[e0]);
                assert(name[k + 1] == s[e0 + 1]);
            } else {
                let k2 = k - (e0 - j) - 1;
                assert(qname_char_ok(name2, k2));
                assert(name2[k2] == name[k]);
                if k2 + 1 < name2.len() {
                    assert(name2[k2 + 1] == name[k + 1]);
                }
            }
        };
    } else {
        assert(spec_qname_end(s, j) == e0);
        let name = s.subrange(j, e0);
        assert(name[0] == s[j]);
        assert forall|k: int| 0 <= k < name.len() implies #[trigger] qname_char_ok(name, k) by {
            assert(name[k] == s[j + k]);
        };
    }
}

proof fn lemma_parsed_semver_valid(s: Seq<char>, i: int, v: SemVerView, e: int)
    requires
        spec_semver(s, i) == Some((v, e)),
    ensures
        valid_tag(v.prerelease),
        valid_tag(v.build),
{
    let e1 = spec_digits_end(s, i);
    let e2 = spec_opt_component(s, e1).1;
    let e3 = spec_opt_component(s, e2).1;
    let e4 = spec_opt_tag(s, e3, '-').1;
    lemma_opt_tag_valid(s, e3, '-');
    lemma_opt_tag_valid(s, e4, '+');
}

/// Every namespace value the parser can produce is well-formed, so the
/// round-trip law below applies to it.
pub proof fn lemma_parsed_namespace_valid(s: Seq<char>, i: int, ns: NamespaceView, e: int)
    requires
        spec_namespace(s, i) == Some((ns, e)),
    ensures
        valid_namespace(ns),
{
    let j = spec_skip_ws(s, i + namespace_kw().len());
    lemma_skip_ws_ge(s, i + namespace_kw().len());
    assert(0 <= j < s.len() && is_ident_start(s[j]));
    lemma_qname_region(s, j);
    let qe = spec_qname_end(s, j);
    if qe < s.len() && s[qe] == '@' && spec_semver(s, qe + 1) is Some {
        let (v, e2) = spec_semver(s, qe + 1)->Some_0;
        lemma_parsed_semver_valid(s, qe + 1, v, e2);
    }
}

proof fn lemma_concat_split(s: Seq<char>, x: int, z: int, a: Seq<char>, b: Seq<char>)
    requires
        0 <= x,
        x + a.len() + b.len() == z,
        z <= s.len(),
        s.subrange(x, z) == a + b,
    ensures
        s.subrange(x, x + a.len()) == a,
        s.subrange(x + a.len(), z) == b,
{
    assert forall|m: int| 0 <= m < a.len() implies s.subrange(x, x + a.len() as int)[m]
        == a[m] by {
        assert((a + b)[m] == a[m]);
        assert(s.subrange(x, z)[m] == s[x + m]);
        assert(s.subrange(x, x + a.len() as int)[m] == s[x + m]);
    };
    assert(s.subrange(x, x + a.len()) =~= a);
    assert forall|m: int| 0 <= m < b.len() implies s.subrange(x + a.len() as int, z)[m]
        == b[m] by {
        assert((a + b)[a.len() + m] == b[m]);
        assert(s.subrange(x, z)[a.len() + m] == s[x + a.len() + m]);
        assert(s.subrange(x + a.len() as int, z)[m] == s[x + a.len() + m]);
    };
    assert(s.subrange(x + a.len(), z) =~= b);
}

proof fn lemma_qname_end_at(s: Seq<char>, j: int, n: int)
    requires
        0 <= j,
        0 < n,
        j + n <= s.len(),
        valid_qname(s.subrange(j, j + n)),
        j + n == s.len() || (!is_ident_char(s[j + n]) && s[j + n] != '.'),
    ensures
        spec_qname_end(s, j) == j + n,
    decreases n,
{
    let name = s.subrange(j, j + n);
    assert(name[0] == s[j]);
    lemma_ident_tail_props(s, j + 1);
    let e0 = spec_ident_tail_end(s, j + 1);
    assert(spec_ident_end(s, j) == e0);
    if e0 > j + n {
        assert(is_ident_char(s[j + n]));
        assert(false);
    }
    if e0 == j + n {
        assert(spec_qname_end(s, j) == e0);
    } else {
        let k = e0 - j;
        assert(qname_char_ok(name, k));
        assert(name[k] == s[e0]);
        assert(!is_ident_char(s[e0]));
        assert(s[e0] == '.');
        assert(name[k + 1] == s[e0 + 1]);
        assert(is_ident_start(s[e0 + 1]));
        assert(spec_qname_end(s, j) == spec_qname_end(s, e0 + 1));
        let n2 = j + n - e0 - 1;
        let name2 = s.subrange(e0 + 1, j + n);
        assert(name2[0] == s[e0 + 1]);
        assert forall|k2: int| 0 <= k2 < name2.len() implies #[trigger] qname_char_ok(
            name2,
            k2,
        ) by {
            assert(qname_char_ok(name, k2 + k + 1));
            assert(name2[k2] == name[k2 + k + 1]);
            if k2 + 1 < name2.len() {
                assert(name2[k2 + 1] == name[k2 + k + 2]);
            }
        };
        assert(valid_qname(name2));
        lemma_qname_end_at(s, e0 + 1, n2);
    }
}

/// A serialized version, standing as the tail of `s`, parses back to the
/// same value.
#[verifier::rlimit(60)]
proof fn lemma_semver_round_trip_at(s: Seq<char>, i: int, v: SemVerView)
    requires
        0 <= i <= s.len(),
        valid_tag(v.prerelease),
        valid_tag(v.build),
        s.subrange(i, s.len() as int) == render_semver(v),
    ensures
        spec_semver(s, i) == Some((v, s.len() as int)),
{
    let dmaj = spec_dec(v.major as nat);
    let dmin = spec_dec(v.minor as nat);
    let dpat = spec_dec(v.patch as nat);
    let pre: Seq<char> = if v.prerelease.len() > 0 {
        seq!['-'] + v.prerelease
    } else {
        Seq::<char>::empty()
    };
    let bld: Seq<char> = if v.build.len() > 0 {
        seq!['+'] + v.build
    } else {
        Seq::<char>::empty()
    };
    let r = render_semver(v);
    let a1 = dmaj + seq!['.'];
    let a2 = a1 + dmin;
    let a3 = a2 + seq!['.'];
    let a4 = a3 + dpat;
    let a5 = a4 + pre;
    assert(r == a5 + bld);
    lemma_spec_dec_digits(v.major as nat);
    lemma_spec_dec_digits(v.minor as nat);
    lemma_spec_dec_digits(v.patch as nat);
    lemma_digits_value_dec(v.major as nat);
    lemma_digits_value_dec(v.minor as nat);
    lemma_digits_value_dec(v.patch as nat);
    let o1 = i + dmaj.len();
    let o2 = o1 + 1 + dmin.len();
    let o3 = o2 + 1 + dpat.len();
    let o4 = o3 + pre.len();
    let o5 = o4 + bld.len();
    assert(s.len() == o5);
    lemma_concat_split(s, i, o5, a5, bld);
    lemma_concat_split(s, i, o4, a4, pre);
    lemma_concat_split(s, i, o3, a3, dpat);
    lemma_concat_split(s, i, o2 + 1, a2, seq!['.']);
    lemma_concat_split(s, i, o2, a1, dmin);
    lemma_concat_split(s, i, o1 + 1, dmaj, seq!['.']);
    assert(s[o1] == '.') by {
        assert(s.subrange(o1, o1 + 1)[0] == s[o1]);
    }
    assert(s[o2] == '.') by {
        assert(s.subrange(o2, o2 + 1)[0] == s[o2]);
    }
    // major
    assert forall|k: int| i <= k < o1 implies is_digit(#[trigger] s[k]) by {
        assert(s.subrange(i, o1)[k - i] == s[k]);
        assert(dmaj[k - i] == s[k]);
    };
    lemma_digits_end_at(s, i, o1);
    assert(comp_value(s.subrange(i, o1)) == v.major);
    // minor
    assert forall|k: int| o1 + 1 <= k < o2 implies is_digit(#[trigger] s[k]) by {
        assert(s.subrange(o1 + 1, o2)[k - o1 - 1] == s[k]);
        assert(dmin[k - o1 - 1] == s[k]);
    };
    lemma_digits_end_at(s, o1 + 1, o2);
    assert(comp_value(s.subrange(o1 + 1, o2)) == v.minor);
    assert(spec_opt_component(s, o1) == (v.minor, o2));
    // patch; its terminator is the prerelease mark, the build mark, or the end
    assert forall|k: int| o2 + 1 <= k < o3 implies is_digit(#[trigger] s[k]) by {
        assert(s.subrange(o2 + 1, o3)[k - o2 - 1] == s[k]);
        assert(dpat[k - o2 - 1] == s[k]);
    };
    if v.prerelease.len() > 0 {
        assert(s[o3] == '-') by {
            assert(s.subrange(o3, o4)[0] == s[o3]);
        }
    } else if v.build.len() > 0 {
        assert(s[o4] == '+') by {
            assert(s.subrange(o4, o5)[0] == s[o4]);
        }
    }
    lemma_digits_end_at(s, o2 + 1, o3);
    assert(comp_value(s.subrange(o2 + 1, o3)) == v.patch);
    assert(spec_opt_component(s, o2) == (v.patch, o3));
    // prerelease
    if v.prerelease.len() > 0 {
        lemma_concat_split(s, o3, o4, seq!['-'], v.prerelease);
        assert forall|k: int| o3 + 1 <= k < o4 implies is_tag_char(#[trigger] s[k]) by {
            assert(s.subrange(o3 + 1, o4)[k - o3 - 1] == s[k]);
            assert(v.prerelease[k - o3 - 1] == s[k]);
        };
        if v.build.len() > 0 {
            assert(s[o4] == '+') by {
                assert(s.subrange(o4, o5)[0] == s[o4]);
            }
        }
        lemma_tag_end_at(s, o3 + 1, o4);
        assert(spec_opt_tag(s, o3, '-') == (s.subrange(o3 + 1, o4), o4));
        assert(s.subrange(o3 + 1, o4) == v.prerelease);
    } else {
        assert(v.prerelease =~= Seq::<char>::empty());
        assert(spec_opt_tag(s, o3, '-') == (v.prerelease, o3));
    }
    // build
    if v.build.len() > 0 {
        lemma_concat_split(s, o4, o5, seq!['+'], v.build);
        assert forall|k: int| o4 + 1 <= k < o5 implies is_tag_char(#[trigger] s[k]) by {
            assert(s.subrange(o4 + 1, o5)[k - o4 - 1] == s[k]);
            assert(v.build[k - o4 - 1] == s[k]);
        };
        lemma_tag_end_at(s, o4 + 1, o5);
        assert(spec_opt_tag(s, o4, '+') == (s.subrange(o4 + 1, o5), o5));
        assert(s.subrange(o4 + 1, o5) == v.build);
    } else {
        assert(v.build =~= Seq::<char>::empty());
        assert(spec_opt_tag(s, o4, '+') == (v.build, o4));
    }
    assert(spec_semver(s, i) is Some);
    let got = spec_semver(s, i)->Some_0;
    assert(got.0 =~= v);
    assert(got.1 == s.len());
    assert(spec_semver(s, i) == Some((v, s.len() as int)));
}

/// The round trip of the namespace grammar: serializing any well-formed
/// namespace value gives text that parses back to a structurally equal
/// value, consuming the whole text.
#[verifier::rlimit(60)]
pub proof fn lemma_namespace_round_trip(ns: NamespaceView)
    requires
        valid_namespace(ns),
    ensures
        spec_namespace(render_namespace(ns), 0) == Some(
            (ns, render_namespace(ns).len() as int),
        ),
{
    let s = render_namespace(ns);
    let kw = namespace_kw();
    let vpart: Seq<char> = match ns.version {
        Some(v) => seq!['@'] + render_semver(v),
        None => Seq::<char>::empty(),
    };
    let a1 = kw + seq![' '];
    let a2 = a1 + ns.name;
    assert(s == a2 + vpart);
    assert(s.subrange(0, s.len() as int) =~= s);
    lemma_concat_split(s, 0, s.len() as int, a2, vpart);
    lemma_concat_split(s, 0, a2.len() as int, a1, ns.name);
    lemma_concat_split(s, 0, a1.len() as int, kw, seq![' ']);
    assert(spec_tag(s, 0, kw));
    assert(s[9] == ' ') by {
        assert(s.subrange(9, 10)[0] == s[9]);
    }
    let e = 10 + ns.name.len() as int;
    assert(s[10] == ns.name[0]) by {
        assert(s.subrange(10, e)[0] == s[10]);
    }
    assert(is_ident_start(s[10]));
    assert(spec_skip_ws(s, 10) == 10);
    assert(spec_skip_ws(s, 9) == 10);
    if e < s.len() {
        assert(s[e] == vpart[0]) by {
            assert(s.subrange(e, s.len() as int)[0] == s[e]);
        }
    }
    match ns.version {
        Some(v) => {
            assert(s[e] == '@');
            lemma_qname_end_at(s, 10, ns.name.len() as int);
            lemma_concat_split(s, e, s.len() as int, seq!['@'], render_semver(v));
            lemma_semver_round_trip_at(s, e + 1, v);
            assert(spec_namespace(s, 0) is Some);
            let got = spec_namespace(s, 0)->Some_0;
            assert(got.0 =~= ns);
            assert(got.1 == s.len());
        },
        None => {
            assert(e == s.len());
            lemma_qname_end_at(s, 10, ns.name.len() as int);
            assert(spec_namespace(s, 0) is Some);
            let got = spec_namespace(s, 0)->Some_0;
            assert(got.0 =~= ns);
            assert(got.1 == s.len());
        },
    }
    assert(spec_namespace(s, 0) == Some((ns, s.len() as int)));
}


/// The serialize-then-parse round trip holds of every namespace the parser
/// itself produces: parsing its serialized form gives back the same value
/// and consumes the whole text.
pub proof fn lemma_parse_serialize_round_trip(s: Seq<char>, i: int, ns: NamespaceView, e: int)
    requires
        spec_namespace(s, i) == Some((ns, e)),
    ensures
        spec_namespace(render_namespace(ns), 0) == Some(
            (ns, render_namespace(ns).len() as int),
        ),
{
    lemma_parsed_namespace_valid(s, i, ns, e);
    lemma_namespace_round_trip(ns);
}

} // verus!
