//! Lexical primitives: character classes, whitespace and token scans, and
//! numeric-literal values. Each exec scan consumes exactly the matched
//! prefix, stated against the spec-level scan of the same name.
use vstd::prelude::*;

verus! {

// ---------------------------------------------------------------------------
// Character classes
// ---------------------------------------------------------------------------
/// Horizontal whitespace, the only whitespace allowed inside a clause.
pub open spec fn is_space(c: char) -> bool {
    c == ' ' || c == '\t'
}

/// Whitespace of any kind, allowed only around top-level declarations.
pub open spec fn is_any_space(c: char) -> bool {
    c == ' ' || c == '\t' || c == '\r' || c == '\n'
}

pub open spec fn is_digit(c: char) -> bool {
    48 <= c as u32 && c as u32 <= 57
}

pub open spec fn is_alpha(c: char) -> bool {
    (65 <= c as u32 && c as u32 <= 90) || (97 <= c as u32 && c as u32 <= 122)
}

pub open spec fn is_ident_start(c: char) -> bool {
    is_alpha(c) || c == '_'
}

pub open spec fn is_ident_char(c: char) -> bool {
    is_ident_start(c) || is_digit(c)
}

/// Characters allowed in a version prerelease or build tag.
pub open spec fn is_tag_char(c: char) -> bool {
    is_alpha(c) || is_digit(c) || c == '-' || c == '.'
}

pub(crate) fn is_space_c(c: char) -> (b: bool)
    ensures
        b == is_space(c),
{
    c == ' ' || c == '\t'
}

pub(crate) fn is_any_space_c(c: char) -> (b: bool)
    ensures
        b == is_any_space(c),
{
    c == ' ' || c == '\t' || c == '\r' || c == '\n'
}

pub(crate) fn is_digit_c(c: char) -> (b: bool)
    ensures
        b == is_digit(c),
{
    let u = c as u32;
    48 <= u && u <= 57
}

pub(crate) fn is_alpha_c(c: char) -> (b: bool)
    ensures
        b == is_alpha(c),
{
    let u = c as u32;
    (65 <= u && u <= 90) || (97 <= u && u <= 122)
}

pub(crate) fn is_ident_start_c(c: char) -> (b: bool)
    ensures
        b == is_ident_start(c),
{
    is_alpha_c(c) || c == '_'
}

pub(crate) fn is_ident_char_c(c: char) -> (b: bool)
    ensures
        b == is_ident_char(c),
{
    is_ident_start_c(c) || is_digit_c(c)
}

pub(crate) fn is_tag_char_c(c: char) -> (b: bool)
    ensures
        b == is_tag_char(c),
{
    is_alpha_c(c) || is_digit_c(c) || c == '-' || c == '.'
}

// ---------------------------------------------------------------------------
// Scans: the first index at or after `i` whose character leaves the class
// ---------------------------------------------------------------------------
pub open spec fn spec_skip_ws(s: Seq<char>, i: int) -> int
    decreases s.len() - i,
{
    if 0 <= i < s.len() && is_space(s[i]) {
        spec_skip_ws(s, i + 1)
    } else {
        i
    }
}

pub open spec fn spec_skip_any_ws(s: Seq<char>, i: int) -> int
    decreases s.len() - i,
{
    if 0 <= i < s.len() && is_any_space(s[i]) {
        spec_skip_any_ws(s, i + 1)
    } else {
        i
    }
}

pub open spec fn spec_digits_end(s: Seq<char>, i: int) -> int
    decreases s.len() - i,
{
    if 0 <= i < s.len() && is_digit(s[i]) {
        spec_digits_end(s, i + 1)
    } else {
        i
    }
}

pub open spec fn spec_tag_end(s: Seq<char>, i: int) -> int
    decreases s.len() - i,
{
    if 0 <= i < s.len() && is_tag_char(s[i]) {
        spec_tag_end(s, i + 1)
    } else {
        i
    }
}

pub open spec fn spec_ident_tail_end(s: Seq<char>, i: int) -> int
    decreases s.len() - i,
{
    if 0 <= i < s.len() && is_ident_char(s[i]) {
        spec_ident_tail_end(s, i + 1)
    } else {
        i
    }
}

/// End of an identifier starting at `i`: one identifier-start character
/// followed by identifier characters. Equals `i` when no identifier starts
/// there.
pub open spec fn spec_ident_end(s: Seq<char>, i: int) -> int {
    if 0 <= i < s.len() && is_ident_start(s[i]) {
        spec_ident_tail_end(s, i + 1)
    } else {
        i
    }
}

proof fn lemma_ident_tail_end_ge(s: Seq<char>, i: int)
    ensures
        spec_ident_tail_end(s, i) >= i,
    decreases s.len() - i,
{
    if 0 <= i < s.len() && is_ident_char(s[i]) {
        lemma_ident_tail_end_ge(s, i + 1);
    }
}

pub proof fn lemma_ident_end_ge(s: Seq<char>, i: int)
    ensures
        spec_ident_end(s, i) >= i,
{
    if 0 <= i < s.len() && is_ident_start(s[i]) {
        lemma_ident_tail_end_ge(s, i + 1);
    }
}

/// End of the dot-separated qualified name starting at `i`: identifier
/// segments joined by single dots; a dot not followed by an identifier is
/// not consumed.
pub open spec fn spec_qname_end(s: Seq<char>, i: int) -> int
    decreases s.len() - i,
        via spec_qname_end_dec
{
    let e = spec_ident_end(s, i);
    if e < s.len() && s[e] == '.' && e + 1 < s.len() && is_ident_start(s[e + 1]) {
        spec_qname_end(s, e + 1)
    } else {
        e
    }
}

#[via_fn]
proof fn spec_qname_end_dec(s: Seq<char>, i: int) {
    lemma_ident_end_ge(s, i);
}

pub fn qname_end(s: &str, i: usize) -> (j: usize)
    requires
        i <= s@.len(),
    ensures
        j as int == spec_qname_end(s@, i as int),
        i <= j <= s@.len(),
{
    let len = s.unicode_len();
    let mut pos = i;
    loop
        invariant
            i <= pos <= len,
            len == s@.len(),
            spec_qname_end(s@, i as int) == spec_qname_end(s@, pos as int),
        decreases len - pos,
    {
        let e = ident_end(s, pos);
        if e < len && s.get_char(e) == '.' && e + 1 < len && is_ident_start_c(s.get_char(e + 1)) {
            proof {
                lemma_ident_end_ge(s@, pos as int);
            }
            pos = e + 1;
        } else {
            return e;
        }
    }
}

/// The keyword `kw` occurs verbatim at position `i`.
pub open spec fn spec_tag(s: Seq<char>, i: int, kw: Seq<char>) -> bool {
    0 <= i && i + kw.len() <= s.len() && s.subrange(i, i + kw.len()) == kw
}

pub fn skip_ws(s: &str, i: usize) -> (j: usize)
    requires
        i <= s@.len(),
    ensures
        j as int == spec_skip_ws(s@, i as int),
        i <= j <= s@.len(),
{
    let len = s.unicode_len();
    let mut pos = i;
    while pos < len && is_space_c(s.get_char(pos))
        invariant
            i <= pos <= len,
            len == s@.len(),
            spec_skip_ws(s@, i as int) == spec_skip_ws(s@, pos as int),
        decreases len - pos,
    {
        pos = pos + 1;
    }
    pos
}

pub fn skip_any_ws(s: &str, i: usize) -> (j: usize)
    requires
        i <= s@.len(),
    ensures
        j as int == spec_skip_any_ws(s@, i as int),
        i <= j <= s@.len(),
{
    let len = s.unicode_len();
    let mut pos = i;
    while pos < len && is_any_space_c(s.get_char(pos))
        invariant
            i <= pos <= len,
            len == s@.len(),
            spec_skip_any_ws(s@, i as int) == spec_skip_any_ws(s@, pos as int),
        decreases len - pos,
    {
        pos = pos + 1;
    }
    pos
}

pub fn tag_end(s: &str, i: usize) -> (j: usize)
    requires
        i <= s@.len(),
    ensures
        j as int == spec_tag_end(s@, i as int),
        i <= j <= s@.len(),
{
    let len = s.unicode_len();
    let mut pos = i;
    while pos < len && is_tag_char_c(s.get_char(pos))
        invariant
            i <= pos <= len,
            len == s@.len(),
            spec_tag_end(s@, i as int) == spec_tag_end(s@, pos as int),
        decreases len - pos,
    {
        pos = pos + 1;
    }
    pos
}

pub fn ident_end(s: &str, i: usize) -> (j: usize)
    requires
        i <= s@.len(),
    ensures
        j as int == spec_ident_end(s@, i as int),
        i <= j <= s@.len(),
{
    let len = s.unicode_len();
    if i < len && is_ident_start_c(s.get_char(i)) {
        let mut pos = i + 1;
        while pos < len && is_ident_char_c(s.get_char(pos))
            invariant
                i + 1 <= pos <= len,
                len == s@.len(),
                spec_ident_tail_end(s@, i + 1) == spec_ident_tail_end(s@, pos as int),
            decreases len - pos,
        {
            pos = pos + 1;
        }
        pos
    } else {
        i
    }
}

pub fn tag_at(s: &str, i: usize, kw: &str) -> (b: bool)
    requires
        i <= s@.len(),
    ensures
        b == spec_tag(s@, i as int, kw@),
{
    let len = s.unicode_len();
    let kl = kw.unicode_len();
    if kl > len - i {
        return false;
    }
    let mut k: usize = 0;
    while k < kl
        invariant
            0 <= k <= kl,
            kl == kw@.len(),
            len == s@.len(),
            i + kl <= len,
            forall|m: int| 0 <= m < k ==> s@[i + m] == kw@[m],
        decreases kl - k,
    {
        if s.get_char(i + k) != kw.get_char(k) {
            proof {
                assert(s@.subrange(i as int, i + kw@.len())[k as int] != kw@[k as int]);
            }
            return false;
        }
        k = k + 1;
    }
    proof {
        assert(s@.subrange(i as int, i + kw@.len()) =~= kw@);
    }
    true
}

// ---------------------------------------------------------------------------
// Numeric values
// ---------------------------------------------------------------------------
pub open spec fn digit_val(c: char) -> int {
    c as u32 - 48
}

/// The value of a run of decimal digits, most significant first.
pub open spec fn digits_value(s: Seq<char>) -> int
    decreases s.len(),
{
    if s.len() == 0 {
        0
    } else {
        digits_value(s.drop_last()) * 10 + digit_val(s.last())
    }
}

/// The value of a version component: digit runs too large for the width
/// fall back to 0.
pub open spec fn comp_value(s: Seq<char>) -> u32 {
    if 0 <= digits_value(s) <= u32::MAX {
        digits_value(s) as u32
    } else {
        0
    }
}

/// Scans the run of digits starting at `i` and computes its value, unless
/// that value exceeds `cap`.
pub fn scan_digits(s: &str, i: usize, cap: u64) -> (r: (usize, Option<u64>))
    requires
        i <= s@.len(),
    ensures
        r.0 as int == spec_digits_end(s@, i as int),
        i <= r.0 <= s@.len(),
        match r.1 {
            Some(v) => v as int == digits_value(s@.subrange(i as int, r.0 as int)) && v <= cap,
            None => digits_value(s@.subrange(i as int, r.0 as int)) > cap,
        },
{
    let len = s.unicode_len();
    let mut pos = i;
    let mut acc: u64 = 0;
    let mut over = false;
    proof {
        assert(s@.subrange(i as int, i as int) =~= Seq::<char>::empty());
    }
    while pos < len && is_digit_c(s.get_char(pos))
        invariant
            i <= pos <= len,
            len == s@.len(),
            spec_digits_end(s@, i as int) == spec_digits_end(s@, pos as int),
            digits_value(s@.subrange(i as int, pos as int)) >= 0,
            over == (digits_value(s@.subrange(i as int, pos as int)) > cap),
            !over ==> acc as int == digits_value(s@.subrange(i as int, pos as int)),
        decreases len - pos,
    {
        let c = s.get_char(pos);
        let d = (c as u32) - 48;
        proof {
            assert(s@.subrange(i as int, pos + 1).drop_last() =~= s@.subrange(
                i as int,
                pos as int,
            ));
            assert(s@.subrange(i as int, pos + 1).last() == s@[pos as int]);
        }
        if !over {
            let next = match acc.checked_mul(10) {
                Some(x) => x.checked_add(d as u64),
                None => None,
            };
            match next {
                Some(y) => {
                    if y > cap {
                        over = true;
                    } else {
                        acc = y;
                    }
                },
                None => {
                    over = true;
                },
            }
        }
        pos = pos + 1;
    }
    if over {
        (pos, None)
    } else {
        (pos, Some(acc))
    }
}

} // verus!
