//! Relaxed semantic-version parsing: one to three numeric components,
//! each optionally followed by `-prerelease` and `+build`, in that order.
use vstd::prelude::*;

use crate::text::{comp_value, scan_digits, spec_digits_end, spec_tag_end, tag_end};
use crate::render::{render_semver, u64_to_string};
use crate::SyntaxError;
use crate::syntax_error;

verus! {

/// A relaxed semantic version. Components absent from a shorter shape
/// default to 0, as do components whose digits do not fit the width.
#[derive(Debug, PartialEq, Clone)]
pub struct SemVer {
    pub major: u32,
    pub minor: u32,
    pub patch: u32,
    pub prerelease: String,
    pub build: String,
}

#[verifier::ext_equal]
pub ghost struct SemVerView {
    pub major: u32,
    pub minor: u32,
    pub patch: u32,
    pub prerelease: Seq<char>,
    pub build: Seq<char>,
}

impl View for SemVer {
    type V = SemVerView;

    open spec fn view(&self) -> SemVerView {
        SemVerView {
            major: self.major,
            minor: self.minor,
            patch: self.patch,
            prerelease: self.prerelease@,
            build: self.build@,
        }
    }
}

/// An optional `.`-prefixed numeric component at `i`; 0 and no progress
/// when absent.
pub open spec fn spec_opt_component(s: Seq<char>, i: int) -> (u32, int) {
    if 0 <= i < s.len() && s[i] == '.' && spec_digits_end(s, i + 1) > i + 1 {
        (comp_value(s.subrange(i + 1, spec_digits_end(s, i + 1))), spec_digits_end(s, i + 1))
    } else {
        (0, i)
    }
}

/// An optional tag introduced by `mark` at `i`; empty and no progress when
/// absent.
pub open spec fn spec_opt_tag(s: Seq<char>, i: int, mark: char) -> (Seq<char>, int) {
    if 0 <= i < s.len() && s[i] == mark && spec_tag_end(s, i + 1) > i + 1 {
        (s.subrange(i + 1, spec_tag_end(s, i + 1)), spec_tag_end(s, i + 1))
    } else {
        (Seq::<char>::empty(), i)
    }
}

/// The version expression starting at `i`: a mandatory major component,
/// optional minor and patch components, then optional prerelease and build
/// tags.
pub open spec fn spec_semver(s: Seq<char>, i: int) -> Option<(SemVerView, int)> {
    let e1 = spec_digits_end(s, i);
    if e1 == i {
        None
    } else {
        let major = comp_value(s.subrange(i, e1));
        let (minor, e2) = spec_opt_component(s, e1);
        let (patch, e3) = spec_opt_component(s, e2);
        let (prerelease, e4) = spec_opt_tag(s, e3, '-');
        let (build, e5) = spec_opt_tag(s, e4, '+');
        Some((SemVerView { major, minor, patch, prerelease, build }, e5))
    }
}

fn opt_component(s: &str, i: usize) -> (r: (u32, usize))
    requires
        i <= s@.len(),
    ensures
        (r.0, r.1 as int) == spec_opt_component(s@, i as int),
        i <= r.1 <= s@.len(),
{
    let len = s.unicode_len();
    if i < len && s.get_char(i) == '.' {
        let (e, m) = scan_digits(s, i + 1, 0xffff_ffff);
        if e > i + 1 {
            let v: u32 = match m {
                Some(v) => v as u32,
                None => 0,
            };
            (v, e)
        } else {
            (0, i)
        }
    } else {
        (0, i)
    }
}

fn opt_tag(s: &str, i: usize, mark: char) -> (r: (String, usize))
    requires
        i <= s@.len(),
    ensures
        r.0@ == spec_opt_tag(s@, i as int, mark).0,
        r.1 as int == spec_opt_tag(s@, i as int, mark).1,
        i <= r.1 <= s@.len(),
{
    let len = s.unicode_len();
    if i < len && s.get_char(i) == mark {
        let e = tag_end(s, i + 1);
        if e > i + 1 {
            (s.substring_char(i + 1, e).to_owned(), e)
        } else {
            (String::new(), i)
        }
    } else {
        (String::new(), i)
    }
}

pub(crate) fn parse_semver_at(s: &str, i: usize) -> (r: Option<(SemVer, usize)>)
    requires
        i <= s@.len(),
    ensures
        match spec_semver(s@, i as int) {
            Some((v, e)) => r matches Some((sv, re)) && sv@ == v && re as int == e && re
                <= s@.len(),
            None => r is None,
        },
{
    let (e1, m1) = scan_digits(s, i, 0xffff_ffff);
    if e1 == i {
        return None;
    }
    let major: u32 = match m1 {
        Some(v) => v as u32,
        None => 0,
    };
    let (minor, e2) = opt_component(s, e1);
    let (patch, e3) = opt_component(s, e2);
    let (prerelease, e4) = opt_tag(s, e3, '-');
    let (build, e5) = opt_tag(s, e4, '+');
    Some((SemVer { major, minor, patch, prerelease, build }, e5))
}

/// Parses a version expression at the start of `input`, returning the
/// unconsumed remainder and the version. A numeric component whose digits
/// do not fit the component width is taken as 0.
pub fn parse_semver(input: &str) -> (r: Result<(&str, SemVer), SyntaxError>)
    ensures
        match spec_semver(input@, 0) {
            Some((v, e)) => r matches Ok((rem, sv)) && sv@ == v && rem@ == input@.subrange(
                e,
                input@.len() as int,
            ),
            None => r is Err,
        },
{
    match parse_semver_at(input, 0) {
        Some((sv, e)) => Ok((input.substring_char(e, input.unicode_len()), sv)),
        None => Err(syntax_error("version", 0)),
    }
}


/// Serializes a version to text: all three numeric components, then the
/// tags that are present.
pub fn serialize_semver(v: &SemVer) -> (r: String)
    ensures
        r@ == render_semver(v@),
{
    proof {
        reveal_strlit(".");
        assert("."@ =~= seq!['.']);
        reveal_strlit("-");
        assert("-"@ =~= seq!['-']);
        reveal_strlit("+");
        assert("+"@ =~= seq!['+']);
    }
    let mut s = u64_to_string(v.major as u64);
    s.append(".");
    let mi = u64_to_string(v.minor as u64);
    s.append(mi.as_str());
    s.append(".");
    let pa = u64_to_string(v.patch as u64);
    s.append(pa.as_str());
    if !v.prerelease.as_str().is_empty() {
        s.append("-");
        s.append(v.prerelease.as_str());
    }
    if !v.build.as_str().is_empty() {
        s.append("+");
        s.append(v.build.as_str());
    }
    proof {
        assert(s@ =~= render_semver(v@));
    }
    s
}

} // verus!
