//! Namespace declarations: the `namespace` keyword, a dot-separated
//! qualified name, and an optional `@`-prefixed version suffix.
use vstd::prelude::*;

use crate::semver::{parse_semver_at, spec_semver, SemVer, SemVerView};
use crate::text::{
    is_ident_start, is_ident_start_c, qname_end, skip_ws, spec_qname_end, spec_skip_ws,
    spec_tag, tag_at,
};
use crate::render::render_namespace;
use crate::semver::serialize_semver;
use crate::syntax_error;
use crate::SyntaxError;

verus! {

/// A namespace declaration: a mandatory qualified name and, when an
/// `@`-suffixed version was written, that version.
#[derive(Debug, PartialEq, Clone)]
pub struct Namespace {
    pub name: String,
    pub version: Option<SemVer>,
}

#[verifier::ext_equal]
pub ghost struct NamespaceView {
    pub name: Seq<char>,
    pub version: Option<SemVerView>,
}

impl View for Namespace {
    type V = NamespaceView;

    open spec fn view(&self) -> NamespaceView {
        NamespaceView {
            name: self.name@,
            version: match self.version {
                Some(v) => Some(v@),
                None => None,
            },
        }
    }
}

pub open spec fn namespace_kw() -> Seq<char> {
    seq!['n', 'a', 'm', 'e', 's', 'p', 'a', 'c', 'e']
}

/// The namespace declaration starting at `i`: the keyword, mandatory
/// horizontal whitespace, a qualified name, and an optional version suffix.
/// An `@` that is not followed by a version is left unconsumed.
pub open spec fn spec_namespace(s: Seq<char>, i: int) -> Option<(NamespaceView, int)> {
    if !spec_tag(s, i, namespace_kw()) {
        None
    } else {
        let j = spec_skip_ws(s, i + namespace_kw().len());
        if j == i + namespace_kw().len() {
            None
        } else if !(j < s.len() && is_ident_start(s[j])) {
            None
        } else {
            let e = spec_qname_end(s, j);
            let name = s.subrange(j, e);
            if e < s.len() && s[e] == '@' && spec_semver(s, e + 1) is Some {
                let (v, e2) = spec_semver(s, e + 1)->Some_0;
                Some((NamespaceView { name, version: Some(v) }, e2))
            } else {
                Some((NamespaceView { name, version: None }, e))
            }
        }
    }
}

pub(crate) fn parse_namespace_at(s: &str, i: usize) -> (r: Option<(Namespace, usize)>)
    requires
        i <= s@.len(),
    ensures
        match spec_namespace(s@, i as int) {
            Some((ns, e)) => r matches Some((n, re)) && n@ == ns && re as int == e && re
                <= s@.len(),
            None => r is None,
        },
{
    proof {
        reveal_strlit("namespace");
        assert("namespace"@ =~= namespace_kw());
    }
    let len = s.unicode_len();
    if !tag_at(s, i, "namespace") {
        return None;
    }
    let j = skip_ws(s, i + 9);
    if j == i + 9 {
        return None;
    }
    if !(j < len && is_ident_start_c(s.get_char(j))) {
        return None;
    }
    let e = qname_end(s, j);
    let name = s.substring_char(j, e).to_owned();
    if e < len && s.get_char(e) == '@' {
        match parse_semver_at(s, e + 1) {
            Some((v, e2)) => Some((Namespace { name, version: Some(v) }, e2)),
            None => Some((Namespace { name, version: None }, e)),
        }
    } else {
        Some((Namespace { name, version: None }, e))
    }
}

/// Parses a namespace declaration at the start of `input`, returning the
/// unconsumed remainder and the declaration.
pub fn parse_namespace(input: &str) -> (r: Result<(&str, Namespace), SyntaxError>)
    ensures
        match spec_namespace(input@, 0) {
            Some((ns, e)) => r matches Ok((rem, n)) && n@ == ns && rem@ == input@.subrange(
                e,
                input@.len() as int,
            ),
            None => r is Err,
        },
{
    match parse_namespace_at(input, 0) {
        Some((n, e)) => Ok((input.substring_char(e, input.unicode_len()), n)),
        None => Err(syntax_error("namespace declaration", 0)),
    }
}


/// Serializes a namespace declaration back to source text. The result is
/// not byte-identical to what was parsed (whitespace is not preserved), but
/// parses back to a structurally equal declaration.
pub fn serialize_namespace(ns: &Namespace) -> (r: String)
    ensures
        r@ == render_namespace(ns@),
{
    proof {
        reveal_strlit("namespace ");
        assert("namespace "@ =~= namespace_kw() + seq![' ']);
        reveal_strlit("@");
        assert("@"@ =~= seq!['@']);
    }
    let mut s = String::new();
    s.append("namespace ");
    s.append(ns.name.as_str());
    match &ns.version {
        None => {},
        Some(v) => {
            s.append("@");
            let vs = serialize_semver(v);
            s.append(vs.as_str());
        },
    }
    proof {
        assert(s@ =~= render_namespace(ns@));
    }
    s
}

} // verus!
