//! Type inference: a REST resource path gives an (API version, kind) pair.
//!
//! Four path shapes are recognised, tried in this order, each at the end of the path:
//! `/api/{version}/{resource}s`, `/api/{version}/namespaces/{ns}/{resource}s`,
//! `/apis/{group}/{version}/{resource}s` and
//! `/apis/{group}/{version}/namespaces/{ns}/{resource}s`.
//! The kind is `{resource}` with its first letter upper-cased.
use crate::cluster::{type_pair, TypeMeta};
use crate::strings::{
    capitalize, capitalized, lemma_segments_nonempty, segments, split_segments, text_eq, texts,
};
use vstd::prelude::*;

verus! {

/// The sets of characters that the parts of a path may hold.
#[derive(Debug)]
pub enum CharClass {
    /// `a-z`, `0-9`
    Version,
    /// `a-z`, `0-9`, `.`
    Group,
    /// `a-z`, `A-Z`, `0-9`, `-`
    Namespace,
    /// `a-z`, `A-Z`, `0-9`
    Name,
}

pub open spec fn lower_or_digit(c: char) -> bool {
    ('a' <= c && c <= 'z') || ('0' <= c && c <= '9')
}

pub open spec fn in_class(c: char, cls: CharClass) -> bool {
    match cls {
        CharClass::Version => lower_or_digit(c),
        CharClass::Group => lower_or_digit(c) || c == '.',
        CharClass::Namespace => lower_or_digit(c) || ('A' <= c && c <= 'Z') || c == '-',
        CharClass::Name => lower_or_digit(c) || ('A' <= c && c <= 'Z'),
    }
}

pub open spec fn all_in_class(s: Seq<char>, cls: CharClass) -> bool {
    forall|i: int| 0 <= i < s.len() ==> #[trigger] in_class(s[i], cls)
}

/// A resource segment: a name in `cls` followed by a final `s`.
pub open spec fn is_plural(s: Seq<char>, cls: CharClass) -> bool {
    s.len() >= 1 && s.last() == 's' && all_in_class(s.drop_last(), cls)
}

/// The kind named by a resource segment.
pub open spec fn kind_of(plural: Seq<char>) -> Seq<char> {
    capitalized(plural.drop_last())
}

pub open spec fn core_path(g: Seq<Seq<char>>) -> bool {
    let n = g.len();
    n >= 4 && g[n - 3] == "api"@ && all_in_class(g[n - 2], CharClass::Version) && is_plural(
        g[n - 1],
        CharClass::Namespace,
    )
}

pub open spec fn core_namespaced_path(g: Seq<Seq<char>>) -> bool {
    let n = g.len();
    n >= 6 && g[n - 5] == "api"@ && all_in_class(g[n - 4], CharClass::Version) && g[n - 3]
        == "namespaces"@ && all_in_class(g[n - 2], CharClass::Namespace) && is_plural(
        g[n - 1],
        CharClass::Name,
    )
}

pub open spec fn group_path(g: Seq<Seq<char>>) -> bool {
    let n = g.len();
    n >= 5 && g[n - 4] == "apis"@ && all_in_class(g[n - 3], CharClass::Group) && all_in_class(
        g[n - 2],
        CharClass::Version,
    ) && is_plural(g[n - 1], CharClass::Name)
}

pub open spec fn group_namespaced_path(g: Seq<Seq<char>>) -> bool {
    let n = g.len();
    n >= 7 && g[n - 6] == "apis"@ && all_in_class(g[n - 5], CharClass::Group) && all_in_class(
        g[n - 4],
        CharClass::Version,
    ) && g[n - 3] == "namespaces"@ && all_in_class(g[n - 2], CharClass::Namespace) && is_plural(
        g[n - 1],
        CharClass::Name,
    )
}

/// The (API version, kind) pair that `path` names, or `None` when no shape matches.
pub open spec fn inferred_type(path: Seq<char>) -> Option<(Seq<char>, Seq<char>)> {
    let g = segments(path);
    let n = g.len();
    if core_path(g) {
        Some((g[n - 2], kind_of(g[n - 1])))
    } else if core_namespaced_path(g) {
        Some((g[n - 4], kind_of(g[n - 1])))
    } else if group_path(g) {
        Some((g[n - 3] + seq!['/'] + g[n - 2], kind_of(g[n - 1])))
    } else if group_namespaced_path(g) {
        Some((g[n - 5] + seq!['/'] + g[n - 4], kind_of(g[n - 1])))
    } else {
        None
    }
}

fn char_in_class(c: char, cls: &CharClass) -> (r: bool)
    ensures
        r == in_class(c, *cls),
{
    let lower_digit = ('a' <= c && c <= 'z') || ('0' <= c && c <= '9');
    match cls {
        CharClass::Version => lower_digit,
        CharClass::Group => lower_digit || c == '.',
        CharClass::Namespace => lower_digit || ('A' <= c && c <= 'Z') || c == '-',
        CharClass::Name => lower_digit || ('A' <= c && c <= 'Z'),
    }
}

/// Whether the first `len` characters of `s` all lie in `cls`.
fn prefix_in_class(s: &str, len: usize, cls: &CharClass) -> (r: bool)
    requires
        len <= s@.len(),
    ensures
        r == all_in_class(s@.subrange(0, len as int), *cls),
{
    let mut i: usize = 0;
    while i < len
        invariant
            len <= s@.len(),
            i <= len,
            forall|j: int| 0 <= j < i ==> #[trigger] in_class(s@[j], *cls),
        decreases len - i,
    {
        if !char_in_class(s.get_char(i), cls) {
            assert(s@.subrange(0, len as int)[i as int] == s@[i as int]);
            return false;
        }
        i = i + 1;
    }
    assert forall|j: int| 0 <= j < len implies #[trigger] in_class(
        s@.subrange(0, len as int)[j],
        *cls,
    ) by {
        assert(s@.subrange(0, len as int)[j] == s@[j]);
    }
    true
}

fn text_in_class(s: &String, cls: CharClass) -> (r: bool)
    ensures
        r == all_in_class(s@, cls),
{
    let n = s.as_str().unicode_len();
    let r = prefix_in_class(s.as_str(), n, &cls);
    assert(s@.subrange(0, n as int) =~= s@);
    r
}

fn plural_in_class(s: &String, cls: CharClass) -> (r: bool)
    ensures
        r == is_plural(s@, cls),
{
    let t = s.as_str();
    let n = t.unicode_len();
    if n == 0 {
        return false;
    }
    if t.get_char(n - 1) != 's' {
        return false;
    }
    let r = prefix_in_class(t, n - 1, &cls);
    assert(s@.subrange(0, n - 1) =~= s@.drop_last());
    r
}

/// The kind named by a resource segment that ends in `s`.
fn kind_from_plural(s: &String) -> (r: String)
    requires
        s@.len() >= 1,
    ensures
        r@ == kind_of(s@),
{
    let t = s.as_str();
    let n = t.unicode_len();
    let stem = t.substring_char(0, n - 1);
    assert(stem@ =~= s@.drop_last());
    capitalize(stem)
}

fn join_group_version(group: &String, version: &String) -> (r: String)
    ensures
        r@ == group@ + seq!['/'] + version@,
{
    let mut r = group.clone();
    r.push('/');
    r.append(version.as_str());
    r
}

/// The type descriptor that a REST resource path names, if any of the four shapes matches.
pub fn infer_type_meta(path: &str) -> (r: Option<TypeMeta>)
    ensures
        type_pair(r) == inferred_type(path@),
{
    let g = split_segments(path);
    let n = g.len();
    let ghost gs = texts(g@);
    proof {
        lemma_segments_nonempty(path@);
        assert(gs == segments(path@));
        assert(gs.len() == n);
    }
    if n >= 4 && text_eq(g[n - 3].as_str(), "api") && text_in_class(&g[n - 2], CharClass::Version)
        && plural_in_class(&g[n - 1], CharClass::Namespace) {
        assert(core_path(gs));
        return Some(
            TypeMeta { api_version: g[n - 2].clone(), kind: kind_from_plural(&g[n - 1]) },
        );
    }
    assert(!core_path(gs));
    if n >= 6 && text_eq(g[n - 5].as_str(), "api") && text_in_class(&g[n - 4], CharClass::Version)
        && text_eq(g[n - 3].as_str(), "namespaces") && text_in_class(
        &g[n - 2],
        CharClass::Namespace,
    ) && plural_in_class(&g[n - 1], CharClass::Name) {
        assert(core_namespaced_path(gs));
        return Some(
            TypeMeta { api_version: g[n - 4].clone(), kind: kind_from_plural(&g[n - 1]) },
        );
    }
    assert(!core_namespaced_path(gs));
    if n >= 5 && text_eq(g[n - 4].as_str(), "apis") && text_in_class(&g[n - 3], CharClass::Group)
        && text_in_class(&g[n - 2], CharClass::Version) && plural_in_class(
        &g[n - 1],
        CharClass::Name,
    ) {
        assert(group_path(gs));
        return Some(
            TypeMeta {
                api_version: join_group_version(&g[n - 3], &g[n - 2]),
                kind: kind_from_plural(&g[n - 1]),
            },
        );
    }
    assert(!group_path(gs));
    if n >= 7 && text_eq(g[n - 6].as_str(), "apis") && text_in_class(&g[n - 5], CharClass::Group)
        && text_in_class(&g[n - 4], CharClass::Version) && text_eq(g[n - 3].as_str(), "namespaces")
        && text_in_class(&g[n - 2], CharClass::Namespace) && plural_in_class(
        &g[n - 1],
        CharClass::Name,
    ) {
        assert(group_namespaced_path(gs));
        return Some(
            TypeMeta {
                api_version: join_group_version(&g[n - 5], &g[n - 4]),
                kind: kind_from_plural(&g[n - 1]),
            },
        );
    }
    assert(!group_namespaced_path(gs));
    None
}

} // verus!
