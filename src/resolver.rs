//! Resource resolution: configured resources are matched against the cluster's discovery
//! catalog, and each match is expanded into watch selectors.
use crate::cluster::opt_text;
use crate::configuration::Resource;
use crate::strings::texts;
use vstd::prelude::*;

verus! {

/// Whether a kind's objects live in namespaces.
#[derive(Debug, Clone, Copy)]
pub enum Scope {
    Cluster,
    Namespaced,
}

#[derive(Debug, Clone, Copy)]
pub struct Capabilities {
    pub scope: Scope,
}

/// A concrete API resource: group (empty for the core group), version, API version,
/// kind and plural name.
#[derive(Debug)]
pub struct ApiResourceDescriptor {
    pub group: String,
    pub version: String,
    pub api_version: String,
    pub kind: String,
    pub plural: String,
}

impl ApiResourceDescriptor {
    pub fn copy(&self) -> (r: Self)
        ensures
            r == *self,
    {
        ApiResourceDescriptor {
            group: self.group.clone(),
            version: self.version.clone(),
            api_version: self.api_version.clone(),
            kind: self.kind.clone(),
            plural: self.plural.clone(),
        }
    }
}

/// One API group of the catalog: its name, its preferred version, and its resources in
/// every version it serves.
#[derive(Debug)]
pub struct ApiGroupInfo {
    pub name: String,
    pub preferred_version: String,
    pub resources: Vec<(ApiResourceDescriptor, Capabilities)>,
}

/// The API groups, versions and kinds that the cluster serves.
#[derive(Debug)]
pub struct DiscoveryCatalog {
    pub groups: Vec<ApiGroupInfo>,
}

/// A catalog resource matched by the configured resource at `spec_index`.
#[derive(Debug)]
pub struct ResolvedResource {
    pub descriptor: ApiResourceDescriptor,
    pub capabilities: Capabilities,
    pub spec_index: usize,
}

/// One watch target.
#[derive(Debug)]
pub struct ResourceSelector {
    pub descriptor: ApiResourceDescriptor,
    /// The namespace watched; all of them when absent.
    pub namespace: Option<String>,
    pub label_selectors: Vec<String>,
    pub field_selectors: Vec<String>,
    pub event_type: String,
    /// The REST path of the watched collection.
    pub resource_url: String,
}

/// The configured resource accepts the API group `name`.
pub open spec fn group_allowed(spec: Resource, name: Seq<char>) -> bool {
    match spec.api_groups {
        None => true,
        Some(gs) => texts(gs@).contains(name),
    }
}

pub open spec fn entry_matches(
    e: (ApiResourceDescriptor, Capabilities),
    plural: Seq<char>,
    version: Option<Seq<char>>,
) -> bool {
    e.0.plural@ == plural && match version {
        Some(v) => e.0.version@ == v,
        None => true,
    }
}

/// The position of the first resource with the given plural name (and version, if given).
pub open spec fn first_match(
    rs: Seq<(ApiResourceDescriptor, Capabilities)>,
    plural: Seq<char>,
    version: Option<Seq<char>>,
) -> Option<int>
    decreases rs.len(),
{
    if rs.len() == 0 {
        None
    } else {
        match first_match(rs.drop_last(), plural, version) {
            Some(i) => Some(i),
            None => if entry_matches(rs.last(), plural, version) {
                Some(rs.len() - 1)
            } else {
                None
            },
        }
    }
}

/// The resource of `g` named `plural`, in the preferred version when the group serves it
/// there, else in the first version listed.
pub open spec fn pick(g: ApiGroupInfo, plural: Seq<char>) -> Option<int> {
    match first_match(g.resources@, plural, Some(g.preferred_version@)) {
        Some(i) => Some(i),
        None => first_match(g.resources@, plural, None),
    }
}

/// The matches of the configured resource `spec` (at position `s`) in `groups`, as
/// (configured position, group position, resource position), in catalog order.
pub open spec fn matches_in_groups(groups: Seq<ApiGroupInfo>, spec: Resource, s: int) -> Seq<
    (int, int, int),
>
    decreases groups.len(),
{
    if groups.len() == 0 {
        Seq::empty()
    } else {
        let prev = matches_in_groups(groups.drop_last(), spec, s);
        let g = groups.last();
        if group_allowed(spec, g.name@) && pick(g, spec.name@) is Some {
            prev.push((s, groups.len() - 1, pick(g, spec.name@)->0))
        } else {
            prev
        }
    }
}

/// All matches, configured resource by configured resource.
pub open spec fn resolution(groups: Seq<ApiGroupInfo>, specs: Seq<Resource>) -> Seq<(int, int, int)>
    decreases specs.len(),
{
    if specs.len() == 0 {
        Seq::empty()
    } else {
        resolution(groups, specs.drop_last()) + matches_in_groups(
            groups,
            specs.last(),
            specs.len() - 1,
        )
    }
}

proof fn lemma_first_match_prefix(
    rs: Seq<(ApiResourceDescriptor, Capabilities)>,
    plural: Seq<char>,
    version: Option<Seq<char>>,
    n: int,
)
    requires
        0 <= n <= rs.len(),
        first_match(rs.subrange(0, n), plural, version) is Some,
    ensures
        first_match(rs, plural, version) == first_match(rs.subrange(0, n), plural, version),
    decreases rs.len() - n,
{
    if n < rs.len() {
        assert(rs.subrange(0, n + 1).drop_last() =~= rs.subrange(0, n));
        lemma_first_match_prefix(rs, plural, version, n + 1);
    } else {
        assert(rs.subrange(0, n) =~= rs);
    }
}

proof fn lemma_first_match_bounds(
    rs: Seq<(ApiResourceDescriptor, Capabilities)>,
    plural: Seq<char>,
    version: Option<Seq<char>>,
)
    ensures
        first_match(rs, plural, version) matches Some(i) ==> 0 <= i < rs.len(),
    decreases rs.len(),
{
    if rs.len() > 0 {
        lemma_first_match_bounds(rs.drop_last(), plural, version);
    }
}

fn find_resource(
    rs: &Vec<(ApiResourceDescriptor, Capabilities)>,
    plural: &String,
    version: Option<&String>,
) -> (r: Option<usize>)
    ensures
        match r {
            Some(i) => first_match(rs@, plural@, opt_ref_text(version)) == Some(i as int),
            None => first_match(rs@, plural@, opt_ref_text(version)) is None,
        },
{
    let mut i: usize = 0;
    while i < rs.len()
        invariant
            i <= rs@.len(),
            first_match(rs@.subrange(0, i as int), plural@, opt_ref_text(version)) is None,
        decreases rs@.len() - i,
    {
        assert(rs@.subrange(0, i + 1).drop_last() =~= rs@.subrange(0, i as int));
        let e = &rs[i];
        let hit = e.0.plural == *plural && match version {
            Some(v) => e.0.version == *v,
            None => true,
        };
        if hit {
            proof {
                lemma_first_match_prefix(rs@, plural@, opt_ref_text(version), i + 1);
            }
            return Some(i);
        }
        i = i + 1;
    }
    assert(rs@.subrange(0, i as int) =~= rs@);
    None
}

pub open spec fn opt_ref_text(v: Option<&String>) -> Option<Seq<char>> {
    match v {
        Some(s) => Some(s@),
        None => None,
    }
}

fn pick_resource(g: &ApiGroupInfo, plural: &String) -> (r: Option<usize>)
    ensures
        match r {
            Some(i) => pick(*g, plural@) == Some(i as int) && i < g.resources@.len(),
            None => pick(*g, plural@) is None,
        },
{
    proof {
        lemma_first_match_bounds(g.resources@, plural@, Some(g.preferred_version@));
        lemma_first_match_bounds(g.resources@, plural@, None);
    }
    match find_resource(&g.resources, plural, Some(&g.preferred_version)) {
        Some(i) => Some(i),
        None => find_resource(&g.resources, plural, None),
    }
}

fn texts_contain(v: &Vec<String>, x: &String) -> (r: bool)
    ensures
        r == texts(v@).contains(x@),
{
    let mut i: usize = 0;
    while i < v.len()
        invariant
            i <= v@.len(),
            forall|j: int| 0 <= j < i ==> v@[j]@ != x@,
        decreases v@.len() - i,
    {
        if v[i] == *x {
            assert(texts(v@)[i as int] == x@);
            return true;
        }
        i = i + 1;
    }
    proof {
        if texts(v@).contains(x@) {
            let j = choose|j: int| 0 <= j < texts(v@).len() && texts(v@)[j] == x@;
            assert(v@[j]@ == x@);
        }
    }
    false
}

fn allowed(spec: &Resource, name: &String) -> (r: bool)
    ensures
        r == group_allowed(*spec, name@),
{
    match &spec.api_groups {
        None => true,
        Some(gs) => texts_contain(gs, name),
    }
}

/// `r` lists, element by element, the catalog entries that `plan` names.
pub open spec fn follows(
    r: Seq<ResolvedResource>,
    groups: Seq<ApiGroupInfo>,
    plan: Seq<(int, int, int)>,
) -> bool {
    &&& r.len() == plan.len()
    &&& forall|k: int|
        0 <= k < r.len() ==> {
            let (s, g, i) = #[trigger] plan[k];
            &&& r[k].spec_index == s
            &&& r[k].descriptor == groups[g].resources@[i].0
            &&& r[k].capabilities == groups[g].resources@[i].1
        }
}

/// Matches each configured resource, by plural name and allowed API groups, against every
/// group of the catalog, preferring the group's preferred version. A configured resource
/// that matches nothing yields nothing.
pub fn resolve(catalog: &DiscoveryCatalog, specs: &Vec<Resource>) -> (r: Vec<ResolvedResource>)
    ensures
        follows(r@, catalog.groups@, resolution(catalog.groups@, specs@)),
{
    let groups = &catalog.groups;
    let mut r: Vec<ResolvedResource> = Vec::new();
    let mut s: usize = 0;
    while s < specs.len()
        invariant
            s <= specs@.len(),
            follows(r@, groups@, resolution(groups@, specs@.subrange(0, s as int))),
        decreases specs@.len() - s,
    {
        let spec = &specs[s];
        let ghost before = resolution(groups@, specs@.subrange(0, s as int));
        proof {
            assert(specs@.subrange(0, s + 1).drop_last() =~= specs@.subrange(0, s as int));
            assert(resolution(groups@, specs@.subrange(0, s + 1)) == before + matches_in_groups(
                groups@,
                *spec,
                s as int,
            ));
        }
        let mut g: usize = 0;
        while g < groups.len()
            invariant
                s < specs@.len(),
                *spec == specs@[s as int],
                g <= groups@.len(),
                follows(
                    r@,
                    groups@,
                    before + matches_in_groups(groups@.subrange(0, g as int), *spec, s as int),
                ),
            decreases groups@.len() - g,
        {
            let grp = &groups[g];
            let ghost prev = before + matches_in_groups(groups@.subrange(0, g as int), *spec, s as int);
            proof {
                assert(groups@.subrange(0, g + 1).drop_last() =~= groups@.subrange(0, g as int));
            }
            if allowed(spec, &grp.name) {
                if let Some(i) = pick_resource(grp, &spec.name) {
                    let e = &grp.resources[i];
                    r.push(
                        ResolvedResource {
                            descriptor: e.0.copy(),
                            capabilities: e.1,
                            spec_index: s,
                        },
                    );
                    proof {
                        let next = prev.push((s as int, g as int, i as int));
                        assert(before + matches_in_groups(groups@.subrange(0, g + 1), *spec, s as int)
                            =~= next);
                        assert forall|k: int| 0 <= k < r@.len() implies {
                            let (s1, g1, i1) = #[trigger] next[k];
                            &&& r@[k].spec_index == s1
                            &&& r@[k].descriptor == groups@[g1].resources@[i1].0
                            &&& r@[k].capabilities == groups@[g1].resources@[i1].1
                        } by {
                            if k < prev.len() {
                                assert(next[k] == prev[k]);
                            }
                        }
                    }
                } else {
                    assert(before + matches_in_groups(groups@.subrange(0, g + 1), *spec, s as int)
                        =~= prev);
                }
            } else {
                assert(before + matches_in_groups(groups@.subrange(0, g + 1), *spec, s as int)
                    =~= prev);
            }
            g = g + 1;
        }
        assert(groups@.subrange(0, g as int) =~= groups@);
        s = s + 1;
    }
    assert(specs@.subrange(0, s as int) =~= specs@);
    r
}

/// The namespaces of the selectors of a resource: one per configured namespace for a
/// namespaced kind; a single one over all namespaces when none is configured or the kind
/// is cluster-wide.
pub open spec fn selector_namespaces(scope: Scope, namespaces: Seq<String>) -> Seq<Option<Seq<char>>> {
    match scope {
        Scope::Cluster => seq![None],
        Scope::Namespaced => if namespaces.len() == 0 {
            seq![None]
        } else {
            namespaces.map_values(|n: String| Some(n@))
        },
    }
}

/// The REST path of a resource's collection, in one namespace or in all.
pub open spec fn url_path(d: ApiResourceDescriptor, namespace: Option<Seq<char>>) -> Seq<char> {
    "/"@ + (if d.group@.len() == 0 {
        "api"@
    } else {
        "apis"@
    }) + "/"@ + d.api_version@ + "/"@ + match namespace {
        Some(ns) => "namespaces/"@ + ns + "/"@,
        None => Seq::empty(),
    } + d.plural@
}

/// The REST path of a resource's collection, as the cluster client forms it.
pub fn resource_url(d: &ApiResourceDescriptor, namespace: Option<&String>) -> (r: String)
    ensures
        r@ == url_path(*d, opt_ref_text(namespace)),
{
    let mut r = String::from_str("/");
    if d.group.as_str().is_empty() {
        r.append("api");
    } else {
        r.append("apis");
    }
    r.append("/");
    r.append(d.api_version.as_str());
    r.append("/");
    match namespace {
        Some(ns) => {
            r.append("namespaces/");
            r.append(ns.as_str());
            r.append("/");
        },
        None => {},
    }
    r.append(d.plural.as_str());
    proof {
        let grp = if d.group@.len() == 0 {
            "api"@
        } else {
            "apis"@
        };
        let nsp = match opt_ref_text(namespace) {
            Some(ns) => "namespaces/"@ + ns + "/"@,
            None => Seq::<char>::empty(),
        };
        assert(r@ =~= "/"@ + grp + "/"@ + d.api_version@ + "/"@ + nsp + d.plural@);
    }
    r
}

pub fn copy_texts(v: &Vec<String>) -> (r: Vec<String>)
    ensures
        r@ == v@,
{
    let mut r: Vec<String> = Vec::new();
    let mut i: usize = 0;
    while i < v.len()
        invariant
            i <= v@.len(),
            r@ == v@.subrange(0, i as int),
        decreases v@.len() - i,
    {
        r.push(v[i].clone());
        assert(r@ =~= v@.subrange(0, i + 1));
        i = i + 1;
    }
    assert(r@ =~= v@);
    r
}

fn selector(resolved: &ResolvedResource, spec: &Resource, namespace: Option<&String>) -> (r:
    ResourceSelector)
    ensures
        r.descriptor == resolved.descriptor,
        opt_text(r.namespace) == opt_ref_text(namespace),
        r.label_selectors@ == spec.label_selectors@,
        r.field_selectors@ == spec.field_selectors@,
        r.event_type@ == spec.event_type@,
        r.resource_url@ == url_path(resolved.descriptor, opt_ref_text(namespace)),
{
    ResourceSelector {
        descriptor: resolved.descriptor.copy(),
        namespace: match namespace {
            Some(ns) => Some(ns.clone()),
            None => None,
        },
        label_selectors: copy_texts(&spec.label_selectors),
        field_selectors: copy_texts(&spec.field_selectors),
        event_type: spec.event_type.clone(),
        resource_url: resource_url(&resolved.descriptor, namespace),
    }
}

/// The selector `r` watches resource `resolved` in `namespace`, with the label and field
/// selectors and the event-type tag of `spec`.
pub open spec fn selector_of(
    r: ResourceSelector,
    resolved: ResolvedResource,
    spec: Resource,
    namespace: Option<Seq<char>>,
) -> bool {
    &&& r.descriptor == resolved.descriptor
    &&& opt_text(r.namespace) == namespace
    &&& r.label_selectors@ == spec.label_selectors@
    &&& r.field_selectors@ == spec.field_selectors@
    &&& r.event_type@ == spec.event_type@
    &&& r.resource_url@ == url_path(resolved.descriptor, namespace)
}

/// The watch selectors of a resolved resource: one per entry of `selector_namespaces`.
pub fn expand(resolved: &ResolvedResource, spec: &Resource) -> (r: Vec<ResourceSelector>)
    ensures
        r@.len() == selector_namespaces(resolved.capabilities.scope, spec.namespaces@).len(),
        forall|k: int|
            0 <= k < r@.len() ==> selector_of(
                #[trigger] r@[k],
                *resolved,
                *spec,
                selector_namespaces(resolved.capabilities.scope, spec.namespaces@)[k],
            ),
{
    let mut r: Vec<ResourceSelector> = Vec::new();
    let namespaced = match resolved.capabilities.scope {
        Scope::Namespaced => true,
        Scope::Cluster => false,
    };
    if !namespaced || spec.namespaces.len() == 0 {
        r.push(selector(resolved, spec, None));
        return r;
    }
    let ghost sn = selector_namespaces(resolved.capabilities.scope, spec.namespaces@);
    let mut i: usize = 0;
    while i < spec.namespaces.len()
        invariant
            sn == spec.namespaces@.map_values(|n: String| Some(n@)),
            i <= spec.namespaces@.len(),
            r@.len() == i,
            forall|k: int| 0 <= k < i ==> selector_of(#[trigger] r@[k], *resolved, *spec, sn[k]),
        decreases spec.namespaces@.len() - i,
    {
        r.push(selector(resolved, spec, Some(&spec.namespaces[i])));
        i = i + 1;
    }
    r
}

/// A namespaced resource configured with two namespaces is watched through exactly two
/// selectors, one in each namespace.
pub proof fn lemma_two_namespaces_two_selectors(namespaces: Seq<String>)
    requires
        namespaces.len() == 2,
    ensures
        selector_namespaces(Scope::Namespaced, namespaces) == seq![
            Some(namespaces[0]@),
            Some(namespaces[1]@),
        ],
{
    assert(selector_namespaces(Scope::Namespaced, namespaces) =~= seq![
        Some(namespaces[0]@),
        Some(namespaces[1]@),
    ]);
}

} // verus!
