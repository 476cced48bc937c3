//! Catalog entities (components, resources, groups, users, domains, systems) built from
//! the configuration and from cached objects.
use crate::cluster::{opt_text, text_map, ClusterObject};
use crate::configuration::{BackstageSettings, Settings};
use crate::store::{KeyedStore, StringMap};
use crate::strings::{contains_text, lower_of, lowercase, text_contains, text_eq};
use vstd::prelude::*;

verus! {

pub const ENTITY_API_VERSION: &'static str = "backstage.io/v1alpha1";
pub const DEFAULT_OWNER: &'static str = "platform";
pub const DEFAULT_NAMESPACE: &'static str = "default";
/// The label that names the database cluster an object belongs to.
pub const LABEL_CLUSTER: &'static str = "postgres.acme.com/name";
/// The label that names the shard an object belongs to.
pub const LABEL_SHARD: &'static str = "shard.acme.com/name";
/// The label that names an object's role in its application.
pub const LABEL_COMPONENT: &'static str = "app.kubernetes.io/component";
/// The annotation that tells the catalog how to select an entity's cluster objects.
pub const ANN_LABEL_SELECTOR: &'static str = "backstage.io/kubernetes-label-selector";
/// The annotation that tells the catalog the namespace of an entity's cluster objects.
pub const ANN_NAMESPACE: &'static str = "backstage.io/kubernetes-namespace";
/// The annotation that names the Kubernetes cluster an entity lives in.
pub const ANN_CLUSTER: &'static str = "acme.com/kubernetes-cluster";
/// The annotation that carries a database shard's status, as JSON.
pub const ANN_STATUS: &'static str = "backstage.acme.com/postgres-status";
/// The payload member that holds an object's observed status.
pub const STATUS_MEMBER: &'static str = "status";
/// The prefix of entity references to resources.
pub const RESOURCE_REF_PREFIX: &'static str = "resource:default";

#[derive(Debug)]
pub struct Link {
    pub url: String,
    pub title: Option<String>,
    pub icon: Option<String>,
    pub link_type: Option<String>,
}

#[derive(Debug)]
pub struct Metadata {
    pub name: String,
    pub namespace: Option<String>,
    pub title: Option<String>,
    pub description: Option<String>,
    pub labels: Option<StringMap>,
    pub annotations: Option<StringMap>,
    pub tags: Option<Vec<String>>,
    pub links: Option<Vec<Link>>,
}

#[derive(Debug)]
pub struct ComponentSpec {
    pub component_type: String,
    pub lifecycle: String,
    pub owner: String,
    pub system: Option<String>,
    pub subcomponent_of: Option<String>,
    pub provides_apis: Option<Vec<String>>,
    pub consumes_apis: Option<Vec<String>>,
    pub depends_on: Option<Vec<String>>,
    pub dependency_of: Option<Vec<String>>,
}

#[derive(Debug)]
pub struct Component {
    pub api_version: String,
    pub kind: String,
    pub metadata: Metadata,
    pub spec: ComponentSpec,
}

#[derive(Debug)]
pub struct ResourceSpec {
    pub resource_type: String,
    pub owner: String,
    pub system: Option<String>,
    pub depends_on: Option<Vec<String>>,
    pub dependency_of: Option<Vec<String>>,
}

#[derive(Debug)]
pub struct Resource {
    pub api_version: String,
    pub kind: String,
    pub metadata: Metadata,
    pub spec: ResourceSpec,
}

#[derive(Debug)]
pub struct GroupSpec {
    pub group_type: String,
    pub profile: Option<StringMap>,
    pub parent: Option<String>,
    pub children: Vec<String>,
}

#[derive(Debug)]
pub struct Group {
    pub api_version: String,
    pub kind: String,
    pub metadata: Metadata,
    pub spec: GroupSpec,
}

#[derive(Debug)]
pub struct UserSpec {
    pub profile: Option<StringMap>,
    pub member_of: Vec<String>,
}

#[derive(Debug)]
pub struct User {
    pub api_version: String,
    pub kind: String,
    pub metadata: Metadata,
    pub spec: UserSpec,
}

#[derive(Debug)]
pub struct DomainSpec {
    pub owner: String,
    pub subdomain_of: Option<String>,
    pub domain_type: Option<String>,
}

#[derive(Debug)]
pub struct Domain {
    pub api_version: String,
    pub kind: String,
    pub metadata: Metadata,
    pub spec: DomainSpec,
}

#[derive(Debug)]
pub struct SystemSpec {
    pub owner: String,
    pub domain: Option<String>,
    pub system_type: Option<String>,
}

#[derive(Debug)]
pub struct System {
    pub api_version: String,
    pub kind: String,
    pub metadata: Metadata,
    pub spec: SystemSpec,
}

/// Why a cluster object could not be turned into an entity.
#[derive(Debug)]
pub struct EntityError {
    pub kind: String,
    pub name: String,
    pub message: String,
}

impl EntityError {
    /// The error as one line: `kind: <kind> name: <name> err=<message>`.
    pub fn text(&self) -> (r: String)
        ensures
            r@ == "kind: "@ + self.kind@ + " name: "@ + self.name@ + " err="@ + self.message@,
    {
        let mut r = String::from_str("kind: ");
        r.append(self.kind.as_str());
        r.append(" name: ");
        r.append(self.name.as_str());
        r.append(" err=");
        r.append(self.message.as_str());
        r
    }
}

/// The annotations configured for every entity, as a map.
pub open spec fn global_annotations(a: Option<StringMap>) -> Map<Seq<char>, String> {
    match a {
        Some(m) => m@,
        None => Map::empty(),
    }
}

/// `r` is `md` placed in the default namespace, with the configured global annotations in
/// place of its own.
pub open spec fn static_metadata(r: Metadata, global: Option<StringMap>, md: Metadata) -> bool {
    &&& r.name == md.name
    &&& opt_text(r.namespace) == Some(DEFAULT_NAMESPACE@)
    &&& r.title == md.title
    &&& r.description == md.description
    &&& r.labels == md.labels
    &&& r.tags == md.tags
    &&& r.links == md.links
    &&& r.annotations is Some
    &&& r.annotations->0@ == global_annotations(global)
}

/// `r` names `name` in the default namespace and has no other field set but `annotations`.
pub open spec fn named_metadata(r: Metadata, name: Seq<char>) -> bool {
    &&& r.name@ == name
    &&& opt_text(r.namespace) == Some(DEFAULT_NAMESPACE@)
    &&& r.title is None
    &&& r.description is None
    &&& r.labels is None
    &&& r.tags is None
    &&& r.links is None
}

impl Metadata {
    /// Empty metadata in the default namespace.
    pub fn default() -> (r: Self)
        ensures
            named_metadata(r, Seq::empty()),
            r.annotations is None,
    {
        Metadata::new(String::new())
    }

    /// Metadata naming `name` in the default namespace.
    pub fn new(name: String) -> (r: Self)
        ensures
            named_metadata(r, name@),
            r.annotations is None,
    {
        Metadata {
            name,
            namespace: Some(String::from_str(DEFAULT_NAMESPACE)),
            title: None,
            description: None,
            labels: None,
            annotations: None,
            tags: None,
            links: None,
        }
    }

    /// Metadata naming `name`, carrying the configured global annotations when there are any.
    pub fn from_annotations(bsc: &BackstageSettings, name: String) -> (r: Self)
        ensures
            named_metadata(r, name@),
            match bsc.annotations {
                Some(a) => r.annotations is Some && r.annotations->0@ == a@,
                None => r.annotations is None,
            },
    {
        match &bsc.annotations {
            Some(anns) => {
                let mut m = Metadata::new(name);
                m.annotations = Some(anns.copy());
                m
            },
            None => Metadata::new(name),
        }
    }

    /// The metadata of an entity from the configuration: `md` in the default namespace,
    /// annotated with the global annotations (empty when none are configured); these take
    /// the place of the entity's own annotations.
    pub fn from_static_config(bsc: &BackstageSettings, md: Metadata) -> (r: Self)
        ensures
            static_metadata(r, bsc.annotations, md),
    {
        let anns = match &bsc.annotations {
            Some(a) => a.copy(),
            None => KeyedStore::new(),
        };
        let Metadata { name, namespace: _, title, description, labels, annotations: _, tags, links } =
            md;
        Metadata {
            name,
            namespace: Some(String::from_str(DEFAULT_NAMESPACE)),
            title,
            description,
            labels,
            annotations: Some(anns),
            tags,
            links,
        }
    }
}

impl Component {
    /// An experimental service owned by the platform team.
    pub fn default() -> (r: Self)
        ensures
            r.api_version@ == ENTITY_API_VERSION@,
            r.kind@ == "Component"@,
            named_metadata(r.metadata, Seq::empty()),
            r.spec.component_type@ == "service"@,
            r.spec.lifecycle@ == "experimental"@,
            r.spec.owner@ == DEFAULT_OWNER@,
            r.spec.system is None,
            r.spec.subcomponent_of is None,
            r.spec.provides_apis is None,
            r.spec.consumes_apis is None,
            r.spec.depends_on is None,
            r.spec.dependency_of is None,
    {
        Component {
            api_version: String::from_str(ENTITY_API_VERSION),
            kind: String::from_str("Component"),
            metadata: Metadata::default(),
            spec: ComponentSpec {
                component_type: String::from_str("service"),
                lifecycle: String::from_str("experimental"),
                owner: String::from_str(DEFAULT_OWNER),
                system: None,
                subcomponent_of: None,
                provides_apis: None,
                consumes_apis: None,
                depends_on: None,
                dependency_of: None,
            },
        }
    }
}

/// The system that a database cluster belongs to, from its lower-cased name: clusters named
/// after `upf` or `smf` belong to `upf-postgres-<cluster>` or `smf-postgres-<cluster>`.
pub open spec fn cluster_system(lower_name: Seq<char>, cluster: Seq<char>) -> Option<Seq<char>> {
    if contains_text(lower_name, "upf"@) {
        Some("upf-postgres-"@ + cluster)
    } else if contains_text(lower_name, "smf"@) {
        Some("smf-postgres-"@ + cluster)
    } else {
        None
    }
}

/// The system of a database cluster whose lower-cased name is `lower_name`, in the
/// Kubernetes cluster `cluster`.
pub fn system_for_cluster(lower_name: &str, cluster: &str) -> (r: Option<String>)
    ensures
        opt_text(r) == cluster_system(lower_name@, cluster@),
{
    if text_contains(lower_name, "upf") {
        let mut s = String::from_str("upf-postgres-");
        s.append(cluster);
        Some(s)
    } else if text_contains(lower_name, "smf") {
        let mut s = String::from_str("smf-postgres-");
        s.append(cluster);
        Some(s)
    } else {
        None
    }
}

/// `prefix/name`: a reference to the resource entity `name`.
pub open spec fn resource_ref(name: Seq<char>) -> Seq<char> {
    RESOURCE_REF_PREFIX@ + "/"@ + name
}

fn resource_reference(name: &String) -> (r: Vec<String>)
    ensures
        r@.len() == 1,
        r@[0]@ == resource_ref(name@),
{
    let mut s = String::from_str(RESOURCE_REF_PREFIX);
    s.append("/");
    s.append(name.as_str());
    let mut v = Vec::new();
    v.push(s);
    v
}

impl Resource {
    /// A resource of no particular type, owned by the platform team.
    pub fn default() -> (r: Self)
        ensures
            r.api_version@ == ENTITY_API_VERSION@,
            r.kind@ == "Resource"@,
            named_metadata(r.metadata, Seq::empty()),
            r.spec.resource_type@ == "none"@,
            r.spec.owner@ == DEFAULT_OWNER@,
            r.spec.system is None,
            r.spec.depends_on is None,
            r.spec.dependency_of is None,
    {
        Resource {
            api_version: String::from_str(ENTITY_API_VERSION),
            kind: String::from_str("Resource"),
            metadata: Metadata::default(),
            spec: ResourceSpec {
                resource_type: String::from_str("none"),
                owner: String::from_str(DEFAULT_OWNER),
                system: None,
                depends_on: None,
                dependency_of: None,
            },
        }
    }

    /// The database-cluster resource of a shard resource. It takes the shard's metadata,
    /// renamed after the cluster label and without that label; it belongs to the system
    /// that `cluster_system` gives for the lower-cased cluster name, and depends on the
    /// shard named by the shard label. A shard without labels is refused.
    pub fn postgres_cluster_from_shard(config: &Settings, postgres: Resource) -> (r: Result<
        Self,
        EntityError,
    >)
        ensures
            postgres.metadata.labels is None ==> (r matches Err(e) && e.kind@ == "Resource"@
                && e.name == postgres.metadata.name && e.message@
                == "Resource lacks postgres labels"@),
            postgres.metadata.labels matches Some(labels) ==> (r matches Ok(c) && {
                let cluster = labels@.get(LABEL_CLUSTER@);
                let shard = labels@.get(LABEL_SHARD@);
                &&& c.api_version@ == ENTITY_API_VERSION@
                &&& c.kind@ == "Resource"@
                &&& c.metadata.name == match cluster {
                    Some(n) => n,
                    None => postgres.metadata.name,
                }
                &&& c.metadata.labels matches Some(l) && l@ == labels@.remove(LABEL_CLUSTER@)
                &&& c.metadata.namespace == postgres.metadata.namespace
                &&& c.metadata.annotations == postgres.metadata.annotations
                &&& c.metadata.title == postgres.metadata.title
                &&& c.metadata.description == postgres.metadata.description
                &&& c.metadata.tags == postgres.metadata.tags
                &&& c.metadata.links == postgres.metadata.links
                &&& c.spec.resource_type@ == "postgres-cluster"@
                &&& c.spec.owner@ == DEFAULT_OWNER@
                &&& opt_text(c.spec.system) == match cluster {
                    Some(n) => cluster_system(lower_of(n@), config.cluster@),
                    None => None,
                }
                &&& match shard {
                    Some(s) => c.spec.depends_on matches Some(d) && d@.len() == 1 && d@[0]@
                        == resource_ref(s@),
                    None => c.spec.depends_on is None,
                }
                &&& c.spec.dependency_of is None
            }),
    {
        let Metadata { name, namespace, title, description, labels, annotations, tags, links } =
            postgres.metadata;
        let labels = match labels {
            Some(l) => l,
            None => {
                return Err(
                    EntityError {
                        kind: String::from_str("Resource"),
                        name,
                        message: String::from_str("Resource lacks postgres labels"),
                    },
                );
            },
        };
        let cluster_key = String::from_str(LABEL_CLUSTER);
        let shard_key = String::from_str(LABEL_SHARD);
        let mut cluster_labels = labels.copy();
        let _ = cluster_labels.remove(&cluster_key);
        let (entity_name, system) = match labels.get(&cluster_key) {
            Some(cluster) => {
                let lower = lowercase(cluster.as_str());
                (cluster.clone(), system_for_cluster(lower.as_str(), config.cluster.as_str()))
            },
            None => (name, None),
        };
        let depends_on = match labels.get(&shard_key) {
            Some(shard) => Some(resource_reference(shard)),
            None => None,
        };
        Ok(
            Resource {
                api_version: String::from_str(ENTITY_API_VERSION),
                kind: String::from_str("Resource"),
                metadata: Metadata {
                    name: entity_name,
                    namespace,
                    title,
                    description,
                    labels: Some(cluster_labels),
                    annotations,
                    tags,
                    links,
                },
                spec: ResourceSpec {
                    resource_type: String::from_str("postgres-cluster"),
                    owner: String::from_str(DEFAULT_OWNER),
                    system,
                    depends_on,
                    dependency_of: None,
                },
            },
        )
    }
}

/// `r` is a catalog entity of `kind` built from the configured `md`.
pub open spec fn configured_entity(
    api_version: String,
    kind: String,
    md_out: Metadata,
    want_kind: Seq<char>,
    global: Option<StringMap>,
    md: Metadata,
) -> bool {
    &&& api_version@ == ENTITY_API_VERSION@
    &&& kind@ == want_kind
    &&& static_metadata(md_out, global, md)
}

impl Group {
    /// One group entity per configured group, in order, with its metadata completed as
    /// `from_static_config` does and its spec unchanged.
    pub fn groups_from_config(bsc: BackstageSettings) -> (r: Vec<Self>)
        ensures
            r@.len() == bsc.groups@.len(),
            forall|i: int|
                0 <= i < r@.len() ==> configured_entity(
                    #[trigger] r@[i].api_version,
                    r@[i].kind,
                    r@[i].metadata,
                    "Group"@,
                    bsc.annotations,
                    bsc.groups@[i].metadata,
                ) && r@[i].spec == bsc.groups@[i].spec,
    {
        let mut rest: Vec<Group> = Vec::new();
        let mut settings = bsc;
        std::mem::swap(&mut rest, &mut settings.groups);
        let ghost all = rest@;
        let mut r: Vec<Group> = Vec::new();
        while rest.len() > 0
            invariant
                settings.annotations == bsc.annotations,
                all == bsc.groups@,
                r@.len() + rest@.len() == all.len(),
                rest@ == all.subrange(r@.len() as int, all.len() as int),
                forall|i: int|
                    0 <= i < r@.len() ==> configured_entity(
                        #[trigger] r@[i].api_version,
                        r@[i].kind,
                        r@[i].metadata,
                        "Group"@,
                        bsc.annotations,
                        all[i].metadata,
                    ) && r@[i].spec == all[i].spec,
            decreases rest@.len(),
        {
            let g = rest.remove(0);
            assert(g == all[r@.len() as int]);
            let Group { api_version: _, kind: _, metadata, spec } = g;
            let m = Metadata::from_static_config(&settings, metadata);
            r.push(
                Group {
                    api_version: String::from_str(ENTITY_API_VERSION),
                    kind: String::from_str("Group"),
                    metadata: m,
                    spec,
                },
            );
            assert(rest@ =~= all.subrange(r@.len() as int, all.len() as int));
        }
        r
    }
}

impl User {
    /// One user entity per configured user, in order, with its metadata completed as
    /// `from_static_config` does and its spec unchanged.
    pub fn users_from_config(bsc: BackstageSettings) -> (r: Vec<Self>)
        ensures
            r@.len() == bsc.users@.len(),
            forall|i: int|
                0 <= i < r@.len() ==> configured_entity(
                    #[trigger] r@[i].api_version,
                    r@[i].kind,
                    r@[i].metadata,
                    "User"@,
                    bsc.annotations,
                    bsc.users@[i].metadata,
                ) && r@[i].spec == bsc.users@[i].spec,
    {
        let mut rest: Vec<User> = Vec::new();
        let mut settings = bsc;
        std::mem::swap(&mut rest, &mut settings.users);
        let ghost all = rest@;
        let mut r: Vec<User> = Vec::new();
        while rest.len() > 0
            invariant
                settings.annotations == bsc.annotations,
                all == bsc.users@,
                r@.len() + rest@.len() == all.len(),
                rest@ == all.subrange(r@.len() as int, all.len() as int),
                forall|i: int|
                    0 <= i < r@.len() ==> configured_entity(
                        #[trigger] r@[i].api_version,
                        r@[i].kind,
                        r@[i].metadata,
                        "User"@,
                        bsc.annotations,
                        all[i].metadata,
                    ) && r@[i].spec == all[i].spec,
            decreases rest@.len(),
        {
            let u = rest.remove(0);
            assert(u == all[r@.len() as int]);
            let User { api_version: _, kind: _, metadata, spec } = u;
            let m = Metadata::from_static_config(&settings, metadata);
            r.push(
                User {
                    api_version: String::from_str(ENTITY_API_VERSION),
                    kind: String::from_str("User"),
                    metadata: m,
                    spec,
                },
            );
            assert(rest@ =~= all.subrange(r@.len() as int, all.len() as int));
        }
        r
    }
}

impl Domain {
    /// One domain entity per configured domain, in order (none when no domains are
    /// configured), with its metadata completed as `from_static_config` does and its spec
    /// unchanged.
    pub fn domains_from_config(bsc: BackstageSettings) -> (r: Vec<Self>)
        ensures
            bsc.domains is None ==> r@.len() == 0,
            bsc.domains matches Some(ds) ==> r@.len() == ds@.len() && forall|i: int|
                0 <= i < r@.len() ==> configured_entity(
                    #[trigger] r@[i].api_version,
                    r@[i].kind,
                    r@[i].metadata,
                    "Domain"@,
                    bsc.annotations,
                    ds@[i].metadata,
                ) && r@[i].spec == ds@[i].spec,
    {
        let mut settings = bsc;
        let mut taken: Option<Vec<Domain>> = None;
        std::mem::swap(&mut taken, &mut settings.domains);
        let mut rest = match taken {
            Some(ds) => ds,
            None => {
                return Vec::new();
            },
        };
        let ghost all = rest@;
        let mut r: Vec<Domain> = Vec::new();
        while rest.len() > 0
            invariant
                settings.annotations == bsc.annotations,
                bsc.domains matches Some(ds) && all == ds@,
                r@.len() + rest@.len() == all.len(),
                rest@ == all.subrange(r@.len() as int, all.len() as int),
                forall|i: int|
                    0 <= i < r@.len() ==> configured_entity(
                        #[trigger] r@[i].api_version,
                        r@[i].kind,
                        r@[i].metadata,
                        "Domain"@,
                        bsc.annotations,
                        all[i].metadata,
                    ) && r@[i].spec == all[i].spec,
            decreases rest@.len(),
        {
            let d = rest.remove(0);
            assert(d == all[r@.len() as int]);
            let Domain { api_version: _, kind: _, metadata, spec } = d;
            let m = Metadata::from_static_config(&settings, metadata);
            r.push(
                Domain {
                    api_version: String::from_str(ENTITY_API_VERSION),
                    kind: String::from_str("Domain"),
                    metadata: m,
                    spec,
                },
            );
            assert(rest@ =~= all.subrange(r@.len() as int, all.len() as int));
        }
        r
    }
}

impl System {
    /// A system entity with the given metadata and spec.
    pub fn from_params(mt: Metadata, spec: SystemSpec) -> (r: Result<Self, EntityError>)
        ensures
            r matches Ok(s) && s.api_version@ == ENTITY_API_VERSION@ && s.kind@ == "System"@
                && s.metadata == mt && s.spec == spec,
    {
        Ok(
            System {
                api_version: String::from_str(ENTITY_API_VERSION),
                kind: String::from_str("System"),
                metadata: mt,
                spec,
            },
        )
    }
}

/// What every catalog entity offers.
pub trait BackstageEntity {
    spec fn entity_kind(&self) -> Seq<char>;

    /// The entity's kind, such as `Resource` or `Group`.
    fn entity_type(&self) -> (r: String)
        ensures
            r@ == self.entity_kind(),
    ;
}

impl BackstageEntity for Resource {
    open spec fn entity_kind(&self) -> Seq<char> {
        "Resource"@
    }

    fn entity_type(&self) -> (r: String) {
        String::from_str("Resource")
    }
}

impl BackstageEntity for Group {
    open spec fn entity_kind(&self) -> Seq<char> {
        "Group"@
    }

    fn entity_type(&self) -> (r: String) {
        String::from_str("Group")
    }
}

impl BackstageEntity for User {
    open spec fn entity_kind(&self) -> Seq<char> {
        "User"@
    }

    fn entity_type(&self) -> (r: String) {
        String::from_str("User")
    }
}

impl BackstageEntity for Domain {
    open spec fn entity_kind(&self) -> Seq<char> {
        "Domain"@
    }

    fn entity_type(&self) -> (r: String) {
        String::from_str("Domain")
    }
}

impl BackstageEntity for System {
    open spec fn entity_kind(&self) -> Seq<char> {
        "System"@
    }

    fn entity_type(&self) -> (r: String) {
        String::from_str("System")
    }
}

/// The kinds of cluster objects that the catalog knows.
#[derive(Debug)]
pub enum K8sKinds {
    StatefulSet,
    Deployment,
    Pod,
    Unknown,
}

pub open spec fn kind_of_lowercase(lower: Seq<char>) -> K8sKinds {
    if lower == "statefulset"@ {
        K8sKinds::StatefulSet
    } else if lower == "deployment"@ {
        K8sKinds::Deployment
    } else if lower == "pod"@ {
        K8sKinds::Pod
    } else {
        K8sKinds::Unknown
    }
}

impl K8sKinds {
    /// The kind named by a lower-case kind name.
    pub fn from_lowercase(lower: &str) -> (r: Self)
        ensures
            r == kind_of_lowercase(lower@),
    {
        if text_eq(lower, "statefulset") {
            K8sKinds::StatefulSet
        } else if text_eq(lower, "deployment") {
            K8sKinds::Deployment
        } else if text_eq(lower, "pod") {
            K8sKinds::Pod
        } else {
            K8sKinds::Unknown
        }
    }

    /// The kind named by `name`, in any letter case.
    pub fn get_kind(name: &String) -> (r: Self)
        ensures
            r == kind_of_lowercase(lower_of(name@)),
    {
        let lower = lowercase(name.as_str());
        K8sKinds::from_lowercase(lower.as_str())
    }
}

/// The value of label `key` of `o`.
pub open spec fn label_of(o: ClusterObject, key: Seq<char>) -> Option<String> {
    match o.labels {
        Some(l) => if l@.contains_key(key) {
            Some(l@[key])
        } else {
            None
        },
        None => None,
    }
}

fn get_label<'a>(o: &'a ClusterObject, key: &str) -> (r: Option<&'a String>)
    ensures
        match r {
            Some(v) => label_of(*o, key@) == Some(*v),
            None => label_of(*o, key@) is None,
        },
{
    match &o.labels {
        Some(l) => l.get(&String::from_str(key)),
        None => None,
    }
}

/// Why `o` is not of the lower-case kind `want`: it has no type, or another kind.
pub open spec fn kind_problem(o: ClusterObject, want: Seq<char>, other_kind: Seq<char>) -> Option<Seq<char>> {
    match o.types {
        None => Some("Resource lacks TypeMeta data"@),
        Some(t) => if lower_of(t.kind@) != want {
            Some(other_kind)
        } else {
            None
        },
    }
}

/// `e` reports `message` about the entity `kind` named `name`.
pub open spec fn entity_error(e: EntityError, kind: Seq<char>, name: Seq<char>, message: Seq<char>) -> bool {
    e.kind@ == kind && e.name@ == name && e.message@ == message
}

fn error(kind: &str, name: &String, message: &str) -> (e: EntityError)
    ensures
        entity_error(e, kind@, name@, message@),
{
    EntityError { kind: String::from_str(kind), name: name.clone(), message: String::from_str(message) }
}

fn check_kind(entity_kind: &str, o: &ClusterObject, want: &str, other_kind: &str) -> (r: Result<(), EntityError>)
    ensures
        match kind_problem(*o, want@, other_kind@) {
            Some(m) => r matches Err(e) && entity_error(e, entity_kind@, o.name@, m),
            None => r is Ok,
        },
{
    match &o.types {
        None => Err(error(entity_kind, &o.name, "Resource lacks TypeMeta data")),
        Some(t) => {
            let lower = lowercase(t.kind.as_str());
            if text_eq(lower.as_str(), want) {
                Ok(())
            } else {
                Err(error(entity_kind, &o.name, other_kind))
            }
        },
    }
}

/// The domain of a database cluster from its lower-cased name: `smf` or `upf`, whichever it
/// contains, `smf` first.
pub open spec fn cluster_domain(lower_name: Seq<char>) -> Option<Seq<char>> {
    if contains_text(lower_name, "smf"@) {
        Some("smf"@)
    } else if contains_text(lower_name, "upf"@) {
        Some("upf"@)
    } else {
        None
    }
}

/// The domain of a database cluster whose lower-cased name is `lower_name`.
pub fn domain_for_cluster(lower_name: &str) -> (r: Option<String>)
    ensures
        opt_text(r) == cluster_domain(lower_name@),
{
    if text_contains(lower_name, "smf") {
        Some(String::from_str("smf"))
    } else if text_contains(lower_name, "upf") {
        Some(String::from_str("upf"))
    } else {
        None
    }
}

/// The member `key` of a JSON text, printed as JSON, when the text is a JSON object whose
/// member `key` is itself an object.
pub uninterp spec fn json_member_object_text(data: Seq<char>, key: Seq<char>) -> Option<Seq<char>>;

/// Relies on `serde_json::from_str`, `serde_json::Value::get` and `serde_json::to_string`:
/// reads `data`, takes its member `key` when that is an object, and prints that object.
#[verifier::external_body]
fn member_object_text(data: &str, key: &str) -> (r: Option<String>)
    ensures
        opt_text(r) == json_member_object_text(data@, key@),
{
    match serde_json::from_str::<serde_json::Value>(data) {
        Ok(v) => match v.get(key) {
            Some(serde_json::Value::Object(m)) => serde_json::to_string(m).ok(),
            _ => None,
        },
        Err(_) => None,
    }
}

/// The annotations derived from an object's labels, over `base`: when it has a shard label,
/// the catalog's label selector and namespace annotations.
pub open spec fn shard_annotations(
    base: Map<Seq<char>, Seq<char>>,
    shard: Option<String>,
    namespace: Seq<char>,
) -> Map<Seq<char>, Seq<char>> {
    match shard {
        Some(v) => base.insert(ANN_LABEL_SELECTOR@, LABEL_SHARD@ + "="@ + v@).insert(
            ANN_NAMESPACE@,
            namespace,
        ),
        None => base,
    }
}

fn add_shard_annotations(anns: &mut StringMap, shard: Option<&String>, namespace: &String)
    ensures
        text_map(final(anns)@) == shard_annotations(
            text_map(old(anns)@),
            match shard {
                Some(v) => Some(*v),
                None => None,
            },
            namespace@,
        ),
{
    match shard {
        Some(v) => {
            let mut sel = String::from_str(LABEL_SHARD);
            sel.append("=");
            sel.append(v.as_str());
            let ghost sv = sel@;
            anns.insert(String::from_str(ANN_LABEL_SELECTOR), sel);
            anns.insert(String::from_str(ANN_NAMESPACE), namespace.clone());
            assert(text_map(anns@) =~= text_map(old(anns)@).insert(ANN_LABEL_SELECTOR@, sv).insert(
                ANN_NAMESPACE@,
                namespace@,
            ));
        },
        None => {},
    }
}

/// Every pair of `src` set in `dst`, the values of `src` taking precedence.
fn overlay(dst: &mut StringMap, src: &StringMap)
    ensures
        final(dst)@ == old(dst)@.union_prefer_right(src@),
{
    let n = src.len();
    let mut i: usize = 0;
    while i < n
        invariant
            n == src.key_seq().len(),
            src.key_seq().no_duplicates(),
            forall|k: Seq<char>| src@.contains_key(k) <==> src.key_seq().contains(k),
            i <= n,
            dst@ == old(dst)@.union_prefer_right(
                src@.restrict(src.key_seq().subrange(0, i as int).to_set()),
            ),
        decreases n - i,
    {
        let (k, v) = src.entry_at(i);
        dst.insert(k.clone(), v.clone());
        proof {
            let s0 = src.key_seq().subrange(0, i as int).to_set();
            let s1 = src.key_seq().subrange(0, i + 1).to_set();
            let q0 = src.key_seq().subrange(0, i as int);
            let q1 = src.key_seq().subrange(0, i + 1);
            assert(q1 =~= q0.push(k@));
            assert forall|x: Seq<char>| s1.contains(x) <==> s0.insert(k@).contains(x) by {
                if s1.contains(x) {
                    let j = choose|j: int| 0 <= j < q1.len() && q1[j] == x;
                    if j < i {
                        assert(q0[j] == x);
                    }
                }
                if s0.contains(x) {
                    let j = choose|j: int| 0 <= j < q0.len() && q0[j] == x;
                    assert(q1[j] == x);
                }
                if x == k@ {
                    assert(q1[i as int] == x);
                }
            }
            assert(s1 =~= s0.insert(k@));
            assert(dst@ =~= old(dst)@.union_prefer_right(src@.restrict(s1)));
        }
        i = i + 1;
    }
    proof {
        assert(src.key_seq().subrange(0, n as int) =~= src.key_seq());
        assert(src@.restrict(src.key_seq().to_set()) =~= src@);
    }
}

/// The namespace an object belongs to, `default` when it has none.
pub open spec fn namespace_or_default(o: ClusterObject) -> Seq<char> {
    match o.namespace {
        Some(ns) => ns@,
        None => DEFAULT_NAMESPACE@,
    }
}

/// The labels as an entity carries them: all of them, or none when there are none.
pub open spec fn entity_labels(o: ClusterObject) -> Option<Map<Seq<char>, String>> {
    match o.labels {
        Some(l) => if l@ == Map::<Seq<char>, String>::empty() {
            None
        } else {
            Some(l@)
        },
        None => None,
    }
}

fn copy_labels(o: &ClusterObject) -> (r: Option<StringMap>)
    ensures
        match r {
            Some(l) => entity_labels(*o) == Some(l@),
            None => entity_labels(*o) is None,
        },
{
    match &o.labels {
        Some(l) => if l.is_empty() {
            None
        } else {
            Some(l.copy())
        },
        None => None,
    }
}

fn global_copy(bsc: &BackstageSettings) -> (r: StringMap)
    ensures
        r@ == global_annotations(bsc.annotations),
{
    match &bsc.annotations {
        Some(a) => a.copy(),
        None => KeyedStore::new(),
    }
}

impl System {
    /// The system of a database stateful set: `<domain>-postgres-<cluster>`, where the
    /// domain (`smf` or `upf`) comes from the lower-cased cluster label.
    pub fn from_stateful_set(config: &Settings, obj: &ClusterObject) -> (r: Result<Self, EntityError>)
        ensures
            match kind_problem(*obj, "statefulset"@, "Resource is not a k8s StatefulSet"@) {
                Some(m) => r matches Err(e) && entity_error(e, "System"@, obj.name@, m),
                None => match label_of(*obj, LABEL_CLUSTER@) {
                    None => r matches Err(e) && entity_error(
                        e,
                        "System"@,
                        obj.name@,
                        "Statefulset lacks postgres cluster label"@,
                    ),
                    Some(c) => match cluster_domain(lower_of(c@)) {
                        None => r matches Err(e) && entity_error(
                            e,
                            "System"@,
                            obj.name@,
                            "postgres cluster label missing system"@,
                        ),
                        Some(d) => r matches Ok(s) && s.api_version@ == ENTITY_API_VERSION@ && s.kind@
                            == "System"@ && named_metadata(
                            s.metadata,
                            d + "-postgres-"@ + config.cluster@,
                        ) && (match config.backstage.annotations {
                            Some(a) => s.metadata.annotations matches Some(sa) && sa@ == a@,
                            None => s.metadata.annotations is None,
                        }) && s.spec.owner@ == DEFAULT_OWNER@
                            && opt_text(s.spec.domain) == Some(d) && opt_text(s.spec.system_type)
                            == Some("service"@),
                    },
                },
            },
    {
        check_kind("System", obj, "statefulset", "Resource is not a k8s StatefulSet")?;
        let cluster = match get_label(obj, LABEL_CLUSTER) {
            Some(c) => c,
            None => {
                return Err(error("System", &obj.name, "Statefulset lacks postgres cluster label"));
            },
        };
        let lower = lowercase(cluster.as_str());
        let domain = match domain_for_cluster(lower.as_str()) {
            Some(d) => d,
            None => {
                return Err(error("System", &obj.name, "postgres cluster label missing system"));
            },
        };
        let mut name = domain.clone();
        name.append("-postgres-");
        name.append(config.cluster.as_str());
        Ok(
            System {
                api_version: String::from_str(ENTITY_API_VERSION),
                kind: String::from_str("System"),
                metadata: Metadata::from_annotations(&config.backstage, name),
                spec: SystemSpec {
                    owner: String::from_str(DEFAULT_OWNER),
                    domain: Some(domain),
                    system_type: Some(String::from_str("service")),
                },
            },
        )
    }
}

impl Resource {
    /// The database node of a pod: named after the pod, depending on the shard its shard
    /// label names. A pod without labels is refused.
    pub fn postgres_node_from_pod(config: &Settings, obj: &ClusterObject) -> (r: Result<Self, EntityError>)
        ensures
            match kind_problem(*obj, "pod"@, "Resource is not a k8s Pod"@) {
                Some(m) => r matches Err(e) && entity_error(e, "Resource"@, obj.name@, m),
                None => if obj.name@.len() == 0 {
                    r matches Err(e) && entity_error(e, "Resource"@, obj.name@, "Resource lacks Metadata name"@)
                } else if obj.labels is None {
                    r matches Err(e) && entity_error(e, "Resource"@, obj.name@, "Resource lacks postgres labels"@)
                } else {
                    r matches Ok(res) && res.api_version@ == ENTITY_API_VERSION@ && res.kind@ == "Resource"@
                        && named_metadata(res.metadata, obj.name@) && (match config.backstage.annotations {
                        Some(a) => res.metadata.annotations matches Some(ra) && ra@ == a@,
                        None => res.metadata.annotations is None,
                    }) && res.spec.resource_type@ == "postgres-cluster-node"@ && res.spec.owner@
                        == DEFAULT_OWNER@ && res.spec.system is None && res.spec.depends_on is None
                        && match label_of(*obj, LABEL_SHARD@) {
                        Some(sh) => res.spec.dependency_of matches Some(d) && d@.len() == 1 && d@[0]@
                            == resource_ref(sh@),
                        None => res.spec.dependency_of is None,
                    }
                },
            },
    {
        check_kind("Resource", obj, "pod", "Resource is not a k8s Pod")?;
        let m = Metadata::from_annotations(&config.backstage, obj.name.clone());
        if m.name.as_str().is_empty() {
            return Err(error("Resource", &obj.name, "Resource lacks Metadata name"));
        }
        if obj.labels.is_none() {
            return Err(error("Resource", &obj.name, "Resource lacks postgres labels"));
        }
        let dependency_of = match get_label(obj, LABEL_SHARD) {
            Some(shard) => Some(resource_reference(shard)),
            None => None,
        };
        Ok(
            Resource {
                api_version: String::from_str(ENTITY_API_VERSION),
                kind: String::from_str("Resource"),
                metadata: m,
                spec: ResourceSpec {
                    resource_type: String::from_str("postgres-cluster-node"),
                    owner: String::from_str(DEFAULT_OWNER),
                    system: None,
                    depends_on: None,
                    dependency_of,
                },
            },
        )
    }

    /// The resource type of a stateful set: a database shard when its component label says
    /// `postgres-cluster`, a plain stateful set otherwise.
    pub open spec fn shard_type(obj: ClusterObject) -> Seq<char> {
        if label_of(obj, LABEL_COMPONENT@) matches Some(c) && c@ == "postgres-cluster"@ {
            "postgres-cluster-shard"@
        } else {
            "statefulset"@
        }
    }

    /// The annotations of a shard resource: the global ones, the catalog selector and
    /// namespace when it has a shard label, the cluster name, and for a database shard its
    /// status; the global ones are applied last and prevail.
    pub open spec fn shard_entity_annotations(config: Settings, obj: ClusterObject) -> Map<Seq<char>, Seq<char>> {
        let g = text_map(global_annotations(config.backstage.annotations));
        let b = shard_annotations(g, label_of(obj, LABEL_SHARD@), namespace_or_default(obj)).insert(
            ANN_CLUSTER@,
            config.cluster@,
        );
        let status = json_member_object_text(obj.data@, STATUS_MEMBER@);
        let b2 = if Self::shard_type(obj) == "postgres-cluster-shard"@ && status is Some {
            b.insert(ANN_STATUS@, status->0)
        } else {
            b
        };
        match config.backstage.annotations {
            Some(_) => b2.union_prefer_right(g),
            None => b2,
        }
    }

    /// A database shard resource from its stateful set: named after it, with its labels,
    /// the annotations of `shard_entity_annotations`, and a dependency on the cluster that
    /// its cluster label names.
    pub fn postgres_shard_from_statefulset(config: &Settings, obj: &ClusterObject) -> (r: Result<Self, EntityError>)
        ensures
            match kind_problem(*obj, "statefulset"@, "Resource is not a k8s StatefulSet"@) {
                Some(m) => r matches Err(e) && entity_error(e, "Resource"@, obj.name@, m),
                None => if obj.name@.len() == 0 {
                    r matches Err(e) && entity_error(e, "Resource"@, obj.name@, "Resource lacks Metadata name"@)
                } else {
                    r matches Ok(res) && res.api_version@ == ENTITY_API_VERSION@ && res.kind@ == "Resource"@
                        && res.metadata.name == obj.name && opt_text(res.metadata.namespace) == Some(DEFAULT_NAMESPACE@)
                        && res.metadata.title is None && res.metadata.description is None
                        && res.metadata.tags is None && res.metadata.links is None
                        && (match res.metadata.labels {
                            Some(l) => entity_labels(*obj) == Some(l@),
                            None => entity_labels(*obj) is None,
                        })
                        && (res.metadata.annotations matches Some(a) && text_map(a@)
                            == Self::shard_entity_annotations(*config, *obj))
                        && res.spec.resource_type@ == Self::shard_type(*obj)
                        && res.spec.owner@ == DEFAULT_OWNER@ && res.spec.system is None
                        && res.spec.depends_on is None
                        && match label_of(*obj, LABEL_CLUSTER@) {
                        Some(c) => res.spec.dependency_of matches Some(d) && d@.len() == 1 && d@[0]@
                            == resource_ref(c@),
                        None => res.spec.dependency_of is None,
                    }
                },
            },
    {
        check_kind("Resource", obj, "statefulset", "Resource is not a k8s StatefulSet")?;
        if obj.name.as_str().is_empty() {
            return Err(error("Resource", &obj.name, "Resource lacks Metadata name"));
        }
        let global = global_copy(&config.backstage);
        let mut anns = global_copy(&config.backstage);
        let ghost g = text_map(global_annotations(config.backstage.annotations));
        let namespace = match &obj.namespace {
            Some(ns) => ns.clone(),
            None => String::from_str(DEFAULT_NAMESPACE),
        };
        add_shard_annotations(&mut anns, get_label(obj, LABEL_SHARD), &namespace);
        let ghost b0 = text_map(anns@);
        assert(b0 == shard_annotations(g, label_of(*obj, LABEL_SHARD@), namespace_or_default(*obj)));
        anns.insert(String::from_str(ANN_CLUSTER), config.cluster.clone());
        let ghost b = b0.insert(ANN_CLUSTER@, config.cluster@);
        assert(text_map(anns@) =~= b);
        let is_shard = match get_label(obj, LABEL_COMPONENT) {
            Some(c) => text_eq(c.as_str(), "postgres-cluster"),
            None => false,
        };
        proof {
            reveal_strlit("postgres-cluster-shard");
            reveal_strlit("statefulset");
            assert("postgres-cluster-shard"@.len() != "statefulset"@.len());
            assert(is_shard == (Self::shard_type(*obj) == "postgres-cluster-shard"@));
        }
        let resource_type = if is_shard {
            String::from_str("postgres-cluster-shard")
        } else {
            String::from_str("statefulset")
        };
        if is_shard {
            if let Some(st) = member_object_text(obj.data.as_str(), STATUS_MEMBER) {
                let ghost before = text_map(anns@);
                let ghost stv = st@;
                anns.insert(String::from_str(ANN_STATUS), st);
                assert(text_map(anns@) =~= before.insert(ANN_STATUS@, stv));
            }
        }
        let ghost b2 = text_map(anns@);
        if config.backstage.annotations.is_some() {
            let ghost before = anns@;
            overlay(&mut anns, &global);
            assert(text_map(anns@) =~= text_map(before).union_prefer_right(g));
        }
        proof {
            assert(text_map(anns@) =~= Self::shard_entity_annotations(*config, *obj));
        }
        let dependency_of = match get_label(obj, LABEL_CLUSTER) {
            Some(c) => Some(resource_reference(c)),
            None => None,
        };
        Ok(
            Resource {
                api_version: String::from_str(ENTITY_API_VERSION),
                kind: String::from_str("Resource"),
                metadata: Metadata {
                    name: obj.name.clone(),
                    namespace: Some(String::from_str(DEFAULT_NAMESPACE)),
                    title: None,
                    description: None,
                    labels: copy_labels(obj),
                    annotations: Some(anns),
                    tags: None,
                    links: None,
                },
                spec: ResourceSpec {
                    resource_type,
                    owner: String::from_str(DEFAULT_OWNER),
                    system: None,
                    depends_on: None,
                    dependency_of,
                },
            },
        )
    }
}

impl Component {
    /// The annotations of a deployment's component: the global ones and, when it has a shard
    /// label, the catalog selector and namespace; the global ones prevail.
    pub open spec fn deployment_annotations(bsc: BackstageSettings, obj: ClusterObject) -> Map<Seq<char>, Seq<char>> {
        let g = text_map(global_annotations(bsc.annotations));
        let b = shard_annotations(g, label_of(obj, LABEL_SHARD@), namespace_or_default(obj));
        match bsc.annotations {
            Some(_) => b.union_prefer_right(g),
            None => b,
        }
    }

    /// The component of a deployment: named after it, with its labels and the annotations
    /// of `deployment_annotations`; of type `postgres-cluster` when its component label says
    /// so, `deployment` otherwise.
    pub fn from_deployment(bsc: &BackstageSettings, obj: &ClusterObject) -> (r: Result<Self, EntityError>)
        ensures
            match kind_problem(*obj, "deployment"@, "Resource is not a k8s Deployment"@) {
                Some(m) => r matches Err(e) && entity_error(e, "Component"@, obj.name@, m),
                None => if obj.name@.len() == 0 {
                    r matches Err(e) && entity_error(e, "Resource"@, obj.name@, "Resource lacks lacks Metadata"@)
                } else {
                    r matches Ok(c) && c.api_version@ == ENTITY_API_VERSION@ && c.kind@ == "Component"@
                        && c.metadata.name == obj.name && opt_text(c.metadata.namespace) == Some(DEFAULT_NAMESPACE@)
                        && c.metadata.title is None && c.metadata.description is None
                        && c.metadata.tags is None && c.metadata.links is None
                        && (match c.metadata.labels {
                            Some(l) => entity_labels(*obj) == Some(l@),
                            None => entity_labels(*obj) is None,
                        })
                        && (c.metadata.annotations matches Some(a) && text_map(a@)
                            == Self::deployment_annotations(*bsc, *obj))
                        && c.spec.component_type@ == (if label_of(*obj, LABEL_COMPONENT@) matches Some(v)
                            && v@ == "postgres-cluster"@ {
                            "postgres-cluster"@
                        } else {
                            "deployment"@
                        }) && c.spec.owner@ == DEFAULT_OWNER@ && c.spec.lifecycle@.len() == 0
                        && c.spec.system is None && c.spec.subcomponent_of is None
                        && c.spec.provides_apis is None && c.spec.consumes_apis is None
                        && c.spec.depends_on is None && c.spec.dependency_of is None
                },
            },
    {
        check_kind("Component", obj, "deployment", "Resource is not a k8s Deployment")?;
        if obj.name.as_str().is_empty() {
            return Err(error("Resource", &obj.name, "Resource lacks lacks Metadata"));
        }
        let global = global_copy(bsc);
        let mut anns = global_copy(bsc);
        let ghost g = text_map(global_annotations(bsc.annotations));
        let namespace = match &obj.namespace {
            Some(ns) => ns.clone(),
            None => String::from_str(DEFAULT_NAMESPACE),
        };
        add_shard_annotations(&mut anns, get_label(obj, LABEL_SHARD), &namespace);
        if bsc.annotations.is_some() {
            let ghost before = anns@;
            overlay(&mut anns, &global);
            assert(text_map(anns@) =~= text_map(before).union_prefer_right(g));
        }
        let is_cluster = match get_label(obj, LABEL_COMPONENT) {
            Some(v) => text_eq(v.as_str(), "postgres-cluster"),
            None => false,
        };
        let component_type = if is_cluster {
            String::from_str("postgres-cluster")
        } else {
            String::from_str("deployment")
        };
        Ok(
            Component {
                api_version: String::from_str(ENTITY_API_VERSION),
                kind: String::from_str("Component"),
                metadata: Metadata {
                    name: obj.name.clone(),
                    namespace: Some(String::from_str(DEFAULT_NAMESPACE)),
                    title: None,
                    description: None,
                    labels: copy_labels(obj),
                    annotations: Some(anns),
                    tags: None,
                    links: None,
                },
                spec: ComponentSpec {
                    component_type,
                    lifecycle: String::new(),
                    owner: String::from_str(DEFAULT_OWNER),
                    system: None,
                    subcomponent_of: None,
                    provides_apis: None,
                    consumes_apis: None,
                    depends_on: None,
                    dependency_of: None,
                },
            },
        )
    }
}

/// The references of an optional list, empty when there is none.
pub open spec fn refs_of(v: Option<Vec<String>>) -> Seq<String> {
    match v {
        Some(l) => l@,
        None => Seq::empty(),
    }
}

/// The position of the first resource named `name`.
pub open spec fn position_of_name(rs: Seq<Resource>, name: Seq<char>) -> Option<int>
    decreases rs.len(),
{
    if rs.len() == 0 {
        None
    } else {
        match position_of_name(rs.drop_last(), name) {
            Some(i) => Some(i),
            None => if rs.last().metadata.name@ == name {
                Some(rs.len() - 1)
            } else {
                None
            },
        }
    }
}

proof fn lemma_position_prefix(rs: Seq<Resource>, name: Seq<char>, n: int)
    requires
        0 <= n <= rs.len(),
        position_of_name(rs.subrange(0, n), name) is Some,
    ensures
        position_of_name(rs, name) == position_of_name(rs.subrange(0, n), name),
    decreases rs.len() - n,
{
    if n < rs.len() {
        assert(rs.subrange(0, n + 1).drop_last() =~= rs.subrange(0, n));
        lemma_position_prefix(rs, name, n + 1);
    } else {
        assert(rs.subrange(0, n) =~= rs);
    }
}

fn find_by_name(rs: &Vec<Resource>, name: &String) -> (r: Option<usize>)
    ensures
        match r {
            Some(i) => position_of_name(rs@, name@) == Some(i as int) && i < rs@.len(),
            None => position_of_name(rs@, name@) is None,
        },
{
    let mut i: usize = 0;
    while i < rs.len()
        invariant
            i <= rs@.len(),
            position_of_name(rs@.subrange(0, i as int), name@) is None,
        decreases rs@.len() - i,
    {
        assert(rs@.subrange(0, i + 1).drop_last() =~= rs@.subrange(0, i as int));
        if rs[i].metadata.name == *name {
            proof {
                lemma_position_prefix(rs@, name@, i + 1);
            }
            return Some(i);
        }
        i = i + 1;
    }
    assert(rs@.subrange(0, i as int) =~= rs@);
    None
}

/// Adds a database cluster to those seen so far. A cluster already seen under the same
/// name gains the new one's dependencies after its own; a new name is appended.
pub fn merge_cluster(clusters: &mut Vec<Resource>, cluster: Resource)
    ensures
        match position_of_name(old(clusters)@, cluster.metadata.name@) {
            None => final(clusters)@ == old(clusters)@.push(cluster),
            Some(i) => {
                &&& final(clusters)@.len() == old(clusters)@.len()
                &&& forall|j: int| 0 <= j < final(clusters)@.len() && j != i ==> #[trigger] final(clusters)@[j] == old(clusters)@[j]
                &&& final(clusters)@[i].api_version == old(clusters)@[i].api_version
                &&& final(clusters)@[i].kind == old(clusters)@[i].kind
                &&& final(clusters)@[i].metadata == old(clusters)@[i].metadata
                &&& final(clusters)@[i].spec.resource_type == old(clusters)@[i].spec.resource_type
                &&& final(clusters)@[i].spec.owner == old(clusters)@[i].spec.owner
                &&& final(clusters)@[i].spec.system == old(clusters)@[i].spec.system
                &&& final(clusters)@[i].spec.dependency_of == old(clusters)@[i].spec.dependency_of
                &&& final(clusters)@[i].spec.depends_on matches Some(d) && d@ == refs_of(
                    old(clusters)@[i].spec.depends_on,
                ) + refs_of(cluster.spec.depends_on)
            },
        },
{
    match find_by_name(clusters, &cluster.metadata.name) {
        None => clusters.push(cluster),
        Some(i) => {
            let mut existing = clusters.remove(i);
            let mut deps = match existing.spec.depends_on {
                Some(d) => d,
                None => Vec::new(),
            };
            let mut more = match cluster.spec.depends_on {
                Some(d) => d,
                None => Vec::new(),
            };
            deps.append(&mut more);
            existing.spec.depends_on = Some(deps);
            clusters.insert(i, existing);
            assert forall|j: int| 0 <= j < clusters@.len() && j != i implies #[trigger] clusters@[j]
                == old(clusters)@[j] by {}
        },
    }
}

/// Records `name` among the names seen; whether it was new.
pub fn first_sighting(seen: &mut Vec<String>, name: &String) -> (r: bool)
    ensures
        r == !crate::strings::texts(old(seen)@).contains(name@),
        r ==> final(seen)@.len() == old(seen)@.len() + 1 && final(seen)@.drop_last() == old(seen)@
            && final(seen)@.last()@ == name@,
        !r ==> final(seen)@ == old(seen)@,
{
    let mut i: usize = 0;
    while i < seen.len()
        invariant
            i <= seen@.len(),
            forall|j: int| 0 <= j < i ==> seen@[j]@ != name@,
        decreases seen@.len() - i,
    {
        if seen[i] == *name {
            assert(crate::strings::texts(seen@)[i as int] == name@);
            return false;
        }
        i = i + 1;
    }
    proof {
        if crate::strings::texts(seen@).contains(name@) {
            let j = choose|j: int| 0 <= j < crate::strings::texts(seen@).len() && crate::strings::texts(seen@)[j] == name@;
            assert(seen@[j]@ == name@);
        }
    }
    seen.push(name.clone());
    assert(seen@.drop_last() =~= old(seen)@);
    true
}

/// What the catalog builds from a cached object.
#[derive(Debug)]
pub enum CatalogRole {
    /// A stateful set: its shard resource, the cluster resource of that shard, and its system.
    Shard,
    /// A pod: its database node resource.
    Node,
    /// Nothing.
    Skip,
}

pub open spec fn role_of(o: ClusterObject) -> CatalogRole {
    match o.types {
        None => CatalogRole::Skip,
        Some(t) => match kind_of_lowercase(lower_of(t.kind@)) {
            K8sKinds::StatefulSet => CatalogRole::Shard,
            K8sKinds::Pod => CatalogRole::Node,
            _ => CatalogRole::Skip,
        },
    }
}

/// The catalog role of a cached object, from the kind in its type descriptor.
pub fn catalog_role(obj: &ClusterObject) -> (r: CatalogRole)
    ensures
        r == role_of(*obj),
{
    match &obj.types {
        None => CatalogRole::Skip,
        Some(t) => match K8sKinds::get_kind(&t.kind) {
            K8sKinds::StatefulSet => CatalogRole::Shard,
            K8sKinds::Pod => CatalogRole::Node,
            _ => CatalogRole::Skip,
        },
    }
}

/// The component label value of the stateful sets whose status the API reports.
pub const STATUS_COMPONENT: &'static str = "redis-cluster";

/// Whether the status endpoint reports `obj`: a stateful set whose component label is
/// `redis-cluster`.
pub fn reports_status(obj: &ClusterObject) -> (r: bool)
    ensures
        r == (role_of(*obj) == CatalogRole::Shard && (label_of(*obj, LABEL_COMPONENT@) matches Some(v)
            && v@ == STATUS_COMPONENT@)),
{
    match catalog_role(obj) {
        CatalogRole::Shard => match get_label(obj, LABEL_COMPONENT) {
            Some(v) => text_eq(v.as_str(), STATUS_COMPONENT),
            None => false,
        },
        _ => false,
    }
}

} // verus!
