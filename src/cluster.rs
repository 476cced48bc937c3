//! Cluster objects as the cache holds them: identity, optional type descriptor, labels,
//! annotations, field-ownership entries and the payload as JSON text.
use crate::store::StringMap;
use crate::strings::texts;
use vstd::prelude::*;

verus! {

/// The annotation in which `kubectl apply` records the last applied configuration.
pub const LAST_APPLIED_ANNOTATION: &'static str = "kubectl.kubernetes.io/last-applied-configuration";

/// The namespace part of the cache key of an object that has no namespace.
pub const NO_NAMESPACE: &'static str = "none";

/// An object's type descriptor: API version (`v1`, `apps/v1`) and kind (`Pod`).
#[derive(Debug)]
pub struct TypeMeta {
    pub api_version: String,
    pub kind: String,
}

impl TypeMeta {
    pub open spec fn pair(&self) -> (Seq<char>, Seq<char>) {
        (self.api_version@, self.kind@)
    }
}

pub open spec fn type_pair(t: Option<TypeMeta>) -> Option<(Seq<char>, Seq<char>)> {
    match t {
        Some(tm) => Some(tm.pair()),
        None => None,
    }
}

pub open spec fn opt_text(t: Option<String>) -> Option<Seq<char>> {
    match t {
        Some(s) => Some(s@),
        None => None,
    }
}

pub open spec fn text_map(m: Map<Seq<char>, String>) -> Map<Seq<char>, Seq<char>> {
    m.map_values(|v: String| v@)
}

/// What an object holds, as plain sequences and maps.
pub struct ObjectView {
    pub name: Seq<char>,
    pub namespace: Option<Seq<char>>,
    pub types: Option<(Seq<char>, Seq<char>)>,
    pub labels: Option<Map<Seq<char>, Seq<char>>>,
    pub annotations: Map<Seq<char>, Seq<char>>,
    pub managed_fields: Seq<Seq<char>>,
    pub creation_timestamp: Option<Seq<char>>,
    pub data: Seq<char>,
}

/// A dynamically typed cluster object.
#[derive(Debug)]
pub struct ClusterObject {
    pub name: String,
    pub namespace: Option<String>,
    pub types: Option<TypeMeta>,
    pub labels: Option<StringMap>,
    pub annotations: StringMap,
    /// Field-ownership entries, each as JSON text.
    pub managed_fields: Vec<String>,
    /// Creation time in RFC 3339 form.
    pub creation_timestamp: Option<String>,
    /// The payload (spec, status and the rest) as JSON text.
    pub data: String,
}

impl View for ClusterObject {
    type V = ObjectView;

    open spec fn view(&self) -> ObjectView {
        ObjectView {
            name: self.name@,
            namespace: opt_text(self.namespace),
            types: type_pair(self.types),
            labels: match self.labels {
                Some(l) => Some(text_map(l@)),
                None => None,
            },
            annotations: text_map(self.annotations@),
            managed_fields: texts(self.managed_fields@),
            creation_timestamp: opt_text(self.creation_timestamp),
            data: self.data@,
        }
    }
}

/// The namespace under which an object is cached.
pub open spec fn namespace_or_none(ns: Option<Seq<char>>) -> Seq<char> {
    match ns {
        Some(n) => n,
        None => NO_NAMESPACE@,
    }
}

/// The cache key of an object: `namespace/name`.
pub open spec fn key_of(o: ObjectView) -> Seq<char> {
    namespace_or_none(o.namespace) + seq!['/'] + o.name
}

/// An object with the noise removed: no last-applied annotation, no field-ownership entries.
pub open spec fn stripped(o: ObjectView) -> ObjectView {
    ObjectView {
        annotations: o.annotations.remove(LAST_APPLIED_ANNOTATION@),
        managed_fields: Seq::empty(),
        ..o
    }
}

/// The cache key of `obj`.
pub fn cache_key(obj: &ClusterObject) -> (r: String)
    ensures
        r@ == key_of(obj@),
{
    let mut r = match &obj.namespace {
        Some(ns) => ns.clone(),
        None => String::from_str(NO_NAMESPACE),
    };
    r.push('/');
    r.append(obj.name.as_str());
    r
}

/// Removes the last-applied annotation and the field-ownership entries.
pub fn strip_noise(obj: ClusterObject) -> (r: ClusterObject)
    ensures
        r@ == stripped(obj@),
{
    let mut o = obj;
    let key = String::from_str(LAST_APPLIED_ANNOTATION);
    let _ = o.annotations.remove(&key);
    o.managed_fields = Vec::new();
    proof {
        assert(texts(o.managed_fields@) =~= Seq::<Seq<char>>::empty());
        assert(text_map(o.annotations@) =~= text_map(obj.annotations@).remove(
            LAST_APPLIED_ANNOTATION@,
        ));
        assert(o@ =~= stripped(obj@));
    }
    o
}

} // verus!
