//! The cache engine: a map from `namespace/name` to the last observed object, changed
//! one command at a time, and the purge cycle that evicts objects the cluster no longer has.
use crate::cluster::{
    cache_key, key_of, namespace_or_none, strip_noise, stripped, ClusterObject, ObjectView, TypeMeta,
    LAST_APPLIED_ANNOTATION,
};
use crate::inference::{infer_type_meta, inferred_type};
use crate::store::KeyedStore;
use crate::strings::{lowercase, lower_of, segments, split_segments, text_less, texts};
use crate::watch_event::{WatchCommand, WatchEvent};
use vstd::prelude::*;

verus! {

/// An object as it is cached: its type inferred from `url` when it has none, noise removed.
pub open spec fn prepared(o: ObjectView, url: Seq<char>) -> ObjectView {
    stripped(
        ObjectView {
            types: if o.types is Some {
                o.types
            } else {
                inferred_type(url)
            },
            ..o
        },
    )
}

/// The cache after one command.
pub open spec fn after_command(
    m: Map<Seq<char>, ObjectView>,
    ev: WatchEvent,
) -> Map<Seq<char>, ObjectView> {
    match ev.command {
        WatchCommand::Add(o) => m.insert(key_of(o@), prepared(o@, ev.resource_url@)),
        WatchCommand::Update(o) => m.insert(key_of(o@), prepared(o@, ev.resource_url@)),
        WatchCommand::Delete(o) => m.remove(key_of(o@)),
        _ => m,
    }
}

/// The cache after a sequence of commands, applied in order.
pub open spec fn after_commands(
    m: Map<Seq<char>, ObjectView>,
    evs: Seq<WatchEvent>,
) -> Map<Seq<char>, ObjectView>
    decreases evs.len(),
{
    if evs.len() == 0 {
        m
    } else {
        after_command(after_commands(m, evs.drop_last()), evs.last())
    }
}

/// No cached object carries the last-applied annotation.
pub open spec fn noise_free(m: Map<Seq<char>, ObjectView>) -> bool {
    forall|k: Seq<char>|
        #[trigger] m.contains_key(k) ==> !m[k].annotations.contains_key(LAST_APPLIED_ANNOTATION@)
}

/// What the engine did with a command, or what it leaves to its caller.
#[derive(Debug)]
pub enum IngestOutcome {
    /// The object was stored under its key.
    Stored,
    /// The key was present and is now gone.
    Removed,
    /// A delete for a key that was not cached.
    Absent,
    /// The caller is to run a purge cycle.
    PurgeDue,
    /// The caller is to emit the cache contents.
    SnapshotDue,
    /// Nothing to do.
    Idle,
}

/// The object to cache for an added or updated one: its type inferred from the watched
/// resource's path when it has none, and its noise removed.
pub fn prepare_object(obj: ClusterObject, resource_url: &str) -> (r: ClusterObject)
    ensures
        r@ == prepared(obj@, resource_url@),
{
    let mut o = obj;
    if o.types.is_none() {
        o.types = infer_type_meta(resource_url);
    }
    assert(o@ == (ObjectView {
        types: if obj@.types is Some {
            obj@.types
        } else {
            inferred_type(resource_url@)
        },
        ..obj@
    }));
    strip_noise(o)
}

/// One line of the diagnostic listing: kind (or `none`), name, namespace (or `unknown`).
#[derive(Debug)]
pub struct ObjectSummary {
    pub kind: String,
    pub name: String,
    pub namespace: String,
}

/// A well-formed object's coordinates, to be asked of the cluster.
#[derive(Debug)]
pub struct ExistenceCheck {
    /// The cache key of the object.
    pub key: String,
    pub namespace: String,
    pub name: String,
    pub group: String,
    pub version: String,
    pub api_version: String,
    pub kind: String,
    /// The kind lower-cased, with `s` appended.
    pub plural: String,
}

/// The answer of the cluster to one existence check.
#[derive(Debug)]
pub enum LiveStatus {
    Present,
    Missing,
    /// The check itself failed; the object stays.
    Failed,
}

/// The group and version of an API version: `v1` is `("", "v1")`, `apps/v1` is
/// `("apps", "v1")`; with more than one `/` there are none.
pub open spec fn api_version_parts(av: Seq<char>) -> Option<(Seq<char>, Seq<char>)> {
    let g = segments(av);
    if g.len() == 1 {
        Some((Seq::empty(), g[0]))
    } else if g.len() == 2 {
        Some((g[0], g[1]))
    } else {
        None
    }
}

/// An object can be checked when it has a namespace and a type whose API version has
/// at most one `/`.
pub open spec fn checkable(o: ObjectView) -> bool {
    match o.types {
        Some((av, _)) => o.namespace is Some && api_version_parts(av) is Some,
        None => false,
    }
}

/// `c` is the check of the cached object `o`.
pub open spec fn check_of(c: ExistenceCheck, o: ObjectView) -> bool {
    match o.types {
        Some((av, kind)) => {
            &&& checkable(o)
            &&& c.namespace@ == o.namespace->0
            &&& c.name@ == o.name
            &&& c.api_version@ == av
            &&& c.kind@ == kind
            &&& api_version_parts(av) == Some((c.group@, c.version@))
            &&& c.plural@ == lower_of(kind) + seq!['s']
        },
        None => false,
    }
}

/// The keys of `ks` whose objects in `m` can be checked, in the order of `ks`.
pub open spec fn checkable_keys(m: Map<Seq<char>, ObjectView>, ks: Seq<Seq<char>>) -> Seq<Seq<char>>
    decreases ks.len(),
{
    if ks.len() == 0 {
        Seq::empty()
    } else {
        let prev = checkable_keys(m, ks.drop_last());
        if checkable(m[ks.last()]) {
            prev.push(ks.last())
        } else {
            prev
        }
    }
}

/// The cache keys of a sequence of checks, in order.
pub open spec fn check_keys(cs: Seq<ExistenceCheck>) -> Seq<Seq<char>> {
    cs.map_values(|c: ExistenceCheck| c.key@)
}

/// The key `k` has a check whose answer is `Missing`.
pub open spec fn reported_missing(
    k: Seq<char>,
    checks: Seq<ExistenceCheck>,
    outcomes: Seq<LiveStatus>,
) -> bool {
    exists|i: int|
        0 <= i < checks.len() && i < outcomes.len() && #[trigger] checks[i].key@ == k
            && outcomes[i] is Missing
}

/// The cache after a purge cycle: every key reported missing is gone, the rest stay.
pub open spec fn purged(
    m: Map<Seq<char>, ObjectView>,
    checks: Seq<ExistenceCheck>,
    outcomes: Seq<LiveStatus>,
) -> Map<Seq<char>, ObjectView> {
    Map::new(|k: Seq<char>| m.contains_key(k) && !reported_missing(k, checks, outcomes), |k| m[k])
}

/// The cached objects, keyed by `namespace/name`.
#[derive(Debug)]
pub struct ObjectCache {
    objects: KeyedStore<ClusterObject>,
}

impl View for ObjectCache {
    type V = Map<Seq<char>, ObjectView>;

    closed spec fn view(&self) -> Map<Seq<char>, ObjectView> {
        self.objects@.map_values(|o: ClusterObject| o@)
    }
}

impl ObjectCache {
    /// The keys in increasing order, which is the order in which `entry_at` hands the
    /// entries out.
    pub closed spec fn key_seq(&self) -> Seq<Seq<char>> {
        self.objects.key_seq()
    }

    pub fn new() -> (r: Self)
        ensures
            r@ == Map::<Seq<char>, ObjectView>::empty(),
    {
        let r = ObjectCache { objects: KeyedStore::new() };
        assert(r@ =~= Map::<Seq<char>, ObjectView>::empty());
        r
    }

    /// The number of entries; `key_seq` lists each key once, in increasing order.
    pub fn len(&self) -> (n: usize)
        ensures
            n == self.key_seq().len(),
            self.key_seq().no_duplicates(),
            forall|k: Seq<char>| self@.contains_key(k) <==> self.key_seq().contains(k),
            forall|i: int, j: int|
                0 <= i < j < self.key_seq().len() ==> text_less(
                    #[trigger] self.key_seq()[i],
                    #[trigger] self.key_seq()[j],
                ),
    {
        self.objects.len()
    }

    /// The entry at position `i` of `key_seq`.
    pub fn entry_at(&self, i: usize) -> (r: (&String, &ClusterObject))
        requires
            i < self.key_seq().len(),
        ensures
            r.0@ == self.key_seq()[i as int],
            self@.contains_key(r.0@),
            self@[r.0@] == r.1@,
    {
        self.objects.entry_at(i)
    }

    pub fn get(&self, key: &String) -> (r: Option<&ClusterObject>)
        ensures
            match r {
                Some(o) => self@.contains_key(key@) && self@[key@] == o@,
                None => !self@.contains_key(key@),
            },
    {
        self.objects.get(key)
    }

    /// Applies one command. Adds and updates store the prepared object under its key,
    /// deletes remove the key; a purge or a listing is left to the caller, as the
    /// outcome says.
    pub fn ingest(&mut self, ev: WatchEvent) -> (r: IngestOutcome)
        ensures
            final(self)@ == after_command(old(self)@, ev),
            r == match ev.command {
                WatchCommand::Add(_) => IngestOutcome::Stored,
                WatchCommand::Update(_) => IngestOutcome::Stored,
                WatchCommand::Delete(o) => if old(self)@.contains_key(key_of(o@)) {
                    IngestOutcome::Removed
                } else {
                    IngestOutcome::Absent
                },
                WatchCommand::Purge => IngestOutcome::PurgeDue,
                WatchCommand::PrintAll => IngestOutcome::SnapshotDue,
                WatchCommand::Noop => IngestOutcome::Idle,
            },
    {
        let WatchEvent { k8s_version: _, resource_url, event_type: _, command } = ev;
        match command {
            WatchCommand::Add(obj) => {
                self.store(obj, &resource_url);
                IngestOutcome::Stored
            },
            WatchCommand::Update(obj) => {
                self.store(obj, &resource_url);
                IngestOutcome::Stored
            },
            WatchCommand::Delete(obj) => {
                let key = cache_key(&obj);
                let removed = self.objects.remove(&key);
                assert(self@ =~= old(self)@.remove(key@));
                match removed {
                    Some(_) => IngestOutcome::Removed,
                    None => IngestOutcome::Absent,
                }
            },
            WatchCommand::Purge => IngestOutcome::PurgeDue,
            WatchCommand::PrintAll => IngestOutcome::SnapshotDue,
            WatchCommand::Noop => IngestOutcome::Idle,
        }
    }

    fn store(&mut self, obj: ClusterObject, resource_url: &String)
        ensures
            final(self)@ == old(self)@.insert(key_of(obj@), prepared(obj@, resource_url@)),
    {
        let key = cache_key(&obj);
        let o = prepare_object(obj, resource_url.as_str());
        self.objects.insert(key, o);
        assert(self@ =~= old(self)@.insert(key_of(obj@), prepared(obj@, resource_url@)));
    }

    /// The diagnostic listing, one line per entry in `key_seq` order.
    pub fn snapshot(&self) -> (r: Vec<ObjectSummary>)
        ensures
            r@.len() == self.key_seq().len(),
            forall|i: int|
                0 <= i < r@.len() ==> {
                    let o = #[trigger] self@[self.key_seq()[i]];
                    &&& r@[i].name@ == o.name
                    &&& r@[i].kind@ == match o.types {
                        Some(t) => t.1,
                        None => "none"@,
                    }
                    &&& r@[i].namespace@ == match o.namespace {
                        Some(n) => n,
                        None => "unknown"@,
                    }
                },
    {
        let n = self.objects.len();
        let mut r: Vec<ObjectSummary> = Vec::new();
        let mut i: usize = 0;
        while i < n
            invariant
                n == self.key_seq().len(),
                i <= n,
                r@.len() == i,
                forall|j: int|
                    0 <= j < i ==> {
                        let o = #[trigger] self@[self.key_seq()[j]];
                        &&& r@[j].name@ == o.name
                        &&& r@[j].kind@ == match o.types {
                            Some(t) => t.1,
                            None => "none"@,
                        }
                        &&& r@[j].namespace@ == match o.namespace {
                            Some(n) => n,
                            None => "unknown"@,
                        }
                    },
            decreases n - i,
        {
            let (_, o) = self.objects.entry_at(i);
            let kind = match &o.types {
                Some(t) => t.kind.clone(),
                None => String::from_str("none"),
            };
            let namespace = match &o.namespace {
                Some(ns) => ns.clone(),
                None => String::from_str("unknown"),
            };
            r.push(ObjectSummary { kind, name: o.name.clone(), namespace });
            i = i + 1;
        }
        r
    }

    /// The existence checks of a purge cycle: exactly one for each cached object that can be
    /// checked, in `key_seq` order. Objects without a namespace or a usable type get none.
    pub fn purge_checks(&self) -> (r: Vec<ExistenceCheck>)
        ensures
            check_keys(r@) == checkable_keys(self@, self.key_seq()),
            forall|i: int|
                0 <= i < r@.len() ==> self@.contains_key(#[trigger] r@[i].key@) && check_of(
                    r@[i],
                    self@[r@[i].key@],
                ),
            forall|k: Seq<char>|
                self@.contains_key(k) && checkable(self@[k]) ==> exists|i: int|
                    0 <= i < r@.len() && #[trigger] r@[i].key@ == k,
    {
        let n = self.objects.len();
        let mut r: Vec<ExistenceCheck> = Vec::new();
        let mut i: usize = 0;
        while i < n
            invariant
                n == self.key_seq().len(),
                forall|k: Seq<char>| self@.contains_key(k) <==> self.key_seq().contains(k),
                i <= n,
                check_keys(r@) == checkable_keys(self@, self.key_seq().subrange(0, i as int)),
                forall|j: int|
                    0 <= j < r@.len() ==> self@.contains_key(#[trigger] r@[j].key@) && check_of(
                        r@[j],
                        self@[r@[j].key@],
                    ),
                forall|j: int|
                    0 <= j < i && checkable(self@[self.key_seq()[j]]) ==> exists|q: int|
                        0 <= q < r@.len() && #[trigger] r@[q].key@ == self.key_seq()[j],
            decreases n - i,
        {
            let (key, o) = self.objects.entry_at(i);
            let ghost old_r = r@;
            if let Some(c) = existence_check(key, o) {
                r.push(c);
            }
            proof {
                let ks = self.key_seq().subrange(0, i + 1);
                assert(ks.drop_last() =~= self.key_seq().subrange(0, i as int));
                assert(ks.last() == key@);
                assert(check_keys(r@) =~= checkable_keys(self@, ks));
                assert forall|j: int|
                    0 <= j < i + 1 && checkable(self@[self.key_seq()[j]]) implies exists|q: int|
                    0 <= q < r@.len() && #[trigger] r@[q].key@ == self.key_seq()[j] by {
                    if j < i {
                        let q = choose|q: int|
                            0 <= q < old_r.len() && #[trigger] old_r[q].key@ == self.key_seq()[j];
                        assert(r@[q] == old_r[q]);
                    } else {
                        assert(r@.len() == old_r.len() + 1);
                        assert(r@[old_r.len() as int].key@ == self.key_seq()[j]);
                    }
                }
            }
            i = i + 1;
        }
        proof {
            assert(self.key_seq().subrange(0, n as int) =~= self.key_seq());
            assert forall|k: Seq<char>|
                self@.contains_key(k) && checkable(self@[k]) implies exists|i: int|
                0 <= i < r@.len() && #[trigger] r@[i].key@ == k by {
                assert(self.key_seq().contains(k));
                let j = choose|j: int| 0 <= j < self.key_seq().len() && self.key_seq()[j] == k;
                assert(checkable(self@[self.key_seq()[j]]));
            }
        }
        r
    }

    /// Evicts every key whose check came back `Missing`; all other entries stay as they are.
    pub fn apply_purge(&mut self, checks: &Vec<ExistenceCheck>, outcomes: &Vec<LiveStatus>)
        requires
            checks@.len() == outcomes@.len(),
        ensures
            final(self)@ == purged(old(self)@, checks@, outcomes@),
    {
        let n = checks.len();
        let mut i: usize = 0;
        while i < n
            invariant
                n == checks@.len(),
                n == outcomes@.len(),
                i <= n,
                self@ == purged(old(self)@, checks@.subrange(0, i as int), outcomes@.subrange(0, i as int)),
            decreases n - i,
        {
            let ghost before = self@;
            let missing = match outcomes[i] {
                LiveStatus::Missing => true,
                _ => false,
            };
            if missing {
                let _ = self.objects.remove(&checks[i].key);
                assert(self@ =~= before.remove(checks@[i as int].key@));
            }
            proof {
                let cs = checks@.subrange(0, i + 1);
                let os = outcomes@.subrange(0, i + 1);
                let cs0 = checks@.subrange(0, i as int);
                let os0 = outcomes@.subrange(0, i as int);
                assert forall|k: Seq<char>|
                    reported_missing(k, cs, os) <==> reported_missing(k, cs0, os0) || (missing
                        && checks@[i as int].key@ == k) by {
                    if reported_missing(k, cs, os) {
                        let q = choose|q: int|
                            0 <= q < cs.len() && q < os.len() && #[trigger] cs[q].key@ == k
                                && os[q] is Missing;
                        if q < i {
                            assert(cs0[q] == cs[q] && os0[q] == os[q]);
                        }
                    }
                    if reported_missing(k, cs0, os0) {
                        let q = choose|q: int|
                            0 <= q < cs0.len() && q < os0.len() && #[trigger] cs0[q].key@ == k
                                && os0[q] is Missing;
                        assert(cs[q] == cs0[q] && os[q] == os0[q]);
                    }
                    if missing && checks@[i as int].key@ == k {
                        assert(cs[i as int].key@ == k);
                    }
                }
                assert(self@ =~= purged(old(self)@, cs, os));
            }
            i = i + 1;
        }
        assert(checks@.subrange(0, n as int) =~= checks@);
        assert(outcomes@.subrange(0, n as int) =~= outcomes@);
    }
}

/// The check of one cached object, or none when it lacks a namespace or a usable type.
fn existence_check(key: &String, o: &ClusterObject) -> (r: Option<ExistenceCheck>)
    ensures
        match r {
            Some(c) => c.key@ == key@ && check_of(c, o@),
            None => !checkable(o@),
        },
{
    let namespace = match &o.namespace {
        Some(ns) => ns,
        None => return None,
    };
    let tm: &TypeMeta = match &o.types {
        Some(t) => t,
        None => return None,
    };
    let parts = split_segments(tm.api_version.as_str());
    assert(texts(parts@) == segments(tm.api_version@));
    let (group, version) = if parts.len() == 1 {
        (String::new(), parts[0].clone())
    } else if parts.len() == 2 {
        (parts[0].clone(), parts[1].clone())
    } else {
        return None;
    };
    assert(api_version_parts(tm.api_version@) == Some((group@, version@))) by {
        assert(texts(parts@).len() == parts@.len());
        if parts@.len() == 2 {
            assert(texts(parts@)[1] == parts@[1]@);
        }
        assert(texts(parts@)[0] == parts@[0]@);
    }
    let mut plural = lowercase(tm.kind.as_str());
    plural.push('s');
    assert(plural@ =~= lower_of(tm.kind@) + seq!['s']);
    Some(
        ExistenceCheck {
            key: key.clone(),
            namespace: namespace.clone(),
            name: o.name.clone(),
            group,
            version,
            api_version: tm.api_version.clone(),
            kind: tm.kind.clone(),
            plural,
        },
    )
}

/// The object that an add or update carries.
pub open spec fn upserted(ev: WatchEvent) -> Option<ClusterObject> {
    match ev.command {
        WatchCommand::Add(o) => Some(o),
        WatchCommand::Update(o) => Some(o),
        _ => None,
    }
}

/// Applying the same add or update twice leaves the cache as applying it once.
pub proof fn lemma_upsert_idempotent(m: Map<Seq<char>, ObjectView>, ev: WatchEvent)
    requires
        upserted(ev) is Some,
    ensures
        after_command(after_command(m, ev), ev) == after_command(m, ev),
{
    let once = after_command(m, ev);
    assert(after_command(once, ev) =~= once);
}

/// Last write wins: after adds and updates that all name one key, in any number and
/// order, the key holds the object of the last of them, as prepared for caching.
pub proof fn lemma_last_write_wins(m: Map<Seq<char>, ObjectView>, evs: Seq<WatchEvent>, k: Seq<char>)
    requires
        evs.len() > 0,
        forall|i: int|
            0 <= i < evs.len() ==> (#[trigger] upserted(evs[i])) is Some && key_of(
                upserted(evs[i])->0@,
            ) == k,
    ensures
        after_commands(m, evs).contains_key(k),
        after_commands(m, evs)[k] == prepared(upserted(evs.last())->0@, evs.last().resource_url@),
{
    assert(upserted(evs[evs.len() - 1]) is Some);
}

/// A delete of an absent key changes nothing; a delete of a present key removes that key
/// and no other.
pub proof fn lemma_delete_exact(m: Map<Seq<char>, ObjectView>, ev: WatchEvent)
    requires
        ev.command is Delete,
    ensures
        ({
            let k = key_of(ev.command->Delete_0@);
            let after = after_command(m, ev);
            &&& !m.contains_key(k) ==> after == m
            &&& m.contains_key(k) ==> !after.contains_key(k) && after.dom() == m.dom().remove(k)
            &&& forall|j: Seq<char>| j != k && #[trigger] m.contains_key(j) ==> after.contains_key(j) && after[j] == m[j]
        }),
{
    let k = key_of(ev.command->Delete_0@);
    if !m.contains_key(k) {
        assert(m.remove(k) =~= m);
    }
}

/// A purge removes exactly the keys whose check answered `Missing`; every other entry,
/// the ones that could not be checked included, stays as it was.
pub proof fn lemma_purge_exact(
    m: Map<Seq<char>, ObjectView>,
    checks: Seq<ExistenceCheck>,
    outcomes: Seq<LiveStatus>,
)
    requires
        checks.len() == outcomes.len(),
        forall|i: int|
            0 <= i < checks.len() ==> m.contains_key(#[trigger] checks[i].key@) && check_of(
                checks[i],
                m[checks[i].key@],
            ),
    ensures
        forall|k: Seq<char>|
            #[trigger] purged(m, checks, outcomes).contains_key(k) <==> m.contains_key(k)
                && !reported_missing(k, checks, outcomes),
        forall|k: Seq<char>|
            #[trigger] purged(m, checks, outcomes).contains_key(k) ==> purged(m, checks, outcomes)[k]
                == m[k],
        forall|k: Seq<char>|
            #[trigger] m.contains_key(k) && !checkable(m[k]) ==> purged(m, checks, outcomes).contains_key(k)
                && purged(m, checks, outcomes)[k] == m[k],
{
    assert forall|k: Seq<char>| #[trigger] m.contains_key(k) && !checkable(m[k]) implies !reported_missing(
        k,
        checks,
        outcomes,
    ) by {
        if reported_missing(k, checks, outcomes) {
            let i = choose|i: int|
                0 <= i < checks.len() && i < outcomes.len() && #[trigger] checks[i].key@ == k
                    && outcomes[i] is Missing;
            assert(check_of(checks[i], m[checks[i].key@]));
        }
    }
}

proof fn lemma_keys_differ(a: Seq<char>, b: Seq<char>, x: Seq<char>, y: Seq<char>)
    requires
        !a.contains('/'),
        !b.contains('/'),
        a != b,
    ensures
        a + seq!['/'] + x != b + seq!['/'] + y,
{
    let s1 = a + seq!['/'] + x;
    let s2 = b + seq!['/'] + y;
    if a.len() < b.len() {
        assert(s1[a.len() as int] == '/');
        assert(s2[a.len() as int] == b[a.len() as int]);
    } else if b.len() < a.len() {
        assert(s2[b.len() as int] == '/');
        assert(s1[b.len() as int] == a[b.len() as int]);
    } else {
        assert(!(a =~= b));
        let i = choose|i: int| 0 <= i < a.len() && a[i] != b[i];
        assert(s1[i] == a[i] && s2[i] == b[i]);
    }
}

/// An add or update of an object under one namespace leaves every entry keyed under
/// another namespace as it was, whatever the names, when neither namespace holds a `/`.
pub proof fn lemma_namespace_isolation(
    m: Map<Seq<char>, ObjectView>,
    ev: WatchEvent,
    other_ns: Seq<char>,
    name: Seq<char>,
)
    requires
        upserted(ev) is Some,
        !namespace_or_none(upserted(ev)->0@.namespace).contains('/'),
        !other_ns.contains('/'),
        namespace_or_none(upserted(ev)->0@.namespace) != other_ns,
    ensures
        ({
            let k = other_ns + seq!['/'] + name;
            let after = after_command(m, ev);
            &&& after.contains_key(k) == m.contains_key(k)
            &&& m.contains_key(k) ==> after[k] == m[k]
        }),
{
    let o = upserted(ev)->0@;
    lemma_keys_differ(namespace_or_none(o.namespace), other_ns, o.name, name);
}

/// No command puts the last-applied annotation into a cache that is free of it.
pub proof fn lemma_noise_free_kept(m: Map<Seq<char>, ObjectView>, ev: WatchEvent)
    requires
        noise_free(m),
    ensures
        noise_free(after_command(m, ev)),
{
    let after = after_command(m, ev);
    assert forall|k: Seq<char>| #[trigger] after.contains_key(k) implies !after[k].annotations.contains_key(
        LAST_APPLIED_ANNOTATION@,
    ) by {
        match upserted(ev) {
            Some(o) => {
                if k != key_of(o@) {
                    assert(m.contains_key(k));
                }
            },
            None => {
                assert(m.contains_key(k));
            },
        }
    }
}

/// A cache built from the empty one by any commands never holds the last-applied annotation.
pub proof fn lemma_noise_free_always(evs: Seq<WatchEvent>)
    ensures
        noise_free(after_commands(Map::<Seq<char>, ObjectView>::empty(), evs)),
    decreases evs.len(),
{
    if evs.len() > 0 {
        lemma_noise_free_always(evs.drop_last());
        lemma_noise_free_kept(after_commands(Map::<Seq<char>, ObjectView>::empty(), evs.drop_last()), evs.last());
    }
}

/// A purge keeps a noise-free cache noise-free.
pub proof fn lemma_purge_noise_free(
    m: Map<Seq<char>, ObjectView>,
    checks: Seq<ExistenceCheck>,
    outcomes: Seq<LiveStatus>,
)
    requires
        noise_free(m),
    ensures
        noise_free(purged(m, checks, outcomes)),
{
    let p = purged(m, checks, outcomes);
    assert forall|k: Seq<char>| #[trigger] p.contains_key(k) implies !p[k].annotations.contains_key(
        LAST_APPLIED_ANNOTATION@,
    ) by {
        assert(m.contains_key(k));
    }
}

} // verus!
