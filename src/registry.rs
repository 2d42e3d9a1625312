//! In-memory directory of backend services, keyed by service name.
//!
//! The registry is a plain value: writers take `&mut self`, readers take
//! `&self`, so Rust's borrow rules already make writers exclusive. A server
//! that shares one registry between tasks puts it behind a readers-writer
//! lock and holds that lock only for the duration of one call.
use vstd::prelude::*;

verus! {

/// One backend known to the gateway: its name, its base URL (scheme, host
/// and port) and its last known liveness.
#[derive(Clone, Debug)]
pub struct ServiceInfo {
    pub name: String,
    pub url: String,
    pub healthy: bool,
}

/// The mathematical value of a [`ServiceInfo`].
pub struct Record {
    pub name: Seq<char>,
    pub url: Seq<char>,
    pub healthy: bool,
}

impl View for ServiceInfo {
    type V = Record;

    open spec fn view(&self) -> Record {
        Record { name: self.name@, url: self.url@, healthy: self.healthy }
    }
}

/// The record that a registration of `name` at `url` creates.
pub open spec fn fresh_record(name: Seq<char>, url: Seq<char>) -> Record {
    Record { name, url, healthy: true }
}

/// The directory after registering `name` at `url`: the entry is inserted,
/// or overwritten when the name is already known.
pub open spec fn registered(m: Map<Seq<char>, Record>, name: Seq<char>, url: Seq<char>) -> Map<
    Seq<char>,
    Record,
> {
    m.insert(name, fresh_record(name, url))
}

/// The directory after setting the health flag of `name`; unchanged when
/// the name is not known.
pub open spec fn health_set(m: Map<Seq<char>, Record>, name: Seq<char>, healthy: bool) -> Map<
    Seq<char>,
    Record,
> {
    if m.contains_key(name) {
        m.insert(name, Record { healthy, ..m[name] })
    } else {
        m
    }
}

/// What a lookup of `name` yields.
pub open spec fn lookup(m: Map<Seq<char>, Record>, name: Seq<char>) -> Option<Record> {
    if m.contains_key(name) {
        Some(m[name])
    } else {
        None
    }
}

/// Every entry is stored under its own name.
pub open spec fn keyed_by_name(m: Map<Seq<char>, Record>) -> bool {
    forall|k: Seq<char>| #[trigger] m.contains_key(k) ==> m[k].name == k
}

/// No two records of the sequence share a name.
pub open spec fn names_unique(s: Seq<Record>) -> bool {
    forall|i: int, j: int|
        0 <= i < s.len() && 0 <= j < s.len() && i != j ==> #[trigger] s[i].name != #[trigger] s[j].name
}

/// The directory that a sequence of records with distinct names describes.
pub open spec fn directory(s: Seq<Record>) -> Map<Seq<char>, Record> {
    Map::new(
        |k: Seq<char>| exists|i: int| 0 <= i < s.len() && s[i].name == k,
        |k: Seq<char>| s[choose|i: int| 0 <= i < s.len() && s[i].name == k],
    )
}

pub open spec fn option_view(o: Option<ServiceInfo>) -> Option<Record> {
    match o {
        Some(info) => Some(info@),
        None => None,
    }
}

/// In a sequence with distinct names, the directory maps each record's name
/// to that record.
pub proof fn lemma_directory_at(s: Seq<Record>, i: int)
    requires
        names_unique(s),
        0 <= i < s.len(),
    ensures
        directory(s).contains_key(s[i].name),
        directory(s)[s[i].name] == s[i],
{
    let k = s[i].name;
    assert(exists|j: int| 0 <= j < s.len() && s[j].name == k);
    let j = choose|j: int| 0 <= j < s.len() && s[j].name == k;
    assert(j == i);
}

/// The directory of a sequence with distinct names stores each entry under
/// its own name.
pub proof fn lemma_directory_keyed(s: Seq<Record>)
    requires
        names_unique(s),
    ensures
        keyed_by_name(directory(s)),
{
    assert forall|k: Seq<char>| #[trigger] directory(s).contains_key(k) implies directory(
        s,
    )[k].name == k by {
        let i = choose|i: int| 0 <= i < s.len() && s[i].name == k;
        lemma_directory_at(s, i);
    }
}

/// Replacing the record at `i` by one with the same name replaces that
/// entry of the directory.
proof fn lemma_directory_update(s: Seq<Record>, i: int, r: Record)
    requires
        names_unique(s),
        0 <= i < s.len(),
        r.name == s[i].name,
    ensures
        names_unique(s.update(i, r)),
        directory(s.update(i, r)) == directory(s).insert(r.name, r),
{
    let t = s.update(i, r);
    assert(names_unique(t)) by {
        assert forall|a: int, b: int|
            0 <= a < t.len() && 0 <= b < t.len() && a != b implies #[trigger] t[a].name
            != #[trigger] t[b].name by {
            assert(s[a].name != s[b].name);
        }
    }
    let d = directory(s).insert(r.name, r);
    assert forall|k: Seq<char>| #[trigger] directory(t).contains_key(k) == d.contains_key(k) by {
        if d.contains_key(k) && k != r.name {
            let j = choose|j: int| 0 <= j < s.len() && s[j].name == k;
            assert(t[j].name == k);
        }
        if k == r.name {
            assert(t[i].name == k);
        }
        if directory(t).contains_key(k) {
            let j = choose|j: int| 0 <= j < t.len() && t[j].name == k;
            if j != i {
                assert(s[j].name == k);
            }
        }
    }
    assert forall|k: Seq<char>| #[trigger] d.contains_key(k) implies directory(t)[k] == d[k] by {
        if k == r.name {
            lemma_directory_at(t, i);
        } else {
            let j = choose|j: int| 0 <= j < s.len() && s[j].name == k;
            lemma_directory_at(s, j);
            lemma_directory_at(t, j);
        }
    }
    assert(directory(t) =~= d);
}

/// Appending a record whose name is new adds one entry to the directory.
proof fn lemma_directory_push(s: Seq<Record>, r: Record)
    requires
        names_unique(s),
        !directory(s).contains_key(r.name),
    ensures
        names_unique(s.push(r)),
        directory(s.push(r)) == directory(s).insert(r.name, r),
{
    let t = s.push(r);
    assert(names_unique(t)) by {
        assert forall|a: int, b: int|
            0 <= a < t.len() && 0 <= b < t.len() && a != b implies #[trigger] t[a].name
            != #[trigger] t[b].name by {
            if a < s.len() && b < s.len() {
                assert(s[a].name != s[b].name);
            } else if a < s.len() {
                assert(s[a].name == t[a].name);
            } else {
                assert(s[b].name == t[b].name);
            }
        }
    }
    let d = directory(s).insert(r.name, r);
    assert forall|k: Seq<char>| #[trigger] directory(t).contains_key(k) == d.contains_key(k) by {
        if d.contains_key(k) && k != r.name {
            let j = choose|j: int| 0 <= j < s.len() && s[j].name == k;
            assert(t[j].name == k);
        }
        if k == r.name {
            assert(t[s.len() as int].name == k);
        }
        if directory(t).contains_key(k) {
            let j = choose|j: int| 0 <= j < t.len() && t[j].name == k;
            if j < s.len() {
                assert(s[j].name == k);
            }
        }
    }
    assert forall|k: Seq<char>| #[trigger] d.contains_key(k) implies directory(t)[k] == d[k] by {
        if k == r.name {
            lemma_directory_at(t, s.len() as int);
        } else {
            let j = choose|j: int| 0 <= j < s.len() && s[j].name == k;
            lemma_directory_at(s, j);
            lemma_directory_at(t, j);
        }
    }
    assert(directory(t) =~= d);
}

/// A field-by-field copy of `info`.
fn duplicate(info: &ServiceInfo) -> (r: ServiceInfo)
    ensures
        r@ == info@,
{
    ServiceInfo { name: info.name.clone(), url: info.url.clone(), healthy: info.healthy }
}

/// Directory of the services the gateway can route to.
pub struct ServiceRegistry {
    services: Vec<ServiceInfo>,
}

impl View for ServiceRegistry {
    type V = Map<Seq<char>, Record>;

    closed spec fn view(&self) -> Map<Seq<char>, Record> {
        directory(self.records())
    }
}

impl ServiceRegistry {
    /// The records in the order in which their names were first registered.
    pub closed spec fn records(&self) -> Seq<Record> {
        self.services@.map_values(|info: ServiceInfo| info@)
    }

    /// Names are unique among the stored records. Every registry satisfies
    /// this: it holds of the empty registry and every operation keeps it.
    #[verifier::type_invariant]
    pub closed spec fn wf(&self) -> bool {
        forall|i: int, j: int|
            0 <= i < self.services@.len() && 0 <= j < self.services@.len() && i != j
                ==> #[trigger] self.services@[i].name@ != #[trigger] self.services@[j].name@
    }

    /// In a well-formed registry the records have distinct names.
    proof fn lemma_records_unique(&self)
        requires
            self.wf(),
        ensures
            names_unique(self.records()),
    {
        assert forall|i: int, j: int|
            0 <= i < self.records().len() && 0 <= j < self.records().len() && i != j implies #[trigger] self.records()[i].name
            != #[trigger] self.records()[j].name by {
            assert(self.records()[i].name == self.services@[i].name@);
            assert(self.records()[j].name == self.services@[j].name@);
        }
    }

    /// A well-formed registry stores each entry under its own name.
    pub proof fn lemma_keyed_by_name(&self)
        requires
            self.wf(),
        ensures
            keyed_by_name(self@),
    {
        self.lemma_records_unique();
        lemma_directory_keyed(self.records());
    }

    /// An empty registry.
    pub fn new() -> (r: ServiceRegistry)
        ensures
            r@ == Map::<Seq<char>, Record>::empty(),
    {
        let r = ServiceRegistry { services: Vec::new() };
        assert(r@ =~= Map::<Seq<char>, Record>::empty());
        r
    }

    /// Position of the record named `name`, if there is one.
    fn position(&self, name: &str) -> (r: Option<usize>)
        ensures
            match r {
                Some(i) => i < self.services.len() && self.services[i as int].name@ == name@,
                None => !self@.contains_key(name@) && forall|j: int|
                    0 <= j < self.services@.len() ==> self.services@[j].name@ != name@,
            },
    {
        proof {
            use_type_invariant(self);
            self.lemma_records_unique();
        }
        let key = name.to_owned();
        let mut i: usize = 0;
        while i < self.services.len()
            invariant
                i <= self.services.len(),
                key@ == name@,
                forall|j: int| 0 <= j < i ==> self.services[j].name@ != name@,
            decreases self.services.len() - i,
        {
            if self.services[i].name == key {
                return Some(i);
            }
            i = i + 1;
        }
        assert(!self@.contains_key(name@)) by {
            if self@.contains_key(name@) {
                let j = choose|j: int| 0 <= j < self.records().len() && self.records()[j].name == name@;
                assert(self.services[j].name@ == name@);
            }
        }
        None
    }

    /// Inserts a record for `name` at `url`, marked healthy, replacing any
    /// earlier record of that name.
    pub fn register_service(&mut self, name: String, url: String)
        ensures
            final(self)@ == registered(old(self)@, name@, url@),
    {
        proof {
            use_type_invariant(&*self);
            self.lemma_records_unique();
        }
        let ghost before = self.records();
        let ghost fresh = fresh_record(name@, url@);
        match self.position(name.as_str()) {
            Some(i) => {
                // Edit the records outside the registry and put them back in
                // one assignment, where the invariant is checked.
                let mut services: Vec<ServiceInfo> = Vec::new();
                std::mem::swap(&mut self.services, &mut services);
                services.set(i, ServiceInfo { name, url, healthy: true });
                self.services = services;
                proof {
                    assert(self.records() =~= before.update(i as int, fresh));
                    lemma_directory_update(before, i as int, fresh);
                }
            },
            None => {
                // Edit the records outside the registry and put them back in
                // one assignment, where the invariant is checked.
                let mut services: Vec<ServiceInfo> = Vec::new();
                std::mem::swap(&mut self.services, &mut services);
                services.push(ServiceInfo { name, url, healthy: true });
                self.services = services;
                proof {
                    assert(self.records() =~= before.push(fresh));
                    lemma_directory_push(before, fresh);
                }
            },
        }
    }

    /// A copy of the record named `name`, or `None` when no such service is
    /// registered.
    pub fn get_service(&self, name: &str) -> (r: Option<ServiceInfo>)
        ensures
            option_view(r) == lookup(self@, name@),
    {
        proof {
            use_type_invariant(self);
            self.lemma_records_unique();
        }
        match self.position(name) {
            Some(i) => {
                proof {
                    lemma_directory_at(self.records(), i as int);
                }
                Some(duplicate(&self.services[i]))
            },
            None => None,
        }
    }

    /// Sets the health flag of the record named `name`. Returns whether such
    /// a record exists; when it does not, the registry is left unchanged.
    pub fn set_health(&mut self, name: &str, healthy: bool) -> (found: bool)
        ensures
            found == old(self)@.contains_key(name@),
            final(self)@ == health_set(old(self)@, name@, healthy),
    {
        proof {
            use_type_invariant(&*self);
            self.lemma_records_unique();
        }
        let ghost before = self.records();
        match self.position(name) {
            Some(i) => {
                proof {
                    lemma_directory_at(before, i as int);
                }
                let mut info = duplicate(&self.services[i]);
                info.healthy = healthy;
                let ghost changed = info@;
                // Edit the records outside the registry and put them back in
                // one assignment, where the invariant is checked.
                let mut services: Vec<ServiceInfo> = Vec::new();
                std::mem::swap(&mut self.services, &mut services);
                services.set(i, info);
                self.services = services;
                proof {
                    assert(self.records() =~= before.update(i as int, changed));
                    lemma_directory_update(before, i as int, changed);
                }
                true
            },
            None => false,
        }
    }

    /// A snapshot of every record. The result is an independent copy: later
    /// changes to the registry do not reach it.
    pub fn get_all_services(&self) -> (r: Vec<ServiceInfo>)
        ensures
            r@.map_values(|info: ServiceInfo| info@) == self.records(),
            names_unique(r@.map_values(|info: ServiceInfo| info@)),
            directory(r@.map_values(|info: ServiceInfo| info@)) == self@,
    {
        proof {
            use_type_invariant(self);
            self.lemma_records_unique();
        }
        let mut out: Vec<ServiceInfo> = Vec::new();
        let mut i: usize = 0;
        while i < self.services.len()
            invariant
                i <= self.services.len(),
                out@.len() == i,
                forall|j: int| 0 <= j < i ==> #[trigger] out@[j]@ == self.services@[j]@,
            decreases self.services.len() - i,
        {
            out.push(duplicate(&self.services[i]));
            i = i + 1;
        }
        assert(out@.map_values(|info: ServiceInfo| info@) =~= self.records());
        out
    }

    /// The directory has one entry per stored record.
    pub proof fn lemma_len(&self)
        requires
            self.wf(),
        ensures
            self@.dom().finite(),
            self@.len() == self.records().len(),
    {
        self.lemma_records_unique();
        lemma_directory_len(self.records());
    }

    /// Number of registered services.
    pub fn len(&self) -> (n: usize)
        ensures
            n == self@.len(),
    {
        proof {
            use_type_invariant(self);
            self.lemma_records_unique();
            lemma_directory_len(self.records());
        }
        self.services.len()
    }
}

/// A sequence of records with distinct names has as many directory entries
/// as records.
proof fn lemma_directory_len(s: Seq<Record>)
    requires
        names_unique(s),
    ensures
        directory(s).dom().finite(),
        directory(s).len() == s.len(),
    decreases s.len(),
{
    if s.len() == 0 {
        assert(directory(s).dom() =~= Set::<Seq<char>>::empty());
    } else {
        let p = s.drop_last();
        let r = s.last();
        assert(names_unique(p)) by {
            assert forall|a: int, b: int|
                0 <= a < p.len() && 0 <= b < p.len() && a != b implies #[trigger] p[a].name
                != #[trigger] p[b].name by {
                assert(s[a].name != s[b].name);
            }
        }
        lemma_directory_len(p);
        assert(!directory(p).contains_key(r.name)) by {
            if directory(p).contains_key(r.name) {
                let j = choose|j: int| 0 <= j < p.len() && p[j].name == r.name;
                assert(s[j].name == s[s.len() - 1].name);
            }
        }
        lemma_directory_push(p, r);
        assert(p.push(r) =~= s);
    }
}

/// Right after `name` is registered at `url`, looking `name` up yields a
/// healthy record with that name and exactly that URL.
pub proof fn lemma_lookup_after_register(m: Map<Seq<char>, Record>, name: Seq<char>, url: Seq<char>)
    ensures
        lookup(registered(m, name, url), name) == Some(fresh_record(name, url)),
        lookup(registered(m, name, url), name) matches Some(rec) && rec.url == url,
{
}

/// A registration never leaves a record mixed from two registrations: in
/// any listing of the directory after registering `name` at `url`, each
/// record is either the whole new record or a record that was already there,
/// unchanged.
pub proof fn lemma_listing_records_whole(
    m: Map<Seq<char>, Record>,
    name: Seq<char>,
    url: Seq<char>,
    listing: Seq<Record>,
)
    requires
        keyed_by_name(m),
        names_unique(listing),
        directory(listing) == registered(m, name, url),
    ensures
        forall|i: int|
            0 <= i < listing.len() ==> #[trigger] listing[i] == fresh_record(name, url) || (
            m.contains_key(listing[i].name) && listing[i] == m[listing[i].name]),
{
    assert forall|i: int| 0 <= i < listing.len() implies #[trigger] listing[i] == fresh_record(
        name,
        url,
    ) || (m.contains_key(listing[i].name) && listing[i] == m[listing[i].name]) by {
        lemma_directory_at(listing, i);
    }
}

} // verus!
