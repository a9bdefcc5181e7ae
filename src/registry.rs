use vstd::prelude::*;

use crate::version::Version;

verus! {

/// One published version of a module: where `(namespace, name, version)` finds its code.
pub struct ModuleRecord {
    pub namespace: String,
    pub name: String,
    pub version: Version,
    pub code_ref: u64,
}

/// Which version of a module a lookup asks for.
#[derive(PartialEq, Eq, Structural, Clone, Copy, Debug)]
pub enum VersionConstraint {
    Latest,
    Exact(Version),
}

#[derive(PartialEq, Eq, Structural, Clone, Copy, Debug)]
pub enum RegistryError {
    /// The offered version does not exceed the latest one already registered.
    VersionNotMonotonic { latest: Version, rejected: Version },
    /// The caller does not own the namespace.
    NamespaceUnauthorized,
    /// No record matches the lookup.
    NotFound,
}

pub open spec fn same_module(r: ModuleRecord, ns: Seq<char>, nm: Seq<char>) -> bool {
    r.namespace@ == ns && r.name@ == nm
}

/// The greatest version registered for `(ns, nm)`.
pub open spec fn max_version(recs: Seq<ModuleRecord>, ns: Seq<char>, nm: Seq<char>) -> Option<
    Version,
>
    decreases recs.len(),
{
    if recs.len() == 0 {
        None
    } else {
        let prev = max_version(recs.drop_last(), ns, nm);
        let r = recs.last();
        if same_module(r, ns, nm) {
            match prev {
                Some(v) => if v.lt(r.version) {
                    Some(r.version)
                } else {
                    Some(v)
                },
                None => Some(r.version),
            }
        } else {
            prev
        }
    }
}

/// The code registered for `(ns, nm)` at exactly version `v`.
pub open spec fn code_of(recs: Seq<ModuleRecord>, ns: Seq<char>, nm: Seq<char>, v: Version) -> Option<
    u64,
>
    decreases recs.len(),
{
    if recs.len() == 0 {
        None
    } else if same_module(recs.last(), ns, nm) && recs.last().version == v {
        Some(recs.last().code_ref)
    } else {
        code_of(recs.drop_last(), ns, nm, v)
    }
}

/// The version a constraint selects, if a record for it exists.
pub open spec fn selected_version(
    recs: Seq<ModuleRecord>,
    ns: Seq<char>,
    nm: Seq<char>,
    c: VersionConstraint,
) -> Option<Version> {
    match c {
        VersionConstraint::Latest => max_version(recs, ns, nm),
        VersionConstraint::Exact(v) => if code_of(recs, ns, nm, v).is_some() {
            Some(v)
        } else {
            None
        },
    }
}

/// The owner recorded for a namespace (the latest claim wins).
pub open spec fn owner_of(owners: Seq<(String, String)>, ns: Seq<char>) -> Option<Seq<char>>
    decreases owners.len(),
{
    if owners.len() == 0 {
        None
    } else if owners.last().0@ == ns {
        Some(owners.last().1@)
    } else {
        owner_of(owners.drop_last(), ns)
    }
}

/// Every registered version of `(ns, nm)` is at most the maximum, and the maximum is registered.
pub proof fn lemma_max_version_bounds(recs: Seq<ModuleRecord>, ns: Seq<char>, nm: Seq<char>)
    ensures
        forall|i: int|
            0 <= i < recs.len() && #[trigger] same_module(recs[i], ns, nm) ==> {
                &&& max_version(recs, ns, nm) is Some
                &&& (recs[i].version == max_version(recs, ns, nm)->0 || recs[i].version.lt(
                    max_version(recs, ns, nm)->0,
                ))
            },
        max_version(recs, ns, nm) is Some ==> code_of(
            recs,
            ns,
            nm,
            max_version(recs, ns, nm)->0,
        ) is Some,
    decreases recs.len(),
{
    if recs.len() > 0 {
        let prev = recs.drop_last();
        lemma_max_version_bounds(prev, ns, nm);
        lemma_code_of_extends(prev, recs.last(), ns, nm);
        assert forall|i: int|
            0 <= i < recs.len() && #[trigger] same_module(recs[i], ns, nm) implies {
            &&& max_version(recs, ns, nm) is Some
            &&& (recs[i].version == max_version(recs, ns, nm)->0 || recs[i].version.lt(
                max_version(recs, ns, nm)->0,
            ))
        } by {
            if i < recs.len() - 1 {
                assert(prev[i] == recs[i]);
                assert(same_module(prev[i], ns, nm));
            }
        }
    }
}

/// Appending a record keeps every code that an earlier record already gave.
proof fn lemma_code_of_extends(recs: Seq<ModuleRecord>, r: ModuleRecord, ns: Seq<char>, nm: Seq<char>)
    ensures
        forall|v: Version|
            #[trigger] code_of(recs, ns, nm, v) is Some ==> code_of(recs.push(r), ns, nm, v) is Some,
        recs.push(r).drop_last() == recs,
{
    assert(recs.push(r).drop_last() =~= recs);
}

/// The append-only store of module versions, with the owner of each namespace.
pub struct ModuleRegistry {
    records: Vec<ModuleRecord>,
    owners: Vec<(String, String)>,
}

impl ModuleRegistry {
    pub closed spec fn records(&self) -> Seq<ModuleRecord> {
        self.records@
    }

    pub closed spec fn owner(&self, ns: Seq<char>) -> Option<Seq<char>> {
        owner_of(self.owners@, ns)
    }

    /// Within one module, later records carry strictly greater versions.
    pub closed spec fn wf(&self) -> bool {
        forall|i: int, j: int|
            0 <= i < j < self.records@.len() && #[trigger] same_module(
                self.records@[j],
                self.records@[i].namespace@,
                self.records@[i].name@,
            ) ==> #[trigger] self.records@[i].version.lt(self.records@[j].version)
    }

    pub fn new() -> (r: ModuleRegistry)
        ensures
            r.wf(),
            r.records() == Seq::<ModuleRecord>::empty(),
            forall|ns: Seq<char>| r.owner(ns) is None,
    {
        ModuleRegistry { records: Vec::new(), owners: Vec::new() }
    }

    /// The owner of a namespace, if it has been claimed.
    pub fn namespace_owner(&self, namespace: &String) -> (r: Option<&String>)
        ensures
            r matches Some(o) ==> self.owner(namespace@) == Some(o@),
            r is None ==> self.owner(namespace@) is None,
    {
        let mut i: usize = self.owners.len();
        assert(self.owners@.subrange(0, i as int) =~= self.owners@);
        while i > 0
            invariant
                i <= self.owners@.len(),
                owner_of(self.owners@, namespace@) == owner_of(
                    self.owners@.subrange(0, i as int),
                    namespace@,
                ),
            decreases i,
        {
            let ghost pre = self.owners@.subrange(0, i as int);
            i = i - 1;
            assert(pre.drop_last() =~= self.owners@.subrange(0, i as int));
            if self.owners[i].0 == *namespace {
                return Some(&self.owners[i].1);
            }
        }
        None
    }

    /// Claims an unowned namespace for `caller`; claiming one's own namespace again changes
    /// nothing.
    pub fn claim_namespace(&mut self, caller: &String, namespace: String) -> (r: Result<
        (),
        RegistryError,
    >)
        requires
            old(self).wf(),
        ensures
            final(self).wf(),
            final(self).records() == old(self).records(),
            old(self).owner(namespace@) is None ==> r is Ok && final(self).owner(namespace@) == Some(
                caller@,
            ) && forall|ns: Seq<char>|
                ns != namespace@ ==> #[trigger] final(self).owner(ns) == old(self).owner(ns),
            old(self).owner(namespace@) == Some(caller@) ==> r is Ok && *final(self) == *old(self),
            old(self).owner(namespace@) matches Some(o) && o != caller@ ==> r == Err::<
                (),
                RegistryError,
            >(RegistryError::NamespaceUnauthorized) && *final(self) == *old(self),
    {
        match self.namespace_owner(&namespace) {
            Some(o) => {
                if *o == *caller {
                    Ok(())
                } else {
                    Err(RegistryError::NamespaceUnauthorized)
                }
            },
            None => {
                let ghost prev = self.owners@;
                self.owners.push((namespace, caller.clone()));
                assert(self.owners@.drop_last() =~= prev);
                Ok(())
            },
        }
    }

    /// The greatest registered version of a module.
    pub fn latest_version(&self, namespace: &String, name: &String) -> (r: Option<Version>)
        ensures
            r == max_version(self.records(), namespace@, name@),
    {
        let mut best: Option<Version> = None;
        let mut i: usize = 0;
        while i < self.records.len()
            invariant
                i <= self.records@.len(),
                best == max_version(self.records@.subrange(0, i as int), namespace@, name@),
            decreases self.records@.len() - i,
        {
            let ghost pre = self.records@.subrange(0, i as int + 1);
            assert(pre.drop_last() =~= self.records@.subrange(0, i as int));
            let r = &self.records[i];
            if r.namespace == *namespace && r.name == *name {
                best = match best {
                    Some(v) => if v.less_than(&r.version) {
                        Some(r.version)
                    } else {
                        Some(v)
                    },
                    None => Some(r.version),
                };
            }
            i = i + 1;
        }
        assert(self.records@.subrange(0, i as int) =~= self.records@);
        best
    }

    /// The code registered for a module at exactly `version`.
    fn code_at(&self, namespace: &String, name: &String, version: Version) -> (r: Option<u64>)
        ensures
            r == code_of(self.records(), namespace@, name@, version),
    {
        let mut i: usize = self.records.len();
        assert(self.records@.subrange(0, i as int) =~= self.records@);
        while i > 0
            invariant
                i <= self.records@.len(),
                code_of(self.records@, namespace@, name@, version) == code_of(
                    self.records@.subrange(0, i as int),
                    namespace@,
                    name@,
                    version,
                ),
            decreases i,
        {
            let ghost pre = self.records@.subrange(0, i as int);
            i = i - 1;
            assert(pre.drop_last() =~= self.records@.subrange(0, i as int));
            let r = &self.records[i];
            if r.namespace == *namespace && r.name == *name && r.version == version {
                return Some(r.code_ref);
            }
        }
        None
    }

    /// Publishes `version` of a module. Only the namespace's owner may publish, and only a
    /// version above every one already registered for the module.
    pub fn register(
        &mut self,
        caller: &String,
        namespace: String,
        name: String,
        version: Version,
        code_ref: u64,
    ) -> (r: Result<(), RegistryError>)
        requires
            old(self).wf(),
        ensures
            final(self).wf(),
            old(self).owner(namespace@) != Some(caller@) ==> r == Err::<(), RegistryError>(
                RegistryError::NamespaceUnauthorized,
            ) && *final(self) == *old(self),
            old(self).owner(namespace@) == Some(caller@) ==> match max_version(
                old(self).records(),
                namespace@,
                name@,
            ) {
                Some(m) if !m.lt(version) => r == Err::<(), RegistryError>(
                    RegistryError::VersionNotMonotonic { latest: m, rejected: version },
                ) && *final(self) == *old(self),
                _ => r is Ok && final(self).records() == old(self).records().push(
                    ModuleRecord { namespace, name, version, code_ref },
                ) && forall|ns: Seq<char>| #[trigger] final(self).owner(ns) == old(self).owner(ns),
            },
    {
        match self.namespace_owner(&namespace) {
            Some(o) => {
                if *o != *caller {
                    return Err(RegistryError::NamespaceUnauthorized);
                }
            },
            None => {
                return Err(RegistryError::NamespaceUnauthorized);
            },
        }
        match self.latest_version(&namespace, &name) {
            Some(m) => {
                if !m.less_than(&version) {
                    return Err(RegistryError::VersionNotMonotonic { latest: m, rejected: version });
                }
            },
            None => {},
        }
        let ghost prev = self.records@;
        proof {
            lemma_max_version_bounds(prev, namespace@, name@);
        }
        self.records.push(ModuleRecord { namespace, name, version, code_ref });
        assert forall|i: int, j: int|
            0 <= i < j < self.records@.len() && #[trigger] same_module(
                self.records@[j],
                self.records@[i].namespace@,
                self.records@[i].name@,
            ) implies #[trigger] self.records@[i].version.lt(self.records@[j].version) by {
            if j == prev.len() {
                assert(same_module(prev[i], namespace@, name@));
            } else {
                assert(self.records@[i] == prev[i] && self.records@[j] == prev[j]);
            }
        }
        Ok(())
    }

    /// The version and code that a constraint selects for a module.
    pub fn resolve_record(&self, namespace: &String, name: &String, constraint: VersionConstraint)
        -> (r: Result<(Version, u64), RegistryError>)
        requires
            self.wf(),
        ensures
            match selected_version(self.records(), namespace@, name@, constraint) {
                Some(v) => r == Ok::<(Version, u64), RegistryError>(
                    (v, code_of(self.records(), namespace@, name@, v)->0),
                ),
                None => r == Err::<(Version, u64), RegistryError>(RegistryError::NotFound),
            },
    {
        proof {
            lemma_max_version_bounds(self.records@, namespace@, name@);
        }
        let version = match constraint {
            VersionConstraint::Latest => match self.latest_version(namespace, name) {
                Some(v) => v,
                None => {
                    return Err(RegistryError::NotFound);
                },
            },
            VersionConstraint::Exact(v) => v,
        };
        match self.code_at(namespace, name, version) {
            Some(c) => Ok((version, c)),
            None => Err(RegistryError::NotFound),
        }
    }

    /// The code that a constraint selects for a module.
    pub fn resolve(&self, namespace: &String, name: &String, constraint: VersionConstraint) -> (r:
        Result<u64, RegistryError>)
        requires
            self.wf(),
        ensures
            match selected_version(self.records(), namespace@, name@, constraint) {
                Some(v) => r == Ok::<u64, RegistryError>(
                    code_of(self.records(), namespace@, name@, v)->0,
                ),
                None => r == Err::<u64, RegistryError>(RegistryError::NotFound),
            },
    {
        match self.resolve_record(namespace, name, constraint) {
            Ok((_, c)) => Ok(c),
            Err(e) => Err(e),
        }
    }
}

/// Registrations of one module that were accepted carry strictly increasing versions.
pub proof fn accepted_versions_increase(reg: &ModuleRegistry, i: int, j: int)
    requires
        reg.wf(),
        0 <= i < j < reg.records().len(),
        same_module(reg.records()[j], reg.records()[i].namespace@, reg.records()[i].name@),
    ensures
        reg.records()[i].version.lt(reg.records()[j].version),
{
}

/// A version that does not exceed some accepted version of the module does not exceed the
/// latest one either, so `register` refuses it with `VersionNotMonotonic`.
pub proof fn stale_version_is_refused(reg: &ModuleRegistry, i: int, v: Version)
    requires
        reg.wf(),
        0 <= i < reg.records().len(),
        !reg.records()[i].version.lt(v),
    ensures
        max_version(reg.records(), reg.records()[i].namespace@, reg.records()[i].name@) matches Some(
            m,
        ) && !m.lt(v),
{
    let r = reg.records()[i];
    lemma_max_version_bounds(reg.records(), r.namespace@, r.name@);
    assert(same_module(reg.records()[i], r.namespace@, r.name@));
}

} // verus!
