use vstd::prelude::*;

use crate::registry::{
    code_of, selected_version, ModuleRegistry, RegistryError, VersionConstraint,
};
use crate::store::{EntryKey, NameStore};
use crate::version::Version;

verus! {

/// Who may act for an account.
#[derive(Clone, Debug)]
pub enum Governance {
    /// A single owner decides alone.
    Monarchy { owner: String },
}

impl Governance {
    pub open spec fn authorizes(&self, caller: Seq<char>) -> bool {
        match self {
            Governance::Monarchy { owner } => owner@ == caller,
        }
    }

    pub fn is_authorized(&self, caller: &String) -> (r: bool)
        ensures
            r == self.authorizes(caller@),
    {
        match self {
            Governance::Monarchy { owner } => *owner == *caller,
        }
    }
}

/// A module, named by its namespace and its name.
#[derive(Clone, Debug)]
pub struct ModuleId {
    pub namespace: String,
    pub name: String,
}

impl EntryKey for ModuleId {
    open spec fn key_view(&self) -> Seq<Seq<char>> {
        seq![self.namespace@, self.name@]
    }

    fn same_key(&self, other: &ModuleId) -> (r: bool) {
        let a = self.namespace == other.namespace;
        let b = self.name == other.name;
        proof {
            if a && b {
                assert(self.key_view() =~= other.key_view());
            } else if !a {
                assert(self.key_view()[0] != other.key_view()[0]);
            } else {
                assert(self.key_view()[1] != other.key_view()[1]);
            }
        }
        a && b
    }
}

/// Where an installed module lives and which version runs there.
#[derive(Clone, Debug)]
pub struct InstalledModule {
    pub address: String,
    pub version: Version,
}

#[derive(PartialEq, Eq, Structural, Clone, Copy, Debug)]
pub enum VaultError {
    Unauthorized,
}

/// Holds the account's assets and runs messages only for its controller.
pub struct Vault {
    controller: String,
}

impl Vault {
    pub closed spec fn controller(&self) -> Seq<char> {
        self.controller@
    }

    pub fn new(controller: String) -> (r: Vault)
        ensures
            r.controller() == controller@,
    {
        Vault { controller }
    }

    /// Hands `msgs` on for dispatch when `caller` is the registered controller.
    pub fn execute_on_behalf<M>(&self, caller: &String, msgs: Vec<M>) -> (r: Result<
        Vec<M>,
        VaultError,
    >)
        ensures
            caller@ == self.controller() ==> r == Ok::<Vec<M>, VaultError>(msgs),
            caller@ != self.controller() ==> r == Err::<Vec<M>, VaultError>(
                VaultError::Unauthorized,
            ),
    {
        if *caller == self.controller {
            Ok(msgs)
        } else {
            Err(VaultError::Unauthorized)
        }
    }
}

#[derive(PartialEq, Eq, Structural, Clone, Copy, Debug)]
pub enum FactoryError {
    /// The registry has no code for the requested module version.
    CodeResolutionFailed(RegistryError),
    /// The ledger refused to create the instance.
    InstantiationFailed,
    /// The reply does not belong to the creation under way, or none is under way.
    ContinuationFailed,
    /// A creation is already waiting for its reply.
    CreateInProgress,
}

/// The request for a new instance: which code to instantiate, and the id its reply carries.
#[derive(PartialEq, Eq, Structural, Clone, Copy, Debug)]
pub struct CreateRequest {
    pub reply_id: u64,
    pub code_ref: u64,
}

/// A creation that waits for the ledger to report the new instance's address.
#[derive(Clone, Debug)]
pub struct PendingCreate {
    pub reply_id: u64,
    pub module: ModuleId,
    pub version: Version,
}

/// A finished creation.
#[derive(Clone, Debug)]
pub struct Created {
    pub module: ModuleId,
    pub version: Version,
    pub address: String,
}

/// Creates module instances in two steps: `create` resolves the code and asks for an instance;
/// `complete` takes the ledger's reply with the new address.
pub struct Factory {
    next_id: u64,
    pending: Option<PendingCreate>,
}

impl Factory {
    pub closed spec fn pending(&self) -> Option<PendingCreate> {
        self.pending
    }

    pub fn new() -> (r: Factory)
        ensures
            r.pending() is None,
    {
        Factory { next_id: 0, pending: None }
    }

    /// Starts creating `module` at the version that `constraint` selects.
    pub fn create(
        &mut self,
        registry: &ModuleRegistry,
        module: ModuleId,
        constraint: VersionConstraint,
    ) -> (r: Result<CreateRequest, FactoryError>)
        requires
            registry.wf(),
        ensures
            old(self).pending() is Some ==> r == Err::<CreateRequest, FactoryError>(
                FactoryError::CreateInProgress,
            ) && final(self).pending() == old(self).pending(),
            old(self).pending() is None ==> match selected_version(
                registry.records(),
                module.namespace@,
                module.name@,
                constraint,
            ) {
                Some(v) => r matches Ok(req) && req.code_ref == code_of(
                    registry.records(),
                    module.namespace@,
                    module.name@,
                    v,
                )->0 && final(self).pending() == Some(
                    PendingCreate { reply_id: req.reply_id, module, version: v },
                ),
                None => r == Err::<CreateRequest, FactoryError>(
                    FactoryError::CodeResolutionFailed(RegistryError::NotFound),
                ) && final(self).pending() is None,
            },
    {
        if self.pending.is_some() {
            return Err(FactoryError::CreateInProgress);
        }
        match registry.resolve_record(&module.namespace, &module.name, constraint) {
            Ok((version, code_ref)) => {
                let reply_id = self.next_id;
                self.next_id = if self.next_id == u64::MAX {
                    0
                } else {
                    self.next_id + 1
                };
                self.pending = Some(PendingCreate { reply_id, module, version });
                Ok(CreateRequest { reply_id, code_ref })
            },
            Err(e) => Err(FactoryError::CodeResolutionFailed(e)),
        }
    }

    /// Completes the creation under way with the ledger's reply: the new address, or `None`
    /// where the instance could not be made. Any reply ends the creation.
    pub fn complete(&mut self, reply_id: u64, outcome: Option<String>) -> (r: Result<
        Created,
        FactoryError,
    >)
        ensures
            final(self).pending() is None,
            match old(self).pending() {
                Some(p) if p.reply_id == reply_id => match outcome {
                    Some(a) => r matches Ok(c) && c.module == p.module && c.version == p.version
                        && c.address == a,
                    None => r == Err::<Created, FactoryError>(FactoryError::InstantiationFailed),
                },
                _ => r == Err::<Created, FactoryError>(FactoryError::ContinuationFailed),
            },
    {
        let pending = self.pending.take();
        match pending {
            Some(p) => {
                if p.reply_id != reply_id {
                    return Err(FactoryError::ContinuationFailed);
                }
                match outcome {
                    Some(address) => Ok(
                        Created { module: p.module, version: p.version, address },
                    ),
                    None => Err(FactoryError::InstantiationFailed),
                }
            },
            None => Err(FactoryError::ContinuationFailed),
        }
    }
}

#[derive(PartialEq, Eq, Structural, Clone, Copy, Debug)]
pub enum ControllerError {
    /// The caller may not act for the account.
    Unauthorized,
    /// The module is not installed.
    ModuleNotInstalled,
    /// The module is installed already.
    ModuleAlreadyInstalled,
    /// The module's migration failed, or no upgrade is under way.
    UpgradeFailed,
    /// Resolving the module's code failed.
    Registry(RegistryError),
    /// Creating the module's instance failed.
    Factory(FactoryError),
}

/// The request to migrate an installed module's instance to new code.
#[derive(Clone, Debug)]
pub struct MigrateRequest {
    pub address: String,
    pub code_ref: u64,
}

/// An upgrade that waits for the module's migration to report back.
#[derive(Clone, Debug)]
pub struct PendingUpgrade {
    pub module: ModuleId,
    pub version: Version,
}

/// The installed module of an id, within a table of installed modules.
pub open spec fn module_key(m: ModuleId) -> Seq<Seq<char>> {
    m.key_view()
}

/// Owns the modules installed on one account and decides who may change them.
pub struct Controller {
    governance: Governance,
    modules: NameStore<ModuleId, InstalledModule>,
    factory: Factory,
    upgrade: Option<PendingUpgrade>,
}

impl Controller {
    pub closed spec fn wf(&self) -> bool {
        self.modules.wf()
    }

    pub closed spec fn governance(&self) -> Governance {
        self.governance
    }

    pub closed spec fn modules(&self) -> Map<Seq<Seq<char>>, InstalledModule> {
        self.modules@
    }

    pub closed spec fn pending_install(&self) -> Option<PendingCreate> {
        self.factory.pending()
    }

    pub closed spec fn pending_upgrade(&self) -> Option<PendingUpgrade> {
        self.upgrade
    }

    pub fn new(governance: Governance) -> (r: Controller)
        ensures
            r.wf(),
            r.governance() == governance,
            r.modules() == Map::<Seq<Seq<char>>, InstalledModule>::empty(),
            r.pending_install() is None,
            r.pending_upgrade() is None,
    {
        Controller {
            governance,
            modules: NameStore::new(),
            factory: Factory::new(),
            upgrade: None,
        }
    }

    /// The installed module of an id.
    pub fn module(&self, module: &ModuleId) -> (r: Option<&InstalledModule>)
        requires
            self.wf(),
        ensures
            r is Some == self.modules().contains_key(module_key(*module)),
            r matches Some(m) ==> *m == self.modules()[module_key(*module)],
    {
        self.modules.get(module)
    }

    /// Hands the account to a new governance, if the current one authorizes `caller`.
    pub fn set_governance(&mut self, caller: &String, governance: Governance) -> (r: Result<
        (),
        ControllerError,
    >)
        requires
            old(self).wf(),
        ensures
            final(self).wf(),
            final(self).modules() == old(self).modules(),
            final(self).pending_install() == old(self).pending_install(),
            final(self).pending_upgrade() == old(self).pending_upgrade(),
            old(self).governance().authorizes(caller@) ==> r is Ok && final(self).governance()
                == governance,
            !old(self).governance().authorizes(caller@) ==> r == Err::<(), ControllerError>(
                ControllerError::Unauthorized,
            ) && final(self).governance() == old(self).governance(),
    {
        if !self.governance.is_authorized(caller) {
            return Err(ControllerError::Unauthorized);
        }
        self.governance = governance;
        Ok(())
    }

    /// Starts installing `module` at the version that `constraint` selects. The module is
    /// recorded once `complete_install` receives the new instance's address.
    pub fn install(
        &mut self,
        caller: &String,
        registry: &ModuleRegistry,
        module: ModuleId,
        constraint: VersionConstraint,
    ) -> (r: Result<CreateRequest, ControllerError>)
        requires
            old(self).wf(),
            registry.wf(),
        ensures
            final(self).wf(),
            final(self).governance() == old(self).governance(),
            final(self).modules() == old(self).modules(),
            final(self).pending_upgrade() == old(self).pending_upgrade(),
            !old(self).governance().authorizes(caller@) ==> r == Err::<
                CreateRequest,
                ControllerError,
            >(ControllerError::Unauthorized),
            old(self).governance().authorizes(caller@) && old(self).modules().contains_key(
                module_key(module),
            ) ==> r == Err::<CreateRequest, ControllerError>(
                ControllerError::ModuleAlreadyInstalled,
            ),
            r is Err ==> final(self).pending_install() == old(self).pending_install(),
            old(self).governance().authorizes(caller@) && !old(self).modules().contains_key(
                module_key(module),
            ) && old(self).pending_install() is Some ==> r == Err::<
                CreateRequest,
                ControllerError,
            >(ControllerError::Factory(FactoryError::CreateInProgress)),
            old(self).governance().authorizes(caller@) && !old(self).modules().contains_key(
                module_key(module),
            ) && old(self).pending_install() is None ==> match selected_version(
                registry.records(),
                module.namespace@,
                module.name@,
                constraint,
            ) {
                Some(v) => r matches Ok(req) && req.code_ref == code_of(
                    registry.records(),
                    module.namespace@,
                    module.name@,
                    v,
                )->0 && final(self).pending_install() == Some(
                    PendingCreate { reply_id: req.reply_id, module, version: v },
                ),
                None => r == Err::<CreateRequest, ControllerError>(
                    ControllerError::Registry(RegistryError::NotFound),
                ),
            },
    {
        if !self.governance.is_authorized(caller) {
            return Err(ControllerError::Unauthorized);
        }
        if self.modules.get(&module).is_some() {
            return Err(ControllerError::ModuleAlreadyInstalled);
        }
        match self.factory.create(registry, module, constraint) {
            Ok(req) => Ok(req),
            Err(FactoryError::CodeResolutionFailed(e)) => Err(ControllerError::Registry(e)),
            Err(e) => Err(ControllerError::Factory(e)),
        }
    }

    /// Records the module whose creation the reply completes; a failed or stray reply
    /// records nothing and ends the installation under way.
    pub fn complete_install(&mut self, reply_id: u64, outcome: Option<String>) -> (r: Result<
        (),
        ControllerError,
    >)
        requires
            old(self).wf(),
        ensures
            final(self).wf(),
            final(self).governance() == old(self).governance(),
            final(self).pending_install() is None,
            final(self).pending_upgrade() == old(self).pending_upgrade(),
            match old(self).pending_install() {
                Some(p) if p.reply_id == reply_id => match outcome {
                    Some(a) => r is Ok && final(self).modules() == old(self).modules().insert(
                        module_key(p.module),
                        InstalledModule { address: a, version: p.version },
                    ),
                    None => r == Err::<(), ControllerError>(
                        ControllerError::Factory(FactoryError::InstantiationFailed),
                    ) && final(self).modules() == old(self).modules(),
                },
                _ => r == Err::<(), ControllerError>(
                    ControllerError::Factory(FactoryError::ContinuationFailed),
                ) && final(self).modules() == old(self).modules(),
            },
    {
        match self.factory.complete(reply_id, outcome) {
            Ok(created) => {
                self.modules.upsert(
                    created.module,
                    InstalledModule { address: created.address, version: created.version },
                );
                Ok(())
            },
            Err(e) => Err(ControllerError::Factory(e)),
        }
    }

    /// Removes an installed module from the account. Assets the module holds stay with it.
    pub fn uninstall(&mut self, caller: &String, module: &ModuleId) -> (r: Result<
        (),
        ControllerError,
    >)
        requires
            old(self).wf(),
        ensures
            final(self).wf(),
            final(self).governance() == old(self).governance(),
            final(self).pending_install() == old(self).pending_install(),
            final(self).pending_upgrade() == old(self).pending_upgrade(),
            !old(self).governance().authorizes(caller@) ==> r == Err::<(), ControllerError>(
                ControllerError::Unauthorized,
            ) && final(self).modules() == old(self).modules(),
            old(self).governance().authorizes(caller@) && !old(self).modules().contains_key(
                module_key(*module),
            ) ==> r == Err::<(), ControllerError>(ControllerError::ModuleNotInstalled)
                && final(self).modules() == old(self).modules(),
            old(self).governance().authorizes(caller@) && old(self).modules().contains_key(
                module_key(*module),
            ) ==> r is Ok && final(self).modules() == old(self).modules().remove(
                module_key(*module),
            ),
    {
        if !self.governance.is_authorized(caller) {
            return Err(ControllerError::Unauthorized);
        }
        if self.modules.get(module).is_none() {
            return Err(ControllerError::ModuleNotInstalled);
        }
        self.modules.remove(module);
        Ok(())
    }

    /// Starts upgrading an installed module to `target`, which must exceed its installed
    /// version. The entry changes once `complete_upgrade` reports a successful migration.
    pub fn upgrade(
        &mut self,
        caller: &String,
        registry: &ModuleRegistry,
        module: ModuleId,
        target: Version,
    ) -> (r: Result<MigrateRequest, ControllerError>)
        requires
            old(self).wf(),
            registry.wf(),
        ensures
            final(self).wf(),
            final(self).governance() == old(self).governance(),
            final(self).modules() == old(self).modules(),
            final(self).pending_install() == old(self).pending_install(),
            r is Err ==> final(self).pending_upgrade() == old(self).pending_upgrade(),
            !old(self).governance().authorizes(caller@) ==> r == Err::<
                MigrateRequest,
                ControllerError,
            >(ControllerError::Unauthorized),
            old(self).governance().authorizes(caller@) ==> match old(self).modules().get(
                module_key(module),
            ) {
                None => r == Err::<MigrateRequest, ControllerError>(
                    ControllerError::ModuleNotInstalled,
                ),
                Some(m) => if !m.version.lt(target) {
                    r == Err::<MigrateRequest, ControllerError>(
                        ControllerError::Registry(
                            RegistryError::VersionNotMonotonic {
                                latest: m.version,
                                rejected: target,
                            },
                        ),
                    )
                } else {
                    match code_of(registry.records(), module.namespace@, module.name@, target) {
                        None => r == Err::<MigrateRequest, ControllerError>(
                            ControllerError::Registry(RegistryError::NotFound),
                        ),
                        Some(c) => r matches Ok(req) && req.address == m.address && req.code_ref
                            == c && final(self).pending_upgrade() == Some(
                            PendingUpgrade { module, version: target },
                        ),
                    }
                },
            },
    {
        if !self.governance.is_authorized(caller) {
            return Err(ControllerError::Unauthorized);
        }
        let current = match self.modules.get(&module) {
            Some(m) => m,
            None => {
                return Err(ControllerError::ModuleNotInstalled);
            },
        };
        if !current.version.less_than(&target) {
            return Err(
                ControllerError::Registry(
                    RegistryError::VersionNotMonotonic { latest: current.version, rejected: target },
                ),
            );
        }
        let address = current.address.clone();
        match registry.resolve(&module.namespace, &module.name, VersionConstraint::Exact(target)) {
            Ok(code_ref) => {
                self.upgrade = Some(PendingUpgrade { module, version: target });
                Ok(MigrateRequest { address, code_ref })
            },
            Err(e) => Err(ControllerError::Registry(e)),
        }
    }

    /// Ends the upgrade under way: on a successful migration the module's version becomes the
    /// target; otherwise the entry stays as it was.
    pub fn complete_upgrade(&mut self, migrated: bool) -> (r: Result<(), ControllerError>)
        requires
            old(self).wf(),
        ensures
            final(self).wf(),
            final(self).governance() == old(self).governance(),
            final(self).pending_install() == old(self).pending_install(),
            final(self).pending_upgrade() is None,
            match old(self).pending_upgrade() {
                Some(p) if migrated && old(self).modules().contains_key(module_key(p.module)) => r
                    is Ok && final(self).modules() == old(self).modules().insert(
                    module_key(p.module),
                    InstalledModule {
                        address: old(self).modules()[module_key(p.module)].address,
                        version: p.version,
                    },
                ),
                _ => r == Err::<(), ControllerError>(ControllerError::UpgradeFailed)
                    && final(self).modules() == old(self).modules(),
            },
    {
        let pending = self.upgrade.take();
        match pending {
            Some(p) => {
                if !migrated {
                    return Err(ControllerError::UpgradeFailed);
                }
                let address = match self.modules.get(&p.module) {
                    Some(m) => m.address.clone(),
                    None => {
                        return Err(ControllerError::UpgradeFailed);
                    },
                };
                self.modules.upsert(p.module, InstalledModule { address, version: p.version });
                Ok(())
            },
            None => Err(ControllerError::UpgradeFailed),
        }
    }
}

/// One logical account: a controller and the vault that only it may command.
pub struct AccountBundle {
    pub controller_address: String,
    pub vault_address: String,
    pub controller: Controller,
    pub vault: Vault,
}

impl AccountBundle {
    /// Pairs a fresh controller under `governance` with a vault that answers to it, once the
    /// ledger has reported both instances' addresses.
    pub fn new(governance: Governance, controller_address: String, vault_address: String) -> (r:
        AccountBundle)
        ensures
            r.controller.wf(),
            r.controller.governance() == governance,
            r.controller.modules() == Map::<Seq<Seq<char>>, InstalledModule>::empty(),
            r.controller.pending_install() is None,
            r.controller.pending_upgrade() is None,
            r.vault.controller() == controller_address@,
            r.controller_address == controller_address,
            r.vault_address == vault_address,
    {
        let vault = Vault::new(controller_address.clone());
        AccountBundle {
            controller_address,
            vault_address,
            controller: Controller::new(governance),
            vault,
        }
    }
}

/// Installing a module at a version, uninstalling it, and installing it again at that version:
/// the uninstall restores the table as it was, so the second install is not refused as a
/// duplicate, and the second entry carries the version of the first; only the address may
/// differ.
pub proof fn reinstall_round_trip(
    modules: Map<Seq<Seq<char>>, InstalledModule>,
    module: ModuleId,
    version: Version,
    first: String,
    second: String,
)
    requires
        !modules.contains_key(module_key(module)),
    ensures
        ({
            let k = module_key(module);
            let installed = modules.insert(k, InstalledModule { address: first, version });
            let removed = installed.remove(k);
            let again = removed.insert(k, InstalledModule { address: second, version });
            &&& removed == modules
            &&& !removed.contains_key(k)
            &&& again[k].version == installed[k].version
            &&& again[k].address == second
        }),
{
    let k = module_key(module);
    let installed = modules.insert(k, InstalledModule { address: first, version });
    assert(installed.remove(k) =~= modules);
}

} // verus!
