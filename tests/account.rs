use account_os::account::{
    AccountBundle, Controller, ControllerError, Factory, FactoryError, Governance, ModuleId, Vault, VaultError,
};
use account_os::registry::{ModuleRegistry, RegistryError, VersionConstraint};
use account_os::version::Version;

fn s(x: &str) -> String {
    x.to_string()
}

fn registry() -> ModuleRegistry {
    let mut reg = ModuleRegistry::new();
    reg.claim_namespace(&s("pub"), s("abstract")).unwrap();
    reg.register(&s("pub"), s("abstract"), s("dex"), Version::new(1, 0, 0), 10).unwrap();
    reg.register(&s("pub"), s("abstract"), s("dex"), Version::new(1, 1, 0), 11).unwrap();
    reg
}

fn dex() -> ModuleId {
    ModuleId { namespace: s("abstract"), name: s("dex") }
}

fn controller() -> Controller {
    Controller::new(Governance::Monarchy { owner: s("owner") })
}

#[test]
fn vault_runs_only_for_controller() {
    let vault = Vault::new(s("controller"));
    assert_eq!(vault.execute_on_behalf(&s("controller"), vec![1, 2]), Ok(vec![1, 2]));
    assert_eq!(vault.execute_on_behalf(&s("stranger"), vec![1, 2]), Err(VaultError::Unauthorized));
    assert_eq!(
        vault.execute_on_behalf(&s("owner"), Vec::<u8>::new()),
        Err(VaultError::Unauthorized)
    );
}

#[test]
fn install_uninstall_reinstall() {
    let reg = registry();
    let mut c = controller();
    let v = Version::new(1, 0, 0);
    let req = c.install(&s("owner"), &reg, dex(), VersionConstraint::Exact(v)).unwrap();
    assert_eq!(req.code_ref, 10);
    assert_eq!(c.complete_install(req.reply_id, Some(s("addr1"))), Ok(()));
    let first = c.module(&dex()).cloned().unwrap();
    assert_eq!(first.version, v);
    assert_eq!(first.address, s("addr1"));
    assert_eq!(c.uninstall(&s("owner"), &dex()), Ok(()));
    assert!(c.module(&dex()).is_none());
    let req = c.install(&s("owner"), &reg, dex(), VersionConstraint::Exact(v)).unwrap();
    assert_eq!(c.complete_install(req.reply_id, Some(s("addr2"))), Ok(()));
    let second = c.module(&dex()).cloned().unwrap();
    assert_eq!(second.version, first.version);
    assert_eq!(second.address, s("addr2"));
}

#[test]
fn install_refusals() {
    let reg = registry();
    let mut c = controller();
    assert_eq!(
        c.install(&s("stranger"), &reg, dex(), VersionConstraint::Latest),
        Err(ControllerError::Unauthorized)
    );
    let missing = ModuleId { namespace: s("abstract"), name: s("etf") };
    assert_eq!(
        c.install(&s("owner"), &reg, missing, VersionConstraint::Latest),
        Err(ControllerError::Registry(RegistryError::NotFound))
    );
    let req = c.install(&s("owner"), &reg, dex(), VersionConstraint::Latest).unwrap();
    assert_eq!(req.code_ref, 11);
    assert_eq!(
        c.install(&s("owner"), &reg, dex(), VersionConstraint::Latest),
        Err(ControllerError::Factory(FactoryError::CreateInProgress))
    );
    assert_eq!(
        c.complete_install(req.reply_id + 1, Some(s("addr"))),
        Err(ControllerError::Factory(FactoryError::ContinuationFailed))
    );
    assert!(c.module(&dex()).is_none());
    let req = c.install(&s("owner"), &reg, dex(), VersionConstraint::Latest).unwrap();
    assert_eq!(
        c.complete_install(req.reply_id, None),
        Err(ControllerError::Factory(FactoryError::InstantiationFailed))
    );
    assert!(c.module(&dex()).is_none());
    let req = c.install(&s("owner"), &reg, dex(), VersionConstraint::Latest).unwrap();
    c.complete_install(req.reply_id, Some(s("addr"))).unwrap();
    assert_eq!(c.module(&dex()).unwrap().version, Version::new(1, 1, 0));
    assert_eq!(
        c.install(&s("owner"), &reg, dex(), VersionConstraint::Latest),
        Err(ControllerError::ModuleAlreadyInstalled)
    );
}

#[test]
fn uninstall_refusals() {
    let mut c = controller();
    assert_eq!(c.uninstall(&s("owner"), &dex()), Err(ControllerError::ModuleNotInstalled));
    assert_eq!(c.uninstall(&s("stranger"), &dex()), Err(ControllerError::Unauthorized));
}

#[test]
fn upgrade_flow() {
    let reg = registry();
    let mut c = controller();
    let req = c.install(&s("owner"), &reg, dex(), VersionConstraint::Exact(Version::new(1, 0, 0))).unwrap();
    c.complete_install(req.reply_id, Some(s("addr"))).unwrap();
    assert_eq!(
        c.upgrade(&s("owner"), &reg, dex(), Version::new(1, 0, 0)).map(|m| m.code_ref),
        Err(ControllerError::Registry(RegistryError::VersionNotMonotonic {
            latest: Version::new(1, 0, 0),
            rejected: Version::new(1, 0, 0)
        }))
    );
    assert_eq!(
        c.upgrade(&s("owner"), &reg, dex(), Version::new(2, 0, 0)).map(|m| m.code_ref),
        Err(ControllerError::Registry(RegistryError::NotFound))
    );
    let m = c.upgrade(&s("owner"), &reg, dex(), Version::new(1, 1, 0)).unwrap();
    assert_eq!(m.address, s("addr"));
    assert_eq!(m.code_ref, 11);
    assert_eq!(c.complete_upgrade(false), Err(ControllerError::UpgradeFailed));
    assert_eq!(c.module(&dex()).unwrap().version, Version::new(1, 0, 0));
    c.upgrade(&s("owner"), &reg, dex(), Version::new(1, 1, 0)).unwrap();
    assert_eq!(c.complete_upgrade(true), Ok(()));
    let entry = c.module(&dex()).unwrap();
    assert_eq!(entry.version, Version::new(1, 1, 0));
    assert_eq!(entry.address, s("addr"));
    assert_eq!(c.complete_upgrade(true), Err(ControllerError::UpgradeFailed));
    let other = ModuleId { namespace: s("abstract"), name: s("etf") };
    assert_eq!(
        c.upgrade(&s("owner"), &reg, other, Version::new(1, 1, 0)).map(|m| m.code_ref),
        Err(ControllerError::ModuleNotInstalled)
    );
}

#[test]
fn governance_transfer() {
    let mut c = controller();
    assert_eq!(
        c.set_governance(&s("stranger"), Governance::Monarchy { owner: s("stranger") }),
        Err(ControllerError::Unauthorized)
    );
    assert_eq!(c.set_governance(&s("owner"), Governance::Monarchy { owner: s("heir") }), Ok(()));
    assert_eq!(c.uninstall(&s("owner"), &dex()), Err(ControllerError::Unauthorized));
    assert_eq!(c.uninstall(&s("heir"), &dex()), Err(ControllerError::ModuleNotInstalled));
}

#[test]
fn factory_two_steps() {
    let reg = registry();
    let mut f = Factory::new();
    let req = f.create(&reg, dex(), VersionConstraint::Latest).unwrap();
    assert_eq!(req.code_ref, 11);
    let created = f.complete(req.reply_id, Some(s("new"))).unwrap();
    assert_eq!(created.address, s("new"));
    assert_eq!(created.version, Version::new(1, 1, 0));
    assert_eq!(created.module.name, s("dex"));
    assert!(matches!(f.complete(req.reply_id, Some(s("new"))), Err(FactoryError::ContinuationFailed)));
    let missing = ModuleId { namespace: s("nope"), name: s("dex") };
    assert!(matches!(
        f.create(&reg, missing, VersionConstraint::Latest),
        Err(FactoryError::CodeResolutionFailed(RegistryError::NotFound))
    ));
}

#[test]
fn bundle_pairs_controller_and_vault() {
    let bundle = AccountBundle::new(Governance::Monarchy { owner: s("owner") }, s("ctrl"), s("vault"));
    assert_eq!(bundle.controller_address, s("ctrl"));
    assert_eq!(bundle.vault_address, s("vault"));
    assert_eq!(bundle.vault.execute_on_behalf(&s("ctrl"), vec![3]), Ok(vec![3]));
    assert_eq!(bundle.vault.execute_on_behalf(&s("owner"), vec![3]), Err(VaultError::Unauthorized));
    assert!(bundle.controller.module(&dex()).is_none());
}
