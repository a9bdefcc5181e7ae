use account_os::registry::{ModuleRegistry, RegistryError, VersionConstraint};
use account_os::version::Version;

fn s(x: &str) -> String {
    x.to_string()
}

fn owned_registry() -> ModuleRegistry {
    let mut reg = ModuleRegistry::new();
    assert_eq!(reg.claim_namespace(&s("publisher"), s("dex")), Ok(()));
    reg
}

#[test]
fn version_precedence() {
    assert!(Version::new(1, 0, 0).less_than(&Version::new(1, 1, 0)));
    assert!(Version::new(1, 9, 9).less_than(&Version::new(2, 0, 0)));
    assert!(Version::new(1, 1, 0).less_than(&Version::new(1, 1, 1)));
    assert!(!Version::new(1, 1, 0).less_than(&Version::new(1, 1, 0)));
    assert!(!Version::new(2, 0, 0).less_than(&Version::new(1, 5, 5)));
}

#[test]
fn register_then_resolve_latest_scenario() {
    let mut reg = owned_registry();
    let p = s("publisher");
    assert_eq!(reg.register(&p, s("dex"), s("swap"), Version::new(1, 0, 0), 7), Ok(()));
    assert_eq!(
        reg.register(&p, s("dex"), s("swap"), Version::new(1, 0, 0), 8),
        Err(RegistryError::VersionNotMonotonic {
            latest: Version::new(1, 0, 0),
            rejected: Version::new(1, 0, 0)
        })
    );
    assert_eq!(reg.register(&p, s("dex"), s("swap"), Version::new(1, 1, 0), 8), Ok(()));
    assert_eq!(reg.resolve(&s("dex"), &s("swap"), VersionConstraint::Latest), Ok(8));
    assert_eq!(
        reg.resolve(&s("dex"), &s("swap"), VersionConstraint::Exact(Version::new(1, 0, 0))),
        Ok(7)
    );
}

#[test]
fn lower_version_is_refused() {
    let mut reg = owned_registry();
    let p = s("publisher");
    assert_eq!(reg.register(&p, s("dex"), s("swap"), Version::new(2, 0, 0), 1), Ok(()));
    assert_eq!(
        reg.register(&p, s("dex"), s("swap"), Version::new(1, 9, 0), 2),
        Err(RegistryError::VersionNotMonotonic {
            latest: Version::new(2, 0, 0),
            rejected: Version::new(1, 9, 0)
        })
    );
    assert_eq!(reg.latest_version(&s("dex"), &s("swap")), Some(Version::new(2, 0, 0)));
    // another module of the namespace has its own history
    assert_eq!(reg.register(&p, s("dex"), s("pool"), Version::new(0, 1, 0), 3), Ok(()));
    assert_eq!(reg.latest_version(&s("dex"), &s("pool")), Some(Version::new(0, 1, 0)));
}

#[test]
fn namespace_owner_only() {
    let mut reg = owned_registry();
    assert_eq!(
        reg.register(&s("intruder"), s("dex"), s("swap"), Version::new(1, 0, 0), 1),
        Err(RegistryError::NamespaceUnauthorized)
    );
    assert_eq!(
        reg.register(&s("publisher"), s("other"), s("swap"), Version::new(1, 0, 0), 1),
        Err(RegistryError::NamespaceUnauthorized)
    );
    assert_eq!(
        reg.claim_namespace(&s("intruder"), s("dex")),
        Err(RegistryError::NamespaceUnauthorized)
    );
    assert_eq!(reg.claim_namespace(&s("publisher"), s("dex")), Ok(()));
    assert_eq!(reg.namespace_owner(&s("dex")), Some(&s("publisher")));
    assert_eq!(reg.namespace_owner(&s("other")), None);
}

#[test]
fn resolve_missing_module() {
    let mut reg = owned_registry();
    assert_eq!(
        reg.resolve(&s("dex"), &s("swap"), VersionConstraint::Latest),
        Err(RegistryError::NotFound)
    );
    assert_eq!(reg.register(&s("publisher"), s("dex"), s("swap"), Version::new(1, 0, 0), 4), Ok(()));
    assert_eq!(
        reg.resolve(&s("dex"), &s("swap"), VersionConstraint::Exact(Version::new(1, 0, 1))),
        Err(RegistryError::NotFound)
    );
    assert_eq!(
        reg.resolve_record(&s("dex"), &s("swap"), VersionConstraint::Latest),
        Ok((Version::new(1, 0, 0), 4))
    );
}

#[test]
fn parse_versions() {
    assert_eq!(Version::parse("1.0.0"), Some(Version::new(1, 0, 0)));
    assert_eq!(Version::parse("0.12.345"), Some(Version::new(0, 12, 345)));
    assert_eq!(
        Version::parse("18446744073709551615.0.1"),
        Some(Version::new(u64::MAX, 0, 1))
    );
    assert_eq!(Version::parse("18446744073709551616.0.1"), None);
    assert_eq!(Version::parse("1.0"), None);
    assert_eq!(Version::parse("1.0.0.0"), None);
    assert_eq!(Version::parse("01.0.0"), None);
    assert_eq!(Version::parse("1..0"), None);
    assert_eq!(Version::parse("1.0.x"), None);
    assert_eq!(Version::parse(""), None);
    assert_eq!(Version::parse("1.0.0-beta"), None);
}

#[test]
fn register_scenario_from_version_strings() {
    let mut reg = owned_registry();
    let p = s("publisher");
    let v100 = Version::parse("1.0.0").unwrap();
    let v110 = Version::parse("1.1.0").unwrap();
    assert_eq!(reg.register(&p, s("dex"), s("swap"), v100, 100), Ok(()));
    assert!(matches!(
        reg.register(&p, s("dex"), s("swap"), v100, 200),
        Err(RegistryError::VersionNotMonotonic { .. })
    ));
    assert_eq!(reg.register(&p, s("dex"), s("swap"), v110, 200), Ok(()));
    assert_eq!(reg.resolve(&s("dex"), &s("swap"), VersionConstraint::Latest), Ok(200));
}
