use shipcat::env::Env;
use shipcat::error::{Bound, ConfigFault, Error, HealthFault, InitFault, Layer};
use shipcat::manifest::{Document, Manifest};
use shipcat::repo::{RegionFile, Repository, Service};
use shipcat::structs::{ConfigMap, ConfigMappedFile, Dependency, HealthCheck, InitContainer, ResourceLimit, ResourceRequest, Resources};
use shipcat::validate::{api_version_is_number, check_init_container, validate};

fn resources(rc: &str, rm: &str, lc: &str, lm: &str) -> Option<Resources> {
    Some(Resources {
        requests: Some(ResourceRequest { cpu: rc.into(), memory: rm.into() }),
        limits: Some(ResourceLimit { cpu: lc.into(), memory: lm.into() }),
    })
}

fn good() -> Manifest {
    let mut mf = Manifest::new("billing", "");
    mf.resources = resources("200m", "512Mi", "2", "1Gi");
    mf.regions = vec!["prod-us".to_string()];
    mf
}

fn repo() -> Repository {
    Repository {
        services: vec![Service { name: "auth".into(), descriptor: Document::Missing, overrides: vec![] }],
        environments: vec![RegionFile { region: "prod-us".into(), document: Document::Parsed(Manifest::default()) }],
    }
}

#[test]
fn good_manifest_passes() {
    assert!(good().verify(&repo()).is_ok());
}

#[test]
fn empty_name_fails() {
    let mut mf = good();
    mf.name = Some(String::new());
    assert!(matches!(mf.verify(&repo()), Err(Error::EmptyName)));
    mf.name = None;
    assert!(matches!(mf.verify(&repo()), Err(Error::EmptyName)));
}

#[test]
fn missing_resources_fail() {
    let mut mf = good();
    mf.resources = None;
    assert!(matches!(mf.verify(&repo()), Err(Error::ResourcesMissing)));
    mf.resources = Some(Resources { requests: None, limits: None });
    assert!(matches!(mf.verify(&repo()), Err(Error::ResourcesMissing)));
}

#[test]
fn twelve_cores_requested_fail() {
    let mut mf = good();
    mf.resources = resources("12", "512Mi", "20", "1Gi");
    assert!(matches!(
        mf.verify(&repo()),
        Err(Error::ResourceBoundViolation(Bound::CpuRequestCeiling))
    ));
}

#[test]
fn resource_bounds_are_held_in_order() {
    let cases: Vec<(Option<Resources>, Option<Bound>)> = vec![
        (resources("10", "10Gi", "20", "20Gi"), None),
        (resources("3", "1Gi", "2", "2Gi"), Some(Bound::CpuRequestOverLimit)),
        (resources("1", "3Gi", "2", "2Gi"), Some(Bound::MemoryRequestOverLimit)),
        (resources("10001m", "1Gi", "20", "2Gi"), Some(Bound::CpuRequestCeiling)),
        (resources("1", "10241Mi", "2", "20Gi"), Some(Bound::MemoryRequestCeiling)),
        (resources("1", "1Gi", "20.5", "2Gi"), Some(Bound::CpuLimitCeiling)),
        (resources("1", "1Gi", "2", "21Gi"), Some(Bound::MemoryLimitCeiling)),
        (resources("30", "30Gi", "25", "25Gi"), Some(Bound::CpuRequestOverLimit)),
        (resources("0.2", "1G", "200m", "1000M"), None),
        (resources("0.2000000000000000000001", "1G", "200m", "1G"), Some(Bound::CpuRequestOverLimit)),
        (resources("1", "10737418240.5", "2", "20Gi"), Some(Bound::MemoryRequestCeiling)),
        (resources("1", "10737418240", "2", "20Gi"), None),
        (resources("1", "1Gi", "99999999999999999999999999999999999999999999k", "2Gi"), Some(Bound::CpuLimitCeiling)),
    ];
    for (res, want) in cases {
        let mut mf = good();
        mf.resources = res;
        match (mf.verify(&repo()), want) {
            (Ok(()), None) => {}
            (Err(Error::ResourceBoundViolation(b)), Some(w)) => assert_eq!(b, w),
            (got, want) => panic!("{:?} {:?}", got, want),
        }
    }
}

#[test]
fn unreadable_quantities_fail() {
    let mut mf = good();
    mf.resources = resources("200m", "512Xi", "2", "1Gi");
    assert!(matches!(mf.verify(&repo()), Err(Error::UnknownUnit(_))));
    mf.resources = resources("abc", "512Mi", "2", "1Gi");
    assert!(matches!(mf.verify(&repo()), Err(Error::InvalidNumber)));
    // Memory is read before CPU.
    mf.resources = resources("abc", "512Mi", "2", "1Zi");
    assert!(matches!(mf.verify(&repo()), Err(Error::UnknownUnit(_))));
}

#[test]
fn config_block_rules() {
    let mut mf = good();
    let file = |n: &str| ConfigMappedFile { name: n.into(), dest: "x".into() };
    mf.configs = Some(ConfigMap { name: Some("c".into()), mount: "".into(), files: vec![] });
    assert!(matches!(mf.verify(&repo()), Err(Error::ConfigShape(ConfigFault::EmptyMount))));
    mf.configs = Some(ConfigMap { name: Some("c".into()), mount: "~".into(), files: vec![] });
    assert!(matches!(mf.verify(&repo()), Err(Error::ConfigShape(ConfigFault::EmptyMount))));
    mf.configs = Some(ConfigMap { name: Some("c".into()), mount: "/config".into(), files: vec![] });
    assert!(matches!(mf.verify(&repo()), Err(Error::ConfigShape(ConfigFault::MountWithoutSlash))));
    mf.configs = Some(ConfigMap {
        name: Some("c".into()),
        mount: "/config/".into(),
        files: vec![file("a.ini.j2"), file("b.ini")],
    });
    assert!(matches!(mf.verify(&repo()), Err(Error::ConfigShape(ConfigFault::FileNotTemplate))));
    mf.configs = Some(ConfigMap {
        name: None,
        mount: "/config/".into(),
        files: vec![file("a.ini.j2"), file(".j2")],
    });
    assert!(mf.verify(&repo()).is_ok());
}

#[test]
fn dependency_rules() {
    let mut mf = good();
    mf.dependencies = vec![Dependency { name: "auth".into(), api: Some("v1".into()) }];
    assert!(mf.verify(&repo()).is_ok());
    mf.dependencies = vec![
        Dependency { name: "auth".into(), api: Some("v1".into()) },
        Dependency { name: "ghost".into(), api: Some("v1".into()) },
    ];
    match mf.verify(&repo()) {
        Err(Error::DependencyNotFound(n)) => assert_eq!(n, "ghost"),
        other => panic!("{:?}", other),
    }
    mf.dependencies = vec![Dependency { name: "auth".into(), api: Some("vx".into()) }];
    match mf.verify(&repo()) {
        Err(Error::InvalidApiVersion(n)) => assert_eq!(n, "auth"),
        other => panic!("{:?}", other),
    }
    mf.dependencies = vec![Dependency { name: "auth".into(), api: None }];
    assert!(matches!(mf.verify(&repo()), Err(Error::InvalidApiVersion(_))));
}

#[test]
fn api_versions() {
    assert!(api_version_is_number("v1"));
    assert!(api_version_is_number("1"));
    assert!(api_version_is_number("vv12"));
    assert!(api_version_is_number("v+3"));
    assert!(api_version_is_number("v007"));
    assert!(api_version_is_number("18446744073709551615"));
    assert!(!api_version_is_number("18446744073709551616"));
    assert!(!api_version_is_number("v"));
    assert!(!api_version_is_number(""));
    assert!(!api_version_is_number("v1.0"));
    assert!(!api_version_is_number("v-1"));
    assert!(!api_version_is_number("1v"));
    assert!(!api_version_is_number("+"));
    assert!(!api_version_is_number("v++1"));
    assert!(!api_version_is_number("beta"));
}

#[test]
fn region_without_file_fails_until_the_file_is_added() {
    let mut mf = good();
    mf.regions = vec!["prod-us".to_string()];
    let mut set = Repository::new();
    match mf.verify(&set) {
        Err(Error::RegionFileMissing(r)) => assert_eq!(r, "prod-us"),
        other => panic!("{:?}", other),
    }
    set.environments.push(RegionFile {
        region: "prod-us".into(),
        document: Document::Parsed(Manifest::default()),
    });
    assert!(mf.verify(&set).is_ok());
}

#[test]
fn empty_region_set_fails() {
    let mut mf = good();
    mf.regions = vec![];
    assert!(matches!(mf.verify(&repo()), Err(Error::EmptyRegionSet)));
}

#[test]
fn missing_region_file_entry_counts_as_no_file() {
    let mut mf = good();
    mf.regions = vec!["dev-uk".to_string()];
    let mut set = repo();
    set.environments.push(RegionFile { region: "dev-uk".into(), document: Document::Missing });
    assert!(matches!(mf.verify(&set), Err(Error::RegionFileMissing(_))));
    assert!(!set.has_region("dev-uk"));
    assert!(set.has_region("prod-us"));
}

#[test]
fn init_container_rules() {
    let mut mf = good();
    let ic = |image: &str, command: Vec<String>| InitContainer { name: "init".into(), image: image.into(), command };
    mf.init_containers = vec![ic("company/migrate:1", vec!["run".into()])];
    assert!(mf.verify(&repo()).is_ok());
    mf.init_containers = vec![ic("1234", vec!["run".into()])];
    match mf.verify(&repo()) {
        Err(Error::InitContainerInvalid(n, InitFault::Image)) => assert_eq!(n, "init"),
        other => panic!("{:?}", other),
    }
    mf.init_containers = vec![ic("migrate", vec![])];
    assert!(matches!(
        mf.verify(&repo()),
        Err(Error::InitContainerInvalid(_, InitFault::Command))
    ));
}

#[test]
fn init_container_check_follows_the_search() {
    let c = InitContainer { name: "init".into(), image: "x".into(), command: vec!["run".into()] };
    assert!(check_init_container(&c, Some(true)).is_ok());
    assert!(matches!(
        check_init_container(&c, Some(false)),
        Err(Error::InitContainerInvalid(_, InitFault::Image))
    ));
    assert!(matches!(check_init_container(&c, None), Err(Error::PatternRejected)));
}

#[test]
fn health_rules() {
    let mut mf = good();
    mf.health = Some(HealthCheck { uri: Some("/h".into()), wait: Some(3), port: Some(80) });
    assert!(mf.verify(&repo()).is_ok());
    mf.health = Some(HealthCheck { uri: None, wait: Some(3), port: Some(80) });
    assert!(matches!(mf.verify(&repo()), Err(Error::HealthCheckIncomplete(HealthFault::Uri))));
    mf.health = Some(HealthCheck { uri: Some("/h".into()), wait: None, port: Some(80) });
    assert!(matches!(mf.verify(&repo()), Err(Error::HealthCheckIncomplete(HealthFault::Wait))));
    mf.health = Some(HealthCheck { uri: Some("/h".into()), wait: Some(3), port: None });
    assert!(matches!(mf.verify(&repo()), Err(Error::HealthCheckIncomplete(HealthFault::Port))));
}

#[test]
fn rules_are_held_in_order() {
    let mut mf = good();
    mf.name = Some(String::new());
    mf.resources = None;
    mf.regions = vec![];
    assert!(matches!(mf.verify(&repo()), Err(Error::EmptyName)));
    mf.name = Some("billing".into());
    assert!(matches!(mf.verify(&repo()), Err(Error::ResourcesMissing)));
    mf.resources = resources("200m", "512Mi", "2", "1Gi");
    mf.health = Some(HealthCheck { uri: None, wait: None, port: Some(1) });
    assert!(matches!(mf.verify(&repo()), Err(Error::EmptyRegionSet)));
}

fn env_of(pairs: &[(&str, &str)]) -> Env {
    let mut env = Env::new();
    for (k, v) in pairs {
        env.insert(k.to_string(), v.to_string());
    }
    env
}

fn descriptor_set() -> Repository {
    let mut base = Manifest::default();
    base.regions = vec!["prod-us".to_string(), "dev-uk".to_string()];
    base.ports = vec![8080];
    base.env = env_of(&[("DB_PASS", "IN_VAULT")]);
    let mut prod = Manifest::default();
    prod.resources = resources("200m", "512Mi", "2", "1Gi");
    prod.health = Some(HealthCheck { uri: Some("/health".into()), wait: Some(30), port: None });
    let mut dev = Manifest::default();
    dev.resources = resources("200m", "512Mi", "2", "1Gi");
    Repository {
        services: vec![Service { name: "billing".into(), descriptor: Document::Parsed(base), overrides: vec![] }],
        environments: vec![
            RegionFile { region: "prod-us".into(), document: Document::Parsed(prod) },
            RegionFile { region: "dev-uk".into(), document: Document::Parsed(dev) },
        ],
    }
}

#[test]
fn validate_checks_every_region() {
    let set = descriptor_set();
    // dev-uk gives the health check no path.
    assert!(matches!(
        validate("billing", &set),
        Err(Error::HealthCheckIncomplete(HealthFault::Uri))
    ));
    let mut fixed = descriptor_set();
    if let Document::Parsed(dev) = &mut fixed.environments[1].document {
        dev.health = Some(HealthCheck { uri: Some("/h".into()), wait: Some(1), port: None });
    }
    assert!(validate("billing", &fixed).is_ok());
}

#[test]
fn validate_reports_what_resolution_reports() {
    let mut set = descriptor_set();
    match validate("nothere", &set) {
        Err(Error::ServiceNotFound(s)) => assert_eq!(s, "nothere"),
        other => panic!("{:?}", other),
    }
    set.environments[0].document = Document::Malformed;
    assert!(matches!(validate("billing", &set), Err(Error::DescriptorParse(Layer::Global))));
    set.services[0].descriptor = Document::Malformed;
    assert!(matches!(validate("billing", &set), Err(Error::DescriptorParse(Layer::Base))));
    set.services[0].descriptor = Document::Missing;
    assert!(matches!(validate("billing", &set), Err(Error::DescriptorMissing(_))));
}

#[test]
fn validate_without_regions_passes() {
    let mut set = descriptor_set();
    if let Document::Parsed(base) = &mut set.services[0].descriptor {
        base.regions = vec![];
    }
    assert!(validate("billing", &set).is_ok());
}

#[test]
fn descriptor_sets_tell_whether_they_are_in_order() {
    let mut set = descriptor_set();
    assert!(set.in_order());
    if let Document::Parsed(base) = &mut set.services[0].descriptor {
        base.env.entries.push(shipcat::env::EnvVar { key: "Z".into(), value: "1".into() });
        assert!(base.env.is_sorted());
        base.env.entries.push(shipcat::env::EnvVar { key: "Z".into(), value: "2".into() });
        assert!(!base.env.is_sorted());
    }
    assert!(!set.in_order());
    assert!(!set.services[0].in_order());
    assert!(Document::Missing.in_order());
    assert!(Document::Malformed.in_order());
}
