use shipcat::env::Env;
use shipcat::error::{Error, Layer};
use shipcat::manifest::{split_region, Document, Manifest};
use shipcat::repo::{RegionFile, Repository, Service};
use shipcat::secret::{Secret, Vault};
use shipcat::structs::{ConfigMap, Dependency, HealthCheck, Image, Replicas, ResourceLimit, ResourceRequest, Resources};

fn env_of(pairs: &[(&str, &str)]) -> Env {
    let mut env = Env::new();
    for (k, v) in pairs {
        env.insert(k.to_string(), v.to_string());
    }
    env
}

fn pairs_of(env: &Env) -> Vec<(String, String)> {
    env.entries.iter().map(|e| (e.key.clone(), e.value.clone())).collect()
}

fn layer() -> Manifest {
    Manifest::default()
}

#[test]
fn merge_base_wins_and_override_fills_gaps() {
    let mut base = Manifest::new("svc", "");
    base.env = env_of(&[("A", "1")]);
    let mut over = layer();
    over.env = env_of(&[("A", "2"), ("B", "3")]);
    base.merge(&over).unwrap();
    assert_eq!(
        pairs_of(&base.env),
        vec![("A".to_string(), "1".to_string()), ("B".to_string(), "3".to_string())]
    );
}

#[test]
fn merge_fills_image_repository_and_tag() {
    let mut base = Manifest::new("svc", "");
    base.image = Some(Image { name: Some("svc".into()), repository: None, tag: Some("1.0".into()) });
    let mut over = layer();
    over.image = Some(Image { name: Some("other".into()), repository: Some("quay.io/co".into()), tag: Some("2.0".into()) });
    base.merge(&over).unwrap();
    let img = base.image.unwrap();
    assert_eq!(img.name.as_deref(), Some("svc"));
    assert_eq!(img.repository.as_deref(), Some("quay.io/co"));
    assert_eq!(img.tag.as_deref(), Some("1.0"));
}

#[test]
fn merge_fills_whole_fields_only_where_absent() {
    let mut base = Manifest::new("svc", "");
    base.replicas = Some(Replicas { min: 1, max: 2 });
    base.ports = vec![80];
    let mut over = layer();
    over.replicas = Some(Replicas { min: 5, max: 9 });
    over.resources = Some(Resources {
        requests: Some(ResourceRequest { cpu: "100m".into(), memory: "1Gi".into() }),
        limits: None,
    });
    over.ports = vec![8080];
    base.merge(&over).unwrap();
    assert_eq!(base.replicas, Some(Replicas { min: 1, max: 2 }));
    let res = base.resources.clone().unwrap();
    assert_eq!(res.requests.unwrap().cpu, "100m");
    assert!(res.limits.is_none());
    assert_eq!(base.ports, vec![80]);

    // What is there is not filled in part.
    let mut second = layer();
    second.resources = Some(Resources {
        requests: None,
        limits: Some(ResourceLimit { cpu: "1".into(), memory: "2Gi".into() }),
    });
    base.merge(&second).unwrap();
    assert!(base.resources.unwrap().limits.is_none());
}

#[test]
fn merge_fills_health_fields_one_by_one() {
    let mut base = Manifest::new("svc", "");
    base.health = Some(HealthCheck { uri: None, wait: Some(10), port: Some(80) });
    let mut over = layer();
    over.health = Some(HealthCheck { uri: Some("/health".into()), wait: Some(30), port: Some(1) });
    base.merge(&over).unwrap();
    let h = base.health.unwrap();
    assert_eq!(h.uri.as_deref(), Some("/health"));
    assert_eq!(h.wait, Some(10));
    assert_eq!(h.port, Some(80));

    let mut none = Manifest::new("svc", "");
    none.merge(&over).unwrap();
    assert!(none.health.is_none());
}

#[test]
fn implicit_health_port_is_first_port() {
    let mut mf = Manifest::new("svc", "");
    mf.ports = vec![8080];
    mf.implicits().unwrap();
    assert_eq!(mf.health.unwrap().port, Some(8080));
}

#[test]
fn implicit_health_port_keeps_explicit_port() {
    let mut mf = Manifest::new("svc", "");
    mf.ports = vec![8080, 9090];
    mf.health = Some(HealthCheck { uri: Some("/h".into()), wait: None, port: Some(7) });
    mf.implicits().unwrap();
    let h = mf.health.unwrap();
    assert_eq!(h.port, Some(7));
    assert_eq!(h.uri.as_deref(), Some("/h"));
}

#[test]
fn implicits_without_ports_leave_health_alone() {
    let mut mf = Manifest::new("svc", "");
    mf.implicits().unwrap();
    assert!(mf.health.is_none());
    assert!(!mf.exposes_ports());
}

#[test]
fn implicits_name_image_config_and_api() {
    let mut mf = Manifest::new("svc", "");
    mf.configs = Some(ConfigMap { name: None, mount: "/config/".into(), files: vec![] });
    mf.dependencies = vec![
        Dependency { name: "a".into(), api: None },
        Dependency { name: "b".into(), api: Some("v2".into()) },
    ];
    mf.implicits().unwrap();
    let img = mf.image.clone().unwrap();
    assert_eq!(img.name.as_deref(), Some("svc"));
    assert!(img.repository.is_none());
    assert_eq!(mf.configs.clone().unwrap().name.as_deref(), Some("svc-config"));
    assert_eq!(mf.dependencies[0].api.as_deref(), Some("v1"));
    assert_eq!(mf.dependencies[1].api.as_deref(), Some("v2"));

    // A second run changes nothing.
    mf.implicits().unwrap();
    assert_eq!(mf.configs.unwrap().name.as_deref(), Some("svc-config"));
    assert_eq!(mf.dependencies.len(), 2);
}

#[test]
fn implicits_fill_the_name_of_a_given_image() {
    let mut mf = Manifest::new("svc", "");
    mf.image = Some(Image { name: None, repository: Some("repo".into()), tag: None });
    mf.implicits().unwrap();
    let img = mf.image.unwrap();
    assert_eq!(img.name.as_deref(), Some("svc"));
    assert_eq!(img.repository.as_deref(), Some("repo"));
}

#[test]
fn implicits_without_a_name_fail() {
    let mut mf = Manifest::default();
    mf.ports = vec![80];
    assert!(matches!(mf.implicits(), Err(Error::EmptyName)));
    assert!(mf.health.is_none());
}

#[test]
fn region_splits_into_namespace_and_location() {
    assert_eq!(split_region("prod-us"), Some(("prod".to_string(), "us".to_string())));
    assert_eq!(split_region("produs"), None);
    assert_eq!(split_region("prod-us-east"), None);
    assert_eq!(split_region("-us"), None);
    assert_eq!(split_region("prod-"), None);
    assert_eq!(split_region(""), None);
    assert_eq!(split_region("-"), None);
}

#[test]
fn fill_runs_every_step_in_order() {
    let mut mf = Manifest::new("billing", "");
    mf.ports = vec![8080];
    mf.env = env_of(&[("A", "1"), ("DB_PASS", "IN_VAULT")]);
    let mut local = layer();
    local.env = env_of(&[("A", "local"), ("B", "local")]);
    let mut global = layer();
    global.env = env_of(&[("B", "global"), ("C", "global"), ("DB_PASS", "global")]);
    global.health = Some(HealthCheck { uri: Some("/health".into()), wait: Some(30), port: None });
    let client = Vault {
        secrets: vec![Secret { path: "prod-us/billing/DB_PASS".into(), value: "s3cr3t".into() }],
    };
    mf.fill("prod-us", Some(&client), &Document::Parsed(local), &Document::Parsed(global)).unwrap();
    assert_eq!(
        pairs_of(&mf.env),
        vec![
            ("A".to_string(), "1".to_string()),
            ("B".to_string(), "local".to_string()),
            ("C".to_string(), "global".to_string()),
            ("DB_PASS".to_string(), "s3cr3t".to_string()),
        ]
    );
    let h = mf.health.clone().unwrap();
    assert_eq!(h.port, Some(8080));
    assert_eq!(h.uri.as_deref(), Some("/health"));
    assert_eq!(h.wait, Some(30));
    assert_eq!(mf._namespace, "prod");
    assert_eq!(mf._location, "us");
    assert_eq!(mf.image.unwrap().name.as_deref(), Some("billing"));
}

#[test]
fn fill_without_a_store_leaves_placeholders() {
    let mut mf = Manifest::new("billing", "");
    mf.env = env_of(&[("DB_PASS", "IN_VAULT"), ("K", "IN_KUBE_SECRETS")]);
    mf.fill("prod-us", None, &Document::Missing, &Document::Missing).unwrap();
    assert_eq!(mf.env.get("DB_PASS").unwrap(), "IN_VAULT");
    assert_eq!(mf.env.get("K").unwrap(), "IN_KUBE_SECRETS");
}

#[test]
fn fill_fails_on_a_bad_region_and_changes_nothing() {
    let mut mf = Manifest::new("billing", "");
    mf.ports = vec![80];
    match mf.fill("produs", None, &Document::Missing, &Document::Missing) {
        Err(Error::InvalidRegion(r)) => assert_eq!(r, "produs"),
        other => panic!("{:?}", other),
    }
    assert!(mf.health.is_none());
    assert!(mf.image.is_none());
}

#[test]
fn fill_fails_on_a_malformed_layer() {
    let mut mf = Manifest::new("billing", "");
    assert!(matches!(
        mf.fill("prod-us", None, &Document::Malformed, &Document::Missing),
        Err(Error::DescriptorParse(Layer::Local))
    ));
    assert!(matches!(
        mf.fill("prod-us", None, &Document::Missing, &Document::Malformed),
        Err(Error::DescriptorParse(Layer::Global))
    ));
}

fn repository() -> Repository {
    let mut base = Manifest::default();
    base.env = env_of(&[("A", "1")]);
    base.regions = vec!["prod-us".to_string()];
    let mut local = layer();
    local.env = env_of(&[("A", "2"), ("B", "3")]);
    Repository {
        services: vec![
            Service {
                name: "billing".into(),
                descriptor: Document::Parsed(base),
                overrides: vec![RegionFile { region: "prod-us".into(), document: Document::Parsed(local) }],
            },
            Service { name: "empty".into(), descriptor: Document::Missing, overrides: vec![] },
            Service { name: "broken".into(), descriptor: Document::Malformed, overrides: vec![] },
        ],
        environments: vec![RegionFile { region: "prod-us".into(), document: Document::Parsed(layer()) }],
    }
}

#[test]
fn completed_resolves_from_the_descriptor_set() {
    let repo = repository();
    let mf = Manifest::completed("prod-us", "billing", None, &repo).unwrap();
    assert_eq!(mf.name.as_deref(), Some("billing"));
    assert_eq!(
        pairs_of(&mf.env),
        vec![("A".to_string(), "1".to_string()), ("B".to_string(), "3".to_string())]
    );
    assert_eq!(mf._namespace, "prod");
    assert_eq!(mf._location, "us");
    // Another region has no override.
    let other = Manifest::completed("dev-uk", "billing", None, &repo).unwrap();
    assert_eq!(pairs_of(&other.env), vec![("A".to_string(), "1".to_string())]);
}

#[test]
fn completed_twice_gives_the_same_manifest() {
    let repo = repository();
    let one = Manifest::completed("prod-us", "billing", None, &repo).unwrap();
    let two = Manifest::completed("prod-us", "billing", None, &repo).unwrap();
    assert_eq!(format!("{:?}", one), format!("{:?}", two));
}

#[test]
fn completed_reports_missing_services_and_descriptors() {
    let repo = repository();
    match Manifest::completed("prod-us", "nothere", None, &repo) {
        Err(Error::ServiceNotFound(s)) => assert_eq!(s, "nothere"),
        other => panic!("{:?}", other),
    }
    match Manifest::completed("prod-us", "empty", None, &repo) {
        Err(Error::DescriptorMissing(s)) => assert_eq!(s, "empty"),
        other => panic!("{:?}", other),
    }
    assert!(matches!(
        Manifest::completed("prod-us", "broken", None, &repo),
        Err(Error::DescriptorParse(Layer::Base))
    ));
    assert!(matches!(
        Manifest::completed("produs", "billing", None, &repo),
        Err(Error::InvalidRegion(_))
    ));
}

#[test]
fn new_holds_name_and_path_only() {
    let mf = Manifest::new("svc", "services/svc/shipcat.yml");
    assert_eq!(mf.name.as_deref(), Some("svc"));
    assert_eq!(mf._path, "services/svc/shipcat.yml");
    assert!(mf.image.is_none());
    assert!(mf.env.is_empty());
    assert!(mf.regions.is_empty());
    assert_eq!(mf._namespace, "");
}

#[test]
fn merging_twice_is_merging_once() {
    let mut base = Manifest::new("svc", "");
    base.env = env_of(&[("A", "1")]);
    base.health = Some(HealthCheck { uri: None, wait: None, port: Some(1) });
    let mut over = layer();
    over.env = env_of(&[("A", "2"), ("B", "3")]);
    over.health = Some(HealthCheck { uri: Some("/h".into()), wait: Some(5), port: None });
    over.replicas = Some(Replicas { min: 2, max: 4 });
    base.merge(&over).unwrap();
    let once = format!("{:?}", base);
    base.merge(&over).unwrap();
    assert_eq!(format!("{:?}", base), once);
}

#[test]
fn resolving_again_changes_nothing() {
    let mut mf = Manifest::new("billing", "");
    mf.ports = vec![8080];
    mf.env = env_of(&[("A", "1")]);
    mf.dependencies = vec![Dependency { name: "auth".into(), api: None }];
    mf.configs = Some(ConfigMap { name: None, mount: "/c/".into(), files: vec![] });
    let mut local = layer();
    local.env = env_of(&[("A", "local"), ("B", "local")]);
    local.image = Some(Image { name: None, repository: Some("repo".into()), tag: None });
    let mut global = layer();
    global.env = env_of(&[("C", "global")]);
    global.health = Some(HealthCheck { uri: Some("/health".into()), wait: Some(30), port: None });
    global.image = Some(Image { name: None, repository: Some("other".into()), tag: Some("7".into()) });
    let (local, global) = (Document::Parsed(local), Document::Parsed(global));
    mf.fill("prod-us", None, &local, &global).unwrap();
    let once = format!("{:?}", mf);
    mf.fill("prod-us", None, &local, &global).unwrap();
    assert_eq!(format!("{:?}", mf), once);
    let img = mf.image.unwrap();
    assert_eq!(img.repository.as_deref(), Some("repo"));
    assert_eq!(img.tag.as_deref(), Some("7"));
}

#[test]
fn vault_paths_list_what_the_store_is_asked_for() {
    let mut mf = Manifest::new("billing", "");
    mf.env = env_of(&[("B_PASS", "IN_VAULT"), ("A_PASS", "IN_VAULT"), ("K", "IN_KUBE_SECRETS"), ("L", "x")]);
    assert_eq!(
        mf.vault_paths("prod-us").unwrap(),
        vec!["prod-us/billing/A_PASS".to_string(), "prod-us/billing/B_PASS".to_string()]
    );
    let nameless = Manifest::default();
    assert!(matches!(nameless.vault_paths("prod-us"), Err(Error::EmptyName)));
}

#[test]
fn merge_gives_an_image_to_a_manifest_without_one() {
    let mut base = Manifest::default();
    let mut over = layer();
    over.image = Some(Image { name: Some("n".into()), repository: Some("r".into()), tag: Some("t".into()) });
    base.merge(&over).unwrap();
    let img = base.image.unwrap();
    assert!(img.name.is_none());
    assert_eq!(img.repository.as_deref(), Some("r"));
    assert_eq!(img.tag.as_deref(), Some("t"));
}
