use shipcat::env::Env;
use shipcat::error::Error;
use shipcat::manifest::Manifest;
use shipcat::secret::{classify, path_of, resolve, secret_name, secret_reference, Placeholder, Secret, Vault};
use shipcat::structs::VaultOpts;

fn store(path: &str, value: &str) -> Vault {
    Vault { secrets: vec![Secret { path: path.to_string(), value: value.to_string() }] }
}

#[test]
fn vault_placeholder_is_read_from_the_store() {
    let client = store("prod-us/billing/DB_PASS", "s3cr3t");
    let mut mf = Manifest::new("billing", "services/billing/shipcat.yml");
    mf.env.insert("DB_PASS".to_string(), "IN_VAULT".to_string());
    mf.secrets(&client, "prod-us").unwrap();
    assert_eq!(mf.env.get("DB_PASS").unwrap(), "s3cr3t");
}

#[test]
fn vault_name_overrides_service_name() {
    let client = store("prod-us/shared/DB_PASS", "other");
    let mut mf = Manifest::new("billing", "");
    mf.vault = Some(VaultOpts { name: "shared".to_string() });
    mf.env.insert("DB_PASS".to_string(), "IN_VAULT".to_string());
    mf.secrets(&client, "prod-us").unwrap();
    assert_eq!(mf.env.get("DB_PASS").unwrap(), "other");
}

#[test]
fn missing_secret_fails_with_its_path() {
    let client = Vault::new();
    let mut mf = Manifest::new("billing", "");
    mf.env.insert("A".to_string(), "plain".to_string());
    mf.env.insert("DB_PASS".to_string(), "IN_VAULT".to_string());
    match mf.secrets(&client, "prod-us") {
        Err(Error::SecretReadFailure(p)) => assert_eq!(p, "prod-us/billing/DB_PASS"),
        other => panic!("{:?}", other),
    }
    // Nothing was replaced.
    assert_eq!(mf.env.get("DB_PASS").unwrap(), "IN_VAULT");
    assert_eq!(mf.env.get("A").unwrap(), "plain");
}

#[test]
fn bare_kube_placeholder_takes_the_variable_name() {
    let client = Vault::new();
    let mut mf = Manifest::new("billing", "");
    mf.env.insert("API_KEY".to_string(), "IN_KUBE_SECRETS".to_string());
    mf.secrets(&client, "prod-us").unwrap();
    assert_eq!(mf.env.get("API_KEY").unwrap(), "kube-secret-api-key");
}

#[test]
fn kube_placeholder_with_key_takes_the_key() {
    assert_eq!(
        resolve("API_KEY", "IN_KUBE_SECRETS:Other_Key", "prod-us", "billing", &Vault::new()).unwrap(),
        "kube-secret-other-key"
    );
    assert_eq!(
        resolve("API_KEY", "IN_KUBE_SECRETS:first:second", "prod-us", "billing", &Vault::new())
            .unwrap(),
        "kube-secret-first"
    );
}

#[test]
fn kube_placeholder_with_empty_key_fails() {
    let client = Vault::new();
    let mut mf = Manifest::new("billing", "");
    mf.env.insert("API_KEY".to_string(), "IN_KUBE_SECRETS:".to_string());
    match mf.secrets(&client, "prod-us") {
        Err(Error::InvalidSecretPath(k)) => assert_eq!(k, "API_KEY"),
        other => panic!("{:?}", other),
    }
}

#[test]
fn kube_placeholder_without_colon_fails() {
    assert!(matches!(
        resolve("API_KEY", "IN_KUBE_SECRETS_X", "prod-us", "billing", &Vault::new()),
        Err(Error::InvalidSecretPath(_))
    ));
}

#[test]
fn literal_values_pass_through() {
    assert_eq!(resolve("A", "hello", "prod-us", "billing", &Vault::new()).unwrap(), "hello");
    assert_eq!(resolve("A", "", "prod-us", "billing", &Vault::new()).unwrap(), "");
    assert_eq!(resolve("A", "IN_VAULTS", "prod-us", "billing", &Vault::new()).unwrap(), "IN_VAULTS");
    assert_eq!(resolve("A", "in_vault", "prod-us", "billing", &Vault::new()).unwrap(), "in_vault");
}

#[test]
fn first_failure_in_name_order_is_reported() {
    let client = Vault::new();
    let mut mf = Manifest::new("billing", "");
    mf.env.insert("Z_KEY".to_string(), "IN_KUBE_SECRETS:".to_string());
    mf.env.insert("A_PASS".to_string(), "IN_VAULT".to_string());
    match mf.secrets(&client, "prod-us") {
        Err(Error::SecretReadFailure(p)) => assert_eq!(p, "prod-us/billing/A_PASS"),
        other => panic!("{:?}", other),
    }
}

#[test]
fn secrets_without_a_name_fail() {
    let mut mf = Manifest::default();
    assert!(matches!(mf.secrets(&Vault::new(), "prod-us"), Err(Error::EmptyName)));
}

#[test]
fn classify_tells_the_placeholders_apart() {
    assert!(matches!(classify("IN_VAULT"), Placeholder::VaultRef));
    assert!(matches!(classify("IN_KUBE_SECRETS"), Placeholder::KubeSecretRef(None)));
    match classify("IN_KUBE_SECRETS:abc") {
        Placeholder::KubeSecretRef(Some(k)) => assert_eq!(k, "abc"),
        other => panic!("{:?}", other),
    }
    assert!(matches!(classify("IN_KUBE_SECRETS:"), Placeholder::Invalid));
    assert!(matches!(classify("IN_KUBE_SECRETSabc"), Placeholder::Invalid));
    assert!(matches!(classify("value"), Placeholder::Literal));
}

#[test]
fn secret_names_are_lower_case_with_hyphens() {
    assert_eq!(secret_name("API_KEY"), "kube-secret-api-key");
    assert_eq!(secret_name("already-low"), "kube-secret-already-low");
    assert_eq!(secret_reference("a_b_c"), "kube-secret-a-b-c");
    assert_eq!(secret_reference("KEEP"), "kube-secret-KEEP");
}

#[test]
fn paths_join_region_service_and_key() {
    assert_eq!(path_of("prod-us", "billing", "DB_PASS"), "prod-us/billing/DB_PASS");
}

#[test]
fn store_gives_the_first_secret_of_a_path() {
    let client = Vault {
        secrets: vec![
            Secret { path: "a/b/C".to_string(), value: "one".to_string() },
            Secret { path: "a/b/C".to_string(), value: "two".to_string() },
        ],
    };
    assert_eq!(client.read("a/b/C").unwrap(), "one");
    assert!(matches!(client.read("a/b/D"), Err(Error::SecretReadFailure(_))));
}

#[test]
fn environment_keeps_names_in_order() {
    let mut env = Env::new();
    env.insert("b".to_string(), "2".to_string());
    env.insert("a".to_string(), "1".to_string());
    env.insert("c".to_string(), "3".to_string());
    env.insert("b".to_string(), "4".to_string());
    let keys: Vec<&str> = env.entries.iter().map(|e| e.key.as_str()).collect();
    assert_eq!(keys, vec!["a", "b", "c"]);
    assert_eq!(env.get("b").unwrap(), "4");
    assert!(env.get("d").is_none());
    assert!(env.is_sorted());
    assert_eq!(env.len(), 3);
    env.or_insert("a".to_string(), "9".to_string());
    env.or_insert("B".to_string(), "upper".to_string());
    assert_eq!(env.get("a").unwrap(), "1");
    let keys: Vec<&str> = env.entries.iter().map(|e| e.key.as_str()).collect();
    assert_eq!(keys, vec!["B", "a", "b", "c"]);
}
