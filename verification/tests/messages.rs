use shipcat::error::{Bound, ConfigFault, Error, HealthFault, InitFault, Layer};

#[test]
fn messages_name_what_they_are_about() {
    assert_eq!(
        Error::ServiceNotFound("billing".into()).message(),
        "Service folder billing does not exist"
    );
    assert_eq!(
        Error::DescriptorMissing("billing".into()).message(),
        "Manifest file of billing does not exist"
    );
    assert_eq!(Error::InvalidRegion("produs".into()).message(), "Invalid region produs");
    assert_eq!(
        Error::SecretReadFailure("prod-us/billing/DB_PASS".into()).message(),
        "Could not read secret prod-us/billing/DB_PASS"
    );
    assert_eq!(
        Error::InvalidSecretPath("API_KEY".into()).message(),
        "API_KEY does not have a valid key path"
    );
    assert_eq!(Error::UnknownUnit("Xi".into()).message(), "Unknown unit Xi");
    assert_eq!(
        Error::DependencyNotFound("auth".into()).message(),
        "Service auth does not exist in services/"
    );
    assert_eq!(
        Error::InvalidApiVersion("auth".into()).message(),
        "Dependency auth has an API version that is no number"
    );
    assert_eq!(
        Error::RegionFileMissing("prod-us".into()).message(),
        "Unsupported region prod-us without region file"
    );
    assert_eq!(
        Error::InitContainerInvalid("init".into(), InitFault::Image).message(),
        "The init container init does not seem to match a valid image registry"
    );
    assert_eq!(
        Error::InitContainerInvalid("init".into(), InitFault::Command).message(),
        "A command must be specified for the init container init"
    );
    assert_eq!(
        Error::MalformedLink("a|b|c".into()).message(),
        "Link a|b|c not in the form of url|description"
    );
}

#[test]
fn messages_without_a_subject() {
    assert_eq!(Error::EmptyName.message(), "Name cannot be empty");
    assert_eq!(Error::InvalidNumber.message(), "Invalid number in a quantity");
    assert_eq!(Error::EmptyRegionSet.message(), "No regions specified");
    assert_eq!(Error::ResourcesMissing.message(), "Resource requests and limits must be given");
    assert_eq!(Error::PatternRejected.message(), "The image pattern was not accepted");
    assert_eq!(Error::DescriptorParse(Layer::Base).message(), "Malformed descriptor");
    assert_eq!(Error::DescriptorParse(Layer::Local).message(), "Malformed region override");
    assert_eq!(Error::DescriptorParse(Layer::Global).message(), "Malformed region defaults");
    assert_eq!(
        Error::ConfigShape(ConfigFault::EmptyMount).message(),
        "Empty mount path for configs"
    );
    assert_eq!(
        Error::ConfigShape(ConfigFault::MountWithoutSlash).message(),
        "Mount path for configs must end with a slash"
    );
    assert_eq!(
        Error::ConfigShape(ConfigFault::FileNotTemplate).message(),
        "Only templated config files are supported"
    );
    assert_eq!(
        Error::HealthCheckIncomplete(HealthFault::Uri).message(),
        "Service without health check uri"
    );
    assert_eq!(
        Error::HealthCheckIncomplete(HealthFault::Wait).message(),
        "Service without health check wait time"
    );
    assert_eq!(
        Error::HealthCheckIncomplete(HealthFault::Port).message(),
        "Service without health check port"
    );
}

#[test]
fn messages_of_resource_rules() {
    let cases = [
        (Bound::CpuRequestOverLimit, "Requested more CPU than what was limited"),
        (Bound::MemoryRequestOverLimit, "Requested more memory than what was limited"),
        (Bound::CpuRequestCeiling, "Requested more than 10 cores"),
        (Bound::MemoryRequestCeiling, "Requested more than 10 GB of memory"),
        (Bound::CpuLimitCeiling, "CPU limit set to more than 20 cores"),
        (Bound::MemoryLimitCeiling, "Memory limit set to more than 20 GB of memory"),
    ];
    for (bound, text) in cases {
        assert_eq!(bound.message(), text);
        assert_eq!(Error::ResourceBoundViolation(bound).message(), text);
    }
}
