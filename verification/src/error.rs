//! What can go wrong while a manifest is resolved or validated.

use vstd::prelude::*;
use vstd::string::StringExecFns;

verus! {

/// The descriptor layers that make up one resolved manifest.
#[derive(Clone, Copy, Debug, PartialEq, Eq, Structural)]
pub enum Layer {
    /// The service's own descriptor.
    Base,
    /// The override of one service in one region.
    Local,
    /// The defaults of a whole region.
    Global,
}

/// The resource rules a manifest can break.
#[derive(Clone, Copy, Debug, PartialEq, Eq, Structural)]
pub enum Bound {
    /// More CPU requested than the limit allows.
    CpuRequestOverLimit,
    /// More memory requested than the limit allows.
    MemoryRequestOverLimit,
    /// More than ten cores requested.
    CpuRequestCeiling,
    /// More than ten binary gigabytes requested.
    MemoryRequestCeiling,
    /// A CPU limit above twenty cores.
    CpuLimitCeiling,
    /// A memory limit above twenty binary gigabytes.
    MemoryLimitCeiling,
}

/// The ways in which a config block can be misshapen.
#[derive(Clone, Copy, Debug, PartialEq, Eq, Structural)]
pub enum ConfigFault {
    /// The mount path is empty or the placeholder `~`.
    EmptyMount,
    /// The mount path does not end with a slash.
    MountWithoutSlash,
    /// A listed file is no template source.
    FileNotTemplate,
}

/// The parts an init container can lack.
#[derive(Clone, Copy, Debug, PartialEq, Eq, Structural)]
pub enum InitFault {
    /// The image reference matches no registry-style name.
    Image,
    /// No command is given.
    Command,
}

/// The parts a health check can lack.
#[derive(Clone, Copy, Debug, PartialEq, Eq, Structural)]
pub enum HealthFault {
    Uri,
    Wait,
    Port,
}

/// Every failure of resolution and validation.
#[derive(Debug)]
pub enum Error {
    /// No service of this name has a descriptor directory.
    ServiceNotFound(String),
    /// The service's directory holds no descriptor.
    DescriptorMissing(String),
    /// A descriptor of the given layer is malformed.
    DescriptorParse(Layer),
    /// The region is not of the form `namespace-location`.
    InvalidRegion(String),
    /// The secret store holds nothing under this path.
    SecretReadFailure(String),
    /// The placeholder of this environment variable names no secret.
    InvalidSecretPath(String),
    /// A quantity carries this unit, which is not known.
    UnknownUnit(String),
    /// The digits of a quantity form no number.
    InvalidNumber,
    /// The manifest has no name, or an empty one.
    EmptyName,
    /// The manifest lacks resource requests or limits.
    ResourcesMissing,
    /// A resource rule is broken.
    ResourceBoundViolation(Bound),
    /// The config block is misshapen.
    ConfigShape(ConfigFault),
    /// A dependency of this name has no descriptor directory.
    DependencyNotFound(String),
    /// The dependency of this name has an API version that is no number.
    InvalidApiVersion(String),
    /// The region of this name has no defaults file.
    RegionFileMissing(String),
    /// The manifest names no region.
    EmptyRegionSet,
    /// The init container of this name is invalid.
    InitContainerInvalid(String, InitFault),
    /// The pattern that image references are held to was not accepted.
    PatternRejected,
    /// The health check lacks a part.
    HealthCheckIncomplete(HealthFault),
    /// A link holds more than one separator.
    MalformedLink(String),
}

/// An [`Error`] with its texts as character sequences.
pub enum ErrorView {
    ServiceNotFound(Seq<char>),
    DescriptorMissing(Seq<char>),
    DescriptorParse(Layer),
    InvalidRegion(Seq<char>),
    SecretReadFailure(Seq<char>),
    InvalidSecretPath(Seq<char>),
    UnknownUnit(Seq<char>),
    InvalidNumber,
    EmptyName,
    ResourcesMissing,
    ResourceBoundViolation(Bound),
    ConfigShape(ConfigFault),
    DependencyNotFound(Seq<char>),
    InvalidApiVersion(Seq<char>),
    RegionFileMissing(Seq<char>),
    EmptyRegionSet,
    InitContainerInvalid(Seq<char>, InitFault),
    PatternRejected,
    HealthCheckIncomplete(HealthFault),
    MalformedLink(Seq<char>),
}

impl View for Error {
    type V = ErrorView;

    open spec fn view(&self) -> ErrorView {
        match *self {
            Error::ServiceNotFound(s) => ErrorView::ServiceNotFound(s@),
            Error::DescriptorMissing(s) => ErrorView::DescriptorMissing(s@),
            Error::DescriptorParse(l) => ErrorView::DescriptorParse(l),
            Error::InvalidRegion(s) => ErrorView::InvalidRegion(s@),
            Error::SecretReadFailure(s) => ErrorView::SecretReadFailure(s@),
            Error::InvalidSecretPath(s) => ErrorView::InvalidSecretPath(s@),
            Error::UnknownUnit(s) => ErrorView::UnknownUnit(s@),
            Error::InvalidNumber => ErrorView::InvalidNumber,
            Error::EmptyName => ErrorView::EmptyName,
            Error::ResourcesMissing => ErrorView::ResourcesMissing,
            Error::ResourceBoundViolation(b) => ErrorView::ResourceBoundViolation(b),
            Error::ConfigShape(f) => ErrorView::ConfigShape(f),
            Error::DependencyNotFound(s) => ErrorView::DependencyNotFound(s@),
            Error::InvalidApiVersion(s) => ErrorView::InvalidApiVersion(s@),
            Error::RegionFileMissing(s) => ErrorView::RegionFileMissing(s@),
            Error::EmptyRegionSet => ErrorView::EmptyRegionSet,
            Error::InitContainerInvalid(s, f) => ErrorView::InitContainerInvalid(s@, f),
            Error::PatternRejected => ErrorView::PatternRejected,
            Error::HealthCheckIncomplete(f) => ErrorView::HealthCheckIncomplete(f),
            Error::MalformedLink(s) => ErrorView::MalformedLink(s@),
        }
    }
}

/// A result with its error, if any, taken by its view.
pub open spec fn outcome<T>(r: Result<T, Error>) -> Result<T, ErrorView> {
    match r {
        Ok(t) => Ok(t),
        Err(e) => Err(e@),
    }
}

/// What is said of a broken resource rule.
pub open spec fn bound_text(b: Bound) -> Seq<char> {
    match b {
        Bound::CpuRequestOverLimit => "Requested more CPU than what was limited"@,
        Bound::MemoryRequestOverLimit => "Requested more memory than what was limited"@,
        Bound::CpuRequestCeiling => "Requested more than 10 cores"@,
        Bound::MemoryRequestCeiling => "Requested more than 10 GB of memory"@,
        Bound::CpuLimitCeiling => "CPU limit set to more than 20 cores"@,
        Bound::MemoryLimitCeiling => "Memory limit set to more than 20 GB of memory"@,
    }
}

/// What is said of a failure.
pub open spec fn message_of(e: ErrorView) -> Seq<char> {
    match e {
        ErrorView::ServiceNotFound(s) => "Service folder "@ + s + " does not exist"@,
        ErrorView::DescriptorMissing(s) => "Manifest file of "@ + s + " does not exist"@,
        ErrorView::DescriptorParse(Layer::Base) => "Malformed descriptor"@,
        ErrorView::DescriptorParse(Layer::Local) => "Malformed region override"@,
        ErrorView::DescriptorParse(Layer::Global) => "Malformed region defaults"@,
        ErrorView::InvalidRegion(r) => "Invalid region "@ + r,
        ErrorView::SecretReadFailure(p) => "Could not read secret "@ + p,
        ErrorView::InvalidSecretPath(k) => k + " does not have a valid key path"@,
        ErrorView::UnknownUnit(u) => "Unknown unit "@ + u,
        ErrorView::InvalidNumber => "Invalid number in a quantity"@,
        ErrorView::EmptyName => "Name cannot be empty"@,
        ErrorView::ResourcesMissing => "Resource requests and limits must be given"@,
        ErrorView::ResourceBoundViolation(b) => bound_text(b),
        ErrorView::ConfigShape(ConfigFault::EmptyMount) => "Empty mount path for configs"@,
        ErrorView::ConfigShape(ConfigFault::MountWithoutSlash) =>
            "Mount path for configs must end with a slash"@,
        ErrorView::ConfigShape(ConfigFault::FileNotTemplate) =>
            "Only templated config files are supported"@,
        ErrorView::DependencyNotFound(s) => "Service "@ + s + " does not exist in services/"@,
        ErrorView::InvalidApiVersion(s) => "Dependency "@ + s + " has an API version that is no number"@,
        ErrorView::RegionFileMissing(r) => "Unsupported region "@ + r + " without region file"@,
        ErrorView::EmptyRegionSet => "No regions specified"@,
        ErrorView::InitContainerInvalid(n, InitFault::Image) => "The init container "@ + n
            + " does not seem to match a valid image registry"@,
        ErrorView::InitContainerInvalid(n, InitFault::Command) =>
            "A command must be specified for the init container "@ + n,
        ErrorView::PatternRejected => "The image pattern was not accepted"@,
        ErrorView::HealthCheckIncomplete(HealthFault::Uri) => "Service without health check uri"@,
        ErrorView::HealthCheckIncomplete(HealthFault::Wait) =>
            "Service without health check wait time"@,
        ErrorView::HealthCheckIncomplete(HealthFault::Port) => "Service without health check port"@,
        ErrorView::MalformedLink(l) => "Link "@ + l + " not in the form of url|description"@,
    }
}

/// `head`, then `middle`, then `tail`.
fn join(head: &str, middle: &str, tail: &str) -> (r: String)
    ensures
        r@ == head@ + middle@ + tail@,
{
    let mut out: String = String::from_str(head);
    out.append(middle);
    out.append(tail);
    out
}

impl Bound {
    /// What is said of the broken rule.
    pub fn message(&self) -> (r: String)
        ensures
            r@ == bound_text(*self),
    {
        match self {
            Bound::CpuRequestOverLimit => String::from_str("Requested more CPU than what was limited"),
            Bound::MemoryRequestOverLimit => String::from_str(
                "Requested more memory than what was limited",
            ),
            Bound::CpuRequestCeiling => String::from_str("Requested more than 10 cores"),
            Bound::MemoryRequestCeiling => String::from_str("Requested more than 10 GB of memory"),
            Bound::CpuLimitCeiling => String::from_str("CPU limit set to more than 20 cores"),
            Bound::MemoryLimitCeiling => String::from_str(
                "Memory limit set to more than 20 GB of memory",
            ),
        }
    }
}

impl Error {
    /// What is said of the failure, with the service, region or field that it
    /// is about.
    pub fn message(&self) -> (r: String)
        ensures
            r@ == message_of(self@),
    {
        match self {
            Error::ServiceNotFound(s) => join("Service folder ", s.as_str(), " does not exist"),
            Error::DescriptorMissing(s) => join("Manifest file of ", s.as_str(), " does not exist"),
            Error::DescriptorParse(Layer::Base) => String::from_str("Malformed descriptor"),
            Error::DescriptorParse(Layer::Local) => String::from_str("Malformed region override"),
            Error::DescriptorParse(Layer::Global) => String::from_str("Malformed region defaults"),
            Error::InvalidRegion(r) => String::from_str("Invalid region ").concat(r.as_str()),
            Error::SecretReadFailure(p) => String::from_str("Could not read secret ").concat(
                p.as_str(),
            ),
            Error::InvalidSecretPath(k) => k.clone().concat(" does not have a valid key path"),
            Error::UnknownUnit(u) => String::from_str("Unknown unit ").concat(u.as_str()),
            Error::InvalidNumber => String::from_str("Invalid number in a quantity"),
            Error::EmptyName => String::from_str("Name cannot be empty"),
            Error::ResourcesMissing => String::from_str("Resource requests and limits must be given"),
            Error::ResourceBoundViolation(b) => b.message(),
            Error::ConfigShape(ConfigFault::EmptyMount) => String::from_str(
                "Empty mount path for configs",
            ),
            Error::ConfigShape(ConfigFault::MountWithoutSlash) => String::from_str(
                "Mount path for configs must end with a slash",
            ),
            Error::ConfigShape(ConfigFault::FileNotTemplate) => String::from_str(
                "Only templated config files are supported",
            ),
            Error::DependencyNotFound(s) => join("Service ", s.as_str(), " does not exist in services/"),
            Error::InvalidApiVersion(s) => join(
                "Dependency ",
                s.as_str(),
                " has an API version that is no number",
            ),
            Error::RegionFileMissing(r) => join(
                "Unsupported region ",
                r.as_str(),
                " without region file",
            ),
            Error::EmptyRegionSet => String::from_str("No regions specified"),
            Error::InitContainerInvalid(n, InitFault::Image) => join(
                "The init container ",
                n.as_str(),
                " does not seem to match a valid image registry",
            ),
            Error::InitContainerInvalid(n, InitFault::Command) => String::from_str(
                "A command must be specified for the init container ",
            ).concat(n.as_str()),
            Error::PatternRejected => String::from_str("The image pattern was not accepted"),
            Error::HealthCheckIncomplete(HealthFault::Uri) => String::from_str(
                "Service without health check uri",
            ),
            Error::HealthCheckIncomplete(HealthFault::Wait) => String::from_str(
                "Service without health check wait time",
            ),
            Error::HealthCheckIncomplete(HealthFault::Port) => String::from_str(
                "Service without health check port",
            ),
            Error::MalformedLink(l) => join("Link ", l.as_str(), " not in the form of url|description"),
        }
    }
}

} // verus!
