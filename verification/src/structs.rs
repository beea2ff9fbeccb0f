//! The parts of a manifest. Each type has a view (`deep_view`) in which its
//! strings are character sequences and its vectors are sequences of views; the
//! contracts of the library speak of those.

use vstd::prelude::*;
use vstd::string::StringExecFns;

verus! {

/// The resources a container asks for.
#[derive(Debug)]
pub struct ResourceRequest {
    /// CPU quantity, such as `200m`.
    pub cpu: String,
    /// Memory quantity, such as `512Mi`.
    pub memory: String,
}

/// The resources a container may not exceed.
#[derive(Debug)]
pub struct ResourceLimit {
    /// CPU quantity, such as `2`.
    pub cpu: String,
    /// Memory quantity, such as `1Gi`.
    pub memory: String,
}

/// A pair of quantity strings, the view of requests and of limits.
pub struct ResourcePairView {
    pub cpu: Seq<char>,
    pub memory: Seq<char>,
}

impl DeepView for ResourceRequest {
    type V = ResourcePairView;

    open spec fn deep_view(&self) -> ResourcePairView {
        ResourcePairView { cpu: self.cpu@, memory: self.memory@ }
    }
}

impl Clone for ResourceRequest {
    fn clone(&self) -> (r: Self)
        ensures
            r.deep_view() == self.deep_view(),
    {
        ResourceRequest { cpu: self.cpu.clone(), memory: self.memory.clone() }
    }
}

impl DeepView for ResourceLimit {
    type V = ResourcePairView;

    open spec fn deep_view(&self) -> ResourcePairView {
        ResourcePairView { cpu: self.cpu@, memory: self.memory@ }
    }
}

impl Clone for ResourceLimit {
    fn clone(&self) -> (r: Self)
        ensures
            r.deep_view() == self.deep_view(),
    {
        ResourceLimit { cpu: self.cpu.clone(), memory: self.memory.clone() }
    }
}

/// Requests and limits of a container.
#[derive(Debug)]
pub struct Resources {
    pub requests: Option<ResourceRequest>,
    pub limits: Option<ResourceLimit>,
}

pub struct ResourcesView {
    pub requests: Option<ResourcePairView>,
    pub limits: Option<ResourcePairView>,
}

impl DeepView for Resources {
    type V = ResourcesView;

    open spec fn deep_view(&self) -> ResourcesView {
        ResourcesView { requests: self.requests.deep_view(), limits: self.limits.deep_view() }
    }
}

impl Clone for Resources {
    fn clone(&self) -> (r: Self)
        ensures
            r.deep_view() == self.deep_view(),
    {
        Resources { requests: self.requests.clone(), limits: self.limits.clone() }
    }
}

impl Default for Resources {
    fn default() -> (r: Self)
        ensures
            r.requests is None,
            r.limits is None,
    {
        Resources { requests: None, limits: None }
    }
}

/// How many instances of a service run.
#[derive(Clone, Copy, Debug, PartialEq, Eq, Structural)]
pub struct Replicas {
    /// The fewest instances.
    pub min: u32,
    /// The most instances.
    pub max: u32,
}

impl DeepView for Replicas {
    type V = Replicas;

    open spec fn deep_view(&self) -> Replicas {
        *self
    }
}

impl Default for Replicas {
    fn default() -> (r: Self)
        ensures
            r == (Replicas { min: 0, max: 0 }),
    {
        Replicas { min: 0, max: 0 }
    }
}

/// One file of a config block.
#[derive(Debug)]
pub struct ConfigMappedFile {
    /// The template the file is made from.
    pub name: String,
    /// The file's name inside the container.
    pub dest: String,
}

pub struct ConfigMappedFileView {
    pub name: Seq<char>,
    pub dest: Seq<char>,
}

impl DeepView for ConfigMappedFile {
    type V = ConfigMappedFileView;

    open spec fn deep_view(&self) -> ConfigMappedFileView {
        ConfigMappedFileView { name: self.name@, dest: self.dest@ }
    }
}

impl Clone for ConfigMappedFile {
    fn clone(&self) -> (r: Self)
        ensures
            r.deep_view() == self.deep_view(),
    {
        ConfigMappedFile { name: self.name.clone(), dest: self.dest.clone() }
    }
}

impl Default for ConfigMappedFile {
    fn default() -> (r: Self)
        ensures
            r.name@.len() == 0,
            r.dest@.len() == 0,
    {
        ConfigMappedFile { name: String::new(), dest: String::new() }
    }
}

/// The config files of a service, mounted under one directory.
#[derive(Debug)]
pub struct ConfigMap {
    /// The name of the mount; made from the service's name where it is left out.
    pub name: Option<String>,
    /// The directory inside the container under which the files appear.
    pub mount: String,
    /// The files to mount there.
    pub files: Vec<ConfigMappedFile>,
}

pub struct ConfigMapView {
    pub name: Option<Seq<char>>,
    pub mount: Seq<char>,
    pub files: Seq<ConfigMappedFileView>,
}

impl DeepView for ConfigMap {
    type V = ConfigMapView;

    open spec fn deep_view(&self) -> ConfigMapView {
        ConfigMapView {
            name: self.name.deep_view(),
            mount: self.mount@,
            files: self.files.deep_view(),
        }
    }
}

impl Clone for ConfigMap {
    fn clone(&self) -> (r: Self)
        ensures
            r.deep_view() == self.deep_view(),
    {
        let r = ConfigMap {
            name: self.name.clone(),
            mount: self.mount.clone(),
            files: self.files.clone(),
        };
        assert(r.files.deep_view() =~= self.files.deep_view());
        r
    }
}

impl Default for ConfigMap {
    fn default() -> (r: Self)
        ensures
            r.name is None,
            r.mount@.len() == 0,
            r.files@.len() == 0,
    {
        ConfigMap { name: None, mount: String::new(), files: Vec::new() }
    }
}

/// The rows of one dashboard.
#[derive(Debug)]
pub struct Dashboard {
    /// The metrics to show, one per row.
    pub rows: Vec<String>,
}

pub struct DashboardView {
    pub rows: Seq<Seq<char>>,
}

impl DeepView for Dashboard {
    type V = DashboardView;

    open spec fn deep_view(&self) -> DashboardView {
        DashboardView { rows: self.rows.deep_view() }
    }
}

impl Clone for Dashboard {
    fn clone(&self) -> (r: Self)
        ensures
            r.deep_view() == self.deep_view(),
    {
        let r = Dashboard { rows: self.rows.clone() };
        assert(r.rows.deep_view() =~= self.rows.deep_view());
        r
    }
}

impl Default for Dashboard {
    fn default() -> (r: Self)
        ensures
            r.rows@.len() == 0,
    {
        Dashboard { rows: Vec::new() }
    }
}

/// A dashboard under its name.
#[derive(Debug)]
pub struct NamedDashboard {
    pub name: String,
    pub dashboard: Dashboard,
}

pub struct NamedDashboardView {
    pub name: Seq<char>,
    pub dashboard: DashboardView,
}

impl DeepView for NamedDashboard {
    type V = NamedDashboardView;

    open spec fn deep_view(&self) -> NamedDashboardView {
        NamedDashboardView { name: self.name@, dashboard: self.dashboard.deep_view() }
    }
}

impl Clone for NamedDashboard {
    fn clone(&self) -> (r: Self)
        ensures
            r.deep_view() == self.deep_view(),
    {
        NamedDashboard { name: self.name.clone(), dashboard: self.dashboard.clone() }
    }
}

/// Whether and where metrics are polled.
#[derive(Debug)]
pub struct Prometheus {
    /// Whether to poll.
    pub enabled: bool,
    /// The path to poll.
    pub path: String,
}

pub struct PrometheusView {
    pub enabled: bool,
    pub path: Seq<char>,
}

impl DeepView for Prometheus {
    type V = PrometheusView;

    open spec fn deep_view(&self) -> PrometheusView {
        PrometheusView { enabled: self.enabled, path: self.path@ }
    }
}

impl Clone for Prometheus {
    fn clone(&self) -> (r: Self)
        ensures
            r.deep_view() == self.deep_view(),
    {
        Prometheus { enabled: self.enabled, path: self.path.clone() }
    }
}

impl Default for Prometheus {
    fn default() -> (r: Self)
        ensures
            !r.enabled,
            r.path@.len() == 0,
    {
        Prometheus { enabled: false, path: String::new() }
    }
}

/// A service that this one relies on.
#[derive(Debug)]
pub struct Dependency {
    /// The name of the service relied on.
    pub name: String,
    /// The version of its API; `v1` where it is left out.
    pub api: Option<String>,
}

pub struct DependencyView {
    pub name: Seq<char>,
    pub api: Option<Seq<char>>,
}

impl DeepView for Dependency {
    type V = DependencyView;

    open spec fn deep_view(&self) -> DependencyView {
        DependencyView { name: self.name@, api: self.api.deep_view() }
    }
}

impl Clone for Dependency {
    fn clone(&self) -> (r: Self)
        ensures
            r.deep_view() == self.deep_view(),
    {
        Dependency { name: self.name.clone(), api: self.api.clone() }
    }
}

impl Default for Dependency {
    fn default() -> (r: Self)
        ensures
            r.name@.len() == 0,
            r.api is None,
    {
        Dependency { name: String::new(), api: None }
    }
}

/// The container image of a service.
#[derive(Debug)]
pub struct Image {
    /// The image's name; the service's name where it is left out.
    pub name: Option<String>,
    /// The repository the image is fetched from; may be empty.
    pub repository: Option<String>,
    /// The tag to fetch; `latest` where it is left out.
    pub tag: Option<String>,
}

pub struct ImageView {
    pub name: Option<Seq<char>>,
    pub repository: Option<Seq<char>>,
    pub tag: Option<Seq<char>>,
}

impl DeepView for Image {
    type V = ImageView;

    open spec fn deep_view(&self) -> ImageView {
        ImageView {
            name: self.name.deep_view(),
            repository: self.repository.deep_view(),
            tag: self.tag.deep_view(),
        }
    }
}

impl Clone for Image {
    fn clone(&self) -> (r: Self)
        ensures
            r.deep_view() == self.deep_view(),
    {
        Image {
            name: self.name.clone(),
            repository: self.repository.clone(),
            tag: self.tag.clone(),
        }
    }
}

impl Default for Image {
    fn default() -> (r: Self)
        ensures
            r.name is None,
            r.repository is None,
            r.tag is None,
    {
        Image { name: None, repository: None, tag: None }
    }
}

/// The reference by which the image is fetched: the repository and a slash,
/// unless there is none or it is empty, then the name, a colon, and the tag or
/// `latest`.
pub open spec fn image_reference(image: ImageView) -> Seq<char>
    recommends
        image.name is Some,
{
    (match image.repository {
        Some(r) => if r.len() > 0 {
            r + "/"@
        } else {
            r
        },
        None => Seq::empty(),
    }) + image.name->0 + ":"@ + (match image.tag {
        Some(t) => t,
        None => "latest"@,
    })
}

impl Image {
    /// The reference by which the image is fetched.
    pub fn to_string(&self) -> (r: String)
        requires
            self.name is Some,
        ensures
            r@ == image_reference(self.deep_view()),
    {
        let mut out: String = String::new();
        match &self.repository {
            Some(r) => {
                out.append(r.as_str());
                if r.as_str().unicode_len() > 0 {
                    out.append("/");
                }
            },
            None => {},
        }
        match &self.name {
            Some(n) => {
                out.append(n.as_str());
            },
            None => {},
        }
        out.append(":");
        match &self.tag {
            Some(t) => {
                out.append(t.as_str());
            },
            None => {
                out.append("latest");
            },
        }
        assert(out@ =~= image_reference(self.deep_view()));
        out
    }
}

/// Where a volume appears inside the container.
#[derive(Debug)]
pub struct VolumeMount {
    pub name: String,
    pub mount_path: String,
    pub sub_path: Option<String>,
    pub read_only: bool,
}

pub struct VolumeMountView {
    pub name: Seq<char>,
    pub mount_path: Seq<char>,
    pub sub_path: Option<Seq<char>>,
    pub read_only: bool,
}

impl DeepView for VolumeMount {
    type V = VolumeMountView;

    open spec fn deep_view(&self) -> VolumeMountView {
        VolumeMountView {
            name: self.name@,
            mount_path: self.mount_path@,
            sub_path: self.sub_path.deep_view(),
            read_only: self.read_only,
        }
    }
}

impl Clone for VolumeMount {
    fn clone(&self) -> (r: Self)
        ensures
            r.deep_view() == self.deep_view(),
    {
        VolumeMount {
            name: self.name.clone(),
            mount_path: self.mount_path.clone(),
            sub_path: self.sub_path.clone(),
            read_only: self.read_only,
        }
    }
}

impl Default for VolumeMount {
    fn default() -> (r: Self)
        ensures
            r.name@.len() == 0,
            r.mount_path@.len() == 0,
            r.sub_path is None,
            !r.read_only,
    {
        VolumeMount {
            name: String::new(),
            mount_path: String::new(),
            sub_path: None,
            read_only: false,
        }
    }
}

/// Whether a volume mount is read-only where the descriptor does not say.
pub fn volume_mount_read_only() -> (r: bool)
    ensures
        !r,
{
    false
}

/// A container that runs before the service starts.
#[derive(Debug)]
pub struct InitContainer {
    pub name: String,
    /// The image reference, as in `namespace/component:tag`.
    pub image: String,
    /// The command to run; may not be empty.
    pub command: Vec<String>,
}

pub struct InitContainerView {
    pub name: Seq<char>,
    pub image: Seq<char>,
    pub command: Seq<Seq<char>>,
}

impl DeepView for InitContainer {
    type V = InitContainerView;

    open spec fn deep_view(&self) -> InitContainerView {
        InitContainerView {
            name: self.name@,
            image: self.image@,
            command: self.command.deep_view(),
        }
    }
}

impl Clone for InitContainer {
    fn clone(&self) -> (r: Self)
        ensures
            r.deep_view() == self.deep_view(),
    {
        let r = InitContainer {
            name: self.name.clone(),
            image: self.image.clone(),
            command: self.command.clone(),
        };
        assert(r.command.deep_view() =~= self.command.deep_view());
        r
    }
}

impl Default for InitContainer {
    fn default() -> (r: Self)
        ensures
            r.name@.len() == 0,
            r.image@.len() == 0,
            r.command@.len() == 0,
    {
        InitContainer { name: String::new(), image: String::new(), command: Vec::new() }
    }
}

/// One key of a secret, projected to a file.
#[derive(Debug)]
pub struct VolumeSecretItem {
    /// The key inside the secret; `value` where the descriptor does not say.
    pub key: String,
    /// The file it is written to.
    pub path: String,
    /// The file's mode; 420 (octal 644) where the descriptor does not say.
    pub mode: u32,
}

pub struct VolumeSecretItemView {
    pub key: Seq<char>,
    pub path: Seq<char>,
    pub mode: u32,
}

impl DeepView for VolumeSecretItem {
    type V = VolumeSecretItemView;

    open spec fn deep_view(&self) -> VolumeSecretItemView {
        VolumeSecretItemView { key: self.key@, path: self.path@, mode: self.mode }
    }
}

impl Clone for VolumeSecretItem {
    fn clone(&self) -> (r: Self)
        ensures
            r.deep_view() == self.deep_view(),
    {
        VolumeSecretItem { key: self.key.clone(), path: self.path.clone(), mode: self.mode }
    }
}

/// The key of a secret item where the descriptor names none.
pub fn volume_key() -> (r: String)
    ensures
        r@ == seq!['v', 'a', 'l', 'u', 'e'],
{
    let chars: Vec<char> = vec!['v', 'a', 'l', 'u', 'e'];
    let r: String = crate::text::string_of(&chars, 0, 5);
    assert(r@ =~= seq!['v', 'a', 'l', 'u', 'e']);
    r
}

/// The mode of a secret item where the descriptor names none.
pub fn volume_default_mode() -> (r: u32)
    ensures
        r == 420,
{
    420
}

/// A secret and the items taken from it.
#[derive(Debug)]
pub struct VolumeSecretDetail {
    pub name: String,
    pub items: Vec<VolumeSecretItem>,
}

pub struct VolumeSecretDetailView {
    pub name: Seq<char>,
    pub items: Seq<VolumeSecretItemView>,
}

impl DeepView for VolumeSecretDetail {
    type V = VolumeSecretDetailView;

    open spec fn deep_view(&self) -> VolumeSecretDetailView {
        VolumeSecretDetailView { name: self.name@, items: self.items.deep_view() }
    }
}

impl Clone for VolumeSecretDetail {
    fn clone(&self) -> (r: Self)
        ensures
            r.deep_view() == self.deep_view(),
    {
        let r = VolumeSecretDetail { name: self.name.clone(), items: self.items.clone() };
        assert(r.items.deep_view() =~= self.items.deep_view());
        r
    }
}

impl Default for VolumeSecretDetail {
    fn default() -> (r: Self)
        ensures
            r.name@.len() == 0,
            r.items@.len() == 0,
    {
        VolumeSecretDetail { name: String::new(), items: Vec::new() }
    }
}

/// One source of a projected volume.
#[derive(Debug)]
pub struct VolumeSecret {
    pub secret: Option<VolumeSecretDetail>,
}

pub struct VolumeSecretView {
    pub secret: Option<VolumeSecretDetailView>,
}

impl DeepView for VolumeSecret {
    type V = VolumeSecretView;

    open spec fn deep_view(&self) -> VolumeSecretView {
        VolumeSecretView { secret: self.secret.deep_view() }
    }
}

impl Clone for VolumeSecret {
    fn clone(&self) -> (r: Self)
        ensures
            r.deep_view() == self.deep_view(),
    {
        VolumeSecret { secret: self.secret.clone() }
    }
}

impl Default for VolumeSecret {
    fn default() -> (r: Self)
        ensures
            r.secret is None,
    {
        VolumeSecret { secret: None }
    }
}

/// A volume that combines several secrets.
#[derive(Debug)]
pub struct ProjectedVolumeSecret {
    pub sources: Vec<VolumeSecret>,
}

pub struct ProjectedVolumeSecretView {
    pub sources: Seq<VolumeSecretView>,
}

impl DeepView for ProjectedVolumeSecret {
    type V = ProjectedVolumeSecretView;

    open spec fn deep_view(&self) -> ProjectedVolumeSecretView {
        ProjectedVolumeSecretView { sources: self.sources.deep_view() }
    }
}

impl Clone for ProjectedVolumeSecret {
    fn clone(&self) -> (r: Self)
        ensures
            r.deep_view() == self.deep_view(),
    {
        let r = ProjectedVolumeSecret { sources: self.sources.clone() };
        assert(r.sources.deep_view() =~= self.sources.deep_view());
        r
    }
}

impl Default for ProjectedVolumeSecret {
    fn default() -> (r: Self)
        ensures
            r.sources@.len() == 0,
    {
        ProjectedVolumeSecret { sources: Vec::new() }
    }
}

/// A volume of a service.
#[derive(Debug)]
pub struct Volume {
    pub name: String,
    /// A projection that combines several sources.
    pub projected: Option<ProjectedVolumeSecret>,
    /// A secret mounted as a volume.
    pub secret: Option<VolumeSecretDetail>,
}

pub struct VolumeView {
    pub name: Seq<char>,
    pub projected: Option<ProjectedVolumeSecretView>,
    pub secret: Option<VolumeSecretDetailView>,
}

impl DeepView for Volume {
    type V = VolumeView;

    open spec fn deep_view(&self) -> VolumeView {
        VolumeView {
            name: self.name@,
            projected: self.projected.deep_view(),
            secret: self.secret.deep_view(),
        }
    }
}

impl Clone for Volume {
    fn clone(&self) -> (r: Self)
        ensures
            r.deep_view() == self.deep_view(),
    {
        Volume {
            name: self.name.clone(),
            projected: self.projected.clone(),
            secret: self.secret.clone(),
        }
    }
}

impl Default for Volume {
    fn default() -> (r: Self)
        ensures
            r.name@.len() == 0,
            r.projected is None,
            r.secret is None,
    {
        Volume { name: String::new(), projected: None, secret: None }
    }
}

/// Where the secrets of a service are kept, if not under its own name.
#[derive(Debug)]
pub struct VaultOpts {
    /// The name under which the secrets are kept.
    pub name: String,
}

pub struct VaultOptsView {
    pub name: Seq<char>,
}

impl DeepView for VaultOpts {
    type V = VaultOptsView;

    open spec fn deep_view(&self) -> VaultOptsView {
        VaultOptsView { name: self.name@ }
    }
}

impl Clone for VaultOpts {
    fn clone(&self) -> (r: Self)
        ensures
            r.deep_view() == self.deep_view(),
    {
        VaultOpts { name: self.name.clone() }
    }
}

/// How the health of a service is checked.
#[derive(Debug)]
pub struct HealthCheck {
    /// The path to ask, typically `/health`.
    pub uri: Option<String>,
    /// The seconds to wait after start.
    pub wait: Option<u32>,
    /// The port to ask; the first exposed port where it is left out.
    pub port: Option<u32>,
}

pub struct HealthCheckView {
    pub uri: Option<Seq<char>>,
    pub wait: Option<u32>,
    pub port: Option<u32>,
}

impl DeepView for HealthCheck {
    type V = HealthCheckView;

    open spec fn deep_view(&self) -> HealthCheckView {
        HealthCheckView { uri: self.uri.deep_view(), wait: self.wait, port: self.port }
    }
}

impl Clone for HealthCheck {
    fn clone(&self) -> (r: Self)
        ensures
            r.deep_view() == self.deep_view(),
    {
        HealthCheck { uri: self.uri.clone(), wait: self.wait, port: self.port }
    }
}

impl Default for HealthCheck {
    fn default() -> (r: Self)
        ensures
            r.uri is None,
            r.wait is None,
            r.port is None,
    {
        HealthCheck { uri: None, wait: None, port: None }
    }
}

} // verus!
