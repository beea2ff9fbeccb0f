//! The manifest of a service, and the steps that resolve it: implicit
//! defaults, secrets, override layers and the region stamp.

use vstd::prelude::*;
use vstd::string::StringExecFns;
use crate::env::{Env, EnvVar, EnvVarView, sorted, filled};
use crate::error::{Error, ErrorView, Layer};
use crate::secret::{Vault, SecretView, Placeholder, resolved, resolve, classify, path_of,
    placeholder_of, secret_path};
use crate::structs::{ConfigMap, ConfigMapView, Dependency, DependencyView, HealthCheck,
    HealthCheckView, Image, ImageView, InitContainer, InitContainerView, NamedDashboard,
    NamedDashboardView, Prometheus, PrometheusView, Replicas, Resources, ResourcesView, VaultOpts,
    VaultOptsView, Volume, VolumeMount, VolumeMountView, VolumeView};
use crate::text::{chars_of, string_of, find_char, find_from};

verus! {

/// The deployment descriptor of one service.
#[derive(Debug)]
pub struct Manifest {
    /// The name of the service.
    pub name: Option<String>,
    /// The image, where it differs from the service's name.
    pub image: Option<Image>,
    /// The command, where the image's own is not used.
    pub command: Option<String>,
    /// Resource requests and limits.
    pub resources: Option<Resources>,
    /// How many instances run.
    pub replicas: Option<Replicas>,
    /// The environment variables to inject.
    pub env: Env,
    /// The config files to mount.
    pub configs: Option<ConfigMap>,
    /// Where volumes appear inside the container.
    pub volume_mounts: Vec<VolumeMount>,
    /// The containers that run before the service starts.
    pub init_containers: Vec<InitContainer>,
    /// The ports to expose.
    pub ports: Vec<u32>,
    /// Where the service's secrets are kept, if not under its name.
    pub vault: Option<VaultOpts>,
    /// How the service's health is checked.
    pub health: Option<HealthCheck>,
    /// The services this one relies on.
    pub dependencies: Vec<Dependency>,
    /// The regions the service is deployed to.
    pub regions: Vec<String>,
    /// The volumes of the service.
    pub volumes: Vec<Volume>,
    /// Whether and where metrics are polled.
    pub prometheus: Option<Prometheus>,
    /// The dashboards to generate, by name.
    pub dashboards: Vec<NamedDashboard>,
    /// Where the descriptor was read from. Not part of the descriptor.
    pub _path: String,
    /// The namespace this manifest was resolved for. Not part of the descriptor.
    pub _namespace: String,
    /// The location this manifest was resolved for. Not part of the descriptor.
    pub _location: String,
}

/// A manifest with its texts as character sequences.
pub struct ManifestView {
    pub name: Option<Seq<char>>,
    pub image: Option<ImageView>,
    pub command: Option<Seq<char>>,
    pub resources: Option<ResourcesView>,
    pub replicas: Option<Replicas>,
    pub env: Seq<EnvVarView>,
    pub configs: Option<ConfigMapView>,
    pub volume_mounts: Seq<VolumeMountView>,
    pub init_containers: Seq<InitContainerView>,
    pub ports: Seq<u32>,
    pub vault: Option<VaultOptsView>,
    pub health: Option<HealthCheckView>,
    pub dependencies: Seq<DependencyView>,
    pub regions: Seq<Seq<char>>,
    pub volumes: Seq<VolumeView>,
    pub prometheus: Option<PrometheusView>,
    pub dashboards: Seq<NamedDashboardView>,
    pub path: Seq<char>,
    pub namespace: Seq<char>,
    pub location: Seq<char>,
}

impl DeepView for Manifest {
    type V = ManifestView;

    open spec fn deep_view(&self) -> ManifestView {
        ManifestView {
            name: self.name.deep_view(),
            image: self.image.deep_view(),
            command: self.command.deep_view(),
            resources: self.resources.deep_view(),
            replicas: self.replicas.deep_view(),
            env: self.env.deep_view(),
            configs: self.configs.deep_view(),
            volume_mounts: self.volume_mounts.deep_view(),
            init_containers: self.init_containers.deep_view(),
            ports: self.ports.deep_view(),
            vault: self.vault.deep_view(),
            health: self.health.deep_view(),
            dependencies: self.dependencies.deep_view(),
            regions: self.regions.deep_view(),
            volumes: self.volumes.deep_view(),
            prometheus: self.prometheus.deep_view(),
            dashboards: self.dashboards.deep_view(),
            path: self._path@,
            namespace: self._namespace@,
            location: self._location@,
        }
    }
}

impl Clone for Manifest {
    fn clone(&self) -> (r: Self)
        ensures
            r.deep_view() == self.deep_view(),
    {
        let r = Manifest {
            name: self.name.clone(),
            image: self.image.clone(),
            command: self.command.clone(),
            resources: self.resources.clone(),
            replicas: self.replicas,
            env: self.env.clone(),
            configs: self.configs.clone(),
            volume_mounts: self.volume_mounts.clone(),
            init_containers: self.init_containers.clone(),
            ports: self.ports.clone(),
            vault: self.vault.clone(),
            health: self.health.clone(),
            dependencies: self.dependencies.clone(),
            regions: self.regions.clone(),
            volumes: self.volumes.clone(),
            prometheus: self.prometheus.clone(),
            dashboards: self.dashboards.clone(),
            _path: self._path.clone(),
            _namespace: self._namespace.clone(),
            _location: self._location.clone(),
        };
        assert(r.volume_mounts.deep_view() =~= self.volume_mounts.deep_view());
        assert(r.init_containers.deep_view() =~= self.init_containers.deep_view());
        assert(r.ports.deep_view() =~= self.ports.deep_view());
        assert(r.dependencies.deep_view() =~= self.dependencies.deep_view());
        assert(r.regions.deep_view() =~= self.regions.deep_view());
        assert(r.volumes.deep_view() =~= self.volumes.deep_view());
        assert(r.dashboards.deep_view() =~= self.dashboards.deep_view());
        r
    }
}

/// The manifest that says nothing.
pub open spec fn blank() -> ManifestView {
    ManifestView {
        name: None,
        image: None,
        command: None,
        resources: None,
        replicas: None,
        env: Seq::empty(),
        configs: None,
        volume_mounts: Seq::empty(),
        init_containers: Seq::empty(),
        ports: Seq::empty(),
        vault: None,
        health: None,
        dependencies: Seq::empty(),
        regions: Seq::empty(),
        volumes: Seq::empty(),
        prometheus: None,
        dashboards: Seq::empty(),
        path: Seq::empty(),
        namespace: Seq::empty(),
        location: Seq::empty(),
    }
}

impl Default for Manifest {
    fn default() -> (r: Self)
        ensures
            r.deep_view() == blank(),
    {
        let r = Manifest {
            name: None,
            image: None,
            command: None,
            resources: None,
            replicas: None,
            env: Env::new(),
            configs: None,
            volume_mounts: Vec::new(),
            init_containers: Vec::new(),
            ports: Vec::new(),
            vault: None,
            health: None,
            dependencies: Vec::new(),
            regions: Vec::new(),
            volumes: Vec::new(),
            prometheus: None,
            dashboards: Vec::new(),
            _path: String::new(),
            _namespace: String::new(),
            _location: String::new(),
        };
        assert(r.volume_mounts.deep_view() =~= Seq::empty());
        assert(r.init_containers.deep_view() =~= Seq::empty());
        assert(r.ports.deep_view() =~= Seq::empty());
        assert(r.dependencies.deep_view() =~= Seq::empty());
        assert(r.regions.deep_view() =~= Seq::empty());
        assert(r.volumes.deep_view() =~= Seq::empty());
        assert(r.dashboards.deep_view() =~= Seq::empty());
        r
    }
}

/// The image of `m` with its name defaulting to `name`.
pub open spec fn implicit_image(image: Option<ImageView>, name: Seq<char>) -> ImageView {
    match image {
        None => ImageView { name: Some(name), repository: None, tag: None },
        Some(i) => ImageView {
            name: Some(
                match i.name {
                    Some(n) => n,
                    None => name,
                },
            ),
            repository: i.repository,
            tag: i.tag,
        },
    }
}

/// The config block with its name defaulting to `name`, then `-config`.
pub open spec fn implicit_configs(configs: Option<ConfigMapView>, name: Seq<char>) -> Option<
    ConfigMapView,
> {
    match configs {
        None => None,
        Some(c) => Some(
            ConfigMapView {
                name: Some(
                    match c.name {
                        Some(n) => n,
                        None => name + "-config"@,
                    },
                ),
                mount: c.mount,
                files: c.files,
            },
        ),
    }
}

/// The health check with its port defaulting to the first exposed port.
pub open spec fn implicit_health(health: Option<HealthCheckView>, ports: Seq<u32>) -> Option<
    HealthCheckView,
> {
    if ports.len() == 0 {
        health
    } else {
        match health {
            None => Some(HealthCheckView { uri: None, wait: None, port: Some(ports[0]) }),
            Some(h) => Some(
                HealthCheckView {
                    uri: h.uri,
                    wait: h.wait,
                    port: Some(
                        match h.port {
                            Some(p) => p,
                            None => ports[0],
                        },
                    ),
                },
            ),
        }
    }
}

/// The dependency with its API version defaulting to `v1`.
pub open spec fn implicit_dependency(d: DependencyView) -> DependencyView {
    DependencyView {
        name: d.name,
        api: Some(
            match d.api {
                Some(a) => a,
                None => "v1"@,
            },
        ),
    }
}

/// The dependencies, each with its API version defaulting to `v1`.
pub open spec fn implicit_dependencies(deps: Seq<DependencyView>) -> Seq<DependencyView> {
    Seq::new(deps.len(), |i: int| implicit_dependency(deps[i]))
}

/// The manifest with the defaults that follow from its own fields. They rest
/// on its name, so it must have one.
pub open spec fn with_implicits(m: ManifestView) -> Result<ManifestView, ErrorView> {
    match m.name {
        None => Err(ErrorView::EmptyName),
        Some(name) => Ok(
            ManifestView {
                image: Some(implicit_image(m.image, name)),
                configs: implicit_configs(m.configs, name),
                health: implicit_health(m.health, m.ports),
                dependencies: implicit_dependencies(m.dependencies),
                ..m
            },
        ),
    }
}

/// The image of `base` with the repository and the tag of `layer` where it has
/// none of its own. An image that is left out has neither.
pub open spec fn merged_image(base: Option<ImageView>, layer: Option<ImageView>) -> Option<
    ImageView,
> {
    match (base, layer) {
        (None, Some(l)) => Some(ImageView { name: None, repository: l.repository, tag: l.tag }),
        (Some(b), Some(l)) => Some(
            ImageView {
                name: b.name,
                repository: if b.repository is None {
                    l.repository
                } else {
                    b.repository
                },
                tag: if b.tag is None {
                    l.tag
                } else {
                    b.tag
                },
            },
        ),
        _ => base,
    }
}

/// The health check of `base` with the path and the wait of `layer` where it
/// has none of its own. Without a health check, `base` takes nothing.
pub open spec fn merged_health(base: Option<HealthCheckView>, layer: Option<HealthCheckView>) -> Option<
    HealthCheckView,
> {
    match (base, layer) {
        (Some(b), Some(l)) => Some(
            HealthCheckView {
                uri: if b.uri is None {
                    l.uri
                } else {
                    b.uri
                },
                wait: if b.wait is None {
                    l.wait
                } else {
                    b.wait
                },
                port: b.port,
            },
        ),
        _ => base,
    }
}

/// `base` with its gaps filled from `layer`. What `base` has, it keeps: each
/// environment variable by its name, the repository and the tag of the image,
/// the path and the wait of the health check, and as a whole the resources,
/// the replicas, the volume mounts, the init containers and the volumes.
pub open spec fn merged(base: ManifestView, layer: ManifestView) -> ManifestView {
    ManifestView {
        env: filled(base.env, layer.env),
        image: merged_image(base.image, layer.image),
        resources: if base.resources is None {
            layer.resources
        } else {
            base.resources
        },
        volume_mounts: if base.volume_mounts.len() == 0 {
            layer.volume_mounts
        } else {
            base.volume_mounts
        },
        init_containers: if base.init_containers.len() == 0 {
            layer.init_containers
        } else {
            base.init_containers
        },
        replicas: if base.replicas is None {
            layer.replicas
        } else {
            base.replicas
        },
        health: merged_health(base.health, layer.health),
        volumes: if base.volumes.len() == 0 {
            layer.volumes
        } else {
            base.volumes
        },
        ..base
    }
}

/// The name under which the secrets of `m` are kept: that of its vault
/// options, or else its own.
pub open spec fn effective_name(m: ManifestView) -> Option<Seq<char>> {
    match m.vault {
        Some(v) => Some(v.name),
        None => m.name,
    }
}

/// The variables with their placeholders resolved one after the other; the
/// first that cannot be resolved gives the error.
pub open spec fn resolved_env(
    vars: Seq<EnvVarView>,
    region: Seq<char>,
    service: Seq<char>,
    secrets: Seq<SecretView>,
) -> Result<Seq<EnvVarView>, ErrorView>
    decreases vars.len(),
{
    if vars.len() == 0 {
        Ok(Seq::empty())
    } else {
        match resolved_env(vars.drop_last(), region, service, secrets) {
            Err(e) => Err(e),
            Ok(head) => match resolved(vars.last().key, vars.last().value, region, service, secrets) {
                Err(e) => Err(e),
                Ok(value) => Ok(head.push(EnvVarView { key: vars.last().key, value })),
            },
        }
    }
}

/// The manifest with the placeholders of its environment resolved.
pub open spec fn with_secrets(m: ManifestView, region: Seq<char>, secrets: Seq<SecretView>) -> Result<
    ManifestView,
    ErrorView,
> {
    match effective_name(m) {
        None => Err(ErrorView::EmptyName),
        Some(service) => match resolved_env(m.env, region, service, secrets) {
            Err(e) => Err(e),
            Ok(env) => Ok(ManifestView { env, ..m }),
        },
    }
}

/// The paths of the secrets that the variables ask the store for, in the order
/// of the variables.
pub open spec fn wanted_paths(vars: Seq<EnvVarView>, region: Seq<char>, service: Seq<char>) -> Seq<
    Seq<char>,
>
    decreases vars.len(),
{
    if vars.len() == 0 {
        Seq::empty()
    } else if placeholder_of(vars.last().value) is VaultRef {
        wanted_paths(vars.drop_last(), region, service).push(
            secret_path(region, service, vars.last().key),
        )
    } else {
        wanted_paths(vars.drop_last(), region, service)
    }
}

/// The paths that resolving `m` for `region` reads from the secret store.
pub open spec fn vault_paths_of(m: ManifestView, region: Seq<char>) -> Result<
    Seq<Seq<char>>,
    ErrorView,
> {
    match effective_name(m) {
        None => Err(ErrorView::EmptyName),
        Some(service) => Ok(wanted_paths(m.env, region, service)),
    }
}

/// A result that holds texts, with the texts and the error taken by their
/// views.
pub open spec fn texts_outcome(r: Result<Vec<String>, Error>) -> Result<Seq<Seq<char>>, ErrorView> {
    match r {
        Ok(v) => Ok(v.deep_view()),
        Err(e) => Err(e@),
    }
}

/// What a descriptor file holds.
#[derive(Debug)]
pub enum Document {
    /// There is no such file.
    Missing,
    /// The file is there and is no descriptor.
    Malformed,
    /// The descriptor that the file holds.
    Parsed(Manifest),
}

pub enum DocumentView {
    Missing,
    Malformed,
    Parsed(ManifestView),
}

impl DeepView for Document {
    type V = DocumentView;

    open spec fn deep_view(&self) -> DocumentView {
        match *self {
            Document::Missing => DocumentView::Missing,
            Document::Malformed => DocumentView::Malformed,
            Document::Parsed(m) => DocumentView::Parsed(m.deep_view()),
        }
    }
}

impl Clone for Document {
    fn clone(&self) -> (r: Self)
        ensures
            r.deep_view() == self.deep_view(),
    {
        match self {
            Document::Missing => Document::Missing,
            Document::Malformed => Document::Malformed,
            Document::Parsed(m) => Document::Parsed(m.clone()),
        }
    }
}

impl Document {
    /// A descriptor that the file holds has its environment in order.
    pub open spec fn wf(&self) -> bool {
        match *self {
            Document::Parsed(m) => m.wf(),
            _ => true,
        }
    }

    /// Tells whether a descriptor that the file holds has its environment in
    /// order.
    pub fn in_order(&self) -> (r: bool)
        ensures
            r == self.wf(),
    {
        match self {
            Document::Parsed(m) => m.env.is_sorted(),
            _ => true,
        }
    }
}

/// `m` with the override layer that `document` holds, if it holds one.
pub open spec fn with_layer(m: ManifestView, document: DocumentView, layer: Layer) -> Result<
    ManifestView,
    ErrorView,
> {
    match document {
        DocumentView::Missing => Ok(m),
        DocumentView::Malformed => Err(ErrorView::DescriptorParse(layer)),
        DocumentView::Parsed(l) => Ok(merged(m, l)),
    }
}

/// The namespace and the location of a region: what stands before and after
/// its one hyphen, neither of them empty.
pub open spec fn region_parts(region: Seq<char>) -> Option<(Seq<char>, Seq<char>)> {
    let dash = find_from(region, '-', 0);
    if 0 < dash && dash + 1 < region.len() && find_from(region, '-', dash + 1) == region.len() {
        Some((region.take(dash), region.skip(dash + 1)))
    } else {
        None
    }
}

/// `m` with the namespace and the location of `region`.
pub open spec fn stamped(m: ManifestView, region: Seq<char>) -> Result<ManifestView, ErrorView> {
    match region_parts(region) {
        Some(parts) => Ok(ManifestView { namespace: parts.0, location: parts.1, ..m }),
        None => Err(ErrorView::InvalidRegion(region)),
    }
}

/// `m` resolved for `region`: implicit defaults, then secrets where a store is
/// given, then the service's own override for the region, then the region's
/// defaults, then the stamp. The first step that fails gives the error.
pub open spec fn resolved_manifest(
    m: ManifestView,
    region: Seq<char>,
    secrets: Option<Seq<SecretView>>,
    local: DocumentView,
    global: DocumentView,
) -> Result<ManifestView, ErrorView> {
    match with_implicits(m) {
        Err(e) => Err(e),
        Ok(implicit) => match (match secrets {
            Some(s) => with_secrets(implicit, region, s),
            None => Ok(implicit),
        }) {
            Err(e) => Err(e),
            Ok(a) => match with_layer(a, local, Layer::Local) {
                Err(e) => Err(e),
                Ok(b) => match with_layer(b, global, Layer::Global) {
                    Err(e) => Err(e),
                    Ok(c) => stamped(c, region),
                },
            },
        },
    }
}

/// Resolving keeps the names of the variables, and so their order.
pub proof fn lemma_resolved_env_keys(
    vars: Seq<EnvVarView>,
    region: Seq<char>,
    service: Seq<char>,
    secrets: Seq<SecretView>,
)
    requires
        resolved_env(vars, region, service, secrets) is Ok,
    ensures
        resolved_env(vars, region, service, secrets)->Ok_0.len() == vars.len(),
        forall|i: int|
            0 <= i < vars.len() ==> (#[trigger] resolved_env(
                vars,
                region,
                service,
                secrets,
            )->Ok_0[i]).key == vars[i].key,
        sorted(vars) ==> sorted(resolved_env(vars, region, service, secrets)->Ok_0),
    decreases vars.len(),
{
    if vars.len() > 0 {
        lemma_resolved_env_keys(vars.drop_last(), region, service, secrets);
        let out = resolved_env(vars, region, service, secrets)->Ok_0;
        if sorted(vars) {
            assert forall|i: int, j: int| 0 <= i < j < out.len() implies crate::text::lex_lt(
                #[trigger] out[i].key,
                #[trigger] out[j].key,
            ) by {
                assert(crate::text::lex_lt(vars[i].key, vars[j].key));
            }
        }
    }
}

/// The namespace and the location of a region.
pub fn split_region(region: &str) -> (r: Option<(String, String)>)
    ensures
        match region_parts(region@) {
            Some(parts) => r matches Some(p) && p.0@ == parts.0 && p.1@ == parts.1,
            None => r is None,
        },
{
    let chars: Vec<char> = chars_of(region);
    let dash: usize = find_char(&chars, '-', 0);
    if dash == 0 || dash >= chars.len() || dash + 1 >= chars.len() {
        return None;
    }
    if find_char(&chars, '-', dash + 1) != chars.len() {
        return None;
    }
    let namespace: String = string_of(&chars, 0, dash);
    let location: String = string_of(&chars, dash + 1, chars.len());
    Some((namespace, location))
}

/// The image of `base` with the repository and the tag of `layer` where it has
/// none of its own.
fn merge_image(base: &Option<Image>, layer: &Option<Image>) -> (r: Option<Image>)
    ensures
        r.deep_view() == merged_image(base.deep_view(), layer.deep_view()),
{
    match (base, layer) {
        (None, Some(l)) => Some(
            Image { name: None, repository: l.repository.clone(), tag: l.tag.clone() },
        ),
        (Some(b), Some(l)) => Some(
            Image {
                name: b.name.clone(),
                repository: if b.repository.is_none() {
                    l.repository.clone()
                } else {
                    b.repository.clone()
                },
                tag: if b.tag.is_none() {
                    l.tag.clone()
                } else {
                    b.tag.clone()
                },
            },
        ),
        _ => base.clone(),
    }
}

/// The health check of `base` with the path and the wait of `layer` where it
/// has none of its own.
fn merge_health(base: &Option<HealthCheck>, layer: &Option<HealthCheck>) -> (r: Option<HealthCheck>)
    ensures
        r.deep_view() == merged_health(base.deep_view(), layer.deep_view()),
{
    match (base, layer) {
        (Some(b), Some(l)) => Some(
            HealthCheck {
                uri: if b.uri.is_none() {
                    l.uri.clone()
                } else {
                    b.uri.clone()
                },
                wait: if b.wait.is_none() {
                    l.wait
                } else {
                    b.wait
                },
                port: b.port,
            },
        ),
        _ => base.clone(),
    }
}

impl Manifest {
    /// The environment holds each name once, in order.
    pub open spec fn wf(&self) -> bool {
        self.env.wf()
    }

    /// A manifest that holds the service's name and where its descriptor is
    /// kept, and nothing else.
    pub fn new(name: &str, location: &str) -> (r: Manifest)
        ensures
            r.deep_view() == (ManifestView { name: Some(name@), path: location@, ..blank() }),
            r.wf(),
    {
        let mut r: Manifest = Manifest::default();
        r.name = Some(String::from_str(name));
        r._path = String::from_str(location);
        r
    }

    /// Adds the defaults that follow from the manifest's own fields: the
    /// image's name and the name of the config block from the service's name,
    /// the health check's port from the first exposed port, and `v1` as the API
    /// version of each dependency. What is set stays. A manifest without a
    /// name is refused and stays as it was.
    pub fn implicits(&mut self) -> (r: Result<(), Error>)
        ensures
            match with_implicits(old(self).deep_view()) {
                Ok(m) => r is Ok && final(self).deep_view() == m,
                Err(e) => r is Err && r->Err_0@ == e && final(self).deep_view() == old(
                    self,
                ).deep_view(),
            },
            old(self).wf() ==> final(self).wf(),
    {
        let name: String = match &self.name {
            Some(n) => n.clone(),
            None => {
                return Err(Error::EmptyName);
            },
        };
        let image: Image = match &self.image {
            None => Image { name: Some(name.clone()), repository: None, tag: None },
            Some(i) => Image {
                name: Some(
                    match &i.name {
                        Some(n) => n.clone(),
                        None => name.clone(),
                    },
                ),
                repository: i.repository.clone(),
                tag: i.tag.clone(),
            },
        };
        self.image = Some(image);
        let configs: Option<ConfigMap> = match &self.configs {
            None => None,
            Some(c) => {
                let files = c.files.clone();
                assert(files.deep_view() =~= c.files.deep_view());
                Some(
                    ConfigMap {
                        name: Some(
                            match &c.name {
                                Some(n) => n.clone(),
                                None => name.clone().concat("-config"),
                            },
                        ),
                        mount: c.mount.clone(),
                        files,
                    },
                )
            },
        };
        self.configs = configs;
        if self.ports.len() > 0 {
            let first: u32 = self.ports[0];
            let health: HealthCheck = match &self.health {
                None => HealthCheck { uri: None, wait: None, port: Some(first) },
                Some(h) => HealthCheck {
                    uri: h.uri.clone(),
                    wait: h.wait,
                    port: Some(
                        match h.port {
                            Some(p) => p,
                            None => first,
                        },
                    ),
                },
            };
            self.health = Some(health);
        }
        let ghost before = self.dependencies.deep_view();
        let mut dependencies: Vec<Dependency> = Vec::new();
        let mut i: usize = 0;
        while i < self.dependencies.len()
            invariant
                i <= before.len(),
                before == self.dependencies.deep_view(),
                before.len() == self.dependencies@.len(),
                dependencies.deep_view() == implicit_dependencies(before).take(i as int),
            decreases before.len() - i,
        {
            let d: &Dependency = &self.dependencies[i];
            let item: Dependency = Dependency {
                name: d.name.clone(),
                api: Some(
                    match &d.api {
                        Some(a) => a.clone(),
                        None => String::from_str("v1"),
                    },
                ),
            };
            let ghost prev = dependencies.deep_view();
            let ghost added = item.deep_view();
            assert(before[i as int] == d.deep_view());
            assert(added == implicit_dependency(before[i as int]));
            dependencies.push(item);
            assert(dependencies.deep_view() =~= prev.push(added));
            i = i + 1;
            assert(dependencies.deep_view() =~= implicit_dependencies(before).take(i as int));
        }
        assert(dependencies.deep_view() =~= implicit_dependencies(before));
        self.dependencies = dependencies;
        Ok(())
    }

    /// Fills the gaps of this manifest from an override layer. What the
    /// manifest has, it keeps.
    pub fn merge(&mut self, layer: &Manifest) -> (r: Result<(), Error>)
        requires
            old(self).wf(),
            layer.wf(),
        ensures
            r is Ok,
            final(self).deep_view() == merged(old(self).deep_view(), layer.deep_view()),
            final(self).env.map() == layer.env.map().union_prefer_right(old(self).env.map()),
            final(self).wf(),
    {
        let ghost base = self.deep_view();
        let ghost over = layer.deep_view();
        self.env.fill_from(&layer.env);
        self.image = merge_image(&self.image, &layer.image);
        if self.resources.is_none() {
            self.resources = layer.resources.clone();
        }
        if self.volume_mounts.len() == 0 {
            self.volume_mounts = layer.volume_mounts.clone();
            assert(self.volume_mounts.deep_view() =~= layer.volume_mounts.deep_view());
        }
        if self.init_containers.len() == 0 {
            self.init_containers = layer.init_containers.clone();
            assert(self.init_containers.deep_view() =~= layer.init_containers.deep_view());
        }
        if self.replicas.is_none() {
            self.replicas = layer.replicas;
        }
        self.health = merge_health(&self.health, &layer.health);
        if self.volumes.len() == 0 {
            self.volumes = layer.volumes.clone();
            assert(self.volumes.deep_view() =~= layer.volumes.deep_view());
        }
        proof {
            let now = self.deep_view();
            let goal = merged(base, over);
            assert(now.env == goal.env);
            assert(now.image == goal.image);
            assert(now.resources == goal.resources);
            assert(now.volume_mounts == goal.volume_mounts);
            assert(now.init_containers == goal.init_containers);
            assert(now.replicas == goal.replicas);
            assert(now.health == goal.health);
            assert(now.volumes == goal.volumes);
        }
        Ok(())
    }

    /// Tells whether the manifest exposes a port. One that exposes none is a
    /// worker without ingress, which is worth a warning and no error.
    pub fn exposes_ports(&self) -> (r: bool)
        ensures
            r == (self.deep_view().ports.len() > 0),
    {
        self.ports.len() > 0
    }

    /// Replaces the placeholders of the environment by what they stand for,
    /// for `region` and with the secrets of `client`. Where one cannot be
    /// resolved the manifest stays as it was.
    pub fn secrets(&mut self, client: &Vault, region: &str) -> (r: Result<(), Error>)
        ensures
            match with_secrets(old(self).deep_view(), region@, client.deep_view()) {
                Ok(m) => r is Ok && final(self).deep_view() == m,
                Err(e) => r is Err && r->Err_0@ == e && final(self).deep_view() == old(
                    self,
                ).deep_view(),
            },
            old(self).wf() ==> final(self).wf(),
    {
        let service: String = match &self.vault {
            Some(v) => v.name.clone(),
            None => match &self.name {
                Some(n) => n.clone(),
                None => {
                    return Err(Error::EmptyName);
                },
            },
        };
        let ghost vars = self.env.deep_view();
        let ghost store = client.deep_view();
        let mut entries: Vec<EnvVar> = Vec::new();
        let mut i: usize = 0;
        assert(vars.take(0) =~= Seq::<EnvVarView>::empty());
        assert(entries.deep_view() =~= Seq::<EnvVarView>::empty());
        while i < self.env.entries.len()
            invariant
                i <= vars.len(),
                vars == self.env.deep_view(),
                vars.len() == self.env.entries@.len(),
                store == client.deep_view(),
                effective_name(self.deep_view()) == Some(service@),
                self.deep_view() == old(self).deep_view(),
                self.wf() == old(self).wf(),
                resolved_env(vars.take(i as int), region@, service@, store) == Ok::<
                    Seq<EnvVarView>,
                    ErrorView,
                >(entries.deep_view()),
            decreases vars.len() - i,
        {
            let var: &EnvVar = &self.env.entries[i];
            assert(vars[i as int] == var.deep_view());
            assert(vars.take(i + 1).drop_last() =~= vars.take(i as int));
            let ghost prev = entries.deep_view();
            match resolve(var.key.as_str(), var.value.as_str(), region, service.as_str(), client) {
                Err(e) => {
                    proof {
                        lemma_resolved_env_fails(vars, i + 1, region@, service@, store);
                    }
                    return Err(e);
                },
                Ok(value) => {
                    let item: EnvVar = EnvVar { key: var.key.clone(), value };
                    let ghost added = item.deep_view();
                    entries.push(item);
                    assert(entries.deep_view() =~= prev.push(added));
                },
            }
            i = i + 1;
        }
        assert(vars.take(i as int) =~= vars);
        proof {
            lemma_resolved_env_keys(vars, region@, service@, store);
        }
        self.env = Env { entries };
        Ok(())
    }

    /// Resolves this manifest for `region`: implicit defaults, then secrets
    /// where `vault` is given, then the service's own override for the region,
    /// then the region's defaults, then the namespace and the location that the
    /// region names. Without `vault` every placeholder stays as it is written.
    /// Where a step fails the manifest stays as it was.
    pub fn fill(
        &mut self,
        region: &str,
        vault: Option<&Vault>,
        local: &Document,
        global: &Document,
    ) -> (r: Result<(), Error>)
        requires
            old(self).wf(),
            local.wf(),
            global.wf(),
        ensures
            match resolved_manifest(
                old(self).deep_view(),
                region@,
                vault.deep_view(),
                local.deep_view(),
                global.deep_view(),
            ) {
                Ok(m) => r is Ok && final(self).deep_view() == m,
                Err(e) => r is Err && r->Err_0@ == e && final(self).deep_view() == old(
                    self,
                ).deep_view(),
            },
            final(self).wf(),
    {
        let mut work: Manifest = self.clone();
        match work.implicits() {
            Err(e) => {
                return Err(e);
            },
            Ok(_) => {},
        }
        if let Some(client) = vault {
            match work.secrets(client, region) {
                Err(e) => {
                    return Err(e);
                },
                Ok(_) => {},
            }
        }
        match local {
            Document::Missing => {},
            Document::Malformed => {
                return Err(Error::DescriptorParse(Layer::Local));
            },
            Document::Parsed(layer) => {
                let _ = work.merge(layer);
            },
        }
        match global {
            Document::Missing => {},
            Document::Malformed => {
                return Err(Error::DescriptorParse(Layer::Global));
            },
            Document::Parsed(layer) => {
                let _ = work.merge(layer);
            },
        }
        match split_region(region) {
            None => {
                return Err(Error::InvalidRegion(String::from_str(region)));
            },
            Some(parts) => {
                work._namespace = parts.0;
                work._location = parts.1;
            },
        }
        *self = work;
        Ok(())
    }

    /// The paths that resolving this manifest for `region` reads from the
    /// secret store: one for each variable that asks for a secret of the
    /// store, in the order of the variables.
    pub fn vault_paths(&self, region: &str) -> (r: Result<Vec<String>, Error>)
        ensures
            texts_outcome(r) == vault_paths_of(self.deep_view(), region@),
    {
        let service: String = match &self.vault {
            Some(v) => v.name.clone(),
            None => match &self.name {
                Some(n) => n.clone(),
                None => {
                    return Err(Error::EmptyName);
                },
            },
        };
        let ghost vars = self.env.deep_view();
        let mut paths: Vec<String> = Vec::new();
        let mut i: usize = 0;
        assert(vars.take(0) =~= Seq::<EnvVarView>::empty());
        assert(paths.deep_view() =~= Seq::<Seq<char>>::empty());
        while i < self.env.entries.len()
            invariant
                i <= vars.len(),
                vars == self.env.deep_view(),
                vars.len() == self.env.entries@.len(),
                paths.deep_view() == wanted_paths(vars.take(i as int), region@, service@),
            decreases vars.len() - i,
        {
            let var: &EnvVar = &self.env.entries[i];
            assert(vars[i as int] == var.deep_view());
            assert(vars.take(i + 1).drop_last() =~= vars.take(i as int));
            let ghost prev = paths.deep_view();
            match classify(var.value.as_str()) {
                Placeholder::VaultRef => {
                    let path: String = path_of(region, service.as_str(), var.key.as_str());
                    let ghost added = path@;
                    paths.push(path);
                    assert(paths.deep_view() =~= prev.push(added));
                },
                _ => {},
            }
            i = i + 1;
        }
        assert(vars.take(i as int) =~= vars);
        Ok(paths)
    }
}

/// Once a beginning of the variables cannot be resolved, the whole cannot, and
/// for the same reason.
pub proof fn lemma_resolved_env_fails(
    vars: Seq<EnvVarView>,
    n: int,
    region: Seq<char>,
    service: Seq<char>,
    secrets: Seq<SecretView>,
)
    requires
        0 <= n <= vars.len(),
        resolved_env(vars.take(n), region, service, secrets) is Err,
    ensures
        resolved_env(vars, region, service, secrets) == resolved_env(
            vars.take(n),
            region,
            service,
            secrets,
        ),
    decreases vars.len() - n,
{
    if n < vars.len() {
        assert(vars.take(n + 1).drop_last() =~= vars.take(n));
        lemma_resolved_env_fails(vars, n + 1, region, service, secrets);
    } else {
        assert(vars.take(n) =~= vars);
    }
}

} // verus!
