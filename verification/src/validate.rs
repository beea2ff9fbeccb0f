//! Validation: the rules that a resolved manifest must meet before it drives a
//! rollout. They are held in a fixed order, and the first that is broken is
//! reported.

use vstd::prelude::*;
use vstd::string::StringExecFns;
use crate::error::{Bound, ConfigFault, Error, ErrorView, HealthFault, InitFault, outcome};
use crate::manifest::{Document, DocumentView, Manifest, ManifestView, resolved_manifest};
use crate::pattern::{search, search_of};
use crate::quantity::{Amount, Quantity, at_most, cpu_of, memory_of, parse_cpu, parse_memory, whole,
    GIBI};
use crate::repo::{Repository, RepositoryView, Service, base_manifest, find_document, find_service,
    has_region, has_service, lookup_file, named};
use crate::structs::{ConfigMap, ConfigMapView, ConfigMappedFileView, Dependency, DependencyView,
    HealthCheck, HealthCheckView, InitContainer, InitContainerView, Resources, ResourcesView};
use crate::text::{chars_of, ends_with, has_suffix, is_digit, digit_value, same_text};

verus! {

/// The most CPU a service may request, in cores.
pub const CPU_REQUEST_CEILING: u128 = 10;

/// The highest CPU limit, in cores.
pub const CPU_LIMIT_CEILING: u128 = 20;

/// The most memory a service may request, in bytes: ten binary gigabytes.
pub const MEMORY_REQUEST_CEILING: u128 = 10 * GIBI;

/// The highest memory limit, in bytes: twenty binary gigabytes.
pub const MEMORY_LIMIT_CEILING: u128 = 20 * GIBI;

/// The rule on names: a manifest has one, and it is not empty.
pub open spec fn name_rule(name: Option<Seq<char>>) -> Result<(), ErrorView> {
    match name {
        Some(n) => if n.len() > 0 {
            Ok(())
        } else {
            Err(ErrorView::EmptyName)
        },
        None => Err(ErrorView::EmptyName),
    }
}

/// The rule on amounts: no more is requested than the limit allows, and
/// neither the requests nor the limits go beyond their ceilings.
pub open spec fn bounds_rule(
    request_cpu: Amount,
    limit_cpu: Amount,
    request_memory: Amount,
    limit_memory: Amount,
) -> Result<(), ErrorView> {
    if !at_most(request_cpu, limit_cpu) {
        Err(ErrorView::ResourceBoundViolation(Bound::CpuRequestOverLimit))
    } else if !at_most(request_memory, limit_memory) {
        Err(ErrorView::ResourceBoundViolation(Bound::MemoryRequestOverLimit))
    } else if !at_most(request_cpu, whole(CPU_REQUEST_CEILING as nat)) {
        Err(ErrorView::ResourceBoundViolation(Bound::CpuRequestCeiling))
    } else if !at_most(request_memory, whole(MEMORY_REQUEST_CEILING as nat)) {
        Err(ErrorView::ResourceBoundViolation(Bound::MemoryRequestCeiling))
    } else if !at_most(limit_cpu, whole(CPU_LIMIT_CEILING as nat)) {
        Err(ErrorView::ResourceBoundViolation(Bound::CpuLimitCeiling))
    } else if !at_most(limit_memory, whole(MEMORY_LIMIT_CEILING as nat)) {
        Err(ErrorView::ResourceBoundViolation(Bound::MemoryLimitCeiling))
    } else {
        Ok(())
    }
}

/// The rule on resources: requests and limits are given, their four
/// quantities can be read (memory before CPU, requests before limits), and the
/// amounts meet the rule on amounts.
pub open spec fn resources_rule(resources: Option<ResourcesView>) -> Result<(), ErrorView> {
    match resources {
        Some(ResourcesView { requests: Some(requests), limits: Some(limits) }) => match memory_of(
            requests.memory,
        ) {
            Err(e) => Err(e),
            Ok(request_memory) => match memory_of(limits.memory) {
                Err(e) => Err(e),
                Ok(limit_memory) => match cpu_of(requests.cpu) {
                    Err(e) => Err(e),
                    Ok(request_cpu) => match cpu_of(limits.cpu) {
                        Err(e) => Err(e),
                        Ok(limit_cpu) => bounds_rule(
                            request_cpu,
                            limit_cpu,
                            request_memory,
                            limit_memory,
                        ),
                    },
                },
            },
        },
        _ => Err(ErrorView::ResourcesMissing),
    }
}

/// The rule on the files of a config block: each is a template source.
pub open spec fn files_rule(files: Seq<ConfigMappedFileView>) -> Result<(), ErrorView>
    decreases files.len(),
{
    if files.len() == 0 {
        Ok(())
    } else if !ends_with(files[0].name, ".j2"@) {
        Err(ErrorView::ConfigShape(ConfigFault::FileNotTemplate))
    } else {
        files_rule(files.skip(1))
    }
}

/// The rule on config blocks: the mount path is given, ends with a slash, and
/// every file is a template source.
pub open spec fn configs_rule(configs: Option<ConfigMapView>) -> Result<(), ErrorView> {
    match configs {
        None => Ok(()),
        Some(c) => if c.mount.len() == 0 || c.mount == "~"@ {
            Err(ErrorView::ConfigShape(ConfigFault::EmptyMount))
        } else if !ends_with(c.mount, "/"@) {
            Err(ErrorView::ConfigShape(ConfigFault::MountWithoutSlash))
        } else {
            files_rule(c.files)
        },
    }
}

/// `s` without the run of `c` that it begins with.
pub open spec fn strip_leading(s: Seq<char>, c: char) -> Seq<char>
    decreases s.len(),
{
    if s.len() > 0 && s[0] == c {
        strip_leading(s.skip(1), c)
    } else {
        s
    }
}

/// Every character of `s` is a digit.
pub open spec fn all_digits(s: Seq<char>) -> bool {
    forall|i: int| 0 <= i < s.len() ==> is_digit(#[trigger] s[i])
}

/// The number that the digits of `s` spell.
pub open spec fn decimal_value(s: Seq<char>) -> nat
    decreases s.len(),
{
    if s.len() == 0 {
        0
    } else {
        10 * decimal_value(s.drop_last()) + digit_value(s.last())
    }
}

/// `s` spells a number that `usize` holds: digits only, at least one, after a
/// plus sign or none.
pub open spec fn is_count(s: Seq<char>) -> bool {
    let digits = if s.len() > 0 && s[0] == '+' {
        s.skip(1)
    } else {
        s
    };
    digits.len() > 0 && all_digits(digits) && decimal_value(digits) <= usize::MAX
}

/// An API version is a number once the `v`s it begins with are taken away.
pub open spec fn is_api_version(api: Seq<char>) -> bool {
    is_count(strip_leading(api, 'v'))
}

/// The rule on one dependency: the service it names has a directory, and its
/// API version is a number.
pub open spec fn dependency_rule(d: DependencyView, repo: RepositoryView) -> Result<(), ErrorView> {
    if !has_service(repo, d.name) {
        Err(ErrorView::DependencyNotFound(d.name))
    } else {
        match d.api {
            Some(api) => if is_api_version(api) {
                Ok(())
            } else {
                Err(ErrorView::InvalidApiVersion(d.name))
            },
            None => Err(ErrorView::InvalidApiVersion(d.name)),
        }
    }
}

/// The rule on dependencies: each meets the rule on one dependency.
pub open spec fn dependencies_rule(deps: Seq<DependencyView>, repo: RepositoryView) -> Result<
    (),
    ErrorView,
>
    decreases deps.len(),
{
    if deps.len() == 0 {
        Ok(())
    } else {
        match dependency_rule(deps[0], repo) {
            Err(e) => Err(e),
            Ok(_) => dependencies_rule(deps.skip(1), repo),
        }
    }
}

/// Every region of `regions` has a defaults file.
pub open spec fn region_files_rule(regions: Seq<Seq<char>>, repo: RepositoryView) -> Result<
    (),
    ErrorView,
>
    decreases regions.len(),
{
    if regions.len() == 0 {
        Ok(())
    } else if !has_region(repo, regions[0]) {
        Err(ErrorView::RegionFileMissing(regions[0]))
    } else {
        region_files_rule(regions.skip(1), repo)
    }
}

/// The rule on regions: each has a defaults file, and there is at least one.
pub open spec fn regions_rule(regions: Seq<Seq<char>>, repo: RepositoryView) -> Result<
    (),
    ErrorView,
> {
    match region_files_rule(regions, repo) {
        Err(e) => Err(e),
        Ok(_) => if regions.len() == 0 {
            Err(ErrorView::EmptyRegionSet)
        } else {
            Ok(())
        },
    }
}

/// The pattern that an image reference must match somewhere: a component in
/// lower-case letters, after a namespace and a slash or none, before a colon
/// and a numeric tag or none.
pub open spec fn image_pattern() -> Seq<char> {
    "(?:[a-z]+/)?([a-z]+)(?::[0-9]+)?"@
}

/// The rule on one init container, given what the search for the pattern in
/// its image reference found: the pattern matched, and a command is given.
pub open spec fn init_container_rule(c: InitContainerView, found: Option<bool>) -> Result<
    (),
    ErrorView,
> {
    match found {
        None => Err(ErrorView::PatternRejected),
        Some(false) => Err(ErrorView::InitContainerInvalid(c.name, InitFault::Image)),
        Some(true) => if c.command.len() == 0 {
            Err(ErrorView::InitContainerInvalid(c.name, InitFault::Command))
        } else {
            Ok(())
        },
    }
}

/// The rule on init containers: each meets the rule on one init container.
pub open spec fn init_containers_rule(containers: Seq<InitContainerView>) -> Result<(), ErrorView>
    decreases containers.len(),
{
    if containers.len() == 0 {
        Ok(())
    } else {
        match init_container_rule(containers[0], search_of(image_pattern(), containers[0].image)) {
            Err(e) => Err(e),
            Ok(_) => init_containers_rule(containers.skip(1)),
        }
    }
}

/// The rule on health checks: one that is given names its port, its path and
/// its wait.
pub open spec fn health_rule(health: Option<HealthCheckView>) -> Result<(), ErrorView> {
    match health {
        None => Ok(()),
        Some(h) => if h.port is None {
            Err(ErrorView::HealthCheckIncomplete(HealthFault::Port))
        } else if h.uri is None {
            Err(ErrorView::HealthCheckIncomplete(HealthFault::Uri))
        } else if h.wait is None {
            Err(ErrorView::HealthCheckIncomplete(HealthFault::Wait))
        } else {
            Ok(())
        },
    }
}

/// The first error of two results, if there is one.
pub open spec fn both(first: Result<(), ErrorView>, second: Result<(), ErrorView>) -> Result<
    (),
    ErrorView,
> {
    match first {
        Err(e) => Err(e),
        Ok(_) => second,
    }
}

/// What validation says of a manifest: the first rule it breaks, in the order
/// name, resources, config block, dependencies, regions, init containers,
/// health check.
pub open spec fn verified(m: ManifestView, repo: RepositoryView) -> Result<(), ErrorView> {
    both(
        name_rule(m.name),
        both(
            resources_rule(m.resources),
            both(
                configs_rule(m.configs),
                both(
                    dependencies_rule(m.dependencies, repo),
                    both(
                        regions_rule(m.regions, repo),
                        both(init_containers_rule(m.init_containers), health_rule(m.health)),
                    ),
                ),
            ),
        ),
    )
}

/// Holds four amounts to the rule on amounts.
pub fn check_bounds(
    request_cpu: &Quantity,
    limit_cpu: &Quantity,
    request_memory: &Quantity,
    limit_memory: &Quantity,
) -> (r: Result<(), Error>)
    requires
        request_cpu.wf(),
        limit_cpu.wf(),
        request_memory.wf(),
        limit_memory.wf(),
    ensures
        outcome(r) == bounds_rule(request_cpu@, limit_cpu@, request_memory@, limit_memory@),
{
    if request_cpu.exceeds(limit_cpu) {
        Err(Error::ResourceBoundViolation(Bound::CpuRequestOverLimit))
    } else if request_memory.exceeds(limit_memory) {
        Err(Error::ResourceBoundViolation(Bound::MemoryRequestOverLimit))
    } else if request_cpu.exceeds(&Quantity::from_whole(CPU_REQUEST_CEILING)) {
        Err(Error::ResourceBoundViolation(Bound::CpuRequestCeiling))
    } else if request_memory.exceeds(&Quantity::from_whole(MEMORY_REQUEST_CEILING)) {
        Err(Error::ResourceBoundViolation(Bound::MemoryRequestCeiling))
    } else if limit_cpu.exceeds(&Quantity::from_whole(CPU_LIMIT_CEILING)) {
        Err(Error::ResourceBoundViolation(Bound::CpuLimitCeiling))
    } else if limit_memory.exceeds(&Quantity::from_whole(MEMORY_LIMIT_CEILING)) {
        Err(Error::ResourceBoundViolation(Bound::MemoryLimitCeiling))
    } else {
        Ok(())
    }
}

/// Holds the resources of a manifest to the rule on resources.
pub fn check_resources(resources: &Option<Resources>) -> (r: Result<(), Error>)
    ensures
        outcome(r) == resources_rule(resources.deep_view()),
{
    let (requests, limits) = match resources {
        Some(Resources { requests: Some(requests), limits: Some(limits) }) => (requests, limits),
        _ => {
            return Err(Error::ResourcesMissing);
        },
    };
    let request_memory: Quantity = match parse_memory(requests.memory.as_str()) {
        Err(e) => {
            return Err(e);
        },
        Ok(q) => q,
    };
    let limit_memory: Quantity = match parse_memory(limits.memory.as_str()) {
        Err(e) => {
            return Err(e);
        },
        Ok(q) => q,
    };
    let request_cpu: Quantity = match parse_cpu(requests.cpu.as_str()) {
        Err(e) => {
            return Err(e);
        },
        Ok(q) => q,
    };
    let limit_cpu: Quantity = match parse_cpu(limits.cpu.as_str()) {
        Err(e) => {
            return Err(e);
        },
        Ok(q) => q,
    };
    check_bounds(&request_cpu, &limit_cpu, &request_memory, &limit_memory)
}

/// Holds the config block of a manifest to the rule on config blocks.
#[verifier::loop_isolation(false)]
pub fn check_configs(configs: &Option<ConfigMap>) -> (r: Result<(), Error>)
    ensures
        outcome(r) == configs_rule(configs.deep_view()),
{
    let c: &ConfigMap = match configs {
        None => {
            return Ok(());
        },
        Some(c) => c,
    };
    let mount: Vec<char> = chars_of(c.mount.as_str());
    let tilde: Vec<char> = chars_of("~");
    let slash: Vec<char> = chars_of("/");
    let template: Vec<char> = chars_of(".j2");
    if mount.len() == 0 || same_text(&mount, &tilde) {
        return Err(Error::ConfigShape(ConfigFault::EmptyMount));
    }
    if !has_suffix(&mount, &slash) {
        return Err(Error::ConfigShape(ConfigFault::MountWithoutSlash));
    }
    let ghost files = c.files.deep_view();
    let mut i: usize = 0;
    assert(files.skip(0) =~= files);
    while i < c.files.len()
        invariant
            i <= files.len(),
            files == c.files.deep_view(),
            files.len() == c.files@.len(),
            template@ == ".j2"@,
            files_rule(files) == files_rule(files.skip(i as int)),
        decreases files.len() - i,
    {
        assert(files.skip(i as int)[0] == files[i as int]);
        let name: Vec<char> = chars_of(c.files[i].name.as_str());
        if !has_suffix(&name, &template) {
            return Err(Error::ConfigShape(ConfigFault::FileNotTemplate));
        }
        assert(files.skip(i as int).skip(1) =~= files.skip(i + 1));
        i = i + 1;
    }
    Ok(())
}

/// Tells whether `api` is a number once the `v`s it begins with are taken
/// away.
#[verifier::loop_isolation(false)]
pub fn api_version_is_number(api: &str) -> (r: bool)
    ensures
        r == is_api_version(api@),
{
    let chars: Vec<char> = chars_of(api);
    let mut i: usize = 0;
    assert(chars@.skip(0) =~= chars@);
    while i < chars.len() && chars[i] == 'v'
        invariant
            i <= chars@.len(),
            strip_leading(chars@, 'v') == strip_leading(chars@.skip(i as int), 'v'),
        decreases chars@.len() - i,
    {
        assert(chars@.skip(i as int).skip(1) =~= chars@.skip(i + 1));
        i = i + 1;
    }
    let ghost rest = chars@.skip(i as int);
    assert(strip_leading(chars@, 'v') == rest);
    if i < chars.len() && chars[i] == '+' {
        assert(rest.skip(1) =~= chars@.skip(i + 1));
        i = i + 1;
    }
    let ghost digits = chars@.skip(i as int);
    assert(digits == if rest.len() > 0 && rest[0] == '+' {
        rest.skip(1)
    } else {
        rest
    });
    if i >= chars.len() {
        return false;
    }
    let start: usize = i;
    let mut value: usize = 0;
    assert(digits.take(0) =~= Seq::<char>::empty());
    while i < chars.len()
        invariant
            start <= i <= chars@.len(),
            digits == chars@.skip(start as int),
            all_digits(digits.take(i - start)),
            value == decimal_value(digits.take(i - start)),
        decreases chars@.len() - i,
    {
        let c: char = chars[i];
        assert(digits[i - start] == c);
        assert(digits.take(i - start + 1).drop_last() =~= digits.take(i - start));
        if !('0' <= c && c <= '9') {
            assert(!all_digits(digits));
            return false;
        }
        let d: usize = (c as u32 - '0' as u32) as usize;
        let next: Option<usize> = match value.checked_mul(10) {
            None => None,
            Some(t) => t.checked_add(d),
        };
        match next {
            None => {
                proof {
                    lemma_decimal_value_grows(digits, i - start + 1);
                }
                return false;
            },
            Some(v) => {
                value = v;
            },
        }
        i = i + 1;
    }
    assert(digits.take(i - start) =~= digits);
    true
}

/// The number that a beginning of a run of digits spells is no greater than
/// the number that the whole run spells.
pub proof fn lemma_decimal_value_grows(s: Seq<char>, n: int)
    requires
        0 <= n <= s.len(),
    ensures
        decimal_value(s.take(n)) <= decimal_value(s),
    decreases s.len() - n,
{
    if n < s.len() {
        assert(s.take(n + 1).drop_last() =~= s.take(n));
        lemma_decimal_value_grows(s, n + 1);
    } else {
        assert(s.take(n) =~= s);
    }
}

/// Holds one dependency to its rule.
pub fn check_dependency(d: &Dependency, repo: &Repository) -> (r: Result<(), Error>)
    ensures
        outcome(r) == dependency_rule(d.deep_view(), repo.deep_view()),
{
    if repo.service(d.name.as_str()).is_none() {
        return Err(Error::DependencyNotFound(d.name.clone()));
    }
    match &d.api {
        Some(api) => if api_version_is_number(api.as_str()) {
            Ok(())
        } else {
            Err(Error::InvalidApiVersion(d.name.clone()))
        },
        None => Err(Error::InvalidApiVersion(d.name.clone())),
    }
}

/// Holds one init container to its rule, given what the search for the image
/// pattern in its image reference gave.
pub fn check_init_container(c: &InitContainer, searched: Option<bool>) -> (r: Result<(), Error>)
    ensures
        outcome(r) == init_container_rule(c.deep_view(), searched),
{
    match searched {
        None => Err(Error::PatternRejected),
        Some(false) => Err(Error::InitContainerInvalid(c.name.clone(), InitFault::Image)),
        Some(true) => if c.command.len() == 0 {
            Err(Error::InitContainerInvalid(c.name.clone(), InitFault::Command))
        } else {
            Ok(())
        },
    }
}

/// Holds the health check of a manifest to the rule on health checks.
pub fn check_health(health: &Option<HealthCheck>) -> (r: Result<(), Error>)
    ensures
        outcome(r) == health_rule(health.deep_view()),
{
    match health {
        None => Ok(()),
        Some(h) => if h.port.is_none() {
            Err(Error::HealthCheckIncomplete(HealthFault::Port))
        } else if h.uri.is_none() {
            Err(Error::HealthCheckIncomplete(HealthFault::Uri))
        } else if h.wait.is_none() {
            Err(Error::HealthCheckIncomplete(HealthFault::Wait))
        } else {
            Ok(())
        },
    }
}

impl Manifest {
    /// Validates the manifest against the descriptor set: reports the first
    /// rule that it breaks, or that it breaks none.
    #[verifier::loop_isolation(false)]
    pub fn verify(&self, repo: &Repository) -> (r: Result<(), Error>)
        ensures
            outcome(r) == verified(self.deep_view(), repo.deep_view()),
    {
        match &self.name {
            Some(n) => if n.as_str().unicode_len() == 0 {
                return Err(Error::EmptyName);
            },
            None => {
                return Err(Error::EmptyName);
            },
        }
        match check_resources(&self.resources) {
            Err(e) => {
                return Err(e);
            },
            Ok(_) => {},
        }
        match check_configs(&self.configs) {
            Err(e) => {
                return Err(e);
            },
            Ok(_) => {},
        }
        let ghost deps = self.dependencies.deep_view();
        let mut i: usize = 0;
        assert(deps.skip(0) =~= deps);
        while i < self.dependencies.len()
            invariant
                i <= deps.len(),
                deps == self.dependencies.deep_view(),
                deps.len() == self.dependencies@.len(),
                dependencies_rule(deps, repo.deep_view()) == dependencies_rule(
                    deps.skip(i as int),
                    repo.deep_view(),
                ),
            decreases deps.len() - i,
        {
            assert(deps.skip(i as int)[0] == deps[i as int]);
            match check_dependency(&self.dependencies[i], repo) {
                Err(e) => {
                    return Err(e);
                },
                Ok(_) => {},
            }
            assert(deps.skip(i as int).skip(1) =~= deps.skip(i + 1));
            i = i + 1;
        }
        let ghost regions = self.regions.deep_view();
        let mut j: usize = 0;
        assert(regions.skip(0) =~= regions);
        while j < self.regions.len()
            invariant
                j <= regions.len(),
                regions == self.regions.deep_view(),
                regions.len() == self.regions@.len(),
                region_files_rule(regions, repo.deep_view()) == region_files_rule(
                    regions.skip(j as int),
                    repo.deep_view(),
                ),
            decreases regions.len() - j,
        {
            assert(regions.skip(j as int)[0] == regions[j as int]);
            if !repo.has_region(self.regions[j].as_str()) {
                return Err(Error::RegionFileMissing(self.regions[j].clone()));
            }
            assert(regions.skip(j as int).skip(1) =~= regions.skip(j + 1));
            j = j + 1;
        }
        if self.regions.len() == 0 {
            return Err(Error::EmptyRegionSet);
        }
        let ghost containers = self.init_containers.deep_view();
        let mut k: usize = 0;
        assert(containers.skip(0) =~= containers);
        while k < self.init_containers.len()
            invariant
                k <= containers.len(),
                containers == self.init_containers.deep_view(),
                containers.len() == self.init_containers@.len(),
                init_containers_rule(containers) == init_containers_rule(containers.skip(k as int)),
            decreases containers.len() - k,
        {
            assert(containers.skip(k as int)[0] == containers[k as int]);
            let c: &InitContainer = &self.init_containers[k];
            let searched: Option<bool> = search(
                "(?:[a-z]+/)?([a-z]+)(?::[0-9]+)?",
                c.image.as_str(),
            );
            match check_init_container(c, searched) {
                Err(e) => {
                    return Err(e);
                },
                Ok(_) => {},
            }
            assert(containers.skip(k as int).skip(1) =~= containers.skip(k + 1));
            k = k + 1;
        }
        check_health(&self.health)
    }
}

/// What validating the manifest `base` for each region of `regions` in turn
/// says: the first failure of resolving it for a region, without secrets, or
/// of validating what was resolved.
pub open spec fn regions_validated(
    base: ManifestView,
    regions: Seq<Seq<char>>,
    overrides: Seq<crate::repo::RegionFileView>,
    repo: RepositoryView,
) -> Result<(), ErrorView>
    decreases regions.len(),
{
    if regions.len() == 0 {
        Ok(())
    } else {
        match resolved_manifest(
            base,
            regions[0],
            None,
            find_document(overrides, regions[0]),
            find_document(repo.environments, regions[0]),
        ) {
            Err(e) => Err(e),
            Ok(m) => match verified(m, repo) {
                Err(e) => Err(e),
                Ok(_) => regions_validated(base, regions.skip(1), overrides, repo),
            },
        }
    }
}

/// What validating the service `service` says: that it has no directory or no
/// readable descriptor, or what validating its descriptor for each of its
/// regions says.
pub open spec fn validated(service: Seq<char>, repo: RepositoryView) -> Result<(), ErrorView> {
    match find_service(repo.services, service) {
        None => Err(ErrorView::ServiceNotFound(service)),
        Some(dir) => match dir.descriptor {
            DocumentView::Missing => Err(ErrorView::DescriptorMissing(service)),
            DocumentView::Malformed => Err(ErrorView::DescriptorParse(crate::error::Layer::Base)),
            DocumentView::Parsed(m) => regions_validated(
                named(m, service),
                m.regions,
                dir.overrides,
                repo,
            ),
        },
    }
}

/// Validates the service `service` for every region that its descriptor names:
/// resolves it for the region, without secrets, and validates what was
/// resolved. The first failure ends it.
#[verifier::loop_isolation(false)]
pub fn validate(service: &str, repo: &Repository) -> (r: Result<(), Error>)
    requires
        repo.wf(),
    ensures
        outcome(r) == validated(service@, repo.deep_view()),
{
    let dir: &Service = match repo.service(service) {
        None => {
            return Err(Error::ServiceNotFound(String::from_str(service)));
        },
        Some(dir) => dir,
    };
    let mf: Manifest = match base_manifest(dir) {
        Err(e) => {
            return Err(e);
        },
        Ok(mf) => mf,
    };
    let missing: Document = Document::Missing;
    let ghost regions = mf.regions.deep_view();
    let ghost base = mf.deep_view();
    let ghost overrides = dir.deep_view().overrides;
    let mut i: usize = 0;
    assert(regions.skip(0) =~= regions);
    while i < mf.regions.len()
        invariant
            i <= regions.len(),
            regions == mf.regions.deep_view(),
            regions.len() == mf.regions@.len(),
            base == mf.deep_view(),
            overrides == dir.deep_view().overrides,
            mf.wf(),
            dir.wf(),
            repo.wf(),
            missing.deep_view() == DocumentView::Missing,
            missing.wf(),
            regions_validated(base, regions, overrides, repo.deep_view()) == regions_validated(
                base,
                regions.skip(i as int),
                overrides,
                repo.deep_view(),
            ),
        decreases regions.len() - i,
    {
        assert(regions.skip(i as int)[0] == regions[i as int]);
        let region: &str = mf.regions[i].as_str();
        let mut mfr: Manifest = mf.clone();
        let local: &Document = match lookup_file(&dir.overrides, region) {
            Some(d) => d,
            None => &missing,
        };
        let global: &Document = match lookup_file(&repo.environments, region) {
            Some(d) => d,
            None => &missing,
        };
        match mfr.fill(region, None, local, global) {
            Err(e) => {
                return Err(e);
            },
            Ok(_) => {},
        }
        match mfr.verify(repo) {
            Err(e) => {
                return Err(e);
            },
            Ok(_) => {},
        }
        assert(regions.skip(i as int).skip(1) =~= regions.skip(i + 1));
        i = i + 1;
    }
    Ok(())
}

} // verus!
