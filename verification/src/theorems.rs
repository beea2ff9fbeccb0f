//! What holds of resolution and validation as a whole, proved from the
//! definitions that the contracts of the library use.

use vstd::prelude::*;
use crate::env::{as_map, filled, lemma_filled, lemma_sorted_vars, sorted, EnvVarView};
use crate::error::{Error, ErrorView};
use crate::manifest::{implicit_dependencies, merged, resolved_env, resolved_manifest, stamped,
    wanted_paths, with_implicits, with_layer, DocumentView, Manifest, ManifestView};
use crate::secret::{lookup, placeholder_of, secret_path, SecretView};
use crate::quantity::{at_most, cpu_of, lemma_pow10_adds, lemma_pow10_positive, memory_of, pow10,
    whole, Amount};
use crate::repo::{completed_manifest, find_document, find_service, has_region, manifest_outcome,
    named, RegionFileView, RepositoryView};
use crate::validate::{configs_rule, dependencies_rule, files_rule, health_rule,
    init_containers_rule, name_rule,
    region_files_rule, regions_validated, resources_rule, validated, verified};
use crate::structs::{ConfigMappedFileView, DependencyView};

verus! {

/// The environment of a descriptor, where the document holds one, is in order.
pub open spec fn document_sorted(document: DocumentView) -> bool {
    match document {
        DocumentView::Parsed(m) => sorted(m.env),
        _ => true,
    }
}

/// The variables that a document brings: those of the descriptor it holds, or
/// none.
pub open spec fn document_env(document: DocumentView) -> Map<Seq<char>, Seq<char>> {
    match document {
        DocumentView::Parsed(m) => as_map(m.env),
        _ => Map::empty(),
    }
}

/// Merging never overwrites: a variable that the base has keeps its value, a
/// variable that only the layer has takes the layer's value, and no other
/// variable appears.
pub proof fn merge_precedence(base: ManifestView, layer: ManifestView, key: Seq<char>)
    requires
        sorted(base.env),
        sorted(layer.env),
    ensures
        sorted(merged(base, layer).env),
        as_map(base.env).dom().contains(key) ==> as_map(merged(base, layer).env).dom().contains(key)
            && as_map(merged(base, layer).env)[key] == as_map(base.env)[key],
        !as_map(base.env).dom().contains(key) && as_map(layer.env).dom().contains(key) ==> as_map(
            merged(base, layer).env,
        ).dom().contains(key) && as_map(merged(base, layer).env)[key] == as_map(layer.env)[key],
        !as_map(base.env).dom().contains(key) && !as_map(layer.env).dom().contains(key) ==> !as_map(
            merged(base, layer).env,
        ).dom().contains(key),
{
    lemma_filled(base.env, layer.env);
}

/// Merging the same layer a second time changes nothing.
pub proof fn merge_is_idempotent(base: ManifestView, layer: ManifestView)
    requires
        sorted(base.env),
        sorted(layer.env),
    ensures
        merged(merged(base, layer), layer) == merged(base, layer),
{
    lemma_filled(base.env, layer.env);
    let once = merged(base, layer);
    lemma_filled(once.env, layer.env);
    assert(as_map(filled(once.env, layer.env)) =~= as_map(once.env));
    lemma_sorted_vars(once.env);
    assert(filled(once.env, layer.env) == once.env);
    let twice = merged(once, layer);
    assert(twice.image == once.image);
    assert(twice.health == once.health);
}

/// Implicit defaults give a manifest that exposes ports a health check with a
/// port: the port it names, or else the first exposed port.
pub proof fn implicit_health_port(m: ManifestView)
    requires
        m.name is Some,
        m.ports.len() > 0,
    ensures
        with_implicits(m) is Ok,
        with_implicits(m)->Ok_0.health is Some,
        with_implicits(m)->Ok_0.health->0.port == Some(
            if m.health is Some && m.health->0.port is Some {
                m.health->0.port->0
            } else {
                m.ports[0]
            },
        ),
{
}

/// Adding the implicit defaults a second time changes nothing.
pub proof fn implicits_are_idempotent(m: ManifestView)
    requires
        with_implicits(m) is Ok,
    ensures
        with_implicits(with_implicits(m)->Ok_0) == with_implicits(m),
{
    let once = with_implicits(m)->Ok_0;
    assert(implicit_dependencies(once.dependencies) =~= once.dependencies);
}

/// A manifest that passes validation has requests and limits that can be read,
/// requests no more than it limits, and stays under the ceilings: ten cores
/// and ten binary gigabytes requested, twenty of each as limits.
pub proof fn verified_resources_are_bounded(m: ManifestView, repo: RepositoryView)
    requires
        verified(m, repo) is Ok,
    ensures
        m.resources is Some,
        m.resources->0.requests is Some,
        m.resources->0.limits is Some,
        cpu_of(m.resources->0.requests->0.cpu) is Ok,
        cpu_of(m.resources->0.limits->0.cpu) is Ok,
        memory_of(m.resources->0.requests->0.memory) is Ok,
        memory_of(m.resources->0.limits->0.memory) is Ok,
        ({
            let request_cpu = cpu_of(m.resources->0.requests->0.cpu)->Ok_0;
            let limit_cpu = cpu_of(m.resources->0.limits->0.cpu)->Ok_0;
            let request_memory = memory_of(m.resources->0.requests->0.memory)->Ok_0;
            let limit_memory = memory_of(m.resources->0.limits->0.memory)->Ok_0;
            &&& at_most(request_cpu, limit_cpu)
            &&& at_most(request_memory, limit_memory)
            &&& at_most(request_cpu, whole(10))
            &&& at_most(limit_cpu, whole(20))
            &&& at_most(request_memory, whole(10 * 1024 * 1024 * 1024))
            &&& at_most(limit_memory, whole(20 * 1024 * 1024 * 1024))
        }),
{
}

/// A manifest that names a region without a defaults file does not pass
/// validation.
pub proof fn region_without_file_fails(m: ManifestView, repo: RepositoryView, i: int)
    requires
        0 <= i < m.regions.len(),
        !has_region(repo, m.regions[i]),
    ensures
        verified(m, repo) is Err,
{
    lemma_region_files_rule_fails(m.regions, repo, i);
}

/// Where the rules before the one on regions are met, the first region
/// without a defaults file is the one that validation reports.
pub proof fn first_region_without_file_is_reported(m: ManifestView, repo: RepositoryView, i: int)
    requires
        name_rule(m.name) is Ok,
        resources_rule(m.resources) is Ok,
        configs_rule(m.configs) is Ok,
        dependencies_rule(m.dependencies, repo) is Ok,
        0 <= i < m.regions.len(),
        !has_region(repo, m.regions[i]),
        forall|j: int| 0 <= j < i ==> has_region(repo, #[trigger] m.regions[j]),
    ensures
        verified(m, repo) == Err::<(), ErrorView>(ErrorView::RegionFileMissing(m.regions[i])),
{
    lemma_region_files_rule_first(m.regions, repo, i);
}

proof fn lemma_region_files_rule_fails(regions: Seq<Seq<char>>, repo: RepositoryView, i: int)
    requires
        0 <= i < regions.len(),
        !has_region(repo, regions[i]),
    ensures
        region_files_rule(regions, repo) is Err,
    decreases regions.len(),
{
    if i > 0 && has_region(repo, regions[0]) {
        lemma_region_files_rule_fails(regions.skip(1), repo, i - 1);
    }
}

proof fn lemma_region_files_rule_first(regions: Seq<Seq<char>>, repo: RepositoryView, i: int)
    requires
        0 <= i < regions.len(),
        !has_region(repo, regions[i]),
        forall|j: int| 0 <= j < i ==> has_region(repo, #[trigger] regions[j]),
    ensures
        region_files_rule(regions, repo) == Err::<(), ErrorView>(
            ErrorView::RegionFileMissing(regions[i]),
        ),
    decreases regions.len(),
{
    if i > 0 {
        assert(has_region(repo, regions[0]));
        let rest = regions.skip(1);
        assert forall|j: int| 0 <= j < i - 1 implies has_region(repo, #[trigger] rest[j]) by {
            assert(rest[j] == regions[j + 1]);
        }
        lemma_region_files_rule_first(rest, repo, i - 1);
    }
}

/// Resolution without secrets gives each variable the value of the first of
/// the service's descriptor, its override for the region and the region's
/// defaults that has one.
pub proof fn resolution_precedence(
    m: ManifestView,
    region: Seq<char>,
    local: DocumentView,
    global: DocumentView,
    key: Seq<char>,
)
    requires
        sorted(m.env),
        document_sorted(local),
        document_sorted(global),
        resolved_manifest(m, region, None, local, global) is Ok,
    ensures
        ({
            let env = as_map(resolved_manifest(m, region, None, local, global)->Ok_0.env);
            let own = as_map(m.env);
            let over = document_env(local);
            let defaults = document_env(global);
            &&& env.dom().contains(key) <==> own.dom().contains(key) || over.dom().contains(key)
                || defaults.dom().contains(key)
            &&& own.dom().contains(key) ==> env[key] == own[key]
            &&& !own.dom().contains(key) && over.dom().contains(key) ==> env[key] == over[key]
            &&& !own.dom().contains(key) && !over.dom().contains(key) && defaults.dom().contains(
                key,
            ) ==> env[key] == defaults[key]
        }),
{
    let a = with_implicits(m)->Ok_0;
    assert(a.env == m.env);
    let b = with_layer(a, local, crate::error::Layer::Local)->Ok_0;
    match local {
        DocumentView::Parsed(l) => {
            lemma_filled(a.env, l.env);
        },
        _ => {},
    }
    let c = with_layer(b, global, crate::error::Layer::Global)->Ok_0;
    match global {
        DocumentView::Parsed(g) => {
            lemma_filled(b.env, g.env);
        },
        _ => {},
    }
}

/// Resolving a resolved manifest once more, for the same region and with the
/// same layers, gives the same manifest: nothing piles up.
pub proof fn resolution_is_idempotent(
    m: ManifestView,
    region: Seq<char>,
    local: DocumentView,
    global: DocumentView,
)
    requires
        sorted(m.env),
        document_sorted(local),
        document_sorted(global),
        resolved_manifest(m, region, None, local, global) is Ok,
    ensures
        resolved_manifest(
            resolved_manifest(m, region, None, local, global)->Ok_0,
            region,
            None,
            local,
            global,
        ) == resolved_manifest(m, region, None, local, global),
{
    let a = with_implicits(m)->Ok_0;
    let b = with_layer(a, local, crate::error::Layer::Local)->Ok_0;
    let c = with_layer(b, global, crate::error::Layer::Global)->Ok_0;
    let d = stamped(c, region)->Ok_0;
    assert(resolved_manifest(m, region, None, local, global) == Ok::<ManifestView, ErrorView>(d));
    // The layers keep the order of the environment.
    assert(sorted(b.env) && sorted(c.env)) by {
        match local {
            DocumentView::Parsed(l) => {
                lemma_filled(a.env, l.env);
            },
            _ => {},
        }
        match global {
            DocumentView::Parsed(g) => {
                lemma_filled(b.env, g.env);
            },
            _ => {},
        }
    }
    // Second round.
    let a2 = with_implicits(d)->Ok_0;
    assert(implicit_dependencies(d.dependencies) =~= d.dependencies);
    assert(a2.image == d.image);
    assert(a2.configs == d.configs);
    assert(a2.health == d.health);
    assert(a2 == d);
    let b2 = with_layer(a2, local, crate::error::Layer::Local)->Ok_0;
    assert(b2 == d) by {
        match local {
            DocumentView::Parsed(l) => {
                lemma_filled(a.env, l.env);
                lemma_filled(d.env, l.env);
                match global {
                    DocumentView::Parsed(g) => {
                        lemma_filled(b.env, g.env);
                    },
                    _ => {},
                }
                assert(as_map(filled(d.env, l.env)) =~= as_map(d.env));
                lemma_sorted_vars(d.env);
                let again = merged(d, l);
                assert(again.env == d.env);
                assert(again.image == d.image);
                assert(again.health == d.health);
                assert(again.resources == d.resources);
                assert(again.volume_mounts == d.volume_mounts);
                assert(again.init_containers == d.init_containers);
                assert(again.replicas == d.replicas);
                assert(again.volumes == d.volumes);
            },
            _ => {},
        }
    }
    let c2 = with_layer(b2, global, crate::error::Layer::Global)->Ok_0;
    assert(c2 == d) by {
        match global {
            DocumentView::Parsed(g) => {
                lemma_filled(b.env, g.env);
                lemma_filled(d.env, g.env);
                assert(as_map(filled(d.env, g.env)) =~= as_map(d.env));
                lemma_sorted_vars(d.env);
                let again = merged(d, g);
                assert(again.env == d.env);
                assert(again.image == d.image);
                assert(again.health == d.health);
                assert(again.resources == d.resources);
                assert(again.volume_mounts == d.volume_mounts);
                assert(again.init_containers == d.init_containers);
                assert(again.replicas == d.replicas);
                assert(again.volumes == d.volumes);
            },
            _ => {},
        }
    }
    assert(stamped(d, region) == Ok::<ManifestView, ErrorView>(d));
}

/// Resolving twice from the same descriptor set gives the same: what comes
/// out depends on the region, the service, the secrets and the set alone.
pub proof fn resolution_is_repeatable(
    first: Result<Manifest, Error>,
    second: Result<Manifest, Error>,
    region: Seq<char>,
    service: Seq<char>,
    secrets: Option<Seq<SecretView>>,
    repo: RepositoryView,
)
    requires
        manifest_outcome(first) == completed_manifest(region, service, secrets, repo),
        manifest_outcome(second) == completed_manifest(region, service, secrets, repo),
    ensures
        manifest_outcome(first) == manifest_outcome(second),
{
}

/// A store that holds every path that the variables ask for leaves resolution
/// only one way to fail: a reference to a cluster secret that names no key.
pub proof fn fetched_secrets_suffice(
    vars: Seq<EnvVarView>,
    region: Seq<char>,
    service: Seq<char>,
    secrets: Seq<SecretView>,
)
    requires
        forall|i: int|
            0 <= i < wanted_paths(vars, region, service).len() ==> lookup(
                secrets,
                #[trigger] wanted_paths(vars, region, service)[i],
            ) is Some,
    ensures
        resolved_env(vars, region, service, secrets) is Err ==> resolved_env(
            vars,
            region,
            service,
            secrets,
        )->Err_0 is InvalidSecretPath,
    decreases vars.len(),
{
    if vars.len() > 0 {
        let head = vars.drop_last();
        let all = wanted_paths(vars, region, service);
        let before = wanted_paths(head, region, service);
        assert forall|i: int| 0 <= i < before.len() implies lookup(secrets, #[trigger] before[i])
            is Some by {
            assert(before[i] == all[i]);
        }
        fetched_secrets_suffice(head, region, service, secrets);
        if placeholder_of(vars.last().value) is VaultRef {
            assert(all[all.len() - 1] == secret_path(region, service, vars.last().key));
        }
    }
}

/// Of two amounts one is no more than the other.
pub proof fn amounts_are_comparable(a: Amount, b: Amount)
    ensures
        at_most(a, b) || at_most(b, a),
{
}

/// An amount that is no more than a second, which is no more than a third, is
/// no more than the third.
pub proof fn at_most_is_transitive(a: Amount, b: Amount, c: Amount)
    requires
        at_most(a, b),
        at_most(b, c),
    ensures
        at_most(a, c),
{
    let pa = pow10(a.places);
    let pb = pow10(b.places);
    let pc = pow10(c.places);
    lemma_pow10_positive(b.places);
    assert(a.numerator * pc <= c.numerator * pa) by (nonlinear_arith)
        requires
            a.numerator * pb <= b.numerator * pa,
            b.numerator * pc <= c.numerator * pb,
            pb >= 1,
    ;
}

/// The same number written with more places is the same amount: neither is
/// more than the other.
pub proof fn trailing_zeros_do_not_count(a: Amount, extra: nat)
    ensures
        at_most(a, Amount { numerator: a.numerator * pow10(extra), places: a.places + extra }),
        at_most(Amount { numerator: a.numerator * pow10(extra), places: a.places + extra }, a),
{
    lemma_pow10_adds(a.places, extra);
    let n = a.numerator;
    let p = pow10(a.places);
    let e = pow10(extra);
    assert(n * (p * e) == (n * e) * p) by (nonlinear_arith);
}

/// What resolution gives carries the implicit defaults: the image has a name,
/// a config block has one, every dependency has an API version, and where the
/// manifest exposes a port the health check has one.
pub proof fn resolved_carries_implicits(
    m: ManifestView,
    region: Seq<char>,
    secrets: Option<Seq<SecretView>>,
    local: DocumentView,
    global: DocumentView,
)
    requires
        resolved_manifest(m, region, secrets, local, global) is Ok,
    ensures
        ({
            let r = resolved_manifest(m, region, secrets, local, global)->Ok_0;
            &&& r.image is Some && r.image->0.name is Some
            &&& r.configs is Some ==> r.configs->0.name is Some
            &&& r.dependencies.len() == m.dependencies.len()
            &&& forall|i: int| 0 <= i < r.dependencies.len() ==> (#[trigger] r.dependencies[i]).api is Some
            &&& m.ports.len() > 0 ==> r.health is Some && r.health->0.port is Some
            &&& r.ports == m.ports
        }),
{
}

/// A service that passes validation resolves and verifies for each region of
/// its descriptor.
pub proof fn validated_service_verifies_everywhere(
    service: Seq<char>,
    repo: RepositoryView,
    i: int,
)
    requires
        validated(service, repo) is Ok,
        find_service(repo.services, service) is Some,
        find_service(repo.services, service)->0.descriptor is Parsed,
        0 <= i < find_service(repo.services, service)->0.descriptor->Parsed_0.regions.len(),
    ensures
        ({
            let region = find_service(repo.services, service)->0.descriptor->Parsed_0.regions[i];
            &&& completed_manifest(region, service, None, repo) is Ok
            &&& verified(completed_manifest(region, service, None, repo)->Ok_0, repo) is Ok
        }),
{
    let dir = find_service(repo.services, service)->0;
    let m = dir.descriptor->Parsed_0;
    lemma_regions_validated(named(m, service), m.regions, dir.overrides, repo, i);
}

proof fn lemma_regions_validated(
    base: ManifestView,
    regions: Seq<Seq<char>>,
    overrides: Seq<RegionFileView>,
    repo: RepositoryView,
    i: int,
)
    requires
        regions_validated(base, regions, overrides, repo) is Ok,
        0 <= i < regions.len(),
    ensures
        ({
            let resolved = resolved_manifest(
                base,
                regions[i],
                None,
                find_document(overrides, regions[i]),
                find_document(repo.environments, regions[i]),
            );
            resolved is Ok && verified(resolved->Ok_0, repo) is Ok
        }),
    decreases regions.len(),
{
    if i > 0 {
        lemma_regions_validated(base, regions.skip(1), overrides, repo, i - 1);
    }
}

/// The descriptor set with one more defaults file, which is found before the
/// others.
pub open spec fn with_region_file(repo: RepositoryView, region: Seq<char>, document: DocumentView) -> RepositoryView {
    RepositoryView {
        services: repo.services,
        environments: seq![RegionFileView { region, document }] + repo.environments,
    }
}

/// A manifest that fails validation only for want of the defaults file of one
/// region passes once that file is added.
pub proof fn adding_region_file_mends(
    m: ManifestView,
    repo: RepositoryView,
    region: Seq<char>,
    document: DocumentView,
)
    requires
        verified(m, repo) == Err::<(), ErrorView>(ErrorView::RegionFileMissing(region)),
        !(document is Missing),
        forall|i: int|
            0 <= i < m.regions.len() && m.regions[i] != region ==> has_region(
                repo,
                #[trigger] m.regions[i],
            ),
        init_containers_rule(m.init_containers) is Ok,
        health_rule(m.health) is Ok,
    ensures
        verified(m, with_region_file(repo, region, document)) is Ok,
{
    let more = with_region_file(repo, region, document);
    lemma_dependencies_rule_reads_services(m.dependencies, repo, more);
    assert forall|r: Seq<char>| has_region(more, r) == (r == region || has_region(repo, r)) by {
        assert(more.environments.skip(1) =~= repo.environments);
    }
    assert forall|i: int| 0 <= i < m.regions.len() implies has_region(more, #[trigger] m.regions[i]) by {
        if m.regions[i] != region {
            assert(has_region(repo, m.regions[i]));
        }
    }
    lemma_region_files_rule_holds(m.regions, more);
    if m.configs is Some {
        lemma_files_rule_errors(m.configs->0.files);
    }
    lemma_dependencies_rule_errors(m.dependencies, repo);
}

proof fn lemma_dependencies_rule_reads_services(
    deps: Seq<DependencyView>,
    one: RepositoryView,
    other: RepositoryView,
)
    requires
        one.services == other.services,
    ensures
        dependencies_rule(deps, one) == dependencies_rule(deps, other),
    decreases deps.len(),
{
    if deps.len() > 0 {
        lemma_dependencies_rule_reads_services(deps.skip(1), one, other);
    }
}

proof fn lemma_files_rule_errors(files: Seq<ConfigMappedFileView>)
    ensures
        files_rule(files) is Err ==> files_rule(files)->Err_0 is ConfigShape,
    decreases files.len(),
{
    if files.len() > 0 {
        lemma_files_rule_errors(files.skip(1));
    }
}

proof fn lemma_dependencies_rule_errors(deps: Seq<DependencyView>, repo: RepositoryView)
    ensures
        dependencies_rule(deps, repo) is Err ==> dependencies_rule(deps, repo)->Err_0
            is DependencyNotFound || dependencies_rule(deps, repo)->Err_0 is InvalidApiVersion,
    decreases deps.len(),
{
    if deps.len() > 0 {
        lemma_dependencies_rule_errors(deps.skip(1), repo);
    }
}

proof fn lemma_region_files_rule_holds(regions: Seq<Seq<char>>, repo: RepositoryView)
    requires
        forall|i: int| 0 <= i < regions.len() ==> has_region(repo, #[trigger] regions[i]),
    ensures
        region_files_rule(regions, repo) is Ok,
    decreases regions.len(),
{
    if regions.len() > 0 {
        assert(has_region(repo, regions[0]));
        let rest = regions.skip(1);
        assert forall|i: int| 0 <= i < rest.len() implies has_region(repo, #[trigger] rest[i]) by {
            assert(rest[i] == regions[i + 1]);
        }
        lemma_region_files_rule_holds(rest, repo);
    }
}

} // verus!
