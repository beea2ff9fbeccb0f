//! The descriptor set: what the directories `services` and `environments`
//! hold, as far as resolution and validation read it.

use vstd::prelude::*;
use vstd::string::StringExecFns;
use crate::error::{Error, ErrorView, Layer};
use crate::manifest::{Document, DocumentView, Manifest, ManifestView, resolved_manifest};
use crate::secret::{SecretView, Vault};

verus! {

/// A file named after a region: a service's override for the region, or the
/// region's defaults.
#[derive(Debug)]
pub struct RegionFile {
    /// The region the file is named after.
    pub region: String,
    /// What the file holds.
    pub document: Document,
}

pub struct RegionFileView {
    pub region: Seq<char>,
    pub document: DocumentView,
}

impl DeepView for RegionFile {
    type V = RegionFileView;

    open spec fn deep_view(&self) -> RegionFileView {
        RegionFileView { region: self.region@, document: self.document.deep_view() }
    }
}

impl Clone for RegionFile {
    fn clone(&self) -> (r: Self)
        ensures
            r.deep_view() == self.deep_view(),
    {
        RegionFile { region: self.region.clone(), document: self.document.clone() }
    }
}

/// The directory of one service.
#[derive(Debug)]
pub struct Service {
    /// The name of the directory, which is the service's name.
    pub name: String,
    /// The service's descriptor.
    pub descriptor: Document,
    /// The service's overrides, one file per region.
    pub overrides: Vec<RegionFile>,
}

pub struct ServiceView {
    pub name: Seq<char>,
    pub descriptor: DocumentView,
    pub overrides: Seq<RegionFileView>,
}

impl DeepView for Service {
    type V = ServiceView;

    open spec fn deep_view(&self) -> ServiceView {
        ServiceView {
            name: self.name@,
            descriptor: self.descriptor.deep_view(),
            overrides: self.overrides.deep_view(),
        }
    }
}

impl Clone for Service {
    fn clone(&self) -> (r: Self)
        ensures
            r.deep_view() == self.deep_view(),
    {
        let r = Service {
            name: self.name.clone(),
            descriptor: self.descriptor.clone(),
            overrides: self.overrides.clone(),
        };
        assert(r.overrides.deep_view() =~= self.overrides.deep_view());
        r
    }
}

/// The descriptor set.
#[derive(Debug)]
pub struct Repository {
    /// The directories under `services`.
    pub services: Vec<Service>,
    /// The files under `environments`, one per region.
    pub environments: Vec<RegionFile>,
}

pub struct RepositoryView {
    pub services: Seq<ServiceView>,
    pub environments: Seq<RegionFileView>,
}

impl DeepView for Repository {
    type V = RepositoryView;

    open spec fn deep_view(&self) -> RepositoryView {
        RepositoryView {
            services: self.services.deep_view(),
            environments: self.environments.deep_view(),
        }
    }
}

impl Clone for Repository {
    fn clone(&self) -> (r: Self)
        ensures
            r.deep_view() == self.deep_view(),
    {
        let r = Repository {
            services: self.services.clone(),
            environments: self.environments.clone(),
        };
        assert(r.services.deep_view() =~= self.services.deep_view());
        assert(r.environments.deep_view() =~= self.environments.deep_view());
        r
    }
}

/// The first directory of `services` with the name `name`.
pub open spec fn find_service(services: Seq<ServiceView>, name: Seq<char>) -> Option<ServiceView>
    decreases services.len(),
{
    if services.len() == 0 {
        None
    } else if services[0].name == name {
        Some(services[0])
    } else {
        find_service(services.skip(1), name)
    }
}

/// What the first file of `files` named after `region` holds; where there is
/// none, the file is missing.
pub open spec fn find_document(files: Seq<RegionFileView>, region: Seq<char>) -> DocumentView
    decreases files.len(),
{
    if files.len() == 0 {
        DocumentView::Missing
    } else if files[0].region == region {
        files[0].document
    } else {
        find_document(files.skip(1), region)
    }
}

/// A service of this name has a directory.
pub open spec fn has_service(repo: RepositoryView, name: Seq<char>) -> bool {
    find_service(repo.services, name) is Some
}

/// The region has a defaults file.
pub open spec fn has_region(repo: RepositoryView, region: Seq<char>) -> bool {
    !(find_document(repo.environments, region) is Missing)
}

/// Every descriptor of `files` has its environment in order.
pub open spec fn files_wf(files: Seq<RegionFile>) -> bool {
    forall|i: int| 0 <= i < files.len() ==> (#[trigger] files[i]).document.wf()
}

/// The document that a search found, or the missing one.
pub open spec fn document_of(found: Option<&Document>) -> DocumentView {
    match found {
        Some(d) => d.deep_view(),
        None => DocumentView::Missing,
    }
}

/// Looks for the file named after `region`.
pub fn lookup_file<'a>(files: &'a Vec<RegionFile>, region: &str) -> (r: Option<&'a Document>)
    ensures
        document_of(r) == find_document(files.deep_view(), region@),
        files_wf(files@) && r is Some ==> r->0.wf(),
{
    let wanted: String = String::from_str(region);
    let ghost all = files.deep_view();
    let mut i: usize = 0;
    assert(all.skip(0) =~= all);
    while i < files.len()
        invariant
            i <= all.len(),
            all == files.deep_view(),
            all.len() == files@.len(),
            wanted@ == region@,
            find_document(all, region@) == find_document(all.skip(i as int), region@),
        decreases all.len() - i,
    {
        assert(all.skip(i as int)[0] == all[i as int]);
        if files[i].region == wanted {
            return Some(&files[i].document);
        }
        assert(all.skip(i as int).skip(1) =~= all.skip(i + 1));
        i = i + 1;
    }
    None
}

/// Tells whether every descriptor of `files` has its environment in order.
pub fn files_in_order(files: &Vec<RegionFile>) -> (r: bool)
    ensures
        r == files_wf(files@),
{
    let mut i: usize = 0;
    while i < files.len()
        invariant
            i <= files@.len(),
            forall|k: int| 0 <= k < i ==> (#[trigger] files@[k]).document.wf(),
        decreases files@.len() - i,
    {
        if !files[i].document.in_order() {
            return false;
        }
        i = i + 1;
    }
    true
}

impl Service {
    /// Every descriptor of the directory has its environment in order.
    pub open spec fn wf(&self) -> bool {
        self.descriptor.wf() && files_wf(self.overrides@)
    }

    /// Tells whether every descriptor of the directory has its environment in
    /// order.
    pub fn in_order(&self) -> (r: bool)
        ensures
            r == self.wf(),
    {
        self.descriptor.in_order() && files_in_order(&self.overrides)
    }
}

impl Repository {
    /// Every descriptor of the set has its environment in order.
    pub open spec fn wf(&self) -> bool {
        &&& forall|i: int| 0 <= i < self.services@.len() ==> (#[trigger] self.services@[i]).wf()
        &&& files_wf(self.environments@)
    }

    /// Tells whether every descriptor of the set has its environment in order.
    pub fn in_order(&self) -> (r: bool)
        ensures
            r == self.wf(),
    {
        let mut i: usize = 0;
        while i < self.services.len()
            invariant
                i <= self.services@.len(),
                forall|k: int| 0 <= k < i ==> (#[trigger] self.services@[k]).wf(),
            decreases self.services@.len() - i,
        {
            if !self.services[i].in_order() {
                return false;
            }
            i = i + 1;
        }
        files_in_order(&self.environments)
    }

    /// A descriptor set that holds nothing.
    pub fn new() -> (r: Self)
        ensures
            r.deep_view().services.len() == 0,
            r.deep_view().environments.len() == 0,
            r.wf(),
    {
        Repository { services: Vec::new(), environments: Vec::new() }
    }

    /// Looks for the directory of the service `name`.
    pub fn service(&self, name: &str) -> (r: Option<&Service>)
        ensures
            r.deep_view() == find_service(self.deep_view().services, name@),
            r is Some ==> r->0.name@ == name@,
            self.wf() && r is Some ==> r->0.wf(),
    {
        let wanted: String = String::from_str(name);
        let ghost all = self.services.deep_view();
        let mut i: usize = 0;
        assert(all.skip(0) =~= all);
        while i < self.services.len()
            invariant
                i <= all.len(),
                all == self.services.deep_view(),
                all.len() == self.services@.len(),
                wanted@ == name@,
                find_service(all, name@) == find_service(all.skip(i as int), name@),
            decreases all.len() - i,
        {
            assert(all.skip(i as int)[0] == all[i as int]);
            if self.services[i].name == wanted {
                return Some(&self.services[i]);
            }
            assert(all.skip(i as int).skip(1) =~= all.skip(i + 1));
            i = i + 1;
        }
        None
    }

    /// Tells whether the region has a defaults file.
    pub fn has_region(&self, region: &str) -> (r: bool)
        ensures
            r == has_region(self.deep_view(), region@),
    {
        match lookup_file(&self.environments, region) {
            None => false,
            Some(Document::Missing) => false,
            Some(_) => true,
        }
    }
}

/// The descriptor with the name of its directory where it names none itself.
pub open spec fn named(m: ManifestView, service: Seq<char>) -> ManifestView {
    ManifestView {
        name: Some(
            match m.name {
                Some(n) => n,
                None => service,
            },
        ),
        ..m
    }
}

/// The manifest of `service` resolved for `region` from the descriptor set.
pub open spec fn completed_manifest(
    region: Seq<char>,
    service: Seq<char>,
    secrets: Option<Seq<SecretView>>,
    repo: RepositoryView,
) -> Result<ManifestView, ErrorView> {
    match find_service(repo.services, service) {
        None => Err(ErrorView::ServiceNotFound(service)),
        Some(dir) => match dir.descriptor {
            DocumentView::Missing => Err(ErrorView::DescriptorMissing(service)),
            DocumentView::Malformed => Err(ErrorView::DescriptorParse(Layer::Base)),
            DocumentView::Parsed(m) => resolved_manifest(
                named(m, service),
                region,
                secrets,
                find_document(dir.overrides, region),
                find_document(repo.environments, region),
            ),
        },
    }
}

/// A result that holds a manifest, with the manifest and the error taken by
/// their views.
pub open spec fn manifest_outcome(r: Result<Manifest, Error>) -> Result<ManifestView, ErrorView> {
    match r {
        Ok(m) => Ok(m.deep_view()),
        Err(e) => Err(e@),
    }
}

/// The descriptor of `dir` as a manifest of its own, named after the directory
/// where it names no service.
pub fn base_manifest(dir: &Service) -> (r: Result<Manifest, Error>)
    ensures
        manifest_outcome(r) == match dir.deep_view().descriptor {
            DocumentView::Missing => Err(ErrorView::DescriptorMissing(dir.deep_view().name)),
            DocumentView::Malformed => Err(ErrorView::DescriptorParse(Layer::Base)),
            DocumentView::Parsed(m) => Ok(named(m, dir.deep_view().name)),
        },
        dir.wf() && r is Ok ==> r->Ok_0.wf(),
{
    match &dir.descriptor {
        Document::Missing => Err(Error::DescriptorMissing(dir.name.clone())),
        Document::Malformed => Err(Error::DescriptorParse(Layer::Base)),
        Document::Parsed(m) => {
            let mut own: Manifest = m.clone();
            if own.name.is_none() {
                own.name = Some(dir.name.clone());
            }
            Ok(own)
        },
    }
}

impl Manifest {
    /// Resolves the manifest of `service` for `region`: finds its descriptor in
    /// the set, names it after its directory where it names no service, and
    /// resolves it with the overrides that the set holds for the region.
    pub fn completed(region: &str, service: &str, vault: Option<&Vault>, repo: &Repository) -> (r:
        Result<Manifest, Error>)
        requires
            repo.wf(),
        ensures
            manifest_outcome(r) == completed_manifest(
                region@,
                service@,
                vault.deep_view(),
                repo.deep_view(),
            ),
            r is Ok ==> r->Ok_0.wf(),
    {
        let dir: &Service = match repo.service(service) {
            None => {
                return Err(Error::ServiceNotFound(String::from_str(service)));
            },
            Some(dir) => dir,
        };
        let mut mf: Manifest = match base_manifest(dir) {
            Err(e) => {
                return Err(e);
            },
            Ok(mf) => mf,
        };
        let missing: Document = Document::Missing;
        let local: &Document = match lookup_file(&dir.overrides, region) {
            Some(d) => d,
            None => &missing,
        };
        let global: &Document = match lookup_file(&repo.environments, region) {
            Some(d) => d,
            None => &missing,
        };
        match mf.fill(region, vault, local, global) {
            Err(e) => Err(e),
            Ok(_) => Ok(mf),
        }
    }
}

} // verus!
