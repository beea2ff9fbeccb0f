//! Secret placeholders: values of environment variables that stand for a
//! secret, and what they are replaced by.

use vstd::prelude::*;
use vstd::string::StringExecFns;
use crate::error::{Error, ErrorView};
use crate::text::{starts_with, find_from, chars_of, string_of, has_prefix, same_text, find_char};

verus! {

/// The value that asks for a secret from the secret store.
pub open spec fn vault_marker() -> Seq<char> {
    "IN_VAULT"@
}

/// The value, or the beginning of one, that refers to a secret kept by the
/// cluster.
pub open spec fn kube_marker() -> Seq<char> {
    "IN_KUBE_SECRETS"@
}

/// What the value of an environment variable stands for.
#[derive(Debug)]
pub enum Placeholder {
    /// The value itself: plain configuration.
    Literal,
    /// A secret to be read from the secret store.
    VaultRef,
    /// A secret kept by the cluster, under the given key or, without one, under
    /// the variable's own name.
    KubeSecretRef(Option<String>),
    /// A reference to a cluster secret that names no key.
    Invalid,
}

pub enum PlaceholderView {
    Literal,
    VaultRef,
    KubeSecretRef(Option<Seq<char>>),
    Invalid,
}

impl View for Placeholder {
    type V = PlaceholderView;

    open spec fn view(&self) -> PlaceholderView {
        match *self {
            Placeholder::Literal => PlaceholderView::Literal,
            Placeholder::VaultRef => PlaceholderView::VaultRef,
            Placeholder::KubeSecretRef(None) => PlaceholderView::KubeSecretRef(None),
            Placeholder::KubeSecretRef(Some(k)) => PlaceholderView::KubeSecretRef(Some(k@)),
            Placeholder::Invalid => PlaceholderView::Invalid,
        }
    }
}

/// What `value` stands for. A value that begins with the cluster marker and
/// goes on names its key between its first colon and the next one (or its end);
/// without a colon, or with nothing there, it is invalid.
pub open spec fn placeholder_of(value: Seq<char>) -> PlaceholderView {
    if value == vault_marker() {
        PlaceholderView::VaultRef
    } else if !starts_with(value, kube_marker()) {
        PlaceholderView::Literal
    } else if value == kube_marker() {
        PlaceholderView::KubeSecretRef(None)
    } else {
        let first = find_from(value, ':', 0);
        let second = find_from(value, ':', first + 1);
        if first >= value.len() || second == first + 1 {
            PlaceholderView::Invalid
        } else {
            PlaceholderView::KubeSecretRef(Some(value.subrange(first + 1, second)))
        }
    }
}

/// Reads the value of an environment variable as a placeholder.
pub fn classify(value: &str) -> (r: Placeholder)
    ensures
        r@ == placeholder_of(value@),
{
    let chars: Vec<char> = chars_of(value);
    let vault: Vec<char> = chars_of("IN_VAULT");
    let kube: Vec<char> = chars_of("IN_KUBE_SECRETS");
    if same_text(&chars, &vault) {
        return Placeholder::VaultRef;
    }
    if !has_prefix(&chars, &kube) {
        return Placeholder::Literal;
    }
    if same_text(&chars, &kube) {
        return Placeholder::KubeSecretRef(None);
    }
    let first: usize = find_char(&chars, ':', 0);
    if first >= chars.len() {
        return Placeholder::Invalid;
    }
    let second: usize = find_char(&chars, ':', first + 1);
    if second == first + 1 {
        return Placeholder::Invalid;
    }
    Placeholder::KubeSecretRef(Some(string_of(&chars, first + 1, second)))
}

/// The lower-case form of a text, as `str::to_lowercase` gives it.
pub uninterp spec fn lowercase_of(s: Seq<char>) -> Seq<char>;

/// `str::to_lowercase`: the text with each character replaced by its lower-case
/// form, which is a function of the text alone.
#[verifier::external_body]
fn lowercase(s: &str) -> (r: String)
    ensures
        r@ == lowercase_of(s@),
{
    s.to_lowercase()
}

/// `s` with a hyphen in place of each underscore.
pub open spec fn hyphenated(s: Seq<char>) -> Seq<char> {
    Seq::new(
        s.len(),
        |i: int|
            if s[i] == '_' {
                '-'
            } else {
                s[i]
            },
    )
}

/// The name by which the cluster knows the secret with the lower-case
/// identifier `lowered`.
pub open spec fn reference_name(lowered: Seq<char>) -> Seq<char> {
    "kube-secret-"@ + hyphenated(lowered)
}

/// The name by which the cluster knows the secret for `id`, a variable's name
/// or a key.
pub open spec fn kube_secret_name(id: Seq<char>) -> Seq<char> {
    reference_name(lowercase_of(id))
}

/// Makes the name of a cluster secret from its identifier in lower case.
pub fn secret_reference(lowered: &str) -> (r: String)
    ensures
        r@ == reference_name(lowered@),
{
    let chars: Vec<char> = chars_of(lowered);
    let mut out: Vec<char> = chars_of("kube-secret-");
    let ghost head = out@;
    let mut i: usize = 0;
    while i < chars.len()
        invariant
            i <= chars@.len(),
            out@ == head + hyphenated(chars@).take(i as int),
        decreases chars@.len() - i,
    {
        let c: char = chars[i];
        out.push(
            if c == '_' {
                '-'
            } else {
                c
            },
        );
        i = i + 1;
        assert(out@ =~= head + hyphenated(chars@).take(i as int));
    }
    assert(hyphenated(chars@).take(i as int) =~= hyphenated(chars@));
    let n: usize = out.len();
    let r: String = string_of(&out, 0, n);
    assert(out@.subrange(0, n as int) =~= out@);
    r
}

/// The name by which the cluster knows the secret for `id`.
pub fn secret_name(id: &str) -> (r: String)
    ensures
        r@ == kube_secret_name(id@),
{
    let lowered: String = lowercase(id);
    secret_reference(lowered.as_str())
}

/// One secret of the store.
#[derive(Debug)]
pub struct Secret {
    /// Where the secret is kept: region, service and variable, with slashes
    /// between them.
    pub path: String,
    /// What is kept there.
    pub value: String,
}

pub struct SecretView {
    pub path: Seq<char>,
    pub value: Seq<char>,
}

impl DeepView for Secret {
    type V = SecretView;

    open spec fn deep_view(&self) -> SecretView {
        SecretView { path: self.path@, value: self.value@ }
    }
}

impl Clone for Secret {
    fn clone(&self) -> (r: Self)
        ensures
            r.deep_view() == self.deep_view(),
    {
        Secret { path: self.path.clone(), value: self.value.clone() }
    }
}

/// What the secret store holds, as far as it was read. A path that is not
/// listed could not be read.
#[derive(Debug)]
pub struct Vault {
    pub secrets: Vec<Secret>,
}

impl DeepView for Vault {
    type V = Seq<SecretView>;

    open spec fn deep_view(&self) -> Seq<SecretView> {
        self.secrets.deep_view()
    }
}

impl Clone for Vault {
    fn clone(&self) -> (r: Self)
        ensures
            r.deep_view() == self.deep_view(),
    {
        let r = Vault { secrets: self.secrets.clone() };
        assert(r.secrets.deep_view() =~= self.secrets.deep_view());
        r
    }
}

/// The value of the first secret of `secrets` kept under `path`.
pub open spec fn lookup(secrets: Seq<SecretView>, path: Seq<char>) -> Option<Seq<char>>
    decreases secrets.len(),
{
    if secrets.len() == 0 {
        None
    } else if secrets[0].path == path {
        Some(secrets[0].value)
    } else {
        lookup(secrets.skip(1), path)
    }
}

/// The path under which the secret of the variable `key` of the service
/// `service` is kept for `region`.
pub open spec fn secret_path(region: Seq<char>, service: Seq<char>, key: Seq<char>) -> Seq<char> {
    region + "/"@ + service + "/"@ + key
}

/// What reading `path` gives.
pub open spec fn read_of(secrets: Seq<SecretView>, path: Seq<char>) -> Result<Seq<char>, ErrorView> {
    match lookup(secrets, path) {
        Some(value) => Ok(value),
        None => Err(ErrorView::SecretReadFailure(path)),
    }
}

/// A result that holds a text, with the text and the error taken by their views.
pub open spec fn text_outcome(r: Result<String, Error>) -> Result<Seq<char>, ErrorView> {
    match r {
        Ok(s) => Ok(s@),
        Err(e) => Err(e@),
    }
}

impl Vault {
    /// A store that holds nothing.
    pub fn new() -> (r: Self)
        ensures
            r.deep_view() == Seq::<SecretView>::empty(),
    {
        let r = Vault { secrets: Vec::new() };
        assert(r.deep_view() =~= Seq::<SecretView>::empty());
        r
    }

    /// Reads the secret kept under `path`: the first one listed there. Fails
    /// where none is.
    pub fn read(&self, path: &str) -> (r: Result<String, Error>)
        ensures
            text_outcome(r) == read_of(self.deep_view(), path@),
    {
        let wanted: String = String::from_str(path);
        let ghost all = self.deep_view();
        let mut i: usize = 0;
        assert(all.skip(0) =~= all);
        while i < self.secrets.len()
            invariant
                i <= all.len(),
                all == self.deep_view(),
                all.len() == self.secrets@.len(),
                wanted@ == path@,
                lookup(all, path@) == lookup(all.skip(i as int), path@),
            decreases all.len() - i,
        {
            assert(all.skip(i as int)[0] == all[i as int]);
            if self.secrets[i].path == wanted {
                return Ok(self.secrets[i].value.clone());
            }
            assert(all.skip(i as int).skip(1) =~= all.skip(i + 1));
            i = i + 1;
        }
        Err(Error::SecretReadFailure(wanted))
    }
}

/// The path under which the secret of the variable `key` of the service
/// `service` is kept for `region`.
pub fn path_of(region: &str, service: &str, key: &str) -> (r: String)
    ensures
        r@ == secret_path(region@, service@, key@),
{
    let mut path: String = String::from_str(region);
    path.append("/");
    path.append(service);
    path.append("/");
    path.append(key);
    path
}

/// What the variable `key` with the value `value` holds once its placeholder
/// is resolved.
pub open spec fn resolved(
    key: Seq<char>,
    value: Seq<char>,
    region: Seq<char>,
    service: Seq<char>,
    secrets: Seq<SecretView>,
) -> Result<Seq<char>, ErrorView> {
    match placeholder_of(value) {
        PlaceholderView::Literal => Ok(value),
        PlaceholderView::VaultRef => read_of(secrets, secret_path(region, service, key)),
        PlaceholderView::KubeSecretRef(None) => Ok(kube_secret_name(key)),
        PlaceholderView::KubeSecretRef(Some(id)) => Ok(kube_secret_name(id)),
        PlaceholderView::Invalid => Err(ErrorView::InvalidSecretPath(key)),
    }
}

/// Resolves the placeholder of one environment variable: a literal stays, a
/// store reference is read from `client` under the path made of `region`,
/// `service` and `key`, and a cluster reference becomes the name of the
/// cluster's secret.
pub fn resolve(key: &str, value: &str, region: &str, service: &str, client: &Vault) -> (r: Result<
    String,
    Error,
>)
    ensures
        text_outcome(r) == resolved(key@, value@, region@, service@, client.deep_view()),
{
    match classify(value) {
        Placeholder::Literal => Ok(String::from_str(value)),
        Placeholder::VaultRef => {
            let path: String = path_of(region, service, key);
            client.read(path.as_str())
        },
        Placeholder::KubeSecretRef(None) => Ok(secret_name(key)),
        Placeholder::KubeSecretRef(Some(id)) => Ok(secret_name(id.as_str())),
        Placeholder::Invalid => Err(Error::InvalidSecretPath(String::from_str(key))),
    }
}

} // verus!
