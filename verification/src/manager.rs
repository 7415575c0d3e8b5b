//! The environment registry and the manager around it: discovery of
//! environments from directory listings, the per-environment package
//! index, lookups, channel bookkeeping, and update detection.
//!
//! All file, network and process work stays outside the crate; the
//! functions here take plain values (directory listings already read,
//! metadata already decoded, remote records already fetched) and are
//! verified against the state model.

use vstd::prelude::*;
use crate::package::clone_package;
use crate::package::find_package;
use crate::package::upsert_record;
use crate::package::Package;
use crate::package::PackageView;
use crate::text::add_unique_text;
use crate::text::contains_text;
use crate::text::remove_text;
use crate::text::remove_text_spec;
use crate::text::str_eq;
use crate::version::clone_version;
use crate::version::version_lt;
use crate::version::Version;
use crate::version::VersionView;

verus! {

/// The failure taxonomy of the manager.
#[derive(Debug, Clone, PartialEq)]
pub enum CondaError {
    IOError(String),
    ParseError(String),
    SerializeError(String),
    EnvironmentNotFound(String),
    ExternalToolError(String),
    DiscoveryError(String),
    MetadataParseError(String),
    NetworkError(String),
}

/// One decoded metadata file: a record, or the decoder's complaint.
#[derive(Debug, Clone, PartialEq)]
pub enum MetaParse {
    Parsed(Package),
    Malformed(String),
}

/// Specification-level image of a `MetaParse`.
pub enum MetaParseView {
    Parsed(PackageView),
    Malformed(Seq<char>),
}

impl View for MetaParse {
    type V = MetaParseView;

    open spec fn view(&self) -> MetaParseView {
        match self {
            MetaParse::Parsed(p) => MetaParseView::Parsed(p@),
            MetaParse::Malformed(m) => MetaParseView::Malformed(m@),
        }
    }
}

impl DeepView for MetaParse {
    type V = MetaParseView;

    open spec fn deep_view(&self) -> MetaParseView {
        self.view()
    }
}

/// One entry of a base-directory listing: the subdirectory's name
/// (absent where it could not be decoded as text), its location, and
/// its decoded metadata files.
#[derive(Debug, Clone, PartialEq)]
pub struct EnvListing {
    pub name: Option<String>,
    pub path: String,
    pub metadata: Vec<MetaParse>,
}

/// Specification-level image of an `EnvListing`.
#[verifier::ext_equal]
pub struct EnvListingView {
    pub name: Option<Seq<char>>,
    pub path: Seq<char>,
    pub metadata: Seq<MetaParseView>,
}

impl View for EnvListing {
    type V = EnvListingView;

    open spec fn view(&self) -> EnvListingView {
        EnvListingView {
            name: self.name.deep_view(),
            path: self.path@,
            metadata: self.metadata.deep_view(),
        }
    }
}

impl DeepView for EnvListing {
    type V = EnvListingView;

    open spec fn deep_view(&self) -> EnvListingView {
        self.view()
    }
}

/// One environment: its name, its package index, and its location.
#[derive(Debug, Clone, PartialEq)]
pub struct CondaEnvironment {
    pub name: String,
    pub packages: Vec<Package>,
    pub path: String,
}

/// Specification-level image of a `CondaEnvironment`.
#[verifier::ext_equal]
pub struct EnvironmentView {
    pub name: Seq<char>,
    pub packages: Seq<PackageView>,
    pub path: Seq<char>,
}

impl View for CondaEnvironment {
    type V = EnvironmentView;

    open spec fn view(&self) -> EnvironmentView {
        EnvironmentView {
            name: self.name@,
            packages: self.packages.deep_view(),
            path: self.path@,
        }
    }
}

impl DeepView for CondaEnvironment {
    type V = EnvironmentView;

    open spec fn deep_view(&self) -> EnvironmentView {
        self.view()
    }
}

/// The manager's configuration: the channel consulted for remote
/// records, the user's extra channels, and the cache location.
#[derive(Debug, Clone, PartialEq)]
pub struct CondaConfig {
    pub default_channel: String,
    pub custom_channels: Vec<String>,
    pub cache_dir: String,
}

/// Specification-level image of a `CondaConfig`.
#[verifier::ext_equal]
pub struct ConfigView {
    pub default_channel: Seq<char>,
    pub custom_channels: Seq<Seq<char>>,
    pub cache_dir: Seq<char>,
}

impl View for CondaConfig {
    type V = ConfigView;

    open spec fn view(&self) -> ConfigView {
        ConfigView {
            default_channel: self.default_channel@,
            custom_channels: self.custom_channels.deep_view(),
            cache_dir: self.cache_dir@,
        }
    }
}

/// The manager: the discovered environments and the configuration.
#[derive(Debug, Clone, PartialEq)]
pub struct CondaPackageManager {
    pub environments: Vec<CondaEnvironment>,
    pub config: CondaConfig,
}

/// Specification-level image of a `CondaPackageManager`.
#[verifier::ext_equal]
pub struct ManagerView {
    pub environments: Seq<EnvironmentView>,
    pub config: ConfigView,
}

impl View for CondaPackageManager {
    type V = ManagerView;

    open spec fn view(&self) -> ManagerView {
        ManagerView { environments: self.environments.deep_view(), config: self.config@ }
    }
}

/// The complaint of the first malformed metadata file, if any.
pub open spec fn first_malformed(s: Seq<MetaParseView>) -> Option<Seq<char>>
    decreases s.len(),
{
    if s.len() == 0 {
        None
    } else {
        match s[0] {
            MetaParseView::Malformed(m) => Some(m),
            MetaParseView::Parsed(_) => first_malformed(s.drop_first()),
        }
    }
}

/// The record index an all-well-formed metadata listing denotes: each
/// record stored under its name, in file order, later files
/// superseding earlier ones.
pub open spec fn index_of(s: Seq<MetaParseView>) -> Seq<PackageView>
    decreases s.len(),
{
    if s.len() == 0 {
        Seq::empty()
    } else {
        match s.last() {
            MetaParseView::Parsed(p) => upsert_record(index_of(s.drop_last()), p),
            MetaParseView::Malformed(_) => index_of(s.drop_last()),
        }
    }
}

/// The environment one valid listing entry denotes.
pub open spec fn env_of(e: EnvListingView) -> EnvironmentView {
    EnvironmentView { name: e.name->0, packages: index_of(e.metadata), path: e.path }
}

/// The outcome of a discovery pass: one environment per entry with a
/// decodable name, in listing order; entries without a decodable name
/// are skipped; the first malformed metadata file anywhere fails the
/// whole pass.
pub open spec fn discover_spec(es: Seq<EnvListingView>) -> Result<Seq<EnvironmentView>, Seq<char>>
    decreases es.len(),
{
    if es.len() == 0 {
        Ok(Seq::empty())
    } else if es[0].name is None {
        discover_spec(es.drop_first())
    } else if first_malformed(es[0].metadata) is Some {
        Err(first_malformed(es[0].metadata)->0)
    } else {
        match discover_spec(es.drop_first()) {
            Ok(rest) => Ok(seq![env_of(es[0])] + rest),
            Err(m) => Err(m),
        }
    }
}

/// A partial discovery outcome continued after some environments have
/// already been produced.
pub open spec fn discover_continue(
    acc: Seq<EnvironmentView>,
    r: Result<Seq<EnvironmentView>, Seq<char>>,
) -> Result<Seq<EnvironmentView>, Seq<char>> {
    match r {
        Ok(v) => Ok(acc + v),
        Err(m) => Err(m),
    }
}

/// The decodable names of a listing, in order.
pub open spec fn valid_names(es: Seq<EnvListingView>) -> Seq<Seq<char>>
    decreases es.len(),
{
    if es.len() == 0 {
        Seq::empty()
    } else if es[0].name is None {
        valid_names(es.drop_first())
    } else {
        seq![es[0].name->0] + valid_names(es.drop_first())
    }
}

/// The names of a list of environments, in order.
pub open spec fn names_of(s: Seq<EnvironmentView>) -> Seq<Seq<char>> {
    Seq::new(s.len(), |i: int| s[i].name)
}

/// The first environment of a given name, if any.
pub open spec fn find_env(s: Seq<EnvironmentView>, n: Seq<char>) -> Option<EnvironmentView>
    decreases s.len(),
{
    if s.len() == 0 {
        None
    } else if s[0].name == n {
        Some(s[0])
    } else {
        find_env(s.drop_first(), n)
    }
}

/// The registry with the named environment's package index replaced.
pub open spec fn replace_env_packages(
    s: Seq<EnvironmentView>,
    n: Seq<char>,
    ps: Seq<PackageView>,
) -> Seq<EnvironmentView>
    decreases s.len(),
{
    if s.len() == 0 {
        s
    } else if s[0].name == n {
        seq![EnvironmentView { packages: ps, ..s[0] }] + s.drop_first()
    } else {
        seq![s[0]] + replace_env_packages(s.drop_first(), n, ps)
    }
}

/// The registry with every environment of a given name removed.
pub open spec fn drop_env(s: Seq<EnvironmentView>, n: Seq<char>) -> Seq<EnvironmentView>
    decreases s.len(),
{
    if s.len() == 0 {
        s
    } else if s.last().name == n {
        drop_env(s.drop_last(), n)
    } else {
        drop_env(s.drop_last(), n).push(s.last())
    }
}

/// The registry with an environment stored under its name,
/// superseding any earlier environment of that name.
pub open spec fn upsert_env(s: Seq<EnvironmentView>, e: EnvironmentView) -> Seq<EnvironmentView> {
    drop_env(s, e.name).push(e)
}

/// The out-of-date packages of a local index against remote records:
/// one entry per local package whose remote counterpart strictly
/// exceeds it; packages without a remote counterpart are passed over.
pub open spec fn updates_spec(local: Seq<PackageView>, remote: Seq<PackageView>) -> Seq<
    (Seq<char>, VersionView, VersionView),
>
    decreases local.len(),
{
    if local.len() == 0 {
        Seq::empty()
    } else {
        updates_spec(local.drop_last(), remote) + (match find_package(remote, local.last().name) {
            Some(rp) => {
                if version_lt(local.last().version, rp.version) {
                    seq![(local.last().name, local.last().version, rp.version)]
                } else {
                    Seq::<(Seq<char>, VersionView, VersionView)>::empty()
                }
            },
            None => Seq::<(Seq<char>, VersionView, VersionView)>::empty(),
        })
    }
}

/// Replacing a registry element found at its first occurrence is the
/// same as the name-directed replacement.
proof fn lemma_replace_env_at(s: Seq<EnvironmentView>, n: Seq<char>, ps: Seq<PackageView>, i: int)
    requires
        0 <= i < s.len(),
        s[i].name == n,
        forall|j: int| 0 <= j < i ==> s[j].name != n,
    ensures
        replace_env_packages(s, n, ps) =~= s.update(i, (EnvironmentView { packages: ps, ..s[i] })),
    decreases i,
{
    if i == 0 {
        assert(replace_env_packages(s, n, ps) =~= s.update(
            0,
            (EnvironmentView { packages: ps, ..s[0] }),
        ));
    } else {
        assert(s[0].name != n);
        let rest = s.drop_first();
        assert(rest[i - 1] == s[i]);
        assert forall|j: int| 0 <= j < i - 1 implies rest[j].name != n by {
            assert(rest[j] == s[j + 1]);
        }
        lemma_replace_env_at(rest, n, ps, i - 1);
        assert(replace_env_packages(s, n, ps) =~= s.update(
            i,
            (EnvironmentView { packages: ps, ..s[i] }),
        ));
    }
}

/// Builds a package index out of decoded metadata files.  Any
/// malformed file fails the whole load: no partial index is ever
/// handed out.
pub fn load_packages(metadata: &Vec<MetaParse>) -> (r: Result<Vec<Package>, CondaError>)
    ensures
        r is Ok <==> first_malformed(metadata.deep_view()) is None,
        r is Ok ==> r->Ok_0.deep_view() == index_of(metadata.deep_view()),
        r is Err ==> r->Err_0 is MetadataParseError,
        r is Err ==> r->Err_0->MetadataParseError_0@ == first_malformed(metadata.deep_view())->0,
{
    let ghost dv = metadata.deep_view();
    proof {
        assert(dv.skip(0) =~= dv);
    }
    let mut idx: Vec<Package> = Vec::new();
    let mut i: usize = 0;
    while i < metadata.len()
        invariant
            i <= metadata.len(),
            dv == metadata.deep_view(),
            dv.len() == metadata@.len(),
            first_malformed(dv) == first_malformed(dv.skip(i as int)),
            idx.deep_view() == index_of(dv.take(i as int)),
        decreases metadata.len() - i,
    {
        proof {
            assert(dv.skip(i as int)[0] == dv[i as int]);
            assert(dv[i as int] == metadata@[i as int].deep_view());
            assert(dv.take(i + 1).drop_last() =~= dv.take(i as int));
            assert(dv.take(i + 1).last() == dv[i as int]);
        }
        match &metadata[i] {
            MetaParse::Malformed(m) => {
                assert(first_malformed(dv) == Some(m@));
                return Err(CondaError::MetadataParseError(m.clone()));
            },
            MetaParse::Parsed(p) => {
                let record = clone_package(p);
                crate::package::store_record(&mut idx, record);
                proof {
                    assert(dv.skip(i as int).drop_first() =~= dv.skip(i + 1));
                    assert(idx.deep_view() =~= index_of(dv.take(i + 1)));
                }
            },
        }
        i = i + 1;
    }
    proof {
        assert(dv.skip(dv.len() as int).len() == 0);
        assert(dv.take(dv.len() as int) =~= dv);
    }
    Ok(idx)
}

/// Turns a base-directory listing into environments, as
/// `discover_spec` states: one environment per decodably named entry,
/// in order; undecodable names are skipped; a malformed metadata file
/// anywhere fails the whole pass.
pub fn discover_environments(entries: &Vec<EnvListing>) -> (r: Result<
    Vec<CondaEnvironment>,
    CondaError,
>)
    ensures
        r is Ok <==> discover_spec(entries.deep_view()) is Ok,
        r is Ok ==> r->Ok_0.deep_view() == discover_spec(entries.deep_view())->Ok_0,
        r is Err ==> r->Err_0 is MetadataParseError,
        r is Err ==> r->Err_0->MetadataParseError_0@ == discover_spec(entries.deep_view())->Err_0,
{
    let ghost dv = entries.deep_view();
    proof {
        assert(dv.skip(0) =~= dv);
        assert(Seq::<EnvironmentView>::empty() + discover_spec(dv)->Ok_0 =~= discover_spec(
            dv,
        )->Ok_0);
    }
    let mut envs: Vec<CondaEnvironment> = Vec::new();
    let mut i: usize = 0;
    while i < entries.len()
        invariant
            i <= entries.len(),
            dv == entries.deep_view(),
            dv.len() == entries@.len(),
            discover_spec(dv) == discover_continue(envs.deep_view(), discover_spec(
                dv.skip(i as int),
            )),
        decreases entries.len() - i,
    {
        proof {
            assert(dv.skip(i as int)[0] == dv[i as int]);
            assert(dv[i as int] == entries@[i as int].deep_view());
            assert(dv.skip(i as int).drop_first() =~= dv.skip(i + 1));
        }
        let entry = &entries[i];
        match &entry.name {
            None => {
                assert(discover_spec(dv.skip(i as int)) == discover_spec(dv.skip(i + 1)));
            },
            Some(nm) => {
                match load_packages(&entry.metadata) {
                    Err(e) => {
                        proof {
                            assert(entry@.metadata == dv[i as int].metadata);
                            assert(discover_spec(dv.skip(i as int)) == Err::<
                                Seq<EnvironmentView>,
                                Seq<char>,
                            >(first_malformed(dv[i as int].metadata)->0));
                        }
                        return Err(e);
                    },
                    Ok(packages) => {
                        let ghost ps = packages.deep_view();
                        let env = CondaEnvironment {
                            name: nm.clone(),
                            packages,
                            path: entry.path.clone(),
                        };
                        let ghost eview = env@;
                        let ghost pre = envs;
                        envs.push(env);
                        proof {
                            crate::deep::lemma_deep_push_last(pre, envs);
                            assert(eview =~= env_of(dv[i as int]));
                            assert(envs.deep_view() =~= pre.deep_view().push(eview));
                            match discover_spec(dv.skip(i + 1)) {
                                Ok(rest) => {
                                    assert(discover_spec(dv.skip(i as int)) == Ok::<
                                        Seq<EnvironmentView>,
                                        Seq<char>,
                                    >(seq![env_of(dv[i as int])] + rest));
                                    assert(pre.deep_view() + (seq![env_of(dv[i as int])] + rest)
                                        =~= envs.deep_view() + rest);
                                },
                                Err(m) => {
                                    assert(discover_spec(dv.skip(i as int)) == Err::<
                                        Seq<EnvironmentView>,
                                        Seq<char>,
                                    >(m));
                                },
                            }
                        }
                    },
                }
            },
        }
        i = i + 1;
    }
    proof {
        assert(dv.skip(dv.len() as int).len() == 0);
        assert(envs.deep_view() + Seq::<EnvironmentView>::empty() =~= envs.deep_view());
    }
    Ok(envs)
}

/// A successful discovery pass yields exactly one environment per
/// decodably named entry of the listing, named after that entry, in
/// listing order.
pub proof fn lemma_discover_one_per_directory(es: Seq<EnvListingView>)
    requires
        discover_spec(es) is Ok,
    ensures
        names_of(discover_spec(es)->Ok_0) == valid_names(es),
    decreases es.len(),
{
    if es.len() == 0 {
        assert(names_of(discover_spec(es)->Ok_0) =~= valid_names(es));
    } else if es[0].name is None {
        lemma_discover_one_per_directory(es.drop_first());
        assert(names_of(discover_spec(es)->Ok_0) =~= valid_names(es));
    } else {
        let rest = discover_spec(es.drop_first())->Ok_0;
        lemma_discover_one_per_directory(es.drop_first());
        assert(names_of(seq![env_of(es[0])] + rest) =~= seq![es[0].name->0] + names_of(rest));
        assert(names_of(discover_spec(es)->Ok_0) =~= valid_names(es));
    }
}

impl CondaPackageManager {
    /// Composes a manager out of a configuration and the environments
    /// a discovery pass produced.
    pub fn new(config: CondaConfig, environments: Vec<CondaEnvironment>) -> (r:
        CondaPackageManager)
        ensures
            r@.config == config@,
            r@.environments == environments.deep_view(),
    {
        CondaPackageManager { environments, config }
    }

    /// Finds the position of the first environment of a given name.
    fn env_index(&self, name: &str) -> (r: Option<usize>)
        ensures
            match r {
                Some(i) => {
                    &&& i < self@.environments.len()
                    &&& self@.environments[i as int].name == name@
                    &&& forall|j: int| 0 <= j < i ==> self@.environments[j].name != name@
                    &&& find_env(self@.environments, name@) == Some(self@.environments[i as int])
                },
                None => find_env(self@.environments, name@) is None,
            },
    {
        let ghost dv = self@.environments;
        proof {
            assert(dv.skip(0) =~= dv);
        }
        let mut i: usize = 0;
        while i < self.environments.len()
            invariant
                i <= self.environments.len(),
                dv == self@.environments,
                dv.len() == self.environments@.len(),
                forall|j: int| 0 <= j < i ==> dv[j].name != name@,
                find_env(dv, name@) == find_env(dv.skip(i as int), name@),
            decreases self.environments.len() - i,
        {
            proof {
                assert(dv.skip(i as int)[0] == dv[i as int]);
                assert(dv[i as int] == self.environments@[i as int].deep_view());
            }
            if str_eq(self.environments[i].name.as_str(), name) {
                return Some(i);
            }
            proof {
                assert(dv.skip(i as int).drop_first() =~= dv.skip(i + 1));
            }
            i = i + 1;
        }
        assert(dv.skip(dv.len() as int).len() == 0);
        None
    }

    /// Whether an environment of a given name is registered.
    pub fn has_environment(&self, name: &str) -> (r: bool)
        ensures
            r == (find_env(self@.environments, name@) is Some),
    {
        match self.env_index(name) {
            Some(_) => true,
            None => false,
        }
    }

    /// The names of all registered environments, in order.
    pub fn list_environments(&self) -> (r: Vec<String>)
        ensures
            r.deep_view() == names_of(self@.environments),
    {
        let mut names: Vec<String> = Vec::new();
        let mut i: usize = 0;
        while i < self.environments.len()
            invariant
                i <= self.environments.len(),
                names@.len() == i,
                forall|j: int| 0 <= j < i ==> names@[j]@ == self.environments@[j].name@,
            decreases self.environments.len() - i,
        {
            names.push(self.environments[i].name.clone());
            i = i + 1;
        }
        proof {
            assert forall|k: int| 0 <= k < names@.len() implies names.deep_view()[k] == names_of(
                self@.environments,
            )[k] by {
                assert(names@[k]@ == self.environments@[k].name@);
                assert(self@.environments[k] == self.environments@[k].deep_view());
            }
            assert(names.deep_view() =~= names_of(self@.environments));
        }
        names
    }

    /// The full package index of a named environment.
    pub fn list_packages(&self, env_name: &str) -> (r: Result<Vec<Package>, CondaError>)
        ensures
            match find_env(self@.environments, env_name@) {
                Some(e) => {
                    &&& r is Ok
                    &&& r->Ok_0.deep_view() == e.packages
                },
                None => {
                    &&& r is Err
                    &&& r->Err_0 is EnvironmentNotFound
                    &&& r->Err_0->EnvironmentNotFound_0@ == env_name@
                },
            },
    {
        match self.env_index(env_name) {
            None => Err(CondaError::EnvironmentNotFound(String::from_str(env_name))),
            Some(i) => {
                let src = &self.environments[i].packages;
                proof {
                    assert(self@.environments[i as int] == self.environments@[
                        i as int
                    ].deep_view());
                }
                let mut out: Vec<Package> = Vec::new();
                let mut j: usize = 0;
                while j < src.len()
                    invariant
                        j <= src.len(),
                        out@.len() == j,
                        forall|k: int| 0 <= k < j ==> out@[k]@ == src@[k]@,
                    decreases src.len() - j,
                {
                    out.push(clone_package(&src[j]));
                    j = j + 1;
                }
                proof {
                    assert forall|k: int| 0 <= k < out@.len() implies out.deep_view()[k]
                        == src.deep_view()[k] by {
                        assert(out@[k]@ == src@[k]@);
                    }
                    assert(out.deep_view() =~= src.deep_view());
                }
                Ok(out)
            },
        }
    }

    /// Whether a package is installed in a named environment.  An
    /// unknown environment or package yields `false`, not an error.
    pub fn is_package_installed(&self, env_name: &str, package_name: &str) -> (r: bool)
        ensures
            r == (match find_env(self@.environments, env_name@) {
                Some(e) => find_package(e.packages, package_name@) is Some,
                None => false,
            }),
    {
        match self.env_index(env_name) {
            None => false,
            Some(i) => {
                proof {
                    assert(self@.environments[i as int] == self.environments@[
                        i as int
                    ].deep_view());
                }
                match crate::package::find_record_index(
                    &self.environments[i].packages,
                    package_name,
                ) {
                    Some(_) => true,
                    None => false,
                }
            },
        }
    }

    /// The installed version of a package in a named environment, if
    /// both exist.
    pub fn get_package_version(&self, env_name: &str, package_name: &str) -> (r: Option<Version>)
        ensures
            match find_env(self@.environments, env_name@) {
                Some(e) => match find_package(e.packages, package_name@) {
                    Some(p) => r is Some && r->0@ == p.version,
                    None => r is None,
                },
                None => r is None,
            },
    {
        match self.env_index(env_name) {
            None => None,
            Some(i) => {
                proof {
                    assert(self@.environments[i as int] == self.environments@[
                        i as int
                    ].deep_view());
                }
                match crate::package::find_record_index(
                    &self.environments[i].packages,
                    package_name,
                ) {
                    None => None,
                    Some(j) => {
                        proof {
                            assert(self.environments@[i as int]@.packages[j as int]
                                == self.environments@[i as int].packages@[j as int].deep_view());
                        }
                        Some(clone_version(&self.environments[i].packages[j].version))
                    },
                }
            },
        }
    }

    /// Appends a custom channel unless it is already present.
    pub fn add_channel(&mut self, channel_url: &str)
        ensures
            final(self)@ == (ManagerView {
                config: (ConfigView {
                    custom_channels: add_unique_text(
                        old(self)@.config.custom_channels,
                        channel_url@,
                    ),
                    ..old(self)@.config
                }),
                ..old(self)@
            }),
    {
        if !contains_text(&self.config.custom_channels, channel_url) {
            let ghost pre = self.config.custom_channels;
            self.config.custom_channels.push(String::from_str(channel_url));
            proof {
                crate::deep::lemma_deep_push_last(pre, self.config.custom_channels);
                assert(self.config.custom_channels.deep_view() =~= add_unique_text(
                    pre.deep_view(),
                    channel_url@,
                ));
            }
        }
        proof {
            assert(self@ =~= (ManagerView {
                config: (ConfigView {
                    custom_channels: add_unique_text(
                        old(self)@.config.custom_channels,
                        channel_url@,
                    ),
                    ..old(self)@.config
                }),
                ..old(self)@
            }));
        }
    }

    /// Removes every occurrence of a custom channel.
    pub fn remove_channel(&mut self, channel_url: &str)
        ensures
            final(self)@ == (ManagerView {
                config: (ConfigView {
                    custom_channels: remove_text_spec(
                        old(self)@.config.custom_channels,
                        channel_url@,
                    ),
                    ..old(self)@.config
                }),
                ..old(self)@
            }),
    {
        remove_text(&mut self.config.custom_channels, channel_url);
        proof {
            assert(self@ =~= (ManagerView {
                config: (ConfigView {
                    custom_channels: remove_text_spec(
                        old(self)@.config.custom_channels,
                        channel_url@,
                    ),
                    ..old(self)@.config
                }),
                ..old(self)@
            }));
        }
    }

    /// Replaces the package index of a named environment wholesale,
    /// as after a confirmed-successful external mutation.  An unknown
    /// name leaves the registry untouched.
    pub fn refresh_environment(&mut self, env_name: &str, packages: Vec<Package>) -> (r: Result<
        (),
        CondaError,
    >)
        ensures
            match find_env(old(self)@.environments, env_name@) {
                Some(_) => {
                    &&& r is Ok
                    &&& final(self)@ == (ManagerView {
                        environments: replace_env_packages(
                            old(self)@.environments,
                            env_name@,
                            packages.deep_view(),
                        ),
                        ..old(self)@
                    })
                },
                None => {
                    &&& r is Err
                    &&& r->Err_0 is EnvironmentNotFound
                    &&& r->Err_0->EnvironmentNotFound_0@ == env_name@
                    &&& final(self)@ == old(self)@
                },
            },
    {
        let ghost ps = packages.deep_view();
        match self.env_index(env_name) {
            None => Err(CondaError::EnvironmentNotFound(String::from_str(env_name))),
            Some(i) => {
                let ghost pre = self.environments@;
                let ghost pre_dv = self@.environments;
                let mut env = self.environments.remove(i);
                env.packages = packages;
                let ghost eview = env@;
                self.environments.insert(i, env);
                proof {
                    assert(self.environments@ =~= pre.update(i as int, self.environments@[
                        i as int
                    ]));
                    lemma_replace_env_at(pre_dv, env_name@, ps, i as int);
                    assert(eview == (EnvironmentView {
                        packages: ps,
                        ..pre_dv[i as int]
                    }));
                    assert forall|k: int| 0 <= k < self.environments@.len() implies self
                        .environments
                        .deep_view()[k] == replace_env_packages(pre_dv, env_name@, ps)[k] by {
                        if k != i {
                            assert(self.environments@[k] == pre[k]);
                            assert(pre_dv[k] == pre[k].deep_view());
                        }
                    }
                    assert(self.environments.deep_view() =~= replace_env_packages(
                        pre_dv,
                        env_name@,
                        ps,
                    ));
                    assert(self@ =~= (ManagerView {
                        environments: replace_env_packages(pre_dv, env_name@, ps),
                        ..old(self)@
                    }));
                }
                Ok(())
            },
        }
    }

    /// Registers an environment under its name, superseding any
    /// earlier environment of that name, as after a successful
    /// external creation.
    pub fn register_environment(&mut self, name: &str, path: &str, packages: Vec<Package>)
        ensures
            final(self)@ == (ManagerView {
                environments: upsert_env(
                    old(self)@.environments,
                    (EnvironmentView {
                        name: name@,
                        packages: packages.deep_view(),
                        path: path@,
                    }),
                ),
                ..old(self)@
            }),
    {
        let ghost ps = packages.deep_view();
        remove_environments(&mut self.environments, name);
        let ghost mid = self.environments;
        let env = CondaEnvironment {
            name: String::from_str(name),
            packages,
            path: String::from_str(path),
        };
        let ghost eview = env@;
        self.environments.push(env);
        proof {
            crate::deep::lemma_deep_push_last(mid, self.environments);
            assert(eview == (EnvironmentView { name: name@, packages: ps, path: path@ }));
            assert(self.environments.deep_view() =~= upsert_env(
                old(self)@.environments,
                (EnvironmentView { name: name@, packages: ps, path: path@ }),
            ));
            assert(self@ =~= (ManagerView {
                environments: upsert_env(
                    old(self)@.environments,
                    (EnvironmentView { name: name@, packages: ps, path: path@ }),
                ),
                ..old(self)@
            }));
        }
    }

    /// Reports the out-of-date packages of a named environment
    /// against remote records, as `updates_spec` states.
    pub fn check_updates(&self, env_name: &str, remote: &Vec<Package>) -> (r: Result<
        Vec<(String, Version, Version)>,
        CondaError,
    >)
        ensures
            match find_env(self@.environments, env_name@) {
                Some(e) => {
                    &&& r is Ok
                    &&& r->Ok_0.deep_view() == updates_spec(e.packages, remote.deep_view())
                },
                None => {
                    &&& r is Err
                    &&& r->Err_0 is EnvironmentNotFound
                    &&& r->Err_0->EnvironmentNotFound_0@ == env_name@
                },
            },
    {
        let ghost rv = remote.deep_view();
        match self.env_index(env_name) {
            None => Err(CondaError::EnvironmentNotFound(String::from_str(env_name))),
            Some(i) => {
                let local = &self.environments[i].packages;
                let ghost lv = local.deep_view();
                proof {
                    assert(self@.environments[i as int] == self.environments@[
                        i as int
                    ].deep_view());
                }
                let mut out: Vec<(String, Version, Version)> = Vec::new();
                let mut k: usize = 0;
                while k < local.len()
                    invariant
                        k <= local.len(),
                        lv == local.deep_view(),
                        rv == remote.deep_view(),
                        lv.len() == local@.len(),
                        out.deep_view() =~= updates_spec(lv.take(k as int), rv),
                    decreases local.len() - k,
                {
                    proof {
                        assert(lv[k as int] == local@[k as int].deep_view());
                        assert(lv.take(k + 1).drop_last() =~= lv.take(k as int));
                        assert(lv.take(k + 1).last() == lv[k as int]);
                    }
                    let p = &local[k];
                    match crate::package::find_record_index(remote, p.name.as_str()) {
                        None => {
                            proof {
                                assert(out.deep_view() =~= updates_spec(lv.take(k + 1), rv));
                            }
                        },
                        Some(j) => {
                            proof {
                                assert(rv[j as int] == remote@[j as int].deep_view());
                            }
                            if p.version.precedes(&remote[j].version) {
                                let item = (
                                    p.name.clone(),
                                    clone_version(&p.version),
                                    clone_version(&remote[j].version),
                                );
                                let ghost iview = item.deep_view();
                                let ghost pre_out = out;
                                out.push(item);
                                proof {
                                    crate::deep::lemma_deep_push_last(pre_out, out);
                                    assert(iview == (lv[k as int].name, lv[k as int].version, rv[
                                        j as int
                                    ].version));
                                    assert(out.deep_view() =~= updates_spec(lv.take(k + 1), rv));
                                }
                            } else {
                                proof {
                                    assert(out.deep_view() =~= updates_spec(lv.take(k + 1), rv));
                                }
                            }
                        },
                    }
                    k = k + 1;
                }
                proof {
                    assert(lv.take(local@.len() as int) =~= lv);
                }
                Ok(out)
            },
        }
    }
}

/// Clones an environment, keeping its view.
fn clone_environment(e: &CondaEnvironment) -> (r: CondaEnvironment)
    ensures
        r@ == e@,
{
    let mut packages: Vec<Package> = Vec::new();
    let mut i: usize = 0;
    while i < e.packages.len()
        invariant
            i <= e.packages.len(),
            packages@.len() == i,
            forall|j: int| 0 <= j < i ==> packages@[j]@ == e.packages@[j]@,
        decreases e.packages.len() - i,
    {
        packages.push(clone_package(&e.packages[i]));
        i = i + 1;
    }
    let r = CondaEnvironment { name: e.name.clone(), packages, path: e.path.clone() };
    proof {
        assert forall|k: int| 0 <= k < r.packages@.len() implies r.packages.deep_view()[k]
            == e.packages.deep_view()[k] by {
            assert(r.packages@[k]@ == e.packages@[k]@);
        }
        assert(r.packages.deep_view() =~= e.packages.deep_view());
        assert(r@ =~= e@);
    }
    r
}

/// Removes every environment of a given name from a registry.
fn remove_environments(v: &mut Vec<CondaEnvironment>, name: &str)
    ensures
        final(v).deep_view() == drop_env(old(v).deep_view(), name@),
{
    let mut out: Vec<CondaEnvironment> = Vec::new();
    let mut i: usize = 0;
    while i < v.len()
        invariant
            i <= v.len(),
            *v == *old(v),
            v.deep_view().len() == v@.len(),
            out.deep_view() =~= drop_env(v.deep_view().take(i as int), name@),
        decreases v.len() - i,
    {
        proof {
            assert(v.deep_view()[i as int] == v@[i as int].deep_view());
            assert(v.deep_view().take(i + 1).drop_last() =~= v.deep_view().take(i as int));
            assert(v.deep_view().take(i + 1).last() == v.deep_view()[i as int]);
        }
        if !str_eq(v[i].name.as_str(), name) {
            let item = clone_environment(&v[i]);
            let ghost iview = item@;
            let ghost pre_out = out;
            out.push(item);
            proof {
                crate::deep::lemma_deep_push_last(pre_out, out);
                assert(iview == v@[i as int].deep_view());
                assert(out.deep_view() =~= drop_env(v.deep_view().take(i + 1), name@));
            }
        }
        i = i + 1;
    }
    proof {
        assert(v.deep_view().take(v@.len() as int) =~= v.deep_view());
    }
    *v = out;
}

} // verus!
