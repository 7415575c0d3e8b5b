//! The configuration profile: default construction, validation,
//! layered merge, and the single-field mutators.
//!
//! The merge follows an overlay model: a field of the other profile is
//! adopted only where it differs from the default profile's value, so a
//! partially specified override customizes exactly the fields its
//! author changed.  The environment-variable mapping is merged
//! additively instead, with the other profile winning key collisions.

use vstd::prelude::*;
use crate::text::add_unique_text;
use crate::text::bool_text;
use crate::text::bool_to_string;
use crate::text::clone_opt_text;
use crate::text::clone_texts;
use crate::text::contains_text;
use crate::text::dec_rep;
use crate::text::distinct_texts;
use crate::text::join_comma;
use crate::text::lemma_occurrences_distinct;
use crate::text::lemma_push_distinct;
use crate::text::lemma_remove_text_gone;
use crate::text::lemma_remove_text_other;
use crate::text::occurrences;
use crate::text::remove_text;
use crate::text::remove_text_spec;
use crate::text::str_eq;
use crate::text::texts_equal;
use crate::text::texts_joined;
use crate::text::u64_to_string;

verus! {

/// The compression type used when building packages.
#[derive(Debug, Clone, Copy, PartialEq, Eq, Structural)]
pub enum CompressionType {
    Bzip2,
    Gzip,
    Lzma,
    Zstd,
}

/// The default architecture used when installing packages.
#[derive(Debug, Clone, Copy, PartialEq, Eq, Structural)]
pub enum Architecture {
    X86_64,
    Arm64,
    Ppc64le,
    S390x,
}

/// Proxy configuration: absent as a whole means no proxy; when
/// present, each part is independently optional.
#[derive(Debug, Clone, PartialEq, Eq)]
pub struct ProxySettings {
    pub http_proxy: Option<String>,
    pub https_proxy: Option<String>,
    pub no_proxy: Option<Vec<String>>,
}

/// Specification-level image of `ProxySettings`.
#[verifier::ext_equal]
pub struct ProxyView {
    pub http_proxy: Option<Seq<char>>,
    pub https_proxy: Option<Seq<char>>,
    pub no_proxy: Option<Seq<Seq<char>>>,
}

impl View for ProxySettings {
    type V = ProxyView;

    open spec fn view(&self) -> ProxyView {
        ProxyView {
            http_proxy: self.http_proxy.deep_view(),
            https_proxy: self.https_proxy.deep_view(),
            no_proxy: self.no_proxy.deep_view(),
        }
    }
}

impl DeepView for ProxySettings {
    type V = ProxyView;

    open spec fn deep_view(&self) -> ProxyView {
        self.view()
    }
}

/// Errors of loading, parsing and saving the settings profile.
#[derive(Debug, Clone, PartialEq, Eq)]
pub enum CondaSettingsError {
    FileReadError(String),
    ParseError(String),
    SerializeError(String),
}

/// The configuration profile controlling how operations against the
/// external tool are performed.
#[derive(Debug, Clone, PartialEq)]
pub struct CondaSettings {
    pub environments_dir: String,
    pub default_python_version: String,
    pub channel_priority_strict: bool,
    pub default_channels: Vec<String>,
    pub env_vars: Vec<(String, String)>,
    pub max_retries: u32,
    pub network_timeout: u64,
    pub auto_update: bool,
    pub default_shell: String,
    pub show_channel_urls: bool,
    pub compression_type: CompressionType,
    pub use_conda_forge: bool,
    pub max_environments: usize,
    pub create_condarc: bool,
    pub default_architecture: Architecture,
    pub ssl_verify: bool,
    pub proxy_settings: Option<ProxySettings>,
    pub offline_mode: bool,
    pub package_cache_size_limit: u64,
    pub add_pip_as_python_dependency: bool,
}

/// Specification-level image of a profile.  The environment variables
/// keep their stored order; `map_of` gives the mapping they denote.
#[verifier::ext_equal]
pub struct SettingsView {
    pub environments_dir: Seq<char>,
    pub default_python_version: Seq<char>,
    pub channel_priority_strict: bool,
    pub default_channels: Seq<Seq<char>>,
    pub env_vars: Seq<(Seq<char>, Seq<char>)>,
    pub max_retries: u32,
    pub network_timeout: u64,
    pub auto_update: bool,
    pub default_shell: Seq<char>,
    pub show_channel_urls: bool,
    pub compression_type: CompressionType,
    pub use_conda_forge: bool,
    pub max_environments: usize,
    pub create_condarc: bool,
    pub default_architecture: Architecture,
    pub ssl_verify: bool,
    pub proxy_settings: Option<ProxyView>,
    pub offline_mode: bool,
    pub package_cache_size_limit: u64,
    pub add_pip_as_python_dependency: bool,
}

impl View for CondaSettings {
    type V = SettingsView;

    open spec fn view(&self) -> SettingsView {
        SettingsView {
            environments_dir: self.environments_dir@,
            default_python_version: self.default_python_version@,
            channel_priority_strict: self.channel_priority_strict,
            default_channels: self.default_channels.deep_view(),
            env_vars: self.env_vars.deep_view(),
            max_retries: self.max_retries,
            network_timeout: self.network_timeout,
            auto_update: self.auto_update,
            default_shell: self.default_shell@,
            show_channel_urls: self.show_channel_urls,
            compression_type: self.compression_type,
            use_conda_forge: self.use_conda_forge,
            max_environments: self.max_environments,
            create_condarc: self.create_condarc,
            default_architecture: self.default_architecture,
            ssl_verify: self.ssl_verify,
            proxy_settings: self.proxy_settings.deep_view(),
            offline_mode: self.offline_mode,
            package_cache_size_limit: self.package_cache_size_limit,
            add_pip_as_python_dependency: self.add_pip_as_python_dependency,
        }
    }
}

/// The default profile.
pub open spec fn default_profile() -> SettingsView {
    SettingsView {
        environments_dir: "~/.conda/envs"@,
        default_python_version: "3.9"@,
        channel_priority_strict: true,
        default_channels: seq![
            "https://repo.anaconda.com/pkgs/main"@,
            "https://repo.anaconda.com/pkgs/r"@,
        ],
        env_vars: Seq::empty(),
        max_retries: 3,
        network_timeout: 60,
        auto_update: false,
        default_shell: "bash"@,
        show_channel_urls: false,
        compression_type: CompressionType::Zstd,
        use_conda_forge: false,
        max_environments: 20,
        create_condarc: true,
        default_architecture: Architecture::X86_64,
        ssl_verify: true,
        proxy_settings: None,
        offline_mode: false,
        package_cache_size_limit: 10737418240,
        add_pip_as_python_dependency: true,
    }
}

/// The mapping with every pair whose key matches removed.
pub open spec fn drop_key(s: Seq<(Seq<char>, Seq<char>)>, k: Seq<char>) -> Seq<
    (Seq<char>, Seq<char>),
>
    decreases s.len(),
{
    if s.len() == 0 {
        s
    } else if s.last().0 == k {
        drop_key(s.drop_last(), k)
    } else {
        drop_key(s.drop_last(), k).push(s.last())
    }
}

/// The mapping with one key bound to a value: any earlier binding of
/// the key is removed, and the new pair appended.
pub open spec fn upsert_pairs(
    s: Seq<(Seq<char>, Seq<char>)>,
    k: Seq<char>,
    v: Seq<char>,
) -> Seq<(Seq<char>, Seq<char>)> {
    drop_key(s, k).push((k, v))
}

/// The value bound to a key, the latest binding winning.
pub open spec fn lookup_pairs(s: Seq<(Seq<char>, Seq<char>)>, k: Seq<char>) -> Option<Seq<char>>
    decreases s.len(),
{
    if s.len() == 0 {
        None
    } else if s.last().0 == k {
        Some(s.last().1)
    } else {
        lookup_pairs(s.drop_last(), k)
    }
}

/// The mathematical mapping a pair list denotes.
pub open spec fn map_of(s: Seq<(Seq<char>, Seq<char>)>) -> Map<Seq<char>, Seq<char>>
    decreases s.len(),
{
    if s.len() == 0 {
        Map::empty()
    } else {
        map_of(s.drop_last()).insert(s.last().0, s.last().1)
    }
}

/// Every pair of the other mapping upserted in order.
pub open spec fn upsert_all(
    base: Seq<(Seq<char>, Seq<char>)>,
    other: Seq<(Seq<char>, Seq<char>)>,
) -> Seq<(Seq<char>, Seq<char>)>
    decreases other.len(),
{
    if other.len() == 0 {
        base
    } else {
        upsert_pairs(upsert_all(base, other.drop_last()), other.last().0, other.last().1)
    }
}

/// The merge of two profiles: field by field, the other profile's
/// value is adopted exactly where it differs from the default
/// profile's value; the environment variables are merged additively
/// unless the other mapping is empty; a present proxy configuration
/// always wins.
pub open spec fn spec_merge(base: SettingsView, other: SettingsView) -> SettingsView {
    let d = default_profile();
    SettingsView {
        environments_dir: if other.environments_dir != d.environments_dir {
            other.environments_dir
        } else {
            base.environments_dir
        },
        default_python_version: if other.default_python_version != d.default_python_version {
            other.default_python_version
        } else {
            base.default_python_version
        },
        channel_priority_strict: if other.channel_priority_strict != d.channel_priority_strict {
            other.channel_priority_strict
        } else {
            base.channel_priority_strict
        },
        default_channels: if other.default_channels != d.default_channels {
            other.default_channels
        } else {
            base.default_channels
        },
        env_vars: if other.env_vars.len() == 0 {
            base.env_vars
        } else {
            upsert_all(base.env_vars, other.env_vars)
        },
        max_retries: if other.max_retries != d.max_retries {
            other.max_retries
        } else {
            base.max_retries
        },
        network_timeout: if other.network_timeout != d.network_timeout {
            other.network_timeout
        } else {
            base.network_timeout
        },
        auto_update: if other.auto_update != d.auto_update {
            other.auto_update
        } else {
            base.auto_update
        },
        default_shell: if other.default_shell != d.default_shell {
            other.default_shell
        } else {
            base.default_shell
        },
        show_channel_urls: if other.show_channel_urls != d.show_channel_urls {
            other.show_channel_urls
        } else {
            base.show_channel_urls
        },
        compression_type: if other.compression_type != d.compression_type {
            other.compression_type
        } else {
            base.compression_type
        },
        use_conda_forge: if other.use_conda_forge != d.use_conda_forge {
            other.use_conda_forge
        } else {
            base.use_conda_forge
        },
        max_environments: if other.max_environments != d.max_environments {
            other.max_environments
        } else {
            base.max_environments
        },
        create_condarc: if other.create_condarc != d.create_condarc {
            other.create_condarc
        } else {
            base.create_condarc
        },
        default_architecture: if other.default_architecture != d.default_architecture {
            other.default_architecture
        } else {
            base.default_architecture
        },
        ssl_verify: if other.ssl_verify != d.ssl_verify {
            other.ssl_verify
        } else {
            base.ssl_verify
        },
        proxy_settings: if other.proxy_settings is Some {
            other.proxy_settings
        } else {
            base.proxy_settings
        },
        offline_mode: if other.offline_mode != d.offline_mode {
            other.offline_mode
        } else {
            base.offline_mode
        },
        package_cache_size_limit: if other.package_cache_size_limit
            != d.package_cache_size_limit {
            other.package_cache_size_limit
        } else {
            base.package_cache_size_limit
        },
        add_pip_as_python_dependency: if other.add_pip_as_python_dependency
            != d.add_pip_as_python_dependency {
            other.add_pip_as_python_dependency
        } else {
            base.add_pip_as_python_dependency
        },
    }
}

/// Whether the numeric limits of a profile are all usable.
pub open spec fn profile_valid(v: SettingsView) -> bool {
    &&& v.max_retries > 0
    &&& v.network_timeout > 0
    &&& v.max_environments > 0
    &&& v.package_cache_size_limit > 0
}

/// The ordered violation messages of a profile, one per violated
/// invariant.
pub open spec fn violations(v: SettingsView) -> Seq<Seq<char>> {
    (if v.max_retries == 0 {
        seq!["max_retries must be greater than 0"@]
    } else {
        Seq::<Seq<char>>::empty()
    }) + (if v.network_timeout == 0 {
        seq!["network_timeout must be greater than 0"@]
    } else {
        Seq::<Seq<char>>::empty()
    }) + (if v.max_environments == 0 {
        seq!["max_environments must be greater than 0"@]
    } else {
        Seq::<Seq<char>>::empty()
    }) + (if v.package_cache_size_limit == 0 {
        seq!["package_cache_size_limit must be greater than 0"@]
    } else {
        Seq::<Seq<char>>::empty()
    })
}

/// One merge step for a boolean field.
fn overlay_bool(base: bool, other: bool, dflt: bool) -> (r: bool)
    ensures
        r == (if other != dflt {
            other
        } else {
            base
        }),
{
    if other != dflt {
        other
    } else {
        base
    }
}

/// One merge step for a `u32` field.
fn overlay_u32(base: u32, other: u32, dflt: u32) -> (r: u32)
    ensures
        r == (if other != dflt {
            other
        } else {
            base
        }),
{
    if other != dflt {
        other
    } else {
        base
    }
}

/// One merge step for a `u64` field.
fn overlay_u64(base: u64, other: u64, dflt: u64) -> (r: u64)
    ensures
        r == (if other != dflt {
            other
        } else {
            base
        }),
{
    if other != dflt {
        other
    } else {
        base
    }
}

/// One merge step for a `usize` field.
fn overlay_usize(base: usize, other: usize, dflt: usize) -> (r: usize)
    ensures
        r == (if other != dflt {
            other
        } else {
            base
        }),
{
    if other != dflt {
        other
    } else {
        base
    }
}

/// One merge step for the compression type.
fn overlay_compression(
    base: CompressionType,
    other: CompressionType,
    dflt: CompressionType,
) -> (r: CompressionType)
    ensures
        r == (if other != dflt {
            other
        } else {
            base
        }),
{
    if !(other == dflt) {
        other
    } else {
        base
    }
}

/// One merge step for the architecture.
fn overlay_architecture(
    base: Architecture,
    other: Architecture,
    dflt: Architecture,
) -> (r: Architecture)
    ensures
        r == (if other != dflt {
            other
        } else {
            base
        }),
{
    if !(other == dflt) {
        other
    } else {
        base
    }
}

/// One merge step for a text field.
fn overlay_text(base: &String, other: &String, dflt: &String) -> (r: String)
    ensures
        r@ == (if other@ != dflt@ {
            other@
        } else {
            base@
        }),
{
    if !str_eq(other.as_str(), dflt.as_str()) {
        other.clone()
    } else {
        base.clone()
    }
}

/// One merge step for a text-list field.
fn overlay_texts(base: &Vec<String>, other: &Vec<String>, dflt: &Vec<String>) -> (r: Vec<String>)
    ensures
        r.deep_view() == (if other.deep_view() != dflt.deep_view() {
            other.deep_view()
        } else {
            base.deep_view()
        }),
{
    if !texts_equal(other, dflt) {
        clone_texts(other)
    } else {
        clone_texts(base)
    }
}

/// One merge step for the environment-variable mapping: merged
/// additively unless the other mapping is empty.
fn overlay_env_vars(base: &Vec<(String, String)>, other: &Vec<(String, String)>) -> (r: Vec<
    (String, String),
>)
    ensures
        r.deep_view() == (if other.deep_view().len() == 0 {
            base.deep_view()
        } else {
            upsert_all(base.deep_view(), other.deep_view())
        }),
{
    let mut r = clone_pairs(base);
    if other.len() > 0 {
        assert(other.deep_view().len() == other@.len());
        merge_env_vars(&mut r, other);
    } else {
        assert(other.deep_view().len() == 0);
    }
    r
}

/// One merge step for the proxy configuration: a present proxy wins.
fn overlay_proxy(base: &Option<ProxySettings>, other: &Option<ProxySettings>) -> (r: Option<
    ProxySettings,
>)
    ensures
        r.deep_view() == (if other.deep_view() is Some {
            other.deep_view()
        } else {
            base.deep_view()
        }),
{
    match other {
        Some(p) => Some(clone_proxy(p)),
        None => clone_opt_proxy(base),
    }
}

/// Clones a proxy configuration, keeping its view.
pub fn clone_proxy(p: &ProxySettings) -> (r: ProxySettings)
    ensures
        r@ == p@,
{
    let no_proxy: Option<Vec<String>> = match &p.no_proxy {
        Some(v) => Some(clone_texts(v)),
        None => None,
    };
    let r = ProxySettings {
        http_proxy: clone_opt_text(&p.http_proxy),
        https_proxy: clone_opt_text(&p.https_proxy),
        no_proxy,
    };
    proof {
        assert(r@ =~= p@);
    }
    r
}

/// Clones an optional proxy configuration, keeping its deep view.
fn clone_opt_proxy(o: &Option<ProxySettings>) -> (r: Option<ProxySettings>)
    ensures
        r.deep_view() == o.deep_view(),
{
    match o {
        Some(p) => Some(clone_proxy(p)),
        None => None,
    }
}

/// Clones an environment-variable pair list, keeping its deep view.
pub(crate) fn clone_pairs(v: &Vec<(String, String)>) -> (r: Vec<(String, String)>)
    ensures
        r.deep_view() == v.deep_view(),
{
    let mut r: Vec<(String, String)> = Vec::new();
    let mut i: usize = 0;
    while i < v.len()
        invariant
            i <= v.len(),
            r@.len() == i,
            forall|j: int| 0 <= j < i ==> r@[j].deep_view() == v@[j].deep_view(),
        decreases v.len() - i,
    {
        let p = &v[i];
        r.push((p.0.clone(), p.1.clone()));
        i = i + 1;
    }
    proof {
        assert forall|k: int| 0 <= k < r@.len() implies r.deep_view()[k] == v.deep_view()[k] by {
            assert(r@[k].deep_view() == v@[k].deep_view());
        }
        assert(r.deep_view() =~= v.deep_view());
    }
    r
}

/// Removes every binding of a key from a pair list and hands back the
/// value that was bound, if any.
fn kv_remove_all(v: &mut Vec<(String, String)>, key: &str) -> (r: Option<String>)
    ensures
        final(v).deep_view() == drop_key(old(v).deep_view(), key@),
        r.deep_view() == lookup_pairs(old(v).deep_view(), key@),
{
    let mut out: Vec<(String, String)> = Vec::new();
    let mut found: Option<String> = None;
    let mut i: usize = 0;
    while i < v.len()
        invariant
            i <= v.len(),
            *v == *old(v),
            v.deep_view().len() == v@.len(),
            out.deep_view() =~= drop_key(v.deep_view().take(i as int), key@),
            found.deep_view() == lookup_pairs(v.deep_view().take(i as int), key@),
        decreases v.len() - i,
    {
        proof {
            assert(v.deep_view()[i as int] == v@[i as int].deep_view());
            assert(v.deep_view().take(i + 1).drop_last() =~= v.deep_view().take(i as int));
            assert(v.deep_view().take(i + 1).last() == v.deep_view()[i as int]);
        }
        let p = &v[i];
        if str_eq(p.0.as_str(), key) {
            found = Some(p.1.clone());
        } else {
            let item = (p.0.clone(), p.1.clone());
            let ghost iview = item.deep_view();
            let ghost pre_out = out;
            out.push(item);
            proof {
                crate::deep::lemma_deep_push_last(pre_out, out);
                assert(iview == v@[i as int].deep_view());
                assert(out.deep_view() =~= drop_key(v.deep_view().take(i + 1), key@));
            }
        }
        i = i + 1;
    }
    proof {
        assert(v.deep_view().take(v@.len() as int) =~= v.deep_view());
    }
    *v = out;
    found
}

/// Binds a key to a value in a pair list, superseding earlier bindings.
fn kv_upsert(v: &mut Vec<(String, String)>, key: String, value: String)
    ensures
        final(v).deep_view() == upsert_pairs(old(v).deep_view(), key@, value@),
{
    let ghost kview = key@;
    let ghost vview = value@;
    kv_remove_all(v, key.as_str());
    let item = (key, value);
    let ghost iview = item.deep_view();
    let ghost mid = *v;
    v.push(item);
    proof {
        crate::deep::lemma_deep_push_last(mid, *v);
        assert(iview == (kview, vview));
        assert(v.deep_view() =~= upsert_pairs(old(v).deep_view(), kview, vview));
    }
}

/// Upserts every pair of the other list in order.
fn merge_env_vars(dst: &mut Vec<(String, String)>, src: &Vec<(String, String)>)
    ensures
        final(dst).deep_view() == upsert_all(old(dst).deep_view(), src.deep_view()),
{
    let ghost base = old(dst).deep_view();
    let mut i: usize = 0;
    while i < src.len()
        invariant
            i <= src.len(),
            src.deep_view().len() == src@.len(),
            dst.deep_view() == upsert_all(base, src.deep_view().take(i as int)),
        decreases src.len() - i,
    {
        proof {
            assert(src.deep_view()[i as int] == src@[i as int].deep_view());
            assert(src.deep_view().take(i + 1).drop_last() =~= src.deep_view().take(i as int));
            assert(src.deep_view().take(i + 1).last() == src.deep_view()[i as int]);
        }
        let p = &src[i];
        kv_upsert(dst, p.0.clone(), p.1.clone());
        i = i + 1;
    }
    proof {
        assert(src.deep_view().take(src@.len() as int) =~= src.deep_view());
    }
}

impl CondaSettings {
    /// Builds the default profile.
    pub fn new() -> (s: CondaSettings)
        ensures
            s@ == default_profile(),
            distinct_texts(s@.default_channels),
    {
        let mut default_channels: Vec<String> = Vec::new();
        default_channels.push(String::from_str("https://repo.anaconda.com/pkgs/main"));
        default_channels.push(String::from_str("https://repo.anaconda.com/pkgs/r"));
        let s = CondaSettings {
            environments_dir: String::from_str("~/.conda/envs"),
            default_python_version: String::from_str("3.9"),
            channel_priority_strict: true,
            default_channels,
            env_vars: Vec::new(),
            max_retries: 3,
            network_timeout: 60,
            auto_update: false,
            default_shell: String::from_str("bash"),
            show_channel_urls: false,
            compression_type: CompressionType::Zstd,
            use_conda_forge: false,
            max_environments: 20,
            create_condarc: true,
            default_architecture: Architecture::X86_64,
            ssl_verify: true,
            proxy_settings: None,
            offline_mode: false,
            package_cache_size_limit: 10 * 1024 * 1024 * 1024,
            add_pip_as_python_dependency: true,
        };
        proof {
            assert(s.default_channels.deep_view() =~= default_profile().default_channels);
            assert(s.env_vars.deep_view() =~= default_profile().env_vars);
            assert(s.proxy_settings.deep_view() == default_profile().proxy_settings);
            assert(s@ =~= default_profile());
            reveal_strlit("https://repo.anaconda.com/pkgs/main");
            reveal_strlit("https://repo.anaconda.com/pkgs/r");
            assert(s@.default_channels[0] == "https://repo.anaconda.com/pkgs/main"@);
            assert(s@.default_channels[1] == "https://repo.anaconda.com/pkgs/r"@);
            assert("https://repo.anaconda.com/pkgs/main"@.len()
                != "https://repo.anaconda.com/pkgs/r"@.len());
        }
        s
    }

    /// Replaces every field with the other profile's value.
    pub fn update(&mut self, other: &CondaSettings)
        ensures
            final(self)@ == other@,
    {
        self.environments_dir = other.environments_dir.clone();
        self.default_python_version = other.default_python_version.clone();
        self.channel_priority_strict = other.channel_priority_strict;
        self.default_channels = clone_texts(&other.default_channels);
        self.env_vars = clone_pairs(&other.env_vars);
        self.max_retries = other.max_retries;
        self.network_timeout = other.network_timeout;
        self.auto_update = other.auto_update;
        self.default_shell = other.default_shell.clone();
        self.show_channel_urls = other.show_channel_urls;
        self.compression_type = other.compression_type;
        self.use_conda_forge = other.use_conda_forge;
        self.max_environments = other.max_environments;
        self.create_condarc = other.create_condarc;
        self.default_architecture = other.default_architecture;
        self.ssl_verify = other.ssl_verify;
        self.proxy_settings = clone_opt_proxy(&other.proxy_settings);
        self.offline_mode = other.offline_mode;
        self.package_cache_size_limit = other.package_cache_size_limit;
        self.add_pip_as_python_dependency = other.add_pip_as_python_dependency;
        proof {
            assert(self@ =~= other@);
        }
    }

    /// Binds a custom environment variable, superseding an earlier
    /// binding of the same name.
    pub fn add_env_var(&mut self, key: String, value: String)
        ensures
            final(self)@ == (SettingsView {
                env_vars: upsert_pairs(old(self)@.env_vars, key@, value@),
                ..old(self)@
            }),
    {
        kv_upsert(&mut self.env_vars, key, value);
    }

    /// Removes a custom environment variable, handing back the value
    /// it was bound to, if any.
    pub fn remove_env_var(&mut self, key: &str) -> (r: Option<String>)
        ensures
            final(self)@ == (SettingsView {
                env_vars: drop_key(old(self)@.env_vars, key@),
                ..old(self)@
            }),
            r.deep_view() == lookup_pairs(old(self)@.env_vars, key@),
    {
        kv_remove_all(&mut self.env_vars, key)
    }

    /// Appends a channel unless it is already present.
    pub fn add_default_channel(&mut self, channel: String)
        ensures
            final(self)@ == (SettingsView {
                default_channels: add_unique_text(old(self)@.default_channels, channel@),
                ..old(self)@
            }),
            distinct_texts(old(self)@.default_channels) ==> distinct_texts(
                final(self)@.default_channels,
            ),
    {
        let ghost pre = self@.default_channels;
        let ghost c = channel@;
        if !contains_text(&self.default_channels, channel.as_str()) {
            let ghost pre_vec = self.default_channels;
            self.default_channels.push(channel);
            proof {
                crate::deep::lemma_deep_push_last(pre_vec, self.default_channels);
                assert(self.default_channels.deep_view() =~= pre.push(c));
                if distinct_texts(pre) {
                    lemma_push_distinct(pre, c);
                }
            }
        }
    }

    /// Removes every occurrence of a channel.
    pub fn remove_default_channel(&mut self, channel: &str)
        ensures
            final(self)@ == (SettingsView {
                default_channels: remove_text_spec(old(self)@.default_channels, channel@),
                ..old(self)@
            }),
    {
        remove_text(&mut self.default_channels, channel);
    }

    /// Sets the proxy configuration.
    pub fn set_proxy_settings(&mut self, settings: ProxySettings)
        ensures
            final(self)@ == (SettingsView {
                proxy_settings: Some(settings@),
                ..old(self)@
            }),
    {
        let ghost sv = settings@;
        self.proxy_settings = Some(settings);
    }

    /// Clears the proxy configuration.
    pub fn clear_proxy_settings(&mut self)
        ensures
            final(self)@ == (SettingsView { proxy_settings: None, ..old(self)@ }),
    {
        self.proxy_settings = None;
    }

    /// Checks the numeric limits of the profile.  A valid profile
    /// yields success; an invalid one yields the ordered list of
    /// violation messages, one per violated invariant.  Validation is
    /// a query: it never fails with an error of its own.
    pub fn validate(&self) -> (r: Result<(), Vec<String>>)
        ensures
            r is Ok <==> profile_valid(self@),
            r is Err ==> r->Err_0.deep_view() == violations(self@),
    {
        let mut errors: Vec<String> = Vec::new();
        let ghost p1: Seq<Seq<char>> = if self@.max_retries == 0 {
            seq!["max_retries must be greater than 0"@]
        } else {
            Seq::<Seq<char>>::empty()
        };
        let ghost p2: Seq<Seq<char>> = if self@.network_timeout == 0 {
            seq!["network_timeout must be greater than 0"@]
        } else {
            Seq::<Seq<char>>::empty()
        };
        let ghost p3: Seq<Seq<char>> = if self@.max_environments == 0 {
            seq!["max_environments must be greater than 0"@]
        } else {
            Seq::<Seq<char>>::empty()
        };
        let ghost p4: Seq<Seq<char>> = if self@.package_cache_size_limit == 0 {
            seq!["package_cache_size_limit must be greater than 0"@]
        } else {
            Seq::<Seq<char>>::empty()
        };
        if self.max_retries == 0 {
            let m = String::from_str("max_retries must be greater than 0");
            let ghost pre = errors;
            errors.push(m);
            proof {
                crate::deep::lemma_deep_push_last(pre, errors);
            }
        }
        assert(errors.deep_view() =~= p1);
        if self.network_timeout == 0 {
            let m = String::from_str("network_timeout must be greater than 0");
            let ghost pre = errors;
            errors.push(m);
            proof {
                crate::deep::lemma_deep_push_last(pre, errors);
            }
        }
        assert(errors.deep_view() =~= p1 + p2);
        if self.max_environments == 0 {
            let m = String::from_str("max_environments must be greater than 0");
            let ghost pre = errors;
            errors.push(m);
            proof {
                crate::deep::lemma_deep_push_last(pre, errors);
            }
        }
        assert(errors.deep_view() =~= p1 + p2 + p3);
        if self.package_cache_size_limit == 0 {
            let m = String::from_str("package_cache_size_limit must be greater than 0");
            let ghost pre = errors;
            errors.push(m);
            proof {
                crate::deep::lemma_deep_push_last(pre, errors);
            }
        }
        assert(errors.deep_view() =~= violations(self@));
        assert(errors@.len() == errors.deep_view().len());
        if errors.is_empty() {
            Ok(())
        } else {
            Err(errors)
        }
    }

    /// Replaces the profile with the default construction.
    pub fn reset_to_defaults(&mut self)
        ensures
            final(self)@ == default_profile(),
    {
        *self = CondaSettings::new();
    }

    /// Overlays the other profile onto this one, field by field
    /// against the default profile, as `spec_merge` states.
    pub fn merge(&mut self, other: &CondaSettings)
        ensures
            final(self)@ == spec_merge(old(self)@, other@),
    {
        let d = CondaSettings::new();
        let merged = CondaSettings {
            environments_dir: overlay_text(
                &self.environments_dir,
                &other.environments_dir,
                &d.environments_dir,
            ),
            default_python_version: overlay_text(
                &self.default_python_version,
                &other.default_python_version,
                &d.default_python_version,
            ),
            channel_priority_strict: overlay_bool(
                self.channel_priority_strict,
                other.channel_priority_strict,
                d.channel_priority_strict,
            ),
            default_channels: overlay_texts(
                &self.default_channels,
                &other.default_channels,
                &d.default_channels,
            ),
            env_vars: overlay_env_vars(&self.env_vars, &other.env_vars),
            max_retries: overlay_u32(self.max_retries, other.max_retries, d.max_retries),
            network_timeout: overlay_u64(
                self.network_timeout,
                other.network_timeout,
                d.network_timeout,
            ),
            auto_update: overlay_bool(self.auto_update, other.auto_update, d.auto_update),
            default_shell: overlay_text(
                &self.default_shell,
                &other.default_shell,
                &d.default_shell,
            ),
            show_channel_urls: overlay_bool(
                self.show_channel_urls,
                other.show_channel_urls,
                d.show_channel_urls,
            ),
            compression_type: overlay_compression(
                self.compression_type,
                other.compression_type,
                d.compression_type,
            ),
            use_conda_forge: overlay_bool(
                self.use_conda_forge,
                other.use_conda_forge,
                d.use_conda_forge,
            ),
            max_environments: overlay_usize(
                self.max_environments,
                other.max_environments,
                d.max_environments,
            ),
            create_condarc: overlay_bool(
                self.create_condarc,
                other.create_condarc,
                d.create_condarc,
            ),
            default_architecture: overlay_architecture(
                self.default_architecture,
                other.default_architecture,
                d.default_architecture,
            ),
            ssl_verify: overlay_bool(self.ssl_verify, other.ssl_verify, d.ssl_verify),
            proxy_settings: overlay_proxy(&self.proxy_settings, &other.proxy_settings),
            offline_mode: overlay_bool(self.offline_mode, other.offline_mode, d.offline_mode),
            package_cache_size_limit: overlay_u64(
                self.package_cache_size_limit,
                other.package_cache_size_limit,
                d.package_cache_size_limit,
            ),
            add_pip_as_python_dependency: overlay_bool(
                self.add_pip_as_python_dependency,
                other.add_pip_as_python_dependency,
                d.add_pip_as_python_dependency,
            ),
        };
        *self = merged;
        proof {
            assert(self@ =~= spec_merge(old(self)@, other@));
        }
    }

    /// The number of fields the profile holds.
    pub fn count_settings(&self) -> (r: usize)
        ensures
            r == 20,
    {
        20
    }

    /// Whether every field still holds its default value.
    pub fn is_default(&self) -> (r: bool)
        ensures
            r == (self@ == default_profile()),
    {
        let d = CondaSettings::new();
        if !(self.environments_dir == d.environments_dir) {
            return false;
        }
        if !(self.default_python_version == d.default_python_version) {
            return false;
        }
        if self.channel_priority_strict != d.channel_priority_strict {
            return false;
        }
        if !texts_equal(&self.default_channels, &d.default_channels) {
            return false;
        }
        if self.env_vars.len() != 0 {
            assert(self@.env_vars.len() == self.env_vars@.len());
            return false;
        }
        if self.max_retries != d.max_retries {
            return false;
        }
        if self.network_timeout != d.network_timeout {
            return false;
        }
        if self.auto_update != d.auto_update {
            return false;
        }
        if !(self.default_shell == d.default_shell) {
            return false;
        }
        if self.show_channel_urls != d.show_channel_urls {
            return false;
        }
        if !(self.compression_type == d.compression_type) {
            return false;
        }
        if self.use_conda_forge != d.use_conda_forge {
            return false;
        }
        if self.max_environments != d.max_environments {
            return false;
        }
        if self.create_condarc != d.create_condarc {
            return false;
        }
        if !(self.default_architecture == d.default_architecture) {
            return false;
        }
        if self.ssl_verify != d.ssl_verify {
            return false;
        }
        if !self.proxy_settings.is_none() {
            return false;
        }
        if self.offline_mode != d.offline_mode {
            return false;
        }
        if self.package_cache_size_limit != d.package_cache_size_limit {
            return false;
        }
        if self.add_pip_as_python_dependency != d.add_pip_as_python_dependency {
            return false;
        }
        proof {
            assert(self@.env_vars.len() == self.env_vars@.len());
            assert(self@ =~= default_profile());
        }
        true
    }
}

/// Dropping a key from a pair list removes it from the denoted
/// mapping.
proof fn lemma_map_of_drop_key(s: Seq<(Seq<char>, Seq<char>)>, k: Seq<char>)
    ensures
        map_of(drop_key(s, k)) == map_of(s).remove(k),
    decreases s.len(),
{
    if s.len() == 0 {
        assert(map_of(drop_key(s, k)) =~= map_of(s).remove(k));
    } else {
        lemma_map_of_drop_key(s.drop_last(), k);
        if s.last().0 == k {
            assert(map_of(s.drop_last()).insert(k, s.last().1).remove(k) =~= map_of(
                s.drop_last(),
            ).remove(k));
        } else {
            let r = drop_key(s.drop_last(), k).push(s.last());
            assert(r.drop_last() =~= drop_key(s.drop_last(), k));
            assert(map_of(r) == map_of(drop_key(s.drop_last(), k)).insert(s.last().0, s.last().1));
            assert(map_of(s.drop_last()).remove(k).insert(s.last().0, s.last().1) =~= map_of(
                s.drop_last(),
            ).insert(s.last().0, s.last().1).remove(k));
        }
    }
}

/// Upserting a pair updates the denoted mapping at that key.
proof fn lemma_map_of_upsert(s: Seq<(Seq<char>, Seq<char>)>, k: Seq<char>, v: Seq<char>)
    ensures
        map_of(upsert_pairs(s, k, v)) == map_of(s).insert(k, v),
{
    lemma_map_of_drop_key(s, k);
    let r = drop_key(s, k).push((k, v));
    assert(r.drop_last() =~= drop_key(s, k));
    assert(map_of(r) == map_of(drop_key(s, k)).insert(k, v));
    assert(map_of(s).remove(k).insert(k, v) =~= map_of(s).insert(k, v));
}

/// Upserting every pair of the other list yields the union of the two
/// denoted mappings, the other mapping winning key collisions.
proof fn lemma_upsert_all_union(
    base: Seq<(Seq<char>, Seq<char>)>,
    other: Seq<(Seq<char>, Seq<char>)>,
)
    ensures
        map_of(upsert_all(base, other)) == map_of(base).union_prefer_right(map_of(other)),
    decreases other.len(),
{
    if other.len() == 0 {
        assert(map_of(upsert_all(base, other)) =~= map_of(base).union_prefer_right(
            map_of(other),
        ));
    } else {
        lemma_upsert_all_union(base, other.drop_last());
        lemma_map_of_upsert(
            upsert_all(base, other.drop_last()),
            other.last().0,
            other.last().1,
        );
        assert(map_of(base).union_prefer_right(map_of(other.drop_last())).insert(
            other.last().0,
            other.last().1,
        ) =~= map_of(base).union_prefer_right(
            map_of(other.drop_last()).insert(other.last().0, other.last().1),
        ));
    }
}

/// The environment-variable half of the merge is additive: the merged
/// profile denotes the union of the two mappings, with the other
/// profile winning key collisions.
pub proof fn lemma_merge_env_vars_union(base: SettingsView, other: SettingsView)
    ensures
        map_of(spec_merge(base, other).env_vars) == map_of(base.env_vars).union_prefer_right(
            map_of(other.env_vars),
        ),
{
    if other.env_vars.len() == 0 {
        assert(map_of(other.env_vars) =~= Map::<Seq<char>, Seq<char>>::empty());
        assert(map_of(base.env_vars).union_prefer_right(map_of(other.env_vars)) =~= map_of(
            base.env_vars,
        ));
    } else {
        lemma_upsert_all_union(base.env_vars, other.env_vars);
    }
}

/// Overlaying the default profile onto any profile changes nothing.
pub proof fn lemma_merge_default_is_noop(v: SettingsView)
    ensures
        spec_merge(v, default_profile()) == v,
{
    assert(spec_merge(v, default_profile()) =~= v);
}

/// Channel bookkeeping on a duplicate-free channel list: adding a
/// channel twice leaves exactly one occurrence of it; adding and then
/// removing it leaves none; and any other channel keeps its
/// occurrence count under both operations.
pub proof fn lemma_channel_add_remove(s: Seq<Seq<char>>, a: Seq<char>, b: Seq<char>)
    requires
        distinct_texts(s),
        a != b,
    ensures
        occurrences(add_unique_text(add_unique_text(s, a), a), a) == 1,
        occurrences(remove_text_spec(add_unique_text(s, a), a), a) == 0,
        occurrences(add_unique_text(s, a), b) == occurrences(s, b),
        occurrences(remove_text_spec(s, a), b) == occurrences(s, b),
{
    let once = add_unique_text(s, a);
    if s.contains(a) {
        lemma_occurrences_distinct(s, a);
    } else {
        lemma_push_distinct(s, a);
        assert(s.push(a)[s.len() as int] == a);
        assert(s.push(a).contains(a));
        lemma_occurrences_distinct(s.push(a), a);
        assert(occurrences(s.push(a), b) == occurrences(s, b)) by {
            assert(s.push(a).drop_last() =~= s);
        }
    }
    assert(once.contains(a));
    assert(add_unique_text(once, a) == once);
    lemma_remove_text_gone(once, a);
    lemma_remove_text_other(s, a, b);
}

impl CondaSettings {
    /// Renders the profile for display, matching `display_text`.
    pub fn to_display_string(&self) -> (r: String)
        ensures
            r@ == display_text(self@),
    {
        let mut s = String::from_str("Conda Settings:\n- Environments Directory: ");
        s.append(self.environments_dir.as_str());
        s.append("\n- Default Python Version: ");
        s.append(self.default_python_version.as_str());
        s.append("\n- Channel Priority Strict: ");
        let b1 = bool_to_string(self.channel_priority_strict);
        s.append(b1.as_str());
        s.append("\n- Default Channels: ");
        let joined = join_comma(&self.default_channels);
        s.append(joined.as_str());
        s.append("\n- Max Retries: ");
        let n1 = u64_to_string(self.max_retries as u64);
        s.append(n1.as_str());
        s.append("\n- Network Timeout: ");
        let n2 = u64_to_string(self.network_timeout);
        s.append(n2.as_str());
        s.append(" seconds\n- Auto Update: ");
        let b2 = bool_to_string(self.auto_update);
        s.append(b2.as_str());
        s.append("\n- Default Shell: ");
        s.append(self.default_shell.as_str());
        s.append("\n- Show Channel URLs: ");
        let b3 = bool_to_string(self.show_channel_urls);
        s.append(b3.as_str());
        s.append("\n- Compression Type: ");
        let c1 = compression_to_string(self.compression_type);
        s.append(c1.as_str());
        s.append("\n- Use conda-forge: ");
        let b4 = bool_to_string(self.use_conda_forge);
        s.append(b4.as_str());
        s.append("\n- Max Environments: ");
        let n3 = u64_to_string(self.max_environments as u64);
        s.append(n3.as_str());
        s.append("\n- Create .condarc: ");
        let b5 = bool_to_string(self.create_condarc);
        s.append(b5.as_str());
        s.append("\n- Default Architecture: ");
        let a1 = architecture_to_string(self.default_architecture);
        s.append(a1.as_str());
        s.append("\n- SSL Verify: ");
        let b6 = bool_to_string(self.ssl_verify);
        s.append(b6.as_str());
        s.append("\n- Offline Mode: ");
        let b7 = bool_to_string(self.offline_mode);
        s.append(b7.as_str());
        s.append("\n- Package Cache Size Limit: ");
        let n4 = u64_to_string(self.package_cache_size_limit);
        s.append(n4.as_str());
        s.append(" bytes\n- Add pip as Python Dependency: ");
        let b8 = bool_to_string(self.add_pip_as_python_dependency);
        s.append(b8.as_str());
        proof {
            assert(s@ =~= display_text(self@));
        }
        s
    }
}

/// Rendering of the compression type.
pub open spec fn compression_text(c: CompressionType) -> Seq<char> {
    match c {
        CompressionType::Bzip2 => "Bzip2"@,
        CompressionType::Gzip => "Gzip"@,
        CompressionType::Lzma => "Lzma"@,
        CompressionType::Zstd => "Zstd"@,
    }
}

/// Renders the compression type, matching `compression_text`.
pub fn compression_to_string(c: CompressionType) -> (r: String)
    ensures
        r@ == compression_text(c),
{
    match c {
        CompressionType::Bzip2 => String::from_str("Bzip2"),
        CompressionType::Gzip => String::from_str("Gzip"),
        CompressionType::Lzma => String::from_str("Lzma"),
        CompressionType::Zstd => String::from_str("Zstd"),
    }
}

/// Rendering of the architecture.
pub open spec fn architecture_text(a: Architecture) -> Seq<char> {
    match a {
        Architecture::X86_64 => "X86_64"@,
        Architecture::Arm64 => "Arm64"@,
        Architecture::Ppc64le => "Ppc64le"@,
        Architecture::S390x => "S390x"@,
    }
}

/// Renders the architecture, matching `architecture_text`.
pub fn architecture_to_string(a: Architecture) -> (r: String)
    ensures
        r@ == architecture_text(a),
{
    match a {
        Architecture::X86_64 => String::from_str("X86_64"),
        Architecture::Arm64 => String::from_str("Arm64"),
        Architecture::Ppc64le => String::from_str("Ppc64le"),
        Architecture::S390x => String::from_str("S390x"),
    }
}

/// The full display rendering of a profile.
pub open spec fn display_text(v: SettingsView) -> Seq<char> {
    "Conda Settings:\n- Environments Directory: "@ + v.environments_dir
        + "\n- Default Python Version: "@ + v.default_python_version
        + "\n- Channel Priority Strict: "@ + bool_text(v.channel_priority_strict)
        + "\n- Default Channels: "@ + texts_joined(v.default_channels) + "\n- Max Retries: "@
        + dec_rep(v.max_retries as nat) + "\n- Network Timeout: "@ + dec_rep(
        v.network_timeout as nat,
    ) + " seconds\n- Auto Update: "@ + bool_text(v.auto_update) + "\n- Default Shell: "@
        + v.default_shell + "\n- Show Channel URLs: "@ + bool_text(v.show_channel_urls)
        + "\n- Compression Type: "@ + compression_text(v.compression_type)
        + "\n- Use conda-forge: "@ + bool_text(v.use_conda_forge) + "\n- Max Environments: "@
        + dec_rep(v.max_environments as nat) + "\n- Create .condarc: "@ + bool_text(
        v.create_condarc,
    ) + "\n- Default Architecture: "@ + architecture_text(v.default_architecture)
        + "\n- SSL Verify: "@ + bool_text(v.ssl_verify) + "\n- Offline Mode: "@ + bool_text(
        v.offline_mode,
    ) + "\n- Package Cache Size Limit: "@ + dec_rep(v.package_cache_size_limit as nat)
        + " bytes\n- Add pip as Python Dependency: "@ + bool_text(v.add_pip_as_python_dependency)
}

} // verus!
