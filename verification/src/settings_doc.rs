//! The persisted form of the settings profile: a typed key/value
//! document.  Encoding and decoding are verified here; turning the
//! document into bytes on disk is left to serialization collaborators
//! outside the crate.
//!
//! Decoding is tolerant of entry order and rejects a document with a
//! missing or mistyped entry.  The proxy entry alone is optional:
//! absent means "no proxy".

use vstd::prelude::*;
use crate::settings::clone_pairs;
use crate::settings::clone_proxy;
use crate::settings::Architecture;
use crate::settings::CompressionType;
use crate::settings::CondaSettings;
use crate::settings::CondaSettingsError;
use crate::settings::ProxySettings;
use crate::settings::ProxyView;
use crate::settings::SettingsView;
use crate::text::clone_texts;

verus! {

/// The key of one document entry, one per profile field.
#[derive(Debug, Clone, Copy, PartialEq, Eq, Structural)]
pub enum SettingKey {
    EnvironmentsDir,
    DefaultPythonVersion,
    ChannelPriorityStrict,
    DefaultChannels,
    EnvVars,
    MaxRetries,
    NetworkTimeout,
    AutoUpdate,
    DefaultShell,
    ShowChannelUrls,
    Compression,
    UseCondaForge,
    MaxEnvironments,
    CreateCondarc,
    DefaultArchitecture,
    SslVerify,
    OfflineMode,
    PackageCacheSizeLimit,
    AddPipAsPythonDependency,
    Proxy,
}

impl View for SettingKey {
    type V = SettingKey;

    open spec fn view(&self) -> SettingKey {
        *self
    }
}

impl DeepView for SettingKey {
    type V = SettingKey;

    open spec fn deep_view(&self) -> SettingKey {
        *self
    }
}

/// The typed value of one document entry.
#[derive(Debug, Clone, PartialEq)]
pub enum SettingValue {
    Flag(bool),
    Count32(u32),
    Count64(u64),
    Size(usize),
    Text(String),
    TextList(Vec<String>),
    TextPairs(Vec<(String, String)>),
    Packing(CompressionType),
    Arch(Architecture),
    ProxyVal(ProxySettings),
}

/// Specification-level image of a `SettingValue`.
pub enum SettingValueView {
    Flag(bool),
    Count32(u32),
    Count64(u64),
    Size(usize),
    Text(Seq<char>),
    TextList(Seq<Seq<char>>),
    TextPairs(Seq<(Seq<char>, Seq<char>)>),
    Packing(CompressionType),
    Arch(Architecture),
    ProxyVal(ProxyView),
}

impl View for SettingValue {
    type V = SettingValueView;

    open spec fn view(&self) -> SettingValueView {
        match self {
            SettingValue::Flag(b) => SettingValueView::Flag(*b),
            SettingValue::Count32(n) => SettingValueView::Count32(*n),
            SettingValue::Count64(n) => SettingValueView::Count64(*n),
            SettingValue::Size(n) => SettingValueView::Size(*n),
            SettingValue::Text(s) => SettingValueView::Text(s@),
            SettingValue::TextList(v) => SettingValueView::TextList(v.deep_view()),
            SettingValue::TextPairs(v) => SettingValueView::TextPairs(v.deep_view()),
            SettingValue::Packing(c) => SettingValueView::Packing(*c),
            SettingValue::Arch(a) => SettingValueView::Arch(*a),
            SettingValue::ProxyVal(p) => SettingValueView::ProxyVal(p@),
        }
    }
}

impl DeepView for SettingValue {
    type V = SettingValueView;

    open spec fn deep_view(&self) -> SettingValueView {
        self.view()
    }
}

/// The value stored under a key, first entry winning.
pub open spec fn lookup_setting(
    s: Seq<(SettingKey, SettingValueView)>,
    k: SettingKey,
) -> Option<SettingValueView>
    decreases s.len(),
{
    if s.len() == 0 {
        None
    } else if s[0].0 == k {
        Some(s[0].1)
    } else {
        lookup_setting(s.drop_first(), k)
    }
}

/// The document a profile persists to: one typed entry per field, the
/// proxy entry present only when a proxy is configured.
pub open spec fn spec_entries(v: SettingsView) -> Seq<(SettingKey, SettingValueView)> {
    seq![
        (SettingKey::EnvironmentsDir, SettingValueView::Text(v.environments_dir)),
        (SettingKey::DefaultPythonVersion, SettingValueView::Text(v.default_python_version)),
        (SettingKey::ChannelPriorityStrict, SettingValueView::Flag(v.channel_priority_strict)),
        (SettingKey::DefaultChannels, SettingValueView::TextList(v.default_channels)),
        (SettingKey::EnvVars, SettingValueView::TextPairs(v.env_vars)),
        (SettingKey::MaxRetries, SettingValueView::Count32(v.max_retries)),
        (SettingKey::NetworkTimeout, SettingValueView::Count64(v.network_timeout)),
        (SettingKey::AutoUpdate, SettingValueView::Flag(v.auto_update)),
        (SettingKey::DefaultShell, SettingValueView::Text(v.default_shell)),
        (SettingKey::ShowChannelUrls, SettingValueView::Flag(v.show_channel_urls)),
        (SettingKey::Compression, SettingValueView::Packing(v.compression_type)),
        (SettingKey::UseCondaForge, SettingValueView::Flag(v.use_conda_forge)),
        (SettingKey::MaxEnvironments, SettingValueView::Size(v.max_environments)),
        (SettingKey::CreateCondarc, SettingValueView::Flag(v.create_condarc)),
        (SettingKey::DefaultArchitecture, SettingValueView::Arch(v.default_architecture)),
        (SettingKey::SslVerify, SettingValueView::Flag(v.ssl_verify)),
        (SettingKey::OfflineMode, SettingValueView::Flag(v.offline_mode)),
        (SettingKey::PackageCacheSizeLimit, SettingValueView::Count64(v.package_cache_size_limit)),
        (
            SettingKey::AddPipAsPythonDependency,
            SettingValueView::Flag(v.add_pip_as_python_dependency),
        ),
    ] + (if v.proxy_settings is Some {
        seq![(SettingKey::Proxy, SettingValueView::ProxyVal(v.proxy_settings->0))]
    } else {
        Seq::<(SettingKey, SettingValueView)>::empty()
    })
}

/// Whether a document holds every mandatory entry with its type, and
/// a well-typed proxy entry where one is present.
pub open spec fn decode_ok(s: Seq<(SettingKey, SettingValueView)>) -> bool {
    &&& lookup_setting(s, SettingKey::EnvironmentsDir) matches Some(SettingValueView::Text(_))
    &&& lookup_setting(s, SettingKey::DefaultPythonVersion) matches Some(
        SettingValueView::Text(_),
    )
    &&& lookup_setting(s, SettingKey::ChannelPriorityStrict) matches Some(
        SettingValueView::Flag(_),
    )
    &&& lookup_setting(s, SettingKey::DefaultChannels) matches Some(SettingValueView::TextList(_))
    &&& lookup_setting(s, SettingKey::EnvVars) matches Some(SettingValueView::TextPairs(_))
    &&& lookup_setting(s, SettingKey::MaxRetries) matches Some(SettingValueView::Count32(_))
    &&& lookup_setting(s, SettingKey::NetworkTimeout) matches Some(SettingValueView::Count64(_))
    &&& lookup_setting(s, SettingKey::AutoUpdate) matches Some(SettingValueView::Flag(_))
    &&& lookup_setting(s, SettingKey::DefaultShell) matches Some(SettingValueView::Text(_))
    &&& lookup_setting(s, SettingKey::ShowChannelUrls) matches Some(SettingValueView::Flag(_))
    &&& lookup_setting(s, SettingKey::Compression) matches Some(SettingValueView::Packing(_))
    &&& lookup_setting(s, SettingKey::UseCondaForge) matches Some(SettingValueView::Flag(_))
    &&& lookup_setting(s, SettingKey::MaxEnvironments) matches Some(SettingValueView::Size(_))
    &&& lookup_setting(s, SettingKey::CreateCondarc) matches Some(SettingValueView::Flag(_))
    &&& lookup_setting(s, SettingKey::DefaultArchitecture) matches Some(SettingValueView::Arch(_))
    &&& lookup_setting(s, SettingKey::SslVerify) matches Some(SettingValueView::Flag(_))
    &&& lookup_setting(s, SettingKey::OfflineMode) matches Some(SettingValueView::Flag(_))
    &&& lookup_setting(s, SettingKey::PackageCacheSizeLimit) matches Some(
        SettingValueView::Count64(_),
    )
    &&& lookup_setting(s, SettingKey::AddPipAsPythonDependency) matches Some(
        SettingValueView::Flag(_),
    )
    &&& (lookup_setting(s, SettingKey::Proxy) is None || lookup_setting(s, SettingKey::Proxy)
        matches Some(SettingValueView::ProxyVal(_)))
}

/// The profile a well-typed document denotes.
pub open spec fn spec_decode(s: Seq<(SettingKey, SettingValueView)>) -> Option<SettingsView> {
    if decode_ok(s) {
        Some(
            SettingsView {
                environments_dir: lookup_setting(s, SettingKey::EnvironmentsDir)->0->Text_0,
                default_python_version: lookup_setting(
                    s,
                    SettingKey::DefaultPythonVersion,
                )->0->Text_0,
                channel_priority_strict: lookup_setting(
                    s,
                    SettingKey::ChannelPriorityStrict,
                )->0->Flag_0,
                default_channels: lookup_setting(s, SettingKey::DefaultChannels)->0->TextList_0,
                env_vars: lookup_setting(s, SettingKey::EnvVars)->0->TextPairs_0,
                max_retries: lookup_setting(s, SettingKey::MaxRetries)->0->Count32_0,
                network_timeout: lookup_setting(s, SettingKey::NetworkTimeout)->0->Count64_0,
                auto_update: lookup_setting(s, SettingKey::AutoUpdate)->0->Flag_0,
                default_shell: lookup_setting(s, SettingKey::DefaultShell)->0->Text_0,
                show_channel_urls: lookup_setting(s, SettingKey::ShowChannelUrls)->0->Flag_0,
                compression_type: lookup_setting(s, SettingKey::Compression)->0->Packing_0,
                use_conda_forge: lookup_setting(s, SettingKey::UseCondaForge)->0->Flag_0,
                max_environments: lookup_setting(s, SettingKey::MaxEnvironments)->0->Size_0,
                create_condarc: lookup_setting(s, SettingKey::CreateCondarc)->0->Flag_0,
                default_architecture: lookup_setting(s, SettingKey::DefaultArchitecture)->0->Arch_0,
                ssl_verify: lookup_setting(s, SettingKey::SslVerify)->0->Flag_0,
                proxy_settings: if lookup_setting(s, SettingKey::Proxy) is Some {
                    Some(lookup_setting(s, SettingKey::Proxy)->0->ProxyVal_0)
                } else {
                    None
                },
                offline_mode: lookup_setting(s, SettingKey::OfflineMode)->0->Flag_0,
                package_cache_size_limit: lookup_setting(
                    s,
                    SettingKey::PackageCacheSizeLimit,
                )->0->Count64_0,
                add_pip_as_python_dependency: lookup_setting(
                    s,
                    SettingKey::AddPipAsPythonDependency,
                )->0->Flag_0,
            },
        )
    } else {
        None
    }
}

/// Finds the first entry stored under a key.
fn find_setting<'a>(entries: &'a Vec<(SettingKey, SettingValue)>, k: SettingKey) -> (r: Option<
    &'a SettingValue,
>)
    ensures
        match r {
            Some(v) => lookup_setting(entries.deep_view(), k) == Some(v@),
            None => lookup_setting(entries.deep_view(), k) is None,
        },
{
    let ghost dv = entries.deep_view();
    proof {
        assert(dv.skip(0) =~= dv);
    }
    let mut i: usize = 0;
    while i < entries.len()
        invariant
            i <= entries.len(),
            dv == entries.deep_view(),
            dv.len() == entries@.len(),
            lookup_setting(dv, k) == lookup_setting(dv.skip(i as int), k),
        decreases entries.len() - i,
    {
        proof {
            assert(dv.skip(i as int)[0] == dv[i as int]);
            assert(dv[i as int] == entries@[i as int].deep_view());
        }
        if entries[i].0 == k {
            return Some(&entries[i].1);
        }
        proof {
            assert(dv.skip(i as int).drop_first() =~= dv.skip(i + 1));
        }
        i = i + 1;
    }
    assert(dv.skip(dv.len() as int).len() == 0);
    None
}

/// Pushes one entry onto a document, extending its deep view.
fn push_entry(v: &mut Vec<(SettingKey, SettingValue)>, k: SettingKey, val: SettingValue)
    ensures
        final(v).deep_view() == old(v).deep_view().push((k, val@)),
{
    let ghost vv = val@;
    let ghost pre = *v;
    v.push((k, val));
    proof {
        crate::deep::lemma_deep_push_last(pre, *v);
        assert(v.deep_view() =~= pre.deep_view().push((k, vv)));
    }
}

impl CondaSettings {
    /// Persists the profile as a typed key/value document, one entry
    /// per field; the proxy entry is written only when a proxy is
    /// configured.
    pub fn to_entries(&self) -> (r: Vec<(SettingKey, SettingValue)>)
        ensures
            r.deep_view() == spec_entries(self@),
    {
        let mut doc: Vec<(SettingKey, SettingValue)> = Vec::new();
        push_entry(
            &mut doc,
            SettingKey::EnvironmentsDir,
            SettingValue::Text(self.environments_dir.clone()),
        );
        push_entry(
            &mut doc,
            SettingKey::DefaultPythonVersion,
            SettingValue::Text(self.default_python_version.clone()),
        );
        push_entry(
            &mut doc,
            SettingKey::ChannelPriorityStrict,
            SettingValue::Flag(self.channel_priority_strict),
        );
        push_entry(
            &mut doc,
            SettingKey::DefaultChannels,
            SettingValue::TextList(clone_texts(&self.default_channels)),
        );
        push_entry(&mut doc, SettingKey::EnvVars, SettingValue::TextPairs(clone_pairs(&self.env_vars)));
        push_entry(&mut doc, SettingKey::MaxRetries, SettingValue::Count32(self.max_retries));
        push_entry(
            &mut doc,
            SettingKey::NetworkTimeout,
            SettingValue::Count64(self.network_timeout),
        );
        push_entry(&mut doc, SettingKey::AutoUpdate, SettingValue::Flag(self.auto_update));
        push_entry(
            &mut doc,
            SettingKey::DefaultShell,
            SettingValue::Text(self.default_shell.clone()),
        );
        push_entry(
            &mut doc,
            SettingKey::ShowChannelUrls,
            SettingValue::Flag(self.show_channel_urls),
        );
        push_entry(&mut doc, SettingKey::Compression, SettingValue::Packing(self.compression_type));
        push_entry(&mut doc, SettingKey::UseCondaForge, SettingValue::Flag(self.use_conda_forge));
        push_entry(
            &mut doc,
            SettingKey::MaxEnvironments,
            SettingValue::Size(self.max_environments),
        );
        push_entry(&mut doc, SettingKey::CreateCondarc, SettingValue::Flag(self.create_condarc));
        push_entry(
            &mut doc,
            SettingKey::DefaultArchitecture,
            SettingValue::Arch(self.default_architecture),
        );
        push_entry(&mut doc, SettingKey::SslVerify, SettingValue::Flag(self.ssl_verify));
        push_entry(&mut doc, SettingKey::OfflineMode, SettingValue::Flag(self.offline_mode));
        push_entry(
            &mut doc,
            SettingKey::PackageCacheSizeLimit,
            SettingValue::Count64(self.package_cache_size_limit),
        );
        push_entry(
            &mut doc,
            SettingKey::AddPipAsPythonDependency,
            SettingValue::Flag(self.add_pip_as_python_dependency),
        );
        match &self.proxy_settings {
            Some(p) => {
                push_entry(&mut doc, SettingKey::Proxy, SettingValue::ProxyVal(clone_proxy(p)));
            },
            None => {},
        }
        proof {
            assert(doc.deep_view() =~= spec_entries(self@));
        }
        doc
    }

    /// Reads a profile back out of a typed key/value document.  A
    /// missing or mistyped entry fails the whole decode; field values
    /// are not validated here.
    pub fn from_entries(entries: &Vec<(SettingKey, SettingValue)>) -> (r: Result<
        CondaSettings,
        CondaSettingsError,
    >)
        ensures
            r is Ok <==> spec_decode(entries.deep_view()) is Some,
            r is Ok ==> r->Ok_0@ == spec_decode(entries.deep_view())->0,
            r is Err ==> r->Err_0 is ParseError,
    {
        let environments_dir = match find_setting(entries, SettingKey::EnvironmentsDir) {
            Some(SettingValue::Text(s)) => s.clone(),
            _ => {
                return Err(missing_entry());
            },
        };
        let default_python_version = match find_setting(entries, SettingKey::DefaultPythonVersion) {
            Some(SettingValue::Text(s)) => s.clone(),
            _ => {
                return Err(missing_entry());
            },
        };
        let channel_priority_strict = match find_setting(
            entries,
            SettingKey::ChannelPriorityStrict,
        ) {
            Some(SettingValue::Flag(b)) => *b,
            _ => {
                return Err(missing_entry());
            },
        };
        let default_channels = match find_setting(entries, SettingKey::DefaultChannels) {
            Some(SettingValue::TextList(v)) => clone_texts(v),
            _ => {
                return Err(missing_entry());
            },
        };
        let env_vars = match find_setting(entries, SettingKey::EnvVars) {
            Some(SettingValue::TextPairs(v)) => clone_pairs(v),
            _ => {
                return Err(missing_entry());
            },
        };
        let max_retries = match find_setting(entries, SettingKey::MaxRetries) {
            Some(SettingValue::Count32(n)) => *n,
            _ => {
                return Err(missing_entry());
            },
        };
        let network_timeout = match find_setting(entries, SettingKey::NetworkTimeout) {
            Some(SettingValue::Count64(n)) => *n,
            _ => {
                return Err(missing_entry());
            },
        };
        let auto_update = match find_setting(entries, SettingKey::AutoUpdate) {
            Some(SettingValue::Flag(b)) => *b,
            _ => {
                return Err(missing_entry());
            },
        };
        let default_shell = match find_setting(entries, SettingKey::DefaultShell) {
            Some(SettingValue::Text(s)) => s.clone(),
            _ => {
                return Err(missing_entry());
            },
        };
        let show_channel_urls = match find_setting(entries, SettingKey::ShowChannelUrls) {
            Some(SettingValue::Flag(b)) => *b,
            _ => {
                return Err(missing_entry());
            },
        };
        let compression_type = match find_setting(entries, SettingKey::Compression) {
            Some(SettingValue::Packing(c)) => *c,
            _ => {
                return Err(missing_entry());
            },
        };
        let use_conda_forge = match find_setting(entries, SettingKey::UseCondaForge) {
            Some(SettingValue::Flag(b)) => *b,
            _ => {
                return Err(missing_entry());
            },
        };
        let max_environments = match find_setting(entries, SettingKey::MaxEnvironments) {
            Some(SettingValue::Size(n)) => *n,
            _ => {
                return Err(missing_entry());
            },
        };
        let create_condarc = match find_setting(entries, SettingKey::CreateCondarc) {
            Some(SettingValue::Flag(b)) => *b,
            _ => {
                return Err(missing_entry());
            },
        };
        let default_architecture = match find_setting(entries, SettingKey::DefaultArchitecture) {
            Some(SettingValue::Arch(a)) => *a,
            _ => {
                return Err(missing_entry());
            },
        };
        let ssl_verify = match find_setting(entries, SettingKey::SslVerify) {
            Some(SettingValue::Flag(b)) => *b,
            _ => {
                return Err(missing_entry());
            },
        };
        let offline_mode = match find_setting(entries, SettingKey::OfflineMode) {
            Some(SettingValue::Flag(b)) => *b,
            _ => {
                return Err(missing_entry());
            },
        };
        let package_cache_size_limit = match find_setting(
            entries,
            SettingKey::PackageCacheSizeLimit,
        ) {
            Some(SettingValue::Count64(n)) => *n,
            _ => {
                return Err(missing_entry());
            },
        };
        let add_pip_as_python_dependency = match find_setting(
            entries,
            SettingKey::AddPipAsPythonDependency,
        ) {
            Some(SettingValue::Flag(b)) => *b,
            _ => {
                return Err(missing_entry());
            },
        };
        let proxy_settings = match find_setting(entries, SettingKey::Proxy) {
            Some(SettingValue::ProxyVal(p)) => Some(clone_proxy(p)),
            None => None,
            _ => {
                return Err(missing_entry());
            },
        };
        let s = CondaSettings {
            environments_dir,
            default_python_version,
            channel_priority_strict,
            default_channels,
            env_vars,
            max_retries,
            network_timeout,
            auto_update,
            default_shell,
            show_channel_urls,
            compression_type,
            use_conda_forge,
            max_environments,
            create_condarc,
            default_architecture,
            ssl_verify,
            proxy_settings,
            offline_mode,
            package_cache_size_limit,
            add_pip_as_python_dependency,
        };
        proof {
            assert(s@ =~= spec_decode(entries.deep_view())->0);
        }
        Ok(s)
    }
}

/// The profile with one field replaced through its selector, where
/// the value's type fits the field; no raw reinterpretation of any
/// kind takes part.
pub open spec fn apply_setting(
    v: SettingsView,
    k: SettingKey,
    val: SettingValueView,
) -> Option<SettingsView> {
    match (k, val) {
        (SettingKey::EnvironmentsDir, SettingValueView::Text(t)) => Some(
            SettingsView { environments_dir: t, ..v },
        ),
        (SettingKey::DefaultPythonVersion, SettingValueView::Text(t)) => Some(
            SettingsView { default_python_version: t, ..v },
        ),
        (SettingKey::ChannelPriorityStrict, SettingValueView::Flag(b)) => Some(
            SettingsView { channel_priority_strict: b, ..v },
        ),
        (SettingKey::DefaultChannels, SettingValueView::TextList(l)) => Some(
            SettingsView { default_channels: l, ..v },
        ),
        (SettingKey::EnvVars, SettingValueView::TextPairs(p)) => Some(
            SettingsView { env_vars: p, ..v },
        ),
        (SettingKey::MaxRetries, SettingValueView::Count32(n)) => Some(
            SettingsView { max_retries: n, ..v },
        ),
        (SettingKey::NetworkTimeout, SettingValueView::Count64(n)) => Some(
            SettingsView { network_timeout: n, ..v },
        ),
        (SettingKey::AutoUpdate, SettingValueView::Flag(b)) => Some(
            SettingsView { auto_update: b, ..v },
        ),
        (SettingKey::DefaultShell, SettingValueView::Text(t)) => Some(
            SettingsView { default_shell: t, ..v },
        ),
        (SettingKey::ShowChannelUrls, SettingValueView::Flag(b)) => Some(
            SettingsView { show_channel_urls: b, ..v },
        ),
        (SettingKey::Compression, SettingValueView::Packing(c)) => Some(
            SettingsView { compression_type: c, ..v },
        ),
        (SettingKey::UseCondaForge, SettingValueView::Flag(b)) => Some(
            SettingsView { use_conda_forge: b, ..v },
        ),
        (SettingKey::MaxEnvironments, SettingValueView::Size(n)) => Some(
            SettingsView { max_environments: n, ..v },
        ),
        (SettingKey::CreateCondarc, SettingValueView::Flag(b)) => Some(
            SettingsView { create_condarc: b, ..v },
        ),
        (SettingKey::DefaultArchitecture, SettingValueView::Arch(a)) => Some(
            SettingsView { default_architecture: a, ..v },
        ),
        (SettingKey::SslVerify, SettingValueView::Flag(b)) => Some(
            SettingsView { ssl_verify: b, ..v },
        ),
        (SettingKey::OfflineMode, SettingValueView::Flag(b)) => Some(
            SettingsView { offline_mode: b, ..v },
        ),
        (SettingKey::PackageCacheSizeLimit, SettingValueView::Count64(n)) => Some(
            SettingsView { package_cache_size_limit: n, ..v },
        ),
        (SettingKey::AddPipAsPythonDependency, SettingValueView::Flag(b)) => Some(
            SettingsView { add_pip_as_python_dependency: b, ..v },
        ),
        (SettingKey::Proxy, SettingValueView::ProxyVal(p)) => Some(
            SettingsView { proxy_settings: Some(p), ..v },
        ),
        _ => None,
    }
}

impl CondaSettings {
    /// Replaces one field through its selector and a typed value, as
    /// `apply_setting` states.  A value whose type does not fit the
    /// selected field is refused and the profile kept untouched.
    #[verifier::spinoff_prover]
    #[verifier::rlimit(100)]
    pub fn modify_setting(&mut self, key: SettingKey, value: SettingValue) -> (r: Result<
        (),
        CondaSettingsError,
    >)
        ensures
            match apply_setting(old(self)@, key, value@) {
                Some(v) => r is Ok && final(self)@ == v,
                None => r is Err && r->Err_0 is ParseError && final(self)@ == old(self)@,
            },
    {
        let ghost vv = value@;
        match (key, value) {
            (SettingKey::EnvironmentsDir, SettingValue::Text(t)) => {
                self.environments_dir = t;
            },
            (SettingKey::DefaultPythonVersion, SettingValue::Text(t)) => {
                self.default_python_version = t;
            },
            (SettingKey::ChannelPriorityStrict, SettingValue::Flag(b)) => {
                self.channel_priority_strict = b;
            },
            (SettingKey::DefaultChannels, SettingValue::TextList(l)) => {
                self.default_channels = l;
            },
            (SettingKey::EnvVars, SettingValue::TextPairs(p)) => {
                self.env_vars = p;
            },
            (SettingKey::MaxRetries, SettingValue::Count32(n)) => {
                self.max_retries = n;
            },
            (SettingKey::NetworkTimeout, SettingValue::Count64(n)) => {
                self.network_timeout = n;
            },
            (SettingKey::AutoUpdate, SettingValue::Flag(b)) => {
                self.auto_update = b;
            },
            (SettingKey::DefaultShell, SettingValue::Text(t)) => {
                self.default_shell = t;
            },
            (SettingKey::ShowChannelUrls, SettingValue::Flag(b)) => {
                self.show_channel_urls = b;
            },
            (SettingKey::Compression, SettingValue::Packing(c)) => {
                self.compression_type = c;
            },
            (SettingKey::UseCondaForge, SettingValue::Flag(b)) => {
                self.use_conda_forge = b;
            },
            (SettingKey::MaxEnvironments, SettingValue::Size(n)) => {
                self.max_environments = n;
            },
            (SettingKey::CreateCondarc, SettingValue::Flag(b)) => {
                self.create_condarc = b;
            },
            (SettingKey::DefaultArchitecture, SettingValue::Arch(a)) => {
                self.default_architecture = a;
            },
            (SettingKey::SslVerify, SettingValue::Flag(b)) => {
                self.ssl_verify = b;
            },
            (SettingKey::OfflineMode, SettingValue::Flag(b)) => {
                self.offline_mode = b;
            },
            (SettingKey::PackageCacheSizeLimit, SettingValue::Count64(n)) => {
                self.package_cache_size_limit = n;
            },
            (SettingKey::AddPipAsPythonDependency, SettingValue::Flag(b)) => {
                self.add_pip_as_python_dependency = b;
            },
            (SettingKey::Proxy, SettingValue::ProxyVal(p)) => {
                self.proxy_settings = Some(p);
            },
            _ => {
                return Err(
                    CondaSettingsError::ParseError(
                        String::from_str("value type does not fit the selected field"),
                    ),
                );
            },
        }
        proof {
            assert(self@ =~= apply_setting(old(self)@, key, vv)->0);
        }
        Ok(())
    }
}

/// The complaint of a decode that found a missing or mistyped entry.
fn missing_entry() -> (r: CondaSettingsError)
    ensures
        r is ParseError,
{
    CondaSettingsError::ParseError(String::from_str("missing or mistyped settings entry"))
}

/// Decoding the document a profile persisted to yields that profile
/// back: the round trip through the persisted form loses nothing.
#[verifier::spinoff_prover]
#[verifier::rlimit(100)]
pub proof fn lemma_entries_round_trip(v: SettingsView)
    ensures
        spec_decode(spec_entries(v)) == Some(v),
{
    let s = spec_entries(v);
    reveal_with_fuel(lookup_setting, 25);
    assert(decode_ok(s));
    assert(spec_decode(s)->0 =~= v);
}

} // verus!
