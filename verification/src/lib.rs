//! State model for package environments managed by an external
//! package-manager tool, together with a mergeable, validated
//! configuration profile controlling how operations against that
//! tool are performed.
//!
//! The crate holds the verified core: settings construction, merge
//! and validation, environment discovery and package indexing,
//! version-aware update detection, and the argument templates handed
//! to the external tool.  File, network and process I/O live outside
//! this crate and exchange plain values with it.

pub mod commands;
mod deep;
pub mod manager;
pub mod package;
pub mod settings;
pub mod settings_doc;
pub mod text;
pub mod version;

pub use manager::CondaConfig;
pub use manager::CondaEnvironment;
pub use manager::CondaError;
pub use manager::CondaPackageManager;
pub use manager::EnvListing;
pub use manager::MetaParse;
pub use package::Package;
pub use settings::Architecture;
pub use settings::CompressionType;
pub use settings::CondaSettings;
pub use settings::CondaSettingsError;
pub use settings::ProxySettings;
pub use settings_doc::SettingKey;
pub use settings_doc::SettingValue;
pub use version::PreIdent;
pub use version::Version;
