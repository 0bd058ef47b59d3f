//! The typed configuration model: identifiers, settings, services, the
//! edits that can be applied to a configuration, and its error type.

pub mod edit;
pub mod ids;
pub mod model;
pub mod store;
pub mod toml_value;
pub mod validate;

pub use ids::{is_id_char, is_valid_id, validate_id_chars, ProfileName, ServiceId, MAX_ID_LEN};
pub use model::{
    key_or_root, services_equal, Config, ConfigError, IconSource, ServiceConfig, Settings,
};
pub use edit::edit_config_text;
pub use store::{check_edit, is_permutation, ConfigEdit, ServicePatch, SettingsPatch};
