//! Configuration: defaults, secrets and the display of settings.

pub mod env_vars;
pub mod env_vars_defaults;
pub mod env_vars_methods;
pub mod expanduser;
pub mod list_env;
pub mod secret_string;
