//! AFE containers: a versioned record that bundles an embedded script, a
//! permission string and the identity of the owning application, together
//! with its binary encoding and a builder that assembles such records.

pub mod builder;
pub mod codec;
pub mod container;
pub mod error;
pub mod format;
pub mod laws;
pub mod permissions;
mod trusted;

pub use builder::{AfeBuilder, AfeBuilderView};
pub use container::{AfeFile, AfeFileView, FORMAT_VERSION};
pub use error::{AfeError, PermissionFault};
pub use permissions::{is_valid_permissions, validate_permissions, DEFAULT_PERMISSIONS};
