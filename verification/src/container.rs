//! The container record and its mathematical model.

use vstd::prelude::*;

verus! {

/// The format revision that this library writes and reads.
pub const FORMAT_VERSION: u32 = 1;

/// One container: the identity of the owning application, the embedded
/// script, the permission string and the usage tag, under a format version.
/// The script is stored as text and never run.
#[derive(Debug, PartialEq, Eq)]
pub struct AfeFile {
    pub version: u32,
    pub app_name: String,
    pub app_version: String,
    pub lua_script: String,
    /// Symbolic mode, such as `rwxr-xr-x`. Stored as given: see
    /// [`crate::permissions::validate_permissions`].
    pub permissions: String,
    pub using: String,
}

/// What a container is to the contracts: its version and its five texts as
/// sequences of characters.
pub struct AfeFileView {
    pub version: u32,
    pub app_name: Seq<char>,
    pub app_version: Seq<char>,
    pub lua_script: Seq<char>,
    pub permissions: Seq<char>,
    pub using: Seq<char>,
}

impl View for AfeFile {
    type V = AfeFileView;

    open spec fn view(&self) -> AfeFileView {
        AfeFileView {
            version: self.version,
            app_name: self.app_name@,
            app_version: self.app_version@,
            lua_script: self.lua_script@,
            permissions: self.permissions@,
            using: self.using@,
        }
    }
}

impl Clone for AfeFile {
    /// A copy that is equal in every field.
    fn clone(&self) -> (copy: Self)
        ensures
            copy@ == self@,
    {
        AfeFile {
            version: self.version,
            app_name: self.app_name.clone(),
            app_version: self.app_version.clone(),
            lua_script: self.lua_script.clone(),
            permissions: self.permissions.clone(),
            using: self.using.clone(),
        }
    }
}

} // verus!
