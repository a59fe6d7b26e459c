//! Process configuration.
//!
//! Loaded once at startup by the shell and handed to every component at
//! construction; nothing here is mutated at runtime. The shell parses the
//! configuration file and builds this structure; the defaults below stand
//! in when no file is readable.
use vstd::prelude::*;
use vstd::string::StringExecFns;

use crate::policy::Permissions;

verus! {

/// The optional after-upload moderation authority.
pub struct UploadCheck {
    /// Where to send the moderation request.
    pub url: String,
    /// The warning text for the uploader when content is rejected.
    pub not_allowed_msg: Option<String>,
}

/// The configuration surface the core consumes.
pub struct ServerConfig {
    /// Bind address.
    pub url: String,
    /// Bind port.
    pub port: u16,
    /// Root of the durable image store.
    pub images_storage_path: String,
    /// Largest accepted upload, in bytes.
    pub max_image_size_byte: usize,
    /// The per-operation permission table.
    pub permissions: Permissions,
    /// The moderation authority, when configured.
    pub upload_check: Option<UploadCheck>,
}

impl Default for ServerConfig {
    /// The fallback used when no configuration file can be read: listen
    /// everywhere on the fixed port, store under the fixed path, allow
    /// uploads up to twenty megabytes, no restrictions, no moderation.
    fn default() -> (r: Self)
        ensures
            r.port == 1871,
            r.max_image_size_byte == 20971520,
            r.upload_check is None,
            r.url@ == "0.0.0.0"@,
            r.images_storage_path@ == "/wim_storage/pictures"@,
            r.permissions.spec_unrestricted(),
    {
        let max: usize = 20 * 1024 * 1024;
        ServerConfig {
            url: String::from_str("0.0.0.0"),
            port: 1871,
            images_storage_path: String::from_str("/wim_storage/pictures"),
            max_image_size_byte: max,
            permissions: Permissions::default(),
            upload_check: None,
        }
    }
}

} // verus!
