//! The application manifest handed to the overlay platform at install
//! time: one built-in dashboard-overlay application entry with a localized
//! name.
//!
//! The shell serializes a mirror of this structure to disk and registers
//! it; here the structure is built, with every field pinned.
use vstd::prelude::*;

verus! {

/// The stable key under which the application registers itself.
pub const APP_KEY: &'static str = "vrchat-join-leave-notifier";

#[derive(Debug, Clone, PartialEq, Eq)]
pub enum VrManifestSource {
    Builtin,
}

#[derive(Debug, Clone, PartialEq, Eq)]
pub enum VrManifestApplicationLaunchType {
    Binary,
}

/// One localized display entry.
#[derive(Debug, Clone, PartialEq, Eq)]
pub struct VrManifestApplicationString {
    pub name: String,
    pub description: String,
}

/// One registered application.
#[derive(Debug, Clone, PartialEq, Eq)]
pub struct VrManifestApplication {
    pub app_key: String,
    pub launch_type: VrManifestApplicationLaunchType,
    pub binary_path_windows: String,
    pub is_dashboard_overlay: bool,
    pub strings: Vec<(String, VrManifestApplicationString)>,
}

/// The whole manifest: a built-in source with one application.
#[derive(Debug, Clone, PartialEq, Eq)]
pub struct VrManifest {
    pub source: VrManifestSource,
    pub applications: Vec<VrManifestApplication>,
}

impl VrManifest {
    /// Builds the manifest for the given binary name: one built-in
    /// dashboard-overlay application under [`APP_KEY`], with its single
    /// localized entry.
    pub fn new(binary_path_windows: &str) -> (m: Self)
        ensures
            m.source == VrManifestSource::Builtin,
            m.applications@.len() == 1,
            m.applications@[0].app_key@ == APP_KEY@,
            m.applications@[0].launch_type == VrManifestApplicationLaunchType::Binary,
            m.applications@[0].binary_path_windows@ == binary_path_windows@,
            m.applications@[0].is_dashboard_overlay == true,
            m.applications@[0].strings@.len() == 1,
            m.applications@[0].strings@[0].0@ == "en_us"@,
            m.applications@[0].strings@[0].1.name@ == "VRChat Join/Leave Notifier"@,
            m.applications@[0].strings@[0].1.description@ == "VRChat/Join Leave Notifier"@,
    {
        let app_key = APP_KEY.to_owned();
        let binary_path_windows = binary_path_windows.to_owned();
        let mut strings: Vec<(String, VrManifestApplicationString)> = Vec::new();
        strings.push(
            (
                "en_us".to_owned(),
                VrManifestApplicationString {
                    name: "VRChat Join/Leave Notifier".to_owned(),
                    description: "VRChat/Join Leave Notifier".to_owned(),
                },
            ),
        );
        let mut applications: Vec<VrManifestApplication> = Vec::new();
        applications.push(
            VrManifestApplication {
                app_key,
                launch_type: VrManifestApplicationLaunchType::Binary,
                binary_path_windows,
                is_dashboard_overlay: true,
                strings,
            },
        );
        VrManifest { source: VrManifestSource::Builtin, applications }
    }
}

} // verus!
