use join_leave_notifier::manifest::{
    VrManifest, VrManifestApplicationLaunchType, VrManifestSource, APP_KEY,
};

#[test]
fn manifest_registers_one_dashboard_overlay_application() {
    let m = VrManifest::new("notifier.exe");
    assert!(matches!(m.source, VrManifestSource::Builtin));
    assert_eq!(m.applications.len(), 1);
    let app = &m.applications[0];
    assert_eq!(app.app_key, APP_KEY);
    assert!(matches!(
        app.launch_type,
        VrManifestApplicationLaunchType::Binary
    ));
    assert_eq!(app.binary_path_windows, "notifier.exe");
    assert!(app.is_dashboard_overlay);
    assert_eq!(app.strings.len(), 1);
    let (locale, s) = &app.strings[0];
    assert_eq!(locale, "en_us");
    assert_eq!(s.name, "VRChat Join/Leave Notifier");
    assert_eq!(s.description, "VRChat/Join Leave Notifier");
}
