use asset_registry::platform::{get_cooked_dir, Platform};

#[test]
fn platform_targets() {
    assert_eq!(Platform::Win64.target(), "WindowsNoEditor");
    assert_eq!(Platform::Linux.target(), "LinuxNoEditor");
}

#[test]
fn cooked_dirs() {
    assert_eq!(get_cooked_dir(Platform::Win64), "Saved/Cooked/WindowsNoEditor");
    assert_eq!(get_cooked_dir(Platform::Linux), "Saved/Cooked/LinuxNoEditor");
}

#[test]
fn cooked_dir_is_a_relative_path_of_three_components() {
    let dir = get_cooked_dir(Platform::Linux);
    let path = std::path::Path::new(&dir);
    assert!(path.is_relative());
    assert_eq!(path, std::path::Path::new("Saved/Cooked").join("LinuxNoEditor"));
    assert_eq!(path.components().count(), 3);
}
