use desktop_agent::autostart::{
    autostart_location, disable_autostart, enable_autostart, is_autostart_enabled, AutostartEntry,
    AutostartLocation, Platform, RemovalError,
};

#[test]
fn linux_entry_is_a_desktop_file() {
    match enable_autostart(Platform::Linux, "/home/u", "/opt/agent") {
        Ok(AutostartEntry::File { path, content }) => {
            assert_eq!(path, "/home/u/.config/autostart/spk-desktop.desktop");
            assert!(content.starts_with("[Desktop Entry]\n"));
            assert!(content.contains("Exec=\"/opt/agent\" --minimized\n"));
            assert!(content.ends_with("X-GNOME-Autostart-enabled=true\n"));
        }
        _ => panic!("expected a file entry"),
    }
}

#[test]
fn macos_entry_is_a_launch_agent() {
    match enable_autostart(Platform::MacOs, "/Users/u", "/Applications/A.app/a") {
        Ok(AutostartEntry::File { path, content }) => {
            assert_eq!(path, "/Users/u/Library/LaunchAgents/network.spk.desktop.plist");
            assert!(content.contains("<string>/Applications/A.app/a</string>"));
            assert!(content.ends_with("</plist>"));
        }
        _ => panic!("expected a file entry"),
    }
}

#[test]
fn windows_entry_is_a_run_value() {
    match enable_autostart(Platform::Windows, "C:\\Users\\u", "C:\\a.exe") {
        Ok(AutostartEntry::RegistryValue { key, name, command }) => {
            assert_eq!(key, "Software\\Microsoft\\Windows\\CurrentVersion\\Run");
            assert_eq!(name, "SPKDesktop");
            assert_eq!(command, "\"C:\\a.exe\" --minimized");
        }
        _ => panic!("expected a registry value"),
    }
}

#[test]
fn other_platforms_are_unsupported() {
    assert_eq!(
        enable_autostart(Platform::Other, "/h", "/e").err(),
        Some("Auto-start not supported on this platform".to_string())
    );
    assert!(autostart_location(Platform::Other, "/h").is_err());
    assert!(disable_autostart(Platform::Other, Ok(())).is_err());
    assert!(!is_autostart_enabled(Platform::Other, true));
}

#[test]
fn locations_and_removal() {
    match autostart_location(Platform::Linux, "/home/u") {
        Ok(AutostartLocation::File { path }) => assert_eq!(path, "/home/u/.config/autostart/spk-desktop.desktop"),
        _ => panic!("expected a file"),
    }
    assert_eq!(disable_autostart(Platform::Windows, Err(RemovalError::NotFound)), Ok(()));
    assert_eq!(disable_autostart(Platform::Linux, Ok(())), Ok(()));
    assert_eq!(
        disable_autostart(Platform::MacOs, Err(RemovalError::Failed("denied".to_string()))),
        Err("denied".to_string())
    );
    assert!(is_autostart_enabled(Platform::Linux, true));
    assert!(!is_autostart_enabled(Platform::Windows, false));
}
