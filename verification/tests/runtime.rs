use scrcpy_studio::models::RuntimeStatus;
use scrcpy_studio::runtime::{
    adb_path, executable_names, folder_opener, install_supported, install_verified, output_text,
    runtime_status, scrcpy_path, tool_version, HostOs,
};

#[test]
fn command_output_prefers_standard_output() {
    assert_eq!(output_text(" out \n", "err", true, "exit status: 0"), Ok("out".to_string()));
    assert_eq!(output_text("  ", " err ", true, "exit status: 0"), Ok("err".to_string()));
    assert_eq!(output_text("", "", false, "exit status: 2"), Err("Command failed with exit status: 2".to_string()));
    assert_eq!(output_text("bad", "", false, "exit status: 2"), Err("bad".to_string()));
}

#[test]
fn tool_version_is_the_first_line() {
    assert_eq!(tool_version(&Ok("scrcpy 3.1\nmore".to_string())), Some("scrcpy 3.1".to_string()));
    assert_eq!(tool_version(&Ok(String::new())), None);
    assert_eq!(tool_version(&Err("x".to_string())), None);
}

#[test]
fn missing_tools_explain_what_to_install() {
    assert_eq!(adb_path(Some("/bin/adb".into()), HostOs::Linux), Ok("/bin/adb".to_string()));
    assert!(adb_path(None, HostOs::Linux).unwrap_err().contains("android-tools"));
    assert!(adb_path(None, HostOs::Windows).unwrap_err().contains("Install official runtime"));
    assert!(scrcpy_path(None).unwrap_err().starts_with("scrcpy was not found."));
}

#[test]
fn status_reports_versions_only_for_found_tools() {
    let status = runtime_status(Some("adb".into()), None, Some("1.0".into()), Some("2.0".into()));
    assert!(status.adb_found);
    assert!(!status.scrcpy_found);
    assert_eq!(status.adb_version.as_deref(), Some("1.0"));
    assert!(status.scrcpy_version.is_none());
}

#[test]
fn executable_names_and_openers() {
    assert_eq!(executable_names("adb", HostOs::Windows), vec!["adb.exe", "adb"]);
    assert_eq!(executable_names("adb", HostOs::Linux), vec!["adb"]);
    assert_eq!(folder_opener(HostOs::Windows), "explorer");
    assert_eq!(folder_opener(HostOs::MacOs), "open");
    assert_eq!(folder_opener(HostOs::Linux), "xdg-open");
}

#[test]
fn installation_support_and_verification() {
    assert_eq!(install_supported(HostOs::Windows, "x86"), Ok(()));
    assert_eq!(install_supported(HostOs::Linux, "x86_64"), Ok(()));
    assert_eq!(
        install_supported(HostOs::Linux, "aarch64"),
        Err("The official prebuilt Linux runtime is available for x86_64 PCs, but this system reports aarch64.".to_string())
    );
    assert!(install_supported(HostOs::MacOs, "aarch64").is_err());
    let status = RuntimeStatus {
        adb_found: false,
        scrcpy_found: true,
        adb_path: None,
        scrcpy_path: Some("s".into()),
        adb_version: None,
        scrcpy_version: None,
    };
    assert_eq!(install_verified(HostOs::Linux, &status), Ok(()));
    assert!(install_verified(HostOs::Windows, &status).is_err());
}
