use oracle::adb::{AdbDevice, AdbDeviceState, AdbInterface, LiveAdbInterface, MockAdbInterface};
use oracle::briefing::generate_briefing;
use oracle::detector::{classes_from_presence, CapabilityDetector};
use oracle::error::OracleError;
use oracle::profiles::CapabilityProfileStore;
use oracle::vfs::{MockVfs, VirtualFileSystem};
use oracle::types::{
    AccessibleArtifactClass, AcquisitionMethod, ArtifactClass, BootloaderState,
    CapabilityProfile, DeviceIdentity, EncryptionState, EncryptionZone, ExaminerIdentity,
    InaccessibleArtifactClass, InvestigationId, RootMethod, SelinuxMode,
};

fn base_mock(serial: &str) -> MockAdbInterface {
    MockAdbInterface::new()
        .with_device(serial, AdbDeviceState::Device)
        .with_prop(serial, "ro.serialno", serial)
        .with_prop(serial, "ro.product.manufacturer", "Google")
        .with_prop(serial, "ro.product.model", "Pixel 8 Pro")
        .with_prop(serial, "ro.build.version.release", "14")
        .with_prop(serial, "ro.build.version.sdk", "34")
        .with_prop(serial, "ro.build.version.security_patch", "2024-12-01")
        .with_prop(
            serial,
            "ro.build.fingerprint",
            "google/husky/husky:14/AP2A.240905.003/12231197:userdebug/dev-keys",
        )
        .with_shell_response(serial, "which magisk", "")
        .with_shell_response(serial, "which su", "")
        .with_shell_response(serial, "id", "uid=2000(shell)")
        .with_shell_response(serial, "getenforce", "Enforcing")
        .with_prop(serial, "ro.boot.verifiedbootstate", "green")
        .with_prop(serial, "ro.crypto.state", "encrypted")
        .with_prop(serial, "ro.crypto.type", "file")
        .with_prop(serial, "vold.decrypt", "")
        .with_shell_response(
            serial,
            "ls /data/user/0/ 2>&1",
            "com.android.settings\ncom.google.android.gms",
        )
        .with_file_exists(serial, "/data/adb/ksu", false)
}

fn sample_profile(
    root: RootMethod,
    selinux: SelinuxMode,
    encryption: EncryptionState,
    accessible: Vec<AccessibleArtifactClass>,
    inaccessible: Vec<InaccessibleArtifactClass>,
    methods: Vec<AcquisitionMethod>,
) -> CapabilityProfile {
    CapabilityProfile {
        device: DeviceIdentity {
            serial: "TEST_SERIAL".to_string(),
            manufacturer: "Samsung".to_string(),
            model: "SM-S928B".to_string(),
            android_version: "14".to_string(),
            api_level: 34,
            security_patch_level: "2024-12-01".to_string(),
            build_fingerprint: "samsung/e3qxxx/e3q:14/UP1A/S928BXXU1AXLA:user/release-keys"
                .to_string(),
            oem_skin: Some("One UI".to_string()),
            oem_skin_version: Some("6.1".to_string()),
        },
        usb_debugging_enabled: true,
        adb_authorized: true,
        root_method: root,
        selinux_mode: selinux,
        bootloader_state: BootloaderState::Locked,
        encryption_state: encryption,
        available_methods: methods,
        accessible_artifact_classes: accessible,
        inaccessible_artifact_classes: inaccessible,
        detected_at: 0,
        acknowledged: false,
    }
}

#[test]
fn test_adb_device_state_parsing() {
    assert_eq!(AdbDeviceState::from_str_state("device"), AdbDeviceState::Device);
    assert_eq!(AdbDeviceState::from_str_state("offline"), AdbDeviceState::Offline);
    assert_eq!(AdbDeviceState::from_str_state("unauthorized"), AdbDeviceState::Unauthorized);
    assert_eq!(AdbDeviceState::from_str_state("DEVICE"), AdbDeviceState::Device);
    assert_eq!(
        AdbDeviceState::from_str_state("sideload"),
        AdbDeviceState::Unknown("sideload".to_string())
    );
}

#[test]
fn test_adb_device_state_trims_and_lowercases_unknown() {
    assert_eq!(AdbDeviceState::from_str_state("  Offline \n"), AdbDeviceState::Offline);
    assert_eq!(
        AdbDeviceState::from_str_state(" Recovery "),
        AdbDeviceState::Unknown("recovery".to_string())
    );
}

#[test]
fn test_acquisition_methods_rooted_permissive() {
    let methods = CapabilityDetector::determine_acquisition_methods(
        RootMethod::Magisk,
        SelinuxMode::Permissive,
        EncryptionState::AfterFirstUnlock,
    );
    assert!(methods.contains(&AcquisitionMethod::PrivilegedLogical));
    assert!(methods.contains(&AcquisitionMethod::ContentProvider));
    assert!(!methods.contains(&AcquisitionMethod::UnprivilegedLogical));
    assert!(!methods.contains(&AcquisitionMethod::AdbBackup));
}

#[test]
fn test_acquisition_methods_rooted_enforcing() {
    let methods = CapabilityDetector::determine_acquisition_methods(
        RootMethod::Magisk,
        SelinuxMode::Enforcing,
        EncryptionState::AfterFirstUnlock,
    );
    assert!(methods.contains(&AcquisitionMethod::PrivilegedLogical));
    assert!(methods.contains(&AcquisitionMethod::ContentProvider));
}

#[test]
fn test_acquisition_methods_unrooted_afu() {
    let methods = CapabilityDetector::determine_acquisition_methods(
        RootMethod::NoRoot,
        SelinuxMode::Enforcing,
        EncryptionState::AfterFirstUnlock,
    );
    assert!(!methods.contains(&AcquisitionMethod::PrivilegedLogical));
    assert!(methods.contains(&AcquisitionMethod::ContentProvider));
    assert!(methods.contains(&AcquisitionMethod::UnprivilegedLogical));
    assert!(methods.contains(&AcquisitionMethod::AdbBackup));
}

#[test]
fn test_acquisition_methods_unrooted_bfu() {
    let methods = CapabilityDetector::determine_acquisition_methods(
        RootMethod::NoRoot,
        SelinuxMode::Enforcing,
        EncryptionState::BeforeFirstUnlock,
    );
    assert!(!methods.contains(&AcquisitionMethod::PrivilegedLogical));
    assert!(methods.contains(&AcquisitionMethod::ContentProvider));
    assert!(methods.contains(&AcquisitionMethod::UnprivilegedLogical));
    assert!(methods.contains(&AcquisitionMethod::AdbBackup));
}

#[test]
fn test_acquisition_methods_exact_order() {
    assert_eq!(
        CapabilityDetector::determine_acquisition_methods(
            RootMethod::KernelSU,
            SelinuxMode::Disabled,
            EncryptionState::Unknown,
        ),
        vec![AcquisitionMethod::PrivilegedLogical, AcquisitionMethod::ContentProvider]
    );
    assert_eq!(
        CapabilityDetector::determine_acquisition_methods(
            RootMethod::NoRoot,
            SelinuxMode::Disabled,
            EncryptionState::Unknown,
        ),
        vec![
            AcquisitionMethod::ContentProvider,
            AcquisitionMethod::UnprivilegedLogical,
            AcquisitionMethod::AdbBackup
        ]
    );
}

#[test]
fn test_mock_list_devices() {
    let mock = MockAdbInterface::new()
        .with_device("ABC123", AdbDeviceState::Device)
        .with_device("DEF456", AdbDeviceState::Unauthorized);
    let devices = mock.list_devices().unwrap();
    assert_eq!(devices.len(), 2);
    assert_eq!(devices[0].serial, "ABC123");
    assert_eq!(devices[0].state, AdbDeviceState::Device);
    assert_eq!(devices[1].serial, "DEF456");
    assert_eq!(devices[1].state, AdbDeviceState::Unauthorized);
}

#[test]
fn test_mock_shell_command() {
    let mock = MockAdbInterface::new().with_shell_response("SER1", "getenforce", "Enforcing");
    assert_eq!(mock.shell_command("SER1", "getenforce").unwrap(), "Enforcing");
    assert_eq!(mock.shell_command("SER1", "unknown_cmd").unwrap(), "");
}

#[test]
fn test_mock_get_prop() {
    let mock = MockAdbInterface::new().with_prop("SER1", "ro.product.model", "Pixel 8 Pro");
    assert_eq!(mock.get_prop("SER1", "ro.product.model").unwrap(), "Pixel 8 Pro");
    assert_eq!(mock.get_prop("SER1", "ro.nonexistent").unwrap(), "");
}

#[test]
fn test_mock_later_answer_replaces_earlier() {
    let mock = MockAdbInterface::new()
        .with_prop("SER1", "ro.product.model", "Old")
        .with_prop("SER1", "ro.product.model", "New");
    assert_eq!(mock.get_prop("SER1", "ro.product.model").unwrap(), "New");
}

#[test]
fn test_mock_file_operations() {
    let mock = MockAdbInterface::new()
        .with_file_exists("SER1", "/system/build.prop", true)
        .with_file_readable("SER1", "/system/build.prop", true)
        .with_file_exists("SER1", "/data/secret", true)
        .with_file_readable("SER1", "/data/secret", false);
    assert!(mock.check_file_exists("SER1", "/system/build.prop").unwrap());
    assert!(mock.check_file_readable("SER1", "/system/build.prop").unwrap());
    assert!(mock.check_file_exists("SER1", "/data/secret").unwrap());
    assert!(!mock.check_file_readable("SER1", "/data/secret").unwrap());
    assert!(!mock.check_file_exists("SER1", "/nonexistent").unwrap());
}

#[test]
fn test_mock_pull_file_success() {
    let mock = MockAdbInterface::new();
    assert!(mock.pull_file("SER1", "/remote/file", "/local/file").is_ok());
}

#[test]
fn test_mock_pull_file_failure() {
    let mut mock = MockAdbInterface::new();
    mock.pull_should_fail = true;
    match mock.pull_file("SER1", "/remote/file", "/local/file") {
        Err(OracleError::AdbCommandFailed { serial, command, reason }) => {
            assert_eq!(serial, "SER1");
            assert_eq!(command, "pull /remote/file");
            assert_eq!(reason, "Mock pull failure");
        }
        other => panic!("unexpected {:?}", other),
    }
}

#[test]
fn test_mock_stat_file() {
    let mock = MockAdbInterface::new().with_file_exists("S", "/a", true);
    let st = mock.stat_file("S", "/a").unwrap();
    assert!(st.exists);
    assert_eq!(st.permissions.as_deref(), Some("644"));
    assert_eq!(st.size_bytes, Some(1024));
    assert_eq!(st.selinux_context.as_deref(), Some("u:object_r:system_data_file:s0"));
    let missing = mock.stat_file("S", "/b").unwrap();
    assert!(!missing.exists);
    assert!(missing.owner.is_none());
}

#[test]
fn test_mock_verify_connection() {
    let mock = MockAdbInterface::new()
        .with_device("A", AdbDeviceState::Device)
        .with_device("B", AdbDeviceState::Unauthorized)
        .with_device("C", AdbDeviceState::Offline);
    assert_eq!(mock.verify_connection("A").unwrap(), "A");
    assert!(matches!(mock.verify_connection("B"), Err(OracleError::DeviceUnauthorized { .. })));
    match mock.verify_connection("C") {
        Err(OracleError::DeviceOffline { state, .. }) => assert_eq!(state, "unknown"),
        other => panic!("unexpected {:?}", other),
    }
    match mock.verify_connection("Z") {
        Err(OracleError::AdbCommandFailed { reason, .. }) => assert_eq!(reason, "Device Z not found"),
        other => panic!("unexpected {:?}", other),
    }
    assert!(matches!(
        MockAdbInterface::new().verify_connection("A"),
        Err(OracleError::NoDeviceDetected)
    ));
}

#[test]
fn test_live_interface_paths() {
    assert_eq!(LiveAdbInterface::new().adb_path(), "adb");
    assert_eq!(LiveAdbInterface::with_adb_path("/opt/adb").adb_path(), "/opt/adb");
}

#[test]
fn test_parse_device_list() {
    let out = "List of devices attached\nRF8N1234 device usb:1-1 product:e3q model:SM_S928B\n192.168.1.5:5555\tdevice product:x\n\nZX1 unauthorized\n";
    let devices = LiveAdbInterface::parse_device_list(out);
    assert_eq!(devices.len(), 3);
    assert_eq!(devices[0].serial, "RF8N1234");
    assert_eq!(devices[0].state, AdbDeviceState::Device);
    assert_eq!(devices[0].transport_type, "usb");
    assert_eq!(devices[1].serial, "192.168.1.5:5555");
    assert_eq!(devices[1].transport_type, "tcp");
    assert_eq!(devices[2].state, AdbDeviceState::Unauthorized);
    assert_eq!(devices[2].transport_type, "unknown");
}

#[test]
fn test_parse_stat_output() {
    let st = LiveAdbInterface::parse_stat("644 2048 system wifi", "u:object_r:wifi_data_file:s0 /data/misc/wifi/x");
    assert!(st.exists);
    assert_eq!(st.permissions.as_deref(), Some("644"));
    assert_eq!(st.size_bytes, Some(2048));
    assert_eq!(st.owner.as_deref(), Some("system"));
    assert_eq!(st.group.as_deref(), Some("wifi"));
    assert_eq!(st.selinux_context.as_deref(), Some("u:object_r:wifi_data_file:s0"));
    let missing = LiveAdbInterface::parse_stat("stat: cannot stat '/x': No such file or directory", "");
    assert!(!missing.exists);
    assert!(missing.size_bytes.is_none());
}

#[test]
fn test_live_command_texts() {
    assert_eq!(
        LiveAdbInterface::exists_command_text("/data/x"),
        "[ -e '/data/x' ] && echo EXISTS || echo MISSING"
    );
    assert_eq!(
        LiveAdbInterface::readable_command_text("/data/x"),
        "[ -r '/data/x' ] && echo READABLE || echo UNREADABLE"
    );
    assert!(LiveAdbInterface::exists_from_output("EXISTS"));
    assert!(!LiveAdbInterface::exists_from_output("MISSING"));
    assert!(LiveAdbInterface::readable_from_output("READABLE"));
    assert!(LiveAdbInterface::readable_from_output("READABLE\n"));
    assert!(!LiveAdbInterface::readable_from_output("UNREADABLE\n"));
}

#[test]
fn test_connection_target_and_echo() {
    let mock = MockAdbInterface::new()
        .with_device("A", AdbDeviceState::Device)
        .with_device("B", AdbDeviceState::Unknown("sideload".to_string()));
    let devices = mock.list_devices().unwrap();
    assert!(oracle::adb::connection_target(&devices, "A").is_ok());
    match oracle::adb::connection_target(&devices, "B") {
        Err(OracleError::DeviceOffline { state, .. }) => assert_eq!(state, "sideload"),
        other => panic!("unexpected {:?}", other),
    }
    assert!(matches!(
        oracle::adb::connection_target(&devices, "Q"),
        Err(OracleError::AmbiguousDeviceSelection { count: 2 })
    ));
    let one = MockAdbInterface::new().with_device("A", AdbDeviceState::Device).list_devices().unwrap();
    match oracle::adb::connection_target(&one, "Q") {
        Err(OracleError::AdbCommandFailed { reason, .. }) => {
            assert_eq!(reason, "Device Q not found. Connected devices: A")
        }
        other => panic!("unexpected {:?}", other),
    }
    assert_eq!(oracle::adb::echo_outcome("A", &Ok("ORACLE_VERIFY".to_string())).unwrap(), "A");
    match oracle::adb::echo_outcome("A", &Ok("nope".to_string())) {
        Err(OracleError::AdbCommandFailed { reason, .. }) => {
            assert_eq!(reason, "Echo test returned unexpected output: nope")
        }
        other => panic!("unexpected {:?}", other),
    }
    match oracle::adb::echo_outcome("A", &Err(OracleError::NoDeviceDetected)) {
        Err(OracleError::AdbCommandFailed { reason, .. }) => assert_eq!(
            reason,
            "Shell echo test failed: No Android device detected on any transport"
        ),
        other => panic!("unexpected {:?}", other),
    }
    let live_like = MockAdbInterface::new()
        .with_device("A", AdbDeviceState::Device)
        .with_shell_response("A", "echo ORACLE_VERIFY", "ORACLE_VERIFY");
    assert_eq!(oracle::adb::verify_connection_via(&live_like, "A").unwrap(), "A");
}

#[test]
fn test_detect_device_identity() {
    let serial = "PIXEL8PRO";
    let mock = base_mock(serial);
    let identity = CapabilityDetector::new().detect_device_identity(&mock, serial).unwrap();
    assert_eq!(identity.serial, serial);
    assert_eq!(identity.manufacturer, "Google");
    assert_eq!(identity.model, "Pixel 8 Pro");
    assert_eq!(identity.android_version, "14");
    assert_eq!(identity.api_level, 34);
    assert_eq!(identity.security_patch_level, "2024-12-01");
    assert!(identity.build_fingerprint.contains("google/husky"));
    assert!(identity.oem_skin.is_none());
}

#[test]
fn test_detect_device_identity_samsung() {
    let serial = "SAMSUNG1";
    let mock = base_mock(serial)
        .with_prop(serial, "ro.product.manufacturer", "samsung")
        .with_prop(serial, "ro.product.model", "SM-S928B")
        .with_prop(serial, "ro.build.PDA", "S928BXXU1AXLA");
    let identity = CapabilityDetector::new().detect_device_identity(&mock, serial).unwrap();
    assert_eq!(identity.manufacturer, "samsung");
    assert_eq!(identity.model, "SM-S928B");
    assert_eq!(identity.oem_skin.as_deref(), Some("One UI"));
    assert_eq!(identity.oem_skin_version.as_deref(), Some("S928BXXU1AXLA"));
}

#[test]
fn test_oem_skin_xiaomi() {
    let (skin, ver) = CapabilityDetector::oem_skin_from("Xiaomi", "", "OS1.0.3");
    assert_eq!(skin.as_deref(), Some("HyperOS"));
    assert_eq!(ver.as_deref(), Some("OS1.0.3"));
    let (skin, _) = CapabilityDetector::oem_skin_from("Redmi", "", "V14");
    assert_eq!(skin.as_deref(), Some("MIUI"));
    let (skin, ver) = CapabilityDetector::oem_skin_from("POCO", "", "");
    assert!(skin.is_none() && ver.is_none());
}

#[test]
fn test_detect_root_magisk() {
    let serial = "DEV1";
    let mock = MockAdbInterface::new()
        .with_shell_response(serial, "which magisk", "/sbin/magisk")
        .with_file_exists(serial, "/data/adb/ksu", false);
    let root = CapabilityDetector::new().detect_root_method(&mock, serial).unwrap();
    assert_eq!(root, RootMethod::Magisk);
}

#[test]
fn test_detect_root_kernelsu() {
    let serial = "DEV1";
    let mock = MockAdbInterface::new()
        .with_shell_response(serial, "which magisk", "")
        .with_file_exists(serial, "/data/adb/ksu", true);
    let root = CapabilityDetector::new().detect_root_method(&mock, serial).unwrap();
    assert_eq!(root, RootMethod::KernelSU);
}

#[test]
fn test_detect_root_system_su() {
    let serial = "DEV1";
    let mock = MockAdbInterface::new()
        .with_shell_response(serial, "which magisk", "")
        .with_file_exists(serial, "/data/adb/ksu", false)
        .with_shell_response(serial, "which su", "/system/bin/su")
        .with_shell_response(serial, "id", "uid=2000(shell)");
    let root = CapabilityDetector::new().detect_root_method(&mock, serial).unwrap();
    assert_eq!(root, RootMethod::SystemRoot);
}

#[test]
fn test_detect_root_adb_root() {
    let serial = "DEV1";
    let mock = MockAdbInterface::new()
        .with_shell_response(serial, "which magisk", "")
        .with_file_exists(serial, "/data/adb/ksu", false)
        .with_shell_response(serial, "which su", "")
        .with_shell_response(serial, "id", "uid=0(root) gid=0(root)");
    let root = CapabilityDetector::new().detect_root_method(&mock, serial).unwrap();
    assert_eq!(root, RootMethod::AdbRoot);
}

#[test]
fn test_detect_root_none() {
    let serial = "DEV1";
    let mock = MockAdbInterface::new()
        .with_shell_response(serial, "which magisk", "magisk: not found")
        .with_file_exists(serial, "/data/adb/ksu", false)
        .with_shell_response(serial, "which su", "")
        .with_shell_response(serial, "id", "uid=2000(shell)");
    let root = CapabilityDetector::new().detect_root_method(&mock, serial).unwrap();
    assert_eq!(root, RootMethod::NoRoot);
}

#[test]
fn test_detect_selinux_modes() {
    let d = CapabilityDetector::new();
    let m = MockAdbInterface::new().with_shell_response("D", "getenforce", "Enforcing");
    assert_eq!(d.detect_selinux_mode(&m, "D").unwrap(), SelinuxMode::Enforcing);
    let m = MockAdbInterface::new().with_shell_response("D", "getenforce", "Permissive");
    assert_eq!(d.detect_selinux_mode(&m, "D").unwrap(), SelinuxMode::Permissive);
    let m = MockAdbInterface::new().with_shell_response("D", "getenforce", "Disabled");
    assert_eq!(d.detect_selinux_mode(&m, "D").unwrap(), SelinuxMode::Disabled);
    let m = MockAdbInterface::new()
        .with_shell_response("D", "getenforce", "")
        .with_shell_response("D", "cat /sys/fs/selinux/enforce", "0");
    assert_eq!(d.detect_selinux_mode(&m, "D").unwrap(), SelinuxMode::Permissive);
    let m = MockAdbInterface::new();
    assert_eq!(d.detect_selinux_mode(&m, "D").unwrap(), SelinuxMode::Unknown);
}

#[test]
fn test_detect_bootloader_states() {
    let d = CapabilityDetector::new();
    let m = MockAdbInterface::new().with_prop("D", "ro.boot.verifiedbootstate", "green");
    assert_eq!(d.detect_bootloader_state(&m, "D").unwrap(), BootloaderState::Locked);
    let m = MockAdbInterface::new().with_prop("D", "ro.boot.verifiedbootstate", "orange");
    assert_eq!(d.detect_bootloader_state(&m, "D").unwrap(), BootloaderState::Unlocked);
    let m = MockAdbInterface::new().with_prop("D", "ro.boot.verifiedbootstate", "YELLOW ");
    assert_eq!(d.detect_bootloader_state(&m, "D").unwrap(), BootloaderState::Tampered);
    assert_eq!(CapabilityDetector::bootloader_state_from_prop("blue"), BootloaderState::Unknown);
}

#[test]
fn test_detect_encryption_states() {
    let d = CapabilityDetector::new();
    let m = MockAdbInterface::new()
        .with_prop("D", "ro.crypto.state", "encrypted")
        .with_prop("D", "ro.crypto.type", "file")
        .with_prop("D", "vold.decrypt", "")
        .with_shell_response("D", "ls /data/user/0/ 2>&1", "com.android.settings");
    assert_eq!(d.detect_encryption_state(&m, "D").unwrap(), EncryptionState::AfterFirstUnlock);
    let m = MockAdbInterface::new()
        .with_prop("D", "ro.crypto.state", "encrypted")
        .with_prop("D", "ro.crypto.type", "file")
        .with_prop("D", "vold.decrypt", "")
        .with_shell_response("D", "ls /data/user/0/ 2>&1", "");
    assert_eq!(d.detect_encryption_state(&m, "D").unwrap(), EncryptionState::BeforeFirstUnlock);
    let m = MockAdbInterface::new()
        .with_prop("D", "ro.crypto.state", "encrypted")
        .with_prop("D", "ro.crypto.type", "block");
    assert_eq!(d.detect_encryption_state(&m, "D").unwrap(), EncryptionState::FullDiskEncryption);
    let m = MockAdbInterface::new().with_prop("D", "ro.crypto.state", "unencrypted");
    assert_eq!(d.detect_encryption_state(&m, "D").unwrap(), EncryptionState::AfterFirstUnlock);
    let m = MockAdbInterface::new();
    assert_eq!(d.detect_encryption_state(&m, "D").unwrap(), EncryptionState::Unknown);
    let m = MockAdbInterface::new()
        .with_prop("D", "ro.crypto.state", "encrypted")
        .with_prop("D", "vold.decrypt", "trigger_restart_min_framework");
    assert_eq!(d.detect_encryption_state(&m, "D").unwrap(), EncryptionState::BeforeFirstUnlock);
}

#[test]
fn test_unauthorized_device_returns_error() {
    let serial = "UNAUTH1";
    let mock = MockAdbInterface::new().with_device(serial, AdbDeviceState::Unauthorized);
    match CapabilityDetector::new().detect(&mock, serial) {
        Err(OracleError::DeviceUnauthorized { serial: s }) => assert_eq!(s, serial),
        other => panic!("unexpected {:?}", other.map(|p| p.root_method)),
    }
}

#[test]
fn test_no_device_detected() {
    let mock = MockAdbInterface::new();
    let result = CapabilityDetector::new().detect(&mock, "GHOST");
    assert!(matches!(result, Err(OracleError::NoDeviceDetected)));
}

#[test]
fn test_full_detection_flow() {
    let serial = "FULL_TEST";
    let mock = base_mock(serial)
        .with_shell_response(serial, "which magisk", "/sbin/magisk")
        .with_shell_response(serial, "getenforce", "Permissive")
        .with_prop(serial, "ro.boot.verifiedbootstate", "orange")
        .with_file_readable(serial, "/system/build.prop", true)
        .with_file_readable(serial, "/data/misc/wifi/WifiConfigStore.xml", true)
        .with_file_readable(serial, "/proc/kmsg", true);
    let profile = CapabilityDetector::new().detect(&mock, serial).unwrap();
    assert_eq!(profile.device.manufacturer, "Google");
    assert_eq!(profile.device.model, "Pixel 8 Pro");
    assert_eq!(profile.device.api_level, 34);
    assert_eq!(profile.root_method, RootMethod::Magisk);
    assert_eq!(profile.selinux_mode, SelinuxMode::Permissive);
    assert_eq!(profile.bootloader_state, BootloaderState::Unlocked);
    assert_eq!(profile.encryption_state, EncryptionState::AfterFirstUnlock);
    assert!(profile.available_methods.contains(&AcquisitionMethod::PrivilegedLogical));
    assert!(profile.available_methods.contains(&AcquisitionMethod::ContentProvider));
    let accessible: Vec<ArtifactClass> =
        profile.accessible_artifact_classes.iter().map(|a| a.artifact_class).collect();
    assert!(accessible.contains(&ArtifactClass::BuildProp));
    assert!(accessible.contains(&ArtifactClass::WpaSupplicant));
    assert!(accessible.contains(&ArtifactClass::WifiConfigStore));
    assert!(accessible.contains(&ArtifactClass::KernelLogs));
    assert_eq!(
        profile.accessible_artifact_classes.len() + profile.inaccessible_artifact_classes.len(),
        10
    );
    for a in &profile.accessible_artifact_classes {
        assert_eq!(a.acquisition_method, AcquisitionMethod::PrivilegedLogical);
    }
    for i in &profile.inaccessible_artifact_classes {
        assert_eq!(i.reason, "File not found on device");
    }
    assert!(!profile.acknowledged);
}

#[test]
fn test_encryption_zones() {
    assert_eq!(
        CapabilityDetector::classify_artifact_encryption_zone(ArtifactClass::WpaSupplicant, 34),
        EncryptionZone::DeviceEncrypted
    );
    assert_eq!(
        CapabilityDetector::classify_artifact_encryption_zone(ArtifactClass::BatteryStats, 30),
        EncryptionZone::CredentialEncrypted
    );
    assert_eq!(
        CapabilityDetector::classify_artifact_encryption_zone(ArtifactClass::ConnectivityLogs, 30),
        EncryptionZone::DeAndCe
    );
    assert_eq!(
        CapabilityDetector::classify_artifact_encryption_zone(ArtifactClass::Unknown, 30),
        EncryptionZone::UnknownEncryption
    );
}

#[test]
fn test_inaccessibility_reasons() {
    let c = ArtifactClass::DnsCache;
    assert_eq!(
        CapabilityDetector::determine_inaccessibility_reason(RootMethod::NoRoot, SelinuxMode::Enforcing, &c),
        "Requires root access \u{2014} file resides in privileged partition"
    );
    assert_eq!(
        CapabilityDetector::determine_inaccessibility_reason(RootMethod::Magisk, SelinuxMode::Enforcing, &c),
        "SELinux enforcing \u{2014} MAC policy blocks access even with root"
    );
    assert_eq!(
        CapabilityDetector::determine_inaccessibility_reason(RootMethod::Magisk, SelinuxMode::Permissive, &c),
        "File not found on device"
    );
}

#[test]
fn test_parse_build_prop_value() {
    let d = CapabilityDetector::new();
    let content = "# comment\nro.product.model=Pixel 8\n  ro.build.version.sdk = \"34\"  \r\nro.x='quoted'\nro.product.model=Second\n";
    assert_eq!(d.parse_build_prop_value(content, "ro.product.model"), "Pixel 8");
    assert_eq!(d.parse_build_prop_value(content, "ro.build.version.sdk"), "34");
    assert_eq!(d.parse_build_prop_value(content, "ro.x"), "quoted");
    assert_eq!(d.parse_build_prop_value(content, "missing"), "");
    assert_eq!(d.parse_build_prop_value("#ro.a=1", "ro.a"), "");
}

#[test]
fn test_api_level_parsing() {
    assert_eq!(oracle::detector::api_level_of_text(" 34 "), 34);
    assert_eq!(oracle::detector::api_level_of_text("+7"), 7);
    assert_eq!(oracle::detector::api_level_of_text("abc"), 0);
    assert_eq!(oracle::detector::api_level_of_text("99999999999"), 0);
    assert_eq!(oracle::detector::api_level_of_text(""), 0);
}

#[test]
fn test_generate_briefing_unrooted_bfu() {
    let profile = sample_profile(
        RootMethod::NoRoot,
        SelinuxMode::Enforcing,
        EncryptionState::BeforeFirstUnlock,
        vec![AccessibleArtifactClass {
            artifact_class: ArtifactClass::WifiConfigStore,
            acquisition_method: AcquisitionMethod::UnprivilegedLogical,
            confidence_permille: 950,
        }],
        vec![InaccessibleArtifactClass {
            artifact_class: ArtifactClass::BatteryStats,
            reason: "Requires root".to_string(),
        }],
        vec![
            AcquisitionMethod::ContentProvider,
            AcquisitionMethod::UnprivilegedLogical,
            AcquisitionMethod::AdbBackup,
        ],
    );
    let b = generate_briefing(&profile);
    assert_eq!(
        b.accessible_summary,
        vec!["WifiConfigStore \u{2014} accessible via UnprivilegedLogical (confidence: 95%)".to_string()]
    );
    assert_eq!(
        b.inaccessible_summary,
        vec!["BatteryStats \u{2014} INACCESSIBLE: Requires root".to_string()]
    );
    assert_eq!(b.warnings.len(), 3);
    assert!(b.warnings[0].starts_with("Device is NOT rooted."));
    assert!(b.warnings[1].contains("Before First Unlock"));
    assert!(b.warnings[2].starts_with("1 artifact class(es) are INACCESSIBLE."));
    assert_eq!(b.recommended_method, Some(AcquisitionMethod::ContentProvider));
    assert!(b.full_text.contains("Device: Samsung SM-S928B (Android 14)\n"));
    assert!(b.full_text.contains("Skin:   One UI (6.1)\n"));
    assert!(b.full_text.contains("Root:       None\n"));
    assert!(b.full_text.contains("RECOMMENDED METHOD: ContentProvider\n\n"));
    assert!(b.full_text.contains("  \u{2713} WifiConfigStore"));
    assert!(b.full_text.contains("\u{2500}\u{2500} WARNINGS \u{2500}\u{2500}\n"));
}

#[test]
fn test_generate_briefing_rooted_afu() {
    let profile = sample_profile(
        RootMethod::Magisk,
        SelinuxMode::Enforcing,
        EncryptionState::AfterFirstUnlock,
        vec![],
        vec![],
        vec![AcquisitionMethod::PrivilegedLogical, AcquisitionMethod::ContentProvider],
    );
    let b = generate_briefing(&profile);
    assert_eq!(b.warnings.len(), 1);
    assert!(b.warnings[0].starts_with("SELinux is ENFORCING."));
    assert_eq!(b.recommended_method, Some(AcquisitionMethod::PrivilegedLogical));
    assert!(b.full_text.contains("\u{2500}\u{2500} ACCESSIBLE ARTIFACTS \u{2500}\u{2500}\n  (none)\n"));
    let empty = sample_profile(
        RootMethod::Magisk,
        SelinuxMode::Permissive,
        EncryptionState::AfterFirstUnlock,
        vec![],
        vec![],
        vec![],
    );
    let b = generate_briefing(&empty);
    assert!(b.warnings.is_empty());
    assert_eq!(b.recommended_method, None);
    assert!(!b.full_text.contains("WARNINGS"));
}

#[test]
fn test_profile_store_lifecycle() {
    let mut store = CapabilityProfileStore::new();
    let id = InvestigationId(0x67e5504410b1426f9247bb680e5fe0c8);
    let profile = sample_profile(
        RootMethod::NoRoot,
        SelinuxMode::Enforcing,
        EncryptionState::AfterFirstUnlock,
        vec![],
        vec![],
        vec![],
    );
    assert!(!store.is_acknowledged(&id));
    match store.get_profile(&id) {
        Err(OracleError::ConfigurationError { reason }) => assert_eq!(
            reason,
            "No profile found for investigation 67e55044-10b1-426f-9247-bb680e5fe0c8"
        ),
        other => panic!("unexpected {:?}", other.map(|p| p.investigation_id)),
    }
    store.store_profile(id, profile.clone()).unwrap();
    assert_eq!(store.profile_count(), 1);
    match store.store_profile(id, profile) {
        Err(OracleError::ConfigurationError { reason }) => assert_eq!(
            reason,
            "Profile already exists for investigation 67e55044-10b1-426f-9247-bb680e5fe0c8"
        ),
        other => panic!("unexpected {:?}", other),
    }
    assert_eq!(store.profile_count(), 1);
    let examiner = ExaminerIdentity {
        name: "Jane".to_string(),
        badge_id: "B1".to_string(),
        organization: "Lab".to_string(),
    };
    store.acknowledge_profile(&id, examiner.clone()).unwrap();
    assert!(store.is_acknowledged(&id));
    let stored = store.get_profile(&id).unwrap();
    assert!(stored.profile.acknowledged);
    assert_eq!(stored.acknowledged_by.as_ref().unwrap().name, "Jane");
    assert!(stored.acknowledged_at.is_some());
    match store.acknowledge_profile(&id, examiner) {
        Err(OracleError::ConfigurationError { reason }) => assert_eq!(
            reason,
            "Profile for investigation 67e55044-10b1-426f-9247-bb680e5fe0c8 is already acknowledged"
        ),
        other => panic!("unexpected {:?}", other),
    }
}

// ── investigator briefing ───────────────────────────────────────────────────

fn accessible(class: ArtifactClass, permille: u32) -> AccessibleArtifactClass {
    AccessibleArtifactClass {
        artifact_class: class,
        acquisition_method: AcquisitionMethod::PrivilegedLogical,
        confidence_permille: permille,
    }
}

fn inaccessible(class: ArtifactClass, reason: &str) -> InaccessibleArtifactClass {
    InaccessibleArtifactClass { artifact_class: class, reason: reason.to_string() }
}

#[test]
fn test_briefing_accessible_artifacts() {
    let profile = sample_profile(
        RootMethod::Magisk,
        SelinuxMode::Permissive,
        EncryptionState::AfterFirstUnlock,
        vec![accessible(ArtifactClass::BuildProp, 990), accessible(ArtifactClass::WifiConfigStore, 950)],
        vec![],
        vec![AcquisitionMethod::PrivilegedLogical, AcquisitionMethod::ContentProvider],
    );
    let briefing = generate_briefing(&profile);
    assert_eq!(briefing.accessible_summary.len(), 2);
    assert!(briefing.accessible_summary[0].contains("BuildProp"));
    assert!(briefing.accessible_summary[0].contains("99%"));
    assert!(briefing.accessible_summary[1].contains("WifiConfigStore"));
    assert!(briefing.inaccessible_summary.is_empty());
}

#[test]
fn test_briefing_inaccessible_artifacts() {
    let reason = "Requires root access \u{2014} file resides in privileged partition";
    let profile = sample_profile(
        RootMethod::NoRoot,
        SelinuxMode::Enforcing,
        EncryptionState::AfterFirstUnlock,
        vec![],
        vec![inaccessible(ArtifactClass::KernelLogs, reason), inaccessible(ArtifactClass::WpaSupplicant, reason)],
        vec![AcquisitionMethod::UnprivilegedLogical, AcquisitionMethod::AdbBackup],
    );
    let briefing = generate_briefing(&profile);
    assert_eq!(briefing.inaccessible_summary.len(), 2);
    assert!(briefing.inaccessible_summary[0].contains("KernelLogs"));
    assert!(briefing.inaccessible_summary[0].contains("INACCESSIBLE"));
    assert!(briefing.inaccessible_summary[1].contains("WpaSupplicant"));
}

#[test]
fn test_briefing_bfu_warning() {
    let profile = sample_profile(
        RootMethod::Magisk,
        SelinuxMode::Permissive,
        EncryptionState::BeforeFirstUnlock,
        vec![],
        vec![],
        vec![AcquisitionMethod::PrivilegedLogical],
    );
    let briefing = generate_briefing(&profile);
    assert!(
        briefing.warnings.iter().any(|w| w.contains("Before First Unlock")),
        "Expected BFU warning, got: {:?}",
        briefing.warnings
    );
}

#[test]
fn test_briefing_no_root_warning() {
    let profile = sample_profile(
        RootMethod::NoRoot,
        SelinuxMode::Enforcing,
        EncryptionState::AfterFirstUnlock,
        vec![],
        vec![],
        vec![AcquisitionMethod::UnprivilegedLogical],
    );
    let briefing = generate_briefing(&profile);
    assert!(
        briefing.warnings.iter().any(|w| w.contains("NOT rooted")),
        "Expected no-root warning, got: {:?}",
        briefing.warnings
    );
}

#[test]
fn test_briefing_selinux_enforcing_with_root_warning() {
    let profile = sample_profile(
        RootMethod::Magisk,
        SelinuxMode::Enforcing,
        EncryptionState::AfterFirstUnlock,
        vec![],
        vec![],
        vec![AcquisitionMethod::PrivilegedLogical],
    );
    let briefing = generate_briefing(&profile);
    assert!(
        briefing.warnings.iter().any(|w| w.contains("SELinux is ENFORCING")),
        "Expected SELinux enforcing warning with root, got: {:?}",
        briefing.warnings
    );
}

#[test]
fn test_briefing_recommended_method_privileged() {
    let profile = sample_profile(
        RootMethod::Magisk,
        SelinuxMode::Permissive,
        EncryptionState::AfterFirstUnlock,
        vec![],
        vec![],
        vec![AcquisitionMethod::PrivilegedLogical, AcquisitionMethod::ContentProvider],
    );
    let briefing = generate_briefing(&profile);
    assert_eq!(briefing.recommended_method, Some(AcquisitionMethod::PrivilegedLogical));
}

#[test]
fn test_briefing_recommended_method_unprivileged() {
    let profile = sample_profile(
        RootMethod::NoRoot,
        SelinuxMode::Enforcing,
        EncryptionState::AfterFirstUnlock,
        vec![],
        vec![],
        vec![AcquisitionMethod::UnprivilegedLogical, AcquisitionMethod::AdbBackup],
    );
    let briefing = generate_briefing(&profile);
    assert_eq!(briefing.recommended_method, Some(AcquisitionMethod::UnprivilegedLogical));
}

#[test]
fn test_briefing_recommended_method_content_provider() {
    let profile = sample_profile(
        RootMethod::NoRoot,
        SelinuxMode::Enforcing,
        EncryptionState::AfterFirstUnlock,
        vec![],
        vec![],
        vec![AcquisitionMethod::ContentProvider, AcquisitionMethod::AdbBackup],
    );
    let briefing = generate_briefing(&profile);
    assert_eq!(briefing.recommended_method, Some(AcquisitionMethod::ContentProvider));
}

#[test]
fn test_briefing_no_methods_available() {
    let profile = sample_profile(
        RootMethod::NoRoot,
        SelinuxMode::Enforcing,
        EncryptionState::AfterFirstUnlock,
        vec![],
        vec![],
        vec![],
    );
    let briefing = generate_briefing(&profile);
    assert_eq!(briefing.recommended_method, None);
}

#[test]
fn test_briefing_full_text_contains_device_info() {
    let profile = sample_profile(
        RootMethod::Magisk,
        SelinuxMode::Permissive,
        EncryptionState::AfterFirstUnlock,
        vec![],
        vec![],
        vec![AcquisitionMethod::PrivilegedLogical],
    );
    let briefing = generate_briefing(&profile);
    assert!(briefing.full_text.contains("Samsung"));
    assert!(briefing.full_text.contains("SM-S928B"));
    assert!(briefing.full_text.contains("Android 14"));
    assert!(briefing.full_text.contains("TEST_SERIAL"));
    assert!(briefing.full_text.contains("INVESTIGATOR BRIEFING"));
    assert!(briefing.full_text.contains("One UI"));
}

#[test]
fn test_briefing_full_text_shows_accessible_artifacts() {
    let profile = sample_profile(
        RootMethod::Magisk,
        SelinuxMode::Permissive,
        EncryptionState::AfterFirstUnlock,
        vec![accessible(ArtifactClass::BuildProp, 990)],
        vec![],
        vec![AcquisitionMethod::PrivilegedLogical],
    );
    let briefing = generate_briefing(&profile);
    assert!(briefing.full_text.contains("\u{2713}"));
    assert!(briefing.full_text.contains("BuildProp"));
}

#[test]
fn test_briefing_full_text_shows_inaccessible_artifacts() {
    let profile = sample_profile(
        RootMethod::NoRoot,
        SelinuxMode::Enforcing,
        EncryptionState::AfterFirstUnlock,
        vec![],
        vec![inaccessible(ArtifactClass::KernelLogs, "Requires root access")],
        vec![AcquisitionMethod::UnprivilegedLogical],
    );
    let briefing = generate_briefing(&profile);
    assert!(briefing.full_text.contains("\u{2717}"));
    assert!(briefing.full_text.contains("KernelLogs"));
}

#[test]
fn test_briefing_full_text_shows_warnings() {
    let profile = sample_profile(
        RootMethod::NoRoot,
        SelinuxMode::Enforcing,
        EncryptionState::BeforeFirstUnlock,
        vec![],
        vec![inaccessible(ArtifactClass::WpaSupplicant, "No root")],
        vec![AcquisitionMethod::UnprivilegedLogical],
    );
    let briefing = generate_briefing(&profile);
    assert!(briefing.full_text.contains("\u{26A0}"));
    assert!(briefing.full_text.contains("WARNINGS"));
}

// ── capability detection on a mock device ───────────────────────────────────

#[test]
fn test_detect_selinux_enforcing() {
    let mock = MockAdbInterface::new().with_shell_response("DEV1", "getenforce", "Enforcing");
    let mode = CapabilityDetector::new().detect_selinux_mode(&mock, "DEV1").unwrap();
    assert_eq!(mode, SelinuxMode::Enforcing);
}

#[test]
fn test_detect_selinux_permissive() {
    let mock = MockAdbInterface::new().with_shell_response("DEV1", "getenforce", "Permissive");
    let mode = CapabilityDetector::new().detect_selinux_mode(&mock, "DEV1").unwrap();
    assert_eq!(mode, SelinuxMode::Permissive);
}

#[test]
fn test_detect_selinux_disabled() {
    let mock = MockAdbInterface::new().with_shell_response("DEV1", "getenforce", "Disabled");
    let mode = CapabilityDetector::new().detect_selinux_mode(&mock, "DEV1").unwrap();
    assert_eq!(mode, SelinuxMode::Disabled);
}

#[test]
fn test_detect_selinux_fallback_to_enforce_node() {
    let mock = MockAdbInterface::new()
        .with_shell_response("DEV1", "getenforce", "")
        .with_shell_response("DEV1", "cat /sys/fs/selinux/enforce", "0");
    let mode = CapabilityDetector::new().detect_selinux_mode(&mock, "DEV1").unwrap();
    assert_eq!(mode, SelinuxMode::Permissive);
}

#[test]
fn test_detect_selinux_unknown() {
    let mock = MockAdbInterface::new()
        .with_shell_response("DEV1", "getenforce", "")
        .with_shell_response("DEV1", "cat /sys/fs/selinux/enforce", "");
    let mode = CapabilityDetector::new().detect_selinux_mode(&mock, "DEV1").unwrap();
    assert_eq!(mode, SelinuxMode::Unknown);
}

#[test]
fn test_detect_bootloader_locked() {
    let mock = MockAdbInterface::new().with_prop("DEV1", "ro.boot.verifiedbootstate", "green");
    let state = CapabilityDetector::new().detect_bootloader_state(&mock, "DEV1").unwrap();
    assert_eq!(state, BootloaderState::Locked);
}

#[test]
fn test_detect_bootloader_unlocked() {
    let mock = MockAdbInterface::new().with_prop("DEV1", "ro.boot.verifiedbootstate", "orange");
    let state = CapabilityDetector::new().detect_bootloader_state(&mock, "DEV1").unwrap();
    assert_eq!(state, BootloaderState::Unlocked);
}

#[test]
fn test_detect_bootloader_tampered() {
    let mock = MockAdbInterface::new().with_prop("DEV1", "ro.boot.verifiedbootstate", "yellow");
    let state = CapabilityDetector::new().detect_bootloader_state(&mock, "DEV1").unwrap();
    assert_eq!(state, BootloaderState::Tampered);
}

#[test]
fn test_detect_encryption_fbe_afu() {
    let mock = MockAdbInterface::new()
        .with_prop("DEV1", "ro.crypto.state", "encrypted")
        .with_prop("DEV1", "ro.crypto.type", "file")
        .with_prop("DEV1", "vold.decrypt", "")
        .with_shell_response("DEV1", "ls /data/user/0/ 2>&1", "com.android.settings");
    let state = CapabilityDetector::new().detect_encryption_state(&mock, "DEV1").unwrap();
    assert_eq!(state, EncryptionState::AfterFirstUnlock);
}

#[test]
fn test_detect_encryption_fbe_bfu() {
    let mock = MockAdbInterface::new()
        .with_prop("DEV1", "ro.crypto.state", "encrypted")
        .with_prop("DEV1", "ro.crypto.type", "file")
        .with_prop("DEV1", "vold.decrypt", "")
        .with_shell_response("DEV1", "ls /data/user/0/ 2>&1", "");
    let state = CapabilityDetector::new().detect_encryption_state(&mock, "DEV1").unwrap();
    assert_eq!(state, EncryptionState::BeforeFirstUnlock);
}

#[test]
fn test_detect_encryption_fde() {
    let mock = MockAdbInterface::new()
        .with_prop("DEV1", "ro.crypto.state", "encrypted")
        .with_prop("DEV1", "ro.crypto.type", "block");
    let state = CapabilityDetector::new().detect_encryption_state(&mock, "DEV1").unwrap();
    assert_eq!(state, EncryptionState::FullDiskEncryption);
}

#[test]
fn test_detect_encryption_unencrypted() {
    let mock = MockAdbInterface::new().with_prop("DEV1", "ro.crypto.state", "unencrypted");
    let state = CapabilityDetector::new().detect_encryption_state(&mock, "DEV1").unwrap();
    assert_eq!(state, EncryptionState::AfterFirstUnlock);
}

#[test]
fn test_detect_static() {
    let build_prop = "ro.product.manufacturer=samsung\nro.product.model=SM-S928B\nro.build.version.release=14\nro.build.version.sdk=34\nro.build.version.security_patch=2024-11-01\nro.build.fingerprint=samsung/e3qxxx\nro.build.PDA=S928BXXU1AXLA\n";
    let vfs = MockVfs { build_prop: build_prop.to_string(), exists_settings: true };
    let profile = CapabilityDetector::new().detect_static(&vfs).unwrap();
    assert_eq!(profile.device.manufacturer, "samsung");
    assert_eq!(profile.device.model, "SM-S928B");
    assert_eq!(profile.device.oem_skin.as_deref(), Some("One UI"));
    assert_eq!(profile.device.oem_skin_version.as_deref(), Some("S928BXXU1AXLA"));
    assert_eq!(profile.encryption_state, EncryptionState::AfterFirstUnlock);
    assert_eq!(profile.root_method, RootMethod::NoRoot);
    assert!(profile.available_methods.contains(&AcquisitionMethod::OfflineImage));
}

#[test]
fn test_detect_static_lists_present_classes_only() {
    let vfs = MockVfs { build_prop: "ro.product.manufacturer=samsung\n".to_string(), exists_settings: false };
    let profile = CapabilityDetector::new().detect_static(&vfs).unwrap();
    assert_eq!(profile.device.serial, "OFFLINE_IMAGE");
    assert_eq!(profile.encryption_state, EncryptionState::BeforeFirstUnlock);
    assert_eq!(profile.selinux_mode, SelinuxMode::Enforcing);
    assert_eq!(profile.available_methods, vec![AcquisitionMethod::OfflineImage]);
    assert_eq!(profile.accessible_artifact_classes.len(), 1);
    assert_eq!(profile.accessible_artifact_classes[0].artifact_class, ArtifactClass::BuildProp);
    assert_eq!(profile.accessible_artifact_classes[0].acquisition_method, AcquisitionMethod::OfflineImage);
    assert_eq!(profile.inaccessible_artifact_classes.len(), 9);
    assert!(profile
        .inaccessible_artifact_classes
        .iter()
        .all(|c| c.reason == "File not present in forensic image"));
    assert_eq!(profile.inaccessible_artifact_classes[0].artifact_class, ArtifactClass::WpaSupplicant);
    assert_eq!(profile.inaccessible_artifact_classes[8].artifact_class, ArtifactClass::NetworkPolicy);
}

#[test]
fn test_static_profile_from_image_answers() {
    let system = "ro.product.manufacturer=Xiaomi\nro.product.model=23127PN0CG\nro.build.version.sdk=34\nro.boot.selinux=permissive\nro.boot.verifiedbootstate=orange\n";
    let vendor = "ro.miui.ui.version.name=OS1.0\nro.product.model=ignored\nro.build.version.release=14\n";
    let files = vec![Some(system.to_string()), None, Some(vendor.to_string()), None, None, None];
    let mut found = vec![false; 10];
    found[0] = true;
    found[5] = true;
    let p = CapabilityDetector::new().static_profile(&files, false, true, true, true, &found, 1234);
    assert_eq!(p.device.serial, "OFFLINE_IMAGE");
    assert_eq!(p.device.manufacturer, "Xiaomi");
    assert_eq!(p.device.model, "23127PN0CG");
    assert_eq!(p.device.android_version, "14");
    assert_eq!(p.device.api_level, 34);
    assert_eq!(p.device.oem_skin.as_deref(), Some("HyperOS"));
    assert_eq!(p.device.oem_skin_version.as_deref(), Some("OS1.0"));
    assert_eq!(p.root_method, RootMethod::Magisk);
    assert_eq!(p.selinux_mode, SelinuxMode::Permissive);
    assert_eq!(p.bootloader_state, BootloaderState::Unlocked);
    assert_eq!(p.encryption_state, EncryptionState::AfterFirstUnlock);
    assert_eq!(p.detected_at, 1234);
    assert!(!p.usb_debugging_enabled && !p.adb_authorized && !p.acknowledged);
    let acc: Vec<ArtifactClass> = p.accessible_artifact_classes.iter().map(|c| c.artifact_class).collect();
    assert_eq!(acc, vec![ArtifactClass::WpaSupplicant, ArtifactClass::KernelLogs]);
    assert_eq!(p.inaccessible_artifact_classes.len(), 8);
}

#[test]
fn test_classes_from_presence_keeps_table_order() {
    let found = vec![true, false, true, false, false, false, false, false, false, true];
    let (acc, inacc) = classes_from_presence(&found, AcquisitionMethod::PrivilegedLogical, "why");
    let a: Vec<ArtifactClass> = acc.iter().map(|c| c.artifact_class).collect();
    assert_eq!(a, vec![ArtifactClass::WpaSupplicant, ArtifactClass::DhcpLeases, ArtifactClass::BuildProp]);
    assert!(acc.iter().all(|c| c.acquisition_method == AcquisitionMethod::PrivilegedLogical));
    assert_eq!(acc[0].confidence_permille, ArtifactClass::WpaSupplicant.baseline_reliability_permille());
    let i: Vec<ArtifactClass> = inacc.iter().map(|c| c.artifact_class).collect();
    assert_eq!(i.len(), 7);
    assert_eq!(i[0], ArtifactClass::WifiConfigStore);
    assert!(inacc.iter().all(|c| c.reason == "why"));
}

#[test]
fn test_detect_listed_refuses_as_authorization_outcome_does() {
    let dev = |serial: &str, state: AdbDeviceState| AdbDevice {
        serial: serial.to_string(),
        state,
        transport_type: "usb".to_string(),
    };
    let d = CapabilityDetector::new();
    let adb = base_mock("DEV1");
    let listed = vec![dev("A", AdbDeviceState::Unauthorized), dev("B", AdbDeviceState::Offline)];
    match d.detect_listed(&adb, "A", &listed) {
        Err(OracleError::DeviceUnauthorized { serial }) => assert_eq!(serial, "A"),
        other => panic!("unexpected {:?}", other.map(|p| p.root_method)),
    }
    match d.detect_listed(&adb, "B", &listed) {
        Err(OracleError::DeviceOffline { serial, state }) => {
            assert_eq!(serial, "B");
            assert_eq!(state, "offline");
        }
        other => panic!("unexpected {:?}", other.map(|p| p.root_method)),
    }
    assert!(matches!(d.detect_listed(&adb, "C", &listed), Err(OracleError::NoDeviceDetected)));
    let ok = d.detect_listed(&adb, "DEV1", &vec![dev("DEV1", AdbDeviceState::Device)]).unwrap();
    assert!(ok.adb_authorized);
}

#[test]
fn test_mock_vfs_answers_and_hash() {
    let vfs = MockVfs { build_prop: "abc".to_string(), exists_settings: false };
    assert!(vfs.path_exists("/vendor/build.prop"));
    assert!(!vfs.path_exists("/data/data/com.android.settings"));
    assert_eq!(vfs.read_file("/build.prop").unwrap(), b"abc".to_vec());
    assert!(vfs.read_file("/proc/kmsg").is_err());
    assert_eq!(
        vfs.hash_file("build.prop").unwrap(),
        "ba7816bf8f01cfea414140de5dae2223b00361a396177a9cb410ff61f20015ad"
    );
}

#[test]
fn test_mock_builder_chaining() {
    let mock = MockAdbInterface::new()
        .with_device("DEV1", AdbDeviceState::Device)
        .with_prop("DEV1", "ro.product.model", "TestPhone")
        .with_shell_response("DEV1", "id", "uid=0(root)")
        .with_file_exists("DEV1", "/data/adb/ksu", false)
        .with_file_readable("DEV1", "/system/build.prop", true);
    assert_eq!(mock.devices.len(), 1);
    assert_eq!(mock.get_prop("DEV1", "ro.product.model").unwrap(), "TestPhone");
    assert_eq!(mock.shell_command("DEV1", "id").unwrap(), "uid=0(root)");
    assert!(!mock.check_file_exists("DEV1", "/data/adb/ksu").unwrap());
    assert!(mock.check_file_readable("DEV1", "/system/build.prop").unwrap());
}

// ── capability profile store ────────────────────────────────────────────────

fn store_profile_sample() -> CapabilityProfile {
    CapabilityProfile {
        device: DeviceIdentity {
            serial: "TEST123".to_string(),
            manufacturer: "TestMfg".to_string(),
            model: "TestModel".to_string(),
            android_version: "14".to_string(),
            api_level: 34,
            security_patch_level: "2024-01-01".to_string(),
            build_fingerprint: "test/fingerprint".to_string(),
            oem_skin: None,
            oem_skin_version: None,
        },
        usb_debugging_enabled: true,
        adb_authorized: true,
        root_method: RootMethod::NoRoot,
        selinux_mode: SelinuxMode::Enforcing,
        bootloader_state: BootloaderState::Locked,
        encryption_state: EncryptionState::AfterFirstUnlock,
        available_methods: vec![AcquisitionMethod::UnprivilegedLogical],
        accessible_artifact_classes: vec![],
        inaccessible_artifact_classes: vec![],
        detected_at: 0,
        acknowledged: false,
    }
}

fn jane() -> ExaminerIdentity {
    ExaminerIdentity {
        name: "Jane Doe".to_string(),
        badge_id: "EX-001".to_string(),
        organization: "Digital Forensics Lab".to_string(),
    }
}

#[test]
fn test_store_and_retrieve_profile() {
    let mut store = CapabilityProfileStore::new();
    let inv_id = InvestigationId::new();
    store.store_profile(inv_id, store_profile_sample()).unwrap();
    let stored = store.get_profile(&inv_id).unwrap();
    assert_eq!(stored.investigation_id, inv_id);
    assert_eq!(stored.profile.device.serial, "TEST123");
    assert_eq!(stored.profile.device.manufacturer, "TestMfg");
    assert!(stored.acknowledged_by.is_none());
    assert!(stored.acknowledged_at.is_none());
}

#[test]
fn test_store_duplicate_profile_errors() {
    let mut store = CapabilityProfileStore::new();
    let inv_id = InvestigationId::new();
    store.store_profile(inv_id, store_profile_sample()).unwrap();
    assert!(store.store_profile(inv_id, store_profile_sample()).is_err());
}

#[test]
fn test_get_nonexistent_profile_errors() {
    let store = CapabilityProfileStore::new();
    assert!(store.get_profile(&InvestigationId::new()).is_err());
}

#[test]
fn test_acknowledge_profile() {
    let mut store = CapabilityProfileStore::new();
    let inv_id = InvestigationId::new();
    store.store_profile(inv_id, store_profile_sample()).unwrap();
    store.acknowledge_profile(&inv_id, jane()).unwrap();
    let stored = store.get_profile(&inv_id).unwrap();
    assert!(stored.profile.acknowledged);
    assert!(stored.acknowledged_at.is_some());
    assert_eq!(stored.acknowledged_by.as_ref().map(|e| e.name.as_str()), Some("Jane Doe"));
}

#[test]
fn test_acknowledge_already_acknowledged_errors() {
    let mut store = CapabilityProfileStore::new();
    let inv_id = InvestigationId::new();
    store.store_profile(inv_id, store_profile_sample()).unwrap();
    store.acknowledge_profile(&inv_id, jane()).unwrap();
    assert!(store.acknowledge_profile(&inv_id, jane()).is_err());
}

#[test]
fn test_acknowledge_nonexistent_profile_errors() {
    let mut store = CapabilityProfileStore::new();
    assert!(store.acknowledge_profile(&InvestigationId::new(), jane()).is_err());
}

#[test]
fn test_is_acknowledged() {
    let mut store = CapabilityProfileStore::new();
    let inv_id = InvestigationId::new();
    assert!(!store.is_acknowledged(&inv_id));
    store.store_profile(inv_id, store_profile_sample()).unwrap();
    assert!(!store.is_acknowledged(&inv_id));
    store.acknowledge_profile(&inv_id, jane()).unwrap();
    assert!(store.is_acknowledged(&inv_id));
}

#[test]
fn test_profile_count() {
    let mut store = CapabilityProfileStore::new();
    assert_eq!(store.profile_count(), 0);
    store.store_profile(InvestigationId::new(), store_profile_sample()).unwrap();
    assert_eq!(store.profile_count(), 1);
    store.store_profile(InvestigationId::new(), store_profile_sample()).unwrap();
    assert_eq!(store.profile_count(), 2);
}

#[test]
fn test_first_prop_value_skips_unreadable_and_empty() {
    let d = CapabilityDetector::new();
    let contents = vec![
        None,
        Some("ro.product.model=\n".to_string()),
        Some("# build\nro.product.model=Pixel 7\n".to_string()),
        Some("ro.product.model=Other\n".to_string()),
    ];
    assert_eq!(d.first_prop_value(&contents, "ro.product.model"), "Pixel 7");
    assert_eq!(d.first_prop_value(&contents, "ro.missing"), "");
    assert_eq!(d.first_prop_value(&Vec::new(), "ro.product.model"), "");
}
