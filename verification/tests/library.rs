use lenscast::connection::{
    connection_toast, effective_connected, finish_disconnect, select_camera, ConnectAction,
    ConnectEvent, ConnectFlow, ConnectPhase,
};
use lenscast::devices::{
    adb_lists, endpoint, get_connected_adb_devices, new_device_store, refresh_connected_status,
    update_camera_selection, validate_device_name, Device, DeviceStore, RenameError,
};
use lenscast::loopback::{
    loopback_devices, loopback_needs_reload, loopback_priming_args, loopback_unload_args,
};
use lenscast::manual::{
    endpoint_after_pairing, find_debug_port, manual_pair_address, pairing_failed_label,
    qr_failure_message, truncate, validate_manual_pairing, ManualPairingError,
    PairOutputScanner, QrPairingStage,
};
use lenscast::pairing::{
    connect_command_args, digits_of_draws, discovery_step, find_private, pair_command_args,
    random_number_string,
    socket_address, AdbOutcome, AdbPairing, AdbPairingAction, BrowseEvent, DeviceInfo,
    DiscoveryAction, Ipv4Address, PairService, PairingWatch, ResolvedService, WatchAction,
    WatchPhase,
};
use lenscast::pipelines::new_pipeline_store;
use lenscast::qr::{qr_image, render_qr_rgba};
use lenscast::text::{chars_of, parse_u16, with_decimal};
use lenscast::video::{
    camera_dropdown_index, camera_id_for_selection, camera_selection_label,
    relay_attempt_decision, scrcpy_command_args, scrcpy_command_args_sized,
    relay_needs_restart, relay_spawn_error, scrcpy_start_result, RelayDecision, RelayProbe,
    Rotation, ScrcpyProbe, VideoPipeline,
};

fn device(id: u32, name: &str, address: &str, port: u16, camera: &str) -> Device {
    Device {
        id,
        name: name.to_string(),
        address: address.to_string(),
        port,
        connected: false,
        camera_selection: camera.to_string(),
    }
}

fn ids(store: &DeviceStore) -> Vec<u32> {
    store.devices().iter().map(|d| d.id).collect()
}

fn strings(v: &[&str]) -> Vec<String> {
    v.iter().map(|s| s.to_string()).collect()
}

// ---------------------------------------------------------------------------
// Video
// ---------------------------------------------------------------------------

#[test]
fn rotation_index_roundtrip_holds_for_every_rotation() {
    for r in [Rotation::Original, Rotation::Rot90, Rotation::Rot180, Rotation::Rot270] {
        assert_eq!(Rotation::from_index(r.index()), r);
    }
    assert_eq!(Rotation::Rot90.index(), 1);
    assert_eq!(Rotation::Original.method(), "none");
    assert_eq!(Rotation::Rot90.method(), "clockwise");
    assert_eq!(Rotation::Rot180.method(), "rotate-180");
    assert_eq!(Rotation::Rot270.method(), "counterclockwise");
}

#[test]
fn camera_selector_roundtrip() {
    assert_eq!(camera_selection_label(1), "front");
    assert_eq!(camera_selection_label(0), "back");
    assert_eq!(camera_selection_label(7), "back");
    for index in [0u32, 1, 2] {
        let label = camera_selection_label(index);
        let expected = if index == 1 { 1 } else { 0 };
        assert_eq!(camera_id_for_selection(&label), expected);
        assert_eq!(camera_dropdown_index(&label), expected);
    }
    assert_eq!(camera_dropdown_index("FRONT"), 1);
    assert_eq!(camera_dropdown_index(" front "), 0);
}

#[test]
fn scrcpy_args_are_exact() {
    let args = lenscast::video::scrcpy_command_args("/dev/video8", 1);
    assert_eq!(
        args,
        strings(&[
            "--video-source=camera",
            "--camera-id=1",
            "--camera-size=1280x720",
            "--camera-fps=30",
            "--video-bit-rate=6M",
            "--video-codec=h264",
            "--v4l2-sink=/dev/video8",
            "--no-playback",
            "--no-window",
        ])
    );
}

#[test]
fn relay_args_are_exact_with_rotation_and_flip() {
    let args = lenscast::video::build_relay_args(
        "/dev/video8",
        "/dev/video7",
        Rotation::Rot270,
        false,
        true,
    );
    assert_eq!(
        args,
        strings(&[
            "-e",
            "v4l2src",
            "device=/dev/video8",
            "!",
            "videoconvert",
            "!",
            "videoflip",
            "method=counterclockwise",
            "!",
            "videoflip",
            "method=vertical-flip",
            "!",
            "v4l2sink",
            "device=/dev/video7",
            "sync=false",
        ])
    );
}

#[test]
fn video_pipeline_settings() {
    let p = VideoPipeline::new("/dev/video8", "", 0).unwrap();
    assert_eq!(p.output_device(), "/dev/video8");
    assert!(!p.relay_enabled());
    let mut p = VideoPipeline::new("/dev/video8", "/dev/video7", 0).unwrap();
    assert_eq!(p.sink_device(), "/dev/video8");
    assert_eq!(p.output_device(), "/dev/video7");
    assert!(p.relay_enabled());
    assert_eq!(p.rotation(), Rotation::Original);
    assert!(!p.horizontal_flip() && !p.vertical_flip());
    p.set_rotation(Rotation::Rot180);
    p.set_horizontal_flip(true);
    p.switch_camera(1);
    assert_eq!(p.rotation(), Rotation::Rot180);
    assert!(p.horizontal_flip());
    assert!(!p.vertical_flip());
    assert_eq!(p.camera_id(), 1);
    let args = p.relay_args();
    assert!(args.iter().any(|a| a == "method=rotate-180"));
    assert!(args.iter().any(|a| a == "method=horizontal-flip"));
    assert!(p.scrcpy_args().iter().any(|a| a == "--camera-id=1"));
    p.set_vertical_flip(true);
    assert!(p.vertical_flip());
}

#[test]
fn camera_switch_keeps_relay_and_transforms_keep_scrcpy() {
    let mut p = VideoPipeline::new("/dev/video8", "/dev/video7", 0).unwrap();
    p.set_rotation(Rotation::Rot90);
    let relay_before = p.relay_args();
    let scrcpy_before = p.scrcpy_args();
    p.switch_camera(1);
    assert_eq!(p.relay_args(), relay_before);
    assert_ne!(p.scrcpy_args(), scrcpy_before);
    let scrcpy_front = p.scrcpy_args();
    p.set_rotation(Rotation::Rot270);
    p.set_vertical_flip(true);
    assert_eq!(p.scrcpy_args(), scrcpy_front);
    assert_ne!(p.relay_args(), relay_before);
}

#[test]
fn relay_attempts_retry_then_give_up() {
    assert_eq!(
        relay_attempt_decision(1, RelayProbe::Exited),
        RelayDecision::Retry { next: 2 }
    );
    assert_eq!(
        relay_attempt_decision(2, RelayProbe::SpawnFailed),
        RelayDecision::Retry { next: 3 }
    );
    assert_eq!(relay_attempt_decision(3, RelayProbe::Exited), RelayDecision::GiveUp);
    assert_eq!(relay_attempt_decision(3, RelayProbe::Running), RelayDecision::Keep);
    assert_eq!(relay_attempt_decision(1, RelayProbe::CheckFailed), RelayDecision::Keep);
}

#[test]
fn scrcpy_start_results_and_relay_messages() {
    assert_eq!(
        scrcpy_start_result(&ScrcpyProbe::SpawnFailed("no such file".to_string())),
        Err("failed to start scrcpy: no such file".to_string())
    );
    assert_eq!(
        scrcpy_start_result(&ScrcpyProbe::Exited("exit status: 1".to_string())),
        Err("scrcpy exited immediately with status exit status: 1".to_string())
    );
    assert_eq!(scrcpy_start_result(&ScrcpyProbe::Running), Ok(()));
    assert_eq!(scrcpy_start_result(&ScrcpyProbe::CheckFailed), Ok(()));
    assert_eq!(relay_spawn_error("boom"), "failed to start GStreamer relay: boom");
    assert!(relay_needs_restart(false, false));
    assert!(relay_needs_restart(true, true));
    assert!(!relay_needs_restart(true, false));
}

// ---------------------------------------------------------------------------
// Devices
// ---------------------------------------------------------------------------

#[test]
fn loaded_store_hands_out_fresh_ids() {
    let mut store = new_device_store(vec![
        device(3, "A", "10.0.0.3", 5555, "back"),
        device(1, "B", "10.0.0.1", 5555, "front"),
    ]);
    assert_eq!(store.peek_next_id(), 4);
    let id = store.add_device("C".to_string(), "10.0.0.4".to_string(), 41000);
    assert_eq!(id, 4);
    let id2 = store.add_device("D".to_string(), "10.0.0.5".to_string(), 41001);
    assert_eq!(id2, 5);
    assert_eq!(ids(&store), vec![3, 1, 4, 5]);
    let added = store.find(4).unwrap();
    assert!(!added.connected);
    assert_eq!(added.camera_selection, "back");
    assert_eq!(added.endpoint(), "10.0.0.4:41000");
    assert_eq!(store.camera_id_of(1), 1);
    assert_eq!(store.camera_id_of(3), 0);
    assert_eq!(store.camera_id_of(99), 0);
    assert_eq!(store.position(4), Some(2));
    assert_eq!(store.position(99), None);
    let empty = new_device_store(Vec::new());
    assert_eq!(empty.peek_next_id(), 1);
}

#[test]
fn endpoint_formats_address_and_port() {
    assert_eq!(endpoint("192.168.1.5", 5555), "192.168.1.5:5555");
    assert_eq!(endpoint("10.0.0.1", 0), "10.0.0.1:0");
    assert_eq!(endpoint("10.0.0.1", 65535), "10.0.0.1:65535");
}

#[test]
fn adb_device_list_keeps_only_attached_devices() {
    let out = "List of devices attached\n10.0.0.1:5555\tdevice product:x\n10.0.0.2:5555\toffline\nemulator-5554 unauthorized\n\n10.0.0.3:41000 device\n";
    assert_eq!(
        get_connected_adb_devices(out),
        vec!["10.0.0.1:5555".to_string(), "10.0.0.3:41000".to_string()]
    );
    assert!(get_connected_adb_devices("").is_empty());
    assert!(adb_lists(out, "10.0.0.3:41000"));
    assert!(!adb_lists(out, "10.0.0.2:5555"));
    assert!(!adb_lists(out, "10.0.0.9:5555"));
}

#[test]
fn refreshing_connected_status_twice_changes_nothing_more() {
    let mut store = new_device_store(vec![
        device(1, "A", "10.0.0.1", 5555, "back"),
        device(2, "B", "10.0.0.2", 5555, "back"),
    ]);
    store.set_connected(2, true);
    let attached = vec!["10.0.0.1:5555".to_string()];
    assert!(refresh_connected_status(&mut store, &attached));
    assert!(store.find(1).unwrap().connected);
    assert!(!store.find(2).unwrap().connected);
    assert!(!refresh_connected_status(&mut store, &attached));
    assert!(store.find(1).unwrap().connected);
}

#[test]
fn camera_selection_updates_report_changes() {
    let mut store = new_device_store(vec![device(1, "A", "10.0.0.1", 5555, "back")]);
    assert!(update_camera_selection(&mut store, 1, "front"));
    assert_eq!(store.find(1).unwrap().camera_selection, "front");
    assert!(!update_camera_selection(&mut store, 1, "front"));
    assert!(!update_camera_selection(&mut store, 7, "front"));
}

#[test]
fn renaming_trims_and_refuses_blank_names() {
    let mut store = new_device_store(vec![device(1, "A", "10.0.0.1", 5555, "back")]);
    assert_eq!(store.rename_device(1, "   "), Err(RenameError::EmptyName));
    assert_eq!(store.find(1).unwrap().name, "A");
    assert_eq!(store.rename_device(1, "  Pixel 8 \n"), Ok("Pixel 8".to_string()));
    assert_eq!(store.find(1).unwrap().name, "Pixel 8");
    assert_eq!(validate_device_name(" x "), Some("x".to_string()));
    assert_eq!(validate_device_name("\t"), None);
    assert_eq!(
        store.name_and_endpoint(1),
        Some(("Pixel 8".to_string(), "10.0.0.1:5555".to_string()))
    );
    assert_eq!(store.name_and_endpoint(2), None);
}

#[test]
fn restoring_a_removed_device_undoes_the_removal() {
    let mut store = new_device_store(vec![
        device(1, "A", "10.0.0.1", 5555, "back"),
        device(2, "B", "10.0.0.2", 5555, "back"),
        device(3, "C", "10.0.0.3", 5555, "back"),
    ]);
    let removed = store.remove_device(2).unwrap();
    assert_eq!(removed.name, "B");
    assert_eq!(ids(&store), vec![1, 3]);
    assert!(store.remove_device(2).is_none());
    store.restore_device(removed);
    assert_eq!(ids(&store), vec![1, 2, 3]);
    assert_eq!(store.endpoint_of(2), Some("10.0.0.2:5555".to_string()));
    assert_eq!(store.endpoint_of(9), None);
    assert_eq!(
        store.endpoints(),
        strings(&["10.0.0.1:5555", "10.0.0.2:5555", "10.0.0.3:5555"])
    );
}

#[test]
fn set_endpoint_replaces_address_and_port() {
    let mut store = new_device_store(vec![device(1, "A", "10.0.0.1", 5555, "back")]);
    store.set_endpoint(1, "10.0.0.8".to_string(), 40001);
    assert_eq!(store.endpoint_of(1), Some("10.0.0.8:40001".to_string()));
    let copy = store.find(1).unwrap().duplicate();
    assert_eq!(copy.address, "10.0.0.8");
    assert_eq!(copy.port, 40001);
}

// ---------------------------------------------------------------------------
// Loopback devices
// ---------------------------------------------------------------------------

#[test]
fn loopback_command_lines() {
    assert_eq!(loopback_unload_args(), strings(&["modprobe", "-r", "v4l2loopback"]));
    let prime = loopback_priming_args("/dev/video7");
    assert_eq!(prime.first().unwrap(), "videotestsrc");
    assert_eq!(prime.last().unwrap(), "device=/dev/video7");
    assert_eq!(prime.len(), 9);
    assert_eq!(
        loopback_devices(),
        ("/dev/video8".to_string(), "/dev/video7".to_string())
    );
}

#[test]
fn loopback_reload_decision() {
    assert!(!loopback_needs_reload(true, true, Some("1\n")));
    assert!(loopback_needs_reload(true, true, Some("Y,N")));
    assert!(loopback_needs_reload(true, true, Some("0")));
    assert!(loopback_needs_reload(true, true, None));
    assert!(loopback_needs_reload(false, true, Some("1")));
    assert!(loopback_needs_reload(true, false, Some("1")));
}

// ---------------------------------------------------------------------------
// Pairing
// ---------------------------------------------------------------------------

#[test]
fn private_addresses_and_their_text() {
    assert!(Ipv4Address(10, 1, 2, 3).is_private());
    assert!(Ipv4Address(172, 16, 0, 1).is_private());
    assert!(Ipv4Address(172, 31, 255, 1).is_private());
    assert!(!Ipv4Address(172, 32, 0, 1).is_private());
    assert!(Ipv4Address(192, 168, 0, 1).is_private());
    assert!(!Ipv4Address(8, 8, 8, 8).is_private());
    assert_eq!(Ipv4Address(192, 168, 1, 20).to_text(), "192.168.1.20");
    assert_eq!(socket_address(Ipv4Address(10, 0, 0, 7), 37000), "10.0.0.7:37000");
    let addrs = vec![Ipv4Address(8, 8, 8, 8), Ipv4Address(10, 0, 0, 2), Ipv4Address(192, 168, 1, 1)];
    assert_eq!(find_private(&addrs), Some(Ipv4Address(10, 0, 0, 2)));
    assert_eq!(find_private(&vec![Ipv4Address(1, 1, 1, 1)]), None);
}

#[test]
fn pairing_credentials_have_the_documented_shape() {
    let s = random_number_string(5);
    assert_eq!(s.len(), 5);
    assert!(s.chars().all(|c| c.is_ascii_digit()));
    assert!(random_number_string(0).is_empty());
    let service = PairService::new();
    assert!(service.service_name.starts_with("adb-wireless-"));
    let digits = &service.service_name["adb-wireless-".len()..];
    assert_eq!(digits.len(), 6);
    assert!(digits.chars().all(|c| c.is_ascii_digit()));
    assert_eq!(service.password.len(), 8);
    assert!(service.password.chars().all(|c| c.is_ascii_digit()));
    assert_eq!(
        service.qr_text(),
        format!("WIFI:T:ADB;S:{};P:{};;", service.service_name, service.password)
    );
    assert_eq!(service.host_name(), format!("{}.local.", service.service_name));
}

fn resolved(fullname: &str, addresses: Vec<Ipv4Address>, port: u16) -> BrowseEvent {
    BrowseEvent::Resolved(ResolvedService { fullname: fullname.to_string(), addresses, port })
}

#[test]
fn pairing_watch_finds_the_phone_and_its_debugging_port() {
    let mut w = PairingWatch::new("adb-wireless-123456");
    assert_eq!(w.current_phase(), WatchPhase::Pairing);
    assert!(matches!(w.step(BrowseEvent::TimedOut), WatchAction::Wait { pause: false }));
    assert!(matches!(w.step(BrowseEvent::Other), WatchAction::Wait { pause: true }));
    assert!(matches!(
        w.step(resolved("someone-else._adb-tls-pairing._tcp.local.", vec![], 1)),
        WatchAction::Wait { pause: false }
    ));
    let phone = Ipv4Address(192, 168, 1, 20);
    let a = w.step(resolved(
        "adb-wireless-123456._adb-tls-pairing._tcp.local.",
        vec![Ipv4Address(8, 8, 8, 8), phone],
        37000,
    ));
    assert!(matches!(a, WatchAction::SwitchToConnectBrowse));
    assert_eq!(w.current_phase(), WatchPhase::Connect { address: phone, pairing_port: 37000 });
    assert!(matches!(
        w.step(resolved("other", vec![Ipv4Address(192, 168, 1, 99)], 40000)),
        WatchAction::Wait { pause: true }
    ));
    match w.step(resolved("phone", vec![phone], 41000)) {
        WatchAction::Finish { result: Ok(info), stop_browse: true } => {
            assert_eq!(
                info,
                DeviceInfo { address: phone, pairing_port: 37000, debugging_port: 41000 }
            );
        }
        _ => panic!("expected the phone to be found"),
    }
    assert_eq!(w.current_phase(), WatchPhase::Finished);
    assert!(matches!(w.step(BrowseEvent::Expired), WatchAction::Wait { pause: false }));
    assert_eq!(w.current_phase(), WatchPhase::Finished);
}

fn finish_error(a: WatchAction) -> (String, bool) {
    match a {
        WatchAction::Finish { result: Err(e), stop_browse } => (e, stop_browse),
        _ => panic!("expected a failure"),
    }
}

#[test]
fn pairing_watch_errors() {
    let mut w = PairingWatch::new("adb-wireless-000001");
    let a = w.step(resolved("adb-wireless-000001.x", vec![Ipv4Address(8, 8, 4, 4)], 1));
    assert_eq!(finish_error(a), ("No private client address found".to_string(), true));

    let mut w = PairingWatch::new("adb-wireless-000001");
    let a = w.step(BrowseEvent::Failed("socket closed".to_string()));
    assert_eq!(finish_error(a), ("mDNS browse error: socket closed".to_string(), true));

    let mut w = PairingWatch::new("adb-wireless-000001");
    w.step(resolved("adb-wireless-000001.x", vec![Ipv4Address(10, 0, 0, 5)], 30000));
    let a = w.step(BrowseEvent::Expired);
    assert_eq!(finish_error(a), ("Timeout waiting for debugging port".to_string(), false));

    let mut w = PairingWatch::new("adb-wireless-000001");
    w.step(resolved("adb-wireless-000001.x", vec![Ipv4Address(10, 0, 0, 5)], 30000));
    let a = w.step(BrowseEvent::Failed("gone".to_string()));
    assert_eq!(finish_error(a), ("mDNS connect error: gone".to_string(), true));
}

#[test]
fn discovery_decisions() {
    match discovery_step(&resolved("x", vec![Ipv4Address(8, 8, 8, 8), Ipv4Address(10, 0, 0, 9)], 40000)) {
        DiscoveryAction::Found(info) => assert_eq!(
            info,
            DeviceInfo { address: Ipv4Address(10, 0, 0, 9), pairing_port: 0, debugging_port: 40000 }
        ),
        _ => panic!("expected a phone"),
    }
    assert!(matches!(
        discovery_step(&resolved("x", vec![Ipv4Address(8, 8, 8, 8)], 1)),
        DiscoveryAction::Wait
    ));
    assert!(matches!(discovery_step(&BrowseEvent::Other), DiscoveryAction::Wait));
    assert!(matches!(discovery_step(&BrowseEvent::TimedOut), DiscoveryAction::Wait));
    assert!(matches!(
        discovery_step(&BrowseEvent::Failed("x".to_string())),
        DiscoveryAction::Rebrowse
    ));
    match discovery_step(&BrowseEvent::Expired) {
        DiscoveryAction::GiveUp(m) => assert_eq!(m, "No connect service discovered (timeout)"),
        _ => panic!("expected the search to end"),
    }
}

fn phone() -> DeviceInfo {
    DeviceInfo { address: Ipv4Address(192, 168, 1, 20), pairing_port: 37000, debugging_port: 41000 }
}

#[test]
fn adb_pair_and_connect_arguments() {
    assert_eq!(
        pair_command_args(phone(), "12345678"),
        strings(&["pair", "192.168.1.20:37000", "12345678"])
    );
    assert_eq!(connect_command_args(phone()), strings(&["connect", "192.168.1.20:41000"]));
}

fn run_args(a: AdbPairingAction) -> Vec<String> {
    match a {
        AdbPairingAction::Run(args) => args,
        _ => panic!("expected a command"),
    }
}

fn done(a: AdbPairingAction) -> Result<DeviceInfo, String> {
    match a {
        AdbPairingAction::Done(r) => r,
        _ => panic!("expected the end"),
    }
}

#[test]
fn adb_pairing_runs_pair_then_connect() {
    let (mut p, a) = AdbPairing::start(phone(), "12345678", true);
    assert_eq!(run_args(a), strings(&["pair", "192.168.1.20:37000", "12345678"]));
    let a = p.step(AdbOutcome::Exited { success: true, stderr: String::new() });
    assert_eq!(run_args(a), strings(&["connect", "192.168.1.20:41000"]));
    assert!(!p.is_done());
    let a = p.step(AdbOutcome::Exited { success: true, stderr: String::new() });
    assert_eq!(done(a), Ok(phone()));
    assert!(p.is_done());
}

#[test]
fn adb_pairing_failures() {
    let (mut p, _) = AdbPairing::start(phone(), "1", true);
    let a = p.step(AdbOutcome::SpawnFailed("adb not found".to_string()));
    assert_eq!(done(a), Err("adb pair failed: adb not found".to_string()));

    let (mut p, _) = AdbPairing::start(phone(), "1", true);
    p.step(AdbOutcome::Exited { success: true, stderr: String::new() });
    let a = p.step(AdbOutcome::Exited { success: false, stderr: "  refused \n".to_string() });
    assert_eq!(done(a), Err("adb connect failed: refused".to_string()));

    let (mut p, _) = AdbPairing::start(phone(), "1", false);
    let a = p.step(AdbOutcome::Exited { success: true, stderr: String::new() });
    assert_eq!(done(a), Ok(phone()));
}

// ---------------------------------------------------------------------------
// Manual pairing
// ---------------------------------------------------------------------------

#[test]
fn manual_form_errors_in_order() {
    assert_eq!(validate_manual_pairing(" ", "1", "123456"), Err(ManualPairingError::MissingIp));
    assert_eq!(validate_manual_pairing("1.2.3.4", "", "x"), Err(ManualPairingError::MissingPort));
    assert_eq!(
        validate_manual_pairing("1.2.3.4", "37000", "12345"),
        Err(ManualPairingError::InvalidCode)
    );
    assert_eq!(
        validate_manual_pairing("1.2.3.4", "37000", "12a456"),
        Err(ManualPairingError::InvalidCode)
    );
    assert_eq!(validate_manual_pairing("1.2.3.4", "37000", " 123456 "), Ok(()));
    assert_eq!(ManualPairingError::MissingIp.message(), "Please enter the device IP address.");
    assert_eq!(ManualPairingError::MissingPort.message(), "Please enter the pairing port.");
    assert_eq!(
        ManualPairingError::InvalidCode.message(),
        "Please enter the 6-digit pairing code."
    );
    assert_eq!(manual_pair_address(" 10.0.0.2 ", " 37000\n"), "10.0.0.2:37000");
}

#[test]
fn pair_output_scanner_reports_success_and_failure() {
    let mut s = PairOutputScanner::new();
    assert!(!s.found_success());
    let r = s.scan_chunk("Enter pairing code:\nSuccessfully paired to 10.0.0.2:37000 [guid=x]\n");
    assert!(r.success_found);
    assert_eq!(r.failure, None);
    assert!(s.found_success());
    let r = s.scan_chunk("Pairing successful\n");
    assert!(!r.success_found);
    assert_eq!(s.finish(), None);

    let mut s = PairOutputScanner::new();
    let r = s.scan_chunk("\n  Error: protocol fault (couldn't read status)  \nSuccessfully paired\n");
    assert!(!r.success_found);
    assert_eq!(r.failure, Some("Error: protocol fault (couldn't read status)".to_string()));
    assert!(!s.found_success());
    assert_eq!(s.finish(), Some("Pairing process ended unexpectedly".to_string()));
}

#[test]
fn debugging_port_lookup_after_pairing() {
    let out = "List of devices attached\n10.0.0.9:5555 device\n10.0.0.2:41234 device product:x\n";
    assert_eq!(find_debug_port(out, "10.0.0.2"), Some(("10.0.0.2".to_string(), 41234)));
    assert_eq!(find_debug_port(out, "10.0.0.9"), Some(("10.0.0.9".to_string(), 5555)));
    assert_eq!(find_debug_port(out, "10.0.0.7"), None);
    assert_eq!(find_debug_port("List\n10.0.0.2:abc device\n", "10.0.0.2"), None);
    assert_eq!(find_debug_port("List\n10.0.0.2:41234 offline\n", "10.0.0.2"), None);
    assert_eq!(
        endpoint_after_pairing("10.0.0.2", Some(out)),
        ("10.0.0.2".to_string(), 41234)
    );
    assert_eq!(endpoint_after_pairing("10.0.0.2", None), ("10.0.0.2".to_string(), 5555));
    assert_eq!(endpoint_after_pairing("10.0.0.7", Some(out)), ("10.0.0.7".to_string(), 5555));
}

#[test]
fn messages_are_cut_and_worded() {
    assert_eq!(truncate("abcdef", 3), "abc…");
    assert_eq!(truncate("abc", 3), "abc");
    assert_eq!(truncate("", 0), "");
    let long = "x".repeat(140);
    assert_eq!(pairing_failed_label(&long), format!("Pairing failed: {}…", "x".repeat(130)));
    assert_eq!(pairing_failed_label("timeout"), "Pairing failed: timeout");
    assert_eq!(
        qr_failure_message(QrPairingStage::Startup, "e"),
        "Failed to initialize pairing service: e"
    );
    assert_eq!(
        qr_failure_message(QrPairingStage::Registration, "e"),
        "mDNS registration failed: e"
    );
    assert_eq!(qr_failure_message(QrPairingStage::Discovery, "e"), "Device discovery failed: e");
}

// ---------------------------------------------------------------------------
// QR picture
// ---------------------------------------------------------------------------

#[test]
fn qr_rendering_scales_modules() {
    let img = render_qr_rgba(2, &vec![true, false, false, true]);
    assert_eq!(img.size, 200);
    assert_eq!(img.stride, 800);
    assert_eq!(img.pixels.len(), 200 * 200 * 4);
    assert_eq!(&img.pixels[0..4], &[0, 0, 0, 255]);
    assert_eq!(&img.pixels[400..404], &[255, 255, 255, 255]);
    let bottom_right = ((199 * 200) + 199) * 4;
    assert_eq!(&img.pixels[bottom_right..bottom_right + 4], &[0, 0, 0, 255]);
    let img = render_qr_rgba(3, &vec![false; 9]);
    assert_eq!(img.size, 198);
    assert!(img.pixels.iter().all(|b| *b == 255));
}

#[test]
fn qr_pictures_fit_two_hundred_pixels() {
    assert_eq!(render_qr_rgba(21, &vec![true; 21 * 21]).size, 189);
    assert_eq!(render_qr_rgba(177, &vec![true; 177 * 177]).size, 177);
    assert_eq!(render_qr_rgba(101, &vec![false; 101 * 101]).size, 101);
}

#[test]
fn qr_image_of_a_pairing_payload() {
    let img = qr_image("WIFI:T:ADB;S:adb-wireless-123456;P:12345678;;").unwrap();
    assert!(img.size > 0 && img.size <= 200);
    assert_eq!(img.stride, img.size * 4);
    assert_eq!(img.pixels.len(), img.size * img.size * 4);
    // The top left corner belongs to a finder pattern, which is dark.
    assert_eq!(&img.pixels[0..4], &[0, 0, 0, 255]);
    assert!(img.pixels.iter().any(|b| *b == 255));
    let other = qr_image("WIFI:T:ADB;S:adb-wireless-654321;P:87654321;;").unwrap();
    assert_ne!(img.pixels, other.pixels);
}

// ---------------------------------------------------------------------------
// Running pipelines
// ---------------------------------------------------------------------------

#[test]
fn pipeline_store_insert_then_remove() {
    let mut store = new_pipeline_store::<String>();
    assert_eq!(store.len(), 0);
    assert_eq!(store.try_insert(1, "a".to_string()), Ok(()));
    assert_eq!(store.try_insert(1, "b".to_string()), Err("b".to_string()));
    assert_eq!(store.try_insert(2, "c".to_string()), Ok(()));
    assert!(store.contains(1));
    assert_eq!(store.get(1), Some(&"a".to_string()));
    assert_eq!(store.len(), 2);
    assert_eq!(store.remove(1), Some("a".to_string()));
    assert_eq!(store.remove(1), None);
    assert!(!store.contains(1));
    let all = store.drain();
    assert_eq!(all, vec![(2, "c".to_string())]);
    assert_eq!(store.len(), 0);
}

// ---------------------------------------------------------------------------
// Connecting
// ---------------------------------------------------------------------------

fn expect_adb_connect(a: ConnectAction) -> String {
    match a {
        ConnectAction::AdbConnect(e) => e,
        _ => panic!("expected adb connect"),
    }
}

#[test]
fn connecting_at_the_saved_address() {
    let mut store = new_device_store(vec![device(1, "Pixel", "192.168.1.2", 5555, "front")]);
    let (mut flow, a) = ConnectFlow::start(&store, 1);
    assert_eq!(expect_adb_connect(a), "192.168.1.2:5555");
    assert_eq!(flow.phase(), ConnectPhase::ConnectingSaved);
    let a = flow.step(&mut store, ConnectEvent::AdbConnectFinished);
    assert!(matches!(a, ConnectAction::ListAdbDevices));
    let listing = "List of devices attached\n192.168.1.2:5555\tdevice\n".to_string();
    let a = flow.step(&mut store, ConnectEvent::AdbDevicesListed(Some(listing)));
    assert!(matches!(a, ConnectAction::SaveDevices));
    assert!(store.find(1).unwrap().connected);
    let a = flow.step(&mut store, ConnectEvent::Saved);
    assert!(matches!(a, ConnectAction::SpawnPipeline(1)));
    let a = flow.step(&mut store, ConnectEvent::PipelineSpawned);
    match a {
        ConnectAction::Finish { connected, name } => {
            assert!(connected);
            assert_eq!(name, "Pixel");
        }
        _ => panic!("expected the end"),
    }
    assert_eq!(flow.phase(), ConnectPhase::Finished);
}

#[test]
fn connecting_through_discovery_stores_the_new_endpoint() {
    let mut store = new_device_store(vec![device(1, "Pixel", "192.168.1.2", 5555, "back")]);
    let (mut flow, _) = ConnectFlow::start(&store, 1);
    flow.step(&mut store, ConnectEvent::AdbConnectFinished);
    let a = flow.step(&mut store, ConnectEvent::AdbDevicesListed(None));
    assert!(matches!(a, ConnectAction::DiscoverDevice));
    let found = DeviceInfo { address: Ipv4Address(192, 168, 1, 9), pairing_port: 0, debugging_port: 40000 };
    let a = flow.step(&mut store, ConnectEvent::DeviceDiscovered(Some(found)));
    assert_eq!(expect_adb_connect(a), "192.168.1.9:40000");
    let a = flow.step(&mut store, ConnectEvent::AdbConnectFinished);
    assert!(matches!(a, ConnectAction::ListAdbDevices));
    let listing = "List of devices attached\n192.168.1.9:40000 device\n".to_string();
    let a = flow.step(&mut store, ConnectEvent::AdbDevicesListed(Some(listing)));
    assert!(matches!(a, ConnectAction::SaveDevices));
    assert_eq!(store.endpoint_of(1), Some("192.168.1.9:40000".to_string()));
    assert!(!store.find(1).unwrap().connected);
    let a = flow.step(&mut store, ConnectEvent::Saved);
    assert!(matches!(a, ConnectAction::SaveDevices));
    assert!(store.find(1).unwrap().connected);
    let a = flow.step(&mut store, ConnectEvent::Saved);
    assert!(matches!(a, ConnectAction::SpawnPipeline(0)));
}

#[test]
fn connecting_fails_without_device_or_discovery() {
    let mut store = new_device_store(vec![
        device(1, "Pixel", "192.168.1.2", 5555, "back"),
        device(2, "Blank", "", 5555, "back"),
    ]);
    let (_, a) = ConnectFlow::start(&store, 9);
    assert!(matches!(a, ConnectAction::Finish { connected: false, ref name } if name.is_empty()));
    let (_, a) = ConnectFlow::start(&store, 2);
    assert!(matches!(a, ConnectAction::Finish { connected: false, ref name } if name == "Blank"));
    let (mut flow, _) = ConnectFlow::start(&store, 1);
    flow.step(&mut store, ConnectEvent::AdbConnectFinished);
    flow.step(&mut store, ConnectEvent::AdbDevicesListed(Some("List\n".to_string())));
    let a = flow.step(&mut store, ConnectEvent::DeviceDiscovered(None));
    assert!(matches!(a, ConnectAction::Finish { connected: false, ref name } if name == "Pixel"));
    assert!(!store.find(1).unwrap().connected);
    let (mut flow, _) = ConnectFlow::start(&store, 1);
    let a = flow.step(&mut store, ConnectEvent::Saved);
    assert!(matches!(a, ConnectAction::Finish { connected: false, .. }));
}

#[test]
fn disconnecting_and_notices() {
    let mut store = new_device_store(vec![device(1, "Pixel", "192.168.1.2", 5555, "back")]);
    store.set_connected(1, true);
    let still = "List of devices attached\n192.168.1.2:5555 device\n";
    assert!(!finish_disconnect(&mut store, 1, "192.168.1.2:5555", Some(still)));
    assert!(store.find(1).unwrap().connected);
    assert!(finish_disconnect(&mut store, 1, "192.168.1.2:5555", Some("List of devices attached\n")));
    assert!(!store.find(1).unwrap().connected);
    assert_eq!(connection_toast(false, true, "Pixel"), "Connected to Pixel");
    assert_eq!(connection_toast(true, true, "Pixel"), "Disconnected from Pixel");
    assert_eq!(connection_toast(false, false, "Pixel"), "Failed to connect to Pixel");
    assert_eq!(connection_toast(true, false, "Pixel"), "Failed to disconnect from Pixel");
    assert!(effective_connected(false, true));
    assert!(!effective_connected(false, false));
}

// ---------------------------------------------------------------------------
// Text
// ---------------------------------------------------------------------------

#[test]
fn decimal_text_and_port_parsing() {
    assert_eq!(with_decimal("--camera-id=", 0), "--camera-id=0");
    assert_eq!(with_decimal("n=", 1234567), "n=1234567");
    assert_eq!(parse_u16(&chars_of("65535")), Some(65535));
    assert_eq!(parse_u16(&chars_of("65536")), None);
    assert_eq!(parse_u16(&chars_of("")), None);
    assert_eq!(parse_u16(&chars_of("+12")), Some(12));
    assert_eq!(parse_u16(&chars_of("1a")), None);
}

// ---------------------------------------------------------------------------
// Camera size, camera choice, digits, relay order
// ---------------------------------------------------------------------------

#[test]
fn scrcpy_camera_size_is_passed_on() {
    let args = scrcpy_command_args_sized("/dev/video8", 1, 1920, 1080);
    assert_eq!(args[2], "--camera-size=1920x1080");
    assert_eq!(args[1], "--camera-id=1");
    assert_eq!(args[6], "--v4l2-sink=/dev/video8");
    assert_eq!(
        scrcpy_command_args_sized("/dev/video8", 0, 1280, 720),
        scrcpy_command_args("/dev/video8", 0)
    );
    assert_ne!(
        scrcpy_command_args_sized("/dev/video8", 0, 640, 480),
        scrcpy_command_args_sized("/dev/video8", 0, 64, 480)
    );
    let mut p = VideoPipeline::new("/dev/video8", "/dev/video7", 0).unwrap();
    assert_eq!(p.camera_size(), (1280, 720));
    let relay = p.relay_args();
    p.set_camera_size(640, 480);
    assert_eq!(p.camera_size(), (640, 480));
    assert!(p.scrcpy_args().iter().any(|a| a == "--camera-size=640x480"));
    assert_eq!(p.relay_args(), relay);
}

#[test]
fn camera_choice_switches_only_a_running_pipeline() {
    let mut store = new_device_store(vec![
        device(1, "A", "10.0.0.1", 5555, "back"),
        device(2, "B", "10.0.0.2", 5555, "back"),
    ]);
    let mut running = new_pipeline_store::<u8>();
    running.try_insert(1, 0).unwrap();
    assert_eq!(select_camera(&mut store, &running, 1, " Front "), (true, Some(1)));
    assert_eq!(store.find(1).unwrap().camera_selection, " Front ");
    assert_eq!(select_camera(&mut store, &running, 1, " Front "), (false, None));
    assert_eq!(select_camera(&mut store, &running, 2, "front"), (true, None));
    assert_eq!(select_camera(&mut store, &running, 1, "back"), (true, Some(0)));
    assert_eq!(select_camera(&mut store, &running, 9, "front"), (false, None));
}

#[test]
fn draws_become_their_digits() {
    assert_eq!(digits_of_draws(&vec![0, 7, 9, 3]), "0793");
    assert_eq!(digits_of_draws(&vec![]), "");
}

#[test]
fn camera_id_ignores_white_space_and_case() {
    for s in ["front", "FrOnT", " \t front \u{3000}", "\u{a0}FRONT\n"] {
        assert_eq!(camera_id_for_selection(s), 1, "{:?}", s);
    }
    for s in ["back", " BACK ", "fr ont", "", "\u{212a}"] {
        assert_eq!(camera_id_for_selection(s), 0, "{:?}", s);
    }
}

#[test]
fn relay_stages_follow_rotation_then_flips() {
    let args = lenscast::video::build_relay_args("in", "out", Rotation::Rot90, true, true);
    assert_eq!(args[4], "videoconvert");
    assert_eq!(&args[6..15], &strings(&[
        "videoflip",
        "method=clockwise",
        "!",
        "videoflip",
        "method=horizontal-flip",
        "!",
        "videoflip",
        "method=vertical-flip",
        "!",
    ])[..]);
    assert_eq!(args[15], "v4l2sink");
    let args = lenscast::video::build_relay_args("in", "out", Rotation::Original, false, true);
    assert_eq!(args[6], "videoflip");
    assert_eq!(args[7], "method=vertical-flip");
    assert_eq!(args[9], "v4l2sink");
}

#[test]
fn pipeline_store_drains_every_entry() {
    let mut store = new_pipeline_store::<u32>();
    for id in [5u32, 1, 9, 3] {
        assert_eq!(store.try_insert(id, id * 10), Ok(()));
    }
    let mut all = store.drain();
    all.sort();
    assert_eq!(all, vec![(1, 10), (3, 30), (5, 50), (9, 90)]);
    assert_eq!(store.len(), 0);
    assert!(!store.contains(5));
}
