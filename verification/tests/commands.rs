use lenscast::devices::get_connected_adb_devices;
use lenscast::loopback::loopback_modprobe_args;
use lenscast::video::{build_relay_args, camera_id_for_selection, scrcpy_command_args, Rotation};

#[test]
fn loopback_modprobe_args_are_clean_and_chrome_compatible() {
    let args = loopback_modprobe_args();
    assert!(args.iter().all(|arg| !arg.ends_with(' ')));
    assert!(args.iter().any(|arg| arg == "exclusive_caps=1"));
    assert!(args.iter().any(|arg| arg == "sustain_framerate=1"));
    assert!(args.iter().any(|arg| arg == "devices=2"));
    assert!(args.iter().any(|arg| arg == "video_nr=7,8"));
    assert!(args.iter().any(|arg| arg.starts_with("card_label=")));
}

#[test]
fn get_connected_adb_devices_parses_valid_output() {
    let fake_output = b"List of devices attached\n192.168.1.100:5555    device\n";
    let stdout = String::from_utf8_lossy(fake_output);
    let addresses: Vec<String> = get_connected_adb_devices(&stdout);
    assert_eq!(addresses, vec!["192.168.1.100:5555"]);
}

#[test]
fn relay_args_no_transforms_has_no_videoflip() {
    let args = build_relay_args(
        "/dev/video8",
        "/dev/video7",
        Rotation::Original,
        false,
        false,
    );
    assert!(!args.iter().any(|a| a == "videoflip"));
    assert!(args.iter().any(|a| a == "v4l2src"));
    assert!(args.iter().any(|a| a == "v4l2sink"));
    assert!(args.iter().any(|a| a == "videoconvert"));
}

#[test]
fn relay_args_rotation_inserts_videoflip_before_sink() {
    let args = build_relay_args("/dev/video8", "/dev/video7", Rotation::Rot90, false, false);
    assert!(args.iter().any(|a| a == "videoflip"));
    assert!(args.iter().any(|a| a == "method=clockwise"));
    let flip_pos = args.iter().position(|a| a == "videoflip").unwrap();
    let sink_pos = args.iter().position(|a| a == "v4l2sink").unwrap();
    assert!(flip_pos < sink_pos);
}

#[test]
fn relay_args_h_flip_only() {
    let args = build_relay_args(
        "/dev/video8",
        "/dev/video7",
        Rotation::Original,
        true,
        false,
    );
    assert!(args.iter().any(|a| a == "method=horizontal-flip"));
    assert!(!args.iter().any(|a| a == "method=vertical-flip"));
}

#[test]
fn relay_args_v_flip_only() {
    let args = build_relay_args(
        "/dev/video8",
        "/dev/video7",
        Rotation::Original,
        false,
        true,
    );
    assert!(args.iter().any(|a| a == "method=vertical-flip"));
    assert!(!args.iter().any(|a| a == "method=horizontal-flip"));
}

#[test]
fn relay_args_rotation_plus_both_flips_has_three_videoflip_elements() {
    let args = build_relay_args("/dev/video8", "/dev/video7", Rotation::Rot180, true, true);
    let flip_count = args.iter().filter(|a| a.as_str() == "videoflip").count();
    assert_eq!(flip_count, 3);
    assert!(args.iter().any(|a| a == "method=rotate-180"));
    assert!(args.iter().any(|a| a == "method=horizontal-flip"));
    assert!(args.iter().any(|a| a == "method=vertical-flip"));
}

#[test]
fn relay_args_no_trailing_spaces() {
    let args = build_relay_args("/dev/video8", "/dev/video7", Rotation::Rot270, true, true);
    assert!(args.iter().all(|a| !a.ends_with(' ')));
}

#[test]
fn scrcpy_args_include_camera_source_and_v4l2_sink() {
    let args = scrcpy_command_args("/dev/video8", 0);
    assert!(args.contains(&"--video-source=camera".to_string()));
    assert!(args.contains(&"--v4l2-sink=/dev/video8".to_string()));
    assert!(args.contains(&"--camera-id=0".to_string()));
    assert!(args.iter().all(|arg| !arg.ends_with(' ')));
}

#[test]
fn camera_selection_defaults_to_back_and_front() {
    assert_eq!(camera_id_for_selection("back"), 0);
    assert_eq!(camera_id_for_selection("front"), 1);
    assert_eq!(camera_id_for_selection("unknown"), 0);
}

#[test]
fn camera_selection_is_case_insensitive_and_trims_whitespace() {
    assert_eq!(camera_id_for_selection("Front"), 1);
    assert_eq!(camera_id_for_selection("FRONT"), 1);
    assert_eq!(camera_id_for_selection("  front  "), 1);
    assert_eq!(camera_id_for_selection("Back"), 0);
    assert_eq!(camera_id_for_selection("\tback\n"), 0);
}

#[test]
fn rotation_from_index_maps_correctly() {
    assert_eq!(Rotation::from_index(0), Rotation::Original);
    assert_eq!(Rotation::from_index(1), Rotation::Rot90);
    assert_eq!(Rotation::from_index(2), Rotation::Rot180);
    assert_eq!(Rotation::from_index(3), Rotation::Rot270);
}

#[test]
fn rotation_from_index_out_of_range_defaults_to_original() {
    assert_eq!(Rotation::from_index(4), Rotation::Original);
    assert_eq!(Rotation::from_index(255), Rotation::Original);
    assert_eq!(Rotation::from_index(u8::MAX), Rotation::Original);
}
