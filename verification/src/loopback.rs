//! The two v4l2loopback devices: scrcpy writes the intermediate one, the
//! relay copies it into the one that browsers read, so that the browser's
//! stream survives a camera switch.
use vstd::prelude::*;
use crate::text::{chars_of, chars_equal, concat_str, owned, trim, trimmed_chars, views};

verus! {

broadcast use vstd::string::group_string_axioms;

/// The device that browsers read; the relay writes it.
pub const OUTPUT_DEVICE: &'static str = "/dev/video7";

/// The intermediate device that scrcpy writes and the relay reads.
pub const SINK_DEVICE: &'static str = "/dev/video8";

/// The module parameter that tells whether the devices were made with
/// `exclusive_caps`.
pub const EXCLUSIVE_CAPS_PATH: &'static str = "/sys/module/v4l2loopback/parameters/exclusive_caps";

/// The `modprobe` command line (run under `sudo`) that creates the two
/// devices: numbers 7 and 8, labelled for the camera picker, with
/// `exclusive_caps` so that browsers see them, and with the last frame
/// repeated while no writer is active.
pub open spec fn modprobe_args_spec() -> Seq<Seq<char>> {
    seq![
        "modprobe"@,
        "v4l2loopback"@,
        "devices=2"@,
        "video_nr=7,8"@,
        "card_label=LensCast,LensCast_Src"@,
        "exclusive_caps=1"@,
        "sustain_framerate=1"@,
    ]
}

/// The command line that loads the loopback module.
pub fn loopback_modprobe_args() -> (args: Vec<String>)
    ensures
        views(args@) == modprobe_args_spec(),
{
    let mut args: Vec<String> = Vec::new();
    args.push(owned("modprobe"));
    args.push(owned("v4l2loopback"));
    args.push(owned("devices=2"));
    args.push(owned("video_nr=7,8"));
    args.push(owned("card_label=LensCast,LensCast_Src"));
    args.push(owned("exclusive_caps=1"));
    args.push(owned("sustain_framerate=1"));
    assert(views(args@) =~= modprobe_args_spec());
    args
}

/// The command line (run under `sudo`) that unloads the loopback module.
pub fn loopback_unload_args() -> (args: Vec<String>)
    ensures
        views(args@) == seq!["modprobe"@, "-r"@, "v4l2loopback"@],
{
    let mut args: Vec<String> = Vec::new();
    args.push(owned("modprobe"));
    args.push(owned("-r"));
    args.push(owned("v4l2loopback"));
    assert(views(args@) =~= seq!["modprobe"@, "-r"@, "v4l2loopback"@]);
    args
}

/// The `gst-launch-1.0` command line that writes 30 black 1280x720 frames
/// into `device`, so that a reloaded device has a format.
pub open spec fn priming_args_spec(device: Seq<char>) -> Seq<Seq<char>> {
    seq![
        "videotestsrc"@,
        "is-live=true"@,
        "pattern=black"@,
        "num-buffers=30"@,
        "!"@,
        "video/x-raw,format=YUY2,width=1280,height=720,framerate=30/1"@,
        "!"@,
        "v4l2sink"@,
        "device="@ + device,
    ]
}

/// The command line that primes a freshly loaded device.
pub fn loopback_priming_args(device: &str) -> (args: Vec<String>)
    ensures
        views(args@) == priming_args_spec(device@),
{
    let mut args: Vec<String> = Vec::new();
    args.push(owned("videotestsrc"));
    args.push(owned("is-live=true"));
    args.push(owned("pattern=black"));
    args.push(owned("num-buffers=30"));
    args.push(owned("!"));
    args.push(owned("video/x-raw,format=YUY2,width=1280,height=720,framerate=30/1"));
    args.push(owned("!"));
    args.push(owned("v4l2sink"));
    args.push(concat_str("device=", device));
    assert(views(args@) =~= priming_args_spec(device@));
    args
}

/// Whether the loopback module must be reloaded: when a device is missing,
/// or when the `exclusive_caps` parameter cannot be read or, trimmed, is
/// not exactly `1` (a per-device list such as `Y,N` means some device lacks
/// it).
pub open spec fn needs_reload_spec(
    output_exists: bool,
    sink_exists: bool,
    exclusive_caps: Option<Seq<char>>,
) -> bool {
    ||| !output_exists
    ||| !sink_exists
    ||| match exclusive_caps {
        Some(caps) => trim(caps) != "1"@,
        None => true,
    }
}

/// Decides whether the loopback module must be reloaded.
pub fn loopback_needs_reload(
    output_exists: bool,
    sink_exists: bool,
    exclusive_caps: Option<&str>,
) -> (b: bool)
    ensures
        b == needs_reload_spec(
            output_exists,
            sink_exists,
            match exclusive_caps {
                Some(c) => Some(c@),
                None => None,
            },
        ),
{
    if !output_exists || !sink_exists {
        return true;
    }
    match exclusive_caps {
        Some(caps) => {
            let t = trimmed_chars(caps);
            let one = chars_of("1");
            !chars_equal(&t, &one)
        },
        None => true,
    }
}

/// The pair (scrcpy sink, browser output) of loopback devices.
pub fn loopback_devices() -> (r: (String, String))
    ensures
        r.0@ == SINK_DEVICE@,
        r.1@ == OUTPUT_DEVICE@,
{
    (owned(SINK_DEVICE), owned(OUTPUT_DEVICE))
}

} // verus!
