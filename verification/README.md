# LensCast

LensCast streams an Android phone's camera to a Linux desktop: the phone is
paired over wireless ADB, scrcpy writes its camera into a v4l2loopback device,
and a GStreamer relay copies that stream, rotated and flipped as asked, into a
second loopback device that browsers open as a webcam.

## Layout

- `src/` is the `lenscast` library, written in Verus. Its functions carry
  contracts that Verus proves, except four small trusted wrappers whose
  contracts are taken on trust from the documentation and source of what
  they call: `push_char` (`String::push`), `thread_rng` (`rand::rng`),
  `random_below_ten` (`Rng::random_range(0..10)`) and `encode_qr`
  (`qrcode::QrCode::new`, `width`, `to_colors`). The modules:
  - `devices`: the saved devices, id allocation, renaming, removal and undo,
    and what `adb devices` reports;
  - `connection`: the steps of connecting a saved device (saved address,
    then mDNS discovery) and of disconnecting it;
  - `pairing`: the pairing credentials and QR payload, the mDNS pairing
    watch, and the `adb pair` / `adb connect` sequence;
  - `manual`: the manual pairing form, the reading of `adb pair` output, and
    the debugging port found after pairing;
  - `video`: rotation, camera selection, and the scrcpy and relay command
    lines;
  - `loopback`: the v4l2loopback devices and when the module must be
    reloaded;
  - `pipelines`: the running pipelines, one per device;
  - `qr`: the QR code picture (the `qrcode` crate encodes, the library
    scales);
  - `text`: the string operations the rest is built on.
- `app/` is the GTK/libadwaita application around the library: windows,
  the tray icon, the JSON file of saved devices, and the processes it runs.
- `tests/` runs the library on concrete inputs.
