//! The video path: the phone camera is captured by scrcpy into an
//! intermediate loopback device, and a GStreamer relay copies it, rotated
//! and flipped as asked, into the device that browsers read.
use vstd::prelude::*;
use crate::text::{
    all_white_space, lemma_trim_ignores_surrounding_white, lemma_trim_keeps_same_fold,
    ascii_lower_seq, ascii_lowercase, chars_equal, chars_of, concat_str, decimal, has_suffix,
    owned, push_decimal, string_of_all, trim, trimmed_chars, views, with_decimal,
};

verus! {

broadcast use vstd::string::group_string_axioms;

/// Rotation applied to the relayed video stream.
#[derive(Clone, Copy, Debug, PartialEq, Eq, Structural)]
pub enum Rotation {
    Original,
    Rot90,
    Rot180,
    Rot270,
}

/// The rotation that a selector index denotes: 1, 2 and 3 are the quarter
/// turns, every other index is the unrotated stream.
pub open spec fn rotation_of_index(i: u8) -> Rotation {
    if i == 1 {
        Rotation::Rot90
    } else if i == 2 {
        Rotation::Rot180
    } else if i == 3 {
        Rotation::Rot270
    } else {
        Rotation::Original
    }
}

/// The selector index of a rotation.
pub open spec fn index_of_rotation(r: Rotation) -> u8 {
    match r {
        Rotation::Original => 0,
        Rotation::Rot90 => 1,
        Rotation::Rot180 => 2,
        Rotation::Rot270 => 3,
    }
}

/// The `method` property of GStreamer's `videoflip` element for a rotation.
pub open spec fn rotation_method(r: Rotation) -> Seq<char> {
    match r {
        Rotation::Original => "none"@,
        Rotation::Rot90 => "clockwise"@,
        Rotation::Rot180 => "rotate-180"@,
        Rotation::Rot270 => "counterclockwise"@,
    }
}

impl Rotation {
    /// The rotation of a selector index; out-of-range indices give the
    /// unrotated stream.
    pub fn from_index(i: u8) -> (r: Rotation)
        ensures
            r == rotation_of_index(i),
    {
        match i {
            1 => Rotation::Rot90,
            2 => Rotation::Rot180,
            3 => Rotation::Rot270,
            _ => Rotation::Original,
        }
    }

    /// The selector index of this rotation.
    pub fn index(&self) -> (i: u8)
        ensures
            i == index_of_rotation(*self),
    {
        match self {
            Rotation::Original => 0,
            Rotation::Rot90 => 1,
            Rotation::Rot180 => 2,
            Rotation::Rot270 => 3,
        }
    }

    /// The `videoflip` method that performs this rotation.
    pub fn method(&self) -> (m: &'static str)
        ensures
            m@ == rotation_method(*self),
    {
        match self {
            Rotation::Original => "none",
            Rotation::Rot90 => "clockwise",
            Rotation::Rot180 => "rotate-180",
            Rotation::Rot270 => "counterclockwise",
        }
    }
}

/// Reading back the index that a rotation is stored as gives the rotation
/// again.
pub proof fn lemma_rotation_index_roundtrip(r: Rotation)
    ensures
        rotation_of_index(index_of_rotation(r)) == r,
{
}

/// Every index names one of the four rotations, and the indices 0 to 3 are
/// the indices of the rotations they name.
pub proof fn lemma_rotation_index_canonical(i: u8)
    ensures
        i < 4 ==> index_of_rotation(rotation_of_index(i)) == i,
        i >= 4 ==> rotation_of_index(i) == Rotation::Original,
{
}

// ---------------------------------------------------------------------------
// Camera selection
// ---------------------------------------------------------------------------
/// The scrcpy camera id for a stored selection: 1 (front) when the
/// selection, trimmed, is "front" in any letter case, else 0 (back).
///
/// Only ASCII letters are folded: no other character has a lowercase form
/// that contains one of the letters of "front", so this is the comparison
/// of the Unicode lowercase form with "front".
pub open spec fn camera_id_spec(selection: Seq<char>) -> u32 {
    if ascii_lower_seq(trim(selection)) == "front"@ {
        1
    } else {
        0
    }
}

/// The camera id that scrcpy opens for a stored selection.
pub fn camera_id_for_selection(selection: &str) -> (id: u32)
    ensures
        id == camera_id_spec(selection@),
{
    let t = trimmed_chars(selection);
    let l = ascii_lowercase(&t);
    let front = chars_of("front");
    if chars_equal(&l, &front) {
        1
    } else {
        0
    }
}

/// A stored selection opens the back (0) or the front (1) camera, and white
/// space around it does not change which.
pub proof fn lemma_camera_id_ignores_white_space(ws1: Seq<char>, selection: Seq<char>, ws2: Seq<char>)
    requires
        all_white_space(ws1),
        all_white_space(ws2),
    ensures
        camera_id_spec(selection) == 0 || camera_id_spec(selection) == 1,
        camera_id_spec(ws1 + selection + ws2) == camera_id_spec(selection),
{
    lemma_trim_ignores_surrounding_white(ws1, selection, ws2);
}

/// Changing the case of ASCII letters of a stored selection does not change
/// the camera it opens.
pub proof fn lemma_camera_id_ignores_case(selection: Seq<char>, other: Seq<char>)
    requires
        ascii_lower_seq(other) == ascii_lower_seq(selection),
    ensures
        camera_id_spec(other) == camera_id_spec(selection),
{
    lemma_trim_keeps_same_fold(other, selection);
}

/// The entry of the camera selector that shows a stored selection: 1
/// (Front) when the selection is "front" in any letter case, else 0 (Back).
pub open spec fn camera_dropdown_index_spec(selection: Seq<char>) -> u32 {
    if ascii_lower_seq(selection) == "front"@ {
        1
    } else {
        0
    }
}

/// The selector entry that shows a stored camera selection.
pub fn camera_dropdown_index(selection: &str) -> (i: u32)
    ensures
        i == camera_dropdown_index_spec(selection@),
{
    let s = chars_of(selection);
    let l = ascii_lowercase(&s);
    let front = chars_of("front");
    if chars_equal(&l, &front) {
        1
    } else {
        0
    }
}

/// The selection stored for a camera selector entry.
pub open spec fn camera_selection_label_spec(index: u32) -> Seq<char> {
    if index == 1 {
        "front"@
    } else {
        "back"@
    }
}

/// The selection that a camera selector entry stands for.
pub fn camera_selection_label(index: u32) -> (s: String)
    ensures
        s@ == camera_selection_label_spec(index),
{
    if index == 1 {
        owned("front")
    } else {
        owned("back")
    }
}

/// Choosing an entry of the camera selector stores a selection that opens
/// the camera of that entry (1: front, anything else: back), and that the
/// selector shows again as the same kind of entry.
pub proof fn lemma_camera_selection_roundtrip(index: u32)
    ensures
        camera_id_spec(camera_selection_label_spec(index)) == (if index == 1 {
            1u32
        } else {
            0u32
        }),
        camera_dropdown_index_spec(camera_selection_label_spec(index)) == camera_id_spec(
            camera_selection_label_spec(index),
        ),
{
    reveal_strlit("front");
    reveal_strlit("back");
    let f = "front"@;
    let b = "back"@;
    assert(trim(f) == f) by {
        assert(!crate::text::is_white_space(f[0]));
        assert(!crate::text::is_white_space(f.last()));
    }
    assert(trim(b) == b) by {
        assert(!crate::text::is_white_space(b[0]));
        assert(!crate::text::is_white_space(b.last()));
    }
    assert(ascii_lower_seq(f) =~= f);
    assert(ascii_lower_seq(b) =~= b);
    assert(b != f) by {
        assert(b.len() != f.len());
    }
}

// ---------------------------------------------------------------------------
// Command lines
// ---------------------------------------------------------------------------
/// The scrcpy arguments that capture camera `camera_id` at 1280x720 and 30
/// frames per second, H.264 at 6 Mbit/s, into the v4l2 device `sink`,
/// without a window.
pub open spec fn scrcpy_args_spec(sink: Seq<char>, camera_id: u32) -> Seq<Seq<char>> {
    seq![
        "--video-source=camera"@,
        "--camera-id="@ + decimal(camera_id as nat),
        "--camera-size=1280x720"@,
        "--camera-fps=30"@,
        "--video-bit-rate=6M"@,
        "--video-codec=h264"@,
        "--v4l2-sink="@ + sink,
        "--no-playback"@,
        "--no-window"@,
    ]
}

/// The scrcpy command line that writes the camera stream into `sink_device`.
pub fn scrcpy_command_args(sink_device: &str, camera_id: u32) -> (args: Vec<String>)
    ensures
        views(args@) == scrcpy_args_spec(sink_device@, camera_id),
{
    proof {
        lemma_default_camera_size(sink_device@, camera_id);
    }
    scrcpy_command_args_sized(sink_device, camera_id, 1280, 720)
}

/// `"<width>x<height>"`, the camera size as scrcpy takes it.
pub open spec fn camera_size_text(width: u32, height: u32) -> Seq<char> {
    decimal(width as nat) + "x"@ + decimal(height as nat)
}

/// The scrcpy arguments of `scrcpy_args_spec`, with the camera captured at
/// `width` by `height` in place of 1280x720.
pub open spec fn scrcpy_sized_args_spec(
    sink: Seq<char>,
    camera_id: u32,
    width: u32,
    height: u32,
) -> Seq<Seq<char>> {
    scrcpy_args_spec(sink, camera_id).update(2, "--camera-size="@ + camera_size_text(width, height))
}

/// The scrcpy command line for a chosen camera size.
pub fn scrcpy_command_args_sized(
    sink_device: &str,
    camera_id: u32,
    width: u32,
    height: u32,
) -> (args: Vec<String>)
    ensures
        views(args@) == scrcpy_sized_args_spec(sink_device@, camera_id, width, height),
{
    let mut size: Vec<char> = chars_of("--camera-size=");
    push_decimal(&mut size, width as u64);
    size.push('x');
    push_decimal(&mut size, height as u64);
    proof {
        reveal_strlit("x");
    }
    assert(size@ =~= "--camera-size="@ + camera_size_text(width, height));
    let mut args: Vec<String> = Vec::new();
    args.push(owned("--video-source=camera"));
    args.push(with_decimal("--camera-id=", camera_id as u64));
    args.push(string_of_all(&size));
    args.push(owned("--camera-fps=30"));
    args.push(owned("--video-bit-rate=6M"));
    args.push(owned("--video-codec=h264"));
    args.push(concat_str("--v4l2-sink=", sink_device));
    args.push(owned("--no-playback"));
    args.push(owned("--no-window"));
    assert(views(args@) =~= scrcpy_sized_args_spec(sink_device@, camera_id, width, height));
    args
}

/// The default command line is the sized one at 1280x720.
pub proof fn lemma_default_camera_size(sink: Seq<char>, camera_id: u32)
    ensures
        scrcpy_args_spec(sink, camera_id) == scrcpy_sized_args_spec(sink, camera_id, 1280, 720),
{
    reveal_strlit("--camera-size=1280x720");
    reveal_strlit("--camera-size=");
    reveal_strlit("x");
    reveal_with_fuel(decimal, 5);
    assert(decimal(1280) =~= seq!['1', '2', '8', '0']);
    assert(decimal(720) =~= seq!['7', '2', '0']);
    assert("--camera-size="@ + camera_size_text(1280, 720) =~= "--camera-size=1280x720"@);
    assert(scrcpy_args_spec(sink, camera_id) =~= scrcpy_sized_args_spec(sink, camera_id, 1280, 720));
}

/// Different camera sizes give different scrcpy command lines: the size
/// asked for is the size passed on.
pub proof fn lemma_camera_size_is_passed_on(
    sink: Seq<char>,
    camera_id: u32,
    w1: u32,
    h1: u32,
    w2: u32,
    h2: u32,
)
    requires
        scrcpy_sized_args_spec(sink, camera_id, w1, h1) == scrcpy_sized_args_spec(
            sink,
            camera_id,
            w2,
            h2,
        ),
    ensures
        w1 == w2,
        h1 == h2,
{
    reveal_strlit("x");
    let p = "--camera-size="@;
    let t1 = camera_size_text(w1, h1);
    let t2 = camera_size_text(w2, h2);
    assert(scrcpy_sized_args_spec(sink, camera_id, w1, h1)[2] == p + t1);
    assert(scrcpy_sized_args_spec(sink, camera_id, w2, h2)[2] == p + t2);
    assert(t1 =~= (p + t1).skip(p.len() as int));
    assert(t2 =~= (p + t2).skip(p.len() as int));
    let a1 = decimal(w1 as nat);
    let a2 = decimal(w2 as nat);
    let b1 = decimal(h1 as nat);
    let b2 = decimal(h2 as nat);
    crate::text::lemma_decimal_value(w1 as nat);
    crate::text::lemma_decimal_value(w2 as nat);
    if a1.len() < a2.len() {
        assert(t1[a1.len() as int] == 'x');
        assert(t2[a1.len() as int] == a2[a1.len() as int]);
        assert(crate::text::is_ascii_digit(a2[a1.len() as int]));
    } else if a2.len() < a1.len() {
        assert(t2[a2.len() as int] == 'x');
        assert(t1[a2.len() as int] == a1[a2.len() as int]);
        assert(crate::text::is_ascii_digit(a1[a2.len() as int]));
    }
    assert(a1.len() == a2.len());
    assert(a1 =~= t1.take(a1.len() as int));
    assert(a2 =~= t2.take(a2.len() as int));
    crate::text::lemma_decimal_injective(w1 as nat, w2 as nat);
    assert(b1 =~= t1.skip(a1.len() + 1int));
    assert(b2 =~= t2.skip(a2.len() + 1int));
    crate::text::lemma_decimal_injective(h1 as nat, h2 as nat);
}

/// The GStreamer elements that perform one `videoflip` method.
pub open spec fn flip_stage(method: Seq<char>) -> Seq<Seq<char>> {
    seq!["videoflip"@, "method="@ + method, "!"@]
}

/// The `gst-launch-1.0` arguments of the relay from `input` to `output`:
/// read, convert, then rotate, then flip horizontally, then flip
/// vertically, each only when asked, and write without clock sync.
pub open spec fn relay_args_spec(
    input: Seq<char>,
    output: Seq<char>,
    rotation: Rotation,
    h_flip: bool,
    v_flip: bool,
) -> Seq<Seq<char>> {
    seq!["-e"@, "v4l2src"@, "device="@ + input, "!"@, "videoconvert"@, "!"@] + (if rotation
        != Rotation::Original {
        flip_stage(rotation_method(rotation))
    } else {
        seq![]
    }) + (if h_flip {
        flip_stage("horizontal-flip"@)
    } else {
        seq![]
    }) + (if v_flip {
        flip_stage("vertical-flip"@)
    } else {
        seq![]
    }) + seq!["v4l2sink"@, "device="@ + output, "sync=false"@]
}

fn push_flip_stage(args: &mut Vec<String>, method: &str)
    ensures
        views(final(args)@) == views(old(args)@) + flip_stage(method@),
{
    args.push(owned("videoflip"));
    args.push(concat_str("method=", method));
    args.push(owned("!"));
    assert(views(final(args)@) =~= views(old(args)@) + flip_stage(method@));
}

/// The relay command line from `input_device` to `output_device` with the
/// given transforms.
pub fn build_relay_args(
    input_device: &str,
    output_device: &str,
    rotation: Rotation,
    h_flip: bool,
    v_flip: bool,
) -> (args: Vec<String>)
    ensures
        views(args@) == relay_args_spec(input_device@, output_device@, rotation, h_flip, v_flip),
{
    let mut args: Vec<String> = Vec::new();
    args.push(owned("-e"));
    args.push(owned("v4l2src"));
    args.push(concat_str("device=", input_device));
    args.push(owned("!"));
    args.push(owned("videoconvert"));
    args.push(owned("!"));
    let ghost head = views(args@);
    assert(head =~= seq!["-e"@, "v4l2src"@, "device="@ + input_device@, "!"@, "videoconvert"@, "!"@]);
    if rotation != Rotation::Original {
        push_flip_stage(&mut args, rotation.method());
    }
    let ghost after_rotation = views(args@);
    if h_flip {
        push_flip_stage(&mut args, "horizontal-flip");
    }
    let ghost after_h = views(args@);
    if v_flip {
        push_flip_stage(&mut args, "vertical-flip");
    }
    let ghost after_v = views(args@);
    args.push(owned("v4l2sink"));
    args.push(concat_str("device=", output_device));
    args.push(owned("sync=false"));
    assert(views(args@) =~= after_v + seq!["v4l2sink"@, "device="@ + output_device@, "sync=false"@]);
    assert(after_rotation =~= head + (if rotation != Rotation::Original {
        flip_stage(rotation_method(rotation))
    } else {
        seq![]
    }));
    assert(after_h =~= after_rotation + (if h_flip {
        flip_stage("horizontal-flip"@)
    } else {
        seq![]
    }));
    assert(after_v =~= after_h + (if v_flip {
        flip_stage("vertical-flip"@)
    } else {
        seq![]
    }));
    args
}

/// The `videoflip` methods that a relay applies, in order: the rotation
/// (unless none), then the horizontal flip, then the vertical flip, each
/// only when asked for.
pub open spec fn transform_methods(rotation: Rotation, h_flip: bool, v_flip: bool) -> Seq<
    Seq<char>,
> {
    (if rotation != Rotation::Original {
        seq![rotation_method(rotation)]
    } else {
        seq![]
    }) + (if h_flip {
        seq!["horizontal-flip"@]
    } else {
        seq![]
    }) + (if v_flip {
        seq!["vertical-flip"@]
    } else {
        seq![]
    })
}

/// One `videoflip` stage per method, in order.
pub open spec fn flip_stages(methods: Seq<Seq<char>>) -> Seq<Seq<char>>
    decreases methods.len(),
{
    if methods.len() == 0 {
        seq![]
    } else {
        flip_stages(methods.drop_last()) + flip_stage(methods.last())
    }
}

/// Element `p` of `flip_stages(methods)`: `videoflip`, its method, `!`.
pub open spec fn stage_element(methods: Seq<Seq<char>>, p: int) -> Seq<char> {
    if p % 3 == 0 {
        "videoflip"@
    } else if p % 3 == 1 {
        "method="@ + methods[p / 3]
    } else {
        "!"@
    }
}

proof fn lemma_flip_stages_shape(methods: Seq<Seq<char>>)
    ensures
        flip_stages(methods).len() == 3 * methods.len(),
        forall|p: int|
            0 <= p < 3 * methods.len() ==> #[trigger] flip_stages(methods)[p] == stage_element(
                methods,
                p,
            ),
    decreases methods.len(),
{
    if methods.len() > 0 {
        let m = methods.drop_last();
        lemma_flip_stages_shape(m);
        let st = flip_stages(methods);
        let last = flip_stage(methods.last());
        assert(st == flip_stages(m) + last);
        assert forall|p: int| 0 <= p < 3 * methods.len() implies #[trigger] st[p] == stage_element(
            methods,
            p,
        ) by {
            if p < 3 * m.len() {
                assert(st[p] == flip_stages(m)[p]);
                assert(methods[p / 3] == m[p / 3]);
            } else {
                assert(st[p] == last[p - 3 * m.len()]);
                assert(p / 3 == m.len());
            }
        }
    }
}

/// The relay reads and converts first, then applies one `videoflip` stage
/// per transform asked for, in the order rotation, horizontal flip,
/// vertical flip, each with its method right behind it, and writes last;
/// `videoflip` occurs nowhere else.
pub proof fn lemma_relay_args_order(
    input: Seq<char>,
    output: Seq<char>,
    rotation: Rotation,
    h_flip: bool,
    v_flip: bool,
)
    ensures
        ({
            let args = relay_args_spec(input, output, rotation, h_flip, v_flip);
            let m = transform_methods(rotation, h_flip, v_flip);
            &&& args.len() == 9 + 3 * m.len()
            &&& args[1] == "v4l2src"@
            &&& args[4] == "videoconvert"@
            &&& args[6 + 3 * m.len() as int] == "v4l2sink"@
            &&& forall|i: int|
                6 <= i < 6 + 3 * m.len() ==> #[trigger] args[i] == stage_element(m, i - 6)
            &&& forall|i: int|
                0 <= i < args.len() && #[trigger] args[i] == "videoflip"@ ==> 6 <= i < 6 + 3
                    * m.len() && (i - 6) % 3 == 0
        }),
{
    let args = relay_args_spec(input, output, rotation, h_flip, v_flip);
    let m = transform_methods(rotation, h_flip, v_flip);
    let head = seq!["-e"@, "v4l2src"@, "device="@ + input, "!"@, "videoconvert"@, "!"@];
    let tail = seq!["v4l2sink"@, "device="@ + output, "sync=false"@];
    reveal_with_fuel(flip_stages, 4);
    assert(args =~= head + flip_stages(m) + tail);
    lemma_flip_stages_shape(m);
    let st = flip_stages(m);
    assert forall|i: int| 6 <= i < 6 + 3 * m.len() implies #[trigger] args[i] == stage_element(
        m,
        i - 6,
    ) by {
        assert(args[i] == st[i - 6]);
    }
    reveal_strlit("videoflip");
    reveal_strlit("-e");
    reveal_strlit("v4l2src");
    reveal_strlit("device=");
    reveal_strlit("!");
    reveal_strlit("videoconvert");
    reveal_strlit("method=");
    reveal_strlit("v4l2sink");
    reveal_strlit("sync=false");
    assert forall|i: int|
        0 <= i < args.len() && #[trigger] args[i] == "videoflip"@ implies 6 <= i < 6 + 3 * m.len()
        && (i - 6) % 3 == 0 by {
        assert("videoflip"@.len() == 9);
        if i < 6 {
            assert(args[i] == head[i]);
            if i == 2 {
                lemma_prefixed_is_not("device="@, input, "videoflip"@);
            } else {
                assert(head[i].len() != 9);
            }
            assert(false);
        } else if i >= 6 + 3 * m.len() {
            assert(args[i] == tail[i - 6 - 3 * m.len()]);
            if i == 7 + 3 * m.len() {
                lemma_prefixed_is_not("device="@, output, "videoflip"@);
            } else {
                assert(tail[i - 6 - 3 * m.len()].len() != 9);
            }
            assert(false);
        } else {
            assert(args[i] == st[i - 6]);
            if (i - 6) % 3 == 1 {
                lemma_prefixed_is_not("method="@, m[(i - 6) / 3], "videoflip"@);
                assert(false);
            } else if (i - 6) % 3 == 2 {
                assert(st[i - 6].len() == 1);
                assert(false);
            }
        }
    }
}

/// The number of `videoflip` elements in a sequence of arguments.
pub open spec fn count_videoflip(args: Seq<Seq<char>>) -> nat
    decreases args.len(),
{
    if args.len() == 0 {
        0
    } else {
        count_videoflip(args.drop_last()) + (if args.last() == "videoflip"@ {
            1nat
        } else {
            0nat
        })
    }
}

proof fn lemma_count_videoflip_concat(a: Seq<Seq<char>>, b: Seq<Seq<char>>)
    ensures
        count_videoflip(a + b) == count_videoflip(a) + count_videoflip(b),
    decreases b.len(),
{
    if b.len() == 0 {
        assert(a + b == a);
    } else {
        lemma_count_videoflip_concat(a, b.drop_last());
        assert((a + b).drop_last() == a + b.drop_last());
    }
}

proof fn lemma_prefixed_is_not(prefix: Seq<char>, rest: Seq<char>, word: Seq<char>)
    requires
        prefix.len() > 0,
        word.len() > 0,
        prefix[0] != word[0],
    ensures
        prefix + rest != word,
{
    assert((prefix + rest)[0] == prefix[0]);
}

/// The relay holds one `videoflip` element per transform asked for: one for
/// a rotation, one for each flip.
pub proof fn lemma_relay_videoflip_count(
    input: Seq<char>,
    output: Seq<char>,
    rotation: Rotation,
    h_flip: bool,
    v_flip: bool,
)
    ensures
        count_videoflip(relay_args_spec(input, output, rotation, h_flip, v_flip)) == (if rotation
            != Rotation::Original {
            1nat
        } else {
            0nat
        }) + (if h_flip {
            1nat
        } else {
            0nat
        }) + (if v_flip {
            1nat
        } else {
            0nat
        }),
{
    reveal_strlit("videoflip");
    reveal_strlit("-e");
    reveal_strlit("v4l2src");
    reveal_strlit("device=");
    reveal_strlit("!");
    reveal_strlit("videoconvert");
    reveal_strlit("method=");
    reveal_strlit("v4l2sink");
    reveal_strlit("sync=false");
    let vf = "videoflip"@;
    lemma_prefixed_is_not("device="@, input, vf);
    lemma_prefixed_is_not("device="@, output, vf);
    let head = seq!["-e"@, "v4l2src"@, "device="@ + input, "!"@, "videoconvert"@, "!"@];
    let tail = seq!["v4l2sink"@, "device="@ + output, "sync=false"@];
    assert(count_videoflip(head) == 0) by {
        reveal_with_fuel(count_videoflip, 7);
        assert("-e"@.len() != vf.len());
        assert("v4l2src"@.len() != vf.len());
        assert("!"@.len() != vf.len());
        assert("videoconvert"@.len() != vf.len());
    }
    assert(count_videoflip(tail) == 0) by {
        reveal_with_fuel(count_videoflip, 4);
        assert("v4l2sink"@.len() != vf.len());
        assert("sync=false"@.len() != vf.len());
    }
    assert forall|m: Seq<char>| #[trigger] count_videoflip(flip_stage(m)) == 1 by {
        reveal_with_fuel(count_videoflip, 4);
        lemma_prefixed_is_not("method="@, m, vf);
        assert("!"@.len() != vf.len());
        assert(flip_stage(m).drop_last().drop_last().drop_last() =~= seq![]);
    }
    assert(count_videoflip(seq![]) == 0);
    let r = if rotation != Rotation::Original {
        flip_stage(rotation_method(rotation))
    } else {
        seq![]
    };
    let h = if h_flip {
        flip_stage("horizontal-flip"@)
    } else {
        seq![]
    };
    let v = if v_flip {
        flip_stage("vertical-flip"@)
    } else {
        seq![]
    };
    lemma_count_videoflip_concat(head, r);
    lemma_count_videoflip_concat(head + r, h);
    lemma_count_videoflip_concat(head + r + h, v);
    lemma_count_videoflip_concat(head + r + h + v, tail);
}

/// No argument of the relay ends in a space when the device names do not.
pub proof fn lemma_relay_args_no_trailing_space(
    input: Seq<char>,
    output: Seq<char>,
    rotation: Rotation,
    h_flip: bool,
    v_flip: bool,
)
    requires
        !has_suffix(input, " "@),
        !has_suffix(output, " "@),
    ensures
        forall|i: int|
            0 <= i < relay_args_spec(input, output, rotation, h_flip, v_flip).len() ==> !has_suffix(
                #[trigger] relay_args_spec(input, output, rotation, h_flip, v_flip)[i],
                " "@,
            ),
{
    reveal_strlit(" ");
    reveal_strlit("-e");
    reveal_strlit("v4l2src");
    reveal_strlit("device=");
    reveal_strlit("!");
    reveal_strlit("videoconvert");
    reveal_strlit("videoflip");
    reveal_strlit("method=");
    reveal_strlit("none");
    reveal_strlit("clockwise");
    reveal_strlit("rotate-180");
    reveal_strlit("counterclockwise");
    reveal_strlit("horizontal-flip");
    reveal_strlit("vertical-flip");
    reveal_strlit("v4l2sink");
    reveal_strlit("sync=false");
    let args = relay_args_spec(input, output, rotation, h_flip, v_flip);
    assert forall|i: int| 0 <= i < args.len() implies !has_suffix(#[trigger] args[i], " "@) by {
        let a = args[i];
        lemma_last_not_space("none"@);
        lemma_last_not_space("clockwise"@);
        lemma_last_not_space("rotate-180"@);
        lemma_last_not_space("counterclockwise"@);
        lemma_last_not_space("horizontal-flip"@);
        lemma_last_not_space("vertical-flip"@);
        lemma_last_not_space("device="@);
        lemma_no_space_suffix_of_concat("device="@, input);
        lemma_last_not_space("device="@);
        lemma_no_space_suffix_of_concat("device="@, output);
        lemma_last_not_space("method="@);
        lemma_no_space_suffix_of_concat("method="@, rotation_method(rotation));
        lemma_last_not_space("method="@);
        lemma_no_space_suffix_of_concat("method="@, "horizontal-flip"@);
        lemma_last_not_space("method="@);
        lemma_no_space_suffix_of_concat("method="@, "vertical-flip"@);
        lemma_last_not_space("-e"@);
        lemma_last_not_space("v4l2src"@);
        lemma_last_not_space("!"@);
        lemma_last_not_space("videoconvert"@);
        lemma_last_not_space("videoflip"@);
        lemma_last_not_space("v4l2sink"@);
        lemma_last_not_space("sync=false"@);
    }
}

proof fn lemma_last_not_space(s: Seq<char>)
    requires
        s.len() > 0,
        s.last() != ' ',
    ensures
        !has_suffix(s, " "@),
{
    reveal_strlit(" ");
    if has_suffix(s, " "@) {
        assert(s.skip(s.len() - 1)[0] == s.last());
    }
}

proof fn lemma_no_space_suffix_of_concat(a: Seq<char>, b: Seq<char>)
    requires
        a.len() > 0,
        !has_suffix(a, " "@),
        !has_suffix(b, " "@),
    ensures
        !has_suffix(a + b, " "@),
{
    reveal_strlit(" ");
    let s = a + b;
    if has_suffix(s, " "@) {
        if b.len() > 0 {
            assert(s.skip(s.len() - 1) == b.skip(b.len() - 1));
        } else {
            assert(s == a);
        }
    }
}

/// No scrcpy argument ends in a space when the sink device name does not.
pub proof fn lemma_scrcpy_args_no_trailing_space(sink: Seq<char>, camera_id: u32)
    requires
        !has_suffix(sink, " "@),
    ensures
        forall|i: int|
            0 <= i < scrcpy_args_spec(sink, camera_id).len() ==> !has_suffix(
                #[trigger] scrcpy_args_spec(sink, camera_id)[i],
                " "@,
            ),
{
    reveal_strlit(" ");
    reveal_strlit("--video-source=camera");
    reveal_strlit("--camera-id=");
    reveal_strlit("--camera-size=1280x720");
    reveal_strlit("--camera-fps=30");
    reveal_strlit("--video-bit-rate=6M");
    reveal_strlit("--video-codec=h264");
    reveal_strlit("--v4l2-sink=");
    reveal_strlit("--no-playback");
    reveal_strlit("--no-window");
    lemma_decimal_no_space(camera_id as nat);
    let args = scrcpy_args_spec(sink, camera_id);
    assert forall|i: int| 0 <= i < args.len() implies !has_suffix(#[trigger] args[i], " "@) by {
        lemma_last_not_space("--camera-id="@);
        lemma_no_space_suffix_of_concat("--camera-id="@, decimal(camera_id as nat));
        lemma_last_not_space("--v4l2-sink="@);
        lemma_no_space_suffix_of_concat("--v4l2-sink="@, sink);
        lemma_last_not_space("--video-source=camera"@);
        lemma_last_not_space("--camera-size=1280x720"@);
        lemma_last_not_space("--camera-fps=30"@);
        lemma_last_not_space("--video-bit-rate=6M"@);
        lemma_last_not_space("--video-codec=h264"@);
        lemma_last_not_space("--no-playback"@);
        lemma_last_not_space("--no-window"@);
    }
}

proof fn lemma_decimal_no_space(n: nat)
    ensures
        !has_suffix(decimal(n), " "@),
    decreases n,
{
    reveal_strlit(" ");
    let d = decimal(n);
    if n >= 10 {
        lemma_decimal_no_space(n / 10);
    }
    assert(d.len() > 0);
    assert(d.last() == crate::text::digit_char(n % 10));
    if has_suffix(d, " "@) {
        assert(d.skip(d.len() - 1)[0] == d.last());
    }
}

// ---------------------------------------------------------------------------
// Pipeline settings
// ---------------------------------------------------------------------------
/// What a running pipeline is configured to do.
pub struct PipelineView {
    pub sink: Seq<char>,
    pub output: Seq<char>,
    pub camera_id: u32,
    pub width: u32,
    pub height: u32,
    pub rotation: Rotation,
    pub h_flip: bool,
    pub v_flip: bool,
}

/// The settings of one camera stream: scrcpy writes camera `camera_id`
/// into `sink_device`, and a relay copies it, transformed, into
/// `output_device`.
pub struct VideoPipeline {
    sink_device: String,
    output_device: String,
    camera_id: u32,
    width: u32,
    height: u32,
    rotation_idx: u8,
    h_flip: bool,
    v_flip: bool,
}

impl View for VideoPipeline {
    type V = PipelineView;

    closed spec fn view(&self) -> PipelineView {
        PipelineView {
            sink: self.sink_device@,
            output: self.output_device@,
            camera_id: self.camera_id,
            width: self.width,
            height: self.height,
            rotation: rotation_of_index(self.rotation_idx),
            h_flip: self.h_flip,
            v_flip: self.v_flip,
        }
    }
}

/// Whether a pipeline runs a relay: only when it has an output device that
/// is not its sink.
pub open spec fn relay_enabled_spec(p: PipelineView) -> bool {
    p.output.len() > 0 && p.output != p.sink
}

impl VideoPipeline {
    /// A pipeline from `input_device` (written by scrcpy) to
    /// `output_device`; an empty output means a single device.  Starts
    /// unrotated and unflipped.
    pub fn new(input_device: &str, output_device: &str, camera_id: u32) -> (r: Result<
        VideoPipeline,
        String,
    >)
        ensures
            r is Ok,
            r matches Ok(p) ==> {
                &&& p@.sink == input_device@
                &&& p@.output == (if output_device@.len() == 0 {
                    input_device@
                } else {
                    output_device@
                })
                &&& p@.camera_id == camera_id
                &&& p@.width == 1280
                &&& p@.height == 720
                &&& p@.rotation == Rotation::Original
                &&& !p@.h_flip
                &&& !p@.v_flip
            },
    {
        let output = if output_device.is_empty() {
            owned(input_device)
        } else {
            owned(output_device)
        };
        Ok(VideoPipeline {
            sink_device: owned(input_device),
            output_device: output,
            camera_id,
            width: 1280,
            height: 720,
            rotation_idx: 0,
            h_flip: false,
            v_flip: false,
        })
    }

    /// The device that scrcpy writes.
    pub fn sink_device(&self) -> (s: &str)
        ensures
            s@ == self@.sink,
    {
        self.sink_device.as_str()
    }

    /// The device that the relay writes.
    pub fn output_device(&self) -> (s: &str)
        ensures
            s@ == self@.output,
    {
        self.output_device.as_str()
    }

    pub fn camera_id(&self) -> (c: u32)
        ensures
            c == self@.camera_id,
    {
        self.camera_id
    }

    pub fn rotation(&self) -> (r: Rotation)
        ensures
            r == self@.rotation,
    {
        Rotation::from_index(self.rotation_idx)
    }

    pub fn horizontal_flip(&self) -> (b: bool)
        ensures
            b == self@.h_flip,
    {
        self.h_flip
    }

    pub fn vertical_flip(&self) -> (b: bool)
        ensures
            b == self@.v_flip,
    {
        self.v_flip
    }

    /// Whether this pipeline runs a relay at all.
    pub fn relay_enabled(&self) -> (b: bool)
        ensures
            b == relay_enabled_spec(self@),
    {
        let out = chars_of(self.output_device.as_str());
        let sink = chars_of(self.sink_device.as_str());
        !out.is_empty() && !chars_equal(&out, &sink)
    }

    /// The relay command line for the current transforms.
    pub fn relay_args(&self) -> (args: Vec<String>)
        ensures
            views(args@) == relay_args_spec(
                self@.sink,
                self@.output,
                self@.rotation,
                self@.h_flip,
                self@.v_flip,
            ),
    {
        build_relay_args(
            self.sink_device.as_str(),
            self.output_device.as_str(),
            Rotation::from_index(self.rotation_idx),
            self.h_flip,
            self.v_flip,
        )
    }

    /// The scrcpy command line for the current camera.
    pub fn scrcpy_args(&self) -> (args: Vec<String>)
        ensures
            views(args@) == scrcpy_sized_args_spec(
                self@.sink,
                self@.camera_id,
                self@.width,
                self@.height,
            ),
    {
        scrcpy_command_args_sized(self.sink_device.as_str(), self.camera_id, self.width, self.height)
    }

    /// Sets the rotation that the next relay applies.
    pub fn set_rotation(&mut self, rotation: Rotation)
        ensures
            final(self)@ == (PipelineView { rotation, ..old(self)@ }),
    {
        self.rotation_idx = rotation.index();
    }

    /// Sets whether the next relay mirrors the picture left to right.
    pub fn set_horizontal_flip(&mut self, on: bool)
        ensures
            final(self)@ == (PipelineView { h_flip: on, ..old(self)@ }),
    {
        self.h_flip = on;
    }

    /// Sets whether the next relay mirrors the picture top to bottom.
    pub fn set_vertical_flip(&mut self, on: bool)
        ensures
            final(self)@ == (PipelineView { v_flip: on, ..old(self)@ }),
    {
        self.v_flip = on;
    }

    /// Sets the size that the next scrcpy run captures the camera at.
    pub fn set_camera_size(&mut self, width: u32, height: u32)
        ensures
            final(self)@ == (PipelineView { width, height, ..old(self)@ }),
    {
        self.width = width;
        self.height = height;
    }

    /// The size that scrcpy captures the camera at.
    pub fn camera_size(&self) -> (r: (u32, u32))
        ensures
            r == (self@.width, self@.height),
    {
        (self.width, self.height)
    }

    /// Sets the camera that the next scrcpy run opens.
    pub fn switch_camera(&mut self, new_camera_id: u32)
        ensures
            final(self)@ == (PipelineView { camera_id: new_camera_id, ..old(self)@ }),
    {
        self.camera_id = new_camera_id;
    }
}

/// The two processes of a pipeline answer to different settings: switching
/// the camera (or its capture size) leaves the relay's command line, and
/// whether there is a relay, as it was, so the relay keeps the output fed
/// through a switch; changing the transforms leaves scrcpy's command line
/// as it was.
pub proof fn lemma_camera_and_transforms_independent(
    p: PipelineView,
    camera_id: u32,
    width: u32,
    height: u32,
    rotation: Rotation,
    h_flip: bool,
    v_flip: bool,
)
    ensures
        ({
            let q = PipelineView { camera_id, width, height, ..p };
            &&& relay_args_spec(q.sink, q.output, q.rotation, q.h_flip, q.v_flip) == relay_args_spec(
                p.sink,
                p.output,
                p.rotation,
                p.h_flip,
                p.v_flip,
            )
            &&& relay_enabled_spec(q) == relay_enabled_spec(p)
        }),
        ({
            let q = PipelineView { rotation, h_flip, v_flip, ..p };
            scrcpy_sized_args_spec(q.sink, q.camera_id, q.width, q.height)
                == scrcpy_sized_args_spec(p.sink, p.camera_id, p.width, p.height)
        }),
{
}

/// What happened to one attempt to start the relay.
#[derive(Clone, Copy, Debug, PartialEq, Eq)]
pub enum RelayProbe {
    /// The process could not be spawned.
    SpawnFailed,
    /// The process had already exited when it was checked.
    Exited,
    /// The process was still running when it was checked.
    Running,
    /// Whether the process was still running could not be learnt.
    CheckFailed,
}

/// What to do after an attempt to start the relay.
#[derive(Clone, Copy, Debug, PartialEq, Eq)]
pub enum RelayDecision {
    /// Keep the spawned process as the relay.
    Keep,
    /// Wait, then make attempt number `next`.
    Retry { next: u32 },
    /// Stop trying: every attempt failed.
    GiveUp,
}

/// The number of attempts made to start a relay.
pub const RELAY_ATTEMPTS: u32 = 3;

/// The decision after attempt `attempt` (counted from 1) ended as `probe`:
/// a process that runs, or whose state is unknown, is kept; a failed
/// attempt is retried until the third.
pub open spec fn relay_decision_spec(attempt: u32, probe: RelayProbe) -> RelayDecision {
    match probe {
        RelayProbe::Running | RelayProbe::CheckFailed => RelayDecision::Keep,
        _ => if attempt < RELAY_ATTEMPTS {
            RelayDecision::Retry { next: (attempt + 1) as u32 }
        } else {
            RelayDecision::GiveUp
        },
    }
}

/// Decides what follows one attempt to start the relay.
pub fn relay_attempt_decision(attempt: u32, probe: RelayProbe) -> (d: RelayDecision)
    requires
        1 <= attempt <= RELAY_ATTEMPTS,
    ensures
        d == relay_decision_spec(attempt, probe),
{
    match probe {
        RelayProbe::Running | RelayProbe::CheckFailed => RelayDecision::Keep,
        _ => if attempt < RELAY_ATTEMPTS {
            RelayDecision::Retry { next: attempt + 1 }
        } else {
            RelayDecision::GiveUp
        },
    }
}

/// How a freshly spawned scrcpy looked when it was checked.
pub enum ScrcpyProbe {
    /// It could not be spawned; the text says why.
    SpawnFailed(String),
    /// It had already exited, with this status.
    Exited(String),
    /// It was running.
    Running,
    /// Whether it was running could not be learnt.
    CheckFailed,
}

/// The result of starting scrcpy: a process that runs, or whose state is
/// unknown, is kept; otherwise the error says what went wrong.
pub fn scrcpy_start_result(probe: &ScrcpyProbe) -> (r: Result<(), String>)
    ensures
        match *probe {
            ScrcpyProbe::SpawnFailed(e) => (r matches Err(m) && m@ == "failed to start scrcpy: "@ + e@),
            ScrcpyProbe::Exited(st) => (r matches Err(m) && m@
                == "scrcpy exited immediately with status "@ + st@),
            _ => r is Ok,
        },
{
    match probe {
        ScrcpyProbe::SpawnFailed(e) => Err(concat_str("failed to start scrcpy: ", e.as_str())),
        ScrcpyProbe::Exited(st) => Err(
            concat_str("scrcpy exited immediately with status ", st.as_str()),
        ),
        _ => Ok(()),
    }
}

/// The error of a relay that could not be spawned.
pub fn relay_spawn_error(reason: &str) -> (m: String)
    ensures
        m@ == "failed to start GStreamer relay: "@ + reason@,
{
    concat_str("failed to start GStreamer relay: ", reason)
}

/// Whether the relay must be started again before a camera switch: when
/// there is none, or when it has exited.
pub fn relay_needs_restart(present: bool, exited: bool) -> (b: bool)
    ensures
        b == (!present || exited),
{
    !present || exited
}

} // verus!
