//! The pairing QR code as an image: the `qrcode` crate encodes the payload,
//! and the modules are scaled into an RGBA picture of at most 200 pixels a
//! side.
use vstd::prelude::*;
use vstd::arithmetic::div_mod::lemma_fundamental_div_mod_converse;
use vstd::string::StringSliceAdditionalSpecFns;

verus! {

/// What `qrcode::QrCode::new` makes of `data`: the number of modules per
/// side and, row by row, whether each module is dark; `None` when the data
/// cannot be encoded.
pub uninterp spec fn qr_code_modules(data: Seq<u8>) -> Option<(usize, Seq<bool>)>;

/// `qrcode::QrCode::new(data)` (medium error correction, smallest version),
/// read out as `(width(), to_colors())` with dark modules as `true`.  The
/// crate only builds normal QR codes, of versions 1 to 40, so the width is
/// between 21 and 177, and `to_colors` holds `width * width` modules, row
/// by row.
#[verifier::external_body]
fn encode_qr(data: &[u8]) -> (r: Option<(usize, Vec<bool>)>)
    ensures
        match r {
            Some((w, cells)) => qr_code_modules(data@) == Some((w, cells@)) && 21 <= w <= 177
                && cells@.len() == w * w,
            None => qr_code_modules(data@) is None,
        },
{
    match qrcode::QrCode::new(data) {
        Ok(code) => Some(
            (
                code.width(),
                code.to_colors().into_iter().map(
                    |c| match c {
                        qrcode::Color::Dark => true,
                        qrcode::Color::Light => false,
                    },
                ).collect(),
            ),
        ),
        Err(_) => None,
    }
}

/// The side, in pixels, that the QR picture is scaled to at most.
pub const QR_DISPLAY_SIZE: usize = 200;

/// The pixels per module of a code with `width` modules per side.
pub open spec fn module_px(width: nat) -> nat {
    QR_DISPLAY_SIZE as nat / width
}

/// The side of the picture, in pixels.
pub open spec fn picture_size(width: nat) -> nat {
    module_px(width) * width
}

/// Byte `i` of the RGBA picture of a code: pixel `i / 4` lies in row
/// `p / size` and column `p % size`, which show module
/// `(row / m, column / m)`; dark modules are black, light ones white, and
/// every pixel is opaque.
pub open spec fn qr_byte(width: nat, dark: Seq<bool>, i: int) -> u8 {
    let m = module_px(width) as int;
    let size = picture_size(width) as int;
    let p = i / 4;
    let k = i % 4;
    let row = p / size;
    let col = p % size;
    if k < 3 && dark[(row / m) * width + col / m] {
        0
    } else {
        255
    }
}

/// An RGBA picture: `size` by `size` pixels, four bytes each, row by row.
pub struct QrImage {
    pub pixels: Vec<u8>,
    pub size: usize,
    pub stride: usize,
}

proof fn lemma_pixel_place(row: int, col: int, size: int, k: int, m: int, width: int)
    requires
        0 <= row < size,
        0 <= col < size,
        0 <= k < 4,
        m > 0,
        size == m * width,
    ensures
        ((row * size + col) * 4 + k) / 4 == row * size + col,
        ((row * size + col) * 4 + k) % 4 == k,
        (row * size + col) / size == row,
        (row * size + col) % size == col,
        0 <= (row / m) * width + col / m < width * width,
{
    lemma_fundamental_div_mod_converse((row * size + col) * 4 + k, 4, row * size + col, k);
    lemma_fundamental_div_mod_converse(row * size + col, size, row, col);
    assert(width > 0) by (nonlinear_arith)
        requires
            m > 0,
            size == m * width,
            size > 0,
    ;
    let r = row / m;
    let c = col / m;
    assert(0 <= r < width && 0 <= c < width) by (nonlinear_arith)
        requires
            m > 0,
            0 <= row < m * width,
            0 <= col < m * width,
            r == row / m,
            c == col / m,
    ;
    assert(0 <= r * width + c < width * width) by (nonlinear_arith)
        requires
            0 <= r < width,
            0 <= c < width,
    ;
}

/// Scales a code of `width` modules per side (`dark` row by row) into an
/// RGBA picture.
pub fn render_qr_rgba(width: usize, dark: &Vec<bool>) -> (img: QrImage)
    requires
        width > 0,
        dark@.len() == width * width,
    ensures
        img.size == picture_size(width as nat),
        img.stride == img.size * 4,
        img.pixels@.len() == img.size * img.size * 4,
        forall|i: int| 0 <= i < img.pixels@.len() ==> #[trigger] img.pixels@[i] == qr_byte(
            width as nat,
            dark@,
            i,
        ),
{
    let m = QR_DISPLAY_SIZE / width;
    assert(m * width <= 200) by (nonlinear_arith)
        requires
            m == 200int / (width as int),
            width > 0,
    ;
    let size = m * width;
    let mut pixels: Vec<u8> = Vec::new();
    let mut row: usize = 0;
    while row < size
        invariant
            m == module_px(width as nat),
            size == picture_size(width as nat),
            size <= 200,
            width > 0,
            dark@.len() == width * width,
            row <= size,
            pixels@.len() == row * size * 4,
            forall|i: int| 0 <= i < pixels@.len() ==> #[trigger] pixels@[i] == qr_byte(
                width as nat,
                dark@,
                i,
            ),
        decreases size - row,
    {
        let mut col: usize = 0;
        while col < size
            invariant
                m == module_px(width as nat),
                size == picture_size(width as nat),
                size <= 200,
                width > 0,
                dark@.len() == width * width,
                row < size,
                col <= size,
                pixels@.len() == (row * size + col) * 4,
                forall|i: int| 0 <= i < pixels@.len() ==> #[trigger] pixels@[i] == qr_byte(
                    width as nat,
                    dark@,
                    i,
                ),
            decreases size - col,
        {
            assert(row * size + col < 40000) by (nonlinear_arith)
                requires
                    row < size,
                    col < size,
                    size <= 200,
            ;
            proof {
                assert(m > 0) by (nonlinear_arith)
                    requires
                        size == m * width,
                        row < size,
                ;
                lemma_pixel_place(row as int, col as int, size as int, 0, m as int, width as int);
            }
            let r = row / m;
            let c = col / m;
            let n = dark.len();
            assert(r * width + c < n);
            assert(r * width <= r * width + c);
            let idx = r * width + c;
            let is_dark = dark[idx];
            let base = pixels.len();
            let v: u8 = if is_dark {
                0
            } else {
                255
            };
            pixels.push(v);
            pixels.push(v);
            pixels.push(v);
            pixels.push(255);
            proof {
                assert forall|k: int| 0 <= k < 4 implies #[trigger] pixels@[base + k] == qr_byte(
                    width as nat,
                    dark@,
                    base + k,
                ) by {
                    lemma_pixel_place(row as int, col as int, size as int, k, m as int, width as int);
                }
                assert forall|i: int| 0 <= i < pixels@.len() implies #[trigger] pixels@[i]
                    == qr_byte(width as nat, dark@, i) by {
                    if i >= base {
                        assert(pixels@[base + (i - base)] == pixels@[i]);
                    }
                }
            }
            col = col + 1;
        }
        assert((row * size + size) * 4 == (row + 1) * size * 4) by (nonlinear_arith);
        row = row + 1;
    }
    QrImage { pixels, size, stride: size * 4 }
}

/// A code of at most 200 modules a side (every QR code is) is drawn with at
/// least one pixel per module, in a picture of at most 200 pixels a side.
pub proof fn lemma_picture_fits(width: nat)
    requires
        1 <= width <= QR_DISPLAY_SIZE,
    ensures
        1 <= module_px(width),
        width <= picture_size(width) <= QR_DISPLAY_SIZE,
{
    let m = module_px(width);
    assert(1 <= m && width <= m * width <= 200) by (nonlinear_arith)
        requires
            m == 200int / (width as int),
            1 <= width <= 200,
    ;
}

/// The picture of the QR code of `payload`, or `None` when it cannot be
/// encoded.
pub fn qr_image(payload: &str) -> (r: Option<QrImage>)
    ensures
        match qr_code_modules(payload.spec_bytes()) {
            None => r is None,
            Some((w, cells)) => r matches Some(img) && img.size == picture_size(w as nat)
                && img.stride == img.size * 4 && img.pixels@.len() == img.size * img.size * 4
                && forall|i: int| 0 <= i < img.pixels@.len() ==> #[trigger] img.pixels@[i]
                == qr_byte(w as nat, cells, i),
        },
{
    match encode_qr(payload.as_bytes()) {
        Some((w, cells)) => Some(render_qr_rgba(w, &cells)),
        None => None,
    }
}

} // verus!
