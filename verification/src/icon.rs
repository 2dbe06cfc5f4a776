//! The application icon: decoding the PNG image and laying its pixels out
//! as the tray (ARGB) and the window (RGBA) expect them.

use vstd::prelude::*;

verus! {

/// PNG colour type of an image with red, green and blue samples.
pub const PNG_RGB: u8 = 2;

/// PNG colour type of an image with red, green, blue and alpha samples.
pub const PNG_RGBA: u8 = 6;

/// What the PNG decoder makes of `bytes`: the image's width, height, PNG
/// colour-type code and the bytes of its first frame, or nothing where it
/// rejects them.
pub uninterp spec fn png_image(bytes: Seq<u8>) -> Option<(u32, u32, u8, Seq<u8>)>;

/// `png::Decoder::new(..).read_info()` then `next_frame` into a buffer of
/// `output_buffer_size()` bytes, cut to the frame's `buffer_size()`: the
/// contract names the result (width, height, the colour type's PNG code,
/// the frame's bytes), `None` for every decoder error. The decoder keeps
/// the image's own colour type and bit depth; nothing more is stated of
/// the bytes.
#[verifier::external_body]
fn decode_png(bytes: &[u8]) -> (r: Option<(u32, u32, u8, Vec<u8>)>)
    ensures
        match r {
            Some(d) => png_image(bytes@) == Some((d.0, d.1, d.2, d.3@)),
            None => png_image(bytes@) is None,
        },
{
    let mut reader = png::Decoder::new(std::io::Cursor::new(bytes)).read_info().ok()?;
    let mut buf = vec![0u8; reader.output_buffer_size()?];
    let info = reader.next_frame(&mut buf).ok()?;
    buf.truncate(info.buffer_size());
    Some((info.width, info.height, info.color_type as u8, buf))
}

/// Why an icon could not be made.
#[derive(Debug, Clone, Copy, PartialEq, Eq)]
pub enum IconError {
    /// The PNG decoder rejected the bytes.
    Decode,
    /// The image is neither RGB nor RGBA (the PNG colour-type code).
    UnsupportedColorType(u8),
}

/// A tray icon: ARGB pixels, row by row.
#[derive(Debug, Clone)]
pub struct TrayIcon {
    pub width: i32,
    pub height: i32,
    pub data: Vec<u8>,
}

/// A window icon: RGBA pixels, row by row.
#[derive(Debug, Clone)]
pub struct WindowIcon {
    pub rgba: Vec<u8>,
    pub width: u32,
    pub height: u32,
}

/// RGBA pixels reordered to ARGB; a trailing partial pixel is dropped.
pub open spec fn argb_from_rgba(s: Seq<u8>) -> Seq<u8> {
    Seq::new((s.len() / 4 * 4) as nat, |i: int| if i % 4 == 0 { s[i + 3] } else { s[i - 1] })
}

/// RGB pixels as ARGB with full alpha; a trailing partial pixel is dropped.
pub open spec fn argb_from_rgb(s: Seq<u8>) -> Seq<u8> {
    Seq::new(
        (s.len() / 3 * 4) as nat,
        |i: int| if i % 4 == 0 { 0xFFu8 } else { s[(i / 4) * 3 + i % 4 - 1] },
    )
}

/// RGB pixels as RGBA with full alpha; a trailing partial pixel is dropped.
pub open spec fn rgba_from_rgb(s: Seq<u8>) -> Seq<u8> {
    Seq::new(
        (s.len() / 3 * 4) as nat,
        |i: int| if i % 4 == 3 { 0xFFu8 } else { s[(i / 4) * 3 + i % 4] },
    )
}

/// The tray's ARGB pixels for an image of the given colour type.
pub open spec fn tray_pixels(color_type: u8, pixels: Seq<u8>) -> Option<Seq<u8>> {
    if color_type == PNG_RGBA {
        Some(argb_from_rgba(pixels))
    } else if color_type == PNG_RGB {
        Some(argb_from_rgb(pixels))
    } else {
        None
    }
}

/// The window's RGBA pixels for an image of the given colour type.
pub open spec fn window_pixels(color_type: u8, pixels: Seq<u8>) -> Option<Seq<u8>> {
    if color_type == PNG_RGBA {
        Some(pixels)
    } else if color_type == PNG_RGB {
        Some(rgba_from_rgb(pixels))
    } else {
        None
    }
}

/// Reorder RGBA pixels to ARGB.
pub fn rgba_to_argb(pixels: &Vec<u8>) -> (r: Vec<u8>)
    ensures
        r@ == argb_from_rgba(pixels@),
{
    let n = pixels.len() / 4;
    let mut out: Vec<u8> = Vec::new();
    let mut p: usize = 0;
    while p < n
        invariant
            n == pixels@.len() / 4,
            pixels@.len() <= usize::MAX,
            p <= n,
            out@.len() == 4 * p,
            forall|i: int| 0 <= i < out@.len() ==> #[trigger] out@[i] == argb_from_rgba(pixels@)[i],
        decreases n - p,
    {
        let ghost before = out@;
        out.push(pixels[4 * p + 3]);
        out.push(pixels[4 * p]);
        out.push(pixels[4 * p + 1]);
        out.push(pixels[4 * p + 2]);
        assert forall|i: int| 0 <= i < out@.len() implies #[trigger] out@[i] == argb_from_rgba(pixels@)[i] by {
            if i < 4 * p {
                assert(out@[i] == before[i]);
            }
        };
        p = p + 1;
    }
    assert(out@ =~= argb_from_rgba(pixels@));
    out
}

/// RGB pixels as ARGB with full alpha.
pub fn rgb_to_argb(pixels: &Vec<u8>) -> (r: Vec<u8>)
    ensures
        r@ == argb_from_rgb(pixels@),
{
    let n = pixels.len() / 3;
    let mut out: Vec<u8> = Vec::new();
    let mut p: usize = 0;
    while p < n
        invariant
            n == pixels@.len() / 3,
            pixels@.len() <= usize::MAX,
            p <= n,
            out@.len() == 4 * p,
            forall|i: int| 0 <= i < out@.len() ==> #[trigger] out@[i] == argb_from_rgb(pixels@)[i],
        decreases n - p,
    {
        let ghost before = out@;
        out.push(0xFF);
        out.push(pixels[3 * p]);
        out.push(pixels[3 * p + 1]);
        out.push(pixels[3 * p + 2]);
        assert forall|i: int| 0 <= i < out@.len() implies #[trigger] out@[i] == argb_from_rgb(pixels@)[i] by {
            if i < 4 * p {
                assert(out@[i] == before[i]);
            }
        };
        p = p + 1;
    }
    assert(out@ =~= argb_from_rgb(pixels@));
    out
}

/// RGB pixels as RGBA with full alpha.
pub fn rgb_to_rgba(pixels: &Vec<u8>) -> (r: Vec<u8>)
    ensures
        r@ == rgba_from_rgb(pixels@),
{
    let n = pixels.len() / 3;
    let mut out: Vec<u8> = Vec::new();
    let mut p: usize = 0;
    while p < n
        invariant
            n == pixels@.len() / 3,
            pixels@.len() <= usize::MAX,
            p <= n,
            out@.len() == 4 * p,
            forall|i: int| 0 <= i < out@.len() ==> #[trigger] out@[i] == rgba_from_rgb(pixels@)[i],
        decreases n - p,
    {
        let ghost before = out@;
        out.push(pixels[3 * p]);
        out.push(pixels[3 * p + 1]);
        out.push(pixels[3 * p + 2]);
        out.push(0xFF);
        assert forall|i: int| 0 <= i < out@.len() implies #[trigger] out@[i] == rgba_from_rgb(pixels@)[i] by {
            if i < 4 * p {
                assert(out@[i] == before[i]);
            }
        };
        p = p + 1;
    }
    assert(out@ =~= rgba_from_rgb(pixels@));
    out
}

/// The tray icon for a decoded image of the given size, colour type and
/// pixels: RGBA and RGB images become ARGB (RGB with full alpha); any
/// other colour type is refused.
pub fn tray_icon_from_image(width: u32, height: u32, color_type: u8, pixels: &Vec<u8>) -> (r: Result<TrayIcon, IconError>)
    ensures
        match tray_pixels(color_type, pixels@) {
            Some(d) => r matches Ok(icon) && icon.width == width as i32 && icon.height == height as i32 && icon.data@ == d,
            None => r == Err::<TrayIcon, IconError>(IconError::UnsupportedColorType(color_type)),
        },
{
    let data = if color_type == PNG_RGBA {
        rgba_to_argb(pixels)
    } else if color_type == PNG_RGB {
        rgb_to_argb(pixels)
    } else {
        return Err(IconError::UnsupportedColorType(color_type));
    };
    Ok(TrayIcon { width: width as i32, height: height as i32, data })
}

/// The window icon for a decoded image of the given size, colour type and
/// pixels: RGBA pixels as they are, RGB pixels with full alpha; any other
/// colour type is refused.
pub fn window_icon_from_image(width: u32, height: u32, color_type: u8, pixels: &Vec<u8>) -> (r: Result<WindowIcon, IconError>)
    ensures
        match window_pixels(color_type, pixels@) {
            Some(d) => r matches Ok(icon) && icon.width == width && icon.height == height && icon.rgba@ == d,
            None => r == Err::<WindowIcon, IconError>(IconError::UnsupportedColorType(color_type)),
        },
{
    let rgba = if color_type == PNG_RGBA {
        pixels.clone()
    } else if color_type == PNG_RGB {
        rgb_to_rgba(pixels)
    } else {
        return Err(IconError::UnsupportedColorType(color_type));
    };
    Ok(WindowIcon { rgba, width, height })
}

/// Decode the PNG icon for the tray: `Decode` where the decoder rejects
/// the bytes, else as `tray_icon_from_image` makes it of the image.
pub fn load_tray_icon_pixmap(png: &[u8]) -> (r: Result<TrayIcon, IconError>)
    ensures
        match png_image(png@) {
            None => r == Err::<TrayIcon, IconError>(IconError::Decode),
            Some(img) => match tray_pixels(img.2, img.3) {
                Some(d) => r matches Ok(icon) && icon.width == img.0 as i32 && icon.height == img.1 as i32 && icon.data@ == d,
                None => r == Err::<TrayIcon, IconError>(IconError::UnsupportedColorType(img.2)),
            },
        },
{
    match decode_png(png) {
        None => Err(IconError::Decode),
        Some((width, height, color_type, pixels)) => tray_icon_from_image(width, height, color_type, &pixels),
    }
}

/// Decode the PNG icon for the window: `Decode` where the decoder rejects
/// the bytes, else as `window_icon_from_image` makes it of the image.
pub fn load_window_icon(png: &[u8]) -> (r: Result<WindowIcon, IconError>)
    ensures
        match png_image(png@) {
            None => r == Err::<WindowIcon, IconError>(IconError::Decode),
            Some(img) => match window_pixels(img.2, img.3) {
                Some(d) => r matches Ok(icon) && icon.width == img.0 && icon.height == img.1 && icon.rgba@ == d,
                None => r == Err::<WindowIcon, IconError>(IconError::UnsupportedColorType(img.2)),
            },
        },
{
    match decode_png(png) {
        None => Err(IconError::Decode),
        Some((width, height, color_type, pixels)) => window_icon_from_image(width, height, color_type, &pixels),
    }
}

} // verus!
