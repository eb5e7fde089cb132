//! The native desktop window's logic: its start-up URL, the webview's IPC
//! messages, the crash dialog text and the window icon's pixel expansion.

use vstd::prelude::*;
use crate::text::{
    chars_of, string_of, cat, fmt_u64, fmt_int, starts_with_seq, starts_with_vec, strip_prefix_vec, owned, str_eq,
    json_string_field, json_string_field_of,
};
use crate::errors::BridgeError;
use png::{ColorType, Decoder, Transformations};
use std::io::Cursor;

verus! {

/// `http://127.0.0.1:<port>/ui`.
pub open spec fn spec_dashboard(port: u16) -> Seq<char> {
    "http://127.0.0.1:"@ + fmt_int(port as int) + "/ui"@
}

/// `url` is the dashboard itself, or the dashboard followed by a query or fragment.
pub open spec fn spec_is_dashboard_url(url: Seq<char>, dashboard: Seq<char>) -> bool {
    starts_with_seq(url, dashboard) && {
        let suffix = url.subrange(dashboard.len() as int, url.len() as int);
        suffix.len() == 0 || suffix[0] == '?' || suffix[0] == '#'
    }
}

pub fn is_dashboard_url(url: &str, dashboard: &str) -> (r: bool)
    ensures
        r == spec_is_dashboard_url(url@, dashboard@),
{
    match strip_prefix_vec(&chars_of(url), &chars_of(dashboard)) {
        None => false,
        Some(suffix) => suffix.len() == 0 || suffix[0] == '?' || suffix[0] == '#',
    }
}

/// The requested URL when it is a dashboard deep link, else the dashboard.
pub fn dashboard_url(port: u16, requested_url: Option<&str>) -> (r: String)
    ensures
        r@ == match requested_url {
            Some(u) => if spec_is_dashboard_url(u@, spec_dashboard(port)) {
                u@
            } else {
                spec_dashboard(port)
            },
            None => spec_dashboard(port),
        },
{
    let base = cat(&cat(&chars_of("http://127.0.0.1:"), &fmt_u64(port as u64)), &chars_of("/ui"));
    let dashboard = string_of(&base);
    match requested_url {
        Some(u) => if is_dashboard_url(u, dashboard.as_str()) {
            string_of(&chars_of(u))
        } else {
            dashboard
        },
        None => dashboard,
    }
}

/// Native work the webview asks of the window's event loop.
#[derive(Debug, Clone, PartialEq, Eq)]
pub enum UserEvent {
    /// Open a folder picker and hand the chosen path back for this request.
    PickFolder { request_id: String },
    /// Open a URL in the user's browser.
    OpenExternal { url: String },
}

/// The event an IPC message from the webview asks for: `{"type":"pickFolder",
/// "requestId":…}` (a missing id reads as empty) or `{"type":"openExternal",
/// "url":…}`; anything else asks for nothing.
pub open spec fn spec_ipc_event(body: Seq<char>) -> Option<(bool, Seq<char>)> {
    match json_string_field_of(body, "type"@) {
        Some(t) => if t == "pickFolder"@ {
            Some(
                (
                    true,
                    match json_string_field_of(body, "requestId"@) {
                        Some(id) => id,
                        None => Seq::empty(),
                    },
                ),
            )
        } else if t == "openExternal"@ {
            match json_string_field_of(body, "url"@) {
                Some(u) => Some((false, u)),
                None => None,
            }
        } else {
            None
        },
        None => None,
    }
}

/// Read an IPC message from the webview.
pub fn handle_ipc(body: &str) -> (r: Option<UserEvent>)
    ensures
        match r {
            None => spec_ipc_event(body@) is None,
            Some(UserEvent::PickFolder { request_id }) => spec_ipc_event(body@) == Some((true, request_id@)),
            Some(UserEvent::OpenExternal { url }) => spec_ipc_event(body@) == Some((false, url@)),
        },
{
    let kind = match json_string_field(body, "type") {
        Some(t) => t,
        None => return None,
    };
    if str_eq(kind.as_str(), "pickFolder") {
        let request_id = match json_string_field(body, "requestId") {
            Some(id) => id,
            None => String::new(),
        };
        Some(UserEvent::PickFolder { request_id })
    } else if str_eq(kind.as_str(), "openExternal") {
        match json_string_field(body, "url") {
            Some(url) => Some(UserEvent::OpenExternal { url }),
            None => None,
        }
    } else {
        None
    }
}

/// Only `http://` and `https://` links leave for the system browser.
pub fn opens_externally(url: &str) -> (r: bool)
    ensures
        r == (starts_with_seq(url@, "http://"@) || starts_with_seq(url@, "https://"@)),
{
    let u = chars_of(url);
    starts_with_vec(&u, &chars_of("http://")) || starts_with_vec(&u, &chars_of("https://"))
}

/// The text of the dialog shown after the window's event loop panics.
pub open spec fn spec_crash_dialog_text(report_path: Option<Seq<char>>) -> Seq<char> {
    match report_path {
        Some(p) => "Vex Atlas stopped unexpectedly and needs to close.\n\nA crash report was saved to:\n"@ + p,
        None => "Vex Atlas stopped unexpectedly and needs to close. No crash report could be saved."@,
    }
}

pub fn crash_dialog_text(report_path: Option<&str>) -> (r: String)
    ensures
        r@ == spec_crash_dialog_text(
            match report_path {
                Some(p) => Some(p@),
                None => None,
            },
        ),
{
    match report_path {
        Some(p) => string_of(
            &cat(&chars_of("Vex Atlas stopped unexpectedly and needs to close.\n\nA crash report was saved to:\n"), &chars_of(p)),
        ),
        None => owned("Vex Atlas stopped unexpectedly and needs to close. No crash report could be saved."),
    }
}

/// How a decoded image stores its pixels.
#[derive(Debug, Clone, Copy, PartialEq, Eq)]
pub enum PixelLayout {
    Rgba,
    Rgb,
    Grayscale,
    GrayscaleAlpha,
    Indexed,
}

/// The RGBA expansion of decoded pixels: RGB gains an opaque alpha, a gray
/// level is copied to all three colours (keeping its alpha if it has one), and
/// trailing bytes of an incomplete pixel are dropped.
pub open spec fn spec_rgba(layout: PixelLayout, p: Seq<u8>) -> Seq<u8> {
    match layout {
        PixelLayout::Rgb => Seq::new(
            4 * (p.len() / 3),
            |i: int| if i % 4 == 3 {
                255u8
            } else {
                p[3 * (i / 4) + i % 4]
            },
        ),
        PixelLayout::Grayscale => Seq::new(
            4 * p.len(),
            |i: int| if i % 4 == 3 {
                255u8
            } else {
                p[i / 4]
            },
        ),
        PixelLayout::GrayscaleAlpha => Seq::new(
            4 * (p.len() / 2),
            |i: int| if i % 4 == 3 {
                p[2 * (i / 4) + 1]
            } else {
                p[2 * (i / 4)]
            },
        ),
        _ => p,
    }
}

/// RGBA pixels for the window icon; a palette image must have been expanded.
pub fn expand_to_rgba(layout: PixelLayout, pixels: &[u8]) -> (r: Result<Vec<u8>, BridgeError>)
    requires
        pixels@.len() <= usize::MAX / 4,
    ensures
        match r {
            Ok(v) => layout != PixelLayout::Indexed && v@ == spec_rgba(layout, pixels@),
            Err(e) => layout == PixelLayout::Indexed && (e matches BridgeError::Config(m) && m@
                == "tray icon palette was not expanded"@),
        },
{
    let width: usize = match layout {
        PixelLayout::Indexed => {
            return Err(BridgeError::Config(owned("tray icon palette was not expanded")));
        },
        PixelLayout::Rgba => {
            let mut out: Vec<u8> = Vec::new();
            let mut i: usize = 0;
            while i < pixels.len()
                invariant
                    i <= pixels@.len(),
                    out@ == pixels@.subrange(0, i as int),
                decreases pixels.len() - i,
            {
                out.push(pixels[i]);
                proof {
                    assert(pixels@.subrange(0, i + 1) == pixels@.subrange(0, i as int).push(pixels@[i as int]));
                }
                i = i + 1;
            }
            proof {
                assert(pixels@.subrange(0, pixels@.len() as int) =~= pixels@);
            }
            return Ok(out);
        },
        PixelLayout::Rgb => 3,
        PixelLayout::Grayscale => 1,
        PixelLayout::GrayscaleAlpha => 2,
    };
    let count = pixels.len() / width;
    let ghost want = spec_rgba(layout, pixels@);
    let mut out: Vec<u8> = Vec::new();
    let mut k: usize = 0;
    while k < count
        invariant
            count == (pixels@.len() as int) / (width as int),
            width == 3 || width == 1 || width == 2,
            layout == PixelLayout::Rgb ==> width == 3,
            layout == PixelLayout::Grayscale ==> width == 1,
            layout == PixelLayout::GrayscaleAlpha ==> width == 2,
            layout != PixelLayout::Rgba && layout != PixelLayout::Indexed,
            want == spec_rgba(layout, pixels@),
            want.len() == 4 * count,
            k <= count,
            out@.len() == 4 * k,
            forall|i: int| 0 <= i < 4 * k ==> out@[i] == want[i],
            pixels@.len() <= usize::MAX / 4,
        decreases count - k,
    {
        let base = k * width;
        proof {
            assert(base + width <= pixels@.len()) by (nonlinear_arith)
                requires
                    k < count,
                    count == (pixels@.len() as int) / (width as int),
                    base == k * width,
                    width >= 1,
            ;
        }
        let (a, b, c, d) = match layout {
            PixelLayout::Rgb => (pixels[base], pixels[base + 1], pixels[base + 2], 255u8),
            PixelLayout::Grayscale => (pixels[base], pixels[base], pixels[base], 255u8),
            _ => (pixels[base], pixels[base], pixels[base], pixels[base + 1]),
        };
        out.push(a);
        out.push(b);
        out.push(c);
        out.push(d);
        proof {
            assert forall|i: int| 4 * k <= i < 4 * k + 4 implies out@[i] == want[i] by {
                assert(i / 4 == k);
                assert(i % 4 == i - 4 * k);
            }
        }
        k = k + 1;
    }
    proof {
        assert(out@ =~= want);
    }
    Ok(out)
}

// ---- decoding the window icon ------------------------------------------------------

/// Where PNG decoding stopped: reading the header, sizing the output buffer,
/// or reading the first frame.
#[derive(Debug, Clone, Copy, PartialEq, Eq)]
pub enum PngStage {
    Header,
    BufferSize,
    Frame,
}

/// What `png` decoding of `bytes` (with the `ALPHA | STRIP_16` transformations)
/// yields: the first frame's pixel bytes, their layout, width and height; or
/// the stage that failed with the decoder's error text.
pub uninterp spec fn png_decoding(bytes: Seq<u8>) -> Result<(Seq<u8>, PixelLayout, u32, u32), (PngStage, Seq<char>)>;

/// `png::Decoder::new` over the bytes, `set_transformations(ALPHA | STRIP_16)`,
/// `read_info`, `output_buffer_size` and `next_frame`, with the frame cut to
/// `OutputInfo::buffer_size` and its colour type mapped to a [`PixelLayout`].
/// Decoding reads nothing but `bytes`, so the result is a function of them.
#[verifier::external_body]
fn png_decode(bytes: &[u8]) -> (r: Result<(Vec<u8>, PixelLayout, u32, u32), (PngStage, String)>)
    ensures
        match r {
            Ok((p, l, w, h)) => png_decoding(bytes@) == Ok::<(Seq<u8>, PixelLayout, u32, u32), (PngStage, Seq<char>)>(
                (p@, l, w, h),
            ),
            Err((s, m)) => png_decoding(bytes@) == Err::<(Seq<u8>, PixelLayout, u32, u32), (PngStage, Seq<char>)>(
                (s, m@),
            ),
        },
{
    let mut decoder = Decoder::new(Cursor::new(bytes));
    decoder.set_transformations(Transformations::ALPHA | Transformations::STRIP_16);
    let mut reader = decoder.read_info().map_err(|e| (PngStage::Header, e.to_string()))?;
    let mut buffer = vec![0u8; reader.output_buffer_size().ok_or((PngStage::BufferSize, String::new()))?];
    let info = reader.next_frame(&mut buffer).map_err(|e| (PngStage::Frame, e.to_string()))?;
    buffer.truncate(info.buffer_size());
    let layout = match info.color_type {
        ColorType::Rgba => PixelLayout::Rgba,
        ColorType::Rgb => PixelLayout::Rgb,
        ColorType::Grayscale => PixelLayout::Grayscale,
        ColorType::GrayscaleAlpha => PixelLayout::GrayscaleAlpha,
        ColorType::Indexed => PixelLayout::Indexed,
    };
    Ok((buffer, layout, info.width, info.height))
}

pub open spec fn buffer_too_large_message() -> Seq<char> {
    "tray icon output buffer is too large"@
}

/// The error for a decoding failure at `stage` with the decoder's text `m`.
pub open spec fn png_failure_message(stage: PngStage, m: Seq<char>) -> Seq<char> {
    match stage {
        PngStage::Header => "could not decode tray icon: "@ + m,
        PngStage::BufferSize => buffer_too_large_message(),
        PngStage::Frame => "could not read tray icon: "@ + m,
    }
}

/// Decode a PNG image into RGBA8 pixels with its width and height. A palette
/// image is refused, and so is a frame too large to expand in memory.
pub fn decode_png_rgba(bytes: &[u8]) -> (r: Result<(Vec<u8>, u32, u32), BridgeError>)
    ensures
        match png_decoding(bytes@) {
            Err((stage, m)) => r matches Err(BridgeError::Config(t)) && t@ == png_failure_message(stage, m),
            Ok((pixels, layout, w, h)) => if layout == PixelLayout::Indexed {
                r matches Err(BridgeError::Config(t)) && t@ == "tray icon palette was not expanded"@
            } else if pixels.len() > usize::MAX / 4 {
                r matches Err(BridgeError::Config(t)) && t@ == buffer_too_large_message()
            } else {
                r matches Ok((v, rw, rh)) && v@ == spec_rgba(layout, pixels) && rw == w && rh == h
            },
        },
{
    match png_decode(bytes) {
        Err((stage, m)) => {
            let t = match stage {
                PngStage::Header => cat(&chars_of("could not decode tray icon: "), &chars_of(m.as_str())),
                PngStage::BufferSize => chars_of("tray icon output buffer is too large"),
                PngStage::Frame => cat(&chars_of("could not read tray icon: "), &chars_of(m.as_str())),
            };
            Err(BridgeError::Config(string_of(&t)))
        },
        Ok((pixels, layout, w, h)) => {
            if !matches!(layout, PixelLayout::Indexed) && pixels.len() > usize::MAX / 4 {
                return Err(BridgeError::Config(owned("tray icon output buffer is too large")));
            }
            if matches!(layout, PixelLayout::Indexed) {
                return Err(BridgeError::Config(owned("tray icon palette was not expanded")));
            }
            match expand_to_rgba(layout, pixels.as_slice()) {
                Ok(v) => Ok((v, w, h)),
                Err(e) => Err(e),
            }
        },
    }
}

/// The window always opens on the local dashboard: whatever start-up URL is
/// requested, the chosen URL is the dashboard or a deep link into it.
pub proof fn law_window_opens_dashboard(port: u16, requested: Option<Seq<char>>)
    ensures
        spec_is_dashboard_url(
            match requested {
                Some(u) => if spec_is_dashboard_url(u, spec_dashboard(port)) {
                    u
                } else {
                    spec_dashboard(port)
                },
                None => spec_dashboard(port),
            },
            spec_dashboard(port),
        ),
{
    let d = spec_dashboard(port);
    assert(d.subrange(0, d.len() as int) =~= d);
    assert(d.subrange(d.len() as int, d.len() as int).len() == 0);
}

} // verus!
