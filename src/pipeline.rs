use vstd::prelude::*;
use vstd::slice::slice_to_vec;
use vstd::utf8::encode_utf8;

use crate::render::{luma_pixels, text_lines};
use crate::symbol::{qr_modules, GenerateError, QrMatrix};

verus! {

/// What one run is asked to do: the text to encode, if given on the command
/// line, and the file to write the image to, if any.
pub struct GenerateOptions {
    pub text: Option<String>,
    pub output: Option<String>,
}

/// Where the payload comes from.
pub enum Source {
    /// The bytes of a text given directly.
    Direct(String),
    /// Everything that standard input holds, up to its end.
    FromStream,
}

/// Where the rendered symbol goes.
pub enum RenderTarget {
    /// A grayscale raster written to the file at this path.
    FileImage(String),
    /// Glyph text printed on standard output.
    StdoutText,
}

/// A rendered symbol, ready to be written out.
pub enum Rendered {
    /// `width * width` grayscale pixels, row by row, for the file at `path`.
    Image { path: String, width: u32, pixels: Vec<u8> },
    /// The text block to print, followed by one newline.
    Text(String),
}

impl GenerateOptions {
    /// The payload's source: the text when one was given, else standard input.
    pub fn source(&self) -> (r: Source)
        ensures
            match self.text {
                Some(t) => r matches Source::Direct(u) && u@ == t@,
                None => r is FromStream,
            },
    {
        match &self.text {
            Some(t) => Source::Direct(t.clone()),
            None => Source::FromStream,
        }
    }

    /// The render target: an image file when an output path was given, else
    /// text on standard output.
    pub fn target(&self) -> (r: RenderTarget)
        ensures
            match self.output {
                Some(p) => r matches RenderTarget::FileImage(q) && q@ == p@,
                None => r is StdoutText,
            },
    {
        match &self.output {
            Some(p) => RenderTarget::FileImage(p.clone()),
            None => RenderTarget::StdoutText,
        }
    }
}

impl Source {
    /// The payload where the source holds it itself: the UTF-8 bytes of a
    /// direct text. `None` where the payload has to be read from the stream.
    pub fn direct_payload(&self) -> (r: Option<Vec<u8>>)
        ensures
            match self {
                Source::Direct(t) => r matches Some(b) && b@ == encode_utf8(t@),
                Source::FromStream => r is None,
            },
    {
        match self {
            Source::Direct(t) => Some(slice_to_vec(t.as_str().as_bytes())),
            Source::FromStream => None,
        }
    }
}

/// `r` is the rendering for `target` of the modules `m` of a matrix of side
/// `w`: the raster with the target's path, or the glyph text.
pub open spec fn rendered_as(m: Seq<bool>, w: nat, target: RenderTarget, r: Rendered) -> bool {
    match target {
        RenderTarget::FileImage(p) => r matches Rendered::Image { path, width, pixels } && path@
            == p@ && width == w && pixels@ == luma_pixels(m),
        RenderTarget::StdoutText => r matches Rendered::Text(s) && s@ == text_lines(m, w, w),
    }
}

/// Renders the matrix for the target: the grayscale raster for a file, the
/// glyph text for standard output.
pub fn render(m: &QrMatrix, target: RenderTarget) -> (r: Rendered)
    requires
        m.wf(),
    ensures
        rendered_as(m.modules(), m.side(), target, r),
{
    match target {
        RenderTarget::FileImage(path) => {
            let width = m.width() as u32;
            Rendered::Image { path, width, pixels: m.to_luma() }
        },
        RenderTarget::StdoutText => Rendered::Text(m.to_text()),
    }
}

/// Encodes the payload and renders the symbol for the target. Fails, with
/// nothing rendered, exactly when the QR encoder refuses the payload.
pub fn generate(payload: &[u8], target: RenderTarget) -> (r: Result<Rendered, GenerateError>)
    ensures
        r is Ok <==> qr_modules(payload@) is Some,
        r matches Ok(out) ==> exists|w: nat|
            21 <= w <= 177 && w * w == qr_modules(payload@)->Some_0.len() && rendered_as(
                qr_modules(payload@)->Some_0,
                w,
                target,
                out,
            ),
{
    match QrMatrix::encode(payload) {
        Ok(m) => {
            let out = render(&m, target);
            assert(rendered_as(m.modules(), m.side(), target, out));
            Ok(out)
        },
        Err(e) => Err(e),
    }
}

} // verus!
