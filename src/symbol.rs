use vstd::prelude::*;

use qrcode::types::{Color, QrError};
use qrcode::QrCode;

verus! {

#[verifier::external_type_specification]
#[verifier::external_body]
pub struct ExQrError(QrError);

/// The modules, row by row and dark as `true`, of the symbol that the QR
/// encoder builds for a payload, or `None` where it refuses the payload.
pub uninterp spec fn qr_modules(payload: Seq<u8>) -> Option<Seq<bool>>;

/// Relies on `qrcode::QrCode::new`, which picks medium error correction and
/// the smallest normal version that holds the payload, and fails with a
/// `QrError` where none does. Its result is read back through `QrCode::width`
/// (17 + 4 * version modules, version 1 to 40) and `QrCode::to_colors`
/// (`width * width` colours, row by row). The symbol depends on the bytes alone.
#[verifier::external_body]
fn encode_modules(payload: &[u8]) -> (r: Result<(usize, Vec<bool>), QrError>)
    ensures
        r is Ok <==> qr_modules(payload@) is Some,
        r matches Ok((w, m)) ==> m@ == qr_modules(payload@)->Some_0 && 21 <= w <= 177
            && m@.len() == w * w,
{
    match QrCode::new(payload) {
        Ok(code) => Ok((code.width(), code.to_colors().into_iter().map(|c| c == Color::Dark).collect())),
        Err(e) => Err(e),
    }
}

/// What can stop a payload from becoming a symbol.
#[derive(Debug)]
pub enum GenerateError {
    /// The QR encoder refused the payload (too long for any version).
    QrCode(QrError),
}

/// A square QR module matrix, `width` modules per side, stored row by row
/// with `true` for a dark module.
pub struct QrMatrix {
    width: usize,
    dark: Vec<bool>,
}

impl QrMatrix {
    /// Side length in modules.
    pub closed spec fn side(&self) -> nat {
        self.width as nat
    }

    /// All modules, row by row.
    pub closed spec fn modules(&self) -> Seq<bool> {
        self.dark@
    }

    /// Whether the module in `row` and `col` is dark.
    pub open spec fn dark_at(&self, row: int, col: int) -> bool {
        self.modules()[row * self.side() + col]
    }

    /// A matrix is well formed when it is square and of a size that a QR
    /// symbol of version 1 to 40 has.
    pub open spec fn wf(&self) -> bool {
        21 <= self.side() <= 177 && self.modules().len() == self.side() * self.side()
    }

    /// Encodes `payload` as a QR symbol.
    pub fn encode(payload: &[u8]) -> (r: Result<QrMatrix, GenerateError>)
        ensures
            encoded(payload@, r),
    {
        match encode_modules(payload) {
            Ok((width, dark)) => Ok(QrMatrix { width, dark }),
            Err(e) => Err(GenerateError::QrCode(e)),
        }
    }

    /// Side length in modules.
    pub fn width(&self) -> (r: usize)
        ensures
            r == self.side(),
    {
        self.width
    }

    /// The module at position `i` in row order.
    pub fn module(&self, i: usize) -> (r: bool)
        requires
            i < self.modules().len(),
        ensures
            r == self.modules()[i as int],
    {
        self.dark[i]
    }

    /// Whether the module in `row` and `col` is dark.
    pub fn is_dark(&self, row: usize, col: usize) -> (r: bool)
        requires
            self.wf(),
            row < self.side(),
            col < self.side(),
        ensures
            r == self.dark_at(row as int, col as int),
    {
        proof {
            assert(row * self.width + col < self.width * self.width <= 177 * 177)
                by (nonlinear_arith)
                requires
                    row < self.width,
                    col < self.width,
                    self.width <= 177,
            ;
        }
        self.dark[row * self.width + col]
    }
}

/// `r` is what encoding `payload` gives: a well-formed matrix holding the
/// encoder's modules exactly when the encoder accepts the payload.
pub open spec fn encoded(payload: Seq<u8>, r: Result<QrMatrix, GenerateError>) -> bool {
    &&& r is Ok <==> qr_modules(payload) is Some
    &&& r matches Ok(m) ==> m.wf() && m.modules() == qr_modules(payload)->Some_0
}

/// Encoding is deterministic: two encodings of the same bytes both succeed or
/// both fail, and where they succeed they hold the same modules at the same size.
pub proof fn lemma_encode_deterministic(
    p: Seq<u8>,
    q: Seq<u8>,
    r1: Result<QrMatrix, GenerateError>,
    r2: Result<QrMatrix, GenerateError>,
)
    requires
        p == q,
        encoded(p, r1),
        encoded(q, r2),
    ensures
        r1 is Ok <==> r2 is Ok,
        r1 matches Ok(m1) ==> (r2 matches Ok(m2) ==> m1.side() == m2.side() && m1.modules()
            == m2.modules()),
{
    if let Ok(m1) = r1 {
        if let Ok(m2) = r2 {
            lemma_square_side_unique(m1.side(), m2.side());
        }
    }
}

proof fn lemma_square_side_unique(a: nat, b: nat)
    requires
        a * a == b * b,
    ensures
        a == b,
{
    if a < b {
        assert(a * a < b * b) by (nonlinear_arith)
            requires
                a < b,
        ;
    } else if b < a {
        assert(b * b < a * a) by (nonlinear_arith)
            requires
                b < a,
        ;
    }
}

} // verus!
