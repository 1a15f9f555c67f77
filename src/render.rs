use vstd::prelude::*;

use crate::symbol::QrMatrix;

verus! {

/// Luminance of a module's pixel: black for dark, white for light.
pub open spec fn luma(dark: bool) -> u8 {
    if dark {
        0
    } else {
        255
    }
}

/// One grayscale pixel per module, in the modules' row order.
pub open spec fn luma_pixels(m: Seq<bool>) -> Seq<u8> {
    m.map_values(|d: bool| luma(d))
}

/// Glyph that fills one half of a module's text cell.
pub open spec fn glyph(dark: bool) -> char {
    if dark {
        '\u{2588}'
    } else {
        ' '
    }
}

/// Text cells of the first `c` modules of row `row` of a matrix of side `w`:
/// each module is two equal glyphs wide.
pub open spec fn row_cells(m: Seq<bool>, w: nat, row: nat, c: nat) -> Seq<char>
    decreases c,
{
    if c == 0 {
        seq![]
    } else {
        let g = glyph(m[row * w + c - 1]);
        row_cells(m, w, row, (c - 1) as nat) + seq![g, g]
    }
}

/// The text line of row `row`.
pub open spec fn text_row(m: Seq<bool>, w: nat, row: nat) -> Seq<char> {
    row_cells(m, w, row, w)
}

/// The first `n` text lines, separated by a newline, with no border and no
/// trailing newline.
pub open spec fn text_lines(m: Seq<bool>, w: nat, n: nat) -> Seq<char>
    decreases n,
{
    if n == 0 {
        seq![]
    } else if n == 1 {
        text_row(m, w, 0)
    } else {
        text_lines(m, w, (n - 1) as nat) + seq!['\n'] + text_row(m, w, (n - 1) as nat)
    }
}

/// The whole text rendering of a matrix.
pub open spec fn text_of(m: &QrMatrix) -> Seq<char> {
    text_lines(m.modules(), m.side(), m.side())
}

/// The cells of a row prefix are two glyphs per module, each showing that
/// module.
pub proof fn lemma_row_cells(m: Seq<bool>, w: nat, row: nat, c: nat)
    ensures
        row_cells(m, w, row, c).len() == 2 * c,
        forall|k: nat|
            k < c ==> #[trigger] row_cells(m, w, row, c)[(2 * k) as int] == glyph(m[(row * w + k) as int])
                && row_cells(m, w, row, c)[(2 * k + 1) as int] == glyph(m[(row * w + k) as int]),
    decreases c,
{
    if c > 0 {
        let p = (c - 1) as nat;
        lemma_row_cells(m, w, row, p);
        let g = glyph(m[(row * w + p) as int]);
        assert(row_cells(m, w, row, c) == row_cells(m, w, row, p) + seq![g, g]);
        assert forall|k: nat| k < c implies #[trigger] row_cells(m, w, row, c)[(2 * k) as int]
            == glyph(m[(row * w + k) as int]) && row_cells(m, w, row, c)[(2 * k + 1) as int]
            == glyph(m[(row * w + k) as int]) by {
            if k < p {
                assert(row_cells(m, w, row, p)[(2 * k) as int] == glyph(m[(row * w + k) as int]));
            } else {
                assert(k == p);
            }
        }
    }
}

/// The image and the text show each module alike: a module's pixel is black
/// exactly when both glyphs of its text cell are full blocks, and white
/// exactly when both are spaces.
pub proof fn lemma_renderings_agree(m: &QrMatrix, row: nat, col: nat)
    requires
        m.wf(),
        row < m.side(),
        col < m.side(),
    ensures
        luma_pixels(m.modules())[(row * m.side() + col) as int] == 0 <==> m.dark_at(row as int, col as int),
        luma_pixels(m.modules())[(row * m.side() + col) as int] == 0 <==> text_row(
            m.modules(),
            m.side(),
            row,
        )[(2 * col) as int] == '\u{2588}' && text_row(m.modules(), m.side(), row)[(2 * col + 1) as int]
            == '\u{2588}',
        luma_pixels(m.modules())[(row * m.side() + col) as int] == 255 <==> text_row(
            m.modules(),
            m.side(),
            row,
        )[(2 * col) as int] == ' ' && text_row(m.modules(), m.side(), row)[(2 * col + 1) as int] == ' ',
{
    let w = m.side();
    assert(row * w + col < w * w) by (nonlinear_arith)
        requires
            row < w,
            col < w,
    ;
    lemma_row_cells(m.modules(), w, row, w);
    assert(row_cells(m.modules(), w, row, w)[(2 * col) as int] == glyph(m.modules()[(row * w + col) as int]));
}

/// Layout of the text rendering of `n >= 1` rows: each line is `2 * w`
/// glyphs, lines are separated by one newline, and nothing surrounds them.
pub proof fn lemma_text_layout(m: Seq<bool>, w: nat, n: nat)
    requires
        n >= 1,
    ensures
        text_lines(m, w, n).len() == n * (2 * w + 1) - 1,
        forall|r: nat, k: nat|
            r < n && k < 2 * w ==> text_lines(m, w, n)[(r * (2 * w + 1) + k) as int]
                == #[trigger] text_row(m, w, r)[k as int],
        forall|r: nat|
            r + 1 < n ==> #[trigger] text_lines(m, w, n)[(r * (2 * w + 1) + 2 * w) as int] == '\n',
    decreases n,
{
    let ln = 2 * w + 1;
    lemma_row_cells(m, w, (n - 1) as nat, w);
    if n == 1 {
        assert(text_lines(m, w, n).len() == 2 * w);
        assert(n * ln == ln) by (nonlinear_arith)
            requires
                n == 1,
        ;
        assert forall|r: nat, k: nat| r < n && k < 2 * w implies text_lines(m, w, n)[(r * ln + k) as int]
            == #[trigger] text_row(m, w, r)[k as int] by {
            assert(r == 0);
            assert(r * ln == 0);
        }
    } else {
        let p = (n - 1) as nat;
        lemma_text_layout(m, w, p);
        let a = text_lines(m, w, p);
        assert(text_lines(m, w, n) == a + seq!['\n'] + text_row(m, w, p));
        assert(text_row(m, w, p).len() == 2 * w);
        assert(p * ln + ln == n * ln) by (nonlinear_arith)
            requires
                p == n - 1,
        ;
        assert(p >= 1);
        assert(p * ln >= ln) by (nonlinear_arith)
            requires
                p >= 1,
        ;
        assert forall|r: nat, k: nat| r < n && k < 2 * w implies text_lines(m, w, n)[(r * ln + k) as int]
            == #[trigger] text_row(m, w, r)[k as int] by {
            if r < p {
                assert(r * ln + ln <= p * ln) by (nonlinear_arith)
                    requires
                        r < p,
                ;
                assert(r * ln + k < a.len());
            } else {
                assert(r == p);
            }
        }
        assert forall|r: nat| r + 1 < n implies #[trigger] text_lines(m, w, n)[(r * ln + 2 * w) as int]
            == '\n' by {
            if r + 1 < p {
                assert(r * ln + ln <= (p - 1) * ln) by (nonlinear_arith)
                    requires
                        r + 1 < p,
                ;
                assert((p - 1) * ln + ln == p * ln) by (nonlinear_arith);
            } else {
                assert(r + 1 == p);
                assert(r * ln + ln == p * ln) by (nonlinear_arith)
                    requires
                        r + 1 == p,
                ;
            }
        }
    }
}

impl QrMatrix {
    /// Grayscale raster of the symbol, `width * width` pixels row by row, 0
    /// for a dark module and 255 for a light one, with no quiet zone.
    pub fn to_luma(&self) -> (r: Vec<u8>)
        requires
            self.wf(),
        ensures
            r@ == luma_pixels(self.modules()),
    {
        let w = self.width();
        proof {
            assert(w * w <= 177 * 177) by (nonlinear_arith)
                requires
                    w <= 177,
            ;
        }
        let n = w * w;
        let mut r: Vec<u8> = Vec::with_capacity(n);
        let mut i: usize = 0;
        while i < n
            invariant
                self.wf(),
                n == self.modules().len(),
                i <= n,
                r@ == luma_pixels(self.modules()).take(i as int),
            decreases n - i,
        {
            let p: u8 = if self.module(i) {
                0
            } else {
                255
            };
            r.push(p);
            i += 1;
            assert(r@ =~= luma_pixels(self.modules()).take(i as int));
        }
        assert(r@ =~= luma_pixels(self.modules()));
        r
    }

    /// Text rendering of the symbol: one line per module row, two glyphs per
    /// module (a full block for dark, a space for light), no quiet zone, lines
    /// joined by newlines.
    pub fn to_text(&self) -> (r: String)
        requires
            self.wf(),
        ensures
            r@ == text_of(self),
    {
        let w = self.width();
        let ghost m = self.modules();
        let mut s = String::new();
        let mut row: usize = 0;
        while row < w
            invariant
                self.wf(),
                w == self.side(),
                m == self.modules(),
                row <= w,
                s@ == text_lines(m, w as nat, row as nat),
            decreases w - row,
        {
            if row > 0 {
                proof {
                    reveal_strlit("\n");
                }
                s.append("\n");
            }
            let ghost prefix = s@;
            let mut col: usize = 0;
            while col < w
                invariant
                    self.wf(),
                    w == self.side(),
                    m == self.modules(),
                    row < w,
                    col <= w,
                    s@ == prefix + row_cells(m, w as nat, row as nat, col as nat),
                decreases w - col,
            {
                proof {
                    reveal_strlit("\u{2588}\u{2588}");
                    reveal_strlit("  ");
                }
                if self.is_dark(row, col) {
                    s.append("\u{2588}\u{2588}");
                } else {
                    s.append("  ");
                }
                col += 1;
                assert(s@ =~= prefix + row_cells(m, w as nat, row as nat, col as nat));
            }
            row += 1;
            assert(s@ =~= text_lines(m, w as nat, row as nat));
        }
        s
    }
}

} // verus!
