use qrcode::types::QrError;
use qrgen::{generate, GenerateError, GenerateOptions, QrMatrix, RenderTarget, Rendered, Source};

fn encode_ok(payload: &[u8]) -> QrMatrix {
    match QrMatrix::encode(payload) {
        Ok(m) => m,
        Err(e) => panic!("encoding failed: {:?}", e),
    }
}

#[test]
fn hello_is_a_version_one_symbol() {
    let m = encode_ok(b"HELLO");
    assert_eq!(m.width(), 21);
    // top-left finder pattern: seven dark modules, then the light separator
    for col in 0..7 {
        assert!(m.is_dark(0, col));
    }
    assert!(!m.is_dark(0, 7));
    assert!(!m.is_dark(1, 1));
    assert!(m.is_dark(2, 2));
}

#[test]
fn encoding_is_deterministic() {
    let a = encode_ok(b"same bytes twice");
    let b = encode_ok(b"same bytes twice");
    assert_eq!(a.width(), b.width());
    let n = a.width() * a.width();
    for i in 0..n {
        assert_eq!(a.module(i), b.module(i));
    }
}

#[test]
fn different_payloads_give_different_symbols() {
    let a = encode_ok(b"HELLO");
    let b = encode_ok(b"WORLD");
    let n = a.width() * a.width();
    assert!((0..n).any(|i| a.module(i) != b.module(i)));
}

#[test]
fn hello_text_has_equal_rows_and_no_border() {
    let m = encode_ok(b"HELLO");
    let text = m.to_text();
    let lines: Vec<&str> = text.split('\n').collect();
    assert_eq!(lines.len(), 21);
    for line in &lines {
        assert_eq!(line.chars().count(), 42);
        assert!(line.contains('\u{2588}'));
    }
    assert!(!text.ends_with('\n'));
    assert!(lines[0].starts_with("\u{2588}\u{2588}\u{2588}\u{2588}\u{2588}\u{2588}\u{2588}\u{2588}\u{2588}\u{2588}\u{2588}\u{2588}\u{2588}\u{2588}  "));
}

#[test]
fn hello_image_is_one_pixel_per_module() {
    let m = encode_ok(b"HELLO");
    let pixels = m.to_luma();
    assert_eq!(pixels.len(), 21 * 21);
    assert_eq!(pixels[0], 0);
    assert_eq!(pixels[7], 255);
    assert!(pixels.iter().all(|p| *p == 0 || *p == 255));
}

#[test]
fn image_and_text_agree_on_every_module() {
    let m = encode_ok(b"https://example.com/some/longer/payload?x=1");
    let w = m.width();
    let pixels = m.to_luma();
    let text = m.to_text();
    let lines: Vec<Vec<char>> = text.split('\n').map(|l| l.chars().collect()).collect();
    assert_eq!(lines.len(), w);
    for row in 0..w {
        for col in 0..w {
            let dark = pixels[row * w + col] == 0;
            let glyph = if dark { '\u{2588}' } else { ' ' };
            assert_eq!(lines[row][2 * col], glyph);
            assert_eq!(lines[row][2 * col + 1], glyph);
            assert_eq!(m.is_dark(row, col), dark);
        }
    }
}

#[test]
fn empty_payload_gives_smallest_symbol() {
    let m = encode_ok(b"");
    assert_eq!(m.width(), 21);
}

#[test]
fn oversized_payload_is_refused() {
    let payload: Vec<u8> = (0..5000u32).map(|i| (i.wrapping_mul(2654435761) >> 13) as u8).collect();
    match QrMatrix::encode(&payload) {
        Err(GenerateError::QrCode(e)) => assert_eq!(e, QrError::DataTooLong),
        Ok(_) => panic!("payload should not fit"),
    }
    assert!(generate(&payload, RenderTarget::StdoutText).is_err());
    assert!(generate(&payload, RenderTarget::FileImage("out.png".to_string())).is_err());
}

#[test]
fn generate_to_file_gives_raster() {
    match generate(b"HELLO", RenderTarget::FileImage("out.png".to_string())) {
        Ok(Rendered::Image { path, width, pixels }) => {
            assert_eq!(path, "out.png");
            assert_eq!(width, 21);
            assert_eq!(pixels.len(), 441);
        }
        _ => panic!("expected an image"),
    }
}

#[test]
fn generate_to_stdout_gives_text() {
    match generate(b"HELLO", RenderTarget::StdoutText) {
        Ok(Rendered::Text(s)) => {
            assert_eq!(s.split('\n').count(), 21);
            assert_eq!(s, encode_ok(b"HELLO").to_text());
        }
        _ => panic!("expected text"),
    }
}

#[test]
fn text_argument_is_used_directly() {
    let opts = GenerateOptions { text: Some("h\u{e9}llo".to_string()), output: None };
    match opts.source() {
        Source::Direct(t) => assert_eq!(t, "h\u{e9}llo"),
        Source::FromStream => panic!("expected direct text"),
    }
    assert_eq!(opts.source().direct_payload(), Some(vec![0x68, 0xc3, 0xa9, 0x6c, 0x6c, 0x6f]));
    assert!(matches!(opts.target(), RenderTarget::StdoutText));
}

#[test]
fn missing_text_reads_the_stream() {
    let opts = GenerateOptions { text: None, output: Some("code.png".to_string()) };
    assert!(matches!(opts.source(), Source::FromStream));
    assert_eq!(Source::FromStream.direct_payload(), None);
    match opts.target() {
        RenderTarget::FileImage(p) => assert_eq!(p, "code.png"),
        RenderTarget::StdoutText => panic!("expected a file target"),
    }
}

#[test]
fn empty_text_is_a_direct_empty_payload() {
    let opts = GenerateOptions { text: Some(String::new()), output: None };
    assert_eq!(opts.source().direct_payload(), Some(Vec::new()));
    assert!(generate(b"", RenderTarget::StdoutText).is_ok());
}
