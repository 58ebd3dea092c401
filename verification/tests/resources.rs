use base64::Engine;
use pdf_render::fonts::{load_font_face, FontTable};
use pdf_render::images::{image_format, load_image, load_image_bytes, ImageFormat};
use pdf_render::model::{default_font, default_image_format, PdfFontDef};

const DEMO_FONT: &str = "AAEAAAAHAEAAAgAwY21hcAAJAHYAAAEAAAAALGdseWbxy2aYAAABNAAAAFxoZWFk8jXd+AAAAHwAAAA2aGhlYQZhAMoAAAC0AAAAJGhtdHgEdABqAAAA+AAAAAhsb2NhAC4AFAAAASwAAAAGbWF4cAAFAAsAAADYAAAAIAABAAAAAQAA9ZwpRF8PPPUAAgPoAAAAALSS9AAAAAAA3C+mXAAGAAACWAK8AAAAAwACAAAAAAAAAAEAAAQA/nAAAAJYAAb//wJYAAEAAAAAAAAAAAAAAAAAAAACAAEAAAACAAsAAgAAAAAAAAAAAAAAAAAAAAAAAAAAAAACWABkAhwABgAAAAEAAAADAAAADAAEACAAAAAEAAQAAQAAAEH//wAAAEH////AAAEAAAAAAAAAFAAuAAAAAgBkAAACWAK8AAMABwAAMxEhESUhESFkAfT+NAGk/lwCvP1EKAJsAAIABgAAAh0CkAACAAoAABMzAwETMxMjJyMHrcRj/vjaYN1ZPu9CAQsBQP21ApD9cMjIAA==";

const ONE_PIXEL_PNG: &str = "iVBORw0KGgoAAAANSUhEUgAAAAEAAAABCAYAAAAfFcSJAAAADUlEQVR42mNkYPhfDwAChwGA60e6kgAAAABJRU5ErkJggg==";

fn def(name: &str, data: &str) -> (String, PdfFontDef) {
    (name.to_string(), PdfFontDef { data: data.to_string() })
}

#[test]
fn default_font_is_empty() {
    assert_eq!(default_font(), "");
}

#[test]
fn default_image_format_is_png() {
    assert_eq!(default_image_format(), "png");
}

#[test]
fn jpeg_names_select_jpeg() {
    assert_eq!(image_format(&"jpeg".to_string()), ImageFormat::Jpeg);
    assert_eq!(image_format(&"jpg".to_string()), ImageFormat::Jpeg);
}

#[test]
fn other_names_select_png() {
    assert_eq!(image_format(&"png".to_string()), ImageFormat::Png);
    assert_eq!(image_format(&"gif".to_string()), ImageFormat::Png);
    assert_eq!(image_format(&"JPEG".to_string()), ImageFormat::Png);
    assert_eq!(image_format(&"".to_string()), ImageFormat::Png);
}

#[test]
fn png_image_loads() {
    assert!(load_image(&ONE_PIXEL_PNG.to_string(), &"png".to_string()).is_some());
    assert!(load_image(&ONE_PIXEL_PNG.to_string(), &"webp".to_string()).is_some());
}

#[test]
fn png_data_declared_jpeg_does_not_load() {
    assert!(load_image(&ONE_PIXEL_PNG.to_string(), &"jpg".to_string()).is_none());
}

#[test]
fn image_with_bad_base64_does_not_load() {
    assert!(load_image(&"not base64!".to_string(), &"png".to_string()).is_none());
    assert!(load_image(&"iVBORw0KGgo".to_string(), &"png".to_string()).is_none());
}

#[test]
fn image_that_is_not_an_image_does_not_load() {
    // "hello world" in Base64
    assert!(load_image(&"aGVsbG8gd29ybGQ=".to_string(), &"png".to_string()).is_none());
}

#[test]
fn font_loads_and_resolves_by_name() {
    let defs = vec![def("demo", DEMO_FONT)];
    let table = FontTable::load(&defs);
    assert_eq!(table.len(), 1);
    assert!(table.resolve(&"demo".to_string()).is_some());
}

#[test]
fn unknown_font_name_falls_back() {
    let defs = vec![def("demo", DEMO_FONT)];
    let table = FontTable::load(&defs);
    let named = table.resolve(&"demo".to_string()).map(|f| f.font().clone());
    let fallback = table.resolve(&"missing".to_string()).map(|f| f.font().clone());
    assert!(fallback.is_some());
    assert!(named == fallback);
}

#[test]
fn broken_fonts_are_skipped() {
    let defs = vec![
        def("bad64", "%%%"),
        def("notfont", ONE_PIXEL_PNG),
        def("demo", DEMO_FONT),
    ];
    let table = FontTable::load(&defs);
    assert_eq!(table.len(), 1);
    assert!(table.resolve(&"bad64".to_string()).is_some());
}

#[test]
fn no_fonts_resolve_to_none() {
    let defs = vec![def("bad64", "%%%"), def("notfont", ONE_PIXEL_PNG)];
    let table = FontTable::load(&defs);
    assert_eq!(table.len(), 0);
    assert!(table.resolve(&"bad64".to_string()).is_none());
    assert!(table.resolve(&"".to_string()).is_none());
}

fn decode(text: &str) -> Vec<u8> {
    base64::engine::general_purpose::STANDARD.decode(text).unwrap()
}

#[test]
fn named_fonts_get_their_own_data() {
    let defs = vec![def("demo", DEMO_FONT), def("other", DEMO_FONT)];
    let table = FontTable::load(&defs);
    assert_eq!(table.len(), 2);
    let expected = load_font_face(decode(DEMO_FONT), 0).map(|f| f.font().clone());
    assert!(expected.is_some());
    assert!(table.resolve(&"other".to_string()).map(|f| f.font().clone()) == expected);
}

#[test]
fn font_face_index_must_exist() {
    assert!(load_font_face(decode(DEMO_FONT), 0).is_some());
    assert!(load_font_face(decode(DEMO_FONT), 3).is_none());
    assert!(load_font_face(decode(ONE_PIXEL_PNG), 0).is_none());
}

#[test]
fn image_bytes_load_in_selected_format() {
    assert!(load_image_bytes(decode(ONE_PIXEL_PNG), &"png".to_string()).is_some());
    assert!(load_image_bytes(decode(ONE_PIXEL_PNG), &"jpeg".to_string()).is_none());
    assert!(load_image_bytes(b"hello world".to_vec(), &"png".to_string()).is_none());
}
