use ldr2pdf::instruction::page::PageTemplate;
use ldr2pdf::instruction::style::{Arrowhead, FontStyle, ImageDisplay};
use ldr2pdf::instruction::{LengthUnit, PaperType};
use ldr2pdf::pdf::color_updates;
use ldr2pdf::resolver::{strip_bom, Resolver};
use ldr2pdf::ldr::Winding;
use ldr2pdf::text::diff_context_line;

#[test]
fn document_model_defaults() {
    assert_eq!(LengthUnit::default(), LengthUnit::Pixels);
    assert_eq!(PaperType::default(), PaperType::A4);
    assert_eq!(PageTemplate::default(), PageTemplate::OneByOne);
    assert_eq!(FontStyle::default(), FontStyle::Normal);
    assert_eq!(ImageDisplay::default(), ImageDisplay::Center);
    assert_eq!(Arrowhead::default(), Arrowhead::TriangleFilled);
}

#[test]
fn byte_order_mark_is_stripped_once() {
    assert_eq!(strip_bom(vec![0xEF, 0xBB, 0xBF, b'0', b' ']), vec![b'0', b' ']);
    assert_eq!(strip_bom(vec![b'0', b' ']), vec![b'0', b' ']);
    assert_eq!(strip_bom(vec![0xEF, 0xBB]), vec![0xEF, 0xBB]);
}

#[test]
fn resolver_serves_the_root_document() {
    let r = Resolver::new(vec![0xEF, 0xBB, 0xBF, b'h', b'i'], "model.ldr".to_owned());
    assert_eq!(r.resolve_root("model.ldr"), Some(vec![b'h', b'i']));
    assert_eq!(r.resolve_root("3005.dat"), None);
}

#[test]
fn search_paths_visit_catalog_in_priority_order() {
    let got = Resolver::candidate_paths("/custom", "/ldraw", "3005.dat");
    assert_eq!(
        got,
        vec![
            "/custom/parts/3005.dat",
            "/ldraw/parts/3005.dat",
            "/ldraw/p/3005.dat",
            "/ldraw/p/8/3005.dat",
            "/ldraw/p/48/3005.dat",
            "/ldraw/p/4/3005.dat",
            "/ldraw/UnOfficial/parts/3005.dat",
            "/ldraw/UnOfficial/p/3005.dat",
            "/ldraw/UnOfficial/p/8/3005.dat",
            "/ldraw/UnOfficial/p/48/3005.dat",
            "/ldraw/UnOfficial/p/4/3005.dat",
        ]
    );
}

#[test]
fn fill_color_changes_only_when_needed() {
    let white = (255, 255, 255);
    let red = (201, 26, 9);
    let black = (5, 19, 29);
    let got = color_updates(&vec![white, red, red, black, red]);
    assert_eq!(got, vec![None, Some(red), None, Some(black), Some(red)]);
}

#[test]
fn diff_position_backs_off_ten_lines() {
    let a: Vec<String> = (0..30).map(|i| format!("line {i}")).collect();
    let mut b = a.clone();
    b[25] = "changed".to_owned();
    let a = a.join("\n");
    let b = b.join("\n");
    assert_eq!(diff_context_line(&a, &b), 15);
    assert_eq!(diff_context_line(&a, &a), 0);
    // A difference near the top cannot back off below the first line.
    let c = a.replacen("line 3", "other", 1);
    assert_eq!(diff_context_line(&a, &c), 0);
}

#[test]
fn winding_flip_is_an_involution() {
    assert_eq!(Winding::Ccw.flip(), Winding::Cw);
    assert_eq!(Winding::Cw.flip(), Winding::Ccw);
    assert_eq!(Winding::Ccw.flip().flip(), Winding::Ccw);
}
