use mdsheet::doc::Node;
use mdsheet::format::FormatSpec;
use mdsheet::img::{transform_image, ImageFault};
use mdsheet::layout::{check_wf, layout_document};
use mdsheet::ops::Op;

/// Reduces a parsed Markdown tree to the document model the layout engine
/// renders, as the converter's front end does.
fn convert(md: &markdown::mdast::Node) -> Node {
    match md {
        markdown::mdast::Node::Root(r) => Node::Root {
            children: r.children.iter().map(convert).collect(),
        },
        markdown::mdast::Node::Paragraph(p) => Node::Paragraph {
            children: p.children.iter().map(convert).collect(),
        },
        markdown::mdast::Node::Heading(h) => Node::Heading {
            depth: h.depth,
            children: h.children.iter().map(convert).collect(),
        },
        markdown::mdast::Node::Text(t) => Node::Text { value: t.value.clone() },
        markdown::mdast::Node::Code(c) => Node::Code { value: c.value.clone() },
        markdown::mdast::Node::Emphasis(e) => Node::Emphasis {
            children: e.children.iter().map(convert).collect(),
        },
        markdown::mdast::Node::InlineCode(ic) => Node::InlineCode { value: ic.value.clone() },
        markdown::mdast::Node::Blockquote(b) => Node::BlockQuote {
            children: b.children.iter().map(convert).collect(),
        },
        markdown::mdast::Node::Image(i) => Node::Image { url: i.url.clone() },
        _ => Node::Other,
    }
}

fn parse(source: &str) -> Node {
    let ast = markdown::to_mdast(source, &markdown::ParseOptions::default()).unwrap();
    convert(&ast)
}

#[test]
fn title_and_bold_paragraph_scenario() {
    let doc = parse("# Title\n\nSome *bold* text");
    assert!(check_wf(&doc));
    let ops = layout_document(&doc);
    let h1 = FormatSpec { font_size: Some(20), bold: false, shaded: false };
    let bold = FormatSpec { font_size: None, bold: true, shaded: false };
    assert_eq!(
        ops,
        vec![
            Op::SetColumnWidth { first_col: 0, last_col: 100, width: 3 },
            Op::SetRowHeight { row: 3, height: 28 },
            Op::SetRowHeight { row: 4, height: 28 },
            // Row 3: the heading, at column 6 with the heading-1 preset.
            Op::SetRowHeight { row: 3, height: 28 },
            Op::WriteText { row: 3, col: 6, text: String::from("Title"), format: Some(h1) },
            // Row 4: the paragraph, one inline child every two columns.
            Op::SetRowHeight { row: 4, height: 28 },
            Op::WriteText { row: 4, col: 6, text: String::from("Some "), format: None },
            Op::SetRowHeight { row: 4, height: 28 },
            Op::WriteText { row: 4, col: 8, text: String::from("bold"), format: Some(bold) },
            Op::SetRowHeight { row: 4, height: 28 },
            Op::WriteText { row: 4, col: 10, text: String::from(" text"), format: None },
        ]
    );
}

#[test]
fn unsupported_constructs_are_dropped_silently() {
    let doc = parse("- one\n- two\n\nkept");
    assert!(check_wf(&doc));
    let ops = layout_document(&doc);
    // Two blocks preset; the list renders nothing, the paragraph renders.
    assert_eq!(
        ops,
        vec![
            Op::SetColumnWidth { first_col: 0, last_col: 100, width: 3 },
            Op::SetRowHeight { row: 3, height: 28 },
            Op::SetRowHeight { row: 4, height: 28 },
            Op::SetRowHeight { row: 4, height: 28 },
            Op::WriteText { row: 4, col: 6, text: String::from("kept"), format: None },
        ]
    );
}

#[test]
fn image_only_document_scenario() {
    let doc = Node::Root { children: vec![Node::Image { url: String::from("p.png") }] };
    assert!(check_wf(&doc));
    let ops = layout_document(&doc);
    assert_eq!(
        ops,
        vec![
            Op::SetColumnWidth { first_col: 0, last_col: 100, width: 3 },
            Op::SetRowHeight { row: 3, height: 28 },
            Op::SetRowHeight { row: 3, height: 230 },
            Op::EmbedImage { row: 3, col: 6, path: String::from("p.png") },
        ]
    );
}

#[test]
fn embedded_image_is_exactly_600_by_300() {
    // A small valid PNG of unrelated dimensions...
    let source = image::DynamicImage::new_rgb8(2, 2);
    let mut bytes: Vec<u8> = Vec::new();
    source
        .write_to(&mut std::io::Cursor::new(&mut bytes), image::ImageFormat::Png)
        .unwrap();
    // ...comes back as a PNG stretched to exactly 600 by 300.
    let png = transform_image(&bytes).unwrap();
    assert!(png != bytes);
    let out = image::load_from_memory(&png).unwrap();
    assert_eq!(out.width(), 600);
    assert_eq!(out.height(), 300);
    assert_eq!(image::guess_format(&png).unwrap(), image::ImageFormat::Png);
}

#[test]
fn wide_image_is_stretched_not_fitted() {
    let source = image::DynamicImage::new_rgb8(500, 10);
    let mut bytes: Vec<u8> = Vec::new();
    source
        .write_to(&mut std::io::Cursor::new(&mut bytes), image::ImageFormat::Png)
        .unwrap();
    let png = transform_image(&bytes).unwrap();
    let out = image::load_from_memory(&png).unwrap();
    assert_eq!((out.width(), out.height()), (600, 300));
}

#[test]
fn undecodable_bytes_are_unreadable() {
    let garbage: Vec<u8> = vec![1, 2, 3, 4, 5];
    assert_eq!(transform_image(&garbage), Err(ImageFault::Unreadable));
    let empty: Vec<u8> = vec![];
    assert_eq!(transform_image(&empty), Err(ImageFault::Unreadable));
}
