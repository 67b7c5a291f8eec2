use mdsheet::doc::Node;
use mdsheet::format::{
    create_format, create_h1_format, create_h2_format, create_h3_format, create_bold_format,
    create_inline_format, create_quotation_format, create_code_format, font_color, font_family,
    shade_color, FormatSpec, PresetColor,
};
use mdsheet::layout::{check_wf, expand_ast, insert_image, layout_document, write_string};
use mdsheet::ops::Op;

fn text(s: &str) -> Node {
    Node::Text { value: String::from(s) }
}

fn h1() -> FormatSpec {
    FormatSpec { font_size: Some(20), bold: false, shaded: false }
}

fn h2() -> FormatSpec {
    FormatSpec { font_size: Some(16), bold: false, shaded: false }
}

fn h3() -> FormatSpec {
    FormatSpec { font_size: Some(13), bold: false, shaded: false }
}

fn bold() -> FormatSpec {
    FormatSpec { font_size: None, bold: true, shaded: false }
}

fn shaded() -> FormatSpec {
    FormatSpec { font_size: None, bold: false, shaded: true }
}

#[test]
fn presets_are_exact_data() {
    assert_eq!(create_format(), FormatSpec { font_size: None, bold: false, shaded: false });
    assert_eq!(create_h1_format(), h1());
    assert_eq!(create_h2_format(), h2());
    assert_eq!(create_h3_format(), h3());
    assert_eq!(create_bold_format(), bold());
    assert_eq!(create_inline_format(), shaded());
    assert_eq!(create_quotation_format(), shaded());
    assert_eq!(create_code_format(), shaded());
}

#[test]
fn fixed_font_and_colors_are_exact() {
    assert_eq!(font_family(), "\u{30e1}\u{30a4}\u{30ea}\u{30aa}");
    assert_eq!(font_color(), PresetColor::Black);
    assert_eq!(shade_color(), PresetColor::Silver);
}

#[test]
fn blocks_occupy_rows_from_three_in_order() {
    let doc = Node::Root {
        children: vec![
            Node::Heading { depth: 1, children: vec![text("a")] },
            Node::Paragraph { children: vec![text("b")] },
            Node::Code { value: String::from("c") },
        ],
    };
    assert!(check_wf(&doc));
    let ops = layout_document(&doc);
    // The column setup, three preset rows, then each block confined to its row.
    assert_eq!(ops[0], Op::SetColumnWidth { first_col: 0, last_col: 100, width: 3 });
    for i in 0..3u32 {
        assert_eq!(ops[1 + i as usize], Op::SetRowHeight { row: 3 + i, height: 28 });
    }
    let rows: Vec<u32> = ops[4..]
        .iter()
        .map(|op| match op {
            Op::WriteText { row, .. } => *row,
            Op::SetRowHeight { row, .. } => *row,
            Op::EmbedImage { row, .. } => *row,
            Op::SetColumnWidth { .. } => panic!("unexpected column op"),
        })
        .collect();
    assert_eq!(rows, vec![3, 3, 4, 4, 5, 5]);
}

#[test]
fn paragraph_children_step_by_two_columns() {
    let doc = Node::Paragraph { children: vec![text("a"), text("b"), text("c")] };
    assert!(check_wf(&doc));
    let ops = expand_ast(&doc, 0, 9, None);
    let cols: Vec<u16> = ops
        .iter()
        .filter_map(|op| match op {
            Op::WriteText { col, .. } => Some(*col),
            _ => None,
        })
        .collect();
    assert_eq!(cols, vec![6, 8, 10]);
}

#[test]
fn layout_is_deterministic() {
    let doc = Node::Root {
        children: vec![
            Node::Heading { depth: 2, children: vec![text("t")] },
            Node::Paragraph { children: vec![text("x"), Node::Emphasis { children: vec![text("y")] }] },
            Node::Image { url: String::from("p.png") },
        ],
    };
    let first = layout_document(&doc);
    let second = layout_document(&doc);
    assert_eq!(first, second);
}

#[test]
fn single_line_text_gets_height_28() {
    let ops = write_string(&String::from("hello"), 0, 5, None);
    assert_eq!(
        ops,
        vec![
            Op::SetRowHeight { row: 5, height: 28 },
            Op::WriteText { row: 5, col: 6, text: String::from("hello"), format: None },
        ]
    );
}

#[test]
fn row_height_is_28_plus_8_per_newline() {
    let ops = write_string(&String::from("a\nb\nc"), 0, 7, None);
    assert_eq!(ops[0], Op::SetRowHeight { row: 7, height: 44 });
}

#[test]
fn newlines_counted_in_multibyte_text() {
    // Non-ASCII neighbours must not disturb the newline count.
    let ops = write_string(&String::from("\u{e1}\n\u{65e5}"), 0, 3, None);
    assert_eq!(ops[0], Op::SetRowHeight { row: 3, height: 36 });
}

#[test]
fn image_rows_get_height_230() {
    let ops = insert_image(&String::from("pic.png"), 4);
    assert_eq!(
        ops,
        vec![
            Op::SetRowHeight { row: 4, height: 230 },
            Op::EmbedImage { row: 4, col: 6, path: String::from("pic.png") },
        ]
    );
}

#[test]
fn heading_depth_selects_preset() {
    for (depth, preset) in [(1u8, h1()), (2, h2()), (3, h3()), (6, h3())] {
        let doc = Node::Heading { depth, children: vec![text("t")] };
        let ops = expand_ast(&doc, 0, 3, None);
        assert_eq!(
            ops[1],
            Op::WriteText { row: 3, col: 6, text: String::from("t"), format: Some(preset) }
        );
    }
}

#[test]
fn heading_renders_only_first_child() {
    let doc = Node::Heading { depth: 1, children: vec![text("kept"), text("dropped")] };
    let ops = expand_ast(&doc, 0, 3, None);
    assert_eq!(ops.len(), 2);
    assert_eq!(
        ops[1],
        Op::WriteText { row: 3, col: 6, text: String::from("kept"), format: Some(h1()) }
    );
}

#[test]
fn empty_containers_render_nothing() {
    for doc in [
        Node::Heading { depth: 1, children: vec![] },
        Node::Emphasis { children: vec![] },
        Node::BlockQuote { children: vec![] },
        Node::Other,
    ] {
        assert_eq!(expand_ast(&doc, 0, 3, None).len(), 0);
    }
}

#[test]
fn code_block_writes_at_column_six_with_code_preset() {
    // A code block resets the column to 0 whatever was inherited.
    let doc = Node::Code { value: String::from("let x = 1;") };
    let ops = expand_ast(&doc, 40, 5, None);
    assert_eq!(
        ops[1],
        Op::WriteText { row: 5, col: 6, text: String::from("let x = 1;"), format: Some(shaded()) }
    );
}

#[test]
fn inline_code_keeps_column_with_inline_preset() {
    let doc = Node::Paragraph { children: vec![text("see"), Node::InlineCode { value: String::from("x") }] };
    let ops = expand_ast(&doc, 0, 5, None);
    assert_eq!(
        ops[3],
        Op::WriteText { row: 5, col: 8, text: String::from("x"), format: Some(shaded()) }
    );
}

#[test]
fn emphasis_overrides_inherited_quotation_format() {
    // Emphasis inside a quote loses the quote's shading: bold wins.
    let doc = Node::BlockQuote {
        children: vec![Node::Paragraph {
            children: vec![text("q"), Node::Emphasis { children: vec![text("loud")] }],
        }],
    };
    let ops = expand_ast(&doc, 0, 6, None);
    assert_eq!(
        ops[1],
        Op::WriteText { row: 6, col: 6, text: String::from("q"), format: Some(shaded()) }
    );
    assert_eq!(
        ops[3],
        Op::WriteText { row: 6, col: 8, text: String::from("loud"), format: Some(bold()) }
    );
}

#[test]
fn blockquote_renders_only_first_child_at_column_zero() {
    let doc = Node::BlockQuote { children: vec![text("kept"), text("dropped")] };
    let ops = expand_ast(&doc, 8, 6, None);
    assert_eq!(ops.len(), 2);
    assert_eq!(
        ops[1],
        Op::WriteText { row: 6, col: 6, text: String::from("kept"), format: Some(shaded()) }
    );
}

#[test]
fn empty_document_sets_up_sheet_only() {
    let doc = Node::Root { children: vec![] };
    let ops = layout_document(&doc);
    assert_eq!(ops, vec![Op::SetColumnWidth { first_col: 0, last_col: 100, width: 3 }]);
}

#[test]
fn check_wf_rejects_oversized_paragraphs() {
    // A paragraph so wide that a child's column would overflow the writer's
    // 16-bit column type.
    let children: Vec<Node> = (0..32766).map(|_| Node::Other).collect();
    let doc = Node::Root { children: vec![Node::Paragraph { children }] };
    assert!(!check_wf(&doc));
}

#[test]
fn check_wf_accepts_ordinary_documents() {
    let doc = Node::Root {
        children: vec![
            Node::Heading { depth: 1, children: vec![text("t")] },
            Node::BlockQuote { children: vec![Node::Paragraph { children: vec![text("q")] }] },
        ],
    };
    assert!(check_wf(&doc));
}
