use llm_gateway::document_text::{
    decimal_string, docx_text, pdf_text, slides_deck_text, trim_str, workbook_text, DocBlock,
    Inline, PdfPiece, SheetRows,
};

#[test]
fn docx_paragraphs_and_tables() {
    let blocks = vec![
        DocBlock::Paragraph(vec![
            Inline::Text("Hello".into()),
            Inline::Tab,
            Inline::Text("world  ".into()),
        ]),
        DocBlock::Other,
        DocBlock::Table(vec![
            vec![vec![Inline::Text(" a ".into())], vec![Inline::Text("b".into())]],
            vec![vec![], vec![Inline::Text("d".into()), Inline::Break]],
        ]),
        DocBlock::Paragraph(vec![]),
    ];
    assert_eq!(docx_text(&blocks), "Hello\tworld\na\tb\n\td");
}

#[test]
fn workbook_sheets() {
    let sheets = vec![
        SheetRows {
            name: "One".into(),
            rows: Some(vec![
                vec!["x".into(), "1".into()],
                vec!["".into(), "".into()],
                vec![],
                vec!["".into(), "y".into()],
            ]),
        },
        SheetRows { name: "Broken".into(), rows: None },
    ];
    assert_eq!(workbook_text(&sheets), "--- Sheet: One ---\nx\t1\n\ty\n\n--- Sheet: Broken ---");
}

#[test]
fn pdf_pages() {
    let pages = vec![
        vec![
            PdfPiece::Text("  Title ".into()),
            PdfPiece::EndText,
            PdfPiece::Text("body".into()),
            PdfPiece::Text(" text".into()),
            PdfPiece::EndText,
        ],
        vec![],
        vec![PdfPiece::Text("last".into())],
    ];
    assert_eq!(pdf_text(&pages), "Title\nbody text\nlast");
    assert_eq!(pdf_text(&vec![]), "");
}

#[test]
fn slide_deck() {
    let slides = vec![Some("# Intro\n- point".to_string()), None, Some("![x](y)".to_string())];
    assert_eq!(
        slides_deck_text(&slides),
        "--- Slide 1 ---\nIntro\npoint\n\n\n--- Slide 2 ---\n\n\n--- Slide 3 ---"
    );
}

#[test]
fn decimal_numbers() {
    assert_eq!(decimal_string(0), "0");
    assert_eq!(decimal_string(7), "7");
    assert_eq!(decimal_string(10), "10");
    assert_eq!(decimal_string(12345), "12345");
    assert_eq!(decimal_string(usize::MAX), usize::MAX.to_string());
}

#[test]
fn trim_both_ends() {
    assert_eq!(trim_str(" \t x y \n"), "x y");
    assert_eq!(trim_str("   "), "");
}
