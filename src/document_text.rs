//! The text of extracted documents, assembled from what the parsers read:
//! the paragraphs and tables of a word-processing document, the cells of a
//! workbook, the text operations of PDF pages, and the slides of a deck.
use vstd::prelude::*;
use crate::text::{chars_of, owned, string_of};
use crate::text_cleanup::{
    end_trimmed, join_lines, join_trimmed_lines, keep_non_blank_lines, lines, markdown_text,
    non_blank_trimmed, strip_markdown, trim,
};

verus! {

/// The lines joined with `sep` between each two.
pub open spec fn join_sep(ls: Seq<Seq<char>>, sep: Seq<char>) -> Seq<char>
    decreases ls.len(),
{
    if ls.len() == 0 {
        Seq::empty()
    } else if ls.len() == 1 {
        ls[0]
    } else {
        join_sep(ls.drop_last(), sep) + sep + ls.last()
    }
}

proof fn lemma_join_sep_push(ls: Seq<Seq<char>>, sep: Seq<char>, l: Seq<char>)
    ensures
        join_sep(ls.push(l), sep) == if ls.len() == 0 {
            l
        } else {
            join_sep(ls, sep) + sep + l
        },
{
    assert(ls.push(l).drop_last() =~= ls);
    if ls.len() == 0 {
        assert(ls.push(l)[0] == l);
    }
}

/// `s` without leading and trailing white space.
pub fn trim_str(s: &str) -> (r: String)
    ensures
        r@ == trim(s@),
{
    let v = chars_of(s);
    let t = crate::text_cleanup::trimmed(&v);
    string_of(t.as_slice())
}

/// A piece of a paragraph: text, a tab or a line break.
#[derive(Debug)]
pub enum Inline {
    Text(String),
    Tab,
    Break,
}

/// A top-level element of a word-processing document: a paragraph, a table
/// given as rows of cells of pieces, or anything else (which has no text).
#[derive(Debug)]
pub enum DocBlock {
    Paragraph(Vec<Inline>),
    Table(Vec<Vec<Vec<Inline>>>),
    Other,
}

pub open spec fn inline_text(i: Inline) -> Seq<char> {
    match i {
        Inline::Text(t) => t@,
        Inline::Tab => seq!['\t'],
        Inline::Break => seq!['\n'],
    }
}

pub open spec fn inlines_text(s: Seq<Inline>) -> Seq<char>
    decreases s.len(),
{
    if s.len() == 0 {
        Seq::empty()
    } else {
        inlines_text(s.drop_last()) + inline_text(s.last())
    }
}

/// The trimmed text of each cell.
pub open spec fn cell_texts(cells: Seq<Vec<Inline>>) -> Seq<Seq<char>>
    decreases cells.len(),
{
    if cells.len() == 0 {
        Seq::empty()
    } else {
        cell_texts(cells.drop_last()).push(trim(inlines_text(cells.last()@)))
    }
}

/// Each row: its cells' trimmed texts joined by tabs, then a newline.
pub open spec fn rows_text(rows: Seq<Vec<Vec<Inline>>>) -> Seq<char>
    decreases rows.len(),
{
    if rows.len() == 0 {
        Seq::empty()
    } else {
        rows_text(rows.drop_last()) + join_sep(cell_texts(rows.last()@), seq!['\t']) + seq!['\n']
    }
}

pub open spec fn block_text(b: DocBlock) -> Seq<char> {
    match b {
        DocBlock::Paragraph(p) => inlines_text(p@) + seq!['\n'],
        DocBlock::Table(rows) => rows_text(rows@) + seq!['\n'],
        DocBlock::Other => Seq::empty(),
    }
}

pub open spec fn blocks_text(bs: Seq<DocBlock>) -> Seq<char>
    decreases bs.len(),
{
    if bs.len() == 0 {
        Seq::empty()
    } else {
        blocks_text(bs.drop_last()) + block_text(bs.last())
    }
}

/// Text after the cleanup that documents get: trailing white space cut from
/// each line, lines joined by newlines, the whole trimmed.
pub open spec fn tidy(s: Seq<char>) -> Seq<char> {
    trim(join_lines(end_trimmed(lines(s))))
}

fn push_inlines(out: &mut String, items: &Vec<Inline>)
    ensures
        final(out)@ == old(out)@ + inlines_text(items@),
{
    let mut i: usize = 0;
    while i < items.len()
        invariant
            i <= items@.len(),
            out@ == old(out)@ + inlines_text(items@.take(i as int)),
        decreases items@.len() - i,
    {
        proof {
            assert(items@.take(i + 1).drop_last() =~= items@.take(i as int));
            assert(items@.take(i + 1).last() == items@[i as int]);
        }
        match &items[i] {
            Inline::Text(t) => out.append(t.as_str()),
            Inline::Tab => out.append("\t"),
            Inline::Break => out.append("\n"),
        }
        proof {
            reveal_strlit("\t");
            reveal_strlit("\n");
            assert(out@ =~= old(out)@ + inlines_text(items@.take(i + 1)));
        }
        i = i + 1;
    }
    proof {
        assert(items@.take(items@.len() as int) =~= items@);
    }
}

fn push_rows(out: &mut String, rows: &Vec<Vec<Vec<Inline>>>)
    ensures
        final(out)@ == old(out)@ + rows_text(rows@),
{
    let mut r: usize = 0;
    while r < rows.len()
        invariant
            r <= rows@.len(),
            out@ == old(out)@ + rows_text(rows@.take(r as int)),
        decreases rows@.len() - r,
    {
        let cells = &rows[r];
        let mut row = String::new();
        let mut c: usize = 0;
        while c < cells.len()
            invariant
                c <= cells@.len(),
                row@ == join_sep(cell_texts(cells@.take(c as int)), seq!['\t']),
            decreases cells@.len() - c,
        {
            let mut cell = String::new();
            push_inlines(&mut cell, &cells[c]);
            let t = trim_str(cell.as_str());
            proof {
                assert(cells@.take(c + 1).drop_last() =~= cells@.take(c as int));
                assert(cells@.take(c + 1).last() == cells@[c as int]);
                assert(cell@ =~= inlines_text(cells@[c as int]@));
                lemma_join_sep_push(cell_texts(cells@.take(c as int)), seq!['\t'], t@);
                lemma_cell_texts_len(cells@.take(c as int));
                reveal_strlit("\t");
            }
            if c > 0 {
                row.append("\t");
            }
            row.append(t.as_str());
            c = c + 1;
        }
        proof {
            assert(cells@.take(cells@.len() as int) =~= cells@);
            assert(rows@.take(r + 1).drop_last() =~= rows@.take(r as int));
            assert(rows@.take(r + 1).last() == rows@[r as int]);
            reveal_strlit("\n");
        }
        out.append(row.as_str());
        out.append("\n");
        proof {
            assert(out@ =~= old(out)@ + rows_text(rows@.take(r + 1)));
        }
        r = r + 1;
    }
    proof {
        assert(rows@.take(rows@.len() as int) =~= rows@);
    }
}

proof fn lemma_cell_texts_len(cells: Seq<Vec<Inline>>)
    ensures
        cell_texts(cells).len() == cells.len(),
    decreases cells.len(),
{
    if cells.len() > 0 {
        lemma_cell_texts_len(cells.drop_last());
    }
}

/// The text of a word-processing document: each paragraph's pieces then a
/// newline; each table row's trimmed cells joined by tabs then a newline,
/// and a newline after the table; then the cleanup of `tidy`.
pub fn docx_text(blocks: &Vec<DocBlock>) -> (r: String)
    ensures
        r@ == tidy(blocks_text(blocks@)),
{
    let mut out = String::new();
    let mut i: usize = 0;
    while i < blocks.len()
        invariant
            i <= blocks@.len(),
            out@ == blocks_text(blocks@.take(i as int)),
        decreases blocks@.len() - i,
    {
        proof {
            assert(blocks@.take(i + 1).drop_last() =~= blocks@.take(i as int));
            assert(blocks@.take(i + 1).last() == blocks@[i as int]);
            reveal_strlit("\n");
        }
        let ghost before = out@;
        match &blocks[i] {
            DocBlock::Paragraph(p) => {
                push_inlines(&mut out, p);
                out.append("\n");
            },
            DocBlock::Table(rows) => {
                push_rows(&mut out, rows);
                out.append("\n");
            },
            DocBlock::Other => {},
        }
        proof {
            assert(out@ =~= before + block_text(blocks@[i as int]));
        }
        i = i + 1;
    }
    proof {
        assert(blocks@.take(blocks@.len() as int) =~= blocks@);
    }
    join_trimmed_lines(out.as_str())
}

/// One sheet of a workbook: its name and, where it could be read, its rows
/// of cell texts.
#[derive(Debug)]
pub struct SheetRows {
    pub name: String,
    pub rows: Option<Vec<Vec<String>>>,
}

pub open spec fn texts(row: Seq<String>) -> Seq<Seq<char>>
    decreases row.len(),
{
    if row.len() == 0 {
        Seq::empty()
    } else {
        texts(row.drop_last()).push(row.last()@)
    }
}

pub open spec fn all_empty(row: Seq<String>) -> bool {
    forall|j: int| 0 <= j < row.len() ==> (#[trigger] row[j])@.len() == 0
}

/// The rows that hold some text, each as its cells joined by tabs, then a
/// newline.
pub open spec fn sheet_rows_text(rows: Seq<Vec<String>>) -> Seq<char>
    decreases rows.len(),
{
    if rows.len() == 0 {
        Seq::empty()
    } else {
        sheet_rows_text(rows.drop_last()) + if all_empty(rows.last()@) {
            Seq::empty()
        } else {
            join_sep(texts(rows.last()@), seq!['\t']) + seq!['\n']
        }
    }
}

pub open spec fn sheet_text(s: SheetRows) -> Seq<char> {
    "--- Sheet: "@ + s.name@ + " ---\n"@ + match s.rows {
        Some(r) => sheet_rows_text(r@),
        None => Seq::empty(),
    } + seq!['\n']
}

pub open spec fn sheets_text(s: Seq<SheetRows>) -> Seq<char>
    decreases s.len(),
{
    if s.len() == 0 {
        Seq::empty()
    } else {
        sheets_text(s.drop_last()) + sheet_text(s.last())
    }
}

proof fn lemma_texts_len(row: Seq<String>)
    ensures
        texts(row).len() == row.len(),
    decreases row.len(),
{
    if row.len() > 0 {
        lemma_texts_len(row.drop_last());
    }
}

fn push_sheet_rows(out: &mut String, rows: &Vec<Vec<String>>)
    ensures
        final(out)@ == old(out)@ + sheet_rows_text(rows@),
{
    let mut r: usize = 0;
    while r < rows.len()
        invariant
            r <= rows@.len(),
            out@ == old(out)@ + sheet_rows_text(rows@.take(r as int)),
        decreases rows@.len() - r,
    {
        let row = &rows[r];
        let mut line = String::new();
        let mut empty = true;
        let mut c: usize = 0;
        while c < row.len()
            invariant
                c <= row@.len(),
                line@ == join_sep(texts(row@.take(c as int)), seq!['\t']),
                empty == all_empty(row@.take(c as int)),
            decreases row@.len() - c,
        {
            proof {
                assert(row@.take(c + 1).drop_last() =~= row@.take(c as int));
                assert(row@.take(c + 1).last() == row@[c as int]);
                lemma_join_sep_push(texts(row@.take(c as int)), seq!['\t'], row@[c as int]@);
                lemma_texts_len(row@.take(c as int));
                reveal_strlit("\t");
            }
            if c > 0 {
                line.append("\t");
            }
            line.append(row[c].as_str());
            if row[c].as_str().unicode_len() > 0 {
                empty = false;
            }
            proof {
                let t = row@.take(c + 1);
                if !empty {
                    if row@[c as int]@.len() > 0 {
                        assert(t[c as int] == row@[c as int]);
                    } else {
                        let j = choose|j: int| 0 <= j < c && (#[trigger] row@.take(c as int)[j])@.len() != 0;
                        assert(t[j] == row@.take(c as int)[j]);
                    }
                } else {
                    assert forall|j: int| 0 <= j < t.len() implies (#[trigger] t[j])@.len() == 0 by {
                        if j < c {
                            assert(t[j] == row@.take(c as int)[j]);
                        }
                    }
                }
            }
            c = c + 1;
        }
        proof {
            assert(row@.take(row@.len() as int) =~= row@);
            assert(rows@.take(r + 1).drop_last() =~= rows@.take(r as int));
            assert(rows@.take(r + 1).last() == rows@[r as int]);
            reveal_strlit("\n");
        }
        let ghost before = out@;
        if !empty {
            out.append(line.as_str());
            out.append("\n");
        }
        proof {
            assert(out@ =~= old(out)@ + sheet_rows_text(rows@.take(r + 1)));
        }
        r = r + 1;
    }
    proof {
        assert(rows@.take(rows@.len() as int) =~= rows@);
    }
}

/// The text of a workbook: for each sheet a header naming it, the rows that
/// hold some text, and a blank line; then the cleanup of `tidy`.
pub fn workbook_text(sheets: &Vec<SheetRows>) -> (r: String)
    ensures
        r@ == tidy(sheets_text(sheets@)),
{
    let mut out = String::new();
    let mut i: usize = 0;
    while i < sheets.len()
        invariant
            i <= sheets@.len(),
            out@ == sheets_text(sheets@.take(i as int)),
        decreases sheets@.len() - i,
    {
        proof {
            assert(sheets@.take(i + 1).drop_last() =~= sheets@.take(i as int));
            assert(sheets@.take(i + 1).last() == sheets@[i as int]);
            reveal_strlit("\n");
        }
        let ghost before = out@;
        let sheet = &sheets[i];
        out.append("--- Sheet: ");
        out.append(sheet.name.as_str());
        out.append(" ---\n");
        match &sheet.rows {
            Some(rows) => push_sheet_rows(&mut out, rows),
            None => {},
        }
        out.append("\n");
        proof {
            assert(out@ =~= before + sheet_text(sheets@[i as int]));
        }
        i = i + 1;
    }
    proof {
        assert(sheets@.take(sheets@.len() as int) =~= sheets@);
    }
    join_trimmed_lines(out.as_str())
}

/// What a PDF page's content says: drawn text, or the end of a text object.
#[derive(Debug)]
pub enum PdfPiece {
    Text(String),
    EndText,
}

pub open spec fn pdf_pieces_text(p: Seq<PdfPiece>) -> Seq<char>
    decreases p.len(),
{
    if p.len() == 0 {
        Seq::empty()
    } else {
        pdf_pieces_text(p.drop_last()) + match p.last() {
            PdfPiece::Text(t) => t@,
            PdfPiece::EndText => seq!['\n'],
        }
    }
}

pub open spec fn pdf_pages_text(pages: Seq<Vec<PdfPiece>>) -> Seq<char>
    decreases pages.len(),
{
    if pages.len() == 0 {
        Seq::empty()
    } else {
        pdf_pages_text(pages.drop_last()) + pdf_pieces_text(pages.last()@) + "\n\n"@
    }
}

/// The text of a PDF: each page's drawn text, a newline at the end of each
/// text object and a blank line after each page; then each line trimmed and
/// the blank ones dropped.
pub fn pdf_text(pages: &Vec<Vec<PdfPiece>>) -> (r: String)
    ensures
        r@ == join_lines(non_blank_trimmed(lines(pdf_pages_text(pages@)))),
{
    let mut out = String::new();
    let mut i: usize = 0;
    while i < pages.len()
        invariant
            i <= pages@.len(),
            out@ == pdf_pages_text(pages@.take(i as int)),
        decreases pages@.len() - i,
    {
        let page = &pages[i];
        let ghost before = out@;
        let mut k: usize = 0;
        while k < page.len()
            invariant
                k <= page@.len(),
                out@ == before + pdf_pieces_text(page@.take(k as int)),
            decreases page@.len() - k,
        {
            proof {
                assert(page@.take(k + 1).drop_last() =~= page@.take(k as int));
                assert(page@.take(k + 1).last() == page@[k as int]);
                reveal_strlit("\n");
            }
            match &page[k] {
                PdfPiece::Text(t) => out.append(t.as_str()),
                PdfPiece::EndText => out.append("\n"),
            }
            proof {
                assert(out@ =~= before + pdf_pieces_text(page@.take(k + 1)));
            }
            k = k + 1;
        }
        proof {
            assert(page@.take(page@.len() as int) =~= page@);
            assert(pages@.take(i + 1).drop_last() =~= pages@.take(i as int));
            assert(pages@.take(i + 1).last() == pages@[i as int]);
        }
        out.append("\n\n");
        proof {
            assert(out@ =~= pdf_pages_text(pages@.take(i + 1)));
        }
        i = i + 1;
    }
    proof {
        assert(pages@.take(pages@.len() as int) =~= pages@);
    }
    keep_non_blank_lines(out.as_str())
}

pub open spec fn digit_char(d: nat) -> char {
    if d == 0 {
        '0'
    } else if d == 1 {
        '1'
    } else if d == 2 {
        '2'
    } else if d == 3 {
        '3'
    } else if d == 4 {
        '4'
    } else if d == 5 {
        '5'
    } else if d == 6 {
        '6'
    } else if d == 7 {
        '7'
    } else if d == 8 {
        '8'
    } else {
        '9'
    }
}

/// The decimal digits of `n`.
pub open spec fn decimal(n: nat) -> Seq<char>
    decreases n,
{
    if n < 10 {
        seq![digit_char(n)]
    } else {
        decimal(n / 10).push(digit_char(n % 10))
    }
}

fn digit(d: usize) -> (c: char)
    requires
        d < 10,
    ensures
        c == digit_char(d as nat),
{
    if d == 0 {
        '0'
    } else if d == 1 {
        '1'
    } else if d == 2 {
        '2'
    } else if d == 3 {
        '3'
    } else if d == 4 {
        '4'
    } else if d == 5 {
        '5'
    } else if d == 6 {
        '6'
    } else if d == 7 {
        '7'
    } else if d == 8 {
        '8'
    } else {
        '9'
    }
}

fn push_decimal(out: &mut Vec<char>, n: usize)
    ensures
        final(out)@ == old(out)@ + decimal(n as nat),
    decreases n,
{
    if n >= 10 {
        push_decimal(out, n / 10);
    }
    out.push(digit(n % 10));
    proof {
        assert(out@ =~= old(out)@ + decimal(n as nat));
    }
}

/// `n` written in decimal.
pub fn decimal_string(n: usize) -> (r: String)
    ensures
        r@ == decimal(n as nat),
{
    let mut v: Vec<char> = Vec::new();
    push_decimal(&mut v, n);
    proof {
        assert(v@ =~= decimal(n as nat));
    }
    string_of(v.as_slice())
}

/// Slide `i` (counted from zero): a header with its number counted from
/// one, its Markdown as plain text where it could be converted, and a
/// blank line.
pub open spec fn slide_text(i: nat, md: Option<String>) -> Seq<char> {
    "--- Slide "@ + decimal(i + 1) + " ---\n"@ + match md {
        Some(m) => markdown_text(lines(m@)),
        None => Seq::empty(),
    } + "\n\n"@
}

pub open spec fn slides_text(s: Seq<Option<String>>) -> Seq<char>
    decreases s.len(),
{
    if s.len() == 0 {
        Seq::empty()
    } else {
        slides_text(s.drop_last()) + slide_text((s.len() - 1) as nat, s.last())
    }
}

/// The text of a deck from each slide's Markdown (none where a slide could
/// not be converted); then the cleanup of `tidy`.
pub fn slides_deck_text(slides: &Vec<Option<String>>) -> (r: String)
    ensures
        r@ == tidy(slides_text(slides@)),
{
    let mut out = String::new();
    let mut i: usize = 0;
    while i < slides.len()
        invariant
            i <= slides@.len(),
            out@ == slides_text(slides@.take(i as int)),
        decreases slides@.len() - i,
    {
        proof {
            assert(slides@.take(i + 1).drop_last() =~= slides@.take(i as int));
            assert(slides@.take(i + 1).last() == slides@[i as int]);
        }
        let ghost before = out@;
        out.append("--- Slide ");
        let number = decimal_string(i + 1);
        out.append(number.as_str());
        out.append(" ---\n");
        match &slides[i] {
            Some(md) => {
                let plain = strip_markdown(md.as_str());
                out.append(plain.as_str());
            },
            None => {},
        }
        out.append("\n\n");
        proof {
            assert(out@ =~= before + slide_text(i as nat, slides@[i as int]));
        }
        i = i + 1;
    }
    proof {
        assert(slides@.take(slides@.len() as int) =~= slides@);
    }
    join_trimmed_lines(out.as_str())
}

} // verus!
