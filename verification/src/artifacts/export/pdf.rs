//! The layout of exports as PDF files.

use vstd::prelude::*;
use vstd::string::*;

use crate::artifacts::export::document::{
    document_lines, line_views, render_document_body_styled_lines, DocumentView, ExportDocument,
    ExportStyledLine, LineView,
};
use crate::artifacts::export::speakers::{parse_hex_rgb, rgb};
use crate::artifacts::words::{wrap_pdf_text_line, wrapped_lines, wrapping_keeps_the_text, flat, ink};
use crate::text::views;

verus! {

/// The left edge of the text, in points.
pub const PDF_LEFT_X: i128 = 28;

/// The height of the first line of a title.
pub const PDF_TITLE_Y: i128 = 810;

/// The greatest height of the first line of the body below a title.
pub const PDF_BODY_START_Y: i128 = 780;

/// The height of the first line of a further page.
pub const PDF_NEW_PAGE_BODY_START_Y: i128 = 810;

/// The least height of a line.
pub const PDF_BOTTOM_Y: i128 = 42;

/// The distance between lines of the body.
pub const PDF_LINE_HEIGHT: i128 = 14;

/// The distance between lines of a title.
pub const PDF_TITLE_LINE_HEIGHT: i128 = 24;

/// The most characters of a line of the body.
pub const PDF_BODY_MAX_CHARS: usize = 96;

/// The most characters of a line of a title.
pub const PDF_TITLE_MAX_CHARS: usize = 72;

/// What a page shows when a document has no lines.
pub const PDF_NO_CONTENT: &'static str = "No content available for export.";

/// An operation on a page.
#[derive(Debug)]
pub enum PdfOp {
    StartTextSection,
    EndTextSection,
    /// The size of the font, in points.
    SetFontSize(u8),
    /// The place of the next text, in points.
    MoveTo { x: i128, y: i128 },
    /// The colour of the next text; that of ordinary text when there is none.
    SetFillColor(Option<(u8, u8, u8)>),
    WriteText(String),
}

/// The content of a [`PdfOp`].
pub enum PdfOpView {
    StartTextSection,
    EndTextSection,
    SetFontSize(int),
    MoveTo { x: int, y: int },
    SetFillColor(Option<(int, int, int)>),
    WriteText(Seq<char>),
}

impl View for PdfOp {
    type V = PdfOpView;

    open spec fn view(&self) -> PdfOpView {
        match self {
            PdfOp::StartTextSection => PdfOpView::StartTextSection,
            PdfOp::EndTextSection => PdfOpView::EndTextSection,
            PdfOp::SetFontSize(size) => PdfOpView::SetFontSize(*size as int),
            PdfOp::MoveTo { x, y } => PdfOpView::MoveTo { x: *x as int, y: *y as int },
            PdfOp::SetFillColor(color) => PdfOpView::SetFillColor(
                match color {
                    Some((r, g, b)) => Some((*r as int, *g as int, *b as int)),
                    None => None,
                },
            ),
            PdfOp::WriteText(text) => PdfOpView::WriteText(text@),
        }
    }
}

/// The contents of a list of operations.
pub open spec fn op_views(v: Seq<PdfOp>) -> Seq<PdfOpView> {
    v.map_values(|o: PdfOp| o@)
}

/// The contents of pages.
pub open spec fn page_views(v: Seq<Vec<PdfOp>>) -> Seq<Seq<PdfOpView>> {
    v.map_values(|p: Vec<PdfOp>| op_views(p@))
}

fn push_op(ops: &mut Vec<PdfOp>, op: PdfOp)
    ensures
        op_views(final(ops)@) == op_views(old(ops)@).push(op@),
{
    ops.push(op);
    assert(op_views(ops@) =~= op_views(old(ops)@).push(op@));
}

// ---------------------------------------------------------------------------
// How pages begin
// ---------------------------------------------------------------------------

/// The operations of the first `n` lines of a title.
pub open spec fn title_ops(list: Seq<Seq<char>>, n: int) -> Seq<PdfOpView>
    decreases n,
{
    if n <= 0 {
        Seq::empty()
    } else {
        title_ops(list, n - 1) + seq![
            PdfOpView::MoveTo {
                x: PDF_LEFT_X as int,
                y: PDF_TITLE_Y - (n - 1) * PDF_TITLE_LINE_HEIGHT,
            },
            PdfOpView::WriteText(list[n - 1]),
        ]
    }
}

/// The operations at the beginning of a page, with the title on the first one.
pub open spec fn page_start(title: Option<Seq<char>>) -> Seq<PdfOpView> {
    match title {
        Some(t) => {
            let list = wrapped_lines(t, PDF_TITLE_MAX_CHARS as nat);
            seq![PdfOpView::StartTextSection, PdfOpView::SetFontSize(20)] + title_ops(
                list,
                list.len() as int,
            ) + seq![PdfOpView::SetFontSize(11)]
        },
        None => seq![PdfOpView::StartTextSection, PdfOpView::SetFontSize(11)],
    }
}

/// The height of the first line of a page's body.
pub open spec fn start_height(title: Option<Seq<char>>) -> int {
    match title {
        Some(t) => {
            let n = wrapped_lines(t, PDF_TITLE_MAX_CHARS as nat).len();
            let below = PDF_TITLE_Y - n * PDF_TITLE_LINE_HEIGHT - 6;
            if below < PDF_BODY_START_Y {
                below
            } else {
                PDF_BODY_START_Y as int
            }
        },
        None => PDF_NEW_PAGE_BODY_START_Y as int,
    }
}

/// Begins a page, and gives the height of the first line of its body.
pub fn start_pdf_page_ops(title: Option<&str>) -> (r: (Vec<PdfOp>, i128))
    ensures
        ({
            let t = match title {
                Some(s) => Some(s@),
                None => None,
            };
            &&& op_views(r.0@) == page_start(t)
            &&& r.1 == start_height(t)
        }),
        r.1 <= PDF_NEW_PAGE_BODY_START_Y,
{
    let mut ops: Vec<PdfOp> = Vec::new();
    assert(op_views(ops@) =~= Seq::<PdfOpView>::empty());
    push_op(&mut ops, PdfOp::StartTextSection);
    let mut body_y: i128 = PDF_NEW_PAGE_BODY_START_Y;
    if let Some(text) = title {
        push_op(&mut ops, PdfOp::SetFontSize(20));
        let list: Vec<String> = wrap_pdf_text_line(text, PDF_TITLE_MAX_CHARS);
        let ghost all = wrapped_lines(text@, PDF_TITLE_MAX_CHARS as nat);
        let ghost head = op_views(ops@);
        let mut i: usize = 0;
        while i < list.len()
            invariant
                i <= list@.len(),
                views(list@) == all,
                op_views(ops@) =~= head + title_ops(all, i as int),
            decreases list@.len() - i,
        {
            let y: i128 = PDF_TITLE_Y - i as i128 * PDF_TITLE_LINE_HEIGHT;
            push_op(&mut ops, PdfOp::MoveTo { x: PDF_LEFT_X, y });
            assert(all[i as int] == list@[i as int]@);
            push_op(&mut ops, PdfOp::WriteText(list[i].clone()));
            i = i + 1;
        }
        assert(views(list@).len() == list@.len());
        let below: i128 = PDF_TITLE_Y - i as i128 * PDF_TITLE_LINE_HEIGHT - 6;
        body_y = if below < PDF_BODY_START_Y {
            below
        } else {
            PDF_BODY_START_Y
        };
    }
    push_op(&mut ops, PdfOp::SetFontSize(11));
    proof {
        let t = match title {
            Some(s) => Some(s@),
            None => None,
        };
        assert(op_views(ops@) =~= page_start(t));
    }
    (ops, body_y)
}

// ---------------------------------------------------------------------------
// Rows
// ---------------------------------------------------------------------------

/// The colour of a row.
pub open spec fn row_color(line: LineView) -> Option<(int, int, int)> {
    match line.speaker_color {
        Some(c) => rgb(c),
        None => None,
    }
}

/// The operations that write a row.
pub open spec fn row_ops(row: LineView, y: int) -> Seq<PdfOpView> {
    seq![
        PdfOpView::MoveTo { x: PDF_LEFT_X as int, y },
        PdfOpView::SetFillColor(row_color(row)),
        PdfOpView::WriteText(row.text),
    ]
}

/// Writes a row.
pub fn write_pdf_line(ops: &mut Vec<PdfOp>, line: &str, y: i128, speaker_color: Option<&str>)
    ensures
        op_views(final(ops)@) == op_views(old(ops)@) + row_ops(
            LineView {
                text: line@,
                speaker_color: match speaker_color {
                    Some(c) => Some(c@),
                    None => None,
                },
            },
            y as int,
        ),
{
    push_op(ops, PdfOp::MoveTo { x: PDF_LEFT_X, y });
    let color: Option<(u8, u8, u8)> = match speaker_color {
        Some(c) => parse_hex_rgb(c),
        None => None,
    };
    push_op(ops, PdfOp::SetFillColor(color));
    push_op(ops, PdfOp::WriteText(line.to_owned()));
    proof {
        let row = LineView {
            text: line@,
            speaker_color: match speaker_color {
                Some(c) => Some(c@),
                None => None,
            },
        };
        assert(op_views(ops@) =~= op_views(old(ops)@) + row_ops(row, y as int));
    }
}

/// A row in a colour.
pub open spec fn colored(text: Seq<char>, speaker_color: Option<Seq<char>>) -> LineView {
    LineView { text, speaker_color }
}

/// The rows of the first `n` lines: each line wrapped, in its colour.
pub open spec fn rows(list: Seq<LineView>, n: int) -> Seq<LineView>
    decreases n,
{
    if n <= 0 {
        Seq::empty()
    } else {
        rows(list, n - 1) + wrapped_lines(list[n - 1].text, PDF_BODY_MAX_CHARS as nat).map_values(
            |t: Seq<char>| colored(t, list[n - 1].speaker_color),
        )
    }
}

/// What has been laid out.
pub struct Layout {
    /// The pages that are full.
    pub pages: Seq<Seq<PdfOpView>>,
    /// The operations of the page that is not.
    pub ops: Seq<PdfOpView>,
    /// The height of its next row.
    pub y: int,
}

/// A layout with one more row, on a new page when the old one is full.
pub open spec fn with_row(layout: Layout, row: LineView) -> Layout {
    if layout.y < PDF_BOTTOM_Y {
        Layout {
            pages: layout.pages.push(layout.ops.push(PdfOpView::EndTextSection)),
            ops: page_start(None) + row_ops(row, PDF_NEW_PAGE_BODY_START_Y as int),
            y: PDF_NEW_PAGE_BODY_START_Y - PDF_LINE_HEIGHT,
        }
    } else {
        Layout {
            ops: layout.ops + row_ops(row, layout.y),
            y: layout.y - PDF_LINE_HEIGHT,
            ..layout
        }
    }
}

/// A layout with the first `n` rows.
pub open spec fn with_rows(start: Layout, list: Seq<LineView>, n: int) -> Layout
    decreases n,
{
    if n <= 0 {
        start
    } else {
        with_row(with_rows(start, list, n - 1), list[n - 1])
    }
}

/// The pages of a document.
pub open spec fn pdf_pages(document: DocumentView) -> Seq<Seq<PdfOpView>> {
    let list = document_lines(document.sections, document.sections.len() as int);
    let start = Layout {
        pages: Seq::empty(),
        ops: page_start(Some(document.title)),
        y: start_height(Some(document.title)),
    };
    let end = if list.len() == 0 {
        Layout { ops: start.ops + row_ops(colored(PDF_NO_CONTENT@, None), start.y), ..start }
    } else {
        let all = rows(list, list.len() as int);
        with_rows(start, all, all.len() as int)
    };
    end.pages.push(end.ops.push(PdfOpView::EndTextSection))
}

proof fn lemma_rows_add(start: Layout, a: Seq<LineView>, b: Seq<LineView>, n: int)
    requires
        0 <= n <= b.len(),
    ensures
        with_rows(start, a + b, a.len() + n) == with_rows(
            with_rows(start, a, a.len() as int),
            b,
            n,
        ),
    decreases n,
{
    if n > 0 {
        lemma_rows_add(start, a, b, n - 1);
        assert((a + b)[a.len() + n - 1] == b[n - 1]);
    } else {
        assert((a + b).take(a.len() as int) =~= a.take(a.len() as int));
        lemma_rows_prefix(start, a + b, a, a.len() as int);
    }
}

proof fn lemma_rows_prefix(start: Layout, a: Seq<LineView>, b: Seq<LineView>, n: int)
    requires
        0 <= n <= a.len(),
        n <= b.len(),
        a.take(n) == b.take(n),
    ensures
        with_rows(start, a, n) == with_rows(start, b, n),
    decreases n,
{
    if n > 0 {
        assert(a[n - 1] == a.take(n)[n - 1]);
        assert(b[n - 1] == b.take(n)[n - 1]);
        assert(a.take(n - 1) =~= a.take(n).take(n - 1));
        assert(b.take(n - 1) =~= b.take(n).take(n - 1));
        lemma_rows_prefix(start, a, b, n - 1);
    }
}

fn push_page(pages: &mut Vec<Vec<PdfOp>>, ops: Vec<PdfOp>)
    ensures
        page_views(final(pages)@) == page_views(old(pages)@).push(
            op_views(ops@).push(PdfOpView::EndTextSection),
        ),
{
    let mut page: Vec<PdfOp> = ops;
    push_op(&mut page, PdfOp::EndTextSection);
    let ghost shown = op_views(page@);
    pages.push(page);
    assert(page_views(pages@) =~= page_views(old(pages)@).push(shown));
}

/// Lays a document out on pages.
pub fn export_pdf(document: &ExportDocument) -> (r: Vec<Vec<PdfOp>>)
    ensures
        page_views(r@) == pdf_pages(document@),
{
    let mut pages: Vec<Vec<PdfOp>> = Vec::new();
    let first: (Vec<PdfOp>, i128) = start_pdf_page_ops(Some(document.title.as_str()));
    let mut ops: Vec<PdfOp> = first.0;
    let mut y: i128 = first.1;
    let ghost start = Layout {
        pages: Seq::empty(),
        ops: page_start(Some(document.title@)),
        y: start_height(Some(document.title@)),
    };
    let list: Vec<ExportStyledLine> = render_document_body_styled_lines(document);
    let ghost all = line_views(list@);
    assert(all.len() == list@.len());
    assert(page_views(pages@) =~= start.pages);
    if list.len() == 0 {
        write_pdf_line(&mut ops, PDF_NO_CONTENT, y, None);
        push_page(&mut pages, ops);
        return pages;
    }
    let mut i: usize = 0;
    while i < list.len()
        invariant
            i <= list@.len(),
            all == line_views(list@),
            y <= PDF_NEW_PAGE_BODY_START_Y,
            ({
                let done = rows(all, i as int);
                let now = with_rows(start, done, done.len() as int);
                &&& page_views(pages@) == now.pages
                &&& op_views(ops@) == now.ops
                &&& y == now.y
            }),
        decreases list@.len() - i,
    {
        let line: &ExportStyledLine = &list[i];
        assert(all[i as int] == line@);
        let parts: Vec<String> = wrap_pdf_text_line(line.text.as_str(), PDF_BODY_MAX_CHARS);
        let ghost texts = wrapped_lines(line.text@, PDF_BODY_MAX_CHARS as nat);
        let ghost before = rows(all, i as int);
        let ghost color = line@.speaker_color;
        let ghost f = |t: Seq<char>| colored(t, color);
        let ghost more = texts.map_values(f);
        let ghost mid = with_rows(start, before, before.len() as int);
        let mut k: usize = 0;
        while k < parts.len()
            invariant
                k <= parts@.len(),
                views(parts@) == texts,
                *line == list@[i as int],
                color == line@.speaker_color,
                f == |t: Seq<char>| colored(t, color),
                more == texts.map_values(f),
                y <= PDF_NEW_PAGE_BODY_START_Y,
                ({
                    let now = with_rows(mid, more, k as int);
                    &&& page_views(pages@) == now.pages
                    &&& op_views(ops@) == now.ops
                    &&& y == now.y
                }),
            decreases parts@.len() - k,
        {
            assert(texts[k as int] == parts@[k as int]@);
            if y < PDF_BOTTOM_Y {
                let next: (Vec<PdfOp>, i128) = start_pdf_page_ops(None);
                push_page(&mut pages, ops);
                ops = next.0;
                y = next.1;
            }
            let shown: Option<&str> = match &line.speaker_color {
                Some(c) => Some(c.as_str()),
                None => None,
            };
            write_pdf_line(&mut ops, parts[k].as_str(), y, shown);
            y = y - PDF_LINE_HEIGHT;
            proof {
                assert(more[k as int] == colored(parts@[k as int]@, color));
            }
            k = k + 1;
        }
        proof {
            assert(views(parts@).len() == parts@.len());
            lemma_rows_add(start, before, more, more.len() as int);
            assert(rows(all, i + 1) =~= before + more);
        }
        i = i + 1;
    }
    push_page(&mut pages, ops);
    pages
}

// ---------------------------------------------------------------------------
// What the pages show
// ---------------------------------------------------------------------------

/// The texts that operations write.
pub open spec fn written(ops: Seq<PdfOpView>) -> Seq<Seq<char>>
    decreases ops.len(),
{
    if ops.len() == 0 {
        Seq::empty()
    } else {
        match ops.last() {
            PdfOpView::WriteText(t) => written(ops.drop_last()).push(t),
            _ => written(ops.drop_last()),
        }
    }
}

/// The texts that pages show.
pub open spec fn shown(pages: Seq<Seq<PdfOpView>>) -> Seq<Seq<char>>
    decreases pages.len(),
{
    if pages.len() == 0 {
        Seq::empty()
    } else {
        shown(pages.drop_last()) + written(pages.last())
    }
}

proof fn lemma_written_add(a: Seq<PdfOpView>, b: Seq<PdfOpView>)
    ensures
        written(a + b) == written(a) + written(b),
    decreases b.len(),
{
    if b.len() == 0 {
        assert(a + b =~= a);
        assert(written(a) + written(b) =~= written(a));
    } else {
        lemma_written_add(a, b.drop_last());
        assert((a + b).drop_last() =~= a + b.drop_last());
        assert(written(a + b) =~= written(a) + written(b));
    }
}

proof fn lemma_row_written(row: LineView, y: int)
    ensures
        written(row_ops(row, y)) == seq![row.text],
{
    let ops = row_ops(row, y);
    assert(ops.drop_last().drop_last().drop_last() =~= Seq::<PdfOpView>::empty());
    reveal_with_fuel(written, 4);
    assert(written(ops) =~= seq![row.text]);
}

proof fn lemma_with_row(layout: Layout, row: LineView)
    ensures
        ({
            let next = with_row(layout, row);
            shown(next.pages) + written(next.ops) == (shown(layout.pages) + written(
                layout.ops,
            )).push(row.text)
        }),
{
    let next = with_row(layout, row);
    if layout.y < PDF_BOTTOM_Y {
        let y = PDF_NEW_PAGE_BODY_START_Y as int;
        let full = layout.ops.push(PdfOpView::EndTextSection);
        lemma_row_written(row, y);
        lemma_written_add(page_start(None), row_ops(row, y));
        reveal_with_fuel(written, 3);
        assert(page_start(None).drop_last().drop_last() =~= Seq::<PdfOpView>::empty());
        assert(written(page_start(None)) =~= Seq::<Seq<char>>::empty());
        assert(full.drop_last() =~= layout.ops);
        assert(written(full) == written(layout.ops));
        assert(next.pages.drop_last() =~= layout.pages);
        assert(shown(next.pages) == shown(layout.pages) + written(layout.ops));
        assert(shown(next.pages) + written(next.ops) =~= (shown(layout.pages) + written(
            layout.ops,
        )).push(row.text));
    } else {
        lemma_row_written(row, layout.y);
        lemma_written_add(layout.ops, row_ops(row, layout.y));
        assert(shown(next.pages) + written(next.ops) =~= (shown(layout.pages) + written(
            layout.ops,
        )).push(row.text));
    }
}

proof fn lemma_with_rows(start: Layout, list: Seq<LineView>, n: int)
    requires
        0 <= n <= list.len(),
    ensures
        ({
            let end = with_rows(start, list, n);
            shown(end.pages) + written(end.ops) == shown(start.pages) + written(start.ops)
                + list.take(n).map_values(|r: LineView| r.text)
        }),
    decreases n,
{
    let f = |r: LineView| r.text;
    let base = shown(start.pages) + written(start.ops);
    if n > 0 {
        lemma_with_rows(start, list, n - 1);
        lemma_with_row(with_rows(start, list, n - 1), list[n - 1]);
        assert((base + list.take(n - 1).map_values(f)).push(list[n - 1].text) =~= base + list.take(
            n,
        ).map_values(f));
    } else {
        assert(base + list.take(0).map_values(f) =~= base);
    }
}

/// The pages show every row of the document once and in order, after the title.
pub proof fn pages_show_every_row(document: DocumentView)
    requires
        document.sections.len() > 0,
    ensures
        ({
            let list = document_lines(document.sections, document.sections.len() as int);
            let all = rows(list, list.len() as int);
            shown(pdf_pages(document)) == written(page_start(Some(document.title)))
                + all.map_values(|r: LineView| r.text)
        }),
{
    let list = document_lines(document.sections, document.sections.len() as int);
    let all = rows(list, list.len() as int);
    let start = Layout {
        pages: Seq::empty(),
        ops: page_start(Some(document.title)),
        y: start_height(Some(document.title)),
    };
    let end = with_rows(start, all, all.len() as int);
    let last = end.ops.push(PdfOpView::EndTextSection);
    let pages = end.pages.push(last);
    lemma_with_rows(start, all, all.len() as int);
    assert(list.len() > 0);
    assert(last.drop_last() =~= end.ops);
    assert(pages.drop_last() =~= end.pages);
    assert(shown(pages) == shown(end.pages) + written(end.ops));
    assert(all.take(all.len() as int) =~= all);
    assert(shown(Seq::<Seq<PdfOpView>>::empty()) + written(start.ops) =~= written(start.ops));
}

/// The rows of a line lose nothing of it but white space, and fit the page.
pub proof fn rows_hold_the_line(text: Seq<char>)
    ensures
        ink(flat(wrapped_lines(text, PDF_BODY_MAX_CHARS as nat))) == ink(text),
        forall|i: int|
            0 <= i < wrapped_lines(text, PDF_BODY_MAX_CHARS as nat).len() ==> (
            #[trigger] wrapped_lines(text, PDF_BODY_MAX_CHARS as nat)[i]).len()
                <= PDF_BODY_MAX_CHARS,
{
    wrapping_keeps_the_text(text, PDF_BODY_MAX_CHARS as nat);
}

/// Every line of a document has its rows, one after the other: the line wrapped to ninety-six characters,
/// each row in the colour of the line.
pub proof fn every_line_has_its_rows(list: Seq<LineView>, n: int, i: int) -> (at: int)
    requires
        0 <= i < n <= list.len(),
    ensures
        ({
            let all = rows(list, n);
            let mine = wrapped_lines(list[i].text, 96);
            &&& 0 <= at && at + mine.len() <= all.len()
            &&& forall|k: int|
                0 <= k < mine.len() ==> (#[trigger] all[at + k]).text == mine[k] && all[at
                    + k].speaker_color == list[i].speaker_color && all[at + k].text.len() <= 96
            &&& i == 0 ==> at == 0
            &&& i == n - 1 ==> at + mine.len() == all.len()
        }),
    decreases n,
{
    let before = rows(list, n - 1);
    let last = list[n - 1];
    let more = wrapped_lines(last.text, 96).map_values(
        |t: Seq<char>| colored(t, last.speaker_color),
    );
    let all = rows(list, n);
    let mine = wrapped_lines(list[i].text, 96);
    assert(all == before + more) by {
        assert(wrapped_lines(last.text, PDF_BODY_MAX_CHARS as nat).map_values(
            |t: Seq<char>| colored(t, list[n - 1].speaker_color),
        ) =~= more);
    }
    wrapping_keeps_the_text(list[i].text, 96);
    if i == n - 1 {
        let at = before.len() as int;
        if n == 1 {
            assert(before =~= Seq::<LineView>::empty());
        }
        assert forall|k: int| 0 <= k < mine.len() implies (#[trigger] all[at + k]).text == mine[k] && all[at
            + k].speaker_color == list[i].speaker_color && all[at + k].text.len() <= 96 by {
            assert(all[at + k] == more[k]);
        }
        at
    } else {
        let at = every_line_has_its_rows(list, n - 1, i);
        assert forall|k: int| 0 <= k < mine.len() implies (#[trigger] all[at + k]).text == mine[k] && all[at
            + k].speaker_color == list[i].speaker_color && all[at + k].text.len() <= 96 by {
            assert(all[at + k] == before[at + k]);
        }
        at
    }
}

/// A row is written inside the page, one line below the row before it or at the top of a further page,
/// and in its colour. A page that is full is kept as it is.
pub proof fn a_row_goes_below_the_row_before(layout: Layout, row: LineView)
    requires
        layout.y <= 810,
    ensures
        ({
            let next = with_row(layout, row);
            let y = next.y + 14;
            let n = next.ops.len();
            &&& 42 <= y <= 810
            &&& n >= 3
            &&& next.ops[n - 3] == PdfOpView::MoveTo { x: 28, y }
            &&& next.ops[n - 2] == PdfOpView::SetFillColor(
                match row.speaker_color {
                    Some(c) => rgb(c),
                    None => None,
                },
            )
            &&& next.ops[n - 1] == PdfOpView::WriteText(row.text)
            &&& layout.y >= 42 ==> y == layout.y && next.pages == layout.pages && next.ops.take(n - 3)
                == layout.ops
            &&& layout.y < 42 ==> y == 810 && next.pages == layout.pages.push(
                layout.ops.push(PdfOpView::EndTextSection),
            )
        }),
{
    let next = with_row(layout, row);
    if layout.y >= 42 {
        assert(next.ops.take(next.ops.len() - 3) =~= layout.ops);
    }
}

proof fn lemma_title_ops(list: Seq<Seq<char>>, n: int)
    requires
        0 <= n <= list.len(),
    ensures
        written(title_ops(list, n)) == list.take(n),
        title_ops(list, n).len() == 2 * n,
        forall|k: int|
            0 <= k < n ==> #[trigger] title_ops(list, n)[2 * k] == (PdfOpView::MoveTo {
                x: 28,
                y: 810 - 24 * k,
            }),
    decreases n,
{
    if n > 0 {
        lemma_title_ops(list, n - 1);
        let before = title_ops(list, n - 1);
        let more = seq![
            PdfOpView::MoveTo {
                x: PDF_LEFT_X as int,
                y: PDF_TITLE_Y - (n - 1) * PDF_TITLE_LINE_HEIGHT,
            },
            PdfOpView::WriteText(list[n - 1]),
        ];
        lemma_written_add(before, more);
        reveal_with_fuel(written, 3);
        assert(more.drop_last().drop_last() =~= Seq::<PdfOpView>::empty());
        assert(written(more) =~= seq![list[n - 1]]);
        assert(list.take(n - 1) + seq![list[n - 1]] =~= list.take(n));
        assert forall|k: int| 0 <= k < n implies #[trigger] title_ops(list, n)[2 * k] == (
        PdfOpView::MoveTo { x: 28, y: 810 - 24 * k }) by {
            if k < n - 1 {
                assert(title_ops(list, n)[2 * k] == before[2 * k]);
            }
        }
    } else {
        assert(list.take(0) =~= Seq::<Seq<char>>::empty());
    }
}

/// The first page begins with the whole title, wrapped to seventy-two characters and larger than the
/// rest, and the body starts below the last line of it; a further page begins at the top.
pub proof fn a_title_stands_above_the_body(title: Seq<char>)
    ensures
        ({
            let list = wrapped_lines(title, 72);
            let ops = page_start(Some(title));
            &&& written(ops) == list
            &&& ink(flat(list)) == ink(title)
            &&& ops[0] == PdfOpView::StartTextSection && ops[1] == PdfOpView::SetFontSize(20)
            &&& ops.last() == PdfOpView::SetFontSize(11)
            &&& start_height(Some(title)) <= 810 - 24 * list.len() - 6
            &&& start_height(Some(title)) <= 780
            &&& forall|k: int|
                0 <= k < list.len() ==> #[trigger] ops[2 + 2 * k] == (PdfOpView::MoveTo {
                    x: 28,
                    y: 810 - 24 * k,
                })
            &&& start_height(None) == 810
        }),
{
    let list = wrapped_lines(title, 72);
    let n = list.len() as int;
    let ops = page_start(Some(title));
    let head = seq![PdfOpView::StartTextSection, PdfOpView::SetFontSize(20)];
    let tail = seq![PdfOpView::SetFontSize(11)];
    wrapping_keeps_the_text(title, 72);
    lemma_title_ops(list, n);
    lemma_written_add(head + title_ops(list, n), tail);
    lemma_written_add(head, title_ops(list, n));
    reveal_with_fuel(written, 3);
    assert(head.drop_last().drop_last() =~= Seq::<PdfOpView>::empty());
    assert(tail.drop_last() =~= Seq::<PdfOpView>::empty());
    assert(written(head) =~= Seq::<Seq<char>>::empty());
    assert(written(tail) =~= Seq::<Seq<char>>::empty());
    assert(list.take(n) =~= list);
    assert(written(ops) =~= list);
    assert forall|k: int| 0 <= k < list.len() implies #[trigger] ops[2 + 2 * k] == (PdfOpView::MoveTo {
        x: 28,
        y: 810 - 24 * k,
    }) by {
        assert(ops[2 + 2 * k] == title_ops(list, n)[2 * k]);
    }
}

/// Whether every page opens a text section first and closes one last.
pub open spec fn pages_are_closed(pages: Seq<Seq<PdfOpView>>) -> bool {
    forall|i: int|
        0 <= i < pages.len() ==> (#[trigger] pages[i]).len() >= 2 && pages[i][0]
            == PdfOpView::StartTextSection && pages[i].last() == PdfOpView::EndTextSection
}

proof fn lemma_closed(start: Layout, list: Seq<LineView>, n: int)
    requires
        0 <= n <= list.len(),
        pages_are_closed(start.pages),
        start.ops.len() >= 1,
        start.ops[0] == PdfOpView::StartTextSection,
    ensures
        pages_are_closed(with_rows(start, list, n).pages),
        with_rows(start, list, n).ops.len() >= 1,
        with_rows(start, list, n).ops[0] == PdfOpView::StartTextSection,
    decreases n,
{
    if n > 0 {
        lemma_closed(start, list, n - 1);
    }
}

/// There is a page at least, and every page opens a text section first and closes it last.
pub proof fn every_page_is_closed(document: DocumentView)
    ensures
        pdf_pages(document).len() > 0,
        pages_are_closed(pdf_pages(document)),
{
    let list = document_lines(document.sections, document.sections.len() as int);
    let start = Layout {
        pages: Seq::empty(),
        ops: page_start(Some(document.title)),
        y: start_height(Some(document.title)),
    };
    assert(start.ops[0] == PdfOpView::StartTextSection);
    if list.len() > 0 {
        let all = rows(list, list.len() as int);
        lemma_closed(start, all, all.len() as int);
    }
}

} // verus!
