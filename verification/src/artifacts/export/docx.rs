//! Exports as Word documents.

use docx_rs::{Docx, Paragraph, Run};
use vstd::prelude::*;
use vstd::string::*;

use crate::artifacts::export::document::{
    body_lines, push_body_lines, section_views, line_views, DocumentView, ExportDocument,
    ExportDocumentSection, ExportStyledLine, LineView, SectionView,
};
use crate::artifacts::export::speakers::{
    a_clean_color_is_the_same_color, clean_color, is_color, rgb, sanitize_speaker_color_value,
};
use crate::text::{
    chars_of, inked, is_white, lemma_inked_add, lemma_inked_white, replace, starts_with, string_of,
    trim,
};

verus! {

/// The document type of the `docx_rs` crate.
#[verifier::external_type_specification]
#[verifier::external_body]
pub struct ExDocx(docx_rs::Docx);

/// The paragraphs of a Word document, in order: each the texts of its runs, and their colours. The
/// text of a run is the one that it holds with its XML escapes undone.
pub uninterp spec fn docx_paragraphs(doc: docx_rs::Docx) -> Seq<Seq<(Seq<char>, Option<Seq<char>>)>>;

/// Makes an empty Word document.
///
/// Trusted: a document that `docx_rs::Docx::new` makes has no paragraphs.
#[verifier::external_body]
fn new_docx() -> (r: Docx)
    ensures
        docx_paragraphs(r) == Seq::<Seq<(Seq<char>, Option<Seq<char>>)>>::empty(),
{
    Docx::new()
}

/// Adds an empty paragraph to a Word document.
///
/// Trusted: `docx_rs::Docx::add_paragraph` keeps the paragraphs that there were, and puts the given
/// one after them; one that `docx_rs::Paragraph::new` makes has no runs.
#[verifier::external_body]
fn add_empty_paragraph(doc: Docx) -> (r: Docx)
    ensures
        docx_paragraphs(r) == docx_paragraphs(doc).push(Seq::empty()),
{
    doc.add_paragraph(Paragraph::new())
}

/// A text as a run holds it: without line feeds and carriage returns.
pub open spec fn run_text(text: Seq<char>) -> Seq<char> {
    replace(replace(text, "\n"@, Seq::empty()), "\r"@, Seq::empty())
}

/// Adds a paragraph of one run to a Word document.
///
/// Trusted: as for [`add_empty_paragraph`]; `docx_rs::Paragraph::add_run` adds the run, and
/// `docx_rs::Run::add_text` takes the line feeds and the carriage returns out of the text, and
/// escapes what XML gives a meaning. The run has no colour.
#[verifier::external_body]
fn add_text_paragraph(doc: Docx, text: &str) -> (r: Docx)
    ensures
        docx_paragraphs(r) == docx_paragraphs(doc).push(seq![(run_text(text@), None)]),
{
    doc.add_paragraph(Paragraph::new().add_run(Run::new().add_text(text)))
}

/// Adds a paragraph of one run in a colour to a Word document.
///
/// Trusted: as for [`add_text_paragraph`]; `docx_rs::Run::color` sets the run's colour to the given
/// text.
#[verifier::external_body]
fn add_colored_paragraph(doc: Docx, text: &str, color: &str) -> (r: Docx)
    ensures
        docx_paragraphs(r) == docx_paragraphs(doc).push(seq![(run_text(text@), Some(color@))]),
{
    doc.add_paragraph(Paragraph::new().add_run(Run::new().add_text(text).color(color)))
}

/// The colour of a run for a line: six digits, where the line has a colour.
pub open spec fn run_color(line: LineView) -> Option<Seq<char>> {
    match line.speaker_color {
        Some(c) => match clean_color(c) {
            Some(color) => Some(color.skip(1)),
            None => None,
        },
        None => None,
    }
}

/// The paragraph of a line.
pub open spec fn line_paragraph(line: LineView) -> Seq<(Seq<char>, Option<Seq<char>>)> {
    seq![(run_text(line.text), run_color(line))]
}

/// The paragraphs of lines.
pub open spec fn line_paragraphs(list: Seq<LineView>) -> Seq<Seq<(Seq<char>, Option<Seq<char>>)>> {
    list.map_values(|l: LineView| line_paragraph(l))
}

/// The paragraphs of the first `n` sections: an empty one before each but the first, the title and
/// the lines.
pub open spec fn section_paragraphs(sections: Seq<SectionView>, n: int) -> Seq<
    Seq<(Seq<char>, Option<Seq<char>>)>,
>
    decreases n,
{
    if n <= 0 {
        Seq::empty()
    } else {
        let gap = if n == 1 {
            Seq::empty()
        } else {
            seq![Seq::empty()]
        };
        section_paragraphs(sections, n - 1) + gap + seq![
            seq![(run_text(sections[n - 1].title), None)],
        ] + line_paragraphs(body_lines(sections[n - 1]))
    }
}

/// The paragraphs of a document: its title, an empty one, and the sections.
pub open spec fn document_paragraphs(document: DocumentView) -> Seq<
    Seq<(Seq<char>, Option<Seq<char>>)>,
> {
    seq![seq![(run_text(document.title), None)], Seq::empty()] + section_paragraphs(
        document.sections,
        document.sections.len() as int,
    )
}

proof fn lemma_clean_color(value: Seq<char>)
    ensures
        clean_color(value) matches Some(c) ==> c.len() == 7,
{
}

fn add_line(doc: Docx, line: &ExportStyledLine) -> (r: Docx)
    ensures
        docx_paragraphs(r) == docx_paragraphs(doc).push(line_paragraph(line@)),
{
    if let Some(value) = &line.speaker_color {
        if let Some(color) = sanitize_speaker_color_value(value.as_str()) {
            let v: Vec<char> = chars_of(color.as_str());
            proof {
                lemma_clean_color(value@);
                assert(v@.subrange(1, 7) =~= v@.skip(1));
            }
            let digits: String = string_of(&v[1..7]);
            return add_colored_paragraph(doc, line.text.as_str(), digits.as_str());
        }
    }
    add_text_paragraph(doc, line.text.as_str())
}

/// Makes the Word document of an export.
pub fn export_docx(document: &ExportDocument) -> (r: Docx)
    ensures
        docx_paragraphs(r) == document_paragraphs(document@),
{
    let ghost all = section_views(document.sections@);
    assert(all.len() == document.sections@.len());
    let mut doc: Docx = add_text_paragraph(new_docx(), document.title.as_str());
    doc = add_empty_paragraph(doc);
    let ghost head = seq![seq![(run_text(document.title@), None)], Seq::empty()];
    assert(docx_paragraphs(doc) =~= head);
    let mut i: usize = 0;
    while i < document.sections.len()
        invariant
            i <= document.sections@.len(),
            all == section_views(document.sections@),
            docx_paragraphs(doc) =~= head + section_paragraphs(all, i as int),
        decreases document.sections@.len() - i,
    {
        let ghost prior = docx_paragraphs(doc);
        let section: &ExportDocumentSection = &document.sections[i];
        assert(all[i as int] == section@);
        if i > 0 {
            doc = add_empty_paragraph(doc);
        }
        doc = add_text_paragraph(doc, section.title.as_str());
        let ghost titled = docx_paragraphs(doc);
        let mut list: Vec<ExportStyledLine> = Vec::new();
        push_body_lines(&mut list, section);
        assert(line_views(list@) =~= body_lines(section@));
        let mut k: usize = 0;
        while k < list.len()
            invariant
                k <= list@.len(),
                docx_paragraphs(doc) =~= titled + line_paragraphs(line_views(list@)).take(k as int),
            decreases list@.len() - k,
        {
            let ghost before = docx_paragraphs(doc);
            doc = add_line(doc, &list[k]);
            proof {
                assert(line_views(list@)[k as int] == list@[k as int]@);
                assert(docx_paragraphs(doc) =~= before.push(line_paragraph(list@[k as int]@)));
            }
            k = k + 1;
        }
        proof {
            assert(line_paragraphs(line_views(list@)).take(k as int) =~= line_paragraphs(
                line_views(list@),
            ));
            let gap: Seq<Seq<(Seq<char>, Option<Seq<char>>)>> = if i == 0 {
                Seq::empty()
            } else {
                seq![Seq::empty()]
            };
            assert(titled =~= prior + gap + seq![seq![(run_text(section.title@), None)]]);
        }
        i = i + 1;
    }
    doc
}

proof fn lemma_taken_out(s: Seq<char>, c: char)
    requires
        is_white(c),
    ensures
        !replace(s, seq![c], Seq::empty()).contains(c),
        inked(replace(s, seq![c], Seq::empty())) == inked(s),
        forall|d: char| !s.contains(d) ==> !(#[trigger] replace(s, seq![c], Seq::empty()).contains(d)),
    decreases s.len(),
{
    let done = replace(s, seq![c], Seq::empty());
    if s.len() > 0 {
        let rest = s.skip(1);
        lemma_taken_out(rest, c);
        let tail = replace(rest, seq![c], Seq::empty());
        assert(s =~= seq![s[0]] + rest);
        lemma_inked_add(seq![s[0]], rest);
        if s[0] == c {
            assert(s.take(1) =~= seq![c]);
            assert(Seq::<char>::empty() + tail =~= tail);
            lemma_inked_white(seq![c], 1);
            assert(seq![c].skip(1) =~= Seq::<char>::empty());
            assert(Seq::<char>::empty() + inked(rest) =~= inked(rest));
        } else {
            assert(!starts_with(s, seq![c])) by {
                assert(s.take(1)[0] == s[0]);
            }
            assert(done =~= seq![s[0]] + tail);
            lemma_inked_add(seq![s[0]], tail);
            if done.contains(c) {
                let k = choose|k: int| 0 <= k < done.len() && done[k] == c;
                assert(tail[k - 1] == c);
            }
        }
        assert forall|d: char| !s.contains(d) implies !(#[trigger] done.contains(d)) by {
            if done.contains(d) {
                let k = choose|k: int| 0 <= k < done.len() && done[k] == d;
                if rest.contains(d) {
                    let j = choose|j: int| 0 <= j < rest.len() && rest[j] == d;
                    assert(s[j + 1] == d);
                }
                assert(!tail.contains(d));
                if s[0] == c {
                    assert(tail[k] == d);
                } else if k == 0 {
                    assert(s[0] == d);
                } else {
                    assert(tail[k - 1] == d);
                }
            }
        }
    }
}

/// A run holds all of a line that is not white, on one line.
pub proof fn a_run_holds_the_whole_text(text: Seq<char>)
    ensures
        inked(run_text(text)) == inked(text),
        !run_text(text).contains('\n'),
        !run_text(text).contains('\r'),
{
    reveal_strlit("\n");
    reveal_strlit("\r");
    assert("\n"@ =~= seq!['\n']);
    assert("\r"@ =~= seq!['\r']);
    lemma_taken_out(text, '\n');
    lemma_taken_out(replace(text, "\n"@, Seq::empty()), '\r');
}

/// A run has the colour of its line: the same six digits, without the number sign.
pub proof fn a_run_has_the_color_of_its_line(line: LineView)
    ensures
        run_color(line) is Some <==> line.speaker_color is Some && is_color(trim(line.speaker_color->0)),
        run_color(line) matches Some(c) ==> c.len() == 6 && rgb(seq!['#'] + c) == rgb(
            line.speaker_color->0,
        ),
{
    if line.speaker_color is Some {
        let value = line.speaker_color->0;
        a_clean_color_is_the_same_color(value);
        if clean_color(value) is Some {
            let color = clean_color(value)->0;
            assert(seq!['#'] + color.skip(1) =~= color);
        }
    }
}

/// The paragraphs of sections hold every one of them: its title, and right behind it a paragraph for each
/// line of its body, with the line's whole text.
pub proof fn paragraphs_hold_every_section(sections: Seq<SectionView>, n: int, i: int) -> (at: int)
    requires
        0 <= i < n <= sections.len(),
    ensures
        ({
            let all = section_paragraphs(sections, n);
            let body = body_lines(sections[i]);
            &&& 0 <= at && at + 1 + body.len() <= all.len()
            &&& all[at].len() == 1 && inked(all[at][0].0) == inked(sections[i].title)
            &&& forall|k: int|
                0 <= k < body.len() ==> (#[trigger] all[at + 1 + k]).len() == 1 && inked(
                    all[at + 1 + k][0].0,
                ) == inked(body[k].text) && all[at + 1 + k][0].1 == run_color(body[k])
            &&& i == 0 ==> at == 0
            &&& i > 0 ==> at > 0 && all[at - 1].len() == 0
            &&& i == n - 1 ==> at + 1 + body.len() == all.len()
        }),
    decreases n,
{
    let before = section_paragraphs(sections, n - 1);
    let gap: Seq<Seq<(Seq<char>, Option<Seq<char>>)>> = if n == 1 {
        Seq::empty()
    } else {
        seq![Seq::empty()]
    };
    let title = seq![(run_text(sections[n - 1].title), None::<Seq<char>>)];
    let mine = line_paragraphs(body_lines(sections[n - 1]));
    let all = section_paragraphs(sections, n);
    assert(all == before + gap + seq![title] + mine);
    let body = body_lines(sections[i]);
    if i == n - 1 {
        let at = before.len() as int + gap.len() as int;
        if n == 1 {
            assert(before =~= Seq::<Seq<(Seq<char>, Option<Seq<char>>)>>::empty());
        }
        a_run_holds_the_whole_text(sections[i].title);
        assert(all[at] == title);
        assert forall|k: int| 0 <= k < body.len() implies (#[trigger] all[at + 1 + k]).len() == 1 && inked(
            all[at + 1 + k][0].0,
        ) == inked(body[k].text) && all[at + 1 + k][0].1 == run_color(body[k]) by {
            assert(all[at + 1 + k] == mine[k]);
            a_run_holds_the_whole_text(body[k].text);
        }
        at
    } else {
        let at = paragraphs_hold_every_section(sections, n - 1, i);
        assert(all[at] == before[at]);
        assert forall|k: int| 0 <= k < body.len() implies (#[trigger] all[at + 1 + k]).len() == 1 && inked(
            all[at + 1 + k][0].0,
        ) == inked(body[k].text) && all[at + 1 + k][0].1 == run_color(body[k]) by {
            assert(all[at + 1 + k] == before[at + 1 + k]);
        }
        at
    }
}

/// A Word document begins with its title, and its sections follow an empty paragraph.
pub proof fn a_word_document_begins_with_its_title(document: DocumentView)
    ensures
        ({
            let all = document_paragraphs(document);
            &&& all.len() >= 2
            &&& all[0].len() == 1 && inked(all[0][0].0) == inked(document.title)
            &&& all[1].len() == 0
            &&& all.skip(2) == section_paragraphs(
                document.sections,
                document.sections.len() as int,
            )
        }),
{
    a_run_holds_the_whole_text(document.title);
    assert(document_paragraphs(document).skip(2) =~= section_paragraphs(
        document.sections,
        document.sections.len() as int,
    ));
}

} // verus!
