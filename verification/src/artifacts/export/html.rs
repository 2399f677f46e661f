//! Exports as HTML.

use vstd::prelude::*;
use vstd::string::*;

use crate::artifacts::export::document::{
    line_views, section_views, DocumentView, ExportDocument, ExportDocumentSection, LineView,
    SectionView,
};
use crate::text::{
    a_join_holds_its_parts_in_order, cat5, chars_of, contains, in_order, join, join_texts,
    lemma_contains_middle, lemma_in_order_after, lemma_in_order_before, lemma_in_order_inside,
    lemma_in_order_push, push_char, replace, replace_text, starts_with, total_len, views,
};

verus! {

/// A character as HTML shows it.
pub open spec fn escaped_char(c: char) -> Seq<char> {
    if c == '&' {
        "&amp;"@
    } else if c == '<' {
        "&lt;"@
    } else if c == '>' {
        "&gt;"@
    } else if c == '"' {
        "&quot;"@
    } else if c == '\'' {
        "&#39;"@
    } else {
        seq![c]
    }
}

/// A text as HTML shows it.
pub open spec fn escaped(s: Seq<char>) -> Seq<char>
    decreases s.len(),
{
    if s.len() == 0 {
        Seq::empty()
    } else {
        escaped(s.drop_last()) + escaped_char(s.last())
    }
}

/// Escapes a text for HTML.
pub fn escape_html(value: &str) -> (r: String)
    ensures
        r@ == escaped(value@),
{
    let v: Vec<char> = chars_of(value);
    let mut out: String = String::new();
    let mut i: usize = 0;
    assert(out@ =~= escaped(v@.take(0)));
    while i < v.len()
        invariant
            i <= v@.len(),
            out@ == escaped(v@.take(i as int)),
        decreases v@.len() - i,
    {
        assert(v@.take(i + 1).drop_last() =~= v@.take(i as int));
        let c: char = v[i];
        if c == '&' {
            out.append("&amp;");
        } else if c == '<' {
            out.append("&lt;");
        } else if c == '>' {
            out.append("&gt;");
        } else if c == '"' {
            out.append("&quot;");
        } else if c == '\'' {
            out.append("&#39;");
        } else {
            let ghost before = out@;
            push_char(&mut out, c);
            assert(out@ =~= before + seq![c]);
        }
        i = i + 1;
    }
    assert(v@.take(i as int) =~= v@);
    out
}

/// A character that would end or open markup.
pub open spec fn is_markup(c: char) -> bool {
    c == '<' || c == '>' || c == '"' || c == '\''
}

/// An escaped text holds no character that would end or open markup.
pub proof fn escaped_text_holds_no_markup(s: Seq<char>, i: int)
    requires
        0 <= i < escaped(s).len(),
    ensures
        !is_markup(escaped(s)[i]),
    decreases s.len(),
{
    let front = escaped(s.drop_last());
    if i < front.len() {
        escaped_text_holds_no_markup(s.drop_last(), i);
    } else {
        reveal_strlit("&amp;");
        reveal_strlit("&lt;");
        reveal_strlit("&gt;");
        reveal_strlit("&quot;");
        reveal_strlit("&#39;");
        assert(escaped(s)[i] == escaped_char(s.last())[i - front.len()]);
    }
}

/// What HTML shows as `s`: each of the five escapes is read as its character.
pub open spec fn unescaped(s: Seq<char>) -> Seq<char>
    decreases s.len(),
{
    if s.len() == 0 {
        Seq::empty()
    } else if s.len() >= 5 && s.take(5) == "&amp;"@ {
        seq!['&'] + unescaped(s.skip(5))
    } else if s.len() >= 4 && s.take(4) == "&lt;"@ {
        seq!['<'] + unescaped(s.skip(4))
    } else if s.len() >= 4 && s.take(4) == "&gt;"@ {
        seq!['>'] + unescaped(s.skip(4))
    } else if s.len() >= 6 && s.take(6) == "&quot;"@ {
        seq!['"'] + unescaped(s.skip(6))
    } else if s.len() >= 5 && s.take(5) == "&#39;"@ {
        seq!['\''] + unescaped(s.skip(5))
    } else {
        seq![s[0]] + unescaped(s.skip(1))
    }
}

proof fn lemma_escaped_front(c: char, rest: Seq<char>)
    ensures
        escaped(seq![c] + rest) == escaped_char(c) + escaped(rest),
    decreases rest.len(),
{
    let s = seq![c] + rest;
    if rest.len() == 0 {
        assert(s.drop_last() =~= Seq::empty());
        assert(escaped(s.drop_last()).len() == 0);
        assert(escaped(s) =~= escaped_char(c) + escaped(rest));
    } else {
        lemma_escaped_front(c, rest.drop_last());
        assert(s.drop_last() =~= seq![c] + rest.drop_last());
        assert(s.last() == rest.last());
        assert(escaped(s) =~= escaped_char(c) + escaped(rest));
    }
}

proof fn lemma_unescaped_front(c: char, rest: Seq<char>)
    ensures
        unescaped(escaped_char(c) + rest) == seq![c] + unescaped(rest),
{
    reveal_strlit("&amp;");
    reveal_strlit("&lt;");
    reveal_strlit("&gt;");
    reveal_strlit("&quot;");
    reveal_strlit("&#39;");
    let e = escaped_char(c);
    let s = e + rest;
    assert(s.skip(e.len() as int) =~= rest);
    assert(s.take(e.len() as int) =~= e);
    assert(s[0] == e[0]);
    assert(s.len() >= 4 ==> s.take(4)[0] == s[0]);
    assert(s.len() >= 5 ==> s.take(5)[0] == s[0]);
    assert(s.len() >= 6 ==> s.take(6)[0] == s[0]);
    if e.len() > 1 {
        assert(s[1] == e[1]);
        assert(s.take(4)[1] == s[1]);
        assert(s.len() >= 5 ==> s.take(5)[1] == s[1]);
        assert(s.len() >= 6 ==> s.take(6)[1] == s[1]);
    }
}

/// An escaped text can be read back.
pub proof fn an_escaped_text_gives_back_its_text(s: Seq<char>)
    ensures
        unescaped(escaped(s)) == s,
    decreases s.len(),
{
    if s.len() > 0 {
        let rest = s.skip(1);
        an_escaped_text_gives_back_its_text(rest);
        assert(seq![s[0]] + rest =~= s);
        lemma_escaped_front(s[0], rest);
        lemma_unescaped_front(s[0], escaped(rest));
    } else {
        assert(unescaped(escaped(s)) =~= s);
    }
}

/// A line, in the colour of its speaker.
pub open spec fn html_line(line: LineView) -> Seq<char> {
    match line.speaker_color {
        Some(color) => "<span style=\"color:"@ + escaped(color) + "\">"@ + escaped(line.text)
            + "</span>"@,
        None => escaped(line.text),
    }
}

/// The content of a section.
pub open spec fn html_content(section: SectionView) -> Seq<char> {
    match section.styled_lines {
        Some(list) => join(list.map_values(|l: LineView| html_line(l)), "<br/>\n"@),
        None => replace(escaped(section.body), "\n"@, "<br/>\n"@),
    }
}

/// A section.
pub open spec fn html_section(section: SectionView) -> Seq<char> {
    "<section class=\"section\"><h2>"@ + escaped(section.title) + "</h2><div class=\"content\">"@
        + html_content(section) + "</div></section>"@
}

fn write_html_section(section: &ExportDocumentSection) -> (r: String)
    ensures
        r@ == html_section(section@),
{
    let content: String = match &section.styled_lines {
        Some(list) => {
            let ghost f = |l: LineView| html_line(l);
            let mut parts: Vec<String> = Vec::new();
            let mut i: usize = 0;
            while i < list.len()
                invariant
                    i <= list@.len(),
                    f == |l: LineView| html_line(l),
                    views(parts@) =~= line_views(list@).take(i as int).map_values(f),
                decreases list@.len() - i,
            {
                let ghost prior = views(parts@);
                let text: String = escape_html(list[i].text.as_str());
                let part: String = match &list[i].speaker_color {
                    Some(color) => cat5(
                        "<span style=\"color:",
                        escape_html(color.as_str()).as_str(),
                        "\">",
                        text.as_str(),
                        "</span>",
                    ),
                    None => text,
                };
                parts.push(part);
                proof {
                    assert(line_views(list@)[i as int] == list@[i as int]@);
                    assert(part@ == f(line_views(list@)[i as int]));
                    assert(views(parts@) =~= prior.push(part@));
                }
                i = i + 1;
            }
            assert(line_views(list@).take(i as int) =~= line_views(list@));
            join_texts(&parts, "<br/>\n")
        },
        None => {
            proof {
                reveal_strlit("\n");
                assert("\n"@.len() == 1);
            }
            replace_text(escape_html(section.body.as_str()).as_str(), "\n", "<br/>\n")
        },
    };
    cat5(
        "<section class=\"section\"><h2>",
        escape_html(section.title.as_str()).as_str(),
        "</h2><div class=\"content\">",
        content.as_str(),
        "</div></section>",
    )
}

pub const HTML_BEGIN: &'static str = "<!doctype html>\n<html lang=\"";

pub const HTML_HEAD: &'static str = "\">\n<head>\n<meta charset=\"utf-8\" />\n<meta name=\"viewport\" content=\"width=device-width, initial-scale=1\" />\n<title>";

pub const HTML_STYLE: &'static str = "</title>\n<style>\nbody{font-family:-apple-system,BlinkMacSystemFont,\"Segoe UI\",sans-serif;margin:2rem;color:#1f2430;background:#f8fafc;}\nmain{max-width:880px;margin:0 auto;padding:1.5rem 1.75rem;background:#fff;border:1px solid #dbe2ee;border-radius:14px;}\nh1{font-size:1.35rem;margin:0 0 1rem;}\n.section + .section{margin-top:1.75rem;padding-top:1.25rem;border-top:1px solid #e2e8f0;}\nh2{font-size:1rem;margin:0 0 0.75rem;}\n.content{line-height:1.6;font-size:1rem;word-break:break-word;}\n</style>\n</head>\n<body>\n<main>\n<h1>";

pub const HTML_MAIN: &'static str = "</h1>\n";

pub const HTML_END: &'static str = "\n</main>\n</body>\n</html>\n";

/// The sections of a page.
pub open spec fn html_sections(sections: Seq<SectionView>) -> Seq<char> {
    join(sections.map_values(|s: SectionView| html_section(s)), "\n"@)
}

/// The page of a document.
pub open spec fn html_page(language: Seq<char>, document: DocumentView) -> Seq<char> {
    HTML_BEGIN@ + language + HTML_HEAD@ + escaped(document.title) + HTML_STYLE@ + escaped(
        document.title,
    ) + HTML_MAIN@ + html_sections(document.sections) + HTML_END@
}

/// Writes a document as an HTML page.
pub fn export_html(language: &str, document: &ExportDocument) -> (r: String)
    ensures
        r@ == html_page(language@, document@),
{
    let ghost all = section_views(document.sections@);
    let ghost f = |s: SectionView| html_section(s);
    let mut parts: Vec<String> = Vec::new();
    let mut i: usize = 0;
    while i < document.sections.len()
        invariant
            i <= document.sections@.len(),
            all == section_views(document.sections@),
            f == |s: SectionView| html_section(s),
            views(parts@) =~= all.take(i as int).map_values(f),
        decreases document.sections@.len() - i,
    {
        let ghost prior = views(parts@);
        let part: String = write_html_section(&document.sections[i]);
        parts.push(part);
        proof {
            assert(all[i as int] == document.sections@[i as int]@);
            assert(part@ == f(all[i as int]));
            assert(views(parts@) =~= prior.push(part@));
        }
        i = i + 1;
    }
    assert(all.take(i as int) =~= all);
    let title: String = escape_html(document.title.as_str());
    let mut out: String = HTML_BEGIN.to_owned();
    out.append(language);
    out.append(HTML_HEAD);
    out.append(title.as_str());
    out.append(HTML_STYLE);
    out.append(title.as_str());
    out.append(HTML_MAIN);
    out.append(join_texts(&parts, "\n").as_str());
    out.append(HTML_END);
    out
}

/// The escaped texts of lines.
pub open spec fn escaped_texts(list: Seq<LineView>) -> Seq<Seq<char>> {
    list.map_values(|l: LineView| escaped(l.text))
}

proof fn lemma_html_line(line: LineView)
    ensures
        contains(html_line(line), escaped(line.text)),
        line.speaker_color matches Some(color) ==> contains(html_line(line), escaped(color)),
{
    let text = escaped(line.text);
    match line.speaker_color {
        Some(color) => {
            let a = "<span style=\"color:"@;
            let c = escaped(color);
            let b = "\">"@;
            let d = "</span>"@;
            lemma_contains_middle(a + c + b, text, d);
            lemma_contains_middle(a, c, b + text + d);
            assert(a + c + (b + text + d) =~= a + c + b + text + d);
        },
        None => {
            lemma_contains_middle(Seq::empty(), text, Seq::empty());
            assert(Seq::<char>::empty() + text + Seq::empty() =~= text);
        },
    }
}

/// A section with coloured lines shows the text of every line, in order and escaped, each on a line of
/// its own, and names the colours.
pub proof fn a_section_shows_every_line(section: SectionView) -> (parts: Seq<Seq<char>>)
    requires
        section.styled_lines is Some,
    ensures
        ({
            let list = section.styled_lines->0;
            let shown = html_content(section);
            &&& parts.len() == list.len()
            &&& in_order(shown, parts)
            &&& in_order(shown, escaped_texts(list))
            &&& list.len() > 0 ==> shown.len() == total_len(parts) + 6 * (list.len() - 1)
            &&& forall|i: int|
                0 <= i < list.len() ==> contains(#[trigger] parts[i], escaped(list[i].text)) && (
                list[i].speaker_color is Some ==> contains(
                    parts[i],
                    escaped(list[i].speaker_color->0),
                )) && (list[i].speaker_color is None ==> parts[i] == escaped(list[i].text))
        }),
{
    let list = section.styled_lines->0;
    let parts = list.map_values(|l: LineView| html_line(l));
    let shown = html_content(section);
    reveal_strlit("<br/>\n");
    a_join_holds_its_parts_in_order(parts, "<br/>\n"@);
    assert forall|i: int| 0 <= i < list.len() implies contains(
        #[trigger] parts[i],
        escaped(list[i].text),
    ) && (list[i].speaker_color is Some ==> contains(parts[i], escaped(list[i].speaker_color->0))) && (
    list[i].speaker_color is None ==> parts[i] == escaped(list[i].text)) by {
        lemma_html_line(list[i]);
    }
    lemma_in_order_inside(shown, parts, escaped_texts(list));
    parts
}

proof fn lemma_break(s: Seq<char>)
    requires
        forall|i: int| 0 <= i < s.len() ==> #[trigger] s[i] != '<',
    ensures
        replace(
            replace(s, seq!['\n'], seq!['<', 'b', 'r', '/', '>', '\n']),
            seq!['<', 'b', 'r', '/', '>', '\n'],
            seq!['\n'],
        ) == s,
    decreases s.len(),
{
    let nl = seq!['\n'];
    let br = seq!['<', 'b', 'r', '/', '>', '\n'];
    let done = replace(s, nl, br);
    if s.len() == 0 {
        assert(done =~= s);
    } else {
        let rest = s.skip(1);
        assert forall|i: int| 0 <= i < rest.len() implies #[trigger] rest[i] != '<' by {
            assert(rest[i] == s[i + 1]);
        }
        lemma_break(rest);
        let tail = replace(rest, nl, br);
        assert(s =~= seq![s[0]] + rest);
        if s[0] == '\n' {
            assert(s.take(1) =~= nl);
            assert(done =~= br + tail);
            assert(done.take(6) =~= br);
            assert(done.skip(6) =~= tail);
            assert(replace(done, br, nl) =~= s);
        } else {
            assert(!starts_with(s, nl)) by {
                assert(s.take(1)[0] == s[0]);
            }
            assert(done =~= seq![s[0]] + tail);
            assert(done.skip(1) =~= tail);
            assert(!starts_with(done, br)) by {
                if starts_with(done, br) {
                    assert(done.take(6)[0] == done[0]);
                }
            }
            assert(replace(done, br, nl) =~= s);
        }
    }
}

/// A section without coloured lines can be read back: with its line breaks as line feeds, and unescaped,
/// its content is its body.
pub proof fn a_section_gives_back_its_body(section: SectionView)
    requires
        section.styled_lines is None,
    ensures
        unescaped(replace(html_content(section), "<br/>\n"@, "\n"@)) == section.body,
{
    reveal_strlit("<br/>\n");
    reveal_strlit("\n");
    assert("<br/>\n"@ =~= seq!['<', 'b', 'r', '/', '>', '\n']);
    assert("\n"@ =~= seq!['\n']);
    let e = escaped(section.body);
    assert forall|i: int| 0 <= i < e.len() implies #[trigger] e[i] != '<' by {
        escaped_text_holds_no_markup(section.body, i);
    }
    lemma_break(e);
    an_escaped_text_gives_back_its_text(section.body);
}

proof fn lemma_heading_marks() -> (r: (Seq<char>, Seq<char>))
    ensures
        "<section class=\"section\"><h2>"@ == r.0 + "<h2>"@,
        "</h2><div class=\"content\">"@ == "</h2>"@ + r.1,
{
    reveal_strlit("<section class=\"section\"><h2>");
    reveal_strlit("</h2><div class=\"content\">");
    reveal_strlit("<h2>");
    reveal_strlit("</h2>");
    let a = "<section class=\"section\"><h2>"@;
    let b = "</h2><div class=\"content\">"@;
    assert(a =~= a.take(25) + "<h2>"@);
    assert(b =~= "</h2>"@ + b.skip(5));
    (a.take(25), b.skip(5))
}

proof fn lemma_headed(
    head: Seq<char>,
    h: Seq<char>,
    mid: Seq<char>,
    c: Seq<char>,
    tail: Seq<char>,
)
    ensures
        in_order(head + h + mid + c + tail, seq![h, c]),
{
    let none = Seq::<Seq<char>>::empty();
    lemma_in_order_push(Seq::empty(), none, head, h, Seq::empty());
    let s = Seq::<char>::empty() + head + h + Seq::<char>::empty();
    assert(s =~= head + h);
    assert(none.push(h) =~= seq![h]);
    lemma_in_order_push(s, seq![h], mid, c, tail);
    assert(seq![h].push(c) =~= seq![h, c]);
}

proof fn lemma_regrouped(
    head: Seq<char>,
    a: Seq<char>,
    t: Seq<char>,
    b: Seq<char>,
    mid: Seq<char>,
)
    ensures
        (head + a) + t + (b + mid) == head + (a + t + b) + mid,
{
    assert((head + a) + t + (b + mid) =~= head + (a + t + b) + mid);
}

/// A section shows its title as a heading above its content.
pub proof fn a_section_is_headed_by_its_title(section: SectionView)
    ensures
        in_order(
            html_section(section),
            seq!["<h2>"@ + escaped(section.title) + "</h2>"@, html_content(section)],
        ),
{
    let t = escaped(section.title);
    let c = html_content(section);
    let (head, mid) = lemma_heading_marks();
    lemma_regrouped(head, "<h2>"@, t, "</h2>"@, mid);
    lemma_headed(head, "<h2>"@ + t + "</h2>"@, mid, c, "</div></section>"@);
}

/// A page names its language, shows the title and all the sections, in order.
#[verifier::rlimit(40)]
pub proof fn a_page_shows_every_section(language: Seq<char>, document: DocumentView)
    ensures
        ({
            let page = html_page(language, document);
            &&& starts_with(page, HTML_BEGIN@ + language)
            &&& contains(page, "<title>"@ + escaped(document.title) + "</title>"@)
            &&& contains(page, "<h1>"@ + escaped(document.title) + "</h1>"@)
            &&& in_order(page, document.sections.map_values(|s: SectionView| html_section(s)))
        }),
{
    let page = html_page(language, document);
    let t = escaped(document.title);
    let list = document.sections.map_values(|s: SectionView| html_section(s));
    let body = html_sections(document.sections);
    let lead = HTML_BEGIN@ + language;
    assert(page.take(lead.len() as int) =~= lead);
    a_join_holds_its_parts_in_order(list, "\n"@);
    let front = lead + HTML_HEAD@ + t + HTML_STYLE@ + t + HTML_MAIN@;
    lemma_in_order_after(front, body, list);
    lemma_in_order_before(front + body, HTML_END@, list);
    assert(page =~= front + body + HTML_END@);
    lemma_html_marks();
    let head = HTML_HEAD@.take(HTML_HEAD@.len() - 7);
    let rest = HTML_STYLE@.skip(8);
    lemma_contains_middle(
        lead + head,
        "<title>"@ + t + "</title>"@,
        rest + t + HTML_MAIN@ + body + HTML_END@,
    );
    assert(HTML_HEAD@ =~= head + "<title>"@);
    assert(HTML_STYLE@ =~= "</title>"@ + rest);
    assert(lead + head + ("<title>"@ + t + "</title>"@) + (rest + t + HTML_MAIN@ + body + HTML_END@)
        =~= page);
    let up = HTML_STYLE@.take(HTML_STYLE@.len() - 4);
    let down = HTML_MAIN@.skip(5);
    lemma_contains_middle(
        lead + HTML_HEAD@ + t + up,
        "<h1>"@ + t + "</h1>"@,
        down + body + HTML_END@,
    );
    assert(HTML_STYLE@ =~= up + "<h1>"@);
    assert(HTML_MAIN@ =~= "</h1>"@ + down);
    assert(lead + HTML_HEAD@ + t + up + ("<h1>"@ + t + "</h1>"@) + (down + body + HTML_END@) =~= page);
}

proof fn lemma_html_marks()
    ensures
        HTML_HEAD@.len() >= 7,
        HTML_HEAD@.skip(HTML_HEAD@.len() - 7) == "<title>"@,
        HTML_STYLE@.len() >= 12,
        HTML_STYLE@.take(8) == "</title>"@,
        HTML_STYLE@.skip(HTML_STYLE@.len() - 4) == "<h1>"@,
        HTML_MAIN@.len() >= 5,
        HTML_MAIN@.take(5) == "</h1>"@,
{
    reveal_strlit("<title>");
    reveal_strlit("</title>");
    reveal_strlit("<h1>");
    reveal_strlit("</h1>");
    reveal_strlit("\">\n<head>\n<meta charset=\"utf-8\" />\n<meta name=\"viewport\" content=\"width=device-width, initial-scale=1\" />\n<title>");
    reveal_strlit("</h1>\n");
    reveal_strlit("</title>\n<style>\nbody{font-family:-apple-system,BlinkMacSystemFont,\"Segoe UI\",sans-serif;margin:2rem;color:#1f2430;background:#f8fafc;}\nmain{max-width:880px;margin:0 auto;padding:1.5rem 1.75rem;background:#fff;border:1px solid #dbe2ee;border-radius:14px;}\nh1{font-size:1.35rem;margin:0 0 1rem;}\n.section + .section{margin-top:1.75rem;padding-top:1.25rem;border-top:1px solid #e2e8f0;}\nh2{font-size:1rem;margin:0 0 0.75rem;}\n.content{line-height:1.6;font-size:1rem;word-break:break-word;}\n</style>\n</head>\n<body>\n<main>\n<h1>");
    assert(HTML_HEAD@.skip(HTML_HEAD@.len() - 7) =~= "<title>"@);
    assert(HTML_STYLE@.take(8) =~= "</title>"@);
    assert(HTML_STYLE@.skip(HTML_STYLE@.len() - 4) =~= "<h1>"@);
    assert(HTML_MAIN@.take(5) =~= "</h1>"@);
}

} // verus!
