//! Languages of transcripts: which one the AI writes in, and where the source changes language.

use vstd::prelude::*;
use vstd::string::*;

use crate::artifacts::words::normalized_timeline_match_text;
use crate::rounding::{as_single, find_single};
use crate::text::{
    ascii_lower, ascii_lower_text, contains, inked, join, join_texts, lemma_contains_around,
    lemma_contains_middle, lemma_inked_edge, opt_view, same_ascii_text, same_text, trim, trim_text,
    trimming_takes_white_only, views, words,
};
use crate::text_map::TextMap;

verus! {

/// A language of the interface.
#[derive(Clone, Copy, PartialEq, Eq, Structural, Debug)]
pub enum AppLanguage {
    En,
    It,
    Es,
    De,
}

/// The code of an interface language.
pub fn app_language_code(language: AppLanguage) -> (r: &'static str)
    ensures
        r@ == (match language {
            AppLanguage::En => "en"@,
            AppLanguage::It => "it"@,
            AppLanguage::Es => "es"@,
            AppLanguage::De => "de"@,
        }),
{
    match language {
        AppLanguage::En => "en",
        AppLanguage::It => "it",
        AppLanguage::Es => "es",
        AppLanguage::De => "de",
    }
}

/// The name under which a language is asked for in a prompt.
pub open spec fn display_name(code: Seq<char>) -> Seq<char> {
    let c = trim(code);
    if c == "auto"@ {
        "the same language as the transcript"@
    } else if c == "en"@ {
        "English"@
    } else if c == "it"@ {
        "Italian"@
    } else if c == "fr"@ {
        "French"@
    } else if c == "de"@ {
        "German"@
    } else if c == "es"@ {
        "Spanish"@
    } else if c == "pt"@ {
        "Portuguese"@
    } else if c == "zh"@ {
        "Chinese"@
    } else if c == "ja"@ {
        "Japanese"@
    } else {
        "the requested language"@
    }
}

/// Names a language in a prompt.
pub fn language_display_name(language_code: &str) -> (r: &'static str)
    ensures
        r@ == display_name(language_code@),
{
    let code: String = trim_text(language_code);
    let c: &str = code.as_str();
    if same_text(c, "auto") {
        "the same language as the transcript"
    } else if same_text(c, "en") {
        "English"
    } else if same_text(c, "it") {
        "Italian"
    } else if same_text(c, "fr") {
        "French"
    } else if same_text(c, "de") {
        "German"
    } else if same_text(c, "es") {
        "Spanish"
    } else if same_text(c, "pt") {
        "Portuguese"
    } else if same_text(c, "zh") {
        "Chinese"
    } else if same_text(c, "ja") {
        "Japanese"
    } else {
        "the requested language"
    }
}

/// A known code names its language, with white space around it or not, and no other code names any.
pub proof fn known_codes_name_their_languages(code: Seq<char>)
    ensures
        trim(code) == "auto"@ <==> display_name(code) == "the same language as the transcript"@,
        trim(code) == "en"@ <==> display_name(code) == "English"@,
        trim(code) == "it"@ <==> display_name(code) == "Italian"@,
        trim(code) == "fr"@ <==> display_name(code) == "French"@,
        trim(code) == "de"@ <==> display_name(code) == "German"@,
        trim(code) == "es"@ <==> display_name(code) == "Spanish"@,
        trim(code) == "pt"@ <==> display_name(code) == "Portuguese"@,
        trim(code) == "zh"@ <==> display_name(code) == "Chinese"@,
        trim(code) == "ja"@ <==> display_name(code) == "Japanese"@,
{
    lemma_names_apart();
    lemma_codes_apart();
}

proof fn lemma_codes_apart()
    ensures
        "auto"@.len() == 4,
        "en"@ == seq!['e', 'n'],
        "it"@ == seq!['i', 't'],
        "fr"@ == seq!['f', 'r'],
        "de"@ == seq!['d', 'e'],
        "es"@ == seq!['e', 's'],
        "pt"@ == seq!['p', 't'],
        "zh"@ == seq!['z', 'h'],
        "ja"@ == seq!['j', 'a'],
        "en"@[0] == 'e' && "en"@[1] == 'n' && "en"@.len() == 2,
        "it"@[0] == 'i' && "it"@.len() == 2,
        "fr"@[0] == 'f' && "fr"@.len() == 2,
        "de"@[0] == 'd' && "de"@.len() == 2,
        "es"@[0] == 'e' && "es"@[1] == 's' && "es"@.len() == 2,
        "pt"@[0] == 'p' && "pt"@.len() == 2,
        "zh"@[0] == 'z' && "zh"@.len() == 2,
        "ja"@[0] == 'j' && "ja"@.len() == 2,
{
    reveal_strlit("auto");
    reveal_strlit("en");
    reveal_strlit("it");
    reveal_strlit("fr");
    reveal_strlit("de");
    reveal_strlit("es");
    reveal_strlit("pt");
    reveal_strlit("zh");
    reveal_strlit("ja");
}

proof fn lemma_names_apart()
    ensures
        "the same language as the transcript"@[4] == 's' && "the requested language"@[4] == 'r',
        "the same language as the transcript"@[0] == 't' && "the requested language"@[0] == 't',
        "English"@[0] == 'E',
        "Italian"@[0] == 'I',
        "French"@[0] == 'F',
        "German"@[0] == 'G',
        "Spanish"@[0] == 'S',
        "Portuguese"@[0] == 'P',
        "Chinese"@[0] == 'C',
        "Japanese"@[0] == 'J',
{
    reveal_strlit("the same language as the transcript");
    reveal_strlit("the requested language");
    reveal_strlit("English");
    reveal_strlit("Italian");
    reveal_strlit("French");
    reveal_strlit("German");
    reveal_strlit("Spanish");
    reveal_strlit("Portuguese");
    reveal_strlit("Chinese");
    reveal_strlit("Japanese");
}

// ---------------------------------------------------------------------------
// The language that the AI writes in
// ---------------------------------------------------------------------------

/// A language that was heard in a recording.
#[derive(Debug)]
pub struct DetectedLanguage {
    pub code: String,
    /// Orders languages as the seconds do for which they were heard; none at all are zero.
    pub duration_rank: i64,
    pub character_count: usize,
}

/// Whether any language was heard for some time.
pub open spec fn has_duration(list: Seq<DetectedLanguage>) -> bool {
    exists|i: int| 0 <= i < list.len() && (#[trigger] list[i]).duration_rank > 0
}

/// How much of a language was heard: for how long, or else how many characters, in single
/// precision.
pub open spec fn weight(language: DetectedLanguage, by_duration: bool) -> int {
    if by_duration {
        language.duration_rank as int
    } else {
        as_single(language.character_count as nat) as int
    }
}

/// The index of the language that was heard most; the last of several.
pub open spec fn dominant(list: Seq<DetectedLanguage>, by_duration: bool) -> int
    decreases list.len(),
{
    if list.len() <= 1 {
        0
    } else {
        let best = dominant(list.drop_last(), by_duration);
        if weight(list.last(), by_duration) >= weight(list[best], by_duration) {
            list.len() - 1
        } else {
            best
        }
    }
}

/// The dominant language outweighs every other, and strictly every later one.
pub proof fn dominant_outweighs(list: Seq<DetectedLanguage>, by_duration: bool, i: int)
    requires
        0 <= i < list.len(),
    ensures
        0 <= dominant(list, by_duration) < list.len(),
        weight(list[i], by_duration) <= weight(list[dominant(list, by_duration)], by_duration),
        i > dominant(list, by_duration) ==> weight(list[i], by_duration) < weight(
            list[dominant(list, by_duration)],
            by_duration,
        ),
    decreases list.len(),
{
    if list.len() > 1 {
        let front = list.drop_last();
        if i < front.len() {
            dominant_outweighs(front, by_duration, i);
            assert(front[i] == list[i]);
        } else {
            dominant_outweighs(front, by_duration, 0);
        }
        assert(front[dominant(front, by_duration)] == list[dominant(front, by_duration)]);
    }
}

/// The code that a table of known languages gives for a code.
pub open spec fn known_code(known: Map<Seq<char>, Seq<char>>, code: Seq<char>) -> Option<
    Seq<char>,
> {
    if known.contains_key(code) {
        Some(known[code])
    } else {
        None
    }
}

/// Whether a processing language says which language was spoken.
pub open spec fn tells_language(language: Seq<char>) -> bool {
    &&& language.len() > 0
    &&& ascii_lower(language) != ascii_lower("auto"@)
    &&& ascii_lower(language) != ascii_lower("mixed"@)
    &&& ascii_lower(language) != ascii_lower("und"@)
}

/// The language that the AI writes in: the one asked for; else the one heard most; else the one
/// that was processed; else that of the interface.
pub open spec fn output_language(
    requested: Seq<char>,
    detected: Option<Seq<DetectedLanguage>>,
    processing: Option<Seq<char>>,
    interface: Seq<char>,
    known: Map<Seq<char>, Seq<char>>,
) -> Seq<char> {
    let asked = trim(requested);
    if asked.len() > 0 && ascii_lower(asked) != ascii_lower("auto"@) {
        match known_code(known, asked) {
            Some(code) => code,
            None => ascii_lower(asked),
        }
    } else if detected is Some && detected->0.len() > 0 {
        detected->0[dominant(detected->0, has_duration(detected->0))].code@
    } else if processing is Some && tells_language(processing->0) {
        ascii_lower(processing->0)
    } else {
        match known_code(known, interface) {
            Some(code) => code,
            None => "en"@,
        }
    }
}

fn find_dominant(list: &Vec<DetectedLanguage>) -> (r: usize)
    requires
        list@.len() > 0,
    ensures
        r == dominant(list@, has_duration(list@)),
        r < list@.len(),
{
    let mut by_duration: bool = false;
    let mut i: usize = 0;
    while i < list.len()
        invariant
            i <= list@.len(),
            by_duration == exists|k: int| 0 <= k < i && (#[trigger] list@[k]).duration_rank > 0,
        decreases list@.len() - i,
    {
        if list[i].duration_rank > 0 {
            by_duration = true;
        }
        i = i + 1;
    }
    let mut best: usize = 0;
    let mut j: usize = 1;
    while j < list.len()
        invariant
            1 <= j <= list@.len(),
            best < j,
            best == dominant(list@.take(j as int), by_duration),
        decreases list@.len() - j,
    {
        let ghost now = list@.take(j + 1);
        assert(now.drop_last() =~= list@.take(j as int));
        assert(now.last() == list@[j as int]);
        assert(now[best as int] == list@[best as int]);
        let later: bool = if by_duration {
            list[j].duration_rank >= list[best].duration_rank
        } else {
            find_single(list[j].character_count as u64) >= find_single(
                list[best].character_count as u64,
            )
        };
        if later {
            best = j;
        }
        j = j + 1;
    }
    assert(list@.take(j as int) =~= list@);
    best
}

/// Chooses the language that the AI writes in. `detected` holds the languages heard in the
/// recording, where its metadata tells them; `known` gives the codes of known languages.
pub fn resolve_ai_output_language(
    requested: &str,
    detected: &Option<Vec<DetectedLanguage>>,
    processing: &Option<String>,
    interface_language: &str,
    known: &TextMap,
) -> (r: String)
    ensures
        r@ == output_language(
            requested@,
            (match detected {
                Some(list) => Some(list@),
                None => None,
            }),
            opt_view(*processing),
            interface_language@,
            known@,
        ),
{
    let asked: String = trim_text(requested);
    if !asked.as_str().is_empty() && !same_ascii_text(asked.as_str(), "auto") {
        return match known.get(asked.as_str()) {
            Some(code) => code.to_owned(),
            None => ascii_lower_text(asked.as_str()),
        };
    }
    if let Some(list) = detected {
        if list.len() > 0 {
            let best: usize = find_dominant(list);
            return list[best].code.clone();
        }
    }
    if let Some(language) = processing {
        let l: &str = language.as_str();
        if !l.is_empty() && !same_ascii_text(l, "auto") && !same_ascii_text(l, "mixed")
            && !same_ascii_text(l, "und") {
            return ascii_lower_text(l);
        }
    }
    match known.get(interface_language) {
        Some(code) => code.to_owned(),
        None => "en".to_owned(),
    }
}

/// A language that is asked for is the one that is written in, whatever was heard: under its known code,
/// or in small letters where it is not known.
pub proof fn an_asked_language_goes_first(
    requested: Seq<char>,
    detected: Option<Seq<DetectedLanguage>>,
    processing: Option<Seq<char>>,
    interface: Seq<char>,
    known: Map<Seq<char>, Seq<char>>,
)
    requires
        inked(requested).len() > 0,
        ascii_lower(trim(requested)) != ascii_lower("auto"@),
    ensures
        ({
            let r = output_language(requested, detected, processing, interface, known);
            &&& known.contains_key(trim(requested)) ==> r == known[trim(requested)]
            &&& !known.contains_key(trim(requested)) ==> r == ascii_lower(trim(requested))
        }),
{
    trimming_takes_white_only(requested);
    lemma_inked_edge(trim(requested));
}

/// Where no language is asked for, the one that was heard most is written in: for the longest time, or
/// in the most characters where no times are known.
pub proof fn the_language_heard_most_is_used(
    requested: Seq<char>,
    list: Seq<DetectedLanguage>,
    processing: Option<Seq<char>>,
    interface: Seq<char>,
    known: Map<Seq<char>, Seq<char>>,
) -> (best: int)
    requires
        inked(requested).len() == 0 || ascii_lower(trim(requested)) == ascii_lower("auto"@),
        list.len() > 0,
    ensures
        0 <= best < list.len(),
        output_language(requested, Some(list), processing, interface, known) == list[best].code@,
        (exists|i: int| 0 <= i < list.len() && (#[trigger] list[i]).duration_rank > 0) ==> forall|i: int|
            0 <= i < list.len() ==> (#[trigger] list[i]).duration_rank <= list[best].duration_rank,
        (forall|i: int| 0 <= i < list.len() ==> (#[trigger] list[i]).duration_rank <= 0) ==> forall|
            i: int,
        |
            0 <= i < list.len() ==> as_single((#[trigger] list[i]).character_count as nat)
                <= as_single(list[best].character_count as nat),
        (exists|i: int| 0 <= i < list.len() && (#[trigger] list[i]).duration_rank > 0) ==> forall|i: int|
            best < i < list.len() ==> (#[trigger] list[i]).duration_rank < list[best].duration_rank,
{
    trimming_takes_white_only(requested);
    lemma_inked_edge(trim(requested));
    let by = has_duration(list);
    let best = dominant(list, by);
    dominant_outweighs(list, by, 0);
    assert forall|i: int| 0 <= i < list.len() implies weight(#[trigger] list[i], by) <= weight(
        list[best],
        by,
    ) && (i > best ==> weight(list[i], by) < weight(list[best], by)) by {
        dominant_outweighs(list, by, i);
    }
    best
}

/// Where nothing was asked for and no language was heard, the one that was processed is written in, if it
/// says which it is, and else that of the interface, or English.
pub proof fn without_a_heard_language_others_are_used(
    requested: Seq<char>,
    processing: Option<Seq<char>>,
    interface: Seq<char>,
    known: Map<Seq<char>, Seq<char>>,
)
    requires
        inked(requested).len() == 0 || ascii_lower(trim(requested)) == ascii_lower("auto"@),
    ensures
        ({
            let r = output_language(requested, None, processing, interface, known);
            let told = processing is Some && processing->0.len() > 0 && ascii_lower(processing->0)
                != ascii_lower("auto"@) && ascii_lower(processing->0) != ascii_lower("mixed"@)
                && ascii_lower(processing->0) != ascii_lower("und"@);
            &&& told ==> r == ascii_lower(processing->0)
            &&& !told && known.contains_key(interface) ==> r == known[interface]
            &&& !told && !known.contains_key(interface) ==> r == "en"@
        }),
{
    trimming_takes_white_only(requested);
    lemma_inked_edge(trim(requested));
}

// ---------------------------------------------------------------------------
// Where the source changes language
// ---------------------------------------------------------------------------

/// A stretch of a transcript in one language.
#[derive(Debug)]
pub struct SourceLanguageOptimizationGroup {
    pub language_code: String,
    pub text: String,
}

/// The content of a [`SourceLanguageOptimizationGroup`].
pub struct GroupView {
    pub language_code: Seq<char>,
    pub text: Seq<char>,
}

impl View for SourceLanguageOptimizationGroup {
    type V = GroupView;

    open spec fn view(&self) -> GroupView {
        GroupView { language_code: self.language_code@, text: self.text@ }
    }
}

/// The contents of a list of groups.
pub open spec fn group_views(v: Seq<SourceLanguageOptimizationGroup>) -> Seq<GroupView> {
    v.map_values(|g: SourceLanguageOptimizationGroup| g@)
}

/// The code under which a source language is processed; one that is not known is left to the AI.
pub open spec fn source_language(
    language: Option<Seq<char>>,
    known: Map<Seq<char>, Seq<char>>,
) -> Seq<char> {
    match language {
        None => "auto"@,
        Some(l) => {
            let t = trim(l);
            if t.len() == 0 || ascii_lower(t) == ascii_lower("auto"@) || ascii_lower(t)
                == ascii_lower("und"@) {
                "auto"@
            } else {
                match known_code(known, t) {
                    Some(code) => code,
                    None => "auto"@,
                }
            }
        },
    }
}

/// Normalizes the language of a segment.
pub fn normalize_source_language(language: &Option<String>, known: &TextMap) -> (r: String)
    ensures
        r@ == source_language(opt_view(*language), known@),
{
    match language {
        None => "auto".to_owned(),
        Some(l) => {
            let t: String = trim_text(l.as_str());
            if t.as_str().is_empty() || same_ascii_text(t.as_str(), "auto") || same_ascii_text(
                t.as_str(),
                "und",
            ) {
                return "auto".to_owned();
            }
            match known.get(t.as_str()) {
                Some(code) => code.to_owned(),
                None => "auto".to_owned(),
            }
        },
    }
}

/// A segment of a timeline, as far as its language is concerned.
#[derive(Debug)]
pub struct LanguageSegment {
    pub language_code: Option<String>,
    pub text: String,
}

/// The groups of segments: neighbours in one language belong together; blank segments are left
/// out.
pub open spec fn language_groups(
    segments: Seq<LanguageSegment>,
    known: Map<Seq<char>, Seq<char>>,
) -> Seq<GroupView>
    decreases segments.len(),
{
    if segments.len() == 0 {
        Seq::empty()
    } else {
        let groups = language_groups(segments.drop_last(), known);
        let text = trim(segments.last().text@);
        let code = source_language(opt_view(segments.last().language_code), known);
        if text.len() == 0 {
            groups
        } else if groups.len() > 0 && groups.last().language_code == code {
            groups.drop_last().push(
                GroupView { language_code: code, text: groups.last().text + "\n"@ + text },
            )
        } else {
            groups.push(GroupView { language_code: code, text })
        }
    }
}

/// No two neighbouring groups have the same language, and none is empty: a group ends exactly
/// where the language changes.
pub proof fn groups_end_at_language_changes(
    segments: Seq<LanguageSegment>,
    known: Map<Seq<char>, Seq<char>>,
)
    ensures
        ({
            let groups = language_groups(segments, known);
            &&& forall|i: int| 0 <= i < groups.len() ==> (#[trigger] groups[i]).text.len() > 0
            &&& forall|i: int|
                0 <= i < groups.len() - 1 ==> (#[trigger] groups[i]).language_code != groups[i
                    + 1].language_code
        }),
    decreases segments.len(),
{
    if segments.len() > 0 {
        let before = language_groups(segments.drop_last(), known);
        let groups = language_groups(segments, known);
        groups_end_at_language_changes(segments.drop_last(), known);
        assert forall|i: int| 0 <= i < groups.len() implies (#[trigger] groups[i]).text.len()
            > 0 by {
            if i < before.len() {
                assert(before[i].text.len() > 0);
            }
        }
        assert forall|i: int| 0 <= i < groups.len() - 1 implies (
        #[trigger] groups[i]).language_code != groups[i + 1].language_code by {
            if i < before.len() - 1 {
                assert(before[i].language_code != before[i + 1].language_code);
            }
        }
    }
}

/// Every segment that says anything is in a group of its own language, with its whole text.
pub proof fn every_segment_is_in_a_group_of_its_language(
    segments: Seq<LanguageSegment>,
    known: Map<Seq<char>, Seq<char>>,
    i: int,
) -> (g: int)
    requires
        0 <= i < segments.len(),
        inked(segments[i].text@).len() > 0,
    ensures
        0 <= g < language_groups(segments, known).len(),
        language_groups(segments, known)[g].language_code == source_language(
            opt_view(segments[i].language_code),
            known,
        ),
        contains(language_groups(segments, known)[g].text, trim(segments[i].text@)),
    decreases segments.len(),
{
    let before = language_groups(segments.drop_last(), known);
    let groups = language_groups(segments, known);
    let text = trim(segments.last().text@);
    let code = source_language(opt_view(segments.last().language_code), known);
    trimming_takes_white_only(segments[i].text@);
    lemma_inked_edge(trim(segments[i].text@));
    if i == segments.len() - 1 {
        let g = groups.len() - 1;
        if before.len() > 0 && before.last().language_code == code {
            let old_text = before.last().text;
            lemma_contains_middle(old_text + "\n"@, text, Seq::empty());
            assert(old_text + "\n"@ + text + Seq::empty() =~= old_text + "\n"@ + text);
        } else {
            lemma_contains_middle(Seq::empty(), text, Seq::empty());
            assert(Seq::<char>::empty() + text + Seq::empty() =~= text);
        }
        g
    } else {
        assert(segments.drop_last()[i] == segments[i]);
        let g = every_segment_is_in_a_group_of_its_language(segments.drop_last(), known, i);
        if text.len() > 0 && before.last().language_code == code && g == before.len() - 1 {
            let old_text = before.last().text;
            lemma_contains_around(Seq::empty(), old_text, "\n"@ + text, trim(segments[i].text@));
            assert(Seq::<char>::empty() + old_text + ("\n"@ + text) =~= old_text + "\n"@ + text);
        }
        g
    }
}

/// The language of a segment is processed under its known code; without one, the AI finds it out.
pub proof fn a_known_source_language_is_told(
    language: Option<Seq<char>>,
    known: Map<Seq<char>, Seq<char>>,
)
    ensures
        language is None ==> source_language(language, known) == "auto"@,
        language matches Some(l) ==> {
            let open = inked(l).len() == 0 || ascii_lower(trim(l)) == ascii_lower("auto"@)
                || ascii_lower(trim(l)) == ascii_lower("und"@);
            &&& !open && known.contains_key(trim(l)) ==> source_language(language, known)
                == known[trim(l)]
            &&& open || !known.contains_key(trim(l)) ==> source_language(language, known) == "auto"@
        },
{
    if language is Some {
        trimming_takes_white_only(language->0);
        lemma_inked_edge(trim(language->0));
    }
}

/// The texts of groups.
pub open spec fn group_texts(groups: Seq<GroupView>) -> Seq<Seq<char>> {
    groups.map_values(|g: GroupView| g.text)
}

/// The trimmed texts of the segments that are not blank.
pub open spec fn spoken_texts(segments: Seq<LanguageSegment>) -> Seq<Seq<char>>
    decreases segments.len(),
{
    if segments.len() == 0 {
        Seq::empty()
    } else {
        let text = trim(segments.last().text@);
        if text.len() == 0 {
            spoken_texts(segments.drop_last())
        } else {
            spoken_texts(segments.drop_last()).push(text)
        }
    }
}

/// Grouping by language loses nothing and moves nothing: the groups, one line after the other,
/// are the texts of the segments that are not blank, one line after the other.
pub proof fn language_groups_keep_every_text(
    segments: Seq<LanguageSegment>,
    known: Map<Seq<char>, Seq<char>>,
)
    ensures
        join(group_texts(language_groups(segments, known)), "\n"@) == join(
            spoken_texts(segments),
            "\n"@,
        ),
        language_groups(segments, known).len() == 0 <==> spoken_texts(segments).len() == 0,
    decreases segments.len(),
{
    let groups = language_groups(segments, known);
    let texts = group_texts(groups);
    if segments.len() == 0 {
        assert(texts =~= Seq::empty());
    } else {
        let before = language_groups(segments.drop_last(), known);
        let old_texts = group_texts(before);
        language_groups_keep_every_text(segments.drop_last(), known);
        let text = trim(segments.last().text@);
        let code = source_language(opt_view(segments.last().language_code), known);
        if text.len() > 0 {
            assert(spoken_texts(segments).drop_last() =~= spoken_texts(segments.drop_last()));
            if before.len() > 0 && before.last().language_code == code {
                let front = group_texts(before.drop_last());
                assert(texts.drop_last() =~= front);
                assert(old_texts.drop_last() =~= front);
                assert(texts.last() =~= old_texts.last() + "\n"@ + text);
                assert(join(texts, "\n"@) =~= join(old_texts, "\n"@) + "\n"@ + text);
            } else {
                assert(texts.drop_last() =~= old_texts);
                assert(texts.last() == text);
            }
        }
    }
}

/// Groups neighbouring segments by language.
pub fn contiguous_source_language_groups(segments: &Vec<LanguageSegment>, known: &TextMap) -> (r:
    Vec<SourceLanguageOptimizationGroup>)
    ensures
        group_views(r@) == language_groups(segments@, known@),
{
    let mut out: Vec<SourceLanguageOptimizationGroup> = Vec::new();
    let mut i: usize = 0;
    while i < segments.len()
        invariant
            i <= segments@.len(),
            group_views(out@) =~= language_groups(segments@.take(i as int), known@),
        decreases segments@.len() - i,
    {
        let ghost now = segments@.take(i + 1);
        let ghost groups = group_views(out@);
        assert(now.drop_last() =~= segments@.take(i as int));
        assert(now.last() == segments@[i as int]);
        let text: String = trim_text(segments[i].text.as_str());
        if !text.as_str().is_empty() {
            let code: String = normalize_source_language(&segments[i].language_code, known);
            let n: usize = out.len();
            if n > 0 && same_text(out[n - 1].language_code.as_str(), code.as_str()) {
                let mut merged: String = out[n - 1].text.clone();
                assert(groups.last().text == merged@);
                merged.append("\n");
                merged.append(text.as_str());
                let group = SourceLanguageOptimizationGroup { language_code: code, text: merged };
                out.set(n - 1, group);
                assert(group_views(out@) =~= groups.drop_last().push(group@));
            } else {
                let group = SourceLanguageOptimizationGroup { language_code: code, text };
                assert(n > 0 ==> groups.last().language_code == out@[n - 1].language_code@);
                out.push(group);
                assert(group_views(out@) =~= groups.push(group@));
            }
        }
        i = i + 1;
    }
    assert(segments@.take(i as int) =~= segments@);
    out
}

/// The texts of segments.
pub open spec fn segment_texts(segments: Seq<LanguageSegment>) -> Seq<Seq<char>> {
    segments.map_values(|s: LanguageSegment| s.text@)
}

/// Whether a text is that of a timeline, white space aside.
pub open spec fn is_timeline_text(segments: Seq<LanguageSegment>, text: Seq<char>) -> bool {
    segments.len() > 0 && join(words(join(segment_texts(segments), "\n"@)), " "@) == join(
        words(text),
        " "@,
    )
}

/// The groups in which a submitted text is optimized: those of the timeline while the text is the
/// timeline's, else the text as one.
pub open spec fn optimization_groups(
    segments: Seq<LanguageSegment>,
    submitted: Seq<char>,
    known: Map<Seq<char>, Seq<char>>,
) -> Seq<GroupView> {
    let text = trim(submitted);
    if text.len() == 0 {
        Seq::empty()
    } else if is_timeline_text(segments, text) {
        language_groups(segments, known)
    } else {
        seq![GroupView { language_code: "auto"@, text }]
    }
}

/// Groups a submitted text by language.
pub fn manual_optimization_groups(
    segments: &Vec<LanguageSegment>,
    submitted_text: &str,
    known: &TextMap,
) -> (r: Vec<SourceLanguageOptimizationGroup>)
    ensures
        group_views(r@) == optimization_groups(segments@, submitted_text@, known@),
{
    let text: String = trim_text(submitted_text);
    let mut out: Vec<SourceLanguageOptimizationGroup> = Vec::new();
    if text.as_str().is_empty() {
        assert(group_views(out@) =~= Seq::empty());
        return out;
    }
    let mut parts: Vec<String> = Vec::new();
    let mut i: usize = 0;
    while i < segments.len()
        invariant
            i <= segments@.len(),
            views(parts@) =~= segment_texts(segments@).take(i as int),
        decreases segments@.len() - i,
    {
        let ghost prior = views(parts@);
        let part: String = segments[i].text.clone();
        parts.push(part);
        assert(views(parts@) =~= prior.push(part@));
        i = i + 1;
    }
    assert(segment_texts(segments@).take(i as int) =~= segment_texts(segments@));
    let timeline: String = join_texts(&parts, "\n");
    if segments.len() > 0 && same_text(
        normalized_timeline_match_text(timeline.as_str()).as_str(),
        normalized_timeline_match_text(text.as_str()).as_str(),
    ) {
        return contiguous_source_language_groups(segments, known);
    }
    out.push(SourceLanguageOptimizationGroup { language_code: "auto".to_owned(), text });
    assert(group_views(out@) =~= seq![GroupView { language_code: "auto"@, text: text@ }]);
    out
}

/// The text of a timeline is optimized by its languages, and a text that was changed as one piece, whole.
pub proof fn a_changed_text_is_one_group(
    segments: Seq<LanguageSegment>,
    submitted: Seq<char>,
    known: Map<Seq<char>, Seq<char>>,
)
    ensures
        inked(submitted).len() == 0 ==> optimization_groups(segments, submitted, known).len() == 0,
        inked(submitted).len() > 0 && segments.len() > 0 && trim(submitted) == join(
            segment_texts(segments),
            "\n"@,
        ) ==> optimization_groups(segments, submitted, known) == language_groups(segments, known),
        inked(submitted).len() > 0 && (segments.len() == 0 || join(
            words(join(segment_texts(segments), "\n"@)),
            " "@,
        ) != join(words(trim(submitted)), " "@)) ==> optimization_groups(segments, submitted, known)
            == seq![GroupView { language_code: "auto"@, text: trim(submitted) }],
{
    trimming_takes_white_only(submitted);
    lemma_inked_edge(trim(submitted));
}

} // verus!
