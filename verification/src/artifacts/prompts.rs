//! Prompts for summaries and for the documents made of a transcript.

use vstd::prelude::*;
use vstd::string::*;

use crate::artifacts::language::{display_name, language_display_name};
use crate::artifacts::payloads::{GeneratedArtifactPackKind, SummarizeArtifactPayload};
use crate::text::{
    cat3, contains, decimal, join, join_holds_its_parts, join_holds_no_more, join_texts,
    lemma_contains_around, lemma_contains_middle, lemma_found, lemma_not_contained, opt_view, push_decimal, starts_with, trim,
    trim_text, views,
};

verus! {

/// The metadata entry of a study pack.
pub const STUDY_PACK_METADATA_KEY: &'static str = "study_pack_v1";

/// The metadata entry of a meeting pack.
pub const MEETING_PACK_METADATA_KEY: &'static str = "meeting_intelligence_v1";

/// The metadata entry under which a pack is stored.
pub open spec fn pack_key(kind: GeneratedArtifactPackKind) -> Seq<char> {
    match kind {
        GeneratedArtifactPackKind::StudyPack => STUDY_PACK_METADATA_KEY@,
        GeneratedArtifactPackKind::MeetingIntelligence => MEETING_PACK_METADATA_KEY@,
    }
}

/// Names the metadata entry under which a pack is stored.
pub fn generated_pack_metadata_key(kind: GeneratedArtifactPackKind) -> (r: &'static str)
    ensures
        r@ == pack_key(kind),
{
    match kind {
        GeneratedArtifactPackKind::StudyPack => STUDY_PACK_METADATA_KEY,
        GeneratedArtifactPackKind::MeetingIntelligence => MEETING_PACK_METADATA_KEY,
    }
}

/// The two kinds of packs are stored apart.
pub proof fn packs_are_stored_apart(a: GeneratedArtifactPackKind, b: GeneratedArtifactPackKind)
    ensures
        pack_key(a) == pack_key(b) <==> a == b,
{
    reveal_strlit("study_pack_v1");
    reveal_strlit("meeting_intelligence_v1");
    assert(STUDY_PACK_METADATA_KEY@.len() != MEETING_PACK_METADATA_KEY@.len());
}

/// Adds a line.
fn push_line(lines: &mut Vec<String>, line: &str)
    ensures
        views(final(lines)@) == views(old(lines)@).push(line@),
{
    lines.push(line.to_owned());
    assert(views(lines@) =~= views(old(lines)@).push(line@));
}

// ---------------------------------------------------------------------------
// Summaries
// ---------------------------------------------------------------------------

pub const SUMMARY_ONLY: &'static str = "Produce only the final summary text. Do not add meta-commentary about the summarization process.";

pub const SUMMARY_STANDS_ALONE: &'static str = "Assume the reader has not listened to the recording. The summary must stand on its own and preserve the substance of the discussion.";

pub const SUMMARY_LANGUAGE_BOUNDARIES: &'static str = "Preserve every source-language boundary in the transcript; never merge content across a language change.";

pub const SUMMARY_SECTIONS_WITH_BULLETS: &'static str = "Organize the summary into clearly titled sections and use bullet points within sections when they improve clarity.";

pub const SUMMARY_SECTIONS: &'static str = "Organize the summary into clearly titled sections and write each section in polished prose paragraphs.";

pub const SUMMARY_BULLETS: &'static str = "Write the summary as a single untitled bullet list without section headings.";

pub const SUMMARY_PROSE: &'static str = "Write the summary as a single continuous section without headings or bullet lists.";

pub const SUMMARY_KEY_POINTS: &'static str = "Focus on the most important points, decisions, and takeaways. Omit minor tangents.";

pub const SUMMARY_THOROUGH: &'static str = "Be thorough and cover all major topics with supporting details, technical explanations, examples, numbers, named entities, and the relationships between ideas.";

pub const SUMMARY_NOT_TERSE: &'static str = "Do not settle for a terse recap: explain what was discussed, why it mattered, and how the different topics connect.";

pub const SUMMARY_ACTION_ITEMS: &'static str = "Include a dedicated final section for action items, tasks, decisions, or next steps when they appear in the transcript.";

pub const SUMMARY_NO_ACTION_ITEMS: &'static str = "Do not add a dedicated action-items section. Integrate next steps into the summary only when they are genuinely discussed.";

pub const SUMMARY_TIMESTAMPS: &'static str = "Where timestamps are available in the transcript, keep them next to the relevant point.";

pub const SUMMARY_NO_TIMESTAMPS: &'static str = "Do not include timestamps in the final summary.";

pub const SUMMARY_SPEAKERS: &'static str = "Attribute statements to named speakers when speaker labels are available.";

pub const SUMMARY_NO_SPEAKERS: &'static str = "Do not include speaker attributions in the final summary.";

pub const SUMMARY_CUSTOM: &'static str = "Additional user instructions (apply these unless they conflict with the required language and formatting rules above):\n";

/// How a summary is laid out.
pub open spec fn layout_line(sections: bool, bullet_points: bool) -> Seq<char> {
    if sections && bullet_points {
        SUMMARY_SECTIONS_WITH_BULLETS@
    } else if sections {
        SUMMARY_SECTIONS@
    } else if bullet_points {
        SUMMARY_BULLETS@
    } else {
        SUMMARY_PROSE@
    }
}

/// The lines of the instructions for a summary. What the user adds comes last.
pub open spec fn summary_lines(payload: SummarizeArtifactPayload, language: Seq<char>) -> Seq<
    Seq<char>,
> {
    let name = display_name(language);
    let custom = opt_view(payload.custom_prompt);
    seq![
        "Write a detailed, self-contained brief in "@ + name + "."@,
        "The entire output must be in "@ + name + "."@,
        SUMMARY_ONLY@,
        SUMMARY_STANDS_ALONE@,
        SUMMARY_LANGUAGE_BOUNDARIES@,
        layout_line(payload.sections, payload.bullet_points),
    ] + (if payload.key_points_only {
        seq![SUMMARY_KEY_POINTS@]
    } else {
        seq![SUMMARY_THOROUGH@, SUMMARY_NOT_TERSE@]
    }) + seq![
        if payload.action_items {
            SUMMARY_ACTION_ITEMS@
        } else {
            SUMMARY_NO_ACTION_ITEMS@
        },
        if payload.context.include_timestamps {
            SUMMARY_TIMESTAMPS@
        } else {
            SUMMARY_NO_TIMESTAMPS@
        },
        if payload.context.include_speakers {
            SUMMARY_SPEAKERS@
        } else {
            SUMMARY_NO_SPEAKERS@
        },
    ] + (if custom is Some && trim(custom->0).len() > 0 {
        seq![SUMMARY_CUSTOM@ + trim(custom->0)]
    } else {
        Seq::empty()
    })
}

/// The instructions for a summary.
pub open spec fn summary_instructions(payload: SummarizeArtifactPayload, language: Seq<char>) -> Seq<
    char,
> {
    join(summary_lines(payload, language), "\n\n"@)
}

/// Writes the instructions for a summary.
pub fn build_summary_instructions(payload: &SummarizeArtifactPayload, output_language: &str) -> (r:
    String)
    ensures
        r@ == summary_instructions(*payload, output_language@),
{
    let name: &str = language_display_name(output_language);
    let mut lines: Vec<String> = Vec::new();
    push_line(&mut lines, cat3("Write a detailed, self-contained brief in ", name, ".").as_str());
    push_line(&mut lines, cat3("The entire output must be in ", name, ".").as_str());
    push_line(&mut lines, SUMMARY_ONLY);
    push_line(&mut lines, SUMMARY_STANDS_ALONE);
    push_line(&mut lines, SUMMARY_LANGUAGE_BOUNDARIES);
    if payload.sections && payload.bullet_points {
        push_line(&mut lines, SUMMARY_SECTIONS_WITH_BULLETS);
    } else if payload.sections {
        push_line(&mut lines, SUMMARY_SECTIONS);
    } else if payload.bullet_points {
        push_line(&mut lines, SUMMARY_BULLETS);
    } else {
        push_line(&mut lines, SUMMARY_PROSE);
    }
    if payload.key_points_only {
        push_line(&mut lines, SUMMARY_KEY_POINTS);
    } else {
        push_line(&mut lines, SUMMARY_THOROUGH);
        push_line(&mut lines, SUMMARY_NOT_TERSE);
    }
    if payload.action_items {
        push_line(&mut lines, SUMMARY_ACTION_ITEMS);
    } else {
        push_line(&mut lines, SUMMARY_NO_ACTION_ITEMS);
    }
    if payload.context.include_timestamps {
        push_line(&mut lines, SUMMARY_TIMESTAMPS);
    } else {
        push_line(&mut lines, SUMMARY_NO_TIMESTAMPS);
    }
    if payload.context.include_speakers {
        push_line(&mut lines, SUMMARY_SPEAKERS);
    } else {
        push_line(&mut lines, SUMMARY_NO_SPEAKERS);
    }
    if let Some(custom) = &payload.custom_prompt {
        let trimmed: String = trim_text(custom.as_str());
        if !trimmed.as_str().is_empty() {
            let mut line: String = SUMMARY_CUSTOM.to_owned();
            line.append(trimmed.as_str());
            push_line(&mut lines, line.as_str());
        }
    }
    assert(views(lines@) =~= summary_lines(*payload, output_language@));
    join_texts(&lines, "\n\n")
}

/// Whatever the user adds, the instructions hold the language, the timestamp rule and the speaker
/// rule.
pub proof fn required_rules_stay(payload: SummarizeArtifactPayload, language: Seq<char>)
    ensures
        ({
            let lines = summary_lines(payload, language);
            &&& lines.contains("The entire output must be in "@ + display_name(language) + "."@)
            &&& lines.contains(
                if payload.context.include_timestamps {
                    SUMMARY_TIMESTAMPS@
                } else {
                    SUMMARY_NO_TIMESTAMPS@
                },
            )
            &&& lines.contains(
                if payload.context.include_speakers {
                    SUMMARY_SPEAKERS@
                } else {
                    SUMMARY_NO_SPEAKERS@
                },
            )
        }),
{
    let lines = summary_lines(payload, language);
    let at: int = if payload.key_points_only {
        7
    } else {
        8
    };
    assert(lines[1] == "The entire output must be in "@ + display_name(language) + "."@);
    assert(lines[at + 1] == if payload.context.include_timestamps {
        SUMMARY_TIMESTAMPS@
    } else {
        SUMMARY_NO_TIMESTAMPS@
    });
    assert(lines[at + 2] == if payload.context.include_speakers {
        SUMMARY_SPEAKERS@
    } else {
        SUMMARY_NO_SPEAKERS@
    });
}

/// A request without what the user adds.
pub open spec fn without_custom_prompt(payload: SummarizeArtifactPayload) -> SummarizeArtifactPayload {
    SummarizeArtifactPayload { custom_prompt: None, ..payload }
}

/// What the user adds comes behind the instructions of the same request without it, under a fixed
/// header; a blank addition adds nothing.
pub proof fn custom_prompt_comes_last(payload: SummarizeArtifactPayload, language: Seq<char>)
    ensures
        ({
            let bare = summary_instructions(without_custom_prompt(payload), language);
            let text = summary_instructions(payload, language);
            match opt_view(payload.custom_prompt) {
                Some(custom) => if trim(custom).len() > 0 {
                    text == bare + "\n\n"@ + SUMMARY_CUSTOM@ + trim(custom)
                } else {
                    text == bare
                },
                None => text == bare,
            }
        }),
        starts_with(SUMMARY_CUSTOM@, "Additional user instructions"@),
{
    let lines = summary_lines(payload, language);
    let bare = summary_lines(without_custom_prompt(payload), language);
    let custom = opt_view(payload.custom_prompt);
    if custom is Some && trim(custom->0).len() > 0 {
        let line = SUMMARY_CUSTOM@ + trim(custom->0);
        assert(lines =~= bare.push(line));
        assert(lines.drop_last() =~= bare);
        assert(lines.last() == line);
        assert(join(lines, "\n\n"@) =~= join(bare, "\n\n"@) + "\n\n"@ + SUMMARY_CUSTOM@ + trim(
            custom->0,
        ));
    } else {
        assert(lines =~= bare);
    }
    reveal_strlit("Additional user instructions");
    reveal_strlit(
        "Additional user instructions (apply these unless they conflict with the required language and formatting rules above):\n",
    );
    assert(SUMMARY_CUSTOM@.take("Additional user instructions"@.len() as int)
        =~= "Additional user instructions"@);
}

/// Whether a line neither rules timestamps out nor asks for attributions.
spec fn is_plain(line: Seq<char>) -> bool {
    &&& !contains(line, SUMMARY_NO_TIMESTAMPS@)
    &&& !contains(line, "Attribute statements to named speakers"@)
}

proof fn lemma_plain(line: Seq<char>)
    requires
        forall|i: int|
            0 <= i && i + 15 < line.len() ==> #[trigger] line[i] != 'D' || line[i + 15] != 't',
        forall|i: int|
            0 <= i && i + 1 < line.len() ==> #[trigger] line[i] != 'A' || line[i + 1] != 't',
    ensures
        is_plain(line),
{
    reveal_strlit("Do not include timestamps in the final summary.");
    reveal_strlit("Attribute statements to named speakers");
    lemma_not_contained(line, SUMMARY_NO_TIMESTAMPS@, 15);
    lemma_not_contained(line, "Attribute statements to named speakers"@, 1);
}

proof fn lemma_fixed_lines_are_plain()
    ensures
        is_plain(SUMMARY_ONLY@),
        is_plain(SUMMARY_STANDS_ALONE@),
        is_plain(SUMMARY_LANGUAGE_BOUNDARIES@),
        is_plain(SUMMARY_SECTIONS_WITH_BULLETS@),
        is_plain(SUMMARY_SECTIONS@),
        is_plain(SUMMARY_BULLETS@),
        is_plain(SUMMARY_PROSE@),
        is_plain(SUMMARY_KEY_POINTS@),
        is_plain(SUMMARY_THOROUGH@),
        is_plain(SUMMARY_NOT_TERSE@),
        is_plain(SUMMARY_ACTION_ITEMS@),
        is_plain(SUMMARY_NO_ACTION_ITEMS@),
        is_plain(SUMMARY_TIMESTAMPS@),
        is_plain(SUMMARY_NO_SPEAKERS@),
{
    assert(is_plain(SUMMARY_ONLY@)) by {
        reveal_strlit(
            "Produce only the final summary text. Do not add meta-commentary about the summarization process.",
        );
        lemma_plain(SUMMARY_ONLY@);
    }
    assert(is_plain(SUMMARY_STANDS_ALONE@)) by {
        reveal_strlit(
            "Assume the reader has not listened to the recording. The summary must stand on its own and preserve the substance of the discussion.",
        );
        lemma_plain(SUMMARY_STANDS_ALONE@);
    }
    assert(is_plain(SUMMARY_LANGUAGE_BOUNDARIES@)) by {
        reveal_strlit(
            "Preserve every source-language boundary in the transcript; never merge content across a language change.",
        );
        lemma_plain(SUMMARY_LANGUAGE_BOUNDARIES@);
    }
    assert(is_plain(SUMMARY_SECTIONS_WITH_BULLETS@)) by {
        reveal_strlit(
            "Organize the summary into clearly titled sections and use bullet points within sections when they improve clarity.",
        );
        lemma_plain(SUMMARY_SECTIONS_WITH_BULLETS@);
    }
    assert(is_plain(SUMMARY_SECTIONS@)) by {
        reveal_strlit(
            "Organize the summary into clearly titled sections and write each section in polished prose paragraphs.",
        );
        lemma_plain(SUMMARY_SECTIONS@);
    }
    assert(is_plain(SUMMARY_BULLETS@)) by {
        reveal_strlit(
            "Write the summary as a single untitled bullet list without section headings.",
        );
        lemma_plain(SUMMARY_BULLETS@);
    }
    assert(is_plain(SUMMARY_PROSE@)) by {
        reveal_strlit(
            "Write the summary as a single continuous section without headings or bullet lists.",
        );
        lemma_plain(SUMMARY_PROSE@);
    }
    assert(is_plain(SUMMARY_KEY_POINTS@)) by {
        reveal_strlit(
            "Focus on the most important points, decisions, and takeaways. Omit minor tangents.",
        );
        lemma_plain(SUMMARY_KEY_POINTS@);
    }
    assert(is_plain(SUMMARY_THOROUGH@)) by {
        reveal_strlit(
            "Be thorough and cover all major topics with supporting details, technical explanations, examples, numbers, named entities, and the relationships between ideas.",
        );
        lemma_plain(SUMMARY_THOROUGH@);
    }
    assert(is_plain(SUMMARY_NOT_TERSE@)) by {
        reveal_strlit(
            "Do not settle for a terse recap: explain what was discussed, why it mattered, and how the different topics connect.",
        );
        lemma_plain(SUMMARY_NOT_TERSE@);
    }
    assert(is_plain(SUMMARY_ACTION_ITEMS@)) by {
        reveal_strlit(
            "Include a dedicated final section for action items, tasks, decisions, or next steps when they appear in the transcript.",
        );
        lemma_plain(SUMMARY_ACTION_ITEMS@);
    }
    assert(is_plain(SUMMARY_NO_ACTION_ITEMS@)) by {
        reveal_strlit(
            "Do not add a dedicated action-items section. Integrate next steps into the summary only when they are genuinely discussed.",
        );
        lemma_plain(SUMMARY_NO_ACTION_ITEMS@);
    }
    assert(is_plain(SUMMARY_TIMESTAMPS@)) by {
        reveal_strlit(
            "Where timestamps are available in the transcript, keep them next to the relevant point.",
        );
        lemma_plain(SUMMARY_TIMESTAMPS@);
    }
    assert(is_plain(SUMMARY_NO_SPEAKERS@)) by {
        reveal_strlit(
            "Do not include speaker attributions in the final summary.",
        );
        lemma_plain(SUMMARY_NO_SPEAKERS@);
    }
}

proof fn lemma_language_lines_are_plain(language: Seq<char>)
    ensures
        is_plain("Write a detailed, self-contained brief in "@ + display_name(language) + "."@),
        is_plain("The entire output must be in "@ + display_name(language) + "."@),
{
    let name = display_name(language);
    assert forall|i: int| 0 <= i < name.len() implies #[trigger] name[i] != 'D' && name[i]
        != 'A' by {
        reveal_strlit("the same language as the transcript");
        reveal_strlit("English");
        reveal_strlit("Italian");
        reveal_strlit("French");
        reveal_strlit("German");
        reveal_strlit("Spanish");
        reveal_strlit("Portuguese");
        reveal_strlit("Chinese");
        reveal_strlit("Japanese");
        reveal_strlit("the requested language");
    }
    reveal_strlit(".");
    assert(is_plain("Write a detailed, self-contained brief in "@ + name + "."@)) by {
        reveal_strlit("Write a detailed, self-contained brief in ");
        lemma_plain("Write a detailed, self-contained brief in "@ + name + "."@);
    }
    assert(is_plain("The entire output must be in "@ + name + "."@)) by {
        reveal_strlit("The entire output must be in ");
        lemma_plain("The entire output must be in "@ + name + "."@);
    }
}

proof fn lemma_rules_apart()
    ensures
        !contains(SUMMARY_SPEAKERS@, SUMMARY_NO_TIMESTAMPS@),
        !contains(SUMMARY_NO_TIMESTAMPS@, "Attribute statements to named speakers"@),
        contains(SUMMARY_NO_TIMESTAMPS@, SUMMARY_NO_TIMESTAMPS@),
        contains(SUMMARY_SPEAKERS@, "Attribute statements to named speakers"@),
{
    let head = "Attribute statements to named speakers"@;
    reveal_strlit("Do not include timestamps in the final summary.");
    reveal_strlit("Attribute statements to named speakers");
    reveal_strlit("Attribute statements to named speakers when speaker labels are available.");
    lemma_not_contained(SUMMARY_SPEAKERS@, SUMMARY_NO_TIMESTAMPS@, 15);
    lemma_not_contained(SUMMARY_NO_TIMESTAMPS@, head, 1);
    lemma_contains_middle(Seq::empty(), SUMMARY_NO_TIMESTAMPS@, Seq::empty());
    assert(Seq::empty() + SUMMARY_NO_TIMESTAMPS@ + Seq::empty() =~= SUMMARY_NO_TIMESTAMPS@);
    let rest = SUMMARY_SPEAKERS@.skip(head.len() as int);
    lemma_contains_middle(Seq::empty(), head, rest);
    assert(Seq::empty() + head + rest =~= SUMMARY_SPEAKERS@);
}

/// The instructions without what the user adds ask for the language, rule timestamps out exactly
/// when the request does, and ask for attributions exactly when the request does.
pub proof fn instructions_follow_the_request(payload: SummarizeArtifactPayload, language: Seq<char>)
    ensures
        ({
            let text = summary_instructions(without_custom_prompt(payload), language);
            &&& contains(text, "The entire output must be in "@ + display_name(language) + "."@)
            &&& contains(text, "Do not include timestamps in the final summary."@)
                <==> !payload.context.include_timestamps
            &&& contains(text, "Attribute statements to named speakers"@)
                <==> payload.context.include_speakers
        }),
{
    let bare = without_custom_prompt(payload);
    let lines = summary_lines(bare, language);
    let sep = "\n\n"@;
    let text = join(lines, sep);
    let asked = "The entire output must be in "@ + display_name(language) + "."@;
    let dated = SUMMARY_NO_TIMESTAMPS@;
    let spoken = "Attribute statements to named speakers"@;
    let at: int = if payload.key_points_only {
        7
    } else {
        8
    };
    lemma_fixed_lines_are_plain();
    lemma_language_lines_are_plain(language);
    lemma_rules_apart();
    assert(lines[1] == asked);
    assert(lines[at + 1] == if payload.context.include_timestamps {
        SUMMARY_TIMESTAMPS@
    } else {
        dated
    });
    assert(lines[at + 2] == if payload.context.include_speakers {
        SUMMARY_SPEAKERS@
    } else {
        SUMMARY_NO_SPEAKERS@
    });
    assert(lines.len() == at + 3);
    assert forall|k: int| 0 <= k <= at implies is_plain(#[trigger] lines[k]) by {
    }
    lemma_contains_middle(Seq::empty(), asked, Seq::empty());
    assert(Seq::empty() + asked + Seq::empty() =~= asked);
    join_holds_its_parts(lines, sep, 1, asked);
    reveal_strlit("\n\n");
    assert(contains(text, dated) <==> !payload.context.include_timestamps) by {
        if !payload.context.include_timestamps {
            join_holds_its_parts(lines, sep, at + 1, dated);
        } else if contains(text, dated) {
            reveal_strlit("Do not include timestamps in the final summary.");
            join_holds_no_more(lines, sep, dated);
            let k = choose|k: int| 0 <= k < lines.len() && contains(#[trigger] lines[k], dated);
            assert(k <= at || k == at + 1 || k == at + 2);
        }
    }
    assert(contains(text, spoken) <==> payload.context.include_speakers) by {
        if payload.context.include_speakers {
            join_holds_its_parts(lines, sep, at + 2, spoken);
        } else if contains(text, spoken) {
            reveal_strlit("Attribute statements to named speakers");
            join_holds_no_more(lines, sep, spoken);
            let k = choose|k: int| 0 <= k < lines.len() && contains(#[trigger] lines[k], spoken);
            assert(k <= at || k == at + 1 || k == at + 2);
        }
    }
}

proof fn lemma_line_holds(payload: SummarizeArtifactPayload, language: Seq<char>, k: int, p: Seq<char>)
    requires
        0 <= k < summary_lines(payload, language).len(),
        contains(summary_lines(payload, language)[k], p),
    ensures
        contains(summary_instructions(payload, language), p),
{
    join_holds_its_parts(summary_lines(payload, language), "\n\n"@, k, p);
}

proof fn lemma_layout_words()
    ensures
        contains(SUMMARY_SECTIONS_WITH_BULLETS@, "clearly titled sections and use bullet points"@),
        contains(SUMMARY_SECTIONS@, "clearly titled sections and write each section in polished prose"@),
        contains(SUMMARY_BULLETS@, "single untitled bullet list"@),
        contains(SUMMARY_PROSE@, "without headings or bullet lists"@),
{
    assert(contains(SUMMARY_SECTIONS_WITH_BULLETS@, "clearly titled sections and use bullet points"@))
        by {
        reveal_strlit(
            "Organize the summary into clearly titled sections and use bullet points within sections when they improve clarity.",
        );
        reveal_strlit("clearly titled sections and use bullet points");
        lemma_found(
            SUMMARY_SECTIONS_WITH_BULLETS@,
            "clearly titled sections and use bullet points"@,
            26,
        );
    }
    assert(contains(
        SUMMARY_SECTIONS@,
        "clearly titled sections and write each section in polished prose"@,
    )) by {
        reveal_strlit(
            "Organize the summary into clearly titled sections and write each section in polished prose paragraphs.",
        );
        reveal_strlit("clearly titled sections and write each section in polished prose");
        lemma_found(
            SUMMARY_SECTIONS@,
            "clearly titled sections and write each section in polished prose"@,
            26,
        );
    }
    assert(contains(SUMMARY_BULLETS@, "single untitled bullet list"@)) by {
        reveal_strlit(
            "Write the summary as a single untitled bullet list without section headings.",
        );
        reveal_strlit("single untitled bullet list");
        lemma_found(SUMMARY_BULLETS@, "single untitled bullet list"@, 23);
    }
    assert(contains(SUMMARY_PROSE@, "without headings or bullet lists"@)) by {
        reveal_strlit(
            "Write the summary as a single continuous section without headings or bullet lists.",
        );
        reveal_strlit("without headings or bullet lists");
        lemma_found(SUMMARY_PROSE@, "without headings or bullet lists"@, 49);
    }
}

proof fn lemma_depth_words()
    ensures
        contains(SUMMARY_KEY_POINTS@, "Omit minor tangents."@),
        contains(SUMMARY_THOROUGH@, "Be thorough"@),
        contains(SUMMARY_ACTION_ITEMS@, "Include a dedicated final section for action items"@),
        contains(SUMMARY_NO_ACTION_ITEMS@, "Do not add a dedicated action-items section."@),
        contains(SUMMARY_TIMESTAMPS@, "keep them next to the relevant point"@),
        contains(SUMMARY_NO_SPEAKERS@, "Do not include speaker attributions"@),
{
    assert(contains(SUMMARY_KEY_POINTS@, "Omit minor tangents."@)) by {
        reveal_strlit(
            "Focus on the most important points, decisions, and takeaways. Omit minor tangents.",
        );
        reveal_strlit("Omit minor tangents.");
        lemma_found(SUMMARY_KEY_POINTS@, "Omit minor tangents."@, 62);
    }
    assert(contains(SUMMARY_THOROUGH@, "Be thorough"@)) by {
        reveal_strlit(
            "Be thorough and cover all major topics with supporting details, technical explanations, examples, numbers, named entities, and the relationships between ideas.",
        );
        reveal_strlit("Be thorough");
        lemma_found(SUMMARY_THOROUGH@, "Be thorough"@, 0);
    }
    assert(contains(SUMMARY_ACTION_ITEMS@, "Include a dedicated final section for action items"@)) by {
        reveal_strlit(
            "Include a dedicated final section for action items, tasks, decisions, or next steps when they appear in the transcript.",
        );
        reveal_strlit("Include a dedicated final section for action items");
        lemma_found(SUMMARY_ACTION_ITEMS@, "Include a dedicated final section for action items"@, 0);
    }
    assert(contains(SUMMARY_NO_ACTION_ITEMS@, "Do not add a dedicated action-items section."@)) by {
        reveal_strlit(
            "Do not add a dedicated action-items section. Integrate next steps into the summary only when they are genuinely discussed.",
        );
        reveal_strlit("Do not add a dedicated action-items section.");
        lemma_found(SUMMARY_NO_ACTION_ITEMS@, "Do not add a dedicated action-items section."@, 0);
    }
    assert(contains(SUMMARY_TIMESTAMPS@, "keep them next to the relevant point"@)) by {
        reveal_strlit(
            "Where timestamps are available in the transcript, keep them next to the relevant point.",
        );
        reveal_strlit("keep them next to the relevant point");
        lemma_found(SUMMARY_TIMESTAMPS@, "keep them next to the relevant point"@, 50);
    }
    assert(contains(SUMMARY_NO_SPEAKERS@, "Do not include speaker attributions"@)) by {
        reveal_strlit("Do not include speaker attributions in the final summary.");
        reveal_strlit("Do not include speaker attributions");
        lemma_found(SUMMARY_NO_SPEAKERS@, "Do not include speaker attributions"@, 0);
    }
}

/// The instructions ask for the layout, the depth, the action items, the timestamps and the
/// attributions that the request asks for.
pub proof fn instructions_ask_for_what_was_chosen(payload: SummarizeArtifactPayload, language: Seq<char>)
    ensures
        ({
            let text = summary_instructions(payload, language);
            &&& payload.sections && payload.bullet_points ==> contains(
                text,
                "clearly titled sections and use bullet points"@,
            )
            &&& payload.sections && !payload.bullet_points ==> contains(
                text,
                "clearly titled sections and write each section in polished prose"@,
            )
            &&& !payload.sections && payload.bullet_points ==> contains(
                text,
                "single untitled bullet list"@,
            )
            &&& !payload.sections && !payload.bullet_points ==> contains(
                text,
                "without headings or bullet lists"@,
            )
            &&& payload.key_points_only ==> contains(text, "Omit minor tangents."@)
            &&& !payload.key_points_only ==> contains(text, "Be thorough"@)
            &&& payload.action_items ==> contains(
                text,
                "Include a dedicated final section for action items"@,
            )
            &&& !payload.action_items ==> contains(
                text,
                "Do not add a dedicated action-items section."@,
            )
            &&& payload.context.include_timestamps ==> contains(
                text,
                "keep them next to the relevant point"@,
            )
            &&& !payload.context.include_speakers ==> contains(
                text,
                "Do not include speaker attributions"@,
            )
        }),
{
    let lines = summary_lines(payload, language);
    let at: int = if payload.key_points_only {
        7
    } else {
        8
    };
    lemma_layout_words();
    lemma_depth_words();
    assert(lines.len() >= at + 3);
    assert(lines[5] == layout_line(payload.sections, payload.bullet_points));
    assert(lines[6] == if payload.key_points_only {
        SUMMARY_KEY_POINTS@
    } else {
        SUMMARY_THOROUGH@
    });
    assert(lines[at] == if payload.action_items {
        SUMMARY_ACTION_ITEMS@
    } else {
        SUMMARY_NO_ACTION_ITEMS@
    });
    assert(lines[at + 1] == if payload.context.include_timestamps {
        SUMMARY_TIMESTAMPS@
    } else {
        SUMMARY_NO_TIMESTAMPS@
    });
    assert(lines[at + 2] == if payload.context.include_speakers {
        SUMMARY_SPEAKERS@
    } else {
        SUMMARY_NO_SPEAKERS@
    });
    let layout = if payload.sections && payload.bullet_points {
        "clearly titled sections and use bullet points"@
    } else if payload.sections {
        "clearly titled sections and write each section in polished prose"@
    } else if payload.bullet_points {
        "single untitled bullet list"@
    } else {
        "without headings or bullet lists"@
    };
    lemma_line_holds(payload, language, 5, layout);
    lemma_line_holds(
        payload,
        language,
        6,
        if payload.key_points_only {
            "Omit minor tangents."@
        } else {
            "Be thorough"@
        },
    );
    lemma_line_holds(
        payload,
        language,
        at,
        if payload.action_items {
            "Include a dedicated final section for action items"@
        } else {
            "Do not add a dedicated action-items section."@
        },
    );
    if payload.context.include_timestamps {
        lemma_line_holds(payload, language, at + 1, "keep them next to the relevant point"@);
    }
    if !payload.context.include_speakers {
        lemma_line_holds(payload, language, at + 2, "Do not include speaker attributions"@);
    }
}

pub const SUMMARY_HEAD: &'static str = "\n\nUser instructions (follow these exactly — including language, structure, and formatting preferences):\n";

pub const SUMMARY_REQUIREMENTS: &'static str = "\n\nRequirements for the final summary:\n- Produce a dense, polished document — not a terse recap or a sparse outline.\n- Cover all major subjects discussed in the transcript with enough depth that a reader who has not heard the original audio would understand the goals, reasoning, evidence, and outcomes.\n- Preserve specific details that matter: names, numbers, dates, technical terms, examples, constraints, and decisions.\n- Explain how topics relate to one another instead of listing them in isolation.\n- When the transcript is technical, keep the technical content explicit and accurate rather than generalizing it away.\n- If there are debates, alternatives, uncertainties, or tradeoffs, describe them clearly.\n- Maintain logical flow between topics: use transitions and group related ideas together.\n- Respect the user's language, structural, and formatting preferences exactly.\n- Output ONLY the summary text. Do not add meta-commentary or labels like \"Summary:\".\n\n";

/// The prompt that asks for a summary of a whole transcript.
pub open spec fn direct_prompt(transcript: Seq<char>, instructions: Seq<char>) -> Seq<char> {
    "You are writing the final summary of a transcript."@ + SUMMARY_HEAD@ + instructions
        + SUMMARY_REQUIREMENTS@ + "Full transcript:\n"@ + transcript
}

/// Writes the prompt that asks for a summary of a whole transcript.
pub fn build_direct_summary_prompt(transcript: &str, user_instructions: &str) -> (r: String)
    ensures
        r@ == direct_prompt(transcript@, user_instructions@),
{
    let mut out: String = "You are writing the final summary of a transcript.".to_owned();
    out.append(SUMMARY_HEAD);
    out.append(user_instructions);
    out.append(SUMMARY_REQUIREMENTS);
    out.append("Full transcript:\n");
    out.append(transcript);
    out
}

pub const NOTE_HEAD: &'static str = "You are extracting detailed notes from a transcript chunk to support a comprehensive final brief.\nYour goal is to capture ALL substantive content — not just keywords.\n\nUser instructions (follow these exactly):\n";

pub const NOTE_RULES: &'static str = " of the full transcript.\n\nExtract the following from this chunk:\n- Main topics, subtopics, and arguments discussed, with enough context to understand them\n- Key facts, statistics, names, dates, technical terminology, and specific claims\n- Explanations, reasoning, comparisons, and cause-effect relationships\n- Decisions made, open questions, risks, action items, or next steps mentioned\n- Examples, evidence, or concrete scenarios used by the speakers\n- Any speaker attributions if present\n\nWrite thorough, self-contained notes, preferably in short prose bullets or compact paragraphs. Each note should be understandable on its own without the original transcript, and should preserve dense technical detail where present.\n\nTranscript chunk:\n";

/// The prompt that asks for notes on a chunk.
pub open spec fn note_prompt(index: nat, total: nat, instructions: Seq<char>, chunk: Seq<char>) -> Seq<
    char,
> {
    NOTE_HEAD@ + instructions + "\n\nThis is chunk "@ + decimal(index) + "/"@ + decimal(total)
        + NOTE_RULES@ + chunk
}

/// Writes the prompt that asks for notes on a chunk.
pub fn build_chunk_note_prompt(
    chunk_index: usize,
    total_chunks: usize,
    user_instructions: &str,
    chunk: &str,
) -> (r: String)
    ensures
        r@ == note_prompt(
            chunk_index as nat,
            total_chunks as nat,
            user_instructions@,
            chunk@,
        ),
{
    let mut out: String = NOTE_HEAD.to_owned();
    out.append(user_instructions);
    out.append("\n\nThis is chunk ");
    push_decimal(&mut out, chunk_index as u64);
    out.append("/");
    push_decimal(&mut out, total_chunks as u64);
    out.append(NOTE_RULES);
    out.append(chunk);
    out
}

/// The prompt that asks for a summary of notes.
pub open spec fn synthesis_prompt(notes: Seq<char>, instructions: Seq<char>) -> Seq<char> {
    "You are writing the final summary of a transcript from the extracted chunk notes below."@
        + SUMMARY_HEAD@ + instructions + SUMMARY_REQUIREMENTS@ + "Chunk notes:\n"@ + notes
}

/// Writes the prompt that asks for a summary of notes.
pub fn build_summary_synthesis_prompt(chunk_notes: &str, user_instructions: &str) -> (r: String)
    ensures
        r@ == synthesis_prompt(chunk_notes@, user_instructions@),
{
    let mut out: String =
        "You are writing the final summary of a transcript from the extracted chunk notes below.".to_owned();
    out.append(SUMMARY_HEAD);
    out.append(user_instructions);
    out.append(SUMMARY_REQUIREMENTS);
    out.append("Chunk notes:\n");
    out.append(chunk_notes);
    out
}

// ---------------------------------------------------------------------------
// Packs
// ---------------------------------------------------------------------------

pub const PACK_TIMESTAMPS: &'static str = "Where timestamps are available in the prepared transcript, keep them next to the relevant item.";

pub const PACK_NO_TIMESTAMPS: &'static str = "Do not include timestamps in the final output.";

pub const PACK_SPEAKERS: &'static str = "When speaker labels are available, attribute decisions or statements to the relevant speaker.";

pub const PACK_NO_SPEAKERS: &'static str = "Do not invent or infer speaker attributions.";

pub const STUDY_PACK_RULES: &'static str = ". Produce only markdown.\n\nBuild a student study pack from the transcript with these sections in order:\n1. Overview\n2. Structured Notes\n3. Glossary of Key Terms\n4. Probable Exam Questions\n5. Flashcards\n\nRequirements:\n- Stay faithful to the transcript and do not invent facts.\n- Use concise headings and bullet points where helpful.\n- In Glossary, define the most important terms in plain language.\n- In Probable Exam Questions, include short model answers.\n- In Flashcards, format each item as `Q:` followed by `A:`.\n- If the transcript does not support a section, write `Not enough evidence.` under that heading.\n- Preserve every source-language boundary in the transcript; never merge content across a language change.\n- ";

pub const MEETING_PACK_RULES: &'static str = ". Produce only markdown.\n\nBuild a meeting intelligence pack from the transcript with these sections in order:\n1. Executive Summary\n2. Decisions\n3. Action Items\n4. Open Questions\n5. Risks and Blockers\n\nRequirements:\n- Stay faithful to the transcript and do not invent facts.\n- Where owners or deadlines are explicit, capture them.\n- If an item is uncertain, mark it clearly as tentative.\n- If the transcript does not support a section, write `Not enough evidence.` under that heading.\n- Preserve every source-language boundary in the transcript; never merge content across a language change.\n- ";

/// The instructions for a pack.
pub open spec fn pack_instructions(
    kind: GeneratedArtifactPackKind,
    language: Seq<char>,
    include_timestamps: bool,
    include_speakers: bool,
) -> Seq<char> {
    "Write the entire output in "@ + display_name(language) + (match kind {
        GeneratedArtifactPackKind::StudyPack => STUDY_PACK_RULES@,
        GeneratedArtifactPackKind::MeetingIntelligence => MEETING_PACK_RULES@,
    }) + (if include_timestamps {
        PACK_TIMESTAMPS@
    } else {
        PACK_NO_TIMESTAMPS@
    }) + "\n- "@ + (if include_speakers {
        PACK_SPEAKERS@
    } else {
        PACK_NO_SPEAKERS@
    })
}

/// Writes the instructions for a pack.
pub fn build_generated_pack_instructions(
    kind: GeneratedArtifactPackKind,
    language: &str,
    include_timestamps: bool,
    include_speakers: bool,
) -> (r: String)
    ensures
        r@ == pack_instructions(kind, language@, include_timestamps, include_speakers),
{
    let mut out: String = "Write the entire output in ".to_owned();
    out.append(language_display_name(language));
    out.append(
        match kind {
            GeneratedArtifactPackKind::StudyPack => STUDY_PACK_RULES,
            GeneratedArtifactPackKind::MeetingIntelligence => MEETING_PACK_RULES,
        },
    );
    out.append(
        if include_timestamps {
            PACK_TIMESTAMPS
        } else {
            PACK_NO_TIMESTAMPS
        },
    );
    out.append("\n- ");
    out.append(
        if include_speakers {
            PACK_SPEAKERS
        } else {
            PACK_NO_SPEAKERS
        },
    );
    out
}

proof fn lemma_pack_words()
    ensures
        contains(STUDY_PACK_RULES@, "Build a student study pack"@),
        contains(MEETING_PACK_RULES@, "Build a meeting intelligence pack"@),
        contains(PACK_NO_TIMESTAMPS@, "Do not include timestamps"@),
        contains(PACK_TIMESTAMPS@, "keep them next to the relevant item"@),
        contains(PACK_NO_SPEAKERS@, "Do not invent or infer speaker attributions"@),
        contains(PACK_SPEAKERS@, "attribute decisions or statements to the relevant speaker"@),
{
    assert(contains(STUDY_PACK_RULES@, "Build a student study pack"@)) by {
        reveal_strlit(
            ". Produce only markdown.\n\nBuild a student study pack from the transcript with these sections in order:\n1. Overview\n2. Structured Notes\n3. Glossary of Key Terms\n4. Probable Exam Questions\n5. Flashcards\n\nRequirements:\n- Stay faithful to the transcript and do not invent facts.\n- Use concise headings and bullet points where helpful.\n- In Glossary, define the most important terms in plain language.\n- In Probable Exam Questions, include short model answers.\n- In Flashcards, format each item as `Q:` followed by `A:`.\n- If the transcript does not support a section, write `Not enough evidence.` under that heading.\n- Preserve every source-language boundary in the transcript; never merge content across a language change.\n- ",
        );
        reveal_strlit("Build a student study pack");
        lemma_found(STUDY_PACK_RULES@, "Build a student study pack"@, 26);
    }
    assert(contains(MEETING_PACK_RULES@, "Build a meeting intelligence pack"@)) by {
        reveal_strlit(
            ". Produce only markdown.\n\nBuild a meeting intelligence pack from the transcript with these sections in order:\n1. Executive Summary\n2. Decisions\n3. Action Items\n4. Open Questions\n5. Risks and Blockers\n\nRequirements:\n- Stay faithful to the transcript and do not invent facts.\n- Where owners or deadlines are explicit, capture them.\n- If an item is uncertain, mark it clearly as tentative.\n- If the transcript does not support a section, write `Not enough evidence.` under that heading.\n- Preserve every source-language boundary in the transcript; never merge content across a language change.\n- ",
        );
        reveal_strlit("Build a meeting intelligence pack");
        lemma_found(MEETING_PACK_RULES@, "Build a meeting intelligence pack"@, 26);
    }
    assert(contains(PACK_NO_TIMESTAMPS@, "Do not include timestamps"@)) by {
        reveal_strlit("Do not include timestamps in the final output.");
        reveal_strlit("Do not include timestamps");
        lemma_found(PACK_NO_TIMESTAMPS@, "Do not include timestamps"@, 0);
    }
    assert(contains(PACK_TIMESTAMPS@, "keep them next to the relevant item"@)) by {
        reveal_strlit(
            "Where timestamps are available in the prepared transcript, keep them next to the relevant item.",
        );
        reveal_strlit("keep them next to the relevant item");
        lemma_found(PACK_TIMESTAMPS@, "keep them next to the relevant item"@, 59);
    }
    assert(contains(PACK_NO_SPEAKERS@, "Do not invent or infer speaker attributions"@)) by {
        reveal_strlit("Do not invent or infer speaker attributions.");
        reveal_strlit("Do not invent or infer speaker attributions");
        lemma_found(PACK_NO_SPEAKERS@, "Do not invent or infer speaker attributions"@, 0);
    }
    assert(contains(PACK_SPEAKERS@, "attribute decisions or statements to the relevant speaker"@)) by {
        reveal_strlit(
            "When speaker labels are available, attribute decisions or statements to the relevant speaker.",
        );
        reveal_strlit("attribute decisions or statements to the relevant speaker");
        lemma_found(
            PACK_SPEAKERS@,
            "attribute decisions or statements to the relevant speaker"@,
            35,
        );
    }
}

/// The instructions for a pack ask for the language and for the kind of pack that was chosen, and for
/// the timestamps and attributions that were.
pub proof fn packs_ask_for_what_was_chosen(
    kind: GeneratedArtifactPackKind,
    language: Seq<char>,
    include_timestamps: bool,
    include_speakers: bool,
)
    ensures
        ({
            let text = pack_instructions(kind, language, include_timestamps, include_speakers);
            &&& starts_with(text, "Write the entire output in "@ + display_name(language) + "."@)
            &&& kind is StudyPack ==> contains(text, "Build a student study pack"@)
            &&& kind is MeetingIntelligence ==> contains(text, "Build a meeting intelligence pack"@)
            &&& include_timestamps ==> contains(text, "keep them next to the relevant item"@)
            &&& !include_timestamps ==> contains(text, "Do not include timestamps"@)
            &&& include_speakers ==> contains(
                text,
                "attribute decisions or statements to the relevant speaker"@,
            )
            &&& !include_speakers ==> contains(text, "Do not invent or infer speaker attributions"@)
        }),
{
    lemma_pack_words();
    let text = pack_instructions(kind, language, include_timestamps, include_speakers);
    let head = "Write the entire output in "@ + display_name(language);
    let rules = match kind {
        GeneratedArtifactPackKind::StudyPack => STUDY_PACK_RULES@,
        GeneratedArtifactPackKind::MeetingIntelligence => MEETING_PACK_RULES@,
    };
    let times = if include_timestamps {
        PACK_TIMESTAMPS@
    } else {
        PACK_NO_TIMESTAMPS@
    };
    let names = if include_speakers {
        PACK_SPEAKERS@
    } else {
        PACK_NO_SPEAKERS@
    };
    let gap = "\n- "@;
    assert(text =~= head + rules + times + gap + names);
    let about = match kind {
        GeneratedArtifactPackKind::StudyPack => "Build a student study pack"@,
        GeneratedArtifactPackKind::MeetingIntelligence => "Build a meeting intelligence pack"@,
    };
    lemma_contains_around(head, rules, times + gap + names, about);
    assert(head + rules + (times + gap + names) =~= text);
    let when = if include_timestamps {
        "keep them next to the relevant item"@
    } else {
        "Do not include timestamps"@
    };
    lemma_contains_around(head + rules, times, gap + names, when);
    assert(head + rules + times + (gap + names) =~= text);
    let who = if include_speakers {
        "attribute decisions or statements to the relevant speaker"@
    } else {
        "Do not invent or infer speaker attributions"@
    };
    lemma_contains_around(head + rules + times + gap, names, Seq::empty(), who);
    assert(head + rules + times + gap + names + Seq::empty() =~= text);
    assert(rules.len() > 0 && rules[0] == '.') by {
        lemma_rules_start();
    }
    reveal_strlit(".");
    assert(text.take((head + "."@).len() as int) =~= head + "."@);
}

proof fn lemma_rules_start()
    ensures
        STUDY_PACK_RULES@.len() > 0,
        STUDY_PACK_RULES@[0] == '.',
        MEETING_PACK_RULES@.len() > 0,
        MEETING_PACK_RULES@[0] == '.',
{
    reveal_strlit(
        ". Produce only markdown.\n\nBuild a student study pack from the transcript with these sections in order:\n1. Overview\n2. Structured Notes\n3. Glossary of Key Terms\n4. Probable Exam Questions\n5. Flashcards\n\nRequirements:\n- Stay faithful to the transcript and do not invent facts.\n- Use concise headings and bullet points where helpful.\n- In Glossary, define the most important terms in plain language.\n- In Probable Exam Questions, include short model answers.\n- In Flashcards, format each item as `Q:` followed by `A:`.\n- If the transcript does not support a section, write `Not enough evidence.` under that heading.\n- Preserve every source-language boundary in the transcript; never merge content across a language change.\n- ",
    );
    reveal_strlit(
        ". Produce only markdown.\n\nBuild a meeting intelligence pack from the transcript with these sections in order:\n1. Executive Summary\n2. Decisions\n3. Action Items\n4. Open Questions\n5. Risks and Blockers\n\nRequirements:\n- Stay faithful to the transcript and do not invent facts.\n- Where owners or deadlines are explicit, capture them.\n- If an item is uncertain, mark it clearly as tentative.\n- If the transcript does not support a section, write `Not enough evidence.` under that heading.\n- Preserve every source-language boundary in the transcript; never merge content across a language change.\n- ",
    );
}

} // verus!
