//! Speakers of an export: their labels and their colours.

use vstd::prelude::*;
use vstd::string::*;
use vstd::utf8::encode_utf8;

use crate::artifacts::export::segments::{ExportSegment, SegmentView};
use crate::text::{
    ascii_lower, ascii_lower_text, chars_of, inked, is_ascii_alnum, is_ascii_alphanumeric,
    lemma_inked_edge, lemma_trimmed, opt_view, push_char, string_of, trim, trim_text,
    trimming_takes_white_only,
};
use crate::text_map::TextMap;

verus! {

/// The label of a speaker, if it says anything.
pub open spec fn label_of(label: Option<Seq<char>>) -> Option<Seq<char>> {
    match label {
        Some(l) if trim(l).len() > 0 => Some(trim(l)),
        _ => None,
    }
}

fn filled_text(value: &Option<String>) -> (r: Option<String>)
    ensures
        opt_view(r) == label_of(opt_view(*value)),
{
    match value {
        Some(v) => {
            let trimmed: String = trim_text(v.as_str());
            if trimmed.as_str().is_empty() {
                None
            } else {
                Some(trimmed)
            }
        },
        None => None,
    }
}

/// Gives the label of a segment's speaker.
pub fn normalized_export_speaker_label(segment: &ExportSegment) -> (r: Option<String>)
    ensures
        opt_view(r) == label_of(segment@.speaker_label),
{
    filled_text(&segment.speaker_label)
}

// ---------------------------------------------------------------------------
// Keys of speakers
// ---------------------------------------------------------------------------

/// A character of a key: a letter or digit, else an underscore.
pub open spec fn key_char(c: char) -> char {
    if is_ascii_alnum(c) {
        c
    } else {
        '_'
    }
}

/// A text without the underscores at its beginning.
pub open spec fn strip_front(s: Seq<char>) -> Seq<char>
    decreases s.len(),
{
    if s.len() > 0 && s[0] == '_' {
        strip_front(s.skip(1))
    } else {
        s
    }
}

/// A text without the underscores at its end.
pub open spec fn strip_back(s: Seq<char>) -> Seq<char>
    decreases s.len(),
{
    if s.len() > 0 && s.last() == '_' {
        strip_back(s.drop_last())
    } else {
        s
    }
}

/// The key under which the colour of a speaker is set.
pub open spec fn color_key(value: Seq<char>) -> Seq<char> {
    let mapped = ascii_lower(trim(value)).map_values(|c: char| key_char(c));
    let key = strip_back(strip_front(mapped));
    if key.len() == 0 {
        "speaker"@
    } else {
        key
    }
}

proof fn lemma_strip(s: Seq<char>)
    ensures
        strip_front(s).len() <= s.len(),
        forall|i: int|
            0 <= i < strip_front(s).len() ==> s.contains(#[trigger] strip_front(s)[i]),
        strip_front(s).len() > 0 ==> strip_front(s)[0] != '_',
    decreases s.len(),
{
    if s.len() > 0 && s[0] == '_' {
        let t = s.skip(1);
        lemma_strip(t);
        assert forall|i: int| 0 <= i < strip_front(s).len() implies s.contains(
            #[trigger] strip_front(s)[i],
        ) by {
            let k = choose|k: int| 0 <= k < t.len() && t[k] == strip_front(t)[i];
            assert(s[k + 1] == t[k]);
        }
    }
}

proof fn lemma_strip_back(s: Seq<char>)
    ensures
        strip_back(s).len() <= s.len(),
        strip_back(s) == s.take(strip_back(s).len() as int),
        strip_back(s).len() > 0 ==> strip_back(s).last() != '_',
    decreases s.len(),
{
    if s.len() > 0 && s.last() == '_' {
        lemma_strip_back(s.drop_last());
        let n = strip_back(s).len() as int;
        assert(s.drop_last().take(n) =~= s.take(n));
    } else {
        assert(s.take(s.len() as int) =~= s);
    }
}

/// A key holds only lower-case letters, digits and underscores.
pub proof fn color_keys_are_plain(value: Seq<char>, i: int)
    requires
        0 <= i < color_key(value).len(),
    ensures
        ({
            let c = color_key(value)[i];
            'a' <= c <= 'z' || '0' <= c <= '9' || c == '_'
        }),
{
    let mapped = ascii_lower(trim(value)).map_values(|c: char| key_char(c));
    let front = strip_front(mapped);
    let key = strip_back(front);
    if key.len() == 0 {
        reveal_strlit("speaker");
    } else {
        lemma_strip(mapped);
        lemma_strip_back(front);
        assert(key[i] == front[i]);
        assert(mapped.contains(front[i]));
        let k = choose|k: int| 0 <= k < mapped.len() && mapped[k] == front[i];
        let c = ascii_lower(trim(value))[k];
        assert(mapped[k] == key_char(c));
        assert(!('A' <= c <= 'Z'));
    }
}

/// A key is never empty and has no underscore at either end, and the key of a key is that key.
pub proof fn the_key_of_a_key_is_itself(value: Seq<char>)
    ensures
        color_key(value).len() > 0,
        color_key(value)[0] != '_',
        color_key(value).last() != '_',
        color_key(color_key(value)) == color_key(value),
{
    let mapped = ascii_lower(trim(value)).map_values(|c: char| key_char(c));
    let front = strip_front(mapped);
    let key = color_key(value);
    reveal_strlit("speaker");
    lemma_strip(mapped);
    lemma_strip_back(front);
    if strip_back(front).len() > 0 {
        assert(key[0] == front[0]);
    }
    assert forall|i: int| 0 <= i < key.len() implies {
        let c = #[trigger] key[i];
        'a' <= c <= 'z' || '0' <= c <= '9' || c == '_'
    } by {
        color_keys_are_plain(value, i);
    }
    lemma_trimmed(key);
    assert(ascii_lower(key) =~= key);
    assert(key.map_values(|c: char| key_char(c)) =~= key);
}

/// The letters and digits of a text.
pub open spec fn letters(s: Seq<char>) -> Seq<char>
    decreases s.len(),
{
    if s.len() == 0 {
        Seq::empty()
    } else if is_ascii_alnum(s.last()) {
        letters(s.drop_last()).push(s.last())
    } else {
        letters(s.drop_last())
    }
}

proof fn lemma_letters_add(a: Seq<char>, b: Seq<char>)
    ensures
        letters(a + b) == letters(a) + letters(b),
    decreases b.len(),
{
    if b.len() == 0 {
        assert(a + b =~= a);
        assert(letters(a) + letters(b) =~= letters(a));
    } else {
        lemma_letters_add(a, b.drop_last());
        assert((a + b).drop_last() =~= a + b.drop_last());
        assert(letters(a + b) =~= letters(a) + letters(b));
    }
}

proof fn lemma_letters_mapped(s: Seq<char>)
    ensures
        letters(s.map_values(|c: char| key_char(c))) == letters(s),
    decreases s.len(),
{
    let m = s.map_values(|c: char| key_char(c));
    if s.len() > 0 {
        lemma_letters_mapped(s.drop_last());
        assert(m.drop_last() =~= s.drop_last().map_values(|c: char| key_char(c)));
    } else {
        assert(letters(m) =~= letters(s));
    }
}

proof fn lemma_letters_stripped(s: Seq<char>)
    ensures
        letters(strip_front(s)) == letters(s),
        letters(strip_back(s)) == letters(s),
    decreases s.len(),
{
    if s.len() > 0 && s[0] == '_' {
        lemma_letters_stripped(s.skip(1));
        assert(s =~= seq!['_'] + s.skip(1));
        lemma_letters_add(seq!['_'], s.skip(1));
        reveal_with_fuel(letters, 2);
        assert(letters(seq!['_']) =~= Seq::<char>::empty());
        assert(Seq::<char>::empty() + letters(s.skip(1)) =~= letters(s.skip(1)));
    }
    if s.len() > 0 && s.last() == '_' {
        lemma_letters_stripped(s.drop_last());
    }
}

/// A key keeps the letters and the digits of a name, in lower case and in order; a name without any has
/// the key of a speaker in general.
pub proof fn color_keys_keep_letters_and_digits(value: Seq<char>)
    ensures
        letters(ascii_lower(trim(value))).len() > 0 ==> letters(color_key(value)) == letters(
            ascii_lower(trim(value)),
        ),
        color_key(value) == "speaker"@ || letters(color_key(value)) == letters(
            ascii_lower(trim(value)),
        ),
{
    let lowered = ascii_lower(trim(value));
    let mapped = lowered.map_values(|c: char| key_char(c));
    lemma_letters_mapped(lowered);
    lemma_letters_stripped(mapped);
    lemma_letters_stripped(strip_front(mapped));
}

/// Makes the key under which the colour of a speaker is set.
pub fn normalize_speaker_color_key(value: &str) -> (r: String)
    ensures
        r@ == color_key(value@),
{
    let lowered: String = ascii_lower_text(trim_text(value).as_str());
    let v: Vec<char> = chars_of(lowered.as_str());
    let ghost f = |c: char| key_char(c);
    let ghost mapped = v@.map_values(f);
    let mut keys: Vec<char> = Vec::new();
    let mut i: usize = 0;
    while i < v.len()
        invariant
            i <= v@.len(),
            f == |c: char| key_char(c),
            mapped == v@.map_values(f),
            keys@ =~= mapped.take(i as int),
        decreases v@.len() - i,
    {
        let c: char = if is_ascii_alphanumeric(v[i]) {
            v[i]
        } else {
            '_'
        };
        keys.push(c);
        assert(mapped[i as int] == c);
        i = i + 1;
    }
    assert(keys@ =~= mapped);
    let total: usize = keys.len();
    let mut a: usize = 0;
    assert(keys@.skip(0) =~= keys@);
    while a < total && keys[a] == '_'
        invariant
            a <= total,
            total == keys@.len(),
            strip_front(keys@.skip(a as int)) == strip_front(keys@),
        decreases total - a,
    {
        assert(keys@.skip(a as int).skip(1) =~= keys@.skip(a + 1));
        a = a + 1;
    }
    let mut b: usize = total;
    assert(keys@.subrange(a as int, b as int) =~= keys@.skip(a as int));
    assert(strip_front(keys@) == keys@.skip(a as int)) by {
        if a < total {
            assert(keys@.skip(a as int)[0] == keys@[a as int]);
        }
    }
    while a < b && keys[b - 1] == '_'
        invariant
            a <= b <= total,
            total == keys@.len(),
            strip_back(keys@.subrange(a as int, b as int)) == strip_back(strip_front(keys@)),
        decreases b,
    {
        assert(keys@.subrange(a as int, b as int).drop_last() =~= keys@.subrange(a as int, b - 1));
        b = b - 1;
    }
    assert(a < b ==> keys@.subrange(a as int, b as int).last() == keys@[b - 1]);
    if a == b {
        assert(keys@.subrange(a as int, b as int).len() == 0);
        "speaker".to_owned()
    } else {
        string_of(&keys[a..b])
    }
}

/// The key of a segment's speaker: that of its id, else that of its label.
pub open spec fn speaker_key(segment: SegmentView) -> Option<Seq<char>> {
    match label_of(segment.speaker_id) {
        Some(id) => Some(color_key(id)),
        None => match label_of(segment.speaker_label) {
            Some(label) => Some(color_key(label)),
            None => None,
        },
    }
}

/// Gives the key of a segment's speaker.
pub fn normalized_export_speaker_id(segment: &ExportSegment) -> (r: Option<String>)
    ensures
        opt_view(r) == speaker_key(segment@),
{
    match filled_text(&segment.speaker_id) {
        Some(id) => Some(normalize_speaker_color_key(id.as_str())),
        None => match normalized_export_speaker_label(segment) {
            Some(label) => Some(normalize_speaker_color_key(label.as_str())),
            None => None,
        },
    }
}

/// A speaker is known by the id where there is one, whatever the label is, and else by the label; a
/// segment with neither has no speaker.
pub proof fn a_speaker_is_known_by_the_id_first(segment: SegmentView)
    ensures
        segment.speaker_id is Some && inked(segment.speaker_id->0).len() > 0 ==> speaker_key(segment)
            == Some(color_key(trim(segment.speaker_id->0))),
        (segment.speaker_id is None || inked(segment.speaker_id->0).len() == 0)
            && segment.speaker_label is Some && inked(segment.speaker_label->0).len() > 0
            ==> speaker_key(segment) == Some(color_key(trim(segment.speaker_label->0))),
        speaker_key(segment) is None <==> (segment.speaker_id is None || inked(
            segment.speaker_id->0,
        ).len() == 0) && (segment.speaker_label is None || inked(segment.speaker_label->0).len() == 0),
{
    if segment.speaker_id is Some {
        trimming_takes_white_only(segment.speaker_id->0);
        lemma_inked_edge(trim(segment.speaker_id->0));
    }
    if segment.speaker_label is Some {
        trimming_takes_white_only(segment.speaker_label->0);
        lemma_inked_edge(trim(segment.speaker_label->0));
    }
}

// ---------------------------------------------------------------------------
// Colours
// ---------------------------------------------------------------------------

/// A digit of base sixteen.
pub open spec fn is_hex(c: char) -> bool {
    '0' <= c <= '9' || 'a' <= c <= 'f' || 'A' <= c <= 'F'
}

/// The upper-case form of an ASCII lower-case letter.
pub open spec fn upper_char(c: char) -> char {
    if 'a' <= c <= 'z' {
        ((c as u32) - 32) as char
    } else {
        c
    }
}

/// Whether a text is a colour: a number sign and six digits of base sixteen.
pub open spec fn is_color(s: Seq<char>) -> bool {
    &&& s.len() == 7
    &&& s[0] == '#'
    &&& forall|i: int| 1 <= i < 7 ==> is_hex(#[trigger] s[i])
}

/// A colour in its usual form, if a text is one.
pub open spec fn clean_color(value: Seq<char>) -> Option<Seq<char>> {
    let t = trim(value);
    if is_color(t) {
        Some(t.map_values(|c: char| upper_char(c)))
    } else {
        None
    }
}

fn is_hex_digit(c: char) -> (r: bool)
    ensures
        r == is_hex(c),
{
    ('0' <= c && c <= '9') || ('a' <= c && c <= 'f') || ('A' <= c && c <= 'F')
}

fn ascii_upper_char(c: char) -> (r: char)
    ensures
        r == upper_char(c),
{
    if 'a' <= c && c <= 'z' {
        let n: u8 = (c as u32 - 32) as u8;
        n as char
    } else {
        c
    }
}

/// Reads a colour.
pub fn sanitize_speaker_color_value(value: &str) -> (r: Option<String>)
    ensures
        opt_view(r) == clean_color(value@),
{
    let v: Vec<char> = chars_of(trim_text(value).as_str());
    if v.len() != 7 || v[0] != '#' {
        return None;
    }
    let ghost up = |c: char| upper_char(c);
    let mut out: String = String::new();
    push_char(&mut out, '#');
    let mut i: usize = 1;
    while i < 7
        invariant
            1 <= i <= 7,
            v@.len() == 7,
            v@[0] == '#',
            v@ == trim(value@),
            up == |c: char| upper_char(c),
            forall|k: int| 1 <= k < i ==> is_hex(#[trigger] v@[k]),
            out@ =~= v@.map_values(up).take(i as int),
        decreases 7 - i,
    {
        if !is_hex_digit(v[i]) {
            return None;
        }
        push_char(&mut out, ascii_upper_char(v[i]));
        i = i + 1;
    }
    assert(v@.map_values(up).take(7) =~= v@.map_values(up));
    Some(out)
}

/// The value of a digit of base sixteen.
pub open spec fn hex_digit(c: char) -> int {
    if '0' <= c <= '9' {
        c as int - 48
    } else if 'a' <= c <= 'f' {
        c as int - 87
    } else {
        c as int - 55
    }
}

/// The red, green and blue of a colour.
pub open spec fn rgb(value: Seq<char>) -> Option<(int, int, int)> {
    let t = trim(value);
    if is_color(t) {
        Some(
            (
                hex_digit(t[1]) * 16 + hex_digit(t[2]),
                hex_digit(t[3]) * 16 + hex_digit(t[4]),
                hex_digit(t[5]) * 16 + hex_digit(t[6]),
            ),
        )
    } else {
        None
    }
}

fn read_hex_digit(c: char) -> (r: u8)
    requires
        is_hex(c),
    ensures
        r == hex_digit(c),
        r < 16,
{
    let n: u32 = c as u32;
    if '0' <= c && c <= '9' {
        (n - 48) as u8
    } else if 'a' <= c && c <= 'f' {
        (n - 87) as u8
    } else {
        (n - 55) as u8
    }
}

/// Reads the red, green and blue of a colour.
pub fn parse_hex_rgb(color: &str) -> (r: Option<(u8, u8, u8)>)
    ensures
        match rgb(color@) {
            Some((red, green, blue)) => r is Some && (r->0).0 == red && (r->0).1 == green && (
            r->0).2 == blue,
            None => r is None,
        },
{
    let v: Vec<char> = chars_of(trim_text(color).as_str());
    if v.len() != 7 || v[0] != '#' {
        return None;
    }
    let mut digits: Vec<u8> = Vec::new();
    let mut i: usize = 1;
    while i < 7
        invariant
            1 <= i <= 7,
            v@.len() == 7,
            v@[0] == '#',
            v@ == trim(color@),
            digits@.len() == i - 1,
            forall|k: int| 1 <= k < i ==> is_hex(#[trigger] v@[k]),
            forall|k: int|
                0 <= k < digits@.len() ==> #[trigger] digits@[k] == hex_digit(v@[k + 1])
                    && digits@[k] < 16,
        decreases 7 - i,
    {
        if !is_hex_digit(v[i]) {
            return None;
        }
        digits.push(read_hex_digit(v[i]));
        i = i + 1;
    }
    assert(is_color(v@));
    assert(digits@[0] < 16 && digits@[1] < 16 && digits@[2] < 16 && digits@[3] < 16 && digits@[4]
        < 16 && digits@[5] < 16);
    Some(
        (
            digits[0] * 16 + digits[1],
            digits[2] * 16 + digits[3],
            digits[4] * 16 + digits[5],
        ),
    )
}

/// The colours that speakers get by default.
pub open spec fn palette() -> Seq<Seq<char>> {
    seq![
        "#4F7CFF"@,
        "#EC6A5E"@,
        "#27A376"@,
        "#D88B15"@,
        "#1293A5"@,
        "#C85F39"@,
        "#5F8D3D"@,
        "#B04A64"@,
        "#6C7A2D"@,
    ]
}

/// The hash of bytes by which a colour is chosen.
pub open spec fn key_hash(bytes: Seq<u8>) -> nat
    decreases bytes.len(),
{
    if bytes.len() == 0 {
        0
    } else {
        (key_hash(bytes.drop_last()) * 31 + bytes.last() as nat) % 0x1_0000_0000_0000_0000
    }
}

/// The colour that a speaker gets by default.
pub open spec fn default_color(key: Seq<char>) -> Seq<char> {
    palette()[(key_hash(encode_utf8(key)) % 9) as int]
}

/// A default colour is one of the palette.
pub proof fn default_colors_come_from_the_palette(key: Seq<char>)
    ensures
        palette().contains(default_color(key)),
{
    let i = (key_hash(encode_utf8(key)) % 9) as int;
    assert(0 <= i < palette().len());
    assert(palette()[i] == default_color(key));
}

/// Gives a speaker a colour by its key.
pub fn default_speaker_color_for_key(key: &str) -> (r: String)
    ensures
        r@ == default_color(key@),
{
    let bytes: &[u8] = key.as_bytes();
    let mut hash: u64 = 0;
    let mut i: usize = 0;
    while i < bytes.len()
        invariant
            i <= bytes@.len(),
            hash == key_hash(bytes@.take(i as int)),
        decreases bytes@.len() - i,
    {
        assert(bytes@.take(i + 1).drop_last() =~= bytes@.take(i as int));
        let wide: u128 = hash as u128 * 31 + bytes[i] as u128;
        hash = (wide % 0x1_0000_0000_0000_0000) as u64;
        i = i + 1;
    }
    assert(bytes@.take(i as int) =~= bytes@);
    let at: usize = (hash % 9) as usize;
    let colors: [&str; 9] = [
        "#4F7CFF",
        "#EC6A5E",
        "#27A376",
        "#D88B15",
        "#1293A5",
        "#C85F39",
        "#5F8D3D",
        "#B04A64",
        "#6C7A2D",
    ];
    assert(colors@[at as int]@ == palette()[at as int]);
    colors[at].to_owned()
}

/// The colour of a segment's speaker: the one that is set for its key, else a default one.
pub open spec fn speaker_color(segment: SegmentView, colors: Map<Seq<char>, Seq<char>>) -> Option<
    Seq<char>,
> {
    match speaker_key(segment) {
        None => None,
        Some(key) => if colors.contains_key(key) && clean_color(colors[key]) is Some {
            clean_color(colors[key])
        } else {
            Some(default_color(key))
        },
    }
}

/// Gives the colour of a segment's speaker.
pub fn resolve_export_speaker_color(segment: &ExportSegment, speaker_colors: &TextMap) -> (r: Option<
    String,
>)
    ensures
        opt_view(r) == speaker_color(segment@, speaker_colors@),
{
    match normalized_export_speaker_id(segment) {
        None => None,
        Some(key) => {
            if let Some(value) = speaker_colors.get(key.as_str()) {
                if let Some(color) = sanitize_speaker_color_value(value) {
                    return Some(color);
                }
            }
            Some(default_speaker_color_for_key(key.as_str()))
        },
    }
}

/// A colour keeps its value in its usual form, which is a colour without small letters.
pub proof fn a_clean_color_is_the_same_color(value: Seq<char>)
    ensures
        clean_color(value) is Some <==> is_color(trim(value)),
        clean_color(value) matches Some(c) ==> {
            &&& is_color(c)
            &&& rgb(c) == rgb(value)
            &&& forall|i: int| 0 <= i < 7 ==> !('a' <= #[trigger] c[i] <= 'z')
            &&& clean_color(c) == Some(c)
        },
{
    let t = trim(value);
    if is_color(t) {
        let c = t.map_values(|c: char| upper_char(c));
        assert forall|i: int| 1 <= i < 7 implies is_hex(#[trigger] c[i]) && hex_digit(c[i]) == hex_digit(
            t[i],
        ) && !('a' <= c[i] <= 'z') by {
            assert(is_hex(t[i]));
            assert(c[i] == upper_char(t[i]));
        }
        assert(c[0] == '#');
        lemma_trimmed(c);
        assert(c.map_values(|c: char| upper_char(c)) =~= c);
    }
}

/// The number that digits of base sixteen write.
pub open spec fn hex_number(s: Seq<char>) -> int
    decreases s.len(),
{
    if s.len() == 0 {
        0
    } else {
        16 * hex_number(s.drop_last()) + hex_digit(s.last())
    }
}

/// Red, green and blue are the three bytes of the number that a colour writes, from the highest to the
/// lowest.
pub proof fn red_green_and_blue_are_the_bytes_of_the_number(value: Seq<char>)
    requires
        is_color(trim(value)),
    ensures
        rgb(value) is Some,
        ({
            let (red, green, blue) = rgb(value)->0;
            &&& 0 <= red < 256 && 0 <= green < 256 && 0 <= blue < 256
            &&& hex_number(trim(value).skip(1)) == red * 65536 + green * 256 + blue
        }),
{
    let d = trim(value).skip(1);
    assert forall|i: int| 1 <= i < 7 implies 0 <= hex_digit(#[trigger] trim(value)[i]) < 16 by {
        assert(is_hex(trim(value)[i]));
    }
    reveal_with_fuel(hex_number, 8);
    assert(d.drop_last() =~= d.take(5));
    assert(d.take(5).drop_last() =~= d.take(4));
    assert(d.take(4).drop_last() =~= d.take(3));
    assert(d.take(3).drop_last() =~= d.take(2));
    assert(d.take(2).drop_last() =~= d.take(1));
    assert(d.take(1).drop_last() =~= d.take(0));
    assert(hex_number(d.take(1)) == hex_digit(d[0]));
    assert(hex_number(d.take(2)) == 16 * hex_digit(d[0]) + hex_digit(d[1]));
    assert(hex_number(d.take(3)) == 16 * hex_number(d.take(2)) + hex_digit(d[2]));
    assert(hex_number(d.take(4)) == 16 * hex_number(d.take(3)) + hex_digit(d[3]));
    assert(hex_number(d.take(5)) == 16 * hex_number(d.take(4)) + hex_digit(d[4]));
}

/// The hash of a byte is the byte, and each further byte adds to thirty-one times what was.
pub proof fn the_hash_of_short_keys(a: u8, b: u8)
    ensures
        key_hash(seq![a]) == a,
        key_hash(seq![a, b]) == 31 * a + b,
{
    reveal_with_fuel(key_hash, 4);
    assert(seq![a].drop_last() =~= Seq::<u8>::empty());
    assert(seq![a, b].drop_last() =~= seq![a]);
}

/// The speakers of an export keep their colours: a colour that is set for a speaker and is one is used,
/// another is not, and two segments of one speaker have one colour.
pub proof fn a_speaker_has_one_color(
    a: SegmentView,
    b: SegmentView,
    colors: Map<Seq<char>, Seq<char>>,
)
    ensures
        speaker_key(a) == speaker_key(b) ==> speaker_color(a, colors) == speaker_color(b, colors),
        speaker_color(a, colors) is None <==> speaker_key(a) is None,
        speaker_key(a) matches Some(key) ==> {
            &&& colors.contains_key(key) && is_color(trim(colors[key])) ==> speaker_color(a, colors)
                is Some && rgb(speaker_color(a, colors)->0) == rgb(colors[key])
            &&& !colors.contains_key(key) || !is_color(trim(colors[key])) ==> palette().contains(
                speaker_color(a, colors)->0,
            )
        },
{
    if speaker_key(a) is Some {
        let key = speaker_key(a)->0;
        default_colors_come_from_the_palette(key);
        if colors.contains_key(key) {
            a_clean_color_is_the_same_color(colors[key]);
        }
    }
}

/// A speaker without a letter or digit has the key of any speaker.
pub proof fn a_speaker_without_letters_has_a_key(value: Seq<char>)
    requires
        letters(ascii_lower(trim(value))).len() == 0,
    ensures
        color_key(value) == "speaker"@,
{
    let key = color_key(value);
    color_keys_keep_letters_and_digits(value);
    if key != "speaker"@ {
        let mapped = ascii_lower(trim(value)).map_values(|c: char| key_char(c));
        color_keys_are_plain(value, key.len() - 1);
        lemma_no_mark_at_the_end(strip_front(mapped));
        assert(is_ascii_alnum(key.last()));
        assert(letters(key).len() > 0);
    }
}

proof fn lemma_no_mark_at_the_end(s: Seq<char>)
    ensures
        strip_back(s).len() > 0 ==> strip_back(s).last() != '_',
    decreases s.len(),
{
    if s.len() > 0 && s.last() == '_' {
        lemma_no_mark_at_the_end(s.drop_last());
    }
}

} // verus!
