//! Digests of release assets.

use sha2::Digest;
use vstd::prelude::*;
use vstd::string::*;

use crate::text::{
    ascii_lower, ascii_lower_text, cat3, cat5, contains, digit, digit_char, inked, is_white,
    lemma_contains_middle, lemma_inked_edge, lower_char, opt_view, push_char, same_text, trim,
    trim_start, trim_text, trim_trims, trimming_takes_white_only,
};

verus! {

/// The SHA-256 digest of a sequence of bytes.
pub uninterp spec fn sha256(bytes: Seq<u8>) -> Seq<u8>;

/// Computes a SHA-256 digest.
///
/// Trusted: `sha2::Sha256::digest` returns the digest of exactly these bytes, thirty-two bytes
/// long, and the same one every time.
#[verifier::external_body]
fn sha256_digest(bytes: &[u8]) -> (r: Vec<u8>)
    ensures
        r@ == sha256(bytes@),
        r@.len() == 32,
{
    sha2::Sha256::digest(bytes).to_vec()
}

/// Bytes as pairs of lower-case hexadecimal digits.
pub open spec fn hex(bytes: Seq<u8>) -> Seq<char>
    decreases bytes.len(),
{
    if bytes.len() == 0 {
        Seq::empty()
    } else {
        hex(bytes.drop_last()).push(digit((bytes.last() / 16) as int)).push(
            digit((bytes.last() % 16) as int),
        )
    }
}

proof fn lemma_hex_len(bytes: Seq<u8>)
    ensures
        hex(bytes).len() == 2 * bytes.len(),
    decreases bytes.len(),
{
    if bytes.len() > 0 {
        lemma_hex_len(bytes.drop_last());
    }
}

/// Writes bytes as hexadecimal digits.
pub fn hex_text(bytes: &[u8]) -> (r: String)
    ensures
        r@ == hex(bytes@),
{
    let mut out: String = String::new();
    let mut i: usize = 0;
    while i < bytes.len()
        invariant
            i <= bytes@.len(),
            out@ == hex(bytes@.take(i as int)),
        decreases bytes@.len() - i,
    {
        let b: u8 = bytes[i];
        push_char(&mut out, digit_char(b / 16));
        push_char(&mut out, digit_char(b % 16));
        proof {
            assert(bytes@.take(i + 1).drop_last() =~= bytes@.take(i as int));
        }
        i = i + 1;
    }
    assert(bytes@.take(i as int) =~= bytes@);
    out
}

/// The SHA-256 digest of some bytes, in hexadecimal.
pub fn sha256_bytes_hex(bytes: &[u8]) -> (r: String)
    ensures
        r@ == hex(sha256(bytes@)),
        r@.len() == 64,
{
    let digest: Vec<u8> = sha256_digest(bytes);
    proof {
        lemma_hex_len(digest@);
    }
    hex_text(&digest)
}

/// The form in which digests are compared: trimmed and in lower case.
pub open spec fn sha256_key(value: Seq<char>) -> Seq<char> {
    ascii_lower(trim(value))
}

/// Brings a digest into the form in which digests are compared.
pub fn normalize_sha256(value: &str) -> (r: String)
    ensures
        r@ == sha256_key(value@),
{
    ascii_lower_text(trim_text(value).as_str())
}

/// What is wrong with a file of a known digest, if anything. A file without a name is called by
/// what it is.
pub open spec fn digest_mismatch(
    file_name: Option<Seq<char>>,
    actual: Seq<char>,
    expected: Seq<char>,
) -> Option<Seq<char>> {
    let name = match file_name {
        Some(n) => n,
        None => "downloaded asset"@,
    };
    if sha256_key(expected).len() == 0 {
        Some("Checksum is missing for '"@ + name + "'."@)
    } else if actual != sha256_key(expected) {
        Some(
            "Checksum mismatch for '"@ + name + "': expected "@ + sha256_key(expected) + ", got "@
                + actual + "."@,
        )
    } else {
        None
    }
}

/// Compares the digest of a file with the one that was announced for it.
pub fn check_digest(file_name: &Option<String>, actual: &str, expected_sha256: &str) -> (r: Result<
    (),
    String,
>)
    ensures
        match digest_mismatch(opt_view(*file_name), actual@, expected_sha256@) {
            None => r is Ok,
            Some(problem) => r is Err && r->Err_0@ == problem,
        },
{
    let expected: String = normalize_sha256(expected_sha256);
    let name: &str = match file_name {
        Some(n) => n.as_str(),
        None => "downloaded asset",
    };
    if expected.as_str().is_empty() {
        return Err(cat3("Checksum is missing for '", name, "'."));
    }
    if !same_text(actual, expected.as_str()) {
        let mut message: String = cat5(
            "Checksum mismatch for '",
            name,
            "': expected ",
            expected.as_str(),
            ", got ",
        );
        message.append(actual);
        message.append(".");
        return Err(message);
    }
    Ok(())
}

/// Verifies a file's content against the digest that was announced for it. Without an announced
/// digest nothing is accepted, and neither is a text of another length than a digest's.
pub fn verify_file_sha256(file_name: &Option<String>, content: &[u8], expected_sha256: &str) -> (r:
    Result<(), String>)
    ensures
        match digest_mismatch(
            opt_view(*file_name),
            hex(sha256(content@)),
            expected_sha256@,
        ) {
            None => r is Ok,
            Some(problem) => r is Err && r->Err_0@ == problem,
        },
        r is Ok <==> trim(expected_sha256@).len() > 0 && hex(sha256(content@)) == ascii_lower(
            trim(expected_sha256@),
        ),
        r is Ok ==> sha256_key(expected_sha256@).len() == 64,
{
    let actual: String = sha256_bytes_hex(content);
    check_digest(file_name, actual.as_str(), expected_sha256)
}

proof fn lemma_lower_twice(s: Seq<char>)
    ensures
        ascii_lower(ascii_lower(s)) == ascii_lower(s),
{
    assert(ascii_lower(ascii_lower(s)) =~= ascii_lower(s));
}

proof fn lemma_lower_keeps_white(c: char)
    ensures
        is_white(lower_char(c)) == is_white(c),
{
}

/// Bringing a digest into its compared form again changes nothing, so that two announcements of
/// one digest that differ in case or in the space around them are the same.
pub proof fn digest_form_is_stable(value: Seq<char>)
    ensures
        sha256_key(sha256_key(value)) == sha256_key(value),
{
    let t = trim(value);
    let k = sha256_key(value);
    trim_trims(value);
    assert(k.len() == t.len());
    if k.len() > 0 {
        lemma_lower_keeps_white(t[0]);
        lemma_lower_keeps_white(t.last());
        assert(k[0] == lower_char(t[0]));
        assert(k.last() == lower_char(t.last()));
        assert(trim_start(k) =~= k);
        assert(trim(k) == k);
    } else {
        assert(trim_start(k) =~= k);
        assert(trim(k) =~= k);
    }
    lemma_lower_twice(t);
}

/// A text whose compared form is not as long as the digest's digits is never accepted.
pub proof fn other_lengths_are_refused(
    file_name: Option<Seq<char>>,
    digest: Seq<u8>,
    announced: Seq<char>,
)
    requires
        trim(announced).len() != 2 * digest.len(),
    ensures
        digest_mismatch(file_name, hex(digest), announced) is Some,
{
    lemma_hex_len(digest);
    assert(sha256_key(announced).len() == trim(announced).len());
}

proof fn lemma_hex_is_not_white(bytes: Seq<u8>)
    ensures
        forall|i: int| 0 <= i < hex(bytes).len() ==> !is_white(#[trigger] hex(bytes)[i]),
    decreases bytes.len(),
{
    if bytes.len() > 0 {
        lemma_hex_is_not_white(bytes.drop_last());
        let h = hex(bytes.drop_last());
        assert forall|i: int| 0 <= i < hex(bytes).len() implies !is_white(
            #[trigger] hex(bytes)[i],
        ) by {
            if i < h.len() {
                assert(!is_white(h[i]));
            }
        }
    }
}

/// A file's own digest is accepted, whether its letters are written in upper or in lower case.
pub proof fn own_digest_is_accepted(
    file_name: Option<Seq<char>>,
    digest: Seq<u8>,
    announced: Seq<char>,
)
    requires
        digest.len() > 0,
        ascii_lower(announced) == hex(digest),
    ensures
        digest_mismatch(file_name, hex(digest), announced) is None,
{
    let h = hex(digest);
    lemma_hex_len(digest);
    lemma_hex_is_not_white(digest);
    assert(h.len() == announced.len());
    lemma_lower_keeps_white(announced[0]);
    lemma_lower_keeps_white(announced.last());
    assert(h[0] == lower_char(announced[0]));
    assert(h[h.len() - 1] == lower_char(announced.last()));
    assert(trim_start(announced) =~= announced);
    assert(trim(announced) == announced);
}

proof fn lemma_digit_apart(a: int, b: int)
    requires
        0 <= a < 16,
        0 <= b < 16,
        digit(a) == digit(b),
    ensures
        a == b,
{
}

/// Different bytes are written differently: two digits for each byte, the higher half first.
pub proof fn different_bytes_are_written_differently(a: Seq<u8>, b: Seq<u8>)
    requires
        hex(a) == hex(b),
    ensures
        a == b,
    decreases a.len(),
{
    lemma_hex_len(a);
    lemma_hex_len(b);
    if a.len() > 0 {
        let x = hex(a.drop_last());
        let y = hex(b.drop_last());
        let n = hex(a).len() as int;
        lemma_hex_len(a.drop_last());
        lemma_hex_len(b.drop_last());
        assert(hex(a).take(n - 2) =~= x);
        assert(hex(b).take(n - 2) =~= y);
        different_bytes_are_written_differently(a.drop_last(), b.drop_last());
        assert(hex(a)[n - 2] == digit((a.last() / 16) as int));
        assert(hex(b)[n - 2] == digit((b.last() / 16) as int));
        assert(hex(a)[n - 1] == digit((a.last() % 16) as int));
        assert(hex(b)[n - 1] == digit((b.last() % 16) as int));
        lemma_digit_apart((a.last() / 16) as int, (b.last() / 16) as int);
        lemma_digit_apart((a.last() % 16) as int, (b.last() % 16) as int);
        assert(a.last() == b.last());
        assert(a =~= a.drop_last().push(a.last()));
        assert(b =~= b.drop_last().push(b.last()));
    } else {
        assert(a =~= b);
    }
}

/// A byte is written as the number that it is.
pub proof fn a_byte_is_written_in_base_sixteen(bytes: Seq<u8>, i: int)
    requires
        0 <= i < bytes.len(),
    ensures
        hex(bytes).len() == 2 * bytes.len(),
        hex(bytes)[2 * i] == digit((bytes[i] / 16) as int),
        hex(bytes)[2 * i + 1] == digit((bytes[i] % 16) as int),
    decreases bytes.len(),
{
    lemma_hex_len(bytes);
    lemma_hex_len(bytes.drop_last());
    if i < bytes.len() - 1 {
        a_byte_is_written_in_base_sixteen(bytes.drop_last(), i);
        assert(hex(bytes)[2 * i] == hex(bytes.drop_last())[2 * i]);
        assert(hex(bytes)[2 * i + 1] == hex(bytes.drop_last())[2 * i + 1]);
    }
}

/// A file is accepted exactly when a digest was announced and it is the file's own; a refusal names the
/// file, and both digests where they differ.
pub proof fn only_the_announced_digest_is_accepted(
    name: Seq<char>,
    actual: Seq<char>,
    expected: Seq<char>,
)
    ensures
        digest_mismatch(Some(name), actual, expected) is None <==> inked(expected).len() > 0 && actual
            == ascii_lower(trim(expected)),
        digest_mismatch(Some(name), actual, expected) matches Some(m) ==> contains(m, name),
        digest_mismatch(Some(name), actual, expected) matches Some(m) ==> (inked(expected).len() > 0
            ==> contains(m, actual) && contains(m, ascii_lower(trim(expected)))),
{
    trimming_takes_white_only(expected);
    lemma_inked_edge(trim(expected));
    let key = sha256_key(expected);
    assert(key.len() == trim(expected).len());
    lemma_contains_middle("Checksum is missing for '"@, name, "'."@);
    let a = "Checksum mismatch for '"@;
    let b = "': expected "@;
    let c = ", got "@;
    let d = "."@;
    let all = a + name + b + key + c + actual + d;
    lemma_contains_middle(a, name, b + key + c + actual + d);
    assert(a + name + (b + key + c + actual + d) =~= all);
    lemma_contains_middle(a + name + b, key, c + actual + d);
    assert(a + name + b + key + (c + actual + d) =~= all);
    lemma_contains_middle(a + name + b + key + c, actual, d);
}

} // verus!
