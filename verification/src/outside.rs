//! The calls that the library makes into other crates, with what it relies on.

use vstd::prelude::*;

use crate::summarise::{FoldedSummary, SummaryInput};

verus! {

/// The SHA-256 digest of some bytes.
pub uninterp spec fn sha256(bytes: Seq<u8>) -> Seq<u8>;

/// The JSON text of an array of strings.
pub uninterp spec fn string_array_json(strings: Seq<Seq<char>>) -> Seq<char>;

/// The strings of a JSON text, where it is an array of strings.
pub uninterp spec fn json_string_array(text: Seq<char>) -> Option<Seq<Seq<char>>>;

/// Whether a text is one JSON value.
pub uninterp spec fn is_json(text: Seq<char>) -> bool;

/// Whether a bit pattern is that of no single-precision number.
pub open spec fn is_nan(bits: u32) -> bool {
    bits % 0x8000_0000 > 0x7f80_0000
}

/// Where a single-precision number, by its bit pattern, stands among the others: the
/// patterns of one sign are ordered as the numbers' magnitudes are, and both zeros are the
/// same.
pub open spec fn score_place(bits: u32) -> int {
    if bits < 0x8000_0000 {
        bits as int
    } else {
        0x8000_0000 - bits
    }
}

/// The fold of contents, each with its score: those that are not blank, the highest scores
/// first, each trimmed and behind a dash.
pub open spec fn folded_text(inputs: Seq<(Seq<char>, u32)>) -> Seq<char> {
    let kept = inputs.filter(|i: (Seq<char>, u32)| !crate::text::is_blank(i.0));
    let ordered = crate::rows::sorted_by(
        kept,
        |a: (Seq<char>, u32), b: (Seq<char>, u32)| score_place(a.1) >= score_place(b.1),
    );
    crate::text::join(
        ordered.map_values(|i: (Seq<char>, u32)| "\u{2014} "@ + crate::text::trimmed(i.0)),
        "\n\n"@,
    )
}

/// How many tokens a text is taken for: four characters each, the last one in part.
pub open spec fn tokens_of(text: Seq<char>) -> nat {
    (text.len() + 3) / 4
}

/// A text cut to a token budget.
pub open spec fn clamped(text: Seq<char>, budget: u32) -> Seq<char> {
    if tokens_of(text) <= budget {
        text
    } else {
        text.take(4 * budget)
    }
}

/// Folds tree inputs without a model.
///
/// Trusted: `tinycortex::memory::tree::fallback_summary` reads of each input its
/// content and its score, which `tinycortex::memory::store::vectors::bytes_to_vec` makes
/// of the little-endian bytes of its bit pattern. It joins the inputs that are not
/// blank, the highest scores first and equal ones in their order, and cuts the text to
/// the budget. It counts a token for every four characters, up to the budget, and names
/// neither entities nor topics. It counts characters in 32 bits: of a fold of that length
/// or more nothing is stated but the budget. Its sort may panic where a score is not a
/// number.
#[verifier::external_body]
pub(crate) fn fold_inputs(inputs: &Vec<SummaryInput>, budget: u32) -> (r: FoldedSummary)
    requires
        forall|i: int| 0 <= i < inputs@.len() ==> !is_nan((#[trigger] inputs@[i]).score),
    ensures
        folded_text(scored_contents(inputs@)).len() <= u32::MAX - 3 ==> r.content@ == clamped(
            folded_text(scored_contents(inputs@)),
            budget,
        ) && r.token_count == tokens_of(r.content@),
        r.token_count <= budget,
        r.entities@.len() == 0,
        r.topics@.len() == 0,
{
    let given: Vec<tinycortex::memory::tree::SummaryInput> = inputs.iter().map(|i| tinycortex::memory::tree::SummaryInput {
        id: i.id.clone(),
        content: i.content.clone(),
        token_count: i.token_count,
        entities: i.entities.clone(),
        topics: i.topics.clone(),
        time_range_start: Default::default(),
        time_range_end: Default::default(),
        score: tinycortex::memory::store::vectors::bytes_to_vec(&i.score.to_le_bytes())[0],
    }).collect();
    let out = tinycortex::memory::tree::fallback_summary(&given, budget);
    FoldedSummary { content: out.content, token_count: out.token_count, entities: out.entities, topics: out.topics }
}

/// The contents of some inputs, each with its score.
pub open spec fn scored_contents(inputs: Seq<SummaryInput>) -> Seq<(Seq<char>, u32)> {
    inputs.map_values(|i: SummaryInput| (i.content@, i.score))
}

/// Digests some bytes.
///
/// Trusted: `sha2::Sha256::digest` returns the 32 bytes of the SHA-256 digest,
/// which depends on the bytes alone.
#[verifier::external_body]
pub(crate) fn sha256_digest(bytes: &Vec<u8>) -> (r: Vec<u8>)
    ensures
        r@ == sha256(bytes@),
        r@.len() == 32,
{
    <sha2::Sha256 as sha2::Digest>::digest(bytes).to_vec()
}

/// Renders strings as a JSON array.
///
/// Trusted: `serde_json::to_string` of a list of strings succeeds, and its text
/// depends on the strings alone. The text reads back as the same strings.
#[verifier::external_body]
pub(crate) fn render_string_array(strings: &Vec<String>) -> (r: Result<String, String>)
    ensures
        r is Ok,
        r->Ok_0@ == string_array_json(crate::text::texts(strings@)),
        json_string_array(r->Ok_0@) == Some(crate::text::texts(strings@)),
{
    serde_json::to_string(strings).map_err(|e| e.to_string())
}

/// Reads a JSON array of strings, or `None` where the text is something else.
///
/// Trusted: `serde_json::from_str` into a list of strings depends on the text
/// alone.
#[verifier::external_body]
pub(crate) fn parse_string_array(text: &str) -> (r: Option<Vec<String>>)
    ensures
        match r {
            Some(strings) => json_string_array(text@) == Some(crate::text::texts(strings@)),
            None => json_string_array(text@) is None,
        },
{
    serde_json::from_str(text).ok()
}

/// Whether a text is one JSON value.
///
/// Trusted: whether `serde_json::from_str` into a JSON value succeeds depends on
/// the text alone.
#[verifier::external_body]
pub(crate) fn parses_as_json(text: &str) -> (r: bool)
    ensures
        r == is_json(text@),
{
    serde_json::from_str::<serde_json::Value>(text).is_ok()
}

/// The scheme of an absolute URL, in lower case, where a text is one.
pub uninterp spec fn scheme_of(text: Seq<char>) -> Option<Seq<char>>;

/// The scheme of an absolute URL, or `None` where the text is not one.
///
/// Trusted: what `reqwest::Url::parse` makes of a text, and so the scheme that the
/// URL has, depends on the text alone.
#[verifier::external_body]
pub(crate) fn url_scheme(text: &str) -> (r: Option<String>)
    ensures
        crate::text::opt_text(r) == scheme_of(text@),
{
    reqwest::Url::parse(text).ok().map(|url| url.scheme().to_owned())
}

/// Whether a text can be the value of an HTTP header.
///
/// Trusted: `reqwest::header::HeaderValue::from_str` refuses the control characters
/// other than the tab, and nothing else.
#[verifier::external_body]
pub(crate) fn is_header_value(text: &str) -> (r: bool)
    ensures
        r == forall|i: int| 0 <= i < text@.len() ==> header_char(#[trigger] text@[i]),
{
    reqwest::header::HeaderValue::from_str(text).is_ok()
}

/// A character that a header value can hold.
pub open spec fn header_char(c: char) -> bool {
    c as int == 9 || (c as int >= 32 && c as int != 127)
}

/// A text in lower case, by the rules of Unicode.
pub uninterp spec fn lowered(text: Seq<char>) -> Seq<char>;

/// A string in lower case.
///
/// Trusted: `str::to_lowercase` maps a string by the rules of Unicode, and so depends on
/// the string alone.
#[verifier::external_body]
pub(crate) fn to_lower(text: &str) -> (r: String)
    ensures
        r@ == lowered(text@),
{
    text.to_lowercase()
}

/// The time now, in milliseconds since the epoch.
///
/// Trusted: `chrono::Utc::now` reads the machine's clock, so nothing is promised
/// of the result.
#[verifier::external_body]
pub(crate) fn now_millis() -> (r: i64) {
    chrono::Utc::now().timestamp_millis()
}

/// A random identifier in its hyphenated form.
///
/// Trusted: `uuid::Uuid::new_v4` is random; its text is 36 characters long,
/// whatever it is.
#[verifier::external_body]
pub(crate) fn random_identifier() -> (r: String)
    ensures
        r@.len() == 36,
{
    uuid::Uuid::new_v4().to_string()
}

} // verus!
