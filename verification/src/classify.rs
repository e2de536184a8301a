//! Classification of one trace line as a successful, failed or unparsable allocation.
//!
//! A pattern locates the page field of a line. The classifier accepts a
//! location only where the marker `page=` stands right before it, and reads the
//! field as a hexadecimal number: zero is a failed allocation, any other number
//! a successful one, and everything else is unparsable.

use crate::bytes::{holds_at, holds_key_at};
use crate::hex::{hex_number, hex_run_is_zero, is_hex_digit, is_hex_run, read_hex_zero};
use crate::text::{holds_text_at, lemma_ascii_run_is_text, same_run};
use regex::Regex;
use vstd::prelude::*;
use vstd::slice::slice_subrange;
use vstd::string::*;
use vstd::utf8::{char_u32_cast, encode_utf8};

verus! {

/// What one trace line says about an allocation.
#[derive(Debug, Clone, Copy, PartialEq, Eq, Structural)]
pub enum ParseResult {
    /// The page field holds a non-zero address.
    Successful,
    /// The page field holds zero.
    Failed,
    /// The line has no page field that can be read.
    Unparsable,
}

/// The pattern that locates the page field: the marker, a run of hexadecimal
/// digits as the one capture group, and white space after it.
pub const PAGE_PATTERN: &'static str = r".*page=([A-Fa-f0-9]+)\s.*";

/// The capture group of a pattern that holds the page field.
pub const PAGE_GROUP: usize = 1;

/// The marker that stands right before the page field.
pub const PAGE_MARKER: &'static str = "page=";

/// Whether the marker `page=` ends right before position `pos` of `line`.
pub open spec fn marker_ends_at(line: Seq<u8>, pos: int) -> bool {
    holds_key_at(line, pos - PAGE_MARKER.spec_bytes().len(), PAGE_MARKER.spec_bytes())
}

/// Whether `line` holds the marker `page=` with a hexadecimal digit right after it.
pub open spec fn has_page_field(line: Seq<u8>) -> bool {
    exists|pos: int| #[trigger] marker_ends_at(line, pos) && pos < line.len() && is_hex_digit(line[pos])
}

/// Whether `c` is a hexadecimal digit: `0`-`9`, `a`-`f` or `A`-`F`.
pub open spec fn is_hex_digit_char(c: char) -> bool {
    ||| '0' <= c <= '9'
    ||| 'a' <= c <= 'f'
    ||| 'A' <= c <= 'F'
}

/// Whether the text `line` holds the marker `page=` with a hexadecimal digit
/// right after it.
pub open spec fn text_has_page_field(line: Seq<char>) -> bool {
    exists|pos: int| #[trigger]
        holds_text_at(line, pos, PAGE_MARKER@) && pos + PAGE_MARKER@.len() < line.len()
            && is_hex_digit_char(line[pos + PAGE_MARKER@.len()])
}

/// The outcome that a captured field stands for: a run of hexadecimal digits
/// of any length that writes zero is a failed allocation, one that writes
/// another number a successful one, and all else is unparsable.
pub open spec fn capture_outcome(capture: Seq<u8>) -> ParseResult {
    match hex_run_is_zero(capture) {
        None => ParseResult::Unparsable,
        Some(true) => ParseResult::Failed,
        Some(false) => ParseResult::Successful,
    }
}

/// The outcome for `line` where the pattern reported `span` as the byte range
/// of the page field, or `None` for no match or no such group.
pub open spec fn field_outcome(line: Seq<u8>, span: Option<(usize, usize)>) -> ParseResult {
    match span {
        None => ParseResult::Unparsable,
        Some((start, end)) => if start <= end <= line.len() && marker_ends_at(line, start as int) {
            capture_outcome(line.subrange(start as int, end as int))
        } else {
            ParseResult::Unparsable
        },
    }
}

/// A line that is not unparsable holds a page field, whatever span was reported for it.
pub proof fn lemma_outcome_needs_page_field(line: Seq<u8>, span: Option<(usize, usize)>)
    ensures
        !has_page_field(line) ==> field_outcome(line, span) == ParseResult::Unparsable,
{
    if field_outcome(line, span) != ParseResult::Unparsable {
        let (start, end) = span->0;
        let capture = line.subrange(start as int, end as int);
        assert(is_hex_run(capture));
        assert(capture[0] == line[start as int]);
        assert(marker_ends_at(line, start as int));
    }
}

/// A page field in the bytes of a text is a page field in the text.
pub proof fn lemma_page_field_in_text(line: Seq<char>)
    requires
        has_page_field(encode_utf8(line)),
    ensures
        text_has_page_field(line),
{
    let bytes = encode_utf8(line);
    let marker = PAGE_MARKER.spec_bytes();
    let field = choose|pos: int| #[trigger]
        marker_ends_at(bytes, pos) && pos < bytes.len() && is_hex_digit(bytes[pos]);
    let from = field - marker.len();
    let len = marker.len() as int;
    // the marker is ASCII, and so is the digit after it
    reveal_strlit("page=");
    is_ascii_spec_bytes(PAGE_MARKER);
    assert forall|k: int| from <= k < from + len + 1 implies #[trigger] bytes[k] < 0x80 by {
        if k < field {
            assert(bytes[k] == bytes.subrange(from, field)[k - from]);
        }
    }
    lemma_ascii_run_is_text(line, from, len + 1);
    let at = choose|at: int| #[trigger] same_run(line, at, bytes, from, len + 1);
    // the characters found are those of the marker
    assert forall|k: int| 0 <= k < len implies line.subrange(at, at + len)[k] == PAGE_MARKER@[k] by {
        assert(line[at + k] as u32 == bytes[from + k] as u32);
        assert(bytes[from + k] == bytes.subrange(from, field)[k]);
        char_u32_cast(line[at + k], line[at + k] as u32);
        char_u32_cast(PAGE_MARKER@[k], PAGE_MARKER@[k] as u32);
    }
    assert(line.subrange(at, at + len) =~= PAGE_MARKER@);
    // and the character after them is the digit
    let digit = line[at + len];
    assert(digit as u32 == bytes[from + len] as u32);
    char_u32_cast(digit, digit as u32);
    assert(holds_text_at(line, at, PAGE_MARKER@));
}

/// The regular expression type of the `regex` crate, carried as an opaque value.
#[verifier::external_type_specification]
#[verifier::external_body]
pub struct ExRegex(regex::Regex);

/// The error that the `regex` crate reports for a pattern it cannot compile.
#[verifier::external_type_specification]
#[verifier::external_body]
pub struct ExRegexError(regex::Error);

/// The text that `pattern` was compiled from, as `Regex::as_str` reports it.
pub uninterp spec fn pattern_text(pattern: Regex) -> Seq<char>;

/// Whether `Regex::new` accepts `text`: it is a pattern in the syntax of the
/// engine, and what it compiles to stays within the engine's default limits.
pub uninterp spec fn pattern_accepted(text: Seq<char>) -> bool;

/// `Regex::new` compiles a pattern under the default configuration of the
/// engine. Whether it succeeds depends on the text alone, and a regex that
/// comes back keeps the text it was given.
pub assume_specification[ regex::Regex::new ](re: &str) -> (compiled: Result<Regex, regex::Error>)
    ensures
        compiled is Ok <==> pattern_accepted(re@),
        compiled matches Ok(pattern) ==> pattern_text(pattern) == re@,
;

/// The byte range of capture group `group` in the leftmost match of `pattern`
/// in `haystack`, as `Regex::captures` followed by `Captures::get` reports it;
/// `None` where nothing matches or the group took no part in the match.
pub uninterp spec fn group_span(pattern: Regex, haystack: Seq<char>, group: usize) -> Option<(usize, usize)>;

/// Calls `Regex::captures` on `haystack`, then `Captures::get` for `group`, and
/// hands back the start and end of that `Match`.
///
/// The result depends on the pattern, the haystack and the group alone, and
/// the offsets are in order and lie within the bytes of the haystack, as the
/// documentation of `Match::start` and `Match::end` guarantees.
#[verifier::external_body]
fn find_group(pattern: &Regex, haystack: &str, group: usize) -> (span: Option<(usize, usize)>)
    ensures
        span == group_span(*pattern, haystack@, group),
        span matches Some((start, end)) ==> start <= end <= haystack.spec_bytes().len(),
{
    match pattern.captures(haystack) {
        Some(found) => match found.get(group) {
            Some(field) => Some((field.start(), field.end())),
            None => None,
        },
        None => None,
    }
}

/// Why no pattern is at hand.
#[derive(Debug, Clone, Copy, PartialEq, Eq, Structural)]
pub enum PatternError {
    /// The pattern engine did not accept the pattern text.
    Rejected,
}

/// What the answer of the pattern engine amounts to: the compiled pattern
/// as it is, or, whatever the engine objected to, that the text was rejected.
pub open spec fn pattern_outcome(answer: Result<Regex, regex::Error>) -> Result<Regex, PatternError> {
    match answer {
        Ok(pattern) => Ok(pattern),
        Err(_) => Err(PatternError::Rejected),
    }
}

/// Reads the answer of the pattern engine: a compiled pattern is handed on
/// as it is, and every error becomes [`PatternError::Rejected`].
pub fn pattern_result(answer: Result<Regex, regex::Error>) -> (compiled: Result<Regex, PatternError>)
    ensures
        compiled == pattern_outcome(answer),
        compiled is Ok <==> answer is Ok,
{
    match answer {
        Ok(pattern) => Ok(pattern),
        Err(_) => Err(PatternError::Rejected),
    }
}

/// Compiles a pattern. It succeeds on every text that the pattern engine
/// accepts; what comes back is compiled from `text`. For any other text it
/// tells that the text was rejected.
pub fn compile_pattern(text: &str) -> (compiled: Result<Regex, PatternError>)
    ensures
        compiled is Ok <==> pattern_accepted(text@),
        compiled matches Ok(pattern) ==> pattern_text(pattern) == text@,
        compiled matches Err(e) ==> e == PatternError::Rejected,
{
    pattern_result(Regex::new(text))
}

/// Compiles [`PAGE_PATTERN`], the pattern that locates the page field. It
/// succeeds where the pattern engine accepts that text.
pub fn line_pattern() -> (compiled: Result<Regex, PatternError>)
    ensures
        compiled is Ok <==> pattern_accepted(PAGE_PATTERN@),
        compiled matches Ok(pattern) ==> pattern_text(pattern) == PAGE_PATTERN@,
        compiled matches Err(e) ==> e == PatternError::Rejected,
{
    compile_pattern(PAGE_PATTERN)
}

/// Classifies a captured field: zero is a failed allocation, any other number
/// a successful one, however many digits write it, and all else is unparsable.
pub fn classify_capture(capture: &[u8]) -> (outcome: ParseResult)
    ensures
        outcome == capture_outcome(capture@),
        is_hex_run(capture@) && hex_number(capture@) == 0 ==> outcome == ParseResult::Failed,
        is_hex_run(capture@) && hex_number(capture@) > 0 ==> outcome == ParseResult::Successful,
        !is_hex_run(capture@) ==> outcome == ParseResult::Unparsable,
{
    match read_hex_zero(capture) {
        None => ParseResult::Unparsable,
        Some(true) => ParseResult::Failed,
        Some(false) => ParseResult::Successful,
    }
}

/// Whether the marker `page=` ends right before position `pos` of `line`.
pub fn marker_before(line: &[u8], pos: usize) -> (found: bool)
    ensures
        found == marker_ends_at(line@, pos as int),
{
    let marker = PAGE_MARKER.as_bytes();
    if pos < marker.len() {
        return false;
    }
    holds_at(line, pos - marker.len(), marker)
}

/// Classifies `line`, given the byte range that the pattern reported for its
/// page field.
///
/// The range counts only where it lies within the line and the marker `page=`
/// stands right before it. So a line without a page field is unparsable
/// whatever range comes in.
pub fn classify_field(line: &[u8], span: Option<(usize, usize)>) -> (outcome: ParseResult)
    ensures
        outcome == field_outcome(line@, span),
        !has_page_field(line@) ==> outcome == ParseResult::Unparsable,
{
    proof {
        lemma_outcome_needs_page_field(line@, span);
    }
    match span {
        None => ParseResult::Unparsable,
        Some((start, end)) => {
            if start <= end && end <= line.len() && marker_before(line, start) {
                classify_capture(slice_subrange(line, start, end))
            } else {
                ParseResult::Unparsable
            }
        },
    }
}

/// Classifies one line of the trace with the given pattern.
///
/// The pattern says where the page field is; what the field means is decided
/// by [`classify_field`] on the bytes of the line. So a line that does not
/// hold the marker `page=` with a hexadecimal digit after it is unparsable
/// with every pattern.
pub fn parse_line(line: &String, line_regex: &Regex) -> (outcome: ParseResult)
    ensures
        outcome == field_outcome(encode_utf8(line@), group_span(*line_regex, line@, PAGE_GROUP)),
        !text_has_page_field(line@) ==> outcome == ParseResult::Unparsable,
{
    proof {
        if has_page_field(encode_utf8(line@)) {
            lemma_page_field_in_text(line@);
        }
    }
    let text = line.as_str();
    let span = find_group(line_regex, text, PAGE_GROUP);
    classify_field(text.as_bytes(), span)
}

} // verus!
