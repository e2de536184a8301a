//! The file of a closed window: its name, its six lines, and how they are read back.

use crate::bytes::{holds_at, holds_key_at, push_bytes};
use crate::decimal::{
    append_decimal, decimal_bytes, decimal_field_value, decimal_text, is_decimal_digit,
    lemma_decimal_bytes_read_back, lemma_decimal_text_unique, parse_decimal, push_decimal,
};
use crate::recording::{SavedRecording, Window};
use vstd::prelude::*;
use vstd::slice::slice_subrange;
use vstd::string::*;

verus! {

/// The byte that ends each line of the file.
pub const LINE_END: u8 = 0x0a;

/// The key of the line that holds the start of the window.
pub const START_KEY: &'static str = "start:";

/// The key of the line that holds the end of the window.
pub const END_KEY: &'static str = "end:";

/// The key of the line that holds the boost state.
pub const ENABLED_KEY: &'static str = "enabled:";

/// The key of the line that holds the successful allocations.
pub const SUCCESS_KEY: &'static str = "success:";

/// The key of the line that holds the failed allocations.
pub const FAILURE_KEY: &'static str = "failure:";

/// The key of the line that holds the unparsable lines.
pub const UNPARSABLE_KEY: &'static str = "unparsable:";

/// How a boost state that is on is written.
pub const ON_TEXT: &'static str = "true";

/// How a boost state that is off is written.
pub const OFF_TEXT: &'static str = "false";

/// One line of the file: the key, the value, and the line end.
pub open spec fn field_line(key: Seq<u8>, value: Seq<u8>) -> Seq<u8> {
    key + value + seq![LINE_END]
}

/// How a boost state is written.
pub open spec fn flag_bytes(enabled: bool) -> Seq<u8> {
    if enabled {
        ON_TEXT.spec_bytes()
    } else {
        OFF_TEXT.spec_bytes()
    }
}

/// The content of the file of a closed window: six lines in a fixed order.
pub open spec fn file_content(w: Window) -> Seq<u8> {
    field_line(START_KEY.spec_bytes(), decimal_bytes(w.start as nat)) + field_line(
        END_KEY.spec_bytes(),
        decimal_bytes(w.end as nat),
    ) + field_line(ENABLED_KEY.spec_bytes(), flag_bytes(w.enabled)) + field_line(
        SUCCESS_KEY.spec_bytes(),
        decimal_bytes(w.success as nat),
    ) + field_line(FAILURE_KEY.spec_bytes(), decimal_bytes(w.failure as nat)) + field_line(
        UNPARSABLE_KEY.spec_bytes(),
        decimal_bytes(w.unparsable as nat),
    )
}

/// Where the line that holds position `pos` ends: the position of the first
/// line end at or after `pos`, or the length of `text` where there is none.
pub open spec fn line_end(text: Seq<u8>, pos: int) -> int
    decreases text.len() - pos,
{
    if pos < 0 || pos >= text.len() {
        text.len() as int
    } else if text[pos] == LINE_END {
        pos
    } else {
        line_end(text, pos + 1)
    }
}

/// The line of `text` that begins at `pos`, where it begins with `key` and is
/// ended by a line end: the position where its value begins, and where the
/// value ends. The next line begins one past that.
pub open spec fn keyed_line(text: Seq<u8>, pos: int, key: Seq<u8>) -> Option<(int, int)> {
    let from = pos + key.len();
    if holds_key_at(text, pos, key) && line_end(text, from) < text.len() {
        Some((from, line_end(text, from)))
    } else {
        None
    }
}

/// The number on the line of `text` that begins at `pos` with `key`, and the
/// position of the next line.
pub open spec fn number_line(text: Seq<u8>, pos: int, key: Seq<u8>) -> Option<(u128, int)> {
    match keyed_line(text, pos, key) {
        Some((from, to)) => match decimal_field_value(text.subrange(from, to)) {
            Some(value) => Some((value, to + 1)),
            None => None,
        },
        None => None,
    }
}

/// The boost state that a value stands for.
pub open spec fn flag_value(value: Seq<u8>) -> Option<bool> {
    if value == ON_TEXT.spec_bytes() {
        Some(true)
    } else if value == OFF_TEXT.spec_bytes() {
        Some(false)
    } else {
        None
    }
}

/// The boost state on the line of `text` that begins at `pos` with `key`, and
/// the position of the next line.
pub open spec fn flag_line(text: Seq<u8>, pos: int, key: Seq<u8>) -> Option<(bool, int)> {
    match keyed_line(text, pos, key) {
        Some((from, to)) => match flag_value(text.subrange(from, to)) {
            Some(value) => Some((value, to + 1)),
            None => None,
        },
        None => None,
    }
}

/// The window that `text` holds: the six lines in their order and nothing
/// after them, each number written as decimal text, and an end that does not
/// lie before the start.
pub open spec fn parsed_content(text: Seq<u8>) -> Option<Window> {
    match number_line(text, 0, START_KEY.spec_bytes()) {
        Some((start, end_at)) => match number_line(text, end_at, END_KEY.spec_bytes()) {
            Some((end, enabled_at)) => match flag_line(text, enabled_at, ENABLED_KEY.spec_bytes()) {
                Some((enabled, success_at)) => match number_line(text, success_at, SUCCESS_KEY.spec_bytes()) {
                    Some((success, failure_at)) => match number_line(text, failure_at, FAILURE_KEY.spec_bytes()) {
                        Some((failure, unparsable_at)) => match number_line(
                            text,
                            unparsable_at,
                            UNPARSABLE_KEY.spec_bytes(),
                        ) {
                            Some((unparsable, stop_at)) => if stop_at == text.len() && start <= end {
                                Some(Window { start, end, enabled, success, failure, unparsable })
                            } else {
                                None
                            },
                            None => None,
                        },
                        None => None,
                    },
                    None => None,
                },
                None => None,
            },
            None => None,
        },
        None => None,
    }
}

/// The line end found by [`line_end`] is the first one: where a value without
/// a line end is followed by one, the line ends right after the value.
pub proof fn lemma_line_end_after_value(text: Seq<u8>, from: int, len: int)
    requires
        0 <= from,
        0 <= len,
        from + len < text.len(),
        forall|i: int| from <= i < from + len ==> #[trigger] text[i] != LINE_END,
        text[from + len] == LINE_END,
    ensures
        line_end(text, from) == from + len,
    decreases len,
{
    if len > 0 {
        lemma_line_end_after_value(text, from + 1, len - 1);
    }
}

/// A line that was written with [`field_line`] is found again where it was
/// put, as long as its value holds no line end.
pub proof fn lemma_keyed_line_found(prefix: Seq<u8>, key: Seq<u8>, value: Seq<u8>, rest: Seq<u8>)
    requires
        forall|i: int| 0 <= i < value.len() ==> #[trigger] value[i] != LINE_END,
    ensures
        ({
            let text = prefix + field_line(key, value) + rest;
            let from = (prefix.len() + key.len()) as int;
            &&& keyed_line(text, prefix.len() as int, key) == Some((from, from + value.len()))
            &&& text.subrange(from, from + value.len()) == value
        }),
{
    let text = prefix + field_line(key, value) + rest;
    let pos = prefix.len() as int;
    let from = pos + key.len();
    assert(text.subrange(pos, from) =~= key);
    assert(text.subrange(from, from + value.len()) =~= value);
    assert forall|i: int| from <= i < from + value.len() implies #[trigger] text[i] != LINE_END by {
        assert(text[i] == value[i - from]);
    }
    lemma_line_end_after_value(text, from, value.len() as int);
}

/// A number line is read back as the number that was written on it.
pub proof fn lemma_number_line_found(prefix: Seq<u8>, key: Seq<u8>, n: u128, rest: Seq<u8>)
    ensures
        ({
            let line = field_line(key, decimal_bytes(n as nat));
            number_line(prefix + line + rest, prefix.len() as int, key) == Some(
                (n, (prefix.len() + line.len()) as int),
            )
        }),
{
    let value = decimal_bytes(n as nat);
    lemma_decimal_bytes_read_back(n as nat);
    assert forall|i: int| 0 <= i < value.len() implies #[trigger] value[i] != LINE_END by {
        assert(is_decimal_digit(value[i]));
    }
    lemma_keyed_line_found(prefix, key, value, rest);
}

/// The two ways of writing a boost state hold no line end, and each stands
/// for the state it was written for.
pub proof fn lemma_flag_bytes_read_back(enabled: bool)
    ensures
        flag_value(flag_bytes(enabled)) == Some(enabled),
        forall|i: int| 0 <= i < flag_bytes(enabled).len() ==> #[trigger] flag_bytes(enabled)[i] != LINE_END,
{
    reveal_strlit("true");
    reveal_strlit("false");
    is_ascii_spec_bytes(ON_TEXT);
    is_ascii_spec_bytes(OFF_TEXT);
    assert(ON_TEXT.spec_bytes().len() == 4);
    assert(OFF_TEXT.spec_bytes().len() == 5);
}

/// A flag line is read back as the boost state that was written on it.
pub proof fn lemma_flag_line_found(prefix: Seq<u8>, key: Seq<u8>, enabled: bool, rest: Seq<u8>)
    ensures
        ({
            let line = field_line(key, flag_bytes(enabled));
            flag_line(prefix + line + rest, prefix.len() as int, key) == Some(
                (enabled, (prefix.len() + line.len()) as int),
            )
        }),
{
    lemma_flag_bytes_read_back(enabled);
    lemma_keyed_line_found(prefix, key, flag_bytes(enabled), rest);
}

/// The file of a closed window reads back as that window: its bounds, its
/// boost state and its three counters.
pub proof fn lemma_file_content_reads_back(w: Window)
    requires
        w.start <= w.end,
    ensures
        parsed_content(file_content(w)) == Some(w),
{
    let l1 = field_line(START_KEY.spec_bytes(), decimal_bytes(w.start as nat));
    let l2 = field_line(END_KEY.spec_bytes(), decimal_bytes(w.end as nat));
    let l3 = field_line(ENABLED_KEY.spec_bytes(), flag_bytes(w.enabled));
    let l4 = field_line(SUCCESS_KEY.spec_bytes(), decimal_bytes(w.success as nat));
    let l5 = field_line(FAILURE_KEY.spec_bytes(), decimal_bytes(w.failure as nat));
    let l6 = field_line(UNPARSABLE_KEY.spec_bytes(), decimal_bytes(w.unparsable as nat));
    let text = file_content(w);
    let none = Seq::<u8>::empty();

    lemma_number_line_found(none, START_KEY.spec_bytes(), w.start, l2 + l3 + l4 + l5 + l6);
    assert(text =~= none + l1 + (l2 + l3 + l4 + l5 + l6));

    lemma_number_line_found(l1, END_KEY.spec_bytes(), w.end, l3 + l4 + l5 + l6);
    assert(text =~= l1 + l2 + (l3 + l4 + l5 + l6));

    lemma_flag_line_found(l1 + l2, ENABLED_KEY.spec_bytes(), w.enabled, l4 + l5 + l6);
    assert(text =~= (l1 + l2) + l3 + (l4 + l5 + l6));

    lemma_number_line_found(l1 + l2 + l3, SUCCESS_KEY.spec_bytes(), w.success, l5 + l6);
    assert(text =~= (l1 + l2 + l3) + l4 + (l5 + l6));

    lemma_number_line_found(l1 + l2 + l3 + l4, FAILURE_KEY.spec_bytes(), w.failure, l6);
    assert(text =~= (l1 + l2 + l3 + l4) + l5 + l6);

    lemma_number_line_found(l1 + l2 + l3 + l4 + l5, UNPARSABLE_KEY.spec_bytes(), w.unparsable, none);
    assert(text =~= (l1 + l2 + l3 + l4 + l5) + l6 + none);
}

/// Where a line ends there is a line end, unless the text ends first.
pub proof fn lemma_line_end_bounds(text: Seq<u8>, pos: int)
    requires
        0 <= pos <= text.len(),
    ensures
        pos <= line_end(text, pos) <= text.len(),
        line_end(text, pos) < text.len() ==> text[line_end(text, pos)] == LINE_END,
    decreases text.len() - pos,
{
    if pos < text.len() && text[pos] != LINE_END {
        lemma_line_end_bounds(text, pos + 1);
    }
}

/// A number line that is read stands in the text as it would be written.
pub proof fn lemma_number_line_shape(text: Seq<u8>, pos: int, key: Seq<u8>)
    requires
        number_line(text, pos, key) is Some,
    ensures
        ({
            let (n, next) = number_line(text, pos, key)->0;
            &&& 0 <= pos < next <= text.len()
            &&& text.subrange(pos, next) == field_line(key, decimal_bytes(n as nat))
        }),
{
    let (from, to) = keyed_line(text, pos, key)->0;
    let value = text.subrange(from, to);
    lemma_line_end_bounds(text, from);
    lemma_decimal_text_unique(value);
    assert(text.subrange(pos, to + 1) =~= text.subrange(pos, from) + value + seq![LINE_END]);
}

/// A flag line that is read stands in the text as it would be written.
pub proof fn lemma_flag_line_shape(text: Seq<u8>, pos: int, key: Seq<u8>)
    requires
        flag_line(text, pos, key) is Some,
    ensures
        ({
            let (enabled, next) = flag_line(text, pos, key)->0;
            &&& 0 <= pos < next <= text.len()
            &&& text.subrange(pos, next) == field_line(key, flag_bytes(enabled))
        }),
{
    let (from, to) = keyed_line(text, pos, key)->0;
    let value = text.subrange(from, to);
    lemma_line_end_bounds(text, from);
    assert(text.subrange(pos, to + 1) =~= text.subrange(pos, from) + value + seq![LINE_END]);
}

/// Only what is written is read: a text that holds a window is the content
/// of the file of that window, byte for byte, and the window ends no earlier
/// than it starts.
pub proof fn lemma_parsed_content_is_file_content(text: Seq<u8>)
    requires
        parsed_content(text) is Some,
    ensures
        text == file_content(parsed_content(text)->0),
        parsed_content(text)->0.start <= parsed_content(text)->0.end,
{
    let (start, end_at) = number_line(text, 0, START_KEY.spec_bytes())->0;
    lemma_number_line_shape(text, 0, START_KEY.spec_bytes());
    let (end, enabled_at) = number_line(text, end_at, END_KEY.spec_bytes())->0;
    lemma_number_line_shape(text, end_at, END_KEY.spec_bytes());
    let (enabled, success_at) = flag_line(text, enabled_at, ENABLED_KEY.spec_bytes())->0;
    lemma_flag_line_shape(text, enabled_at, ENABLED_KEY.spec_bytes());
    let (success, failure_at) = number_line(text, success_at, SUCCESS_KEY.spec_bytes())->0;
    lemma_number_line_shape(text, success_at, SUCCESS_KEY.spec_bytes());
    let (failure, unparsable_at) = number_line(text, failure_at, FAILURE_KEY.spec_bytes())->0;
    lemma_number_line_shape(text, failure_at, FAILURE_KEY.spec_bytes());
    let (unparsable, stop_at) = number_line(text, unparsable_at, UNPARSABLE_KEY.spec_bytes())->0;
    lemma_number_line_shape(text, unparsable_at, UNPARSABLE_KEY.spec_bytes());
    assert(text =~= text.subrange(0, end_at) + text.subrange(end_at, enabled_at) + text.subrange(enabled_at, success_at)
        + text.subrange(success_at, failure_at) + text.subrange(failure_at, unparsable_at) + text.subrange(unparsable_at, stop_at));
}

/// Appends the line that holds `n` under `key` to `out`.
fn push_number_line(out: &mut Vec<u8>, key: &str, n: u128)
    ensures
        final(out)@ == old(out)@ + field_line(key.spec_bytes(), decimal_bytes(n as nat)),
{
    push_bytes(out, key.as_bytes());
    push_decimal(out, n);
    out.push(LINE_END);
    assert(final(out)@ =~= old(out)@ + field_line(key.spec_bytes(), decimal_bytes(n as nat)));
}

/// Appends the line that holds the boost state under `key` to `out`.
fn push_flag_line(out: &mut Vec<u8>, key: &str, enabled: bool)
    ensures
        final(out)@ == old(out)@ + field_line(key.spec_bytes(), flag_bytes(enabled)),
{
    push_bytes(out, key.as_bytes());
    if enabled {
        push_bytes(out, ON_TEXT.as_bytes());
    } else {
        push_bytes(out, OFF_TEXT.as_bytes());
    }
    out.push(LINE_END);
    assert(final(out)@ =~= old(out)@ + field_line(key.spec_bytes(), flag_bytes(enabled)));
}

/// The content of the file of a closed window: the lines `start`, `end`,
/// `enabled`, `success`, `failure` and `unparsable`, in this order.
pub fn recording_file_content(saved: &SavedRecording) -> (content: Vec<u8>)
    ensures
        content@ == file_content(saved@),
        parsed_content(content@) == Some(saved@),
        saved@.start <= saved@.end,
{
    let mut content: Vec<u8> = Vec::new();
    push_number_line(&mut content, START_KEY, saved.start_time());
    push_number_line(&mut content, END_KEY, saved.end_time());
    push_flag_line(&mut content, ENABLED_KEY, saved.enabled());
    push_number_line(&mut content, SUCCESS_KEY, saved.successful_allocations());
    push_number_line(&mut content, FAILURE_KEY, saved.failed_allocations());
    push_number_line(&mut content, UNPARSABLE_KEY, saved.unparsed_allocations());
    proof {
        assert(content@ =~= file_content(saved@));
        lemma_file_content_reads_back(saved@);
    }
    content
}

/// Where the line that holds position `pos` ends.
fn find_line_end(text: &[u8], pos: usize) -> (end: usize)
    requires
        pos <= text.len(),
    ensures
        end == line_end(text@, pos as int),
        pos <= end <= text.len(),
{
    let mut i: usize = pos;
    while i < text.len() && text[i] != LINE_END
        invariant
            pos <= i <= text.len(),
            line_end(text@, pos as int) == line_end(text@, i as int),
        decreases text.len() - i,
    {
        i += 1;
    }
    i
}

/// The value of the line that begins at `pos` with `key`: where it begins and
/// where it ends.
fn read_keyed_line(text: &[u8], pos: usize, key: &str) -> (line: Option<(usize, usize)>)
    requires
        pos <= text.len(),
    ensures
        match line {
            Some((from, to)) => keyed_line(text@, pos as int, key.spec_bytes()) == Some(
                (from as int, to as int),
            ) && from <= to < text.len(),
            None => keyed_line(text@, pos as int, key.spec_bytes()) is None,
        },
{
    let key_bytes = key.as_bytes();
    if !holds_at(text, pos, key_bytes) {
        return None;
    }
    let from = pos + key_bytes.len();
    let to = find_line_end(text, from);
    if to < text.len() {
        Some((from, to))
    } else {
        None
    }
}

/// The number on the line that begins at `pos` with `key`, and where the next
/// line begins.
fn read_number_line(text: &[u8], pos: usize, key: &str) -> (line: Option<(u128, usize)>)
    requires
        pos <= text.len(),
    ensures
        match line {
            Some((value, next)) => number_line(text@, pos as int, key.spec_bytes()) == Some(
                (value, next as int),
            ) && next <= text.len(),
            None => number_line(text@, pos as int, key.spec_bytes()) is None,
        },
{
    match read_keyed_line(text, pos, key) {
        Some((from, to)) => match parse_decimal(slice_subrange(text, from, to)) {
            Some(value) => Some((value, to + 1)),
            None => None,
        },
        None => None,
    }
}

/// The boost state on the line that begins at `pos` with `key`, and where the
/// next line begins.
fn read_flag_line(text: &[u8], pos: usize, key: &str) -> (line: Option<(bool, usize)>)
    requires
        pos <= text.len(),
    ensures
        match line {
            Some((value, next)) => flag_line(text@, pos as int, key.spec_bytes()) == Some(
                (value, next as int),
            ) && next <= text.len(),
            None => flag_line(text@, pos as int, key.spec_bytes()) is None,
        },
{
    match read_keyed_line(text, pos, key) {
        Some((from, to)) => {
            let value = slice_subrange(text, from, to);
            let on = ON_TEXT.as_bytes();
            let off = OFF_TEXT.as_bytes();
            assert(value@.subrange(0, value@.len() as int) =~= value@);
            if value.len() == on.len() && holds_at(value, 0, on) {
                Some((true, to + 1))
            } else if value.len() == off.len() && holds_at(value, 0, off) {
                Some((false, to + 1))
            } else {
                None
            }
        },
        None => None,
    }
}

/// Reads the content of the file of a closed window.
///
/// Only what [`recording_file_content`] writes is read: the six lines in
/// their order, each ended by a line end, with nothing after them, each number
/// as decimal text that fits in 128 bits, and an end that does not lie before
/// the start.
pub fn read_recording_file(content: &[u8]) -> (saved: Option<SavedRecording>)
    ensures
        match saved {
            Some(recording) => parsed_content(content@) == Some(recording@),
            None => parsed_content(content@) is None,
        },
        saved matches Some(recording) ==> content@ == file_content(recording@)
            && recording@.start <= recording@.end,
{
    proof {
        if parsed_content(content@) is Some {
            lemma_parsed_content_is_file_content(content@);
        }
    }
    let (start, end_at) = match read_number_line(content, 0, START_KEY) {
        Some(line) => line,
        None => {
            return None;
        },
    };
    let (end, enabled_at) = match read_number_line(content, end_at, END_KEY) {
        Some(line) => line,
        None => {
            return None;
        },
    };
    let (enabled, success_at) = match read_flag_line(content, enabled_at, ENABLED_KEY) {
        Some(line) => line,
        None => {
            return None;
        },
    };
    let (success, failure_at) = match read_number_line(content, success_at, SUCCESS_KEY) {
        Some(line) => line,
        None => {
            return None;
        },
    };
    let (failure, unparsable_at) = match read_number_line(content, failure_at, FAILURE_KEY) {
        Some(line) => line,
        None => {
            return None;
        },
    };
    let (unparsable, stop_at) = match read_number_line(content, unparsable_at, UNPARSABLE_KEY) {
        Some(line) => line,
        None => {
            return None;
        },
    };
    if stop_at != content.len() {
        return None;
    }
    SavedRecording::from_window(Window { start, end, enabled, success, failure, unparsable })
}

/// What stands between the directory and the name of a file in its path.
pub const PATH_SEPARATOR: &'static str = "/";

/// The name of the file of a window that ended at `end`: the decimal text of
/// that time.
pub open spec fn file_name(end: u128) -> Seq<char> {
    decimal_text(end as nat)
}

/// The path of the file of a window that ended at `end`, in the directory `dir`.
pub open spec fn file_path(dir: Seq<char>, end: u128) -> Seq<char> {
    dir + PATH_SEPARATOR@ + file_name(end)
}

/// The path of the file of a closed window in the directory `dst_dir_path`:
/// the directory, a separator, and the end of the window as the name.
pub fn recording_file_path(dst_dir_path: &str, saved: &SavedRecording) -> (path: String)
    ensures
        path@ == file_path(dst_dir_path@, saved@.end),
{
    let mut path = String::from_str(dst_dir_path);
    path.append(PATH_SEPARATOR);
    append_decimal(&mut path, saved.end_time());
    path
}

} // verus!
