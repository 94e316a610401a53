//! Command lines, labels and paths: what a step hands to the host that runs
//! a tool or writes a file.

use crate::assoc::lookup;
use crate::text::{
    alphanumeric, append, append_str, chars_of, is_alphanumeric, signed_decimal,
    signed_decimal_text, string_of,
};
use vstd::prelude::*;

verus! {

// ---------------------------------------------------------------------------
// Shell words
// ---------------------------------------------------------------------------

/// The words that `shell_words::split` cuts a command line into; nothing
/// for a line that it refuses.
pub uninterp spec fn shell_words_of(line: Seq<char>) -> Option<Seq<Seq<char>>>;

/// `shell_words::split`: the words of a command line by the rules of a
/// POSIX shell, which depend on the line alone; nothing where it fails, which
/// it does in one way only.
#[verifier::external_body]
pub(crate) fn shell_split(line: &str) -> (r: Option<Vec<String>>)
    ensures
        r.deep_view() == shell_words_of(line@),
{
    shell_words::split(line).ok()
}

/// What `shell_words` says of the one way in which it fails.
pub open spec fn shell_error_text() -> Seq<char> {
    "missing closing quote"@
}

/// The words of a command line, or the message of the error.
pub fn split_command(line: &str) -> (r: Result<Vec<String>, String>)
    ensures
        match r {
            Ok(words) => shell_words_of(line@) == Some(words.deep_view()),
            Err(e) => shell_words_of(line@) is None && e@ == shell_error_text(),
        },
{
    match shell_split(line) {
        Some(words) => Ok(words),
        None => Err(String::from_str("missing closing quote")),
    }
}

// ---------------------------------------------------------------------------
// Bytes as text
// ---------------------------------------------------------------------------

/// The text that `String::from_utf8_lossy` makes of bytes.
pub uninterp spec fn utf8_lossy(bytes: Seq<u8>) -> Seq<char>;

/// `String::from_utf8_lossy`: the bytes as text, with U+FFFD in place of
/// what is no UTF-8; it depends on the bytes alone.
#[verifier::external_body]
pub(crate) fn lossy_text(bytes: &Vec<u8>) -> (r: String)
    ensures
        r@ == utf8_lossy(bytes@),
{
    String::from_utf8_lossy(bytes).into_owned()
}

/// The number of bytes of a character in UTF-8.
pub open spec fn utf8_width(c: char) -> int {
    if c <= '\u{7f}' {
        1
    } else if c <= '\u{7ff}' {
        2
    } else if c <= '\u{ffff}' {
        3
    } else {
        4
    }
}

/// The number of bytes of a character in UTF-8.
pub fn char_width(c: char) -> (r: usize)
    ensures
        r == utf8_width(c),
{
    if c <= '\u{7f}' {
        1
    } else if c <= '\u{7ff}' {
        2
    } else if c <= '\u{ffff}' {
        3
    } else {
        4
    }
}

/// The number of characters at the start of `s`, from index `i` on, that
/// fit into `room` bytes.
pub open spec fn fitting(s: Seq<char>, i: int, room: int) -> int
    decreases s.len() - i,
{
    if 0 <= i < s.len() && utf8_width(s[i]) <= room {
        fitting(s, i + 1, room - utf8_width(s[i]))
    } else {
        i
    }
}

/// The most bytes of output that a message shows.
pub open spec fn output_limit() -> int {
    512
}

/// The mark behind output that was cut.
pub open spec fn cut_mark() -> Seq<char> {
    seq!['\u{e2}', '\u{20ac}', '\u{a6}']
}

/// The text, cut behind the last character that ends within the first 512
/// bytes and marked, where it is longer than 512 bytes.
pub open spec fn truncated(text: Seq<char>) -> Seq<char> {
    let kept = fitting(text, 0, output_limit());
    if 0 <= kept < text.len() {
        text.take(kept) + cut_mark()
    } else {
        text
    }
}

/// The text, cut and marked where it is longer than 512 bytes.
pub fn truncate_text(text: &Vec<char>) -> (r: Vec<char>)
    ensures
        r@ == truncated(text@),
{
    let mut i: usize = 0;
    let mut room: usize = 512;
    while i < text.len() && char_width(text[i]) <= room
        invariant
            i <= text.len(),
            room <= 512,
            fitting(text@, 0, output_limit()) == fitting(text@, i as int, room as int),
        decreases text.len() - i,
    {
        room -= char_width(text[i]);
        i += 1;
    }
    if i < text.len() {
        let mut out = crate::text::subrange(text, 0, i);
        out.push('\u{e2}');
        out.push('\u{20ac}');
        out.push('\u{a6}');
        assert(out@ =~= text@.take(i as int) + cut_mark());
        out
    } else {
        crate::text::copy_chars(text)
    }
}

/// The output of a tool as a message shows it.
pub fn truncate_output(bytes: &Vec<u8>) -> (r: String)
    ensures
        r@ == truncated(utf8_lossy(bytes@)),
{
    let text = lossy_text(bytes);
    string_of(&truncate_text(&chars_of(text.as_str())))
}

/// An exit code as `{:?}` shows it: `Some(<code>)` or `None`.
pub open spec fn code_text(code: Option<i32>) -> Seq<char> {
    match code {
        Some(c) => "Some("@ + signed_decimal(c as int) + ")"@,
        None => "None"@,
    }
}

/// An exit code as `{:?}` shows it.
pub fn code_chars(code: Option<i32>) -> (r: Vec<char>)
    ensures
        r@ == code_text(code),
{
    match code {
        Some(c) => {
            let mut out = chars_of("Some(");
            append(&mut out, &signed_decimal_text(c as i64));
            append_str(&mut out, ")");
            out
        },
        None => chars_of("None"),
    }
}

// ---------------------------------------------------------------------------
// Labels and paths
// ---------------------------------------------------------------------------

/// A character that may stand in a file name: an ASCII letter, an ASCII
/// digit, `-`, `_` or `.`.
pub open spec fn is_label_char(c: char) -> bool {
    is_alphanumeric(c) || c == '-' || c == '_' || c == '.'
}

/// The label with `_` in place of every character that may not stand in a
/// file name.
pub open spec fn sanitized(label: Seq<char>) -> Seq<char> {
    Seq::new(
        label.len(),
        |i: int|
            if is_label_char(label[i]) {
                label[i]
            } else {
                '_'
            },
    )
}

/// The label with `_` in place of what may not stand in a file name.
pub fn sanitize_chars(label: &Vec<char>) -> (r: Vec<char>)
    ensures
        r@ == sanitized(label@),
{
    let mut out: Vec<char> = Vec::new();
    let mut i: usize = 0;
    while i < label.len()
        invariant
            i <= label.len(),
            out@ == sanitized(label@).take(i as int),
        decreases label.len() - i,
    {
        let c = label[i];
        if alphanumeric(c) || c == '-' || c == '_' || c == '.' {
            out.push(c);
        } else {
            out.push('_');
        }
        assert(out@ =~= sanitized(label@).take(i + 1));
        i += 1;
    }
    assert(sanitized(label@).take(label.len() as int) =~= sanitized(label@));
    out
}

/// The label with `_` in place of what may not stand in a file name.
pub fn sanitize_label(label: &str) -> (r: String)
    ensures
        r@ == sanitized(label@),
{
    string_of(&sanitize_chars(&chars_of(label)))
}

/// Whether a path begins at the root.
pub open spec fn is_absolute(path: Seq<char>) -> bool {
    path.len() > 0 && path[0] == '/'
}

/// The path `name` below the directory `base`: `name` itself where it
/// begins at the root or `base` is empty, else the two with one `/` between
/// them.
pub open spec fn joined_path(base: Seq<char>, name: Seq<char>) -> Seq<char> {
    if is_absolute(name) || base.len() == 0 {
        name
    } else if base.last() == '/' {
        base + name
    } else {
        base + seq!['/'] + name
    }
}

/// The path `name` below the directory `base`.
pub fn join_path(base: &Vec<char>, name: &Vec<char>) -> (r: Vec<char>)
    ensures
        r@ == joined_path(base@, name@),
{
    if (name.len() > 0 && name[0] == '/') || base.len() == 0 {
        crate::text::copy_chars(name)
    } else {
        let mut out = crate::text::copy_chars(base);
        if base[base.len() - 1] != '/' {
            out.push('/');
        }
        append(&mut out, name);
        out
    }
}

/// The file that the artifact `label` is written to, below `directory`.
pub open spec fn artifact_path(directory: Seq<char>, label: Seq<char>) -> Seq<char> {
    joined_path(directory, sanitized(label) + ".json"@)
}

/// The file that an artifact is written to.
pub fn artifact_file(directory: &str, label: &str) -> (r: String)
    ensures
        r@ == artifact_path(directory@, label@),
{
    let mut name = sanitize_chars(&chars_of(label));
    append_str(&mut name, ".json");
    string_of(&join_path(&chars_of(directory), &name))
}

/// The file that a report is written to: the path that the report names,
/// below `directory` unless it begins at the root; without one, the file
/// `reports/<name>.<extension>` below `directory`.
pub open spec fn report_path(
    directory: Seq<char>,
    name: Seq<char>,
    output: Option<Seq<char>>,
    extension: Seq<char>,
) -> Seq<char> {
    match output {
        Some(custom) => joined_path(directory, custom),
        None => joined_path(
            joined_path(directory, "reports"@),
            sanitized(name) + seq!['.'] + extension,
        ),
    }
}

/// A report that names no file is written to a file whose name ends in a
/// point and the extension of its format. A report that names its file is
/// written to that file, whatever its name ends in.
pub proof fn lemma_default_report_path(directory: Seq<char>, name: Seq<char>, extension: Seq<char>)
    ensures
        ({
            let path = report_path(directory, name, None, extension);
            let tail = seq!['.'] + extension;
            path.len() >= tail.len() && path.skip(path.len() - tail.len()) == tail
        }),
{
    let path = report_path(directory, name, None, extension);
    let tail = seq!['.'] + extension;
    let file = sanitized(name) + seq!['.'] + extension;
    assert(file.len() >= tail.len());
    assert(file.skip(file.len() - tail.len()) =~= tail);
    assert(path.len() >= file.len());
    assert(path.skip(path.len() - file.len()) =~= file);
    assert(path.skip(path.len() - tail.len()) =~= file.skip(file.len() - tail.len()));
}

/// The file that a report is written to.
pub fn resolve_report_path(directory: &str, name: &str, output: &Option<String>, extension: &str)
    -> (r: String)
    ensures
        r@ == report_path(directory@, name@, output.deep_view(), extension@),
{
    let base = chars_of(directory);
    match output {
        Some(custom) => string_of(&join_path(&base, &chars_of(custom.as_str()))),
        None => {
            let reports = join_path(&base, &chars_of("reports"));
            let mut file = sanitize_chars(&chars_of(name));
            file.push('.');
            append_str(&mut file, extension);
            string_of(&join_path(&reports, &file))
        },
    }
}

/// A value of a table, or nothing.
pub fn get(table: &Vec<(String, String)>, key: &str) -> (r: Option<String>)
    ensures
        r.deep_view() == lookup(table.deep_view(), key@),
{
    match crate::assoc::position(table, &chars_of(key)) {
        Some(i) => {
            assert(table.deep_view()[i as int].1 == table[i as int].1@);
            Some(table[i].1.clone())
        },
        None => None,
    }
}

} // verus!
