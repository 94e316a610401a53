//! The statements that hold no other statements: imports, variables, asset
//! groups, scans, scripts, reports and secrets. A statement begins on a line
//! that is handed over trimmed; a block statement goes on reading `lines`
//! from index `pos` and says where it stopped.

use crate::assoc::{ascending, has_key, inserted, lemma_inserted_ascending};
use crate::scenario::{
    step_well_formed, AssetGroupStep, ReportFormat, ReportStep, ScanStep, ScriptStep,
    SecretOrigin, SecretSource, SecretStep, StepView, VariableDecl,
};
use crate::syntax::{
    invalid_syntax, lemma_literal_of_ordered, literal_of, parse_literal, parse_quoted,
    quoted_value, ParseError, ParseFailure,
};
use crate::text::{
    find, find_char, find_char_from, find_non_whitespace, find_whitespace, has_prefix, index_of,
    index_of_char, index_of_char_from, next_whitespace, only_word_chars, all_word_chars, same_str,
    skip_whitespace, split_whitespace, starts_with, string_of, subrange, trim, trim_end_matches,
    trim_start, trimmed, trimmed_start, views, without_trailing, words,
};
use vstd::prelude::*;

verus! {

// ---------------------------------------------------------------------------
// Lines
// ---------------------------------------------------------------------------

/// A line that holds nothing or a comment.
pub open spec fn is_skippable(line: Seq<char>) -> bool {
    let t = trimmed_start(line);
    t.len() == 0 || has_prefix(t, "//"@) || has_prefix(t, "#"@)
}

/// Whether a line holds nothing or a comment.
pub fn skippable(line: &Vec<char>) -> (r: bool)
    ensures
        r == is_skippable(line@),
{
    let t = trim_start(line);
    t.len() == 0 || starts_with(&t, "//") || starts_with(&t, "#")
}

/// The index of the first line at or after `pos` that is not skippable, or
/// the number of lines.
pub open spec fn next_content(lines: Seq<Seq<char>>, pos: int) -> int
    decreases lines.len() - pos,
{
    if 0 <= pos < lines.len() && is_skippable(lines[pos]) {
        next_content(lines, pos + 1)
    } else {
        pos
    }
}

/// The next line with content is not before the line from which it is looked
/// for.
pub proof fn lemma_next_content(lines: Seq<Seq<char>>, pos: int)
    requires
        0 <= pos <= lines.len(),
    ensures
        pos <= next_content(lines, pos) <= lines.len(),
    decreases lines.len() - pos,
{
    if pos < lines.len() && is_skippable(lines[pos]) {
        lemma_next_content(lines, pos + 1);
    }
}

/// The index of the first line at or after `pos` that is not skippable.
pub fn next_non_empty(lines: &Vec<Vec<char>>, pos: usize) -> (r: usize)
    requires
        pos <= lines.len(),
    ensures
        r == next_content(views(lines@), pos as int),
        pos <= r <= lines.len(),
{
    let mut i: usize = pos;
    while i < lines.len() && skippable(&lines[i])
        invariant
            pos <= i <= lines.len(),
            next_content(views(lines@), pos as int) == next_content(views(lines@), i as int),
        decreases lines.len() - i,
    {
        assert(views(lines@)[i as int] == lines[i as int]@);
        i += 1;
    }
    proof {
        if i < lines.len() {
            assert(views(lines@)[i as int] == lines[i as int]@);
        }
    }
    i
}

// ---------------------------------------------------------------------------
// Headers
// ---------------------------------------------------------------------------

/// What stands before the first `{` of a line, and what stands behind it,
/// both trimmed; no body where nothing stands behind it.
pub open spec fn header_and_body(line: Seq<char>) -> Result<
    (Seq<char>, Option<Seq<char>>),
    ParseFailure,
> {
    match index_of_char(line, '{') {
        Some(at) => if 0 <= at < line.len() {
            let body = trimmed(line.skip(at + 1));
            Ok(
                (
                    trimmed(line.take(at)),
                    if body.len() == 0 {
                        None
                    } else {
                        Some(body)
                    },
                ),
            )
        } else {
            Err(ParseFailure::InvalidSyntax(line))
        },
        None => Err(ParseFailure::InvalidSyntax(line)),
    }
}

/// What stands before the first `{` of a line, and what stands behind it.
pub fn split_header_body(line: &Vec<char>) -> (r: Result<(Vec<char>, Option<Vec<char>>), ParseError>)
    ensures
        match r {
            Ok(pair) => header_and_body(line@) == Ok::<
                (Seq<char>, Option<Seq<char>>),
                ParseFailure,
            >(
                (
                    pair.0@,
                    match pair.1 {
                        Some(body) => Some(body@),
                        None => None,
                    },
                ),
            ),
            Err(e) => header_and_body(line@) == Err::<
                (Seq<char>, Option<Seq<char>>),
                ParseFailure,
            >(e.deep_view()),
        },
{
    match find_char(line, '{') {
        Some(at) => {
            let header = trim(&subrange(line, 0, at));
            let body = trim(&subrange(line, at + 1, line.len()));
            if body.len() == 0 {
                Ok((header, None))
            } else {
                Ok((header, Some(body)))
            }
        },
        None => Err(invalid_syntax(line)),
    }
}

/// The words of a header line, read without the braces at its end.
pub open spec fn header_words(line: Seq<char>) -> Seq<Seq<char>> {
    words(trimmed(without_trailing(line, '{')))
}

/// The words of a header line, read without the braces at its end.
pub fn header_tokens(line: &Vec<char>) -> (r: Vec<Vec<char>>)
    ensures
        views(r@) == header_words(line@),
{
    split_whitespace(&trim(&trim_end_matches(line, '{')))
}

/// The text behind `->` on a closing line, trimmed; nothing where there is
/// no `->` or nothing stands behind it.
pub open spec fn output_name(closing: Seq<char>) -> Option<Seq<char>> {
    match index_of(closing, "->"@) {
        Some(at) => if 0 <= at && at + 2 <= closing.len() {
            let name = trimmed(closing.skip(at + 2));
            if name.len() > 0 {
                Some(name)
            } else {
                None
            }
        } else {
            None
        },
        None => None,
    }
}

/// The text behind `->` on a closing line.
pub fn parse_output_name(closing: &Vec<char>) -> (r: Option<String>)
    ensures
        r.deep_view() == output_name(closing@),
{
    proof {
        reveal_strlit("->");
    }
    let n = closing.len();
    match find(closing, "->") {
        Some(at) => {
            proof {
                crate::text::lemma_index_of_from(closing@, "->"@, 0);
            }
            assert(at + 2 <= n);
            let name = trim(&subrange(closing, at + 2, closing.len()));
            if name.len() > 0 {
                Some(string_of(&name))
            } else {
                None
            }
        },
        None => None,
    }
}

// ---------------------------------------------------------------------------
// import, let
// ---------------------------------------------------------------------------

/// The path of `import <path>`, which may end in semicolons and may stand
/// in quotes.
pub open spec fn import_of(line: Seq<char>) -> Result<Seq<char>, ParseFailure> {
    let cleaned = trimmed(without_trailing(line, ';'));
    if !has_prefix(cleaned, "import"@) {
        Err(ParseFailure::InvalidSyntax(line))
    } else {
        let rest = trimmed(cleaned.skip(6));
        if rest.len() == 0 {
            Err(ParseFailure::MissingValue("import path"@))
        } else {
            quoted_value(rest)
        }
    }
}

/// The path of an import.
pub fn parse_import(line: &Vec<char>) -> (r: Result<String, ParseError>)
    ensures
        match r {
            Ok(path) => import_of(line@) == Ok::<Seq<char>, ParseFailure>(path@),
            Err(e) => import_of(line@) == Err::<Seq<char>, ParseFailure>(e.deep_view()),
        },
{
    let cleaned = trim(&trim_end_matches(line, ';'));
    proof {
        reveal_strlit("import");
    }
    if !starts_with(&cleaned, "import") {
        return Err(invalid_syntax(line));
    }
    let rest = trim(&subrange(&cleaned, 6, cleaned.len()));
    if rest.len() == 0 {
        return Err(ParseError::MissingValue("import path"));
    }
    parse_quoted(&rest)
}

/// The declaration `let <name> = <literal>`, which may end in semicolons.
/// The name is a run of ASCII letters, digits and underscores.
pub open spec fn variable_of(line: Seq<char>) -> Result<StepView, ParseFailure> {
    let cleaned = trimmed(without_trailing(line, ';'));
    if !has_prefix(cleaned, "let"@) {
        Err(ParseFailure::InvalidSyntax(line))
    } else {
        let rest = trimmed(cleaned.skip(3));
        match index_of_char(rest, '=') {
            None => Err(ParseFailure::InvalidSyntax(line)),
            Some(at) => if 0 <= at < rest.len() {
                let name = trimmed(rest.take(at));
                if name.len() == 0 || !all_word_chars(name) {
                    Err(ParseFailure::InvalidSyntax(name))
                } else {
                    match literal_of(rest.skip(at + 1)) {
                        Ok(value) => Ok(StepView::Variable { name, value }),
                        Err(e) => Err(e),
                    }
                }
            } else {
                Err(ParseFailure::InvalidSyntax(line))
            },
        }
    }
}

/// The value of a declaration that was read from text is ordered.
pub proof fn lemma_variable_of_ordered(line: Seq<char>)
    ensures
        match variable_of(line) {
            Ok(step) => step_well_formed(step),
            Err(_) => true,
        },
{
    let rest = trimmed(trimmed(without_trailing(line, ';')).skip(3));
    if let Some(at) = index_of_char(rest, '=') {
        if 0 <= at < rest.len() {
            lemma_literal_of_ordered(rest.skip(at + 1));
        }
    }
}

/// Parses the declaration of a variable.
pub fn parse_variable(line: &Vec<char>) -> (r: Result<VariableDecl, ParseError>)
    ensures
        match r {
            Ok(v) => variable_of(line@) == Ok::<StepView, ParseFailure>(v.deep_view()),
            Err(e) => variable_of(line@) == Err::<StepView, ParseFailure>(e.deep_view()),
        },
{
    let cleaned = trim(&trim_end_matches(line, ';'));
    proof {
        reveal_strlit("let");
    }
    if !starts_with(&cleaned, "let") {
        return Err(invalid_syntax(line));
    }
    let rest = trim(&subrange(&cleaned, 3, cleaned.len()));
    match find_char(&rest, '=') {
        None => Err(invalid_syntax(line)),
        Some(at) => {
            let name = trim(&subrange(&rest, 0, at));
            if name.len() == 0 || !only_word_chars(&name) {
                return Err(invalid_syntax(&name));
            }
            let value_part = subrange(&rest, at + 1, rest.len());
            match parse_literal(&value_part) {
                Ok(value) => Ok(VariableDecl { name: string_of(&name), value }),
                Err(e) => Err(e),
            }
        },
    }
}

// ---------------------------------------------------------------------------
// Properties and mappings
// ---------------------------------------------------------------------------

/// The pieces of `s` between the occurrences of `c`, from index `i` on.
pub open spec fn pieces_from(s: Seq<char>, c: char, i: int) -> Seq<Seq<char>>
    decreases s.len() - i,
{
    if i < 0 || i > s.len() {
        Seq::empty()
    } else {
        match index_of_char_from(s, c, i) {
            Some(k) => if i <= k < s.len() {
                seq![s.subrange(i, k)] + pieces_from(s, c, k + 1)
            } else {
                Seq::empty()
            },
            None => seq![s.subrange(i, s.len() as int)],
        }
    }
}

/// The pieces of `s` between the occurrences of `c`; one more than there
/// are occurrences.
pub open spec fn pieces(s: Seq<char>, c: char) -> Seq<Seq<char>> {
    pieces_from(s, c, 0)
}

/// The pieces of a text between the occurrences of a character.
pub fn split_char(v: &Vec<char>, c: char) -> (r: Vec<Vec<char>>)
    ensures
        views(r@) == pieces(v@, c),
{
    let mut out: Vec<Vec<char>> = Vec::new();
    let mut i: usize = 0;
    assert(views(out@) =~= Seq::empty());
    loop
        invariant_except_break
            pieces(v@, c) == views(out@) + pieces_from(v@, c, i as int),
        invariant
            i <= v.len(),
        ensures
            views(out@) == pieces(v@, c),
        decreases v.len() - i,
    {
        let ghost before = views(out@);
        match find_char_from(v, c, i) {
            Some(k) => {
                let part = subrange(v, i, k);
                out.push(part);
                assert(views(out@) =~= before.push(v@.subrange(i as int, k as int)));
                assert(before + (seq![v@.subrange(i as int, k as int)] + pieces_from(v@, c, k + 1))
                    =~= before.push(v@.subrange(i as int, k as int)) + pieces_from(v@, c, k + 1));
                i = k + 1;
            },
            None => {
                let part = subrange(v, i, v.len());
                out.push(part);
                assert(views(out@) =~= before + seq![v@.subrange(i as int, v.len() as int)]);
                break ;
            },
        }
    }
    out
}

/// An entry `key value`: the key ends at the first whitespace, the value,
/// which may stand in quotes, is what follows it.
pub open spec fn property_of(entry: Seq<char>) -> Result<(Seq<char>, Seq<char>), ParseFailure> {
    let at = next_whitespace(entry, 0);
    if 0 <= at < entry.len() {
        match quoted_value(entry.skip(at + 1)) {
            Ok(value) => Ok((entry.take(at), value)),
            Err(e) => Err(e),
        }
    } else {
        Err(ParseFailure::MissingValue("asset_group value"@))
    }
}

/// An entry `alias = value`: the alias is what stands before the first `=`,
/// trimmed, the value, which may stand in quotes, is what follows it.
pub open spec fn mapping_of(entry: Seq<char>) -> Result<(Seq<char>, Seq<char>), ParseFailure> {
    match index_of_char(entry, '=') {
        Some(at) => if 0 <= at < entry.len() {
            match quoted_value(entry.skip(at + 1)) {
                Ok(value) => Ok((trimmed(entry.take(at)), value)),
                Err(e) => Err(e),
            }
        } else {
            Err(ParseFailure::InvalidSyntax(entry))
        },
        None => Err(ParseFailure::InvalidSyntax(entry)),
    }
}

/// An entry of a block: a mapping `alias = value` or a property `key value`.
pub open spec fn entry_of(entry: Seq<char>, mapping: bool) -> Result<
    (Seq<char>, Seq<char>),
    ParseFailure,
> {
    if mapping {
        mapping_of(entry)
    } else {
        property_of(entry)
    }
}

/// Parses an entry of a block.
pub fn parse_entry(entry: &Vec<char>, mapping: bool) -> (r: Result<(String, String), ParseError>)
    ensures
        match r {
            Ok(pair) => entry_of(entry@, mapping) == Ok::<(Seq<char>, Seq<char>), ParseFailure>(
                (pair.0@, pair.1@),
            ),
            Err(e) => entry_of(entry@, mapping) == Err::<(Seq<char>, Seq<char>), ParseFailure>(
                e.deep_view(),
            ),
        },
{
    if mapping {
        match find_char(entry, '=') {
            Some(at) => {
                let right = subrange(entry, at + 1, entry.len());
                match parse_quoted(&right) {
                    Ok(value) => Ok((string_of(&trim(&subrange(entry, 0, at))), value)),
                    Err(e) => Err(e),
                }
            },
            None => Err(invalid_syntax(entry)),
        }
    } else {
        let at = find_whitespace(entry, 0);
        if at < entry.len() {
            let right = subrange(entry, at + 1, entry.len());
            match parse_quoted(&right) {
                Ok(value) => Ok((string_of(&subrange(entry, 0, at)), value)),
                Err(e) => Err(e),
            }
        } else {
            Err(ParseError::MissingValue("asset_group value"))
        }
    }
}

/// A piece that holds nothing or a comment.
pub open spec fn is_blank(t: Seq<char>) -> bool {
    t.len() == 0 || has_prefix(t, "//"@) || has_prefix(t, "#"@)
}

/// Whether a piece holds nothing or a comment.
pub fn blank(t: &Vec<char>) -> (r: bool)
    ensures
        r == is_blank(t@),
{
    t.len() == 0 || starts_with(t, "//") || starts_with(t, "#")
}

/// The entries of the parts from index `i` on, stored into `done`.
pub open spec fn segment_entries(
    parts: Seq<Seq<char>>,
    i: int,
    mapping: bool,
    done: Seq<(Seq<char>, Seq<char>)>,
) -> Result<Seq<(Seq<char>, Seq<char>)>, ParseFailure>
    decreases parts.len() - i,
{
    if i < 0 || i >= parts.len() {
        Ok(done)
    } else {
        let t = trimmed(parts[i]);
        if is_blank(t) {
            segment_entries(parts, i + 1, mapping, done)
        } else {
            match entry_of(t, mapping) {
                Err(e) => Err(e),
                Ok((key, value)) => segment_entries(
                    parts,
                    i + 1,
                    mapping,
                    inserted(done, key, value),
                ),
            }
        }
    }
}

/// The entries of a segment, which semicolons part, stored into `done`.
pub open spec fn segment_of(segment: Seq<char>, mapping: bool, done: Seq<(Seq<char>, Seq<char>)>)
    -> Result<Seq<(Seq<char>, Seq<char>)>, ParseFailure> {
    segment_entries(pieces(segment, ';'), 0, mapping, done)
}

/// The entries of a segment, stored into an ordered table, leave it ordered.
pub proof fn lemma_segment_ascending(
    parts: Seq<Seq<char>>,
    i: int,
    mapping: bool,
    done: Seq<(Seq<char>, Seq<char>)>,
)
    requires
        ascending(done),
    ensures
        match segment_entries(parts, i, mapping, done) {
            Ok(entries) => ascending(entries),
            Err(_) => true,
        },
    decreases parts.len() - i,
{
    if 0 <= i < parts.len() {
        let t = trimmed(parts[i]);
        if is_blank(t) {
            lemma_segment_ascending(parts, i + 1, mapping, done);
        } else if let Ok((key, value)) = entry_of(t, mapping) {
            lemma_inserted_ascending(done, key, value);
            lemma_segment_ascending(parts, i + 1, mapping, inserted(done, key, value));
        }
    }
}

/// Stores the entries of a segment, which semicolons part, into `properties`.
pub fn parse_properties_segment(
    segment: &Vec<char>,
    mapping: bool,
    properties: &mut Vec<(String, String)>,
) -> (r: Result<(), ParseError>)
    ensures
        match r {
            Ok(_) => segment_of(segment@, mapping, old(properties).deep_view()) == Ok::<
                Seq<(Seq<char>, Seq<char>)>,
                ParseFailure,
            >(final(properties).deep_view()),
            Err(e) => segment_of(segment@, mapping, old(properties).deep_view()) == Err::<
                Seq<(Seq<char>, Seq<char>)>,
                ParseFailure,
            >(e.deep_view()),
        },
{
    let parts = split_char(segment, ';');
    let ghost start = properties.deep_view();
    let mut i: usize = 0;
    while i < parts.len()
        invariant
            i <= parts.len(),
            start == old(properties).deep_view(),
            views(parts@) == pieces(segment@, ';'),
            segment_of(segment@, mapping, start) == segment_entries(
                views(parts@),
                i as int,
                mapping,
                properties.deep_view(),
            ),
        decreases parts.len() - i,
    {
        assert(views(parts@)[i as int] == parts[i as int]@);
        let t = trim(&parts[i]);
        if !blank(&t) {
            match parse_entry(&t, mapping) {
                Ok((key, value)) => {
                    crate::assoc::insert(properties, key, value);
                },
                Err(e) => {
                    return Err(e);
                },
            }
        }
        i += 1;
    }
    Ok(())
}

/// What a line that may close a block gives: the entries before its first
/// `}` and the fact that the block ends there, or its entries alone.
pub open spec fn closing_segment(
    t: Seq<char>,
    mapping: bool,
    done: Seq<(Seq<char>, Seq<char>)>,
) -> Result<(Seq<(Seq<char>, Seq<char>)>, bool), ParseFailure> {
    match index_of_char(t, '}') {
        Some(at) => if 0 <= at < t.len() {
            match segment_of(t.take(at), mapping, done) {
                Err(e) => Err(e),
                Ok(entries) => if trimmed(t.skip(at + 1)).len() > 0 {
                    Err(ParseFailure::InvalidSyntax(t.skip(at + 1)))
                } else {
                    Ok((entries, true))
                },
            }
        } else {
            Err(ParseFailure::InvalidSyntax(t))
        },
        None => match segment_of(t, mapping, done) {
            Err(e) => Err(e),
            Ok(entries) => Ok((entries, false)),
        },
    }
}

/// The entries of a line, stored into an ordered table, leave it ordered.
pub proof fn lemma_closing_ascending(t: Seq<char>, mapping: bool, done: Seq<(Seq<char>, Seq<char>)>)
    requires
        ascending(done),
    ensures
        match closing_segment(t, mapping, done) {
            Ok((entries, _)) => ascending(entries),
            Err(_) => true,
        },
{
    match index_of_char(t, '}') {
        Some(at) => if 0 <= at < t.len() {
            lemma_segment_ascending(pieces(t.take(at), ';'), 0, mapping, done);
        },
        None => lemma_segment_ascending(pieces(t, ';'), 0, mapping, done),
    }
}

/// Stores the entries of a line into `properties` and says whether the line
/// closes the block.
pub fn parse_closing_segment(t: &Vec<char>, mapping: bool, properties: &mut Vec<(String, String)>)
    -> (r: Result<bool, ParseError>)
    ensures
        match r {
            Ok(closed) => closing_segment(t@, mapping, old(properties).deep_view()) == Ok::<
                (Seq<(Seq<char>, Seq<char>)>, bool),
                ParseFailure,
            >((final(properties).deep_view(), closed)),
            Err(e) => closing_segment(t@, mapping, old(properties).deep_view()) == Err::<
                (Seq<(Seq<char>, Seq<char>)>, bool),
                ParseFailure,
            >(e.deep_view()),
        },
{
    match find_char(t, '}') {
        Some(at) => {
            let segment = subrange(t, 0, at);
            match parse_properties_segment(&segment, mapping, properties) {
                Err(e) => Err(e),
                Ok(_) => {
                    let rest = subrange(t, at + 1, t.len());
                    if trim(&rest).len() > 0 {
                        Err(invalid_syntax(&rest))
                    } else {
                        Ok(true)
                    }
                },
            }
        },
        None => match parse_properties_segment(t, mapping, properties) {
            Err(e) => Err(e),
            Ok(_) => Ok(false),
        },
    }
}

/// The entries of the lines from `pos` up to the one that closes the block,
/// stored into `done`, and the index behind that line.
pub open spec fn group_body(
    lines: Seq<Seq<char>>,
    pos: int,
    mapping: bool,
    done: Seq<(Seq<char>, Seq<char>)>,
    what: Seq<char>,
) -> Result<(Seq<(Seq<char>, Seq<char>)>, int), ParseFailure>
    decreases lines.len() - pos,
{
    if pos < 0 || pos >= lines.len() {
        Err(ParseFailure::UnexpectedEof(what))
    } else {
        let t = trimmed(lines[pos]);
        if is_blank(t) {
            group_body(lines, pos + 1, mapping, done, what)
        } else {
            match closing_segment(t, mapping, done) {
                Err(e) => Err(e),
                Ok((entries, closed)) => if closed {
                    Ok((entries, pos + 1))
                } else {
                    group_body(lines, pos + 1, mapping, entries, what)
                },
            }
        }
    }
}

/// The entries of the lines of a block, stored into an ordered table, leave
/// it ordered.
pub proof fn lemma_group_body_ascending(
    lines: Seq<Seq<char>>,
    pos: int,
    mapping: bool,
    done: Seq<(Seq<char>, Seq<char>)>,
    what: Seq<char>,
)
    requires
        ascending(done),
    ensures
        match group_body(lines, pos, mapping, done, what) {
            Ok((entries, _)) => ascending(entries),
            Err(_) => true,
        },
    decreases lines.len() - pos,
{
    if 0 <= pos < lines.len() {
        let t = trimmed(lines[pos]);
        if is_blank(t) {
            lemma_group_body_ascending(lines, pos + 1, mapping, done, what);
        } else {
            lemma_closing_ascending(t, mapping, done);
            if let Ok((entries, closed)) = closing_segment(t, mapping, done) {
                if !closed {
                    lemma_group_body_ascending(lines, pos + 1, mapping, entries, what);
                }
            }
        }
    }
}

/// The entries of a block whose header line holds `body` behind its `{`.
pub open spec fn group_block(
    body: Option<Seq<char>>,
    lines: Seq<Seq<char>>,
    pos: int,
    mapping: bool,
    what: Seq<char>,
) -> Result<(Seq<(Seq<char>, Seq<char>)>, int), ParseFailure> {
    match body {
        Some(content) => match closing_segment(content, mapping, Seq::empty()) {
            Err(e) => Err(e),
            Ok((entries, closed)) => if closed {
                Ok((entries, pos))
            } else {
                group_body(lines, pos, mapping, entries, what)
            },
        },
        None => group_body(lines, pos, mapping, Seq::empty(), what),
    }
}

/// The table of a block is ordered.
pub proof fn lemma_group_block_ascending(
    body: Option<Seq<char>>,
    lines: Seq<Seq<char>>,
    pos: int,
    mapping: bool,
    what: Seq<char>,
)
    ensures
        match group_block(body, lines, pos, mapping, what) {
            Ok((entries, _)) => ascending(entries),
            Err(_) => true,
        },
{
    let none = Seq::<(Seq<char>, Seq<char>)>::empty();
    match body {
        Some(content) => {
            lemma_closing_ascending(content, mapping, none);
            if let Ok((entries, closed)) = closing_segment(content, mapping, none) {
                if !closed {
                    lemma_group_body_ascending(lines, pos, mapping, entries, what);
                }
            }
        },
        None => lemma_group_body_ascending(lines, pos, mapping, none, what),
    }
}

/// The entries of a block whose header line holds `body` behind its `{`.
pub fn parse_group_block(
    body: &Option<Vec<char>>,
    lines: &Vec<Vec<char>>,
    pos: usize,
    mapping: bool,
    what: &'static str,
) -> (r: Result<(Vec<(String, String)>, usize), ParseError>)
    requires
        pos <= lines.len(),
    ensures
        match r {
            Ok(pair) => group_block(
                match body {
                    Some(b) => Some(b@),
                    None => None,
                },
                views(lines@),
                pos as int,
                mapping,
                what@,
            ) == Ok::<(Seq<(Seq<char>, Seq<char>)>, int), ParseFailure>(
                (pair.0.deep_view(), pair.1 as int),
            ) && pos <= pair.1 <= lines.len(),
            Err(e) => group_block(
                match body {
                    Some(b) => Some(b@),
                    None => None,
                },
                views(lines@),
                pos as int,
                mapping,
                what@,
            ) == Err::<(Seq<(Seq<char>, Seq<char>)>, int), ParseFailure>(e.deep_view()),
        },
{
    let mut properties: Vec<(String, String)> = Vec::new();
    assert(properties.deep_view() =~= Seq::empty());
    match body {
        Some(content) => {
            match parse_closing_segment(content, mapping, &mut properties) {
                Err(e) => {
                    return Err(e);
                },
                Ok(closed) => {
                    if closed {
                        return Ok((properties, pos));
                    }
                },
            }
        },
        None => {},
    }
    let ghost whole = group_block(
        match body {
            Some(b) => Some(b@),
            None => None,
        },
        views(lines@),
        pos as int,
        mapping,
        what@,
    );
    let mut at: usize = pos;
    loop
        invariant
            pos <= at <= lines.len(),
            whole == group_block(
                match body {
                    Some(b) => Some(b@),
                    None => None,
                },
                views(lines@),
                pos as int,
                mapping,
                what@,
            ),
            whole == group_body(views(lines@), at as int, mapping, properties.deep_view(), what@),
        decreases lines.len() - at,
    {
        if at >= lines.len() {
            return Err(ParseError::UnexpectedEof(what));
        }
        assert(views(lines@)[at as int] == lines[at as int]@);
        let t = trim(&lines[at]);
        if !blank(&t) {
            match parse_closing_segment(&t, mapping, &mut properties) {
                Err(e) => {
                    return Err(e);
                },
                Ok(closed) => {
                    if closed {
                        return Ok((properties, at + 1));
                    }
                },
            }
        }
        at += 1;
    }
}

// ---------------------------------------------------------------------------
// asset_group
// ---------------------------------------------------------------------------

/// The statement `asset_group <name> { <key> <value>; ... }`, on one line
/// or on several; `group` is the same keyword.
pub open spec fn asset_group_at(first_line: Seq<char>, lines: Seq<Seq<char>>, pos: int) -> Result<
    (StepView, int),
    ParseFailure,
> {
    match header_and_body(first_line) {
        Err(e) => Err(e),
        Ok((header, body)) => {
            let tokens = words(header);
            if tokens.len() != 2 || !(tokens[0] == "asset_group"@ || tokens[0] == "group"@) {
                Err(ParseFailure::InvalidSyntax(first_line))
            } else {
                match group_block(body, lines, pos, false, "asset_group block"@) {
                    Err(e) => Err(e),
                    Ok((properties, next)) => Ok(
                        (StepView::AssetGroup { name: tokens[1], properties }, next),
                    ),
                }
            }
        },
    }
}

/// Parses an asset group.
pub fn parse_asset_group(first_line: &Vec<char>, lines: &Vec<Vec<char>>, pos: usize) -> (r: Result<
    (AssetGroupStep, usize),
    ParseError,
>)
    requires
        pos <= lines.len(),
    ensures
        match r {
            Ok(pair) => asset_group_at(first_line@, views(lines@), pos as int) == Ok::<
                (StepView, int),
                ParseFailure,
            >((pair.0.deep_view(), pair.1 as int)) && pos <= pair.1 <= lines.len(),
            Err(e) => asset_group_at(first_line@, views(lines@), pos as int) == Err::<
                (StepView, int),
                ParseFailure,
            >(e.deep_view()),
        },
{
    let (header, body) = match split_header_body(first_line) {
        Ok(pair) => pair,
        Err(e) => {
            return Err(e);
        },
    };
    let tokens = split_whitespace(&header);
    if tokens.len() != 2 {
        return Err(invalid_syntax(first_line));
    }
    assert(views(tokens@)[0] == tokens[0]@);
    assert(views(tokens@)[1] == tokens[1]@);
    if !(same_str(&tokens[0], "asset_group") || same_str(&tokens[0], "group")) {
        return Err(invalid_syntax(first_line));
    }
    match parse_group_block(&body, lines, pos, false, "asset_group block") {
        Err(e) => Err(e),
        Ok((properties, next)) => Ok(
            (AssetGroupStep { name: string_of(&tokens[1]), properties }, next),
        ),
    }
}

// ---------------------------------------------------------------------------
// scan, script
// ---------------------------------------------------------------------------

/// The name and the tool of `scan <name> <tool>` or `scan <name> using
/// <tool>`.
pub open spec fn scan_header(line: Seq<char>) -> Result<(Seq<char>, Seq<char>), ParseFailure> {
    let tokens = header_words(line);
    if tokens.len() < 3 || tokens[0] != "scan"@ {
        Err(ParseFailure::InvalidSyntax(line))
    } else if tokens.len() >= 4 && tokens[2] == "using"@ {
        Ok((tokens[1], tokens[3]))
    } else {
        Ok((tokens[1], tokens[2]))
    }
}

/// The name and the tool of the header of a scan.
pub fn parse_scan_header(line: &Vec<char>) -> (r: Result<(String, String), ParseError>)
    ensures
        match r {
            Ok(pair) => scan_header(line@) == Ok::<(Seq<char>, Seq<char>), ParseFailure>(
                (pair.0@, pair.1@),
            ),
            Err(e) => scan_header(line@) == Err::<(Seq<char>, Seq<char>), ParseFailure>(
                e.deep_view(),
            ),
        },
{
    let tokens = header_tokens(line);
    if tokens.len() < 3 {
        return Err(invalid_syntax(line));
    }
    assert(views(tokens@)[0] == tokens[0]@);
    assert(views(tokens@)[1] == tokens[1]@);
    assert(views(tokens@)[2] == tokens[2]@);
    if !same_str(&tokens[0], "scan") {
        return Err(invalid_syntax(line));
    }
    if tokens.len() >= 4 && same_str(&tokens[2], "using") {
        assert(views(tokens@)[3] == tokens[3]@);
        return Ok((string_of(&tokens[1]), string_of(&tokens[3])));
    }
    Ok((string_of(&tokens[1]), string_of(&tokens[2])))
}

/// The parameters of the lines `key value` from `pos` up to the line that
/// begins with `}`, stored into `done`; the output name behind `->` on that
/// line; and the index behind it. The key ends at the first space.
pub open spec fn params_body(
    lines: Seq<Seq<char>>,
    pos: int,
    done: Seq<(Seq<char>, Seq<char>)>,
    what: Seq<char>,
) -> Result<(Seq<(Seq<char>, Seq<char>)>, Option<Seq<char>>, int), ParseFailure>
    decreases lines.len() - pos,
{
    let p = next_content(lines, pos);
    if pos < 0 || p < pos || p >= lines.len() {
        Err(ParseFailure::UnexpectedEof(what))
    } else {
        let t = trimmed(lines[p]);
        if t.len() > 0 && t[0] == '}' {
            Ok((done, output_name(t), p + 1))
        } else {
            match index_of_char(t, ' ') {
                None => Err(ParseFailure::InvalidSyntax(t)),
                Some(at) => if 0 <= at < t.len() {
                    match quoted_value(t.skip(at + 1)) {
                        Err(e) => Err(e),
                        Ok(value) => params_body(
                            lines,
                            p + 1,
                            inserted(done, t.take(at), value),
                            what,
                        ),
                    }
                } else {
                    Err(ParseFailure::InvalidSyntax(t))
                },
            }
        }
    }
}

/// The parameters of a block, stored into an ordered table, leave it
/// ordered.
pub proof fn lemma_params_ascending(
    lines: Seq<Seq<char>>,
    pos: int,
    done: Seq<(Seq<char>, Seq<char>)>,
    what: Seq<char>,
)
    requires
        ascending(done),
    ensures
        match params_body(lines, pos, done, what) {
            Ok((params, _, _)) => ascending(params),
            Err(_) => true,
        },
    decreases lines.len() - pos,
{
    let p = next_content(lines, pos);
    if !(pos < 0 || p < pos || p >= lines.len()) {
        let t = trimmed(lines[p]);
        if !(t.len() > 0 && t[0] == '}') {
            if let Some(at) = index_of_char(t, ' ') {
                if 0 <= at < t.len() {
                    if let Ok(value) = quoted_value(t.skip(at + 1)) {
                        lemma_inserted_ascending(done, t.take(at), value);
                        lemma_params_ascending(
                            lines,
                            p + 1,
                            inserted(done, t.take(at), value),
                            what,
                        );
                    }
                }
            }
        }
    }
}

/// The parameters of a block, and the output name on its closing line.
pub fn parse_params_body(lines: &Vec<Vec<char>>, pos: usize, what: &'static str) -> (r: Result<
    (Vec<(String, String)>, Option<String>, usize),
    ParseError,
>)
    requires
        pos <= lines.len(),
    ensures
        match r {
            Ok(triple) => params_body(views(lines@), pos as int, Seq::empty(), what@) == Ok::<
                (Seq<(Seq<char>, Seq<char>)>, Option<Seq<char>>, int),
                ParseFailure,
            >((triple.0.deep_view(), triple.1.deep_view(), triple.2 as int)) && pos < triple.2
                <= lines.len(),
            Err(e) => params_body(views(lines@), pos as int, Seq::empty(), what@) == Err::<
                (Seq<(Seq<char>, Seq<char>)>, Option<Seq<char>>, int),
                ParseFailure,
            >(e.deep_view()),
        },
{
    let mut params: Vec<(String, String)> = Vec::new();
    assert(params.deep_view() =~= Seq::empty());
    let mut at: usize = pos;
    loop
        invariant
            pos <= at <= lines.len(),
            params_body(views(lines@), pos as int, Seq::empty(), what@) == params_body(
                views(lines@),
                at as int,
                params.deep_view(),
                what@,
            ),
        decreases lines.len() - at,
    {
        let p = next_non_empty(lines, at);
        if p >= lines.len() {
            return Err(ParseError::UnexpectedEof(what));
        }
        assert(views(lines@)[p as int] == lines[p as int]@);
        let t = trim(&lines[p]);
        if t.len() > 0 && t[0] == '}' {
            return Ok((params, parse_output_name(&t), p + 1));
        }
        match find_char(&t, ' ') {
            None => {
                return Err(invalid_syntax(&t));
            },
            Some(k) => {
                let value = subrange(&t, k + 1, t.len());
                match parse_quoted(&value) {
                    Err(e) => {
                        return Err(e);
                    },
                    Ok(parsed) => {
                        crate::assoc::insert(&mut params, string_of(&subrange(&t, 0, k)), parsed);
                    },
                }
            },
        }
        at = p + 1;
    }
}

/// The statement `scan <name> [using] <tool> {`, its parameter lines and
/// its closing line.
pub open spec fn scan_at(first_line: Seq<char>, lines: Seq<Seq<char>>, pos: int) -> Result<
    (StepView, int),
    ParseFailure,
> {
    match scan_header(first_line) {
        Err(e) => Err(e),
        Ok((name, tool)) => match params_body(lines, pos, Seq::empty(), "scan block"@) {
            Err(e) => Err(e),
            Ok((params, output, next)) => Ok((StepView::Scan { name, tool, params, output }, next)),
        },
    }
}

/// Parses a scan.
pub fn parse_scan(first_line: &Vec<char>, lines: &Vec<Vec<char>>, pos: usize) -> (r: Result<
    (ScanStep, usize),
    ParseError,
>)
    requires
        pos <= lines.len(),
    ensures
        match r {
            Ok(pair) => scan_at(first_line@, views(lines@), pos as int) == Ok::<
                (StepView, int),
                ParseFailure,
            >((pair.0.deep_view(), pair.1 as int)) && pos <= pair.1 <= lines.len(),
            Err(e) => scan_at(first_line@, views(lines@), pos as int) == Err::<
                (StepView, int),
                ParseFailure,
            >(e.deep_view()),
        },
{
    let (name, tool) = match parse_scan_header(first_line) {
        Ok(pair) => pair,
        Err(e) => {
            return Err(e);
        },
    };
    match parse_params_body(lines, pos, "scan block") {
        Err(e) => Err(e),
        Ok((params, output, next)) => Ok((ScanStep { name, tool, params, output }, next)),
    }
}

/// The statement `script <name> {`, its parameter lines, of which one is
/// `run`, and its closing line.
pub open spec fn script_at(first_line: Seq<char>, lines: Seq<Seq<char>>, pos: int) -> Result<
    (StepView, int),
    ParseFailure,
> {
    let tokens = header_words(first_line);
    if tokens.len() < 2 || tokens[0] != "script"@ {
        Err(ParseFailure::InvalidSyntax(first_line))
    } else {
        match params_body(lines, pos, Seq::empty(), "script block"@) {
            Err(e) => Err(e),
            Ok((params, output, next)) => if !has_key(params, "run"@) {
                Err(ParseFailure::MissingValue("script run"@))
            } else {
                Ok((StepView::Script { name: tokens[1], params, output }, next))
            },
        }
    }
}

/// Parses a script.
pub fn parse_script(first_line: &Vec<char>, lines: &Vec<Vec<char>>, pos: usize) -> (r: Result<
    (ScriptStep, usize),
    ParseError,
>)
    requires
        pos <= lines.len(),
    ensures
        match r {
            Ok(pair) => script_at(first_line@, views(lines@), pos as int) == Ok::<
                (StepView, int),
                ParseFailure,
            >((pair.0.deep_view(), pair.1 as int)) && pos <= pair.1 <= lines.len(),
            Err(e) => script_at(first_line@, views(lines@), pos as int) == Err::<
                (StepView, int),
                ParseFailure,
            >(e.deep_view()),
        },
{
    let tokens = header_tokens(first_line);
    if tokens.len() < 2 {
        return Err(invalid_syntax(first_line));
    }
    assert(views(tokens@)[0] == tokens[0]@);
    assert(views(tokens@)[1] == tokens[1]@);
    if !same_str(&tokens[0], "script") {
        return Err(invalid_syntax(first_line));
    }
    match parse_params_body(lines, pos, "script block") {
        Err(e) => Err(e),
        Ok((params, output, next)) => {
            if !crate::assoc::contains_key(&params, "run") {
                return Err(ParseError::MissingValue("script run"));
            }
            Ok((ScriptStep { name: string_of(&tokens[1]), params, output }, next))
        },
    }
}

// ---------------------------------------------------------------------------
// report
// ---------------------------------------------------------------------------

/// The format that a word names.
pub open spec fn format_of(word: Seq<char>) -> Option<ReportFormat> {
    if word == "stdout"@ {
        Some(ReportFormat::Stdout)
    } else if word == "html"@ {
        Some(ReportFormat::Html)
    } else if word == "markdown"@ {
        Some(ReportFormat::Markdown)
    } else if word == "sarif"@ {
        Some(ReportFormat::Sarif)
    } else {
        None
    }
}

/// The name of a format.
pub open spec fn format_name(format: ReportFormat) -> Seq<char> {
    match format {
        ReportFormat::Stdout => "stdout"@,
        ReportFormat::Html => "html"@,
        ReportFormat::Markdown => "markdown"@,
        ReportFormat::Sarif => "sarif"@,
    }
}

impl ReportFormat {
    /// The format that a word names.
    pub fn parse(word: &Vec<char>) -> (r: Option<ReportFormat>)
        ensures
            r == format_of(word@),
    {
        if same_str(word, "stdout") {
            Some(ReportFormat::Stdout)
        } else if same_str(word, "html") {
            Some(ReportFormat::Html)
        } else if same_str(word, "markdown") {
            Some(ReportFormat::Markdown)
        } else if same_str(word, "sarif") {
            Some(ReportFormat::Sarif)
        } else {
            None
        }
    }

    /// The name of the format.
    pub fn as_str(&self) -> (r: &'static str)
        ensures
            r@ == format_name(*self),
    {
        match self {
            ReportFormat::Stdout => "stdout",
            ReportFormat::Html => "html",
            ReportFormat::Markdown => "markdown",
            ReportFormat::Sarif => "sarif",
        }
    }
}

/// The name and the format of `report <name>` or `report <name> using
/// <format>`; without `using` the format is `stdout`.
pub open spec fn report_header(line: Seq<char>) -> Result<(Seq<char>, ReportFormat), ParseFailure> {
    let tokens = header_words(line);
    if tokens.len() < 2 || tokens[0] != "report"@ {
        Err(ParseFailure::InvalidSyntax(line))
    } else if tokens.len() >= 4 && tokens[2] == "using"@ {
        match format_of(tokens[3]) {
            Some(format) => Ok((tokens[1], format)),
            None => Err(ParseFailure::InvalidSyntax(line)),
        }
    } else {
        Ok((tokens[1], ReportFormat::Stdout))
    }
}

/// The name and the format of the header of a report.
pub fn parse_report_header(line: &Vec<char>) -> (r: Result<(String, ReportFormat), ParseError>)
    ensures
        match r {
            Ok(pair) => report_header(line@) == Ok::<(Seq<char>, ReportFormat), ParseFailure>(
                (pair.0@, pair.1),
            ),
            Err(e) => report_header(line@) == Err::<(Seq<char>, ReportFormat), ParseFailure>(
                e.deep_view(),
            ),
        },
{
    let tokens = header_tokens(line);
    if tokens.len() < 2 {
        return Err(invalid_syntax(line));
    }
    assert(views(tokens@)[0] == tokens[0]@);
    assert(views(tokens@)[1] == tokens[1]@);
    if !same_str(&tokens[0], "report") {
        return Err(invalid_syntax(line));
    }
    if tokens.len() >= 4 {
        assert(views(tokens@)[2] == tokens[2]@);
        assert(views(tokens@)[3] == tokens[3]@);
        if same_str(&tokens[2], "using") {
            return match ReportFormat::parse(&tokens[3]) {
                Some(format) => Ok((string_of(&tokens[1]), format)),
                None => Err(invalid_syntax(line)),
            };
        }
    }
    Ok((string_of(&tokens[1]), ReportFormat::Stdout))
}

/// What the body of a report holds so far.
pub struct ReportBody {
    pub includes: Seq<Seq<char>>,
    pub options: Seq<(Seq<char>, Seq<char>)>,
}

/// The lines `include <artifact>` and `option <key> <value>` from `pos` up
/// to the line that begins with `}`, added to `done`; the output path behind
/// `->` on that line; and the index behind it.
pub open spec fn report_body(lines: Seq<Seq<char>>, pos: int, done: ReportBody) -> Result<
    (ReportBody, Option<Seq<char>>, int),
    ParseFailure,
>
    decreases lines.len() - pos,
{
    let p = next_content(lines, pos);
    if pos < 0 || p < pos || p >= lines.len() {
        Err(ParseFailure::UnexpectedEof("report block"@))
    } else {
        let t = trimmed(lines[p]);
        if t.len() > 0 && t[0] == '}' {
            Ok((done, output_name(t), p + 1))
        } else if has_prefix(t, "include "@) {
            report_body(
                lines,
                p + 1,
                ReportBody { includes: done.includes.push(trimmed(t.skip(8))), ..done },
            )
        } else if has_prefix(t, "option "@) {
            match property_of(trimmed(t.skip(7))) {
                Ok((key, value)) => report_body(
                    lines,
                    p + 1,
                    ReportBody { options: inserted(done.options, key, value), ..done },
                ),
                Err(_) => Err(ParseFailure::InvalidSyntax(t)),
            }
        } else {
            Err(ParseFailure::InvalidSyntax(t))
        }
    }
}

/// The options of a report, stored into an ordered table, leave it ordered.
pub proof fn lemma_report_ascending(lines: Seq<Seq<char>>, pos: int, done: ReportBody)
    requires
        ascending(done.options),
    ensures
        match report_body(lines, pos, done) {
            Ok((body, _, _)) => ascending(body.options),
            Err(_) => true,
        },
    decreases lines.len() - pos,
{
    let p = next_content(lines, pos);
    if !(pos < 0 || p < pos || p >= lines.len()) {
        let t = trimmed(lines[p]);
        if t.len() > 0 && t[0] == '}' {
        } else if has_prefix(t, "include "@) {
            lemma_report_ascending(
                lines,
                p + 1,
                ReportBody { includes: done.includes.push(trimmed(t.skip(8))), ..done },
            );
        } else if has_prefix(t, "option "@) {
            if let Ok((key, value)) = property_of(trimmed(t.skip(7))) {
                lemma_inserted_ascending(done.options, key, value);
                lemma_report_ascending(
                    lines,
                    p + 1,
                    ReportBody { options: inserted(done.options, key, value), ..done },
                );
            }
        }
    }
}

/// The statement `report <name> [using <format>] {`, its lines and its
/// closing line.
pub open spec fn report_at(first_line: Seq<char>, lines: Seq<Seq<char>>, pos: int) -> Result<
    (StepView, int),
    ParseFailure,
> {
    match report_header(first_line) {
        Err(e) => Err(e),
        Ok((name, format)) => match report_body(
            lines,
            pos,
            ReportBody { includes: Seq::empty(), options: Seq::empty() },
        ) {
            Err(e) => Err(e),
            Ok((body, output, next)) => Ok(
                (
                    StepView::Report {
                        name,
                        format,
                        includes: body.includes,
                        options: body.options,
                        output,
                    },
                    next,
                ),
            ),
        },
    }
}

/// Parses a report.
pub fn parse_report(first_line: &Vec<char>, lines: &Vec<Vec<char>>, pos: usize) -> (r: Result<
    (ReportStep, usize),
    ParseError,
>)
    requires
        pos <= lines.len(),
    ensures
        match r {
            Ok(pair) => report_at(first_line@, views(lines@), pos as int) == Ok::<
                (StepView, int),
                ParseFailure,
            >((pair.0.deep_view(), pair.1 as int)) && pos <= pair.1 <= lines.len(),
            Err(e) => report_at(first_line@, views(lines@), pos as int) == Err::<
                (StepView, int),
                ParseFailure,
            >(e.deep_view()),
        },
{
    let (name, format) = match parse_report_header(first_line) {
        Ok(pair) => pair,
        Err(e) => {
            return Err(e);
        },
    };
    let mut includes: Vec<String> = Vec::new();
    let mut options: Vec<(String, String)> = Vec::new();
    assert(includes.deep_view() =~= Seq::empty());
    assert(options.deep_view() =~= Seq::empty());
    let ghost whole = report_body(
        views(lines@),
        pos as int,
        ReportBody { includes: Seq::empty(), options: Seq::empty() },
    );
    let mut at: usize = pos;
    proof {
        reveal_strlit("include ");
        reveal_strlit("option ");
    }
    loop
        invariant
            pos <= at <= lines.len(),
            "include "@.len() == 8,
            "option "@.len() == 7,
            report_header(first_line@) == Ok::<(Seq<char>, ReportFormat), ParseFailure>(
                (name@, format),
            ),
            whole == report_body(
                views(lines@),
                pos as int,
                ReportBody { includes: Seq::empty(), options: Seq::empty() },
            ),
            whole == report_body(
                views(lines@),
                at as int,
                ReportBody { includes: includes.deep_view(), options: options.deep_view() },
            ),
        decreases lines.len() - at,
    {
        let p = next_non_empty(lines, at);
        if p >= lines.len() {
            return Err(ParseError::UnexpectedEof("report block"));
        }
        assert(views(lines@)[p as int] == lines[p as int]@);
        let t = trim(&lines[p]);
        if t.len() > 0 && t[0] == '}' {
            let output = parse_output_name(&t);
            return Ok((ReportStep { name, format, includes, options, output }, p + 1));
        }
        if starts_with(&t, "include ") {
            let item = string_of(&trim(&subrange(&t, 8, t.len())));
            let ghost before = includes.deep_view();
            includes.push(item);
            assert(includes.deep_view() =~= before.push(item@));
        } else if starts_with(&t, "option ") {
            let rest = trim(&subrange(&t, 7, t.len()));
            match parse_entry(&rest, false) {
                Ok((key, value)) => {
                    crate::assoc::insert(&mut options, key, value);
                },
                Err(_) => {
                    return Err(invalid_syntax(&t));
                },
            }
        } else {
            return Err(invalid_syntax(&t));
        }
        at = p + 1;
    }
}

// ---------------------------------------------------------------------------
// secret
// ---------------------------------------------------------------------------

/// The index behind the `n`-th word of `s`, counted from index `i`.
pub open spec fn after_words(s: Seq<char>, n: nat, i: int) -> int
    decreases n,
{
    if n == 0 {
        i
    } else {
        after_words(s, (n - 1) as nat, next_whitespace(s, skip_whitespace(s, i)))
    }
}

/// What stands before the first `{` of a line, or the line.
pub open spec fn before_brace(line: Seq<char>) -> Seq<char> {
    match index_of_char(line, '{') {
        Some(at) => if 0 <= at <= line.len() {
            line.take(at)
        } else {
            line
        },
        None => line,
    }
}

/// The path of a secret that comes from a file or a vault: what follows the
/// fourth word of the line, which may end in semicolons and may stand in
/// quotes.
pub open spec fn secret_path(line: Seq<char>) -> Result<Seq<char>, ParseFailure> {
    let cleaned = trimmed(without_trailing(line, ';'));
    let at = after_words(cleaned, 4, 0);
    if 0 <= at <= cleaned.len() {
        match quoted_value(cleaned.skip(at)) {
            Err(e) => Err(e),
            Ok(path) => if path.len() == 0 {
                Err(ParseFailure::MissingValue("secret path"@))
            } else {
                Ok(path)
            },
        }
    } else {
        Err(ParseFailure::MissingValue("secret path"@))
    }
}

/// The statement `secret <name> from env { <alias> = <variable>; ... }`, on
/// one line or on several, `secret <name> from file <path>` or `secret
/// <name> from vault <path>`.
pub open spec fn secret_at(first_line: Seq<char>, lines: Seq<Seq<char>>, pos: int) -> Result<
    (StepView, int),
    ParseFailure,
> {
    let tokens = words(before_brace(first_line));
    if tokens.len() < 4 || tokens[0] != "secret"@ || tokens[2] != "from"@ {
        Err(ParseFailure::InvalidSyntax(first_line))
    } else if tokens[3] == "env"@ {
        match header_and_body(first_line) {
            Err(e) => Err(e),
            Ok((header, body)) => if tokens.len() != 4 {
                Err(ParseFailure::InvalidSyntax(first_line))
            } else {
                match group_block(body, lines, pos, true, "secret block"@) {
                    Err(e) => Err(e),
                    Ok((mappings, next)) => Ok(
                        (
                            StepView::Secret {
                                name: tokens[1],
                                source: SecretOrigin::Env { mappings },
                            },
                            next,
                        ),
                    ),
                }
            },
        }
    } else if tokens[3] == "file"@ {
        match secret_path(first_line) {
            Err(e) => Err(e),
            Ok(path) => Ok(
                (StepView::Secret { name: tokens[1], source: SecretOrigin::File { path } }, pos),
            ),
        }
    } else if tokens[3] == "vault"@ {
        match secret_path(first_line) {
            Err(e) => Err(e),
            Ok(path) => Ok(
                (StepView::Secret { name: tokens[1], source: SecretOrigin::Vault { path } }, pos),
            ),
        }
    } else {
        Err(ParseFailure::InvalidSyntax(first_line))
    }
}

/// The path of a secret that comes from a file or a vault.
pub fn parse_secret_path(line: &Vec<char>) -> (r: Result<String, ParseError>)
    ensures
        match r {
            Ok(path) => secret_path(line@) == Ok::<Seq<char>, ParseFailure>(path@),
            Err(e) => secret_path(line@) == Err::<Seq<char>, ParseFailure>(e.deep_view()),
        },
{
    let cleaned = trim(&trim_end_matches(line, ';'));
    let mut at: usize = 0;
    let mut n: usize = 0;
    while n < 4
        invariant
            n <= 4,
            at <= cleaned.len(),
            after_words(cleaned@, 4, 0) == after_words(cleaned@, (4 - n) as nat, at as int),
        decreases 4 - n,
    {
        let start = find_non_whitespace(&cleaned, at);
        at = find_whitespace(&cleaned, start);
        n += 1;
    }
    let rest = subrange(&cleaned, at, cleaned.len());
    match parse_quoted(&rest) {
        Err(e) => Err(e),
        Ok(path) => {
            if path.as_str().unicode_len() == 0 {
                Err(ParseError::MissingValue("secret path"))
            } else {
                Ok(path)
            }
        },
    }
}

/// Parses a secret.
pub fn parse_secret(first_line: &Vec<char>, lines: &Vec<Vec<char>>, pos: usize) -> (r: Result<
    (SecretStep, usize),
    ParseError,
>)
    requires
        pos <= lines.len(),
    ensures
        match r {
            Ok(pair) => secret_at(first_line@, views(lines@), pos as int) == Ok::<
                (StepView, int),
                ParseFailure,
            >((pair.0.deep_view(), pair.1 as int)) && pos <= pair.1 <= lines.len(),
            Err(e) => secret_at(first_line@, views(lines@), pos as int) == Err::<
                (StepView, int),
                ParseFailure,
            >(e.deep_view()),
        },
{
    let head = match find_char(first_line, '{') {
        Some(at) => subrange(first_line, 0, at),
        None => subrange(first_line, 0, first_line.len()),
    };
    assert(head@ =~= before_brace(first_line@));
    let tokens = split_whitespace(&head);
    if tokens.len() < 4 {
        return Err(invalid_syntax(first_line));
    }
    assert(views(tokens@)[0] == tokens[0]@);
    assert(views(tokens@)[1] == tokens[1]@);
    assert(views(tokens@)[2] == tokens[2]@);
    assert(views(tokens@)[3] == tokens[3]@);
    if !same_str(&tokens[0], "secret") || !same_str(&tokens[2], "from") {
        return Err(invalid_syntax(first_line));
    }
    let name = string_of(&tokens[1]);
    if same_str(&tokens[3], "env") {
        let (header, body) = match split_header_body(first_line) {
            Ok(pair) => pair,
            Err(e) => {
                return Err(e);
            },
        };
        if tokens.len() != 4 {
            return Err(invalid_syntax(first_line));
        }
        match parse_group_block(&body, lines, pos, true, "secret block") {
            Err(e) => Err(e),
            Ok((mappings, next)) => Ok(
                (SecretStep { name, source: SecretSource::Env { mappings } }, next),
            ),
        }
    } else if same_str(&tokens[3], "file") {
        match parse_secret_path(first_line) {
            Err(e) => Err(e),
            Ok(path) => Ok((SecretStep { name, source: SecretSource::File { path } }, pos)),
        }
    } else if same_str(&tokens[3], "vault") {
        match parse_secret_path(first_line) {
            Err(e) => Err(e),
            Ok(path) => Ok((SecretStep { name, source: SecretSource::Vault { path } }, pos)),
        }
    } else {
        Err(invalid_syntax(first_line))
    }
}

} // verus!
