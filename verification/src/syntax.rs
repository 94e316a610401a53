//! The grammar of values: quoting, literals, conditions and loop sources.
//! Each parser is specified by a spec function on the characters it reads.

use crate::assoc::inserted;
use crate::expression::{
    condition_ordered, decimal_of, is_decimal_notation, is_number_char, iterable_ordered,
    lemma_inserted_ordered, lemma_literal_array, lemma_literal_object, lemma_pushed_ordered,
    literal_ordered, Condition, ConditionExpr, ConditionOperand, Decimal, Iterable, Literal,
    LiteralValue, LoopIterable, Operand,
};
use crate::text::{
    chars_of, copy_chars, identifier, is_identifier, lemma_trimmed_len, match_at, matches_at,
    same_str, string_of, subrange, trim, trimmed, views,
};
use vstd::prelude::*;

verus! {

// ---------------------------------------------------------------------------
// Errors
// ---------------------------------------------------------------------------

/// Why a scenario text was refused.
#[derive(Debug)]
pub enum ParseError {
    /// A block was opened and the text ended before it was closed.
    UnexpectedEof(&'static str),
    /// The line begins with no known keyword.
    InvalidDirective(String),
    /// A known construct is malformed.
    InvalidSyntax(String),
    /// A required value is absent.
    MissingValue(&'static str),
}

/// The mathematical value of a `ParseError`.
pub enum ParseFailure {
    UnexpectedEof(Seq<char>),
    InvalidDirective(Seq<char>),
    InvalidSyntax(Seq<char>),
    MissingValue(Seq<char>),
}

impl DeepView for ParseError {
    type V = ParseFailure;

    open spec fn deep_view(&self) -> ParseFailure {
        match self {
            ParseError::UnexpectedEof(what) => ParseFailure::UnexpectedEof(what@),
            ParseError::InvalidDirective(line) => ParseFailure::InvalidDirective(line@),
            ParseError::InvalidSyntax(line) => ParseFailure::InvalidSyntax(line@),
            ParseError::MissingValue(what) => ParseFailure::MissingValue(what@),
        }
    }
}

/// The message of a failure.
pub open spec fn failure_text(failure: ParseFailure) -> Seq<char> {
    match failure {
        ParseFailure::UnexpectedEof(what) => "unexpected end of input while parsing "@ + what,
        ParseFailure::InvalidDirective(line) => "invalid directive: "@ + line,
        ParseFailure::InvalidSyntax(line) => "invalid syntax in line: "@ + line,
        ParseFailure::MissingValue(what) => "missing required value: "@ + what,
    }
}

impl ParseError {
    /// The message of the error.
    pub fn message(&self) -> (r: String)
        ensures
            r@ == failure_text(self.deep_view()),
    {
        let mut out: Vec<char> = Vec::new();
        match self {
            ParseError::UnexpectedEof(what) => {
                crate::text::append_str(&mut out, "unexpected end of input while parsing ");
                crate::text::append_str(&mut out, what);
            },
            ParseError::InvalidDirective(line) => {
                crate::text::append_str(&mut out, "invalid directive: ");
                crate::text::append_str(&mut out, line.as_str());
            },
            ParseError::InvalidSyntax(line) => {
                crate::text::append_str(&mut out, "invalid syntax in line: ");
                crate::text::append_str(&mut out, line.as_str());
            },
            ParseError::MissingValue(what) => {
                crate::text::append_str(&mut out, "missing required value: ");
                crate::text::append_str(&mut out, what);
            },
        }
        assert(out@ =~= failure_text(self.deep_view()));
        string_of(&out)
    }
}

/// The error for a malformed text.
pub fn invalid_syntax(line: &Vec<char>) -> (r: ParseError)
    ensures
        r.deep_view() == ParseFailure::InvalidSyntax(line@),
{
    ParseError::InvalidSyntax(string_of(line))
}

// ---------------------------------------------------------------------------
// Quoting
// ---------------------------------------------------------------------------

/// What stands between the quotes, where `s` begins and ends with `quote`
/// and the two are not the same character of `s`.
pub open spec fn unquoted(s: Seq<char>, quote: char) -> Option<Seq<char>> {
    if s.len() >= 2 && s[0] == quote && s.last() == quote {
        Some(s.subrange(1, s.len() - 1))
    } else {
        None
    }
}

/// What stands between the quotes of a text that begins and ends with `quote`.
pub fn unquote(v: &Vec<char>, quote: char) -> (r: Option<Vec<char>>)
    ensures
        match r {
            Some(inner) => unquoted(v@, quote) == Some(inner@),
            None => unquoted(v@, quote) is None,
        },
{
    if v.len() >= 2 && v[0] == quote && v[v.len() - 1] == quote {
        Some(subrange(v, 1, v.len() - 1))
    } else {
        None
    }
}

/// A value that may stand in quotes: the text between matching double or
/// single quotes, or the trimmed text itself where neither end is a quote.
/// A quote at one end only, or one kind of quote at the start and the other
/// at the end, is an error.
pub open spec fn quoted_value(value: Seq<char>) -> Result<Seq<char>, ParseFailure> {
    let t = trimmed(value);
    if t.len() == 0 {
        Ok(Seq::empty())
    } else if is_quote(t[0]) || is_quote(t.last()) {
        if t.len() >= 2 && t[0] == t.last() {
            Ok(t.subrange(1, t.len() - 1))
        } else {
            Err(ParseFailure::InvalidSyntax(value))
        }
    } else {
        Ok(t)
    }
}

/// Parses a value that may stand in quotes.
pub fn parse_quoted(value: &Vec<char>) -> (r: Result<String, ParseError>)
    ensures
        match r {
            Ok(text) => quoted_value(value@) == Ok::<Seq<char>, ParseFailure>(text@),
            Err(e) => quoted_value(value@) == Err::<Seq<char>, ParseFailure>(e.deep_view()),
        },
{
    let t = trim(value);
    if t.len() == 0 {
        assert(t@ =~= Seq::empty());
        return Ok(string_of(&t));
    }
    let first = t[0];
    let last = t[t.len() - 1];
    if first == '"' || first == '\'' || last == '"' || last == '\'' {
        if t.len() >= 2 && first == last {
            Ok(string_of(&subrange(&t, 1, t.len() - 1)))
        } else {
            Err(invalid_syntax(value))
        }
    } else {
        Ok(string_of(&t))
    }
}

// ---------------------------------------------------------------------------
// Splitting at the top level
// ---------------------------------------------------------------------------

/// The items with `item` behind them, unless it is empty.
pub open spec fn with_item(items: Seq<Seq<char>>, item: Seq<char>) -> Seq<Seq<char>> {
    if item.len() > 0 {
        items.push(item)
    } else {
        items
    }
}

/// A single or a double quote.
pub open spec fn is_quote(c: char) -> bool {
    c == '"' || c == '\''
}

/// The characters of `s` from `from` up to `to`; nothing where the two are
/// no range of `s`.
pub open spec fn piece(s: Seq<char>, from: int, to: int) -> Seq<char> {
    if 0 <= from <= to <= s.len() {
        s.subrange(from, to)
    } else {
        Seq::empty()
    }
}

/// The index behind the character that a backslash at `idx` hides; the end
/// of the text where nothing follows the backslash.
pub open spec fn after_escape(s: Seq<char>, idx: int) -> int {
    if idx + 2 <= s.len() {
        idx + 2
    } else {
        idx + 1
    }
}

/// One left-to-right pass over `s` from index `idx`, inside `depth` brackets
/// or braces and inside the quote `quote`, where the current item began at
/// `start` and `items` were cut off before. An item ends at a `delimiter`
/// outside brackets, braces and quotes; inside a quote a backslash hides the
/// character behind it. `None` where a bracket closes that was not opened,
/// or where the text ends inside a bracket or a quote.
pub open spec fn split_scan(
    s: Seq<char>,
    delimiter: char,
    idx: int,
    depth: int,
    quote: Option<char>,
    start: int,
    items: Seq<Seq<char>>,
) -> Option<Seq<Seq<char>>>
    decreases s.len() - idx,
{
    if idx < 0 || idx >= s.len() {
        if depth != 0 || quote is Some {
            None
        } else if 0 <= start < s.len() {
            Some(with_item(items, trimmed(s.skip(start))))
        } else {
            Some(items)
        }
    } else {
        let c = s[idx];
        match quote {
            Some(q) => if c == '\\' {
                split_scan(s, delimiter, after_escape(s, idx), depth, quote, start, items)
            } else if c == q {
                split_scan(s, delimiter, idx + 1, depth, None, start, items)
            } else {
                split_scan(s, delimiter, idx + 1, depth, quote, start, items)
            },
            None => if is_quote(c) {
                split_scan(s, delimiter, idx + 1, depth, Some(c), start, items)
            } else if c == '[' || c == '{' {
                split_scan(s, delimiter, idx + 1, depth + 1, None, start, items)
            } else if c == ']' || c == '}' {
                if depth <= 0 {
                    None
                } else {
                    split_scan(s, delimiter, idx + 1, depth - 1, None, start, items)
                }
            } else if c == delimiter && depth == 0 {
                split_scan(
                    s,
                    delimiter,
                    idx + 1,
                    depth,
                    None,
                    idx + 1,
                    with_item(items, trimmed(piece(s, start, idx))),
                )
            } else {
                split_scan(s, delimiter, idx + 1, depth, None, start, items)
            },
        }
    }
}

/// The trimmed, non-empty items of `s` between top-level delimiters.
pub open spec fn top_level_items(s: Seq<char>, delimiter: char) -> Option<Seq<Seq<char>>> {
    split_scan(s, delimiter, 0, 0, None, 0, Seq::empty())
}

/// The views of a list with one more item are the views of the list with the
/// view of the item.
pub proof fn lemma_views_push(v: Seq<Vec<char>>, item: Vec<char>)
    ensures
        views(v.push(item)) == views(v).push(item@),
{
    assert(views(v.push(item)) =~= views(v).push(item@));
}

/// The trimmed, non-empty items of a text between top-level delimiters.
pub fn split_top_level(input: &Vec<char>, delimiter: char) -> (r: Option<Vec<Vec<char>>>)
    ensures
        match r {
            Some(items) => top_level_items(input@, delimiter) == Some(views(items@)) && forall|
                i: int,
            |
                0 <= i < items.len() ==> (#[trigger] items[i])@.len() <= input@.len(),
            None => top_level_items(input@, delimiter) is None,
        },
{
    let mut items: Vec<Vec<char>> = Vec::new();
    let mut depth: usize = 0;
    let mut quote: Option<char> = None;
    let mut start: usize = 0;
    let mut idx: usize = 0;
    assert(views(items@) =~= Seq::empty());
    while idx < input.len()
        invariant
            0 <= start <= idx,
            depth <= idx,
            start <= input.len(),
            top_level_items(input@, delimiter) == split_scan(
                input@,
                delimiter,
                idx as int,
                depth as int,
                quote,
                start as int,
                views(items@),
            ),
            forall|i: int| 0 <= i < items.len() ==> (#[trigger] items[i])@.len() <= input@.len(),
        decreases input.len() - idx,
    {
        let c = input[idx];
        match quote {
            Some(q) => {
                if c == '\\' {
                    if idx + 1 < input.len() {
                        idx += 2;
                    } else {
                        // the text ends behind the backslash, inside the quote
                        assert(split_scan(
                            input@,
                            delimiter,
                            idx + 1,
                            depth as int,
                            quote,
                            start as int,
                            views(items@),
                        ) is None);
                        return None;
                    }
                } else {
                    if c == q {
                        quote = None;
                    }
                    idx += 1;
                }
            },
            None => {
                if c == '"' || c == '\'' {
                    quote = Some(c);
                } else if c == '[' || c == '{' {
                    depth += 1;
                } else if c == ']' || c == '}' {
                    if depth == 0 {
                        return None;
                    }
                    depth -= 1;
                } else if c == delimiter && depth == 0 {
                    let piece = subrange(input, start, idx);
                    let item = trim(&piece);
                    proof {
                        lemma_trimmed_len(piece@);
                    }
                    if item.len() > 0 {
                        proof {
                            lemma_views_push(items@, item);
                        }
                        items.push(item);
                    }
                    start = idx + 1;
                }
                idx += 1;
            },
        }
    }
    if depth != 0 || quote.is_some() {
        return None;
    }
    if start < input.len() {
        let piece = subrange(input, start, input.len());
        let item = trim(&piece);
        proof {
            lemma_trimmed_len(piece@);
        }
        if item.len() > 0 {
            proof {
                lemma_views_push(items@, item);
            }
            items.push(item);
        }
    }
    Some(items)
}

/// One pass over `s` from index `idx` for the colon that parts a key from
/// its value: the first one outside brackets, braces and quotes. Inside a
/// quote a backslash hides the character behind it.
pub open spec fn colon_scan(s: Seq<char>, idx: int, depth: int, quote: Option<char>) -> Option<int>
    decreases s.len() - idx,
{
    if idx < 0 || idx >= s.len() {
        None
    } else {
        let c = s[idx];
        match quote {
            Some(q) => if c == '\\' {
                colon_scan(s, after_escape(s, idx), depth, quote)
            } else if c == q {
                colon_scan(s, idx + 1, depth, None)
            } else {
                colon_scan(s, idx + 1, depth, quote)
            },
            None => if is_quote(c) {
                colon_scan(s, idx + 1, depth, Some(c))
            } else if c == '[' || c == '{' {
                colon_scan(s, idx + 1, depth + 1, None)
            } else if c == ']' || c == '}' {
                colon_scan(s, idx + 1, depth - 1, None)
            } else if c == ':' && depth == 0 {
                Some(idx)
            } else {
                colon_scan(s, idx + 1, depth, None)
            },
        }
    }
}

/// The key and the value of an entry `key: value`, both trimmed.
pub open spec fn key_and_value(entry: Seq<char>) -> Result<(Seq<char>, Seq<char>), ParseFailure> {
    match colon_scan(entry, 0, 0, None) {
        Some(at) => if 0 <= at < entry.len() {
            Ok((trimmed(entry.take(at)), trimmed(entry.skip(at + 1))))
        } else {
            Err(ParseFailure::InvalidSyntax(entry))
        },
        None => Err(ParseFailure::InvalidSyntax(entry)),
    }
}

/// The key and the value of an entry `key: value`.
pub fn split_key_value(entry: &Vec<char>) -> (r: Result<(Vec<char>, Vec<char>), ParseError>)
    ensures
        match r {
            Ok(pair) => key_and_value(entry@) == Ok::<(Seq<char>, Seq<char>), ParseFailure>(
                (pair.0@, pair.1@),
            ) && pair.0@.len() <= entry@.len() && pair.1@.len() <= entry@.len(),
            Err(e) => key_and_value(entry@) == Err::<(Seq<char>, Seq<char>), ParseFailure>(
                e.deep_view(),
            ),
        },
{
    let mut depth: i128 = 0;
    let mut quote: Option<char> = None;
    let mut idx: usize = 0;
    while idx < entry.len()
        invariant
            idx <= entry.len(),
            -(idx as int) <= depth <= idx as int,
            colon_scan(entry@, 0, 0, None) == colon_scan(entry@, idx as int, depth as int, quote),
        decreases entry.len() - idx,
    {
        let c = entry[idx];
        match quote {
            Some(q) => {
                if c == '\\' {
                    if idx + 1 < entry.len() {
                        idx += 1;
                    }
                } else if c == q {
                    quote = None;
                }
            },
            None => {
                if c == '"' || c == '\'' {
                    quote = Some(c);
                } else if c == '[' || c == '{' {
                    depth += 1;
                } else if c == ']' || c == '}' {
                    depth -= 1;
                } else if c == ':' && depth == 0 {
                    let left = subrange(entry, 0, idx);
                    let right = subrange(entry, idx + 1, entry.len());
                    proof {
                        lemma_trimmed_len(left@);
                        lemma_trimmed_len(right@);
                    }
                    return Ok((trim(&left), trim(&right)));
                }
            },
        }
        idx += 1;
    }
    Err(invalid_syntax(entry))
}

/// The key of an object entry: text in matching quotes, or a bare word.
pub open spec fn object_key(raw: Seq<char>) -> Result<Seq<char>, ParseFailure> {
    match unquoted(raw, '"') {
        Some(inner) => Ok(inner),
        None => match unquoted(raw, '\'') {
            Some(inner) => Ok(inner),
            None => if is_identifier(raw) {
                Ok(raw)
            } else {
                Err(ParseFailure::InvalidSyntax(raw))
            },
        },
    }
}

/// Parses the key of an object entry.
pub fn parse_object_key(raw: &Vec<char>) -> (r: Result<String, ParseError>)
    ensures
        match r {
            Ok(key) => object_key(raw@) == Ok::<Seq<char>, ParseFailure>(key@),
            Err(e) => object_key(raw@) == Err::<Seq<char>, ParseFailure>(e.deep_view()),
        },
{
    match unquote(raw, '"') {
        Some(inner) => Ok(string_of(&inner)),
        None => match unquote(raw, '\'') {
            Some(inner) => Ok(string_of(&inner)),
            None => if identifier(raw) {
                Ok(string_of(raw))
            } else {
                Err(invalid_syntax(raw))
            },
        },
    }
}

// ---------------------------------------------------------------------------
// Literals
// ---------------------------------------------------------------------------

/// Whether every character is a digit, a point or a sign.
pub open spec fn all_number_chars(s: Seq<char>) -> bool {
    forall|i: int| 0 <= i < s.len() ==> is_number_char(#[trigger] s[i])
}

/// Whether every character is a digit, a point or a sign.
pub fn only_number_chars(v: &Vec<char>) -> (r: bool)
    ensures
        r == all_number_chars(v@),
{
    let mut i: usize = 0;
    while i < v.len()
        invariant
            i <= v.len(),
            forall|k: int| 0 <= k < i ==> is_number_char(#[trigger] v@[k]),
        decreases v.len() - i,
    {
        let c = v[i];
        if !(crate::text::digit(c) || c == '.' || c == '-' || c == '+') {
            return false;
        }
        i += 1;
    }
    true
}

/// The literal that `value` denotes. In this order: nothing is the empty
/// string; `[` opens an array; `{` opens an object; `true` and `false`; a
/// number made of digits, points and signs; text in matching quotes; any
/// other text is a string as it stands.
pub open spec fn literal_of(value: Seq<char>) -> Result<Literal, ParseFailure>
    decreases value.len(), 2nat, 0nat,
{
    let t = trimmed(value);
    if t.len() == 0 {
        Ok(Literal::Text(Seq::empty()))
    } else if t[0] == '[' {
        proof {
            lemma_trimmed_len(value);
        }
        array_of(t)
    } else if t[0] == '{' {
        proof {
            lemma_trimmed_len(value);
        }
        object_of(t)
    } else if t == "true"@ {
        Ok(Literal::Boolean(true))
    } else if t == "false"@ {
        Ok(Literal::Boolean(false))
    } else if all_number_chars(t) && is_decimal_notation(t) {
        Ok(Literal::Number(decimal_of(t)))
    } else {
        match unquoted(t, '"') {
            Some(inner) => Ok(Literal::Text(inner)),
            None => match unquoted(t, '\'') {
                Some(inner) => Ok(Literal::Text(inner)),
                None => Ok(Literal::Text(t)),
            },
        }
    }
}

/// The array of the items, or their failure.
pub open spec fn list_result(items: Result<Seq<Literal>, ParseFailure>) -> Result<
    Literal,
    ParseFailure,
> {
    match items {
        Ok(values) => Ok(Literal::List(values)),
        Err(e) => Err(e),
    }
}

/// The object of the members, or their failure.
pub open spec fn record_result(members: Result<Seq<(Seq<char>, Literal)>, ParseFailure>) -> Result<
    Literal,
    ParseFailure,
> {
    match members {
        Ok(values) => Ok(Literal::Record(values)),
        Err(e) => Err(e),
    }
}

/// The array that `value`, which begins with `[`, denotes.
pub open spec fn array_of(value: Seq<char>) -> Result<Literal, ParseFailure>
    decreases value.len(), 1nat, 0nat,
{
    if value.len() < 2 || value.last() != ']' {
        Err(ParseFailure::InvalidSyntax(value))
    } else {
        let inner = value.subrange(1, value.len() - 1);
        match top_level_items(inner, ',') {
            None => Err(ParseFailure::InvalidSyntax(inner)),
            Some(items) => list_result(array_items(items, 0, value.len(), Seq::empty())),
        }
    }
}

/// The literals of the items from index `i` on, behind `done`. Each item is
/// shorter than `bound`.
pub open spec fn array_items(items: Seq<Seq<char>>, i: int, bound: nat, done: Seq<Literal>) -> Result<
    Seq<Literal>,
    ParseFailure,
>
    decreases bound, 0nat, items.len() - i,
{
    if i < 0 || i >= items.len() {
        Ok(done)
    } else {
        let t = trimmed(items[i]);
        if t.len() == 0 || t.len() >= bound {
            array_items(items, i + 1, bound, done)
        } else {
            match literal_of(t) {
                Ok(value) => array_items(items, i + 1, bound, done.push(value)),
                Err(e) => Err(e),
            }
        }
    }
}

/// The object that `value`, which begins with `{`, denotes.
pub open spec fn object_of(value: Seq<char>) -> Result<Literal, ParseFailure>
    decreases value.len(), 1nat, 0nat,
{
    if value.len() < 2 || value.last() != '}' {
        Err(ParseFailure::InvalidSyntax(value))
    } else {
        let inner = value.subrange(1, value.len() - 1);
        match top_level_items(inner, ',') {
            None => Err(ParseFailure::InvalidSyntax(inner)),
            Some(entries) => record_result(object_entries(entries, 0, value.len(), Seq::empty())),
        }
    }
}

/// The members of the entries from index `i` on, stored into `done`. Each
/// value is shorter than `bound`.
pub open spec fn object_entries(
    entries: Seq<Seq<char>>,
    i: int,
    bound: nat,
    done: Seq<(Seq<char>, Literal)>,
) -> Result<Seq<(Seq<char>, Literal)>, ParseFailure>
    decreases bound, 0nat, entries.len() - i,
{
    if i < 0 || i >= entries.len() {
        Ok(done)
    } else {
        let t = trimmed(entries[i]);
        if t.len() == 0 {
            object_entries(entries, i + 1, bound, done)
        } else {
            match key_and_value(t) {
                Err(e) => Err(e),
                Ok((raw_key, raw_value)) => match object_key(raw_key) {
                    Err(e) => Err(e),
                    Ok(key) => if raw_value.len() >= bound {
                        object_entries(entries, i + 1, bound, done)
                    } else {
                        match literal_of(raw_value) {
                            Err(e) => Err(e),
                            Ok(value) => object_entries(
                                entries,
                                i + 1,
                                bound,
                                inserted(done, key, value),
                            ),
                        }
                    },
                },
            }
        }
    }
}

/// A literal that was read from text is ordered: the members of its objects
/// stand in the order of their keys, each key once.
pub proof fn lemma_literal_of_ordered(value: Seq<char>)
    ensures
        match literal_of(value) {
            Ok(literal) => literal_ordered(literal),
            Err(_) => true,
        },
    decreases value.len(), 2nat, 0nat,
{
    let t = trimmed(value);
    lemma_trimmed_len(value);
    if t.len() >= 2 && t[0] == '[' && t.last() == ']' {
        let inner = t.subrange(1, t.len() - 1);
        if let Some(items) = top_level_items(inner, ',') {
            lemma_array_items_ordered(items, 0, t.len(), Seq::empty());
        }
    } else if t.len() >= 2 && t[0] == '{' && t.last() == '}' {
        let inner = t.subrange(1, t.len() - 1);
        if let Some(entries) = top_level_items(inner, ',') {
            lemma_object_entries_ordered(entries, 0, t.len(), Seq::empty());
        }
    }
}

proof fn lemma_array_items_ordered(items: Seq<Seq<char>>, i: int, bound: nat, done: Seq<Literal>)
    requires
        literal_ordered(Literal::List(done)),
    ensures
        match array_items(items, i, bound, done) {
            Ok(values) => literal_ordered(Literal::List(values)),
            Err(_) => true,
        },
    decreases bound, 0nat, items.len() - i,
{
    if 0 <= i < items.len() {
        let t = trimmed(items[i]);
        if t.len() == 0 || t.len() >= bound {
            lemma_array_items_ordered(items, i + 1, bound, done);
        } else {
            lemma_literal_of_ordered(t);
            if let Ok(value) = literal_of(t) {
                lemma_pushed_ordered(done, value);
                lemma_array_items_ordered(items, i + 1, bound, done.push(value));
            }
        }
    }
}

proof fn lemma_object_entries_ordered(
    entries: Seq<Seq<char>>,
    i: int,
    bound: nat,
    done: Seq<(Seq<char>, Literal)>,
)
    requires
        literal_ordered(Literal::Record(done)),
    ensures
        match object_entries(entries, i, bound, done) {
            Ok(values) => literal_ordered(Literal::Record(values)),
            Err(_) => true,
        },
    decreases bound, 0nat, entries.len() - i,
{
    if 0 <= i < entries.len() {
        let t = trimmed(entries[i]);
        if t.len() == 0 {
            lemma_object_entries_ordered(entries, i + 1, bound, done);
        } else if let Ok((raw_key, raw_value)) = key_and_value(t) {
            if let Ok(key) = object_key(raw_key) {
                if raw_value.len() >= bound {
                    lemma_object_entries_ordered(entries, i + 1, bound, done);
                } else {
                    lemma_literal_of_ordered(raw_value);
                    if let Ok(value) = literal_of(raw_value) {
                        lemma_inserted_ordered(done, key, value);
                        lemma_object_entries_ordered(
                            entries,
                            i + 1,
                            bound,
                            inserted(done, key, value),
                        );
                    }
                }
            }
        }
    }
}

/// Parses a literal.
pub fn parse_literal(value: &Vec<char>) -> (r: Result<LiteralValue, ParseError>)
    ensures
        match r {
            Ok(v) => literal_of(value@) == Ok::<Literal, ParseFailure>(v.deep_view()),
            Err(e) => literal_of(value@) == Err::<Literal, ParseFailure>(e.deep_view()),
        },
    decreases value@.len(), 2nat,
{
    let t = trim(value);
    proof {
        lemma_trimmed_len(value@);
    }
    if t.len() == 0 {
        assert(t@ =~= Seq::empty());
        return Ok(LiteralValue::String(string_of(&t)));
    }
    if t[0] == '[' {
        return parse_array_literal(&t);
    }
    if t[0] == '{' {
        return parse_object_literal(&t);
    }
    if same_str(&t, "true") {
        return Ok(LiteralValue::Boolean(true));
    }
    if same_str(&t, "false") {
        return Ok(LiteralValue::Boolean(false));
    }
    if only_number_chars(&t) {
        match Decimal::parse(&t) {
            Some(number) => {
                return Ok(LiteralValue::Number(number));
            },
            None => {},
        }
    }
    match crate::syntax::unquote(&t, '"') {
        Some(inner) => Ok(LiteralValue::String(string_of(&inner))),
        None => match crate::syntax::unquote(&t, '\'') {
            Some(inner) => Ok(LiteralValue::String(string_of(&inner))),
            None => Ok(LiteralValue::String(string_of(&t))),
        },
    }
}

/// Parses an array, which begins with `[`.
pub fn parse_array_literal(value: &Vec<char>) -> (r: Result<LiteralValue, ParseError>)
    ensures
        match r {
            Ok(v) => array_of(value@) == Ok::<Literal, ParseFailure>(v.deep_view()),
            Err(e) => array_of(value@) == Err::<Literal, ParseFailure>(e.deep_view()),
        },
    decreases value@.len(), 1nat,
{
    if value.len() < 2 || value[value.len() - 1] != ']' {
        return Err(invalid_syntax(value));
    }
    let inner = subrange(value, 1, value.len() - 1);
    let items = match split_top_level(&inner, ',') {
        Some(items) => items,
        None => {
            return Err(invalid_syntax(&inner));
        },
    };
    let mut out: Vec<LiteralValue> = Vec::new();
    let mut i: usize = 0;
    assert(out.deep_view() =~= Seq::empty());
    while i < items.len()
        invariant
            i <= items.len(),
            inner@.len() + 2 == value@.len(),
            forall|k: int| 0 <= k < items.len() ==> (#[trigger] items[k])@.len() <= inner@.len(),
            array_of(value@) == list_result(
                array_items(views(items@), 0, value@.len(), Seq::empty()),
            ),
            array_items(views(items@), 0, value@.len(), Seq::empty()) == array_items(
                views(items@),
                i as int,
                value@.len(),
                out.deep_view(),
            ),
        decreases items.len() - i,
    {
        let t = trim(&items[i]);
        proof {
            lemma_trimmed_len(items[i as int]@);
            assert(views(items@)[i as int] == items[i as int]@);
        }
        if t.len() > 0 {
            match parse_literal(&t) {
                Ok(item) => {
                    let ghost before = out.deep_view();
                    out.push(item);
                    assert(out.deep_view() =~= before.push(item.deep_view()));
                },
                Err(e) => {
                    return Err(e);
                },
            }
        }
        i += 1;
    }
    proof {
        lemma_literal_array(out);
    }
    Ok(LiteralValue::Array(out))
}

/// Parses an object, which begins with `{`.
pub fn parse_object_literal(value: &Vec<char>) -> (r: Result<LiteralValue, ParseError>)
    ensures
        match r {
            Ok(v) => object_of(value@) == Ok::<Literal, ParseFailure>(v.deep_view()),
            Err(e) => object_of(value@) == Err::<Literal, ParseFailure>(e.deep_view()),
        },
    decreases value@.len(), 1nat,
{
    if value.len() < 2 || value[value.len() - 1] != '}' {
        return Err(invalid_syntax(value));
    }
    let inner = subrange(value, 1, value.len() - 1);
    let entries = match split_top_level(&inner, ',') {
        Some(entries) => entries,
        None => {
            return Err(invalid_syntax(&inner));
        },
    };
    let mut out: Vec<(String, LiteralValue)> = Vec::new();
    let mut i: usize = 0;
    assert(out.deep_view() =~= Seq::empty());
    while i < entries.len()
        invariant
            i <= entries.len(),
            inner@.len() + 2 == value@.len(),
            forall|k: int|
                0 <= k < entries.len() ==> (#[trigger] entries[k])@.len() <= inner@.len(),
            object_of(value@) == record_result(
                object_entries(views(entries@), 0, value@.len(), Seq::empty()),
            ),
            object_entries(views(entries@), 0, value@.len(), Seq::empty()) == object_entries(
                views(entries@),
                i as int,
                value@.len(),
                out.deep_view(),
            ),
        decreases entries.len() - i,
    {
        let t = trim(&entries[i]);
        proof {
            lemma_trimmed_len(entries[i as int]@);
            assert(views(entries@)[i as int] == entries[i as int]@);
        }
        if t.len() > 0 {
            let (raw_key, raw_value) = match split_key_value(&t) {
                Ok(pair) => pair,
                Err(e) => {
                    return Err(e);
                },
            };
            let key = match parse_object_key(&raw_key) {
                Ok(key) => key,
                Err(e) => {
                    return Err(e);
                },
            };
            match parse_literal(&raw_value) {
                Ok(item) => {
                    crate::assoc::insert(&mut out, key, item);
                },
                Err(e) => {
                    return Err(e);
                },
            }
        }
        i += 1;
    }
    proof {
        lemma_literal_object(out);
    }
    Ok(LiteralValue::Object(out))
}

/// The literal that a text denotes.
pub fn parse_literal_expression(value: &str) -> (r: Result<LiteralValue, ParseError>)
    ensures
        match r {
            Ok(v) => literal_of(value@) == Ok::<Literal, ParseFailure>(v.deep_view()),
            Err(e) => literal_of(value@) == Err::<Literal, ParseFailure>(e.deep_view()),
        },
        r matches Ok(v) ==> literal_ordered(v.deep_view()),
{
    proof {
        lemma_literal_of_ordered(value@);
    }
    let chars = chars_of(value);
    parse_literal(&chars)
}

// ---------------------------------------------------------------------------
// Conditions
// ---------------------------------------------------------------------------

/// One pass over `s` from index `idx` for the first place where `operator`
/// stands outside brackets, braces, parentheses and quotes.
pub open spec fn operator_scan(
    s: Seq<char>,
    operator: Seq<char>,
    idx: int,
    depth: int,
    quote: Option<char>,
) -> Option<int>
    decreases s.len() - idx,
{
    if idx < 0 || operator.len() == 0 || idx + operator.len() > s.len() {
        None
    } else {
        let c = s[idx];
        match quote {
            Some(q) => if c == '\\' {
                operator_scan(s, operator, after_escape(s, idx), depth, quote)
            } else if c == q {
                operator_scan(s, operator, idx + 1, depth, None)
            } else {
                operator_scan(s, operator, idx + 1, depth, quote)
            },
            None => if is_quote(c) {
                operator_scan(s, operator, idx + 1, depth, Some(c))
            } else if c == '[' || c == '{' || c == '(' {
                operator_scan(s, operator, idx + 1, depth + 1, None)
            } else if c == ']' || c == '}' || c == ')' {
                operator_scan(s, operator, idx + 1, depth - 1, None)
            } else if depth == 0 && matches_at(s, operator, idx) {
                Some(idx)
            } else {
                operator_scan(s, operator, idx + 1, depth, None)
            },
        }
    }
}

/// The first place where `operator` stands at the top level of `s`.
pub open spec fn operator_position(s: Seq<char>, operator: Seq<char>) -> Option<int> {
    operator_scan(s, operator, 0, 0, None)
}

/// The first place where `operator` stands at the top level of a text.
pub fn find_operator(input: &Vec<char>, operator: &str) -> (r: Option<usize>)
    ensures
        match r {
            Some(at) => operator_position(input@, operator@) == Some(at as int) && at
                + operator@.len() <= input@.len(),
            None => operator_position(input@, operator@) is None,
        },
{
    let op = chars_of(operator);
    if op.len() == 0 || op.len() > input.len() {
        return None;
    }
    let last: usize = input.len() - op.len();
    let mut depth: i128 = 0;
    let mut quote: Option<char> = None;
    let mut idx: usize = 0;
    while idx <= last
        invariant
            op@ == operator@,
            op.len() > 0,
            last == input.len() - op.len(),
            -(idx as int) <= depth <= idx as int,
            operator_position(input@, operator@) == operator_scan(
                input@,
                operator@,
                idx as int,
                depth as int,
                quote,
            ),
        decreases input.len() - idx,
    {
        let c = input[idx];
        match quote {
            Some(q) => {
                if c == '\\' {
                    if idx + 1 < input.len() {
                        idx += 2;
                    } else {
                        assert(operator_scan(input@, operator@, idx + 1, depth as int, quote)
                            is None);
                        return None;
                    }
                } else {
                    if c == q {
                        quote = None;
                    }
                    idx += 1;
                }
            },
            None => {
                if c == '"' || c == '\'' {
                    quote = Some(c);
                } else if c == '[' || c == '{' || c == '(' {
                    depth += 1;
                } else if c == ']' || c == '}' || c == ')' {
                    depth -= 1;
                } else if depth == 0 && match_at(input, &op, idx) {
                    return Some(idx);
                }
                idx += 1;
            },
        }
    }
    None
}

/// One side of a comparison: a bare word is a variable, anything else a
/// literal.
pub open spec fn operand_of(value: Seq<char>) -> Result<Operand, ParseFailure> {
    let t = trimmed(value);
    if t.len() == 0 {
        Err(ParseFailure::InvalidSyntax(value))
    } else if is_identifier(t) {
        Ok(Operand::Variable(t))
    } else {
        match literal_of(t) {
            Ok(literal) => Ok(Operand::Literal(literal)),
            Err(e) => Err(e),
        }
    }
}

/// Parses one side of a comparison.
pub fn parse_condition_operand(value: &Vec<char>) -> (r: Result<ConditionOperand, ParseError>)
    ensures
        match r {
            Ok(v) => operand_of(value@) == Ok::<Operand, ParseFailure>(v.deep_view()),
            Err(e) => operand_of(value@) == Err::<Operand, ParseFailure>(e.deep_view()),
        },
{
    let t = trim(value);
    if t.len() == 0 {
        return Err(invalid_syntax(value));
    }
    if identifier(&t) {
        Ok(ConditionOperand::Variable(string_of(&t)))
    } else {
        match parse_literal(&t) {
            Ok(literal) => Ok(ConditionOperand::Literal(literal)),
            Err(e) => Err(e),
        }
    }
}

/// The two sides of a comparison.
pub open spec fn operands_of(left: Seq<char>, right: Seq<char>) -> Result<
    (Operand, Operand),
    ParseFailure,
> {
    match operand_of(left) {
        Err(e) => Err(e),
        Ok(l) => match operand_of(right) {
            Err(e) => Err(e),
            Ok(r) => Ok((l, r)),
        },
    }
}

/// The condition that `expr` denotes. In this order: a comparison at the
/// first top-level `==`, else at the first top-level `!=`; a leading `!`
/// negates what follows; `true` and `false`; a bare word is a variable.
pub open spec fn condition_of(expr: Seq<char>) -> Result<Condition, ParseFailure>
    decreases expr.len(),
{
    let t = trimmed(expr);
    if t.len() == 0 {
        Err(ParseFailure::InvalidSyntax(expr))
    } else {
        match operator_position(t, "=="@) {
            Some(at) => match operands_of(t.take(at), t.skip(at + 2)) {
                Ok((l, r)) => Ok(Condition::Equals(l, r)),
                Err(e) => Err(e),
            },
            None => match operator_position(t, "!="@) {
                Some(at) => match operands_of(t.take(at), t.skip(at + 2)) {
                    Ok((l, r)) => Ok(Condition::NotEquals(l, r)),
                    Err(e) => Err(e),
                },
                None => if t[0] == '!' {
                    proof {
                        lemma_trimmed_len(expr);
                        lemma_trimmed_len(t.skip(1));
                    }
                    match condition_of(trimmed(t.skip(1))) {
                        Ok(inner) => Ok(Condition::Not(Box::new(inner))),
                        Err(e) => Err(e),
                    }
                } else if t == "true"@ {
                    Ok(Condition::Literal(true))
                } else if t == "false"@ {
                    Ok(Condition::Literal(false))
                } else if is_identifier(t) {
                    Ok(Condition::Variable(t))
                } else {
                    match literal_of(t) {
                        Ok(Literal::Boolean(b)) => Ok(Condition::Literal(b)),
                        _ => Err(ParseFailure::InvalidSyntax(t)),
                    }
                },
            },
        }
    }
}

/// A condition that was read from text compares ordered literals.
pub proof fn lemma_condition_of_ordered(expr: Seq<char>)
    ensures
        match condition_of(expr) {
            Ok(condition) => condition_ordered(condition),
            Err(_) => true,
        },
    decreases expr.len(),
{
    let t = trimmed(expr);
    if t.len() > 0 {
        match operator_position(t, "=="@) {
            Some(at) => {
                lemma_literal_of_ordered(trimmed(t.take(at)));
                lemma_literal_of_ordered(trimmed(t.skip(at + 2)));
            },
            None => match operator_position(t, "!="@) {
                Some(at) => {
                    lemma_literal_of_ordered(trimmed(t.take(at)));
                    lemma_literal_of_ordered(trimmed(t.skip(at + 2)));
                },
                None => if t[0] == '!' {
                    lemma_trimmed_len(expr);
                    lemma_trimmed_len(t.skip(1));
                    lemma_condition_of_ordered(trimmed(t.skip(1)));
                },
            },
        }
    }
}

/// Parses the two sides of a comparison whose operator stands at `at`.
pub fn parse_comparison(t: &Vec<char>, at: usize) -> (r: Result<
    (ConditionOperand, ConditionOperand),
    ParseError,
>)
    requires
        at + 2 <= t@.len(),
    ensures
        match r {
            Ok(pair) => operands_of(t@.take(at as int), t@.skip(at + 2)) == Ok::<
                (Operand, Operand),
                ParseFailure,
            >((pair.0.deep_view(), pair.1.deep_view())),
            Err(e) => operands_of(t@.take(at as int), t@.skip(at + 2)) == Err::<
                (Operand, Operand),
                ParseFailure,
            >(e.deep_view()),
        },
{
    let n = t.len();
    let left = subrange(t, 0, at);
    let right = subrange(t, at + 2, n);
    let l = match parse_condition_operand(&left) {
        Ok(l) => l,
        Err(e) => {
            return Err(e);
        },
    };
    let r = match parse_condition_operand(&right) {
        Ok(r) => r,
        Err(e) => {
            return Err(e);
        },
    };
    Ok((l, r))
}

/// Parses a condition.
pub fn parse_condition_expr(expr: &Vec<char>) -> (r: Result<ConditionExpr, ParseError>)
    ensures
        match r {
            Ok(v) => condition_of(expr@) == Ok::<Condition, ParseFailure>(v.deep_view()),
            Err(e) => condition_of(expr@) == Err::<Condition, ParseFailure>(e.deep_view()),
        },
    decreases expr@.len(),
{
    let t = trim(expr);
    if t.len() == 0 {
        return Err(invalid_syntax(expr));
    }
    proof {
        reveal_strlit("==");
        reveal_strlit("!=");
    }
    match find_operator(&t, "==") {
        Some(at) => {
            return match parse_comparison(&t, at) {
                Ok((l, r)) => Ok(ConditionExpr::Equals(l, r)),
                Err(e) => Err(e),
            };
        },
        None => {},
    }
    match find_operator(&t, "!=") {
        Some(at) => {
            return match parse_comparison(&t, at) {
                Ok((l, r)) => Ok(ConditionExpr::NotEquals(l, r)),
                Err(e) => Err(e),
            };
        },
        None => {},
    }
    if t[0] == '!' {
        let rest = trim(&subrange(&t, 1, t.len()));
        proof {
            lemma_trimmed_len(expr@);
            lemma_trimmed_len(t@.skip(1));
        }
        return match parse_condition_expr(&rest) {
            Ok(inner) => Ok(ConditionExpr::Not(Box::new(inner))),
            Err(e) => Err(e),
        };
    }
    if same_str(&t, "true") {
        return Ok(ConditionExpr::Literal(true));
    }
    if same_str(&t, "false") {
        return Ok(ConditionExpr::Literal(false));
    }
    if identifier(&t) {
        return Ok(ConditionExpr::Variable(string_of(&t)));
    }
    match parse_literal(&t) {
        Ok(LiteralValue::Boolean(b)) => Ok(ConditionExpr::Literal(b)),
        _ => Err(invalid_syntax(&t)),
    }
}

/// What a `for` walks over: a bare word is a variable, anything else a
/// literal.
pub open spec fn iterable_of(value: Seq<char>) -> Result<Iterable, ParseFailure> {
    if is_identifier(value) {
        Ok(Iterable::Variable(value))
    } else {
        match literal_of(value) {
            Ok(literal) => Ok(Iterable::Literal(literal)),
            Err(e) => Err(e),
        }
    }
}

/// What a loop header names to walk over is a variable or an ordered
/// literal.
pub proof fn lemma_iterable_of_ordered(value: Seq<char>)
    ensures
        match iterable_of(value) {
            Ok(iterable) => iterable_ordered(iterable),
            Err(_) => true,
        },
{
    lemma_literal_of_ordered(value);
}

/// Parses what a loop walks over.
pub fn parse_loop_iterable(value: &Vec<char>) -> (r: Result<LoopIterable, ParseError>)
    ensures
        match r {
            Ok(v) => iterable_of(value@) == Ok::<Iterable, ParseFailure>(v.deep_view()),
            Err(e) => iterable_of(value@) == Err::<Iterable, ParseFailure>(e.deep_view()),
        },
{
    if identifier(value) {
        Ok(LoopIterable::Variable(string_of(&copy_chars(value))))
    } else {
        match parse_literal(value) {
            Ok(literal) => Ok(LoopIterable::Literal(literal)),
            Err(e) => Err(e),
        }
    }
}

} // verus!
