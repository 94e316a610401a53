//! Literal values, condition expressions and loop sources, with their
//! mathematical views and their display forms.

use crate::json::{
    compact_text, json_compact, lemma_array_view, lemma_object_view, Json, JsonView,
};
use crate::text::{
    append, append_str, chars_of, copy_chars, find_char, is_digit, same, string_of,
};
use vstd::prelude::*;

verus! {

// ---------------------------------------------------------------------------
// Numbers
// ---------------------------------------------------------------------------

/// A number, held as its decimal notation: an optional `-`, the digits of
/// the whole part without leading zeros, and, after a `.`, the digits of the
/// fraction without trailing zeros. Zero is `0`.
#[derive(Debug)]
pub struct Decimal {
    pub text: String,
}

impl DeepView for Decimal {
    type V = Seq<char>;

    open spec fn deep_view(&self) -> Seq<char> {
        self.text@
    }
}

/// A digit, a point or a sign.
pub open spec fn is_number_char(c: char) -> bool {
    is_digit(c) || c == '.' || c == '-' || c == '+'
}

/// Whether every character is a decimal digit.
pub open spec fn all_digits(s: Seq<char>) -> bool {
    forall|i: int| 0 <= i < s.len() ==> is_digit(#[trigger] s[i])
}

/// Whether a notation begins with a sign.
pub open spec fn has_sign(s: Seq<char>) -> bool {
    s.len() > 0 && (s[0] == '+' || s[0] == '-')
}

/// The notation without its sign.
pub open spec fn unsigned_part(s: Seq<char>) -> Seq<char> {
    if has_sign(s) {
        s.skip(1)
    } else {
        s
    }
}

/// The digits before the point.
pub open spec fn whole_digits(body: Seq<char>) -> Seq<char> {
    match crate::text::index_of_char(body, '.') {
        Some(k) => if 0 <= k <= body.len() {
            body.take(k)
        } else {
            body
        },
        None => body,
    }
}

/// The digits after the point.
pub open spec fn fraction_digits(body: Seq<char>) -> Seq<char> {
    match crate::text::index_of_char(body, '.') {
        Some(k) => if 0 <= k < body.len() {
            body.skip(k + 1)
        } else {
            Seq::empty()
        },
        None => Seq::empty(),
    }
}

/// Whether `s` is the notation of a number: an optional sign, then digits
/// with at most one point among them, and at least one digit.
pub open spec fn is_decimal_notation(s: Seq<char>) -> bool {
    let body = unsigned_part(s);
    all_digits(whole_digits(body)) && all_digits(fraction_digits(body)) && whole_digits(body).len()
        + fraction_digits(body).len() > 0
}

/// The first index at or after `i` that does not hold `c`.
pub open spec fn skip_char(s: Seq<char>, c: char, i: int) -> int
    decreases s.len() - i,
{
    if 0 <= i < s.len() && s[i] == c {
        skip_char(s, c, i + 1)
    } else {
        i
    }
}

/// The digits without leading zeros; `0` where nothing is left.
pub open spec fn whole_canonical(digits: Seq<char>) -> Seq<char> {
    let from = skip_char(digits, '0', 0);
    if 0 <= from < digits.len() {
        digits.skip(from)
    } else {
        seq!['0']
    }
}

/// The fraction without trailing zeros, behind its point; nothing where no
/// digit is left.
pub open spec fn fraction_canonical(digits: Seq<char>) -> Seq<char> {
    let kept = crate::text::without_trailing(digits, '0');
    if kept.len() > 0 {
        seq!['.'] + kept
    } else {
        Seq::empty()
    }
}

/// The number that a notation denotes, in canonical notation.
pub open spec fn decimal_of(s: Seq<char>) -> Seq<char> {
    let body = unsigned_part(s);
    let magnitude = whole_canonical(whole_digits(body)) + fraction_canonical(fraction_digits(body));
    if s.len() > 0 && s[0] == '-' && magnitude != seq!['0'] {
        seq!['-'] + magnitude
    } else {
        magnitude
    }
}

/// The number that `s` denotes, where `s` holds digits, points and signs
/// only and is the notation of a number.
pub open spec fn parse_number(s: Seq<char>) -> Option<Seq<char>> {
    if is_decimal_notation(s) {
        Some(decimal_of(s))
    } else {
        None
    }
}

/// Whether every character is a decimal digit.
pub fn only_digits(v: &Vec<char>) -> (r: bool)
    ensures
        r == all_digits(v@),
{
    let mut i: usize = 0;
    while i < v.len()
        invariant
            i <= v.len(),
            forall|k: int| 0 <= k < i ==> is_digit(#[trigger] v@[k]),
        decreases v.len() - i,
    {
        if !crate::text::digit(v[i]) {
            return false;
        }
        i += 1;
    }
    true
}

impl Decimal {
    /// The number that a notation denotes.
    pub fn parse(v: &Vec<char>) -> (r: Option<Decimal>)
        ensures
            match r {
                Some(d) => parse_number(v@) == Some(d.deep_view()),
                None => parse_number(v@) is None,
            },
    {
        let signed = v.len() > 0 && (v[0] == '+' || v[0] == '-');
        let body = if signed {
            crate::text::subrange(v, 1, v.len())
        } else {
            copy_chars(v)
        };
        assert(body@ == unsigned_part(v@));
        let (whole, fraction) = match find_char(&body, '.') {
            Some(k) => (
                crate::text::subrange(&body, 0, k),
                crate::text::subrange(&body, k + 1, body.len()),
            ),
            None => (copy_chars(&body), Vec::new()),
        };
        assert(whole@ == whole_digits(body@));
        assert(fraction@ == fraction_digits(body@));
        if !only_digits(&whole) || !only_digits(&fraction) || whole.len() + fraction.len() == 0 {
            return None;
        }
        let mut from: usize = 0;
        while from < whole.len() && whole[from] == '0'
            invariant
                from <= whole.len(),
                skip_char(whole@, '0', 0) == skip_char(whole@, '0', from as int),
            decreases whole.len() - from,
        {
            from += 1;
        }
        let mut magnitude: Vec<char> = if from < whole.len() {
            crate::text::subrange(&whole, from, whole.len())
        } else {
            let mut zero: Vec<char> = Vec::new();
            zero.push('0');
            zero
        };
        assert(magnitude@ =~= whole_canonical(whole@));
        let kept = crate::text::trim_end_matches(&fraction, '0');
        if kept.len() > 0 {
            magnitude.push('.');
            append(&mut magnitude, &kept);
        }
        assert(magnitude@ =~= whole_canonical(whole@) + fraction_canonical(fraction@));
        let is_zero = magnitude.len() == 1 && magnitude[0] == '0';
        assert(is_zero == (magnitude@ == seq!['0'])) by {
            if is_zero {
                assert(magnitude@ =~= seq!['0']);
            } else if magnitude@ == seq!['0'] {
                assert(magnitude@.len() == 1);
            }
        }
        if v.len() > 0 && v[0] == '-' && !is_zero {
            let mut out: Vec<char> = Vec::new();
            out.push('-');
            append(&mut out, &magnitude);
            assert(out@ =~= seq!['-'] + magnitude@);
            Some(Decimal { text: string_of(&out) })
        } else {
            Some(Decimal { text: string_of(&magnitude) })
        }
    }

    /// The number `n`.
    pub fn from_integer(n: i64) -> (r: Decimal)
        ensures
            r.deep_view() == crate::text::signed_decimal(n as int),
    {
        Decimal { text: string_of(&crate::text::signed_decimal_text(n)) }
    }

    /// A copy of the number.
    pub fn copy(&self) -> (r: Decimal)
        ensures
            r.deep_view() == self.deep_view(),
    {
        Decimal { text: self.text.clone() }
    }
}

/// The notation of a number in JSON: a whole number gets `.0`.
pub open spec fn number_json_text(text: Seq<char>) -> Seq<char> {
    if crate::text::index_of_char(text, '.') is Some {
        text
    } else {
        text + seq!['.', '0']
    }
}

// ---------------------------------------------------------------------------
// Literal values
// ---------------------------------------------------------------------------

/// A literal value. An object is a table in the order of its keys.
#[derive(Debug)]
pub enum LiteralValue {
    String(String),
    Number(Decimal),
    Boolean(bool),
    Array(Vec<LiteralValue>),
    Object(Vec<(String, LiteralValue)>),
}

/// The mathematical value of a `LiteralValue`.
pub enum Literal {
    Text(Seq<char>),
    Number(Seq<char>),
    Boolean(bool),
    List(Seq<Literal>),
    Record(Seq<(Seq<char>, Literal)>),
}

/// The mathematical value of a literal.
pub open spec fn literal_view(value: LiteralValue) -> Literal
    decreases value, 0nat,
{
    match value {
        LiteralValue::String(text) => Literal::Text(text@),
        LiteralValue::Number(number) => Literal::Number(number.text@),
        LiteralValue::Boolean(b) => Literal::Boolean(b),
        LiteralValue::Array(items) => Literal::List(literal_items(items, items.len() as nat)),
        LiteralValue::Object(entries) => Literal::Record(
            literal_members(entries, entries.len() as nat),
        ),
    }
}

/// The views of the first `n` items.
pub open spec fn literal_items(items: Vec<LiteralValue>, n: nat) -> Seq<Literal>
    decreases items, n,
{
    if 0 < n <= items.len() {
        literal_items(items, (n - 1) as nat).push(literal_view(items[n - 1]))
    } else {
        Seq::empty()
    }
}

/// The views of the first `n` members.
pub open spec fn literal_members(entries: Vec<(String, LiteralValue)>, n: nat) -> Seq<
    (Seq<char>, Literal),
>
    decreases entries, n,
{
    if 0 < n <= entries.len() {
        literal_members(entries, (n - 1) as nat).push(
            (entries[n - 1].0@, literal_view(entries[n - 1].1)),
        )
    } else {
        Seq::empty()
    }
}

impl DeepView for LiteralValue {
    type V = Literal;

    open spec fn deep_view(&self) -> Literal {
        literal_view(*self)
    }
}

proof fn lemma_literal_items(items: Vec<LiteralValue>, n: nat)
    requires
        n <= items.len(),
    ensures
        literal_items(items, n) == items.deep_view().take(n as int),
    decreases n,
{
    if n > 0 {
        lemma_literal_items(items, (n - 1) as nat);
        assert(items.deep_view().take(n as int) =~= items.deep_view().take(n - 1).push(
            literal_view(items[n - 1]),
        ));
    } else {
        assert(items.deep_view().take(0) =~= Seq::empty());
    }
}

proof fn lemma_literal_members(entries: Vec<(String, LiteralValue)>, n: nat)
    requires
        n <= entries.len(),
    ensures
        literal_members(entries, n) == entries.deep_view().take(n as int),
    decreases n,
{
    if n > 0 {
        lemma_literal_members(entries, (n - 1) as nat);
        assert(entries.deep_view()[n - 1] == (entries[n - 1].0@, literal_view(entries[n - 1].1)));
        assert(entries.deep_view().take(n as int) =~= entries.deep_view().take(n - 1).push(
            (entries[n - 1].0@, literal_view(entries[n - 1].1)),
        ));
    } else {
        assert(entries.deep_view().take(0) =~= Seq::empty());
    }
}

/// The view of an array is the sequence of the views of its items.
pub proof fn lemma_literal_array(items: Vec<LiteralValue>)
    ensures
        LiteralValue::Array(items).deep_view() == Literal::List(items.deep_view()),
{
    lemma_literal_items(items, items.len() as nat);
    assert(items.deep_view().take(items.len() as int) =~= items.deep_view());
}

/// The view of an object is the view of its table.
pub proof fn lemma_literal_object(entries: Vec<(String, LiteralValue)>)
    ensures
        LiteralValue::Object(entries).deep_view() == Literal::Record(entries.deep_view()),
{
    lemma_literal_members(entries, entries.len() as nat);
    assert(entries.deep_view().take(entries.len() as int) =~= entries.deep_view());
}

/// Whether the objects of a literal are tables in the order of their keys,
/// in which no key occurs twice.
pub open spec fn literal_ordered(value: Literal) -> bool
    decreases value, 0nat,
{
    match value {
        Literal::List(items) => items_ordered(items, items.len()),
        Literal::Record(entries) => crate::assoc::ascending(entries) && members_ordered(
            entries,
            entries.len(),
        ),
        _ => true,
    }
}

/// Whether the first `n` items are ordered.
pub open spec fn items_ordered(items: Seq<Literal>, n: nat) -> bool
    decreases items, n,
{
    if 0 < n <= items.len() {
        items_ordered(items, (n - 1) as nat) && literal_ordered(items[n - 1])
    } else {
        true
    }
}

/// Whether the values of the first `n` members are ordered.
pub open spec fn members_ordered(entries: Seq<(Seq<char>, Literal)>, n: nat) -> bool
    decreases entries, n,
{
    if 0 < n <= entries.len() {
        members_ordered(entries, (n - 1) as nat) && literal_ordered(entries[n - 1].1)
    } else {
        true
    }
}

proof fn lemma_items_ordered(items: Seq<Literal>, n: nat)
    requires
        n <= items.len(),
    ensures
        items_ordered(items, n) <==> forall|i: int|
            0 <= i < n ==> literal_ordered(#[trigger] items[i]),
    decreases n,
{
    if n > 0 {
        lemma_items_ordered(items, (n - 1) as nat);
    }
}

proof fn lemma_members_ordered(entries: Seq<(Seq<char>, Literal)>, n: nat)
    requires
        n <= entries.len(),
    ensures
        members_ordered(entries, n) <==> forall|i: int|
            0 <= i < n ==> literal_ordered((#[trigger] entries[i]).1),
    decreases n,
{
    if n > 0 {
        lemma_members_ordered(entries, (n - 1) as nat);
    }
}

/// An array is ordered where each of its items is.
pub proof fn lemma_list_ordered(items: Seq<Literal>)
    ensures
        literal_ordered(Literal::List(items)) <==> forall|i: int|
            0 <= i < items.len() ==> literal_ordered(#[trigger] items[i]),
{
    lemma_items_ordered(items, items.len());
}

/// An object is ordered where its keys ascend and each of its values is
/// ordered.
pub proof fn lemma_record_ordered(entries: Seq<(Seq<char>, Literal)>)
    ensures
        literal_ordered(Literal::Record(entries)) <==> crate::assoc::ascending(entries) && forall|
            i: int,
        |
            0 <= i < entries.len() ==> literal_ordered((#[trigger] entries[i]).1),
{
    lemma_members_ordered(entries, entries.len());
}

/// Storing an ordered literal in an ordered object gives an ordered object.
pub proof fn lemma_inserted_ordered(entries: Seq<(Seq<char>, Literal)>, key: Seq<char>, value: Literal)
    requires
        literal_ordered(Literal::Record(entries)),
        literal_ordered(value),
    ensures
        literal_ordered(Literal::Record(crate::assoc::inserted(entries, key, value))),
{
    let after = crate::assoc::inserted(entries, key, value);
    crate::assoc::lemma_inserted_ascending(entries, key, value);
    crate::assoc::lemma_inserted_entries(entries, key, value);
    lemma_record_ordered(entries);
    lemma_record_ordered(after);
    assert forall|i: int| 0 <= i < after.len() implies literal_ordered((#[trigger] after[i]).1) by {
        if after[i] != (key, value) {
            let j = choose|j: int| 0 <= j < entries.len() && entries[j] == after[i];
            assert(literal_ordered(entries[j].1));
        }
    }
}

/// An ordered array with an ordered literal behind it is ordered.
pub proof fn lemma_pushed_ordered(items: Seq<Literal>, value: Literal)
    requires
        literal_ordered(Literal::List(items)),
        literal_ordered(value),
    ensures
        literal_ordered(Literal::List(items.push(value))),
{
    let after = items.push(value);
    lemma_list_ordered(items);
    lemma_list_ordered(after);
    assert forall|i: int| 0 <= i < after.len() implies literal_ordered(#[trigger] after[i]) by {
        if i < items.len() {
            assert(after[i] == items[i]);
        }
    }
}

/// The JSON value of a literal: a number becomes a decimal, an array an
/// array, an object an object with the same keys.
pub open spec fn literal_json(value: Literal) -> JsonView
    decreases value, 0nat,
{
    match value {
        Literal::Text(text) => JsonView::Text(text),
        Literal::Number(text) => JsonView::Decimal(number_json_text(text)),
        Literal::Boolean(b) => JsonView::Bool(b),
        Literal::List(items) => JsonView::List(literal_json_items(items, items.len())),
        Literal::Record(entries) => JsonView::Record(literal_json_members(entries, entries.len())),
    }
}

/// The JSON values of the first `n` items.
pub open spec fn literal_json_items(items: Seq<Literal>, n: nat) -> Seq<JsonView>
    decreases items, n,
{
    if 0 < n <= items.len() {
        literal_json_items(items, (n - 1) as nat).push(literal_json(items[n - 1]))
    } else {
        Seq::empty()
    }
}

/// The JSON members of the first `n` members.
pub open spec fn literal_json_members(entries: Seq<(Seq<char>, Literal)>, n: nat) -> Seq<
    (Seq<char>, JsonView),
>
    decreases entries, n,
{
    if 0 < n <= entries.len() {
        literal_json_members(entries, (n - 1) as nat).push(
            (entries[n - 1].0, literal_json(entries[n - 1].1)),
        )
    } else {
        Seq::empty()
    }
}

/// The display form of a literal: a string as it is, a number in its
/// notation, a boolean as `true` or `false`, an array or an object as
/// compact JSON.
pub open spec fn literal_text(value: Literal) -> Seq<char> {
    match value {
        Literal::Text(text) => text,
        Literal::Number(text) => text,
        Literal::Boolean(b) => bool_text(b),
        _ => json_compact(literal_json(value)),
    }
}

/// The display form of a boolean.
pub open spec fn bool_text(b: bool) -> Seq<char> {
    if b {
        "true"@
    } else {
        "false"@
    }
}

/// The display form of a boolean.
pub fn bool_chars(b: bool) -> (r: Vec<char>)
    ensures
        r@ == bool_text(b),
{
    if b {
        chars_of("true")
    } else {
        chars_of("false")
    }
}

impl LiteralValue {
    /// A string literal with the characters of `text`.
    pub fn text(text: &str) -> (r: LiteralValue)
        ensures
            r.deep_view() == Literal::Text(text@),
    {
        LiteralValue::String(String::from_str(text))
    }

    /// A copy of the value.
    pub fn copy(&self) -> (r: LiteralValue)
        ensures
            r.deep_view() == self.deep_view(),
        decreases self,
    {
        match self {
            LiteralValue::String(text) => LiteralValue::String(text.clone()),
            LiteralValue::Number(number) => LiteralValue::Number(number.copy()),
            LiteralValue::Boolean(b) => LiteralValue::Boolean(*b),
            LiteralValue::Array(items) => {
                let mut out: Vec<LiteralValue> = Vec::new();
                let mut i: usize = 0;
                while i < items.len()
                    invariant
                        i <= items.len(),
                        *self == LiteralValue::Array(*items),
                        out.deep_view() == items.deep_view().take(i as int),
                    decreases items.len() - i,
                {
                    proof {
                        vstd::std_specs::vec::axiom_vec_index_decreases(*items, i as int);
                        assert((*self)->Array_0 == *items);
                    }
                    let item = items[i].copy();
                    let ghost before = out.deep_view();
                    out.push(item);
                    assert(out.deep_view() =~= before.push(item.deep_view()));
                    assert(items.deep_view().take(i + 1) =~= items.deep_view().take(i as int).push(
                        items[i as int].deep_view(),
                    ));
                    i += 1;
                }
                proof {
                    assert(items.deep_view().take(items.len() as int) =~= items.deep_view());
                    lemma_literal_array(*items);
                    lemma_literal_array(out);
                }
                LiteralValue::Array(out)
            },
            LiteralValue::Object(entries) => {
                let mut out: Vec<(String, LiteralValue)> = Vec::new();
                let mut i: usize = 0;
                while i < entries.len()
                    invariant
                        i <= entries.len(),
                        *self == LiteralValue::Object(*entries),
                        out.deep_view() == entries.deep_view().take(i as int),
                    decreases entries.len() - i,
                {
                    proof {
                        vstd::std_specs::vec::axiom_vec_index_decreases(*entries, i as int);
                        assert((*self)->Object_0 == *entries);
                    }
                    let key = entries[i].0.clone();
                    let item = entries[i].1.copy();
                    let ghost before = out.deep_view();
                    out.push((key, item));
                    assert(out.deep_view() =~= before.push((key@, item.deep_view())));
                    assert(entries.deep_view().take(i + 1) =~= entries.deep_view().take(
                        i as int,
                    ).push((entries[i as int].0@, entries[i as int].1.deep_view())));
                    i += 1;
                }
                proof {
                    assert(entries.deep_view().take(entries.len() as int) =~= entries.deep_view());
                    lemma_literal_object(*entries);
                    lemma_literal_object(out);
                }
                LiteralValue::Object(out)
            },
        }
    }

    /// The JSON value of the literal.
    pub fn to_json(&self) -> (r: Json)
        ensures
            r.deep_view() == literal_json(self.deep_view()),
        decreases self,
    {
        match self {
            LiteralValue::String(text) => Json::String(text.clone()),
            LiteralValue::Number(number) => {
                let mut digits = chars_of(number.text.as_str());
                if find_char(&digits, '.').is_none() {
                    digits.push('.');
                    digits.push('0');
                    assert(digits@ =~= number.text@ + seq!['.', '0']);
                }
                Json::Decimal(string_of(&digits))
            },
            LiteralValue::Boolean(b) => Json::Bool(*b),
            LiteralValue::Array(items) => {
                let mut out: Vec<Json> = Vec::new();
                let mut i: usize = 0;
                while i < items.len()
                    invariant
                        i <= items.len(),
                        *self == LiteralValue::Array(*items),
                        out.deep_view() == literal_json_items(items.deep_view(), i as nat),
                    decreases items.len() - i,
                {
                    proof {
                        vstd::std_specs::vec::axiom_vec_index_decreases(*items, i as int);
                        assert((*self)->Array_0 == *items);
                    }
                    let item = items[i].to_json();
                    let ghost before = out.deep_view();
                    out.push(item);
                    assert(out.deep_view() =~= before.push(item.deep_view()));
                    i += 1;
                }
                proof {
                    lemma_literal_array(*items);
                    lemma_array_view(out);
                }
                Json::Array(out)
            },
            LiteralValue::Object(entries) => {
                let mut out: Vec<(String, Json)> = Vec::new();
                let mut i: usize = 0;
                while i < entries.len()
                    invariant
                        i <= entries.len(),
                        *self == LiteralValue::Object(*entries),
                        out.deep_view() == literal_json_members(entries.deep_view(), i as nat),
                    decreases entries.len() - i,
                {
                    proof {
                        vstd::std_specs::vec::axiom_vec_index_decreases(*entries, i as int);
                        assert((*self)->Object_0 == *entries);
                    }
                    let key = entries[i].0.clone();
                    let item = entries[i].1.to_json();
                    let ghost before = out.deep_view();
                    out.push((key, item));
                    assert(out.deep_view() =~= before.push((key@, item.deep_view())));
                    assert(entries.deep_view()[i as int] == (
                        entries[i as int].0@,
                        entries[i as int].1.deep_view(),
                    ));
                    i += 1;
                }
                proof {
                    lemma_literal_object(*entries);
                    lemma_object_view(out);
                }
                Json::Object(out)
            },
        }
    }

    /// The display form of the literal, as characters.
    pub fn display_chars(&self) -> (r: Vec<char>)
        ensures
            r@ == literal_text(self.deep_view()),
    {
        match self {
            LiteralValue::String(text) => chars_of(text.as_str()),
            LiteralValue::Number(number) => chars_of(number.text.as_str()),
            LiteralValue::Boolean(b) => bool_chars(*b),
            _ => {
                let json = self.to_json();
                let rendered = compact_text(&json);
                chars_of(rendered.as_str())
            },
        }
    }

    /// The display form of the literal.
    pub fn display(&self) -> (r: String)
        ensures
            r@ == literal_text(self.deep_view()),
    {
        string_of(&self.display_chars())
    }

    /// Whether two literals are the same value.
    pub fn same_value(&self, other: &LiteralValue) -> (r: bool)
        ensures
            r == (self.deep_view() == other.deep_view()),
        decreases self,
    {
        match (self, other) {
            (LiteralValue::String(a), LiteralValue::String(b)) => {
                same(&chars_of(a.as_str()), &chars_of(b.as_str()))
            },
            (LiteralValue::Number(a), LiteralValue::Number(b)) => {
                same(&chars_of(a.text.as_str()), &chars_of(b.text.as_str()))
            },
            (LiteralValue::Boolean(a), LiteralValue::Boolean(b)) => *a == *b,
            (LiteralValue::Array(a), LiteralValue::Array(b)) => {
                proof {
                    lemma_literal_array(*a);
                    lemma_literal_array(*b);
                }
                if a.len() != b.len() {
                    assert(a.deep_view().len() != b.deep_view().len());
                    return false;
                }
                let mut i: usize = 0;
                while i < a.len()
                    invariant
                        i <= a.len(),
                        a.len() == b.len(),
                        *self == LiteralValue::Array(*a),
                        self.deep_view() == Literal::List(a.deep_view()),
                        other.deep_view() == Literal::List(b.deep_view()),
                        a.deep_view().take(i as int) == b.deep_view().take(i as int),
                    decreases a.len() - i,
                {
                    proof {
                        vstd::std_specs::vec::axiom_vec_index_decreases(*a, i as int);
                        assert((*self)->Array_0 == *a);
                    }
                    if !a[i].same_value(&b[i]) {
                        assert(a.deep_view()[i as int] != b.deep_view()[i as int]);
                        return false;
                    }
                    assert(a.deep_view().take(i + 1) =~= a.deep_view().take(i as int).push(
                        a[i as int].deep_view(),
                    ));
                    assert(b.deep_view().take(i + 1) =~= b.deep_view().take(i as int).push(
                        b[i as int].deep_view(),
                    ));
                    i += 1;
                }
                assert(a.deep_view().take(a.len() as int) =~= a.deep_view());
                assert(b.deep_view().take(b.len() as int) =~= b.deep_view());
                true
            },
            (LiteralValue::Object(a), LiteralValue::Object(b)) => {
                proof {
                    lemma_literal_object(*a);
                    lemma_literal_object(*b);
                }
                if a.len() != b.len() {
                    assert(a.deep_view().len() != b.deep_view().len());
                    return false;
                }
                let mut i: usize = 0;
                while i < a.len()
                    invariant
                        i <= a.len(),
                        a.len() == b.len(),
                        *self == LiteralValue::Object(*a),
                        self.deep_view() == Literal::Record(a.deep_view()),
                        other.deep_view() == Literal::Record(b.deep_view()),
                        a.deep_view().take(i as int) == b.deep_view().take(i as int),
                    decreases a.len() - i,
                {
                    proof {
                        vstd::std_specs::vec::axiom_vec_index_decreases(*a, i as int);
                        assert((*self)->Object_0 == *a);
                    }
                    assert(a.deep_view()[i as int] == (
                        a[i as int].0@,
                        a[i as int].1.deep_view(),
                    ));
                    assert(b.deep_view()[i as int] == (
                        b[i as int].0@,
                        b[i as int].1.deep_view(),
                    ));
                    let keys = same(&chars_of(a[i].0.as_str()), &chars_of(b[i].0.as_str()));
                    if !keys || !a[i].1.same_value(&b[i].1) {
                        assert(a.deep_view()[i as int] != b.deep_view()[i as int]);
                        return false;
                    }
                    assert(a.deep_view().take(i + 1) =~= a.deep_view().take(i as int).push(
                        a.deep_view()[i as int],
                    ));
                    assert(b.deep_view().take(i + 1) =~= b.deep_view().take(i as int).push(
                        b.deep_view()[i as int],
                    ));
                    i += 1;
                }
                assert(a.deep_view().take(a.len() as int) =~= a.deep_view());
                assert(b.deep_view().take(b.len() as int) =~= b.deep_view());
                true
            },
            _ => false,
        }
    }
}

// ---------------------------------------------------------------------------
// Conditions and loop sources
// ---------------------------------------------------------------------------

/// One side of a comparison.
#[derive(Debug)]
pub enum ConditionOperand {
    Variable(String),
    Literal(LiteralValue),
}

/// The mathematical value of a `ConditionOperand`.
pub enum Operand {
    Variable(Seq<char>),
    Literal(Literal),
}

impl DeepView for ConditionOperand {
    type V = Operand;

    open spec fn deep_view(&self) -> Operand {
        match self {
            ConditionOperand::Variable(name) => Operand::Variable(name@),
            ConditionOperand::Literal(value) => Operand::Literal(value.deep_view()),
        }
    }
}

/// The condition of an `if`.
#[derive(Debug)]
pub enum ConditionExpr {
    Literal(bool),
    Variable(String),
    Not(Box<ConditionExpr>),
    Equals(ConditionOperand, ConditionOperand),
    NotEquals(ConditionOperand, ConditionOperand),
}

/// The mathematical value of a `ConditionExpr`.
pub enum Condition {
    Literal(bool),
    Variable(Seq<char>),
    Not(Box<Condition>),
    Equals(Operand, Operand),
    NotEquals(Operand, Operand),
}

/// The mathematical value of a condition.
pub open spec fn condition_view(expr: ConditionExpr) -> Condition
    decreases expr,
{
    match expr {
        ConditionExpr::Literal(b) => Condition::Literal(b),
        ConditionExpr::Variable(name) => Condition::Variable(name@),
        ConditionExpr::Not(inner) => Condition::Not(Box::new(condition_view(*inner))),
        ConditionExpr::Equals(left, right) => Condition::Equals(
            left.deep_view(),
            right.deep_view(),
        ),
        ConditionExpr::NotEquals(left, right) => Condition::NotEquals(
            left.deep_view(),
            right.deep_view(),
        ),
    }
}

impl DeepView for ConditionExpr {
    type V = Condition;

    open spec fn deep_view(&self) -> Condition {
        condition_view(*self)
    }
}

/// What a `for` walks over.
#[derive(Debug)]
pub enum LoopIterable {
    Variable(String),
    Literal(LiteralValue),
}

/// The mathematical value of a `LoopIterable`.
pub enum Iterable {
    Variable(Seq<char>),
    Literal(Literal),
}

impl DeepView for LoopIterable {
    type V = Iterable;

    open spec fn deep_view(&self) -> Iterable {
        match self {
            LoopIterable::Variable(name) => Iterable::Variable(name@),
            LoopIterable::Literal(value) => Iterable::Literal(value.deep_view()),
        }
    }
}

/// Whether the literal of an operand, where it is one, is ordered.
pub open spec fn operand_ordered(operand: Operand) -> bool {
    match operand {
        Operand::Literal(value) => literal_ordered(value),
        Operand::Variable(_) => true,
    }
}

/// Whether the literals that a condition compares are ordered.
pub open spec fn condition_ordered(expr: Condition) -> bool
    decreases expr,
{
    match expr {
        Condition::Not(inner) => condition_ordered(*inner),
        Condition::Equals(left, right) => operand_ordered(left) && operand_ordered(right),
        Condition::NotEquals(left, right) => operand_ordered(left) && operand_ordered(right),
        _ => true,
    }
}

/// Whether the literal that a loop walks over, where it is one, is ordered.
pub open spec fn iterable_ordered(iterable: Iterable) -> bool {
    match iterable {
        Iterable::Literal(value) => literal_ordered(value),
        Iterable::Variable(_) => true,
    }
}

/// The display form of an operand: a variable's name, a literal's display
/// form.
pub open spec fn operand_text(operand: Operand) -> Seq<char> {
    match operand {
        Operand::Variable(name) => name,
        Operand::Literal(value) => literal_text(value),
    }
}

/// The display form of a condition.
pub open spec fn condition_text(expr: Condition) -> Seq<char>
    decreases expr,
{
    match expr {
        Condition::Literal(b) => bool_text(b),
        Condition::Variable(name) => name,
        Condition::Not(inner) => seq!['!'] + condition_text(*inner),
        Condition::Equals(left, right) => operand_text(left) + " == "@ + operand_text(right),
        Condition::NotEquals(left, right) => operand_text(left) + " != "@ + operand_text(right),
    }
}

/// The display form of a loop source.
pub open spec fn iterable_text(iterable: Iterable) -> Seq<char> {
    match iterable {
        Iterable::Variable(name) => name,
        Iterable::Literal(value) => literal_text(value),
    }
}

impl ConditionOperand {
    /// The display form of the operand, as characters.
    pub fn display_chars(&self) -> (r: Vec<char>)
        ensures
            r@ == operand_text(self.deep_view()),
    {
        match self {
            ConditionOperand::Variable(name) => chars_of(name.as_str()),
            ConditionOperand::Literal(value) => value.display_chars(),
        }
    }

    /// A copy of the operand.
    pub fn copy(&self) -> (r: ConditionOperand)
        ensures
            r.deep_view() == self.deep_view(),
    {
        match self {
            ConditionOperand::Variable(name) => ConditionOperand::Variable(name.clone()),
            ConditionOperand::Literal(value) => ConditionOperand::Literal(value.copy()),
        }
    }
}

impl ConditionExpr {
    /// The display form of the condition, as characters.
    pub fn display_chars(&self) -> (r: Vec<char>)
        ensures
            r@ == condition_text(self.deep_view()),
        decreases self,
    {
        match self {
            ConditionExpr::Literal(b) => bool_chars(*b),
            ConditionExpr::Variable(name) => chars_of(name.as_str()),
            ConditionExpr::Not(inner) => {
                let mut out: Vec<char> = Vec::new();
                out.push('!');
                let rest = inner.display_chars();
                append(&mut out, &rest);
                assert(out@ =~= seq!['!'] + rest@);
                out
            },
            ConditionExpr::Equals(left, right) => {
                let mut out = left.display_chars();
                append_str(&mut out, " == ");
                let rest = right.display_chars();
                append(&mut out, &rest);
                out
            },
            ConditionExpr::NotEquals(left, right) => {
                let mut out = left.display_chars();
                append_str(&mut out, " != ");
                let rest = right.display_chars();
                append(&mut out, &rest);
                out
            },
        }
    }

    /// The display form of the condition.
    pub fn display(&self) -> (r: String)
        ensures
            r@ == condition_text(self.deep_view()),
    {
        string_of(&self.display_chars())
    }

    /// A copy of the condition.
    pub fn copy(&self) -> (r: ConditionExpr)
        ensures
            r.deep_view() == self.deep_view(),
        decreases self,
    {
        match self {
            ConditionExpr::Literal(b) => ConditionExpr::Literal(*b),
            ConditionExpr::Variable(name) => ConditionExpr::Variable(name.clone()),
            ConditionExpr::Not(inner) => ConditionExpr::Not(Box::new(inner.copy())),
            ConditionExpr::Equals(left, right) => ConditionExpr::Equals(left.copy(), right.copy()),
            ConditionExpr::NotEquals(left, right) => ConditionExpr::NotEquals(
                left.copy(),
                right.copy(),
            ),
        }
    }
}

impl LoopIterable {
    /// The display form of the loop source, as characters.
    pub fn display_chars(&self) -> (r: Vec<char>)
        ensures
            r@ == iterable_text(self.deep_view()),
    {
        match self {
            LoopIterable::Variable(name) => chars_of(name.as_str()),
            LoopIterable::Literal(value) => value.display_chars(),
        }
    }

    /// The display form of the loop source.
    pub fn display(&self) -> (r: String)
        ensures
            r@ == iterable_text(self.deep_view()),
    {
        string_of(&self.display_chars())
    }

    /// A copy of the loop source.
    pub fn copy(&self) -> (r: LoopIterable)
        ensures
            r.deep_view() == self.deep_view(),
    {
        match self {
            LoopIterable::Variable(name) => LoopIterable::Variable(name.clone()),
            LoopIterable::Literal(value) => LoopIterable::Literal(value.copy()),
        }
    }
}

} // verus!
