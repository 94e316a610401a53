//! Placeholders and evaluation: `${name}` stands for the display form of a
//! variable, `${secret:key}` for a secret value; conditions and loop sources
//! are evaluated against the variables of the run.

use crate::assoc::{ascending, inserted, lemma_inserted_ascending, lookup};
use crate::expression::{
    lemma_inserted_ordered, lemma_literal_array, lemma_literal_object, lemma_pushed_ordered,
    literal_ordered, literal_text, Condition, ConditionExpr, ConditionOperand, Iterable, Literal,
    LiteralValue, LoopIterable, Operand,
};
use crate::secrets::SecretStore;
use crate::text::{
    append, append_str, chars_of, find_char_from, find_from, has_prefix, index_of_char_from,
    index_of_from, lemma_index_of_from, starts_with, string_of, subrange, trim, trimmed,
};
use vstd::prelude::*;

verus! {

/// What a placeholder can stand for.
pub struct Scope {
    pub variables: Seq<(Seq<char>, Literal)>,
    pub secrets: Seq<(Seq<char>, Seq<char>)>,
}

/// What resolving gives: a value or a message, and the secret keys that were
/// used up to then.
pub struct Resolved<T> {
    pub outcome: Result<T, Seq<char>>,
    pub used: Seq<(Seq<char>, ())>,
}

/// The message for a variable that is not bound.
pub open spec fn undefined_variable(name: Seq<char>) -> Seq<char> {
    "undefined variable '"@ + name + "'"@
}

/// The message for a secret that the store does not hold.
pub open spec fn undefined_secret(key: Seq<char>) -> Seq<char> {
    "undefined secret '"@ + key + "'"@
}

/// `s` from index `cursor` on, behind `out`, with each placeholder replaced
/// by what it stands for. A placeholder runs from `${` to the next `}`; its
/// name is trimmed.
pub open spec fn substituted_from(
    s: Seq<char>,
    cursor: int,
    scope: Scope,
    used: Seq<(Seq<char>, ())>,
    out: Seq<char>,
) -> Resolved<Seq<char>>
    decreases s.len() - cursor,
{
    if cursor < 0 || cursor > s.len() {
        Resolved { outcome: Ok(out), used }
    } else {
        match index_of_from(s, "${"@, cursor) {
            None => Resolved { outcome: Ok(out + s.skip(cursor)), used },
            Some(start) => if !(cursor <= start && start + 2 <= s.len()) {
                Resolved { outcome: Ok(out + s.skip(cursor)), used }
            } else {
                match index_of_char_from(s, '}', start + 2) {
                    None => Resolved {
                        outcome: Err("unterminated variable placeholder"@),
                        used,
                    },
                    Some(end) => if !(start + 2 <= end < s.len()) {
                        Resolved { outcome: Err("unterminated variable placeholder"@), used }
                    } else {
                        let token = trimmed(s.subrange(start + 2, end));
                        let before = out + s.subrange(cursor, start);
                        if token.len() == 0 {
                            Resolved { outcome: Err("empty variable placeholder"@), used }
                        } else if has_prefix(token, "secret:"@) {
                            let key = trimmed(token.skip(7));
                            if key.len() == 0 {
                                Resolved { outcome: Err("empty secret placeholder"@), used }
                            } else {
                                match lookup(scope.secrets, key) {
                                    None => Resolved { outcome: Err(undefined_secret(key)), used },
                                    Some(value) => substituted_from(
                                        s,
                                        end + 1,
                                        scope,
                                        inserted(used, key, ()),
                                        before + value,
                                    ),
                                }
                            }
                        } else {
                            match lookup(scope.variables, token) {
                                None => Resolved { outcome: Err(undefined_variable(token)), used },
                                Some(value) => substituted_from(
                                    s,
                                    end + 1,
                                    scope,
                                    used,
                                    before + literal_text(value),
                                ),
                            }
                        }
                    },
                }
            },
        }
    }
}

/// `s` with each placeholder replaced by what it stands for.
pub open spec fn substituted(s: Seq<char>, scope: Scope, used: Seq<(Seq<char>, ())>) -> Resolved<
    Seq<char>,
> {
    substituted_from(s, 0, scope, used, Seq::empty())
}

/// The scope that a run's variables and secrets make.
pub open spec fn scope_of(variables: &Vec<(String, LiteralValue)>, secrets: &SecretStore) -> Scope {
    Scope { variables: variables.deep_view(), secrets: secrets.deep_view().values }
}

/// A message made of a name between two texts.
pub fn message_of(prefix: &str, name: &Vec<char>, suffix: &str) -> (r: String)
    ensures
        r@ == prefix@ + name@ + suffix@,
{
    let mut out = chars_of(prefix);
    append(&mut out, name);
    append_str(&mut out, suffix);
    string_of(&out)
}

/// The value of a variable.
pub fn variable<'a>(variables: &'a Vec<(String, LiteralValue)>, name: &Vec<char>) -> (r: Option<
    &'a LiteralValue,
>)
    ensures
        r.deep_view() == lookup(variables.deep_view(), name@),
{
    match crate::assoc::position(variables, name) {
        Some(i) => {
            assert(variables.deep_view()[i as int].1 == variables[i as int].1.deep_view());
            Some(&variables[i].1)
        },
        None => None,
    }
}

/// The characters with each placeholder replaced by what it stands for.
pub fn substitute_chars(
    value: &Vec<char>,
    variables: &Vec<(String, LiteralValue)>,
    secrets: &mut SecretStore,
) -> (r: Result<Vec<char>, String>)
    ensures
        final(secrets).deep_view().values == old(secrets).deep_view().values,
        substituted(value@, scope_of(variables, old(secrets)), old(secrets).deep_view().usage)
            == (Resolved {
            outcome: match r {
                Ok(text) => Ok(text@),
                Err(e) => Err(e@),
            },
            used: final(secrets).deep_view().usage,
        }),
{
    let ghost scope = scope_of(variables, secrets);
    let ghost start_used = secrets.deep_view().usage;
    let mut out: Vec<char> = Vec::new();
    let mut cursor: usize = 0;
    let opener = chars_of("${");
    proof {
        reveal_strlit("${");
        reveal_strlit("secret:");
    }
    let n = value.len();
    loop
        invariant
            cursor <= value.len(),
            n == value.len(),
            opener@ == "${"@,
            "${"@.len() == 2,
            "secret:"@.len() == 7,
            scope == scope_of(variables, secrets),
            secrets.deep_view().values == old(secrets).deep_view().values,
            start_used == old(secrets).deep_view().usage,
            scope == scope_of(variables, old(secrets)),
            substituted(value@, scope, start_used) == substituted_from(
                value@,
                cursor as int,
                scope,
                secrets.deep_view().usage,
                out@,
            ),
        decreases value.len() - cursor,
    {
        let start = match find_from(value, &opener, cursor) {
            None => {
                let rest = subrange(value, cursor, n);
                append(&mut out, &rest);
                return Ok(out);
            },
            Some(start) => start,
        };
        proof {
            lemma_index_of_from(value@, "${"@, cursor as int);
        }
        let end = match find_char_from(value, '}', start + 2) {
            None => {
                return Err(String::from_str("unterminated variable placeholder"));
            },
            Some(end) => end,
        };
        let token = trim(&subrange(value, start + 2, end));
        let piece = subrange(value, cursor, start);
        if token.len() == 0 {
            return Err(String::from_str("empty variable placeholder"));
        }
        if starts_with(&token, "secret:") {
            let key = trim(&subrange(&token, 7, token.len()));
            if key.len() == 0 {
                return Err(String::from_str("empty secret placeholder"));
            }
            match secrets.resolve(&key) {
                None => {
                    return Err(message_of("undefined secret '", &key, "'"));
                },
                Some(secret) => {
                    let ghost before = out@;
                    append(&mut out, &piece);
                    crate::text::append_str(&mut out, secret.as_str());
                    assert(out@ =~= (before + piece@) + secret@);
                },
            }
        } else {
            match variable(variables, &token) {
                None => {
                    return Err(message_of("undefined variable '", &token, "'"));
                },
                Some(found) => {
                    let ghost before = out@;
                    append(&mut out, &piece);
                    let shown = found.display_chars();
                    append(&mut out, &shown);
                    assert(out@ =~= (before + piece@) + shown@);
                },
            }
        }
        cursor = end + 1;
    }
}

/// The text with each placeholder replaced by what it stands for.
pub fn substitute_variables(
    value: &str,
    variables: &Vec<(String, LiteralValue)>,
    secrets: &mut SecretStore,
) -> (r: Result<String, String>)
    ensures
        final(secrets).deep_view().values == old(secrets).deep_view().values,
        substituted(value@, scope_of(variables, old(secrets)), old(secrets).deep_view().usage)
            == (Resolved {
            outcome: match r {
                Ok(text) => Ok(text@),
                Err(e) => Err(e@),
            },
            used: final(secrets).deep_view().usage,
        }),
{
    match substitute_chars(&chars_of(value), variables, secrets) {
        Ok(text) => Ok(string_of(&text)),
        Err(e) => Err(e),
    }
}

// ---------------------------------------------------------------------------
// Literals, tables and lists
// ---------------------------------------------------------------------------

/// The literal with the placeholders of its strings replaced, in the
/// strings of its items and members too.
pub open spec fn resolved_literal(value: Literal, scope: Scope, used: Seq<(Seq<char>, ())>)
    -> Resolved<Literal>
    decreases value, 0nat,
{
    match value {
        Literal::Text(text) => {
            let inner = substituted(text, scope, used);
            Resolved {
                outcome: match inner.outcome {
                    Ok(t) => Ok(Literal::Text(t)),
                    Err(e) => Err(e),
                },
                used: inner.used,
            }
        },
        Literal::Number(text) => Resolved { outcome: Ok(Literal::Number(text)), used },
        Literal::Boolean(b) => Resolved { outcome: Ok(Literal::Boolean(b)), used },
        Literal::List(items) => {
            let inner = resolved_items(items, items.len(), scope, used);
            Resolved {
                outcome: match inner.outcome {
                    Ok(values) => Ok(Literal::List(values)),
                    Err(e) => Err(e),
                },
                used: inner.used,
            }
        },
        Literal::Record(entries) => {
            let inner = resolved_members(entries, entries.len(), scope, used);
            Resolved {
                outcome: match inner.outcome {
                    Ok(values) => Ok(Literal::Record(values)),
                    Err(e) => Err(e),
                },
                used: inner.used,
            }
        },
    }
}

/// The first `n` items, resolved in order; the first failure ends it.
pub open spec fn resolved_items(
    items: Seq<Literal>,
    n: nat,
    scope: Scope,
    used: Seq<(Seq<char>, ())>,
) -> Resolved<Seq<Literal>>
    decreases items, n,
{
    if 0 < n <= items.len() {
        let before = resolved_items(items, (n - 1) as nat, scope, used);
        match before.outcome {
            Err(e) => before,
            Ok(done) => {
                let item = resolved_literal(items[n - 1], scope, before.used);
                Resolved {
                    outcome: match item.outcome {
                        Ok(v) => Ok(done.push(v)),
                        Err(e) => Err(e),
                    },
                    used: item.used,
                }
            },
        }
    } else {
        Resolved { outcome: Ok(Seq::empty()), used }
    }
}

/// The first `n` members, resolved in order and stored under their keys;
/// the first failure ends it.
pub open spec fn resolved_members(
    entries: Seq<(Seq<char>, Literal)>,
    n: nat,
    scope: Scope,
    used: Seq<(Seq<char>, ())>,
) -> Resolved<Seq<(Seq<char>, Literal)>>
    decreases entries, n,
{
    if 0 < n <= entries.len() {
        let before = resolved_members(entries, (n - 1) as nat, scope, used);
        match before.outcome {
            Err(e) => before,
            Ok(done) => {
                let item = resolved_literal(entries[n - 1].1, scope, before.used);
                Resolved {
                    outcome: match item.outcome {
                        Ok(v) => Ok(inserted(done, entries[n - 1].0, v)),
                        Err(e) => Err(e),
                    },
                    used: item.used,
                }
            },
        }
    } else {
        Resolved { outcome: Ok(Seq::empty()), used }
    }
}

/// A resolved literal is ordered, whatever it was made from: each of its
/// objects is built by storing member after member.
pub proof fn lemma_resolved_ordered(value: Literal, scope: Scope, used: Seq<(Seq<char>, ())>)
    ensures
        match resolved_literal(value, scope, used).outcome {
            Ok(literal) => literal_ordered(literal),
            Err(_) => true,
        },
    decreases value, 0nat,
{
    match value {
        Literal::List(items) => lemma_resolved_items_ordered(items, items.len(), scope, used),
        Literal::Record(entries) => lemma_resolved_members_ordered(
            entries,
            entries.len(),
            scope,
            used,
        ),
        _ => {},
    }
}

proof fn lemma_resolved_items_ordered(
    items: Seq<Literal>,
    n: nat,
    scope: Scope,
    used: Seq<(Seq<char>, ())>,
)
    ensures
        match resolved_items(items, n, scope, used).outcome {
            Ok(values) => literal_ordered(Literal::List(values)),
            Err(_) => true,
        },
    decreases items, n,
{
    if 0 < n <= items.len() {
        let before = resolved_items(items, (n - 1) as nat, scope, used);
        lemma_resolved_items_ordered(items, (n - 1) as nat, scope, used);
        if let Ok(done) = before.outcome {
            lemma_resolved_ordered(items[n - 1], scope, before.used);
            if let Ok(v) = resolved_literal(items[n - 1], scope, before.used).outcome {
                lemma_pushed_ordered(done, v);
            }
        }
    }
}

proof fn lemma_resolved_members_ordered(
    entries: Seq<(Seq<char>, Literal)>,
    n: nat,
    scope: Scope,
    used: Seq<(Seq<char>, ())>,
)
    ensures
        match resolved_members(entries, n, scope, used).outcome {
            Ok(values) => literal_ordered(Literal::Record(values)),
            Err(_) => true,
        },
    decreases entries, n,
{
    if 0 < n <= entries.len() {
        let before = resolved_members(entries, (n - 1) as nat, scope, used);
        lemma_resolved_members_ordered(entries, (n - 1) as nat, scope, used);
        if let Ok(done) = before.outcome {
            lemma_resolved_ordered(entries[n - 1].1, scope, before.used);
            if let Ok(v) = resolved_literal(entries[n - 1].1, scope, before.used).outcome {
                lemma_inserted_ordered(done, entries[n - 1].0, v);
            }
        }
    }
}

/// The literal with the placeholders of its strings replaced.
pub fn resolve_literal_value(
    value: &LiteralValue,
    variables: &Vec<(String, LiteralValue)>,
    secrets: &mut SecretStore,
) -> (r: Result<LiteralValue, String>)
    ensures
        final(secrets).deep_view().values == old(secrets).deep_view().values,
        resolved_literal(
            value.deep_view(),
            scope_of(variables, old(secrets)),
            old(secrets).deep_view().usage,
        ) == (Resolved {
            outcome: match r {
                Ok(v) => Ok(v.deep_view()),
                Err(e) => Err(e@),
            },
            used: final(secrets).deep_view().usage,
        }),
    decreases value,
{
    let ghost scope = scope_of(variables, secrets);
    let ghost start_used = secrets.deep_view().usage;
    match value {
        LiteralValue::String(text) => {
            match substitute_variables(text.as_str(), variables, secrets) {
                Ok(t) => Ok(LiteralValue::String(t)),
                Err(e) => Err(e),
            }
        },
        LiteralValue::Number(number) => Ok(LiteralValue::Number(number.copy())),
        LiteralValue::Boolean(b) => Ok(LiteralValue::Boolean(*b)),
        LiteralValue::Array(items) => {
            proof {
                lemma_literal_array(*items);
            }
            let mut out: Vec<LiteralValue> = Vec::new();
            assert(out.deep_view() =~= Seq::empty());
            let mut i: usize = 0;
            while i < items.len()
                invariant
                    i <= items.len(),
                    *value == LiteralValue::Array(*items),
                    value.deep_view() == Literal::List(items.deep_view()),
                    scope == scope_of(variables, secrets),
                    scope == scope_of(variables, old(secrets)),
                    start_used == old(secrets).deep_view().usage,
                    secrets.deep_view().values == old(secrets).deep_view().values,
                    resolved_items(items.deep_view(), i as nat, scope, start_used) == (Resolved {
                        outcome: Ok(out.deep_view()),
                        used: secrets.deep_view().usage,
                    }),
                decreases items.len() - i,
            {
                proof {
                    vstd::std_specs::vec::axiom_vec_index_decreases(*items, i as int);
                    assert((*value)->Array_0 == *items);
                    assert(items.deep_view()[i as int] == items[i as int].deep_view());
                }
                match resolve_literal_value(&items[i], variables, secrets) {
                    Ok(item) => {
                        let ghost before = out.deep_view();
                        out.push(item);
                        assert(out.deep_view() =~= before.push(item.deep_view()));
                    },
                    Err(e) => {
                        proof {
                            lemma_items_failure(
                                items.deep_view(),
                                (i + 1) as nat,
                                items.deep_view().len(),
                                scope,
                                start_used,
                            );
                        }
                        return Err(e);
                    },
                }
                i += 1;
            }
            proof {
                lemma_literal_array(out);
            }
            Ok(LiteralValue::Array(out))
        },
        LiteralValue::Object(entries) => {
            proof {
                lemma_literal_object(*entries);
            }
            let mut out: Vec<(String, LiteralValue)> = Vec::new();
            assert(out.deep_view() =~= Seq::empty());
            let mut i: usize = 0;
            while i < entries.len()
                invariant
                    i <= entries.len(),
                    *value == LiteralValue::Object(*entries),
                    value.deep_view() == Literal::Record(entries.deep_view()),
                    scope == scope_of(variables, secrets),
                    scope == scope_of(variables, old(secrets)),
                    start_used == old(secrets).deep_view().usage,
                    secrets.deep_view().values == old(secrets).deep_view().values,
                    resolved_members(entries.deep_view(), i as nat, scope, start_used)
                        == (Resolved {
                        outcome: Ok(out.deep_view()),
                        used: secrets.deep_view().usage,
                    }),
                decreases entries.len() - i,
            {
                proof {
                    vstd::std_specs::vec::axiom_vec_index_decreases(*entries, i as int);
                    assert((*value)->Object_0 == *entries);
                    assert(entries.deep_view()[i as int] == (
                        entries[i as int].0@,
                        entries[i as int].1.deep_view(),
                    ));
                }
                match resolve_literal_value(&entries[i].1, variables, secrets) {
                    Ok(item) => {
                        crate::assoc::insert(&mut out, entries[i].0.clone(), item);
                    },
                    Err(e) => {
                        proof {
                            lemma_members_failure(
                                entries.deep_view(),
                                (i + 1) as nat,
                                entries.deep_view().len(),
                                scope,
                                start_used,
                            );
                        }
                        return Err(e);
                    },
                }
                i += 1;
            }
            proof {
                lemma_literal_object(out);
            }
            Ok(LiteralValue::Object(out))
        },
    }
}

/// A failure among the first `n` items is the outcome for any longer
/// prefix.
pub proof fn lemma_items_failure(
    items: Seq<Literal>,
    n: nat,
    m: nat,
    scope: Scope,
    used: Seq<(Seq<char>, ())>,
)
    requires
        n <= m <= items.len(),
        resolved_items(items, n, scope, used).outcome is Err,
    ensures
        resolved_items(items, m, scope, used) == resolved_items(items, n, scope, used),
    decreases m - n,
{
    if n < m {
        lemma_items_failure(items, n, (m - 1) as nat, scope, used);
    }
}

/// A failure among the first `n` members is the outcome for any longer
/// prefix.
pub proof fn lemma_members_failure(
    entries: Seq<(Seq<char>, Literal)>,
    n: nat,
    m: nat,
    scope: Scope,
    used: Seq<(Seq<char>, ())>,
)
    requires
        n <= m <= entries.len(),
        resolved_members(entries, n, scope, used).outcome is Err,
    ensures
        resolved_members(entries, m, scope, used) == resolved_members(entries, n, scope, used),
    decreases m - n,
{
    if n < m {
        lemma_members_failure(entries, n, (m - 1) as nat, scope, used);
    }
}

/// The entries of a table from index `i` on, each value with its
/// placeholders replaced, stored into `done`.
pub open spec fn resolved_table(
    table: Seq<(Seq<char>, Seq<char>)>,
    i: int,
    scope: Scope,
    used: Seq<(Seq<char>, ())>,
    done: Seq<(Seq<char>, Seq<char>)>,
) -> Resolved<Seq<(Seq<char>, Seq<char>)>>
    decreases table.len() - i,
{
    if i < 0 || i >= table.len() {
        Resolved { outcome: Ok(done), used }
    } else {
        let item = substituted(table[i].1, scope, used);
        match item.outcome {
            Err(e) => Resolved { outcome: Err(e), used: item.used },
            Ok(text) => resolved_table(
                table,
                i + 1,
                scope,
                item.used,
                inserted(done, table[i].0, text),
            ),
        }
    }
}

/// The table with the placeholders of its values replaced.
pub fn resolve_map(
    source: &Vec<(String, String)>,
    variables: &Vec<(String, LiteralValue)>,
    secrets: &mut SecretStore,
) -> (r: Result<Vec<(String, String)>, String>)
    ensures
        final(secrets).deep_view().values == old(secrets).deep_view().values,
        resolved_table(
            source.deep_view(),
            0,
            scope_of(variables, old(secrets)),
            old(secrets).deep_view().usage,
            Seq::empty(),
        ) == (Resolved {
            outcome: match r {
                Ok(v) => Ok(v.deep_view()),
                Err(e) => Err(e@),
            },
            used: final(secrets).deep_view().usage,
        }),
{
    let ghost scope = scope_of(variables, secrets);
    let ghost start_used = secrets.deep_view().usage;
    let mut out: Vec<(String, String)> = Vec::new();
    assert(out.deep_view() =~= Seq::empty());
    let mut i: usize = 0;
    while i < source.len()
        invariant
            i <= source.len(),
            scope == scope_of(variables, secrets),
            scope == scope_of(variables, old(secrets)),
            start_used == old(secrets).deep_view().usage,
            secrets.deep_view().values == old(secrets).deep_view().values,
            resolved_table(source.deep_view(), 0, scope, start_used, Seq::empty())
                == resolved_table(
                source.deep_view(),
                i as int,
                scope,
                secrets.deep_view().usage,
                out.deep_view(),
            ),
        decreases source.len() - i,
    {
        assert(source.deep_view()[i as int] == (source[i as int].0@, source[i as int].1@));
        match substitute_variables(source[i].1.as_str(), variables, secrets) {
            Ok(text) => {
                crate::assoc::insert(&mut out, source[i].0.clone(), text);
            },
            Err(e) => {
                return Err(e);
            },
        }
        i += 1;
    }
    Ok(out)
}

/// The items of a list from index `i` on, each with its placeholders
/// replaced, behind `done`.
pub open spec fn resolved_list(
    items: Seq<Seq<char>>,
    i: int,
    scope: Scope,
    used: Seq<(Seq<char>, ())>,
    done: Seq<Seq<char>>,
) -> Resolved<Seq<Seq<char>>>
    decreases items.len() - i,
{
    if i < 0 || i >= items.len() {
        Resolved { outcome: Ok(done), used }
    } else {
        let item = substituted(items[i], scope, used);
        match item.outcome {
            Err(e) => Resolved { outcome: Err(e), used: item.used },
            Ok(text) => resolved_list(items, i + 1, scope, item.used, done.push(text)),
        }
    }
}

/// The list with the placeholders of its items replaced.
pub fn resolve_list(
    items: &Vec<String>,
    variables: &Vec<(String, LiteralValue)>,
    secrets: &mut SecretStore,
) -> (r: Result<Vec<String>, String>)
    ensures
        final(secrets).deep_view().values == old(secrets).deep_view().values,
        resolved_list(
            items.deep_view(),
            0,
            scope_of(variables, old(secrets)),
            old(secrets).deep_view().usage,
            Seq::empty(),
        ) == (Resolved {
            outcome: match r {
                Ok(v) => Ok(v.deep_view()),
                Err(e) => Err(e@),
            },
            used: final(secrets).deep_view().usage,
        }),
{
    let ghost scope = scope_of(variables, secrets);
    let ghost start_used = secrets.deep_view().usage;
    let mut out: Vec<String> = Vec::new();
    assert(out.deep_view() =~= Seq::empty());
    let mut i: usize = 0;
    while i < items.len()
        invariant
            i <= items.len(),
            scope == scope_of(variables, secrets),
            scope == scope_of(variables, old(secrets)),
            start_used == old(secrets).deep_view().usage,
            secrets.deep_view().values == old(secrets).deep_view().values,
            resolved_list(items.deep_view(), 0, scope, start_used, Seq::empty()) == resolved_list(
                items.deep_view(),
                i as int,
                scope,
                secrets.deep_view().usage,
                out.deep_view(),
            ),
        decreases items.len() - i,
    {
        assert(items.deep_view()[i as int] == items[i as int]@);
        match substitute_variables(items[i].as_str(), variables, secrets) {
            Ok(text) => {
                let ghost before = out.deep_view();
                out.push(text);
                assert(out.deep_view() =~= before.push(text@));
            },
            Err(e) => {
                return Err(e);
            },
        }
        i += 1;
    }
    Ok(out)
}

// ---------------------------------------------------------------------------
// Loop sources
// ---------------------------------------------------------------------------

/// The items of a value that a loop can walk: the items of an array, or a
/// string as the one item.
pub open spec fn items_of(value: Literal) -> Option<Seq<Literal>> {
    match value {
        Literal::List(items) => Some(items),
        Literal::Text(text) => Some(seq![Literal::Text(text)]),
        _ => None,
    }
}

/// The items that a loop walks.
pub open spec fn iterable_items(iterable: Iterable, scope: Scope, used: Seq<(Seq<char>, ())>)
    -> Resolved<Seq<Literal>> {
    match iterable {
        Iterable::Variable(name) => Resolved {
            outcome: match lookup(scope.variables, name) {
                None => Err(undefined_variable(name)),
                Some(value) => match items_of(value) {
                    Some(items) => Ok(items),
                    None => Err(
                        "variable '"@ + name + "' is not iterable (found "@ + literal_text(value)
                            + ")"@,
                    ),
                },
            },
            used,
        },
        Iterable::Literal(literal) => {
            let inner = resolved_literal(literal, scope, used);
            Resolved {
                outcome: match inner.outcome {
                    Err(e) => Err(e),
                    Ok(value) => match items_of(value) {
                        Some(items) => Ok(items),
                        None => Err(
                            "loop iterable must be array or string, found "@ + literal_text(value),
                        ),
                    },
                },
                used: inner.used,
            }
        },
    }
}

/// Copies of the items of a value that a loop can walk.
pub fn items_to_walk(value: &LiteralValue) -> (r: Option<Vec<LiteralValue>>)
    ensures
        r.deep_view() == items_of(value.deep_view()),
{
    match value {
        LiteralValue::Array(items) => {
            proof {
                lemma_literal_array(*items);
            }
            let copied = value.copy();
            match copied {
                LiteralValue::Array(out) => {
                    proof {
                        lemma_literal_array(out);
                    }
                    Some(out)
                },
                _ => None,
            }
        },
        LiteralValue::String(text) => {
            let mut out: Vec<LiteralValue> = Vec::new();
            out.push(LiteralValue::String(text.clone()));
            assert(out.deep_view() =~= seq![Literal::Text(text@)]);
            Some(out)
        },
        _ => None,
    }
}

/// The items that a loop walks.
pub fn resolve_iterable(
    iterable: &LoopIterable,
    variables: &Vec<(String, LiteralValue)>,
    secrets: &mut SecretStore,
) -> (r: Result<Vec<LiteralValue>, String>)
    ensures
        final(secrets).deep_view().values == old(secrets).deep_view().values,
        iterable_items(
            iterable.deep_view(),
            scope_of(variables, old(secrets)),
            old(secrets).deep_view().usage,
        ) == (Resolved {
            outcome: match r {
                Ok(v) => Ok(v.deep_view()),
                Err(e) => Err(e@),
            },
            used: final(secrets).deep_view().usage,
        }),
{
    match iterable {
        LoopIterable::Variable(name) => {
            let key = chars_of(name.as_str());
            match variable(variables, &key) {
                None => Err(message_of("undefined variable '", &key, "'")),
                Some(value) => match items_to_walk(value) {
                    Some(items) => Ok(items),
                    None => {
                        let mut out = chars_of("variable '");
                        append(&mut out, &key);
                        append_str(&mut out, "' is not iterable (found ");
                        append(&mut out, &value.display_chars());
                        append_str(&mut out, ")");
                        Err(string_of(&out))
                    },
                },
            }
        },
        LoopIterable::Literal(literal) => {
            match resolve_literal_value(literal, variables, secrets) {
                Err(e) => Err(e),
                Ok(value) => match items_to_walk(&value) {
                    Some(items) => Ok(items),
                    None => {
                        let mut out = chars_of("loop iterable must be array or string, found ");
                        append(&mut out, &value.display_chars());
                        Err(string_of(&out))
                    },
                },
            }
        },
    }
}

// ---------------------------------------------------------------------------
// Conditions
// ---------------------------------------------------------------------------

/// The value of one side of a comparison.
pub open spec fn operand_value(operand: Operand, scope: Scope, used: Seq<(Seq<char>, ())>)
    -> Resolved<Literal> {
    match operand {
        Operand::Variable(name) => Resolved {
            outcome: match lookup(scope.variables, name) {
                Some(value) => Ok(value),
                None => Err(undefined_variable(name)),
            },
            used,
        },
        Operand::Literal(value) => resolved_literal(value, scope, used),
    }
}

/// Whether the two sides of a comparison have the same value; the left side
/// is evaluated first.
pub open spec fn operands_equal(
    left: Operand,
    right: Operand,
    scope: Scope,
    used: Seq<(Seq<char>, ())>,
) -> Resolved<bool> {
    let l = operand_value(left, scope, used);
    match l.outcome {
        Err(e) => Resolved { outcome: Err(e), used: l.used },
        Ok(a) => {
            let r = operand_value(right, scope, l.used);
            Resolved {
                outcome: match r.outcome {
                    Err(e) => Err(e),
                    Ok(b) => Ok(a == b),
                },
                used: r.used,
            }
        },
    }
}

/// The truth of a condition. A variable must hold a boolean.
pub open spec fn condition_value(expr: Condition, scope: Scope, used: Seq<(Seq<char>, ())>)
    -> Resolved<bool>
    decreases expr,
{
    match expr {
        Condition::Literal(b) => Resolved { outcome: Ok(b), used },
        Condition::Variable(name) => Resolved {
            outcome: match lookup(scope.variables, name) {
                Some(Literal::Boolean(b)) => Ok(b),
                Some(other) => Err(
                    "variable '"@ + name + "' is not boolean (found "@ + literal_text(other) + ")"@,
                ),
                None => Err(undefined_variable(name)),
            },
            used,
        },
        Condition::Not(inner) => {
            let v = condition_value(*inner, scope, used);
            Resolved {
                outcome: match v.outcome {
                    Ok(b) => Ok(!b),
                    Err(e) => Err(e),
                },
                used: v.used,
            }
        },
        Condition::Equals(left, right) => operands_equal(left, right, scope, used),
        Condition::NotEquals(left, right) => {
            let v = operands_equal(left, right, scope, used);
            Resolved {
                outcome: match v.outcome {
                    Ok(b) => Ok(!b),
                    Err(e) => Err(e),
                },
                used: v.used,
            }
        },
    }
}

/// The value of one side of a comparison.
pub fn evaluate_operand(
    operand: &ConditionOperand,
    variables: &Vec<(String, LiteralValue)>,
    secrets: &mut SecretStore,
) -> (r: Result<LiteralValue, String>)
    ensures
        final(secrets).deep_view().values == old(secrets).deep_view().values,
        operand_value(
            operand.deep_view(),
            scope_of(variables, old(secrets)),
            old(secrets).deep_view().usage,
        ) == (Resolved {
            outcome: match r {
                Ok(v) => Ok(v.deep_view()),
                Err(e) => Err(e@),
            },
            used: final(secrets).deep_view().usage,
        }),
{
    match operand {
        ConditionOperand::Variable(name) => {
            let key = chars_of(name.as_str());
            match variable(variables, &key) {
                Some(value) => Ok(value.copy()),
                None => Err(message_of("undefined variable '", &key, "'")),
            }
        },
        ConditionOperand::Literal(value) => resolve_literal_value(value, variables, secrets),
    }
}

/// Whether the two sides of a comparison have the same value.
pub fn evaluate_comparison(
    left: &ConditionOperand,
    right: &ConditionOperand,
    variables: &Vec<(String, LiteralValue)>,
    secrets: &mut SecretStore,
) -> (r: Result<bool, String>)
    ensures
        final(secrets).deep_view().values == old(secrets).deep_view().values,
        operands_equal(
            left.deep_view(),
            right.deep_view(),
            scope_of(variables, old(secrets)),
            old(secrets).deep_view().usage,
        ) == (Resolved {
            outcome: match r {
                Ok(v) => Ok(v),
                Err(e) => Err(e@),
            },
            used: final(secrets).deep_view().usage,
        }),
{
    let lhs = match evaluate_operand(left, variables, secrets) {
        Ok(v) => v,
        Err(e) => {
            return Err(e);
        },
    };
    let rhs = match evaluate_operand(right, variables, secrets) {
        Ok(v) => v,
        Err(e) => {
            return Err(e);
        },
    };
    Ok(lhs.same_value(&rhs))
}

/// The truth of a condition.
pub fn evaluate_condition(
    expr: &ConditionExpr,
    variables: &Vec<(String, LiteralValue)>,
    secrets: &mut SecretStore,
) -> (r: Result<bool, String>)
    ensures
        final(secrets).deep_view().values == old(secrets).deep_view().values,
        condition_value(
            expr.deep_view(),
            scope_of(variables, old(secrets)),
            old(secrets).deep_view().usage,
        ) == (Resolved {
            outcome: match r {
                Ok(v) => Ok(v),
                Err(e) => Err(e@),
            },
            used: final(secrets).deep_view().usage,
        }),
    decreases expr,
{
    match expr {
        ConditionExpr::Literal(b) => Ok(*b),
        ConditionExpr::Variable(name) => {
            let key = chars_of(name.as_str());
            match variable(variables, &key) {
                Some(LiteralValue::Boolean(b)) => Ok(*b),
                Some(other) => {
                    let mut out = chars_of("variable '");
                    append(&mut out, &key);
                    append_str(&mut out, "' is not boolean (found ");
                    append(&mut out, &other.display_chars());
                    append_str(&mut out, ")");
                    Err(string_of(&out))
                },
                None => Err(message_of("undefined variable '", &key, "'")),
            }
        },
        ConditionExpr::Not(inner) => match evaluate_condition(inner, variables, secrets) {
            Ok(b) => Ok(!b),
            Err(e) => Err(e),
        },
        ConditionExpr::Equals(left, right) => evaluate_comparison(left, right, variables, secrets),
        ConditionExpr::NotEquals(left, right) => match evaluate_comparison(
            left,
            right,
            variables,
            secrets,
        ) {
            Ok(b) => Ok(!b),
            Err(e) => Err(e),
        },
    }
}

// ---------------------------------------------------------------------------
// The table of used keys stays ordered
// ---------------------------------------------------------------------------

proof fn lemma_substituted_used(
    s: Seq<char>,
    cursor: int,
    scope: Scope,
    used: Seq<(Seq<char>, ())>,
    out: Seq<char>,
)
    requires
        ascending(used),
    ensures
        ascending(substituted_from(s, cursor, scope, used, out).used),
    decreases s.len() - cursor,
{
    if 0 <= cursor <= s.len() {
        if let Some(start) = index_of_from(s, "${"@, cursor) {
            if cursor <= start && start + 2 <= s.len() {
                if let Some(end) = index_of_char_from(s, '}', start + 2) {
                    if start + 2 <= end < s.len() {
                        let token = trimmed(s.subrange(start + 2, end));
                        let before = out + s.subrange(cursor, start);
                        if token.len() == 0 {
                        } else if has_prefix(token, "secret:"@) {
                            let key = trimmed(token.skip(7));
                            if key.len() > 0 {
                                if let Some(value) = lookup(scope.secrets, key) {
                                    lemma_inserted_ascending(used, key, ());
                                    lemma_substituted_used(
                                        s,
                                        end + 1,
                                        scope,
                                        inserted(used, key, ()),
                                        before + value,
                                    );
                                }
                            }
                        } else if let Some(value) = lookup(scope.variables, token) {
                            lemma_substituted_used(
                                s,
                                end + 1,
                                scope,
                                used,
                                before + literal_text(value),
                            );
                        }
                    }
                }
            }
        }
    }
}

proof fn lemma_literal_used(value: Literal, scope: Scope, used: Seq<(Seq<char>, ())>)
    requires
        ascending(used),
    ensures
        ascending(resolved_literal(value, scope, used).used),
    decreases value, 0nat,
{
    match value {
        Literal::Text(text) => lemma_substituted_used(text, 0, scope, used, Seq::empty()),
        Literal::List(items) => lemma_items_used(items, items.len(), scope, used),
        Literal::Record(entries) => lemma_members_used(entries, entries.len(), scope, used),
        _ => {},
    }
}

proof fn lemma_items_used(items: Seq<Literal>, n: nat, scope: Scope, used: Seq<(Seq<char>, ())>)
    requires
        ascending(used),
    ensures
        ascending(resolved_items(items, n, scope, used).used),
    decreases items, n,
{
    if 0 < n <= items.len() {
        let before = resolved_items(items, (n - 1) as nat, scope, used);
        lemma_items_used(items, (n - 1) as nat, scope, used);
        if before.outcome is Ok {
            lemma_literal_used(items[n - 1], scope, before.used);
        }
    }
}

proof fn lemma_members_used(
    entries: Seq<(Seq<char>, Literal)>,
    n: nat,
    scope: Scope,
    used: Seq<(Seq<char>, ())>,
)
    requires
        ascending(used),
    ensures
        ascending(resolved_members(entries, n, scope, used).used),
    decreases entries, n,
{
    if 0 < n <= entries.len() {
        let before = resolved_members(entries, (n - 1) as nat, scope, used);
        lemma_members_used(entries, (n - 1) as nat, scope, used);
        if before.outcome is Ok {
            lemma_literal_used(entries[n - 1].1, scope, before.used);
        }
    }
}

proof fn lemma_table_used(
    table: Seq<(Seq<char>, Seq<char>)>,
    i: int,
    scope: Scope,
    used: Seq<(Seq<char>, ())>,
    done: Seq<(Seq<char>, Seq<char>)>,
)
    requires
        ascending(used),
    ensures
        ascending(resolved_table(table, i, scope, used, done).used),
    decreases table.len() - i,
{
    if 0 <= i < table.len() {
        let item = substituted(table[i].1, scope, used);
        lemma_substituted_used(table[i].1, 0, scope, used, Seq::empty());
        if let Ok(text) = item.outcome {
            lemma_table_used(table, i + 1, scope, item.used, inserted(done, table[i].0, text));
        }
    }
}

proof fn lemma_list_used(
    items: Seq<Seq<char>>,
    i: int,
    scope: Scope,
    used: Seq<(Seq<char>, ())>,
    done: Seq<Seq<char>>,
)
    requires
        ascending(used),
    ensures
        ascending(resolved_list(items, i, scope, used, done).used),
    decreases items.len() - i,
{
    if 0 <= i < items.len() {
        let item = substituted(items[i], scope, used);
        lemma_substituted_used(items[i], 0, scope, used, Seq::empty());
        if let Ok(text) = item.outcome {
            lemma_list_used(items, i + 1, scope, item.used, done.push(text));
        }
    }
}

proof fn lemma_condition_used(expr: Condition, scope: Scope, used: Seq<(Seq<char>, ())>)
    requires
        ascending(used),
    ensures
        ascending(condition_value(expr, scope, used).used),
    decreases expr,
{
    match expr {
        Condition::Not(inner) => lemma_condition_used(*inner, scope, used),
        Condition::Equals(left, right) => lemma_operands_used(left, right, scope, used),
        Condition::NotEquals(left, right) => lemma_operands_used(left, right, scope, used),
        _ => {},
    }
}

proof fn lemma_operands_used(left: Operand, right: Operand, scope: Scope, used: Seq<(Seq<char>, ())>)
    requires
        ascending(used),
    ensures
        ascending(operands_equal(left, right, scope, used).used),
{
    if let Operand::Literal(value) = left {
        lemma_literal_used(value, scope, used);
    }
    let l = operand_value(left, scope, used);
    if l.outcome is Ok {
        if let Operand::Literal(value) = right {
            lemma_literal_used(value, scope, l.used);
        }
    }
}

/// Resolving keeps the table of the used secret keys in the order of its
/// keys, each key once, whatever is resolved.
pub proof fn lemma_resolving_keeps_usage()
    ensures
        forall|s: Seq<char>, scope: Scope, used: Seq<(Seq<char>, ())>|
            ascending(used) ==> ascending((#[trigger] substituted(s, scope, used)).used),
        forall|value: Literal, scope: Scope, used: Seq<(Seq<char>, ())>|
            ascending(used) ==> ascending((#[trigger] resolved_literal(value, scope, used)).used),
        forall|
            table: Seq<(Seq<char>, Seq<char>)>,
            i: int,
            scope: Scope,
            used: Seq<(Seq<char>, ())>,
            done: Seq<(Seq<char>, Seq<char>)>,
        |
            ascending(used) ==> ascending(
                (#[trigger] resolved_table(table, i, scope, used, done)).used,
            ),
        forall|
            items: Seq<Seq<char>>,
            i: int,
            scope: Scope,
            used: Seq<(Seq<char>, ())>,
            done: Seq<Seq<char>>,
        |
            ascending(used) ==> ascending(
                (#[trigger] resolved_list(items, i, scope, used, done)).used,
            ),
        forall|iterable: Iterable, scope: Scope, used: Seq<(Seq<char>, ())>|
            ascending(used) ==> ascending((#[trigger] iterable_items(iterable, scope, used)).used),
        forall|expr: Condition, scope: Scope, used: Seq<(Seq<char>, ())>|
            ascending(used) ==> ascending((#[trigger] condition_value(expr, scope, used)).used),
{
    assert forall|s: Seq<char>, scope: Scope, used: Seq<(Seq<char>, ())>|
        ascending(used) implies ascending((#[trigger] substituted(s, scope, used)).used) by {
        lemma_substituted_used(s, 0, scope, used, Seq::empty());
    }
    assert forall|value: Literal, scope: Scope, used: Seq<(Seq<char>, ())>|
        ascending(used) implies ascending(
        (#[trigger] resolved_literal(value, scope, used)).used,
    ) by {
        lemma_literal_used(value, scope, used);
    }
    assert forall|
        table: Seq<(Seq<char>, Seq<char>)>,
        i: int,
        scope: Scope,
        used: Seq<(Seq<char>, ())>,
        done: Seq<(Seq<char>, Seq<char>)>,
    |
        ascending(used) implies ascending(
        (#[trigger] resolved_table(table, i, scope, used, done)).used,
    ) by {
        lemma_table_used(table, i, scope, used, done);
    }
    assert forall|
        items: Seq<Seq<char>>,
        i: int,
        scope: Scope,
        used: Seq<(Seq<char>, ())>,
        done: Seq<Seq<char>>,
    |
        ascending(used) implies ascending(
        (#[trigger] resolved_list(items, i, scope, used, done)).used,
    ) by {
        lemma_list_used(items, i, scope, used, done);
    }
    assert forall|iterable: Iterable, scope: Scope, used: Seq<(Seq<char>, ())>|
        ascending(used) implies ascending(
        (#[trigger] iterable_items(iterable, scope, used)).used,
    ) by {
        if let Iterable::Literal(literal) = iterable {
            lemma_literal_used(literal, scope, used);
        }
    }
    assert forall|expr: Condition, scope: Scope, used: Seq<(Seq<char>, ())>|
        ascending(used) implies ascending(
        (#[trigger] condition_value(expr, scope, used)).used,
    ) by {
        lemma_condition_used(expr, scope, used);
    }
}

} // verus!
