//! The secret store of a run: values under keys, the keys that were read,
//! and the masking of values in messages.

use crate::assoc::{ascending, index, inserted, lemma_inserted_ascending, lookup};
use crate::text::{
    chars_of, copy_chars, matches_at, occurs_in, replace, replaced, replaced_from, string_of,
};
use vstd::prelude::*;

verus! {

/// The secrets of a run. `values` is a table in the order of its keys;
/// `usage` holds the keys that were resolved, in order, each once.
#[derive(Debug)]
pub struct SecretStore {
    pub values: Vec<(String, String)>,
    pub usage: Vec<(String, ())>,
}

/// The mathematical value of a `SecretStore`.
pub struct SecretsView {
    pub values: Seq<(Seq<char>, Seq<char>)>,
    pub usage: Seq<(Seq<char>, ())>,
}

impl SecretsView {
    /// Whether both tables stand in the order of their keys, each key once.
    pub open spec fn ordered(self) -> bool {
        ascending(self.values) && ascending(self.usage)
    }
}

impl DeepView for SecretStore {
    type V = SecretsView;

    open spec fn deep_view(&self) -> SecretsView {
        SecretsView { values: self.values.deep_view(), usage: self.usage.deep_view() }
    }
}

/// The token that stands for a secret value in a message.
pub open spec fn redaction() -> Seq<char> {
    seq!['*', '*', '*']
}

/// `text` with every value from index `i` on, taken in order, replaced by
/// the redaction token; an empty value replaces nothing.
pub open spec fn masked_from(values: Seq<(Seq<char>, Seq<char>)>, i: int, text: Seq<char>) -> Seq<
    char,
>
    decreases values.len() - i,
{
    if i < 0 || i >= values.len() {
        text
    } else {
        masked_from(
            values,
            i + 1,
            if values[i].1.len() > 0 {
                replaced(text, values[i].1, redaction())
            } else {
                text
            },
        )
    }
}

/// `text` with every secret value replaced by the redaction token.
pub open spec fn masked(values: Seq<(Seq<char>, Seq<char>)>, text: Seq<char>) -> Seq<char> {
    masked_from(values, 0, text)
}

/// The store with `value` under `key`, unless the key holds a value.
pub open spec fn kept_or_inserted(
    values: Seq<(Seq<char>, Seq<char>)>,
    key: Seq<char>,
    value: Seq<char>,
) -> Seq<(Seq<char>, Seq<char>)> {
    if index(values, key) is Some {
        values
    } else {
        inserted(values, key, value)
    }
}

impl SecretStore {
    /// An empty store.
    pub fn new() -> (r: SecretStore)
        ensures
            r.deep_view() == (SecretsView { values: Seq::empty(), usage: Seq::empty() }),
            r.deep_view().ordered(),
    {
        let r = SecretStore { values: Vec::new(), usage: Vec::new() };
        assert(r.values.deep_view() =~= Seq::empty());
        assert(r.usage.deep_view() =~= Seq::empty());
        r
    }

    /// Stores `value` under `key` unless the key holds a value already.
    pub fn insert(&mut self, key: String, value: String)
        ensures
            final(self).deep_view() == (SecretsView {
                values: kept_or_inserted(old(self).deep_view().values, key@, value@),
                ..old(self).deep_view()
            }),
            old(self).deep_view().ordered() ==> final(self).deep_view().ordered(),
    {
        proof {
            if self.deep_view().ordered() {
                lemma_inserted_ascending(self.deep_view().values, key@, value@);
            }
        }
        let k = chars_of(key.as_str());
        if crate::assoc::position(&self.values, &k).is_none() {
            crate::assoc::insert(&mut self.values, key, value);
        }
    }

    /// Stores `value` under `key`, in place of what the key held.
    pub fn set(&mut self, key: String, value: String)
        ensures
            final(self).deep_view() == (SecretsView {
                values: inserted(old(self).deep_view().values, key@, value@),
                ..old(self).deep_view()
            }),
            old(self).deep_view().ordered() ==> final(self).deep_view().ordered(),
    {
        proof {
            if self.deep_view().ordered() {
                lemma_inserted_ascending(self.deep_view().values, key@, value@);
            }
        }
        crate::assoc::insert(&mut self.values, key, value);
    }

    /// The value under `key`; the key is then marked as used.
    pub fn resolve(&mut self, key: &Vec<char>) -> (r: Option<String>)
        ensures
            r.deep_view() == lookup(old(self).deep_view().values, key@),
            final(self).deep_view().values == old(self).deep_view().values,
            final(self).deep_view().usage == if r is Some {
                inserted(old(self).deep_view().usage, key@, ())
            } else {
                old(self).deep_view().usage
            },
            old(self).deep_view().ordered() ==> final(self).deep_view().ordered(),
    {
        proof {
            if self.deep_view().ordered() {
                lemma_inserted_ascending(self.deep_view().usage, key@, ());
            }
        }
        match crate::assoc::position(&self.values, key) {
            Some(i) => {
                assert(self.values.deep_view()[i as int].1 == self.values[i as int].1@);
                let value = self.values[i].1.clone();
                crate::assoc::insert(&mut self.usage, string_of(key), ());
                Some(value)
            },
            None => None,
        }
    }

    /// The value under `key`, which is not marked as used.
    pub fn peek(&self, key: &Vec<char>) -> (r: Option<String>)
        ensures
            r.deep_view() == lookup(self.deep_view().values, key@),
    {
        match crate::assoc::position(&self.values, key) {
            Some(i) => {
                assert(self.values.deep_view()[i as int].1 == self.values[i as int].1@);
                Some(self.values[i].1.clone())
            },
            None => None,
        }
    }

    /// `input` with every secret value replaced by `***`.
    pub fn mask_chars(&self, input: &Vec<char>) -> (r: Vec<char>)
        ensures
            r@ == masked(self.deep_view().values, input@),
    {
        let mut out = copy_chars(input);
        let mut token: Vec<char> = Vec::new();
        token.push('*');
        token.push('*');
        token.push('*');
        assert(token@ =~= redaction());
        let mut i: usize = 0;
        while i < self.values.len()
            invariant
                i <= self.values.len(),
                token@ == redaction(),
                masked(self.deep_view().values, input@) == masked_from(
                    self.deep_view().values,
                    i as int,
                    out@,
                ),
            decreases self.values.len() - i,
        {
            assert(self.values.deep_view()[i as int].1 == self.values[i as int].1@);
            let value = chars_of(self.values[i].1.as_str());
            if value.len() > 0 {
                out = replace(&out, &value, &token);
            }
            i += 1;
        }
        out
    }

    /// `input` with every secret value replaced by `***`.
    pub fn mask(&self, input: &str) -> (r: String)
        ensures
            r@ == masked(self.deep_view().values, input@),
    {
        string_of(&self.mask_chars(&chars_of(input)))
    }
}

// ---------------------------------------------------------------------------
// What masking guarantees
// ---------------------------------------------------------------------------

/// No character of `value` is an asterisk.
pub open spec fn star_free(value: Seq<char>) -> bool {
    forall|i: int| 0 <= i < value.len() ==> #[trigger] value[i] != '*'
}

/// The last `tail` characters of `done` are the characters of `text` before
/// `i`, and an asterisk stands before them unless they are all of `done`.
pub open spec fn tail_of(done: Seq<char>, tail: int, text: Seq<char>, i: int) -> bool {
    &&& 0 <= tail <= done.len()
    &&& tail <= i <= text.len()
    &&& forall|d: int|
        0 <= d < tail ==> #[trigger] done[done.len() - tail + d] == text[i - tail + d]
    &&& (tail < done.len() ==> done[done.len() - tail - 1] == '*')
}

/// Replacing `value` from the left writes no occurrence of a word that
/// holds no asterisk, where the word is the value itself or does not occur
/// in the text: `done` is what was written up to index `i`.
proof fn lemma_replacing_writes_no(
    text: Seq<char>,
    value: Seq<char>,
    word: Seq<char>,
    i: int,
    done: Seq<char>,
    tail: int,
)
    requires
        value.len() > 0,
        word.len() > 0,
        star_free(word),
        word == value || !occurs_in(word, text),
        tail_of(done, tail, text, i),
        forall|k: int| !matches_at(done, word, k),
        forall|k: int| i - tail <= k < i ==> !matches_at(text, word, k),
    ensures
        !occurs_in(word, done + replaced_from(text, value, redaction(), i)),
    decreases text.len() - i,
{
    let with = redaction();
    let rest = replaced_from(text, value, with, i);
    let whole = done + rest;
    if i >= text.len() {
        assert(rest =~= Seq::empty());
        assert(whole =~= done);
    } else if matches_at(text, value, i) {
        let done2 = done + with;
        let i2 = i + value.len();
        assert forall|k: int| !matches_at(done2, word, k) by {
            if matches_at(done2, word, k) {
                if k + word.len() > done.len() {
                    // the occurrence would reach into the token
                    let at = if k >= done.len() {
                        k
                    } else {
                        done.len() as int
                    };
                    assert(done2[at] == '*');
                    assert(done2.subrange(k, k + word.len())[at - k] == done2[at]);
                    assert(word[at - k] == '*');
                } else {
                    assert(done.subrange(k, k + word.len()) =~= done2.subrange(
                        k,
                        k + word.len(),
                    ));
                    assert(matches_at(done, word, k));
                }
            }
        }
        assert(tail_of(done2, 0, text, i2)) by {
            assert(done2[done2.len() - 1] == '*');
        }
        lemma_replacing_writes_no(text, value, word, i2, done2, 0);
        assert(done2 + replaced_from(text, value, with, i2) =~= whole);
    } else {
        let c = text[i];
        let done2 = done.push(c);
        let i2 = i + 1;
        let tail2 = tail + 1;
        assert(!matches_at(text, word, i)) by {
            if word != value && matches_at(text, word, i) {
                assert(occurs_in(word, text));
            }
        }
        assert(tail_of(done2, tail2, text, i2)) by {
            assert forall|d: int| 0 <= d < tail2 implies #[trigger] done2[done2.len() - tail2 + d]
                == text[i2 - tail2 + d] by {
                if d < tail {
                    assert(done2[done2.len() - tail2 + d] == done[done.len() - tail + d]);
                }
            }
            if tail2 < done2.len() {
                assert(done2[done2.len() - tail2 - 1] == done[done.len() - tail - 1]);
            }
        }
        assert forall|k: int| !matches_at(done2, word, k) by {
            if matches_at(done2, word, k) {
                if k + word.len() <= done.len() {
                    assert(done.subrange(k, k + word.len()) =~= done2.subrange(
                        k,
                        k + word.len(),
                    ));
                    assert(matches_at(done, word, k));
                } else if k >= done2.len() - tail2 {
                    // the occurrence lies in the tail, so it lies in the text
                    let at = i2 - (done2.len() - k);
                    assert forall|d: int| 0 <= d < word.len() implies text[at + d] == word[d] by {
                        let e = k - (done2.len() - tail2) + d;
                        assert(done2[done2.len() - tail2 + e] == text[i2 - tail2 + e]);
                        assert(done2.subrange(k, k + word.len())[d] == done2[k + d]);
                    }
                    assert(text.subrange(at, at + word.len()) =~= word);
                    assert(matches_at(text, word, at));
                } else {
                    // the occurrence would reach over the asterisk before the tail
                    let at = done2.len() - tail2 - 1;
                    assert(done2[at] == done[at]);
                    assert(done2.subrange(k, k + word.len())[at - k] == done2[at]);
                    assert(word[at - k] == '*');
                }
            }
        }
        lemma_replacing_writes_no(text, value, word, i2, done2, tail2);
        assert(done2 + replaced_from(text, value, with, i2) =~= whole) by {
            assert(rest =~= seq![c] + replaced_from(text, value, with, i2));
        }
    }
}

/// A text in which a value without asterisks was replaced by the redaction
/// token does not hold the value.
pub proof fn lemma_replaced_hides(text: Seq<char>, value: Seq<char>)
    requires
        value.len() > 0,
        star_free(value),
    ensures
        !occurs_in(value, replaced(text, value, redaction())),
{
    lemma_replacing_writes_no(text, value, value, 0, Seq::empty(), 0);
    assert(Seq::<char>::empty() + replaced_from(text, value, redaction(), 0) =~= replaced(
        text,
        value,
        redaction(),
    ));
}

/// Replacing one value brings no occurrence of a word without asterisks
/// into a text that held none.
pub proof fn lemma_replaced_keeps_hidden(text: Seq<char>, value: Seq<char>, word: Seq<char>)
    requires
        word.len() > 0,
        star_free(word),
        !occurs_in(word, text),
    ensures
        !occurs_in(word, replaced(text, value, redaction())),
{
    if value.len() > 0 {
        lemma_replacing_writes_no(text, value, word, 0, Seq::empty(), 0);
        assert(Seq::<char>::empty() + replaced_from(text, value, redaction(), 0) =~= replaced(
            text,
            value,
            redaction(),
        ));
    }
}

proof fn lemma_masked_keeps_hidden(
    values: Seq<(Seq<char>, Seq<char>)>,
    i: int,
    text: Seq<char>,
    word: Seq<char>,
)
    requires
        0 <= i,
        word.len() > 0,
        star_free(word),
        !occurs_in(word, text),
    ensures
        !occurs_in(word, masked_from(values, i, text)),
    decreases values.len() - i,
{
    if i < values.len() {
        if values[i].1.len() > 0 {
            lemma_replaced_keeps_hidden(text, values[i].1, word);
            lemma_masked_keeps_hidden(values, i + 1, replaced(text, values[i].1, redaction()), word);
        } else {
            lemma_masked_keeps_hidden(values, i + 1, text, word);
        }
    }
}

proof fn lemma_masked_from_hides(
    values: Seq<(Seq<char>, Seq<char>)>,
    i: int,
    text: Seq<char>,
    which: int,
)
    requires
        0 <= i <= which < values.len(),
        values[which].1.len() > 0,
        star_free(values[which].1),
    ensures
        !occurs_in(values[which].1, masked_from(values, i, text)),
    decreases values.len() - i,
{
    let word = values[which].1;
    let next = if values[i].1.len() > 0 {
        replaced(text, values[i].1, redaction())
    } else {
        text
    };
    if i == which {
        lemma_replaced_hides(text, word);
        lemma_masked_keeps_hidden(values, i + 1, next, word);
    } else {
        lemma_masked_from_hides(values, i + 1, next, which);
    }
}

/// A masked text holds no secret value that is not empty and holds no
/// asterisk, whatever the text was.
pub proof fn lemma_masked_hides(values: Seq<(Seq<char>, Seq<char>)>, text: Seq<char>, which: int)
    requires
        0 <= which < values.len(),
        values[which].1.len() > 0,
        star_free(values[which].1),
    ensures
        !occurs_in(values[which].1, masked(values, text)),
{
    lemma_masked_from_hides(values, 0, text, which);
}

} // verus!
