//! Argument tokens: how a flag's name is written on the command line, and
//! where a token first occurs among the arguments.

use vstd::prelude::*;
use vstd::utf8::encode_utf8;
use vstd::utf8::encode_utf8_decode_utf8;

verus! {

/// The two ways a flag is written on the command line.
#[derive(Clone, Copy, Debug)]
pub enum Style {
    /// A flag that is followed by its value: one hyphen before a name of one
    /// character or none, two hyphens before a longer name.
    Value,
    /// A flag that stands alone: always one hyphen.
    Solo,
}

/// The token that stands for the flag `name` among the arguments.
pub open spec fn token(name: Seq<char>, style: Style) -> Seq<char> {
    match style {
        Style::Value => if name.len() > 1 {
            seq!['-', '-'] + name
        } else {
            seq!['-'] + name
        },
        Style::Solo => seq!['-'] + name,
    }
}

/// A value flag whose name is one character long is written with one
/// hyphen, one with a longer name with two; a solo flag always with one.
pub proof fn lemma_token_by_length(name: Seq<char>)
    ensures
        name.len() == 1 ==> token(name, Style::Value) == seq!['-'] + name,
        name.len() > 1 ==> token(name, Style::Value) == seq!['-', '-'] + name,
        token(name, Style::Solo) == seq!['-'] + name,
{
}

/// Whether `i` is the first place in `list` that holds `word`.
pub open spec fn is_first_at(list: Seq<Seq<char>>, word: Seq<char>, i: int) -> bool {
    &&& 0 <= i < list.len()
    &&& list[i] == word
    &&& forall|j: int| 0 <= j < i ==> list[j] != word
}

/// The first place in `list` that holds `word`, if any does.
pub open spec fn first_index(list: Seq<Seq<char>>, word: Seq<char>) -> Option<int> {
    if exists|i: int| is_first_at(list, word, i) {
        Some(choose|i: int| is_first_at(list, word, i))
    } else {
        None
    }
}

/// A first occurrence is the only one: `first_index` returns it.
pub proof fn lemma_first_index_is(list: Seq<Seq<char>>, word: Seq<char>, i: int)
    requires
        is_first_at(list, word, i),
    ensures
        first_index(list, word) == Some(i),
{
    let k: int = choose|k: int| is_first_at(list, word, k);
    assert(is_first_at(list, word, k));
    if k < i {
        assert(list[k] != word);
    } else if i < k {
        assert(list[i] != word);
    }
}

/// `first_index` finds a word exactly when the list contains it.
pub proof fn lemma_first_index_contains(list: Seq<Seq<char>>, word: Seq<char>)
    ensures
        first_index(list, word) is Some <==> list.contains(word),
        first_index(list, word) matches Some(i) ==> is_first_at(list, word, i),
{
    if list.contains(word) {
        let k: int = choose|k: int| 0 <= k < list.len() && list[k] == word;
        lemma_least_occurrence(list, word, k);
    }
}

/// Below any occurrence of `word` there is a first one.
proof fn lemma_least_occurrence(list: Seq<Seq<char>>, word: Seq<char>, k: int)
    requires
        0 <= k < list.len(),
        list[k] == word,
    ensures
        exists|i: int| is_first_at(list, word, i),
    decreases k,
{
    if forall|j: int| 0 <= j < k ==> list[j] != word {
        assert(is_first_at(list, word, k));
    } else {
        let j: int = choose|j: int| 0 <= j < k && list[j] == word;
        lemma_least_occurrence(list, word, j);
    }
}

/// Writes the token for the flag `name`.
pub fn format_token(name: &str, style: Style) -> (t: String)
    ensures
        t@ == token(name@, style),
{
    let double = match style {
        Style::Value => name.unicode_len() > 1,
        Style::Solo => false,
    };
    proof {
        reveal_strlit("--");
        reveal_strlit("-");
    }
    let mut t = if double {
        String::from_str("--")
    } else {
        String::from_str("-")
    };
    assert(double ==> t@ =~= seq!['-', '-']);
    assert(!double ==> t@ =~= seq!['-']);
    t.append(name);
    t
}

/// Finds the first of `list` that equals `word`.
pub fn find_first(list: &Vec<String>, word: &String) -> (r: Option<usize>)
    ensures
        match r {
            Some(i) => i < list.len() && first_index(list.deep_view(), word@) == Some(i as int),
            None => first_index(list.deep_view(), word@) is None,
        },
{
    let ghost texts = list.deep_view();
    let mut i: usize = 0;
    while i < list.len()
        invariant
            i <= list.len(),
            texts == list.deep_view(),
            forall|j: int| 0 <= j < i ==> texts[j] != word@,
        decreases list.len() - i,
    {
        assert(texts[i as int] == list@[i as int]@);
        if list[i] == *word {
            proof {
                lemma_first_index_is(texts, word@, i as int);
            }
            return Some(i);
        }
        i += 1;
    }
    proof {
        lemma_first_index_contains(texts, word@);
    }
    None
}

/// Whether two strings hold the same characters.
pub fn same_text(a: &str, b: &str) -> (r: bool)
    ensures
        r == (a@ == b@),
{
    let x = a.as_bytes();
    let y = b.as_bytes();
    proof {
        encode_utf8_decode_utf8(a@);
        encode_utf8_decode_utf8(b@);
    }
    if x.len() != y.len() {
        return false;
    }
    let mut i: usize = 0;
    while i < x.len()
        invariant
            i <= x.len(),
            x.len() == y.len(),
            x@ == encode_utf8(a@),
            y@ == encode_utf8(b@),
            forall|j: int| 0 <= j < i ==> x@[j] == y@[j],
        decreases x.len() - i,
    {
        if x[i] != y[i] {
            assert(x@[i as int] != y@[i as int]);
            return false;
        }
        i += 1;
    }
    assert(x@ =~= y@);
    true
}

} // verus!
