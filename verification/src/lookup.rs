//! Association lists: the maps of the settings file are held as vectors of
//! key-value pairs, and looked up by the first matching key.

use vstd::prelude::*;

use crate::text::text_equal;

verus! {

/// The first index at or after `i` where `s` holds `x`.
pub open spec fn position_from<T>(s: Seq<T>, x: T, i: int) -> Option<int>
    decreases s.len() - i,
{
    if i < 0 || i >= s.len() {
        None
    } else if s[i] == x {
        Some(i)
    } else {
        position_from(s, x, i + 1)
    }
}

/// The first index where `s` holds `x`.
pub open spec fn position<T>(s: Seq<T>, x: T) -> Option<int> {
    position_from(s, x, 0)
}

/// No value occurs twice in `s`.
pub open spec fn no_repeats<T>(s: Seq<T>) -> bool {
    forall|i: int, j: int| 0 <= i < j < s.len() ==> s[i] != s[j]
}

/// The keys of an association list with text keys.
pub open spec fn text_keys<V>(entries: Seq<(String, V)>) -> Seq<Seq<char>> {
    entries.map_values(|e: (String, V)| e.0@)
}

/// The keys of an association list with integer keys.
pub open spec fn int_keys<V>(entries: Seq<(i64, V)>) -> Seq<i64> {
    entries.map_values(|e: (i64, V)| e.0)
}

/// The texts of a vector of strings.
pub open spec fn texts(strings: Seq<String>) -> Seq<Seq<char>> {
    strings.map_values(|s: String| s@)
}

/// What `position_from` says, spelt out.
pub proof fn lemma_position_from<T>(s: Seq<T>, x: T, i: int)
    requires
        0 <= i,
    ensures
        match position_from(s, x, i) {
            Some(k) => i <= k < s.len() && s[k] == x && forall|j: int| i <= j < k ==> s[j] != x,
            None => forall|j: int| i <= j < s.len() ==> s[j] != x,
        },
    decreases s.len() - i,
{
    if i < s.len() && s[i] != x {
        lemma_position_from(s, x, i + 1);
    }
}

/// What `position` says, spelt out.
pub proof fn lemma_position<T>(s: Seq<T>, x: T)
    ensures
        match position(s, x) {
            Some(k) => 0 <= k < s.len() && s[k] == x && forall|j: int| 0 <= j < k ==> s[j] != x,
            None => !s.contains(x),
        },
{
    lemma_position_from(s, x, 0);
}

/// The first entry whose key is `key`.
pub fn find_text_key<V>(entries: &Vec<(String, V)>, key: &str) -> (r: Option<usize>)
    ensures
        match position(text_keys(entries@), key@) {
            Some(k) => r matches Some(i) && i == k,
            None => r is None,
        },
        r matches Some(k) ==> k < entries@.len() && entries@[k as int].0@ == key@,
{
    proof {
        lemma_position(text_keys(entries@), key@);
    }
    let ghost keys = text_keys(entries@);
    let mut i: usize = 0;
    while i < entries.len()
        invariant
            i <= entries@.len(),
            keys == text_keys(entries@),
            position(keys, key@) == position_from(keys, key@, i as int),
        decreases entries@.len() - i,
    {
        if text_equal(entries[i].0.as_str(), key) {
            return Some(i);
        }
        i = i + 1;
    }
    None
}

/// The first entry whose key is `key`.
pub fn find_int_key<V>(entries: &Vec<(i64, V)>, key: i64) -> (r: Option<usize>)
    ensures
        match position(int_keys(entries@), key) {
            Some(k) => r matches Some(i) && i == k,
            None => r is None,
        },
        r matches Some(k) ==> k < entries@.len() && entries@[k as int].0 == key,
{
    proof {
        lemma_position(int_keys(entries@), key);
    }
    let ghost keys = int_keys(entries@);
    let mut i: usize = 0;
    while i < entries.len()
        invariant
            i <= entries@.len(),
            keys == int_keys(entries@),
            position(keys, key) == position_from(keys, key, i as int),
        decreases entries@.len() - i,
    {
        if entries[i].0 == key {
            return Some(i);
        }
        i = i + 1;
    }
    None
}

/// Whether `strings` holds `text`.
pub fn contains_text(strings: &Vec<String>, text: &str) -> (r: bool)
    ensures
        r == texts(strings@).contains(text@),
{
    let mut i: usize = 0;
    while i < strings.len()
        invariant
            i <= strings@.len(),
            forall|j: int| 0 <= j < i ==> texts(strings@)[j] != text@,
        decreases strings@.len() - i,
    {
        if text_equal(strings[i].as_str(), text) {
            assert(texts(strings@)[i as int] == text@);
            return true;
        }
        i = i + 1;
    }
    false
}

/// Both sequences hold the same values, regardless of order and repetition.
pub open spec fn same_members<T>(a: Seq<T>, b: Seq<T>) -> bool {
    forall|x: T| a.contains(x) == b.contains(x)
}

pub fn same_ids(a: &Vec<i64>, b: &Vec<i64>) -> (r: bool)
    ensures
        r == same_members(a@, b@),
{
    let mut i: usize = 0;
    while i < a.len()
        invariant
            i <= a@.len(),
            forall|k: int| 0 <= k < i ==> b@.contains(#[trigger] a@[k]),
        decreases a@.len() - i,
    {
        if !contains_id(b, a[i]) {
            assert(a@.contains(a@[i as int]));
            return false;
        }
        i = i + 1;
    }
    let mut j: usize = 0;
    while j < b.len()
        invariant
            j <= b@.len(),
            forall|k: int| 0 <= k < a@.len() ==> b@.contains(#[trigger] a@[k]),
            forall|k: int| 0 <= k < j ==> a@.contains(#[trigger] b@[k]),
        decreases b@.len() - j,
    {
        if !contains_id(a, b[j]) {
            assert(b@.contains(b@[j as int]));
            return false;
        }
        j = j + 1;
    }
    assert forall|x: i64| a@.contains(x) == b@.contains(x) by {
        if a@.contains(x) {
            let k = choose|k: int| 0 <= k < a@.len() && a@[k] == x;
            assert(b@.contains(a@[k]));
        }
        if b@.contains(x) {
            let k = choose|k: int| 0 <= k < b@.len() && b@[k] == x;
            assert(a@.contains(b@[k]));
        }
    }
    true
}

/// Whether `v` holds `x`.
pub fn contains_id(v: &Vec<i64>, x: i64) -> (r: bool)
    ensures
        r == v@.contains(x),
{
    let mut i: usize = 0;
    while i < v.len()
        invariant
            i <= v@.len(),
            forall|k: int| 0 <= k < i ==> v@[k] != x,
        decreases v@.len() - i,
    {
        if v[i] == x {
            assert(v@[i as int] == x);
            return true;
        }
        i = i + 1;
    }
    false
}

pub fn ids_without_repeats(v: &Vec<i64>) -> (r: bool)
    ensures
        r == no_repeats(v@),
{
    let mut j: usize = 0;
    while j < v.len()
        invariant
            j <= v@.len(),
            forall|a: int, b: int| 0 <= a < b < j ==> v@[a] != v@[b],
        decreases v@.len() - j,
    {
        let mut i: usize = 0;
        while i < j
            invariant
                i <= j < v@.len(),
                forall|a: int| 0 <= a < i ==> v@[a] != v@[j as int],
            decreases j - i,
        {
            if v[i] == v[j] {
                return false;
            }
            i = i + 1;
        }
        j = j + 1;
    }
    true
}

pub fn texts_without_repeats(v: &Vec<String>) -> (r: bool)
    ensures
        r == no_repeats(texts(v@)),
{
    let mut j: usize = 0;
    while j < v.len()
        invariant
            j <= v@.len(),
            forall|a: int, b: int| 0 <= a < b < j ==> texts(v@)[a] != texts(v@)[b],
        decreases v@.len() - j,
    {
        let mut i: usize = 0;
        while i < j
            invariant
                i <= j < v@.len(),
                forall|a: int| 0 <= a < i ==> texts(v@)[a] != texts(v@)[j as int],
            decreases j - i,
        {
            if v[i] == v[j] {
                assert(texts(v@)[i as int] == texts(v@)[j as int]);
                return false;
            }
            i = i + 1;
        }
        j = j + 1;
    }
    true
}

/// In a sequence without repeats, the position of an element is its index.
pub proof fn lemma_position_of_unique<T>(s: Seq<T>, k: int)
    requires
        no_repeats(s),
        0 <= k < s.len(),
    ensures
        position(s, s[k]) == Some(k),
{
    lemma_position(s, s[k]);
    if let Some(j) = position(s, s[k]) {
        if j > k {
            assert(s[k] != s[j]);
        } else if j < k {
            assert(s[j] != s[k]);
        }
    }
}

} // verus!
