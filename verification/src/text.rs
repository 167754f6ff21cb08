//! Text helpers shared by the lookups and the narration lines.

use vstd::prelude::*;
use vstd::string::*;

verus! {

/// Character-for-character comparison of two texts.
pub fn same_text(a: &str, b: &str) -> (r: bool)
    ensures
        r == (a@ == b@),
{
    let n = a.unicode_len();
    let m = b.unicode_len();
    if n != m {
        return false;
    }
    let mut i: usize = 0;
    while i < n
        invariant
            n == a@.len(),
            m == b@.len(),
            n == m,
            i <= n,
            forall|j: int| 0 <= j < i ==> a@[j] == b@[j],
        decreases n - i,
    {
        let ca = a.get_char(i);
        let cb = b.get_char(i);
        if ca != cb {
            return false;
        }
        i = i + 1;
    }
    assert(a@ =~= b@);
    true
}

/// The decimal digits of `n`, most significant first.
pub open spec fn decimal_digits(n: nat) -> Seq<char>
    decreases n,
{
    if n < 10 {
        seq![digit_char(n)]
    } else {
        decimal_digits(n / 10).push(digit_char(n % 10))
    }
}

pub open spec fn digit_char(d: nat) -> char {
    "0123456789"@[d as int]
}

/// The number a string of decimal digits spells, most significant first.
pub open spec fn digits_value(s: Seq<char>) -> int
    decreases s.len(),
{
    if s.len() == 0 {
        0
    } else {
        digits_value(s.drop_last()) * 10 + ((s.last() as int) - ('0' as int))
    }
}

proof fn lemma_digit_char(d: nat)
    requires
        d < 10,
    ensures
        (digit_char(d) as int) - ('0' as int) == d,
        '0' <= digit_char(d) <= '9',
{
    reveal_strlit("0123456789");
    if d == 0 {
    } else if d == 1 {
    } else if d == 2 {
    } else if d == 3 {
    } else if d == 4 {
    } else if d == 5 {
    } else if d == 6 {
    } else if d == 7 {
    } else if d == 8 {
    } else {
    }
}

/// The decimal rendering spells the number back: every character is a
/// digit, the first is not a zero unless the number is zero, and reading
/// the digits gives the number.
pub proof fn lemma_decimal_digits_spell(n: nat)
    ensures
        digits_value(decimal_digits(n)) == n,
        decimal_digits(n).len() >= 1,
        forall|i: int| 0 <= i < decimal_digits(n).len() ==> '0' <= #[trigger] decimal_digits(n)[i] <= '9',
        n > 0 ==> decimal_digits(n)[0] != '0',
    decreases n,
{
    if n < 10 {
        lemma_digit_char(n);
        let s = decimal_digits(n);
        assert(s.drop_last() =~= Seq::<char>::empty());
        assert(digits_value(s.drop_last()) == 0);
    } else {
        let q = n / 10;
        let r = n % 10;
        lemma_decimal_digits_spell(q);
        lemma_digit_char(r);
        let s = decimal_digits(n);
        let p = decimal_digits(q);
        assert(s == p.push(digit_char(r)));
        assert(s.drop_last() =~= p);
        assert forall|i: int| 0 <= i < s.len() implies '0' <= #[trigger] s[i] <= '9' by {
            if i < p.len() {
                assert(s[i] == p[i]);
            }
        }
        assert(s[0] == p[0]);
        assert(q > 0);
    }
}

/// Renders `n` in decimal.
pub fn decimal_text(n: u64) -> (s: String)
    ensures
        s@ == decimal_digits(n as nat),
    decreases n,
{
    let table = "0123456789";
    proof {
        reveal_strlit("0123456789");
    }
    if n < 10 {
        let d = n as usize;
        let piece = table.substring_char(d, d + 1);
        let s = String::from_str(piece);
        assert(s@ =~= seq![digit_char(n as nat)]);
        s
    } else {
        let mut s = decimal_text(n / 10);
        let d = (n % 10) as usize;
        let piece = table.substring_char(d, d + 1);
        s.append(piece);
        assert(s@ =~= decimal_digits((n / 10) as nat).push(digit_char((n % 10) as nat)));
        s
    }
}

/// Joins three pieces of text.
pub fn join3(a: &str, b: &str, c: &str) -> (s: String)
    ensures
        s@ == a@ + b@ + c@,
{
    let mut s = String::from_str(a);
    s.append(b);
    s.append(c);
    s
}

/// Index of the first key equal to `key`, if any.
pub open spec fn first_match(keys: Seq<Seq<char>>, key: Seq<char>) -> Option<int> {
    if exists|i: int| 0 <= i < keys.len() && #[trigger] keys[i] == key {
        Some(choose|i: int| 0 <= i < keys.len() && keys[i] == key
            && forall|j: int| 0 <= j < i ==> keys[j] != key)
    } else {
        None
    }
}

/// A key found at `i` with no earlier occurrence is the first match.
pub proof fn lemma_first_match(keys: Seq<Seq<char>>, key: Seq<char>, i: int)
    requires
        0 <= i < keys.len(),
        keys[i] == key,
        forall|j: int| 0 <= j < i ==> keys[j] != key,
    ensures
        first_match(keys, key) == Some(i),
{
    let k = choose|k: int| 0 <= k < keys.len() && keys[k] == key
        && forall|j: int| 0 <= j < k ==> keys[j] != key;
    assert(keys[i] == key);
    if k > i {
        assert(keys[i] != key);
    }
}

/// What `first_match` says about the keys.
pub proof fn lemma_first_match_facts(keys: Seq<Seq<char>>, key: Seq<char>)
    ensures
        match first_match(keys, key) {
            Some(i) => {
                &&& 0 <= i < keys.len()
                &&& keys[i] == key
                &&& forall|j: int| 0 <= j < i ==> keys[j] != key
            },
            None => forall|j: int| 0 <= j < keys.len() ==> keys[j] != key,
        },
{
    if exists|i: int| 0 <= i < keys.len() && #[trigger] keys[i] == key {
        let w = choose|i: int| 0 <= i < keys.len() && #[trigger] keys[i] == key;
        lemma_least_match(keys, key, w);
    }
}

proof fn lemma_least_match(keys: Seq<Seq<char>>, key: Seq<char>, w: int)
    requires
        0 <= w < keys.len(),
        keys[w] == key,
    ensures
        exists|i: int| 0 <= i < keys.len() && keys[i] == key
            && forall|j: int| 0 <= j < i ==> keys[j] != key,
    decreases w,
{
    if exists|j: int| 0 <= j < w && keys[j] == key {
        let j = choose|j: int| 0 <= j < w && keys[j] == key;
        lemma_least_match(keys, key, j);
    } else {
        assert(forall|j: int| 0 <= j < w ==> keys[j] != key);
    }
}

/// Keys that agree wherever `key` or `other` could first occur give the same
/// first match for `other`.
pub proof fn lemma_first_match_same_keys(a: Seq<Seq<char>>, b: Seq<Seq<char>>, key: Seq<char>)
    requires
        a.len() <= b.len(),
        forall|j: int| 0 <= j < a.len() ==> a[j] == b[j],
        forall|j: int| a.len() <= j < b.len() ==> b[j] != key,
    ensures
        first_match(a, key) == first_match(b, key),
{
    lemma_first_match_facts(a, key);
    lemma_first_match_facts(b, key);
    match first_match(a, key) {
        Some(i) => {
            lemma_first_match(b, key, i);
        },
        None => {
            match first_match(b, key) {
                Some(i) => {
                    assert(b[i] == key);
                    if i < a.len() {
                        assert(a[i] == key);
                    }
                },
                None => {},
            }
        },
    }
}

/// No key occurs twice.
pub open spec fn keys_unique(keys: Seq<Seq<char>>) -> bool {
    forall|i: int, j: int| 0 <= i < j < keys.len() ==> keys[i] != keys[j]
}

/// Among unique keys, each key's first match is its own position.
pub proof fn lemma_unique_first_match(keys: Seq<Seq<char>>, k: int)
    requires
        keys_unique(keys),
        0 <= k < keys.len(),
    ensures
        first_match(keys, keys[k]) == Some(k),
{
    assert forall|j: int| 0 <= j < k implies keys[j] != keys[k] by {}
    lemma_first_match(keys, keys[k], k);
}

/// Records that carry a text key.
pub trait Keyed {
    spec fn key(&self) -> Seq<char>;

    fn key_text(&self) -> (r: &str)
        ensures
            r@ == self.key();
}

/// The keys of a list of records, in order.
pub open spec fn keys_of<T: Keyed>(items: Seq<T>) -> Seq<Seq<char>> {
    items.map_values(|x: T| x.key())
}

/// Whether no two records of the list share a key.
pub fn keys_distinct<T: Keyed>(items: &Vec<T>) -> (r: bool)
    ensures
        r == keys_unique(keys_of(items@)),
{
    let ghost ks = keys_of(items@);
    let mut i: usize = 0;
    while i < items.len()
        invariant
            i <= items@.len(),
            ks == keys_of(items@),
            forall|a: int, b: int| 0 <= a < b < ks.len() && a < i ==> ks[a] != ks[b],
        decreases items@.len() - i,
    {
        let mut j: usize = i + 1;
        while j < items.len()
            invariant
                i < items@.len(),
                i + 1 <= j <= items@.len(),
                ks == keys_of(items@),
                forall|a: int, b: int| 0 <= a < b < ks.len() && a < i ==> ks[a] != ks[b],
                forall|b: int| i < b < j ==> ks[i as int] != ks[b],
            decreases items@.len() - j,
        {
            if same_text(items[i].key_text(), items[j].key_text()) {
                assert(ks[i as int] == ks[j as int]);
                return false;
            }
            j = j + 1;
        }
        i = i + 1;
    }
    true
}

} // verus!
