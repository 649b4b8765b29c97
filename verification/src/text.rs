//! Decimal rendering of integers and the text helpers built on it.

use vstd::prelude::*;
use vstd::seq_lib::{to_multiset_build, to_multiset_insert};

verus! {

/// The character of a decimal digit.
pub open spec fn digit_char(d: nat) -> char {
    if d == 0 { '0' }
    else if d == 1 { '1' }
    else if d == 2 { '2' }
    else if d == 3 { '3' }
    else if d == 4 { '4' }
    else if d == 5 { '5' }
    else if d == 6 { '6' }
    else if d == 7 { '7' }
    else if d == 8 { '8' }
    else { '9' }
}

/// The decimal representation of `n`, most significant digit first, with no
/// leading zeros (`0` is written as a single digit).
pub open spec fn decimal(n: nat) -> Seq<char>
    decreases n,
{
    if n < 10 {
        seq![digit_char(n)]
    } else {
        decimal(n / 10).push(digit_char(n % 10))
    }
}

/// The text of the decimal digit `d`.
fn digit_text(d: u8) -> (t: &'static str)
    requires
        d < 10,
    ensures
        t@ == seq![digit_char(d as nat)],
{
    if d == 0 {
        proof { reveal_strlit("0"); }
        "0"
    } else if d == 1 {
        proof { reveal_strlit("1"); }
        "1"
    } else if d == 2 {
        proof { reveal_strlit("2"); }
        "2"
    } else if d == 3 {
        proof { reveal_strlit("3"); }
        "3"
    } else if d == 4 {
        proof { reveal_strlit("4"); }
        "4"
    } else if d == 5 {
        proof { reveal_strlit("5"); }
        "5"
    } else if d == 6 {
        proof { reveal_strlit("6"); }
        "6"
    } else if d == 7 {
        proof { reveal_strlit("7"); }
        "7"
    } else if d == 8 {
        proof { reveal_strlit("8"); }
        "8"
    } else {
        proof { reveal_strlit("9"); }
        "9"
    }
}

/// The decimal representation of `n` as a string.
pub(crate) fn decimal_string(n: u64) -> (s: String)
    ensures
        s@ == decimal(n as nat),
{
    decimal_string_u128(n as u128)
}

/// The decimal representation of a 128-bit `n` as a string.
pub(crate) fn decimal_string_u128(n: u128) -> (s: String)
    ensures
        s@ == decimal(n as nat),
    decreases n,
{
    if n < 10 {
        String::from_str(digit_text(n as u8))
    } else {
        let mut s = decimal_string_u128(n / 10);
        s.append(digit_text((n % 10) as u8));
        s
    }
}

/// Concatenation of a string and a string slice.
pub fn join(prefix: String, suffix: &str) -> (s: String)
    ensures
        s@ == prefix@ + suffix@,
{
    prefix.concat(suffix)
}

/// Strict lexicographic order of character sequences (the order of `String`).
pub open spec fn text_lt(a: Seq<char>, b: Seq<char>) -> bool
    decreases a.len(),
{
    if a.len() == 0 {
        b.len() > 0
    } else if b.len() == 0 {
        false
    } else if (a[0] as int) < (b[0] as int) {
        true
    } else if (a[0] as int) > (b[0] as int) {
        false
    } else {
        text_lt(a.skip(1), b.skip(1))
    }
}

/// `a` sorts no later than `b`.
pub open spec fn text_le(a: Seq<char>, b: Seq<char>) -> bool {
    !text_lt(b, a)
}

/// The sequence is sorted in string order.
pub open spec fn texts_sorted(s: Seq<Seq<char>>) -> bool {
    forall|i: int, j: int| 0 <= i < j < s.len() ==> text_le(#[trigger] s[i], #[trigger] s[j])
}

/// The character views of a sequence of strings.
pub open spec fn texts(v: Seq<String>) -> Seq<Seq<char>> {
    Seq::new(v.len(), |i: int| v[i]@)
}

/// String order is irreflexive, total and transitive.
pub proof fn lemma_text_order(a: Seq<char>, b: Seq<char>, c: Seq<char>)
    ensures
        !text_lt(a, a),
        text_lt(a, b) || text_lt(b, a) || a == b,
        text_lt(a, b) ==> !text_lt(b, a),
        text_lt(a, b) && text_lt(b, c) ==> text_lt(a, c),
    decreases a.len(),
{
    if a.len() > 0 && b.len() > 0 {
        let c1 = if c.len() > 0 {
            c.skip(1)
        } else {
            c
        };
        lemma_text_order(a.skip(1), b.skip(1), c1);
        if (a[0] as int) == (b[0] as int) && a.skip(1) == b.skip(1) {
            assert(a[0] == b[0]);
            assert(a =~= seq![a[0]] + a.skip(1));
            assert(b =~= seq![b[0]] + b.skip(1));
        }
    } else if a.len() > 0 {
        lemma_text_order(a.skip(1), a.skip(1), a.skip(1));
    } else if b.len() == 0 {
        assert(a =~= b);
    }
}

/// Whether `a` sorts strictly before `b`.
pub fn text_less(a: &str, b: &str) -> (r: bool)
    ensures
        r == text_lt(a@, b@),
{
    let la = a.unicode_len();
    let lb = b.unicode_len();
    let mut i: usize = 0;
    assert(a@.skip(0) =~= a@);
    assert(b@.skip(0) =~= b@);
    while i < la && i < lb
        invariant
            la == a@.len(),
            lb == b@.len(),
            i <= la,
            i <= lb,
            forall|k: int| 0 <= k < i ==> a@[k] == b@[k],
            text_lt(a@, b@) == text_lt(a@.skip(i as int), b@.skip(i as int)),
        decreases la - i,
    {
        let ca = a.get_char(i);
        let cb = b.get_char(i);
        let ghost sa = a@.skip(i as int);
        let ghost sb = b@.skip(i as int);
        assert(sa[0] == ca && sb[0] == cb);
        if (ca as u32) < (cb as u32) {
            return true;
        }
        if (ca as u32) > (cb as u32) {
            return false;
        }
        assert(sa.skip(1) =~= a@.skip(i + 1));
        assert(sb.skip(1) =~= b@.skip(i + 1));
        i = i + 1;
    }
    i == la && i < lb
}

/// The strings of `v` in string order.
pub fn sort_strings(v: Vec<String>) -> (r: Vec<String>)
    ensures
        texts_sorted(texts(r@)),
        texts(r@).to_multiset() == texts(v@).to_multiset(),
{
    let mut sorted: Vec<String> = Vec::new();
    let mut i: usize = 0;
    assert(texts(sorted@) =~= Seq::<Seq<char>>::empty());
    assert(texts(v@.take(0)) =~= Seq::<Seq<char>>::empty());
    while i < v.len()
        invariant
            i <= v@.len(),
            texts_sorted(texts(sorted@)),
            texts(sorted@).to_multiset() == texts(v@.take(i as int)).to_multiset(),
        decreases v@.len() - i,
    {
        let x = v[i].clone();
        let mut p: usize = 0;
        while p < sorted.len() && !text_less(x.as_str(), sorted[p].as_str())
            invariant
                p <= sorted@.len(),
                forall|k: int| 0 <= k < p ==> text_le(#[trigger] sorted@[k]@, x@),
            decreases sorted@.len() - p,
        {
            p = p + 1;
        }
        let ghost before = texts(sorted@);
        sorted.insert(p, x);
        proof {
            let after = texts(sorted@);
            assert(after =~= before.insert(p as int, x@));
            assert forall|a: int, b: int| 0 <= a < b < after.len() implies text_le(
                #[trigger] after[a],
                #[trigger] after[b],
            ) by {
                lemma_text_order(after[a], after[b], x@);
                if p < before.len() {
                    lemma_text_order(x@, before[p as int], after[b]);
                    lemma_text_order(after[a], x@, before[p as int]);
                }
                if b > p && a < p {
                    lemma_text_order(after[a], x@, after[b]);
                    lemma_text_order(after[b], x@, after[a]);
                    if p < before.len() {
                        lemma_text_order(x@, before[p as int], after[b]);
                        lemma_text_order(after[b], before[p as int], x@);
                    }
                }
                if a == p && b > p {
                    lemma_text_order(x@, before[p as int], after[b]);
                    lemma_text_order(after[b], before[p as int], x@);
                }
            }
            assert(v@.take(i + 1) =~= v@.take(i as int).push(v@[i as int]));
            assert(texts(v@.take(i + 1)) =~= texts(v@.take(i as int)).push(x@));
            before.insert_ensures(p as int, x@);
            to_multiset_insert(before, p as int, x@);
            to_multiset_build(texts(v@.take(i as int)), x@);
        }
        i = i + 1;
    }
    proof {
        assert(v@.take(v@.len() as int) =~= v@);
    }
    sorted
}

} // verus!
