//! Character-level reading of command-line tokens: decimal numbers,
//! `--name=value` splitting and comma-separated lists.

use vstd::prelude::*;
use crate::text::{decimal, digit_char};

verus! {

/// The character is an ASCII decimal digit.
pub open spec fn is_digit(c: char) -> bool {
    '0' <= c && c <= '9'
}

/// The value of a decimal digit character.
pub open spec fn digit_value(c: char) -> nat {
    ((c as int) - ('0' as int)) as nat
}

/// The value of a sequence of decimal digits, most significant first.
pub open spec fn digits_value(s: Seq<char>) -> nat
    decreases s.len(),
{
    if s.len() == 0 {
        0
    } else {
        digits_value(s.drop_last()) * 10 + digit_value(s.last())
    }
}

/// Every character is a decimal digit.
pub open spec fn all_digits(s: Seq<char>) -> bool {
    forall|j: int| 0 <= j < s.len() ==> is_digit(#[trigger] s[j])
}

/// The number written by `s`: an optional `+` and at least one decimal digit,
/// when it is at most `max`.
pub open spec fn parse_number(s: Seq<char>, max: nat) -> Option<nat> {
    let body = if s.len() > 0 && s[0] == '+' {
        s.skip(1)
    } else {
        s
    };
    if body.len() > 0 && all_digits(body) && digits_value(body) <= max {
        Some(digits_value(body))
    } else {
        None
    }
}

/// Adding digits never makes a number smaller.
proof fn lemma_digits_monotone(s: Seq<char>, k: int)
    requires
        0 <= k <= s.len(),
    ensures
        digits_value(s.take(k)) <= digits_value(s),
    decreases s.len() - k,
{
    if k < s.len() {
        lemma_digits_monotone(s, k + 1);
        let t = s.take(k + 1);
        assert(t.drop_last() =~= s.take(k));
        assert(digits_value(t) == digits_value(s.take(k)) * 10 + digit_value(t.last()));
    } else {
        assert(s.take(k) =~= s);
    }
}

/// Reads the number written by `s` if it is at most `max`.
pub fn read_number(s: &str, max: u64) -> (r: Option<u64>)
    ensures
        match parse_number(s@, max as nat) {
            Some(v) => r == Some(v as u64),
            None => r is None,
        },
{
    let len = s.unicode_len();
    let mut start: usize = 0;
    if len > 0 && s.get_char(0) == '+' {
        start = 1;
    }
    let ghost body = if s@.len() > 0 && s@[0] == '+' {
        s@.skip(1)
    } else {
        s@
    };
    proof {
        assert(body =~= s@.skip(start as int));
    }
    if start == len {
        return None;
    }
    let mut acc: u128 = 0;
    let mut k: usize = start;
    while k < len
        invariant
            len == s@.len(),
            start <= k <= len,
            body == s@.skip(start as int),
            body == (if s@.len() > 0 && s@[0] == '+' {
                s@.skip(1)
            } else {
                s@
            }),
            all_digits(body.take(k - start)),
            acc == digits_value(body.take(k - start)),
            acc <= max,
        decreases len - k,
    {
        let c = s.get_char(k);
        let ghost prev = body.take(k - start);
        let ghost next = body.take(k + 1 - start);
        proof {
            assert(next.drop_last() =~= prev);
            assert(next.last() == c);
        }
        if !('0' <= c && c <= '9') {
            proof {
                assert(!is_digit(body[k - start]));
            }
            return None;
        }
        let d = (c as u32 - '0' as u32) as u128;
        acc = acc * 10 + d;
        proof {
            assert(all_digits(next));
            assert(acc == digits_value(next));
        }
        if acc > max as u128 {
            proof {
                if all_digits(body) {
                    lemma_digits_monotone(body, k + 1 - start);
                }
            }
            return None;
        }
        k = k + 1;
    }
    proof {
        assert(body.take(len - start) =~= body);
    }
    Some(acc as u64)
}

/// `p` is a prefix of `s`.
pub open spec fn starts_with(s: Seq<char>, p: Seq<char>) -> bool {
    p.len() <= s.len() && s.take(p.len() as int) == p
}

/// Whether `s` begins with `p`.
pub fn has_prefix(s: &str, p: &str) -> (r: bool)
    ensures
        r == starts_with(s@, p@),
{
    let ls = s.unicode_len();
    let lp = p.unicode_len();
    if lp > ls {
        return false;
    }
    let mut k: usize = 0;
    while k < lp
        invariant
            ls == s@.len(),
            lp == p@.len(),
            lp <= ls,
            k <= lp,
            forall|j: int| 0 <= j < k ==> s@[j] == p@[j],
        decreases lp - k,
    {
        if s.get_char(k) != p.get_char(k) {
            proof {
                assert(s@.take(lp as int)[k as int] != p@[k as int]);
            }
            return false;
        }
        k = k + 1;
    }
    proof {
        assert(s@.take(lp as int) =~= p@);
    }
    true
}

/// `k` is the position of the first `=` in `s`.
pub open spec fn first_equals(s: Seq<char>, k: int) -> bool {
    &&& 0 <= k < s.len()
    &&& s[k] == '='
    &&& forall|j: int| 0 <= j < k ==> s[j] != '='
}

/// A token `name=value` split at its first `=`; without `=` the whole token
/// is the name.
pub open spec fn split_equals(s: Seq<char>) -> (Seq<char>, Option<Seq<char>>) {
    if exists|k: int| first_equals(s, k) {
        let k = choose|k: int| first_equals(s, k);
        (s.take(k), Some(s.skip(k + 1)))
    } else {
        (s, None)
    }
}

/// Splits a token at its first `=`.
pub fn split_at_equals(s: &str) -> (r: (String, Option<String>))
    ensures
        r.0@ == split_equals(s@).0,
        match split_equals(s@).1 {
            Some(v) => r.1 matches Some(x) && x@ == v,
            None => r.1 is None,
        },
{
    let len = s.unicode_len();
    let mut k: usize = 0;
    while k < len
        invariant
            len == s@.len(),
            k <= len,
            forall|j: int| 0 <= j < k ==> s@[j] != '=',
        decreases len - k,
    {
        if s.get_char(k) == '=' {
            proof {
                assert(first_equals(s@, k as int));
                assert forall|k2: int| first_equals(s@, k2) implies k2 == k by {
                    if k2 < k {
                        assert(s@[k2] != '=');
                    } else if k2 > k {
                        assert(s@[k as int] != '=');
                    }
                }
            }
            let name = s.substring_char(0, k);
            let value = s.substring_char(k + 1, len);
            proof {
                assert(s@.subrange(0, k as int) =~= s@.take(k as int));
                assert(s@.subrange(k + 1, len as int) =~= s@.skip(k + 1));
            }
            return (name.to_string(), Some(value.to_string()));
        }
        k = k + 1;
    }
    proof {
        assert(!exists|k2: int| first_equals(s@, k2));
    }
    (s.to_string(), None)
}

/// The comma-separated pieces of `s`, in order; an empty string is one
/// empty piece.
pub open spec fn split_commas(s: Seq<char>) -> Seq<Seq<char>>
    decreases s.len(),
{
    if s.len() == 0 {
        seq![Seq::empty()]
    } else {
        let rest = split_commas(s.drop_last());
        if s.last() == ',' {
            rest.push(Seq::empty())
        } else {
            rest.update(rest.len() - 1, rest.last().push(s.last()))
        }
    }
}

/// The list of numbers written as comma-separated pieces, each at most
/// `max`; `None` when some piece is not such a number.
pub open spec fn parse_number_list(pieces: Seq<Seq<char>>, max: nat) -> Option<Seq<nat>>
    decreases pieces.len(),
{
    if pieces.len() == 0 {
        Some(Seq::empty())
    } else {
        match parse_number_list(pieces.drop_last(), max) {
            None => None,
            Some(rest) => match parse_number(pieces.last(), max) {
                None => None,
                Some(v) => Some(rest.push(v)),
            },
        }
    }
}

/// Reads a comma-separated list of numbers, each at most `usize::MAX`.
pub fn read_number_list(s: &str) -> (r: Option<Vec<usize>>)
    ensures
        match parse_number_list(split_commas(s@), usize::MAX as nat) {
            Some(values) => r matches Some(v) && v@.len() == values.len() && forall|i: int|
                0 <= i < values.len() ==> v@[i] as nat == #[trigger] values[i],
            None => r is None,
        },
{
    let len = s.unicode_len();
    let mut pieces: Vec<String> = Vec::new();
    let mut start: usize = 0;
    let mut k: usize = 0;
    proof {
        assert(s@.take(0) =~= Seq::<char>::empty());
        assert(s@.subrange(0, 0) =~= Seq::<char>::empty());
        assert(Seq::new(pieces@.len(), |i: int| pieces@[i]@) =~= Seq::<Seq<char>>::empty());
    }
    while k < len
        invariant
            len == s@.len(),
            start <= k <= len,
            split_commas(s@.take(k as int)) == Seq::new(pieces@.len(), |i: int| pieces@[i]@).push(
                s@.subrange(start as int, k as int),
            ),
        decreases len - k,
    {
        let c = s.get_char(k);
        let ghost prev = s@.take(k as int);
        let ghost next = s@.take(k + 1);
        let ghost before = Seq::new(pieces@.len(), |i: int| pieces@[i]@);
        proof {
            assert(next.drop_last() =~= prev);
            assert(next.last() == c);
        }
        if c == ',' {
            let ghost old_start = start;
            let piece = s.substring_char(start, k).to_string();
            pieces.push(piece);
            start = k + 1;
            proof {
                assert(Seq::new(pieces@.len(), |i: int| pieces@[i]@) =~= before.push(
                    s@.subrange(old_start as int, k as int),
                ));
                assert(s@.subrange(start as int, k + 1) =~= Seq::<char>::empty());
                assert(split_commas(next) =~= Seq::new(pieces@.len(), |i: int| pieces@[i]@).push(
                    s@.subrange(start as int, k + 1),
                ));
            }
        } else {
            proof {
                assert(s@.subrange(start as int, k + 1) =~= s@.subrange(start as int, k as int).push(c));
                assert(split_commas(next) =~= before.push(s@.subrange(start as int, k + 1)));
            }
        }
        k = k + 1;
    }
    let last_piece = s.substring_char(start, len).to_string();
    pieces.push(last_piece);
    proof {
        assert(s@.take(len as int) =~= s@);
    }
    let ghost all = Seq::new(pieces@.len(), |i: int| pieces@[i]@);
    assert(all == split_commas(s@));
    let mut values: Vec<usize> = Vec::new();
    let mut i: usize = 0;
    while i < pieces.len()
        invariant
            i <= pieces@.len(),
            all == Seq::new(pieces@.len(), |j: int| pieces@[j]@),
            all == split_commas(s@),
            parse_number_list(all.take(i as int), usize::MAX as nat) matches Some(vs) && vs.len()
                == values@.len() && forall|j: int|
                0 <= j < vs.len() ==> values@[j] as nat == #[trigger] vs[j],
        decreases pieces@.len() - i,
    {
        proof {
            assert(all.take(i + 1).drop_last() =~= all.take(i as int));
            assert(all.take(i + 1).last() == pieces@[i as int]@);
        }
        match read_number(pieces[i].as_str(), usize::MAX as u64) {
            None => {
                proof {
                    assert(parse_number_list(all.take(i + 1), usize::MAX as nat) is None);
                    lemma_list_prefix_none(all, i as int + 1);
                    assert(all.take(pieces@.len() as int) =~= all);
                }
                return None;
            },
            Some(v) => {
                values.push(v as usize);
            },
        }
        i = i + 1;
    }
    proof {
        assert(all.take(pieces@.len() as int) =~= all);
    }
    Some(values)
}

/// A list with an unreadable piece stays unreadable when extended.
proof fn lemma_list_prefix_none(pieces: Seq<Seq<char>>, k: int)
    requires
        0 <= k <= pieces.len(),
        parse_number_list(pieces.take(k), usize::MAX as nat) is None,
    ensures
        parse_number_list(pieces, usize::MAX as nat) is None,
    decreases pieces.len() - k,
{
    if k < pieces.len() {
        assert(pieces.take(k + 1).drop_last() =~= pieces.take(k));
        lemma_list_prefix_none(pieces, k + 1);
    } else {
        assert(pieces.take(k) =~= pieces);
    }
}

proof fn lemma_digit_char(d: nat)
    requires
        d < 10,
    ensures
        is_digit(digit_char(d)),
        digit_value(digit_char(d)) == d,
{
}

proof fn lemma_decimal_digits(n: nat)
    ensures
        decimal(n).len() > 0,
        all_digits(decimal(n)),
        digits_value(decimal(n)) == n,
    decreases n,
{
    if n < 10 {
        lemma_digit_char(n);
        assert(decimal(n).drop_last() =~= Seq::<char>::empty());
        assert(digits_value(Seq::<char>::empty()) == 0);
        assert(decimal(n).last() == digit_char(n));
    } else {
        lemma_decimal_digits(n / 10);
        lemma_digit_char(n % 10);
        let s = decimal(n);
        assert(s.drop_last() =~= decimal(n / 10));
        assert(s.last() == digit_char(n % 10));
        assert((n / 10) * 10 + n % 10 == n);
        assert(digits_value(s) == digits_value(decimal(n / 10)) * 10 + digit_value(digit_char(n % 10)));
        assert forall|j: int| 0 <= j < s.len() implies is_digit(#[trigger] s[j]) by {
            if j < s.len() - 1 {
                assert(s[j] == decimal(n / 10)[j]);
            }
        }
    }
}

/// Reading back a rendered number gives the number: the decimal text of `n`
/// parses to `n` whenever `n` is within the bound, and is refused otherwise.
pub proof fn lemma_decimal_reads_back(n: nat, max: nat)
    ensures
        parse_number(decimal(n), max) == (if n <= max {
            Some(n)
        } else {
            None::<nat>
        }),
{
    lemma_decimal_digits(n);
    let s = decimal(n);
    assert(is_digit(s[0]));
}

} // verus!
