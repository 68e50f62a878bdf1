//! Numbers written out in decimal.
use vstd::prelude::*;

use crate::text;

verus! {

/// The digit that stands for `d`.
pub open spec fn digit(d: nat) -> char {
    (48 + d) as char
}

/// `n` in decimal, without leading zeros.
pub open spec fn digits(n: nat) -> Seq<char>
    decreases n,
{
    if n < 10 {
        seq![digit(n)]
    } else {
        digits(n / 10).push(digit(n % 10))
    }
}

/// Every character is an ASCII digit.
pub open spec fn all_digits(s: Seq<char>) -> bool {
    forall|i: int| 0 <= i < s.len() ==> '0' <= #[trigger] s[i] <= '9'
}

/// The number that a run of digits names.
pub open spec fn number(s: Seq<char>) -> nat
    decreases s.len(),
{
    if s.len() == 0 {
        0
    } else {
        (10 * number(s.drop_last()) + (s.last() as u32 - '0' as u32)) as nat
    }
}

/// A comma before every three digits counted from the end.
pub open spec fn grouped(s: Seq<char>) -> Seq<char>
    decreases s.len(),
{
    if s.len() <= 3 {
        s
    } else {
        grouped(s.take(s.len() - 3)) + seq![','] + s.skip(s.len() - 3)
    }
}

/// The digit that stands for `d`.
fn digit_of(d: u64) -> (c: char)
    requires
        d < 10,
    ensures
        c == digit(d as nat),
{
    match d {
        0 => '0',
        1 => '1',
        2 => '2',
        3 => '3',
        4 => '4',
        5 => '5',
        6 => '6',
        7 => '7',
        8 => '8',
        _ => '9',
    }
}

/// The digits of `n`.
fn digit_chars(n: u64) -> (v: Vec<char>)
    ensures
        v@ == digits(n as nat),
    decreases n,
{
    if n < 10 {
        let mut v: Vec<char> = Vec::new();
        v.push(digit_of(n));
        v
    } else {
        let mut v = digit_chars(n / 10);
        v.push(digit_of(n % 10));
        v
    }
}

/// `n` in decimal.
pub fn decimal(n: u64) -> (s: String)
    ensures
        s@ == digits(n as nat),
{
    let v = digit_chars(n);
    let s = text::string_of(&v, 0, v.len());
    assert(s@ =~= digits(n as nat));
    s
}

/// A number in decimal has a digit.
pub proof fn lemma_digits_nonempty(n: nat)
    ensures
        digits(n).len() > 0,
{
}

/// `value` in decimal with a comma before every three digits.
pub fn group_thousands(value: u32) -> (s: String)
    ensures
        s@ == grouped(digits(value as nat)),
{
    let v = digit_chars(value as u64);
    proof {
        lemma_digits_nonempty(value as nat);
    }
    let n: usize = v.len();
    let first: usize = if n % 3 == 0 { 3 } else { n % 3 };
    let mut s = text::string_of(&v, 0, first);
    let mut i: usize = first;
    assert(s@ =~= grouped(v@.take(i as int)));
    while i < n
        invariant
            0 < i <= n,
            n == v@.len(),
            (n - i) % 3 == 0,
            s@ == grouped(v@.take(i as int)),
        decreases n - i,
    {
        assert(i + 3 <= n);
        let ghost t = v@.take(i + 3);
        let part = text::string_of(&v, i, i + 3);
        s.push(',');
        s.append(&part);
        proof {
            assert(t.take(t.len() - 3) =~= v@.take(i as int));
            assert(t.skip(t.len() - 3) =~= v@.subrange(i as int, i + 3));
            assert(s@ =~= grouped(t));
        }
        i += 3;
    }
    assert(v@.take(n as int) =~= v@);
    s
}

/// Grouping only adds commas: without them the digits are as they were.
pub proof fn law_grouping_keeps_the_digits(n: nat)
    ensures
        grouped(digits(n)).filter(|c: char| c != ',') == digits(n),
{
    lemma_digits_are_digits(n);
    lemma_grouped_filter(digits(n));
}

proof fn lemma_digits_are_digits(n: nat)
    ensures
        forall|i: int| 0 <= i < digits(n).len() ==> #[trigger] digits(n)[i] != ',',
    decreases n,
{
    if n >= 10 {
        lemma_digits_are_digits(n / 10);
        let fewer = digits(n / 10);
        assert forall|i: int| 0 <= i < digits(n).len() implies #[trigger] digits(n)[i] != ',' by {
            if i < fewer.len() {
                assert(digits(n)[i] == fewer[i]);
            }
        }
    }
}

proof fn lemma_grouped_filter(s: Seq<char>)
    requires
        forall|i: int| 0 <= i < s.len() ==> #[trigger] s[i] != ',',
    ensures
        grouped(s).filter(|c: char| c != ',') == s,
    decreases s.len(),
{
    let keep = |c: char| c != ',';
    if s.len() <= 3 {
        lemma_filter_all(s);
    } else {
        let a = s.take(s.len() - 3);
        let b = s.skip(s.len() - 3);
        lemma_grouped_filter(a);
        lemma_filter_all(b);
        lemma_filter_comma();
        Seq::<char>::filter_distributes_over_add(grouped(a), seq![','], keep);
        Seq::<char>::filter_distributes_over_add(grouped(a) + seq![','], b, keep);
        assert(a + Seq::<char>::empty() + b =~= s);
    }
}

proof fn lemma_filter_comma()
    ensures
        seq![','].filter(|c: char| c != ',') == Seq::<char>::empty(),
{
    let s = seq![','];
    reveal_with_fuel(Seq::filter, 2);
    assert(s.drop_last() =~= Seq::<char>::empty());
}

proof fn lemma_filter_all(s: Seq<char>)
    requires
        forall|i: int| 0 <= i < s.len() ==> #[trigger] s[i] != ',',
    ensures
        s.filter(|c: char| c != ',') == s,
    decreases s.len(),
{
    reveal(Seq::filter);
    if s.len() > 0 {
        lemma_filter_all(s.drop_last());
        assert(s.drop_last().push(s.last()) =~= s);
    }
}

/// A number written out is that number: digits only, none of them needless in
/// front, and read again they name it.
pub proof fn law_digits_name_the_number(n: nat)
    ensures
        number(digits(n)) == n,
        all_digits(digits(n)),
        digits(n).len() > 0,
        digits(n).len() > 1 ==> digits(n)[0] != '0',
    decreases n,
{
    if n < 10 {
        reveal_with_fuel(number, 2);
        assert(digits(n).drop_last() =~= Seq::<char>::empty());
        assert(digits(n).last() as u32 == 48 + n);
    } else {
        law_digits_name_the_number(n / 10);
        let fewer = digits(n / 10);
        let s = digits(n);
        assert(s.drop_last() =~= fewer);
        assert(s.last() as u32 == 48 + n % 10);
        assert forall|i: int| 0 <= i < s.len() implies '0' <= #[trigger] s[i] <= '9' by {
            if i < fewer.len() {
                assert(s[i] == fewer[i]);
            }
        }
        if fewer.len() == 1 {
            assert(n / 10 >= 1);
            lemma_single_digit(n / 10);
        }
        assert(s[0] == fewer[0]);
    }
}

proof fn lemma_single_digit(n: nat)
    requires
        n >= 1,
        digits(n).len() == 1,
    ensures
        digits(n)[0] != '0',
{
    if n >= 10 {
        lemma_digits_nonempty(n / 10);
    }
}

/// Two numbers written alike are the same number.
pub proof fn law_different_numbers_are_written_differently(a: nat, b: nat)
    ensures
        digits(a) == digits(b) ==> a == b,
{
    law_digits_name_the_number(a);
    law_digits_name_the_number(b);
}

/// In a grouped number a comma stands in every fourth place from the end and
/// nowhere else.
pub proof fn law_commas_stand_between_groups_of_three(s: Seq<char>, i: int)
    requires
        !s.contains(','),
        0 <= i < grouped(s).len(),
    ensures
        grouped(s)[i] == ',' <==> (grouped(s).len() - i) % 4 == 0,
    decreases s.len(),
{
    if s.len() > 3 {
        let a = s.take(s.len() - 3);
        let b = s.skip(s.len() - 3);
        let g = grouped(a);
        assert forall|k: int| 0 <= k < a.len() implies a[k] != ',' by {
            assert(s.contains(s[k]));
        }
        if i < g.len() {
            law_commas_stand_between_groups_of_three(a, i);
            assert(grouped(s)[i] == g[i]);
            assert(grouped(s).len() - i == (g.len() - i) + 4);
        } else if i > g.len() {
            assert(grouped(s)[i] == b[i - g.len() - 1]);
            assert(s.contains(s[s.len() - 3 + (i - g.len() - 1)]));
        }
    } else {
        assert(s.contains(s[i]));
    }
}

} // verus!
