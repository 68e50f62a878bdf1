//! Text as a sequence of characters: trimming, searching, splitting and
//! measuring, each stated over `Seq<char>`.
use vstd::prelude::*;
use vstd::utf8::*;

verus! {

broadcast use vstd::string::group_string_axioms;

/// `String::push` appends one character at the end.
pub assume_specification[ String::push ](s: &mut String, c: char)
    ensures
        final(s)@ == old(s)@.push(c),
;

/// The characters of `s` in order.
pub fn chars_of(s: &str) -> (v: Vec<char>)
    ensures
        v@ == s@,
{
    let mut v: Vec<char> = Vec::new();
    for c in it: s.chars()
        invariant
            it.seq() == s@,
            v@ == s@.take(it.index() as int),
    {
        assert(s@.take(it.index() + 1) == s@.take(it.index() as int).push(s@[it.index() as int]));
        v.push(c);
    }
    assert(s@.take(s@.len() as int) == s@);
    v
}

/// The string whose characters are `v[from..to]`.
pub fn string_of(v: &[char], from: usize, to: usize) -> (s: String)
    requires
        from <= to <= v@.len(),
    ensures
        s@ == v@.subrange(from as int, to as int),
{
    let mut s = String::new();
    let mut i: usize = from;
    while i < to
        invariant
            from <= i <= to <= v@.len(),
            s@ == v@.subrange(from as int, i as int),
        decreases to - i,
    {
        s.push(v[i]);
        proof {
            assert(v@.subrange(from as int, i + 1) == v@.subrange(from as int, i as int).push(v@[i as int]));
        }
        i += 1;
    }
    s
}

/// Whether two texts hold the same characters.
pub fn same(a: &str, b: &str) -> (r: bool)
    ensures
        r == (a@ == b@),
{
    let x = chars_of(a);
    let y = chars_of(b);
    same_chars(&x, &y)
}

/// Whether two character sequences are equal.
pub fn same_chars(x: &[char], y: &[char]) -> (r: bool)
    ensures
        r == (x@ == y@),
{
    if x.len() != y.len() {
        return false;
    }
    let mut i: usize = 0;
    while i < x.len()
        invariant
            i <= x@.len(),
            x@.len() == y@.len(),
            forall|k: int| 0 <= k < i ==> x@[k] == y@[k],
        decreases x@.len() - i,
    {
        if x[i] != y[i] {
            return false;
        }
        i += 1;
    }
    assert(x@ =~= y@);
    true
}


// ---- white space ---------------------------------------------------------

/// The characters with Unicode's White_Space property.
pub open spec fn is_space(c: char) -> bool {
    let n = c as u32;
    ||| 0x9 <= n <= 0xd
    ||| n == 0x20
    ||| n == 0x85
    ||| n == 0xa0
    ||| n == 0x1680
    ||| 0x2000 <= n <= 0x200a
    ||| n == 0x2028
    ||| n == 0x2029
    ||| n == 0x202f
    ||| n == 0x205f
    ||| n == 0x3000
}

/// Whether `c` is white space.
pub fn space(c: char) -> (r: bool)
    ensures
        r == is_space(c),
{
    let n: u32 = c as u32;
    (0x9 <= n && n <= 0xd) || n == 0x20 || n == 0x85 || n == 0xa0 || n == 0x1680 || (0x2000 <= n && n
        <= 0x200a) || n == 0x2028 || n == 0x2029 || n == 0x202f || n == 0x205f || n == 0x3000
}

/// Whether every character is white space.
pub open spec fn is_blank(s: Seq<char>) -> bool {
    forall|i: int| 0 <= i < s.len() ==> is_space(#[trigger] s[i])
}

/// How many characters of leading white space `s` has.
pub open spec fn leading_space(s: Seq<char>) -> nat
    decreases s.len(),
{
    if s.len() > 0 && is_space(s[0]) {
        1 + leading_space(s.drop_first())
    } else {
        0
    }
}

/// How many characters of trailing white space `s` has.
pub open spec fn trailing_space(s: Seq<char>) -> nat
    decreases s.len(),
{
    if s.len() > 0 && is_space(s.last()) {
        1 + trailing_space(s.drop_last())
    } else {
        0
    }
}

/// `s` without its leading white space.
pub open spec fn trimmed_start(s: Seq<char>) -> Seq<char> {
    s.skip(leading_space(s) as int)
}

/// `s` without its trailing white space.
pub open spec fn trimmed_end(s: Seq<char>) -> Seq<char> {
    s.take(s.len() - trailing_space(s))
}

/// `s` without the white space around it.
pub open spec fn trimmed(s: Seq<char>) -> Seq<char> {
    trimmed_end(trimmed_start(s))
}

/// `n` is the count of leading white space exactly when the characters before
/// it are white space and the one at it is not.
pub proof fn lemma_leading_space(s: Seq<char>, n: int)
    requires
        0 <= n <= s.len(),
        forall|i: int| 0 <= i < n ==> is_space(#[trigger] s[i]),
        n < s.len() ==> !is_space(s[n]),
    ensures
        leading_space(s) == n,
    decreases n,
{
    if n > 0 {
        let t = s.drop_first();
        assert forall|i: int| 0 <= i < n - 1 implies is_space(#[trigger] t[i]) by {
            assert(t[i] == s[i + 1]);
        }
        if n < s.len() {
            assert(t[n - 1] == s[n]);
        }
        lemma_leading_space(t, n - 1);
    }
}

/// `n` is the count of trailing white space exactly when the last `n`
/// characters are white space and the one before them is not.
pub proof fn lemma_trailing_space(s: Seq<char>, n: int)
    requires
        0 <= n <= s.len(),
        forall|i: int| s.len() - n <= i < s.len() ==> is_space(#[trigger] s[i]),
        n < s.len() ==> !is_space(s[s.len() - n - 1]),
    ensures
        trailing_space(s) == n,
    decreases n,
{
    if n > 0 {
        lemma_trailing_space(s.drop_last(), n - 1);
    }
}

/// The leading white space is white space, and what follows it is not.
pub proof fn lemma_leading_space_is_space(s: Seq<char>)
    ensures
        leading_space(s) <= s.len(),
        forall|i: int| 0 <= i < leading_space(s) ==> is_space(#[trigger] s[i]),
        leading_space(s) < s.len() ==> !is_space(s[leading_space(s) as int]),
    decreases s.len(),
{
    if s.len() > 0 && is_space(s[0]) {
        let t = s.drop_first();
        lemma_leading_space_is_space(t);
        assert forall|i: int| 0 <= i < leading_space(s) implies is_space(#[trigger] s[i]) by {
            if i > 0 {
                assert(t[i - 1] == s[i]);
            }
        }
    }
}

/// The trailing white space is white space, and what precedes it is not.
pub proof fn lemma_trailing_space_is_space(s: Seq<char>)
    ensures
        trailing_space(s) <= s.len(),
        forall|i: int| s.len() - trailing_space(s) <= i < s.len() ==> is_space(#[trigger] s[i]),
        trailing_space(s) < s.len() ==> !is_space(s[s.len() - trailing_space(s) - 1]),
    decreases s.len(),
{
    if s.len() > 0 && is_space(s.last()) {
        let t = s.drop_last();
        lemma_trailing_space_is_space(t);
        assert forall|i: int| s.len() - trailing_space(s) <= i < s.len() implies is_space(
            #[trigger] s[i],
        ) by {
            if i < s.len() - 1 {
                assert(t[i] == s[i]);
            }
        }
    }
}

/// Trimming leaves nothing exactly of a blank text.
pub proof fn lemma_trimmed_empty_iff_blank(s: Seq<char>)
    ensures
        (trimmed(s).len() == 0) == is_blank(s),
        (trimmed_start(s).len() == 0) == is_blank(s),
        (trimmed_end(s).len() == 0) == is_blank(s),
{
    lemma_leading_space_is_space(s);
    lemma_trailing_space_is_space(s);
    let t = trimmed_start(s);
    lemma_trailing_space_is_space(t);
    if is_blank(s) {
        assert(leading_space(s) == s.len());
        assert(trailing_space(s) == s.len());
    } else {
        let n = leading_space(s) as int;
        assert(n < s.len());
        assert(t[0] == s[n]);
        assert(!is_space(t[0]));
        assert(trailing_space(t) < t.len());
        if trailing_space(s) == s.len() {
            assert(is_space(s[n]));
        }
    }
}

/// Leading white space of a slice of characters.
fn leading_of(v: &[char]) -> (n: usize)
    ensures
        n == leading_space(v@),
        n <= v@.len(),
{
    let mut i: usize = 0;
    while i < v.len() && space(v[i])
        invariant
            i <= v@.len(),
            forall|k: int| 0 <= k < i ==> is_space(#[trigger] v@[k]),
        decreases v@.len() - i,
    {
        i += 1;
    }
    proof {
        lemma_leading_space(v@, i as int);
    }
    i
}

/// Trailing white space of the slice `v[from..]`.
fn trailing_of(v: &[char], from: usize) -> (n: usize)
    requires
        from <= v@.len(),
    ensures
        n == trailing_space(v@.skip(from as int)),
        n <= v@.len() - from,
{
    let ghost t = v@.skip(from as int);
    let mut n: usize = 0;
    while n < v.len() - from && space(v[v.len() - n - 1])
        invariant
            t == v@.skip(from as int),
            from <= v@.len(),
            n <= v@.len() - from,
            forall|k: int| t.len() - n <= k < t.len() ==> is_space(#[trigger] t[k]),
        decreases v@.len() - from - n,
    {
        assert(t[t.len() - n - 1] == v@[v@.len() - n - 1]);
        n += 1;
    }
    proof {
        if n < t.len() {
            assert(t[t.len() - n - 1] == v@[v@.len() - n - 1]);
        }
        lemma_trailing_space(t, n as int);
    }
    n
}

/// `s` without the white space around it.
pub fn trim(s: &str) -> (r: String)
    ensures
        r@ == trimmed(s@),
{
    let v = chars_of(s);
    let a: usize = leading_of(&v);
    let b: usize = trailing_of(&v, a);
    let r = string_of(&v, a, v.len() - b);
    assert(r@ == trimmed(s@));
    r
}

/// `s` without its leading white space.
pub fn trim_start(s: &str) -> (r: String)
    ensures
        r@ == trimmed_start(s@),
{
    let v = chars_of(s);
    let a: usize = leading_of(&v);
    let r = string_of(&v, a, v.len());
    assert(r@ == trimmed_start(s@));
    r
}

/// `s` without its trailing white space.
pub fn trim_end(s: &str) -> (r: String)
    ensures
        r@ == trimmed_end(s@),
{
    let v = chars_of(s);
    let b: usize = trailing_of(&v, 0);
    assert(v@.skip(0) == v@);
    let r = string_of(&v, 0, v.len() - b);
    assert(r@ == trimmed_end(s@));
    r
}

/// Whether `s` holds nothing but white space.
pub fn blank(s: &str) -> (r: bool)
    ensures
        r == is_blank(s@),
        r == (trimmed(s@).len() == 0),
{
    let v = chars_of(s);
    let n: usize = leading_of(&v);
    proof {
        lemma_leading_space_is_space(v@);
        lemma_trimmed_empty_iff_blank(v@);
        if n < v@.len() {
            assert(!is_space(v@[n as int]));
        }
    }
    n == v.len()
}

// ---- prefixes, suffixes, occurrences -------------------------------------

/// `p` stands in `s` at position `i`.
pub open spec fn occurs_at(s: Seq<char>, p: Seq<char>, i: int) -> bool {
    0 <= i && i + p.len() <= s.len() && s.subrange(i, i + p.len()) == p
}

/// `p` stands somewhere in `s`.
pub open spec fn holds(s: Seq<char>, p: Seq<char>) -> bool {
    exists|i: int| occurs_at(s, p, i)
}

/// `s` begins with `p`.
pub open spec fn begins(s: Seq<char>, p: Seq<char>) -> bool {
    occurs_at(s, p, 0)
}

/// `s` ends with `p`.
pub open spec fn ends(s: Seq<char>, p: Seq<char>) -> bool {
    occurs_at(s, p, s.len() - p.len())
}

/// The first position of `p` in `s` at or after `from`.
pub open spec fn found(s: Seq<char>, p: Seq<char>, from: int) -> Option<int>
    decreases s.len() + 1 - from,
{
    if from < 0 || from > s.len() {
        None
    } else if occurs_at(s, p, from) {
        Some(from)
    } else {
        found(s, p, from + 1)
    }
}

/// What is found is the first occurrence; nothing is found where there is
/// none.
pub proof fn lemma_found(s: Seq<char>, p: Seq<char>, from: int)
    requires
        0 <= from,
    ensures
        found(s, p, from) matches Some(i) ==> from <= i && occurs_at(s, p, i),
        found(s, p, from) matches Some(i) ==> forall|k: int|
            from <= k < i ==> !#[trigger] occurs_at(s, p, k),
        found(s, p, from) is None ==> forall|k: int| from <= k ==> !#[trigger] occurs_at(s, p, k),
    decreases s.len() + 1 - from,
{
    if from <= s.len() && !occurs_at(s, p, from) {
        lemma_found(s, p, from + 1);
    }
}

/// Whether `p` stands in `s` at `i`.
pub fn stands_at(s: &[char], p: &[char], i: usize) -> (r: bool)
    ensures
        r == occurs_at(s@, p@, i as int),
{
    if i > s.len() || p.len() > s.len() - i {
        return false;
    }
    let mut k: usize = 0;
    while k < p.len()
        invariant
            k <= p@.len(),
            i + p@.len() <= s@.len(),
            s@.len() <= usize::MAX,
            forall|j: int| 0 <= j < k ==> s@[i + j] == p@[j],
        decreases p@.len() - k,
    {
        assert(i + k < s@.len());
        if s[i + k] != p[k] {
            assert(s@.subrange(i as int, i + p@.len())[k as int] != p@[k as int]);
            return false;
        }
        k += 1;
    }
    assert(s@.subrange(i as int, i + p@.len()) =~= p@);
    true
}

/// The first position of `p` in `s` at or after `from`.
pub fn find_from(s: &[char], p: &[char], from: usize) -> (r: Option<usize>)
    ensures
        match found(s@, p@, from as int) {
            Some(i) => r is Some && r->0 == i,
            None => r is None,
        },
        r matches Some(i) ==> i + p@.len() <= s@.len() <= usize::MAX,
{
    let mut i: usize = from;
    while i <= s.len()
        invariant
            from <= i,
            found(s@, p@, from as int) == found(s@, p@, i as int),
        decreases s@.len() + 1 - i,
    {
        if stands_at(s, p, i) {
            return Some(i);
        }
        if i == s.len() {
            assert(found(s@, p@, i + 1) is None);
            return None;
        }
        i += 1;
    }
    None
}

/// Whether `p` stands somewhere in `s`.
pub fn contains(s: &str, p: &str) -> (r: bool)
    ensures
        r == holds(s@, p@),
{
    let sv = chars_of(s);
    let pv = chars_of(p);
    proof {
        lemma_found(s@, p@, 0);
    }
    match find_from(&sv, &pv, 0) {
        Some(i) => {
            assert(occurs_at(s@, p@, i as int));
            true
        },
        None => {
            assert forall|i: int| !occurs_at(s@, p@, i) by {}
            false
        },
    }
}

/// Whether `s` begins with `p`.
pub fn starts_with(s: &str, p: &str) -> (r: bool)
    ensures
        r == begins(s@, p@),
{
    let sv = chars_of(s);
    let pv = chars_of(p);
    stands_at(&sv, &pv, 0)
}

/// Whether `s` ends with `p`.
pub fn ends_with(s: &str, p: &str) -> (r: bool)
    ensures
        r == ends(s@, p@),
{
    let sv = chars_of(s);
    let pv = chars_of(p);
    if pv.len() > sv.len() {
        return false;
    }
    stands_at(&sv, &pv, sv.len() - pv.len())
}

/// Whether `c` is among the characters of `s`.
pub fn contains_char(s: &str, c: char) -> (r: bool)
    ensures
        r == s@.contains(c),
{
    let v = chars_of(s);
    let mut i: usize = 0;
    while i < v.len()
        invariant
            i <= v@.len(),
            v@ == s@,
            forall|k: int| 0 <= k < i ==> v@[k] != c,
        decreases v@.len() - i,
    {
        if v[i] == c {
            assert(v@.contains(c));
            return true;
        }
        i += 1;
    }
    false
}

/// The first `n` characters of `s`, or all of it.
pub open spec fn first_chars(s: Seq<char>, n: nat) -> Seq<char> {
    if s.len() <= n {
        s
    } else {
        s.take(n as int)
    }
}

/// The last `n` characters of `s`, or all of it.
pub open spec fn last_chars(s: Seq<char>, n: nat) -> Seq<char> {
    if s.len() <= n {
        s
    } else {
        s.skip(s.len() - n)
    }
}

/// The first `n` characters of `s`, or all of it.
pub fn take_chars(s: &str, n: usize) -> (r: String)
    ensures
        r@ == first_chars(s@, n as nat),
{
    let v = chars_of(s);
    let end: usize = if v.len() <= n { v.len() } else { n };
    let r = string_of(&v, 0, end);
    assert(r@ =~= first_chars(s@, n as nat));
    r
}

/// The last `n` characters of `s`, or all of it.
pub fn take_last_chars(s: &str, n: usize) -> (r: String)
    ensures
        r@ == last_chars(s@, n as nat),
{
    let v = chars_of(s);
    let from: usize = if v.len() <= n { 0 } else { v.len() - n };
    let r = string_of(&v, from, v.len());
    assert(r@ =~= last_chars(s@, n as nat));
    r
}

/// How many characters `s` has.
pub fn char_count(s: &str) -> (n: usize)
    ensures
        n == s@.len(),
{
    chars_of(s).len()
}

// ---- length in bytes ------------------------------------------------------

/// The bytes that UTF-8 takes for one character.
pub open spec fn width(c: char) -> nat {
    let n = c as u32;
    if n <= 0x7f {
        1
    } else if n <= 0x7ff {
        2
    } else if n <= 0xffff {
        3
    } else {
        4
    }
}

/// The bytes that UTF-8 takes for `s`.
pub open spec fn byte_len(s: Seq<char>) -> nat
    decreases s.len(),
{
    if s.len() == 0 {
        0
    } else {
        width(s[0]) + byte_len(s.drop_first())
    }
}

/// `byte_len` is the length of the UTF-8 encoding.
pub proof fn lemma_byte_len(s: Seq<char>)
    ensures
        byte_len(s) == encode_utf8(s).len(),
    decreases s.len(),
{
    if s.len() > 0 {
        char_is_scalar(s[0]);
        lemma_byte_len(s.drop_first());
    }
}

/// The bytes of two texts joined are the bytes of both.
pub proof fn lemma_byte_len_concat(a: Seq<char>, b: Seq<char>)
    ensures
        byte_len(a + b) == byte_len(a) + byte_len(b),
    decreases a.len(),
{
    if a.len() == 0 {
        assert(a + b =~= b);
    } else {
        assert((a + b).drop_first() =~= a.drop_first() + b);
        lemma_byte_len_concat(a.drop_first(), b);
    }
}

/// A text has at least as many bytes as characters, and at most four times
/// as many.
pub proof fn lemma_byte_len_bounds(s: Seq<char>)
    ensures
        s.len() <= byte_len(s) <= 4 * s.len(),
    decreases s.len(),
{
    if s.len() > 0 {
        lemma_byte_len_bounds(s.drop_first());
    }
}

/// The length of `s` in bytes.
pub fn bytes_in(s: &str) -> (n: usize)
    ensures
        n == byte_len(s@),
{
    proof {
        lemma_byte_len(s@);
    }
    s.as_bytes().len()
}

/// How many characters of `s` fit, from the start, in `cap` bytes.
pub open spec fn chars_within(s: Seq<char>, cap: nat) -> nat
    decreases s.len(),
{
    if s.len() > 0 && width(s[0]) <= cap {
        1 + chars_within(s.drop_first(), (cap - width(s[0])) as nat)
    } else {
        0
    }
}

/// The longest beginning of `s` that takes at most `cap` bytes.
pub open spec fn prefix_within(s: Seq<char>, cap: nat) -> Seq<char> {
    s.take(chars_within(s, cap) as int)
}

/// The beginning kept fits, and is all of `s` where all of it fits.
pub proof fn lemma_prefix_within(s: Seq<char>, cap: nat)
    ensures
        chars_within(s, cap) <= s.len(),
        byte_len(prefix_within(s, cap)) <= cap,
        byte_len(s) <= cap ==> prefix_within(s, cap) == s,
        chars_within(s, cap) < s.len() ==> byte_len(s.take(chars_within(s, cap) as int + 1)) > cap,
    decreases s.len(),
{
    if s.len() > 0 && width(s[0]) <= cap {
        let t = s.drop_first();
        let rest = (cap - width(s[0])) as nat;
        lemma_prefix_within(t, rest);
        let p = prefix_within(s, cap);
        assert(p.drop_first() =~= prefix_within(t, rest));
        if byte_len(s) <= cap {
            assert(p =~= s);
        }
        if chars_within(s, cap) < s.len() {
            assert(s.take(chars_within(s, cap) as int + 1).drop_first() =~= t.take(
                chars_within(t, rest) as int + 1,
            ));
        }
    } else if s.len() > 0 {
        assert(s.take(1).drop_first() =~= Seq::<char>::empty());
        assert(byte_len(Seq::<char>::empty()) == 0);
    }
}

/// The bytes that UTF-8 takes for `c`.
pub fn width_of(c: char) -> (n: usize)
    ensures
        n == width(c),
{
    let n: u32 = c as u32;
    if n <= 0x7f {
        1
    } else if n <= 0x7ff {
        2
    } else if n <= 0xffff {
        3
    } else {
        4
    }
}

/// The longest beginning of `s` that takes at most `cap` bytes.
pub fn cut_to_bytes(s: &str, cap: usize) -> (r: String)
    ensures
        r@ == prefix_within(s@, cap as nat),
        byte_len(r@) <= cap,
{
    let v = chars_of(s);
    let mut i: usize = 0;
    let mut left: usize = cap;
    assert(v@.skip(0) =~= v@);
    while i < v.len() && width_of(v[i]) <= left
        invariant
            i <= v@.len(),
            v@ == s@,
            left <= cap,
            chars_within(s@, cap as nat) == i + chars_within(v@.skip(i as int), left as nat),
        decreases v@.len() - i,
    {
        assert(v@.skip(i as int).drop_first() =~= v@.skip(i + 1));
        left = left - width_of(v[i]);
        i += 1;
    }
    proof {
        lemma_prefix_within(s@, cap as nat);
    }
    let r = string_of(&v, 0, i);
    assert(r@ =~= prefix_within(s@, cap as nat));
    r
}

// ---- order ---------------------------------------------------------------

/// `a` comes before `b`, or is `b`, character by character. UTF-8 keeps this
/// order, so it is also the order of the bytes.
pub open spec fn not_after(a: Seq<char>, b: Seq<char>) -> bool
    decreases a.len(),
{
    if a.len() == 0 {
        true
    } else if b.len() == 0 {
        false
    } else if a[0] == b[0] {
        not_after(a.drop_first(), b.drop_first())
    } else {
        (a[0] as u32) < (b[0] as u32)
    }
}

/// Whether `a` comes before `b` or is `b`.
pub fn at_most(a: &str, b: &str) -> (r: bool)
    ensures
        r == not_after(a@, b@),
{
    let x = chars_of(a);
    let y = chars_of(b);
    let mut i: usize = 0;
    assert(x@.skip(0) =~= x@);
    assert(y@.skip(0) =~= y@);
    while i < x.len()
        invariant
            i <= x@.len(),
            i <= y@.len(),
            x@ == a@,
            y@ == b@,
            not_after(a@, b@) == not_after(x@.skip(i as int), y@.skip(i as int)),
        decreases x@.len() - i,
    {
        if i >= y.len() {
            return false;
        }
        if x[i] != y[i] {
            return (x[i] as u32) < (y[i] as u32);
        }
        assert(x@.skip(i as int).drop_first() =~= x@.skip(i + 1));
        assert(y@.skip(i as int).drop_first() =~= y@.skip(i + 1));
        i += 1;
    }
    true
}

/// The order is total.
pub proof fn lemma_not_after_total(a: Seq<char>, b: Seq<char>)
    ensures
        not_after(a, b) || not_after(b, a),
    decreases a.len(),
{
    if a.len() > 0 && b.len() > 0 {
        if a[0] == b[0] {
            lemma_not_after_total(a.drop_first(), b.drop_first());
        } else {
            char_u32_cast(a[0], a[0] as u32);
            char_u32_cast(b[0], b[0] as u32);
        }
    }
}

/// The order is transitive.
pub proof fn lemma_not_after_transitive(a: Seq<char>, b: Seq<char>, c: Seq<char>)
    requires
        not_after(a, b),
        not_after(b, c),
    ensures
        not_after(a, c),
    decreases a.len(),
{
    if a.len() > 0 && b.len() > 0 && c.len() > 0 {
        if a[0] == b[0] && b[0] == c[0] {
            lemma_not_after_transitive(a.drop_first(), b.drop_first(), c.drop_first());
        }
    }
}

// ---- pieces --------------------------------------------------------------

/// The texts between the marked characters, one more than there are marks.
pub open spec fn pieces(s: Seq<char>, marks: Seq<bool>) -> Seq<Seq<char>>
    decreases s.len(),
{
    if s.len() == 0 {
        seq![Seq::empty()]
    } else {
        let before = pieces(s.drop_last(), marks);
        if marks[s.len() - 1] {
            before.push(Seq::empty())
        } else {
            before.update(before.len() - 1, before.last().push(s.last()))
        }
    }
}

/// A text without marks is one piece.
pub proof fn lemma_one_piece(s: Seq<char>, marks: Seq<bool>)
    requires
        forall|i: int| 0 <= i < s.len() ==> !(#[trigger] marks[i]),
    ensures
        pieces(s, marks) == seq![s],
    decreases s.len(),
{
    if s.len() > 0 {
        lemma_one_piece(s.drop_last(), marks);
        assert(s.drop_last().push(s.last()) =~= s);
        assert(pieces(s, marks) =~= seq![s]);
    } else {
        assert(s =~= Seq::<char>::empty());
    }
}

/// A text with one mark is what stands before it and what stands after it.
pub proof fn lemma_two_pieces(a: Seq<char>, c: char, b: Seq<char>, marks: Seq<bool>)
    requires
        forall|i: int| 0 <= i < a.len() ==> !(#[trigger] marks[i]),
        marks[a.len() as int],
        forall|i: int| a.len() < i <= a.len() + b.len() ==> !(#[trigger] marks[i]),
    ensures
        pieces(a + seq![c] + b, marks) == seq![a, b],
    decreases b.len(),
{
    let s = a + seq![c] + b;
    if b.len() > 0 {
        let rest = b.drop_last();
        lemma_two_pieces(a, c, rest, marks);
        assert(s.drop_last() =~= a + seq![c] + rest);
        assert(rest.push(b.last()) =~= b);
        assert(pieces(s, marks) =~= seq![a, b]);
    } else {
        lemma_one_piece(a, marks);
        assert(s.drop_last() =~= a);
        assert(b =~= Seq::<char>::empty());
        assert(pieces(s, marks) =~= seq![a, b]);
    }
}

/// There is at least one piece.
pub proof fn lemma_pieces_nonempty(s: Seq<char>, marks: Seq<bool>)
    ensures
        pieces(s, marks).len() > 0,
    decreases s.len(),
{
    if s.len() > 0 {
        lemma_pieces_nonempty(s.drop_last(), marks);
    }
}

/// The texts between the marked characters.
pub fn split_at_marks(v: &[char], marks: &[bool]) -> (r: Vec<String>)
    requires
        marks@.len() == v@.len(),
    ensures
        r@.map_values(|s: String| s@) == pieces(v@, marks@),
{
    let mut r: Vec<String> = Vec::new();
    let mut last = String::new();
    let mut i: usize = 0;
    assert(r@.map_values(|s: String| s@).push(last@) =~= pieces(v@.take(0), marks@));
    while i < v.len()
        invariant
            i <= v@.len(),
            marks@.len() == v@.len(),
            r@.map_values(|s: String| s@).push(last@) == pieces(v@.take(i as int), marks@),
        decreases v@.len() - i,
    {
        let ghost t = v@.take(i + 1);
        let ghost was = r@.map_values(|s: String| s@);
        proof {
            assert(t.drop_last() =~= v@.take(i as int));
            assert(t.last() == v@[i as int]);
        }
        if marks[i] {
            let ghost done = r@;
            r.push(last);
            last = String::new();
            proof {
                assert(r@.map_values(|s: String| s@) =~= was.push(r@.last()@));
                assert(r@.map_values(|s: String| s@).push(last@) =~= pieces(t, marks@));
            }
        } else {
            let ghost before = last@;
            last.push(v[i]);
            assert(was.push(last@) =~= was.push(before).update(was.len() as int, last@));
        }
        i += 1;
    }
    assert(v@.take(v@.len() as int) =~= v@);
    r.push(last);
    assert(r@.map_values(|s: String| s@) =~= pieces(v@, marks@));
    r
}

/// The texts in a row with `sep` between them.
pub open spec fn joined(parts: Seq<Seq<char>>, sep: Seq<char>) -> Seq<char>
    decreases parts.len(),
{
    if parts.len() == 0 {
        Seq::empty()
    } else if parts.len() == 1 {
        parts[0]
    } else {
        joined(parts.drop_last(), sep) + sep + parts.last()
    }
}

/// The texts in a row with `sep` between them.
pub fn join(parts: &[String], sep: &str) -> (r: String)
    ensures
        r@ == joined(parts@.map_values(|s: String| s@), sep@),
{
    let ghost all = parts@.map_values(|s: String| s@);
    let mut r = String::new();
    let mut i: usize = 0;
    while i < parts.len()
        invariant
            i <= parts@.len(),
            all == parts@.map_values(|s: String| s@),
            r@ == joined(all.take(i as int), sep@),
        decreases parts@.len() - i,
    {
        proof {
            assert(all.take(i + 1).drop_last() =~= all.take(i as int));
            assert(all.take(i + 1).last() == parts@[i as int]@);
        }
        if i > 0 {
            r.append(sep);
            r.append(&parts[i]);
        } else {
            r = parts[i].clone();
        }
        i += 1;
    }
    assert(all.take(all.len() as int) =~= all);
    r
}

// ---- trimming by marks -----------------------------------------------------

/// How many marks lead.
pub open spec fn leading_marks(marks: Seq<bool>) -> nat
    decreases marks.len(),
{
    if marks.len() > 0 && marks[0] {
        1 + leading_marks(marks.drop_first())
    } else {
        0
    }
}

/// How many marks trail.
pub open spec fn trailing_marks(marks: Seq<bool>) -> nat
    decreases marks.len(),
{
    if marks.len() > 0 && marks.last() {
        1 + trailing_marks(marks.drop_last())
    } else {
        0
    }
}

/// `s` without the marked characters at its end.
pub open spec fn unmarked_end(s: Seq<char>, marks: Seq<bool>) -> Seq<char> {
    s.take(s.len() - trailing_marks(marks))
}

/// `s` without the marked characters around it.
pub open spec fn unmarked(s: Seq<char>, marks: Seq<bool>) -> Seq<char> {
    let n = leading_marks(marks) as int;
    unmarked_end(s.skip(n), marks.skip(n))
}

pub proof fn lemma_leading_marks(marks: Seq<bool>, n: int)
    requires
        0 <= n <= marks.len(),
        forall|i: int| 0 <= i < n ==> #[trigger] marks[i],
        n < marks.len() ==> !marks[n],
    ensures
        leading_marks(marks) == n,
    decreases n,
{
    if n > 0 {
        let t = marks.drop_first();
        assert forall|i: int| 0 <= i < n - 1 implies #[trigger] t[i] by {
            assert(t[i] == marks[i + 1]);
        }
        if n < marks.len() {
            assert(t[n - 1] == marks[n]);
        }
        lemma_leading_marks(t, n - 1);
    }
}

pub proof fn lemma_trailing_marks(marks: Seq<bool>, n: int)
    requires
        0 <= n <= marks.len(),
        forall|i: int| marks.len() - n <= i < marks.len() ==> #[trigger] marks[i],
        n < marks.len() ==> !marks[marks.len() - n - 1],
    ensures
        trailing_marks(marks) == n,
    decreases n,
{
    if n > 0 {
        lemma_trailing_marks(marks.drop_last(), n - 1);
    }
}

/// How many marks trail among `marks[from..]`.
fn trailing_marks_of(marks: &[bool], from: usize) -> (n: usize)
    requires
        from <= marks@.len(),
    ensures
        n == trailing_marks(marks@.skip(from as int)),
        n <= marks@.len() - from,
{
    let ghost t = marks@.skip(from as int);
    let mut n: usize = 0;
    while n < marks.len() - from && marks[marks.len() - n - 1]
        invariant
            t == marks@.skip(from as int),
            from <= marks@.len(),
            n <= marks@.len() - from,
            forall|k: int| t.len() - n <= k < t.len() ==> #[trigger] t[k],
        decreases marks@.len() - from - n,
    {
        assert(t[t.len() - n - 1] == marks@[marks@.len() - n - 1]);
        n += 1;
    }
    proof {
        if n < t.len() {
            assert(t[t.len() - n - 1] == marks@[marks@.len() - n - 1]);
        }
        lemma_trailing_marks(t, n as int);
    }
    n
}

/// `v` without the marked characters around it.
pub fn trim_marks(v: &[char], marks: &[bool]) -> (r: String)
    requires
        v@.len() == marks@.len(),
    ensures
        r@ == unmarked(v@, marks@),
{
    let mut a: usize = 0;
    while a < marks.len() && marks[a]
        invariant
            a <= marks@.len(),
            forall|k: int| 0 <= k < a ==> #[trigger] marks@[k],
        decreases marks@.len() - a,
    {
        a += 1;
    }
    proof {
        lemma_leading_marks(marks@, a as int);
    }
    let b: usize = trailing_marks_of(marks, a);
    let r = string_of(v, a, v.len() - b);
    assert(r@ =~= unmarked(v@, marks@));
    r
}

/// `v` without the marked characters at its end.
pub fn trim_end_marks(v: &[char], marks: &[bool]) -> (r: String)
    requires
        v@.len() == marks@.len(),
    ensures
        r@ == unmarked_end(v@, marks@),
{
    let b: usize = trailing_marks_of(marks, 0);
    assert(marks@.skip(0) =~= marks@);
    let r = string_of(v, 0, v.len() - b);
    assert(r@ =~= unmarked_end(v@, marks@));
    r
}

// ---- words -----------------------------------------------------------------

/// Which characters are white space.
pub open spec fn space_marks(s: Seq<char>) -> Seq<bool> {
    s.map_values(|c: char| is_space(c))
}

/// Which characters are white space.
pub fn space_marks_of(v: &[char]) -> (marks: Vec<bool>)
    ensures
        marks@ == space_marks(v@),
{
    let mut marks: Vec<bool> = Vec::new();
    let mut i: usize = 0;
    while i < v.len()
        invariant
            i <= v@.len(),
            marks@ == space_marks(v@).take(i as int),
        decreases v@.len() - i,
    {
        marks.push(space(v[i]));
        assert(marks@ =~= space_marks(v@).take(i + 1));
        i += 1;
    }
    assert(marks@ =~= space_marks(v@));
    marks
}

/// Those of the first `n` texts that are not empty.
pub open spec fn nonempty(parts: Seq<Seq<char>>, n: int) -> Seq<Seq<char>>
    decreases n,
{
    if n <= 0 {
        Seq::empty()
    } else if parts[n - 1].len() == 0 {
        nonempty(parts, n - 1)
    } else {
        nonempty(parts, n - 1).push(parts[n - 1])
    }
}

/// The words of `s`: what stands between white space.
pub open spec fn words(s: Seq<char>) -> Seq<Seq<char>> {
    let parts = pieces(s, space_marks(s));
    nonempty(parts, parts.len() as int)
}

/// The words of `s`.
pub fn split_words(s: &str) -> (r: Vec<String>)
    ensures
        r@.map_values(|w: String| w@) == words(s@),
{
    let v = chars_of(s);
    let marks = space_marks_of(&v);
    let mut parts = split_at_marks(&v, &marks);
    let ghost all = parts@.map_values(|w: String| w@);
    let mut r: Vec<String> = Vec::new();
    let mut i: usize = 0;
    assert(r@.map_values(|w: String| w@) =~= Seq::<Seq<char>>::empty());
    while i < parts.len()
        invariant
            i <= parts@.len(),
            all == parts@.map_values(|w: String| w@),
            r@.map_values(|w: String| w@) == nonempty(all, i as int),
        decreases parts@.len() - i,
    {
        if !parts[i].as_str().is_empty() {
            let ghost was = r@;
            r.push(parts[i].clone());
            assert(r@.map_values(|w: String| w@) =~= was.map_values(|w: String| w@).push(
                parts@[i as int]@,
            ));
        }
        i += 1;
    }
    r
}

/// What follows the last `c` in `s`, or all of it.
pub open spec fn after_last(s: Seq<char>, c: char) -> Seq<char>
    decreases s.len(),
{
    if s.len() == 0 {
        s
    } else if s.last() == c {
        Seq::empty()
    } else {
        after_last(s.drop_last(), c).push(s.last())
    }
}

/// Where what follows the last `c` begins.
pub fn after_last_from(v: &[char], c: char) -> (from: usize)
    ensures
        from <= v@.len(),
        after_last(v@, c) == v@.skip(from as int),
{
    let mut from: usize = v.len();
    assert(v@.skip(from as int) =~= Seq::<char>::empty());
    assert(v@.take(from as int) =~= v@);
    while from > 0 && v[from - 1] != c
        invariant
            from <= v@.len(),
            after_last(v@, c) == after_last(v@.take(from as int), c) + v@.skip(from as int),
        decreases from,
    {
        proof {
            let t = v@.take(from as int);
            assert(t.drop_last() =~= v@.take(from - 1));
            assert(after_last(t, c) =~= after_last(v@.take(from - 1), c).push(v@[from - 1]));
            assert(after_last(t, c) + v@.skip(from as int) =~= after_last(v@.take(from - 1), c)
                + v@.skip(from - 1));
        }
        from -= 1;
    }
    proof {
        if from > 0 {
            assert(v@.take(from as int).last() == c);
        }
        assert(after_last(v@, c) =~= v@.skip(from as int));
    }
    from
}

// ---- lines ---------------------------------------------------------------

/// A line without the carriage return before its line feed.
pub open spec fn without_return(s: Seq<char>) -> Seq<char> {
    if s.len() > 0 && s.last() == '\r' {
        s.drop_last()
    } else {
        s
    }
}

/// The lines of a text: a line ends at a line feed, which may follow a
/// carriage return, and the last line's end is optional.
pub open spec fn lines(s: Seq<char>) -> Seq<Seq<char>>
    decreases s.len(),
    via lines_shrink
{
    if s.len() == 0 {
        Seq::empty()
    } else {
        match found(s, seq!['\n'], 0) {
            Some(i) => seq![without_return(s.take(i))] + lines(s.skip(i + 1)),
            None => seq![s],
        }
    }
}

#[via_fn]
proof fn lines_shrink(s: Seq<char>) {
    lemma_found(s, seq!['\n'], 0);
}

/// What is found in the rest is found there in the whole.
proof fn lemma_found_in_rest(s: Seq<char>, p: Seq<char>, from: int, k: int)
    requires
        0 <= from <= s.len(),
        0 <= k,
    ensures
        found(s.skip(from), p, k) == (match found(s, p, from + k) {
            Some(i) => Some(i - from),
            None => None,
        }),
    decreases s.len() - from + 1 - k,
{
    if from + k <= s.len() {
        if from + k + p.len() <= s.len() {
            assert(s.skip(from).subrange(k, k + p.len()) =~= s.subrange(
                from + k,
                from + k + p.len(),
            ));
        }
        assert(occurs_at(s.skip(from), p, k) == occurs_at(s, p, from + k));
        lemma_found_in_rest(s, p, from, k + 1);
    }
}

/// The lines of a text.
pub fn split_lines(s: &str) -> (r: Vec<String>)
    ensures
        r@.map_values(|l: String| l@) == lines(s@),
{
    let v = chars_of(s);
    let mut feed: Vec<char> = Vec::new();
    feed.push('\n');
    let mut r: Vec<String> = Vec::new();
    let n: usize = v.len();
    let mut at: usize = 0;
    proof {
        assert(feed@ =~= seq!['\n']);
        assert(s@.skip(0) =~= s@);
        assert(r@.map_values(|l: String| l@) =~= Seq::<Seq<char>>::empty());
        assert(Seq::<Seq<char>>::empty() + lines(s@) =~= lines(s@));
    }
    while at < n
        invariant
            at <= n,
            n == v@.len(),
            v@ == s@,
            feed@ == seq!['\n'],
            lines(s@) == r@.map_values(|l: String| l@) + lines(s@.skip(at as int)),
        decreases n - at,
    {
        let ghost done = r@.map_values(|l: String| l@);
        let ghost rest = s@.skip(at as int);
        proof {
            lemma_found(s@, seq!['\n'], at as int);
            lemma_found_in_rest(s@, seq!['\n'], at as int, 0);
        }
        match find_from(&v, &feed, at) {
            Some(i) => {
                let end: usize = if i > at && v[i - 1] == '\r' { i - 1 } else { i };
                let line = string_of(&v, at, end);
                proof {
                    assert(rest.take(i - at) =~= s@.subrange(at as int, i as int));
                    assert(line@ =~= without_return(rest.take(i - at)));
                    assert(rest.skip(i - at + 1) =~= s@.skip(i + 1));
                }
                r.push(line);
                proof {
                    assert(r@.map_values(|l: String| l@) =~= done.push(r@.last()@));
                    assert(done.push(r@.last()@) + lines(s@.skip(i + 1)) =~= done + (seq![
                        r@.last()@,
                    ] + lines(s@.skip(i + 1))));
                }
                at = i + 1;
            },
            None => {
                let line = string_of(&v, at, n);
                assert(line@ =~= rest);
                r.push(line);
                proof {
                    assert(r@.map_values(|l: String| l@) =~= done.push(rest));
                    assert(done.push(rest) =~= done + seq![rest]);
                    assert(s@.skip(n as int) =~= Seq::<char>::empty());
                    assert(lines(s@.skip(n as int)) =~= Seq::<Seq<char>>::empty());
                    assert(done.push(rest) + lines(s@.skip(n as int)) =~= done.push(rest));
                }
                at = n;
            },
        }
    }
    proof {
        assert(s@.skip(n as int) =~= Seq::<char>::empty());
        assert(lines(s@.skip(n as int)) =~= Seq::<Seq<char>>::empty());
        assert(r@.map_values(|l: String| l@) + lines(s@.skip(n as int)) =~= r@.map_values(
            |l: String| l@,
        ));
    }
    r
}

// ---- what splitting gives ---------------------------------------------------------

/// `s` from `a` to `b` is a longest stretch without marked characters.
pub open spec fn is_stretch(s: Seq<char>, marks: Seq<bool>, a: int, b: int) -> bool {
    &&& 0 <= a <= b <= s.len()
    &&& forall|i: int| a <= i < b ==> !#[trigger] marks[i]
    &&& a == 0 || marks[a - 1]
    &&& b == s.len() || marks[b]
}

proof fn lemma_last_piece(s: Seq<char>, marks: Seq<bool>, a: int)
    requires
        is_stretch(s, marks, a, s.len() as int),
    ensures
        pieces(s, marks).last() == s.subrange(a, s.len() as int),
    decreases s.len(),
{
    lemma_pieces_nonempty(s, marks);
    if s.len() > 0 {
        lemma_pieces_nonempty(s.drop_last(), marks);
        if a < s.len() {
            lemma_last_piece(s.drop_last(), marks, a);
            assert(s.drop_last().subrange(a, s.len() - 1).push(s.last()) =~= s.subrange(
                a,
                s.len() as int,
            ));
        } else {
            assert(s.subrange(a, s.len() as int) =~= Seq::empty());
        }
    } else {
        assert(s.subrange(a, s.len() as int) =~= Seq::empty());
    }
}

proof fn lemma_inner_piece(s: Seq<char>, marks: Seq<bool>, a: int, b: int)
    requires
        is_stretch(s, marks, a, b),
        b < s.len(),
    ensures
        exists|k: int|
            0 <= k < pieces(s, marks).len() - 1 && #[trigger] pieces(s, marks)[k] == s.subrange(
                a,
                b,
            ),
    decreases s.len(),
{
    let d = s.drop_last();
    let before = pieces(d, marks);
    lemma_pieces_nonempty(d, marks);
    assert(d.subrange(a, b) =~= s.subrange(a, b));
    if b == s.len() - 1 {
        lemma_last_piece(d, marks, a);
        assert(pieces(s, marks)[before.len() - 1] == s.subrange(a, b));
    } else {
        lemma_inner_piece(d, marks, a, b);
        let k = choose|k: int|
            0 <= k < before.len() - 1 && #[trigger] before[k] == d.subrange(a, b);
        assert(pieces(s, marks)[k] == s.subrange(a, b));
    }
}

proof fn lemma_pieces_are_stretches(s: Seq<char>, marks: Seq<bool>, k: int)
    requires
        0 <= k < pieces(s, marks).len(),
    ensures
        exists|a: int, b: int|
            #[trigger] is_stretch(s, marks, a, b) && pieces(s, marks)[k] == s.subrange(a, b) && (k
                == pieces(s, marks).len() - 1) == (b == s.len()),
    decreases s.len(),
{
    if s.len() == 0 {
        assert(is_stretch(s, marks, 0, 0));
        assert(s.subrange(0, 0) =~= Seq::empty());
    } else {
        let d = s.drop_last();
        let before = pieces(d, marks);
        let n = s.len() as int;
        lemma_pieces_nonempty(d, marks);
        if marks[n - 1] && k == before.len() {
            assert(is_stretch(s, marks, n, n));
            assert(s.subrange(n, n) =~= Seq::empty());
        } else {
            lemma_pieces_are_stretches(d, marks, k);
            let (a, b) = choose|a: int, b: int|
                #[trigger] is_stretch(d, marks, a, b) && before[k] == d.subrange(a, b) && (k
                    == before.len() - 1) == (b == d.len());
            if !marks[n - 1] && k == before.len() - 1 {
                assert(is_stretch(s, marks, a, n));
                assert(d.subrange(a, n - 1).push(s.last()) =~= s.subrange(a, n));
            } else {
                assert(d.subrange(a, b) =~= s.subrange(a, b));
                assert(is_stretch(s, marks, a, b));
            }
        }
    }
}


/// The pieces of a text are its longest stretches without marked characters:
/// every such stretch is among them, and each of them is one.
pub proof fn law_pieces_are_the_stretches(s: Seq<char>, marks: Seq<bool>)
    ensures
        forall|a: int, b: int| #[trigger]
            is_stretch(s, marks, a, b) ==> pieces(s, marks).contains(s.subrange(a, b)),
        forall|k: int|
            0 <= k < pieces(s, marks).len() ==> (#[trigger] pieces(s, marks)[k]).len() <= s.len()
                && exists|a: int, b: int| #[trigger]
                is_stretch(s, marks, a, b) && pieces(s, marks)[k] == s.subrange(a, b),
{
    assert forall|a: int, b: int| #[trigger] is_stretch(s, marks, a, b) implies pieces(
        s,
        marks,
    ).contains(s.subrange(a, b)) by {
        lemma_pieces_nonempty(s, marks);
        if b == s.len() {
            lemma_last_piece(s, marks, a);
            assert(pieces(s, marks)[pieces(s, marks).len() - 1] == s.subrange(a, b));
        } else {
            lemma_inner_piece(s, marks, a, b);
        }
    }
    assert forall|k: int|
        0 <= k < pieces(s, marks).len() implies (#[trigger] pieces(s, marks)[k]).len() <= s.len()
        && exists|a: int, b: int| #[trigger]
        is_stretch(s, marks, a, b) && pieces(s, marks)[k] == s.subrange(a, b) by {
        lemma_pieces_are_stretches(s, marks, k);
        let (a, b) = choose|a: int, b: int|
            #[trigger] is_stretch(s, marks, a, b) && pieces(s, marks)[k] == s.subrange(a, b) && (k
                == pieces(s, marks).len() - 1) == (b == s.len());
        assert(is_stretch(s, marks, a, b));
    }
}

proof fn lemma_nonempty(parts: Seq<Seq<char>>, n: int)
    requires
        0 <= n <= parts.len(),
    ensures
        forall|k: int|
            0 <= k < nonempty(parts, n).len() ==> (#[trigger] nonempty(parts, n)[k]).len() > 0
                && parts.contains(nonempty(parts, n)[k]),
        forall|i: int|
            0 <= i < n && (#[trigger] parts[i]).len() > 0 ==> nonempty(parts, n).contains(parts[i]),
    decreases n,
{
    if n > 0 {
        lemma_nonempty(parts, n - 1);
        let before = nonempty(parts, n - 1);
        let now = nonempty(parts, n);
        assert forall|i: int| 0 <= i < n && (#[trigger] parts[i]).len() > 0 implies now.contains(
            parts[i],
        ) by {
            if i < n - 1 {
                let k = choose|k: int| 0 <= k < before.len() && before[k] == parts[i];
                assert(now[k] == parts[i]);
            } else {
                assert(now[now.len() - 1] == parts[i]);
            }
        }
    }
}

/// The words of a text are its longest stretches without white space, and none
/// is empty.
pub proof fn law_words_are_what_stands_between_white_space(s: Seq<char>)
    ensures
        forall|k: int|
            0 <= k < words(s).len() ==> (#[trigger] words(s)[k]).len() > 0 && exists|
                a: int,
                b: int,
            | #[trigger]
                is_stretch(s, space_marks(s), a, b) && words(s)[k] == s.subrange(a, b),
        forall|a: int, b: int| #[trigger]
            is_stretch(s, space_marks(s), a, b) && a < b ==> words(s).contains(s.subrange(a, b)),
        forall|i: int| 0 <= i < s.len() ==> #[trigger] space_marks(s)[i] == is_space(s[i]),
{
    let marks = space_marks(s);
    let parts = pieces(s, marks);
    law_pieces_are_the_stretches(s, marks);
    lemma_nonempty(parts, parts.len() as int);
    assert forall|k: int| 0 <= k < words(s).len() implies (#[trigger] words(s)[k]).len() > 0
        && exists|a: int, b: int| #[trigger]
        is_stretch(s, marks, a, b) && words(s)[k] == s.subrange(a, b) by {
        assert(parts.contains(words(s)[k]));
        let j = choose|j: int| 0 <= j < parts.len() && parts[j] == words(s)[k];
        let (a, b) = choose|a: int, b: int| #[trigger]
            is_stretch(s, marks, a, b) && parts[j] == s.subrange(a, b);
        assert(is_stretch(s, marks, a, b));
    }
    assert forall|a: int, b: int| #[trigger] is_stretch(s, marks, a, b) && a < b implies words(
        s,
    ).contains(s.subrange(a, b)) by {
        let j = choose|j: int| 0 <= j < parts.len() && parts[j] == s.subrange(a, b);
        assert(parts[j].len() > 0);
    }
}

/// Trimming takes off white space and nothing else: what is left begins and
/// ends with other characters, and with white space around it is the text
/// again.
pub proof fn law_trimming_takes_white_space_off(s: Seq<char>)
    ensures
        exists|a: int, b: int|
            0 <= a <= b <= s.len() && trimmed(s) == #[trigger] s.subrange(a, b) && is_blank(
                s.take(a),
            ) && is_blank(s.skip(b)),
        trimmed(s).len() > 0 ==> !is_space(trimmed(s)[0]) && !is_space(trimmed(s).last()),
        trimmed(trimmed(s)) == trimmed(s),
{
    let a = leading_space(s) as int;
    let t = trimmed_start(s);
    lemma_leading_space_is_space(s);
    lemma_trailing_space_is_space(t);
    let b = s.len() - trailing_space(t);
    assert(trimmed(s) =~= s.subrange(a, b));
    assert(is_blank(s.take(a)));
    assert forall|i: int| 0 <= i < s.skip(b).len() implies is_space(#[trigger] s.skip(b)[i]) by {
        assert(s.skip(b)[i] == t[b - a + i]);
    }
    let r = trimmed(s);
    if r.len() > 0 {
        assert(r[0] == s[a]);
        assert(r.last() == t[t.len() - trailing_space(t) - 1]);
        assert(trimmed(r) =~= r) by {
            assert(leading_space(r) == 0);
            assert(r.skip(0) =~= r);
            assert(trailing_space(r) == 0);
        }
    }
}

/// A text of two parts with a line feed between them has the first part's line
/// and the second part's lines; one without a line feed is a line itself.
pub proof fn law_lines_end_at_line_feeds(a: Seq<char>, b: Seq<char>)
    requires
        !a.contains('\n'),
    ensures
        lines(a + seq!['\n'] + b) == seq![
            if a.len() > 0 && a.last() == '\r' {
                a.drop_last()
            } else {
                a
            },
        ] + lines(b),
        a.len() > 0 ==> lines(a) == seq![a],
        lines(Seq::empty()) == Seq::<Seq<char>>::empty(),
{
    let s = a + seq!['\n'] + b;
    let feed = seq!['\n'];
    lemma_found(s, feed, 0);
    assert(occurs_at(s, feed, a.len() as int)) by {
        assert(s.subrange(a.len() as int, a.len() as int + 1) =~= feed);
    }
    assert forall|k: int| 0 <= k < a.len() implies !#[trigger] occurs_at(s, feed, k) by {
        if occurs_at(s, feed, k) {
            assert(s.subrange(k, k + 1)[0] == s[k]);
            assert(a.contains(a[k]));
        }
    }
    assert(found(s, feed, 0) == Some(a.len() as int));
    assert(s.take(a.len() as int) =~= a);
    assert(s.skip(a.len() as int + 1) =~= b);
    if a.len() > 0 {
        lemma_found(a, feed, 0);
        if let Some(i) = found(a, feed, 0) {
            assert(a.subrange(i, i + 1)[0] == a[i]);
            assert(a.contains(a[i]));
        }
    }
}

/// Texts joined with a separator hold each of them in its place: another text
/// behind the others adds the separator and itself.
pub proof fn law_joining_keeps_the_texts(parts: Seq<Seq<char>>, last: Seq<char>, sep: Seq<char>)
    ensures
        parts.len() > 0 ==> joined(parts.push(last), sep) == joined(parts, sep) + sep + last,
        joined(seq![last], sep) == last,
        joined(Seq::empty(), sep) == Seq::<char>::empty(),
{
    assert(parts.push(last).drop_last() =~= parts);
}

// ---- order and white space ---------------------------------------------------------------------

/// Texts are in the order of their first difference: behind a common beginning,
/// the one that ends comes first, and else the one whose character has the
/// smaller number.
pub proof fn law_texts_are_ordered_by_their_first_difference(
    common: Seq<char>,
    a: Seq<char>,
    b: Seq<char>,
)
    ensures
        not_after(common + a, common + b) == not_after(a, b),
        not_after(common, common + b),
        b.len() > 0 ==> !not_after(common + b, common),
        a.len() > 0 && b.len() > 0 && (a[0] as u32) < (b[0] as u32) ==> not_after(
            common + a,
            common + b,
        ) && !not_after(common + b, common + a),
    decreases common.len(),
{
    if common.len() > 0 {
        let rest = common.drop_first();
        law_texts_are_ordered_by_their_first_difference(rest, a, b);
        assert((common + a).drop_first() =~= rest + a);
        assert((common + b).drop_first() =~= rest + b);
    } else {
        assert(common + a =~= a);
        assert(common + b =~= b);
    }
}

/// Spaces, tabs and line ends are white space; of the visible ASCII characters
/// none is.
pub proof fn law_what_white_space_is(c: char)
    ensures
        c == ' ' || c == '\t' || c == '\n' || c == '\r' ==> is_space(c),
        '!' <= c <= '~' ==> !is_space(c),
{
}

/// The first and the last characters of a text are all of it where there are not
/// more, and else just so many of its beginning or its end.
pub proof fn law_ends_of_a_text(s: Seq<char>, n: nat)
    ensures
        s.len() <= n ==> first_chars(s, n) == s && last_chars(s, n) == s,
        s.len() > n ==> first_chars(s, n).len() == n && last_chars(s, n).len() == n,
        first_chars(s, n).is_prefix_of(s),
        last_chars(s, n).is_suffix_of(s),
{
    let (a, b) = (first_chars(s, n), last_chars(s, n));
    assert(a =~= s.subrange(0, a.len() as int));
    assert(b =~= s.subrange(s.len() - b.len(), s.len() as int));
}

/// What follows the last of a character is all that stands behind it; where the
/// character does not stand, it is the whole text.
pub proof fn law_what_follows_the_last(a: Seq<char>, c: char, b: Seq<char>)
    requires
        !b.contains(c),
    ensures
        after_last(a + seq![c] + b, c) == b,
        after_last(b, c) == b,
    decreases b.len(),
{
    let s = a + seq![c] + b;
    if b.len() == 0 {
        assert(s.last() == c);
    } else {
        let rest = b.drop_last();
        assert(b.contains(b.last()));
        assert forall|i: int| 0 <= i < rest.len() implies rest[i] != c by {
            assert(b.contains(b[i]));
        }
        law_what_follows_the_last(a, c, rest);
        assert(s.drop_last() =~= a + seq![c] + rest);
        assert(s.last() == b.last());
        assert(rest.push(b.last()) =~= b);
    }
}

/// The beginning of a text that fits in so many bytes is the longest that does:
/// it is encoded in no more, and with the next character it would not be.
pub proof fn law_the_longest_beginning_that_fits(s: Seq<char>, cap: nat)
    ensures
        ({
            let p = prefix_within(s, cap);
            &&& p.is_prefix_of(s)
            &&& encode_utf8(p).len() <= cap
            &&& p.len() < s.len() ==> encode_utf8(s.take(1 + p.len() as int)).len() > cap
            &&& encode_utf8(s).len() <= cap ==> p == s
        }),
    decreases s.len(),
{
    lemma_prefix_within(s, cap);
    lemma_chars_within(s, cap);
    let p = prefix_within(s, cap);
    let n = chars_within(s, cap) as int;
    assert(p =~= s.subrange(0, p.len() as int));
    lemma_byte_len(p);
    lemma_byte_len(s);
    if n < s.len() {
        lemma_byte_len(s.take(n + 1));
        lemma_byte_len_concat(s.take(n + 1), s.skip(n + 1));
        assert(s.take(n + 1) + s.skip(n + 1) =~= s);
    } else {
        assert(p =~= s);
    }
}

proof fn lemma_chars_within(s: Seq<char>, cap: nat)
    ensures
        chars_within(s, cap) <= s.len(),
        byte_len(s.take(chars_within(s, cap) as int)) <= cap,
        chars_within(s, cap) < s.len() ==> byte_len(
            s.take(1 + chars_within(s, cap) as int),
        ) > cap,
    decreases s.len(),
{
    let n = chars_within(s, cap) as int;
    if s.len() > 0 && width(s[0]) <= cap {
        let rest = s.drop_first();
        let left = (cap - width(s[0])) as nat;
        lemma_chars_within(rest, left);
        assert(s.take(n).drop_first() =~= rest.take(n - 1));
        if n < s.len() {
            assert(s.take(n + 1).drop_first() =~= rest.take(n));
        }
    } else {
        assert(s.take(0).len() == 0);
        if s.len() > 0 {
            assert(s.take(1).drop_first().len() == 0);
            assert(s.take(1)[0] == s[0]);
        }
    }
}

} // verus!
