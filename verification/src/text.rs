//! Verified text utilities: character-sequence search, splitting, trimming,
//! and decimal rendering and parsing of the integers and fixed-point
//! millisecond values that appear in meta reports, command lines and events.
//!
//! All manipulation happens on `Vec<char>` / `&[char]`; the one bridge back
//! to `String` is `chars_to_string`.

use vstd::prelude::*;

verus! {

/// True of the ten ASCII digit characters.
pub open spec fn is_digit_char(c: char) -> bool {
    48 <= c as u32 <= 57
}

/// The numeric value of an ASCII digit character.
pub open spec fn digit_val(c: char) -> int {
    c as u32 - 48
}

/// The ASCII digit character for a value between 0 and 9.
pub open spec fn digit_char(d: int) -> char {
    if d == 0 {
        '0'
    } else if d == 1 {
        '1'
    } else if d == 2 {
        '2'
    } else if d == 3 {
        '3'
    } else if d == 4 {
        '4'
    } else if d == 5 {
        '5'
    } else if d == 6 {
        '6'
    } else if d == 7 {
        '7'
    } else if d == 8 {
        '8'
    } else {
        '9'
    }
}

/// The digit character of a value below ten is a digit and has that value.
pub proof fn lemma_digit_char_val(d: int)
    requires
        0 <= d <= 9,
    ensures
        is_digit_char(digit_char(d)),
        digit_val(digit_char(d)) == d,
{
}

/// Build the digit character of a value below ten.
pub fn digit_to_char(d: u64) -> (c: char)
    requires
        d <= 9,
    ensures
        c == digit_char(d as int),
{
    match d {
        0 => '0',
        1 => '1',
        2 => '2',
        3 => '3',
        4 => '4',
        5 => '5',
        6 => '6',
        7 => '7',
        8 => '8',
        _ => '9',
    }
}

/// True when every character of `s` is an ASCII digit.
pub open spec fn all_digits(s: Seq<char>) -> bool {
    forall|i: int| 0 <= i < s.len() ==> is_digit_char(#[trigger] s[i])
}

/// The value of a digit string, most significant digit first.
pub open spec fn digits_value(s: Seq<char>) -> int
    decreases s.len(),
{
    if s.len() == 0 {
        0
    } else {
        digits_value(s.drop_last()) * 10 + digit_val(s.last())
    }
}

/// The decimal digit string of a non-negative integer, without leading zeros.
pub open spec fn nat_digits(n: int) -> Seq<char>
    decreases n,
{
    if n < 10 {
        seq![digit_char(n)]
    } else {
        nat_digits(n / 10).push(digit_char(n % 10))
    }
}

/// A digit string of digits only has a non-negative value.
pub proof fn lemma_digits_value_nonneg(s: Seq<char>)
    requires
        all_digits(s),
    ensures
        digits_value(s) >= 0,
    decreases s.len(),
{
    if s.len() > 0 {
        assert(all_digits(s.drop_last()));
        lemma_digits_value_nonneg(s.drop_last());
    }
}

/// Dropping trailing digits cannot increase the value of a digit string.
pub proof fn lemma_digits_value_prefix_le(s: Seq<char>, i: int)
    requires
        all_digits(s),
        0 <= i <= s.len(),
    ensures
        digits_value(s.take(i)) <= digits_value(s),
    decreases s.len() - i,
{
    if i < s.len() {
        lemma_digits_value_prefix_le(s, i + 1);
        let t = s.take(i + 1);
        assert(t.drop_last() =~= s.take(i));
        assert(all_digits(s.take(i)));
        lemma_digits_value_nonneg(s.take(i));
        assert(digits_value(t) == digits_value(s.take(i)) * 10 + digit_val(t.last()));
        assert(digit_val(t.last()) >= 0);
        assert(digits_value(s.take(i)) * 10 >= digits_value(s.take(i)));
    } else {
        assert(s.take(i) =~= s);
    }
}

/// The digit string of a non-negative integer consists of digits and is non-empty.
pub proof fn lemma_nat_digits_all_digits(n: int)
    requires
        0 <= n,
    ensures
        all_digits(nat_digits(n)),
        nat_digits(n).len() >= 1,
    decreases n,
{
    if n < 10 {
        assert(is_digit_char(digit_char(n)));
    } else {
        lemma_nat_digits_all_digits(n / 10);
        assert(0 <= n % 10 < 10);
        assert(is_digit_char(digit_char(n % 10)));
    }
}

/// Parsing the rendered digit string of a non-negative integer gives the
/// integer back.
pub proof fn lemma_nat_digits_value(n: int)
    requires
        0 <= n,
    ensures
        digits_value(nat_digits(n)) == n,
    decreases n,
{
    if n < 10 {
        let s = nat_digits(n);
        assert(s.drop_last() =~= Seq::<char>::empty());
        assert(digits_value(Seq::<char>::empty()) == 0);
        assert(digit_val(digit_char(n)) == n);
        assert(digits_value(s) == digits_value(s.drop_last()) * 10 + digit_val(s.last()));
    } else {
        lemma_nat_digits_value(n / 10);
        let s = nat_digits(n);
        assert(s.drop_last() =~= nat_digits(n / 10));
        assert(digit_val(digit_char(n % 10)) == n % 10);
        assert(digits_value(s) == (n / 10) * 10 + n % 10);
        assert((n / 10) * 10 + n % 10 == n) by {
            vstd::arithmetic::div_mod::lemma_fundamental_div_mod(n, 10);
        }
    }
}

/// The index of the first occurrence of `c` in `s`, if any.
pub open spec fn spec_find(s: Seq<char>, c: char) -> Option<int>
    decreases s.len(),
{
    if s.len() == 0 {
        None
    } else if s[0] == c {
        Some(0)
    } else {
        match spec_find(s.skip(1), c) {
            Some(i) => Some(i + 1),
            None => None,
        }
    }
}

/// A first occurrence determines the result of `spec_find`.
pub proof fn lemma_find_first(s: Seq<char>, c: char, i: int)
    requires
        0 <= i < s.len(),
        s[i] == c,
        forall|j: int| 0 <= j < i ==> s[j] != c,
    ensures
        spec_find(s, c) == Some(i),
    decreases i,
{
    if i > 0 {
        let t = s.skip(1);
        assert(t[i - 1] == s[i]);
        assert forall|j: int| 0 <= j < i - 1 implies t[j] != c by {
            assert(t[j] == s[j + 1]);
        }
        lemma_find_first(t, c, i - 1);
    }
}

/// Without an occurrence, `spec_find` finds nothing.
pub proof fn lemma_find_none(s: Seq<char>, c: char)
    requires
        forall|j: int| 0 <= j < s.len() ==> s[j] != c,
    ensures
        spec_find(s, c) is None,
    decreases s.len(),
{
    if s.len() > 0 {
        let t = s.skip(1);
        assert forall|j: int| 0 <= j < t.len() implies t[j] != c by {
            assert(t[j] == s[j + 1]);
        }
        lemma_find_none(t, c);
    }
}

/// Find the first occurrence of `c` in `s`.
pub fn find_char(s: &[char], c: char) -> (r: Option<usize>)
    ensures
        match r {
            Some(i) => spec_find(s@, c) == Some(i as int) && i < s@.len() && s@[i as int] == c,
            None => spec_find(s@, c) is None,
        },
{
    let n = s.len();
    let mut i: usize = 0;
    while i < n
        invariant
            0 <= i <= n,
            n == s@.len(),
            forall|j: int| 0 <= j < i ==> s@[j] != c,
        decreases n - i,
    {
        if s[i] == c {
            proof {
                lemma_find_first(s@, c, i as int);
            }
            return Some(i);
        }
        i = i + 1;
    }
    proof {
        lemma_find_none(s@, c);
    }
    None
}

/// True when `p` is a prefix of `s`.
pub open spec fn spec_starts_with(s: Seq<char>, p: Seq<char>) -> bool {
    p.len() <= s.len() && s.take(p.len() as int) == p
}

/// Whether `s` starts with the prefix `p`.
pub fn starts_with_chars(s: &[char], p: &[char]) -> (r: bool)
    ensures
        r == spec_starts_with(s@, p@),
{
    let pn = p.len();
    if pn > s.len() {
        return false;
    }
    let mut i: usize = 0;
    while i < pn
        invariant
            0 <= i <= pn,
            pn == p@.len(),
            pn <= s@.len(),
            forall|j: int| 0 <= j < i ==> s@[j] == p@[j],
        decreases pn - i,
    {
        if s[i] != p[i] {
            assert(s@.take(pn as int)[i as int] != p@[i as int]);
            return false;
        }
        i = i + 1;
    }
    assert(s@.take(pn as int) =~= p@);
    true
}

/// Whether two character slices hold the same characters.
pub fn chars_eq(a: &[char], b: &[char]) -> (r: bool)
    ensures
        r == (a@ == b@),
{
    let n = a.len();
    if n != b.len() {
        return false;
    }
    let mut i: usize = 0;
    while i < n
        invariant
            0 <= i <= n,
            n == a@.len() == b@.len(),
            forall|j: int| 0 <= j < i ==> a@[j] == b@[j],
        decreases n - i,
    {
        if a[i] != b[i] {
            return false;
        }
        i = i + 1;
    }
    assert(a@ =~= b@);
    true
}

/// Append every character of `src` to `dst`.
pub fn push_all(dst: &mut Vec<char>, src: &[char])
    ensures
        final(dst)@ == old(dst)@ + src@,
{
    let n = src.len();
    let mut i: usize = 0;
    while i < n
        invariant
            0 <= i <= n,
            n == src@.len(),
            dst@ == old(dst)@ + src@.take(i as int),
        decreases n - i,
    {
        dst.push(src[i]);
        assert(old(dst)@ + src@.take(i + 1) =~= (old(dst)@ + src@.take(i as int)).push(
            src@[i as int],
        ));
        i = i + 1;
    }
    assert(old(dst)@ + src@.take(n as int) =~= old(dst)@ + src@);
}

/// The whitespace characters that trimming removes: the ASCII whitespace set.
pub open spec fn is_space(c: char) -> bool {
    c == ' ' || c == '\t' || c == '\n' || c == '\r' || c == '\u{b}' || c == '\u{c}'
}

/// `s` without its leading whitespace.
pub open spec fn spec_trim_start(s: Seq<char>) -> Seq<char>
    decreases s.len(),
{
    if s.len() > 0 && is_space(s[0]) {
        spec_trim_start(s.skip(1))
    } else {
        s
    }
}

/// `s` without its trailing whitespace.
pub open spec fn spec_trim_end(s: Seq<char>) -> Seq<char>
    decreases s.len(),
{
    if s.len() > 0 && is_space(s.last()) {
        spec_trim_end(s.drop_last())
    } else {
        s
    }
}

/// `s` without leading and trailing whitespace.
pub open spec fn spec_trim(s: Seq<char>) -> Seq<char> {
    spec_trim_end(spec_trim_start(s))
}

proof fn lemma_trim_start_at(s: Seq<char>, i: int)
    requires
        0 <= i <= s.len(),
        forall|j: int| 0 <= j < i ==> is_space(#[trigger] s[j]),
        i == s.len() || !is_space(s[i]),
    ensures
        spec_trim_start(s) == s.skip(i),
    decreases i,
{
    if i == 0 {
        assert(s.skip(0) =~= s);
    } else {
        let t = s.skip(1);
        assert forall|j: int| 0 <= j < i - 1 implies is_space(#[trigger] t[j]) by {
            assert(t[j] == s[j + 1]);
        }
        if i < s.len() {
            assert(t[i - 1] == s[i]);
        }
        lemma_trim_start_at(t, i - 1);
        assert(t.skip(i - 1) =~= s.skip(i));
    }
}

proof fn lemma_trim_end_at(s: Seq<char>, i: int)
    requires
        0 <= i <= s.len(),
        forall|j: int| i <= j < s.len() ==> is_space(#[trigger] s[j]),
        i == 0 || !is_space(s[i - 1]),
    ensures
        spec_trim_end(s) == s.take(i),
    decreases s.len() - i,
{
    if i == s.len() {
        assert(s.take(i) =~= s);
    } else {
        let t = s.drop_last();
        assert forall|j: int| i <= j < t.len() implies is_space(#[trigger] t[j]) by {
            assert(t[j] == s[j]);
        }
        lemma_trim_end_at(t, i);
        assert(t.take(i) =~= s.take(i));
    }
}

/// Remove leading and trailing whitespace from a character slice.
pub fn trim_chars(s: &[char]) -> (r: Vec<char>)
    ensures
        r@ == spec_trim(s@),
{
    let n = s.len();
    let mut start: usize = 0;
    loop
        invariant_except_break
            0 <= start <= n,
            n == s@.len(),
            forall|j: int| 0 <= j < start ==> is_space(#[trigger] s@[j]),
        ensures
            spec_trim_start(s@) == s@.skip(start as int),
            0 <= start <= n,
            n == s@.len(),
        decreases n - start,
    {
        if start == n {
            proof {
                lemma_trim_start_at(s@, start as int);
            }
            break ;
        }
        let c = s[start];
        if !(c == ' ' || c == '\t' || c == '\n' || c == '\r' || c == '\u{b}' || c == '\u{c}') {
            proof {
                lemma_trim_start_at(s@, start as int);
            }
            break ;
        }
        start = start + 1;
    }
    let ghost t = spec_trim_start(s@);
    let mut end: usize = n;
    loop
        invariant_except_break
            start <= end <= n,
            n == s@.len(),
            t == s@.skip(start as int),
            forall|j: int| end <= j < n ==> is_space(#[trigger] s@[j]),
        ensures
            start <= end <= n,
            spec_trim_end(t) == s@.subrange(start as int, end as int),
        decreases end,
    {
        if end == start {
            proof {
                assert forall|j: int| 0 <= j < t.len() implies is_space(#[trigger] t[j]) by {
                    assert(t[j] == s@[j + start]);
                }
                lemma_trim_end_at(t, 0);
                assert(t.take(0) =~= s@.subrange(start as int, start as int));
            }
            break ;
        }
        let c = s[end - 1];
        if !(c == ' ' || c == '\t' || c == '\n' || c == '\r' || c == '\u{b}' || c == '\u{c}') {
            proof {
                let k = end - start;
                assert forall|j: int| k <= j < t.len() implies is_space(#[trigger] t[j]) by {
                    assert(t[j] == s@[j + start]);
                }
                assert(t[k - 1] == s@[end - 1]);
                lemma_trim_end_at(t, k);
                assert(t.take(k) =~= s@.subrange(start as int, end as int));
            }
            break ;
        }
        end = end - 1;
    }
    let piece = vstd::slice::slice_subrange(s, start, end);
    vstd::slice::slice_to_vec(piece)
}

/// Parse a string of ASCII digits as a `u64`. Returns the value exactly when
/// the string is non-empty, all digits, and the value fits.
pub open spec fn spec_parse_u64(s: Seq<char>) -> Option<u64> {
    if s.len() > 0 && all_digits(s) && digits_value(s) <= u64::MAX {
        Some(digits_value(s) as u64)
    } else {
        None
    }
}

/// Parse a decimal digit string as a `u64`.
pub fn parse_u64(s: &[char]) -> (r: Option<u64>)
    ensures
        r == spec_parse_u64(s@),
{
    let n = s.len();
    if n == 0 {
        return None;
    }
    let mut acc: u64 = 0;
    let mut i: usize = 0;
    while i < n
        invariant
            0 <= i <= n,
            n == s@.len(),
            all_digits(s@.take(i as int)),
            acc == digits_value(s@.take(i as int)),
        decreases n - i,
    {
        let c = s[i];
        let cv = c as u32;
        if cv < 48 || cv > 57 {
            assert(!is_digit_char(s@[i as int]));
            assert(!all_digits(s@));
            return None;
        }
        let d: u64 = (cv - 48) as u64;
        assert(s@.take(i + 1).drop_last() =~= s@.take(i as int));
        assert(s@.take(i + 1).last() == s@[i as int]);
        let step = match acc.checked_mul(10) {
            Some(m) => m.checked_add(d),
            None => None,
        };
        match step {
            Some(v) => {
                acc = v;
            },
            None => {
                // The prefix already exceeds u64::MAX, so the whole string does.
                assert(digits_value(s@.take(i + 1)) > u64::MAX);
                assert(all_digits(s@.take(i + 1)));
                if all_digits_check(s, i + 1) {
                    proof {
                        lemma_digits_value_prefix_le(s@, i + 1);
                    }
                    return None;
                } else {
                    assert(!all_digits(s@));
                    return None;
                }
            },
        }
        i = i + 1;
    }
    assert(s@.take(n as int) =~= s@);
    Some(acc)
}

/// True exactly when every character of `s` from `from` on is an ASCII digit.
fn all_digits_check(s: &[char], from: usize) -> (r: bool)
    requires
        from <= s@.len(),
        all_digits(s@.take(from as int)),
    ensures
        r == all_digits(s@),
{
    let n = s.len();
    let mut i: usize = from;
    while i < n
        invariant
            from <= i <= n,
            n == s@.len(),
            all_digits(s@.take(i as int)),
        decreases n - i,
    {
        let cv = s[i] as u32;
        if cv < 48 || cv > 57 {
            assert(!is_digit_char(s@[i as int]));
            return false;
        }
        assert(s@.take(i + 1).drop_last() =~= s@.take(i as int));
        i = i + 1;
    }
    assert(s@.take(n as int) =~= s@);
    true
}

/// Render a `u64` as its decimal digit string.
pub fn render_u64(n: u64) -> (r: Vec<char>)
    ensures
        r@ == nat_digits(n as int),
{
    let mut out: Vec<char> = Vec::new();
    let mut m: u64 = n;
    loop
        invariant_except_break
            nat_digits(n as int) == nat_digits(m as int) + out@,
        ensures
            nat_digits(n as int) == out@,
        decreases m,
    {
        let d: u64 = m % 10;
        let c: char = digit_to_char(d);
        proof {
            let prev = out@;
            let m0 = m as int;
            if m0 < 10 {
                assert(m0 % 10 == m0);
                assert(nat_digits(m0) == seq![digit_char(m0)]);
                assert(nat_digits(m0) + prev =~= prev.insert(0, digit_char(m0)));
            } else {
                assert(nat_digits(m0) == nat_digits(m0 / 10).push(digit_char(m0 % 10)));
                assert(nat_digits(m0) + prev =~= nat_digits(m0 / 10) + prev.insert(
                    0,
                    digit_char(m0 % 10),
                ));
            }
        }
        out.insert(0, c);
        if m < 10 {
            break ;
        }
        m = m / 10;
    }
    out
}

/// The views of a sequence of character vectors.
pub open spec fn views_of(vs: Seq<Vec<char>>) -> Seq<Seq<char>> {
    vs.map_values(|v: Vec<char>| v@)
}

/// Split `s` at every occurrence of `sep`. The result has one piece more
/// than there are separators; splitting the empty string gives one empty
/// piece.
pub open spec fn spec_split(s: Seq<char>, sep: char) -> Seq<Seq<char>>
    decreases s.len(),
{
    if s.len() == 0 {
        seq![Seq::<char>::empty()]
    } else if s[0] == sep {
        seq![Seq::<char>::empty()] + spec_split(s.skip(1), sep)
    } else {
        let rest = spec_split(s.skip(1), sep);
        seq![seq![s[0]] + rest[0]] + rest.skip(1)
    }
}

/// A split always yields at least one piece.
pub proof fn lemma_split_len(s: Seq<char>, sep: char)
    ensures
        spec_split(s, sep).len() >= 1,
    decreases s.len(),
{
    if s.len() > 0 {
        lemma_split_len(s.skip(1), sep);
    }
}

/// The pieces of a split, with `p` prefixed onto the first piece.
pub open spec fn prepend_first(p: Seq<char>, pieces: Seq<Seq<char>>) -> Seq<Seq<char>>
    recommends
        pieces.len() >= 1,
{
    seq![p + pieces[0]] + pieces.skip(1)
}

/// Split a character slice at every occurrence of `sep`.
pub fn split_char(s: &[char], sep: char) -> (r: Vec<Vec<char>>)
    ensures
        views_of(r@) == spec_split(s@, sep),
{
    let n = s.len();
    let mut done: Vec<Vec<char>> = Vec::new();
    let mut cur: Vec<char> = Vec::new();
    let mut i: usize = 0;
    proof {
        lemma_split_len(s@, sep);
        assert(s@.skip(0) =~= s@);
        assert(prepend_first(cur@, spec_split(s@, sep)) =~~= spec_split(s@, sep));
        assert(views_of(done@) =~= Seq::<Seq<char>>::empty());
    }
    while i < n
        invariant
            0 <= i <= n,
            n == s@.len(),
            spec_split(s@.skip(i as int), sep).len() >= 1,
            spec_split(s@, sep) =~~= views_of(done@) + prepend_first(
                cur@,
                spec_split(s@.skip(i as int), sep),
            ),
        decreases n - i,
    {
        let ghost t = s@.skip(i as int);
        let ghost rest = spec_split(s@.skip(i + 1), sep);
        proof {
            lemma_split_len(s@.skip(i + 1), sep);
            assert(t[0] == s@[i as int]);
            assert(t.skip(1) =~= s@.skip(i + 1));
        }
        let c = s[i];
        if c == sep {
            proof {
                assert(spec_split(t, sep) =~~= seq![Seq::<char>::empty()] + rest);
                assert(prepend_first(cur@, spec_split(t, sep)) =~~= seq![cur@] + rest);
                assert(views_of(done@.push(cur)) =~~= views_of(done@).push(cur@));
                assert(views_of(done@) + (seq![cur@] + rest) =~~= views_of(done@.push(cur))
                    + prepend_first(Seq::<char>::empty(), rest));
            }
            done.push(cur);
            cur = Vec::new();
        } else {
            proof {
                assert(spec_split(t, sep) =~~= seq![seq![t[0]] + rest[0]] + rest.skip(1));
                assert(prepend_first(cur@, spec_split(t, sep)) =~~= seq![cur@ + (seq![t[0]]
                    + rest[0])] + rest.skip(1));
                assert(cur@ + (seq![t[0]] + rest[0]) =~= cur@.push(s@[i as int]) + rest[0]);
                assert(prepend_first(cur@, spec_split(t, sep)) =~~= prepend_first(
                    cur@.push(s@[i as int]),
                    rest,
                ));
            }
            cur.push(c);
        }
        i = i + 1;
    }
    proof {
        assert(s@.skip(n as int) =~= Seq::<char>::empty());
        assert(spec_split(Seq::<char>::empty(), sep) =~~= seq![Seq::<char>::empty()]);
        assert(prepend_first(cur@, seq![Seq::<char>::empty()]) =~~= seq![cur@]);
        assert(views_of(done@.push(cur)) =~~= views_of(done@).push(cur@));
        assert(views_of(done@) + seq![cur@] =~~= views_of(done@.push(cur)));
    }
    done.push(cur);
    done
}

/// Splitting text that begins with a separator-free piece followed by a
/// separator yields that piece and then the split of the remainder.
pub proof fn lemma_split_line(a: Seq<char>, rest: Seq<char>, sep: char)
    requires
        forall|j: int| 0 <= j < a.len() ==> a[j] != sep,
    ensures
        spec_split(a + seq![sep] + rest, sep) == seq![a] + spec_split(rest, sep),
    decreases a.len(),
{
    let s = a + seq![sep] + rest;
    if a.len() == 0 {
        assert(s[0] == sep);
        assert(s.skip(1) =~= rest);
        assert(spec_split(s, sep) =~~= seq![a] + spec_split(rest, sep));
    } else {
        assert(s[0] == a[0]);
        assert(a[0] != sep);
        let t = a.skip(1);
        assert forall|j: int| 0 <= j < t.len() implies t[j] != sep by {
            assert(t[j] == a[j + 1]);
        }
        lemma_split_line(t, rest, sep);
        assert(s.skip(1) =~= t + seq![sep] + rest);
        let r = spec_split(s.skip(1), sep);
        assert(r == seq![t] + spec_split(rest, sep));
        assert(r[0] == t);
        assert(seq![s[0]] + r[0] =~= a);
        assert(r.skip(1) =~= spec_split(rest, sep));
        assert(spec_split(s, sep) =~~= seq![a] + spec_split(rest, sep));
    }
}

/// The decimal digit string of an integer, with a minus sign when negative.
pub open spec fn spec_i64_digits(n: int) -> Seq<char> {
    if n >= 0 {
        nat_digits(n)
    } else {
        seq!['-'] + nat_digits(-n)
    }
}

/// Digit strings contain no other character.
pub proof fn lemma_digits_no_char(s: Seq<char>, c: char)
    requires
        all_digits(s),
        !is_digit_char(c),
    ensures
        forall|j: int| 0 <= j < s.len() ==> s[j] != c,
{
}

/// A rendered millisecond count holds only digits and the dot.
pub proof fn lemma_render_millis_chars(ms: int, c: char)
    requires
        0 <= ms,
        !is_digit_char(c),
        c != '.',
    ensures
        forall|j: int| 0 <= j < spec_render_millis(ms).len() ==> spec_render_millis(ms)[j] != c,
{
    let s = spec_render_millis(ms);
    let a = nat_digits(ms / 1000);
    let f = frac3_digits(ms % 1000);
    lemma_nat_digits_all_digits(ms / 1000);
    lemma_frac3(ms % 1000);
    assert forall|j: int| 0 <= j < s.len() implies s[j] != c by {
        if j < a.len() {
            assert(s[j] == a[j]);
            assert(is_digit_char(a[j]));
        } else if j == a.len() {
            assert(s[j] == '.');
        } else {
            assert(s[j] == f[j - a.len() - 1]);
            assert(is_digit_char(f[j - a.len() - 1]));
        }
    }
}

/// A rendered integer holds only digits and the minus sign.
pub proof fn lemma_i64_digits_chars(n: int, c: char)
    requires
        !is_digit_char(c),
        c != '-',
    ensures
        forall|j: int| 0 <= j < spec_i64_digits(n).len() ==> spec_i64_digits(n)[j] != c,
{
    let s = spec_i64_digits(n);
    if n >= 0 {
        lemma_nat_digits_all_digits(n);
    } else {
        lemma_nat_digits_all_digits(-n);
        let d = nat_digits(-n);
        assert forall|j: int| 0 <= j < s.len() implies s[j] != c by {
            if j == 0 {
                assert(s[0] == '-');
            } else {
                assert(s[j] == d[j - 1]);
                assert(is_digit_char(d[j - 1]));
            }
        }
    }
}

/// The characters of a string.
pub fn str_to_chars(s: &str) -> (r: Vec<char>)
    ensures
        r@ == s@,
{
    let n = s.unicode_len();
    let mut out: Vec<char> = Vec::new();
    let mut i: usize = 0;
    while i < n
        invariant
            0 <= i <= n,
            n == s@.len(),
            out@ == s@.take(i as int),
        decreases n - i,
    {
        out.push(s.get_char(i));
        assert(out@ =~= s@.take(i + 1));
        i = i + 1;
    }
    assert(out@ =~= s@);
    out
}

/// Relies on `String`'s `FromIterator<char>` implementation: collecting the
/// characters of a vector yields the string with exactly those characters.
#[verifier::external_body]
pub fn chars_to_string(v: &Vec<char>) -> (r: String)
    ensures
        r@ == v@,
{
    v.iter().collect()
}

/// Parse an optionally negated string of ASCII digits as an `i64`. Returns
/// the value exactly when the digits are non-empty and the value fits.
pub open spec fn spec_parse_i64(s: Seq<char>) -> Option<i64> {
    if s.len() > 0 && s[0] == '-' {
        let mag = s.skip(1);
        if mag.len() > 0 && all_digits(mag) && digits_value(mag) <= i64::MAX + 1 {
            Some((-digits_value(mag)) as i64)
        } else {
            None
        }
    } else if s.len() > 0 && all_digits(s) && digits_value(s) <= i64::MAX {
        Some(digits_value(s) as i64)
    } else {
        None
    }
}

/// Parse a decimal digit string with an optional leading minus as an `i64`.
pub fn parse_i64(s: &[char]) -> (r: Option<i64>)
    ensures
        r == spec_parse_i64(s@),
{
    let n = s.len();
    if n == 0 {
        return None;
    }
    if s[0] == '-' {
        let mag = vstd::slice::slice_subrange(s, 1, n);
        assert(mag@ =~= s@.skip(1));
        match parse_u64(mag) {
            Some(v) => {
                proof {
                    lemma_digits_value_nonneg(mag@);
                }
                if v <= 9223372036854775807u64 {
                    Some(-(v as i64))
                } else if v == 9223372036854775808u64 {
                    Some(i64::MIN)
                } else {
                    proof {
                        lemma_digits_value_nonneg(mag@);
                    }
                    None
                }
            },
            None => {
                // Either a non-digit, or a magnitude beyond u64::MAX, which is
                // far beyond what an i64 can hold.
                if mag.len() > 0 && all_digits_check(mag, 0) {
                    proof {
                        lemma_digits_value_nonneg(mag@);
                    }
                    None
                } else {
                    None
                }
            },
        }
    } else {
        match parse_u64(s) {
            Some(v) => {
                proof {
                    lemma_digits_value_nonneg(s@);
                }
                if v <= 9223372036854775807u64 {
                    Some(v as i64)
                } else {
                    None
                }
            },
            None => None,
        }
    }
}

/// Render an `i64` as its decimal digit string, with a minus sign when
/// negative.
pub fn render_i64(n: i64) -> (r: Vec<char>)
    ensures
        r@ == spec_i64_digits(n as int),
{
    if n >= 0 {
        render_u64(n as u64)
    } else {
        let mag: u64 = if n == i64::MIN {
            9223372036854775808u64
        } else {
            (-n) as u64
        };
        let mut out: Vec<char> = Vec::new();
        out.push('-');
        let digits = render_u64(mag);
        push_all(&mut out, digits.as_slice());
        assert(out@ =~= seq!['-'] + nat_digits(-n as int));
        out
    }
}

/// The contribution of a fraction-of-a-second digit string to a millisecond
/// count: the first three digits, padded with zeros on the right.
pub open spec fn frac_ms(f: Seq<char>) -> int {
    if f.len() >= 3 {
        digits_value(f.take(3))
    } else if f.len() == 2 {
        digits_value(f) * 10
    } else if f.len() == 1 {
        digits_value(f) * 100
    } else {
        0
    }
}

/// Parse a decimal seconds value, with an optional fractional part, as a
/// whole number of milliseconds, truncating beyond the third fraction digit.
pub open spec fn spec_parse_millis(s: Seq<char>) -> Option<u64> {
    match spec_find(s, '.') {
        Some(i) => {
            let ip = s.take(i);
            let fp = s.skip(i + 1);
            if (ip.len() > 0 || fp.len() > 0) && all_digits(ip) && all_digits(fp) && digits_value(
                ip,
            ) * 1000 + frac_ms(fp) <= u64::MAX {
                Some((digits_value(ip) * 1000 + frac_ms(fp)) as u64)
            } else {
                None
            }
        },
        None => {
            if s.len() > 0 && all_digits(s) && digits_value(s) * 1000 <= u64::MAX {
                Some((digits_value(s) * 1000) as u64)
            } else {
                None
            }
        },
    }
}

/// The scaled value of the leading up-to-three fraction digits.
fn frac_part_ms(fp: &[char]) -> (r: Option<u64>)
    ensures
        match r {
            Some(v) => all_digits(fp@) && v == frac_ms(fp@),
            None => !all_digits(fp@),
        },
{
    if !all_digits_check(fp, 0) {
        return None;
    }
    proof {
        lemma_digits_value_nonneg(fp@);
    }
    let n = fp.len();
    if n == 0 {
        Some(0)
    } else if n <= 2 {
        proof {
            lemma_digits_value_small(fp@);
        }
        match parse_u64(fp) {
            Some(v) => {
                if n == 1 {
                    Some(v * 100)
                } else {
                    Some(v * 10)
                }
            },
            None => None,
        }
    } else {
        let head = vstd::slice::slice_subrange(fp, 0, 3);
        proof {
            assert(head@ =~= fp@.take(3));
            assert forall|j: int| 0 <= j < fp@.take(3).len() implies is_digit_char(
                #[trigger] fp@.take(3)[j],
            ) by {
                assert(fp@.take(3)[j] == fp@[j]);
            }
            lemma_digits_value_small(fp@.take(3));
            lemma_digits_value_nonneg(fp@.take(3));
        }
        match parse_u64(head) {
            Some(v) => Some(v),
            None => None,
        }
    }
}

/// A digit string's value is below ten to the power of its length.
proof fn lemma_digits_value_small(s: Seq<char>)
    requires
        all_digits(s),
    ensures
        s.len() == 1 ==> digits_value(s) <= 9,
        s.len() == 2 ==> digits_value(s) <= 99,
        s.len() == 3 ==> digits_value(s) <= 999,
{
    if 1 <= s.len() <= 3 {
        let a = s.drop_last();
        assert(digits_value(s) == digits_value(a) * 10 + digit_val(s.last()));
        assert(digit_val(s.last()) <= 9);
        if s.len() == 1 {
            assert(a =~= Seq::<char>::empty());
            assert(digits_value(a) == 0);
        } else {
            let b = a.drop_last();
            assert(digits_value(a) == digits_value(b) * 10 + digit_val(a.last()));
            assert(digit_val(a.last()) <= 9);
            if s.len() == 2 {
                assert(b =~= Seq::<char>::empty());
                assert(digits_value(b) == 0);
            } else {
                let c = b.drop_last();
                assert(digits_value(b) == digits_value(c) * 10 + digit_val(b.last()));
                assert(digit_val(b.last()) <= 9);
                assert(c =~= Seq::<char>::empty());
                assert(digits_value(c) == 0);
            }
        }
    }
}

/// Parse a decimal seconds string into milliseconds.
pub fn parse_millis(s: &[char]) -> (r: Option<u64>)
    ensures
        r == spec_parse_millis(s@),
{
    let n = s.len();
    match find_char(s, '.') {
        Some(i) => {
            let ip = vstd::slice::slice_subrange(s, 0, i);
            let fp = vstd::slice::slice_subrange(s, i + 1, n);
            assert(ip@ =~= s@.take(i as int));
            assert(fp@ =~= s@.skip(i + 1));
            if ip.len() == 0 && fp.len() == 0 {
                return None;
            }
            let fv = match frac_part_ms(fp) {
                Some(fv) => fv,
                None => {
                    return None;
                },
            };
            proof {
                lemma_digits_value_nonneg(fp@);
                if fp@.len() >= 3 {
                    assert(all_digits(fp@.take(3)));
                    lemma_digits_value_nonneg(fp@.take(3));
                }
            }
            let iv: u64 = if ip.len() == 0 {
                0u64
            } else {
                match parse_u64(ip) {
                    Some(v) => {
                        proof {
                            lemma_digits_value_nonneg(ip@);
                        }
                        v
                    },
                    None => {
                        // All further checks concern the integer part's digits;
                        // a too-large value can only grow after scaling.
                        if all_digits_check(ip, 0) {
                            proof {
                                lemma_digits_value_nonneg(ip@);
                            }
                            return None;
                        } else {
                            return None;
                        }
                    },
                }
            };
            match iv.checked_mul(1000) {
                Some(scaled) => match scaled.checked_add(fv) {
                    Some(total) => Some(total),
                    None => None,
                },
                None => {
                    proof {
                        lemma_digits_value_nonneg(ip@);
                    }
                    None
                },
            }
        },
        None => {
            match parse_u64(s) {
                Some(v) => {
                    proof {
                        lemma_digits_value_nonneg(s@);
                    }
                    match v.checked_mul(1000) {
                        Some(total) => Some(total),
                        None => None,
                    }
                },
                None => None,
            }
        },
    }
}

/// The three zero-padded digits of a millisecond remainder below one second.
pub open spec fn frac3_digits(r: int) -> Seq<char> {
    seq![digit_char(r / 100), digit_char((r / 10) % 10), digit_char(r % 10)]
}

/// The canonical decimal rendering of a millisecond count as seconds: the
/// whole seconds, a dot, and exactly three fraction digits.
pub open spec fn spec_render_millis(ms: int) -> Seq<char> {
    nat_digits(ms / 1000) + seq!['.'] + frac3_digits(ms % 1000)
}

/// Render a millisecond count as a decimal seconds string.
pub fn render_millis(ms: u64) -> (r: Vec<char>)
    ensures
        r@ == spec_render_millis(ms as int),
{
    let mut out = render_u64(ms / 1000);
    out.push('.');
    let rem: u64 = ms % 1000;
    out.push(digit_to_char(rem / 100));
    out.push(digit_to_char((rem / 10) % 10));
    out.push(digit_to_char(rem % 10));
    proof {
        assert((ms as int) % 1000 == rem as int);
        assert((rem as int) / 100 == rem as int / 100);
        assert(out@ =~= spec_render_millis(ms as int));
    }
    out
}

/// The three padded fraction digits are digits and carry the remainder's value.
proof fn lemma_frac3(r: int)
    requires
        0 <= r <= 999,
    ensures
        all_digits(frac3_digits(r)),
        frac3_digits(r).len() == 3,
        digits_value(frac3_digits(r)) == r,
{
    let f = frac3_digits(r);
    assert(0 <= r / 100 <= 9);
    assert(0 <= (r / 10) % 10 <= 9);
    assert(0 <= r % 10 <= 9);
    lemma_digit_char_val(r / 100);
    lemma_digit_char_val((r / 10) % 10);
    lemma_digit_char_val(r % 10);
    assert forall|i: int| 0 <= i < f.len() implies is_digit_char(#[trigger] f[i]) by {
        assert(f[0] == digit_char(r / 100) && f[1] == digit_char((r / 10) % 10) && f[2]
            == digit_char(r % 10));
    }
    let a = f.drop_last();
    let b = a.drop_last();
    let c = b.drop_last();
    assert(c =~= Seq::<char>::empty());
    assert(digits_value(c) == 0);
    assert(b.last() == digit_char(r / 100));
    assert(a.last() == digit_char((r / 10) % 10));
    assert(f.last() == digit_char(r % 10));
    assert(digits_value(f) == digits_value(a) * 10 + digit_val(f.last()));
    assert(digits_value(a) == digits_value(b) * 10 + digit_val(a.last()));
    assert(digits_value(b) == digits_value(c) * 10 + digit_val(b.last()));
    assert(digits_value(f) == ((r / 100) * 10 + (r / 10) % 10) * 10 + r % 10);
    assert((r / 10) / 10 == r / 100) by {
        vstd::arithmetic::div_mod::lemma_div_denominator(r, 10, 10);
    }
    assert((r / 100) * 10 + (r / 10) % 10 == r / 10) by {
        vstd::arithmetic::div_mod::lemma_fundamental_div_mod(r / 10, 10);
    }
    assert((r / 10) * 10 + r % 10 == r) by {
        vstd::arithmetic::div_mod::lemma_fundamental_div_mod(r, 10);
    }
}

/// Round trip: parsing a rendered millisecond count gives the count back.
pub proof fn lemma_parse_render_millis(ms: u64)
    ensures
        spec_parse_millis(spec_render_millis(ms as int)) == Some(ms),
{
    let m = ms as int;
    let a = nat_digits(m / 1000);
    let f = frac3_digits(m % 1000);
    let s = spec_render_millis(m);
    lemma_nat_digits_all_digits(m / 1000);
    lemma_nat_digits_value(m / 1000);
    lemma_frac3(m % 1000);
    let i = a.len() as int;
    assert(s[i] == '.');
    assert forall|j: int| 0 <= j < i implies s[j] != '.' by {
        assert(s[j] == a[j]);
        assert(is_digit_char(a[j]));
    }
    lemma_find_first(s, '.', i);
    assert(s.take(i) =~= a);
    assert(s.skip(i + 1) =~= f);
    assert(f.take(3) =~= f);
    assert(frac_ms(f) == m % 1000);
    assert(digits_value(a) * 1000 + frac_ms(f) == (m / 1000) * 1000 + m % 1000);
    assert((m / 1000) * 1000 + m % 1000 == m) by {
        vstd::arithmetic::div_mod::lemma_fundamental_div_mod(m, 1000);
    }
}

/// Round trip: parsing a rendered `u64` gives the value back.
pub proof fn lemma_parse_render_u64(n: u64)
    ensures
        spec_parse_u64(nat_digits(n as int)) == Some(n),
{
    lemma_nat_digits_all_digits(n as int);
    lemma_nat_digits_value(n as int);
}

/// Round trip: parsing a rendered `i64` gives the value back.
pub proof fn lemma_parse_render_i64(n: i64)
    ensures
        spec_parse_i64(spec_i64_digits(n as int)) == Some(n),
{
    if n >= 0 {
        lemma_nat_digits_all_digits(n as int);
        lemma_nat_digits_value(n as int);
    } else {
        let mag = -n as int;
        lemma_nat_digits_all_digits(mag);
        lemma_nat_digits_value(mag);
        let s = seq!['-'] + nat_digits(mag);
        assert(s[0] == '-');
        assert(s.skip(1) =~= nat_digits(mag));
    }
}

} // verus!
