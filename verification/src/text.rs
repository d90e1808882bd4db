//! Text primitives shared by the gateway's parsers.
//!
//! Every routine works on Unicode scalar values: the model of a string is its
//! `Seq<char>`, positions count characters, and each executable function is
//! tied to a specification function over that model.

use vstd::prelude::*;
use vstd::string::*;

verus! {

broadcast use vstd::string::group_string_axioms;

/// Position of the first `c` in `s`; `s.len()` when `s` holds no `c`.
pub open spec fn first_index_of(s: Seq<char>, c: char) -> int
    decreases s.len(),
{
    if s.len() == 0 {
        0
    } else if s[0] == c {
        0
    } else {
        1 + first_index_of(s.drop_first(), c)
    }
}

/// Position of the last `c` in `s`; `-1` when `s` holds no `c`.
pub open spec fn last_index_of(s: Seq<char>, c: char) -> int
    decreases s.len(),
{
    if s.len() == 0 {
        -1
    } else if s.last() == c {
        s.len() - 1
    } else {
        last_index_of(s.drop_last(), c)
    }
}

/// The pieces of `s` between occurrences of `sep`. A string without `sep`
/// is one piece; `n` separators always give `n + 1` pieces, empty ones
/// included.
pub open spec fn split_on(s: Seq<char>, sep: char) -> Seq<Seq<char>>
    decreases s.len(),
{
    let i = first_index_of(s, sep);
    if 0 <= i < s.len() {
        seq![s.take(i)] + split_on(s.skip(i + 1), sep)
    } else {
        seq![s]
    }
}

/// `s` without its longest suffix made only of characters that `drop`
/// holds of.
pub open spec fn trim_end_where(s: Seq<char>, drop: spec_fn(char) -> bool) -> Seq<char>
    decreases s.len(),
{
    if s.len() > 0 && drop(s.last()) {
        trim_end_where(s.drop_last(), drop)
    } else {
        s
    }
}

/// `s` without its longest suffix made only of characters of `strip`.
pub open spec fn trim_end_of(s: Seq<char>, strip: Seq<char>) -> Seq<char> {
    trim_end_where(s, |c: char| strip.contains(c))
}

/// Whether `s` begins with `prefix`.
pub open spec fn has_prefix(s: Seq<char>, prefix: Seq<char>) -> bool {
    prefix.len() <= s.len() && s.take(prefix.len() as int) == prefix
}

/// Whether `needle` occurs in `s` as a contiguous run.
pub open spec fn contains_text(s: Seq<char>, needle: Seq<char>) -> bool {
    exists|i: int| occurs_at(s, needle, i)
}

/// Whether `needle` stands in `s` at position `i`.
pub open spec fn occurs_at(s: Seq<char>, needle: Seq<char>, i: int) -> bool {
    0 <= i && i + needle.len() <= s.len() && s.subrange(i, i + needle.len()) == needle
}

/// The characters with the Unicode `White_Space` property.
pub open spec fn is_space(c: char) -> bool {
    let n = c as u32;
    (0x09 <= n <= 0x0D) || n == 0x20 || n == 0x85 || n == 0xA0 || n == 0x1680 || (0x2000 <= n
        <= 0x200A) || n == 0x2028 || n == 0x2029 || n == 0x202F || n == 0x205F || n == 0x3000
}

/// `s` without its leading white space.
pub open spec fn trim_start_space(s: Seq<char>) -> Seq<char>
    decreases s.len(),
{
    if s.len() > 0 && is_space(s[0]) {
        trim_start_space(s.drop_first())
    } else {
        s
    }
}

/// `s` without its trailing white space.
pub open spec fn trim_end_space(s: Seq<char>) -> Seq<char> {
    trim_end_where(s, |c: char| is_space(c))
}

/// `s` without white space at either end.
pub open spec fn trim_space(s: Seq<char>) -> Seq<char> {
    trim_end_space(trim_start_space(s))
}

/// Length of the run of non-space characters that `s` starts with.
pub open spec fn word_len(s: Seq<char>) -> int
    decreases s.len(),
{
    if s.len() == 0 || is_space(s[0]) {
        0
    } else {
        1 + word_len(s.drop_first())
    }
}

/// The maximal runs of non-space characters of `s`, in order.
pub open spec fn words(s: Seq<char>) -> Seq<Seq<char>>
    decreases s.len(),
{
    let t = trim_start_space(s);
    let n = word_len(t);
    if 0 < n <= t.len() <= s.len() {
        seq![t.take(n)] + words(t.skip(n))
    } else {
        Seq::empty()
    }
}

/// Whether `c` is one of `0` to `9`.
pub open spec fn is_digit(c: char) -> bool {
    '0' <= c <= '9'
}

/// Whether `s` holds decimal digits only. The empty string does.
pub open spec fn all_digits(s: Seq<char>) -> bool {
    forall|i: int| 0 <= i < s.len() ==> is_digit(#[trigger] s[i])
}

/// The number that the decimal digits of `s` write, most significant first.
pub open spec fn decimal_value(s: Seq<char>) -> nat
    decreases s.len(),
{
    if s.len() == 0 {
        0
    } else {
        (decimal_value(s.drop_last()) * 10 + (s.last() as u32 - '0' as u32)) as nat
    }
}

/// The digits of a number in text: `s` itself, or what follows one leading
/// `+`.
pub open spec fn unsigned_digits(s: Seq<char>) -> Seq<char> {
    if s.len() > 0 && s[0] == '+' {
        s.skip(1)
    } else {
        s
    }
}

/// A port number read from text: an optional `+`, then at least one decimal
/// digit and nothing else, the whole no greater than 65535. Anything else
/// is no number.
pub open spec fn parse_u16_spec(s: Seq<char>) -> Option<u16> {
    let digits = unsigned_digits(s);
    if digits.len() > 0 && all_digits(digits) && decimal_value(digits) <= 0xffff {
        Some(decimal_value(digits) as u16)
    } else {
        None
    }
}

/// The character that writes the digit `d`.
pub open spec fn digit_char(d: nat) -> char {
    ('0' as u32 + d) as char
}

/// `n` in decimal, without sign or leading zeros.
pub open spec fn decimal_text(n: nat) -> Seq<char>
    decreases n,
{
    if n < 10 {
        seq![digit_char(n)]
    } else {
        decimal_text(n / 10).push(digit_char(n % 10))
    }
}

/// `first_index_of` is the one position before which no `c` stands and at
/// which `c` stands, or the length.
pub proof fn lemma_first_index_of(s: Seq<char>, c: char, k: int)
    requires
        0 <= k <= s.len(),
        forall|j: int| 0 <= j < k ==> s[j] != c,
        k < s.len() ==> s[k] == c,
    ensures
        first_index_of(s, c) == k,
    decreases s.len(),
{
    if s.len() > 0 && s[0] != c {
        let t = s.drop_first();
        assert forall|j: int| 0 <= j < k - 1 implies t[j] != c by {
            assert(t[j] == s[j + 1]);
        }
        lemma_first_index_of(t, c, k - 1);
    }
}

/// What `first_index_of` returns lies in `0..=s.len()` and points at the first `c`.
pub proof fn lemma_first_index_of_bounds(s: Seq<char>, c: char)
    ensures
        0 <= first_index_of(s, c) <= s.len(),
        forall|j: int| 0 <= j < first_index_of(s, c) ==> s[j] != c,
        first_index_of(s, c) < s.len() ==> s[first_index_of(s, c)] == c,
        first_index_of(s, c) == s.len() <==> !s.contains(c),
    decreases s.len(),
{
    if s.len() > 0 && s[0] != c {
        let t = s.drop_first();
        lemma_first_index_of_bounds(t, c);
        let k = first_index_of(t, c);
        assert forall|j: int| 0 <= j < k + 1 implies s[j] != c by {
            if j > 0 {
                assert(s[j] == t[j - 1]);
            }
        }
        if k < t.len() {
            assert(s[k + 1] == t[k]);
        }
        if s.contains(c) {
            let j = choose|j: int| 0 <= j < s.len() && s[j] == c;
            assert(t[j - 1] == c);
        }
        if t.contains(c) {
            let j = choose|j: int| 0 <= j < t.len() && t[j] == c;
            assert(s[j + 1] == c);
        }
    } else if s.len() > 0 {
        assert(s[0] == c);
    }
}

/// `last_index_of` is the one position at which `c` stands and after which
/// no `c` stands, or `-1`.
pub proof fn lemma_last_index_of(s: Seq<char>, c: char, k: int)
    requires
        -1 <= k < s.len(),
        forall|j: int| k < j < s.len() ==> s[j] != c,
        0 <= k ==> s[k] == c,
    ensures
        last_index_of(s, c) == k,
    decreases s.len(),
{
    if s.len() > 0 && s.last() != c {
        let t = s.drop_last();
        assert forall|j: int| k < j < t.len() implies t[j] != c by {
            assert(t[j] == s[j]);
        }
        lemma_last_index_of(t, c, k);
    }
}

/// `trim_end_where` is the prefix that ends at the last character of
/// which `drop` does not hold.
pub proof fn lemma_trim_end_where(s: Seq<char>, drop: spec_fn(char) -> bool, k: int)
    requires
        0 <= k <= s.len(),
        forall|j: int| k <= j < s.len() ==> drop(#[trigger] s[j]),
        k > 0 ==> !drop(s[k - 1]),
    ensures
        trim_end_where(s, drop) == s.take(k),
    decreases s.len(),
{
    if s.len() > k {
        let t = s.drop_last();
        assert(drop(s[s.len() - 1]));
        assert forall|j: int| k <= j < t.len() implies drop(#[trigger] t[j]) by {
            assert(t[j] == s[j]);
        }
        lemma_trim_end_where(t, drop, k);
        assert(t.take(k) == s.take(k));
    } else {
        assert(s.take(k) == s);
    }
}

/// `trim_start_space` drops exactly the leading run of white space.
pub proof fn lemma_trim_start_space(s: Seq<char>, k: int)
    requires
        0 <= k <= s.len(),
        forall|j: int| 0 <= j < k ==> is_space(#[trigger] s[j]),
        k < s.len() ==> !is_space(s[k]),
    ensures
        trim_start_space(s) == s.skip(k),
    decreases s.len(),
{
    if k > 0 {
        let t = s.drop_first();
        assert(is_space(s[0]));
        assert forall|j: int| 0 <= j < k - 1 implies is_space(#[trigger] t[j]) by {
            assert(t[j] == s[j + 1]);
        }
        lemma_trim_start_space(t, k - 1);
        assert(t.skip(k - 1) == s.skip(k));
    } else {
        assert(s.skip(0) == s);
    }
}

/// `word_len` is the length of the leading run of non-space characters.
pub proof fn lemma_word_len(s: Seq<char>, k: int)
    requires
        0 <= k <= s.len(),
        forall|j: int| 0 <= j < k ==> !is_space(#[trigger] s[j]),
        k < s.len() ==> is_space(s[k]),
    ensures
        word_len(s) == k,
    decreases s.len(),
{
    if k > 0 {
        let t = s.drop_first();
        assert(!is_space(s[0]));
        assert forall|j: int| 0 <= j < k - 1 implies !is_space(#[trigger] t[j]) by {
            assert(t[j] == s[j + 1]);
        }
        lemma_word_len(t, k - 1);
    }
}

/// A number written with more digits in front is no smaller.
pub proof fn lemma_decimal_value_grows(s: Seq<char>, k: int)
    requires
        0 <= k <= s.len(),
        all_digits(s),
    ensures
        decimal_value(s.take(k)) <= decimal_value(s),
    decreases s.len() - k,
{
    if k < s.len() {
        let t = s.take(k + 1);
        assert(t.drop_last() == s.take(k));
        assert(is_digit(s[k]));
        assert(t.last() == s[k]);
        lemma_decimal_value_grows(s, k + 1);
    } else {
        assert(s.take(k) == s);
    }
}

/// What `decimal_text` writes is at least one character, digits only, and
/// has the value that was written.
pub proof fn lemma_decimal_text(n: nat)
    ensures
        decimal_text(n).len() > 0,
        all_digits(decimal_text(n)),
        decimal_value(decimal_text(n)) == n,
    decreases n,
{
    let last = digit_char(n % 10);
    assert(last as u32 - '0' as u32 == n % 10);
    if n >= 10 {
        lemma_decimal_text(n / 10);
        let front = decimal_text(n / 10);
        let whole = front.push(last);
        assert(whole.drop_last() == front);
        assert(whole.last() == last);
        assert forall|i: int| 0 <= i < whole.len() implies is_digit(#[trigger] whole[i]) by {
            if i < front.len() {
                assert(whole[i] == front[i]);
            }
        }
        assert(decimal_value(whole) == decimal_value(front) * 10 + n % 10);
    } else {
        let one = decimal_text(n);
        assert(one.drop_last() == Seq::<char>::empty());
        assert(one.last() == last);
        assert(decimal_value(one.drop_last()) == 0);
        assert(decimal_value(one) == decimal_value(one.drop_last()) * 10 + n % 10);
    }
}

/// A port number that was written in decimal is read back as itself.
pub proof fn lemma_decimal_round_trip(n: u16)
    ensures
        parse_u16_spec(decimal_text(n as nat)) == Some(n),
{
    lemma_decimal_text(n as nat);
    assert(is_digit(decimal_text(n as nat)[0]));
}

/// Copies the characters of `s` into a vector.
pub fn to_chars(s: &str) -> (v: Vec<char>)
    ensures
        v@ == s@,
{
    let mut v: Vec<char> = Vec::new();
    for c in it: s.chars()
        invariant
            it.seq() == s@,
            v@ == it.seq().take(it.index() as int),
    {
        v.push(c);
    }
    assert(v@ == s@);
    v
}

/// Whether `c` occurs in `s`.
pub fn contains_char(s: &str, c: char) -> (found: bool)
    ensures
        found == s@.contains(c),
{
    let v = to_chars(s);
    let i = find_from(&v, 0, c);
    proof {
        lemma_first_index_of_bounds(v@, c);
        assert(v@.skip(0) == v@);
    }
    i < v.len()
}

/// Position of the first `c` in `v` at or after `start`; `v.len()` when
/// there is none.
pub(crate) fn find_from(v: &Vec<char>, start: usize, c: char) -> (i: usize)
    requires
        start <= v.len(),
    ensures
        start <= i <= v.len(),
        i - start == first_index_of(v@.skip(start as int), c),
{
    let mut i: usize = start;
    while i < v.len() && v[i] != c
        invariant
            start <= i <= v.len(),
            forall|j: int| start <= j < i ==> v@[j] != c,
        decreases v.len() - i,
    {
        i += 1;
    }
    proof {
        let t = v@.skip(start as int);
        assert forall|j: int| 0 <= j < i - start implies t[j] != c by {
            assert(t[j] == v@[j + start]);
        }
        lemma_first_index_of(t, c, i - start);
    }
    i
}

/// Position of the last `c` in `v`, if there is one.
pub fn find_last(v: &Vec<char>, c: char) -> (r: Option<usize>)
    ensures
        match r {
            Some(i) => i < v.len() && i == last_index_of(v@, c),
            None => last_index_of(v@, c) == -1,
        },
{
    let mut i: usize = v.len();
    while i > 0 && v[i - 1] != c
        invariant
            i <= v.len(),
            forall|j: int| i <= j < v.len() ==> v@[j] != c,
        decreases i,
    {
        i -= 1;
    }
    proof {
        lemma_last_index_of(v@, c, i - 1);
    }
    if i == 0 {
        None
    } else {
        Some(i - 1)
    }
}

/// The pieces of `s` between occurrences of `sep`, as owned strings.
pub fn split(s: &str, sep: char) -> (pieces: Vec<String>)
    ensures
        pieces.deep_view() == split_on(s@, sep),
        pieces.len() >= 1,
{
    let v = to_chars(s);
    let n = v.len();
    let mut pieces: Vec<String> = Vec::new();
    let mut start: usize = 0;
    proof {
        assert(s@.skip(0) == s@);
        assert(pieces.deep_view() + split_on(s@, sep) == split_on(s@, sep));
    }
    loop
        invariant_except_break
            v@ == s@,
            n == v.len(),
            start <= n,
            split_on(s@, sep) == pieces.deep_view() + split_on(s@.skip(start as int), sep),
        ensures
            pieces.deep_view() == split_on(s@, sep),
            pieces.len() >= 1,
        decreases n - start,
    {
        let i = find_from(&v, start, sep);
        let piece = String::from_str(s.substring_char(start, i));
        let ghost before = pieces.deep_view();
        let ghost rest = s@.skip(start as int);
        pieces.push(piece);
        proof {
            assert(rest.take(i - start) == s@.subrange(start as int, i as int));
            assert(pieces.deep_view() == before.push(piece@));
        }
        if i == n {
            proof {
                assert(split_on(rest, sep) == seq![rest]);
                assert(rest.take(i - start) == rest);
                assert(before + seq![rest] == before.push(rest));
            }
            break;
        }
        proof {
            assert(rest.skip(i - start + 1) == s@.skip(i + 1));
            assert(split_on(rest, sep) == seq![rest.take(i - start)] + split_on(
                rest.skip(i - start + 1),
                sep,
            ));
            assert(before + (seq![piece@] + split_on(s@.skip(i + 1), sep)) == before.push(piece@)
                + split_on(s@.skip(i + 1), sep));
        }
        start = i + 1;
    }
    pieces
}

/// `s` without the trailing characters that occur in `strip`.
pub fn trim_end_matches(s: &str, strip: &str) -> (r: String)
    ensures
        r@ == trim_end_of(s@, strip@),
{
    let v = to_chars(s);
    let mut k: usize = v.len();
    while k > 0 && contains_char(strip, v[k - 1])
        invariant
            v@ == s@,
            k <= v.len(),
            forall|j: int| k <= j < v.len() ==> strip@.contains(#[trigger] v@[j]),
        decreases k,
    {
        k -= 1;
    }
    proof {
        lemma_trim_end_where(s@, |c: char| strip@.contains(c), k as int);
    }
    String::from_str(s.substring_char(0, k))
}

/// Whether `s` begins with `prefix`.
pub fn starts_with(s: &str, prefix: &str) -> (r: bool)
    ensures
        r == has_prefix(s@, prefix@),
{
    let v = to_chars(s);
    let p = to_chars(prefix);
    if p.len() > v.len() {
        return false;
    }
    matches_at(&v, &p, 0)
}

/// Whether `p` stands in `v` at position `at`.
pub(crate) fn matches_at(v: &Vec<char>, p: &Vec<char>, at: usize) -> (r: bool)
    requires
        at + p.len() <= v.len(),
    ensures
        r == (v@.subrange(at as int, at + p.len()) == p@),
{
    let mut j: usize = 0;
    while j < p.len()
        invariant
            at + p.len() <= v.len(),
            j <= p.len(),
            forall|t: int| 0 <= t < j ==> v@[at + t] == p@[t],
        decreases p.len() - j,
    {
        if v[at + j] != p[j] {
            proof {
                let w = v@.subrange(at as int, at + p.len());
                assert(w[j as int] != p@[j as int]);
            }
            return false;
        }
        j += 1;
    }
    proof {
        assert(v@.subrange(at as int, at + p.len()) =~= p@);
    }
    true
}

/// Whether `needle` occurs in `s` as a contiguous run. The empty needle
/// occurs in every string.
pub fn contains(s: &str, needle: &str) -> (r: bool)
    ensures
        r == contains_text(s@, needle@),
{
    let v = to_chars(s);
    let p = to_chars(needle);
    if p.len() > v.len() {
        proof {
            assert forall|i: int| !occurs_at(s@, needle@, i) by {}
        }
        return false;
    }
    let last: usize = v.len() - p.len();
    let mut i: usize = 0;
    loop
        invariant
            v@ == s@,
            p@ == needle@,
            last == v.len() - p.len(),
            i <= last,
            forall|t: int| 0 <= t < i ==> !occurs_at(s@, needle@, t),
        decreases last - i,
    {
        if matches_at(&v, &p, i) {
            proof {
                assert(occurs_at(s@, needle@, i as int));
            }
            return true;
        }
        if i == last {
            proof {
                assert forall|t: int| !occurs_at(s@, needle@, t) by {}
            }
            return false;
        }
        i += 1;
    }
}

/// Whether `c` has the Unicode `White_Space` property.
pub fn is_whitespace(c: char) -> (r: bool)
    ensures
        r == is_space(c),
{
    let n: u32 = c as u32;
    (0x09 <= n && n <= 0x0D) || n == 0x20 || n == 0x85 || n == 0xA0 || n == 0x1680 || (0x2000
        <= n && n <= 0x200A) || n == 0x2028 || n == 0x2029 || n == 0x202F || n == 0x205F || n
        == 0x3000
}

/// `s` without white space at either end.
pub fn trim(s: &str) -> (r: String)
    ensures
        r@ == trim_space(s@),
{
    let v = to_chars(s);
    let mut a: usize = 0;
    while a < v.len() && is_whitespace(v[a])
        invariant
            a <= v.len(),
            forall|j: int| 0 <= j < a ==> is_space(#[trigger] v@[j]),
        decreases v.len() - a,
    {
        a += 1;
    }
    let mut b: usize = v.len();
    while b > a && is_whitespace(v[b - 1])
        invariant
            a <= b <= v.len(),
            forall|j: int| b <= j < v.len() ==> is_space(#[trigger] v@[j]),
        decreases b,
    {
        b -= 1;
    }
    proof {
        let t = s@.skip(a as int);
        lemma_trim_start_space(s@, a as int);
        assert forall|j: int| b - a <= j < t.len() implies is_space(#[trigger] t[j]) by {
            assert(t[j] == v@[j + a]);
        }
        if b > a {
            assert(t[b - a - 1] == v@[b - 1]);
        }
        lemma_trim_end_where(t, |c: char| is_space(c), b - a);
        assert(t.take(b - a) == s@.subrange(a as int, b as int));
    }
    String::from_str(s.substring_char(a, b))
}

/// The maximal runs of non-space characters of `s`, as owned strings.
pub fn split_whitespace(s: &str) -> (pieces: Vec<String>)
    ensures
        pieces.deep_view() == words(s@),
{
    let v = to_chars(s);
    let n = v.len();
    let mut pieces: Vec<String> = Vec::new();
    let mut pos: usize = 0;
    proof {
        assert(s@.skip(0) == s@);
        assert(pieces.deep_view() + words(s@) == words(s@));
    }
    loop
        invariant_except_break
            v@ == s@,
            n == v.len(),
            pos <= n,
            words(s@) == pieces.deep_view() + words(s@.skip(pos as int)),
        ensures
            pieces.deep_view() == words(s@),
        decreases n - pos,
    {
        let ghost rest = s@.skip(pos as int);
        let mut a: usize = pos;
        while a < n && is_whitespace(v[a])
            invariant
                n == v.len(),
                pos <= a <= n,
                forall|j: int| pos <= j < a ==> is_space(#[trigger] v@[j]),
            decreases n - a,
        {
            a += 1;
        }
        let mut b: usize = a;
        while b < n && !is_whitespace(v[b])
            invariant
                n == v.len(),
                a <= b <= n,
                forall|j: int| a <= j < b ==> !is_space(#[trigger] v@[j]),
            decreases n - b,
        {
            b += 1;
        }
        let ghost t = s@.skip(a as int);
        proof {
            assert forall|j: int| 0 <= j < a - pos implies is_space(#[trigger] rest[j]) by {
                assert(rest[j] == v@[j + pos]);
            }
            lemma_trim_start_space(rest, a - pos);
            assert(rest.skip(a - pos) == t);
            assert forall|j: int| 0 <= j < b - a implies !is_space(#[trigger] t[j]) by {
                assert(t[j] == v@[j + a]);
            }
            lemma_word_len(t, b - a);
        }
        if a == b {
            proof {
                assert(words(rest) == Seq::<Seq<char>>::empty());
                assert(pieces.deep_view() + Seq::<Seq<char>>::empty() == pieces.deep_view());
            }
            break;
        }
        let piece = String::from_str(s.substring_char(a, b));
        let ghost before = pieces.deep_view();
        pieces.push(piece);
        proof {
            assert(t.take(b - a) == s@.subrange(a as int, b as int));
            assert(t.skip(b - a) == s@.skip(b as int));
            assert(pieces.deep_view() == before.push(piece@));
            assert(words(rest) == seq![piece@] + words(s@.skip(b as int)));
            assert(before + (seq![piece@] + words(s@.skip(b as int))) == before.push(piece@)
                + words(s@.skip(b as int)));
        }
        pos = b;
    }
    pieces
}

/// Reads a port number: an optional `+`, then decimal digits, at most 65535.
pub fn parse_u16(s: &str) -> (r: Option<u16>)
    ensures
        r == parse_u16_spec(s@),
{
    let v = to_chars(s);
    let n = v.len();
    let start: usize = if n > 0 && v[0] == '+' {
        1
    } else {
        0
    };
    let ghost digits = unsigned_digits(s@);
    proof {
        assert(digits == s@.skip(start as int));
    }
    if start == n {
        return None;
    }
    let mut acc: u32 = 0;
    let mut i: usize = start;
    while i < n
        invariant
            v@ == s@,
            n == v.len(),
            start <= i <= n,
            digits == s@.skip(start as int),
            digits == unsigned_digits(s@),
            all_digits(digits.take(i - start)),
            acc == decimal_value(digits.take(i - start)),
            acc <= 0xffff,
        decreases n - i,
    {
        let c = v[i];
        proof {
            assert(digits[i - start] == c);
            assert(digits.take(i - start + 1).drop_last() == digits.take(i - start));
            assert(digits.take(i - start + 1).last() == c);
        }
        if !('0' <= c && c <= '9') {
            proof {
                assert(!is_digit(digits[i - start]));
            }
            return None;
        }
        let d: u32 = c as u32 - '0' as u32;
        acc = acc * 10 + d;
        proof {
            assert forall|j: int| 0 <= j < i - start + 1 implies is_digit(
                #[trigger] digits.take(i - start + 1)[j],
            ) by {
                if j < i - start {
                    assert(digits.take(i - start + 1)[j] == digits.take(i - start)[j]);
                }
            }
            assert(decimal_value(digits.take(i - start + 1)) == acc);
        }
        if acc > 0xffff {
            proof {
                if all_digits(digits) {
                    lemma_decimal_value_grows(digits, i - start + 1);
                }
            }
            return None;
        }
        i += 1;
    }
    proof {
        assert(digits.take(n - start) == digits);
    }
    Some(acc as u16)
}

/// The text of one decimal digit.
fn digit_text(d: u64) -> (r: &'static str)
    requires
        d < 10,
    ensures
        r@ == seq![digit_char(d as nat)],
{
    proof {
        reveal_strlit("0");
        reveal_strlit("1");
        reveal_strlit("2");
        reveal_strlit("3");
        reveal_strlit("4");
        reveal_strlit("5");
        reveal_strlit("6");
        reveal_strlit("7");
        reveal_strlit("8");
        reveal_strlit("9");
    }
    let r = if d == 0 {
        "0"
    } else if d == 1 {
        "1"
    } else if d == 2 {
        "2"
    } else if d == 3 {
        "3"
    } else if d == 4 {
        "4"
    } else if d == 5 {
        "5"
    } else if d == 6 {
        "6"
    } else if d == 7 {
        "7"
    } else if d == 8 {
        "8"
    } else {
        "9"
    };
    assert(r@ =~= seq![digit_char(d as nat)]);
    r
}

/// `n` in decimal, without sign or leading zeros.
pub fn decimal_string(n: u64) -> (r: String)
    ensures
        r@ == decimal_text(n as nat),
    decreases n,
{
    if n < 10 {
        String::from_str(digit_text(n))
    } else {
        let mut r = decimal_string(n / 10);
        r.append(digit_text(n % 10));
        proof {
            assert(decimal_text((n / 10) as nat) + seq![digit_char((n % 10) as nat)]
                == decimal_text((n / 10) as nat).push(digit_char((n % 10) as nat)));
        }
        r
    }
}

/// Whether two strings hold the same characters.
pub fn equal(a: &str, b: &str) -> (r: bool)
    ensures
        r == (a@ == b@),
{
    String::from_str(a) == String::from_str(b)
}

/// Whether `s` holds no character.
pub fn is_empty(s: &str) -> (r: bool)
    ensures
        r == (s@.len() == 0),
{
    s.unicode_len() == 0
}

} // verus!
