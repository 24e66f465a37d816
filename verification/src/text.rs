//! Character classes and string scanning on the character view of `str`.
//!
//! Every function here is specified over `Seq<char>`, the view that vstd
//! gives to `str` and `String`.  The character classes follow the Unicode
//! definitions that Rust's `char::is_whitespace` and `char::is_control` use.

use vstd::prelude::*;

verus! {

// ---------------------------------------------------------------------------
// Character classes
// ---------------------------------------------------------------------------

/// The Unicode `White_Space` property (the set `char::is_whitespace` tests).
pub open spec fn is_white_space(c: char) -> bool {
    let u = c as u32;
    ||| 0x09 <= u <= 0x0D
    ||| u == 0x20
    ||| u == 0x85
    ||| u == 0xA0
    ||| u == 0x1680
    ||| 0x2000 <= u <= 0x200A
    ||| u == 0x2028
    ||| u == 0x2029
    ||| u == 0x202F
    ||| u == 0x205F
    ||| u == 0x3000
}

/// The Unicode general category `Cc` (the set `char::is_control` tests).
pub open spec fn is_control_char(c: char) -> bool {
    let u = c as u32;
    u <= 0x1F || (0x7F <= u <= 0x9F)
}

/// ASCII decimal digit.
pub open spec fn is_ascii_digit(c: char) -> bool {
    '0' <= c <= '9'
}

pub fn char_is_white_space(c: char) -> (r: bool)
    ensures
        r == is_white_space(c),
{
    let u = c as u32;
    (0x09 <= u && u <= 0x0D) || u == 0x20 || u == 0x85 || u == 0xA0 || u == 0x1680 || (0x2000
        <= u && u <= 0x200A) || u == 0x2028 || u == 0x2029 || u == 0x202F || u == 0x205F || u
        == 0x3000
}

pub fn char_is_control(c: char) -> (r: bool)
    ensures
        r == is_control_char(c),
{
    let u = c as u32;
    u <= 0x1F || (0x7F <= u && u <= 0x9F)
}

// ---------------------------------------------------------------------------
// Whole-sequence predicates
// ---------------------------------------------------------------------------

/// `c` occurs somewhere in `s`.
pub open spec fn has_char(s: Seq<char>, c: char) -> bool {
    exists|i: int| 0 <= i < s.len() && s[i] == c
}

/// `pat` occurs in `s` starting at position `i`.
pub open spec fn occurs_at(s: Seq<char>, pat: Seq<char>, i: int) -> bool {
    0 <= i && i + pat.len() <= s.len() && s.subrange(i, i + pat.len()) == pat
}

/// `pat` is a substring of `s` (what `str::contains` with a `&str` pattern tests).
pub open spec fn contains_seq(s: Seq<char>, pat: Seq<char>) -> bool {
    exists|i: int| occurs_at(s, pat, i)
}

/// `p` is a prefix of `s`.
pub open spec fn starts_with_seq(s: Seq<char>, p: Seq<char>) -> bool {
    p.len() <= s.len() && s.subrange(0, p.len() as int) == p
}

pub fn to_chars(s: &str) -> (v: Vec<char>)
    ensures
        v@ == s@,
{
    let mut v: Vec<char> = Vec::new();
    for c in it: s.chars()
        invariant
            v@ == it.seq().take(it.index() as int),
            it.seq() == s@,
    {
        v.push(c);
    }
    v
}

/// Whether `pat` occurs in `hay` at position `i` (both given as characters).
fn chars_occur_at(hay: &Vec<char>, pat: &Vec<char>, i: usize) -> (r: bool)
    requires
        i + pat.len() <= hay.len(),
    ensures
        r == occurs_at(hay@, pat@, i as int),
{
    let mut j: usize = 0;
    while j < pat.len()
        invariant
            j <= pat.len(),
            i + pat.len() <= hay.len(),
            forall|k: int| 0 <= k < j ==> hay@[i + k] == pat@[k],
        decreases pat.len() - j,
    {
        if hay[i + j] != pat[j] {
            assert(hay@.subrange(i as int, i + pat.len())[j as int] != pat@[j as int]);
            return false;
        }
        j = j + 1;
    }
    assert(hay@.subrange(i as int, i + pat.len()) =~= pat@);
    true
}

/// Substring search over character vectors.
pub fn chars_contain(hay: &Vec<char>, pat: &Vec<char>) -> (r: bool)
    ensures
        r == contains_seq(hay@, pat@),
{
    if pat.len() > hay.len() {
        return false;
    }
    let last = hay.len() - pat.len();
    let mut i: usize = 0;
    loop
        invariant
            last == hay.len() - pat.len(),
            pat.len() <= hay.len(),
            i <= last,
            forall|k: int| 0 <= k < i ==> !occurs_at(hay@, pat@, k),
        decreases last - i,
    {
        if chars_occur_at(hay, pat, i) {
            return true;
        }
        if i == last {
            return false;
        }
        i = i + 1;
    }
}

/// `str::contains` with a string pattern.
pub fn str_contains(hay: &str, pat: &str) -> (r: bool)
    ensures
        r == contains_seq(hay@, pat@),
{
    let h = to_chars(hay);
    let p = to_chars(pat);
    chars_contain(&h, &p)
}

/// Whether the character vector contains `c`.
pub fn chars_have(s: &Vec<char>, c: char) -> (r: bool)
    ensures
        r == has_char(s@, c),
{
    let mut i: usize = 0;
    while i < s.len()
        invariant
            i <= s.len(),
            forall|k: int| 0 <= k < i ==> s@[k] != c,
        decreases s.len() - i,
    {
        if s[i] == c {
            return true;
        }
        i = i + 1;
    }
    false
}

/// `str::starts_with` with a string pattern.
pub fn str_starts_with(s: &str, p: &str) -> (r: bool)
    ensures
        r == starts_with_seq(s@, p@),
{
    let sv = to_chars(s);
    let pv = to_chars(p);
    if pv.len() > sv.len() {
        return false;
    }
    let mut i: usize = 0;
    while i < pv.len()
        invariant
            sv@ == s@,
            pv@ == p@,
            pv.len() <= sv.len(),
            i <= pv.len(),
            forall|k: int| 0 <= k < i ==> sv@[k] == pv@[k],
        decreases pv.len() - i,
    {
        if sv[i] != pv[i] {
            assert(sv@.subrange(0, pv.len() as int)[i as int] != pv@[i as int]);
            assert(sv@.subrange(0, pv.len() as int) != pv@);
            return false;
        }
        i = i + 1;
    }
    assert(sv@.subrange(0, pv.len() as int) =~= pv@);
    true
}

// ---------------------------------------------------------------------------
// Trimming
// ---------------------------------------------------------------------------

/// `s` with trailing white space removed (`str::trim_end`).
pub open spec fn trim_end_seq(s: Seq<char>) -> Seq<char>
    decreases s.len(),
{
    if s.len() > 0 && is_white_space(s.last()) {
        trim_end_seq(s.drop_last())
    } else {
        s
    }
}

/// `s` with leading white space removed (`str::trim_start`).
pub open spec fn trim_start_seq(s: Seq<char>) -> Seq<char>
    decreases s.len(),
{
    if s.len() > 0 && is_white_space(s[0]) {
        trim_start_seq(s.drop_first())
    } else {
        s
    }
}

/// `s` with white space removed at both ends (`str::trim`).
pub open spec fn trim_seq(s: Seq<char>) -> Seq<char> {
    trim_start_seq(trim_end_seq(s))
}

/// `s` with every trailing `c` removed (`str::trim_end_matches` with a char).
pub open spec fn trim_end_char_seq(s: Seq<char>, c: char) -> Seq<char>
    decreases s.len(),
{
    if s.len() > 0 && s.last() == c {
        trim_end_char_seq(s.drop_last(), c)
    } else {
        s
    }
}

/// End index of `trim_end_seq(s)`: trimming keeps a prefix.
fn trim_end_index(s: &Vec<char>) -> (e: usize)
    ensures
        e <= s.len(),
        trim_end_seq(s@) == s@.subrange(0, e as int),
{
    let mut e = s.len();
    assert(s@.subrange(0, e as int) =~= s@);
    while e > 0 && char_is_white_space(s[e - 1])
        invariant
            e <= s.len(),
            trim_end_seq(s@) == trim_end_seq(s@.subrange(0, e as int)),
        decreases e,
    {
        assert(s@.subrange(0, e as int).drop_last() =~= s@.subrange(0, e - 1));
        e = e - 1;
    }
    e
}

/// Start index of `trim_start_seq(s[..e])`.
fn trim_start_index(s: &Vec<char>, e: usize) -> (b: usize)
    requires
        e <= s.len(),
    ensures
        b <= e,
        trim_start_seq(s@.subrange(0, e as int)) == s@.subrange(b as int, e as int),
{
    let mut b: usize = 0;
    assert(s@.subrange(0, e as int) =~= s@.subrange(b as int, e as int));
    while b < e && char_is_white_space(s[b])
        invariant
            b <= e,
            e <= s.len(),
            trim_start_seq(s@.subrange(0, e as int)) == trim_start_seq(
                s@.subrange(b as int, e as int),
            ),
        decreases e - b,
    {
        assert(s@.subrange(b as int, e as int).drop_first() =~= s@.subrange(b + 1, e as int));
        b = b + 1;
    }
    b
}

/// `str::trim`, as an owned string.
pub fn trim(s: &str) -> (r: String)
    ensures
        r@ == trim_seq(s@),
{
    let v = to_chars(s);
    let e = trim_end_index(&v);
    let b = trim_start_index(&v, e);
    s.substring_char(b, e).to_owned()
}

/// `str::trim_end`, as an owned string.
pub fn trim_end(s: &str) -> (r: String)
    ensures
        r@ == trim_end_seq(s@),
{
    let v = to_chars(s);
    let e = trim_end_index(&v);
    s.substring_char(0, e).to_owned()
}

/// `str::trim_end_matches` with a single character.
pub fn trim_end_char(s: &str, c: char) -> (r: String)
    ensures
        r@ == trim_end_char_seq(s@, c),
{
    let v = to_chars(s);
    let mut e = v.len();
    assert(v@.subrange(0, e as int) =~= v@);
    while e > 0 && v[e - 1] == c
        invariant
            e <= v.len(),
            trim_end_char_seq(v@, c) == trim_end_char_seq(v@.subrange(0, e as int), c),
        decreases e,
    {
        assert(v@.subrange(0, e as int).drop_last() =~= v@.subrange(0, e - 1));
        e = e - 1;
    }
    s.substring_char(0, e).to_owned()
}

// ---------------------------------------------------------------------------
// Splitting
// ---------------------------------------------------------------------------

/// Index of the first occurrence of `c` in `s`, if any.
pub open spec fn first_index_of(s: Seq<char>, c: char) -> Option<int> {
    if has_char(s, c) {
        Some(choose|i: int| 0 <= i < s.len() && s[i] == c && forall|k: int| 0 <= k < i ==> s[k] != c)
    } else {
        None
    }
}

/// Index of the last occurrence of `c` in `s`, if any.
pub open spec fn last_index_of(s: Seq<char>, c: char) -> Option<int>
    decreases s.len(),
{
    if s.len() == 0 {
        None
    } else if s.last() == c {
        Some(s.len() - 1)
    } else {
        last_index_of(s.drop_last(), c)
    }
}

/// Position of the first `c` in the character vector.
pub fn chars_find(s: &Vec<char>, c: char) -> (r: Option<usize>)
    ensures
        match r {
            Some(i) => i < s.len() && s@[i as int] == c && forall|k: int| 0 <= k < i ==> s@[k] != c,
            None => !has_char(s@, c),
        },
{
    let mut i: usize = 0;
    while i < s.len()
        invariant
            i <= s.len(),
            forall|k: int| 0 <= k < i ==> s@[k] != c,
        decreases s.len() - i,
    {
        if s[i] == c {
            return Some(i);
        }
        i = i + 1;
    }
    None
}

pub proof fn lemma_first_index_of(s: Seq<char>, c: char, i: int)
    requires
        0 <= i < s.len(),
        s[i] == c,
        forall|k: int| 0 <= k < i ==> s[k] != c,
    ensures
        first_index_of(s, c) == Some(i),
{
    let j = choose|j: int| 0 <= j < s.len() && s[j] == c && forall|k: int| 0 <= k < j ==> s[k] != c;
    assert(has_char(s, c));
    if j < i {
        assert(s[j] != c);
    } else if j > i {
        assert(s[i] != c);
    }
}

pub proof fn lemma_last_index_of_range(s: Seq<char>, c: char)
    ensures
        last_index_of(s, c) matches Some(i) ==> 0 <= i < s.len() && s[i] == c,
    decreases s.len(),
{
    if s.len() > 0 && s.last() != c {
        lemma_last_index_of_range(s.drop_last(), c);
    }
}

/// Position of the last `c` in the character vector.
pub fn chars_rfind(s: &Vec<char>, c: char) -> (r: Option<usize>)
    ensures
        match last_index_of(s@, c) {
            Some(i) => r == Some(i as usize) && 0 <= i < s.len(),
            None => r is None,
        },
{
    proof {
        lemma_last_index_of_range(s@, c);
    }
    let mut e = s.len();
    assert(s@.subrange(0, e as int) =~= s@);
    while e > 0
        invariant
            e <= s.len(),
            last_index_of(s@, c) == last_index_of(s@.subrange(0, e as int), c),
        decreases e,
    {
        if s[e - 1] == c {
            return Some(e - 1);
        }
        assert(s@.subrange(0, e as int).drop_last() =~= s@.subrange(0, e - 1));
        e = e - 1;
    }
    None
}

/// Length of the longest prefix of `s` without white space.
pub open spec fn word_len(s: Seq<char>) -> nat
    decreases s.len(),
{
    if s.len() == 0 || is_white_space(s[0]) {
        0
    } else {
        1 + word_len(s.drop_first())
    }
}

/// The white-space separated words of `s` (what `str::split_whitespace` yields).
pub open spec fn words(s: Seq<char>) -> Seq<Seq<char>>
    decreases s.len(),
{
    if s.len() == 0 {
        seq![]
    } else if is_white_space(s[0]) {
        words(s.drop_first())
    } else {
        let n = word_len(s);
        if 0 < n <= s.len() {
            seq![s.take(n as int)] + words(s.skip(n as int))
        } else {
            seq![]
        }
    }
}

proof fn lemma_word_len_bound(s: Seq<char>)
    ensures
        word_len(s) <= s.len(),
        s.len() > 0 && !is_white_space(s[0]) ==> word_len(s) > 0,
    decreases s.len(),
{
    if s.len() > 0 && !is_white_space(s[0]) {
        lemma_word_len_bound(s.drop_first());
    }
}

proof fn lemma_word_len_step(s: Seq<char>, k: int)
    requires
        0 <= k < s.len(),
        forall|j: int| 0 <= j <= k ==> !is_white_space(s[j]),
    ensures
        word_len(s) == 1 + k + word_len(s.skip(k + 1)),
    decreases k,
{
    if k > 0 {
        lemma_word_len_step(s.drop_first(), k - 1);
        assert(s.drop_first().skip(k) =~= s.skip(k + 1));
    } else {
        assert(s.drop_first() =~= s.skip(1));
    }
}

/// End of the word that starts at `b`.
fn word_end(v: &Vec<char>, b: usize) -> (e: usize)
    requires
        b < v.len(),
        !is_white_space(v@[b as int]),
    ensures
        b < e <= v.len(),
        e - b == word_len(v@.skip(b as int)),
{
    let mut e = b + 1;
    proof {
        assert(v@.skip(b as int)[0] == v@[b as int]);
        lemma_word_len_step(v@.skip(b as int), 0);
        assert(v@.skip(b as int).skip(1) =~= v@.skip(b + 1));
    }
    while e < v.len() && !char_is_white_space(v[e])
        invariant
            b < e <= v.len(),
            forall|j: int| b <= j < e ==> !is_white_space(v@[j]),
            word_len(v@.skip(b as int)) == (e - b) + word_len(v@.skip(e as int)),
        decreases v.len() - e,
    {
        proof {
            assert(v@.skip(e as int)[0] == v@[e as int]);
            lemma_word_len_step(v@.skip(e as int), 0);
            assert(v@.skip(e as int).skip(1) =~= v@.skip(e + 1));
        }
        e = e + 1;
    }
    proof {
        if e < v.len() {
            assert(v@.skip(e as int)[0] == v@[e as int]);
        }
    }
    e
}

/// `str::split_whitespace`, collected into owned strings.
pub fn split_whitespace(s: &str) -> (r: Vec<String>)
    ensures
        r@.len() == words(s@).len(),
        forall|i: int| 0 <= i < r@.len() ==> #[trigger] r@[i]@ == words(s@)[i],
{
    let v = to_chars(s);
    let mut out: Vec<String> = Vec::new();
    let mut i: usize = 0;
    let ghost done: Seq<Seq<char>> = seq![];
    assert(v@.skip(0) =~= v@);
    while i < v.len()
        invariant
            i <= v.len(),
            v@ == s@,
            out@.len() == done.len(),
            forall|k: int| 0 <= k < out@.len() ==> #[trigger] out@[k]@ == done[k],
            words(v@) == done + words(v@.skip(i as int)),
        decreases v.len() - i,
    {
        let ghost rest = v@.skip(i as int);
        assert(rest[0] == v@[i as int]);
        if char_is_white_space(v[i]) {
            assert(rest.drop_first() =~= v@.skip(i + 1));
            i = i + 1;
        } else {
            let e = word_end(&v, i);
            proof {
                lemma_word_len_bound(rest);
                assert(rest.take((e - i) as int) =~= v@.subrange(i as int, e as int));
                assert(rest.skip((e - i) as int) =~= v@.skip(e as int));
            }
            let w = s.substring_char(i, e).to_owned();
            out.push(w);
            proof {
                assert(done.push(v@.subrange(i as int, e as int)) + words(v@.skip(e as int))
                    =~= done + (seq![v@.subrange(i as int, e as int)] + words(v@.skip(e as int))));
                done = done.push(v@.subrange(i as int, e as int));
            }
            i = e;
        }
    }
    assert(v@.skip(i as int) =~= Seq::<char>::empty());
    assert(done + words(Seq::<char>::empty()) =~= done);
    out
}

// ---------------------------------------------------------------------------
// Numbers
// ---------------------------------------------------------------------------

/// The number that a sequence of ASCII digits denotes.
pub open spec fn digits_value(s: Seq<char>) -> nat
    decreases s.len(),
{
    if s.len() == 0 {
        0
    } else {
        digits_value(s.drop_last()) * 10 + ((s.last() as u32) - ('0' as u32)) as nat
    }
}

pub open spec fn all_ascii_digits(s: Seq<char>) -> bool {
    forall|i: int| 0 <= i < s.len() ==> is_ascii_digit(s[i])
}

/// What `s.parse::<u16>()` yields: an optional `+`, then one or more ASCII
/// digits whose value fits in 16 bits.
pub open spec fn parse_u16_spec(s: Seq<char>) -> Option<u16> {
    let d = if s.len() > 0 && s[0] == '+' {
        s.drop_first()
    } else {
        s
    };
    if d.len() > 0 && all_ascii_digits(d) && digits_value(d) <= 65535 {
        Some(digits_value(d) as u16)
    } else {
        None
    }
}

proof fn lemma_digits_value_monotone(s: Seq<char>, k: int)
    requires
        0 <= k <= s.len(),
        all_ascii_digits(s),
    ensures
        digits_value(s.take(k)) <= digits_value(s),
    decreases s.len() - k,
{
    if k < s.len() {
        lemma_digits_value_monotone(s, k + 1);
        assert(s.take(k + 1).drop_last() =~= s.take(k));
        assert(s.take(k + 1).last() == s[k]);
    } else {
        assert(s.take(k) =~= s);
    }
}

/// `s.parse::<u16>().ok()`.
pub fn parse_u16(s: &str) -> (r: Option<u16>)
    ensures
        r == parse_u16_spec(s@),
{
    let v = to_chars(s);
    let start: usize = if v.len() > 0 && v[0] == '+' {
        1
    } else {
        0
    };
    let ghost d = v@.skip(start as int);
    proof {
        if start == 1 {
            assert(v@.drop_first() =~= d);
        } else {
            assert(v@ =~= d);
        }
    }
    if start >= v.len() {
        return None;
    }
    let mut acc: u32 = 0;
    let mut i = start;
    assert(d.take(0) =~= Seq::<char>::empty());
    while i < v.len()
        invariant
            v@ == s@,
            start == 0 || start == 1,
            start == 1 <==> (v@.len() > 0 && v@[0] == '+'),
            d == (if v@.len() > 0 && v@[0] == '+' {
                v@.drop_first()
            } else {
                v@
            }),
            start <= i <= v.len(),
            d == v@.skip(start as int),
            d.len() == v.len() - start,
            acc as nat == digits_value(d.take(i - start)),
            acc <= 65535,
            forall|k: int| 0 <= k < i - start ==> is_ascii_digit(d[k]),
        decreases v.len() - i,
    {
        let c = v[i];
        if !('0' <= c && c <= '9') {
            assert(d[i - start] == c);
            assert(!is_ascii_digit(d[i - start]));
            assert(!all_ascii_digits(d));
            return None;
        }
        let dv = (c as u32) - ('0' as u32);
        proof {
            assert(d.take(i - start + 1).drop_last() =~= d.take(i - start));
            assert(d.take(i - start + 1).last() == c);
            assert(digits_value(d.take(i - start + 1)) == acc * 10 + dv);
        }
        if acc > 6553 || (acc == 6553 && dv > 5) {
            proof {
                // the value of the whole digit run is at least this prefix's
                assert(acc * 10 + dv > 65535);
                if all_ascii_digits(d) {
                    lemma_digits_value_monotone(d, i - start + 1);
                    assert(digits_value(d) > 65535);
                }
            }
            return None;
        }
        acc = acc * 10 + dv;
        i = i + 1;
    }
    assert(d.take(i - start) =~= d);
    Some(acc as u16)
}

/// The decimal digit character for `d < 10`.
pub open spec fn digit_char(d: nat) -> char {
    (('0' as u32) + d) as char
}

/// Decimal rendering of `n` (what `n.to_string()` gives for an unsigned integer).
pub open spec fn decimal_seq(n: nat) -> Seq<char>
    decreases n,
{
    if n < 10 {
        seq![digit_char(n)]
    } else {
        decimal_seq(n / 10).push(digit_char(n % 10))
    }
}

/// Append the decimal rendering of `n` to `out`.
pub fn push_decimal(out: &mut String, n: u64)
    ensures
        final(out)@ == old(out)@ + decimal_seq(n as nat),
    decreases n,
{
    if n >= 10 {
        push_decimal(out, n / 10);
    }
    let d: usize = (n % 10) as usize;
    let digits = "0123456789";
    proof {
        reveal_strlit("0123456789");
    }
    let piece = digits.substring_char(d, d + 1);
    out.append(piece);
    proof {
        assert(piece@ =~= seq![digit_char(d as nat)]) by {
            assert(piece@[0] == digits@[d as int]);
        }
        if n >= 10 {
            assert(decimal_seq(n as nat) == decimal_seq((n / 10) as nat).push(
                digit_char((n % 10) as nat),
            ));
        }
    }
}

/// The decimal text of `n` is a non-empty run of ASCII digits that denotes
/// `n`.
pub proof fn lemma_decimal_digits(n: nat)
    ensures
        decimal_seq(n).len() > 0,
        forall|i: int| 0 <= i < decimal_seq(n).len() ==> '0' <= #[trigger] decimal_seq(n)[i] <= '9',
        digits_value(decimal_seq(n)) == n,
    decreases n,
{
    let k = n % 10;
    assert(digit_char(k) as u32 == 48 + k);
    if n < 10 {
        assert(decimal_seq(n).last() == digit_char(n));
        assert(decimal_seq(n).drop_last() =~= Seq::<char>::empty());
        assert(digits_value(decimal_seq(n)) == digits_value(Seq::<char>::empty()) * 10 + ((
        decimal_seq(n).last() as u32) - ('0' as u32)) as nat);
        assert(n % 10 == n);
    }
    if n >= 10 {
        lemma_decimal_digits(n / 10);
        let d = decimal_seq(n / 10);
        assert(decimal_seq(n) == d.push(digit_char(n % 10)));
        assert(decimal_seq(n).drop_last() =~= d);
        assert(decimal_seq(n).last() == digit_char(k));
        assert(digits_value(decimal_seq(n)) == digits_value(d) * 10 + ((decimal_seq(n).last() as u32) - ('0' as u32)) as nat);
        assert(digits_value(decimal_seq(n)) == (n / 10) * 10 + k);
        assert(n == (n / 10) * 10 + n % 10) by (nonlinear_arith);
        assert(digits_value(decimal_seq(n)) == n);
        assert forall|i: int| 0 <= i < decimal_seq(n).len() implies '0' <= #[trigger] decimal_seq(n)[i]
            <= '9' by {
            if i < d.len() {
                assert(decimal_seq(n)[i] == d[i]);
            }
        }
    }
}

/// Reading the decimal text of any 16-bit number gives that number back:
/// `n.to_string().parse::<u16>() == Ok(n)`.
pub proof fn lemma_parse_u16_of_decimal(n: u16)
    ensures
        parse_u16_spec(decimal_seq(n as nat)) == Some(n),
{
    lemma_decimal_digits(n as nat);
}

} // verus!
