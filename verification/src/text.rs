use vstd::prelude::*;

verus! {

/// Whether `c` has the Unicode `White_Space` property, the set that
/// `char::is_whitespace` and `str::trim` use.
pub open spec fn is_ws(c: char) -> bool {
    ||| ('\u{9}' <= c && c <= '\u{d}')
    ||| c == ' '
    ||| c == '\u{85}'
    ||| c == '\u{a0}'
    ||| c == '\u{1680}'
    ||| ('\u{2000}' <= c && c <= '\u{200a}')
    ||| c == '\u{2028}'
    ||| c == '\u{2029}'
    ||| c == '\u{202f}'
    ||| c == '\u{205f}'
    ||| c == '\u{3000}'
}

/// Tests the `White_Space` property of a character.
pub fn char_is_whitespace(c: char) -> (b: bool)
    ensures
        b == is_ws(c),
{
    ('\u{9}' <= c && c <= '\u{d}') || c == ' ' || c == '\u{85}' || c == '\u{a0}'
        || c == '\u{1680}' || ('\u{2000}' <= c && c <= '\u{200a}') || c == '\u{2028}'
        || c == '\u{2029}' || c == '\u{202f}' || c == '\u{205f}' || c == '\u{3000}'
}


/// The characters of `s`, in order.
pub fn chars_of(s: &str) -> (v: Vec<char>)
    ensures
        v@ == s@,
{
    let mut v: Vec<char> = Vec::new();
    for c in it: s.chars()
        invariant
            v@ == it.seq().take(it.index() as int),
    {
        v.push(c);
    }
    proof {
        broadcast use vstd::string::group_string_axioms;
    }
    v
}

/// `String::push`: appends `c` at the end of `s`.
#[verifier::external_body]
pub(crate) fn push_char(s: &mut String, c: char)
    ensures
        final(s)@ == old(s)@.push(c),
{
    s.push(c);
}

/// The string made of `cs`, in order.
pub fn string_of(cs: &[char]) -> (s: String)
    ensures
        s@ == cs@,
{
    let mut s = String::new();
    for i in 0..cs.len()
        invariant
            s@ == cs@.take(i as int),
    {
        push_char(&mut s, cs[i]);
        assert(cs@.take(i + 1) == cs@.take(i as int).push(cs@[i as int]));
    }
    assert(cs@.take(cs.len() as int) == cs@);
    s
}


/// `s` with its leading `White_Space` characters removed.
pub open spec fn trim_start_spec(s: Seq<char>) -> Seq<char>
    decreases s.len(),
{
    if s.len() > 0 && is_ws(s[0]) {
        trim_start_spec(s.drop_first())
    } else {
        s
    }
}

/// `s` with its trailing `White_Space` characters removed.
pub open spec fn trim_end_spec(s: Seq<char>) -> Seq<char>
    decreases s.len(),
{
    if s.len() > 0 && is_ws(s.last()) {
        trim_end_spec(s.drop_last())
    } else {
        s
    }
}

/// `s` with leading and trailing `White_Space` removed, as `str::trim` does.
pub open spec fn trim_spec(s: Seq<char>) -> Seq<char> {
    trim_end_spec(trim_start_spec(s))
}

/// Removes leading and trailing whitespace.
pub fn trim_chars(s: &[char]) -> (r: Vec<char>)
    ensures
        r@ == trim_spec(s@),
{
    let n = s.len();
    let mut lo: usize = 0;
    assert(s@.subrange(0, n as int) == s@);
    while lo < n && char_is_whitespace(s[lo])
        invariant
            lo <= n,
            n == s@.len(),
            trim_start_spec(s@) == trim_start_spec(s@.subrange(lo as int, n as int)),
        decreases n - lo,
    {
        assert(s@.subrange(lo as int, n as int).drop_first() == s@.subrange(lo + 1, n as int));
        lo = lo + 1;
    }
    let ghost t = s@.subrange(lo as int, n as int);
    assert(trim_start_spec(t) == t);
    let mut hi: usize = n;
    while hi > lo && char_is_whitespace(s[hi - 1])
        invariant
            lo <= hi <= n,
            n == s@.len(),
            t == s@.subrange(lo as int, n as int),
            trim_end_spec(t) == trim_end_spec(s@.subrange(lo as int, hi as int)),
        decreases hi - lo,
    {
        assert(s@.subrange(lo as int, hi as int).drop_last() == s@.subrange(lo as int, hi - 1));
        hi = hi - 1;
    }
    let mut r: Vec<char> = Vec::new();
    let mut k: usize = lo;
    while k < hi
        invariant
            lo <= k <= hi <= n,
            n == s@.len(),
            r@ == s@.subrange(lo as int, k as int),
        decreases hi - k,
    {
        r.push(s[k]);
        assert(s@.subrange(lo as int, k + 1) == s@.subrange(lo as int, k as int).push(s@[k as int]));
        k = k + 1;
    }
    r
}

/// `str::trim`: the string without leading and trailing whitespace.
pub fn trim(s: &str) -> (r: String)
    ensures
        r@ == trim_spec(s@),
{
    let cs = chars_of(s);
    let t = trim_chars(cs.as_slice());
    string_of(t.as_slice())
}

/// Whether `pat` occurs in `s` as a contiguous run of characters.
pub open spec fn contains_seq(s: Seq<char>, pat: Seq<char>) -> bool {
    exists|i: int| 0 <= i && i + pat.len() <= s.len() && #[trigger] s.subrange(i, i + pat.len()) == pat
}

/// Whether `pat` is a prefix of `s[at..]`.
fn matches_at(s: &[char], at: usize, pat: &[char]) -> (b: bool)
    requires
        at <= s@.len(),
    ensures
        b == (at + pat@.len() <= s@.len() && s@.subrange(at as int, at + pat@.len()) == pat@),
{
    if pat.len() > s.len() - at {
        return false;
    }
    let mut j: usize = 0;
    while j < pat.len()
        invariant
            j <= pat@.len(),
            s@.len() == s.len(),
            at + pat@.len() <= s@.len(),
            forall|k: int| 0 <= k < j ==> s@[at + k] == pat@[k],
        decreases pat@.len() - j,
    {
        if s[at + j] != pat[j] {
            assert(s@.subrange(at as int, at + pat@.len())[j as int] != pat@[j as int]);
            return false;
        }
        j = j + 1;
    }
    assert(s@.subrange(at as int, at + pat@.len()) =~= pat@);
    true
}

/// `str::contains` with a string pattern.
pub fn contains_chars(s: &[char], pat: &[char]) -> (b: bool)
    ensures
        b == contains_seq(s@, pat@),
{
    if pat.len() > s.len() {
        return false;
    }
    if pat.len() == 0 {
        assert(s@.subrange(0int, 0int + pat@.len()) =~= pat@);
        return true;
    }
    let last = s.len() - pat.len();
    let mut i: usize = 0;
    while i <= last
        invariant
            last == s@.len() - pat@.len(),
            s@.len() == s.len(),
            0 < pat@.len() <= s@.len(),
            forall|k: int| 0 <= k < i ==> #[trigger] s@.subrange(k, k + pat@.len()) != pat@,
        decreases last + 1 - i,
    {
        if matches_at(s, i, pat) {
            return true;
        }
        i = i + 1;
    }
    false
}

/// `str::contains` with a string pattern.
pub fn contains_str(s: &str, pat: &str) -> (b: bool)
    ensures
        b == contains_seq(s@, pat@),
{
    let cs = chars_of(s);
    let ps = chars_of(pat);
    contains_chars(cs.as_slice(), ps.as_slice())
}

/// `str::contains` with a character pattern.
pub fn contains_char(s: &str, c: char) -> (b: bool)
    ensures
        b == s@.contains(c),
{
    let cs = chars_of(s);
    let mut i: usize = 0;
    while i < cs.len()
        invariant
            cs@ == s@,
            forall|k: int| 0 <= k < i ==> cs@[k] != c,
        decreases cs@.len() - i,
    {
        if cs[i] == c {
            return true;
        }
        i = i + 1;
    }
    false
}

/// `str::starts_with` with a string pattern.
pub fn starts_with(s: &str, pat: &str) -> (b: bool)
    ensures
        b == pat@.is_prefix_of(s@),
{
    let cs = chars_of(s);
    let ps = chars_of(pat);
    matches_at(cs.as_slice(), 0, ps.as_slice())
}


/// `s` with every non-overlapping occurrence of `from`, found from the left,
/// replaced by `to`, as `str::replace` does for a non-empty pattern.
pub open spec fn replace_spec(s: Seq<char>, from: Seq<char>, to: Seq<char>) -> Seq<char>
    recommends
        from.len() > 0,
    decreases s.len(),
{
    if s.len() == 0 || from.len() == 0 {
        s
    } else if from.is_prefix_of(s) {
        to + replace_spec(s.skip(from.len() as int), from, to)
    } else {
        seq![s[0]] + replace_spec(s.drop_first(), from, to)
    }
}

/// `str::replace` for a non-empty pattern.
pub fn replace(s: &str, from: &str, to: &str) -> (r: String)
    requires
        from@.len() > 0,
    ensures
        r@ == replace_spec(s@, from@, to@),
{
    let cs = chars_of(s);
    let fs = chars_of(from);
    let ts = chars_of(to);
    let mut out: Vec<char> = Vec::new();
    let mut i: usize = 0;
    assert(cs@.skip(0) == cs@);
    while i < cs.len()
        invariant
            i <= cs@.len(),
            cs@ == s@,
            fs@ == from@,
            ts@ == to@,
            fs@.len() > 0,
            replace_spec(s@, from@, to@) == out@ + replace_spec(cs@.skip(i as int), from@, to@),
        decreases cs@.len() - i,
    {
        let ghost rest = cs@.skip(i as int);
        if matches_at(cs.as_slice(), i, fs.as_slice()) {
            assert(fs@ =~= rest.subrange(0, fs@.len() as int));
            assert(rest.skip(fs@.len() as int) =~= cs@.skip(i + fs@.len()));
            let mut k: usize = 0;
            let ghost before = out@;
            while k < ts.len()
                invariant
                    k <= ts@.len(),
                    out@ == before + ts@.take(k as int),
                decreases ts@.len() - k,
            {
                out.push(ts[k]);
                assert(ts@.take(k + 1) == ts@.take(k as int).push(ts@[k as int]));
                k = k + 1;
            }
            assert(ts@.take(ts@.len() as int) == ts@);
            assert(out@ + replace_spec(cs@.skip(i + fs@.len()), from@, to@)
                == before + (ts@ + replace_spec(cs@.skip(i + fs@.len()), from@, to@)));
            i = i + fs.len();
        } else {
            proof {
                if fs@.len() <= rest.len() {
                    assert(rest.subrange(0, fs@.len() as int) =~= cs@.subrange(i as int, i + fs@.len()));
                }
            }
            assert(!fs@.is_prefix_of(rest));
            assert(rest.drop_first() =~= cs@.skip(i + 1));
            let ghost before = out@;
            out.push(cs[i]);
            assert(before.push(cs@[i as int]) + replace_spec(cs@.skip(i + 1), from@, to@)
                == before + (seq![rest[0]] + replace_spec(cs@.skip(i + 1), from@, to@)));
            i = i + 1;
        }
    }
    assert(cs@.skip(i as int).len() == 0);
    assert(out@ + cs@.skip(i as int) == out@);
    string_of(out.as_slice())
}

/// The characters of `s` in reverse order, as `s.chars().rev().collect()` gives them.
pub fn reversed(s: &str) -> (r: String)
    ensures
        r@ == s@.reverse(),
{
    let cs = chars_of(s);
    let n = cs.len();
    let mut out: Vec<char> = Vec::new();
    let mut k: usize = 0;
    while k < n
        invariant
            k <= n,
            n == cs@.len(),
            cs@ == s@,
            out@.len() == k,
            forall|j: int| 0 <= j < k ==> out@[j] == cs@[n - 1 - j],
        decreases n - k,
    {
        out.push(cs[n - 1 - k]);
        k = k + 1;
    }
    assert(out@ =~= s@.reverse());
    string_of(out.as_slice())
}

/// The decimal character of a digit below ten.
pub open spec fn digit_char(d: nat) -> char {
    ((d + 48) as u8) as char
}

/// The decimal representation of `n`, without sign or leading zeros, as
/// `to_string` writes an unsigned integer.
pub open spec fn dec_spec(n: nat) -> Seq<char>
    decreases n,
{
    if n < 10 {
        seq![digit_char(n)]
    } else {
        dec_spec(n / 10).push(digit_char(n % 10))
    }
}

fn push_decimal(out: &mut Vec<char>, n: u32)
    ensures
        final(out)@ == old(out)@ + dec_spec(n as nat),
    decreases n,
{
    if n >= 10 {
        push_decimal(out, n / 10);
    }
    let d: u8 = (n % 10) as u8;
    out.push((d + 48u8) as char);
    proof {
        if n >= 10 {
            assert(old(out)@ + dec_spec(n as nat) == (old(out)@ + dec_spec((n / 10) as nat)).push(
                digit_char((n % 10) as nat),
            ));
        } else {
            assert(old(out)@ + dec_spec(n as nat) == old(out)@.push(digit_char(n as nat)));
        }
    }
}

/// `u32::to_string`: the decimal representation of `n`.
pub fn decimal(n: u32) -> (r: String)
    ensures
        r@ == dec_spec(n as nat),
{
    let mut out: Vec<char> = Vec::new();
    push_decimal(&mut out, n);
    assert(out@ == dec_spec(n as nat));
    string_of(out.as_slice())
}


/// Whether `c` is an ASCII decimal digit.
pub open spec fn is_digit(c: char) -> bool {
    '0' <= c && c <= '9'
}

/// The value of the digit character `c`.
pub open spec fn digit_value(c: char) -> nat {
    (c as int - 48) as nat
}

/// The value of a run of decimal digits, most significant first.
pub open spec fn digits_value(s: Seq<char>) -> nat
    decreases s.len(),
{
    if s.len() == 0 {
        0
    } else {
        digits_value(s.drop_last()) * 10 + digit_value(s.last())
    }
}

/// `s` without one leading `+`, if it has one.
pub open spec fn strip_plus(s: Seq<char>) -> Seq<char> {
    if s.len() > 0 && s[0] == '+' {
        s.drop_first()
    } else {
        s
    }
}

/// Whether every character of `s` is a decimal digit.
pub open spec fn all_digits(s: Seq<char>) -> bool {
    forall|i: int| 0 <= i < s.len() ==> is_digit(#[trigger] s[i])
}

/// What `str::parse::<u32>` gives: an optional `+`, then at least one decimal
/// digit and nothing else, of a value that fits in 32 bits.
pub open spec fn parse_u32_spec(s: Seq<char>) -> Option<u32> {
    let body = strip_plus(s);
    if body.len() > 0 && all_digits(body) && digits_value(body) <= u32::MAX {
        Some(digits_value(body) as u32)
    } else {
        None
    }
}

proof fn lemma_digits_value_grows(s: Seq<char>, k: int)
    requires
        0 <= k <= s.len(),
    ensures
        digits_value(s.take(k)) <= digits_value(s),
    decreases s.len() - k,
{
    if k < s.len() {
        lemma_digits_value_grows(s, k + 1);
        assert(s.take(k + 1).drop_last() =~= s.take(k));
    } else {
        assert(s.take(k) =~= s);
    }
}

/// `str::parse::<u32>`: the value of `s`, or `None` where `parse` fails.
pub fn parse_u32(s: &str) -> (r: Option<u32>)
    ensures
        r == parse_u32_spec(s@),
{
    let cs = chars_of(s);
    let start: usize = if cs.len() > 0 && cs[0] == '+' {
        1
    } else {
        0
    };
    let ghost body = strip_plus(s@);
    assert(body =~= cs@.skip(start as int));
    if start >= cs.len() {
        return None;
    }
    let mut acc: u64 = 0;
    let mut i: usize = start;
    while i < cs.len()
        invariant
            start <= i <= cs@.len(),
            cs@ == s@,
            body == cs@.skip(start as int),
            body == strip_plus(s@),
            acc == digits_value(body.take(i - start)),
            acc <= u32::MAX,
            forall|k: int| 0 <= k < i - start ==> is_digit(#[trigger] body[k]),
        decreases cs@.len() - i,
    {
        let c = cs[i];
        assert(body[i - start] == c);
        if !('0' <= c && c <= '9') {
            assert(!is_digit(body[i - start]));
            return None;
        }
        let d: u64 = (c as u32 - 48u32) as u64;
        assert(body.take(i + 1 - start).drop_last() =~= body.take(i - start));
        assert(body.take(i + 1 - start).last() == c);
        let next = acc * 10 + d;
        assert(digits_value(body.take(i + 1 - start)) == next);
        if next > 0xffff_ffffu64 {
            proof {
                lemma_digits_value_grows(body, i + 1 - start);
                assert(digits_value(body) > u32::MAX);
            }
            return None;
        }
        acc = next;
        i = i + 1;
    }
    assert(body.take(i - start) =~= body);
    Some(acc as u32)
}

/// The words of `s` that are not yet complete, given the word `cur` being read:
/// maximal runs of characters without `White_Space`, in order.
pub open spec fn words_from(s: Seq<char>, cur: Seq<char>) -> Seq<Seq<char>>
    decreases s.len(),
{
    if s.len() == 0 {
        if cur.len() > 0 {
            seq![cur]
        } else {
            seq![]
        }
    } else if is_ws(s[0]) {
        (if cur.len() > 0 {
            seq![cur]
        } else {
            seq![]
        }) + words_from(s.drop_first(), seq![])
    } else {
        words_from(s.drop_first(), cur.push(s[0]))
    }
}

/// The words of `s`, as `str::split_whitespace` yields them.
pub open spec fn words(s: Seq<char>) -> Seq<Seq<char>> {
    words_from(s, seq![])
}

/// `str::split_whitespace`: the words of `s`, in order.
pub fn split_words(s: &str) -> (r: Vec<String>)
    ensures
        r@.len() == words(s@).len(),
        forall|i: int| 0 <= i < r@.len() ==> #[trigger] r@[i]@ == words(s@)[i],
{
    let cs = chars_of(s);
    let mut out: Vec<String> = Vec::new();
    let ghost done: Seq<Seq<char>> = seq![];
    let mut cur: Vec<char> = Vec::new();
    let mut i: usize = 0;
    assert(cs@.skip(0) == cs@);
    while i < cs.len()
        invariant
            i <= cs@.len(),
            cs@ == s@,
            out@.len() == done.len(),
            forall|k: int| 0 <= k < out@.len() ==> #[trigger] out@[k]@ == done[k],
            words(s@) == done + words_from(cs@.skip(i as int), cur@),
        decreases cs@.len() - i,
    {
        let c = cs[i];
        assert(cs@.skip(i as int).drop_first() =~= cs@.skip(i + 1));
        if char_is_whitespace(c) {
            if cur.len() > 0 {
                let w = string_of(cur.as_slice());
                out.push(w);
                proof {
                    assert(done.push(cur@) + words_from(cs@.skip(i + 1), seq![])
                        =~= done + (seq![cur@] + words_from(cs@.skip(i + 1), seq![])));
                    done = done.push(cur@);
                }
                cur = Vec::new();
            } else {
                assert(done + words_from(cs@.skip(i + 1), seq![])
                    =~= done + (Seq::<Seq<char>>::empty() + words_from(cs@.skip(i + 1), seq![])));
            }
            assert(cur@ =~= Seq::<char>::empty());
        } else {
            cur.push(c);
        }
        i = i + 1;
    }
    if cur.len() > 0 {
        let w = string_of(cur.as_slice());
        out.push(w);
        proof {
            done = done.push(cur@);
        }
    } else {
        assert(done + Seq::<Seq<char>>::empty() =~= done);
    }
    assert(words(s@) == done);
    out
}

/// The result of `str::to_uppercase` on `s`: the Unicode uppercase mapping.
pub uninterp spec fn uppercase_spec(s: Seq<char>) -> Seq<char>;

/// `str::to_uppercase`: the uppercase mapping of `s`. Its contract names the
/// result and says nothing of the mapping itself.
#[verifier::external_body]
pub(crate) fn to_uppercase(s: &str) -> (r: String)
    ensures
        r@ == uppercase_spec(s@),
{
    s.to_uppercase()
}

/// `String::pop`: removes and returns the last character of `s`, if any.
#[verifier::external_body]
pub(crate) fn pop_char(s: &mut String) -> (r: Option<char>)
    ensures
        old(s)@.len() == 0 ==> r is None && final(s)@ == old(s)@,
        old(s)@.len() > 0 ==> r == Some(old(s)@.last()) && final(s)@ == old(s)@.drop_last(),
{
    s.pop()
}


proof fn lemma_digit_char(d: nat)
    requires
        d < 10,
    ensures
        is_digit(digit_char(d)),
        digit_value(digit_char(d)) == d,
        !is_ws(digit_char(d)),
{
    assert(((d + 48) as u8) as char as int == d + 48);
}

/// Decimal text reads back as the number it writes: it is made of digits
/// only, does not start with `+`, and its digits' value is the number.
pub proof fn lemma_decimal_digits(n: nat)
    ensures
        dec_spec(n).len() > 0,
        all_digits(dec_spec(n)),
        digits_value(dec_spec(n)) == n,
        dec_spec(n)[0] != '+',
        forall|i: int| 0 <= i < dec_spec(n).len() ==> !is_ws(#[trigger] dec_spec(n)[i]),
    decreases n,
{
    if n < 10 {
        lemma_digit_char(n);
        assert(dec_spec(n).drop_last() =~= Seq::<char>::empty());
        assert(digits_value(dec_spec(n)) == digits_value(Seq::<char>::empty()) * 10 + digit_value(dec_spec(n).last()));
    } else {
        lemma_decimal_digits(n / 10);
        lemma_digit_char(n % 10);
        let s = dec_spec(n);
        assert(s.drop_last() == dec_spec(n / 10));
        assert forall|i: int| 0 <= i < s.len() implies is_digit(#[trigger] s[i]) && !is_ws(s[i]) by {
            if i < s.len() - 1 {
                assert(s[i] == dec_spec(n / 10)[i]);
            }
        }
        assert(s[0] == dec_spec(n / 10)[0]);
        assert(s.last() == digit_char(n % 10));
        assert(digits_value(s) == digits_value(dec_spec(n / 10)) * 10 + digit_value(s.last()));
        assert(n / 10 * 10 + n % 10 == n);
    }
}

/// `parse::<u32>` reads the decimal text of a number back as that number.
pub proof fn lemma_decimal_parses_back(n: u32)
    ensures
        parse_u32_spec(dec_spec(n as nat)) == Some(n),
{
    lemma_decimal_digits(n as nat);
}

/// Numbers from 1000 to 9999 are written with exactly four digits.
pub proof fn lemma_four_digit_decimal(n: nat)
    requires
        1000 <= n <= 9999,
    ensures
        dec_spec(n).len() == 4,
{
    assert(dec_spec(n / 1000).len() == 1);
    assert(dec_spec(n / 100).len() == 2);
    assert(dec_spec(n / 10).len() == 3);
}


/// The length of `s` in bytes, encoded in UTF-8, as `str::len` counts it.
pub open spec fn byte_len_spec(s: Seq<char>) -> nat {
    vstd::utf8::encode_utf8(s).len()
}

/// `str::len`: the length of `s` in UTF-8 bytes.
pub fn byte_len(s: &str) -> (n: usize)
    ensures
        n == byte_len_spec(s@),
{
    s.as_bytes().len()
}


/// A word: at least one character and no `White_Space`.
pub open spec fn is_word(w: Seq<char>) -> bool {
    w.len() > 0 && forall|i: int| 0 <= i < w.len() ==> !is_ws(#[trigger] w[i])
}

/// Splitting `a`, a space, then `b` gives the words of `a` then those of `b`.
pub proof fn lemma_words_split_at_space(a: Seq<char>, b: Seq<char>, cur: Seq<char>)
    ensures
        words_from(a + seq![' '] + b, cur) == words_from(a, cur) + words_from(b, seq![]),
    decreases a.len(),
{
    let s = a + seq![' '] + b;
    if a.len() == 0 {
        assert(s.drop_first() =~= b);
        assert(is_ws(s[0]));
        if cur.len() > 0 {
            assert(words_from(a, cur) == seq![cur]);
        } else {
            assert(words_from(a, cur) =~= Seq::<Seq<char>>::empty());
        }
    } else {
        assert(s[0] == a[0]);
        assert(s.drop_first() =~= a.drop_first() + seq![' '] + b);
        if is_ws(a[0]) {
            lemma_words_split_at_space(a.drop_first(), b, seq![]);
        } else {
            lemma_words_split_at_space(a.drop_first(), b, cur.push(a[0]));
        }
    }
}

/// A single word, read after the partial word `cur`, completes it.
pub proof fn lemma_words_of_word(w: Seq<char>, cur: Seq<char>)
    requires
        forall|i: int| 0 <= i < w.len() ==> !is_ws(#[trigger] w[i]),
        cur.len() + w.len() > 0,
    ensures
        words_from(w, cur) == seq![cur + w],
    decreases w.len(),
{
    if w.len() == 0 {
        assert(cur + w =~= cur);
    } else {
        assert(!is_ws(w[0]));
        assert(forall|i: int| 0 <= i < w.drop_first().len() ==> !is_ws(#[trigger] w.drop_first()[i])) by {
            assert forall|i: int| 0 <= i < w.drop_first().len() implies !is_ws(#[trigger] w.drop_first()[i]) by {
                assert(w.drop_first()[i] == w[i + 1]);
            }
        }
        lemma_words_of_word(w.drop_first(), cur.push(w[0]));
        assert(cur.push(w[0]) + w.drop_first() =~= cur + w);
    }
}

} // verus!
