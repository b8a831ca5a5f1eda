//! Text helpers shared by the rest of the crate: white space, words, suffixes
//! and decimal numbers, all stated over sequences of characters.

use vstd::prelude::*;

verus! {

/// The texts held by a sequence of strings.
pub open spec fn texts(items: Seq<String>) -> Seq<Seq<char>> {
    Seq::new(items.len(), |i: int| items[i]@)
}

/// The text of an optional string.
pub open spec fn opt_text(s: Option<String>) -> Option<Seq<char>> {
    match s {
        Some(t) => Some(t@),
        None => None,
    }
}

/// Whether `c` carries the Unicode property `White_Space`.
pub open spec fn is_space(c: char) -> bool {
    let n = c as u32;
    ||| 0x09 <= n <= 0x0D
    ||| n == 0x20
    ||| n == 0x85
    ||| n == 0xA0
    ||| n == 0x1680
    ||| 0x2000 <= n <= 0x200A
    ||| n == 0x2028
    ||| n == 0x2029
    ||| n == 0x202F
    ||| n == 0x205F
    ||| n == 0x3000
}

/// Tells whether `c` is a white-space character.
pub fn is_whitespace(c: char) -> (r: bool)
    ensures
        r == is_space(c),
{
    let n: u32 = c as u32;
    (0x09 <= n && n <= 0x0D) || n == 0x20 || n == 0x85 || n == 0xA0 || n == 0x1680 || (0x2000 <= n
        && n <= 0x200A) || n == 0x2028 || n == 0x2029 || n == 0x202F || n == 0x205F || n == 0x3000
}

/// Length of the longest prefix of `s` that holds no white space.
pub open spec fn word_len(s: Seq<char>) -> nat
    decreases s.len(),
{
    if s.len() == 0 || is_space(s[0]) {
        0
    } else {
        1 + word_len(s.drop_first())
    }
}

/// A word never runs past the end of the text, and is not empty where the
/// text starts with something other than white space.
pub proof fn lemma_word_len_bounds(s: Seq<char>)
    ensures
        word_len(s) <= s.len(),
        s.len() > 0 && !is_space(s[0]) ==> word_len(s) > 0,
    decreases s.len(),
{
    if s.len() > 0 && !is_space(s[0]) {
        lemma_word_len_bounds(s.drop_first());
    }
}

/// The words of `s`: its maximal runs of characters that are not white
/// space, from left to right.
pub open spec fn words(s: Seq<char>) -> Seq<Seq<char>>
    decreases s.len(),
    via words_decreases
{
    if s.len() == 0 {
        Seq::empty()
    } else if is_space(s[0]) {
        words(s.drop_first())
    } else {
        seq![s.take(word_len(s) as int)] + words(s.skip(word_len(s) as int))
    }
}

#[via_fn]
proof fn words_decreases(s: Seq<char>) {
    lemma_word_len_bounds(s);
}

/// Where the first `k` characters hold no white space, the first word covers
/// them and goes on as the rest of the text says.
pub proof fn lemma_word_len_run(s: Seq<char>, k: int)
    requires
        0 <= k <= s.len(),
        forall|i: int| 0 <= i < k ==> !is_space(#[trigger] s[i]),
    ensures
        word_len(s) == k + word_len(s.skip(k)),
    decreases k,
{
    if k == 0 {
        assert(s.skip(0) =~= s);
    } else {
        let rest = s.drop_first();
        assert forall|i: int| 0 <= i < k - 1 implies !is_space(#[trigger] rest[i]) by {
            assert(rest[i] == s[i + 1]);
        }
        lemma_word_len_run(rest, k - 1);
        assert(rest.skip(k - 1) =~= s.skip(k));
    }
}

/// The first word holds no white space.
proof fn lemma_word_len_clean(s: Seq<char>, k: int)
    requires
        0 <= k < word_len(s),
    ensures
        k < s.len(),
        !is_space(s[k]),
    decreases s.len(),
{
    if k > 0 {
        lemma_word_len_clean(s.drop_first(), k - 1);
    }
}

/// Whether `w` is a word: not empty, and without white space.
pub open spec fn is_word(w: Seq<char>) -> bool {
    w.len() > 0 && forall|k: int| 0 <= k < w.len() ==> !is_space(#[trigger] w[k])
}

/// Every one of the words of a text is a word.
pub proof fn law_words_are_words(s: Seq<char>)
    ensures
        forall|i: int| 0 <= i < words(s).len() ==> is_word(#[trigger] words(s)[i]),
    decreases s.len(),
{
    if s.len() == 0 {
        assert(words(s).len() == 0);
    } else if is_space(s[0]) {
        law_words_are_words(s.drop_first());
        assert(words(s) == words(s.drop_first()));
    } else {
        lemma_word_len_bounds(s);
        let n = word_len(s) as int;
        let first = s.take(n);
        let rest = words(s.skip(n));
        law_words_are_words(s.skip(n));
        assert(words(s) == seq![first] + rest);
        assert forall|k: int| 0 <= k < first.len() implies !is_space(#[trigger] first[k]) by {
            lemma_word_len_clean(s, k);
        }
        assert(is_word(first));
        assert forall|i: int| 0 <= i < words(s).len() implies is_word(#[trigger] words(s)[i]) by {
            if i > 0 {
                assert(words(s)[i] == rest[i - 1]);
            }
        }
    }
}

/// Splits `s` at white space into its words, as `str::split_whitespace` does.
pub fn split_whitespace(s: &str) -> (out: Vec<String>)
    ensures
        texts(out@) == words(s@),
{
    let n: usize = s.unicode_len();
    let mut out: Vec<String> = Vec::new();
    let mut i: usize = 0;
    assert(s@.skip(0) =~= s@);
    while i < n
        invariant
            n == s@.len(),
            i <= n,
            texts(out@) + words(s@.skip(i as int)) == words(s@),
        decreases n - i,
    {
        let ghost rest = s@.skip(i as int);
        let c: char = s.get_char(i);
        if is_whitespace(c) {
            assert(rest.drop_first() =~= s@.skip(i + 1));
            i = i + 1;
        } else {
            let mut j: usize = i + 1;
            while j < n && !is_whitespace(s.get_char(j))
                invariant
                    n == s@.len(),
                    i < j <= n,
                    forall|k: int| i <= k < j ==> !is_space(#[trigger] s@[k]),
                decreases n - j,
            {
                j = j + 1;
            }
            let word: String = String::from_str(s.substring_char(i, j));
            proof {
                let len = j - i;
                assert forall|k: int| 0 <= k < len implies !is_space(#[trigger] rest[k]) by {
                    assert(rest[k] == s@[i + k]);
                }
                lemma_word_len_run(rest, len);
                let tail = rest.skip(len);
                assert(tail =~= s@.skip(j as int));
                assert(word_len(tail) == 0) by {
                    if tail.len() > 0 {
                        assert(tail[0] == s@[j as int]);
                    }
                }
                assert(rest.take(len) =~= s@.subrange(i as int, j as int));
                assert(texts(out@.push(word)) =~= texts(out@) + seq![word@]);
                assert(texts(out@) + (seq![word@] + words(tail)) =~= texts(out@) + seq![word@]
                    + words(tail));
            }
            out.push(word);
            i = j;
        }
    }
    assert(words(s@.skip(n as int)) =~= Seq::<Seq<char>>::empty());
    assert(texts(out@) + Seq::<Seq<char>>::empty() =~= texts(out@));
    out
}

/// Whether `text` ends with `suffix`.
pub open spec fn has_suffix(text: Seq<char>, suffix: Seq<char>) -> bool {
    suffix.len() <= text.len() && text.skip(text.len() - suffix.len()) == suffix
}

/// Tells whether `text` ends with `suffix`.
pub fn ends_with(text: &str, suffix: &str) -> (r: bool)
    ensures
        r == has_suffix(text@, suffix@),
{
    let n: usize = text.unicode_len();
    let m: usize = suffix.unicode_len();
    if m > n {
        return false;
    }
    let base: usize = n - m;
    let ghost tail = text@.skip(base as int);
    let mut k: usize = 0;
    while k < m
        invariant
            n == text@.len(),
            m == suffix@.len(),
            base == n - m,
            k <= m,
            tail == text@.skip(base as int),
            forall|i: int| 0 <= i < k ==> tail[i] == suffix@[i],
        decreases m - k,
    {
        if text.get_char(base + k) != suffix.get_char(k) {
            assert(tail[k as int] != suffix@[k as int]);
            return false;
        }
        k = k + 1;
    }
    assert(tail =~= suffix@);
    true
}

/// Whether `c` is one of the ten decimal digits.
pub open spec fn is_digit(c: char) -> bool {
    '0' <= c <= '9'
}

/// The value of a decimal digit.
pub open spec fn digit_value(c: char) -> nat {
    (c as u32 - '0' as u32) as nat
}

/// The number that a run of decimal digits writes, the empty run being 0.
pub open spec fn digits_value(s: Seq<char>) -> nat
    decreases s.len(),
{
    if s.len() == 0 {
        0
    } else {
        digits_value(s.drop_last()) * 10 + digit_value(s.last())
    }
}

/// Whether every character of `s` is a decimal digit.
pub open spec fn all_digits(s: Seq<char>) -> bool {
    forall|i: int| 0 <= i < s.len() ==> is_digit(#[trigger] s[i])
}

/// The digits of a number text: the text without one leading `+`.
pub open spec fn unsigned_digits(s: Seq<char>) -> Seq<char> {
    if s.len() > 0 && s[0] == '+' {
        s.drop_first()
    } else {
        s
    }
}

/// The number that `s` writes, read as `str::parse::<u64>` reads it: an
/// optional `+`, then at least one decimal digit and nothing else, the value
/// no larger than `u64::MAX`.
pub open spec fn number(s: Seq<char>) -> Option<u64> {
    let digits = unsigned_digits(s);
    if digits.len() > 0 && all_digits(digits) && digits_value(digits) <= u64::MAX {
        Some(digits_value(digits) as u64)
    } else {
        None
    }
}

/// A run of digits is worth at least as much as any of its prefixes.
pub proof fn lemma_digits_value_grows(s: Seq<char>, k: int)
    requires
        0 <= k <= s.len(),
    ensures
        digits_value(s.take(k)) <= digits_value(s),
    decreases s.len() - k,
{
    if k == s.len() {
        assert(s.take(k) =~= s);
    } else {
        assert(s.drop_last().take(k) =~= s.take(k));
        lemma_digits_value_grows(s.drop_last(), k);
    }
}

/// Reads `s` as an unsigned decimal number.
pub fn parse_u64(s: &str) -> (r: Option<u64>)
    ensures
        r == number(s@),
{
    let n: usize = s.unicode_len();
    if n == 0 {
        return None;
    }
    let start: usize = if s.get_char(0) == '+' {
        1
    } else {
        0
    };
    if start == n {
        return None;
    }
    let ghost digits = unsigned_digits(s@);
    assert(digits =~= s@.skip(start as int));
    let mut value: u64 = 0;
    let mut i: usize = start;
    assert(digits.take(0) =~= Seq::<char>::empty());
    while i < n
        invariant
            n == s@.len(),
            start <= i <= n,
            start < n,
            digits == s@.skip(start as int),
            digits == unsigned_digits(s@),
            forall|k: int| 0 <= k < i - start ==> is_digit(#[trigger] digits[k]),
            value == digits_value(digits.take(i - start)),
        decreases n - i,
    {
        let c: char = s.get_char(i);
        assert(digits[i - start] == c);
        if c < '0' || c > '9' {
            assert(!is_digit(digits[i - start]));
            return None;
        }
        let d: u64 = (c as u32 - '0' as u32) as u64;
        let ghost prefix = digits.take(i - start + 1);
        proof {
            assert(prefix.drop_last() =~= digits.take(i - start));
            assert(prefix.last() == c);
            assert(digits_value(prefix) == value * 10 + d);
            lemma_digits_value_grows(digits, i - start + 1);
        }
        let scaled: u64 = match value.checked_mul(10) {
            Some(v) => v,
            None => {
                return None;
            },
        };
        value = match scaled.checked_add(d) {
            Some(v) => v,
            None => {
                return None;
            },
        };
        i = i + 1;
    }
    assert(digits.take(n - start) =~= digits);
    Some(value)
}

/// The character that writes the digit `d`.
pub open spec fn digit_char(d: nat) -> char {
    if d == 0 {
        '0'
    } else if d == 1 {
        '1'
    } else if d == 2 {
        '2'
    } else if d == 3 {
        '3'
    } else if d == 4 {
        '4'
    } else if d == 5 {
        '5'
    } else if d == 6 {
        '6'
    } else if d == 7 {
        '7'
    } else if d == 8 {
        '8'
    } else {
        '9'
    }
}

/// The decimal notation of `n`, without leading zeros.
pub open spec fn decimal(n: nat) -> Seq<char>
    decreases n,
{
    if n < 10 {
        seq![digit_char(n)]
    } else {
        decimal(n / 10).push(digit_char(n % 10))
    }
}

fn digit_text(d: u64) -> (r: &'static str)
    requires
        d < 10,
    ensures
        r@ == seq![digit_char(d as nat)],
{
    proof {
        reveal_strlit("0");
        reveal_strlit("1");
        reveal_strlit("2");
        reveal_strlit("3");
        reveal_strlit("4");
        reveal_strlit("5");
        reveal_strlit("6");
        reveal_strlit("7");
        reveal_strlit("8");
        reveal_strlit("9");
    }
    let r: &'static str = if d == 0 {
        "0"
    } else if d == 1 {
        "1"
    } else if d == 2 {
        "2"
    } else if d == 3 {
        "3"
    } else if d == 4 {
        "4"
    } else if d == 5 {
        "5"
    } else if d == 6 {
        "6"
    } else if d == 7 {
        "7"
    } else if d == 8 {
        "8"
    } else {
        "9"
    };
    assert(r@ =~= seq![digit_char(d as nat)]);
    r
}

/// Writes `n` in decimal notation.
pub fn to_decimal(n: u64) -> (r: String)
    ensures
        r@ == decimal(n as nat),
    decreases n,
{
    if n < 10 {
        String::from_str(digit_text(n))
    } else {
        let mut r: String = to_decimal(n / 10);
        r.append(digit_text(n % 10));
        assert(r@ =~= decimal((n / 10) as nat).push(digit_char((n % 10) as nat)));
        r
    }
}

} // verus!
