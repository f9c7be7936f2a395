//! Characters, whitespace-separated words and decimal numbers.

use vstd::prelude::*;
use vstd::string::*;

verus! {

/// Whether `c` has the Unicode property `White_Space`.
pub open spec fn spec_is_whitespace(c: char) -> bool {
    let u = c as u32;
    ||| 0x09 <= u <= 0x0D
    ||| u == 0x20
    ||| u == 0x85
    ||| u == 0xA0
    ||| u == 0x1680
    ||| 0x2000 <= u <= 0x200A
    ||| u == 0x2028
    ||| u == 0x2029
    ||| u == 0x202F
    ||| u == 0x205F
    ||| u == 0x3000
}

/// Whether `c` separates words.
#[verifier::when_used_as_spec(spec_is_whitespace)]
pub fn is_whitespace(c: char) -> (b: bool)
    ensures
        b == spec_is_whitespace(c),
{
    let u: u32 = c as u32;
    (0x09 <= u && u <= 0x0D) || u == 0x20 || u == 0x85 || u == 0xA0 || u == 0x1680 || (0x2000 <= u
        && u <= 0x200A) || u == 0x2028 || u == 0x2029 || u == 0x202F || u == 0x205F || u == 0x3000
}

/// The end of the word that starts at `i`: the first index from `i` on that
/// holds whitespace, or the length of `s`.
pub open spec fn word_end(s: Seq<char>, i: int) -> int
    decreases s.len() - i,
{
    if 0 <= i < s.len() && !spec_is_whitespace(s[i]) {
        word_end(s, i + 1)
    } else {
        i
    }
}

/// The words of `s` that start at or after `i`, where `i` is not inside a word.
pub open spec fn words_from(s: Seq<char>, i: int) -> Seq<Seq<char>>
    decreases s.len() - i,
{
    if !(0 <= i < s.len()) {
        Seq::empty()
    } else if spec_is_whitespace(s[i]) {
        words_from(s, i + 1)
    } else {
        let end = word_end(s, i + 1);
        proof {
            lemma_word_end_bounds(s, i + 1);
        }
        seq![s.subrange(i, end)] + words_from(s, end)
    }
}

/// The words of `s`: its maximal runs of characters that are not whitespace,
/// in order. No word is empty.
pub open spec fn spec_words(s: Seq<char>) -> Seq<Seq<char>> {
    words_from(s, 0)
}

/// A word ends at or after its start and inside the text.
pub proof fn lemma_word_end_bounds(s: Seq<char>, i: int)
    requires
        0 <= i <= s.len(),
    ensures
        i <= word_end(s, i) <= s.len(),
        forall|k: int| i <= k < word_end(s, i) ==> !spec_is_whitespace(#[trigger] s[k]),
        word_end(s, i) < s.len() ==> spec_is_whitespace(s[word_end(s, i)]),
    decreases s.len() - i,
{
    if i < s.len() && !spec_is_whitespace(s[i]) {
        lemma_word_end_bounds(s, i + 1);
    }
}

/// Every word holds at least one character, and none of its characters is whitespace.
pub proof fn lemma_words_nonempty(s: Seq<char>, i: int)
    requires
        0 <= i <= s.len(),
    ensures
        forall|k: int|
            0 <= k < words_from(s, i).len() ==> (#[trigger] words_from(s, i)[k]).len() > 0,
        forall|k: int, j: int|
            0 <= k < words_from(s, i).len() && 0 <= j < words_from(s, i)[k].len()
                ==> !spec_is_whitespace(#[trigger] words_from(s, i)[k][j]),
    decreases s.len() - i,
{
    if i < s.len() {
        if spec_is_whitespace(s[i]) {
            lemma_words_nonempty(s, i + 1);
            assert(words_from(s, i) == words_from(s, i + 1));
        } else {
            let end = word_end(s, i + 1);
            lemma_word_end_bounds(s, i + 1);
            lemma_words_nonempty(s, end);
            let first = s.subrange(i, end);
            let rest = words_from(s, end);
            let all = words_from(s, i);
            assert(all == seq![first] + rest);
            assert forall|k: int| 0 <= k < all.len() implies (#[trigger] all[k]).len() > 0 by {
                if k > 0 {
                    assert(all[k] == rest[k - 1]);
                }
            }
            assert forall|k: int, j: int| 0 <= k < all.len() && 0 <= j < all[k].len()
                implies !spec_is_whitespace(#[trigger] all[k][j]) by {
                if k > 0 {
                    assert(all[k] == rest[k - 1]);
                } else {
                    assert(first[j] == s[i + j]);
                }
            }
        }
    } else {
        assert(words_from(s, i) == Seq::<Seq<char>>::empty());
    }
}

/// The view of each string of `v`.
pub open spec fn views(v: Seq<String>) -> Seq<Seq<char>> {
    v.map_values(|w: String| w@)
}

/// The characters of `s`, in order.
pub fn to_chars(s: &str) -> (chars: Vec<char>)
    ensures
        chars@ == s@,
{
    let mut chars: Vec<char> = Vec::new();
    for c in it: s.chars()
        invariant
            chars@ == it.seq().take(it.index()),
            it.seq() == s@,
    {
        chars.push(c);
    }
    chars
}

/// Splits `s` at whitespace into its words.
pub fn split_whitespace(s: &str) -> (words: Vec<String>)
    ensures
        views(words@) == spec_words(s@),
{
    let chars = to_chars(s);
    let n: usize = chars.len();
    let mut words: Vec<String> = Vec::new();
    let mut i: usize = 0;
    while i < n
        invariant
            chars@ == s@,
            n == chars@.len(),
            i <= n,
            spec_words(s@) == views(words@) + words_from(s@, i as int),
        decreases n - i,
    {
        if is_whitespace(chars[i]) {
            i += 1;
        } else {
            let start: usize = i;
            i += 1;
            while i < n && !is_whitespace(chars[i])
                invariant
                    chars@ == s@,
                    n == chars@.len(),
                    start < i <= n,
                    word_end(s@, start + 1) == word_end(s@, i as int),
                decreases n - i,
            {
                i += 1;
            }
            let word = String::from_str(s.substring_char(start, i));
            proof {
                assert(word_end(s@, i as int) == i);
                assert(views(words@.push(word)) =~= views(words@) + seq![word@]);
                assert(views(words@) + (seq![word@] + words_from(s@, i as int)) =~= (views(words@)
                    + seq![word@]) + words_from(s@, i as int));
            }
            words.push(word);
        }
    }
    assert(words_from(s@, i as int) =~= Seq::<Seq<char>>::empty());
    assert(views(words@) + Seq::<Seq<char>>::empty() =~= views(words@));
    words
}

/// Whether `c` is one of `0` to `9`.
pub open spec fn spec_is_digit(c: char) -> bool {
    0x30 <= c as u32 <= 0x39
}

/// The value of the decimal digit `c`.
pub open spec fn digit_value(c: char) -> nat {
    (c as u32 - 0x30) as nat
}

/// Whether `s` holds decimal digits only.
pub open spec fn all_digits(s: Seq<char>) -> bool {
    forall|i: int| 0 <= i < s.len() ==> spec_is_digit(#[trigger] s[i])
}

/// The number that the decimal digits `s` write, most significant first.
pub open spec fn digits_value(s: Seq<char>) -> nat
    decreases s.len(),
{
    if s.len() == 0 {
        0
    } else {
        digits_value(s.drop_last()) * 10 + digit_value(s.last())
    }
}

/// The digits of a literal: the text without a leading `+`.
pub open spec fn unsigned_digits(s: Seq<char>) -> Seq<char> {
    if s.len() > 0 && s[0] == '+' {
        s.drop_first()
    } else {
        s
    }
}

/// The word that the digits `digits` write: there is at least one, all are
/// decimal digits, and the number they write is no larger than `u64::MAX`.
/// Any other text writes no word.
pub open spec fn spec_digits_to_u64(digits: Seq<char>) -> Option<u64> {
    if digits.len() > 0 && all_digits(digits) && digits_value(digits) <= u64::MAX {
        Some(digits_value(digits) as u64)
    } else {
        None
    }
}

/// The value of an unsigned decimal literal: an optional `+`, then one or
/// more digits that write a number no larger than `u64::MAX`. Any other text
/// has no value.
pub open spec fn spec_parse_u64(s: Seq<char>) -> Option<u64> {
    spec_digits_to_u64(unsigned_digits(s))
}

/// The value of a signed decimal literal: an optional `+` or `-`, then one
/// or more digits, the whole writing a number from `i32::MIN` to `i32::MAX`.
/// Any other text has no value.
pub open spec fn spec_parse_i32(s: Seq<char>) -> Option<i32> {
    if s.len() > 0 && s[0] == '-' {
        match spec_digits_to_u64(s.drop_first()) {
            Some(magnitude) => if magnitude <= 0x8000_0000 {
                Some((-(magnitude as int)) as i32)
            } else {
                None
            },
            None => None,
        }
    } else {
        match spec_digits_to_u64(unsigned_digits(s)) {
            Some(magnitude) => if magnitude <= 0x7fff_ffff {
                Some(magnitude as i32)
            } else {
                None
            },
            None => None,
        }
    }
}

/// A longer run of digits writes a number at least as large as any of its prefixes.
pub proof fn lemma_digits_value_monotonic(s: Seq<char>, k: int)
    requires
        0 <= k <= s.len(),
    ensures
        digits_value(s.take(k)) <= digits_value(s),
    decreases s.len(),
{
    if k < s.len() {
        lemma_digits_value_monotonic(s.drop_last(), k);
        assert(s.drop_last().take(k) =~= s.take(k));
    } else {
        assert(s.take(k) =~= s);
    }
}

/// The word that the characters of `chars` from `first` on write.
fn digits_to_u64(chars: &Vec<char>, first: usize) -> (r: Option<u64>)
    requires
        first <= chars.len(),
    ensures
        r == spec_digits_to_u64(chars@.subrange(first as int, chars@.len() as int)),
{
    let n: usize = chars.len();
    if first == n {
        return None;
    }
    let ghost digits = chars@.subrange(first as int, n as int);
    let mut value: u64 = 0;
    let mut i: usize = first;
    while i < n
        invariant
            n == chars@.len(),
            first <= i <= n,
            digits == chars@.subrange(first as int, n as int),
            all_digits(digits.take(i - first)),
            value == digits_value(digits.take(i - first)),
        decreases n - i,
    {
        let c: char = chars[i];
        let u: u32 = c as u32;
        if u < 0x30 || u > 0x39 {
            assert(!spec_is_digit(digits[i - first]));
            return None;
        }
        let d: u64 = (u - 0x30) as u64;
        let ghost next = digits.take(i - first + 1);
        proof {
            assert(next.drop_last() =~= digits.take(i - first));
            assert(next.last() == c);
            assert(digits_value(next) == value * 10 + d);
            lemma_digits_value_monotonic(digits, i - first + 1);
        }
        if value > (u64::MAX - d) / 10 {
            return None;
        }
        value = value * 10 + d;
        i += 1;
    }
    assert(digits.take(n - first) =~= digits);
    Some(value)
}

/// Reads `word` as an unsigned decimal literal.
pub fn parse_u64(word: &str) -> (r: Option<u64>)
    ensures
        r == spec_parse_u64(word@),
{
    let chars = to_chars(word);
    let first: usize = if chars.len() > 0 && chars[0] == '+' {
        1
    } else {
        0
    };
    assert(unsigned_digits(word@) =~= chars@.subrange(first as int, chars@.len() as int));
    digits_to_u64(&chars, first)
}

/// Reads `word` as a signed decimal literal.
pub fn parse_i32(word: &str) -> (r: Option<i32>)
    ensures
        r == spec_parse_i32(word@),
{
    let chars = to_chars(word);
    if chars.len() > 0 && chars[0] == '-' {
        assert(word@.drop_first() =~= chars@.subrange(1, chars@.len() as int));
        match digits_to_u64(&chars, 1) {
            Some(magnitude) => if magnitude <= 0x8000_0000 {
                Some((-(magnitude as i64)) as i32)
            } else {
                None
            },
            None => None,
        }
    } else {
        let first: usize = if chars.len() > 0 && chars[0] == '+' {
            1
        } else {
            0
        };
        assert(unsigned_digits(word@) =~= chars@.subrange(first as int, chars@.len() as int));
        match digits_to_u64(&chars, first) {
            Some(magnitude) => if magnitude <= 0x7fff_ffff {
                Some(magnitude as i32)
            } else {
                None
            },
            None => None,
        }
    }
}

/// The character that writes the decimal digit `d`.
pub open spec fn digit_char(d: nat) -> char {
    (0x30 + d) as u8 as char
}

/// The decimal text of `n`: its digits, most significant first, without
/// leading zeros.
pub open spec fn spec_decimal(n: nat) -> Seq<char>
    decreases n,
{
    if n < 10 {
        seq![digit_char(n)]
    } else {
        spec_decimal(n / 10).push(digit_char(n % 10))
    }
}

/// The decimal text of `i`: a `-` if it is negative, then the decimal text
/// of its magnitude.
pub open spec fn spec_signed_decimal(i: int) -> Seq<char> {
    if i < 0 {
        seq!['-'] + spec_decimal((-i) as nat)
    } else {
        spec_decimal(i as nat)
    }
}

/// The text of the decimal digit `d`.
fn digit_str(d: u64) -> (text: &'static str)
    requires
        d < 10,
    ensures
        text@ == seq![digit_char(d as nat)],
{
    proof {
        reveal_strlit("0");
        reveal_strlit("1");
        reveal_strlit("2");
        reveal_strlit("3");
        reveal_strlit("4");
        reveal_strlit("5");
        reveal_strlit("6");
        reveal_strlit("7");
        reveal_strlit("8");
        reveal_strlit("9");
    }
    let text = if d == 0 {
        "0"
    } else if d == 1 {
        "1"
    } else if d == 2 {
        "2"
    } else if d == 3 {
        "3"
    } else if d == 4 {
        "4"
    } else if d == 5 {
        "5"
    } else if d == 6 {
        "6"
    } else if d == 7 {
        "7"
    } else if d == 8 {
        "8"
    } else {
        "9"
    };
    assert(text@ =~= seq![digit_char(d as nat)]);
    text
}

/// Writes `n` in decimal.
pub fn decimal(n: u64) -> (text: String)
    ensures
        text@ == spec_decimal(n as nat),
    decreases n,
{
    if n < 10 {
        String::from_str(digit_str(n))
    } else {
        let mut text = decimal(n / 10);
        text.append(digit_str(n % 10));
        assert(text@ =~= spec_decimal(n as nat));
        text
    }
}

/// Writes `i` in decimal, with a `-` in front if it is negative.
pub fn signed_decimal(i: i32) -> (text: String)
    ensures
        text@ == spec_signed_decimal(i as int),
{
    if i < 0 {
        proof {
            reveal_strlit("-");
        }
        let magnitude: u64 = (-(i as i64)) as u64;
        let mut text = String::from_str("-");
        let digits = decimal(magnitude);
        text.append(digits.as_str());
        assert(text@ =~= spec_signed_decimal(i as int));
        text
    } else {
        decimal(i as u64)
    }
}

/// Writing a number and reading it back gives the number: the decimal text
/// of a word is an unsigned decimal literal whose value is that word.
pub proof fn lemma_decimal_round_trip(n: u64)
    ensures
        spec_parse_u64(spec_decimal(n as nat)) == Some(n),
{
    lemma_decimal_digits(n as nat);
}

/// The decimal text of a number consists of digits, at least one, and
/// writes that number.
pub proof fn lemma_decimal_digits(n: nat)
    ensures
        spec_decimal(n).len() > 0,
        all_digits(spec_decimal(n)),
        digits_value(spec_decimal(n)) == n,
        unsigned_digits(spec_decimal(n)) == spec_decimal(n),
    decreases n,
{
    if n >= 10 {
        lemma_decimal_digits(n / 10);
        let text = spec_decimal(n);
        assert(text.drop_last() =~= spec_decimal(n / 10));
        assert(text.last() == digit_char(n % 10));
        assert(text[0] == spec_decimal(n / 10)[0]);
    } else {
        let text = spec_decimal(n);
        assert(text.drop_last() =~= Seq::<char>::empty());
        assert(digits_value(text.drop_last()) == 0);
    }
}

} // verus!
