use vstd::prelude::*;
use crate::search::{first_match, lemma_first_match, lemma_first_match_is};

verus! {

/// A line of text as a contract sees it.
pub type Text = Seq<char>;

/// Whether two pieces of text are the same, character by character.
pub fn same_text(a: &str, b: &str) -> (same: bool)
    ensures
        same == (a@ == b@),
{
    let left = String::from_str(a);
    let right = String::from_str(b);
    left == right
}

/// The texts of `list`.
pub open spec fn texts(list: Seq<String>) -> Seq<Text> {
    list.map_values(|s: String| s@)
}

/// Whether a character is `delim`.
pub open spec fn is_char(delim: char) -> spec_fn(char) -> bool {
    |c: char| c == delim
}

/// Index of the first `delim` in `text`; the length of `text` where there is none.
pub open spec fn first_delim(text: Text, delim: char) -> int {
    first_match(text, is_char(delim))
}

/// The pieces of `text` between its delimiters, empty ones too. A text
/// without delimiter is one piece.
pub open spec fn split_text(text: Text, delim: char) -> Seq<Text>
    decreases text.len(),
    via split_text_decreases
{
    let i = first_delim(text, delim);
    if i >= text.len() {
        seq![text]
    } else {
        seq![text.take(i)] + split_text(text.skip(i + 1), delim)
    }
}

#[via_fn]
proof fn split_text_decreases(text: Text, delim: char) {
    lemma_first_match(text, is_char(delim));
}

/// An index with a delimiter or the end at it, and no delimiter before it, is
/// that of the first delimiter.
pub proof fn lemma_first_delim_is(text: Text, delim: char, i: int)
    requires
        0 <= i <= text.len(),
        forall|j: int| 0 <= j < i ==> text[j] != delim,
        i < text.len() ==> text[i] == delim,
    ensures
        first_delim(text, delim) == i,
{
    lemma_first_match_is(text, is_char(delim), i);
}

/// A text has at least one piece.
pub proof fn lemma_split_nonempty(text: Text, delim: char)
    ensures
        split_text(text, delim).len() >= 1,
{
    lemma_first_match(text, is_char(delim));
}

/// Splitting a text that is joined of two: the pieces of the first, the
/// pieces of the second, and in between the last piece of the first joined
/// with the first piece of the second.
pub proof fn lemma_split_joined(a: Text, b: Text, delim: char)
    ensures
        split_text(a, delim).len() >= 1,
        split_text(b, delim).len() >= 1,
        split_text(a + b, delim) == split_text(a, delim).drop_last().push(
            split_text(a, delim).last() + split_text(b, delim)[0],
        ) + split_text(b, delim).drop_first(),
    decreases a.len(),
{
    lemma_split_nonempty(a, delim);
    lemma_split_nonempty(b, delim);
    lemma_first_match(a, is_char(delim));
    lemma_first_match(b, is_char(delim));
    let i = first_delim(a, delim);
    let j = first_delim(b, delim);
    let whole = a + b;
    if i < a.len() {
        let rest = a.skip(i + 1);
        assert forall|k: int| 0 <= k < i implies whole[k] != delim by {
            assert(whole[k] == a[k]);
        }
        assert(whole[i] == a[i]);
        lemma_first_delim_is(whole, delim, i);
        assert(whole.take(i) =~= a.take(i));
        assert(whole.skip(i + 1) =~= rest + b);
        lemma_split_joined(rest, b, delim);
        lemma_split_nonempty(rest, delim);
        let sa = split_text(a, delim);
        let sr = split_text(rest, delim);
        assert(sa == seq![a.take(i)] + sr);
        assert(sa.drop_last() =~= seq![a.take(i)] + sr.drop_last());
        assert(sa.last() == sr.last());
        assert(split_text(whole, delim) =~= sa.drop_last().push(
            sa.last() + split_text(b, delim)[0],
        ) + split_text(b, delim).drop_first());
    } else {
        assert(split_text(a, delim) == seq![a]);
        assert forall|k: int| 0 <= k < a.len() + j implies whole[k] != delim by {
            if k < a.len() {
                assert(whole[k] == a[k]);
            } else {
                assert(whole[k] == b[k - a.len()]);
            }
        }
        if j < b.len() {
            assert(whole[a.len() + j] == b[j]);
        }
        lemma_first_delim_is(whole, delim, a.len() + j);
        if j < b.len() {
            assert(whole.take(a.len() + j) =~= a + b.take(j));
            assert(whole.skip(a.len() + j + 1) =~= b.skip(j + 1));
            let tail = split_text(b.skip(j + 1), delim);
            assert(split_text(b, delim) == seq![b.take(j)] + tail);
            assert(split_text(b, delim).drop_first() =~= tail);
            assert(split_text(whole, delim) =~= seq![a].drop_last().push(a + b.take(j)) + tail);
        } else {
            assert(split_text(b, delim) == seq![b]);
            assert(split_text(whole, delim) =~= seq![a].drop_last().push(a + b) + seq![
                b,
            ].drop_first());
        }
    }
}

/// Parts `text` at each `delim`.
pub fn split(text: &str, delim: char) -> (pieces: Vec<String>)
    ensures
        texts(pieces@) == split_text(text@, delim),
{
    let mut pieces: Vec<String> = Vec::new();
    let n = text.unicode_len();
    let mut start: usize = 0;
    let mut i: usize = 0;
    proof {
        assert(text@.skip(0) =~= text@);
        assert(texts(pieces@) + split_text(text@, delim) =~= split_text(text@, delim));
    }
    while i < n
        invariant
            n == text@.len(),
            start <= i <= n,
            forall|j: int| start <= j < i ==> text@[j] != delim,
            texts(pieces@) + split_text(text@.skip(start as int), delim) == split_text(
                text@,
                delim,
            ),
        decreases n - i,
    {
        if text.get_char(i) == delim {
            let piece = String::from_str(text.substring_char(start, i));
            proof {
                let rest = text@.skip(start as int);
                assert forall|j: int| 0 <= j < i - start implies rest[j] != delim by {
                    assert(rest[j] == text@[start + j]);
                }
                lemma_first_delim_is(rest, delim, i - start);
                assert(rest.take(i - start) =~= text@.subrange(start as int, i as int));
                assert(rest.skip(i - start + 1) =~= text@.skip(i + 1));
                let tail = split_text(text@.skip(i + 1), delim);
                assert(split_text(rest, delim) == seq![piece@] + tail);
                assert(texts(pieces@.push(piece)) + tail =~= texts(pieces@) + (seq![piece@]
                    + tail));
            }
            pieces.push(piece);
            start = i + 1;
        }
        i += 1;
    }
    let piece = String::from_str(text.substring_char(start, n));
    proof {
        let rest = text@.skip(start as int);
        assert forall|j: int| 0 <= j < rest.len() implies rest[j] != delim by {
            assert(rest[j] == text@[start + j]);
        }
        lemma_first_delim_is(rest, delim, rest.len() as int);
        assert(rest =~= text@.subrange(start as int, n as int));
        assert(split_text(rest, delim) == seq![piece@]);
        assert(texts(pieces@.push(piece)) =~= texts(pieces@) + seq![piece@]);
    }
    pieces.push(piece);
    pieces
}

/// Whether `c` is a decimal digit.
pub open spec fn is_digit(c: char) -> bool {
    '0' <= c <= '9'
}

/// Whether a character is no digit.
pub open spec fn no_digit() -> spec_fn(char) -> bool {
    |c: char| !is_digit(c)
}

/// How many digits `text` begins with.
pub open spec fn leading_digits(text: Text) -> int {
    first_match(text, no_digit())
}

/// The number that the first `n` characters of `text` spell, all of them
/// being digits.
pub open spec fn digits_value(text: Text, n: nat) -> nat
    decreases n,
{
    if n == 0 {
        0
    } else {
        digits_value(text, (n - 1) as nat) * 10 + (text[n - 1] as nat - '0' as nat) as nat
    }
}

/// The number that the digits at the beginning of `text` spell; zero where
/// it begins with none.
pub open spec fn leading_value(text: Text) -> nat {
    digits_value(text, leading_digits(text) as nat)
}

/// Reads the number that `text` begins with, up to `cap`: a greater number
/// is read as `cap`.
pub fn leading_number(text: &str, cap: u64) -> (value: u64)
    requires
        cap <= 0xffff_ffff,
    ensures
        value == if leading_value(text@) < cap {
            leading_value(text@)
        } else {
            cap as nat
        },
{
    let n = text.unicode_len();
    let mut value: u64 = 0;
    let mut i: usize = 0;
    while i < n
        invariant
            n == text@.len(),
            i <= n,
            cap <= 0xffff_ffff,
            forall|j: int| 0 <= j < i ==> is_digit(text@[j]),
            value <= cap,
            value < cap ==> value == digits_value(text@, i as nat),
            value == cap ==> digits_value(text@, i as nat) >= cap,
        decreases n - i,
    {
        let c = text.get_char(i);
        if !('0' <= c && c <= '9') {
            proof {
                lemma_first_match_is(text@, no_digit(), i as int);
            }
            return value;
        }
        let digit: u64 = (c as u64) - ('0' as u64);
        assert(digit == (c as nat - '0' as nat) as nat);
        if value < cap {
            let next = value * 10 + digit;
            value = if next < cap {
                next
            } else {
                cap
            };
        }
        proof {
            assert(digits_value(text@, (i + 1) as nat) == digits_value(text@, i as nat) * 10
                + digit);
        }
        i += 1;
    }
    proof {
        lemma_first_match_is(text@, no_digit(), n as int);
    }
    value
}

/// The character of the decimal digit `d`; that of nine for any greater number.
pub open spec fn digit_char(d: nat) -> char {
    if d == 0 {
        '0'
    } else if d == 1 {
        '1'
    } else if d == 2 {
        '2'
    } else if d == 3 {
        '3'
    } else if d == 4 {
        '4'
    } else if d == 5 {
        '5'
    } else if d == 6 {
        '6'
    } else if d == 7 {
        '7'
    } else if d == 8 {
        '8'
    } else {
        '9'
    }
}

/// The decimal numeral of `n`, without leading zeros.
pub open spec fn decimal_text(n: nat) -> Text
    decreases n,
{
    if n < 10 {
        seq![digit_char(n)]
    } else {
        decimal_text(n / 10).push(digit_char(n % 10))
    }
}

/// The numeral of the decimal digit `d`; that of nine for any greater number.
pub fn digit_str(d: u64) -> (s: &'static str)
    ensures
        s@ == seq![digit_char(d as nat)],
{
    proof {
        reveal_strlit("0");
        reveal_strlit("1");
        reveal_strlit("2");
        reveal_strlit("3");
        reveal_strlit("4");
        reveal_strlit("5");
        reveal_strlit("6");
        reveal_strlit("7");
        reveal_strlit("8");
        reveal_strlit("9");
    }
    let s = if d == 0 {
        "0"
    } else if d == 1 {
        "1"
    } else if d == 2 {
        "2"
    } else if d == 3 {
        "3"
    } else if d == 4 {
        "4"
    } else if d == 5 {
        "5"
    } else if d == 6 {
        "6"
    } else if d == 7 {
        "7"
    } else if d == 8 {
        "8"
    } else {
        "9"
    };
    proof {
        assert(s@ =~= seq![digit_char(d as nat)]);
    }
    s
}

/// Writes `n` as a decimal numeral.
pub fn decimal(n: u64) -> (s: String)
    ensures
        s@ == decimal_text(n as nat),
    decreases n,
{
    if n < 10 {
        String::from_str(digit_str(n))
    } else {
        let mut s = decimal(n / 10);
        s.append(digit_str(n % 10));
        proof {
            assert(s@ =~= decimal_text(n as nat));
        }
        s
    }
}

} // verus!
