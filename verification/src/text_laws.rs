//! What the operations on texts give, said of the characters alone.

use vstd::prelude::*;
use vstd::arithmetic::power::pow;
use crate::text;

verus! {

/// One character, or an ASCII letter in its two cases.
pub open spec fn one_letter(a: char, b: char) -> bool {
    ||| a == b
    ||| 'A' <= a <= 'Z' && b as u32 == a as u32 + 32
    ||| 'A' <= b <= 'Z' && a as u32 == b as u32 + 32
}

/// Two texts are equal, whatever the case, exactly where they have one length and at every position
/// one character, or one ASCII letter in either case.
pub proof fn law_equal_ignoring_case(a: Seq<char>, b: Seq<char>)
    ensures
        text::equal_ignoring_case(a, b) <==> a.len() == b.len() && forall|i: int|
            0 <= i < a.len() ==> one_letter(#[trigger] a[i], b[i]),
{
    assert forall|x: char, y: char| text::lower(x) == text::lower(y) <==> one_letter(x, y) by {
        if text::lower(x) == text::lower(y) {
            assert(text::lower(x) as u32 == text::lower(y) as u32);
        }
    }
}

/// A character that occurs `n` times.
pub open spec fn repeated(c: char, n: nat) -> Seq<char> {
    Seq::new(n, |i: int| c)
}

/// A text without what it ends in is what stands before a run of one character, and does not end in
/// that character.
pub proof fn law_without_trailing(s: Seq<char>, c: char)
    ensures
        ({
            let rest = text::without_trailing(s, c);
            &&& rest.len() <= s.len()
            &&& s == rest + repeated(c, (s.len() - rest.len()) as nat)
            &&& rest.len() > 0 ==> rest.last() != c
        }),
    decreases s.len(),
{
    let rest = text::without_trailing(s, c);
    if s.len() > 0 && s.last() == c {
        law_without_trailing(s.drop_last(), c);
        let front = s.drop_last();
        let run = repeated(c, (front.len() - rest.len()) as nat);
        assert(front == rest + run);
        assert(s =~= front.push(c));
        assert((rest + run).push(c) =~= rest + repeated(c, (s.len() - rest.len()) as nat));
    } else {
        assert(s =~= rest + repeated(c, 0));
    }
}

/// Texts with a character between each and the next.
pub open spec fn joined(pieces: Seq<Seq<char>>, c: char) -> Seq<char>
    decreases pieces.len(),
{
    if pieces.len() == 0 {
        Seq::empty()
    } else if pieces.len() == 1 {
        pieces[0]
    } else {
        joined(pieces.drop_last(), c).push(c) + pieces.last()
    }
}

/// The pieces of a text are at least one, none holds the character that separates them, and with it
/// between them they are the text again.
pub proof fn law_split(s: Seq<char>, c: char)
    ensures
        text::split(s, c).len() > 0,
        forall|i: int|
            0 <= i < text::split(s, c).len() ==> !(#[trigger] text::split(s, c)[i]).contains(c),
        joined(text::split(s, c), c) == s,
    decreases s.len(),
{
    let pieces = text::split(s, c);
    if s.len() == 0 {
        assert(joined(pieces, c) =~= s);
    } else {
        let front = s.drop_last();
        law_split(front, c);
        let before = text::split(front, c);
        assert(front.push(s.last()) =~= s);
        if s.last() == c {
            assert(pieces.drop_last() =~= before);
            assert(joined(pieces, c) =~= s);
        } else {
            assert(pieces.drop_last() =~= before.drop_last());
            assert forall|i: int| 0 <= i < pieces.len() implies !(#[trigger] pieces[i]).contains(
                c,
            ) by {
                if i < pieces.len() - 1 {
                    assert(!before[i].contains(c));
                } else {
                    assert(!before[before.len() - 1].contains(c));
                    let last = before.last().push(s.last());
                    assert forall|j: int| 0 <= j < last.len() implies last[j] != c by {
                        if j < before.last().len() {
                            assert(before.last()[j] != c);
                        }
                    }
                }
            }
            assert(joined(pieces, c) =~= joined(before, c).push(s.last()));
        }
    }
}

proof fn lemma_joined_begins(pieces: Seq<Seq<char>>, c: char)
    requires
        pieces.len() > 0,
    ensures
        pieces[0].len() <= joined(pieces, c).len(),
        joined(pieces, c).take(pieces[0].len() as int) == pieces[0],
        pieces[0].len() < joined(pieces, c).len() ==> pieces.len() > 1,
        pieces.len() > 1 ==> pieces[0].len() < joined(pieces, c).len() && joined(
            pieces,
            c,
        )[pieces[0].len() as int] == c,
    decreases pieces.len(),
{
    if pieces.len() > 1 {
        let front = pieces.drop_last();
        lemma_joined_begins(front, c);
        let all = joined(front, c);
        assert((all.push(c) + pieces.last()).take(pieces[0].len() as int) =~= all.take(
            pieces[0].len() as int,
        ));
    } else {
        assert(joined(pieces, c).take(pieces[0].len() as int) =~= pieces[0]);
    }
}

/// What stands before a character begins the text, does not hold the character, and is followed by
/// it unless it is the whole text.
pub proof fn law_before(s: Seq<char>, c: char)
    ensures
        ({
            let start = text::before(s, c);
            &&& start.len() <= s.len()
            &&& s.take(start.len() as int) == start
            &&& !start.contains(c)
            &&& start.len() == s.len() || s[start.len() as int] == c
        }),
{
    law_split(s, c);
    lemma_joined_begins(text::split(s, c), c);
}

/// Nothing has no words, and a run without white space is one word.
pub proof fn law_one_word(word: Seq<char>)
    requires
        word.len() > 0,
        forall|i: int| 0 <= i < word.len() ==> !text::is_white(#[trigger] word[i]),
    ensures
        text::words(Seq::empty()) == Seq::<Seq<char>>::empty(),
        text::words(word) == seq![word],
    decreases word.len(),
{
    let front = word.drop_last();
    assert(!text::is_white(word.last()));
    if front.len() > 0 {
        law_one_word(front);
        assert(!text::is_white(word[word.len() - 2]));
        assert(front.push(word.last()) =~= word);
        assert(text::words(word) =~= seq![word]);
    } else {
        assert(word =~= seq![word.last()]);
        assert(text::words(front) =~= Seq::empty());
        assert(text::words(word) =~= seq![word]);
    }
}

/// White space parts words: those of two texts with white space between are those of the first, and
/// then those of the second.
pub proof fn law_white_space_parts_words(a: Seq<char>, white: char, b: Seq<char>)
    requires
        text::is_white(white),
    ensures
        text::words(a.push(white) + b) == text::words(a) + text::words(b),
    decreases b.len(),
{
    let whole = a.push(white) + b;
    if b.len() == 0 {
        assert(whole =~= a.push(white));
        assert(a.push(white).drop_last() =~= a);
        assert(text::words(whole) =~= text::words(a) + text::words(b));
    } else {
        let front = b.drop_last();
        law_white_space_parts_words(a, white, front);
        assert(whole.drop_last() =~= a.push(white) + front);
        assert(whole.last() == b.last());
        if b.len() > 1 {
            assert(whole[whole.len() - 2] == b[b.len() - 2]);
            if !text::is_white(b.last()) && !text::is_white(b[b.len() - 2]) {
                lemma_last_word(front);
            }
        } else {
            assert(whole[whole.len() - 2] == white);
            assert(text::words(front) =~= Seq::empty());
        }
        assert(text::words(whole) =~= text::words(a) + text::words(b));
    }
}

proof fn lemma_last_word(s: Seq<char>)
    requires
        s.len() > 0,
        !text::is_white(s.last()),
    ensures
        text::words(s).len() > 0,
    decreases s.len(),
{
    if s.len() > 1 && !text::is_white(s[s.len() - 2]) {
        lemma_last_word(s.drop_last());
    }
}

/// A trimmed text is what is left of a text between white space at its two ends, and neither begins
/// nor ends with white space.
pub proof fn law_trim(s: Seq<char>)
    ensures
        exists|from: int, to: int| #[trigger]
            trims(s, from, to) && text::trim(s) == s.subrange(from, to),
        text::trim(s).len() > 0 ==> !text::is_white(text::trim(s)[0]) && !text::is_white(
            text::trim(s).last(),
        ),
{
    let from = lemma_trim_start(s);
    let rest = s.skip(from);
    let to = lemma_trim_end(rest);
    assert(rest.take(to) =~= s.subrange(from, from + to));
    assert forall|i: int| from + to <= i < s.len() implies text::is_white(#[trigger] s[i]) by {
        assert(rest[i - from] == s[i]);
    }
    assert(trims(s, from, from + to));
    if text::trim(s).len() > 0 {
        assert(rest.len() > 0);
        assert(text::trim(s)[0] == rest[0]);
    }
}

/// Whether nothing but white space stands before one position of a text and from another on.
pub open spec fn trims(s: Seq<char>, from: int, to: int) -> bool {
    &&& 0 <= from <= to <= s.len()
    &&& forall|i: int| 0 <= i < from ==> text::is_white(#[trigger] s[i])
    &&& forall|i: int| to <= i < s.len() ==> text::is_white(#[trigger] s[i])
}

proof fn lemma_trim_start(s: Seq<char>) -> (from: int)
    ensures
        0 <= from <= s.len(),
        text::trim_start(s) == s.skip(from),
        forall|i: int| 0 <= i < from ==> text::is_white(#[trigger] s[i]),
        from < s.len() ==> !text::is_white(s[from]),
    decreases s.len(),
{
    if s.len() > 0 && text::is_white(s[0]) {
        let rest = s.drop_first();
        let at = lemma_trim_start(rest);
        assert(rest.skip(at) =~= s.skip(at + 1));
        assert forall|i: int| 0 <= i < at + 1 implies text::is_white(#[trigger] s[i]) by {
            if i > 0 {
                assert(rest[i - 1] == s[i]);
            }
        }
        at + 1
    } else {
        assert(s.skip(0) =~= s);
        0
    }
}

proof fn lemma_trim_end(s: Seq<char>) -> (to: int)
    ensures
        0 <= to <= s.len(),
        text::trim_end(s) == s.take(to),
        forall|i: int| to <= i < s.len() ==> text::is_white(#[trigger] s[i]),
        to > 0 ==> !text::is_white(s[to - 1]),
    decreases s.len(),
{
    if s.len() > 0 && text::is_white(s.last()) {
        let front = s.drop_last();
        let at = lemma_trim_end(front);
        assert(front.take(at) =~= s.take(at));
        assert forall|i: int| at <= i < s.len() implies text::is_white(#[trigger] s[i]) by {
            if i < front.len() {
                assert(front[i] == s[i]);
            }
        }
        at
    } else {
        assert(s.take(s.len() as int) =~= s);
        s.len() as int
    }
}

/// A text is nothing but white space exactly where nothing is left of it when it is trimmed.
pub proof fn law_blank(s: Seq<char>)
    ensures
        text::trim(s).len() == 0 <==> forall|i: int|
            0 <= i < s.len() ==> text::is_white(#[trigger] s[i]),
{
    law_trim(s);
    let (from, to) = choose|from: int, to: int| #[trigger]
        trims(s, from, to) && text::trim(s) == s.subrange(from, to);
    if text::trim(s).len() > 0 {
        assert(s[from] == text::trim(s)[0]);
    }
}

/// One text stands in another exactly where the other is something, then it, then something.
pub proof fn law_occurs(needle: Seq<char>, s: Seq<char>)
    ensures
        text::occurs(needle, s) <==> exists|a: Seq<char>, b: Seq<char>|
            s == #[trigger] ((a + needle) + b),
{
    if text::occurs(needle, s) {
        let i = choose|i: int|
            0 <= i <= s.len() - needle.len() && #[trigger] s.subrange(i, i + needle.len()) == needle;
        let a = s.take(i);
        let b = s.skip(i + needle.len());
        assert forall|k: int| 0 <= k < s.len() implies s[k] == (a + needle + b)[k] by {
            if i <= k < i + needle.len() {
                assert(s.subrange(i, i + needle.len())[k - i] == needle[k - i]);
            }
        }
        assert(s =~= (a + needle) + b);
    }
    if exists|a: Seq<char>, b: Seq<char>| s == #[trigger] ((a + needle) + b) {
        let (a, b) = choose|a: Seq<char>, b: Seq<char>| s == #[trigger] ((a + needle) + b);
        let i = a.len() as int;
        assert(s.subrange(i, i + needle.len()) =~= needle);
    }
}

/// Whether a text is one decimal digit after the other, and at least one.
pub open spec fn run_of_digits(s: Seq<char>) -> bool {
    s.len() > 0 && forall|i: int| 0 <= i < s.len() ==> '0' <= #[trigger] s[i] <= '9'
}

/// The number that digits stand for, the first of them counting most.
pub open spec fn number(s: Seq<char>) -> int
    decreases s.len(),
{
    if s.len() == 0 {
        0
    } else {
        (s[0] as u32 - '0' as u32) * pow(10, (s.len() - 1) as nat) + number(s.drop_first())
    }
}

proof fn lemma_number(s: Seq<char>)
    requires
        forall|i: int| 0 <= i < s.len() ==> '0' <= #[trigger] s[i] <= '9',
    ensures
        text::digits_value(s) == number(s),
    decreases s.len(),
{
    reveal(pow);
    if s.len() == 1 {
        assert(s.drop_last() =~= Seq::empty());
        assert(s.drop_first() =~= Seq::empty());
        assert(number(s.drop_first()) == 0);
        assert(pow(10, 0) == 1);
    } else if s.len() > 1 {
        let middle = s.drop_first().drop_last();
        assert(s.drop_last().drop_first() =~= middle);
        lemma_number(s.drop_last());
        lemma_number(s.drop_first());
        let first = s[0] as u32 - '0' as u32;
        let last = s.last() as u32 - '0' as u32;
        let power = pow(10, (s.len() - 2) as nat);
        assert(pow(10, (s.len() - 1) as nat) == 10 * power);
        lemma_number(middle);
        assert(text::digits_value(s.drop_first()) == text::digits_value(middle) * 10 + last);
        assert(number(s.drop_last()) == first * power + number(middle));
        assert((first * power) * 10 == first * (10 * power)) by (nonlinear_arith);
    }
}

/// A text reads as a number of 64 bits without a sign exactly where it is digits, after a plus or
/// not, and the number is not too large; then it is that number.
pub proof fn law_decimal_u64(s: Seq<char>)
    ensures
        ({
            let plus = s.len() > 0 && s[0] == '+';
            let digits = if plus {
                s.skip(1)
            } else {
                s
            };
            let readable = run_of_digits(digits) && number(digits) <= 0xffff_ffff_ffff_ffff;
            &&& text::decimal_u64(s) is Some <==> readable
            &&& readable ==> text::decimal_u64(s)->0 == number(digits)
        }),
{
    let digits = if s.len() > 0 && s[0] == '+' {
        s.skip(1)
    } else {
        s
    };
    assert(s.len() > 0 ==> s.skip(1) =~= s.drop_first());
    if run_of_digits(digits) {
        lemma_number(digits);
        assert(text::all_digits(digits));
    } else if digits.len() > 0 {
        let i = choose|i: int| 0 <= i < digits.len() && !('0' <= #[trigger] digits[i] <= '9');
        assert(!text::is_digit(digits[i]));
    }
}

/// A text reads as a number of 64 bits with a sign exactly where it is digits, after a plus or a
/// minus or neither, and the number fits; then it is that number, below zero after a minus.
pub proof fn law_decimal_i64(s: Seq<char>)
    ensures
        ({
            let minus = s.len() > 0 && s[0] == '-';
            let digits = if s.len() > 0 && (s[0] == '+' || s[0] == '-') {
                s.skip(1)
            } else {
                s
            };
            let signed = if minus {
                0 - number(digits)
            } else {
                number(digits)
            };
            let readable = run_of_digits(digits) && -0x8000_0000_0000_0000 <= signed
                <= 0x7fff_ffff_ffff_ffff;
            &&& text::decimal_i64(s) is Some <==> readable
            &&& readable ==> text::decimal_i64(s)->0 == signed
        }),
{
    let digits = if s.len() > 0 && (s[0] == '+' || s[0] == '-') {
        s.skip(1)
    } else {
        s
    };
    assert(s.len() > 0 ==> s.skip(1) =~= s.drop_first());
    if run_of_digits(digits) {
        lemma_number(digits);
        assert(text::all_digits(digits));
    } else if digits.len() > 0 {
        let i = choose|i: int| 0 <= i < digits.len() && !('0' <= #[trigger] digits[i] <= '9');
        assert(!text::is_digit(digits[i]));
    }
}

/// A number is written in digits that stand for it, without a zero before them.
pub proof fn law_decimal(n: nat)
    ensures
        run_of_digits(text::decimal(n)),
        number(text::decimal(n)) == n,
        text::decimal(n).len() > 1 ==> text::decimal(n)[0] != '0',
    decreases n,
{
    text::lemma_decimal_digits(n);
    text::law_decimal_reads_back(n);
    let digits = text::decimal(n);
    assert forall|i: int| 0 <= i < digits.len() implies '0' <= #[trigger] digits[i] <= '9' by {
        assert(text::is_digit(digits[i]));
    }
    lemma_number(digits);
    if n >= 10 {
        law_decimal(n / 10);
        let front = text::decimal(n / 10);
        assert(digits[0] == front[0]);
        if front.len() == 1 {
            assert(front.drop_first() =~= Seq::empty());
            assert(number(front.drop_first()) == 0);
            reveal(pow);
            assert(pow(10, 0) == 1);
        }
    }
}

/// The bytes of a text are those of its UTF-8: as many as characters where all are ASCII.
pub proof fn law_byte_length(s: Seq<char>)
    ensures
        text::byte_length(s) == vstd::utf8::encode_utf8(s).len(),
        (forall|i: int| 0 <= i < s.len() ==> (#[trigger] s[i]) as u32 <= 127) ==> text::byte_length(
            s,
        ) == s.len(),
    decreases s.len(),
{
    if s.len() > 0 {
        law_byte_length(s.drop_first());
        if forall|i: int| 0 <= i < s.len() ==> (#[trigger] s[i]) as u32 <= 127 {
            assert forall|i: int| 0 <= i < s.drop_first().len() implies (
            #[trigger] s.drop_first()[i]) as u32 <= 127 by {
                assert(s[i + 1] as u32 <= 127);
            }
            assert(s[0] as u32 <= 127);
        }
    }
}

/// White space is the tab, the line feed and the two feeds and the return that follow it, the space,
/// and the characters beyond ASCII that are spaces or part lines or paragraphs.
pub proof fn law_white_space(c: char)
    ensures
        text::is_white(c) <==> {
            ||| c == '\u{9}' || c == '\u{a}' || c == '\u{b}' || c == '\u{c}' || c == '\u{d}'
            ||| c == ' '
            ||| c == '\u{85}' || c == '\u{a0}' || c == '\u{1680}'
            ||| '\u{2000}' <= c <= '\u{200a}'
            ||| c == '\u{2028}' || c == '\u{2029}' || c == '\u{202f}' || c == '\u{205f}'
            ||| c == '\u{3000}'
        },
{
}

/// An optional text has the characters of the text, where there is one.
pub proof fn law_optional(given: &str, string: String)
    ensures
        text::optional(Some(given)) == Some(given@),
        text::optional(None) is None,
        text::optional_string(Some(string)) == Some(string@),
        text::optional_string(None) is None,
{
}

} // verus!
