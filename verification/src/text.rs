//! Text operations on strings, stated over their sequences of characters.

use vstd::prelude::*;
use vstd::string::*;

verus! {

/// The characters with the Unicode property `White_Space`.
pub open spec fn is_white(c: char) -> bool {
    let code = c as u32;
    ||| 0x9 <= code <= 0xd
    ||| code == 0x20
    ||| code == 0x85
    ||| code == 0xa0
    ||| code == 0x1680
    ||| 0x2000 <= code <= 0x200a
    ||| code == 0x2028
    ||| code == 0x2029
    ||| code == 0x202f
    ||| code == 0x205f
    ||| code == 0x3000
}

/// The lower-case form of an ASCII letter; any other character is itself.
pub open spec fn lower(c: char) -> char {
    if 'A' <= c <= 'Z' {
        ((c as u32 + 32) as u32) as char
    } else {
        c
    }
}

/// Two texts that differ in nothing but the case of ASCII letters.
pub open spec fn equal_ignoring_case(a: Seq<char>, b: Seq<char>) -> bool {
    &&& a.len() == b.len()
    &&& forall|i: int| 0 <= i < a.len() ==> lower(#[trigger] a[i]) == lower(b[i])
}

/// `s` without the characters `c` that it ends in.
pub open spec fn without_trailing(s: Seq<char>, c: char) -> Seq<char>
    decreases s.len(),
{
    if s.len() > 0 && s.last() == c {
        without_trailing(s.drop_last(), c)
    } else {
        s
    }
}

/// The pieces of `s` between occurrences of `c`: always at least one.
pub open spec fn split(s: Seq<char>, c: char) -> Seq<Seq<char>>
    decreases s.len(),
{
    if s.len() == 0 {
        seq![Seq::empty()]
    } else {
        let front = split(s.drop_last(), c);
        if s.last() == c {
            front.push(Seq::empty())
        } else {
            front.drop_last().push(front.last().push(s.last()))
        }
    }
}

/// What stands in `s` before the first `c`; all of `s` where there is none.
pub open spec fn before(s: Seq<char>, c: char) -> Seq<char> {
    split(s, c)[0]
}

/// The longest runs of characters of `s` without white space, in order.
pub open spec fn words(s: Seq<char>) -> Seq<Seq<char>>
    decreases s.len(),
{
    if s.len() == 0 {
        Seq::empty()
    } else {
        let front = words(s.drop_last());
        if is_white(s.last()) {
            front
        } else if s.len() == 1 || is_white(s[s.len() - 2]) {
            front.push(seq![s.last()])
        } else {
            front.drop_last().push(front.last().push(s.last()))
        }
    }
}

/// `s` without the white space that it begins with.
pub open spec fn trim_start(s: Seq<char>) -> Seq<char>
    decreases s.len(),
{
    if s.len() > 0 && is_white(s[0]) {
        trim_start(s.drop_first())
    } else {
        s
    }
}

/// `s` without the white space that it ends in.
pub open spec fn trim_end(s: Seq<char>) -> Seq<char>
    decreases s.len(),
{
    if s.len() > 0 && is_white(s.last()) {
        trim_end(s.drop_last())
    } else {
        s
    }
}

/// `s` without the white space at its two ends.
pub open spec fn trim(s: Seq<char>) -> Seq<char> {
    trim_end(trim_start(s))
}

/// Whether `needle` stands somewhere in `s`.
pub open spec fn occurs(needle: Seq<char>, s: Seq<char>) -> bool {
    exists|i: int|
        0 <= i <= s.len() - needle.len() && #[trigger] s.subrange(i, i + needle.len()) == needle
}

pub open spec fn is_digit(c: char) -> bool {
    '0' <= c <= '9'
}

pub open spec fn digit_value(c: char) -> nat {
    (c as u32 - '0' as u32) as nat
}

pub open spec fn all_digits(s: Seq<char>) -> bool {
    forall|i: int| 0 <= i < s.len() ==> is_digit(#[trigger] s[i])
}

/// The number that a run of decimal digits writes.
pub open spec fn digits_value(s: Seq<char>) -> nat
    decreases s.len(),
{
    if s.len() == 0 {
        0
    } else {
        digits_value(s.drop_last()) * 10 + digit_value(s.last())
    }
}

/// A run of at least one digit, read as a number; `None` for any other text.
pub open spec fn digits(s: Seq<char>) -> Option<nat> {
    if s.len() > 0 && all_digits(s) {
        Some(digits_value(s))
    } else {
        None
    }
}

/// An optional `+` and digits, for a number that fits in 64 bits.
pub open spec fn decimal_u64(s: Seq<char>) -> Option<u64> {
    let magnitude = digits(
        if s.len() > 0 && s[0] == '+' {
            s.drop_first()
        } else {
            s
        },
    );
    match magnitude {
        Some(value) => if value <= u64::MAX {
            Some(value as u64)
        } else {
            None
        },
        None => None,
    }
}

/// An optional sign and digits, for a number that fits in 64 bits with its sign.
pub open spec fn decimal_i64(s: Seq<char>) -> Option<i64> {
    let negative = s.len() > 0 && s[0] == '-';
    let magnitude = digits(
        if s.len() > 0 && (s[0] == '+' || s[0] == '-') {
            s.drop_first()
        } else {
            s
        },
    );
    match magnitude {
        Some(value) => {
            let signed = if negative {
                -(value as int)
            } else {
                value as int
            };
            if i64::MIN <= signed <= i64::MAX {
                Some(signed as i64)
            } else {
                None
            }
        },
        None => None,
    }
}

/// The decimal digits of a number, without leading zeros.
pub open spec fn decimal(n: nat) -> Seq<char>
    decreases n,
{
    let last = (('0' as u32 + n % 10) as u32) as char;
    if n < 10 {
        seq![last]
    } else {
        decimal(n / 10).push(last)
    }
}

pub fn white(c: char) -> (r: bool)
    ensures
        r == is_white(c),
{
    let code: u32 = c as u32;
    (0x9 <= code && code <= 0xd) || code == 0x20 || code == 0x85 || code == 0xa0 || code == 0x1680
        || (0x2000 <= code && code <= 0x200a) || code == 0x2028 || code == 0x2029 || code == 0x202f
        || code == 0x205f || code == 0x3000
}

/// The characters of a text.
pub fn chars(text: &str) -> (r: Vec<char>)
    ensures
        r@ == text@,
{
    let mut out: Vec<char> = Vec::new();
    for c in it: text.chars()
        invariant
            it.seq() == text@,
            out@ == text@.take(it.index()),
    {
        out.push(c);
        assert(text@.take(it.index() + 1) == text@.take(it.index()).push(c));
    }
    assert(text@.take(text@.len() as int) == text@);
    out
}

/// Whether two texts are the same.
pub fn same(a: &str, b: &str) -> (r: bool)
    ensures
        r == (a@ == b@),
{
    let left = a.as_bytes();
    let right = b.as_bytes();
    proof {
        vstd::utf8::encode_utf8_decode_utf8(a@);
        vstd::utf8::encode_utf8_decode_utf8(b@);
    }
    if left.len() != right.len() {
        return false;
    }
    let mut i: usize = 0;
    while i < left.len()
        invariant
            left@.len() == right@.len(),
            i <= left@.len(),
            forall|j: int| 0 <= j < i ==> left@[j] == right@[j],
            left@ == a.spec_bytes(),
            right@ == b.spec_bytes(),
        decreases left@.len() - i,
    {
        if left[i] != right[i] {
            return false;
        }
        i += 1;
    }
    assert(left@ =~= right@);
    true
}

/// The characters of an optional text.
pub open spec fn optional(text: Option<&str>) -> Option<Seq<char>> {
    match text {
        Some(text) => Some(text@),
        None => None,
    }
}

/// The characters of an optional string.
pub open spec fn optional_string(text: Option<String>) -> Option<Seq<char>> {
    match text {
        Some(text) => Some(text@),
        None => None,
    }
}

/// An optional string as an optional text.
pub fn as_optional(text: &Option<String>) -> (r: Option<&str>)
    ensures
        optional(r) == optional_string(*text),
{
    match text {
        Some(text) => Some(text.as_str()),
        None => None,
    }
}

/// A copy of an optional text.
pub fn to_optional(text: Option<&str>) -> (r: Option<String>)
    ensures
        optional_string(r) == optional(text),
{
    match text {
        Some(text) => Some(text.to_owned()),
        None => None,
    }
}

/// Whether an optional text is a given one.
pub fn is_text(a: Option<&str>, b: &str) -> (r: bool)
    ensures
        r == (optional(a) == Some(b@)),
{
    match a {
        Some(text) => same(text, b),
        None => false,
    }
}

fn lower_case(c: char) -> (r: u32)
    ensures
        r == lower(c) as u32,
{
    if 'A' <= c && c <= 'Z' {
        c as u32 + 32
    } else {
        c as u32
    }
}

/// Whether two texts differ in nothing but the case of ASCII letters.
pub fn same_ignoring_case(a: &str, b: &str) -> (r: bool)
    ensures
        r == equal_ignoring_case(a@, b@),
{
    let left = chars(a);
    let right = chars(b);
    if left.len() != right.len() {
        return false;
    }
    let mut i: usize = 0;
    while i < left.len()
        invariant
            left@ == a@,
            right@ == b@,
            left@.len() == right@.len(),
            i <= left@.len(),
            forall|j: int| 0 <= j < i ==> lower(#[trigger] left@[j]) == lower(right@[j]),
        decreases left@.len() - i,
    {
        if lower_case(left[i]) != lower_case(right[i]) {
            return false;
        }
        i += 1;
    }
    true
}

/// A text without the characters `c` that it ends in.
pub fn trim_end_matches(text: &str, c: char) -> (r: &str)
    ensures
        r@ == without_trailing(text@, c),
{
    let all = chars(text);
    let mut end: usize = all.len();
    assert(text@.take(end as int) == text@);
    while end > 0 && all[end - 1] == c
        invariant
            all@ == text@,
            end <= all@.len(),
            without_trailing(text@, c) == without_trailing(text@.take(end as int), c),
        decreases end,
    {
        assert(text@.take(end as int).drop_last() == text@.take(end - 1));
        end -= 1;
    }
    text.substring_char(0, end)
}

/// The pieces of a text between occurrences of `c`.
pub fn pieces(text: &str, c: char) -> (r: Vec<&str>)
    ensures
        r.deep_view() == split(text@, c),
        r@.len() >= 1,
{
    let all = chars(text);
    let mut done: Vec<&str> = Vec::new();
    let mut start: usize = 0;
    let mut i: usize = 0;
    assert(text@.subrange(0, 0) =~= Seq::<char>::empty());
    assert(done.deep_view().push(text@.subrange(0, 0)) =~= split(text@.take(0), c));
    while i < all.len()
        invariant
            all@ == text@,
            start <= i <= all@.len(),
            done.deep_view().push(text@.subrange(start as int, i as int)) == split(
                text@.take(i as int),
                c,
            ),
        decreases all@.len() - i,
    {
        let ghost front = split(text@.take(i as int), c);
        assert(text@.take(i + 1).drop_last() =~= text@.take(i as int));
        assert(text@.take(i + 1).last() == all@[i as int]);
        assert(front.drop_last() =~= done.deep_view());
        if all[i] == c {
            let ghost earlier = done.deep_view();
            done.push(text.substring_char(start, i));
            assert(done.deep_view() =~= earlier.push(text@.subrange(start as int, i as int)));
            start = i + 1;
            assert(text@.subrange(i + 1, i + 1) =~= Seq::<char>::empty());
        } else {
            assert(text@.subrange(start as int, i + 1) =~= text@.subrange(
                start as int,
                i as int,
            ).push(all@[i as int]));
        }
        i += 1;
    }
    assert(text@.take(i as int) =~= text@);
    let ghost earlier = done.deep_view();
    done.push(text.substring_char(start, i));
    assert(done.deep_view() =~= earlier.push(text@.subrange(start as int, i as int)));
    done
}

/// What stands in a text before the first `c`.
pub fn text_before(text: &str, c: char) -> (r: &str)
    ensures
        r@ == before(text@, c),
{
    let all = pieces(text, c);
    assert(all.deep_view()[0] == all@[0]@);
    all[0]
}

/// The words of a text, which white space separates.
pub fn split_words(text: &str) -> (r: Vec<&str>)
    ensures
        r.deep_view() == words(text@),
{
    let all = chars(text);
    let mut done: Vec<&str> = Vec::new();
    let mut start: usize = 0;
    let mut i: usize = 0;
    assert(done.deep_view() =~= words(text@.take(0)));
    while i < all.len()
        invariant
            all@ == text@,
            start <= i <= all@.len(),
            start < i ==> !is_white(text@[i - 1]),
            start == i && i > 0 ==> is_white(text@[i - 1]),
            start == i ==> done.deep_view() == words(text@.take(i as int)),
            start < i ==> done.deep_view().push(text@.subrange(start as int, i as int)) == words(
                text@.take(i as int),
            ),
        decreases all@.len() - i,
    {
        let ghost front = words(text@.take(i as int));
        let ghost earlier = done.deep_view();
        let ghost now = text@.take(i + 1);
        assert(now.drop_last() =~= text@.take(i as int));
        assert(now.last() == all@[i as int]);
        assert(i > 0 ==> now[now.len() - 2] == text@[i - 1]);
        if white(all[i]) {
            if start < i {
                done.push(text.substring_char(start, i));
                assert(done.deep_view() =~= earlier.push(text@.subrange(start as int, i as int)));
            }
            start = i + 1;
        } else if start == i {
            assert(text@.subrange(start as int, i + 1) =~= seq![now.last()]);
        } else {
            assert(front.drop_last() =~= earlier);
            assert(text@.subrange(start as int, i + 1) =~= text@.subrange(
                start as int,
                i as int,
            ).push(all@[i as int]));
        }
        i += 1;
    }
    assert(text@.take(i as int) =~= text@);
    if start < i {
        let ghost earlier = done.deep_view();
        done.push(text.substring_char(start, i));
        assert(done.deep_view() =~= earlier.push(text@.subrange(start as int, i as int)));
    }
    done
}

/// A text without the white space at its two ends.
pub fn trimmed(text: &str) -> (r: &str)
    ensures
        r@ == trim(text@),
{
    let all = chars(text);
    let mut start: usize = 0;
    assert(text@.skip(0) =~= text@);
    while start < all.len() && white(all[start])
        invariant
            all@ == text@,
            start <= all@.len(),
            trim_start(text@) == trim_start(text@.skip(start as int)),
        decreases all@.len() - start,
    {
        assert(text@.skip(start as int).drop_first() =~= text@.skip(start + 1));
        start += 1;
    }
    let mut end: usize = all.len();
    assert(text@.subrange(start as int, end as int) =~= text@.skip(start as int));
    while end > start && white(all[end - 1])
        invariant
            all@ == text@,
            start <= end <= all@.len(),
            trim(text@) == trim_end(text@.subrange(start as int, end as int)),
        decreases end,
    {
        assert(text@.subrange(start as int, end as int).drop_last() =~= text@.subrange(
            start as int,
            end - 1,
        ));
        end -= 1;
    }
    text.substring_char(start, end)
}

/// The number of bytes that characters take in UTF-8.
pub open spec fn byte_length(s: Seq<char>) -> nat {
    vstd::utf8::encode_utf8(s).len()
}

/// Whether a text takes at most as many bytes in UTF-8.
pub fn fits_in(text: &str, bytes: usize) -> (r: bool)
    ensures
        r == (byte_length(text@) <= bytes),
{
    text.as_bytes().len() <= bytes
}

/// Whether `c` stands somewhere in a text.
pub fn contains_char(text: &str, c: char) -> (r: bool)
    ensures
        r == text@.contains(c),
{
    let all = chars(text);
    let mut i: usize = 0;
    while i < all.len()
        invariant
            all@ == text@,
            i <= all@.len(),
            forall|j: int| 0 <= j < i ==> text@[j] != c,
        decreases all@.len() - i,
    {
        if all[i] == c {
            assert(text@[i as int] == c);
            return true;
        }
        i += 1;
    }
    false
}

/// Whether one text stands somewhere in another.
pub fn contains_text(text: &str, needle: &str) -> (r: bool)
    ensures
        r == occurs(needle@, text@),
{
    let all = chars(text);
    let wanted = chars(needle);
    if wanted.len() > all.len() {
        return false;
    }
    let mut i: usize = 0;
    while i <= all.len() - wanted.len()
        invariant
            all@ == text@,
            wanted@ == needle@,
            wanted@.len() <= all@.len(),
            i <= all@.len() - wanted@.len() + 1,
            forall|k: int|
                0 <= k < i ==> #[trigger] text@.subrange(k, k + needle@.len()) != needle@,
        decreases all@.len() - i,
    {
        let mut j: usize = 0;
        while j < wanted.len() && all[i + j] == wanted[j]
            invariant
                all@ == text@,
                wanted@ == needle@,
                i + wanted.len() <= all.len(),
                j <= wanted@.len(),
                forall|k: int| 0 <= k < j ==> text@[i + k] == needle@[k],
            decreases wanted@.len() - j,
        {
            j += 1;
        }
        if j == wanted.len() {
            assert(text@.subrange(i as int, i + needle@.len()) =~= needle@);
            return true;
        }
        assert(text@.subrange(i as int, i + needle@.len())[j as int] != needle@[j as int]);
        i += 1;
    }
    false
}

/// A run of decimal digits as a number; `None` for any other text, and for a number past 64 bits.
fn magnitude(all: &Vec<char>, from: usize) -> (r: Option<u64>)
    requires
        from <= all@.len(),
    ensures
        match digits(all@.skip(from as int)) {
            Some(value) => if value <= u64::MAX {
                r == Some(value as u64)
            } else {
                r is None
            },
            None => r is None,
        },
{
    let ghost run = all@.skip(from as int);
    if from == all.len() {
        return None;
    }
    let mut value: Option<u64> = Some(0);
    let mut i: usize = from;
    assert(all@.subrange(from as int, from as int) =~= Seq::<char>::empty());
    while i < all.len()
        invariant
            from <= i <= all@.len(),
            run == all@.skip(from as int),
            forall|j: int| from <= j < i ==> is_digit(#[trigger] all@[j]),
            match value {
                Some(v) => v == digits_value(run.take(i - from)),
                None => digits_value(run.take(i - from)) > u64::MAX,
            },
        decreases all@.len() - i,
    {
        let c = all[i];
        assert(c == run[i - from]);
        if !('0' <= c && c <= '9') {
            return None;
        }
        assert(run.take(i + 1 - from).drop_last() =~= run.take(i - from));
        let digit: u64 = (c as u32 - '0' as u32) as u64;
        value =
        match value {
            Some(v) => match v.checked_mul(10) {
                Some(shifted) => shifted.checked_add(digit),
                None => None,
            },
            None => None,
        };
        i += 1;
    }
    assert(run.take(i - from) =~= run);
    assert forall|j: int| 0 <= j < run.len() implies is_digit(#[trigger] run[j]) by {
        assert(is_digit(all@[from + j]));
    }
    value
}

/// A decimal number of 64 bits without a sign; a leading `+` is allowed.
pub fn parse_u64(text: &str) -> (r: Option<u64>)
    ensures
        r == decimal_u64(text@),
{
    let all = chars(text);
    assert(text@.skip(0) =~= text@);
    let from: usize = if all.len() > 0 && all[0] == '+' {
        1
    } else {
        0
    };
    assert(from == 1 ==> text@.skip(1) =~= text@.drop_first());
    magnitude(&all, from)
}

/// A decimal number of 64 bits with an optional sign.
pub fn parse_i64(text: &str) -> (r: Option<i64>)
    ensures
        r == decimal_i64(text@),
{
    let all = chars(text);
    assert(text@.skip(0) =~= text@);
    let negative = all.len() > 0 && all[0] == '-';
    let from: usize = if all.len() > 0 && (all[0] == '+' || all[0] == '-') {
        1
    } else {
        0
    };
    assert(from == 1 ==> text@.skip(1) =~= text@.drop_first());
    match magnitude(&all, from) {
        Some(value) => {
            if !negative {
                if value <= 0x7fff_ffff_ffff_ffff {
                    Some(value as i64)
                } else {
                    None
                }
            } else if value <= 0x7fff_ffff_ffff_ffff {
                Some(-(value as i64))
            } else if value == 0x8000_0000_0000_0000 {
                Some(i64::MIN)
            } else {
                None
            }
        },
        None => None,
    }
}

pub proof fn lemma_decimal_digits(n: nat)
    ensures
        all_digits(decimal(n)),
        decimal(n).len() > 0,
    decreases n,
{
    if n >= 10 {
        lemma_decimal_digits(n / 10);
    }
}

/// A number is read back from its digits.
pub proof fn law_decimal_reads_back(n: nat)
    ensures
        digits(decimal(n)) == Some(n),
    decreases n,
{
    lemma_decimal_digits(n);
    let last = (('0' as u32 + n % 10) as u32) as char;
    assert(digit_value(last) == n % 10);
    if n < 10 {
        assert(decimal(n).drop_last() =~= Seq::empty());
        assert(digits_value(decimal(n).drop_last()) == 0);
    } else {
        law_decimal_reads_back(n / 10);
        assert(decimal(n).drop_last() =~= decimal(n / 10));
    }
}

fn digit_text(digit: usize) -> (r: &'static str)
    requires
        digit < 10,
    ensures
        r@ == seq![(('0' as u32 + digit) as u32) as char],
{
    proof {
        reveal_strlit("0");
        reveal_strlit("1");
        reveal_strlit("2");
        reveal_strlit("3");
        reveal_strlit("4");
        reveal_strlit("5");
        reveal_strlit("6");
        reveal_strlit("7");
        reveal_strlit("8");
        reveal_strlit("9");
    }
    match digit {
        0 => "0",
        1 => "1",
        2 => "2",
        3 => "3",
        4 => "4",
        5 => "5",
        6 => "6",
        7 => "7",
        8 => "8",
        _ => "9",
    }
}

/// A number in decimal digits.
pub fn decimal_text(n: usize) -> (r: String)
    ensures
        r@ == decimal(n as nat),
    decreases n,
{
    if n < 10 {
        digit_text(n).to_owned()
    } else {
        let front = decimal_text(n / 10);
        let r = front.concat(digit_text(n % 10));
        assert(r@ =~= decimal(n as nat));
        r
    }
}

} // verus!
