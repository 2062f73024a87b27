//! Text helpers over sequences of characters: letter case, trimming,
//! splitting on a separator and decimal numerals.

use vstd::prelude::*;
use vstd::std_specs::iter::IteratorSpec;

verus! {

/// `String::push` of std appends the given character to the end of the string
/// and changes nothing else of it.
pub assume_specification[ String::push ](s: &mut String, ch: char)
    ensures
        final(s)@ == old(s)@.push(ch),
;

/// The upper-case form of an ASCII lower-case letter; any other character is itself.
pub open spec fn ascii_upper(c: char) -> char {
    if 'a' <= c && c <= 'z' {
        ((c as u8) - 32) as char
    } else {
        c
    }
}

/// The lower-case form of an ASCII upper-case letter; any other character is itself.
pub open spec fn ascii_lower(c: char) -> char {
    if 'A' <= c && c <= 'Z' {
        ((c as u8) + 32) as char
    } else {
        c
    }
}

/// `s` with its first character in ASCII upper case and all others in ASCII lower case.
pub open spec fn capitalized(s: Seq<char>) -> Seq<char> {
    Seq::new(
        s.len(),
        |i: int|
            if i == 0 {
                ascii_upper(s[i])
            } else {
                ascii_lower(s[i])
            },
    )
}

/// Whether `c` has the Unicode property White_Space.
pub open spec fn is_whitespace(c: char) -> bool {
    let n = c as u32;
    ||| 0x09 <= n <= 0x0D
    ||| n == 0x20
    ||| n == 0x85
    ||| n == 0xA0
    ||| n == 0x1680
    ||| 0x2000 <= n <= 0x200A
    ||| n == 0x2028
    ||| n == 0x2029
    ||| n == 0x202F
    ||| n == 0x205F
    ||| n == 0x3000
}

/// `s` without the white space it begins with.
pub open spec fn trimmed_start(s: Seq<char>) -> Seq<char>
    decreases s.len(),
{
    if s.len() > 0 && is_whitespace(s[0]) {
        trimmed_start(s.drop_first())
    } else {
        s
    }
}

/// `s` without the white space it ends with.
pub open spec fn trimmed_end(s: Seq<char>) -> Seq<char>
    decreases s.len(),
{
    if s.len() > 0 && is_whitespace(s.last()) {
        trimmed_end(s.drop_last())
    } else {
        s
    }
}

/// `s` without the white space at either end.
pub open spec fn trimmed(s: Seq<char>) -> Seq<char> {
    trimmed_end(trimmed_start(s))
}

/// The pieces of `s` between the occurrences of `sep`, in order. There is one
/// piece more than there are separators, so the empty text has one empty piece.
pub open spec fn split(s: Seq<char>, sep: char) -> Seq<Seq<char>>
    decreases s.len(),
{
    if s.len() == 0 {
        seq![Seq::empty()]
    } else {
        let before = split(s.drop_last(), sep);
        if s.last() == sep {
            before.push(Seq::empty())
        } else {
            before.drop_last().push(before.last().push(s.last()))
        }
    }
}

/// The pieces joined again, with `sep` between neighbours.
pub open spec fn joined(pieces: Seq<Seq<char>>, sep: char) -> Seq<char>
    decreases pieces.len(),
{
    if pieces.len() == 0 {
        Seq::empty()
    } else if pieces.len() == 1 {
        pieces[0]
    } else {
        joined(pieces.drop_last(), sep).push(sep) + pieces.last()
    }
}

/// The character of the decimal digit `d`.
pub open spec fn digit_char(d: int) -> char
    recommends
        0 <= d <= 9,
{
    (('0' as u8) + d) as char
}

/// The decimal numeral of `n`, without leading zeros.
pub open spec fn decimal_nat(n: nat) -> Seq<char>
    decreases n,
{
    if n < 10 {
        seq![digit_char(n as int)]
    } else {
        decimal_nat(n / 10).push(digit_char((n % 10) as int))
    }
}

/// The decimal numeral of `i`, with a minus sign if it is negative.
pub open spec fn decimal(i: int) -> Seq<char> {
    if i < 0 {
        seq!['-'] + decimal_nat((-i) as nat)
    } else {
        decimal_nat(i as nat)
    }
}

/// The texts of a list of strings.
pub open spec fn texts_of(v: Seq<String>) -> Seq<Seq<char>> {
    v.map_values(|s: String| s@)
}

/// Trimming takes white space away from both ends and nothing else: what is
/// left is a stretch of the text, all that was cut off is white space, and
/// what is left neither begins nor ends with white space.
pub proof fn lemma_trimmed(s: Seq<char>)
    ensures
        exists|from: int, to: int|
            {
                &&& 0 <= from <= to <= s.len()
                &&& #[trigger] s.subrange(from, to) == trimmed(s)
                &&& forall|i: int| 0 <= i < from ==> is_whitespace(#[trigger] s[i])
                &&& forall|i: int| to <= i < s.len() ==> is_whitespace(#[trigger] s[i])
            },
        trimmed(s).len() > 0 ==> !is_whitespace(trimmed(s)[0]) && !is_whitespace(trimmed(s).last()),
{
    let from = lemma_trimmed_start(s);
    let rest = s.subrange(from, s.len() as int);
    let cut = lemma_trimmed_end(rest);
    let to = from + cut;
    assert(rest.subrange(0, cut) == s.subrange(from, to));
    assert forall|i: int| to <= i < s.len() implies is_whitespace(#[trigger] s[i]) by {
        assert(s[i] == rest[i - from]);
    }
    if trimmed(s).len() > 0 {
        assert(trimmed(s)[0] == rest[0]);
    }
}

/// Where the text without its leading white space begins.
proof fn lemma_trimmed_start(s: Seq<char>) -> (from: int)
    ensures
        0 <= from <= s.len(),
        trimmed_start(s) == s.subrange(from, s.len() as int),
        forall|i: int| 0 <= i < from ==> is_whitespace(#[trigger] s[i]),
        from < s.len() ==> !is_whitespace(s[from]),
    decreases s.len(),
{
    if s.len() > 0 && is_whitespace(s[0]) {
        let rest = s.drop_first();
        let from = lemma_trimmed_start(rest);
        assert(rest.subrange(from, rest.len() as int) == s.subrange(from + 1, s.len() as int));
        assert forall|i: int| 0 <= i < from + 1 implies is_whitespace(#[trigger] s[i]) by {
            if i > 0 {
                assert(s[i] == rest[i - 1]);
            }
        }
        if from < rest.len() {
            assert(rest[from] == s[from + 1]);
        }
        from + 1
    } else {
        assert(s.subrange(0, s.len() as int) == s);
        0
    }
}

/// Where the text without its trailing white space ends.
proof fn lemma_trimmed_end(s: Seq<char>) -> (to: int)
    ensures
        0 <= to <= s.len(),
        trimmed_end(s) == s.subrange(0, to),
        forall|i: int| to <= i < s.len() ==> is_whitespace(#[trigger] s[i]),
        to > 0 ==> !is_whitespace(s[to - 1]),
    decreases s.len(),
{
    if s.len() > 0 && is_whitespace(s.last()) {
        let rest = s.drop_last();
        let to = lemma_trimmed_end(rest);
        assert(rest.subrange(0, to) == s.subrange(0, to));
        assert forall|i: int| to <= i < s.len() implies is_whitespace(#[trigger] s[i]) by {
            if i < rest.len() {
                assert(s[i] == rest[i]);
            }
        }
        if to > 0 {
            assert(rest[to - 1] == s[to - 1]);
        }
        to
    } else {
        assert(s.subrange(0, s.len() as int) == s);
        s.len() as int
    }
}

/// Splitting cuts at every separator and nowhere else: no piece holds the
/// separator, and the pieces joined by it give the text back.
pub proof fn lemma_split_joins_back(s: Seq<char>, sep: char)
    ensures
        split(s, sep).len() >= 1,
        forall|i: int| 0 <= i < split(s, sep).len() ==> !(#[trigger] split(s, sep)[i]).contains(sep),
        joined(split(s, sep), sep) == s,
    decreases s.len(),
{
    let pieces = split(s, sep);
    if s.len() == 0 {
        assert(pieces[0] == Seq::<char>::empty());
        assert(joined(pieces, sep) == pieces[0]);
    } else {
        let front = s.drop_last();
        let before = split(front, sep);
        lemma_split_joins_back(front, sep);
        if s.last() == sep {
            assert(pieces.drop_last() == before);
            assert(joined(pieces, sep) == joined(before, sep).push(sep) + Seq::<char>::empty());
            assert(front.push(sep) == s);
            assert forall|i: int| 0 <= i < pieces.len() implies !(#[trigger] pieces[i]).contains(
                sep,
            ) by {
                if i < before.len() {
                    assert(pieces[i] == before[i]);
                }
            }
        } else {
            let grown = before.last().push(s.last());
            assert(pieces.last() == grown);
            assert(pieces.drop_last() == before.drop_last());
            assert forall|i: int| 0 <= i < pieces.len() implies !(#[trigger] pieces[i]).contains(
                sep,
            ) by {
                if i < before.len() - 1 {
                    assert(pieces[i] == before[i]);
                } else {
                    assert(!before.last().contains(sep));
                    if grown.contains(sep) {
                        let k = choose|k: int| 0 <= k < grown.len() && grown[k] == sep;
                        assert(before.last()[k] == sep);
                    }
                }
            }
            if before.len() == 1 {
                assert(joined(before, sep) == before[0]);
                assert(joined(pieces, sep) == pieces[0]);
                assert(front.push(s.last()) == s);
            } else {
                let head = joined(before.drop_last(), sep).push(sep);
                assert(joined(before, sep) == head + before.last());
                assert(joined(pieces, sep) == head + grown);
                assert(head + grown == (head + before.last()).push(s.last()));
                assert(front.push(s.last()) == s);
            }
        }
    }
}

/// The number that a decimal numeral stands for.
pub open spec fn decimal_value(digits: Seq<char>) -> nat
    decreases digits.len(),
{
    if digits.len() == 0 {
        0
    } else {
        (decimal_value(digits.drop_last()) * 10 + (digits.last() as u8 - '0' as u8)) as nat
    }
}

/// A decimal numeral holds digits only, begins with no zero unless it is "0",
/// and stands for its number.
pub proof fn lemma_decimal_nat(n: nat)
    ensures
        decimal_nat(n).len() >= 1,
        forall|i: int| 0 <= i < decimal_nat(n).len() ==> '0' <= #[trigger] decimal_nat(n)[i] <= '9',
        decimal_nat(n)[0] == '0' <==> n == 0,
        decimal_value(decimal_nat(n)) == n,
    decreases n,
{
    let digits = decimal_nat(n);
    if n < 10 {
        assert(digits.drop_last() == Seq::<char>::empty());
        assert(decimal_value(digits.drop_last()) == 0);
    } else {
        let front = decimal_nat(n / 10);
        lemma_decimal_nat(n / 10);
        assert(digits.drop_last() == front);
        assert(digits[0] == front[0]);
        assert forall|i: int| 0 <= i < digits.len() implies '0' <= #[trigger] digits[i] <= '9' by {
            if i < front.len() {
                assert(digits[i] == front[i]);
            }
        }
    }
}

/// The characters of `s`, in order.
pub fn chars_of(s: &str) -> (v: Vec<char>)
    ensures
        v@ == s@,
{
    let mut v: Vec<char> = Vec::new();
    let mut it = s.chars();
    loop
        invariant
            v@ + it.remaining() == s@,
            it.obeys_prophetic_iter_laws(),
            it.decrease() is Some,
        ensures
            v@ == s@,
        decreases it.decrease()->0,
    {
        match it.next() {
            Some(c) => {
                v.push(c);
            },
            None => {
                break ;
            },
        }
    }
    v
}

/// The string of the characters `v[from..to]`.
pub(crate) fn string_of(v: &Vec<char>, from: usize, to: usize) -> (s: String)
    requires
        from <= to <= v.len(),
    ensures
        s@ == v@.subrange(from as int, to as int),
{
    let mut s = String::new();
    let mut i: usize = from;
    while i < to
        invariant
            from <= i <= to <= v.len(),
            s@ == v@.subrange(from as int, i as int),
        decreases to - i,
    {
        s.push(v[i]);
        i += 1;
    }
    s
}

/// Whether the two strings hold the same text.
pub fn same_text(a: &str, b: &str) -> (r: bool)
    ensures
        r == (a@ == b@),
{
    let x = chars_of(a);
    let y = chars_of(b);
    if x.len() != y.len() {
        return false;
    }
    let mut i: usize = 0;
    while i < x.len()
        invariant
            i <= x.len() == y.len(),
            x@ == a@,
            y@ == b@,
            x@.subrange(0, i as int) == y@.subrange(0, i as int),
        decreases x.len() - i,
    {
        if x[i] != y[i] {
            assert(a@[i as int] != b@[i as int]);
            return false;
        }
        assert(x@.subrange(0, i + 1) == x@.subrange(0, i as int).push(x@[i as int]));
        assert(y@.subrange(0, i + 1) == y@.subrange(0, i as int).push(y@[i as int]));
        i += 1;
    }
    assert(x@ == x@.subrange(0, i as int));
    assert(y@ == y@.subrange(0, i as int));
    true
}

/// The upper-case form of an ASCII lower-case letter; any other character is itself.
pub fn to_ascii_upper(c: char) -> (r: char)
    ensures
        r == ascii_upper(c),
{
    if 'a' <= c && c <= 'z' {
        ((c as u8) - 32) as char
    } else {
        c
    }
}

/// The lower-case form of an ASCII upper-case letter; any other character is itself.
pub fn to_ascii_lower(c: char) -> (r: char)
    ensures
        r == ascii_lower(c),
{
    if 'A' <= c && c <= 'Z' {
        ((c as u8) + 32) as char
    } else {
        c
    }
}

/// `input` with its first character in ASCII upper case and all others in
/// ASCII lower case. Characters outside ASCII are kept as they are.
pub fn capitalize_str(input: &str) -> (out: String)
    ensures
        out@ == capitalized(input@),
{
    let chars = chars_of(input);
    let mut out = String::new();
    let mut i: usize = 0;
    while i < chars.len()
        invariant
            i <= chars.len(),
            chars@ == input@,
            out@ == capitalized(input@).subrange(0, i as int),
        decreases chars.len() - i,
    {
        let c = if i == 0 {
            to_ascii_upper(chars[i])
        } else {
            to_ascii_lower(chars[i])
        };
        out.push(c);
        assert(capitalized(input@).subrange(0, i + 1) == capitalized(input@).subrange(
            0,
            i as int,
        ).push(c));
        i += 1;
    }
    assert(capitalized(input@).subrange(0, i as int) == capitalized(input@));
    out
}

/// Whether `c` has the Unicode property White_Space.
pub fn char_is_whitespace(c: char) -> (r: bool)
    ensures
        r == is_whitespace(c),
{
    let n: u32 = c as u32;
    (0x09 <= n && n <= 0x0D) || n == 0x20 || n == 0x85 || n == 0xA0 || n == 0x1680 || (0x2000 <= n
        && n <= 0x200A) || n == 0x2028 || n == 0x2029 || n == 0x202F || n == 0x205F || n == 0x3000
}

/// `s` without the white space at either end.
pub fn trim(s: &str) -> (out: String)
    ensures
        out@ == trimmed(s@),
{
    let chars = chars_of(s);
    let mut from: usize = 0;
    assert(chars@.subrange(0, chars.len() as int) == chars@);
    while from < chars.len() && char_is_whitespace(chars[from])
        invariant
            from <= chars.len(),
            trimmed_start(chars@) == trimmed_start(chars@.subrange(from as int, chars.len() as int)),
        decreases chars.len() - from,
    {
        assert(chars@.subrange(from as int, chars.len() as int).drop_first() == chars@.subrange(
            from + 1,
            chars.len() as int,
        ));
        from += 1;
    }
    let ghost rest = chars@.subrange(from as int, chars.len() as int);
    assert(trimmed_start(chars@) == rest);
    let mut to: usize = chars.len();
    while from < to && char_is_whitespace(chars[to - 1])
        invariant
            from <= to <= chars.len(),
            rest == chars@.subrange(from as int, chars.len() as int),
            trimmed_end(rest) == trimmed_end(chars@.subrange(from as int, to as int)),
        decreases to - from,
    {
        assert(chars@.subrange(from as int, to as int).drop_last() == chars@.subrange(
            from as int,
            to - 1,
        ));
        to -= 1;
    }
    string_of(&chars, from, to)
}

/// The pieces of `s` between the occurrences of `sep`, in order.
pub fn split_on(s: &str, sep: char) -> (pieces: Vec<String>)
    ensures
        texts_of(pieces@) == split(s@, sep),
{
    let chars = chars_of(s);
    let mut pieces: Vec<String> = Vec::new();
    let mut start: usize = 0;
    let mut i: usize = 0;
    assert(texts_of(pieces@) == Seq::<Seq<char>>::empty());
    assert(chars@.subrange(0, 0) == Seq::<char>::empty());
    assert(texts_of(pieces@).push(chars@.subrange(0, 0)) == seq![Seq::<char>::empty()]);
    while i < chars.len()
        invariant
            start <= i <= chars.len(),
            chars@ == s@,
            split(chars@.subrange(0, i as int), sep) == texts_of(pieces@).push(
                chars@.subrange(start as int, i as int),
            ),
        decreases chars.len() - i,
    {
        let ghost prefix = chars@.subrange(0, i + 1);
        assert(prefix.drop_last() == chars@.subrange(0, i as int));
        assert(prefix.last() == chars@[i as int]);
        let ghost before = texts_of(pieces@).push(chars@.subrange(start as int, i as int));
        assert(before.drop_last() == texts_of(pieces@));
        if chars[i] == sep {
            let piece = string_of(&chars, start, i);
            let ghost old_pieces = pieces@;
            pieces.push(piece);
            assert(texts_of(pieces@) == texts_of(old_pieces).push(piece@));
            start = i + 1;
            assert(chars@.subrange(start as int, i + 1) == Seq::<char>::empty());
        } else {
            assert(chars@.subrange(start as int, i + 1) == chars@.subrange(
                start as int,
                i as int,
            ).push(chars@[i as int]));
        }
        i += 1;
    }
    assert(chars@.subrange(0, i as int) == chars@);
    let piece = string_of(&chars, start, i);
    let ghost old_pieces = pieces@;
    pieces.push(piece);
    assert(texts_of(pieces@) == texts_of(old_pieces).push(piece@));
    pieces
}

/// Appends the decimal numeral of `n` to `out`.
pub fn push_decimal(out: &mut String, n: u32)
    ensures
        final(out)@ == old(out)@ + decimal_nat(n as nat),
    decreases n,
{
    if n >= 10 {
        push_decimal(out, n / 10);
    }
    let d: u8 = (n % 10) as u8;
    out.push((('0' as u8) + d) as char);
}

/// The decimal numeral of `i`.
pub fn decimal_string(i: i32) -> (out: String)
    ensures
        out@ == decimal(i as int),
{
    let mut out = String::new();
    if i < 0 {
        out.push('-');
        let magnitude: u32 = if i == i32::MIN {
            2147483648u32
        } else {
            (-i) as u32
        };
        push_decimal(&mut out, magnitude);
    } else {
        push_decimal(&mut out, i as u32);
    }
    out
}

} // verus!
