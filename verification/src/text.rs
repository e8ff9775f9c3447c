//! The little of text handling that the rest of the library needs, on sequences of characters.

use crate::geometry;
use vstd::prelude::*;

verus! {

/// `String::push` appends the character to the end of the string.
pub assume_specification[ String::push ](s: &mut String, c: char)
    ensures
        final(s)@ == old(s)@.push(c),
;

/// The characters of a string.
pub fn chars_of(s: &str) -> (r: Vec<char>)
    ensures
        r@ == s@,
{
    let mut r: Vec<char> = Vec::new();
    for c in it: s.chars()
        invariant
            it.seq() == s@,
            r@ == s@.take(it.index() as int),
    {
        r.push(c);
        assert(s@.take(it.index() + 1) == s@.take(it.index() as int).push(c));
    }
    assert(s@.take(s@.len() as int) == s@);
    r
}

/// The string that holds the characters from `from` up to, and not including, `to`.
pub fn string_of(v: &Vec<char>, from: usize, to: usize) -> (r: String)
    requires
        from <= to <= v@.len(),
    ensures
        r@ == v@.subrange(from as int, to as int),
{
    let mut r = String::new();
    let mut i: usize = from;
    while i < to
        invariant
            from <= i <= to <= v@.len(),
            r@ == v@.subrange(from as int, i as int),
        decreases to - i,
    {
        r.push(v[i]);
        assert(v@.subrange(from as int, i + 1) == v@.subrange(from as int, i as int).push(
            v@[i as int],
        ));
        i += 1;
    }
    r
}

/// The string that holds all of the characters.
pub fn whole(v: &Vec<char>) -> (r: String)
    ensures
        r@ == v@,
{
    assert(v@.subrange(0, v@.len() as int) == v@);
    string_of(v, 0, v.len())
}

/// Two strings, one after the other.
pub fn concat(a: &str, b: &str) -> (r: String)
    ensures
        r@ == a@ + b@,
{
    let mut r = String::new();
    r.append(a);
    r.append(b);
    assert(r@ == a@ + b@);
    r
}

/// The views of a vector of strings.
pub open spec fn strings_view(v: Seq<String>) -> Seq<Seq<char>> {
    Seq::new(v.len(), |i: int| v[i]@)
}

/// Texts one after the other, with `separator` between each two.
pub open spec fn joined(texts: Seq<Seq<char>>, separator: Seq<char>) -> Seq<char>
    decreases texts.len(),
{
    if texts.len() == 0 {
        Seq::empty()
    } else if texts.len() == 1 {
        texts[0]
    } else {
        joined(texts.drop_last(), separator) + separator + texts.last()
    }
}

/// The views of a vector of string slices.
pub open spec fn slices_view(v: Seq<&'static str>) -> Seq<Seq<char>> {
    Seq::new(v.len(), |i: int| v[i]@)
}

/// Texts one after the other, with `separator` between each two.
pub fn join(texts: &Vec<&'static str>, separator: &str) -> (r: String)
    ensures
        r@ == joined(slices_view(texts@), separator@),
{
    let ghost all = slices_view(texts@);
    let mut all_joined = String::new();
    let mut i: usize = 0;
    assert(all.take(0) == Seq::<Seq<char>>::empty());
    while i < texts.len()
        invariant
            i <= texts@.len(),
            all == slices_view(texts@),
            all_joined@ == joined(all.take(i as int), separator@),
        decreases texts@.len() - i,
    {
        assert(all.take(i + 1).drop_last() == all.take(i as int));
        assert(all.take(i + 1).last() == texts@[i as int]@);
        if i > 0 {
            all_joined.append(separator);
        }
        all_joined.append(texts[i]);
        i += 1;
    }
    assert(all.take(i as int) == all);
    all_joined
}

/// The view of a string that may not be there.
pub open spec fn optional_view(s: Option<String>) -> Option<Seq<char>> {
    match s {
        Some(s) => Some(s@),
        None => None,
    }
}

/// Whether two strings hold the same characters.
pub fn same_text(a: &str, b: &str) -> (r: bool)
    ensures
        r == (a@ == b@),
{
    let a = chars_of(a);
    let b = chars_of(b);
    same_chars(&a, &b)
}

/// Whether two vectors hold the same characters.
pub fn same_chars(a: &Vec<char>, b: &Vec<char>) -> (r: bool)
    ensures
        r == (a@ == b@),
{
    if a.len() != b.len() {
        return false;
    }
    let mut i: usize = 0;
    while i < a.len()
        invariant
            i <= a@.len() == b@.len(),
            a@.take(i as int) == b@.take(i as int),
        decreases a@.len() - i,
    {
        if a[i] != b[i] {
            return false;
        }
        assert(a@.take(i + 1) == a@.take(i as int).push(a@[i as int]));
        assert(b@.take(i + 1) == b@.take(i as int).push(b@[i as int]));
        i += 1;
    }
    assert(a@.take(i as int) == a@);
    assert(b@.take(i as int) == b@);
    true
}

/// Whether a character has Unicode's `White_Space` property.
pub open spec fn white_space(c: char) -> bool {
    ||| '\u{9}' <= c <= '\u{d}'
    ||| c == '\u{20}'
    ||| c == '\u{85}'
    ||| c == '\u{a0}'
    ||| c == '\u{1680}'
    ||| '\u{2000}' <= c <= '\u{200a}'
    ||| c == '\u{2028}'
    ||| c == '\u{2029}'
    ||| c == '\u{202f}'
    ||| c == '\u{205f}'
    ||| c == '\u{3000}'
}

/// Whether a character has Unicode's `White_Space` property.
pub fn is_white_space(c: char) -> (r: bool)
    ensures
        r == white_space(c),
{
    ('\u{9}' <= c && c <= '\u{d}') || c == '\u{20}' || c == '\u{85}' || c == '\u{a0}' || c
        == '\u{1680}' || ('\u{2000}' <= c && c <= '\u{200a}') || c == '\u{2028}' || c == '\u{2029}'
        || c == '\u{202f}' || c == '\u{205f}' || c == '\u{3000}'
}

/// `s` without the white space it starts with.
pub open spec fn trim_start(s: Seq<char>) -> Seq<char>
    decreases s.len(),
{
    if s.len() > 0 && white_space(s[0]) {
        trim_start(s.drop_first())
    } else {
        s
    }
}

/// `s` without the white space it ends with.
pub open spec fn trim_end(s: Seq<char>) -> Seq<char>
    decreases s.len(),
{
    if s.len() > 0 && white_space(s.last()) {
        trim_end(s.drop_last())
    } else {
        s
    }
}

/// `s` without the white space around it.
pub open spec fn trim(s: Seq<char>) -> Seq<char> {
    trim_end(trim_start(s))
}

/// `v` without the white space it starts with.
pub fn trimmed_start(v: &Vec<char>) -> (r: Vec<char>)
    ensures
        r@ == trim_start(v@),
{
    let mut i: usize = 0;
    assert(v@.skip(0) == v@);
    while i < v.len() && is_white_space(v[i])
        invariant
            i <= v@.len(),
            trim_start(v@) == trim_start(v@.skip(i as int)),
        decreases v@.len() - i,
    {
        assert(v@.skip(i as int).drop_first() == v@.skip(i + 1));
        i += 1;
    }
    tail(v, i)
}

/// `v` without the white space it ends with.
pub fn trimmed_end(v: &Vec<char>) -> (r: Vec<char>)
    ensures
        r@ == trim_end(v@),
{
    let mut n: usize = v.len();
    assert(v@.take(n as int) == v@);
    while n > 0 && is_white_space(v[n - 1])
        invariant
            n <= v@.len(),
            trim_end(v@) == trim_end(v@.take(n as int)),
        decreases n,
    {
        assert(v@.take(n as int).drop_last() == v@.take(n - 1));
        n -= 1;
    }
    let mut r: Vec<char> = Vec::new();
    let mut i: usize = 0;
    while i < n
        invariant
            i <= n <= v@.len(),
            r@ == v@.take(i as int),
        decreases n - i,
    {
        r.push(v[i]);
        assert(v@.take(i + 1) == v@.take(i as int).push(v@[i as int]));
        i += 1;
    }
    r
}

/// `v` without the white space around it.
pub fn trimmed(v: &Vec<char>) -> (r: Vec<char>)
    ensures
        r@ == trim(v@),
{
    let started = trimmed_start(v);
    trimmed_end(&started)
}

/// What is left of `v` after its first `n` characters.
pub fn tail(v: &Vec<char>, n: usize) -> (r: Vec<char>)
    requires
        n <= v@.len(),
    ensures
        r@ == v@.skip(n as int),
{
    let mut r: Vec<char> = Vec::new();
    let mut i: usize = n;
    while i < v.len()
        invariant
            n <= i <= v@.len(),
            r@ == v@.subrange(n as int, i as int),
        decreases v@.len() - i,
    {
        r.push(v[i]);
        assert(v@.subrange(n as int, i + 1) == v@.subrange(n as int, i as int).push(v@[i as int]));
        i += 1;
    }
    assert(v@.subrange(n as int, i as int) == v@.skip(n as int));
    r
}

/// What follows `prefix` in `s`, or nothing when `s` starts otherwise.
pub open spec fn after(s: Seq<char>, prefix: Seq<char>) -> Option<Seq<char>> {
    if prefix.is_prefix_of(s) {
        Some(s.skip(prefix.len() as int))
    } else {
        None
    }
}

/// What follows `prefix` in `v`, or nothing when `v` starts otherwise.
pub fn strip_prefix(v: &Vec<char>, prefix: &str) -> (r: Option<Vec<char>>)
    ensures
        r is Some <==> after(v@, prefix@) is Some,
        r matches Some(rest) ==> after(v@, prefix@) == Some(rest@),
{
    let wanted = chars_of(prefix);
    if wanted.len() > v.len() {
        return None;
    }
    let mut i: usize = 0;
    while i < wanted.len()
        invariant
            wanted@ == prefix@,
            i <= wanted@.len() <= v@.len(),
            forall|j: int| 0 <= j < i ==> wanted@[j] == v@[j],
        decreases wanted@.len() - i,
    {
        if wanted[i] != v[i] {
            assert(prefix@[i as int] != v@.subrange(0, prefix@.len() as int)[i as int]);
            return None;
        }
        i += 1;
    }
    assert(prefix@ =~= v@.subrange(0, prefix@.len() as int));
    Some(tail(v, wanted.len()))
}

/// The pieces of `s` between one `separator` and the next.
pub open spec fn split(s: Seq<char>, separator: char) -> Seq<Seq<char>>
    decreases s.len(),
{
    if s.len() == 0 {
        seq![Seq::empty()]
    } else {
        let before = split(s.drop_last(), separator);
        if s.last() == separator {
            before.push(Seq::empty())
        } else {
            before.drop_last().push(before.last().push(s.last()))
        }
    }
}

/// The views of a vector of character vectors.
pub open spec fn views(v: Seq<Vec<char>>) -> Seq<Seq<char>> {
    Seq::new(v.len(), |i: int| v[i]@)
}

/// The pieces of `v` between one `separator` and the next.
pub fn pieces(v: &Vec<char>, separator: char) -> (r: Vec<Vec<char>>)
    ensures
        views(r@) == split(v@, separator),
        r@.len() > 0,
{
    let mut done: Vec<Vec<char>> = Vec::new();
    let mut current: Vec<char> = Vec::new();
    let mut i: usize = 0;
    assert(v@.take(0) == Seq::<char>::empty());
    assert(views(done@).push(current@) == split(v@.take(0), separator));
    while i < v.len()
        invariant
            i <= v@.len(),
            views(done@).push(current@) == split(v@.take(i as int), separator),
        decreases v@.len() - i,
    {
        let ghost before = views(done@).push(current@);
        let c = v[i];
        assert(v@.take(i + 1).drop_last() == v@.take(i as int));
        assert(before.last() == current@);
        assert(before.drop_last() == views(done@));
        if c == separator {
            done.push(current);
            current = Vec::new();
            assert(views(done@) == before);
        } else {
            current.push(c);
        }
        i += 1;
    }
    assert(v@.take(i as int) == v@);
    let ghost all = views(done@).push(current@);
    done.push(current);
    assert(views(done@) == all);
    done
}

/// A separator and a piece without one, put after a text, add that piece to its pieces.
pub proof fn split_adds_a_piece(s: Seq<char>, separator: char, piece: Seq<char>)
    requires
        !piece.contains(separator),
    ensures
        split(s.push(separator) + piece, separator) == split(s, separator).push(piece),
    decreases piece.len(),
{
    let whole = s.push(separator) + piece;
    if piece.len() == 0 {
        assert(whole == s.push(separator));
        assert(whole.drop_last() == s);
        assert(piece == Seq::<char>::empty());
    } else {
        let shorter = piece.drop_last();
        assert(!shorter.contains(separator)) by {
            if shorter.contains(separator) {
                let i = choose|i: int| 0 <= i < shorter.len() && shorter[i] == separator;
                assert(piece[i] == separator);
            }
        }
        split_adds_a_piece(s, separator, shorter);
        assert(whole.drop_last() == s.push(separator) + shorter);
        assert(whole.last() == piece.last());
        assert(piece[piece.len() - 1] == piece.last());
        let before = split(s, separator).push(shorter);
        assert(before.drop_last() == split(s, separator));
        assert(shorter.push(piece.last()) == piece);
    }
}

/// Whether a character is one of the ten ASCII digits.
pub open spec fn is_digit(c: char) -> bool {
    '0' <= c <= '9'
}

/// The number that a run of digits writes, most significant first.
pub open spec fn digits_value(s: Seq<char>) -> nat
    decreases s.len(),
{
    if s.len() == 0 {
        0
    } else {
        10 * digits_value(s.drop_last()) + (s.last() as nat - '0' as nat) as nat
    }
}

/// The digits of a decimal number, without the sign it may start with.
pub open spec fn unsigned_part(s: Seq<char>) -> Seq<char> {
    if s.len() > 0 && (s[0] == '+' || s[0] == '-') {
        s.skip(1)
    } else {
        s
    }
}

/// The number that `s` writes: an optional sign, then one digit or more, and nothing else.
pub open spec fn number(s: Seq<char>) -> Option<int> {
    let digits = unsigned_part(s);
    if digits.len() > 0 && forall|i: int| 0 <= i < digits.len() ==> is_digit(#[trigger] digits[i]) {
        Some(
            if s[0] == '-' {
                -(digits_value(digits) as int)
            } else {
                digits_value(digits) as int
            },
        )
    } else {
        None
    }
}

/// The number that `s` writes, where an `i32` can hold it.
pub open spec fn number_i32(s: Seq<char>) -> Option<i32> {
    match number(s) {
        Some(n) => if i32::MIN <= n <= i32::MAX {
            Some(n as i32)
        } else {
            None
        },
        None => None,
    }
}

/// A longer run of digits writes no smaller number.
proof fn digits_value_grows(s: Seq<char>, n: int)
    requires
        0 <= n <= s.len(),
        forall|i: int| 0 <= i < s.len() ==> is_digit(#[trigger] s[i]),
    ensures
        digits_value(s.take(n)) <= digits_value(s),
    decreases s.len(),
{
    if n < s.len() {
        assert(s.drop_last().take(n) == s.take(n));
        digits_value_grows(s.drop_last(), n);
    } else {
        assert(s.take(n) == s);
    }
}

/// Read a decimal number that an `i32` can hold.
pub fn parse_i32(v: &Vec<char>) -> (r: Option<i32>)
    ensures
        r == number_i32(v@),
{
    let negative = v.len() > 0 && v[0] == '-';
    let start: usize = if v.len() > 0 && (v[0] == '-' || v[0] == '+') { 1 } else { 0 };
    let ghost digits = unsigned_part(v@);
    assert(digits == v@.skip(start as int));
    if start == v.len() {
        return None;
    }
    let mut value: i64 = 0;
    let mut i: usize = start;
    assert(digits.take(0) == Seq::<char>::empty());
    while i < v.len()
        invariant
            start <= i <= v@.len(),
            digits == v@.skip(start as int),
            digits == unsigned_part(v@),
            digits.len() > 0,
            negative == (v@[0] == '-'),
            0 <= value <= 0x8000_0000,
            value == digits_value(digits.take(i - start)),
            forall|j: int| 0 <= j < i - start ==> is_digit(#[trigger] digits[j]),
        decreases v@.len() - i,
    {
        let c = v[i];
        assert(c == digits[i - start]);
        if c < '0' || c > '9' {
            return None;
        }
        let digit: i64 = (c as u32 - '0' as u32) as i64;
        assert(digits.take(i - start + 1).drop_last() == digits.take(i - start));
        value = value * 10 + digit;
        i += 1;
        if value > 0x8000_0000 {
            proof {
                if number(v@) is Some {
                    digits_value_grows(digits, i - start);
                }
            }
            return None;
        }
    }
    assert(digits.take(i - start) == digits);
    if negative {
        Some((-value) as i32)
    } else if value <= i32::MAX as i64 {
        Some(value as i32)
    } else {
        None
    }
}

/// The digit that writes `n`.
pub open spec fn digit(n: int) -> char {
    ('0' as int + n) as char
}

/// How `n` is written in decimal.
pub open spec fn decimal(n: nat) -> Seq<char>
    decreases n,
{
    if n < 10 {
        seq![digit(n as int)]
    } else {
        decimal(n / 10).push(digit((n % 10) as int))
    }
}

/// How `n` is written in decimal, with a minus sign where it is negative.
pub open spec fn signed_decimal(n: int) -> Seq<char> {
    if n < 0 {
        seq!['-'] + decimal((-n) as nat)
    } else {
        decimal(n as nat)
    }
}

/// Write `n` in decimal.
pub fn write_decimal(n: u32) -> (r: String)
    ensures
        r@ == decimal(n as nat),
    decreases n,
{
    let mut r = if n < 10 { String::new() } else { write_decimal(n / 10) };
    let last: u8 = (n % 10) as u8;
    let c: char = (48u8 + last) as char;
    r.push(c);
    assert(c == digit((n % 10) as int));
    assert(n < 10 ==> r@ == seq![digit(n as int)]);
    r
}

/// Write `n` in decimal, with a minus sign where it is negative.
pub fn write_signed(n: i32) -> (r: String)
    ensures
        r@ == signed_decimal(n as int),
{
    if n < 0 {
        let magnitude: u32 = (-(n as i64)) as u32;
        let mut r = String::new();
        r.push('-');
        let digits = write_decimal(magnitude);
        r.append(digits.as_str());
        assert(r@ == seq!['-'] + decimal(magnitude as nat));
        r
    } else {
        write_decimal(n as u32)
    }
}

/// Two different numbers are written differently.
pub proof fn decimal_is_injective(a: nat, b: nat)
    requires
        decimal(a) == decimal(b),
    ensures
        a == b,
    decreases a,
{
    assert(decimal(a).last() == digit((a % 10) as int));
    assert(decimal(b).last() == digit((b % 10) as int));
    assert(digit((a % 10) as int) as int == 48 + a % 10);
    assert(digit((b % 10) as int) as int == 48 + b % 10);
    if a < 10 && b < 10 {
    } else if a >= 10 && b >= 10 {
        assert(decimal(a).drop_last() == decimal(a / 10));
        assert(decimal(b).drop_last() == decimal(b / 10));
        decimal_is_injective(a / 10, b / 10);
    } else if a < 10 {
        assert(decimal(b).len() == decimal(b / 10).len() + 1);
        assert(decimal(b / 10).len() >= 1);
    } else {
        assert(decimal(a).len() == decimal(a / 10).len() + 1);
        assert(decimal(a / 10).len() >= 1);
    }
}

/// A number written in decimal is a run of digits that writes it.
pub proof fn decimal_writes_its_number(n: nat)
    ensures
        decimal(n).len() > 0,
        forall|i: int| 0 <= i < decimal(n).len() ==> is_digit(#[trigger] decimal(n)[i]),
        digits_value(decimal(n)) == n,
    decreases n,
{
    let last = digit((n % 10) as int);
    assert(last as int == 48 + n % 10);
    if n < 10 {
        assert(decimal(n).drop_last() == Seq::<char>::empty());
        assert(decimal(n).last() == last);
        assert(digits_value(Seq::<char>::empty()) == 0);
    } else {
        decimal_writes_its_number(n / 10);
        assert(decimal(n).drop_last() == decimal(n / 10));
        assert(decimal(n).last() == last);
        assert forall|i: int| 0 <= i < decimal(n).len() implies is_digit(
            #[trigger] decimal(n)[i],
        ) by {
            if i < decimal(n / 10).len() {
                assert(decimal(n)[i] == decimal(n / 10)[i]);
            }
        }
    }
}

/// A number that has been written in decimal reads back as itself; and what is written holds
/// neither a comma nor, around it, any white space.
pub proof fn a_number_is_read_back(n: int)
    ensures
        number(signed_decimal(n)) == Some(n),
        geometry::fits_i32(n) ==> number_i32(signed_decimal(n)) == Some(n as i32),
        trim(signed_decimal(n)) == signed_decimal(n),
        !signed_decimal(n).contains(','),
{
    let magnitude = if n < 0 { (-n) as nat } else { n as nat };
    let digits = decimal(magnitude);
    let s = signed_decimal(n);
    decimal_writes_its_number(magnitude);
    assert(is_digit(digits[0]));
    assert(is_digit(digits[digits.len() - 1]));
    if n < 0 {
        assert(s.skip(1) == digits);
        assert(s.last() == digits.last());
    }
    assert(unsigned_part(s) == digits);
    if s.contains(',') {
        let i = choose|i: int| 0 <= i < s.len() && s[i] == ',';
        if n < 0 {
            assert(s[i] == (if i == 0 { '-' } else { digits[i - 1] }));
            assert(i > 0 ==> is_digit(digits[i - 1]));
        } else {
            assert(is_digit(digits[i]));
        }
    }
}

/// A text that does not hold the separator is its own only piece.
pub proof fn split_without_a_separator(s: Seq<char>, separator: char)
    requires
        !s.contains(separator),
    ensures
        split(s, separator) == seq![s],
    decreases s.len(),
{
    if s.len() > 0 {
        let shorter = s.drop_last();
        assert(s[s.len() - 1] == s.last());
        assert(!shorter.contains(separator)) by {
            if shorter.contains(separator) {
                let i = choose|i: int| 0 <= i < shorter.len() && shorter[i] == separator;
                assert(s[i] == separator);
            }
        }
        split_without_a_separator(shorter, separator);
        assert(shorter.push(s.last()) == s);
        assert(split(shorter, separator).drop_last() == Seq::<Seq<char>>::empty());
    } else {
        assert(s == Seq::<char>::empty());
    }
}

/// How Rust's `{:?}` writes a string: in double quotes, with what would not print escaped.
pub uninterp spec fn quoted(s: Seq<char>) -> Seq<char>;

/// `format!("{:?}", s)`: the string in double quotes, with what would not print escaped. Which
/// characters that is, and how each is escaped, is left to the standard library; the contract
/// says only that the result is a function of the string.
#[verifier::external_body]
pub(crate) fn quote(s: &str) -> (r: String)
    ensures
        r@ == quoted(s@),
{
    format!("{:?}", s)
}

/// The characters that count as white space, by their numbers.
pub proof fn white_space_is_these_characters(c: char)
    ensures
        white_space(c) <==> {
            let n = c as u32;
            ||| 9 <= n <= 13
            ||| n == 32
            ||| n == 0x85
            ||| n == 0xa0
            ||| n == 0x1680
            ||| 0x2000 <= n <= 0x200a
            ||| n == 0x2028
            ||| n == 0x2029
            ||| n == 0x202f
            ||| n == 0x205f
            ||| n == 0x3000
        },
        is_digit(c) <==> 48 <= c as u32 <= 57,
{
}

/// What is cut off the start of a text is white space, and what is left does not start with any.
proof fn trimming_the_start_cuts_white_space(s: Seq<char>) -> (n: int)
    ensures
        0 <= n <= s.len(),
        trim_start(s) == s.skip(n),
        forall|i: int| 0 <= i < n ==> white_space(#[trigger] s[i]),
        n < s.len() ==> !white_space(s[n]),
    decreases s.len(),
{
    if s.len() > 0 && white_space(s[0]) {
        let rest = s.drop_first();
        let n = trimming_the_start_cuts_white_space(rest);
        assert(rest.skip(n) == s.skip(n + 1));
        assert forall|i: int| 0 <= i < n + 1 implies white_space(#[trigger] s[i]) by {
            if i > 0 {
                assert(s[i] == rest[i - 1]);
            }
        }
        if n < rest.len() {
            assert(rest[n] == s[n + 1]);
        }
        n + 1
    } else {
        assert(s.skip(0) == s);
        0
    }
}

/// What is cut off the end of a text is white space, and what is left does not end with any.
proof fn trimming_the_end_cuts_white_space(s: Seq<char>) -> (n: int)
    ensures
        0 <= n <= s.len(),
        trim_end(s) == s.take(n),
        forall|i: int| n <= i < s.len() ==> white_space(#[trigger] s[i]),
        n > 0 ==> !white_space(s[n - 1]),
    decreases s.len(),
{
    if s.len() > 0 && white_space(s.last()) {
        let init = s.drop_last();
        let n = trimming_the_end_cuts_white_space(init);
        assert(init.take(n) == s.take(n));
        assert forall|i: int| n <= i < s.len() implies white_space(#[trigger] s[i]) by {
            if i < init.len() {
                assert(s[i] == init[i]);
            }
        }
        if n > 0 {
            assert(init[n - 1] == s[n - 1]);
        }
        n
    } else {
        assert(s.take(s.len() as int) == s);
        s.len() as int
    }
}

/// Trimming a text cuts the white space around it, all of it and nothing else: a text that neither
/// starts nor ends with white space is what is left of it with any white space around it.
pub proof fn trimming_cuts_the_white_space_around(
    before: Seq<char>,
    s: Seq<char>,
    after: Seq<char>,
)
    requires
        forall|i: int| 0 <= i < before.len() ==> white_space(#[trigger] before[i]),
        forall|i: int| 0 <= i < after.len() ==> white_space(#[trigger] after[i]),
        s.len() > 0 ==> !white_space(s[0]) && !white_space(s[s.len() - 1]),
    ensures
        trim(before + s + after) == s,
        trim_start(before + s) == s || s.len() == 0,
{
    let whole = before + s + after;
    let n = trimming_the_start_cuts_white_space(whole);
    let started = trim_start(whole);
    let m = trimming_the_end_cuts_white_space(started);
    if s.len() > 0 {
        assert(whole[before.len() as int] == s[0]);
        if n > before.len() {
            assert(white_space(whole[before.len() as int]));
        } else if n < before.len() {
            assert(whole[n] == before[n]);
        }
        assert(started == s + after);
        let last = s.len() - 1;
        assert(started[last] == s[last]);
        if m <= last {
            assert(white_space(started[last]));
        } else if m > s.len() {
            assert(started[m - 1] == after[m - 1 - s.len()]);
        }
        assert(started.take(m) == s);
        let k = trimming_the_start_cuts_white_space(before + s);
        assert((before + s)[before.len() as int] == s[0]);
        if k > before.len() {
            assert(white_space((before + s)[before.len() as int]));
        } else if k < before.len() {
            assert((before + s)[k] == before[k]);
        }
        assert((before + s).skip(k) == s);
    } else {
        assert forall|i: int| 0 <= i < whole.len() implies white_space(#[trigger] whole[i]) by {
            if i < before.len() {
                assert(whole[i] == before[i]);
            } else {
                assert(whole[i] == after[i - before.len()]);
            }
        }
        if n < whole.len() {
            assert(white_space(whole[n]));
        }
        assert(started == Seq::<char>::empty());
        assert(trim(whole) == s);
    }
}

/// Every text is what trimming leaves of it, with white space around that.
pub proof fn a_text_is_its_trimmed_self_in_white_space(s: Seq<char>) -> (r: (Seq<char>, Seq<char>))
    ensures
        s == r.0 + trim(s) + r.1,
        forall|i: int| 0 <= i < r.0.len() ==> white_space(#[trigger] r.0[i]),
        forall|i: int| 0 <= i < r.1.len() ==> white_space(#[trigger] r.1[i]),
        trim(s).len() > 0 ==> !white_space(trim(s)[0]) && !white_space(trim(s)[trim(s).len() - 1]),
{
    let n = trimming_the_start_cuts_white_space(s);
    let started = s.skip(n);
    let m = trimming_the_end_cuts_white_space(started);
    let (before, after) = (s.take(n), started.skip(m));
    assert(s == before + started.take(m) + after);
    assert forall|i: int| 0 <= i < after.len() implies white_space(#[trigger] after[i]) by {
        assert(after[i] == started[m + i]);
    }
    if m > 0 {
        assert(started[0] == s[n]);
        assert(started.take(m)[m - 1] == started[m - 1]);
    }
    (before, after)
}

/// Something follows a prefix in a text if and only if the text is that prefix and something.
pub proof fn what_follows_a_prefix(s: Seq<char>, prefix: Seq<char>, rest: Seq<char>)
    ensures
        after(prefix + rest, prefix) == Some(rest),
        after(s, prefix) matches Some(r) ==> s == prefix + r,
{
    let whole = prefix + rest;
    assert(whole.subrange(0, prefix.len() as int) == prefix);
    assert(whole.skip(prefix.len() as int) == rest);
    if prefix.is_prefix_of(s) {
        assert(s == prefix + s.skip(prefix.len() as int));
    }
}

/// The pieces of a text hold no separator, there is one more of them than there are separators, and
/// with a separator between each two they are the text again.
pub proof fn pieces_make_up_the_text(s: Seq<char>, separator: char)
    ensures
        split(s, separator).len() > 0,
        joined(split(s, separator), seq![separator]) == s,
        forall|i: int|
            0 <= i < split(s, separator).len() ==> !(#[trigger] split(s, separator)[i]).contains(
                separator,
            ),
    decreases s.len(),
{
    let pieces = split(s, separator);
    let between = seq![separator];
    if s.len() > 0 {
        let init = s.drop_last();
        let before = split(init, separator);
        let c = s.last();
        pieces_make_up_the_text(init, separator);
        assert(init.push(c) == s);
        if c == separator {
            assert(pieces.drop_last() == before);
            assert(pieces.last() == Seq::<char>::empty());
            assert(joined(pieces, between) == init + between + Seq::<char>::empty());
            assert(init + between + Seq::<char>::empty() == s);
            assert forall|i: int| 0 <= i < pieces.len() implies !(#[trigger] pieces[i]).contains(
                separator,
            ) by {
                if i < before.len() {
                    assert(pieces[i] == before[i]);
                }
            }
        } else {
            let last = before.last().push(c);
            assert(pieces == before.drop_last().push(last));
            assert(pieces.drop_last() == before.drop_last());
            if before.len() == 1 {
                assert(joined(before, between) == before[0]);
                assert(joined(pieces, between) == last);
            } else {
                let start = joined(before.drop_last(), between);
                assert(joined(before, between) == start + between + before.last());
                assert(joined(pieces, between) == start + between + last);
                assert(start + between + last == (start + between + before.last()).push(c));
            }
            assert forall|i: int| 0 <= i < pieces.len() implies !(#[trigger] pieces[i]).contains(
                separator,
            ) by {
                if i < before.len() - 1 {
                    assert(pieces[i] == before[i]);
                } else {
                    assert(!before[before.len() - 1].contains(separator));
                    if last.contains(separator) {
                        let k = choose|k: int| 0 <= k < last.len() && last[k] == separator;
                        assert(k < before.last().len() ==> before.last()[k] == separator);
                    }
                }
            }
        }
    } else {
        assert(pieces == seq![Seq::<char>::empty()]);
        assert(joined(pieces, between) == s);
    }
}

/// Texts are put one after the other with the separator between each two, and nowhere else.
pub proof fn texts_are_joined_one_by_one(
    texts: Seq<Seq<char>>,
    text: Seq<char>,
    separator: Seq<char>,
)
    ensures
        joined(Seq::empty(), separator) == Seq::<char>::empty(),
        joined(seq![text], separator) == text,
        texts.len() > 0 ==> joined(texts.push(text), separator) == joined(texts, separator)
            + separator + text,
{
    assert(texts.push(text).drop_last() == texts);
}

/// A text writes a number if it is one digit or more, with at most one sign before them. A digit
/// put after a number multiplies it by ten and is added to it, and a minus sign before it makes it
/// negative; a plus sign changes nothing. A text with any other character, or without a digit,
/// writes none.
pub proof fn numbers_are_written_digit_by_digit(digits: Seq<char>, c: char)
    requires
        forall|i: int| 0 <= i < digits.len() ==> '0' <= #[trigger] digits[i] <= '9',
    ensures
        digits.len() == 0 && 48 <= c as u32 <= 57 ==> number(digits.push(c)) == Some(
            c as u32 - 48,
        ),
        digits.len() > 0 && 48 <= c as u32 <= 57 ==> (number(digits) matches Some(n) && n >= 0
            && number(digits.push(c)) == Some(10 * n + (c as u32 - 48))),
        digits.len() > 0 ==> (number(digits) matches Some(n) && number(seq!['+'] + digits) == Some(
            n,
        ) && number(seq!['-'] + digits) == Some(-n)),
        digits.len() == 0 ==> number(digits) is None && number(seq!['+'] + digits) is None
            && number(seq!['-'] + digits) is None,
        number(digits.push(c)) is Some ==> 48 <= c as u32 <= 57,
{
    let longer = digits.push(c);
    assert(longer.drop_last() == digits);
    assert((seq!['+'] + digits).skip(1) == digits);
    assert((seq!['-'] + digits).skip(1) == digits);
    assert(digits_value(Seq::<char>::empty()) == 0);
    if digits.len() == 0 {
        assert(digits == Seq::<char>::empty());
        assert(longer.skip(1) == Seq::<char>::empty());
        assert(longer.last() == c);
    } else {
        assert('0' <= digits[0] <= '9');
        assert(unsigned_part(digits) == digits);
        assert(unsigned_part(longer) == longer);
        assert(longer[longer.len() - 1] == c);
        assert forall|i: int| 0 <= i < digits.len() implies is_digit(#[trigger] digits[i]) by {}
        if is_digit(c) {
            assert forall|i: int| 0 <= i < longer.len() implies is_digit(#[trigger] longer[i]) by {
                if i < digits.len() {
                    assert(longer[i] == digits[i]);
                }
            }
        } else {
            assert(!is_digit(longer[longer.len() - 1]));
        }
    }
    if 48 <= c as u32 <= 57 {
        assert(is_digit(c));
        if digits.len() == 0 {
            assert(unsigned_part(longer) == longer);
            assert forall|i: int| 0 <= i < longer.len() implies is_digit(#[trigger] longer[i]) by {}
        }
    }
}

/// A text that writes a number holds nothing but digits after its sign, so any other character in
/// it makes it write none.
pub proof fn nothing_but_digits_is_a_number(s: Seq<char>, i: int)
    requires
        0 <= i < s.len(),
        !(48 <= s[i] as u32 <= 57),
        i > 0 || (s[i] != '+' && s[i] != '-'),
    ensures
        number(s) is None,
        number_i32(s) is None,
{
    let digits = unsigned_part(s);
    if digits.len() < s.len() {
        if i > 0 {
            assert(digits[i - 1] == s[i]);
            assert(!is_digit(digits[i - 1]));
        }
    } else {
        assert(!is_digit(digits[i]));
    }
}

/// A number is read as one that an `i32` can hold, or not at all.
pub proof fn a_number_out_of_range_is_none(s: Seq<char>)
    ensures
        number_i32(s) matches Some(n) ==> number(s) == Some(n as int),
        number(s) matches Some(n) ==> (number_i32(s) is Some <==> -0x8000_0000 <= n
            <= 0x7fff_ffff),
        number(s) is None ==> number_i32(s) is None,
{
}

/// A number is written without a zero in front, but for zero itself, and with a minus sign if and
/// only if it is negative.
pub proof fn a_number_is_written_without_leading_zeros(n: nat)
    ensures
        n > 0 ==> decimal(n)[0] != '0',
        n == 0 ==> decimal(n) == seq!['0'],
        signed_decimal(n as int) == decimal(n),
        n > 0 ==> signed_decimal(-(n as int)) == seq!['-'] + decimal(n),
    decreases n,
{
    if n >= 10 {
        a_number_is_written_without_leading_zeros(n / 10);
        decimal_writes_its_number(n / 10);
        assert(decimal(n)[0] == decimal(n / 10)[0]);
    } else {
        assert(digit(n as int) as int == 48 + n);
    }
}

/// The views of strings, and of vectors of characters, are theirs one by one.
pub proof fn views_are_one_by_one(
    strings: Seq<String>,
    vectors: Seq<Vec<char>>,
    slices: Seq<&'static str>,
    optional: Option<String>,
    i: int,
)
    ensures
        strings_view(strings).len() == strings.len(),
        0 <= i < strings.len() ==> strings_view(strings)[i] == strings[i]@,
        views(vectors).len() == vectors.len(),
        0 <= i < vectors.len() ==> views(vectors)[i] == vectors[i]@,
        slices_view(slices).len() == slices.len(),
        0 <= i < slices.len() ==> slices_view(slices)[i] == slices[i]@,
        optional is None ==> optional_view(optional) is None,
        optional matches Some(s) ==> optional_view(optional) == Some(s@),
{
}

} // verus!
