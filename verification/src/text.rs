//! Text as sequences of characters: trimming, splitting at a separator, and
//! whole numbers in decimal.

use vstd::prelude::*;

verus! {

/// The white space that trimming removes: the characters with the Unicode
/// property `White_Space`.
pub open spec fn is_space(c: char) -> bool {
    ||| '\u{9}' <= c <= '\u{d}'
    ||| c == ' '
    ||| c == '\u{85}'
    ||| c == '\u{a0}'
    ||| c == '\u{1680}'
    ||| '\u{2000}' <= c <= '\u{200a}'
    ||| c == '\u{2028}'
    ||| c == '\u{2029}'
    ||| c == '\u{202f}'
    ||| c == '\u{205f}'
    ||| c == '\u{3000}'
}

/// `s` without the white space at its start.
pub open spec fn trim_start(s: Seq<char>) -> Seq<char>
    decreases s.len(),
{
    if s.len() > 0 && is_space(s[0]) {
        trim_start(s.drop_first())
    } else {
        s
    }
}

/// `s` without the white space at its end.
pub open spec fn trim_end(s: Seq<char>) -> Seq<char>
    decreases s.len(),
{
    if s.len() > 0 && is_space(s.last()) {
        trim_end(s.drop_last())
    } else {
        s
    }
}

/// `s` without the white space at either end.
pub open spec fn trim(s: Seq<char>) -> Seq<char> {
    trim_end(trim_start(s))
}

/// The pieces of `s` that lie between the occurrences of `sep`, in order.
/// There is one piece more than there are separators; a piece may be empty.
pub open spec fn split(s: Seq<char>, sep: char) -> Seq<Seq<char>>
    decreases s.len(),
{
    if s.len() == 0 {
        seq![Seq::<char>::empty()]
    } else {
        let before = split(s.drop_last(), sep);
        if s.last() == sep {
            before.push(Seq::<char>::empty())
        } else {
            before.drop_last().push(before.last().push(s.last()))
        }
    }
}

/// The texts that a vector of character vectors holds.
pub open spec fn texts(parts: Seq<Vec<char>>) -> Seq<Seq<char>> {
    parts.map_values(|part: Vec<char>| part@)
}

/// Text with a character at each end that is no white space is trimmed
/// already.
pub proof fn lemma_trim_keeps(text: Seq<char>)
    requires
        text.len() > 0,
        !is_space(text.first()),
        !is_space(text.last()),
    ensures
        trim(text) == text,
{
}

/// A split always yields at least one piece.
pub proof fn lemma_split_nonempty(s: Seq<char>, sep: char)
    ensures
        split(s, sep).len() >= 1,
    decreases s.len(),
{
    if s.len() > 0 {
        lemma_split_nonempty(s.drop_last(), sep);
    }
}

/// Text that follows without a separator in it lengthens the last piece.
pub proof fn lemma_split_extend(a: Seq<char>, b: Seq<char>, sep: char)
    requires
        !b.contains(sep),
    ensures
        split(a + b, sep) == split(a, sep).drop_last().push(split(a, sep).last() + b),
    decreases b.len(),
{
    lemma_split_nonempty(a, sep);
    let pieces = split(a, sep);
    if b.len() == 0 {
        assert(a + b =~= a);
        assert(pieces.last() + b =~= pieces.last());
        assert(pieces.drop_last().push(pieces.last()) =~= pieces);
    } else {
        let shorter = b.drop_last();
        assert(b[b.len() - 1] == b.last());
        assert forall|i: int| 0 <= i < shorter.len() implies shorter[i] != sep by {
            assert(b[i] == shorter[i]);
        }
        assert(!shorter.contains(sep));
        lemma_split_extend(a, shorter, sep);
        assert((a + b).drop_last() =~= a + shorter);
        assert((a + b).last() == b.last());
        assert(b.last() != sep);
        let mid = pieces.drop_last().push(pieces.last() + shorter);
        assert(mid.drop_last() =~= pieces.drop_last());
        assert(mid.last().push(b.last()) =~= pieces.last() + b);
    }
}

/// Text without a separator is a single piece.
pub proof fn lemma_split_whole(s: Seq<char>, sep: char)
    requires
        !s.contains(sep),
    ensures
        split(s, sep) == seq![s],
{
    let none = Seq::<char>::empty();
    lemma_split_extend(none, s, sep);
}

/// A separator at the end opens a new, empty piece.
pub proof fn lemma_split_separator(a: Seq<char>, sep: char)
    ensures
        split(a.push(sep), sep) == split(a, sep).push(Seq::<char>::empty()),
{
    assert(a.push(sep).drop_last() =~= a);
}

/// Two texts without a separator in them, joined by one, split into the two.
pub proof fn lemma_split_pair(a: Seq<char>, b: Seq<char>, sep: char)
    requires
        !a.contains(sep),
        !b.contains(sep),
    ensures
        split(a.push(sep) + b, sep) == seq![a, b],
{
    lemma_split_whole(a, sep);
    lemma_split_separator(a, sep);
    lemma_split_extend(a.push(sep), b, sep);
    let opened = split(a.push(sep), sep);
    assert(opened =~= seq![a, Seq::<char>::empty()]);
    assert(opened.last() + b =~= b);
    assert(opened.drop_last().push(b) =~= seq![a, b]);
}

/// The characters of `text`, one by one.
pub fn chars_of(text: &str) -> (chars: Vec<char>)
    ensures
        chars@ == text@,
{
    let mut chars: Vec<char> = Vec::new();
    for c in it: text.chars()
        invariant
            it.seq() == text@,
            chars@ == it.seq().take(it.index() as int),
    {
        chars.push(c);
    }
    chars
}

/// `String::from_iter` over the characters of a vector: the string that
/// holds exactly these characters, in this order.
#[verifier::external_body]
pub(crate) fn string_of(chars: &Vec<char>) -> (text: String)
    ensures
        text@ == chars@,
{
    String::from_iter(chars)
}

/// Appends the characters of `more` to `buf`.
pub fn append(buf: &mut Vec<char>, more: &Vec<char>)
    ensures
        final(buf)@ == old(buf)@ + more@,
{
    let mut i: usize = 0;
    while i < more.len()
        invariant
            i <= more.len(),
            buf@ == old(buf)@ + more@.take(i as int),
        decreases more.len() - i,
    {
        buf.push(more[i]);
        i += 1;
    }
}

/// Appends the characters of `more` to `buf`.
pub fn append_str(buf: &mut Vec<char>, more: &str)
    ensures
        final(buf)@ == old(buf)@ + more@,
{
    let chars = chars_of(more);
    append(buf, &chars);
}

/// True of a character that is white space.
pub(crate) fn is_space_char(c: char) -> (r: bool)
    ensures
        r == is_space(c),
{
    (c >= '\u{9}' && c <= '\u{d}') || c == ' ' || c == '\u{85}' || c == '\u{a0}' || c
        == '\u{1680}' || (c >= '\u{2000}' && c <= '\u{200a}') || c == '\u{2028}' || c
        == '\u{2029}' || c == '\u{202f}' || c == '\u{205f}' || c == '\u{3000}'
}

/// A copy of `text` from index `from` up to, not including, index `to`.
pub(crate) fn slice(text: &Vec<char>, from: usize, to: usize) -> (part: Vec<char>)
    requires
        from <= to <= text.len(),
    ensures
        part@ == text@.subrange(from as int, to as int),
{
    let mut part: Vec<char> = Vec::new();
    let mut i: usize = from;
    while i < to
        invariant
            from <= i <= to <= text.len(),
            part@ == text@.subrange(from as int, i as int),
        decreases to - i,
    {
        part.push(text[i]);
        i += 1;
    }
    part
}

/// `text` without the white space at either end.
pub fn trimmed(text: &Vec<char>) -> (r: Vec<char>)
    ensures
        r@ == trim(text@),
{
    let n: usize = text.len();
    let mut lo: usize = 0;
    assert(text@.skip(0) =~= text@);
    while lo < n && is_space_char(text[lo])
        invariant
            lo <= n == text.len(),
            trim_start(text@) == trim_start(text@.skip(lo as int)),
        decreases n - lo,
    {
        assert(text@.skip(lo as int).drop_first() =~= text@.skip(lo + 1));
        lo += 1;
    }
    let mut hi: usize = n;
    while hi > lo && is_space_char(text[hi - 1])
        invariant
            lo <= hi <= n == text.len(),
            trim(text@) == trim_end(text@.subrange(lo as int, hi as int)),
        decreases hi,
    {
        assert(text@.subrange(lo as int, hi as int).drop_last() =~= text@.subrange(
            lo as int,
            hi - 1,
        ));
        hi -= 1;
    }
    slice(text, lo, hi)
}

/// The pieces of `text` between the occurrences of `sep`.
pub fn split_at(text: &Vec<char>, sep: char) -> (parts: Vec<Vec<char>>)
    ensures
        texts(parts@) == split(text@, sep),
{
    let mut parts: Vec<Vec<char>> = Vec::new();
    let mut piece: Vec<char> = Vec::new();
    let mut i: usize = 0;
    while i < text.len()
        invariant
            i <= text.len(),
            texts(parts@).push(piece@) == split(text@.take(i as int), sep),
        decreases text.len() - i,
    {
        let c: char = text[i];
        proof {
            assert(text@.take(i + 1).drop_last() =~= text@.take(i as int));
        }
        if c == sep {
            parts.push(piece);
            piece = Vec::new();
        } else {
            piece.push(c);
        }
        i += 1;
    }
    assert(text@.take(i as int) =~= text@);
    parts.push(piece);
    parts
}

/// The character that stands for the digit `d`.
pub open spec fn digit(d: int) -> char
    recommends
        0 <= d <= 9,
{
    if d == 0 {
        '0'
    } else if d == 1 {
        '1'
    } else if d == 2 {
        '2'
    } else if d == 3 {
        '3'
    } else if d == 4 {
        '4'
    } else if d == 5 {
        '5'
    } else if d == 6 {
        '6'
    } else if d == 7 {
        '7'
    } else if d == 8 {
        '8'
    } else {
        '9'
    }
}

/// The decimal digits of `n`, the most significant first, without leading
/// zeros.
pub open spec fn digits(n: nat) -> Seq<char>
    decreases n,
{
    if n < 10 {
        seq![digit(n as int)]
    } else {
        digits(n / 10).push(digit((n % 10) as int))
    }
}

/// `v` in decimal, with a minus sign where it is negative.
pub open spec fn decimal(v: int) -> Seq<char> {
    if v < 0 {
        seq!['-'] + digits((-v) as nat)
    } else {
        digits(v as nat)
    }
}

/// `v` in decimal, filled with a zero on the left where that takes fewer
/// than two characters.
pub open spec fn decimal_wide(v: int) -> Seq<char> {
    if 0 <= v < 10 {
        seq!['0'] + digits(v as nat)
    } else {
        decimal(v)
    }
}

/// The character that stands for the digit `d`.
pub(crate) fn digit_char(d: u8) -> (c: char)
    requires
        d <= 9,
    ensures
        c == digit(d as int),
{
    if d == 0 {
        '0'
    } else if d == 1 {
        '1'
    } else if d == 2 {
        '2'
    } else if d == 3 {
        '3'
    } else if d == 4 {
        '4'
    } else if d == 5 {
        '5'
    } else if d == 6 {
        '6'
    } else if d == 7 {
        '7'
    } else if d == 8 {
        '8'
    } else {
        '9'
    }
}

/// Appends the decimal digits of `n` to `buf`.
pub(crate) fn push_digits(buf: &mut Vec<char>, n: u128)
    ensures
        final(buf)@ == old(buf)@ + digits(n as nat),
    decreases n,
{
    if n < 10 {
        buf.push(digit_char(n as u8));
    } else {
        push_digits(buf, n / 10);
        buf.push(digit_char((n % 10) as u8));
    }
}

/// Appends `v` in decimal to `buf`.
pub fn push_decimal(buf: &mut Vec<char>, v: i128)
    ensures
        final(buf)@ == old(buf)@ + decimal(v as int),
{
    if v < 0 {
        buf.push('-');
        let size: u128 = (-(v + 1)) as u128 + 1;
        push_digits(buf, size);
    } else {
        push_digits(buf, v as u128);
    }
}

/// Appends `v` in decimal to `buf`, on two characters at least.
pub fn push_decimal_wide(buf: &mut Vec<char>, v: i128)
    ensures
        final(buf)@ == old(buf)@ + decimal_wide(v as int),
{
    if 0 <= v && v < 10 {
        buf.push('0');
        push_digits(buf, v as u128);
    } else {
        push_decimal(buf, v);
    }
}

/// Why a text is not a whole number of the wanted size.
#[derive(Debug, Clone, Copy, PartialEq, Eq, Structural)]
pub enum IntErrorKind {
    /// The text is empty.
    Empty,
    /// A character is no decimal digit, or a sign stands alone.
    InvalidDigit,
    /// The number is above what the integer type holds.
    PosOverflow,
    /// The number is below what the integer type holds.
    NegOverflow,
}

/// True of the ten decimal digits.
pub open spec fn is_digit(c: char) -> bool {
    '0' <= c <= '9'
}

/// The number that the digit character `c` stands for.
pub open spec fn digit_value(c: char) -> int
    recommends
        is_digit(c),
{
    c as int - '0' as int
}

/// The number that the digits `s` spell, read from the left and kept at or
/// below `max`. The first character that is no digit, or that carries the
/// number above `max`, decides the error.
pub open spec fn read_up(s: Seq<char>, max: int) -> Result<int, IntErrorKind>
    decreases s.len(),
{
    if s.len() == 0 {
        Ok(0)
    } else {
        match read_up(s.drop_last(), max) {
            Err(e) => Err(e),
            Ok(n) => if !is_digit(s.last()) {
                Err(IntErrorKind::InvalidDigit)
            } else if n * 10 + digit_value(s.last()) > max {
                Err(IntErrorKind::PosOverflow)
            } else {
                Ok(n * 10 + digit_value(s.last()))
            },
        }
    }
}

/// The negative of the number that the digits `s` spell, read from the left
/// and kept at or above `min`.
pub open spec fn read_down(s: Seq<char>, min: int) -> Result<int, IntErrorKind>
    decreases s.len(),
{
    if s.len() == 0 {
        Ok(0)
    } else {
        match read_down(s.drop_last(), min) {
            Err(e) => Err(e),
            Ok(n) => if !is_digit(s.last()) {
                Err(IntErrorKind::InvalidDigit)
            } else if n * 10 - digit_value(s.last()) < min {
                Err(IntErrorKind::NegOverflow)
            } else {
                Ok(n * 10 - digit_value(s.last()))
            },
        }
    }
}

/// True of a text that is one sign and nothing else.
pub open spec fn is_bare_sign(s: Seq<char>) -> bool {
    s.len() == 1 && (s[0] == '+' || s[0] == '-')
}

/// The `u32` that `s` spells: decimal digits, with `+` allowed in front.
pub open spec fn read_u32(s: Seq<char>) -> Result<int, IntErrorKind> {
    if s.len() == 0 {
        Err(IntErrorKind::Empty)
    } else if is_bare_sign(s) {
        Err(IntErrorKind::InvalidDigit)
    } else if s[0] == '+' {
        read_up(s.skip(1), u32::MAX as int)
    } else {
        read_up(s, u32::MAX as int)
    }
}

/// The `i32` that `s` spells: decimal digits, with `+` or `-` allowed in
/// front.
pub open spec fn read_i32(s: Seq<char>) -> Result<int, IntErrorKind> {
    if s.len() == 0 {
        Err(IntErrorKind::Empty)
    } else if is_bare_sign(s) {
        Err(IntErrorKind::InvalidDigit)
    } else if s[0] == '+' {
        read_up(s.skip(1), i32::MAX as int)
    } else if s[0] == '-' {
        read_down(s.skip(1), i32::MIN as int)
    } else {
        read_up(s, i32::MAX as int)
    }
}

/// An error in a shorter text stays the error of every longer one.
pub proof fn lemma_read_up_stops(s: Seq<char>, k: int, max: int)
    requires
        0 <= k <= s.len(),
        read_up(s.take(k), max) is Err,
    ensures
        read_up(s, max) == read_up(s.take(k), max),
    decreases s.len() - k,
{
    if k < s.len() {
        assert(s.take(k + 1).drop_last() =~= s.take(k));
        lemma_read_up_stops(s, k + 1, max);
    } else {
        assert(s.take(k) =~= s);
    }
}

/// An error in a shorter text stays the error of every longer one.
pub proof fn lemma_read_down_stops(s: Seq<char>, k: int, min: int)
    requires
        0 <= k <= s.len(),
        read_down(s.take(k), min) is Err,
    ensures
        read_down(s, min) == read_down(s.take(k), min),
    decreases s.len() - k,
{
    if k < s.len() {
        assert(s.take(k + 1).drop_last() =~= s.take(k));
        lemma_read_down_stops(s, k + 1, min);
    } else {
        assert(s.take(k) =~= s);
    }
}

/// The number that the digit character `c` stands for, if it is one.
pub(crate) fn digit_of(c: char) -> (r: Option<i64>)
    ensures
        r is Some <==> is_digit(c),
        r matches Some(d) ==> d == digit_value(c) && 0 <= d <= 9,
{
    if c >= '0' && c <= '9' {
        Some((c as u32 - '0' as u32) as i64)
    } else {
        None
    }
}

/// Reads the digits of `text` from index `from` on, up to `max`.
pub(crate) fn scan_up(text: &Vec<char>, from: usize, max: i64) -> (r: Result<i64, IntErrorKind>)
    requires
        from <= text.len(),
        0 <= max <= u32::MAX,
    ensures
        r matches Ok(n) ==> read_up(text@.skip(from as int), max as int) == Ok::<
            int,
            IntErrorKind,
        >(n as int) && 0 <= n <= max,
        r matches Err(e) ==> read_up(text@.skip(from as int), max as int) == Err::<
            int,
            IntErrorKind,
        >(e),
{
    let ghost rest = text@.skip(from as int);
    let mut n: i64 = 0;
    let mut i: usize = from;
    while i < text.len()
        invariant
            from <= i <= text.len(),
            rest == text@.skip(from as int),
            0 <= n <= max <= u32::MAX,
            read_up(rest.take(i - from), max as int) == Ok::<int, IntErrorKind>(n as int),
        decreases text.len() - i,
    {
        proof {
            assert(rest.take(i - from + 1).drop_last() =~= rest.take(i - from));
        }
        match digit_of(text[i]) {
            None => {
                proof {
                    lemma_read_up_stops(rest, i - from + 1, max as int);
                }
                return Err(IntErrorKind::InvalidDigit);
            },
            Some(d) => {
                if n * 10 + d > max {
                    proof {
                        lemma_read_up_stops(rest, i - from + 1, max as int);
                    }
                    return Err(IntErrorKind::PosOverflow);
                }
                n = n * 10 + d;
            },
        }
        i += 1;
    }
    assert(rest.take(i - from) =~= rest);
    Ok(n)
}

/// Reads the digits of `text` from index `from` on as a negative number,
/// down to `min`.
pub(crate) fn scan_down(text: &Vec<char>, from: usize, min: i64) -> (r: Result<i64, IntErrorKind>)
    requires
        from <= text.len(),
        i32::MIN <= min <= 0,
    ensures
        r matches Ok(n) ==> read_down(text@.skip(from as int), min as int) == Ok::<
            int,
            IntErrorKind,
        >(n as int) && min <= n <= 0,
        r matches Err(e) ==> read_down(text@.skip(from as int), min as int) == Err::<
            int,
            IntErrorKind,
        >(e),
{
    let ghost rest = text@.skip(from as int);
    let mut n: i64 = 0;
    let mut i: usize = from;
    while i < text.len()
        invariant
            from <= i <= text.len(),
            rest == text@.skip(from as int),
            i32::MIN <= min <= n <= 0,
            read_down(rest.take(i - from), min as int) == Ok::<int, IntErrorKind>(n as int),
        decreases text.len() - i,
    {
        proof {
            assert(rest.take(i - from + 1).drop_last() =~= rest.take(i - from));
        }
        match digit_of(text[i]) {
            None => {
                proof {
                    lemma_read_down_stops(rest, i - from + 1, min as int);
                }
                return Err(IntErrorKind::InvalidDigit);
            },
            Some(d) => {
                if n * 10 - d < min {
                    proof {
                        lemma_read_down_stops(rest, i - from + 1, min as int);
                    }
                    return Err(IntErrorKind::NegOverflow);
                }
                n = n * 10 - d;
            },
        }
        i += 1;
    }
    assert(rest.take(i - from) =~= rest);
    Ok(n)
}

/// True of a text that is one sign and nothing else.
pub(crate) fn is_sign_alone(text: &Vec<char>) -> (r: bool)
    ensures
        r == is_bare_sign(text@),
{
    text.len() == 1 && (text[0] == '+' || text[0] == '-')
}

/// The `u32` that `text` spells.
pub fn parse_u32(text: &Vec<char>) -> (r: Result<u32, IntErrorKind>)
    ensures
        r matches Ok(n) ==> read_u32(text@) == Ok::<int, IntErrorKind>(n as int),
        r matches Err(e) ==> read_u32(text@) == Err::<int, IntErrorKind>(e),
{
    if text.len() == 0 {
        return Err(IntErrorKind::Empty);
    }
    if is_sign_alone(text) {
        return Err(IntErrorKind::InvalidDigit);
    }
    let from: usize = if text[0] == '+' {
        1
    } else {
        0
    };
    assert(text@.skip(0) =~= text@);
    match scan_up(text, from, 0xffff_ffff) {
        Ok(n) => Ok(n as u32),
        Err(e) => Err(e),
    }
}

/// The `i32` that `text` spells.
pub fn parse_i32(text: &Vec<char>) -> (r: Result<i32, IntErrorKind>)
    ensures
        r matches Ok(n) ==> read_i32(text@) == Ok::<int, IntErrorKind>(n as int),
        r matches Err(e) ==> read_i32(text@) == Err::<int, IntErrorKind>(e),
{
    if text.len() == 0 {
        return Err(IntErrorKind::Empty);
    }
    if is_sign_alone(text) {
        return Err(IntErrorKind::InvalidDigit);
    }
    assert(text@.skip(0) =~= text@);
    let found = if text[0] == '+' {
        scan_up(text, 1, 0x7fff_ffff)
    } else if text[0] == '-' {
        scan_down(text, 1, -0x8000_0000)
    } else {
        scan_up(text, 0, 0x7fff_ffff)
    };
    match found {
        Ok(n) => Ok(n as i32),
        Err(e) => Err(e),
    }
}


} // verus!
