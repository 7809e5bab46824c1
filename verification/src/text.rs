//! Text as the machine needs it: digits, trimming, splitting and matching.
use vstd::prelude::*;
use vstd::utf8::{decode_utf8, valid_utf8};

verus! {

/// `String::push` appends the character.
pub assume_specification[ String::push ](s: &mut String, c: char)
    ensures
        final(s)@ == old(s)@.push(c),
;

/// The lower-case hexadecimal digit of a value below sixteen.
pub open spec fn hex_digit(n: int) -> char {
    if n < 10 {
        (48 + n) as u8 as char
    } else {
        (87 + n) as u8 as char
    }
}

/// The last `width` hexadecimal digits of `x`, padded with zeros.
pub open spec fn hex_digits(x: nat, width: nat) -> Seq<char>
    decreases width,
{
    if width == 0 {
        Seq::empty()
    } else {
        hex_digits(x / 16, (width - 1) as nat).push(hex_digit((x % 16) as int))
    }
}

/// The decimal digits of `n`, without leading zeros.
pub open spec fn decimal_digits(n: nat) -> Seq<char>
    decreases n,
{
    let last = (48 + n % 10) as u8 as char;
    if n < 10 {
        seq![last]
    } else {
        decimal_digits(n / 10).push(last)
    }
}

/// Appends `x` in hexadecimal, `width` digits wide.
pub fn push_hex(out: &mut String, x: u64, width: u32)
    ensures
        final(out)@ == old(out)@ + hex_digits(x as nat, width as nat),
    decreases width,
{
    if width > 0 {
        push_hex(out, x / 16, width - 1);
        let n: u8 = (x % 16) as u8;
        let c: char = if n < 10 { (48 + n) as char } else { (87 + n) as char };
        out.push(c);
    }
}

/// Appends `n` in decimal.
pub fn push_decimal(out: &mut String, n: u64)
    ensures
        final(out)@ == old(out)@ + decimal_digits(n as nat),
    decreases n,
{
    if n >= 10 {
        push_decimal(out, n / 10);
    }
    let d: u8 = (n % 10) as u8;
    out.push((48 + d) as char);
}

/// The characters with Unicode's White_Space property.
pub open spec fn is_white_space(c: char) -> bool {
    let n = c as u32;
    ||| 0x09 <= n <= 0x0d
    ||| n == 0x20
    ||| n == 0x85
    ||| n == 0xa0
    ||| n == 0x1680
    ||| 0x2000 <= n <= 0x200a
    ||| n == 0x2028
    ||| n == 0x2029
    ||| n == 0x202f
    ||| n == 0x205f
    ||| n == 0x3000
}

/// `s` without the white space it starts with.
pub open spec fn trimmed_start(s: Seq<char>) -> Seq<char>
    decreases s.len(),
{
    if s.len() > 0 && is_white_space(s[0]) {
        trimmed_start(s.drop_first())
    } else {
        s
    }
}

/// `s` without the white space it ends with.
pub open spec fn trimmed_end(s: Seq<char>) -> Seq<char>
    decreases s.len(),
{
    if s.len() > 0 && is_white_space(s.last()) {
        trimmed_end(s.drop_last())
    } else {
        s
    }
}

/// `s` without the white space at either end.
pub open spec fn trimmed(s: Seq<char>) -> Seq<char> {
    trimmed_end(trimmed_start(s))
}

/// `str::trim` drops leading and trailing white space, which is what has
/// Unicode's White_Space property.
pub assume_specification[ str::trim ](s: &str) -> (r: &str)
    ensures
        r@ == trimmed(s@),
;

/// `c` in lower case, where it is an ASCII letter.
pub open spec fn ascii_lower(c: char) -> char {
    if 'A' <= c <= 'Z' {
        (c as u8 + 32) as u8 as char
    } else {
        c
    }
}

/// The two texts are the same but for the case of ASCII letters.
pub open spec fn same_but_for_case(a: Seq<char>, b: Seq<char>) -> bool {
    &&& a.len() == b.len()
    &&& forall|i: int| 0 <= i < a.len() ==> ascii_lower(#[trigger] a[i]) == ascii_lower(b[i])
}

/// `str::eq_ignore_ascii_case` compares two texts after lowering their ASCII
/// letters.
pub assume_specification[ str::eq_ignore_ascii_case ](a: &str, b: &str) -> (r: bool)
    ensures
        r == same_but_for_case(a@, b@),
;

/// `std::str::from_utf8` gives the text that well-formed bytes encode, and
/// nothing for any others.
#[verifier::external_body]
pub(crate) fn utf8_text(bytes: &[u8]) -> (r: Option<&str>)
    ensures
        r is Some <==> valid_utf8(bytes@),
        r matches Some(t) ==> t@ == decode_utf8(bytes@),
{
    std::str::from_utf8(bytes).ok()
}

/// The characters of a text.
pub(crate) fn chars_of(s: &str) -> (r: Vec<char>)
    ensures
        r@ == s@,
{
    let mut r: Vec<char> = Vec::new();
    for c in it: s.chars()
        invariant
            it.seq() == s@,
            r@ == s@.take(it.index() as int),
    {
        r.push(c);
    }
    r
}

/// The text of some characters.
pub(crate) fn text_of(chars: &[char]) -> (r: String)
    ensures
        r@ == chars@,
{
    let mut r: String = String::new();
    for i in 0..chars.len()
        invariant
            r@ == chars@.take(i as int),
    {
        r.push(chars[i]);
    }
    assert(chars@.take(chars@.len() as int) =~= chars@);
    r
}

/// Whether two texts are the same.
pub(crate) fn same_text(a: &str, b: &str) -> (r: bool)
    ensures
        r == (a@ == b@),
{
    let x: Vec<char> = chars_of(a);
    let y: Vec<char> = chars_of(b);
    if x.len() != y.len() {
        return false;
    }
    for i in 0..x.len()
        invariant
            x@ == a@,
            y@ == b@,
            x@.len() == y@.len(),
            forall|j: int| 0 <= j < i ==> x@[j] == y@[j],
    {
        if x[i] != y[i] {
            return false;
        }
    }
    assert(x@ =~= y@);
    true
}

/// `s` without the run of `c` it starts with.
pub open spec fn without_leading(s: Seq<char>, c: char) -> Seq<char>
    decreases s.len(),
{
    if s.len() > 0 && s[0] == c {
        without_leading(s.drop_first(), c)
    } else {
        s
    }
}

/// Drops the run of `c` that a text starts with.
pub(crate) fn drop_leading(s: &str, c: char) -> (r: String)
    ensures
        r@ == without_leading(s@, c),
{
    let x: Vec<char> = chars_of(s);
    let len: usize = x.len();
    let mut i: usize = 0;
    assert(s@.skip(0) =~= s@);
    while i < len && x[i] == c
        invariant
            x@ == s@,
            len == x@.len(),
            0 <= i <= len,
            without_leading(s@, c) == without_leading(s@.skip(i as int), c),
        decreases len - i,
    {
        assert(s@.skip(i as int).drop_first() =~= s@.skip(i + 1));
        i += 1;
    }
    assert(s@.skip(i as int) =~= x@.subrange(i as int, len as int));
    text_of(vstd::slice::slice_subrange(x.as_slice(), i, len))
}

/// Where `c` stands last in `s`, or -1.
pub open spec fn last_at(s: Seq<char>, c: char) -> int
    decreases s.len(),
{
    if s.len() == 0 {
        -1
    } else if s.last() == c {
        s.len() - 1
    } else {
        last_at(s.drop_last(), c)
    }
}

/// What follows the last `c` in `s`, where there is one.
pub open spec fn after_last(s: Seq<char>, c: char) -> Option<Seq<char>> {
    if last_at(s, c) < 0 {
        None
    } else {
        Some(s.skip(last_at(s, c) + 1))
    }
}

/// What follows the last `c` of a text, where there is one.
pub(crate) fn tail_after(s: &str, c: char) -> (r: Option<String>)
    ensures
        r is Some <==> after_last(s@, c) is Some,
        r matches Some(t) ==> t@ == after_last(s@, c)->0,
{
    let x: Vec<char> = chars_of(s);
    let len: usize = x.len();
    let mut i: usize = len;
    assert(s@.take(len as int) =~= s@);
    while i > 0
        invariant
            x@ == s@,
            len == x@.len(),
            0 <= i <= len,
            last_at(s@, c) == last_at(s@.take(i as int), c),
        decreases i,
    {
        if x[i - 1] == c {
            assert(s@.skip(i as int) =~= x@.subrange(i as int, len as int));
            return Some(text_of(vstd::slice::slice_subrange(x.as_slice(), i, len)));
        }
        assert(s@.take(i as int).drop_last() =~= s@.take(i - 1));
        i -= 1;
    }
    None
}

/// The pieces of `s` between its separators: one more than there are of them.
pub open spec fn split_at_each(s: Seq<char>, sep: char) -> Seq<Seq<char>>
    decreases s.len(),
{
    if s.len() == 0 {
        seq![Seq::<char>::empty()]
    } else {
        let before = split_at_each(s.drop_last(), sep);
        if s.last() == sep {
            before.push(Seq::empty())
        } else {
            before.drop_last().push(before.last().push(s.last()))
        }
    }
}

/// The texts' characters.
pub open spec fn texts(v: Seq<String>) -> Seq<Seq<char>> {
    v.map_values(|t: String| t@)
}

/// Splits a text at each separator.
pub(crate) fn split_text(s: &str, sep: char) -> (r: Vec<String>)
    ensures
        texts(r@) == split_at_each(s@, sep),
{
    let x: Vec<char> = chars_of(s);
    let mut done: Vec<String> = Vec::new();
    let mut cur: Vec<char> = Vec::new();
    let len: usize = x.len();
    for i in 0usize..len
        invariant
            x@ == s@,
            len == x@.len(),
            split_at_each(s@.take(i as int), sep) == texts(done@).push(cur@),
    {
        assert(s@.take(i + 1).drop_last() =~= s@.take(i as int));
        assert(texts(done@).push(cur@).drop_last() =~= texts(done@));
        if x[i] == sep {
            let piece: String = text_of(cur.as_slice());
            let ghost was = done@;
            done.push(piece);
            assert(texts(done@) =~= texts(was).push(cur@));
            cur = Vec::new();
        } else {
            cur.push(x[i]);
        }
    }
    assert(s@.take(len as int) =~= s@);
    let piece: String = text_of(cur.as_slice());
    let ghost was = done@;
    done.push(piece);
    assert(texts(done@) =~= texts(was).push(cur@));
    done
}

/// The value of a run of decimal digits.
pub open spec fn decimal_value(s: Seq<char>) -> nat
    decreases s.len(),
{
    if s.len() == 0 {
        0
    } else {
        decimal_value(s.drop_last()) * 10 + (s.last() as u32 - 48) as nat
    }
}

/// `s` is one or more decimal digits.
pub open spec fn all_digits(s: Seq<char>) -> bool {
    &&& s.len() > 0
    &&& forall|i: int| 0 <= i < s.len() ==> '0' <= #[trigger] s[i] <= '9'
}

/// The 32-bit number that a text spells: decimal digits, after at most one
/// plus sign.
pub open spec fn u32_of(s: Seq<char>) -> Option<u32> {
    let digits = if s.len() > 0 && s[0] == '+' {
        s.drop_first()
    } else {
        s
    };
    if all_digits(digits) && decimal_value(digits) <= u32::MAX {
        Some(decimal_value(digits) as u32)
    } else {
        None
    }
}

proof fn value_of_prefix(s: Seq<char>, i: int)
    requires
        0 <= i <= s.len(),
        forall|j: int| 0 <= j < s.len() ==> '0' <= #[trigger] s[j] <= '9',
    ensures
        decimal_value(s.take(i)) <= decimal_value(s),
    decreases s.len() - i,
{
    if i == s.len() {
        assert(s.take(i) =~= s);
    } else {
        value_of_prefix(s, i + 1);
        assert(s.take(i + 1).drop_last() =~= s.take(i));
    }
}

/// Reads a 32-bit number.
pub(crate) fn parse_u32(s: &str) -> (r: Option<u32>)
    ensures
        r == u32_of(s@),
{
    let x: Vec<char> = chars_of(s);
    let len: usize = x.len();
    let start: usize = if len > 0 && x[0] == '+' { 1 } else { 0 };
    let ghost digits = if s@.len() > 0 && s@[0] == '+' {
        s@.drop_first()
    } else {
        s@
    };
    assert(digits =~= s@.skip(start as int));
    if start == len {
        return None;
    }
    let mut value: u64 = 0;
    for i in start..len
        invariant
            x@ == s@,
            len == x@.len(),
            start < len,
            digits == s@.skip(start as int),
            u32_of(s@) == (if all_digits(digits) && decimal_value(digits) <= u32::MAX {
                Some(decimal_value(digits) as u32)
            } else {
                None
            }),
            value <= u32::MAX,
            value == decimal_value(digits.take(i - start)),
            forall|j: int| 0 <= j < i - start ==> '0' <= #[trigger] digits[j] <= '9',
    {
        let c: char = x[i];
        assert(digits[i - start] == c);
        if c < '0' || c > '9' {
            return None;
        }
        assert(digits.take(i - start + 1).drop_last() =~= digits.take(i - start));
        value = value * 10 + (c as u32 - 48) as u64;
        if value > u32::MAX as u64 {
            proof {
                if all_digits(digits) {
                    value_of_prefix(digits, i - start + 1);
                }
            }
            return None;
        }
    }
    assert(digits.take(len - start) =~= digits);
    Some(value as u32)
}

/// A number in hexadecimal is as wide as was asked for, and ends in the digit of
/// its remainder by sixteen, behind the digits of its quotient.
pub proof fn hex_digits_spell_the_number(x: nat, width: nat)
    ensures
        hex_digits(x, width).len() == width,
        width > 0 ==> {
            let last = hex_digits(x, width)[width - 1] as int;
            &&& x % 16 < 10 ==> last == 48 + x % 16
            &&& x % 16 >= 10 ==> last == 87 + x % 16
            &&& hex_digits(x, width).take(width - 1) == hex_digits(x / 16, (width - 1) as nat)
        },
    decreases width,
{
    if width > 0 {
        hex_digits_spell_the_number(x / 16, (width - 1) as nat);
        assert(hex_digits(x, width).take(width - 1) =~= hex_digits(x / 16, (width - 1) as nat));
    }
}

/// A number in decimal ends in the digit of its remainder by ten, behind the
/// digits of its quotient where there is one.
pub proof fn decimal_digits_spell_the_number(n: nat)
    ensures
        decimal_digits(n).len() > 0,
        decimal_digits(n).last() as int == 48 + n % 10,
        n < 10 ==> decimal_digits(n).len() == 1,
        n >= 10 ==> decimal_digits(n).drop_last() == decimal_digits(n / 10),
{
    if n >= 10 {
        assert(decimal_digits(n).drop_last() =~= decimal_digits(n / 10));
    }
}

/// One character is a number where it is a digit, with a plus sign before it or
/// without; nothing is none, and a plus sign is none.
pub proof fn one_digit_is_a_number(c: char)
    ensures
        '0' <= c <= '9' ==> u32_of(seq![c]) == Some((c as int - 48) as u32) && u32_of(
            seq!['+', c],
        ) == Some((c as int - 48) as u32),
        !('0' <= c <= '9') ==> u32_of(seq![c]) is None && u32_of(seq!['+', c]) is None,
        u32_of(Seq::<char>::empty()) is None,
{
    reveal_with_fuel(decimal_value, 3);
    assert(seq![c].drop_last() =~= Seq::<char>::empty());
    assert(seq!['+', c].drop_first() =~= seq![c]);
    let one = seq![c];
    assert(one[0] == c);
    if c == '+' {
        assert(seq![c].drop_first() =~= Seq::<char>::empty());
    }
}

/// A character behind a text makes it the number that is ten times as large and
/// the digit more, where the text is a number, the character a digit and 32 bits
/// hold it, and makes it none otherwise.
pub proof fn a_digit_more_is_ten_times_as_much(s: Seq<char>, c: char)
    requires
        s.len() > 0,
        s != seq!['+'],
    ensures
        u32_of(s.push(c)) == match u32_of(s) {
            Some(v) if '0' <= c <= '9' && 10 * v + (c as int - 48) <= u32::MAX => Some(
                (10 * v + (c as int - 48)) as u32,
            ),
            _ => None,
        },
{
    let digits = if s[0] == '+' {
        s.drop_first()
    } else {
        s
    };
    let more = digits.push(c);
    assert(s.push(c)[0] == s[0]);
    if s[0] == '+' {
        assert(s.push(c).drop_first() =~= more);
        if s.len() == 1 {
            assert(s =~= seq!['+']);
        }
    }
    assert(more.drop_last() =~= digits);
    assert(more[more.len() - 1] == c);
    if all_digits(more) {
        assert forall|i: int| 0 <= i < digits.len() implies '0' <= #[trigger] digits[i] <= '9' by {
            assert(more[i] == digits[i]);
        }
    }
    if all_digits(digits) && '0' <= c <= '9' {
        assert(all_digits(more));
    }
}

/// A text without the separator is one piece: itself.
pub proof fn one_piece_is_the_text(s: Seq<char>, sep: char)
    requires
        !s.contains(sep),
    ensures
        split_at_each(s, sep) == seq![s],
    decreases s.len(),
{
    if s.len() > 0 {
        let front = s.drop_last();
        assert(s.contains(s[s.len() - 1]));
        assert forall|i: int| 0 <= i < front.len() implies front[i] != sep by {
            assert(s.contains(s[i]));
        }
        one_piece_is_the_text(front, sep);
        assert(front.push(s.last()) =~= s);
        assert(split_at_each(s, sep) =~= seq![s]);
    } else {
        assert(s =~= Seq::<char>::empty());
    }
}

/// A separator parts the pieces before it from those behind it.
pub proof fn a_separator_parts_the_pieces(a: Seq<char>, b: Seq<char>, sep: char)
    ensures
        split_at_each(a.push(sep) + b, sep) == split_at_each(a, sep) + split_at_each(b, sep),
        split_at_each(b, sep).len() > 0,
    decreases b.len(),
{
    let s = a.push(sep) + b;
    if b.len() == 0 {
        assert(s =~= a.push(sep));
        assert(s.drop_last() =~= a);
        assert(split_at_each(s, sep) =~= split_at_each(a, sep) + split_at_each(b, sep));
    } else {
        a_separator_parts_the_pieces(a, b.drop_last(), sep);
        assert(s.drop_last() =~= a.push(sep) + b.drop_last());
        let x = split_at_each(a, sep);
        let y = split_at_each(b.drop_last(), sep);
        assert((x + y).drop_last() =~= x + y.drop_last());
        assert(split_at_each(s, sep) =~= x + split_at_each(b, sep));
    }
}

/// Every character that leads a text and is not wanted there goes, and nothing
/// else does.
pub proof fn only_what_leads_is_dropped(s: Seq<char>, c: char)
    ensures
        without_leading(seq![c] + s, c) == without_leading(s, c),
        s.len() == 0 || s[0] != c ==> without_leading(s, c) == s,
{
    assert((seq![c] + s).drop_first() =~= s);
}

/// What follows the last of a character is what stands behind it up to the end,
/// with none of that character in it; where there is none, nothing does.
pub proof fn the_tail_is_behind_the_last(a: Seq<char>, b: Seq<char>, c: char)
    requires
        !b.contains(c),
    ensures
        after_last(a.push(c) + b, c) == Some(b),
        after_last(b, c) is None,
    decreases b.len(),
{
    let s = a.push(c) + b;
    last_of(a, b, c);
    assert(s.skip(a.len() as int + 1) =~= b);
}

proof fn last_of(a: Seq<char>, b: Seq<char>, c: char)
    requires
        !b.contains(c),
    ensures
        last_at(a.push(c) + b, c) == a.len(),
        last_at(b, c) == -1,
    decreases b.len(),
{
    let s = a.push(c) + b;
    if b.len() == 0 {
        assert(s =~= a.push(c));
    } else {
        assert(b.contains(b[b.len() - 1]));
        assert forall|i: int| 0 <= i < b.drop_last().len() implies b.drop_last()[i] != c by {
            assert(b.contains(b[i]));
        }
        last_of(a, b.drop_last(), c);
        assert(s.drop_last() =~= a.push(c) + b.drop_last());
    }
}

} // verus!
