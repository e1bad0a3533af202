//! Decimal and hexadecimal text for messages and display strings.

use vstd::prelude::*;
use vstd::string::*;
use vstd::std_specs::iter::IteratorSpec;

verus! {

/// The character of a digit below 16: `0-9`, then `a-f` (lower case) or
/// `A-F` (upper case).
pub open spec fn digit_char(d: nat, upper: bool) -> char {
    if d < 10 {
        (48 + d) as char
    } else if upper {
        (55 + d) as char
    } else {
        (87 + d) as char
    }
}

/// `n` in base `base` without leading zeros ("0" for zero).
pub open spec fn digits(n: nat, base: nat, upper: bool) -> Seq<char>
    decreases n,
{
    if base < 2 || base > 16 {
        seq![]
    } else if n < base {
        seq![digit_char(n, upper)]
    } else {
        proof {
            vstd::arithmetic::div_mod::lemma_div_decreases(n as int, base as int);
        }
        digits(n / base, base, upper).push(digit_char(n % base, upper))
    }
}

/// `n` in decimal, as `{}` formats it.
pub open spec fn dec(n: nat) -> Seq<char> {
    digits(n, 10, false)
}

/// `n` in lower-case hexadecimal, as `{:x}` formats it.
pub open spec fn hex(n: nat) -> Seq<char> {
    digits(n, 16, false)
}

/// `s` padded on the left with `c` to at least `width` characters.
pub open spec fn pad_left(s: Seq<char>, width: nat, c: char) -> Seq<char> {
    if s.len() >= width {
        s
    } else {
        Seq::new((width - s.len()) as nat, |_i: int| c) + s
    }
}

/// `String::push`: appends one character.
#[verifier::external_body]
pub(crate) fn push_char(s: &mut String, c: char)
    ensures
        final(s)@ == old(s)@.push(c),
{
    s.push(c)
}

fn digit(d: u64, upper: bool) -> (c: char)
    requires
        d < 16,
    ensures
        c == digit_char(d as nat, upper),
{
    let b: u8 = if d < 10 {
        48 + d as u8
    } else if upper {
        55 + d as u8
    } else {
        87 + d as u8
    };
    b as char
}

/// Appends `n` in base `base` (2 to 16).
pub fn push_digits(s: &mut String, n: u64, base: u64, upper: bool)
    requires
        2 <= base <= 16,
    ensures
        final(s)@ == old(s)@ + digits(n as nat, base as nat, upper),
    decreases n,
{
    if n >= base {
        proof {
            vstd::arithmetic::div_mod::lemma_div_decreases(n as int, base as int);
        }
        push_digits(s, n / base, base, upper);
        push_char(s, digit(n % base, upper));
    } else {
        push_char(s, digit(n, upper));
    }
}

/// Appends `n` in decimal.
pub fn push_dec(s: &mut String, n: u64)
    ensures
        final(s)@ == old(s)@ + dec(n as nat),
{
    push_digits(s, n, 10, false);
}

/// Appends `n` in lower-case hexadecimal.
pub fn push_hex(s: &mut String, n: u64)
    ensures
        final(s)@ == old(s)@ + hex(n as nat),
{
    push_digits(s, n, 16, false);
}

/// Appends `n` in hexadecimal, padded with zeros to `width` digits.
pub fn push_hex_padded(s: &mut String, n: u64, width: usize, upper: bool)
    ensures
        final(s)@ == old(s)@ + pad_left(digits(n as nat, 16, upper), width as nat, '0'),
{
    let mut t = String::new();
    push_digits(&mut t, n, 16, upper);
    let len = t.as_str().unicode_len();
    let ghost start = s@;
    if len < width {
        let mut i = len;
        while i < width
            invariant
                len <= i <= width,
                len == t@.len(),
                s@ == start + Seq::new((i - len) as nat, |_j: int| '0'),
            decreases width - i,
        {
            push_char(s, '0');
            i = i + 1;
            assert(s@ =~= start + Seq::new((i - len) as nat, |_j: int| '0'));
        }
    }
    s.append(t.as_str());
    assert(s@ =~= start + pad_left(digits(n as nat, 16, upper), width as nat, '0'));
}

} // verus!

verus! {

/// Appends `n` as `{:#0w$x}` formats it: `0x`, then lower-case hex digits
/// padded with zeros so that prefix and digits make `width` characters.
pub fn push_hex_prefixed(s: &mut String, n: u64, width: usize)
    ensures
        final(s)@ == old(s)@ + "0x"@ + pad_left(hex(n as nat), if width >= 2 { (width - 2) as nat } else { 0 }, '0'),
{
    s.append("0x");
    let w = if width >= 2 { width - 2 } else { 0 };
    push_hex_padded(s, n, w, false);
}

} // verus!

verus! {

broadcast use vstd::string::axiom_spec_iter, vstd::string::next_postcondition;

/// The characters of `s`.
pub fn chars_of(s: &str) -> (v: Vec<char>)
    ensures
        v@ == s@,
{
    let mut it = s.chars();
    let mut v: Vec<char> = Vec::new();
    loop
        invariant
            v@ + it.remaining() == s@,
            it.obeys_prophetic_iter_laws(),
            it.decrease() is Some,
        decreases it.decrease()->0,
    {
        let ghost before = it.remaining();
        match it.next() {
            Some(c) => {
                v.push(c);
                assert(v@ + it.remaining() =~= s@) by {
                    assert(before =~= seq![c] + before.drop_first());
                }
            },
            None => {
                assert(v@ =~= s@);
                return v;
            },
        }
    }
}

/// The string of the characters `c`.
pub fn string_of(c: &[char]) -> (s: String)
    ensures
        s@ == c@,
{
    let mut s = String::new();
    let mut i: usize = 0;
    while i < c.len()
        invariant
            i <= c@.len(),
            s@ == c@.take(i as int),
        decreases c@.len() - i,
    {
        push_char(&mut s, c[i]);
        i = i + 1;
        assert(s@ =~= c@.take(i as int));
    }
    assert(c@.take(i as int) =~= c@);
    s
}

/// `char::is_whitespace`: the characters with the Unicode White_Space
/// property.
pub open spec fn is_white(c: char) -> bool {
    let n = c as u32;
    ||| 0x09 <= n <= 0x0D
    ||| n == 0x20
    ||| n == 0x85
    ||| n == 0xA0
    ||| n == 0x1680
    ||| 0x2000 <= n <= 0x200A
    ||| n == 0x2028
    ||| n == 0x2029
    ||| n == 0x202F
    ||| n == 0x205F
    ||| n == 0x3000
}

pub fn is_whitespace(c: char) -> (r: bool)
    ensures
        r == is_white(c),
{
    let n = c as u32;
    (0x09 <= n && n <= 0x0D) || n == 0x20 || n == 0x85 || n == 0xA0 || n == 0x1680 || (0x2000 <= n && n <= 0x200A)
        || n == 0x2028 || n == 0x2029 || n == 0x202F || n == 0x205F || n == 0x3000
}

/// Where `s` starts once leading whitespace from `i` on is skipped.
pub open spec fn white_end(s: Seq<char>, i: int) -> int
    decreases s.len() - i,
{
    if i < s.len() && is_white(s[i]) {
        white_end(s, i + 1)
    } else {
        i
    }
}

/// The position after the run of non-whitespace from `i`.
pub open spec fn word_end(s: Seq<char>, i: int) -> int
    decreases s.len() - i,
{
    if i >= s.len() || is_white(s[i]) {
        i
    } else {
        word_end(s, i + 1)
    }
}

pub proof fn lemma_white_end_at(s: Seq<char>, i: int)
    ensures
        i <= white_end(s, i),
        i <= s.len() ==> white_end(s, i) <= s.len(),
    decreases s.len() - i,
{
    if i < s.len() && is_white(s[i]) {
        lemma_white_end_at(s, i + 1);
    }
}

pub proof fn lemma_word_end(s: Seq<char>, i: int)
    ensures
        i <= word_end(s, i),
        i <= s.len() ==> word_end(s, i) <= s.len(),
    decreases s.len() - i,
{
    if i < s.len() && !is_white(s[i]) {
        lemma_word_end(s, i + 1);
    }
}

/// Where `s.take(j)` ends once trailing whitespace is dropped.
pub open spec fn white_start(s: Seq<char>, j: int) -> int
    decreases j,
{
    if j > 0 && is_white(s[j - 1]) {
        white_start(s, j - 1)
    } else {
        j
    }
}

/// `str::trim`: `s` without leading and trailing whitespace.
pub open spec fn trim(s: Seq<char>) -> Seq<char> {
    let a = white_end(s, 0);
    if a >= s.len() {
        seq![]
    } else {
        s.subrange(a, white_start(s, s.len() as int))
    }
}

proof fn lemma_white_end(s: Seq<char>, i: int)
    requires
        0 <= i <= s.len(),
    ensures
        i <= white_end(s, i) <= s.len(),
        white_end(s, i) < s.len() ==> !is_white(s[white_end(s, i)]),
    decreases s.len() - i,
{
    if i < s.len() && is_white(s[i]) {
        lemma_white_end(s, i + 1);
    }
}

proof fn lemma_white_start(s: Seq<char>, j: int, a: int)
    requires
        0 <= a < j <= s.len(),
        !is_white(s[a]),
    ensures
        a < white_start(s, j) <= j,
    decreases j,
{
    if j > 0 && is_white(s[j - 1]) {
        lemma_white_start(s, j - 1, a);
    }
}

/// The bounds of `c[from..to]` without leading and trailing whitespace.
pub fn trim_bounds(c: &[char], from: usize, to: usize) -> (r: (usize, usize))
    requires
        from <= to <= c@.len(),
    ensures
        r.0 <= r.1 <= to,
        c@.subrange(r.0 as int, r.1 as int) == trim(c@.subrange(from as int, to as int)),
{
    let ghost s = c@.subrange(from as int, to as int);
    let mut a = from;
    while a < to && is_whitespace(c[a])
        invariant
            from <= a <= to <= c@.len(),
            white_end(s, (a - from) as int) == white_end(s, 0),
            s == c@.subrange(from as int, to as int),
        decreases to - a,
    {
        assert(s[(a - from) as int] == c@[a as int]);
        a = a + 1;
    }
    proof {
        lemma_white_end(s, 0);
    }
    if a < to {
        assert(s[(a - from) as int] == c@[a as int]);
        assert(white_end(s, (a - from) as int) == (a - from) as int);
    }
    if a >= to {
        assert(c@.subrange(a as int, a as int) =~= trim(s));
        return (a, a);
    }
    let mut b = to;
    while b > a && is_whitespace(c[b - 1])
        invariant
            from <= a < to,
            a < b <= to <= c@.len(),
            white_start(s, (b - from) as int) == white_start(s, s.len() as int),
            !is_white(c@[a as int]),
            s == c@.subrange(from as int, to as int),
        decreases b,
    {
        assert(s[(b - 1 - from) as int] == c@[b - 1]);
        assert(b - 1 != a);
        b = b - 1;
    }
    assert(s[(b - 1 - from) as int] == c@[b - 1]);
    assert(white_start(s, (b - from) as int) == (b - from) as int);
    proof {
        lemma_white_start(s, s.len() as int, (a - from) as int);
    }
    assert(c@.subrange(a as int, b as int) =~= s.subrange((a - from) as int, (b - from) as int));
    (a, b)
}

/// `char::to_ascii_lowercase`.
pub open spec fn ascii_lower(c: char) -> char {
    if 'A' <= c <= 'Z' {
        ((c as u32) + 32) as char
    } else {
        c
    }
}

/// `str::eq_ignore_ascii_case`: the same characters, ignoring the case of
/// ASCII letters.
pub open spec fn eq_ignore_case(a: Seq<char>, b: Seq<char>) -> bool {
    a.len() == b.len() && forall|i: int| 0 <= i < a.len() ==> #[trigger] ascii_lower(a[i]) == ascii_lower(b[i])
}

fn to_lower(c: char) -> (r: char)
    ensures
        r == ascii_lower(c),
{
    if 'A' <= c && c <= 'Z' {
        let n = c as u32 + 32;
        assert(0x61 <= n <= 0x7A);
        char_from(n)
    } else {
        c
    }
}

/// `char::from_u32` on a code point that is a character.
fn char_from(n: u32) -> (c: char)
    requires
        n < 0x80,
    ensures
        c == n as char,
{
    let b = n as u8;
    assert(b == n);
    b as char
}

/// Whether `a[from..from + b.len()]` equals `b`, ignoring the case of ASCII
/// letters.
pub fn eq_ignore_case_at(a: &[char], from: usize, b: &[char]) -> (r: bool)
    requires
        from <= a@.len(),
    ensures
        r == (a@.len() - from >= b@.len() && eq_ignore_case(a@.subrange(from as int, from + b@.len()), b@)),
{
    if a.len() - from < b.len() {
        return false;
    }
    let n = a.len();
    let mut i: usize = 0;
    while i < b.len()
        invariant
            i <= b@.len(),
            n == a@.len(),
            a@.len() - from >= b@.len(),
            from <= a@.len(),
            forall|j: int| 0 <= j < i ==> ascii_lower(a@[from + j]) == ascii_lower(b@[j]),
        decreases b@.len() - i,
    {
        let k: usize = from + i;
        let x = to_lower(a[k]);
        let y = to_lower(b[i]);
        if x != y {
            assert(ascii_lower(a@.subrange(from as int, from + b@.len())[i as int]) != ascii_lower(b@[i as int]));
            return false;
        }
        i = i + 1;
    }
    assert forall|j: int| 0 <= j < b@.len() implies #[trigger] ascii_lower(a@.subrange(from as int, from + b@.len())[j])
        == ascii_lower(b@[j]) by {}
    true
}

/// `str::eq_ignore_ascii_case`.
pub fn str_eq_ignore_case(a: &str, b: &str) -> (r: bool)
    ensures
        r == eq_ignore_case(a@, b@),
{
    let ac = chars_of(a);
    let bc = chars_of(b);
    let r = eq_ignore_case_at(ac.as_slice(), 0, bc.as_slice());
    assert(ac@.subrange(0, bc@.len() as int) =~= ac@ || ac@.len() != bc@.len());
    proof {
        if ac@.len() >= bc@.len() && ac@.len() != bc@.len() {
            assert(!eq_ignore_case(a@, b@));
        }
    }
    r && ac.len() == bc.len()
}

} // verus!

verus! {

/// The value of `c` as a digit in base `radix` (2 to 36): `0-9`, then the
/// letters of either case; `None` when it is not one.
pub open spec fn digit_value(c: char, radix: nat) -> Option<nat> {
    let v: int = if '0' <= c <= '9' {
        c as int - 48
    } else if 'a' <= c <= 'z' {
        c as int - 87
    } else if 'A' <= c <= 'Z' {
        c as int - 55
    } else {
        36
    };
    if v < radix { Some(v as nat) } else { None }
}

/// The value of the digits `s` in base `radix`; `None` when one of them is
/// not a digit.
pub open spec fn digits_value(s: Seq<char>, radix: nat) -> Option<nat>
    decreases s.len(),
{
    if s.len() == 0 {
        Some(0)
    } else {
        match digits_value(s.drop_last(), radix) {
            None => None,
            Some(v) => match digit_value(s.last(), radix) {
                None => None,
                Some(d) => Some(v * radix + d),
            },
        }
    }
}

/// `from_str_radix` for an unsigned integer type whose largest value is
/// `max`: an optional `+`, then at least one digit, of a value that fits.
pub open spec fn parse_unsigned(s: Seq<char>, radix: nat, max: nat) -> Option<nat> {
    let body = if s.len() > 0 && s[0] == '+' { s.skip(1) } else { s };
    if body.len() == 0 {
        None
    } else {
        match digits_value(body, radix) {
            Some(v) => if v <= max { Some(v) } else { None },
            None => None,
        }
    }
}

proof fn lemma_digits_grow(s: Seq<char>, k: int, radix: nat)
    requires
        0 <= k <= s.len(),
        radix >= 1,
        digits_value(s, radix) is Some,
    ensures
        digits_value(s.take(k), radix) is Some,
        digits_value(s.take(k), radix)->Some_0 <= digits_value(s, radix)->Some_0,
    decreases s.len() - k,
{
    if k < s.len() {
        lemma_digits_grow(s, k + 1, radix);
        let t = s.take(k + 1);
        assert(t.drop_last() =~= s.take(k));
        let v = digits_value(s.take(k), radix)->Some_0;
        let d = digit_value(t.last(), radix)->Some_0;
        assert(v <= v * radix + d) by (nonlinear_arith)
            requires
                radix >= 1,
        ;
    } else {
        assert(s.take(k) =~= s);
    }
}

fn digit_of(c: char, radix: u64) -> (r: Option<u64>)
    requires
        2 <= radix <= 36,
    ensures
        match digit_value(c, radix as nat) {
            None => r is None,
            Some(d) => r == Some(d as u64),
        },
{
    let v: u64 = if '0' <= c && c <= '9' {
        (c as u32 - 48) as u64
    } else if 'a' <= c && c <= 'z' {
        (c as u32 - 87) as u64
    } else if 'A' <= c && c <= 'Z' {
        (c as u32 - 55) as u64
    } else {
        36
    };
    if v < radix { Some(v) } else { None }
}

/// Parses `c[from..to]` as [`parse_unsigned`] does, for `u64`.
pub fn parse_u64(c: &[char], from: usize, to: usize, radix: u64) -> (r: Option<u64>)
    requires
        2 <= radix <= 36,
        from <= to <= c@.len(),
    ensures
        match parse_unsigned(c@.subrange(from as int, to as int), radix as nat, u64::MAX as nat) {
            None => r is None,
            Some(v) => r == Some(v as u64),
        },
{
    let ghost s = c@.subrange(from as int, to as int);
    let start = if from < to && c[from] == '+' { from + 1 } else { from };
    let ghost body = c@.subrange(start as int, to as int);
    assert(body =~= (if s.len() > 0 && s[0] == '+' { s.skip(1) } else { s }));
    if start >= to {
        return None;
    }
    let mut acc: u64 = 0;
    let mut i = start;
    assert(body.take(0) =~= Seq::<char>::empty());
    while i < to
        invariant
            start <= i <= to <= c@.len(),
            body == c@.subrange(start as int, to as int),
            s == c@.subrange(from as int, to as int),
            body == (if s.len() > 0 && s[0] == '+' { s.skip(1) } else { s }),
            body.len() > 0,
            2 <= radix <= 36,
            digits_value(body.take(i - start), radix as nat) == Some(acc as nat),
        decreases to - i,
    {
        let ghost k = i - start;
        assert(body.take(k + 1).drop_last() =~= body.take(k));
        assert(body.take(k + 1).last() == c@[i as int]);
        let d = match digit_of(c[i], radix) {
            Some(d) => d,
            None => {
                proof {
                    if digits_value(body, radix as nat) is Some {
                        lemma_digits_grow(body, k + 1, radix as nat);
                    }
                }
                return None;
            },
        };
        let next = match acc.checked_mul(radix) {
            Some(m) => m.checked_add(d),
            None => None,
        };
        match next {
            Some(n) => {
                acc = n;
            },
            None => {
                proof {
                    if digits_value(body, radix as nat) is Some {
                        lemma_digits_grow(body, k + 1, radix as nat);
                        assert(acc * radix + d > u64::MAX);
                    }
                }
                return None;
            },
        }
        i = i + 1;
    }
    assert(body.take(i - start) =~= body);
    Some(acc)
}

} // verus!
