//! The connection path of a Forward Open: port segments, an electronic key,
//! and logical segments.

use vstd::prelude::*;
use vstd::std_specs::convert::FromSpecImpl;

use crate::error::{Error, Result};
use crate::text::{
    chars_of, digit_char, digit_value, digits, digits_value, is_white, is_whitespace, lemma_white_end_at, lemma_word_end, pad_left, parse_u64,
    parse_unsigned, push_char, push_hex_padded, string_of, trim, trim_bounds, white_end, word_end,
};
use crate::wire::{le16, put_slice, put_u16_le, put_u8};
use vstd::string::*;

verus! {

const CLASS_8: u8 = 0x20;
const INSTANCE_8: u8 = 0x24;
const CONNECTION_POINT_8: u8 = 0x2C;
const ELECTRONIC_KEY: u8 = 0x34;
const KEY_FORMAT: u8 = 0x04;
const ASSEMBLY_CLASS: u16 = 0x04;

/// Vendor, product, and revision the target must match for the connection to
/// be accepted.
#[derive(Debug, Clone, Copy, PartialEq, Eq, Structural, Default)]
pub struct ElectronicKey {
    pub vendor_id: u16,
    pub device_type: u16,
    pub product_code: u16,
    pub major_revision: u8,
    pub minor_revision: u8,
    /// Accept any device that claims to be compatible with this revision,
    /// rather than requiring an exact match.
    pub compatibility: bool,
}

/// Builds the connection path of a Forward Open, e.g. configuration assembly
/// 151, output 150, input 100: `20 04 24 97 2C 96 2C 64`.
#[derive(Debug, Clone, Default, PartialEq, Eq, Hash)]
pub struct ConnectionPath(Vec<u8>);

impl View for ConnectionPath {
    type V = Seq<u8>;

    closed spec fn view(&self) -> Seq<u8> {
        self.0@
    }
}

/// A logical segment: the 8-bit form `seg id` when the ID fits in a byte,
/// else the padded 16-bit form `seg+1 0 lo hi`.
pub open spec fn logical_bytes(seg8: u8, id: u16) -> Seq<u8> {
    if id <= 0xFF {
        seq![seg8, id as u8]
    } else {
        seq![(seg8 + 1) as u8, 0u8] + le16(id)
    }
}

/// A port segment: the segment byte (the port, or 15 and an extended port
/// after the link length; bit 4 set for a link address that is not one
/// byte), the link address length if extended, the extended port, the link
/// address, and a pad byte to make the segment's length even.
pub open spec fn port_bytes(port: u16, link: Seq<u8>) -> Seq<u8> {
    let extended_port = port >= 15;
    let extended_link = link.len() != 1;
    let segment = ((if extended_port { 0x0Fu8 } else { port as u8 }) + (if extended_link { 0x10u8 } else { 0u8 })) as u8;
    let body = seq![segment] + (if extended_link { seq![link.len() as u8] } else { seq![] }) + (if extended_port {
        le16(port)
    } else {
        seq![]
    }) + link;
    if body.len() % 2 == 1 {
        body.push(0)
    } else {
        body
    }
}

/// The electronic key segment.
pub open spec fn key_bytes(key: ElectronicKey) -> Seq<u8> {
    seq![0x34u8, 0x04u8] + le16(key.vendor_id) + le16(key.device_type) + le16(key.product_code) + seq![
        ((key.major_revision % 0x80) + (if key.compatibility { 0x80u8 } else { 0u8 })) as u8,
        key.minor_revision,
    ]
}

/// The usual I/O connection path: the Assembly class, the configuration
/// instance, then the output and input connection points.
pub open spec fn assembly_bytes(config: u16, output: u16, input: u16) -> Seq<u8> {
    logical_bytes(0x20, 4) + logical_bytes(0x24, config) + logical_bytes(0x2C, output) + logical_bytes(0x2C, input)
}

impl ConnectionPath {
    pub fn new() -> (r: Self)
        ensures
            r@ == Seq::<u8>::empty(),
    {
        ConnectionPath(Vec::new())
    }

    /// The usual I/O connection path: the Assembly class, the configuration
    /// instance, then the output (O->T) and input (T->O) connection points.
    pub fn assembly(config: u16, output: u16, input: u16) -> (r: Self)
        ensures
            r@ == assembly_bytes(config, output, input),
    {
        let r = Self::new().class(ASSEMBLY_CLASS).instance(config).connection_point(output).connection_point(input);
        assert(r@ =~= assembly_bytes(config, output, input));
        r
    }

    /// Route through a port. The link address is a slot number for a
    /// backplane, or e.g. an IP address as ASCII for an Ethernet port.
    pub fn port(self, port: u16, link_address: &[u8]) -> (r: Self)
        ensures
            r@ == self@ + port_bytes(port, link_address@),
    {
        let mut v = self.0;
        let extended_port = port >= 15;
        let extended_link = link_address.len() != 1;
        let base: u8 = if extended_port { 0x0F } else { port as u8 };
        let segment: u8 = if extended_link { base + 0x10 } else { base };
        let start = v.len();
        let ghost old_v = v@;
        put_u8(&mut v, segment);
        if extended_link {
            put_u8(&mut v, link_address.len() as u8);
        }
        if extended_port {
            put_u16_le(&mut v, port);
        }
        put_slice(&mut v, link_address);
        let ghost body = seq![segment] + (if extended_link { seq![link_address@.len() as u8] } else { seq![] }) + (
        if extended_port {
            le16(port)
        } else {
            seq![]
        }) + link_address@;
        assert(v@ =~= old_v + body);
        if (v.len() - start) % 2 != 0 {
            put_u8(&mut v, 0);
        }
        assert(v@ =~= old_v + port_bytes(port, link_address@));
        ConnectionPath(v)
    }

    /// Route to a slot through backplane port 1.
    pub fn backplane_slot(self, slot: u8) -> (r: Self)
        ensures
            r@ == self@ + seq![1u8, slot],
    {
        let link = [slot];
        let r = self.port(1, link.as_slice());
        assert(link@ =~= seq![slot]);
        assert(port_bytes(1, seq![slot]) =~= seq![1u8, slot]);
        r
    }

    pub fn electronic_key(self, key: ElectronicKey) -> (r: Self)
        ensures
            r@ == self@ + key_bytes(key),
    {
        let mut v = self.0;
        put_u8(&mut v, ELECTRONIC_KEY);
        put_u8(&mut v, KEY_FORMAT);
        put_u16_le(&mut v, key.vendor_id);
        put_u16_le(&mut v, key.device_type);
        put_u16_le(&mut v, key.product_code);
        let compat: u8 = if key.compatibility { 0x80 } else { 0 };
        put_u8(&mut v, (key.major_revision % 0x80) + compat);
        put_u8(&mut v, key.minor_revision);
        assert(v@ =~= self@ + key_bytes(key));
        ConnectionPath(v)
    }

    pub fn class(self, id: u16) -> (r: Self)
        ensures
            r@ == self@ + logical_bytes(0x20, id),
    {
        self.logical(CLASS_8, id)
    }

    pub fn instance(self, id: u16) -> (r: Self)
        ensures
            r@ == self@ + logical_bytes(0x24, id),
    {
        self.logical(INSTANCE_8, id)
    }

    pub fn connection_point(self, id: u16) -> (r: Self)
        ensures
            r@ == self@ + logical_bytes(0x2C, id),
    {
        self.logical(CONNECTION_POINT_8, id)
    }

    /// Appends another path.
    pub fn then(self, other: ConnectionPath) -> (r: Self)
        ensures
            r@ == self@ + other@,
    {
        let mut v = self.0;
        let mut o = other.0;
        v.append(&mut o);
        ConnectionPath(v)
    }

    /// 8-bit segment when the value fits, otherwise a padded 16-bit one.
    fn logical(self, segment_8: u8, id: u16) -> (r: Self)
        requires
            segment_8 < 0xFF,
        ensures
            r@ == self@ + logical_bytes(segment_8, id),
    {
        let mut v = self.0;
        if id <= 0xFF {
            put_u8(&mut v, segment_8);
            put_u8(&mut v, id as u8);
        } else {
            put_u8(&mut v, segment_8 + 1);
            put_u8(&mut v, 0);
            put_u16_le(&mut v, id);
        }
        assert(v@ =~= self@ + logical_bytes(segment_8, id));
        ConnectionPath(v)
    }

    pub fn as_bytes(&self) -> (r: &[u8])
        ensures
            r@ == self@,
    {
        self.0.as_slice()
    }

    pub fn into_bytes(self) -> (r: Vec<u8>)
        ensures
            r@ == self@,
    {
        self.0
    }
}

/// A byte as two upper-case hexadecimal digits.
pub open spec fn hex_byte(b: u8) -> Seq<char> {
    pad_left(digits(b as nat, 16, true), 2, '0')
}

/// The text of a path: its bytes as two upper-case hexadecimal digits each,
/// separated by spaces.
pub open spec fn path_text(b: Seq<u8>) -> Seq<char>
    decreases b.len(),
{
    if b.len() == 0 {
        seq![]
    } else if b.len() == 1 {
        hex_byte(b[0])
    } else {
        path_text(b.drop_last()) + seq![' '] + hex_byte(b.last())
    }
}

/// The bytes of the whitespace-separated hexadecimal words of `s` from `i`
/// on; `None` when one of them is not a byte in hexadecimal.
pub open spec fn hex_words(s: Seq<char>, i: int) -> Option<Seq<u8>>
    decreases s.len() - i,
{
    let a = white_end(s, i);
    proof {
        lemma_white_end_at(s, i);
    }
    if a >= s.len() {
        Some(seq![])
    } else {
        proof {
            lemma_word_end(s, a + 1);
        }
        let b = word_end(s, a + 1);
        match parse_unsigned(s.subrange(a, b), 16, 255) {
            None => None,
            Some(v) => match hex_words(s, b) {
                None => None,
                Some(rest) => Some(seq![v as u8] + rest),
            },
        }
    }
}

proof fn lemma_hex_digit(d: nat)
    requires
        d < 16,
    ensures
        digit_value(digit_char(d, true), 16) == Some(d),
        !is_white(digit_char(d, true)),
        digit_char(d, true) != '+',
{
}

proof fn lemma_hex_byte(x: u8)
    ensures
        hex_byte(x).len() == 2,
        hex_byte(x)[0] == digit_char((x / 16) as nat, true),
        hex_byte(x)[1] == digit_char((x % 16) as nat, true),
        parse_unsigned(hex_byte(x), 16, 255) == Some(x as nat),
        !is_white(hex_byte(x)[0]),
        !is_white(hex_byte(x)[1]),
{
    let h = hex_byte(x);
    let n = x as nat;
    if n < 16 {
        assert(digits(n, 16, true) =~= seq![digit_char(n, true)]);
        assert(h =~= seq!['0', digit_char(n, true)]);
        assert(digit_char(0, true) == '0');
    } else {
        assert(digits(n / 16, 16, true) =~= seq![digit_char(n / 16, true)]);
        assert(h =~= seq![digit_char(n / 16, true), digit_char(n % 16, true)]);
    }
    lemma_hex_digit((x / 16) as nat);
    lemma_hex_digit((x % 16) as nat);
    assert(h.drop_last() =~= seq![h[0]]);
    assert(h.drop_last().drop_last() =~= Seq::<char>::empty());
    assert(digits_value(h.drop_last().drop_last(), 16) == Some(0nat));
    assert(digits_value(h.drop_last(), 16) == Some((x / 16) as nat));
    assert(digits_value(h, 16) == Some(((x / 16) * 16 + x % 16) as nat));
}

/// Where the digits of each byte stand in the text of a path: byte `k` at
/// `3k` and `3k + 1`, a space at `3k + 2` between two bytes.
proof fn lemma_path_text_layout(b: Seq<u8>)
    ensures
        b.len() == 0 ==> path_text(b).len() == 0,
        b.len() > 0 ==> path_text(b).len() == 3 * b.len() - 1,
        forall|k: int|
            0 <= k < b.len() ==> path_text(b)[3 * k] == #[trigger] hex_byte(b[k])[0] && path_text(b)[3 * k
                + 1] == hex_byte(b[k])[1],
        forall|k: int| 0 <= k < b.len() - 1 ==> #[trigger] path_text(b)[3 * k + 2] == ' ',
    decreases b.len(),
{
    if b.len() > 1 {
        let p = b.drop_last();
        lemma_path_text_layout(p);
        lemma_hex_byte(b.last());
        let t = path_text(b);
        assert forall|k: int| 0 <= k < b.len() implies t[3 * k] == #[trigger] hex_byte(b[k])[0] && t[3 * k
            + 1] == hex_byte(b[k])[1] by {
            assert(t == path_text(p) + seq![' '] + hex_byte(b.last()));
            if k < p.len() {
                assert(p[k] == b[k]);
                assert(path_text(p)[3 * k] == hex_byte(p[k])[0]);
            }
        }
        assert forall|k: int| 0 <= k < b.len() - 1 implies #[trigger] t[3 * k + 2] == ' ' by {
            if k < p.len() - 1 {
            }
        }
    } else if b.len() == 1 {
        lemma_hex_byte(b[0]);
    }
}

proof fn lemma_hex_words_from(b: Seq<u8>, k: int)
    requires
        0 <= k <= b.len(),
    ensures
        hex_words(path_text(b), 3 * k) == Some(b.skip(k)),
    decreases b.len() - k,
{
    let t = path_text(b);
    lemma_path_text_layout(b);
    if k == b.len() {
        assert(b.skip(k) =~= Seq::<u8>::empty());
    } else {
        lemma_hex_words_from(b, k + 1);
        lemma_hex_byte(b[k]);
        assert(hex_byte(b[k])[0] == t[3 * k]);
        assert(white_end(t, 3 * k) == 3 * k);
        if k + 1 < b.len() {
            assert(t[3 * k + 2] == ' ');
            assert(word_end(t, 3 * k + 2) == 3 * k + 2);
            assert(white_end(t, 3 * k + 3) == 3 * k + 3) by {
                lemma_hex_byte(b[k + 1]);
                assert(hex_byte(b[k + 1])[0] == t[3 * (k + 1)]);
            }
            assert(white_end(t, 3 * k + 2) == 3 * k + 3);
            assert(hex_words(t, 3 * k + 2) == hex_words(t, 3 * (k + 1)));
        } else {
            assert(word_end(t, 3 * k + 2) == 3 * k + 2);
            assert(b.skip(k + 1) =~= Seq::<u8>::empty());
        }
        assert(word_end(t, 3 * k + 1) == 3 * k + 2);
        assert(t.subrange(3 * k, 3 * k + 2) =~= hex_byte(b[k]));
        assert(b.skip(k) =~= seq![b[k]] + b.skip(k + 1));
    }
}

/// Joining paths (`ConnectionPath::then`) appends their bytes, so joining is
/// associative and the empty path (`ConnectionPath::new`) joins to nothing.
pub proof fn lemma_join_paths(a: ConnectionPath, b: ConnectionPath, c: ConnectionPath)
    ensures
        (a@ + b@) + c@ == a@ + (b@ + c@),
        Seq::<u8>::empty() + a@ == a@,
        a@ + Seq::<u8>::empty() == a@,
{
    assert((a@ + b@) + c@ =~= a@ + (b@ + c@));
    assert(Seq::<u8>::empty() + a@ =~= a@);
    assert(a@ + Seq::<u8>::empty() =~= a@);
}

/// Reading the text of a path back as hexadecimal words gives its bytes:
/// `from_hex` undoes `to_string`.
pub proof fn lemma_hex_round_trip(b: Seq<u8>)
    ensures
        hex_words(path_text(b), 0) == Some(b),
{
    lemma_hex_words_from(b, 0);
    assert(b.skip(0) =~= b);
}

/// The first position from `i` on that holds `c`, or the end.
pub open spec fn next_char(s: Seq<char>, i: int, c: char) -> int
    decreases s.len() - i,
{
    if i >= s.len() || s[i] == c {
        i
    } else {
        next_char(s, i + 1, c)
    }
}

pub proof fn lemma_next_char(s: Seq<char>, i: int, c: char)
    ensures
        i <= next_char(s, i, c),
        i <= s.len() ==> next_char(s, i, c) <= s.len(),
    decreases s.len() - i,
{
    if i < s.len() && s[i] != c {
        lemma_next_char(s, i + 1, c);
    }
}

/// The pieces of `s` from `i` on between the characters `c`.
pub open spec fn pieces(s: Seq<char>, i: int, c: char) -> Seq<Seq<char>>
    decreases s.len() - i,
{
    proof {
        lemma_next_char(s, i, c);
    }
    let j = next_char(s, i, c);
    if j >= s.len() {
        seq![s.subrange(i, s.len() as int)]
    } else {
        seq![s.subrange(i, j)] + pieces(s, j + 1, c)
    }
}

/// A decimal octet of an IPv4 address: one to three digits, no leading
/// zero unless it is `0`, at most 255.
pub open spec fn is_octet(t: Seq<char>) -> bool {
    &&& 1 <= t.len() <= 3
    &&& forall|k: int| 0 <= k < t.len() ==> '0' <= #[trigger] t[k] <= '9'
    &&& (t.len() == 1 || t[0] != '0')
    &&& digits_value(t, 10) matches Some(v) && v <= 255
}

/// `Ipv4Addr`'s text form: four decimal octets separated by dots.
pub open spec fn is_ipv4(t: Seq<char>) -> bool {
    let p = pieces(t, 0, '.');
    p.len() == 4 && forall|k: int| 0 <= k < 4 ==> is_octet(#[trigger] p[k])
}

/// The ASCII bytes of a text.
pub open spec fn ascii_bytes(t: Seq<char>) -> Seq<u8> {
    t.map_values(|c: char| c as u8)
}

/// The comma-separated words of a route from `i` on, trimmed, without the
/// empty ones.
pub open spec fn route_tokens(s: Seq<char>, i: int) -> Seq<Seq<char>>
    decreases s.len() - i,
{
    proof {
        lemma_next_char(s, i, ',');
    }
    let j = next_char(s, i, ',');
    let t = trim(s.subrange(i, j));
    let rest = if j >= s.len() {
        seq![]
    } else {
        route_tokens(s, j + 1)
    };
    if t.len() == 0 {
        rest
    } else {
        seq![t] + rest
    }
}

/// The port segment of a `port,link` pair: a port number (not 0) and a slot
/// number or an IPv4 address, which goes in as text.
pub open spec fn pair_bytes(port: Seq<char>, link: Seq<char>) -> Option<Seq<u8>> {
    match parse_unsigned(port, 10, 65535) {
        Some(p) => if p == 0 {
            None
        } else {
            match parse_unsigned(link, 10, 255) {
                Some(l) => Some(port_bytes(p as u16, seq![l as u8])),
                None => if is_ipv4(link) {
                    Some(port_bytes(p as u16, ascii_bytes(link)))
                } else {
                    None
                },
            }
        },
        None => None,
    }
}

/// The port segments of the pairs of `t`.
pub open spec fn route_bytes(t: Seq<Seq<char>>) -> Option<Seq<u8>>
    decreases t.len(),
{
    if t.len() < 2 {
        Some(seq![])
    } else {
        match pair_bytes(t[0], t[1]) {
            None => None,
            Some(b) => match route_bytes(t.skip(2)) {
                None => None,
                Some(rest) => Some(b + rest),
            },
        }
    }
}

/// Whether `t` is the text of an IPv4 address.
fn ipv4_text(t: &[char]) -> (r: bool)
    ensures
        r == is_ipv4(t@),
{
    let ghost s = t@;
    let mut i: usize = 0;
    let mut count: usize = 0;
    proof {
        lemma_next_char(s, 0, '.');
    }
    loop
        invariant
            i <= s.len(),
            s == t@,
            count <= 4,
            count + pieces(s, i as int, '.').len() == pieces(s, 0, '.').len(),
            forall|k: int| 0 <= k < count ==> is_octet(#[trigger] pieces(s, 0, '.')[k]),
            pieces(s, 0, '.').skip(count as int) == pieces(s, i as int, '.'),
        decreases s.len() - i,
    {
        proof {
            lemma_next_char(s, i as int, '.');
        }
        let mut j = i;
        while j < t.len() && t[j] != '.'
            invariant
                i <= j <= s.len(),
                s == t@,
                next_char(s, j as int, '.') == next_char(s, i as int, '.'),
            decreases s.len() - j,
        {
            j = j + 1;
        }
        let ghost piece = s.subrange(i as int, j as int);
        let ok = octet_text(t, i, j);
        proof {
            assert(pieces(s, i as int, '.')[0] == piece);
            assert(pieces(s, 0, '.')[count as int] == piece) by {
                assert(pieces(s, 0, '.').skip(count as int)[0] == pieces(s, 0, '.')[count as int]);
            }
        }
        if !ok || count == 4 {
            return false;
        }
        if j >= t.len() {
            proof {
                assert(pieces(s, i as int, '.').len() == 1);
                if count == 3 {
                    assert forall|k: int| 0 <= k < 4 implies is_octet(#[trigger] pieces(s, 0, '.')[k]) by {
                        if k == 3 {
                            assert(pieces(s, 0, '.')[3] == piece);
                        }
                    }
                }
            }
            return count == 3;
        }
        count = count + 1;
        proof {
            assert(pieces(s, i as int, '.') =~= seq![piece] + pieces(s, j + 1, '.'));
            assert(pieces(s, 0, '.').skip(count as int) =~= pieces(s, 0, '.').skip(count - 1).skip(1));
        }
        i = j + 1;
    }
}

/// Whether `t[from..to]` is a decimal octet.
fn octet_text(t: &[char], from: usize, to: usize) -> (r: bool)
    requires
        from <= to <= t@.len(),
    ensures
        r == is_octet(t@.subrange(from as int, to as int)),
{
    let ghost o = t@.subrange(from as int, to as int);
    if to - from < 1 || to - from > 3 {
        return false;
    }
    let mut k = from;
    while k < to
        invariant
            from <= k <= to <= t@.len(),
            o == t@.subrange(from as int, to as int),
            forall|m: int| 0 <= m < k - from ==> '0' <= #[trigger] o[m] <= '9',
        decreases to - k,
    {
        if t[k] < '0' || t[k] > '9' {
            assert(!('0' <= o[k - from] <= '9'));
            return false;
        }
        k = k + 1;
    }
    if to - from > 1 && t[from] == '0' {
        return false;
    }
    match parse_u64(t, from, to, 10) {
        Some(v) => {
            proof {
                assert(o.len() > 0 && o[0] != '+');
            }
            v <= 255
        },
        None => {
            proof {
                assert(o.len() > 0 && o[0] != '+');
            }
            false
        },
    }
}

impl ConnectionPath {
    /// The path as text: each byte as two upper-case hexadecimal digits,
    /// separated by spaces, e.g. `20 04 24 97 2C 96 2C 64`.
    pub fn to_string(&self) -> (r: String)
        ensures
            r@ == path_text(self@),
    {
        let b = self.0.as_slice();
        let mut s = String::new();
        let mut i: usize = 0;
        assert(b@.take(0) =~= Seq::<u8>::empty());
        while i < b.len()
            invariant
                i <= b@.len(),
                b@ == self@,
                s@ == path_text(b@.take(i as int)),
            decreases b@.len() - i,
        {
            let ghost before = s@;
            if i > 0 {
                push_char(&mut s, ' ');
            }
            push_hex_padded(&mut s, b[i] as u64, 2, true);
            proof {
                let t = b@.take(i + 1);
                assert(t.drop_last() =~= b@.take(i as int));
                if i > 0 {
                    assert(s@ =~= path_text(t.drop_last()) + seq![' '] + hex_byte(t.last()));
                } else {
                    assert(s@ =~= hex_byte(t.last()));
                }
            }
            i = i + 1;
        }
        assert(b@.take(i as int) =~= b@);
        s
    }

    /// Parses space-separated hex bytes, e.g. `"20 04 24 97 2C 96 2C 64"`.
    pub fn from_hex(text: &str) -> (r: Result<Self>)
        ensures
            match hex_words(text@, 0) {
                None => r matches Err(e) && e is InvalidInput,
                Some(b) => r matches Ok(p) && p@ == b,
            },
    {
        let c = chars_of(text);
        let ghost s = c@;
        let mut bytes: Vec<u8> = Vec::new();
        let mut i: usize = 0;
        loop
            invariant
                i <= s.len(),
                s == c@,
                s == text@,
                hex_words(s, 0) == match hex_words(s, i as int) {
                    None => None,
                    Some(rest) => Some(bytes@ + rest),
                },
            decreases s.len() - i,
        {
            proof {
                lemma_white_end_at(s, i as int);
            }
            let mut a = i;
            while a < c.len() && is_whitespace(c[a])
                invariant
                    i <= a <= s.len(),
                    s == c@,
                    white_end(s, a as int) == white_end(s, i as int),
                decreases s.len() - a,
            {
                a = a + 1;
            }
            if a >= c.len() {
                assert(bytes@ + seq![] =~= bytes@);
                return Ok(ConnectionPath(bytes));
            }
            proof {
                lemma_word_end(s, a + 1);
            }
            let mut b = a + 1;
            while b < c.len() && !is_whitespace(c[b])
                invariant
                    a < b <= s.len(),
                    s == c@,
                    word_end(s, b as int) == word_end(s, a + 1),
                decreases s.len() - b,
            {
                b = b + 1;
            }
            let v = match parse_u64(c.as_slice(), a, b, 16) {
                Some(v) => if v <= 0xFF {
                    v
                } else {
                    return Err(bad_hex_word(c.as_slice(), a, b, text));
                },
                None => return Err(bad_hex_word(c.as_slice(), a, b, text)),
            };
            let ghost before = bytes@;
            bytes.push(v as u8);
            proof {
                if let Some(rest) = hex_words(s, b as int) {
                    assert(before + (seq![v as u8] + rest) =~= bytes@ + rest);
                }
            }
            i = b;
        }
    }

    /// Builds a path from a route such as `"1,0"` (backplane slot 0) or
    /// `"2,10.0.0.1"`: comma-separated `port,link` pairs, where the link is a
    /// slot number or an IPv4 address.
    pub fn route(spec: &str) -> (r: Result<Self>)
        ensures
            route_tokens(spec@, 0).len() % 2 == 1 ==> (r matches Err(e) && e is InvalidInput),
            route_tokens(spec@, 0).len() % 2 == 0 ==> match route_bytes(route_tokens(spec@, 0)) {
                None => r matches Err(e) && e is InvalidInput,
                Some(b) => r matches Ok(p) && p@ == b,
            },
    {
        let c = chars_of(spec);
        let ghost s = c@;
        let words = route_words(c.as_slice());
        let ghost tv = route_tokens(s, 0);
        if words.len() % 2 != 0 {
            let mut msg = String::from_str("route '");
            msg.append(spec);
            msg.append("' must be port,link pairs");
            return Err(Error::InvalidInput(msg));
        }
        let mut path = Self::new();
        let mut k: usize = 0;
        assert(tv.skip(0) =~= tv);
        while k < words.len()
            invariant
                k <= words@.len(),
                k % 2 == 0,
                words@.len() % 2 == 0,
                words@.len() == tv.len(),
                tv == route_tokens(spec@, 0),
                forall|m: int| 0 <= m < words@.len() ==> #[trigger] words@[m]@ == tv[m],
                route_bytes(tv) == match route_bytes(tv.skip(k as int)) {
                    None => None,
                    Some(rest) => Some(path@ + rest),
                },
            decreases words@.len() - k,
        {
            let port_word = words[k].as_slice();
            let link_word = words[k + 1].as_slice();
            let ghost rest = tv.skip(k as int);
            assert(rest[0] == tv[k as int] && rest[1] == tv[k + 1]);
            assert(rest.skip(2) =~= tv.skip(k + 2));
            assert(port_word@ == tv[k as int] && link_word@ == tv[k + 1]);
            assert(port_word@.subrange(0, port_word@.len() as int) =~= port_word@);
            assert(link_word@.subrange(0, link_word@.len() as int) =~= link_word@);
            let port = match parse_u64(port_word, 0, port_word.len(), 10) {
                Some(p) => if p != 0 && p <= 0xFFFF {
                    p as u16
                } else {
                    return Err(quoted_error(port_word, " is not a port number"));
                },
                None => return Err(quoted_error(port_word, " is not a port number")),
            };
            let ghost before = path@;
            let slot = match parse_u64(link_word, 0, link_word.len(), 10) {
                Some(l) => if l <= 0xFF {
                    Some(l as u8)
                } else {
                    None
                },
                None => None,
            };
            match slot {
                Some(l) => {
                    let link: [u8; 1] = [l];
                    path = path.port(port, link.as_slice());
                    assert(link@ =~= seq![l]);
                },
                None => {
                    if ipv4_text(link_word) {
                        let bytes = ascii_of(link_word);
                        path = path.port(port, bytes.as_slice());
                    } else {
                        return Err(quoted_error(link_word, " is not a slot number or IPv4 address"));
                    }
                },
            }
            proof {
                if let Some(r2) = route_bytes(tv.skip(k + 2)) {
                    assert(before + (pair_bytes(tv[k as int], tv[k + 1])->Some_0 + r2) =~= path@ + r2);
                }
            }
            k = k + 2;
        }
        assert(tv.skip(k as int) =~= Seq::<Seq<char>>::empty());
        assert(path@ + seq![] =~= path@);
        Ok(path)
    }
}

/// The ASCII bytes of `t`, which is all digits and dots.
fn ascii_of(t: &[char]) -> (b: Vec<u8>)
    requires
        is_ipv4(t@),
    ensures
        b@ == ascii_bytes(t@),
{
    let mut b: Vec<u8> = Vec::new();
    let mut i: usize = 0;
    while i < t.len()
        invariant
            i <= t@.len(),
            b@ == ascii_bytes(t@.take(i as int)),
        decreases t@.len() - i,
    {
        b.push(t[i] as u8);
        i = i + 1;
        assert(b@ =~= ascii_bytes(t@.take(i as int)));
    }
    assert(t@.take(i as int) =~= t@);
    b
}

/// `'word' reason`, for an error about `word`.
fn quoted_error(word: &[char], reason: &str) -> (e: Error)
    ensures
        e is InvalidInput,
{
    let mut msg = String::from_str("'");
    msg.append(string_of(word).as_str());
    msg.append("'");
    msg.append(reason);
    Error::InvalidInput(msg)
}

fn bad_hex_word(c: &[char], from: usize, to: usize, text: &str) -> (e: Error)
    requires
        from <= to <= c@.len(),
    ensures
        e is InvalidInput,
{
    let mut msg = String::from_str("'");
    msg.append(string_of(vstd::slice::slice_subrange(c, from, to)).as_str());
    msg.append("' is not a hex byte in path '");
    msg.append(text);
    msg.append("'");
    Error::InvalidInput(msg)
}

/// The trimmed, non-empty comma-separated words of `c`.
fn route_words(c: &[char]) -> (r: Vec<Vec<char>>)
    ensures
        r@.len() == route_tokens(c@, 0).len(),
        forall|m: int| 0 <= m < r@.len() ==> #[trigger] r@[m]@ == route_tokens(c@, 0)[m],
{
    let ghost s = c@;
    let ghost mut done: Seq<Seq<char>> = seq![];
    let mut out: Vec<Vec<char>> = Vec::new();
    let mut i: usize = 0;
    loop
        invariant
            i <= s.len(),
            s == c@,
            route_tokens(s, 0) == done + route_tokens(s, i as int),
            out@.len() == done.len(),
            forall|m: int| 0 <= m < out@.len() ==> #[trigger] out@[m]@ == done[m],
        decreases s.len() + 1 - i,
    {
        proof {
            lemma_next_char(s, i as int, ',');
        }
        let mut j = i;
        while j < c.len() && c[j] != ','
            invariant
                i <= j <= s.len(),
                s == c@,
                next_char(s, j as int, ',') == next_char(s, i as int, ','),
            decreases s.len() - j,
        {
            j = j + 1;
        }
        let (a, b) = trim_bounds(c, i, j);
        let ghost t = s.subrange(a as int, b as int);
        let ghost later = if j >= s.len() {
            Seq::<Seq<char>>::empty()
        } else {
            route_tokens(s, j + 1)
        };
        if a < b {
            let word = vstd::slice::slice_to_vec(vstd::slice::slice_subrange(c, a, b));
            let ghost old_out = out@;
            out.push(word);
            proof {
                let old_done = done;
                done = done.push(t);
                assert(route_tokens(s, i as int) =~= seq![t] + later);
                assert(old_done + (seq![t] + later) =~= done + later);
                assert forall|m: int| 0 <= m < out@.len() implies #[trigger] out@[m]@ == done[m] by {
                    if m < old_out.len() {
                        assert(out@[m] == old_out[m]);
                    }
                }
            }
        } else {
            assert(route_tokens(s, i as int) == later);
        }
        if j >= c.len() {
            assert(done + Seq::<Seq<char>>::empty() =~= done);
            return out;
        }
        i = j + 1;
    }
}

/// Raw path bytes, e.g. from a device's documentation.
impl From<Vec<u8>> for ConnectionPath {
    fn from(bytes: Vec<u8>) -> (r: Self)
        ensures
            r@ == bytes@,
    {
        ConnectionPath(bytes)
    }
}

impl FromSpecImpl<Vec<u8>> for ConnectionPath {
    open spec fn obeys_from_spec() -> bool {
        true
    }

    closed spec fn from_spec(bytes: Vec<u8>) -> Self {
        ConnectionPath(bytes)
    }
}

impl From<ConnectionPath> for Vec<u8> {
    fn from(path: ConnectionPath) -> (r: Self)
        ensures
            r@ == path@,
    {
        path.0
    }
}

impl FromSpecImpl<ConnectionPath> for Vec<u8> {
    open spec fn obeys_from_spec() -> bool {
        true
    }

    closed spec fn from_spec(path: ConnectionPath) -> Self {
        path.0
    }
}

/// Parses space-separated hex bytes, e.g. `"20 04 24 97 2C 96 2C 64"`.
impl core::str::FromStr for ConnectionPath {
    type Err = Error;

    fn from_str(s: &str) -> (r: Result<Self>)
        ensures
            match hex_words(s@, 0) {
                None => r matches Err(e) && e is InvalidInput,
                Some(b) => r matches Ok(p) && p@ == b,
            },
    {
        Self::from_hex(s)
    }
}

} // verus!
