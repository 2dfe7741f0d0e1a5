//! The transfer offer that a bot announces with `DCC SEND`, and its decoder.
use crate::text::{
    decimal, escape, is_digit, lemma_decimal, lemma_split_last_number, lemma_trim_unchanged,
    lemma_unescape_escape, lemma_split_last_number_parts, parse_unsigned, chars_of, push_char, split_last_number, split_last_number_in, trim, trim_bounds, unescape,
    unquote,
};
use vstd::prelude::*;

verus! {

/// An IPv4 address, held as the 32-bit number that DCC writes it as.
#[derive(Clone, Copy, Debug, PartialEq, Eq, Structural)]
pub struct Ipv4Address {
    bits: u32,
}

/// The four octets of the packed address `bits`, most significant first.
pub open spec fn octets_of(bits: u32) -> Seq<u8> {
    seq![
        (bits / 0x1000000) as u8,
        (bits / 0x10000 % 0x100) as u8,
        (bits / 0x100 % 0x100) as u8,
        (bits % 0x100) as u8,
    ]
}

impl View for Ipv4Address {
    type V = u32;

    closed spec fn view(&self) -> u32 {
        self.bits
    }
}

impl Ipv4Address {
    /// The address that `bits` packs, most significant octet first.
    pub fn from_bits(bits: u32) -> (r: Ipv4Address)
        ensures
            r@ == bits,
    {
        Ipv4Address { bits }
    }

    /// The packed 32-bit form of the address.
    pub fn to_bits(&self) -> (r: u32)
        ensures
            r == self@,
    {
        self.bits
    }

    /// The four octets of the address, most significant first.
    pub fn octets(&self) -> (r: [u8; 4])
        ensures
            r@ == octets_of(self@),
    {
        let b = self.bits;
        let r = [(b / 0x1000000) as u8, (b / 0x10000 % 0x100) as u8, (b / 0x100 % 0x100) as u8, (
        b % 0x100) as u8];
        assert(r@ =~= octets_of(self@));
        r
    }
}

/// The octets put back together give the packed address again.
pub proof fn lemma_octets_recompose(bits: u32)
    ensures
        octets_of(bits)[0] as int * 0x1000000 + octets_of(bits)[1] as int * 0x10000
            + octets_of(bits)[2] as int * 0x100 + octets_of(bits)[3] as int == bits as int,
{
    let b = bits as int;
    assert(b / 0x1000000 < 0x100);
    assert(b == (b / 0x1000000) * 0x1000000 + (b / 0x10000 % 0x100) * 0x10000 + (b / 0x100
        % 0x100) * 0x100 + b % 0x100) by (nonlinear_arith)
        requires
            0 <= b < 0x100000000,
    {
        assert(b == (b / 0x10000) * 0x10000 + b % 0x10000);
        assert(b / 0x10000 == (b / 0x1000000) * 0x100 + b / 0x10000 % 0x100);
        assert(b % 0x10000 == (b / 0x100 % 0x100) * 0x100 + b % 0x100);
    }
}

/// A decoded `DCC SEND` offer.
#[derive(Clone, Debug)]
pub struct Response {
    /// The name of the file being sent.
    pub filename: String,
    /// Address of the sender.
    pub address: Ipv4Address,
    /// Port of the DCC transfer.
    pub port: u16,
    /// Size of the file in bytes.
    pub filesize: u64,
}

/// What an offer states: file name, packed address, port and size.
pub type OfferView = (Seq<char>, u32, u16, u64);

impl View for Response {
    type V = OfferView;

    open spec fn view(&self) -> OfferView {
        (self.filename@, self.address@, self.port, self.filesize)
    }
}

pub open spec fn dcc_send_prefix() -> Seq<char> {
    seq!['D', 'C', 'C', ' ', 'S', 'E', 'N', 'D', ' ']
}

/// The offer in what follows `DCC SEND `: size, port and address are the
/// last three space-separated fields, and what stands before them is the
/// quoted file name.
pub open spec fn decode_fields(s: Seq<char>) -> Option<OfferView> {
    match split_last_number(s, u64::MAX as nat) {
        None => None,
        Some((r1, size)) => match split_last_number(r1, u16::MAX as nat) {
            None => None,
            Some((r2, port)) => match split_last_number(r2, u32::MAX as nat) {
                None => None,
                Some((name, ip)) => Some(
                    (unescape(unquote(name)), ip as u32, port as u16, size as u64),
                ),
            },
        },
    }
}

/// The offer that `m` announces, if it is a `DCC SEND` message.
pub open spec fn decode_offer(m: Seq<char>) -> Option<OfferView> {
    let t = trim(m);
    if t.len() >= 9 && t.take(9) == dcc_send_prefix() {
        decode_fields(t.skip(9))
    } else {
        None
    }
}

/// `decode_fields(v[a..b])`.
fn decode_fields_in(v: &Vec<char>, a: usize, b: usize) -> (r: Option<Response>)
    requires
        a <= b <= v.len(),
    ensures
        r is Some <==> decode_fields(v@.subrange(a as int, b as int)) is Some,
        r is Some ==> decode_fields(v@.subrange(a as int, b as int)) == Some(r->0@),
{
    let (s1, filesize) = match split_last_number_in(v, a, b, u64::MAX) {
        Some(p) => p,
        None => return None,
    };
    let (s2, port) = match split_last_number_in(v, a, s1, 0xffff) {
        Some(p) => p,
        None => return None,
    };
    let (s3, ip) = match split_last_number_in(v, a, s2, 0xffff_ffff) {
        Some(p) => p,
        None => return None,
    };
    let ghost name = v@.subrange(a as int, s3 as int);
    let mut x = a;
    let mut y = s3;
    if x < y && v[x] == '"' {
        x = x + 1;
    }
    if x < y && v[y - 1] == '"' {
        y = y - 1;
    }
    assert(v@.subrange(x as int, y as int) =~= unquote(name));
    let filename = unescape_in(v, x, y);
    Some(
        Response {
            filename,
            address: Ipv4Address::from_bits(ip as u32),
            port: port as u16,
            filesize,
        },
    )
}

/// The `DCC SEND` message that announces `name` at `ip`, `port`, with `size`
/// bytes: the name quoted, with each `"` in it escaped as `\"`.
pub open spec fn encode_offer(name: Seq<char>, ip: u32, port: u16, size: u64) -> Seq<char> {
    dcc_send_prefix() + seq!['"'] + escape(name) + seq!['"', ' '] + decimal(ip as nat) + seq![' ']
        + decimal(port as nat) + seq![' '] + decimal(size as nat)
}

/// Decoding a `DCC SEND` message gives back the address, port and size that
/// were written in it, and the file name as it was before escaping.
pub proof fn lemma_decode_encode(name: Seq<char>, ip: u32, port: u16, size: u64)
    ensures
        decode_offer(encode_offer(name, ip, port, size)) == Some((name, ip, port, size)),
{
    let m = encode_offer(name, ip, port, size);
    let quoted = seq!['"'] + escape(name) + seq!['"'];
    let f2 = quoted + seq![' '] + decimal(ip as nat);
    let f1 = f2 + seq![' '] + decimal(port as nat);
    let f0 = f1 + seq![' '] + decimal(size as nat);
    assert(m =~= dcc_send_prefix() + f0);
    lemma_decimal(size as nat);
    assert(m.last() == decimal(size as nat).last());
    assert(is_digit(decimal(size as nat)[decimal(size as nat).len() - 1]));
    assert(m[0] == 'D');
    lemma_trim_unchanged(m);
    assert(m.take(9) =~= dcc_send_prefix());
    assert(m.skip(9) =~= f0);
    lemma_split_last_number(f1, size as nat, u64::MAX as nat);
    lemma_split_last_number(f2, port as nat, u16::MAX as nat);
    lemma_split_last_number(quoted, ip as nat, u32::MAX as nat);
    lemma_unescape_escape(name);
    assert(unquote(quoted) =~= escape(name));
}

/// Only the whole grammar decodes: a message that decodes is, once trimmed,
/// `DCC SEND `, a file name field, and three space-separated unsigned numbers
/// that fit an address, a port and a size; any other message gives no offer.
pub proof fn lemma_decode_needs_grammar(m: Seq<char>)
    requires
        decode_offer(m) is Some,
    ensures
        exists|name: Seq<char>, ip: Seq<char>, port: Seq<char>, size: Seq<char>|
            trim(m) == #[trigger] (dcc_send_prefix() + name + seq![' '] + ip + seq![' '] + port
                + seq![' '] + size) && parse_unsigned(ip, u32::MAX as nat) is Some && parse_unsigned(
                port,
                u16::MAX as nat,
            ) is Some && parse_unsigned(size, u64::MAX as nat) is Some,
{
    let t = trim(m);
    assert(t =~= t.take(9) + t.skip(9));
    let s0 = t.skip(9);
    lemma_split_last_number_parts(s0, u64::MAX as nat);
    let (r1, size) = split_last_number(s0, u64::MAX as nat)->0;
    lemma_split_last_number_parts(r1, u16::MAX as nat);
    let (r2, port) = split_last_number(r1, u16::MAX as nat)->0;
    lemma_split_last_number_parts(r2, u32::MAX as nat);
    let (name, ip) = split_last_number(r2, u32::MAX as nat)->0;
    let fs = choose|f: Seq<char>|
        s0 == r1 + seq![' '] + f && #[trigger] parse_unsigned(f, u64::MAX as nat) == Some(size);
    let fp = choose|f: Seq<char>|
        r1 == r2 + seq![' '] + f && #[trigger] parse_unsigned(f, u16::MAX as nat) == Some(port);
    let fi = choose|f: Seq<char>|
        r2 == name + seq![' '] + f && #[trigger] parse_unsigned(f, u32::MAX as nat) == Some(ip);
    assert(t =~= dcc_send_prefix() + name + seq![' '] + fi + seq![' '] + fp + seq![' '] + fs);
    assert(parse_unsigned(fi, u32::MAX as nat) is Some);
    assert(parse_unsigned(fp, u16::MAX as nat) is Some);
    assert(parse_unsigned(fs, u64::MAX as nat) is Some);
}

/// `unescape(v[a..b])` as a new string.
fn unescape_in(v: &Vec<char>, a: usize, b: usize) -> (r: String)
    requires
        a <= b <= v.len(),
    ensures
        r@ == unescape(v@.subrange(a as int, b as int)),
{
    let mut out = String::new();
    let mut i = a;
    while i < b
        invariant
            a <= i <= b <= v.len(),
            unescape(v@.subrange(a as int, b as int)) == out@ + unescape(
                v@.subrange(i as int, b as int),
            ),
        decreases b - i,
    {
        let ghost rest = v@.subrange(i as int, b as int);
        if i + 1 < b && v[i] == '\\' && v[i + 1] == '"' {
            assert(rest.skip(2) =~= v@.subrange(i + 2, b as int));
            assert(out@.push('"') + unescape(rest.skip(2)) =~= out@ + (seq!['"'] + unescape(
                rest.skip(2),
            )));
            push_char(&mut out, '"');
            i = i + 2;
        } else {
            let c = v[i];
            assert(rest.skip(1) =~= v@.subrange(i + 1, b as int));
            assert(out@.push(c) + unescape(rest.skip(1)) =~= out@ + (seq![c] + unescape(
                rest.skip(1),
            )));
            push_char(&mut out, c);
            i = i + 1;
        }
    }
    assert(out@ + unescape(v@.subrange(i as int, b as int)) =~= out@);
    out
}

impl Response {
    /// Decodes a `DCC SEND "<name>" <address> <port> <size>` message.
    ///
    /// Returns `None` for every message that does not follow that shape; the
    /// file name loses one quote at each end and each `\"` in it becomes `"`.
    pub fn decode(msg: &str) -> (r: Option<Response>)
        ensures
            r is Some <==> decode_offer(msg@) is Some,
            r is Some ==> decode_offer(msg@) == Some(r->0@),
    {
        let v = chars_of(msg);
        let (lo, hi) = trim_bounds(&v);
        let ghost t = v@.subrange(lo as int, hi as int);
        if hi - lo < 9 || v[lo] != 'D' || v[lo + 1] != 'C' || v[lo + 2] != 'C' || v[lo + 3] != ' '
            || v[lo + 4] != 'S' || v[lo + 5] != 'E' || v[lo + 6] != 'N' || v[lo + 7] != 'D' || v[lo
            + 8] != ' ' {
            proof {
                if t.len() >= 9 && t.take(9) == dcc_send_prefix() {
                    assert(t.take(9)[0] == 'D');
                    assert(t.take(9)[1] == 'C');
                    assert(t.take(9)[2] == 'C');
                    assert(t.take(9)[3] == ' ');
                    assert(t.take(9)[4] == 'S');
                    assert(t.take(9)[5] == 'E');
                    assert(t.take(9)[6] == 'N');
                    assert(t.take(9)[7] == 'D');
                    assert(t.take(9)[8] == ' ');
                }
            }
            return None;
        }
        assert(t.take(9) =~= dcc_send_prefix());
        assert(t.skip(9) =~= v@.subrange(lo + 9, hi as int));
        decode_fields_in(&v, lo + 9, hi)
    }
}

} // verus!
