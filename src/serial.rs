use crate::error::Error;
use crate::io::{digits_value, is_digit, lemma_digits_monotone};
use crate::pdeque::{first_index, lemma_first_index};
use vstd::prelude::*;

verus! {

/// A serial baud rate.
#[derive(Debug, Clone, Copy, PartialEq, Eq, Structural)]
pub enum BaudRate {
    Baud110,
    Baud300,
    Baud600,
    Baud1200,
    Baud2400,
    Baud4800,
    Baud9600,
    Baud19200,
    Baud38400,
    Baud57600,
    Baud115200,
}

/// The number of data bits of a serial character.
#[derive(Debug, Clone, Copy, PartialEq, Eq, Structural)]
pub enum CharSize {
    Bits5,
    Bits6,
    Bits7,
    Bits8,
}

/// Serial parity.
#[derive(Debug, Clone, Copy, PartialEq, Eq, Structural)]
pub enum Parity {
    ParityNone,
    ParityEven,
    ParityOdd,
}

/// Serial stop bits.
#[derive(Debug, Clone, Copy, PartialEq, Eq, Structural)]
pub enum StopBits {
    Stop1,
    Stop2,
}

/// The parameters of a serial port, written as
/// `device:baud:char_size:parity:stop_bits`, such as `/dev/ttyS0:9600:8:N:1`.
#[derive(Debug, Clone, PartialEq, Eq)]
pub struct Parameters {
    pub port_dev: String,
    pub baud_rate: BaudRate,
    pub char_size: CharSize,
    pub parity: Parity,
    pub stop_bits: StopBits,
}

/// The byte `:` that separates the fields.
pub open spec fn is_colon(x: u8) -> bool {
    x == 58
}

/// The position of the first `:`, or the length.
pub open spec fn colon_at(b: Seq<u8>) -> int {
    first_index(b, |x: u8| is_colon(x))
}

/// Whether `b` holds a `:`.
pub open spec fn has_colon(b: Seq<u8>) -> bool {
    colon_at(b) < b.len()
}

/// The first field: everything before the first `:`.
pub open spec fn head_field(b: Seq<u8>) -> Seq<u8> {
    if has_colon(b) {
        b.subrange(0, colon_at(b))
    } else {
        b
    }
}

/// Everything after the first `:`.
pub open spec fn after_colon(b: Seq<u8>) -> Seq<u8> {
    b.subrange(colon_at(b) + 1, b.len() as int)
}

/// The value of a decimal number written without a leading zero.
pub open spec fn plain_decimal(f: Seq<u8>) -> Option<int> {
    if f.len() > 0 && f[0] != 48 && (forall|i: int| 0 <= i < f.len() ==> is_digit(#[trigger] f[i])) {
        Some(digits_value(f))
    } else {
        None
    }
}

/// The baud rate a number stands for.
pub open spec fn baud_of_value(v: int) -> Option<BaudRate> {
    if v == 110 {
        Some(BaudRate::Baud110)
    } else if v == 300 {
        Some(BaudRate::Baud300)
    } else if v == 600 {
        Some(BaudRate::Baud600)
    } else if v == 1200 {
        Some(BaudRate::Baud1200)
    } else if v == 2400 {
        Some(BaudRate::Baud2400)
    } else if v == 4800 {
        Some(BaudRate::Baud4800)
    } else if v == 9600 {
        Some(BaudRate::Baud9600)
    } else if v == 19200 {
        Some(BaudRate::Baud19200)
    } else if v == 38400 {
        Some(BaudRate::Baud38400)
    } else if v == 57600 {
        Some(BaudRate::Baud57600)
    } else if v == 115200 {
        Some(BaudRate::Baud115200)
    } else {
        None
    }
}

/// The baud rate written in a field.
pub open spec fn baud_field(f: Seq<u8>) -> Option<BaudRate> {
    match plain_decimal(f) {
        Some(v) => baud_of_value(v),
        None => None,
    }
}

/// The character size written in a field: `5` to `8`.
pub open spec fn char_size_field(f: Seq<u8>) -> Option<CharSize> {
    if f.len() != 1 {
        None
    } else if f[0] == 53 {
        Some(CharSize::Bits5)
    } else if f[0] == 54 {
        Some(CharSize::Bits6)
    } else if f[0] == 55 {
        Some(CharSize::Bits7)
    } else if f[0] == 56 {
        Some(CharSize::Bits8)
    } else {
        None
    }
}

/// The parity written in a field: `N`, `E` or `O`.
pub open spec fn parity_field(f: Seq<u8>) -> Option<Parity> {
    if f.len() != 1 {
        None
    } else if f[0] == 78 {
        Some(Parity::ParityNone)
    } else if f[0] == 69 {
        Some(Parity::ParityEven)
    } else if f[0] == 79 {
        Some(Parity::ParityOdd)
    } else {
        None
    }
}

/// The stop bits written in a field: `1` or `2`.
pub open spec fn stop_bits_field(f: Seq<u8>) -> Option<StopBits> {
    if f.len() != 1 {
        None
    } else if f[0] == 49 {
        Some(StopBits::Stop1)
    } else if f[0] == 50 {
        Some(StopBits::Stop2)
    } else {
        None
    }
}

/// The parameters written in the bytes `b` of a port path, as (port
/// device bytes, baud rate, char size, parity, stop bits); the fields
/// after the stop bits are ignored.
pub open spec fn spec_parse_path(b: Seq<u8>) -> Option<(Seq<u8>, BaudRate, CharSize, Parity, StopBits)> {
    let r1 = after_colon(b);
    let r2 = after_colon(r1);
    let r3 = after_colon(r2);
    let r4 = after_colon(r3);
    if !has_colon(b) || !has_colon(r1) || !has_colon(r2) || !has_colon(r3) {
        None
    } else {
        match (
            baud_field(head_field(r1)),
            char_size_field(head_field(r2)),
            parity_field(head_field(r3)),
            stop_bits_field(head_field(r4)),
        ) {
            (Some(br), Some(cs), Some(p), Some(sb)) => Some((head_field(b), br, cs, p, sb)),
            _ => None,
        }
    }
}

/// The position of the first `:` in `b[start..]`, or the length.
fn find_colon(b: &[u8], start: usize) -> (r: usize)
    requires
        start <= b@.len(),
    ensures
        start <= r <= b@.len(),
        r - start == colon_at(b@.subrange(start as int, b@.len() as int)),
        r < b@.len() ==> b@[r as int] == 58,
{
    let ghost s = b@.subrange(start as int, b@.len() as int);
    let n = b.len();
    let mut i = start;
    while i < n && b[i] != 58
        invariant
            start <= i <= n,
            n == b@.len(),
            s == b@.subrange(start as int, n as int),
            forall|j: int| 0 <= j < i - start ==> !(|x: u8| is_colon(x))(#[trigger] s[j]),
        decreases n - i,
    {
        proof {
            assert(s[i - start] == b@[i as int]);
        }
        i += 1;
    }
    proof {
        if i < n {
            assert(s[i - start] == b@[i as int]);
        }
        lemma_first_index(s, |x: u8| is_colon(x), i - start);
    }
    i
}

/// The largest value [`decimal_in`] reports; larger numbers name no rate.
pub const DECIMAL_LIMIT: u64 = 1_000_000;

/// The value of `b[start..end]` written as a decimal without a leading
/// zero, if it is one and does not exceed [`DECIMAL_LIMIT`].
fn decimal_in(b: &[u8], start: usize, end: usize) -> (r: Option<u64>)
    requires
        start <= end <= b@.len(),
    ensures
        ({
            let f = b@.subrange(start as int, end as int);
            match plain_decimal(f) {
                Some(v) => if v <= DECIMAL_LIMIT {
                    r == Some(v as u64)
                } else {
                    r is None
                },
                None => r is None,
            }
        }),
        r is Some ==> plain_decimal(b@.subrange(start as int, end as int)) == Some(r->0 as int),
{
    let ghost f = b@.subrange(start as int, end as int);
    if start == end || b[start] == 48 {
        return None;
    }
    let mut v: u64 = 0;
    let mut i = start;
    while i < end
        invariant
            start <= i <= end,
            end <= b@.len(),
            f == b@.subrange(start as int, end as int),
            f.len() > 0,
            f[0] != 48,
            forall|j: int| 0 <= j < i - start ==> is_digit(#[trigger] f[j]),
            v as int == digits_value(f.subrange(0, i - start)),
            v <= DECIMAL_LIMIT,
        decreases end - i,
    {
        let c = b[i];
        proof {
            assert(f[i - start] == c);
        }
        if c < 48 || c > 57 {
            return None;
        }
        let nv = v * 10 + (c - 48) as u64;
        proof {
            let p = f.subrange(0, i - start + 1);
            assert(p.drop_last() =~= f.subrange(0, i - start));
            assert(p.last() == c);
        }
        if nv > DECIMAL_LIMIT {
            proof {
                if forall|j: int| 0 <= j < f.len() ==> is_digit(#[trigger] f[j]) {
                    lemma_digits_monotone(f, i - start + 1);
                }
            }
            return None;
        }
        v = nv;
        i += 1;
    }
    proof {
        assert(f.subrange(0, f.len() as int) =~= f);
        crate::io::lemma_digits_nonneg(f);
    }
    Some(v)
}

fn baud_of(v: u64) -> (r: Option<BaudRate>)
    ensures
        r == baud_of_value(v as int),
{
    if v == 110 {
        Some(BaudRate::Baud110)
    } else if v == 300 {
        Some(BaudRate::Baud300)
    } else if v == 600 {
        Some(BaudRate::Baud600)
    } else if v == 1200 {
        Some(BaudRate::Baud1200)
    } else if v == 2400 {
        Some(BaudRate::Baud2400)
    } else if v == 4800 {
        Some(BaudRate::Baud4800)
    } else if v == 9600 {
        Some(BaudRate::Baud9600)
    } else if v == 19200 {
        Some(BaudRate::Baud19200)
    } else if v == 38400 {
        Some(BaudRate::Baud38400)
    } else if v == 57600 {
        Some(BaudRate::Baud57600)
    } else if v == 115200 {
        Some(BaudRate::Baud115200)
    } else {
        None
    }
}

/// The single byte of `b[start..end]`, if the field has exactly one.
fn single_byte(b: &[u8], start: usize, end: usize) -> (r: Option<u8>)
    requires
        start <= end <= b@.len(),
    ensures
        ({
            let f = b@.subrange(start as int, end as int);
            &&& f.len() == 1 ==> r == Some(f[0])
            &&& f.len() != 1 ==> r is None
        }),
{
    if end - start == 1 {
        Some(b[start])
    } else {
        None
    }
}

/// Where the field starting at `start` ends, and where the next one
/// starts, in terms of the spec functions.
proof fn lemma_field(b: Seq<u8>, start: int, c: int)
    requires
        0 <= start <= c <= b.len(),
        c - start == colon_at(b.subrange(start, b.len() as int)),
    ensures
        head_field(b.subrange(start, b.len() as int)) == b.subrange(start, c),
        has_colon(b.subrange(start, b.len() as int)) <==> c < b.len(),
        c < b.len() ==> after_colon(b.subrange(start, b.len() as int)) == b.subrange(c + 1, b.len() as int),
{
    let s = b.subrange(start, b.len() as int);
    if c < b.len() {
        assert(s.subrange(0, c - start) =~= b.subrange(start, c));
        assert(s.subrange(c - start + 1, s.len() as int) =~= b.subrange(c + 1, b.len() as int));
    } else {
        assert(s =~= b.subrange(start, c));
    }
}

/// Parses the parameters of a serial port from its path (see
/// [`spec_parse_path`]); the device is the text before the first `:`.
pub fn parse_path(path: &str) -> (r: Result<Parameters, Error>)
    ensures
        match spec_parse_path(vstd::utf8::encode_utf8(path@)) {
            Some((dev, br, cs, p, sb)) => r is Ok && vstd::utf8::encode_utf8(r->Ok_0.port_dev@)
                == dev && r->Ok_0.baud_rate == br && r->Ok_0.char_size == cs && r->Ok_0.parity
                == p && r->Ok_0.stop_bits == sb,
            None => r is Err && r->Err_0 is InvalidData,
        },
{
    let b = path.as_bytes();
    let ghost bs = b@;
    let n = b.len();
    proof {
        assert(bs.subrange(0, n as int) =~= bs);
    }
    let c1 = find_colon(b, 0);
    proof {
        lemma_field(bs, 0, c1 as int);
    }
    if c1 == n {
        return Err(Error::InvalidData("serial baud rate not specified".to_owned()));
    }
    let c2 = find_colon(b, c1 + 1);
    proof {
        lemma_field(bs, c1 + 1, c2 as int);
    }
    if c2 == n {
        return Err(Error::InvalidData("serial char size not specified".to_owned()));
    }
    let c3 = find_colon(b, c2 + 1);
    proof {
        lemma_field(bs, c2 + 1, c3 as int);
    }
    if c3 == n {
        return Err(Error::InvalidData("serial parity not specified".to_owned()));
    }
    let c4 = find_colon(b, c3 + 1);
    proof {
        lemma_field(bs, c3 + 1, c4 as int);
    }
    if c4 == n {
        return Err(Error::InvalidData("serial stop bits not specified".to_owned()));
    }
    let c5 = find_colon(b, c4 + 1);
    proof {
        lemma_field(bs, c4 + 1, c5 as int);
    }
    let baud_value = match decimal_in(b, c1 + 1, c2) {
        Some(v) => v,
        None => {
            proof {
                let f = bs.subrange(c1 + 1, c2 as int);
                if plain_decimal(f) is Some {
                    assert(plain_decimal(f)->0 > DECIMAL_LIMIT);
                }
            }
            return Err(Error::InvalidData("serial baud rate not supported".to_owned()));
        },
    };
    let baud_rate = match baud_of(baud_value) {
        Some(br) => br,
        None => {
            return Err(Error::InvalidData("serial baud rate not supported".to_owned()));
        },
    };
    let char_size = match single_byte(b, c2 + 1, c3) {
        Some(53) => CharSize::Bits5,
        Some(54) => CharSize::Bits6,
        Some(55) => CharSize::Bits7,
        Some(56) => CharSize::Bits8,
        _ => {
            return Err(Error::InvalidData("serial char size not supported".to_owned()));
        },
    };
    let parity = match single_byte(b, c3 + 1, c4) {
        Some(78) => Parity::ParityNone,
        Some(69) => Parity::ParityEven,
        Some(79) => Parity::ParityOdd,
        _ => {
            return Err(Error::InvalidData("serial parity not supported".to_owned()));
        },
    };
    let stop_bits = match single_byte(b, c4 + 1, c5) {
        Some(49) => StopBits::Stop1,
        Some(50) => StopBits::Stop2,
        _ => {
            return Err(Error::InvalidData("serial stop bits not supported".to_owned()));
        },
    };
    proof {
        vstd::utf8::encode_utf8_valid_utf8(path@);
        assert(bs == vstd::utf8::encode_utf8(path@));
        if c1 > 0 {
            vstd::utf8::is_char_boundary_iff_not_is_continuation_byte(bs, c1 as int);
            assert(!vstd::utf8::is_continuation_byte(bs[c1 as int]));
        }
        assert(vstd::utf8::is_char_boundary(bs, c1 as int));
    }
    let (dev, _) = path.split_at(c1);
    let port_dev = dev.to_owned();
    proof {
        assert(vstd::utf8::encode_utf8(port_dev@) == bs.subrange(0, c1 as int));
        assert(plain_decimal(bs.subrange(c1 + 1, c2 as int)) == Some(baud_value as int));
    }
    Ok(Parameters { port_dev, baud_rate, char_size, parity, stop_bits })
}

} // verus!
