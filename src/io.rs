use crate::error::Error;
use vstd::prelude::*;

verus! {

/// A Modbus register kind.
#[derive(Debug, Clone, Copy, PartialEq, Eq, Structural)]
pub enum Kind {
    Coil,
    Discrete,
    Input,
    Holding,
}

/// A Modbus register: its kind and offset.
#[derive(Debug, Clone, Copy, PartialEq, Eq, Structural)]
pub struct Register {
    pub kind: Kind,
    pub offset: u16,
}

impl Register {
    /// A register of the given kind and offset.
    pub fn new(kind: Kind, offset: u16) -> (r: Self)
        ensures
            r.kind == kind,
            r.offset == offset,
    {
        Register { kind, offset }
    }

    /// Parses a register written as a kind letter (`c`, `d`, `i` or `h`),
    /// an optional `@` and a decimal offset, such as `h100` or `c@5`.
    pub fn parse(s: &str) -> (r: Result<Register, Error>)
        ensures
            match spec_register(vstd::utf8::encode_utf8(s@)) {
                Some((k, o)) => r == Ok::<Register, Error>(Register { kind: k, offset: o }),
                None => r is Err && r->Err_0 is InvalidData,
            },
    {
        match parse_kind_offset(s) {
            Ok((kind, offset)) => Ok(Register { kind, offset }),
            Err(e) => Err(e),
        }
    }
}

/// An ASCII decimal digit.
pub open spec fn is_digit(b: u8) -> bool {
    48 <= b <= 57
}

/// The value of a run of decimal digits.
pub open spec fn digits_value(s: Seq<u8>) -> int
    decreases s.len(),
{
    if s.len() == 0 {
        0
    } else {
        digits_value(s.drop_last()) * 10 + (s.last() - 48)
    }
}

/// The digits of an unsigned number: the text without one leading `+`.
pub open spec fn unsigned_digits(s: Seq<u8>) -> Seq<u8> {
    if s.len() > 0 && s[0] == 43 {
        s.drop_first()
    } else {
        s
    }
}

/// How the standard library reads a `u16` from text: an optional `+`, then
/// one or more decimal digits whose value fits.
pub open spec fn spec_parse_u16(s: Seq<u8>) -> Option<u16> {
    let t = unsigned_digits(s);
    if t.len() > 0 && (forall|i: int| 0 <= i < t.len() ==> is_digit(#[trigger] t[i]))
        && digits_value(t) <= 65535 {
        Some(digits_value(t) as u16)
    } else {
        None
    }
}

/// The register kind a letter stands for.
pub open spec fn kind_of(b: u8) -> Option<Kind> {
    if b == 99 {
        Some(Kind::Coil)
    } else if b == 100 {
        Some(Kind::Discrete)
    } else if b == 105 {
        Some(Kind::Input)
    } else if b == 104 {
        Some(Kind::Holding)
    } else {
        None
    }
}

/// The register written in `b`: a kind letter, an optional `@` and the
/// offset; text of fewer than two bytes is no register.
pub open spec fn spec_register(b: Seq<u8>) -> Option<(Kind, u16)> {
    if b.len() < 2 {
        None
    } else {
        match kind_of(b[0]) {
            None => None,
            Some(k) => {
                let o: int = if b[1] == 64 {
                    2
                } else {
                    1
                };
                match spec_parse_u16(b.subrange(o, b.len() as int)) {
                    Some(v) => Some((k, v)),
                    None => None,
                }
            },
        }
    }
}

/// A longer run of digits is worth at least as much as its prefix.
pub proof fn lemma_digits_monotone(t: Seq<u8>, k: int)
    requires
        0 <= k <= t.len(),
        forall|i: int| 0 <= i < t.len() ==> is_digit(#[trigger] t[i]),
    ensures
        digits_value(t.subrange(0, k)) <= digits_value(t),
    decreases t.len() - k,
{
    if k < t.len() {
        let p = t.subrange(0, k + 1);
        assert(p.drop_last() =~= t.subrange(0, k));
        assert(p.last() == t[k]);
        assert(digits_value(t.subrange(0, k)) >= 0) by {
            lemma_digits_nonneg(t.subrange(0, k));
        }
        lemma_digits_monotone(t, k + 1);
    } else {
        assert(t.subrange(0, k) =~= t);
    }
}

pub proof fn lemma_digits_nonneg(t: Seq<u8>)
    requires
        forall|i: int| 0 <= i < t.len() ==> is_digit(#[trigger] t[i]),
    ensures
        digits_value(t) >= 0,
    decreases t.len(),
{
    if t.len() > 0 {
        lemma_digits_nonneg(t.drop_last());
    }
}

/// Reads a `u16` from `b[start..]` as the standard library does.
fn parse_u16(b: &[u8], start: usize) -> (r: Option<u16>)
    requires
        start <= b@.len(),
    ensures
        r == spec_parse_u16(b@.subrange(start as int, b@.len() as int)),
{
    let ghost s = b@.subrange(start as int, b@.len() as int);
    let n = b.len();
    let mut i = start;
    if i < n && b[i] == 43 {
        i += 1;
    }
    let ghost i0 = i as int;
    let ghost t = unsigned_digits(s);
    proof {
        assert(t =~= b@.subrange(i0, n as int));
    }
    if i == n {
        return None;
    }
    let mut v: u32 = 0;
    while i < n
        invariant
            n == b@.len(),
            0 <= i0 <= i <= n,
            t == b@.subrange(i0, n as int),
            t == unsigned_digits(s),
            s == b@.subrange(start as int, b@.len() as int),
            t.len() > 0,
            forall|j: int| 0 <= j < i - i0 ==> is_digit(#[trigger] t[j]),
            v as int == digits_value(t.subrange(0, i - i0)),
            v <= 65535,
        decreases n - i,
    {
        let c = b[i];
        proof {
            assert(t[i - i0] == c);
        }
        if c < 48 || c > 57 {
            return None;
        }
        let nv = v * 10 + (c - 48) as u32;
        proof {
            let p = t.subrange(0, i - i0 + 1);
            assert(p.drop_last() =~= t.subrange(0, i - i0));
            assert(p.last() == c);
        }
        if nv > 65535 {
            proof {
                if forall|j: int| 0 <= j < t.len() ==> is_digit(#[trigger] t[j]) {
                    lemma_digits_monotone(t, i - i0 + 1);
                }
            }
            return None;
        }
        v = nv;
        i += 1;
    }
    proof {
        assert(t.subrange(0, t.len() as int) =~= t);
    }
    Some(v as u16)
}

/// Parses a register into its kind and offset (see [`spec_register`]).
pub fn parse_kind_offset(r: &str) -> (res: Result<(Kind, u16), Error>)
    ensures
        match spec_register(vstd::utf8::encode_utf8(r@)) {
            Some(ko) => res == Ok::<(Kind, u16), Error>(ko),
            None => res is Err && res->Err_0 is InvalidData,
        },
{
    let b = r.as_bytes();
    if b.len() < 2 {
        return Err(Error::InvalidData("invalid register".to_owned()));
    }
    let kind = if b[0] == 99 {
        Kind::Coil
    } else if b[0] == 100 {
        Kind::Discrete
    } else if b[0] == 105 {
        Kind::Input
    } else if b[0] == 104 {
        Kind::Holding
    } else {
        return Err(Error::InvalidData("invalid register kind".to_owned()));
    };
    let o: usize = if b[1] == 64 {
        2
    } else {
        1
    };
    match parse_u16(b, o) {
        Some(offset) => Ok((kind, offset)),
        None => Err(Error::InvalidData("invalid register offset".to_owned())),
    }
}

/// Options of a Modbus client mapping.
#[derive(Debug, Clone, Copy, PartialEq, Eq, Structural)]
pub struct ModbusMappingOptions {
    bulk_write: bool,
}

impl ModbusMappingOptions {
    pub closed spec fn spec_bulk_write(&self) -> bool {
        self.bulk_write
    }

    /// Default options: bulk writes enabled.
    pub fn new() -> (r: Self)
        ensures
            r.spec_bulk_write(),
    {
        ModbusMappingOptions { bulk_write: true }
    }

    /// Enables or disables writing all registers of a mapping in one request.
    pub fn bulk_write(self, value: bool) -> (r: Self)
        ensures
            r.spec_bulk_write() == value,
    {
        ModbusMappingOptions { bulk_write: value }
    }

    /// Whether bulk writes are enabled.
    pub fn is_bulk_write(&self) -> (r: bool)
        ensures
            r == self.spec_bulk_write(),
    {
        self.bulk_write
    }
}

/// Whether a Modbus server accepts a write to a mapping.
#[derive(Debug, Clone, Copy, PartialEq, Eq, Structural)]
pub enum WritePermission {
    /// Write is allowed.
    Allow,
    /// Write is forbidden.
    Deny,
}

impl WritePermission {
    /// `Allow` for true, `Deny` for false.
    pub fn from_bool(value: bool) -> (r: Self)
        ensures
            value ==> r == WritePermission::Allow,
            !value ==> r == WritePermission::Deny,
    {
        if value {
            WritePermission::Allow
        } else {
            WritePermission::Deny
        }
    }
}

/// The state of a key in a keyboard event.
#[derive(Debug, Clone, Copy, PartialEq, Eq, Structural)]
pub enum KeyState {
    /// Key pressed.
    Pressed,
    /// Key released.
    Released,
    /// Another state, with its event value.
    Other(i32),
}

impl KeyState {
    /// The state of an input event value: 0 is released, 1 pressed.
    pub fn from_value(v: i32) -> (r: Self)
        ensures
            v == 0 ==> r == KeyState::Released,
            v == 1 ==> r == KeyState::Pressed,
            v != 0 && v != 1 ==> r == KeyState::Other(v),
    {
        if v == 0 {
            KeyState::Released
        } else if v == 1 {
            KeyState::Pressed
        } else {
            KeyState::Other(v)
        }
    }
}

/// The transport of a communication client.
#[derive(Debug, Clone, Copy, PartialEq, Eq, Structural)]
pub enum Protocol {
    Tcp,
    Serial,
}

/// Timeouts of a communication client, in nanoseconds; zero means none.
#[derive(Debug, Clone, Copy, PartialEq, Eq, Structural)]
pub struct Timeouts {
    pub connect: u64,
    pub read: u64,
    pub write: u64,
}

/// The timeout each operation gets unless others are given: one second.
pub const DEFAULT_TIMEOUT_NANOS: u64 = 1_000_000_000;

impl Timeouts {
    /// The same timeout for every operation.
    pub fn new(default: u64) -> (r: Self)
        ensures
            r.connect == default && r.read == default && r.write == default,
    {
        Timeouts { connect: default, read: default, write: default }
    }

    /// No timeout for any operation.
    pub fn none() -> (r: Self)
        ensures
            r.connect == 0 && r.read == 0 && r.write == 0,
    {
        Timeouts { connect: 0, read: 0, write: 0 }
    }
}

} // verus!
