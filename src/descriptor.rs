//! The agent descriptor file of the GPG TCP transport: a decimal port on the
//! first line, followed by the 16-byte nonce that authenticates the client.
use vstd::prelude::*;

verus! {

/// Number of nonce bytes that follow the port line.
pub const NONCE_LEN: usize = 16;

/// Why the port line did not hold a port number.
#[derive(Debug, Clone, Copy, PartialEq, Eq, Structural)]
pub enum PortError {
    /// Nothing but whitespace on the line.
    Empty,
    /// A byte that is not a decimal digit.
    InvalidDigit,
    /// A number above 65535.
    Overflow,
}

/// Why a descriptor file was rejected.
#[derive(Debug, Clone, Copy, PartialEq, Eq, Structural)]
pub enum DescriptorError {
    /// The port line is malformed.
    Port(PortError),
    /// The nonce segment does not hold exactly 16 bytes; carries its length.
    InvalidNonce(usize),
}

/// A parsed descriptor: the agent's loopback port and its nonce.
pub struct Descriptor {
    pub port: u16,
    pub nonce: Vec<u8>,
}

impl Descriptor {
    pub open spec fn wf(&self) -> bool {
        self.nonce@.len() == NONCE_LEN
    }
}

pub open spec fn is_space(b: u8) -> bool {
    b == 0x20u8 || b == 0x09u8 || b == 0x0au8 || b == 0x0bu8 || b == 0x0cu8 || b == 0x0du8
}

pub open spec fn is_digit(b: u8) -> bool {
    0x30u8 <= b && b <= 0x39u8
}

/// Length of the first line, without its terminating newline.
pub open spec fn line_len(f: Seq<u8>) -> nat
    decreases f.len(),
{
    if f.len() == 0 || f[0] == 0x0au8 {
        0
    } else {
        1 + line_len(f.drop_first())
    }
}

/// The first line of the file, without its newline.
pub open spec fn port_line(f: Seq<u8>) -> Seq<u8> {
    f.take(line_len(f) as int)
}

/// Everything after the first newline (empty when there is none).
pub open spec fn nonce_segment(f: Seq<u8>) -> Seq<u8> {
    if line_len(f) < f.len() {
        f.skip(line_len(f) + 1int)
    } else {
        Seq::empty()
    }
}

pub open spec fn trim_start(s: Seq<u8>) -> Seq<u8>
    decreases s.len(),
{
    if s.len() > 0 && is_space(s[0]) {
        trim_start(s.drop_first())
    } else {
        s
    }
}

pub open spec fn trim_end(s: Seq<u8>) -> Seq<u8>
    decreases s.len(),
{
    if s.len() > 0 && is_space(s.last()) {
        trim_end(s.drop_last())
    } else {
        s
    }
}

pub open spec fn trim(s: Seq<u8>) -> Seq<u8> {
    trim_end(trim_start(s))
}

/// Value of a string of decimal digits, most significant first.
pub open spec fn digits_value(s: Seq<u8>) -> nat
    decreases s.len(),
{
    if s.len() == 0 {
        0
    } else {
        digits_value(s.drop_last()) * 10 + (s.last() - 0x30u8) as nat
    }
}

/// A port number written in decimal, as the first line holds it.
pub open spec fn port_of(line: Seq<u8>) -> Result<u16, PortError> {
    port_of_trimmed(trim(line))
}

/// What a descriptor file holds: the nonce length is checked first, then the port.
pub open spec fn descriptor_of(f: Seq<u8>) -> Result<(u16, Seq<u8>), DescriptorError> {
    let n = nonce_segment(f);
    if n.len() != NONCE_LEN {
        Err(DescriptorError::InvalidNonce(n.len() as usize))
    } else {
        match port_of(port_line(f)) {
            Ok(p) => Ok((p, n)),
            Err(e) => Err(DescriptorError::Port(e)),
        }
    }
}

/// Does the parse result agree with the spec result?
pub open spec fn parsed_as(
    r: Result<Descriptor, DescriptorError>,
    s: Result<(u16, Seq<u8>), DescriptorError>,
) -> bool {
    match (r, s) {
        (Ok(d), Ok((p, n))) => d.port == p && d.nonce@ == n,
        (Err(e), Err(e2)) => e == e2,
        _ => false,
    }
}

proof fn lemma_line_len(f: Seq<u8>)
    ensures
        line_len(f) <= f.len(),
        forall|i: int| 0 <= i < line_len(f) ==> f[i] != 0x0au8,
        line_len(f) < f.len() ==> f[line_len(f) as int] == 0x0au8,
    decreases f.len(),
{
    if f.len() > 0 && f[0] != 0x0au8 {
        lemma_line_len(f.drop_first());
        assert forall|i: int| 0 <= i < line_len(f) implies f[i] != 0x0au8 by {
            if i > 0 {
                assert(f[i] == f.drop_first()[i - 1]);
            }
        }
    }
}

/// Index of the first newline, or the length when there is none.
fn find_newline(f: &Vec<u8>) -> (r: usize)
    ensures
        r as nat == line_len(f@),
{
    let mut i: usize = 0;
    assert(f@.skip(0) =~= f@);
    while i < f.len() && f[i] != 0x0au8
        invariant
            i <= f@.len(),
            forall|k: int| 0 <= k < i ==> f@[k] != 0x0au8,
            line_len(f@) == i + line_len(f@.skip(i as int)),
        decreases f@.len() - i,
    {
        assert(f@.skip(i as int).drop_first() =~= f@.skip(i + 1));
        i = i + 1;
    }
    i
}

fn is_space_byte(b: u8) -> (r: bool)
    ensures
        r == is_space(b),
{
    b == 0x20u8 || b == 0x09u8 || b == 0x0au8 || b == 0x0bu8 || b == 0x0cu8 || b == 0x0du8
}

/// Bounds `(a, b)` of the trimmed part of `f[0..end]`.
fn trim_bounds(f: &Vec<u8>, end: usize) -> (r: (usize, usize))
    requires
        end <= f@.len(),
    ensures
        r.0 <= r.1 <= end,
        f@.subrange(r.0 as int, r.1 as int) == trim(f@.take(end as int)),
{
    let mut a: usize = 0;
    while a < end && is_space_byte(f[a])
        invariant
            a <= end <= f@.len(),
            trim_start(f@.take(end as int)) == trim_start(f@.subrange(a as int, end as int)),
        decreases end - a,
    {
        assert(f@.subrange(a as int, end as int).drop_first() =~= f@.subrange(a + 1, end as int));
        a = a + 1;
    }
    assert(f@.take(end as int).subrange(0, end as int) =~= f@.take(end as int));
    let mut b: usize = end;
    while b > a && is_space_byte(f[b - 1])
        invariant
            a <= b <= end <= f@.len(),
            trim(f@.take(end as int)) == trim_end(f@.subrange(a as int, b as int)),
        decreases b,
    {
        assert(f@.subrange(a as int, b as int).drop_last() =~= f@.subrange(a as int, b - 1));
        b = b - 1;
    }
    (a, b)
}

proof fn lemma_digits_prefix_monotone(s: Seq<u8>, i: int, j: int)
    requires
        0 <= i <= j <= s.len(),
    ensures
        digits_value(s.take(i)) <= digits_value(s.take(j)),
    decreases j - i,
{
    if i < j {
        lemma_digits_prefix_monotone(s, i, j - 1);
        assert(s.take(j).drop_last() =~= s.take(j - 1));
    }
}

/// Parses the trimmed port text `f[a..b]`.
fn parse_port(f: &Vec<u8>, a: usize, b: usize) -> (r: Result<u16, PortError>)
    requires
        a <= b <= f@.len(),
    ensures
        r == port_of_trimmed(f@.subrange(a as int, b as int)),
{
    let ghost t = f@.subrange(a as int, b as int);
    if a == b {
        return Err(PortError::Empty);
    }
    let start: usize = a;
    let ghost d = f@.subrange(start as int, b as int);
    let mut i: usize = start;
    while i < b
        invariant
            start <= i <= b <= f@.len(),
            d == f@.subrange(start as int, b as int),
            t == f@.subrange(a as int, b as int),
            d == t,
            a < b,
            forall|k: int| 0 <= k < i - start ==> is_digit(#[trigger] d[k]),
        decreases b - i,
    {
        if !(0x30u8 <= f[i] && f[i] <= 0x39u8) {
            assert(d[i - start] == f@[i as int]);
            assert(!is_digit(d[i - start]));
            return Err(PortError::InvalidDigit);
        }
        i = i + 1;
    }
    let mut v: u32 = 0;
    let mut j: usize = start;
    while j < b
        invariant
            start <= j <= b <= f@.len(),
            d == f@.subrange(start as int, b as int),
            t == f@.subrange(a as int, b as int),
            d == t,
            a < b,
            forall|k: int| 0 <= k < d.len() ==> is_digit(#[trigger] d[k]),
            v as nat == digits_value(d.take(j - start)),
            v <= 65535,
        decreases b - j,
    {
        assert(d.take(j - start + 1).drop_last() =~= d.take(j - start));
        assert(is_digit(d[j - start]));
        assert(d[j - start] == f@[j as int]);
        let next: u32 = v * 10 + (f[j] - 0x30u8) as u32;
        assert(digits_value(d.take(j - start + 1)) == next);
        if next > 65535 {
            proof {
                lemma_digits_prefix_monotone(d, j - start + 1, d.len() as int);
                assert(d.take(d.len() as int) =~= d);
            }
            return Err(PortError::Overflow);
        }
        v = next;
        j = j + 1;
    }
    assert(d.take(d.len() as int) =~= d);
    Ok(v as u16)
}

/// `port_of` on text that is already trimmed.
pub open spec fn port_of_trimmed(t: Seq<u8>) -> Result<u16, PortError> {
    let d = t;
    if t.len() == 0 {
        Err(PortError::Empty)
    } else if !(forall|i: int| 0 <= i < d.len() ==> is_digit(#[trigger] d[i])) {
        Err(PortError::InvalidDigit)
    } else if digits_value(d) > 65535 {
        Err(PortError::Overflow)
    } else {
        Ok(digits_value(d) as u16)
    }
}

/// Parses the contents of a descriptor file.
///
/// Fails with `InvalidNonce(n)` when the bytes after the first newline are not
/// exactly 16 (`n` of them), else with `Port(..)` when the first line, trimmed of
/// ASCII whitespace, is not a string of ASCII decimal digits whose value is
/// at most 65535. Otherwise returns that port and the 16 bytes as they stand.
pub fn parse_descriptor(file: &Vec<u8>) -> (r: Result<Descriptor, DescriptorError>)
    ensures
        parsed_as(r, descriptor_of(file@)),
        r matches Ok(d) ==> d.wf(),
{
    let nl = find_newline(file);
    proof {
        lemma_line_len(file@);
    }
    let seg_start: usize = if nl < file.len() { nl + 1 } else { file.len() };
    let seg_len: usize = file.len() - seg_start;
    assert(nonce_segment(file@) =~= file@.skip(seg_start as int));
    if seg_len != NONCE_LEN {
        return Err(DescriptorError::InvalidNonce(seg_len));
    }
    let (a, b) = trim_bounds(file, nl);
    assert(port_line(file@) == file@.take(nl as int));
    match parse_port(file, a, b) {
        Ok(port) => {
            let mut nonce: Vec<u8> = Vec::new();
            let mut i: usize = seg_start;
            while i < file.len()
                invariant
                    seg_start <= i <= file@.len(),
                    nonce@ == file@.subrange(seg_start as int, i as int),
                decreases file@.len() - i,
            {
                nonce.push(file[i]);
                assert(nonce@ =~= file@.subrange(seg_start as int, i + 1));
                i = i + 1;
            }
            assert(nonce@ =~= file@.skip(seg_start as int));
            Ok(Descriptor { port, nonce })
        },
        Err(e) => Err(DescriptorError::Port(e)),
    }
}

/// The decimal text of `p`, without sign or leading zeros.
pub open spec fn decimal(p: nat) -> Seq<u8>
    decreases p,
{
    if p < 10 {
        seq![(0x30 + p) as u8]
    } else {
        decimal(p / 10).push((0x30 + p % 10) as u8)
    }
}

proof fn lemma_decimal(p: nat)
    ensures
        decimal(p).len() > 0,
        forall|i: int| 0 <= i < decimal(p).len() ==> is_digit(#[trigger] decimal(p)[i]),
        digits_value(decimal(p)) == p,
    decreases p,
{
    if p >= 10 {
        lemma_decimal(p / 10);
        let s = decimal(p);
        assert(s.drop_last() =~= decimal(p / 10));
        assert(s.last() == (0x30 + p % 10) as u8);
        assert(((0x30 + p % 10) as u8) as int == 0x30 + p % 10);
        assert((s.last() - 0x30u8) as nat == p % 10);
        assert(digits_value(s) == digits_value(decimal(p / 10)) * 10 + p % 10);
        assert((p / 10) * 10 + p % 10 == p) by (nonlinear_arith);
        assert forall|i: int| 0 <= i < s.len() implies is_digit(#[trigger] s[i]) by {
            if i < s.len() - 1 {
                assert(s[i] == decimal(p / 10)[i]);
            }
        }
    } else {
        assert(decimal(p).drop_last() =~= Seq::<u8>::empty());
        assert(((0x30 + p) as u8) as int == 0x30 + p);
        assert(digits_value(Seq::<u8>::empty()) == 0);
    }
}

proof fn lemma_line_of(l: Seq<u8>, rest: Seq<u8>)
    requires
        forall|i: int| 0 <= i < l.len() ==> l[i] != 0x0au8,
    ensures
        line_len(l + seq![0x0au8] + rest) == l.len(),
    decreases l.len(),
{
    let f = l + seq![0x0au8] + rest;
    if l.len() > 0 {
        assert(f[0] == l[0]);
        assert(f.drop_first() =~= l.drop_first() + seq![0x0au8] + rest);
        lemma_line_of(l.drop_first(), rest);
    } else {
        assert(f[0] == 0x0au8);
    }
}

/// A file made of a port number in decimal, a newline and 16 bytes yields that
/// port and those 16 bytes, byte for byte.
pub proof fn lemma_valid_descriptor(port: u16, nonce: Seq<u8>)
    requires
        nonce.len() == NONCE_LEN,
    ensures
        descriptor_of(decimal(port as nat) + seq![0x0au8] + nonce) == Ok::<(u16, Seq<u8>), DescriptorError>((port, nonce)),
{
    let l = decimal(port as nat);
    let f = l + seq![0x0au8] + nonce;
    lemma_decimal(port as nat);
    assert forall|i: int| 0 <= i < l.len() implies l[i] != 0x0au8 by {
        assert(is_digit(l[i]));
    }
    lemma_line_of(l, nonce);
    assert(port_line(f) =~= l);
    assert(nonce_segment(f) =~= nonce);
    assert(is_digit(l[0]));
    assert(is_digit(l.last()));
    assert(trim_start(l) == l);
    assert(trim_end(l) == l);
}

/// A nonce segment longer than 16 bytes is always rejected as such: never
/// truncated, whatever the port line holds.
pub proof fn lemma_long_nonce_rejected(f: Seq<u8>)
    requires
        nonce_segment(f).len() > NONCE_LEN,
    ensures
        descriptor_of(f) == Err::<(u16, Seq<u8>), DescriptorError>(
            DescriptorError::InvalidNonce(nonce_segment(f).len() as usize),
        ),
{
}

} // verus!
