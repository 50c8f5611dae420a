//! Bytes: writing and reading numbers, lowest byte first, and texts behind their length.

use vstd::prelude::*;
use vstd::string::*;
use vstd::utf8::*;

verus! {

broadcast use vstd::string::group_string_axioms;

/// The two bytes of a number, the lower one first.
pub open spec fn le16(v: u16) -> Seq<u8> {
    seq![(v % 256) as u8, (v / 256) as u8]
}

/// The four bytes of a number, the lowest one first.
pub open spec fn le32(v: u32) -> Seq<u8> {
    seq![
        (v % 256) as u8,
        (v / 256 % 256) as u8,
        (v / 65536 % 256) as u8,
        (v / 16777216) as u8,
    ]
}

/// The number of two bytes.
pub open spec fn from_le16(b: Seq<u8>, at: int) -> u16 {
    (b[at] + 256 * b[at + 1]) as u16
}

/// The number of four bytes.
pub open spec fn from_le32(b: Seq<u8>, at: int) -> u32 {
    (b[at] + 256 * b[at + 1] + 65536 * b[at + 2] + 16777216 * b[at + 3]) as u32
}

/// The signed number of four bytes.
pub open spec fn from_le_i32(b: Seq<u8>, at: int) -> i32 {
    from_le32(b, at) as i32
}

/// The smaller of two lengths.
pub open spec fn shorter(a: nat, b: nat) -> nat {
    if a <= b {
        a
    } else {
        b
    }
}

/// A text behind the length of its bytes in two bytes, cut after 65535 bytes.
pub open spec fn long_text(s: Seq<char>) -> Seq<u8> {
    let b = encode_utf8(s);
    let n = shorter(b.len(), 0xffff);
    le16(n as u16) + b.take(n as int)
}

/// A text behind the length of its bytes in one byte, cut after 255 bytes.
pub open spec fn short_text(s: Seq<char>) -> Seq<u8> {
    let b = encode_utf8(s);
    let n = shorter(b.len(), 0xff);
    seq![n as u8] + b.take(n as int)
}

/// What is read where bytes are no text.
pub uninterp spec fn mended_text(bytes: Seq<u8>) -> Seq<char>;

/// The text that bytes are read as.
pub open spec fn read_text(bytes: Seq<u8>) -> Seq<char> {
    if valid_utf8(bytes) {
        decode_utf8(bytes)
    } else {
        mended_text(bytes)
    }
}

/// `String::from_utf8_lossy`: the text of valid UTF-8; for other bytes a text that
/// depends on them alone, in which replacement characters stand for what is invalid.
#[verifier::external_body]
fn lossy(b: &[u8]) -> (r: String)
    ensures
        r@ == read_text(b@),
        !valid_utf8(b@) ==> r@ == mended_text(b@),
{
    String::from_utf8_lossy(b).into_owned()
}

/// Collects bytes.
#[derive(Debug)]
pub struct BufWriter {
    pub buf: Vec<u8>,
}

impl View for BufWriter {
    type V = Seq<u8>;

    open spec fn view(&self) -> Seq<u8> {
        self.buf@
    }
}

impl BufWriter {
    /// A writer without bytes.
    pub fn new() -> (r: Self)
        ensures
            r@ == Seq::<u8>::empty(),
    {
        BufWriter { buf: Vec::with_capacity(1024) }
    }

    /// A writer without bytes, with room for so many.
    pub fn with_capacity(cap: usize) -> (r: Self)
        ensures
            r@ == Seq::<u8>::empty(),
    {
        BufWriter { buf: Vec::with_capacity(cap) }
    }

    /// Writes a byte.
    pub fn u8(&mut self, v: u8)
        ensures
            final(self)@ == old(self)@.push(v),
            final(self)@ == old(self)@ + seq![v],
    {
        self.buf.push(v);
        assert(self@ =~= old(self)@ + seq![v]);
    }

    /// Writes a number in two bytes.
    pub fn u16(&mut self, v: u16)
        ensures
            final(self)@ == old(self)@ + le16(v),
    {
        self.buf.push((v % 256) as u8);
        self.buf.push((v / 256) as u8);
        assert(self@ =~= old(self)@ + le16(v));
    }

    /// Writes a number in four bytes.
    pub fn u32(&mut self, v: u32)
        ensures
            final(self)@ == old(self)@ + le32(v),
    {
        self.buf.push((v % 256) as u8);
        self.buf.push((v / 256 % 256) as u8);
        self.buf.push((v / 65536 % 256) as u8);
        self.buf.push((v / 16777216) as u8);
        assert(self@ =~= old(self)@ + le32(v));
    }

    /// Writes a signed number in two bytes.
    pub fn i16(&mut self, v: i16)
        ensures
            final(self)@ == old(self)@ + le16(v as u16),
    {
        self.u16(v as u16);
    }

    /// Writes a signed number in four bytes.
    pub fn i32(&mut self, v: i32)
        ensures
            final(self)@ == old(self)@ + le32(v as u32),
    {
        self.u32(v as u32);
    }

    /// Writes bytes as they are.
    pub fn bytes(&mut self, b: &[u8])
        ensures
            final(self)@ == old(self)@ + b@,
    {
        self.buf.extend_from_slice(b);
        assert(self@ =~= old(self)@ + b@);
    }

    /// Writes a text behind its length in two bytes, cut after 65535 bytes.
    pub fn str_u16(&mut self, s: &str)
        ensures
            final(self)@ == old(self)@ + long_text(s@),
    {
        let b: &[u8] = s.as_bytes();
        proof {
            encode_utf8_decode_utf8(s@);
        }
        let n: usize = if b.len() <= 0xffff {
            b.len()
        } else {
            0xffff
        };
        self.u16(n as u16);
        self.bytes(&b[0..n]);
        assert(self@ =~= old(self)@ + long_text(s@));
    }

    /// Writes a text behind its length in one byte, cut after 255 bytes.
    pub fn str_u8(&mut self, s: &str)
        ensures
            final(self)@ == old(self)@ + short_text(s@),
    {
        let b: &[u8] = s.as_bytes();
        proof {
            encode_utf8_decode_utf8(s@);
        }
        let n: usize = if b.len() <= 0xff {
            b.len()
        } else {
            0xff
        };
        self.u8(n as u8);
        self.bytes(&b[0..n]);
        assert(self@ =~= old(self)@ + short_text(s@));
    }

    /// The bytes written.
    pub fn into_vec(self) -> (r: Vec<u8>)
        ensures
            r@ == self@,
    {
        self.buf
    }
}

/// Reads bytes from a place on.
#[derive(Debug)]
pub struct BufReader<'a> {
    pub buf: &'a [u8],
    pub pos: usize,
}

impl<'a> BufReader<'a> {
    /// Whether so many bytes are left.
    pub open spec fn has(&self, n: int) -> bool {
        self.pos + n <= self.buf@.len()
    }

    /// The bytes to read.
    pub open spec fn all(&self) -> Seq<u8> {
        self.buf@
    }

    /// A reader at the start of the bytes.
    pub fn new(b: &'a [u8]) -> (r: Self)
        ensures
            r.all() == b@,
            r.pos == 0,
    {
        BufReader { buf: b, pos: 0 }
    }

    /// How many bytes are left.
    pub fn remaining(&self) -> (r: usize)
        ensures
            r == if self.pos <= self.all().len() {
                self.all().len() - self.pos
            } else {
                0
            },
    {
        if self.pos <= self.buf.len() {
            self.buf.len() - self.pos
        } else {
            0
        }
    }

    fn take(&mut self, n: usize) -> (r: Option<&'a [u8]>)
        ensures
            final(self).all() == old(self).all(),
            r is Some == old(self).has(n as int),
            r matches Some(s) ==> s@ == old(self).all().subrange(
                old(self).pos as int,
                old(self).pos + n,
            ),
            final(self).pos == if r is Some {
                old(self).pos + n
            } else {
                old(self).pos as int
            },
    {
        if n > self.buf.len() || self.pos > self.buf.len() - n {
            return None;
        }
        let b: &'a [u8] = self.buf;
        let s: &'a [u8] = &b[self.pos..self.pos + n];
        self.pos = self.pos + n;
        Some(s)
    }

    /// Reads a byte.
    pub fn u8(&mut self) -> (r: Option<u8>)
        ensures
            final(self).all() == old(self).all(),
            r == if old(self).has(1) {
                Some(old(self).all()[old(self).pos as int])
            } else {
                None
            },
            final(self).pos == old(self).pos + if r is Some {
                1int
            } else {
                0int
            },
    {
        match self.take(1) {
            Some(s) => Some(s[0]),
            None => None,
        }
    }

    /// Reads a number of two bytes.
    pub fn u16(&mut self) -> (r: Option<u16>)
        ensures
            final(self).all() == old(self).all(),
            r == if old(self).has(2) {
                Some(from_le16(old(self).all(), old(self).pos as int))
            } else {
                None
            },
            final(self).pos == old(self).pos + if r is Some {
                2int
            } else {
                0int
            },
    {
        match self.take(2) {
            Some(s) => Some(s[0] as u16 + 256 * (s[1] as u16)),
            None => None,
        }
    }

    /// Reads a number of four bytes.
    pub fn u32(&mut self) -> (r: Option<u32>)
        ensures
            final(self).all() == old(self).all(),
            r == if old(self).has(4) {
                Some(from_le32(old(self).all(), old(self).pos as int))
            } else {
                None
            },
            final(self).pos == old(self).pos + if r is Some {
                4int
            } else {
                0int
            },
    {
        match self.take(4) {
            Some(s) => Some(
                s[0] as u32 + 256 * (s[1] as u32) + 65536 * (s[2] as u32) + 16777216 * (s[3] as u32),
            ),
            None => None,
        }
    }

    /// Reads a signed number of four bytes.
    pub fn i32(&mut self) -> (r: Option<i32>)
        ensures
            final(self).all() == old(self).all(),
            r == if old(self).has(4) {
                Some(from_le_i32(old(self).all(), old(self).pos as int))
            } else {
                None
            },
            final(self).pos == old(self).pos + if r is Some {
                4int
            } else {
                0int
            },
    {
        match self.u32() {
            Some(v) => Some(v as i32),
            None => None,
        }
    }

    /// Reads a text behind its length in two bytes. Where the text is cut off, the
    /// length is read all the same.
    pub fn str_u16(&mut self) -> (r: Option<String>)
        ensures
            final(self).all() == old(self).all(),
            r is Some == long_text_at(old(self).all(), old(self).pos as int) is Some,
            r matches Some(s) ==> long_text_at(old(self).all(), old(self).pos as int) == Some(s@),
            final(self).pos == old(self).pos + if !old(self).has(2) {
                0int
            } else if r is None {
                2int
            } else {
                2 + from_le16(old(self).all(), old(self).pos as int)
            },
    {
        let n: u16 = match self.u16() {
            Some(n) => n,
            None => {
                return None;
            },
        };
        match self.take(n as usize) {
            Some(b) => Some(lossy(b)),
            None => None,
        }
    }

    /// Reads a text behind its length in one byte. Where the text is cut off, the
    /// length is read all the same.
    pub fn str_u8(&mut self) -> (r: Option<String>)
        ensures
            final(self).all() == old(self).all(),
            r is Some == short_text_at(old(self).all(), old(self).pos as int) is Some,
            r matches Some(s) ==> short_text_at(old(self).all(), old(self).pos as int) == Some(s@),
            final(self).pos == old(self).pos + if !old(self).has(1) {
                0int
            } else if r is None {
                1int
            } else {
                1 + old(self).all()[old(self).pos as int]
            },
    {
        let n: u8 = match self.u8() {
            Some(n) => n,
            None => {
                return None;
            },
        };
        match self.take(n as usize) {
            Some(b) => Some(lossy(b)),
            None => None,
        }
    }
}

/// The text at a place, behind its length in two bytes; nothing where it is cut off.
pub open spec fn long_text_at(b: Seq<u8>, at: int) -> Option<Seq<char>> {
    if at + 2 > b.len() || at + 2 + from_le16(b, at) > b.len() {
        None
    } else {
        Some(read_text(b.subrange(at + 2, at + 2 + from_le16(b, at))))
    }
}

/// The text at a place, behind its length in one byte; nothing where it is cut off.
pub open spec fn short_text_at(b: Seq<u8>, at: int) -> Option<Seq<char>> {
    if at + 1 > b.len() || at + 1 + b[at] > b.len() {
        None
    } else {
        Some(read_text(b.subrange(at + 1, at + 1 + b[at])))
    }
}

/// A number written in two bytes is read back, whatever stands around it.
pub proof fn law_u16_round_trip(before: Seq<u8>, v: u16, after: Seq<u8>)
    ensures
        from_le16(before + le16(v) + after, before.len() as int) == v,
{
    let b = before + le16(v) + after;
    assert(b[before.len() as int] == le16(v)[0]);
    assert(b[before.len() as int + 1] == le16(v)[1]);
}

/// A number written in four bytes is read back, whatever stands around it.
pub proof fn law_u32_round_trip(before: Seq<u8>, v: u32, after: Seq<u8>)
    ensures
        from_le32(before + le32(v) + after, before.len() as int) == v,
{
    let b = before + le32(v) + after;
    let n = before.len() as int;
    assert(b[n] == le32(v)[0]);
    assert(b[n + 1] == le32(v)[1]);
    assert(b[n + 2] == le32(v)[2]);
    assert(b[n + 3] == le32(v)[3]);
    assert(v == v % 256 + 256 * (v / 256 % 256) + 65536 * (v / 65536 % 256) + 16777216 * (v
        / 16777216)) by (bit_vector);
}

/// A signed number written in four bytes is read back, whatever stands around it.
pub proof fn law_i32_round_trip(before: Seq<u8>, v: i32, after: Seq<u8>)
    ensures
        from_le_i32(before + le32(v as u32) + after, before.len() as int) == v,
{
    law_u32_round_trip(before, v as u32, after);
    assert((v as u32) as i32 == v) by (bit_vector);
}

/// A text of at most 65535 bytes is read back, whatever stands around it.
pub proof fn law_long_text_round_trip(before: Seq<u8>, s: Seq<char>, after: Seq<u8>)
    requires
        encode_utf8(s).len() <= 0xffff,
    ensures
        long_text_at(before + long_text(s) + after, before.len() as int) == Some(s),
{
    let e = encode_utf8(s);
    let b = before + long_text(s) + after;
    let n = before.len() as int;
    assert(e.take(e.len() as int) =~= e);
    assert(b =~= before + le16(e.len() as u16) + (e + after));
    law_u16_round_trip(before, e.len() as u16, e + after);
    assert(b.subrange(n + 2, n + 2 + e.len()) =~= e);
    encode_utf8_valid_utf8(s);
    encode_utf8_decode_utf8(s);
}

/// A text of at most 255 bytes is read back, whatever stands around it.
pub proof fn law_short_text_round_trip(before: Seq<u8>, s: Seq<char>, after: Seq<u8>)
    requires
        encode_utf8(s).len() <= 0xff,
    ensures
        short_text_at(before + short_text(s) + after, before.len() as int) == Some(s),
{
    let e = encode_utf8(s);
    let b = before + short_text(s) + after;
    let n = before.len() as int;
    assert(e.take(e.len() as int) =~= e);
    assert(b[n] == e.len());
    assert(b.subrange(n + 1, n + 1 + e.len()) =~= e);
    encode_utf8_valid_utf8(s);
    encode_utf8_decode_utf8(s);
}

} // verus!
