//! Primitive STDF field codec: fixed-width integers/floats plus the
//! variable-length string forms (`Cn`, `Bn`, `Sn`, `Nn`) and the `U*2`-counted
//! byte array.
//!
//! STDF files declare their byte order in the FAR record's `CPU_TYPE`:
//! 1 = big-endian (68000-class), 3 = little-endian (x86). The reader learns
//! the byte order from FAR; the writer always emits little-endian files.
//! `R*4` fields are carried as their IEEE-754 bit patterns.

pub mod cpu_type;
pub mod write;

use crate::stdf::error::{eof, StdfError};
use crate::stdf::codec::write::{cn_bytes, cns_bytes, fits_cn, kbytes_bytes, le2, le4, nn_bytes, sn_bytes};
use crate::text::{lemma_text_of_str_bytes, str_bytes, string_from_utf8_lossy, text_of};
use vstd::prelude::*;

verus! {

/// Byte order of a STDF file, discovered from the FAR record.
#[derive(Debug, Clone, Copy, PartialEq, Eq, Structural)]
pub enum Endian {
    Little,
    Big,
}

/// STDF version carried in the FAR record (V4).
pub const STDF_VERSION_V4: u8 = 4;

/// Two bytes as a 16-bit value in the given byte order.
pub open spec fn u16_of(e: Endian, b0: u8, b1: u8) -> u16 {
    match e {
        Endian::Little => (b0 as int + 256 * b1 as int) as u16,
        Endian::Big => (256 * b0 as int + b1 as int) as u16,
    }
}

/// Four bytes as a 32-bit value in the given byte order.
pub open spec fn u32_of(e: Endian, b0: u8, b1: u8, b2: u8, b3: u8) -> u32 {
    match e {
        Endian::Little => (b0 as int + 256 * b1 as int + 65536 * b2 as int + 16777216 * b3 as int) as u32,
        Endian::Big => (16777216 * b0 as int + 65536 * b1 as int + 256 * b2 as int + b3 as int) as u32,
    }
}

/// Take `n` bytes off the front of `s`.
pub open spec fn sp_take(s: Seq<u8>, n: int) -> Result<(Seq<u8>, Seq<u8>), StdfError> {
    if s.len() < n {
        Err(eof(n, s.len() as int))
    } else {
        Ok((s.take(n), s.skip(n)))
    }
}

/// Read a `U*1`.
pub open spec fn sp_u1(s: Seq<u8>) -> Result<(u8, Seq<u8>), StdfError> {
    if s.len() < 1 {
        Err(eof(1, s.len() as int))
    } else {
        Ok((s[0], s.skip(1)))
    }
}

/// Read a `U*2`.
pub open spec fn sp_u2(e: Endian, s: Seq<u8>) -> Result<(u16, Seq<u8>), StdfError> {
    if s.len() < 2 {
        Err(eof(2, s.len() as int))
    } else {
        Ok((u16_of(e, s[0], s[1]), s.skip(2)))
    }
}

/// Read a `U*4`.
pub open spec fn sp_u4(e: Endian, s: Seq<u8>) -> Result<(u32, Seq<u8>), StdfError> {
    if s.len() < 4 {
        Err(eof(4, s.len() as int))
    } else {
        Ok((u32_of(e, s[0], s[1], s[2], s[3]), s.skip(4)))
    }
}

/// Read an `I*1`.
pub open spec fn sp_i1(s: Seq<u8>) -> Result<(i8, Seq<u8>), StdfError> {
    match sp_u1(s) {
        Ok((v, r)) => Ok((v as i8, r)),
        Err(e) => Err(e),
    }
}

/// Read an `I*2`.
pub open spec fn sp_i2(e: Endian, s: Seq<u8>) -> Result<(i16, Seq<u8>), StdfError> {
    match sp_u2(e, s) {
        Ok((v, r)) => Ok((v as i16, r)),
        Err(err) => Err(err),
    }
}

/// Read a one-byte-counted byte run (the payload of `Cn` and `Bn`).
pub open spec fn sp_bn(s: Seq<u8>) -> Result<(Seq<u8>, Seq<u8>), StdfError> {
    match sp_u1(s) {
        Ok((len, r)) => sp_take(r, len as int),
        Err(e) => Err(e),
    }
}

/// Read a `Cn` string.
pub open spec fn sp_cn(s: Seq<u8>) -> Result<(Seq<char>, Seq<u8>), StdfError> {
    match sp_bn(s) {
        Ok((b, r)) => Ok((text_of(b), r)),
        Err(e) => Err(e),
    }
}

/// Read a `U*2`-counted byte run.
pub open spec fn sp_kbytes(e: Endian, s: Seq<u8>) -> Result<(Seq<u8>, Seq<u8>), StdfError> {
    match sp_u2(e, s) {
        Ok((len, r)) => sp_take(r, len as int),
        Err(err) => Err(err),
    }
}

/// Read an `Nn` string (`U*2` length, then the characters).
pub open spec fn sp_nn(e: Endian, s: Seq<u8>) -> Result<(Seq<char>, Seq<u8>), StdfError> {
    match sp_kbytes(e, s) {
        Ok((b, r)) => Ok((text_of(b), r)),
        Err(err) => Err(err),
    }
}

/// Read `n` consecutive `Cn` strings.
pub open spec fn sp_cns(s: Seq<u8>, n: nat) -> Result<(Seq<Seq<char>>, Seq<u8>), StdfError>
    decreases n,
{
    if n == 0 {
        Ok((Seq::empty(), s))
    } else {
        match sp_cns(s, (n - 1) as nat) {
            Ok((v, r)) => match sp_cn(r) {
                Ok((c, r2)) => Ok((v.push(c), r2)),
                Err(e) => Err(e),
            },
            Err(e) => Err(e),
        }
    }
}

/// A run of `Cn` reads can only fail by running out of data.
pub proof fn lemma_cns_eof_only(s: Seq<u8>, n: nat)
    ensures
        sp_cns(s, n) matches Err(x) ==> x is UnexpectedEof,
    decreases n,
{
    if n > 0 {
        lemma_cns_eof_only(s, (n - 1) as nat);
    }
}

/// Once a `Cn` read fails, every longer run of reads fails with that error.
pub proof fn lemma_cns_error_propagates(s: Seq<u8>, i: nat, n: nat)
    requires
        i < n,
        sp_cns(s, i) is Ok,
        sp_cn(sp_cns(s, i)->Ok_0.1) is Err,
    ensures
        sp_cns(s, n) == Err::<(Seq<Seq<char>>, Seq<u8>), StdfError>(sp_cn(sp_cns(s, i)->Ok_0.1)->Err_0),
    decreases n - i,
{
    if n == i + 1 {
    } else {
        lemma_cns_error_propagates(s, i, (n - 1) as nat);
    }
}

/// Read an `Sn` array: a `U*2` count, then that many `Cn` strings.
pub open spec fn sp_sn(e: Endian, s: Seq<u8>) -> Result<(Seq<Seq<char>>, Seq<u8>), StdfError> {
    match sp_u2(e, s) {
        Ok((n, r)) => sp_cns(r, n as nat),
        Err(err) => Err(err),
    }
}

/// Reading back a written `U*1` gives the value and leaves the rest.
pub proof fn lemma_u1_roundtrip(v: u8, r: Seq<u8>)
    ensures
        sp_u1(seq![v] + r) == Ok::<(u8, Seq<u8>), StdfError>((v, r)),
{
    assert((seq![v] + r).skip(1) =~= r);
}

/// Reading back a written `U*2` (little-endian) gives the value.
pub proof fn lemma_u2_roundtrip(v: u16, r: Seq<u8>)
    ensures
        sp_u2(Endian::Little, le2(v) + r) == Ok::<(u16, Seq<u8>), StdfError>((v, r)),
{
    assert((le2(v) + r).skip(2) =~= r);
    assert((v % 256) as int + 256 * (v / 256) as int == v as int) by (nonlinear_arith);
}

/// Reading back a written `U*4` (little-endian) gives the value.
pub proof fn lemma_u4_roundtrip(v: u32, r: Seq<u8>)
    ensures
        sp_u4(Endian::Little, le4(v) + r) == Ok::<(u32, Seq<u8>), StdfError>((v, r)),
{
    assert((le4(v) + r).skip(4) =~= r);
    assert((v % 256) as int + 256 * ((v / 256) % 256) as int + 65536 * ((v / 65536) % 256) as int
        + 16777216 * (v / 16777216) as int == v as int) by (bit_vector);
}

/// Reading back a written `I*1` gives the value.
pub proof fn lemma_i1_roundtrip(v: i8, r: Seq<u8>)
    ensures
        sp_i1(seq![v as u8] + r) == Ok::<(i8, Seq<u8>), StdfError>((v, r)),
{
    lemma_u1_roundtrip(v as u8, r);
    assert((v as u8) as i8 == v) by (bit_vector);
}

/// Reading back a written `I*2` (little-endian) gives the value.
pub proof fn lemma_i2_roundtrip(v: i16, r: Seq<u8>)
    ensures
        sp_i2(Endian::Little, le2(v as u16) + r) == Ok::<(i16, Seq<u8>), StdfError>((v, r)),
{
    lemma_u2_roundtrip(v as u16, r);
    assert((v as u16) as i16 == v) by (bit_vector);
}

/// Reading back a written `Cn` gives the string (when it fits a `Cn`).
pub proof fn lemma_cn_roundtrip(s: Seq<char>, r: Seq<u8>)
    requires
        fits_cn(s),
    ensures
        sp_cn(cn_bytes(s) + r) == Ok::<(Seq<char>, Seq<u8>), StdfError>((s, r)),
{
    let b = str_bytes(s);
    let all = cn_bytes(s) + r;
    lemma_u1_roundtrip(b.len() as u8, b + r);
    assert(all =~= seq![b.len() as u8] + (b + r));
    assert((b + r).take(b.len() as int) =~= b);
    assert((b + r).skip(b.len() as int) =~= r);
    lemma_text_of_str_bytes(s);
}

/// Reading back a written `U*2`-counted byte run gives the bytes.
pub proof fn lemma_kbytes_roundtrip(d: Seq<u8>, r: Seq<u8>)
    requires
        d.len() <= 65535,
    ensures
        sp_kbytes(Endian::Little, kbytes_bytes(d) + r) == Ok::<(Seq<u8>, Seq<u8>), StdfError>((d, r)),
{
    let x = d + r;
    let n = d.len() as u16;
    lemma_u2_roundtrip(n, x);
    assert(kbytes_bytes(d) + r =~= le2(n) + x);
    assert(x.take(d.len() as int) =~= d);
    assert(x.skip(d.len() as int) =~= r);
    assert(sp_take(x, n as int) == Ok::<(Seq<u8>, Seq<u8>), StdfError>((d, r)));
}

/// Reading back a written `Nn` gives the string.
pub proof fn lemma_nn_roundtrip(s: Seq<char>, r: Seq<u8>)
    requires
        str_bytes(s).len() <= 65535,
    ensures
        sp_nn(Endian::Little, nn_bytes(s) + r) == Ok::<(Seq<char>, Seq<u8>), StdfError>((s, r)),
{
    lemma_kbytes_roundtrip(str_bytes(s), r);
    lemma_text_of_str_bytes(s);
}

/// Reading back a written run of `Cn` strings gives the strings.
pub proof fn lemma_cns_roundtrip(v: Seq<Seq<char>>, r: Seq<u8>)
    requires
        forall|i: int| 0 <= i < v.len() ==> fits_cn(#[trigger] v[i]),
    ensures
        sp_cns(cns_bytes(v) + r, v.len()) == Ok::<(Seq<Seq<char>>, Seq<u8>), StdfError>((v, r)),
    decreases v.len(),
{
    if v.len() > 0 {
        let init = v.drop_last();
        let tail = cn_bytes(v.last()) + r;
        assert(cns_bytes(v) + r =~= cns_bytes(init) + tail);
        lemma_cns_roundtrip(init, tail);
        lemma_cn_roundtrip(v.last(), r);
        assert(init.push(v.last()) =~= v);
    } else {
        assert(cns_bytes(v) + r =~= r);
        assert(v =~= Seq::<Seq<char>>::empty());
    }
}

/// Reading back a written `Sn` array gives the strings.
pub proof fn lemma_sn_roundtrip(v: Seq<Seq<char>>, r: Seq<u8>)
    requires
        v.len() <= 65535,
        forall|i: int| 0 <= i < v.len() ==> fits_cn(#[trigger] v[i]),
    ensures
        sp_sn(Endian::Little, sn_bytes(v) + r) == Ok::<(Seq<Seq<char>>, Seq<u8>), StdfError>((v, r)),
{
    lemma_u2_roundtrip(v.len() as u16, cns_bytes(v) + r);
    assert(sn_bytes(v) + r =~= le2(v.len() as u16) + (cns_bytes(v) + r));
    lemma_cns_roundtrip(v, r);
}

/// A read cursor over one record's data bytes.
pub struct Reader<'a> {
    data: &'a [u8],
    pos: usize,
    endian: Endian,
}

impl<'a> Reader<'a> {
    #[verifier::type_invariant]
    spec fn inv(self) -> bool {
        self.pos <= self.data@.len()
    }

    /// The bytes not yet consumed.
    pub closed spec fn rest(&self) -> Seq<u8> {
        self.data@.subrange(self.pos as int, self.data@.len() as int)
    }

    /// The byte order multi-byte fields are read in.
    pub closed spec fn byte_order(&self) -> Endian {
        self.endian
    }

    pub fn new(data: &'a [u8], endian: Endian) -> (r: Self)
        ensures
            r.rest() == data@,
            r.byte_order() == endian,
    {
        let r = Reader { data, pos: 0, endian };
        assert(r.rest() =~= data@);
        r
    }

    pub fn remaining(&self) -> (n: usize)
        ensures
            n == self.rest().len(),
    {
        proof {
            use_type_invariant(self);
        }
        self.data.len() - self.pos
    }

    pub fn is_empty(&self) -> (b: bool)
        ensures
            b == (self.rest().len() == 0),
    {
        self.remaining() == 0
    }

    pub fn take(&mut self, n: usize) -> (res: Result<&'a [u8], StdfError>)
        ensures
            final(self).byte_order() == old(self).byte_order(),
            match sp_take(old(self).rest(), n as int) {
                Ok((b, r)) => res matches Ok(slice) && slice@ == b && final(self).rest() == r,
                Err(e) => res == Err::<&'a [u8], StdfError>(e) && final(self).rest() == old(self).rest(),
            },
    {
        proof {
            use_type_invariant(&*self);
        }
        if self.remaining() < n {
            return Err(StdfError::UnexpectedEof { wanted: n, had: self.remaining() });
        }
        let total = self.data.len();
        assert(self.pos + n <= total);
        let end = self.pos + n;
        let slice = vstd::slice::slice_subrange(self.data, self.pos, end);
        self.pos = self.pos + n;
        proof {
            assert(slice@ =~= old(self).rest().take(n as int));
            assert(self.rest() =~= old(self).rest().skip(n as int));
        }
        Ok(slice)
    }

    pub fn u1(&mut self) -> (res: Result<u8, StdfError>)
        ensures
            final(self).byte_order() == old(self).byte_order(),
            match sp_u1(old(self).rest()) {
                Ok((v, r)) => res == Ok::<u8, StdfError>(v) && final(self).rest() == r,
                Err(e) => res == Err::<u8, StdfError>(e) && final(self).rest() == old(self).rest(),
            },
    {
        let b = self.take(1)?;
        Ok(b[0])
    }

    pub fn u2(&mut self) -> (res: Result<u16, StdfError>)
        ensures
            final(self).byte_order() == old(self).byte_order(),
            match sp_u2(old(self).byte_order(), old(self).rest()) {
                Ok((v, r)) => res == Ok::<u16, StdfError>(v) && final(self).rest() == r,
                Err(e) => res == Err::<u16, StdfError>(e) && final(self).rest() == old(self).rest(),
            },
    {
        let b = self.take(2)?;
        let (b0, b1) = (b[0] as u16, b[1] as u16);
        Ok(match self.endian {
            Endian::Little => b0 + 256 * b1,
            Endian::Big => 256 * b0 + b1,
        })
    }

    pub fn u4(&mut self) -> (res: Result<u32, StdfError>)
        ensures
            final(self).byte_order() == old(self).byte_order(),
            match sp_u4(old(self).byte_order(), old(self).rest()) {
                Ok((v, r)) => res == Ok::<u32, StdfError>(v) && final(self).rest() == r,
                Err(e) => res == Err::<u32, StdfError>(e) && final(self).rest() == old(self).rest(),
            },
    {
        let b = self.take(4)?;
        let (b0, b1, b2, b3) = (b[0] as u32, b[1] as u32, b[2] as u32, b[3] as u32);
        Ok(match self.endian {
            Endian::Little => b0 + 256 * b1 + 65536 * b2 + 16777216 * b3,
            Endian::Big => 16777216 * b0 + 65536 * b1 + 256 * b2 + b3,
        })
    }

    pub fn i1(&mut self) -> (res: Result<i8, StdfError>)
        ensures
            final(self).byte_order() == old(self).byte_order(),
            match sp_i1(old(self).rest()) {
                Ok((v, r)) => res == Ok::<i8, StdfError>(v) && final(self).rest() == r,
                Err(e) => res == Err::<i8, StdfError>(e) && final(self).rest() == old(self).rest(),
            },
    {
        let v = self.u1()?;
        Ok(v as i8)
    }

    pub fn i2(&mut self) -> (res: Result<i16, StdfError>)
        ensures
            final(self).byte_order() == old(self).byte_order(),
            match sp_i2(old(self).byte_order(), old(self).rest()) {
                Ok((v, r)) => res == Ok::<i16, StdfError>(v) && final(self).rest() == r,
                Err(e) => res == Err::<i16, StdfError>(e) && final(self).rest() == old(self).rest(),
            },
    {
        let v = self.u2()?;
        Ok(v as i16)
    }

    /// `R*4`: a 32-bit IEEE-754 value, returned as its bit pattern.
    pub fn r4(&mut self) -> (res: Result<u32, StdfError>)
        ensures
            final(self).byte_order() == old(self).byte_order(),
            match sp_u4(old(self).byte_order(), old(self).rest()) {
                Ok((v, r)) => res == Ok::<u32, StdfError>(v) && final(self).rest() == r,
                Err(e) => res == Err::<u32, StdfError>(e) && final(self).rest() == old(self).rest(),
            },
    {
        self.u4()
    }

    /// `Cn`: one length byte, then that many characters. Empty string
    /// encodes as the single byte 0x00.
    pub fn cn(&mut self) -> (res: Result<String, StdfError>)
        ensures
            final(self).byte_order() == old(self).byte_order(),
            match sp_cn(old(self).rest()) {
                Ok((v, r)) => res matches Ok(s) && s@ == v && final(self).rest() == r,
                Err(e) => res == Err::<String, StdfError>(e),
            },
    {
        let len = self.u1()?;
        let bytes = self.take(len as usize)?;
        Ok(string_from_utf8_lossy(bytes))
    }

    /// `Bn`: one length byte, then that many bytes.
    pub fn bn(&mut self) -> (res: Result<Vec<u8>, StdfError>)
        ensures
            final(self).byte_order() == old(self).byte_order(),
            match sp_bn(old(self).rest()) {
                Ok((v, r)) => res matches Ok(b) && b@ == v && final(self).rest() == r,
                Err(e) => res == Err::<Vec<u8>, StdfError>(e),
            },
    {
        let len = self.u1()?;
        let bytes = self.take(len as usize)?;
        Ok(vstd::slice::slice_to_vec(bytes))
    }

    /// `U*2`-prefixed byte array (used by GDR): two-byte count, then bytes.
    pub fn k_bytes(&mut self) -> (res: Result<Vec<u8>, StdfError>)
        ensures
            final(self).byte_order() == old(self).byte_order(),
            match sp_kbytes(old(self).byte_order(), old(self).rest()) {
                Ok((v, r)) => res matches Ok(b) && b@ == v && final(self).rest() == r,
                Err(e) => res == Err::<Vec<u8>, StdfError>(e),
            },
    {
        let len = self.u2()?;
        let bytes = self.take(len as usize)?;
        Ok(vstd::slice::slice_to_vec(bytes))
    }

    /// `Nn`: two-byte length, then that many characters.
    pub fn nn(&mut self) -> (res: Result<String, StdfError>)
        ensures
            final(self).byte_order() == old(self).byte_order(),
            match sp_nn(old(self).byte_order(), old(self).rest()) {
                Ok((v, r)) => res matches Ok(s) && s@ == v && final(self).rest() == r,
                Err(e) => res == Err::<String, StdfError>(e),
            },
    {
        let len = self.u2()?;
        let bytes = self.take(len as usize)?;
        Ok(string_from_utf8_lossy(bytes))
    }

    /// `Sn`: two-byte count of strings, each encoded as `Cn`.
    pub fn sn(&mut self) -> (res: Result<Vec<String>, StdfError>)
        ensures
            final(self).byte_order() == old(self).byte_order(),
            match sp_sn(old(self).byte_order(), old(self).rest()) {
                Ok((v, r)) => res matches Ok(strings) && strings@.len() == v.len()
                    && (forall|i: int| 0 <= i < v.len() ==> #[trigger] strings@[i]@ == v[i])
                    && final(self).rest() == r,
                Err(e) => res == Err::<Vec<String>, StdfError>(e),
            },
    {
        let ghost s0 = self.rest();
        let count = self.u2()?;
        let ghost start = self.rest();
        assert(sp_sn(self.byte_order(), s0) == sp_cns(start, count as nat));
        let mut strings: Vec<String> = Vec::new();
        let mut i: u16 = 0;
        while i < count
            invariant
                i <= count,
                self.byte_order() == old(self).byte_order(),
                sp_sn(old(self).byte_order(), old(self).rest()) == sp_cns(start, count as nat),
                sp_cns(start, i as nat) matches Ok((v, r)) && strings@.len() == v.len()
                    && (forall|j: int| 0 <= j < v.len() ==> #[trigger] strings@[j]@ == v[j])
                    && self.rest() == r,
            decreases count - i,
        {
            let ghost before = self.rest();
            match self.cn() {
                Ok(s) => {
                    strings.push(s);
                    i = i + 1;
                },
                Err(e) => {
                    proof {
                        assert(sp_cns(start, i as nat) is Ok);
                        assert(before == sp_cns(start, i as nat)->Ok_0.1);
                        assert(sp_cn(before) is Err);
                        lemma_cns_error_propagates(start, i as nat, count as nat);
                        assert(sp_cns(start, count as nat) == Err::<(Seq<Seq<char>>, Seq<u8>), StdfError>(e));
                    }
                    return Err(e);
                },
            }
        }
        Ok(strings)
    }
}

} // verus!
