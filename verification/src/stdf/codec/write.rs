//! Encode helpers matching the reader, always little-endian (the writer's
//! file flavour, FAR CPU_TYPE = x86).

use crate::text::{push_bytes, str_bytes};
use vstd::prelude::*;

verus! {

/// Little-endian bytes of a 16-bit value.
pub open spec fn le2(v: u16) -> Seq<u8> {
    seq![(v % 256) as u8, (v / 256) as u8]
}

/// Little-endian bytes of a 32-bit value.
pub open spec fn le4(v: u32) -> Seq<u8> {
    seq![(v % 256) as u8, ((v / 256) % 256) as u8, ((v / 65536) % 256) as u8, (v / 16777216) as u8]
}

/// The `Cn` encoding of a string: length byte, then its UTF-8 bytes.
pub open spec fn cn_bytes(s: Seq<char>) -> Seq<u8> {
    seq![str_bytes(s).len() as u8] + str_bytes(s)
}

/// The `U*2`-counted encoding of a byte run.
pub open spec fn kbytes_bytes(d: Seq<u8>) -> Seq<u8> {
    le2(d.len() as u16) + d
}

/// The `Nn` encoding of a string.
pub open spec fn nn_bytes(s: Seq<char>) -> Seq<u8> {
    kbytes_bytes(str_bytes(s))
}

/// The concatenated `Cn` encodings of a run of strings.
pub open spec fn cns_bytes(v: Seq<Seq<char>>) -> Seq<u8>
    decreases v.len(),
{
    if v.len() == 0 {
        Seq::empty()
    } else {
        cns_bytes(v.drop_last()) + cn_bytes(v.last())
    }
}

/// The `Sn` encoding of a run of strings.
pub open spec fn sn_bytes(v: Seq<Seq<char>>) -> Seq<u8> {
    le2(v.len() as u16) + cns_bytes(v)
}

/// A string fits a `Cn` field.
pub open spec fn fits_cn(s: Seq<char>) -> bool {
    str_bytes(s).len() <= 255
}

pub fn u1(out: &mut Vec<u8>, v: u8)
    ensures
        final(out)@ == old(out)@ + seq![v],
{
    out.push(v);
    assert(out@ =~= old(out)@ + seq![v]);
}

pub fn u2(out: &mut Vec<u8>, v: u16)
    ensures
        final(out)@ == old(out)@ + le2(v),
{
    out.push((v % 256) as u8);
    out.push((v / 256) as u8);
    assert(out@ =~= old(out)@ + le2(v));
}

pub fn u4(out: &mut Vec<u8>, v: u32)
    ensures
        final(out)@ == old(out)@ + le4(v),
{
    out.push((v % 256) as u8);
    out.push(((v / 256) % 256) as u8);
    out.push(((v / 65536) % 256) as u8);
    out.push((v / 16777216) as u8);
    assert(out@ =~= old(out)@ + le4(v));
}

pub fn i1(out: &mut Vec<u8>, v: i8)
    ensures
        final(out)@ == old(out)@ + seq![v as u8],
{
    u1(out, v as u8);
}

pub fn i2(out: &mut Vec<u8>, v: i16)
    ensures
        final(out)@ == old(out)@ + le2(v as u16),
{
    u2(out, v as u16);
}

/// `R*4`, given as its IEEE-754 bit pattern.
pub fn r4(out: &mut Vec<u8>, v: u32)
    ensures
        final(out)@ == old(out)@ + le4(v),
{
    u4(out, v);
}

pub fn cn(out: &mut Vec<u8>, s: &str)
    requires
        fits_cn(s@),
    ensures
        final(out)@ == old(out)@ + cn_bytes(s@),
{
    let bytes = s.as_bytes();
    out.push(bytes.len() as u8);
    push_bytes(out, bytes);
    assert(out@ =~= old(out)@ + cn_bytes(s@));
}

pub fn k_bytes(out: &mut Vec<u8>, data: &[u8])
    requires
        data@.len() <= 65535,
    ensures
        final(out)@ == old(out)@ + kbytes_bytes(data@),
{
    u2(out, data.len() as u16);
    push_bytes(out, data);
    assert(out@ =~= old(out)@ + kbytes_bytes(data@));
}

/// `Nn`: two-byte length (the byte count truncated to 16 bits), then the
/// string's bytes.
pub fn nn(out: &mut Vec<u8>, s: &str)
    ensures
        final(out)@ == old(out)@ + nn_bytes(s@),
{
    let bytes = s.as_bytes();
    u2(out, bytes.len() as u16);
    push_bytes(out, bytes);
    assert(out@ =~= old(out)@ + nn_bytes(s@));
}

pub fn sn(out: &mut Vec<u8>, strings: &[String])
    requires
        strings@.len() <= 65535,
        forall|i: int| 0 <= i < strings@.len() ==> fits_cn(#[trigger] strings@[i]@),
    ensures
        final(out)@ == old(out)@ + sn_bytes(strings@.map_values(|s: String| s@)),
{
    let ghost views = strings@.map_values(|s: String| s@);
    u2(out, strings.len() as u16);
    let ghost mid = out@;
    let mut i: usize = 0;
    while i < strings.len()
        invariant
            i <= strings@.len(),
            views == strings@.map_values(|s: String| s@),
            forall|k: int| 0 <= k < strings@.len() ==> fits_cn(#[trigger] strings@[k]@),
            out@ == mid + cns_bytes(views.take(i as int)),
        decreases strings@.len() - i,
    {
        cn(out, strings[i].as_str());
        assert(views.take(i as int + 1).drop_last() =~= views.take(i as int));
        i = i + 1;
        assert(out@ =~= mid + cns_bytes(views.take(i as int)));
    }
    assert(views.take(strings@.len() as int) =~= views);
}

} // verus!
