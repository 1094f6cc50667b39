//! SECS-II (SEMI E5) data items: the typed value model every SECS message body
//! is built from, plus the wire encoder/decoder.
//!
//! Item wire format: one format byte `(format_code << 2) | length_bits`, then
//! `length_bits` (1-3) big-endian bytes giving the byte count, then the
//! elements. Lists (format 0x00) count nested items instead of bytes; every
//! other format is a flat array of fixed-width big-endian elements. `F4`/`F8`
//! elements are carried as their IEEE-754 bit patterns.

use crate::secs::error::SecsError;
use crate::text::{push_bytes, str_bytes, string_bytes, string_from_utf8_lossy, text_of, lemma_text_of_str_bytes};
use vstd::prelude::*;

verus! {

/// Format codes from SEMI E5, Table 1 (the upper six bits of the item header
/// byte).
#[derive(Debug, Clone, Copy, PartialEq, Eq, Structural)]
pub enum FormatCode {
    List,
    Binary,
    Boolean,
    Ascii,
    Jis8,
    I8,
    I1,
    I2,
    I4,
    F8,
    F4,
    U8,
    U1,
    U2,
    U4,
}

impl FormatCode {
    /// The format's code as it sits in the header byte (low two bits clear).
    pub open spec fn code_of(self) -> u8 {
        match self {
            FormatCode::List => 0x00,
            FormatCode::Binary => 0x20,
            FormatCode::Boolean => 0x24,
            FormatCode::Ascii => 0x40,
            FormatCode::Jis8 => 0x44,
            FormatCode::I8 => 0x60,
            FormatCode::I1 => 0x64,
            FormatCode::I2 => 0x68,
            FormatCode::I4 => 0x70,
            FormatCode::F8 => 0x80,
            FormatCode::F4 => 0x84,
            FormatCode::U8 => 0xA0,
            FormatCode::U1 => 0xA4,
            FormatCode::U2 => 0xA8,
            FormatCode::U4 => 0xB0,
        }
    }

    /// The format's code byte.
    pub fn code(self) -> (c: u8)
        ensures
            c == self.code_of(),
    {
        match self {
            FormatCode::List => 0x00,
            FormatCode::Binary => 0x20,
            FormatCode::Boolean => 0x24,
            FormatCode::Ascii => 0x40,
            FormatCode::Jis8 => 0x44,
            FormatCode::I8 => 0x60,
            FormatCode::I1 => 0x64,
            FormatCode::I2 => 0x68,
            FormatCode::I4 => 0x70,
            FormatCode::F8 => 0x80,
            FormatCode::F4 => 0x84,
            FormatCode::U8 => 0xA0,
            FormatCode::U1 => 0xA4,
            FormatCode::U2 => 0xA8,
            FormatCode::U4 => 0xB0,
        }
    }

    /// The format a header byte names, if any.
    fn from_byte(header: u8) -> (f: Option<FormatCode>)
        ensures
            f == format_of(header),
    {
        let code = header & 0xFC;
        if code == 0x00 {
            Some(FormatCode::List)
        } else if code == 0x20 {
            Some(FormatCode::Binary)
        } else if code == 0x24 {
            Some(FormatCode::Boolean)
        } else if code == 0x40 {
            Some(FormatCode::Ascii)
        } else if code == 0x44 {
            Some(FormatCode::Jis8)
        } else if code == 0x60 {
            Some(FormatCode::I8)
        } else if code == 0x64 {
            Some(FormatCode::I1)
        } else if code == 0x68 {
            Some(FormatCode::I2)
        } else if code == 0x70 {
            Some(FormatCode::I4)
        } else if code == 0x80 {
            Some(FormatCode::F8)
        } else if code == 0x84 {
            Some(FormatCode::F4)
        } else if code == 0xA0 {
            Some(FormatCode::U8)
        } else if code == 0xA4 {
            Some(FormatCode::U1)
        } else if code == 0xA8 {
            Some(FormatCode::U2)
        } else if code == 0xB0 {
            Some(FormatCode::U4)
        } else {
            None
        }
    }
}

/// The format named by a header byte's upper six bits.
pub open spec fn format_of(header: u8) -> Option<FormatCode> {
    let code = header & 0xFC;
    if code == 0x00 {
        Some(FormatCode::List)
    } else if code == 0x20 {
        Some(FormatCode::Binary)
    } else if code == 0x24 {
        Some(FormatCode::Boolean)
    } else if code == 0x40 {
        Some(FormatCode::Ascii)
    } else if code == 0x44 {
        Some(FormatCode::Jis8)
    } else if code == 0x60 {
        Some(FormatCode::I8)
    } else if code == 0x64 {
        Some(FormatCode::I1)
    } else if code == 0x68 {
        Some(FormatCode::I2)
    } else if code == 0x70 {
        Some(FormatCode::I4)
    } else if code == 0x80 {
        Some(FormatCode::F8)
    } else if code == 0x84 {
        Some(FormatCode::F4)
    } else if code == 0xA0 {
        Some(FormatCode::U8)
    } else if code == 0xA4 {
        Some(FormatCode::U1)
    } else if code == 0xA8 {
        Some(FormatCode::U2)
    } else if code == 0xB0 {
        Some(FormatCode::U4)
    } else {
        None
    }
}

/// The mathematical value of a SECS-II item.
pub enum ItemVal {
    List(Seq<ItemVal>),
    Binary(Seq<u8>),
    Boolean(Seq<bool>),
    Ascii(Seq<char>),
    Jis(Seq<u8>),
    I8(Seq<i64>),
    I1(Seq<i8>),
    I2(Seq<i16>),
    I4(Seq<i32>),
    F8(Seq<u64>),
    F4(Seq<u32>),
    U8(Seq<u64>),
    U1(Seq<u8>),
    U2(Seq<u16>),
    U4(Seq<u32>),
}

// ----- big-endian element encodings -------------------------------------------

/// Big-endian bytes of a 16-bit value.
pub open spec fn be2(v: u16) -> Seq<u8> {
    seq![(v / 256) as u8, (v % 256) as u8]
}

/// Big-endian bytes of a 32-bit value.
pub open spec fn be4(v: u32) -> Seq<u8> {
    seq![(v / 0x100_0000) as u8, ((v / 0x1_0000) % 256) as u8, ((v / 256) % 256) as u8, (v % 256) as u8]
}

/// Big-endian bytes of a 64-bit value.
pub open spec fn be8(v: u64) -> Seq<u8> {
    be4((v / 0x1_0000_0000) as u32) + be4((v % 0x1_0000_0000) as u32)
}

/// A 16-bit value from its big-endian bytes.
pub open spec fn from_be2(b: Seq<u8>) -> u16 {
    (b[0] as int * 256 + b[1] as int) as u16
}

/// A 32-bit value from its big-endian bytes.
pub open spec fn from_be4(b: Seq<u8>) -> u32 {
    (b[0] as int * 0x100_0000 + b[1] as int * 0x1_0000 + b[2] as int * 256 + b[3] as int) as u32
}

/// A 64-bit value from its big-endian bytes.
pub open spec fn from_be8(b: Seq<u8>) -> u64 {
    (from_be4(b.take(4)) as int * 0x1_0000_0000 + from_be4(b.subrange(4, 8)) as int) as u64
}

pub open spec fn enc_u16() -> spec_fn(u16) -> Seq<u8> { |x: u16| be2(x) }
pub open spec fn dec_u16() -> spec_fn(Seq<u8>) -> u16 { |b: Seq<u8>| from_be2(b) }
pub open spec fn enc_u32() -> spec_fn(u32) -> Seq<u8> { |x: u32| be4(x) }
pub open spec fn dec_u32() -> spec_fn(Seq<u8>) -> u32 { |b: Seq<u8>| from_be4(b) }
pub open spec fn enc_u64() -> spec_fn(u64) -> Seq<u8> { |x: u64| be8(x) }
pub open spec fn dec_u64() -> spec_fn(Seq<u8>) -> u64 { |b: Seq<u8>| from_be8(b) }
pub open spec fn enc_i16() -> spec_fn(i16) -> Seq<u8> { |x: i16| be2(x as u16) }
pub open spec fn dec_i16() -> spec_fn(Seq<u8>) -> i16 { |b: Seq<u8>| from_be2(b) as i16 }
pub open spec fn enc_i32() -> spec_fn(i32) -> Seq<u8> { |x: i32| be4(x as u32) }
pub open spec fn dec_i32() -> spec_fn(Seq<u8>) -> i32 { |b: Seq<u8>| from_be4(b) as i32 }
pub open spec fn enc_i64() -> spec_fn(i64) -> Seq<u8> { |x: i64| be8(x as u64) }
pub open spec fn dec_i64() -> spec_fn(Seq<u8>) -> i64 { |b: Seq<u8>| from_be8(b) as i64 }

/// The concatenated encodings of a run of elements.
pub open spec fn flat<T>(v: Seq<T>, enc: spec_fn(T) -> Seq<u8>) -> Seq<u8>
    decreases v.len(),
{
    if v.len() == 0 {
        Seq::empty()
    } else {
        enc(v[0]) + flat(v.subrange(1, v.len() as int), enc)
    }
}

/// Split bytes into `w`-byte chunks and decode each; a short remainder is
/// dropped.
pub open spec fn unflat<T>(b: Seq<u8>, w: nat, dec: spec_fn(Seq<u8>) -> T) -> Seq<T>
    decreases b.len(),
{
    if w == 0 || b.len() < w {
        Seq::empty()
    } else {
        seq![dec(b.take(w as int))] + unflat(b.skip(w as int), w, dec)
    }
}

/// An element codec of width `w` whose decoder inverts its encoder.
pub open spec fn codec_ok<T>(w: nat, enc: spec_fn(T) -> Seq<u8>, dec: spec_fn(Seq<u8>) -> T) -> bool {
    &&& w > 0
    &&& forall|x: T| #[trigger] enc(x).len() == w
    &&& forall|x: T| dec(#[trigger] enc(x)) == x
}

/// Encoding one more element appends its bytes.
pub proof fn lemma_flat_push<T>(v: Seq<T>, x: T, enc: spec_fn(T) -> Seq<u8>)
    ensures
        flat(v.push(x), enc) == flat(v, enc) + enc(x),
    decreases v.len(),
{
    let p = v.push(x);
    if v.len() == 0 {
        assert(p.subrange(1, p.len() as int) =~= Seq::<T>::empty());
        assert(p[0] == x);
        assert(flat(Seq::<T>::empty(), enc) =~= Seq::<u8>::empty());
        assert(flat(v, enc) =~= Seq::<u8>::empty());
        assert(flat(p, enc) =~= flat(v, enc) + enc(x));
    } else {
        assert(p.subrange(1, p.len() as int) =~= v.subrange(1, v.len() as int).push(x));
        assert(p[0] == v[0]);
        lemma_flat_push(v.subrange(1, v.len() as int), x, enc);
        assert(flat(p, enc) =~= flat(v, enc) + enc(x));
    }
}

/// With every element encoded in `w` bytes, element `i`'s bytes sit at
/// offset `w * i` of the run's encoding.
pub proof fn lemma_flat_index<T>(v: Seq<T>, i: int, w: nat, enc: spec_fn(T) -> Seq<u8>)
    requires
        forall|x: T| #[trigger] enc(x).len() == w,
        0 <= i < v.len(),
    ensures
        flat(v, enc).len() == v.len() * w,
        flat(v, enc).subrange(w * i, w * i + w) == enc(v[i]),
    decreases v.len(),
{
    let t = v.subrange(1, v.len() as int);
    let f = flat(v, enc);
    let n = t.len();
    assert(f == enc(v[0]) + flat(t, enc));
    assert(enc(v[0]).len() == w);
    assert(v.len() * w == w + n * w) by (nonlinear_arith)
        requires
            v.len() == n + 1,
    ;
    if n == 0 {
        assert(flat(t, enc) =~= Seq::<u8>::empty());
        assert(n * w == 0) by (nonlinear_arith)
            requires
                n == 0,
        ;
    }
    if i == 0 {
        if n > 0 {
            lemma_flat_index(t, 0, w, enc);
        }
        assert(w * i == 0) by (nonlinear_arith)
            requires
                i == 0,
        ;
        assert(f.subrange(0, w as int) =~= enc(v[0]));
    } else {
        lemma_flat_index(t, i - 1, w, enc);
        assert(t[i - 1] == v[i]);
        assert(w * i == w + w * (i - 1)) by (nonlinear_arith);
        assert(w * (i - 1) + w <= n * w) by (nonlinear_arith)
            requires
                0 <= i - 1 < n,
        ;
        assert(f.subrange(w * i, w * i + w) =~= flat(t, enc).subrange(w * (i - 1), w * (i - 1) + w));
    }
}

/// The length of a run's encoding.
pub proof fn lemma_flat_len<T>(v: Seq<T>, w: nat, enc: spec_fn(T) -> Seq<u8>, dec: spec_fn(Seq<u8>) -> T)
    requires
        codec_ok(w, enc, dec),
    ensures
        flat(v, enc).len() == v.len() * w,
    decreases v.len(),
{
    if v.len() > 0 {
        lemma_flat_len(v.subrange(1, v.len() as int), w, enc, dec);
        assert(enc(v[0]).len() == w);
        assert(v.len() * w == w + (v.len() - 1) * w) by (nonlinear_arith);
    }
}

/// Decoding an encoded run gives it back, followed by whatever the rest
/// decodes to.
pub proof fn lemma_unflat_flat<T>(v: Seq<T>, r: Seq<u8>, w: nat, enc: spec_fn(T) -> Seq<u8>, dec: spec_fn(Seq<u8>) -> T)
    requires
        codec_ok(w, enc, dec),
    ensures
        unflat(flat(v, enc) + r, w, dec) == v + unflat(r, w, dec),
    decreases v.len(),
{
    if v.len() == 0 {
        assert(flat(v, enc) + r =~= r);
        assert(v + unflat(r, w, dec) =~= unflat(r, w, dec));
    } else {
        let t = v.subrange(1, v.len() as int);
        let b = flat(v, enc) + r;
        let e0 = enc(v[0]);
        assert(e0.len() == w);
        assert(b =~= e0 + (flat(t, enc) + r));
        assert(b.take(w as int) =~= e0);
        assert(b.skip(w as int) =~= flat(t, enc) + r);
        lemma_unflat_flat(t, r, w, enc, dec);
        assert(dec(e0) == v[0]);
        assert(v =~= seq![v[0]] + t);
        assert(unflat(b, w, dec) =~= v + unflat(r, w, dec));
    }
}

proof fn lemma_codec_u16()
    ensures
        codec_ok(2, enc_u16(), dec_u16()),
{
    assert forall|x: u16| dec_u16()(#[trigger] enc_u16()(x)) == x by {
        assert((x / 256) as int * 256 + (x % 256) as int == x as int) by (nonlinear_arith);
    }
}

pub proof fn lemma_be4_roundtrip(x: u32)
    ensures
        from_be4(be4(x)) == x,
{
    assert((x / 0x100_0000) as u8 as int * 0x100_0000 + ((x / 0x1_0000) % 256) as u8 as int * 0x1_0000
        + ((x / 256) % 256) as u8 as int * 256 + (x % 256) as u8 as int == x as int) by (bit_vector);
}

proof fn lemma_codec_u32()
    ensures
        codec_ok(4, enc_u32(), dec_u32()),
{
    assert forall|x: u32| dec_u32()(#[trigger] enc_u32()(x)) == x by {
        lemma_be4_roundtrip(x);
    }
}

proof fn lemma_be8_roundtrip(x: u64)
    ensures
        be8(x).len() == 8,
        from_be8(be8(x)) == x,
{
    let hi = (x / 0x1_0000_0000) as u32;
    let lo = (x % 0x1_0000_0000) as u32;
    let b = be8(x);
    assert(b.take(4) =~= be4(hi));
    assert(b.subrange(4, 8) =~= be4(lo));
    lemma_be4_roundtrip(hi);
    lemma_be4_roundtrip(lo);
    assert(hi as int * 0x1_0000_0000 + lo as int == x as int) by (nonlinear_arith)
        requires
            hi == (x / 0x1_0000_0000) as u32,
            lo == (x % 0x1_0000_0000) as u32,
    ;
}

proof fn lemma_codec_u64()
    ensures
        codec_ok(8, enc_u64(), dec_u64()),
{
    assert forall|x: u64| #[trigger] enc_u64()(x).len() == 8 by {
        lemma_be8_roundtrip(x);
    }
    assert forall|x: u64| dec_u64()(#[trigger] enc_u64()(x)) == x by {
        lemma_be8_roundtrip(x);
    }
}

proof fn lemma_codec_i16()
    ensures
        codec_ok(2, enc_i16(), dec_i16()),
{
    lemma_codec_u16();
    assert forall|x: i16| dec_i16()(#[trigger] enc_i16()(x)) == x by {
        assert(dec_u16()(enc_u16()(x as u16)) == x as u16);
        assert((x as u16) as i16 == x) by (bit_vector);
    }
}

proof fn lemma_codec_i32()
    ensures
        codec_ok(4, enc_i32(), dec_i32()),
{
    assert forall|x: i32| dec_i32()(#[trigger] enc_i32()(x)) == x by {
        lemma_be4_roundtrip(x as u32);
        assert((x as u32) as i32 == x) by (bit_vector);
    }
}

proof fn lemma_codec_i64()
    ensures
        codec_ok(8, enc_i64(), dec_i64()),
{
    assert forall|x: i64| #[trigger] enc_i64()(x).len() == 8 by {
        lemma_be8_roundtrip(x as u64);
    }
    assert forall|x: i64| dec_i64()(#[trigger] enc_i64()(x)) == x by {
        lemma_be8_roundtrip(x as u64);
        assert((x as u64) as i64 == x) by (bit_vector);
    }
}


// ----- item encoding -------------------------------------------------------------

/// An item header: format byte (code plus the number of length bytes), then
/// the length in one to three big-endian bytes.
pub open spec fn header_bytes(code: u8, len: nat) -> Seq<u8> {
    if len <= 0xFF {
        seq![(code + 1) as u8, len as u8]
    } else if len <= 0xFFFF {
        seq![(code + 2) as u8, (len / 256) as u8, (len % 256) as u8]
    } else {
        seq![(code + 3) as u8, (len / 0x1_0000) as u8, ((len / 256) % 256) as u8, (len % 256) as u8]
    }
}

/// The length carried by `lb` big-endian bytes at the front of `b`.
pub open spec fn len_of(lb: u8, b: Seq<u8>) -> nat {
    if lb == 1 {
        b[0] as nat
    } else if lb == 2 {
        (b[0] as nat) * 256 + b[1] as nat
    } else {
        (b[0] as nat) * 0x1_0000 + (b[1] as nat) * 256 + b[2] as nat
    }
}

/// The format of a non-list item value.
pub open spec fn val_format(v: ItemVal) -> FormatCode {
    match v {
        ItemVal::List(_) => FormatCode::List,
        ItemVal::Binary(_) => FormatCode::Binary,
        ItemVal::Boolean(_) => FormatCode::Boolean,
        ItemVal::Ascii(_) => FormatCode::Ascii,
        ItemVal::Jis(_) => FormatCode::Jis8,
        ItemVal::I8(_) => FormatCode::I8,
        ItemVal::I1(_) => FormatCode::I1,
        ItemVal::I2(_) => FormatCode::I2,
        ItemVal::I4(_) => FormatCode::I4,
        ItemVal::F8(_) => FormatCode::F8,
        ItemVal::F4(_) => FormatCode::F4,
        ItemVal::U8(_) => FormatCode::U8,
        ItemVal::U1(_) => FormatCode::U1,
        ItemVal::U2(_) => FormatCode::U2,
        ItemVal::U4(_) => FormatCode::U4,
    }
}

/// The element bytes of a non-list item.
pub open spec fn payload(v: ItemVal) -> Seq<u8> {
    match v {
        ItemVal::List(_) => Seq::empty(),
        ItemVal::Binary(b) => b,
        ItemVal::Boolean(b) => Seq::new(b.len(), |i: int| if b[i] { 1u8 } else { 0u8 }),
        ItemVal::Ascii(t) => str_bytes(t),
        ItemVal::Jis(b) => b,
        ItemVal::I8(x) => flat(x, enc_i64()),
        ItemVal::I1(x) => Seq::new(x.len(), |i: int| x[i] as u8),
        ItemVal::I2(x) => flat(x, enc_i16()),
        ItemVal::I4(x) => flat(x, enc_i32()),
        ItemVal::F8(x) => flat(x, enc_u64()),
        ItemVal::F4(x) => flat(x, enc_u32()),
        ItemVal::U8(x) => flat(x, enc_u64()),
        ItemVal::U1(b) => b,
        ItemVal::U2(x) => flat(x, enc_u16()),
        ItemVal::U4(x) => flat(x, enc_u32()),
    }
}

/// The wire bytes of an item.
pub open spec fn val_bytes(v: ItemVal) -> Seq<u8>
    decreases v,
{
    match v {
        ItemVal::List(items) => header_bytes(0, items.len()) + vals_bytes(items),
        _ => header_bytes(val_format(v).code_of(), payload(v).len()) + payload(v),
    }
}

/// The concatenated wire bytes of a run of items.
pub open spec fn vals_bytes(s: Seq<ItemVal>) -> Seq<u8>
    decreases s,
{
    if s.len() == 0 {
        Seq::empty()
    } else {
        val_bytes(s[0]) + vals_bytes(s.subrange(1, s.len() as int))
    }
}

/// Every count in the item fits the three length bytes SECS-II allows
/// (writing panics otherwise).
pub open spec fn val_ok(v: ItemVal) -> bool
    decreases v,
{
    match v {
        ItemVal::List(items) => items.len() <= 0xFF_FFFF && vals_ok(items),
        _ => payload(v).len() <= 0xFF_FFFF,
    }
}

/// Every item of a run is encodable.
pub open spec fn vals_ok(s: Seq<ItemVal>) -> bool
    decreases s,
{
    s.len() == 0 || (val_ok(s[0]) && vals_ok(s.subrange(1, s.len() as int)))
}

// ----- item decoding -------------------------------------------------------------

/// The value of a non-list item given its format and element bytes
/// (a short trailing element is dropped).
pub open spec fn scalar_val(f: FormatCode, b: Seq<u8>) -> ItemVal {
    match f {
        FormatCode::List => ItemVal::List(Seq::empty()),
        FormatCode::Binary => ItemVal::Binary(b),
        FormatCode::Boolean => ItemVal::Boolean(Seq::new(b.len(), |i: int| b[i] != 0)),
        FormatCode::Ascii => ItemVal::Ascii(text_of(b)),
        FormatCode::Jis8 => ItemVal::Jis(b),
        FormatCode::I8 => ItemVal::I8(unflat(b, 8, dec_i64())),
        FormatCode::I1 => ItemVal::I1(Seq::new(b.len(), |i: int| b[i] as i8)),
        FormatCode::I2 => ItemVal::I2(unflat(b, 2, dec_i16())),
        FormatCode::I4 => ItemVal::I4(unflat(b, 4, dec_i32())),
        FormatCode::F8 => ItemVal::F8(unflat(b, 8, dec_u64())),
        FormatCode::F4 => ItemVal::F4(unflat(b, 4, dec_u32())),
        FormatCode::U8 => ItemVal::U8(unflat(b, 8, dec_u64())),
        FormatCode::U1 => ItemVal::U1(b),
        FormatCode::U2 => ItemVal::U2(unflat(b, 2, dec_u16())),
        FormatCode::U4 => ItemVal::U4(unflat(b, 4, dec_u32())),
    }
}

/// Decode one item from the front of `d`: the item and the bytes after it.
pub open spec fn sp_item(d: Seq<u8>) -> Result<(ItemVal, Seq<u8>), SecsError>
    decreases d.len(), 0int, 0nat,
{
    if d.len() == 0 {
        Err(SecsError::UnexpectedEof { wanted: 1, had: 0 })
    } else {
        let h = d[0];
        match format_of(h) {
            None => Err(SecsError::InvalidItemHeader(h)),
            Some(f) => {
                let lb = h & 3;
                if lb == 0 {
                    Err(SecsError::InvalidItemLengthBits(0))
                } else if d.len() - 1 < lb {
                    Err(SecsError::UnexpectedEof { wanted: lb as usize, had: (d.len() - 1) as usize })
                } else {
                    let len = len_of(lb, d.skip(1));
                    let body = d.skip(1 + lb);
                    if f == FormatCode::List {
                        match sp_items(body, len) {
                            Ok((items, r)) => Ok((ItemVal::List(items), r)),
                            Err(e) => Err(e),
                        }
                    } else if len > body.len() {
                        Err(SecsError::ItemLengthOverflow { length: len as usize, remaining: body.len() as usize })
                    } else {
                        Ok((scalar_val(f, body.take(len as int)), body.skip(len as int)))
                    }
                }
            },
        }
    }
}

/// Decode `n` items in a row from the front of `d`.
pub open spec fn sp_items(d: Seq<u8>, n: nat) -> Result<(Seq<ItemVal>, Seq<u8>), SecsError>
    decreases d.len(), 1int, n,
{
    if n == 0 {
        Ok((Seq::empty(), d))
    } else {
        match sp_item(d) {
            Err(e) => Err(e),
            Ok((v, r)) => if r.len() < d.len() {
                match sp_items(r, (n - 1) as nat) {
                    Ok((vs, r2)) => Ok((seq![v] + vs, r2)),
                    Err(e) => Err(e),
                }
            } else {
                Ok((seq![v], r))
            },
        }
    }
}

/// Items already decoded, in front of what the rest decodes to.
pub open spec fn prepend(vs: Seq<ItemVal>, r: Result<(Seq<ItemVal>, Seq<u8>), SecsError>) -> Result<(Seq<ItemVal>, Seq<u8>), SecsError> {
    match r {
        Ok((ws, rest)) => Ok((vs + ws, rest)),
        Err(e) => Err(e),
    }
}

// ----- round trip ------------------------------------------------------------------

/// The header byte of a format with `lb` length bytes names the format and
/// carries `lb`.
proof fn lemma_header_byte(f: FormatCode, lb: u8)
    requires
        1 <= lb <= 3,
    ensures
        format_of((f.code_of() + lb) as u8) == Some(f),
        ((f.code_of() + lb) as u8) & 3 == lb,
{
    let c = f.code_of();
    let h = (c + lb) as u8;
    assert(c % 4 == 0 && c <= 0xB0);
    assert(h & 0xFC == c && h & 3 == lb) by (bit_vector)
        requires
            c % 4 == 0,
            c <= 0xB0,
            1 <= lb <= 3,
            h == (c + lb) as u8,
    ;
}

/// Reading a written header gives back the format and the length.
proof fn lemma_header_roundtrip(f: FormatCode, len: nat, rest: Seq<u8>)
    requires
        len <= 0xFF_FFFF,
    ensures
        ({
            let d = header_bytes(f.code_of(), len) + rest;
            let h = d[0];
            let lb = h & 3;
            &&& format_of(h) == Some(f)
            &&& 1 <= lb <= 3
            &&& d.len() - 1 >= lb
            &&& len_of(lb, d.skip(1)) == len
            &&& d.skip(1 + lb) == rest
        }),
{
    let d = header_bytes(f.code_of(), len) + rest;
    if len <= 0xFF {
        lemma_header_byte(f, 1);
        assert(d.skip(2) =~= rest);
    } else if len <= 0xFFFF {
        lemma_header_byte(f, 2);
        assert(d.skip(3) =~= rest);
        assert((len / 256) * 256 + len % 256 == len) by (nonlinear_arith);
    } else {
        lemma_header_byte(f, 3);
        assert(d.skip(4) =~= rest);
        assert((len / 0x1_0000) * 0x1_0000 + ((len / 256) % 256) * 256 + len % 256 == len) by (nonlinear_arith)
            requires len <= 0xFF_FFFF;
    }
}

/// The element bytes of a non-list item decode back to it.
proof fn lemma_payload_roundtrip(v: ItemVal)
    requires
        !(v is List),
    ensures
        scalar_val(val_format(v), payload(v)) == v,
{
    match v {
        ItemVal::Boolean(b) => {
            let p = payload(v);
            assert(Seq::new(p.len(), |i: int| p[i] != 0) =~= b);
        },
        ItemVal::Ascii(t) => {
            lemma_text_of_str_bytes(t);
        },
        ItemVal::I8(x) => {
            lemma_codec_i64();
            lemma_unflat_flat(x, Seq::empty(), 8, enc_i64(), dec_i64());
            assert(flat(x, enc_i64()) + Seq::<u8>::empty() =~= flat(x, enc_i64()));
            assert(x + Seq::<i64>::empty() =~= x);
        },
        ItemVal::I1(x) => {
            let p = payload(v);
            assert forall|i: int| 0 <= i < x.len() implies (p[i] as i8) == x[i] by {
                let y = x[i];
                assert((y as u8) as i8 == y) by (bit_vector);
            }
            assert(Seq::new(p.len(), |i: int| p[i] as i8) =~= x);
        },
        ItemVal::I2(x) => {
            lemma_codec_i16();
            lemma_unflat_flat(x, Seq::empty(), 2, enc_i16(), dec_i16());
            assert(flat(x, enc_i16()) + Seq::<u8>::empty() =~= flat(x, enc_i16()));
            assert(x + Seq::<i16>::empty() =~= x);
        },
        ItemVal::I4(x) => {
            lemma_codec_i32();
            lemma_unflat_flat(x, Seq::empty(), 4, enc_i32(), dec_i32());
            assert(flat(x, enc_i32()) + Seq::<u8>::empty() =~= flat(x, enc_i32()));
            assert(x + Seq::<i32>::empty() =~= x);
        },
        ItemVal::F8(x) => {
            lemma_codec_u64();
            lemma_unflat_flat(x, Seq::empty(), 8, enc_u64(), dec_u64());
            assert(flat(x, enc_u64()) + Seq::<u8>::empty() =~= flat(x, enc_u64()));
            assert(x + Seq::<u64>::empty() =~= x);
        },
        ItemVal::F4(x) => {
            lemma_codec_u32();
            lemma_unflat_flat(x, Seq::empty(), 4, enc_u32(), dec_u32());
            assert(flat(x, enc_u32()) + Seq::<u8>::empty() =~= flat(x, enc_u32()));
            assert(x + Seq::<u32>::empty() =~= x);
        },
        ItemVal::U8(x) => {
            lemma_codec_u64();
            lemma_unflat_flat(x, Seq::empty(), 8, enc_u64(), dec_u64());
            assert(flat(x, enc_u64()) + Seq::<u8>::empty() =~= flat(x, enc_u64()));
            assert(x + Seq::<u64>::empty() =~= x);
        },
        ItemVal::U2(x) => {
            lemma_codec_u16();
            lemma_unflat_flat(x, Seq::empty(), 2, enc_u16(), dec_u16());
            assert(flat(x, enc_u16()) + Seq::<u8>::empty() =~= flat(x, enc_u16()));
            assert(x + Seq::<u16>::empty() =~= x);
        },
        ItemVal::U4(x) => {
            lemma_codec_u32();
            lemma_unflat_flat(x, Seq::empty(), 4, enc_u32(), dec_u32());
            assert(flat(x, enc_u32()) + Seq::<u8>::empty() =~= flat(x, enc_u32()));
            assert(x + Seq::<u32>::empty() =~= x);
        },
        _ => {},
    }
}

/// Decoding the bytes of an encodable item gives the item back, and leaves
/// whatever followed it untouched.
#[verifier::spinoff_prover]
#[verifier::rlimit(40)]
pub proof fn lemma_item_roundtrip(v: ItemVal, r: Seq<u8>)
    requires
        val_ok(v),
    ensures
        sp_item(val_bytes(v) + r) == Ok::<(ItemVal, Seq<u8>), SecsError>((v, r)),
    decreases v,
{
    match v {
        ItemVal::List(items) => {
            let rest = vals_bytes(items) + r;
            lemma_header_roundtrip(FormatCode::List, items.len(), rest);
            assert(val_bytes(v) + r =~= header_bytes(0, items.len()) + rest);
            lemma_items_roundtrip(items, r);
        },
        _ => {
            let p = payload(v);
            let f = val_format(v);
            let rest = p + r;
            lemma_header_roundtrip(f, p.len(), rest);
            assert(val_bytes(v) + r =~= header_bytes(f.code_of(), p.len()) + rest);
            assert(rest.take(p.len() as int) =~= p);
            assert(rest.skip(p.len() as int) =~= r);
            lemma_payload_roundtrip(v);
        },
    }
}

/// The number of length bytes SECS-II uses for a length: one up to 255,
/// two up to 65535, three beyond.
pub open spec fn length_bytes(len: nat) -> u8 {
    if len <= 0xFF { 1 } else if len <= 0xFFFF { 2 } else { 3 }
}

/// The SEMI E5 format codes on the wire: an item's first byte is its
/// format's code from SEMI E5 Table 1 (List 000, Binary 010, Boolean 011,
/// ASCII 020, JIS-8 021, I8 030, I1 031, I2 032, I4 034, F8 040, F4 041,
/// U8 050, U1 051, U2 052, U4 054, octal, shifted left two bits) plus the
/// number of length bytes that follow, and the second byte starts the
/// length (the element count of a list, the byte count otherwise). The
/// same code is what [`FormatCode::code`] returns for the item's format.
pub proof fn lemma_e5_item_header(v: ItemVal)
    ensures
        ({
            let len: nat = match v {
                ItemVal::List(items) => items.len(),
                _ => payload(v).len(),
            };
            let code: u8 = match v {
                ItemVal::List(_) => 0x00u8,
                ItemVal::Binary(_) => 0x20u8,
                ItemVal::Boolean(_) => 0x24u8,
                ItemVal::Ascii(_) => 0x40u8,
                ItemVal::Jis(_) => 0x44u8,
                ItemVal::I8(_) => 0x60u8,
                ItemVal::I1(_) => 0x64u8,
                ItemVal::I2(_) => 0x68u8,
                ItemVal::I4(_) => 0x70u8,
                ItemVal::F8(_) => 0x80u8,
                ItemVal::F4(_) => 0x84u8,
                ItemVal::U8(_) => 0xA0u8,
                ItemVal::U1(_) => 0xA4u8,
                ItemVal::U2(_) => 0xA8u8,
                ItemVal::U4(_) => 0xB0u8,
            };
            &&& val_format(v).code_of() == code
            &&& val_bytes(v)[0] == code + length_bytes(len)
            &&& len <= 0xFF ==> val_bytes(v)[1] == len
        }),
{
    match v {
        ItemVal::List(items) => {
            assert(val_bytes(v) == header_bytes(0, items.len()) + vals_bytes(items));
        },
        _ => {
            assert(val_bytes(v) == header_bytes(val_format(v).code_of(), payload(v).len()) + payload(v));
        },
    }
}

/// The element bytes of a SECS-II item (SEMI E5): each element of a numeric
/// item takes its width in bytes, most significant byte first, at offset
/// width times its index (8-byte elements as their high then low 32 bits);
/// a Boolean is one byte, 1 for true and 0 for false; an I1 is its two's
/// complement byte.
pub proof fn lemma_e5_element_bytes(v: ItemVal, i: int)
    ensures
        ({
            let p = payload(v);
            let b2 = |u: u16| seq![(u / 256) as u8, (u % 256) as u8];
            let b4 = |u: u32| seq![(u / 0x100_0000) as u8, ((u / 0x1_0000) % 256) as u8, ((u / 256) % 256) as u8, (u % 256) as u8];
            let b8 = |u: u64| b4((u / 0x1_0000_0000) as u32) + b4((u % 0x1_0000_0000) as u32);
            match v {
                ItemVal::Boolean(x) => 0 <= i < x.len() ==> p.len() == x.len() && p[i] == if x[i] { 1u8 } else { 0u8 },
                ItemVal::I1(x) => 0 <= i < x.len() ==> p.len() == x.len() && p[i] == x[i] as u8,
                ItemVal::I2(x) => 0 <= i < x.len() ==> p.len() == 2 * x.len() && p.subrange(2 * i, 2 * i + 2) == b2(x[i] as u16),
                ItemVal::U2(x) => 0 <= i < x.len() ==> p.len() == 2 * x.len() && p.subrange(2 * i, 2 * i + 2) == b2(x[i]),
                ItemVal::I4(x) => 0 <= i < x.len() ==> p.len() == 4 * x.len() && p.subrange(4 * i, 4 * i + 4) == b4(x[i] as u32),
                ItemVal::U4(x) => 0 <= i < x.len() ==> p.len() == 4 * x.len() && p.subrange(4 * i, 4 * i + 4) == b4(x[i]),
                ItemVal::F4(x) => 0 <= i < x.len() ==> p.len() == 4 * x.len() && p.subrange(4 * i, 4 * i + 4) == b4(x[i]),
                ItemVal::I8(x) => 0 <= i < x.len() ==> p.len() == 8 * x.len() && p.subrange(8 * i, 8 * i + 8) == b8(x[i] as u64),
                ItemVal::U8(x) => 0 <= i < x.len() ==> p.len() == 8 * x.len() && p.subrange(8 * i, 8 * i + 8) == b8(x[i]),
                ItemVal::F8(x) => 0 <= i < x.len() ==> p.len() == 8 * x.len() && p.subrange(8 * i, 8 * i + 8) == b8(x[i]),
                ItemVal::Binary(x) => p == x,
                ItemVal::U1(x) => p == x,
                ItemVal::Jis(x) => p == x,
                ItemVal::Ascii(t) => p == str_bytes(t),
                ItemVal::List(_) => p.len() == 0,
            }
        }),
{
    match v {
        ItemVal::I2(x) => if 0 <= i < x.len() {
            lemma_flat_index(x, i, 2, enc_i16());
            assert(x.len() * 2 == 2 * x.len()) by (nonlinear_arith);
        },
        ItemVal::U2(x) => if 0 <= i < x.len() {
            lemma_flat_index(x, i, 2, enc_u16());
            assert(x.len() * 2 == 2 * x.len()) by (nonlinear_arith);
        },
        ItemVal::I4(x) => if 0 <= i < x.len() {
            lemma_flat_index(x, i, 4, enc_i32());
            assert(x.len() * 4 == 4 * x.len()) by (nonlinear_arith);
        },
        ItemVal::U4(x) => if 0 <= i < x.len() {
            lemma_flat_index(x, i, 4, enc_u32());
            assert(x.len() * 4 == 4 * x.len()) by (nonlinear_arith);
        },
        ItemVal::F4(x) => if 0 <= i < x.len() {
            lemma_flat_index(x, i, 4, enc_u32());
            assert(x.len() * 4 == 4 * x.len()) by (nonlinear_arith);
        },
        ItemVal::I8(x) => if 0 <= i < x.len() {
            lemma_flat_index(x, i, 8, enc_i64());
            assert(x.len() * 8 == 8 * x.len()) by (nonlinear_arith);
        },
        ItemVal::U8(x) => if 0 <= i < x.len() {
            lemma_flat_index(x, i, 8, enc_u64());
            assert(x.len() * 8 == 8 * x.len()) by (nonlinear_arith);
        },
        ItemVal::F8(x) => if 0 <= i < x.len() {
            lemma_flat_index(x, i, 8, enc_u64());
            assert(x.len() * 8 == 8 * x.len()) by (nonlinear_arith);
        },
        _ => {},
    }
}

/// Reading an item whose header has one length byte: the header byte names
/// the SEMI E5 format (code plus one), the next byte the byte count, and
/// that many element bytes make the item's value in that format.
pub proof fn lemma_e5_item_decode(body: Seq<u8>, rest: Seq<u8>)
    requires
        body.len() <= 0xFF,
    ensures
        ({
            let n = body.len() as u8;
            let ok = |f: FormatCode| Ok::<(ItemVal, Seq<u8>), SecsError>((scalar_val(f, body), rest));
            &&& sp_item(seq![0x21u8, n] + body + rest) == ok(FormatCode::Binary)
            &&& sp_item(seq![0x25u8, n] + body + rest) == ok(FormatCode::Boolean)
            &&& sp_item(seq![0x41u8, n] + body + rest) == ok(FormatCode::Ascii)
            &&& sp_item(seq![0x45u8, n] + body + rest) == ok(FormatCode::Jis8)
            &&& sp_item(seq![0x61u8, n] + body + rest) == ok(FormatCode::I8)
            &&& sp_item(seq![0x65u8, n] + body + rest) == ok(FormatCode::I1)
            &&& sp_item(seq![0x69u8, n] + body + rest) == ok(FormatCode::I2)
            &&& sp_item(seq![0x71u8, n] + body + rest) == ok(FormatCode::I4)
            &&& sp_item(seq![0x81u8, n] + body + rest) == ok(FormatCode::F8)
            &&& sp_item(seq![0x85u8, n] + body + rest) == ok(FormatCode::F4)
            &&& sp_item(seq![0xA1u8, n] + body + rest) == ok(FormatCode::U8)
            &&& sp_item(seq![0xA5u8, n] + body + rest) == ok(FormatCode::U1)
            &&& sp_item(seq![0xA9u8, n] + body + rest) == ok(FormatCode::U2)
            &&& sp_item(seq![0xB1u8, n] + body + rest) == ok(FormatCode::U4)
        }),
{
    lemma_one_byte_header_decode(FormatCode::Binary, body, rest);
    lemma_one_byte_header_decode(FormatCode::Boolean, body, rest);
    lemma_one_byte_header_decode(FormatCode::Ascii, body, rest);
    lemma_one_byte_header_decode(FormatCode::Jis8, body, rest);
    lemma_one_byte_header_decode(FormatCode::I8, body, rest);
    lemma_one_byte_header_decode(FormatCode::I1, body, rest);
    lemma_one_byte_header_decode(FormatCode::I2, body, rest);
    lemma_one_byte_header_decode(FormatCode::I4, body, rest);
    lemma_one_byte_header_decode(FormatCode::F8, body, rest);
    lemma_one_byte_header_decode(FormatCode::F4, body, rest);
    lemma_one_byte_header_decode(FormatCode::U8, body, rest);
    lemma_one_byte_header_decode(FormatCode::U1, body, rest);
    lemma_one_byte_header_decode(FormatCode::U2, body, rest);
    lemma_one_byte_header_decode(FormatCode::U4, body, rest);
}

/// A non-list item with a one-byte length decodes by its header's format.
proof fn lemma_one_byte_header_decode(f: FormatCode, body: Seq<u8>, rest: Seq<u8>)
    requires
        f != FormatCode::List,
        body.len() <= 0xFF,
    ensures
        sp_item(seq![(f.code_of() + 1) as u8, body.len() as u8] + body + rest)
            == Ok::<(ItemVal, Seq<u8>), SecsError>((scalar_val(f, body), rest)),
{
    let d = seq![(f.code_of() + 1) as u8, body.len() as u8] + body + rest;
    lemma_header_byte(f, 1);
    assert(d.skip(2) =~= body + rest);
    assert((body + rest).take(body.len() as int) =~= body);
    assert((body + rest).skip(body.len() as int) =~= rest);
}

/// Decoding the bytes of a run of encodable items gives the run back.
pub proof fn lemma_items_roundtrip(s: Seq<ItemVal>, r: Seq<u8>)
    requires
        vals_ok(s),
    ensures
        sp_items(vals_bytes(s) + r, s.len()) == Ok::<(Seq<ItemVal>, Seq<u8>), SecsError>((s, r)),
    decreases s,
{
    if s.len() == 0 {
        assert(vals_bytes(s) + r =~= r);
        assert(s =~= Seq::<ItemVal>::empty());
    } else {
        let t = s.subrange(1, s.len() as int);
        let tail = vals_bytes(t) + r;
        lemma_item_roundtrip(s[0], tail);
        lemma_items_roundtrip(t, r);
        assert(vals_bytes(s) + r =~= val_bytes(s[0]) + tail);
        lemma_val_bytes_nonempty(s[0]);
        assert(seq![s[0]] + t =~= s);
    }
}

/// Every item's bytes hold at least a header.
proof fn lemma_val_bytes_nonempty(v: ItemVal)
    ensures
        val_bytes(v).len() >= 2,
{
}


// ----- the executable item -----------------------------------------------------------

/// A SECS-II data item. Every variant holds a homogeneous array (SECS-II has
/// no scalars, only length-1 arrays). `F4`/`F8` hold IEEE-754 bit patterns.
#[derive(Debug, PartialEq)]
pub enum SecsItem {
    List(Vec<SecsItem>),
    Binary(Vec<u8>),
    Boolean(Vec<bool>),
    /// ASCII text (format `A`).
    Ascii(String),
    /// JIS-8 encoded data (format `J`), carried opaquely.
    Jis(Vec<u8>),
    I8(Vec<i64>),
    I1(Vec<i8>),
    I2(Vec<i16>),
    I4(Vec<i32>),
    F8(Vec<u64>),
    F4(Vec<u32>),
    U8(Vec<u64>),
    U1(Vec<u8>),
    U2(Vec<u16>),
    U4(Vec<u32>),
}

impl SecsItem {
    /// The item's value.
    pub open spec fn model(&self) -> ItemVal
        decreases self,
    {
        match self {
            SecsItem::List(v) => ItemVal::List(models(v@)),
            SecsItem::Binary(v) => ItemVal::Binary(v@),
            SecsItem::Boolean(v) => ItemVal::Boolean(v@),
            SecsItem::Ascii(t) => ItemVal::Ascii(t@),
            SecsItem::Jis(v) => ItemVal::Jis(v@),
            SecsItem::I8(v) => ItemVal::I8(v@),
            SecsItem::I1(v) => ItemVal::I1(v@),
            SecsItem::I2(v) => ItemVal::I2(v@),
            SecsItem::I4(v) => ItemVal::I4(v@),
            SecsItem::F8(v) => ItemVal::F8(v@),
            SecsItem::F4(v) => ItemVal::F4(v@),
            SecsItem::U8(v) => ItemVal::U8(v@),
            SecsItem::U1(v) => ItemVal::U1(v@),
            SecsItem::U2(v) => ItemVal::U2(v@),
            SecsItem::U4(v) => ItemVal::U4(v@),
        }
    }
}

/// The values of a run of items.
pub open spec fn models(s: Seq<SecsItem>) -> Seq<ItemVal>
    decreases s,
{
    if s.len() == 0 {
        Seq::empty()
    } else {
        models(s.subrange(0, s.len() - 1)).push(s[s.len() - 1].model())
    }
}

impl View for SecsItem {
    type V = ItemVal;

    open spec fn view(&self) -> ItemVal {
        self.model()
    }
}

/// The values of a run are the values of its items.
pub proof fn lemma_models_index(s: Seq<SecsItem>)
    ensures
        models(s).len() == s.len(),
        forall|i: int| 0 <= i < s.len() ==> #[trigger] models(s)[i] == s[i].model(),
    decreases s.len(),
{
    if s.len() > 0 {
        let init = s.subrange(0, s.len() - 1);
        lemma_models_index(init);
        assert forall|i: int| 0 <= i < s.len() implies #[trigger] models(s)[i] == s[i].model() by {
            if i < s.len() - 1 {
                assert(init[i] == s[i]);
            }
        }
    }
}

/// A run is encodable exactly when each item is.
proof fn lemma_vals_ok_index(s: Seq<ItemVal>)
    ensures
        vals_ok(s) <==> forall|i: int| 0 <= i < s.len() ==> val_ok(#[trigger] s[i]),
    decreases s.len(),
{
    if s.len() > 0 {
        let t = s.subrange(1, s.len() as int);
        lemma_vals_ok_index(t);
        if forall|i: int| 0 <= i < s.len() ==> val_ok(#[trigger] s[i]) {
            assert forall|i: int| 0 <= i < t.len() implies val_ok(#[trigger] t[i]) by {
                assert(t[i] == s[i + 1]);
            }
        }
        if vals_ok(s) {
            assert forall|i: int| 0 <= i < s.len() implies val_ok(#[trigger] s[i]) by {
                if i > 0 {
                    assert(t[i - 1] == s[i]);
                }
            }
        }
    }
}

/// Writing one more item appends its bytes.
proof fn lemma_vals_bytes_push(s: Seq<ItemVal>, v: ItemVal)
    ensures
        vals_bytes(s.push(v)) == vals_bytes(s) + val_bytes(v),
    decreases s.len(),
{
    let p = s.push(v);
    if s.len() == 0 {
        assert(p.subrange(1, p.len() as int) =~= Seq::<ItemVal>::empty());
        assert(p[0] == v);
        assert(vals_bytes(Seq::<ItemVal>::empty()) =~= Seq::<u8>::empty());
        assert(vals_bytes(p) =~= vals_bytes(s) + val_bytes(v));
    } else {
        let t = s.subrange(1, s.len() as int);
        assert(p.subrange(1, p.len() as int) =~= t.push(v));
        assert(p[0] == s[0]);
        lemma_vals_bytes_push(t, v);
        assert(vals_bytes(p) =~= vals_bytes(s) + val_bytes(v));
    }
}

/// Write an item header.
fn push_header(code: u8, length: usize, out: &mut Vec<u8>)
    requires
        code % 4 == 0,
        code <= 0xB0,
        length <= 0xFF_FFFF,
    ensures
        final(out)@ == old(out)@ + header_bytes(code, length as nat),
{
    if length <= 0xFF {
        out.push(code + 1);
        out.push(length as u8);
    } else if length <= 0xFFFF {
        out.push(code + 2);
        out.push((length / 256) as u8);
        out.push((length % 256) as u8);
    } else {
        out.push(code + 3);
        out.push((length / 0x1_0000) as u8);
        out.push(((length / 256) % 256) as u8);
        out.push((length % 256) as u8);
    }
    assert(out@ =~= old(out)@ + header_bytes(code, length as nat));
}

pub(crate) fn push_be2(v: u16, out: &mut Vec<u8>)
    ensures
        final(out)@ == old(out)@ + be2(v),
{
    out.push((v / 256) as u8);
    out.push((v % 256) as u8);
    assert(out@ =~= old(out)@ + be2(v));
}

pub(crate) fn push_be4(v: u32, out: &mut Vec<u8>)
    ensures
        final(out)@ == old(out)@ + be4(v),
{
    out.push((v / 0x100_0000) as u8);
    out.push(((v / 0x1_0000) % 256) as u8);
    out.push(((v / 256) % 256) as u8);
    out.push((v % 256) as u8);
    assert(out@ =~= old(out)@ + be4(v));
}

fn push_be8(v: u64, out: &mut Vec<u8>)
    ensures
        final(out)@ == old(out)@ + be8(v),
{
    push_be4((v / 0x1_0000_0000) as u32, out);
    push_be4((v % 0x1_0000_0000) as u32, out);
    assert(out@ =~= old(out)@ + be8(v));
}

fn push_u16s(values: &[u16], out: &mut Vec<u8>)
    ensures
        final(out)@ == old(out)@ + flat(values@, enc_u16()),
{
    let mut i: usize = 0;
    while i < values.len()
        invariant
            i <= values@.len(),
            out@ == old(out)@ + flat(values@.take(i as int), enc_u16()),
        decreases values@.len() - i,
    {
        push_be2(values[i], out);
        proof {
            lemma_flat_push(values@.take(i as int), values@[i as int], enc_u16());
            assert(values@.take(i as int).push(values@[i as int]) =~= values@.take(i + 1));
        }
        i = i + 1;
    }
    assert(values@.take(i as int) =~= values@);
}

fn push_i16s(values: &[i16], out: &mut Vec<u8>)
    ensures
        final(out)@ == old(out)@ + flat(values@, enc_i16()),
{
    let mut i: usize = 0;
    while i < values.len()
        invariant
            i <= values@.len(),
            out@ == old(out)@ + flat(values@.take(i as int), enc_i16()),
        decreases values@.len() - i,
    {
        push_be2(values[i] as u16, out);
        proof {
            lemma_flat_push(values@.take(i as int), values@[i as int], enc_i16());
            assert(values@.take(i as int).push(values@[i as int]) =~= values@.take(i + 1));
        }
        i = i + 1;
    }
    assert(values@.take(i as int) =~= values@);
}

fn push_u32s(values: &[u32], out: &mut Vec<u8>)
    ensures
        final(out)@ == old(out)@ + flat(values@, enc_u32()),
{
    let mut i: usize = 0;
    while i < values.len()
        invariant
            i <= values@.len(),
            out@ == old(out)@ + flat(values@.take(i as int), enc_u32()),
        decreases values@.len() - i,
    {
        push_be4(values[i], out);
        proof {
            lemma_flat_push(values@.take(i as int), values@[i as int], enc_u32());
            assert(values@.take(i as int).push(values@[i as int]) =~= values@.take(i + 1));
        }
        i = i + 1;
    }
    assert(values@.take(i as int) =~= values@);
}

fn push_i32s(values: &[i32], out: &mut Vec<u8>)
    ensures
        final(out)@ == old(out)@ + flat(values@, enc_i32()),
{
    let mut i: usize = 0;
    while i < values.len()
        invariant
            i <= values@.len(),
            out@ == old(out)@ + flat(values@.take(i as int), enc_i32()),
        decreases values@.len() - i,
    {
        push_be4(values[i] as u32, out);
        proof {
            lemma_flat_push(values@.take(i as int), values@[i as int], enc_i32());
            assert(values@.take(i as int).push(values@[i as int]) =~= values@.take(i + 1));
        }
        i = i + 1;
    }
    assert(values@.take(i as int) =~= values@);
}

fn push_u64s(values: &[u64], out: &mut Vec<u8>)
    ensures
        final(out)@ == old(out)@ + flat(values@, enc_u64()),
{
    let mut i: usize = 0;
    while i < values.len()
        invariant
            i <= values@.len(),
            out@ == old(out)@ + flat(values@.take(i as int), enc_u64()),
        decreases values@.len() - i,
    {
        push_be8(values[i], out);
        proof {
            lemma_flat_push(values@.take(i as int), values@[i as int], enc_u64());
            assert(values@.take(i as int).push(values@[i as int]) =~= values@.take(i + 1));
        }
        i = i + 1;
    }
    assert(values@.take(i as int) =~= values@);
}

fn push_i64s(values: &[i64], out: &mut Vec<u8>)
    ensures
        final(out)@ == old(out)@ + flat(values@, enc_i64()),
{
    let mut i: usize = 0;
    while i < values.len()
        invariant
            i <= values@.len(),
            out@ == old(out)@ + flat(values@.take(i as int), enc_i64()),
        decreases values@.len() - i,
    {
        push_be8(values[i] as u64, out);
        proof {
            lemma_flat_push(values@.take(i as int), values@[i as int], enc_i64());
            assert(values@.take(i as int).push(values@[i as int]) =~= values@.take(i + 1));
        }
        i = i + 1;
    }
    assert(values@.take(i as int) =~= values@);
}

fn push_bools(values: &[bool], out: &mut Vec<u8>)
    ensures
        final(out)@ == old(out)@ + Seq::new(values@.len(), |i: int| if values@[i] { 1u8 } else { 0u8 }),
{
    let mut i: usize = 0;
    while i < values.len()
        invariant
            i <= values@.len(),
            out@ == old(out)@ + Seq::new(i as nat, |j: int| if values@[j] { 1u8 } else { 0u8 }),
        decreases values@.len() - i,
    {
        out.push(if values[i] { 1 } else { 0 });
        i = i + 1;
        assert(out@ =~= old(out)@ + Seq::new(i as nat, |j: int| if values@[j] { 1u8 } else { 0u8 }));
    }
}

fn push_i8s(values: &[i8], out: &mut Vec<u8>)
    ensures
        final(out)@ == old(out)@ + Seq::new(values@.len(), |i: int| values@[i] as u8),
{
    let mut i: usize = 0;
    while i < values.len()
        invariant
            i <= values@.len(),
            out@ == old(out)@ + Seq::new(i as nat, |j: int| values@[j] as u8),
        decreases values@.len() - i,
    {
        out.push(values[i] as u8);
        i = i + 1;
        assert(out@ =~= old(out)@ + Seq::new(i as nat, |j: int| values@[j] as u8));
    }
}


pub(crate) fn be2_at(b: &[u8], i: usize) -> (v: u16)
    requires
        i + 2 <= b@.len(),
    ensures
        v == from_be2(b@.subrange(i as int, i + 2)),
{
    (b[i] as u16) * 256 + (b[i + 1] as u16)
}

pub(crate) fn be4_at(b: &[u8], i: usize) -> (v: u32)
    requires
        i + 4 <= b@.len(),
    ensures
        v == from_be4(b@.subrange(i as int, i + 4)),
{
    (b[i] as u32) * 0x100_0000 + (b[i + 1] as u32) * 0x1_0000 + (b[i + 2] as u32) * 256 + (b[i + 3] as u32)
}

fn be8_at(b: &[u8], i: usize) -> (v: u64)
    requires
        i + 8 <= b.len(),
    ensures
        v == from_be8(b@.subrange(i as int, i + 8)),
{
    let hi = be4_at(b, i);
    let lo = be4_at(b, i + 4);
    let ghost s = b@.subrange(i as int, i + 8);
    assert(s.take(4) =~= b@.subrange(i as int, i + 4));
    assert(s.subrange(4, 8) =~= b@.subrange(i + 4, i + 8));
    (hi as u64) * 0x1_0000_0000 + (lo as u64)
}

fn decode_u16s(b: &[u8]) -> (v: Vec<u16>)
    ensures
        v@ == unflat(b@, 2, dec_u16()),
{
    let mut out: Vec<u16> = Vec::new();
    let mut i: usize = 0;
    assert(b@.skip(0) =~= b@);
    assert(out@ + unflat(b@, 2, dec_u16()) =~= unflat(b@, 2, dec_u16()));
    while b.len() - i >= 2
        invariant
            i <= b@.len(),
            out@ + unflat(b@.skip(i as int), 2, dec_u16()) == unflat(b@, 2, dec_u16()),
        decreases b@.len() - i,
    {
        let x = be2_at(b, i);
        proof {
            let s = b@.skip(i as int);
            assert(s.take(2) =~= b@.subrange(i as int, i + 2));
            assert(s.skip(2) =~= b@.skip(i + 2));
            assert(out@.push(x) + unflat(s.skip(2), 2, dec_u16()) =~= out@ + unflat(s, 2, dec_u16()));
        }
        out.push(x);
        i = i + 2;
    }
    assert(out@ + unflat(b@.skip(i as int), 2, dec_u16()) =~= out@);
    out
}

fn decode_i16s(b: &[u8]) -> (v: Vec<i16>)
    ensures
        v@ == unflat(b@, 2, dec_i16()),
{
    let mut out: Vec<i16> = Vec::new();
    let mut i: usize = 0;
    assert(b@.skip(0) =~= b@);
    assert(out@ + unflat(b@, 2, dec_i16()) =~= unflat(b@, 2, dec_i16()));
    while b.len() - i >= 2
        invariant
            i <= b@.len(),
            out@ + unflat(b@.skip(i as int), 2, dec_i16()) == unflat(b@, 2, dec_i16()),
        decreases b@.len() - i,
    {
        let x = be2_at(b, i) as i16;
        proof {
            let s = b@.skip(i as int);
            assert(s.take(2) =~= b@.subrange(i as int, i + 2));
            assert(s.skip(2) =~= b@.skip(i + 2));
            assert(out@.push(x) + unflat(s.skip(2), 2, dec_i16()) =~= out@ + unflat(s, 2, dec_i16()));
        }
        out.push(x);
        i = i + 2;
    }
    assert(out@ + unflat(b@.skip(i as int), 2, dec_i16()) =~= out@);
    out
}

fn decode_u32s(b: &[u8]) -> (v: Vec<u32>)
    ensures
        v@ == unflat(b@, 4, dec_u32()),
{
    let mut out: Vec<u32> = Vec::new();
    let mut i: usize = 0;
    assert(b@.skip(0) =~= b@);
    assert(out@ + unflat(b@, 4, dec_u32()) =~= unflat(b@, 4, dec_u32()));
    while b.len() - i >= 4
        invariant
            i <= b@.len(),
            out@ + unflat(b@.skip(i as int), 4, dec_u32()) == unflat(b@, 4, dec_u32()),
        decreases b@.len() - i,
    {
        let x = be4_at(b, i);
        proof {
            let s = b@.skip(i as int);
            assert(s.take(4) =~= b@.subrange(i as int, i + 4));
            assert(s.skip(4) =~= b@.skip(i + 4));
            assert(out@.push(x) + unflat(s.skip(4), 4, dec_u32()) =~= out@ + unflat(s, 4, dec_u32()));
        }
        out.push(x);
        i = i + 4;
    }
    assert(out@ + unflat(b@.skip(i as int), 4, dec_u32()) =~= out@);
    out
}

fn decode_i32s(b: &[u8]) -> (v: Vec<i32>)
    ensures
        v@ == unflat(b@, 4, dec_i32()),
{
    let mut out: Vec<i32> = Vec::new();
    let mut i: usize = 0;
    assert(b@.skip(0) =~= b@);
    assert(out@ + unflat(b@, 4, dec_i32()) =~= unflat(b@, 4, dec_i32()));
    while b.len() - i >= 4
        invariant
            i <= b@.len(),
            out@ + unflat(b@.skip(i as int), 4, dec_i32()) == unflat(b@, 4, dec_i32()),
        decreases b@.len() - i,
    {
        let x = be4_at(b, i) as i32;
        proof {
            let s = b@.skip(i as int);
            assert(s.take(4) =~= b@.subrange(i as int, i + 4));
            assert(s.skip(4) =~= b@.skip(i + 4));
            assert(out@.push(x) + unflat(s.skip(4), 4, dec_i32()) =~= out@ + unflat(s, 4, dec_i32()));
        }
        out.push(x);
        i = i + 4;
    }
    assert(out@ + unflat(b@.skip(i as int), 4, dec_i32()) =~= out@);
    out
}

fn decode_u64s(b: &[u8]) -> (v: Vec<u64>)
    ensures
        v@ == unflat(b@, 8, dec_u64()),
{
    let mut out: Vec<u64> = Vec::new();
    let mut i: usize = 0;
    assert(b@.skip(0) =~= b@);
    assert(out@ + unflat(b@, 8, dec_u64()) =~= unflat(b@, 8, dec_u64()));
    while b.len() - i >= 8
        invariant
            i <= b@.len(),
            out@ + unflat(b@.skip(i as int), 8, dec_u64()) == unflat(b@, 8, dec_u64()),
        decreases b@.len() - i,
    {
        let x = be8_at(b, i);
        proof {
            let s = b@.skip(i as int);
            assert(s.take(8) =~= b@.subrange(i as int, i + 8));
            assert(s.skip(8) =~= b@.skip(i + 8));
            assert(out@.push(x) + unflat(s.skip(8), 8, dec_u64()) =~= out@ + unflat(s, 8, dec_u64()));
        }
        out.push(x);
        i = i + 8;
    }
    assert(out@ + unflat(b@.skip(i as int), 8, dec_u64()) =~= out@);
    out
}

fn decode_i64s(b: &[u8]) -> (v: Vec<i64>)
    ensures
        v@ == unflat(b@, 8, dec_i64()),
{
    let mut out: Vec<i64> = Vec::new();
    let mut i: usize = 0;
    assert(b@.skip(0) =~= b@);
    assert(out@ + unflat(b@, 8, dec_i64()) =~= unflat(b@, 8, dec_i64()));
    while b.len() - i >= 8
        invariant
            i <= b@.len(),
            out@ + unflat(b@.skip(i as int), 8, dec_i64()) == unflat(b@, 8, dec_i64()),
        decreases b@.len() - i,
    {
        let x = be8_at(b, i) as i64;
        proof {
            let s = b@.skip(i as int);
            assert(s.take(8) =~= b@.subrange(i as int, i + 8));
            assert(s.skip(8) =~= b@.skip(i + 8));
            assert(out@.push(x) + unflat(s.skip(8), 8, dec_i64()) =~= out@ + unflat(s, 8, dec_i64()));
        }
        out.push(x);
        i = i + 8;
    }
    assert(out@ + unflat(b@.skip(i as int), 8, dec_i64()) =~= out@);
    out
}

fn decode_bools(b: &[u8]) -> (v: Vec<bool>)
    ensures
        v@ == Seq::new(b@.len(), |i: int| b@[i] != 0),
{
    let mut out: Vec<bool> = Vec::new();
    let mut i: usize = 0;
    while i < b.len()
        invariant
            i <= b@.len(),
            out@ == Seq::new(i as nat, |j: int| b@[j] != 0),
        decreases b@.len() - i,
    {
        out.push(b[i] != 0);
        i = i + 1;
        assert(out@ =~= Seq::new(i as nat, |j: int| b@[j] != 0));
    }
    out
}

fn decode_i8s(b: &[u8]) -> (v: Vec<i8>)
    ensures
        v@ == Seq::new(b@.len(), |i: int| b@[i] as i8),
{
    let mut out: Vec<i8> = Vec::new();
    let mut i: usize = 0;
    while i < b.len()
        invariant
            i <= b@.len(),
            out@ == Seq::new(i as nat, |j: int| b@[j] as i8),
        decreases b@.len() - i,
    {
        out.push(b[i] as i8);
        i = i + 1;
        assert(out@ =~= Seq::new(i as nat, |j: int| b@[j] as i8));
    }
    out
}

/// Build the non-list item of format `f` from its element bytes.
fn scalar_item(f: FormatCode, bytes: &[u8]) -> (item: SecsItem)
    requires
        f != FormatCode::List,
    ensures
        item@ == scalar_val(f, bytes@),
{
    match f {
        FormatCode::Binary => SecsItem::Binary(vstd::slice::slice_to_vec(bytes)),
        FormatCode::Boolean => SecsItem::Boolean(decode_bools(bytes)),
        FormatCode::Ascii => SecsItem::Ascii(string_from_utf8_lossy(bytes)),
        FormatCode::Jis8 => SecsItem::Jis(vstd::slice::slice_to_vec(bytes)),
        FormatCode::I8 => SecsItem::I8(decode_i64s(bytes)),
        FormatCode::I1 => SecsItem::I1(decode_i8s(bytes)),
        FormatCode::I2 => SecsItem::I2(decode_i16s(bytes)),
        FormatCode::I4 => SecsItem::I4(decode_i32s(bytes)),
        FormatCode::F8 => SecsItem::F8(decode_u64s(bytes)),
        FormatCode::F4 => SecsItem::F4(decode_u32s(bytes)),
        FormatCode::U8 => SecsItem::U8(decode_u64s(bytes)),
        FormatCode::U1 => SecsItem::U1(vstd::slice::slice_to_vec(bytes)),
        FormatCode::U2 => SecsItem::U2(decode_u16s(bytes)),
        FormatCode::U4 => SecsItem::U4(decode_u32s(bytes)),
        FormatCode::List => SecsItem::List(Vec::new()),
    }
}

/// Decode one item from the front of `data`: the item and how many bytes it
/// took.
fn decode_item(data: &[u8]) -> (res: Result<(SecsItem, usize), SecsError>)
    ensures
        match sp_item(data@) {
            Ok((v, r)) => res matches Ok((it, used)) && it@ == v && 0 < used <= data@.len()
                && r == data@.skip(used as int),
            Err(e) => res == Err::<(SecsItem, usize), SecsError>(e),
        },
    decreases data@.len(),
{
    if data.len() == 0 {
        return Err(SecsError::UnexpectedEof { wanted: 1, had: 0 });
    }
    let header = data[0];
    let format = match FormatCode::from_byte(header) {
        Some(f) => f,
        None => {
            return Err(SecsError::InvalidItemHeader(header));
        },
    };
    let lb = header & 3;
    if lb == 0 {
        return Err(SecsError::InvalidItemLengthBits(0));
    }
    let avail = data.len() - 1;
    if avail < lb as usize {
        return Err(SecsError::UnexpectedEof { wanted: lb as usize, had: avail });
    }
    assert(lb <= 3) by (bit_vector)
        requires lb == header & 3;
    let length: usize = if lb == 1 {
        data[1] as usize
    } else if lb == 2 {
        (data[1] as usize) * 256 + (data[2] as usize)
    } else {
        (data[1] as usize) * 0x1_0000 + (data[2] as usize) * 256 + (data[3] as usize)
    };
    assert(length == len_of(lb, data@.skip(1)));
    let start: usize = 1 + lb as usize;
    let ghost body = data@.skip(start as int);
    match format {
        FormatCode::List => {
            let mut items: Vec<SecsItem> = Vec::new();
            let mut cursor: usize = start;
            let mut i: usize = 0;
            assert(models(items@) =~= Seq::<ItemVal>::empty());
            assert(prepend(Seq::empty(), sp_items(body, length as nat)) =~= sp_items(body, length as nat));
            assert(sp_item(data@) == match sp_items(body, length as nat) {
                Ok((vs, r)) => Ok((ItemVal::List(vs), r)),
                Err(e) => Err::<(ItemVal, Seq<u8>), SecsError>(e),
            });
            while i < length
                invariant
                    sp_item(data@) == match sp_items(body, length as nat) {
                        Ok((vs, r)) => Ok((ItemVal::List(vs), r)),
                        Err(e) => Err::<(ItemVal, Seq<u8>), SecsError>(e),
                    },
                    1 <= start,
                    start <= cursor <= data@.len(),
                    i <= length,
                    body == data@.skip(start as int),
                    sp_items(body, length as nat)
                        == prepend(models(items@), sp_items(data@.skip(cursor as int), (length - i) as nat)),
                decreases length - i,
            {
                let cur = vstd::slice::slice_subrange(data, cursor, data.len());
                assert(cur@ =~= data@.skip(cursor as int));
                assert(cur@.len() < data@.len());
                let ghost n = (length - i) as nat;
                match decode_item(cur) {
                    Err(e) => {
                        assert(sp_items(cur@, n) == Err::<(Seq<ItemVal>, Seq<u8>), SecsError>(e));
                        assert(sp_item(data@) == Err::<(ItemVal, Seq<u8>), SecsError>(e));
                        return Err(e);
                    },
                    Ok((item, used)) => {
                        let ghost v = item@;
                        let ghost before = models(items@);
                        let ghost old_items = items@;
                        proof {
                            let r = cur@.skip(used as int);
                            assert(r =~= data@.skip(cursor + used));
                            let tail = sp_items(r, (n - 1) as nat);
                            assert(sp_items(cur@, n) == prepend(seq![v], tail));
                            match tail {
                                Ok((ws, r2)) => {
                                    assert(before + (seq![v] + ws) =~= before.push(v) + ws);
                                },
                                Err(_) => {},
                            }
                        }
                        items.push(item);
                        assert(items@.subrange(0, items@.len() - 1) =~= old_items);
                        assert(items@[items@.len() - 1]@ == v);
                        assert(models(items@) == before.push(v));
                        cursor = cursor + used;
                        i = i + 1;
                    },
                }
            }
            assert(sp_items(data@.skip(cursor as int), 0) == Ok::<(Seq<ItemVal>, Seq<u8>), SecsError>((Seq::empty(), data@.skip(cursor as int))));
            assert(models(items@) + Seq::<ItemVal>::empty() =~= models(items@));
            Ok((SecsItem::List(items), cursor))
        },
        _ => {
            let remaining = data.len() - start;
            if length > remaining {
                return Err(SecsError::ItemLengthOverflow { length, remaining });
            }
            let bytes = vstd::slice::slice_subrange(data, start, start + length);
            assert(bytes@ =~= body.take(length as int));
            assert(body.skip(length as int) =~= data@.skip(start + length));
            let item = scalar_item(format, bytes);
            Ok((item, start + length))
        },
    }
}

impl SecsItem {
    /// Convenience constructor: a one-element unsigned 4-byte item.
    pub fn u4(value: u32) -> (item: SecsItem)
        ensures
            item@ == ItemVal::U4(seq![value]),
    {
        let v = vec![value];
        assert(v@ =~= seq![value]);
        SecsItem::U4(v)
    }

    /// Convenience constructor: a one-element unsigned 2-byte item.
    pub fn u2(value: u16) -> (item: SecsItem)
        ensures
            item@ == ItemVal::U2(seq![value]),
    {
        let v = vec![value];
        assert(v@ =~= seq![value]);
        SecsItem::U2(v)
    }

    /// Convenience constructor: ASCII text.
    pub fn a(text: &str) -> (item: SecsItem)
        ensures
            item@ == ItemVal::Ascii(text@),
    {
        SecsItem::Ascii(text.to_string())
    }

    /// First element of a `U4` item, if this is one.
    pub fn as_u4(&self) -> (r: Option<u32>)
        ensures
            r == (match self@ {
                ItemVal::U4(v) => if v.len() > 0 { Some(v[0]) } else { None },
                _ => None,
            }),
    {
        match self {
            SecsItem::U4(v) => if v.len() > 0 { Some(v[0]) } else { None },
            _ => None,
        }
    }

    /// First element of a `U2` item, if this is one.
    pub fn as_u2(&self) -> (r: Option<u16>)
        ensures
            r == (match self@ {
                ItemVal::U2(v) => if v.len() > 0 { Some(v[0]) } else { None },
                _ => None,
            }),
    {
        match self {
            SecsItem::U2(v) => if v.len() > 0 { Some(v[0]) } else { None },
            _ => None,
        }
    }

    /// First element of a `U1` item, if this is one.
    pub fn as_u1(&self) -> (r: Option<u8>)
        ensures
            r == (match self@ {
                ItemVal::U1(v) => if v.len() > 0 { Some(v[0]) } else { None },
                _ => None,
            }),
    {
        match self {
            SecsItem::U1(v) => if v.len() > 0 { Some(v[0]) } else { None },
            _ => None,
        }
    }

    /// First element (its bit pattern) of an `F4` item, if this is one.
    pub fn as_f4(&self) -> (r: Option<u32>)
        ensures
            r == (match self@ {
                ItemVal::F4(v) => if v.len() > 0 { Some(v[0]) } else { None },
                _ => None,
            }),
    {
        match self {
            SecsItem::F4(v) => if v.len() > 0 { Some(v[0]) } else { None },
            _ => None,
        }
    }

    /// The ASCII text of an `A` item, if this is one.
    pub fn as_ascii(&self) -> (r: Option<&str>)
        ensures
            match self@ {
                ItemVal::Ascii(t) => r matches Some(s) && s@ == t,
                _ => r is None,
            },
    {
        match self {
            SecsItem::Ascii(s) => Some(s.as_str()),
            _ => None,
        }
    }

    /// The elements of a list item, if this is one.
    pub fn as_list(&self) -> (r: Option<&[SecsItem]>)
        ensures
            match self {
                SecsItem::List(items) => r matches Some(s) && s@ == items@,
                _ => r is None,
            },
    {
        match self {
            SecsItem::List(items) => Some(items.as_slice()),
            _ => None,
        }
    }

    /// Encode this item to the SECS-II wire format.
    pub fn encode(&self, out: &mut Vec<u8>)
        requires
            val_ok(self@),
        ensures
            final(out)@ == old(out)@ + val_bytes(self@),
        decreases self,
    {
        match self {
            SecsItem::List(items) => {
                proof {
                    lemma_models_index(items@);
                    lemma_vals_ok_index(models(items@));
                }
                push_header(0, items.len(), out);
                let ghost start = out@;
                let mut i: usize = 0;
                assert(models(items@.take(0)) =~= Seq::<ItemVal>::empty());
                assert(start + vals_bytes(Seq::<ItemVal>::empty()) =~= start);
                while i < items.len()
                    invariant
                        *self == SecsItem::List(*items),
                        i <= items@.len(),
                        models(items@).len() == items@.len(),
                        forall|j: int| 0 <= j < items@.len() ==> #[trigger] models(items@)[j] == items@[j].model(),
                        forall|j: int| 0 <= j < models(items@).len() ==> val_ok(#[trigger] models(items@)[j]),
                        out@ == start + vals_bytes(models(items@.take(i as int))),
                    decreases items@.len() - i,
                {
                    assert(val_ok(models(items@)[i as int]));
                    proof {
                        let ghost v: Vec<SecsItem> = *items;
                        assert((*self)->List_0 == v);
                        assert(decreases_to!(*self => (*self)->List_0));
                        assert(decreases_to!(v => v@));
                        assert(decreases_to!(v@ => v@[i as int]));
                        assert(decreases_to!(*self => items@[i as int]));
                    }
                    items[i].encode(out);
                    proof {
                        let t = items@.take(i as int);
                        lemma_vals_bytes_push(models(t), items@[i as int].model());
                        let t1 = items@.take(i + 1);
                        assert(t1.subrange(0, t1.len() - 1) =~= t);
                        assert(t1[t1.len() - 1] == items@[i as int]);
                    }
                    i = i + 1;
                }
                assert(items@.take(i as int) =~= items@);
            },
            SecsItem::Binary(v) => {
                push_header(0x20, v.len(), out);
                push_bytes(out, v.as_slice());
            },
            SecsItem::Boolean(v) => {
                push_header(0x24, v.len(), out);
                push_bools(v.as_slice(), out);
            },
            SecsItem::Ascii(t) => {
                let b = string_bytes(t);
                push_header(0x40, b.len(), out);
                push_bytes(out, b.as_slice());
            },
            SecsItem::Jis(v) => {
                push_header(0x44, v.len(), out);
                push_bytes(out, v.as_slice());
            },
            SecsItem::I1(v) => {
                push_header(0x64, v.len(), out);
                push_i8s(v.as_slice(), out);
            },
            SecsItem::U1(v) => {
                push_header(0xA4, v.len(), out);
                push_bytes(out, v.as_slice());
            },
            SecsItem::I8(v) => {
                proof {
                    lemma_codec_i64();
                    lemma_flat_len(v@, 8, enc_i64(), dec_i64());
                }
                push_header(0x60, v.len() * 8, out);
                push_i64s(v.as_slice(), out);
            },
            SecsItem::I2(v) => {
                proof {
                    lemma_codec_i16();
                    lemma_flat_len(v@, 2, enc_i16(), dec_i16());
                }
                push_header(0x68, v.len() * 2, out);
                push_i16s(v.as_slice(), out);
            },
            SecsItem::I4(v) => {
                proof {
                    lemma_codec_i32();
                    lemma_flat_len(v@, 4, enc_i32(), dec_i32());
                }
                push_header(0x70, v.len() * 4, out);
                push_i32s(v.as_slice(), out);
            },
            SecsItem::F8(v) => {
                proof {
                    lemma_codec_u64();
                    lemma_flat_len(v@, 8, enc_u64(), dec_u64());
                }
                push_header(0x80, v.len() * 8, out);
                push_u64s(v.as_slice(), out);
            },
            SecsItem::F4(v) => {
                proof {
                    lemma_codec_u32();
                    lemma_flat_len(v@, 4, enc_u32(), dec_u32());
                }
                push_header(0x84, v.len() * 4, out);
                push_u32s(v.as_slice(), out);
            },
            SecsItem::U8(v) => {
                proof {
                    lemma_codec_u64();
                    lemma_flat_len(v@, 8, enc_u64(), dec_u64());
                }
                push_header(0xA0, v.len() * 8, out);
                push_u64s(v.as_slice(), out);
            },
            SecsItem::U2(v) => {
                proof {
                    lemma_codec_u16();
                    lemma_flat_len(v@, 2, enc_u16(), dec_u16());
                }
                push_header(0xA8, v.len() * 2, out);
                push_u16s(v.as_slice(), out);
            },
            SecsItem::U4(v) => {
                proof {
                    lemma_codec_u32();
                    lemma_flat_len(v@, 4, enc_u32(), dec_u32());
                }
                push_header(0xB0, v.len() * 4, out);
                push_u32s(v.as_slice(), out);
            },
        }
        assert(out@ =~= old(out)@ + val_bytes(self@));
    }

    /// Whether the item fits the 3-byte length field at every level (the
    /// condition for encoding it).
    pub fn is_encodable(&self) -> (b: bool)
        ensures
            b == val_ok(self@),
        decreases self,
    {
        match self {
            SecsItem::List(items) => {
                proof {
                    lemma_models_index(items@);
                    lemma_vals_ok_index(models(items@));
                }
                if items.len() > 0xFF_FFFF {
                    return false;
                }
                let mut i: usize = 0;
                while i < items.len()
                    invariant
                        *self == SecsItem::List(*items),
                        items@.len() <= 0xFF_FFFF,
                        i <= items@.len(),
                        models(items@).len() == items@.len(),
                        forall|j: int| 0 <= j < items@.len() ==> #[trigger] models(items@)[j] == items@[j].model(),
                        forall|j: int| 0 <= j < i ==> val_ok(#[trigger] models(items@)[j]),
                        vals_ok(models(items@)) <==> forall|j: int| 0 <= j < models(items@).len() ==> val_ok(#[trigger] models(items@)[j]),
                    decreases items@.len() - i,
                {
                    proof {
                        let ghost v: Vec<SecsItem> = *items;
                        assert((*self)->List_0 == v);
                        assert(decreases_to!(*self => (*self)->List_0));
                        assert(decreases_to!(v => v@));
                        assert(decreases_to!(v@ => v@[i as int]));
                        assert(decreases_to!(*self => items@[i as int]));
                    }
                    if !items[i].is_encodable() {
                        assert(!val_ok(models(items@)[i as int]));
                        return false;
                    }
                    i = i + 1;
                }
                true
            },
            SecsItem::Binary(v) => v.len() <= 0xFF_FFFF,
            SecsItem::Boolean(v) => v.len() <= 0xFF_FFFF,
            SecsItem::Ascii(t) => t.as_str().as_bytes().len() <= 0xFF_FFFF,
            SecsItem::Jis(v) => v.len() <= 0xFF_FFFF,
            SecsItem::I1(v) => v.len() <= 0xFF_FFFF,
            SecsItem::U1(v) => v.len() <= 0xFF_FFFF,
            SecsItem::I8(v) => {
                proof {
                    lemma_codec_i64();
                    lemma_flat_len(v@, 8, enc_i64(), dec_i64());
                }
                v.len() <= 0x1F_FFFF
            },
            SecsItem::I2(v) => {
                proof {
                    lemma_codec_i16();
                    lemma_flat_len(v@, 2, enc_i16(), dec_i16());
                }
                v.len() <= 0x7F_FFFF
            },
            SecsItem::I4(v) => {
                proof {
                    lemma_codec_i32();
                    lemma_flat_len(v@, 4, enc_i32(), dec_i32());
                }
                v.len() <= 0x3F_FFFF
            },
            SecsItem::F8(v) => {
                proof {
                    lemma_codec_u64();
                    lemma_flat_len(v@, 8, enc_u64(), dec_u64());
                }
                v.len() <= 0x1F_FFFF
            },
            SecsItem::F4(v) => {
                proof {
                    lemma_codec_u32();
                    lemma_flat_len(v@, 4, enc_u32(), dec_u32());
                }
                v.len() <= 0x3F_FFFF
            },
            SecsItem::U8(v) => {
                proof {
                    lemma_codec_u64();
                    lemma_flat_len(v@, 8, enc_u64(), dec_u64());
                }
                v.len() <= 0x1F_FFFF
            },
            SecsItem::U2(v) => {
                proof {
                    lemma_codec_u16();
                    lemma_flat_len(v@, 2, enc_u16(), dec_u16());
                }
                v.len() <= 0x7F_FFFF
            },
            SecsItem::U4(v) => {
                proof {
                    lemma_codec_u32();
                    lemma_flat_len(v@, 4, enc_u32(), dec_u32());
                }
                v.len() <= 0x3F_FFFF
            },
        }
    }

    /// Encode to a fresh `Vec<u8>`.
    pub fn to_bytes(&self) -> (out: Vec<u8>)
        requires
            val_ok(self@),
        ensures
            out@ == val_bytes(self@),
    {
        let mut out: Vec<u8> = Vec::new();
        self.encode(&mut out);
        assert(out@ =~= val_bytes(self@));
        out
    }

    /// Decode one item that fills `data` exactly. Returns the item and how
    /// many bytes it consumed; bytes left after the item are an error.
    pub fn from_bytes(data: &[u8]) -> (res: Result<(SecsItem, usize), SecsError>)
        ensures
            match sp_item(data@) {
                Ok((v, r)) => if r.len() == 0 {
                    res matches Ok((it, used)) && it@ == v && used == data@.len()
                } else {
                    res == Err::<(SecsItem, usize), SecsError>(SecsError::TrailingBytesAfterItem { count: r.len() as usize })
                },
                Err(e) => res == Err::<(SecsItem, usize), SecsError>(e),
            },
    {
        let (item, consumed) = decode_item(data)?;
        if consumed != data.len() {
            return Err(SecsError::TrailingBytesAfterItem { count: data.len() - consumed });
        }
        Ok((item, consumed))
    }
}


impl SecsItem {
    /// A deep copy of the item.
    pub fn duplicate(&self) -> (r: SecsItem)
        ensures
            r@ == self@,
        decreases self,
    {
        match self {
            SecsItem::List(items) => {
                let mut out: Vec<SecsItem> = Vec::new();
                let mut i: usize = 0;
                while i < items.len()
                    invariant
                        *self == SecsItem::List(*items),
                        i <= items@.len(),
                        models(out@) == models(items@.take(i as int)),
                    decreases items@.len() - i,
                {
                    proof {
                        let ghost v: Vec<SecsItem> = *items;
                        assert((*self)->List_0 == v);
                        assert(decreases_to!(*self => (*self)->List_0));
                        assert(decreases_to!(v => v@));
                        assert(decreases_to!(v@ => v@[i as int]));
                    }
                    let c = items[i].duplicate();
                    let ghost before = out@;
                    out.push(c);
                    proof {
                        assert(out@.subrange(0, out@.len() - 1) =~= before);
                        let t1 = items@.take(i + 1);
                        assert(t1.subrange(0, t1.len() - 1) =~= items@.take(i as int));
                    }
                    i = i + 1;
                }
                assert(items@.take(i as int) =~= items@);
                SecsItem::List(out)
            },
            SecsItem::Binary(v) => SecsItem::Binary(vstd::slice::slice_to_vec(v.as_slice())),
            SecsItem::Boolean(v) => SecsItem::Boolean(vstd::slice::slice_to_vec(v.as_slice())),
            SecsItem::Ascii(t) => SecsItem::Ascii(t.clone()),
            SecsItem::Jis(v) => SecsItem::Jis(vstd::slice::slice_to_vec(v.as_slice())),
            SecsItem::I8(v) => SecsItem::I8(vstd::slice::slice_to_vec(v.as_slice())),
            SecsItem::I1(v) => SecsItem::I1(vstd::slice::slice_to_vec(v.as_slice())),
            SecsItem::I2(v) => SecsItem::I2(vstd::slice::slice_to_vec(v.as_slice())),
            SecsItem::I4(v) => SecsItem::I4(vstd::slice::slice_to_vec(v.as_slice())),
            SecsItem::F8(v) => SecsItem::F8(vstd::slice::slice_to_vec(v.as_slice())),
            SecsItem::F4(v) => SecsItem::F4(vstd::slice::slice_to_vec(v.as_slice())),
            SecsItem::U8(v) => SecsItem::U8(vstd::slice::slice_to_vec(v.as_slice())),
            SecsItem::U1(v) => SecsItem::U1(vstd::slice::slice_to_vec(v.as_slice())),
            SecsItem::U2(v) => SecsItem::U2(vstd::slice::slice_to_vec(v.as_slice())),
            SecsItem::U4(v) => SecsItem::U4(vstd::slice::slice_to_vec(v.as_slice())),
        }
    }
}

/// Deep copies of a run of items.
pub fn duplicate_all(items: &[SecsItem]) -> (r: Vec<SecsItem>)
    ensures
        models(r@) == models(items@),
{
    let mut out: Vec<SecsItem> = Vec::new();
    let mut i: usize = 0;
    while i < items.len()
        invariant
            i <= items@.len(),
            models(out@) == models(items@.take(i as int)),
        decreases items@.len() - i,
    {
        let c = items[i].duplicate();
        let ghost before = out@;
        out.push(c);
        proof {
            assert(out@.subrange(0, out@.len() - 1) =~= before);
            let t1 = items@.take(i + 1);
            assert(t1.subrange(0, t1.len() - 1) =~= items@.take(i as int));
        }
        i = i + 1;
    }
    assert(items@.take(i as int) =~= items@);
    out
}

} // verus!
