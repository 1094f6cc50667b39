//! Record bodies as sequences of typed fields: one reader and one writer for
//! every field kind, so each record type is described by its field layout.

use crate::stdf::codec::write::{cn_bytes, fits_cn, kbytes_bytes, le2, le4, nn_bytes, sn_bytes};
use crate::stdf::codec::{
    lemma_cn_roundtrip, lemma_i1_roundtrip, lemma_i2_roundtrip, lemma_kbytes_roundtrip,
    lemma_nn_roundtrip, lemma_sn_roundtrip, lemma_u1_roundtrip, lemma_u2_roundtrip,
    lemma_u4_roundtrip, lemma_cns_eof_only, sp_cn, sp_i1, sp_i2, sp_kbytes, sp_nn, sp_sn, sp_u1, sp_u2, sp_u4, Endian,
    Reader,
};
use crate::stdf::error::StdfError;
use crate::text::str_bytes;
use vstd::prelude::*;

verus! {

/// The wire type of one record field.
#[derive(Debug, Clone, Copy, PartialEq, Eq)]
pub enum FieldKind {
    U1,
    U2,
    U4,
    I1,
    I2,
    R4,
    Cn,
    Sn,
    Kn,
    Nn,
    /// A trailing `Cn` that may be missing at the end of the record (read
    /// as the empty string then).
    TailCn,
}

/// One decoded field value.
#[derive(Debug, Clone, PartialEq)]
pub enum Field {
    U1(u8),
    U2(u16),
    U4(u32),
    I1(i8),
    I2(i16),
    /// `R*4` bit pattern.
    R4(u32),
    Cn(String),
    Sn(Vec<String>),
    Kn(Vec<u8>),
    Nn(String),
}

/// The mathematical value of a field (strings as character sequences).
pub enum FieldVal {
    U1(u8),
    U2(u16),
    U4(u32),
    I1(i8),
    I2(i16),
    R4(u32),
    Cn(Seq<char>),
    Sn(Seq<Seq<char>>),
    Kn(Seq<u8>),
    Nn(Seq<char>),
    /// An optional field that is not present.
    Absent,
    /// An uninterpreted byte run (the body of an unmodelled record).
    Raw(Seq<u8>),
}

/// Character sequences of a run of strings.
pub open spec fn strings_view(v: Seq<String>) -> Seq<Seq<char>> {
    v.map_values(|s: String| s@)
}

impl View for Field {
    type V = FieldVal;

    open spec fn view(&self) -> FieldVal {
        match self {
            Field::U1(v) => FieldVal::U1(*v),
            Field::U2(v) => FieldVal::U2(*v),
            Field::U4(v) => FieldVal::U4(*v),
            Field::I1(v) => FieldVal::I1(*v),
            Field::I2(v) => FieldVal::I2(*v),
            Field::R4(v) => FieldVal::R4(*v),
            Field::Cn(s) => FieldVal::Cn(s@),
            Field::Sn(v) => FieldVal::Sn(strings_view(v@)),
            Field::Kn(d) => FieldVal::Kn(d@),
            Field::Nn(s) => FieldVal::Nn(s@),
        }
    }
}

/// Values of a run of fields.
pub open spec fn fields_view(v: Seq<Field>) -> Seq<FieldVal> {
    v.map_values(|f: Field| f@)
}

/// Read one field of kind `k` from `s`.
#[verifier::opaque]
pub open spec fn sp_field(e: Endian, k: FieldKind, s: Seq<u8>) -> Result<(FieldVal, Seq<u8>), StdfError> {
    match k {
        FieldKind::U1 => match sp_u1(s) { Ok((v, r)) => Ok((FieldVal::U1(v), r)), Err(x) => Err(x) },
        FieldKind::U2 => match sp_u2(e, s) { Ok((v, r)) => Ok((FieldVal::U2(v), r)), Err(x) => Err(x) },
        FieldKind::U4 => match sp_u4(e, s) { Ok((v, r)) => Ok((FieldVal::U4(v), r)), Err(x) => Err(x) },
        FieldKind::I1 => match sp_i1(s) { Ok((v, r)) => Ok((FieldVal::I1(v), r)), Err(x) => Err(x) },
        FieldKind::I2 => match sp_i2(e, s) { Ok((v, r)) => Ok((FieldVal::I2(v), r)), Err(x) => Err(x) },
        FieldKind::R4 => match sp_u4(e, s) { Ok((v, r)) => Ok((FieldVal::R4(v), r)), Err(x) => Err(x) },
        FieldKind::Cn => match sp_cn(s) { Ok((v, r)) => Ok((FieldVal::Cn(v), r)), Err(x) => Err(x) },
        FieldKind::Sn => match sp_sn(e, s) { Ok((v, r)) => Ok((FieldVal::Sn(v), r)), Err(x) => Err(x) },
        FieldKind::Kn => match sp_kbytes(e, s) { Ok((v, r)) => Ok((FieldVal::Kn(v), r)), Err(x) => Err(x) },
        FieldKind::Nn => match sp_nn(e, s) { Ok((v, r)) => Ok((FieldVal::Nn(v), r)), Err(x) => Err(x) },
        FieldKind::TailCn => if s.len() == 0 {
            Ok((FieldVal::Cn(Seq::empty()), s))
        } else {
            match sp_cn(s) { Ok((v, r)) => Ok((FieldVal::Cn(v), r)), Err(x) => Err(x) }
        },
    }
}

/// Read fields of the given kinds, in order.
pub open spec fn sp_fields(e: Endian, ks: Seq<FieldKind>, s: Seq<u8>) -> Result<(Seq<FieldVal>, Seq<u8>), StdfError>
    decreases ks.len(),
{
    if ks.len() == 0 {
        Ok((Seq::empty(), s))
    } else {
        match sp_fields(e, ks.drop_last(), s) {
            Ok((v, r)) => match sp_field(e, ks.last(), r) {
                Ok((f, r2)) => Ok((v.push(f), r2)),
                Err(x) => Err(x),
            },
            Err(x) => Err(x),
        }
    }
}

/// The wire bytes of one field value.
pub open spec fn field_bytes(f: FieldVal) -> Seq<u8> {
    match f {
        FieldVal::U1(v) => seq![v],
        FieldVal::U2(v) => le2(v),
        FieldVal::U4(v) => le4(v),
        FieldVal::I1(v) => seq![v as u8],
        FieldVal::I2(v) => le2(v as u16),
        FieldVal::R4(v) => le4(v),
        FieldVal::Cn(s) => cn_bytes(s),
        FieldVal::Sn(v) => sn_bytes(v),
        FieldVal::Kn(d) => kbytes_bytes(d),
        FieldVal::Nn(s) => nn_bytes(s),
        FieldVal::Absent => Seq::empty(),
        FieldVal::Raw(d) => d,
    }
}

/// The wire bytes of a run of field values.
pub open spec fn fields_bytes(fs: Seq<FieldVal>) -> Seq<u8>
    decreases fs.len(),
{
    if fs.len() == 0 {
        Seq::empty()
    } else {
        fields_bytes(fs.drop_last()) + field_bytes(fs.last())
    }
}

/// The bytes of a one-field run are the field's bytes.
pub proof fn lemma_fields_bytes_single(f: FieldVal)
    ensures
        fields_bytes(seq![f]) == field_bytes(f),
{
    assert(seq![f].drop_last() =~= Seq::<FieldVal>::empty());
    assert(fields_bytes(Seq::<FieldVal>::empty()) =~= Seq::<u8>::empty());
    assert(fields_bytes(seq![f]) =~= field_bytes(f));
}

/// The bytes of a concatenated run are the concatenated bytes.
pub proof fn lemma_fields_bytes_concat(a: Seq<FieldVal>, b: Seq<FieldVal>)
    ensures
        fields_bytes(a + b) == fields_bytes(a) + fields_bytes(b),
    decreases b.len(),
{
    if b.len() == 0 {
        assert(a + b =~= a);
        assert(fields_bytes(a) + fields_bytes(b) =~= fields_bytes(a));
    } else {
        assert((a + b).drop_last() =~= a + b.drop_last());
        assert((a + b).last() == b.last());
        lemma_fields_bytes_concat(a, b.drop_last());
        assert(fields_bytes(a + b) =~= fields_bytes(a) + fields_bytes(b));
    }
}

/// A field value fits the width of its length prefix.
pub open spec fn field_fits(f: FieldVal) -> bool {
    match f {
        FieldVal::Cn(s) => fits_cn(s),
        FieldVal::Sn(v) => v.len() <= 65535 && forall|i: int| 0 <= i < v.len() ==> fits_cn(#[trigger] v[i]),
        FieldVal::Kn(d) => d.len() <= 65535,
        _ => true,
    }
}

impl Field {
    /// Whether the field's value fits the width of its length prefix.
    pub fn fits(&self) -> (b: bool)
        ensures
            b == field_fits(self@),
    {
        match self {
            Field::Cn(s) => s.as_str().as_bytes().len() <= 255,
            Field::Sn(v) => {
                if v.len() > 65535 {
                    return false;
                }
                let mut i: usize = 0;
                while i < v.len()
                    invariant
                        self@ == FieldVal::Sn(strings_view(v@)),
                        i <= v@.len(),
                        v@.len() <= 65535,
                        forall|j: int| 0 <= j < i ==> fits_cn(#[trigger] strings_view(v@)[j]),
                    decreases v@.len() - i,
                {
                    if v[i].as_str().as_bytes().len() > 255 {
                        assert(!fits_cn(strings_view(v@)[i as int]));
                        return false;
                    }
                    i = i + 1;
                }
                true
            },
            Field::Kn(d) => d.len() <= 65535,
            _ => true,
        }
    }
}

/// A field value fits, and its written length prefix is exact.
pub open spec fn field_exact(f: FieldVal) -> bool {
    &&& field_fits(f)
    &&& (f matches FieldVal::Nn(s) ==> str_bytes(s).len() <= 65535)
}

/// Every field of a run fits.
pub open spec fn fields_fit(fs: Seq<FieldVal>) -> bool {
    forall|i: int| 0 <= i < fs.len() ==> field_fits(#[trigger] fs[i])
}

/// Every field of a run is exact.
pub open spec fn fields_exact(fs: Seq<FieldVal>) -> bool {
    forall|i: int| 0 <= i < fs.len() ==> field_exact(#[trigger] fs[i])
}

/// A value has the shape a field kind reads.
pub open spec fn kind_matches(k: FieldKind, f: FieldVal) -> bool {
    match (k, f) {
        (FieldKind::U1, FieldVal::U1(_)) => true,
        (FieldKind::U2, FieldVal::U2(_)) => true,
        (FieldKind::U4, FieldVal::U4(_)) => true,
        (FieldKind::I1, FieldVal::I1(_)) => true,
        (FieldKind::I2, FieldVal::I2(_)) => true,
        (FieldKind::R4, FieldVal::R4(_)) => true,
        (FieldKind::Cn, FieldVal::Cn(_)) => true,
        (FieldKind::Sn, FieldVal::Sn(_)) => true,
        (FieldKind::Kn, FieldVal::Kn(_)) => true,
        (FieldKind::Nn, FieldVal::Nn(_)) => true,
        (FieldKind::TailCn, FieldVal::Cn(_)) => true,
        _ => false,
    }
}

/// A run of values has the shapes of a layout.
pub open spec fn layout_matches(ks: Seq<FieldKind>, fs: Seq<FieldVal>) -> bool {
    &&& ks.len() == fs.len()
    &&& forall|i: int| 0 <= i < ks.len() ==> kind_matches(#[trigger] ks[i], fs[i])
}

/// Reading back one written field gives the value.
pub proof fn lemma_field_roundtrip(k: FieldKind, f: FieldVal, r: Seq<u8>)
    requires
        kind_matches(k, f),
        field_exact(f),
    ensures
        sp_field(Endian::Little, k, field_bytes(f) + r) == Ok::<(FieldVal, Seq<u8>), StdfError>((f, r)),
{
    reveal(sp_field);
    match f {
        FieldVal::U1(v) => lemma_u1_roundtrip(v, r),
        FieldVal::U2(v) => lemma_u2_roundtrip(v, r),
        FieldVal::U4(v) => lemma_u4_roundtrip(v, r),
        FieldVal::I1(v) => lemma_i1_roundtrip(v, r),
        FieldVal::I2(v) => lemma_i2_roundtrip(v, r),
        FieldVal::R4(v) => lemma_u4_roundtrip(v, r),
        FieldVal::Cn(s) => {
            lemma_cn_roundtrip(s, r);
            assert((cn_bytes(s) + r).len() > 0);
        },
        FieldVal::Sn(v) => lemma_sn_roundtrip(v, r),
        FieldVal::Kn(d) => lemma_kbytes_roundtrip(d, r),
        FieldVal::Nn(s) => lemma_nn_roundtrip(s, r),
        _ => {},
    }
}

/// Reading back written fields with their layout gives the values.
pub proof fn lemma_fields_roundtrip(ks: Seq<FieldKind>, fs: Seq<FieldVal>, r: Seq<u8>)
    requires
        layout_matches(ks, fs),
        fields_exact(fs),
    ensures
        sp_fields(Endian::Little, ks, fields_bytes(fs) + r) == Ok::<(Seq<FieldVal>, Seq<u8>), StdfError>((fs, r)),
    decreases ks.len(),
{
    if ks.len() > 0 {
        let tail = field_bytes(fs.last()) + r;
        assert(fields_bytes(fs) + r =~= fields_bytes(fs.drop_last()) + tail);
        assert(layout_matches(ks.drop_last(), fs.drop_last()));
        assert(kind_matches(ks.last(), fs.last()));
        assert(field_exact(fs.last()));
        lemma_fields_roundtrip(ks.drop_last(), fs.drop_last(), tail);
        lemma_field_roundtrip(ks.last(), fs.last(), r);
        assert(fs.drop_last().push(fs.last()) =~= fs);
    } else {
        assert(fs =~= Seq::<FieldVal>::empty());
        assert(fields_bytes(fs) + r =~= r);
    }
}

/// Fields read with a layout have the layout's shapes.
pub proof fn lemma_fields_shape(e: Endian, ks: Seq<FieldKind>, s: Seq<u8>)
    requires
        sp_fields(e, ks, s) is Ok,
    ensures
        layout_matches(ks, sp_fields(e, ks, s)->Ok_0.0),
    decreases ks.len(),
{
    reveal(sp_field);
    if ks.len() > 0 {
        lemma_fields_shape(e, ks.drop_last(), s);
        let prev = sp_fields(e, ks.drop_last(), s)->Ok_0;
        let v = sp_fields(e, ks, s)->Ok_0.0;
        assert(v == prev.0.push(sp_field(e, ks.last(), prev.1)->Ok_0.0));
        assert forall|i: int| 0 <= i < ks.len() implies kind_matches(#[trigger] ks[i], v[i]) by {
            if i < ks.len() - 1 {
                assert(ks.drop_last()[i] == ks[i]);
            }
        }
    }
}

/// A field read can only fail by running out of data.
pub proof fn lemma_field_eof_only(e: Endian, k: FieldKind, s: Seq<u8>)
    ensures
        sp_field(e, k, s) matches Err(x) ==> x is UnexpectedEof,
{
    reveal(sp_field);
    if k is Sn && s.len() >= 2 {
        lemma_cns_eof_only(s.skip(2), sp_u2(e, s)->Ok_0.0 as nat);
    }
}

/// Reading a layout can only fail by running out of data.
pub proof fn lemma_fields_eof_only(e: Endian, ks: Seq<FieldKind>, s: Seq<u8>)
    ensures
        sp_fields(e, ks, s) matches Err(x) ==> x is UnexpectedEof,
    decreases ks.len(),
{
    if ks.len() > 0 {
        lemma_fields_eof_only(e, ks.drop_last(), s);
        if sp_fields(e, ks.drop_last(), s) is Ok {
            lemma_field_eof_only(e, ks.last(), sp_fields(e, ks.drop_last(), s)->Ok_0.1);
        }
    }
}

/// Once one field read fails, reading a longer layout fails with that error.
pub proof fn lemma_fields_error_propagates(e: Endian, ks: Seq<FieldKind>, i: int, s: Seq<u8>)
    requires
        0 <= i < ks.len(),
        sp_fields(e, ks.take(i), s) is Ok,
        sp_field(e, ks[i], sp_fields(e, ks.take(i), s)->Ok_0.1) is Err,
    ensures
        sp_fields(e, ks, s) == Err::<(Seq<FieldVal>, Seq<u8>), StdfError>(
            sp_field(e, ks[i], sp_fields(e, ks.take(i), s)->Ok_0.1)->Err_0),
    decreases ks.len() - i,
{
    if ks.len() == i + 1 {
        assert(ks.drop_last() =~= ks.take(i));
    } else {
        assert(ks.drop_last().take(i) =~= ks.take(i));
        lemma_fields_error_propagates(e, ks.drop_last(), i, s);
    }
}

/// Read one field of kind `k`.
pub fn read_field(r: &mut Reader, k: FieldKind) -> (res: Result<Field, StdfError>)
    ensures
        final(r).byte_order() == old(r).byte_order(),
        match sp_field(old(r).byte_order(), k, old(r).rest()) {
            Ok((v, rest)) => res matches Ok(f) && f@ == v && final(r).rest() == rest,
            Err(x) => res == Err::<Field, StdfError>(x),
        },
{
    reveal(sp_field);
    match k {
        FieldKind::U1 => Ok(Field::U1(r.u1()?)),
        FieldKind::U2 => Ok(Field::U2(r.u2()?)),
        FieldKind::U4 => Ok(Field::U4(r.u4()?)),
        FieldKind::I1 => Ok(Field::I1(r.i1()?)),
        FieldKind::I2 => Ok(Field::I2(r.i2()?)),
        FieldKind::R4 => Ok(Field::R4(r.r4()?)),
        FieldKind::Cn => Ok(Field::Cn(r.cn()?)),
        FieldKind::Sn => {
            let v = r.sn()?;
            assert(strings_view(v@) =~= sp_sn(old(r).byte_order(), old(r).rest())->Ok_0.0);
            Ok(Field::Sn(v))
        },
        FieldKind::Kn => Ok(Field::Kn(r.k_bytes()?)),
        FieldKind::Nn => Ok(Field::Nn(r.nn()?)),
        FieldKind::TailCn => {
            if r.is_empty() {
                let s = String::new();
                assert(s@ =~= Seq::<char>::empty());
                Ok(Field::Cn(s))
            } else {
                Ok(Field::Cn(r.cn()?))
            }
        },
    }
}

/// Read fields of the given kinds, in order.
pub fn read_fields(r: &mut Reader, ks: &[FieldKind]) -> (res: Result<Vec<Field>, StdfError>)
    ensures
        final(r).byte_order() == old(r).byte_order(),
        match sp_fields(old(r).byte_order(), ks@, old(r).rest()) {
            Ok((v, rest)) => res matches Ok(fs) && fields_view(fs@) == v && final(r).rest() == rest,
            Err(x) => res == Err::<Vec<Field>, StdfError>(x),
        },
{
    let ghost start = r.rest();
    let mut out: Vec<Field> = Vec::new();
    let mut i: usize = 0;
    while i < ks.len()
        invariant
            i <= ks@.len(),
            r.byte_order() == old(r).byte_order(),
            start == old(r).rest(),
            sp_fields(r.byte_order(), ks@.take(i as int), start) matches Ok((v, rest))
                && fields_view(out@) == v && r.rest() == rest,
        decreases ks@.len() - i,
    {
        let ghost before = r.rest();
        assert(ks@.take(i as int + 1).drop_last() =~= ks@.take(i as int));
        match read_field(r, ks[i]) {
            Ok(f) => {
                out.push(f);
                i = i + 1;
                assert(fields_view(out@) =~= sp_fields(r.byte_order(), ks@.take(i as int), start)->Ok_0.0);
            },
            Err(x) => {
                proof {
                    lemma_fields_error_propagates(r.byte_order(), ks@, i as int, start);
                }
                return Err(x);
            },
        }
    }
    assert(ks@.take(ks@.len() as int) =~= ks@);
    Ok(out)
}

/// The `U*1` at index `i`.
pub(crate) fn get_u1(f: &Vec<Field>, i: usize) -> (v: u8)
    requires
        i < f@.len(),
    ensures
        f@[i as int]@ is U1 ==> f@[i as int]@ == FieldVal::U1(v),
{
    match &f[i] {
        Field::U1(v) => *v,
        _ => 0,
    }
}

/// The `U*2` at index `i`.
pub(crate) fn get_u2(f: &Vec<Field>, i: usize) -> (v: u16)
    requires
        i < f@.len(),
    ensures
        f@[i as int]@ is U2 ==> f@[i as int]@ == FieldVal::U2(v),
{
    match &f[i] {
        Field::U2(v) => *v,
        _ => 0,
    }
}

/// The `U*4` at index `i`.
pub(crate) fn get_u4(f: &Vec<Field>, i: usize) -> (v: u32)
    requires
        i < f@.len(),
    ensures
        f@[i as int]@ is U4 ==> f@[i as int]@ == FieldVal::U4(v),
{
    match &f[i] {
        Field::U4(v) => *v,
        _ => 0,
    }
}

/// The `I*1` at index `i`.
pub(crate) fn get_i1(f: &Vec<Field>, i: usize) -> (v: i8)
    requires
        i < f@.len(),
    ensures
        f@[i as int]@ is I1 ==> f@[i as int]@ == FieldVal::I1(v),
{
    match &f[i] {
        Field::I1(v) => *v,
        _ => 0,
    }
}

/// The `I*2` at index `i`.
pub(crate) fn get_i2(f: &Vec<Field>, i: usize) -> (v: i16)
    requires
        i < f@.len(),
    ensures
        f@[i as int]@ is I2 ==> f@[i as int]@ == FieldVal::I2(v),
{
    match &f[i] {
        Field::I2(v) => *v,
        _ => 0,
    }
}

/// The `R*4` bit pattern at index `i`.
pub(crate) fn get_r4(f: &Vec<Field>, i: usize) -> (v: u32)
    requires
        i < f@.len(),
    ensures
        f@[i as int]@ is R4 ==> f@[i as int]@ == FieldVal::R4(v),
{
    match &f[i] {
        Field::R4(v) => *v,
        _ => 0,
    }
}

/// A copy of the `Cn` string at index `i`.
pub(crate) fn get_str(f: &Vec<Field>, i: usize) -> (v: String)
    requires
        i < f@.len(),
    ensures
        f@[i as int]@ is Cn ==> f@[i as int]@ == FieldVal::Cn(v@),
{
    match &f[i] {
        Field::Cn(s) => s.clone(),
        _ => String::new(),
    }
}

/// A copy of a run of strings.
pub(crate) fn copy_strings(v: &Vec<String>) -> (c: Vec<String>)
    ensures
        strings_view(c@) == strings_view(v@),
{
    let mut c: Vec<String> = Vec::new();
    let mut i: usize = 0;
    while i < v.len()
        invariant
            i <= v@.len(),
            c@.len() == i,
            forall|k: int| 0 <= k < i ==> (#[trigger] c@[k])@ == v@[k]@,
        decreases v@.len() - i,
    {
        c.push(v[i].clone());
        i = i + 1;
    }
    assert(strings_view(c@) =~= strings_view(v@));
    c
}

/// A copy of the `Sn` strings at index `i`.
pub(crate) fn get_strs(f: &Vec<Field>, i: usize) -> (v: Vec<String>)
    requires
        i < f@.len(),
    ensures
        f@[i as int]@ is Sn ==> f@[i as int]@ == FieldVal::Sn(strings_view(v@)),
{
    match &f[i] {
        Field::Sn(v) => copy_strings(v),
        _ => Vec::new(),
    }
}

/// A copy of the counted bytes at index `i`.
pub(crate) fn get_bytes(f: &Vec<Field>, i: usize) -> (v: Vec<u8>)
    requires
        i < f@.len(),
    ensures
        f@[i as int]@ is Kn ==> f@[i as int]@ == FieldVal::Kn(v@),
{
    match &f[i] {
        Field::Kn(d) => vstd::slice::slice_to_vec(d.as_slice()),
        _ => Vec::new(),
    }
}

/// Write one field.
pub fn write_field(out: &mut Vec<u8>, f: &Field)
    requires
        field_fits(f@),
    ensures
        final(out)@ == old(out)@ + field_bytes(f@),
{
    match f {
        Field::U1(v) => crate::stdf::codec::write::u1(out, *v),
        Field::U2(v) => crate::stdf::codec::write::u2(out, *v),
        Field::U4(v) => crate::stdf::codec::write::u4(out, *v),
        Field::I1(v) => crate::stdf::codec::write::i1(out, *v),
        Field::I2(v) => crate::stdf::codec::write::i2(out, *v),
        Field::R4(v) => crate::stdf::codec::write::r4(out, *v),
        Field::Cn(s) => crate::stdf::codec::write::cn(out, s.as_str()),
        Field::Sn(v) => {
            assert forall|i: int| 0 <= i < v@.len() implies fits_cn(#[trigger] v@[i]@) by {
                assert(strings_view(v@)[i] == v@[i]@);
            }
            crate::stdf::codec::write::sn(out, v.as_slice());
        },
        Field::Kn(d) => crate::stdf::codec::write::k_bytes(out, d.as_slice()),
        Field::Nn(s) => crate::stdf::codec::write::nn(out, s.as_str()),
    }
}

/// Write a run of fields.
pub fn write_fields(out: &mut Vec<u8>, fs: &Vec<Field>)
    requires
        fields_fit(fields_view(fs@)),
    ensures
        final(out)@ == old(out)@ + fields_bytes(fields_view(fs@)),
{
    let ghost views = fields_view(fs@);
    let mut i: usize = 0;
    while i < fs.len()
        invariant
            i <= fs@.len(),
            views == fields_view(fs@),
            fields_fit(views),
            out@ == old(out)@ + fields_bytes(views.take(i as int)),
        decreases fs@.len() - i,
    {
        assert(field_fits(views[i as int]));
        write_field(out, &fs[i]);
        assert(views.take(i as int + 1).drop_last() =~= views.take(i as int));
        i = i + 1;
        assert(out@ =~= old(out)@ + fields_bytes(views.take(i as int)));
    }
    assert(views.take(fs@.len() as int) =~= views);
}

} // verus!
