//! STDF file writer into a byte buffer. Files are written little-endian
//! (FAR `CPU_TYPE` = x86), the dominant interchange flavor.

use crate::stdf::codec::write::le2;
use crate::stdf::codec::{cpu_type, Endian, STDF_VERSION_V4};
use crate::stdf::error::StdfError;
use crate::stdf::fields::lemma_fields_bytes_concat;
use crate::stdf::fields::lemma_fields_bytes_single;
use crate::stdf::fields::FieldVal;
use crate::stdf::reader::{endian_after, read_all_from, read_step, ReadState};
use crate::stdf::records::{is_modelled, lemma_record_roundtrip, Far, Record, RecordModel};
use vstd::prelude::*;

verus! {

/// The FAR written ahead of a stream whose first record is not a FAR:
/// STDF V4, x86 byte order.
pub open spec fn default_far() -> Record {
    Record::Far(Far { cpu_type: cpu_type::X86, stdf_ver: STDF_VERSION_V4 })
}

/// What is written ahead of `r`: the default FAR when no FAR was written
/// yet and `r` is not one.
pub open spec fn far_prefix(wrote_far: bool, r: Record) -> Seq<u8> {
    if !wrote_far && !r.declares_far() {
        default_far().wire_bytes()
    } else {
        Seq::empty()
    }
}

/// The bytes a writer appends for `recs`, in order, starting in the given
/// FAR state.
pub open spec fn stream_bytes(wrote_far: bool, recs: Seq<Record>) -> Seq<u8>
    decreases recs.len(),
{
    if recs.len() == 0 {
        Seq::empty()
    } else {
        far_prefix(wrote_far, recs[0]) + recs[0].wire_bytes() + stream_bytes(true, recs.drop_first())
    }
}

/// STDF writer. The first record written must be FAR; if it is not, a
/// V4/x86 FAR is prepended automatically, so a mis-ordered file can never be
/// produced by accident.
pub struct StdfWriter {
    inner: Vec<u8>,
    wrote_far: bool,
}

impl StdfWriter {
    /// The bytes written so far (after whatever `inner` held).
    pub closed spec fn bytes(&self) -> Seq<u8> {
        self.inner@
    }

    /// Whether a FAR has been written.
    pub closed spec fn far_written(&self) -> bool {
        self.wrote_far
    }

    /// A writer appending to `inner`.
    pub fn new(inner: Vec<u8>) -> (w: Self)
        ensures
            w.bytes() == inner@,
            !w.far_written(),
    {
        StdfWriter { inner, wrote_far: false }
    }

    /// Write one record. The first call must carry a FAR record; if it does
    /// not, a V4/x86 FAR is prepended automatically.
    pub fn write(&mut self, record: &Record) -> (res: Result<(), StdfError>)
        requires
            record.encodable(),
        ensures
            res is Ok,
            final(self).bytes() == old(self).bytes() + far_prefix(old(self).far_written(), *record) + record.wire_bytes(),
            final(self).far_written(),
    {
        let ghost before = self.inner@;
        if !self.wrote_far {
            self.wrote_far = true;
            if !record.is_far() {
                let f = Record::Far(Far { cpu_type: cpu_type::X86, stdf_ver: STDF_VERSION_V4 });
                f.encode(&mut self.inner);
            }
        }
        record.encode(&mut self.inner);
        assert(self.inner@ =~= before + far_prefix(old(self).far_written(), *record) + record.wire_bytes());
        Ok(())
    }

    /// Write a batch of records.
    pub fn write_all(&mut self, records: &[Record]) -> (res: Result<(), StdfError>)
        requires
            forall|i: int| 0 <= i < records@.len() ==> (#[trigger] records@[i]).encodable(),
        ensures
            res is Ok,
            final(self).bytes() == old(self).bytes() + stream_bytes(old(self).far_written(), records@),
            records@.len() > 0 ==> final(self).far_written(),
            records@.len() == 0 ==> final(self).far_written() == old(self).far_written(),
    {
        let ghost b0 = self.bytes();
        let ghost wf0 = self.far_written();
        let mut i: usize = 0;
        while i < records.len()
            invariant
                i <= records@.len(),
                forall|j: int| 0 <= j < records@.len() ==> (#[trigger] records@[j]).encodable(),
                self.bytes() == b0 + stream_bytes(wf0, records@.take(i as int)),
                i > 0 ==> self.far_written(),
                i == 0 ==> self.far_written() == wf0,
            decreases records@.len() - i,
        {
            let ghost wf = self.far_written();
            let _ = self.write(&records[i]);
            proof {
                lemma_stream_push(wf0, records@.take(i as int), records@[i as int]);
                assert(records@.take(i as int).push(records@[i as int]) =~= records@.take(i + 1));
                assert(wf == (wf0 || i > 0));
            }
            i = i + 1;
        }
        assert(records@.take(i as int) =~= records@);
        Ok(())
    }

    /// The buffer with everything written.
    pub fn into_inner(self) -> (out: Vec<u8>)
        ensures
            out@ == self.bytes(),
    {
        self.inner
    }
}

/// Writing one more record appends its prefix and bytes.
proof fn lemma_stream_push(wf: bool, recs: Seq<Record>, r: Record)
    ensures
        stream_bytes(wf, recs.push(r)) == stream_bytes(wf, recs) + far_prefix(wf || recs.len() > 0, r) + r.wire_bytes(),
    decreases recs.len(),
{
    if recs.len() == 0 {
        assert(recs.push(r).drop_first() =~= Seq::<Record>::empty());
        assert(recs.push(r)[0] == r);
        assert(stream_bytes(true, Seq::<Record>::empty()) =~= Seq::<u8>::empty());
        assert(stream_bytes(wf, recs) =~= Seq::<u8>::empty());
        assert(stream_bytes(wf, recs.push(r)) =~= stream_bytes(wf, recs) + far_prefix(wf || recs.len() > 0, r) + r.wire_bytes());
    } else {
        let rp = recs.push(r);
        assert(rp.drop_first() =~= recs.drop_first().push(r));
        assert(rp[0] == recs[0]);
        lemma_stream_push(true, recs.drop_first(), r);
        let a = far_prefix(wf, recs[0]) + recs[0].wire_bytes();
        let b = stream_bytes(true, recs.drop_first());
        let c = far_prefix(true, r) + r.wire_bytes();
        assert(stream_bytes(wf, rp) == a + stream_bytes(true, rp.drop_first()));
        assert(stream_bytes(true, rp.drop_first()) =~= b + far_prefix(true, r) + r.wire_bytes());
        assert(stream_bytes(wf, recs) == a + b);
        assert(far_prefix(wf || recs.len() > 0, r) == far_prefix(true, r));
        assert(stream_bytes(wf, rp) =~= stream_bytes(wf, recs) + far_prefix(wf || recs.len() > 0, r) + r.wire_bytes());
    }
}

/// A record this writer can write and any reader can read back: exact
/// strings, consistent flags, a body that fits REC_LEN, and no FAR that
/// declares a big-endian CPU (the writer always emits little-endian bytes).
pub open spec fn streamable(r: Record) -> bool {
    &&& r.roundtrips()
    &&& r.encodable()
    &&& r.body_bytes().len() <= 65535
    &&& !(r.far_fields() matches Some(f) && f.cpu_type == cpu_type::M68000)
}

/// What reading back a written stream yields: the prepended FAR, if any,
/// then each record.
pub open spec fn read_back(recs: Seq<Record>) -> Seq<RecordModel> {
    if recs.len() > 0 && !recs[0].declares_far() {
        seq![default_far()@] + recs.map_values(|r: Record| r@)
    } else {
        recs.map_values(|r: Record| r@)
    }
}

/// A streamable record is a FAR exactly when its code is FAR's, and its body
/// leaves the byte order little-endian.
proof fn lemma_far_code(r: Record)
    requires
        streamable(r),
    ensures
        (r.code().0 == 0 && r.code().1 == 10) <==> r.declares_far(),
        endian_after(r.code().0, r.code().1, r.body_bytes(), Endian::Little) == Endian::Little,
{
    match r {
        Record::Far(f) => {
            lemma_fields_bytes_concat(seq![FieldVal::U1(f.cpu_type)], seq![FieldVal::U1(f.stdf_ver)]);
            lemma_fields_bytes_single(FieldVal::U1(f.cpu_type));
            assert(r.wire_fields() =~= seq![FieldVal::U1(f.cpu_type)] + seq![FieldVal::U1(f.stdf_ver)]);
            assert(r.body_bytes()[0] == f.cpu_type);
        },
        Record::Unknown { typ, sub, .. } => {
            assert(is_modelled(0, 10));
        },
        Record::Tailed { record, tail } => {
            assert(r.code() == record.code());
            match *record {
                Record::Far(f) => {
                    let rest = seq![FieldVal::U1(f.stdf_ver), FieldVal::Raw(tail@)];
                    assert(record.wire_fields() =~= seq![FieldVal::U1(f.cpu_type), FieldVal::U1(f.stdf_ver)]);
                    assert(r.wire_fields() == record.wire_fields().push(FieldVal::Raw(tail@)));
                    assert(r.wire_fields() =~= seq![FieldVal::U1(f.cpu_type)] + rest);
                    lemma_fields_bytes_concat(seq![FieldVal::U1(f.cpu_type)], rest);
                    lemma_fields_bytes_single(FieldVal::U1(f.cpu_type));
                    assert(r.body_bytes()[0] == f.cpu_type);
                },
                Record::Unknown { .. } => {
                    assert(!record.complete());
                },
                _ => {},
            }
        },
        _ => {},
    }
}

/// Reading one written record (after a FAR, or a FAR itself) gives it back
/// and leaves the reader little-endian past it.
proof fn lemma_read_one(r: Record, tail: Seq<u8>, saw_far: bool)
    requires
        streamable(r),
        saw_far || r.declares_far(),
    ensures
        read_step(ReadState { rest: r.wire_bytes() + tail, saw_far, endian: Endian::Little })
            == (Ok::<Option<RecordModel>, StdfError>(Some(r@)), ReadState { rest: tail, saw_far: true, endian: Endian::Little }),
{
    let body = r.body_bytes();
    let n = body.len() as u16;
    let s = r.wire_bytes() + tail;
    assert(s =~= le2(n) + seq![r.code().0, r.code().1] + body + tail);
    assert((n % 256) as int + 256 * (n / 256) as int == n as int) by (nonlinear_arith);
    assert(s.subrange(4, 4 + body.len() as int) =~= body);
    assert(s.skip(4 + body.len() as int) =~= tail);
    lemma_record_roundtrip(r);
    lemma_far_code(r);
}

/// Reading records written after a FAR gives each back.
proof fn lemma_read_rest(recs: Seq<Record>)
    requires
        forall|i: int| 0 <= i < recs.len() ==> streamable(#[trigger] recs[i]),
    ensures
        read_all_from(ReadState { rest: stream_bytes(true, recs), saw_far: true, endian: Endian::Little })
            == Ok::<Seq<RecordModel>, StdfError>(recs.map_values(|r: Record| r@)),
    decreases recs.len(),
{
    let st = ReadState { rest: stream_bytes(true, recs), saw_far: true, endian: Endian::Little };
    if recs.len() == 0 {
        assert(recs.map_values(|r: Record| r@) =~= Seq::<RecordModel>::empty());
    } else {
        let r = recs[0];
        let tail = stream_bytes(true, recs.drop_first());
        assert(far_prefix(true, r) =~= Seq::<u8>::empty());
        assert(st.rest =~= r.wire_bytes() + tail);
        assert(streamable(recs[0]));
        lemma_read_one(r, tail, true);
        assert forall|i: int| 0 <= i < recs.drop_first().len() implies streamable(#[trigger] recs.drop_first()[i]) by {
            assert(recs.drop_first()[i] == recs[i + 1]);
        }
        lemma_read_rest(recs.drop_first());
        assert(r.wire_bytes().len() >= 4);
        assert(recs.map_values(|r: Record| r@) =~= seq![r@] + recs.drop_first().map_values(|r: Record| r@));
    }
}

/// A stream written by [`StdfWriter`] from a fresh start reads back as the
/// records written, preceded by the default FAR when the first record was
/// not a FAR. Holds for records that round-trip on their own and fit a
/// record length, when no FAR in the stream declares a big-endian CPU.
pub proof fn lemma_write_read_roundtrip(recs: Seq<Record>)
    requires
        forall|i: int| 0 <= i < recs.len() ==> streamable(#[trigger] recs[i]),
    ensures
        read_all_from(ReadState { rest: stream_bytes(false, recs), saw_far: false, endian: Endian::Little })
            == Ok::<Seq<RecordModel>, StdfError>(read_back(recs)),
{
    let st = ReadState { rest: stream_bytes(false, recs), saw_far: false, endian: Endian::Little };
    if recs.len() == 0 {
        assert(recs.map_values(|r: Record| r@) =~= Seq::<RecordModel>::empty());
    } else {
        let r = recs[0];
        let tail = stream_bytes(true, recs.drop_first());
        assert(streamable(recs[0]));
        assert forall|i: int| 0 <= i < recs.drop_first().len() implies streamable(#[trigger] recs.drop_first()[i]) by {
            assert(recs.drop_first()[i] == recs[i + 1]);
        }
        lemma_read_rest(recs.drop_first());
        assert(recs.map_values(|r: Record| r@) =~= seq![r@] + recs.drop_first().map_values(|r: Record| r@));
        if r.declares_far() {
            assert(far_prefix(false, r) =~= Seq::<u8>::empty());
            assert(st.rest =~= r.wire_bytes() + tail);
            lemma_read_one(r, tail, false);
            assert(r.wire_bytes().len() >= 4);
        } else {
            let d = default_far();
            assert(streamable(d)) by {
                lemma_fields_bytes_concat(seq![FieldVal::U1(3)], seq![FieldVal::U1(4)]);
                lemma_fields_bytes_single(FieldVal::U1(3));
                lemma_fields_bytes_single(FieldVal::U1(4));
                assert(d.wire_fields() =~= seq![FieldVal::U1(3)] + seq![FieldVal::U1(4)]);
            }
            assert(st.rest =~= d.wire_bytes() + (r.wire_bytes() + tail));
            lemma_read_one(d, r.wire_bytes() + tail, false);
            lemma_read_one(r, tail, true);
            assert(d.wire_bytes().len() >= 4);
            assert(r.wire_bytes().len() >= 4);
            let st1 = ReadState { rest: r.wire_bytes() + tail, saw_far: true, endian: Endian::Little };
            assert(read_all_from(st1) == Ok::<Seq<RecordModel>, StdfError>(recs.map_values(|r: Record| r@)));
            assert(read_back(recs) =~= seq![d@] + recs.map_values(|r: Record| r@));
        }
    }
}

} // verus!
