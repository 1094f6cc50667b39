//! STDF file reader: yields parsed records from the bytes of a file.
//!
//! The FAR record must come first (it declares CPU endianness); numeric
//! fields are read little-endian until a FAR says otherwise.

use crate::stdf::codec::{cpu_type, Endian};
use crate::stdf::error::StdfError;
use crate::stdf::records::{is_modelled, lemma_parse_eof_only, spec_parse, Record, RecordModel};
use vstd::prelude::*;

verus! {

/// The message carried by the error for a file that does not open with FAR.
pub open spec fn far_first_detail() -> Seq<char> {
    "first record in an STDF file must be FAR"@
}

/// The length a record header declares (REC_LEN is always little-endian).
pub open spec fn header_len(b0: u8, b1: u8) -> int {
    b0 as int + 256 * b1 as int
}

/// The byte order after reading a record: a FAR with a non-empty body sets
/// it from its CPU_TYPE (68000-class means big-endian, anything else little).
pub open spec fn endian_after(typ: u8, sub: u8, body: Seq<u8>, e: Endian) -> Endian {
    if typ == 0 && sub == 10 && body.len() > 0 {
        if body[0] == cpu_type::M68000 { Endian::Big } else { Endian::Little }
    } else {
        e
    }
}

/// Reader state as a value: the unread bytes, whether FAR was seen, and the
/// byte order in force.
pub struct ReadState {
    pub rest: Seq<u8>,
    pub saw_far: bool,
    pub endian: Endian,
}

/// One step of reading: the outcome (no record at the end of the data, a
/// record, or an error) and the state afterwards.
pub open spec fn read_step(st: ReadState) -> (Result<Option<RecordModel>, StdfError>, ReadState) {
    let s = st.rest;
    if s.len() == 0 {
        (Ok(None), st)
    } else if s.len() < 4 {
        (Err(StdfError::ShortRecordHeader(0)), ReadState { rest: Seq::empty(), ..st })
    } else {
        let typ = s[2];
        let sub = s[3];
        let is_far = typ == 0 && sub == 10;
        if !st.saw_far && !is_far {
            (Err(StdfError::MalformedRecord { typ, sub, detail: arbitrary() }), ReadState { rest: s.skip(4), ..st })
        } else {
            let len = header_len(s[0], s[1]);
            if s.len() - 4 < len {
                (Err(StdfError::UnexpectedEof { wanted: len as usize, had: (s.len() - 4) as usize }),
                    ReadState { rest: Seq::empty(), ..st })
            } else {
                let body = s.subrange(4, 4 + len);
                let e = endian_after(typ, sub, body, st.endian);
                let next = ReadState { rest: s.skip(4 + len), saw_far: st.saw_far || is_far, endian: e };
                match spec_parse(typ, sub, body, e) {
                    Ok(m) => (Ok(Some(m)), next),
                    Err(x) => (Err(x), next),
                }
            }
        }
    }
}

/// The data opens with a record header that is not FAR's while no FAR was
/// seen.
pub open spec fn far_missing(st: ReadState) -> bool {
    st.rest.len() >= 4 && !st.saw_far && !(st.rest[2] == 0 && st.rest[3] == 10)
}

/// The outcome of a step, errors compared up to the detail text of the
/// FAR-first error (whose text `next_record` states separately).
pub open spec fn same_outcome(a: Result<Option<RecordModel>, StdfError>, b: Result<Option<RecordModel>, StdfError>) -> bool {
    match (a, b) {
        (Err(StdfError::MalformedRecord { typ: t1, sub: s1, .. }), Err(StdfError::MalformedRecord { typ: t2, sub: s2, .. })) =>
            t1 == t2 && s1 == s2,
        _ => a == b,
    }
}

/// Everything `read_all` yields from a state: the records up to the end of
/// the data, or the first error.
pub open spec fn read_all_from(st: ReadState) -> Result<Seq<RecordModel>, StdfError>
    decreases st.rest.len(),
{
    let (o, next) = read_step(st);
    match o {
        Ok(None) => Ok(Seq::empty()),
        Ok(Some(m)) => if next.rest.len() < st.rest.len() {
            match read_all_from(next) {
                Ok(v) => Ok(seq![m] + v),
                Err(x) => Err(x),
            }
        } else {
            Ok(seq![m])
        },
        Err(x) => Err(x),
    }
}

/// The view of a reader result: records by their models.
pub open spec fn outcome_view(r: Result<Option<Record>, StdfError>) -> Result<Option<RecordModel>, StdfError> {
    match r {
        Ok(Some(rec)) => Ok(Some(rec@)),
        Ok(None) => Ok(None),
        Err(x) => Err(x),
    }
}

/// STDF reader over the bytes of a file.
pub struct StdfReader {
    inner: Vec<u8>,
    pos: usize,
    endian: Endian,
    /// Set once the FAR has been seen.
    saw_far: bool,
}

impl StdfReader {
    /// The reader's state as a value.
    pub closed spec fn state(&self) -> ReadState {
        ReadState { rest: self.inner@.skip(self.pos as int), saw_far: self.saw_far, endian: self.endian }
    }

    #[verifier::type_invariant]
    closed spec fn pos_in_bounds(&self) -> bool {
        self.pos <= self.inner@.len()
    }

    /// A reader positioned at the start of `inner`.
    pub fn new(inner: Vec<u8>) -> (r: Self)
        ensures
            r.state() == (ReadState { rest: inner@, saw_far: false, endian: Endian::Little }),
    {
        let r = StdfReader { inner, pos: 0, endian: Endian::Little, saw_far: false };
        assert(r.inner@.skip(0) =~= r.inner@);
        r
    }

    /// The endianness declared by the file's FAR record (little until FAR
    /// is read).
    pub fn endian(&self) -> (e: Endian)
        ensures
            e == self.state().endian,
    {
        self.endian
    }

    /// Read the next record. Returns `Ok(None)` at end of data.
    pub fn next_record(&mut self) -> (res: Result<Option<Record>, StdfError>)
        ensures
            same_outcome(outcome_view(res), read_step(old(self).state()).0),
            final(self).state() == read_step(old(self).state()).1,
            far_missing(old(self).state()) ==> (res matches Err(StdfError::MalformedRecord { detail, .. })
                && detail@ == far_first_detail()),
            res matches Ok(Some(rec)) ==> rec.well_shaped() && (rec is Unknown <==> !is_modelled(rec@.typ, rec@.sub)),
    {
        proof {
            use_type_invariant(&*self);
        }
        let ghost st = self.state();
        let avail = self.inner.len() - self.pos;
        if avail == 0 {
            return Ok(None);
        }
        if avail < 4 {
            self.pos = self.inner.len();
            assert(self.state().rest =~= Seq::<u8>::empty());
            return Err(StdfError::ShortRecordHeader(0));
        }
        let p = self.pos;
        let h0 = self.inner[p];
        let h1 = self.inner[p + 1];
        let typ = self.inner[p + 2];
        let sub = self.inner[p + 3];
        assert(st.rest[0] == h0 && st.rest[1] == h1 && st.rest[2] == typ && st.rest[3] == sub);
        let is_far = typ == 0 && sub == 10;
        if !self.saw_far && !is_far {
            self.pos = p + 4;
            assert(self.state().rest =~= st.rest.skip(4));
            let detail = "first record in an STDF file must be FAR".to_string();
            return Err(StdfError::MalformedRecord { typ, sub, detail });
        }
        let len: usize = h0 as usize + 256 * (h1 as usize);
        if avail - 4 < len {
            self.pos = self.inner.len();
            assert(self.state().rest =~= Seq::<u8>::empty());
            return Err(StdfError::UnexpectedEof { wanted: len, had: avail - 4 });
        }
        let body = vstd::slice::slice_subrange(self.inner.as_slice(), p + 4, p + 4 + len);
        assert(body@ =~= st.rest.subrange(4, 4 + len as int));
        if is_far {
            self.saw_far = true;
            if len > 0 {
                self.endian = if body[0] == cpu_type::M68000 { Endian::Big } else { Endian::Little };
            }
        }
        self.pos = p + 4 + len;
        assert(self.state().rest =~= st.rest.skip(4 + len as int));
        let parsed = Record::parse(typ, sub, body, self.endian);
        match parsed {
            Ok(rec) => Ok(Some(rec)),
            Err(x) => Err(x),
        }
    }

    /// Read all remaining records into a vector.
    pub fn read_all(&mut self) -> (res: Result<Vec<Record>, StdfError>)
        ensures
            match read_all_from(old(self).state()) {
                Ok(v) => res matches Ok(recs) && recs@.map_values(|r: Record| r@) == v,
                Err(x) => res matches Err(y) && same_outcome(Err(y), Err(x)),
            },
            res matches Err(StdfError::MalformedRecord { detail, .. }) ==> detail@ == far_first_detail(),
            res matches Ok(recs) ==> forall|i: int| 0 <= i < recs@.len() ==> (#[trigger] recs@[i]).well_shaped()
                && (recs@[i] is Unknown <==> !is_modelled(recs@[i]@.typ, recs@[i]@.sub)),
    {
        let ghost st0 = self.state();
        let mut records: Vec<Record> = Vec::new();
        loop
            invariant
                st0 == old(self).state(),
                forall|i: int| 0 <= i < records@.len() ==> (#[trigger] records@[i]).well_shaped()
                    && (records@[i] is Unknown <==> !is_modelled(records@[i]@.typ, records@[i]@.sub)),
                match read_all_from(st0) {
                    Ok(v) => match read_all_from(self.state()) {
                        Ok(w) => v == records@.map_values(|r: Record| r@) + w,
                        Err(_) => false,
                    },
                    Err(x) => match read_all_from(self.state()) {
                        Ok(_) => false,
                        Err(y) => x == y,
                    },
                },
            decreases self.state().rest.len(),
        {
            let ghost before = self.state();
            let next = self.next_record();
            match next {
                Ok(Some(record)) => {
                    proof {
                        lemma_step_consumes(before);
                    }
                    let ghost m = record@;
                    let ghost old_seq = records@.map_values(|r: Record| r@);
                    records.push(record);
                    assert(records@.map_values(|r: Record| r@) =~= old_seq + seq![m]);
                    proof {
                        match read_all_from(self.state()) {
                            Ok(w) => {
                                assert(old_seq + seq![m] + w =~= old_seq + (seq![m] + w));
                            },
                            Err(_) => {},
                        }
                    }
                },
                Ok(None) => {
                    assert(read_step(before).0 == Ok::<Option<RecordModel>, StdfError>(None));
                    assert(read_all_from(before) == Ok::<Seq<RecordModel>, StdfError>(Seq::empty()));
                    proof {
                        match read_all_from(st0) {
                            Ok(v) => {
                                assert(v =~= records@.map_values(|r: Record| r@) + Seq::<RecordModel>::empty());
                                assert(v =~= records@.map_values(|r: Record| r@));
                            },
                            Err(_) => {},
                        }
                    }
                    return Ok(records);
                },
                Err(e) => {
                    proof {
                        let o = read_step(before).0;
                        assert(o is Err);
                        if e is MalformedRecord {
                            let s = before.rest;
                            if !far_missing(before) && s.len() >= 4 {
                                let len = header_len(s[0], s[1]);
                                if s.len() - 4 >= len {
                                    let body = s.subrange(4, 4 + len);
                                    lemma_parse_eof_only(s[2], s[3], body, endian_after(s[2], s[3], body, before.endian));
                                }
                            }
                            assert(far_missing(before));
                        }
                        assert(read_all_from(before) == Err::<Seq<RecordModel>, StdfError>(o->Err_0));
                    }
                    return Err(e);
                },
            }
        }
    }
}

/// A step that yields a record consumes at least its four header bytes.
proof fn lemma_step_consumes(st: ReadState)
    requires
        read_step(st).0 is Ok,
        read_step(st).0->Ok_0 is Some,
    ensures
        read_step(st).1.rest.len() + 4 <= st.rest.len(),
{
}

} // verus!
