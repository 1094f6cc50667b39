//! The STDF V4 record set this crate reads and writes: FAR, ATR, MIR, MRR,
//! PCR, HBR, SBR, PMR, WIR, WRR, WCR, PTR, FTR, TSR, GDR, DTR, BPS, EPS.
//! Records not modelled here are preserved verbatim as
//! [`Record::Unknown`] (type/subtype + raw body), so a read-then-write pass
//! is byte-lossless even for files holding unsupported records. Fields whose
//! presence depends on flag bits (PTR's optional limits, FTR's optional block)
//! follow the V4 conditional-presence rules; any bytes left after a record's
//! known fields are kept as its tail ([`Record::Tailed`]) and re-emitted on
//! write. `R*4` fields hold IEEE-754 bit patterns.

pub mod opt_flg;
pub mod parm_flg;
pub mod test_flg;

use crate::stdf::codec::write::le2;
use crate::stdf::codec::{lemma_u1_roundtrip, Endian, Reader};
use crate::stdf::error::StdfError;
use crate::stdf::fields::{
    field_fits, fields_bytes, fields_exact, fields_fit, fields_view, get_bytes, get_i1, get_i2, get_r4,
    get_str, get_strs, get_u1, get_u2, get_u4, layout_matches, lemma_field_eof_only, lemma_fields_eof_only, lemma_fields_roundtrip,
    lemma_fields_shape, kind_matches, read_field, field_bytes, field_exact, lemma_field_roundtrip,
    lemma_fields_bytes_concat, lemma_fields_bytes_single, read_fields, sp_field, sp_fields, strings_view, write_fields,
    Field, FieldKind, FieldVal,
};
use crate::text::push_bytes;
use vstd::prelude::*;

verus! {

/// File Attributes Record: the writer's CPU type and STDF version.
#[derive(Debug, Clone, PartialEq, Default)]
pub struct Far {
    pub cpu_type: u8,
    pub stdf_ver: u8,
}

/// Audit Trail Record.
#[derive(Debug, Clone, PartialEq)]
pub struct Atr {
    pub mod_timn: u32,
    pub cmd_line: String,
}

/// Master Information Record: identifies the lot, part, tester, and test job.
#[derive(Debug, Clone, PartialEq, Default)]
pub struct Mir {
    pub setup_t: u32,
    pub start_t: u32,
    pub stat_bin: u8,
    pub mode_cod: u8,
    pub rtn_cod: u8,
    pub prot_cod: u8,
    pub burn_day: u16,
    pub cmt_cnt: u8,
    pub lot_id: String,
    pub part_typ: String,
    pub node_nam: String,
    pub tstr_typ: String,
    pub job_nam: String,
    pub job_rev: String,
    pub sblot_id: String,
    pub oper_nam: String,
    pub exec_typ: String,
    pub exec_ver: String,
    pub test_cod: String,
    pub tst_temp: String,
    pub user_txt: String,
    pub aux_file: String,
    pub pkg_typ: String,
    pub family_id: String,
    pub date_cod: String,
    pub facil_id: String,
    pub floor_id: String,
    pub proc_id: String,
    pub oper_frq: String,
    pub spec_nam: String,
    pub spec_ver: String,
    pub flow_id: String,
    pub setup_id: String,
    pub dsgn_rev: String,
    pub eng_id: String,
    pub rom_cod: String,
    pub serl_num: String,
    pub supr_nam: String,
}

/// Master Results Record: lot-level counters, written last.
#[derive(Debug, Clone, PartialEq)]
pub struct Mrr {
    pub finish_t: u32,
    pub disp_cod: u8,
    pub usr_cod: u8,
    pub exc_cod: u8,
    pub usr_desc: String,
    pub exc_desc: String,
}

/// Part Results Record: per-site cumulative part counters.
#[derive(Debug, Clone, PartialEq)]
pub struct Pcr {
    pub head_num: u8,
    pub site_num: u8,
    pub part_cnt: u32,
    pub rtst_cnt: u32,
    pub abrt_cnt: u32,
    pub good_cnt: u32,
    pub func_cnt: u32,
}

/// Hardware Bin Record.
#[derive(Debug, Clone, PartialEq)]
pub struct Hbr {
    pub head_num: u8,
    pub site_num: u8,
    pub hbin_num: u16,
    pub hbin_cnt: u32,
    /// 'P' or 'F'.
    pub hbin_pf: u8,
    pub hbin_nam: String,
}

/// Software Bin Record.
#[derive(Debug, Clone, PartialEq)]
pub struct Sbr {
    pub head_num: u8,
    pub site_num: u8,
    pub sbin_num: u16,
    pub sbin_cnt: u32,
    /// 'P' or 'F'.
    pub sbin_pf: u8,
    pub sbin_nam: String,
}

/// Pin Map Record.
#[derive(Debug, Clone, PartialEq)]
pub struct Pmr {
    pub pin_idx: u16,
    pub chan_typ: u16,
    pub chan_nam: String,
    pub phy_nam: String,
    pub log_nam: String,
    pub head_num: Option<u8>,
    pub site_num: Option<u8>,
}

/// Wafer Information Record: start of wafer testing.
#[derive(Debug, Clone, PartialEq)]
pub struct Wir {
    pub head_num: u8,
    pub site_grp: u8,
    pub start_t: u32,
    pub wafer_id: String,
}

/// Wafer Results Record: end of wafer testing.
#[derive(Debug, Clone, PartialEq)]
pub struct Wrr {
    pub head_num: u8,
    pub site_grp: u8,
    pub finish_t: u32,
    pub part_cnt: u32,
    pub rtst_cnt: u32,
    pub abrt_cnt: u32,
    pub good_cnt: u32,
    pub func_cnt: u32,
    pub wafer_id: String,
    pub fabwf_id: String,
    pub frame_id: String,
    pub mask_id: String,
    pub usr_desc: String,
    pub exc_desc: String,
}

/// Wafer Configuration Record: wafer geometry and die coordinate system.
/// The three size fields are `R*4` bit patterns.
#[derive(Debug, Clone, PartialEq)]
pub struct Wcr {
    pub wafr_siz: u32,
    pub die_ht: u32,
    pub die_wid: u32,
    /// Units for the three fields above (0 = inches, 1 = cm, 2 = mm, 3 = mil).
    pub wf_units: u8,
    /// WF_FLAT bit field: bits 0-1 = flat location, bit 2 = flat located.
    pub wf_flat: u8,
    pub center_x: i16,
    pub center_y: i16,
    /// Die X axis direction ('L', 'R', or '?').
    pub pos_x: u8,
    /// Die Y axis direction ('T', 'B', or '?').
    pub pos_y: u8,
}

/// Parametric Test Record: one analog/numeric test result. `result` and the
/// limits are `R*4` bit patterns.
#[derive(Debug, Clone, PartialEq)]
pub struct Ptr {
    pub test_num: u32,
    pub head_num: u8,
    pub site_num: u8,
    pub test_flg: u8,
    pub parm_flg: u8,
    pub result: u32,
    pub test_txt: String,
    pub alarm_id: String,
    pub opt_flg: Option<u8>,
    pub res_scal: Option<i8>,
    pub llm_scal: Option<i8>,
    pub hlm_scal: Option<i8>,
    pub lo_limit: Option<u32>,
    pub hi_limit: Option<u32>,
    pub units: String,
}

/// Functional Test Record: one pattern-group execution result.
#[derive(Debug, Clone, PartialEq)]
pub struct Ftr {
    pub test_num: u32,
    pub head_num: u8,
    pub site_num: u8,
    pub test_flg: u8,
    pub opt_flg: u8,
    pub cycl_cnt: u32,
    pub rel_vpos: u32,
    pub rept_cnt: u32,
    pub num_fail: u32,
    pub x_fail_adj: i16,
    pub y_fail_adj: i16,
    pub vect_offset: i16,
    pub rtn_icq: u16,
    pub rtn_ilim: u16,
    pub pgm_icq: u16,
    pub pgm_ilim: u16,
    pub rtn_nam: Vec<String>,
    pub pgm_nam: Vec<String>,
    pub alarm_id: Option<String>,
    pub opt_flg_2: Option<u8>,
    pub program: Option<String>,
    pub test_label: Option<String>,
}

/// Test Synopsis Record: per-test aggregate counters.
#[derive(Debug, Clone, PartialEq)]
pub struct Tsr {
    pub head_num: u8,
    pub site_num: u8,
    /// 'P' parametric, 'F' functional, 'M' multiple-mode.
    pub test_typ: u8,
    pub test_num: u32,
    pub exec_cnt: u32,
    pub fail_cnt: u32,
    pub alarm_cnt: u32,
    pub test_nam: String,
    pub seq_name: String,
    pub test_lbl: String,
}

/// Generic Data Record: opaque N-byte data blob.
#[derive(Debug, Clone, PartialEq)]
pub struct Gdr {
    pub gen_data: Vec<u8>,
}

/// Datalog Text Record: free-form text.
#[derive(Debug, Clone, PartialEq)]
pub struct Dtr {
    pub text_dat: String,
}

/// Begin Program Section marker (no data fields).
#[derive(Debug, Clone, Copy, PartialEq, Eq, Default)]
pub struct Bps;

/// End Program Section marker (no data fields).
#[derive(Debug, Clone, Copy, PartialEq, Eq, Default)]
pub struct Eps;

/// One parsed STDF record. Unsupported record types survive as `Unknown`.
#[derive(Debug, PartialEq)]
pub enum Record {
    Far(Far),
    Atr(Atr),
    Mir(Mir),
    Mrr(Mrr),
    Pcr(Pcr),
    Hbr(Hbr),
    Sbr(Sbr),
    Pmr(Pmr),
    Wir(Wir),
    Wrr(Wrr),
    Wcr(Wcr),
    Ptr(Ptr),
    Ftr(Ftr),
    Tsr(Tsr),
    Gdr(Gdr),
    Dtr(Dtr),
    Bps(Bps),
    Eps(Eps),
    /// A record this crate does not model, preserved verbatim.
    Unknown { typ: u8, sub: u8, data: Vec<u8> },
    /// A modelled record whose body goes on after its known fields: the
    /// bytes that follow are kept as its tail and written back after them.
    Tailed { record: Box<Record>, tail: Vec<u8> },
}

/// The mathematical value of a record: its type/subtype and its field
/// values in wire order (optional fields that are missing are `Absent`).
pub struct RecordModel {
    pub typ: u8,
    pub sub: u8,
    pub fields: Seq<FieldVal>,
}

/// An optional `U*1` as a field value.
pub open spec fn opt_u1(o: Option<u8>) -> FieldVal {
    match o {
        Some(v) => FieldVal::U1(v),
        None => FieldVal::Absent,
    }
}

/// An optional `I*1` as a field value.
pub open spec fn opt_i1(o: Option<i8>) -> FieldVal {
    match o {
        Some(v) => FieldVal::I1(v),
        None => FieldVal::Absent,
    }
}

/// An optional `R*4` as a field value.
pub open spec fn opt_r4(o: Option<u32>) -> FieldVal {
    match o {
        Some(v) => FieldVal::R4(v),
        None => FieldVal::Absent,
    }
}

/// An optional `Cn` string as a field value.
pub open spec fn opt_cn(o: Option<String>) -> FieldVal {
    match o {
        Some(s) => FieldVal::Cn(s@),
        None => FieldVal::Absent,
    }
}

/// An optional `Nn` string as a field value.
pub open spec fn opt_nn(o: Option<String>) -> FieldVal {
    match o {
        Some(s) => FieldVal::Nn(s@),
        None => FieldVal::Absent,
    }
}

/// `f` as a one-element run when `cond` holds, the empty run otherwise.
pub open spec fn present(cond: bool, f: FieldVal) -> Seq<FieldVal> {
    if cond {
        seq![f]
    } else {
        Seq::empty()
    }
}

// ----- field layouts ---------------------------------------------------------

pub open spec fn layout_far() -> Seq<FieldKind> {
    seq![FieldKind::U1, FieldKind::U1]
}

pub open spec fn layout_atr() -> Seq<FieldKind> {
    seq![FieldKind::U4, FieldKind::Cn]
}

/// MIR: eight fixed-width fields, then thirty `Cn` strings.
pub open spec fn layout_mir() -> Seq<FieldKind> {
    seq![FieldKind::U4, FieldKind::U4, FieldKind::U1, FieldKind::U1, FieldKind::U1, FieldKind::U1,
        FieldKind::U2, FieldKind::U1] + Seq::new(30, |i: int| FieldKind::Cn)
}

pub open spec fn layout_mrr() -> Seq<FieldKind> {
    seq![FieldKind::U4, FieldKind::U1, FieldKind::U1, FieldKind::U1, FieldKind::Cn, FieldKind::Cn]
}

pub open spec fn layout_pcr() -> Seq<FieldKind> {
    seq![FieldKind::U1, FieldKind::U1, FieldKind::U4, FieldKind::U4, FieldKind::U4, FieldKind::U4, FieldKind::U4]
}

/// HBR and SBR share one layout.
pub open spec fn layout_bin() -> Seq<FieldKind> {
    seq![FieldKind::U1, FieldKind::U1, FieldKind::U2, FieldKind::U4, FieldKind::U1, FieldKind::Cn]
}

/// PMR without its optional head/site pair.
pub open spec fn layout_pmr() -> Seq<FieldKind> {
    seq![FieldKind::U2, FieldKind::U2, FieldKind::Cn, FieldKind::Cn, FieldKind::Cn]
}

pub open spec fn layout_wir() -> Seq<FieldKind> {
    seq![FieldKind::U1, FieldKind::U1, FieldKind::U4, FieldKind::Cn]
}

pub open spec fn layout_wrr() -> Seq<FieldKind> {
    seq![FieldKind::U1, FieldKind::U1, FieldKind::U4, FieldKind::U4, FieldKind::U4, FieldKind::U4,
        FieldKind::U4, FieldKind::U4, FieldKind::Cn, FieldKind::TailCn, FieldKind::TailCn,
        FieldKind::TailCn, FieldKind::TailCn, FieldKind::TailCn]
}

pub open spec fn layout_wcr() -> Seq<FieldKind> {
    seq![FieldKind::R4, FieldKind::R4, FieldKind::R4, FieldKind::U1, FieldKind::U1, FieldKind::I2,
        FieldKind::I2, FieldKind::U1, FieldKind::U1]
}

/// PTR's always-present leading fields.
pub open spec fn layout_ptr_head() -> Seq<FieldKind> {
    seq![FieldKind::U4, FieldKind::U1, FieldKind::U1, FieldKind::U1, FieldKind::U1, FieldKind::R4,
        FieldKind::Cn, FieldKind::Cn]
}

/// FTR's always-present leading fields.
pub open spec fn layout_ftr_head() -> Seq<FieldKind> {
    seq![FieldKind::U4, FieldKind::U1, FieldKind::U1, FieldKind::U1, FieldKind::U1, FieldKind::U4,
        FieldKind::U4, FieldKind::U4, FieldKind::U4, FieldKind::I2, FieldKind::I2, FieldKind::I2,
        FieldKind::U2, FieldKind::U2, FieldKind::U2, FieldKind::U2, FieldKind::Sn, FieldKind::Sn]
}

pub open spec fn layout_tsr() -> Seq<FieldKind> {
    seq![FieldKind::U1, FieldKind::U1, FieldKind::U1, FieldKind::U4, FieldKind::U4, FieldKind::U4,
        FieldKind::U4, FieldKind::TailCn, FieldKind::TailCn, FieldKind::TailCn]
}

pub open spec fn layout_gdr() -> Seq<FieldKind> {
    seq![FieldKind::Kn]
}

pub open spec fn layout_dtr() -> Seq<FieldKind> {
    seq![FieldKind::Cn]
}

/// The layout of each record type whose body is a fixed run of fields.
pub open spec fn fixed_layout_of(typ: u8, sub: u8) -> Option<Seq<FieldKind>> {
    if typ == 0 && sub == 10 {
        Some(layout_far())
    } else if typ == 0 && sub == 20 {
        Some(layout_atr())
    } else if typ == 1 && sub == 10 {
        Some(layout_mir())
    } else if typ == 1 && sub == 20 {
        Some(layout_mrr())
    } else if typ == 1 && sub == 30 {
        Some(layout_pcr())
    } else if typ == 1 && (sub == 40 || sub == 50) {
        Some(layout_bin())
    } else if typ == 2 && sub == 10 {
        Some(layout_wir())
    } else if typ == 2 && sub == 20 {
        Some(layout_wrr())
    } else if typ == 2 && sub == 30 {
        Some(layout_wcr())
    } else if typ == 5 && sub == 30 {
        Some(layout_tsr())
    } else if typ == 20 && sub == 10 {
        Some(layout_gdr())
    } else if typ == 20 && sub == 30 {
        Some(layout_dtr())
    } else {
        None
    }
}

/// Record types this crate models.
pub open spec fn is_modelled(typ: u8, sub: u8) -> bool {
    ||| fixed_layout_of(typ, sub) is Some
    ||| (typ == 5 && sub == 10)
    ||| (typ == 15 && (sub == 10 || sub == 20))
    ||| (typ == 20 && (sub == 15 || sub == 20))
}

fn fixed_layout(typ: u8, sub: u8) -> (l: Option<Vec<FieldKind>>)
    ensures
        match fixed_layout_of(typ, sub) {
            Some(k) => l matches Some(v) && v@ == k,
            None => l is None,
        },
{
    if typ == 0 && sub == 10 {
        let v = vec![FieldKind::U1, FieldKind::U1];
        assert(v@ =~= layout_far());
        Some(v)
    } else if typ == 0 && sub == 20 {
        let v = vec![FieldKind::U4, FieldKind::Cn];
        assert(v@ =~= layout_atr());
        Some(v)
    } else if typ == 1 && sub == 10 {
        let mut v = vec![FieldKind::U4, FieldKind::U4, FieldKind::U1, FieldKind::U1, FieldKind::U1,
            FieldKind::U1, FieldKind::U2, FieldKind::U1];
        let mut i: usize = 0;
        while i < 30
            invariant
                i <= 30,
                v@ =~= seq![FieldKind::U4, FieldKind::U4, FieldKind::U1, FieldKind::U1, FieldKind::U1,
                    FieldKind::U1, FieldKind::U2, FieldKind::U1] + Seq::new(i as nat, |j: int| FieldKind::Cn),
            decreases 30 - i,
        {
            v.push(FieldKind::Cn);
            i = i + 1;
            assert(v@ =~= seq![FieldKind::U4, FieldKind::U4, FieldKind::U1, FieldKind::U1, FieldKind::U1,
                FieldKind::U1, FieldKind::U2, FieldKind::U1] + Seq::new(i as nat, |j: int| FieldKind::Cn));
        }
        Some(v)
    } else if typ == 1 && sub == 20 {
        let v = vec![FieldKind::U4, FieldKind::U1, FieldKind::U1, FieldKind::U1, FieldKind::Cn, FieldKind::Cn];
        assert(v@ =~= layout_mrr());
        Some(v)
    } else if typ == 1 && sub == 30 {
        let v = vec![FieldKind::U1, FieldKind::U1, FieldKind::U4, FieldKind::U4, FieldKind::U4,
            FieldKind::U4, FieldKind::U4];
        assert(v@ =~= layout_pcr());
        Some(v)
    } else if typ == 1 && (sub == 40 || sub == 50) {
        let v = vec![FieldKind::U1, FieldKind::U1, FieldKind::U2, FieldKind::U4, FieldKind::U1, FieldKind::Cn];
        assert(v@ =~= layout_bin());
        Some(v)
    } else if typ == 2 && sub == 10 {
        let v = vec![FieldKind::U1, FieldKind::U1, FieldKind::U4, FieldKind::Cn];
        assert(v@ =~= layout_wir());
        Some(v)
    } else if typ == 2 && sub == 20 {
        let v = vec![FieldKind::U1, FieldKind::U1, FieldKind::U4, FieldKind::U4, FieldKind::U4,
            FieldKind::U4, FieldKind::U4, FieldKind::U4, FieldKind::Cn, FieldKind::TailCn,
            FieldKind::TailCn, FieldKind::TailCn, FieldKind::TailCn, FieldKind::TailCn];
        assert(v@ =~= layout_wrr());
        Some(v)
    } else if typ == 2 && sub == 30 {
        let v = vec![FieldKind::R4, FieldKind::R4, FieldKind::R4, FieldKind::U1, FieldKind::U1,
            FieldKind::I2, FieldKind::I2, FieldKind::U1, FieldKind::U1];
        assert(v@ =~= layout_wcr());
        Some(v)
    } else if typ == 5 && sub == 30 {
        let v = vec![FieldKind::U1, FieldKind::U1, FieldKind::U1, FieldKind::U4, FieldKind::U4,
            FieldKind::U4, FieldKind::U4, FieldKind::TailCn, FieldKind::TailCn, FieldKind::TailCn];
        assert(v@ =~= layout_tsr());
        Some(v)
    } else if typ == 20 && sub == 10 {
        let v = vec![FieldKind::Kn];
        assert(v@ =~= layout_gdr());
        Some(v)
    } else if typ == 20 && sub == 30 {
        let v = vec![FieldKind::Cn];
        assert(v@ =~= layout_dtr());
        Some(v)
    } else {
        None
    }
}


// ----- field values of each record ------------------------------------------

impl Far {
    pub open spec fn fields(&self) -> Seq<FieldVal> {
        seq![FieldVal::U1(self.cpu_type), FieldVal::U1(self.stdf_ver)]
    }
}

impl Atr {
    pub open spec fn fields(&self) -> Seq<FieldVal> {
        seq![FieldVal::U4(self.mod_timn), FieldVal::Cn(self.cmd_line@)]
    }
}

impl Mir {
    pub open spec fn fields(&self) -> Seq<FieldVal> {
        seq![FieldVal::U4(self.setup_t), FieldVal::U4(self.start_t), FieldVal::U1(self.stat_bin),
            FieldVal::U1(self.mode_cod), FieldVal::U1(self.rtn_cod), FieldVal::U1(self.prot_cod),
            FieldVal::U2(self.burn_day), FieldVal::U1(self.cmt_cnt)] + seq![
            FieldVal::Cn(self.lot_id@), FieldVal::Cn(self.part_typ@), FieldVal::Cn(self.node_nam@),
            FieldVal::Cn(self.tstr_typ@), FieldVal::Cn(self.job_nam@), FieldVal::Cn(self.job_rev@),
            FieldVal::Cn(self.sblot_id@), FieldVal::Cn(self.oper_nam@), FieldVal::Cn(self.exec_typ@),
            FieldVal::Cn(self.exec_ver@), FieldVal::Cn(self.test_cod@), FieldVal::Cn(self.tst_temp@),
            FieldVal::Cn(self.user_txt@), FieldVal::Cn(self.aux_file@), FieldVal::Cn(self.pkg_typ@),
            FieldVal::Cn(self.family_id@), FieldVal::Cn(self.date_cod@), FieldVal::Cn(self.facil_id@),
            FieldVal::Cn(self.floor_id@), FieldVal::Cn(self.proc_id@), FieldVal::Cn(self.oper_frq@),
            FieldVal::Cn(self.spec_nam@), FieldVal::Cn(self.spec_ver@), FieldVal::Cn(self.flow_id@),
            FieldVal::Cn(self.setup_id@), FieldVal::Cn(self.dsgn_rev@), FieldVal::Cn(self.eng_id@),
            FieldVal::Cn(self.rom_cod@), FieldVal::Cn(self.serl_num@), FieldVal::Cn(self.supr_nam@)]
    }
}

impl Mrr {
    pub open spec fn fields(&self) -> Seq<FieldVal> {
        seq![FieldVal::U4(self.finish_t), FieldVal::U1(self.disp_cod), FieldVal::U1(self.usr_cod),
            FieldVal::U1(self.exc_cod), FieldVal::Cn(self.usr_desc@), FieldVal::Cn(self.exc_desc@)]
    }
}

impl Pcr {
    pub open spec fn fields(&self) -> Seq<FieldVal> {
        seq![FieldVal::U1(self.head_num), FieldVal::U1(self.site_num), FieldVal::U4(self.part_cnt),
            FieldVal::U4(self.rtst_cnt), FieldVal::U4(self.abrt_cnt), FieldVal::U4(self.good_cnt),
            FieldVal::U4(self.func_cnt)]
    }
}

impl Hbr {
    pub open spec fn fields(&self) -> Seq<FieldVal> {
        seq![FieldVal::U1(self.head_num), FieldVal::U1(self.site_num), FieldVal::U2(self.hbin_num),
            FieldVal::U4(self.hbin_cnt), FieldVal::U1(self.hbin_pf), FieldVal::Cn(self.hbin_nam@)]
    }
}

impl Sbr {
    pub open spec fn fields(&self) -> Seq<FieldVal> {
        seq![FieldVal::U1(self.head_num), FieldVal::U1(self.site_num), FieldVal::U2(self.sbin_num),
            FieldVal::U4(self.sbin_cnt), FieldVal::U1(self.sbin_pf), FieldVal::Cn(self.sbin_nam@)]
    }
}

impl Pmr {
    pub open spec fn head_fields(&self) -> Seq<FieldVal> {
        seq![FieldVal::U2(self.pin_idx), FieldVal::U2(self.chan_typ), FieldVal::Cn(self.chan_nam@),
            FieldVal::Cn(self.phy_nam@), FieldVal::Cn(self.log_nam@)]
    }

    pub open spec fn fields(&self) -> Seq<FieldVal> {
        self.head_fields() + seq![opt_u1(self.head_num), opt_u1(self.site_num)]
    }

    /// The fields actually written: the head/site pair only when both are set.
    pub open spec fn wire_fields(&self) -> Seq<FieldVal> {
        self.head_fields() + present(
            self.head_num is Some && self.site_num is Some,
            opt_u1(self.head_num),
        ) + present(self.head_num is Some && self.site_num is Some, opt_u1(self.site_num))
    }
}

impl Wir {
    pub open spec fn fields(&self) -> Seq<FieldVal> {
        seq![FieldVal::U1(self.head_num), FieldVal::U1(self.site_grp), FieldVal::U4(self.start_t),
            FieldVal::Cn(self.wafer_id@)]
    }
}

impl Wrr {
    pub open spec fn fields(&self) -> Seq<FieldVal> {
        seq![FieldVal::U1(self.head_num), FieldVal::U1(self.site_grp), FieldVal::U4(self.finish_t),
            FieldVal::U4(self.part_cnt), FieldVal::U4(self.rtst_cnt), FieldVal::U4(self.abrt_cnt),
            FieldVal::U4(self.good_cnt), FieldVal::U4(self.func_cnt), FieldVal::Cn(self.wafer_id@),
            FieldVal::Cn(self.fabwf_id@), FieldVal::Cn(self.frame_id@), FieldVal::Cn(self.mask_id@),
            FieldVal::Cn(self.usr_desc@), FieldVal::Cn(self.exc_desc@)]
    }
}

impl Wcr {
    pub open spec fn fields(&self) -> Seq<FieldVal> {
        seq![FieldVal::R4(self.wafr_siz), FieldVal::R4(self.die_ht), FieldVal::R4(self.die_wid),
            FieldVal::U1(self.wf_units), FieldVal::U1(self.wf_flat), FieldVal::I2(self.center_x),
            FieldVal::I2(self.center_y), FieldVal::U1(self.pos_x), FieldVal::U1(self.pos_y)]
    }
}

impl Ptr {
    pub open spec fn head_fields(&self) -> Seq<FieldVal> {
        seq![FieldVal::U4(self.test_num), FieldVal::U1(self.head_num), FieldVal::U1(self.site_num),
            FieldVal::U1(self.test_flg), FieldVal::U1(self.parm_flg), FieldVal::R4(self.result),
            FieldVal::Cn(self.test_txt@), FieldVal::Cn(self.alarm_id@)]
    }

    pub open spec fn fields(&self) -> Seq<FieldVal> {
        self.head_fields() + seq![opt_u1(self.opt_flg), opt_i1(self.res_scal), opt_i1(self.llm_scal),
            opt_i1(self.hlm_scal), opt_r4(self.lo_limit), opt_r4(self.hi_limit), FieldVal::Cn(self.units@)]
    }

    /// The optional block actually written: `OPT_FLAG` when set, then each
    /// optional field that is set and whose "not present" bit is clear.
    pub open spec fn opt_wire(&self) -> Seq<FieldVal> {
        match self.opt_flg {
            Some(f) => seq![FieldVal::U1(f)] + (
                present(f & 0x01 == 0 && self.res_scal is Some, opt_i1(self.res_scal)) + (
                present(f & 0x02 == 0 && self.llm_scal is Some, opt_i1(self.llm_scal)) + (
                present(f & 0x04 == 0 && self.hlm_scal is Some, opt_i1(self.hlm_scal)) + (
                present(f & 0x08 == 0 && self.lo_limit is Some, opt_r4(self.lo_limit))
                + present(f & 0x10 == 0 && self.hi_limit is Some, opt_r4(self.hi_limit)))))),
            None => Seq::empty(),
        }
    }

    pub open spec fn wire_fields(&self) -> Seq<FieldVal> {
        self.head_fields() + self.opt_wire() + seq![FieldVal::Cn(self.units@)]
    }

    /// The optional fields agree with the flag bits, so reading back what
    /// is written restores them exactly.
    pub open spec fn flags_consistent(&self) -> bool {
        match self.opt_flg {
            Some(f) => {
                &&& self.parm_flg & 0x10 != 0
                &&& (self.res_scal is Some) == (f & 0x01 == 0)
                &&& (self.llm_scal is Some) == (f & 0x02 == 0)
                &&& (self.hlm_scal is Some) == (f & 0x04 == 0)
                &&& (self.lo_limit is Some) == (f & 0x08 == 0)
                &&& (self.hi_limit is Some) == (f & 0x10 == 0)
            },
            None => {
                &&& self.parm_flg & 0x10 == 0
                &&& self.res_scal is None
                &&& self.llm_scal is None
                &&& self.hlm_scal is None
                &&& self.lo_limit is None
                &&& self.hi_limit is None
            },
        }
    }
}

impl Ftr {
    pub open spec fn head_fields(&self) -> Seq<FieldVal> {
        seq![FieldVal::U4(self.test_num), FieldVal::U1(self.head_num), FieldVal::U1(self.site_num),
            FieldVal::U1(self.test_flg), FieldVal::U1(self.opt_flg), FieldVal::U4(self.cycl_cnt),
            FieldVal::U4(self.rel_vpos), FieldVal::U4(self.rept_cnt), FieldVal::U4(self.num_fail),
            FieldVal::I2(self.x_fail_adj), FieldVal::I2(self.y_fail_adj), FieldVal::I2(self.vect_offset),
            FieldVal::U2(self.rtn_icq), FieldVal::U2(self.rtn_ilim), FieldVal::U2(self.pgm_icq),
            FieldVal::U2(self.pgm_ilim), FieldVal::Sn(strings_view(self.rtn_nam@)),
            FieldVal::Sn(strings_view(self.pgm_nam@))]
    }

    pub open spec fn fields(&self) -> Seq<FieldVal> {
        self.head_fields() + seq![opt_cn(self.alarm_id), opt_u1(self.opt_flg_2), opt_nn(self.program),
            opt_nn(self.test_label)]
    }

    /// `OPT_FLAG_2` as written (absent counts as zero).
    pub open spec fn flag2(&self) -> u8 {
        match self.opt_flg_2 {
            Some(f) => f,
            None => 0,
        }
    }

    /// The optional block actually written: only when `ALARM_ID` is set.
    pub open spec fn opt_wire(&self) -> Seq<FieldVal> {
        match self.alarm_id {
            Some(a) => seq![FieldVal::Cn(a@)] + (seq![FieldVal::U1(self.flag2())] + (
                present(self.flag2() & 0x02 == 0 && self.program is Some, opt_nn(self.program))
                + present(self.flag2() & 0x04 == 0 && self.test_label is Some, opt_nn(self.test_label)))),
            None => Seq::empty(),
        }
    }

    pub open spec fn wire_fields(&self) -> Seq<FieldVal> {
        self.head_fields() + self.opt_wire()
    }

    /// The optional block agrees with the flag bits, so reading back what is
    /// written restores it exactly.
    pub open spec fn flags_consistent(&self) -> bool {
        match self.alarm_id {
            Some(_) => {
                &&& self.opt_flg & 0x01 != 0
                &&& self.opt_flg_2 is Some
                &&& (self.program is Some ==> self.flag2() & 0x02 == 0)
                &&& (self.test_label is Some ==> self.flag2() & 0x04 == 0)
                &&& (self.program is None && self.flag2() & 0x02 == 0 ==> !(self.flag2() & 0x04
                    == 0 && self.test_label is Some))
            },
            None => {
                &&& self.opt_flg_2 is None
                &&& self.program is None
                &&& self.test_label is None
            },
        }
    }
}

impl Tsr {
    pub open spec fn fields(&self) -> Seq<FieldVal> {
        seq![FieldVal::U1(self.head_num), FieldVal::U1(self.site_num), FieldVal::U1(self.test_typ),
            FieldVal::U4(self.test_num), FieldVal::U4(self.exec_cnt), FieldVal::U4(self.fail_cnt),
            FieldVal::U4(self.alarm_cnt), FieldVal::Cn(self.test_nam@), FieldVal::Cn(self.seq_name@),
            FieldVal::Cn(self.test_lbl@)]
    }
}

impl Gdr {
    pub open spec fn fields(&self) -> Seq<FieldVal> {
        seq![FieldVal::Kn(self.gen_data@)]
    }
}

impl Dtr {
    pub open spec fn fields(&self) -> Seq<FieldVal> {
        seq![FieldVal::Cn(self.text_dat@)]
    }
}

impl Record {
    /// The (REC_TYP, REC_SUB) pair of a record.
    pub open spec fn code(&self) -> (u8, u8)
        decreases self,
    {
        match self {
            Record::Far(_) => (0, 10),
            Record::Atr(_) => (0, 20),
            Record::Mir(_) => (1, 10),
            Record::Mrr(_) => (1, 20),
            Record::Pcr(_) => (1, 30),
            Record::Hbr(_) => (1, 40),
            Record::Sbr(_) => (1, 50),
            Record::Pmr(_) => (5, 10),
            Record::Wir(_) => (2, 10),
            Record::Wrr(_) => (2, 20),
            Record::Wcr(_) => (2, 30),
            Record::Ptr(_) => (15, 10),
            Record::Ftr(_) => (15, 20),
            Record::Tsr(_) => (5, 30),
            Record::Gdr(_) => (20, 10),
            Record::Dtr(_) => (20, 30),
            Record::Bps(_) => (20, 15),
            Record::Eps(_) => (20, 20),
            Record::Unknown { typ, sub, .. } => (*typ, *sub),
            Record::Tailed { record, .. } => record.code(),
        }
    }

    /// The record's field values in wire order; a tail is a last raw field.
    pub open spec fn fields(&self) -> Seq<FieldVal>
        decreases self,
    {
        match self {
            Record::Far(r) => r.fields(),
            Record::Atr(r) => r.fields(),
            Record::Mir(r) => r.fields(),
            Record::Mrr(r) => r.fields(),
            Record::Pcr(r) => r.fields(),
            Record::Hbr(r) => r.fields(),
            Record::Sbr(r) => r.fields(),
            Record::Pmr(r) => r.fields(),
            Record::Wir(r) => r.fields(),
            Record::Wrr(r) => r.fields(),
            Record::Wcr(r) => r.fields(),
            Record::Ptr(r) => r.fields(),
            Record::Ftr(r) => r.fields(),
            Record::Tsr(r) => r.fields(),
            Record::Gdr(r) => r.fields(),
            Record::Dtr(r) => r.fields(),
            Record::Bps(_) => Seq::empty(),
            Record::Eps(_) => Seq::empty(),
            Record::Unknown { data, .. } => seq![FieldVal::Raw(data@)],
            Record::Tailed { record, tail } => record.fields().push(FieldVal::Raw(tail@)),
        }
    }

    /// The field values actually written, in order.
    pub open spec fn wire_fields(&self) -> Seq<FieldVal>
        decreases self,
    {
        match self {
            Record::Pmr(r) => r.wire_fields(),
            Record::Ptr(r) => r.wire_fields(),
            Record::Ftr(r) => r.wire_fields(),
            Record::Tailed { record, tail } => record.wire_fields().push(FieldVal::Raw(tail@)),
            _ => self.fields(),
        }
    }

    /// Reading this record's written body followed by more bytes stops
    /// where the body ends: no field of it is read only while data remains
    /// and left out.
    pub open spec fn complete(&self) -> bool {
        match self {
            Record::Pmr(r) => r.head_num is Some,
            Record::Ftr(r) => match r.alarm_id {
                Some(_) => (r.program is None ==> r.flag2() & 0x02 != 0)
                    && (r.test_label is None ==> r.flag2() & 0x04 != 0),
                None => r.opt_flg & 0x01 == 0,
            },
            Record::Unknown { .. } => false,
            Record::Tailed { .. } => false,
            _ => true,
        }
    }

    /// The record body (everything after REC_LEN/REC_TYP/REC_SUB).
    pub open spec fn body_bytes(&self) -> Seq<u8> {
        fields_bytes(self.wire_fields())
    }

    /// The full wire encoding: REC_LEN (body length, truncated to 16 bits),
    /// REC_TYP, REC_SUB, body.
    pub open spec fn wire_bytes(&self) -> Seq<u8> {
        le2(self.body_bytes().len() as u16) + seq![self.code().0, self.code().1] + self.body_bytes()
    }

    /// Every length-prefixed field fits its prefix (writing panics otherwise).
    pub open spec fn encodable(&self) -> bool {
        fields_fit(self.wire_fields())
    }

    /// Parsing the written body restores this record exactly.
    pub open spec fn roundtrips(&self) -> bool {
        match self {
            Record::Tailed { record, tail } => tail@.len() > 0 && record.plain_roundtrips() && record.complete(),
            _ => self.plain_roundtrips(),
        }
    }

    /// A record without a tail whose written body parses back to it.
    pub open spec fn plain_roundtrips(&self) -> bool {
        &&& !(self is Tailed)
        &&& fields_exact(self.wire_fields())
        &&& match self {
            Record::Pmr(r) => (r.head_num is Some) == (r.site_num is Some),
            Record::Ptr(r) => r.flags_consistent(),
            Record::Ftr(r) => r.flags_consistent(),
            Record::Unknown { typ, sub, .. } => !is_modelled(*typ, *sub),
            _ => true,
        }
    }
}

impl View for Record {
    type V = RecordModel;

    open spec fn view(&self) -> RecordModel {
        RecordModel { typ: self.code().0, sub: self.code().1, fields: self.fields() }
    }
}


// ----- reading record bodies --------------------------------------------------

/// Read a field of kind `k` only when `cond` holds and data remains.
pub open spec fn sp_opt(e: Endian, cond: bool, k: FieldKind, s: Seq<u8>) -> Result<(FieldVal, Seq<u8>), StdfError> {
    if cond && s.len() > 0 {
        sp_field(e, k, s)
    } else {
        Ok((FieldVal::Absent, s))
    }
}

/// The value of an optional decoded field.
pub open spec fn opt_field_view(o: Option<Field>) -> FieldVal {
    match o {
        Some(f) => f@,
        None => FieldVal::Absent,
    }
}

/// PMR body: five fields, then a head/site pair when data remains.
pub open spec fn sp_pmr(e: Endian, s: Seq<u8>) -> Result<(Seq<FieldVal>, Seq<u8>), StdfError> {
    match sp_fields(e, layout_pmr(), s) {
        Err(x) => Err(x),
        Ok((h, r)) => if r.len() == 0 {
            Ok((h + seq![FieldVal::Absent, FieldVal::Absent], r))
        } else {
            match sp_field(e, FieldKind::U1, r) {
                Err(x) => Err(x),
                Ok((a, r2)) => match sp_field(e, FieldKind::U1, r2) {
                    Err(x) => Err(x),
                    Ok((b, r3)) => Ok((h + seq![a, b], r3)),
                },
            }
        },
    }
}

/// PTR's scaling exponents and limits: each read when `has` (OPT_FLAG was
/// read), its "not present" bit in `f` is clear, and data remains.
pub open spec fn sp_ptr_tail(e: Endian, has: bool, f: u8, s2: Seq<u8>) -> Result<(Seq<FieldVal>, Seq<u8>), StdfError> {
    match sp_opt(e, has && f & 0x01 == 0, FieldKind::I1, s2) {
        Err(x) => Err(x),
        Ok((a, s3)) => match sp_opt(e, has && f & 0x02 == 0, FieldKind::I1, s3) {
            Err(x) => Err(x),
            Ok((b, s4)) => match sp_opt(e, has && f & 0x04 == 0, FieldKind::I1, s4) {
                Err(x) => Err(x),
                Ok((c, s5)) => match sp_opt(e, has && f & 0x08 == 0, FieldKind::R4, s5) {
                    Err(x) => Err(x),
                    Ok((d, s6)) => match sp_opt(e, has && f & 0x10 == 0, FieldKind::R4, s6) {
                        Err(x) => Err(x),
                        Ok((g, s7)) => Ok((seq![a, b, c, d, g], s7)),
                    },
                },
            },
        },
    }
}

/// PTR body: the head, then `OPT_FLAG` when PARM_FLG says so, then each
/// optional field whose "not present" bit is clear (while data remains),
/// then the units.
pub open spec fn sp_ptr(e: Endian, s: Seq<u8>) -> Result<(Seq<FieldVal>, Seq<u8>), StdfError> {
    match sp_fields(e, layout_ptr_head(), s) {
        Err(x) => Err(x),
        Ok((h, s1)) => {
            let parm = h[4]->U1_0;
            match sp_opt(e, parm & 0x10 != 0, FieldKind::U1, s1) {
                Err(x) => Err(x),
                Ok((o, s2)) => {
                    let has = o is U1;
                    let f: u8 = if has { o->U1_0 } else { 0 };
                    match sp_ptr_tail(e, has, f, s2) {
                        Err(x) => Err(x),
                        Ok((q, s7)) => match sp_field(e, FieldKind::TailCn, s7) {
                            Err(x) => Err(x),
                            Ok((u, s8)) => Ok((h + seq![o] + q + seq![u], s8)),
                        },
                    }
                },
            }
        },
    }
}

/// FTR body: the head, then — when OPT_FLAG bit 0 is set and data remains —
/// ALARM_ID, OPT_FLAG_2 (zero if missing), PROGRAM and TEST_LABEL (each read
/// when its OPT_FLAG_2 bit is clear and data remains).
pub open spec fn sp_ftr(e: Endian, s: Seq<u8>) -> Result<(Seq<FieldVal>, Seq<u8>), StdfError> {
    match sp_fields(e, layout_ftr_head(), s) {
        Err(x) => Err(x),
        Ok((h, s1)) => {
            let opt = h[4]->U1_0;
            if opt & 0x01 != 0 && s1.len() > 0 {
                match sp_field(e, FieldKind::Cn, s1) {
                    Err(x) => Err(x),
                    Ok((al, s2)) => {
                        let r2: Result<(FieldVal, Seq<u8>), StdfError> = if s2.len() > 0 {
                            sp_field(e, FieldKind::U1, s2)
                        } else {
                            Ok((FieldVal::U1(0), s2))
                        };
                        match r2 {
                            Err(x) => Err(x),
                            Ok((f2v, s3)) => {
                                let f2 = f2v->U1_0;
                                match sp_opt(e, f2 & 0x02 == 0, FieldKind::Nn, s3) {
                                    Err(x) => Err(x),
                                    Ok((p, s4)) => match sp_opt(e, f2 & 0x04 == 0, FieldKind::Nn, s4) {
                                        Err(x) => Err(x),
                                        Ok((l, s5)) => Ok((h + seq![al, f2v, p, l], s5)),
                                    },
                                }
                            },
                        }
                    },
                }
            } else {
                Ok((h + seq![FieldVal::Absent, FieldVal::Absent, FieldVal::Absent, FieldVal::Absent], s1))
            }
        },
    }
}

/// The fields a body parses to and the bytes left after them, given its
/// (REC_TYP, REC_SUB); `e` applies to the multi-byte numeric fields.
/// Unmodelled types take the whole body as one raw field.
pub open spec fn parse_body(typ: u8, sub: u8, data: Seq<u8>, e: Endian) -> Result<(Seq<FieldVal>, Seq<u8>), StdfError> {
    match fixed_layout_of(typ, sub) {
        Some(l) => sp_fields(e, l, data),
        None => if typ == 5 && sub == 10 {
            sp_pmr(e, data)
        } else if typ == 15 && sub == 10 {
            sp_ptr(e, data)
        } else if typ == 15 && sub == 20 {
            sp_ftr(e, data)
        } else if typ == 20 && (sub == 15 || sub == 20) {
            Ok((Seq::empty(), data))
        } else {
            Ok((seq![FieldVal::Raw(data)], Seq::empty()))
        },
    }
}

/// Parsed fields with the bytes left after them kept as a last raw field.
pub open spec fn with_tail(fs: Seq<FieldVal>, rest: Seq<u8>) -> Seq<FieldVal> {
    if rest.len() == 0 { fs } else { fs.push(FieldVal::Raw(rest)) }
}

/// Parse one record body given its (REC_TYP, REC_SUB); `e` applies to the
/// multi-byte numeric fields. Unmodelled types become `Unknown` records
/// holding the body verbatim; bytes after a modelled record's fields are
/// kept as its tail.
pub open spec fn spec_parse(typ: u8, sub: u8, data: Seq<u8>, e: Endian) -> Result<RecordModel, StdfError> {
    match parse_body(typ, sub, data, e) {
        Ok((fs, rest)) => Ok(RecordModel { typ, sub, fields: with_tail(fs, rest) }),
        Err(x) => Err(x),
    }
}

/// An optional field read can only fail by running out of data.
proof fn lemma_opt_eof_only(e: Endian, cond: bool, k: FieldKind, s: Seq<u8>)
    ensures
        sp_opt(e, cond, k, s) matches Err(x) ==> x is UnexpectedEof,
{
    lemma_field_eof_only(e, k, s);
}

/// Parsing a record body can only fail by running out of data.
pub proof fn lemma_parse_eof_only(typ: u8, sub: u8, data: Seq<u8>, e: Endian)
    ensures
        spec_parse(typ, sub, data, e) matches Err(x) ==> x is UnexpectedEof,
{
    match fixed_layout_of(typ, sub) {
        Some(l) => lemma_fields_eof_only(e, l, data),
        None => {
            if typ == 5 && sub == 10 {
                lemma_fields_eof_only(e, layout_pmr(), data);
                if let Ok((_, r)) = sp_fields(e, layout_pmr(), data) {
                    lemma_field_eof_only(e, FieldKind::U1, r);
                    if let Ok((_, r2)) = sp_field(e, FieldKind::U1, r) {
                        lemma_field_eof_only(e, FieldKind::U1, r2);
                    }
                }
            } else if typ == 15 && sub == 10 {
                lemma_fields_eof_only(e, layout_ptr_head(), data);
                if let Ok((h, s1)) = sp_fields(e, layout_ptr_head(), data) {
                    let parm = h[4]->U1_0;
                    lemma_opt_eof_only(e, parm & 0x10 != 0, FieldKind::U1, s1);
                    if let Ok((o, s2)) = sp_opt(e, parm & 0x10 != 0, FieldKind::U1, s1) {
                        let has = o is U1;
                        let f: u8 = if has { o->U1_0 } else { 0 };
                        lemma_opt_eof_only(e, has && f & 0x01 == 0, FieldKind::I1, s2);
                        if let Ok((_, s3)) = sp_opt(e, has && f & 0x01 == 0, FieldKind::I1, s2) {
                            lemma_opt_eof_only(e, has && f & 0x02 == 0, FieldKind::I1, s3);
                            if let Ok((_, s4)) = sp_opt(e, has && f & 0x02 == 0, FieldKind::I1, s3) {
                                lemma_opt_eof_only(e, has && f & 0x04 == 0, FieldKind::I1, s4);
                                if let Ok((_, s5)) = sp_opt(e, has && f & 0x04 == 0, FieldKind::I1, s4) {
                                    lemma_opt_eof_only(e, has && f & 0x08 == 0, FieldKind::R4, s5);
                                    if let Ok((_, s6)) = sp_opt(e, has && f & 0x08 == 0, FieldKind::R4, s5) {
                                        lemma_opt_eof_only(e, has && f & 0x10 == 0, FieldKind::R4, s6);
                                    }
                                }
                            }
                        }
                        if let Ok((_, s7)) = sp_ptr_tail(e, has, f, s2) {
                            lemma_field_eof_only(e, FieldKind::TailCn, s7);
                        }
                    }
                }
            } else if typ == 15 && sub == 20 {
                lemma_fields_eof_only(e, layout_ftr_head(), data);
                if let Ok((h, s1)) = sp_fields(e, layout_ftr_head(), data) {
                    lemma_field_eof_only(e, FieldKind::Cn, s1);
                    if let Ok((_, s2)) = sp_field(e, FieldKind::Cn, s1) {
                        lemma_field_eof_only(e, FieldKind::U1, s2);
                        let r2: Result<(FieldVal, Seq<u8>), StdfError> = if s2.len() > 0 {
                            sp_field(e, FieldKind::U1, s2)
                        } else {
                            Ok((FieldVal::U1(0), s2))
                        };
                        if let Ok((f2v, s3)) = r2 {
                            let f2 = f2v->U1_0;
                            lemma_opt_eof_only(e, f2 & 0x02 == 0, FieldKind::Nn, s3);
                            if let Ok((_, s4)) = sp_opt(e, f2 & 0x02 == 0, FieldKind::Nn, s3) {
                                lemma_opt_eof_only(e, f2 & 0x04 == 0, FieldKind::Nn, s4);
                            }
                        }
                    }
                }
            }
        },
    }
}

/// Read a field of kind `k` only when `cond` holds and data remains.
fn read_opt(r: &mut Reader, cond: bool, k: FieldKind) -> (res: Result<Option<Field>, StdfError>)
    ensures
        final(r).byte_order() == old(r).byte_order(),
        match sp_opt(old(r).byte_order(), cond, k, old(r).rest()) {
            Ok((v, rest)) => res matches Ok(o) && opt_field_view(o) == v && final(r).rest() == rest,
            Err(x) => res == Err::<Option<Field>, StdfError>(x),
        },
{
    if cond && !r.is_empty() {
        let f = read_field(r, k)?;
        Ok(Some(f))
    } else {
        Ok(None)
    }
}

fn opt_u1_of(o: &Option<Field>) -> (v: Option<u8>)
    ensures
        opt_field_view(*o) is U1 || opt_field_view(*o) is Absent ==> opt_u1(v) == opt_field_view(*o),
{
    match o {
        Some(Field::U1(v)) => Some(*v),
        _ => None,
    }
}

fn opt_i1_of(o: &Option<Field>) -> (v: Option<i8>)
    ensures
        opt_field_view(*o) is I1 || opt_field_view(*o) is Absent ==> opt_i1(v) == opt_field_view(*o),
{
    match o {
        Some(Field::I1(v)) => Some(*v),
        _ => None,
    }
}

fn opt_r4_of(o: &Option<Field>) -> (v: Option<u32>)
    ensures
        opt_field_view(*o) is R4 || opt_field_view(*o) is Absent ==> opt_r4(v) == opt_field_view(*o),
{
    match o {
        Some(Field::R4(v)) => Some(*v),
        _ => None,
    }
}

fn opt_nn_of(o: Option<Field>) -> (v: Option<String>)
    ensures
        opt_field_view(o) is Nn || opt_field_view(o) is Absent ==> opt_nn(v) == opt_field_view(o),
{
    match o {
        Some(Field::Nn(s)) => Some(s),
        _ => None,
    }
}

fn parse_pmr(r: &mut Reader) -> (res: Result<Pmr, StdfError>)
    ensures
        match sp_pmr(old(r).byte_order(), old(r).rest()) {
            Ok((v, rest)) => res matches Ok(p) && p.fields() == v && final(r).rest() == rest,
            Err(x) => res == Err::<Pmr, StdfError>(x),
        },
{
    reveal(sp_field);
    let l = vec![FieldKind::U2, FieldKind::U2, FieldKind::Cn, FieldKind::Cn, FieldKind::Cn];
    assert(l@ =~= layout_pmr());
    let h = read_fields(r, l.as_slice())?;
    proof {
        lemma_fields_shape(old(r).byte_order(), layout_pmr(), old(r).rest());
    }
    let ghost hv = fields_view(h@);
    assert(hv[0] == h@[0]@ && hv[1] == h@[1]@ && hv[2] == h@[2]@ && hv[3] == h@[3]@ && hv[4] == h@[4]@);
    let (head_num, site_num) = if !r.is_empty() {
        let a = r.u1()?;
        let b = r.u1()?;
        (Some(a), Some(b))
    } else {
        (None, None)
    };
    let p = Pmr {
        pin_idx: get_u2(&h, 0),
        chan_typ: get_u2(&h, 1),
        chan_nam: get_str(&h, 2),
        phy_nam: get_str(&h, 3),
        log_nam: get_str(&h, 4),
        head_num,
        site_num,
    };
    assert(p.head_fields() =~= hv);
    assert(p.fields() =~= sp_pmr(old(r).byte_order(), old(r).rest())->Ok_0.0);
    Ok(p)
}

/// Read PTR's scaling exponents and limits.
fn read_ptr_tail(r: &mut Reader, has: bool, f: u8) -> (res: Result<(Option<Field>, Option<Field>, Option<Field>, Option<Field>, Option<Field>), StdfError>)
    ensures
        final(r).byte_order() == old(r).byte_order(),
        match sp_ptr_tail(old(r).byte_order(), has, f, old(r).rest()) {
            Ok((q, rest)) => res matches Ok(t) && q == seq![opt_field_view(t.0), opt_field_view(t.1),
                opt_field_view(t.2), opt_field_view(t.3), opt_field_view(t.4)] && final(r).rest() == rest,
            Err(x) => res == Err::<(Option<Field>, Option<Field>, Option<Field>, Option<Field>, Option<Field>), StdfError>(x),
        },
{
    let a = read_opt(r, has && f & 0x01 == 0, FieldKind::I1)?;
    let b = read_opt(r, has && f & 0x02 == 0, FieldKind::I1)?;
    let c = read_opt(r, has && f & 0x04 == 0, FieldKind::I1)?;
    let d = read_opt(r, has && f & 0x08 == 0, FieldKind::R4)?;
    let g = read_opt(r, has && f & 0x10 == 0, FieldKind::R4)?;
    Ok((a, b, c, d, g))
}

#[verifier::spinoff_prover]
#[verifier::rlimit(50)]
fn parse_ptr(r: &mut Reader) -> (res: Result<Ptr, StdfError>)
    ensures
        match sp_ptr(old(r).byte_order(), old(r).rest()) {
            Ok((v, rest)) => res matches Ok(p) && p.fields() == v && final(r).rest() == rest,
            Err(x) => res == Err::<Ptr, StdfError>(x),
        },
{
    reveal(sp_field);
    let l = vec![FieldKind::U4, FieldKind::U1, FieldKind::U1, FieldKind::U1, FieldKind::U1,
        FieldKind::R4, FieldKind::Cn, FieldKind::Cn];
    assert(l@ =~= layout_ptr_head());
    let h = read_fields(r, l.as_slice())?;
    proof {
        lemma_fields_shape(old(r).byte_order(), layout_ptr_head(), old(r).rest());
    }
    let ghost hv = fields_view(h@);
    assert(hv[0] == h@[0]@ && hv[1] == h@[1]@ && hv[2] == h@[2]@ && hv[3] == h@[3]@);
    assert(hv[4] == h@[4]@ && hv[5] == h@[5]@ && hv[6] == h@[6]@ && hv[7] == h@[7]@);
    let parm_flg = get_u1(&h, 4);
    let o = read_opt(r, parm_flg & 0x10 != 0, FieldKind::U1)?;
    let opt_flg = opt_u1_of(&o);
    let has = opt_flg.is_some();
    let f: u8 = match opt_flg {
        Some(v) => v,
        None => 0,
    };
    let (a, b, c, d, g) = read_ptr_tail(r, has, f)?;
    let units = match read_field(r, FieldKind::TailCn)? {
        Field::Cn(s) => s,
        _ => String::new(),
    };
    let p = Ptr {
        test_num: get_u4(&h, 0),
        head_num: get_u1(&h, 1),
        site_num: get_u1(&h, 2),
        test_flg: get_u1(&h, 3),
        parm_flg,
        result: get_r4(&h, 5),
        test_txt: get_str(&h, 6),
        alarm_id: get_str(&h, 7),
        opt_flg,
        res_scal: opt_i1_of(&a),
        llm_scal: opt_i1_of(&b),
        hlm_scal: opt_i1_of(&c),
        lo_limit: opt_r4_of(&d),
        hi_limit: opt_r4_of(&g),
        units,
    };
    assert(p.head_fields() =~= hv);
    assert(p.fields() =~= sp_ptr(old(r).byte_order(), old(r).rest())->Ok_0.0);
    Ok(p)
}


#[verifier::spinoff_prover]
#[verifier::rlimit(50)]
fn parse_ftr(r: &mut Reader) -> (res: Result<Ftr, StdfError>)
    ensures
        match sp_ftr(old(r).byte_order(), old(r).rest()) {
            Ok((v, rest)) => res matches Ok(p) && p.fields() == v && final(r).rest() == rest,
            Err(x) => res == Err::<Ftr, StdfError>(x),
        },
{
    reveal(sp_field);
    let l = vec![FieldKind::U4, FieldKind::U1, FieldKind::U1, FieldKind::U1, FieldKind::U1,
        FieldKind::U4, FieldKind::U4, FieldKind::U4, FieldKind::U4, FieldKind::I2, FieldKind::I2,
        FieldKind::I2, FieldKind::U2, FieldKind::U2, FieldKind::U2, FieldKind::U2, FieldKind::Sn,
        FieldKind::Sn];
    assert(l@ =~= layout_ftr_head());
    let h = read_fields(r, l.as_slice())?;
    proof {
        lemma_fields_shape(old(r).byte_order(), layout_ftr_head(), old(r).rest());
    }
    let ghost hv = fields_view(h@);
    assert(forall|i: int| 0 <= i < 18 ==> hv[i] == (#[trigger] h@[i])@);
    let opt_flg = get_u1(&h, 4);
    let (alarm_id, opt_flg_2, program, test_label) = if opt_flg & 0x01 != 0 && !r.is_empty() {
        let alarm = r.cn()?;
        let f2: u8 = if !r.is_empty() {
            r.u1()?
        } else {
            0
        };
        let p = read_opt(r, f2 & 0x02 == 0, FieldKind::Nn)?;
        let t = read_opt(r, f2 & 0x04 == 0, FieldKind::Nn)?;
        (Some(alarm), Some(f2), opt_nn_of(p), opt_nn_of(t))
    } else {
        (None, None, None, None)
    };
    let p = Ftr {
        test_num: get_u4(&h, 0),
        head_num: get_u1(&h, 1),
        site_num: get_u1(&h, 2),
        test_flg: get_u1(&h, 3),
        opt_flg,
        cycl_cnt: get_u4(&h, 5),
        rel_vpos: get_u4(&h, 6),
        rept_cnt: get_u4(&h, 7),
        num_fail: get_u4(&h, 8),
        x_fail_adj: get_i2(&h, 9),
        y_fail_adj: get_i2(&h, 10),
        vect_offset: get_i2(&h, 11),
        rtn_icq: get_u2(&h, 12),
        rtn_ilim: get_u2(&h, 13),
        pgm_icq: get_u2(&h, 14),
        pgm_ilim: get_u2(&h, 15),
        rtn_nam: get_strs(&h, 16),
        pgm_nam: get_strs(&h, 17),
        alarm_id,
        opt_flg_2,
        program,
        test_label,
    };
    assert(p.head_fields() =~= hv);
    assert(p.fields() =~= sp_ftr(old(r).byte_order(), old(r).rest())->Ok_0.0);
    Ok(p)
}

/// Build a MIR from its decoded fields.
#[verifier::spinoff_prover]
#[verifier::rlimit(60)]
fn build_mir(f: &Vec<Field>) -> (r: Mir)
    requires
        layout_matches(layout_mir(), fields_view(f@)),
    ensures
        r.fields() == fields_view(f@),
{
    let ghost fv = fields_view(f@);
    assert(forall|i: int| 0 <= i < f@.len() ==> fv[i] == (#[trigger] f@[i])@);
    assert(forall|i: int| 0 <= i < 8 ==> kind_matches(#[trigger] layout_mir()[i], fv[i]));
        let r = Mir {
            setup_t: get_u4(f, 0),
            start_t: get_u4(f, 1),
            stat_bin: get_u1(f, 2),
            mode_cod: get_u1(f, 3),
            rtn_cod: get_u1(f, 4),
            prot_cod: get_u1(f, 5),
            burn_day: get_u2(f, 6),
            cmt_cnt: get_u1(f, 7),
            lot_id: get_str(f, 8),
            part_typ: get_str(f, 9),
            node_nam: get_str(f, 10),
            tstr_typ: get_str(f, 11),
            job_nam: get_str(f, 12),
            job_rev: get_str(f, 13),
            sblot_id: get_str(f, 14),
            oper_nam: get_str(f, 15),
            exec_typ: get_str(f, 16),
            exec_ver: get_str(f, 17),
            test_cod: get_str(f, 18),
            tst_temp: get_str(f, 19),
            user_txt: get_str(f, 20),
            aux_file: get_str(f, 21),
            pkg_typ: get_str(f, 22),
            family_id: get_str(f, 23),
            date_cod: get_str(f, 24),
            facil_id: get_str(f, 25),
            floor_id: get_str(f, 26),
            proc_id: get_str(f, 27),
            oper_frq: get_str(f, 28),
            spec_nam: get_str(f, 29),
            spec_ver: get_str(f, 30),
            flow_id: get_str(f, 31),
            setup_id: get_str(f, 32),
            dsgn_rev: get_str(f, 33),
            eng_id: get_str(f, 34),
            rom_cod: get_str(f, 35),
            serl_num: get_str(f, 36),
            supr_nam: get_str(f, 37),
        };
        assert forall|i: int| 8 <= i < 38 implies #[trigger] fv[i] == FieldVal::Cn(f@[i]->Cn_0@) by {
            assert(layout_mir()[i] == FieldKind::Cn);
            assert(kind_matches(layout_mir()[i], fv[i]));
        }
    let ghost rv = r.fields();
    assert forall|i: int| 0 <= i < 38 implies #[trigger] rv[i] == fv[i] by {
        assert(kind_matches(layout_mir()[i], fv[i]));
    }
    assert(rv =~= fv);
    r
}

/// Build a fixed-layout record from its decoded fields.
fn build_fixed(typ: u8, sub: u8, f: &Vec<Field>) -> (rec: Record)
    requires
        fixed_layout_of(typ, sub) is Some,
        layout_matches(fixed_layout_of(typ, sub)->Some_0, fields_view(f@)),
    ensures
        rec@ == (RecordModel { typ, sub, fields: fields_view(f@) }),
        rec.wire_fields() == rec.fields(),
        !(rec is Unknown) && !(rec is Tailed),
{
    let ghost fv = fields_view(f@);
    assert(forall|i: int| 0 <= i < f@.len() ==> fv[i] == (#[trigger] f@[i])@);
    if typ == 0 && sub == 10 {
        let r = Far { cpu_type: get_u1(f, 0), stdf_ver: get_u1(f, 1) };
        assert(r.fields() =~= fv);
        Record::Far(r)
    } else if typ == 0 && sub == 20 {
        let r = Atr { mod_timn: get_u4(f, 0), cmd_line: get_str(f, 1) };
        assert(r.fields() =~= fv);
        Record::Atr(r)
    } else if typ == 1 && sub == 10 {
        Record::Mir(build_mir(f))
    } else if typ == 1 && sub == 20 {
        let r = Mrr {
            finish_t: get_u4(f, 0),
            disp_cod: get_u1(f, 1),
            usr_cod: get_u1(f, 2),
            exc_cod: get_u1(f, 3),
            usr_desc: get_str(f, 4),
            exc_desc: get_str(f, 5),
        };
        assert(r.fields() =~= fv);
        Record::Mrr(r)
    } else if typ == 1 && sub == 30 {
        let r = Pcr {
            head_num: get_u1(f, 0),
            site_num: get_u1(f, 1),
            part_cnt: get_u4(f, 2),
            rtst_cnt: get_u4(f, 3),
            abrt_cnt: get_u4(f, 4),
            good_cnt: get_u4(f, 5),
            func_cnt: get_u4(f, 6),
        };
        assert(r.fields() =~= fv);
        Record::Pcr(r)
    } else if typ == 1 && sub == 40 {
        let r = Hbr {
            head_num: get_u1(f, 0),
            site_num: get_u1(f, 1),
            hbin_num: get_u2(f, 2),
            hbin_cnt: get_u4(f, 3),
            hbin_pf: get_u1(f, 4),
            hbin_nam: get_str(f, 5),
        };
        assert(r.fields() =~= fv);
        Record::Hbr(r)
    } else if typ == 1 && sub == 50 {
        let r = Sbr {
            head_num: get_u1(f, 0),
            site_num: get_u1(f, 1),
            sbin_num: get_u2(f, 2),
            sbin_cnt: get_u4(f, 3),
            sbin_pf: get_u1(f, 4),
            sbin_nam: get_str(f, 5),
        };
        assert(r.fields() =~= fv);
        Record::Sbr(r)
    } else if typ == 2 && sub == 10 {
        let r = Wir {
            head_num: get_u1(f, 0),
            site_grp: get_u1(f, 1),
            start_t: get_u4(f, 2),
            wafer_id: get_str(f, 3),
        };
        assert(r.fields() =~= fv);
        Record::Wir(r)
    } else if typ == 2 && sub == 20 {
        let r = Wrr {
            head_num: get_u1(f, 0),
            site_grp: get_u1(f, 1),
            finish_t: get_u4(f, 2),
            part_cnt: get_u4(f, 3),
            rtst_cnt: get_u4(f, 4),
            abrt_cnt: get_u4(f, 5),
            good_cnt: get_u4(f, 6),
            func_cnt: get_u4(f, 7),
            wafer_id: get_str(f, 8),
            fabwf_id: get_str(f, 9),
            frame_id: get_str(f, 10),
            mask_id: get_str(f, 11),
            usr_desc: get_str(f, 12),
            exc_desc: get_str(f, 13),
        };
        assert(r.fields() =~= fv);
        Record::Wrr(r)
    } else if typ == 2 && sub == 30 {
        let r = Wcr {
            wafr_siz: get_r4(f, 0),
            die_ht: get_r4(f, 1),
            die_wid: get_r4(f, 2),
            wf_units: get_u1(f, 3),
            wf_flat: get_u1(f, 4),
            center_x: get_i2(f, 5),
            center_y: get_i2(f, 6),
            pos_x: get_u1(f, 7),
            pos_y: get_u1(f, 8),
        };
        assert(r.fields() =~= fv);
        Record::Wcr(r)
    } else if typ == 5 && sub == 30 {
        let r = Tsr {
            head_num: get_u1(f, 0),
            site_num: get_u1(f, 1),
            test_typ: get_u1(f, 2),
            test_num: get_u4(f, 3),
            exec_cnt: get_u4(f, 4),
            fail_cnt: get_u4(f, 5),
            alarm_cnt: get_u4(f, 6),
            test_nam: get_str(f, 7),
            seq_name: get_str(f, 8),
            test_lbl: get_str(f, 9),
        };
        assert(r.fields() =~= fv);
        Record::Tsr(r)
    } else if typ == 20 && sub == 10 {
        let r = Gdr { gen_data: get_bytes(f, 0) };
        assert(kind_matches(layout_gdr()[0], fv[0]));
        assert(r.fields() =~= fv);
        Record::Gdr(r)
    } else {
        let r = Dtr { text_dat: get_str(f, 0) };
        assert(kind_matches(layout_dtr()[0], fv[0]));
        assert(r.fields() =~= fv);
        Record::Dtr(r)
    }
}

impl Record {
    /// The (REC_TYP, REC_SUB) pair for this record.
    pub fn type_subtype(&self) -> (c: (u8, u8))
        ensures
            c == self.code(),
        decreases self,
    {
        match self {
            Record::Far(_) => (0, 10),
            Record::Atr(_) => (0, 20),
            Record::Mir(_) => (1, 10),
            Record::Mrr(_) => (1, 20),
            Record::Pcr(_) => (1, 30),
            Record::Hbr(_) => (1, 40),
            Record::Sbr(_) => (1, 50),
            Record::Pmr(_) => (5, 10),
            Record::Wir(_) => (2, 10),
            Record::Wrr(_) => (2, 20),
            Record::Wcr(_) => (2, 30),
            Record::Ptr(_) => (15, 10),
            Record::Ftr(_) => (15, 20),
            Record::Tsr(_) => (5, 30),
            Record::Gdr(_) => (20, 10),
            Record::Dtr(_) => (20, 30),
            Record::Bps(_) => (20, 15),
            Record::Eps(_) => (20, 20),
            Record::Unknown { typ, sub, .. } => (*typ, *sub),
            Record::Tailed { record, .. } => record.type_subtype(),
        }
    }

    /// Parse one record body given its (typ, sub). `endian` applies to the
    /// fixed-width numeric fields. Unknown types round-trip as
    /// [`Record::Unknown`]; known types with unparsed trailing bytes keep
    /// those bytes as the record's tail ([`Record::Tailed`]).
    pub fn parse(typ: u8, sub: u8, data: &[u8], endian: Endian) -> (res: Result<Record, StdfError>)
        ensures
            match spec_parse(typ, sub, data@, endian) {
                Ok(m) => res matches Ok(rec) && rec@ == m,
                Err(x) => res == Err::<Record, StdfError>(x),
            },
            !(typ == 5 && sub == 10) && !(typ == 15 && (sub == 10 || sub == 20))
                ==> (res matches Ok(rec) ==> rec.wire_fields() == rec.fields()),
            res matches Ok(rec) ==> rec.well_shaped() && (rec is Unknown <==> !is_modelled(typ, sub)),
    {
        let mut r = Reader::new(data, endian);
        let rec = match fixed_layout(typ, sub) {
            Some(layout) => {
                let f = read_fields(&mut r, layout.as_slice())?;
                proof {
                    lemma_fields_shape(endian, fixed_layout_of(typ, sub)->Some_0, data@);
                }
                build_fixed(typ, sub, &f)
            },
            None => {
                if typ == 5 && sub == 10 {
                    let p = parse_pmr(&mut r)?;
                    Record::Pmr(p)
                } else if typ == 15 && sub == 10 {
                    let p = parse_ptr(&mut r)?;
                    Record::Ptr(p)
                } else if typ == 15 && sub == 20 {
                    let p = parse_ftr(&mut r)?;
                    Record::Ftr(p)
                } else if typ == 20 && sub == 15 {
                    Record::Bps(Bps)
                } else if typ == 20 && sub == 20 {
                    Record::Eps(Eps)
                } else {
                    return Ok(Record::Unknown { typ, sub, data: vstd::slice::slice_to_vec(data) });
                }
            },
        };
        let ghost pb = parse_body(typ, sub, data@, endian);
        assert(pb is Ok);
        assert(rec@ == (RecordModel { typ, sub, fields: pb->Ok_0.0 }));
        assert(r.rest() == pb->Ok_0.1);
        let ghost plain = !(typ == 5 && sub == 10) && !(typ == 15 && (sub == 10 || sub == 20));
        assert(plain ==> rec.wire_fields() == rec.fields());
        let n = r.remaining();
        if n == 0 {
            return Ok(rec);
        }
        let rest = r.take(n)?;
        let tail = vstd::slice::slice_to_vec(rest);
        assert(tail@ =~= parse_body(typ, sub, data@, endian)->Ok_0.1);
        let out = Record::Tailed { record: Box::new(rec), tail };
        assert(out.wire_fields() == rec.wire_fields().push(FieldVal::Raw(tail@)));
        assert(out.fields() == rec.fields().push(FieldVal::Raw(tail@)));
        Ok(out)
    }
}


impl Far {
    fn wire_values(&self) -> (v: Vec<Field>)
        ensures
            fields_view(v@) == self.fields(),
    {
        let mut v: Vec<Field> = Vec::new();
        v.push(Field::U1(self.cpu_type));
        v.push(Field::U1(self.stdf_ver));
        assert(fields_view(v@) =~= self.fields());
        v
    }
}

impl Atr {
    fn wire_values(&self) -> (v: Vec<Field>)
        ensures
            fields_view(v@) == self.fields(),
    {
        let mut v: Vec<Field> = Vec::new();
        v.push(Field::U4(self.mod_timn));
        v.push(Field::Cn(self.cmd_line.clone()));
        assert(fields_view(v@) =~= self.fields());
        v
    }
}

impl Mir {
    fn wire_values(&self) -> (v: Vec<Field>)
        ensures
            fields_view(v@) == self.fields(),
    {
        let mut v: Vec<Field> = Vec::new();
        v.push(Field::U4(self.setup_t));
        v.push(Field::U4(self.start_t));
        v.push(Field::U1(self.stat_bin));
        v.push(Field::U1(self.mode_cod));
        v.push(Field::U1(self.rtn_cod));
        v.push(Field::U1(self.prot_cod));
        v.push(Field::U2(self.burn_day));
        v.push(Field::U1(self.cmt_cnt));
        v.push(Field::Cn(self.lot_id.clone()));
        v.push(Field::Cn(self.part_typ.clone()));
        v.push(Field::Cn(self.node_nam.clone()));
        v.push(Field::Cn(self.tstr_typ.clone()));
        v.push(Field::Cn(self.job_nam.clone()));
        v.push(Field::Cn(self.job_rev.clone()));
        v.push(Field::Cn(self.sblot_id.clone()));
        v.push(Field::Cn(self.oper_nam.clone()));
        v.push(Field::Cn(self.exec_typ.clone()));
        v.push(Field::Cn(self.exec_ver.clone()));
        v.push(Field::Cn(self.test_cod.clone()));
        v.push(Field::Cn(self.tst_temp.clone()));
        v.push(Field::Cn(self.user_txt.clone()));
        v.push(Field::Cn(self.aux_file.clone()));
        v.push(Field::Cn(self.pkg_typ.clone()));
        v.push(Field::Cn(self.family_id.clone()));
        v.push(Field::Cn(self.date_cod.clone()));
        v.push(Field::Cn(self.facil_id.clone()));
        v.push(Field::Cn(self.floor_id.clone()));
        v.push(Field::Cn(self.proc_id.clone()));
        v.push(Field::Cn(self.oper_frq.clone()));
        v.push(Field::Cn(self.spec_nam.clone()));
        v.push(Field::Cn(self.spec_ver.clone()));
        v.push(Field::Cn(self.flow_id.clone()));
        v.push(Field::Cn(self.setup_id.clone()));
        v.push(Field::Cn(self.dsgn_rev.clone()));
        v.push(Field::Cn(self.eng_id.clone()));
        v.push(Field::Cn(self.rom_cod.clone()));
        v.push(Field::Cn(self.serl_num.clone()));
        v.push(Field::Cn(self.supr_nam.clone()));
        assert(fields_view(v@) =~= self.fields());
        v
    }
}

impl Mrr {
    fn wire_values(&self) -> (v: Vec<Field>)
        ensures
            fields_view(v@) == self.fields(),
    {
        let mut v: Vec<Field> = Vec::new();
        v.push(Field::U4(self.finish_t));
        v.push(Field::U1(self.disp_cod));
        v.push(Field::U1(self.usr_cod));
        v.push(Field::U1(self.exc_cod));
        v.push(Field::Cn(self.usr_desc.clone()));
        v.push(Field::Cn(self.exc_desc.clone()));
        assert(fields_view(v@) =~= self.fields());
        v
    }
}

impl Pcr {
    fn wire_values(&self) -> (v: Vec<Field>)
        ensures
            fields_view(v@) == self.fields(),
    {
        let mut v: Vec<Field> = Vec::new();
        v.push(Field::U1(self.head_num));
        v.push(Field::U1(self.site_num));
        v.push(Field::U4(self.part_cnt));
        v.push(Field::U4(self.rtst_cnt));
        v.push(Field::U4(self.abrt_cnt));
        v.push(Field::U4(self.good_cnt));
        v.push(Field::U4(self.func_cnt));
        assert(fields_view(v@) =~= self.fields());
        v
    }
}

impl Hbr {
    fn wire_values(&self) -> (v: Vec<Field>)
        ensures
            fields_view(v@) == self.fields(),
    {
        let mut v: Vec<Field> = Vec::new();
        v.push(Field::U1(self.head_num));
        v.push(Field::U1(self.site_num));
        v.push(Field::U2(self.hbin_num));
        v.push(Field::U4(self.hbin_cnt));
        v.push(Field::U1(self.hbin_pf));
        v.push(Field::Cn(self.hbin_nam.clone()));
        assert(fields_view(v@) =~= self.fields());
        v
    }
}

impl Sbr {
    fn wire_values(&self) -> (v: Vec<Field>)
        ensures
            fields_view(v@) == self.fields(),
    {
        let mut v: Vec<Field> = Vec::new();
        v.push(Field::U1(self.head_num));
        v.push(Field::U1(self.site_num));
        v.push(Field::U2(self.sbin_num));
        v.push(Field::U4(self.sbin_cnt));
        v.push(Field::U1(self.sbin_pf));
        v.push(Field::Cn(self.sbin_nam.clone()));
        assert(fields_view(v@) =~= self.fields());
        v
    }
}

impl Wir {
    fn wire_values(&self) -> (v: Vec<Field>)
        ensures
            fields_view(v@) == self.fields(),
    {
        let mut v: Vec<Field> = Vec::new();
        v.push(Field::U1(self.head_num));
        v.push(Field::U1(self.site_grp));
        v.push(Field::U4(self.start_t));
        v.push(Field::Cn(self.wafer_id.clone()));
        assert(fields_view(v@) =~= self.fields());
        v
    }
}

impl Wrr {
    fn wire_values(&self) -> (v: Vec<Field>)
        ensures
            fields_view(v@) == self.fields(),
    {
        let mut v: Vec<Field> = Vec::new();
        v.push(Field::U1(self.head_num));
        v.push(Field::U1(self.site_grp));
        v.push(Field::U4(self.finish_t));
        v.push(Field::U4(self.part_cnt));
        v.push(Field::U4(self.rtst_cnt));
        v.push(Field::U4(self.abrt_cnt));
        v.push(Field::U4(self.good_cnt));
        v.push(Field::U4(self.func_cnt));
        v.push(Field::Cn(self.wafer_id.clone()));
        v.push(Field::Cn(self.fabwf_id.clone()));
        v.push(Field::Cn(self.frame_id.clone()));
        v.push(Field::Cn(self.mask_id.clone()));
        v.push(Field::Cn(self.usr_desc.clone()));
        v.push(Field::Cn(self.exc_desc.clone()));
        assert(fields_view(v@) =~= self.fields());
        v
    }
}

impl Wcr {
    fn wire_values(&self) -> (v: Vec<Field>)
        ensures
            fields_view(v@) == self.fields(),
    {
        let mut v: Vec<Field> = Vec::new();
        v.push(Field::R4(self.wafr_siz));
        v.push(Field::R4(self.die_ht));
        v.push(Field::R4(self.die_wid));
        v.push(Field::U1(self.wf_units));
        v.push(Field::U1(self.wf_flat));
        v.push(Field::I2(self.center_x));
        v.push(Field::I2(self.center_y));
        v.push(Field::U1(self.pos_x));
        v.push(Field::U1(self.pos_y));
        assert(fields_view(v@) =~= self.fields());
        v
    }
}

impl Tsr {
    fn wire_values(&self) -> (v: Vec<Field>)
        ensures
            fields_view(v@) == self.fields(),
    {
        let mut v: Vec<Field> = Vec::new();
        v.push(Field::U1(self.head_num));
        v.push(Field::U1(self.site_num));
        v.push(Field::U1(self.test_typ));
        v.push(Field::U4(self.test_num));
        v.push(Field::U4(self.exec_cnt));
        v.push(Field::U4(self.fail_cnt));
        v.push(Field::U4(self.alarm_cnt));
        v.push(Field::Cn(self.test_nam.clone()));
        v.push(Field::Cn(self.seq_name.clone()));
        v.push(Field::Cn(self.test_lbl.clone()));
        assert(fields_view(v@) =~= self.fields());
        v
    }
}

impl Dtr {
    fn wire_values(&self) -> (v: Vec<Field>)
        ensures
            fields_view(v@) == self.fields(),
    {
        let mut v: Vec<Field> = Vec::new();
        v.push(Field::Cn(self.text_dat.clone()));
        assert(fields_view(v@) =~= self.fields());
        v
    }
}

impl Gdr {
    fn wire_values(&self) -> (v: Vec<Field>)
        ensures
            fields_view(v@) == self.fields(),
    {
        let mut v: Vec<Field> = Vec::new();
        v.push(Field::Kn(vstd::slice::slice_to_vec(self.gen_data.as_slice())));
        assert(fields_view(v@) =~= self.fields());
        v
    }
}

impl Pmr {
    fn wire_values(&self) -> (v: Vec<Field>)
        ensures
            fields_view(v@) == self.wire_fields(),
    {
        let mut v: Vec<Field> = Vec::new();
        v.push(Field::U2(self.pin_idx));
        v.push(Field::U2(self.chan_typ));
        v.push(Field::Cn(self.chan_nam.clone()));
        v.push(Field::Cn(self.phy_nam.clone()));
        v.push(Field::Cn(self.log_nam.clone()));
        if let (Some(head), Some(site)) = (self.head_num, self.site_num) {
            v.push(Field::U1(head));
            v.push(Field::U1(site));
        }
        assert(fields_view(v@) =~= self.wire_fields());
        v
    }
}

impl Ptr {
    fn wire_values(&self) -> (v: Vec<Field>)
        ensures
            fields_view(v@) == self.wire_fields(),
    {
        let mut v: Vec<Field> = Vec::new();
        v.push(Field::U4(self.test_num));
        v.push(Field::U1(self.head_num));
        v.push(Field::U1(self.site_num));
        v.push(Field::U1(self.test_flg));
        v.push(Field::U1(self.parm_flg));
        v.push(Field::R4(self.result));
        v.push(Field::Cn(self.test_txt.clone()));
        v.push(Field::Cn(self.alarm_id.clone()));
        let ghost head = fields_view(v@);
        assert(head =~= self.head_fields());
        if let Some(flags) = self.opt_flg {
            v.push(Field::U1(flags));
            if flags & 0x01 == 0 && self.res_scal.is_some() {
                v.push(Field::I1(self.res_scal.unwrap_or(0)));
            }
            if flags & 0x02 == 0 && self.llm_scal.is_some() {
                v.push(Field::I1(self.llm_scal.unwrap_or(0)));
            }
            if flags & 0x04 == 0 && self.hlm_scal.is_some() {
                v.push(Field::I1(self.hlm_scal.unwrap_or(0)));
            }
            if flags & 0x08 == 0 && self.lo_limit.is_some() {
                v.push(Field::R4(self.lo_limit.unwrap_or(0)));
            }
            if flags & 0x10 == 0 && self.hi_limit.is_some() {
                v.push(Field::R4(self.hi_limit.unwrap_or(0)));
            }
        }
        assert(fields_view(v@) =~= head + self.opt_wire());
        v.push(Field::Cn(self.units.clone()));
        assert(fields_view(v@) =~= self.wire_fields());
        v
    }
}

impl Ftr {
    fn wire_values(&self) -> (v: Vec<Field>)
        ensures
            fields_view(v@) == self.wire_fields(),
    {
        let mut v: Vec<Field> = Vec::new();
        v.push(Field::U4(self.test_num));
        v.push(Field::U1(self.head_num));
        v.push(Field::U1(self.site_num));
        v.push(Field::U1(self.test_flg));
        v.push(Field::U1(self.opt_flg));
        v.push(Field::U4(self.cycl_cnt));
        v.push(Field::U4(self.rel_vpos));
        v.push(Field::U4(self.rept_cnt));
        v.push(Field::U4(self.num_fail));
        v.push(Field::I2(self.x_fail_adj));
        v.push(Field::I2(self.y_fail_adj));
        v.push(Field::I2(self.vect_offset));
        v.push(Field::U2(self.rtn_icq));
        v.push(Field::U2(self.rtn_ilim));
        v.push(Field::U2(self.pgm_icq));
        v.push(Field::U2(self.pgm_ilim));
        v.push(Field::Sn(crate::stdf::fields::copy_strings(&self.rtn_nam)));
        v.push(Field::Sn(crate::stdf::fields::copy_strings(&self.pgm_nam)));
        let ghost head = fields_view(v@);
        assert(head =~= self.head_fields());
        if let Some(alarm) = &self.alarm_id {
            let f2: u8 = match self.opt_flg_2 {
                Some(f) => f,
                None => 0,
            };
            v.push(Field::Cn(alarm.clone()));
            v.push(Field::U1(f2));
            if f2 & 0x02 == 0 {
                if let Some(program) = &self.program {
                    v.push(Field::Nn(program.clone()));
                }
            }
            if f2 & 0x04 == 0 {
                if let Some(label) = &self.test_label {
                    v.push(Field::Nn(label.clone()));
                }
            }
        }
        assert(fields_view(v@) =~= self.wire_fields());
        v
    }
}

impl Record {
    fn wire_values(&self) -> (v: Vec<Field>)
        requires
            !(self is Unknown),
            !(self is Tailed),
        ensures
            fields_view(v@) == self.wire_fields(),
    {
        match self {
            Record::Far(r) => r.wire_values(),
            Record::Atr(r) => r.wire_values(),
            Record::Mir(r) => r.wire_values(),
            Record::Mrr(r) => r.wire_values(),
            Record::Pcr(r) => r.wire_values(),
            Record::Hbr(r) => r.wire_values(),
            Record::Sbr(r) => r.wire_values(),
            Record::Pmr(r) => r.wire_values(),
            Record::Wir(r) => r.wire_values(),
            Record::Wrr(r) => r.wire_values(),
            Record::Wcr(r) => r.wire_values(),
            Record::Ptr(r) => r.wire_values(),
            Record::Ftr(r) => r.wire_values(),
            Record::Tsr(r) => r.wire_values(),
            Record::Gdr(r) => r.wire_values(),
            Record::Dtr(r) => r.wire_values(),
            _ => {
                let v: Vec<Field> = Vec::new();
                assert(fields_view(v@) =~= self.wire_fields());
                v
            },
        }
    }

    /// Append the record body (its fields, then its tail if any).
    fn write_body(&self, body: &mut Vec<u8>)
        requires
            self.encodable(),
        ensures
            final(body)@ == old(body)@ + self.body_bytes(),
        decreases self,
    {
        match self {
            Record::Unknown { data, .. } => {
                push_bytes(body, data.as_slice());
                proof {
                    crate::stdf::fields::lemma_fields_bytes_single(FieldVal::Raw(data@));
                }
                assert(body@ =~= old(body)@ + self.body_bytes());
            },
            Record::Tailed { record, tail } => {
                proof {
                    lemma_tail_fields(record.wire_fields(), tail@);
                }
                record.write_body(body);
                push_bytes(body, tail.as_slice());
                assert(body@ =~= old(body)@ + self.body_bytes());
            },
            _ => {
                let fs = self.wire_values();
                write_fields(body, &fs);
            },
        }
    }

    /// Encode: REC_LEN + REC_TYP + REC_SUB + body.
    pub fn encode(&self, out: &mut Vec<u8>)
        requires
            self.encodable(),
        ensures
            final(out)@ == old(out)@ + self.wire_bytes(),
    {
        let (typ, sub) = self.type_subtype();
        let mut body: Vec<u8> = Vec::new();
        self.write_body(&mut body);
        assert(body@ =~= self.body_bytes());
        crate::stdf::codec::write::u2(out, #[verifier::truncate] (body.len() as u16));
        crate::stdf::codec::write::u1(out, typ);
        crate::stdf::codec::write::u1(out, sub);
        push_bytes(out, body.as_slice());
        assert(out@ =~= old(out)@ + self.wire_bytes());
    }

    /// Encode to a fresh `Vec<u8>`.
    pub fn to_bytes(&self) -> (out: Vec<u8>)
        requires
            self.encodable(),
        ensures
            out@ == self.wire_bytes(),
    {
        let mut out: Vec<u8> = Vec::new();
        self.encode(&mut out);
        assert(out@ =~= self.wire_bytes());
        out
    }
}


impl Record {
    /// Whether every string and array of the record fits its field's
    /// length prefix (the condition for encoding it).
    pub fn is_encodable(&self) -> (b: bool)
        ensures
            b == self.encodable(),
        decreases self,
    {
        match self {
            Record::Unknown { .. } => true,
            Record::Tailed { record, tail } => {
                proof {
                    lemma_tail_fields(record.wire_fields(), tail@);
                }
                record.is_encodable()
            },
            _ => {
                let fs = self.wire_values();
                let mut i: usize = 0;
                while i < fs.len()
                    invariant
                        fields_view(fs@) == self.wire_fields(),
                        i <= fs@.len(),
                        forall|j: int| 0 <= j < i ==> field_fits(#[trigger] fields_view(fs@)[j]),
                    decreases fs@.len() - i,
                {
                    if !fs[i].fits() {
                        assert(!field_fits(fields_view(fs@)[i as int]));
                        return false;
                    }
                    i = i + 1;
                }
                true
            },
        }
    }
}


/// A tail adds its bytes after the fields' bytes and never spoils a fit.
proof fn lemma_tail_fields(fs: Seq<FieldVal>, tail: Seq<u8>)
    ensures
        fields_bytes(fs.push(FieldVal::Raw(tail))) == fields_bytes(fs) + tail,
        fields_fit(fs.push(FieldVal::Raw(tail))) == fields_fit(fs),
        fields_exact(fs.push(FieldVal::Raw(tail))) == fields_exact(fs),
{
    let t = seq![FieldVal::Raw(tail)];
    assert(fs.push(FieldVal::Raw(tail)) =~= fs + t);
    lemma_fields_bytes_concat(fs, t);
    lemma_fields_bytes_single(FieldVal::Raw(tail));
    let g = fs.push(FieldVal::Raw(tail));
    assert(forall|i: int| 0 <= i < fs.len() ==> g[i] == fs[i]);
    assert(fields_fit(g) ==> fields_fit(fs));
    assert(fields_exact(g) ==> fields_exact(fs));
}

impl Record {
    /// The shape a parsed record has: an `Unknown` record only for a type
    /// this crate does not model, and a tail only around one modelled
    /// record without a tail of its own, and only when nonempty.
    pub open spec fn well_shaped(&self) -> bool {
        match self {
            Record::Unknown { typ, sub, .. } => !is_modelled(*typ, *sub),
            Record::Tailed { record, tail } => tail@.len() > 0 && match **record {
                Record::Tailed { .. } => false,
                Record::Unknown { .. } => false,
                _ => true,
            },
            _ => true,
        }
    }

    /// The FAR this record carries, with or without a tail.
    pub open spec fn far_fields(&self) -> Option<Far> {
        match self {
            Record::Far(f) => Some(*f),
            Record::Tailed { record, .. } => match **record {
                Record::Far(f) => Some(f),
                _ => None,
            },
            _ => None,
        }
    }

    /// The record is a FAR, with or without a tail.
    pub open spec fn declares_far(&self) -> bool {
        self.far_fields() is Some
    }

    /// Whether the record is a FAR, with or without a tail.
    pub fn is_far(&self) -> (b: bool)
        ensures
            b == self.declares_far(),
    {
        match self {
            Record::Far(_) => true,
            Record::Tailed { record, .. } => match &**record {
                Record::Far(_) => true,
                _ => false,
            },
            _ => false,
        }
    }
}

// ----- constructors -------------------------------------------------------------

/// The `R*4` bit pattern of 1.0.
pub const R4_ONE: u32 = 0x3F80_0000;

impl Ptr {
    /// Build a parametric PTR with the usual optional fields present:
    /// scaling exponents zero and both limits set. `result`, `lo` and `hi`
    /// are `R*4` bit patterns.
    pub fn measured(test_num: u32, head_num: u8, site_num: u8, result: u32, name: &str, units: &str, lo: u32, hi: u32) -> (p: Ptr)
        ensures
            p.test_num == test_num,
            p.head_num == head_num,
            p.site_num == site_num,
            p.test_flg == 0,
            p.parm_flg == parm_flg::OPT_FLAG_PRESENT,
            p.result == result,
            p.test_txt@ == name@,
            p.alarm_id@ == Seq::<char>::empty(),
            p.opt_flg == Some(0u8),
            p.res_scal == Some(0i8),
            p.llm_scal == Some(0i8),
            p.hlm_scal == Some(0i8),
            p.lo_limit == Some(lo),
            p.hi_limit == Some(hi),
            p.units@ == units@,
    {
        Ptr {
            test_num,
            head_num,
            site_num,
            test_flg: 0,
            parm_flg: parm_flg::OPT_FLAG_PRESENT,
            result,
            test_txt: name.to_string(),
            alarm_id: String::new(),
            opt_flg: Some(0),
            res_scal: Some(0),
            llm_scal: Some(0),
            hlm_scal: Some(0),
            lo_limit: Some(lo),
            hi_limit: Some(hi),
            units: units.to_string(),
        }
    }

    /// Build a pass/fail-verdict PTR (`RESULT` is the verdict, 1.0 or 0.0,
    /// not a value; limits 0.0 and 1.0).
    pub fn verdict(test_num: u32, head_num: u8, site_num: u8, passed: bool) -> (p: Ptr)
        ensures
            p.test_num == test_num,
            p.head_num == head_num,
            p.site_num == site_num,
            p.test_flg == (if passed { test_flg::PASS_FAIL_FIELD } else { test_flg::PASS_FAIL_FIELD | test_flg::TEST_FAILED }),
            p.parm_flg == parm_flg::OPT_FLAG_PRESENT,
            p.result == (if passed { R4_ONE } else { 0u32 }),
            p.test_txt@ == Seq::<char>::empty(),
            p.alarm_id@ == Seq::<char>::empty(),
            p.opt_flg == Some(0u8),
            p.res_scal == Some(0i8),
            p.llm_scal == Some(0i8),
            p.hlm_scal == Some(0i8),
            p.lo_limit == Some(0u32),
            p.hi_limit == Some(R4_ONE),
            p.units@ == Seq::<char>::empty(),
    {
        let base = Ptr::measured(test_num, head_num, site_num, if passed { R4_ONE } else { 0 }, "", "", 0, R4_ONE);
        proof {
            reveal_strlit("");
        }
        Ptr { test_flg: if passed { test_flg::PASS_FAIL_FIELD } else { test_flg::PASS_FAIL_FIELD | test_flg::TEST_FAILED }, ..base }
    }

    /// Did this test fail? (Bit meaningful only when `PASS_FAIL_FIELD` set.)
    pub fn failed(&self) -> (b: bool)
        ensures
            b == (self.test_flg & test_flg::TEST_FAILED != 0),
    {
        self.test_flg & test_flg::TEST_FAILED != 0
    }
}

impl Ftr {
    /// Build a minimal functional result for a pattern group.
    pub fn pattern(test_num: u32, head_num: u8, site_num: u8, passed: bool, pattern_name: &str) -> (f: Ftr)
        ensures
            f.test_num == test_num,
            f.head_num == head_num,
            f.site_num == site_num,
            f.test_flg == (if passed { test_flg::PASS_FAIL_FIELD } else { test_flg::PASS_FAIL_FIELD | test_flg::TEST_FAILED }),
            f.opt_flg == 0,
            f.cycl_cnt == 0 && f.rel_vpos == 0 && f.rept_cnt == 0,
            f.num_fail == (if passed { 0u32 } else { 1u32 }),
            f.x_fail_adj == 0 && f.y_fail_adj == 0 && f.vect_offset == 0,
            f.rtn_icq == 0 && f.rtn_ilim == 0 && f.pgm_icq == 0 && f.pgm_ilim == 0,
            f.rtn_nam@.len() == 0,
            f.pgm_nam@.len() == 1,
            f.pgm_nam@[0]@ == pattern_name@,
            f.alarm_id is None && f.opt_flg_2 is None && f.program is None && f.test_label is None,
    {
        Ftr {
            test_num,
            head_num,
            site_num,
            test_flg: if passed { test_flg::PASS_FAIL_FIELD } else { test_flg::PASS_FAIL_FIELD | test_flg::TEST_FAILED },
            opt_flg: 0,
            cycl_cnt: 0,
            rel_vpos: 0,
            rept_cnt: 0,
            num_fail: if passed { 0 } else { 1 },
            x_fail_adj: 0,
            y_fail_adj: 0,
            vect_offset: 0,
            rtn_icq: 0,
            rtn_ilim: 0,
            pgm_icq: 0,
            pgm_ilim: 0,
            rtn_nam: Vec::new(),
            pgm_nam: vec![pattern_name.to_string()],
            alarm_id: None,
            opt_flg_2: None,
            program: None,
            test_label: None,
        }
    }

    /// Did this pattern group fail?
    pub fn failed(&self) -> (b: bool)
        ensures
            b == (self.test_flg & test_flg::TEST_FAILED != 0),
    {
        self.test_flg & test_flg::TEST_FAILED != 0
    }
}


// ----- round trip ---------------------------------------------------------------

/// Reading an optional field that was written exactly when `cond` holds.
proof fn lemma_opt_step(cond: bool, k: FieldKind, v: FieldVal, rest: Seq<u8>)
    requires
        cond ==> kind_matches(k, v) && field_exact(v) && field_bytes(v).len() > 0,
        !cond ==> v == FieldVal::Absent,
    ensures
        sp_opt(Endian::Little, cond, k, fields_bytes(present(cond, v)) + rest)
            == Ok::<(FieldVal, Seq<u8>), StdfError>((v, rest)),
{
    if cond {
        lemma_fields_bytes_single(v);
        lemma_field_roundtrip(k, v, rest);
    } else {
        assert(fields_bytes(present(cond, v)) + rest =~= rest);
    }
}

proof fn lemma_seq_assoc(a: Seq<u8>, b: Seq<u8>, c: Seq<u8>)
    ensures
        (a + b) + c == a + (b + c),
{
    assert((a + b) + c =~= a + (b + c));
}

proof fn lemma_drop_first_concat(x: FieldVal, rest: Seq<FieldVal>)
    ensures
        (seq![x] + rest).drop_first() == rest,
{
    assert((seq![x] + rest).drop_first() =~= rest);
}

proof fn lemma_opt_i1_step(cond: bool, o: Option<i8>, rest: Seq<u8>)
    requires
        (o is Some) == cond,
    ensures
        sp_opt(Endian::Little, cond, FieldKind::I1, fields_bytes(present(cond && o is Some, opt_i1(o))) + rest)
            == Ok::<(FieldVal, Seq<u8>), StdfError>((opt_i1(o), rest)),
{
    assert((cond && o is Some) == cond);
    lemma_opt_step(cond, FieldKind::I1, opt_i1(o), rest);
}

proof fn lemma_opt_r4_step(cond: bool, o: Option<u32>, rest: Seq<u8>)
    requires
        (o is Some) == cond,
    ensures
        sp_opt(Endian::Little, cond, FieldKind::R4, fields_bytes(present(cond && o is Some, opt_r4(o))) + rest)
            == Ok::<(FieldVal, Seq<u8>), StdfError>((opt_r4(o), rest)),
{
    assert((cond && o is Some) == cond);
    lemma_opt_step(cond, FieldKind::R4, opt_r4(o), rest);
}


proof fn lemma_exact_split(a: Seq<FieldVal>, b: Seq<FieldVal>)
    requires
        fields_exact(a + b),
    ensures
        fields_exact(a),
        fields_exact(b),
{
    assert forall|i: int| 0 <= i < a.len() implies field_exact(#[trigger] a[i]) by {
        assert((a + b)[i] == a[i]);
    }
    assert forall|i: int| 0 <= i < b.len() implies field_exact(#[trigger] b[i]) by {
        assert((a + b)[a.len() + i] == b[i]);
    }
}

proof fn lemma_pmr_roundtrip(p: Pmr, t: Seq<u8>)
    requires
        fields_exact(p.wire_fields()),
        (p.head_num is Some) == (p.site_num is Some),
        t.len() > 0 ==> p.head_num is Some,
    ensures
        sp_pmr(Endian::Little, fields_bytes(p.wire_fields()) + t) == Ok::<(Seq<FieldVal>, Seq<u8>), StdfError>((p.fields(), t)),
{
    let both = p.head_num is Some && p.site_num is Some;
    let pair = present(both, opt_u1(p.head_num)) + present(both, opt_u1(p.site_num));
    assert(p.wire_fields() =~= p.head_fields() + pair);
    lemma_exact_split(p.head_fields(), pair);
    lemma_fields_bytes_concat(p.head_fields(), pair);
    lemma_seq_assoc(fields_bytes(p.head_fields()), fields_bytes(pair), t);
    lemma_fields_roundtrip(layout_pmr(), p.head_fields(), fields_bytes(pair) + t);
    if both {
        lemma_fields_bytes_concat(present(both, opt_u1(p.head_num)), present(both, opt_u1(p.site_num)));
        lemma_fields_bytes_single(opt_u1(p.head_num));
        lemma_fields_bytes_single(opt_u1(p.site_num));
        let tail = field_bytes(opt_u1(p.site_num));
        lemma_field_roundtrip(FieldKind::U1, opt_u1(p.head_num), tail + t);
        lemma_field_roundtrip(FieldKind::U1, opt_u1(p.site_num), t);
        assert(fields_bytes(pair) =~= field_bytes(opt_u1(p.head_num)) + tail);
        assert(fields_bytes(pair) + t =~= field_bytes(opt_u1(p.head_num)) + (tail + t));
        assert(p.head_fields() + seq![opt_u1(p.head_num), opt_u1(p.site_num)] =~= p.fields());
    } else {
        assert(fields_bytes(pair) =~= Seq::<u8>::empty());
        assert(fields_bytes(pair) + t =~= t);
        assert(p.head_fields() + seq![FieldVal::Absent, FieldVal::Absent] =~= p.fields());
    }
}

#[verifier::spinoff_prover]
#[verifier::rlimit(50)]
proof fn lemma_ptr_tail_roundtrip(p: Ptr, f: u8, ub: Seq<u8>)
    requires
        p.opt_flg == Some(f),
        p.flags_consistent(),
    ensures
        sp_ptr_tail(Endian::Little, true, f, fields_bytes(p.opt_wire().drop_first()) + ub)
            == Ok::<(Seq<FieldVal>, Seq<u8>), StdfError>((seq![opt_i1(p.res_scal), opt_i1(p.llm_scal),
            opt_i1(p.hlm_scal), opt_r4(p.lo_limit), opt_r4(p.hi_limit)], ub)),
{
    let p1 = present(f & 0x01 == 0 && p.res_scal is Some, opt_i1(p.res_scal));
    let p2 = present(f & 0x02 == 0 && p.llm_scal is Some, opt_i1(p.llm_scal));
    let p3 = present(f & 0x04 == 0 && p.hlm_scal is Some, opt_i1(p.hlm_scal));
    let p4 = present(f & 0x08 == 0 && p.lo_limit is Some, opt_r4(p.lo_limit));
    let p5 = present(f & 0x10 == 0 && p.hi_limit is Some, opt_r4(p.hi_limit));
    let t4 = p4 + p5;
    let t3 = p3 + t4;
    let t2 = p2 + t3;
    let t1 = p1 + t2;
    lemma_drop_first_concat(FieldVal::U1(f), t1);
    lemma_fields_bytes_concat(p1, t2);
    lemma_fields_bytes_concat(p2, t3);
    lemma_fields_bytes_concat(p3, t4);
    lemma_fields_bytes_concat(p4, p5);
    lemma_seq_assoc(fields_bytes(p1), fields_bytes(t2), ub);
    lemma_seq_assoc(fields_bytes(p2), fields_bytes(t3), ub);
    lemma_seq_assoc(fields_bytes(p3), fields_bytes(t4), ub);
    lemma_seq_assoc(fields_bytes(p4), fields_bytes(p5), ub);
    lemma_opt_i1_step(f & 0x01 == 0, p.res_scal, fields_bytes(t2) + ub);
    lemma_opt_i1_step(f & 0x02 == 0, p.llm_scal, fields_bytes(t3) + ub);
    lemma_opt_i1_step(f & 0x04 == 0, p.hlm_scal, fields_bytes(t4) + ub);
    lemma_opt_r4_step(f & 0x08 == 0, p.lo_limit, fields_bytes(p5) + ub);
    lemma_opt_r4_step(f & 0x10 == 0, p.hi_limit, ub);
}

#[verifier::spinoff_prover]
#[verifier::rlimit(50)]
proof fn lemma_ptr_roundtrip(p: Ptr, t: Seq<u8>)
    requires
        fields_exact(p.wire_fields()),
        p.flags_consistent(),
    ensures
        sp_ptr(Endian::Little, fields_bytes(p.wire_fields()) + t) == Ok::<(Seq<FieldVal>, Seq<u8>), StdfError>((p.fields(), t)),
{
    let e = Endian::Little;
    let head = p.head_fields();
    let ob = p.opt_wire();
    let u = FieldVal::Cn(p.units@);
    lemma_exact_split(head + ob, seq![u]);
    lemma_exact_split(head, ob);
    assert(field_exact(seq![u][0]));
    lemma_fields_bytes_concat(head + ob, seq![u]);
    lemma_fields_bytes_concat(head, ob);
    lemma_fields_bytes_single(u);
    let ub0 = field_bytes(u);
    let ub = ub0 + t;
    let s1 = fields_bytes(ob) + ub;
    assert(fields_bytes(p.wire_fields()) + t =~= fields_bytes(head) + s1);
    lemma_fields_roundtrip(layout_ptr_head(), head, s1);
    lemma_field_roundtrip(FieldKind::TailCn, u, t);
    let q = seq![opt_i1(p.res_scal), opt_i1(p.llm_scal), opt_i1(p.hlm_scal), opt_r4(p.lo_limit), opt_r4(p.hi_limit)];
    match p.opt_flg {
        Some(f) => {
            let t1 = ob.drop_first();
            lemma_drop_first_concat(FieldVal::U1(f), t1);
            assert(ob == seq![FieldVal::U1(f)] + t1);
            lemma_fields_bytes_concat(seq![FieldVal::U1(f)], t1);
            lemma_fields_bytes_single(FieldVal::U1(f));
            lemma_seq_assoc(seq![f], fields_bytes(t1), ub);
            let s2 = fields_bytes(t1) + ub;
            assert(s1 == seq![f] + s2);
            lemma_field_roundtrip(FieldKind::U1, FieldVal::U1(f), s2);
            lemma_ptr_tail_roundtrip(p, f, ub);
            assert(sp_ptr(e, fields_bytes(head) + s1) == Ok::<(Seq<FieldVal>, Seq<u8>), StdfError>((head + seq![FieldVal::U1(f)] + q + seq![u], t)));
        },
        None => {
            assert(ob == Seq::<FieldVal>::empty());
            assert(s1 =~= ub);
            assert(sp_ptr_tail(e, false, 0, s1) == Ok::<(Seq<FieldVal>, Seq<u8>), StdfError>((q, s1)));
            assert(sp_ptr(e, fields_bytes(head) + s1) == Ok::<(Seq<FieldVal>, Seq<u8>), StdfError>((head + seq![FieldVal::Absent] + q + seq![u], t)));
        },
    }
    assert(head + seq![opt_u1(p.opt_flg)] + q + seq![u] =~= p.fields());
}

proof fn lemma_opt_nn_step(cond: bool, o: Option<String>, rest: Seq<u8>)
    requires
        o is Some ==> cond,
        cond && o is None ==> rest.len() == 0,
        o matches Some(s) ==> crate::text::str_bytes(s@).len() <= 65535,
    ensures
        sp_opt(Endian::Little, cond, FieldKind::Nn, fields_bytes(present(cond && o is Some, opt_nn(o))) + rest)
            == Ok::<(FieldVal, Seq<u8>), StdfError>((opt_nn(o), rest)),
{
    if o is Some {
        lemma_fields_bytes_single(opt_nn(o));
        lemma_field_roundtrip(FieldKind::Nn, opt_nn(o), rest);
        assert(field_bytes(opt_nn(o)).len() >= 2);
    } else {
        assert(fields_bytes(present(cond && o is Some, opt_nn(o))) + rest =~= rest);
    }
}

#[verifier::spinoff_prover]
#[verifier::rlimit(50)]
proof fn lemma_ftr_roundtrip(p: Ftr, t: Seq<u8>)
    requires
        fields_exact(p.wire_fields()),
        p.flags_consistent(),
        t.len() > 0 ==> Record::Ftr(p).complete(),
    ensures
        sp_ftr(Endian::Little, fields_bytes(p.wire_fields()) + t) == Ok::<(Seq<FieldVal>, Seq<u8>), StdfError>((p.fields(), t)),
{
    let e = Endian::Little;
    let head = p.head_fields();
    let ob = p.opt_wire();
    lemma_exact_split(head, ob);
    lemma_fields_bytes_concat(head, ob);
    let s1 = fields_bytes(ob) + t;
    assert(fields_bytes(p.wire_fields()) + t =~= fields_bytes(head) + s1);
    lemma_fields_roundtrip(layout_ftr_head(), head, s1);
    match p.alarm_id {
        Some(a) => {
            let f2 = p.flag2();
            let pp = present(f2 & 0x02 == 0 && p.program is Some, opt_nn(p.program));
            let pl = present(f2 & 0x04 == 0 && p.test_label is Some, opt_nn(p.test_label));
            let t2 = seq![FieldVal::U1(f2)] + (pp + pl);
            assert(ob == seq![FieldVal::Cn(a@)] + t2);
            lemma_exact_split(seq![FieldVal::Cn(a@)], t2);
            lemma_exact_split(seq![FieldVal::U1(f2)], pp + pl);
            lemma_exact_split(pp, pl);
            assert(field_exact(seq![FieldVal::Cn(a@)][0]));
            if p.program is Some { assert(field_exact(pp[0])); }
            if p.test_label is Some { assert(field_exact(pl[0])); }
            lemma_fields_bytes_concat(seq![FieldVal::Cn(a@)], t2);
            lemma_fields_bytes_concat(seq![FieldVal::U1(f2)], pp + pl);
            lemma_fields_bytes_concat(pp, pl);
            lemma_fields_bytes_single(FieldVal::Cn(a@));
            lemma_fields_bytes_single(FieldVal::U1(f2));
            let s2 = fields_bytes(t2) + t;
            let s3 = fields_bytes(pp + pl) + t;
            assert(s1 =~= field_bytes(FieldVal::Cn(a@)) + s2);
            lemma_field_roundtrip(FieldKind::Cn, FieldVal::Cn(a@), s2);
            lemma_field_roundtrip(FieldKind::U1, FieldVal::U1(f2), s3);
            assert(s2 =~= seq![f2] + s3);
            assert(s2.len() > 0);
            assert(field_bytes(FieldVal::Cn(a@)).len() > 0);
            assert(s3 =~= fields_bytes(pp) + (fields_bytes(pl) + t));
            lemma_opt_nn_step(f2 & 0x02 == 0, p.program, fields_bytes(pl) + t);
            lemma_opt_nn_step(f2 & 0x04 == 0, p.test_label, t);
            assert(opt_u1(p.opt_flg_2) == FieldVal::U1(f2));
            assert(sp_ftr(e, fields_bytes(head) + s1) == Ok::<(Seq<FieldVal>, Seq<u8>), StdfError>((head + seq![FieldVal::Cn(a@),
                FieldVal::U1(f2), opt_nn(p.program), opt_nn(p.test_label)], t)));
        },
        None => {
            assert(ob == Seq::<FieldVal>::empty());
            assert(s1 =~= t);
        },
    }
    assert(head + seq![opt_cn(p.alarm_id), opt_u1(p.opt_flg_2), opt_nn(p.program), opt_nn(p.test_label)] =~= p.fields());
}


proof fn lemma_fixed_case(typ: u8, sub: u8, l: Seq<FieldKind>, fs: Seq<FieldVal>, t: Seq<u8>)
    requires
        fixed_layout_of(typ, sub) == Some(l),
        layout_matches(l, fs),
        fields_exact(fs),
    ensures
        parse_body(typ, sub, fields_bytes(fs) + t, Endian::Little) == Ok::<(Seq<FieldVal>, Seq<u8>), StdfError>((fs, t)),
{
    lemma_fields_roundtrip(l, fs, t);
}

/// Parsing a record's written body followed by `t` gives back its fields
/// and leaves `t`.
#[verifier::rlimit(100)]
#[verifier::spinoff_prover]
proof fn lemma_body_roundtrip(r: Record, t: Seq<u8>)
    requires
        r.plain_roundtrips(),
        t.len() > 0 ==> r.complete(),
    ensures
        parse_body(r.code().0, r.code().1, r.body_bytes() + t, Endian::Little)
            == Ok::<(Seq<FieldVal>, Seq<u8>), StdfError>((r.fields(), t)),
{
    match r {
        Record::Far(x) => {
            assert(layout_matches(layout_far(), x.fields()));
            lemma_fixed_case(0, 10, layout_far(), x.fields(), t);
        },
        Record::Atr(x) => {
            assert(layout_matches(layout_atr(), x.fields()));
            lemma_fixed_case(0, 20, layout_atr(), x.fields(), t);
        },
        Record::Mir(x) => {
            assert forall|i: int| 0 <= i < layout_mir().len() implies kind_matches(#[trigger] layout_mir()[i], x.fields()[i]) by {
                if i >= 8 {
                    assert(layout_mir()[i] == FieldKind::Cn);
                }
            }
            lemma_fixed_case(1, 10, layout_mir(), x.fields(), t);
        },
        Record::Mrr(x) => {
            assert(layout_matches(layout_mrr(), x.fields()));
            lemma_fixed_case(1, 20, layout_mrr(), x.fields(), t);
        },
        Record::Pcr(x) => {
            assert(layout_matches(layout_pcr(), x.fields()));
            lemma_fixed_case(1, 30, layout_pcr(), x.fields(), t);
        },
        Record::Hbr(x) => {
            assert(layout_matches(layout_bin(), x.fields()));
            lemma_fixed_case(1, 40, layout_bin(), x.fields(), t);
        },
        Record::Sbr(x) => {
            assert(layout_matches(layout_bin(), x.fields()));
            lemma_fixed_case(1, 50, layout_bin(), x.fields(), t);
        },
        Record::Pmr(x) => {
            lemma_pmr_roundtrip(x, t);
        },
        Record::Wir(x) => {
            assert(layout_matches(layout_wir(), x.fields()));
            lemma_fixed_case(2, 10, layout_wir(), x.fields(), t);
        },
        Record::Wrr(x) => {
            assert(layout_matches(layout_wrr(), x.fields()));
            lemma_fixed_case(2, 20, layout_wrr(), x.fields(), t);
        },
        Record::Wcr(x) => {
            assert(layout_matches(layout_wcr(), x.fields()));
            lemma_fixed_case(2, 30, layout_wcr(), x.fields(), t);
        },
        Record::Ptr(x) => {
            lemma_ptr_roundtrip(x, t);
        },
        Record::Ftr(x) => {
            lemma_ftr_roundtrip(x, t);
        },
        Record::Tsr(x) => {
            assert(layout_matches(layout_tsr(), x.fields()));
            lemma_fixed_case(5, 30, layout_tsr(), x.fields(), t);
        },
        Record::Gdr(x) => {
            assert(layout_matches(layout_gdr(), x.fields()));
            lemma_fixed_case(20, 10, layout_gdr(), x.fields(), t);
        },
        Record::Dtr(x) => {
            assert(layout_matches(layout_dtr(), x.fields()));
            lemma_fixed_case(20, 30, layout_dtr(), x.fields(), t);
        },
        Record::Bps(_) => {
            assert(r.body_bytes() + t =~= t);
        },
        Record::Eps(_) => {
            assert(r.body_bytes() + t =~= t);
        },
        Record::Unknown { typ, sub, data } => {
            lemma_fields_bytes_single(FieldVal::Raw(data@));
            assert(t =~= Seq::<u8>::empty());
            assert(r.body_bytes() + t =~= data@);
        },
        Record::Tailed { .. } => {},
    }
}

/// Writing a record and parsing its body back (little-endian) restores it:
/// same (REC_TYP, REC_SUB), same field values, and the same tail after
/// them. This holds for every record whose strings fit their length
/// prefixes exactly, whose optional fields agree with their presence flags,
/// and, for an `Unknown` record, whose type code is not one this crate
/// models; a record with a tail also needs a nonempty tail after a record
/// whose written body reading stops at (see [`Record::complete`]).
pub proof fn lemma_record_roundtrip(r: Record)
    requires
        r.roundtrips(),
    ensures
        spec_parse(r.code().0, r.code().1, r.body_bytes(), Endian::Little) == Ok::<RecordModel, StdfError>(r@),
{
    match r {
        Record::Tailed { record, tail } => {
            lemma_tail_fields(record.wire_fields(), tail@);
            lemma_body_roundtrip(*record, tail@);
        },
        _ => {
            lemma_body_roundtrip(r, Seq::empty());
            assert(r.body_bytes() + Seq::<u8>::empty() =~= r.body_bytes());
        },
    }
}

} // verus!
