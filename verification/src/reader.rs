//! Reading observation rows.
//!
//! After the header is assembled, the rest of the stream packs
//! observations back to back.  A `RawReader` projects each row buffer to
//! typed values through a projection table built from the column
//! metadata: byte offset, cell length, and a type code (1 numeric, 2
//! character).

use vstd::prelude::*;

use crate::deserialize::be_u16_at;
use crate::deserialize::be_u32_at;
use crate::deserialize::read_u16_be;
use crate::deserialize::FromBytes;
use crate::error::XPTError;
use crate::cards::card_body;
use crate::cards::card_title;
use crate::cards::spec_title_member;
use crate::cards::spec_title_membv8;
use crate::cards::spec_title_namestr;
use crate::cards::spec_title_namstv8;
use crate::part::column_type_of;
use crate::part::member_body_ok;
use crate::part::member_body_val;
use crate::part::namestr_body_ok;
use crate::part::namestr_body_val;
use crate::part::ColumnMeta;
use crate::part::ColumnType;
use crate::part::DocumentBase;
use crate::part::DocumentHeader;
use crate::part::DocumentMeta;
use crate::part::V5MemberTitleHeader;
use crate::part::V5NameSt;
use crate::part::V5NameStrTitleHeader;
use crate::part::V8LabelStrTitleHeader;
use crate::part::V8MemberTitleHeader;
use crate::part::V8NameSt;
use crate::part::V8NameStrTitleHeader;
use crate::part::V8ObsHeaderRecord;
use crate::part::XptHeader;
use crate::text::decode_utf8_raw;
use crate::text::lossy_of;
use crate::text::lossy_text;
use crate::text::utf8_of;
use crate::ibm::byte2number;
use crate::ibm::ibm_decode_spec;
use crate::text::decode_text;
use crate::text::decoded_text;
use crate::text::decodes;
use crate::text::TextCodec;
use vstd::slice::slice_subrange;

verus! {

/// One cell of a row: a number (as IEEE 754 binary64 bits), character
/// data, or a missing value.
pub enum Val {
    Number(u64),
    Char(String),
    Nil,
}

/// The bytes of one cell within a row buffer.
pub open spec fn cell_bytes(entry: (u32, u16, u16), line: Seq<u8>) -> Seq<u8> {
    line.subrange(entry.0 as int, entry.0 + entry.1)
}

/// Whether one cell fails to decode: an illegible numeric word, or
/// character bytes the codec rejects.
pub open spec fn cell_fails(entry: (u32, u16, u16), codec: TextCodec, line: Seq<u8>) -> bool {
    if entry.2 == 1 {
        ibm_decode_spec(cell_bytes(entry, line)) is Err
    } else {
        !decodes(codec, cell_bytes(entry, line))
    }
}

/// What one decoded cell must hold.
pub open spec fn cell_ok(entry: (u32, u16, u16), codec: TextCodec, line: Seq<u8>, v: Val) -> bool {
    if entry.2 == 1 {
        match ibm_decode_spec(cell_bytes(entry, line)) {
            Ok(ov) => match ov {
                Some(bits) => v matches Val::Number(x) && x == bits,
                None => v is Nil,
            },
            Err(_) => false,
        }
    } else {
        v matches Val::Char(s) && s@ == decoded_text(codec, cell_bytes(entry, line))
    }
}

/// Whether every cell of a row decodes.
pub open spec fn row_decodes(plan: Seq<(u32, u16, u16)>, codec: TextCodec, line: Seq<u8>) -> bool {
    forall|i: int| 0 <= i < plan.len() ==> !cell_fails(plan[i], codec, line)
}

/// Law: in a decoded row, the kind of each value follows its column's
/// type code: a numeric column yields a number or a missing value, a
/// character column yields character data.
pub proof fn lemma_row_kinds_match(
    plan: Seq<(u32, u16, u16)>,
    codec: TextCodec,
    line: Seq<u8>,
    vals: Seq<Val>,
)
    requires
        vals.len() == plan.len(),
        forall|i: int| 0 <= i < plan.len() ==> cell_ok(plan[i], codec, line, vals[i]),
    ensures
        forall|i: int|
            0 <= i < plan.len() ==> if plan[i].2 == 1 {
                (vals[i] matches Val::Number(_)) || (vals[i] is Nil)
            } else {
                vals[i] matches Val::Char(_)
            },
{
}

/// Reads observation rows from buffers handed in by the caller, one row
/// buffer per call.
pub struct RawReader {
    line_length: u32,
    line_number: u64,
    v5_name_sts: Vec<(u32, u16, u16)>,
    codec: TextCodec,
    observations: u64,
}

impl RawReader {
    /// The projection table: one `(offset, length, type code)` per column.
    pub closed spec fn plan_spec(&self) -> Seq<(u32, u16, u16)> {
        self.v5_name_sts@
    }

    /// The byte length of one observation row.
    pub closed spec fn line_length_spec(&self) -> u32 {
        self.line_length
    }

    /// How many rows have been returned so far.
    pub closed spec fn rows_read(&self) -> u64 {
        self.line_number
    }

    /// The declared observation count; zero means "until end of stream".
    pub closed spec fn observations_spec(&self) -> u64 {
        self.observations
    }

    /// The text encoding used for character cells.
    pub closed spec fn codec_spec(&self) -> TextCodec {
        self.codec
    }

    /// Every projection entry stays inside the row buffer, and numeric
    /// cells are at most eight bytes wide.
    pub closed spec fn wf(&self) -> bool {
        forall|i: int|
            0 <= i < self.v5_name_sts@.len() ==> (self.v5_name_sts@[i].0 + self.v5_name_sts@[i].1
                <= self.line_length && (self.v5_name_sts@[i].2 == 1 ==> self.v5_name_sts@[i].1
                <= 8))
    }

    /// Build a row reader directly from a projection table.
    pub fn new(
        plan: Vec<(u32, u16, u16)>,
        line_length: u32,
        observations: u64,
        codec: TextCodec,
    ) -> (r: RawReader)
        requires
            forall|i: int|
                0 <= i < plan@.len() ==> (plan@[i].0 + plan@[i].1 <= line_length && (plan@[i].2
                    == 1 ==> plan@[i].1 <= 8)),
        ensures
            r.wf(),
            r.plan_spec() == plan@,
            r.line_length_spec() == line_length,
            r.rows_read() == 0,
            r.observations_spec() == observations,
            r.codec_spec() == codec,
    {
        RawReader { line_length, line_number: 0, v5_name_sts: plan, codec, observations }
    }

    /// The byte length of one observation row, for the caller that reads.
    pub fn line_len(&self) -> (r: u32)
        ensures
            r == self.line_length_spec(),
    {
        self.line_length
    }

    /// Project one row buffer to typed values.
    ///
    /// `chunk` holds the bytes actually read for this row, at most one
    /// row length.  `Ok(None)` means end of stream: the declared
    /// observation count is exhausted, the read came back short, or there
    /// are no columns at all.
    pub fn read_line(&mut self, chunk: &[u8]) -> (r: Result<Option<Vec<Val>>, XPTError>)
        requires
            old(self).wf(),
            chunk@.len() <= old(self).line_length_spec(),
            old(self).rows_read() < u64::MAX,
        ensures
            final(self).wf(),
            final(self).plan_spec() == old(self).plan_spec(),
            final(self).line_length_spec() == old(self).line_length_spec(),
            final(self).observations_spec() == old(self).observations_spec(),
            final(self).codec_spec() == old(self).codec_spec(),
            ({
                let plan = old(self).plan_spec();
                let codec = old(self).codec_spec();
                let obs = old(self).observations_spec();
                let k = old(self).rows_read();
                if obs != 0 && k >= obs {
                    r matches Ok(v) && v is None && final(self).rows_read() == k
                } else if chunk@.len() < old(self).line_length_spec() {
                    r matches Ok(v) && v is None && final(self).rows_read() == k
                } else if plan.len() == 0 {
                    r matches Ok(v) && v is None && final(self).rows_read() == k
                } else if row_decodes(plan, codec, chunk@) {
                    &&& r matches Ok(v) && v matches Some(vals) && vals@.len() == plan.len()
                        && (forall|i: int|
                        0 <= i < plan.len() ==> cell_ok(plan[i], codec, chunk@, vals@[i]))
                    &&& final(self).rows_read() == k + 1
                } else {
                    &&& r matches Err(e) && (exists|i: int|
                        {
                            &&& 0 <= i < plan.len()
                            &&& #[trigger] cell_fails(plan[i], codec, chunk@)
                            &&& (forall|j: int| 0 <= j < i ==> !cell_fails(plan[j], codec, chunk@))
                            &&& (plan[i].2 == 1 ==> e is ParseError && e.text()
                                == "unreadable zero-mantissa value"@)
                            &&& (plan[i].2 != 1 ==> e is DecodeError && e.text() == lossy_of(
                                cell_bytes(plan[i], chunk@),
                            ))
                        })
                    &&& final(self).rows_read() == k
                }
            }),
    {
        if self.observations != 0 && self.line_number >= self.observations {
            return Ok(None);
        }
        if chunk.len() < self.line_length as usize {
            return Ok(None);
        }
        let n = self.v5_name_sts.len();
        if n == 0 {
            return Ok(None);
        }
        let mut vec: Vec<Val> = Vec::new();
        let mut i: usize = 0;
        while i < n
            invariant
                0 < n,
                0 <= i <= n,
                n == self.v5_name_sts@.len(),
                self == old(self),
                self.wf(),
                self.line_number < u64::MAX,
                !(self.observations != 0 && self.line_number >= self.observations),
                chunk@.len() == self.line_length,
                vec@.len() == i,
                forall|j: int|
                    0 <= j < i ==> cell_ok(self.v5_name_sts@[j], self.codec, chunk@, vec@[j]),
                forall|j: int| 0 <= j < i ==> !cell_fails(self.v5_name_sts@[j], self.codec, chunk@),
            decreases n - i,
        {
            let entry = self.v5_name_sts[i];
            let start = entry.0 as usize;
            let len = entry.1 as usize;
            let piece = slice_subrange(chunk, start, start + len);
            proof {
                assert(piece@ =~= cell_bytes(self.v5_name_sts@[i as int], chunk@));
            }
            if entry.2 == 1 {
                match byte2number(piece) {
                    Ok(Some(bits)) => vec.push(Val::Number(bits)),
                    Ok(None) => vec.push(Val::Nil),
                    Err(e) => {
                        proof {
                            assert(cell_fails(self.v5_name_sts@[i as int], self.codec, chunk@));
                        }
                        return Err(e);
                    },
                }
            } else {
                match decode_text(self.codec, piece) {
                    Ok(s) => vec.push(Val::Char(s)),
                    Err(e) => {
                        proof {
                            assert(cell_fails(self.v5_name_sts@[i as int], self.codec, chunk@));
                        }
                        return Err(e);
                    },
                }
            }
            i = i + 1;
        }
        self.line_number = self.line_number + 1;
        Ok(Some(vec))
    }
}

/// The section of the transport file the assembler expects next.
pub enum AsmState {
    LibraryCard,
    LibraryBase,
    LibraryDate,
    MemberCard,
    MemberDescriptor,
    MemberBase,
    MemberDate,
    NamestrCard,
    Namestr,
    NamestrPad,
    ObsCardV5,
    LabelCard,
    LabelLen,
    LabelName,
    LabelLabel,
    LabelPad,
    ObsCardV8,
    Done,
    Failed,
}

/// The column name bytes of a namestr record: the short `nname` field in
/// V5, the long `nlname` field in V8.
pub open spec fn namestr_name_bytes(v: DocumentHeader, rec: Seq<u8>) -> Seq<u8> {
    match v {
        DocumentHeader::V5 => rec.subrange(8, 16),
        DocumentHeader::V8 => rec.subrange(88, 120),
    }
}

/// Whether the four text fields of a namestr record decode under `codec`.
pub open spec fn namestr_texts_decode(codec: TextCodec, v: DocumentHeader, rec: Seq<u8>) -> bool {
    &&& decodes(codec, namestr_name_bytes(v, rec))
    &&& decodes(codec, rec.subrange(16, 56))
    &&& decodes(codec, rec.subrange(56, 64))
    &&& decodes(codec, rec.subrange(72, 80))
}

/// Whether a namestr record is accepted: its texts decode, a numeric
/// column is at most eight bytes wide, and its end offset fits `u32`.
pub open spec fn namestr_acceptable(codec: TextCodec, v: DocumentHeader, rec: Seq<u8>) -> bool {
    &&& namestr_texts_decode(codec, v, rec)
    &&& (be_u16_at(rec, 0) != 2 ==> be_u16_at(rec, 4) <= 8)
    &&& be_u32_at(rec, 84) + be_u16_at(rec, 4) <= u32::MAX
}

/// Every field of the column description built from a namestr record.
pub open spec fn column_from_namestr(
    codec: TextCodec,
    v: DocumentHeader,
    rec: Seq<u8>,
    c: ColumnMeta,
) -> bool {
    &&& c.column_type == column_type_of(be_u16_at(rec, 0))
    &&& c.length == be_u16_at(rec, 4)
    &&& c.var_count == be_u16_at(rec, 6)
    &&& c.offset == be_u32_at(rec, 84)
    &&& c.name@ == decoded_text(codec, namestr_name_bytes(v, rec))
    &&& c.label@ == decoded_text(codec, rec.subrange(16, 56))
    &&& c.format.0@ == decoded_text(codec, rec.subrange(56, 64))
    &&& c.format.1 == be_u16_at(rec, 64)
    &&& c.format.2 == be_u16_at(rec, 66)
    &&& c.in_format.0@ == decoded_text(codec, rec.subrange(72, 80))
    &&& c.in_format.1 == be_u16_at(rec, 80)
    &&& c.in_format.2 == be_u16_at(rec, 82)
}

/// Every column stays inside the observation row, and numeric columns are
/// at most eight bytes wide.
pub open spec fn cols_wf(cols: Seq<ColumnMeta>, line_length: u32) -> bool {
    forall|i: int|
        0 <= i < cols.len() ==> (cols[i].offset + cols[i].length <= line_length && (
        cols[i].column_type is NUMERIC ==> cols[i].length <= 8))
}

/// Columns in non-decreasing ordinal order.
pub open spec fn sorted_by_var(cols: Seq<ColumnMeta>) -> bool {
    forall|i: int, j: int| 0 <= i < j < cols.len() ==> cols[i].var_count <= cols[j].var_count
}

/// One projection entry drawn from one column description.
pub open spec fn plan_matches_column(e: (u32, u16, u16), c: ColumnMeta) -> bool {
    &&& e.0 == c.offset
    &&& e.1 == c.length
    &&& e.2 == (if c.column_type is CHAR {
        2u16
    } else {
        1u16
    })
}

/// Assembles the document metadata by consuming the header section of a
/// transport file, chunk by chunk.
///
/// The caller asks `needed` how many bytes to read next and hands exactly
/// that many to `feed`; when `is_done` reports true, `finish` yields the
/// metadata and a row reader.  Nothing here performs input itself, so any
/// blocking or asynchronous byte source can drive the assembly.
pub struct Reader {
    state: AsmState,
    codec: TextCodec,
    version: Option<DocumentHeader>,
    doc_version: String,
    operation_system: String,
    doc_update_time: String,
    dataset_name: String,
    library: String,
    lib_update_time: String,
    member_meta_length: u16,
    column_count: u16,
    columns_read: u16,
    columns: Vec<ColumnMeta>,
    line_length: u32,
    with_long_label: bool,
    label_records: u16,
    labels_done: u16,
    left_blank: u16,
    pending_idx: usize,
    pending_name_len: u16,
    pending_label_len: u16,
    pad: u16,
    observations: u64,
    pos: Ghost<nat>,
}

impl Reader {
    /// The section expected next.
    pub closed spec fn state_spec(&self) -> AsmState {
        self.state
    }

    /// The text encoding used for every decoded field.
    pub closed spec fn codec_spec(&self) -> TextCodec {
        self.codec
    }

    /// The format variant, once the library card has fixed it.
    pub closed spec fn version_spec(&self) -> Option<DocumentHeader> {
        self.version
    }

    /// How many bytes have been consumed from the source.
    pub closed spec fn position(&self) -> nat {
        self.pos@
    }

    /// The columns parsed so far, in input order.
    pub closed spec fn columns_spec(&self) -> Seq<ColumnMeta> {
        self.columns@
    }

    /// The column count declared by the namestr card.
    pub closed spec fn column_count_spec(&self) -> u16 {
        self.column_count
    }

    /// The namestr record length declared by the member card.
    pub closed spec fn member_meta_length_spec(&self) -> u16 {
        self.member_meta_length
    }

    /// The byte length of one observation row seen so far.
    pub closed spec fn line_length_spec(&self) -> u32 {
        self.line_length
    }

    /// The declared observation count; zero means "until end of stream".
    pub closed spec fn observations_spec(&self) -> u64 {
        self.observations
    }

    /// Whether some namestr declared a label longer than its inline field.
    pub closed spec fn with_long_label_spec(&self) -> bool {
        self.with_long_label
    }

    /// How many long-label records the supplement card declared.
    pub closed spec fn label_records_spec(&self) -> u16 {
        self.label_records
    }

    /// How many long-label records have been consumed.
    pub closed spec fn labels_done_spec(&self) -> u16 {
        self.labels_done
    }

    /// The running padding remainder of the long-label section.
    pub closed spec fn left_blank_spec(&self) -> u16 {
        self.left_blank
    }

    /// The column the current long-label record patches.
    pub closed spec fn pending_idx_spec(&self) -> int {
        self.pending_idx as int
    }

    /// The name length of the current long-label record.
    pub closed spec fn pending_name_len_spec(&self) -> u16 {
        self.pending_name_len
    }

    /// The label length of the current long-label record.
    pub closed spec fn pending_label_len_spec(&self) -> u16 {
        self.pending_label_len
    }

    /// The decoded version field of the library descriptor.
    pub closed spec fn doc_version_spec(&self) -> Seq<char> {
        self.doc_version@
    }

    /// The decoded operating-system field of the library descriptor.
    pub closed spec fn operation_system_spec(&self) -> Seq<char> {
        self.operation_system@
    }

    /// The library timestamp card, as text.
    pub closed spec fn doc_update_time_spec(&self) -> Seq<char> {
        self.doc_update_time@
    }

    /// The decoded version field of the member descriptor.
    pub closed spec fn dataset_name_spec(&self) -> Seq<char> {
        self.dataset_name@
    }

    /// The decoded dataset-name field of the member descriptor.
    pub closed spec fn library_spec(&self) -> Seq<char> {
        self.library@
    }

    /// The member timestamp card, as text.
    pub closed spec fn lib_update_time_spec(&self) -> Seq<char> {
        self.lib_update_time@
    }

    /// The namestr record length each version needs before its fixed
    /// fields end.
    pub open spec fn mml_floor(v: DocumentHeader) -> u16 {
        match v {
            DocumentHeader::V5 => 88,
            DocumentHeader::V8 => 122,
        }
    }

    spec fn mml_ok(&self) -> bool {
        match self.version {
            Some(v) => self.member_meta_length >= Self::mml_floor(v),
            None => false,
        }
    }

    spec fn complete(&self) -> bool {
        &&& self.columns@.len() == self.column_count
        &&& cols_wf(self.columns@, self.line_length)
    }

    /// The internal consistency of the assembler, by state: how many bytes
    /// have been consumed, what has been parsed, and that the columns stay
    /// inside the observation row.
    pub closed spec fn wf(&self) -> bool {
        match self.state {
            AsmState::LibraryCard => self.pos@ == 0 && self.columns@.len() == 0,
            AsmState::LibraryBase => self.pos@ == 80 && self.version is Some && self.columns@.len()
                == 0,
            AsmState::LibraryDate => self.pos@ == 160 && self.version is Some
                && self.columns@.len() == 0,
            AsmState::MemberCard => self.pos@ == 240 && self.version is Some && self.columns@.len()
                == 0,
            AsmState::MemberDescriptor => self.pos@ == 320 && self.mml_ok() && self.columns@.len()
                == 0,
            AsmState::MemberBase => self.pos@ == 400 && self.mml_ok() && self.columns@.len() == 0,
            AsmState::MemberDate => self.pos@ == 480 && self.mml_ok() && self.columns@.len() == 0,
            AsmState::NamestrCard => self.pos@ == 560 && self.mml_ok() && self.columns@.len() == 0,
            AsmState::Namestr => {
                &&& self.mml_ok()
                &&& self.columns@.len() == self.columns_read
                &&& self.columns_read < self.column_count
                &&& self.pos@ == 640 + self.columns_read * self.member_meta_length
                &&& cols_wf(self.columns@, self.line_length)
            },
            AsmState::NamestrPad => {
                &&& self.version is Some
                &&& self.complete()
                &&& 0 < self.pad < 80
                &&& (self.pos@ + self.pad) % 80 == 0
            },
            AsmState::ObsCardV5 => self.version == Some(DocumentHeader::V5) && self.complete()
                && self.pos@ % 80 == 0,
            AsmState::LabelCard => self.version == Some(DocumentHeader::V8) && self.complete()
                && self.pos@ % 80 == 0,
            AsmState::LabelLen => {
                &&& self.version == Some(DocumentHeader::V8)
                &&& self.complete()
                &&& self.left_blank < 80
                &&& self.pos@ % 80 == self.left_blank
                &&& self.labels_done < self.label_records
            },
            AsmState::LabelName => {
                &&& self.version == Some(DocumentHeader::V8)
                &&& self.complete()
                &&& self.left_blank < 80
                &&& self.pos@ % 80 == (self.left_blank + 6) % 80
                &&& self.labels_done < self.label_records
                &&& 0 <= self.pending_idx < self.columns@.len()
            },
            AsmState::LabelLabel => {
                &&& self.version == Some(DocumentHeader::V8)
                &&& self.complete()
                &&& self.left_blank < 80
                &&& self.pos@ % 80 == (self.left_blank + 6 + self.pending_name_len) % 80
                &&& self.labels_done < self.label_records
                &&& 0 <= self.pending_idx < self.columns@.len()
            },
            AsmState::LabelPad => {
                &&& self.version == Some(DocumentHeader::V8)
                &&& self.complete()
                &&& 0 < self.pad < 80
                &&& (self.pos@ + self.pad) % 80 == 0
            },
            AsmState::ObsCardV8 => self.version == Some(DocumentHeader::V8) && self.complete()
                && self.pos@ % 80 == 0,
            AsmState::Done => self.version is Some && self.complete() && self.pos@ % 80 == 0,
            AsmState::Failed => true,
        }
    }

    /// How many bytes `feed` expects next; zero once assembly is done or
    /// has failed, and zero-length reads can occur for empty long-label
    /// fields.
    pub closed spec fn needed_spec(&self) -> nat {
        match self.state {
            AsmState::LibraryCard => 80,
            AsmState::LibraryBase => 80,
            AsmState::LibraryDate => 80,
            AsmState::MemberCard => 80,
            AsmState::MemberDescriptor => 80,
            AsmState::MemberBase => 80,
            AsmState::MemberDate => 80,
            AsmState::NamestrCard => 80,
            AsmState::Namestr => self.member_meta_length as nat,
            AsmState::NamestrPad => self.pad as nat,
            AsmState::ObsCardV5 => 80,
            AsmState::LabelCard => 80,
            AsmState::LabelLen => 6,
            AsmState::LabelName => self.pending_name_len as nat,
            AsmState::LabelLabel => self.pending_label_len as nat,
            AsmState::LabelPad => self.pad as nat,
            AsmState::ObsCardV8 => 80,
            AsmState::Done => 0,
            AsmState::Failed => 0,
        }
    }

    /// Ranks the two states that may consume nothing, so that feeding
    /// always makes progress.
    pub closed spec fn rank(&self) -> nat {
        match self.state {
            AsmState::LabelName => 2,
            AsmState::LabelLabel => 1,
            _ => 0,
        }
    }

    /// How many bytes to read and hand to `feed` next.
    pub fn needed(&self) -> (r: usize)
        ensures
            r as nat == self.needed_spec(),
    {
        match self.state {
            AsmState::LibraryCard => 80,
            AsmState::LibraryBase => 80,
            AsmState::LibraryDate => 80,
            AsmState::MemberCard => 80,
            AsmState::MemberDescriptor => 80,
            AsmState::MemberBase => 80,
            AsmState::MemberDate => 80,
            AsmState::NamestrCard => 80,
            AsmState::Namestr => self.member_meta_length as usize,
            AsmState::NamestrPad => self.pad as usize,
            AsmState::ObsCardV5 => 80,
            AsmState::LabelCard => 80,
            AsmState::LabelLen => 6,
            AsmState::LabelName => self.pending_name_len as usize,
            AsmState::LabelLabel => self.pending_label_len as usize,
            AsmState::LabelPad => self.pad as usize,
            AsmState::ObsCardV8 => 80,
            AsmState::Done => 0,
            AsmState::Failed => 0,
        }
    }

    /// Whether the whole header has been consumed.
    pub fn is_done(&self) -> (r: bool)
        ensures
            r == (self.state_spec() is Done),
    {
        match self.state {
            AsmState::Done => true,
            _ => false,
        }
    }

    /// Whether an earlier `feed` reported an error.
    pub fn is_failed(&self) -> (r: bool)
        ensures
            r == (self.state_spec() is Failed),
    {
        match self.state {
            AsmState::Failed => true,
            _ => false,
        }
    }

    /// A fresh assembler expecting the library card.
    pub fn new(codec: TextCodec) -> (r: Reader)
        ensures
            r.wf(),
            r.state_spec() is LibraryCard,
            r.position() == 0,
            r.codec_spec() == codec,
            r.observations_spec() == 0,
            r.line_length_spec() == 0,
    {
        Reader {
            state: AsmState::LibraryCard,
            codec,
            version: None,
            doc_version: String::new(),
            operation_system: String::new(),
            doc_update_time: String::new(),
            dataset_name: String::new(),
            library: String::new(),
            lib_update_time: String::new(),
            member_meta_length: 0,
            column_count: 0,
            columns_read: 0,
            columns: Vec::new(),
            line_length: 0,
            with_long_label: false,
            label_records: 0,
            labels_done: 0,
            left_blank: 0,
            pending_idx: 0,
            pending_name_len: 0,
            pending_label_len: 0,
            pad: 0,
            observations: 0,
            pos: Ghost(0nat),
        }
    }

    /// A fresh assembler that decodes character data as GBK.
    pub fn new_gbk() -> (r: Reader)
        ensures
            r.wf(),
            r.state_spec() is LibraryCard,
            r.position() == 0,
            r.codec_spec() == TextCodec::Gbk,
    {
        Self::new(TextCodec::Gbk)
    }
}

/// Law: once the namestr section and its padding have been consumed, the
/// total number of bytes taken from the source is a multiple of eighty.
pub proof fn lemma_namestr_section_alignment(r: &Reader)
    requires
        r.wf(),
        r.state_spec() is ObsCardV5 || r.state_spec() is LabelCard || r.state_spec() is ObsCardV8
            || r.state_spec() is Done,
    ensures
        r.position() % 80 == 0,
{
}

/// The version recorded by the library card, V5 until one is recorded.
pub open spec fn ver_of(o: Option<DocumentHeader>) -> DocumentHeader {
    match o {
        Some(v) => v,
        None => DocumentHeader::V5,
    }
}

/// The state that follows the namestr section: the V5 observation card,
/// or for V8 the long-label supplement or the observation-count card.
pub open spec fn post_namestr_state(v: DocumentHeader, long: bool, st: AsmState) -> bool {
    match v {
        DocumentHeader::V5 => st is ObsCardV5,
        DocumentHeader::V8 => if long {
            st is LabelCard
        } else {
            st is ObsCardV8
        },
    }
}

proof fn lemma_mod_shift80(a: nat, b: nat)
    ensures
        (a + b) % 80 == (a % 80 + b) % 80,
{
    vstd::arithmetic::div_mod::lemma_fundamental_div_mod(a as int, 80);
    vstd::arithmetic::div_mod::lemma_mod_multiples_vanish((a as int) / 80, a % 80 + b as int, 80);
}

proof fn lemma_pad_to_boundary80(pos: nat, lb: nat)
    requires
        pos % 80 == lb,
        0 < lb < 80,
    ensures
        (pos + (80 - lb)) % 80 == 0,
{
    vstd::arithmetic::div_mod::lemma_fundamental_div_mod(pos as int, 80);
    vstd::arithmetic::div_mod::lemma_mod_multiples_basic((pos as int) / 80 + 1, 80);
}

proof fn lemma_add_aligned80(base: nat, t: nat)
    requires
        base % 80 == 0,
        t % 80 == 0,
    ensures
        (base + t) % 80 == 0,
{
    vstd::arithmetic::div_mod::lemma_fundamental_div_mod(base as int, 80);
    vstd::arithmetic::div_mod::lemma_fundamental_div_mod(t as int, 80);
    vstd::arithmetic::div_mod::lemma_mod_multiples_basic((base as int) / 80 + (t as int) / 80, 80);
}

impl Reader {
    /// Consume the next piece of the header.
    ///
    /// The chunk must hold exactly the number of bytes `needed` asked
    /// for.  On an error the assembler fails permanently; otherwise it
    /// advances by one section.
    #[verifier::rlimit(100)]
    pub fn feed(&mut self, chunk: &[u8]) -> (r: Result<(), XPTError>)
        requires
            old(self).wf(),
            chunk@.len() == old(self).needed_spec(),
            !(old(self).state_spec() is Done),
            !(old(self).state_spec() is Failed),
        ensures
            final(self).wf(),
            final(self).position() == old(self).position() + chunk@.len(),
            final(self).codec_spec() == old(self).codec_spec(),
            r is Err ==> final(self).state_spec() is Failed,
            r is Ok ==> !(final(self).state_spec() is Failed),
            old(self).needed_spec() == 0 && r is Ok ==> final(self).rank() < old(self).rank(),
            !(old(self).state_spec() is LibraryCard) ==> final(self).version_spec() == old(self).version_spec(),
            !(old(self).state_spec() is MemberCard) ==> final(self).member_meta_length_spec()
                == old(self).member_meta_length_spec(),
            !(old(self).state_spec() is NamestrCard) ==> final(self).column_count_spec() == old(self).column_count_spec(),
            !(old(self).state_spec() is ObsCardV8) ==> final(self).observations_spec() == old(self).observations_spec(),
            !(old(self).state_spec() is Namestr) ==> final(self).line_length_spec() == old(self).line_length_spec(),
            !(old(self).state_spec() is Namestr) && !(old(self).state_spec() is LabelName) && !(
            old(self).state_spec() is LabelLabel) ==> final(self).columns_spec() == old(self).columns_spec(),
            !(old(self).state_spec() is LibraryBase) ==> final(self).doc_version_spec() == old(self).doc_version_spec() && final(self).operation_system_spec() == old(self).operation_system_spec(),
            !(old(self).state_spec() is LibraryDate) ==> final(self).doc_update_time_spec() == old(self).doc_update_time_spec(),
            !(old(self).state_spec() is MemberBase) ==> final(self).dataset_name_spec() == old(self).dataset_name_spec() && final(self).library_spec() == old(self).library_spec(),
            !(old(self).state_spec() is MemberDate) ==> final(self).lib_update_time_spec() == old(self).lib_update_time_spec(),
            !(old(self).state_spec() is Namestr) && !(old(self).state_spec() is NamestrCard)
                ==> final(self).with_long_label_spec() == old(self).with_long_label_spec(),
            !(old(self).state_spec() is LabelCard) ==> final(self).label_records_spec() == old(self).label_records_spec(),
            !(old(self).state_spec() is LabelCard) && !(old(self).state_spec() is LabelLabel)
                ==> final(self).labels_done_spec() == old(self).labels_done_spec() && final(self).left_blank_spec() == old(self).left_blank_spec(),
            !(old(self).state_spec() is LabelLen) ==> final(self).pending_idx_spec() == old(self).pending_idx_spec() && final(self).pending_name_len_spec() == old(self).pending_name_len_spec() && final(self).pending_label_len_spec() == old(self).pending_label_len_spec(),
            ({
                let codec = old(self).codec_spec();
                match old(self).state_spec() {
                    AsmState::LibraryCard => {
                        let p = DocumentHeader::parse_spec(card_title(chunk@), card_body(chunk@));
                        &&& (r is Ok <==> p is Some)
                        &&& (p matches Some(v) ==> final(self).version_spec() == Some(v) && final(self).state_spec() is LibraryBase)
                    },
                    AsmState::LibraryBase => {
                        &&& (r is Ok <==> decodes(codec, chunk@.subrange(24, 32)) && decodes(
                            codec,
                            chunk@.subrange(32, 40),
                        ))
                        &&& (r is Ok ==> final(self).doc_version_spec() == decoded_text(
                            codec,
                            chunk@.subrange(24, 32),
                        ) && final(self).operation_system_spec() == decoded_text(
                            codec,
                            chunk@.subrange(32, 40),
                        ) && final(self).state_spec() is LibraryDate && final(self).version_spec()
                            == old(self).version_spec())
                    },
                    AsmState::LibraryDate => {
                        &&& (r is Ok <==> utf8_of(chunk@) is Some)
                        &&& (r is Ok ==> final(self).doc_update_time_spec() == utf8_of(
                            chunk@,
                        )->Some_0 && final(self).state_spec() is MemberCard && final(self).version_spec() == old(self).version_spec())
                    },
                    AsmState::MemberCard => {
                        let t = card_title(chunk@);
                        let b = card_body(chunk@);
                        let v = ver_of(old(self).version_spec());
                        let ok = t == (match v {
                            DocumentHeader::V5 => spec_title_member(),
                            DocumentHeader::V8 => spec_title_membv8(),
                        }) && member_body_ok(b) && member_body_val(b) >= Self::mml_floor(v);
                        &&& (r is Ok <==> ok)
                        &&& (r is Ok ==> final(self).member_meta_length_spec() == member_body_val(
                            b,
                        ) && final(self).state_spec() is MemberDescriptor && final(self).version_spec() == old(self).version_spec())
                    },
                    AsmState::MemberDescriptor => {
                        &&& r is Ok
                        &&& final(self).state_spec() is MemberBase
                        &&& final(self).version_spec() == old(self).version_spec()
                        &&& final(self).member_meta_length_spec() == old(self).member_meta_length_spec()
                    },
                    AsmState::MemberBase => {
                        &&& (r is Ok <==> decodes(codec, chunk@.subrange(24, 32)) && decodes(
                            codec,
                            chunk@.subrange(8, 16),
                        ))
                        &&& (r is Ok ==> final(self).dataset_name_spec() == decoded_text(
                            codec,
                            chunk@.subrange(24, 32),
                        ) && final(self).library_spec() == decoded_text(
                            codec,
                            chunk@.subrange(8, 16),
                        ) && final(self).state_spec() is MemberDate && final(self).version_spec()
                            == old(self).version_spec())
                    },
                    AsmState::MemberDate => {
                        &&& (r is Ok <==> utf8_of(chunk@) is Some)
                        &&& (r is Ok ==> final(self).lib_update_time_spec() == utf8_of(
                            chunk@,
                        )->Some_0 && final(self).state_spec() is NamestrCard && final(self).version_spec() == old(self).version_spec())
                    },
                    AsmState::NamestrCard => {
                        let t = card_title(chunk@);
                        let b = card_body(chunk@);
                        let v = ver_of(old(self).version_spec());
                        let ok = t == (match v {
                            DocumentHeader::V5 => spec_title_namestr(),
                            DocumentHeader::V8 => spec_title_namstv8(),
                        }) && namestr_body_ok(b);
                        &&& (r is Ok <==> ok)
                        &&& (r is Ok ==> final(self).column_count_spec() == namestr_body_val(b)
                            && final(self).columns_spec() == old(self).columns_spec() && final(self).version_spec() == old(self).version_spec() && final(self).with_long_label_spec()
                            == false && (namestr_body_val(b) > 0
                            ==> final(self).state_spec() is Namestr) && (namestr_body_val(b) == 0
                            ==> post_namestr_state(v, false, final(self).state_spec())))
                    },
                    AsmState::Namestr => {
                        let v = ver_of(old(self).version_spec());
                        let endpos = be_u32_at(chunk@, 84) + be_u16_at(chunk@, 4);
                        &&& (r is Ok <==> namestr_acceptable(codec, v, chunk@))
                        &&& (r is Ok ==> {
                            &&& final(self).columns_spec().len() == old(self).columns_spec().len()
                                + 1
                            &&& final(self).columns_spec().drop_last() == old(self).columns_spec()
                            &&& column_from_namestr(
                                codec,
                                v,
                                chunk@,
                                final(self).columns_spec().last(),
                            )
                            &&& final(self).line_length_spec() == (if old(self).line_length_spec()
                                >= endpos {
                                old(self).line_length_spec() as int
                            } else {
                                endpos
                            })
                            &&& final(self).version_spec() == old(self).version_spec()
                            &&& final(self).column_count_spec() == old(self).column_count_spec()
                            &&& (v is V8 ==> final(self).with_long_label_spec() == (old(self).with_long_label_spec() || be_u16_at(chunk@, 120) > 40))
                            &&& (old(self).columns_spec().len() + 1 < old(self).column_count_spec() ==> final(self).state_spec() is Namestr)
                            &&& (old(self).columns_spec().len() + 1 == old(self).column_count_spec() ==> ((old(self).member_meta_length_spec() * old(self).column_count_spec()) % 80 != 0 ==> final(self).state_spec() is NamestrPad) && ((old(self).member_meta_length_spec()
                                * old(self).column_count_spec()) % 80 == 0 ==> post_namestr_state(
                                v,
                                final(self).with_long_label_spec(),
                                final(self).state_spec(),
                            )))
                        })
                    },
                    AsmState::NamestrPad => {
                        &&& r is Ok
                        &&& post_namestr_state(
                            ver_of(old(self).version_spec()),
                            old(self).with_long_label_spec(),
                            final(self).state_spec(),
                        )
                        &&& final(self).columns_spec() == old(self).columns_spec()
                    },
                    AsmState::ObsCardV5 => {
                        &&& r is Ok
                        &&& final(self).state_spec() is Done
                        &&& final(self).observations_spec() == old(self).observations_spec()
                        &&& final(self).columns_spec() == old(self).columns_spec()
                    },
                    AsmState::LabelCard => {
                        let p = V8LabelStrTitleHeader::parse_spec(
                            card_title(chunk@),
                            card_body(chunk@),
                        );
                        &&& (r is Ok <==> p is Some)
                        &&& (p matches Some(h) ==> final(self).label_records_spec() == h.0 && (h.0
                            > 0 ==> final(self).state_spec() is LabelLen) && (h.0 == 0 ==> final(self).state_spec() is ObsCardV8) && final(self).columns_spec() == old(self).columns_spec() && final(self).labels_done_spec() == 0 && final(self).left_blank_spec() == 0)
                    },
                    AsmState::LabelLen => {
                        let var = be_u16_at(chunk@, 0);
                        let ok = exists|i: int|
                            0 <= i < old(self).columns_spec().len() && old(self).columns_spec()[i].var_count == var;
                        &&& (r is Ok <==> ok)
                        &&& (r is Ok ==> final(self).state_spec() is LabelName && final(self).pending_name_len_spec() == be_u16_at(chunk@, 2) && final(self).pending_label_len_spec() == be_u16_at(chunk@, 4) && 0 <= final(self).pending_idx_spec() < old(self).columns_spec().len() && old(self).columns_spec()[final(self).pending_idx_spec()].var_count == var && (forall|j: int| 0 <= j < final(self).pending_idx_spec() ==> old(self).columns_spec()[j].var_count != var) && final(self).columns_spec() == old(self).columns_spec())
                    },
                    AsmState::LabelName => {
                        let i = old(self).pending_idx_spec();
                        &&& (r is Ok <==> decodes(codec, chunk@))
                        &&& (r is Ok ==> {
                            &&& final(self).state_spec() is LabelLabel
                            &&& final(self).columns_spec().len() == old(self).columns_spec().len()
                            &&& (forall|j: int|
                                0 <= j < old(self).columns_spec().len() && j != i ==> final(self).columns_spec()[j] == old(self).columns_spec()[j])
                            &&& final(self).columns_spec()[i].name@ == decoded_text(codec, chunk@)
                            &&& final(self).columns_spec()[i].label == old(self).columns_spec()[i].label
                            &&& final(self).columns_spec()[i].column_type == old(self).columns_spec()[i].column_type
                            &&& final(self).columns_spec()[i].length == old(self).columns_spec()[i].length
                            &&& final(self).columns_spec()[i].var_count == old(self).columns_spec()[i].var_count
                            &&& final(self).columns_spec()[i].offset == old(self).columns_spec()[i].offset
                            &&& final(self).columns_spec()[i].format == old(self).columns_spec()[i].format
                            &&& final(self).columns_spec()[i].in_format == old(self).columns_spec()[i].in_format
                            &&& final(self).pending_idx_spec() == i
                        })
                    },
                    AsmState::LabelLabel => {
                        let i = old(self).pending_idx_spec();
                        &&& (r is Ok <==> decodes(codec, chunk@))
                        &&& (r is Ok ==> {
                            &&& final(self).columns_spec().len() == old(self).columns_spec().len()
                            &&& (forall|j: int|
                                0 <= j < old(self).columns_spec().len() && j != i ==> final(self).columns_spec()[j] == old(self).columns_spec()[j])
                            &&& final(self).columns_spec()[i].label@ == decoded_text(codec, chunk@)
                            &&& final(self).columns_spec()[i].name == old(self).columns_spec()[i].name
                            &&& final(self).columns_spec()[i].column_type == old(self).columns_spec()[i].column_type
                            &&& final(self).columns_spec()[i].length == old(self).columns_spec()[i].length
                            &&& final(self).columns_spec()[i].var_count == old(self).columns_spec()[i].var_count
                            &&& final(self).columns_spec()[i].offset == old(self).columns_spec()[i].offset
                            &&& final(self).columns_spec()[i].format == old(self).columns_spec()[i].format
                            &&& final(self).columns_spec()[i].in_format == old(self).columns_spec()[i].in_format
                            &&& final(self).labels_done_spec() == old(self).labels_done_spec() + 1
                            &&& final(self).left_blank_spec() == ((old(self).left_blank_spec() + 6
                                + old(self).pending_name_len_spec() + old(self).pending_label_len_spec()) % 80)
                            &&& (old(self).labels_done_spec() + 1 < old(self).label_records_spec() ==> final(self).state_spec() is LabelLen)
                            &&& (old(self).labels_done_spec() + 1 == old(self).label_records_spec() ==> ((old(self).left_blank_spec() + 6 + old(self).pending_name_len_spec() + old(self).pending_label_len_spec()) % 80
                                != 0 ==> final(self).state_spec() is LabelPad) && ((old(self).left_blank_spec() + 6 + old(self).pending_name_len_spec() + old(self).pending_label_len_spec()) % 80 == 0 ==> final(self).state_spec() is ObsCardV8))
                        })
                    },
                    AsmState::LabelPad => {
                        &&& r is Ok
                        &&& final(self).state_spec() is ObsCardV8
                        &&& final(self).columns_spec() == old(self).columns_spec()
                    },
                    AsmState::ObsCardV8 => {
                        let p = V8ObsHeaderRecord::parse_spec(card_title(chunk@), card_body(chunk@));
                        &&& (r is Ok <==> p is Some)
                        &&& (p matches Some(h) ==> final(self).observations_spec() == h.0 && final(self).state_spec() is Done && final(self).columns_spec() == old(self).columns_spec())
                    },
                    AsmState::Done => true,
                    AsmState::Failed => true,
                }
            }),
    {
        self.pos = Ghost(self.pos@ + chunk@.len());
        match self.state {
            AsmState::LibraryCard => {
                match DocumentHeader::new(chunk) {
                    Ok(v) => {
                        self.version = Some(v);
                        self.state = AsmState::LibraryBase;
                        Ok(())
                    },
                    Err(e) => {
                        self.state = AsmState::Failed;
                        Err(e)
                    },
                }
            },
            AsmState::LibraryBase => {
                let base = DocumentBase::from_bytes(chunk);
                let dv = match decode_text(self.codec, base.version.as_slice()) {
                    Ok(s) => s,
                    Err(e) => {
                        self.state = AsmState::Failed;
                        return Err(e);
                    },
                };
                let os = match decode_text(self.codec, base.operation_system.as_slice()) {
                    Ok(s) => s,
                    Err(e) => {
                        self.state = AsmState::Failed;
                        return Err(e);
                    },
                };
                self.doc_version = dv;
                self.operation_system = os;
                self.state = AsmState::LibraryDate;
                Ok(())
            },
            AsmState::LibraryDate => {
                match decode_utf8_raw(chunk) {
                    Ok(s) => {
                        self.doc_update_time = s;
                        self.state = AsmState::MemberCard;
                        Ok(())
                    },
                    Err(e) => {
                        self.state = AsmState::Failed;
                        Err(e)
                    },
                }
            },
            AsmState::MemberCard => {
                let mml: u16 = match self.version {
                    Some(DocumentHeader::V5) => {
                        match V5MemberTitleHeader::new(chunk) {
                            Ok(h) => h.0,
                            Err(e) => {
                                self.state = AsmState::Failed;
                                return Err(e);
                            },
                        }
                    },
                    Some(DocumentHeader::V8) => {
                        match V8MemberTitleHeader::new(chunk) {
                            Ok(h) => h.0,
                            Err(e) => {
                                self.state = AsmState::Failed;
                                return Err(e);
                            },
                        }
                    },
                    None => {
                        self.state = AsmState::Failed;
                        return Err(XPTError::ParseError(lossy_text(chunk)));
                    },
                };
                let floor: u16 = match self.version {
                    Some(DocumentHeader::V8) => 122,
                    _ => 88,
                };
                if mml < floor {
                    self.state = AsmState::Failed;
                    return Err(XPTError::ParseError(lossy_text(chunk)));
                }
                self.member_meta_length = mml;
                self.state = AsmState::MemberDescriptor;
                Ok(())
            },
            AsmState::MemberDescriptor => {
                self.state = AsmState::MemberBase;
                Ok(())
            },
            AsmState::MemberBase => {
                let base = DocumentBase::from_bytes(chunk);
                let ds = match decode_text(self.codec, base.version.as_slice()) {
                    Ok(s) => s,
                    Err(e) => {
                        self.state = AsmState::Failed;
                        return Err(e);
                    },
                };
                let lib = match decode_text(self.codec, base.dataset_name.as_slice()) {
                    Ok(s) => s,
                    Err(e) => {
                        self.state = AsmState::Failed;
                        return Err(e);
                    },
                };
                self.dataset_name = ds;
                self.library = lib;
                self.state = AsmState::MemberDate;
                Ok(())
            },
            AsmState::MemberDate => {
                match decode_utf8_raw(chunk) {
                    Ok(s) => {
                        self.lib_update_time = s;
                        self.state = AsmState::NamestrCard;
                        Ok(())
                    },
                    Err(e) => {
                        self.state = AsmState::Failed;
                        Err(e)
                    },
                }
            },
            AsmState::NamestrCard => {
                let count: u16 = match self.version {
                    Some(DocumentHeader::V5) => {
                        match V5NameStrTitleHeader::new(chunk) {
                            Ok(h) => h.0,
                            Err(e) => {
                                self.state = AsmState::Failed;
                                return Err(e);
                            },
                        }
                    },
                    Some(DocumentHeader::V8) => {
                        match V8NameStrTitleHeader::new(chunk) {
                            Ok(h) => h.0,
                            Err(e) => {
                                self.state = AsmState::Failed;
                                return Err(e);
                            },
                        }
                    },
                    None => {
                        self.state = AsmState::Failed;
                        return Err(XPTError::ParseError(lossy_text(chunk)));
                    },
                };
                self.column_count = count;
                self.columns_read = 0;
                self.with_long_label = false;
                if count > 0 {
                    self.state = AsmState::Namestr;
                } else {
                    self.enter_post_namestr();
                }
                Ok(())
            },
            AsmState::Namestr => {
                let outcome = self.take_namestr(chunk);
                outcome
            },
            AsmState::NamestrPad => {
                self.enter_post_namestr();
                Ok(())
            },
            AsmState::ObsCardV5 => {
                proof {
                    lemma_add_aligned80(old(self).pos@, 80);
                }
                self.state = AsmState::Done;
                Ok(())
            },
            AsmState::LabelCard => {
                match V8LabelStrTitleHeader::new(chunk) {
                    Ok(h) => {
                        proof {
                            lemma_add_aligned80(old(self).pos@, 80);
                        }
                        self.label_records = h.0;
                        self.labels_done = 0;
                        self.left_blank = 0;
                        if h.0 > 0 {
                            self.state = AsmState::LabelLen;
                        } else {
                            self.state = AsmState::ObsCardV8;
                        }
                        Ok(())
                    },
                    Err(e) => {
                        self.state = AsmState::Failed;
                        Err(e)
                    },
                }
            },
            AsmState::LabelLen => {
                let var = read_u16_be(chunk, 0);
                let nl = read_u16_be(chunk, 2);
                let ll = read_u16_be(chunk, 4);
                let n = self.columns.len();
                let mut i: usize = 0;
                while i < n && self.columns[i].var_count != var
                    invariant
                        0 <= i <= n,
                        n == self.columns@.len(),
                        forall|j: int| 0 <= j < i ==> self.columns@[j].var_count != var,
                    decreases n - i,
                {
                    i = i + 1;
                }
                if i == n {
                    self.state = AsmState::Failed;
                    return Err(XPTError::ParseError(lossy_text(chunk)));
                }
                proof {
                    lemma_mod_shift80(old(self).pos@, 6);
                }
                self.pending_idx = i;
                self.pending_name_len = nl;
                self.pending_label_len = ll;
                self.state = AsmState::LabelName;
                Ok(())
            },
            AsmState::LabelName => {
                match decode_text(self.codec, chunk) {
                    Ok(s) => {
                        proof {
                            lemma_mod_shift80(old(self).pos@, self.pending_name_len as nat);
                            lemma_mod_shift80(
                                (self.left_blank + 6) as nat,
                                self.pending_name_len as nat,
                            );
                        }
                        let idx = self.pending_idx;
                        self.columns[idx].name = s;
                        self.state = AsmState::LabelLabel;
                        Ok(())
                    },
                    Err(e) => {
                        self.state = AsmState::Failed;
                        Err(e)
                    },
                }
            },
            AsmState::LabelLabel => {
                match decode_text(self.codec, chunk) {
                    Ok(s) => {
                        proof {
                            lemma_mod_shift80(old(self).pos@, self.pending_label_len as nat);
                            lemma_mod_shift80(
                                (self.left_blank + 6 + self.pending_name_len) as nat,
                                self.pending_label_len as nat,
                            );
                        }
                        let idx = self.pending_idx;
                        self.columns[idx].label = s;
                        let sum: u32 = self.left_blank as u32 + 6 + self.pending_name_len as u32
                            + self.pending_label_len as u32;
                        let lb: u16 = (sum % 80) as u16;
                        self.left_blank = lb;
                        self.labels_done = self.labels_done + 1;
                        if self.labels_done < self.label_records {
                            self.state = AsmState::LabelLen;
                        } else if lb > 0 {
                            self.pad = 80 - lb;
                            proof {
                                lemma_pad_to_boundary80(self.pos@, lb as nat);
                            }
                            self.state = AsmState::LabelPad;
                        } else {
                            self.state = AsmState::ObsCardV8;
                        }
                        Ok(())
                    },
                    Err(e) => {
                        self.state = AsmState::Failed;
                        Err(e)
                    },
                }
            },
            AsmState::LabelPad => {
                self.state = AsmState::ObsCardV8;
                Ok(())
            },
            AsmState::ObsCardV8 => {
                match V8ObsHeaderRecord::new(chunk) {
                    Ok(h) => {
                        proof {
                            lemma_add_aligned80(old(self).pos@, 80);
                        }
                        self.observations = h.0;
                        self.state = AsmState::Done;
                        Ok(())
                    },
                    Err(e) => {
                        self.state = AsmState::Failed;
                        Err(e)
                    },
                }
            },
            AsmState::Done => Ok(()),
            AsmState::Failed => Ok(()),
        }
    }

    /// Enter the section that follows an aligned namestr section.
    fn enter_post_namestr(&mut self)
        requires
            old(self).version_spec() is Some,
        ensures
            *final(self) == (Reader { state: final(self).state, ..*old(self) }),
            post_namestr_state(
                ver_of(old(self).version_spec()),
                old(self).with_long_label_spec(),
                final(self).state_spec(),
            ),
    {
        match self.version {
            Some(DocumentHeader::V5) => {
                self.state = AsmState::ObsCardV5;
            },
            Some(DocumentHeader::V8) => {
                if self.with_long_label {
                    self.state = AsmState::LabelCard;
                } else {
                    self.state = AsmState::ObsCardV8;
                }
            },
            None => {
                self.state = AsmState::Failed;
            },
        }
    }
}

impl Reader {
    /// Consume one namestr record: decode its fields, append the column,
    /// and widen the observation-row length.  The position has already
    /// been advanced past the record.
    fn take_namestr(&mut self, chunk: &[u8]) -> (r: Result<(), XPTError>)
        requires
            old(self).state_spec() is Namestr,
            old(self).mml_ok(),
            old(self).columns_spec().len() == old(self).columns_read,
            old(self).columns_read < old(self).column_count_spec(),
            cols_wf(old(self).columns_spec(), old(self).line_length_spec()),
            chunk@.len() == old(self).member_meta_length_spec(),
            old(self).position() == 640 + old(self).columns_read * old(self).member_meta_length_spec() + old(self).member_meta_length_spec(),
        ensures
            final(self).wf(),
            final(self).position() == old(self).position(),
            final(self).codec_spec() == old(self).codec_spec(),
            r is Err ==> final(self).state_spec() is Failed,
            r is Ok ==> !(final(self).state_spec() is Failed),
            final(self).version_spec() == old(self).version_spec(),
            final(self).member_meta_length_spec() == old(self).member_meta_length_spec(),
            final(self).column_count_spec() == old(self).column_count_spec(),
            final(self).observations_spec() == old(self).observations_spec(),
            final(self).doc_version_spec() == old(self).doc_version_spec(),
            final(self).operation_system_spec() == old(self).operation_system_spec(),
            final(self).doc_update_time_spec() == old(self).doc_update_time_spec(),
            final(self).dataset_name_spec() == old(self).dataset_name_spec(),
            final(self).library_spec() == old(self).library_spec(),
            final(self).lib_update_time_spec() == old(self).lib_update_time_spec(),
            final(self).label_records_spec() == old(self).label_records_spec(),
            final(self).labels_done_spec() == old(self).labels_done_spec(),
            final(self).left_blank_spec() == old(self).left_blank_spec(),
            final(self).pending_idx_spec() == old(self).pending_idx_spec(),
            final(self).pending_name_len_spec() == old(self).pending_name_len_spec(),
            final(self).pending_label_len_spec() == old(self).pending_label_len_spec(),
            ({
                let codec = old(self).codec_spec();
                let v = ver_of(old(self).version_spec());
                let endpos = be_u32_at(chunk@, 84) + be_u16_at(chunk@, 4);
                &&& (r is Ok <==> namestr_acceptable(codec, v, chunk@))
                &&& (r is Ok ==> {
                    &&& final(self).columns_spec().len() == old(self).columns_spec().len() + 1
                    &&& final(self).columns_spec().drop_last() == old(self).columns_spec()
                    &&& column_from_namestr(codec, v, chunk@, final(self).columns_spec().last())
                    &&& final(self).line_length_spec() == (if old(self).line_length_spec()
                        >= endpos {
                        old(self).line_length_spec() as int
                    } else {
                        endpos
                    })
                    &&& final(self).version_spec() == old(self).version_spec()
                    &&& final(self).column_count_spec() == old(self).column_count_spec()
                    &&& (v is V8 ==> final(self).with_long_label_spec() == (old(self).with_long_label_spec() || be_u16_at(chunk@, 120) > 40))
                    &&& (old(self).columns_spec().len() + 1 < old(self).column_count_spec()
                        ==> final(self).state_spec() is Namestr)
                    &&& (old(self).columns_spec().len() + 1 == old(self).column_count_spec() ==> ((
                    old(self).member_meta_length_spec() * old(self).column_count_spec()) % 80 != 0
                        ==> final(self).state_spec() is NamestrPad) && ((old(self).member_meta_length_spec() * old(self).column_count_spec()) % 80 == 0
                        ==> post_namestr_state(
                        v,
                        final(self).with_long_label_spec(),
                        final(self).state_spec(),
                    )))
                })
            }),
    {
        let ghost k0 = old(self).columns_read as nat;
        let ghost m0 = old(self).member_meta_length_spec() as nat;
        let ghost c0 = old(self).column_count_spec() as nat;
        let v8 = match self.version {
            Some(DocumentHeader::V8) => true,
            _ => false,
        };
        let col: ColumnMeta;
        if !v8 {
            let st = V5NameSt::from_bytes(chunk);
            if st.ntype != 2 && st.nlng > 8 {
                self.state = AsmState::Failed;
                return Err(XPTError::ParseError(lossy_text(chunk)));
            }
            let sum: u64 = st.npos as u64 + st.nlng as u64;
            if sum > 0xffffffffu64 {
                self.state = AsmState::Failed;
                return Err(XPTError::ParseError(lossy_text(chunk)));
            }
            col = match ColumnMeta::from_v5(&st, self.codec) {
                Ok(c) => c,
                Err(e) => {
                    self.state = AsmState::Failed;
                    return Err(e);
                },
            };
            let end: u32 = sum as u32;
            if end > self.line_length {
                self.line_length = end;
            }
        } else {
            let st = V8NameSt::from_bytes(chunk);
            if st.ntype != 2 && st.nlng > 8 {
                self.state = AsmState::Failed;
                return Err(XPTError::ParseError(lossy_text(chunk)));
            }
            let sum: u64 = st.npos as u64 + st.nlng as u64;
            if sum > 0xffffffffu64 {
                self.state = AsmState::Failed;
                return Err(XPTError::ParseError(lossy_text(chunk)));
            }
            col = match ColumnMeta::from_v8(&st, self.codec) {
                Ok(c) => c,
                Err(e) => {
                    self.state = AsmState::Failed;
                    return Err(e);
                },
            };
            if st.lablen > 40 {
                self.with_long_label = true;
            }
            let end: u32 = sum as u32;
            if end > self.line_length {
                self.line_length = end;
            }
        }
        self.columns.push(col);
        self.columns_read = self.columns_read + 1;
        if self.columns_read < self.column_count {
            proof {
                assert((k0 + 1) * m0 == k0 * m0 + m0) by (nonlinear_arith);
            }
            self.state = AsmState::Namestr;
        } else {
            proof {
                assert(m0 * c0 <= 65535 * 65535) by (nonlinear_arith)
                    requires
                        m0 <= 65535,
                        c0 <= 65535,
                ;
            }
            let rem: u32 = ((self.member_meta_length as u64) * (self.column_count as u64) % 80)
                as u32;
            proof {
                lemma_mod_shift80(
                    640,
                    (old(self).column_count_spec() * old(self).member_meta_length_spec()) as nat,
                );
                assert((k0 + 1) * m0 == k0 * m0 + m0) by (nonlinear_arith);
                assert(c0 * m0 == m0 * c0) by (nonlinear_arith);
            }
            if rem > 0 {
                self.pad = (80 - rem) as u16;
                proof {
                    lemma_pad_to_boundary80(self.pos@, rem as nat);
                }
                self.state = AsmState::NamestrPad;
            } else {
                self.enter_post_namestr();
            }
        }
        Ok(())
    }
}

/// Sort columns by their ordinal, keeping exactly the same collection of
/// columns.
fn sort_columns(input: Vec<ColumnMeta>) -> (r: Vec<ColumnMeta>)
    ensures
        r@.len() == input@.len(),
        r@.to_multiset() == input@.to_multiset(),
        sorted_by_var(r@),
{
    broadcast use vstd::seq_lib::group_to_multiset_ensures;

    let mut v = input;
    let mut out: Vec<ColumnMeta> = Vec::new();
    let ghost orig = v@;
    while v.len() > 0
        invariant
            out@.to_multiset().add(v@.to_multiset()) == orig.to_multiset(),
            out@.len() + v@.len() == orig.len(),
            sorted_by_var(out@),
            forall|i: int, j: int|
                0 <= i < out@.len() && 0 <= j < v@.len() ==> out@[i].var_count <= v@[j].var_count,
        decreases v@.len(),
    {
        broadcast use vstd::seq_lib::group_to_multiset_ensures;

        let n = v.len();
        let mut mi: usize = 0;
        let mut k: usize = 1;
        while k < n
            invariant
                n == v@.len(),
                0 <= mi < k <= n,
                forall|j: int| 0 <= j < k ==> v@[mi as int].var_count <= v@[j].var_count,
            decreases n - k,
        {
            if v[k].var_count < v[mi].var_count {
                mi = k;
            }
            k = k + 1;
        }
        let ghost pre = v@;
        let ghost preout = out@;
        let c = v.remove(mi);
        out.push(c);
        proof {
            assert(out@.to_multiset() =~= preout.to_multiset().insert(c));
            assert(pre.to_multiset() =~= v@.to_multiset().insert(c));
            assert(out@.to_multiset().add(v@.to_multiset()) =~= orig.to_multiset());
            assert forall|j: int| 0 <= j < v@.len() implies c.var_count <= v@[j].var_count by {
                if j < mi {
                    assert(v@[j] == pre[j]);
                } else {
                    assert(v@[j] == pre[j + 1]);
                }
            }
        }
    }
    out
}

/// A bound shared by every column survives any reordering that keeps the
/// same collection of columns.
proof fn lemma_perm_preserves_cols_wf(a: Seq<ColumnMeta>, b: Seq<ColumnMeta>, ll: u32)
    requires
        a.to_multiset() == b.to_multiset(),
        cols_wf(a, ll),
    ensures
        cols_wf(b, ll),
{
    broadcast use vstd::seq_lib::group_to_multiset_ensures;

    assert forall|i: int|
        0 <= i < b.len() implies (b[i].offset + b[i].length <= ll && (
    b[i].column_type is NUMERIC ==> b[i].length <= 8)) by {
        assert(b.to_multiset().count(b[i]) > 0);
        assert(a.contains(b[i]));
    }
}

impl Reader {
    /// Finish the assembly: sort the columns by ordinal, build the row
    /// projection table, and hand out the row reader and the metadata.
    pub fn finish(self) -> (r: (RawReader, DocumentMeta))
        requires
            self.wf(),
            self.state_spec() is Done,
        ensures
            r.1.columns@.len() == self.column_count_spec(),
            r.1.columns@.to_multiset() == self.columns_spec().to_multiset(),
            sorted_by_var(r.1.columns@),
            self.version_spec() == Some(r.1.version),
            r.1.doc_version@ == self.doc_version_spec(),
            r.1.operation_system@ == self.operation_system_spec(),
            r.1.doc_update_time@ == self.doc_update_time_spec(),
            r.1.dataset_name@ == self.dataset_name_spec(),
            r.1.lib_update_time@ == self.lib_update_time_spec(),
            r.1.library@ == self.library_spec(),
            r.1.member_meta_length == self.member_meta_length_spec(),
            r.0.wf(),
            r.0.line_length_spec() == self.line_length_spec(),
            r.0.rows_read() == 0,
            r.0.observations_spec() == self.observations_spec(),
            r.0.codec_spec() == self.codec_spec(),
            r.0.plan_spec().len() == r.1.columns@.len(),
            forall|i: int|
                0 <= i < r.1.columns@.len() ==> plan_matches_column(
                    r.0.plan_spec()[i],
                    r.1.columns@[i],
                ),
    {
        let version = match self.version {
            Some(v) => v,
            None => DocumentHeader::V5,
        };
        let ghost precols = self.columns@;
        let line_length = self.line_length;
        let sorted = sort_columns(self.columns);
        proof {
            lemma_perm_preserves_cols_wf(precols, sorted@, line_length);
        }
        let mut plan: Vec<(u32, u16, u16)> = Vec::new();
        let mut i: usize = 0;
        let n = sorted.len();
        while i < n
            invariant
                0 <= i <= n,
                n == sorted@.len(),
                cols_wf(sorted@, line_length),
                plan@.len() == i,
                forall|j: int| 0 <= j < i ==> plan_matches_column(plan@[j], sorted@[j]),
                forall|j: int|
                    0 <= j < i ==> (plan@[j].0 + plan@[j].1 <= line_length && (plan@[j].2 == 1
                        ==> plan@[j].1 <= 8)),
            decreases n - i,
        {
            let off = sorted[i].offset;
            let len = sorted[i].length;
            let code: u16 = match sorted[i].column_type {
                ColumnType::CHAR => 2,
                ColumnType::NUMERIC => 1,
            };
            plan.push((off, len, code));
            i = i + 1;
        }
        let raw = RawReader::new(plan, line_length, self.observations, self.codec);
        let meta = DocumentMeta {
            version,
            doc_version: self.doc_version,
            operation_system: self.operation_system,
            doc_update_time: self.doc_update_time,
            dataset_name: self.dataset_name,
            lib_update_time: self.lib_update_time,
            member_meta_length: self.member_meta_length,
            library: self.library,
            columns: sorted,
        };
        (raw, meta)
    }

    /// Assemble a whole header from an in-memory byte slice: feed the
    /// assembler section by section, then finish.  The call succeeds
    /// exactly on data that begins with a well-formed header; on success
    /// the third component is how many bytes the header took, and every
    /// returned field is pinned to the bytes that declared it.
    #[verifier::rlimit(100)]
    #[verifier::spinoff_prover]
    pub fn start(codec: TextCodec, data: &[u8]) -> (r: Result<
        (RawReader, DocumentMeta, usize),
        XPTError,
    >)
        ensures
            r is Ok <==> header_ok(codec, data@),
            r matches Ok(t) ==> ({
                let d = data@;
                let v = ver_of(header_version_of(d));
                let mml = member_len_of(d);
                let count = column_count_of(d);
                &&& Some(t.1.version) == header_version_of(d)
                &&& t.1.member_meta_length == mml
                &&& t.1.columns@.len() == count
                &&& t.1.doc_version@ == decoded_text(codec, d.subrange(104, 112))
                &&& t.1.operation_system@ == decoded_text(codec, d.subrange(112, 120))
                &&& t.1.doc_update_time@ == utf8_of(d.subrange(160, 240))->Some_0
                &&& t.1.dataset_name@ == decoded_text(codec, d.subrange(424, 432))
                &&& t.1.library@ == decoded_text(codec, d.subrange(408, 416))
                &&& t.1.lib_update_time@ == utf8_of(d.subrange(480, 560))->Some_0
                &&& t.0.line_length_spec() == max_end(d, mml, count as int)
                &&& t.0.observations_spec() == header_observations(d, v, mml, count)
                &&& t.2 == header_len_of(d, v, mml, count)
                &&& t.2 <= d.len()
                &&& t.2 % 80 == 0
                &&& (exists|cols0: Seq<ColumnMeta>, cols1: Seq<ColumnMeta>|
                    {
                        &&& #[trigger] columns_match(codec, v, d, mml, count as int, cols0)
                        &&& (if v is V8 && long_in(d, mml, count as int) {
                            lrecs_patch(
                                codec,
                                d,
                                post_namestr_at(mml, count) + 80,
                                label_count_of(d, post_namestr_at(mml, count))->Some_0 as nat,
                                cols0,
                                cols1,
                            )
                        } else {
                            cols1 == cols0
                        })
                        &&& t.1.columns@.to_multiset() == #[trigger] cols1.to_multiset()
                    })
                &&& sorted_by_var(t.1.columns@)
                &&& t.0.wf()
                &&& t.0.rows_read() == 0
                &&& t.0.codec_spec() == codec
                &&& t.0.plan_spec().len() == t.1.columns@.len()
                &&& (forall|i: int|
                    0 <= i < t.1.columns@.len() ==> plan_matches_column(
                        t.0.plan_spec()[i],
                        t.1.columns@[i],
                    ))
            }),
    {
        let ghost d = data@;
        let mut rdr = Reader::new(codec);
        let mut used: usize = 0;
        let ghost mut c0: Seq<ColumnMeta> = Seq::empty();
        let ghost mut cm: Seq<ColumnMeta> = Seq::empty();
        while !rdr.is_done()
            invariant
                rdr.wf(),
                !(rdr.state_spec() is Failed),
                used as nat == rdr.position(),
                used <= data@.len(),
                rdr.codec_spec() == codec,
                d == data@,
                inv_track(codec, rdr, d, used as int, c0, cm),
            decreases data@.len() - used, rdr.rank(),
        {
            let ghost v = ver_of(header_version_of(d));
            let ghost mml = member_len_of(d);
            let ghost count = column_count_of(d);
            let ghost p = post_namestr_at(mml, count);
            let ghost ls = p + 80;
            let ghost m = rdr.labels_done_spec() as nat;
            let ghost kk = rdr.label_records_spec() as nat;
            let ghost o = labels_end(d, ls, m);
            let n = rdr.needed();
            if n > data.len() - used {
                proof {
                    if header_ok(codec, d) {
                        match rdr.state_spec() {
                            AsmState::Namestr => {
                                let k = rdr.columns_spec().len() as int;
                                assert((k + 1) * mml <= count * mml) by (nonlinear_arith)
                                    requires
                                        0 <= k + 1 <= count,
                                ;
                                assert((k + 1) * mml == k * mml + mml) by (nonlinear_arith);
                            },
                            AsmState::LabelLen => {
                                assert(lrec_ok(codec, d, mml, count, o));
                            },
                            AsmState::LabelName => {
                                assert(lrec_ok(codec, d, mml, count, o));
                            },
                            AsmState::LabelLabel => {
                                assert(lrec_ok(codec, d, mml, count, o));
                            },
                            AsmState::LabelCard => {
                                lemma_labels_end_mono(d, ls, label_count_of(d, p)->Some_0 as nat);
                            },
                            _ => {},
                        }
                        assert(false);
                    }
                }
                return Err(XPTError::DecodeError(end_of_input_message()));
            }
            let chunk = slice_subrange(data, used, used + n);
            let ghost pre = rdr;
            let res = rdr.feed(chunk);
            proof {
                match pre.state_spec() {
                    AsmState::LibraryCard => {
                        assert(chunk@ =~= card_at(d, 0));
                    },
                    AsmState::LibraryBase => {
                        assert(chunk@.subrange(24, 32) =~= d.subrange(104, 112));
                        assert(chunk@.subrange(32, 40) =~= d.subrange(112, 120));
                    },
                    AsmState::LibraryDate => {
                        assert(chunk@ =~= d.subrange(160, 240));
                    },
                    AsmState::MemberCard => {
                        assert(chunk@ =~= card_at(d, 240));
                    },
                    AsmState::MemberBase => {
                        assert(chunk@.subrange(24, 32) =~= d.subrange(424, 432));
                        assert(chunk@.subrange(8, 16) =~= d.subrange(408, 416));
                    },
                    AsmState::MemberDate => {
                        assert(chunk@ =~= d.subrange(480, 560));
                    },
                    AsmState::NamestrCard => {
                        assert(chunk@ =~= card_at(d, 560));
                    },
                    AsmState::Namestr => {
                        let k = pre.columns_spec().len() as int;
                        assert((k + 1) * mml == k * mml + mml) by (nonlinear_arith);
                        assert(chunk@ =~= rec_at(d, mml, k));
                    },
                    AsmState::LabelCard => {
                        assert(chunk@ =~= card_at(d, p));
                    },
                    AsmState::LabelLen => {
                        assert(chunk@ =~= d.subrange(o, o + 6));
                        assert(be_u16_at(chunk@, 0) == be_u16_at(d, o));
                        assert(be_u16_at(chunk@, 2) == be_u16_at(d, o + 2));
                        assert(be_u16_at(chunk@, 4) == be_u16_at(d, o + 4));
                    },
                    AsmState::LabelName => {
                        assert(chunk@ =~= d.subrange(o + 6, o + 6 + be_u16_at(d, o + 2)));
                    },
                    AsmState::LabelLabel => {
                        assert(chunk@ =~= d.subrange(
                            o + 6 + be_u16_at(d, o + 2),
                            o + lrec_size(d, o),
                        ));
                    },
                    AsmState::ObsCardV8 => {
                        assert(chunk@ =~= card_at(d, used as int));
                    },
                    _ => {},
                }
            }
            match res {
                Ok(()) => {},
                Err(e) => {
                    proof {
                        if header_ok(codec, d) {
                            match pre.state_spec() {
                                AsmState::Namestr => {
                                    let k = pre.columns_spec().len() as int;
                                    assert(namestr_acceptable(codec, v, rec_at(d, mml, k)));
                                },
                                AsmState::LabelLen => {
                                    assert(lrec_ok(codec, d, mml, count, o));
                                    let j = choose|j: int|
                                        0 <= j < count && be_u16_at(
                                            #[trigger] rec_at(d, mml, j),
                                            6,
                                        ) == be_u16_at(d, o);
                                    lemma_lrecs_patch_preserves(
                                        codec,
                                        d,
                                        ls,
                                        m,
                                        c0,
                                        pre.columns_spec(),
                                    );
                                    assert(pre.columns_spec()[j].var_count == be_u16_at(d, o));
                                },
                                AsmState::LabelName => {
                                    assert(lrec_ok(codec, d, mml, count, o));
                                },
                                AsmState::LabelLabel => {
                                    assert(lrec_ok(codec, d, mml, count, o));
                                },
                                _ => {},
                            }
                            assert(false);
                        }
                    }
                    return Err(e);
                },
            }
            used = used + n;
            proof {
                match pre.state_spec() {
                    AsmState::NamestrCard => {
                        assert(0 * mml == 0) by (nonlinear_arith);
                        if count == 0 {
                            assert(!long_in(d, mml, 0));
                            assert(namestr_pad(mml, 0) == 0);
                        }
                    },
                    AsmState::Namestr => {
                        let k = pre.columns_spec().len() as int;
                        assert forall|j: int|
                            0 <= j < k + 1 implies column_from_namestr(
                            codec,
                            v,
                            rec_at(d, mml, j),
                            #[trigger] rdr.columns_spec()[j],
                        ) by {
                            if j < k {
                                assert(rdr.columns_spec().drop_last()[j] == pre.columns_spec()[j]);
                                assert(rdr.columns_spec()[j] == rdr.columns_spec().drop_last()[j]);
                            } else {
                                assert(rdr.columns_spec()[j] == rdr.columns_spec().last());
                                assert(column_from_namestr(codec, v, chunk@, rdr.columns_spec()[j]));
                            }
                        }
                        assert(rec_end(d, mml, k) == be_u32_at(chunk@, 84) + be_u16_at(chunk@, 4));
                        assert(rdr.line_length_spec() == max_end(d, mml, k + 1));
                        lemma_long_in_snoc(d, mml, k);
                        if k + 1 == count {
                            lemma_mod_shift80(640, count * mml);
                            assert(count * mml == mml * count) by (nonlinear_arith);
                            if (mml * count) % 80 != 0 {
                                lemma_pad_determined(rdr.position(), rdr.needed_spec());
                            }
                        }
                    },
                    AsmState::ObsCardV5 => {
                        assert(obs_card_off(d, v, mml, count) == p);
                    },
                    AsmState::LabelCard => {
                        assert(labels_end(d, ls, 0) == ls);
                        if rdr.state_spec() is LabelLen {
                            assert(lrecs_patch(codec, d, ls, 0, rdr.columns_spec(), rdr.columns_spec()));
                        } else {
                            assert(label_pad(d, ls, 0) == 0);
                            assert(lrecs_patch(codec, d, ls, 0, rdr.columns_spec(), rdr.columns_spec()));
                        }
                    },
                    AsmState::LabelLen => {
                        assert(patch_index(
                            rdr.columns_spec(),
                            be_u16_at(d, o),
                            rdr.pending_idx_spec(),
                        ));
                    },
                    AsmState::LabelName => {
                        assert(name_patch(codec, d, o, cm, rdr.columns_spec())) by {
                            assert(patch_index(cm, be_u16_at(d, o), pre.pending_idx_spec()));
                        }
                    },
                    AsmState::LabelLabel => {
                        let ghost mid = pre.columns_spec();
                        lemma_patch_fields(codec, d, o, cm, mid);
                        assert(patch_index(mid, be_u16_at(d, o), pre.pending_idx_spec())) by {
                            assert(mid[pre.pending_idx_spec()].var_count == cm[pre.pending_idx_spec()].var_count);
                            assert forall|j: int|
                                0 <= j < pre.pending_idx_spec() implies mid[j].var_count != be_u16_at(
                                d,
                                o,
                            ) by {
                                assert(mid[j].var_count == cm[j].var_count);
                            }
                        }
                        assert(label_patch(codec, d, o, mid, rdr.columns_spec())) by {
                            assert(patch_index(mid, be_u16_at(d, o), pre.pending_idx_spec()));
                        }
                        assert(lrec_patch(codec, d, o, cm, rdr.columns_spec())) by {
                            assert(name_patch(codec, d, o, cm, mid) && label_patch(
                                codec,
                                d,
                                o,
                                mid,
                                rdr.columns_spec(),
                            ));
                        }
                        lemma_lrecs_patch_snoc(codec, d, ls, m, c0, cm, rdr.columns_spec());
                        lemma_labels_end_snoc(d, ls, m);
                        lemma_labels_end_mono(d, ls, m);
                        assert(labels_end(d, ls, m + 1) == o + lrec_size(d, o));
                        assert(lrec_ok(codec, d, mml, count, o)) by {
                            lemma_lrecs_patch_preserves(codec, d, ls, m, c0, cm);
                            let pi = pre.pending_idx_spec();
                            assert(cm[pi].var_count == be_u16_at(d, o));
                            assert(c0[pi].var_count == be_u16_at(d, o));
                            assert(be_u16_at(rec_at(d, mml, pi), 6) == be_u16_at(d, o));
                        }
                        assert forall|mm: nat| mm < m + 1 implies lrec_ok(
                            codec,
                            d,
                            mml,
                            count,
                            #[trigger] labels_end(d, ls, mm),
                        ) by {
                            if mm == m {
                                assert(lrec_ok(codec, d, mml, count, o));
                            }
                        }
                        lemma_mod_shift80((o - ls) as nat, lrec_size(d, o) as nat);
                        assert(rdr.left_blank_spec() == (labels_end(d, ls, m + 1) - ls) % 80);
                        if rdr.state_spec() is LabelPad || rdr.state_spec() is ObsCardV8 {
                            lemma_post_namestr_aligned(mml, count);
                            lemma_add_aligned80(p as nat, 80);
                            lemma_mod_shift80(ls as nat, (labels_end(d, ls, m + 1) - ls) as nat);
                            if rdr.state_spec() is LabelPad {
                                lemma_pad_determined(rdr.position(), rdr.needed_spec());
                            }
                        }
                    },
                    AsmState::ObsCardV8 => {
                        assert(obs_card_off(d, v, mml, count) == used - n);
                    },
                    _ => {},
                }
                match pre.state_spec() {
                    AsmState::LabelLen => {
                        cm = rdr.columns_spec();
                    },
                    AsmState::LabelName => {},
                    AsmState::LabelLabel => {},
                    AsmState::LabelPad => {},
                    AsmState::ObsCardV5 => {},
                    AsmState::ObsCardV8 => {},
                    AsmState::Done => {},
                    AsmState::Failed => {},
                    _ => {
                        c0 = rdr.columns_spec();
                    },
                }
            }
        }
        proof {
            let v = ver_of(header_version_of(d));
            let mml = member_len_of(d);
            let count = column_count_of(d);
            let p = post_namestr_at(mml, count);
            let ls = p + 80;
            if v is V8 && long_in(d, mml, count as int) {
                lemma_labels_end_mono(d, ls, label_count_of(d, p)->Some_0 as nat);
            }
            assert(header_ok(codec, d));
            lemma_namestr_section_alignment(&rdr);
        }
        let ghost cols1v = rdr.columns_spec();
        let ghost c0v = c0;
        let (raw, meta) = rdr.finish();
        proof {
            let v = ver_of(header_version_of(d));
            let mml = member_len_of(d);
            let count = column_count_of(d);
            assert(columns_match(codec, v, d, mml, count as int, c0v));
            assert(meta.columns@.to_multiset() == cols1v.to_multiset());
        }
        Ok((raw, meta, used))
    }
}


/// The report used when the data ends before the header is complete.
fn end_of_input_message() -> (r: String)
    ensures
        r@ == "unexpected end of input"@,
{
    let s = String::from_str("unexpected end of input");
    s
}

proof fn lemma_var_lower_bound(cols: Seq<ColumnMeta>, i: int)
    requires
        sorted_by_var(cols),
        forall|a: int| 0 <= a < cols.len() ==> 1 <= #[trigger] cols[a].var_count,
        forall|a: int, b: int| 0 <= a < b < cols.len() ==> cols[a].var_count != cols[b].var_count,
        0 <= i < cols.len(),
    ensures
        cols[i].var_count >= i + 1,
    decreases i,
{
    if i > 0 {
        lemma_var_lower_bound(cols, i - 1);
    }
}

proof fn lemma_var_upper_bound(cols: Seq<ColumnMeta>, i: int)
    requires
        sorted_by_var(cols),
        forall|a: int| 0 <= a < cols.len() ==> #[trigger] cols[a].var_count <= cols.len(),
        forall|a: int, b: int| 0 <= a < b < cols.len() ==> cols[a].var_count != cols[b].var_count,
        0 <= i < cols.len(),
    ensures
        cols[i].var_count <= i + 1,
    decreases cols.len() - i,
{
    if i < cols.len() - 1 {
        lemma_var_upper_bound(cols, i + 1);
    }
}

/// Law: when the columns carry the ordinals one through the count, each
/// exactly once, sorting by ordinal puts the column with ordinal `k` at
/// index `k - 1`.
pub proof fn lemma_columns_in_order(cols: Seq<ColumnMeta>)
    requires
        sorted_by_var(cols),
        forall|a: int| 0 <= a < cols.len() ==> 1 <= #[trigger] cols[a].var_count <= cols.len(),
        forall|a: int, b: int| 0 <= a < b < cols.len() ==> cols[a].var_count != cols[b].var_count,
    ensures
        forall|i: int| 0 <= i < cols.len() ==> cols[i].var_count == i + 1,
{
    assert forall|i: int| 0 <= i < cols.len() implies cols[i].var_count == i + 1 by {
        lemma_var_lower_bound(cols, i);
        lemma_var_upper_bound(cols, i);
    }
}

/// The 80-byte card starting at `off`.
pub open spec fn card_at(d: Seq<u8>, off: int) -> Seq<u8> {
    d.subrange(off, off + 80)
}

/// What the first card declares the format variant to be.
pub open spec fn header_version_of(d: Seq<u8>) -> Option<DocumentHeader> {
    DocumentHeader::parse_spec(card_title(card_at(d, 0)), card_body(card_at(d, 0)))
}

/// Whether the member card (bytes 240..320) is accepted for version `v`:
/// the right title, the fixed body prefix, and a namestr record length
/// that can hold the version's fixed fields.
pub open spec fn member_card_ok(d: Seq<u8>, v: DocumentHeader) -> bool {
    &&& card_title(card_at(d, 240)) == (match v {
        DocumentHeader::V5 => spec_title_member(),
        DocumentHeader::V8 => spec_title_membv8(),
    })
    &&& member_body_ok(card_body(card_at(d, 240)))
    &&& member_body_val(card_body(card_at(d, 240))) >= Reader::mml_floor(v)
}

/// The namestr record length declared by the member card.
pub open spec fn member_len_of(d: Seq<u8>) -> nat {
    member_body_val(card_body(card_at(d, 240)))
}

/// Whether the namestr card (bytes 560..640) is accepted for version `v`.
pub open spec fn namestr_card_ok(d: Seq<u8>, v: DocumentHeader) -> bool {
    &&& card_title(card_at(d, 560)) == (match v {
        DocumentHeader::V5 => spec_title_namestr(),
        DocumentHeader::V8 => spec_title_namstv8(),
    })
    &&& namestr_body_ok(card_body(card_at(d, 560)))
}

/// The column count declared by the namestr card.
pub open spec fn column_count_of(d: Seq<u8>) -> nat {
    namestr_body_val(card_body(card_at(d, 560)))
}

/// The bytes of the `j`-th namestr record.
pub open spec fn rec_at(d: Seq<u8>, mml: nat, j: int) -> Seq<u8> {
    d.subrange(640 + j * mml, 640 + (j + 1) * mml)
}

/// Whether the first `k` namestr records are accepted.
pub open spec fn recs_ok(codec: TextCodec, v: DocumentHeader, d: Seq<u8>, mml: nat, k: int) -> bool {
    forall|j: int| 0 <= j < k ==> namestr_acceptable(codec, v, #[trigger] rec_at(d, mml, j))
}

/// The columns decoded from the first `k` namestr records, in order.
pub open spec fn columns_match(
    codec: TextCodec,
    v: DocumentHeader,
    d: Seq<u8>,
    mml: nat,
    k: int,
    cols: Seq<ColumnMeta>,
) -> bool {
    &&& cols.len() == k
    &&& forall|j: int|
        0 <= j < k ==> column_from_namestr(codec, v, rec_at(d, mml, j), #[trigger] cols[j])
}

/// Where the `j`-th record says its column ends in the observation row.
pub open spec fn rec_end(d: Seq<u8>, mml: nat, j: int) -> int {
    be_u32_at(rec_at(d, mml, j), 84) + be_u16_at(rec_at(d, mml, j), 4)
}

/// The longest row end among the first `k` records.
pub open spec fn max_end(d: Seq<u8>, mml: nat, k: int) -> int
    decreases k,
{
    if k <= 0 {
        0
    } else if max_end(d, mml, k - 1) >= rec_end(d, mml, k - 1) {
        max_end(d, mml, k - 1)
    } else {
        rec_end(d, mml, k - 1)
    }
}

/// Whether one of the first `k` records declares a label longer than its
/// inline field.
pub open spec fn long_in(d: Seq<u8>, mml: nat, k: int) -> bool {
    exists|j: int| 0 <= j < k && be_u16_at(#[trigger] rec_at(d, mml, j), 120) > 40
}

/// The padding after the namestr records, up to the 80-byte boundary.
pub open spec fn namestr_pad(mml: nat, count: nat) -> nat {
    if (count * mml) % 80 == 0 {
        0
    } else {
        (80 - (count * mml) % 80) as nat
    }
}

/// The offset just past the namestr records and their padding.
pub open spec fn post_namestr_at(mml: nat, count: nat) -> int {
    640 + count * mml + namestr_pad(mml, count) as int
}

/// The record count declared by a long-label supplement card at `p`.
pub open spec fn label_count_of(d: Seq<u8>, p: int) -> Option<u16> {
    match V8LabelStrTitleHeader::parse_spec(card_title(card_at(d, p)), card_body(card_at(d, p))) {
        Some(h) => Some(h.0),
        None => None,
    }
}

/// The byte size of the supplement record at `o`: the three length words
/// followed by the name and label bytes.
pub open spec fn lrec_size(d: Seq<u8>, o: int) -> int {
    6 + be_u16_at(d, o + 2) + be_u16_at(d, o + 4)
}

/// The offset just past `k` supplement records starting at `o`.
pub open spec fn labels_end(d: Seq<u8>, o: int, k: nat) -> int
    decreases k,
{
    if k == 0 {
        o
    } else {
        labels_end(d, o + lrec_size(d, o), (k - 1) as nat)
    }
}

/// Whether the supplement record at `o` is accepted: it fits in the
/// data, its texts decode, and some namestr record carries its ordinal.
pub open spec fn lrec_ok(codec: TextCodec, d: Seq<u8>, mml: nat, count: nat, o: int) -> bool {
    &&& o + lrec_size(d, o) <= d.len()
    &&& decodes(codec, d.subrange(o + 6, o + 6 + be_u16_at(d, o + 2)))
    &&& decodes(codec, d.subrange(o + 6 + be_u16_at(d, o + 2), o + lrec_size(d, o)))
    &&& exists|j: int|
        0 <= j < count && be_u16_at(#[trigger] rec_at(d, mml, j), 6) == be_u16_at(d, o)
}

/// Whether the first `k` supplement records are accepted.
pub open spec fn lrecs_ok(
    codec: TextCodec,
    d: Seq<u8>,
    mml: nat,
    count: nat,
    o0: int,
    k: nat,
) -> bool {
    forall|m: nat| m < k ==> lrec_ok(codec, d, mml, count, #[trigger] labels_end(d, o0, m))
}

/// The first column carrying ordinal `var`.
pub open spec fn patch_index(a: Seq<ColumnMeta>, var: u16, i: int) -> bool {
    &&& 0 <= i < a.len()
    &&& a[i].var_count == var
    &&& forall|j: int| 0 <= j < i ==> a[j].var_count != var
}

/// `b` is `a` with the name of the record's column replaced by the
/// record's decoded name.
pub open spec fn name_patch(
    codec: TextCodec,
    d: Seq<u8>,
    o: int,
    a: Seq<ColumnMeta>,
    b: Seq<ColumnMeta>,
) -> bool {
    exists|i: int|
        {
            &&& #[trigger] patch_index(a, be_u16_at(d, o), i)
            &&& b.len() == a.len()
            &&& (forall|j: int| 0 <= j < a.len() && j != i ==> b[j] == a[j])
            &&& b[i].name@ == decoded_text(codec, d.subrange(o + 6, o + 6 + be_u16_at(d, o + 2)))
            &&& b[i].label == a[i].label
            &&& b[i].column_type == a[i].column_type
            &&& b[i].length == a[i].length
            &&& b[i].var_count == a[i].var_count
            &&& b[i].offset == a[i].offset
            &&& b[i].format == a[i].format
            &&& b[i].in_format == a[i].in_format
        }
}

/// `b` is `a` with the label of the record's column replaced by the
/// record's decoded label.
pub open spec fn label_patch(
    codec: TextCodec,
    d: Seq<u8>,
    o: int,
    a: Seq<ColumnMeta>,
    b: Seq<ColumnMeta>,
) -> bool {
    exists|i: int|
        {
            &&& #[trigger] patch_index(a, be_u16_at(d, o), i)
            &&& b.len() == a.len()
            &&& (forall|j: int| 0 <= j < a.len() && j != i ==> b[j] == a[j])
            &&& b[i].label@ == decoded_text(
                codec,
                d.subrange(o + 6 + be_u16_at(d, o + 2), o + lrec_size(d, o)),
            )
            &&& b[i].name == a[i].name
            &&& b[i].column_type == a[i].column_type
            &&& b[i].length == a[i].length
            &&& b[i].var_count == a[i].var_count
            &&& b[i].offset == a[i].offset
            &&& b[i].format == a[i].format
            &&& b[i].in_format == a[i].in_format
        }
}

/// One supplement record applied: the name, then the label.
pub open spec fn lrec_patch(
    codec: TextCodec,
    d: Seq<u8>,
    o: int,
    a: Seq<ColumnMeta>,
    b: Seq<ColumnMeta>,
) -> bool {
    exists|mid: Seq<ColumnMeta>|
        {
            &&& #[trigger] name_patch(codec, d, o, a, mid)
            &&& label_patch(codec, d, o, mid, b)
        }
}

/// The first `k` supplement records applied in order.
pub open spec fn lrecs_patch(
    codec: TextCodec,
    d: Seq<u8>,
    o: int,
    k: nat,
    a: Seq<ColumnMeta>,
    b: Seq<ColumnMeta>,
) -> bool
    decreases k,
{
    if k == 0 {
        b == a
    } else {
        exists|mid: Seq<ColumnMeta>|
            {
                &&& #[trigger] lrec_patch(codec, d, o, a, mid)
                &&& lrecs_patch(codec, d, o + lrec_size(d, o), (k - 1) as nat, mid, b)
            }
    }
}

/// The padding after the supplement records, up to the 80-byte boundary.
pub open spec fn label_pad(d: Seq<u8>, ls: int, k: nat) -> int {
    let lb = (labels_end(d, ls, k) - ls) % 80;
    if lb == 0 {
        0
    } else {
        80 - lb
    }
}

/// Where the observation card stands: right after the namestr padding,
/// or after the long-label supplement where there is one.
pub open spec fn obs_card_off(d: Seq<u8>, v: DocumentHeader, mml: nat, count: nat) -> int {
    let p = post_namestr_at(mml, count);
    if v is V8 && long_in(d, mml, count as int) {
        let ls = p + 80;
        let kk = label_count_of(d, p)->Some_0 as nat;
        labels_end(d, ls, kk) + label_pad(d, ls, kk)
    } else {
        p
    }
}

/// The declared observation count read from the card at `o`.
pub open spec fn obs_count_of(d: Seq<u8>, o: int) -> Option<u64> {
    match V8ObsHeaderRecord::parse_spec(card_title(card_at(d, o)), card_body(card_at(d, o))) {
        Some(h) => Some(h.0),
        None => None,
    }
}

/// How many bytes the whole header takes, observation card included.
pub open spec fn header_len_of(d: Seq<u8>, v: DocumentHeader, mml: nat, count: nat) -> int {
    obs_card_off(d, v, mml, count) + 80
}

/// The observation count the header declares: zero for V5, which reads
/// until the end of the stream.
pub open spec fn header_observations(d: Seq<u8>, v: DocumentHeader, mml: nat, count: nat) -> u64 {
    if v is V5 {
        0
    } else {
        match obs_count_of(d, obs_card_off(d, v, mml, count)) {
            Some(n) => n,
            None => 0,
        }
    }
}

/// Whether the long-label supplement section is accepted.
pub open spec fn label_section_ok(codec: TextCodec, d: Seq<u8>, mml: nat, count: nat) -> bool {
    let p = post_namestr_at(mml, count);
    let ls = p + 80;
    &&& label_count_of(d, p) is Some
    &&& ({
        let kk = label_count_of(d, p)->Some_0 as nat;
        &&& lrecs_ok(codec, d, mml, count, ls, kk)
        &&& labels_end(d, ls, kk) + label_pad(d, ls, kk) + 80 <= d.len()
        &&& obs_count_of(d, labels_end(d, ls, kk) + label_pad(d, ls, kk)) is Some
    })
}

/// Whether a byte sequence begins with a complete, well-formed header:
/// the cards parse in order, the text fields decode under `codec`, every
/// namestr record is accepted, and the long-label supplement, where one
/// is announced, is complete.  `Reader::start` succeeds exactly on such
/// input.
pub open spec fn header_ok(codec: TextCodec, d: Seq<u8>) -> bool {
    &&& d.len() >= 640
    &&& header_version_of(d) is Some
    &&& ({
        let v = ver_of(header_version_of(d));
        &&& decodes(codec, d.subrange(104, 112))
        &&& decodes(codec, d.subrange(112, 120))
        &&& utf8_of(d.subrange(160, 240)) is Some
        &&& member_card_ok(d, v)
        &&& decodes(codec, d.subrange(424, 432))
        &&& decodes(codec, d.subrange(408, 416))
        &&& utf8_of(d.subrange(480, 560)) is Some
        &&& namestr_card_ok(d, v)
        &&& ({
            let mml = member_len_of(d);
            let count = column_count_of(d);
            &&& post_namestr_at(mml, count) + 80 <= d.len()
            &&& recs_ok(codec, v, d, mml, count as int)
            &&& (match v {
                DocumentHeader::V5 => true,
                DocumentHeader::V8 => if long_in(d, mml, count as int) {
                    label_section_ok(codec, d, mml, count)
                } else {
                    obs_count_of(d, post_namestr_at(mml, count)) is Some
                },
            })
        })
    })
}

proof fn lemma_pad_determined(pos: nat, pad: nat)
    requires
        (pos + pad) % 80 == 0,
        0 < pad < 80,
    ensures
        pos % 80 != 0,
        pad == 80 - pos % 80,
{
    lemma_mod_shift80(pos, pad);
    vstd::arithmetic::div_mod::lemma_mod_bound(pos as int, 80);
    if pos % 80 + pad < 80 {
        vstd::arithmetic::div_mod::lemma_small_mod((pos % 80 + pad) as nat, 80);
    } else {
        lemma_mod_shift80(80, (pos % 80 + pad - 80) as nat);
        vstd::arithmetic::div_mod::lemma_small_mod((pos % 80 + pad - 80) as nat, 80);
    }
}

proof fn lemma_post_namestr_aligned(mml: nat, count: nat)
    ensures
        post_namestr_at(mml, count) % 80 == 0,
{
    let t = count * mml;
    lemma_mod_shift80(640, t);
    if t % 80 == 0 {
    } else {
        vstd::arithmetic::div_mod::lemma_fundamental_div_mod(t as int, 80);
        vstd::arithmetic::div_mod::lemma_mod_multiples_basic(t as int / 80 + 1 + 8, 80);
        assert(640 + t + (80 - t % 80) == 80 * (t as int / 80 + 1 + 8));
    }
}

proof fn lemma_labels_end_snoc(d: Seq<u8>, o: int, k: nat)
    ensures
        labels_end(d, o, k + 1) == labels_end(d, o, k) + lrec_size(d, labels_end(d, o, k)),
    decreases k,
{
    assert(labels_end(d, o, k + 1) == labels_end(d, o + lrec_size(d, o), k));
    if k == 0 {
        assert(labels_end(d, o + lrec_size(d, o), 0) == o + lrec_size(d, o));
    } else {
        lemma_labels_end_snoc(d, o + lrec_size(d, o), (k - 1) as nat);
        assert(labels_end(d, o, k) == labels_end(d, o + lrec_size(d, o), (k - 1) as nat));
    }
}

proof fn lemma_labels_end_mono(d: Seq<u8>, o: int, k: nat)
    ensures
        labels_end(d, o, k) >= o,
    decreases k,
{
    if k > 0 {
        lemma_labels_end_mono(d, o + lrec_size(d, o), (k - 1) as nat);
    }
}

proof fn lemma_lrecs_patch_snoc(
    codec: TextCodec,
    d: Seq<u8>,
    o: int,
    k: nat,
    a: Seq<ColumnMeta>,
    m2: Seq<ColumnMeta>,
    b: Seq<ColumnMeta>,
)
    requires
        lrecs_patch(codec, d, o, k, a, m2),
        lrec_patch(codec, d, labels_end(d, o, k), m2, b),
    ensures
        lrecs_patch(codec, d, o, k + 1, a, b),
    decreases k,
{
    if k == 0 {
        assert(lrecs_patch(codec, d, o + lrec_size(d, o), 0, b, b));
    } else {
        let mid = choose|mid: Seq<ColumnMeta>|
            #[trigger] lrec_patch(codec, d, o, a, mid) && lrecs_patch(
                codec,
                d,
                o + lrec_size(d, o),
                (k - 1) as nat,
                mid,
                m2,
            );
        lemma_lrecs_patch_snoc(codec, d, o + lrec_size(d, o), (k - 1) as nat, mid, m2, b);
    }
}

proof fn lemma_patch_fields(codec: TextCodec, d: Seq<u8>, o: int, a: Seq<ColumnMeta>, b: Seq<ColumnMeta>)
    requires
        name_patch(codec, d, o, a, b) || label_patch(codec, d, o, a, b),
    ensures
        b.len() == a.len(),
        forall|i: int| 0 <= i < a.len() ==> #[trigger] b[i].var_count == a[i].var_count,
        forall|i: int| 0 <= i < a.len() ==> #[trigger] b[i].column_type == a[i].column_type,
        forall|i: int| 0 <= i < a.len() ==> #[trigger] b[i].length == a[i].length,
        forall|i: int| 0 <= i < a.len() ==> #[trigger] b[i].offset == a[i].offset,
{
    if name_patch(codec, d, o, a, b) {
        let i = choose|i: int|
            {
                &&& #[trigger] patch_index(a, be_u16_at(d, o), i)
                &&& b.len() == a.len()
                &&& (forall|j: int| 0 <= j < a.len() && j != i ==> b[j] == a[j])
                &&& b[i].name@ == decoded_text(codec, d.subrange(o + 6, o + 6 + be_u16_at(d, o + 2)))
                &&& b[i].label == a[i].label
                &&& b[i].column_type == a[i].column_type
                &&& b[i].length == a[i].length
                &&& b[i].var_count == a[i].var_count
                &&& b[i].offset == a[i].offset
                &&& b[i].format == a[i].format
                &&& b[i].in_format == a[i].in_format
            };
        assert(forall|j: int| 0 <= j < a.len() && j != i ==> b[j] == a[j]);
    } else {
        let i = choose|i: int|
            {
                &&& #[trigger] patch_index(a, be_u16_at(d, o), i)
                &&& b.len() == a.len()
                &&& (forall|j: int| 0 <= j < a.len() && j != i ==> b[j] == a[j])
                &&& b[i].label@ == decoded_text(
                    codec,
                    d.subrange(o + 6 + be_u16_at(d, o + 2), o + lrec_size(d, o)),
                )
                &&& b[i].name == a[i].name
                &&& b[i].column_type == a[i].column_type
                &&& b[i].length == a[i].length
                &&& b[i].var_count == a[i].var_count
                &&& b[i].offset == a[i].offset
                &&& b[i].format == a[i].format
                &&& b[i].in_format == a[i].in_format
            };
        assert(forall|j: int| 0 <= j < a.len() && j != i ==> b[j] == a[j]);
    }
}

proof fn lemma_lrec_patch_fields(codec: TextCodec, d: Seq<u8>, o: int, a: Seq<ColumnMeta>, b: Seq<ColumnMeta>)
    requires
        lrec_patch(codec, d, o, a, b),
    ensures
        b.len() == a.len(),
        forall|i: int| 0 <= i < a.len() ==> #[trigger] b[i].var_count == a[i].var_count,
        forall|i: int| 0 <= i < a.len() ==> #[trigger] b[i].column_type == a[i].column_type,
        forall|i: int| 0 <= i < a.len() ==> #[trigger] b[i].length == a[i].length,
        forall|i: int| 0 <= i < a.len() ==> #[trigger] b[i].offset == a[i].offset,
{
    let mid = choose|mid: Seq<ColumnMeta>|
        {
            &&& #[trigger] name_patch(codec, d, o, a, mid)
            &&& label_patch(codec, d, o, mid, b)
        };
    lemma_patch_fields(codec, d, o, a, mid);
    lemma_patch_fields(codec, d, o, mid, b);
}

proof fn lemma_lrecs_patch_preserves(
    codec: TextCodec,
    d: Seq<u8>,
    o: int,
    k: nat,
    a: Seq<ColumnMeta>,
    b: Seq<ColumnMeta>,
)
    requires
        lrecs_patch(codec, d, o, k, a, b),
    ensures
        b.len() == a.len(),
        forall|i: int| 0 <= i < a.len() ==> #[trigger] b[i].var_count == a[i].var_count,
        forall|i: int| 0 <= i < a.len() ==> #[trigger] b[i].column_type == a[i].column_type,
        forall|i: int| 0 <= i < a.len() ==> #[trigger] b[i].length == a[i].length,
        forall|i: int| 0 <= i < a.len() ==> #[trigger] b[i].offset == a[i].offset,
    decreases k,
{
    if k > 0 {
        let mid = choose|mid: Seq<ColumnMeta>|
            {
                &&& #[trigger] lrec_patch(codec, d, o, a, mid)
                &&& lrecs_patch(codec, d, o + lrec_size(d, o), (k - 1) as nat, mid, b)
            };
        lemma_lrec_patch_fields(codec, d, o, a, mid);
        lemma_lrecs_patch_preserves(codec, d, o + lrec_size(d, o), (k - 1) as nat, mid, b);
        assert forall|i: int| 0 <= i < a.len() implies #[trigger] b[i].var_count
            == a[i].var_count && b[i].column_type == a[i].column_type && b[i].length == a[i].length
            && b[i].offset == a[i].offset by {
            assert(mid[i].var_count == a[i].var_count);
            assert(mid[i].column_type == a[i].column_type);
            assert(mid[i].length == a[i].length);
            assert(mid[i].offset == a[i].offset);
            assert(b[i].var_count == mid[i].var_count);
            assert(b[i].column_type == mid[i].column_type);
            assert(b[i].length == mid[i].length);
            assert(b[i].offset == mid[i].offset);
        }
    }
}

proof fn lemma_long_in_snoc(d: Seq<u8>, mml: nat, k: int)
    requires
        k >= 0,
    ensures
        long_in(d, mml, k + 1) == (long_in(d, mml, k) || be_u16_at(rec_at(d, mml, k), 120) > 40),
{
    if long_in(d, mml, k) {
        let j = choose|j: int| 0 <= j < k && be_u16_at(#[trigger] rec_at(d, mml, j), 120) > 40;
        assert(0 <= j < k + 1 && be_u16_at(rec_at(d, mml, j), 120) > 40);
    }
    if be_u16_at(rec_at(d, mml, k), 120) > 40 {
        assert(0 <= k < k + 1 && be_u16_at(rec_at(d, mml, k), 120) > 40);
    }
    if long_in(d, mml, k + 1) {
        let j = choose|j: int| 0 <= j < k + 1 && be_u16_at(#[trigger] rec_at(d, mml, j), 120) > 40;
        if j < k {
            assert(long_in(d, mml, k));
        }
    }
}

/// The version card's contribution, once consumed.
pub open spec fn g_version(r: Reader, d: Seq<u8>) -> bool {
    &&& header_version_of(d) is Some
    &&& r.version_spec() == header_version_of(d)
}

/// The library descriptor's contribution, once consumed.
pub open spec fn g_lib_base(codec: TextCodec, r: Reader, d: Seq<u8>) -> bool {
    &&& decodes(codec, d.subrange(104, 112))
    &&& decodes(codec, d.subrange(112, 120))
    &&& r.doc_version_spec() == decoded_text(codec, d.subrange(104, 112))
    &&& r.operation_system_spec() == decoded_text(codec, d.subrange(112, 120))
}

/// The library timestamp card's contribution.
pub open spec fn g_lib_date(r: Reader, d: Seq<u8>) -> bool {
    &&& utf8_of(d.subrange(160, 240)) is Some
    &&& r.doc_update_time_spec() == utf8_of(d.subrange(160, 240))->Some_0
}

/// The member card's contribution.
pub open spec fn g_member_card(r: Reader, d: Seq<u8>) -> bool {
    &&& member_card_ok(d, ver_of(header_version_of(d)))
    &&& r.member_meta_length_spec() == member_len_of(d)
}

/// The member descriptor's contribution.
pub open spec fn g_member_base(codec: TextCodec, r: Reader, d: Seq<u8>) -> bool {
    &&& decodes(codec, d.subrange(424, 432))
    &&& decodes(codec, d.subrange(408, 416))
    &&& r.dataset_name_spec() == decoded_text(codec, d.subrange(424, 432))
    &&& r.library_spec() == decoded_text(codec, d.subrange(408, 416))
}

/// The member timestamp card's contribution.
pub open spec fn g_member_date(r: Reader, d: Seq<u8>) -> bool {
    &&& utf8_of(d.subrange(480, 560)) is Some
    &&& r.lib_update_time_spec() == utf8_of(d.subrange(480, 560))->Some_0
}

/// The namestr card's contribution.
pub open spec fn g_namestr_card(r: Reader, d: Seq<u8>) -> bool {
    &&& namestr_card_ok(d, ver_of(header_version_of(d)))
    &&& r.column_count_spec() == column_count_of(d)
}

/// Everything the cards up to the namestr card have established.
pub open spec fn g_cards(codec: TextCodec, r: Reader, d: Seq<u8>) -> bool {
    &&& g_version(r, d)
    &&& g_lib_base(codec, r, d)
    &&& g_lib_date(r, d)
    &&& g_member_card(r, d)
    &&& g_member_base(codec, r, d)
    &&& g_member_date(r, d)
    &&& g_namestr_card(r, d)
}

/// What the first `k` namestr records have established.
pub open spec fn g_records(codec: TextCodec, r: Reader, d: Seq<u8>, k: int) -> bool {
    let v = ver_of(header_version_of(d));
    let mml = member_len_of(d);
    &&& recs_ok(codec, v, d, mml, k)
    &&& r.line_length_spec() == max_end(d, mml, k)
    &&& (v is V8 ==> r.with_long_label_spec() == long_in(d, mml, k))
}

/// The supplement card's contribution.
pub open spec fn g_label_card(r: Reader, d: Seq<u8>) -> bool {
    label_count_of(d, post_namestr_at(member_len_of(d), column_count_of(d))) == Some(
        r.label_records_spec(),
    )
}

/// Ties the assembler's fields to the input bytes, state by state: how
/// far it has read, and that what it holds is what the bytes up to that
/// point say.  `c0` is the column list as parsed from the namestr
/// records; `cm` is its form just before the current supplement record's
/// name was patched.
pub open spec fn inv_track(
    codec: TextCodec,
    r: Reader,
    d: Seq<u8>,
    u: int,
    c0: Seq<ColumnMeta>,
    cm: Seq<ColumnMeta>,
) -> bool {
    let v = ver_of(header_version_of(d));
    let mml = member_len_of(d);
    let count = column_count_of(d);
    let p = post_namestr_at(mml, count);
    let ls = p + 80;
    let kk = r.label_records_spec() as nat;
    let m = r.labels_done_spec() as nat;
    let o = labels_end(d, ls, m);
    &&& (r.state_spec() is Done || r.observations_spec() == 0)
    &&& match r.state_spec() {
        AsmState::LibraryCard => u == 0 && r.line_length_spec() == 0,
        AsmState::LibraryBase => u == 80 && r.line_length_spec() == 0 && g_version(r, d),
        AsmState::LibraryDate => u == 160 && r.line_length_spec() == 0 && g_version(r, d)
            && g_lib_base(codec, r, d),
        AsmState::MemberCard => u == 240 && r.line_length_spec() == 0 && g_version(r, d)
            && g_lib_base(codec, r, d) && g_lib_date(r, d),
        AsmState::MemberDescriptor => u == 320 && r.line_length_spec() == 0 && g_version(r, d)
            && g_lib_base(codec, r, d) && g_lib_date(r, d) && g_member_card(r, d),
        AsmState::MemberBase => u == 400 && r.line_length_spec() == 0 && g_version(r, d)
            && g_lib_base(codec, r, d) && g_lib_date(r, d) && g_member_card(r, d),
        AsmState::MemberDate => u == 480 && r.line_length_spec() == 0 && g_version(r, d)
            && g_lib_base(codec, r, d) && g_lib_date(r, d) && g_member_card(r, d) && g_member_base(
            codec,
            r,
            d,
        ),
        AsmState::NamestrCard => u == 560 && r.line_length_spec() == 0 && g_version(r, d)
            && g_lib_base(codec, r, d) && g_lib_date(r, d) && g_member_card(r, d) && g_member_base(
            codec,
            r,
            d,
        ) && g_member_date(r, d),
        AsmState::Namestr => {
            &&& g_cards(codec, r, d)
            &&& u == 640 + r.columns_spec().len() * mml
            &&& columns_match(codec, v, d, mml, r.columns_spec().len() as int, r.columns_spec())
            &&& g_records(codec, r, d, r.columns_spec().len() as int)
        },
        AsmState::NamestrPad => {
            &&& g_cards(codec, r, d)
            &&& u == 640 + count * mml
            &&& u + r.needed_spec() == p
            &&& columns_match(codec, v, d, mml, count as int, r.columns_spec())
            &&& g_records(codec, r, d, count as int)
        },
        AsmState::ObsCardV5 => {
            &&& g_cards(codec, r, d)
            &&& u == p
            &&& columns_match(codec, v, d, mml, count as int, r.columns_spec())
            &&& r.columns_spec() == c0
            &&& g_records(codec, r, d, count as int)
        },
        AsmState::LabelCard => {
            &&& g_cards(codec, r, d)
            &&& u == p
            &&& long_in(d, mml, count as int)
            &&& columns_match(codec, v, d, mml, count as int, r.columns_spec())
            &&& r.columns_spec() == c0
            &&& g_records(codec, r, d, count as int)
        },
        AsmState::LabelLen => {
            &&& g_cards(codec, r, d)
            &&& g_records(codec, r, d, count as int)
            &&& long_in(d, mml, count as int)
            &&& g_label_card(r, d)
            &&& columns_match(codec, v, d, mml, count as int, c0)
            &&& m < kk
            &&& lrecs_ok(codec, d, mml, count, ls, m)
            &&& lrecs_patch(codec, d, ls, m, c0, r.columns_spec())
            &&& u == o
            &&& r.left_blank_spec() == (o - ls) % 80
        },
        AsmState::LabelName => {
            &&& g_cards(codec, r, d)
            &&& g_records(codec, r, d, count as int)
            &&& long_in(d, mml, count as int)
            &&& g_label_card(r, d)
            &&& columns_match(codec, v, d, mml, count as int, c0)
            &&& m < kk
            &&& lrecs_ok(codec, d, mml, count, ls, m)
            &&& lrecs_patch(codec, d, ls, m, c0, r.columns_spec())
            &&& u == o + 6
            &&& r.left_blank_spec() == (o - ls) % 80
            &&& r.pending_name_len_spec() == be_u16_at(d, o + 2)
            &&& r.pending_label_len_spec() == be_u16_at(d, o + 4)
            &&& patch_index(r.columns_spec(), be_u16_at(d, o), r.pending_idx_spec())
            &&& cm == r.columns_spec()
        },
        AsmState::LabelLabel => {
            &&& g_cards(codec, r, d)
            &&& g_records(codec, r, d, count as int)
            &&& long_in(d, mml, count as int)
            &&& g_label_card(r, d)
            &&& columns_match(codec, v, d, mml, count as int, c0)
            &&& m < kk
            &&& lrecs_ok(codec, d, mml, count, ls, m)
            &&& lrecs_patch(codec, d, ls, m, c0, cm)
            &&& u == o + 6 + r.pending_name_len_spec()
            &&& r.left_blank_spec() == (o - ls) % 80
            &&& r.pending_name_len_spec() == be_u16_at(d, o + 2)
            &&& r.pending_label_len_spec() == be_u16_at(d, o + 4)
            &&& patch_index(cm, be_u16_at(d, o), r.pending_idx_spec())
            &&& name_patch(codec, d, o, cm, r.columns_spec())
            &&& decodes(codec, d.subrange(o + 6, o + 6 + be_u16_at(d, o + 2)))
        },
        AsmState::LabelPad => {
            &&& g_cards(codec, r, d)
            &&& g_records(codec, r, d, count as int)
            &&& long_in(d, mml, count as int)
            &&& g_label_card(r, d)
            &&& columns_match(codec, v, d, mml, count as int, c0)
            &&& lrecs_ok(codec, d, mml, count, ls, kk)
            &&& lrecs_patch(codec, d, ls, kk, c0, r.columns_spec())
            &&& u == labels_end(d, ls, kk)
            &&& u + r.needed_spec() == labels_end(d, ls, kk) + label_pad(d, ls, kk)
        },
        AsmState::ObsCardV8 => {
            &&& g_cards(codec, r, d)
            &&& g_records(codec, r, d, count as int)
            &&& columns_match(codec, v, d, mml, count as int, c0)
            &&& (if long_in(d, mml, count as int) {
                &&& g_label_card(r, d)
                &&& lrecs_ok(codec, d, mml, count, ls, kk)
                &&& lrecs_patch(codec, d, ls, kk, c0, r.columns_spec())
                &&& u == labels_end(d, ls, kk) + label_pad(d, ls, kk)
            } else {
                &&& r.columns_spec() == c0
                &&& u == p
            })
        },
        AsmState::Done => {
            &&& g_cards(codec, r, d)
            &&& g_records(codec, r, d, count as int)
            &&& columns_match(codec, v, d, mml, count as int, c0)
            &&& u == header_len_of(d, v, mml, count)
            &&& r.observations_spec() == header_observations(d, v, mml, count)
            &&& (v is V8 ==> obs_count_of(d, obs_card_off(d, v, mml, count)) is Some)
            &&& (if v is V8 && long_in(d, mml, count as int) {
                &&& label_count_of(d, p) is Some
                &&& lrecs_ok(codec, d, mml, count, ls, label_count_of(d, p)->Some_0 as nat)
                &&& lrecs_patch(
                    codec,
                    d,
                    ls,
                    label_count_of(d, p)->Some_0 as nat,
                    c0,
                    r.columns_spec(),
                )
            } else {
                r.columns_spec() == c0
            })
        },
        AsmState::Failed => false,
    }
}

} // verus!
