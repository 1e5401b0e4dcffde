//! The parts of a transport file: header cards, namestr records, and the
//! assembled document metadata.

use vstd::prelude::*;

use crate::cards::body_zeros;
use crate::cards::card_body;
use crate::cards::card_title;
use crate::cards::member_body_prefix;
use crate::cards::spec_body_zeros;
use crate::cards::spec_member_body_prefix;
use crate::cards::spec_title_labelv8;
use crate::cards::spec_title_library;
use crate::cards::spec_title_libv8;
use crate::cards::spec_title_member;
use crate::cards::spec_title_membv8;
use crate::cards::spec_title_namestr;
use crate::cards::spec_title_namstv8;
use crate::cards::spec_title_obsv8;
use crate::cards::split_card;
use crate::cards::title_labelv8;
use crate::cards::title_library;
use crate::cards::title_libv8;
use crate::cards::title_member;
use crate::cards::title_membv8;
use crate::cards::title_namestr;
use crate::cards::title_namstv8;
use crate::cards::title_obsv8;
use crate::deserialize::bytes_eq;
use crate::deserialize::bytes_starts_with;
use crate::deserialize::be_u16_at;
use crate::deserialize::BufferFromByteArray;
use crate::deserialize::be_u32_at;
use crate::deserialize::bytes_at;
use crate::deserialize::read_u16_be;
use crate::deserialize::read_u32_be;
use crate::deserialize::FromBytes;
use crate::error::XPTError;
use crate::numtext::dec_val;
use crate::numtext::is_dec;
use crate::numtext::parse_u16_dec;
use crate::numtext::parse_u64_dec;
use crate::text::decode_text;
use crate::text::decoded_text;
use crate::text::decodes;
use crate::text::lossy_of;
use crate::text::lossy_text;
use crate::text::TextCodec;
use vstd::slice::slice_subrange;

verus! {

/// A header record recognized from an 80-byte card.
///
/// `parse_spec` says, for every title and body, whether the record is
/// accepted and what value it carries.
pub trait XptHeader: Sized {
    /// The value parsed from a title and body, if they are accepted.
    spec fn parse_spec(title: Seq<u8>, body: Seq<u8>) -> Option<Self>;

    /// Parse from an already split title and body.
    fn from_raw(title: &[u8], body: &[u8]) -> (r: Result<Self, XPTError>)
        ensures
            Self::parse_spec(title@, body@) matches Some(v) ==> r matches Ok(x) && x == v,
            Self::parse_spec(title@, body@) is None ==> (r matches Err(e) && e is ParseError && (
            e.text() == lossy_of(title@) || e.text() == lossy_of(body@))),
    ;

    /// Parse a whole 80-byte card.
    fn new(card: &[u8]) -> (r: Result<Self, XPTError>)
        requires
            card@.len() == 80,
        ensures
            Self::parse_spec(card_title(card@), card_body(card@)) matches Some(v) ==> r matches Ok(
                x,
            ) && x == v,
            Self::parse_spec(card_title(card@), card_body(card@)) is None ==> (r matches Err(e)
                && e is ParseError && (e.text() == lossy_of(card_title(card@)) || e.text()
                == lossy_of(card_body(card@)))),
    {
        let (title, body) = split_card(card);
        Self::from_raw(title.as_slice(), body.as_slice())
    }
}

/// The transport format variant, fixed by the first card of the file.
#[derive(Clone, Copy, Debug, PartialEq, Eq, Structural)]
pub enum DocumentHeader {
    V5,
    V8,
}

impl XptHeader for DocumentHeader {
    open spec fn parse_spec(title: Seq<u8>, body: Seq<u8>) -> Option<DocumentHeader> {
        if body != spec_body_zeros() {
            None
        } else if title == spec_title_library() {
            Some(DocumentHeader::V5)
        } else if title == spec_title_libv8() {
            Some(DocumentHeader::V8)
        } else {
            None
        }
    }

    fn from_raw(title: &[u8], body: &[u8]) -> (r: Result<Self, XPTError>) {
        let zeros = body_zeros();
        if !bytes_eq(body, zeros.as_slice()) {
            return Err(XPTError::ParseError(lossy_text(body)));
        }
        let lib5 = title_library();
        if bytes_eq(title, lib5.as_slice()) {
            return Ok(DocumentHeader::V5);
        }
        let lib8 = title_libv8();
        if bytes_eq(title, lib8.as_slice()) {
            return Ok(DocumentHeader::V8);
        }
        Err(XPTError::ParseError(lossy_text(title)))
    }
}

/// Whether a member card body is accepted: the fixed prefix followed by
/// the namestr record length in decimal.
pub open spec fn member_body_ok(body: Seq<u8>) -> bool {
    &&& body.len() >= spec_member_body_prefix().len()
    &&& body.subrange(0, spec_member_body_prefix().len() as int) == spec_member_body_prefix()
    &&& is_dec(body.skip(26))
    &&& dec_val(body.skip(26)) <= u16::MAX
}

/// The namestr record length declared by a member card body.
pub open spec fn member_body_val(body: Seq<u8>) -> nat {
    dec_val(body.skip(26))
}

/// Parse the decimal field of a member card body, bytes 26 and later.
fn parse_member_body(body: &[u8]) -> (r: Result<u16, XPTError>)
    ensures
        member_body_ok(body@) ==> (r matches Ok(v) && v == member_body_val(body@)),
        !member_body_ok(body@) ==> (r matches Err(e) && e is ParseError && e.text() == lossy_of(
            body@,
        )),
{
    let prefix = member_body_prefix();
    if !bytes_starts_with(body, prefix.as_slice()) {
        return Err(XPTError::ParseError(lossy_text(body)));
    }
    let n = body.len();
    let tail = slice_subrange(body, 26, n);
    proof {
        assert(tail@ =~= body@.skip(26));
    }
    match parse_u16_dec(tail) {
        Some(v) => Ok(v),
        None => Err(XPTError::ParseError(lossy_text(body))),
    }
}

/// The member card of a V5 file; carries the namestr record length.
#[derive(Clone, Copy, Debug, PartialEq, Eq, Structural)]
pub struct V5MemberTitleHeader(pub u16);

impl XptHeader for V5MemberTitleHeader {
    open spec fn parse_spec(title: Seq<u8>, body: Seq<u8>) -> Option<V5MemberTitleHeader> {
        if title == spec_title_member() && member_body_ok(body) {
            Some(V5MemberTitleHeader(member_body_val(body) as u16))
        } else {
            None
        }
    }

    fn from_raw(title: &[u8], body: &[u8]) -> (r: Result<Self, XPTError>) {
        let want = title_member();
        if !bytes_eq(title, want.as_slice()) {
            return Err(XPTError::ParseError(lossy_text(title)));
        }
        match parse_member_body(body) {
            Ok(v) => Ok(V5MemberTitleHeader(v)),
            Err(e) => Err(e),
        }
    }
}

/// The member card of a V8 file; carries the namestr record length.
#[derive(Clone, Copy, Debug, PartialEq, Eq, Structural)]
pub struct V8MemberTitleHeader(pub u16);

impl XptHeader for V8MemberTitleHeader {
    open spec fn parse_spec(title: Seq<u8>, body: Seq<u8>) -> Option<V8MemberTitleHeader> {
        if title == spec_title_membv8() && member_body_ok(body) {
            Some(V8MemberTitleHeader(member_body_val(body) as u16))
        } else {
            None
        }
    }

    fn from_raw(title: &[u8], body: &[u8]) -> (r: Result<Self, XPTError>) {
        let want = title_membv8();
        if !bytes_eq(title, want.as_slice()) {
            return Err(XPTError::ParseError(lossy_text(title)));
        }
        match parse_member_body(body) {
            Ok(v) => Ok(V8MemberTitleHeader(v)),
            Err(e) => Err(e),
        }
    }
}

/// Whether a namestr card body is accepted: a decimal count at bytes 6..10.
pub open spec fn namestr_body_ok(body: Seq<u8>) -> bool {
    &&& body.len() >= 10
    &&& is_dec(body.subrange(6, 10))
    &&& dec_val(body.subrange(6, 10)) <= u16::MAX
}

/// The column count declared by a namestr card body.
pub open spec fn namestr_body_val(body: Seq<u8>) -> nat {
    dec_val(body.subrange(6, 10))
}

/// Parse the decimal count at bytes 6..10 of a namestr card body.
fn parse_namestr_body(body: &[u8]) -> (r: Result<u16, XPTError>)
    ensures
        namestr_body_ok(body@) ==> (r matches Ok(v) && v == namestr_body_val(body@)),
        !namestr_body_ok(body@) ==> (r matches Err(e) && e is ParseError && e.text() == lossy_of(
            body@,
        )),
{
    if body.len() < 10 {
        return Err(XPTError::ParseError(lossy_text(body)));
    }
    let field = slice_subrange(body, 6, 10);
    match parse_u16_dec(field) {
        Some(v) => Ok(v),
        None => Err(XPTError::ParseError(lossy_text(body))),
    }
}

/// The namestr section card of a V5 file; carries the column count.
#[derive(Clone, Copy, Debug, PartialEq, Eq, Structural)]
pub struct V5NameStrTitleHeader(pub u16);

impl XptHeader for V5NameStrTitleHeader {
    open spec fn parse_spec(title: Seq<u8>, body: Seq<u8>) -> Option<V5NameStrTitleHeader> {
        if title == spec_title_namestr() && namestr_body_ok(body) {
            Some(V5NameStrTitleHeader(namestr_body_val(body) as u16))
        } else {
            None
        }
    }

    fn from_raw(title: &[u8], body: &[u8]) -> (r: Result<Self, XPTError>) {
        let want = title_namestr();
        if !bytes_eq(title, want.as_slice()) {
            return Err(XPTError::ParseError(lossy_text(title)));
        }
        match parse_namestr_body(body) {
            Ok(v) => Ok(V5NameStrTitleHeader(v)),
            Err(e) => Err(e),
        }
    }
}

/// The namestr section card of a V8 file; carries the column count.
#[derive(Clone, Copy, Debug, PartialEq, Eq, Structural)]
pub struct V8NameStrTitleHeader(pub u16);

impl XptHeader for V8NameStrTitleHeader {
    open spec fn parse_spec(title: Seq<u8>, body: Seq<u8>) -> Option<V8NameStrTitleHeader> {
        if title == spec_title_namstv8() && namestr_body_ok(body) {
            Some(V8NameStrTitleHeader(namestr_body_val(body) as u16))
        } else {
            None
        }
    }

    fn from_raw(title: &[u8], body: &[u8]) -> (r: Result<Self, XPTError>) {
        let want = title_namstv8();
        if !bytes_eq(title, want.as_slice()) {
            return Err(XPTError::ParseError(lossy_text(title)));
        }
        match parse_namestr_body(body) {
            Ok(v) => Ok(V8NameStrTitleHeader(v)),
            Err(e) => Err(e),
        }
    }
}

/// The observation section card of a V8 file; carries the declared
/// observation count.
#[derive(Clone, Copy, Debug, PartialEq, Eq, Structural)]
pub struct V8ObsHeaderRecord(pub u64);

impl XptHeader for V8ObsHeaderRecord {
    open spec fn parse_spec(title: Seq<u8>, body: Seq<u8>) -> Option<V8ObsHeaderRecord> {
        if title == spec_title_obsv8() && is_dec(body) && dec_val(body) <= u64::MAX {
            Some(V8ObsHeaderRecord(dec_val(body) as u64))
        } else {
            None
        }
    }

    fn from_raw(title: &[u8], body: &[u8]) -> (r: Result<Self, XPTError>) {
        let want = title_obsv8();
        if !bytes_eq(title, want.as_slice()) {
            return Err(XPTError::ParseError(lossy_text(title)));
        }
        match parse_u64_dec(body) {
            Some(v) => Ok(V8ObsHeaderRecord(v)),
            None => Err(XPTError::ParseError(lossy_text(body))),
        }
    }
}

/// The long-label supplement card of a V8 file; carries the record count.
#[derive(Clone, Copy, Debug, PartialEq, Eq, Structural)]
pub struct V8LabelStrTitleHeader(pub u16);

impl XptHeader for V8LabelStrTitleHeader {
    open spec fn parse_spec(title: Seq<u8>, body: Seq<u8>) -> Option<V8LabelStrTitleHeader> {
        if title == spec_title_labelv8() && is_dec(body) && dec_val(body) <= u16::MAX {
            Some(V8LabelStrTitleHeader(dec_val(body) as u16))
        } else {
            None
        }
    }

    fn from_raw(title: &[u8], body: &[u8]) -> (r: Result<Self, XPTError>) {
        let want = title_labelv8();
        if !bytes_eq(title, want.as_slice()) {
            return Err(XPTError::ParseError(lossy_text(title)));
        }
        match parse_u16_dec(body) {
            Some(v) => Ok(V8LabelStrTitleHeader(v)),
            None => Err(XPTError::ParseError(lossy_text(body))),
        }
    }
}

/// The common 80-byte descriptor block shared by the library and member
/// sections: symbol, dataset name, header type, version, operating
/// system and timestamp, all space-padded ASCII.
#[derive(Debug)]
pub struct DocumentBase {
    pub sas: Vec<u8>,
    pub dataset_name: Vec<u8>,
    pub header_type: Vec<u8>,
    pub version: Vec<u8>,
    pub operation_system: Vec<u8>,
    pub time: Vec<u8>,
}

impl FromBytes for DocumentBase {
    open spec fn min_input() -> nat {
        80
    }

    fn input_floor() -> (r: usize) {
        80
    }

    open spec fn models(self, input: Seq<u8>) -> bool {
        &&& self.sas@ == input.subrange(0, 8)
        &&& self.dataset_name@ == input.subrange(8, 16)
        &&& self.header_type@ == input.subrange(16, 24)
        &&& self.version@ == input.subrange(24, 32)
        &&& self.operation_system@ == input.subrange(32, 40)
        &&& self.time@ == input.subrange(64, 80)
    }

    fn from_bytes(input: &[u8]) -> (r: Self) {
        DocumentBase {
            sas: bytes_at(input, 0, 8),
            dataset_name: bytes_at(input, 8, 8),
            header_type: bytes_at(input, 16, 8),
            version: bytes_at(input, 24, 8),
            operation_system: bytes_at(input, 32, 8),
            time: bytes_at(input, 64, 16),
        }
    }
}

/// A V5 namestr record: the fixed-offset descriptor of one column.
#[derive(Debug)]
pub struct V5NameSt {
    pub ntype: u16,
    pub nhfun: u16,
    pub nlng: u16,
    pub nvar0: u16,
    pub nname: Vec<u8>,
    pub nlabel: Vec<u8>,
    pub nform: Vec<u8>,
    pub nfl: u16,
    pub nfd: u16,
    pub nfj: u16,
    pub nfill: Vec<u8>,
    pub niform: Vec<u8>,
    pub nifl: u16,
    pub nifd: u16,
    pub npos: u32,
    pub rest: String,
}

impl FromBytes for V5NameSt {
    open spec fn min_input() -> nat {
        88
    }

    fn input_floor() -> (r: usize) {
        88
    }

    open spec fn models(self, input: Seq<u8>) -> bool {
        &&& self.ntype == be_u16_at(input, 0)
        &&& self.nhfun == be_u16_at(input, 2)
        &&& self.nlng == be_u16_at(input, 4)
        &&& self.nvar0 == be_u16_at(input, 6)
        &&& self.nname@ == input.subrange(8, 16)
        &&& self.nlabel@ == input.subrange(16, 56)
        &&& self.nform@ == input.subrange(56, 64)
        &&& self.nfl == be_u16_at(input, 64)
        &&& self.nfd == be_u16_at(input, 66)
        &&& self.nfj == be_u16_at(input, 68)
        &&& self.nfill@ == input.subrange(70, 72)
        &&& self.niform@ == input.subrange(72, 80)
        &&& self.nifl == be_u16_at(input, 80)
        &&& self.nifd == be_u16_at(input, 82)
        &&& self.npos == be_u32_at(input, 84)
        &&& self.rest@ == Seq::<char>::empty()
    }

    fn from_bytes(input: &[u8]) -> (r: Self) {
        V5NameSt {
            ntype: read_u16_be(input, 0),
            nhfun: read_u16_be(input, 2),
            nlng: read_u16_be(input, 4),
            nvar0: read_u16_be(input, 6),
            nname: bytes_at(input, 8, 8),
            nlabel: bytes_at(input, 16, 40),
            nform: bytes_at(input, 56, 8),
            nfl: read_u16_be(input, 64),
            nfd: read_u16_be(input, 66),
            nfj: read_u16_be(input, 68),
            nfill: bytes_at(input, 70, 2),
            niform: bytes_at(input, 72, 8),
            nifl: read_u16_be(input, 80),
            nifd: read_u16_be(input, 82),
            npos: read_u32_be(input, 84),
            rest: String::new(),
        }
    }
}

/// A V8 namestr record: the V5 layout followed by the long name and the
/// true label length.
#[derive(Debug)]
pub struct V8NameSt {
    pub ntype: u16,
    pub nhfun: u16,
    pub nlng: u16,
    pub nvar0: u16,
    pub nname: Vec<u8>,
    pub nlabel: Vec<u8>,
    pub nform: Vec<u8>,
    pub nfl: u16,
    pub nfd: u16,
    pub nfj: u16,
    pub nfill: Vec<u8>,
    pub niform: Vec<u8>,
    pub nifl: u16,
    pub nifd: u16,
    pub npos: u32,
    pub rest: String,
    pub nlname: Vec<u8>,
    pub lablen: u16,
}

impl FromBytes for V8NameSt {
    open spec fn min_input() -> nat {
        122
    }

    fn input_floor() -> (r: usize) {
        122
    }

    open spec fn models(self, input: Seq<u8>) -> bool {
        &&& self.ntype == be_u16_at(input, 0)
        &&& self.nhfun == be_u16_at(input, 2)
        &&& self.nlng == be_u16_at(input, 4)
        &&& self.nvar0 == be_u16_at(input, 6)
        &&& self.nname@ == input.subrange(8, 16)
        &&& self.nlabel@ == input.subrange(16, 56)
        &&& self.nform@ == input.subrange(56, 64)
        &&& self.nfl == be_u16_at(input, 64)
        &&& self.nfd == be_u16_at(input, 66)
        &&& self.nfj == be_u16_at(input, 68)
        &&& self.nfill@ == input.subrange(70, 72)
        &&& self.niform@ == input.subrange(72, 80)
        &&& self.nifl == be_u16_at(input, 80)
        &&& self.nifd == be_u16_at(input, 82)
        &&& self.npos == be_u32_at(input, 84)
        &&& self.rest@ == Seq::<char>::empty()
        &&& self.nlname@ == input.subrange(88, 120)
        &&& self.lablen == be_u16_at(input, 120)
    }

    fn from_bytes(input: &[u8]) -> (r: Self) {
        V8NameSt {
            ntype: read_u16_be(input, 0),
            nhfun: read_u16_be(input, 2),
            nlng: read_u16_be(input, 4),
            nvar0: read_u16_be(input, 6),
            nname: bytes_at(input, 8, 8),
            nlabel: bytes_at(input, 16, 40),
            nform: bytes_at(input, 56, 8),
            nfl: read_u16_be(input, 64),
            nfd: read_u16_be(input, 66),
            nfj: read_u16_be(input, 68),
            nfill: bytes_at(input, 70, 2),
            niform: bytes_at(input, 72, 8),
            nifl: read_u16_be(input, 80),
            nifd: read_u16_be(input, 82),
            npos: read_u32_be(input, 84),
            rest: String::new(),
            nlname: bytes_at(input, 88, 32),
            lablen: read_u16_be(input, 120),
        }
    }
}

/// Whether a cell of a column holds a number or character data.
#[derive(Clone, Copy, Debug, PartialEq, Eq, Structural)]
pub enum ColumnType {
    NUMERIC,
    CHAR,
}

/// The column type encoded by a namestr `ntype` field: 2 means character,
/// everything else is read as numeric.
pub open spec fn column_type_of(ntype: u16) -> ColumnType {
    if ntype == 2 {
        ColumnType::CHAR
    } else {
        ColumnType::NUMERIC
    }
}

/// The description of one column: type, cell length, ordinal, decoded
/// name and label, the two formats, and the byte offset of the column
/// within an observation row.
#[derive(Debug)]
pub struct ColumnMeta {
    pub column_type: ColumnType,
    pub length: u16,
    pub var_count: u16,
    pub name: String,
    pub label: String,
    pub format: (String, u16, u16),
    pub in_format: (String, u16, u16),
    pub offset: u32,
}

/// Whether all four text fields of a V5 namestr decode under `codec`.
pub open spec fn v5_texts_decode(st: V5NameSt, codec: TextCodec) -> bool {
    &&& decodes(codec, st.nname@)
    &&& decodes(codec, st.nlabel@)
    &&& decodes(codec, st.nform@)
    &&& decodes(codec, st.niform@)
}

/// Whether all four text fields of a V8 namestr decode under `codec`.
pub open spec fn v8_texts_decode(st: V8NameSt, codec: TextCodec) -> bool {
    &&& decodes(codec, st.nlname@)
    &&& decodes(codec, st.nlabel@)
    &&& decodes(codec, st.nform@)
    &&& decodes(codec, st.niform@)
}

impl ColumnMeta {
    /// Build a column description from a V5 namestr: the name comes from
    /// the short `nname` field.
    pub fn from_v5(name_st: &V5NameSt, codec: TextCodec) -> (r: Result<ColumnMeta, XPTError>)
        ensures
            r is Ok <==> v5_texts_decode(*name_st, codec),
            r matches Ok(c) ==> {
                &&& c.column_type == column_type_of(name_st.ntype)
                &&& c.length == name_st.nlng
                &&& c.var_count == name_st.nvar0
                &&& c.name@ == decoded_text(codec, name_st.nname@)
                &&& c.label@ == decoded_text(codec, name_st.nlabel@)
                &&& c.format.0@ == decoded_text(codec, name_st.nform@)
                &&& c.format.1 == name_st.nfl
                &&& c.format.2 == name_st.nfd
                &&& c.in_format.0@ == decoded_text(codec, name_st.niform@)
                &&& c.in_format.1 == name_st.nifl
                &&& c.in_format.2 == name_st.nifd
                &&& c.offset == name_st.npos
            },
            r matches Err(e) ==> e is DecodeError,
    {
        let name = match decode_text(codec, name_st.nname.as_slice()) {
            Ok(s) => s,
            Err(e) => {
                return Err(e);
            },
        };
        let label = match decode_text(codec, name_st.nlabel.as_slice()) {
            Ok(s) => s,
            Err(e) => {
                return Err(e);
            },
        };
        let form = match decode_text(codec, name_st.nform.as_slice()) {
            Ok(s) => s,
            Err(e) => {
                return Err(e);
            },
        };
        let iform = match decode_text(codec, name_st.niform.as_slice()) {
            Ok(s) => s,
            Err(e) => {
                return Err(e);
            },
        };
        Ok(
            ColumnMeta {
                column_type: if name_st.ntype == 2 {
                    ColumnType::CHAR
                } else {
                    ColumnType::NUMERIC
                },
                length: name_st.nlng,
                var_count: name_st.nvar0,
                name,
                label,
                format: (form, name_st.nfl, name_st.nfd),
                in_format: (iform, name_st.nifl, name_st.nifd),
                offset: name_st.npos,
            },
        )
    }

    /// Build a column description from a V8 namestr: the name comes from
    /// the long `nlname` field.
    pub fn from_v8(name_st: &V8NameSt, codec: TextCodec) -> (r: Result<ColumnMeta, XPTError>)
        ensures
            r is Ok <==> v8_texts_decode(*name_st, codec),
            r matches Ok(c) ==> {
                &&& c.column_type == column_type_of(name_st.ntype)
                &&& c.length == name_st.nlng
                &&& c.var_count == name_st.nvar0
                &&& c.name@ == decoded_text(codec, name_st.nlname@)
                &&& c.label@ == decoded_text(codec, name_st.nlabel@)
                &&& c.format.0@ == decoded_text(codec, name_st.nform@)
                &&& c.format.1 == name_st.nfl
                &&& c.format.2 == name_st.nfd
                &&& c.in_format.0@ == decoded_text(codec, name_st.niform@)
                &&& c.in_format.1 == name_st.nifl
                &&& c.in_format.2 == name_st.nifd
                &&& c.offset == name_st.npos
            },
            r matches Err(e) ==> e is DecodeError,
    {
        let name = match decode_text(codec, name_st.nlname.as_slice()) {
            Ok(s) => s,
            Err(e) => {
                return Err(e);
            },
        };
        let label = match decode_text(codec, name_st.nlabel.as_slice()) {
            Ok(s) => s,
            Err(e) => {
                return Err(e);
            },
        };
        let form = match decode_text(codec, name_st.nform.as_slice()) {
            Ok(s) => s,
            Err(e) => {
                return Err(e);
            },
        };
        let iform = match decode_text(codec, name_st.niform.as_slice()) {
            Ok(s) => s,
            Err(e) => {
                return Err(e);
            },
        };
        Ok(
            ColumnMeta {
                column_type: if name_st.ntype == 2 {
                    ColumnType::CHAR
                } else {
                    ColumnType::NUMERIC
                },
                length: name_st.nlng,
                var_count: name_st.nvar0,
                name,
                label,
                format: (form, name_st.nfl, name_st.nfd),
                in_format: (iform, name_st.nifl, name_st.nifd),
                offset: name_st.npos,
            },
        )
    }
}

/// The assembled metadata of a dataset: header-derived text fields and
/// the ordered column descriptions.
#[derive(Debug)]
pub struct DocumentMeta {
    pub version: DocumentHeader,
    pub doc_version: String,
    pub operation_system: String,
    pub doc_update_time: String,
    pub dataset_name: String,
    pub lib_update_time: String,
    pub member_meta_length: u16,
    pub library: String,
    pub columns: Vec<ColumnMeta>,
}


impl<T: XptHeader> BufferFromByteArray<T> {
    /// Parse a whole 80-byte card into the typed wrapper.
    pub fn from_card(card: &[u8]) -> (r: Result<Self, XPTError>)
        requires
            card@.len() == 80,
        ensures
            T::parse_spec(card_title(card@), card_body(card@)) matches Some(v) ==> (r matches Ok(x)
                && x.0 == v),
            T::parse_spec(card_title(card@), card_body(card@)) is None ==> (r matches Err(e)
                && e is ParseError),
    {
        match T::new(card) {
            Ok(v) => Ok(BufferFromByteArray(v)),
            Err(e) => Err(e),
        }
    }
}

} // verus!
