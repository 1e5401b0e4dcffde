use xpt_reader::reader::Reader;
use xpt_reader::ColumnType;
use xpt_reader::TextCodec;
use xpt_reader::Val;

fn card(title: &str, body: &str) -> Vec<u8> {
    let mut v = vec![b' '; 80];
    v[0..20].copy_from_slice(b"HEADER RECORD*******");
    let t = title.as_bytes();
    v[20..20 + t.len()].copy_from_slice(t);
    for i in 20 + t.len()..48 {
        v[i] = b'!';
    }
    let b = body.as_bytes();
    assert!(b.len() == 32);
    v[48..80].copy_from_slice(b);
    v
}

fn plain80(text: &str) -> Vec<u8> {
    let mut v = vec![b' '; 80];
    let t = text.as_bytes();
    v[0..t.len()].copy_from_slice(t);
    v
}

fn put(v: &mut [u8], off: usize, s: &str) {
    let b = s.as_bytes();
    v[off..off + b.len()].copy_from_slice(b);
}

fn base_card(dataset_name: &str, version: &str, os: &str) -> Vec<u8> {
    let mut v = vec![b' '; 80];
    put(&mut v, 0, "SAS     ");
    put(&mut v, 8, dataset_name);
    put(&mut v, 16, "SASLIB  ");
    put(&mut v, 24, version);
    put(&mut v, 32, os);
    put(&mut v, 64, "01JAN24:00:00:00");
    v
}

fn namestr_v5(ntype: u16, nlng: u16, nvar0: u16, name: &str, label: &str, npos: u32) -> Vec<u8> {
    let mut v = vec![0u8; 140];
    v[0..2].copy_from_slice(&ntype.to_be_bytes());
    v[4..6].copy_from_slice(&nlng.to_be_bytes());
    v[6..8].copy_from_slice(&nvar0.to_be_bytes());
    let mut name8 = [b' '; 8];
    name8[..name.len()].copy_from_slice(name.as_bytes());
    v[8..16].copy_from_slice(&name8);
    let mut label40 = [b' '; 40];
    label40[..label.len()].copy_from_slice(label.as_bytes());
    v[16..56].copy_from_slice(&label40);
    for i in 56..64 {
        v[i] = b' ';
    }
    for i in 72..80 {
        v[i] = b' ';
    }
    v[84..88].copy_from_slice(&npos.to_be_bytes());
    v
}

fn v5_header() -> Vec<u8> {
    let mut data: Vec<u8> = Vec::new();
    data.extend(card("LIBRARY HEADER RECORD", "000000000000000000000000000000  "));
    data.extend(base_card("SASLIB  ", "9.4     ", "Linux   "));
    data.extend(plain80("01JAN24:00:00:00"));
    data.extend(card("MEMBER  HEADER RECORD", "000000000000000001600000000140  "));
    data.extend(plain80("SAS     LB2     SASDATA "));
    data.extend(base_card("LB2     ", "9.4     ", "Linux   "));
    data.extend(plain80("02JAN24:00:00:00"));
    data.extend(card("NAMESTR HEADER RECORD", "0000000002                      "));
    data.extend(namestr_v5(1, 8, 1, "AGE", "Age in years", 0));
    data.extend(namestr_v5(2, 8, 2, "NAME", "Subject name", 8));
    // 280 namestr bytes leave 40 over the last 80-byte boundary
    data.extend(vec![b' '; 40]);
    data.extend(plain80("OBS     HEADER RECORD"));
    data
}

#[test]
fn v5_header_is_assembled() {
    let data = v5_header();
    let (_raw, meta, used) = Reader::start(TextCodec::Utf8, &data).unwrap();
    assert_eq!(used, data.len());
    assert_eq!(used % 80, 0);
    assert!(matches!(meta.version, xpt_reader::DocumentHeader::V5));
    assert_eq!(meta.member_meta_length, 140);
    assert_eq!(meta.library, "LB2");
    assert_eq!(meta.dataset_name, "9.4");
    assert_eq!(meta.doc_version, "9.4");
    assert_eq!(meta.operation_system, "Linux");
    assert_eq!(meta.columns.len(), 2);
    assert_eq!(meta.columns[0].name, "AGE");
    assert_eq!(meta.columns[0].label, "Age in years");
    assert!(matches!(meta.columns[0].column_type, ColumnType::NUMERIC));
    assert_eq!(meta.columns[0].var_count, 1);
    assert_eq!(meta.columns[0].offset, 0);
    assert_eq!(meta.columns[1].name, "NAME");
    assert!(matches!(meta.columns[1].column_type, ColumnType::CHAR));
    assert_eq!(meta.columns[1].offset, 8);
}

#[test]
fn v5_rows_are_projected() {
    let data = v5_header();
    let (mut raw, meta, used) = Reader::start(TextCodec::Utf8, &data).unwrap();
    assert_eq!(used, data.len());
    assert_eq!(raw.line_len(), 16);

    // first row: the number one, then character data
    let mut row1: Vec<u8> = vec![0x41, 0x10, 0, 0, 0, 0, 0, 0];
    row1.extend(b"AB      ");
    let vals = raw.read_line(&row1).unwrap().unwrap();
    assert_eq!(vals.len(), meta.columns.len());
    match &vals[0] {
        Val::Number(bits) => assert_eq!(f64::from_bits(*bits), 1.0),
        _ => panic!("expected a number"),
    }
    match &vals[1] {
        Val::Char(s) => assert_eq!(s, "AB"),
        _ => panic!("expected character data"),
    }

    // second row: a missing value
    let mut row2: Vec<u8> = vec![0x2E, 0, 0, 0, 0, 0, 0, 0];
    row2.extend(b"CD      ");
    let vals2 = raw.read_line(&row2).unwrap().unwrap();
    assert!(matches!(vals2[0], Val::Nil));

    // a short trailing read ends the stream without error
    let pad = vec![b' '; 10];
    assert!(raw.read_line(&pad).unwrap().is_none());
}

#[test]
fn v5_short_padding_ends_stream() {
    // seventeen rows of sixteen bytes, then a tail shorter than one row
    let data = v5_header();
    let (mut raw, _meta, _used) = Reader::start(TextCodec::Utf8, &data).unwrap();
    let mut row: Vec<u8> = vec![0x41, 0x10, 0, 0, 0, 0, 0, 0];
    row.extend(b"XY      ");
    for _ in 0..17 {
        assert!(raw.read_line(&row).unwrap().is_some());
    }
    let tail = vec![b' '; 12];
    assert!(raw.read_line(&tail).unwrap().is_none());
}

#[test]
fn v5_columns_are_sorted_by_ordinal() {
    // namestr records arrive in reverse ordinal order
    let mut data: Vec<u8> = Vec::new();
    data.extend(card("LIBRARY HEADER RECORD", "000000000000000000000000000000  "));
    data.extend(base_card("SASLIB  ", "9.4     ", "Linux   "));
    data.extend(plain80("01JAN24:00:00:00"));
    data.extend(card("MEMBER  HEADER RECORD", "000000000000000001600000000140  "));
    data.extend(plain80("SAS     LB2     SASDATA "));
    data.extend(base_card("LB2     ", "9.4     ", "Linux   "));
    data.extend(plain80("02JAN24:00:00:00"));
    data.extend(card("NAMESTR HEADER RECORD", "0000000002                      "));
    data.extend(namestr_v5(2, 8, 2, "SECOND", "", 8));
    data.extend(namestr_v5(1, 8, 1, "FIRST", "", 0));
    data.extend(vec![b' '; 40]);
    data.extend(plain80("OBS     HEADER RECORD"));
    let (mut raw, meta, _used) = Reader::start(TextCodec::Utf8, &data).unwrap();
    assert_eq!(meta.columns[0].name, "FIRST");
    assert_eq!(meta.columns[0].var_count, 1);
    assert_eq!(meta.columns[1].name, "SECOND");
    assert_eq!(meta.columns[1].var_count, 2);
    // row values follow the sorted order as well
    let mut row: Vec<u8> = vec![0x41, 0x10, 0, 0, 0, 0, 0, 0];
    row.extend(b"zz      ");
    let vals = raw.read_line(&row).unwrap().unwrap();
    assert!(matches!(vals[0], Val::Number(_)));
    assert!(matches!(&vals[1], Val::Char(s) if s == "zz"));
}

#[test]
fn v5_gbk_labels_via_feed_loop() {
    let mut data: Vec<u8> = Vec::new();
    data.extend(card("LIBRARY HEADER RECORD", "000000000000000000000000000000  "));
    data.extend(base_card("SASLIB  ", "9.4     ", "Linux   "));
    data.extend(plain80("01JAN24:00:00:00"));
    data.extend(card("MEMBER  HEADER RECORD", "000000000000000001600000000140  "));
    data.extend(plain80("SAS     LB2     SASDATA "));
    data.extend(base_card("LB2     ", "9.4     ", "Linux   "));
    data.extend(plain80("02JAN24:00:00:00"));
    data.extend(card("NAMESTR HEADER RECORD", "0000000001                      "));
    let mut ns = namestr_v5(2, 8, 1, "NAME", "", 0);
    ns[16] = 0xC4;
    ns[17] = 0xE3;
    data.extend(ns);
    data.extend(vec![b' '; 20]);
    data.extend(plain80("OBS     HEADER RECORD"));

    let mut rdr = Reader::new_gbk();
    let mut pos = 0usize;
    while !rdr.is_done() {
        let n = rdr.needed();
        rdr.feed(&data[pos..pos + n]).unwrap();
        pos += n;
    }
    assert_eq!(pos, data.len());
    let (_raw, meta) = rdr.finish();
    assert_eq!(meta.columns[0].label, "\u{4f60}");
    assert_eq!(meta.columns[0].name, "NAME");
}

#[test]
fn v5_zero_columns() {
    let mut data: Vec<u8> = Vec::new();
    data.extend(card("LIBRARY HEADER RECORD", "000000000000000000000000000000  "));
    data.extend(base_card("SASLIB  ", "9.4     ", "Linux   "));
    data.extend(plain80("01JAN24:00:00:00"));
    data.extend(card("MEMBER  HEADER RECORD", "000000000000000001600000000140  "));
    data.extend(plain80("SAS     LB2     SASDATA "));
    data.extend(base_card("LB2     ", "9.4     ", "Linux   "));
    data.extend(plain80("02JAN24:00:00:00"));
    data.extend(card("NAMESTR HEADER RECORD", "0000000000                      "));
    data.extend(plain80("OBS     HEADER RECORD"));
    let (mut raw, meta, used) = Reader::start(TextCodec::Utf8, &data).unwrap();
    assert_eq!(used, data.len());
    assert_eq!(meta.columns.len(), 0);
    assert_eq!(raw.line_len(), 0);
    assert!(raw.read_line(&[]).unwrap().is_none());
}

#[test]
fn v5_truncated_header_is_an_error() {
    let data = v5_header();
    let r = Reader::start(TextCodec::Utf8, &data[..500]);
    assert!(r.is_err());
}

#[test]
fn v5_wrong_first_card_is_an_error() {
    let mut data = v5_header();
    data[20] = b'X';
    let r = Reader::start(TextCodec::Utf8, &data);
    match r {
        Err(xpt_reader::XPTError::ParseError(_)) => {},
        _ => panic!("expected a parse error"),
    }
}
