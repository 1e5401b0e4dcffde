use xpt_reader::reader::Reader;
use xpt_reader::ColumnType;
use xpt_reader::TextCodec;
use xpt_reader::Val;

fn card(title: &str, body: &str) -> Vec<u8> {
    let mut v = vec![b' '; 80];
    v[0..20].copy_from_slice(b"HEADER RECORD*******");
    let t = title.as_bytes();
    v[20..20 + t.len()].copy_from_slice(t);
    for i in 20 + t.len()..48 {
        v[i] = b'!';
    }
    let b = body.as_bytes();
    assert!(b.len() == 32);
    v[48..80].copy_from_slice(b);
    v
}

fn plain80(text: &str) -> Vec<u8> {
    let mut v = vec![b' '; 80];
    let t = text.as_bytes();
    v[0..t.len()].copy_from_slice(t);
    v
}

fn put(v: &mut [u8], off: usize, s: &str) {
    let b = s.as_bytes();
    v[off..off + b.len()].copy_from_slice(b);
}

fn base_card(dataset_name: &str, version: &str, os: &str) -> Vec<u8> {
    let mut v = vec![b' '; 80];
    put(&mut v, 0, "SAS     ");
    put(&mut v, 8, dataset_name);
    put(&mut v, 16, "SASLIB  ");
    put(&mut v, 24, version);
    put(&mut v, 32, os);
    put(&mut v, 64, "01JAN24:00:00:00");
    v
}

fn namestr_v8(
    ntype: u16,
    nlng: u16,
    nvar0: u16,
    name: &str,
    label: &str,
    npos: u32,
    lablen: u16,
) -> Vec<u8> {
    let mut v = vec![0u8; 140];
    v[0..2].copy_from_slice(&ntype.to_be_bytes());
    v[4..6].copy_from_slice(&nlng.to_be_bytes());
    v[6..8].copy_from_slice(&nvar0.to_be_bytes());
    let mut name8 = [b' '; 8];
    name8[..name.len().min(8)].copy_from_slice(&name.as_bytes()[..name.len().min(8)]);
    v[8..16].copy_from_slice(&name8);
    let mut label40 = [b' '; 40];
    let l = label.len().min(40);
    label40[..l].copy_from_slice(&label.as_bytes()[..l]);
    v[16..56].copy_from_slice(&label40);
    for i in 56..64 {
        v[i] = b' ';
    }
    for i in 72..80 {
        v[i] = b' ';
    }
    v[84..88].copy_from_slice(&npos.to_be_bytes());
    let mut name32 = [b' '; 32];
    name32[..name.len()].copy_from_slice(name.as_bytes());
    v[88..120].copy_from_slice(&name32);
    v[120..122].copy_from_slice(&lablen.to_be_bytes());
    v
}

const LONG_LABEL: &str = "A label that is much longer than forty characters ever";

fn v8_header(declared_rows: &str) -> Vec<u8> {
    assert_eq!(LONG_LABEL.len(), 54);
    let mut data: Vec<u8> = Vec::new();
    data.extend(card("LIBV8   HEADER RECORD", "000000000000000000000000000000  "));
    data.extend(base_card("SASLIB  ", "9.4     ", "Linux   "));
    data.extend(plain80("01JAN24:00:00:00"));
    data.extend(card("MEMBV8  HEADER RECORD", "000000000000000001600000000140  "));
    data.extend(plain80("SAS     LB2     SASDATA "));
    data.extend(base_card("LB2     ", "9.4     ", "Linux   "));
    data.extend(plain80("02JAN24:00:00:00"));
    data.extend(card("NAMSTV8 HEADER RECORD", "0000000002                      "));
    data.extend(namestr_v8(1, 8, 1, "COLONE", "short", 0, 54));
    data.extend(namestr_v8(2, 4, 2, "COLTWO", "plain", 8, 5));
    data.extend(vec![b' '; 40]);
    data.extend(card("LABELV8 HEADER RECORD", "1                               "));
    // one supplement record: ordinal, name length, label length, then text
    let mut rec: Vec<u8> = Vec::new();
    rec.extend(&1u16.to_be_bytes());
    rec.extend(&6u16.to_be_bytes());
    rec.extend(&(LONG_LABEL.len() as u16).to_be_bytes());
    rec.extend(b"COLONE");
    rec.extend(LONG_LABEL.as_bytes());
    assert_eq!(rec.len(), 6 + 6 + 54);
    data.extend(rec);
    // (6 + 6 + 54) % 80 == 66, so fourteen bytes pad to the boundary
    data.extend(vec![b' '; 14]);
    data.extend(card("OBSV8   HEADER RECORD", declared_rows));
    data
}

#[test]
fn v8_long_label_is_patched() {
    let data = v8_header("                               3");
    let (_raw, meta, used) = Reader::start(TextCodec::Utf8, &data).unwrap();
    assert_eq!(used, data.len());
    assert_eq!(used % 80, 0);
    assert!(matches!(meta.version, xpt_reader::DocumentHeader::V8));
    assert_eq!(meta.columns.len(), 2);
    assert_eq!(meta.columns[0].name, "COLONE");
    assert_eq!(meta.columns[0].label, LONG_LABEL);
    assert_eq!(meta.columns[1].name, "COLTWO");
    assert_eq!(meta.columns[1].label, "plain");
    assert!(matches!(meta.columns[1].column_type, ColumnType::CHAR));
}

#[test]
fn v8_declared_count_limits_rows() {
    let data = v8_header("                               3");
    let (mut raw, _meta, _used) = Reader::start(TextCodec::Utf8, &data).unwrap();
    assert_eq!(raw.line_len(), 12);
    let mut row: Vec<u8> = vec![0x41, 0x20, 0, 0, 0, 0, 0, 0];
    row.extend(b"ok  ");
    for _ in 0..3 {
        let vals = raw.read_line(&row).unwrap().unwrap();
        assert_eq!(vals.len(), 2);
        match &vals[0] {
            Val::Number(bits) => assert_eq!(f64::from_bits(*bits), 2.0),
            _ => panic!("expected a number"),
        }
    }
    // padding still supplies full chunks, but the declared count has been reached
    assert!(raw.read_line(&row).unwrap().is_none());
    assert!(raw.read_line(&row).unwrap().is_none());
}

#[test]
fn v8_hundred_rows_then_none() {
    let data = v8_header("                             100");
    let (mut raw, _meta, _used) = Reader::start(TextCodec::Utf8, &data).unwrap();
    let mut row: Vec<u8> = vec![0x41, 0x10, 0, 0, 0, 0, 0, 0];
    row.extend(b"r   ");
    let mut produced = 0;
    loop {
        match raw.read_line(&row).unwrap() {
            Some(_) => produced += 1,
            None => break,
        }
    }
    assert_eq!(produced, 100);
}

#[test]
fn v8_supplement_for_unknown_column_is_an_error() {
    let mut data = v8_header("                               3");
    // corrupt the supplement record's ordinal: no column carries it
    let pos = data.len() - 80 - 14 - 66;
    data[pos..pos + 2].copy_from_slice(&9u16.to_be_bytes());
    match Reader::start(TextCodec::Utf8, &data) {
        Err(xpt_reader::XPTError::ParseError(_)) => {},
        _ => panic!("expected a parse error"),
    }
}
