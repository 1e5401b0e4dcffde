use xpt_reader::DocumentBase;
use xpt_reader::DocumentHeader;
use xpt_reader::FromBytes;
use xpt_reader::V5NameSt;
use xpt_reader::V5MemberTitleHeader;
use xpt_reader::V5NameStrTitleHeader;
use xpt_reader::V8NameSt;
use xpt_reader::V8LabelStrTitleHeader;
use xpt_reader::V8MemberTitleHeader;
use xpt_reader::V8NameStrTitleHeader;
use xpt_reader::V8ObsHeaderRecord;
use xpt_reader::XPTError;
use xpt_reader::XptHeader;

fn card(title: &str, body: &str) -> Vec<u8> {
    let mut v = vec![b' '; 80];
    v[0..20].copy_from_slice(b"HEADER RECORD*******");
    let t = title.as_bytes();
    assert!(t.len() <= 28);
    v[20..20 + t.len()].copy_from_slice(t);
    for i in 20 + t.len()..48 {
        v[i] = b'!';
    }
    let b = body.as_bytes();
    assert!(b.len() == 32);
    v[48..80].copy_from_slice(b);
    v
}

const ZEROS_BODY: &str = "000000000000000000000000000000  ";

#[test]
fn library_card_selects_v5() {
    let c = card("LIBRARY HEADER RECORD", ZEROS_BODY);
    let h = DocumentHeader::new(&c).unwrap();
    assert!(matches!(h, DocumentHeader::V5));
}

#[test]
fn libv8_card_selects_v8() {
    let c = card("LIBV8   HEADER RECORD", ZEROS_BODY);
    let h = DocumentHeader::new(&c).unwrap();
    assert!(matches!(h, DocumentHeader::V8));
}

#[test]
fn unknown_title_is_rejected() {
    let c = card("LIBRARYXHEADER RECORD", ZEROS_BODY);
    match DocumentHeader::new(&c) {
        Err(XPTError::ParseError(msg)) => assert_eq!(msg, "LIBRARYXHEADER RECORD"),
        _ => panic!("expected a parse error"),
    }
}

#[test]
fn bad_library_body_is_rejected() {
    let c = card("LIBRARY HEADER RECORD", "000000000000000000000000000001  ");
    assert!(matches!(DocumentHeader::new(&c), Err(XPTError::ParseError(_))));
}

#[test]
fn member_card_reads_namestr_length() {
    let c = card("MEMBER  HEADER RECORD", "000000000000000001600000000140  ");
    let h = V5MemberTitleHeader::new(&c).unwrap();
    assert_eq!(h.0, 140);
    let c8 = card("MEMBV8  HEADER RECORD", "000000000000000001600000000140  ");
    let h8 = V8MemberTitleHeader::new(&c8).unwrap();
    assert_eq!(h8.0, 140);
}

#[test]
fn member_card_rejects_bad_prefix() {
    let c = card("MEMBER  HEADER RECORD", "000000000000000001700000000140  ");
    assert!(matches!(V5MemberTitleHeader::new(&c), Err(XPTError::ParseError(_))));
}

#[test]
fn namestr_card_reads_column_count() {
    let c = card("NAMESTR HEADER RECORD", "0000000005000000000000000000    ");
    let h = V5NameStrTitleHeader::new(&c).unwrap();
    assert_eq!(h.0, 5);
    let c8 = card("NAMSTV8 HEADER RECORD", "0000000005000000000000000000    ");
    let h8 = V8NameStrTitleHeader::new(&c8).unwrap();
    assert_eq!(h8.0, 5);
}

#[test]
fn namestr_card_rejects_junk_count() {
    let c = card("NAMESTR HEADER RECORD", "000000previous                  ");
    assert!(matches!(V5NameStrTitleHeader::new(&c), Err(XPTError::ParseError(_))));
}

#[test]
fn obs_card_reads_declared_count() {
    let c = card("OBSV8   HEADER RECORD", "                             100");
    let h = V8ObsHeaderRecord::new(&c).unwrap();
    assert_eq!(h.0, 100);
}

#[test]
fn label_card_reads_record_count() {
    let c = card("LABELV8 HEADER RECORD", "2                               ");
    let h = V8LabelStrTitleHeader::new(&c).unwrap();
    assert_eq!(h.0, 2);
}

#[test]
fn title_is_cut_at_first_bang() {
    let mut c = card("OBSV8   HEADER RECORD", "                               7");
    // the filler after the title is already `!`; a second parse still works
    c[0] = b'x';
    let h = V8ObsHeaderRecord::new(&c).unwrap();
    assert_eq!(h.0, 7);
}

#[test]
fn short_slices_are_rejected_by_checked_decoding() {
    match <V5NameSt as FromBytes>::try_from_bytes(&[0u8; 87]) {
        Err(XPTError::ParseError(msg)) => assert_eq!(msg, "short slice"),
        _ => panic!("expected a parse error"),
    }
    assert!(<V5NameSt as FromBytes>::try_from_bytes(&[0u8; 88]).is_ok());
    match <V8NameSt as FromBytes>::try_from_bytes(&[0u8; 121]) {
        Err(XPTError::ParseError(msg)) => assert_eq!(msg, "short slice"),
        _ => panic!("expected a parse error"),
    }
    assert!(<V8NameSt as FromBytes>::try_from_bytes(&[0u8; 122]).is_ok());
    match <DocumentBase as FromBytes>::try_from_bytes(&[0u8; 79]) {
        Err(XPTError::ParseError(msg)) => assert_eq!(msg, "short slice"),
        _ => panic!("expected a parse error"),
    }
    assert!(<DocumentBase as FromBytes>::try_from_bytes(&[0u8; 80]).is_ok());
    assert!(<u16 as FromBytes>::try_from_bytes(&[1u8]).is_err());
    assert!(<u32 as FromBytes>::try_from_bytes(&[1u8, 2, 3, 4]).is_ok());
}
