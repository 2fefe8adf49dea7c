use vtpack::{VtPackError, VtPackFile, VtPackRawFile, VtPackVersion, INVALID_STRING_TABLE_OFFSET};

const NONE: u32 = INVALID_STRING_TABLE_OFFSET;

struct Rec {
    dir: u32,
    name: u32,
    size: u64,
    offset: u64,
}

fn rec(dir: u32, name: u32, size: u64, offset: u64) -> Rec {
    Rec { dir, name, size, offset }
}

fn entry_bytes(r: &Rec) -> Vec<u8> {
    let mut b = Vec::new();
    b.extend_from_slice(&r.dir.to_le_bytes());
    b.extend_from_slice(&r.name.to_le_bytes());
    b.extend_from_slice(&7u32.to_le_bytes());
    b.extend_from_slice(&r.size.to_le_bytes());
    b.extend_from_slice(&8u64.to_le_bytes());
    b.extend_from_slice(&r.offset.to_le_bytes());
    b.extend_from_slice(&9u32.to_le_bytes());
    b.extend_from_slice(&10u32.to_le_bytes());
    assert_eq!(b.len(), 44);
    b
}

/// Header, entry table, then `payload`, then the pool. `payload` starts at
/// `payload_start(version, recs.len())`.
fn build(version: u32, pool: &[u8], recs: &[Rec], payload: &[u8]) -> Vec<u8> {
    build_after(b"", version, pool, recs, payload)
}

/// Like `build`, with `lead` in front of the header; offsets count from the
/// start of `lead`.
fn build_after(lead: &[u8], version: u32, pool: &[u8], recs: &[Rec], payload: &[u8]) -> Vec<u8> {
    let mut b = lead.to_vec();
    b.extend_from_slice(b"vtPack");
    b.extend_from_slice(&version.to_le_bytes());
    b.extend_from_slice(&11u32.to_le_bytes());
    b.extend_from_slice(&12u32.to_le_bytes());
    let pool_offset = lead.len() + payload_start(version, recs.len()) + payload.len();
    if version == 2 {
        b.extend_from_slice(&13u64.to_le_bytes());
        b.extend_from_slice(&14u64.to_le_bytes());
        b.extend_from_slice(&(recs.len() as u32).to_le_bytes());
        b.extend_from_slice(&(pool_offset as u64).to_le_bytes());
    } else {
        b.extend_from_slice(&13u32.to_le_bytes());
        b.extend_from_slice(&14u32.to_le_bytes());
        b.extend_from_slice(&(recs.len() as u32).to_le_bytes());
        b.extend_from_slice(&(pool_offset as u32).to_le_bytes());
    }
    for r in recs {
        b.extend_from_slice(&entry_bytes(r));
    }
    b.extend_from_slice(payload);
    assert_eq!(b.len(), pool_offset);
    b.extend_from_slice(&(pool.len() as u32).to_le_bytes());
    b.extend_from_slice(pool);
    b
}

fn payload_start(version: u32, n: usize) -> usize {
    let header = if version == 2 { 46 } else { 34 };
    header + 44 * n
}

fn paths(f: &VtPackFile) -> Vec<String> {
    f.list_entries().iter().map(|e| e.get_path().clone()).collect()
}

#[test]
fn minimal_v1_archive_round_trip() {
    // "\a" at 0, "b.txt" at 3
    let pool = b"\\a\0b.txt\0";
    let start = payload_start(1, 2) as u64;
    let data = build(1, pool, &[rec(NONE, 0, 0, 0), rec(0, 3, 3, start)], b"xyz");
    let f = VtPackFile::decode_with_separator(&data, 0, '/').unwrap();
    let entries = f.list_entries();
    assert_eq!(entries.len(), 2);
    assert!(entries[0].is_dir());
    assert!(!entries[0].is_file());
    assert_eq!(entries[0].get_path(), "a");
    assert!(entries[1].is_file());
    assert_eq!(entries[1].get_path(), "a/b.txt");
    assert_eq!(entries[1].get_file_size(), 3);
    assert_eq!(entries.iter().filter(|e| e.is_file()).count(), 1);
    assert_eq!(entries.iter().filter(|e| e.is_dir()).count(), 1);
}

#[test]
fn platform_separator_is_used() {
    let pool = b"\\a\0b.txt\0";
    let data = build(1, pool, &[rec(0, 3, 1, 5)], b"");
    let f = VtPackFile::new(&data, 0).unwrap();
    let expected = format!("a{}b.txt", std::path::MAIN_SEPARATOR);
    assert_eq!(f.list_entries()[0].get_path(), &expected);
}

#[test]
fn backslash_separator_keeps_raw_form() {
    let pool = b"\\a\\b\0c\0";
    let data = build(1, pool, &[rec(0, 5, 1, 5)], b"");
    let f = VtPackFile::decode_with_separator(&data, 0, '\\').unwrap();
    assert_eq!(paths(&f), vec!["a\\b\\c".to_string()]);
}

#[test]
fn absent_directory_adds_no_separator() {
    let pool = b"file.bin\0\\\\lead\0";
    let data = build(1, pool, &[rec(NONE, 0, 1, 1), rec(NONE, 9, 1, 1)], b"");
    let f = VtPackFile::decode_with_separator(&data, 0, '/').unwrap();
    assert_eq!(paths(&f), vec!["file.bin".to_string(), "lead".to_string()]);
}

#[test]
fn both_segments_absent_give_empty_path() {
    let data = build(1, b"", &[rec(NONE, NONE, 0, 0)], b"");
    let f = VtPackFile::decode_with_separator(&data, 0, '/').unwrap();
    assert_eq!(paths(&f), vec![String::new()]);
}

#[test]
fn absent_name_adds_no_separator() {
    let data = build(1, b"dir\0\\top\\\0", &[rec(0, NONE, 0, 0), rec(4, NONE, 0, 0)], b"");
    let f = VtPackFile::decode_with_separator(&data, 0, '/').unwrap();
    assert_eq!(paths(&f), vec!["dir".to_string(), "top/".to_string()]);
}

#[test]
fn present_empty_name_keeps_separator() {
    let data = build(1, b"dir\0", &[rec(0, 3, 0, 0)], b"");
    let f = VtPackFile::decode_with_separator(&data, 0, '/').unwrap();
    assert_eq!(paths(&f), vec!["dir/".to_string()]);
}

#[test]
fn drive_prefix_is_removed() {
    // "C:" at 0, "x" at 3, "\\d:\\E:y" at 5
    let pool = b"C:\0x\0\\d:\\E:y\0";
    let recs = [rec(0, 3, 1, 1), rec(NONE, 5, 1, 1), rec(3, NONE, 1, 1)];
    let data = build(1, pool, &recs, b"");
    let f = VtPackFile::decode_with_separator(&data, 0, '/').unwrap();
    assert_eq!(paths(&f), vec!["x".to_string(), "y".to_string(), "x".to_string()]);
    let g = VtPackFile::decode_with_separator(&data, 0, '\\').unwrap();
    assert_eq!(paths(&g), vec!["x".to_string(), "y".to_string(), "x".to_string()]);
}

#[test]
fn drive_letter_inside_a_path_is_kept() {
    let data = build(1, b"a\0C:\0", &[rec(0, 2, 1, 1)], b"");
    let f = VtPackFile::decode_with_separator(&data, 0, '/').unwrap();
    assert_eq!(paths(&f), vec!["a/C:".to_string()]);
}

#[test]
fn forward_slash_root_is_removed_with_backslash_separator() {
    let data = build(1, b"/abs\0f\0", &[rec(0, 5, 1, 1)], b"");
    let f = VtPackFile::decode_with_separator(&data, 0, '\\').unwrap();
    assert_eq!(paths(&f), vec!["abs\\f".to_string()]);
}

#[test]
fn parent_segments_are_flagged() {
    // "..\\up" at 0, "a..b" at 6, "..." at 11, "x\\.." at 15
    let pool = b"..\\up\0a..b\0...\0x\\..\0";
    let recs = [rec(NONE, 0, 1, 1), rec(NONE, 6, 1, 1), rec(NONE, 11, 1, 1), rec(NONE, 15, 1, 1)];
    let data = build(1, pool, &recs, b"");
    let f = VtPackFile::decode_with_separator(&data, 0, '/').unwrap();
    assert_eq!(
        paths(&f),
        vec!["../up".to_string(), "a..b".to_string(), "...".to_string(), "x/..".to_string()]
    );
    let flags: Vec<bool> = f.list_entries().iter().map(|e| e.has_parent_segment()).collect();
    assert_eq!(flags, vec![true, false, false, true]);
}

#[test]
fn file_flag_follows_payload_offset() {
    let pool = b"d\0f\0";
    let data = build(1, pool, &[rec(0, 2, 99, 0), rec(0, 2, 5, 1)], b"");
    let f = VtPackFile::decode_with_separator(&data, 0, '/').unwrap();
    let e = f.list_entries();
    assert!(e[0].is_dir());
    assert_eq!(e[0].get_file_size(), 0);
    assert_eq!(e[0].get_file_data_offset(), 0);
    assert!(e[1].is_file());
    assert_eq!(e[1].get_file_size(), 5);
    assert_eq!(e[1].get_file_data_offset(), 1);
}

#[test]
fn leading_and_doubled_separators_are_removed() {
    // "\\\x" at 0, "\\y\\z" at 5, "/u" at 12
    let pool = b"\\\\\\x\0\\\\y\\\\z\0/u\0";
    let data = build(
        2,
        pool,
        &[rec(0, 5, 1, 1), rec(5, 0, 1, 1), rec(12, 12, 0, 0)],
        b"",
    );
    let f = VtPackFile::decode_with_separator(&data, 0, '/').unwrap();
    // "\\\x" + "\" + "\\y\\z": pairs collapse left to right
    assert_eq!(
        paths(&f),
        vec!["x//y/z".to_string(), "y/z//x".to_string(), "u//u".to_string()]
    );
    for p in paths(&f) {
        assert!(!p.starts_with('/'));
        assert!(!p.starts_with('\\'));
    }
}

#[test]
fn triple_separator_collapses_to_two() {
    let data = build(1, b"a\\\\\\b\0", &[rec(NONE, 0, 0, 0)], b"");
    let f = VtPackFile::decode_with_separator(&data, 0, '/').unwrap();
    assert_eq!(paths(&f), vec!["a//b".to_string()]);
}

#[test]
fn export_reads_payload_at_offset() {
    let pool = b"a\0b.txt\0";
    let start = payload_start(1, 2) as u64;
    let data = build(1, pool, &[rec(NONE, 0, 0, 0), rec(0, 2, 3, start + 2)], b"..XYZ..");
    let f = VtPackFile::decode_with_separator(&data, 0, '/').unwrap();
    let e = f.list_entries();
    assert!(e[0].is_dir());
    assert_eq!(e[0].get_path(), "a");
    assert!(e[1].is_file());
    assert_eq!(e[1].get_path(), "a/b.txt");
    assert_eq!(e[1].read_data(&data).unwrap(), b"XYZ".to_vec());
    assert_eq!(e[0].read_data(&data).unwrap(), Vec::<u8>::new());
}

#[test]
fn payload_past_end_is_truncated() {
    let data = build(1, b"f\0", &[rec(NONE, 0, 10, 40)], b"");
    let f = VtPackFile::decode_with_separator(&data, 0, '/').unwrap();
    let e = &f.list_entries()[0];
    assert_eq!(e.read_data(&data[..45]), Err(VtPackError::TruncatedPayload));
    assert_eq!(e.read_data(&data[..50]).unwrap(), data[40..50].to_vec());
    let far = build(1, b"f\0", &[rec(NONE, 0, 1, u64::MAX)], b"");
    let g = VtPackFile::decode_with_separator(&far, 0, '/').unwrap();
    assert_eq!(g.list_entries()[0].read_data(&far), Err(VtPackError::TruncatedPayload));
}

#[test]
fn truncated_pool_is_reported() {
    let data = build(1, b"abc\0def\0", &[rec(0, 4, 0, 0)], b"");
    for cut in 0..8 {
        let short = &data[..data.len() - 1 - cut];
        assert_eq!(VtPackFile::new(short, 0).err(), Some(VtPackError::TruncatedPool));
    }
}

#[test]
fn truncated_entry_table_is_reported() {
    // pool placed before the entry table, entry table cut short
    let mut data = Vec::new();
    data.extend_from_slice(b"vtPack");
    data.extend_from_slice(&1u32.to_le_bytes());
    data.extend_from_slice(&[0u8; 16]);
    data.extend_from_slice(&2u32.to_le_bytes());
    data.extend_from_slice(&0u32.to_le_bytes());
    assert_eq!(data.len(), 34);
    // pool at 0 reads the magic as its length: make it whole by pointing at 30
    let mut fixed = data.clone();
    fixed[30..34].copy_from_slice(&26u32.to_le_bytes());
    // length field at 26 is the entry count 2: pool bytes 30..32 are inside the header
    fixed.extend_from_slice(&entry_bytes(&rec(NONE, NONE, 0, 0)));
    assert_eq!(
        VtPackFile::new(&fixed, 0).err(),
        Some(VtPackError::TruncatedEntryTable)
    );
    fixed.extend_from_slice(&entry_bytes(&rec(NONE, NONE, 0, 0)));
    assert_eq!(VtPackFile::new(&fixed, 0).unwrap().list_entries().len(), 2);
}

#[test]
fn versions_decode_alike() {
    let pool = b"\\data\0x.bin\0\\data\\sub\0";
    let start1 = payload_start(1, 3) as u64;
    let start2 = payload_start(2, 3) as u64;
    let v1 = build(
        1,
        pool,
        &[rec(0, NONE, 0, 0), rec(0, 6, 4, start1), rec(12, NONE, 0, 0)],
        b"PAYL",
    );
    let v2 = build(
        2,
        pool,
        &[rec(0, NONE, 0, 0), rec(0, 6, 4, start2), rec(12, NONE, 0, 0)],
        b"PAYL",
    );
    let f1 = VtPackFile::decode_with_separator(&v1, 0, '/').unwrap();
    let f2 = VtPackFile::decode_with_separator(&v2, 0, '/').unwrap();
    assert_eq!(paths(&f1), paths(&f2));
    assert_eq!(paths(&f1), vec!["data".to_string(), "data/x.bin".to_string(), "data/sub".to_string()]);
    for (a, b) in f1.list_entries().iter().zip(f2.list_entries().iter()) {
        assert_eq!(a.is_file(), b.is_file());
        assert_eq!(a.get_file_size(), b.get_file_size());
    }
    assert_eq!(f1.list_entries()[1].read_data(&v1).unwrap(), b"PAYL".to_vec());
    assert_eq!(f2.list_entries()[1].read_data(&v2).unwrap(), b"PAYL".to_vec());
}

#[test]
fn raw_fields_follow_version() {
    let pool = b"a\0";
    let v1 = build(1, pool, &[rec(0, NONE, 0, 0)], b"");
    let r1 = VtPackRawFile::parse(&v1, 0).unwrap();
    assert_eq!(r1.version, VtPackVersion::Ver1);
    assert_eq!((r1.unk1, r1.unk2, r1.unk3_v1, r1.unk4_v1), (11, 12, 13, 14));
    assert_eq!((r1.unk3_v2, r1.unk4_v2, r1.str_table_abs_offset_v2), (0, 0, 0));
    assert_eq!(r1.str_table_abs_offset_v1 as usize, payload_start(1, 1));
    assert_eq!(r1.entry_count, 1);
    assert_eq!(r1.str_table.table_size, 2);
    assert_eq!(r1.str_table.table_data, b"a\0".to_vec());
    let e = r1.entries[0];
    assert_eq!((e.path_dir_str_table_offset, e.path_name_str_table_offset), (0, NONE));
    assert_eq!((e.unk1, e.unk2, e.unk3, e.unk4), (7, 8, 9, 10));

    let v2 = build(2, pool, &[rec(0, NONE, 0, 0)], b"");
    let r2 = VtPackRawFile::parse(&v2, 0).unwrap();
    assert_eq!(r2.version, VtPackVersion::Ver2);
    assert_eq!((r2.unk3_v2, r2.unk4_v2), (13, 14));
    assert_eq!((r2.unk3_v1, r2.unk4_v1, r2.str_table_abs_offset_v1), (0, 0, 0));
    assert_eq!(r2.str_table_abs_offset_v2 as usize, payload_start(2, 1));
}

#[test]
fn bad_magic_is_malformed() {
    let mut data = build(1, b"a\0", &[], b"");
    data[0] = b'V';
    assert_eq!(VtPackFile::new(&data, 0).err(), Some(VtPackError::MalformedHeader));
    assert_eq!(VtPackFile::new(b"", 0).err(), Some(VtPackError::MalformedHeader));
    assert_eq!(VtPackFile::new(b"vtPa", 0).err(), Some(VtPackError::MalformedHeader));
}

#[test]
fn short_header_is_malformed() {
    let data = build(2, b"a\0", &[], b"");
    assert_eq!(VtPackFile::new(&data[..8], 0).err(), Some(VtPackError::MalformedHeader));
    assert_eq!(VtPackFile::new(&data[..40], 0).err(), Some(VtPackError::MalformedHeader));
}

#[test]
fn unknown_version_is_unsupported() {
    for code in [0u32, 3, 256] {
        let mut data = build(1, b"a\0", &[], b"");
        data[6..10].copy_from_slice(&code.to_le_bytes());
        assert_eq!(VtPackFile::new(&data, 0).err(), Some(VtPackError::UnsupportedVersion));
    }
}

#[test]
fn string_offset_past_pool_is_rejected() {
    let data = build(1, b"a\0", &[rec(2, NONE, 0, 0)], b"");
    assert_eq!(
        VtPackFile::new(&data, 0).err(),
        Some(VtPackError::StringOffsetOutOfBounds)
    );
    let data = build(1, b"a\0", &[rec(NONE, 100, 0, 0)], b"");
    assert_eq!(
        VtPackFile::new(&data, 0).err(),
        Some(VtPackError::StringOffsetOutOfBounds)
    );
}

#[test]
fn unterminated_string_is_rejected() {
    let data = build(1, b"a\0bc", &[rec(2, NONE, 0, 0)], b"");
    assert_eq!(
        VtPackFile::new(&data, 0).err(),
        Some(VtPackError::StringOffsetOutOfBounds)
    );
}

#[test]
fn offset_zero_is_a_string() {
    let data = build(1, b"\0x\0", &[rec(0, 1, 0, 0)], b"");
    let f = VtPackFile::decode_with_separator(&data, 0, '/').unwrap();
    assert_eq!(paths(&f), vec!["x".to_string()]);
}

#[test]
fn invalid_utf8_is_replaced() {
    let data = build(1, b"a\xffb\0", &[rec(NONE, 0, 0, 0)], b"");
    let f = VtPackFile::decode_with_separator(&data, 0, '/').unwrap();
    assert_eq!(paths(&f), vec!["a\u{FFFD}b".to_string()]);
}

#[test]
fn empty_table_decodes() {
    let data = build(2, b"", &[], b"");
    let f = VtPackFile::new(&data, 0).unwrap();
    assert!(f.list_entries().is_empty());
}

#[test]
fn archive_keeps_raw_records() {
    let pool = b"a\0b\0";
    let data = build(2, pool, &[rec(0, 2, 6, 9), rec(NONE, 0, 0, 0)], b"");
    let f = VtPackFile::new(&data, 0).unwrap();
    let raw = f.raw();
    assert_eq!(raw.version, VtPackVersion::Ver2);
    assert_eq!(raw.entries.len(), 2);
    assert_eq!(raw.entries[0].file_size, 6);
    assert_eq!(raw.entries[0].file_data_abs_offset, 9);
    assert_eq!(raw.str_table.table_data, pool.to_vec());
}

#[test]
fn header_after_leading_bytes() {
    let lead = b"GARBAGE";
    let pool = b"d\0f.txt\0";
    let start = (lead.len() + payload_start(2, 1)) as u64;
    let data = build_after(lead, 2, pool, &[rec(0, 2, 2, start)], b"OK");
    assert_eq!(VtPackFile::new(&data, 0).err(), Some(VtPackError::MalformedHeader));
    let f = VtPackFile::decode_with_separator(&data, lead.len(), '/').unwrap();
    assert_eq!(paths(&f), vec!["d/f.txt".to_string()]);
    assert_eq!(f.list_entries()[0].read_data(&data).unwrap(), b"OK".to_vec());
    assert_eq!(
        VtPackFile::new(&data, data.len() - 4).err(),
        Some(VtPackError::MalformedHeader)
    );
    assert_eq!(
        VtPackFile::new(&data, usize::MAX).err(),
        Some(VtPackError::MalformedHeader)
    );
}

#[test]
fn file_size_of_directory_is_zero() {
    let data = build(1, b"d\0", &[rec(0, NONE, u64::from(u32::MAX), 0)], b"");
    let f = VtPackFile::new(&data, 0).unwrap();
    assert_eq!(f.list_entries()[0].get_file_size(), 0);
}
