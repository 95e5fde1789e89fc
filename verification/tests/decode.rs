use ds_store::{block_offset, code_units, find_block, is_magic, put_entry, text_from};
use ds_store::{ArrayAsInt, DSStore, DSStoreError, Record};

const MAGIC: [u8; 8] = [0x00, 0x00, 0x00, 0x01, 0x42, 0x75, 0x64, 0x31];

fn put(buf: &mut Vec<u8>, at: usize, bytes: &[u8]) {
    if buf.len() < at + bytes.len() {
        buf.resize(at + bytes.len(), 0);
    }
    buf[at..at + bytes.len()].copy_from_slice(bytes);
}

fn word(v: u32) -> [u8; 4] {
    v.to_be_bytes()
}

fn record_bytes(name: &str, id: u32, tag: &str) -> Vec<u8> {
    let units: Vec<u16> = name.encode_utf16().collect();
    let mut out = Vec::new();
    out.extend_from_slice(&word(units.len() as u32));
    for u in units {
        out.extend_from_slice(&u.to_be_bytes());
    }
    out.extend_from_slice(&word(id));
    out.extend_from_slice(tag.as_bytes());
    out
}

fn leaf_bytes(records: &[(&str, u32, &str)]) -> Vec<u8> {
    let mut out = Vec::new();
    out.extend_from_slice(&word(0));
    out.extend_from_slice(&word(records.len() as u32));
    for (name, id, tag) in records {
        out.extend_from_slice(&record_bytes(name, *id, tag));
    }
    out
}

/// Header at 0, root block payload at 36, then the tables.
fn root_part(offsets: &[u32], toc: &[(&[u8], u32)], free: &[(usize, Vec<u32>)]) -> Vec<u8> {
    let mut buf = Vec::new();
    put(&mut buf, 0, &MAGIC);
    put(&mut buf, 8, &word(32));
    put(&mut buf, 16, &word(32));
    let start = 36;
    put(&mut buf, start, &word(offsets.len() as u32));
    let mut at = start + 8;
    for o in offsets {
        put(&mut buf, at, &word(*o));
        at += 4;
    }
    at = start + 1020 + 4 * offsets.len();
    put(&mut buf, at, &word(toc.len() as u32));
    at += 4;
    for (name, block) in toc {
        put(&mut buf, at, &[name.len() as u8]);
        put(&mut buf, at + 1, name);
        put(&mut buf, at + 1 + name.len(), &word(*block));
        at += 5 + name.len();
    }
    for class in 0..32 {
        let items: Vec<u32> = free
            .iter()
            .filter(|(c, _)| *c == class)
            .flat_map(|(_, v)| v.clone())
            .collect();
        put(&mut buf, at, &word(items.len() as u32));
        at += 4;
        for i in items {
            put(&mut buf, at, &word(i));
            at += 4;
        }
    }
    buf
}

/// A container whose descriptor is at 0x1000 and whose root node is at
/// 0x1100: `node` is the root node's bytes.
fn container(levels: u32, node: &[u8]) -> Vec<u8> {
    let mut buf = root_part(
        &[0x2000 | 0x0b, 0x1000 | 0x05, 0x3000],
        &[(b"DSDB", 1)],
        &[(5, vec![0x20, 0x60]), (11, vec![0x800])],
    );
    put(&mut buf, 0x1000, &word(0x1100 | 0x07));
    put(&mut buf, 0x1004, &word(levels));
    put(&mut buf, 0x1008, &word(3));
    put(&mut buf, 0x100c, &word(2));
    put(&mut buf, 0x1100, node);
    buf
}

fn names(store: &DSStore) -> Vec<String> {
    store.records.iter().map(|r| r.file_name.clone()).collect()
}

#[test]
fn minimal_container_decodes_to_expected_values() {
    let node = leaf_bytes(&[("a", 1, "Iloc"), ("a", 2, "bwsp"), ("b", 3, "cmmt")]);
    let store = DSStore::new(container(0, &node)).parse().unwrap();
    assert_eq!(store.offsets, vec![0x200b, 0x1005, 0x3000]);
    assert_eq!(store.table_of_contents, vec![("DSDB".to_string(), 1)]);
    assert_eq!(store.free_list.len(), 32);
    assert_eq!(store.free_list[&32], vec![0x20, 0x60]);
    assert_eq!(store.free_list[&2048], vec![0x800]);
    assert_eq!(store.internal_block_levels, 0);
    assert_eq!(store.record_count, 3);
    assert_eq!(store.block_count, 2);
    assert_eq!(store.records.len(), 3);
    assert_eq!(store.records[0].file_name, "a");
    assert_eq!(store.records[0].structure_id, 1);
    assert_eq!(store.records[0].structure_type, "Iloc");
    assert_eq!(store.records[1].file_name, "a");
    assert_eq!(store.records[1].structure_id, 2);
    assert_eq!(store.records[1].structure_type, "bwsp");
    assert_eq!(store.records[2].file_name, "b");
    assert_eq!(store.records[2].structure_id, 3);
    assert_eq!(store.records[2].structure_type, "cmmt");
}

#[test]
fn toc_holds_every_entry_written() {
    let mut buf = root_part(
        &[0x1000],
        &[(b"DSDB", 0), (b"alpha", 7), (b"", 9), ("caf\u{e9}".as_bytes(), 0xffff_ffff)],
        &[],
    );
    put(&mut buf, 0x1000, &[0u8; 16]);
    put(&mut buf, 0, &[0u8; 8]);
    put(&mut buf, 0, &MAGIC);
    let mut store = DSStore::new(buf);
    store.jump_to(36).unwrap();
    store.parse_root().unwrap();
    assert_eq!(
        store.table_of_contents,
        vec![
            ("DSDB".to_string(), 0),
            ("alpha".to_string(), 7),
            ("".to_string(), 9),
            ("caf\u{e9}".to_string(), 0xffff_ffff),
        ]
    );
}

#[test]
fn repeated_toc_name_keeps_its_place_and_last_block() {
    let buf = root_part(&[], &[(b"x", 1), (b"y", 2), (b"x", 3)], &[]);
    let mut store = DSStore::new(buf);
    store.jump_to(36).unwrap();
    store.parse_root().unwrap();
    assert_eq!(store.table_of_contents, vec![("x".to_string(), 3), ("y".to_string(), 2)]);
}

#[test]
fn put_entry_replaces_or_appends() {
    let mut toc = vec![("a".to_string(), 1), ("b".to_string(), 2)];
    put_entry(&mut toc, "b".to_string(), 5);
    assert_eq!(toc, vec![("a".to_string(), 1), ("b".to_string(), 5)]);
    put_entry(&mut toc, "c".to_string(), 6);
    assert_eq!(toc, vec![("a".to_string(), 1), ("b".to_string(), 5), ("c".to_string(), 6)]);
    assert_eq!(find_block(&toc, &"b".to_string()), Some(5));
    assert_eq!(find_block(&toc, &"z".to_string()), None);
}

#[test]
fn empty_buckets_are_present_and_empty() {
    let buf = root_part(&[], &[], &[(3, vec![0x40])]);
    let mut store = DSStore::new(buf);
    store.jump_to(36).unwrap();
    store.parse_root().unwrap();
    assert_eq!(store.free_list.len(), 32);
    for class in 0..32u32 {
        let key = 1usize << class;
        let items = store.free_list.get(&key).expect("bucket is stored");
        if class == 3 {
            assert_eq!(items, &vec![0x40]);
        } else {
            assert!(items.is_empty());
        }
    }
}

#[test]
fn block_offset_clears_the_low_five_bits() {
    for v in [0u32, 1, 31, 32, 33, 0x1005, 0x200b, 0xffff_ffff, 0xffff_ffe0, 0x8000_001f] {
        let r = block_offset(v as usize);
        assert_eq!(r, (v & 0xFFFF_FFE0) as usize);
        assert_eq!(r & 0x1f, 0);
    }
    assert_eq!(block_offset(0x47), 0x40);
}

#[test]
fn truncated_header_reports_the_required_end() {
    let node = leaf_bytes(&[("a", 1, "Iloc")]);
    let full = container(0, &node);
    for cut in 0..36usize {
        let expected = if cut < 8 {
            8
        } else if cut < 12 {
            12
        } else if cut < 16 {
            16
        } else if cut < 20 {
            20
        } else {
            36
        };
        let r = DSStore::new(full[..cut].to_vec()).parse();
        match r {
            Err(DSStoreError::TooLittleData(n)) => assert_eq!(n, expected, "cut at {}", cut),
            _ => panic!("cut at {} was not refused for its length", cut),
        }
    }
}

#[test]
fn every_truncation_is_refused_for_its_length() {
    let node = leaf_bytes(&[("a", 1, "Iloc"), ("b", 2, "bwsp")]);
    let full = container(0, &node);
    assert!(DSStore::new(full.clone()).parse().is_ok());
    for cut in 0..full.len() {
        match DSStore::new(full[..cut].to_vec()).parse() {
            Err(DSStoreError::TooLittleData(n)) => {
                assert!(n > cut);
                assert!(n <= full.len());
            }
            _ => panic!("cut at {} was not refused for its length", cut),
        }
    }
}

#[test]
fn truncated_read_reports_its_end_and_stays() {
    let mut store = DSStore::new(vec![1, 2, 3, 4, 5, 6]);
    assert_eq!(store.read(4).unwrap(), vec![1, 2, 3, 4]);
    assert_eq!(store.position(), 4);
    assert!(matches!(store.read(3), Err(DSStoreError::TooLittleData(7))));
    assert_eq!(store.position(), 4);
    assert!(matches!(store.skip(3), Err(DSStoreError::TooLittleData(7))));
    assert_eq!(store.position(), 4);
    assert!(matches!(store.read_u32(), Err(DSStoreError::TooLittleData(8))));
    assert!(matches!(store.jump_to(7), Err(DSStoreError::TooLittleData(7))));
    assert_eq!(store.position(), 4);
    assert!(matches!(store.read(usize::MAX), Err(DSStoreError::TooLittleData(usize::MAX))));
    assert_eq!(store.read_one().unwrap(), 5);
    store.skip(1).unwrap();
    assert_eq!(store.position(), 6);
    assert!(matches!(store.read_one(), Err(DSStoreError::TooLittleData(7))));
    assert_eq!(store.read(0).unwrap(), Vec::<u8>::new());
    store.jump_to(6).unwrap();
    store.jump_to(0).unwrap();
    assert_eq!(store.read_u32().unwrap(), 0x01020304);
}

#[test]
fn wrong_signature_byte_is_bad_magic() {
    let node = leaf_bytes(&[("a", 1, "Iloc")]);
    let full = container(0, &node);
    for i in 0..8 {
        let mut buf = full.clone();
        buf[i] ^= 0x10;
        assert!(matches!(DSStore::new(buf.clone()).parse(), Err(DSStoreError::BadMagic)));
        buf.truncate(8);
        assert!(matches!(DSStore::new(buf).parse(), Err(DSStoreError::BadMagic)));
    }
    assert!(is_magic(&MAGIC.to_vec()));
    assert!(!is_magic(&vec![0, 0, 0, 1, 0x42, 0x75, 0x64]));
}

#[test]
fn leaf_records_keep_their_disk_order() {
    let node = leaf_bytes(&[("b", 1, "Iloc"), ("a", 2, "Iloc"), ("c", 3, "Iloc")]);
    let store = DSStore::new(container(0, &node)).parse().unwrap();
    assert_eq!(names(&store), vec!["b", "a", "c"]);
    let node = leaf_bytes(&[("a", 2, "Iloc"), ("b", 1, "Iloc"), ("c", 3, "Iloc")]);
    let store = DSStore::new(container(0, &node)).parse().unwrap();
    assert_eq!(names(&store), vec!["a", "b", "c"]);
}

fn two_level_container(levels: u32) -> Vec<u8> {
    let mut root = Vec::new();
    root.extend_from_slice(&word(0x1400 | 0x03));
    root.extend_from_slice(&word(2));
    root.extend_from_slice(&word(0x1200 | 0x01));
    root.extend_from_slice(&record_bytes("c", 3, "Iloc"));
    root.extend_from_slice(&word(0x1300));
    root.extend_from_slice(&record_bytes("f", 6, "Iloc"));
    let mut buf = container(levels, &root);
    put(&mut buf, 0x1200, &leaf_bytes(&[("a", 1, "Iloc"), ("b", 2, "Iloc")]));
    put(&mut buf, 0x1300, &leaf_bytes(&[("d", 4, "Iloc"), ("e", 5, "Iloc")]));
    put(&mut buf, 0x1400, &leaf_bytes(&[("g", 7, "Iloc")]));
    buf
}

#[test]
fn inner_node_is_walked_left_to_right() {
    let store = DSStore::new(two_level_container(1)).parse().unwrap();
    assert_eq!(names(&store), vec!["a", "b", "c", "d", "e", "f", "g"]);
    assert_eq!(store.internal_block_levels, 1);
    let ids: Vec<usize> = store.records.iter().map(|r| r.structure_id).collect();
    assert_eq!(ids, vec![1, 2, 3, 4, 5, 6, 7]);
}

#[test]
fn tree_deeper_than_declared_is_refused() {
    assert!(matches!(DSStore::new(two_level_container(0)).parse(), Err(DSStoreError::BadToc)));
    assert!(DSStore::new(two_level_container(2)).parse().is_ok());
}

#[test]
fn node_that_is_its_own_child_ends_in_an_error() {
    let mut root = Vec::new();
    root.extend_from_slice(&word(0x1100));
    root.extend_from_slice(&word(0));
    let r = DSStore::new(container(50, &root)).parse();
    assert!(matches!(r, Err(DSStoreError::BadToc)));
}

#[test]
fn child_outside_the_buffer_is_refused() {
    let mut root = Vec::new();
    root.extend_from_slice(&word(0x9000_0000));
    root.extend_from_slice(&word(0));
    let r = DSStore::new(container(1, &root)).parse();
    assert!(matches!(r, Err(DSStoreError::TooLittleData(0x9000_0000))));
}

#[test]
fn differing_root_offsets_are_refused() {
    let node = leaf_bytes(&[]);
    let mut buf = container(0, &node);
    buf[19] ^= 1;
    assert!(matches!(DSStore::new(buf).parse(), Err(DSStoreError::OffsetsDontMatch)));
}

#[test]
fn header_gives_the_position_behind_the_length_prefix() {
    let node = leaf_bytes(&[]);
    let mut store = DSStore::new(container(0, &node));
    store.read(8).unwrap();
    assert_eq!(store.parse_header().unwrap(), 36);
    assert_eq!(store.position(), 36);
}

#[test]
fn toc_name_that_is_not_utf8_is_bad_toc() {
    let buf = root_part(&[], &[(&[0xff, 0xfe], 1)], &[]);
    let mut store = DSStore::new(buf);
    store.jump_to(36).unwrap();
    assert!(matches!(store.parse_root(), Err(DSStoreError::BadToc)));
}

#[test]
fn missing_tree_name_is_bad_toc() {
    let buf = root_part(&[0x1000], &[(b"DSDC", 0)], &[]);
    assert!(matches!(DSStore::new(buf).parse(), Err(DSStoreError::BadToc)));
}

#[test]
fn tree_block_without_an_offset_is_bad_toc() {
    let buf = root_part(&[0x1000], &[(b"DSDB", 1)], &[]);
    assert!(matches!(DSStore::new(buf).parse(), Err(DSStoreError::BadToc)));
}

#[test]
fn tree_root_is_read_through_the_masked_offset() {
    let node = leaf_bytes(&[]);
    let mut store = DSStore::new(container(4, &node));
    store.jump_to(36).unwrap();
    store.parse_root().unwrap();
    assert_eq!(store.position(), 36 + 1020 + 12 + 4 + 9 + 32 * 4 + 12);
    assert_eq!(store.parse_tree_root().unwrap(), 0x1100);
    assert_eq!(store.position(), 0x1010);
    assert_eq!(store.internal_block_levels, 4);
    assert_eq!(store.record_count, 3);
    assert_eq!(store.block_count, 2);
}

#[test]
fn utf16_text_is_decoded() {
    let mut store = DSStore::new(vec![0x00, 0x68, 0x00, 0x69, 0xd8, 0x3d, 0xde, 0x00, 0x00]);
    assert_eq!(store.read_utf16_str(4).unwrap(), "hi");
    assert_eq!(store.position(), 4);
    assert_eq!(store.read_utf16_str(4).unwrap(), "\u{1f600}");
    assert_eq!(store.position(), 8);
    assert!(matches!(store.read_utf16_str(2), Err(DSStoreError::TooLittleData(10))));
    assert_eq!(store.read_utf16_str(0).unwrap(), "");
}

#[test]
fn unpaired_surrogate_is_bad_string() {
    let mut store = DSStore::new(vec![0xd8, 0x00, 0x00, 0x41]);
    assert!(matches!(store.read_utf16_str(4), Err(DSStoreError::BadString)));
    assert_eq!(store.position(), 0);
    assert!(matches!(store.read_utf16_str(3), Err(DSStoreError::BadString)));
    assert_eq!(store.position(), 0);
}

#[test]
fn code_units_are_big_endian() {
    assert_eq!(code_units(&vec![0x12, 0x34, 0xff, 0x00, 0x7f]), vec![0x1234, 0xff00]);
    assert!(matches!(text_from(&vec![0, 65], Some("A".to_string())), Ok(s) if s == "A"));
    assert!(matches!(text_from(&vec![0, 65], None), Err(DSStoreError::BadString)));
    assert!(matches!(
        text_from(&vec![0, 65, 0], Some("A".to_string())),
        Err(DSStoreError::BadString)
    ));
}

#[test]
fn record_is_decoded_and_its_value_left_unread() {
    let mut bytes = record_bytes("caf\u{e9}", 0x01020304, "Iloc");
    let len = bytes.len();
    bytes.extend_from_slice(&[9, 9, 9]);
    let mut store = DSStore::new(bytes);
    store.parse_record().unwrap();
    assert_eq!(store.position(), len);
    assert_eq!(store.records.len(), 1);
    assert_eq!(store.records[0].file_name, "caf\u{e9}");
    assert_eq!(store.records[0].structure_id, 0x01020304);
    assert_eq!(store.records[0].structure_type, "Iloc");
}

#[test]
fn record_tag_that_is_not_utf8_is_bad_toc() {
    let mut bytes = record_bytes("a", 1, "Iloc");
    let n = bytes.len();
    bytes[n - 1] = 0xff;
    let mut store = DSStore::new(bytes);
    assert!(matches!(store.parse_record(), Err(DSStoreError::BadToc)));
}

#[test]
fn four_bytes_read_as_one_integer() {
    let bytes: [u8; 4] = [0x12, 0x34, 0x56, 0x78];
    assert_eq!(bytes[..].as_u32(), 0x12345678);
    assert_eq!(bytes[..].as_usize(), 0x12345678);
    assert_eq!([0xffu8, 0xff, 0xff, 0xff][..].as_u32(), u32::MAX);
    assert_eq!([0u8, 0, 1, 0][..].as_usize(), 256);
}

#[test]
fn new_record_holds_its_fields() {
    let r = Record::new("name".to_string(), "Iloc".to_string(), 7);
    assert_eq!(r.file_name, "name");
    assert_eq!(r.structure_type, "Iloc");
    assert_eq!(r.structure_id, 7);
}

#[test]
fn new_store_is_empty_and_at_the_start() {
    let store = DSStore::new(vec![1, 2, 3]);
    assert_eq!(store.position(), 0);
    assert!(store.offsets.is_empty());
    assert!(store.table_of_contents.is_empty());
    assert!(store.free_list.is_empty());
    assert!(store.records.is_empty());
    assert_eq!(store.internal_block_levels, 0);
    assert_eq!(store.record_count, 0);
    assert_eq!(store.block_count, 0);
}

#[test]
fn errors_describe_themselves() {
    assert_eq!(DSStoreError::HeaderTooSmall.message(), "header size is less than 36b");
    assert_eq!(DSStoreError::BadMagic.message(), "invalid magic");
    assert_eq!(DSStoreError::OffsetsDontMatch.message(), "parity offets don't match");
    assert_eq!(DSStoreError::BadToc.message(), "failed parsing toc key, bad offset?");
    assert_eq!(DSStoreError::BadString.message(), "failed to convert utf16 to utf8");
    assert_eq!(
        DSStoreError::TooLittleData(0).message(),
        "requested more data than available (0)"
    );
    assert_eq!(
        DSStoreError::TooLittleData(1234567890).message(),
        "requested more data than available (1234567890)"
    );
    assert_eq!(
        DSStoreError::TooLittleData(usize::MAX).message(),
        format!("requested more data than available ({})", usize::MAX)
    );
    assert_eq!(DSStoreError::Io("no such file".to_string()).message(), "no such file");
}

#[test]
fn decimal_numeral_is_appended() {
    let mut s = "n=".to_string();
    ds_store::errors::push_decimal(&mut s, 4096);
    assert_eq!(s, "n=4096");
    ds_store::errors::push_decimal(&mut s, 7);
    assert_eq!(s, "n=40967");
}

#[test]
fn bucket_is_a_count_and_its_offsets() {
    let mut bytes = Vec::new();
    bytes.extend_from_slice(&word(2));
    bytes.extend_from_slice(&word(0x40));
    bytes.extend_from_slice(&word(0x80));
    bytes.extend_from_slice(&word(0));
    bytes.extend_from_slice(&word(1));
    let mut store = DSStore::new(bytes);
    assert_eq!(store.read_bucket().unwrap(), vec![0x40, 0x80]);
    assert_eq!(store.position(), 12);
    assert_eq!(store.read_bucket().unwrap(), Vec::<usize>::new());
    assert_eq!(store.position(), 16);
    assert!(matches!(store.read_bucket(), Err(DSStoreError::TooLittleData(24))));
}

#[test]
fn bucket_replaces_what_was_stored_for_its_size() {
    let mut free = std::collections::BTreeMap::new();
    ds_store::put_bucket(&mut free, 4, vec![1, 2]);
    ds_store::put_bucket(&mut free, 8, vec![]);
    ds_store::put_bucket(&mut free, 4, vec![3]);
    assert_eq!(free.len(), 2);
    assert_eq!(free[&4], vec![3]);
    assert_eq!(free[&8], Vec::<usize>::new());
}

#[test]
fn offsets_are_appended_in_order() {
    let mut bytes = Vec::new();
    bytes.extend_from_slice(&word(7));
    bytes.extend_from_slice(&word(0xffff_ffff));
    bytes.extend_from_slice(&word(9));
    let mut store = DSStore::new(bytes);
    store.read_offsets(2).unwrap();
    assert_eq!(store.offsets, vec![7, 0xffff_ffff]);
    assert_eq!(store.position(), 8);
    assert!(matches!(store.read_offsets(2), Err(DSStoreError::TooLittleData(16))));
    store.read_offsets(0).unwrap();
    assert_eq!(store.offsets, vec![7, 0xffff_ffff, 9]);
}

#[test]
fn leaf_node_is_read_at_its_address() {
    let mut buf = vec![0u8; 64];
    put(&mut buf, 64, &leaf_bytes(&[("x", 1, "Iloc"), ("y", 2, "Iloc")]));
    let mut store = DSStore::new(buf);
    store.parse_node(64, 0).unwrap();
    assert_eq!(names(&store), vec!["x", "y"]);
    assert!(matches!(store.parse_node(4096, 0), Err(DSStoreError::TooLittleData(4096))));
}

#[test]
fn records_are_read_one_behind_the_other() {
    let mut bytes = record_bytes("one", 1, "Iloc");
    bytes.extend_from_slice(&record_bytes("two", 2, "bwsp"));
    let len = bytes.len();
    let mut store = DSStore::new(bytes);
    store.read_records(2).unwrap();
    assert_eq!(names(&store), vec!["one", "two"]);
    assert_eq!(store.position(), len);
    assert!(matches!(store.read_records(1), Err(DSStoreError::TooLittleData(n)) if n == len + 4));
}

#[test]
fn toc_start_follows_the_declared_count() {
    for count in [0usize, 1, 3, 300] {
        let offsets: Vec<u32> = (0..count as u32).collect();
        let mut buf = root_part(&offsets, &[(b"k", 5)], &[]);
        buf.resize(buf.len().max(36 + 1020 + 4 * count + 10 + 128), 0);
        let mut store = DSStore::new(buf);
        store.jump_to(36).unwrap();
        store.parse_root().unwrap();
        assert_eq!(store.offsets.len(), count);
        assert_eq!(store.table_of_contents, vec![("k".to_string(), 5)]);
        assert_eq!(store.position(), 36 + 1020 + 4 * count + 4 + 6 + 128);
    }
}
