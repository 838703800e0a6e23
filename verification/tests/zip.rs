use record_prepress::{
    pack_zip_archive, zip_crc32, PACK_PLANT_READY_PDF_NAME, PACK_README_NAME, PACK_SPEC_JSON_NAME,
};

/// Reads the archive the way an unzip tool does: seek the end-of-central
/// directory, walk its entries, follow each recorded offset to the local
/// header, and pull the stored bytes back out.
fn read_stored_zip(archive: &[u8]) -> Vec<(String, Vec<u8>, u32)> {
    let u16_at = |at: usize| u16::from_le_bytes([archive[at], archive[at + 1]]) as usize;
    let u32_at = |at: usize| {
        u32::from_le_bytes([archive[at], archive[at + 1], archive[at + 2], archive[at + 3]])
    };

    let eocd = archive.len() - 22;
    assert_eq!(&archive[eocd..eocd + 4], &[0x50, 0x4b, 0x05, 0x06]);
    let entries = u16_at(eocd + 10);
    assert_eq!(entries, u16_at(eocd + 8), "disk and total entry counts agree");
    let mut cursor = u32_at(eocd + 16) as usize;

    let mut members = Vec::with_capacity(entries);
    for _ in 0..entries {
        assert_eq!(&archive[cursor..cursor + 4], &[0x50, 0x4b, 0x01, 0x02]);
        let crc = u32_at(cursor + 16);
        let size = u32_at(cursor + 24) as usize;
        let name_len = u16_at(cursor + 28);
        let extra_len = u16_at(cursor + 30);
        let comment_len = u16_at(cursor + 32);
        let local_offset = u32_at(cursor + 42) as usize;
        let name = String::from_utf8(archive[cursor + 46..cursor + 46 + name_len].to_vec()).unwrap();

        assert_eq!(
            &archive[local_offset..local_offset + 4],
            &[0x50, 0x4b, 0x03, 0x04],
            "central directory offset for {name} points at a local header"
        );
        assert_eq!(u16_at(local_offset + 8), 0, "{name} is stored, not deflated");
        let data_at = local_offset + 30 + u16_at(local_offset + 26) + u16_at(local_offset + 28);
        members.push((name, archive[data_at..data_at + size].to_vec(), crc));
        cursor += 46 + name_len + extra_len + comment_len;
    }
    members
}

#[test]
fn pack_zip_archive_round_trips_every_member() {
    let files = vec![
        (PACK_README_NAME.to_string(), b"# README\n".to_vec()),
        (PACK_SPEC_JSON_NAME.to_string(), b"{}\n".to_vec()),
        (PACK_PLANT_READY_PDF_NAME.to_string(), vec![0u8; 4096]),
    ];
    let archive = pack_zip_archive(&files);
    assert_eq!(&archive[0..4], &[0x50, 0x4b, 0x03, 0x04]);

    let members = read_stored_zip(&archive);
    assert_eq!(members.len(), files.len());
    for ((name, bytes), (read_name, read_bytes, crc)) in files.iter().zip(members) {
        assert_eq!(&read_name, name);
        assert_eq!(&read_bytes, bytes);
        assert_eq!(crc, zip_crc32(bytes), "{name} records its own CRC");
    }
}

#[test]
fn pack_zip_archive_of_nothing_is_still_a_readable_archive() {
    let archive = pack_zip_archive(&[]);
    assert!(read_stored_zip(&archive).is_empty());
}

#[test]
fn pack_zip_crc_matches_the_published_check_value() {
    // The CRC-32 of "123456789" is the standard check value for this
    // polynomial; a wrong table or bit order fails here rather than in a
    // plant's unzip.
    assert_eq!(zip_crc32(b"123456789"), 0xcbf4_3926);
    assert_eq!(zip_crc32(b""), 0);
}

#[test]
fn zip_round_trip_holds_for_odd_names_and_binary_members() {
    let files = vec![
        ("a".to_string(), vec![0xff, 0x00, 0x50, 0x4b, 0x05, 0x06]),
        ("dir/été.txt".to_string(), Vec::new()),
        ("z".repeat(300), (0..=255u8).collect()),
    ];
    let archive = pack_zip_archive(&files);
    let members = read_stored_zip(&archive);
    assert_eq!(members.len(), 3);
    for ((name, bytes), (read_name, read_bytes, crc)) in files.iter().zip(members) {
        assert_eq!(&read_name, name);
        assert_eq!(&read_bytes, bytes);
        assert_eq!(crc, zip_crc32(bytes));
    }
}

#[test]
fn zip_crc_of_one_byte_matches_the_reference() {
    assert_eq!(zip_crc32(b"a"), 0xe8b7_be43);
    assert_eq!(zip_crc32(b"The quick brown fox jumps over the lazy dog"), 0x414f_a339);
}

#[test]
fn zip_end_record_counts_members_and_points_at_the_directory() {
    let files = vec![("one".to_string(), b"1".to_vec()), ("two".to_string(), b"22".to_vec())];
    let archive = pack_zip_archive(&files);
    let eocd = archive.len() - 22;
    assert_eq!(u16::from_le_bytes([archive[eocd + 10], archive[eocd + 11]]), 2);
    let local_len = (30 + 3 + 1) + (30 + 3 + 2);
    let dir_offset = u32::from_le_bytes([
        archive[eocd + 16],
        archive[eocd + 17],
        archive[eocd + 18],
        archive[eocd + 19],
    ]) as usize;
    assert_eq!(dir_offset, local_len);
    let dir_size = u32::from_le_bytes([
        archive[eocd + 12],
        archive[eocd + 13],
        archive[eocd + 14],
        archive[eocd + 15],
    ]) as usize;
    assert_eq!(dir_size, (46 + 3) * 2);
    assert_eq!(archive.len(), local_len + (46 + 3) * 2 + 22);
    assert_eq!(&archive[34..38], b"PK\x03\x04");
}
