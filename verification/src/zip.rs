//! The store-only ZIP archive that carries a manufacturing pack, and the
//! CRC-32 it records for each member.
use vstd::bytes::*;
use vstd::prelude::*;
use vstd::utf8::encode_utf8;

verus! {

/// One step of the reflected CRC-32 register (polynomial 0xEDB88320).
pub open spec fn crc_bit(c: u32) -> u32 {
    if c & 1 == 1 {
        (c >> 1) ^ 0xedb8_8320u32
    } else {
        c >> 1
    }
}

/// `n` register steps.
pub open spec fn crc_bits(c: u32, n: nat) -> u32
    decreases n,
{
    if n == 0 {
        c
    } else {
        crc_bit(crc_bits(c, (n - 1) as nat))
    }
}

/// The register after one more byte.
pub open spec fn crc_byte(c: u32, b: u8) -> u32 {
    crc_bits(c ^ (b as u32), 8)
}

/// The register after `data`, starting from all ones.
pub open spec fn crc_register(data: Seq<u8>) -> u32
    decreases data.len(),
{
    if data.len() == 0 {
        0xffff_ffffu32
    } else {
        crc_byte(crc_register(data.drop_last()), data.last())
    }
}

/// The CRC-32 (ISO-HDLC, as ZIP uses it) of `data`.
pub open spec fn crc32(data: Seq<u8>) -> u32 {
    !crc_register(data)
}

pub open spec fn le16(x: u16) -> Seq<u8> {
    spec_u16_to_le_bytes(x)
}

pub open spec fn le32(x: u32) -> Seq<u8> {
    spec_u32_to_le_bytes(x)
}

/// A pack member as the archive sees it: its name's UTF-8 bytes and its data.
pub open spec fn zip_members(files: Seq<(String, Vec<u8>)>) -> Seq<(Seq<u8>, Seq<u8>)> {
    files.map_values(|f: (String, Vec<u8>)| (encode_utf8(f.0@), f.1@))
}

/// The local file header of a stored member, followed by its name and data.
pub open spec fn zip_local_entry(name: Seq<u8>, data: Seq<u8>) -> Seq<u8> {
    le32(0x0403_4b50) + le16(20) + le16(0) + le16(0) + le16(0) + le16(0) + le32(crc32(data))
        + le32(data.len() as u32) + le32(data.len() as u32) + le16(name.len() as u16) + le16(0)
        + name + data
}

/// The central directory record of a stored member whose local header
/// begins at `offset`.
pub open spec fn zip_central_entry(name: Seq<u8>, data: Seq<u8>, offset: u32) -> Seq<u8> {
    le32(0x0201_4b50) + le16(20) + le16(20) + le16(0) + le16(0) + le16(0) + le16(0) + le32(
        crc32(data),
    ) + le32(data.len() as u32) + le32(data.len() as u32) + le16(name.len() as u16) + le16(0)
        + le16(0) + le16(0) + le16(0) + le32(0) + le32(offset) + name
}

/// All local entries, in member order.
pub open spec fn zip_locals(m: Seq<(Seq<u8>, Seq<u8>)>) -> Seq<u8>
    decreases m.len(),
{
    if m.len() == 0 {
        Seq::empty()
    } else {
        zip_locals(m.drop_last()) + zip_local_entry(m.last().0, m.last().1)
    }
}

/// The central directory: one record per member, each pointing at the
/// member's local entry.
pub open spec fn zip_central(m: Seq<(Seq<u8>, Seq<u8>)>) -> Seq<u8>
    decreases m.len(),
{
    if m.len() == 0 {
        Seq::empty()
    } else {
        zip_central(m.drop_last()) + zip_central_entry(
            m.last().0,
            m.last().1,
            zip_locals(m.drop_last()).len() as u32,
        )
    }
}

/// The entry count an archive records: the member count, saturated at 65535.
pub open spec fn zip_entry_count(n: nat) -> u16 {
    if n < 0xffff {
        n as u16
    } else {
        0xffffu16
    }
}

/// The end-of-central-directory record.
pub open spec fn zip_end_record(count: u16, central_len: nat, locals_len: nat) -> Seq<u8> {
    le32(0x0605_4b50) + le16(0) + le16(0) + le16(count) + le16(count) + le32(central_len as u32)
        + le32(locals_len as u32) + le16(0)
}

/// The whole archive: local entries, central directory, end record.
pub open spec fn zip_archive(m: Seq<(Seq<u8>, Seq<u8>)>) -> Seq<u8> {
    zip_locals(m) + zip_central(m) + zip_end_record(
        zip_entry_count(m.len()),
        zip_central(m).len(),
        zip_locals(m).len(),
    )
}

/// The little-endian `u16` stored at `at`.
pub open spec fn read_le16(a: Seq<u8>, at: int) -> int {
    spec_u16_from_le_bytes(a.subrange(at, at + 2)) as int
}

/// The little-endian `u32` stored at `at`.
pub open spec fn read_le32(a: Seq<u8>, at: int) -> int {
    spec_u32_from_le_bytes(a.subrange(at, at + 4)) as int
}

/// Reads `n` central directory records starting at `cursor`, the way an
/// unzip tool does: each record's CRC, size and name, then the stored bytes
/// found by following its local header offset.
pub open spec fn zip_read_entries(a: Seq<u8>, cursor: int, n: nat) -> Seq<(Seq<u8>, Seq<u8>, u32)>
    decreases n,
{
    if n == 0 {
        Seq::empty()
    } else {
        let crc = read_le32(a, cursor + 16);
        let size = read_le32(a, cursor + 24);
        let name_len = read_le16(a, cursor + 28);
        let extra_len = read_le16(a, cursor + 30);
        let comment_len = read_le16(a, cursor + 32);
        let local = read_le32(a, cursor + 42);
        let name = a.subrange(cursor + 46, cursor + 46 + name_len);
        let data_at = local + 30 + read_le16(a, local + 26) + read_le16(a, local + 28);
        let data = a.subrange(data_at, data_at + size);
        seq![(name, data, crc as u32)] + zip_read_entries(
            a,
            cursor + 46 + name_len + extra_len + comment_len,
            (n - 1) as nat,
        )
    }
}

/// Reads a stored archive from its end record.
pub open spec fn zip_read(a: Seq<u8>) -> Seq<(Seq<u8>, Seq<u8>, u32)> {
    let end = a.len() - 22;
    zip_read_entries(a, read_le32(a, end + 16), read_le16(a, end + 10) as nat)
}

/// The sizes an archive can record without truncation.
pub open spec fn zip_fits(m: Seq<(Seq<u8>, Seq<u8>)>) -> bool {
    &&& m.len() <= 0xffff
    &&& forall|i: int| 0 <= i < m.len() ==> #[trigger] m[i].0.len() < 0x1_0000
    &&& forall|i: int| 0 <= i < m.len() ==> #[trigger] m[i].1.len() < 0x1_0000_0000
    &&& zip_locals(m).len() < 0x1_0000_0000
    &&& zip_central(m).len() < 0x1_0000_0000
}

proof fn lemma_le_round_trips()
    ensures
        forall|x: u16| #[trigger] le16(x).len() == 2 && spec_u16_from_le_bytes(le16(x)) == x,
        forall|x: u32| #[trigger] le32(x).len() == 4 && spec_u32_from_le_bytes(le32(x)) == x,
{
    lemma_auto_spec_u16_to_from_le_bytes();
    lemma_auto_spec_u32_to_from_le_bytes();
    assert forall|x: u32| #[trigger] le32(x).len() == 4 && spec_u32_from_le_bytes(le32(x)) == x by {
        assert(spec_u32_to_le_bytes(x).len() == 4);
    }
}

proof fn lemma_local_entry_layout(name: Seq<u8>, data: Seq<u8>)
    requires
        name.len() < 0x1_0000,
    ensures
        zip_local_entry(name, data).len() == 30 + name.len() + data.len(),
        zip_local_entry(name, data).subrange(26, 28) == le16(name.len() as u16),
        zip_local_entry(name, data).subrange(28, 30) == le16(0),
        zip_local_entry(name, data).subrange(30 + name.len() as int, (30 + name.len() + data.len()) as int)
            == data,
{
    lemma_le_round_trips();
    let e = zip_local_entry(name, data);
    let head = le32(0x0403_4b50) + le16(20) + le16(0) + le16(0) + le16(0) + le16(0) + le32(
        crc32(data),
    ) + le32(data.len() as u32) + le32(data.len() as u32);
    assert(head.len() == 26);
    assert(e == head + le16(name.len() as u16) + le16(0) + name + data);
    assert(e.subrange(26, 28) =~= le16(name.len() as u16));
    assert(e.subrange(28, 30) =~= le16(0));
    assert(e.subrange(30 + name.len() as int, (30 + name.len() + data.len()) as int) =~= data);
}

proof fn lemma_central_entry_layout(name: Seq<u8>, data: Seq<u8>, offset: u32)
    ensures
        zip_central_entry(name, data, offset).len() == 46 + name.len(),
        zip_central_entry(name, data, offset).subrange(16, 20) == le32(crc32(data)),
        zip_central_entry(name, data, offset).subrange(24, 28) == le32(data.len() as u32),
        zip_central_entry(name, data, offset).subrange(28, 30) == le16(name.len() as u16),
        zip_central_entry(name, data, offset).subrange(30, 32) == le16(0),
        zip_central_entry(name, data, offset).subrange(32, 34) == le16(0),
        zip_central_entry(name, data, offset).subrange(42, 46) == le32(offset),
        zip_central_entry(name, data, offset).subrange(46, (46 + name.len()) as int) == name,
{
    lemma_le_round_trips();
    let e = zip_central_entry(name, data, offset);
    let p0 = le32(0x0201_4b50) + le16(20) + le16(20) + le16(0) + le16(0) + le16(0) + le16(0);
    assert(p0.len() == 16);
    let p1 = p0 + le32(crc32(data)) + le32(data.len() as u32);
    assert(p1.len() == 24);
    let p2 = p1 + le32(data.len() as u32) + le16(name.len() as u16) + le16(0) + le16(0) + le16(0)
        + le16(0) + le32(0);
    assert(p2.len() == 42);
    assert(e == p2 + le32(offset) + name);
    assert(e.subrange(16, 20) =~= le32(crc32(data)));
    assert(e.subrange(24, 28) =~= le32(data.len() as u32));
    assert(e.subrange(28, 30) =~= le16(name.len() as u16));
    assert(e.subrange(30, 32) =~= le16(0));
    assert(e.subrange(32, 34) =~= le16(0));
    assert(e.subrange(42, 46) =~= le32(offset));
    assert(e.subrange(46, (46 + name.len()) as int) =~= name);
}

/// Where member `i`'s local entry begins.
pub open spec fn zip_local_offset(m: Seq<(Seq<u8>, Seq<u8>)>, i: int) -> nat {
    zip_locals(m.take(i)).len()
}

/// Where member `i`'s central record begins, within the central directory.
pub open spec fn zip_central_offset(m: Seq<(Seq<u8>, Seq<u8>)>, i: int) -> nat {
    zip_central(m.take(i)).len()
}

proof fn lemma_prefixes(m: Seq<(Seq<u8>, Seq<u8>)>, j: int)
    requires
        0 <= j <= m.len(),
    ensures
        zip_locals(m).take(zip_locals(m.take(j)).len() as int) == zip_locals(m.take(j)),
        zip_central(m).take(zip_central(m.take(j)).len() as int) == zip_central(m.take(j)),
        zip_locals(m.take(j)).len() <= zip_locals(m).len(),
        zip_central(m.take(j)).len() <= zip_central(m).len(),
    decreases m.len(),
{
    if j == m.len() {
        assert(m.take(j) == m);
        assert(zip_locals(m).take(zip_locals(m).len() as int) == zip_locals(m));
        assert(zip_central(m).take(zip_central(m).len() as int) == zip_central(m));
    } else {
        let d = m.drop_last();
        lemma_prefixes(d, j);
        assert(d.take(j) == m.take(j));
        let lj = zip_locals(m.take(j)).len() as int;
        let cj = zip_central(m.take(j)).len() as int;
        assert(zip_locals(m).take(lj) =~= zip_locals(d).take(lj));
        assert(zip_central(m).take(cj) =~= zip_central(d).take(cj));
    }
}

proof fn lemma_entry_positions(m: Seq<(Seq<u8>, Seq<u8>)>, i: int)
    requires
        0 <= i < m.len(),
    ensures
        zip_local_offset(m, i + 1) == zip_local_offset(m, i) + zip_local_entry(m[i].0, m[i].1).len(),
        zip_locals(m).subrange(zip_local_offset(m, i) as int, zip_local_offset(m, i + 1) as int)
            == zip_local_entry(m[i].0, m[i].1),
        zip_central_offset(m, i + 1) == zip_central_offset(m, i) + zip_central_entry(
            m[i].0,
            m[i].1,
            zip_local_offset(m, i) as u32,
        ).len(),
        zip_central(m).subrange(
            zip_central_offset(m, i) as int,
            zip_central_offset(m, i + 1) as int,
        ) == zip_central_entry(m[i].0, m[i].1, zip_local_offset(m, i) as u32),
        zip_local_offset(m, i + 1) <= zip_locals(m).len(),
        zip_central_offset(m, i + 1) <= zip_central(m).len(),
{
    let t = m.take(i + 1);
    assert(t.drop_last() == m.take(i));
    assert(t.last() == m[i]);
    lemma_prefixes(m, i + 1);
    let a = zip_local_offset(m, i) as int;
    let b = zip_local_offset(m, i + 1) as int;
    assert(zip_locals(m).subrange(a, b) =~= zip_locals(t).subrange(a, b));
    assert(zip_locals(t).subrange(a, b) =~= zip_local_entry(m[i].0, m[i].1));
    let c = zip_central_offset(m, i) as int;
    let e = zip_central_offset(m, i + 1) as int;
    assert(zip_central(m).subrange(c, e) =~= zip_central(t).subrange(c, e));
    assert(zip_central(t).subrange(c, e) =~= zip_central_entry(
        m[i].0,
        m[i].1,
        zip_local_offset(m, i) as u32,
    ));
}

proof fn lemma_central_in_archive(m: Seq<(Seq<u8>, Seq<u8>)>, i: int, x: int, y: int)
    requires
        0 <= i < m.len(),
        0 <= x <= y <= zip_central_entry(m[i].0, m[i].1, zip_local_offset(m, i) as u32).len(),
    ensures
        zip_archive(m).subrange(
            zip_locals(m).len() + zip_central_offset(m, i) + x,
            zip_locals(m).len() + zip_central_offset(m, i) + y,
        ) == zip_central_entry(m[i].0, m[i].1, zip_local_offset(m, i) as u32).subrange(x, y),
{
    lemma_entry_positions(m, i);
    let a = zip_archive(m);
    let l = zip_locals(m).len() as int;
    let central = zip_central(m);
    let co = zip_central_offset(m, i) as int;
    assert(a.subrange(l + co + x, l + co + y) =~= central.subrange(co + x, co + y));
    assert(central.subrange(co + x, co + y) =~= central.subrange(
        co,
        zip_central_offset(m, i + 1) as int,
    ).subrange(x, y));
}

proof fn lemma_local_in_archive(m: Seq<(Seq<u8>, Seq<u8>)>, i: int, x: int, y: int)
    requires
        0 <= i < m.len(),
        0 <= x <= y <= zip_local_entry(m[i].0, m[i].1).len(),
    ensures
        zip_archive(m).subrange(zip_local_offset(m, i) + x, zip_local_offset(m, i) + y)
            == zip_local_entry(m[i].0, m[i].1).subrange(x, y),
{
    lemma_entry_positions(m, i);
    let a = zip_archive(m);
    let locals = zip_locals(m);
    let off = zip_local_offset(m, i) as int;
    assert(a.subrange(off + x, off + y) =~= locals.subrange(off + x, off + y));
    assert(locals.subrange(off + x, off + y) =~= locals.subrange(
        off,
        zip_local_offset(m, i + 1) as int,
    ).subrange(x, y));
}

proof fn lemma_read_step(m: Seq<(Seq<u8>, Seq<u8>)>, i: int)
    requires
        0 <= i < m.len(),
        zip_fits(m),
    ensures
        ({
            let a = zip_archive(m);
            let nl = m[i].0.len() as int;
            let dl = m[i].1.len() as int;
            let cursor = (zip_locals(m).len() + zip_central_offset(m, i)) as int;
            let off = zip_local_offset(m, i) as int;
            &&& read_le32(a, cursor + 16) == crc32(m[i].1)
            &&& read_le32(a, cursor + 24) == dl
            &&& read_le16(a, cursor + 28) == nl
            &&& read_le16(a, cursor + 30) == 0
            &&& read_le16(a, cursor + 32) == 0
            &&& read_le32(a, cursor + 42) == off
            &&& a.subrange(cursor + 46, cursor + 46 + nl) == m[i].0
            &&& read_le16(a, off + 26) == nl
            &&& read_le16(a, off + 28) == 0
            &&& a.subrange(off + 30 + nl, off + 30 + nl + dl) == m[i].1
            &&& cursor + 46 + nl == zip_locals(m).len() + zip_central_offset(m, i + 1)
        }),
{
    lemma_le_round_trips();
    lemma_entry_positions(m, i);
    let name = m[i].0;
    let data = m[i].1;
    assert(name.len() < 0x1_0000);
    assert(data.len() < 0x1_0000_0000);
    let off = zip_local_offset(m, i) as int;
    assert(off < 0x1_0000_0000);
    lemma_central_entry_layout(name, data, off as u32);
    lemma_local_entry_layout(name, data);
    lemma_central_in_archive(m, i, 16, 20);
    lemma_central_in_archive(m, i, 24, 28);
    lemma_central_in_archive(m, i, 28, 30);
    lemma_central_in_archive(m, i, 30, 32);
    lemma_central_in_archive(m, i, 32, 34);
    lemma_central_in_archive(m, i, 42, 46);
    lemma_central_in_archive(m, i, 46, 46 + name.len() as int);
    lemma_local_in_archive(m, i, 26, 28);
    lemma_local_in_archive(m, i, 28, 30);
    lemma_local_in_archive(m, i, 30 + name.len() as int, 30 + name.len() + data.len() as int);
}

proof fn lemma_read_members(m: Seq<(Seq<u8>, Seq<u8>)>, i: int)
    requires
        0 <= i <= m.len(),
        zip_fits(m),
    ensures
        zip_read_entries(
            zip_archive(m),
            (zip_locals(m).len() + zip_central_offset(m, i)) as int,
            (m.len() - i) as nat,
        ) == m.subrange(i, m.len() as int).map_values(
            |e: (Seq<u8>, Seq<u8>)| (e.0, e.1, crc32(e.1)),
        ),
    decreases m.len() - i,
{
    let expected = m.subrange(i, m.len() as int).map_values(
        |e: (Seq<u8>, Seq<u8>)| (e.0, e.1, crc32(e.1)),
    );
    if i == m.len() {
        assert(expected =~= Seq::empty());
    } else {
        lemma_read_step(m, i);
        lemma_read_members(m, i + 1);
        let name = m[i].0;
        let data = m[i].1;
        let rest = m.subrange(i + 1, m.len() as int).map_values(
            |e: (Seq<u8>, Seq<u8>)| (e.0, e.1, crc32(e.1)),
        );
        assert(expected =~= seq![(name, data, crc32(data))] + rest);
    }
}

/// Round trip: an unzip tool that walks the central directory of a packed
/// archive gets every member back, in order, with its name, its bytes and
/// the CRC-32 of those bytes, whenever the sizes fit the format's fields.
pub proof fn lemma_zip_round_trip(m: Seq<(Seq<u8>, Seq<u8>)>)
    requires
        zip_fits(m),
    ensures
        zip_read(zip_archive(m)) == m.map_values(|e: (Seq<u8>, Seq<u8>)| (e.0, e.1, crc32(e.1))),
{
    lemma_le_round_trips();
    let a = zip_archive(m);
    let locals = zip_locals(m);
    let central = zip_central(m);
    let count = zip_entry_count(m.len());
    let end_record = zip_end_record(count, central.len(), locals.len());
    let p = le32(0x0605_4b50) + le16(0) + le16(0) + le16(count) + le16(count);
    assert(p.len() == 12);
    assert(end_record == p + le32(central.len() as u32) + le32(locals.len() as u32) + le16(0));
    assert(end_record.len() == 22);
    let end = a.len() - 22;
    assert(end == locals.len() + central.len());
    assert(a.subrange(end + 10, end + 12) =~= le16(count));
    assert(a.subrange(end + 16, end + 20) =~= le32(locals.len() as u32));
    assert(count as int == m.len());
    assert(m.take(0) == Seq::<(Seq<u8>, Seq<u8>)>::empty());
    assert(zip_central_offset(m, 0) == 0);
    lemma_read_members(m, 0);
    assert(m.subrange(0, m.len() as int) == m);
}

/// The bytes the local entries take: 30 header bytes, the name and the data
/// of each member.
pub open spec fn locals_size(m: Seq<(Seq<u8>, Seq<u8>)>) -> nat
    decreases m.len(),
{
    if m.len() == 0 {
        0
    } else {
        locals_size(m.drop_last()) + 30 + m.last().0.len() + m.last().1.len()
    }
}

/// The bytes the central directory takes: 46 record bytes and the name of
/// each member.
pub open spec fn central_size(m: Seq<(Seq<u8>, Seq<u8>)>) -> nat
    decreases m.len(),
{
    if m.len() == 0 {
        0
    } else {
        central_size(m.drop_last()) + 46 + m.last().0.len()
    }
}

proof fn lemma_part_sizes(m: Seq<(Seq<u8>, Seq<u8>)>)
    ensures
        zip_locals(m).len() == locals_size(m),
        zip_central(m).len() == central_size(m),
    decreases m.len(),
{
    lemma_le_round_trips();
    if m.len() > 0 {
        lemma_part_sizes(m.drop_last());
        let (name, data) = m.last();
        assert(zip_local_entry(name, data).len() == 30 + name.len() + data.len());
        assert(zip_central_entry(name, data, zip_locals(m.drop_last()).len() as u32).len() == 46 + name.len());
    }
}

/// The archive's layout is the sum of its parts: each member's local entry
/// (30 bytes, name, data) follows the ones before it, the central directory
/// (46 bytes and the name per member) follows the last of them, and the
/// 22-byte end record closes the archive with the entry count, the central
/// directory's size and its offset. Nothing in it depends on a clock.
pub proof fn lemma_zip_layout(m: Seq<(Seq<u8>, Seq<u8>)>)
    ensures
        zip_archive(m).len() == locals_size(m) + central_size(m) + 22,
        forall|i: int|
            0 <= i < m.len() ==> zip_archive(m).subrange(
                locals_size(#[trigger] m.take(i)) as int,
                locals_size(m.take(i + 1)) as int,
            ) == zip_local_entry(m[i].0, m[i].1),
        zip_archive(m).subrange((locals_size(m) + central_size(m)) as int, zip_archive(m).len() as int)
            == zip_end_record(zip_entry_count(m.len()), central_size(m), locals_size(m)),
{
    lemma_le_round_trips();
    lemma_part_sizes(m);
    let a = zip_archive(m);
    let l = zip_locals(m);
    let c = zip_central(m);
    let e = zip_end_record(zip_entry_count(m.len()), c.len(), l.len());
    assert(e.len() == 22);
    assert forall|i: int| 0 <= i < m.len() implies a.subrange(
        locals_size(#[trigger] m.take(i)) as int,
        locals_size(m.take(i + 1)) as int,
    ) == zip_local_entry(m[i].0, m[i].1) by {
        lemma_entry_positions(m, i);
        lemma_part_sizes(m.take(i));
        lemma_part_sizes(m.take(i + 1));
        let x = zip_local_offset(m, i) as int;
        let y = zip_local_offset(m, i + 1) as int;
        assert(a.subrange(x, y) =~= l.subrange(x, y));
    }
    assert(a.subrange((l.len() + c.len()) as int, a.len() as int) =~= e);
}

/// Appends `extra` to `out`.
pub fn push_bytes(out: &mut Vec<u8>, extra: &[u8])
    ensures
        final(out)@ == old(out)@ + extra@,
{
    let ghost start = out@;
    let mut i: usize = 0;
    while i < extra.len()
        invariant
            i <= extra@.len(),
            out@ == start + extra@.take(i as int),
        decreases extra@.len() - i,
    {
        out.push(extra[i]);
        i = i + 1;
        assert(extra@.take(i as int) == extra@.take(i - 1).push(extra@[i - 1]));
    }
    assert(extra@.take(extra@.len() as int) == extra@);
}

/// Appends `x` in little-endian order.
pub fn push_le16(out: &mut Vec<u8>, x: u16)
    ensures
        final(out)@ == old(out)@ + le16(x),
{
    let b = u16_to_le_bytes(x);
    push_bytes(out, b.as_slice());
}

/// Appends `x` in little-endian order.
pub fn push_le32(out: &mut Vec<u8>, x: u32)
    ensures
        final(out)@ == old(out)@ + le32(x),
{
    let b = u32_to_le_bytes(x);
    push_bytes(out, b.as_slice());
}

/// The CRC-32 a ZIP archive records for `bytes`.
pub fn zip_crc32(bytes: &[u8]) -> (crc: u32)
    ensures
        crc == crc32(bytes@),
{
    let mut crc: u32 = 0xffff_ffff;
    let mut i: usize = 0;
    while i < bytes.len()
        invariant
            i <= bytes@.len(),
            crc == crc_register(bytes@.take(i as int)),
        decreases bytes@.len() - i,
    {
        let ghost before = crc;
        crc = crc ^ (bytes[i] as u32);
        let ghost start = crc;
        let mut k: usize = 0;
        while k < 8
            invariant
                k <= 8,
                crc == crc_bits(start, k as nat),
            decreases 8 - k,
        {
            if crc & 1 == 1 {
                crc = (crc >> 1) ^ 0xedb8_8320;
            } else {
                crc = crc >> 1;
            }
            k = k + 1;
        }
        i = i + 1;
        assert(bytes@.take(i as int).drop_last() == bytes@.take(i - 1));
    }
    assert(bytes@.take(bytes@.len() as int) == bytes@);
    !crc
}

/// Appends the local entry of one stored member.
fn push_local_entry(out: &mut Vec<u8>, name: &[u8], data: &[u8], crc: u32)
    requires
        crc == crc32(data@),
    ensures
        final(out)@ == old(out)@ + zip_local_entry(name@, data@),
{
    let ghost start = out@;
    push_le32(out, 0x0403_4b50);
    push_le16(out, 20);
    push_le16(out, 0);
    push_le16(out, 0);
    push_le16(out, 0);
    push_le16(out, 0);
    push_le32(out, crc);
    push_le32(out, data.len() as u32);
    push_le32(out, data.len() as u32);
    push_le16(out, name.len() as u16);
    push_le16(out, 0);
    push_bytes(out, name);
    push_bytes(out, data);
    assert(out@ =~= start + zip_local_entry(name@, data@));
}

/// Appends the central directory record of one stored member.
fn push_central_entry(out: &mut Vec<u8>, name: &[u8], data: &[u8], crc: u32, offset: u32)
    requires
        crc == crc32(data@),
    ensures
        final(out)@ == old(out)@ + zip_central_entry(name@, data@, offset),
{
    let ghost start = out@;
    push_le32(out, 0x0201_4b50);
    push_le16(out, 20);
    push_le16(out, 20);
    push_le16(out, 0);
    push_le16(out, 0);
    push_le16(out, 0);
    push_le16(out, 0);
    push_le32(out, crc);
    push_le32(out, data.len() as u32);
    push_le32(out, data.len() as u32);
    push_le16(out, name.len() as u16);
    push_le16(out, 0);
    push_le16(out, 0);
    push_le16(out, 0);
    push_le16(out, 0);
    push_le32(out, 0);
    push_le32(out, offset);
    push_bytes(out, name);
    assert(out@ =~= start + zip_central_entry(name@, data@, offset));
}

proof fn lemma_zip_members_prefix(files: Seq<(String, Vec<u8>)>, i: int)
    requires
        0 <= i < files.len(),
    ensures
        zip_members(files.take(i + 1)).drop_last() == zip_members(files.take(i)),
        zip_members(files.take(i + 1)).last() == (encode_utf8(files[i].0@), files[i].1@),
        zip_members(files.take(i + 1)).len() == i + 1,
{
    assert(zip_members(files.take(i + 1)).drop_last() =~= zip_members(files.take(i)));
}

/// Packs the members into a store-only ZIP archive: each member's local
/// header and bytes in order, then the central directory, then the end
/// record. No compression and no timestamps, so equal input gives equal
/// bytes.
pub fn pack_zip_archive(files: &[(String, Vec<u8>)]) -> (archive: Vec<u8>)
    ensures
        archive@ == zip_archive(zip_members(files@)),
{
    let mut local_parts: Vec<u8> = Vec::new();
    let mut central: Vec<u8> = Vec::new();
    let mut entries: u16 = 0;
    let mut i: usize = 0;
    while i < files.len()
        invariant
            i <= files@.len(),
            local_parts@ == zip_locals(zip_members(files@.take(i as int))),
            central@ == zip_central(zip_members(files@.take(i as int))),
            entries == zip_entry_count(i as nat),
        decreases files@.len() - i,
    {
        let name_bytes = files[i].0.as_str().as_bytes();
        let bytes = files[i].1.as_slice();
        let crc = zip_crc32(bytes);
        let offset = local_parts.len() as u32;
        proof {
            lemma_zip_members_prefix(files@, i as int);
        }
        let ghost m = zip_members(files@.take(i + 1));
        let ghost prev_locals = local_parts@;
        push_local_entry(&mut local_parts, name_bytes, bytes, crc);
        push_central_entry(&mut central, name_bytes, bytes, crc, offset);
        assert(m.drop_last() == zip_members(files@.take(i as int)));
        entries = entries.saturating_add(1);
        i = i + 1;
    }
    assert(files@.take(files@.len() as int) == files@);
    let central_offset = local_parts.len() as u32;
    let central_size = central.len() as u32;
    let mut archive = local_parts;
    push_bytes(&mut archive, central.as_slice());
    push_le32(&mut archive, 0x0605_4b50);
    push_le16(&mut archive, 0);
    push_le16(&mut archive, 0);
    push_le16(&mut archive, entries);
    push_le16(&mut archive, entries);
    push_le32(&mut archive, central_size);
    push_le32(&mut archive, central_offset);
    push_le16(&mut archive, 0);
    assert(archive@ =~= zip_archive(zip_members(files@)));
    archive
}

} // verus!
