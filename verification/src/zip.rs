//! The ZIP container: byte layout of local records, the central directory and
//! the end-of-central-directory record, a writer that produces exactly that
//! layout, and the facts a reader relies on.
//!
//! All multi-byte fields are little-endian. Entries are written in order; the
//! central directory repeats each entry's metadata together with the offset
//! of its local header.

use vstd::prelude::*;
use vstd::utf8::encode_utf8;

use crate::archive::PreparedEntry;

verus! {

/// Signature of a local file header.
pub const LOCAL_FILE_SIG: u32 = 0x0403_4b50;
/// Signature of a central directory record.
pub const CENTRAL_DIR_SIG: u32 = 0x0201_4b50;
/// Signature of the end-of-central-directory record.
pub const EOCD_SIG: u32 = 0x0605_4b50;
/// General purpose flag: the name is UTF-8.
pub const UTF8_FLAG: u16 = 0x0800;
/// Compression method: deflate.
pub const METHOD_DEFLATE: u16 = 8;
/// Version needed to extract (2.0).
pub const VERSION_NEEDED: u16 = 20;
/// DOS modification date 1980-01-01 (the time field is 0).
pub const DOS_DATE_1980: u16 = 0x0021;

/// Little-endian bytes of a 16-bit value.
pub open spec fn le16(v: u16) -> Seq<u8> {
    seq![(v % 256) as u8, (v / 256) as u8]
}

/// Little-endian bytes of a 32-bit value.
pub open spec fn le32(v: u32) -> Seq<u8> {
    seq![(v % 256) as u8, ((v / 256) % 256) as u8, ((v / 65536) % 256) as u8, (v / 16777216) as u8]
}

/// The stored name of an entry: its UTF-8 bytes.
pub open spec fn name_bytes(e: PreparedEntry) -> Seq<u8> {
    encode_utf8(e.name@)
}

/// The 30 fixed bytes of a local file header.
#[verifier::opaque]
pub open spec fn local_fixed(e: PreparedEntry) -> Seq<u8> {
    le32(LOCAL_FILE_SIG) + le16(VERSION_NEEDED) + le16(UTF8_FLAG) + le16(METHOD_DEFLATE) + le16(0)
        + le16(DOS_DATE_1980) + le32(e.crc32) + le32(e.compressed@.len() as u32) + le32(
        e.uncompressed_size,
    ) + le16(name_bytes(e).len() as u16) + le16(0)
}

/// A local record: the fixed header, the name, then the compressed data.
pub open spec fn local_record(e: PreparedEntry) -> Seq<u8> {
    local_fixed(e) + name_bytes(e) + e.compressed@
}

/// The 46 fixed bytes of a central directory record for an entry whose local
/// header starts at `offset`.
#[verifier::opaque]
pub open spec fn central_fixed(e: PreparedEntry, offset: u32) -> Seq<u8> {
    le32(CENTRAL_DIR_SIG) + le16(VERSION_NEEDED) + le16(VERSION_NEEDED) + le16(UTF8_FLAG) + le16(
        METHOD_DEFLATE,
    ) + le16(0) + le16(DOS_DATE_1980) + le32(e.crc32) + le32(e.compressed@.len() as u32) + le32(
        e.uncompressed_size,
    ) + le16(name_bytes(e).len() as u16) + le16(0) + le16(0) + le16(0) + le16(0) + le32(0) + le32(
        offset,
    )
}

/// A central directory record: the fixed part, then the name.
pub open spec fn central_record(e: PreparedEntry, offset: u32) -> Seq<u8> {
    central_fixed(e, offset) + name_bytes(e)
}

/// All local records, in order.
pub open spec fn locals(es: Seq<PreparedEntry>) -> Seq<u8>
    decreases es.len(),
{
    if es.len() == 0 {
        Seq::empty()
    } else {
        locals(es.drop_last()) + local_record(es.last())
    }
}

/// Where the local header of entry `i` starts.
pub open spec fn local_offset(es: Seq<PreparedEntry>, i: int) -> nat {
    locals(es.take(i)).len()
}

/// The central directory: one record per entry, each pointing at the entry's
/// local header.
pub open spec fn centrals(es: Seq<PreparedEntry>) -> Seq<u8>
    decreases es.len(),
{
    if es.len() == 0 {
        Seq::empty()
    } else {
        centrals(es.drop_last()) + central_record(es.last(), locals(es.drop_last()).len() as u32)
    }
}

/// The end-of-central-directory record.
#[verifier::opaque]
pub open spec fn end_record(count: u16, cd_size: u32, cd_start: u32) -> Seq<u8> {
    le32(EOCD_SIG) + le16(0) + le16(0) + le16(count) + le16(count) + le32(cd_size) + le32(cd_start)
        + le16(0)
}

/// The whole archive for the entries `es`.
pub open spec fn zip_image(es: Seq<PreparedEntry>) -> Seq<u8> {
    locals(es) + centrals(es) + end_record(
        es.len() as u16,
        centrals(es).len() as u32,
        locals(es).len() as u32,
    )
}

/// The entries fit a standard (non-ZIP64) archive: at most 65535 entries,
/// names of at most 65535 bytes, compressed data, local area and central
/// directory each addressable with 32 bits.
pub open spec fn fits_zip(es: Seq<PreparedEntry>) -> bool {
    &&& es.len() <= 0xFFFF
    &&& forall|i: int| 0 <= i < es.len() ==> #[trigger] name_bytes(es[i]).len() <= 0xFFFF
    &&& forall|i: int| 0 <= i < es.len() ==> #[trigger] es[i].compressed@.len() <= 0xFFFF_FFFF
    &&& locals(es).len() <= 0xFFFF_FFFF
    &&& centrals(es).len() <= 0xFFFF_FFFF
}

/// Length of a local record.
pub proof fn lemma_local_record_len(e: PreparedEntry)
    ensures
        local_fixed(e).len() == 30,
        local_record(e).len() == 30 + name_bytes(e).len() + e.compressed@.len(),
{
    reveal(local_fixed);
}

/// Length of a central directory record.
pub proof fn lemma_central_record_len(e: PreparedEntry, offset: u32)
    ensures
        central_fixed(e, offset).len() == 46,
        central_record(e, offset).len() == 46 + name_bytes(e).len(),
{
    reveal(central_fixed);
}

/// Adding one entry appends its local record and its central record.
pub proof fn lemma_take_step(es: Seq<PreparedEntry>, i: int)
    requires
        0 <= i < es.len(),
    ensures
        es.take(i + 1).drop_last() == es.take(i),
        es.take(i + 1).last() == es[i],
        locals(es.take(i + 1)) == locals(es.take(i)) + local_record(es[i]),
        centrals(es.take(i + 1)) == centrals(es.take(i)) + central_record(
            es[i],
            locals(es.take(i)).len() as u32,
        ),
{
    assert(es.take(i + 1).drop_last() =~= es.take(i));
}

/// The local area of the first `j` entries is a prefix of the whole local
/// area.
pub proof fn lemma_locals_prefix(es: Seq<PreparedEntry>, j: int)
    requires
        0 <= j <= es.len(),
    ensures
        locals(es.take(j)).len() <= locals(es).len(),
        locals(es).subrange(0, locals(es.take(j)).len() as int) =~= locals(es.take(j)),
    decreases es.len() - j,
{
    if j == es.len() {
        assert(es.take(j) =~= es);
    } else {
        lemma_locals_prefix(es, j + 1);
        lemma_take_step(es, j);
        let whole = locals(es);
        let next = locals(es.take(j + 1));
        let cur = locals(es.take(j));
        assert(whole.subrange(0, cur.len() as int) =~= next.subrange(0, cur.len() as int));
    }
}

/// The central directory of the first `j` entries is a prefix of the whole
/// central directory.
pub proof fn lemma_centrals_prefix(es: Seq<PreparedEntry>, j: int)
    requires
        0 <= j <= es.len(),
    ensures
        centrals(es.take(j)).len() <= centrals(es).len(),
        centrals(es).subrange(0, centrals(es.take(j)).len() as int) =~= centrals(es.take(j)),
    decreases es.len() - j,
{
    if j == es.len() {
        assert(es.take(j) =~= es);
    } else {
        lemma_centrals_prefix(es, j + 1);
        lemma_take_step(es, j);
        let whole = centrals(es);
        let next = centrals(es.take(j + 1));
        let cur = centrals(es.take(j));
        assert(whole.subrange(0, cur.len() as int) =~= next.subrange(0, cur.len() as int));
    }
}

/// Appends the little-endian bytes of a 16-bit value.
fn put_u16(out: &mut Vec<u8>, v: u16)
    ensures
        final(out)@ == old(out)@ + le16(v),
{
    out.push((v % 256) as u8);
    out.push((v / 256) as u8);
    assert(out@ =~= old(out)@ + le16(v));
}

/// Appends the little-endian bytes of a 32-bit value.
fn put_u32(out: &mut Vec<u8>, v: u32)
    ensures
        final(out)@ == old(out)@ + le32(v),
{
    out.push((v % 256) as u8);
    out.push(((v / 256) % 256) as u8);
    out.push(((v / 65536) % 256) as u8);
    out.push((v / 16777216) as u8);
    assert(out@ =~= old(out)@ + le32(v));
}

/// Appends a run of bytes.
fn put_bytes(out: &mut Vec<u8>, bytes: &[u8])
    ensures
        final(out)@ == old(out)@ + bytes@,
{
    let mut i: usize = 0;
    while i < bytes.len()
        invariant
            i <= bytes@.len(),
            out@ == old(out)@ + bytes@.take(i as int),
        decreases bytes@.len() - i,
    {
        out.push(bytes[i]);
        assert(bytes@.take(i + 1) =~= bytes@.take(i as int).push(bytes@[i as int]));
        i += 1;
    }
    assert(bytes@.take(i as int) =~= bytes@);
}

/// Appends the local record of `e`.
fn put_local(out: &mut Vec<u8>, e: &PreparedEntry)
    requires
        name_bytes(*e).len() <= 0xFFFF,
        e.compressed@.len() <= 0xFFFF_FFFF,
    ensures
        final(out)@ == old(out)@ + local_record(*e),
{
    let name = e.name.as_str().as_bytes();
    put_u32(out, LOCAL_FILE_SIG);
    put_u16(out, VERSION_NEEDED);
    put_u16(out, UTF8_FLAG);
    put_u16(out, METHOD_DEFLATE);
    put_u16(out, 0);
    put_u16(out, DOS_DATE_1980);
    put_u32(out, e.crc32);
    put_u32(out, e.compressed.len() as u32);
    put_u32(out, e.uncompressed_size);
    put_u16(out, name.len() as u16);
    put_u16(out, 0);
    reveal(local_fixed);
    assert(out@ =~= old(out)@ + local_fixed(*e));
    put_bytes(out, name);
    put_bytes(out, e.compressed.as_slice());
    assert(out@ =~= old(out)@ + local_record(*e));
}

/// Appends the central directory record of `e`, whose local header starts at
/// `offset`.
fn put_central(out: &mut Vec<u8>, e: &PreparedEntry, offset: u32)
    requires
        name_bytes(*e).len() <= 0xFFFF,
        e.compressed@.len() <= 0xFFFF_FFFF,
    ensures
        final(out)@ == old(out)@ + central_record(*e, offset),
{
    let name = e.name.as_str().as_bytes();
    put_u32(out, CENTRAL_DIR_SIG);
    put_u16(out, VERSION_NEEDED);
    put_u16(out, VERSION_NEEDED);
    put_u16(out, UTF8_FLAG);
    put_u16(out, METHOD_DEFLATE);
    put_u16(out, 0);
    put_u16(out, DOS_DATE_1980);
    put_u32(out, e.crc32);
    put_u32(out, e.compressed.len() as u32);
    put_u32(out, e.uncompressed_size);
    put_u16(out, name.len() as u16);
    put_u16(out, 0);
    put_u16(out, 0);
    put_u16(out, 0);
    put_u16(out, 0);
    put_u32(out, 0);
    put_u32(out, offset);
    reveal(central_fixed);
    assert(out@ =~= old(out)@ + central_fixed(*e, offset));
    put_bytes(out, name);
    assert(out@ =~= old(out)@ + central_record(*e, offset));
}

/// Writes every local record; returns the offset of each local header.
fn put_locals(out: &mut Vec<u8>, entries: &Vec<PreparedEntry>) -> (offsets: Vec<u32>)
    requires
        old(out)@.len() == 0,
        fits_zip(entries@),
    ensures
        final(out)@ == locals(entries@),
        offsets@.len() == entries@.len(),
        forall|k: int|
            0 <= k < entries@.len() ==> #[trigger] offsets@[k] == local_offset(entries@, k),
{
    let ghost es = entries@;
    let mut offsets: Vec<u32> = Vec::new();
    let mut i: usize = 0;
    assert(es.take(0) =~= Seq::<PreparedEntry>::empty());
    while i < entries.len()
        invariant
            es == entries@,
            fits_zip(es),
            i <= es.len(),
            out@ == locals(es.take(i as int)),
            offsets@.len() == i,
            forall|k: int| 0 <= k < i ==> #[trigger] offsets@[k] == local_offset(es, k),
        decreases es.len() - i,
    {
        proof {
            lemma_take_step(es, i as int);
            lemma_locals_prefix(es, i + 1);
        }
        offsets.push(out.len() as u32);
        put_local(out, &entries[i]);
        i += 1;
    }
    assert(es.take(es.len() as int) =~= es);
    offsets
}

/// Writes the central directory after the local area.
fn put_centrals(out: &mut Vec<u8>, entries: &Vec<PreparedEntry>, offsets: &Vec<u32>)
    requires
        fits_zip(entries@),
        offsets@.len() == entries@.len(),
        forall|k: int|
            0 <= k < entries@.len() ==> #[trigger] offsets@[k] == local_offset(entries@, k),
    ensures
        final(out)@ == old(out)@ + centrals(entries@),
{
    let ghost es = entries@;
    let mut j: usize = 0;
    assert(es.take(0) =~= Seq::<PreparedEntry>::empty());
    assert(old(out)@ + centrals(es.take(0)) =~= old(out)@);
    while j < entries.len()
        invariant
            es == entries@,
            fits_zip(es),
            j <= es.len(),
            out@ == old(out)@ + centrals(es.take(j as int)),
            offsets@.len() == es.len(),
            forall|k: int| 0 <= k < es.len() ==> #[trigger] offsets@[k] == local_offset(es, k),
        decreases es.len() - j,
    {
        proof {
            lemma_take_step(es, j as int);
        }
        put_central(out, &entries[j], offsets[j]);
        assert(out@ =~= old(out)@ + centrals(es.take(j + 1)));
        j += 1;
    }
    assert(es.take(es.len() as int) =~= es);
}

/// Writes the end-of-central-directory record.
fn put_end(out: &mut Vec<u8>, count: u16, cd_size: u32, cd_start: u32)
    ensures
        final(out)@ == old(out)@ + end_record(count, cd_size, cd_start),
{
    put_u32(out, EOCD_SIG);
    put_u16(out, 0);
    put_u16(out, 0);
    put_u16(out, count);
    put_u16(out, count);
    put_u32(out, cd_size);
    put_u32(out, cd_start);
    put_u16(out, 0);
    reveal(end_record);
    assert(out@ =~= old(out)@ + end_record(count, cd_size, cd_start));
}

/// The bytes of the archive holding `entries`, in order: every local record,
/// then the central directory, then the end record.
pub fn zip_bytes(entries: &Vec<PreparedEntry>) -> (out: Vec<u8>)
    requires
        fits_zip(entries@),
    ensures
        out@ == zip_image(entries@),
{
    let mut out: Vec<u8> = Vec::new();
    let offsets = put_locals(&mut out, entries);
    let cd_start = out.len();
    put_centrals(&mut out, entries, &offsets);
    let cd_size = out.len() - cd_start;
    put_end(&mut out, entries.len() as u16, cd_size as u32, cd_start as u32);
    out
}

/// A file as a reader of the archive finds it: the stored name, the stored
/// (compressed) data, and the recorded CRC-32 and uncompressed size.
pub struct StoredFile {
    pub name: Seq<u8>,
    pub data: Seq<u8>,
    pub crc32: int,
    pub size: int,
}

/// What the archive stores for an entry.
pub open spec fn stored(e: PreparedEntry) -> StoredFile {
    StoredFile {
        name: name_bytes(e),
        data: e.compressed@,
        crc32: e.crc32 as int,
        size: e.uncompressed_size as int,
    }
}

/// The little-endian 16-bit field at `at`.
pub open spec fn read16(b: Seq<u8>, at: int) -> int {
    b[at] as int + 256 * b[at + 1] as int
}

/// The little-endian 32-bit field at `at`.
pub open spec fn read32(b: Seq<u8>, at: int) -> int {
    b[at] as int + 256 * b[at + 1] as int + 65536 * b[at + 2] as int + 16777216 * b[at + 3] as int
}

/// Reads the central directory record at `pos` and the local record it
/// points at; gives the file and the position of the next central record.
#[verifier::opaque]
pub open spec fn read_entry(b: Seq<u8>, pos: int) -> Option<(StoredFile, int)> {
    if pos < 0 || pos + 46 > b.len() || read32(b, pos) != CENTRAL_DIR_SIG {
        None
    } else {
        let crc = read32(b, pos + 16);
        let csize = read32(b, pos + 20);
        let plain = read32(b, pos + 24);
        let nlen = read16(b, pos + 28);
        let next = pos + 46 + nlen + read16(b, pos + 30) + read16(b, pos + 32);
        let off = read32(b, pos + 42);
        if pos + 46 + nlen > b.len() || off + 30 > b.len() || read32(b, off) != LOCAL_FILE_SIG {
            None
        } else {
            let start = off + 30 + read16(b, off + 26) + read16(b, off + 28);
            if start + csize > b.len() {
                None
            } else {
                Some(
                    (
                        StoredFile {
                            name: b.subrange(pos + 46, pos + 46 + nlen),
                            data: b.subrange(start, start + csize),
                            crc32: crc,
                            size: plain,
                        },
                        next,
                    ),
                )
            }
        }
    }
}

/// Reads `count` consecutive central directory records starting at `pos`.
pub open spec fn read_directory(b: Seq<u8>, pos: int, count: nat) -> Option<Seq<StoredFile>>
    decreases count,
{
    if count == 0 {
        Some(Seq::empty())
    } else {
        match read_entry(b, pos) {
            None => None,
            Some((f, next)) => match read_directory(b, next, (count - 1) as nat) {
                None => None,
                Some(rest) => Some(seq![f] + rest),
            },
        }
    }
}

/// What an archive reader finds in `b`: it locates the end record in the
/// last 22 bytes, then reads the announced number of central directory
/// records from the announced start, each with the local record it points
/// at.
pub open spec fn read_archive(b: Seq<u8>) -> Option<Seq<StoredFile>> {
    if b.len() < 22 || read32(b, b.len() - 22) != EOCD_SIG {
        None
    } else {
        let e = b.len() - 22;
        read_directory(b, read32(b, e + 16), read16(b, e + 10) as nat)
    }
}

proof fn lemma_le16(v: u16)
    ensures
        read16(le16(v), 0) == v,
{
}

proof fn lemma_le32(v: u32)
    ensures
        read32(le32(v), 0) == v,
{
    assert((v % 256) + 256 * ((v / 256) % 256) + 65536 * ((v / 65536) % 256) + 16777216 * (v
        / 16777216) == v) by (nonlinear_arith);
}

/// Reading inside a window of `b` that holds `s` reads `s`.
proof fn lemma_window(b: Seq<u8>, p: int, s: Seq<u8>)
    requires
        0 <= p,
        p + s.len() <= b.len(),
        b.subrange(p, p + s.len()) == s,
    ensures
        forall|k: int| 0 <= k < s.len() ==> b[p + k] == #[trigger] s[k],
        forall|k: int| 0 <= k && k + 2 <= s.len() ==> read16(b, p + k) == #[trigger] read16(s, k),
        forall|k: int| 0 <= k && k + 4 <= s.len() ==> read32(b, p + k) == #[trigger] read32(s, k),
        forall|x: int, y: int|
            0 <= x <= y <= s.len() ==> b.subrange(p + x, p + y) == #[trigger] s.subrange(x, y),
{
    assert forall|k: int| 0 <= k < s.len() implies b[p + k] == #[trigger] s[k] by {
        assert(b.subrange(p, p + s.len())[k] == b[p + k]);
    }
    assert forall|x: int, y: int| 0 <= x <= y <= s.len() implies b.subrange(p + x, p + y)
        == #[trigger] s.subrange(x, y) by {
        assert forall|k: int| 0 <= k < y - x implies b.subrange(p + x, p + y)[k] == s.subrange(
            x,
            y,
        )[k] by {
            assert(b.subrange(p, p + s.len())[x + k] == b[p + x + k]);
        }
        assert(b.subrange(p + x, p + y) =~= s.subrange(x, y));
    }
}

/// A byte inside a window of `b` that holds `s`.
proof fn lemma_byte_at(b: Seq<u8>, p: int, s: Seq<u8>, k: int)
    requires
        0 <= p,
        p + s.len() <= b.len(),
        b.subrange(p, p + s.len()) == s,
        0 <= k < s.len(),
    ensures
        b[p + k] == s[k],
{
    assert(b.subrange(p, p + s.len())[k] == b[p + k]);
}

/// A 16-bit field inside a window of `b` that holds `s`.
proof fn lemma_read16_at(b: Seq<u8>, p: int, s: Seq<u8>, k: int)
    requires
        0 <= p,
        p + s.len() <= b.len(),
        b.subrange(p, p + s.len()) == s,
        0 <= k,
        k + 2 <= s.len(),
    ensures
        read16(b, p + k) == read16(s, k),
{
    lemma_byte_at(b, p, s, k);
    lemma_byte_at(b, p, s, k + 1);
}

/// A 32-bit field inside a window of `b` that holds `s`.
proof fn lemma_read32_at(b: Seq<u8>, p: int, s: Seq<u8>, k: int)
    requires
        0 <= p,
        p + s.len() <= b.len(),
        b.subrange(p, p + s.len()) == s,
        0 <= k,
        k + 4 <= s.len(),
    ensures
        read32(b, p + k) == read32(s, k),
{
    lemma_byte_at(b, p, s, k);
    lemma_byte_at(b, p, s, k + 1);
    lemma_byte_at(b, p, s, k + 2);
    lemma_byte_at(b, p, s, k + 3);
}

/// A run of bytes inside a window of `b` that holds `s`.
proof fn lemma_sub_at(b: Seq<u8>, p: int, s: Seq<u8>, x: int, y: int)
    requires
        0 <= p,
        p + s.len() <= b.len(),
        b.subrange(p, p + s.len()) == s,
        0 <= x <= y <= s.len(),
    ensures
        b.subrange(p + x, p + y) == s.subrange(x, y),
{
    assert forall|k: int| 0 <= k < y - x implies b.subrange(p + x, p + y)[k] == s.subrange(
        x,
        y,
    )[k] by {
        lemma_byte_at(b, p, s, x + k);
    }
    assert(b.subrange(p + x, p + y) =~= s.subrange(x, y));
}

/// A 16-bit field reads back as the value written.
proof fn lemma_field16(s: Seq<u8>, k: int, v: u16)
    requires
        0 <= k,
        k + 2 <= s.len(),
        s.subrange(k, k + 2) == le16(v),
    ensures
        read16(s, k) == v,
{
    lemma_window(s, k, le16(v));
    lemma_le16(v);
}

/// A 32-bit field reads back as the value written.
proof fn lemma_field32(s: Seq<u8>, k: int, v: u32)
    requires
        0 <= k,
        k + 4 <= s.len(),
        s.subrange(k, k + 4) == le32(v),
    ensures
        read32(s, k) == v,
{
    lemma_window(s, k, le32(v));
    lemma_le32(v);
}

/// The fields a reader takes from a local record.
proof fn lemma_local_fields(e: PreparedEntry)
    requires
        name_bytes(e).len() <= 0xFFFF,
    ensures
        read32(local_record(e), 0) == LOCAL_FILE_SIG,
        read16(local_record(e), 26) == name_bytes(e).len(),
        read16(local_record(e), 28) == 0,
        local_record(e).subrange(30, 30 + name_bytes(e).len() + e.compressed@.len() as int)
            == name_bytes(e) + e.compressed@,
{
    reveal(local_fixed);
    let r = local_record(e);
    let f = local_fixed(e);
    lemma_local_record_len(e);
    assert(r.subrange(0, 30) =~= f);
    assert(f.subrange(0, 4) =~= le32(LOCAL_FILE_SIG));
    assert(f.subrange(26, 28) =~= le16(name_bytes(e).len() as u16));
    assert(f.subrange(28, 30) =~= le16(0));
    lemma_window(r, 0, f);
    lemma_field32(f, 0, LOCAL_FILE_SIG);
    lemma_field16(f, 26, name_bytes(e).len() as u16);
    lemma_field16(f, 28, 0);
    assert(r.subrange(30, 30 + name_bytes(e).len() + e.compressed@.len() as int) =~= name_bytes(e)
        + e.compressed@);
}

/// The fields a reader takes from a central directory record.
proof fn lemma_central_fields(e: PreparedEntry, off: u32)
    requires
        name_bytes(e).len() <= 0xFFFF,
        e.compressed@.len() <= 0xFFFF_FFFF,
    ensures
        read32(central_record(e, off), 0) == CENTRAL_DIR_SIG,
        read32(central_record(e, off), 16) == e.crc32,
        read32(central_record(e, off), 20) == e.compressed@.len(),
        read32(central_record(e, off), 24) == e.uncompressed_size,
        read16(central_record(e, off), 28) == name_bytes(e).len(),
        read16(central_record(e, off), 30) == 0,
        read16(central_record(e, off), 32) == 0,
        read32(central_record(e, off), 42) == off,
        central_record(e, off).subrange(46, 46 + name_bytes(e).len() as int) == name_bytes(e),
{
    reveal(central_fixed);
    let r = central_record(e, off);
    let f = central_fixed(e, off);
    lemma_central_record_len(e, off);
    assert(r.subrange(0, 46) =~= f);
    assert(f.subrange(0, 4) =~= le32(CENTRAL_DIR_SIG));
    assert(f.subrange(16, 20) =~= le32(e.crc32));
    assert(f.subrange(20, 24) =~= le32(e.compressed@.len() as u32));
    assert(f.subrange(24, 28) =~= le32(e.uncompressed_size));
    assert(f.subrange(28, 30) =~= le16(name_bytes(e).len() as u16));
    assert(f.subrange(30, 32) =~= le16(0));
    assert(f.subrange(32, 34) =~= le16(0));
    assert(f.subrange(42, 46) =~= le32(off));
    lemma_window(r, 0, f);
    lemma_field32(f, 0, CENTRAL_DIR_SIG);
    lemma_field32(f, 16, e.crc32);
    lemma_field32(f, 20, e.compressed@.len() as u32);
    lemma_field32(f, 24, e.uncompressed_size);
    lemma_field16(f, 28, name_bytes(e).len() as u16);
    lemma_field16(f, 30, 0);
    lemma_field16(f, 32, 0);
    lemma_field32(f, 42, off);
    assert(r.subrange(46, 46 + name_bytes(e).len() as int) =~= name_bytes(e));
}

/// The fields a reader takes from the end record.
proof fn lemma_end_fields(count: u16, cd_size: u32, cd_start: u32)
    ensures
        end_record(count, cd_size, cd_start).len() == 22,
        read32(end_record(count, cd_size, cd_start), 0) == EOCD_SIG,
        read16(end_record(count, cd_size, cd_start), 10) == count,
        read32(end_record(count, cd_size, cd_start), 16) == cd_start,
{
    reveal(end_record);
    let r = end_record(count, cd_size, cd_start);
    assert(r.subrange(0, 4) =~= le32(EOCD_SIG));
    assert(r.subrange(10, 12) =~= le16(count));
    assert(r.subrange(16, 20) =~= le32(cd_start));
    lemma_field32(r, 0, EOCD_SIG);
    lemma_field16(r, 10, count);
    lemma_field32(r, 16, cd_start);
}

/// Where the pieces of the archive sit.
proof fn lemma_image_parts(es: Seq<PreparedEntry>)
    ensures
        zip_image(es).len() == locals(es).len() + centrals(es).len() + 22,
        zip_image(es).subrange(0, locals(es).len() as int) == locals(es),
        zip_image(es).subrange(
            locals(es).len() as int,
            locals(es).len() + centrals(es).len() as int,
        ) == centrals(es),
        zip_image(es).subrange(
            locals(es).len() + centrals(es).len() as int,
            zip_image(es).len() as int,
        ) == end_record(es.len() as u16, centrals(es).len() as u32, locals(es).len() as u32),
{
    let l = locals(es);
    let c = centrals(es);
    let e = end_record(es.len() as u16, c.len() as u32, l.len() as u32);
    lemma_end_fields(es.len() as u16, c.len() as u32, l.len() as u32);
    let b = zip_image(es);
    assert(b.subrange(0, l.len() as int) =~= l);
    assert(b.subrange(l.len() as int, l.len() + c.len() as int) =~= c);
    assert(b.subrange(l.len() + c.len() as int, b.len() as int) =~= e);
}

/// A reader at a central record that points at a local record of the same
/// entry finds that entry and moves on past the central record.
proof fn lemma_read_entry_at(b: Seq<u8>, pos: int, off: int, e: PreparedEntry)
    requires
        name_bytes(e).len() <= 0xFFFF,
        e.compressed@.len() <= 0xFFFF_FFFF,
        0 <= off <= 0xFFFF_FFFF,
        0 <= pos,
        pos + central_record(e, off as u32).len() <= b.len(),
        off + local_record(e).len() <= b.len(),
        b.subrange(pos, pos + central_record(e, off as u32).len()) == central_record(e, off as u32),
        b.subrange(off, off + local_record(e).len()) == local_record(e),
    ensures
        read_entry(b, pos) == Some((stored(e), pos + central_record(e, off as u32).len())),
{
    reveal(read_entry);
    let crec = central_record(e, off as u32);
    let lrec = local_record(e);
    lemma_local_record_len(e);
    lemma_central_record_len(e, off as u32);
    lemma_central_fields(e, off as u32);
    lemma_local_fields(e);
    let nlen = name_bytes(e).len() as int;
    let clen = e.compressed@.len() as int;
    lemma_read32_at(b, pos, crec, 0);
    lemma_read32_at(b, pos, crec, 16);
    lemma_read32_at(b, pos, crec, 20);
    lemma_read32_at(b, pos, crec, 24);
    lemma_read16_at(b, pos, crec, 28);
    lemma_read16_at(b, pos, crec, 30);
    lemma_read16_at(b, pos, crec, 32);
    lemma_read32_at(b, pos, crec, 42);
    lemma_sub_at(b, pos, crec, 46, 46 + nlen);
    lemma_read32_at(b, off, lrec, 0);
    lemma_read16_at(b, off, lrec, 26);
    lemma_read16_at(b, off, lrec, 28);
    lemma_sub_at(b, off, lrec, 30 + nlen, 30 + nlen + clen);
    lemma_sub_at(lrec, 30, name_bytes(e) + e.compressed@, nlen, nlen + clen);
    assert((name_bytes(e) + e.compressed@).subrange(nlen, nlen + clen) =~= e.compressed@);
    assert(b.subrange(off + 30 + nlen, off + 30 + nlen + clen) == e.compressed@);
    assert(b.subrange(pos + 46, pos + 46 + nlen) == name_bytes(e));
}

/// The central record of entry `j` sits at the start of the directory plus
/// the records before it.
proof fn lemma_central_window(es: Seq<PreparedEntry>, j: int)
    requires
        0 <= j < es.len(),
    ensures
        ({
            let pos: int = locals(es).len() + centrals(es.take(j)).len() as int;
            let crec = central_record(es[j], locals(es.take(j)).len() as u32);
            &&& pos + crec.len() <= zip_image(es).len()
            &&& zip_image(es).subrange(pos, pos + crec.len() as int) == crec
            &&& centrals(es.take(j + 1)).len() == centrals(es.take(j)).len() + crec.len()
        }),
{
    let b = zip_image(es);
    let l = locals(es);
    let c = centrals(es);
    let cj = centrals(es.take(j)).len() as int;
    let cj1 = centrals(es.take(j + 1)).len() as int;
    let crec = central_record(es[j], locals(es.take(j)).len() as u32);
    lemma_image_parts(es);
    lemma_take_step(es, j);
    lemma_centrals_prefix(es, j + 1);
    lemma_sub_at(c, 0, centrals(es.take(j + 1)), cj, cj1);
    assert(centrals(es.take(j + 1)).subrange(cj, cj1) =~= crec);
    lemma_sub_at(b, l.len() as int, c, cj, cj1);
}

/// The local record of entry `j` sits at its local offset.
proof fn lemma_local_window(es: Seq<PreparedEntry>, j: int)
    requires
        0 <= j < es.len(),
    ensures
        ({
            let off = locals(es.take(j)).len();
            let lrec = local_record(es[j]);
            &&& off + lrec.len() <= locals(es).len()
            &&& zip_image(es).subrange(off as int, off + lrec.len() as int) == lrec
        }),
{
    let b = zip_image(es);
    let l = locals(es);
    let off = locals(es.take(j)).len() as int;
    let lrec = local_record(es[j]);
    lemma_image_parts(es);
    lemma_take_step(es, j);
    lemma_locals_prefix(es, j + 1);
    lemma_sub_at(l, 0, locals(es.take(j + 1)), off, off + lrec.len());
    assert(locals(es.take(j + 1)).subrange(off, off + lrec.len()) =~= lrec);
    lemma_sub_at(b, 0, l, off, off + lrec.len());
}

/// A reader at the `j`-th central directory record finds entry `j` and moves
/// on to the next record.
proof fn lemma_entry_read(es: Seq<PreparedEntry>, j: int)
    requires
        fits_zip(es),
        0 <= j < es.len(),
    ensures
        read_entry(
            zip_image(es),
            locals(es).len() + centrals(es.take(j)).len() as int,
        ) == Some(
            (stored(es[j]), locals(es).len() + centrals(es.take(j + 1)).len() as int),
        ),
{
    lemma_central_window(es, j);
    lemma_local_window(es, j);
    assert(name_bytes(es[j]).len() <= 0xFFFF);
    assert(es[j].compressed@.len() <= 0xFFFF_FFFF);
    lemma_read_entry_at(
        zip_image(es),
        locals(es).len() + centrals(es.take(j)).len() as int,
        locals(es.take(j)).len() as int,
        es[j],
    );
}

/// Reading the directory from the `j`-th record on yields the remaining
/// entries.
proof fn lemma_directory_read(es: Seq<PreparedEntry>, j: int)
    requires
        fits_zip(es),
        0 <= j <= es.len(),
    ensures
        read_directory(
            zip_image(es),
            locals(es).len() + centrals(es.take(j)).len() as int,
            (es.len() - j) as nat,
        ) == Some(es.skip(j).map_values(|e: PreparedEntry| stored(e))),
    decreases es.len() - j,
{
    if j == es.len() {
        assert(es.skip(j).map_values(|e: PreparedEntry| stored(e)) =~= Seq::<StoredFile>::empty());
    } else {
        lemma_entry_read(es, j);
        lemma_directory_read(es, j + 1);
        assert(seq![stored(es[j])] + es.skip(j + 1).map_values(|e: PreparedEntry| stored(e))
            =~= es.skip(j).map_values(|e: PreparedEntry| stored(e)));
    }
}

/// Reading back a written archive gives every entry, in order, with its name,
/// compressed data, CRC-32 and uncompressed size as written.
pub proof fn lemma_read_after_write(es: Seq<PreparedEntry>)
    requires
        fits_zip(es),
    ensures
        read_archive(zip_image(es)) == Some(es.map_values(|e: PreparedEntry| stored(e))),
{
    let b = zip_image(es);
    let l = locals(es);
    let c = centrals(es);
    lemma_image_parts(es);
    let eoff: int = l.len() + c.len() as int;
    let er = end_record(es.len() as u16, c.len() as u32, l.len() as u32);
    lemma_end_fields(es.len() as u16, c.len() as u32, l.len() as u32);
    lemma_read32_at(b, eoff, er, 0);
    lemma_read16_at(b, eoff, er, 10);
    lemma_read32_at(b, eoff, er, 16);
    assert(b.len() - 22 == eoff);
    assert(read32(b, eoff) == EOCD_SIG);
    assert(read16(b, eoff + 10) == es.len());
    assert(read32(b, eoff + 16) == l.len());
    assert(es.take(0) =~= Seq::<PreparedEntry>::empty());
    lemma_directory_read(es, 0);
    assert(es.skip(0) =~= es);
}

/// Every field of the end record of a written archive says what it should
/// for a single-disk archive of `es`: its signature; disk 0, with the
/// central directory on disk 0; the number of entries, both on this disk and
/// in total; a central directory that starts where the end record's start
/// field points and ends right before the end record; no comment.
pub proof fn law_end_record_fields(es: Seq<PreparedEntry>)
    requires
        fits_zip(es),
    ensures
        ({
            let b = zip_image(es);
            let end = b.len() - 22;
            &&& b.len() >= 22
            &&& read32(b, end) == EOCD_SIG
            &&& read16(b, end + 4) == 0
            &&& read16(b, end + 6) == 0
            &&& read16(b, end + 8) == es.len()
            &&& read16(b, end + 10) == es.len()
            &&& read32(b, end + 16) + read32(b, end + 12) == end
            &&& read16(b, end + 20) == 0
        }),
{
    let b = zip_image(es);
    let l = locals(es);
    let c = centrals(es);
    lemma_image_parts(es);
    let eoff: int = l.len() + c.len() as int;
    let count = es.len() as u16;
    let er = end_record(count, c.len() as u32, l.len() as u32);
    lemma_end_fields(count, c.len() as u32, l.len() as u32);
    reveal(end_record);
    assert(er.subrange(4, 6) =~= le16(0));
    assert(er.subrange(6, 8) =~= le16(0));
    assert(er.subrange(8, 10) =~= le16(count));
    assert(er.subrange(12, 16) =~= le32(c.len() as u32));
    assert(er.subrange(20, 22) =~= le16(0));
    lemma_field16(er, 4, 0);
    lemma_field16(er, 6, 0);
    lemma_field16(er, 8, count);
    lemma_field32(er, 12, c.len() as u32);
    lemma_field16(er, 20, 0);
    lemma_read32_at(b, eoff, er, 0);
    lemma_read16_at(b, eoff, er, 4);
    lemma_read16_at(b, eoff, er, 6);
    lemma_read16_at(b, eoff, er, 8);
    lemma_read16_at(b, eoff, er, 10);
    lemma_read32_at(b, eoff, er, 12);
    lemma_read32_at(b, eoff, er, 16);
    lemma_read16_at(b, eoff, er, 20);
}

} // verus!
