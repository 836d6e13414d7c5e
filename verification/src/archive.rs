//! Preparing files for the archive: entry names, CRC-32 and raw-deflate
//! compression of each file, and assembly of the finished archive bytes.
//!
//! Each file is compressed as an independent raw-deflate stream (method 8);
//! the entries are then laid out one after another in a ZIP container
//! (see [`crate::zip`]). Names are stored as UTF-8 (flag 0x0800).
//!
//! Limits: standard ZIP without ZIP64, so each file and the whole archive must
//! stay under 4 GB; empty directories are not kept.

use vstd::prelude::*;

use crate::error::CoreError;
use crate::paths::{path_file_name, path_strip_prefix};
use crate::text::{chars_of, push_char, push_str};
use crate::zip::{fits_zip, zip_image};

verus! {

/// One file, already compressed in memory and ready to be written into the
/// container.
pub struct PreparedEntry {
    /// Name inside the archive (forward slashes, root folder included).
    pub name: String,
    /// The raw-deflate stream of the file's contents.
    pub compressed: Vec<u8>,
    /// CRC-32 of the uncompressed contents.
    pub crc32: u32,
    /// Size of the uncompressed contents in bytes.
    pub uncompressed_size: u32,
}

/// CRC-32 (IEEE) of `data`, as `crc32fast` computes it.
pub uninterp spec fn crc32_of(data: Seq<u8>) -> u32;

/// The raw-deflate stream (no zlib header) that `flate2` produces for `data`
/// at compression level `level`.
pub uninterp spec fn deflate_raw(data: Seq<u8>, level: u32) -> Seq<u8>;

/// `crc32fast::hash`: the CRC-32 of `data`.
#[verifier::external_body]
fn crc32(data: &[u8]) -> (r: u32)
    ensures
        r == crc32_of(data@),
{
    crc32fast::hash(data)
}

/// `flate2::write::DeflateEncoder` over a `Vec`: writes all of `data` at
/// `level`, then finishes the stream. Writing into a `Vec` does not fail:
/// the compressor's buffer errors are treated as progress, and its other
/// errors cannot arise from these arguments.
#[verifier::external_body]
fn deflate(data: &[u8], level: u32) -> (r: Result<Vec<u8>, std::io::Error>)
    requires
        level <= 10,
    ensures
        r is Ok,
        r matches Ok(c) ==> c@ == deflate_raw(data@, level),
{
    let mut encoder = flate2::write::DeflateEncoder::new(Vec::new(), flate2::Compression::new(level));
    std::io::Write::write_all(&mut encoder, data)?;
    encoder.finish()
}

/// `s` with every backslash turned into a forward slash.
pub open spec fn forward_slashes(s: Seq<char>) -> Seq<char> {
    s.map_values(|c: char| if c == '\\' { '/' } else { c })
}

/// The name of `file` inside the archive of folder `source`:
/// `<root folder>/<path relative to the source>`, with forward slashes. The
/// root folder is the last component of `source` (`root` when it has none);
/// a file outside `source` keeps its whole path.
pub open spec fn spec_entry_name(source: Seq<char>, file: Seq<char>) -> Seq<char> {
    let root = match path_file_name(source) {
        Some(n) => n,
        None => "root"@,
    };
    let rel = match path_strip_prefix(file, source) {
        Some(r) => r,
        None => file,
    };
    root + seq!['/'] + forward_slashes(rel)
}

/// Appends `s` to `out` with every backslash turned into a forward slash.
fn push_forward_slashes(out: &mut String, s: &str)
    ensures
        final(out)@ == old(out)@ + forward_slashes(s@),
{
    let chars = chars_of(s);
    let mut i: usize = 0;
    while i < chars.len()
        invariant
            chars@ == s@,
            i <= chars@.len(),
            out@ == old(out)@ + forward_slashes(s@.take(i as int)),
        decreases chars@.len() - i,
    {
        let c = chars[i];
        if c == '\\' {
            push_char(out, '/');
        } else {
            push_char(out, c);
        }
        assert(forward_slashes(s@.take(i + 1)) =~= forward_slashes(s@.take(i as int)).push(
            if c == '\\' { '/' } else { c },
        ));
        i += 1;
    }
    assert(s@.take(i as int) =~= s@);
}

/// Name of `file` inside the archive of the folder `source`.
pub fn entry_name(source: &str, file: &str) -> (name: String)
    ensures
        name@ == spec_entry_name(source@, file@),
{
    let mut name = match crate::paths::file_name(source) {
        Some(n) => n,
        None => {
            let mut r = String::new();
            push_str(&mut r, "root");
            r
        },
    };
    push_char(&mut name, '/');
    match crate::paths::strip_prefix(file, source) {
        Some(rel) => push_forward_slashes(&mut name, rel.as_str()),
        None => push_forward_slashes(&mut name, file),
    }
    name
}

/// Compresses the contents `data` of `file` (inside the folder `source`) as
/// raw deflate at `level` and records its CRC-32 and size.
///
/// Fails with `TooLarge` exactly when the contents exceed 4 GB.
pub fn prepare_entry(source: &str, file: &str, data: Vec<u8>, level: u32) -> (r: Result<
    PreparedEntry,
    CoreError,
>)
    requires
        level <= 10,
    ensures
        data@.len() > 0xFFFF_FFFF ==> r matches Err(CoreError::TooLarge),
        data@.len() <= 0xFFFF_FFFF ==> r is Ok,
        r matches Ok(e) ==> {
            &&& e.name@ == spec_entry_name(source@, file@)
            &&& e.compressed@ == deflate_raw(data@, level)
            &&& e.crc32 == crc32_of(data@)
            &&& e.uncompressed_size == data@.len()
        },
{
    if data.len() > 0xFFFF_FFFF {
        return Err(CoreError::TooLarge);
    }
    let crc32 = crc32(data.as_slice());
    let compressed = match deflate(data.as_slice(), level) {
        Ok(c) => c,
        Err(e) => return Err(CoreError::Io(e)),
    };
    Ok(
        PreparedEntry {
            name: entry_name(source, file),
            compressed,
            crc32,
            uncompressed_size: data.len() as u32,
        },
    )
}

/// Whether `entries` fit a standard (non-ZIP64) archive.
pub fn fits_in_zip(entries: &Vec<PreparedEntry>) -> (b: bool)
    ensures
        b == fits_zip(entries@),
{
    let ghost es = entries@;
    if entries.len() > 0xFFFF {
        return false;
    }
    let mut local_total: u64 = 0;
    let mut central_total: u64 = 0;
    let mut i: usize = 0;
    assert(es.take(0) =~= Seq::<PreparedEntry>::empty());
    while i < entries.len()
        invariant
            es == entries@,
            es.len() <= 0xFFFF,
            i <= es.len(),
            local_total == crate::zip::locals(es.take(i as int)).len(),
            central_total == crate::zip::centrals(es.take(i as int)).len(),
            local_total <= 0xFFFF_FFFF,
            central_total <= 0xFFFF_FFFF,
            forall|k: int| 0 <= k < i ==> #[trigger] crate::zip::name_bytes(es[k]).len() <= 0xFFFF,
            forall|k: int| 0 <= k < i ==> #[trigger] es[k].compressed@.len() <= 0xFFFF_FFFF,
        decreases es.len() - i,
    {
        let e = &entries[i];
        let name_len = e.name.as_str().as_bytes().len();
        let data_len = e.compressed.len();
        proof {
            crate::zip::lemma_take_step(es, i as int);
            crate::zip::lemma_local_record_len(es[i as int]);
            crate::zip::lemma_central_record_len(
                es[i as int],
                crate::zip::locals(es.take(i as int)).len() as u32,
            );
            crate::zip::lemma_locals_prefix(es, i + 1);
            crate::zip::lemma_centrals_prefix(es, i + 1);
        }
        if name_len > 0xFFFF || data_len > 0xFFFF_FFFF {
            return false;
        }
        let local_next = local_total + 30 + name_len as u64 + data_len as u64;
        let central_next = central_total + 46 + name_len as u64;
        if local_next > 0xFFFF_FFFF || central_next > 0xFFFF_FFFF {
            return false;
        }
        local_total = local_next;
        central_total = central_next;
        i += 1;
    }
    assert(es.take(es.len() as int) =~= es);
    true
}

/// The bytes of the archive holding `entries`, in order.
///
/// Fails with `TooLarge` exactly when the entries do not fit a standard ZIP.
pub fn build_archive(entries: &Vec<PreparedEntry>) -> (r: Result<Vec<u8>, CoreError>)
    ensures
        fits_zip(entries@) ==> (r matches Ok(b) && b@ == zip_image(entries@)),
        !fits_zip(entries@) ==> r matches Err(CoreError::TooLarge),
{
    if fits_in_zip(entries) {
        Ok(crate::zip::zip_bytes(entries))
    } else {
        Err(CoreError::TooLarge)
    }
}

} // verus!
