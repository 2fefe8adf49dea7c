use vstd::bytes::{spec_u32_from_le_bytes, spec_u64_from_le_bytes, u32_from_le_bytes, u64_from_le_bytes};
use vstd::prelude::*;
use vstd::slice::{slice_subrange, slice_to_vec};

verus! {

/// Format revision; decides whether several header fields are 4 or 8 bytes wide.
#[derive(Copy, Clone, PartialEq, Eq, Debug, Structural)]
pub enum VtPackVersion {
    Ver1,
    Ver2,
}

/// Why a source could not be read as an archive, or an entry's payload could not be read.
#[derive(Copy, Clone, PartialEq, Eq, Debug, Structural)]
pub enum VtPackError {
    /// The magic signature is missing, or the header is cut short.
    MalformedHeader,
    /// The version code is neither 1 nor 2.
    UnsupportedVersion,
    /// The string pool's length field or bytes run past the end of the source.
    TruncatedPool,
    /// The source ends before `entry_count` full entry records.
    TruncatedEntryTable,
    /// A file's payload runs past the end of the source.
    TruncatedPayload,
    /// A string reference does not name a NUL-terminated string inside the pool.
    StringOffsetOutOfBounds,
}

/// Offset value meaning "no string".
pub const INVALID_STRING_TABLE_OFFSET: u32 = 0xFFFF_FFFF;

/// Length in bytes of one entry record.
pub const ENTRY_RECORD_LEN: usize = 44;

/// Numeric code of a version tag.
pub open spec fn version_of_code(code: u32) -> Option<VtPackVersion> {
    if code == 1 {
        Some(VtPackVersion::Ver1)
    } else if code == 2 {
        Some(VtPackVersion::Ver2)
    } else {
        None
    }
}

impl VtPackVersion {
    /// Width in bytes of the version-dependent header fields.
    pub open spec fn width(self) -> int {
        match self {
            VtPackVersion::Ver1 => 4,
            VtPackVersion::Ver2 => 8,
        }
    }

    pub fn from_code(code: u32) -> (r: Option<VtPackVersion>)
        ensures
            r == version_of_code(code),
    {
        if code == 1 {
            Some(VtPackVersion::Ver1)
        } else if code == 2 {
            Some(VtPackVersion::Ver2)
        } else {
            None
        }
    }
}


/// The string pool: `table_size` raw bytes holding NUL-terminated strings back to back.
#[derive(Clone, Debug)]
pub struct VtPackStringTable {
    pub table_size: u32,
    pub table_data: Vec<u8>,
}

/// One entry record, as stored in the entry table: the directory and name string
/// offsets come first, then a reserved word, the file size, a reserved 64-bit
/// field, the payload offset (0 for a directory) and two reserved words.
#[derive(Copy, Clone, Debug)]
pub struct VtPackRawEntryHeader {
    pub path_dir_str_table_offset: u32,
    pub path_name_str_table_offset: u32,
    pub unk1: u32,
    pub file_size: u64,
    pub unk2: u64,
    pub file_data_abs_offset: u64,
    pub unk3: u32,
    pub unk4: u32,
}

/// The decoded header, string pool and entry table. Fields of the version that is
/// not in use are zero.
#[derive(Clone, Debug)]
pub struct VtPackRawFile {
    pub version: VtPackVersion,
    pub unk1: u32,
    pub unk2: u32,
    pub unk3_v1: u32,
    pub unk3_v2: u64,
    pub unk4_v1: u32,
    pub unk4_v2: u64,
    pub entry_count: u32,
    pub str_table_abs_offset_v1: u32,
    pub str_table_abs_offset_v2: u64,
    pub str_table: VtPackStringTable,
    pub entries: Vec<VtPackRawEntryHeader>,
}

/// The signature "vtPack" that opens every archive.
pub open spec fn magic() -> Seq<u8> {
    seq![118u8, 116u8, 80u8, 97u8, 99u8, 107u8]
}

/// Little-endian 32-bit value at byte `at`.
pub open spec fn u32_at(d: Seq<u8>, at: int) -> u32 {
    spec_u32_from_le_bytes(d.subrange(at, at + 4))
}

/// Little-endian 64-bit value at byte `at`.
pub open spec fn u64_at(d: Seq<u8>, at: int) -> u64 {
    spec_u64_from_le_bytes(d.subrange(at, at + 8))
}

/// A field whose width depends on the version, widened to 64 bits.
pub open spec fn wide_at(d: Seq<u8>, at: int, v: VtPackVersion) -> u64 {
    match v {
        VtPackVersion::Ver1 => u32_at(d, at) as u64,
        VtPackVersion::Ver2 => u64_at(d, at),
    }
}

/// The version that the tag names, for a header that starts at byte `b`.
pub open spec fn source_version(d: Seq<u8>, b: int) -> Option<VtPackVersion> {
    version_of_code(u32_at(d, b + 6))
}

/// Length of the header; the entry table starts right after it.
pub open spec fn header_len(v: VtPackVersion) -> int {
    22 + 3 * v.width()
}

pub open spec fn entry_count_of(d: Seq<u8>, b: int, v: VtPackVersion) -> u32 {
    u32_at(d, b + 18 + 2 * v.width())
}

/// Offset of the string pool, counted from the start of `d`.
pub open spec fn pool_offset_of(d: Seq<u8>, b: int, v: VtPackVersion) -> int {
    wide_at(d, b + 22 + 2 * v.width(), v) as int
}

/// Declared length of the string pool.
pub open spec fn pool_len_of(d: Seq<u8>, b: int, v: VtPackVersion) -> int {
    u32_at(d, pool_offset_of(d, b, v)) as int
}

pub open spec fn pool_bytes_of(d: Seq<u8>, b: int, v: VtPackVersion) -> Seq<u8> {
    let start = pool_offset_of(d, b, v) + 4;
    d.subrange(start, start + pool_len_of(d, b, v))
}

/// The entry record that starts at byte `at`.
pub open spec fn entry_at(d: Seq<u8>, at: int) -> VtPackRawEntryHeader {
    VtPackRawEntryHeader {
        path_dir_str_table_offset: u32_at(d, at),
        path_name_str_table_offset: u32_at(d, at + 4),
        unk1: u32_at(d, at + 8),
        file_size: u64_at(d, at + 12),
        unk2: u64_at(d, at + 20),
        file_data_abs_offset: u64_at(d, at + 28),
        unk3: u32_at(d, at + 36),
        unk4: u32_at(d, at + 40),
    }
}

/// The entry table: `entry_count` records right after the header.
pub open spec fn entries_of(d: Seq<u8>, b: int, v: VtPackVersion) -> Seq<VtPackRawEntryHeader> {
    Seq::new(
        entry_count_of(d, b, v) as nat,
        |i: int| entry_at(d, b + header_len(v) + ENTRY_RECORD_LEN * i),
    )
}

/// Why `d` cannot be decoded from byte `b` on, checked in the order in which the source is read;
/// `None` when the header, pool and entry table are all there.
pub open spec fn layout_error(d: Seq<u8>, b: int) -> Option<VtPackError> {
    if b < 0 || d.len() < b + 10 || d.subrange(b, b + 6) != magic() {
        Some(VtPackError::MalformedHeader)
    } else {
        match source_version(d, b) {
            None => Some(VtPackError::UnsupportedVersion),
            Some(v) => if d.len() < b + header_len(v) {
                Some(VtPackError::MalformedHeader)
            } else if pool_offset_of(d, b, v) + 4 > d.len() || pool_offset_of(d, b, v) + 4
                + pool_len_of(d, b, v) > d.len() {
                Some(VtPackError::TruncatedPool)
            } else if b + header_len(v) + ENTRY_RECORD_LEN * entry_count_of(d, b, v) > d.len() {
                Some(VtPackError::TruncatedEntryTable)
            } else {
                None
            },
        }
    }
}

impl VtPackRawFile {
    /// `self` holds exactly what `d` encodes, with the header at byte `b`.
    pub open spec fn decodes(&self, d: Seq<u8>, b: int) -> bool {
        let v = self.version;
        &&& source_version(d, b) == Some(v)
        &&& self.unk1 == u32_at(d, b + 10)
        &&& self.unk2 == u32_at(d, b + 14)
        &&& self.unk3_v1 == (if v == VtPackVersion::Ver1 { u32_at(d, b + 18) } else { 0 })
        &&& self.unk3_v2 == (if v == VtPackVersion::Ver2 { u64_at(d, b + 18) } else { 0 })
        &&& self.unk4_v1 == (if v == VtPackVersion::Ver1 { u32_at(d, b + 22) } else { 0 })
        &&& self.unk4_v2 == (if v == VtPackVersion::Ver2 { u64_at(d, b + 26) } else { 0 })
        &&& self.entry_count == entry_count_of(d, b, v)
        &&& self.str_table_abs_offset_v1 == (if v == VtPackVersion::Ver1 {
            u32_at(d, b + 30)
        } else {
            0
        })
        &&& self.str_table_abs_offset_v2 == (if v == VtPackVersion::Ver2 {
            u64_at(d, b + 38)
        } else {
            0
        })
        &&& self.str_table.table_size as int == pool_len_of(d, b, v)
        &&& self.str_table.table_data@ == pool_bytes_of(d, b, v)
        &&& self.entries@ == entries_of(d, b, v)
    }
}

impl VtPackRawFile {
    /// Decodes the header that starts at byte `start` of `data`, then the string
    /// pool at its offset and the entry table right after the header. Pool and
    /// payload offsets count from the start of `data`.
    pub fn parse(data: &[u8], start: usize) -> (r: Result<VtPackRawFile, VtPackError>)
        ensures
            match r {
                Ok(f) => layout_error(data@, start as int).is_none() && f.decodes(
                    data@,
                    start as int,
                ),
                Err(e) => layout_error(data@, start as int) == Some(e),
            },
    {
        let n = data.len();
        let b = start;
        if n < 10 || b > n - 10 || data[b] != 118u8 || data[b + 1] != 116u8 || data[b + 2] != 80u8
            || data[b + 3] != 97u8 || data[b + 4] != 99u8 || data[b + 5] != 107u8 {
            assert(b + 10 <= n ==> data@.subrange(b as int, b + 6) != magic()) by {
                if b + 10 <= n && data@.subrange(b as int, b + 6) == magic() {
                    assert(data@.subrange(b as int, b + 6)[0] == data@[b as int]);
                    assert(data@.subrange(b as int, b + 6)[1] == data@[b + 1]);
                    assert(data@.subrange(b as int, b + 6)[2] == data@[b + 2]);
                    assert(data@.subrange(b as int, b + 6)[3] == data@[b + 3]);
                    assert(data@.subrange(b as int, b + 6)[4] == data@[b + 4]);
                    assert(data@.subrange(b as int, b + 6)[5] == data@[b + 5]);
                }
            }
            return Err(VtPackError::MalformedHeader);
        }
        assert(data@.subrange(b as int, b + 6) =~= magic());
        let version = match VtPackVersion::from_code(read_u32(data, b + 6)) {
            Some(v) => v,
            None => return Err(VtPackError::UnsupportedVersion),
        };
        let width: usize = match version {
            VtPackVersion::Ver1 => 4,
            VtPackVersion::Ver2 => 8,
        };
        if n - b < 22 + 3 * width {
            return Err(VtPackError::MalformedHeader);
        }
        let header_end: usize = b + 22 + 3 * width;
        let unk1 = read_u32(data, b + 10);
        let unk2 = read_u32(data, b + 14);
        let unk3 = read_wide(data, b + 18, version);
        let unk4 = read_wide(data, b + 18 + width, version);
        let entry_count = read_u32(data, b + 18 + 2 * width);
        let pool_offset = read_wide(data, b + 22 + 2 * width, version);

        if pool_offset > n as u64 || n - (pool_offset as usize) < 4 {
            return Err(VtPackError::TruncatedPool);
        }
        let pool_start = pool_offset as usize + 4;
        let table_size = read_u32(data, pool_offset as usize);
        if n - pool_start < table_size as usize {
            return Err(VtPackError::TruncatedPool);
        }
        let table_data = slice_to_vec(slice_subrange(data, pool_start, pool_start + table_size as usize));

        if (n - header_end) / ENTRY_RECORD_LEN < entry_count as usize {
            return Err(VtPackError::TruncatedEntryTable);
        }
        assert(header_end + ENTRY_RECORD_LEN * entry_count <= n) by (nonlinear_arith)
            requires
                (n - header_end) / 44 >= entry_count,
                n >= header_end,
                ENTRY_RECORD_LEN == 44,
        ;
        let mut entries: Vec<VtPackRawEntryHeader> = Vec::new();
        let mut i: usize = 0;
        while i < entry_count as usize
            invariant
                i <= entry_count,
                header_end == b + header_len(version),
                b == start,
                header_end + ENTRY_RECORD_LEN * entry_count <= n,
                n == data@.len(),
                entries@ =~= entries_of(data@, start as int, version).subrange(0, i as int),
                entry_count == entry_count_of(data@, start as int, version),
            decreases entry_count - i,
        {
            assert(header_end + ENTRY_RECORD_LEN * i + ENTRY_RECORD_LEN <= n) by (nonlinear_arith)
                requires
                    i < entry_count,
                    header_end + 44 * entry_count <= n,
                    ENTRY_RECORD_LEN == 44,
            ;
            let e = read_entry(data, header_end + ENTRY_RECORD_LEN * i);
            entries.push(e);
            i = i + 1;
        }
        assert(entries@ =~= entries_of(data@, start as int, version));
        let is_v1 = version == VtPackVersion::Ver1;
        Ok(VtPackRawFile {
            version,
            unk1,
            unk2,
            unk3_v1: if is_v1 { unk3 as u32 } else { 0 },
            unk3_v2: if is_v1 { 0 } else { unk3 },
            unk4_v1: if is_v1 { unk4 as u32 } else { 0 },
            unk4_v2: if is_v1 { 0 } else { unk4 },
            entry_count,
            str_table_abs_offset_v1: if is_v1 { pool_offset as u32 } else { 0 },
            str_table_abs_offset_v2: if is_v1 { 0 } else { pool_offset },
            str_table: VtPackStringTable { table_size, table_data },
            entries,
        })
    }
}

/// Little-endian 32-bit value at byte `at` of `d`.
fn read_u32(d: &[u8], at: usize) -> (r: u32)
    requires
        at + 4 <= d@.len(),
    ensures
        r == u32_at(d@, at as int),
{
    assert(d@.len() == d.len());
    u32_from_le_bytes(slice_subrange(d, at, at + 4))
}

/// Little-endian 64-bit value at byte `at` of `d`.
fn read_u64(d: &[u8], at: usize) -> (r: u64)
    requires
        at + 8 <= d@.len(),
    ensures
        r == u64_at(d@, at as int),
{
    assert(d@.len() == d.len());
    u64_from_le_bytes(slice_subrange(d, at, at + 8))
}

/// A version-width field at byte `at`, widened to 64 bits.
fn read_wide(d: &[u8], at: usize, v: VtPackVersion) -> (r: u64)
    requires
        at + v.width() <= d@.len(),
    ensures
        r == wide_at(d@, at as int, v),
{
    match v {
        VtPackVersion::Ver1 => read_u32(d, at) as u64,
        VtPackVersion::Ver2 => read_u64(d, at),
    }
}

/// The entry record at byte `at` of `d`.
fn read_entry(d: &[u8], at: usize) -> (r: VtPackRawEntryHeader)
    requires
        at + ENTRY_RECORD_LEN <= d@.len(),
    ensures
        r == entry_at(d@, at as int),
{
    assert(d@.len() == d.len());
    VtPackRawEntryHeader {
        path_dir_str_table_offset: read_u32(d, at),
        path_name_str_table_offset: read_u32(d, at + 4),
        unk1: read_u32(d, at + 8),
        file_size: read_u64(d, at + 12),
        unk2: read_u64(d, at + 20),
        file_data_abs_offset: read_u64(d, at + 28),
        unk3: read_u32(d, at + 36),
        unk4: read_u32(d, at + 40),
    }
}

} // verus!
