use crate::layout::{
    entries_of, entry_count_of, header_len, layout_error, magic, pool_bytes_of, pool_len_of,
    pool_offset_of, source_version, VtPackError, VtPackRawEntryHeader, VtPackRawFile,
    ENTRY_RECORD_LEN, INVALID_STRING_TABLE_OFFSET,
};
use crate::path::{
    contains_parent_segment, convert_separators, has_drive_prefix, has_parent_segment,
    joined_path, join_path, lemma_absent_segment, lemma_path_is_relative, native_separator,
    read_segment, segment, strip_root, RAW_SEPARATOR,
};
use vstd::prelude::*;
use vstd::slice::{slice_subrange, slice_to_vec};

verus! {

/// What an entry of the archive is, as a reader sees it.
pub struct ResolvedView {
    pub is_file: bool,
    pub path: Seq<char>,
    pub file_size: u64,
    pub file_data_abs_offset: u64,
}

/// Both strings of entry `e` name a NUL-terminated string of the pool, or are absent.
pub open spec fn entry_resolvable(pool: Seq<u8>, e: VtPackRawEntryHeader) -> bool {
    segment(pool, e.path_dir_str_table_offset).is_some() && segment(
        pool,
        e.path_name_str_table_offset,
    ).is_some()
}

/// The resolved view of entry `e`: a file when its payload offset is nonzero,
/// otherwise a directory of size 0.
pub open spec fn resolve_entry(pool: Seq<u8>, e: VtPackRawEntryHeader, sep: char) -> ResolvedView {
    let is_file = e.file_data_abs_offset != 0;
    ResolvedView {
        is_file,
        path: joined_path(
            segment(pool, e.path_dir_str_table_offset).unwrap(),
            segment(pool, e.path_name_str_table_offset).unwrap(),
            sep,
        ),
        file_size: if is_file {
            e.file_size
        } else {
            0
        },
        file_data_abs_offset: e.file_data_abs_offset,
    }
}

/// Why the bytes `d` do not decode into an archive, if they do not.
pub open spec fn decode_error(d: Seq<u8>, b: int) -> Option<VtPackError> {
    match layout_error(d, b) {
        Some(e) => Some(e),
        None => {
            let v = source_version(d, b).unwrap();
            let pool = pool_bytes_of(d, b, v);
            let entries = entries_of(d, b, v);
            if forall|i: int| 0 <= i < entries.len() ==> entry_resolvable(pool, #[trigger] entries[i]) {
                None
            } else {
                Some(VtPackError::StringOffsetOutOfBounds)
            }
        },
    }
}

/// The resolved entries of the archive in `d`, in table order, with paths written
/// with `sep`.
pub open spec fn decoded_entries(d: Seq<u8>, b: int, sep: char) -> Seq<ResolvedView> {
    let v = source_version(d, b).unwrap();
    let pool = pool_bytes_of(d, b, v);
    let entries = entries_of(d, b, v);
    Seq::new(entries.len(), |i: int| resolve_entry(pool, entries[i], sep))
}

/// Every decoded entry is a file exactly when its raw payload offset is nonzero;
/// a file keeps its declared size and a directory has size 0, whatever its record
/// declares.
pub proof fn lemma_file_classification(d: Seq<u8>, b: int, sep: char)
    requires
        decode_error(d, b).is_none(),
    ensures
        forall|i: int|
            0 <= i < decoded_entries(d, b, sep).len() ==> {
                let raw = entries_of(d, b, source_version(d, b).unwrap())[i];
                let r = #[trigger] decoded_entries(d, b, sep)[i];
                &&& r.is_file == (raw.file_data_abs_offset != 0)
                &&& r.file_size == if r.is_file {
                    raw.file_size
                } else {
                    0
                }
                &&& r.file_data_abs_offset == raw.file_data_abs_offset
            },
{
}

/// An entry whose directory or name reference is the "no string" offset
/// resolves to the path of its other segment alone, with no separator added.
pub proof fn lemma_absent_segment_entry(d: Seq<u8>, b: int, sep: char, i: int)
    requires
        decode_error(d, b).is_none(),
        0 <= i < entries_of(d, b, source_version(d, b).unwrap()).len(),
    ensures
        ({
            let v = source_version(d, b).unwrap();
            let pool = pool_bytes_of(d, b, v);
            let e = entries_of(d, b, v)[i];
            let dir = segment(pool, e.path_dir_str_table_offset).unwrap();
            let name = segment(pool, e.path_name_str_table_offset).unwrap();
            let path = decoded_entries(d, b, sep)[i].path;
            &&& e.path_dir_str_table_offset == INVALID_STRING_TABLE_OFFSET && name.is_some()
                ==> path == strip_root(convert_separators(name.unwrap(), sep), sep)
            &&& e.path_name_str_table_offset == INVALID_STRING_TABLE_OFFSET && dir.is_some()
                ==> path == strip_root(convert_separators(dir.unwrap(), sep), sep)
            &&& e.path_dir_str_table_offset == INVALID_STRING_TABLE_OFFSET
                && e.path_name_str_table_offset == INVALID_STRING_TABLE_OFFSET ==> path.len() == 0
        }),
{
    let v = source_version(d, b).unwrap();
    let pool = pool_bytes_of(d, b, v);
    let e = entries_of(d, b, v)[i];
    let dir = segment(pool, e.path_dir_str_table_offset).unwrap();
    let name = segment(pool, e.path_name_str_table_offset).unwrap();
    if name.is_some() {
        lemma_absent_segment(name.unwrap(), sep);
    }
    if dir.is_some() {
        lemma_absent_segment(dir.unwrap(), sep);
    }
    lemma_absent_segment(Seq::empty(), sep);
}

/// No decoded path starts with a separator of any platform or with a drive
/// designator, so joining it onto an output directory stays below that directory
/// (`..` components aside: see `VtPackProcessedEntry::has_parent_segment`).
pub proof fn lemma_entry_paths_relative(d: Seq<u8>, b: int, sep: char)
    requires
        decode_error(d, b).is_none(),
    ensures
        forall|i: int|
            0 <= i < decoded_entries(d, b, sep).len() ==> {
                let p = (#[trigger] decoded_entries(d, b, sep)[i]).path;
                &&& p.len() > 0 ==> p[0] != sep && p[0] != '/' && p[0] != RAW_SEPARATOR
                &&& !has_drive_prefix(p)
            },
{
    let v = source_version(d, b).unwrap();
    let pool = pool_bytes_of(d, b, v);
    let entries = entries_of(d, b, v);
    assert forall|i: int| 0 <= i < decoded_entries(d, b, sep).len() implies {
        let p = (#[trigger] decoded_entries(d, b, sep)[i]).path;
        &&& p.len() > 0 ==> p[0] != sep && p[0] != '/' && p[0] != RAW_SEPARATOR
        &&& !has_drive_prefix(p)
    } by {
        let e = entries[i];
        lemma_path_is_relative(
            segment(pool, e.path_dir_str_table_offset).unwrap(),
            segment(pool, e.path_name_str_table_offset).unwrap(),
            sep,
        );
    }
}

/// A source with a sound header that ends inside the declared string pool fails
/// with `TruncatedPool`; one whose pool is whole but that ends before
/// `entry_count` full records fails with `TruncatedEntryTable`.
pub proof fn lemma_truncated_source(d: Seq<u8>, b: int)
    requires
        0 <= b,
        d.len() >= b + 10,
        d.subrange(b, b + 6) == magic(),
        source_version(d, b).is_some(),
        d.len() >= b + header_len(source_version(d, b).unwrap()),
    ensures
        ({
            let v = source_version(d, b).unwrap();
            let pool_end = pool_offset_of(d, b, v) + 4 + pool_len_of(d, b, v);
            &&& pool_end > d.len() ==> decode_error(d, b) == Some(VtPackError::TruncatedPool)
            &&& pool_end <= d.len() && b + header_len(v) + ENTRY_RECORD_LEN * entry_count_of(d, b, v)
                > d.len() ==> decode_error(d, b) == Some(VtPackError::TruncatedEntryTable)
        }),
{
}

/// The version decides only the width of header fields: two sources whose string
/// pools and entry tables hold the same records decode alike, whatever their
/// versions.
pub proof fn lemma_version_independent(d1: Seq<u8>, b1: int, d2: Seq<u8>, b2: int, sep: char)
    requires
        layout_error(d1, b1).is_none(),
        layout_error(d2, b2).is_none(),
        pool_bytes_of(d1, b1, source_version(d1, b1).unwrap()) == pool_bytes_of(
            d2,
            b2,
            source_version(d2, b2).unwrap(),
        ),
        entries_of(d1, b1, source_version(d1, b1).unwrap()) == entries_of(d2, b2, source_version(d2, b2).unwrap()),
    ensures
        decode_error(d1, b1) == decode_error(d2, b2),
        decoded_entries(d1, b1, sep) == decoded_entries(d2, b2, sep),
{
}

/// One member of the archive: a file or a directory with a safe relative path.
pub struct VtPackProcessedEntry {
    is_file: bool,
    path: String,
    file_size: u64,
    file_data_abs_offset: u64,
}

impl View for VtPackProcessedEntry {
    type V = ResolvedView;

    closed spec fn view(&self) -> ResolvedView {
        ResolvedView {
            is_file: self.is_file,
            path: self.path@,
            file_size: self.file_size,
            file_data_abs_offset: self.file_data_abs_offset,
        }
    }
}

impl VtPackProcessedEntry {
    pub fn get_path(&self) -> (r: &String)
        ensures
            r@ == self@.path,
    {
        &self.path
    }

    pub fn is_file(&self) -> (r: bool)
        ensures
            r == self@.is_file,
    {
        self.is_file
    }

    pub fn is_dir(&self) -> (r: bool)
        ensures
            r == !self@.is_file,
    {
        !self.is_file
    }

    /// Size of the file's payload; 0 for a directory.
    pub fn get_file_size(&self) -> (r: usize)
        ensures
            r == self@.file_size as usize,
    {
        #[verifier::truncate]
        (self.file_size as usize)
    }

    /// Whether the path has a `..` component. Decoding keeps such paths as the
    /// archive wrote them; a caller that writes entries to disk should refuse them,
    /// since they name a place above the output directory.
    pub fn has_parent_segment(&self) -> (r: bool)
        ensures
            r == has_parent_segment(self@.path),
    {
        contains_parent_segment(self.path.as_str())
    }

    /// Absolute offset of the file's payload in the source; 0 for a directory.
    pub fn get_file_data_offset(&self) -> (r: u64)
        ensures
            r == self@.file_data_abs_offset,
    {
        self.file_data_abs_offset
    }

    /// The entry's payload: `file_size` bytes of `source` at the payload offset.
    /// A directory's payload is empty.
    pub fn read_data(&self, source: &[u8]) -> (r: Result<Vec<u8>, VtPackError>)
        ensures
            ({
                let start = self@.file_data_abs_offset as int;
                let end = start + self@.file_size;
                match r {
                    Ok(b) => end <= source@.len() && b@ == source@.subrange(start, end),
                    Err(e) => end > source@.len() && e == VtPackError::TruncatedPayload,
                }
            }),
    {
        let n = source.len() as u64;
        if self.file_data_abs_offset > n || n - self.file_data_abs_offset < self.file_size {
            return Err(VtPackError::TruncatedPayload);
        }
        let start = self.file_data_abs_offset as usize;
        let end = start + self.file_size as usize;
        Ok(slice_to_vec(slice_subrange(source, start, end)))
    }
}

/// A decoded archive: its raw records and the resolved entry list.
pub struct VtPackFile {
    raw: VtPackRawFile,
    p_entries: Vec<VtPackProcessedEntry>,
    sep: char,
}

/// Resolves every raw entry of `raw`, in table order, with paths written with `sep`.
fn process_entries(raw: &VtPackRawFile, sep: char) -> (r: Result<
    Vec<VtPackProcessedEntry>,
    VtPackError,
>)
    ensures
        ({
            let pool = raw.str_table.table_data@;
            let entries = raw.entries@;
            match r {
                Ok(v) => (forall|i: int|
                    0 <= i < entries.len() ==> entry_resolvable(pool, #[trigger] entries[i]))
                    && v@.map_values(|p: VtPackProcessedEntry| p@) == Seq::new(
                    entries.len(),
                    |i: int| resolve_entry(pool, entries[i], sep),
                ),
                Err(e) => e == VtPackError::StringOffsetOutOfBounds && !(forall|i: int|
                    0 <= i < entries.len() ==> entry_resolvable(pool, #[trigger] entries[i])),
            }
        }),
{
    let pool = raw.str_table.table_data.as_slice();
    let n = raw.entries.len();
    let mut out: Vec<VtPackProcessedEntry> = Vec::new();
    let mut i: usize = 0;
    while i < n
        invariant
            i <= n,
            n == raw.entries@.len(),
            pool@ == raw.str_table.table_data@,
            out@.len() == i,
            forall|j: int| 0 <= j < i ==> entry_resolvable(pool@, #[trigger] raw.entries@[j]),
            out@.map_values(|p: VtPackProcessedEntry| p@) =~= Seq::new(
                i as nat,
                |j: int| resolve_entry(pool@, raw.entries@[j], sep),
            ),
        decreases n - i,
    {
        let e = raw.entries[i];
        let dir = match read_segment(pool, e.path_dir_str_table_offset) {
            Ok(s) => s,
            Err(err) => return Err(err),
        };
        let name = match read_segment(pool, e.path_name_str_table_offset) {
            Ok(s) => s,
            Err(err) => return Err(err),
        };
        let path = join_path(&dir, &name, sep);
        let is_file = e.file_data_abs_offset != 0;
        let ghost before = out@;
        out.push(
            VtPackProcessedEntry {
                is_file,
                path,
                file_size: if is_file {
                    e.file_size
                } else {
                    0
                },
                file_data_abs_offset: e.file_data_abs_offset,
            },
        );
        assert(out@[i as int]@ == resolve_entry(pool@, raw.entries@[i as int], sep));
        assert(out@ == before.push(out@[i as int]));
        assert(out@.map_values(|p: VtPackProcessedEntry| p@) =~= before.map_values(
            |p: VtPackProcessedEntry| p@,
        ).push(out@[i as int]@));
        i = i + 1;
    }
    Ok(out)
}

impl VtPackFile {
    /// The resolved entries, in table order.
    pub closed spec fn entries(&self) -> Seq<ResolvedView> {
        self.p_entries@.map_values(|p: VtPackProcessedEntry| p@)
    }

    /// The separator that the resolved paths are written with.
    pub closed spec fn separator(&self) -> char {
        self.sep
    }

    /// The raw header, pool and entry table.
    pub closed spec fn raw_file(&self) -> VtPackRawFile {
        self.raw
    }

    /// Decodes the archive whose header starts at byte `start` of `data`, writing
    /// paths with the platform's separator.
    pub fn new(data: &[u8], start: usize) -> (r: Result<VtPackFile, VtPackError>)
        ensures
            match r {
                Ok(f) => decode_error(data@, start as int).is_none() && (f.separator() == '/' || f.separator()
                    == '\\') && f.entries() == decoded_entries(data@, start as int, f.separator())
                    && f.raw_file().decodes(data@, start as int),
                Err(e) => decode_error(data@, start as int) == Some(e),
            },
    {
        Self::decode_with_separator(data, start, native_separator())
    }

    /// Decodes the archive whose header starts at byte `start` of `data`, writing
    /// paths with `sep`.
    pub fn decode_with_separator(data: &[u8], start: usize, sep: char) -> (r: Result<VtPackFile, VtPackError>)
        ensures
            match r {
                Ok(f) => decode_error(data@, start as int).is_none() && f.separator() == sep && f.entries()
                    == decoded_entries(data@, start as int, sep) && f.raw_file().decodes(data@, start as int),
                Err(e) => decode_error(data@, start as int) == Some(e),
            },
    {
        let raw = match VtPackRawFile::parse(data, start) {
            Ok(raw) => raw,
            Err(e) => return Err(e),
        };
        let p_entries = match process_entries(&raw, sep) {
            Ok(p) => p,
            Err(e) => return Err(e),
        };
        let f = VtPackFile { raw, p_entries, sep };
        assert(f.entries() =~= decoded_entries(data@, start as int, sep));
        Ok(f)
    }

    /// The raw header, string pool and entry table the entries were resolved from.
    pub fn raw(&self) -> (r: &VtPackRawFile)
        ensures
            *r == self.raw_file(),
    {
        &self.raw
    }

    /// The resolved entries, in table order.
    pub fn list_entries(&self) -> (r: &Vec<VtPackProcessedEntry>)
        ensures
            r@.map_values(|p: VtPackProcessedEntry| p@) == self.entries(),
    {
        &self.p_entries
    }
}

} // verus!
