use crate::layout::{VtPackError, INVALID_STRING_TABLE_OFFSET};
use vstd::prelude::*;
use vstd::slice::slice_subrange;

verus! {

/// The separator that the archive format writes between path segments.
pub const RAW_SEPARATOR: char = '\\';

/// Text of bytes decoded as UTF-8, each invalid sequence replaced by U+FFFD.
pub uninterp spec fn lossy_text(b: Seq<u8>) -> Seq<char>;

/// Relies on `String::from_utf8_lossy`: the text depends on the bytes alone.
#[verifier::external_body]
fn text_from_bytes(b: &[u8]) -> (r: String)
    ensures
        r@ == lossy_text(b@),
{
    String::from_utf8_lossy(b).into_owned()
}

/// The characters of `s`, in order.
fn chars_of(s: &str) -> (r: Vec<char>)
    ensures
        r@ == s@,
{
    broadcast use vstd::string::axiom_spec_iter;

    let mut out: Vec<char> = Vec::new();
    for c in it: s.chars()
        invariant
            out@ == it.seq().take(it.index() as int),
            it.seq() == s@,
    {
        out.push(c);
    }
    out
}

/// Relies on `FromIterator<char>` for `String`: the string of these characters.
#[verifier::external_body]
fn string_from_chars(c: &[char]) -> (r: String)
    ensures
        r@ == c@,
{
    c.iter().collect()
}

/// Relies on `std::path::MAIN_SEPARATOR`: `/` on Unix, `\` on Windows.
#[verifier::external_body]
pub(crate) fn native_separator() -> (r: char)
    ensures
        r == '/' || r == '\\',
{
    std::path::MAIN_SEPARATOR
}

/// Index of the first NUL byte of `pool` at or after `i`.
pub open spec fn nul_from(pool: Seq<u8>, i: int) -> Option<int>
    decreases pool.len() - i,
{
    if i < 0 || i >= pool.len() {
        None
    } else if pool[i] == 0 {
        Some(i)
    } else {
        nul_from(pool, i + 1)
    }
}

/// The segment that `off` refers to: `Some(None)` for the "no string" offset,
/// `Some(Some(text))` for the bytes from `off` up to the next NUL, and `None`
/// when `off` names no NUL-terminated string inside the pool.
pub open spec fn segment(pool: Seq<u8>, off: u32) -> Option<Option<Seq<char>>> {
    if off == INVALID_STRING_TABLE_OFFSET {
        Some(None)
    } else {
        match nul_from(pool, off as int) {
            Some(end) => Some(Some(lossy_text(pool.subrange(off as int, end)))),
            None => None,
        }
    }
}

/// The segments that are present, joined by a raw separator.
pub open spec fn raw_join(dir: Option<Seq<char>>, name: Option<Seq<char>>) -> Seq<char> {
    match (dir, name) {
        (Some(d), Some(n)) => d + seq![RAW_SEPARATOR] + n,
        (Some(d), None) => d,
        (None, Some(n)) => n,
        (None, None) => Seq::empty(),
    }
}

/// Rewrites raw separators into `sep`, a doubled raw separator counting as one.
/// Pairs are taken left to right without overlap, so three in a row give two.
pub open spec fn convert_separators(s: Seq<char>, sep: char) -> Seq<char>
    decreases s.len(),
{
    if s.len() == 0 {
        Seq::empty()
    } else if s.len() >= 2 && s[0] == RAW_SEPARATOR && s[1] == RAW_SEPARATOR {
        seq![sep] + convert_separators(s.subrange(2, s.len() as int), sep)
    } else {
        seq![if s[0] == RAW_SEPARATOR { sep } else { s[0] }] + convert_separators(
            s.subrange(1, s.len() as int),
            sep,
        )
    }
}

/// A character that some platform reads as a path separator.
pub open spec fn is_separator(c: char, sep: char) -> bool {
    c == sep || c == '/' || c == RAW_SEPARATOR
}

pub open spec fn is_ascii_letter(c: char) -> bool {
    ('a' <= c && c <= 'z') || ('A' <= c && c <= 'Z')
}

/// `s` starts like a drive designator, such as `C:`.
pub open spec fn has_drive_prefix(s: Seq<char>) -> bool {
    s.len() >= 2 && is_ascii_letter(s[0]) && s[1] == ':'
}

/// `s` without what could make it rooted: leading separators and drive
/// designators are removed until neither is left in front.
pub open spec fn strip_root(s: Seq<char>, sep: char) -> Seq<char>
    decreases s.len(),
{
    if s.len() > 0 && is_separator(s[0], sep) {
        strip_root(s.subrange(1, s.len() as int), sep)
    } else if has_drive_prefix(s) {
        strip_root(s.subrange(2, s.len() as int), sep)
    } else {
        s
    }
}

/// The relative path of an entry: the present segments joined by a raw
/// separator, separators rewritten into `sep`, and any root removed.
pub open spec fn joined_path(dir: Option<Seq<char>>, name: Option<Seq<char>>, sep: char) -> Seq<
    char,
> {
    strip_root(convert_separators(raw_join(dir, name), sep), sep)
}

/// `p` has a `..` component, which names a parent directory.
pub open spec fn has_parent_segment(p: Seq<char>) -> bool {
    exists|i: int|
        0 <= i && i + 1 < p.len() && #[trigger] p[i] == '.' && p[i + 1] == '.' && (i == 0
            || p[i - 1] == '/' || p[i - 1] == RAW_SEPARATOR) && (i + 2 == p.len() || p[i + 2]
            == '/' || p[i + 2] == RAW_SEPARATOR)
}

/// A missing segment adds no separator: with one of directory and name absent,
/// the path is that of the other alone, and with both absent it is empty.
pub proof fn lemma_absent_segment(s: Seq<char>, sep: char)
    ensures
        joined_path(None, Some(s), sep) == strip_root(convert_separators(s, sep), sep),
        joined_path(Some(s), None, sep) == strip_root(convert_separators(s, sep), sep),
        joined_path(None, None, sep) == Seq::<char>::empty(),
{
    assert(convert_separators(Seq::<char>::empty(), sep) =~= Seq::<char>::empty());
}

/// Removing the root leaves a text that neither starts with a separator nor
/// with a drive designator.
proof fn lemma_strip_root(s: Seq<char>, sep: char)
    ensures
        ({
            let r = strip_root(s, sep);
            &&& r.len() > 0 ==> !is_separator(r[0], sep)
            &&& !has_drive_prefix(r)
        }),
    decreases s.len(),
{
    if s.len() > 0 && is_separator(s[0], sep) {
        lemma_strip_root(s.subrange(1, s.len() as int), sep);
    } else if has_drive_prefix(s) {
        lemma_strip_root(s.subrange(2, s.len() as int), sep);
    }
}

/// A resolved path never starts with a separator of any platform nor with a
/// drive designator, whatever the directory and name hold.
pub proof fn lemma_path_is_relative(dir: Option<Seq<char>>, name: Option<Seq<char>>, sep: char)
    ensures
        ({
            let p = joined_path(dir, name, sep);
            &&& p.len() > 0 ==> p[0] != sep && p[0] != '/' && p[0] != RAW_SEPARATOR
            &&& !has_drive_prefix(p)
        }),
{
    lemma_strip_root(convert_separators(raw_join(dir, name), sep), sep);
}

/// The pool segment at `off`, per `segment`: `None` for the "no string" offset.
/// An offset at or past the end of the pool, or a string that runs to the end of
/// the pool without a NUL, is `StringOffsetOutOfBounds`.
pub fn read_segment(pool: &[u8], off: u32) -> (r: Result<Option<String>, VtPackError>)
    ensures
        match r {
            Ok(s) => segment(pool@, off) == Some(
                match s {
                    Some(t) => Some(t@),
                    None => None,
                },
            ),
            Err(e) => segment(pool@, off).is_none() && e == VtPackError::StringOffsetOutOfBounds,
        },
{
    if off == INVALID_STRING_TABLE_OFFSET {
        return Ok(None);
    }
    let n = pool.len();
    let start = off as usize;
    if start >= n {
        return Err(VtPackError::StringOffsetOutOfBounds);
    }
    let mut i: usize = start;
    while i < n
        invariant
            start <= i <= n,
            n == pool@.len(),
            start == off as int,
            off != INVALID_STRING_TABLE_OFFSET,
            nul_from(pool@, start as int) == nul_from(pool@, i as int),
        decreases n - i,
    {
        if pool[i] == 0 {
            assert(nul_from(pool@, i as int) == Some(i as int));
            return Ok(Some(text_from_bytes(slice_subrange(pool, start, i))));
        }
        i = i + 1;
    }
    assert(nul_from(pool@, n as int).is_none());
    Err(VtPackError::StringOffsetOutOfBounds)
}

fn is_separator_char(c: char, sep: char) -> (r: bool)
    ensures
        r == is_separator(c, sep),
{
    c == sep || c == '/' || c == RAW_SEPARATOR
}

fn is_ascii_letter_char(c: char) -> (r: bool)
    ensures
        r == is_ascii_letter(c),
{
    ('a' <= c && c <= 'z') || ('A' <= c && c <= 'Z')
}

/// Joins the present segments into a relative path written with `sep`.
pub fn join_path(dir: &Option<String>, name: &Option<String>, sep: char) -> (r: String)
    ensures
        r@ == joined_path(
            match dir {
                Some(d) => Some(d@),
                None => None,
            },
            match name {
                Some(n) => Some(n@),
                None => None,
            },
            sep,
        ),
{
    let mut joined: Vec<char> = match dir {
        Some(d) => chars_of(d.as_str()),
        None => Vec::new(),
    };
    if dir.is_some() && name.is_some() {
        joined.push(RAW_SEPARATOR);
    }
    if let Some(n) = name {
        let mut name_chars = chars_of(n.as_str());
        joined.append(&mut name_chars);
    }
    let ghost whole = joined@;
    assert(whole =~= raw_join(
        match dir {
            Some(d) => Some(d@),
            None => None,
        },
        match name {
            Some(n) => Some(n@),
            None => None,
        },
    ));

    let n = joined.len();
    let mut out: Vec<char> = Vec::new();
    let mut i: usize = 0;
    assert(whole.subrange(0, n as int) =~= whole);
    assert(out@ + convert_separators(whole, sep) =~= convert_separators(whole, sep));
    while i < n
        invariant
            i <= n,
            n == whole.len(),
            joined@ == whole,
            convert_separators(whole, sep) == out@ + convert_separators(
                whole.subrange(i as int, n as int),
                sep,
            ),
        decreases n - i,
    {
        let rest = Ghost(whole.subrange(i as int, n as int));
        if i + 1 < n && joined[i] == RAW_SEPARATOR && joined[i + 1] == RAW_SEPARATOR {
            assert(rest@.subrange(2, rest@.len() as int) =~= whole.subrange(i + 2, n as int));
            out.push(sep);
            i = i + 2;
        } else {
            assert(rest@.subrange(1, rest@.len() as int) =~= whole.subrange(i + 1, n as int));
            if joined[i] == RAW_SEPARATOR {
                out.push(sep);
            } else {
                out.push(joined[i]);
            }
            i = i + 1;
        }
        assert(convert_separators(whole, sep) == out@ + convert_separators(
            whole.subrange(i as int, n as int),
            sep,
        ));
    }
    assert(whole.subrange(n as int, n as int) =~= Seq::<char>::empty());
    assert(out@ =~= out@ + Seq::<char>::empty());

    let m = out.len();
    let mut k: usize = 0;
    assert(out@.subrange(0, m as int) =~= out@);
    loop
        invariant
            k <= m,
            m == out@.len(),
            strip_root(out@, sep) == strip_root(out@.subrange(k as int, m as int), sep),
        ensures
            k <= m,
            strip_root(out@, sep) == out@.subrange(k as int, m as int),
        decreases m - k,
    {
        let ghost rest = out@.subrange(k as int, m as int);
        if k < m && is_separator_char(out[k], sep) {
            assert(rest.subrange(1, rest.len() as int) =~= out@.subrange(k + 1, m as int));
            k = k + 1;
        } else if k < m && m - k > 1 && is_ascii_letter_char(out[k]) && out[k + 1] == ':' {
            assert(rest.subrange(2, rest.len() as int) =~= out@.subrange(k + 2, m as int));
            k = k + 2;
        } else {
            assert(strip_root(rest, sep) == rest);
            break;
        }
    }
    string_from_chars(slice_subrange(out.as_slice(), k, m))
}

/// Whether `path` has a `..` component.
pub fn contains_parent_segment(path: &str) -> (r: bool)
    ensures
        r == has_parent_segment(path@),
{
    let p = chars_of(path);
    let n = p.len();
    let mut i: usize = 0;
    while i < n && n - i > 1
        invariant
            p@ == path@,
            n == p@.len(),
            forall|j: int|
                0 <= j < i && j + 1 < n ==> !(#[trigger] p@[j] == '.' && p@[j + 1] == '.' && (j
                    == 0 || p@[j - 1] == '/' || p@[j - 1] == RAW_SEPARATOR) && (j + 2 == n
                    || p@[j + 2] == '/' || p@[j + 2] == RAW_SEPARATOR)),
        decreases n - i,
    {
        if p[i] == '.' && p[i + 1] == '.' && (i == 0 || p[i - 1] == '/' || p[i - 1]
            == RAW_SEPARATOR) && (i + 2 == n || p[i + 2] == '/' || p[i + 2] == RAW_SEPARATOR) {
            return true;
        }
        i = i + 1;
    }
    false
}

} // verus!
