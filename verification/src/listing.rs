//! Reading the technical listing that the engine prints for `l -slt`: a
//! header, a line of dashes, then one block of `Key = Value` lines per entry.

use crate::catalog::{Catalog, Entry, EntryView, OpenType};
use crate::scan::{
    crlf_to_lf, find_at, find_from, lemma_deep_chars, lf_from, lines, lines_from, matches_at,
    same_chars, slice_of, split, split_from,
};
use crate::text::{chars_of, parse_u64, parse_unsigned, string_of, to_upper, upper_case};
use vstd::prelude::*;

verus! {

/// Why a listing could not be read.
#[derive(Clone, Copy, Debug, PartialEq, Eq, Structural)]
pub enum ListingError {
    /// The text has no line of dashes between header and entries.
    Invalid,
    /// An entry's size is not a number.
    BadSize,
    /// The header names no archive type.
    FormatMissing,
}

/// The line of dashes that ends the header.
pub open spec fn header_end() -> Seq<char> {
    seq!['\n', '-', '-', '-', '-', '-', '-', '-', '-', '-', '-', '\n']
}

/// What separates two entry blocks: an empty line.
pub open spec fn block_gap() -> Seq<char> {
    seq!['\n', '\n']
}

/// What separates a key from its value.
pub open spec fn key_separator() -> Seq<char> {
    seq![' ', '=', ' ']
}

/// The start of the header line that names the archive type.
pub open spec fn type_prefix() -> Seq<char> {
    seq!['T', 'y', 'p', 'e', ' ', '=', ' ']
}

/// A line split at its first ` = `.
pub open spec fn key_value(line: Seq<char>) -> Option<(Seq<char>, Seq<char>)> {
    match find_from(line, key_separator(), 0) {
        Some(k) => Some((line.subrange(0, k), line.subrange(k + 3, line.len() as int))),
        None => None,
    }
}

/// The value of `key` among the `Key = Value` lines of a block; where a key
/// occurs twice, the later line wins.
pub open spec fn field(lines: Seq<Seq<char>>, key: Seq<char>) -> Option<Seq<char>>
    decreases lines.len(),
{
    if lines.len() == 0 {
        None
    } else {
        match key_value(lines.last()) {
            Some(kv) => if kv.0 == key {
                Some(kv.1)
            } else {
                field(lines.drop_last(), key)
            },
            None => field(lines.drop_last(), key),
        }
    }
}

/// A path with every backslash turned into a slash.
pub open spec fn forward_slashes(s: Seq<char>) -> Seq<char> {
    s.map_values(|c: char| if c == '\\' { '/' } else { c })
}

/// A path without its trailing slashes.
pub open spec fn trim_slashes(s: Seq<char>) -> Seq<char>
    decreases s.len(),
{
    if s.len() > 0 && s.last() == '/' {
        trim_slashes(s.drop_last())
    } else {
        s
    }
}

/// What follows the last slash of a path, or the whole path.
pub open spec fn last_segment(s: Seq<char>) -> Seq<char>
    decreases s.len(),
{
    if s.len() == 0 {
        s
    } else if s.last() == '/' {
        seq![]
    } else {
        last_segment(s.drop_last()).push(s.last())
    }
}

/// The characters that `char::is_whitespace` accepts: Unicode White_Space.
pub open spec fn is_whitespace(c: char) -> bool {
    ||| ('\u{9}' <= c && c <= '\u{d}')
    ||| c == ' '
    ||| c == '\u{85}'
    ||| c == '\u{a0}'
    ||| c == '\u{1680}'
    ||| ('\u{2000}' <= c && c <= '\u{200a}')
    ||| c == '\u{2028}'
    ||| c == '\u{2029}'
    ||| c == '\u{202f}'
    ||| c == '\u{205f}'
    ||| c == '\u{3000}'
}

/// Whether one of the whitespace-separated words of an attribute text starts
/// with `l`, the mark of a link.
pub open spec fn has_link_word(a: Seq<char>) -> bool {
    exists|i: int| 0 <= i < a.len() && #[trigger] a[i] == 'l' && (i == 0 || is_whitespace(a[i - 1]))
}

/// What one block of the listing describes: nothing (`Ok(None)`), an entry,
/// or an error where the size is not a number. A block without a path is
/// skipped, except that in the listing of a single compressed stream a block
/// with a size names the stream's content, which is called `stream_name`.
pub open spec fn block_entry(block: Seq<char>, stream: bool, stream_name: Seq<char>) -> Result<
    Option<EntryView>,
    ListingError,
> {
    let ls = lines_from(block, 0);
    let raw = match field(ls, "Path"@) {
        Some(p) => Some(p),
        None => if stream && field(ls, "Size"@) is Some {
            Some(stream_name)
        } else {
            None
        },
    };
    match raw {
        None => Ok(None),
        Some(raw) => {
            let path = trim_slashes(forward_slashes(raw));
            let attributes = match field(ls, "Attributes"@) {
                Some(a) => a,
                None => seq![],
            };
            let size = match field(ls, "Size"@) {
                Some(t) => if t.len() == 0 {
                    Ok(None)
                } else {
                    match parse_u64(t) {
                        Some(v) => Ok(Some(v as u64)),
                        None => Err(ListingError::BadSize),
                    }
                },
                None => Ok(None),
            };
            match size {
                Err(e) => Err(e),
                Ok(size) => Ok(
                    Some(
                        EntryView {
                            path: path,
                            name: last_segment(path),
                            directory: field(ls, "Folder"@) == Some(seq!['+']) || (attributes.len()
                                > 0 && attributes[0] == 'D'),
                            size: size,
                            modified: match field(ls, "Modified"@) {
                                Some(m) => m,
                                None => seq![],
                            },
                            link: field(ls, "Symbolic Link"@) is Some || field(ls, "Hard Link"@) is Some
                                || has_link_word(attributes),
                            encrypted: field(ls, "Encrypted"@) == Some(seq!['+']),
                        },
                    ),
                ),
            }
        },
    }
}

/// The entries of the blocks, in order, or the error of the first block
/// that has one.
pub open spec fn block_entries(blocks: Seq<Seq<char>>, stream: bool, stream_name: Seq<char>) -> Result<
    Seq<EntryView>,
    ListingError,
>
    decreases blocks.len(),
{
    if blocks.len() == 0 {
        Ok(seq![])
    } else {
        match block_entries(blocks.drop_last(), stream, stream_name) {
            Err(e) => Err(e),
            Ok(es) => match block_entry(blocks.last(), stream, stream_name) {
                Err(e) => Err(e),
                Ok(None) => Ok(es),
                Ok(Some(e)) => Ok(es.push(e)),
            },
        }
    }
}

/// Whether the header describes a single compressed stream (xz or bzip2),
/// whose listing names no path.
pub open spec fn is_stream(header: Seq<Seq<char>>) -> bool {
    exists|i: int|
        0 <= i < header.len() && (header[i] == "Type = xz"@ || header[i] == "Type = bzip2"@)
}

/// The archive type that the first `Type = ` line of the header names.
pub open spec fn type_line(header: Seq<Seq<char>>) -> Option<Seq<char>>
    decreases header.len(),
{
    if header.len() == 0 {
        None
    } else if type_prefix().is_prefix_of(header[0]) {
        Some(header[0].skip(7))
    } else {
        type_line(header.drop_first())
    }
}

/// What a listing says: the archive type, upper-cased, and the entries.
pub open spec fn listing_of(text: Seq<char>, stream_name: Seq<char>) -> Result<
    (Seq<char>, Seq<EntryView>),
    ListingError,
> {
    let t = lf_from(text, 0);
    match find_from(t, header_end(), 0) {
        None => Err(ListingError::Invalid),
        Some(k) => {
            let header = lines_from(t.subrange(0, k), 0);
            let records = t.subrange(k + 12, t.len() as int);
            match block_entries(
                split_from(records, block_gap(), 0),
                is_stream(header),
                stream_name,
            ) {
                Err(e) => Err(e),
                Ok(entries) => match type_line(header) {
                    None => Err(ListingError::FormatMissing),
                    Some(f) => Ok((upper_case(f), entries)),
                },
            }
        },
    }
}

/// The value of `key` among the lines of a block.
fn field_of(ls: &Vec<Vec<char>>, key: &Vec<char>) -> (r: Option<Vec<char>>)
    ensures
        match field(ls.deep_view(), key@) {
            Some(v) => r matches Some(x) && x@ == v,
            None => r is None,
        },
{
    let sep = vec![' ', '=', ' '];
    assert(sep@ =~= key_separator());
    let mut found: Option<Vec<char>> = None;
    let mut i: usize = 0;
    while i < ls.len()
        invariant
            i <= ls.len(),
            sep@ == key_separator(),
            match field(ls.deep_view().take(i as int), key@) {
                Some(v) => found matches Some(x) && x@ == v,
                None => found is None,
            },
        decreases ls.len() - i,
    {
        let line = &ls[i];
        proof {
            lemma_deep_chars(line);
            assert(ls.deep_view().take(i + 1).drop_last() =~= ls.deep_view().take(i as int));
            assert(ls.deep_view().take(i + 1).last() == line@);
        }
        match find_at(line, &sep, 0) {
            Some(k) => {
                proof {
                    crate::scan::lemma_find_from(line@, sep@, 0);
                }
                let n = line.len();
                assert(sep@.len() == 3);
                assert(k + 3 <= n);
                let is_key = k == key.len() && matches_at(line, key, 0);
                assert(is_key == (line@.subrange(0, k as int) == key@));
                if is_key {
                    found = Some(slice_of(line, k + 3, n));
                }
            },
            None => {},
        }
        i = i + 1;
    }
    assert(ls.deep_view().take(i as int) =~= ls.deep_view());
    found
}

/// A path with every backslash turned into a slash.
fn forward(s: &Vec<char>) -> (r: Vec<char>)
    ensures
        r@ == forward_slashes(s@),
{
    let mut r: Vec<char> = Vec::new();
    let mut i: usize = 0;
    while i < s.len()
        invariant
            i <= s.len(),
            r@ == forward_slashes(s@.take(i as int)),
        decreases s.len() - i,
    {
        let c = s[i];
        r.push(if c == '\\' { '/' } else { c });
        assert(forward_slashes(s@.take(i + 1)) =~= forward_slashes(s@.take(i as int)).push(
            if c == '\\' { '/' } else { c },
        ));
        i = i + 1;
    }
    assert(s@.take(i as int) =~= s@);
    r
}

/// A path without its trailing slashes.
fn trimmed(s: Vec<char>) -> (r: Vec<char>)
    ensures
        r@ == trim_slashes(s@),
{
    let ghost start = s@;
    let mut s = s;
    while s.len() > 0 && s[s.len() - 1] == '/'
        invariant
            trim_slashes(s@) == trim_slashes(start),
        decreases s.len(),
    {
        let ghost before = s@;
        s.pop();
        assert(s@ =~= before.drop_last());
    }
    s
}

/// What follows the last slash of a path.
fn segment(s: &Vec<char>) -> (r: Vec<char>)
    ensures
        r@ == last_segment(s@),
{
    let mut j = s.len();
    assert(s@.take(j as int) =~= s@);
    assert(last_segment(s@) + s@.subrange(j as int, j as int) =~= last_segment(s@));
    while j > 0 && s[j - 1] != '/'
        invariant
            j <= s.len(),
            last_segment(s@) == last_segment(s@.take(j as int)) + s@.subrange(j as int, s@.len() as int),
        decreases j,
    {
        let ghost t = s@.take(j as int);
        assert(t.drop_last() =~= s@.take(j - 1));
        assert(s@.subrange(j - 1, s@.len() as int) =~= seq![s@[j - 1]] + s@.subrange(
            j as int,
            s@.len() as int,
        ));
        assert(last_segment(t) == last_segment(s@.take(j - 1)).push(s@[j - 1]));
        assert(last_segment(s@.take(j - 1)).push(s@[j - 1]) + s@.subrange(j as int, s@.len() as int)
            =~= last_segment(s@.take(j - 1)) + s@.subrange(j - 1, s@.len() as int));
        j = j - 1;
    }
    if j > 0 {
        assert(last_segment(s@.take(j as int)) =~= seq![]);
    } else {
        assert(last_segment(s@.take(0)) =~= seq![]);
    }
    let r = slice_of(s, j, s.len());
    assert(seq![] + r@ =~= r@);
    r
}

/// Whether a character is whitespace.
pub fn is_space(c: char) -> (r: bool)
    ensures
        r == is_whitespace(c),
{
    ('\u{9}' <= c && c <= '\u{d}') || c == ' ' || c == '\u{85}' || c == '\u{a0}' || c == '\u{1680}'
        || ('\u{2000}' <= c && c <= '\u{200a}') || c == '\u{2028}' || c == '\u{2029}' || c
        == '\u{202f}' || c == '\u{205f}' || c == '\u{3000}'
}

/// Whether a word of the attribute text starts with `l`.
fn link_word(a: &Vec<char>) -> (r: bool)
    ensures
        r == has_link_word(a@),
{
    let mut i: usize = 0;
    while i < a.len()
        invariant
            i <= a.len(),
            forall|j: int|
                0 <= j < i ==> !(#[trigger] a@[j] == 'l' && (j == 0 || is_whitespace(a@[j - 1]))),
        decreases a.len() - i,
    {
        if a[i] == 'l' && (i == 0 || is_space(a[i - 1])) {
            return true;
        }
        i = i + 1;
    }
    false
}

/// Whether a field holds exactly `+`.
fn is_plus(v: &Option<Vec<char>>) -> (r: bool)
    ensures
        r == (match v {
            Some(x) => x@ == seq!['+'],
            None => false,
        }),
{
    match v {
        Some(x) => {
            if x.len() == 1 && x[0] == '+' {
                assert(x@ =~= seq!['+']);
                true
            } else {
                false
            }
        },
        None => false,
    }
}

/// The entry that one block of the listing describes.
pub fn read_block(block: &Vec<char>, stream: bool, stream_name: &Vec<char>) -> (r: Result<
    Option<Entry>,
    ListingError,
>)
    ensures
        match block_entry(block@, stream, stream_name@) {
            Ok(Some(e)) => r matches Ok(Some(x)) && x@ == e,
            Ok(None) => r matches Ok(None),
            Err(e) => r == Err::<Option<Entry>, ListingError>(e),
        },
{
    let ls = lines(block);
    let ghost lv = lines_from(block@, 0);
    let path_field = field_of(&ls, &chars_of("Path"));
    let size_field = field_of(&ls, &chars_of("Size"));
    let raw = match path_field {
        Some(p) => p,
        None => {
            if stream && size_field.is_some() {
                slice_of(stream_name, 0, stream_name.len())
            } else {
                return Ok(None);
            }
        },
    };
    assert(stream_name@.subrange(0, stream_name@.len() as int) =~= stream_name@);
    let path = trimmed(forward(&raw));
    let name = segment(&path);
    let attributes = match field_of(&ls, &chars_of("Attributes")) {
        Some(a) => a,
        None => Vec::new(),
    };
    let size = match &size_field {
        Some(t) => {
            if t.len() == 0 {
                None
            } else {
                match parse_unsigned(t) {
                    Some(v) => Some(v),
                    None => {
                        return Err(ListingError::BadSize);
                    },
                }
            }
        },
        None => None,
    };
    let folder = is_plus(&field_of(&ls, &chars_of("Folder")));
    let directory = folder || (attributes.len() > 0 && attributes[0] == 'D');
    let symbolic = field_of(&ls, &chars_of("Symbolic Link")).is_some();
    let hard = field_of(&ls, &chars_of("Hard Link")).is_some();
    let link = symbolic || hard || link_word(&attributes);
    let modified = match field_of(&ls, &chars_of("Modified")) {
        Some(m) => m,
        None => Vec::new(),
    };
    let encrypted = is_plus(&field_of(&ls, &chars_of("Encrypted")));
    let entry = Entry {
        path: string_of(path.as_slice()),
        name: string_of(name.as_slice()),
        directory,
        size,
        modified: string_of(modified.as_slice()),
        link,
        encrypted,
    };
    assert(entry@.modified =~= (match field(lv, "Modified"@) {
        Some(m) => m,
        None => seq![],
    }));
    Ok(Some(entry))
}

/// Whether a header line names a single compressed stream.
fn stream_line(line: &Vec<char>) -> (r: bool)
    ensures
        r == (line@ == "Type = xz"@ || line@ == "Type = bzip2"@),
{
    same_chars(line, &chars_of("Type = xz")) || same_chars(line, &chars_of("Type = bzip2"))
}

/// The archive type named by the first `Type = ` line.
fn type_of(header: &Vec<Vec<char>>) -> (r: Option<Vec<char>>)
    ensures
        match type_line(header.deep_view()) {
            Some(t) => r matches Some(x) && x@ == t,
            None => r is None,
        },
{
    let prefix = vec!['T', 'y', 'p', 'e', ' ', '=', ' '];
    assert(prefix@ =~= type_prefix());
    let mut i: usize = 0;
    assert(header.deep_view().skip(0) =~= header.deep_view());
    while i < header.len()
        invariant
            i <= header.len(),
            prefix@ == type_prefix(),
            type_line(header.deep_view()) == type_line(header.deep_view().skip(i as int)),
        decreases header.len() - i,
    {
        let line = &header[i];
        proof {
            lemma_deep_chars(line);
            assert(header.deep_view().skip(i as int)[0] == line@);
            assert(header.deep_view().skip(i as int).drop_first() =~= header.deep_view().skip(
                i + 1,
            ));
        }
        if line.len() >= 7 && matches_at(line, &prefix, 0) {
            assert(line@.subrange(0, 7) == type_prefix());
            assert(type_prefix().is_prefix_of(line@));
            return Some(slice_of(line, 7, line.len()));
        }
        proof {
            if type_prefix().is_prefix_of(line@) {
                assert(line@.subrange(0, 7) =~= type_prefix());
            }
        }
        i = i + 1;
    }
    None
}

/// The archive type and entries that the engine's technical listing gives;
/// `stream_name` is what the content of a single compressed stream is called.
pub fn parse_listing(text: &str, stream_name: &str) -> (r: Result<(String, Vec<Entry>), ListingError>)
    ensures
        match listing_of(text@, stream_name@) {
            Ok((f, es)) => r matches Ok((x, y)) && x@ == f && y.deep_view() == es,
            Err(e) => r == Err::<(String, Vec<Entry>), ListingError>(e),
        },
{
    let raw = chars_of(text);
    let t = crlf_to_lf(&raw);
    let end = vec!['\n', '-', '-', '-', '-', '-', '-', '-', '-', '-', '-', '\n'];
    assert(end@ =~= header_end());
    let k = match find_at(&t, &end, 0) {
        Some(k) => k,
        None => {
            return Err(ListingError::Invalid);
        },
    };
    proof {
        crate::scan::lemma_find_from(t@, end@, 0);
    }
    let n = t.len();
    assert(end@.len() == 12);
    assert(k + 12 <= n);
    let header = lines(&slice_of(&t, 0, k));
    let records = slice_of(&t, k + 12, n);
    let mut stream = false;
    let mut i: usize = 0;
    while i < header.len()
        invariant
            i <= header.len(),
            stream == (exists|j: int|
                0 <= j < i && (header.deep_view()[j] == "Type = xz"@ || header.deep_view()[j]
                    == "Type = bzip2"@)),
        decreases header.len() - i,
    {
        proof {
            lemma_deep_chars(&header[i as int]);
            assert(header.deep_view()[i as int] == header@[i as int]@);
        }
        if stream_line(&header[i]) {
            stream = true;
        }
        i = i + 1;
    }
    assert(stream == is_stream(header.deep_view()));
    let name = chars_of(stream_name);
    let gap = vec!['\n', '\n'];
    assert(gap@ =~= block_gap());
    let blocks = split(&records, &gap);
    let ghost bv = blocks.deep_view();
    let mut entries: Vec<Entry> = Vec::new();
    let mut b: usize = 0;
    assert(bv.take(0) =~= seq![]);
    assert(entries.deep_view() =~= seq![]);
    while b < blocks.len()
        invariant
            b <= blocks.len(),
            bv == blocks.deep_view(),
            bv == split_from(records@, block_gap(), 0),
            stream == is_stream(header.deep_view()),
            header.deep_view() == lines_from(t@.subrange(0, k as int), 0),
            records@ == t@.subrange(k + 12, t@.len() as int),
            t@ == lf_from(text@, 0),
            find_from(t@, header_end(), 0) == Some(k as int),
            name@ == stream_name@,
            block_entries(bv.take(b as int), stream, name@) == Ok::<Seq<EntryView>, ListingError>(
                entries.deep_view(),
            ),
        decreases blocks.len() - b,
    {
        proof {
            lemma_deep_chars(&blocks[b as int]);
            assert(bv.take(b + 1).drop_last() =~= bv.take(b as int));
            assert(bv.take(b + 1).last() == blocks[b as int]@);
        }
        match read_block(&blocks[b], stream, &name) {
            Err(e) => {
                proof {
                    assert(block_entries(bv.take(b + 1), stream, name@) == Err::<
                        Seq<EntryView>,
                        ListingError,
                    >(ListingError::BadSize));
                    lemma_error_stays(bv, b as int + 1, stream, name@);
                }
                return Err(e);
            },
            Ok(None) => {},
            Ok(Some(entry)) => {
                let ghost before = entries.deep_view();
                entries.push(entry);
                assert(entries.deep_view() =~= before.push(entry@));
            },
        }
        b = b + 1;
    }
    assert(bv.take(b as int) =~= bv);
    match type_of(&header) {
        None => Err(ListingError::FormatMissing),
        Some(f) => {
            let format = string_of(f.as_slice());
            Ok((to_upper(format.as_str()), entries))
        },
    }
}

impl Catalog {
    /// The archive that a technical listing describes: the archive at
    /// `path`, of `size` bytes, listed as `open_type` where given, with the
    /// listing's warning; `stream_name` names the content of a single
    /// compressed stream.
    pub fn from_listing(
        path: String,
        size: u64,
        open_type: Option<OpenType>,
        warning: bool,
        text: &str,
        stream_name: &str,
    ) -> (r: Result<Catalog, ListingError>)
        ensures
            match listing_of(text@, stream_name@) {
                Ok((f, es)) => r matches Ok(c) && c.format@ == f && c.entries.deep_view() == es
                    && c.path@ == path@ && c.size == size && c.open_type == open_type && c.warning
                    == warning,
                Err(e) => r == Err::<Catalog, ListingError>(e),
            },
    {
        match parse_listing(text, stream_name) {
            Ok((format, entries)) => Ok(Catalog { path, entries, warning, format, size, open_type }),
            Err(e) => Err(e),
        }
    }
}

proof fn lemma_trim_slashes(s: Seq<char>)
    ensures
        trim_slashes(s).len() == 0 || trim_slashes(s).last() != '/',
    decreases s.len(),
{
    if s.len() > 0 && s.last() == '/' {
        lemma_trim_slashes(s.drop_last());
    }
}

proof fn lemma_last_segment(s: Seq<char>)
    ensures
        forall|i: int| 0 <= i < last_segment(s).len() ==> #[trigger] last_segment(s)[i] != '/',
        last_segment(s).is_suffix_of(s),
    decreases s.len(),
{
    if s.len() > 0 && s.last() != '/' {
        lemma_last_segment(s.drop_last());
        let t = last_segment(s.drop_last());
        assert(t.push(s.last()) =~= s.subrange(s.len() - t.len() - 1, s.len() as int)) by {
            assert(t =~= s.drop_last().subrange(s.drop_last().len() - t.len(), s.drop_last().len() as int));
        }
    } else if s.len() > 0 {
        assert(last_segment(s) =~= Seq::<char>::empty());
        assert(s.subrange(s.len() as int, s.len() as int) =~= Seq::<char>::empty());
    } else {
        assert(s.subrange(0, 0) =~= s);
    }
}

/// Every entry that a listing gives has a path without a trailing slash,
/// with only forward slashes, and a name without a slash that ends the
/// path.
pub proof fn law_listed_entries_are_normalized(blocks: Seq<Seq<char>>, stream: bool, stream_name: Seq<char>)
    ensures
        block_entries(blocks, stream, stream_name) matches Ok(es) ==> forall|i: int|
            0 <= i < es.len() ==> {
                let e = #[trigger] es[i];
                &&& (e.path.len() == 0 || e.path.last() != '/')
                &&& forall|k: int| 0 <= k < e.path.len() ==> #[trigger] e.path[k] != '\\'
                &&& forall|k: int| 0 <= k < e.name.len() ==> #[trigger] e.name[k] != '/'
                &&& e.name.is_suffix_of(e.path)
            },
    decreases blocks.len(),
{
    if blocks.len() > 0 {
        law_listed_entries_are_normalized(blocks.drop_last(), stream, stream_name);
        let block = blocks.last();
        match block_entry(block, stream, stream_name) {
            Ok(Some(e)) => {
                let ls = lines_from(block, 0);
                let raw = match field(ls, "Path"@) {
                    Some(p) => p,
                    None => stream_name,
                };
                lemma_trim_slashes(forward_slashes(raw));
                lemma_trim_prefix(forward_slashes(raw));
                lemma_last_segment(e.path);
            },
            _ => {},
        }
    }
}

/// Trimming slashes keeps a prefix, so what holds of every character
/// holds after.
proof fn lemma_trim_prefix(s: Seq<char>)
    ensures
        trim_slashes(s).len() <= s.len(),
        forall|k: int| 0 <= k < trim_slashes(s).len() ==> #[trigger] trim_slashes(s)[k] == s[k],
    decreases s.len(),
{
    if s.len() > 0 && s.last() == '/' {
        lemma_trim_prefix(s.drop_last());
    }
}

/// Once a block has an error, every longer run of blocks has one.
proof fn lemma_error_stays(blocks: Seq<Seq<char>>, n: int, stream: bool, stream_name: Seq<char>)
    requires
        0 < n <= blocks.len(),
        block_entries(blocks.take(n), stream, stream_name) == Err::<Seq<EntryView>, ListingError>(
            ListingError::BadSize,
        ),
    ensures
        block_entries(blocks, stream, stream_name) == Err::<Seq<EntryView>, ListingError>(
            ListingError::BadSize,
        ),
    decreases blocks.len() - n,
{
    if n < blocks.len() {
        assert(blocks.take(n + 1).drop_last() =~= blocks.take(n));
        lemma_error_stays(blocks, n + 1, stream, stream_name);
    } else {
        assert(blocks.take(n) =~= blocks);
    }
}

} // verus!
