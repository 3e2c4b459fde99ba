//! The operations that the window hands to a background task, and the rules
//! that they check before the engine runs.

use crate::catalog::{Catalog, CreateOptions, Entry, EntryView, OpenType, Overwrite};
use crate::engine::{invocation_is, list_arguments, test_arguments, Engine, Invocation};
use crate::history::copy_paths;
use crate::listing::is_whitespace;
use crate::scan::{slice_of, split, split_from};
use crate::text::{chars_of, lower_case, push_text, same_text, string_of, to_lower};
use vstd::prelude::*;

verus! {

/// The formats of the quick compress commands.
#[derive(Clone, Copy, Debug, PartialEq, Eq, Structural)]
pub enum QuickFormat {
    SevenZip,
    Zip,
}

pub open spec fn quick_format_name(f: QuickFormat) -> Seq<char> {
    match f {
        QuickFormat::SevenZip => "7z"@,
        QuickFormat::Zip => "zip"@,
    }
}

impl QuickFormat {
    /// The engine's name of the format, which is also the file extension.
    pub fn value(self) -> (r: &'static str)
        ensures
            r@ == quick_format_name(self),
    {
        match self {
            QuickFormat::SevenZip => "7z",
            QuickFormat::Zip => "zip",
        }
    }
}

/// Whether `o` are the options of a quick compress in `format` with
/// `password`: normal level, the format's usual method, solid, all
/// threads, one volume, names not hidden.
pub open spec fn is_quick_options(o: CreateOptions, format: QuickFormat, password: Seq<char>) -> bool {
    &&& o.format@ == quick_format_name(format)
    &&& o.level@ == "5"@
    &&& o.method@ == (match format {
        QuickFormat::SevenZip => "LZMA2"@,
        QuickFormat::Zip => "Deflate"@,
    })
    &&& o.threads@ == "auto"@
    &&& o.split@ == "none"@
    &&& o.solid
    &&& o.password@ == password
    &&& !o.encrypt_names
}

/// The options of a quick compress: normal level, the format's usual
/// method, solid, all threads, one volume.
pub fn quick_options(format: QuickFormat, password: &str) -> (r: CreateOptions)
    ensures
        is_quick_options(r, format, password@),
{
    CreateOptions {
        format: format.value().to_owned(),
        level: "5".to_owned(),
        method: match format {
            QuickFormat::SevenZip => "LZMA2".to_owned(),
            QuickFormat::Zip => "Deflate".to_owned(),
        },
        threads: "auto".to_owned(),
        split: "none".to_owned(),
        solid: true,
        password: password.to_owned(),
        encrypt_names: false,
    }
}

/// An operation for a background task.
#[derive(Clone, Debug)]
pub enum Request {
    Comment(Catalog, String),
    OpenEntry { catalog: Catalog, path: String, extract_all: String, temp_directory: String },
    Open(String),
    OpenAs(String, OpenType),
    QuickCompress { paths: Vec<String>, format: QuickFormat, email: bool },
    Extract {
        catalog: Catalog,
        selected: Vec<String>,
        parent: String,
        folder: String,
        overwrite: Overwrite,
        open_after: bool,
    },
    Check(Catalog),
    Edit(Catalog),
    Transfer { catalog: Catalog, selected: Vec<String>, destination: String, move_entries: bool },
}

pub open spec fn request_label(r: Request) -> Seq<char> {
    match r {
        Request::Comment(..) | Request::Edit(..) => "archive-editing"@,
        Request::OpenEntry { .. } | Request::Open(_) | Request::OpenAs(..) => "opening"@,
        Request::QuickCompress { .. } => "creating"@,
        Request::Extract { .. } | Request::Transfer { .. } => "extracting"@,
        Request::Check(_) => "checking"@,
    }
}

impl Request {
    /// The message key of what the task shows while it runs.
    pub fn label(&self) -> (r: &'static str)
        ensures
            r@ == request_label(*self),
    {
        match self {
            Request::Comment(..) | Request::Edit(..) => "archive-editing",
            Request::OpenEntry { .. } | Request::Open(_) | Request::OpenAs(..) => "opening",
            Request::QuickCompress { .. } => "creating",
            Request::Extract { .. } | Request::Transfer { .. } => "extracting",
            Request::Check(_) => "checking",
        }
    }
}

/// Whether a folder name can take an extraction: not `.` or `..`, and no
/// slash, backslash or colon in it.
pub open spec fn folder_name_allowed(folder: Seq<char>) -> bool {
    &&& folder != "."@
    &&& folder != ".."@
    &&& forall|i: int|
        0 <= i < folder.len() ==> #[trigger] folder[i] != '/' && folder[i] != '\\' && folder[i] != ':'
}

/// Whether a folder name can take an extraction.
pub fn folder_allowed(folder: &str) -> (r: bool)
    ensures
        r == folder_name_allowed(folder@),
{
    if same_text(folder, ".") || same_text(folder, "..") {
        return false;
    }
    let chars = chars_of(folder);
    let mut i: usize = 0;
    while i < chars.len()
        invariant
            i <= chars.len(),
            chars@ == folder@,
            forall|j: int| 0 <= j < i ==> #[trigger] chars@[j] != '/' && chars@[j] != '\\' && chars@[j] != ':',
        decreases chars.len() - i,
    {
        let c = chars[i];
        if c == '/' || c == '\\' || c == ':' {
            return false;
        }
        i = i + 1;
    }
    true
}

/// A text without leading whitespace.
pub open spec fn trim_start(s: Seq<char>) -> Seq<char>
    decreases s.len(),
{
    if s.len() > 0 && is_whitespace(s[0]) {
        trim_start(s.drop_first())
    } else {
        s
    }
}

/// A text without trailing whitespace.
pub open spec fn trim_end(s: Seq<char>) -> Seq<char>
    decreases s.len(),
{
    if s.len() > 0 && is_whitespace(s.last()) {
        trim_end(s.drop_last())
    } else {
        s
    }
}

/// A text without the `*.` it starts with, however often.
pub open spec fn without_star_dots(s: Seq<char>) -> Seq<char>
    decreases s.len(),
{
    if s.len() >= 2 && s[0] == '*' && s[1] == '.' {
        without_star_dots(s.skip(2))
    } else {
        s
    }
}

/// A text without its leading dots.
pub open spec fn without_dots(s: Seq<char>) -> Seq<char>
    decreases s.len(),
{
    if s.len() > 0 && s[0] == '.' {
        without_dots(s.drop_first())
    } else {
        s
    }
}

/// A character with ASCII capitals made small.
pub open spec fn ascii_lower(c: char) -> char {
    if 'A' <= c && c <= 'Z' {
        ((c as u32) + 32) as char
    } else {
        c
    }
}

/// Whether two texts are equal when ASCII capitals count as small letters.
pub open spec fn same_ignoring_case(a: Seq<char>, b: Seq<char>) -> bool {
    a.len() == b.len() && forall|i: int| 0 <= i < a.len() ==> ascii_lower(#[trigger] a[i]) == ascii_lower(b[i])
}

/// The extension that a pattern of the "extract all for" setting names.
pub open spec fn pattern_extension(p: Seq<char>) -> Seq<char> {
    without_dots(without_star_dots(trim_end(trim_start(p))))
}

/// Whether opening a file with this extension extracts the whole archive:
/// the setting is a list of patterns separated by `;`, such as `*.htm;.css`.
pub open spec fn extracts_all(patterns: Seq<char>, extension: Seq<char>) -> bool {
    exists|i: int|
        0 <= i < split_from(patterns, seq![';'], 0).len() && {
            let e = pattern_extension(#[trigger] split_from(patterns, seq![';'], 0)[i]);
            e.len() > 0 && same_ignoring_case(e, extension)
        }
}

fn lower_ascii(c: char) -> (r: char)
    ensures
        r == ascii_lower(c),
{
    if 'A' <= c && c <= 'Z' {
        let code: u8 = (c as u8) + 32;
        assert(code as u32 == (c as u32) + 32);
        code as char
    } else {
        c
    }
}

/// Whether two texts are equal ignoring ASCII case.
pub fn eq_ignoring_case(a: &Vec<char>, b: &Vec<char>) -> (r: bool)
    ensures
        r == same_ignoring_case(a@, b@),
{
    if a.len() != b.len() {
        return false;
    }
    let mut i: usize = 0;
    while i < a.len()
        invariant
            i <= a.len(),
            a.len() == b.len(),
            forall|j: int| 0 <= j < i ==> ascii_lower(#[trigger] a@[j]) == ascii_lower(b@[j]),
        decreases a.len() - i,
    {
        if lower_ascii(a[i]) != lower_ascii(b[i]) {
            return false;
        }
        i = i + 1;
    }
    true
}

fn whitespace(c: char) -> (r: bool)
    ensures
        r == is_whitespace(c),
{
    ('\u{9}' <= c && c <= '\u{d}') || c == ' ' || c == '\u{85}' || c == '\u{a0}' || c == '\u{1680}'
        || ('\u{2000}' <= c && c <= '\u{200a}') || c == '\u{2028}' || c == '\u{2029}' || c
        == '\u{202f}' || c == '\u{205f}' || c == '\u{3000}'
}

/// The extension that a pattern names.
fn pattern_of(p: &Vec<char>) -> (r: Vec<char>)
    ensures
        r@ == pattern_extension(p@),
{
    let mut start: usize = 0;
    assert(p@.skip(0) =~= p@);
    while start < p.len() && whitespace(p[start])
        invariant
            start <= p.len(),
            trim_start(p@) == trim_start(p@.skip(start as int)),
        decreases p.len() - start,
    {
        assert(p@.skip(start as int).drop_first() =~= p@.skip(start + 1));
        start = start + 1;
    }
    let mut end = p.len();
    let ghost t = p@.skip(start as int);
    assert(t =~= p@.subrange(start as int, end as int));
    while end > start && whitespace(p[end - 1])
        invariant
            start <= end <= p.len(),
            t == p@.skip(start as int),
            trim_end(t) == trim_end(p@.subrange(start as int, end as int)),
        decreases end,
    {
        assert(p@.subrange(start as int, end as int).drop_last() =~= p@.subrange(start as int, end - 1));
        end = end - 1;
    }
    while end - start >= 2 && p[start] == '*' && p[start + 1] == '.'
        invariant
            start <= end <= p.len(),
            pattern_extension(p@) == without_dots(without_star_dots(p@.subrange(start as int, end as int))),
        decreases end - start,
    {
        assert(p@.subrange(start as int, end as int).skip(2) =~= p@.subrange(start + 2, end as int));
        start = start + 2;
    }
    while start < end && p[start] == '.'
        invariant
            start <= end <= p.len(),
            pattern_extension(p@) == without_dots(p@.subrange(start as int, end as int)),
        decreases end - start,
    {
        assert(p@.subrange(start as int, end as int).drop_first() =~= p@.subrange(start + 1, end as int));
        start = start + 1;
    }
    slice_of(p, start, end)
}

/// Whether opening a file with this extension extracts the whole archive.
pub fn extract_all_for(patterns: &str, extension: &str) -> (r: bool)
    ensures
        r == extracts_all(patterns@, extension@),
{
    let chars = chars_of(patterns);
    let ext = chars_of(extension);
    let semicolon = vec![';'];
    assert(semicolon@ =~= seq![';']);
    let pieces = split(&chars, &semicolon);
    let mut i: usize = 0;
    while i < pieces.len()
        invariant
            i <= pieces.len(),
            pieces.deep_view() == split_from(patterns@, seq![';'], 0),
            ext@ == extension@,
            forall|j: int|
                0 <= j < i ==> !({
                    let e = pattern_extension(#[trigger] pieces.deep_view()[j]);
                    e.len() > 0 && same_ignoring_case(e, extension@)
                }),
        decreases pieces.len() - i,
    {
        proof {
            crate::scan::lemma_deep_chars(&pieces[i as int]);
        }
        let e = pattern_of(&pieces[i]);
        if e.len() > 0 && eq_ignoring_case(&e, &ext) {
            assert(pieces.deep_view()[i as int] == pieces[i as int]@);
            return true;
        }
        i = i + 1;
    }
    false
}

/// The extensions of files that run a program, for which opening asks first.
pub open spec fn program_extensions() -> Seq<Seq<char>> {
    seq!["exe"@, "com"@, "msi"@, "bat"@, "cmd"@, "ps1"@, "vbs"@, "js"@, "scr"@]
}

/// Whether a file with this extension runs a program when opened.
pub fn runs_program(extension: &str) -> (r: bool)
    ensures
        r == exists|i: int| 0 <= i < 9 && same_ignoring_case(#[trigger] program_extensions()[i], extension@),
{
    let known = vec!["exe", "com", "msi", "bat", "cmd", "ps1", "vbs", "js", "scr"];
    let ext = chars_of(extension);
    let mut i: usize = 0;
    while i < known.len()
        invariant
            i <= known.len(),
            known@.len() == 9,
            forall|j: int| 0 <= j < 9 ==> #[trigger] known@[j]@ == program_extensions()[j],
            ext@ == extension@,
            forall|j: int| 0 <= j < i ==> !same_ignoring_case(#[trigger] program_extensions()[j], extension@),
        decreases known.len() - i,
    {
        let k = chars_of(known[i]);
        if eq_ignoring_case(&k, &ext) {
            return true;
        }
        i = i + 1;
    }
    false
}

/// The number of entries that are not folders.
pub open spec fn file_count(entries: Seq<EntryView>) -> nat
    decreases entries.len(),
{
    if entries.len() == 0 {
        0
    } else {
        file_count(entries.drop_last()) + if entries.last().directory {
            0nat
        } else {
            1nat
        }
    }
}

/// How many entries of an archive are files, for the message that ends a
/// successful check.
pub fn count_files(entries: &Vec<Entry>) -> (r: usize)
    ensures
        r == file_count(entries.deep_view()),
{
    let mut n: usize = 0;
    let mut i: usize = 0;
    while i < entries.len()
        invariant
            i <= entries.len(),
            n == file_count(entries.deep_view().take(i as int)),
            n <= i,
        decreases entries.len() - i,
    {
        assert(entries.deep_view().take(i + 1).drop_last() =~= entries.deep_view().take(i as int));
        assert(entries.deep_view().take(i + 1).last() == entries[i as int]@);
        if !entries[i].directory {
            n = n + 1;
        }
        i = i + 1;
    }
    assert(entries.deep_view().take(i as int) =~= entries.deep_view());
    n
}

/// The file extension of an archive format.
pub open spec fn format_extension(format: Seq<char>) -> Seq<char> {
    if format == "gzip"@ {
        "gz"@
    } else if format == "bzip2"@ {
        "bz2"@
    } else {
        format
    }
}

/// The file name offered for a new archive called `name`: the name and the
/// format's extension, and for a split archive the `-volumes.zip` of the
/// bundle of its volumes; a name with a slash, backslash or colon is
/// refused.
pub open spec fn offered_file_name(name: Seq<char>, format: Seq<char>, split: Seq<char>) -> Option<Seq<char>> {
    if exists|i: int| 0 <= i < name.len() && (#[trigger] name[i] == '/' || name[i] == '\\' || name[i] == ':') {
        None
    } else if split == "none"@ {
        Some(name + seq!['.'] + format_extension(format))
    } else {
        Some(name + seq!['.'] + format_extension(format) + "-volumes.zip"@)
    }
}

/// The file name offered for a new archive, or `None` where the name is
/// refused (the message `archive-name-invalid`).
pub fn archive_file_name(name: &str, format: &str, split: &str) -> (r: Option<String>)
    ensures
        match offered_file_name(name@, format@, split@) {
            Some(f) => r matches Some(x) && x@ == f,
            None => r is None,
        },
{
    let chars = chars_of(name);
    let mut i: usize = 0;
    while i < chars.len()
        invariant
            i <= chars.len(),
            chars@ == name@,
            forall|j: int| 0 <= j < i ==> !(#[trigger] chars@[j] == '/' || chars@[j] == '\\' || chars@[j] == ':'),
        decreases chars.len() - i,
    {
        let c = chars[i];
        if c == '/' || c == '\\' || c == ':' {
            return None;
        }
        i = i + 1;
    }
    let extension = if same_text(format, "gzip") {
        "gz"
    } else if same_text(format, "bzip2") {
        "bz2"
    } else {
        format
    };
    let mut r = String::new();
    push_text(&mut r, name);
    crate::text::push_char(&mut r, '.');
    push_text(&mut r, extension);
    if !same_text(split, "none") {
        push_text(&mut r, "-volumes.zip");
    }
    assert(r@ =~= offered_file_name(name@, format@, split@)->0);
    Some(r)
}

/// The password that a new archive is opened with after it was made: its
/// own, except for a split archive, whose bundle has none.
pub fn reopening_password(split: &str, password: String) -> (r: String)
    ensures
        r@ == if split@ == "none"@ { password@ } else { Seq::<char>::empty() },
{
    if same_text(split, "none") {
        password
    } else {
        String::new()
    }
}

/// The extensions of files that a drop opens as an archive.
pub open spec fn archive_extensions() -> Seq<Seq<char>> {
    seq!["7z"@, "zip"@, "rar"@, "tar"@, "gz"@, "bz2"@, "xz"@, "wim"@, "iso"@, "cab"@, "001"@]
}

/// Whether dropped files are opened as an archive rather than compressed:
/// one file, whose lower-cased extension is an archive's.
pub open spec fn drop_opens(count: nat, extension: Option<Seq<char>>) -> bool {
    count == 1 && match extension {
        Some(e) => archive_extensions().contains(lower_case(e)),
        None => false,
    }
}

/// Whether dropped files are opened as an archive rather than compressed;
/// `extension` is the first file's extension, if it has one.
pub fn drop_opens_archive(count: usize, extension: Option<&str>) -> (r: bool)
    ensures
        r == drop_opens(count as nat, match extension {
            Some(e) => Some(e@),
            None => None,
        }),
{
    if count != 1 {
        return false;
    }
    match extension {
        None => false,
        Some(e) => known_archive_extension(e),
    }
}

fn known_archive_extension(e: &str) -> (r: bool)
    ensures
        r == archive_extensions().contains(lower_case(e@)),
{
    let lowered = to_lower(e);
    let known = vec!["7z", "zip", "rar", "tar", "gz", "bz2", "xz", "wim", "iso", "cab", "001"];
    let mut i: usize = 0;
    while i < known.len()
        invariant
            i <= known.len(),
            known@.len() == 11,
            forall|j: int| 0 <= j < 11 ==> #[trigger] known@[j]@ == archive_extensions()[j],
            lowered@ == lower_case(e@),
            forall|j: int| 0 <= j < i ==> archive_extensions()[j] != lowered@,
        decreases known.len() - i,
    {
        if same_text(known[i], lowered.as_str()) {
            assert(archive_extensions()[i as int] == lower_case(e@));
            return true;
        }
        i = i + 1;
    }
    assert(!archive_extensions().contains(lower_case(e@))) by {
        if archive_extensions().contains(lower_case(e@)) {
            let j = choose|j: int| 0 <= j < archive_extensions().len() && archive_extensions()[j] == lower_case(e@);
            assert(archive_extensions()[j] != lowered@);
        }
    }
    false
}

/// What the properties of some entries show: the sum of the files' sizes
/// (unknown sizes counting nothing), how many files and folders, and
/// whether any entry is encrypted.
#[derive(Clone, Copy, Debug, PartialEq, Eq, Structural)]
pub struct Summary {
    pub unpacked_size: u64,
    pub files: usize,
    pub folders: usize,
    pub encrypted: bool,
}

pub open spec fn size_sum(entries: Seq<EntryView>) -> int
    decreases entries.len(),
{
    if entries.len() == 0 {
        0
    } else {
        size_sum(entries.drop_last()) + if entries.last().directory {
            0
        } else {
            match entries.last().size {
                Some(s) => s as int,
                None => 0,
            }
        }
    }
}

pub open spec fn folder_count(entries: Seq<EntryView>) -> nat
    decreases entries.len(),
{
    if entries.len() == 0 {
        0
    } else {
        folder_count(entries.drop_last()) + if entries.last().directory {
            1nat
        } else {
            0nat
        }
    }
}

proof fn lemma_size_sum_grows(entries: Seq<EntryView>, n: int)
    requires
        0 <= n <= entries.len(),
    ensures
        0 <= size_sum(entries.take(n)) <= size_sum(entries),
    decreases entries.len() - n,
{
    if n < entries.len() {
        lemma_size_sum_grows(entries, n + 1);
        assert(entries.take(n + 1).drop_last() =~= entries.take(n));
    } else {
        assert(entries.take(n) =~= entries);
    }
    lemma_size_sum_nonneg(entries.take(n));
}

proof fn lemma_size_sum_nonneg(entries: Seq<EntryView>)
    ensures
        size_sum(entries) >= 0,
    decreases entries.len(),
{
    if entries.len() > 0 {
        lemma_size_sum_nonneg(entries.drop_last());
    }
}

/// What the properties of the entries show; the sizes of their files add up
/// within 64 bits.
pub fn summarize(entries: &Vec<Entry>) -> (r: Summary)
    requires
        size_sum(entries.deep_view()) <= u64::MAX,
    ensures
        r.unpacked_size == size_sum(entries.deep_view()),
        r.files == file_count(entries.deep_view()),
        r.folders == folder_count(entries.deep_view()),
        r.encrypted == exists|i: int| 0 <= i < entries@.len() && (#[trigger] entries.deep_view()[i]).encrypted,
{
    let ghost ev = entries.deep_view();
    let mut total: u64 = 0;
    let mut files: usize = 0;
    let mut folders: usize = 0;
    let mut encrypted = false;
    let mut i: usize = 0;
    while i < entries.len()
        invariant
            i <= entries.len(),
            ev == entries.deep_view(),
            size_sum(ev) <= u64::MAX,
            total == size_sum(ev.take(i as int)),
            files == file_count(ev.take(i as int)),
            folders == folder_count(ev.take(i as int)),
            files + folders == i,
            encrypted == exists|j: int| 0 <= j < i && (#[trigger] ev[j]).encrypted,
        decreases entries.len() - i,
    {
        assert(ev.take(i + 1).drop_last() =~= ev.take(i as int));
        assert(ev.take(i + 1).last() == ev[i as int]);
        proof {
            lemma_size_sum_grows(ev, i + 1);
        }
        let e = &entries[i];
        if e.directory {
            folders = folders + 1;
        } else {
            files = files + 1;
            match e.size {
                Some(s) => {
                    total = total + s;
                },
                None => {},
            }
        }
        encrypted = encrypted || e.encrypted;
        i = i + 1;
    }
    assert(ev.take(i as int) =~= ev);
    Summary { unpacked_size: total, files, folders, encrypted }
}

/// What follows the extraction of entries that were copied or moved out:
/// entries moved out are deleted from the archive afterwards, unless the
/// extraction warned, which stops the move (`archive-move-warning`).
pub open spec fn after_transfer(move_entries: bool, warning: bool) -> Option<bool> {
    if move_entries && warning {
        None
    } else {
        Some(move_entries)
    }
}

/// Whether the extracted entries are then deleted from the archive, or
/// `None` where a warning stops a move.
pub fn delete_after_transfer(move_entries: bool, warning: bool) -> (r: Option<bool>)
    ensures
        r == after_transfer(move_entries, warning),
{
    if move_entries && warning {
        None
    } else {
        Some(move_entries)
    }
}

/// Whether a change to a history list is made: remembering a path only
/// where the user keeps a history.
pub fn history_change_allowed(remember_recent: bool, change: &crate::history::Change) -> (r: bool)
    ensures
        r == (remember_recent || !(change is Remember)),
{
    match change {
        crate::history::Change::Remember(_) => remember_recent,
        _ => true,
    }
}

/// How an extraction ends: whether the program then quits (it was started
/// to extract and close, the extraction had no warning, its folder opened,
/// and no other launch waits), and the message key of the notice.
pub fn extraction_end(close_after: bool, warning: bool, open_failed: bool, launches_waiting: bool) -> (r: (
    bool,
    &'static str,
))
    ensures
        r.0 == (close_after && !warning && !open_failed && !launches_waiting),
        r.1@ == if warning { "extract-warning"@ } else { "extract-finished"@ },
{
    (close_after && !warning && !open_failed && !launches_waiting, if warning {
        "extract-warning"
    } else {
        "extract-finished"
    })
}

/// The message keys of the title and the text shown when the user stopped
/// a task: an extraction, or another task.
pub fn stopped_messages(extraction: bool) -> (r: (&'static str, &'static str))
    ensures
        r.0@ == if extraction { "extract-stopped"@ } else { "task-cancelled"@ },
        r.1@ == if extraction { "extract-stopped-detail"@ } else { "task-cancelled"@ },
{
    if extraction {
        ("extract-stopped", "extract-stopped-detail")
    } else {
        ("task-cancelled", "task-cancelled")
    }
}

/// A text without the whitespace around it, as `str::trim` gives it.
pub fn trim_text(text: &str) -> (r: Vec<char>)
    ensures
        r@ == trim_end(trim_start(text@)),
{
    let chars = chars_of(text);
    let mut start: usize = 0;
    assert(chars@.subrange(0, chars@.len() as int) =~= chars@);
    let end = chars.len();
    while start < end && whitespace(chars[start])
        invariant
            start <= end == chars.len(),
            chars@ == text@,
            trim_start(text@) == trim_start(chars@.subrange(start as int, end as int)),
        decreases end - start,
    {
        assert(chars@.subrange(start as int, end as int).drop_first() =~= chars@.subrange(start + 1, end as int));
        start = start + 1;
    }
    let ghost t = chars@.subrange(start as int, end as int);
    assert(trim_start(text@) == t);
    let mut end = end;
    while end > start && whitespace(chars[end - 1])
        invariant
            start <= end <= chars.len(),
            trim_end(t) == trim_end(chars@.subrange(start as int, end as int)),
        decreases end,
    {
        assert(chars@.subrange(start as int, end as int).drop_last() =~= chars@.subrange(start as int, end - 1));
        end = end - 1;
    }
    slice_of(&chars, start, end)
}

/// Where an entry is renamed to: the trimmed new name in the entry's
/// folder; `None` where the name holds a slash or backslash (the message
/// `archive-name-invalid`).
pub open spec fn renamed_path(source: Seq<char>, input: Seq<char>) -> Option<Seq<char>> {
    let name = trim_end(trim_start(input));
    if exists|i: int| 0 <= i < name.len() && (#[trigger] name[i] == '/' || name[i] == '\\') {
        None
    } else if exists|i: int| 0 <= i < source.len() && #[trigger] source[i] == '/' {
        Some(crate::browser::parent_folder(source) + seq!['/'] + name)
    } else {
        Some(name)
    }
}

/// Whether the rename dialog can go on: the trimmed name is not empty.
pub fn rename_ready(input: &str) -> (r: bool)
    ensures
        r == (trim_end(trim_start(input@)).len() > 0),
{
    trim_text(input).len() > 0
}

/// Where an entry is renamed to, or `None` where the name is refused.
pub fn rename_target(source: &str, input: &str) -> (r: Option<String>)
    ensures
        match renamed_path(source@, input@) {
            Some(p) => r matches Some(x) && x@ == p,
            None => r is None,
        },
{
    let name = trim_text(input);
    let mut i: usize = 0;
    while i < name.len()
        invariant
            i <= name.len(),
            name@ == trim_end(trim_start(input@)),
            forall|j: int| 0 <= j < i ==> !(#[trigger] name@[j] == '/' || name@[j] == '\\'),
        decreases name.len() - i,
    {
        if name[i] == '/' || name[i] == '\\' {
            return None;
        }
        i = i + 1;
    }
    let s = chars_of(source);
    let mut k: usize = 0;
    while k < s.len()
        invariant
            k <= s.len(),
            s@ == source@,
            name@ == trim_end(trim_start(input@)),
            forall|j: int| 0 <= j < name@.len() ==> !(#[trigger] name@[j] == '/' || name@[j] == '\\'),
            forall|j: int| 0 <= j < k ==> #[trigger] s@[j] != '/',
        decreases s.len() - k,
    {
        if s[k] == '/' {
            assert(source@[k as int] == '/');
            let parent = crate::browser::parent_of_folder(source);
            let mut r = parent;
            crate::text::push_char(&mut r, '/');
            push_text(&mut r, string_of(name.as_slice()).as_str());
            assert(r@ =~= crate::browser::parent_folder(source@) + seq!['/'] + name@);
            return Some(r);
        }
        k = k + 1;
    }
    Some(string_of(name.as_slice()))
}

/// The extension of the file at `p`, read back from position `i`: the text
/// after the last dot of the file's name, where that dot does not start
/// the name; else empty.
pub open spec fn extension_from(p: Seq<char>, i: int) -> Seq<char>
    decreases i,
{
    if i < 1 || i >= p.len() {
        seq![]
    } else if p[i] == '/' {
        seq![]
    } else if p[i] == '.' {
        if p[i - 1] == '/' {
            seq![]
        } else {
            p.skip(i + 1)
        }
    } else {
        extension_from(p, i - 1)
    }
}

/// The extension of the file at an archive path, as the path's last part
/// gives it.
pub open spec fn entry_extension(p: Seq<char>) -> Seq<char> {
    extension_from(p, p.len() - 1)
}

/// The extension of the file at an archive path.
pub fn extension_of(path: &str) -> (r: String)
    ensures
        r@ == entry_extension(path@),
{
    let p = chars_of(path);
    let n = p.len();
    if n == 0 {
        return String::new();
    }
    let mut i: usize = n - 1;
    while i >= 1
        invariant
            i < n,
            n == p@.len(),
            p@ == path@,
            extension_from(p@, n - 1) == extension_from(p@, i as int),
        decreases i,
    {
        if p[i] == '/' {
            return String::new();
        }
        if p[i] == '.' {
            if p[i - 1] == '/' {
                return String::new();
            }
            let rest = slice_of(&p, i + 1, n);
            assert(rest@ =~= p@.skip(i + 1));
            return string_of(rest.as_slice());
        }
        i = i - 1;
    }
    String::new()
}

/// Whether opening a file with this extension runs a program.
pub open spec fn is_program(extension: Seq<char>) -> bool {
    exists|i: int| 0 <= i < 9 && same_ignoring_case(#[trigger] program_extensions()[i], extension)
}

/// A folder joined to its parent: with a `/` between them, unless the
/// parent is empty or already ends with one.
pub open spec fn joined(parent: Seq<char>, folder: Seq<char>) -> Seq<char> {
    if parent.len() == 0 || parent.last() == '/' {
        parent + folder
    } else {
        parent + seq!['/'] + folder
    }
}

/// The path of `folder` inside `parent`.
pub fn join_path(parent: &str, folder: &str) -> (r: String)
    ensures
        r@ == joined(parent@, folder@),
{
    let p = chars_of(parent);
    let mut r = parent.to_owned();
    if p.len() > 0 && p[p.len() - 1] != '/' {
        crate::text::push_char(&mut r, '/');
    }
    push_text(&mut r, folder);
    r
}

/// Where a request being carried out stands: not started, after a command
/// or an extraction that ended (with or without a warning), after the user
/// answered whether to run a program, or after the moved entries were
/// deleted.
#[derive(Clone, Copy, Debug, PartialEq, Eq, Structural)]
pub enum PerformStage {
    Start,
    Ran(bool),
    Confirmed(bool),
    Deleted,
}

/// How a request ended.
#[derive(Clone, Debug)]
pub enum Finish {
    /// The listing that was run opens the archive.
    Opened,
    /// The check ended with a warning (`check-warning`).
    CheckWarning,
    /// The check passed over this many files (`check-complete`).
    CheckComplete(usize),
    /// The entries were extracted into `destination`, which is then opened
    /// where `open` is set.
    Extracted { destination: String, warning: bool, open: bool },
    /// The entries were moved out into `destination`, which is then opened.
    Moved { destination: String },
    /// Open the entry at `path` of the folder it was extracted into.
    OpenEntry { path: String },
    /// The archive was created; it is sent by e-mail where `email` is set.
    Created { email: bool },
    /// The user stopped the request.
    Cancelled,
}

/// What the caller does next for a request.
#[derive(Clone, Debug)]
pub enum PerformStep {
    /// Run the command, then hand over whether it warned.
    Run(Invocation),
    /// Extract the `selected` entries of the request's archive (all where
    /// none is) into `destination`, through the checks of
    /// [`crate::engine::extraction_plan`], then hand over whether it warned.
    Extract { destination: String, selected: Vec<String>, overwrite: Overwrite },
    /// Delete the entries from the request's archive, then go on.
    Delete(Vec<String>),
    /// Extract the `selected` entries (all where none is), replacing what
    /// is there, into a new folder of `root` (the system's temporary folder
    /// where `None`), then hand over whether it warned.
    OpenCopy { root: Option<String>, selected: Vec<String> },
    /// Ask the user whether to run the program at `path`, then hand over
    /// the answer.
    Confirm { path: String },
    /// Create an archive of the paths with the options, then go on.
    Create { paths: Vec<String>, options: CreateOptions },
    /// Stop with the message of this key.
    Fail(&'static str),
    /// The request is done.
    Done(Finish),
    /// The request is carried out by a routine of its own: writing a
    /// comment, editing.
    Apart,
}

/// The next step of a request: opening lists the archive; a check tests it
/// and reports a warning or the number of files; an extraction refuses a
/// bad folder name before anything, extracts into the parent joined with
/// the folder, and opens the destination where asked; a transfer always
/// extracts with `RenameIncoming`, and a move then deletes the entries from
/// the archive, unless the extraction warned, which stops it with
/// `archive-move-warning`. Opening an entry extracts it (or the whole
/// archive, for the extensions that ask for that) into a new temporary
/// folder, refuses a copy that warned (`integrity-warning`), asks before
/// running a program, and stops where the user cancelled. A quick compress
/// creates the archive with the quick options.
pub fn perform_next(engine: &Engine, request: &Request, password: &str, stage: PerformStage, cancelled: bool) -> (r: PerformStep)
    ensures
        match *request {
            Request::Open(path) => stage == PerformStage::Start ==> (r matches PerformStep::Run(i)
                && invocation_is(i, engine.executable@, list_arguments(path@, None, password@), None)),
            Request::OpenAs(path, kind) => stage == PerformStage::Start ==> (r matches PerformStep::Run(i)
                && invocation_is(i, engine.executable@, list_arguments(path@, Some(kind), password@), None)),
            Request::Check(c) => stage == PerformStage::Start ==> (r matches PerformStep::Run(i) && invocation_is(
                i,
                engine.executable@,
                test_arguments(c.path@, c.open_type, password@),
                None,
            )),
            Request::Extract { catalog, selected, parent, folder, overwrite: o, open_after } => stage
                == PerformStage::Start ==> if !folder_name_allowed(folder@) {
                r matches PerformStep::Fail(k) && k@ == "folder-name-invalid"@
            } else {
                r matches PerformStep::Extract { destination, selected: s, overwrite }
                    && destination@ == joined(parent@, folder@) && s.deep_view() == selected.deep_view()
                    && overwrite == o
            },
            Request::Transfer { catalog, selected, destination: d, move_entries } => stage == PerformStage::Start
                ==> (r matches PerformStep::Extract { destination, selected: s, overwrite } && destination@ == d@
                && s.deep_view() == selected.deep_view() && overwrite == Overwrite::RenameIncoming),
            Request::OpenEntry { path, extract_all, temp_directory, .. } => stage == PerformStage::Start ==> (
            r matches PerformStep::OpenCopy { root, selected } && (if temp_directory@.len() == 0 {
                root is None
            } else {
                root matches Some(t) && t@ == temp_directory@
            }) && if extracts_all(extract_all@, entry_extension(path@)) {
                selected@.len() == 0
            } else {
                selected.deep_view() == seq![path@]
            }),
            Request::QuickCompress { paths, format, .. } => stage == PerformStage::Start ==> (
            r matches PerformStep::Create { paths: p, options } && p.deep_view() == paths.deep_view()
                && is_quick_options(options, format, password@)),
            _ => stage == PerformStage::Start ==> r is Apart,
        },
        match *request {
            Request::OpenEntry { path, .. } => {
                &&& stage matches PerformStage::Ran(w) ==> if w {
                    r matches PerformStep::Fail(k) && k@ == "integrity-warning"@
                } else if is_program(entry_extension(path@)) {
                    r matches PerformStep::Confirm { path: p } && p@ == path@
                } else if cancelled {
                    r matches PerformStep::Done(Finish::Cancelled)
                } else {
                    r matches PerformStep::Done(Finish::OpenEntry { path: p }) && p@ == path@
                }
                &&& stage matches PerformStage::Confirmed(yes) ==> if !yes || cancelled {
                    r matches PerformStep::Done(Finish::Cancelled)
                } else {
                    r matches PerformStep::Done(Finish::OpenEntry { path: p }) && p@ == path@
                }
            },
            Request::QuickCompress { email, .. } => stage is Ran ==> (r matches PerformStep::Done(
                Finish::Created { email: e },
            ) && e == email),
            _ => true,
        },
        match *request {
            Request::Open(_) | Request::OpenAs(..) => stage is Ran ==> r matches PerformStep::Done(Finish::Opened),
            Request::Check(c) => stage matches PerformStage::Ran(w) ==> if w {
                r matches PerformStep::Done(Finish::CheckWarning)
            } else {
                r matches PerformStep::Done(Finish::CheckComplete(n)) && n == file_count(c.entries.deep_view())
            },
            Request::Extract { parent, folder, open_after, .. } => stage matches PerformStage::Ran(w) ==> (
            r matches PerformStep::Done(Finish::Extracted { destination, warning, open }) && destination@
                == joined(parent@, folder@) && warning == w && open == open_after),
            Request::Transfer { selected, destination: d, move_entries, .. } => {
                &&& stage matches PerformStage::Ran(w) ==> if move_entries && w {
                    r matches PerformStep::Fail(k) && k@ == "archive-move-warning"@
                } else if move_entries {
                    r matches PerformStep::Delete(s) && s.deep_view() == selected.deep_view()
                } else {
                    r matches PerformStep::Done(Finish::Extracted { destination, warning, open })
                        && destination@ == d@ && warning == w && open
                }
                &&& stage == PerformStage::Deleted && move_entries ==> (r matches PerformStep::Done(
                    Finish::Moved { destination },
                ) && destination@ == d@)
            },
            _ => true,
        },
{
    match request {
        Request::Open(path) => match stage {
            PerformStage::Start => PerformStep::Run(engine.list(path.as_str(), password)),
            _ => PerformStep::Done(Finish::Opened),
        },
        Request::OpenAs(path, kind) => match stage {
            PerformStage::Start => {
                let t = Some(OpenType { value: kind.value.clone(), parser: kind.parser });
                assert(list_arguments(path@, t, password@) =~= list_arguments(path@, Some(*kind), password@));
                PerformStep::Run(engine.list_as(path.as_str(), &t, password))
            },
            _ => PerformStep::Done(Finish::Opened),
        },
        Request::Check(c) => match stage {
            PerformStage::Start => PerformStep::Run(engine.test_as(c.path.as_str(), &c.open_type, password)),
            PerformStage::Ran(true) => PerformStep::Done(Finish::CheckWarning),
            _ => PerformStep::Done(Finish::CheckComplete(count_files(&c.entries))),
        },
        Request::Extract { selected, parent, folder, overwrite, open_after, .. } => match stage {
            PerformStage::Start => {
                if !folder_allowed(folder.as_str()) {
                    return PerformStep::Fail("folder-name-invalid");
                }
                PerformStep::Extract {
                    destination: join_path(parent.as_str(), folder.as_str()),
                    selected: copy_paths(selected),
                    overwrite: *overwrite,
                }
            },
            PerformStage::Ran(w) => PerformStep::Done(
                Finish::Extracted {
                    destination: join_path(parent.as_str(), folder.as_str()),
                    warning: w,
                    open: *open_after,
                },
            ),
            PerformStage::Deleted | PerformStage::Confirmed(_) => PerformStep::Apart,
        },
        Request::Transfer { selected, destination, move_entries, .. } => match stage {
            PerformStage::Start => PerformStep::Extract {
                destination: destination.clone(),
                selected: copy_paths(selected),
                overwrite: Overwrite::RenameIncoming,
            },
            PerformStage::Ran(w) => {
                if *move_entries && w {
                    PerformStep::Fail("archive-move-warning")
                } else if *move_entries {
                    PerformStep::Delete(copy_paths(selected))
                } else {
                    PerformStep::Done(Finish::Extracted { destination: destination.clone(), warning: w, open: true })
                }
            },
            PerformStage::Deleted => PerformStep::Done(Finish::Moved { destination: destination.clone() }),
            PerformStage::Confirmed(_) => PerformStep::Apart,
        },
        Request::OpenEntry { path, extract_all, temp_directory, .. } => match stage {
            PerformStage::Start => {
                let extension = extension_of(path.as_str());
                let root = if temp_directory.as_str().is_empty() {
                    None
                } else {
                    Some(temp_directory.clone())
                };
                let mut selected: Vec<String> = Vec::new();
                if !extract_all_for(extract_all.as_str(), extension.as_str()) {
                    selected.push(path.clone());
                }
                assert(selected@.len() > 0 ==> selected.deep_view() =~= seq![path@]);
                PerformStep::OpenCopy { root, selected }
            },
            PerformStage::Ran(true) => PerformStep::Fail("integrity-warning"),
            PerformStage::Ran(false) => {
                let extension = extension_of(path.as_str());
                if runs_program(extension.as_str()) {
                    PerformStep::Confirm { path: path.clone() }
                } else if cancelled {
                    PerformStep::Done(Finish::Cancelled)
                } else {
                    PerformStep::Done(Finish::OpenEntry { path: path.clone() })
                }
            },
            PerformStage::Confirmed(yes) => {
                if !yes || cancelled {
                    PerformStep::Done(Finish::Cancelled)
                } else {
                    PerformStep::Done(Finish::OpenEntry { path: path.clone() })
                }
            },
            PerformStage::Deleted => PerformStep::Apart,
        },
        Request::QuickCompress { paths, format, email } => match stage {
            PerformStage::Start => PerformStep::Create {
                paths: copy_paths(paths),
                options: quick_options(*format, password),
            },
            _ => PerformStep::Done(Finish::Created { email: *email }),
        },
        _ => PerformStep::Apart,
    }
}

/// A drop opens the dropped file as an archive exactly when one file is
/// dropped and its lower-cased extension is one of 7z, zip, rar, tar, gz,
/// bz2, xz, wim, iso, cab or 001; anything else is offered for compression.
pub proof fn law_drop_opens_known_archives(count: nat, extension: Option<Seq<char>>)
    ensures
        drop_opens(count, extension) <==> (count == 1 && match extension {
            None => false,
            Some(e) => {
                let l = lower_case(e);
            ||| l == "7z"@
            ||| l == "zip"@
            ||| l == "rar"@
            ||| l == "tar"@
            ||| l == "gz"@
            ||| l == "bz2"@
            ||| l == "xz"@
            ||| l == "wim"@
            ||| l == "iso"@
            ||| l == "cab"@
            ||| l == "001"@
            },
        }),
{
    if count == 1 && extension is Some {
        let l = lower_case(extension->0);
        let known = archive_extensions();
        if known.contains(l) {
            let k = choose|k: int| 0 <= k < known.len() && known[k] == l;
            assert(known[k] == l);
        }
        if l == "7z"@ { assert(known[0] == l); }
        if l == "zip"@ { assert(known[1] == l); }
        if l == "rar"@ { assert(known[2] == l); }
        if l == "tar"@ { assert(known[3] == l); }
        if l == "gz"@ { assert(known[4] == l); }
        if l == "bz2"@ { assert(known[5] == l); }
        if l == "xz"@ { assert(known[6] == l); }
        if l == "wim"@ { assert(known[7] == l); }
        if l == "iso"@ { assert(known[8] == l); }
        if l == "cab"@ { assert(known[9] == l); }
        if l == "001"@ { assert(known[10] == l); }
    }
}

/// Opening a file asks first exactly when its extension, in any case,
/// is one of exe, com, msi, bat, cmd, ps1, vbs, js or scr.
pub proof fn law_programs_ask_first(extension: Seq<char>)
    ensures
        is_program(extension) <==> (same_ignoring_case("exe"@, extension) || same_ignoring_case("com"@, extension)
            || same_ignoring_case("msi"@, extension) || same_ignoring_case("bat"@, extension) || same_ignoring_case(
            "cmd"@,
            extension,
        ) || same_ignoring_case("ps1"@, extension) || same_ignoring_case("vbs"@, extension) || same_ignoring_case(
            "js"@,
            extension,
        ) || same_ignoring_case("scr"@, extension)),
{
    let k = program_extensions();
    assert(k[0] == "exe"@ && k[1] == "com"@ && k[2] == "msi"@ && k[3] == "bat"@ && k[4] == "cmd"@);
    assert(k[5] == "ps1"@ && k[6] == "vbs"@ && k[7] == "js"@ && k[8] == "scr"@);
}

} // verus!
