//! The command lines given to the 7-Zip engine and the reading of what it
//! answers. Running the process is left to the caller: each command is an
//! [`Invocation`], and [`conclude`] turns the process's exit into a result.

use crate::catalog::{overwrite_switch, CreateOptions, Entry, EntryView, OpenType, Overwrite};
use crate::catalog::Catalog;
use crate::listing::{listing_of, ListingError};
use crate::scan::{find_from, occurs_at, split_from};
use crate::text::{chars_of, push_text, same_text};
use vstd::prelude::*;

verus! {

/// What a finished command printed, and whether it ended with a warning.
#[derive(Clone, Debug)]
pub struct Output {
    pub text: String,
    pub warning: bool,
}

/// A command that the engine ended with an error.
#[derive(Clone, Debug)]
pub struct CommandFailure {
    pub code: Option<i32>,
    pub details: String,
    pub password_required: bool,
}

/// A file that could not be read before the engine was asked about it.
#[derive(Clone, Debug)]
pub struct SourceError {
    pub path: String,
    pub message: String,
}

/// A rule of the application that stopped an operation, by the translation
/// key of its message.
#[derive(Clone, Copy, Debug, PartialEq, Eq, Structural)]
pub enum Refusal {
    TaskCancelled,
    ExtractCancelled,
    ExtractSourceConflict,
    EncodingInvalid,
    SourceRequired,
    SplitUpdateUnsupported,
    SingleFileOnly,
    PasswordUnsupported,
    CreateWarning,
    IntegrityWarning,
    VolumeWarning,
    ChecksumWarning,
}

pub open spec fn refusal_key(r: Refusal) -> Seq<char> {
    match r {
        Refusal::TaskCancelled => "task-cancelled"@,
        Refusal::ExtractCancelled => "extract-cancelled"@,
        Refusal::ExtractSourceConflict => "extract-source-conflict"@,
        Refusal::EncodingInvalid => "engine-encoding-invalid"@,
        Refusal::SourceRequired => "source-required"@,
        Refusal::SplitUpdateUnsupported => "split-update-unsupported"@,
        Refusal::SingleFileOnly => "single-file-only"@,
        Refusal::PasswordUnsupported => "password-unsupported"@,
        Refusal::CreateWarning => "create-warning"@,
        Refusal::IntegrityWarning => "integrity-warning"@,
        Refusal::VolumeWarning => "volume-warning"@,
        Refusal::ChecksumWarning => "checksum-warning"@,
    }
}

impl Refusal {
    /// The message key of the message.
    pub fn key(self) -> (r: &'static str)
        ensures
            r@ == refusal_key(self),
    {
        match self {
            Refusal::TaskCancelled => "task-cancelled",
            Refusal::ExtractCancelled => "extract-cancelled",
            Refusal::ExtractSourceConflict => "extract-source-conflict",
            Refusal::EncodingInvalid => "engine-encoding-invalid",
            Refusal::SourceRequired => "source-required",
            Refusal::SplitUpdateUnsupported => "split-update-unsupported",
            Refusal::SingleFileOnly => "single-file-only",
            Refusal::PasswordUnsupported => "password-unsupported",
            Refusal::CreateWarning => "create-warning",
            Refusal::IntegrityWarning => "integrity-warning",
            Refusal::VolumeWarning => "volume-warning",
            Refusal::ChecksumWarning => "checksum-warning",
        }
    }
}

/// Why an engine operation failed.
#[derive(Clone, Debug)]
pub enum EngineError {
    Failed(CommandFailure),
    Refused(Refusal),
    UnsafeEntry(String),
    Listing(ListingError),
    Source(SourceError),
}

/// Whether the operation failed because the archive wants a (different)
/// password.
pub fn needs_password(error: &EngineError) -> (r: bool)
    ensures
        r == (error matches EngineError::Failed(f) && f.password_required),
{
    match error {
        EngineError::Failed(f) => f.password_required,
        _ => false,
    }
}

/// How the work of a request ended, for the window: with its result; with
/// a request for a (different) password, after which the same request is
/// tried again; or with an error.
#[derive(Clone, Debug)]
pub enum Settled<T> {
    Done(T),
    AskPassword,
    Failed(EngineError),
}

/// Settles the result of a request's work: an error that says the archive
/// wants a password asks for one, so that the request can be retried; any
/// other error stands.
pub fn settle<T>(result: Result<T, EngineError>) -> (r: Settled<T>)
    ensures
        match result {
            Ok(v) => r == Settled::<T>::Done(v),
            Err(e) => if e matches EngineError::Failed(f) && f.password_required {
                r is AskPassword
            } else {
                r == Settled::<T>::Failed(e)
            },
        },
{
    match result {
        Ok(v) => Settled::Done(v),
        Err(e) => {
            if needs_password(&e) {
                Settled::AskPassword
            } else {
                Settled::Failed(e)
            }
        },
    }
}

/// A command line for the engine: the program, its arguments, and the
/// directory it runs in (the caller's own where `None`).
#[derive(Clone, Debug)]
pub struct Invocation {
    pub program: String,
    pub arguments: Vec<String>,
    pub directory: Option<String>,
}

/// The engine executable.
#[derive(Clone, Debug)]
pub struct Engine {
    pub executable: String,
}

/// A text made of two parts.
pub fn concat(a: &str, b: &str) -> (r: String)
    ensures
        r@ == a@ + b@,
{
    let mut r = String::new();
    push_text(&mut r, a);
    push_text(&mut r, b);
    assert(r@ =~= a@ + b@);
    r
}

/// Appends an argument.
pub fn push_arg(args: &mut Vec<String>, a: String)
    ensures
        final(args).deep_view() == old(args).deep_view().push(a@),
{
    let ghost before = args.deep_view();
    args.push(a);
    assert(args.deep_view() =~= before.push(a@));
}

/// Appends an argument given as a literal.
pub fn push_literal(args: &mut Vec<String>, a: &str)
    ensures
        final(args).deep_view() == old(args).deep_view().push(a@),
{
    push_arg(args, a.to_owned());
}

/// The `-t` switch that forces how an archive is read, if any.
pub open spec fn type_switch(open_type: Option<OpenType>) -> Seq<Seq<char>> {
    match open_type {
        Some(t) => seq!["-t"@ + t.value@],
        None => seq![],
    }
}

fn push_type(args: &mut Vec<String>, open_type: &Option<OpenType>)
    ensures
        final(args).deep_view() == old(args).deep_view() + type_switch(*open_type),
{
    match open_type {
        Some(t) => {
            push_arg(args, concat("-t", t.value.as_str()));
        },
        None => {
            assert(old(args).deep_view() + seq![] =~= old(args).deep_view());
        },
    }
}

/// The arguments that list an archive in the technical format.
pub open spec fn list_arguments(path: Seq<char>, open_type: Option<OpenType>, password: Seq<char>) -> Seq<
    Seq<char>,
> {
    seq!["l"@, "-slt"@, "-sccUTF-8"@, "-p"@ + password] + type_switch(open_type) + seq![
        "--"@,
        path,
    ]
}

/// The arguments that test an archive.
pub open spec fn test_arguments(path: Seq<char>, open_type: Option<OpenType>, password: Seq<char>) -> Seq<
    Seq<char>,
> {
    seq!["t"@, "-sccUTF-8"@, "-p"@ + password] + type_switch(open_type) + seq!["--"@, path]
}

/// What an invocation holds, as sequences of characters.
pub open spec fn invocation_is(
    i: Invocation,
    program: Seq<char>,
    arguments: Seq<Seq<char>>,
    directory: Option<Seq<char>>,
) -> bool {
    &&& i.program@ == program
    &&& i.arguments.deep_view() == arguments
    &&& match i.directory {
        Some(d) => directory == Some(d@),
        None => directory is None,
    }
}

impl Engine {
    /// The engine at the given executable path.
    pub fn new(executable: String) -> (r: Engine)
        ensures
            r.executable@ == executable@,
    {
        Engine { executable }
    }

    fn run_with(&self, arguments: Vec<String>, directory: Option<String>) -> (r: Invocation)
        ensures
            r.program@ == self.executable@,
            r.arguments == arguments,
            r.directory == directory,
    {
        Invocation { program: self.executable.clone(), arguments, directory }
    }

    /// The command that lists an archive, read as `open_type` where given.
    pub fn list_as(&self, path: &str, open_type: &Option<OpenType>, password: &str) -> (r: Invocation)
        ensures
            invocation_is(r, self.executable@, list_arguments(path@, *open_type, password@), None),
    {
        let mut args: Vec<String> = Vec::new();
        push_literal(&mut args, "l");
        push_literal(&mut args, "-slt");
        push_literal(&mut args, "-sccUTF-8");
        push_arg(&mut args, concat("-p", password));
        push_type(&mut args, open_type);
        push_literal(&mut args, "--");
        push_literal(&mut args, path);
        assert(args.deep_view() =~= list_arguments(path@, *open_type, password@));
        self.run_with(args, None)
    }

    /// The command that lists an archive.
    pub fn list(&self, path: &str, password: &str) -> (r: Invocation)
        ensures
            invocation_is(r, self.executable@, list_arguments(path@, None, password@), None),
    {
        self.list_as(path, &None, password)
    }

    /// The command that tests an archive, read as `open_type` where given.
    pub fn test_as(&self, path: &str, open_type: &Option<OpenType>, password: &str) -> (r: Invocation)
        ensures
            invocation_is(r, self.executable@, test_arguments(path@, *open_type, password@), None),
    {
        let mut args: Vec<String> = Vec::new();
        push_literal(&mut args, "t");
        push_literal(&mut args, "-sccUTF-8");
        push_arg(&mut args, concat("-p", password));
        push_type(&mut args, open_type);
        push_literal(&mut args, "--");
        push_literal(&mut args, path);
        assert(args.deep_view() =~= test_arguments(path@, *open_type, password@));
        self.run_with(args, None)
    }

    /// The command that tests an archive.
    pub fn test(&self, path: &str, password: &str) -> (r: Invocation)
        ensures
            invocation_is(r, self.executable@, test_arguments(path@, None, password@), None),
    {
        self.test_as(path, &None, password)
    }
}

/// The phrases of the engine's error output that mean a password is missing
/// or wrong.
pub open spec fn asks_password(details: Seq<char>) -> bool {
    ||| find_from(details, "Wrong password"@, 0) is Some
    ||| find_from(details, "Password is not defined"@, 0) is Some
    ||| find_from(details, "Data Error in encrypted file"@, 0) is Some
}

/// The result of a command that ran to its end with exit code `code`,
/// having printed `text` and, on its error stream, `errors`: exit code 0 is
/// success, 1 a warning, anything else (or none) a failure whose details
/// are both outputs.
pub open spec fn outcome_of(code: Option<i32>, text: Seq<char>, errors: Seq<char>) -> Result<
    (Seq<char>, bool),
    (Option<i32>, Seq<char>, bool),
> {
    if code == Some(0i32) {
        Ok((text, false))
    } else if code == Some(1i32) {
        Ok((text, true))
    } else {
        let details = text + seq!['\n'] + errors;
        Err((code, details, asks_password(details)))
    }
}

fn contains_text(s: &Vec<char>, pattern: &str) -> (r: bool)
    ensures
        r == (find_from(s@, pattern@, 0) is Some),
{
    crate::scan::find_at(s, &chars_of(pattern), 0).is_some()
}

/// The result of a command that ran to its end, from its exit code and its
/// two outputs as text.
pub fn classify(code: Option<i32>, text: String, errors: &str) -> (r: Result<Output, EngineError>)
    ensures
        match outcome_of(code, text@, errors@) {
            Ok((t, w)) => r matches Ok(o) && o.text@ == t && o.warning == w,
            Err((c, d, p)) => r matches Err(EngineError::Failed(f)) && f.code == c && f.details@ == d
                && f.password_required == p,
        },
{
    match code {
        Some(0) => Ok(Output { text, warning: false }),
        Some(1) => Ok(Output { text, warning: true }),
        _ => {
            let mut details = text.clone();
            crate::text::push_char(&mut details, '\n');
            push_text(&mut details, errors);
            assert(details@ =~= text@ + seq!['\n'] + errors@);
            let chars = chars_of(details.as_str());
            let password_required = contains_text(&chars, "Wrong password") || contains_text(
                &chars,
                "Password is not defined",
            ) || contains_text(&chars, "Data Error in encrypted file");
            Err(EngineError::Failed(CommandFailure { code, details, password_required }))
        },
    }
}

/// What `String::from_utf8` makes of a byte sequence: its text where the
/// bytes are valid UTF-8.
pub uninterp spec fn utf8_text(bytes: Seq<u8>) -> Option<Seq<char>>;

/// What `String::from_utf8_lossy` makes of a byte sequence.
pub uninterp spec fn utf8_lossy(bytes: Seq<u8>) -> Seq<char>;

/// `String::from_utf8`: the text of the bytes, or `None` where they are not
/// valid UTF-8. Which byte sequences are valid, and what text they decode
/// to, is not stated.
#[verifier::external_body]
fn decode(bytes: Vec<u8>) -> (r: Option<String>)
    ensures
        match r {
            Some(s) => utf8_text(bytes@) == Some(s@),
            None => utf8_text(bytes@) is None,
        },
{
    String::from_utf8(bytes).ok()
}

/// `String::from_utf8_lossy`: the text of the bytes, with invalid sequences
/// replaced. The decoding itself is not stated.
#[verifier::external_body]
fn decode_lossy(bytes: &[u8]) -> (r: String)
    ensures
        r@ == utf8_lossy(bytes@),
{
    String::from_utf8_lossy(bytes).into_owned()
}

/// Whether a command may start: not once the user has cancelled, which
/// refuses it before any process is started.
pub fn may_start(cancelled: bool) -> (r: Result<(), Refusal>)
    ensures
        cancelled ==> r == Err::<(), Refusal>(Refusal::TaskCancelled),
        !cancelled ==> r is Ok,
{
    if cancelled {
        Err(Refusal::TaskCancelled)
    } else {
        Ok(())
    }
}

/// A command that fails (an exit code other than 0 and 1, or none) is
/// reported with its output, a line break and its error output as details;
/// and it asks for a password exactly when those details hold one of the
/// engine's phrases for a missing or wrong password: "Wrong password",
/// "Password is not defined" or "Data Error in encrypted file".
pub proof fn law_password_phrases(code: Option<i32>, text: Seq<char>, errors: Seq<char>)
    requires
        code != Some(0i32),
        code != Some(1i32),
    ensures
        ({
            let d = text + seq!['\n'] + errors;
            &&& outcome_of(code, text, errors) matches Err((c, details, p))
            &&& outcome_of(code, text, errors)->Err_0.0 == code
            &&& outcome_of(code, text, errors)->Err_0.1 == d
            &&& outcome_of(code, text, errors)->Err_0.2 <==> ((exists|i: int| occurs_at(d, "Wrong password"@, i))
                || (exists|i: int| occurs_at(d, "Password is not defined"@, i)) || (exists|i: int|
                occurs_at(d, "Data Error in encrypted file"@, i)))
        }),
{
    let d = text + seq!['\n'] + errors;
    crate::scan::lemma_find_from(d, "Wrong password"@, 0);
    crate::scan::lemma_find_from(d, "Password is not defined"@, 0);
    crate::scan::lemma_find_from(d, "Data Error in encrypted file"@, 0);
}

/// The result of a command from the way its process ended: cancelled, or
/// with an exit code (none when a signal ended it), and the bytes it
/// printed on its output and error streams.
pub fn conclude(cancelled: bool, code: Option<i32>, stdout: Vec<u8>, stderr: &[u8]) -> (r: Result<
    Output,
    EngineError,
>)
    ensures
        cancelled ==> r matches Err(EngineError::Refused(Refusal::ExtractCancelled)),
        !cancelled ==> (match utf8_text(stdout@) {
            None => r matches Err(EngineError::Refused(Refusal::EncodingInvalid)),
            Some(text) => match outcome_of(code, text, utf8_lossy(stderr@)) {
                Ok((t, w)) => r matches Ok(o) && o.text@ == t && o.warning == w,
                Err((c, d, p)) => r matches Err(EngineError::Failed(f)) && f.code == c && f.details@
                    == d && f.password_required == p,
            },
        }),
{
    if cancelled {
        return Err(EngineError::Refused(Refusal::ExtractCancelled));
    }
    let ghost out = stdout@;
    match decode(stdout) {
        None => Err(EngineError::Refused(Refusal::EncodingInvalid)),
        Some(text) => {
            let errors = decode_lossy(stderr);
            classify(code, text, errors.as_str())
        },
    }
}

/// Whether an entry is taken by a selection: every entry when nothing is
/// selected, else an entry that is a selected path or lies below one.
pub open spec fn is_selected(path: Seq<char>, selected: Seq<Seq<char>>) -> bool {
    selected.len() == 0 || exists|i: int|
        0 <= i < selected.len() && (path == selected[i] || selected[i].push('/').is_prefix_of(path))
}

/// The entries that a selection takes, in listing order.
pub open spec fn selected_entries(entries: Seq<EntryView>, selected: Seq<Seq<char>>) -> Seq<EntryView>
    decreases entries.len(),
{
    if entries.len() == 0 {
        seq![]
    } else {
        let before = selected_entries(entries.drop_last(), selected);
        if is_selected(entries.last().path, selected) {
            before.push(entries.last())
        } else {
            before
        }
    }
}

fn selects(path: &Vec<char>, selected: &Vec<String>) -> (r: bool)
    ensures
        r == is_selected(path@, selected.deep_view()),
{
    if selected.len() == 0 {
        return true;
    }
    let mut i: usize = 0;
    while i < selected.len()
        invariant
            i <= selected.len(),
            selected.len() > 0,
            forall|j: int|
                0 <= j < i ==> !(path@ == #[trigger] selected.deep_view()[j] || selected.deep_view()[j].push(
                    '/',
                ).is_prefix_of(path@)),
        decreases selected.len() - i,
    {
        let s = chars_of(selected[i].as_str());
        assert(selected.deep_view()[i as int] == s@);
        let mut below = s.clone();
        below.push('/');
        assert(below@ == s@.push('/'));
        let equal = crate::scan::same_chars(path, &s);
        let under = below.len() <= path.len() && crate::scan::matches_at(path, &below, 0);
        proof {
            if below@.is_prefix_of(path@) {
                assert(path@.subrange(0, below@.len() as int) =~= below@);
            }
        }
        if equal || under {
            return true;
        }
        i = i + 1;
    }
    false
}

/// The entries that an extraction of the selected paths takes.
pub fn select(entries: &Vec<Entry>, selected: &Vec<String>) -> (r: Vec<Entry>)
    ensures
        r.deep_view() == selected_entries(entries.deep_view(), selected.deep_view()),
{
    let ghost ev = entries.deep_view();
    let mut r: Vec<Entry> = Vec::new();
    let mut i: usize = 0;
    assert(ev.take(0) =~= seq![]);
    assert(r.deep_view() =~= seq![]);
    while i < entries.len()
        invariant
            i <= entries.len(),
            ev == entries.deep_view(),
            r.deep_view() == selected_entries(ev.take(i as int), selected.deep_view()),
        decreases entries.len() - i,
    {
        assert(ev.take(i + 1).drop_last() =~= ev.take(i as int));
        assert(ev.take(i + 1).last() == entries[i as int]@);
        let path = chars_of(entries[i].path.as_str());
        if selects(&path, selected) {
            let ghost before = r.deep_view();
            r.push(entries[i].duplicate());
            assert(r.deep_view() =~= before.push(entries[i as int]@));
        }
        i = i + 1;
    }
    assert(ev.take(i as int) =~= ev);
    r
}

/// Whether one part of an entry's path could leave the destination or be
/// changed by Windows: `..`, or a name ending in a space or a dot.
pub open spec fn bad_part(part: Seq<char>) -> bool {
    part == ".."@ || (part.len() > 0 && (part.last() == ' ' || part.last() == '.'))
}

/// Whether extracting an entry could write outside the destination: a link,
/// an absolute path, a drive or stream colon, a line break, or a bad part.
pub open spec fn is_unsafe(e: EntryView) -> bool {
    ||| e.link
    ||| (e.path.len() > 0 && e.path[0] == '/')
    ||| exists|i: int|
        0 <= i < e.path.len() && (#[trigger] e.path[i] == ':' || e.path[i] == '\r' || e.path[i] == '\n')
    ||| exists|i: int|
        0 <= i < split_from(e.path, seq!['/'], 0).len() && bad_part(
            #[trigger] split_from(e.path, seq!['/'], 0)[i],
        )
}

/// Whether extracting the entry could write outside the destination.
pub fn unsafe_entry(e: &Entry) -> (r: bool)
    ensures
        r == is_unsafe(e@),
{
    if e.link {
        return true;
    }
    let path = chars_of(e.path.as_str());
    if path.len() > 0 && path[0] == '/' {
        return true;
    }
    let mut i: usize = 0;
    while i < path.len()
        invariant
            i <= path.len(),
            path@ == e.path@,
            forall|j: int|
                0 <= j < i ==> !(#[trigger] path@[j] == ':' || path@[j] == '\r' || path@[j] == '\n'),
        decreases path.len() - i,
    {
        let c = path[i];
        if c == ':' || c == '\r' || c == '\n' {
            return true;
        }
        i = i + 1;
    }
    let slash = vec!['/'];
    assert(slash@ =~= seq!['/']);
    let parts = crate::scan::split(&path, &slash);
    let dots = chars_of("..");
    let mut k: usize = 0;
    while k < parts.len()
        invariant
            k <= parts.len(),
            parts.deep_view() == split_from(e.path@, seq!['/'], 0),
            dots@ == ".."@,
            forall|j: int| 0 <= j < k ==> !bad_part(#[trigger] parts.deep_view()[j]),
        decreases parts.len() - k,
    {
        let part = &parts[k];
        proof {
            crate::scan::lemma_deep_chars(part);
        }
        let n = part.len();
        if crate::scan::same_chars(part, &dots) || (n > 0 && (part[n - 1] == ' ' || part[n - 1] == '.')) {
            assert(bad_part(parts.deep_view()[k as int]));
            return true;
        }
        k = k + 1;
    }
    false
}

/// The arguments that extract an archive: the overwrite choice, the
/// password, the forced type, the destination, the list file of selected
/// paths where there is one, and the archive; with progress reporting, the
/// switches that send progress to the error stream come first.
pub open spec fn extract_arguments(
    overwrite: Overwrite,
    password: Seq<char>,
    open_type: Option<OpenType>,
    destination: Seq<char>,
    list_file: Option<Seq<char>>,
    archive: Seq<char>,
    progress: bool,
) -> Seq<Seq<char>> {
    let tail = seq![overwrite_switch(overwrite), "-y"@, "-sccUTF-8"@, "-spd"@, "-p"@ + password]
        + type_switch(open_type) + seq!["-o"@ + destination] + match list_file {
        Some(f) => seq!["-scsUTF-8"@, "-i@"@ + f],
        None => seq![],
    } + seq!["--"@, archive];
    if progress {
        seq!["x"@, "-bsp2"@, "-bso1"@, "-bse1"@] + tail
    } else {
        seq!["x"@] + tail
    }
}

/// The text of a list file: each line followed by a line feed.
pub open spec fn list_text(lines: Seq<Seq<char>>) -> Seq<char>
    decreases lines.len(),
{
    if lines.len() == 0 {
        seq![]
    } else {
        list_text(lines.drop_last()) + lines.last() + seq!['\n']
    }
}

/// The text of a list file that names the given paths.
pub fn list_file_text(lines: &Vec<String>) -> (r: String)
    ensures
        r@ == list_text(lines.deep_view()),
{
    let mut r = String::new();
    let mut i: usize = 0;
    assert(lines.deep_view().take(0) =~= seq![]);
    while i < lines.len()
        invariant
            i <= lines.len(),
            r@ == list_text(lines.deep_view().take(i as int)),
        decreases lines.len() - i,
    {
        assert(lines.deep_view().take(i + 1).drop_last() =~= lines.deep_view().take(i as int));
        assert(lines.deep_view().take(i + 1).last() == lines[i as int]@);
        push_text(&mut r, lines[i].as_str());
        crate::text::push_char(&mut r, '\n');
        i = i + 1;
    }
    assert(lines.deep_view().take(i as int) =~= lines.deep_view());
    r
}

/// What the file system shows of the place where an entry would be
/// written, read by the caller before the extraction: whether it is the
/// archive being extracted itself, and the first existing ancestor of it,
/// from the place upward, that is a reparse point (a junction or a link),
/// which could redirect the write.
#[derive(Clone, Debug)]
pub struct TargetProbe {
    pub is_source: bool,
    pub reparse_ancestor: Option<String>,
}

/// A probe, with its path as a sequence of characters.
pub struct TargetProbeView {
    pub is_source: bool,
    pub reparse_ancestor: Option<Seq<char>>,
}

impl View for TargetProbe {
    type V = TargetProbeView;

    open spec fn view(&self) -> TargetProbeView {
        TargetProbeView {
            is_source: self.is_source,
            reparse_ancestor: match self.reparse_ancestor {
                Some(a) => Some(a@),
                None => None,
            },
        }
    }
}

impl DeepView for TargetProbe {
    type V = TargetProbeView;

    open spec fn deep_view(&self) -> TargetProbeView {
        self@
    }
}

/// Why an entry may not be extracted: its path (or the reparse point
/// above its target) is unsafe, or it would overwrite the archive itself.
pub enum Hazard {
    Unsafe(Seq<char>),
    SourceConflict,
}

/// The hazard of extracting one entry, in the order of the checks: the
/// entry's own path; then, where existing files are replaced or renamed,
/// its target being the archive; then a reparse point above the target.
pub open spec fn hazard(e: EntryView, p: TargetProbeView, protected: bool) -> Option<Hazard> {
    if is_unsafe(e) {
        Some(Hazard::Unsafe(e.path))
    } else if protected && p.is_source {
        Some(Hazard::SourceConflict)
    } else {
        match p.reparse_ancestor {
            Some(a) => Some(Hazard::Unsafe(a)),
            None => None,
        }
    }
}

/// The hazard of the first entry, in listing order, that has one.
pub open spec fn first_hazard(entries: Seq<EntryView>, probes: Seq<TargetProbeView>, protected: bool) -> Option<
    Hazard,
>
    decreases entries.len(),
{
    if entries.len() == 0 || probes.len() == 0 {
        None
    } else {
        match hazard(entries[0], probes[0], protected) {
            Some(h) => Some(h),
            None => first_hazard(entries.drop_first(), probes.drop_first(), protected),
        }
    }
}

/// The overwrite choices that could write over the archive being read.
pub open spec fn protects_source(overwrite: Overwrite) -> bool {
    overwrite == Overwrite::Replace || overwrite == Overwrite::RenameExisting
}

/// Whether what the file system shows at an entry's target stops the
/// extraction there: the target is the archive itself, where existing
/// files are replaced or renamed, or a reparse point lies above it.
pub fn probe_stops(probe: &TargetProbe, overwrite: Overwrite) -> (r: bool)
    ensures
        r == ((protects_source(overwrite) && probe.is_source) || probe.reparse_ancestor is Some),
{
    ((overwrite == Overwrite::Replace || overwrite == Overwrite::RenameExisting) && probe.is_source)
        || probe.reparse_ancestor.is_some()
}

/// The paths of the entries.
pub open spec fn entry_paths(entries: Seq<EntryView>) -> Seq<Seq<char>> {
    entries.map_values(|e: EntryView| e.path)
}

/// Checks an extraction of the `selected` entries (all where none is
/// selected) before anything is written, with `probes` read for the chosen
/// entries in order: a cancel stops it, then the first entry with a hazard.
/// Where all is well, the text of the list file that names the chosen
/// entries, one per line in listing order, where only some are selected.
pub fn extraction_plan(
    entries: &Vec<Entry>,
    selected: &Vec<String>,
    overwrite: Overwrite,
    probes: &Vec<TargetProbe>,
    cancelled: bool,
) -> (r: Result<Option<String>, EngineError>)
    requires
        probes@.len() == selected_entries(entries.deep_view(), selected.deep_view()).len(),
    ensures
        ({
            let chosen = selected_entries(entries.deep_view(), selected.deep_view());
            if cancelled && chosen.len() > 0 {
                r matches Err(EngineError::Refused(Refusal::ExtractCancelled))
            } else {
                match first_hazard(chosen, probes.deep_view(), protects_source(overwrite)) {
                    Some(Hazard::Unsafe(p)) => r matches Err(EngineError::UnsafeEntry(s)) && s@ == p,
                    Some(Hazard::SourceConflict) => r matches Err(
                        EngineError::Refused(Refusal::ExtractSourceConflict),
                    ),
                    None => r matches Ok(l) && if selected@.len() == 0 {
                        l is None
                    } else {
                        l matches Some(t) && t@ == list_text(entry_paths(chosen))
                    },
                }
            }
        }),
{
    let chosen = select(entries, selected);
    let ghost cv = chosen.deep_view();
    let ghost pv = probes.deep_view();
    let protected = overwrite == Overwrite::Replace || overwrite == Overwrite::RenameExisting;
    if cancelled && chosen.len() > 0 {
        return Err(EngineError::Refused(Refusal::ExtractCancelled));
    }
    let mut paths: Vec<String> = Vec::new();
    let mut i: usize = 0;
    assert(cv.skip(0) =~= cv);
    assert(pv.skip(0) =~= pv);
    while i < chosen.len()
        invariant
            i <= chosen.len(),
            chosen.len() == probes.len(),
            cv == chosen.deep_view(),
            cv == selected_entries(entries.deep_view(), selected.deep_view()),
            !(cancelled && cv.len() > 0),
            pv == probes.deep_view(),
            protected == protects_source(overwrite),
            first_hazard(cv, pv, protected) == first_hazard(cv.skip(i as int), pv.skip(i as int), protected),
            paths.deep_view() == entry_paths(cv.take(i as int)),
        decreases chosen.len() - i,
    {
        let e = &chosen[i];
        let p = &probes[i];
        assert(cv.skip(i as int)[0] == e@);
        assert(pv.skip(i as int)[0] == p@);
        assert(cv.skip(i as int).drop_first() =~= cv.skip(i + 1));
        assert(pv.skip(i as int).drop_first() =~= pv.skip(i + 1));
        if unsafe_entry(e) {
            return Err(EngineError::UnsafeEntry(e.path.clone()));
        }
        if protected && p.is_source {
            return Err(EngineError::Refused(Refusal::ExtractSourceConflict));
        }
        match &p.reparse_ancestor {
            Some(a) => {
                return Err(EngineError::UnsafeEntry(a.clone()));
            },
            None => {},
        }
        let ghost before = paths.deep_view();
        paths.push(e.path.clone());
        assert(cv.take(i + 1) =~= cv.take(i as int).push(e@));
        assert(paths.deep_view() =~= before.push(e@.path));
        assert(entry_paths(cv.take(i + 1)) =~= entry_paths(cv.take(i as int)).push(e@.path));
        i = i + 1;
    }
    assert(cv.take(i as int) =~= cv);
    assert(cv.skip(i as int) =~= Seq::<EntryView>::empty());
    if selected.len() == 0 {
        Ok(None)
    } else {
        Ok(Some(list_file_text(&paths)))
    }
}

/// The archive that a listing command's outcome describes: the archive at
/// `path`, of `size` bytes, opened as `open_type`, with the entries and
/// format that the listing holds and its warning; or the command's error,
/// or the listing's.
pub fn catalog_of(
    path: String,
    size: u64,
    open_type: Option<OpenType>,
    outcome: Result<Output, EngineError>,
    stream_name: &str,
) -> (r: Result<Catalog, EngineError>)
    ensures
        match outcome {
            Err(e) => r == Err::<Catalog, EngineError>(e),
            Ok(o) => match listing_of(o.text@, stream_name@) {
                Ok((f, es)) => r matches Ok(c) && c.format@ == f && c.entries.deep_view() == es
                    && c.path@ == path@ && c.size == size && c.open_type == open_type && c.warning
                    == o.warning,
                Err(le) => r == Err::<Catalog, EngineError>(EngineError::Listing(le)),
            },
        },
{
    match outcome {
        Err(e) => Err(e),
        Ok(o) => match Catalog::from_listing(path, size, open_type, o.warning, o.text.as_str(), stream_name) {
            Ok(c) => Ok(c),
            Err(le) => Err(EngineError::Listing(le)),
        },
    }
}

impl Engine {
    /// The command that extracts an archive into `destination`; `list_file`
    /// names the file that lists the selected entries, if only some are.
    pub fn extract(
        &self,
        archive: &str,
        open_type: &Option<OpenType>,
        destination: &str,
        password: &str,
        overwrite: Overwrite,
        list_file: Option<&str>,
        progress: bool,
    ) -> (r: Invocation)
        ensures
            invocation_is(
                r,
                self.executable@,
                extract_arguments(
                    overwrite,
                    password@,
                    *open_type,
                    destination@,
                    match list_file {
                        Some(f) => Some(f@),
                        None => None,
                    },
                    archive@,
                    progress,
                ),
                None,
            ),
    {
        let mut args: Vec<String> = Vec::new();
        push_literal(&mut args, "x");
        if progress {
            push_literal(&mut args, "-bsp2");
            push_literal(&mut args, "-bso1");
            push_literal(&mut args, "-bse1");
        }
        push_literal(&mut args, overwrite.argument());
        push_literal(&mut args, "-y");
        push_literal(&mut args, "-sccUTF-8");
        push_literal(&mut args, "-spd");
        push_arg(&mut args, concat("-p", password));
        push_type(&mut args, open_type);
        push_arg(&mut args, concat("-o", destination));
        match list_file {
            Some(f) => {
                push_literal(&mut args, "-scsUTF-8");
                push_arg(&mut args, concat("-i@", f));
            },
            None => {},
        }
        push_literal(&mut args, "--");
        push_literal(&mut args, archive);
        assert(args.deep_view() =~= extract_arguments(
            overwrite,
            password@,
            *open_type,
            destination@,
            match list_file {
                Some(f) => Some(f@),
                None => None,
            },
            archive@,
            progress,
        ));
        self.run_with(args, None)
    }
}

/// Every command that names an archive or a checksum file puts it last,
/// after `--`, so that a name starting with `-` is never read as a switch.
pub proof fn law_paths_follow_double_dash(
    path: Seq<char>,
    open_type: Option<OpenType>,
    password: Seq<char>,
    overwrite: Overwrite,
    destination: Seq<char>,
    list_file: Option<Seq<char>>,
    progress: bool,
)
    ensures
        ({
            let l = list_arguments(path, open_type, password);
            l.len() >= 2 && l[l.len() - 2] == "--"@ && l.last() == path
        }),
        ({
            let t = test_arguments(path, open_type, password);
            t.len() >= 2 && t[t.len() - 2] == "--"@ && t.last() == path
        }),
        ({
            let x = extract_arguments(overwrite, password, open_type, destination, list_file, path, progress);
            x.len() >= 2 && x[x.len() - 2] == "--"@ && x.last() == path
        }),
        ({
            let v = verify_arguments(path);
            v.len() >= 2 && v[v.len() - 2] == "--"@ && v.last() == path
        }),
{
}

/// The formats that hold a single compressed file.
pub open spec fn single_file_format(format: Seq<char>) -> bool {
    format == "gzip"@ || format == "bzip2"@ || format == "xz"@
}

/// The rules checked before an archive is created from `count` sources,
/// the first of them a folder or not, over an existing archive or not.
pub open spec fn create_check(
    format: Seq<char>,
    split: Seq<char>,
    count: nat,
    first_is_dir: bool,
    replacing: bool,
) -> Result<(), Refusal> {
    if count == 0 {
        Err(Refusal::SourceRequired)
    } else if replacing && split != "none"@ {
        Err(Refusal::SplitUpdateUnsupported)
    } else if single_file_format(format) && (count != 1 || first_is_dir) {
        Err(Refusal::SingleFileOnly)
    } else {
        Ok(())
    }
}

/// Checks the rules that come before an archive is created: there are
/// sources; an existing archive is not updated in volumes; the
/// single-file formats get one file.
pub fn check_create(options: &CreateOptions, count: usize, first_is_dir: bool, replacing: bool) -> (r: Result<(), Refusal>)
    ensures
        r == create_check(options.format@, options.split@, count as nat, first_is_dir, replacing),
{
    let format = options.format.as_str();
    if count == 0 {
        Err(Refusal::SourceRequired)
    } else if replacing && !same_text(options.split.as_str(), "none") {
        Err(Refusal::SplitUpdateUnsupported)
    } else if (same_text(format, "gzip") || same_text(format, "bzip2") || same_text(format, "xz")) && (
    count != 1 || first_is_dir) {
        Err(Refusal::SingleFileOnly)
    } else {
        Ok(())
    }
}

/// The password switches of a new archive: the password, hidden names for
/// 7z where asked, AES-256 for zip.
pub open spec fn password_args(o: CreateOptions) -> Seq<Seq<char>> {
    let f = o.format@;
    if o.password@.len() > 0 {
        seq!["-p"@ + o.password@] + (if f == "7z"@ && o.encrypt_names {
            seq!["-mhe=on"@]
        } else {
            seq![]
        }) + (if f == "zip"@ {
            seq!["-mem=AES256"@]
        } else {
            seq![]
        })
    } else {
        seq![]
    }
}

/// The method switches of a new archive, for 7z and zip.
pub open spec fn method_args(o: CreateOptions) -> Seq<Seq<char>> {
    if o.format@ == "7z"@ {
        seq!["-m0="@ + o.method@, if o.solid { "-ms=on"@ } else { "-ms=off"@ }]
    } else if o.format@ == "zip"@ {
        seq!["-mm="@ + o.method@]
    } else {
        seq![]
    }
}

/// The thread and volume switches of a new archive.
pub open spec fn tuning_args(o: CreateOptions) -> Seq<Seq<char>> {
    (if o.threads@ == "auto"@ {
        seq![]
    } else {
        seq!["-mmt="@ + o.threads@]
    }) + (if o.split@ == "none"@ {
        seq![]
    } else {
        seq!["-v"@ + o.split@]
    })
}

/// The arguments that create an archive at `temporary` from the files named
/// in `list_file`, or the refusal of a password for a format without one.
pub open spec fn create_arguments(o: CreateOptions, temporary: Seq<char>, list_file: Seq<char>) -> Result<
    Seq<Seq<char>>,
    Refusal,
> {
    if o.password@.len() > 0 && !(o.format@ == "7z"@ || o.format@ == "zip"@) {
        Err(Refusal::PasswordUnsupported)
    } else {
        Ok(
            seq!["a"@, "-t"@ + o.format@, "-mx="@ + o.level@, "-sccUTF-8"@, "-spd"@] + password_args(o)
                + method_args(o) + tuning_args(o) + seq![
                "-scsUTF-8"@,
                "--"@,
                temporary,
                "@"@ + list_file,
            ],
        )
    }
}

fn push_password_args(args: &mut Vec<String>, o: &CreateOptions)
    ensures
        final(args).deep_view() == old(args).deep_view() + password_args(*o),
{
    let f = o.format.as_str();
    if !o.password.as_str().is_empty() {
        let ghost before = args.deep_view();
        push_arg(args, concat("-p", o.password.as_str()));
        if same_text(f, "7z") && o.encrypt_names {
            push_literal(args, "-mhe=on");
        }
        let ghost middle = args.deep_view();
        if same_text(f, "zip") {
            push_literal(args, "-mem=AES256");
        }
        assert(args.deep_view() =~= before + password_args(*o));
    } else {
        assert(args.deep_view() + seq![] =~= args.deep_view());
    }
}

fn push_method_args(args: &mut Vec<String>, o: &CreateOptions)
    ensures
        final(args).deep_view() == old(args).deep_view() + method_args(*o),
{
    let f = o.format.as_str();
    let ghost before = args.deep_view();
    if same_text(f, "7z") {
        push_arg(args, concat("-m0=", o.method.as_str()));
        push_literal(args, if o.solid { "-ms=on" } else { "-ms=off" });
    } else if same_text(f, "zip") {
        push_arg(args, concat("-mm=", o.method.as_str()));
    }
    assert(args.deep_view() =~= before + method_args(*o));
}

fn push_tuning_args(args: &mut Vec<String>, o: &CreateOptions)
    ensures
        final(args).deep_view() == old(args).deep_view() + tuning_args(*o),
{
    let ghost before = args.deep_view();
    if !same_text(o.threads.as_str(), "auto") {
        push_arg(args, concat("-mmt=", o.threads.as_str()));
    }
    if !same_text(o.split.as_str(), "none") {
        push_arg(args, concat("-v", o.split.as_str()));
    }
    assert(args.deep_view() =~= before + tuning_args(*o));
}

/// Whether an argument could be the switch that hides file names: it
/// starts like `-mh`.
spec fn hide_like(x: Seq<char>) -> bool {
    x.len() >= 3 && x[1] == 'm' && x[2] == 'h'
}

proof fn lemma_none_hide_like(s: Seq<Seq<char>>, t: Seq<Seq<char>>)
    requires
        forall|i: int| 0 <= i < s.len() ==> !hide_like(#[trigger] s[i]),
        forall|i: int| 0 <= i < t.len() ==> !hide_like(#[trigger] t[i]),
    ensures
        forall|i: int| 0 <= i < (s + t).len() ==> !hide_like(#[trigger] (s + t)[i]),
{
    assert forall|i: int| 0 <= i < (s + t).len() implies !hide_like(#[trigger] (s + t)[i]) by {
        if i < s.len() {
            assert((s + t)[i] == s[i]);
        } else {
            assert((s + t)[i] == t[i - s.len()]);
        }
    }
}

/// A new archive hides its file names (`-mhe=on`) exactly when it is a 7z
/// archive with a password and the user asked for hidden names: no other
/// argument before the archive's path is that switch.
pub proof fn law_names_hidden_only_when_asked(o: CreateOptions, temporary: Seq<char>, list_file: Seq<char>)
    ensures
        create_arguments(o, temporary, list_file) matches Ok(a) ==> (a.take(a.len() - 2).contains("-mhe=on"@)
            <==> (o.format@ == "7z"@ && o.password@.len() > 0 && o.encrypt_names)),
{
    reveal_strlit("-mhe=on");
    reveal_strlit("a");
    reveal_strlit("-t");
    reveal_strlit("-mx=");
    reveal_strlit("-sccUTF-8");
    reveal_strlit("-spd");
    reveal_strlit("-p");
    reveal_strlit("-mem=AES256");
    reveal_strlit("-m0=");
    reveal_strlit("-ms=on");
    reveal_strlit("-ms=off");
    reveal_strlit("-mm=");
    reveal_strlit("-mmt=");
    reveal_strlit("-v");
    reveal_strlit("-scsUTF-8");
    reveal_strlit("--");
    reveal_strlit("7z");
    if let Ok(a) = create_arguments(o, temporary, list_file) {
        let head = seq!["a"@, "-t"@ + o.format@, "-mx="@ + o.level@, "-sccUTF-8"@, "-spd"@];
        let pw = password_args(o);
        let me = method_args(o);
        let tu = tuning_args(o);
        let pre = head + pw + me + tu + seq!["-scsUTF-8"@, "--"@];
        assert(a.take(a.len() - 2) =~= pre);
        let cond = o.format@ == "7z"@ && o.password@.len() > 0 && o.encrypt_names;
        assert(hide_like("-mhe=on"@));
        assert forall|i: int| 0 <= i < head.len() implies !hide_like(#[trigger] head[i]) by {
            if i == 1 {
                assert(head[1][1] == 't');
            }
            if i == 2 {
                assert(head[2][2] == 'x');
            }
        }
        assert forall|i: int| 0 <= i < me.len() implies !hide_like(#[trigger] me[i]) by {
            if o.format@ == "7z"@ {
                if i == 0 {
                    assert(me[0][2] == '0');
                }
            } else if o.format@ == "zip"@ {
                assert(me[0][2] == 'm');
            }
        }
        assert forall|i: int| 0 <= i < tu.len() implies !hide_like(#[trigger] tu[i]) by {
            let th = if o.threads@ == "auto"@ { seq![] } else { seq!["-mmt="@ + o.threads@] };
            let sp = if o.split@ == "none"@ { seq![] } else { seq!["-v"@ + o.split@] };
            assert(tu == th + sp);
            if i < th.len() {
                assert(tu[i] == th[i]);
                assert(th[i][2] == 'm');
            } else {
                assert(tu[i] == sp[i - th.len()]);
                assert(sp[i - th.len()][1] == 'v');
            }
        }
        let last = seq!["-scsUTF-8"@, "--"@];
        assert forall|i: int| 0 <= i < last.len() implies !hide_like(#[trigger] last[i]) by {}
        if cond {
            assert(pw[1] == "-mhe=on"@);
            assert(pre[6] == "-mhe=on"@);
        } else {
            assert forall|i: int| 0 <= i < pw.len() implies !hide_like(#[trigger] pw[i]) by {
                if o.password@.len() > 0 {
                    let first = seq!["-p"@ + o.password@];
                    let hidden = if o.format@ == "7z"@ && o.encrypt_names { seq!["-mhe=on"@] } else { seq![] };
                    let aes = if o.format@ == "zip"@ { seq!["-mem=AES256"@] } else { seq![] };
                    assert(pw == first + hidden + aes);
                    assert(hidden.len() == 0);
                    if i == 0 {
                        assert(pw[0][1] == 'p');
                    } else {
                        assert(pw[i] == aes[i - 1]);
                        assert(aes[0][2] == 'e');
                    }
                }
            }
            lemma_none_hide_like(head, pw);
            lemma_none_hide_like(head + pw, me);
            lemma_none_hide_like(head + pw + me, tu);
            lemma_none_hide_like(head + pw + me + tu, last);
            if pre.contains("-mhe=on"@) {
                let k = choose|k: int| 0 <= k < pre.len() && pre[k] == "-mhe=on"@;
                assert(hide_like(pre[k]));
            }
        }
    }
}

/// The name that a new archive is staged under: a split archive drops the
/// `-volumes.zip` that names the bundle of its volumes.
pub open spec fn staged_name(file_name: Seq<char>, split: Seq<char>) -> Seq<char> {
    if split != "none"@ && "-volumes.zip"@.is_suffix_of(file_name) {
        file_name.take(file_name.len() - "-volumes.zip"@.len())
    } else {
        file_name
    }
}

/// The name that a new archive is staged under.
pub fn staged_file_name(file_name: &str, split: &str) -> (r: String)
    ensures
        r@ == staged_name(file_name@, split@),
{
    let name = chars_of(file_name);
    let suffix = chars_of("-volumes.zip");
    if !same_text(split, "none") && suffix.len() <= name.len() && crate::scan::matches_at(
        &name,
        &suffix,
        name.len() - suffix.len(),
    ) {
        assert("-volumes.zip"@.is_suffix_of(file_name@));
        let kept = crate::scan::slice_of(&name, 0, name.len() - suffix.len());
        assert(kept@ =~= file_name@.take(file_name@.len() - "-volumes.zip"@.len()));
        crate::text::string_of(kept.as_slice())
    } else {
        proof {
            if split@ != "none"@ && "-volumes.zip"@.is_suffix_of(file_name@) {
                assert(name@.subrange(
                    name@.len() - suffix@.len(),
                    name@.len() - suffix@.len() + suffix@.len(),
                ) =~= suffix@);
            }
        }
        file_name.to_owned()
    }
}

/// The file that the integrity test of a new archive reads: the archive,
/// or its first volume.
pub open spec fn first_volume(temporary: Seq<char>, split: Seq<char>) -> Seq<char> {
    if split == "none"@ {
        temporary
    } else {
        temporary + ".001"@
    }
}

/// The file that the integrity test of a new archive reads.
pub fn first_volume_path(temporary: &str, split: &str) -> (r: String)
    ensures
        r@ == first_volume(temporary@, split@),
{
    if same_text(split, "none") {
        temporary.to_owned()
    } else {
        concat(temporary, ".001")
    }
}

/// The arguments that store the volumes of a split archive in one
/// uncompressed zip.
pub open spec fn bundle_arguments(bundle: Seq<char>, volumes: Seq<Seq<char>>) -> Seq<Seq<char>> {
    seq!["a"@, "-tzip"@, "-mx=0"@, "-sccUTF-8"@, "--"@, bundle] + volumes
}

/// The arguments that compute checksums of the files named in `list_file`.
pub open spec fn checksum_arguments(method: Seq<char>, list_file: Seq<char>) -> Seq<Seq<char>> {
    seq!["h"@, "-scrc"@ + method, "-sccUTF-8"@, "-scsUTF-8"@, "-spd"@, "-i@"@ + list_file]
}

/// The arguments that write a SHA-256 checksum file at `temporary` for the
/// files named in `list_file`.
pub open spec fn checksum_file_arguments(temporary: Seq<char>, list_file: Seq<char>) -> Seq<Seq<char>> {
    seq![
        "a"@,
        "-thash"@,
        "-scrcSHA256"@,
        "-sccUTF-8"@,
        "-scsUTF-8"@,
        "-spd"@,
        "--"@,
        temporary,
        "@"@ + list_file,
    ]
}

/// The arguments that check the files that a checksum file names.
pub open spec fn verify_arguments(path: Seq<char>) -> Seq<Seq<char>> {
    seq!["t"@, "-thash"@, "-sccUTF-8"@, "--"@, path]
}

impl Engine {
    /// The command that creates an archive at `temporary` from the files
    /// named in `list_file`, or the refusal of a password.
    pub fn create(&self, options: &CreateOptions, temporary: &str, list_file: &str) -> (r: Result<
        Invocation,
        Refusal,
    >)
        ensures
            match create_arguments(*options, temporary@, list_file@) {
                Ok(a) => r matches Ok(i) && invocation_is(i, self.executable@, a, None),
                Err(e) => r == Err::<Invocation, Refusal>(e),
            },
    {
        let f = options.format.as_str();
        if !options.password.as_str().is_empty() && !(same_text(f, "7z") || same_text(f, "zip")) {
            return Err(Refusal::PasswordUnsupported);
        }
        let mut args: Vec<String> = Vec::new();
        push_literal(&mut args, "a");
        push_arg(&mut args, concat("-t", f));
        push_arg(&mut args, concat("-mx=", options.level.as_str()));
        push_literal(&mut args, "-sccUTF-8");
        push_literal(&mut args, "-spd");
        let ghost head = args.deep_view();
        push_password_args(&mut args, options);
        push_method_args(&mut args, options);
        push_tuning_args(&mut args, options);
        let ghost body = args.deep_view();
        push_literal(&mut args, "-scsUTF-8");
        push_literal(&mut args, "--");
        push_literal(&mut args, temporary);
        push_arg(&mut args, concat("@", list_file));
        assert(args.deep_view() =~= body + seq!["-scsUTF-8"@, "--"@, temporary@, "@"@ + list_file@]);
        assert(head =~= seq!["a"@, "-t"@ + options.format@, "-mx="@ + options.level@, "-sccUTF-8"@, "-spd"@]);
        assert(body =~= head + password_args(*options) + method_args(*options) + tuning_args(*options));
        assert(args.deep_view() =~= seq!["a"@, "-t"@ + options.format@, "-mx="@ + options.level@, "-sccUTF-8"@, "-spd"@]
            + password_args(*options) + method_args(*options) + tuning_args(*options) + seq![
            "-scsUTF-8"@,
            "--"@,
            temporary@,
            "@"@ + list_file@,
        ]);
        Ok(self.run_with(args, None))
    }

    /// The command that stores the volumes of a split archive in `bundle`.
    pub fn bundle(&self, bundle: &str, volumes: &Vec<String>) -> (r: Invocation)
        ensures
            invocation_is(r, self.executable@, bundle_arguments(bundle@, volumes.deep_view()), None),
    {
        let mut args: Vec<String> = Vec::new();
        push_literal(&mut args, "a");
        push_literal(&mut args, "-tzip");
        push_literal(&mut args, "-mx=0");
        push_literal(&mut args, "-sccUTF-8");
        push_literal(&mut args, "--");
        push_literal(&mut args, bundle);
        let ghost head = args.deep_view();
        let mut i: usize = 0;
        while i < volumes.len()
            invariant
                i <= volumes.len(),
                args.deep_view() == head + volumes.deep_view().take(i as int),
            decreases volumes.len() - i,
        {
            push_arg(&mut args, volumes[i].clone());
            assert(head + volumes.deep_view().take(i + 1) =~= (head + volumes.deep_view().take(
                i as int,
            )).push(volumes[i as int]@));
            i = i + 1;
        }
        assert(volumes.deep_view().take(i as int) =~= volumes.deep_view());
        assert(args.deep_view() =~= bundle_arguments(bundle@, volumes.deep_view()));
        self.run_with(args, None)
    }

    /// The command that computes checksums with `method` of the files named
    /// in `list_file`.
    pub fn checksum(&self, method: &str, list_file: &str) -> (r: Invocation)
        ensures
            invocation_is(r, self.executable@, checksum_arguments(method@, list_file@), None),
    {
        let mut args: Vec<String> = Vec::new();
        push_literal(&mut args, "h");
        push_arg(&mut args, concat("-scrc", method));
        push_literal(&mut args, "-sccUTF-8");
        push_literal(&mut args, "-scsUTF-8");
        push_literal(&mut args, "-spd");
        push_arg(&mut args, concat("-i@", list_file));
        assert(args.deep_view() =~= checksum_arguments(method@, list_file@));
        self.run_with(args, None)
    }

    /// The command, run in `directory`, that writes a SHA-256 checksum file
    /// at `temporary` for the files named in `list_file`.
    pub fn generate_checksum(&self, temporary: &str, list_file: &str, directory: String) -> (r: Invocation)
        ensures
            invocation_is(
                r,
                self.executable@,
                checksum_file_arguments(temporary@, list_file@),
                Some(directory@),
            ),
    {
        let mut args: Vec<String> = Vec::new();
        push_literal(&mut args, "a");
        push_literal(&mut args, "-thash");
        push_literal(&mut args, "-scrcSHA256");
        push_literal(&mut args, "-sccUTF-8");
        push_literal(&mut args, "-scsUTF-8");
        push_literal(&mut args, "-spd");
        push_literal(&mut args, "--");
        push_literal(&mut args, temporary);
        push_arg(&mut args, concat("@", list_file));
        assert(args.deep_view() =~= checksum_file_arguments(temporary@, list_file@));
        self.run_with(args, Some(directory))
    }

    /// The commands that check the checksum files `sources`, each run in the
    /// directory given beside it.
    pub fn verify_checksums(&self, sources: &Vec<String>, directories: &Vec<Option<String>>) -> (r: Vec<
        Invocation,
    >)
        requires
            sources.len() == directories.len(),
        ensures
            r@.len() == sources@.len(),
            forall|i: int|
                0 <= i < sources@.len() ==> invocation_is(
                    #[trigger] r@[i],
                    self.executable@,
                    verify_arguments(sources@[i]@),
                    match directories@[i] {
                        Some(d) => Some(d@),
                        None => None,
                    },
                ),
    {
        let mut r: Vec<Invocation> = Vec::new();
        let mut i: usize = 0;
        while i < sources.len()
            invariant
                i <= sources.len(),
                sources.len() == directories.len(),
                r@.len() == i,
                forall|j: int|
                    0 <= j < i ==> invocation_is(
                        #[trigger] r@[j],
                        self.executable@,
                        verify_arguments(sources@[j]@),
                        match directories@[j] {
                            Some(d) => Some(d@),
                            None => None,
                        },
                    ),
            decreases sources.len() - i,
        {
            let mut args: Vec<String> = Vec::new();
            push_literal(&mut args, "t");
            push_literal(&mut args, "-thash");
            push_literal(&mut args, "-sccUTF-8");
            push_literal(&mut args, "--");
            push_literal(&mut args, sources[i].as_str());
            assert(args.deep_view() =~= verify_arguments(sources@[i as int]@));
            r.push(self.run_with(args, directories[i].clone()));
            i = i + 1;
        }
        r
    }
}

/// Where the creation of an archive stands: writing it at its staging
/// path, testing it, bundling its volumes, or done.
#[derive(Clone, Copy, Debug, PartialEq, Eq, Structural)]
pub enum CreateStage {
    Writing,
    Testing,
    Bundling,
    Done,
}

/// What the caller does next for an archive being created.
#[derive(Clone, Debug)]
pub enum CreateStep {
    /// Run the command, then report how it ended.
    Run(Invocation),
    /// List the volumes in the staging folder, sorted, and hand them over.
    ListVolumes,
    /// Move `source` to `destination`, replacing what is there or not.
    Publish { source: String, destination: String, replace: bool },
    /// Stop with this refusal.
    Refuse(Refusal),
}

/// An archive being created: written at a staging path, tested, bundled
/// when split, then moved to its destination.
#[derive(Clone, Debug)]
pub struct CreateJob {
    pub stage: CreateStage,
    pub temporary: String,
    pub destination: String,
    pub bundle: String,
    pub password: String,
    pub split: String,
    pub replacing: bool,
}

/// What comes after a command of a creation ended: the next stage, and
/// whether the next step runs a command, lists the volumes, publishes, or
/// refuses.
pub open spec fn create_next(stage: CreateStage, single: bool, warning: bool, cancelled: bool) -> (
    CreateStage,
    Option<Refusal>,
    bool,
) {
    match stage {
        CreateStage::Writing => if warning {
            (CreateStage::Done, Some(Refusal::CreateWarning), false)
        } else {
            (CreateStage::Testing, None, false)
        },
        CreateStage::Testing => if warning {
            (CreateStage::Done, Some(Refusal::IntegrityWarning), false)
        } else if cancelled {
            (CreateStage::Done, Some(Refusal::TaskCancelled), false)
        } else if single {
            (CreateStage::Done, None, true)
        } else {
            (CreateStage::Bundling, None, false)
        },
        _ => if warning {
            (CreateStage::Done, Some(Refusal::VolumeWarning), false)
        } else if cancelled {
            (CreateStage::Done, Some(Refusal::TaskCancelled), false)
        } else {
            (CreateStage::Done, None, true)
        },
    }
}

/// A new archive is only published after its integrity test ended without
/// a warning and the user did not cancel: the test follows a write without
/// warning, bundling follows a clean test, and publishing follows a clean
/// test or a clean bundling. A step that refuses never publishes, so a
/// creation that fails leaves the destination as it was.
pub proof fn law_publish_only_after_clean_test(stage: CreateStage, single: bool, warning: bool, cancelled: bool)
    requires
        stage != CreateStage::Done,
    ensures
        ({
            let (next, refusal, publish) = create_next(stage, single, warning, cancelled);
            &&& publish ==> !warning && !cancelled && (stage == CreateStage::Testing
                || stage == CreateStage::Bundling) && refusal is None && next == CreateStage::Done
            &&& next == CreateStage::Testing ==> stage == CreateStage::Writing && !warning
            &&& next == CreateStage::Bundling ==> stage == CreateStage::Testing && !warning && !cancelled
            &&& (warning ==> refusal is Some && next == CreateStage::Done)
            &&& (refusal is Some ==> !publish && next == CreateStage::Done)
        }),
{
}

impl CreateJob {
    /// Starts creating an archive at `destination` from `count` sources, the
    /// first of them a folder or not, over an existing archive or not: the
    /// rules of [`check_create`] come first and refuse before anything is
    /// written; then the first command writes the archive at `temporary`
    /// from the files named in `list_file`; the volumes of a split archive
    /// are bundled in `bundle`. The destination itself is only ever touched
    /// by the final publishing step.
    pub fn start(
        engine: &Engine,
        options: &CreateOptions,
        count: usize,
        first_is_dir: bool,
        temporary: String,
        list_file: &str,
        destination: String,
        bundle: String,
        replacing: bool,
    ) -> (r: Result<(CreateJob, Invocation), Refusal>)
        ensures
            match create_check(options.format@, options.split@, count as nat, first_is_dir, replacing) {
                Err(e) => r == Err::<(CreateJob, Invocation), Refusal>(e),
                Ok(_) => match create_arguments(*options, temporary@, list_file@) {
                    Ok(a) => r matches Ok((job, i)) && invocation_is(i, engine.executable@, a, None)
                        && job.stage == CreateStage::Writing && job.temporary@ == temporary@
                        && job.destination@ == destination@ && job.bundle@ == bundle@ && job.password@
                        == options.password@ && job.split@ == options.split@ && job.replacing == replacing,
                    Err(e) => r == Err::<(CreateJob, Invocation), Refusal>(e),
                },
            },
    {
        match check_create(options, count, first_is_dir, replacing) {
            Err(e) => {
                return Err(e);
            },
            Ok(_) => {},
        }
        match engine.create(options, temporary.as_str(), list_file) {
            Err(e) => Err(e),
            Ok(invocation) => Ok((
                CreateJob {
                    stage: CreateStage::Writing,
                    temporary,
                    destination,
                    bundle,
                    password: options.password.clone(),
                    split: options.split.clone(),
                    replacing,
                },
                invocation,
            )),
        }
    }

    /// The next step after the running command ended without error, with
    /// or without a warning, the user having cancelled or not: a warning
    /// stops each stage; after the test, a cancel stops too; an archive in
    /// one piece is then published over what it replaces, a split one has
    /// its volumes bundled first and the bundle published.
    pub fn finished(&mut self, engine: &Engine, warning: bool, cancelled: bool) -> (r: CreateStep)
        requires
            old(self).stage != CreateStage::Done,
        ensures
            final(self).temporary == old(self).temporary,
            final(self).destination == old(self).destination,
            final(self).bundle == old(self).bundle,
            final(self).password == old(self).password,
            final(self).split == old(self).split,
            final(self).replacing == old(self).replacing,
            ({
                let (next, refusal, publish) = create_next(
                    old(self).stage,
                    old(self).split@ == "none"@,
                    warning,
                    cancelled,
                );
                &&& final(self).stage == next
                &&& match refusal {
                    Some(e) => r matches CreateStep::Refuse(x) && x == e,
                    None => !(r is Refuse),
                }
                &&& publish == r is Publish
            }),
            old(self).stage == CreateStage::Writing ==> if warning {
                r matches CreateStep::Refuse(Refusal::CreateWarning) && final(self).stage == CreateStage::Done
            } else {
                &&& final(self).stage == CreateStage::Testing
                &&& r matches CreateStep::Run(i) && invocation_is(
                    i,
                    engine.executable@,
                    test_arguments(first_volume(old(self).temporary@, old(self).split@), None, old(self).password@),
                    None,
                )
            },
            old(self).stage == CreateStage::Testing ==> if warning {
                r matches CreateStep::Refuse(Refusal::IntegrityWarning) && final(self).stage == CreateStage::Done
            } else if cancelled {
                r matches CreateStep::Refuse(Refusal::TaskCancelled) && final(self).stage == CreateStage::Done
            } else if old(self).split@ == "none"@ {
                &&& final(self).stage == CreateStage::Done
                &&& r matches CreateStep::Publish { source, destination, replace } && source@ == old(
                    self,
                ).temporary@ && destination@ == old(self).destination@ && replace == old(self).replacing
            } else {
                r matches CreateStep::ListVolumes && final(self).stage == CreateStage::Bundling
            },
            old(self).stage == CreateStage::Bundling ==> final(self).stage == CreateStage::Done && if warning {
                r matches CreateStep::Refuse(Refusal::VolumeWarning)
            } else if cancelled {
                r matches CreateStep::Refuse(Refusal::TaskCancelled)
            } else {
                r matches CreateStep::Publish { source, destination, replace } && source@ == old(
                    self,
                ).bundle@ && destination@ == old(self).destination@ && !replace
            },
    {
        match self.stage {
            CreateStage::Writing => {
                if warning {
                    self.stage = CreateStage::Done;
                    return CreateStep::Refuse(Refusal::CreateWarning);
                }
                self.stage = CreateStage::Testing;
                let first = first_volume_path(self.temporary.as_str(), self.split.as_str());
                CreateStep::Run(engine.test(first.as_str(), self.password.as_str()))
            },
            CreateStage::Testing => {
                if warning {
                    self.stage = CreateStage::Done;
                    return CreateStep::Refuse(Refusal::IntegrityWarning);
                }
                if cancelled {
                    self.stage = CreateStage::Done;
                    return CreateStep::Refuse(Refusal::TaskCancelled);
                }
                if same_text(self.split.as_str(), "none") {
                    self.stage = CreateStage::Done;
                    CreateStep::Publish {
                        source: self.temporary.clone(),
                        destination: self.destination.clone(),
                        replace: self.replacing,
                    }
                } else {
                    self.stage = CreateStage::Bundling;
                    CreateStep::ListVolumes
                }
            },
            _ => {
                self.stage = CreateStage::Done;
                if warning {
                    return CreateStep::Refuse(Refusal::VolumeWarning);
                }
                if cancelled {
                    return CreateStep::Refuse(Refusal::TaskCancelled);
                }
                CreateStep::Publish {
                    source: self.bundle.clone(),
                    destination: self.destination.clone(),
                    replace: false,
                }
            },
        }
    }

    /// The command that bundles the listed volumes.
    pub fn volumes_listed(&self, engine: &Engine, volumes: &Vec<String>) -> (r: Invocation)
        ensures
            invocation_is(r, engine.executable@, bundle_arguments(self.bundle@, volumes.deep_view()), None),
    {
        engine.bundle(self.bundle.as_str(), volumes)
    }
}

/// What the check of one checksum file adds to the report: its output, or,
/// where the command failed, the file and the error. A failure after the
/// user cancelled ends the whole check with that error instead.
pub open spec fn report_step(
    text: Seq<char>,
    warning: bool,
    path: Seq<char>,
    outcome: Result<(Seq<char>, bool), Seq<char>>,
    cancelled: bool,
) -> Option<(Seq<char>, bool)> {
    match outcome {
        Ok((t, w)) => Some((text + t, warning || w)),
        Err(e) => if cancelled {
            None
        } else {
            Some((text + path + seq!['\n'] + e + seq!['\n'], true))
        },
    }
}

/// The report of a check of several checksum files.
#[derive(Clone, Debug)]
pub struct ChecksumReport {
    pub output: Output,
}

impl ChecksumReport {
    /// An empty report.
    pub fn new() -> (r: ChecksumReport)
        ensures
            r.output.text@ == Seq::<char>::empty(),
            !r.output.warning,
    {
        ChecksumReport { output: Output { text: String::new(), warning: false } }
    }

    /// Adds the outcome of checking the file at `path`: its output, or the
    /// text of the error. Returns `false` where the check must stop with
    /// that error, the report then unchanged.
    pub fn record(&mut self, path: &str, outcome: Result<Output, String>, cancelled: bool) -> (r: bool)
        ensures
            ({
                let step = report_step(
                    old(self).output.text@,
                    old(self).output.warning,
                    path@,
                    match outcome {
                        Ok(o) => Ok((o.text@, o.warning)),
                        Err(e) => Err(e@),
                    },
                    cancelled,
                );
                match step {
                    Some((t, w)) => r && final(self).output.text@ == t && final(self).output.warning == w,
                    None => !r && final(self).output.text@ == old(self).output.text@
                        && final(self).output.warning == old(self).output.warning,
                }
            }),
    {
        match outcome {
            Ok(o) => {
                push_text(&mut self.output.text, o.text.as_str());
                self.output.warning = self.output.warning || o.warning;
                true
            },
            Err(e) => {
                if cancelled {
                    return false;
                }
                let ghost before = self.output.text@;
                push_text(&mut self.output.text, path);
                crate::text::push_char(&mut self.output.text, '\n');
                push_text(&mut self.output.text, e.as_str());
                crate::text::push_char(&mut self.output.text, '\n');
                assert(self.output.text@ =~= before + path@ + seq!['\n'] + e@ + seq!['\n']);
                self.output.warning = true;
                true
            },
        }
    }
}

/// What the check of one checksum file gave: its output and warning, or
/// the text of its error.
pub open spec fn check_outcome(outcome: Result<Output, String>) -> Result<(Seq<char>, bool), Seq<char>> {
    match outcome {
        Ok(o) => Ok((o.text@, o.warning)),
        Err(e) => Err(e@),
    }
}

/// The report of checks of the checksum files `paths` that gave
/// `outcomes`, in order: the outputs one after the other, each failure as
/// its file and its error on lines of their own; with a warning where any
/// output had one or any check failed.
pub open spec fn checks_report(paths: Seq<Seq<char>>, outcomes: Seq<Result<(Seq<char>, bool), Seq<char>>>) -> (
    Seq<char>,
    bool,
)
    decreases outcomes.len(),
{
    if outcomes.len() == 0 {
        (seq![], false)
    } else {
        let (t, w) = checks_report(paths.take(outcomes.len() - 1), outcomes.drop_last());
        match outcomes.last() {
            Ok((o, ow)) => (t + o, w || ow),
            Err(e) => (t + paths[outcomes.len() - 1] + seq!['\n'] + e + seq!['\n'], true),
        }
    }
}

/// What the caller does next in a check of checksum files.
#[derive(Clone, Debug)]
pub enum ChecksumStep {
    /// Run the command, then hand over how it ended.
    Run(Invocation),
    /// Stop with this refusal; no further command is started.
    Stop(Refusal),
    /// All files were checked: the report.
    Finished(Output),
}

/// A check of several checksum files, one after the other, each in the
/// directory given beside it, and the report so far.
pub struct ChecksumCheck {
    pub sources: Vec<String>,
    pub directories: Vec<Option<String>>,
    pub done: usize,
    pub report: ChecksumReport,
    pub outcomes: Ghost<Seq<Result<(Seq<char>, bool), Seq<char>>>>,
}

impl ChecksumCheck {
    /// The check is consistent: a directory for each file, the outcomes of
    /// the files checked so far, and the report of exactly those.
    pub open spec fn wf(&self) -> bool {
        &&& self.sources@.len() == self.directories@.len()
        &&& self.done <= self.sources@.len()
        &&& self.outcomes@.len() == self.done
        &&& (self.report.output.text@, self.report.output.warning) == checks_report(
            self.sources.deep_view().take(self.done as int),
            self.outcomes@,
        )
    }

    /// A check of the files `sources`, none checked yet.
    pub fn new(sources: Vec<String>, directories: Vec<Option<String>>) -> (r: ChecksumCheck)
        requires
            sources.len() == directories.len(),
        ensures
            r.wf(),
            r.sources == sources,
            r.directories == directories,
            r.done == 0,
    {
        let report = ChecksumReport::new();
        let outcomes: Ghost<Seq<Result<(Seq<char>, bool), Seq<char>>>> = Ghost(Seq::empty());
        ChecksumCheck { sources, directories, done: 0, report, outcomes }
    }

    /// The next step: the report once every file is checked; else a cancel
    /// stops the check before the next command starts; else the command
    /// that checks the next file, in its directory.
    pub fn next(&self, engine: &Engine, cancelled: bool) -> (r: ChecksumStep)
        requires
            self.wf(),
        ensures
            self.done == self.sources@.len() ==> (r matches ChecksumStep::Finished(o) && (o.text@, o.warning)
                == checks_report(self.sources.deep_view(), self.outcomes@)),
            self.done < self.sources@.len() && cancelled ==> r matches ChecksumStep::Stop(
                Refusal::TaskCancelled,
            ),
            self.done < self.sources@.len() && !cancelled ==> (r matches ChecksumStep::Run(i) && invocation_is(
                i,
                engine.executable@,
                verify_arguments(self.sources@[self.done as int]@),
                match self.directories@[self.done as int] {
                    Some(d) => Some(d@),
                    None => None,
                },
            )),
    {
        if self.done == self.sources.len() {
            assert(self.sources.deep_view().take(self.done as int) =~= self.sources.deep_view());
            return ChecksumStep::Finished(
                Output { text: self.report.output.text.clone(), warning: self.report.output.warning },
            );
        }
        if cancelled {
            return ChecksumStep::Stop(Refusal::TaskCancelled);
        }
        let i = self.done;
        let mut args: Vec<String> = Vec::new();
        push_literal(&mut args, "t");
        push_literal(&mut args, "-thash");
        push_literal(&mut args, "-sccUTF-8");
        push_literal(&mut args, "--");
        push_literal(&mut args, self.sources[i].as_str());
        assert(args.deep_view() =~= verify_arguments(self.sources@[i as int]@));
        ChecksumStep::Run(engine.run_with(args, self.directories[i].clone()))
    }

    /// Records how the command for the next file ended. A failure while
    /// the user has cancelled ends the whole check with that failure:
    /// `false`, nothing recorded. Otherwise the file counts as checked and
    /// the report takes its output, or its name and error.
    pub fn ran(&mut self, outcome: Result<Output, String>, cancelled: bool) -> (r: bool)
        requires
            old(self).wf(),
            old(self).done < old(self).sources@.len(),
        ensures
            final(self).wf(),
            final(self).sources == old(self).sources,
            final(self).directories == old(self).directories,
            r == !(outcome is Err && cancelled),
            r ==> final(self).done == old(self).done + 1 && final(self).outcomes@ == old(self).outcomes@.push(
                check_outcome(outcome),
            ),
            !r ==> final(self).done == old(self).done && final(self).outcomes@ == old(self).outcomes@,
    {
        let ghost paths = self.sources.deep_view();
        let ghost before = self.outcomes@;
        let ghost o = check_outcome(outcome);
        let n = self.done;
        let total = self.sources.len();
        assert(n < total);
        let kept = self.report.record(self.sources[n].as_str(), outcome, cancelled);
        if kept {
            let ghost d = n as int;
            self.done = n + 1;
            let now: Ghost<Seq<Result<(Seq<char>, bool), Seq<char>>>> = Ghost(before.push(o));
            self.outcomes = now;
            proof {
                let now = before.push(o);
                assert(now.drop_last() =~= before);
                assert(paths.take(d + 1).take(now.len() - 1) =~= paths.take(d));
                assert(paths.take(d + 1)[now.len() - 1] == paths[d]);
            }
        }
        kept
    }
}

spec fn key_features(s: Seq<char>) -> (int, int) {
    (s.len() as int, if s.len() > 1 {
        s[1] as int
    } else {
        -1
    })
}

/// Each refusal has a message of its own: no two refusals share a key.
#[verifier::rlimit(50)]
pub proof fn law_refusal_keys_distinct(a: Refusal, b: Refusal)
    ensures
        refusal_key(a) == refusal_key(b) ==> a == b,
{
    reveal_strlit("task-cancelled");
    reveal_strlit("extract-cancelled");
    reveal_strlit("extract-source-conflict");
    reveal_strlit("engine-encoding-invalid");
    reveal_strlit("source-required");
    reveal_strlit("split-update-unsupported");
    reveal_strlit("single-file-only");
    reveal_strlit("password-unsupported");
    reveal_strlit("create-warning");
    reveal_strlit("integrity-warning");
    reveal_strlit("volume-warning");
    reveal_strlit("checksum-warning");
    if refusal_key(a) == refusal_key(b) {
        assert(key_features(refusal_key(a)) == key_features(refusal_key(b)));
    }
}

/// The overwrite choices that may write over a file already at an entry's
/// target (7-Zip's overwrite-all `-aoa` and rename-existing `-aot`) are
/// exactly those for which an extraction first makes sure it does not
/// write over the archive it reads; each choice has a switch of its own,
/// an `-ao` switch.
pub proof fn law_overwrite_switches(a: Overwrite, b: Overwrite)
    ensures
        protects_source(a) <==> (overwrite_switch(a) == "-aoa"@ || overwrite_switch(a) == "-aot"@),
        overwrite_switch(a) == overwrite_switch(b) ==> a == b,
        "-ao"@.is_prefix_of(overwrite_switch(a)) && overwrite_switch(a).len() == 4,
{
    reveal_strlit("-aou");
    reveal_strlit("-aos");
    reveal_strlit("-aoa");
    reveal_strlit("-aot");
    reveal_strlit("-ao");
    assert("-aou"@[3] == 'u' && "-aos"@[3] == 's' && "-aoa"@[3] == 'a' && "-aot"@[3] == 't');
    assert(overwrite_switch(a).subrange(0, 3) =~= "-ao"@);
    if overwrite_switch(a) == overwrite_switch(b) {
        assert(overwrite_switch(a)[3] == overwrite_switch(b)[3]);
    }
}

/// What the command that creates an archive carries from the options: it
/// is refused exactly when a password is given for a format other than 7z
/// and zip; otherwise it adds (`a`) in the chosen format and level, with
/// the password where one is given (AES-256 for zip), the method and the
/// solid choice for 7z, the method for zip, the thread count unless it is
/// automatic, the volume size unless there is one volume, and ends with
/// `--`, the staged archive and the list of sources.
pub proof fn law_create_carries_options(o: CreateOptions, temporary: Seq<char>, list_file: Seq<char>)
    ensures
        create_arguments(o, temporary, list_file) is Err <==> (o.password@.len() > 0 && o.format@ != "7z"@
            && o.format@ != "zip"@),
        create_arguments(o, temporary, list_file) is Err ==> create_arguments(o, temporary, list_file)
            == Err::<Seq<Seq<char>>, Refusal>(Refusal::PasswordUnsupported),
        create_arguments(o, temporary, list_file) matches Ok(a) ==> {
            &&& a[0] == "a"@
            &&& a.contains("-t"@ + o.format@)
            &&& a.contains("-mx="@ + o.level@)
            &&& (o.password@.len() > 0 ==> a.contains("-p"@ + o.password@))
            &&& (o.password@.len() > 0 && o.format@ == "zip"@ ==> a.contains("-mem=AES256"@))
            &&& (o.format@ == "7z"@ ==> a.contains("-m0="@ + o.method@))
            &&& (o.format@ == "7z"@ && o.solid ==> a.contains("-ms=on"@))
            &&& (o.format@ == "7z"@ && !o.solid ==> a.contains("-ms=off"@))
            &&& (o.format@ == "zip"@ ==> a.contains("-mm="@ + o.method@))
            &&& (o.threads@ != "auto"@ ==> a.contains("-mmt="@ + o.threads@))
            &&& (o.split@ != "none"@ ==> a.contains("-v"@ + o.split@))
            &&& a.len() >= 3 && a[a.len() - 3] == "--"@ && a[a.len() - 2] == temporary && a.last() == "@"@
                + list_file
        },
{
    reveal_strlit("7z");
    reveal_strlit("zip");
    if let Ok(a) = create_arguments(o, temporary, list_file) {
        let pw = password_args(o);
        let me = method_args(o);
        let tu = tuning_args(o);
        let n: int = 5 + pw.len() as int;
        assert(a[1] == "-t"@ + o.format@);
        assert(a[2] == "-mx="@ + o.level@);
        if o.password@.len() > 0 {
            assert(a[5] == "-p"@ + o.password@);
            if o.format@ == "zip"@ {
                assert(pw.last() == "-mem=AES256"@);
                assert(a[n - 1] == "-mem=AES256"@);
            }
        }
        if o.format@ == "7z"@ {
            assert(a[n] == "-m0="@ + o.method@);
            assert(a[n + 1] == me[1]);
        }
        if o.format@ == "zip"@ {
            assert(a[n] == "-mm="@ + o.method@);
        }
        let m: int = n + me.len() as int;
        if o.threads@ != "auto"@ {
            assert(a[m] == "-mmt="@ + o.threads@);
        }
        if o.split@ != "none"@ {
            assert(tu.last() == "-v"@ + o.split@);
            assert(a[m + tu.len() - 1] == "-v"@ + o.split@);
        }
    }
}

/// What the command that extracts an archive carries: it extracts (`x`),
/// with the overwrite choice's switch, the password, the forced type where
/// one is given, the destination, the list of selected entries only where
/// there is one, and the archive last after `--`.
pub proof fn law_extract_carries_choices(
    overwrite: Overwrite,
    password: Seq<char>,
    open_type: Option<OpenType>,
    destination: Seq<char>,
    list_file: Option<Seq<char>>,
    archive: Seq<char>,
    progress: bool,
)
    ensures
        ({
            let a = extract_arguments(overwrite, password, open_type, destination, list_file, archive, progress);
            &&& a[0] == "x"@
            &&& a.contains(overwrite_switch(overwrite))
            &&& a.contains("-p"@ + password)
            &&& a.contains("-o"@ + destination)
            &&& (open_type matches Some(t) ==> a.contains("-t"@ + t.value@))
            &&& (list_file matches Some(f) ==> a.contains("-i@"@ + f))
            &&& a.len() >= 2 && a[a.len() - 2] == "--"@ && a.last() == archive
        }),
{
    let a = extract_arguments(overwrite, password, open_type, destination, list_file, archive, progress);
    let s: int = if progress { 4 } else { 1 };
    let ts = type_switch(open_type);
    assert(a[s] == overwrite_switch(overwrite));
    assert(a[s + 4] == "-p"@ + password);
    if let Some(t) = open_type {
        assert(a[s + 5] == "-t"@ + t.value@);
    }
    assert(a[s + 5 + ts.len()] == "-o"@ + destination);
    if let Some(f) = list_file {
        assert(a[s + 7 + ts.len()] == "-i@"@ + f);
    }
}

/// The listing command lists (`l`) technically (`-slt`), and the test
/// command tests (`t`); both give the password, force the type only where
/// one is given, and end with the archive after `--`.
pub proof fn law_list_and_test_commands(path: Seq<char>, open_type: Option<OpenType>, password: Seq<char>)
    ensures
        ({
            let l = list_arguments(path, open_type, password);
            let t = test_arguments(path, open_type, password);
            &&& l[0] == "l"@ && l[1] == "-slt"@ && t[0] == "t"@
            &&& l.contains("-p"@ + password) && t.contains("-p"@ + password)
            &&& l.len() == 6 + type_switch(open_type).len() && t.len() == 5 + type_switch(open_type).len()
            &&& (open_type matches Some(k) ==> l[4] == "-t"@ + k.value@ && t[3] == "-t"@ + k.value@)
            &&& l[l.len() - 2] == "--"@ && l.last() == path && t[t.len() - 2] == "--"@ && t.last() == path
        }),
{
    let l = list_arguments(path, open_type, password);
    let t = test_arguments(path, open_type, password);
    assert(l[3] == "-p"@ + password);
    assert(t[2] == "-p"@ + password);
}

} // verus!
