//! How the window takes the launches that reach it from the command line
//! and the Explorer menu: one at a time, when nothing else is under way;
//! an archive opened for an action gets that action once it is open.

use crate::catalog::{same_catalog, Catalog, OpenType, Overwrite};
use crate::history::copy_paths;
use crate::launch::{launch_request, queued_launches, request_of};
use crate::operations::{quick_format_name, QuickFormat, Request};
use crate::scan::{matches_at, slice_of};
use crate::text::{chars_of, same_text, string_of};
use vstd::prelude::*;

verus! {

/// An action of the Explorer menu, or of a launch on the command line.
#[derive(Debug)]
pub enum ShellAction {
    Open,
    OpenAs(OpenType),
    Extract,
    OneClickExtract,
    ExtractFolder,
    ExtractHere,
    Check,
    Compress,
    CompressEmail,
    QuickCompress(QuickFormat, bool),
    Checksum(String),
    GenerateChecksum,
    VerifyChecksum,
}

/// The command-line word of a quick compress.
pub open spec fn quick_word(format: QuickFormat, email: bool) -> Seq<char> {
    "--quick-"@ + quick_format_name(format) + if email {
        "-email"@
    } else {
        seq![]
    }
}

/// The command-line word of each action.
pub open spec fn action_word(a: ShellAction) -> Seq<char> {
    match a {
        ShellAction::Open => "--open"@,
        ShellAction::OpenAs(t) => (if t.parser {
            "--open-as-parser="@
        } else {
            "--open-as="@
        }) + t.value@,
        ShellAction::Extract => "--extract"@,
        ShellAction::OneClickExtract => "--one-click-extract"@,
        ShellAction::ExtractFolder => "--extract-folder"@,
        ShellAction::ExtractHere => "--extract-here"@,
        ShellAction::Check => "--test"@,
        ShellAction::Compress => "--compress"@,
        ShellAction::CompressEmail => "--compress-email"@,
        ShellAction::QuickCompress(f, e) => quick_word(f, e),
        ShellAction::Checksum(m) => "--checksum="@ + m@,
        ShellAction::GenerateChecksum => "--generate-checksum"@,
        ShellAction::VerifyChecksum => "--verify-checksum"@,
    }
}

/// The words that name an action on their own.
pub open spec fn fixed_word(w: Seq<char>) -> bool {
    ||| w == "--open"@
    ||| w == "--extract"@
    ||| w == "--one-click-extract"@
    ||| w == "--extract-folder"@
    ||| w == "--extract-here"@
    ||| w == "--test"@
    ||| w == "--compress"@
    ||| w == "--compress-email"@
    ||| w == quick_word(QuickFormat::SevenZip, false)
    ||| w == quick_word(QuickFormat::SevenZip, true)
    ||| w == quick_word(QuickFormat::Zip, false)
    ||| w == quick_word(QuickFormat::Zip, true)
    ||| w == "--generate-checksum"@
    ||| w == "--verify-checksum"@
}

/// Whether a word names an action: a fixed word, or a word that gives a
/// checksum method or the type to open an archive as.
pub open spec fn action_named(w: Seq<char>) -> bool {
    ||| fixed_word(w)
    ||| "--checksum="@.is_prefix_of(w)
    ||| "--open-as="@.is_prefix_of(w)
    ||| "--open-as-parser="@.is_prefix_of(w)
}

/// Every action has a word that names it, so that the launches queued for
/// an action are read back as that action.
pub proof fn law_every_action_named(a: ShellAction)
    ensures
        action_named(action_word(a)),
{
    reveal_strlit("--quick-");
    reveal_strlit("7z");
    reveal_strlit("zip");
    reveal_strlit("-email");
    reveal_strlit("--quick-7z");
    reveal_strlit("--quick-7z-email");
    reveal_strlit("--quick-zip");
    reveal_strlit("--quick-zip-email");
    match a {
        ShellAction::OpenAs(t) => {
            if t.parser {
                assert(("--open-as-parser="@ + t.value@).subrange(0, "--open-as-parser="@.len() as int)
                    =~= "--open-as-parser="@);
            } else {
                assert(("--open-as="@ + t.value@).subrange(0, "--open-as="@.len() as int) =~= "--open-as="@);
            }
        },
        ShellAction::Checksum(m) => {
            assert(("--checksum="@ + m@).subrange(0, "--checksum="@.len() as int) =~= "--checksum="@);
        },
        ShellAction::QuickCompress(f, e) => {
            assert(quick_word(QuickFormat::SevenZip, false) =~= "--quick-7z"@);
            assert(quick_word(QuickFormat::SevenZip, true) =~= "--quick-7z-email"@);
            assert(quick_word(QuickFormat::Zip, false) =~= "--quick-zip"@);
            assert(quick_word(QuickFormat::Zip, true) =~= "--quick-zip-email"@);
        },
        _ => {},
    }
}

impl ShellAction {
    /// A copy of the action.
    pub fn copy(&self) -> (r: ShellAction)
        ensures
            r == *self,
    {
        match self {
            ShellAction::Open => ShellAction::Open,
            ShellAction::OpenAs(t) => ShellAction::OpenAs(OpenType { value: t.value.clone(), parser: t.parser }),
            ShellAction::Extract => ShellAction::Extract,
            ShellAction::OneClickExtract => ShellAction::OneClickExtract,
            ShellAction::ExtractFolder => ShellAction::ExtractFolder,
            ShellAction::ExtractHere => ShellAction::ExtractHere,
            ShellAction::Check => ShellAction::Check,
            ShellAction::Compress => ShellAction::Compress,
            ShellAction::CompressEmail => ShellAction::CompressEmail,
            ShellAction::QuickCompress(f, e) => ShellAction::QuickCompress(*f, *e),
            ShellAction::Checksum(m) => ShellAction::Checksum(m.clone()),
            ShellAction::GenerateChecksum => ShellAction::GenerateChecksum,
            ShellAction::VerifyChecksum => ShellAction::VerifyChecksum,
        }
    }
}

/// The rest of `text` after `prefix`, where it starts with it.
fn after_prefix(text: &str, prefix: &str) -> (r: Option<String>)
    ensures
        r is Some <==> prefix@.is_prefix_of(text@),
        r matches Some(rest) ==> text@ == prefix@ + rest@,
{
    let t = chars_of(text);
    let p = chars_of(prefix);
    if p.len() <= t.len() && matches_at(&t, &p, 0) {
        let rest = slice_of(&t, p.len(), t.len());
        assert(t@ =~= p@ + rest@);
        Some(string_of(rest.as_slice()))
    } else {
        proof {
            if prefix@.is_prefix_of(text@) {
                assert(t@.subrange(0, p@.len() as int) =~= p@);
            }
        }
        None
    }
}

/// The action that a command-line word names, if any.
pub fn parse_action(argument: &str) -> (r: Option<ShellAction>)
    ensures
        r is Some <==> action_named(argument@),
        r matches Some(a) ==> action_word(a) == argument@,
{
    proof {
        reveal_strlit("--quick-");
        reveal_strlit("7z");
        reveal_strlit("zip");
        reveal_strlit("-email");
        reveal_strlit("--quick-7z");
        reveal_strlit("--quick-7z-email");
        reveal_strlit("--quick-zip");
        reveal_strlit("--quick-zip-email");
    }
    if same_text(argument, "--open") {
        return Some(ShellAction::Open);
    }
    if same_text(argument, "--extract") {
        return Some(ShellAction::Extract);
    }
    if same_text(argument, "--one-click-extract") {
        return Some(ShellAction::OneClickExtract);
    }
    if same_text(argument, "--extract-folder") {
        return Some(ShellAction::ExtractFolder);
    }
    if same_text(argument, "--extract-here") {
        return Some(ShellAction::ExtractHere);
    }
    if same_text(argument, "--test") {
        return Some(ShellAction::Check);
    }
    if same_text(argument, "--compress") {
        return Some(ShellAction::Compress);
    }
    if same_text(argument, "--compress-email") {
        return Some(ShellAction::CompressEmail);
    }
    if same_text(argument, "--quick-7z") {
        assert("--quick-7z"@ =~= quick_word(QuickFormat::SevenZip, false));
        return Some(ShellAction::QuickCompress(QuickFormat::SevenZip, false));
    }
    if same_text(argument, "--quick-7z-email") {
        assert("--quick-7z-email"@ =~= quick_word(QuickFormat::SevenZip, true));
        return Some(ShellAction::QuickCompress(QuickFormat::SevenZip, true));
    }
    if same_text(argument, "--quick-zip") {
        assert("--quick-zip"@ =~= quick_word(QuickFormat::Zip, false));
        return Some(ShellAction::QuickCompress(QuickFormat::Zip, false));
    }
    if same_text(argument, "--quick-zip-email") {
        assert("--quick-zip-email"@ =~= quick_word(QuickFormat::Zip, true));
        return Some(ShellAction::QuickCompress(QuickFormat::Zip, true));
    }
    if same_text(argument, "--generate-checksum") {
        return Some(ShellAction::GenerateChecksum);
    }
    if same_text(argument, "--verify-checksum") {
        return Some(ShellAction::VerifyChecksum);
    }
    proof {
        assert("--quick-7z"@ =~= quick_word(QuickFormat::SevenZip, false));
        assert("--quick-7z-email"@ =~= quick_word(QuickFormat::SevenZip, true));
        assert("--quick-zip"@ =~= quick_word(QuickFormat::Zip, false));
        assert("--quick-zip-email"@ =~= quick_word(QuickFormat::Zip, true));
    }
    match after_prefix(argument, "--checksum=") {
        Some(m) => {
            return Some(ShellAction::Checksum(m));
        },
        None => {},
    }
    match after_prefix(argument, "--open-as-parser=") {
        Some(v) => {
            return Some(ShellAction::OpenAs(OpenType { value: v, parser: true }));
        },
        None => {},
    }
    match after_prefix(argument, "--open-as=") {
        Some(v) => Some(ShellAction::OpenAs(OpenType { value: v, parser: false })),
        None => None,
    }
}

/// The check of a request file that the Explorer menu hands over: it must
/// lie directly in the temporary folder, under a name that starts with the
/// menu's request prefix; else it is refused (`shell-request-invalid`).
pub fn shell_request_allowed(
    parent: Option<&str>,
    file_name: Option<&str>,
    temp_dir: &str,
    prefix: &str,
) -> (r: Result<(), &'static str>)
    ensures
        r is Ok <==> (match parent {
            Some(p) => p@ == temp_dir@,
            None => false,
        }) && (match file_name {
            Some(n) => prefix@.is_prefix_of(n@),
            None => false,
        }),
        r matches Err(k) ==> k@ == "shell-request-invalid"@,
{
    let in_temp = match parent {
        Some(p) => same_text(p, temp_dir),
        None => false,
    };
    let named = match file_name {
        Some(n) => after_prefix(n, prefix).is_some(),
        None => false,
    };
    if in_temp && named {
        Ok(())
    } else {
        Err("shell-request-invalid")
    }
}

/// What the window does for the launch or the pending action it takes.
#[derive(Debug)]
pub enum DispatchAction {
    /// Nothing now.
    Wait,
    /// Show the extraction dialog for the open archive.
    ExtractDialog,
    /// Extract the open archive at once, the way the preferences say.
    QuickExtract,
    /// Carry out the request, with the password.
    Execute(Request, String),
    /// Read the Explorer menu's request file at this path, after
    /// [`shell_request_allowed`], and put its launch first in the queue.
    ReadShellRequest(String),
    /// Show the message of this key.
    Message(&'static str),
    /// The launch's word names no action.
    UnknownAction(String),
    /// Show the dialog that creates an archive from the paths, to be sent
    /// by e-mail or not.
    CreateDialog { paths: Vec<String>, email: bool },
    /// Compute, write or verify checksums of the paths, as the action says.
    Checksums { action: ShellAction, paths: Vec<String> },
}

/// What the window knows when it looks for work: whether something else is
/// under way (a task, settings being saved, preferences being read, a
/// password asked, a request file being read, a context menu open);
/// whether a dialog is open; the action waiting for the archive being
/// opened; the open archive and the folder it lies in; whether extractions
/// open their folder; the archive's password; and the launches waiting,
/// first one first.
pub struct DispatchState {
    pub blocked: bool,
    pub modal_open: bool,
    pub after_open: Option<ShellAction>,
    pub archive: Option<Catalog>,
    pub archive_parent: Option<String>,
    pub open_after: bool,
    pub password: String,
    pub launches: Vec<Vec<String>>,
}

/// Every waiting launch has at least one argument.
pub open spec fn launches_ready(q: Seq<Seq<Seq<char>>>) -> bool {
    forall|i: int| 0 <= i < q.len() ==> #[trigger] q[i].len() > 0
}

/// The launches that apply an action to the paths after the first, one
/// `[word, path]` each, in order.
pub open spec fn follow_ups(word: Seq<char>, paths: Seq<Seq<char>>) -> Seq<Seq<Seq<char>>> {
    Seq::new((paths.len() - 1) as nat, |i: int| seq![word, paths[i + 1]])
}

/// What taking the action waiting for the opened archive does.
pub open spec fn after_open_done(
    a: ShellAction,
    archive: Option<Catalog>,
    parent: Option<String>,
    open_after: bool,
    password: Seq<char>,
    r: DispatchAction,
) -> bool {
    match archive {
        None => r is Wait,
        Some(c) => match a {
            ShellAction::Extract => r is ExtractDialog,
            ShellAction::OneClickExtract | ShellAction::ExtractFolder => r is QuickExtract,
            ShellAction::ExtractHere => match parent {
                None => r is Wait,
                Some(p) => r matches DispatchAction::Execute(
                    Request::Extract { catalog, selected, parent: q, folder, overwrite, open_after: o },
                    pw,
                ) && same_catalog(catalog, c) && selected@.len() == 0 && q@ == p@ && folder@.len() == 0
                    && overwrite == Overwrite::RenameIncoming && o == open_after && pw@ == password,
            },
            ShellAction::Check => r matches DispatchAction::Execute(Request::Check(k), pw) && same_catalog(k, c)
                && pw@ == password,
            _ => r is Wait,
        },
    }
}

/// What a launch of action `a` on `paths` does: without a path it is
/// refused; the create dialog, a quick compress or the checksums take all
/// the paths; any other action opens the first archive, waits to be
/// applied to it, and queues itself for the others, in order.
pub open spec fn launch_done(
    a: ShellAction,
    paths: Seq<Seq<char>>,
    r: DispatchAction,
    after: Option<ShellAction>,
    queued: Seq<Seq<Seq<char>>>,
) -> bool {
    if paths.len() == 0 {
        r matches DispatchAction::Message(k) && k@ == "shell-path-required"@ && after is None && queued.len() == 0
    } else {
        match a {
            ShellAction::Compress | ShellAction::CompressEmail => r matches DispatchAction::CreateDialog {
                paths: p,
                email,
            } && p.deep_view() == paths && email == (a is CompressEmail) && after is None && queued.len() == 0,
            ShellAction::QuickCompress(f, e) => r matches DispatchAction::Execute(
                Request::QuickCompress { paths: p, format, email },
                pw,
            ) && p.deep_view() == paths && format == f && email == e && pw@.len() == 0 && after is None
                && queued.len() == 0,
            ShellAction::Checksum(_) | ShellAction::GenerateChecksum | ShellAction::VerifyChecksum => r matches DispatchAction::Checksums {
                action,
                paths: p,
            } && action == a && p.deep_view() == paths && after is None && queued.len() == 0,
            ShellAction::OpenAs(t) => r matches DispatchAction::Execute(Request::OpenAs(p, k), pw) && p@ == paths[0]
                && k == t && pw@.len() == 0 && after == Some(a) && queued == follow_ups(action_word(a), paths),
            _ => r matches DispatchAction::Execute(Request::Open(p), pw) && p@ == paths[0] && pw@.len() == 0
                && after == Some(a) && queued == follow_ups(action_word(a), paths),
        }
    }
}

fn apply_after_open(
    a: ShellAction,
    archive: &Option<Catalog>,
    parent: &Option<String>,
    open_after: bool,
    password: &String,
) -> (r: DispatchAction)
    ensures
        after_open_done(a, *archive, *parent, open_after, password@, r),
{
    let c = match archive {
        None => {
            return DispatchAction::Wait;
        },
        Some(c) => c,
    };
    match a {
        ShellAction::Extract => DispatchAction::ExtractDialog,
        ShellAction::OneClickExtract | ShellAction::ExtractFolder => DispatchAction::QuickExtract,
        ShellAction::ExtractHere => match parent {
            None => DispatchAction::Wait,
            Some(p) => DispatchAction::Execute(
                Request::Extract {
                    catalog: c.duplicate(),
                    selected: Vec::new(),
                    parent: p.clone(),
                    folder: String::new(),
                    overwrite: Overwrite::RenameIncoming,
                    open_after,
                },
                password.clone(),
            ),
        },
        ShellAction::Check => DispatchAction::Execute(Request::Check(c.duplicate()), password.clone()),
        _ => DispatchAction::Wait,
    }
}

fn apply_launch(a: ShellAction, paths: Vec<String>) -> (r: (DispatchAction, Option<ShellAction>, Vec<Vec<String>>))
    ensures
        launch_done(a, paths.deep_view(), r.0, r.1, r.2.deep_view()),
        launches_ready(r.2.deep_view()),
{
    if paths.len() == 0 {
        return (DispatchAction::Message("shell-path-required"), None, Vec::new());
    }
    match a {
        ShellAction::Compress => (DispatchAction::CreateDialog { paths, email: false }, None, Vec::new()),
        ShellAction::CompressEmail => (DispatchAction::CreateDialog { paths, email: true }, None, Vec::new()),
        ShellAction::QuickCompress(f, e) => (
            DispatchAction::Execute(Request::QuickCompress { paths, format: f, email: e }, String::new()),
            None,
            Vec::new(),
        ),
        ShellAction::Checksum(_) | ShellAction::GenerateChecksum | ShellAction::VerifyChecksum => {
            let action = a.copy();
            (DispatchAction::Checksums { action, paths }, None, Vec::new())
        },
        _ => {
            let word = action_text(&a);
            let queued = queued_launches(word.as_str(), &paths);
            assert(queued.deep_view() =~= follow_ups(action_word(a), paths.deep_view()));
            let first = paths[0].clone();
            let request = match &a {
                ShellAction::OpenAs(t) => Request::OpenAs(first, OpenType { value: t.value.clone(), parser: t.parser }),
                _ => Request::Open(first),
            };
            (DispatchAction::Execute(request, String::new()), Some(a), queued)
        },
    }
}

/// The command-line word of an action.
pub fn action_text(a: &ShellAction) -> (r: String)
    ensures
        r@ == action_word(*a),
{
    proof {
        reveal_strlit("--quick-");
        reveal_strlit("-email");
    }
    match a {
        ShellAction::Open => "--open".to_owned(),
        ShellAction::OpenAs(t) => {
            let head = if t.parser { "--open-as-parser=" } else { "--open-as=" };
            crate::engine::concat(head, t.value.as_str())
        },
        ShellAction::Extract => "--extract".to_owned(),
        ShellAction::OneClickExtract => "--one-click-extract".to_owned(),
        ShellAction::ExtractFolder => "--extract-folder".to_owned(),
        ShellAction::ExtractHere => "--extract-here".to_owned(),
        ShellAction::Check => "--test".to_owned(),
        ShellAction::Compress => "--compress".to_owned(),
        ShellAction::CompressEmail => "--compress-email".to_owned(),
        ShellAction::QuickCompress(f, e) => {
            let w = crate::engine::concat("--quick-", f.value());
            if *e {
                crate::engine::concat(w.as_str(), "-email")
            } else {
                assert(w@ + seq![] =~= w@);
                w
            }
        },
        ShellAction::Checksum(m) => crate::engine::concat("--checksum=", m.as_str()),
        ShellAction::GenerateChecksum => "--generate-checksum".to_owned(),
        ShellAction::VerifyChecksum => "--verify-checksum".to_owned(),
    }
}

fn requeue(front: Vec<Vec<String>>, q: &Vec<Vec<String>>) -> (r: Vec<Vec<String>>)
    requires
        q.len() > 0,
        launches_ready(front.deep_view()),
        launches_ready(q.deep_view()),
    ensures
        r.deep_view() == front.deep_view() + q.deep_view().drop_first(),
        launches_ready(r.deep_view()),
{
    let mut r = front;
    let ghost start = r.deep_view();
    let mut i: usize = 1;
    while i < q.len()
        invariant
            1 <= i <= q.len(),
            launches_ready(q.deep_view()),
            r.deep_view() == start + q.deep_view().subrange(1, i as int),
            launches_ready(r.deep_view()),
        decreases q.len() - i,
    {
        let ghost before = r.deep_view();
        r.push(copy_paths(&q[i]));
        assert(q.deep_view()[i as int].len() > 0);
        assert(r.deep_view() =~= before.push(q.deep_view()[i as int]));
        assert(q.deep_view().subrange(1, i + 1) =~= q.deep_view().subrange(1, i as int).push(
            q.deep_view()[i as int],
        ));
        i = i + 1;
    }
    assert(q.deep_view().subrange(1, i as int) =~= q.deep_view().drop_first());
    r
}

/// Takes the next piece of work, if the window is free for it: nothing
/// while something else is under way; the action waiting for the opened
/// archive first, once no dialog is open (it is taken even where no
/// archive is open then); nothing while a dialog is open; else the first
/// waiting launch, which also shows the file page. A launch with
/// `--shell-request` reads the Explorer menu's request file; any other
/// launch is taken by its action word (`--open` where the first argument
/// is a path), which is returned beside the step.
pub fn dispatch_step(state: &mut DispatchState) -> (r: (bool, Option<ShellAction>, DispatchAction))
    requires
        launches_ready(old(state).launches.deep_view()),
    ensures
        launches_ready(final(state).launches.deep_view()),
        final(state).blocked == old(state).blocked,
        final(state).modal_open == old(state).modal_open,
        final(state).archive == old(state).archive,
        final(state).archive_parent == old(state).archive_parent,
        final(state).open_after == old(state).open_after,
        final(state).password == old(state).password,
        old(state).blocked || old(state).modal_open || (old(state).after_open is None
            && old(state).launches.len() == 0) ==> !r.0 && r.1 is None && r.2 is Wait && final(state).after_open
            == old(state).after_open && final(state).launches.deep_view() == old(state).launches.deep_view(),
        !old(state).blocked && !old(state).modal_open && old(state).after_open is Some ==> !r.0 && r.1 is None
            && final(state).after_open is None && final(state).launches.deep_view() == old(
            state,
        ).launches.deep_view() && after_open_done(
            old(state).after_open->0,
            old(state).archive,
            old(state).archive_parent,
            old(state).open_after,
            old(state).password@,
            r.2,
        ),
        !old(state).blocked && !old(state).modal_open && old(state).after_open is None && old(state).launches.len()
            > 0 ==> r.0 && ({
            let (argument, paths) = request_of(old(state).launches.deep_view()[0]);
            let rest = old(state).launches.deep_view().drop_first();
            let now = final(state).launches.deep_view();
            let queued = now.take(now.len() - rest.len());
            &&& now.len() >= rest.len()
            &&& now.skip(now.len() - rest.len()) == rest
            &&& if argument == "--shell-request"@ {
                &&& r.1 is None
                &&& final(state).after_open is None
                &&& queued.len() == 0
                &&& if paths.len() == 0 {
                    r.2 matches DispatchAction::Message(k) && k@ == "shell-path-required"@
                } else {
                    r.2 matches DispatchAction::ReadShellRequest(p) && p@ == paths[0]
                }
            } else if !action_named(argument) {
                &&& r.1 is None
                &&& final(state).after_open is None
                &&& queued.len() == 0
                &&& r.2 matches DispatchAction::UnknownAction(s) && s@ == argument
            } else {
                &&& r.1 matches Some(a) && action_word(a) == argument
                &&& launch_done(r.1->0, paths, r.2, final(state).after_open, queued)
            }
        }),
{
    if state.blocked {
        return (false, None, DispatchAction::Wait);
    }
    if !state.modal_open && state.after_open.is_some() {
        let mut waiting: Option<ShellAction> = None;
        std::mem::swap(&mut waiting, &mut state.after_open);
        let a = match waiting {
            Some(a) => a,
            None => {
                return (false, None, DispatchAction::Wait);
            },
        };
        let action = apply_after_open(a, &state.archive, &state.archive_parent, state.open_after, &state.password);
        return (false, None, action);
    }
    if state.modal_open || state.launches.len() == 0 {
        return (false, None, DispatchAction::Wait);
    }
    let ghost old_launches = state.launches.deep_view();
    let args = copy_paths(&state.launches[0]);
    assert(old_launches[0].len() > 0);
    let (argument, paths) = launch_request(&args);
    if same_text(argument.as_str(), "--shell-request") {
        let next = requeue(Vec::new(), &state.launches);
        assert(Seq::<Seq<Seq<char>>>::empty() + old_launches.drop_first() =~= old_launches.drop_first());
        state.launches = next;
        proof {
            let now = state.launches.deep_view();
            assert(now.skip(0) =~= now);
            assert(now.take(0) =~= Seq::<Seq<Seq<char>>>::empty());
        }
        if paths.len() == 0 {
            return (true, None, DispatchAction::Message("shell-path-required"));
        }
        let first = paths[0].clone();
        return (true, None, DispatchAction::ReadShellRequest(first));
    }
    match parse_action(argument.as_str()) {
        None => {
            let next = requeue(Vec::new(), &state.launches);
            assert(Seq::<Seq<Seq<char>>>::empty() + old_launches.drop_first() =~= old_launches.drop_first());
            state.launches = next;
            proof {
                let now = state.launches.deep_view();
                assert(now.skip(0) =~= now);
                assert(now.take(0) =~= Seq::<Seq<Seq<char>>>::empty());
            }
            (true, None, DispatchAction::UnknownAction(argument))
        },
        Some(a) => {
            let shown = a.copy();
            let (action, after, queued) = apply_launch(a, paths);
            let ghost q = queued.deep_view();
            let next = requeue(queued, &state.launches);
            state.launches = next;
            state.after_open = after;
            proof {
                let now = state.launches.deep_view();
                let rest = old_launches.drop_first();
                assert(now.take(now.len() - rest.len()) =~= q);
                assert(now.skip(now.len() - rest.len()) =~= rest);
            }
            (true, Some(shown), action)
        },
    }
}

} // verus!
