//! The command line of the program, and the requests that later launches
//! hand to the running window.

use crate::text::same_text;
use vstd::prelude::*;

verus! {

/// A maintenance command, run without opening a window.
#[derive(Clone, Debug)]
pub enum Maintenance {
    /// Register the Explorer integration, with the extension library given
    /// or else the one beside the executable.
    Register(Option<String>),
    /// Remove the Explorer integration.
    Unregister,
    /// Close the running copy installed in the given folder.
    PrepareInstall(Option<String>),
}

/// What the command line asks for.
#[derive(Clone, Debug)]
pub enum Launch {
    /// `--lang` came last, without a language.
    LanguageMissing,
    /// A maintenance command.
    Maintenance { language: Option<String>, command: Maintenance },
    /// The window, with the arguments to hand it; the arguments from
    /// `first_path` on are paths.
    Window { language: Option<String>, arguments: Vec<String>, first_path: usize },
}

pub enum MaintenanceView {
    Register(Option<Seq<char>>),
    Unregister,
    PrepareInstall(Option<Seq<char>>),
}

pub enum LaunchView {
    LanguageMissing,
    Maintenance { language: Option<Seq<char>>, command: MaintenanceView },
    Window { language: Option<Seq<char>>, arguments: Seq<Seq<char>>, first_path: nat },
}

pub open spec fn opt_view(o: Option<String>) -> Option<Seq<char>> {
    match o {
        Some(s) => Some(s@),
        None => None,
    }
}

pub open spec fn launch_view(l: Launch) -> LaunchView {
    match l {
        Launch::LanguageMissing => LaunchView::LanguageMissing,
        Launch::Maintenance { language, command } => LaunchView::Maintenance {
            language: opt_view(language),
            command: match command {
                Maintenance::Register(d) => MaintenanceView::Register(opt_view(d)),
                Maintenance::Unregister => MaintenanceView::Unregister,
                Maintenance::PrepareInstall(d) => MaintenanceView::PrepareInstall(opt_view(d)),
            },
        },
        Launch::Window { language, arguments, first_path } => LaunchView::Window {
            language: opt_view(language),
            arguments: arguments.deep_view(),
            first_path: first_path as nat,
        },
    }
}

/// The first position of `--lang`, from `i` on.
pub open spec fn lang_position(args: Seq<Seq<char>>, i: int) -> Option<int>
    decreases args.len() - i,
{
    if i < 0 || i >= args.len() {
        None
    } else if args[i] == "--lang"@ {
        Some(i)
    } else {
        lang_position(args, i + 1)
    }
}

/// The second argument, where there is one.
pub open spec fn second(args: Seq<Seq<char>>) -> Option<Seq<char>> {
    if args.len() > 1 {
        Some(args[1])
    } else {
        None
    }
}

/// What a command line asks for: `--lang` and the language after it are
/// taken out first; then `--register`, `--unregister` or
/// `--prepare-install` first is a maintenance command with its argument;
/// anything else opens the window, where every argument is a path but a
/// first one that starts with `--`.
pub open spec fn launch_of(args: Seq<Seq<char>>) -> LaunchView {
    let picked = match lang_position(args, 0) {
        Some(i) => if i + 1 == args.len() {
            None
        } else {
            Some((Some(args[i + 1]), args.remove(i + 1).remove(i)))
        },
        None => Some((None, args)),
    };
    match picked {
        None => LaunchView::LanguageMissing,
        Some((language, rest)) => if rest.len() > 0 && rest[0] == "--register"@ {
            LaunchView::Maintenance { language, command: MaintenanceView::Register(second(rest)) }
        } else if rest.len() > 0 && rest[0] == "--unregister"@ {
            LaunchView::Maintenance { language, command: MaintenanceView::Unregister }
        } else if rest.len() > 0 && rest[0] == "--prepare-install"@ {
            LaunchView::Maintenance { language, command: MaintenanceView::PrepareInstall(second(rest)) }
        } else {
            LaunchView::Window {
                language,
                arguments: rest,
                first_path: if rest.len() > 0 && "--"@.is_prefix_of(rest[0]) {
                    1
                } else {
                    0
                },
            }
        },
    }
}

fn starts_with_dashes(s: &str) -> (r: bool)
    ensures
        r == "--"@.is_prefix_of(s@),
{
    let chars = crate::text::chars_of(s);
    let dashes = crate::text::chars_of("--");
    let r = dashes.len() <= chars.len() && crate::scan::matches_at(&chars, &dashes, 0);
    proof {
        if "--"@.is_prefix_of(s@) {
            assert(chars@.subrange(0, dashes@.len() as int) =~= dashes@);
        }
    }
    r
}

fn find_lang(args: &Vec<String>) -> (r: Option<usize>)
    ensures
        match r {
            Some(i) => lang_position(args.deep_view(), 0) == Some(i as int) && i < args.len(),
            None => lang_position(args.deep_view(), 0) is None,
        },
{
    let mut i: usize = 0;
    while i < args.len()
        invariant
            i <= args.len(),
            lang_position(args.deep_view(), 0) == lang_position(args.deep_view(), i as int),
        decreases args.len() - i,
    {
        if same_text(args[i].as_str(), "--lang") {
            return Some(i);
        }
        i = i + 1;
    }
    None
}

/// Reads the command line (without the program's own name).
pub fn parse_launch(args: Vec<String>) -> (r: Launch)
    ensures
        launch_view(r) == launch_of(args.deep_view()),
{
    let ghost given = args.deep_view();
    let mut args = args;
    let found = find_lang(&args);
    let language = match found {
        Some(i) => {
            assert(lang_position(given, 0) == Some(i as int));
            if i + 1 == args.len() {
                return Launch::LanguageMissing;
            }
            let ghost before = args.deep_view();
            let language = args.remove(i + 1);
            assert(args.deep_view() =~= before.remove(i + 1));
            let ghost middle = args.deep_view();
            args.remove(i);
            assert(args.deep_view() =~= middle.remove(i as int));
            Some(language)
        },
        None => None,
    };
    let n = args.len();
    if n > 0 && same_text(args[0].as_str(), "--register") {
        let dll = if n > 1 { Some(args[1].clone()) } else { None };
        return Launch::Maintenance { language, command: Maintenance::Register(dll) };
    }
    if n > 0 && same_text(args[0].as_str(), "--unregister") {
        return Launch::Maintenance { language, command: Maintenance::Unregister };
    }
    if n > 0 && same_text(args[0].as_str(), "--prepare-install") {
        let target = if n > 1 { Some(args[1].clone()) } else { None };
        return Launch::Maintenance { language, command: Maintenance::PrepareInstall(target) };
    }
    let first_path: usize = if n > 0 && starts_with_dashes(args[0].as_str()) { 1 } else { 0 };
    Launch::Window { language, arguments: args, first_path }
}

/// What a launch hands the window: its first argument where that starts
/// with `--`, and the rest as paths; else `--open` and all as paths.
pub open spec fn request_of(args: Seq<Seq<char>>) -> (Seq<char>, Seq<Seq<char>>) {
    if "--"@.is_prefix_of(args[0]) {
        (args[0], args.drop_first())
    } else {
        ("--open"@, args)
    }
}

/// Splits a launch into its action and its paths.
pub fn launch_request(args: &Vec<String>) -> (r: (String, Vec<String>))
    requires
        args.len() > 0,
    ensures
        r.0@ == request_of(args.deep_view()).0,
        r.1.deep_view() == request_of(args.deep_view()).1,
{
    let dashed = starts_with_dashes(args[0].as_str());
    let start: usize = if dashed { 1 } else { 0 };
    let mut paths: Vec<String> = Vec::new();
    let mut i = start;
    while i < args.len()
        invariant
            start <= i <= args.len(),
            paths.deep_view() == args.deep_view().subrange(start as int, i as int),
        decreases args.len() - i,
    {
        let ghost before = paths.deep_view();
        paths.push(args[i].clone());
        assert(paths.deep_view() =~= before.push(args[i as int]@));
        assert(args.deep_view().subrange(start as int, i + 1) =~= args.deep_view().subrange(
            start as int,
            i as int,
        ).push(args[i as int]@));
        i = i + 1;
    }
    if dashed {
        assert(args.deep_view().subrange(1, args.len() as int) =~= args.deep_view().drop_first());
        (args[0].clone(), paths)
    } else {
        assert(args.deep_view().subrange(0, args.len() as int) =~= args.deep_view());
        ("--open".to_owned(), paths)
    }
}

/// The launches queued for the paths after the first, when an action is
/// applied to several archives one after the other: one `[action, path]`
/// each, in the order of the paths.
pub fn queued_launches(action: &str, paths: &Vec<String>) -> (r: Vec<Vec<String>>)
    requires
        paths.len() > 0,
    ensures
        r@.len() == paths@.len() - 1,
        forall|i: int|
            0 <= i < r@.len() ==> #[trigger] r.deep_view()[i] == seq![action@, paths.deep_view()[i + 1]],
{
    let mut r: Vec<Vec<String>> = Vec::new();
    let mut i: usize = 1;
    while i < paths.len()
        invariant
            1 <= i <= paths.len(),
            r@.len() == i - 1,
            forall|k: int|
                0 <= k < r@.len() ==> #[trigger] r.deep_view()[k] == seq![action@, paths.deep_view()[k + 1]],
        decreases paths.len() - i,
    {
        let mut pair: Vec<String> = Vec::new();
        pair.push(action.to_owned());
        pair.push(paths[i].clone());
        assert(pair.deep_view() =~= seq![action@, paths.deep_view()[i as int]]);
        let ghost before = r.deep_view();
        r.push(pair);
        assert(r.deep_view() =~= before.push(seq![action@, paths.deep_view()[i as int]]));
        i = i + 1;
    }
    r
}

} // verus!
