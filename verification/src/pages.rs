//! The pages of the window and the texts around them.

use crate::browser::CursorKey;
use crate::scan::find_from;
use crate::text::{chars_of, lower_case, push_text, same_text, to_lower};
use vstd::prelude::*;

verus! {

/// A tab of the settings.
#[derive(Clone, Copy, Debug, PartialEq, Eq, Structural)]
pub enum Tab {
    General,
    Advanced,
    Appearance,
    Associations,
}

pub open spec fn tab_order(tab: Tab) -> u8 {
    match tab {
        Tab::General => 1,
        Tab::Appearance => 2,
        Tab::Associations => 3,
        Tab::Advanced => 4,
    }
}

pub open spec fn tab_label(tab: Tab) -> Seq<char> {
    match tab {
        Tab::General => "settings-general"@,
        Tab::Advanced => "settings-advanced"@,
        Tab::Appearance => "settings-appearance"@,
        Tab::Associations => "settings-associations"@,
    }
}

impl Tab {
    /// The place of the tab in the settings, from 1.
    pub fn order(self) -> (r: u8)
        ensures
            r == tab_order(self),
    {
        match self {
            Tab::General => 1,
            Tab::Appearance => 2,
            Tab::Associations => 3,
            Tab::Advanced => 4,
        }
    }

    /// The message key of the tab's title.
    pub fn label(self) -> (r: &'static str)
        ensures
            r@ == tab_label(self),
    {
        match self {
            Tab::General => "settings-general",
            Tab::Advanced => "settings-advanced",
            Tab::Appearance => "settings-appearance",
            Tab::Associations => "settings-associations",
        }
    }
}

/// A page of the window: the file list, or a tab of the settings.
#[derive(Clone, Copy, Debug, PartialEq, Eq, Structural)]
pub enum Page {
    Files,
    Settings(Tab),
}

impl Page {
    /// The place of the page, the file list first; pages slide in from the
    /// side of the later one.
    pub fn order(self) -> (r: u8)
        ensures
            r == match self {
                Page::Files => 0,
                Page::Settings(tab) => tab_order(tab),
            },
    {
        match self {
            Page::Files => 0,
            Page::Settings(tab) => tab.order(),
        }
    }
}

/// Every page has its own place.
pub proof fn law_pages_in_distinct_places(a: Page, b: Page)
    ensures
        a != b ==> (match a {
            Page::Files => 0,
            Page::Settings(t) => tab_order(t),
        }) != (match b {
            Page::Files => 0,
            Page::Settings(t) => tab_order(t),
        }),
{
}

/// Where extracted files go.
#[derive(Clone, Copy, Debug, PartialEq, Eq, Structural)]
pub enum DestinationKind {
    Archive,
    Custom,
    Downloads,
    Desktop,
}

pub open spec fn destination_label(kind: DestinationKind) -> Seq<char> {
    match kind {
        DestinationKind::Archive => "archive-directory"@,
        DestinationKind::Custom => "custom-directory"@,
        DestinationKind::Downloads => "downloads"@,
        DestinationKind::Desktop => "desktop"@,
    }
}

pub open spec fn destination_icon(kind: DestinationKind) -> Seq<char> {
    match kind {
        DestinationKind::Archive | DestinationKind::Custom => "FolderOpen"@,
        DestinationKind::Downloads => "ArrowDownload"@,
        DestinationKind::Desktop => "Desktop"@,
    }
}

impl DestinationKind {
    /// The message key of the choice.
    pub fn label(self) -> (r: &'static str)
        ensures
            r@ == destination_label(self),
    {
        match self {
            DestinationKind::Archive => "archive-directory",
            DestinationKind::Custom => "custom-directory",
            DestinationKind::Downloads => "downloads",
            DestinationKind::Desktop => "desktop",
        }
    }

    /// The name of the choice's icon.
    pub fn icon(self) -> (r: &'static str)
        ensures
            r@ == destination_icon(self),
    {
        match self {
            DestinationKind::Archive | DestinationKind::Custom => "FolderOpen",
            DestinationKind::Downloads => "ArrowDownload",
            DestinationKind::Desktop => "Desktop",
        }
    }
}

impl DeepView for DestinationKind {
    type V = DestinationKind;

    open spec fn deep_view(&self) -> DestinationKind {
        *self
    }
}

/// The first destination of a kind, from position `i` on.
pub open spec fn kind_position(d: Seq<(DestinationKind, Seq<char>)>, kind: DestinationKind, i: int) -> Option<int>
    decreases d.len() - i,
{
    if i < 0 || i >= d.len() {
        None
    } else if d[i].0 == kind {
        Some(i)
    } else {
        kind_position(d, kind, i + 1)
    }
}

/// Puts a folder among the destinations as the one of its kind: in place
/// of that kind's entry, or after the others where there is none. Returns
/// its position, which becomes the chosen destination. A folder the user
/// picks is the custom one; the folder of an opened archive is the
/// archive's one.
pub fn set_destination(destinations: &mut Vec<(DestinationKind, String)>, kind: DestinationKind, path: String) -> (r: usize)
    ensures
        match kind_position(old(destinations).deep_view(), kind, 0) {
            Some(i) => r == i && final(destinations).deep_view() == old(destinations).deep_view().update(
                i,
                (kind, path@),
            ),
            None => r == old(destinations)@.len() && final(destinations).deep_view() == old(
                destinations,
            ).deep_view().push((kind, path@)),
        },
{
    let ghost before = destinations.deep_view();
    let mut i: usize = 0;
    while i < destinations.len()
        invariant
            i <= destinations.len(),
            before == destinations.deep_view(),
            before == old(destinations).deep_view(),
            kind_position(before, kind, 0) == kind_position(before, kind, i as int),
        decreases destinations.len() - i,
    {
        if destinations[i].0 == kind {
            assert(before[i as int] == destinations@[i as int].deep_view());
            assert(before[i as int].0 == kind);
            assert(kind_position(before, kind, i as int) == Some(i as int));
            destinations.set(i, (kind, path));
            assert(destinations.deep_view() =~= before.update(i as int, (kind, path@)));
            return i;
        }
        assert(before[i as int] == destinations@[i as int].deep_view());
        i = i + 1;
    }
    let n = destinations.len();
    destinations.push((kind, path));
    assert(destinations.deep_view() =~= before.push((kind, path@)));
    n
}

/// A command that a key press runs on the file list.
#[derive(Clone, Copy, Debug, PartialEq, Eq, Structural)]
pub enum KeyCommand {
    Open,
    Save,
    Extract,
    Add,
    Properties,
    Comment,
    Check,
    Help,
}

/// The command of a key with its modifiers: Ctrl+O opens, Ctrl+Shift+S
/// saves a copy, Alt with E, A, I, M or T (Shift or not) extracts, adds,
/// shows the properties, edits the comment or checks, F1 without Ctrl or
/// Alt shows help.
pub open spec fn key_command_of(control: bool, alt: bool, shift: bool, key: Seq<char>) -> Option<KeyCommand> {
    if control && !alt && !shift && key == "o"@ {
        Some(KeyCommand::Open)
    } else if control && !alt && shift && key == "s"@ {
        Some(KeyCommand::Save)
    } else if !control && alt && key == "e"@ {
        Some(KeyCommand::Extract)
    } else if !control && alt && key == "a"@ {
        Some(KeyCommand::Add)
    } else if !control && alt && key == "i"@ {
        Some(KeyCommand::Properties)
    } else if !control && alt && key == "m"@ {
        Some(KeyCommand::Comment)
    } else if !control && alt && key == "t"@ {
        Some(KeyCommand::Check)
    } else if !control && !alt && key == "f1"@ {
        Some(KeyCommand::Help)
    } else {
        None
    }
}

/// The command of a key with its modifiers.
pub fn key_command(control: bool, alt: bool, shift: bool, key: &str) -> (r: Option<KeyCommand>)
    ensures
        r == key_command_of(control, alt, shift, key@),
{

    if control && !alt && !shift && same_text(key, "o") {
        Some(KeyCommand::Open)
    } else if control && !alt && shift && same_text(key, "s") {
        Some(KeyCommand::Save)
    } else if !control && alt && same_text(key, "e") {
        Some(KeyCommand::Extract)
    } else if !control && alt && same_text(key, "a") {
        Some(KeyCommand::Add)
    } else if !control && alt && same_text(key, "i") {
        Some(KeyCommand::Properties)
    } else if !control && alt && same_text(key, "m") {
        Some(KeyCommand::Comment)
    } else if !control && alt && same_text(key, "t") {
        Some(KeyCommand::Check)
    } else if !control && !alt && same_text(key, "f1") {
        Some(KeyCommand::Help)
    } else {
        None
    }
}

/// What happens to the notice at the bottom of the window on a tick of the
/// window's timer.
#[derive(Clone, Copy, Debug, PartialEq, Eq, Structural)]
pub enum NoticeStep {
    /// A new notice: its time starts now.
    Restart,
    /// The notice has been shown for six seconds: it goes.
    Clear,
    /// Nothing changes.
    Keep,
    /// No notice: forget when the last one started.
    Forget,
}

/// What happens to the notice on a tick: `shown` is the notice, `timed` the
/// notice whose time is running, `elapsed` how long it has run, in seconds.
pub open spec fn notice_step_of(shown: Option<Seq<char>>, timed: Option<Seq<char>>, elapsed: nat) -> NoticeStep {
    match shown {
        None => NoticeStep::Forget,
        Some(m) => if timed != Some(m) {
            NoticeStep::Restart
        } else if elapsed >= 6 {
            NoticeStep::Clear
        } else {
            NoticeStep::Keep
        },
    }
}

/// What happens to the notice on a tick.
pub fn notice_step(shown: &Option<String>, timed: &Option<String>, elapsed: u64) -> (r: NoticeStep)
    ensures
        r == notice_step_of(shown.deep_view(), timed.deep_view(), elapsed as nat),
{
    match shown {
        None => NoticeStep::Forget,
        Some(m) => {
            let same = match timed {
                Some(t) => same_text(t.as_str(), m.as_str()),
                None => false,
            };
            if !same {
                NoticeStep::Restart
            } else if elapsed >= 6 {
                NoticeStep::Clear
            } else {
                NoticeStep::Keep
            }
        },
    }
}

/// The window's title: the name of the archive or folder shown, or the
/// program's name alone.
pub open spec fn title_of(name: Option<Seq<char>>) -> Seq<char> {
    match name {
        Some(n) => n + " - 7zplus"@,
        None => "7zplus"@,
    }
}

/// The window's title; `name` is the file name of the archive or folder
/// shown (its whole path where it has no name), if any.
pub fn window_title(name: Option<&str>) -> (r: String)
    ensures
        r@ == title_of(match name {
            Some(n) => Some(n@),
            None => None,
        }),
{
    match name {
        Some(n) => {
            let mut r = String::new();
            push_text(&mut r, n);
            push_text(&mut r, " - 7zplus");
            assert(r@ =~= n@ + " - 7zplus"@);
            r
        },
        None => "7zplus".to_owned(),
    }
}

/// The positions of the recent archives that a search shows: those whose
/// lower-cased path holds the lower-cased search text, in order.
pub fn matching_recent(paths: &Vec<String>, search: &str) -> (r: Vec<usize>)
    ensures
        forall|k: int| 0 <= k < r@.len() ==> #[trigger] r@[k] < paths@.len(),
        forall|k: int, l: int| 0 <= k < l < r@.len() ==> r@[k] < r@[l],
        forall|i: int|
            0 <= i < paths@.len() ==> (r@.contains(i as usize) <==> find_from(
                lower_case(#[trigger] paths@[i]@),
                lower_case(search@),
                0,
            ) is Some),
{
    let query = to_lower(search);
    let q = chars_of(query.as_str());
    let mut r: Vec<usize> = Vec::new();
    let mut i: usize = 0;
    while i < paths.len()
        invariant
            i <= paths.len(),
            q@ == lower_case(search@),
            forall|k: int| 0 <= k < r@.len() ==> #[trigger] r@[k] < i,
            forall|k: int, l: int| 0 <= k < l < r@.len() ==> r@[k] < r@[l],
            forall|j: int|
                0 <= j < i ==> (r@.contains(j as usize) <==> find_from(
                    lower_case(#[trigger] paths@[j]@),
                    q@,
                    0,
                ) is Some),
        decreases paths.len() - i,
    {
        let lowered = to_lower(paths[i].as_str());
        let name = chars_of(lowered.as_str());
        let found = crate::scan::find_at(&name, &q, 0).is_some();
        let ghost before = r@;
        if found {
            r.push(i);
        }
        assert forall|j: int|
            0 <= j < i + 1 implies (r@.contains(j as usize) <==> find_from(
                lower_case(#[trigger] paths@[j]@),
                q@,
                0,
            ) is Some) by {
            if j < i {
                if r@.contains(j as usize) {
                    let k = choose|k: int| 0 <= k < r@.len() && r@[k] == j as usize;
                    if found && k == before.len() {
                    } else {
                        assert(before[k] == j as usize);
                    }
                }
                if before.contains(j as usize) {
                    let k = choose|k: int| 0 <= k < before.len() && before[k] == j as usize;
                    assert(r@[k] == j as usize);
                }
            } else {
                if found {
                    assert(r@[before.len() as int] == i);
                } else if r@.contains(j as usize) {
                    let k = choose|k: int| 0 <= k < r@.len() && r@[k] == j as usize;
                    assert(before[k] < i);
                }
            }
        }
        i = i + 1;
    }
    r
}

/// What the window is doing when a key is pressed: a context menu or a
/// dialog open, a task under way, which page shows, where the focus is
/// (the address bar, the file list), whether the search is empty, whether
/// a folder of the disk is shown, whether there are rows, whether exactly
/// one row is selected, and whether a row has the cursor.
#[derive(Clone, Copy, Debug, PartialEq, Eq, Structural)]
pub struct KeyContext {
    pub context_menu: bool,
    pub busy: bool,
    pub modal_open: bool,
    pub files_page: bool,
    pub address_focused: bool,
    pub list_focused: bool,
    pub search_empty: bool,
    pub directory_shown: bool,
    pub has_rows: bool,
    pub one_row_selected: bool,
    pub has_cursor: bool,
}

/// What a key press does.
#[derive(Clone, Copy, Debug, PartialEq, Eq, Structural)]
pub enum KeyAction {
    Ignore,
    /// Leave the address bar for the file list, dropping what was typed.
    LeaveAddress,
    CloseDialog,
    ShowFiles,
    ClearSearch,
    ClearSelection,
    SaveSettings,
    Command(KeyCommand),
    FocusAddress,
    FocusSearch,
    Back,
    Up,
    Refresh,
    ContextMenu,
    SelectAll,
    MoveCursor(CursorKey),
    OpenSelected,
    ToggleCursor,
}

/// What a key does: nothing while a context menu is open. Escape does
/// nothing while a task runs, else undoes one thing, in this order: it
/// leaves the address bar, closes the dialog, returns to the files,
/// clears the search, clears the selection. Other keys do nothing under a
/// dialog; on a settings page only Ctrl+S saves. On the files, the command
/// keys come first, then Ctrl+L (not while busy) and Ctrl+F; the rest only
/// act when the file list has the focus and no task runs: Alt+Left goes
/// back, Backspace or Alt+Up goes up, F5 reloads a folder of the disk, the
/// menu key or Shift+F10 opens the context menu, Ctrl+A selects all, the
/// cursor keys move over the rows, Enter opens the one selected row, and
/// Space toggles the row under the cursor.
pub open spec fn key_action_of(c: KeyContext, control: bool, alt: bool, shift: bool, key: Seq<char>) -> KeyAction {
    if c.context_menu {
        KeyAction::Ignore
    } else if key == "escape"@ {
        if c.busy {
            KeyAction::Ignore
        } else if c.address_focused {
            KeyAction::LeaveAddress
        } else if c.modal_open {
            KeyAction::CloseDialog
        } else if !c.files_page {
            KeyAction::ShowFiles
        } else if !c.search_empty {
            KeyAction::ClearSearch
        } else {
            KeyAction::ClearSelection
        }
    } else if c.modal_open {
        KeyAction::Ignore
    } else if !c.files_page {
        if control && key == "s"@ {
            KeyAction::SaveSettings
        } else {
            KeyAction::Ignore
        }
    } else if key_command_of(control, alt, shift, key) is Some {
        KeyAction::Command(key_command_of(control, alt, shift, key)->0)
    } else if control && key == "l"@ && !c.busy {
        KeyAction::FocusAddress
    } else if control && key == "f"@ {
        KeyAction::FocusSearch
    } else if !c.list_focused || c.busy {
        KeyAction::Ignore
    } else if alt && key == "left"@ {
        KeyAction::Back
    } else if key == "backspace"@ || (alt && key == "up"@) {
        KeyAction::Up
    } else if key == "f5"@ && c.directory_shown {
        KeyAction::Refresh
    } else if key == "contextmenu"@ || (shift && key == "f10"@) {
        KeyAction::ContextMenu
    } else if control && key == "a"@ {
        KeyAction::SelectAll
    } else if c.has_rows && (key == "up"@ || key == "down"@ || key == "home"@ || key == "end"@) {
        KeyAction::MoveCursor(
            if key == "up"@ {
                CursorKey::Up
            } else if key == "down"@ {
                CursorKey::Down
            } else if key == "home"@ {
                CursorKey::Home
            } else {
                CursorKey::End
            },
        )
    } else if key == "enter"@ && c.one_row_selected {
        KeyAction::OpenSelected
    } else if key == "space"@ && c.has_cursor {
        KeyAction::ToggleCursor
    } else {
        KeyAction::Ignore
    }
}

/// What a key does in the window.
pub fn key_action(c: KeyContext, control: bool, alt: bool, shift: bool, key: &str) -> (r: KeyAction)
    ensures
        r == key_action_of(c, control, alt, shift, key@),
{
    if c.context_menu {
        return KeyAction::Ignore;
    }
    if same_text(key, "escape") {
        return if c.busy {
            KeyAction::Ignore
        } else if c.address_focused {
            KeyAction::LeaveAddress
        } else if c.modal_open {
            KeyAction::CloseDialog
        } else if !c.files_page {
            KeyAction::ShowFiles
        } else if !c.search_empty {
            KeyAction::ClearSearch
        } else {
            KeyAction::ClearSelection
        };
    }
    if c.modal_open {
        return KeyAction::Ignore;
    }
    if !c.files_page {
        return if control && same_text(key, "s") {
            KeyAction::SaveSettings
        } else {
            KeyAction::Ignore
        };
    }
    match key_command(control, alt, shift, key) {
        Some(k) => {
            return KeyAction::Command(k);
        },
        None => {},
    }
    if control && same_text(key, "l") && !c.busy {
        return KeyAction::FocusAddress;
    }
    if control && same_text(key, "f") {
        return KeyAction::FocusSearch;
    }
    if !c.list_focused || c.busy {
        return KeyAction::Ignore;
    }
    if alt && same_text(key, "left") {
        return KeyAction::Back;
    }
    if same_text(key, "backspace") || (alt && same_text(key, "up")) {
        return KeyAction::Up;
    }
    if same_text(key, "f5") && c.directory_shown {
        return KeyAction::Refresh;
    }
    if same_text(key, "contextmenu") || (shift && same_text(key, "f10")) {
        return KeyAction::ContextMenu;
    }
    if control && same_text(key, "a") {
        return KeyAction::SelectAll;
    }
    if c.has_rows {
        if same_text(key, "up") {
            return KeyAction::MoveCursor(CursorKey::Up);
        }
        if same_text(key, "down") {
            return KeyAction::MoveCursor(CursorKey::Down);
        }
        if same_text(key, "home") {
            return KeyAction::MoveCursor(CursorKey::Home);
        }
        if same_text(key, "end") {
            return KeyAction::MoveCursor(CursorKey::End);
        }
    }
    if same_text(key, "enter") && c.one_row_selected {
        return KeyAction::OpenSelected;
    }
    if same_text(key, "space") && c.has_cursor {
        return KeyAction::ToggleCursor;
    }
    KeyAction::Ignore
}

/// Which key runs each command, over every key and modifier: Ctrl+O alone
/// opens; Ctrl+Shift+S saves a copy; Alt (Shift or not, without Ctrl) with
/// E extracts, with A adds, with I shows the properties, with M edits the
/// comment, with T checks; F1 (Shift or not, without Ctrl or Alt) shows
/// help. Nothing else runs a command.
pub proof fn law_command_keys(control: bool, alt: bool, shift: bool, key: Seq<char>)
    ensures
        key_command_of(control, alt, shift, key) == Some(KeyCommand::Open) <==> (control && !alt && !shift && key
            == "o"@),
        key_command_of(control, alt, shift, key) == Some(KeyCommand::Save) <==> (control && !alt && shift && key
            == "s"@),
        key_command_of(control, alt, shift, key) == Some(KeyCommand::Extract) <==> (!control && alt && key
            == "e"@),
        key_command_of(control, alt, shift, key) == Some(KeyCommand::Add) <==> (!control && alt && key == "a"@),
        key_command_of(control, alt, shift, key) == Some(KeyCommand::Properties) <==> (!control && alt && key
            == "i"@),
        key_command_of(control, alt, shift, key) == Some(KeyCommand::Comment) <==> (!control && alt && key
            == "m"@),
        key_command_of(control, alt, shift, key) == Some(KeyCommand::Check) <==> (!control && alt && key
            == "t"@),
        key_command_of(control, alt, shift, key) == Some(KeyCommand::Help) <==> (!control && !alt && key
            == "f1"@),
{
    reveal_strlit("o");
    reveal_strlit("s");
    reveal_strlit("e");
    reveal_strlit("a");
    reveal_strlit("i");
    reveal_strlit("m");
    reveal_strlit("t");
    reveal_strlit("f1");
    assert("o"@ =~= seq!['o']);
    assert("s"@ =~= seq!['s']);
    assert("e"@ =~= seq!['e']);
    assert("a"@ =~= seq!['a']);
    assert("i"@ =~= seq!['i']);
    assert("m"@ =~= seq!['m']);
    assert("t"@ =~= seq!['t']);
    assert("f1"@ =~= seq!['f', '1']);
    if key.len() == 1 {
        assert(key =~= seq![key[0]]);
    }
}

/// Escape never acts while a context menu is open or a task runs;
/// otherwise it always undoes something, and what it undoes is the first
/// of these that applies: the address bar loses the focus, the dialog
/// closes, the file page comes back, the search is cleared, the selection
/// is cleared. No other key acts under a dialog or a context menu.
pub proof fn law_escape_undoes_one_thing(c: KeyContext, control: bool, alt: bool, shift: bool, key: Seq<char>)
    ensures
        key == "escape"@ ==> (key_action_of(c, control, alt, shift, key) == KeyAction::Ignore <==> (c.context_menu
            || c.busy)),
        key == "escape"@ && !c.context_menu && !c.busy ==> (key_action_of(c, control, alt, shift, key)
            == KeyAction::LeaveAddress <==> c.address_focused),
        key == "escape"@ && !c.context_menu && !c.busy && !c.address_focused ==> (key_action_of(
            c,
            control,
            alt,
            shift,
            key,
        ) == KeyAction::CloseDialog <==> c.modal_open),
        key == "escape"@ && !c.context_menu && !c.busy && !c.address_focused && !c.modal_open ==> (key_action_of(
            c,
            control,
            alt,
            shift,
            key,
        ) == KeyAction::ShowFiles <==> !c.files_page),
        key == "escape"@ && !c.context_menu && !c.busy && !c.address_focused && !c.modal_open && c.files_page
            ==> (key_action_of(c, control, alt, shift, key) == KeyAction::ClearSearch <==> !c.search_empty),
        key != "escape"@ && (c.context_menu || c.modal_open) ==> key_action_of(c, control, alt, shift, key)
            == KeyAction::Ignore,
{
}

} // verus!
