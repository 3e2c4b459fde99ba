//! Configurable keyboard shortcuts: their defaults, how a user's settings
//! override them, how they are shown, and which key combinations are accepted.

use crate::text::{
    all_digits, chars_of, digits_value, is_ascii_alphanumeric, parse_byte, parse_u8, push_text, same_text, to_upper,
    upper_case,
};
use crate::pages::{key_command_of, KeyCommand};
use vstd::prelude::*;

verus! {

/// A command that can be bound to a keyboard shortcut.
#[derive(Clone, Copy, Debug, PartialEq, Eq, PartialOrd, Ord, Hash, Structural)]
pub enum ShortcutAction {
    Open,
    Create,
    Save,
    Extract,
    QuickExtract,
    Add,
    AddFolder,
    ArchiveInfo,
    Comment,
    Check,
    Rename,
    CopyTo,
    MoveTo,
    Delete,
    Properties,
    Refresh,
    SelectAll,
    DeselectAll,
    InvertSelection,
    Home,
    Browse,
    Back,
    Up,
    FocusAddress,
    FocusSearch,
    Application,
    System,
    Advanced,
    About,
    SortName,
    SortModified,
    SortType,
    SortSize,
}

/// A key combination as the contracts see it: the key's name and the
/// Control, Shift and Alt modifiers, in that order.
pub type Chord = (Seq<char>, bool, bool, bool);

/// Every action, in the order in which settings are checked.
pub open spec fn all_actions() -> Seq<ShortcutAction> {
    seq![
        ShortcutAction::Open,
        ShortcutAction::Create,
        ShortcutAction::Save,
        ShortcutAction::Extract,
        ShortcutAction::QuickExtract,
        ShortcutAction::Add,
        ShortcutAction::AddFolder,
        ShortcutAction::ArchiveInfo,
        ShortcutAction::Comment,
        ShortcutAction::Check,
        ShortcutAction::Rename,
        ShortcutAction::CopyTo,
        ShortcutAction::MoveTo,
        ShortcutAction::Delete,
        ShortcutAction::Properties,
        ShortcutAction::Refresh,
        ShortcutAction::SelectAll,
        ShortcutAction::DeselectAll,
        ShortcutAction::InvertSelection,
        ShortcutAction::Home,
        ShortcutAction::Browse,
        ShortcutAction::Back,
        ShortcutAction::Up,
        ShortcutAction::FocusAddress,
        ShortcutAction::FocusSearch,
        ShortcutAction::Application,
        ShortcutAction::System,
        ShortcutAction::Advanced,
        ShortcutAction::About,
        ShortcutAction::SortName,
        ShortcutAction::SortModified,
        ShortcutAction::SortType,
        ShortcutAction::SortSize,
    ]
}

/// The position of an action in [`all_actions`].
pub open spec fn action_code(action: ShortcutAction) -> int {
    match action {
        ShortcutAction::Open => 0,
        ShortcutAction::Create => 1,
        ShortcutAction::Save => 2,
        ShortcutAction::Extract => 3,
        ShortcutAction::QuickExtract => 4,
        ShortcutAction::Add => 5,
        ShortcutAction::AddFolder => 6,
        ShortcutAction::ArchiveInfo => 7,
        ShortcutAction::Comment => 8,
        ShortcutAction::Check => 9,
        ShortcutAction::Rename => 10,
        ShortcutAction::CopyTo => 11,
        ShortcutAction::MoveTo => 12,
        ShortcutAction::Delete => 13,
        ShortcutAction::Properties => 14,
        ShortcutAction::Refresh => 15,
        ShortcutAction::SelectAll => 16,
        ShortcutAction::DeselectAll => 17,
        ShortcutAction::InvertSelection => 18,
        ShortcutAction::Home => 19,
        ShortcutAction::Browse => 20,
        ShortcutAction::Back => 21,
        ShortcutAction::Up => 22,
        ShortcutAction::FocusAddress => 23,
        ShortcutAction::FocusSearch => 24,
        ShortcutAction::Application => 25,
        ShortcutAction::System => 26,
        ShortcutAction::Advanced => 27,
        ShortcutAction::About => 28,
        ShortcutAction::SortName => 29,
        ShortcutAction::SortModified => 30,
        ShortcutAction::SortType => 31,
        ShortcutAction::SortSize => 32,
    }
}

/// Every action is listed among all actions, at the position of its code.
pub proof fn law_every_action_listed(a: ShortcutAction)
    ensures
        0 <= action_code(a) < all_actions().len(),
        all_actions()[action_code(a)] == a,
{
}

/// The message key that describes an action.
pub open spec fn description_key(action: ShortcutAction) -> Seq<char> {
    match action {
        ShortcutAction::Open => "shortcut-desc-open"@,
        ShortcutAction::Create => "shortcut-desc-create"@,
        ShortcutAction::Save => "shortcut-desc-save"@,
        ShortcutAction::Extract => "shortcut-desc-extract"@,
        ShortcutAction::QuickExtract => "shortcut-desc-quick-extract"@,
        ShortcutAction::Add => "shortcut-desc-add"@,
        ShortcutAction::AddFolder => "shortcut-desc-add-folder"@,
        ShortcutAction::ArchiveInfo => "shortcut-desc-archive-info"@,
        ShortcutAction::Comment => "shortcut-desc-comment"@,
        ShortcutAction::Check => "shortcut-desc-check"@,
        ShortcutAction::Rename => "shortcut-desc-rename"@,
        ShortcutAction::CopyTo => "shortcut-desc-copy-to"@,
        ShortcutAction::MoveTo => "shortcut-desc-move-to"@,
        ShortcutAction::Delete => "shortcut-desc-delete"@,
        ShortcutAction::Properties => "shortcut-desc-properties"@,
        ShortcutAction::Refresh => "shortcut-desc-refresh"@,
        ShortcutAction::SelectAll => "shortcut-desc-select-all"@,
        ShortcutAction::DeselectAll => "shortcut-desc-deselect-all"@,
        ShortcutAction::InvertSelection => "shortcut-desc-invert-selection"@,
        ShortcutAction::Home => "shortcut-desc-home"@,
        ShortcutAction::Browse => "shortcut-desc-browse"@,
        ShortcutAction::Back => "shortcut-desc-back"@,
        ShortcutAction::Up => "shortcut-desc-up"@,
        ShortcutAction::FocusAddress => "shortcut-desc-focus-address"@,
        ShortcutAction::FocusSearch => "shortcut-desc-focus-search"@,
        ShortcutAction::Application => "shortcut-desc-application"@,
        ShortcutAction::System => "shortcut-desc-system"@,
        ShortcutAction::Advanced => "shortcut-desc-advanced"@,
        ShortcutAction::About => "shortcut-desc-about"@,
        ShortcutAction::SortName => "shortcut-desc-sort-name"@,
        ShortcutAction::SortModified => "shortcut-desc-sort-modified"@,
        ShortcutAction::SortType => "shortcut-desc-sort-type"@,
        ShortcutAction::SortSize => "shortcut-desc-sort-size"@,
    }
}

/// The message key of an action's name.
pub open spec fn label_key(action: ShortcutAction) -> Seq<char> {
    match action {
        ShortcutAction::Open => "archive-open"@,
        ShortcutAction::Create => "archive-create-command"@,
        ShortcutAction::Save => "archive-save-as"@,
        ShortcutAction::Extract => "extract-options"@,
        ShortcutAction::QuickExtract => "extract-quick"@,
        ShortcutAction::Add => "archive-add"@,
        ShortcutAction::AddFolder => "archive-add-folder"@,
        ShortcutAction::ArchiveInfo => "archive-info"@,
        ShortcutAction::Comment => "archive-comment"@,
        ShortcutAction::Check => "archive-check"@,
        ShortcutAction::Rename => "archive-rename"@,
        ShortcutAction::CopyTo => "archive-copy"@,
        ShortcutAction::MoveTo => "archive-move"@,
        ShortcutAction::Delete => "archive-delete"@,
        ShortcutAction::Properties => "file-properties"@,
        ShortcutAction::Refresh => "menu-refresh"@,
        ShortcutAction::SelectAll => "select-all"@,
        ShortcutAction::DeselectAll => "selection-clear"@,
        ShortcutAction::InvertSelection => "shortcuts-invert"@,
        ShortcutAction::Home => "browser-home"@,
        ShortcutAction::Browse => "browser-browse"@,
        ShortcutAction::Back => "back"@,
        ShortcutAction::Up => "shortcuts-up"@,
        ShortcutAction::FocusAddress => "browser-address"@,
        ShortcutAction::FocusSearch => "search-placeholder"@,
        ShortcutAction::Application => "settings-general"@,
        ShortcutAction::System => "settings-integration"@,
        ShortcutAction::Advanced => "settings-advanced"@,
        ShortcutAction::About => "menu-about"@,
        ShortcutAction::SortName => "shortcuts-sort-name"@,
        ShortcutAction::SortModified => "shortcuts-sort-modified"@,
        ShortcutAction::SortType => "shortcuts-sort-type"@,
        ShortcutAction::SortSize => "shortcuts-sort-size"@,
    }
}

/// The key combination an action has when the user has not chosen one.
pub open spec fn default_chord(action: ShortcutAction) -> Option<Chord> {
    match action {
        ShortcutAction::Open => Some(("o"@, true, false, false)),
        ShortcutAction::Create => Some(("n"@, true, false, false)),
        ShortcutAction::Save => Some(("s"@, true, true, false)),
        ShortcutAction::Extract => Some(("e"@, false, false, true)),
        ShortcutAction::QuickExtract => None,
        ShortcutAction::Add => Some(("a"@, false, false, true)),
        ShortcutAction::AddFolder => None,
        ShortcutAction::ArchiveInfo => Some(("i"@, false, false, true)),
        ShortcutAction::Comment => Some(("m"@, false, false, true)),
        ShortcutAction::Check => Some(("t"@, false, false, true)),
        ShortcutAction::Rename => Some(("f2"@, false, false, false)),
        ShortcutAction::CopyTo => Some(("c"@, true, true, false)),
        ShortcutAction::MoveTo => Some(("m"@, true, true, false)),
        ShortcutAction::Delete => Some(("delete"@, false, false, false)),
        ShortcutAction::Properties => Some(("enter"@, false, false, true)),
        ShortcutAction::Refresh => Some(("f5"@, false, false, false)),
        ShortcutAction::SelectAll => Some(("a"@, true, false, false)),
        ShortcutAction::DeselectAll => None,
        ShortcutAction::InvertSelection => Some(("i"@, true, false, false)),
        ShortcutAction::Home => None,
        ShortcutAction::Browse => None,
        ShortcutAction::Back => Some(("left"@, false, false, true)),
        ShortcutAction::Up => Some(("up"@, false, false, true)),
        ShortcutAction::FocusAddress => Some(("l"@, true, false, false)),
        ShortcutAction::FocusSearch => Some(("f"@, true, false, false)),
        ShortcutAction::Application => Some((","@, true, false, false)),
        ShortcutAction::System => Some(("s"@, true, false, true)),
        ShortcutAction::Advanced => Some(("a"@, true, false, true)),
        ShortcutAction::About => Some(("i"@, true, false, true)),
        ShortcutAction::SortName => Some(("f3"@, true, false, false)),
        ShortcutAction::SortModified => Some(("f4"@, true, false, false)),
        ShortcutAction::SortType => Some(("f5"@, true, false, false)),
        ShortcutAction::SortSize => Some(("f6"@, true, false, false)),
    }
}

/// A key combination bound to a command.
#[derive(Clone, Debug, PartialEq, Eq)]
pub struct Shortcut {
    pub key: String,
    pub control: bool,
    pub shift: bool,
    pub alt: bool,
}

impl View for Shortcut {
    type V = Chord;

    open spec fn view(&self) -> Chord {
        (self.key@, self.control, self.shift, self.alt)
    }
}

pub open spec fn chord_of(s: Option<Shortcut>) -> Option<Chord> {
    match s {
        Some(s) => Some(s@),
        None => None,
    }
}

impl Shortcut {
    /// An exact copy.
    pub fn duplicate(&self) -> (r: Shortcut)
        ensures
            r@ == self@,
    {
        Shortcut { key: self.key.clone(), control: self.control, shift: self.shift, alt: self.alt }
    }
}

pub fn duplicate_binding(s: &Option<Shortcut>) -> (r: Option<Shortcut>)
    ensures
        chord_of(r) == chord_of(*s),
{
    match s {
        Some(s) => Some(s.duplicate()),
        None => None,
    }
}

/// The user's shortcut settings: for each action that the user configured,
/// either a key combination or `None` for "no shortcut". Changes are kept in
/// the order they were made; the latest change to an action is the one in force.
pub struct Shortcuts {
    changes: Vec<(ShortcutAction, Option<Option<Shortcut>>)>,
}

/// The settings that a list of changes leaves: each change either sets an
/// action's choice or forgets it.
pub open spec fn settings_after(changes: Seq<(ShortcutAction, Option<Option<Shortcut>>)>) -> Map<ShortcutAction, Option<Chord>>
    decreases changes.len(),
{
    if changes.len() == 0 {
        Map::empty()
    } else {
        let (action, change) = changes.last();
        let before = settings_after(changes.drop_last());
        match change {
            Some(value) => before.insert(action, chord_of(value)),
            None => before.remove(action),
        }
    }
}

impl View for Shortcuts {
    type V = Map<ShortcutAction, Option<Chord>>;

    closed spec fn view(&self) -> Map<ShortcutAction, Option<Chord>> {
        settings_after(self.changes@)
    }
}

/// The key combination in force for an action: the user's choice if there is
/// one, else the default.
pub open spec fn binding_chord(values: Map<ShortcutAction, Option<Chord>>, action: ShortcutAction) -> Option<Chord> {
    if values.contains_key(action) {
        values[action]
    } else {
        default_chord(action)
    }
}

impl ShortcutAction {
    /// The position of this action in [`ShortcutAction::all`].
    pub fn code(self) -> (r: usize)
        ensures
            r == action_code(self),
            0 <= action_code(self) < all_actions().len(),
            all_actions()[action_code(self)] == self,
    {
            match self {
                ShortcutAction::Open => 0,
                ShortcutAction::Create => 1,
                ShortcutAction::Save => 2,
                ShortcutAction::Extract => 3,
                ShortcutAction::QuickExtract => 4,
                ShortcutAction::Add => 5,
                ShortcutAction::AddFolder => 6,
                ShortcutAction::ArchiveInfo => 7,
                ShortcutAction::Comment => 8,
                ShortcutAction::Check => 9,
                ShortcutAction::Rename => 10,
                ShortcutAction::CopyTo => 11,
                ShortcutAction::MoveTo => 12,
                ShortcutAction::Delete => 13,
                ShortcutAction::Properties => 14,
                ShortcutAction::Refresh => 15,
                ShortcutAction::SelectAll => 16,
                ShortcutAction::DeselectAll => 17,
                ShortcutAction::InvertSelection => 18,
                ShortcutAction::Home => 19,
                ShortcutAction::Browse => 20,
                ShortcutAction::Back => 21,
                ShortcutAction::Up => 22,
                ShortcutAction::FocusAddress => 23,
                ShortcutAction::FocusSearch => 24,
                ShortcutAction::Application => 25,
                ShortcutAction::System => 26,
                ShortcutAction::Advanced => 27,
                ShortcutAction::About => 28,
                ShortcutAction::SortName => 29,
                ShortcutAction::SortModified => 30,
                ShortcutAction::SortType => 31,
                ShortcutAction::SortSize => 32,
            }
    }

    /// Every action, in order.
    pub fn all() -> (v: Vec<ShortcutAction>)
        ensures
            v@ == all_actions(),
    {
            vec![
                ShortcutAction::Open,
                ShortcutAction::Create,
                ShortcutAction::Save,
                ShortcutAction::Extract,
                ShortcutAction::QuickExtract,
                ShortcutAction::Add,
                ShortcutAction::AddFolder,
                ShortcutAction::ArchiveInfo,
                ShortcutAction::Comment,
                ShortcutAction::Check,
                ShortcutAction::Rename,
                ShortcutAction::CopyTo,
                ShortcutAction::MoveTo,
                ShortcutAction::Delete,
                ShortcutAction::Properties,
                ShortcutAction::Refresh,
                ShortcutAction::SelectAll,
                ShortcutAction::DeselectAll,
                ShortcutAction::InvertSelection,
                ShortcutAction::Home,
                ShortcutAction::Browse,
                ShortcutAction::Back,
                ShortcutAction::Up,
                ShortcutAction::FocusAddress,
                ShortcutAction::FocusSearch,
                ShortcutAction::Application,
                ShortcutAction::System,
                ShortcutAction::Advanced,
                ShortcutAction::About,
                ShortcutAction::SortName,
                ShortcutAction::SortModified,
                ShortcutAction::SortType,
                ShortcutAction::SortSize,
            ]
    }

    pub fn description(self) -> (r: &'static str)
        ensures
            r@ == description_key(self),
    {
        match self {
            ShortcutAction::Open => "shortcut-desc-open",
            ShortcutAction::Create => "shortcut-desc-create",
            ShortcutAction::Save => "shortcut-desc-save",
            ShortcutAction::Extract => "shortcut-desc-extract",
            ShortcutAction::QuickExtract => "shortcut-desc-quick-extract",
            ShortcutAction::Add => "shortcut-desc-add",
            ShortcutAction::AddFolder => "shortcut-desc-add-folder",
            ShortcutAction::ArchiveInfo => "shortcut-desc-archive-info",
            ShortcutAction::Comment => "shortcut-desc-comment",
            ShortcutAction::Check => "shortcut-desc-check",
            ShortcutAction::Rename => "shortcut-desc-rename",
            ShortcutAction::CopyTo => "shortcut-desc-copy-to",
            ShortcutAction::MoveTo => "shortcut-desc-move-to",
            ShortcutAction::Delete => "shortcut-desc-delete",
            ShortcutAction::Properties => "shortcut-desc-properties",
            ShortcutAction::Refresh => "shortcut-desc-refresh",
            ShortcutAction::SelectAll => "shortcut-desc-select-all",
            ShortcutAction::DeselectAll => "shortcut-desc-deselect-all",
            ShortcutAction::InvertSelection => "shortcut-desc-invert-selection",
            ShortcutAction::Home => "shortcut-desc-home",
            ShortcutAction::Browse => "shortcut-desc-browse",
            ShortcutAction::Back => "shortcut-desc-back",
            ShortcutAction::Up => "shortcut-desc-up",
            ShortcutAction::FocusAddress => "shortcut-desc-focus-address",
            ShortcutAction::FocusSearch => "shortcut-desc-focus-search",
            ShortcutAction::Application => "shortcut-desc-application",
            ShortcutAction::System => "shortcut-desc-system",
            ShortcutAction::Advanced => "shortcut-desc-advanced",
            ShortcutAction::About => "shortcut-desc-about",
            ShortcutAction::SortName => "shortcut-desc-sort-name",
            ShortcutAction::SortModified => "shortcut-desc-sort-modified",
            ShortcutAction::SortType => "shortcut-desc-sort-type",
            ShortcutAction::SortSize => "shortcut-desc-sort-size",
        }
    }

    pub fn label(self) -> (r: &'static str)
        ensures
            r@ == label_key(self),
    {
        match self {
            ShortcutAction::Open => "archive-open",
            ShortcutAction::Create => "archive-create-command",
            ShortcutAction::Save => "archive-save-as",
            ShortcutAction::Extract => "extract-options",
            ShortcutAction::QuickExtract => "extract-quick",
            ShortcutAction::Add => "archive-add",
            ShortcutAction::AddFolder => "archive-add-folder",
            ShortcutAction::ArchiveInfo => "archive-info",
            ShortcutAction::Comment => "archive-comment",
            ShortcutAction::Check => "archive-check",
            ShortcutAction::Rename => "archive-rename",
            ShortcutAction::CopyTo => "archive-copy",
            ShortcutAction::MoveTo => "archive-move",
            ShortcutAction::Delete => "archive-delete",
            ShortcutAction::Properties => "file-properties",
            ShortcutAction::Refresh => "menu-refresh",
            ShortcutAction::SelectAll => "select-all",
            ShortcutAction::DeselectAll => "selection-clear",
            ShortcutAction::InvertSelection => "shortcuts-invert",
            ShortcutAction::Home => "browser-home",
            ShortcutAction::Browse => "browser-browse",
            ShortcutAction::Back => "back",
            ShortcutAction::Up => "shortcuts-up",
            ShortcutAction::FocusAddress => "browser-address",
            ShortcutAction::FocusSearch => "search-placeholder",
            ShortcutAction::Application => "settings-general",
            ShortcutAction::System => "settings-integration",
            ShortcutAction::Advanced => "settings-advanced",
            ShortcutAction::About => "menu-about",
            ShortcutAction::SortName => "shortcuts-sort-name",
            ShortcutAction::SortModified => "shortcuts-sort-modified",
            ShortcutAction::SortType => "shortcuts-sort-type",
            ShortcutAction::SortSize => "shortcuts-sort-size",
        }
    }

    pub fn default_shortcut(self) -> (r: Option<Shortcut>)
        ensures
            chord_of(r) == default_chord(self),
    {
        let (key, control, shift, alt): (&str, bool, bool, bool) = match self {
            ShortcutAction::Open => ("o", true, false, false),
            ShortcutAction::Create => ("n", true, false, false),
            ShortcutAction::Save => ("s", true, true, false),
            ShortcutAction::Extract => ("e", false, false, true),
            ShortcutAction::QuickExtract => return None,
            ShortcutAction::Add => ("a", false, false, true),
            ShortcutAction::AddFolder => return None,
            ShortcutAction::ArchiveInfo => ("i", false, false, true),
            ShortcutAction::Comment => ("m", false, false, true),
            ShortcutAction::Check => ("t", false, false, true),
            ShortcutAction::Rename => ("f2", false, false, false),
            ShortcutAction::CopyTo => ("c", true, true, false),
            ShortcutAction::MoveTo => ("m", true, true, false),
            ShortcutAction::Delete => ("delete", false, false, false),
            ShortcutAction::Properties => ("enter", false, false, true),
            ShortcutAction::Refresh => ("f5", false, false, false),
            ShortcutAction::SelectAll => ("a", true, false, false),
            ShortcutAction::DeselectAll => return None,
            ShortcutAction::InvertSelection => ("i", true, false, false),
            ShortcutAction::Home => return None,
            ShortcutAction::Browse => return None,
            ShortcutAction::Back => ("left", false, false, true),
            ShortcutAction::Up => ("up", false, false, true),
            ShortcutAction::FocusAddress => ("l", true, false, false),
            ShortcutAction::FocusSearch => ("f", true, false, false),
            ShortcutAction::Application => (",", true, false, false),
            ShortcutAction::System => ("s", true, false, true),
            ShortcutAction::Advanced => ("a", true, false, true),
            ShortcutAction::About => ("i", true, false, true),
            ShortcutAction::SortName => ("f3", true, false, false),
            ShortcutAction::SortModified => ("f4", true, false, false),
            ShortcutAction::SortType => ("f5", true, false, false),
            ShortcutAction::SortSize => ("f6", true, false, false),
        };
        Some(Shortcut { key: key.to_owned(), control, shift, alt })
    }

    /// The shortcut in force for this action under the given settings.
    pub fn binding(self, values: &Shortcuts) -> (r: Option<Shortcut>)
        ensures
            chord_of(r) == binding_chord(values@, self),
    {
        match values.get(self) {
            Some(value) => value,
            None => self.default_shortcut(),
        }
    }
}

/// Changes after position `n` that do not touch `action` leave its setting as it was.
proof fn lemma_settings_untouched(changes: Seq<(ShortcutAction, Option<Option<Shortcut>>)>, n: int, action: ShortcutAction)
    requires
        0 <= n <= changes.len(),
        forall|k: int| n <= k < changes.len() ==> (#[trigger] changes[k]).0 != action,
    ensures
        settings_after(changes).contains_key(action) == settings_after(changes.take(n)).contains_key(action),
        settings_after(changes)[action] == settings_after(changes.take(n))[action],
    decreases changes.len() - n,
{
    if n < changes.len() {
        assert(changes.drop_last().take(n) == changes.take(n));
        lemma_settings_untouched(changes.drop_last(), n, action);
        assert(changes.last() == changes[changes.len() - 1]);
    } else {
        assert(changes.take(n) == changes);
    }
}

impl Shortcuts {
    /// Settings in which no action has been configured.
    pub fn new() -> (r: Shortcuts)
        ensures
            r@ == Map::<ShortcutAction, Option<Chord>>::empty(),
    {
        Shortcuts { changes: Vec::new() }
    }

    /// Configures an action: `Some` binds a key combination, `None` leaves the
    /// action without a shortcut.
    pub fn set(&mut self, action: ShortcutAction, value: Option<Shortcut>)
        ensures
            final(self)@ == old(self)@.insert(action, chord_of(value)),
    {
        let ghost before = self.changes@;
        self.changes.push((action, Some(value)));
        assert(self.changes@.drop_last() == before);
    }

    /// Forgets the user's choice for an action, so that its default applies.
    pub fn clear(&mut self, action: ShortcutAction)
        ensures
            final(self)@ == old(self)@.remove(action),
    {
        let ghost before = self.changes@;
        self.changes.push((action, None));
        assert(self.changes@.drop_last() == before);
    }

    /// The user's choice for an action, if the user made one.
    pub fn get(&self, action: ShortcutAction) -> (r: Option<Option<Shortcut>>)
        ensures
            match r {
                Some(value) => self@.contains_key(action) && self@[action] == chord_of(value),
                None => !self@.contains_key(action),
            },
    {
        let mut i = self.changes.len();
        while i > 0
            invariant
                i <= self.changes@.len(),
                forall|k: int| i <= k < self.changes@.len() ==> (#[trigger] self.changes@[k]).0 != action,
            decreases i,
        {
            let (candidate, change) = &self.changes[i - 1];
            if *candidate == action {
                proof {
                    lemma_settings_untouched(self.changes@, i as int, action);
                    assert(self.changes@.take(i as int).drop_last() == self.changes@.take(i - 1));
                    assert(self.changes@.take(i as int).last() == self.changes@[i - 1]);
                }
                return match change {
                    Some(value) => Some(duplicate_binding(value)),
                    None => None,
                };
            }
            i = i - 1;
        }
        proof {
            lemma_settings_untouched(self.changes@, 0, action);
            assert(self.changes@.take(0) =~= Seq::<(ShortcutAction, Option<Option<Shortcut>>)>::empty());
        }
        None
    }
}

/// How a key's name is shown.
pub open spec fn key_caption(key: Seq<char>) -> Seq<char> {
    if key == "enter"@ {
        "Enter"@
    } else if key == "delete"@ {
        "Del"@
    } else if key == "left"@ {
        "Left"@
    } else if key == "up"@ {
        "Up"@
    } else {
        upper_case(key)
    }
}

/// How a key combination is shown: the held modifiers in the order Ctrl,
/// Alt, Shift, then the key, joined by `+`.
pub open spec fn chord_caption(chord: Chord) -> Seq<char> {
    let (key, control, shift, alt) = chord;
    (if control { "Ctrl+"@ } else { Seq::empty() }) + (if alt { "Alt+"@ } else { Seq::empty() }) + (
    if shift {
        "Shift+"@
    } else {
        Seq::empty()
    }) + key_caption(key)
}

/// A function key from F1 to F12, written `f` and its number.
pub open spec fn is_function_key(key: Seq<char>) -> bool {
    &&& key.len() > 0
    &&& key[0] == 'f'
    &&& parse_u8(key.drop_first()) matches Some(n)
    &&& 1 <= n <= 12
}

/// A single ASCII letter or digit.
pub open spec fn is_character_key(key: Seq<char>) -> bool {
    key.len() == 1 && is_ascii_alphanumeric(key[0])
}

/// The other keys that may carry a shortcut.
pub open spec fn is_named_key(key: Seq<char>) -> bool {
    ||| key == ","@
    ||| key == "."@
    ||| key == "/"@
    ||| key == ";"@
    ||| key == "'"@
    ||| key == "["@
    ||| key == "]"@
    ||| key == "-"@
    ||| key == "="@
    ||| key == "delete"@
    ||| key == "enter"@
    ||| key == "left"@
    ||| key == "up"@
    ||| key == "right"@
    ||| key == "down"@
    ||| key == "home"@
    ||| key == "end"@
    ||| key == "pageup"@
    ||| key == "pagedown"@
}

/// Control combinations that keep their editing and window meaning.
pub open spec fn is_reserved_control_key(key: Seq<char>) -> bool {
    ||| key == "c"@
    ||| key == "v"@
    ||| key == "x"@
    ||| key == "z"@
    ||| key == "y"@
    ||| key == "s"@
    ||| key == "w"@
}

/// Alt combinations that keep their window and menu meaning.
pub open spec fn is_reserved_alt_key(key: Seq<char>) -> bool {
    ||| key == "f4"@
    ||| key == "space"@
    ||| key == "tab"@
    ||| key == "down"@
}

/// Whether a key combination may be used as a shortcut.
pub open spec fn chord_allowed(chord: Chord) -> bool {
    let (key, control, shift, alt) = chord;
    let function = is_function_key(key);
    &&& function || is_character_key(key) || is_named_key(key)
    &&& !(control && alt && key == "delete"@)
    &&& !(!control && !alt && !function && key != "delete"@)
    &&& !(control && !alt && !shift && is_reserved_control_key(key))
    &&& !(alt && is_reserved_alt_key(key))
    &&& !(shift && !control && !alt && key == "f10"@)
    &&& !(control && !alt && !shift && key == "pagedown"@)
}

fn key_is(key: &str, name: &str) -> (r: bool)
    ensures
        r == (key@ == name@),
{
    same_text(key, name)
}

impl Shortcut {
    /// The text that shows this shortcut, such as `Ctrl+Shift+S`.
    pub fn display(&self) -> (r: String)
        ensures
            r@ == chord_caption(self@),
    {
        let mut text = String::new();
        if self.control {
            push_text(&mut text, "Ctrl+");
        }
        if self.alt {
            push_text(&mut text, "Alt+");
        }
        if self.shift {
            push_text(&mut text, "Shift+");
        }
        let key = self.key.as_str();
        if key_is(key, "enter") {
            push_text(&mut text, "Enter");
        } else if key_is(key, "delete") {
            push_text(&mut text, "Del");
        } else if key_is(key, "left") {
            push_text(&mut text, "Left");
        } else if key_is(key, "up") {
            push_text(&mut text, "Up");
        } else {
            let upper = to_upper(key);
            push_text(&mut text, upper.as_str());
        }
        assert(text@ =~= chord_caption(self@));
        text
    }

    /// Whether this key combination may be used as a shortcut.
    pub fn allowed(&self) -> (r: bool)
        ensures
            r == chord_allowed(self@),
    {
        let key = self.key.as_str();
        let chars = chars_of(key);
        let function = chars.len() > 0 && chars[0] == 'f' && match parse_byte(&chars, 1) {
            Some(n) => 1 <= n && n <= 12,
            None => false,
        };
        proof {
            if chars@.len() > 0 {
                assert(chars@.skip(1) == key@.drop_first());
            }
        }
        let character = chars.len() == 1 && {
            let c = chars[0];
            ('0' <= c && c <= '9') || ('a' <= c && c <= 'z') || ('A' <= c && c <= 'Z')
        };
        let named = key_is(key, ",") || key_is(key, ".") || key_is(key, "/") || key_is(key, ";")
            || key_is(key, "'") || key_is(key, "[") || key_is(key, "]") || key_is(key, "-")
            || key_is(key, "=") || key_is(key, "delete") || key_is(key, "enter") || key_is(
            key,
            "left",
        ) || key_is(key, "up") || key_is(key, "right") || key_is(key, "down") || key_is(
            key,
            "home",
        ) || key_is(key, "end") || key_is(key, "pageup") || key_is(key, "pagedown");
        if !(function || character || named) {
            return false;
        }
        let delete = key_is(key, "delete");
        if self.control && self.alt && delete {
            return false;
        }
        if !self.control && !self.alt && !function && !delete {
            return false;
        }
        if self.control && !self.alt && !self.shift && (key_is(key, "c") || key_is(key, "v")
            || key_is(key, "x") || key_is(key, "z") || key_is(key, "y") || key_is(key, "s")
            || key_is(key, "w")) {
            return false;
        }
        if self.alt && (key_is(key, "f4") || key_is(key, "space") || key_is(key, "tab") || key_is(
            key,
            "down",
        )) {
            return false;
        }
        if self.shift && !self.control && !self.alt && key_is(key, "f10") {
            return false;
        }
        if self.control && !self.alt && !self.shift && key_is(key, "pagedown") {
            return false;
        }
        true
    }

    /// Whether two shortcuts are the same key combination.
    pub fn same_as(&self, other: &Shortcut) -> (r: bool)
        ensures
            r == (self@ == other@),
    {
        self.key == other.key && self.control == other.control && self.shift == other.shift
            && self.alt == other.alt
    }
}

/// Why a set of shortcut settings was refused.
#[derive(Clone, Debug, PartialEq, Eq)]
pub enum ShortcutError {
    /// The action's key combination may not be used as a shortcut.
    Invalid { action: ShortcutAction, shortcut: Shortcut },
    /// An earlier action already uses the same key combination.
    Conflict { existing: ShortcutAction, shortcut: Shortcut },
}

/// The combination in force for the action at position `i` of [`all_actions`].
pub open spec fn bound_at(values: Map<ShortcutAction, Option<Chord>>, i: int) -> Option<Chord> {
    binding_chord(values, all_actions()[i])
}

/// The action at position `i` has a combination that is refused or that an
/// earlier action already uses.
pub open spec fn faulty_at(values: Map<ShortcutAction, Option<Chord>>, i: int) -> bool {
    &&& bound_at(values, i) is Some
    &&& (!chord_allowed(bound_at(values, i)->0) || exists|j: int|
        0 <= j < i && bound_at(values, j) == bound_at(values, i))
}

/// Every shortcut in force is allowed, and no two actions share one.
pub open spec fn shortcuts_valid(values: Map<ShortcutAction, Option<Chord>>) -> bool {
    forall|i: int| 0 <= i < all_actions().len() ==> !faulty_at(values, i)
}

/// Position `i` is the first faulty one.
pub open spec fn first_fault(values: Map<ShortcutAction, Option<Chord>>, i: int) -> bool {
    &&& 0 <= i < all_actions().len()
    &&& faulty_at(values, i)
    &&& forall|k: int| 0 <= k < i ==> !faulty_at(values, k)
}

/// Checks the settings against the rules, taking actions in order: the first
/// action whose combination is refused, or that repeats the combination of an
/// earlier action, is reported, the latter with the first such earlier action.
pub fn validate(values: &Shortcuts) -> (r: Result<(), ShortcutError>)
    ensures
        r is Ok <==> shortcuts_valid(values@),
        match r {
            Ok(()) => true,
            Err(ShortcutError::Invalid { action, shortcut }) => exists|i: int|
                {
                    &&& first_fault(values@, i)
                    &&& all_actions()[i] == action
                    &&& bound_at(values@, i) == Some(shortcut@)
                    &&& !chord_allowed(shortcut@)
                },
            Err(ShortcutError::Conflict { existing, shortcut }) => exists|i: int, j: int|
                {
                    &&& first_fault(values@, i)
                    &&& chord_allowed(shortcut@)
                    &&& bound_at(values@, i) == Some(shortcut@)
                    &&& 0 <= j < i
                    &&& bound_at(values@, j) == Some(shortcut@)
                    &&& forall|k: int| 0 <= k < j ==> bound_at(values@, k) != Some(shortcut@)
                    &&& all_actions()[j] == existing
                },
        },
{
    let actions = ShortcutAction::all();
    let mut used: Vec<Option<Shortcut>> = Vec::new();
    let mut i: usize = 0;
    while i < actions.len()
        invariant
            actions@ == all_actions(),
            i <= actions@.len(),
            used@.len() == i,
            forall|k: int| 0 <= k < i ==> chord_of(#[trigger] used@[k]) == bound_at(values@, k),
            forall|k: int| 0 <= k < i ==> !faulty_at(values@, k),
        decreases actions@.len() - i,
    {
        let action = actions[i];
        let binding = action.binding(values);
        match &binding {
            None => {},
            Some(shortcut) => {
                if !shortcut.allowed() {
                    assert(first_fault(values@, i as int));
                    return Err(ShortcutError::Invalid { action, shortcut: shortcut.duplicate() });
                }
                let mut j: usize = 0;
                while j < i
                    invariant
                        actions@ == all_actions(),
                        i < actions@.len(),
                        j <= i,
                        used@.len() == i,
                        forall|k: int| 0 <= k < i ==> chord_of(#[trigger] used@[k]) == bound_at(values@, k),
                        bound_at(values@, i as int) == Some(shortcut@),
                        chord_allowed(shortcut@),
                        forall|k: int| 0 <= k < i ==> !faulty_at(values@, k),
                        forall|k: int| 0 <= k < j ==> bound_at(values@, k) != Some(shortcut@),
                    decreases i - j,
                {
                    match &used[j] {
                        Some(candidate) => {
                            if candidate.same_as(shortcut) {
                                assert(chord_of(used@[j as int]) == bound_at(values@, j as int));
                                assert(faulty_at(values@, i as int));
                                assert(first_fault(values@, i as int));
                                return Err(
                                    ShortcutError::Conflict {
                                        existing: actions[j],
                                        shortcut: shortcut.duplicate(),
                                    },
                                );
                            }
                        },
                        None => {},
                    }
                    assert(chord_of(used@[j as int]) == bound_at(values@, j as int));
                    j = j + 1;
                }
            },
        }
        used.push(duplicate_binding(&binding));
        i = i + 1;
    }
    Ok(())
}

/// Setting an action's shortcut makes it the one in force for that action,
/// and leaves every other action's as it was.
pub proof fn law_set_then_binding(
    values: Map<ShortcutAction, Option<Chord>>,
    action: ShortcutAction,
    chord: Option<Chord>,
    other: ShortcutAction,
)
    ensures
        binding_chord(values.insert(action, chord), action) == chord,
        other != action ==> binding_chord(values.insert(action, chord), other) == binding_chord(
            values,
            other,
        ),
{
}

/// Clearing an action's shortcut brings back its default, and leaves every
/// other action's as it was.
pub proof fn law_clear_restores_default(
    values: Map<ShortcutAction, Option<Chord>>,
    action: ShortcutAction,
    other: ShortcutAction,
)
    ensures
        binding_chord(values.remove(action), action) == default_chord(action),
        other != action ==> binding_chord(values.remove(action), other) == binding_chord(
            values,
            other,
        ),
{
}

/// With nothing configured, every action has its default.
pub proof fn law_defaults_apply(action: ShortcutAction)
    ensures
        binding_chord(Map::<ShortcutAction, Option<Chord>>::empty(), action) == default_chord(action),
{
}

/// A few features of a name that tell the names of the actions apart: its
/// length and two of its characters.
spec fn label_features(s: Seq<char>) -> (int, int, int) {
    (s.len() as int, if s.len() > 8 {
        s[8] as int
    } else {
        -1
    }, if s.len() > 15 {
        s[15] as int
    } else {
        -1
    })
}

/// No two actions share a name: each has a message key of its own.
#[verifier::rlimit(100)]
pub proof fn law_labels_distinct(a: ShortcutAction, b: ShortcutAction)
    ensures
        label_key(a) == label_key(b) ==> a == b,
{
    reveal_strlit("archive-open");
    reveal_strlit("archive-create-command");
    reveal_strlit("archive-save-as");
    reveal_strlit("extract-options");
    reveal_strlit("extract-quick");
    reveal_strlit("archive-add");
    reveal_strlit("archive-add-folder");
    reveal_strlit("archive-info");
    reveal_strlit("archive-comment");
    reveal_strlit("archive-check");
    reveal_strlit("archive-rename");
    reveal_strlit("archive-copy");
    reveal_strlit("archive-move");
    reveal_strlit("archive-delete");
    reveal_strlit("file-properties");
    reveal_strlit("menu-refresh");
    reveal_strlit("select-all");
    reveal_strlit("selection-clear");
    reveal_strlit("shortcuts-invert");
    reveal_strlit("browser-home");
    reveal_strlit("browser-browse");
    reveal_strlit("back");
    reveal_strlit("shortcuts-up");
    reveal_strlit("browser-address");
    reveal_strlit("search-placeholder");
    reveal_strlit("settings-general");
    reveal_strlit("settings-integration");
    reveal_strlit("settings-advanced");
    reveal_strlit("menu-about");
    reveal_strlit("shortcuts-sort-name");
    reveal_strlit("shortcuts-sort-modified");
    reveal_strlit("shortcuts-sort-type");
    reveal_strlit("shortcuts-sort-size");
    if label_key(a) == label_key(b) {
        assert(label_features(label_key(a)) == label_features(label_key(b)));
    }
}

proof fn lemma_function_key(key: Seq<char>, digit: char)
    requires
        key =~= seq!['f', digit],
        '1' <= digit <= '9',
    ensures
        is_function_key(key),
{
    let rest = key.drop_first();
    assert(rest =~= seq![digit]);
    assert(rest.drop_last() =~= Seq::<char>::empty());
    assert(rest[0] == digit);
    assert(all_digits(rest));
    assert(digits_value(rest.drop_last()) == 0);
    assert(digits_value(rest) == digit as int - '0' as int);
    assert(parse_u8(rest) == Some(digit as int - '0' as int));
}

proof fn lemma_reserved_keys()
    ensures
        forall|k: Seq<char>| is_reserved_control_key(k) ==> k.len() == 1,
        forall|k: Seq<char>| k.len() == 1 && is_reserved_control_key(k) ==> k[0] == 'c' || k[0] == 'v' || k[0] == 'x'
            || k[0] == 'z' || k[0] == 'y' || k[0] == 's' || k[0] == 'w',
        forall|k: Seq<char>| is_reserved_alt_key(k) ==> k.len() >= 2 && (k.len() != 2 || k =~= seq!['f', '4']),
        forall|k: Seq<char>| k.len() < 3 ==> k != "f10"@ && k != "delete"@ && k != "pagedown"@,
{
    reveal_strlit("c");
    reveal_strlit("v");
    reveal_strlit("x");
    reveal_strlit("z");
    reveal_strlit("y");
    reveal_strlit("s");
    reveal_strlit("w");
    reveal_strlit("f4");
    reveal_strlit("space");
    reveal_strlit("tab");
    reveal_strlit("down");
    reveal_strlit("f10");
    reveal_strlit("delete");
    reveal_strlit("pagedown");
}

proof fn lemma_letter_allowed(key: Seq<char>, control: bool, shift: bool, alt: bool)
    requires
        key.len() == 1,
        is_ascii_alphanumeric(key[0]),
        control || alt,
        control && !alt && !shift ==> !(key[0] == 'c' || key[0] == 'v' || key[0] == 'x' || key[0] == 'z'
            || key[0] == 'y' || key[0] == 's' || key[0] == 'w'),
    ensures
        chord_allowed((key, control, shift, alt)),
{
    lemma_reserved_keys();
}

proof fn lemma_function_allowed(key: Seq<char>, digit: char, control: bool, shift: bool, alt: bool)
    requires
        key =~= seq!['f', digit],
        '1' <= digit <= '9',
        alt ==> digit != '4',
    ensures
        chord_allowed((key, control, shift, alt)),
{
    lemma_function_key(key, digit);
    lemma_reserved_keys();
}

proof fn lemma_named_allowed(key: Seq<char>, control: bool, shift: bool, alt: bool)
    requires
        key == "delete"@ && !control && !alt || key == "enter"@ && alt && !control || key == "left"@ && alt
            && !control || key == "up"@ && alt && !control || key == ","@ && control && !alt,
    ensures
        chord_allowed((key, control, shift, alt)),
{
    reveal_strlit("delete");
    reveal_strlit("enter");
    reveal_strlit("left");
    reveal_strlit("up");
    reveal_strlit(",");
    reveal_strlit("space");
    reveal_strlit("tab");
    reveal_strlit("down");
    reveal_strlit("f4");
    reveal_strlit("f10");
    reveal_strlit("pagedown");
    lemma_reserved_keys();
    assert(is_named_key(key));
    assert(!is_function_key(key)) by {
        assert(key[0] != 'f');
    }
    if alt {
        if key == "enter"@ {
            assert(key[0] != "space"@[0]);
            assert(key != "space"@);
        } else {
            assert(key[0] != "down"@[0]);
            assert(key != "down"@);
        }
        assert(!is_reserved_alt_key(key));
    }
}

/// Every action's default key combination may be used as a shortcut.
pub proof fn law_defaults_allowed(action: ShortcutAction)
    ensures
        default_chord(action) matches Some(c) ==> chord_allowed(c),
{
    match action {
        ShortcutAction::Open => {
            reveal_strlit("o");
            lemma_letter_allowed("o"@, true, false, false);
        },
        ShortcutAction::Create => {
            reveal_strlit("n");
            lemma_letter_allowed("n"@, true, false, false);
        },
        ShortcutAction::Save => {
            reveal_strlit("s");
            lemma_letter_allowed("s"@, true, true, false);
        },
        ShortcutAction::Extract => {
            reveal_strlit("e");
            lemma_letter_allowed("e"@, false, false, true);
        },
        ShortcutAction::Add => {
            reveal_strlit("a");
            lemma_letter_allowed("a"@, false, false, true);
        },
        ShortcutAction::ArchiveInfo => {
            reveal_strlit("i");
            lemma_letter_allowed("i"@, false, false, true);
        },
        ShortcutAction::Comment => {
            reveal_strlit("m");
            lemma_letter_allowed("m"@, false, false, true);
        },
        ShortcutAction::Check => {
            reveal_strlit("t");
            lemma_letter_allowed("t"@, false, false, true);
        },
        ShortcutAction::Rename => {
            reveal_strlit("f2");
            lemma_function_allowed("f2"@, '2', false, false, false);
        },
        ShortcutAction::CopyTo => {
            reveal_strlit("c");
            lemma_letter_allowed("c"@, true, true, false);
        },
        ShortcutAction::MoveTo => {
            reveal_strlit("m");
            lemma_letter_allowed("m"@, true, true, false);
        },
        ShortcutAction::Delete => {
            reveal_strlit("delete");
            lemma_named_allowed("delete"@, false, false, false);
        },
        ShortcutAction::Properties => {
            reveal_strlit("enter");
            lemma_named_allowed("enter"@, false, false, true);
        },
        ShortcutAction::Refresh => {
            reveal_strlit("f5");
            lemma_function_allowed("f5"@, '5', false, false, false);
        },
        ShortcutAction::SelectAll => {
            reveal_strlit("a");
            lemma_letter_allowed("a"@, true, false, false);
        },
        ShortcutAction::InvertSelection => {
            reveal_strlit("i");
            lemma_letter_allowed("i"@, true, false, false);
        },
        ShortcutAction::Back => {
            reveal_strlit("left");
            lemma_named_allowed("left"@, false, false, true);
        },
        ShortcutAction::Up => {
            reveal_strlit("up");
            lemma_named_allowed("up"@, false, false, true);
        },
        ShortcutAction::FocusAddress => {
            reveal_strlit("l");
            lemma_letter_allowed("l"@, true, false, false);
        },
        ShortcutAction::FocusSearch => {
            reveal_strlit("f");
            lemma_letter_allowed("f"@, true, false, false);
        },
        ShortcutAction::Application => {
            reveal_strlit(",");
            lemma_named_allowed(","@, true, false, false);
        },
        ShortcutAction::System => {
            reveal_strlit("s");
            lemma_letter_allowed("s"@, true, false, true);
        },
        ShortcutAction::Advanced => {
            reveal_strlit("a");
            lemma_letter_allowed("a"@, true, false, true);
        },
        ShortcutAction::About => {
            reveal_strlit("i");
            lemma_letter_allowed("i"@, true, false, true);
        },
        ShortcutAction::SortName => {
            reveal_strlit("f3");
            lemma_function_allowed("f3"@, '3', true, false, false);
        },
        ShortcutAction::SortModified => {
            reveal_strlit("f4");
            lemma_function_allowed("f4"@, '4', true, false, false);
        },
        ShortcutAction::SortType => {
            reveal_strlit("f5");
            lemma_function_allowed("f5"@, '5', true, false, false);
        },
        ShortcutAction::SortSize => {
            reveal_strlit("f6");
            lemma_function_allowed("f6"@, '6', true, false, false);
        },
        _ => {},
    }
}

/// A few features of a key combination that tell the defaults apart: the
/// key's length, its first two characters, and the modifiers.
spec fn chord_features(c: Chord) -> (int, int, int, bool, bool, bool) {
    let (key, control, shift, alt) = c;
    (key.len() as int, if key.len() > 0 {
        key[0] as int
    } else {
        -1
    }, if key.len() > 1 {
        key[1] as int
    } else {
        -1
    }, control, shift, alt)
}

/// No two actions have the same default key combination.
#[verifier::rlimit(100)]
pub proof fn law_defaults_distinct(a: ShortcutAction, b: ShortcutAction)
    ensures
        a != b && default_chord(a) is Some ==> default_chord(a) != default_chord(b),
{
    reveal_strlit(",");
    reveal_strlit("a");
    reveal_strlit("c");
    reveal_strlit("delete");
    reveal_strlit("e");
    reveal_strlit("enter");
    reveal_strlit("f");
    reveal_strlit("f2");
    reveal_strlit("f3");
    reveal_strlit("f4");
    reveal_strlit("f5");
    reveal_strlit("f6");
    reveal_strlit("i");
    reveal_strlit("l");
    reveal_strlit("left");
    reveal_strlit("m");
    reveal_strlit("n");
    reveal_strlit("o");
    reveal_strlit("s");
    reveal_strlit("t");
    reveal_strlit("up");
    if a != b && default_chord(a) is Some && default_chord(a) == default_chord(b) {
        assert(chord_features(default_chord(a)->0) == chord_features(default_chord(b)->0));
    }
}

/// Ctrl with one of C, V, X, Z, Y, S or W alone keeps its editing or window
/// meaning: none of them may be a shortcut, whatever else is allowed.
pub proof fn law_reserved_control_keys(key: Seq<char>)
    requires
        key == "c"@ || key == "v"@ || key == "x"@ || key == "z"@ || key == "y"@ || key == "s"@ || key == "w"@,
    ensures
        !chord_allowed((key, true, false, false)),
{
    reveal_strlit("c");
    reveal_strlit("v");
    reveal_strlit("x");
    reveal_strlit("z");
    reveal_strlit("y");
    reveal_strlit("s");
    reveal_strlit("w");
}

/// The command of the file list that a key combination runs, if any.
pub open spec fn command_of_chord(c: Option<Chord>) -> Option<KeyCommand> {
    match c {
        Some((key, control, shift, alt)) => key_command_of(control, alt, shift, key),
        None => None,
    }
}

/// The default shortcuts of the commands that the file list also runs from
/// fixed keys are those same keys: opening, saving a copy, extracting,
/// adding, the archive's properties, its comment and its check each run,
/// with their default combination, the window's command of the same name.
pub proof fn law_defaults_match_window_keys()
    ensures
        command_of_chord(default_chord(ShortcutAction::Open)) == Some(KeyCommand::Open),
        command_of_chord(default_chord(ShortcutAction::Save)) == Some(KeyCommand::Save),
        command_of_chord(default_chord(ShortcutAction::Extract)) == Some(KeyCommand::Extract),
        command_of_chord(default_chord(ShortcutAction::Add)) == Some(KeyCommand::Add),
        command_of_chord(default_chord(ShortcutAction::ArchiveInfo)) == Some(KeyCommand::Properties),
        command_of_chord(default_chord(ShortcutAction::Comment)) == Some(KeyCommand::Comment),
        command_of_chord(default_chord(ShortcutAction::Check)) == Some(KeyCommand::Check),
{
    reveal_strlit("o");
    reveal_strlit("s");
    reveal_strlit("e");
    reveal_strlit("a");
    reveal_strlit("i");
    reveal_strlit("m");
    reveal_strlit("t");
    reveal_strlit("f1");
    assert("o"@ =~= seq!['o']);
    assert("s"@ =~= seq!['s']);
    assert("e"@ =~= seq!['e']);
    assert("a"@ =~= seq!['a']);
    assert("i"@ =~= seq!['i']);
    assert("m"@ =~= seq!['m']);
    assert("t"@ =~= seq!['t']);
    assert("a"@[0] != "e"@[0]);
    assert("i"@[0] != "e"@[0] && "i"@[0] != "a"@[0]);
    assert("m"@[0] != "e"@[0] && "m"@[0] != "a"@[0] && "m"@[0] != "i"@[0]);
    assert("t"@[0] != "e"@[0] && "t"@[0] != "a"@[0] && "t"@[0] != "i"@[0] && "t"@[0] != "m"@[0]);
}

} // verus!
