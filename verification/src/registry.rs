//! The rules of the per-user Windows registration: which installation owns
//! the integration, what may be changed, and the values that are written.

use crate::operations::{ascii_lower, eq_ignoring_case, same_ignoring_case};
use crate::text::{chars_of, push_text, same_text};
use vstd::prelude::*;

verus! {

/// Who owns a part of the registration.
#[derive(Clone, Copy, Debug, PartialEq, Eq, Structural)]
pub enum Ownership {
    /// This installation.
    Current,
    /// Another installation.
    Other,
    /// Nobody: the part is not registered.
    Missing,
}

/// Whether an Explorer extension library lies inside the folder of the
/// executable: each component of that folder, in order and ignoring ASCII
/// case, starts the library's path, which goes on below it and has no `..`
/// component. Paths are given as their components' texts; `directory` is
/// `None` where the executable has no folder.
pub open spec fn belongs_to(library: Seq<Seq<char>>, directory: Option<Seq<Seq<char>>>) -> bool {
    match directory {
        None => false,
        Some(d) => {
            &&& d.len() < library.len()
            &&& forall|i: int| 0 <= i < d.len() ==> same_ignoring_case(#[trigger] library[i], d[i])
            &&& forall|i: int| 0 <= i < library.len() ==> #[trigger] library[i] != ".."@
        },
    }
}

/// Whether the extension library lies inside the executable's folder.
pub fn extension_belongs_to(library: &Vec<String>, directory: Option<&Vec<String>>) -> (r: bool)
    ensures
        r == belongs_to(library.deep_view(), match directory {
            Some(d) => Some(d.deep_view()),
            None => None,
        }),
{
    match directory {
        None => false,
        Some(d) => lies_below(library, d),
    }
}

fn lies_below(library: &Vec<String>, d: &Vec<String>) -> (r: bool)
    ensures
        r == belongs_to(library.deep_view(), Some(d.deep_view())),
{
    let mut i: usize = 0;
    while i < d.len()
        invariant
            i <= d.len(),
            forall|j: int|
                0 <= j < i ==> j < library.deep_view().len() && same_ignoring_case(
                    #[trigger] library.deep_view()[j],
                    d.deep_view()[j],
                ),
        decreases d.len() - i,
    {
        if i >= library.len() {
            assert(d.deep_view().len() == d.len());
            assert(library.deep_view().len() == library.len());
            return false;
        }
        let a = chars_of(library[i].as_str());
        let b = chars_of(d[i].as_str());
        assert(library.deep_view()[i as int] == a@);
        assert(d.deep_view()[i as int] == b@);
        if !eq_ignoring_case(&a, &b) {
            return false;
        }
        i = i + 1;
    }
    if library.len() <= d.len() {
        return false;
    }
    let mut k: usize = 0;
    while k < library.len()
        invariant
            k <= library.len(),
            forall|j: int| 0 <= j < k ==> #[trigger] library.deep_view()[j] != ".."@,
        decreases library.len() - k,
    {
        if same_text(library[k].as_str(), "..") {
            assert(library.deep_view()[k as int] == ".."@);
            return false;
        }
        k = k + 1;
    }
    true
}

/// The icon value that names the executable's first icon: `"<exe>",0`.
pub open spec fn icon_value(exe: Seq<char>) -> Seq<char> {
    seq!['"'] + exe + "\",0"@
}

/// The command that opens an archive with the executable:
/// `"<exe>" --open "%1"`.
pub open spec fn open_command(exe: Seq<char>) -> Seq<char> {
    seq!['"'] + exe + "\" --open \"%1\""@
}

/// The icon value that names the executable's first icon.
pub fn icon(exe: &str) -> (r: String)
    ensures
        r@ == icon_value(exe@),
{
    let mut r = String::new();
    crate::text::push_char(&mut r, '"');
    push_text(&mut r, exe);
    push_text(&mut r, "\",0");
    assert(r@ =~= icon_value(exe@));
    r
}

/// The command that opens an archive with the executable.
pub fn open_with(exe: &str) -> (r: String)
    ensures
        r@ == open_command(exe@),
{
    let mut r = String::new();
    crate::text::push_char(&mut r, '"');
    push_text(&mut r, exe);
    push_text(&mut r, "\" --open \"%1\"");
    assert(r@ =~= open_command(exe@));
    r
}

/// Who owns the Explorer menu, given what its keys say and, where the menu
/// handler's class is registered, whether its library lies in this
/// installation: a library elsewhere belongs to another installation; one
/// here makes an unclaimed menu this installation's.
pub open spec fn shell_owner(keys: Ownership, server_here: Option<bool>) -> Ownership {
    match server_here {
        None => keys,
        Some(false) => Ownership::Other,
        Some(true) => if keys == Ownership::Missing {
            Ownership::Current
        } else {
            keys
        },
    }
}

/// Who owns the Explorer menu.
pub fn menu_owner(keys: Ownership, server_here: Option<bool>) -> (r: Ownership)
    ensures
        r == shell_owner(keys, server_here),
{
    match server_here {
        None => keys,
        Some(false) => Ownership::Other,
        Some(true) => match keys {
            Ownership::Missing => Ownership::Current,
            _ => keys,
        },
    }
}

/// Why the registration could not be changed, by message key.
#[derive(Clone, Copy, Debug, PartialEq, Eq, Structural)]
pub enum RegistrationRefusal {
    /// Another installation owns the associations or the menu.
    OtherInstallation,
    /// The menu is wanted but this installation has not registered it.
    ShellRequired,
    /// The extension library is not inside the executable's folder.
    ExtensionLocation,
}

pub open spec fn registration_key(r: RegistrationRefusal) -> Seq<char> {
    match r {
        RegistrationRefusal::OtherInstallation => "registration-other-installation"@,
        RegistrationRefusal::ShellRequired => "registration-shell-required"@,
        RegistrationRefusal::ExtensionLocation => "registration-extension-location"@,
    }
}

impl RegistrationRefusal {
    /// The message key of the message.
    pub fn key(self) -> (r: &'static str)
        ensures
            r@ == registration_key(self),
    {
        match self {
            RegistrationRefusal::OtherInstallation => "registration-other-installation",
            RegistrationRefusal::ShellRequired => "registration-shell-required",
            RegistrationRefusal::ExtensionLocation => "registration-extension-location",
        }
    }
}

/// Whether the settings may be written to the registration: not where
/// another installation owns a part; and the menu only where this
/// installation registered it, with its class and executable.
pub open spec fn configure_check(
    association: Ownership,
    shell: Ownership,
    shell_menu: bool,
    server_registered: bool,
    executable_registered: bool,
) -> Result<(), RegistrationRefusal> {
    if association == Ownership::Other || shell == Ownership::Other {
        Err(RegistrationRefusal::OtherInstallation)
    } else if shell_menu && (shell != Ownership::Current || !server_registered || !executable_registered) {
        Err(RegistrationRefusal::ShellRequired)
    } else {
        Ok(())
    }
}

/// Whether the settings may be written to the registration.
pub fn may_configure(
    association: Ownership,
    shell: Ownership,
    shell_menu: bool,
    server_registered: bool,
    executable_registered: bool,
) -> (r: Result<(), RegistrationRefusal>)
    ensures
        r == configure_check(association, shell, shell_menu, server_registered, executable_registered),
{
    if association == Ownership::Other || shell == Ownership::Other {
        Err(RegistrationRefusal::OtherInstallation)
    } else if shell_menu && (shell != Ownership::Current || !server_registered
        || !executable_registered) {
        Err(RegistrationRefusal::ShellRequired)
    } else {
        Ok(())
    }
}

/// Whether the Explorer extension at `library` may be registered for the
/// executable whose folder is `directory`: only where it lies inside that
/// folder.
pub fn register_check(library: &Vec<String>, directory: Option<&Vec<String>>) -> (r: Result<
    (),
    RegistrationRefusal,
>)
    ensures
        r is Ok <==> belongs_to(library.deep_view(), match directory {
            Some(d) => Some(d.deep_view()),
            None => None,
        }),
        r is Err ==> r == Err::<(), RegistrationRefusal>(RegistrationRefusal::ExtensionLocation),
{
    if extension_belongs_to(library, directory) {
        Ok(())
    } else {
        Err(RegistrationRefusal::ExtensionLocation)
    }
}

/// What unregistering removes: the menu and its class where this
/// installation owns them, the associations where it owns them; and
/// whether a part owned by another installation is left in place.
pub fn removal_plan(association: Ownership, shell: Ownership) -> (r: (bool, bool, bool))
    ensures
        r.0 == (shell == Ownership::Current),
        r.1 == (association == Ownership::Current),
        r.2 == (association == Ownership::Other || shell == Ownership::Other),
{
    (
        shell == Ownership::Current,
        association == Ownership::Current,
        association == Ownership::Other || shell == Ownership::Other,
    )
}

/// For each extension that the application can open, whether the user
/// asked to associate it (then it is offered as an "open with" choice) or
/// not (then the offer is removed).
pub fn associated(extensions: &Vec<String>, chosen: &Vec<String>) -> (r: Vec<bool>)
    ensures
        r@.len() == extensions@.len(),
        forall|i: int|
            0 <= i < extensions@.len() ==> #[trigger] r@[i] == chosen.deep_view().contains(
                extensions.deep_view()[i],
            ),
{
    let mut r: Vec<bool> = Vec::new();
    let mut i: usize = 0;
    while i < extensions.len()
        invariant
            i <= extensions.len(),
            r@.len() == i,
            forall|j: int|
                0 <= j < i ==> #[trigger] r@[j] == chosen.deep_view().contains(extensions.deep_view()[j]),
        decreases extensions.len() - i,
    {
        let mut found = false;
        let mut k: usize = 0;
        while k < chosen.len()
            invariant
                k <= chosen.len(),
                i < extensions.len(),
                found == exists|j: int| 0 <= j < k && chosen.deep_view()[j] == extensions.deep_view()[i as int],
            decreases chosen.len() - k,
        {
            assert(chosen.deep_view()[k as int] == chosen[k as int]@);
            assert(extensions.deep_view()[i as int] == extensions[i as int]@);
            if same_text(chosen[k].as_str(), extensions[i].as_str()) {
                found = true;
            }
            k = k + 1;
        }
        proof {
            if found {
                let j = choose|j: int| 0 <= j < k && chosen.deep_view()[j] == extensions.deep_view()[i as int];
                assert(chosen.deep_view().contains(extensions.deep_view()[i as int]));
            } else {
                if chosen.deep_view().contains(extensions.deep_view()[i as int]) {
                    let j = choose|j: int| 0 <= j < chosen.deep_view().len() && chosen.deep_view()[j] == extensions.deep_view()[i as int];
                    assert(0 <= j < k);
                }
            }
        }
        r.push(found);
        i = i + 1;
    }
    r
}

} // verus!
