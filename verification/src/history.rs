//! The lists of recently opened archives and folders: at most twenty paths,
//! the latest first, each path once, and none that no longer exists.
//!
//! Reading and writing the list files, and asking the file system which
//! paths still exist, is the caller's part; the rules are here.

use vstd::prelude::*;

verus! {

/// The longest a history list gets.
pub const LIMIT: usize = 20;

/// Which history list.
#[derive(Clone, Copy, Debug, PartialEq, Eq, Structural)]
pub enum Kind {
    Archives,
    Folders,
}

/// A change to a history list.
#[derive(Clone, Debug)]
pub enum Change {
    /// Read the list as it is.
    Load,
    /// Put a path first.
    Remember(String),
    /// Take a path out.
    Remove(String),
    /// Empty the list.
    Clear,
}

/// A change, with its path as a sequence of characters.
pub enum ChangeView {
    Load,
    Remember(Seq<char>),
    Remove(Seq<char>),
    Clear,
}

impl View for Change {
    type V = ChangeView;

    open spec fn view(&self) -> ChangeView {
        match self {
            Change::Load => ChangeView::Load,
            Change::Remember(p) => ChangeView::Remember(p@),
            Change::Remove(p) => ChangeView::Remove(p@),
            Change::Clear => ChangeView::Clear,
        }
    }
}

pub open spec fn list_file_name(kind: Kind) -> Seq<char> {
    match kind {
        Kind::Archives => "recent-archives.json"@,
        Kind::Folders => "recent-folders.json"@,
    }
}

impl Kind {
    /// The name of the file that holds the list.
    pub fn file_name(self) -> (r: &'static str)
        ensures
            r@ == list_file_name(self),
    {
        match self {
            Kind::Archives => "recent-archives.json",
            Kind::Folders => "recent-folders.json",
        }
    }
}

/// The separators of a path: the slash and the backslash.
pub open spec fn is_separator(c: char) -> bool {
    c == '/' || c == '\\'
}

/// A part of a path that names something: not empty, not `.`.
pub open spec fn named_part(part: Seq<char>) -> bool {
    part.len() > 0 && part != "."@
}

/// The named parts of a path, read up to its end: those already complete,
/// and the part being read.
pub open spec fn scanned_parts(p: Seq<char>) -> (Seq<Seq<char>>, Seq<char>)
    decreases p.len(),
{
    if p.len() == 0 {
        (seq![], seq![])
    } else {
        let (done, current) = scanned_parts(p.drop_last());
        if is_separator(p.last()) {
            (if named_part(current) {
                done.push(current)
            } else {
                done
            }, seq![])
        } else {
            (done, current.push(p.last()))
        }
    }
}

/// How paths are compared, component by component: whether the path
/// starts at the root (with a separator), whether it starts with the
/// current folder (`.` as its first part), and its named parts in order.
/// Separators that repeat or end the path, and `.` parts after the first,
/// make no difference.
pub open spec fn path_key(p: Seq<char>) -> (bool, bool, Seq<Seq<char>>) {
    let rooted = p.len() > 0 && is_separator(p[0]);
    let current = !rooted && p.len() > 0 && p[0] == '.' && (p.len() == 1 || is_separator(p[1]));
    let (done, last) = scanned_parts(p);
    (rooted, current, if named_part(last) {
        done.push(last)
    } else {
        done
    })
}

/// The named parts of a path, as [`path_key`] reads them.
fn path_parts(p: &Vec<char>) -> (r: Vec<Vec<char>>)
    ensures
        r.deep_view() == path_key(p@).2,
{
    let mut done: Vec<Vec<char>> = Vec::new();
    let mut current: Vec<char> = Vec::new();
    let mut i: usize = 0;
    while i < p.len()
        invariant
            i <= p.len(),
            (done.deep_view(), current@) == scanned_parts(p@.take(i as int)),
        decreases p.len() - i,
    {
        assert(p@.take(i + 1).drop_last() =~= p@.take(i as int));
        assert(p@.take(i + 1).last() == p@[i as int]);
        let c = p[i];
        if c == '/' || c == '\\' {
            let n = current.len();
            if n > 0 && !(n == 1 && current[0] == '.') {
                assert(named_part(current@)) by {
                    if current@ == "."@ {
                        reveal_strlit(".");
                    }
                }
                let ghost before = done.deep_view();
                done.push(current);
                proof {
                    crate::scan::lemma_deep_chars(&done[done.len() - 1]);
                }
                assert(done.deep_view() =~= before.push(current@));
            } else {
                proof {
                    reveal_strlit(".");
                    if current@.len() == 1 {
                        assert(current@ =~= "."@);
                    }
                }
            }
            current = Vec::new();
        } else {
            current.push(c);
        }
        i = i + 1;
    }
    assert(p@.take(i as int) =~= p@);
    let n = current.len();
    if n > 0 && !(n == 1 && current[0] == '.') {
        assert(named_part(current@)) by {
            if current@ == "."@ {
                reveal_strlit(".");
            }
        }
        let ghost before = done.deep_view();
        done.push(current);
        proof {
            crate::scan::lemma_deep_chars(&done[done.len() - 1]);
        }
        assert(done.deep_view() =~= before.push(current@));
    } else {
        proof {
            reveal_strlit(".");
            if current@.len() == 1 {
                assert(current@ =~= "."@);
            }
        }
    }
    done
}

/// Whether two paths name the same place, compared component by component.
pub fn same_place(a: &str, b: &str) -> (r: bool)
    ensures
        r == (path_key(a@) == path_key(b@)),
{
    let x = crate::text::chars_of(a);
    let y = crate::text::chars_of(b);
    let rooted_x = x.len() > 0 && (x[0] == '/' || x[0] == '\\');
    let rooted_y = y.len() > 0 && (y[0] == '/' || y[0] == '\\');
    let current_x = !rooted_x && x.len() > 0 && x[0] == '.' && (x.len() == 1 || x[1] == '/' || x[1] == '\\');
    let current_y = !rooted_y && y.len() > 0 && y[0] == '.' && (y.len() == 1 || y[1] == '/' || y[1] == '\\');
    assert(path_key(a@).0 == rooted_x && path_key(b@).0 == rooted_y);
    assert(path_key(a@).1 == current_x && path_key(b@).1 == current_y);
    if rooted_x != rooted_y || current_x != current_y {
        return false;
    }
    let px = path_parts(&x);
    let py = path_parts(&y);
    if px.len() != py.len() {
        assert(px.deep_view().len() != py.deep_view().len());
        return false;
    }
    let mut i: usize = 0;
    while i < px.len()
        invariant
            i <= px.len(),
            px.len() == py.len(),
            px.deep_view() == path_key(a@).2,
            py.deep_view() == path_key(b@).2,
            forall|j: int| 0 <= j < i ==> px.deep_view()[j] == py.deep_view()[j],
        decreases px.len() - i,
    {
        proof {
            crate::scan::lemma_deep_chars(&px[i as int]);
            crate::scan::lemma_deep_chars(&py[i as int]);
        }
        if !crate::scan::same_chars(&px[i], &py[i]) {
            assert(px.deep_view()[i as int] != py.deep_view()[i as int]);
            return false;
        }
        i = i + 1;
    }
    assert(px.deep_view() =~= py.deep_view());
    true
}

/// The paths that name another place than `p`, in order.
pub open spec fn without(paths: Seq<Seq<char>>, p: Seq<char>) -> Seq<Seq<char>>
    decreases paths.len(),
{
    if paths.len() == 0 {
        seq![]
    } else if path_key(paths.last()) == path_key(p) {
        without(paths.drop_last(), p)
    } else {
        without(paths.drop_last(), p).push(paths.last())
    }
}

/// The first `n` items, or all of them where there are fewer.
pub open spec fn at_most<A>(s: Seq<A>, n: nat) -> Seq<A> {
    if s.len() > n {
        s.take(n as int)
    } else {
        s
    }
}

/// The list after a change, before paths that no longer exist are dropped.
pub open spec fn changed(paths: Seq<Seq<char>>, change: ChangeView) -> Seq<Seq<char>> {
    match change {
        ChangeView::Load => paths,
        ChangeView::Remember(p) => at_most(seq![p] + without(paths, p), LIMIT as nat),
        ChangeView::Remove(p) => without(paths, p),
        ChangeView::Clear => seq![],
    }
}

/// The paths whose flag says they still exist, in order.
pub open spec fn pruned(paths: Seq<Seq<char>>, missing: Seq<bool>) -> Seq<Seq<char>>
    decreases paths.len(),
{
    if paths.len() == 0 {
        seq![]
    } else {
        let before = pruned(paths.drop_last(), missing);
        if missing[paths.len() - 1] {
            before
        } else {
            before.push(paths.last())
        }
    }
}

/// Whether no place is named twice.
pub open spec fn distinct(paths: Seq<Seq<char>>) -> bool {
    forall|i: int, j: int| 0 <= i < j < paths.len() ==> path_key(paths[i]) != path_key(paths[j])
}

pub(crate) fn copy_paths(paths: &Vec<String>) -> (r: Vec<String>)
    ensures
        r.deep_view() == paths.deep_view(),
{
    let mut r: Vec<String> = Vec::new();
    let mut i: usize = 0;
    while i < paths.len()
        invariant
            i <= paths.len(),
            r.deep_view() == paths.deep_view().take(i as int),
        decreases paths.len() - i,
    {
        let ghost before = r.deep_view();
        r.push(paths[i].clone());
        assert(r.deep_view() =~= before.push(paths[i as int]@));
        assert(paths.deep_view().take(i + 1) =~= paths.deep_view().take(i as int).push(
            paths[i as int]@,
        ));
        i = i + 1;
    }
    assert(paths.deep_view().take(i as int) =~= paths.deep_view());
    r
}

/// The paths that name another place than `p`, in order.
fn remove_path(paths: &Vec<String>, p: &str) -> (r: Vec<String>)
    ensures
        r.deep_view() == without(paths.deep_view(), p@),
{
    let mut r: Vec<String> = Vec::new();
    let mut i: usize = 0;
    while i < paths.len()
        invariant
            i <= paths.len(),
            r.deep_view() == without(paths.deep_view().take(i as int), p@),
        decreases paths.len() - i,
    {
        assert(paths.deep_view().take(i + 1).drop_last() =~= paths.deep_view().take(i as int));
        assert(paths.deep_view().take(i + 1).last() == paths[i as int]@);
        if !same_place(paths[i].as_str(), p) {
            let ghost before = r.deep_view();
            r.push(paths[i].clone());
            assert(r.deep_view() =~= before.push(paths[i as int]@));
        }
        i = i + 1;
    }
    assert(paths.deep_view().take(i as int) =~= paths.deep_view());
    r
}

/// The list after a change, before paths that no longer exist are dropped:
/// a remembered path comes first, once, and the list keeps its first twenty.
pub fn apply_change(paths: &Vec<String>, change: &Change) -> (r: Vec<String>)
    ensures
        r.deep_view() == changed(paths.deep_view(), change@),
{
    match change {
        Change::Load => copy_paths(paths),
        Change::Remember(p) => {
            let rest = remove_path(paths, p.as_str());
            let mut r: Vec<String> = Vec::new();
            r.push(p.clone());
            let mut i: usize = 0;
            while i < rest.len() && r.len() < LIMIT
                invariant
                    i <= rest.len(),
                    r.len() == i + 1,
                    r.len() <= LIMIT,
                    r.deep_view() == (seq![p@] + rest.deep_view()).take(i + 1),
                decreases rest.len() - i,
            {
                let ghost before = r.deep_view();
                r.push(rest[i].clone());
                assert(r.deep_view() =~= before.push(rest[i as int]@));
                assert((seq![p@] + rest.deep_view()).take(i + 2) =~= (seq![p@]
                    + rest.deep_view()).take(i + 1).push(rest[i as int]@));
                i = i + 1;
            }
            assert(r.deep_view() =~= at_most(seq![p@] + rest.deep_view(), LIMIT as nat));
            r
        },
        Change::Remove(p) => remove_path(paths, p.as_str()),
        Change::Clear => {
            let r: Vec<String> = Vec::new();
            assert(r.deep_view() =~= seq![]);
            r
        },
    }
}

/// The paths that still exist: `missing[i]` tells whether `paths[i]` is gone.
pub fn prune(paths: &Vec<String>, missing: &Vec<bool>) -> (r: Vec<String>)
    requires
        missing.len() == paths.len(),
    ensures
        r.deep_view() == pruned(paths.deep_view(), missing@),
{
    let mut r: Vec<String> = Vec::new();
    let mut i: usize = 0;
    while i < paths.len()
        invariant
            i <= paths.len(),
            missing.len() == paths.len(),
            r.deep_view() == pruned(paths.deep_view().take(i as int), missing@),
        decreases paths.len() - i,
    {
        assert(paths.deep_view().take(i + 1).drop_last() =~= paths.deep_view().take(i as int));
        assert(paths.deep_view().take(i + 1).last() == paths[i as int]@);
        if !missing[i] {
            let ghost before = r.deep_view();
            r.push(paths[i].clone());
            assert(r.deep_view() =~= before.push(paths[i as int]@));
        }
        i = i + 1;
    }
    assert(paths.deep_view().take(i as int) =~= paths.deep_view());
    r
}

/// Whether two lists name the same places in the same order, compared
/// component by component; where they do not, the new list is written back.
pub fn same_paths(a: &Vec<String>, b: &Vec<String>) -> (r: bool)
    ensures
        r == (a@.len() == b@.len() && forall|j: int|
            0 <= j < a@.len() ==> path_key(#[trigger] a.deep_view()[j]) == path_key(b.deep_view()[j])),
{
    if a.len() != b.len() {
        return false;
    }
    let mut i: usize = 0;
    while i < a.len()
        invariant
            i <= a.len(),
            a.len() == b.len(),
            forall|j: int| 0 <= j < i ==> path_key(#[trigger] a.deep_view()[j]) == path_key(b.deep_view()[j]),
        decreases a.len() - i,
    {
        if !same_place(a[i].as_str(), b[i].as_str()) {
            assert(path_key(a.deep_view()[i as int]) != path_key(b.deep_view()[i as int]));
            return false;
        }
        i = i + 1;
    }
    true
}

/// The error type of `serde_json`.
#[verifier::external_type_specification]
#[verifier::external_body]
pub struct ExJsonError(serde_json::Error);

/// The list of paths that `serde_json::from_slice::<Vec<String>>` reads
/// from a list file's bytes, where they hold one.
pub uninterp spec fn json_paths(bytes: Seq<u8>) -> Option<Seq<Seq<char>>>;

/// `serde_json::from_slice::<Vec<String>>`: the paths that the bytes hold as
/// a JSON array of strings, or an error where they hold no such array. The
/// JSON grammar is not stated; the result is named.
#[verifier::external_body]
fn parse_paths(bytes: &[u8]) -> (r: Result<Vec<String>, serde_json::Error>)
    ensures
        match r {
            Ok(v) => json_paths(bytes@) == Some(v.deep_view()),
            Err(_) => json_paths(bytes@) is None,
        },
{
    serde_json::from_slice(bytes)
}

/// `serde_json::to_vec` on a list of paths: the JSON array of the paths,
/// which `from_slice` reads back as the same list. It does not fail: its
/// documentation names only a failing `Serialize` impl and a map with
/// non-string keys as causes, and a list of strings has neither. The text
/// it writes is not stated.
#[verifier::external_body]
fn paths_json(paths: &Vec<String>) -> (r: Result<Vec<u8>, serde_json::Error>)
    ensures
        r is Ok,
        r matches Ok(b) ==> json_paths(b@) == Some(paths.deep_view()),
{
    serde_json::to_vec(paths)
}

/// Why a history list file could not be used.
#[derive(Clone, Copy, Debug, PartialEq, Eq, Structural)]
pub enum HistoryError {
    /// The file does not hold a list of paths.
    Unreadable,
}

/// The list that a history file holds; `None` where there is no file, which
/// is an empty list.
pub fn stored_paths(bytes: Option<Vec<u8>>) -> (r: Result<Vec<String>, HistoryError>)
    ensures
        match bytes {
            None => r matches Ok(v) && v@.len() == 0,
            Some(b) => match json_paths(b@) {
                Some(p) => r matches Ok(v) && v.deep_view() == p,
                None => r == Err::<Vec<String>, HistoryError>(HistoryError::Unreadable),
            },
        },
{
    match bytes {
        None => Ok(Vec::new()),
        Some(b) => match parse_paths(b.as_slice()) {
            Ok(v) => Ok(v),
            Err(_) => Err(HistoryError::Unreadable),
        },
    }
}

/// The bytes of a history file that holds the list; reading them back
/// gives the same list. Writing a list of paths cannot fail.
pub fn stored_bytes(paths: &Vec<String>) -> (r: Vec<u8>)
    ensures
        json_paths(r@) == Some(paths.deep_view()),
{
    match paths_json(paths) {
        Ok(b) => b,
        Err(_) => {
            assert(false);
            Vec::new()
        },
    }
}

/// An item of the shared history file, which keeps both lists in one: a
/// path and the list it belongs to.
#[derive(Clone, Debug)]
pub struct Entry {
    pub path: String,
    pub kind: Kind,
}

impl View for Entry {
    type V = (Seq<char>, Kind);

    open spec fn view(&self) -> (Seq<char>, Kind) {
        (self.path@, self.kind)
    }
}

impl DeepView for Entry {
    type V = (Seq<char>, Kind);

    open spec fn deep_view(&self) -> (Seq<char>, Kind) {
        self@
    }
}

/// The items whose path names another place than `p`, in order.
pub open spec fn without_entry(items: Seq<(Seq<char>, Kind)>, p: Seq<char>) -> Seq<(Seq<char>, Kind)>
    decreases items.len(),
{
    if items.len() == 0 {
        seq![]
    } else if path_key(items.last().0) == path_key(p) {
        without_entry(items.drop_last(), p)
    } else {
        without_entry(items.drop_last(), p).push(items.last())
    }
}

/// The shared history after a change made to the list of `kind`, before
/// missing paths are dropped: a remembered path comes first, once, under
/// that list, whichever list held it before.
pub open spec fn entries_changed(items: Seq<(Seq<char>, Kind)>, change: ChangeView, kind: Kind) -> Seq<
    (Seq<char>, Kind),
> {
    match change {
        ChangeView::Load => items,
        ChangeView::Remember(p) => seq![(p, kind)] + without_entry(items, p),
        ChangeView::Remove(p) => without_entry(items, p),
        ChangeView::Clear => seq![],
    }
}

/// The items whose flag says their path still exists, at most twenty.
pub open spec fn entries_kept(items: Seq<(Seq<char>, Kind)>, missing: Seq<bool>) -> Seq<
    (Seq<char>, Kind),
> {
    at_most(kept_items(items, missing), LIMIT as nat)
}

pub open spec fn kept_items(items: Seq<(Seq<char>, Kind)>, missing: Seq<bool>) -> Seq<
    (Seq<char>, Kind),
>
    decreases items.len(),
{
    if items.len() == 0 {
        seq![]
    } else {
        let before = kept_items(items.drop_last(), missing);
        if missing[items.len() - 1] {
            before
        } else {
            before.push(items.last())
        }
    }
}

fn copy_entry(e: &Entry) -> (r: Entry)
    ensures
        r@ == e@,
{
    Entry { path: e.path.clone(), kind: e.kind }
}

fn remove_entry(items: &Vec<Entry>, p: &str) -> (r: Vec<Entry>)
    ensures
        r.deep_view() == without_entry(items.deep_view(), p@),
{
    let mut r: Vec<Entry> = Vec::new();
    let mut i: usize = 0;
    while i < items.len()
        invariant
            i <= items.len(),
            r.deep_view() == without_entry(items.deep_view().take(i as int), p@),
        decreases items.len() - i,
    {
        assert(items.deep_view().take(i + 1).drop_last() =~= items.deep_view().take(i as int));
        assert(items.deep_view().take(i + 1).last() == items[i as int]@);
        if !same_place(items[i].path.as_str(), p) {
            let ghost before = r.deep_view();
            r.push(copy_entry(&items[i]));
            assert(r.deep_view() =~= before.push(items[i as int]@));
        }
        i = i + 1;
    }
    assert(items.deep_view().take(i as int) =~= items.deep_view());
    r
}

/// The shared history after a change made to the list of `kind`, before
/// missing paths are dropped.
pub fn apply_entry_change(items: &Vec<Entry>, change: &Change, kind: Kind) -> (r: Vec<Entry>)
    ensures
        r.deep_view() == entries_changed(items.deep_view(), change@, kind),
{
    match change {
        Change::Load => {
            let mut r: Vec<Entry> = Vec::new();
            let mut i: usize = 0;
            while i < items.len()
                invariant
                    i <= items.len(),
                    r.deep_view() == items.deep_view().take(i as int),
                decreases items.len() - i,
            {
                let ghost before = r.deep_view();
                r.push(copy_entry(&items[i]));
                assert(r.deep_view() =~= before.push(items[i as int]@));
                assert(items.deep_view().take(i + 1) =~= items.deep_view().take(i as int).push(
                    items[i as int]@,
                ));
                i = i + 1;
            }
            assert(items.deep_view().take(i as int) =~= items.deep_view());
            r
        },
        Change::Remember(p) => {
            let rest = remove_entry(items, p.as_str());
            let mut r: Vec<Entry> = Vec::new();
            r.push(Entry { path: p.clone(), kind });
            let mut i: usize = 0;
            while i < rest.len()
                invariant
                    i <= rest.len(),
                    r.deep_view() == seq![(p@, kind)] + rest.deep_view().take(i as int),
                decreases rest.len() - i,
            {
                let ghost before = r.deep_view();
                r.push(copy_entry(&rest[i]));
                assert(r.deep_view() =~= before.push(rest[i as int]@));
                assert(seq![(p@, kind)] + rest.deep_view().take(i + 1) =~= (seq![(p@, kind)]
                    + rest.deep_view().take(i as int)).push(rest[i as int]@));
                i = i + 1;
            }
            assert(rest.deep_view().take(i as int) =~= rest.deep_view());
            r
        },
        Change::Remove(p) => remove_entry(items, p.as_str()),
        Change::Clear => {
            let r: Vec<Entry> = Vec::new();
            assert(r.deep_view() =~= seq![]);
            r
        },
    }
}

/// The items whose path still exists (`missing[i]` tells whether the path
/// of `items[i]` is gone), at most twenty.
pub fn keep_entries(items: &Vec<Entry>, missing: &Vec<bool>) -> (r: Vec<Entry>)
    requires
        missing.len() == items.len(),
    ensures
        r.deep_view() == entries_kept(items.deep_view(), missing@),
{
    let mut r: Vec<Entry> = Vec::new();
    let mut i: usize = 0;
    while i < items.len()
        invariant
            i <= items.len(),
            missing.len() == items.len(),
            r.deep_view() == kept_items(items.deep_view().take(i as int), missing@),
        decreases items.len() - i,
    {
        assert(items.deep_view().take(i + 1).drop_last() =~= items.deep_view().take(i as int));
        assert(items.deep_view().take(i + 1).last() == items[i as int]@);
        if !missing[i] {
            let ghost before = r.deep_view();
            r.push(copy_entry(&items[i]));
            assert(r.deep_view() =~= before.push(items[i as int]@));
        }
        i = i + 1;
    }
    assert(items.deep_view().take(i as int) =~= items.deep_view());
    if r.len() > LIMIT {
        r.truncate(LIMIT);
    }
    proof {
        let k = kept_items(items.deep_view(), missing@);
        assert(r.deep_view() =~= at_most(k, LIMIT as nat));
    }
    r
}

/// The first item survives pruning where its path still exists.
proof fn lemma_kept_first(items: Seq<(Seq<char>, Kind)>, missing: Seq<bool>)
    requires
        items.len() > 0,
        missing.len() >= items.len(),
        !missing[0],
    ensures
        kept_items(items, missing).len() > 0,
        kept_items(items, missing)[0] == items[0],
    decreases items.len(),
{
    if items.len() > 1 {
        lemma_kept_first(items.drop_last(), missing);
        assert(items.drop_last()[0] == items[0]);
    } else {
        assert(kept_items(items.drop_last(), missing) =~= seq![]);
        assert(items.last() == items[0]);
    }
}

/// In the shared history, a remembered path that still exists comes first,
/// under the list it was remembered in.
pub proof fn law_shared_remember_first(
    items: Seq<(Seq<char>, Kind)>,
    p: Seq<char>,
    kind: Kind,
    missing: Seq<bool>,
)
    requires
        missing.len() == entries_changed(items, ChangeView::Remember(p), kind).len(),
        !missing[0],
    ensures
        entries_kept(entries_changed(items, ChangeView::Remember(p), kind), missing)[0] == (p, kind),
{
    lemma_kept_first(entries_changed(items, ChangeView::Remember(p), kind), missing);
}

/// Every path of `without(paths, p)` is a path of `paths` other than `p`,
/// and every such path is kept.
pub proof fn lemma_without(paths: Seq<Seq<char>>, p: Seq<char>)
    ensures
        forall|i: int|
            0 <= i < without(paths, p).len() ==> path_key(#[trigger] without(paths, p)[i]) != path_key(p),
        forall|i: int|
            0 <= i < without(paths, p).len() ==> paths.contains(#[trigger] without(paths, p)[i]),
        forall|q: Seq<char>|
            path_key(q) != path_key(p) && paths.contains(q) ==> without(paths, p).contains(q),
        without(paths, p).len() <= paths.len(),
        distinct(paths) ==> distinct(without(paths, p)),
    decreases paths.len(),
{
    if paths.len() > 0 {
        let rest = paths.drop_last();
        lemma_without(rest, p);
        let w = without(rest, p);
        assert forall|q: Seq<char>| path_key(q) != path_key(p) && paths.contains(q) implies without(
            paths,
            p,
        ).contains(q) by {
            let k = choose|k: int| 0 <= k < paths.len() && paths[k] == q;
            if k < paths.len() - 1 {
                assert(rest[k] == q);
                assert(rest.contains(q));
                let j = choose|j: int| 0 <= j < w.len() && w[j] == q;
                if path_key(paths.last()) == path_key(p) {
                } else {
                    assert(without(paths, p)[j] == q);
                }
            } else {
                assert(without(paths, p)[w.len() as int] == q);
            }
        }
        assert forall|i: int| 0 <= i < without(paths, p).len() implies paths.contains(
            #[trigger] without(paths, p)[i],
        ) by {
            if i < w.len() {
                let x = w[i];
                assert(rest.contains(x));
                let k = choose|k: int| 0 <= k < rest.len() && rest[k] == x;
                assert(paths[k] == x);
            } else {
                assert(paths[paths.len() - 1] == paths.last());
            }
        }
        if distinct(paths) {
            assert(distinct(rest));
            if path_key(paths.last()) != path_key(p) {
                assert forall|i: int, j: int|
                    0 <= i < j < without(paths, p).len() implies path_key(without(paths, p)[i]) != path_key(
                    without(paths, p)[j],
                ) by {
                    if j == w.len() {
                        let x = w[i];
                        assert(rest.contains(x));
                        let k = choose|k: int| 0 <= k < rest.len() && rest[k] == x;
                        assert(paths[k] == x);
                    }
                }
            }
        }
    }
}

/// Without `p`, a list that does not name its place is unchanged.
pub proof fn lemma_without_absent(paths: Seq<Seq<char>>, p: Seq<char>)
    requires
        forall|i: int| 0 <= i < paths.len() ==> path_key(#[trigger] paths[i]) != path_key(p),
    ensures
        without(paths, p) == paths,
    decreases paths.len(),
{
    if paths.len() > 0 {
        assert forall|i: int| 0 <= i < paths.drop_last().len() implies path_key(
            #[trigger] paths.drop_last()[i],
        ) != path_key(p) by {
            assert(paths.drop_last()[i] == paths[i]);
        }
        lemma_without_absent(paths.drop_last(), p);
        assert(paths.drop_last().push(paths.last()) =~= paths);
    }
}

/// After a path is remembered, it comes first and its place nowhere else,
/// and the list holds at most twenty paths.
pub proof fn law_remember_puts_first(paths: Seq<Seq<char>>, p: Seq<char>)
    ensures
        ({
            let r = changed(paths, ChangeView::Remember(p));
            &&& 1 <= r.len() <= LIMIT
            &&& r[0] == p
            &&& forall|i: int| 1 <= i < r.len() ==> path_key(#[trigger] r[i]) != path_key(p)
        }),
{
    lemma_without(paths, p);
    let w = without(paths, p);
    let r = changed(paths, ChangeView::Remember(p));
    assert forall|i: int| 1 <= i < r.len() implies path_key(#[trigger] r[i]) != path_key(p) by {
        assert(r[i] == (seq![p] + w)[i]);
        assert((seq![p] + w)[i] == w[i - 1]);
    }
}

/// Remembering a path twice is remembering it once.
pub proof fn law_remember_idempotent(paths: Seq<Seq<char>>, p: Seq<char>)
    ensures
        changed(changed(paths, ChangeView::Remember(p)), ChangeView::Remember(p)) == changed(
            paths,
            ChangeView::Remember(p),
        ),
{
    let r = changed(paths, ChangeView::Remember(p));
    law_remember_puts_first(paths, p);
    let tail = r.drop_first();
    assert forall|i: int| 0 <= i < tail.len() implies path_key(#[trigger] tail[i]) != path_key(p) by {
        assert(tail[i] == r[i + 1]);
    }
    lemma_without_absent(tail, p);
    assert(without(r, p) == without(tail, p)) by {
        lemma_without_front(tail, p);
        assert(seq![p] + tail =~= r);
    }
    assert(seq![p] + tail =~= r);
    assert(at_most(seq![p] + without(r, p), LIMIT as nat) == r);
}

/// A path in front that is dropped leaves the rest.
pub proof fn lemma_without_front(paths: Seq<Seq<char>>, p: Seq<char>)
    ensures
        without(seq![p] + paths, p) == without(paths, p),
    decreases paths.len(),
{
    if paths.len() == 0 {
        let one = seq![p] + paths;
        assert(one =~= seq![p]);
        assert(one.drop_last() =~= Seq::<Seq<char>>::empty());
        assert(without(one.drop_last(), p) =~= Seq::<Seq<char>>::empty());
        assert(one.last() == p);
        assert(without(one, p) == without(one.drop_last(), p));
    } else {
        lemma_without_front(paths.drop_last(), p);
        assert((seq![p] + paths).drop_last() =~= seq![p] + paths.drop_last());
        assert((seq![p] + paths).last() == paths.last());
    }
}

/// After a path is removed, the list names its place nowhere, and holds
/// every path of another place that it held.
pub proof fn law_remove_takes_out(paths: Seq<Seq<char>>, p: Seq<char>)
    ensures
        forall|i: int|
            0 <= i < changed(paths, ChangeView::Remove(p)).len() ==> path_key(
                #[trigger] changed(paths, ChangeView::Remove(p))[i],
            ) != path_key(p),
        forall|q: Seq<char>|
            path_key(q) != path_key(p) ==> (changed(paths, ChangeView::Remove(p)).contains(q)
                <==> paths.contains(q)),
{
    lemma_without(paths, p);
    let w = without(paths, p);
    assert forall|q: Seq<char>| path_key(q) != path_key(p) implies (w.contains(q) <==> paths.contains(q)) by {
        if w.contains(q) {
            let k = choose|k: int| 0 <= k < w.len() && w[k] == q;
            assert(paths.contains(w[k]));
        }
    }
}

/// Clearing empties the list; loading leaves it as it is.
pub proof fn law_clear_and_load(paths: Seq<Seq<char>>)
    ensures
        changed(paths, ChangeView::Clear).len() == 0,
        changed(paths, ChangeView::Load) == paths,
{
}

/// No change makes a place named twice.
pub proof fn law_changes_keep_paths_distinct(paths: Seq<Seq<char>>, change: ChangeView)
    requires
        distinct(paths),
    ensures
        distinct(changed(paths, change)),
{
    match change {
        ChangeView::Remember(p) => {
            lemma_without(paths, p);
            let w = without(paths, p);
            let r = changed(paths, change);
            assert forall|i: int, j: int| 0 <= i < j < r.len() implies path_key(r[i]) != path_key(r[j]) by {
                if i == 0 {
                    assert(r[j] == w[j - 1]);
                } else {
                    assert(r[i] == w[i - 1]);
                    assert(r[j] == w[j - 1]);
                }
            }
        },
        ChangeView::Remove(p) => {
            lemma_without(paths, p);
        },
        _ => {},
    }
}

/// Remembering a path and then removing it leaves the other paths as they
/// were, less the last one where the list was full.
pub proof fn law_remember_then_remove(paths: Seq<Seq<char>>, p: Seq<char>)
    ensures
        changed(changed(paths, ChangeView::Remember(p)), ChangeView::Remove(p)) == at_most(
            without(paths, p),
            (LIMIT - 1) as nat,
        ),
{
    let r = changed(paths, ChangeView::Remember(p));
    law_remember_puts_first(paths, p);
    lemma_without(paths, p);
    let w = without(paths, p);
    let tail = r.drop_first();
    assert(tail =~= at_most(w, (LIMIT - 1) as nat));
    assert forall|i: int| 0 <= i < tail.len() implies path_key(#[trigger] tail[i]) != path_key(p) by {
        assert(tail[i] == r[i + 1]);
    }
    lemma_without_absent(tail, p);
    lemma_without_front(tail, p);
    assert(seq![p] + tail =~= r);
}

/// Dropping the paths that no longer exist keeps exactly the others, in order.
pub proof fn law_prune_keeps_existing(paths: Seq<Seq<char>>, missing: Seq<bool>)
    requires
        missing.len() == paths.len(),
    ensures
        forall|i: int|
            0 <= i < pruned(paths, missing).len() ==> exists|k: int|
                0 <= k < paths.len() && paths[k] == #[trigger] pruned(paths, missing)[i] && !missing[k],
        forall|k: int| 0 <= k < paths.len() && !missing[k] ==> pruned(paths, missing).contains(#[trigger] paths[k]),
        distinct(paths) ==> distinct(pruned(paths, missing)),
    decreases paths.len(),
{
    if paths.len() > 0 {
        let rest = paths.drop_last();
        let m = missing.drop_last();
        lemma_pruned_prefix(paths, missing);
        law_prune_keeps_existing(rest, m);
        let before = pruned(rest, m);
        assert(pruned(rest, missing) == before);
        assert forall|i: int| 0 <= i < pruned(paths, missing).len() implies exists|k: int|
            0 <= k < paths.len() && paths[k] == #[trigger] pruned(paths, missing)[i] && !missing[k] by {
            if i < before.len() {
                let k = choose|k: int|
                    0 <= k < rest.len() && rest[k] == #[trigger] before[i] && !m[k];
                assert(paths[k] == before[i]);
            } else {
                assert(paths[paths.len() - 1] == paths.last());
            }
        }
        assert forall|k: int| 0 <= k < paths.len() && !missing[k] implies pruned(paths, missing).contains(
            #[trigger] paths[k],
        ) by {
            if k < paths.len() - 1 {
                assert(rest[k] == paths[k]);
                assert(!m[k]);
                assert(before.contains(rest[k]));
                let j = choose|j: int| 0 <= j < before.len() && before[j] == rest[k];
                assert(pruned(paths, missing)[j] == paths[k]);
            } else {
                assert(pruned(paths, missing)[before.len() as int] == paths[k]);
            }
        }
        if distinct(paths) {
            assert(distinct(rest));
            assert forall|i: int, j: int|
                0 <= i < j < pruned(paths, missing).len() implies path_key(pruned(paths, missing)[i])
                != path_key(pruned(paths, missing)[j]) by {
                if j == before.len() && !missing[paths.len() - 1] {
                    let k = choose|k: int|
                        0 <= k < rest.len() && rest[k] == #[trigger] before[i] && !m[k];
                    assert(paths[k] == before[i]);
                }
            }
        }
    }
}

/// Only the flags of the paths looked at count.
proof fn lemma_pruned_prefix(paths: Seq<Seq<char>>, missing: Seq<bool>)
    requires
        paths.len() > 0,
        missing.len() == paths.len(),
    ensures
        pruned(paths.drop_last(), missing) == pruned(paths.drop_last(), missing.drop_last()),
{
    lemma_pruned_flags(paths.drop_last(), missing, missing.drop_last());
}

proof fn lemma_pruned_flags(paths: Seq<Seq<char>>, a: Seq<bool>, b: Seq<bool>)
    requires
        paths.len() <= a.len(),
        paths.len() <= b.len(),
        forall|i: int| 0 <= i < paths.len() ==> a[i] == b[i],
    ensures
        pruned(paths, a) == pruned(paths, b),
    decreases paths.len(),
{
    if paths.len() > 0 {
        lemma_pruned_flags(paths.drop_last(), a, b);
    }
}

/// No item of `without_entry(items, p)` names the place of `p`.
pub proof fn lemma_without_entry_omits(items: Seq<(Seq<char>, Kind)>, p: Seq<char>)
    ensures
        forall|i: int|
            0 <= i < without_entry(items, p).len() ==> path_key((#[trigger] without_entry(items, p)[i]).0)
                != path_key(p),
    decreases items.len(),
{
    if items.len() > 0 {
        lemma_without_entry_omits(items.drop_last(), p);
        let b = without_entry(items.drop_last(), p);
        if path_key(items.last().0) != path_key(p) {
            assert forall|i: int| 0 <= i < b.push(items.last()).len() implies path_key((#[trigger] b.push(
                items.last(),
            )[i]).0) != path_key(p) by {
                if i < b.len() {
                    assert(b.push(items.last())[i] == b[i]);
                }
            }
        }
    }
}

/// Dropping a place that no item names leaves the items.
pub proof fn lemma_without_entry_absent(items: Seq<(Seq<char>, Kind)>, p: Seq<char>)
    requires
        forall|i: int| 0 <= i < items.len() ==> path_key((#[trigger] items[i]).0) != path_key(p),
    ensures
        without_entry(items, p) == items,
    decreases items.len(),
{
    if items.len() > 0 {
        assert forall|i: int| 0 <= i < items.drop_last().len() implies path_key(
            (#[trigger] items.drop_last()[i]).0,
        ) != path_key(p) by {
            assert(items.drop_last()[i] == items[i]);
        }
        lemma_without_entry_absent(items.drop_last(), p);
        assert(items.drop_last().push(items.last()) =~= items);
    }
}

/// Where nothing is missing, every item is kept.
pub proof fn lemma_kept_all(items: Seq<(Seq<char>, Kind)>, missing: Seq<bool>)
    requires
        missing.len() == items.len(),
        forall|i: int| 0 <= i < missing.len() ==> !#[trigger] missing[i],
    ensures
        kept_items(items, missing) == items,
    decreases items.len(),
{
    if items.len() > 0 {
        let m = missing.take(items.len() - 1);
        lemma_kept_all(items.drop_last(), m);
        lemma_kept_prefix(items.drop_last(), missing, m);
        assert(items.drop_last().push(items.last()) =~= items);
    }
}

proof fn lemma_kept_prefix(items: Seq<(Seq<char>, Kind)>, long: Seq<bool>, short: Seq<bool>)
    requires
        items.len() <= short.len() <= long.len(),
        forall|i: int| 0 <= i < short.len() ==> #[trigger] short[i] == long[i],
    ensures
        kept_items(items, long) == kept_items(items, short),
    decreases items.len(),
{
    if items.len() > 0 {
        lemma_kept_prefix(items.drop_last(), long, short);
    }
}

proof fn lemma_kept_front(x: (Seq<char>, Kind), t: Seq<(Seq<char>, Kind)>, m: Seq<bool>)
    requires
        m.len() >= t.len() + 1,
        !m[0],
    ensures
        kept_items(seq![x] + t, m) == seq![x] + kept_items(t, m.drop_first()),
    decreases t.len(),
{
    let s = seq![x] + t;
    if t.len() == 0 {
        assert(s.drop_last() =~= Seq::<(Seq<char>, Kind)>::empty());
        assert(s.last() == x);
        assert(s.len() == 1);
        assert(kept_items(s.drop_last(), m) =~= Seq::<(Seq<char>, Kind)>::empty());
        assert(kept_items(s, m) =~= seq![x]);
        assert(seq![x] + kept_items(t, m.drop_first()) =~= seq![x]);
    } else {
        lemma_kept_front(x, t.drop_last(), m);
        assert(s.drop_last() =~= seq![x] + t.drop_last());
        assert(s.last() == t.last());
        assert(m[s.len() - 1] == m.drop_first()[t.len() - 1]);
        let k = kept_items(t.drop_last(), m.drop_first());
        assert((seq![x] + k).push(t.last()) =~= seq![x] + k.push(t.last()));
    }
}

proof fn lemma_kept_keys(t: Seq<(Seq<char>, Kind)>, m: Seq<bool>, p: Seq<char>)
    requires
        m.len() >= t.len(),
        forall|i: int| 0 <= i < t.len() ==> path_key((#[trigger] t[i]).0) != path_key(p),
    ensures
        forall|i: int|
            0 <= i < kept_items(t, m).len() ==> path_key((#[trigger] kept_items(t, m)[i]).0) != path_key(p),
        kept_items(t, m).len() <= t.len(),
    decreases t.len(),
{
    if t.len() > 0 {
        assert forall|i: int| 0 <= i < t.drop_last().len() implies path_key(
            (#[trigger] t.drop_last()[i]).0,
        ) != path_key(p) by {
            assert(t.drop_last()[i] == t[i]);
        }
        lemma_kept_keys(t.drop_last(), m, p);
        let k = kept_items(t.drop_last(), m);
        assert forall|i: int| 0 <= i < k.push(t.last()).len() implies path_key(
            (#[trigger] k.push(t.last())[i]).0,
        ) != path_key(p) by {
            if i < k.len() {
                assert(k.push(t.last())[i] == k[i]);
            }
        }
    }
}

/// In the shared history, remembering a path that exists, then
/// remembering it again while every path kept still exists, changes
/// nothing: the path comes first, its place nowhere else, the history
/// holds at most twenty items, and the second change gives it back as it
/// was (so nothing is written).
pub proof fn law_shared_remember_idempotent(
    items: Seq<(Seq<char>, Kind)>,
    p: Seq<char>,
    kind: Kind,
    first: Seq<bool>,
    second: Seq<bool>,
)
    requires
        first.len() == entries_changed(items, ChangeView::Remember(p), kind).len(),
        !first[0],
        second.len() == entries_changed(
            entries_kept(entries_changed(items, ChangeView::Remember(p), kind), first),
            ChangeView::Remember(p),
            kind,
        ).len(),
        forall|i: int| 0 <= i < second.len() ==> !#[trigger] second[i],
    ensures
        ({
            let once = entries_kept(entries_changed(items, ChangeView::Remember(p), kind), first);
            &&& 1 <= once.len() <= LIMIT
            &&& once[0] == (p, kind)
            &&& forall|i: int| 1 <= i < once.len() ==> path_key((#[trigger] once[i]).0) != path_key(p)
            &&& entries_kept(entries_changed(once, ChangeView::Remember(p), kind), second) == once
        }),
{
    let w = without_entry(items, p);
    lemma_without_entry_omits(items, p);
    lemma_kept_front((p, kind), w, first);
    let kw = kept_items(w, first.drop_first());
    lemma_kept_keys(w, first.drop_first(), p);
    let all = seq![(p, kind)] + kw;
    let once = at_most(all, LIMIT as nat);
    assert(once.len() >= 1);
    assert(once[0] == (p, kind));
    let t = once.drop_first();
    assert forall|i: int| 0 <= i < t.len() implies path_key((#[trigger] t[i]).0) != path_key(p) by {
        assert(t[i] == once[i + 1]);
        assert(once[i + 1] == all[i + 1]);
        assert(all[i + 1] == kw[i]);
    }
    assert forall|i: int| 1 <= i < once.len() implies path_key((#[trigger] once[i]).0) != path_key(p) by {
        assert(once[i] == t[i - 1]);
    }
    lemma_without_entry_absent(t, p);
    lemma_without_entry_front_item(t, p, kind);
    assert(seq![(p, kind)] + t =~= once);
    let c2 = entries_changed(once, ChangeView::Remember(p), kind);
    assert(c2 =~= once);
    lemma_kept_all(c2, second);
}

proof fn lemma_pruned_front(x: Seq<char>, t: Seq<Seq<char>>, m: Seq<bool>)
    requires
        m.len() >= t.len() + 1,
        !m[0],
    ensures
        pruned(seq![x] + t, m) == seq![x] + pruned(t, m.drop_first()),
    decreases t.len(),
{
    let s = seq![x] + t;
    if t.len() == 0 {
        assert(s.drop_last() =~= Seq::<Seq<char>>::empty());
        assert(s.last() == x);
        assert(s.len() == 1);
        assert(pruned(s.drop_last(), m) =~= Seq::<Seq<char>>::empty());
        assert(pruned(s, m) =~= seq![x]);
        assert(seq![x] + pruned(t, m.drop_first()) =~= seq![x]);
    } else {
        lemma_pruned_front(x, t.drop_last(), m);
        assert(s.drop_last() =~= seq![x] + t.drop_last());
        assert(s.last() == t.last());
        assert(m[s.len() - 1] == m.drop_first()[t.len() - 1]);
        let k = pruned(t.drop_last(), m.drop_first());
        assert((seq![x] + k).push(t.last()) =~= seq![x] + k.push(t.last()));
    }
}

proof fn lemma_pruned_keys(t: Seq<Seq<char>>, m: Seq<bool>, p: Seq<char>)
    requires
        m.len() >= t.len(),
        forall|i: int| 0 <= i < t.len() ==> path_key(#[trigger] t[i]) != path_key(p),
    ensures
        forall|i: int| 0 <= i < pruned(t, m).len() ==> path_key(#[trigger] pruned(t, m)[i]) != path_key(p),
        pruned(t, m).len() <= t.len(),
    decreases t.len(),
{
    if t.len() > 0 {
        assert forall|i: int| 0 <= i < t.drop_last().len() implies path_key(#[trigger] t.drop_last()[i])
            != path_key(p) by {
            assert(t.drop_last()[i] == t[i]);
        }
        lemma_pruned_keys(t.drop_last(), m, p);
        let k = pruned(t.drop_last(), m);
        assert forall|i: int| 0 <= i < k.push(t.last()).len() implies path_key(
            #[trigger] k.push(t.last())[i],
        ) != path_key(p) by {
            if i < k.len() {
                assert(k.push(t.last())[i] == k[i]);
            }
        }
    }
}

proof fn lemma_pruned_all(paths: Seq<Seq<char>>, missing: Seq<bool>)
    requires
        missing.len() == paths.len(),
        forall|i: int| 0 <= i < missing.len() ==> !#[trigger] missing[i],
    ensures
        pruned(paths, missing) == paths,
    decreases paths.len(),
{
    if paths.len() > 0 {
        let m = missing.take(paths.len() - 1);
        lemma_pruned_all(paths.drop_last(), m);
        lemma_pruned_flags(paths.drop_last(), missing, m);
        assert(paths.drop_last().push(paths.last()) =~= paths);
    }
}

/// Remembering a path that exists, then remembering it again while every
/// path kept still exists, changes nothing: the path comes first, its place
/// nowhere else, the list holds at most twenty paths, and the second change
/// gives the list back as it was (so nothing is written).
pub proof fn law_remember_again_changes_nothing(
    paths: Seq<Seq<char>>,
    p: Seq<char>,
    first: Seq<bool>,
    second: Seq<bool>,
)
    requires
        first.len() == changed(paths, ChangeView::Remember(p)).len(),
        !first[0],
        second.len() == changed(pruned(changed(paths, ChangeView::Remember(p)), first), ChangeView::Remember(p)).len(),
        forall|i: int| 0 <= i < second.len() ==> !#[trigger] second[i],
    ensures
        ({
            let once = pruned(changed(paths, ChangeView::Remember(p)), first);
            &&& 1 <= once.len() <= LIMIT
            &&& once[0] == p
            &&& forall|i: int| 1 <= i < once.len() ==> path_key(#[trigger] once[i]) != path_key(p)
            &&& pruned(changed(once, ChangeView::Remember(p)), second) == once
        }),
{
    let c = changed(paths, ChangeView::Remember(p));
    law_remember_puts_first(paths, p);
    let ct = c.drop_first();
    assert(seq![p] + ct =~= c);
    assert forall|i: int| 0 <= i < ct.len() implies path_key(#[trigger] ct[i]) != path_key(p) by {
        assert(ct[i] == c[i + 1]);
    }
    lemma_pruned_front(p, ct, first);
    lemma_pruned_keys(ct, first.drop_first(), p);
    let rt = pruned(ct, first.drop_first());
    let once = seq![p] + rt;
    assert(pruned(c, first) == once);
    assert forall|i: int| 1 <= i < once.len() implies path_key(#[trigger] once[i]) != path_key(p) by {
        assert(once[i] == rt[i - 1]);
    }
    lemma_without_absent(rt, p);
    lemma_without_front(rt, p);
    let c2 = changed(once, ChangeView::Remember(p));
    assert(c2 =~= once);
    lemma_pruned_all(c2, second);
}

proof fn lemma_without_entry_front_item(items: Seq<(Seq<char>, Kind)>, p: Seq<char>, kind: Kind)
    ensures
        without_entry(seq![(p, kind)] + items, p) == without_entry(items, p),
    decreases items.len(),
{
    if items.len() > 0 {
        lemma_without_entry_front_item(items.drop_last(), p, kind);
        let s = seq![(p, kind)] + items;
        assert(s.drop_last() =~= seq![(p, kind)] + items.drop_last());
        assert(s.last() == items.last());
        assert(without_entry(s.drop_last(), p) == without_entry(items.drop_last(), p));
    } else {
        let s = seq![(p, kind)] + items;
        assert(s =~= seq![(p, kind)]);
        assert(s.last().0 == p);
        assert(s.drop_last() =~= Seq::<(Seq<char>, Kind)>::empty());
        assert(without_entry(s.drop_last(), p) == without_entry(items, p));
    }
}

} // verus!
