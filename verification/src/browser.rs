//! The file list of the main window: where it is, the order of its rows,
//! which rows are selected, and where the keyboard cursor goes.

use crate::catalog::{Entry, EntryView};
use crate::order::{
    lemma_less_asymmetric, lemma_less_irreflexive, lemma_less_total, lemma_less_transitive, less_than,
    text_less,
};
use crate::scan::{find_at, find_from, same_chars, slice_of};
use crate::text::{chars_of, lower_case, same_text, string_of, to_lower};
use vstd::prelude::*;

verus! {

broadcast use vstd::seq_lib::to_multiset_insert;

/// Where the browser is: the start page, a folder of the file system, or a
/// folder (`""` for the top) inside an archive.
#[derive(Clone, Debug)]
pub enum Location {
    Home,
    Directory(String),
    Archive(String, String),
}

pub enum LocationView {
    Home,
    Directory(Seq<char>),
    Archive(Seq<char>, Seq<char>),
}

impl View for Location {
    type V = LocationView;

    open spec fn view(&self) -> LocationView {
        match self {
            Location::Home => LocationView::Home,
            Location::Directory(p) => LocationView::Directory(p@),
            Location::Archive(p, f) => LocationView::Archive(p@, f@),
        }
    }
}

impl DeepView for Location {
    type V = LocationView;

    open spec fn deep_view(&self) -> LocationView {
        self@
    }
}

impl Location {
    /// Whether two locations are the same place.
    pub fn same_as(&self, other: &Location) -> (r: bool)
        ensures
            r == (self@ == other@),
    {
        match (self, other) {
            (Location::Home, Location::Home) => true,
            (Location::Directory(a), Location::Directory(b)) => same_text(a.as_str(), b.as_str()),
            (Location::Archive(a, f), Location::Archive(b, g)) => same_text(a.as_str(), b.as_str())
                && same_text(f.as_str(), g.as_str()),
            _ => false,
        }
    }

    /// A copy of the location.
    pub fn duplicate(&self) -> (r: Location)
        ensures
            r@ == self@,
    {
        match self {
            Location::Home => Location::Home,
            Location::Directory(p) => Location::Directory(p.clone()),
            Location::Archive(p, f) => Location::Archive(p.clone(), f.clone()),
        }
    }
}

/// The folder that holds a folder of an archive: what comes before its last
/// slash, or the top.
pub open spec fn parent_folder(folder: Seq<char>) -> Seq<char>
    decreases folder.len(),
{
    if folder.len() == 0 {
        seq![]
    } else if folder.last() == '/' {
        folder.drop_last()
    } else {
        parent_folder(folder.drop_last())
    }
}

/// The folder that holds a folder of an archive.
pub fn parent_of_folder(folder: &str) -> (r: String)
    ensures
        r@ == parent_folder(folder@),
{
    let chars = chars_of(folder);
    let mut j = chars.len();
    assert(chars@.take(j as int) =~= chars@);
    while j > 0 && chars[j - 1] != '/'
        invariant
            j <= chars.len(),
            parent_folder(chars@) == parent_folder(chars@.take(j as int)),
        decreases j,
    {
        assert(chars@.take(j as int).drop_last() =~= chars@.take(j - 1));
        j = j - 1;
    }
    if j == 0 {
        assert(chars@.take(0) =~= Seq::<char>::empty());
        return String::new();
    }
    assert(chars@.take(j as int).drop_last() =~= chars@.take(j - 1));
    let kept = slice_of(&chars, 0, j - 1);
    assert(kept@ =~= chars@.take(j - 1));
    string_of(kept.as_slice())
}

/// The location one level up. `parent` is the file system's parent of the
/// folder shown, or of the archive when its top is shown.
pub open spec fn parent_location(location: LocationView, parent: Option<Seq<char>>) -> Option<
    LocationView,
> {
    match location {
        LocationView::Home => None,
        LocationView::Directory(_) => match parent {
            Some(p) => Some(LocationView::Directory(p)),
            None => None,
        },
        LocationView::Archive(path, folder) => if folder.len() == 0 {
            match parent {
                Some(p) => Some(LocationView::Directory(p)),
                None => None,
            }
        } else {
            Some(LocationView::Archive(path, parent_folder(folder)))
        },
    }
}

/// The location one level up; `parent` is the file system's parent of the
/// folder shown, or of the archive when its top is shown.
pub fn up_from(location: &Location, parent: Option<String>) -> (r: Option<Location>)
    ensures
        match parent_location(location@, match parent {
            Some(p) => Some(p@),
            None => None,
        }) {
            Some(l) => r matches Some(x) && x@ == l,
            None => r is None,
        },
{
    match location {
        Location::Home => None,
        Location::Directory(_) => match parent {
            Some(p) => Some(Location::Directory(p)),
            None => None,
        },
        Location::Archive(path, folder) => {
            if folder.as_str().is_empty() {
                match parent {
                    Some(p) => Some(Location::Directory(p)),
                    None => None,
                }
            } else {
                Some(Location::Archive(path.clone(), parent_of_folder(folder.as_str())))
            }
        },
    }
}

/// The back history after a move from `current` to `target`: a move made by
/// going back drops the place it went back to; any other move records where
/// it came from, unless it stays in place.
pub open spec fn navigated(
    history: Seq<LocationView>,
    returning: bool,
    current: LocationView,
    target: LocationView,
) -> Seq<LocationView> {
    if returning {
        if history.len() > 0 {
            history.drop_last()
        } else {
            history
        }
    } else if current != target {
        history.push(current)
    } else {
        history
    }
}

/// Records a move in the back history, and ends a move back.
pub fn remember_navigation(
    history: &mut Vec<Location>,
    returning: &mut bool,
    current: Location,
    target: &Location,
)
    ensures
        final(history).deep_view() == navigated(old(history).deep_view(), *old(returning), current@, target@),
        !*final(returning),
{
    if *returning {
        let ghost before = history.deep_view();
        history.pop();
        assert(history.deep_view() =~= if before.len() > 0 {
            before.drop_last()
        } else {
            before
        });
        *returning = false;
    } else if !current.same_as(target) {
        let ghost before = history.deep_view();
        history.push(current);
        assert(history.deep_view() =~= before.push(current@));
    }
}

/// Going somewhere and then back leaves the back history as it was.
pub proof fn law_back_undoes_move(history: Seq<LocationView>, current: LocationView, target: LocationView)
    requires
        current != target,
    ensures
        ({
            let after = navigated(history, false, current, target);
            &&& after.last() == current
            &&& navigated(after, true, target, after.last()) == history
        }),
{
    assert(history.push(current).drop_last() =~= history);
}

/// A text without the whitespace around it, then without the double quotes
/// around it, as typed in the address bar.
pub open spec fn address_value(text: Seq<char>) -> Seq<char> {
    trim_quotes(crate::operations::trim_end(crate::operations::trim_start(text)))
}

/// A text without the double quotes at either end.
pub open spec fn trim_quotes(s: Seq<char>) -> Seq<char>
    decreases s.len(),
{
    if s.len() > 0 && s[0] == '"' {
        trim_quotes(s.drop_first())
    } else if s.len() > 0 && s.last() == '"' {
        trim_quotes(s.drop_last())
    } else {
        s
    }
}

/// The path typed in the address bar.
pub fn address_input(text: &str) -> (r: String)
    ensures
        r@ == address_value(text@),
{
    let chars = chars_of(text);
    let mut start: usize = 0;
    assert(chars@.subrange(0, chars@.len() as int) =~= chars@);
    let mut end = chars.len();
    while start < end && crate::listing::is_space(chars[start])
        invariant
            start <= end == chars.len(),
            chars@ == text@,
            crate::operations::trim_start(text@) == crate::operations::trim_start(chars@.subrange(start as int, end as int)),
        decreases end - start,
    {
        assert(chars@.subrange(start as int, end as int).drop_first() =~= chars@.subrange(start + 1, end as int));
        start = start + 1;
    }
    let ghost t = chars@.subrange(start as int, end as int);
    assert(crate::operations::trim_start(text@) == t);
    while end > start && crate::listing::is_space(chars[end - 1])
        invariant
            start <= end <= chars.len(),
            crate::operations::trim_end(t) == crate::operations::trim_end(chars@.subrange(start as int, end as int)),
        decreases end,
    {
        assert(chars@.subrange(start as int, end as int).drop_last() =~= chars@.subrange(start as int, end - 1));
        end = end - 1;
    }
    assert(address_value(text@) == trim_quotes(chars@.subrange(start as int, end as int)));
    while start < end && chars[start] == '"'
        invariant
            start <= end <= chars.len(),
            address_value(text@) == trim_quotes(chars@.subrange(start as int, end as int)),
        decreases end - start,
    {
        assert(chars@.subrange(start as int, end as int).drop_first() =~= chars@.subrange(start + 1, end as int));
        start = start + 1;
    }
    while start < end && chars[end - 1] == '"'
        invariant
            start <= end <= chars.len(),
            start == end || chars@[start as int] != '"',
            address_value(text@) == trim_quotes(chars@.subrange(start as int, end as int)),
        decreases end - start,
    {
        assert(chars@.subrange(start as int, end as int)[0] != '"');
        assert(chars@.subrange(start as int, end as int).drop_last() =~= chars@.subrange(start as int, end - 1));
        end = end - 1;
    }
    if start < end {
        assert(chars@.subrange(start as int, end as int)[0] == chars@[start as int]);
        assert(chars@.subrange(start as int, end as int).last() == chars@[end - 1]);
    } else {
        assert(chars@.subrange(start as int, end as int).len() == 0);
    }
    string_of(slice_of(&chars, start, end).as_slice())
}

/// Whether a row's lower-cased name holds a lower-cased search text.
pub open spec fn name_matches(e: EntryView, query: Seq<char>) -> bool {
    find_from(lower_case(e.name), query, 0) is Some
}

/// The rows of a file system folder that a search shows, in order.
pub open spec fn matching(entries: Seq<EntryView>, query: Seq<char>) -> Seq<EntryView>
    decreases entries.len(),
{
    if entries.len() == 0 {
        seq![]
    } else {
        let before = matching(entries.drop_last(), query);
        if name_matches(entries.last(), query) {
            before.push(entries.last())
        } else {
            before
        }
    }
}

/// The entries of a file system folder whose lower-cased name holds the
/// lower-cased search text; without a search text, all of them.
pub fn matching_rows(entries: &Vec<Entry>, search: &str) -> (r: Vec<Entry>)
    ensures
        r.deep_view() == matching(entries.deep_view(), lower_case(search@)),
        search@.len() == 0 ==> r.deep_view() == entries.deep_view(),
{
    let query = to_lower(search);
    let q = chars_of(query.as_str());
    let ghost ev = entries.deep_view();
    let mut r: Vec<Entry> = Vec::new();
    let mut i: usize = 0;
    assert(ev.take(0) =~= seq![]);
    assert(r.deep_view() =~= seq![]);
    while i < entries.len()
        invariant
            i <= entries.len(),
            ev == entries.deep_view(),
            q@ == lower_case(search@),
            r.deep_view() == matching(ev.take(i as int), q@),
        decreases entries.len() - i,
    {
        assert(ev.take(i + 1).drop_last() =~= ev.take(i as int));
        assert(ev.take(i + 1).last() == entries[i as int]@);
        let lowered = to_lower(entries[i].name.as_str());
        let name = chars_of(lowered.as_str());
        if find_at(&name, &q, 0).is_some() {
            let ghost before = r.deep_view();
            r.push(entries[i].duplicate());
            assert(r.deep_view() =~= before.push(entries[i as int]@));
        }
        i = i + 1;
    }
    assert(ev.take(i as int) =~= ev);
    proof {
        if search@.len() == 0 {
            lemma_matching_all(ev, q@);
        }
    }
    r
}

/// Every row matches the empty search.
proof fn lemma_matching_all(entries: Seq<EntryView>, query: Seq<char>)
    requires
        query.len() == 0,
    ensures
        matching(entries, query) == entries,
    decreases entries.len(),
{
    if entries.len() > 0 {
        lemma_matching_all(entries.drop_last(), query);
        assert(lower_case(entries.last().name).subrange(0, 0) =~= query);
        assert(entries.drop_last().push(entries.last()) =~= entries);
    }
}

/// How the rows are sorted.
#[derive(Clone, Copy, Debug, PartialEq, Eq, Structural)]
pub enum SortKey {
    Name,
    Size,
    Modified,
}

impl SortKey {
    /// The sort key of the setting's number: 1 sorts by size, 2 by date, any
    /// other by name.
    pub fn from_number(n: u8) -> (r: SortKey)
        ensures
            r == (if n == 1 {
                SortKey::Size
            } else if n == 2 {
                SortKey::Modified
            } else {
                SortKey::Name
            }),
    {
        if n == 1 {
            SortKey::Size
        } else if n == 2 {
            SortKey::Modified
        } else {
            SortKey::Name
        }
    }
}

/// Sizes in ascending order: unknown sizes first.
pub open spec fn size_less(a: Option<u64>, b: Option<u64>) -> bool {
    match (a, b) {
        (None, Some(_)) => true,
        (Some(x), Some(y)) => x < y,
        _ => false,
    }
}

/// Whether `a` comes before `b` by the sort key alone.
pub open spec fn key_less(a: EntryView, b: EntryView, key: SortKey) -> bool {
    match key {
        SortKey::Size => size_less(a.size, b.size),
        SortKey::Modified => text_less(a.modified, b.modified),
        SortKey::Name => text_less(lower_case(a.name), lower_case(b.name)),
    }
}

/// Whether `a` and `b` are level by the sort key.
pub open spec fn key_level(a: EntryView, b: EntryView, key: SortKey) -> bool {
    match key {
        SortKey::Size => a.size == b.size,
        SortKey::Modified => a.modified == b.modified,
        SortKey::Name => lower_case(a.name) == lower_case(b.name),
    }
}

/// The ascending order: by the key, then by path.
pub open spec fn ascending(a: EntryView, b: EntryView, key: SortKey) -> bool {
    key_less(a, b, key) || (key_level(a, b, key) && text_less(a.path, b.path))
}

/// Whether row `a` is shown before row `b`: folders before files, then the
/// order of the key and path, reversed where descending.
pub open spec fn row_before(a: EntryView, b: EntryView, key: SortKey, descending: bool) -> bool {
    if a.directory != b.directory {
        a.directory
    } else if descending {
        ascending(b, a, key)
    } else {
        ascending(a, b, key)
    }
}

/// Rows in the order shown: no row comes after one that should follow it.
pub open spec fn rows_sorted(rows: Seq<EntryView>, key: SortKey, descending: bool) -> bool {
    forall|i: int, j: int|
        0 <= i < j < rows.len() ==> !row_before(#[trigger] rows[j], #[trigger] rows[i], key, descending)
}

proof fn lemma_key_less_transitive(a: EntryView, b: EntryView, c: EntryView, key: SortKey)
    requires
        key_less(a, b, key),
        key_less(b, c, key),
    ensures
        key_less(a, c, key),
{
    match key {
        SortKey::Size => {},
        SortKey::Modified => lemma_less_transitive(a.modified, b.modified, c.modified),
        SortKey::Name => lemma_less_transitive(lower_case(a.name), lower_case(b.name), lower_case(c.name)),
    }
}

proof fn lemma_key_less_irreflexive(a: EntryView, b: EntryView, key: SortKey)
    requires
        key_level(a, b, key),
    ensures
        !key_less(a, b, key),
        !key_less(b, a, key),
{
    match key {
        SortKey::Size => {},
        SortKey::Modified => lemma_less_irreflexive(a.modified),
        SortKey::Name => lemma_less_irreflexive(lower_case(a.name)),
    }
}

proof fn lemma_ascending_transitive(a: EntryView, b: EntryView, c: EntryView, key: SortKey)
    requires
        ascending(a, b, key),
        ascending(b, c, key),
    ensures
        ascending(a, c, key),
{
    if key_less(a, b, key) && key_less(b, c, key) {
        lemma_key_less_transitive(a, b, c, key);
    } else if key_level(a, b, key) && key_level(b, c, key) {
        lemma_less_transitive(a.path, b.path, c.path);
    }
}

proof fn lemma_ascending_asymmetric(a: EntryView, b: EntryView, key: SortKey)
    requires
        ascending(a, b, key),
    ensures
        !ascending(b, a, key),
{
    if key_less(a, b, key) {
        if key_less(b, a, key) {
            lemma_key_less_transitive(a, b, a, key);
            lemma_key_less_irreflexive(a, a, key);
        }
        if key_level(b, a, key) {
            lemma_key_less_irreflexive(b, a, key);
        }
    } else {
        lemma_key_less_irreflexive(a, b, key);
        lemma_less_asymmetric(a.path, b.path);
    }
}

proof fn lemma_row_before_transitive(a: EntryView, b: EntryView, c: EntryView, key: SortKey, descending: bool)
    requires
        row_before(a, b, key, descending),
        row_before(b, c, key, descending),
    ensures
        row_before(a, c, key, descending),
{
    if a.directory == b.directory && b.directory == c.directory {
        if descending {
            lemma_ascending_transitive(c, b, a, key);
        } else {
            lemma_ascending_transitive(a, b, c, key);
        }
    }
}

proof fn lemma_row_before_asymmetric(a: EntryView, b: EntryView, key: SortKey, descending: bool)
    requires
        row_before(a, b, key, descending),
    ensures
        !row_before(b, a, key, descending),
{
    if a.directory == b.directory {
        if descending {
            lemma_ascending_asymmetric(b, a, key);
        } else {
            lemma_ascending_asymmetric(a, b, key);
        }
    }
}

/// What the comparison of two rows reads, computed once per row.
struct RowKey {
    directory: bool,
    size: Option<u64>,
    modified: Vec<char>,
    name: Vec<char>,
    path: Vec<char>,
}

spec fn key_of_row(k: RowKey, e: EntryView) -> bool {
    &&& k.directory == e.directory
    &&& k.size == e.size
    &&& k.modified@ == e.modified
    &&& k.name@ == lower_case(e.name)
    &&& k.path@ == e.path
}

fn row_key(e: &Entry) -> (k: RowKey)
    ensures
        key_of_row(k, e@),
{
    let lowered = to_lower(e.name.as_str());
    RowKey {
        directory: e.directory,
        size: e.size,
        modified: chars_of(e.modified.as_str()),
        name: chars_of(lowered.as_str()),
        path: chars_of(e.path.as_str()),
    }
}

fn key_before(a: &RowKey, b: &RowKey, key: SortKey, Ghost(x): Ghost<EntryView>, Ghost(y): Ghost<EntryView>) -> (r: bool)
    requires
        key_of_row(*a, x),
        key_of_row(*b, y),
    ensures
        r == key_less(x, y, key),
{
    match key {
        SortKey::Size => match (a.size, b.size) {
            (None, Some(_)) => true,
            (Some(p), Some(q)) => p < q,
            _ => false,
        },
        SortKey::Modified => less_than(&a.modified, &b.modified),
        SortKey::Name => less_than(&a.name, &b.name),
    }
}

fn key_same(a: &RowKey, b: &RowKey, key: SortKey, Ghost(x): Ghost<EntryView>, Ghost(y): Ghost<EntryView>) -> (r: bool)
    requires
        key_of_row(*a, x),
        key_of_row(*b, y),
    ensures
        r == key_level(x, y, key),
{
    match key {
        SortKey::Size => a.size == b.size,
        SortKey::Modified => same_chars(&a.modified, &b.modified),
        SortKey::Name => same_chars(&a.name, &b.name),
    }
}

fn comes_before(a: &RowKey, b: &RowKey, key: SortKey, descending: bool, Ghost(x): Ghost<EntryView>, Ghost(y): Ghost<EntryView>) -> (r: bool)
    requires
        key_of_row(*a, x),
        key_of_row(*b, y),
    ensures
        r == row_before(x, y, key, descending),
{
    if a.directory != b.directory {
        return a.directory;
    }
    if descending {
        key_before(b, a, key, Ghost(y), Ghost(x)) || (key_same(b, a, key, Ghost(y), Ghost(x)) && less_than(
            &b.path,
            &a.path,
        ))
    } else {
        key_before(a, b, key, Ghost(x), Ghost(y)) || (key_same(a, b, key, Ghost(x), Ghost(y)) && less_than(
            &a.path,
            &b.path,
        ))
    }
}

/// The rows in the order shown: folders first, then by the sort key and
/// path, ascending or descending. The rows are the same rows, reordered;
/// rows that compare level (the same path) keep their order.
pub fn sort_rows(rows: Vec<Entry>, key: SortKey, descending: bool) -> (r: Vec<Entry>)
    ensures
        r.deep_view().to_multiset() == rows.deep_view().to_multiset(),
        rows_sorted(r.deep_view(), key, descending),
{
    let ghost input = rows.deep_view();
    let mut out: Vec<Entry> = Vec::new();
    let mut keys: Vec<RowKey> = Vec::new();
    let mut rest = rows;
    let mut taken: usize = 0;
    let total = rest.len();
    let ghost n = input.len();
    assert(input.take(0) =~= seq![]);
    assert(input.skip(0) =~= input);
    assert(out.deep_view() =~= seq![]);
    while rest.len() > 0
        invariant
            taken + rest@.len() == n,
            n == total,
            input.len() == n,
            rest.deep_view() == input.skip(taken as int),
            out.deep_view().to_multiset() == input.take(taken as int).to_multiset(),
            rows_sorted(out.deep_view(), key, descending),
            keys@.len() == out@.len(),
            forall|k: int| 0 <= k < out@.len() ==> key_of_row(#[trigger] keys@[k], out.deep_view()[k]),
        decreases rest@.len(),
    {
        let ghost rv = rest.deep_view();
        let ghost rs = rest@;
        let e = rest.remove(0);
        let ghost x = e@;
        assert(rest@ =~= rs.remove(0));
        assert(input.skip(taken as int)[0] == x);
        assert(rest.deep_view() =~= input.skip(taken + 1)) by {
            assert forall|i: int| 0 <= i < rest.deep_view().len() implies rest.deep_view()[i] == input.skip(taken + 1)[i] by {
                assert(rest.deep_view()[i] == rest@[i]@);
                assert(rest@[i] == rs[i + 1]);
                assert(rv[i + 1] == rs[i + 1]@);
            }
        }
        let k = row_key(&e);
        let mut p: usize = 0;
        while p < out.len() && !comes_before(&k, &keys[p], key, descending, Ghost(x), Ghost(out.deep_view()[p as int]))
            invariant
                p <= out@.len(),
                keys@.len() == out@.len(),
                key_of_row(k, x),
                forall|j: int| 0 <= j < out@.len() ==> key_of_row(#[trigger] keys@[j], out.deep_view()[j]),
                forall|j: int| 0 <= j < p ==> !row_before(x, #[trigger] out.deep_view()[j], key, descending),
            decreases out@.len() - p,
        {
            p = p + 1;
        }
        let ghost before = out.deep_view();
        proof {
            assert forall|j: int| p <= j < before.len() implies !row_before(#[trigger] before[j], x, key, descending) by {
                if row_before(before[j], x, key, descending) {
                    lemma_row_before_asymmetric(before[j], x, key, descending);
                    if j > p {
                        lemma_row_before_transitive(before[j], x, before[p as int], key, descending);
                    }
                }
            }
        }
        let ghost keys_before = keys@;
        out.insert(p, e);
        keys.insert(p, k);
        assert(keys@ =~= keys_before.insert(p as int, k));
        let ghost after = out.deep_view();
        assert(after =~= before.insert(p as int, x));
        assert(input.take(taken + 1) =~= input.take(taken as int).push(x));
        proof {
            vstd::seq_lib::to_multiset_build(input.take(taken as int), x);
        }
        assert forall|i: int, j: int| 0 <= i < j < after.len() implies !row_before(#[trigger] after[j], #[trigger] after[i], key, descending) by {
            if j < p {
            } else if j == p {
                assert(after[j] == x);
                assert(after[i] == before[i]);
            } else if i < p {
                assert(after[j] == before[j - 1]);
                assert(after[i] == before[i]);
            } else if i == p {
                assert(after[i] == x);
                assert(after[j] == before[j - 1]);
            } else {
                assert(after[j] == before[j - 1]);
                assert(after[i] == before[i - 1]);
            }
        }
        assert forall|j: int| 0 <= j < out@.len() implies key_of_row(#[trigger] keys@[j], out.deep_view()[j]) by {
            if j < p {
            } else if j == p {
            } else {
                assert(keys@[j] == keys_before[j - 1]);
                assert(out.deep_view()[j] == before[j - 1]);
            }
        }
        taken = taken + 1;
    }
    assert(input.take(taken as int) =~= input);
    out
}

/// The selected rows, by path.
pub struct Selection {
    paths: Vec<String>,
}

impl View for Selection {
    type V = Set<Seq<char>>;

    closed spec fn view(&self) -> Set<Seq<char>> {
        self.paths.deep_view().to_set()
    }
}

/// The paths of `rows[lo..=hi]`.
pub open spec fn range_paths(rows: Seq<EntryView>, lo: int, hi: int) -> Set<Seq<char>> {
    Set::new(|q: Seq<char>| exists|k: int| lo <= k <= hi && 0 <= k < rows.len() && #[trigger] rows[k].path == q)
}

/// The first row with a path, from row `i` on.
pub open spec fn position_of(rows: Seq<EntryView>, path: Seq<char>, i: int) -> Option<int>
    decreases rows.len() - i,
{
    if i < 0 || i >= rows.len() {
        None
    } else if rows[i].path == path {
        Some(i)
    } else {
        position_of(rows, path, i + 1)
    }
}

proof fn lemma_position_of(rows: Seq<EntryView>, path: Seq<char>, i: int)
    requires
        0 <= i,
    ensures
        position_of(rows, path, i) matches Some(k) ==> i <= k < rows.len() && rows[k].path == path,
    decreases rows.len() - i,
{
    if i < rows.len() && rows[i].path != path {
        lemma_position_of(rows, path, i + 1);
    }
}

/// The first row with a path.
pub fn find_row(rows: &Vec<Entry>, path: &str) -> (r: Option<usize>)
    ensures
        match r {
            Some(k) => position_of(rows.deep_view(), path@, 0) == Some(k as int),
            None => position_of(rows.deep_view(), path@, 0) is None,
        },
{
    let mut i: usize = 0;
    while i < rows.len()
        invariant
            i <= rows.len(),
            position_of(rows.deep_view(), path@, 0) == position_of(rows.deep_view(), path@, i as int),
        decreases rows.len() - i,
    {
        if same_text(rows[i].path.as_str(), path) {
            return Some(i);
        }
        i = i + 1;
    }
    None
}

/// Paths in strictly increasing order, as a sorted set keeps them.
pub open spec fn ascending_paths(p: Seq<Seq<char>>) -> bool {
    forall|i: int, j: int| 0 <= i < j < p.len() ==> text_less(#[trigger] p[i], #[trigger] p[j])
}

proof fn lemma_ascending_unique(p: Seq<Seq<char>>)
    requires
        ascending_paths(p),
    ensures
        p.no_duplicates(),
{
    assert forall|i: int, j: int| 0 <= i < p.len() && 0 <= j < p.len() && i != j implies p[i] != p[j] by {
        if i < j {
            lemma_less_asymmetric(p[i], p[j]);
        } else {
            lemma_less_asymmetric(p[j], p[i]);
        }
    }
}

/// Appends the paths `src[from..to]`.
fn copy_range(src: &Vec<String>, from: usize, to: usize, dst: &mut Vec<String>)
    requires
        from <= to <= src.len(),
    ensures
        final(dst).deep_view() == old(dst).deep_view() + src.deep_view().subrange(from as int, to as int),
{
    let ghost start = dst.deep_view();
    let mut i = from;
    while i < to
        invariant
            from <= i <= to <= src.len(),
            dst.deep_view() == start + src.deep_view().subrange(from as int, i as int),
        decreases to - i,
    {
        let ghost b = dst.deep_view();
        dst.push(src[i].clone());
        assert(dst.deep_view() =~= b.push(src.deep_view()[i as int]));
        assert(start + src.deep_view().subrange(from as int, i + 1) =~= (start + src.deep_view().subrange(
            from as int,
            i as int,
        )).push(src.deep_view()[i as int]));
        i = i + 1;
    }
}

impl Selection {
    #[verifier::type_invariant]
    spec fn ordered(self) -> bool {
        ascending_paths(self.paths.deep_view())
    }

    /// Nothing selected.
    pub fn new() -> (r: Selection)
        ensures
            r@ == Set::<Seq<char>>::empty(),
    {
        let r = Selection { paths: Vec::new() };
        assert(r@ =~= Set::<Seq<char>>::empty());
        r
    }

    /// Whether a path is selected.
    pub fn contains(&self, path: &str) -> (r: bool)
        ensures
            r == self@.contains(path@),
    {
        let mut i: usize = 0;
        while i < self.paths.len()
            invariant
                i <= self.paths.len(),
                forall|j: int| 0 <= j < i ==> self.paths.deep_view()[j] != path@,
            decreases self.paths.len() - i,
        {
            if same_text(self.paths[i].as_str(), path) {
                assert(self.paths.deep_view()[i as int] == path@);
                return true;
            }
            i = i + 1;
        }
        false
    }

    /// How many paths are selected.
    pub fn len(&self) -> (r: usize)
        ensures
            r == self@.len(),
    {
        proof {
            use_type_invariant(self);
            lemma_ascending_unique(self.paths.deep_view());
            self.paths.deep_view().unique_seq_to_set();
        }
        self.paths.len()
    }

    /// The selected paths, in increasing order.
    pub fn paths(&self) -> (r: Vec<String>)
        ensures
            r.deep_view().to_set() == self@,
            ascending_paths(r.deep_view()),
    {
        proof {
            use_type_invariant(self);
        }
        let mut r: Vec<String> = Vec::new();
        copy_range(&self.paths, 0, self.paths.len(), &mut r);
        assert(r.deep_view() =~= self.paths.deep_view());
        r
    }

    /// The selected paths, one per line, as copied to the clipboard.
    pub fn copied_text(&self) -> (r: String)
        ensures
            exists|p: Seq<Seq<char>>|
                p.to_set() == self@ && ascending_paths(p) && r@ == crate::engine::list_text(p).take(
                    if p.len() == 0 { 0 } else { crate::engine::list_text(p).len() - 1 },
                ),
    {
        let paths = self.paths();
        let text = crate::engine::list_file_text(&paths);
        let chars = crate::text::chars_of(text.as_str());
        proof {
            lemma_list_text_len(paths.deep_view());
        }
        let n = if paths.len() == 0 { 0 } else { chars.len() - 1 };
        let kept = slice_of(&chars, 0, n);
        assert(kept@ =~= crate::engine::list_text(paths.deep_view()).take(n as int));
        string_of(kept.as_slice())
    }

    /// Selects a path that is not selected, and unselects one that is.
    pub fn toggle(&mut self, path: &str)
        ensures
            final(self)@ == if old(self)@.contains(path@) {
                old(self)@.remove(path@)
            } else {
                old(self)@.insert(path@)
            },
    {
        proof {
            use_type_invariant(&*self);
            lemma_ascending_unique(self.paths.deep_view());
        }
        let ghost before = self.paths.deep_view();
        let key = chars_of(path);
        let n = self.paths.len();
        let mut p: usize = 0;
        while p < n && less_than(&chars_of(self.paths[p].as_str()), &key)
            invariant
                p <= n,
                n == self.paths.len(),
                before == self.paths.deep_view(),
                key@ == path@,
                forall|k: int| 0 <= k < p ==> text_less(#[trigger] before[k], path@),
            decreases n - p,
        {
            p = p + 1;
        }
        let mut next: Vec<String> = Vec::new();
        copy_range(&self.paths, 0, p, &mut next);
        if p < n && same_text(self.paths[p].as_str(), path) {
            copy_range(&self.paths, p + 1, n, &mut next);
            let ghost after = next.deep_view();
            assert(after =~= before.remove(p as int));
            assert(ascending_paths(after)) by {
                assert forall|i: int, j: int| 0 <= i < j < after.len() implies text_less(#[trigger] after[i], #[trigger] after[j]) by {
                    if j < p {
                    } else if i < p {
                        assert(after[j] == before[j + 1]);
                    } else {
                        assert(after[i] == before[i + 1]);
                        assert(after[j] == before[j + 1]);
                    }
                }
            }
            assert(before.contains(path@)) by {
                assert(before[p as int] == path@);
            }
            assert(after.to_set() =~= before.to_set().remove(path@)) by {
                assert forall|q: Seq<char>| #[trigger] after.contains(q) == (before.contains(q) && q != path@) by {
                    if after.contains(q) {
                        let k = choose|k: int| 0 <= k < after.len() && after[k] == q;
                        if k < p {
                            assert(before[k] == q);
                            lemma_less_asymmetric(before[k], path@);
                        } else {
                            assert(before[k + 1] == q);
                            assert(before.no_duplicates());
                            assert(before[k + 1] != before[p as int]);
                        }
                    }
                    if before.contains(q) && q != path@ {
                        let k = choose|k: int| 0 <= k < before.len() && before[k] == q;
                        if k < p {
                            assert(after[k] == q);
                        } else {
                            assert(k != p);
                            assert(after[k - 1] == q);
                        }
                    }
                }
            }
            self.paths = next;
        } else {
            assert forall|k: int| p <= k < before.len() implies text_less(path@, #[trigger] before[k]) by {
                lemma_less_total(before[p as int], path@);
                if k > p {
                    lemma_less_transitive(path@, before[p as int], before[k]);
                }
            }
            assert(!before.contains(path@)) by {
                if before.contains(path@) {
                    let k = choose|k: int| 0 <= k < before.len() && before[k] == path@;
                    lemma_less_irreflexive(path@);
                }
            }
            let ghost b = next.deep_view();
            next.push(path.to_owned());
            assert(next.deep_view() =~= b.push(path@));
            copy_range(&self.paths, p, n, &mut next);
            let ghost after = next.deep_view();
            assert(after =~= before.insert(p as int, path@));
            assert(ascending_paths(after)) by {
                assert forall|i: int, j: int| 0 <= i < j < after.len() implies text_less(#[trigger] after[i], #[trigger] after[j]) by {
                    if j < p {
                    } else if j == p {
                        assert(after[i] == before[i]);
                    } else if i < p {
                        assert(after[j] == before[j - 1]);
                        lemma_less_transitive(before[i], path@, before[j - 1]);
                    } else if i == p {
                        assert(after[j] == before[j - 1]);
                    } else {
                        assert(after[i] == before[i - 1]);
                        assert(after[j] == before[j - 1]);
                    }
                }
            }
            assert(after.to_set() =~= before.to_set().insert(path@)) by {
                assert forall|q: Seq<char>| #[trigger] after.contains(q) == (before.contains(q) || q == path@) by {
                    if after.contains(q) {
                        let k = choose|k: int| 0 <= k < after.len() && after[k] == q;
                        if k < p {
                            assert(before[k] == q);
                        } else if k > p {
                            assert(before[k - 1] == q);
                        }
                    }
                    if before.contains(q) {
                        let k = choose|k: int| 0 <= k < before.len() && before[k] == q;
                        if k < p {
                            assert(after[k] == q);
                        } else {
                            assert(after[k + 1] == q);
                        }
                    }
                    if q == path@ {
                        assert(after[p as int] == q);
                    }
                }
            }
            self.paths = next;
        }
    }

    /// Unselects everything.
    pub fn clear(&mut self)
        ensures
            final(self)@ == Set::<Seq<char>>::empty(),
    {
        self.paths = Vec::new();
        assert(self@ =~= Set::<Seq<char>>::empty());
    }

    /// Selects `path` where it is not selected.
    fn add(&mut self, path: &str)
        ensures
            final(self)@ == old(self)@.insert(path@),
    {
        if !self.contains(path) {
            self.toggle(path);
        } else {
            assert(self@.insert(path@) =~= self@);
        }
    }

    /// The paths of `rows[lo..=hi]`.
    pub fn of_range(rows: &Vec<Entry>, lo: usize, hi: usize) -> (r: Selection)
        requires
            lo <= hi < rows.len(),
        ensures
            r@ == range_paths(rows.deep_view(), lo as int, hi as int),
    {
        let mut r = Selection::new();
        let mut i = lo;
        while i <= hi
            invariant
                lo <= i <= hi + 1,
                hi < rows.len(),
                r@ == range_paths(rows.deep_view(), lo as int, i - 1),
            decreases hi + 1 - i,
        {
            r.add(rows[i].path.as_str());
            assert(r@ =~= range_paths(rows.deep_view(), lo as int, i as int)) by {
                assert forall|q: Seq<char>| range_paths(rows.deep_view(), lo as int, i as int).contains(q) implies r@.contains(q) by {
                    let k = choose|k: int| lo <= k <= i && 0 <= k < rows.deep_view().len() && #[trigger] rows.deep_view()[k].path == q;
                    if k < i {
                        assert(range_paths(rows.deep_view(), lo as int, i - 1).contains(q));
                    }
                }
                assert forall|q: Seq<char>| r@.contains(q) implies range_paths(rows.deep_view(), lo as int, i as int).contains(q) by {
                    if q != rows.deep_view()[i as int].path {
                        assert(range_paths(rows.deep_view(), lo as int, i - 1).contains(q));
                        let k = choose|k: int| lo <= k <= i - 1 && 0 <= k < rows.deep_view().len() && #[trigger] rows.deep_view()[k].path == q;
                        assert(lo <= k <= i);
                    } else {
                        assert(rows.deep_view()[i as int].path == q);
                    }
                }
            }
            i = i + 1;
        }
        r
    }

    /// Every row selected.
    pub fn all_of(rows: &Vec<Entry>) -> (r: Selection)
        ensures
            r@ == range_paths(rows.deep_view(), 0, rows@.len() - 1),
    {
        if rows.len() == 0 {
            let r = Selection::new();
            assert(r@ =~= range_paths(rows.deep_view(), 0, rows@.len() - 1));
            r
        } else {
            Selection::of_range(rows, 0, rows.len() - 1)
        }
    }

    /// The rows that are not selected, selected instead.
    pub fn inverted(&self, rows: &Vec<Entry>) -> (r: Selection)
        ensures
            r@ == Set::new(
                |q: Seq<char>|
                    (exists|k: int| 0 <= k < rows@.len() && #[trigger] rows.deep_view()[k].path == q)
                        && !self@.contains(q),
            ),
    {
        let mut r = Selection::new();
        let mut i: usize = 0;
        while i < rows.len()
            invariant
                i <= rows.len(),
                r@ == Set::new(
                    |q: Seq<char>|
                        (exists|k: int| 0 <= k < i && #[trigger] rows.deep_view()[k].path == q) && !self@.contains(q),
                ),
            decreases rows.len() - i,
        {
            let ghost before = r@;
            let q = rows[i].path.as_str();
            assert(rows.deep_view()[i as int].path == q@);
            if !self.contains(q) {
                r.add(q);
            }
            assert(r@ =~= Set::new(
                |x: Seq<char>|
                    (exists|k: int| 0 <= k < i + 1 && #[trigger] rows.deep_view()[k].path == x) && !self@.contains(x),
            )) by {
                assert forall|x: Seq<char>| #[trigger] r@.contains(x) == ((exists|k: int| 0 <= k < i + 1 && #[trigger] rows.deep_view()[k].path == x) && !self@.contains(x)) by {
                    if (exists|k: int| 0 <= k < i + 1 && #[trigger] rows.deep_view()[k].path == x) && !self@.contains(x) {
                        let k = choose|k: int| 0 <= k < i + 1 && #[trigger] rows.deep_view()[k].path == x;
                        if k < i {
                            assert(before.contains(x));
                        }
                    }
                    if before.contains(x) {
                        let k = choose|k: int| 0 <= k < i && #[trigger] rows.deep_view()[k].path == x;
                        assert(0 <= k < i + 1);
                    }
                }
            }
            i = i + 1;
        }
        r
    }
}

/// The text of a list file is one longer than its lines' characters per line.
proof fn lemma_list_text_len(p: Seq<Seq<char>>)
    ensures
        p.len() > 0 ==> crate::engine::list_text(p).len() >= 1,
    decreases p.len(),
{
    if p.len() > 0 {
        lemma_list_text_len(p.drop_last());
    }
}

/// Clicking a row twice with Control leaves the selection as it was.
pub proof fn law_toggle_twice(selected: Set<Seq<char>>, path: Seq<char>)
    ensures
        ({
            let once = if selected.contains(path) { selected.remove(path) } else { selected.insert(path) };
            let twice = if once.contains(path) { once.remove(path) } else { once.insert(path) };
            twice == selected
        }),
{
    let once = if selected.contains(path) { selected.remove(path) } else { selected.insert(path) };
    let twice = if once.contains(path) { once.remove(path) } else { once.insert(path) };
    assert(twice =~= selected);
}

/// A click on the row at `path`: with Shift, and an anchor shown in the
/// list, selects the rows from the anchor to it; else selects it alone, or
/// with Control adds it to the selection or takes it out, and makes it the
/// anchor. Either way the cursor goes to it.
pub fn select(
    rows: &Vec<Entry>,
    selection: &mut Selection,
    anchor: &mut Option<String>,
    cursor: &mut Option<String>,
    path: &str,
    shift: bool,
    control: bool,
)
    ensures
        final(cursor).deep_view() == Some(path@),
        ({
            let range = match *old(anchor) {
                Some(a) => match (position_of(rows.deep_view(), a@, 0), position_of(rows.deep_view(), path@, 0)) {
                    (Some(s), Some(e)) => Some(if s <= e { (s, e) } else { (e, s) }),
                    _ => None,
                },
                None => None,
            };
            match range {
                Some((lo, hi)) if shift => {
                    &&& final(selection)@ == range_paths(rows.deep_view(), lo, hi)
                    &&& final(anchor).deep_view() == old(anchor).deep_view()
                },
                _ => {
                    let base = if control { old(selection)@ } else { Set::<Seq<char>>::empty() };
                    &&& final(selection)@ == if base.contains(path@) { base.remove(path@) } else { base.insert(path@) }
                    &&& final(anchor).deep_view() == Some(path@)
                },
            }
        }),
{
    let mut ranged = false;
    if shift {
        match anchor {
            Some(a) => {
                match (find_row(rows, a.as_str()), find_row(rows, path)) {
                    (Some(s), Some(e)) => {
                        proof {
                            lemma_position_of(rows.deep_view(), a@, 0);
                            lemma_position_of(rows.deep_view(), path@, 0);
                        }
                        let (lo, hi) = if s <= e { (s, e) } else { (e, s) };
                        *selection = Selection::of_range(rows, lo, hi);
                        ranged = true;
                    },
                    _ => {},
                }
            },
            None => {},
        }
    }
    if !ranged {
        if !control {
            selection.clear();
        }
        selection.toggle(path);
        *anchor = Some(path.to_owned());
    }
    *cursor = Some(path.to_owned());
}

/// A key that moves the cursor.
#[derive(Clone, Copy, Debug, PartialEq, Eq, Structural)]
pub enum CursorKey {
    Up,
    Down,
    Home,
    End,
}

/// The row that a cursor key moves to from row `current` of `len` rows.
pub open spec fn cursor_row(len: nat, current: nat, key: CursorKey) -> nat {
    match key {
        CursorKey::Home => 0,
        CursorKey::End => (len - 1) as nat,
        CursorKey::Up => if current == 0 { 0 } else { (current - 1) as nat },
        CursorKey::Down => if current + 1 < len { current + 1 } else { (len - 1) as nat },
    }
}

/// The row that a cursor key moves to, from the cursor's row or the first.
pub fn cursor_target(rows: &Vec<Entry>, cursor: &Option<String>, key: CursorKey) -> (r: usize)
    requires
        rows.len() > 0,
    ensures
        r == cursor_row(
            rows@.len(),
            match *cursor {
                Some(p) => match position_of(rows.deep_view(), p@, 0) {
                    Some(k) => k as nat,
                    None => 0,
                },
                None => 0,
            },
            key,
        ),
        r < rows.len(),
{
    let current = match cursor {
        Some(p) => match find_row(rows, p.as_str()) {
            Some(k) => {
                proof {
                    lemma_position_of(rows.deep_view(), p@, 0);
                }
                k
            },
            None => 0,
        },
        None => 0,
    };
    match key {
        CursorKey::Home => 0,
        CursorKey::End => rows.len() - 1,
        CursorKey::Up => if current == 0 { 0 } else { current - 1 },
        CursorKey::Down => if current + 1 < rows.len() { current + 1 } else { rows.len() - 1 },
    }
}

} // verus!
