//! What an opened archive holds: its entries, as the engine listed them, and
//! the options that the create and extract commands take.

use crate::order::{
    lemma_less_asymmetric, lemma_less_irreflexive, lemma_less_total, lemma_less_transitive,
    less_than, text_less,
};
use crate::scan::{find_at, find_from, joined, matches_at, slice_of};
use crate::text::{chars_of, lower_case, string_of, to_lower};
use vstd::prelude::*;

verus! {

/// The formats that an archive can be created in.
pub open spec fn format_names() -> Seq<Seq<char>> {
    seq!["7z"@, "zip"@, "tar"@, "gzip"@, "bzip2"@, "xz"@, "wim"@]
}

/// The formats that an archive can be created in, as the engine names them.
pub fn formats() -> (r: Vec<&'static str>)
    ensures
        r@.len() == 7,
        forall|i: int| 0 <= i < 7 ==> #[trigger] r@[i]@ == format_names()[i],
{
    vec!["7z", "zip", "tar", "gzip", "bzip2", "xz", "wim"]
}

/// What happens to a file that already exists where an entry is extracted.
#[derive(Clone, Copy, Debug, PartialEq, Eq, Structural)]
pub enum Overwrite {
    RenameIncoming,
    Skip,
    Replace,
    RenameExisting,
}

pub open spec fn overwrite_label(o: Overwrite) -> Seq<char> {
    match o {
        Overwrite::RenameIncoming => "overwrite-rename-incoming"@,
        Overwrite::Skip => "overwrite-skip"@,
        Overwrite::Replace => "overwrite-replace"@,
        Overwrite::RenameExisting => "overwrite-rename-existing"@,
    }
}

pub open spec fn overwrite_switch(o: Overwrite) -> Seq<char> {
    match o {
        Overwrite::RenameIncoming => "-aou"@,
        Overwrite::Skip => "-aos"@,
        Overwrite::Replace => "-aoa"@,
        Overwrite::RenameExisting => "-aot"@,
    }
}

impl Overwrite {
    /// Every choice, in the order the extract dialog offers them.
    pub fn all() -> (r: [Overwrite; 4])
        ensures
            r@ == seq![
                Overwrite::RenameIncoming,
                Overwrite::Skip,
                Overwrite::Replace,
                Overwrite::RenameExisting,
            ],
    {
        let r = [
            Overwrite::RenameIncoming,
            Overwrite::Skip,
            Overwrite::Replace,
            Overwrite::RenameExisting,
        ];
        assert(r@ =~= seq![
            Overwrite::RenameIncoming,
            Overwrite::Skip,
            Overwrite::Replace,
            Overwrite::RenameExisting,
        ]);
        r
    }

    /// The message key of the choice's label.
    pub fn label_key(self) -> (r: &'static str)
        ensures
            r@ == overwrite_label(self),
    {
        match self {
            Overwrite::RenameIncoming => "overwrite-rename-incoming",
            Overwrite::Skip => "overwrite-skip",
            Overwrite::Replace => "overwrite-replace",
            Overwrite::RenameExisting => "overwrite-rename-existing",
        }
    }

    /// The engine switch that selects the choice.
    pub fn argument(self) -> (r: &'static str)
        ensures
            r@ == overwrite_switch(self),
    {
        match self {
            Overwrite::RenameIncoming => "-aou",
            Overwrite::Skip => "-aos",
            Overwrite::Replace => "-aoa",
            Overwrite::RenameExisting => "-aot",
        }
    }
}

/// One entry of an archive listing.
#[derive(Clone, Debug)]
pub struct Entry {
    pub path: String,
    pub name: String,
    pub directory: bool,
    pub size: Option<u64>,
    pub modified: String,
    pub link: bool,
    pub encrypted: bool,
}

/// An entry, with its texts as sequences of characters.
pub struct EntryView {
    pub path: Seq<char>,
    pub name: Seq<char>,
    pub directory: bool,
    pub size: Option<u64>,
    pub modified: Seq<char>,
    pub link: bool,
    pub encrypted: bool,
}

impl View for Entry {
    type V = EntryView;

    open spec fn view(&self) -> EntryView {
        EntryView {
            path: self.path@,
            name: self.name@,
            directory: self.directory,
            size: self.size,
            modified: self.modified@,
            link: self.link,
            encrypted: self.encrypted,
        }
    }
}

impl DeepView for Entry {
    type V = EntryView;

    open spec fn deep_view(&self) -> EntryView {
        self@
    }
}

impl Entry {
    /// A copy of the entry.
    pub fn duplicate(&self) -> (r: Entry)
        ensures
            r@ == self@,
    {
        Entry {
            path: self.path.clone(),
            name: self.name.clone(),
            directory: self.directory,
            size: self.size,
            modified: self.modified.clone(),
            link: self.link,
            encrypted: self.encrypted,
        }
    }
}

/// How the engine was told to open an archive: the name of the format it was
/// forced to read the file as, and whether that is one of its two parser
/// modes, which read any file and cannot write one.
#[derive(Clone, Debug)]
pub struct OpenType {
    pub value: String,
    pub parser: bool,
}

/// An opened archive.
#[derive(Clone, Debug)]
pub struct Catalog {
    pub path: String,
    pub entries: Vec<Entry>,
    pub warning: bool,
    pub format: String,
    pub size: u64,
    pub open_type: Option<OpenType>,
}

/// Two catalogs describe the same archive in the same way.
pub open spec fn same_catalog(a: Catalog, b: Catalog) -> bool {
    &&& a.path@ == b.path@
    &&& a.entries.deep_view() == b.entries.deep_view()
    &&& a.warning == b.warning
    &&& a.format@ == b.format@
    &&& a.size == b.size
    &&& a.open_type == b.open_type
}

impl Catalog {
    /// A copy of the catalog.
    pub fn duplicate(&self) -> (r: Catalog)
        ensures
            same_catalog(r, *self),
    {
        let mut entries: Vec<Entry> = Vec::new();
        let mut i: usize = 0;
        while i < self.entries.len()
            invariant
                i <= self.entries.len(),
                entries.deep_view() == self.entries.deep_view().take(i as int),
            decreases self.entries.len() - i,
        {
            let ghost before = entries.deep_view();
            entries.push(self.entries[i].duplicate());
            assert(entries.deep_view() =~= before.push(self.entries[i as int]@));
            assert(self.entries.deep_view().take(i + 1) =~= self.entries.deep_view().take(i as int).push(
                self.entries[i as int]@,
            ));
            i = i + 1;
        }
        assert(self.entries.deep_view().take(i as int) =~= self.entries.deep_view());
        let open_type = match &self.open_type {
            Some(t) => Some(OpenType { value: t.value.clone(), parser: t.parser }),
            None => None,
        };
        Catalog {
            path: self.path.clone(),
            entries,
            warning: self.warning,
            format: self.format.clone(),
            size: self.size,
            open_type,
        }
    }
}

/// Whether an archive of a format, opened in a way, can be changed in place.
pub open spec fn is_editable(format: Seq<char>, open_type: Option<OpenType>) -> bool {
    &&& (format == "7Z"@ || format == "ZIP"@ || format == "TAR"@ || format == "WIM"@)
    &&& !(open_type matches Some(t) && t.parser)
}


/// The start that the paths of a folder's entries share: the folder and a
/// slash, or nothing at the top.
pub open spec fn folder_prefix(folder: Seq<char>) -> Seq<char> {
    if folder.len() == 0 {
        seq![]
    } else {
        folder.push('/')
    }
}

/// The row shown for a folder that the listing implies but does not list.
pub open spec fn folder_row(path: Seq<char>, name: Seq<char>) -> EntryView {
    EntryView {
        path: path,
        name: name,
        directory: true,
        size: None,
        modified: seq![],
        link: false,
        encrypted: false,
    }
}

/// The rows of a folder after one more entry of the listing: an entry right
/// in the folder is shown as listed (a later one with the same path wins); an
/// entry deeper down shows its top folder under the prefix, unless a row with
/// that path is already there.
pub open spec fn listed_step(rows: Map<Seq<char>, EntryView>, e: EntryView, prefix: Seq<char>) -> Map<
    Seq<char>,
    EntryView,
> {
    if !prefix.is_prefix_of(e.path) {
        rows
    } else {
        let rel = e.path.skip(prefix.len() as int);
        if rel.len() == 0 {
            rows
        } else {
            match find_from(rel, seq!['/'], 0) {
                Some(k) => {
                    let p = prefix + rel.take(k);
                    if rows.contains_key(p) {
                        rows
                    } else {
                        rows.insert(p, folder_row(p, rel.take(k)))
                    }
                },
                None => rows.insert(e.path, e),
            }
        }
    }
}

/// The rows of a folder, keyed by path, after the given entries.
pub open spec fn listed_rows(entries: Seq<EntryView>, prefix: Seq<char>) -> Map<Seq<char>, EntryView>
    decreases entries.len(),
{
    if entries.len() == 0 {
        Map::empty()
    } else {
        listed_step(listed_rows(entries.drop_last(), prefix), entries.last(), prefix)
    }
}

/// Without a search, every row of a folder lies right in it: its path is the
/// folder's prefix and then a name without a slash.
pub proof fn law_rows_are_direct_children(entries: Seq<EntryView>, prefix: Seq<char>)
    ensures
        forall|k: Seq<char>|
            #[trigger] listed_rows(entries, prefix).contains_key(k) ==> prefix.is_prefix_of(k)
                && forall|i: int| prefix.len() <= i < k.len() ==> #[trigger] k[i] != '/',
    decreases entries.len(),
{
    if entries.len() > 0 {
        law_rows_are_direct_children(entries.drop_last(), prefix);
        let rows = listed_rows(entries.drop_last(), prefix);
        let e = entries.last();
        if prefix.is_prefix_of(e.path) {
            let rel = e.path.skip(prefix.len() as int);
            if rel.len() > 0 {
                crate::scan::lemma_find_from(rel, seq!['/'], 0);
                match find_from(rel, seq!['/'], 0) {
                    Some(k) => {
                        let p = prefix + rel.take(k);
                        assert(prefix.is_prefix_of(p)) by {
                            assert(p.subrange(0, prefix.len() as int) =~= prefix);
                        }
                        assert forall|i: int| prefix.len() <= i < p.len() implies #[trigger] p[i] != '/' by {
                            let j = i - prefix.len();
                            assert(p[i] == rel[j]);
                            assert(!crate::scan::occurs_at(rel, seq!['/'], j));
                            if rel[j] == '/' {
                                assert(rel.subrange(j, j + 1) =~= seq!['/']);
                            }
                        }
                    },
                    None => {
                        assert forall|i: int| prefix.len() <= i < e.path.len() implies #[trigger] e.path[i] != '/' by {
                            let j = i - prefix.len();
                            assert(e.path[i] == rel[j]);
                            assert(!crate::scan::occurs_at(rel, seq!['/'], j));
                            if rel[j] == '/' {
                                assert(rel.subrange(j, j + 1) =~= seq!['/']);
                            }
                        }
                    },
                }
            }
        }
    }
}

/// While searching, every entry below the folder is a row of its own.
pub open spec fn searched_rows(
    rows: Map<Seq<char>, EntryView>,
    entries: Seq<EntryView>,
    prefix: Seq<char>,
) -> Map<Seq<char>, EntryView>
    decreases entries.len(),
{
    if entries.len() == 0 {
        rows
    } else {
        let m = searched_rows(rows, entries.drop_last(), prefix);
        if prefix.is_prefix_of(entries.last().path) {
            m.insert(entries.last().path, entries.last())
        } else {
            m
        }
    }
}

/// The candidate rows of a folder, keyed by path, for a lower-cased query.
pub open spec fn child_rows(entries: Seq<EntryView>, folder: Seq<char>, query: Seq<char>) -> Map<
    Seq<char>,
    EntryView,
> {
    let prefix = folder_prefix(folder);
    let listed = listed_rows(entries, prefix);
    if query.len() == 0 {
        listed
    } else {
        searched_rows(listed, entries, prefix)
    }
}

/// Whether a row is shown for a lower-cased query: its lower-cased name
/// holds the query.
pub open spec fn shown(e: EntryView, query: Seq<char>) -> bool {
    find_from(lower_case(e.name), query, 0) is Some
}

/// Rows in strictly increasing order of path, each the row of its path in
/// `m`, and every path of `m` among them.
pub open spec fn represents(rows: Seq<EntryView>, m: Map<Seq<char>, EntryView>) -> bool {
    &&& forall|i: int, j: int|
        0 <= i < j < rows.len() ==> text_less(#[trigger] rows[i].path, #[trigger] rows[j].path)
    &&& forall|i: int|
        0 <= i < rows.len() ==> m.contains_key(#[trigger] rows[i].path) && m[rows[i].path]
            == rows[i]
    &&& forall|k: Seq<char>|
        m.contains_key(k) ==> exists|i: int| 0 <= i < rows.len() && #[trigger] rows[i].path == k
}

/// The first position whose path does not come before `key`.
fn position(rows: &Vec<Entry>, key: &Vec<char>) -> (p: usize)
    requires
        forall|i: int, j: int|
            0 <= i < j < rows@.len() ==> text_less(
                #[trigger] rows.deep_view()[i].path,
                #[trigger] rows.deep_view()[j].path,
            ),
    ensures
        p <= rows.len(),
        forall|i: int| 0 <= i < p ==> text_less(#[trigger] rows.deep_view()[i].path, key@),
        forall|i: int| p <= i < rows.len() ==> !text_less(#[trigger] rows.deep_view()[i].path, key@),
{
    let mut lo: usize = 0;
    let mut hi: usize = rows.len();
    while lo < hi
        invariant
            lo <= hi <= rows.len(),
            forall|i: int, j: int|
                0 <= i < j < rows@.len() ==> text_less(
                    #[trigger] rows.deep_view()[i].path,
                    #[trigger] rows.deep_view()[j].path,
                ),
            forall|i: int| 0 <= i < lo ==> text_less(#[trigger] rows.deep_view()[i].path, key@),
            forall|i: int| hi <= i < rows.len() ==> !text_less(#[trigger] rows.deep_view()[i].path, key@),
        decreases hi - lo,
    {
        let mid = lo + (hi - lo) / 2;
        let here = chars_of(rows[mid].path.as_str());
        if less_than(&here, key) {
            assert forall|i: int| 0 <= i < mid + 1 implies text_less(
                #[trigger] rows.deep_view()[i].path,
                key@,
            ) by {
                if i < mid {
                    lemma_less_transitive(rows.deep_view()[i].path, rows.deep_view()[mid as int].path, key@);
                }
            }
            lo = mid + 1;
        } else {
            assert forall|i: int| mid <= i < rows.len() implies !text_less(
                #[trigger] rows.deep_view()[i].path,
                key@,
            ) by {
                if i > mid && text_less(rows.deep_view()[i].path, key@) {
                    lemma_less_transitive(rows.deep_view()[mid as int].path, rows.deep_view()[i].path, key@);
                }
            }
            hi = mid;
        }
    }
    lo
}

/// Puts an entry among the rows: in place of the row with its path if
/// `replace` is set, else only where no row has its path.
fn put(rows: &mut Vec<Entry>, e: Entry, replace: bool, Ghost(m): Ghost<Map<Seq<char>, EntryView>>)
    requires
        represents(old(rows).deep_view(), m),
    ensures
        represents(
            final(rows).deep_view(),
            if replace || !m.contains_key(e@.path) {
                m.insert(e@.path, e@)
            } else {
                m
            },
        ),
{
    let key = chars_of(e.path.as_str());
    let p = position(rows, &key);
    let ghost old_rows = rows.deep_view();
    let ghost key_v = key@;
    if p < rows.len() && crate::scan::same_chars(&chars_of(rows[p].path.as_str()), &key) {
        assert(old_rows[p as int].path == key_v);
        assert forall|i: int| 0 <= i < old_rows.len() && i != p implies old_rows[i].path != key_v by {
            if i < p {
                lemma_less_asymmetric(old_rows[i].path, old_rows[p as int].path);
            } else {
                lemma_less_asymmetric(old_rows[p as int].path, old_rows[i].path);
            }
        }
        if replace {
            rows.set(p, e);
            let ghost nm = m.insert(key_v, e@);
            let ghost nr = rows.deep_view();
            assert(nr =~= old_rows.update(p as int, e@));
            assert forall|k: Seq<char>| nm.contains_key(k) implies exists|i: int|
                0 <= i < nr.len() && #[trigger] nr[i].path == k by {
                if k == key_v {
                    assert(nr[p as int].path == k);
                } else {
                    let i = choose|i: int| 0 <= i < old_rows.len() && #[trigger] old_rows[i].path == k;
                    assert(nr[i].path == k);
                }
            }
        } else {
            assert(m.contains_key(key_v));
        }
    } else {
        assert forall|i: int| p <= i < old_rows.len() implies text_less(key_v, #[trigger] old_rows[i].path) by {
            lemma_less_total(old_rows[p as int].path, key_v);
            if i > p {
                lemma_less_transitive(key_v, old_rows[p as int].path, old_rows[i].path);
            }
        }
        assert(!m.contains_key(key_v)) by {
            if m.contains_key(key_v) {
                let i = choose|i: int| 0 <= i < old_rows.len() && #[trigger] old_rows[i].path == key_v;
                if i < p {
                    lemma_less_irreflexive(key_v);
                } else {
                    lemma_less_irreflexive(key_v);
                }
            }
        }
        rows.insert(p, e);
        let ghost nm = m.insert(key_v, e@);
        let ghost nr = rows.deep_view();
        assert(nr =~= old_rows.insert(p as int, e@));
        assert forall|i: int, j: int| 0 <= i < j < nr.len() implies text_less(
            #[trigger] nr[i].path,
            #[trigger] nr[j].path,
        ) by {
            if j < p {
            } else if j == p {
            } else if i < p {
                lemma_less_transitive(nr[i].path, key_v, nr[j].path);
            } else if i == p {
            } else {
            }
        }
        assert forall|i: int| 0 <= i < nr.len() implies nm.contains_key(#[trigger] nr[i].path) && nm[nr[i].path] == nr[i] by {
            if i < p {
                lemma_less_asymmetric(nr[i].path, key_v);
            } else if i > p {
                lemma_less_asymmetric(key_v, nr[i].path);
            }
        }
        assert forall|k: Seq<char>| nm.contains_key(k) implies exists|i: int|
            0 <= i < nr.len() && #[trigger] nr[i].path == k by {
            if k == key_v {
                assert(nr[p as int].path == k);
            } else {
                let i = choose|i: int| 0 <= i < old_rows.len() && #[trigger] old_rows[i].path == k;
                if i < p {
                    assert(nr[i].path == k);
                } else {
                    assert(nr[i + 1].path == k);
                }
            }
        }
    }
}

impl Catalog {
    /// The rows shown for a folder of the archive (`""` for the top), with a
    /// search text: sorted by path, each the entry listed at its path or the
    /// folder that deeper entries imply; while searching, every entry below
    /// the folder, and only rows whose lower-cased name holds the lower-cased
    /// search text. Without a search text every row of the folder is shown.
    pub fn children(&self, folder: &str, search: &str) -> (r: Vec<Entry>)
        ensures
            ({
                let q = lower_case(search@);
                let m = child_rows(self.entries.deep_view(), folder@, q);
                &&& forall|i: int, j: int|
                    0 <= i < j < r@.len() ==> text_less(
                        #[trigger] r.deep_view()[i].path,
                        #[trigger] r.deep_view()[j].path,
                    )
                &&& forall|i: int|
                    0 <= i < r@.len() ==> m.contains_key(#[trigger] r.deep_view()[i].path)
                        && m[r.deep_view()[i].path] == r.deep_view()[i] && shown(r.deep_view()[i], q)
                &&& forall|k: Seq<char>|
                    m.contains_key(k) && shown(m[k], q) ==> exists|i: int|
                        0 <= i < r@.len() && #[trigger] r.deep_view()[i].path == k
            }),
            search@.len() == 0 ==> forall|k: Seq<char>|
                child_rows(self.entries.deep_view(), folder@, seq![]).contains_key(k) ==> exists|i: int|
                    0 <= i < r@.len() && #[trigger] r.deep_view()[i].path == k,
    {
        let ghost ev = self.entries.deep_view();
        let fchars = chars_of(folder);
        let mut prefix = slice_of(&fchars, 0, fchars.len());
        assert(fchars@.subrange(0, fchars@.len() as int) =~= fchars@);
        if prefix.len() > 0 {
            prefix.push('/');
        }
        assert(prefix@ == folder_prefix(folder@));
        let query = to_lower(search);
        let q = chars_of(query.as_str());
        let slash = vec!['/'];
        assert(slash@ =~= seq!['/']);
        let mut rows: Vec<Entry> = Vec::new();
        let mut j: usize = 0;
        assert(ev.take(0) =~= seq![]);
        assert(rows.deep_view() =~= seq![]);
        while j < self.entries.len()
            invariant
                j <= self.entries.len(),
                ev == self.entries.deep_view(),
                prefix@ == folder_prefix(folder@),
                slash@ == seq!['/'],
                represents(rows.deep_view(), listed_rows(ev.take(j as int), prefix@)),
            decreases self.entries.len() - j,
        {
            let ghost m = listed_rows(ev.take(j as int), prefix@);
            let e = &self.entries[j];
            proof {
                assert(ev.take(j + 1).drop_last() =~= ev.take(j as int));
                assert(ev.take(j + 1).last() == e@);
            }
            let pc = chars_of(e.path.as_str());
            if pc.len() >= prefix.len() && matches_at(&pc, &prefix, 0) {
                assert(prefix@.is_prefix_of(pc@));
                let rel = slice_of(&pc, prefix.len(), pc.len());
                assert(rel@ =~= pc@.skip(prefix@.len() as int));
                if rel.len() > 0 {
                    match find_at(&rel, &slash, 0) {
                        Some(k) => {
                            proof {
                                crate::scan::lemma_find_from(rel@, slash@, 0);
                            }
                            let name = slice_of(&rel, 0, k);
                            assert(name@ =~= rel@.take(k as int));
                            let path = joined(&prefix, &name);
                            let row = Entry {
                                path: string_of(path.as_slice()),
                                name: string_of(name.as_slice()),
                                directory: true,
                                size: None,
                                modified: String::new(),
                                link: false,
                                encrypted: false,
                            };
                            assert(row@ == folder_row(path@, name@));
                            put(&mut rows, row, false, Ghost(m));
                        },
                        None => {
                            put(&mut rows, e.duplicate(), true, Ghost(m));
                        },
                    }
                }
            } else {
                proof {
                    if prefix@.is_prefix_of(pc@) {
                        assert(pc@.subrange(0, prefix@.len() as int) =~= prefix@);
                    }
                }
            }
            j = j + 1;
        }
        assert(ev.take(j as int) =~= ev);
        let ghost listed = listed_rows(ev, prefix@);
        if q.len() > 0 {
            let mut j: usize = 0;
            assert(ev.take(0) =~= seq![]);
            while j < self.entries.len()
                invariant
                    j <= self.entries.len(),
                    ev == self.entries.deep_view(),
                    prefix@ == folder_prefix(folder@),
                    represents(rows.deep_view(), searched_rows(listed, ev.take(j as int), prefix@)),
                decreases self.entries.len() - j,
            {
                let ghost m = searched_rows(listed, ev.take(j as int), prefix@);
                let e = &self.entries[j];
                proof {
                    assert(ev.take(j + 1).drop_last() =~= ev.take(j as int));
                    assert(ev.take(j + 1).last() == e@);
                }
                let pc = chars_of(e.path.as_str());
                if pc.len() >= prefix.len() && matches_at(&pc, &prefix, 0) {
                    assert(prefix@.is_prefix_of(pc@));
                    put(&mut rows, e.duplicate(), true, Ghost(m));
                } else {
                    proof {
                        if prefix@.is_prefix_of(pc@) {
                            assert(pc@.subrange(0, prefix@.len() as int) =~= prefix@);
                        }
                    }
                }
                j = j + 1;
            }
            assert(ev.take(j as int) =~= ev);
        }
        let ghost m = child_rows(ev, folder@, q@);
        assert(represents(rows.deep_view(), m));
        let ghost rv = rows.deep_view();
        let mut r: Vec<Entry> = Vec::new();
        let mut i: usize = 0;
        while i < rows.len()
            invariant
                i <= rows.len(),
                rv == rows.deep_view(),
                represents(rv, m),
                forall|a: int, b: int|
                    0 <= a < b < r@.len() ==> text_less(
                        #[trigger] r.deep_view()[a].path,
                        #[trigger] r.deep_view()[b].path,
                    ),
                forall|a: int|
                    0 <= a < r@.len() ==> exists|x: int|
                        0 <= x < i && #[trigger] r.deep_view()[a] == rv[x] && shown(rv[x], q@),
                forall|x: int|
                    0 <= x < i && shown(#[trigger] rv[x], q@) ==> exists|a: int|
                        0 <= a < r@.len() && r.deep_view()[a].path == rv[x].path,
            decreases rows.len() - i,
        {
            let lowered = to_lower(rows[i].name.as_str());
            let name = chars_of(lowered.as_str());
            let found = find_at(&name, &q, 0).is_some();
            assert(found == shown(rv[i as int], q@));
            if found {
                let ghost before = r.deep_view();
                r.push(rows[i].duplicate());
                assert(r.deep_view() =~= before.push(rv[i as int]));
                assert forall|a: int, b: int|
                    0 <= a < b < r@.len() implies text_less(
                        #[trigger] r.deep_view()[a].path,
                        #[trigger] r.deep_view()[b].path,
                    ) by {
                    if b == r@.len() - 1 {
                        let x = choose|x: int|
                            0 <= x < i && #[trigger] before[a] == rv[x] && shown(rv[x], q@);
                        assert(before[a] == rv[x]);
                    }
                }
                assert forall|x: int|
                    0 <= x < i + 1 && shown(#[trigger] rv[x], q@) implies exists|a: int|
                        0 <= a < r@.len() && r.deep_view()[a].path == rv[x].path by {
                    if x == i {
                        assert(r.deep_view()[r@.len() - 1].path == rv[x].path);
                    } else {
                        let a = choose|a: int| 0 <= a < before.len() && before[a].path == rv[x].path;
                        assert(r.deep_view()[a].path == rv[x].path);
                    }
                }
                assert forall|a: int|
                    0 <= a < r@.len() implies exists|x: int|
                        0 <= x < i + 1 && #[trigger] r.deep_view()[a] == rv[x] && shown(rv[x], q@) by {
                    if a == r@.len() - 1 {
                        assert(r.deep_view()[a] == rv[i as int]);
                    } else {
                        let x = choose|x: int|
                            0 <= x < i && #[trigger] before[a] == rv[x] && shown(rv[x], q@);
                        assert(r.deep_view()[a] == rv[x]);
                    }
                }
            }
            i = i + 1;
        }
        assert forall|k: Seq<char>| m.contains_key(k) && shown(m[k], q@) implies exists|a: int|
            0 <= a < r@.len() && #[trigger] r.deep_view()[a].path == k by {
            let x = choose|x: int| 0 <= x < rv.len() && #[trigger] rv[x].path == k;
            assert(rv[x] == m[k]);
            assert(shown(rv[x], q@));
        }
        assert forall|a: int| 0 <= a < r@.len() implies m.contains_key(#[trigger] r.deep_view()[a].path)
            && m[r.deep_view()[a].path] == r.deep_view()[a] && shown(r.deep_view()[a], q@) by {
            let x = choose|x: int| 0 <= x < i && #[trigger] r.deep_view()[a] == rv[x] && shown(rv[x], q@);
            assert(m.contains_key(rv[x].path));
        }
        proof {
            if search@.len() == 0 {
                assert forall|k: Seq<char>| m.contains_key(k) implies shown(m[k], q@) by {
                    assert(lower_case(m[k].name).subrange(0, 0) =~= q@);
                }
            }
        }
        r
    }

    /// Whether the archive has a folder at `folder` (`""` for the top): a
    /// folder entry with that path, or any entry below it.
    pub fn has_folder(&self, folder: &str) -> (r: bool)
        ensures
            r == (folder@.len() == 0 || exists|i: int|
                0 <= i < self.entries@.len() && ({
                    let e = #[trigger] self.entries.deep_view()[i];
                    (e.directory && e.path == folder@) || folder@.push('/').is_prefix_of(e.path)
                })),
    {
        let f = chars_of(folder);
        if f.len() == 0 {
            return true;
        }
        let mut prefix = slice_of(&f, 0, f.len());
        assert(f@.subrange(0, f@.len() as int) =~= f@);
        prefix.push('/');
        let mut i: usize = 0;
        while i < self.entries.len()
            invariant
                i <= self.entries.len(),
                f@ == folder@,
                prefix@ == folder@.push('/'),
                forall|j: int|
                    0 <= j < i ==> !({
                        let e = #[trigger] self.entries.deep_view()[j];
                        (e.directory && e.path == folder@) || folder@.push('/').is_prefix_of(e.path)
                    }),
            decreases self.entries.len() - i,
        {
            let e = &self.entries[i];
            let p = chars_of(e.path.as_str());
            let same = crate::scan::same_chars(&p, &f);
            let below = prefix.len() <= p.len() && matches_at(&p, &prefix, 0);
            proof {
                if folder@.push('/').is_prefix_of(e.path@) {
                    assert(p@.subrange(0, prefix@.len() as int) =~= prefix@);
                }
            }
            if (e.directory && same) || below {
                assert(self.entries.deep_view()[i as int] == e@);
                return true;
            }
            i = i + 1;
        }
        false
    }

    /// Whether the archive's comment can be edited: a zip archive that can
    /// be changed.
    pub fn comment_editable(&self) -> (r: bool)
        ensures
            r == (self.format@ == "ZIP"@ && is_editable(self.format@, self.open_type)),
    {
        crate::text::same_text(self.format.as_str(), "ZIP") && self.editable()
    }

    /// Whether entries can be added, renamed or deleted in this archive.
    pub fn editable(&self) -> (r: bool)
        ensures
            r == is_editable(self.format@, self.open_type),
    {
        let f = self.format.as_str();
        let known = crate::text::same_text(f, "7Z") || crate::text::same_text(f, "ZIP")
            || crate::text::same_text(f, "TAR") || crate::text::same_text(f, "WIM");
        let parser = match &self.open_type {
            Some(t) => t.parser,
            None => false,
        };
        known && !parser
    }
}

/// The options of a new archive, as the create dialog collects them.
#[derive(Clone, Debug)]
pub struct CreateOptions {
    pub format: String,
    pub level: String,
    pub method: String,
    pub threads: String,
    pub split: String,
    pub solid: bool,
    pub password: String,
    pub encrypt_names: bool,
}

} // verus!
