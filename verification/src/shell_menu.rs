//! The decisions of the Explorer context menu: how its titles are written,
//! how its list of commands is walked, and when the library can unload.

use crate::scan::{find_at, find_from, lemma_find_from, slice_of};
use crate::text::chars_of;
use vstd::prelude::*;

verus! {

/// A node of the menu: the top entry, the submenus, or a command by its
/// position in the list of commands.
#[derive(Clone, Copy, Debug, PartialEq, Eq, Structural)]
pub enum MenuNode {
    Root,
    OpenTypes,
    Email,
    Hashes,
    Action(usize),
}

/// How far a node's identifier lies from the class identifier.
pub open spec fn node_offset(node: MenuNode) -> int {
    match node {
        MenuNode::Root => 0,
        MenuNode::OpenTypes => 1000,
        MenuNode::Hashes => 1001,
        MenuNode::Email => 1002,
        MenuNode::Action(i) => i + 1,
    }
}

impl MenuNode {
    /// How far the node's identifier lies from the class identifier.
    pub fn offset(self) -> (r: u128)
        ensures
            r == node_offset(self),
    {
        match self {
            MenuNode::Root => 0,
            MenuNode::OpenTypes => 1000,
            MenuNode::Hashes => 1001,
            MenuNode::Email => 1002,
            MenuNode::Action(i) => (i as u128) + 1,
        }
    }
}

/// A name with each `&` doubled, so that a menu shows it rather than
/// reading it as the mark of an access key.
pub open spec fn doubled_ampersands(s: Seq<char>) -> Seq<char>
    decreases s.len(),
{
    if s.len() == 0 {
        seq![]
    } else {
        doubled_ampersands(s.drop_last()) + if s.last() == '&' {
            seq!['&', '&']
        } else {
            seq![s.last()]
        }
    }
}

/// `s[i..]` with each `{name}` replaced by `name`, left to right.
pub open spec fn filled_from(s: Seq<char>, name: Seq<char>, i: int) -> Seq<char>
    decreases s.len() - i,
{
    if i < 0 || i > s.len() {
        seq![]
    } else {
        match find_from(s, "{name}"@, i) {
            None => s.subrange(i, s.len() as int),
            Some(k) => {
                proof {
                    lemma_find_from(s, "{name}"@, i);
                    reveal_strlit("{name}");
                }
                s.subrange(i, k) + name + filled_from(s, name, k + "{name}"@.len())
            },
        }
    }
}

/// The title of a menu command whose template names a file: each `{name}`
/// of the template replaced by the name, its ampersands doubled.
pub open spec fn menu_title(template: Seq<char>, name: Seq<char>) -> Seq<char> {
    filled_from(template, doubled_ampersands(name), 0)
}

fn double_ampersands(s: &Vec<char>) -> (r: Vec<char>)
    ensures
        r@ == doubled_ampersands(s@),
{
    let mut r: Vec<char> = Vec::new();
    let mut i: usize = 0;
    while i < s.len()
        invariant
            i <= s.len(),
            r@ == doubled_ampersands(s@.take(i as int)),
        decreases s.len() - i,
    {
        assert(s@.take(i + 1).drop_last() =~= s@.take(i as int));
        assert(s@.take(i + 1).last() == s@[i as int]);
        let ghost before = r@;
        if s[i] == '&' {
            r.push('&');
            r.push('&');
            assert(r@ =~= before + seq!['&', '&']);
        } else {
            r.push(s[i]);
            assert(r@ =~= before + seq![s@[i as int]]);
        }
        i = i + 1;
    }
    assert(s@.take(i as int) =~= s@);
    r
}

/// The title of a menu command for a file called `name`.
pub fn title(template: &str, name: &str) -> (r: String)
    ensures
        r@ == menu_title(template@, name@),
{
    let t = chars_of(template);
    let value = double_ampersands(&chars_of(name));
    let pattern = chars_of("{name}");
    proof {
        reveal_strlit("{name}");
    }
    assert(pattern@.len() == 6);
    let mut out: Vec<char> = Vec::new();
    let mut i: usize = 0;
    loop
        invariant
            i <= t.len(),
            pattern@ == "{name}"@,
            pattern@.len() == 6,
            out@ + filled_from(t@, value@, i as int) == menu_title(template@, name@),
            t@ == template@,
        decreases t.len() - i,
    {
        proof {
            lemma_find_from(t@, pattern@, i as int);
        }
        match find_at(&t, &pattern, i) {
            None => {
                let rest = slice_of(&t, i, t.len());
                let ghost before = out@;
                let mut k: usize = 0;
                while k < rest.len()
                    invariant
                        k <= rest.len(),
                        out@ == before + rest@.take(k as int),
                    decreases rest.len() - k,
                {
                    out.push(rest[k]);
                    assert(before + rest@.take(k + 1) =~= (before + rest@.take(k as int)).push(rest@[k as int]));
                    k = k + 1;
                }
                assert(rest@.take(k as int) =~= rest@);
                return crate::text::string_of(out.as_slice());
            },
            Some(k) => {
                let ghost before = out@;
                let mut j = i;
                while j < k
                    invariant
                        i <= j <= k,
                        k + 6 <= t.len(),
                        out@ == before + t@.subrange(i as int, j as int),
                    decreases k - j,
                {
                    out.push(t[j]);
                    assert(before + t@.subrange(i as int, j + 1) =~= (before + t@.subrange(i as int, j as int)).push(t@[j as int]));
                    j = j + 1;
                }
                let ghost middle = out@;
                let mut m: usize = 0;
                while m < value.len()
                    invariant
                        m <= value.len(),
                        out@ == middle + value@.take(m as int),
                    decreases value.len() - m,
                {
                    out.push(value[m]);
                    assert(middle + value@.take(m + 1) =~= (middle + value@.take(m as int)).push(value@[m as int]));
                    m = m + 1;
                }
                assert(value@.take(m as int) =~= value@);
                assert(before + filled_from(t@, value@, i as int) =~= out@ + filled_from(t@, value@, k + 6));
                i = k + 6;
            },
        }
    }
}

/// The commands that one call of the enumerator hands out: from `position`,
/// at most `count`, no further than the end of the `len` commands; and
/// whether it handed out as many as asked.
pub open spec fn fetch_window(position: nat, count: nat, len: nat) -> (nat, nat, bool) {
    let end = if position + count < len { position + count } else { len };
    (position, end, end - position == count)
}

/// The commands that one call of the enumerator hands out: where they start
/// and end, and whether they are as many as asked.
pub fn fetch(position: usize, count: u32, len: usize) -> (r: (usize, usize, bool))
    requires
        position <= len,
    ensures
        (r.0 as nat, r.1 as nat, r.2) == fetch_window(position as nat, count as nat, len as nat),
{
    let wanted = count as usize;
    let end = if wanted <= len - position { position + wanted } else { len };
    (position, end, end - position == wanted)
}

/// Where the enumerator stands after skipping `count` commands, and whether
/// there were as many to skip.
pub open spec fn skip_to(position: nat, count: nat, len: nat) -> (nat, bool) {
    if position + count <= len {
        (position + count, true)
    } else {
        (len, false)
    }
}

/// Where the enumerator stands after skipping `count` commands, and whether
/// there were as many to skip.
pub fn skip(position: usize, count: u32, len: usize) -> (r: (usize, bool))
    requires
        position <= len,
    ensures
        (r.0 as nat, r.1) == skip_to(position as nat, count as nat, len as nat),
{
    let wanted = count as usize;
    if wanted <= len - position {
        (position + wanted, true)
    } else {
        (len, false)
    }
}

/// Whether a call for commands gives the places to write them: an output
/// slot, and a place for the count unless exactly one is asked for.
pub fn fetch_arguments_valid(output_given: bool, fetched_given: bool, count: u32) -> (r: bool)
    ensures
        r == (output_given && (count == 1 || fetched_given)),
{
    output_given && (count == 1 || fetched_given)
}

/// Whether the library may be unloaded: no object of it is alive and no
/// caller holds it locked.
pub fn can_unload(objects: usize, locks: usize) -> (r: bool)
    ensures
        r == (objects == 0 && locks == 0),
{
    objects == 0 && locks == 0
}

/// How much the library is in use: the live objects it handed out, and the
/// locks its callers hold. Both counters wrap around, as the atomic counters
/// of the library do.
#[derive(Clone, Copy, Debug, PartialEq, Eq, Structural)]
pub struct ModuleUse {
    pub objects: usize,
    pub locks: usize,
}

/// A counter one up, wrapping around.
pub open spec fn up(n: usize) -> usize {
    if n == usize::MAX {
        0
    } else {
        (n + 1) as usize
    }
}

/// A counter one down, wrapping around.
pub open spec fn down(n: usize) -> usize {
    if n == 0 {
        usize::MAX
    } else {
        (n - 1) as usize
    }
}

impl ModuleUse {
    /// Nothing in use.
    pub fn new() -> (r: ModuleUse)
        ensures
            r.objects == 0 && r.locks == 0,
    {
        ModuleUse { objects: 0, locks: 0 }
    }

    /// An object of the library was made.
    pub fn object_made(&mut self)
        ensures
            final(self).objects == up(old(self).objects),
            final(self).locks == old(self).locks,
    {
        self.objects = if self.objects == usize::MAX { 0 } else { self.objects + 1 };
    }

    /// An object of the library was released.
    pub fn object_released(&mut self)
        ensures
            final(self).objects == down(old(self).objects),
            final(self).locks == old(self).locks,
    {
        self.objects = if self.objects == 0 { usize::MAX } else { self.objects - 1 };
    }

    /// A caller locked the library in memory, or released its lock.
    pub fn lock_server(&mut self, lock: bool)
        ensures
            final(self).objects == old(self).objects,
            final(self).locks == if lock { up(old(self).locks) } else { down(old(self).locks) },
    {
        self.locks = if lock {
            if self.locks == usize::MAX { 0 } else { self.locks + 1 }
        } else {
            if self.locks == 0 { usize::MAX } else { self.locks - 1 }
        };
    }

    /// Whether the library may be unloaded now.
    pub fn idle(&self) -> (r: bool)
        ensures
            r == (self.objects == 0 && self.locks == 0),
    {
        can_unload(self.objects, self.locks)
    }
}

/// Making an object and releasing it, or locking and unlocking, leaves the
/// use as it was.
pub proof fn law_release_undoes_make(n: usize)
    ensures
        down(up(n)) == n,
        up(down(n)) == n,
{
}

/// Walking the commands never goes past their end, and what one call hands
/// out starts where the last one stopped.
pub proof fn law_walk_stays_in_range(position: nat, count: nat, len: nat)
    requires
        position <= len,
    ensures
        fetch_window(position, count, len).1 <= len,
        fetch_window(position, count, len).0 <= fetch_window(position, count, len).1,
        skip_to(position, count, len).0 <= len,
        skip_to(position, count, len).0 == fetch_window(position, count, len).1,
        skip_to(position, count, len).1 == fetch_window(position, count, len).2,
{
}

} // verus!
