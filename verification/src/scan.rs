//! Searching and splitting sequences of characters, with the meaning that the
//! standard string methods `find`, `split`, `lines` and `replace` give them.

use vstd::prelude::*;

verus! {

/// Whether `pat` occurs in `s` at offset `i`.
pub open spec fn occurs_at(s: Seq<char>, pat: Seq<char>, i: int) -> bool {
    0 <= i && i + pat.len() <= s.len() && s.subrange(i, i + pat.len()) == pat
}

/// The first offset at or after `i` where `pat` occurs in `s`.
pub open spec fn find_from(s: Seq<char>, pat: Seq<char>, i: int) -> Option<int>
    decreases s.len() - i,
{
    if i < 0 || i + pat.len() > s.len() {
        None
    } else if s.subrange(i, i + pat.len()) == pat {
        Some(i)
    } else if i >= s.len() {
        None
    } else {
        find_from(s, pat, i + 1)
    }
}

pub proof fn lemma_find_from(s: Seq<char>, pat: Seq<char>, i: int)
    requires
        0 <= i,
    ensures
        find_from(s, pat, i) matches Some(k) ==> i <= k && k + pat.len() <= s.len() && occurs_at(
            s,
            pat,
            k,
        ),
        find_from(s, pat, i) matches Some(k) ==> forall|j: int| i <= j < k ==> !occurs_at(s, pat, j),
        find_from(s, pat, i) is None ==> forall|j: int| i <= j ==> !occurs_at(s, pat, j),
    decreases s.len() - i,
{
    if i < 0 || i + pat.len() > s.len() {
    } else if s.subrange(i, i + pat.len()) == pat {
    } else if i >= s.len() {
        assert(s.subrange(i, i + pat.len()) =~= pat);
    } else {
        lemma_find_from(s, pat, i + 1);
    }
}

/// The deep view of a vector of characters is its view.
pub proof fn lemma_deep_chars(v: &Vec<char>)
    ensures
        v.deep_view() == v@,
{
    assert(v.deep_view() =~= v@);
}

/// A line without the carriage return that ended it.
pub open spec fn strip_cr(line: Seq<char>) -> Seq<char> {
    if line.len() > 0 && line.last() == '\r' {
        line.drop_last()
    } else {
        line
    }
}

/// The lines of `s[i..]`, as `str::lines` gives them: split after each line
/// feed, a carriage return before the line feed dropped, no final empty line.
pub open spec fn lines_from(s: Seq<char>, i: int) -> Seq<Seq<char>>
    decreases s.len() - i,
{
    if i < 0 || i >= s.len() {
        seq![]
    } else {
        match find_from(s, seq!['\n'], i) {
            None => seq![s.subrange(i, s.len() as int)],
            Some(k) => {
                proof {
                    lemma_find_from(s, seq!['\n'], i);
                }
                seq![strip_cr(s.subrange(i, k))] + lines_from(s, k + 1)
            },
        }
    }
}

/// The pieces of `s[i..]` between occurrences of a non-empty `pat`, as
/// `str::split` gives them: empty pieces included.
pub open spec fn split_from(s: Seq<char>, pat: Seq<char>, i: int) -> Seq<Seq<char>>
    decreases s.len() - i,
{
    if i < 0 || i > s.len() || pat.len() == 0 {
        seq![]
    } else {
        match find_from(s, pat, i) {
            None => seq![s.subrange(i, s.len() as int)],
            Some(k) => {
                proof {
                    lemma_find_from(s, pat, i);
                }
                seq![s.subrange(i, k)] + split_from(s, pat, k + pat.len())
            },
        }
    }
}

/// `s[i..]` with every carriage return and line feed pair replaced by a line
/// feed, scanning left to right as `str::replace` does.
pub open spec fn lf_from(s: Seq<char>, i: int) -> Seq<char>
    decreases s.len() - i,
{
    if i < 0 || i >= s.len() {
        seq![]
    } else if i + 1 < s.len() && s[i] == '\r' && s[i + 1] == '\n' {
        seq!['\n'] + lf_from(s, i + 2)
    } else {
        seq![s[i]] + lf_from(s, i + 1)
    }
}

/// Whether `pat` occurs in `s` at offset `i`.
pub fn matches_at(s: &Vec<char>, pat: &Vec<char>, i: usize) -> (r: bool)
    requires
        i + pat.len() <= s.len(),
    ensures
        r == (s@.subrange(i as int, i + pat@.len()) == pat@),
{
    let mut k: usize = 0;
    while k < pat.len()
        invariant
            k <= pat.len(),
            i + pat.len() <= s.len(),
            s@.subrange(i as int, i + k) == pat@.take(k as int),
        decreases pat.len() - k,
    {
        if s[i + k] != pat[k] {
            assert(s@.subrange(i as int, i + pat@.len())[k as int] != pat@[k as int]);
            return false;
        }
        assert(s@.subrange(i as int, i + k + 1) =~= s@.subrange(i as int, i + k).push(s@[i + k]));
        assert(pat@.take(k + 1) =~= pat@.take(k as int).push(pat@[k as int]));
        k = k + 1;
    }
    assert(pat@.take(pat@.len() as int) =~= pat@);
    true
}

/// The first offset at or after `start` where `pat` occurs in `s`.
pub fn find_at(s: &Vec<char>, pat: &Vec<char>, start: usize) -> (r: Option<usize>)
    ensures
        match r {
            Some(k) => find_from(s@, pat@, start as int) == Some(k as int),
            None => find_from(s@, pat@, start as int) is None,
        },
{
    let mut i = start;
    if pat.len() > s.len() {
        return None;
    }
    if pat.len() == 0 {
        if start <= s.len() {
            assert(s@.subrange(start as int, start as int) =~= pat@);
            return Some(start);
        }
        return None;
    }
    while i <= s.len() - pat.len()
        invariant
            start <= i,
            0 < pat.len() <= s.len(),
            find_from(s@, pat@, start as int) == find_from(s@, pat@, i as int),
        decreases s.len() - i,
    {
        if matches_at(s, pat, i) {
            return Some(i);
        }
        i = i + 1;
    }
    None
}

/// The characters `s[from..to]`.
pub fn slice_of(s: &Vec<char>, from: usize, to: usize) -> (r: Vec<char>)
    requires
        from <= to <= s.len(),
    ensures
        r@ == s@.subrange(from as int, to as int),
{
    let mut r: Vec<char> = Vec::new();
    let mut i = from;
    while i < to
        invariant
            from <= i <= to <= s.len(),
            r@ == s@.subrange(from as int, i as int),
        decreases to - i,
    {
        r.push(s[i]);
        assert(s@.subrange(from as int, i + 1) =~= s@.subrange(from as int, i as int).push(s@[i as int]));
        i = i + 1;
    }
    r
}

/// A line without the carriage return that ended it.
pub fn without_cr(line: Vec<char>) -> (r: Vec<char>)
    ensures
        r@ == strip_cr(line@),
{
    let mut line = line;
    if line.len() > 0 && line[line.len() - 1] == '\r' {
        line.pop();
    }
    line
}

/// The lines of `s`, as `str::lines` gives them.
pub fn lines(s: &Vec<char>) -> (r: Vec<Vec<char>>)
    ensures
        r.deep_view() == lines_from(s@, 0),
{
    let mut r: Vec<Vec<char>> = Vec::new();
    let mut i: usize = 0;
    let newline = vec!['\n'];
    assert(newline@ =~= seq!['\n']);
    while i < s.len()
        invariant
            i <= s.len(),
            newline@ == seq!['\n'],
            r.deep_view() + lines_from(s@, i as int) == lines_from(s@, 0),
        decreases s.len() - i,
    {
        proof {
            lemma_find_from(s@, newline@, i as int);
        }
        match find_at(s, &newline, i) {
            None => {
                let line = slice_of(s, i, s.len());
                let ghost before = r.deep_view();
                proof {
                    lemma_deep_chars(&line);
                }
                r.push(line);
                assert(r.deep_view() =~= before.push(line@));
                assert(lines_from(s@, s@.len() as int) =~= seq![]);
                assert(before + lines_from(s@, i as int) =~= r.deep_view() + lines_from(
                    s@,
                    s@.len() as int,
                ));
                i = s.len();
            },
            Some(k) => {
                let line = without_cr(slice_of(s, i, k));
                let ghost before = r.deep_view();
                proof {
                    lemma_deep_chars(&line);
                }
                r.push(line);
                assert(r.deep_view() =~= before.push(line@));
                assert(before + lines_from(s@, i as int) =~= r.deep_view() + lines_from(
                    s@,
                    k + 1,
                ));
                i = k + 1;
            },
        }
    }
    assert(lines_from(s@, i as int) =~= seq![]);
    assert(r.deep_view() + seq![] =~= r.deep_view());
    r
}

/// The pieces of `s` between occurrences of a non-empty `pat`.
pub fn split(s: &Vec<char>, pat: &Vec<char>) -> (r: Vec<Vec<char>>)
    requires
        pat.len() > 0,
    ensures
        r.deep_view() == split_from(s@, pat@, 0),
{
    let mut r: Vec<Vec<char>> = Vec::new();
    let mut i: usize = 0;
    loop
        invariant
            i <= s.len(),
            pat.len() > 0,
            r.deep_view() + split_from(s@, pat@, i as int) == split_from(s@, pat@, 0),
        decreases s.len() - i,
    {
        proof {
            lemma_find_from(s@, pat@, i as int);
        }
        match find_at(s, pat, i) {
            None => {
                let piece = slice_of(s, i, s.len());
                let ghost before = r.deep_view();
                proof {
                    lemma_deep_chars(&piece);
                }
                r.push(piece);
                assert(r.deep_view() =~= before.push(piece@));
                assert(before + split_from(s@, pat@, i as int) =~= r.deep_view());
                return r;
            },
            Some(k) => {
                let piece = slice_of(s, i, k);
                let ghost before = r.deep_view();
                proof {
                    lemma_deep_chars(&piece);
                }
                r.push(piece);
                assert(r.deep_view() =~= before.push(piece@));
                assert(before + split_from(s@, pat@, i as int) =~= r.deep_view() + split_from(
                    s@,
                    pat@,
                    k + pat@.len(),
                ));
                i = k + pat.len();
            },
        }
    }
}

/// `s` with every carriage return and line feed pair replaced by a line feed.
pub fn crlf_to_lf(s: &Vec<char>) -> (r: Vec<char>)
    ensures
        r@ == lf_from(s@, 0),
{
    let mut r: Vec<char> = Vec::new();
    let mut i: usize = 0;
    while i < s.len()
        invariant
            i <= s.len(),
            r@ + lf_from(s@, i as int) == lf_from(s@, 0),
        decreases s.len() - i,
    {
        let ghost before = r@;
        if i + 1 < s.len() && s[i] == '\r' && s[i + 1] == '\n' {
            r.push('\n');
            assert(before + lf_from(s@, i as int) =~= r@ + lf_from(s@, i + 2));
            i = i + 2;
        } else {
            r.push(s[i]);
            assert(before + lf_from(s@, i as int) =~= r@ + lf_from(s@, i + 1));
            i = i + 1;
        }
    }
    assert(lf_from(s@, i as int) =~= seq![]);
    assert(r@ + seq![] =~= r@);
    r
}

/// The characters of `a` followed by those of `b`.
pub fn joined(a: &Vec<char>, b: &Vec<char>) -> (r: Vec<char>)
    ensures
        r@ == a@ + b@,
{
    let mut r = slice_of(a, 0, a.len());
    assert(a@.subrange(0, a@.len() as int) =~= a@);
    let mut i: usize = 0;
    while i < b.len()
        invariant
            i <= b.len(),
            r@ == a@ + b@.take(i as int),
        decreases b.len() - i,
    {
        r.push(b[i]);
        assert(a@ + b@.take(i + 1) =~= (a@ + b@.take(i as int)).push(b@[i as int]));
        i = i + 1;
    }
    assert(b@.take(i as int) =~= b@);
    r
}

/// Whether two sequences of characters are equal.
pub fn same_chars(a: &Vec<char>, b: &Vec<char>) -> (r: bool)
    ensures
        r == (a@ == b@),
{
    if a.len() != b.len() {
        return false;
    }
    let r = matches_at(a, b, 0);
    assert(a@.subrange(0, b@.len() as int) =~= a@);
    r
}

} // verus!
