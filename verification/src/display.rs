//! Texts that the window shows: the kind of a file, the state and elapsed
//! time of an extraction.

use crate::size::{decimal, digit_char};
use crate::text::{chars_of, lower_case, same_text, string_of, to_lower};
use vstd::prelude::*;

verus! {

/// What follows the last `c` of a text, or the whole text.
pub open spec fn after_last(s: Seq<char>, c: char) -> Seq<char>
    decreases s.len(),
{
    if s.len() == 0 {
        s
    } else if s.last() == c {
        seq![]
    } else {
        after_last(s.drop_last(), c).push(s.last())
    }
}

/// The message key of the kind of a file with a lower-cased extension.
pub open spec fn kind_key(extension: Seq<char>) -> Seq<char> {
    if extension == "jpg"@ {
        "type-jpeg"@
    } else if extension == "png"@ {
        "type-png"@
    } else if extension == "md"@ {
        "type-markdown"@
    } else if extension == "txt"@ {
        "type-text"@
    } else if extension == "json"@ {
        "type-json"@
    } else if extension == "csv"@ {
        "type-csv"@
    } else if extension == "zip"@ {
        "type-zip"@
    } else if extension == "7z"@ {
        "type-7z"@
    } else {
        "type-file"@
    }
}

/// The message key of the kind shown for an entry: a folder, or by the
/// lower-cased text after the name's last dot.
pub open spec fn file_kind_key(name: Seq<char>, directory: bool) -> Seq<char> {
    if directory {
        "type-folder"@
    } else {
        kind_key(lower_case(after_last(name, '.')))
    }
}

fn extension_of(s: &Vec<char>) -> (r: Vec<char>)
    ensures
        r@ == after_last(s@, '.'),
{
    let mut j = s.len();
    assert(s@.take(j as int) =~= s@);
    assert(after_last(s@, '.') + s@.subrange(j as int, j as int) =~= after_last(s@, '.'));
    while j > 0 && s[j - 1] != '.'
        invariant
            j <= s.len(),
            after_last(s@, '.') == after_last(s@.take(j as int), '.') + s@.subrange(j as int, s@.len() as int),
        decreases j,
    {
        let ghost t = s@.take(j as int);
        assert(t.drop_last() =~= s@.take(j - 1));
        assert(s@.subrange(j - 1, s@.len() as int) =~= seq![s@[j - 1]] + s@.subrange(j as int, s@.len() as int));
        assert(after_last(t, '.') == after_last(s@.take(j - 1), '.').push(s@[j - 1]));
        assert(after_last(s@.take(j - 1), '.').push(s@[j - 1]) + s@.subrange(j as int, s@.len() as int)
            =~= after_last(s@.take(j - 1), '.') + s@.subrange(j - 1, s@.len() as int));
        j = j - 1;
    }
    assert(after_last(s@.take(j as int), '.') =~= seq![]);
    let r = crate::scan::slice_of(s, j, s.len());
    assert(seq![] + r@ =~= r@);
    r
}

/// The message key of the kind shown for an entry.
pub fn file_kind(name: &str, directory: bool) -> (r: &'static str)
    ensures
        r@ == file_kind_key(name@, directory),
{
    if directory {
        return "type-folder";
    }
    let extension = string_of(extension_of(&chars_of(name)).as_slice());
    let lowered = to_lower(extension.as_str());
    let e = lowered.as_str();
    if same_text(e, "jpg") {
        "type-jpeg"
    } else if same_text(e, "png") {
        "type-png"
    } else if same_text(e, "md") {
        "type-markdown"
    } else if same_text(e, "txt") {
        "type-text"
    } else if same_text(e, "json") {
        "type-json"
    } else if same_text(e, "csv") {
        "type-csv"
    } else if same_text(e, "zip") {
        "type-zip"
    } else if same_text(e, "7z") {
        "type-7z"
    } else {
        "type-file"
    }
}

/// The message key of the state shown while an archive is extracted.
pub open spec fn progress_key(stopping: bool, percent: Option<u8>) -> Seq<char> {
    if stopping {
        "cancelling"@
    } else if percent == Some(100u8) {
        "extract-finalizing"@
    } else if percent is None {
        "extract-preparing"@
    } else {
        "extracting"@
    }
}

/// The message key of the state shown while an archive is extracted.
pub fn progress_status(stopping: bool, percent: Option<u8>) -> (r: &'static str)
    ensures
        r@ == progress_key(stopping, percent),
{
    if stopping {
        "cancelling"
    } else if percent == Some(100u8) {
        "extract-finalizing"
    } else if percent.is_none() {
        "extract-preparing"
    } else {
        "extracting"
    }
}

/// A number with at least two digits.
pub open spec fn two_or_more(n: nat) -> Seq<char> {
    if n < 10 {
        seq!['0', digit_char(n)]
    } else {
        decimal(n)
    }
}

/// The elapsed time of an extraction as `HH:MM:SS`; the hours take more
/// digits after a hundred.
pub open spec fn elapsed_caption(seconds: nat) -> Seq<char> {
    two_or_more(seconds / 3600) + seq![':'] + two_or_more(seconds / 60 % 60) + seq![':']
        + two_or_more(seconds % 60)
}

fn push_two_or_more(out: &mut Vec<char>, n: u64)
    ensures
        final(out)@ == old(out)@ + two_or_more(n as nat),
{
    if n < 10 {
        let ghost before = out@;
        out.push('0');
        let d: u8 = 48 + (n as u8);
        out.push(d as char);
        assert(out@ =~= before + seq!['0', digit_char(n as nat)]);
    } else {
        crate::size::push_decimal(out, n as u128);
    }
}

/// The elapsed time of an extraction as `HH:MM:SS`.
pub fn elapsed_text(seconds: u64) -> (r: String)
    ensures
        r@ == elapsed_caption(seconds as nat),
{
    let mut out: Vec<char> = Vec::new();
    push_two_or_more(&mut out, seconds / 3600);
    out.push(':');
    push_two_or_more(&mut out, seconds / 60 % 60);
    out.push(':');
    push_two_or_more(&mut out, seconds % 60);
    assert(out@ =~= elapsed_caption(seconds as nat));
    string_of(out.as_slice())
}

} // verus!
