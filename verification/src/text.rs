//! Small string-building helpers shared by the formatting, parsing and shell
//! modules.

use vstd::prelude::*;
use vstd::string::StrSliceExecFns;

verus! {

/// Relies on `String::push`: appends exactly the one character at the end.
#[verifier::external_body]
pub fn push_char(s: &mut String, c: char)
    ensures
        final(s)@ == old(s)@.push(c),
{
    s.push(c);
}

/// Append one string to another.
pub fn append_str(s: &mut String, other: &String)
    ensures
        final(s)@ == old(s)@ + other@,
{
    s.append(other.as_str());
}

/// The console line for a piece of text: the text followed by a line break;
/// the terminal draws it outside the library.
pub fn println(s: &str) -> (r: String)
    ensures
        r@ == s@ + seq!['\n'],
{
    let mut out = String::from_str(s);
    push_char(&mut out, '\n');
    out
}

/// Extending a vector of strings extends its deep view by that string's text.
pub(crate) proof fn lemma_deep_view_push(v1: Vec<String>, v2: Vec<String>, x: String)
    requires
        v2@ == v1@.push(x),
    ensures
        v2.deep_view() =~= v1.deep_view().push(x@),
{
    assert forall|k: int| 0 <= k < v2.deep_view().len() implies v2.deep_view()[k]
        == v1.deep_view().push(x@)[k] by {
        if k < v1@.len() {
            assert(v2@[k] == v1@[k]);
        }
    }
}

/// The text with leading spaces removed.
pub open spec fn trim_start(s: Seq<char>) -> Seq<char>
    decreases s.len(),
{
    if s.len() > 0 && s[0] == ' ' {
        trim_start(s.drop_first())
    } else {
        s
    }
}

/// The text with trailing spaces removed.
pub open spec fn trim_end(s: Seq<char>) -> Seq<char>
    decreases s.len(),
{
    if s.len() > 0 && s.last() == ' ' {
        trim_end(s.drop_last())
    } else {
        s
    }
}

/// The text with leading and trailing spaces removed.
pub open spec fn spec_trimmed(s: Seq<char>) -> Seq<char> {
    trim_end(trim_start(s))
}

/// Skipping a run of leading spaces leaves the leading trim unchanged.
proof fn lemma_trim_start_skip(s: Seq<char>, k: int)
    requires
        0 <= k <= s.len(),
        forall|j: int| 0 <= j < k ==> s[j] == ' ',
        k == s.len() || s[k] != ' ',
    ensures
        trim_start(s) =~= s.skip(k),
    decreases k,
{
    if k == 0 {
        if s.len() > 0 && s[0] == ' ' {
            assert(false);
        }
        assert(s.skip(0) =~= s);
    } else {
        assert(s.drop_first() =~= s.skip(1));
        lemma_trim_start_skip(s.skip(1), k - 1);
        assert(s.skip(1).skip(k - 1) =~= s.skip(k));
    }
}

/// Cutting a run of trailing spaces leaves the trailing trim unchanged.
proof fn lemma_trim_end_take(s: Seq<char>, k: int)
    requires
        0 <= k <= s.len(),
        forall|j: int| k <= j < s.len() ==> s[j] == ' ',
        k == 0 || s[k - 1] != ' ',
    ensures
        trim_end(s) =~= s.take(k),
    decreases s.len(),
{
    if k == s.len() {
        assert(s.take(k) =~= s);
    } else {
        assert(s.len() > 0 && s.last() == ' ');
        assert(s.drop_last() =~= s.take(s.len() - 1));
        lemma_trim_end_take(s.take(s.len() - 1), k);
        assert(s.take(s.len() - 1).take(k) =~= s.take(k));
    }
}

/// The text with leading and trailing spaces removed. Only printable
/// characters reach the shell's input buffer, so trimming spaces is all the
/// line needs before it is executed.
pub fn trimmed(s: &String) -> (r: String)
    ensures
        r@ == spec_trimmed(s@),
{
    let sref = s.as_str();
    let len = sref.unicode_len();
    let mut start: usize = 0;
    while start < len && sref.get_char(start) == ' '
        invariant
            len == sref@.len(),
            0 <= start <= len,
            forall|j: int| 0 <= j < start ==> sref@[j] == ' ',
        decreases len - start,
    {
        start = start + 1;
    }
    let mut end: usize = len;
    while end > start && sref.get_char(end - 1) == ' '
        invariant
            len == sref@.len(),
            start <= end <= len,
            forall|j: int| end <= j < len ==> sref@[j] == ' ',
        decreases end,
    {
        end = end - 1;
    }
    proof {
        lemma_trim_start_skip(sref@, start as int);
        lemma_trim_end_take(sref@.skip(start as int), end - start);
        assert(sref@.skip(start as int).take(end - start) =~= sref@.subrange(
            start as int,
            end as int,
        ));
    }
    let sub = sref.substring_char(start, end);
    String::from_str(sub)
}

} // verus!
