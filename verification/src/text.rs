//! Text helpers for the chat client: whitespace trimming of the input
//! buffer and the case-insensitive check for the two quit commands.

use vstd::prelude::*;
use vstd::string::*;

verus! {

/// The whitespace characters this client recognizes around typed input.
pub open spec fn is_space_char(c: char) -> bool {
    c == ' ' || c == '\t' || c == '\n' || c == '\r'
}

/// Every character of `s` is whitespace.
pub open spec fn all_space(s: Seq<char>) -> bool {
    forall|i: int| 0 <= i < s.len() ==> is_space_char(s[i])
}

/// `s` with its leading whitespace removed.
pub open spec fn trim_start_spec(s: Seq<char>) -> Seq<char>
    decreases s.len(),
{
    if s.len() > 0 && is_space_char(s.first()) {
        trim_start_spec(s.drop_first())
    } else {
        s
    }
}

/// `s` with its trailing whitespace removed.
pub open spec fn trim_end_spec(s: Seq<char>) -> Seq<char>
    decreases s.len(),
{
    if s.len() > 0 && is_space_char(s.last()) {
        trim_end_spec(s.drop_last())
    } else {
        s
    }
}

/// `s` with both leading and trailing whitespace removed.
pub open spec fn trim_spec(s: Seq<char>) -> Seq<char> {
    trim_end_spec(trim_start_spec(s))
}

/// Relies on `String::push`: appends exactly the given character at the
/// end of the string.
#[verifier::external_body]
pub(crate) fn push_char(s: &mut String, c: char)
    ensures
        final(s)@ == old(s)@.push(c),
{
    s.push(c);
}

/// Relies on `String::pop`: removes and returns the last character of the
/// string, or returns nothing and leaves it alone when it is empty.
#[verifier::external_body]
pub(crate) fn pop_char(s: &mut String) -> (r: Option<char>)
    ensures
        old(s)@.len() == 0 ==> final(s)@ == old(s)@ && r is None,
        old(s)@.len() > 0 ==> final(s)@ == old(s)@.drop_last() && r == Some(old(s)@.last()),
{
    s.pop()
}

/// Exec form of `is_space_char`.
pub fn is_space(c: char) -> (r: bool)
    ensures
        r == is_space_char(c),
{
    c == ' ' || c == '\t' || c == '\n' || c == '\r'
}

proof fn lemma_trim_start_at(s: Seq<char>, i: int)
    requires
        0 <= i <= s.len(),
        forall|k: int| 0 <= k < i ==> is_space_char(s[k]),
        i < s.len() ==> !is_space_char(s[i]),
    ensures
        trim_start_spec(s) == s.subrange(i, s.len() as int),
    decreases i,
{
    if i == 0 {
        assert(s.subrange(0, s.len() as int) =~= s);
    } else {
        let t = s.drop_first();
        assert(t =~= s.subrange(1, s.len() as int));
        lemma_trim_start_at(t, i - 1);
        assert(t.subrange(i - 1, t.len() as int) =~= s.subrange(i, s.len() as int));
    }
}

proof fn lemma_trim_end_at(s: Seq<char>, j: int)
    requires
        0 <= j <= s.len(),
        forall|k: int| j <= k < s.len() ==> is_space_char(s[k]),
        j > 0 ==> !is_space_char(s[j - 1]),
    ensures
        trim_end_spec(s) == s.subrange(0, j),
    decreases s.len() - j,
{
    if j == s.len() {
        assert(s.subrange(0, j) =~= s);
    } else {
        let t = s.drop_last();
        assert(t =~= s.subrange(0, s.len() - 1));
        lemma_trim_end_at(t, j);
        assert(t.subrange(0, j) =~= s.subrange(0, j));
    }
}

/// `s` trimmed on both sides, as an executable function.
pub fn trim(s: &str) -> (r: &str)
    ensures
        r@ == trim_spec(s@),
{
    let n = s.unicode_len();
    let mut start: usize = 0;
    while start < n && is_space(s.get_char(start))
        invariant
            0 <= start <= n,
            n == s@.len(),
            forall|k: int| 0 <= k < start ==> is_space_char(s@[k]),
        decreases n - start,
    {
        start = start + 1;
    }
    let mut end: usize = n;
    while end > start && is_space(s.get_char(end - 1))
        invariant
            start <= end <= n,
            n == s@.len(),
            forall|k: int| end <= k < n ==> is_space_char(s@[k]),
        decreases end,
    {
        end = end - 1;
    }
    proof {
        lemma_trim_start_at(s@, start as int);
        let u = s@.subrange(start as int, n as int);
        assert forall|k: int| end - start <= k < u.len() implies is_space_char(u[k]) by {
            assert(u[k] == s@[k + start]);
        }
        assert(end > start ==> u[end - start - 1] == s@[end - 1]);
        lemma_trim_end_at(u, end - start);
        assert(u.subrange(0, end - start) =~= s@.subrange(start as int, end as int));
    }
    s.substring_char(start, end)
}

proof fn lemma_all_space_trim_start_empty(s: Seq<char>)
    requires
        all_space(s),
    ensures
        trim_start_spec(s).len() == 0,
    decreases s.len(),
{
    if s.len() > 0 {
        assert(is_space_char(s.first()));
        assert(all_space(s.drop_first()));
        lemma_all_space_trim_start_empty(s.drop_first());
    }
}

proof fn lemma_trim_end_empty_all_space(s: Seq<char>)
    requires
        trim_end_spec(s).len() == 0,
    ensures
        all_space(s),
    decreases s.len(),
{
    if s.len() > 0 {
        assert(is_space_char(s.last()));
        let t = s.drop_last();
        lemma_trim_end_empty_all_space(t);
        assert forall|i: int| 0 <= i < s.len() implies is_space_char(s[i]) by {
            if i < s.len() - 1 {
                assert(t[i] == s[i]);
            }
        }
    }
}

proof fn lemma_trim_start_all_space(s: Seq<char>)
    requires
        all_space(trim_start_spec(s)),
    ensures
        all_space(s),
    decreases s.len(),
{
    if s.len() > 0 && is_space_char(s.first()) {
        lemma_trim_start_all_space(s.drop_first());
        let t = s.drop_first();
        assert forall|i: int| 0 <= i < s.len() implies is_space_char(s[i]) by {
            if i > 0 {
                assert(t[i - 1] == s[i]);
            }
        }
    }
}

/// Trimming yields the empty sequence exactly when the input is all
/// whitespace: a whitespace-only input buffer is what the submission
/// protocol treats as empty.
pub proof fn lemma_trim_empty_iff_all_space(s: Seq<char>)
    ensures
        trim_spec(s).len() == 0 <==> all_space(s),
{
    if trim_spec(s).len() == 0 {
        lemma_trim_end_empty_all_space(trim_start_spec(s));
        lemma_trim_start_all_space(s);
    }
    if all_space(s) {
        lemma_all_space_trim_start_empty(s);
    }
}

/// Case-insensitive equality of `s` with `"quit"` or `"exit"`: the two
/// commands that end a chat session.
pub open spec fn is_quit_word(s: Seq<char>) -> bool {
    s.len() == 4 && ((s[0] == 'q' || s[0] == 'Q') && (s[1] == 'u' || s[1] == 'U') && (s[2]
        == 'i' || s[2] == 'I') && (s[3] == 't' || s[3] == 'T') || (s[0] == 'e' || s[0] == 'E') && (
    s[1] == 'x' || s[1] == 'X') && (s[2] == 'i' || s[2] == 'I') && (s[3] == 't' || s[3] == 'T'))
}

/// Exec form of `is_quit_word`.
pub fn is_quit_command(s: &str) -> (r: bool)
    ensures
        r == is_quit_word(s@),
{
    let n = s.unicode_len();
    if n != 4 {
        return false;
    }
    let c0 = s.get_char(0);
    let c1 = s.get_char(1);
    let c2 = s.get_char(2);
    let c3 = s.get_char(3);
    (c0 == 'q' || c0 == 'Q') && (c1 == 'u' || c1 == 'U') && (c2 == 'i' || c2 == 'I') && (c3 == 't'
        || c3 == 'T') || (c0 == 'e' || c0 == 'E') && (c1 == 'x' || c1 == 'X') && (c2 == 'i' || c2
        == 'I') && (c3 == 't' || c3 == 'T')
}

} // verus!
