//! The line-break escape codec of the wire protocol.
//!
//! The worker protocol is strictly line-delimited: one prompt per line going
//! out, one response per line coming back. A line break embedded in a message
//! therefore travels as a fixed two-character escape token, a backslash
//! followed by `n`. `encode_prompt` replaces each real line break with the
//! token before a prompt is written to the worker; `decode_line` replaces
//! each token in a received response with a real line break.

use vstd::prelude::*;
use vstd::string::*;

verus! {

/// The decoded form of a received line: every occurrence of the escape
/// token (scanned left to right) becomes a line break.
pub open spec fn decode_spec(s: Seq<char>) -> Seq<char>
    decreases s.len(),
{
    if s.len() >= 2 && s[0] == '\\' && s[1] == 'n' {
        seq!['\n'] + decode_spec(s.skip(2))
    } else if s.len() >= 1 {
        seq![s[0]] + decode_spec(s.skip(1))
    } else {
        Seq::<char>::empty()
    }
}

/// The encoded form of an outgoing prompt: every line break becomes the
/// escape token.
pub open spec fn encode_spec(s: Seq<char>) -> Seq<char>
    decreases s.len(),
{
    if s.len() == 0 {
        Seq::<char>::empty()
    } else if s[0] == '\n' {
        seq!['\\', 'n'] + encode_spec(s.skip(1))
    } else {
        seq![s[0]] + encode_spec(s.skip(1))
    }
}

/// How many line breaks `s` contains.
pub open spec fn count_newlines(s: Seq<char>) -> nat
    decreases s.len(),
{
    if s.len() == 0 {
        0
    } else {
        (if s[0] == '\n' {
            1nat
        } else {
            0nat
        }) + count_newlines(s.skip(1))
    }
}

/// How many escape tokens a left-to-right scan of `s` finds.
pub open spec fn count_escape_tokens(s: Seq<char>) -> nat
    decreases s.len(),
{
    if s.len() >= 2 && s[0] == '\\' && s[1] == 'n' {
        1 + count_escape_tokens(s.skip(2))
    } else if s.len() >= 1 {
        count_escape_tokens(s.skip(1))
    } else {
        0
    }
}

/// `s` split on line breaks; a text with `k` line breaks has `k + 1`
/// segments, so the result is never empty.
pub open spec fn split_lines(s: Seq<char>) -> Seq<Seq<char>>
    decreases s.len(),
{
    if s.len() == 0 {
        seq![Seq::<char>::empty()]
    } else if s[0] == '\n' {
        seq![Seq::<char>::empty()] + split_lines(s.skip(1))
    } else {
        let rest = split_lines(s.skip(1));
        seq![seq![s[0]] + rest[0]] + rest.skip(1)
    }
}

/// `s` contains the escape token somewhere.
pub open spec fn has_escape_token(s: Seq<char>) -> bool {
    exists|i: int| 0 <= i < s.len() - 1 && #[trigger] s[i] == '\\' && s[i + 1] == 'n'
}

proof fn lemma_split_lines_count(s: Seq<char>)
    ensures
        split_lines(s).len() == count_newlines(s) + 1,
    decreases s.len(),
{
    if s.len() == 0 {
    } else {
        lemma_split_lines_count(s.skip(1));
    }
}

proof fn lemma_count_newlines_prepend(c: char, s: Seq<char>)
    ensures
        count_newlines(seq![c] + s) == (if c == '\n' {
            1nat
        } else {
            0nat
        }) + count_newlines(s),
{
    let t = seq![c] + s;
    assert(t[0] == c);
    assert(t.skip(1) =~= s);
}

/// Decoding turns exactly the escape tokens of a single-line response into
/// line breaks: the decoded text has as many line breaks as the response
/// had tokens.
pub proof fn lemma_decode_newline_count(s: Seq<char>)
    requires
        forall|i: int| 0 <= i < s.len() ==> s[i] != '\n',
    ensures
        count_newlines(decode_spec(s)) == count_escape_tokens(s),
    decreases s.len(),
{
    if s.len() >= 2 && s[0] == '\\' && s[1] == 'n' {
        assert(forall|i: int| 0 <= i < s.skip(2).len() ==> s.skip(2)[i] == s[i + 2]);
        lemma_decode_newline_count(s.skip(2));
        lemma_count_newlines_prepend('\n', decode_spec(s.skip(2)));
    } else if s.len() >= 1 {
        assert(forall|i: int| 0 <= i < s.skip(1).len() ==> s.skip(1)[i] == s[i + 1]);
        lemma_decode_newline_count(s.skip(1));
        lemma_count_newlines_prepend(s[0], decode_spec(s.skip(1)));
    }
}

/// A response carrying `k` embedded escape tokens decodes into a text
/// whose split on real line breaks has `k + 1` segments.
pub proof fn lemma_decoded_segment_count(s: Seq<char>)
    requires
        forall|i: int| 0 <= i < s.len() ==> s[i] != '\n',
    ensures
        split_lines(decode_spec(s)).len() == count_escape_tokens(s) + 1,
{
    lemma_decode_newline_count(s);
    lemma_split_lines_count(decode_spec(s));
}

/// The codec is symmetric: decoding an encoded prompt returns the prompt,
/// for every text that does not already contain the literal escape token.
/// (A text that spells out the token itself is ambiguous on the wire; the
/// protocol gives such a pair no separate representation.)
pub proof fn lemma_round_trip(s: Seq<char>)
    requires
        !has_escape_token(s),
    ensures
        decode_spec(encode_spec(s)) == s,
    decreases s.len(),
{
    if s.len() == 0 {
    } else {
        assert forall|i: int| !(0 <= i < s.skip(1).len() - 1 && #[trigger] s.skip(1)[i] == '\\'
            && s.skip(1)[i + 1] == 'n') by {
            if 0 <= i < s.skip(1).len() - 1 && s.skip(1)[i] == '\\' && s.skip(1)[i + 1] == 'n' {
                assert(s[i + 1] == '\\' && s[i + 2] == 'n');
                assert(has_escape_token(s));
            }
        }
        assert(!has_escape_token(s.skip(1)));
        lemma_round_trip(s.skip(1));
        let e = encode_spec(s.skip(1));
        if s[0] == '\n' {
            let t = seq!['\\', 'n'] + e;
            assert(encode_spec(s) == t);
            assert(t.len() >= 2 && t[0] == '\\' && t[1] == 'n');
            assert(t.skip(2) =~= e);
            assert(decode_spec(t) == seq!['\n'] + decode_spec(e));
            assert(seq!['\n'] + s.skip(1) =~= s);
        } else {
            let t = seq![s[0]] + e;
            assert(encode_spec(s) == t);
            if t.len() >= 2 && t[0] == '\\' && t[1] == 'n' {
                // The first decoded character of the tail is the tail's own
                // first character, so the token would already stand in `s`.
                assert(e[0] == decode_spec(e)[0]);
                assert(s[0] == '\\' && s[1] == 'n');
                assert(has_escape_token(s));
            }
            assert(t.skip(1) =~= e);
            assert(decode_spec(t) == seq![t[0]] + decode_spec(e));
            assert(seq![s[0]] + s.skip(1) =~= s);
        }
    }
}

/// Decode one line received from the worker: each escape token becomes a
/// real line break.
pub fn decode_line(s: &str) -> (r: String)
    ensures
        r@ == decode_spec(s@),
{
    let n = s.unicode_len();
    let mut out = String::new();
    let mut i: usize = 0;
    proof {
        assert(s@.skip(0) =~= s@);
        assert(out@ + decode_spec(s@) =~= decode_spec(s@));
    }
    while i < n
        invariant
            i <= n,
            n == s@.len(),
            out@ + decode_spec(s@.skip(i as int)) == decode_spec(s@),
        decreases n - i,
    {
        let rest = Ghost(s@.skip(i as int));
        if i + 1 < n && s.get_char(i) == '\\' && s.get_char(i + 1) == 'n' {
            proof {
                reveal_strlit("\n");
                assert(rest@[0] == s@[i as int] && rest@[1] == s@[i as int + 1]);
                assert(rest@.skip(2) =~= s@.skip(i as int + 2));
                assert(decode_spec(rest@) == seq!['\n'] + decode_spec(s@.skip(i as int + 2)));
                assert("\n"@ =~= seq!['\n']);
                assert((out@ + "\n"@) + decode_spec(s@.skip(i as int + 2)) =~= out@ + decode_spec(
                    rest@,
                ));
            }
            out.append("\n");
            i = i + 2;
        } else {
            let piece = s.substring_char(i, i + 1);
            proof {
                assert(rest@[0] == s@[i as int]);
                assert(rest@.len() >= 2 ==> rest@[1] == s@[i as int + 1]);
                assert(!(rest@.len() >= 2 && rest@[0] == '\\' && rest@[1] == 'n'));
                assert(rest@.skip(1) =~= s@.skip(i as int + 1));
                assert(decode_spec(rest@) == seq![rest@[0]] + decode_spec(s@.skip(i as int + 1)));
                assert(piece@ =~= seq![rest@[0]]);
                assert((out@ + piece@) + decode_spec(s@.skip(i as int + 1)) =~= out@ + decode_spec(
                    rest@,
                ));
            }
            out.append(piece);
            i = i + 1;
        }
    }
    proof {
        assert(s@.skip(n as int) =~= Seq::<char>::empty());
        assert(out@ + decode_spec(s@.skip(n as int)) =~= out@);
    }
    out
}

/// Encode one prompt for the wire: each real line break becomes the escape
/// token, so the prompt travels as a single line.
pub fn encode_prompt(s: &str) -> (r: String)
    ensures
        r@ == encode_spec(s@),
{
    let n = s.unicode_len();
    let mut out = String::new();
    let mut i: usize = 0;
    proof {
        assert(s@.skip(0) =~= s@);
        assert(out@ + encode_spec(s@) =~= encode_spec(s@));
    }
    while i < n
        invariant
            i <= n,
            n == s@.len(),
            out@ + encode_spec(s@.skip(i as int)) == encode_spec(s@),
        decreases n - i,
    {
        let rest = Ghost(s@.skip(i as int));
        if s.get_char(i) == '\n' {
            proof {
                reveal_strlit("\\n");
                assert(rest@[0] == s@[i as int]);
                assert(rest@.skip(1) =~= s@.skip(i as int + 1));
                assert(encode_spec(rest@) == seq!['\\', 'n'] + encode_spec(s@.skip(i as int + 1)));
                assert("\\n"@ =~= seq!['\\', 'n']);
                assert((out@ + "\\n"@) + encode_spec(s@.skip(i as int + 1)) =~= out@ + encode_spec(
                    rest@,
                ));
            }
            out.append("\\n");
            i = i + 1;
        } else {
            let piece = s.substring_char(i, i + 1);
            proof {
                assert(rest@[0] == s@[i as int]);
                assert(rest@.skip(1) =~= s@.skip(i as int + 1));
                assert(encode_spec(rest@) == seq![rest@[0]] + encode_spec(s@.skip(i as int + 1)));
                assert(piece@ =~= seq![rest@[0]]);
                assert((out@ + piece@) + encode_spec(s@.skip(i as int + 1)) =~= out@ + encode_spec(
                    rest@,
                ));
            }
            out.append(piece);
            i = i + 1;
        }
    }
    proof {
        assert(s@.skip(n as int) =~= Seq::<char>::empty());
        assert(out@ + encode_spec(s@.skip(n as int)) =~= out@);
    }
    out
}

} // verus!
