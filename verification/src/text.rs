//! Text as sequences of characters: lines, trimming, joining.
//!
//! The functions of this module know nothing of clippings. They say what a line
//! of a text is and what is left of a line once its margins are removed, and the
//! executable ones are proved against those statements.
use vstd::prelude::*;

verus! {

/// The character that ends a line.
pub const LINE_FEED: char = '\n';

/// The character that may stand before a line feed and then belongs to the line ending.
pub const CARRIAGE_RETURN: char = '\r';

/// The byte-order mark that some writers put in front of a text.
pub const BYTE_ORDER_MARK: char = '\u{feff}';

/// Whether `c` has the Unicode property `White_Space`, which is what
/// `str::trim` removes at both ends of a string.
pub uninterp spec fn is_white_space(c: char) -> bool;

/// `s` without the white space at its start.
pub open spec fn trimmed_start(s: Seq<char>) -> Seq<char>
    decreases s.len(),
{
    if s.len() > 0 && is_white_space(s.first()) {
        trimmed_start(s.drop_first())
    } else {
        s
    }
}

/// `s` without the white space at its end.
pub open spec fn trimmed_end(s: Seq<char>) -> Seq<char>
    decreases s.len(),
{
    if s.len() > 0 && is_white_space(s.last()) {
        trimmed_end(s.drop_last())
    } else {
        s
    }
}

/// `s` without the white space at its start and at its end.
pub open spec fn trimmed(s: Seq<char>) -> Seq<char> {
    trimmed_end(trimmed_start(s))
}

/// Whether `s` holds nothing but white space; the empty text does.
pub open spec fn is_blank(s: Seq<char>) -> bool {
    forall|i: int| 0 <= i < s.len() ==> is_white_space(#[trigger] s[i])
}

/// `s` without the byte-order mark in front of it, if there is one.
pub open spec fn without_bom(s: Seq<char>) -> Seq<char> {
    if s.len() > 0 && s.first() == BYTE_ORDER_MARK {
        s.drop_first()
    } else {
        s
    }
}

/// `line` without the carriage return at its end, if there is one.
pub open spec fn without_cr(line: Seq<char>) -> Seq<char> {
    if line.len() > 0 && line.last() == CARRIAGE_RETURN {
        line.drop_last()
    } else {
        line
    }
}

/// The number of characters of `text` that stand before its first line feed:
/// the length of `text` where it holds none.
pub open spec fn first_line_len(text: Seq<char>) -> nat
    decreases text.len(),
{
    if text.len() == 0 || text.first() == LINE_FEED {
        0
    } else {
        1 + first_line_len(text.drop_first())
    }
}

/// The lines of `text`. A line ends with a line feed, or with a carriage return
/// and a line feed, and neither belongs to the line; what follows the last line
/// feed is a line too unless it is empty.
pub open spec fn lines_of(text: Seq<char>) -> Seq<Seq<char>>
    decreases text.len(),
{
    if text.len() == 0 {
        Seq::empty()
    } else {
        let n = first_line_len(text) as int;
        if n < text.len() {
            seq![without_cr(text.take(n))] + lines_of(text.skip(n + 1))
        } else {
            seq![text]
        }
    }
}

/// The texts of `lines`, joined by one line feed between each two neighbours.
pub open spec fn joined(lines: Seq<Seq<char>>) -> Seq<char>
    decreases lines.len(),
{
    if lines.len() == 0 {
        Seq::empty()
    } else if lines.len() == 1 {
        lines[0]
    } else {
        joined(lines.drop_last()) + seq![LINE_FEED] + lines.last()
    }
}

/// The texts that a sequence of strings holds, in the same order.
pub open spec fn texts(lines: Seq<String>) -> Seq<Seq<char>> {
    Seq::new(lines.len(), |i: int| lines[i]@)
}

/// `String::push` appends the character to the string.
pub assume_specification[ String::push ](s: &mut String, c: char)
    ensures
        final(s)@ == old(s)@.push(c),
;

/// `String::pop` removes the last character of the string and returns it, and
/// returns `None` from an empty string, which it leaves as it is.
pub assume_specification[ String::pop ](s: &mut String) -> (last: Option<char>)
    ensures
        old(s)@.len() == 0 ==> last is None && final(s)@ == old(s)@,
        old(s)@.len() > 0 ==> last == Some(old(s)@.last()) && final(s)@ == old(s)@.drop_last(),
;

/// `str::trim` returns the part of the string that is left when the white space
/// at both ends is removed: what it returns neither starts nor ends with white
/// space.
pub assume_specification[ str::trim ](s: &str) -> (inner: &str)
    ensures
        inner@ == trimmed(s@),
        inner@.len() > 0 ==> !is_white_space(inner@.first()) && !is_white_space(inner@.last()),
;

/// The first line of a text ends where its first line feed stands.
pub proof fn lemma_first_line_len(text: Seq<char>, n: int)
    requires
        0 <= n <= text.len(),
        forall|i: int| 0 <= i < n ==> text[i] != LINE_FEED,
        n < text.len() ==> text[n] == LINE_FEED,
    ensures
        first_line_len(text) == n,
    decreases n,
{
    if n > 0 {
        let rest = text.drop_first();
        assert forall|i: int| 0 <= i < n - 1 implies rest[i] != LINE_FEED by {
            assert(rest[i] == text[i + 1]);
        }
        lemma_first_line_len(rest, n - 1);
    }
}

/// A blank text has nothing left once it is trimmed.
pub proof fn lemma_blank_trims_to_nothing(s: Seq<char>)
    requires
        is_blank(s),
    ensures
        trimmed(s).len() == 0,
    decreases s.len(),
{
    if s.len() > 0 {
        let rest = s.drop_first();
        assert(is_white_space(s[0]));
        assert forall|i: int| 0 <= i < rest.len() implies is_white_space(#[trigger] rest[i]) by {
            assert(rest[i] == s[i + 1]);
        }
        lemma_blank_trims_to_nothing(rest);
    }
}

/// Lines of which none is empty join to an empty text only if there is none.
pub proof fn lemma_joined_len(lines: Seq<Seq<char>>)
    requires
        forall|i: int| 0 <= i < lines.len() ==> (#[trigger] lines[i]).len() > 0,
    ensures
        joined(lines).len() == 0 <==> lines.len() == 0,
{
}

/// The lines of `content`, as `lines_of` defines them.
pub fn split_lines(content: &str) -> (lines: Vec<String>)
    ensures
        texts(lines@) == lines_of(content@),
{
    let mut lines: Vec<String> = Vec::new();
    let mut current = String::new();
    let mut ends_in_cr = false;
    let ghost mut start: int = 0;
    proof {
        assert(content@.skip(0) =~= content@);
        assert(texts(lines@) + lines_of(content@) =~= lines_of(content@));
    }
    for c in it: content.chars()
        invariant
            it.seq() == content@,
            0 <= start <= it.index(),
            current@ == content@.subrange(start, it.index() as int),
            forall|i: int| start <= i < it.index() ==> content@[i] != LINE_FEED,
            ends_in_cr == (current@.len() > 0 && current@.last() == CARRIAGE_RETURN),
            lines_of(content@) == texts(lines@) + lines_of(content@.skip(start)),
    {
        let ghost at: int = it.index() as int;
        let ghost rest = content@.skip(start);
        if c == LINE_FEED {
            if ends_in_cr {
                let _ = current.pop();
            }
            proof {
                assert forall|i: int| 0 <= i < at - start implies rest[i] != LINE_FEED by {
                    assert(rest[i] == content@[start + i]);
                }
                lemma_first_line_len(rest, at - start);
                assert(rest.take(at - start) =~= content@.subrange(start, at));
                assert(rest.skip(at - start + 1) =~= content@.skip(at + 1));
                assert(texts(lines@.push(current)) =~= texts(lines@) + seq![current@]);
            }
            lines.push(current);
            current = String::new();
            ends_in_cr = false;
            proof {
                start = at + 1;
                assert(current@ =~= content@.subrange(start, at + 1));
            }
        } else {
            current.push(c);
            ends_in_cr = c == CARRIAGE_RETURN;
            proof {
                assert(current@ =~= content@.subrange(start, at + 1));
            }
        }
    }
    proof {
        let end = content@.len() as int;
        let rest = content@.skip(start);
        assert(rest =~= current@);
        assert forall|i: int| 0 <= i < rest.len() implies rest[i] != LINE_FEED by {
            assert(rest[i] == content@[start + i]);
        }
        lemma_first_line_len(rest, rest.len() as int);
        assert(texts(lines@.push(current)) =~= texts(lines@) + seq![current@]);
        assert(texts(lines@) + Seq::<Seq<char>>::empty() =~= texts(lines@));
    }
    if !current.as_str().is_empty() {
        lines.push(current);
    }
    lines
}

} // verus!
