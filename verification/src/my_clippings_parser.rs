//! The parser: from the text of a clippings file to the notes it holds.
//!
//! The text is cut into lines, the lines into blocks at each separator line,
//! and each block gives one note or none. What the parser returns is stated by
//! the spec functions of this module, over texts as sequences of characters.
use crate::app_config::AppConfig;
use crate::app_config::Markers;
use crate::markers::marker_lines;
use crate::markers::matched_texts;
use crate::markers::starts_with_marker;
use crate::markers::useless_regex_set;
use crate::markers::MarkerError;
use crate::note_texts;
use crate::text::is_blank;
use crate::text::is_white_space;
use crate::text::joined;
use crate::text::lemma_blank_trims_to_nothing;
use crate::text::lemma_joined_len;
use crate::text::lines_of;
use crate::text::split_lines;
use crate::text::texts;
use crate::text::trimmed;
use crate::text::without_bom;
use crate::text::BYTE_ORDER_MARK;
use crate::text::CARRIAGE_RETURN;
use crate::text::LINE_FEED;
use crate::Note;
use crate::NoteText;
use regex::RegexSet;
use vstd::prelude::*;
use vstd::slice::slice_subrange;

verus! {

/// The number of equals signs with which a separator line starts.
pub const SEPARATOR_LEN: usize = 10;

/// Whether `line` separates two blocks: ten equals signs, and after them
/// nothing but what is left of a line ending.
pub open spec fn is_separator(line: Seq<char>) -> bool {
    &&& line.len() >= SEPARATOR_LEN
    &&& forall|i: int| 0 <= i < SEPARATOR_LEN ==> line[i] == '='
    &&& forall|i: int|
        SEPARATOR_LEN <= i < line.len() ==> line[i] == CARRIAGE_RETURN || line[i] == LINE_FEED
}

/// Whether `line` carries no content: it is empty, or it is one of `noise`, the
/// lines that only say where an entry was taken.
pub open spec fn is_useless(line: Seq<char>, noise: Set<Seq<char>>) -> bool {
    line.len() == 0 || noise.contains(line)
}

/// The test that `kept_lines` filters by.
pub open spec fn carries_content(noise: Set<Seq<char>>) -> spec_fn(Seq<char>) -> bool {
    |line: Seq<char>| !is_useless(line, noise)
}

/// Those of `lines` that carry content, in the same order.
pub open spec fn kept_lines(lines: Seq<Seq<char>>, noise: Set<Seq<char>>) -> Seq<Seq<char>> {
    lines.filter(carries_content(noise))
}

/// The title that the first line of a block gives: the line without a
/// byte-order mark in front of it and without white space at its ends.
pub open spec fn title_of(line: Seq<char>) -> Seq<char> {
    trimmed(without_bom(line))
}

/// The text of the note that a block gives: its lines after the first, without
/// those that carry no content, joined by line feeds.
pub open spec fn body_of(block: Seq<Seq<char>>, noise: Set<Seq<char>>) -> Seq<char> {
    joined(kept_lines(block.skip(1), noise))
}

/// The note that `block` gives: none where the block has no line, no title or
/// no text.
pub open spec fn note_of(block: Seq<Seq<char>>, noise: Set<Seq<char>>) -> Option<NoteText> {
    if block.len() == 0 || title_of(block[0]).len() == 0 || body_of(block, noise).len() == 0 {
        None
    } else {
        Some(NoteText { title: title_of(block[0]), body: body_of(block, noise) })
    }
}

/// The number of `lines` that stand before the first separator line: the
/// number of all of them where there is none.
pub open spec fn first_block_len(lines: Seq<Seq<char>>) -> nat
    decreases lines.len(),
{
    if lines.len() == 0 || is_separator(lines.first()) {
        0
    } else {
        1 + first_block_len(lines.drop_first())
    }
}

/// The blocks of `lines`: the runs of lines between separator lines, without
/// the empty runs.
pub open spec fn blocks_of(lines: Seq<Seq<char>>) -> Seq<Seq<Seq<char>>>
    decreases lines.len(),
{
    if lines.len() == 0 {
        Seq::empty()
    } else {
        let n = first_block_len(lines) as int;
        let later = if n < lines.len() {
            blocks_of(lines.skip(n + 1))
        } else {
            Seq::empty()
        };
        if n == 0 {
            later
        } else {
            seq![lines.take(n)] + later
        }
    }
}

/// The note of a block as a sequence: of one note, or of none.
pub open spec fn notes_of_block(block: Seq<Seq<char>>, noise: Set<Seq<char>>) -> Seq<NoteText> {
    match note_of(block, noise) {
        Some(note) => seq![note],
        None => Seq::empty(),
    }
}

/// The notes that `blocks` give, in the order of the blocks.
pub open spec fn notes_of(blocks: Seq<Seq<Seq<char>>>, noise: Set<Seq<char>>) -> Seq<NoteText>
    decreases blocks.len(),
{
    if blocks.len() == 0 {
        Seq::empty()
    } else {
        notes_of_block(blocks.first(), noise) + notes_of(blocks.drop_first(), noise)
    }
}

/// The notes that the text of a clippings file holds.
pub open spec fn notes_in(content: Seq<char>, noise: Set<Seq<char>>) -> Seq<NoteText> {
    notes_of(blocks_of(lines_of(content)), noise)
}

/// What an optional note says.
pub open spec fn optional_text(note: Option<Note>) -> Option<NoteText> {
    match note {
        Some(note) => Some(note@),
        None => None,
    }
}

/// Whether one of the lines of `block` after its first carries content.
pub open spec fn has_content(block: Seq<Seq<char>>, noise: Set<Seq<char>>) -> bool {
    exists|i: int| 1 <= i < block.len() && !is_useless(#[trigger] block[i], noise)
}

/// The first block of some lines ends where their first separator line stands.
pub proof fn lemma_first_block_len(lines: Seq<Seq<char>>, n: int)
    requires
        0 <= n <= lines.len(),
        forall|i: int| 0 <= i < n ==> !is_separator(#[trigger] lines[i]),
        n < lines.len() ==> is_separator(lines[n]),
    ensures
        first_block_len(lines) == n,
    decreases n,
{
    if n > 0 {
        let rest = lines.drop_first();
        assert(!is_separator(lines[0]));
        assert forall|i: int| 0 <= i < n - 1 implies !is_separator(#[trigger] rest[i]) by {
            assert(rest[i] == lines[i + 1]);
        }
        lemma_first_block_len(rest, n - 1);
    }
}

/// The first block holds no separator line, and a separator line follows it
/// unless the lines end with it.
pub proof fn lemma_first_block(lines: Seq<Seq<char>>)
    ensures
        first_block_len(lines) <= lines.len(),
        forall|i: int| 0 <= i < first_block_len(lines) ==> !is_separator(#[trigger] lines[i]),
        first_block_len(lines) < lines.len() ==> is_separator(lines[first_block_len(lines) as int]),
    decreases lines.len(),
{
    if lines.len() > 0 && !is_separator(lines.first()) {
        let rest = lines.drop_first();
        lemma_first_block(rest);
        assert forall|i: int| 0 <= i < first_block_len(lines) implies !is_separator(
            #[trigger] lines[i],
        ) by {
            if i > 0 {
                assert(lines[i] == rest[i - 1]);
            }
        }
        if first_block_len(lines) < lines.len() {
            assert(lines[first_block_len(lines) as int] == rest[first_block_len(rest) as int]);
        }
    }
}

/// No block is empty, and no block holds a separator line: the lines are cut
/// at the separator lines and nowhere else.
pub proof fn lemma_blocks_are_whole(lines: Seq<Seq<char>>)
    ensures
        forall|i: int|
            0 <= i < blocks_of(lines).len() ==> {
                let block = #[trigger] blocks_of(lines)[i];
                &&& block.len() > 0
                &&& forall|k: int| 0 <= k < block.len() ==> !is_separator(#[trigger] block[k])
            },
    decreases lines.len(),
{
    if lines.len() > 0 {
        let n = first_block_len(lines) as int;
        lemma_first_block(lines);
        let later = if n < lines.len() {
            blocks_of(lines.skip(n + 1))
        } else {
            Seq::empty()
        };
        if n < lines.len() {
            lemma_blocks_are_whole(lines.skip(n + 1));
        }
        assert forall|i: int| 0 <= i < blocks_of(lines).len() implies {
            let block = #[trigger] blocks_of(lines)[i];
            &&& block.len() > 0
            &&& forall|k: int| 0 <= k < block.len() ==> !is_separator(#[trigger] block[k])
        } by {
            if n > 0 && i > 0 {
                assert(blocks_of(lines)[i] == later[i - 1]);
            }
        }
    }
}

/// The kept lines of some lines and one more.
pub proof fn lemma_kept_lines_push(lines: Seq<Seq<char>>, line: Seq<char>, noise: Set<Seq<char>>)
    ensures
        kept_lines(lines.push(line), noise) == if is_useless(line, noise) {
            kept_lines(lines, noise)
        } else {
            kept_lines(lines, noise).push(line)
        },
{
    reveal(Seq::filter);
    assert(lines.push(line).drop_last() =~= lines);
}

/// Every kept line carries content, and one is kept where one of the lines
/// carries content, and only there.
pub proof fn lemma_kept_lines(lines: Seq<Seq<char>>, noise: Set<Seq<char>>)
    ensures
        forall|i: int|
            0 <= i < kept_lines(lines, noise).len() ==> !is_useless(
                #[trigger] kept_lines(lines, noise)[i],
                noise,
            ),
        (exists|i: int| 0 <= i < lines.len() && !is_useless(#[trigger] lines[i], noise))
            <==> kept_lines(lines, noise).len() > 0,
    decreases lines.len(),
{
    reveal(Seq::filter);
    if lines.len() > 0 {
        let before = lines.drop_last();
        lemma_kept_lines(before, noise);
        if kept_lines(before, noise).len() > 0 {
            let i = choose|i: int| 0 <= i < before.len() && !is_useless(#[trigger] before[i], noise);
            assert(lines[i] == before[i]);
        }
        if kept_lines(lines, noise).len() > 0 && is_useless(lines.last(), noise) {
            let i = choose|i: int| 0 <= i < before.len() && !is_useless(#[trigger] before[i], noise);
            assert(lines[i] == before[i]);
        }
        if exists|i: int| 0 <= i < lines.len() && !is_useless(#[trigger] lines[i], noise) {
            let i = choose|i: int| 0 <= i < lines.len() && !is_useless(#[trigger] lines[i], noise);
            if i < before.len() {
                assert(before[i] == lines[i]);
            }
        }
    }
}

/// A block with a title and with one line of content gives a note: the title
/// is that of its first line, and the text holds the lines that carry content,
/// in their order, with one line feed between each two.
pub proof fn lemma_block_with_content_gives_note(block: Seq<Seq<char>>, noise: Set<Seq<char>>)
    requires
        block.len() > 0,
        title_of(block[0]).len() > 0,
        has_content(block, noise),
    ensures
        note_of(block, noise) == Some(
            NoteText {
                title: title_of(block[0]),
                body: joined(kept_lines(block.skip(1), noise)),
            },
        ),
{
    let rest = block.skip(1);
    let i = choose|i: int| 1 <= i < block.len() && !is_useless(#[trigger] block[i], noise);
    assert(rest[i - 1] == block[i]);
    lemma_kept_lines(rest, noise);
    lemma_joined_len(kept_lines(rest, noise));
}

/// A block in which no line after the first carries content gives no note.
pub proof fn lemma_block_without_content_gives_none(block: Seq<Seq<char>>, noise: Set<Seq<char>>)
    requires
        !has_content(block, noise),
    ensures
        note_of(block, noise) is None,
{
    if block.len() > 0 {
        let rest = block.skip(1);
        lemma_kept_lines(rest, noise);
        if kept_lines(rest, noise).len() > 0 {
            let i = choose|i: int| 0 <= i < rest.len() && !is_useless(#[trigger] rest[i], noise);
            assert(block[i + 1] == rest[i]);
        }
    }
}

/// A block whose first line is empty or holds only white space gives no note.
pub proof fn lemma_block_without_title_gives_none(block: Seq<Seq<char>>, noise: Set<Seq<char>>)
    requires
        block.len() > 0,
        is_blank(block[0]),
    ensures
        note_of(block, noise) is None,
{
    let line = block[0];
    let rest = without_bom(line);
    assert forall|i: int| 0 <= i < rest.len() implies is_white_space(#[trigger] rest[i]) by {
        if rest.len() < line.len() {
            assert(rest[i] == line[i + 1]);
        }
    }
    lemma_blank_trims_to_nothing(rest);
}

/// Every note that blocks give has a title and a text.
pub proof fn lemma_notes_are_complete(blocks: Seq<Seq<Seq<char>>>, noise: Set<Seq<char>>)
    ensures
        forall|i: int|
            0 <= i < notes_of(blocks, noise).len() ==> {
                let note = #[trigger] notes_of(blocks, noise)[i];
                note.title.len() > 0 && note.body.len() > 0
            },
    decreases blocks.len(),
{
    if blocks.len() > 0 {
        let first = notes_of_block(blocks.first(), noise);
        let later = notes_of(blocks.drop_first(), noise);
        lemma_notes_are_complete(blocks.drop_first(), noise);
        assert forall|i: int| 0 <= i < notes_of(blocks, noise).len() implies {
            let note = #[trigger] notes_of(blocks, noise)[i];
            note.title.len() > 0 && note.body.len() > 0
        } by {
            if i >= first.len() {
                assert(notes_of(blocks, noise)[i] == later[i - first.len()]);
            }
        }
    }
}

/// An empty line carries no content, whatever the prefixes are.
pub proof fn lemma_empty_line_is_useless(noise: Set<Seq<char>>)
    ensures
        is_useless(Seq::<char>::empty(), noise),
{
}

/// A line that is one of the prefixes with anything behind it carries no
/// content.
pub proof fn lemma_marked_line_is_useless(
    markers: Markers,
    prefix: Seq<char>,
    trailing: Seq<char>,
)
    requires
        prefix == markers.bookmark || prefix == markers.highlight || prefix == markers.note,
    ensures
        is_useless(prefix + trailing, marker_lines(markers)),
{
    let line = prefix + trailing;
    assert(prefix.is_prefix_of(line)) by {
        assert(line.subrange(0, prefix.len() as int) =~= prefix);
    }
    assert(starts_with_marker(line, markers));
}

/// A line that is not empty and starts with none of the prefixes carries
/// content.
pub proof fn lemma_unmarked_line_carries_content(markers: Markers, line: Seq<char>)
    requires
        line.len() > 0,
        !starts_with_marker(line, markers),
    ensures
        !is_useless(line, marker_lines(markers)),
{
}

/// Two runs of the parser over one text with one set of prefixes give the same
/// notes in the same order.
pub proof fn lemma_parse_is_repeatable(
    content: Seq<char>,
    markers: Markers,
    first: Seq<Note>,
    second: Seq<Note>,
)
    requires
        note_texts(first) == notes_in(content, marker_lines(markers)),
        note_texts(second) == notes_in(content, marker_lines(markers)),
    ensures
        note_texts(first) == note_texts(second),
        first.len() == second.len(),
        forall|i: int| 0 <= i < first.len() ==> (#[trigger] first[i])@ == second[i]@,
{
    assert(note_texts(first).len() == first.len());
    assert(note_texts(second).len() == second.len());
    assert forall|i: int| 0 <= i < first.len() implies (#[trigger] first[i])@ == second[i]@ by {
        assert(note_texts(first)[i] == first[i]@);
        assert(note_texts(second)[i] == second[i]@);
    }
}

/// Whether `line` is a separator line.
pub fn is_separator_line(line: &str) -> (yes: bool)
    ensures
        yes == is_separator(line@),
{
    let mut seen: usize = 0;
    let mut fits = true;
    for c in it: line.chars()
        invariant
            it.seq() == line@,
            seen <= SEPARATOR_LEN,
            seen == if it.index() < SEPARATOR_LEN {
                it.index() as int
            } else {
                SEPARATOR_LEN as int
            },
            fits == forall|i: int|
                0 <= i < it.index() ==> if i < SEPARATOR_LEN {
                    line@[i] == '='
                } else {
                    line@[i] == CARRIAGE_RETURN || line@[i] == LINE_FEED
                },
    {
        if seen < SEPARATOR_LEN {
            if c != '=' {
                fits = false;
            }
            seen = seen + 1;
        } else if c != CARRIAGE_RETURN && c != LINE_FEED {
            fits = false;
        }
    }
    fits && seen == SEPARATOR_LEN
}

/// Whether `line` carries no content: it is empty, or `useless_regex_set` finds
/// a match in it.
pub fn is_empty_or_useless_line(line: &str, useless_regex_set: &RegexSet) -> (useless: bool)
    ensures
        useless == is_useless(line@, matched_texts(*useless_regex_set)),
        line@.len() == 0 ==> useless,
{
    if line.is_empty() {
        return true;
    }
    useless_regex_set.is_match(line)
}

fn strip_bom(line: &str) -> (rest: &str)
    ensures
        rest@ == without_bom(line@),
{
    let len = line.unicode_len();
    if len > 0 && line.get_char(0) == BYTE_ORDER_MARK {
        let rest = line.substring_char(1, len);
        assert(rest@ =~= line@.drop_first());
        rest
    } else {
        line
    }
}

/// The note that the lines of one block give, if they give one.
///
/// The first line is the title, once a byte-order mark in front of it and the
/// white space at its ends are removed. The lines after it that carry content
/// are the text, with one line feed between each two. A block without a title
/// or without a text gives no note.
pub fn parse_note(lines: &[String], useless_regex_set: &RegexSet) -> (note: Option<Note>)
    ensures
        optional_text(note) == note_of(texts(lines@), matched_texts(*useless_regex_set)),
        note matches Some(n) ==> n.wf(),
        lines@.len() > 0 && title_of(lines@[0]@).len() > 0 && has_content(
            texts(lines@),
            matched_texts(*useless_regex_set),
        ) ==> optional_text(note) == Some(
            (NoteText {
                title: title_of(lines@[0]@),
                body: joined(
                    kept_lines(texts(lines@).skip(1), matched_texts(*useless_regex_set)),
                ),
            }),
        ),
        !has_content(texts(lines@), matched_texts(*useless_regex_set)) ==> note is None,
        lines@.len() > 0 && is_blank(lines@[0]@) ==> note is None,
{
    let ghost block = texts(lines@);
    let ghost noise = matched_texts(*useless_regex_set);
    proof {
        if block.len() > 0 && title_of(block[0]).len() > 0 && has_content(block, noise) {
            lemma_block_with_content_gives_note(block, noise);
        }
        if !has_content(block, noise) {
            lemma_block_without_content_gives_none(block, noise);
        }
        if block.len() > 0 && is_blank(block[0]) {
            lemma_block_without_title_gives_none(block, noise);
        }
    }
    if lines.len() == 0 {
        return None;
    }
    let title = strip_bom(lines[0].as_str()).trim();
    if title.is_empty() {
        return None;
    }
    let mut tidied_note = String::new();
    let mut is_first_line = true;
    let mut i: usize = 1;
    proof {
        assert(block.subrange(1, 1) =~= Seq::<Seq<char>>::empty());
        reveal(Seq::filter);
    }
    while i < lines.len()
        invariant
            1 <= i <= lines.len(),
            block == texts(lines@),
            noise == matched_texts(*useless_regex_set),
            tidied_note@ == joined(kept_lines(block.subrange(1, i as int), noise)),
            is_first_line == (kept_lines(block.subrange(1, i as int), noise).len() == 0),
        decreases lines.len() - i,
    {
        let line = lines[i].as_str();
        proof {
            lemma_kept_lines_push(block.subrange(1, i as int), line@, noise);
            assert(block.subrange(1, i as int).push(line@) =~= block.subrange(1, i + 1));
        }
        if !is_empty_or_useless_line(line, useless_regex_set) {
            let ghost kept = kept_lines(block.subrange(1, i as int), noise);
            if !is_first_line {
                tidied_note.push(LINE_FEED);
            }
            tidied_note.append(line);
            is_first_line = false;
            proof {
                assert(kept.push(line@).drop_last() =~= kept);
                assert(tidied_note@ =~= joined(kept.push(line@)));
            }
        }
        i = i + 1;
    }
    proof {
        assert(block.subrange(1, lines.len() as int) =~= block.skip(1));
    }
    if tidied_note.as_str().is_empty() {
        None
    } else {
        Some(Note { title: title.to_owned(), tidied_note })
    }
}

/// The notes that `lines` hold: the lines are cut into blocks at each
/// separator line, and each block gives its note, if it gives one.
pub fn parse_lines(lines: &[String], useless_regex_set: &RegexSet) -> (notes: Vec<Note>)
    ensures
        note_texts(notes@) == notes_of(
            blocks_of(texts(lines@)),
            matched_texts(*useless_regex_set),
        ),
        forall|i: int| 0 <= i < notes@.len() ==> (#[trigger] notes@[i]).wf(),
{
    let ghost all = texts(lines@);
    let ghost noise = matched_texts(*useless_regex_set);
    let mut notes: Vec<Note> = Vec::new();
    let mut start: usize = 0;
    let mut i: usize = 0;
    proof {
        assert(all.skip(0) =~= all);
        assert(note_texts(notes@) + notes_of(blocks_of(all), noise) =~= notes_of(
            blocks_of(all),
            noise,
        ));
    }
    while i < lines.len()
        invariant
            start <= i <= lines.len(),
            all == texts(lines@),
            noise == matched_texts(*useless_regex_set),
            forall|k: int| start <= k < i ==> !is_separator(#[trigger] all[k]),
            notes_of(blocks_of(all), noise) == note_texts(notes@) + notes_of(
                blocks_of(all.skip(start as int)),
                noise,
            ),
            forall|k: int| 0 <= k < notes@.len() ==> (#[trigger] notes@[k]).wf(),
        decreases lines.len() - i,
    {
        if is_separator_line(lines[i].as_str()) {
            let ghost rest = all.skip(start as int);
            let ghost block = all.subrange(start as int, i as int);
            let ghost before = note_texts(notes@);
            proof {
                assert forall|k: int| 0 <= k < i - start implies !is_separator(
                    #[trigger] rest[k],
                ) by {
                    assert(rest[k] == all[start + k]);
                }
                assert(rest[i - start] == all[i as int]);
                lemma_first_block_len(rest, i - start);
                assert(rest.take(i - start) =~= block);
                assert(rest.skip(i - start + 1) =~= all.skip(i + 1));
                let later = blocks_of(all.skip(i + 1));
                if start < i {
                    assert((seq![block] + later).drop_first() =~= later);
                    assert(notes_of(blocks_of(rest), noise) == notes_of_block(block, noise)
                        + notes_of(later, noise));
                } else {
                    assert(notes_of(blocks_of(rest), noise) == notes_of(later, noise));
                }
            }
            if start < i {
                let piece = slice_subrange(lines, start, i);
                proof {
                    assert(texts(piece@) =~= block);
                }
                if let Some(note) = parse_note(piece, useless_regex_set) {
                    proof {
                        assert(note_texts(notes@.push(note)) =~= before + seq![note@]);
                    }
                    notes.push(note);
                }
            }
            proof {
                assert(note_texts(notes@) =~= before + (if start < i {
                    notes_of_block(block, noise)
                } else {
                    Seq::empty()
                }));
                assert(before + notes_of_block(block, noise) + notes_of(
                    blocks_of(all.skip(i + 1)),
                    noise,
                ) =~= before + (notes_of_block(block, noise) + notes_of(
                    blocks_of(all.skip(i + 1)),
                    noise,
                )));
            }
            start = i + 1;
        }
        i = i + 1;
    }
    let ghost rest = all.skip(start as int);
    let ghost before = note_texts(notes@);
    proof {
        assert forall|k: int| 0 <= k < rest.len() implies !is_separator(#[trigger] rest[k]) by {
            assert(rest[k] == all[start + k]);
        }
        lemma_first_block_len(rest, rest.len() as int);
        if start < i {
            let blocks = blocks_of(rest);
            assert(rest.take(rest.len() as int) =~= rest);
            assert(blocks =~= seq![rest]);
            assert(blocks.first() == rest);
            assert(blocks.drop_first() =~= Seq::<Seq<Seq<char>>>::empty());
            assert(notes_of(Seq::<Seq<Seq<char>>>::empty(), noise) =~= Seq::<NoteText>::empty());
            assert(notes_of(blocks, noise) =~= notes_of_block(rest, noise));
        } else {
            assert(notes_of(blocks_of(rest), noise) =~= Seq::<NoteText>::empty());
        }
    }
    if start < i {
        let piece = slice_subrange(lines, start, i);
        proof {
            assert(texts(piece@) =~= rest);
        }
        if let Some(note) = parse_note(piece, useless_regex_set) {
            proof {
                assert(note_texts(notes@.push(note)) =~= before + seq![note@]);
            }
            notes.push(note);
        }
    }
    proof {
        assert(note_texts(notes@) =~= before + notes_of(blocks_of(rest), noise));
    }
    notes
}

/// The notes that the text of a clippings file holds, where
/// `useless_regex_set` finds the lines that carry no content.
pub fn parse_text(content: &str, useless_regex_set: &RegexSet) -> (notes: Vec<Note>)
    ensures
        note_texts(notes@) == notes_in(content@, matched_texts(*useless_regex_set)),
        forall|i: int| 0 <= i < notes@.len() ==> (#[trigger] notes@[i]).wf(),
{
    let lines = split_lines(content);
    parse_lines(lines.as_slice(), useless_regex_set)
}

/// The notes that the text of a clippings file holds, once it is known
/// whether the set for the prefixes was built: with the set, the notes that
/// `parse_text` finds with it; without it, the error with which it was not
/// built.
pub fn parse_with(content: &str, built: Result<RegexSet, MarkerError>) -> (parsed: Result<
    Vec<Note>,
    MarkerError,
>)
    ensures
        match built {
            Ok(set) => {
                &&& parsed matches Ok(notes)
                &&& note_texts(parsed->Ok_0@) == notes_in(content@, matched_texts(set))
                &&& forall|i: int|
                    0 <= i < parsed->Ok_0@.len() ==> (#[trigger] parsed->Ok_0@[i]).wf()
            },
            Err(error) => parsed == Err::<Vec<Note>, MarkerError>(error),
        },
{
    match built {
        Ok(set) => Ok(parse_text(content, &set)),
        Err(error) => Err(error),
    }
}

/// The notes that the text of a clippings file holds, in the order of the
/// file, where the lines that start with a prefix of `config` carry no content.
///
/// The set for the prefixes is built by `useless_regex_set`, and `parse_with`
/// says what is returned for each of its answers: it fails only where the
/// prefixes cannot be compiled into a set of regular expressions.
pub fn parse_clippings(content: &str, config: &AppConfig) -> (parsed: Result<
    Vec<Note>,
    MarkerError,
>)
    ensures
        parsed matches Ok(notes) ==> {
            &&& note_texts(notes@) == notes_in(content@, marker_lines(config.parser@))
            &&& forall|i: int| 0 <= i < notes@.len() ==> (#[trigger] notes@[i]).wf()
        },
{
    parse_with(content, useless_regex_set(config))
}

} // verus!
