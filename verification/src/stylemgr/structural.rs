//! A paragraph as a sequence of styled runs, and the restyling of a piece of
//! its text.

use super::style::{Style, StyleView, UnderlineStyle};
use super::text::{RunDescriptor, StyledText, StyledTextView};
use crate::chars::{find_chunk, first_match, is_first_match, occurs_at, to_chars};
use crate::chars::{lemma_first_match_is, lemma_first_match_spec, lemma_leftmost_exists};
use vstd::prelude::*;
use vstd::string::*;

verus! {

broadcast use vstd::string::group_string_axioms;

/// One change to a style.
#[derive(Debug, PartialEq)]
pub enum ApplicableStyles {
    /// Toggle bold.
    Bold,
    /// Toggle italic.
    Italic,
    /// Set the underline, or remove it with `None`.
    Underline(Option<UnderlineStyle>),
    /// Set the point size.
    Size(u8),
    /// Set the font family.
    Font(String),
    /// Set the font color, a hexadecimal color.
    Color(String),
    /// Set the highlight color, a hexadecimal color, or remove it with `None`.
    Highlight(Option<String>),
}

impl Clone for ApplicableStyles {
    fn clone(&self) -> (res: Self)
        ensures
            res == *self,
    {
        match self {
            ApplicableStyles::Bold => ApplicableStyles::Bold,
            ApplicableStyles::Italic => ApplicableStyles::Italic,
            ApplicableStyles::Underline(u) => ApplicableStyles::Underline(*u),
            ApplicableStyles::Size(n) => ApplicableStyles::Size(*n),
            ApplicableStyles::Font(name) => ApplicableStyles::Font(name.clone()),
            ApplicableStyles::Color(c) => ApplicableStyles::Color(c.clone()),
            ApplicableStyles::Highlight(c) => ApplicableStyles::Highlight(c.clone()),
        }
    }
}

/// Why a paragraph could not be restyled.
#[derive(Debug, PartialEq)]
pub enum ParagraphModifyError {
    /// The chunk does not occur where it was looked for.
    ChunkNotFound(String),
    /// The chunk is empty.
    EmptyChunk,
}

impl ParagraphModifyError {
    /// The error as a message; a chunk that was not found is named.
    pub fn to_string(&self) -> (s: String)
        ensures
            match self {
                ParagraphModifyError::ChunkNotFound(chunk) => s@
                    == "Chunk to modify not found in paragraph: '"@ + chunk@ + "'"@,
                ParagraphModifyError::EmptyChunk => s@
                    == "Cannot modify paragraph with an empty chunk"@,
            },
    {
        match self {
            ParagraphModifyError::ChunkNotFound(chunk) => {
                let mut s = String::from_str("Chunk to modify not found in paragraph: '");
                s.append(chunk.as_str());
                s.append("'");
                s
            },
            ParagraphModifyError::EmptyChunk => String::from_str(
                "Cannot modify paragraph with an empty chunk",
            ),
        }
    }
}

/// The texts of the runs, one after the other.
pub open spec fn full_text(runs: Seq<StyledTextView>) -> Seq<char>
    decreases runs.len(),
{
    if runs.len() == 0 {
        Seq::empty()
    } else {
        full_text(runs.drop_last()) + runs.last().text
    }
}

/// The tagged renderings of the runs, one after the other.
pub open spec fn tagged_text(runs: Seq<StyledTextView>) -> Seq<char>
    decreases runs.len(),
{
    if runs.len() == 0 {
        Seq::empty()
    } else {
        tagged_text(runs.drop_last()) + runs.last().tagged()
    }
}

/// No run is empty.
pub open spec fn no_empty_run(runs: Seq<StyledTextView>) -> bool {
    forall|k: int| 0 <= k < runs.len() ==> (#[trigger] runs[k]).text.len() > 0
}

/// The number of characters that stand before run `k`.
pub open spec fn offset_of_run(runs: Seq<StyledTextView>, k: int) -> int {
    full_text(runs.take(k)).len() as int
}

/// Run `k` holds the character that is number `pos` of the whole text.
pub open spec fn holds_char(runs: Seq<StyledTextView>, k: int, pos: int) -> bool {
    &&& 0 <= k < runs.len()
    &&& offset_of_run(runs, k) <= pos < offset_of_run(runs, k + 1)
}

/// The run that holds character number `pos` of the whole text.
pub open spec fn run_of_char(runs: Seq<StyledTextView>, pos: int) -> int {
    choose|k: int| holds_char(runs, k, pos)
}

/// `text` in `style` as a run, or no run at all where `text` is empty.
pub open spec fn piece(text: Seq<char>, style: StyleView) -> Seq<StyledTextView> {
    if text.len() == 0 {
        Seq::empty()
    } else {
        seq![StyledTextView { text, style }]
    }
}

/// The runs after the stretch from character `from` of run `first` up to, not
/// including, character `to` of run `last` has become one run of `chunk` in
/// `style`. What run `first` has before the stretch and what run `last` has
/// after it stay runs of their own, in their own styles, unless they are
/// empty; the runs between the two are gone.
pub open spec fn restyled(
    runs: Seq<StyledTextView>,
    first: int,
    from: int,
    last: int,
    to: int,
    style: StyleView,
    chunk: Seq<char>,
) -> Seq<StyledTextView> {
    runs.take(first) + piece(runs[first].text.take(from), runs[first].style)
        + seq![StyledTextView { text: chunk, style }] + piece(
        runs[last].text.skip(to),
        runs[last].style,
    ) + runs.skip(last + 1)
}

/// Run `k` is the first one in which `chunk` occurs.
pub open spec fn is_first_run_with(runs: Seq<StyledTextView>, chunk: Seq<char>, k: int) -> bool {
    &&& 0 <= k < runs.len()
    &&& first_match(runs[k].text, chunk) is Some
    &&& forall|j: int| 0 <= j < k ==> first_match((#[trigger] runs[j]).text, chunk) is None
}

/// The first run in which `chunk` occurs, if there is one.
pub open spec fn first_run_with(runs: Seq<StyledTextView>, chunk: Seq<char>) -> Option<int> {
    if exists|k: int| is_first_run_with(runs, chunk, k) {
        Some(choose|k: int| is_first_run_with(runs, chunk, k))
    } else {
        None
    }
}

/// What restyling a chunk comes to.
pub enum Restyling {
    /// The chunk was found: these are the runs now.
    Done(Seq<StyledTextView>),
    /// The chunk is empty: nothing is searched.
    EmptyChunk,
    /// The chunk does not occur.
    ChunkNotFound,
}

/// Restyling the first occurrence of `chunk` that lies within one run: the
/// first run that holds the chunk is searched from its left.
pub open spec fn modify_outcome(runs: Seq<StyledTextView>, style: StyleView, chunk: Seq<char>)
    -> Restyling {
    if chunk.len() == 0 {
        Restyling::EmptyChunk
    } else {
        match first_run_with(runs, chunk) {
            None => Restyling::ChunkNotFound,
            Some(k) => {
                let from = first_match(runs[k].text, chunk)->0;
                Restyling::Done(restyled(runs, k, from, k, from + chunk.len(), style, chunk))
            },
        }
    }
}

/// Restyling the first occurrence of `chunk` in the whole text of the
/// paragraph, through as many runs as it spans.
pub open spec fn spanning_outcome(runs: Seq<StyledTextView>, style: StyleView, chunk: Seq<char>)
    -> Restyling {
    if chunk.len() == 0 {
        Restyling::EmptyChunk
    } else {
        match first_match(full_text(runs), chunk) {
            None => Restyling::ChunkNotFound,
            Some(start) => {
                let end = start + chunk.len();
                let first = run_of_char(runs, start);
                let last = run_of_char(runs, end - 1);
                Restyling::Done(
                    restyled(
                        runs,
                        first,
                        start - offset_of_run(runs, first),
                        last,
                        end - offset_of_run(runs, last),
                        style,
                        chunk,
                    ),
                )
            },
        }
    }
}

/// The whole text of `a + b` is that of `a`, then that of `b`.
pub proof fn lemma_full_text_concat(a: Seq<StyledTextView>, b: Seq<StyledTextView>)
    ensures
        full_text(a + b) == full_text(a) + full_text(b),
    decreases b.len(),
{
    if b.len() == 0 {
        assert(a + b =~= a);
        assert(full_text(a) + full_text(b) =~= full_text(a));
    } else {
        lemma_full_text_concat(a, b.drop_last());
        assert((a + b).drop_last() =~= a + b.drop_last());
        assert((a + b).last() == b.last());
        assert(full_text(a + b) =~= full_text(a) + full_text(b));
    }
}

/// The whole text of one run is its text.
pub proof fn lemma_full_text_single(r: StyledTextView)
    ensures
        full_text(seq![r]) == r.text,
{
    assert(seq![r].drop_last() =~= Seq::<StyledTextView>::empty());
    assert(full_text(Seq::<StyledTextView>::empty()) =~= Seq::<char>::empty());
    assert(full_text(seq![r]) =~= r.text);
}

/// A piece holds its text, whether it is a run or nothing.
pub proof fn lemma_full_text_piece(text: Seq<char>, style: StyleView)
    ensures
        full_text(piece(text, style)) == text,
{
    if text.len() == 0 {
        assert(full_text(piece(text, style)) =~= text);
    } else {
        lemma_full_text_single(StyledTextView { text, style });
    }
}

/// Run `k` starts where run `k - 1` ends.
pub proof fn lemma_offset_step(runs: Seq<StyledTextView>, k: int)
    requires
        0 <= k < runs.len(),
    ensures
        offset_of_run(runs, 0) == 0,
        offset_of_run(runs, k + 1) == offset_of_run(runs, k) + runs[k].text.len(),
{
    assert(runs.take(k + 1).drop_last() =~= runs.take(k));
    assert(runs.take(k + 1).last() == runs[k]);
    assert(runs.take(0) =~= Seq::<StyledTextView>::empty());
}

/// Later runs start later.
pub proof fn lemma_offsets_monotone(runs: Seq<StyledTextView>, i: int, j: int)
    requires
        0 <= i <= j <= runs.len(),
    ensures
        offset_of_run(runs, i) <= offset_of_run(runs, j),
    decreases j - i,
{
    if i < j {
        lemma_offsets_monotone(runs, i, j - 1);
        lemma_offset_step(runs, j - 1);
    }
}

/// At most one run holds a given character.
pub proof fn lemma_run_of_char_is(runs: Seq<StyledTextView>, k: int, pos: int)
    requires
        holds_char(runs, k, pos),
    ensures
        run_of_char(runs, pos) == k,
{
    let c = run_of_char(runs, pos);
    assert(holds_char(runs, c, pos));
    if c < k {
        lemma_offsets_monotone(runs, c + 1, k);
    }
    if k < c {
        lemma_offsets_monotone(runs, k + 1, c);
    }
}

/// The whole text, cut where run `k` starts and where it ends: what stands
/// before the run, the run's own text, what stands after it.
pub proof fn lemma_text_around_run(runs: Seq<StyledTextView>, k: int)
    requires
        0 <= k < runs.len(),
    ensures
        offset_of_run(runs, k + 1) == offset_of_run(runs, k) + runs[k].text.len(),
        offset_of_run(runs, k + 1) <= full_text(runs).len(),
        full_text(runs.take(k)) == full_text(runs).take(offset_of_run(runs, k)),
        runs[k].text == full_text(runs).subrange(
            offset_of_run(runs, k),
            offset_of_run(runs, k + 1),
        ),
        full_text(runs.skip(k + 1)) == full_text(runs).skip(offset_of_run(runs, k + 1)),
{
    lemma_offset_step(runs, k);
    let before = runs.take(k);
    let after = runs.skip(k + 1);
    assert(runs =~= before + seq![runs[k]] + after);
    lemma_full_text_concat(before + seq![runs[k]], after);
    lemma_full_text_concat(before, seq![runs[k]]);
    lemma_full_text_single(runs[k]);
    let whole = full_text(runs);
    assert(whole == full_text(before) + runs[k].text + full_text(after));
    assert(full_text(before) =~= whole.take(offset_of_run(runs, k)));
    assert(runs[k].text =~= whole.subrange(offset_of_run(runs, k), offset_of_run(runs, k + 1)));
    assert(full_text(after) =~= whole.skip(offset_of_run(runs, k + 1)));
}

/// Every character of the text stands in some run.
pub proof fn lemma_char_has_run(runs: Seq<StyledTextView>, pos: int, k: int) -> (r: int)
    requires
        0 <= k <= runs.len(),
        offset_of_run(runs, k) <= pos < full_text(runs).len(),
    ensures
        k <= r,
        holds_char(runs, r, pos),
        run_of_char(runs, pos) == r,
    decreases runs.len() - k,
{
    assert(runs.take(runs.len() as int) =~= runs);
    lemma_offset_step(runs, k);
    if pos < offset_of_run(runs, k + 1) {
        lemma_run_of_char_is(runs, k, pos);
        k
    } else {
        lemma_char_has_run(runs, pos, k + 1)
    }
}

/// Restyling a stretch of the text changes no character of it.
pub proof fn lemma_restyled_keeps_text(
    runs: Seq<StyledTextView>,
    first: int,
    from: int,
    last: int,
    to: int,
    style: StyleView,
    chunk: Seq<char>,
)
    requires
        0 <= first <= last < runs.len(),
        0 <= from <= runs[first].text.len(),
        0 <= to <= runs[last].text.len(),
        offset_of_run(runs, first) + from <= offset_of_run(runs, last) + to,
        chunk == full_text(runs).subrange(
            offset_of_run(runs, first) + from,
            offset_of_run(runs, last) + to,
        ),
    ensures
        full_text(restyled(runs, first, from, last, to, style, chunk)) == full_text(runs),
{
    lemma_text_around_run(runs, first);
    lemma_text_around_run(runs, last);
    let head = piece(runs[first].text.take(from), runs[first].style);
    let middle = seq![StyledTextView { text: chunk, style }];
    let tail = piece(runs[last].text.skip(to), runs[last].style);
    lemma_full_text_piece(runs[first].text.take(from), runs[first].style);
    lemma_full_text_piece(runs[last].text.skip(to), runs[last].style);
    lemma_full_text_single(StyledTextView { text: chunk, style });
    lemma_full_text_concat(runs.take(first), head);
    lemma_full_text_concat(runs.take(first) + head, middle);
    lemma_full_text_concat(runs.take(first) + head + middle, tail);
    lemma_full_text_concat(runs.take(first) + head + middle + tail, runs.skip(last + 1));
    assert(full_text(restyled(runs, first, from, last, to, style, chunk)) =~= full_text(runs));
}

/// Restyling a non-empty chunk brings no empty run into a paragraph that had
/// none.
pub proof fn lemma_restyled_no_empty_run(
    runs: Seq<StyledTextView>,
    first: int,
    from: int,
    last: int,
    to: int,
    style: StyleView,
    chunk: Seq<char>,
)
    requires
        0 <= first <= last < runs.len(),
        chunk.len() > 0,
        no_empty_run(runs),
    ensures
        no_empty_run(restyled(runs, first, from, last, to, style, chunk)),
{
    let after = restyled(runs, first, from, last, to, style, chunk);
    let head = piece(runs[first].text.take(from), runs[first].style);
    let tail = piece(runs[last].text.skip(to), runs[last].style);
    assert forall|k: int| 0 <= k < after.len() implies (#[trigger] after[k]).text.len() > 0 by {
        if k < first {
            assert(after[k] == runs[k]);
        } else if k < first + head.len() {
            assert(after[k] == head[k - first]);
        } else if k == first + head.len() {
            assert(after[k].text == chunk);
        } else if k < first + head.len() + 1 + tail.len() {
            assert(after[k] == tail[k - first - head.len() - 1]);
        } else {
            assert(after[k] == runs[k - first - head.len() - 1 - tail.len() + last + 1]);
        }
    }
}

/// Where `modify` finds the chunk: the first run that holds it, and the
/// leftmost place in that run.
pub proof fn lemma_modify_place(runs: Seq<StyledTextView>, chunk: Seq<char>, k: int, from: int)
    requires
        is_first_run_with(runs, chunk, k),
        is_first_match(runs[k].text, chunk, from),
    ensures
        first_run_with(runs, chunk) == Some(k),
        first_match(runs[k].text, chunk) == Some(from),
{
    lemma_first_match_is(runs[k].text, chunk, from);
    let c = choose|c: int| is_first_run_with(runs, chunk, c);
    assert(is_first_run_with(runs, chunk, c));
    if c < k {
        assert(first_match(runs[c].text, chunk) is None);
    }
    if k < c {
        assert(first_match(runs[k].text, chunk) is None);
    }
}

/// Whatever `modify` does, the text of the paragraph stays as it is, and a
/// paragraph without empty runs stays one.
pub proof fn lemma_modify_keeps_text(runs: Seq<StyledTextView>, style: StyleView, chunk: Seq<char>)
    ensures
        modify_outcome(runs, style, chunk) matches Restyling::Done(after) ==> {
            &&& full_text(after) == full_text(runs)
            &&& no_empty_run(runs) ==> no_empty_run(after)
        },
{
    if chunk.len() > 0 && first_run_with(runs, chunk) is Some {
        let k = first_run_with(runs, chunk)->0;
        assert(is_first_run_with(runs, chunk, k));
        lemma_first_match_spec(runs[k].text, chunk);
        let from = first_match(runs[k].text, chunk)->0;
        let to = from + chunk.len();
        lemma_text_around_run(runs, k);
        assert(chunk =~= full_text(runs).subrange(
            offset_of_run(runs, k) + from,
            offset_of_run(runs, k) + to,
        ));
        lemma_restyled_keeps_text(runs, k, from, k, to, style, chunk);
        if no_empty_run(runs) {
            lemma_restyled_no_empty_run(runs, k, from, k, to, style, chunk);
        }
    }
}

/// Where `modify_spanning` finds the chunk: the run and the place in it where
/// the leftmost occurrence in the whole text starts, and those where it ends.
pub proof fn lemma_spanning_place(runs: Seq<StyledTextView>, chunk: Seq<char>, start: int)
    requires
        chunk.len() > 0,
        first_match(full_text(runs), chunk) == Some(start),
    ensures
        ({
            let end = start + chunk.len();
            let first = run_of_char(runs, start);
            let last = run_of_char(runs, end - 1);
            let from = start - offset_of_run(runs, first);
            let to = end - offset_of_run(runs, last);
            &&& holds_char(runs, first, start)
            &&& holds_char(runs, last, end - 1)
            &&& 0 <= first <= last < runs.len()
            &&& 0 <= from < runs[first].text.len()
            &&& 0 < to <= runs[last].text.len()
            &&& chunk == full_text(runs).subrange(start, end)
        }),
{
    lemma_first_match_spec(full_text(runs), chunk);
    let end = start + chunk.len();
    assert(runs.take(0) =~= Seq::<StyledTextView>::empty());
    let first = lemma_char_has_run(runs, start, 0);
    let last = lemma_char_has_run(runs, end - 1, 0);
    lemma_offset_step(runs, first);
    lemma_offset_step(runs, last);
    if last < first {
        lemma_offsets_monotone(runs, last + 1, first);
    }
}

/// Whatever `modify_spanning` does, the text of the paragraph stays as it is,
/// and a paragraph without empty runs stays one.
pub proof fn lemma_spanning_keeps_text(
    runs: Seq<StyledTextView>,
    style: StyleView,
    chunk: Seq<char>,
)
    ensures
        spanning_outcome(runs, style, chunk) matches Restyling::Done(after) ==> {
            &&& full_text(after) == full_text(runs)
            &&& no_empty_run(runs) ==> no_empty_run(after)
        },
{
    if chunk.len() > 0 && first_match(full_text(runs), chunk) is Some {
        let start = first_match(full_text(runs), chunk)->0;
        let end = start + chunk.len();
        lemma_spanning_place(runs, chunk, start);
        let first = run_of_char(runs, start);
        let last = run_of_char(runs, end - 1);
        let from = start - offset_of_run(runs, first);
        let to = end - offset_of_run(runs, last);
        lemma_restyled_keeps_text(runs, first, from, last, to, style, chunk);
        if no_empty_run(runs) {
            lemma_restyled_no_empty_run(runs, first, from, last, to, style, chunk);
        }
    }
}

/// Before any run that holds the chunk there is a first one.
pub proof fn lemma_first_run_exists(runs: Seq<StyledTextView>, chunk: Seq<char>, k: int)
    requires
        0 <= k < runs.len(),
        first_match(runs[k].text, chunk) is Some,
    ensures
        first_run_with(runs, chunk) is Some,
        first_run_with(runs, chunk)->0 <= k,
        is_first_run_with(runs, chunk, first_run_with(runs, chunk)->0),
    decreases k,
{
    if exists|j: int| 0 <= j < k && first_match(runs[j].text, chunk) is Some {
        let j = choose|j: int| 0 <= j < k && first_match(runs[j].text, chunk) is Some;
        lemma_first_run_exists(runs, chunk, j);
    } else {
        assert(is_first_run_with(runs, chunk, k));
        let c = choose|c: int| is_first_run_with(runs, chunk, c);
        assert(is_first_run_with(runs, chunk, c));
        if k < c {
            assert(first_match(runs[k].text, chunk) is None);
        }
    }
}

/// `modify` answers "not found" exactly when the chunk, which is not empty,
/// occurs in no run; `modify_spanning` exactly when it occurs nowhere in the
/// whole text. An empty chunk is refused whatever the paragraph holds.
pub proof fn lemma_not_found(runs: Seq<StyledTextView>, style: StyleView, chunk: Seq<char>)
    ensures
        modify_outcome(runs, style, chunk) is EmptyChunk <==> chunk.len() == 0,
        spanning_outcome(runs, style, chunk) is EmptyChunk <==> chunk.len() == 0,
        modify_outcome(runs, style, chunk) is ChunkNotFound <==> chunk.len() > 0 && forall|
            k: int,
            at: int,
        | 0 <= k < runs.len() ==> !#[trigger] occurs_at(runs[k].text, chunk, at),
        spanning_outcome(runs, style, chunk) is ChunkNotFound <==> chunk.len() > 0 && forall|
            at: int,
        | !occurs_at(full_text(runs), chunk, at),
{
    lemma_first_match_spec(full_text(runs), chunk);
    if chunk.len() > 0 {
        if first_run_with(runs, chunk) is Some {
            let k = first_run_with(runs, chunk)->0;
            assert(is_first_run_with(runs, chunk, k));
            lemma_first_match_spec(runs[k].text, chunk);
            let at = first_match(runs[k].text, chunk)->0;
            assert(occurs_at(runs[k].text, chunk, at));
        } else {
            assert forall|k: int, at: int| 0 <= k < runs.len() implies !#[trigger] occurs_at(
                runs[k].text,
                chunk,
                at,
            ) by {
                if occurs_at(runs[k].text, chunk, at) {
                    lemma_leftmost_exists(runs[k].text, chunk, at);
                    lemma_first_run_exists(runs, chunk, k);
                }
            }
        }
    }
}

/// The text of the runs `a..b` is the stretch of the whole text from where
/// run `a` starts to where run `b` starts.
pub proof fn lemma_text_of_stretch(runs: Seq<StyledTextView>, a: int, b: int)
    requires
        0 <= a <= b <= runs.len(),
    ensures
        offset_of_run(runs, a) <= offset_of_run(runs, b) <= full_text(runs).len(),
        full_text(runs.subrange(a, b)) == full_text(runs).subrange(
            offset_of_run(runs, a),
            offset_of_run(runs, b),
        ),
{
    lemma_offsets_monotone(runs, a, b);
    assert(runs =~= runs.take(b) + runs.skip(b));
    lemma_full_text_concat(runs.take(b), runs.skip(b));
    assert(runs.take(b) =~= runs.take(a) + runs.subrange(a, b));
    lemma_full_text_concat(runs.take(a), runs.subrange(a, b));
    assert(full_text(runs.subrange(a, b)) =~= full_text(runs).subrange(
        offset_of_run(runs, a),
        offset_of_run(runs, b),
    ));
}

/// An occurrence within run `k` is an occurrence in the whole text, further
/// right by the offset of the run.
pub proof fn lemma_occurrence_lifts(
    runs: Seq<StyledTextView>,
    k: int,
    chunk: Seq<char>,
    at: int,
)
    requires
        0 <= k < runs.len(),
        occurs_at(runs[k].text, chunk, at),
    ensures
        occurs_at(full_text(runs), chunk, offset_of_run(runs, k) + at),
        offset_of_run(runs, k) + at + chunk.len() <= offset_of_run(runs, k + 1),
{
    lemma_text_around_run(runs, k);
    let whole = full_text(runs);
    let base = offset_of_run(runs, k);
    assert(whole.subrange(base + at, base + at + chunk.len()) =~= runs[k].text.subrange(
        at,
        at + chunk.len(),
    ));
}

/// Where the leftmost occurrence of the chunk in the whole text lies within
/// one run, `modify_spanning` does what `modify` does.
pub proof fn lemma_spanning_within_one_run(
    runs: Seq<StyledTextView>,
    style: StyleView,
    chunk: Seq<char>,
)
    requires
        chunk.len() > 0,
        first_match(full_text(runs), chunk) matches Some(start) && run_of_char(runs, start)
            == run_of_char(runs, start + chunk.len() - 1),
    ensures
        spanning_outcome(runs, style, chunk) == modify_outcome(runs, style, chunk),
{
    let whole = full_text(runs);
    let start = first_match(whole, chunk)->0;
    let end = start + chunk.len();
    lemma_spanning_place(runs, chunk, start);
    lemma_first_match_spec(whole, chunk);
    let k = run_of_char(runs, start);
    let from = start - offset_of_run(runs, k);
    lemma_text_around_run(runs, k);
    assert(runs[k].text.subrange(from, from + chunk.len()) =~= chunk);
    assert forall|j: int| 0 <= j < from implies !occurs_at(runs[k].text, chunk, j) by {
        if occurs_at(runs[k].text, chunk, j) {
            lemma_occurrence_lifts(runs, k, chunk, j);
        }
    }
    lemma_first_match_is(runs[k].text, chunk, from);
    assert forall|j: int| 0 <= j < k implies first_match((#[trigger] runs[j]).text, chunk)
        is None by {
        if first_match(runs[j].text, chunk) is Some {
            let at = first_match(runs[j].text, chunk)->0;
            lemma_first_match_spec(runs[j].text, chunk);
            lemma_occurrence_lifts(runs, j, chunk, at);
            lemma_offsets_monotone(runs, j + 1, k);
        }
    }
    lemma_modify_place(runs, chunk, k, from);
}

/// A chunk that is the text of the runs `first..=last`, no more and no less,
/// and occurs nowhere further left, is restyled into one run that takes the
/// place of those runs: nothing is left of them before or after it.
pub proof fn lemma_spanning_whole_runs(
    runs: Seq<StyledTextView>,
    style: StyleView,
    chunk: Seq<char>,
    first: int,
    last: int,
)
    requires
        no_empty_run(runs),
        0 <= first <= last < runs.len(),
        chunk == full_text(runs.subrange(first, last + 1)),
        first_match(full_text(runs), chunk) == Some(offset_of_run(runs, first)),
    ensures
        spanning_outcome(runs, style, chunk) == Restyling::Done(
            runs.take(first) + seq![StyledTextView { text: chunk, style }] + runs.skip(last + 1),
        ),
{
    let start = offset_of_run(runs, first);
    let end = start + chunk.len();
    lemma_text_of_stretch(runs, first, last + 1);
    lemma_offset_step(runs, first);
    lemma_offset_step(runs, last);
    lemma_offsets_monotone(runs, first + 1, last + 1);
    assert(runs[first].text.len() > 0);
    assert(runs[last].text.len() > 0);
    lemma_run_of_char_is(runs, first, start);
    lemma_run_of_char_is(runs, last, end - 1);
    let to = end - offset_of_run(runs, last);
    assert(runs[first].text.take(0) =~= Seq::<char>::empty());
    assert(runs[last].text.skip(to) =~= Seq::<char>::empty());
    assert(restyled(runs, first, 0, last, to, style, chunk) =~= runs.take(first)
        + seq![StyledTextView { text: chunk, style }] + runs.skip(last + 1));
}

/// A chunk that is the whole text of a paragraph without empty runs is
/// restyled into a single run.
pub proof fn lemma_spanning_whole_paragraph(
    runs: Seq<StyledTextView>,
    style: StyleView,
    chunk: Seq<char>,
)
    requires
        no_empty_run(runs),
        runs.len() > 0,
        chunk == full_text(runs),
    ensures
        spanning_outcome(runs, style, chunk) == Restyling::Done(
            seq![StyledTextView { text: chunk, style }],
        ),
{
    let whole = full_text(runs);
    assert(runs.subrange(0, runs.len() as int) =~= runs);
    assert(runs.take(0) =~= Seq::<StyledTextView>::empty());
    assert(whole.subrange(0, whole.len() as int) =~= whole);
    assert(is_first_match(whole, chunk, 0));
    lemma_first_match_is(whole, chunk, 0);
    lemma_spanning_whole_runs(runs, style, chunk, 0, runs.len() - 1);
    assert(runs.take(0) + seq![StyledTextView { text: chunk, style }] + runs.skip(
        runs.len() as int,
    ) =~= seq![StyledTextView { text: chunk, style }]);
}

/// A paragraph: runs of text, each in a style of its own, in reading order.
#[derive(Debug, PartialEq)]
pub struct StyledParagraph {
    /// The runs of the paragraph.
    pub raw: Vec<StyledText>,
}

impl View for StyledParagraph {
    type V = Seq<StyledTextView>;

    open spec fn view(&self) -> Seq<StyledTextView> {
        self.raw@.map_values(|r: StyledText| r@)
    }
}

impl Clone for StyledParagraph {
    fn clone(&self) -> (res: Self)
        ensures
            res@ == self@,
    {
        let res = StyledParagraph { raw: self.raw.clone() };
        assert(res@ =~= self@);
        res
    }
}

impl Default for StyledParagraph {
    fn default() -> (p: Self)
        ensures
            p@ == Seq::<StyledTextView>::empty(),
    {
        StyledParagraph::new()
    }
}

/// The characters `from..to` of `text`, as a string of their own.
fn slice_of(text: &str, from: usize, to: usize) -> (part: String)
    requires
        from <= to <= text@.len(),
    ensures
        part@ == text@.subrange(from as int, to as int),
{
    String::from_str(text.substring_char(from, to))
}

/// The run that holds character number `pos`, where `offsets` lists the
/// offset of every run and, last, the length of the whole text.
fn locate(offsets: &Vec<usize>, pos: usize, Ghost(runs): Ghost<Seq<StyledTextView>>) -> (k: usize)
    requires
        offsets@.len() == runs.len() + 1,
        forall|j: int| 0 <= j <= runs.len() ==> offsets@[j] == offset_of_run(runs, j),
        pos < full_text(runs).len(),
    ensures
        holds_char(runs, k as int, pos as int),
        run_of_char(runs, pos as int) == k,
{
    proof {
        assert(runs.take(0) =~= Seq::<StyledTextView>::empty());
        assert(runs.take(runs.len() as int) =~= runs);
    }
    let m: usize = offsets.len();
    let mut k: usize = 0;
    while offsets[k + 1] <= pos
        invariant
            m == offsets@.len(),
            offsets@.len() == runs.len() + 1,
            forall|j: int| 0 <= j <= runs.len() ==> offsets@[j] == offset_of_run(runs, j),
            offset_of_run(runs, runs.len() as int) == full_text(runs).len(),
            pos < full_text(runs).len(),
            0 <= k < runs.len(),
            offset_of_run(runs, k as int) <= pos,
        decreases runs.len() - k,
    {
        k += 1;
    }
    proof {
        lemma_run_of_char_is(runs, k as int, pos as int);
    }
    k
}

impl StyledParagraph {
    /// No run of the paragraph is empty.
    pub open spec fn well_formed(&self) -> bool {
        no_empty_run(self@)
    }

    /// A paragraph without runs.
    #[must_use]
    pub fn new() -> (p: Self)
        ensures
            p@ == Seq::<StyledTextView>::empty(),
    {
        let p = StyledParagraph { raw: Vec::new() };
        assert(p@ =~= Seq::<StyledTextView>::empty());
        p
    }

    /// Puts a run at place `idx`; the runs from there on move one place up.
    /// A paragraph without empty runs stays one exactly if the new run is not
    /// empty.
    pub fn insert(&mut self, idx: usize, new: StyledText)
        requires
            idx <= old(self)@.len(),
        ensures
            final(self)@ == old(self)@.insert(idx as int, new@),
            final(self).raw@ == old(self).raw@.insert(idx as int, new),
            old(self).well_formed() ==> (final(self).well_formed() <==> new@.text.len() > 0),
    {
        self.raw.insert(idx, new);
        proof {
            assert(self@ =~= old(self)@.insert(idx as int, new@));
            assert(self@[idx as int] == new@);
            if old(self).well_formed() && new@.text.len() > 0 {
                assert forall|k: int| 0 <= k < self@.len() implies (#[trigger] self@[k]).text.len()
                    > 0 by {
                    if k < idx {
                        assert(self@[k] == old(self)@[k]);
                    } else if k > idx {
                        assert(self@[k] == old(self)@[k - 1]);
                    }
                }
            }
        }
    }

    /// Puts a run at the end. A paragraph without empty runs stays one
    /// exactly if the new run is not empty.
    pub fn add(&mut self, new: StyledText)
        ensures
            final(self)@ == old(self)@.push(new@),
            final(self).raw@ == old(self).raw@.push(new),
            old(self).well_formed() ==> (final(self).well_formed() <==> new@.text.len() > 0),
    {
        self.raw.push(new);
        proof {
            assert(self@ =~= old(self)@.push(new@));
            assert(self@[old(self)@.len() as int] == new@);
            if old(self).well_formed() && new@.text.len() > 0 {
                assert forall|k: int| 0 <= k < self@.len() implies (#[trigger] self@[k]).text.len()
                    > 0 by {
                    if k < old(self)@.len() {
                        assert(self@[k] == old(self)@[k]);
                    }
                }
            }
        }
    }

    /// Replaces the stretch from character `from` of run `first` up to
    /// character `to` of run `last` by one run of `chunk` in `style`.
    fn splice(
        &mut self,
        first: usize,
        from: usize,
        last: usize,
        to: usize,
        style: Style,
        chunk: &str,
    )
        requires
            first <= last < old(self)@.len(),
            from <= old(self)@[first as int].text.len(),
            to <= old(self)@[last as int].text.len(),
        ensures
            final(self)@ == restyled(
                old(self)@,
                first as int,
                from as int,
                last as int,
                to as int,
                style@,
                chunk@,
            ),
    {
        let ghost before = self@;
        assert(before[first as int] == self.raw@[first as int]@);
        assert(before[last as int] == self.raw@[last as int]@);
        let mut pieces: Vec<StyledText> = Vec::new();
        if from > 0 {
            let run = &self.raw[first];
            pieces.push(StyledText::new(slice_of(run.text.as_str(), 0, from), run.style.clone()));
        }
        pieces.push(StyledText::new(String::from_str(chunk), style));
        let end: usize = self.raw[last].text.as_str().unicode_len();
        if to < end {
            let run = &self.raw[last];
            pieces.push(StyledText::new(slice_of(run.text.as_str(), to, end), run.style.clone()));
        }
        let ghost middle = pieces@.map_values(|r: StyledText| r@);
        assert(middle =~= piece(before[first as int].text.take(from as int), before[first as int].style)
            + seq![StyledTextView { text: chunk@, style: style@ }] + piece(
            before[last as int].text.skip(to as int),
            before[last as int].style,
        ));
        assert(last < self.raw.len());
        let mut rest = self.raw.split_off(last + 1);
        self.raw.truncate(first);
        self.raw.append(&mut pieces);
        self.raw.append(&mut rest);
        assert(self@ =~= before.take(first as int) + middle + before.skip(last + 1));
    }

    /// Restyles the first occurrence of `chunk` that lies within one run: the
    /// runs are searched in order, each from its left. The run is cut around
    /// the chunk; the chunk gets `style`, what stands before and after it
    /// keeps the run's style. Without an occurrence, or with an empty chunk,
    /// the paragraph stays as it is.
    pub fn modify(&mut self, style: Style, chunk: &str) -> (res: Result<(), ParagraphModifyError>)
        ensures
            match modify_outcome(old(self)@, style@, chunk@) {
                Restyling::Done(runs) => res is Ok && final(self)@ == runs,
                Restyling::EmptyChunk => res == Err::<(), ParagraphModifyError>(
                    ParagraphModifyError::EmptyChunk,
                ) && *final(self) == *old(self),
                Restyling::ChunkNotFound => *final(self) == *old(self) && (res matches Err(
                    ParagraphModifyError::ChunkNotFound(c),
                ) && c@ == chunk@),
            },
            full_text(final(self)@) == full_text(old(self)@),
            old(self).well_formed() ==> final(self).well_formed(),
    {
        let needle = to_chars(chunk);
        if needle.len() == 0 {
            return Err(ParagraphModifyError::EmptyChunk);
        }
        let n: usize = self.raw.len();
        let mut k: usize = 0;
        while k < n
            invariant
                *self == *old(self),
                n == self@.len(),
                k <= n,
                needle@ == chunk@,
                needle@.len() > 0,
                forall|j: int| 0 <= j < k ==> first_match((#[trigger] self@[j]).text, chunk@) is None,
            decreases n - k,
        {
            let hay = to_chars(self.raw[k].text.as_str());
            assert(self@[k as int] == self.raw@[k as int]@);
            match find_chunk(&hay, &needle) {
                Some(from) => {
                    proof {
                        lemma_first_match_spec(hay@, chunk@);
                        lemma_modify_place(self@, chunk@, k as int, from as int);
                        lemma_modify_keeps_text(self@, style@, chunk@);
                    }
                    assert(from + needle.len() <= hay.len());
                    let to: usize = from + needle.len();
                    self.splice(k, from, k, to, style, chunk);
                    return Ok(());
                },
                None => {},
            }
            k += 1;
        }
        proof {
            if exists|c: int| is_first_run_with(self@, chunk@, c) {
                let c = choose|c: int| is_first_run_with(self@, chunk@, c);
                assert(first_match(self@[c].text, chunk@) is None);
            }
        }
        Err(ParagraphModifyError::ChunkNotFound(String::from_str(chunk)))
    }

    /// The whole text of the paragraph, and where in it each run starts:
    /// one offset for every run and, last, the length of the whole text.
    fn layout(&self) -> (res: (Vec<char>, Vec<usize>))
        ensures
            res.0@ == full_text(self@),
            res.1@.len() == self@.len() + 1,
            forall|j: int| 0 <= j <= self@.len() ==> res.1@[j] == offset_of_run(self@, j),
    {
        let n: usize = self.raw.len();
        let mut whole: Vec<char> = Vec::new();
        let mut offsets: Vec<usize> = Vec::new();
        offsets.push(0);
        proof {
            assert(self@.take(0) =~= Seq::<StyledTextView>::empty());
        }
        let mut k: usize = 0;
        while k < n
            invariant
                n == self@.len(),
                k <= n,
                whole@ == full_text(self@.take(k as int)),
                offsets@.len() == k + 1,
                forall|j: int| 0 <= j <= k ==> offsets@[j] == offset_of_run(self@, j),
            decreases n - k,
        {
            let mut chars = to_chars(self.raw[k].text.as_str());
            proof {
                assert(self@[k as int] == self.raw@[k as int]@);
                assert(self@.take(k + 1).drop_last() =~= self@.take(k as int));
                assert(self@.take(k + 1).last() == self@[k as int]);
            }
            whole.append(&mut chars);
            offsets.push(whole.len());
            k += 1;
        }
        proof {
            assert(self@.take(n as int) =~= self@);
        }
        (whole, offsets)
    }

    /// Restyles the first occurrence of `chunk` in the whole text of the
    /// paragraph, which may start in one run and end in a later one. The part
    /// of the first run before the chunk and the part of the last run after
    /// it keep their styles; the chunk gets `style`, and with it all that the
    /// runs in between held. Without an occurrence, or with an empty chunk,
    /// the paragraph stays as it is.
    pub fn modify_spanning(&mut self, style: Style, chunk: &str) -> (res: Result<
        (),
        ParagraphModifyError,
    >)
        ensures
            match spanning_outcome(old(self)@, style@, chunk@) {
                Restyling::Done(runs) => res is Ok && final(self)@ == runs,
                Restyling::EmptyChunk => res == Err::<(), ParagraphModifyError>(
                    ParagraphModifyError::EmptyChunk,
                ) && *final(self) == *old(self),
                Restyling::ChunkNotFound => *final(self) == *old(self) && (res matches Err(
                    ParagraphModifyError::ChunkNotFound(c),
                ) && c@ == chunk@),
            },
            full_text(final(self)@) == full_text(old(self)@),
            old(self).well_formed() ==> final(self).well_formed(),
    {
        proof {
            lemma_spanning_keeps_text(self@, style@, chunk@);
        }
        let needle = to_chars(chunk);
        if needle.len() == 0 {
            return Err(ParagraphModifyError::EmptyChunk);
        }
        let (whole, offsets) = self.layout();
        match find_chunk(&whole, &needle) {
            None => Err(ParagraphModifyError::ChunkNotFound(String::from_str(chunk))),
            Some(start) => {
                proof {
                    lemma_spanning_place(self@, chunk@, start as int);
                }
                let end: usize = start + needle.len();
                let first: usize = locate(&offsets, start, Ghost(self@));
                let last: usize = locate(&offsets, end - 1, Ghost(self@));
                let from: usize = start - offsets[first];
                let to: usize = end - offsets[last];
                self.splice(first, from, last, to, style, chunk);
                Ok(())
            },
        }
    }

    /// The text of the paragraph: the texts of its runs, one after the other.
    pub fn full_text(&self) -> (s: String)
        ensures
            s@ == full_text(self@),
    {
        let mut buffer = String::new();
        let n: usize = self.raw.len();
        let mut k: usize = 0;
        proof {
            assert(self@.take(0) =~= Seq::<StyledTextView>::empty());
        }
        while k < n
            invariant
                n == self@.len(),
                k <= n,
                buffer@ == full_text(self@.take(k as int)),
            decreases n - k,
        {
            proof {
                assert(self@[k as int] == self.raw@[k as int]@);
                assert(self@.take(k + 1).drop_last() =~= self@.take(k as int));
                assert(self@.take(k + 1).last() == self@[k as int]);
            }
            buffer.append(self.raw[k].text.as_str());
            k += 1;
        }
        proof {
            assert(self@.take(n as int) =~= self@);
        }
        buffer
    }

    /// What an encoder needs of each run, in order.
    pub fn run_descriptors(&self) -> (list: Vec<RunDescriptor>)
        ensures
            list@.map_values(|d: RunDescriptor| d@) == self@.map_values(
                |r: StyledTextView| r.descriptor(),
            ),
    {
        let mut list: Vec<RunDescriptor> = Vec::new();
        let n: usize = self.raw.len();
        let mut k: usize = 0;
        while k < n
            invariant
                n == self.raw@.len(),
                k <= n,
                list@.len() == k,
                forall|j: int| 0 <= j < k ==> (#[trigger] list@[j])@ == self.raw@[j]@.descriptor(),
            decreases n - k,
        {
            list.push(self.raw[k].to_run_descriptor());
            k += 1;
        }
        assert(list@.map_values(|d: RunDescriptor| d@) =~= self@.map_values(
            |r: StyledTextView| r.descriptor(),
        ));
        list
    }

    /// The tagged renderings of the runs, one after the other; nothing for a
    /// paragraph without runs.
    pub fn parse_as_raw_tagged_text(&self) -> (s: String)
        ensures
            s@ == tagged_text(self@),
            self@.len() == 0 ==> s@.len() == 0,
    {
        let mut buffer = String::new();
        let n: usize = self.raw.len();
        let mut k: usize = 0;
        proof {
            assert(self@.take(0) =~= Seq::<StyledTextView>::empty());
        }
        while k < n
            invariant
                n == self@.len(),
                k <= n,
                buffer@ == tagged_text(self@.take(k as int)),
            decreases n - k,
        {
            let tagged = self.raw[k].apply_style_tagging();
            proof {
                assert(self@[k as int] == self.raw@[k as int]@);
                assert(self@.take(k + 1).drop_last() =~= self@.take(k as int));
                assert(self@.take(k + 1).last() == self@[k as int]);
            }
            buffer.append(tagged.as_str());
            k += 1;
        }
        proof {
            assert(self@.take(n as int) =~= self@);
        }
        buffer
    }
}

} // verus!
