//! Collects the printable text of a stream of response elements.
//!
//! Only text parts are printed; other parts and candidates whose content was
//! suppressed add nothing. The first in-band error ends the stream, and the
//! text gathered before it is kept.
use vstd::prelude::*;
use vstd::string::*;
use crate::decode::{field, reads_candidate};
use crate::json::JsonTree;
use crate::types::{
    Candidate, GenerateContentResponse, GenerateContentResponseChunk,
    GenerateContentResponseErrorDetails, Part,
};

verus! {

pub open spec fn part_text(p: Part) -> Seq<char> {
    match p {
        Part::Text(s) => s@,
        _ => seq![],
    }
}

/// The text parts of `parts`, joined in order.
pub open spec fn parts_text(parts: Seq<Part>) -> Seq<char>
    decreases parts.len(),
{
    if parts.len() == 0 {
        seq![]
    } else {
        parts_text(parts.drop_last()) + part_text(parts.last())
    }
}

/// The text of a candidate: that of its content's parts, or nothing where
/// the content is absent.
pub open spec fn candidate_text(c: Candidate) -> Seq<char> {
    match c.content {
        Some(content) => parts_text(content.parts@),
        None => seq![],
    }
}

pub open spec fn candidates_text(cs: Seq<Candidate>) -> Seq<char>
    decreases cs.len(),
{
    if cs.len() == 0 {
        seq![]
    } else {
        candidates_text(cs.drop_last()) + candidate_text(cs.last())
    }
}

/// The text of a chunk: that of all its candidates, in order.
pub open spec fn chunk_text(c: GenerateContentResponseChunk) -> Seq<char> {
    candidates_text(c.candidates@)
}

pub open spec fn element_text(e: GenerateContentResponse) -> Seq<char> {
    match e {
        GenerateContentResponse::Chunk(c) => chunk_text(c),
        GenerateContentResponse::Error(_) => seq![],
    }
}

/// The text of every chunk of `es`, in order.
pub open spec fn elements_text(es: Seq<GenerateContentResponse>) -> Seq<char>
    decreases es.len(),
{
    if es.len() == 0 {
        seq![]
    } else {
        elements_text(es.drop_last()) + element_text(es.last())
    }
}

/// The index of the first error of `es`, or its length where it has none.
pub open spec fn stop_index(es: Seq<GenerateContentResponse>) -> int
    decreases es.len(),
{
    if es.len() == 0 {
        0
    } else if stop_index(es.drop_last()) < es.len() - 1 {
        stop_index(es.drop_last())
    } else if es.last() is Error {
        es.len() - 1
    } else {
        es.len() as int
    }
}

/// How aggregation ends.
#[derive(Debug)]
pub enum AggregateState {
    /// More elements may come.
    Running,
    /// An error element arrived; no further element is read.
    Errored(GenerateContentResponseErrorDetails),
    /// The elements ended with no error.
    Completed,
}

/// The text and the end state that aggregating all of `es` gives.
pub open spec fn outcome_text(es: Seq<GenerateContentResponse>) -> Seq<char> {
    elements_text(es.take(stop_index(es)))
}

/// The error that ends `es`, if any.
pub open spec fn outcome_error(es: Seq<GenerateContentResponse>) -> Option<GenerateContentResponseErrorDetails> {
    if stop_index(es) < es.len() {
        match es[stop_index(es)] {
            GenerateContentResponse::Error(e) => Some(e.error),
            GenerateContentResponse::Chunk(_) => None,
        }
    } else {
        None
    }
}

/// Appends the text of one part to `out`.
fn push_part_text(out: &mut String, p: &Part)
    ensures
        final(out)@ == old(out)@ + part_text(*p),
{
    match p {
        Part::Text(s) => out.append(s.as_str()),
        _ => {
            assert(old(out)@ + seq![] =~= old(out)@);
        },
    }
}

/// Appends the text of one candidate to `out`.
pub fn push_candidate_text(out: &mut String, c: &Candidate)
    ensures
        final(out)@ == old(out)@ + candidate_text(*c),
{
    match &c.content {
        Some(content) => {
            let ghost start = out@;
            let parts = &content.parts;
            let mut i: usize = 0;
            assert(parts@.take(0) =~= Seq::<Part>::empty());
            assert(start + parts_text(parts@.take(0)) =~= start);
            while i < parts.len()
                invariant
                    i <= parts@.len(),
                    out@ == start + parts_text(parts@.take(i as int)),
                decreases parts@.len() - i,
            {
                push_part_text(out, &parts[i]);
                assert(parts@.take(i + 1).drop_last() =~= parts@.take(i as int));
                assert(start + parts_text(parts@.take(i + 1)) =~= start + parts_text(parts@.take(i as int)) + part_text(parts@[i as int]));
                i = i + 1;
            }
            assert(parts@.take(parts@.len() as int) =~= parts@);
        },
        None => {
            assert(old(out)@ + seq![] =~= old(out)@);
        },
    }
}

/// Appends the text of one chunk to `out`.
pub fn push_chunk_text(out: &mut String, chunk: &GenerateContentResponseChunk)
    ensures
        final(out)@ == old(out)@ + chunk_text(*chunk),
{
    let ghost start = out@;
    let cs = &chunk.candidates;
    let mut i: usize = 0;
    assert(cs@.take(0) =~= Seq::<Candidate>::empty());
    assert(start + candidates_text(cs@.take(0)) =~= start);
    while i < cs.len()
        invariant
            i <= cs@.len(),
            out@ == start + candidates_text(cs@.take(i as int)),
        decreases cs@.len() - i,
    {
        push_candidate_text(out, &cs[i]);
        assert(cs@.take(i + 1).drop_last() =~= cs@.take(i as int));
        assert(start + candidates_text(cs@.take(i + 1)) =~= start + candidates_text(cs@.take(i as int)) + candidate_text(cs@[i as int]));
        i = i + 1;
    }
    assert(cs@.take(cs@.len() as int) =~= cs@);
}

/// The printable text of one chunk.
pub fn chunk_to_text(chunk: &GenerateContentResponseChunk) -> (r: String)
    ensures
        r@ == chunk_text(*chunk),
{
    let mut out = String::new();
    push_chunk_text(&mut out, chunk);
    assert(out@ =~= chunk_text(*chunk));
    out
}

/// Gathers text from the elements of one stream, in order.
pub struct TextAggregator {
    pub output: String,
    pub state: AggregateState,
}

impl TextAggregator {
    /// A running aggregator with no text yet.
    pub fn new() -> (r: TextAggregator)
        ensures
            r.output@ == Seq::<char>::empty(),
            r.state is Running,
    {
        TextAggregator { output: String::new(), state: AggregateState::Running }
    }

    /// Takes the next element. A chunk adds its text; an error ends the
    /// stream. Once the stream has ended, elements are ignored.
    pub fn accept(&mut self, element: GenerateContentResponse)
        ensures
            !(old(self).state is Running) ==> *final(self) == *old(self),
            old(self).state is Running ==> match element {
                GenerateContentResponse::Chunk(c) => {
                    &&& final(self).output@ == old(self).output@ + chunk_text(c)
                    &&& final(self).state is Running
                },
                GenerateContentResponse::Error(e) => {
                    &&& final(self).output@ == old(self).output@
                    &&& final(self).state == AggregateState::Errored(e.error)
                },
            },
    {
        if let AggregateState::Running = self.state {
            match element {
                GenerateContentResponse::Chunk(c) => push_chunk_text(&mut self.output, &c),
                GenerateContentResponse::Error(e) => self.state = AggregateState::Errored(e.error),
            }
        }
    }

    /// Marks the end of the elements: a running aggregator completes.
    pub fn finish(&mut self)
        ensures
            final(self).output == old(self).output,
            old(self).state is Running ==> final(self).state is Completed,
            !(old(self).state is Running) ==> final(self).state == old(self).state,
    {
        if let AggregateState::Running = self.state {
            self.state = AggregateState::Completed;
        }
    }

    /// The aggregator reads no further element.
    pub fn is_done(&self) -> (r: bool)
        ensures
            r == !(self.state is Running),
    {
        !matches!(self.state, AggregateState::Running)
    }
}

/// A copy of an error's details.
pub fn copy_details(d: &GenerateContentResponseErrorDetails) -> (r: GenerateContentResponseErrorDetails)
    ensures
        r == *d,
{
    GenerateContentResponseErrorDetails { code: d.code, message: d.message.clone(), status: d.status.clone() }
}

/// Where a prefix of `es` already holds an error, `es` stops at that same error.
proof fn lemma_stop_kept(es: Seq<GenerateContentResponse>, k: int)
    requires
        0 <= k <= es.len(),
        stop_index(es.take(k)) < k,
    ensures
        stop_index(es) == stop_index(es.take(k)),
    decreases es.len() - k,
{
    if k < es.len() {
        assert(es.take(k + 1).drop_last() =~= es.take(k));
        lemma_stop_kept(es, k + 1);
    } else {
        assert(es.take(k) =~= es);
    }
}

/// Aggregates all of `elements`, stopping at the first error.
pub fn aggregate(elements: &Vec<GenerateContentResponse>) -> (r: TextAggregator)
    ensures
        r.output@ == outcome_text(elements@),
        match outcome_error(elements@) {
            Some(e) => r.state == AggregateState::Errored(e),
            None => r.state is Completed,
        },
{
    let ghost es = elements@;
    let mut output = String::new();
    let mut i: usize = 0;
    assert(es.take(0) =~= Seq::<GenerateContentResponse>::empty());
    while i < elements.len()
        invariant
            es == elements@,
            i <= es.len(),
            stop_index(es.take(i as int)) == i,
            output@ == elements_text(es.take(i as int)),
        decreases es.len() - i,
    {
        assert(es.take(i + 1).drop_last() =~= es.take(i as int));
        match &elements[i] {
            GenerateContentResponse::Chunk(c) => {
                push_chunk_text(&mut output, c);
            },
            GenerateContentResponse::Error(e) => {
                proof {
                    lemma_stop_kept(es, i + 1);
                }
                return TextAggregator { output, state: AggregateState::Errored(copy_details(&e.error)) };
            },
        }
        i = i + 1;
    }
    assert(es.take(es.len() as int) =~= es);
    TextAggregator { output, state: AggregateState::Completed }
}

/// For a stream of chunks only, the output is the text of every chunk in
/// array order, and aggregation completes without error.
pub proof fn lemma_all_chunks(es: Seq<GenerateContentResponse>)
    requires
        forall|i: int| 0 <= i < es.len() ==> #[trigger] es[i] is Chunk,
    ensures
        stop_index(es) == es.len(),
        outcome_text(es) == elements_text(es),
        outcome_error(es) is None,
    decreases es.len(),
{
    if es.len() > 0 {
        let front = es.drop_last();
        assert forall|i: int| 0 <= i < front.len() implies #[trigger] front[i] is Chunk by {
            assert(front[i] == es[i]);
        }
        lemma_all_chunks(front);
        assert(es.last() == es[es.len() - 1]);
    }
    assert(es.take(es.len() as int) =~= es);
}

/// Where element `k` is the first error, the output is the text of the
/// elements before it and the error is its details; elements after it play
/// no part: any continuation gives the same outcome.
pub proof fn lemma_first_error(es: Seq<GenerateContentResponse>, k: int, rest: Seq<GenerateContentResponse>)
    requires
        0 <= k < es.len(),
        es[k] is Error,
        forall|i: int| 0 <= i < k ==> #[trigger] es[i] is Chunk,
    ensures
        stop_index(es) == k,
        outcome_text(es) == elements_text(es.take(k)),
        outcome_error(es) == Some(es[k]->Error_0.error),
        outcome_text(es.take(k + 1) + rest) == outcome_text(es),
        outcome_error(es.take(k + 1) + rest) == outcome_error(es),
{
    let pre = es.take(k);
    assert forall|i: int| 0 <= i < pre.len() implies #[trigger] pre[i] is Chunk by {
        assert(pre[i] == es[i]);
    }
    lemma_all_chunks(pre);
    assert(es.take(k + 1).drop_last() =~= pre);
    assert(es.take(k + 1).last() == es[k]);
    assert(stop_index(es.take(k + 1)) == k);
    lemma_stop_kept(es, k + 1);
    let longer = es.take(k + 1) + rest;
    assert(longer.take(k + 1) =~= es.take(k + 1));
    lemma_stop_kept(longer, k + 1);
    assert(longer.take(k) =~= pre);
    assert(longer[k] == es[k]);
}

/// A candidate whose content was suppressed adds no text, wherever it stands
/// among the candidates of a chunk.
pub proof fn lemma_suppressed_candidate(c: Candidate, before: Seq<Candidate>)
    requires
        c.content is None,
    ensures
        candidate_text(c) == Seq::<char>::empty(),
        candidates_text(before.push(c)) == candidates_text(before),
{
    assert(before.push(c).drop_last() =~= before);
    assert(candidates_text(before) + Seq::<char>::empty() =~= candidates_text(before));
}

/// An empty stream yields no text and completes without error.
pub proof fn lemma_no_elements()
    ensures
        outcome_text(Seq::<GenerateContentResponse>::empty()) == Seq::<char>::empty(),
        outcome_error(Seq::<GenerateContentResponse>::empty()) is None,
{
    let es = Seq::<GenerateContentResponse>::empty();
    assert(es.take(0) =~= es);
}

/// A candidate read from a tree that has no `content` member (as when the
/// finish reason is `SAFETY`) is a valid candidate with no content, and adds
/// no text.
pub proof fn lemma_candidate_without_content(v: JsonTree, c: Candidate)
    requires
        reads_candidate(v, c),
        v matches JsonTree::Object(m) && field(m, "content"@) is None,
    ensures
        c.content is None,
        candidate_text(c) == Seq::<char>::empty(),
{
}

} // verus!
