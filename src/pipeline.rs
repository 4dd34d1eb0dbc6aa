//! The whole decoder: bytes in, printable text and a termination status out.
use vstd::prelude::*;
use crate::aggregate::{chunk_text, elements_text, push_chunk_text};
use crate::decode::{classify, has_error_key, reads_chunk, reads_error, reads_response, SchemaError};
use crate::json::{is_json_text, json_tree, parse_element, ElementError, JsonValue};
use crate::scanner::{buffers, end_of_stream, LBRACKET, RBRACKET, failure, initial, run, ArrayScanner, ScanError, ScanModel};
use crate::types::{GenerateContentResponse, GenerateContentResponseChunk, GenerateContentResponseError, GenerateContentResponseErrorDetails};

verus! {

/// Why a stream of response elements ended without completing.
#[derive(Debug)]
pub enum Failure {
    /// The byte source failed or closed unexpectedly.
    Transport,
    /// The bytes are not a well-formed array.
    Scan(ScanError),
    /// An element is longer than the bound; the bytes read of it are kept.
    TooLarge(Vec<u8>),
    /// An element's bytes are not one JSON value; the bytes are kept.
    Element(ElementError, Vec<u8>),
    /// An element is neither a chunk nor an error.
    Schema(SchemaError),
    /// The service reported an error in place of a chunk.
    Service(GenerateContentResponseErrorDetails),
}

/// Reads one element's bytes and classifies the JSON value they hold.
pub fn decode_element(bytes: Vec<u8>) -> (r: Result<GenerateContentResponse, Failure>)
    ensures
        !is_json_text(bytes@) ==> (r matches Err(Failure::Element(ElementError::InvalidJson, b)) && b@ == bytes@),
        is_json_text(bytes@) ==> match r {
            Ok(x) => reads_response(json_tree(bytes@), x),
            Err(Failure::Schema(e)) => {
                &&& e.payload()@ == json_tree(bytes@)
                &&& forall|x: GenerateContentResponse| !reads_response(json_tree(bytes@), x)
            },
            _ => false,
        },
{
    match parse_element(bytes.as_slice()) {
        Ok(v) => match classify(v) {
            Ok(x) => Ok(x),
            Err(e) => Err(Failure::Schema(e)),
        },
        Err(e) => Err(Failure::Element(e, bytes)),
    }
}

/// Reads one element as a chunk: an element with an `error` member is the
/// service's error; anything else must read as a chunk.
pub fn parse_chunk(item: JsonValue) -> (r: Result<GenerateContentResponseChunk, Failure>)
    ensures
        match r {
            Ok(c) => !has_error_key(item@) && reads_chunk(item@, c),
            Err(Failure::Service(d)) => has_error_key(item@) && reads_error(item@, GenerateContentResponseError { error: d }),
            Err(Failure::Schema(e)) => {
                &&& e.payload() == item
                &&& (e is NotAnObject <==> !(item is Object))
                &&& forall|x: GenerateContentResponse| !reads_response(item@, x)
            },
            _ => false,
        },
{
    match classify(item) {
        Ok(GenerateContentResponse::Chunk(c)) => Ok(c),
        Ok(GenerateContentResponse::Error(e)) => Err(Failure::Service(e.error)),
        Err(e) => Err(Failure::Schema(e)),
    }
}

/// Every element is JSON text that reads as a chunk.
pub open spec fn all_read_as_chunks(elements: Seq<Seq<u8>>) -> bool {
    forall|j: int| 0 <= j < elements.len() ==> {
        &&& is_json_text(#[trigger] elements[j])
        &&& exists|c: GenerateContentResponseChunk| reads_response(json_tree(elements[j]), GenerateContentResponse::Chunk(c))
    }
}

/// What one read of the byte stream produced: the new text, and the failure
/// that ended the stream, if it ended in this read.
pub struct Progress {
    pub text: String,
    pub failure: Option<Failure>,
    /// The chunks decoded in this read, in order.
    pub chunks: Ghost<Seq<GenerateContentResponse>>,
}

/// A response being read: splits the incoming bytes into elements, decodes
/// each, and gathers the text of the chunks until the stream fails or ends.
pub struct ResponseStream {
    scanner: ArrayScanner,
    output: String,
    stopped: bool,
}

impl ResponseStream {
    pub closed spec fn wf(&self) -> bool {
        self.scanner.wf()
    }

    /// The text gathered so far.
    pub closed spec fn text(&self) -> Seq<char> {
        self.output@
    }

    /// The stream has failed; nothing more is read.
    pub closed spec fn stopped(&self) -> bool {
        self.stopped
    }

    /// The state of the array scanner.
    pub closed spec fn scan_state(&self) -> ScanModel {
        self.scanner@
    }

    /// A stream with nothing read, whose elements may have at most
    /// `max_element` bytes.
    pub fn new(max_element: usize) -> (r: ResponseStream)
        ensures
            r.wf(),
            r.text() == Seq::<char>::empty(),
            !r.stopped(),
            r.scan_state() == initial(max_element as nat),
    {
        ResponseStream { scanner: ArrayScanner::new(max_element), output: String::new(), stopped: false }
    }

    /// Takes one decoded element: a chunk adds its text, anything else is
    /// the failure that stops the stream.
    pub fn take(&mut self, element: Result<GenerateContentResponse, Failure>, text: &mut String) -> (r: Option<Failure>)
        requires
            !old(self).stopped(),
        ensures
            final(self).wf() == old(self).wf(),
            final(self).scan_state() == old(self).scan_state(),
            match element {
                Ok(GenerateContentResponse::Chunk(c)) => {
                    &&& r is None
                    &&& !final(self).stopped()
                    &&& final(self).text() == old(self).text() + chunk_text(c)
                    &&& final(text)@ == old(text)@ + chunk_text(c)
                },
                Ok(GenerateContentResponse::Error(e)) => {
                    &&& r == Some(Failure::Service(e.error))
                    &&& final(self).stopped()
                    &&& final(self).text() == old(self).text()
                    &&& final(text)@ == old(text)@
                },
                Err(f) => {
                    &&& r == Some(f)
                    &&& final(self).stopped()
                    &&& final(self).text() == old(self).text()
                    &&& final(text)@ == old(text)@
                },
            },
    {
        match element {
            Ok(GenerateContentResponse::Chunk(c)) => {
                push_chunk_text(&mut self.output, &c);
                push_chunk_text(text, &c);
                None
            },
            Ok(GenerateContentResponse::Error(e)) => {
                self.stopped = true;
                Some(Failure::Service(e.error))
            },
            Err(f) => {
                self.stopped = true;
                Some(f)
            },
        }
    }

    /// Reads the next bytes of the stream. The elements they complete are
    /// decoded in order; the text of the chunks among them is returned, up to
    /// the first element or byte that fails the stream.
    pub fn push(&mut self, bytes: &[u8]) -> (r: Progress)
        requires
            old(self).wf(),
        ensures
            final(self).wf(),
            final(self).text() == old(self).text() + r.text@,
            old(self).stopped() ==> r.text@ == Seq::<char>::empty() && r.failure is None && final(self).stopped(),
            r.failure is Some ==> final(self).stopped(),
            !old(self).stopped() ==> (final(self).stopped() <==> r.failure is Some),
            run(old(self).scan_state(), bytes@).1.len() == 0 ==> r.text@ == Seq::<char>::empty(),
            !old(self).stopped() ==> final(self).scan_state() == run(old(self).scan_state(), bytes@).0,
            !old(self).stopped() && failure(run(old(self).scan_state(), bytes@).0) is Err
                ==> r.failure is Some && final(self).stopped(),
            r.text@ == elements_text(r.chunks@),
            forall|j: int| 0 <= j < r.chunks@.len() ==> #[trigger] r.chunks@[j] is Chunk,
            r.chunks@.len() <= run(old(self).scan_state(), bytes@).1.len(),
            forall|j: int| 0 <= j < r.chunks@.len() ==> is_json_text(#[trigger] run(old(self).scan_state(), bytes@).1[j]),
            !old(self).stopped() && r.failure is None ==> r.chunks@.len() == run(old(self).scan_state(), bytes@).1.len(),
            forall|j: int| 0 <= j < r.chunks@.len() ==> reads_response(
                json_tree(run(old(self).scan_state(), bytes@).1[j]),
                #[trigger] r.chunks@[j],
            ),
            !old(self).stopped() && failure(run(old(self).scan_state(), bytes@).0) is Ok
                && all_read_as_chunks(run(old(self).scan_state(), bytes@).1) ==> r.failure is None,
            r.failure matches Some(Failure::Service(d)) ==> {
                &&& r.chunks@.len() < run(old(self).scan_state(), bytes@).1.len()
                &&& reads_response(
                    json_tree(run(old(self).scan_state(), bytes@).1[r.chunks@.len() as int]),
                    GenerateContentResponse::Error(GenerateContentResponseError { error: d }),
                )
            },
            !(r.failure matches Some(Failure::Transport)),
            r.failure matches Some(Failure::TooLarge(b)) ==> {
                &&& failure(run(old(self).scan_state(), bytes@).0) == Err::<(), ScanError>(ScanError::TooLarge)
                &&& b@ == run(old(self).scan_state(), bytes@).0.buf
            },
    {
        if self.stopped {
            let ghost none: Seq<GenerateContentResponse> = seq![];
            return Progress { text: String::new(), failure: None, chunks: Ghost(none) };
        }
        let mut done: Vec<Vec<u8>> = Vec::new();
        let scanned = self.scanner.feed(bytes, &mut done);
        let mut text = String::new();
        let ghost start = self.output@;
        assert(done@.len() == buffers(done@).len());
        let ghost elements = run(old(self).scanner@, bytes@).1;
        let ghost mut chunks: Seq<GenerateContentResponse> = seq![];
        let mut i: usize = 0;
        while i < done.len()
            invariant
                i <= done@.len(),
                elements == buffers(done@),
                elements == run(old(self).scanner@, bytes@).1,
                chunks.len() == i,
                text@ == elements_text(chunks),
                forall|j: int| 0 <= j < chunks.len() ==> #[trigger] chunks[j] is Chunk,
                forall|j: int| 0 <= j < chunks.len() ==> is_json_text(#[trigger] elements[j]),
                forall|j: int| 0 <= j < chunks.len() ==> reads_response(json_tree(elements[j]), #[trigger] chunks[j]),
                !old(self).stopped,
                start == old(self).output@,
                self.wf(),
                !self.stopped,
                self.output@ == start + text@,
                self.scanner@ == run(old(self).scanner@, bytes@).0,
                scanned == failure(self.scanner@),
                done@.len() == run(old(self).scanner@, bytes@).1.len(),
                done@.len() == 0 ==> text@ == Seq::<char>::empty(),
            decreases done@.len() - i,
        {
            let element = done[i].clone();
            assert(element@ =~= elements[i as int]);
            let decoded = decode_element(element);
            let ghost d = decoded;
            let ghost before = text@;
            let f = self.take(decoded, &mut text);
            if f.is_some() {
                return Progress { text, failure: f, chunks: Ghost(chunks) };
            }
            proof {
                let x = d->Ok_0;
                assert(chunks.push(x).drop_last() =~= chunks);
                chunks = chunks.push(x);
            }
            i = i + 1;
        }
        match scanned {
            Err(ScanError::TooLarge) => {
                self.stopped = true;
                let pending = self.scanner.pending();
                Progress { text, failure: Some(Failure::TooLarge(pending)), chunks: Ghost(chunks) }
            },
            Err(e) => {
                self.stopped = true;
                Progress { text, failure: Some(Failure::Scan(e)), chunks: Ghost(chunks) }
            },
            Ok(()) => Progress { text, failure: None, chunks: Ghost(chunks) },
        }
    }

    /// The stream has failed; nothing more is read.
    pub fn is_stopped(&self) -> (r: bool)
        ensures
            r == self.stopped(),
    {
        self.stopped
    }

    /// Ends a stream that has not failed, once the byte source has no more
    /// bytes: succeeds where the array was closed.
    pub fn finish(&self) -> (r: Result<(), Failure>)
        requires
            !self.stopped(),
        ensures
            match end_of_stream(self.scan_state()) {
                Ok(()) => r is Ok,
                Err(e) => r == Err::<(), Failure>(Failure::Scan(e)),
            },
    {
        match self.scanner.finish() {
            Ok(()) => Ok(()),
            Err(e) => Err(Failure::Scan(e)),
        }
    }
}

/// How reading a whole response ended: the text gathered, and whether the
/// stream completed.
pub struct Outcome {
    pub text: String,
    pub result: Result<(), Failure>,
    /// The chunks decoded, in order.
    pub chunks: Ghost<Seq<GenerateContentResponse>>,
}

/// Reads a whole response body whose elements may have at most
/// `max_element` bytes.
pub fn read_response(body: &[u8], max_element: usize) -> (r: Outcome)
    ensures
        failure(run(initial(max_element as nat), body@).0) is Err ==> r.result is Err,
        r.result is Ok ==> end_of_stream(run(initial(max_element as nat), body@).0) is Ok,
        run(initial(max_element as nat), body@).1.len() == 0 ==> r.text@ == Seq::<char>::empty(),
        r.text@ == elements_text(r.chunks@),
        forall|j: int| 0 <= j < r.chunks@.len() ==> #[trigger] r.chunks@[j] is Chunk,
        forall|j: int| 0 <= j < r.chunks@.len() ==> is_json_text(#[trigger] run(initial(max_element as nat), body@).1[j]),
        r.result is Ok ==> r.chunks@.len() == run(initial(max_element as nat), body@).1.len(),
        forall|j: int| 0 <= j < r.chunks@.len() ==> reads_response(
            json_tree(run(initial(max_element as nat), body@).1[j]),
            #[trigger] r.chunks@[j],
        ),
        end_of_stream(run(initial(max_element as nat), body@).0) is Ok
            && all_read_as_chunks(run(initial(max_element as nat), body@).1) ==> r.result is Ok,
        r.result matches Err(Failure::Service(d)) ==> {
            &&& r.chunks@.len() < run(initial(max_element as nat), body@).1.len()
            &&& reads_response(
                json_tree(run(initial(max_element as nat), body@).1[r.chunks@.len() as int]),
                GenerateContentResponse::Error(GenerateContentResponseError { error: d }),
            )
        },
        !(r.result matches Err(Failure::Transport)),
{
    let mut stream = ResponseStream::new(max_element);
    let progress = stream.push(body);
    match progress.failure {
        Some(f) => Outcome { text: progress.text, result: Err(f), chunks: progress.chunks },
        None => {
            let result = stream.finish();
            Outcome { text: progress.text, result, chunks: progress.chunks }
        },
    }
}

/// The empty array holds no element and is complete, so reading it yields
/// no text and succeeds.
pub proof fn lemma_empty_array(max: nat)
    ensures
        run(initial(max), seq![LBRACKET, RBRACKET]).1.len() == 0,
        all_read_as_chunks(run(initial(max), seq![LBRACKET, RBRACKET]).1),
        end_of_stream(run(initial(max), seq![LBRACKET, RBRACKET]).0) is Ok,
{
    let b = seq![LBRACKET, RBRACKET];
    assert(b.drop_last() =~= seq![LBRACKET]);
    assert(b.drop_last().drop_last() =~= Seq::<u8>::empty());
    reveal_with_fuel(run, 3);
}

} // verus!
