//! Splits a streamed top-level JSON array into its elements.
//!
//! The scanner is fed bytes as they arrive and hands out the bytes of each
//! array element as soon as the element is complete. It tracks the nesting
//! depth and the string and escape state of the current element only, so it
//! never holds more than one element, and it bounds the size of that element.
use vstd::prelude::*;

verus! {

pub const LBRACKET: u8 = 0x5b;
pub const RBRACKET: u8 = 0x5d;
pub const LBRACE: u8 = 0x7b;
pub const RBRACE: u8 = 0x7d;
pub const COMMA: u8 = 0x2c;
pub const QUOTE: u8 = 0x22;
pub const BACKSLASH: u8 = 0x5c;
pub const SPACE: u8 = 0x20;
pub const TAB: u8 = 0x09;
pub const LF: u8 = 0x0a;
pub const CR: u8 = 0x0d;

/// Why the byte stream is not a well-formed array.
#[derive(Debug, Clone, Copy, PartialEq, Eq, Structural)]
pub enum ScanError {
    /// A byte that cannot stand where it was found.
    Malformed,
    /// An element longer than the bound the scanner was made with.
    TooLarge,
    /// The stream ended before the closing bracket.
    Truncated,
}

/// Where the scanner stands in the array.
#[derive(Debug, Clone, Copy, PartialEq, Eq, Structural)]
pub enum Phase {
    /// Before the opening bracket.
    Open,
    /// After the opening bracket: an element or the closing bracket follows.
    First,
    /// After a comma: an element follows.
    Next,
    /// Inside an element.
    Element,
    /// After an element: a comma or the closing bracket follows.
    After,
    /// After the closing bracket.
    Closed,
    /// The stream was found malformed; nothing more is read.
    Failed(ScanError),
}

/// The state of a scanner, as the specification sees it.
pub struct ScanModel {
    pub phase: Phase,
    /// Open brackets of the current element that are not yet closed.
    pub depth: nat,
    /// The current element is inside a string literal.
    pub in_string: bool,
    /// The previous byte was a backslash inside a string literal.
    pub escaped: bool,
    /// The current element is a bare literal (number, `true`, `false`, `null`).
    pub bare: bool,
    /// The bytes of the current element read so far.
    pub buf: Seq<u8>,
    /// The largest number of bytes an element may have.
    pub max: nat,
}

pub open spec fn is_space(b: u8) -> bool {
    b == SPACE || b == TAB || b == LF || b == CR
}

pub open spec fn fail(s: ScanModel, e: ScanError) -> ScanModel {
    ScanModel { phase: Phase::Failed(e), ..s }
}

/// The state before any byte was read.
pub open spec fn initial(max: nat) -> ScanModel {
    ScanModel { phase: Phase::Open, depth: 0, in_string: false, escaped: false, bare: false, buf: seq![], max }
}

/// The state after the first byte `b` of an element.
pub open spec fn start_element(s: ScanModel, b: u8) -> ScanModel {
    if b == COMMA || b == RBRACKET {
        fail(s, ScanError::Malformed)
    } else if s.max < 1 {
        fail(s, ScanError::TooLarge)
    } else {
        ScanModel {
            phase: Phase::Element,
            depth: if b == LBRACE || b == LBRACKET { 1 } else { 0 },
            in_string: b == QUOTE,
            escaped: false,
            bare: !(b == LBRACE || b == LBRACKET || b == QUOTE),
            buf: seq![b],
            max: s.max,
        }
    }
}

/// The state after the delimiter `b` that follows an element.
pub open spec fn after_element(s: ScanModel, b: u8) -> ScanModel {
    if is_space(b) {
        s
    } else if b == COMMA {
        ScanModel { phase: Phase::Next, ..s }
    } else if b == RBRACKET {
        ScanModel { phase: Phase::Closed, ..s }
    } else {
        fail(s, ScanError::Malformed)
    }
}

/// The state after byte `b` of an element that began with a bracket or a quote.
pub open spec fn extend_element(s: ScanModel, b: u8) -> ScanModel {
    let buf = s.buf.push(b);
    if s.in_string {
        if s.escaped {
            ScanModel { escaped: false, buf, ..s }
        } else if b == BACKSLASH {
            ScanModel { escaped: true, buf, ..s }
        } else if b == QUOTE {
            ScanModel { in_string: false, buf, ..s }
        } else {
            ScanModel { buf, ..s }
        }
    } else if b == QUOTE {
        ScanModel { in_string: true, buf, ..s }
    } else if b == LBRACE || b == LBRACKET {
        ScanModel { depth: s.depth + 1, buf, ..s }
    } else if b == RBRACE || b == RBRACKET {
        ScanModel { depth: if s.depth == 0 { 0 } else { (s.depth - 1) as nat }, buf, ..s }
    } else {
        ScanModel { buf, ..s }
    }
}

/// An element that began with a bracket or a quote is complete.
pub open spec fn closed_element(s: ScanModel) -> bool {
    !s.bare && !s.in_string && s.depth == 0
}

/// One byte read: the next state, and the element that this byte completed.
pub open spec fn step(s: ScanModel, b: u8) -> (ScanModel, Option<Seq<u8>>) {
    match s.phase {
        Phase::Open => {
            if is_space(b) {
                (s, None)
            } else if b == LBRACKET {
                (ScanModel { phase: Phase::First, ..s }, None)
            } else {
                (fail(s, ScanError::Malformed), None)
            }
        },
        Phase::First => {
            if is_space(b) {
                (s, None)
            } else if b == RBRACKET {
                (ScanModel { phase: Phase::Closed, ..s }, None)
            } else {
                (start_element(s, b), None)
            }
        },
        Phase::Next => {
            if is_space(b) {
                (s, None)
            } else {
                (start_element(s, b), None)
            }
        },
        Phase::Element => {
            if s.bare {
                if is_space(b) || b == COMMA || b == RBRACKET {
                    (after_element(ScanModel { phase: Phase::After, buf: seq![], ..s }, b), Some(s.buf))
                } else if s.buf.len() >= s.max {
                    (fail(s, ScanError::TooLarge), None)
                } else {
                    (ScanModel { buf: s.buf.push(b), ..s }, None)
                }
            } else if s.buf.len() >= s.max {
                (fail(s, ScanError::TooLarge), None)
            } else {
                let t = extend_element(s, b);
                if closed_element(t) {
                    (ScanModel { phase: Phase::After, buf: seq![], ..t }, Some(t.buf))
                } else {
                    (t, None)
                }
            }
        },
        Phase::After => (after_element(s, b), None),
        Phase::Closed => {
            if is_space(b) {
                (s, None)
            } else {
                (fail(s, ScanError::Malformed), None)
            }
        },
        Phase::Failed(_) => (s, None),
    }
}

/// The state after reading `bytes` from `s`, and the elements they completed, in order.
pub open spec fn run(s: ScanModel, bytes: Seq<u8>) -> (ScanModel, Seq<Seq<u8>>)
    decreases bytes.len(),
{
    if bytes.len() == 0 {
        (s, seq![])
    } else {
        let (t, done) = run(s, bytes.drop_last());
        let (u, e) = step(t, bytes.last());
        match e {
            Some(x) => (u, done.push(x)),
            None => (u, done),
        }
    }
}

/// What the end of the stream means in state `s`.
pub open spec fn end_of_stream(s: ScanModel) -> Result<(), ScanError> {
    match s.phase {
        Phase::Closed => Ok(()),
        Phase::Failed(e) => Err(e),
        _ => Err(ScanError::Truncated),
    }
}

/// The error that state `s` holds, if any.
pub open spec fn failure(s: ScanModel) -> Result<(), ScanError> {
    match s.phase {
        Phase::Failed(e) => Err(e),
        _ => Ok(()),
    }
}

/// Reading `a` and then `b` in two pieces is the same as reading them at once:
/// where the stream is cut into reads does not matter.
pub proof fn lemma_split_reads(s: ScanModel, a: Seq<u8>, b: Seq<u8>)
    ensures
        run(s, a + b).0 == run(run(s, a).0, b).0,
        run(s, a + b).1 == run(s, a).1 + run(run(s, a).0, b).1,
    decreases b.len(),
{
    if b.len() == 0 {
        assert(a + b =~= a);
        assert(run(s, a).1 + run(run(s, a).0, b).1 =~= run(s, a).1);
    } else {
        lemma_split_reads(s, a, b.drop_last());
        assert((a + b).drop_last() =~= a + b.drop_last());
        assert((a + b).last() == b.last());
        let mid = run(s, a);
        let r = run(mid.0, b.drop_last());
        match step(r.0, b.last()).1 {
            Some(x) => {
                assert(mid.1 + r.1.push(x) =~= (mid.1 + r.1).push(x));
            },
            None => {},
        }
    }
}

/// The buffer stays within the bound, and holds a byte while inside an element.
pub open spec fn bounded(s: ScanModel) -> bool {
    &&& s.buf.len() <= s.max
    &&& s.phase is Element ==> s.buf.len() > 0
}

proof fn lemma_step_bounded(s: ScanModel, b: u8)
    requires
        bounded(s),
    ensures
        bounded(step(s, b).0),
        step(s, b).0.max == s.max,
        step(s, b).1 matches Some(e) ==> 0 < e.len() <= s.max,
{
}

/// Every element handed out is non-empty and no longer than the bound, and
/// the scanner never holds more bytes than that bound.
pub proof fn lemma_elements_bounded(s: ScanModel, bytes: Seq<u8>)
    requires
        bounded(s),
    ensures
        bounded(run(s, bytes).0),
        run(s, bytes).0.max == s.max,
        forall|i: int| 0 <= i < run(s, bytes).1.len() ==> 0 < #[trigger] run(s, bytes).1[i].len() <= s.max,
    decreases bytes.len(),
{
    if bytes.len() > 0 {
        lemma_elements_bounded(s, bytes.drop_last());
        let t = run(s, bytes.drop_last()).0;
        lemma_step_bounded(t, bytes.last());
    }
}

/// The view of a list of byte buffers.
pub open spec fn buffers(v: Seq<Vec<u8>>) -> Seq<Seq<u8>> {
    v.map_values(|x: Vec<u8>| x@)
}

/// An incremental reader of one streamed JSON array.
pub struct ArrayScanner {
    phase: Phase,
    depth: usize,
    in_string: bool,
    escaped: bool,
    bare: bool,
    buf: Vec<u8>,
    max: usize,
}

impl View for ArrayScanner {
    type V = ScanModel;

    closed spec fn view(&self) -> ScanModel {
        ScanModel {
            phase: self.phase,
            depth: self.depth as nat,
            in_string: self.in_string,
            escaped: self.escaped,
            bare: self.bare,
            buf: self.buf@,
            max: self.max as nat,
        }
    }
}

impl ArrayScanner {
    /// The scanner's internal consistency: the element never outgrows its
    /// bound, and every open bracket is a byte of it.
    pub closed spec fn wf(&self) -> bool {
        &&& self.buf@.len() <= self.max
        &&& self.depth <= self.buf@.len()
        &&& self.bare ==> self.depth == 0
    }

    /// A scanner at the start of a stream whose elements have at most
    /// `max_element` bytes.
    pub fn new(max_element: usize) -> (r: ArrayScanner)
        ensures
            r.wf(),
            r@ == initial(max_element as nat),
    {
        ArrayScanner {
            phase: Phase::Open,
            depth: 0,
            in_string: false,
            escaped: false,
            bare: false,
            buf: Vec::new(),
            max: max_element,
        }
    }

    /// Hands out the current element and empties the buffer.
    fn take_element(&mut self) -> (r: Vec<u8>)
        ensures
            r@ == old(self).buf@,
            final(self)@ == (ScanModel { buf: seq![], ..old(self)@ }),
    {
        let mut e: Vec<u8> = Vec::new();
        std::mem::swap(&mut e, &mut self.buf);
        e
    }

    /// Moves to the state that follows the delimiter `b` after an element.
    fn after_element(&mut self, b: u8)
        ensures
            final(self)@ == after_element(old(self)@, b),
            final(self).buf == old(self).buf,
            final(self).depth == old(self).depth,
            final(self).max == old(self).max,
    {
        if b == SPACE || b == TAB || b == LF || b == CR {
        } else if b == COMMA {
            self.phase = Phase::Next;
        } else if b == RBRACKET {
            self.phase = Phase::Closed;
        } else {
            self.phase = Phase::Failed(ScanError::Malformed);
        }
    }

    /// Moves to the state that follows the first byte `b` of an element.
    fn start_element(&mut self, b: u8)
        requires
            old(self).wf(),
        ensures
            final(self).wf(),
            final(self)@ == start_element(old(self)@, b),
    {
        if b == COMMA || b == RBRACKET {
            self.phase = Phase::Failed(ScanError::Malformed);
        } else if self.max < 1 {
            self.phase = Phase::Failed(ScanError::TooLarge);
        } else {
            let mut buf: Vec<u8> = Vec::new();
            buf.push(b);
            self.phase = Phase::Element;
            self.depth = if b == LBRACE || b == LBRACKET { 1 } else { 0 };
            self.in_string = b == QUOTE;
            self.escaped = false;
            self.bare = !(b == LBRACE || b == LBRACKET || b == QUOTE);
            self.buf = buf;
        }
    }

    /// Adds byte `b` to an element that began with a bracket or a quote.
    fn extend_element(&mut self, b: u8)
        requires
            old(self).wf(),
            old(self).buf@.len() < old(self).max,
            !old(self).bare,
        ensures
            final(self).wf(),
            final(self)@ == extend_element(old(self)@, b),
    {
        self.buf.push(b);
        if self.in_string {
            if self.escaped {
                self.escaped = false;
            } else if b == BACKSLASH {
                self.escaped = true;
            } else if b == QUOTE {
                self.in_string = false;
            }
        } else if b == QUOTE {
            self.in_string = true;
        } else if b == LBRACE || b == LBRACKET {
            self.depth = self.depth + 1;
        } else if b == RBRACE || b == RBRACKET {
            if self.depth > 0 {
                self.depth = self.depth - 1;
            }
        }
    }

    /// Reads one byte; returns the element it completed, if any.
    pub fn step(&mut self, b: u8) -> (r: Option<Vec<u8>>)
        requires
            old(self).wf(),
        ensures
            final(self).wf(),
            final(self)@ == step(old(self)@, b).0,
            step(old(self)@, b).1 == match r {
                Some(e) => Some(e@),
                None => None::<Seq<u8>>,
            },
    {
        let space = b == SPACE || b == TAB || b == LF || b == CR;
        match self.phase {
            Phase::Open => {
                if space {
                } else if b == LBRACKET {
                    self.phase = Phase::First;
                } else {
                    self.phase = Phase::Failed(ScanError::Malformed);
                }
                None
            },
            Phase::First => {
                if space {
                } else if b == RBRACKET {
                    self.phase = Phase::Closed;
                } else {
                    self.start_element(b);
                }
                None
            },
            Phase::Next => {
                if !space {
                    self.start_element(b);
                }
                None
            },
            Phase::Element => {
                if self.bare {
                    if space || b == COMMA || b == RBRACKET {
                        self.phase = Phase::After;
                        let e = self.take_element();
                        self.after_element(b);
                        Some(e)
                    } else if self.buf.len() >= self.max {
                        self.phase = Phase::Failed(ScanError::TooLarge);
                        None
                    } else {
                        self.buf.push(b);
                        None
                    }
                } else if self.buf.len() >= self.max {
                    self.phase = Phase::Failed(ScanError::TooLarge);
                    None
                } else {
                    self.extend_element(b);
                    if !self.in_string && self.depth == 0 {
                        self.phase = Phase::After;
                        let e = self.take_element();
                        Some(e)
                    } else {
                        None
                    }
                }
            },
            Phase::After => {
                self.after_element(b);
                None
            },
            Phase::Closed => {
                if !space {
                    self.phase = Phase::Failed(ScanError::Malformed);
                }
                None
            },
            Phase::Failed(_) => None,
        }
    }

    /// Reads `bytes`, appending each element they complete to `out`.
    /// Fails once the stream is found malformed; the elements completed
    /// before that point are still appended.
    pub fn feed(&mut self, bytes: &[u8], out: &mut Vec<Vec<u8>>) -> (r: Result<(), ScanError>)
        requires
            old(self).wf(),
        ensures
            final(self).wf(),
            final(self)@ == run(old(self)@, bytes@).0,
            buffers(final(out)@) == buffers(old(out)@) + run(old(self)@, bytes@).1,
            r == failure(final(self)@),
    {
        let ghost s0 = self@;
        let ghost out0 = buffers(out@);
        let mut i: usize = 0;
        assert(bytes@.subrange(0, 0) =~= Seq::<u8>::empty());
        assert(out0 + seq![] =~= out0);
        while i < bytes.len()
            invariant
                0 <= i <= bytes@.len(),
                self.wf(),
                self@ == run(s0, bytes@.subrange(0, i as int)).0,
                buffers(out@) == out0 + run(s0, bytes@.subrange(0, i as int)).1,
            decreases bytes@.len() - i,
        {
            let ghost pre = out@;
            let e = self.step(bytes[i]);
            assert(bytes@.subrange(0, i + 1).drop_last() =~= bytes@.subrange(0, i as int));
            assert(bytes@.subrange(0, i + 1).last() == bytes@[i as int]);
            match e {
                Some(x) => {
                    out.push(x);
                    assert(buffers(out@) =~= buffers(pre).push(x@));
                    assert(buffers(out@) =~= out0 + run(s0, bytes@.subrange(0, i + 1)).1);
                },
                None => {},
            }
            i = i + 1;
        }
        assert(bytes@.subrange(0, bytes@.len() as int) =~= bytes@);
        match self.phase {
            Phase::Failed(e) => Err(e),
            _ => Ok(()),
        }
    }

    /// Reports how the stream stands now that no more bytes will come.
    pub fn finish(&self) -> (r: Result<(), ScanError>)
        ensures
            r == end_of_stream(self@),
    {
        match self.phase {
            Phase::Closed => Ok(()),
            Phase::Failed(e) => Err(e),
            _ => Err(ScanError::Truncated),
        }
    }

    /// The bytes of the current element read so far.
    pub fn pending(&self) -> (r: Vec<u8>)
        ensures
            r@ == self@.buf,
    {
        let r = self.buf.clone();
        assert(r@ =~= self.buf@);
        r
    }

    /// The largest number of bytes an element may have.
    pub fn max_element(&self) -> (r: usize)
        ensures
            r == self@.max,
    {
        self.max
    }
}

} // verus!
