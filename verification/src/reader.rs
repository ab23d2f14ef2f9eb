//! Reading one response: the bytes that have arrived so far, and what the
//! parser makes of them each time more arrive.
//!
//! The bytes are kept as they arrive. A read may end anywhere, also in the
//! middle of a character; whether bytes are text is for the grammar to
//! say, of each string, once the string is whole.

use vstd::prelude::*;
use crate::error::{IoFailure, SieveError, SieveErrorView};
use crate::parser::grammar::Step;
use crate::parser::stable::{kept, stable};
use crate::parser::ParseResult;

verus! {

/// What the bytes that have arrived so far amount to.
#[derive(Debug, PartialEq)]
pub enum Parsed<T> {
    /// Less than a response: more bytes are needed.
    Incomplete,
    /// Exactly one response, with nothing after it.
    Success(T),
    /// Nothing that more bytes could turn into a response.
    SyntaxError,
}

/// Mathematical value of a [`Parsed`].
pub ghost enum ParsedView<T> {
    Incomplete,
    Success(T),
    SyntaxError,
}

impl<T: DeepView> View for Parsed<T> {
    type V = ParsedView<T::V>;

    open spec fn view(&self) -> ParsedView<T::V> {
        match self {
            Parsed::Incomplete => ParsedView::Incomplete,
            Parsed::Success(value) => ParsedView::Success(value.deep_view()),
            Parsed::SyntaxError => ParsedView::SyntaxError,
        }
    }
}

/// What the outcome of parsing from the start of a buffer of `len` bytes
/// amounts to: a value counts only where it takes up the whole buffer.
pub open spec fn whole<T>(step: Step<T>, len: int) -> ParsedView<T> {
    match step {
        Step::Incomplete => ParsedView::Incomplete,
        Step::Fail => ParsedView::SyntaxError,
        Step::Done(value, end) => if end == len {
            ParsedView::Success(value)
        } else {
            ParsedView::SyntaxError
        },
    }
}

/// The same, of the outcome as the parser hands it back.
pub open spec fn settled<T>(result: ParseResult<T>, len: int) -> Parsed<T> {
    match result {
        ParseResult::Incomplete => Parsed::Incomplete,
        ParseResult::Error => Parsed::SyntaxError,
        ParseResult::Success(value, end) => if end == len {
            Parsed::Success(value)
        } else {
            Parsed::SyntaxError
        },
    }
}

/// Says what the outcome of parsing a buffer of `len` bytes amounts to.
pub fn complete<T>(result: ParseResult<T>, len: usize) -> (parsed: Parsed<T>)
    ensures
        parsed == settled(result, len as int),
{
    match result {
        ParseResult::Incomplete => Parsed::Incomplete,
        ParseResult::Error => Parsed::SyntaxError,
        ParseResult::Success(value, end) => if end == len {
            Parsed::Success(value)
        } else {
            Parsed::SyntaxError
        },
    }
}

/// What an outcome amounts to has the value of what the value of the
/// outcome amounts to.
pub proof fn lemma_settled_view<T: DeepView>(result: ParseResult<T>, len: int)
    ensures
        settled(result, len)@ == whole(result@, len),
{
}

/// A response is awaited until it is whole: where the bytes of a whole
/// response arrive cut in any way, all that has arrived before the last of
/// them is less than a response, so nothing is handed back early.
pub proof fn law_whole_response_is_awaited<T>(
    grammar: spec_fn(Seq<u8>, int) -> Step<T>,
    response: Seq<u8>,
    arrived: Seq<u8>,
)
    requires
        stable(grammar),
        arrived.is_prefix_of(response),
        arrived.len() < response.len(),
        whole(grammar(response, 0), response.len() as int) is Success,
    ensures
        whole(grammar(arrived, 0), arrived.len() as int) is Incomplete,
{
    assert(kept(grammar(arrived, 0), grammar(response, 0), 0, arrived.len() as int));
}

/// Bytes after a response are a breach of the grammar: where the bytes
/// that have arrived begin with one whole response and go on, they are no
/// response.
pub proof fn law_bytes_after_a_response_are_a_breach<T>(
    grammar: spec_fn(Seq<u8>, int) -> Step<T>,
    response: Seq<u8>,
    arrived: Seq<u8>,
)
    requires
        stable(grammar),
        response.is_prefix_of(arrived),
        response.len() < arrived.len(),
        whole(grammar(response, 0), response.len() as int) is Success,
    ensures
        whole(grammar(arrived, 0), arrived.len() as int) is SyntaxError,
{
    assert(kept(grammar(response, 0), grammar(arrived, 0), 0, response.len() as int));
}

/// A breach of the grammar is final: where the bytes that have arrived
/// are none that more bytes could turn into a response, no bytes that
/// arrive later change that.
pub proof fn law_syntax_error_is_final<T>(
    grammar: spec_fn(Seq<u8>, int) -> Step<T>,
    arrived: Seq<u8>,
    later: Seq<u8>,
)
    requires
        stable(grammar),
        arrived.is_prefix_of(later),
        whole(grammar(arrived, 0), arrived.len() as int) is SyntaxError,
    ensures
        whole(grammar(later, 0), later.len() as int) is SyntaxError,
{
    assert(kept(grammar(arrived, 0), grammar(later, 0), 0, arrived.len() as int));
}

/// The bytes of a response that have arrived so far.
#[derive(Debug, PartialEq, Eq, Clone)]
pub struct ResponseBuffer {
    bytes: Vec<u8>,
}

impl View for ResponseBuffer {
    type V = Seq<u8>;

    closed spec fn view(&self) -> Seq<u8> {
        self.bytes@
    }
}

/// What a chunk of bytes from the transport does to the bytes that came
/// before: an empty chunk means that the server has closed the transport,
/// and any other is appended, whatever bytes it holds.
pub open spec fn received(before: Seq<u8>, chunk: Seq<u8>) -> Result<Seq<u8>, IoFailure> {
    if chunk.len() == 0 {
        Err(IoFailure::UnexpectedEof)
    } else {
        Ok(before + chunk)
    }
}

/// Where the reads cut the bytes does not matter to what has arrived: two
/// chunks one after the other leave the buffer as the two in one chunk do.
pub proof fn law_cutting_does_not_matter(before: Seq<u8>, first: Seq<u8>, second: Seq<u8>)
    requires
        first.len() > 0,
        second.len() > 0,
    ensures
        received(before, first) is Ok,
        received(received(before, first)->Ok_0, second) == received(before, first + second),
{
    assert((before + first) + second =~= before + (first + second));
}

/// What the reader hands back for the outcome of parsing all `len` bytes
/// that have arrived: nothing where more are needed, the value where it
/// takes up all of them, and a breach of the grammar otherwise.
pub open spec fn read<T>(parsed: ParseResult<T>, len: int) -> Option<Result<T, SieveError>> {
    match settled(parsed, len) {
        Parsed::Incomplete => None,
        Parsed::Success(value) => Some(Ok(value)),
        Parsed::SyntaxError => Some(Err(SieveError::Syntax)),
    }
}

/// `result` is what the reader hands back for some outcome that `parser`
/// may have for the bytes `bytes`.
pub open spec fn reads<T, P: Fn(&[u8], usize) -> ParseResult<T>>(
    parser: P,
    bytes: Seq<u8>,
    result: Option<Result<T, SieveError>>,
) -> bool {
    exists|input: &[u8], parsed: ParseResult<T>|
        input@ == bytes && #[trigger] parser.ensures((input, 0usize), parsed) && result == read(
            parsed,
            bytes.len() as int,
        )
}

impl ResponseBuffer {
    /// A buffer into which nothing has arrived.
    pub fn new() -> (buffer: ResponseBuffer)
        ensures
            buffer@ == Seq::<u8>::empty(),
    {
        ResponseBuffer { bytes: Vec::new() }
    }

    /// The bytes that have arrived.
    pub fn bytes(&self) -> (bytes: &[u8])
        ensures
            bytes@ == self@,
    {
        self.bytes.as_slice()
    }

    /// Takes in a chunk of bytes that the transport delivered. Every chunk
    /// but the empty one is appended as it is.
    pub fn push(&mut self, chunk: &[u8]) -> (result: Result<(), SieveError>)
        ensures
            match result {
                Ok(_) => received(old(self)@, chunk@) == Ok::<Seq<u8>, IoFailure>(final(self)@),
                Err(error) => received(old(self)@, chunk@) is Err && error@ == SieveErrorView::Io(
                    received(old(self)@, chunk@)->Err_0,
                ) && final(self)@ == old(self)@,
            },
    {
        if chunk.len() == 0 {
            Err(SieveError::Io(IoFailure::UnexpectedEof))
        } else {
            let mut k: usize = 0;
            while k < chunk.len()
                invariant
                    k <= chunk.len(),
                    self.bytes@ == old(self).bytes@ + chunk@.take(k as int),
                decreases chunk.len() - k,
            {
                self.bytes.push(chunk[k]);
                assert(chunk@.take(k + 1) =~= chunk@.take(k as int).push(chunk@[k as int]));
                assert(self.bytes@ =~= old(self).bytes@ + chunk@.take(k + 1));
                k += 1;
            }
            assert(chunk@.take(k as int) =~= chunk@);
            Ok(())
        }
    }

    /// Takes in a chunk of bytes and has `parser` read all that has
    /// arrived. Hands back nothing where more bytes are needed, the value
    /// where the bytes are exactly one response, and the end of the session
    /// otherwise.
    pub fn next_response<T, P: Fn(&[u8], usize) -> ParseResult<T>>(
        &mut self,
        chunk: &[u8],
        parser: P,
    ) -> (result: Option<Result<T, SieveError>>)
        requires
            forall|input: &[u8]| #[trigger] parser.requires((input, 0usize)),
        ensures
            match received(old(self)@, chunk@) {
                Err(failure) => result matches Some(Err(error)) && error@ == SieveErrorView::Io(
                    failure,
                ) && final(self)@ == old(self)@,
                Ok(bytes) => final(self)@ == bytes && reads(parser, bytes, result),
            },
    {
        match self.push(chunk) {
            Err(error) => Some(Err(error)),
            Ok(_) => {
                let input = self.bytes.as_slice();
                let parsed = parser(input, 0);
                let ghost outcome = parsed;
                let result = match complete(parsed, input.len()) {
                    Parsed::Incomplete => None,
                    Parsed::Success(value) => Some(Ok(value)),
                    Parsed::SyntaxError => Some(Err(SieveError::Syntax)),
                };
                assert(parser.ensures((input, 0usize), outcome) && result == read(
                    outcome,
                    self@.len() as int,
                ));
                result
            },
        }
    }
}

} // verus!
