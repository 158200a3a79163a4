//! Parsers which fail on purpose, or which rewrite the error that an inner
//! parser reports, without changing what it matches.

use vstd::prelude::*;
use core::marker::PhantomData;
use crate::error::{Entry, Errors, ErrorsView, Info, InfoView, ParseResult, StreamError, TrackedError};
use crate::parser::{Outcome, ParseMode, Parser};
use crate::stream::{Input, InputView};

verus! {

/// The placeholder error of an empty failure at `input`.
pub open spec fn empty_failure<T>(input: InputView) -> ParseResult<T, ErrorsView> {
    ParseResult::EmptyErr(
        TrackedError { error: ErrorsView { position: input.position, entries: Seq::empty() }, offset: 0u8 },
    )
}

/// `r` with the message `d` appended to its error if it failed after consuming
/// input; every other result unchanged.
pub open spec fn with_message<T>(r: ParseResult<T, ErrorsView>, d: InfoView) -> ParseResult<T, ErrorsView> {
    match r {
        ParseResult::ConsumedErr(e) => ParseResult::ConsumedErr(e.add(Entry::Message(d))),
        _ => r,
    }
}

/// `r` with every entry removed from its error, in both kinds of failure,
/// the position and offset kept; a success unchanged.
pub open spec fn silenced<T>(r: ParseResult<T, ErrorsView>) -> ParseResult<T, ErrorsView> {
    match r {
        ParseResult::EmptyErr(t) => ParseResult::EmptyErr(TrackedError { error: t.error.cleared(), offset: t.offset }),
        ParseResult::ConsumedErr(e) => ParseResult::ConsumedErr(e.cleared()),
        _ => r,
    }
}

/// Always fails, consuming nothing; a reported failure names the descriptor
/// as unexpected. `T` is the output type it pretends to have.
pub struct Unexpected<T>(pub Info, pub PhantomData<T>);

impl<T> Parser for Unexpected<T> {
    type Output = T;
    type PartialState = ();

    open spec fn parse_spec(&self, mode: ParseMode, input: InputView, state: ()) -> Outcome<T, ()> {
        (empty_failure(input), input, state)
    }

    open spec fn lazy_spec(&self, input: InputView) -> (ParseResult<T, ErrorsView>, InputView) {
        (empty_failure(input), input)
    }

    open spec fn add_error_spec(&self, errors: TrackedError<ErrorsView>) -> TrackedError<ErrorsView> {
        TrackedError { error: errors.error.add(Entry::Unexpected(self.0@)), offset: errors.offset }
    }

    open spec fn add_consumed_expected_error_spec(&self, errors: TrackedError<ErrorsView>) -> TrackedError<
        ErrorsView,
    > {
        errors
    }

    proof fn lemma_contributions_append(&self, errors: TrackedError<ErrorsView>) {
        let n = errors.error.entries.len() as int;
        assert(self.add_error_spec(errors).error.entries.subrange(0, n) =~= errors.error.entries);
        assert(errors.error.entries.subrange(0, n) =~= errors.error.entries);
    }

    proof fn lemma_lazy_is_first_attempt(&self, input: InputView, state: ()) {
    }

    fn parse_lazy(&mut self, input: &mut Input) -> (r: ParseResult<T, Errors>) {
        ParseResult::EmptyErr(TrackedError::new(input.empty_error()))
    }

    fn parse_mode(&mut self, mode: ParseMode, input: &mut Input, state: &mut ()) -> (r: ParseResult<T, Errors>) {
        self.parse_lazy(input)
    }

    fn add_error(&mut self, errors: &mut TrackedError<Errors>) {
        errors.error.add_unexpected(self.0.duplicate());
    }

    fn add_consumed_expected_error(&mut self, errors: &mut TrackedError<Errors>) {
    }
}

/// Always fails with `message` as an unexpected error, never consuming input.
/// Its output type is `()`.
pub fn unexpected(message: Info) -> (r: Unexpected<()>)
    ensures
        r.0@ == message@,
{
    unexpected_any(message)
}

/// Always fails with `message` as an unexpected error, never consuming input.
/// Its output type is whatever the surrounding parsers need.
pub fn unexpected_any<T>(message: Info) -> (r: Unexpected<T>)
    ensures
        r.0@ == message@,
{
    Unexpected(message, PhantomData)
}

/// Parses as `P` does; a reported failure carries the message as well.
#[derive(Clone)]
pub struct Message<P>(pub P, pub Info);

impl<P: Parser> Parser for Message<P> {
    type Output = P::Output;
    type PartialState = P::PartialState;

    open spec fn parse_spec(&self, mode: ParseMode, input: InputView, state: P::PartialState) -> Outcome<
        P::Output,
        P::PartialState,
    > {
        let o = self.0.parse_spec(mode, input, state);
        (with_message(o.0, self.1@), o.1, o.2)
    }

    open spec fn lazy_spec(&self, input: InputView) -> (ParseResult<P::Output, ErrorsView>, InputView) {
        let o = self.0.lazy_spec(input);
        (with_message(o.0, self.1@), o.1)
    }

    open spec fn add_error_spec(&self, errors: TrackedError<ErrorsView>) -> TrackedError<ErrorsView> {
        let inner = self.0.add_error_spec(errors);
        TrackedError { error: inner.error.add(Entry::Message(self.1@)), offset: inner.offset }
    }

    open spec fn add_consumed_expected_error_spec(&self, errors: TrackedError<ErrorsView>) -> TrackedError<
        ErrorsView,
    > {
        self.0.add_consumed_expected_error_spec(errors)
    }

    proof fn lemma_contributions_append(&self, errors: TrackedError<ErrorsView>) {
        self.0.lemma_contributions_append(errors);
        let n = errors.error.entries.len() as int;
        let inner = self.0.add_error_spec(errors);
        assert(self.add_error_spec(errors).error.entries.subrange(0, n) =~= inner.error.entries.subrange(0, n));
    }

    proof fn lemma_lazy_is_first_attempt(&self, input: InputView, state: P::PartialState) {
        self.0.lemma_lazy_is_first_attempt(input, state);
    }

    fn parse_lazy(&mut self, input: &mut Input) -> (r: ParseResult<P::Output, Errors>) {
        let r = self.0.parse_lazy(input);
        self.attach(r)
    }

    fn parse_mode(&mut self, mode: ParseMode, input: &mut Input, state: &mut P::PartialState) -> (r:
        ParseResult<P::Output, Errors>) {
        let r = self.0.parse_mode(mode, input, state);
        self.attach(r)
    }

    fn add_error(&mut self, errors: &mut TrackedError<Errors>) {
        self.0.add_error(errors);
        errors.error.add_message(self.1.duplicate());
    }

    fn add_consumed_expected_error(&mut self, errors: &mut TrackedError<Errors>) {
        self.0.add_consumed_expected_error(errors);
    }
}

impl<P: Parser> Message<P> {
    /// Appends the message to an error that followed consumed input, where the
    /// branch is already committed and deferring gains nothing; an empty
    /// failure gets the message later, in `add_error`, if it is reported.
    fn attach(&self, r: ParseResult<P::Output, Errors>) -> (o: ParseResult<P::Output, Errors>)
        ensures
            o@ == with_message(r@, self.1@),
    {
        match r {
            ParseResult::ConsumedOk(x) => ParseResult::ConsumedOk(x),
            ParseResult::EmptyOk(x) => ParseResult::EmptyOk(x),
            ParseResult::ConsumedErr(mut err) => {
                err.add_message(self.1.duplicate());
                ParseResult::ConsumedErr(err)
            },
            ParseResult::EmptyErr(err) => ParseResult::EmptyErr(err),
        }
    }
}

/// Parses `p`; a reported failure carries `msg` as a message too.
pub fn message<P: Parser>(p: P, msg: Info) -> (r: Message<P>)
    ensures
        r.0 == p,
        r.1@ == msg@,
{
    Message(p, msg)
}

/// Parses as `P` does; a reported empty failure names the label as the one
/// thing expected, in place of what `P` would have named.
#[derive(Clone)]
pub struct Expected<P>(pub P, pub Info);

impl<P: Parser> Parser for Expected<P> {
    type Output = P::Output;
    type PartialState = P::PartialState;

    open spec fn parse_spec(&self, mode: ParseMode, input: InputView, state: P::PartialState) -> Outcome<
        P::Output,
        P::PartialState,
    > {
        self.0.parse_spec(mode, input, state)
    }

    open spec fn lazy_spec(&self, input: InputView) -> (ParseResult<P::Output, ErrorsView>, InputView) {
        self.0.lazy_spec(input)
    }

    open spec fn add_error_spec(&self, errors: TrackedError<ErrorsView>) -> TrackedError<ErrorsView> {
        let inner = self.0.add_error_spec(errors);
        TrackedError {
            error: inner.error.set_expected(errors.error.entries.len() as int, Entry::Expected(self.1@)),
            offset: inner.offset,
        }
    }

    open spec fn add_consumed_expected_error_spec(&self, errors: TrackedError<ErrorsView>) -> TrackedError<
        ErrorsView,
    > {
        self.0.add_consumed_expected_error_spec(errors)
    }

    proof fn lemma_contributions_append(&self, errors: TrackedError<ErrorsView>) {
        self.0.lemma_contributions_append(errors);
        let n = errors.error.entries.len() as int;
        let inner = self.0.add_error_spec(errors);
        let s = inner.error.entries;
        assert(self.add_error_spec(errors).error.entries.subrange(0, n) =~= s.subrange(0, n));
    }

    proof fn lemma_lazy_is_first_attempt(&self, input: InputView, state: P::PartialState) {
        self.0.lemma_lazy_is_first_attempt(input, state);
    }

    fn parse_lazy(&mut self, input: &mut Input) -> (r: ParseResult<P::Output, Errors>) {
        self.0.parse_lazy(input)
    }

    fn parse_mode(&mut self, mode: ParseMode, input: &mut Input, state: &mut P::PartialState) -> (r:
        ParseResult<P::Output, Errors>) {
        self.0.parse_mode(mode, input, state)
    }

    fn add_error(&mut self, errors: &mut TrackedError<Errors>) {
        let start = errors.error.entries.len();
        self.0.add_error(errors);
        errors.error.set_expected(start, StreamError::expected(self.1.duplicate()));
    }

    fn add_consumed_expected_error(&mut self, errors: &mut TrackedError<Errors>) {
        self.0.add_consumed_expected_error(errors);
    }
}

/// Parses `p`; a reported empty failure expects `info` alone.
pub fn expected<P: Parser>(p: P, info: Info) -> (r: Expected<P>)
    ensures
        r.0 == p,
        r.1@ == info@,
{
    Expected(p, info)
}

/// Parses as `P` does; a failure loses every entry of its error, expected,
/// unexpected and message alike, and the parser never contributes to a
/// reported error.
#[derive(Clone)]
pub struct Silent<P>(pub P);

impl<P: Parser> Parser for Silent<P> {
    type Output = P::Output;
    type PartialState = P::PartialState;

    open spec fn parse_spec(&self, mode: ParseMode, input: InputView, state: P::PartialState) -> Outcome<
        P::Output,
        P::PartialState,
    > {
        let o = self.0.parse_spec(mode, input, state);
        (silenced(o.0), o.1, o.2)
    }

    open spec fn lazy_spec(&self, input: InputView) -> (ParseResult<P::Output, ErrorsView>, InputView) {
        let o = self.0.lazy_spec(input);
        (silenced(o.0), o.1)
    }

    open spec fn add_error_spec(&self, errors: TrackedError<ErrorsView>) -> TrackedError<ErrorsView> {
        errors
    }

    open spec fn add_consumed_expected_error_spec(&self, errors: TrackedError<ErrorsView>) -> TrackedError<
        ErrorsView,
    > {
        errors
    }

    proof fn lemma_contributions_append(&self, errors: TrackedError<ErrorsView>) {
        assert(errors.error.entries.subrange(0, errors.error.entries.len() as int) =~= errors.error.entries);
    }

    proof fn lemma_lazy_is_first_attempt(&self, input: InputView, state: P::PartialState) {
        self.0.lemma_lazy_is_first_attempt(input, state);
    }

    fn parse_lazy(&mut self, input: &mut Input) -> (r: ParseResult<P::Output, Errors>) {
        let r = self.0.parse_lazy(input);
        silence(r)
    }

    fn parse_mode(&mut self, mode: ParseMode, input: &mut Input, state: &mut P::PartialState) -> (r:
        ParseResult<P::Output, Errors>) {
        let r = self.0.parse_mode(mode, input, state);
        silence(r)
    }

    fn add_error(&mut self, errors: &mut TrackedError<Errors>) {
    }

    fn add_consumed_expected_error(&mut self, errors: &mut TrackedError<Errors>) {
    }
}

/// Removes every entry from the error of a failure.
fn silence<T>(r: ParseResult<T, Errors>) -> (o: ParseResult<T, Errors>)
    ensures
        o@ == silenced(r@),
{
    match r {
        ParseResult::EmptyErr(mut t) => {
            t.error.clear();
            ParseResult::EmptyErr(t)
        },
        ParseResult::ConsumedErr(mut e) => {
            e.clear();
            ParseResult::ConsumedErr(e)
        },
        ParseResult::EmptyOk(x) => ParseResult::EmptyOk(x),
        ParseResult::ConsumedOk(x) => ParseResult::ConsumedOk(x),
    }
}

/// Parses `p`, keeping its grammar out of every reported error.
pub fn silent<P: Parser>(p: P) -> (r: Silent<P>)
    ensures
        r.0 == p,
{
    Silent(p)
}

} // verus!
