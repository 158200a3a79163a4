//! The parser contract, and the primitive parsers built on it: a single
//! character, a choice between two parsers and a sequence of two.

pub mod error;

use vstd::prelude::*;
use crate::error::{Errors, ErrorsView, Entry, Info, InfoView, ParseResult, TrackedError};
use crate::stream::{Input, InputView};

verus! {

/// Whether a parse starts fresh or continues from saved progress.
#[derive(PartialEq, Eq, Structural, Clone, Copy, Debug)]
pub enum ParseMode {
    FirstAttempt,
    Resume,
}

/// The model of what a parse yields: its result, the stream after it and the
/// saved progress after it.
pub type Outcome<T, S> = (ParseResult<T, ErrorsView>, InputView, S);

/// The consumption law of one parse from `before` to `after`: the text is
/// untouched, a success that consumed nothing leaves the cursor where it was,
/// and one that consumed input moved it forward.
pub open spec fn consumption_agrees<T>(r: ParseResult<T, ErrorsView>, before: InputView, after: InputView) -> bool {
    &&& after.text == before.text
    &&& r is EmptyOk ==> after.position == before.position
    &&& r is ConsumedOk ==> after.position > before.position
}

/// `a` begins with every entry of `b`, in order, and holds as many or more.
pub open spec fn extends(a: TrackedError<ErrorsView>, b: TrackedError<ErrorsView>) -> bool {
    &&& b.error.entries.len() <= a.error.entries.len()
    &&& a.error.entries.subrange(0, b.error.entries.len() as int) == b.error.entries
}

/// A parsing step.
///
/// `parse_spec` and `lazy_spec` say what a parse yields; `add_error_spec` and
/// `add_consumed_expected_error_spec` say what the parser contributes to an
/// error once that error is reported. A parser keeps no state of its own
/// between calls: progress lives in its `PartialState`.
pub trait Parser: Sized {
    type Output;
    type PartialState;

    spec fn parse_spec(&self, mode: ParseMode, input: InputView, state: Self::PartialState) -> Outcome<
        Self::Output,
        Self::PartialState,
    >;

    spec fn lazy_spec(&self, input: InputView) -> (ParseResult<Self::Output, ErrorsView>, InputView);

    spec fn add_error_spec(&self, errors: TrackedError<ErrorsView>) -> TrackedError<ErrorsView>;

    spec fn add_consumed_expected_error_spec(&self, errors: TrackedError<ErrorsView>) -> TrackedError<
        ErrorsView,
    >;

    /// The contributions only ever append to an error.
    proof fn lemma_contributions_append(&self, errors: TrackedError<ErrorsView>)
        ensures
            extends(self.add_error_spec(errors), errors),
            extends(self.add_consumed_expected_error_spec(errors), errors),
    ;

    /// The fast path stands in for a first attempt, whatever progress was
    /// saved: it yields the same result and leaves the stream in the same place.
    proof fn lemma_lazy_is_first_attempt(&self, input: InputView, state: Self::PartialState)
        ensures
            self.lazy_spec(input).0 == self.parse_spec(ParseMode::FirstAttempt, input, state).0,
            self.lazy_spec(input).1 == self.parse_spec(ParseMode::FirstAttempt, input, state).1,
    ;

    /// The fast path: a first attempt with no saved progress.
    fn parse_lazy(&mut self, input: &mut Input) -> (r: ParseResult<Self::Output, Errors>)
        requires
            old(input).wf(),
        ensures
            *final(self) == *old(self),
            final(input).wf(),
            (r@, final(input)@) == old(self).lazy_spec(old(input)@),
            consumption_agrees(r@, old(input)@, final(input)@),
    ;

    /// A parse in `mode`, starting from or saving progress in `state`.
    fn parse_mode(&mut self, mode: ParseMode, input: &mut Input, state: &mut Self::PartialState) -> (r:
        ParseResult<Self::Output, Errors>)
        requires
            old(input).wf(),
        ensures
            *final(self) == *old(self),
            final(input).wf(),
            (r@, final(input)@, *final(state)) == old(self).parse_spec(mode, old(input)@, *old(state)),
            consumption_agrees(r@, old(input)@, final(input)@),
    ;

    /// Adds this parser's contribution to an empty failure that it produced and
    /// that is being reported.
    fn add_error(&mut self, errors: &mut TrackedError<Errors>)
        ensures
            *final(self) == *old(self),
            final(errors)@ == old(self).add_error_spec(old(errors)@),
    ;

    /// Adds this parser's expected-entries to an error that already reflects
    /// consumed input.
    fn add_consumed_expected_error(&mut self, errors: &mut TrackedError<Errors>)
        ensures
            *final(self) == *old(self),
            final(errors)@ == old(self).add_consumed_expected_error_spec(old(errors)@),
    ;
}

/// Parses the one character `c`.
#[derive(Clone)]
pub struct Token {
    pub c: char,
}

/// Parses the character `c`.
pub fn token(c: char) -> (r: Token)
    ensures
        r.c == c,
{
    Token { c }
}

impl Token {
    pub open spec fn spec_lazy(&self, input: InputView) -> (ParseResult<char, ErrorsView>, InputView) {
        if input.position < input.text.len() && input.text[input.position as int] == self.c {
            (ParseResult::ConsumedOk(self.c), InputView { text: input.text, position: input.position + 1 })
        } else {
            (
                ParseResult::EmptyErr(
                    TrackedError {
                        error: ErrorsView { position: input.position, entries: Seq::empty() },
                        offset: 0u8,
                    },
                ),
                input,
            )
        }
    }

    pub open spec fn spec_add_error(&self, errors: TrackedError<ErrorsView>) -> TrackedError<ErrorsView> {
        TrackedError { error: errors.error.add(Entry::Expected(InfoView::Token(self.c))), offset: errors.offset }
    }
}

impl Parser for Token {
    type Output = char;
    type PartialState = ();

    open spec fn parse_spec(&self, mode: ParseMode, input: InputView, state: ()) -> Outcome<char, ()> {
        (self.spec_lazy(input).0, self.spec_lazy(input).1, state)
    }

    open spec fn lazy_spec(&self, input: InputView) -> (ParseResult<char, ErrorsView>, InputView) {
        self.spec_lazy(input)
    }

    open spec fn add_error_spec(&self, errors: TrackedError<ErrorsView>) -> TrackedError<ErrorsView> {
        self.spec_add_error(errors)
    }

    open spec fn add_consumed_expected_error_spec(&self, errors: TrackedError<ErrorsView>) -> TrackedError<
        ErrorsView,
    > {
        errors
    }

    proof fn lemma_contributions_append(&self, errors: TrackedError<ErrorsView>) {
        let a = self.add_error_spec(errors);
        assert(a.error.entries.subrange(0, errors.error.entries.len() as int) =~= errors.error.entries);
        assert(errors.error.entries.subrange(0, errors.error.entries.len() as int) =~= errors.error.entries);
    }

    proof fn lemma_lazy_is_first_attempt(&self, input: InputView, state: ()) {
    }

    fn parse_lazy(&mut self, input: &mut Input) -> (r: ParseResult<char, Errors>) {
        let start = input.position();
        let err = input.empty_error();
        match input.uncons() {
            Some(c) => {
                if c == self.c {
                    return ParseResult::ConsumedOk(c);
                }
                input.reset(start);
            },
            None => {},
        }
        ParseResult::EmptyErr(TrackedError::new(err))
    }

    fn parse_mode(&mut self, mode: ParseMode, input: &mut Input, state: &mut ()) -> (r: ParseResult<char, Errors>) {
        self.parse_lazy(input)
    }

    fn add_error(&mut self, errors: &mut TrackedError<Errors>) {
        errors.error.add_expected(Info::Token(self.c));
    }

    fn add_consumed_expected_error(&mut self, errors: &mut TrackedError<Errors>) {
    }
}

/// The failure that a choice reports when both alternatives failed without
/// consuming: the one that reached further, or both merged where they reached
/// equally far.
pub open spec fn furthest(t1: TrackedError<ErrorsView>, t2: TrackedError<ErrorsView>) -> TrackedError<ErrorsView> {
    if t1.error.position > t2.error.position {
        t1
    } else if t2.error.position > t1.error.position {
        t2
    } else {
        TrackedError {
            error: ErrorsView { position: t1.error.position, entries: t1.error.entries + t2.error.entries },
            offset: t2.offset,
        }
    }
}

/// Merges the failures of two alternatives, keeping the one that reached
/// further, or both where they reached equally far.
pub fn merge_furthest(t1: TrackedError<Errors>, t2: TrackedError<Errors>) -> (r: TrackedError<Errors>)
    ensures
        r@ == furthest(t1@, t2@),
{
    if t1.error.position > t2.error.position {
        t1
    } else if t2.error.position > t1.error.position {
        t2
    } else {
        let TrackedError { error: mut e1, offset: _ } = t1;
        let TrackedError { error: mut e2, offset } = t2;
        let ghost v1 = e1@.entries;
        let ghost v2 = e2@.entries;
        e1.entries.append(&mut e2.entries);
        assert(e1@.entries =~= v1 + v2);
        TrackedError { error: e1, offset }
    }
}

/// The offset `offset` with the decision `tag` of one more choice recorded on
/// top, in base four: 1 for the first alternative, 2 for the second. Where no
/// room is left the record is dropped, and 0 asks both alternatives.
pub open spec fn record(offset: u8, tag: u8) -> u8 {
    if offset < 64 {
        (offset * 4 + tag) as u8
    } else {
        0
    }
}

/// The failure that a choice between two parsers returns when both failed
/// without consuming: the one that reached further, with the choice's
/// decision recorded, or both merged where they reached equally far.
pub open spec fn or_failure(t1: TrackedError<ErrorsView>, t2: TrackedError<ErrorsView>) -> TrackedError<ErrorsView> {
    if t1.error.position > t2.error.position {
        TrackedError { error: t1.error, offset: record(t1.offset, 1) }
    } else if t2.error.position > t1.error.position {
        TrackedError { error: t2.error, offset: record(t2.offset, 2) }
    } else {
        TrackedError {
            error: ErrorsView { position: t1.error.position, entries: t1.error.entries + t2.error.entries },
            offset: 0,
        }
    }
}

fn record_choice(offset: u8, tag: u8) -> (r: u8)
    requires
        tag < 4,
    ensures
        r == record(offset, tag),
{
    if offset < 64 {
        offset * 4 + tag
    } else {
        0
    }
}

fn or_merge(t1: TrackedError<Errors>, t2: TrackedError<Errors>) -> (r: TrackedError<Errors>)
    ensures
        r@ == or_failure(t1@, t2@),
{
    if t1.error.position > t2.error.position {
        let offset = record_choice(t1.offset, 1);
        TrackedError { error: t1.error, offset }
    } else if t2.error.position > t1.error.position {
        let offset = record_choice(t2.offset, 2);
        TrackedError { error: t2.error, offset }
    } else {
        let mut m = merge_furthest(t1, t2);
        m.offset = 0;
        m
    }
}

/// `errors` with the topmost recorded decision taken off its offset.
pub open spec fn popped(errors: TrackedError<ErrorsView>) -> TrackedError<ErrorsView> {
    TrackedError { error: errors.error, offset: (errors.offset / 4) as u8 }
}

/// Tries `P`, and `Q` only where `P` failed without consuming input. Where both
/// fail empty, the failure that reached further is kept and the choice records
/// which alternative it came from in the offset; a reported failure then asks
/// only that alternative for its contribution. At a tie both failures are
/// merged and both alternatives are asked.
#[derive(Clone)]
pub struct Or<P, Q>(pub P, pub Q);

/// Tries `p`, then `q` where `p` failed without consuming input.
pub fn or<P: Parser, Q: Parser<Output = P::Output>>(p: P, q: Q) -> (r: Or<P, Q>)
    ensures
        r.0 == p,
        r.1 == q,
{
    Or(p, q)
}

impl<P: Parser, Q: Parser<Output = P::Output>> Parser for Or<P, Q> {
    type Output = P::Output;
    type PartialState = (P::PartialState, Q::PartialState);

    open spec fn parse_spec(&self, mode: ParseMode, input: InputView, state: Self::PartialState) -> Outcome<
        P::Output,
        Self::PartialState,
    > {
        let o1 = self.0.parse_spec(mode, input, state.0);
        match o1.0 {
            ParseResult::EmptyErr(t1) => {
                let o2 = self.1.parse_spec(mode, input, state.1);
                match o2.0 {
                    ParseResult::EmptyErr(t2) => (ParseResult::EmptyErr(or_failure(t1, t2)), o2.1, (o1.2, o2.2)),
                    _ => (o2.0, o2.1, (o1.2, o2.2)),
                }
            },
            _ => (o1.0, o1.1, (o1.2, state.1)),
        }
    }

    open spec fn lazy_spec(&self, input: InputView) -> (ParseResult<P::Output, ErrorsView>, InputView) {
        let o1 = self.0.lazy_spec(input);
        match o1.0 {
            ParseResult::EmptyErr(t1) => {
                let o2 = self.1.lazy_spec(input);
                match o2.0 {
                    ParseResult::EmptyErr(t2) => (ParseResult::EmptyErr(or_failure(t1, t2)), o2.1),
                    _ => o2,
                }
            },
            _ => o1,
        }
    }

    /// Only the alternative recorded on top of the offset is asked, or both
    /// where none is; each sees the offset its own failure had.
    open spec fn add_error_spec(&self, errors: TrackedError<ErrorsView>) -> TrackedError<ErrorsView> {
        let e = popped(errors);
        if errors.offset % 4 == 1 {
            self.0.add_error_spec(e)
        } else if errors.offset % 4 == 2 {
            self.1.add_error_spec(e)
        } else {
            self.1.add_error_spec(self.0.add_error_spec(e))
        }
    }

    open spec fn add_consumed_expected_error_spec(&self, errors: TrackedError<ErrorsView>) -> TrackedError<
        ErrorsView,
    > {
        self.1.add_consumed_expected_error_spec(self.0.add_consumed_expected_error_spec(errors))
    }

    proof fn lemma_contributions_append(&self, errors: TrackedError<ErrorsView>) {
        let e = popped(errors);
        self.0.lemma_contributions_append(e);
        self.1.lemma_contributions_append(e);
        self.0.lemma_contributions_append(errors);
        let a = self.0.add_error_spec(e);
        let c = self.0.add_consumed_expected_error_spec(errors);
        self.1.lemma_contributions_append(a);
        self.1.lemma_contributions_append(c);
        let n = errors.error.entries.len() as int;
        let b = self.1.add_error_spec(a);
        assert(b.error.entries.subrange(0, n) =~= b.error.entries.subrange(0, a.error.entries.len() as int).subrange(0, n));
        let d = self.1.add_consumed_expected_error_spec(c);
        assert(d.error.entries.subrange(0, n) =~= d.error.entries.subrange(0, c.error.entries.len() as int).subrange(0, n));
    }

    proof fn lemma_lazy_is_first_attempt(&self, input: InputView, state: Self::PartialState) {
        self.0.lemma_lazy_is_first_attempt(input, state.0);
        self.1.lemma_lazy_is_first_attempt(input, state.1);
    }

    fn parse_lazy(&mut self, input: &mut Input) -> (r: ParseResult<P::Output, Errors>) {
        let start = input.position();
        match self.0.parse_lazy(input) {
            ParseResult::EmptyErr(t1) => {
                input.reset(start);
                match self.1.parse_lazy(input) {
                    ParseResult::EmptyErr(t2) => ParseResult::EmptyErr(or_merge(t1, t2)),
                    r => r,
                }
            },
            r => r,
        }
    }

    fn parse_mode(&mut self, mode: ParseMode, input: &mut Input, state: &mut Self::PartialState) -> (r:
        ParseResult<P::Output, Errors>) {
        let start = input.position();
        match self.0.parse_mode(mode, input, &mut state.0) {
            ParseResult::EmptyErr(t1) => {
                input.reset(start);
                match self.1.parse_mode(mode, input, &mut state.1) {
                    ParseResult::EmptyErr(t2) => ParseResult::EmptyErr(or_merge(t1, t2)),
                    r => r,
                }
            },
            r => r,
        }
    }

    fn add_error(&mut self, errors: &mut TrackedError<Errors>) {
        let tag = errors.offset % 4;
        errors.offset = errors.offset / 4;
        if tag == 1 {
            self.0.add_error(errors);
        } else if tag == 2 {
            self.1.add_error(errors);
        } else {
            self.0.add_error(errors);
            self.1.add_error(errors);
        }
    }

    fn add_consumed_expected_error(&mut self, errors: &mut TrackedError<Errors>) {
        self.0.add_consumed_expected_error(errors);
        self.1.add_consumed_expected_error(errors);
    }
}

/// Parses `P` and then `Q`, yielding both values.
#[derive(Clone)]
pub struct Pair<P, Q>(pub P, pub Q);

/// Parses `p` and then `q`.
pub fn pair<P: Parser, Q: Parser>(p: P, q: Q) -> (r: Pair<P, Q>)
    ensures
        r.0 == p,
        r.1 == q,
{
    Pair(p, q)
}

/// The result of a sequence whose first part succeeded with `first` and whose
/// second part then yielded `second`; `second_failure` is the error of an
/// empty failure of the second part once that part's contribution is added.
pub open spec fn sequenced<A, B>(
    first: ParseResult<A, ErrorsView>,
    second: ParseResult<B, ErrorsView>,
    second_failure: ErrorsView,
) -> ParseResult<(A, B), ErrorsView> {
    match first {
        ParseResult::EmptyOk(a) => match second {
            ParseResult::EmptyOk(b) => ParseResult::EmptyOk((a, b)),
            ParseResult::ConsumedOk(b) => ParseResult::ConsumedOk((a, b)),
            ParseResult::EmptyErr(t) => ParseResult::EmptyErr(t),
            ParseResult::ConsumedErr(e) => ParseResult::ConsumedErr(e),
        },
        ParseResult::ConsumedOk(a) => match second {
            ParseResult::EmptyOk(b) => ParseResult::ConsumedOk((a, b)),
            ParseResult::ConsumedOk(b) => ParseResult::ConsumedOk((a, b)),
            ParseResult::EmptyErr(_) => ParseResult::ConsumedErr(second_failure),
            ParseResult::ConsumedErr(e) => ParseResult::ConsumedErr(e),
        },
        ParseResult::EmptyErr(t) => ParseResult::EmptyErr(t),
        ParseResult::ConsumedErr(e) => ParseResult::ConsumedErr(e),
    }
}

impl<P: Parser, Q: Parser> Pair<P, Q> {
    /// The error of an empty failure `r` of the second part, completed by its
    /// contribution.
    pub open spec fn second_failure(&self, r: ParseResult<Q::Output, ErrorsView>) -> ErrorsView {
        match r {
            ParseResult::EmptyErr(t) => self.1.add_error_spec(t).error,
            _ => ErrorsView { position: 0, entries: Seq::empty() },
        }
    }

    /// Joins the results of the two parts. A failure of the second part after
    /// the first consumed input is committed, so its error is completed at
    /// once.
    fn join(&mut self, first: ParseResult<P::Output, Errors>, second: ParseResult<Q::Output, Errors>) -> (r:
        ParseResult<(P::Output, Q::Output), Errors>)
        requires
            !(first is EmptyErr || first is ConsumedErr),
        ensures
            *final(self) == *old(self),
            r@ == sequenced(first@, second@, old(self).second_failure(second@)),
    {
        match first {
            ParseResult::EmptyOk(a) => match second {
                ParseResult::EmptyOk(b) => ParseResult::EmptyOk((a, b)),
                ParseResult::ConsumedOk(b) => ParseResult::ConsumedOk((a, b)),
                ParseResult::EmptyErr(t) => ParseResult::EmptyErr(t),
                ParseResult::ConsumedErr(e) => ParseResult::ConsumedErr(e),
            },
            ParseResult::ConsumedOk(a) => match second {
                ParseResult::EmptyOk(b) => ParseResult::ConsumedOk((a, b)),
                ParseResult::ConsumedOk(b) => ParseResult::ConsumedOk((a, b)),
                ParseResult::EmptyErr(mut t) => {
                    self.1.add_error(&mut t);
                    ParseResult::ConsumedErr(t.error)
                },
                ParseResult::ConsumedErr(e) => ParseResult::ConsumedErr(e),
            },
            ParseResult::EmptyErr(t) => ParseResult::EmptyErr(t),
            ParseResult::ConsumedErr(e) => ParseResult::ConsumedErr(e),
        }
    }
}

impl<P: Parser, Q: Parser> Parser for Pair<P, Q> {
    type Output = (P::Output, Q::Output);
    type PartialState = (P::PartialState, Q::PartialState);

    open spec fn parse_spec(&self, mode: ParseMode, input: InputView, state: Self::PartialState) -> Outcome<
        Self::Output,
        Self::PartialState,
    > {
        let o1 = self.0.parse_spec(mode, input, state.0);
        match o1.0 {
            ParseResult::EmptyErr(t) => (ParseResult::EmptyErr(t), o1.1, (o1.2, state.1)),
            ParseResult::ConsumedErr(e) => (ParseResult::ConsumedErr(e), o1.1, (o1.2, state.1)),
            _ => {
                let o2 = self.1.parse_spec(mode, o1.1, state.1);
                (sequenced(o1.0, o2.0, self.second_failure(o2.0)), o2.1, (o1.2, o2.2))
            },
        }
    }

    open spec fn lazy_spec(&self, input: InputView) -> (ParseResult<Self::Output, ErrorsView>, InputView) {
        let o1 = self.0.lazy_spec(input);
        match o1.0 {
            ParseResult::EmptyErr(t) => (ParseResult::EmptyErr(t), o1.1),
            ParseResult::ConsumedErr(e) => (ParseResult::ConsumedErr(e), o1.1),
            _ => {
                let o2 = self.1.lazy_spec(o1.1);
                (sequenced(o1.0, o2.0, self.second_failure(o2.0)), o2.1)
            },
        }
    }

    /// An empty failure of a sequence is reported as one of its first part.
    open spec fn add_error_spec(&self, errors: TrackedError<ErrorsView>) -> TrackedError<ErrorsView> {
        self.0.add_error_spec(errors)
    }

    open spec fn add_consumed_expected_error_spec(&self, errors: TrackedError<ErrorsView>) -> TrackedError<
        ErrorsView,
    > {
        self.0.add_consumed_expected_error_spec(errors)
    }

    proof fn lemma_contributions_append(&self, errors: TrackedError<ErrorsView>) {
        self.0.lemma_contributions_append(errors);
    }

    proof fn lemma_lazy_is_first_attempt(&self, input: InputView, state: Self::PartialState) {
        self.0.lemma_lazy_is_first_attempt(input, state.0);
        let o1 = self.0.lazy_spec(input);
        self.1.lemma_lazy_is_first_attempt(o1.1, state.1);
    }

    fn parse_lazy(&mut self, input: &mut Input) -> (r: ParseResult<Self::Output, Errors>) {
        match self.0.parse_lazy(input) {
            ParseResult::EmptyErr(t) => ParseResult::EmptyErr(t),
            ParseResult::ConsumedErr(e) => ParseResult::ConsumedErr(e),
            first => {
                let second = self.1.parse_lazy(input);
                self.join(first, second)
            },
        }
    }

    fn parse_mode(&mut self, mode: ParseMode, input: &mut Input, state: &mut Self::PartialState) -> (r:
        ParseResult<Self::Output, Errors>) {
        match self.0.parse_mode(mode, input, &mut state.0) {
            ParseResult::EmptyErr(t) => ParseResult::EmptyErr(t),
            ParseResult::ConsumedErr(e) => ParseResult::ConsumedErr(e),
            first => {
                let second = self.1.parse_mode(mode, input, &mut state.1);
                self.join(first, second)
            },
        }
    }

    fn add_error(&mut self, errors: &mut TrackedError<Errors>) {
        self.0.add_error(errors);
    }

    fn add_consumed_expected_error(&mut self, errors: &mut TrackedError<Errors>) {
        self.0.add_consumed_expected_error(errors);
    }
}

} // verus!
