//! What a reported error holds, and the laws that the combinators obey.

use vstd::prelude::*;
use crate::error::{
    Entry, Errors, ErrorsView, ParseResult, TrackedError, expected_entries, lemma_expected_entries_concat,
    lemma_without_expected_has_none, without_expected,
};
use crate::parser::{or_failure, popped, Or, ParseMode, Parser};
use crate::parser::error::{Expected, Message, Silent, Unexpected, empty_failure};
use crate::stream::{Input, InputView};

verus! {

/// The error that a failed first attempt of `p` on `input` reports: an empty
/// failure completed by `p`'s contribution, or the final error of a failure
/// after consumed input. `None` where the attempt succeeds.
pub open spec fn reported<P: Parser>(p: P, input: InputView) -> Option<ErrorsView> {
    match p.lazy_spec(input).0 {
        ParseResult::EmptyErr(t) => Some(p.add_error_spec(t).error),
        ParseResult::ConsumedErr(e) => Some(e),
        _ => None,
    }
}

/// Runs `p` on `input` and, where it fails, reports the error: an empty
/// failure gets `p`'s contribution at this point and no sooner.
pub fn easy_parse<P: Parser>(p: &mut P, input: &mut Input) -> (r: Result<P::Output, Errors>)
    requires
        old(input).wf(),
    ensures
        final(input).wf(),
        final(input)@ == old(p).lazy_spec(old(input)@).1,
        match old(p).lazy_spec(old(input)@).0 {
            ParseResult::EmptyOk(x) => r == Ok::<P::Output, Errors>(x),
            ParseResult::ConsumedOk(x) => r == Ok::<P::Output, Errors>(x),
            _ => r is Err && Some(r->Err_0@) == reported(*old(p), old(input)@),
        },
{
    match p.parse_lazy(input) {
        ParseResult::EmptyOk(x) => Ok(x),
        ParseResult::ConsumedOk(x) => Ok(x),
        ParseResult::EmptyErr(mut t) => {
            p.add_error(&mut t);
            Err(t.error)
        },
        ParseResult::ConsumedErr(e) => Err(e),
    }
}

/// `Unexpected` fails without consuming input, whatever the input, the mode
/// and the saved progress.
pub proof fn law_unexpected_fails_empty<T>(u: Unexpected<T>, mode: ParseMode, input: InputView, state: ())
    ensures
        u.parse_spec(mode, input, state).0 is EmptyErr,
        u.parse_spec(mode, input, state).1 == input,
        u.lazy_spec(input).0 is EmptyErr,
        u.lazy_spec(input).1 == input,
        reported(u, input) == Some(
            ErrorsView { position: input.position, entries: seq![Entry::Unexpected(u.0@)] },
        ),
{
    let t = TrackedError { error: ErrorsView { position: input.position, entries: Seq::<Entry>::empty() }, offset: 0u8 };
    assert(u.lazy_spec(input).0 == empty_failure::<T>(input));
    assert(t.error.add(Entry::Unexpected(u.0@)).entries =~= seq![Entry::Unexpected(u.0@)]);
}

/// `a` and `b` are the same kind of outcome, with the same value where they
/// succeed.
pub open spec fn same_match<T>(a: ParseResult<T, ErrorsView>, b: ParseResult<T, ErrorsView>) -> bool {
    &&& a is EmptyOk <==> b is EmptyOk
    &&& a is ConsumedOk <==> b is ConsumedOk
    &&& a is EmptyErr <==> b is EmptyErr
    &&& a is ConsumedErr <==> b is ConsumedErr
    &&& a is EmptyOk ==> a == b
    &&& a is ConsumedOk ==> a == b
}

/// `Message(p, d)` matches what `p` matches, leaves the stream and the saved
/// progress where `p` does, and succeeds or fails exactly when `p` does.
pub proof fn law_message_matches_as_inner<P: Parser>(
    m: Message<P>,
    mode: ParseMode,
    input: InputView,
    state: P::PartialState,
)
    ensures
        same_match(m.parse_spec(mode, input, state).0, m.0.parse_spec(mode, input, state).0),
        m.parse_spec(mode, input, state).1 == m.0.parse_spec(mode, input, state).1,
        m.parse_spec(mode, input, state).2 == m.0.parse_spec(mode, input, state).2,
        same_match(m.lazy_spec(input).0, m.0.lazy_spec(input).0),
        m.lazy_spec(input).1 == m.0.lazy_spec(input).1,
{
}

/// A failure of `Message(p, d)` after consumed input carries `d` as its last
/// entry as soon as it is returned, with no contribution asked for.
pub proof fn law_message_on_committed_failure<P: Parser>(m: Message<P>, input: InputView)
    requires
        m.0.lazy_spec(input).0 is ConsumedErr,
    ensures
        m.lazy_spec(input).0 is ConsumedErr,
        m.lazy_spec(input).0->ConsumedErr_0.entries == m.0.lazy_spec(input).0->ConsumedErr_0.entries.push(
            Entry::Message(m.1@),
        ),
{
}

/// Reporting an empty failure of `Expected(p, d)` names `d` as the one
/// expected thing, however many expected-entries `p`'s own contribution holds,
/// where the failure that `p` returned named nothing as expected.
pub proof fn law_expected_overrides_label<P: Parser>(e: Expected<P>, input: InputView)
    requires
        e.0.lazy_spec(input).0 is EmptyErr,
        expected_entries(e.0.lazy_spec(input).0->EmptyErr_0.error.entries).len() == 0,
    ensures
        reported(e, input) is Some,
        expected_entries(reported(e, input)->Some_0.entries) == seq![Entry::Expected(e.1@)],
{
    let t = e.0.lazy_spec(input).0->EmptyErr_0;
    let n = t.error.entries.len() as int;
    let inner = e.0.add_error_spec(t);
    e.0.lemma_contributions_append(t);
    let s = inner.error.entries;
    let kept = without_expected(s.subrange(n, s.len() as int));
    let label = Entry::Expected(e.1@);
    let out = e.add_error_spec(t).error.entries;
    assert(out == s.subrange(0, n) + kept + seq![label]);
    lemma_expected_entries_concat(s.subrange(0, n) + kept, seq![label]);
    lemma_expected_entries_concat(s.subrange(0, n), kept);
    lemma_without_expected_has_none(s.subrange(n, s.len() as int));
    assert(seq![label].drop_last() =~= Seq::<Entry>::empty());
    assert(seq![label].last() == label);
    assert(expected_entries(Seq::<Entry>::empty()) == Seq::<Entry>::empty());
    assert(expected_entries(seq![label]) =~= seq![label]);
    assert(expected_entries(out) =~= seq![label]);
}

/// `Silent(p)` contributes nothing to any error, and a reported failure of it
/// holds no entry at all, neither expected nor unexpected nor message, at the
/// position where `p` failed.
pub proof fn law_silent_suppresses<P: Parser>(s: Silent<P>, input: InputView, errors: TrackedError<ErrorsView>)
    ensures
        s.add_error_spec(errors) == errors,
        s.add_consumed_expected_error_spec(errors) == errors,
        reported(s, input) is Some ==> reported(s, input)->Some_0.entries.len() == 0,
        s.0.lazy_spec(input).0 matches ParseResult::EmptyErr(t) ==> reported(s, input) == Some(t.error.cleared()),
        s.0.lazy_spec(input).0 matches ParseResult::ConsumedErr(e) ==> reported(s, input) == Some(e.cleared()),
{
}

/// A choice between two parsers whose alternatives both fail without
/// consuming asks neither for its contribution while parsing. On reporting it
/// asks only the alternatives whose failures were kept: the one that reached
/// further, with the offset its failure had, or at a tie both, in order.
pub proof fn law_or_asks_only_kept<P: Parser, Q: Parser<Output = P::Output>>(c: Or<P, Q>, input: InputView)
    requires
        c.0.lazy_spec(input).0 is EmptyErr,
        c.1.lazy_spec(input).0 is EmptyErr,
    ensures
        ({
            let t1 = c.0.lazy_spec(input).0->EmptyErr_0;
            let t2 = c.1.lazy_spec(input).0->EmptyErr_0;
            &&& c.lazy_spec(input).0 == ParseResult::<P::Output, ErrorsView>::EmptyErr(or_failure(t1, t2))
            &&& t1.error.entries.len() == 0 && t2.error.entries.len() == 0 ==> c.lazy_spec(input).0->EmptyErr_0.error.entries.len() == 0
            &&& t1.error.position > t2.error.position && t1.offset < 64 ==> reported(c, input) == Some(c.0.add_error_spec(t1).error)
            &&& t2.error.position > t1.error.position && t2.offset < 64 ==> reported(c, input) == Some(c.1.add_error_spec(t2).error)
            &&& t1.error.position == t2.error.position ==> reported(c, input) == Some(
                c.1.add_error_spec(c.0.add_error_spec(or_failure(t1, t2))).error,
            )
        }),
{
    let t1 = c.0.lazy_spec(input).0->EmptyErr_0;
    let t2 = c.1.lazy_spec(input).0->EmptyErr_0;
    let f = or_failure(t1, t2);
    if t1.error.position > t2.error.position && t1.offset < 64 {
        assert(f.offset % 4 == 1);
        assert(popped(f) == t1);
    }
    if t2.error.position > t1.error.position && t2.offset < 64 {
        assert(f.offset % 4 == 2);
        assert(popped(f) == t2);
    }
    if t1.error.position == t2.error.position {
        assert(popped(f) == f);
    }
}

/// Once the first alternative of a choice consumes input, or succeeds, the
/// choice's outcome is that alternative's and the second is never tried: its
/// saved progress is left as it was.
pub proof fn law_or_commits<P: Parser, Q: Parser<Output = P::Output>>(
    c: Or<P, Q>,
    mode: ParseMode,
    input: InputView,
    state: (P::PartialState, Q::PartialState),
)
    requires
        !(c.0.parse_spec(mode, input, state.0).0 is EmptyErr),
    ensures
        c.parse_spec(mode, input, state) == (
            c.0.parse_spec(mode, input, state.0).0,
            c.0.parse_spec(mode, input, state.0).1,
            (c.0.parse_spec(mode, input, state.0).2, state.1),
        ),
{
}

} // verus!
