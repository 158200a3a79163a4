//! Choosing among alternatives: the first to commit wins; where all fail
//! without consuming, the failures that reached furthest are reported, and
//! only their parsers are asked for a contribution, once each.

use vstd::prelude::*;
use crate::error::{Errors, ErrorsView, ParseResult, TrackedError};
use crate::parser::{furthest, merge_furthest, Parser};
use crate::stream::{Input, InputView};

verus! {

/// The empty failure that alternative `i` returns on `input`.
pub open spec fn failure_of<P: Parser>(ps: Seq<P>, input: InputView, i: int) -> TrackedError<ErrorsView> {
    ps[i].lazy_spec(input).0->EmptyErr_0
}

/// Every alternative before `k` fails on `input` without consuming.
pub open spec fn all_fail_empty<P: Parser>(ps: Seq<P>, input: InputView, k: int) -> bool {
    forall|j: int| 0 <= j < k ==> (#[trigger] ps[j].lazy_spec(input)).0 is EmptyErr
}

/// The failure kept after comparing those of the first `k` alternatives.
pub open spec fn best_failure<P: Parser>(ps: Seq<P>, input: InputView, k: int) -> TrackedError<ErrorsView>
    decreases k,
{
    if k <= 1 {
        failure_of(ps, input, 0)
    } else {
        furthest(best_failure(ps, input, k - 1), failure_of(ps, input, k - 1))
    }
}

/// The alternatives among the first `k` whose failures were kept, in order.
pub open spec fn retained<P: Parser>(ps: Seq<P>, input: InputView, k: int) -> Seq<int>
    decreases k,
{
    if k <= 1 {
        seq![0]
    } else {
        let b = best_failure(ps, input, k - 1);
        let t = failure_of(ps, input, k - 1);
        if t.error.position > b.error.position {
            seq![k - 1]
        } else if t.error.position == b.error.position {
            retained(ps, input, k - 1).push(k - 1)
        } else {
            retained(ps, input, k - 1)
        }
    }
}

/// `errors` once the alternatives at `idx` have added their contributions,
/// in the order of `idx`, each once.
pub open spec fn contributions<P: Parser>(ps: Seq<P>, idx: Seq<int>, errors: TrackedError<ErrorsView>) -> TrackedError<ErrorsView>
    decreases idx.len(),
{
    if idx.len() == 0 {
        errors
    } else {
        ps[idx.last()].add_error_spec(contributions(ps, idx.drop_last(), errors))
    }
}

/// What a choice among `ps` on `input` yields: the outcome of the first
/// alternative that does not fail empty, with the stream after it; or, where
/// all fail empty, the kept failure completed by the retained alternatives.
/// With no alternatives it is an empty failure at the cursor, with no entry.
pub open spec fn choice_spec<P: Parser>(ps: Seq<P>, input: InputView) -> (Result<P::Output, ErrorsView>, InputView)
{
    choice_from(ps, input, 0)
}

/// What a choice among `ps` on `input` yields once the alternatives before `k`
/// have failed empty.
pub open spec fn choice_from<P: Parser>(ps: Seq<P>, input: InputView, k: int) -> (Result<P::Output, ErrorsView>, InputView)
    decreases ps.len() - k,
{
    if ps.len() == 0 {
        (Err(ErrorsView { position: input.position, entries: Seq::empty() }), input)
    } else if k >= ps.len() {
        (Err(contributions(ps, retained(ps, input, ps.len() as int), best_failure(ps, input, ps.len() as int)).error), input)
    } else {
        let o = ps[k].lazy_spec(input);
        match o.0 {
            ParseResult::EmptyErr(_) => choice_from(ps, input, k + 1),
            ParseResult::EmptyOk(x) => (Ok(x), o.1),
            ParseResult::ConsumedOk(x) => (Ok(x), o.1),
            ParseResult::ConsumedErr(e) => (Err(e), o.1),
        }
    }
}

proof fn lemma_retained_step<P: Parser>(ps: Seq<P>, input: InputView, k: int)
    requires
        k >= 1,
    ensures
        retained(ps, input, k).len() >= 1,
        forall|j: int| 0 <= j < retained(ps, input, k).len() ==> 0 <= #[trigger] retained(ps, input, k)[j] < k,
        forall|a: int, b: int| 0 <= a < b < retained(ps, input, k).len() ==> retained(ps, input, k)[a] < retained(ps, input, k)[b],
    decreases k,
{
    if k > 1 {
        lemma_retained_step(ps, input, k - 1);
    }
}

/// The laziness of a choice: where every alternative fails without consuming,
/// the reported error is the furthest failure completed by the contributions
/// of exactly the alternatives whose failures reached that far, each asked
/// once, in order; the others are never asked.
pub proof fn law_choice_asks_only_retained<P: Parser>(ps: Seq<P>, input: InputView)
    requires
        ps.len() >= 1,
        all_fail_empty(ps, input, ps.len() as int),
    ensures
        choice_spec(ps, input).0 == Err::<P::Output, ErrorsView>(
            contributions(ps, retained(ps, input, ps.len() as int), best_failure(ps, input, ps.len() as int)).error,
        ),
        forall|a: int, b: int|
            0 <= a < b < retained(ps, input, ps.len() as int).len() ==> retained(ps, input, ps.len() as int)[a]
                < retained(ps, input, ps.len() as int)[b],
        forall|j: int|
            0 <= j < ps.len() ==> (retained(ps, input, ps.len() as int).contains(j) <==> failure_of(ps, input, j).error.position
                == best_failure(ps, input, ps.len() as int).error.position),
{
    lemma_choice_from_all_fail(ps, input, 0);
    lemma_retained_step(ps, input, ps.len() as int);
    lemma_retained_are_furthest(ps, input, ps.len() as int);
}

proof fn lemma_choice_from_all_fail<P: Parser>(ps: Seq<P>, input: InputView, k: int)
    requires
        0 <= k <= ps.len(),
        all_fail_empty(ps, input, ps.len() as int),
    ensures
        choice_from(ps, input, k) == choice_from(ps, input, ps.len() as int),
    decreases ps.len() - k,
{
    if k < ps.len() {
        assert(ps[k].lazy_spec(input).0 is EmptyErr);
        lemma_choice_from_all_fail(ps, input, k + 1);
    }
}

proof fn lemma_retained_are_furthest<P: Parser>(ps: Seq<P>, input: InputView, k: int)
    requires
        k >= 1,
    ensures
        forall|j: int|
            0 <= j < k ==> (retained(ps, input, k).contains(j) <==> failure_of(ps, input, j).error.position
                == best_failure(ps, input, k).error.position),
        forall|j: int| 0 <= j < k ==> failure_of(ps, input, j).error.position <= best_failure(ps, input, k).error.position,
    decreases k,
{
    if k > 1 {
        lemma_retained_are_furthest(ps, input, k - 1);
        lemma_retained_step(ps, input, k - 1);
        let r = retained(ps, input, k - 1);
        let b = best_failure(ps, input, k - 1);
        let t = failure_of(ps, input, k - 1);
        let rk = retained(ps, input, k);
        let bk = best_failure(ps, input, k);
        assert forall|j: int| 0 <= j < k implies (rk.contains(j) <==> failure_of(ps, input, j).error.position
            == bk.error.position) by {
            let fj = failure_of(ps, input, j);
            if t.error.position > b.error.position {
                assert(rk == seq![k - 1]);
                assert(bk == t);
                if j < k - 1 {
                    assert(fj.error.position <= b.error.position);
                    if rk.contains(j) {
                        let w = choose|w: int| 0 <= w < rk.len() && #[trigger] rk[w] == j;
                        assert(rk[w] == k - 1);
                    }
                } else {
                    assert(rk[0] == j);
                }
            } else if t.error.position == b.error.position {
                assert(rk == r.push(k - 1));
                assert(bk.error.position == b.error.position);
                if j < k - 1 {
                    if r.contains(j) {
                        let w = choose|w: int| 0 <= w < r.len() && #[trigger] r[w] == j;
                        assert(rk[w] == j);
                    }
                    if rk.contains(j) {
                        let w = choose|w: int| 0 <= w < rk.len() && #[trigger] rk[w] == j;
                        if w < r.len() {
                            assert(r[w] == j);
                        }
                    }
                } else {
                    assert(rk[r.len() as int] == j);
                }
            } else {
                assert(rk == r);
                assert(bk == b);
                if j == k - 1 {
                    if r.contains(j) {
                        let w = choose|w: int| 0 <= w < r.len() && #[trigger] r[w] == j;
                        assert(r[w] < k - 1);
                    }
                }
            }
        }
    } else {
        assert(retained(ps, input, k)[0] == 0);
    }
}

proof fn lemma_choice_from_reaches<P: Parser>(ps: Seq<P>, input: InputView, j: int, k: int)
    requires
        0 <= j <= k <= ps.len(),
        all_fail_empty(ps, input, k),
    ensures
        choice_from(ps, input, j) == choice_from(ps, input, k),
    decreases k - j,
{
    if j < k {
        assert(ps[j].lazy_spec(input).0 is EmptyErr);
        lemma_choice_from_reaches(ps, input, j + 1, k);
    }
}

/// Commitment of a choice: once alternative `k` does anything but fail empty,
/// with all before it failing empty, its outcome is the choice's, and the
/// alternatives after it are never tried: any others in their place give the
/// same outcome.
pub proof fn law_choice_commits<P: Parser>(ps: Seq<P>, qs: Seq<P>, input: InputView, k: int)
    requires
        0 <= k < ps.len(),
        k < qs.len(),
        ps.subrange(0, k + 1) == qs.subrange(0, k + 1),
        all_fail_empty(ps, input, k),
        !(ps[k].lazy_spec(input).0 is EmptyErr),
    ensures
        choice_spec(ps, input) == choice_spec(qs, input),
        choice_spec(ps, input) == (match ps[k].lazy_spec(input).0 {
            ParseResult::EmptyOk(x) => Ok(x),
            ParseResult::ConsumedOk(x) => Ok(x),
            ParseResult::ConsumedErr(e) => Err(e),
            ParseResult::EmptyErr(t) => Err(t.error),
        }, ps[k].lazy_spec(input).1),
{
    lemma_choice_from_reaches(ps, input, 0, k);
    assert forall|j: int| 0 <= j < k implies (#[trigger] qs[j].lazy_spec(input)).0 is EmptyErr by {
        assert(ps.subrange(0, k + 1)[j] == ps[j]);
        assert(qs.subrange(0, k + 1)[j] == qs[j]);
        assert(ps[j].lazy_spec(input).0 is EmptyErr);
    }
    assert(ps.subrange(0, k + 1)[k] == qs.subrange(0, k + 1)[k]);
    assert(ps.subrange(0, k + 1)[k] == ps[k]);
    assert(qs.subrange(0, k + 1)[k] == qs[k]);
    assert(all_fail_empty(qs, input, k));
    lemma_choice_from_reaches(qs, input, 0, k);
    assert(choice_from(ps, input, k) == choice_from(qs, input, k));
}

/// Tries the alternatives in order from the same place of `input`. The first
/// that does not fail empty decides the outcome: the later ones are never
/// tried. Where all fail empty, their failures are compared as they come, the
/// furthest kept, and only the alternatives whose failures were kept are asked
/// for their contribution, once each. With no alternatives it fails empty at
/// the cursor, with no entry.
pub fn choice<P: Parser>(alternatives: &mut Vec<P>, input: &mut Input) -> (r: Result<P::Output, Errors>)
    requires
        old(input).wf(),
    ensures
        final(alternatives)@ == old(alternatives)@,
        final(input).wf(),
        match r {
            Ok(x) => choice_spec(old(alternatives)@, old(input)@) == (Ok::<P::Output, ErrorsView>(x), final(input)@),
            Err(e) => choice_spec(old(alternatives)@, old(input)@) == (Err::<P::Output, ErrorsView>(e@), final(input)@),
        },
{
    let ghost ps = alternatives@;
    let ghost start_view = input@;
    let n = alternatives.len();
    let start = input.position();
    let mut best: Option<TrackedError<Errors>> = None;
    let mut kept: Vec<usize> = Vec::new();
    let mut k: usize = 0;
    while k < n
        invariant
            0 <= k <= n,
            n == ps.len(),
            ps == old(alternatives)@,
            start_view == old(input)@,
            k == 0 ==> kept@.len() == 0,
            alternatives@ == ps,
            input.wf(),
            input@ == start_view,
            start == start_view.position,
            start <= start_view.text.len(),
            all_fail_empty(ps, start_view, k as int),
            k == 0 <==> best is None,
            k > 0 ==> best->Some_0@ == best_failure(ps, start_view, k as int),
            k > 0 ==> kept@.len() == retained(ps, start_view, k as int).len(),
            k > 0 ==> forall|j: int| 0 <= j < kept@.len() ==> kept@[j] as int == #[trigger] retained(ps, start_view, k as int)[j],
            choice_from(ps, start_view, 0) == choice_from(ps, start_view, k as int),
        decreases n - k,
    {
        let mut p = alternatives.remove(k);
        let outcome = p.parse_lazy(input);
        alternatives.insert(k, p);
        assert(alternatives@ =~= ps);
        match outcome {
            ParseResult::EmptyErr(t) => {
                input.reset(start);
                assert(input@ == start_view);
                let ghost tv = t@;
                assert(tv == failure_of(ps, start_view, k as int));
                match best {
                    None => {
                        best = Some(t);
                        kept.push(k);
                        assert(kept@.len() == 1);
                    },
                    Some(b) => {
                        let ghost bv = b@;
                        if t.error.position > b.error.position {
                            kept = Vec::new();
                            kept.push(k);
                        } else if t.error.position == b.error.position {
                            kept.push(k);
                        }
                        best = Some(merge_furthest(b, t));
                    },
                }
                proof {
                    assert forall|j: int| 0 <= j < k + 1 implies (#[trigger] ps[j].lazy_spec(start_view)).0 is EmptyErr by {
                        if j < k {
                            assert(all_fail_empty(ps, start_view, k as int));
                        }
                    }
                }
                k = k + 1;
            },
            ParseResult::EmptyOk(x) => {
                return Ok(x);
            },
            ParseResult::ConsumedOk(x) => {
                return Ok(x);
            },
            ParseResult::ConsumedErr(e) => {
                return Err(e);
            },
        }
    }
    let mut reported = match best {
        Some(b) => b,
        None => {
            return Err(input.empty_error());
        },
    };
    let ghost base = reported@;
    let ghost idx = retained(ps, start_view, n as int);
    proof {
        lemma_retained_step(ps, start_view, n as int);
    }
    let mut m: usize = 0;
    while m < kept.len()
        invariant
            0 <= m <= kept@.len(),
            kept@.len() == idx.len(),
            forall|j: int| 0 <= j < kept@.len() ==> kept@[j] as int == #[trigger] idx[j],
            forall|j: int| 0 <= j < idx.len() ==> 0 <= #[trigger] idx[j] < n,
            n == ps.len(),
            alternatives@ == ps,
            ps == old(alternatives)@,
            reported@ == contributions(ps, idx.subrange(0, m as int), base),
        decreases kept@.len() - m,
    {
        let i = kept[m];
        assert(idx[m as int] == i as int);
        let mut p = alternatives.remove(i);
        p.add_error(&mut reported);
        alternatives.insert(i, p);
        assert(alternatives@ =~= ps);
        assert(idx.subrange(0, m + 1).drop_last() =~= idx.subrange(0, m as int));
        m = m + 1;
    }
    assert(idx.subrange(0, idx.len() as int) =~= idx);
    Err(reported.error)
}

} // verus!
