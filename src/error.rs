//! Descriptors, diagnostic entries, accumulated errors and parse results.

use vstd::prelude::*;

verus! {

/// A descriptor naming a token, a range of tokens or a label.
#[derive(Clone, Debug, PartialEq, Eq)]
pub enum Info {
    Token(char),
    Range(String),
    Owned(String),
}

/// The mathematical model of a descriptor.
pub enum InfoView {
    Token(char),
    Range(Seq<char>),
    Owned(Seq<char>),
}

impl View for Info {
    type V = InfoView;

    open spec fn view(&self) -> InfoView {
        match self {
            Info::Token(c) => InfoView::Token(*c),
            Info::Range(s) => InfoView::Range(s@),
            Info::Owned(s) => InfoView::Owned(s@),
        }
    }
}

impl Info {
    /// A label holding the text `s`.
    pub fn owned(s: &str) -> (r: Info)
        ensures
            r@ == InfoView::Owned(s@),
    {
        Info::Owned(String::from_str(s))
    }

    pub fn duplicate(&self) -> (r: Info)
        ensures
            r@ == self@,
    {
        match self {
            Info::Token(c) => Info::Token(*c),
            Info::Range(s) => Info::Range(s.clone()),
            Info::Owned(s) => Info::Owned(s.clone()),
        }
    }
}

/// One diagnostic entry of an error.
#[derive(Clone, Debug, PartialEq, Eq)]
pub enum StreamError {
    Unexpected(Info),
    Expected(Info),
    Message(Info),
}

/// The mathematical model of a diagnostic entry.
pub enum Entry {
    Unexpected(InfoView),
    Expected(InfoView),
    Message(InfoView),
}

impl View for StreamError {
    type V = Entry;

    open spec fn view(&self) -> Entry {
        match self {
            StreamError::Unexpected(i) => Entry::Unexpected(i@),
            StreamError::Expected(i) => Entry::Expected(i@),
            StreamError::Message(i) => Entry::Message(i@),
        }
    }
}

impl StreamError {
    pub fn unexpected(info: Info) -> (r: StreamError)
        ensures
            r@ == Entry::Unexpected(info@),
    {
        StreamError::Unexpected(info)
    }

    pub fn expected(info: Info) -> (r: StreamError)
        ensures
            r@ == Entry::Expected(info@),
    {
        StreamError::Expected(info)
    }

    pub fn message(info: Info) -> (r: StreamError)
        ensures
            r@ == Entry::Message(info@),
    {
        StreamError::Message(info)
    }

    pub fn is_expected(&self) -> (r: bool)
        ensures
            r == self@ is Expected,
    {
        match self {
            StreamError::Expected(_) => true,
            _ => false,
        }
    }
}

/// The mathematical model of an accumulated error: where it arose and its
/// entries, in the order in which they were added.
pub struct ErrorsView {
    pub position: nat,
    pub entries: Seq<Entry>,
}

/// The entries of `s` that are not expected-entries, in order.
pub open spec fn without_expected(s: Seq<Entry>) -> Seq<Entry>
    decreases s.len(),
{
    if s.len() == 0 {
        Seq::empty()
    } else if s.last() is Expected {
        without_expected(s.drop_last())
    } else {
        without_expected(s.drop_last()).push(s.last())
    }
}

/// The expected-entries of `s`, in order.
pub open spec fn expected_entries(s: Seq<Entry>) -> Seq<Entry>
    decreases s.len(),
{
    if s.len() == 0 {
        Seq::empty()
    } else if s.last() is Expected {
        expected_entries(s.drop_last()).push(s.last())
    } else {
        expected_entries(s.drop_last())
    }
}

/// The entries of `s` from index `start` on with the expected-entries among
/// them removed; those before `start` stay as they are.
pub open spec fn without_expected_from(s: Seq<Entry>, start: int) -> Seq<Entry> {
    if start <= s.len() {
        s.subrange(0, start) + without_expected(s.subrange(start, s.len() as int))
    } else {
        s
    }
}

/// The expected-entries of two sequences joined are those of each, joined.
pub proof fn lemma_expected_entries_concat(a: Seq<Entry>, b: Seq<Entry>)
    ensures
        expected_entries(a + b) == expected_entries(a) + expected_entries(b),
    decreases b.len(),
{
    if b.len() == 0 {
        assert(a + b =~= a);
        assert(expected_entries(a) + expected_entries(b) =~= expected_entries(a));
    } else {
        assert((a + b).drop_last() =~= a + b.drop_last());
        lemma_expected_entries_concat(a, b.drop_last());
        if b.last() is Expected {
            assert(expected_entries(a + b) =~= expected_entries(a) + expected_entries(b));
        } else {
            assert(expected_entries(a + b) =~= expected_entries(a) + expected_entries(b));
        }
    }
}

/// Once the expected-entries are removed, none is left.
pub proof fn lemma_without_expected_has_none(s: Seq<Entry>)
    ensures
        expected_entries(without_expected(s)).len() == 0,
    decreases s.len(),
{
    if s.len() > 0 {
        lemma_without_expected_has_none(s.drop_last());
        let w = without_expected(s.drop_last());
        if !(s.last() is Expected) {
            assert(w.push(s.last()).drop_last() =~= w);
        }
    }
}

impl ErrorsView {
    pub open spec fn add(self, e: Entry) -> ErrorsView {
        ErrorsView { position: self.position, entries: self.entries.push(e) }
    }

    /// The error at the same position with every entry removed.
    pub open spec fn cleared(self) -> ErrorsView {
        ErrorsView { position: self.position, entries: Seq::empty() }
    }

    pub open spec fn clear_expected(self) -> ErrorsView {
        ErrorsView { position: self.position, entries: without_expected(self.entries) }
    }

    /// Closes a label-override scope opened when the error held `start`
    /// entries: the expected-entries added since are dropped, the other entries
    /// stay, and `label` is appended.
    pub open spec fn set_expected(self, start: int, label: Entry) -> ErrorsView {
        ErrorsView {
            position: self.position,
            entries: without_expected_from(self.entries, start).push(label),
        }
    }
}

/// An error: the position at which it arose and its ordered entries.
#[derive(Clone, Debug, PartialEq, Eq)]
pub struct Errors {
    pub position: usize,
    pub entries: Vec<StreamError>,
}

impl View for Errors {
    type V = ErrorsView;

    open spec fn view(&self) -> ErrorsView {
        ErrorsView {
            position: self.position as nat,
            entries: self.entries@.map_values(|e: StreamError| e@),
        }
    }
}

impl Errors {
    /// An error at `position` with no entries.
    pub fn empty(position: usize) -> (r: Errors)
        ensures
            r@ == (ErrorsView { position: position as nat, entries: Seq::empty() }),
    {
        let r = Errors { position, entries: Vec::new() };
        assert(r@.entries =~= Seq::<Entry>::empty());
        r
    }

    /// Appends `e`.
    pub fn add(&mut self, e: StreamError)
        ensures
            final(self)@ == old(self)@.add(e@),
    {
        let ghost before = self@;
        self.entries.push(e);
        assert(self@.entries =~= before.entries.push(e@));
    }

    /// Appends an unexpected-entry.
    pub fn add_unexpected(&mut self, info: Info)
        ensures
            final(self)@ == old(self)@.add(Entry::Unexpected(info@)),
    {
        self.add(StreamError::unexpected(info));
    }

    /// Appends an expected-entry.
    pub fn add_expected(&mut self, info: Info)
        ensures
            final(self)@ == old(self)@.add(Entry::Expected(info@)),
    {
        self.add(StreamError::expected(info));
    }

    /// Appends a free-form message.
    pub fn add_message(&mut self, info: Info)
        ensures
            final(self)@ == old(self)@.add(Entry::Message(info@)),
    {
        self.add(StreamError::message(info));
    }

    /// Removes the expected-entries from index `start` on, keeping every other
    /// entry in order.
    pub fn clear_expected_from(&mut self, start: usize)
        ensures
            final(self)@ == (ErrorsView {
                position: old(self)@.position,
                entries: without_expected_from(old(self)@.entries, start as int),
            }),
    {
        let ghost before = self@.entries;
        let n = self.entries.len();
        if start > n {
            return;
        }
        let ghost prefix = before.subrange(0, start as int);
        let ghost tail = before.subrange(start as int, n as int);
        let m = n - start;
        let mut k: usize = 0;
        assert(self@.entries =~= prefix + tail.subrange(0, m as int) + without_expected(tail.subrange(0, 0)));
        while k < m
            invariant
                k <= m,
                m == n - start,
                start <= n,
                self.position == old(self).position,
                self@.entries =~= prefix + tail.subrange(k as int, m as int) + without_expected(tail.subrange(0, k as int)),
                prefix.len() == start,
                tail.len() == m,
            decreases m - k,
        {
            let ghost cur = self@.entries;
            proof {
                assert(cur[start as int] == tail[k as int]);
                assert(self.entries@.len() == cur.len());
            }
            let e = self.entries.remove(start);
            assert(e@ == tail[k as int]);
            let ghost removed = self@.entries;
            assert(removed =~= prefix + tail.subrange(k + 1, m as int) + without_expected(tail.subrange(0, k as int))) by {
                assert(removed =~= cur.remove(start as int));
            }
            let ghost ev = e@;
            proof {
                let t1 = tail.subrange(0, k + 1);
                assert(t1.drop_last() =~= tail.subrange(0, k as int));
                assert(t1.last() == tail[k as int]);
            }
            let keep = !e.is_expected();
            if keep {
                self.entries.push(e);
                assert(self@.entries =~= removed.push(ev));
            }
            k = k + 1;
        }
        assert(tail.subrange(0, m as int) =~= tail);
        assert(tail.subrange(m as int, m as int) =~= Seq::<Entry>::empty());
    }

    /// Removes every entry, keeping the position.
    pub fn clear(&mut self)
        ensures
            final(self)@ == old(self)@.cleared(),
    {
        self.entries = Vec::new();
        assert(self@.entries =~= Seq::<Entry>::empty());
    }

    /// Removes every expected-entry, keeping the others in order.
    pub fn clear_expected(&mut self)
        ensures
            final(self)@ == old(self)@.clear_expected(),
    {
        self.clear_expected_from(0);
        assert(old(self)@.entries.subrange(0, old(self)@.entries.len() as int) =~= old(self)@.entries);
        assert(old(self)@.entries.subrange(0, 0) =~= Seq::<Entry>::empty());
        assert(old(self)@.entries.subrange(0, 0) + without_expected(old(self)@.entries.subrange(0, old(self)@.entries.len() as int))
            =~= without_expected(old(self)@.entries));
    }

    /// Closes a label-override scope opened when the error held `start`
    /// entries: drops the expected-entries added since and appends `label`.
    pub fn set_expected(&mut self, start: usize, label: StreamError)
        ensures
            final(self)@ == old(self)@.set_expected(start as int, label@),
    {
        self.clear_expected_from(start);
        self.add(label);
    }
}

/// An error together with its offset: a record of the choices that compared
/// failures on the way to this one, written by `parser::Or` so that only the
/// alternatives whose failures were kept are asked for a contribution. A fresh
/// failure has offset 0, which records nothing.
#[derive(Clone, Debug, PartialEq, Eq)]
pub struct TrackedError<E> {
    pub error: E,
    pub offset: u8,
}

impl View for TrackedError<Errors> {
    type V = TrackedError<ErrorsView>;

    open spec fn view(&self) -> TrackedError<ErrorsView> {
        TrackedError { error: self.error@, offset: self.offset }
    }
}

impl TrackedError<Errors> {
    pub fn new(error: Errors) -> (r: TrackedError<Errors>)
        ensures
            r@ == (TrackedError { error: error@, offset: 0u8 }),
    {
        TrackedError { error, offset: 0 }
    }
}

/// The outcome of one parsing step.
#[derive(Clone, Debug, PartialEq, Eq)]
pub enum ParseResult<T, E> {
    /// Success with no input consumed.
    EmptyOk(T),
    /// Success after consuming input.
    ConsumedOk(T),
    /// Failure with no input consumed; the error is a cheap placeholder that
    /// the parser fills in only if it is reported.
    EmptyErr(TrackedError<E>),
    /// Failure after consuming input; the error is final.
    ConsumedErr(E),
}

impl<T, E> ParseResult<T, E> {
    pub open spec fn is_ok(&self) -> bool {
        self is EmptyOk || self is ConsumedOk
    }

    pub open spec fn is_consumed(&self) -> bool {
        self is ConsumedOk || self is ConsumedErr
    }
}

impl<T> View for ParseResult<T, Errors> {
    type V = ParseResult<T, ErrorsView>;

    open spec fn view(&self) -> ParseResult<T, ErrorsView> {
        match self {
            ParseResult::EmptyOk(x) => ParseResult::EmptyOk(*x),
            ParseResult::ConsumedOk(x) => ParseResult::ConsumedOk(*x),
            ParseResult::EmptyErr(t) => ParseResult::EmptyErr(t@),
            ParseResult::ConsumedErr(e) => ParseResult::ConsumedErr(e@),
        }
    }
}

} // verus!
