use combine::error::{Errors, Info, ParseResult, StreamError, TrackedError};
use combine::choice::choice;
use combine::laws::easy_parse;
use combine::parser::error::{expected, message, silent, unexpected, unexpected_any};
use combine::parser::{merge_furthest, or, pair, token, ParseMode, Parser};
use combine::stream::Input;

fn owned(s: &str) -> Info {
    Info::Owned(s.to_string())
}

fn errors_with(position: usize, entries: Vec<StreamError>) -> Errors {
    Errors { position, entries }
}

#[test]
fn unexpected_reports_token() {
    let mut p = unexpected(Info::owned("token"));
    let mut input = Input::new("a");
    let r = easy_parse(&mut p, &mut input);
    assert_eq!(input.position(), 0);
    let err = r.unwrap_err();
    assert_eq!(err.position, 0);
    assert!(err.entries.iter().any(|m| *m == StreamError::Unexpected(owned("token"))));
    assert_eq!(err.entries, vec![StreamError::Unexpected(owned("token"))]);
}

#[test]
fn unexpected_any_as_a_branch() {
    let mut p = or(token('b'), unexpected_any::<char>(Info::owned("token")));
    let mut input = Input::new("a");
    let err = easy_parse(&mut p, &mut input).unwrap_err();
    assert!(err.entries.iter().any(|m| *m == StreamError::Unexpected(owned("token"))));
    assert_eq!(
        err.entries,
        vec![StreamError::Expected(Info::Token('b')), StreamError::Unexpected(owned("token"))]
    );
}

#[test]
fn unexpected_never_advances() {
    for text in ["", "a", "abc"] {
        let mut p = unexpected(Info::Token('x'));
        let mut input = Input::new(text);
        let r = p.parse_lazy(&mut input);
        assert_eq!(r, ParseResult::EmptyErr(TrackedError { error: errors_with(0, vec![]), offset: 0 }));
        assert_eq!(input.position(), 0);
        let mut state = ();
        let r = p.parse_mode(ParseMode::Resume, &mut input, &mut state);
        assert!(matches!(r, ParseResult::EmptyErr(_)));
        assert_eq!(input.position(), 0);
    }
}

#[test]
fn message_on_empty_failure_is_added_when_reported() {
    let mut p = message(token('b'), Info::owned("need b"));
    let mut input = Input::new("a");
    let r = p.parse_lazy(&mut input);
    match r {
        ParseResult::EmptyErr(mut t) => {
            assert!(t.error.entries.is_empty());
            p.add_error(&mut t);
            assert_eq!(
                t.error.entries,
                vec![StreamError::Expected(Info::Token('b')), StreamError::Message(owned("need b"))]
            );
        }
        other => panic!("unexpected result {:?}", other),
    }
    let mut input = Input::new("a");
    let err = easy_parse(&mut p, &mut input).unwrap_err();
    assert!(err.entries.contains(&StreamError::Message(owned("need b"))));
}

#[test]
fn message_on_committed_failure_is_immediate() {
    let mut p = message(pair(token('a'), token('b')), Info::owned("bad literal"));
    let mut input = Input::new("ax");
    let r = p.parse_lazy(&mut input);
    assert_eq!(input.position(), 1);
    match r {
        ParseResult::ConsumedErr(e) => {
            assert_eq!(e.position, 1);
            assert_eq!(
                e.entries,
                vec![StreamError::Expected(Info::Token('b')), StreamError::Message(owned("bad literal"))]
            );
        }
        other => panic!("unexpected result {:?}", other),
    }
}

#[test]
fn message_matches_as_inner() {
    let mut plain = token('a');
    let mut labelled = message(token('a'), Info::owned("m"));
    for text in ["a", "b", ""] {
        let mut i1 = Input::new(text);
        let mut i2 = Input::new(text);
        let r1 = plain.parse_lazy(&mut i1);
        let r2 = labelled.parse_lazy(&mut i2);
        assert_eq!(r1, r2);
        assert_eq!(i1.position(), i2.position());
    }
}

#[test]
fn expected_overrides_labels_of_a_choice() {
    let digit = expected(token('7'), Info::owned("digit"));
    let letter = expected(token('x'), Info::owned("letter"));
    let mut p = expected(or(digit, letter), Info::owned("identifier-start"));
    let mut input = Input::new("$");
    let err = easy_parse(&mut p, &mut input).unwrap_err();
    assert_eq!(err.position, 0);
    assert_eq!(err.entries, vec![StreamError::Expected(owned("identifier-start"))]);
}

#[test]
fn expected_is_a_passthrough_when_parsing() {
    let mut p = expected(token('a'), Info::owned("an a"));
    let mut input = Input::new("ab");
    assert_eq!(p.parse_lazy(&mut input), ParseResult::ConsumedOk('a'));
    assert_eq!(input.position(), 1);
}

#[test]
fn expected_keeps_other_entries() {
    let inner = message(token('q'), Info::owned("note"));
    let mut p = expected(inner, Info::owned("label"));
    let mut t = TrackedError { error: errors_with(3, vec![StreamError::Unexpected(Info::Token('z'))]), offset: 1 };
    p.add_error(&mut t);
    assert_eq!(
        t.error.entries,
        vec![
            StreamError::Unexpected(Info::Token('z')),
            StreamError::Message(owned("note")),
            StreamError::Expected(owned("label")),
        ]
    );
}

#[test]
fn silent_on_empty_input_reports_nothing() {
    let mut p = silent(token('a'));
    let mut input = Input::new("");
    let err = easy_parse(&mut p, &mut input).unwrap_err();
    assert!(err.entries.is_empty());
    assert_eq!(err.position, 0);
}

#[test]
fn silent_hooks_add_nothing() {
    let mut p = silent(token('a'));
    let mut t = TrackedError { error: errors_with(0, vec![StreamError::Message(owned("m"))]), offset: 1 };
    let before = t.clone();
    p.add_error(&mut t);
    assert_eq!(t, before);
    p.add_consumed_expected_error(&mut t);
    assert_eq!(t, before);
}

#[test]
fn silent_clears_expected_of_committed_failure() {
    let mut p = silent(pair(token('a'), token('b')));
    let mut input = Input::new("ac");
    match p.parse_lazy(&mut input) {
        ParseResult::ConsumedErr(e) => assert!(e.entries.is_empty()),
        other => panic!("unexpected result {:?}", other),
    }
}

#[test]
fn silent_removes_every_entry() {
    let mut p = silent(message(pair(token('a'), token('b')), Info::owned("dropped")));
    let mut input = Input::new("ac");
    match p.parse_lazy(&mut input) {
        ParseResult::ConsumedErr(e) => {
            assert_eq!(e.position, 1);
            assert_eq!(e.entries, vec![]);
        }
        other => panic!("unexpected result {:?}", other),
    }
    let mut q = silent(pair(token('a'), unexpected_any::<char>(Info::Token('u'))));
    let mut input = Input::new("ab");
    let err = easy_parse(&mut q, &mut input).unwrap_err();
    assert_eq!(err.position, 1);
    assert!(err.entries.is_empty());
}

#[test]
fn consumption_tag_matches_cursor() {
    let mut p = token('a');
    let mut input = Input::new("ab");
    assert_eq!(p.parse_lazy(&mut input), ParseResult::ConsumedOk('a'));
    assert_eq!(input.position(), 1);
    let mut q = pair(token('b'), unexpected_any::<char>(Info::Token('c')));
    let r = q.parse_lazy(&mut input);
    assert_eq!(input.position(), 2);
    match r {
        ParseResult::ConsumedErr(e) => {
            assert_eq!(e.position, 2);
            assert_eq!(e.entries, vec![StreamError::Unexpected(Info::Token('c'))]);
        }
        other => panic!("unexpected result {:?}", other),
    }
}

#[test]
fn choice_commits_after_consuming() {
    let mut p = or(pair(token('a'), token('b')), pair(token('a'), token('c')));
    let mut input = Input::new("ac");
    let r = p.parse_lazy(&mut input);
    assert!(matches!(r, ParseResult::ConsumedErr(_)));
    assert_eq!(input.position(), 1);
}

#[test]
fn choice_tries_second_after_empty_failure() {
    let mut p = or(token('a'), token('b'));
    let mut input = Input::new("b");
    assert_eq!(p.parse_lazy(&mut input), ParseResult::ConsumedOk('b'));
    assert_eq!(input.position(), 1);
}

#[test]
fn choice_contributions_are_deferred() {
    let mut p = or(token('a'), token('b'));
    let mut input = Input::new("z");
    match p.parse_lazy(&mut input) {
        ParseResult::EmptyErr(mut t) => {
            assert!(t.error.entries.is_empty());
            p.add_error(&mut t);
            assert_eq!(
                t.error.entries,
                vec![StreamError::Expected(Info::Token('a')), StreamError::Expected(Info::Token('b'))]
            );
        }
        other => panic!("unexpected result {:?}", other),
    }
}

#[test]
fn merge_keeps_furthest_failure() {
    let near = TrackedError { error: errors_with(1, vec![StreamError::Expected(Info::Token('a'))]), offset: 1 };
    let far = TrackedError { error: errors_with(4, vec![StreamError::Expected(Info::Token('b'))]), offset: 1 };
    assert_eq!(merge_furthest(near.clone(), far.clone()), far);
    assert_eq!(merge_furthest(far.clone(), near.clone()), far);
    let tie = TrackedError { error: errors_with(1, vec![StreamError::Message(owned("m"))]), offset: 1 };
    let merged = merge_furthest(near, tie);
    assert_eq!(merged.error.position, 1);
    assert_eq!(
        merged.error.entries,
        vec![StreamError::Expected(Info::Token('a')), StreamError::Message(owned("m"))]
    );
}

#[test]
fn clear_expected_keeps_the_rest_in_order() {
    let mut e = errors_with(
        2,
        vec![
            StreamError::Expected(Info::Token('a')),
            StreamError::Unexpected(Info::Token('b')),
            StreamError::Expected(owned("x")),
            StreamError::Message(owned("m")),
        ],
    );
    e.clear_expected();
    assert_eq!(e.position, 2);
    assert_eq!(e.entries, vec![StreamError::Unexpected(Info::Token('b')), StreamError::Message(owned("m"))]);
}

#[test]
fn set_expected_replaces_only_entries_of_the_scope() {
    let mut e = errors_with(0, vec![StreamError::Expected(Info::Token('a'))]);
    let start = e.entries.len();
    e.add_expected(Info::Token('b'));
    e.add_unexpected(Info::Range("bc".to_string()));
    e.add_expected(Info::Token('c'));
    e.set_expected(start, StreamError::expected(owned("label")));
    assert_eq!(
        e.entries,
        vec![
            StreamError::Expected(Info::Token('a')),
            StreamError::Unexpected(Info::Range("bc".to_string())),
            StreamError::Expected(owned("label")),
        ]
    );
}

#[test]
fn add_message_appends() {
    let mut e = Errors::empty(5);
    e.add_message(owned("first"));
    e.add_unexpected(Info::Token('q'));
    assert_eq!(e.position, 5);
    assert_eq!(e.entries, vec![StreamError::Message(owned("first")), StreamError::Unexpected(Info::Token('q'))]);
}

#[test]
fn input_reads_characters_in_order() {
    let mut input = Input::new("hé");
    assert_eq!(input.uncons(), Some('h'));
    assert_eq!(input.uncons(), Some('é'));
    assert_eq!(input.uncons(), None);
    assert_eq!(input.position(), 2);
    let mut other = Input::from_chars(vec!['x']);
    assert_eq!(other.uncons(), Some('x'));
}

#[test]
fn info_duplicate_is_equal() {
    let i = Info::owned("abc");
    assert_eq!(i, owned("abc"));
    assert_eq!(i.duplicate(), i);
}

#[test]
fn pair_of_successes_yields_both() {
    let mut p = pair(token('a'), token('b'));
    let mut input = Input::new("abc");
    assert_eq!(p.parse_lazy(&mut input), ParseResult::ConsumedOk(('a', 'b')));
    assert_eq!(input.position(), 2);
    let mut state = ((), ());
    let mut input = Input::new("ab");
    assert_eq!(p.parse_mode(ParseMode::FirstAttempt, &mut input, &mut state), ParseResult::ConsumedOk(('a', 'b')));
}

#[test]
fn choice_reports_all_failures_at_a_tie() {
    let mut alternatives = vec![token('a'), token('b'), token('c')];
    let mut input = Input::new("z");
    let err = choice(&mut alternatives, &mut input).unwrap_err();
    assert_eq!(input.position(), 0);
    assert_eq!(err.position, 0);
    assert_eq!(
        err.entries,
        vec![
            StreamError::Expected(Info::Token('a')),
            StreamError::Expected(Info::Token('b')),
            StreamError::Expected(Info::Token('c')),
        ]
    );
    assert_eq!(alternatives.len(), 3);
}

#[test]
fn choice_takes_first_success() {
    let mut alternatives = vec![token('a'), token('b'), token('b')];
    let mut input = Input::new("bb");
    assert_eq!(choice(&mut alternatives, &mut input), Ok('b'));
    assert_eq!(input.position(), 1);
}

#[test]
fn choice_stops_at_committed_failure() {
    let mut alternatives = vec![
        pair(token('x'), token('y')),
        pair(token('a'), token('b')),
        pair(token('a'), token('c')),
    ];
    let mut input = Input::new("ac");
    let err = choice(&mut alternatives, &mut input).unwrap_err();
    assert_eq!(input.position(), 1);
    assert_eq!(err.position, 1);
    assert_eq!(err.entries, vec![StreamError::Expected(Info::Token('b'))]);
}

#[test]
fn choice_with_labels_and_silence() {
    let mut alternatives = vec![
        message(token('a'), Info::owned("first")),
        message(token('b'), Info::owned("second")),
    ];
    let mut input = Input::new("");
    let err = choice(&mut alternatives, &mut input).unwrap_err();
    assert_eq!(
        err.entries,
        vec![
            StreamError::Expected(Info::Token('a')),
            StreamError::Message(owned("first")),
            StreamError::Expected(Info::Token('b')),
            StreamError::Message(owned("second")),
        ]
    );
    let mut quiet = vec![silent(token('a')), silent(token('b'))];
    let mut input = Input::new("q");
    let err = choice(&mut quiet, &mut input).unwrap_err();
    assert!(err.entries.is_empty());
}

#[test]
fn expected_passes_committed_failure_through() {
    let mut p = expected(pair(token('a'), token('b')), Info::owned("ab"));
    let mut input = Input::new("ac");
    let err = easy_parse(&mut p, &mut input).unwrap_err();
    assert_eq!(err.position, 1);
    assert_eq!(err.entries, vec![StreamError::Expected(Info::Token('b'))]);
}

#[test]
fn choice_without_alternatives_fails_empty() {
    let mut alternatives: Vec<combine::parser::Token> = Vec::new();
    let mut input = Input::new("xy");
    input.uncons();
    let err = choice(&mut alternatives, &mut input).unwrap_err();
    assert_eq!(err, Errors::empty(1));
    assert_eq!(input.position(), 1);
}

#[test]
fn or_asks_only_the_recorded_alternative() {
    let mut p = or(or(token('a'), token('b')), token('c'));
    let fresh = || TrackedError { error: Errors::empty(2), offset: 0 };
    let mut t = fresh();
    p.add_error(&mut t);
    assert_eq!(
        t.error.entries,
        vec![
            StreamError::Expected(Info::Token('a')),
            StreamError::Expected(Info::Token('b')),
            StreamError::Expected(Info::Token('c')),
        ]
    );
    let mut t = TrackedError { offset: 2, ..fresh() };
    p.add_error(&mut t);
    assert_eq!(t.error.entries, vec![StreamError::Expected(Info::Token('c'))]);
    let mut t = TrackedError { offset: 4 * 1 + 1, ..fresh() };
    p.add_error(&mut t);
    assert_eq!(t.error.entries, vec![StreamError::Expected(Info::Token('a'))]);
    let mut t = TrackedError { offset: 4 * 2 + 1, ..fresh() };
    p.add_error(&mut t);
    assert_eq!(t.error.entries, vec![StreamError::Expected(Info::Token('b'))]);
}

#[test]
fn or_tie_records_nothing() {
    let mut p = or(token('a'), token('b'));
    let mut input = Input::new("z");
    match p.parse_lazy(&mut input) {
        ParseResult::EmptyErr(t) => assert_eq!(t.offset, 0),
        other => panic!("unexpected result {:?}", other),
    }
}
