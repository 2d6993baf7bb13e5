use mgol::lexical_automaton::{is_in_alphabet, Action, Automaton, AutomatonState};

fn feed(input: &str) -> Automaton {
    let mut automaton = Automaton::new();
    for c in input.chars() {
        automaton.advance(c);
    }
    automaton
}

fn at(state: AutomatonState) -> Automaton {
    Automaton { state, done: false, action: Action::Nothing }
}

fn after(state: AutomatonState, c: char) -> (AutomatonState, bool, Action) {
    let mut automaton = at(state);
    automaton.advance(c);
    (automaton.state, automaton.done, automaton.action)
}

#[test]
fn new_automaton_is_at_the_start() {
    let automaton = Automaton::new();
    assert_eq!(automaton.state, AutomatonState::Initial);
    assert!(!automaton.done);
    assert_eq!(automaton.action, Action::Nothing);
}

#[test]
fn alphabet_is_the_one_of_the_language() {
    for c in "abcxyzABCXYZ0123456789,.;:<>=()[]{}+-*/!?\\\"'\n\r ".chars() {
        assert!(is_in_alphabet(c), "{:?}", c);
    }
    for c in "@#$%&_|~^`\t\u{e9}".chars() {
        assert!(!is_in_alphabet(c), "{:?}", c);
    }
}

#[test]
fn transitions_from_the_initial_state() {
    let start = AutomatonState::Initial;
    assert_eq!(after(start, '7'), (AutomatonState::Accept(1), false, Action::Standard));
    assert_eq!(after(start, '"'), (AutomatonState::NonAccept('d'), false, Action::Standard));
    assert_eq!(after(start, 'q'), (AutomatonState::Accept(5), false, Action::Standard));
    assert_eq!(after(start, 'Q'), (AutomatonState::Accept(5), false, Action::Standard));
    assert_eq!(after(start, '{'), (AutomatonState::NonAccept('e'), false, Action::Nothing));
    assert_eq!(after(start, '<'), (AutomatonState::Accept(8), false, Action::Standard));
    assert_eq!(after(start, '>'), (AutomatonState::Accept(12), false, Action::Standard));
    assert_eq!(after(start, '='), (AutomatonState::Accept(14), false, Action::Standard));
    for c in "+-*/".chars() {
        assert_eq!(after(start, c), (AutomatonState::Accept(15), true, Action::Standard));
    }
    assert_eq!(after(start, '('), (AutomatonState::Accept(16), true, Action::Standard));
    assert_eq!(after(start, ')'), (AutomatonState::Accept(17), true, Action::Standard));
    assert_eq!(after(start, ';'), (AutomatonState::Accept(18), true, Action::Standard));
    for c in "\n\r ".chars() {
        assert_eq!(after(start, c), (AutomatonState::Initial, false, Action::Nothing));
    }
    for c in ",.:[]}!?\\'".chars() {
        assert_eq!(after(start, c), (AutomatonState::Error(1), true, Action::ShowError));
    }
    assert_eq!(after(start, '_'), (AutomatonState::Error(0), true, Action::ShowError));
    assert_eq!(after(start, '@'), (AutomatonState::Error(0), true, Action::ShowError));
}

#[test]
fn transitions_of_numbers() {
    let one = AutomatonState::Accept(1);
    assert_eq!(after(one, '0'), (one, false, Action::Standard));
    assert_eq!(after(one, '.'), (AutomatonState::NonAccept('a'), false, Action::Standard));
    assert_eq!(after(one, 'e'), (AutomatonState::NonAccept('b'), false, Action::Standard));
    assert_eq!(after(one, 'E'), (AutomatonState::NonAccept('b'), false, Action::Standard));
    assert_eq!(after(one, ';'), (one, true, Action::GoBack));
    assert_eq!(after(one, 'x'), (one, true, Action::GoBack));
    assert_eq!(after(one, '#'), (AutomatonState::Error(0), true, Action::ShowError));
    let two = AutomatonState::Accept(2);
    assert_eq!(after(two, '5'), (two, false, Action::Standard));
    assert_eq!(after(two, 'e'), (AutomatonState::NonAccept('b'), false, Action::Standard));
    assert_eq!(after(two, '.'), (two, true, Action::GoBack));
    assert_eq!(after(two, '#'), (AutomatonState::Error(0), true, Action::ShowError));
    let three = AutomatonState::Accept(3);
    assert_eq!(after(three, '5'), (three, false, Action::Standard));
    assert_eq!(after(three, 'e'), (three, true, Action::GoBack));
    assert_eq!(after(three, '#'), (AutomatonState::Error(0), true, Action::ShowError));
    let a = AutomatonState::NonAccept('a');
    assert_eq!(after(a, '5'), (two, false, Action::Standard));
    assert_eq!(after(a, ';'), (AutomatonState::Error(2), true, Action::ShowError));
    let b = AutomatonState::NonAccept('b');
    assert_eq!(after(b, '5'), (three, false, Action::Standard));
    assert_eq!(after(b, '+'), (AutomatonState::NonAccept('c'), false, Action::Standard));
    assert_eq!(after(b, '-'), (AutomatonState::NonAccept('c'), false, Action::Standard));
    assert_eq!(after(b, 'x'), (AutomatonState::Error(3), true, Action::ShowError));
    let c = AutomatonState::NonAccept('c');
    assert_eq!(after(c, '5'), (three, false, Action::Standard));
    assert_eq!(after(c, '+'), (AutomatonState::Error(4), true, Action::ShowError));
}

#[test]
fn transitions_of_identifiers_and_operators() {
    let id = AutomatonState::Accept(5);
    for c in "aZ9_".chars() {
        assert_eq!(after(id, c), (id, false, Action::Standard));
    }
    assert_eq!(after(id, ' '), (id, true, Action::GoBack));
    assert_eq!(after(id, '@'), (AutomatonState::Error(0), true, Action::ShowError));
    let less = AutomatonState::Accept(8);
    assert_eq!(after(less, '='), (AutomatonState::Accept(9), true, Action::Standard));
    assert_eq!(after(less, '>'), (AutomatonState::Accept(10), true, Action::Standard));
    assert_eq!(after(less, '-'), (AutomatonState::Accept(11), true, Action::Standard));
    assert_eq!(after(less, '1'), (less, true, Action::GoBack));
    assert_eq!(after(less, '@'), (AutomatonState::Error(0), true, Action::ShowError));
    let greater = AutomatonState::Accept(12);
    assert_eq!(after(greater, '='), (AutomatonState::Accept(13), true, Action::Standard));
    assert_eq!(after(greater, '>'), (greater, true, Action::GoBack));
    assert_eq!(after(greater, '@'), (AutomatonState::Error(0), true, Action::ShowError));
}

#[test]
fn transitions_of_literals_and_comments() {
    let d = AutomatonState::NonAccept('d');
    assert_eq!(after(d, '"'), (AutomatonState::Accept(4), true, Action::Standard));
    assert_eq!(after(d, '\n'), (d, false, Action::Standard));
    assert_eq!(after(d, '{'), (d, false, Action::Standard));
    assert_eq!(after(d, '@'), (AutomatonState::Error(0), true, Action::ShowError));
    let e = AutomatonState::NonAccept('e');
    assert_eq!(after(e, '}'), (AutomatonState::Initial, false, Action::ClearLexeme));
    assert_eq!(after(e, '"'), (e, false, Action::Nothing));
    assert_eq!(after(e, '{'), (e, false, Action::Nothing));
    assert_eq!(after(e, '@'), (AutomatonState::Error(0), true, Action::ShowError));
}

#[test]
fn other_states_take_every_character() {
    for state in [
        AutomatonState::Accept(14),
        AutomatonState::Accept(4),
        AutomatonState::Accept(18),
        AutomatonState::Accept(0),
        AutomatonState::Accept(6),
        AutomatonState::Accept(200),
        AutomatonState::NonAccept('z'),
        AutomatonState::Error(1),
    ] {
        assert_eq!(after(state, 'x'), (state, false, Action::Standard));
        assert_eq!(after(state, '@'), (state, false, Action::Standard));
    }
}

#[test]
fn done_stays_once_set() {
    let mut automaton = Automaton { state: AutomatonState::Accept(1), done: true, action: Action::Nothing };
    automaton.advance('1');
    assert!(automaton.done);
    assert_eq!(automaton.state, AutomatonState::Accept(1));
}

#[test]
fn error_stops_the_automaton() {
    let mut automaton = Automaton::new();
    automaton.error(3);
    assert_eq!(automaton.state, AutomatonState::Error(3));
    assert!(automaton.done);
    assert_eq!(automaton.action, Action::ShowError);
}

#[test]
fn runs_of_whole_lexemes() {
    assert_eq!(feed("12.5e-3").state, AutomatonState::Accept(3));
    assert_eq!(feed("12.5").state, AutomatonState::Accept(2));
    assert_eq!(feed("1E7").state, AutomatonState::Accept(3));
    assert_eq!(feed("  \n x_1").state, AutomatonState::Accept(5));
    assert_eq!(feed("{ a } <-").state, AutomatonState::Accept(11));
    assert_eq!(feed("\"a b\"").state, AutomatonState::Accept(4));
    assert_eq!(feed("12.").state, AutomatonState::NonAccept('a'));
    assert_eq!(feed("1e+").state, AutomatonState::NonAccept('c'));
}

#[test]
fn no_accepting_state_is_entered_twice() {
    // once the integer state is left for the fraction, digits lead on, not back
    let mut automaton = Automaton::new();
    let mut seen = Vec::new();
    for c in "12.34e5".chars() {
        automaton.advance(c);
        if seen.last() != Some(&automaton.state) {
            assert!(!seen.contains(&automaton.state));
            seen.push(automaton.state);
        }
    }
    assert_eq!(
        seen,
        vec![
            AutomatonState::Accept(1),
            AutomatonState::NonAccept('a'),
            AutomatonState::Accept(2),
            AutomatonState::NonAccept('b'),
            AutomatonState::Accept(3),
        ]
    );
}
