use vstd::prelude::*;

verus! {

/// The states of the automaton.
///
/// `Accept(n)` carries the kind of token recognised so far: 1 an integer,
/// 2 and 3 a real, 4 a literal, 5 an identifier or reserved word, 8 to 10
/// and 12 to 14 a relational operator, 11 the assignment arrow, 15 an
/// arithmetic operator, 16 and 17 the parentheses, 18 the semicolon.
/// `NonAccept(c)` is a state in the middle of a token: `a` after the point
/// of a number, `b` after its `e`, `c` after the sign of its exponent, `d`
/// inside a literal, `e` inside a comment. `Error(k)` says what went wrong:
/// 0 a character outside the alphabet, 1 a character that starts no token,
/// 2 no digit after the point, 3 no digit or sign after the `e`, 4 no digit
/// after the sign, 5 a comment or literal that is never closed.
#[derive(Clone, Copy, PartialEq, Eq, Structural, Debug)]
pub enum AutomatonState {
    Initial,
    Accept(u8),
    NonAccept(char),
    Error(u8),
}

/// What the scanner does with the character it has just fed.
#[derive(Clone, Copy, PartialEq, Eq, Structural, Debug)]
pub enum Action {
    /// Nothing.
    Nothing,
    /// Step the cursor back, so that the character is read again.
    GoBack,
    /// Append the character to the lexeme.
    Standard,
    /// Drop the lexeme gathered so far.
    ClearLexeme,
    /// Record a diagnostic.
    ShowError,
}

/// The automaton of the lexical analysis: its state, whether it has come
/// to the end of a token (or to an error), and the action it asks for.
#[derive(Clone, Copy, PartialEq, Eq, Structural, Debug)]
pub struct Automaton {
    pub state: AutomatonState,
    pub done: bool,
    pub action: Action,
}

pub open spec fn is_digit(c: char) -> bool {
    '0' <= c <= '9'
}

pub open spec fn is_letter(c: char) -> bool {
    ('a' <= c <= 'z') || ('A' <= c <= 'Z')
}

/// The alphabet of the language: digits, letters, the punctuation
/// `,.;:<>=()[]{}+-*/!?\"'` and the three blanks.
pub open spec fn in_alphabet(c: char) -> bool {
    is_digit(c) || is_letter(c) || c == ',' || c == '.' || c == ';' || c == ':' || c == '<'
        || c == '>' || c == '=' || c == '(' || c == ')' || c == '[' || c == ']' || c == '{'
        || c == '}' || c == '+' || c == '-' || c == '*' || c == '/' || c == '!' || c == '?'
        || c == '\\' || c == '"' || c == '\'' || c == '\n' || c == '\r' || c == ' '
}

/// The automaton in `state`, not done, asking for the standard action.
pub open spec fn going(state: AutomatonState) -> Automaton {
    Automaton { state, done: false, action: Action::Standard }
}

/// The automaton at the end of a token, in `state`.
pub open spec fn ended(state: AutomatonState) -> Automaton {
    Automaton { state, done: true, action: Action::Standard }
}

/// The automaton stopped by the error `kind`.
pub open spec fn failed(kind: u8) -> Automaton {
    Automaton { state: AutomatonState::Error(kind), done: true, action: Action::ShowError }
}

/// The automaton stopped one character behind the end of a token: the
/// character belongs to the alphabet and to the next token, or it does not
/// belong to the alphabet at all.
pub open spec fn past_end(state: AutomatonState, c: char) -> Automaton {
    if in_alphabet(c) {
        Automaton { state, done: true, action: Action::GoBack }
    } else {
        failed(0)
    }
}

impl Automaton {
    /// The automaton that `self` becomes by reading `c`.
    pub open spec fn next(self, c: char) -> Automaton {
        match self.state {
            AutomatonState::Initial => {
                if is_digit(c) {
                    Automaton { state: AutomatonState::Accept(1), done: self.done, action: Action::Standard }
                } else if c == '"' {
                    Automaton { state: AutomatonState::NonAccept('d'), done: self.done, action: Action::Standard }
                } else if is_letter(c) {
                    Automaton { state: AutomatonState::Accept(5), done: self.done, action: Action::Standard }
                } else if c == '{' {
                    Automaton { state: AutomatonState::NonAccept('e'), done: self.done, action: Action::Nothing }
                } else if c == '<' {
                    Automaton { state: AutomatonState::Accept(8), done: self.done, action: Action::Standard }
                } else if c == '>' {
                    Automaton { state: AutomatonState::Accept(12), done: self.done, action: Action::Standard }
                } else if c == '=' {
                    Automaton { state: AutomatonState::Accept(14), done: self.done, action: Action::Standard }
                } else if c == '+' || c == '-' || c == '*' || c == '/' {
                    ended(AutomatonState::Accept(15))
                } else if c == '(' {
                    ended(AutomatonState::Accept(16))
                } else if c == ')' {
                    ended(AutomatonState::Accept(17))
                } else if c == ';' {
                    ended(AutomatonState::Accept(18))
                } else if c == '\n' || c == '\r' || c == ' ' {
                    Automaton { state: AutomatonState::Initial, done: self.done, action: Action::Nothing }
                } else if in_alphabet(c) {
                    failed(1)
                } else {
                    failed(0)
                }
            },
            AutomatonState::Accept(1) => {
                if is_digit(c) {
                    Automaton { state: AutomatonState::Accept(1), done: self.done, action: Action::Standard }
                } else if c == '.' {
                    Automaton { state: AutomatonState::NonAccept('a'), done: self.done, action: Action::Standard }
                } else if c == 'e' || c == 'E' {
                    Automaton { state: AutomatonState::NonAccept('b'), done: self.done, action: Action::Standard }
                } else {
                    past_end(self.state, c)
                }
            },
            AutomatonState::Accept(2) => {
                if is_digit(c) {
                    Automaton { state: AutomatonState::Accept(2), done: self.done, action: Action::Standard }
                } else if c == 'e' || c == 'E' {
                    Automaton { state: AutomatonState::NonAccept('b'), done: self.done, action: Action::Standard }
                } else {
                    past_end(self.state, c)
                }
            },
            AutomatonState::Accept(3) => {
                if is_digit(c) {
                    Automaton { state: AutomatonState::Accept(3), done: self.done, action: Action::Standard }
                } else {
                    past_end(self.state, c)
                }
            },
            AutomatonState::Accept(5) => {
                if is_digit(c) || is_letter(c) || c == '_' {
                    Automaton { state: AutomatonState::Accept(5), done: self.done, action: Action::Standard }
                } else {
                    past_end(self.state, c)
                }
            },
            AutomatonState::Accept(8) => {
                if c == '=' {
                    ended(AutomatonState::Accept(9))
                } else if c == '>' {
                    ended(AutomatonState::Accept(10))
                } else if c == '-' {
                    ended(AutomatonState::Accept(11))
                } else {
                    past_end(self.state, c)
                }
            },
            AutomatonState::Accept(12) => {
                if c == '=' {
                    ended(AutomatonState::Accept(13))
                } else {
                    past_end(self.state, c)
                }
            },
            AutomatonState::NonAccept('a') => {
                if is_digit(c) {
                    Automaton { state: AutomatonState::Accept(2), done: self.done, action: Action::Standard }
                } else {
                    failed(2)
                }
            },
            AutomatonState::NonAccept('b') => {
                if is_digit(c) {
                    Automaton { state: AutomatonState::Accept(3), done: self.done, action: Action::Standard }
                } else if c == '+' || c == '-' {
                    Automaton { state: AutomatonState::NonAccept('c'), done: self.done, action: Action::Standard }
                } else {
                    failed(3)
                }
            },
            AutomatonState::NonAccept('c') => {
                if is_digit(c) {
                    Automaton { state: AutomatonState::Accept(3), done: self.done, action: Action::Standard }
                } else {
                    failed(4)
                }
            },
            AutomatonState::NonAccept('d') => {
                if c == '"' {
                    ended(AutomatonState::Accept(4))
                } else if in_alphabet(c) {
                    Automaton { state: AutomatonState::NonAccept('d'), done: self.done, action: Action::Standard }
                } else {
                    failed(0)
                }
            },
            AutomatonState::NonAccept('e') => {
                if c == '}' {
                    Automaton { state: AutomatonState::Initial, done: self.done, action: Action::ClearLexeme }
                } else if in_alphabet(c) {
                    Automaton { state: AutomatonState::NonAccept('e'), done: self.done, action: Action::Nothing }
                } else {
                    failed(0)
                }
            },
            _ => Automaton { state: self.state, done: self.done, action: Action::Standard },
        }
    }
}


/// Whether `c` is a decimal digit.
pub fn is_digit_char(c: char) -> (b: bool)
    ensures
        b == is_digit(c),
{
    '0' <= c && c <= '9'
}

/// Whether `c` is a letter of the alphabet.
pub fn is_letter_char(c: char) -> (b: bool)
    ensures
        b == is_letter(c),
{
    ('a' <= c && c <= 'z') || ('A' <= c && c <= 'Z')
}

/// Whether `c` belongs to the alphabet of the language.
pub fn is_in_alphabet(c: char) -> (b: bool)
    ensures
        b == in_alphabet(c),
{
    is_digit_char(c) || is_letter_char(c) || c == ',' || c == '.' || c == ';' || c == ':'
        || c == '<' || c == '>' || c == '=' || c == '(' || c == ')' || c == '[' || c == ']'
        || c == '{' || c == '}' || c == '+' || c == '-' || c == '*' || c == '/' || c == '!'
        || c == '?' || c == '\\' || c == '"' || c == '\'' || c == '\n' || c == '\r' || c == ' '
}

impl Automaton {
    /// The automaton at the start of a token.
    pub open spec fn start() -> Automaton {
        Automaton { state: AutomatonState::Initial, done: false, action: Action::Nothing }
    }

    /// A new automaton, in its initial state.
    pub fn new() -> (a: Automaton)
        ensures
            a == Automaton::start(),
    {
        Automaton { state: AutomatonState::Initial, done: false, action: Action::Nothing }
    }

    /// Advances the automaton by one character.
    pub fn advance(&mut self, c: char)
        ensures
            *final(self) == old(self).next(c),
    {
        self.action = Action::Standard;

        match self.state {
            AutomatonState::Initial => {
                if is_digit_char(c) {
                    self.state = AutomatonState::Accept(1);
                } else if c == '"' {
                    self.state = AutomatonState::NonAccept('d');
                } else if is_letter_char(c) {
                    self.state = AutomatonState::Accept(5);
                } else if c == '{' {
                    self.state = AutomatonState::NonAccept('e');
                    self.action = Action::Nothing;
                } else if c == '<' {
                    self.state = AutomatonState::Accept(8);
                } else if c == '>' {
                    self.state = AutomatonState::Accept(12);
                } else if c == '=' {
                    self.state = AutomatonState::Accept(14);
                } else if c == '+' || c == '-' || c == '*' || c == '/' {
                    self.done = true;
                    self.state = AutomatonState::Accept(15);
                } else if c == '(' {
                    self.done = true;
                    self.state = AutomatonState::Accept(16);
                } else if c == ')' {
                    self.done = true;
                    self.state = AutomatonState::Accept(17);
                } else if c == ';' {
                    self.done = true;
                    self.state = AutomatonState::Accept(18);
                } else if c == '\n' || c == '\r' || c == ' ' {
                    self.state = AutomatonState::Initial;
                    self.action = Action::Nothing;
                } else if is_in_alphabet(c) {
                    self.error(1);
                } else {
                    self.error(0);
                }
            },
            AutomatonState::Accept(1) => {
                if is_digit_char(c) {
                    self.state = AutomatonState::Accept(1);
                } else if c == '.' {
                    self.state = AutomatonState::NonAccept('a');
                } else if c == 'e' || c == 'E' {
                    self.state = AutomatonState::NonAccept('b');
                } else {
                    self.leave(c);
                }
            },
            AutomatonState::Accept(2) => {
                if is_digit_char(c) {
                    self.state = AutomatonState::Accept(2);
                } else if c == 'e' || c == 'E' {
                    self.state = AutomatonState::NonAccept('b');
                } else {
                    self.leave(c);
                }
            },
            AutomatonState::Accept(3) => {
                if is_digit_char(c) {
                    self.state = AutomatonState::Accept(3);
                } else {
                    self.leave(c);
                }
            },
            AutomatonState::Accept(5) => {
                if is_digit_char(c) || is_letter_char(c) || c == '_' {
                    self.state = AutomatonState::Accept(5);
                } else {
                    self.leave(c);
                }
            },
            AutomatonState::Accept(8) => {
                if c == '=' {
                    self.done = true;
                    self.state = AutomatonState::Accept(9);
                } else if c == '>' {
                    self.done = true;
                    self.state = AutomatonState::Accept(10);
                } else if c == '-' {
                    self.done = true;
                    self.state = AutomatonState::Accept(11);
                } else {
                    self.leave(c);
                }
            },
            AutomatonState::Accept(12) => {
                if c == '=' {
                    self.done = true;
                    self.state = AutomatonState::Accept(13);
                } else {
                    self.leave(c);
                }
            },
            AutomatonState::NonAccept('a') => {
                if is_digit_char(c) {
                    self.state = AutomatonState::Accept(2);
                } else {
                    self.error(2);
                }
            },
            AutomatonState::NonAccept('b') => {
                if is_digit_char(c) {
                    self.state = AutomatonState::Accept(3);
                } else if c == '+' || c == '-' {
                    self.state = AutomatonState::NonAccept('c');
                } else {
                    self.error(3);
                }
            },
            AutomatonState::NonAccept('c') => {
                if is_digit_char(c) {
                    self.state = AutomatonState::Accept(3);
                } else {
                    self.error(4);
                }
            },
            AutomatonState::NonAccept('d') => {
                if c == '"' {
                    self.done = true;
                    self.state = AutomatonState::Accept(4);
                } else if is_in_alphabet(c) {
                    self.state = AutomatonState::NonAccept('d');
                } else {
                    self.error(0);
                }
            },
            AutomatonState::NonAccept('e') => {
                if c == '}' {
                    self.state = AutomatonState::Initial;
                    self.action = Action::ClearLexeme;
                } else if is_in_alphabet(c) {
                    self.state = AutomatonState::NonAccept('e');
                    self.action = Action::Nothing;
                } else {
                    self.error(0);
                }
            },
            _ => {},
        }
    }

    /// Stops the automaton in the error state of the given kind.
    pub fn error(&mut self, kind: u8)
        ensures
            *final(self) == failed(kind),
    {
        self.state = AutomatonState::Error(kind);
        self.done = true;
        self.action = Action::ShowError;
    }

    /// Stops the automaton at a character that ends the token before it.
    fn leave(&mut self, c: char)
        ensures
            *final(self) == past_end(old(self).state, c),
    {
        if is_in_alphabet(c) {
            self.done = true;
            self.action = Action::GoBack;
        } else {
            self.error(0);
        }
    }
}

/// The automaton asks the scanner to go back only at the end of a token,
/// and to record a diagnostic only when it stops in an error.
pub proof fn lemma_go_back_is_done(automaton: Automaton, c: char)
    ensures
        automaton.next(c).action == Action::GoBack ==> automaton.next(c).done,
        automaton.next(c).action == Action::ShowError ==> automaton.next(c).done
            && automaton.next(c).state is Error,
{
}

/// How far into a token a state lies. No character leads from a state to
/// one that lies less far.
pub open spec fn depth(state: AutomatonState) -> nat {
    match state {
        AutomatonState::Initial => 0,
        AutomatonState::NonAccept(c) => if c == 'e' {
            0
        } else if c == 'a' {
            2
        } else if c == 'b' {
            4
        } else if c == 'c' {
            5
        } else {
            1
        },
        AutomatonState::Accept(n) => if n == 2 {
            3
        } else if n == 3 {
            6
        } else if n == 4 || n == 9 || n == 10 || n == 11 || n == 13 {
            2
        } else {
            1
        },
        AutomatonState::Error(_) => 7,
    }
}

/// The automaton after it has read the characters of `input` one after
/// another.
pub open spec fn fed(automaton: Automaton, input: Seq<char>) -> Automaton
    decreases input.len(),
{
    if input.len() == 0 {
        automaton
    } else {
        fed(automaton, input.drop_last()).next(input.last())
    }
}

/// A character leads from a state to a state that lies at least as far
/// into the token, and into another accepting state only to one that
/// lies farther.
pub proof fn lemma_next_goes_on(automaton: Automaton, c: char)
    ensures
        depth(automaton.next(c).state) >= depth(automaton.state),
        automaton.next(c).state is Accept && automaton.next(c).state != automaton.state ==> depth(
            automaton.next(c).state,
        ) > depth(automaton.state),
{
}

/// The states that the automaton goes through lie farther and farther
/// into the token.
pub proof fn lemma_fed_goes_on(automaton: Automaton, input: Seq<char>, i: int, j: int)
    requires
        0 <= i <= j <= input.len(),
    ensures
        depth(fed(automaton, input.take(i)).state) <= depth(fed(automaton, input.take(j)).state),
    decreases j - i,
{
    if i < j {
        lemma_fed_goes_on(automaton, input, i, j - 1);
        assert(input.take(j).drop_last() =~= input.take(j - 1));
        lemma_next_goes_on(fed(automaton, input.take(j - 1)), input[j - 1]);
    }
}

/// The transition of the automaton is a function of the state and the
/// character, and no accepting state is entered twice: once the
/// automaton has left an accepting state, no input leads it back there.
pub proof fn lemma_no_accepting_state_twice(
    automaton: Automaton,
    input: Seq<char>,
    i: int,
    j: int,
    k: int,
)
    requires
        0 <= i < j < k <= input.len(),
        fed(automaton, input.take(i)).state is Accept,
        fed(automaton, input.take(j)).state != fed(automaton, input.take(i)).state,
    ensures
        fed(automaton, input.take(k)).state != fed(automaton, input.take(i)).state,
    decreases k - j,
{
    let left = fed(automaton, input.take(i)).state;
    let before = fed(automaton, input.take(k - 1));
    assert(input.take(k).drop_last() =~= input.take(k - 1));
    if fed(automaton, input.take(k)).state == left {
        if before.state == left {
            lemma_no_accepting_state_twice(automaton, input, i, j, k - 1);
        } else {
            lemma_next_goes_on(before, input[k - 1]);
            lemma_fed_goes_on(automaton, input, i, k - 1);
        }
    }
}

} // verus!
