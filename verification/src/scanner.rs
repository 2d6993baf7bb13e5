use crate::lexical_automaton::{Action, Automaton, AutomatonState};
use crate::symbol_table::{reserved_words, SymbolTable};
use crate::text::{chars_of, decimal, push_decimal, report, report_lines, same_text, texts};
use crate::token::{Token, TokenView};
use vstd::prelude::*;
use vstd::string::*;

verus! {

/// How `{:?}` writes a character: between single quotes, with an escape
/// where the character is not printed as it is.
pub uninterp spec fn debug_text(c: char) -> Seq<char>;

/// `format!` with `{:?}` writes a character as `<char as Debug>::fmt`
/// does, which depends on the character alone. Nothing more is claimed of
/// it here.
#[verifier::external_body]
fn char_debug(c: char) -> (shown: String)
    ensures
        shown@ == debug_text(c),
{
    format!("{:?}", c)
}

/// The index just behind the line that holds index `from`: behind the
/// first line feed at or after `from`, or the end of the source where no
/// line feed follows.
pub open spec fn line_end_from(source: Seq<char>, from: int) -> int
    decreases source.len() - from,
{
    if from < 0 || from >= source.len() {
        source.len() as int
    } else if source[from] == '\n' {
        from + 1
    } else {
        line_end_from(source, from + 1)
    }
}

/// A line that starts inside the source is not empty and ends inside it.
pub proof fn lemma_line_end_bounds(source: Seq<char>, from: int)
    requires
        0 <= from < source.len(),
    ensures
        from < line_end_from(source, from) <= source.len(),
    decreases source.len() - from,
{
    if source[from] != '\n' {
        if from + 1 < source.len() {
            lemma_line_end_bounds(source, from + 1);
        } else {
            assert(line_end_from(source, from + 1) == source.len());
        }
    }
}

/// The diagnostic of a lexical error of the given kind, met at the given
/// row and column; `shown` is the debug text of the offending character.
/// There are six kinds of error, from zero to five.
pub open spec fn lexical_error(kind: u8, row: nat, col: nat, shown: Seq<char>) -> Option<Seq<char>> {
    let place = "Erro léxico na linha "@ + decimal(row) + ", coluna "@ + decimal(col) + ": "@;
    if kind == 0 {
        Some(place + shown + " não pertence ao alfabeto"@)
    } else if kind == 1 {
        Some(place + shown + " não inicia nenhum token"@)
    } else if kind == 2 {
        Some(place + "após um '.' em um <num> deve vir um dígito, "@ + shown + " encontrado"@)
    } else if kind == 3 {
        Some(
            place + "após um 'e' ou 'E' em um <num> deve vir um dígito, um '+' ou um '-', "@ + shown
                + " encontrado"@,
        )
    } else if kind == 4 {
        Some(
            place + "após um 'e+', 'e-', 'E+' ou 'E-' em um <num> deve vir um dígito, "@ + shown
                + " encontrado"@,
        )
    } else if kind == 5 {
        Some(
            "Erro léxico. Não encontrado o fechamento do comentário ou literal que termina na linha "@
                + decimal(row) + ", coluna "@ + decimal(col),
        )
    } else {
        None
    }
}

/// The diagnostic of a lexical error of the given kind, if there is such a
/// kind.
pub fn lexical_error_message(kind: u8, row: usize, col: usize, shown: &str) -> (r: Option<String>)
    ensures
        match r {
            Some(text) => lexical_error(kind, row as nat, col as nat, shown@) == Some(text@),
            None => lexical_error(kind, row as nat, col as nat, shown@) is None,
        },
{
    if kind > 5 {
        return None;
    }
    if kind == 5 {
        let mut text = String::from_str(
            "Erro léxico. Não encontrado o fechamento do comentário ou literal que termina na linha ",
        );
        push_decimal(&mut text, row as u128);
        text.append(", coluna ");
        push_decimal(&mut text, col as u128);
        return Some(text);
    }
    let mut text = String::from_str("Erro léxico na linha ");
    push_decimal(&mut text, row as u128);
    text.append(", coluna ");
    push_decimal(&mut text, col as u128);
    text.append(": ");
    if kind == 0 {
        text.append(shown);
        text.append(" não pertence ao alfabeto");
    } else if kind == 1 {
        text.append(shown);
        text.append(" não inicia nenhum token");
    } else if kind == 2 {
        text.append("após um '.' em um <num> deve vir um dígito, ");
        text.append(shown);
        text.append(" encontrado");
    } else if kind == 3 {
        text.append("após um 'e' ou 'E' em um <num> deve vir um dígito, um '+' ou um '-', ");
        text.append(shown);
        text.append(" encontrado");
    } else {
        text.append("após um 'e+', 'e-', 'E+' ou 'E-' em um <num> deve vir um dígito, ");
        text.append(shown);
        text.append(" encontrado");
    }
    Some(text)
}

/// The token with a class, the lexeme given and no type.
pub open spec fn plain_token(class: Seq<char>, lexeme: Seq<char>) -> TokenView {
    TokenView { class, lexeme: Some(lexeme), tk_type: None }
}

/// The token of a value: a class, the lexeme given and a type.
pub open spec fn value_token(class: Seq<char>, lexeme: Seq<char>, tk_type: Seq<char>) -> TokenView {
    TokenView { class, lexeme: Some(lexeme), tk_type: Some(tk_type) }
}

/// The token that stands for the end of the input.
pub open spec fn eof_token() -> TokenView {
    plain_token("EOF"@, "EOF"@)
}

/// The token that stands for a lexical error.
pub open spec fn error_token() -> TokenView {
    TokenView { class: "ERROR"@, lexeme: None, tk_type: None }
}

/// What a scanner is: the source, the cursor in it, the symbol table and
/// the diagnostics recorded so far.
///
/// `pos` is the index of the next character to read. The current line is
/// the part of the source from `line_start` to `line_end`, and `row` is
/// its number, counted from one; before the first character is read there
/// is no current line and `row` is zero.
pub struct ScannerView {
    pub source: Seq<char>,
    pub pos: int,
    pub line_start: int,
    pub line_end: int,
    pub row: int,
    pub eof: bool,
    pub table: Map<Seq<char>, TokenView>,
    pub errors: Seq<Seq<char>>,
}

impl ScannerView {
    /// The scanner at the start of `source`.
    pub open spec fn start(source: Seq<char>) -> ScannerView {
        ScannerView {
            source,
            pos: 0,
            line_start: 0,
            line_end: 0,
            row: 0,
            eof: false,
            table: reserved_words(),
            errors: Seq::empty(),
        }
    }

    /// Whether the cursor stands as the scanner keeps it: inside its line,
    /// the line inside the source, and no row counted that has no
    /// character.
    pub open spec fn wf(self) -> bool {
        &&& 0 <= self.line_start <= self.pos <= self.line_end <= self.source.len()
        &&& self.source.len() < usize::MAX
        &&& 0 <= self.row <= self.line_start + 1
        &&& self.row == 0 ==> self.line_end == 0
        &&& self.row >= 1 && !self.eof ==> self.line_start < self.line_end
        &&& self.eof ==> self.pos == self.source.len() && self.line_start == self.pos
    }

    /// The column of the cursor: the number of characters read from the
    /// current line.
    pub open spec fn col(self) -> int {
        self.pos - self.line_start
    }

    /// How much is still to be read: nothing once the end of the input
    /// has been met, else one more than the number of characters that are
    /// left.
    pub open spec fn unread(self) -> nat {
        if self.eof {
            0
        } else {
            (self.source.len() - self.pos + 1) as nat
        }
    }

    /// Reading one character: the character, if the input has not ended,
    /// and the scanner after it. The first character of a line starts a
    /// new row. The end of the input starts a row of its own, once.
    pub open spec fn read(self) -> (Option<char>, ScannerView) {
        if self.eof {
            (None, self)
        } else if self.pos >= self.source.len() {
            (None, ScannerView { eof: true, row: self.row + 1, line_start: self.pos, ..self })
        } else if self.pos < self.line_end {
            (Some(self.source[self.pos]), ScannerView { pos: self.pos + 1, ..self })
        } else {
            (
                Some(self.source[self.pos]),
                ScannerView {
                    pos: self.pos + 1,
                    line_start: self.pos,
                    line_end: line_end_from(self.source, self.pos),
                    row: self.row + 1,
                    ..self
                },
            )
        }
    }

    /// The scanner one character back.
    pub open spec fn put_back(self) -> ScannerView {
        ScannerView { pos: self.pos - 1, ..self }
    }

    /// The scanner after the diagnostic of `state` is recorded at the
    /// cursor, for the character `c`. A state that is no error, or an error
    /// of no known kind, records nothing.
    pub open spec fn with_error(self, c: char, state: AutomatonState) -> ScannerView {
        match state {
            AutomatonState::Error(kind) => match lexical_error(
                kind,
                self.row as nat,
                self.col() as nat,
                debug_text(c),
            ) {
                Some(text) => ScannerView { errors: self.errors.push(text), ..self },
                None => self,
            },
            _ => self,
        }
    }

    /// The token of a lexeme that ended in `state`, and the scanner after
    /// it. An identifier that the table binds is the token bound to it, so
    /// a reserved word is the token of that word; one that the table does
    /// not bind yet is bound to a new token of class `id` without a type.
    pub open spec fn build_token(self, lexeme: Seq<char>, state: AutomatonState) -> (
        TokenView,
        ScannerView,
    ) {
        match state {
            AutomatonState::Accept(1) => (value_token("num"@, lexeme, "inteiro"@), self),
            AutomatonState::Accept(2) => (value_token("num"@, lexeme, "real"@), self),
            AutomatonState::Accept(3) => (value_token("num"@, lexeme, "real"@), self),
            AutomatonState::Accept(4) => (value_token("lit"@, lexeme, "literal"@), self),
            AutomatonState::Accept(5) => if self.table.contains_key(lexeme) {
                (self.table[lexeme], self)
            } else {
                (
                    plain_token("id"@, lexeme),
                    ScannerView { table: self.table.insert(lexeme, plain_token("id"@, lexeme)), ..self },
                )
            },
            AutomatonState::Accept(8) => (plain_token("opr"@, lexeme), self),
            AutomatonState::Accept(9) => (plain_token("opr"@, lexeme), self),
            AutomatonState::Accept(10) => (plain_token("opr"@, lexeme), self),
            AutomatonState::Accept(11) => (plain_token("rcb"@, lexeme), self),
            AutomatonState::Accept(12) => (plain_token("opr"@, lexeme), self),
            AutomatonState::Accept(13) => (plain_token("opr"@, lexeme), self),
            AutomatonState::Accept(14) => (plain_token("opr"@, lexeme), self),
            AutomatonState::Accept(15) => (plain_token("opm"@, lexeme), self),
            AutomatonState::Accept(16) => (plain_token("ab_p"@, lexeme), self),
            AutomatonState::Accept(17) => (plain_token("fc_p"@, lexeme), self),
            AutomatonState::Accept(18) => (plain_token("pt_v"@, lexeme), self),
            AutomatonState::Error(_) => (error_token(), self),
            _ => (plain_token(Seq::empty(), lexeme), self),
        }
    }

    /// What the scanner does with the character `c` that it has just fed
    /// to the automaton, as the automaton asks: the scanner and the lexeme
    /// after it.
    pub open spec fn obey(self, automaton: Automaton, c: char, lexeme: Seq<char>) -> (
        ScannerView,
        Seq<char>,
    ) {
        match automaton.action {
            Action::GoBack => (self.put_back(), lexeme),
            Action::Standard => (self, lexeme.push(c)),
            Action::ClearLexeme => (self, Seq::empty()),
            Action::ShowError => (self.with_error(c, automaton.state), lexeme),
            Action::Nothing => (self, lexeme),
        }
    }

    /// The token at the end of the input, where the automaton stands in
    /// `state` with `lexeme` gathered: the token of the lexeme where the
    /// state accepts it; an error, with its diagnostic, where the input
    /// ends inside a number, a literal or a comment; else the token of the
    /// end of the input.
    pub open spec fn finish(self, state: AutomatonState, lexeme: Seq<char>) -> (
        TokenView,
        ScannerView,
    ) {
        match state {
            AutomatonState::Accept(_) => if lexeme.len() > 0 {
                self.build_token(lexeme, state)
            } else {
                (eof_token(), self)
            },
            AutomatonState::NonAccept(_) => self.with_error(' ', AutomatonState::Error(5)).build_token(
                lexeme,
                AutomatonState::Error(5),
            ),
            _ => (eof_token(), self),
        }
    }

    /// The next token, and the scanner after it, where the automaton has
    /// come to `automaton` and `lexeme` is gathered: characters are fed to
    /// the automaton one by one until it is done or the input ends.
    pub open spec fn scan_from(self, automaton: Automaton, lexeme: Seq<char>) -> (
        TokenView,
        ScannerView,
    )
        decreases self.unread(),
    {
        let (read, after) = self.read();
        match read {
            Some(c) => {
                let next = automaton.next(c);
                let (scanner, gathered) = after.obey(next, c, lexeme);
                if next.done {
                    scanner.build_token(gathered, next.state)
                } else {
                    proof {
                        crate::lexical_automaton::lemma_go_back_is_done(automaton, c);
                    }
                    scanner.scan_from(next, gathered)
                }
            },
            None => after.finish(automaton.state, lexeme),
        }
    }

    /// The next token, and the scanner after it.
    pub open spec fn scan(self) -> (TokenView, ScannerView) {
        self.scan_from(Automaton::start(), Seq::empty())
    }

    /// The next token that is no error, and the scanner after it: tokens
    /// of class `ERROR` are passed over.
    pub open spec fn safe_scan(self) -> (TokenView, ScannerView)
        decreases self.unread(),
    {
        let (token, after) = self.scan();
        if token.class != "ERROR"@ {
            (token, after)
        } else if after.unread() < self.unread() {
            after.safe_scan()
        } else {
            (token, after)
        }
    }
}


/// Scanning keeps the cursor in order and never gives back what was read:
/// from the start of a token it takes at least one character, unless the
/// end of the input was met before.
pub proof fn lemma_scan_from_progress(scanner: ScannerView, automaton: Automaton, lexeme: Seq<char>)
    requires
        scanner.wf(),
    ensures
        scanner.scan_from(automaton, lexeme).1.wf(),
        scanner.scan_from(automaton, lexeme).1.source == scanner.source,
        scanner.scan_from(automaton, lexeme).1.unread() <= scanner.unread(),
        automaton.state is Initial && !scanner.eof ==> scanner.scan_from(automaton, lexeme).1.unread()
            < scanner.unread(),
        scanner.eof ==> scanner.scan_from(automaton, lexeme).1.eof,
    decreases scanner.unread(),
{
    let (read, after) = scanner.read();
    if scanner.pos < scanner.source.len() && scanner.pos >= scanner.line_end {
        lemma_line_end_bounds(scanner.source, scanner.pos);
    }
    match read {
        Some(c) => {
            let next = automaton.next(c);
            crate::lexical_automaton::lemma_go_back_is_done(automaton, c);
            let (then, gathered) = after.obey(next, c, lexeme);
            if !next.done {
                lemma_scan_from_progress(then, next, gathered);
            }
        },
        None => {},
    }
}

/// Scanning a token keeps the cursor in order; it takes at least one
/// character unless the end of the input was met before, and then it
/// gives the token of the end of the input and changes nothing.
pub proof fn lemma_scan_progress(scanner: ScannerView)
    requires
        scanner.wf(),
    ensures
        scanner.scan().1.wf(),
        scanner.scan().1.source == scanner.source,
        !scanner.eof ==> scanner.scan().1.unread() < scanner.unread(),
        scanner.eof ==> scanner.scan() == (eof_token(), scanner),
{
    lemma_scan_from_progress(scanner, Automaton::start(), Seq::empty());
}

/// Scanning a token that is no error keeps the cursor in order; it takes
/// at least one character unless the end of the input was met before, and
/// then it gives the token of the end of the input and changes nothing.
pub proof fn lemma_safe_scan_progress(scanner: ScannerView)
    requires
        scanner.wf(),
    ensures
        scanner.safe_scan().1.wf(),
        scanner.safe_scan().1.source == scanner.source,
        !scanner.eof ==> scanner.safe_scan().1.unread() < scanner.unread(),
        scanner.eof ==> scanner.safe_scan() == (eof_token(), scanner),
        scanner.safe_scan().0.class != "ERROR"@,
    decreases scanner.unread(),
{
    lemma_scan_progress(scanner);
    lemma_eof_is_no_error();
    let (token, after) = scanner.scan();
    if token.class == "ERROR"@ {
        lemma_safe_scan_progress(after);
    }
}

/// The token of the end of the input is no error.
pub proof fn lemma_eof_is_no_error()
    ensures
        eof_token().class != "ERROR"@,
{
    reveal_strlit("EOF");
    reveal_strlit("ERROR");
    assert("EOF"@.len() == 3);
    assert("ERROR"@.len() == 5);
}

impl ScannerView {
    /// Whether the symbol table binds no lexeme to a token that stands
    /// for the end of the input.
    pub open spec fn sound_table(self) -> bool {
        forall|lexeme: Seq<char>| #[trigger]
            self.table.contains_key(lexeme) ==> self.table[lexeme].class != "EOF"@
    }

    /// The tokens from the cursor on, up to the first one that stands for
    /// the end of the input.
    pub open spec fn tokens(self) -> Seq<TokenView>
        decreases self.unread(),
    {
        let (token, after) = self.scan();
        if token.class == "EOF"@ || after.unread() >= self.unread() {
            seq![token]
        } else {
            seq![token] + after.tokens()
        }
    }
}

/// Of the classes that the scanner gives to tokens, only that of the end
/// of the input is written `EOF`, and no reserved word is written so.
pub proof fn lemma_classes_differ()
    ensures
        "num"@ != "EOF"@,
        "lit"@ != "EOF"@,
        "id"@ != "EOF"@,
        "opr"@ != "EOF"@,
        "rcb"@ != "EOF"@,
        "opm"@ != "EOF"@,
        "ab_p"@ != "EOF"@,
        "fc_p"@ != "EOF"@,
        "pt_v"@ != "EOF"@,
        "ERROR"@ != "EOF"@,
        Seq::<char>::empty() != "EOF"@,
        forall|word: Seq<char>| crate::symbol_table::is_reserved(word) ==> word != "EOF"@,
{
    reveal_strlit("EOF");
    reveal_strlit("num");
    reveal_strlit("lit");
    reveal_strlit("id");
    reveal_strlit("opr");
    reveal_strlit("rcb");
    reveal_strlit("opm");
    reveal_strlit("ab_p");
    reveal_strlit("fc_p");
    reveal_strlit("pt_v");
    reveal_strlit("ERROR");
    reveal_strlit("inicio");
    reveal_strlit("varinicio");
    reveal_strlit("varfim");
    reveal_strlit("escreva");
    reveal_strlit("leia");
    reveal_strlit("se");
    reveal_strlit("entao");
    reveal_strlit("fimse");
    reveal_strlit("repita");
    reveal_strlit("fimrepita");
    reveal_strlit("fim");
    reveal_strlit("inteiro");
    reveal_strlit("literal");
    reveal_strlit("real");
    assert("EOF"@.len() == 3 && "EOF"@[0] == 'E');
    assert("num"@[0] == 'n');
    assert("lit"@[0] == 'l');
    assert("opr"@[0] == 'o');
    assert("rcb"@[0] == 'r');
    assert("opm"@[0] == 'o');
    assert("fim"@[0] == 'f');
    assert("id"@.len() == 2);
    assert("ab_p"@.len() == 4);
    assert("fc_p"@.len() == 4);
    assert("pt_v"@.len() == 4);
    assert("ERROR"@.len() == 5);
    assert("inicio"@.len() == 6);
    assert("varinicio"@.len() == 9);
    assert("varfim"@.len() == 6);
    assert("escreva"@.len() == 7);
    assert("leia"@.len() == 4);
    assert("se"@.len() == 2);
    assert("entao"@.len() == 5);
    assert("fimse"@.len() == 5);
    assert("repita"@.len() == 6);
    assert("fimrepita"@.len() == 9);
    assert("inteiro"@.len() == 7);
    assert("literal"@.len() == 7);
    assert("real"@.len() == 4);
}

/// Scanning binds no lexeme to a token of the end of the input, and gives
/// such a token only when the input has ended.
pub proof fn lemma_scan_from_end(scanner: ScannerView, automaton: Automaton, lexeme: Seq<char>)
    requires
        scanner.sound_table(),
    ensures
        scanner.scan_from(automaton, lexeme).1.sound_table(),
        scanner.scan_from(automaton, lexeme).0.class == "EOF"@ ==> scanner.scan_from(
            automaton,
            lexeme,
        ).0 == eof_token() && scanner.scan_from(automaton, lexeme).1.eof,
    decreases scanner.unread(),
{
    lemma_classes_differ();
    let (read, after) = scanner.read();
    match read {
        Some(c) => {
            let next = automaton.next(c);
            crate::lexical_automaton::lemma_go_back_is_done(automaton, c);
            let (then, gathered) = after.obey(next, c, lexeme);
            assert(then.table == scanner.table);
            if !next.done {
                lemma_scan_from_end(then, next, gathered);
            } else {
                let (token, built) = then.build_token(gathered, next.state);
                assert(token.class != "EOF"@);
                assert(built.sound_table());
            }
        },
        None => {
            assert(after.eof);
            assert(after.table == scanner.table);
            let (token, built) = after.finish(automaton.state, lexeme);
            assert(built.eof);
            assert(built.sound_table());
        },
    }
}

/// Scan totality, from any place: the tokens from the cursor on are as
/// many as there are characters left at most, and one more; the last of
/// them stands for the end of the input, and none before it does.
pub proof fn lemma_tokens_end(scanner: ScannerView)
    requires
        scanner.wf(),
        scanner.sound_table(),
    ensures
        1 <= scanner.tokens().len() <= scanner.unread() + 1,
        scanner.tokens().last() == eof_token(),
        forall|i: int|
            0 <= i < scanner.tokens().len() - 1 ==> (#[trigger] scanner.tokens()[i]).class != "EOF"@,
    decreases scanner.unread(),
{
    lemma_scan_progress(scanner);
    lemma_scan_from_end(scanner, Automaton::start(), Seq::empty());
    let (token, after) = scanner.scan();
    if token.class != "EOF"@ {
        lemma_tokens_end(after);
        let rest = after.tokens();
        assert(scanner.tokens() =~= seq![token] + rest);
        assert forall|i: int| 0 <= i < scanner.tokens().len() - 1 implies (#[trigger] scanner.tokens()[i]).class
            != "EOF"@ by {
            if i > 0 {
                assert(scanner.tokens()[i] == rest[i - 1]);
            }
        }
    }
}

/// Scan totality: scanning a source from its start comes to an end, and
/// the tokens it gives end with exactly one token of the end of the
/// input.
pub proof fn lemma_scan_totality(source: Seq<char>)
    requires
        source.len() < usize::MAX,
    ensures
        1 <= ScannerView::start(source).tokens().len() <= source.len() + 2,
        ScannerView::start(source).tokens().last() == eof_token(),
        forall|i: int|
            0 <= i < ScannerView::start(source).tokens().len() - 1 ==> (
            #[trigger] ScannerView::start(source).tokens()[i]).class != "EOF"@,
{
    lemma_classes_differ();
    lemma_tokens_end(ScannerView::start(source));
}

/// Whether every character of `word` is a letter.
pub open spec fn all_letters(word: Seq<char>) -> bool {
    forall|i: int| 0 <= i < word.len() ==> crate::lexical_automaton::is_letter(#[trigger] word[i])
}

/// Whether the character ends a word of letters before it: it belongs to
/// the alphabet, and is no letter, no digit and no underscore.
pub open spec fn ends_word(c: char) -> bool {
    crate::lexical_automaton::in_alphabet(c) && !crate::lexical_automaton::is_letter(c)
        && !crate::lexical_automaton::is_digit(c) && c != '_'
}

/// The token of the word `word`, and the table after it: the token that
/// the table binds to the word, or a new identifier, which the table
/// binds from then on.
pub open spec fn word_token(table: Map<Seq<char>, TokenView>, word: Seq<char>) -> (
    TokenView,
    Map<Seq<char>, TokenView>,
) {
    if table.contains_key(word) {
        (table[word], table)
    } else {
        (plain_token("id"@, word), table.insert(word, plain_token("id"@, word)))
    }
}

/// A word of letters that stands in the source from `start` to `end`, with
/// the end of the source or a character that ends a word behind it, is
/// scanned as that word, wherever in the word the cursor is.
pub proof fn lemma_scan_word(
    scanner: ScannerView,
    automaton: Automaton,
    lexeme: Seq<char>,
    start: int,
    end: int,
)
    requires
        0 <= start <= scanner.pos <= end <= scanner.source.len(),
        start < end,
        !scanner.eof,
        !automaton.done,
        all_letters(scanner.source.subrange(start, end)),
        end == scanner.source.len() || ends_word(scanner.source[end]),
        lexeme == scanner.source.subrange(start, scanner.pos),
        automaton.state == (if scanner.pos == start {
            AutomatonState::Initial
        } else {
            AutomatonState::Accept(5)
        }),
    ensures
        scanner.scan_from(automaton, lexeme).0 == word_token(
            scanner.table,
            scanner.source.subrange(start, end),
        ).0,
        scanner.scan_from(automaton, lexeme).1.table == word_token(
            scanner.table,
            scanner.source.subrange(start, end),
        ).1,
        scanner.scan_from(automaton, lexeme).1.errors == scanner.errors,
    decreases end - scanner.pos,
{
    let (read, after) = scanner.read();
    let word = scanner.source.subrange(start, end);
    if scanner.pos < end {
        let c = scanner.source[scanner.pos];
        assert(read == Some(c));
        assert(word[scanner.pos - start] == c);
        let next = automaton.next(c);
        assert(scanner.source.subrange(start, scanner.pos + 1) =~= lexeme.push(c));
        lemma_scan_word(after, next, lexeme.push(c), start, end);
    } else {
        assert(lexeme =~= word);
    }
}

/// The reserved words are made of letters, and none of them is written
/// `id`.
pub proof fn lemma_reserved_letters(word: Seq<char>)
    requires
        crate::symbol_table::is_reserved(word),
    ensures
        all_letters(word),
        word.len() >= 1,
        word != "id"@,
{
    reveal_strlit("id");
    reveal_strlit("inicio");
    reveal_strlit("varinicio");
    reveal_strlit("varfim");
    reveal_strlit("escreva");
    reveal_strlit("leia");
    reveal_strlit("se");
    reveal_strlit("entao");
    reveal_strlit("fimse");
    reveal_strlit("repita");
    reveal_strlit("fimrepita");
    reveal_strlit("fim");
    reveal_strlit("inteiro");
    reveal_strlit("literal");
    reveal_strlit("real");
    assert("id"@.len() == 2 && "id"@[0] == 'i');
    assert("se"@.len() == 2 && "se"@[0] == 's');
    assert(word.len() >= 2);
    assert(word.len() <= 9);
    assert forall|i: int| 0 <= i < word.len() implies crate::lexical_automaton::is_letter(
        #[trigger] word[i],
    ) by {
        let c = word[i];
        assert('a' <= c <= 'z');
    }
}

/// Reserved-word precedence: a source that is a reserved word is scanned
/// as the token of that word, whose class is the word itself and not
/// that of identifiers.
pub proof fn lemma_reserved_word_precedence(word: Seq<char>)
    requires
        crate::symbol_table::is_reserved(word),
    ensures
        ScannerView::start(word).scan().0 == Token::reserved(word),
        ScannerView::start(word).scan().0.class == word,
        ScannerView::start(word).scan().0.class != "id"@,
{
    lemma_reserved_letters(word);
    assert(word.subrange(0, 0) =~= Seq::empty());
    assert(word.subrange(0, word.len() as int) =~= word);
    lemma_scan_word(ScannerView::start(word), Automaton::start(), Seq::empty(), 0, word.len() as int);
}

/// Reserved-word precedence, at any place of a source: where a reserved
/// word stands at the cursor, with the end of the source or a character
/// that ends a word behind it, and the table binds the word as it did at
/// the start, the token scanned is that of the word and the table stays
/// as it is.
pub proof fn lemma_reserved_word_scanned(scanner: ScannerView, word: Seq<char>)
    requires
        crate::symbol_table::is_reserved(word),
        scanner.table.contains_key(word),
        scanner.table[word] == Token::reserved(word),
        !scanner.eof,
        0 <= scanner.pos,
        scanner.pos + word.len() <= scanner.source.len(),
        scanner.source.subrange(scanner.pos, scanner.pos + word.len()) == word,
        scanner.pos + word.len() == scanner.source.len() || ends_word(
            scanner.source[scanner.pos + word.len()],
        ),
    ensures
        scanner.scan().0 == Token::reserved(word),
        scanner.scan().0.class != "id"@,
        scanner.scan().1.table == scanner.table,
        scanner.scan().1.errors == scanner.errors,
{
    lemma_reserved_letters(word);
    assert(scanner.source.subrange(scanner.pos, scanner.pos) =~= Seq::empty());
    lemma_scan_word(
        scanner,
        Automaton::start(),
        Seq::empty(),
        scanner.pos,
        scanner.pos + word.len(),
    );
}

/// Symbol-table idempotence: an identifier that is met is bound in the
/// table from then on; when it is met again it is the token that was
/// given, or found, when it was met before, and the table stays as that
/// meeting left it.
pub proof fn lemma_symbol_idempotence(scanner: ScannerView, lexeme: Seq<char>)
    ensures
        ({
            let (first, after) = scanner.build_token(lexeme, AutomatonState::Accept(5));
            &&& after.table.contains_key(lexeme)
            &&& after.table[lexeme] == first
            &&& after.build_token(lexeme, AutomatonState::Accept(5)) == (first, after)
        }),
{
}

/// A character that is put back is the one that is read next, and reading
/// it leaves the scanner where the first reading left it.
pub proof fn lemma_put_back_restores(scanner: ScannerView)
    requires
        scanner.wf(),
        scanner.read().0 is Some,
    ensures
        scanner.read().1.wf(),
        scanner.read().1.put_back().read() == scanner.read(),
{
    if scanner.pos >= scanner.line_end {
        lemma_line_end_bounds(scanner.source, scanner.pos);
    }
}

/// The scanner: it holds the source and a cursor in it, owns the symbol
/// table, and gathers the diagnostics of the lexical errors it meets.
pub struct Scanner {
    source: Vec<char>,
    pos: usize,
    line_start: usize,
    line_end: usize,
    row: usize,
    eof: bool,
    symbol_table: SymbolTable,
    error_msgs: Vec<String>,
}

impl View for Scanner {
    type V = ScannerView;

    closed spec fn view(&self) -> ScannerView {
        ScannerView {
            source: self.source@,
            pos: self.pos as int,
            line_start: self.line_start as int,
            line_end: self.line_end as int,
            row: self.row as int,
            eof: self.eof,
            table: self.symbol_table@,
            errors: texts(self.error_msgs@),
        }
    }
}

impl Scanner {
    /// A scanner at the start of `source`, with the reserved words in its
    /// symbol table.
    pub fn new(source: &str) -> (scanner: Scanner)
        requires
            source@.len() < usize::MAX,
        ensures
            scanner@ == ScannerView::start(source@),
            scanner@.wf(),
    {
        let scanner = Scanner {
            source: chars_of(source),
            pos: 0,
            line_start: 0,
            line_end: 0,
            row: 0,
            eof: false,
            symbol_table: SymbolTable::new(),
            error_msgs: Vec::new(),
        };
        assert(scanner@.errors =~= Seq::empty());
        scanner
    }

    /// The row of the cursor.
    pub fn get_row(&self) -> (row: usize)
        ensures
            row == self@.row,
    {
        self.row
    }

    /// The column of the cursor.
    pub fn get_col(&self) -> (col: usize)
        requires
            self@.wf(),
        ensures
            col == self@.col(),
    {
        self.pos - self.line_start
    }

    /// The token that the symbol table binds to `lexeme`, if it binds one.
    pub fn get_symbol(&self, lexeme: String) -> (r: Option<Token>)
        ensures
            match r {
                Some(token) => self@.table.contains_key(lexeme@) && token@ == self@.table[lexeme@],
                None => !self@.table.contains_key(lexeme@),
            },
    {
        self.symbol_table.get(lexeme)
    }

    /// Binds `lexeme` to `token` in the symbol table if the table binds
    /// `lexeme` already, and leaves the table as it is otherwise.
    pub fn update_symbol(&mut self, lexeme: String, token: Token)
        ensures
            final(self)@ == (ScannerView {
                table: if old(self)@.table.contains_key(lexeme@) {
                    old(self)@.table.insert(lexeme@, token@)
                } else {
                    old(self)@.table
                },
                ..old(self)@
            }),
    {
        self.symbol_table.update(lexeme, token);
    }

    /// The lexemes that the symbol table binds, each once.
    pub fn lexemes(&self) -> (lexemes: Vec<String>)
        ensures
            forall|i: int, j: int|
                0 <= i < j < lexemes@.len() ==> lexemes@[i]@ != lexemes@[j]@,
            forall|i: int|
                0 <= i < lexemes@.len() ==> self@.table.contains_key(#[trigger] lexemes@[i]@),
            forall|lexeme: Seq<char>| #[trigger]
                self@.table.contains_key(lexeme) ==> exists|i: int|
                    0 <= i < lexemes@.len() && #[trigger] lexemes@[i]@ == lexeme,
    {
        self.symbol_table.lexemes()
    }

    /// The number of lexical errors recorded so far.
    pub fn error_count(&self) -> (n: usize)
        ensures
            n == self@.errors.len(),
    {
        self.error_msgs.len()
    }

    /// Reads one character, if the input has not ended.
    fn read_char(&mut self) -> (r: Option<char>)
        requires
            old(self)@.wf(),
        ensures
            (r, final(self)@) == old(self)@.read(),
            final(self)@.wf(),
    {
        if self.eof {
            return None;
        }
        if self.pos >= self.source.len() {
            self.eof = true;
            self.row = self.row + 1;
            self.line_start = self.pos;
            return None;
        }
        if self.pos == self.line_end {
            let mut end: usize = self.pos;
            while end < self.source.len() && self.source[end] != '\n'
                invariant
                    self.pos <= end <= self.source@.len(),
                    line_end_from(self.source@, self.pos as int) == line_end_from(
                        self.source@,
                        end as int,
                    ),
                decreases self.source@.len() - end,
            {
                end += 1;
            }
            if end < self.source.len() {
                end += 1;
            }
            proof {
                lemma_line_end_bounds(self.source@, self.pos as int);
            }
            self.row = self.row + 1;
            self.line_start = self.pos;
            self.line_end = end;
        }
        let c = self.source[self.pos];
        self.pos = self.pos + 1;
        Some(c)
    }

    /// Puts the character read last back into the input.
    fn put_back(&mut self)
        requires
            old(self)@.wf(),
            old(self)@.pos > old(self)@.line_start,
            !old(self)@.eof,
        ensures
            final(self)@ == old(self)@.put_back(),
            final(self)@.wf(),
    {
        self.pos = self.pos - 1;
    }

    /// Records the diagnostic of `automaton_state` at the cursor, for the
    /// character `c`.
    fn insert_error_msg(&mut self, c: char, automaton_state: &AutomatonState)
        requires
            old(self)@.wf(),
        ensures
            final(self)@ == old(self)@.with_error(c, *automaton_state),
            final(self)@.wf(),
    {
        let row = self.get_row();
        let col = self.get_col();
        match automaton_state {
            AutomatonState::Error(kind) => {
                let shown = char_debug(c);
                match lexical_error_message(*kind, row, col, shown.as_str()) {
                    Some(text) => {
                        self.error_msgs.push(text);
                        assert(self@.errors =~= old(self)@.errors.push(text@));
                    },
                    None => {},
                }
            },
            _ => {},
        }
    }

    /// The token of `lexeme`, which ended in `automaton_state`.
    fn build_token(&mut self, lexeme: String, automaton_state: AutomatonState) -> (token: Token)
        requires
            old(self)@.wf(),
        ensures
            (token@, final(self)@) == old(self)@.build_token(lexeme@, automaton_state),
            final(self)@.wf(),
    {
        match automaton_state {
            AutomatonState::Accept(1) => Token::new(
                String::from_str("num"),
                Some(lexeme),
                Some(String::from_str("inteiro")),
            ),
            AutomatonState::Accept(2) | AutomatonState::Accept(3) => Token::new(
                String::from_str("num"),
                Some(lexeme),
                Some(String::from_str("real")),
            ),
            AutomatonState::Accept(4) => Token::new(
                String::from_str("lit"),
                Some(lexeme),
                Some(String::from_str("literal")),
            ),
            AutomatonState::Accept(5) => {
                match self.symbol_table.get(lexeme.clone()) {
                    Some(token) => token,
                    None => {
                        let token = Token::new(String::from_str("id"), Some(lexeme.clone()), None);
                        self.symbol_table.insert(lexeme.clone(), token);
                        Token::new(String::from_str("id"), Some(lexeme), None)
                    },
                }
            },
            AutomatonState::Accept(8) | AutomatonState::Accept(9) | AutomatonState::Accept(10)
            | AutomatonState::Accept(12) | AutomatonState::Accept(13) | AutomatonState::Accept(14) => {
                Token::new(String::from_str("opr"), Some(lexeme), None)
            },
            AutomatonState::Accept(11) => Token::new(String::from_str("rcb"), Some(lexeme), None),
            AutomatonState::Accept(15) => Token::new(String::from_str("opm"), Some(lexeme), None),
            AutomatonState::Accept(16) => Token::new(String::from_str("ab_p"), Some(lexeme), None),
            AutomatonState::Accept(17) => Token::new(String::from_str("fc_p"), Some(lexeme), None),
            AutomatonState::Accept(18) => Token::new(String::from_str("pt_v"), Some(lexeme), None),
            AutomatonState::Error(_) => Token::new(String::from_str("ERROR"), None, None),
            _ => Token::new(String::new(), Some(lexeme), None),
        }
    }

    /// Scans the next token of the source.
    pub fn scan(&mut self) -> (token: Token)
        requires
            old(self)@.wf(),
        ensures
            (token@, final(self)@) == old(self)@.scan(),
            final(self)@.wf(),
    {
        let mut lexeme = String::new();
        let mut automaton = Automaton::new();
        loop
            invariant
                self@.wf(),
                self@.scan_from(automaton, lexeme@) == old(self)@.scan(),
            decreases self@.unread(),
        {
            let ghost before = self@;
            match self.read_char() {
                Some(c) => {
                    let ghost gathered = lexeme@;
                    let ghost was = automaton;
                    automaton.advance(c);
                    proof {
                        crate::lexical_automaton::lemma_go_back_is_done(was, c);
                    }
                    match automaton.action {
                        Action::GoBack => {
                            self.put_back();
                        },
                        Action::Standard => {
                            lexeme.push(c);
                        },
                        Action::ClearLexeme => {
                            lexeme = String::new();
                        },
                        Action::ShowError => {
                            self.insert_error_msg(c, &automaton.state);
                        },
                        Action::Nothing => {},
                    }
                    assert((self@, lexeme@) == before.read().1.obey(automaton, c, gathered));
                    if automaton.done {
                        return self.build_token(lexeme, automaton.state);
                    }
                },
                None => {
                    match automaton.state {
                        AutomatonState::Accept(_) => {
                            if lexeme.as_str().unicode_len() > 0 {
                                return self.build_token(lexeme, automaton.state);
                            }
                        },
                        AutomatonState::NonAccept(_) => {
                            let state = AutomatonState::Error(5);
                            self.insert_error_msg(' ', &state);
                            return self.build_token(lexeme, state);
                        },
                        _ => {},
                    }
                    return Token::new(String::from_str("EOF"), Some(String::from_str("EOF")), None);
                },
            }
        }
    }
}


impl Scanner {
    /// Scans the next token that is no error: the lexical errors on the
    /// way are recorded, and their tokens dropped.
    pub fn safe_scan(&mut self) -> (token: Token)
        requires
            old(self)@.wf(),
        ensures
            (token@, final(self)@) == old(self)@.safe_scan(),
            final(self)@.wf(),
            token@.class != "ERROR"@,
    {
        loop
            invariant
                self@.wf(),
                self@.safe_scan() == old(self)@.safe_scan(),
            decreases self@.unread(),
        {
            let ghost before = self@;
            let token = self.scan();
            proof {
                lemma_scan_progress(before);
                lemma_eof_is_no_error();
            }
            if !same_text(token.class.as_str(), "ERROR") {
                return token;
            }
        }
    }

    /// The report of the lexical errors, line by line: a line that counts
    /// them, if there are any, then two lines for each, its number and its
    /// diagnostic.
    pub fn show_error_msgs(&self) -> (lines: Vec<String>)
        ensures
            texts(lines@) == report(
                "Foi encontrado 1 erro léxico"@,
                "Foi encontrado "@,
                " erros léxicos"@,
                self@.errors,
            ),
    {
        let lines = report_lines(
            "Foi encontrado 1 erro léxico",
            "Foi encontrado ",
            " erros léxicos",
            &self.error_msgs,
        );
        lines
    }
}

} // verus!
