use crate::diagnostic::{is_fatal, repair_of, semantic_error, syntactic_error, Repair, MAX_RECOVERIES};
use crate::emission::{
    assignment, block_end, declaration_head, for_header, if_header, number_argument, operation,
    operation_statement, read_statement, temp_name, variable_argument, write_statement,
};
use crate::grammar::{productions, RuleView};
use crate::obj_file::{rendered, ObjFileView, TempVarType};
use crate::scanner::{eof_token, plain_token, ScannerView};
use crate::slr_table::{action_at, goto_at, SlrAction};
use crate::stack::{without_attributes, Attributes};
use crate::token::TokenView;
use vstd::prelude::*;

verus! {

/// The most reductions by rules with one symbol on the right side that
/// follow one another: such a run never uses a rule twice, so a longer
/// one shows that the tables belong to no grammar of this language.
pub const MAX_CHAIN: u8 = 38;

/// The text of an attribute of a token; the empty text where the token
/// has no such attribute.
pub open spec fn text_of(s: Option<Seq<char>>) -> Seq<char> {
    match s {
        Some(t) => t,
        None => Seq::empty(),
    }
}

/// Whether tokens of the class stand for the end of the input.
pub open spec fn is_end(class: Seq<char>) -> bool {
    class == "$"@ || class == "EOF"@
}

/// Whether tokens of the class are operators.
pub open spec fn is_operator(class: Seq<char>) -> bool {
    class == "opr"@ || class == "opm"@
}

/// Whether tokens of the class are identifiers. Their attributes go on
/// the semantic stack when they are shifted.
pub open spec fn is_identifier(class: Seq<char>) -> bool {
    class == "id"@
}

/// The attributes of a token: its class, its lexeme and its type.
pub open spec fn attributes_of(token: TokenView) -> Attributes {
    (token.class, text_of(token.lexeme), text_of(token.tk_type))
}

/// The semicolon that a recovery puts into the input.
pub open spec fn semicolon_token() -> TokenView {
    plain_token("pt_v"@, ";"@)
}

/// The opening parenthesis that a recovery puts into the input.
pub open spec fn opening_token() -> TokenView {
    plain_token("ab_p"@, "("@)
}

/// What a parser is.
///
/// `states` is the syntactic stack and `attributes` the semantic stack,
/// both with their top at the end. `token` is the token that the parser
/// looks at, `last_token` the token that was shifted last, and `buffer`
/// holds the tokens to read before the scanner is asked again, the next
/// one at its end. `operator` is the lexeme of the operator that was
/// shifted last. `chain` counts the reductions by
/// rules with one symbol on the right side since the last step of another
/// kind. `rules` are the rules of the grammar that the parser holds.
pub struct ParserView {
    pub states: Seq<u8>,
    pub attributes: Seq<Attributes>,
    pub buffer: Seq<TokenView>,
    pub token: TokenView,
    pub last_token: TokenView,
    pub operator: Seq<char>,
    pub object: ObjFileView,
    pub recoveries: nat,
    pub chain: nat,
    pub syntactic: Seq<Seq<char>>,
    pub semantic: Seq<Seq<char>>,
    pub actions: Map<(u8, int), SlrAction>,
    pub gotos: Map<(u8, int), u8>,
    pub rules: Seq<RuleView>,
}

impl ParserView {
    /// The parser before its first step, with the tables given: the
    /// initial state on the syntactic stack, the bottom entry on the
    /// semantic stack, and nothing read, written or recorded.
    pub open spec fn start(actions: Map<(u8, int), SlrAction>, gotos: Map<(u8, int), u8>) -> ParserView {
        ParserView {
            states: seq![0u8],
            attributes: seq![crate::stack::sentinel()],
            buffer: Seq::empty(),
            token: TokenView { class: Seq::empty(), lexeme: None, tk_type: None },
            last_token: TokenView { class: Seq::empty(), lexeme: None, tk_type: None },
            operator: Seq::empty(),
            object: ObjFileView { temp_vars: Seq::empty(), content: Seq::empty() },
            recoveries: 0,
            chain: 0,
            syntactic: Seq::empty(),
            semantic: Seq::empty(),
            actions,
            gotos,
            rules: productions(),
        }
    }

    /// Whether the stacks and the counters are as the parser keeps them.
    pub open spec fn wf(self) -> bool {
        &&& self.states.len() >= 1
        &&& self.attributes.len() >= 1
        &&& self.recoveries <= MAX_RECOVERIES
        &&& self.recoveries <= self.syntactic.len()
        &&& self.chain <= MAX_CHAIN
        &&& self.rules == productions()
    }

    /// The entry on top of the semantic stack.
    pub open spec fn top(self) -> Attributes {
        self.attributes.last()
    }

    /// The parser with `attrs` on top of the semantic stack.
    pub open spec fn push(self, attrs: Attributes) -> ParserView {
        ParserView { attributes: self.attributes.push(attrs), ..self }
    }

    /// The parser with `count` entries taken off the semantic stack.
    pub open spec fn pop(self, count: nat) -> ParserView {
        ParserView { attributes: without_attributes(self.attributes, count), ..self }
    }

    /// The parser with `text` appended to the body of the object file.
    pub open spec fn emit(self, text: Seq<char>) -> ParserView {
        ParserView {
            object: ObjFileView { content: self.object.content.push(text), ..self.object },
            ..self
        }
    }

    /// The parser with one more temporary variable, of the kind given.
    pub open spec fn allocate(self, kind: TempVarType) -> ParserView {
        ParserView {
            object: ObjFileView { temp_vars: self.object.temp_vars.push(kind), ..self.object },
            ..self
        }
    }

    /// The parser with one more semantic diagnostic.
    pub open spec fn complain(self, text: Seq<char>) -> ParserView {
        ParserView { semantic: self.semantic.push(text), ..self }
    }
}

/// The type that the table gives to `lexeme`, if it binds the lexeme to a
/// token that has a type.
pub open spec fn declared_type(table: Map<Seq<char>, TokenView>, lexeme: Seq<char>) -> Option<
    Seq<char>,
> {
    if table.contains_key(lexeme) {
        table[lexeme].tk_type
    } else {
        None
    }
}

/// The table after the identifier `token` is declared with the type
/// `tk_type`: its lexeme is bound to the token with that type; a lexeme
/// that the table does not bind stays unbound.
pub open spec fn declare(table: Map<Seq<char>, TokenView>, token: TokenView, tk_type: Seq<char>) -> Map<
    Seq<char>,
    TokenView,
> {
    if table.contains_key(text_of(token.lexeme)) {
        table.insert(text_of(token.lexeme), TokenView { tk_type: Some(tk_type), ..token })
    } else {
        table
    }
}

/// The name of the type that the reserved word `word` stands for: the
/// type of the token that the table binds to the word, or the word itself
/// where there is no such type.
pub open spec fn named_type(table: Map<Seq<char>, TokenView>, word: Seq<char>) -> Seq<char> {
    match declared_type(table, word) {
        Some(tk_type) => tk_type,
        None => word,
    }
}

/// The kind of the temporary variable that holds a value of the type.
pub open spec fn temp_kind(tk_type: Seq<char>) -> TempVarType {
    if tk_type == "inteiro"@ {
        TempVarType::Int
    } else {
        TempVarType::Real
    }
}

/// How a run of the parser stands after a step.
#[derive(Clone, Copy, PartialEq, Eq, Structural, Debug)]
pub enum Status {
    /// The analysis goes on.
    Going,
    /// The input was accepted.
    Accepted,
    /// An error that has no recovery ended the analysis.
    Stopped,
}

/// A compilation under way: the parser and the scanner it reads from.
pub struct Compilation {
    pub parser: ParserView,
    pub scanner: ScannerView,
}

impl Compilation {
    /// Whether both parts are as they are kept.
    pub open spec fn wf(self) -> bool {
        self.parser.wf() && self.scanner.wf()
    }

    /// The compilation with the parser replaced.
    pub open spec fn with(self, parser: ParserView) -> Compilation {
        Compilation { parser, ..self }
    }

    /// The compilation with a semantic diagnostic of the given kind
    /// recorded at the cursor of the scanner.
    pub open spec fn complain(self, kind: u8, lexeme: Seq<char>) -> Compilation {
        self.with(
            self.parser.complain(
                semantic_error(kind, self.scanner.row as nat, self.scanner.col() as nat, lexeme),
            ),
        )
    }

    /// The end of the block of declarations: an empty line.
    pub open spec fn rule_declarations_end(self) -> Compilation {
        self.with(self.parser.emit("\n"@))
    }

    /// The end of a declaration.
    pub open spec fn rule_declaration_end(self) -> Compilation {
        self.with(self.parser.emit(";\n"@))
    }

    /// The variable of a declaration, which is the token shifted last.
    /// The entry that its shift put on the semantic stack leaves if it
    /// lies on top; the entry on top is then that of the type, which gives
    /// the type and leaves. The identifier gets the type in the symbol
    /// table, and its lexeme is written.
    pub open spec fn rule_declared(self) -> Compilation {
        let id = self.parser.last_token;
        let typed = if is_identifier(self.parser.top().0) {
            self.parser.pop(1)
        } else {
            self.parser
        };
        let tipo = typed.top();
        Compilation {
            parser: typed.pop(1).emit(text_of(id.lexeme)),
            scanner: ScannerView { table: declare(self.scanner.table, id, tipo.2), ..self.scanner },
        }
    }

    /// A type: its name goes on the semantic stack and is written as the
    /// start of a declaration.
    pub open spec fn rule_type(self, word: Seq<char>) -> Compilation {
        let name = named_type(self.scanner.table, word);
        self.with(self.parser.push(("TIPO"@, Seq::empty(), name)).emit(declaration_head(name)))
    }

    /// Reading a variable: the identifier leaves the semantic stack; the
    /// statement is written if the variable is declared.
    pub open spec fn rule_read(self) -> Compilation {
        let id = self.parser.top();
        let popped = self.with(self.parser.pop(1));
        match declared_type(self.scanner.table, id.1) {
            Some(tk_type) => popped.with(popped.parser.emit(read_statement(tk_type, id.1))),
            None => popped.complain(1, id.1),
        }
    }

    /// Writing an argument: the argument leaves the semantic stack and
    /// the statement is written.
    pub open spec fn rule_write(self) -> Compilation {
        let argument = self.parser.top();
        self.with(self.parser.pop(1).emit(write_statement(argument.1)))
    }

    /// A literal as an argument, which is the token shifted last: it
    /// stands for itself.
    pub open spec fn rule_argument_literal(self) -> Compilation {
        let lit = self.parser.last_token;
        self.with(self.parser.push(("ARG"@, text_of(lit.lexeme), "literal"@)))
    }

    /// A number as an argument, which is the token shifted last: the
    /// format of its type and the number.
    pub open spec fn rule_argument_number(self) -> Compilation {
        let num = attributes_of(self.parser.last_token);
        self.with(self.parser.push(("ARG"@, number_argument(num.2, num.1), num.2)))
    }

    /// A variable as an argument, which is the token shifted last: the
    /// format of its type and the variable, if it is declared. The
    /// argument goes on the semantic stack and nothing leaves it.
    pub open spec fn rule_argument_variable(self) -> Compilation {
        let lexeme = text_of(self.parser.last_token.lexeme);
        match declared_type(self.scanner.table, lexeme) {
            Some(tk_type) => self.with(
                self.parser.push(("ARG"@, variable_argument(tk_type, lexeme), tk_type)),
            ),
            None => self.complain(2, lexeme),
        }
    }

    /// An assignment: the value is on top of the semantic stack and the
    /// identifier below it. Both leave the stack; the statement is written
    /// if the variable is declared with the type of the value.
    pub open spec fn rule_assignment(self) -> Compilation {
        let value = self.parser.top();
        let id = self.parser.pop(1).top();
        let popped = self.with(self.parser.pop(2));
        match declared_type(self.scanner.table, id.1) {
            Some(tk_type) => if value.2 == tk_type {
                popped.with(popped.parser.emit(assignment(id.1, value.1)))
            } else {
                popped.complain(3, id.1)
            },
            None => popped.complain(1, id.1),
        }
    }

    /// An arithmetic operation: the right operand is on top of the
    /// semantic stack and the left operand just below it; the operator is
    /// the one that was shifted last. Where the operands have one type,
    /// which is not that of literals, the two leave the stack, a new
    /// temporary variable of that type takes the result, and its name
    /// goes on the stack as the value. Else the stack stays as it is and
    /// the error is recorded.
    pub open spec fn rule_arithmetic(self) -> Compilation {
        let right = self.parser.top();
        let left = self.parser.pop(1).top();
        let index = self.parser.object.temp_vars.len();
        if left.2 == right.2 && right.2 != "literal"@ {
            self.with(
                self.parser.pop(2).push(("LD"@, temp_name(index), right.2)).allocate(
                    temp_kind(right.2),
                ).emit(operation_statement(index, left.1, self.parser.operator, right.1)),
            )
        } else {
            self.complain(4, Seq::empty())
        }
    }

    /// An operand as a value.
    pub open spec fn rule_value(self) -> Compilation {
        let operand = self.parser.top();
        self.with(self.parser.pop(1).push(("LD"@, operand.1, operand.2)))
    }

    /// A variable as an operand: its entry is on top of the semantic
    /// stack and leaves it; the operand takes its place if the variable is
    /// declared.
    pub open spec fn rule_operand_variable(self) -> Compilation {
        let id = self.parser.top();
        let popped = self.with(self.parser.pop(1));
        match declared_type(self.scanner.table, id.1) {
            Some(tk_type) => popped.with(popped.parser.push(("OPRD"@, id.1, tk_type))),
            None => popped.complain(2, id.1),
        }
    }

    /// A number as an operand, which is the token shifted last.
    pub open spec fn rule_operand_number(self) -> Compilation {
        let num = attributes_of(self.parser.last_token);
        self.with(self.parser.push(("OPRD"@, num.1, num.2)))
    }

    /// The end of a block.
    pub open spec fn rule_block_end(self) -> Compilation {
        self.with(self.parser.emit(block_end()))
    }

    /// The header of a conditional: the update of the expression is on
    /// top of the semantic stack and the expression below it. Both leave
    /// the stack and the line that opens the conditional is written.
    pub open spec fn rule_if(self) -> Compilation {
        let expression = self.parser.pop(1).top();
        self.with(self.parser.pop(2).emit(if_header(expression.1)))
    }

    /// A relation: the operands lie as for an arithmetic operation.
    /// Where neither operand is a literal, the two leave the stack and a
    /// new temporary variable of the integers takes the result; its name
    /// goes on the stack as the expression, and above it the operation
    /// itself, which a loop evaluates again after each turn. Else the
    /// stack stays as it is and the error is recorded.
    pub open spec fn rule_relation(self) -> Compilation {
        let right = self.parser.top();
        let left = self.parser.pop(1).top();
        let index = self.parser.object.temp_vars.len();
        let popped = self.with(self.parser.pop(2));
        if right.2 != "literal"@ && left.2 != "literal"@ {
            popped.with(
                popped.parser.push(("EXP_R"@, temp_name(index), Seq::empty())).push(
                    (
                        "Tx_expr"@,
                        operation(index, left.1, self.parser.operator, right.1),
                        Seq::empty(),
                    ),
                ).allocate(TempVarType::Int).emit(
                    operation_statement(index, left.1, self.parser.operator, right.1),
                ),
            )
        } else {
            self.complain(5, Seq::empty())
        }
    }

    /// The header of a loop: the update of the expression is on top of
    /// the semantic stack and the expression below it. Both leave the
    /// stack and the line that opens the loop is written.
    pub open spec fn rule_for(self) -> Compilation {
        let update = self.parser.top();
        let expression = self.parser.pop(1).top();
        self.with(self.parser.pop(2).emit(for_header(expression.1, update.1)))
    }

    /// The semantic action of the rule of the given number. The rules that
    /// are not named here have none.
    pub open spec fn semantic_action(self, r: u8) -> Compilation {
        if r == 5 {
            self.rule_declarations_end()
        } else if r == 6 {
            self.rule_declaration_end()
        } else if r == 7 {
            self.rule_declared()
        } else if r == 8 {
            self.rule_type("inteiro"@)
        } else if r == 9 {
            self.rule_type("real"@)
        } else if r == 10 {
            self.rule_type("literal"@)
        } else if r == 12 {
            self.rule_read()
        } else if r == 13 {
            self.rule_write()
        } else if r == 14 {
            self.rule_argument_literal()
        } else if r == 15 {
            self.rule_argument_number()
        } else if r == 16 {
            self.rule_argument_variable()
        } else if r == 18 {
            self.rule_assignment()
        } else if r == 19 {
            self.rule_arithmetic()
        } else if r == 20 {
            self.rule_value()
        } else if r == 21 {
            self.rule_operand_variable()
        } else if r == 22 {
            self.rule_operand_number()
        } else if r == 24 {
            self.rule_block_end()
        } else if r == 25 {
            self.rule_if()
        } else if r == 26 {
            self.rule_relation()
        } else if r == 32 {
            self.rule_block_end()
        } else if r == 33 {
            self.rule_for()
        } else {
            self
        }
    }

    /// Reading the next token: the one at the end of the buffer, or, where
    /// the buffer is empty, the next one of the scanner that is no error.
    pub open spec fn next_token(self) -> Compilation {
        if self.parser.buffer.len() > 0 {
            self.with(
                ParserView {
                    token: self.parser.buffer.last(),
                    buffer: self.parser.buffer.drop_last(),
                    ..self.parser
                },
            )
        } else {
            let (token, scanner) = self.scanner.safe_scan();
            Compilation { parser: ParserView { token, ..self.parser }, scanner }
        }
    }

    /// The first token read.
    pub open spec fn begin(
        actions: Map<(u8, int), SlrAction>,
        gotos: Map<(u8, int), u8>,
        scanner: ScannerView,
    ) -> Compilation {
        (Compilation { parser: ParserView::start(actions, gotos), scanner }).next_token()
    }

    /// A shift: the state given goes on the syntactic stack; the
    /// attributes of an identifier go on the semantic stack, and the
    /// lexeme of an operator is kept as the last operator; the token is
    /// from now on the one shifted last, and the next token is read.
    pub open spec fn shift(self, target: u8) -> Compilation {
        let token = self.parser.token;
        self.with(
            ParserView {
                states: self.parser.states.push(target),
                attributes: if is_identifier(token.class) {
                    self.parser.attributes.push(attributes_of(token))
                } else {
                    self.parser.attributes
                },
                last_token: token,
                operator: if is_operator(token.class) {
                    text_of(token.lexeme)
                } else {
                    self.parser.operator
                },
                chain: 0,
                ..self.parser
            },
        ).next_token()
    }

    /// The number of symbols on the right side of the rule of the given
    /// number.
    pub open spec fn arity(r: u8) -> nat {
        productions()[r - 1].right.len()
    }

    /// The state that the reduction by the rule of the given number goes
    /// to: the entry of the goto table for the state that the reduction
    /// uncovers and the left side of the rule.
    pub open spec fn target(self, r: u8) -> u8 {
        goto_at(
            self.parser.gotos,
            self.parser.states[self.parser.states.len() - Self::arity(r) - 1],
            productions()[r - 1].left.text,
        )
    }

    /// Whether the reduction by the rule of the given number can be made:
    /// there is such a rule, the syntactic stack holds more states than
    /// the rule has symbols on its right side, the goto table has an entry
    /// for the state that the reduction uncovers, and the run of
    /// reductions by rules with one symbol has not grown too long.
    pub open spec fn reducible(self, r: u8) -> bool {
        &&& 1 <= r <= productions().len()
        &&& Self::arity(r) < self.parser.states.len()
        &&& self.target(r) != 0
        &&& Self::arity(r) == 1 ==> self.parser.chain < MAX_CHAIN
    }

    /// A reduction: the semantic action of the rule runs first; then as
    /// many states as the rule has symbols on its right side leave the
    /// syntactic stack, and the state that the goto table gives goes on
    /// it.
    pub open spec fn reduce(self, r: u8) -> Compilation {
        let after = self.semantic_action(r);
        let states = self.parser.states;
        after.with(
            ParserView {
                states: states.take(states.len() - Self::arity(r)).push(self.target(r)),
                chain: if Self::arity(r) == 1 {
                    self.parser.chain + 1
                } else {
                    0
                },
                ..after.parser
            },
        )
    }

    /// The recovery from the syntactic error of the given code; the
    /// offending token is the one at the end of the buffer. It says
    /// whether the analysis goes on. Once the compilation has made its
    /// hundred recoveries there is no further one.
    pub open spec fn recover(self, code: u8) -> (bool, Compilation) {
        let parser = self.parser;
        let buffer = parser.buffer;
        let closing = buffer.len() > 0 && buffer.last().class == "fc_p"@;
        let lexeme = if buffer.len() > 0 {
            text_of(buffer.last().lexeme)
        } else {
            Seq::empty()
        };
        let rest = if buffer.len() > 0 {
            buffer.drop_last()
        } else {
            buffer
        };
        if parser.recoveries >= MAX_RECOVERIES {
            (false, self)
        } else {
            (
                !is_fatal(code, closing),
                self.with(
                    ParserView {
                        buffer: match repair_of(code) {
                            Repair::Finish => seq![eof_token()],
                            Repair::Semicolon => buffer.push(semicolon_token()),
                            Repair::Skip => rest,
                            Repair::Drop => rest,
                            Repair::Replace => rest.push(opening_token()),
                            Repair::Open => buffer.push(opening_token()),
                            Repair::Operand => rest,
                            Repair::Stop => buffer,
                        },
                        recoveries: parser.recoveries + 1,
                        syntactic: parser.syntactic.push(
                            syntactic_error(
                                code,
                                closing,
                                self.scanner.row as nat,
                                self.scanner.col() as nat,
                                lexeme,
                            ),
                        ),
                        ..parser
                    },
                ),
            )
        }
    }

    /// What the parser does in the state on top of the syntactic stack
    /// with the token it looks at: the entry of the action table, unless
    /// that entry cannot be carried out, which is the error of code zero.
    /// No shift of the end of the input can be carried out, and no
    /// reduction that is not reducible.
    pub open spec fn action(self) -> SlrAction {
        let entry = action_at(self.parser.actions, self.parser.states.last(), self.parser.token.class);
        match entry {
            SlrAction::S(_) => if is_end(self.parser.token.class) {
                SlrAction::E(0)
            } else {
                entry
            },
            SlrAction::R(r) => if self.reducible(r) {
                entry
            } else {
                SlrAction::E(0)
            },
            _ => entry,
        }
    }

    /// One step of the analysis. On an error the token goes back to the
    /// buffer and the recovery runs; if the analysis goes on, the next
    /// token is read.
    #[verifier::opaque]
    pub open spec fn step(self) -> (Status, Compilation) {
        match self.action() {
            SlrAction::S(target) => (Status::Going, self.shift(target)),
            SlrAction::R(r) => (Status::Going, self.reduce(r)),
            SlrAction::Acc => (Status::Accepted, self),
            SlrAction::E(code) => {
                let (goes_on, after) = self.with(
                    ParserView { buffer: self.parser.buffer.push(self.parser.token), ..self.parser },
                ).recover(code);
                if goes_on {
                    (Status::Going, after.next_token())
                } else {
                    (Status::Stopped, after)
                }
            },
        }
    }

    /// The number of diagnostics of all three kinds.
    pub open spec fn errors(self) -> nat {
        self.scanner.errors.len() + self.parser.syntactic.len() + self.parser.semantic.len()
    }

    /// The recoveries that the compilation may still make.
    pub open spec fn budget(self) -> nat {
        (MAX_RECOVERIES - self.parser.recoveries) as nat
    }

    /// How much input is still to be shifted: what the scanner has not
    /// read, the tokens of the buffer, and the token that the parser looks
    /// at unless it is the end of the input.
    pub open spec fn pending(self) -> nat {
        self.scanner.unread() + self.parser.buffer.len() + (if is_end(self.parser.token.class) {
            0nat
        } else {
            1nat
        })
    }

    /// The reductions by rules with one symbol that may still follow one
    /// another.
    pub open spec fn slack(self) -> nat {
        (MAX_CHAIN - self.parser.chain) as nat
    }

    /// Whether `next` is nearer to the end of the analysis than `self`:
    /// it has made one recovery more; or as many, with less input
    /// pending; or as much, with a lower syntactic stack; or one as high,
    /// with a longer run of reductions by rules with one symbol.
    pub open spec fn nearer(self, next: Compilation) -> bool {
        ||| next.budget() < self.budget()
        ||| (next.budget() == self.budget() && next.pending() < self.pending())
        ||| (next.budget() == self.budget() && next.pending() == self.pending()
            && next.parser.states.len() < self.parser.states.len())
        ||| (next.budget() == self.budget() && next.pending() == self.pending()
            && next.parser.states.len() == self.parser.states.len() && next.slack() < self.slack())
    }

    /// The analysis from here to its end: whether the input was accepted,
    /// and the compilation as the last step left it.
    pub open spec fn run(self) -> (bool, Compilation)
        decreases self.budget(), self.pending(), self.parser.states.len(), self.slack(),
        when self.wf()
    {
        let (status, next) = self.step();
        match status {
            Status::Going => {
                proof {
                    lemma_step(self);
                }
                next.run()
            },
            Status::Accepted => (true, next),
            Status::Stopped => (false, next),
        }
    }

    /// The whole compilation of what the scanner holds, with the tables
    /// given.
    pub open spec fn compile(
        actions: Map<(u8, int), SlrAction>,
        gotos: Map<(u8, int), u8>,
        scanner: ScannerView,
    ) -> (bool, Compilation) {
        Self::begin(actions, gotos, scanner).run()
    }

    /// The text of the object file that the compilation leaves: there is
    /// one if and only if no diagnostic of any kind was recorded.
    pub open spec fn output(self) -> Option<Seq<char>> {
        if self.errors() == 0 {
            Some(rendered(self.parser.object))
        } else {
            None
        }
    }
}

/// The declaration of a variable where the entry of the type is on top of
/// the semantic stack: the identifier is the token shifted last; it gets
/// the type in the symbol table and its lexeme is written; the entry of
/// the type leaves the stack, and nothing else does.
pub proof fn lemma_declaration(c: Compilation)
    requires
        c.parser.top().0 == "TIPO"@,
    ensures
        c.semantic_action(7) == (Compilation {
            parser: c.parser.pop(1).emit(text_of(c.parser.last_token.lexeme)),
            scanner: ScannerView {
                table: declare(c.scanner.table, c.parser.last_token, c.parser.top().2),
                ..c.scanner
            },
        }),
{
    reveal_strlit("TIPO");
    reveal_strlit("id");
    assert("TIPO"@.len() == 4);
    assert("id"@.len() == 2);
}

/// Stack balance: a reduction that can be made takes as many states off
/// the syntactic stack as the rule has symbols on its right side, leaves
/// the states below them as they were, and puts on them the state that
/// the goto table gives for the state it uncovers and the left side of
/// the rule; the table has that entry.
pub proof fn lemma_reduce_balance(c: Compilation, r: u8)
    requires
        c.wf(),
        c.reducible(r),
    ensures
        1 <= Compilation::arity(r) <= 5,
        c.reduce(r).parser.states.len() == c.parser.states.len() - Compilation::arity(r) + 1,
        c.reduce(r).parser.states.drop_last() == c.parser.states.take(
            c.parser.states.len() - Compilation::arity(r),
        ),
        c.reduce(r).parser.states.last() == c.target(r),
        crate::slr_table::nonterminal_index(productions()[r - 1].left.text) is Some,
        c.parser.gotos.contains_key(
            (
                c.parser.states[c.parser.states.len() - Compilation::arity(r) - 1],
                crate::slr_table::nonterminal_index(productions()[r - 1].left.text)->0,
            ),
        ),
        c.target(r) != 0,
{
    crate::grammar::lemma_rule_shapes();
    lemma_semantic_action(c, r);
    let states = c.parser.states;
    let below = states.take(states.len() - Compilation::arity(r));
    assert(below.push(c.target(r)).drop_last() =~= below);
}

/// Stack balance of a step: where the action table has a reduction for
/// the state on top and the token looked at, and the reduction can be
/// made, the step makes it. The semantic action runs on the stacks as the
/// step found them; then as many states as the rule has symbols on its
/// right side leave the syntactic stack, and the state of the goto table,
/// which has that entry, goes on it. The token looked at stays. Where the
/// reduction cannot be made, the step is that of the error of code zero.
pub proof fn lemma_reducing_step(c: Compilation, r: u8)
    requires
        c.wf(),
        action_at(c.parser.actions, c.parser.states.last(), c.parser.token.class) == SlrAction::R(r),
    ensures
        !c.reducible(r) ==> c.action() == SlrAction::E(0),
        c.reducible(r) ==> ({
            let next = c.step().1;
            let kept = c.parser.states.len() - Compilation::arity(r);
            &&& c.step() == (Status::Going, c.reduce(r))
            &&& next.parser.states.len() == kept + 1
            &&& next.parser.states.take(kept) == c.parser.states.take(kept)
            &&& next.parser.states.last() == goto_at(
                c.parser.gotos,
                c.parser.states[kept - 1],
                productions()[r - 1].left.text,
            )
            &&& next.parser.states.last() != 0
            &&& next.parser.token == c.parser.token
            &&& next.parser.buffer == c.parser.buffer
            &&& next.parser.attributes == c.semantic_action(r).parser.attributes
            &&& next.parser.object == c.semantic_action(r).parser.object
            &&& next.scanner == c.semantic_action(r).scanner
        }),
{
    reveal(Compilation::step);
    if c.reducible(r) {
        lemma_reduce_balance(c, r);
        lemma_semantic_action(c, r);
        let states = c.parser.states;
        let kept = states.len() - Compilation::arity(r);
        assert(states.take(kept).push(c.target(r)).take(kept) =~= states.take(kept));
    }
}

/// A shifting step: where the parser shifts, the state of the action
/// table goes on the syntactic stack, the token looked at becomes the one
/// shifted last, and the next token is read. The end of the input is
/// never shifted.
pub proof fn lemma_shifting_step(c: Compilation, target: u8)
    requires
        c.wf(),
        c.action() == SlrAction::S(target),
    ensures
        !is_end(c.parser.token.class),
        c.step() == (Status::Going, c.shift(target)),
        c.step().1.parser.states == c.parser.states.push(target),
        c.step().1.parser.last_token == c.parser.token,
        c.step().1.pending() < c.pending(),
{
    reveal(Compilation::step);
    lemma_step(c);
    let shifted = c.with(
        ParserView {
            states: c.parser.states.push(target),
            attributes: if is_identifier(c.parser.token.class) {
                c.parser.attributes.push(attributes_of(c.parser.token))
            } else {
                c.parser.attributes
            },
            last_token: c.parser.token,
            operator: if is_operator(c.parser.token.class) {
                text_of(c.parser.token.lexeme)
            } else {
                c.parser.operator
            },
            chain: 0,
            ..c.parser
        },
    );
    lemma_next_token(shifted);
}

/// What a recovery does to the input, where the compilation may still
/// make one and the offending token is in the buffer: it takes the
/// offending token away, or puts one token before it, or puts the end of
/// the input in the place of all that is left; or it ends the analysis.
/// It is counted, and leaves one diagnostic.
pub proof fn lemma_recovery(c: Compilation, code: u8)
    requires
        c.parser.recoveries < MAX_RECOVERIES,
        c.parser.buffer.len() > 0,
    ensures
        c.recover(code).1.parser.recoveries == c.parser.recoveries + 1,
        c.recover(code).1.parser.syntactic.len() == c.parser.syntactic.len() + 1,
        c.recover(code).0 ==> ({
            let before = c.parser.buffer;
            let after = c.recover(code).1.parser.buffer;
            ||| after == before.drop_last()
            ||| after == before.drop_last().push(opening_token())
            ||| after == before.push(opening_token())
            ||| after == before.push(semicolon_token())
            ||| after == seq![eof_token()]
        }),
{
}

/// A step that recovers from an error and goes on has changed the input:
/// the offending token is gone and the next one is looked at; or another
/// token is looked at in its place; or a token is looked at before it;
/// or the end of the input is looked at and nothing is left to read
/// before the scanner is asked. In each case one more recovery is
/// counted.
pub proof fn lemma_recovery_step(c: Compilation, code: u8)
    requires
        c.wf(),
        c.action() == SlrAction::E(code),
        c.step().0 == Status::Going,
    ensures
        ({
            let next = c.step().1;
            let counted = c.with(
                ParserView {
                    recoveries: c.parser.recoveries + 1,
                    syntactic: next.parser.syntactic,
                    ..c.parser
                },
            );
            let looking_at = |token: TokenView, buffer: Seq<TokenView>|
                counted.with(ParserView { token, buffer, ..counted.parser });
            match repair_of(code) {
                Repair::Skip => next == counted.next_token(),
                Repair::Drop => next == counted.next_token(),
                Repair::Operand => next == counted.next_token(),
                Repair::Replace => next == looking_at(opening_token(), c.parser.buffer),
                Repair::Open => next == looking_at(
                    opening_token(),
                    c.parser.buffer.push(c.parser.token),
                ),
                Repair::Semicolon => next == looking_at(
                    semicolon_token(),
                    c.parser.buffer.push(c.parser.token),
                ),
                Repair::Finish => next == looking_at(eof_token(), Seq::empty()),
                Repair::Stop => false,
            }
        }),
{
    reveal(Compilation::step);
    let pushed = c.parser.buffer.push(c.parser.token);
    assert(pushed.drop_last() =~= c.parser.buffer);
    assert(pushed.drop_last().push(opening_token()).drop_last() =~= c.parser.buffer);
    assert(pushed.push(opening_token()).drop_last() =~= pushed);
    assert(pushed.push(semicolon_token()).drop_last() =~= pushed);
    assert(seq![eof_token()].drop_last() =~= Seq::<TokenView>::empty());
}

/// Progress after a recovery that goes on: either the offending token
/// has left the input for good, or the parser looks at a token that the
/// recovery has put in, and where the action table shifts that token the
/// next step shifts it. Whether the table shifts it is a matter of the
/// table.
pub proof fn lemma_recovery_progress(c: Compilation, code: u8, target: u8)
    requires
        c.wf(),
        c.action() == SlrAction::E(code),
        c.step().0 == Status::Going,
    ensures
        ({
            let next = c.step().1;
            let removed = next.parser.buffer == c.parser.buffer.drop_last() || next.parser.buffer
                == c.parser.buffer || next.parser.buffer.len() == 0;
            let put_in = next.parser.token == opening_token() || next.parser.token
                == semicolon_token() || next.parser.token == eof_token();
            &&& next.wf()
            &&& match repair_of(code) {
                Repair::Skip => removed,
                Repair::Drop => removed,
                Repair::Operand => removed,
                Repair::Replace => removed && put_in,
                Repair::Finish => removed && put_in,
                Repair::Open => put_in,
                Repair::Semicolon => put_in,
                Repair::Stop => false,
            }
            &&& next.action() == SlrAction::S(target) ==> next.step() == (
                Status::Going,
                next.shift(target),
            ) && next.step().1.parser.last_token == next.parser.token
        }),
{
    lemma_step(c);
    lemma_recovery_step(c, code);
    let next = c.step().1;
    if next.action() == SlrAction::S(target) {
        lemma_shifting_step(next, target);
    }
}

/// Only an input that was accepted leaves no diagnostic: an analysis that
/// was stopped has recorded a syntactic error.
pub proof fn lemma_stopped_has_errors(c: Compilation)
    requires
        c.wf(),
    ensures
        !c.run().0 ==> c.run().1.parser.syntactic.len() >= 1,
        c.run().1.wf(),
        c.run().1.output() is Some ==> c.run().0,
    decreases c.budget(), c.pending(), c.parser.states.len(), c.slack(),
{
    lemma_step(c);
    let (status, next) = c.step();
    match status {
        Status::Going => {
            lemma_stopped_has_errors(next);
        },
        Status::Accepted => {},
        Status::Stopped => {
            reveal(Compilation::step);
        },
    }
}

/// A semantic action changes the semantic stack, the object file, the
/// semantic diagnostics and the symbol table, and nothing else.
pub proof fn lemma_semantic_action(c: Compilation, r: u8)
    requires
        c.wf(),
    ensures
        c.semantic_action(r).wf(),
        c.semantic_action(r).parser.attributes.len() >= 1,
        c.semantic_action(r).parser == (ParserView {
            attributes: c.semantic_action(r).parser.attributes,
            object: c.semantic_action(r).parser.object,
            semantic: c.semantic_action(r).parser.semantic,
            ..c.parser
        }),
        c.semantic_action(r).scanner == (ScannerView {
            table: c.semantic_action(r).scanner.table,
            ..c.scanner
        }),
{
}

/// Reading a token keeps the compilation in order, and leaves no more
/// input pending than there was, the token read counted in.
pub proof fn lemma_next_token(c: Compilation)
    requires
        c.wf(),
    ensures
        c.next_token().wf(),
        c.next_token().pending() <= c.scanner.unread() + c.parser.buffer.len(),
        c.next_token().parser == (ParserView {
            token: c.next_token().parser.token,
            buffer: c.next_token().parser.buffer,
            ..c.parser
        }),
{
    if c.parser.buffer.len() == 0 {
        crate::scanner::lemma_safe_scan_progress(c.scanner);
    }
}

/// A step keeps the compilation in order, and a step after which the
/// analysis goes on brings it nearer to its end.
pub proof fn lemma_step(c: Compilation)
    requires
        c.wf(),
    ensures
        c.step().1.wf(),
        c.step().0 == Status::Going ==> c.nearer(c.step().1),
        c.step().1.parser.actions == c.parser.actions,
        c.step().1.parser.gotos == c.parser.gotos,
{
    reveal(Compilation::step);
    crate::grammar::lemma_rule_shapes();
    match c.action() {
        SlrAction::S(target) => {
            let shifted = c.with(
                ParserView {
                    states: c.parser.states.push(target),
                    attributes: if is_identifier(c.parser.token.class) {
                        c.parser.attributes.push(attributes_of(c.parser.token))
                    } else {
                        c.parser.attributes
                    },
                    last_token: c.parser.token,
                    operator: if is_operator(c.parser.token.class) {
                        text_of(c.parser.token.lexeme)
                    } else {
                        c.parser.operator
                    },
                    chain: 0,
                    ..c.parser
                },
            );
            lemma_next_token(shifted);
        },
        SlrAction::R(r) => {
            lemma_semantic_action(c, r);
        },
        SlrAction::Acc => {},
        SlrAction::E(code) => {
            let pushed = c.with(
                ParserView { buffer: c.parser.buffer.push(c.parser.token), ..c.parser },
            );
            let (goes_on, after) = pushed.recover(code);
            if goes_on {
                lemma_next_token(after);
            }
        },
    }
}

} // verus!
