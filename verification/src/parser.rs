use crate::compilation::{
    declared_type, is_end, is_identifier, is_operator, lemma_next_token,
    lemma_semantic_action, lemma_step, opening_token, semicolon_token, text_of, Compilation,
    ParserView, Status, MAX_CHAIN,
};
use crate::diagnostic::{repair, semantic_error_message, syntactic_error_message, Repair, MAX_RECOVERIES};
use crate::emission::{
    assignment_text, declaration_head_text, for_header_text, if_header_text, number_argument_text,
    operation_statement_text, operation_text, read_statement_text, temp_name_text,
    variable_argument_text, write_statement_text,
};
use crate::grammar::{productions, Grammar};
use crate::obj_file::{ObjFile, TempVarType};
use crate::scanner::{eof_token, Scanner};
use crate::slr_table::{ActionTable, GotoTable, SlrAction};
use crate::stack::{without_attributes, Attributes, SemanticStack, SyntaticStack};
use crate::text::{report, report_lines, same_text, texts};
use crate::token::{clone_opt, opt_text, Token, TokenView};
use vstd::prelude::*;
use vstd::string::*;

verus! {

/// The views of the tokens, in order.
pub open spec fn token_views(tokens: Seq<Token>) -> Seq<TokenView> {
    Seq::new(tokens.len(), |i: int| tokens[i]@)
}

/// The text of an optional string; the empty text where there is none.
pub fn text_or_empty(s: &Option<String>) -> (text: String)
    ensures
        text@ == text_of(opt_text(*s)),
{
    match s {
        Some(t) => t.clone(),
        None => String::new(),
    }
}

/// Whether tokens of the class stand for the end of the input.
pub fn class_is_end(class: &str) -> (b: bool)
    ensures
        b == is_end(class@),
{
    same_text(class, "$") || same_text(class, "EOF")
}

/// Whether tokens of the class are operators.
pub fn class_is_operator(class: &str) -> (b: bool)
    ensures
        b == is_operator(class@),
{
    same_text(class, "opr") || same_text(class, "opm")
}

/// Whether tokens of the class are identifiers.
pub fn class_is_identifier(class: &str) -> (b: bool)
    ensures
        b == is_identifier(class@),
{
    same_text(class, "id")
}

/// The parser: a shift-reduce analysis driven by the two tables, which
/// writes the object file as it reduces.
pub struct Parser {
    syntatic_stack: SyntaticStack,
    semantic_stack: SemanticStack,
    grammar: Grammar,
    action_table: ActionTable,
    goto_table: GotoTable,
    token_buffer: Vec<Token>,
    token: Token,
    last_token: Token,
    last_seen_operator: String,
    obj_file: ObjFile,
    recoveries: u8,
    chain: u8,
    syntatic_error_msgs: Vec<String>,
    semantic_error_msgs: Vec<String>,
}

impl View for Parser {
    type V = ParserView;

    closed spec fn view(&self) -> ParserView {
        ParserView {
            states: self.syntatic_stack@,
            attributes: self.semantic_stack@,
            buffer: token_views(self.token_buffer@),
            token: self.token@,
            last_token: self.last_token@,
            operator: self.last_seen_operator@,
            object: self.obj_file@,
            recoveries: self.recoveries as nat,
            chain: self.chain as nat,
            syntactic: texts(self.syntatic_error_msgs@),
            semantic: texts(self.semantic_error_msgs@),
            actions: self.action_table@,
            gotos: self.goto_table@,
            rules: self.grammar@,
        }
    }
}

impl Parser {
    /// Whether the parser holds the grammar of the language and keeps its
    /// stacks and counters in order.
    pub open spec fn wf(&self) -> bool {
        self@.wf()
    }

    /// A parser with the tables given, before its first step.
    pub fn new(action_table: ActionTable, goto_table: GotoTable) -> (parser: Parser)
        ensures
            parser.wf(),
            parser@ == ParserView::start(action_table@, goto_table@),
    {
        let parser = Parser {
            syntatic_stack: SyntaticStack::new(),
            semantic_stack: SemanticStack::new(),
            grammar: Grammar::new(),
            action_table,
            goto_table,
            token_buffer: Vec::new(),
            token: Token::new(String::new(), None, None),
            last_token: Token::new(String::new(), None, None),
            last_seen_operator: String::new(),
            obj_file: ObjFile::new(),
            recoveries: 0,
            chain: 0,
            syntatic_error_msgs: Vec::new(),
            semantic_error_msgs: Vec::new(),
        };
        proof {
            assert(parser@.buffer =~= Seq::empty());
            assert(parser@.syntactic =~= Seq::empty());
            assert(parser@.semantic =~= Seq::empty());
        }
        parser
    }

    /// Appends `text` to the body of the object file.
    fn emit(&mut self, text: String)
        ensures
            final(self)@ == old(self)@.emit(text@),
    {
        self.obj_file.print(text);
    }

    /// Records a semantic diagnostic of the given kind at the cursor of
    /// the scanner.
    fn complain(&mut self, kind: u8, lexeme: &str, scanner: &Scanner)
        requires
            scanner@.wf(),
        ensures
            (Compilation { parser: final(self)@, scanner: scanner@ }) == (Compilation {
                parser: old(self)@,
                scanner: scanner@,
            }).complain(kind, lexeme@),
    {
        let text = semantic_error_message(kind, scanner.get_row(), scanner.get_col(), lexeme);
        self.semantic_error_msgs.push(text);
        assert(self@.semantic =~= old(self)@.semantic.push(text@));
    }

    /// Takes the entry on top of the semantic stack off it, and gives its
    /// lexeme and its type.
    fn take(&mut self) -> (r: (String, String))
        ensures
            final(self)@ == old(self)@.pop(1),
            old(self)@.attributes.len() >= 1,
            r.0@ == old(self)@.top().1,
            r.1@ == old(self)@.top().2,
    {
        let top = self.semantic_stack.top();
        let lexeme = top.1.clone();
        let tk_type = top.2.clone();
        self.semantic_stack.pop(1);
        (lexeme, tk_type)
    }

    /// Puts an entry on top of the semantic stack.
    fn put(&mut self, item: &str, lexeme: String, tk_type: String)
        ensures
            final(self)@ == old(self)@.push((item@, lexeme@, tk_type@)),
    {
        self.semantic_stack.push((String::from_str(item), lexeme, tk_type));
    }

    /// Reads the next token: from the buffer, or from the scanner where
    /// the buffer is empty.
    pub fn next_token(&mut self, scanner: &mut Scanner)
        requires
            old(scanner)@.wf(),
        ensures
            (Compilation { parser: final(self)@, scanner: final(scanner)@ }) == (Compilation {
                parser: old(self)@,
                scanner: old(scanner)@,
            }).next_token(),
            final(scanner)@.wf(),
    {
        match self.token_buffer.pop() {
            Some(token) => {
                self.token = token;
                assert(self@.buffer =~= old(self)@.buffer.drop_last());
            },
            None => {
                self.token = scanner.safe_scan();
                assert(self@.buffer =~= old(self)@.buffer);
            },
        }
    }
}


/// Taking entries off the semantic stack in two goes is taking them off
/// in one.
pub proof fn lemma_pop_twice(entries: Seq<Attributes>, first: nat, second: nat)
    requires
        entries.len() >= 1,
    ensures
        without_attributes(without_attributes(entries, first), second) == without_attributes(
            entries,
            first + second,
        ),
        without_attributes(entries, first).len() >= 1,
{
    assert(without_attributes(without_attributes(entries, first), second) =~= without_attributes(
        entries,
        first + second,
    ));
}

/// The type that the symbol table of the scanner gives to `lexeme`.
fn declared(scanner: &Scanner, lexeme: &str) -> (r: Option<String>)
    ensures
        opt_text(r) == declared_type(scanner@.table, lexeme@),
{
    match scanner.get_symbol(String::from_str(lexeme)) {
        Some(token) => token.tk_type,
        None => None,
    }
}

impl Parser {
    /// The lexemes and types of the two operands of an operation: the
    /// right one, on top of the semantic stack, and the left one, just
    /// below it.
    fn operands(&self) -> (r: (String, String, String, String))
        ensures
            r.0@ == self@.top().1,
            r.1@ == self@.top().2,
            r.2@ == self@.pop(1).top().1,
            r.3@ == self@.pop(1).top().2,
    {
        let n = self.semantic_stack.len();
        let top = self.semantic_stack.top();
        let below = self.semantic_stack.entry(if n > 1 { n - 2 } else { 0 });
        (top.1.clone(), top.2.clone(), below.1.clone(), below.2.clone())
    }

    /// The end of the block of declarations.
    fn rule_declarations_end(&mut self, scanner: &Scanner)
        requires
            scanner@.wf(),
        ensures
            (Compilation { parser: final(self)@, scanner: scanner@ }) == (Compilation {
                parser: old(self)@,
                scanner: scanner@,
            }).rule_declarations_end(),
    {
        self.emit(String::from_str("\n"));
    }

    /// The end of a declaration.
    fn rule_declaration_end(&mut self, scanner: &Scanner)
        requires
            scanner@.wf(),
        ensures
            (Compilation { parser: final(self)@, scanner: scanner@ }) == (Compilation {
                parser: old(self)@,
                scanner: scanner@,
            }).rule_declaration_end(),
    {
        self.emit(String::from_str(";\n"));
    }

    /// A type.
    fn rule_type(&mut self, word: &str, scanner: &Scanner)
        requires
            scanner@.wf(),
        ensures
            (Compilation { parser: final(self)@, scanner: scanner@ }) == (Compilation {
                parser: old(self)@,
                scanner: scanner@,
            }).rule_type(word@),
    {
        let name = match declared(scanner, word) {
            Some(tk_type) => tk_type,
            None => String::from_str(word),
        };
        let head = declaration_head_text(name.as_str());
        self.put("TIPO", String::new(), name);
        self.emit(head);
    }

    /// Reading a variable.
    fn rule_read(&mut self, scanner: &Scanner)
        requires
            scanner@.wf(),
        ensures
            (Compilation { parser: final(self)@, scanner: scanner@ }) == (Compilation {
                parser: old(self)@,
                scanner: scanner@,
            }).rule_read(),
    {
        let (lexeme, _) = self.take();
        match declared(scanner, lexeme.as_str()) {
            Some(tk_type) => {
                self.emit(read_statement_text(tk_type.as_str(), lexeme.as_str()));
            },
            None => {
                self.complain(1, lexeme.as_str(), scanner);
            },
        }
    }

    /// Writing an argument.
    fn rule_write(&mut self, scanner: &Scanner)
        requires
            scanner@.wf(),
        ensures
            (Compilation { parser: final(self)@, scanner: scanner@ }) == (Compilation {
                parser: old(self)@,
                scanner: scanner@,
            }).rule_write(),
    {
        let (argument, _) = self.take();
        self.emit(write_statement_text(argument.as_str()));
    }

    /// A literal as an argument.
    fn rule_argument_literal(&mut self, scanner: &Scanner)
        requires
            scanner@.wf(),
        ensures
            (Compilation { parser: final(self)@, scanner: scanner@ }) == (Compilation {
                parser: old(self)@,
                scanner: scanner@,
            }).rule_argument_literal(),
    {
        let lexeme = text_or_empty(&self.last_token.lexeme);
        self.put("ARG", lexeme, String::from_str("literal"));
    }

    /// A number as an argument.
    fn rule_argument_number(&mut self, scanner: &Scanner)
        requires
            scanner@.wf(),
        ensures
            (Compilation { parser: final(self)@, scanner: scanner@ }) == (Compilation {
                parser: old(self)@,
                scanner: scanner@,
            }).rule_argument_number(),
    {
        let lexeme = text_or_empty(&self.last_token.lexeme);
        let tk_type = text_or_empty(&self.last_token.tk_type);
        let argument = number_argument_text(tk_type.as_str(), lexeme.as_str());
        self.put("ARG", argument, tk_type);
    }

    /// A variable as an argument.
    fn rule_argument_variable(&mut self, scanner: &Scanner)
        requires
            scanner@.wf(),
        ensures
            (Compilation { parser: final(self)@, scanner: scanner@ }) == (Compilation {
                parser: old(self)@,
                scanner: scanner@,
            }).rule_argument_variable(),
    {
        let lexeme = text_or_empty(&self.last_token.lexeme);
        match declared(scanner, lexeme.as_str()) {
            Some(tk_type) => {
                let argument = variable_argument_text(tk_type.as_str(), lexeme.as_str());
                self.put("ARG", argument, tk_type);
            },
            None => {
                self.complain(2, lexeme.as_str(), scanner);
            },
        }
    }

    /// An assignment.
    fn rule_assignment(&mut self, scanner: &Scanner)
        requires
            scanner@.wf(),
        ensures
            (Compilation { parser: final(self)@, scanner: scanner@ }) == (Compilation {
                parser: old(self)@,
                scanner: scanner@,
            }).rule_assignment(),
    {
        let (value, value_type) = self.take();
        let (lexeme, _) = self.take();
        proof {
            lemma_pop_twice(old(self)@.attributes, 1, 1);
        }
        match declared(scanner, lexeme.as_str()) {
            Some(tk_type) => {
                if value_type == tk_type {
                    self.emit(assignment_text(lexeme.as_str(), value.as_str()));
                } else {
                    self.complain(3, lexeme.as_str(), scanner);
                }
            },
            None => {
                self.complain(1, lexeme.as_str(), scanner);
            },
        }
    }

    /// An arithmetic operation.
    fn rule_arithmetic(&mut self, scanner: &Scanner)
        requires
            scanner@.wf(),
        ensures
            (Compilation { parser: final(self)@, scanner: scanner@ }) == (Compilation {
                parser: old(self)@,
                scanner: scanner@,
            }).rule_arithmetic(),
    {
        let (right, right_type, left, left_type) = self.operands();
        if left_type == right_type && !same_text(right_type.as_str(), "literal") {
            let index = self.obj_file.temp_count();
            let kind = if same_text(right_type.as_str(), "inteiro") {
                TempVarType::Int
            } else {
                TempVarType::Real
            };
            let statement = operation_statement_text(
                index,
                left.as_str(),
                self.last_seen_operator.as_str(),
                right.as_str(),
            );
            self.semantic_stack.pop(2);
            self.put("LD", temp_name_text(index), right_type);
            self.obj_file.add_temp_var(kind);
            self.emit(statement);
        } else {
            self.complain(4, "", scanner);
        }
    }

    /// An operand as a value.
    fn rule_value(&mut self, scanner: &Scanner)
        requires
            scanner@.wf(),
        ensures
            (Compilation { parser: final(self)@, scanner: scanner@ }) == (Compilation {
                parser: old(self)@,
                scanner: scanner@,
            }).rule_value(),
    {
        let (lexeme, tk_type) = self.take();
        self.put("LD", lexeme, tk_type);
    }

    /// A variable as an operand.
    fn rule_operand_variable(&mut self, scanner: &Scanner)
        requires
            scanner@.wf(),
        ensures
            (Compilation { parser: final(self)@, scanner: scanner@ }) == (Compilation {
                parser: old(self)@,
                scanner: scanner@,
            }).rule_operand_variable(),
    {
        let (lexeme, _) = self.take();
        match declared(scanner, lexeme.as_str()) {
            Some(tk_type) => {
                self.put("OPRD", lexeme, tk_type);
            },
            None => {
                self.complain(2, lexeme.as_str(), scanner);
            },
        }
    }

    /// A number as an operand.
    fn rule_operand_number(&mut self, scanner: &Scanner)
        requires
            scanner@.wf(),
        ensures
            (Compilation { parser: final(self)@, scanner: scanner@ }) == (Compilation {
                parser: old(self)@,
                scanner: scanner@,
            }).rule_operand_number(),
    {
        let lexeme = text_or_empty(&self.last_token.lexeme);
        let tk_type = text_or_empty(&self.last_token.tk_type);
        self.put("OPRD", lexeme, tk_type);
    }

    /// The end of a block.
    fn rule_block_end(&mut self, scanner: &Scanner)
        requires
            scanner@.wf(),
        ensures
            (Compilation { parser: final(self)@, scanner: scanner@ }) == (Compilation {
                parser: old(self)@,
                scanner: scanner@,
            }).rule_block_end(),
    {
        self.emit(String::from_str("    }\n"));
    }

    /// The header of a conditional.
    fn rule_if(&mut self, scanner: &Scanner)
        requires
            scanner@.wf(),
        ensures
            (Compilation { parser: final(self)@, scanner: scanner@ }) == (Compilation {
                parser: old(self)@,
                scanner: scanner@,
            }).rule_if(),
    {
        let _ = self.take();
        let (expression, _) = self.take();
        proof {
            lemma_pop_twice(old(self)@.attributes, 1, 1);
        }
        self.emit(if_header_text(expression.as_str()));
    }

    /// A relation.
    fn rule_relation(&mut self, scanner: &Scanner)
        requires
            scanner@.wf(),
        ensures
            (Compilation { parser: final(self)@, scanner: scanner@ }) == (Compilation {
                parser: old(self)@,
                scanner: scanner@,
            }).rule_relation(),
    {
        let (right, right_type, left, left_type) = self.operands();
        if !same_text(right_type.as_str(), "literal") && !same_text(left_type.as_str(), "literal") {
            self.semantic_stack.pop(2);
            let index = self.obj_file.temp_count();
            let update = operation_text(
                index,
                left.as_str(),
                self.last_seen_operator.as_str(),
                right.as_str(),
            );
            let statement = operation_statement_text(
                index,
                left.as_str(),
                self.last_seen_operator.as_str(),
                right.as_str(),
            );
            self.put("EXP_R", temp_name_text(index), String::new());
            self.put("Tx_expr", update, String::new());
            self.obj_file.add_temp_var(TempVarType::Int);
            self.emit(statement);
        } else {
            self.complain(5, "", scanner);
        }
    }

    /// The header of a loop.
    fn rule_for(&mut self, scanner: &Scanner)
        requires
            scanner@.wf(),
        ensures
            (Compilation { parser: final(self)@, scanner: scanner@ }) == (Compilation {
                parser: old(self)@,
                scanner: scanner@,
            }).rule_for(),
    {
        let (update, _) = self.take();
        let (expression, _) = self.take();
        proof {
            lemma_pop_twice(old(self)@.attributes, 1, 1);
        }
        self.emit(for_header_text(expression.as_str(), update.as_str()));
    }


    /// The variable of a declaration.
    fn rule_declared(&mut self, scanner: &mut Scanner)
        requires
            old(scanner)@.wf(),
        ensures
            (Compilation { parser: final(self)@, scanner: final(scanner)@ }) == (Compilation {
                parser: old(self)@,
                scanner: old(scanner)@,
            }).rule_declared(),
    {
        let lexeme = text_or_empty(&self.last_token.lexeme);
        if class_is_identifier(self.semantic_stack.top().0.as_str()) {
            self.semantic_stack.pop(1);
        }
        let (_, tk_type) = self.take();
        let typed = Token::new(
            self.last_token.class.clone(),
            clone_opt(&self.last_token.lexeme),
            Some(tk_type),
        );
        scanner.update_symbol(lexeme.clone(), typed);
        self.emit(lexeme);
    }

    /// Runs the semantic action of the rule of the given number.
    pub fn run_semantic_rule(&mut self, r: u8, scanner: &mut Scanner)
        requires
            old(scanner)@.wf(),
        ensures
            (Compilation { parser: final(self)@, scanner: final(scanner)@ }) == (Compilation {
                parser: old(self)@,
                scanner: old(scanner)@,
            }).semantic_action(r),
    {
        if r == 5 {
            self.rule_declarations_end(scanner);
        } else if r == 6 {
            self.rule_declaration_end(scanner);
        } else if r == 7 {
            self.rule_declared(scanner);
        } else if r == 8 {
            self.rule_type("inteiro", scanner);
        } else if r == 9 {
            self.rule_type("real", scanner);
        } else if r == 10 {
            self.rule_type("literal", scanner);
        } else if r == 12 {
            self.rule_read(scanner);
        } else if r == 13 {
            self.rule_write(scanner);
        } else if r == 14 {
            self.rule_argument_literal(scanner);
        } else if r == 15 {
            self.rule_argument_number(scanner);
        } else if r == 16 {
            self.rule_argument_variable(scanner);
        } else if r == 18 {
            self.rule_assignment(scanner);
        } else if r == 19 {
            self.rule_arithmetic(scanner);
        } else if r == 20 {
            self.rule_value(scanner);
        } else if r == 21 {
            self.rule_operand_variable(scanner);
        } else if r == 22 {
            self.rule_operand_number(scanner);
        } else if r == 24 {
            self.rule_block_end(scanner);
        } else if r == 25 {
            self.rule_if(scanner);
        } else if r == 26 {
            self.rule_relation(scanner);
        } else if r == 32 {
            self.rule_block_end(scanner);
        } else if r == 33 {
            self.rule_for(scanner);
        }
    }
}


impl Parser {
    /// Recovers from the syntactic error of the given code, and says
    /// whether the analysis goes on. The offending token is the one that
    /// entered the buffer last.
    pub fn error_recovery(&mut self, error_code: u8, scanner: &Scanner) -> (goes_on: bool)
        requires
            scanner@.wf(),
        ensures
            (goes_on, Compilation { parser: final(self)@, scanner: scanner@ }) == (Compilation {
                parser: old(self)@,
                scanner: scanner@,
            }).recover(error_code),
    {
        if self.recoveries >= MAX_RECOVERIES {
            return false;
        }
        self.recoveries = self.recoveries + 1;
        let n = self.token_buffer.len();
        let ghost buffer = old(self)@.buffer;
        let closing = n > 0 && same_text(self.token_buffer[n - 1].class.as_str(), "fc_p");
        let lexeme = if n > 0 {
            text_or_empty(&self.token_buffer[n - 1].lexeme)
        } else {
            String::new()
        };
        let text = syntactic_error_message(
            error_code,
            closing,
            scanner.get_row(),
            scanner.get_col(),
            lexeme.as_str(),
        );
        let kind = repair(error_code);
        match kind {
            Repair::Finish => {
                self.token_buffer.clear();
                self.token_buffer.push(
                    Token::new(String::from_str("EOF"), Some(String::from_str("EOF")), None),
                );
                assert(self@.buffer =~= seq![eof_token()]);
            },
            Repair::Semicolon => {
                self.token_buffer.push(
                    Token::new(String::from_str("pt_v"), Some(String::from_str(";")), None),
                );
                assert(self@.buffer =~= buffer.push(semicolon_token()));
            },
            Repair::Skip | Repair::Drop | Repair::Operand => {
                self.token_buffer.pop();
                assert(self@.buffer =~= if buffer.len() > 0 {
                    buffer.drop_last()
                } else {
                    buffer
                });
            },
            Repair::Replace => {
                self.token_buffer.pop();
                self.token_buffer.push(
                    Token::new(String::from_str("ab_p"), Some(String::from_str("(")), None),
                );
                assert(self@.buffer =~= (if buffer.len() > 0 {
                    buffer.drop_last()
                } else {
                    buffer
                }).push(opening_token()));
            },
            Repair::Open => {
                self.token_buffer.push(
                    Token::new(String::from_str("ab_p"), Some(String::from_str("(")), None),
                );
                assert(self@.buffer =~= buffer.push(opening_token()));
            },
            Repair::Stop => {
                assert(self@.buffer =~= buffer);
            },
        }
        self.syntatic_error_msgs.push(text);
        assert(self@.syntactic =~= old(self)@.syntactic.push(text@));
        let fatal = match kind {
            Repair::Stop => true,
            Repair::Operand => closing,
            _ => false,
        };
        !fatal
    }

    /// Shifts the token that the parser looks at, and goes to the state
    /// given.
    fn shift(&mut self, target: u8, scanner: &mut Scanner)
        requires
            old(scanner)@.wf(),
        ensures
            (Compilation { parser: final(self)@, scanner: final(scanner)@ }) == (Compilation { parser: old(self)@, scanner: old(scanner)@ }).shift(target),
            final(scanner)@.wf(),
    {
        self.syntatic_stack.push(target);
        if class_is_identifier(self.token.class.as_str()) {
            let attrs = (
                self.token.class.clone(),
                text_or_empty(&self.token.lexeme),
                text_or_empty(&self.token.tk_type),
            );
            self.semantic_stack.push(attrs);
        }
        if class_is_operator(self.token.class.as_str()) {
            self.last_seen_operator = text_or_empty(&self.token.lexeme);
        }
        self.last_token = self.token.clone();
        self.chain = 0;
        self.next_token(scanner);
    }

    /// Whether the reduction by the rule of the given number can be made.
    fn can_reduce(&self, r: u8, scanner: &Scanner) -> (b: bool)
        requires
            self@.rules == productions(),
        ensures
            b == (Compilation { parser: self@, scanner: scanner@ }).reducible(r),
    {
        proof {
            crate::grammar::lemma_rule_shapes();
        }
        if r < 1 || r as usize > self.grammar.len() {
            return false;
        }
        let rule = self.grammar.get_rule(r as usize);
        let arity = rule.right.len();
        let height = self.syntatic_stack.len();
        if arity >= height {
            return false;
        }
        let uncovered = self.syntatic_stack.get(height - arity - 1);
        let target = self.goto_table.get(uncovered, rule.left.text.as_str());
        if target == 0 {
            return false;
        }
        if arity == 1 && self.chain >= MAX_CHAIN {
            return false;
        }
        true
    }

    /// Reduces by the rule of the given number.
    fn reduce(&mut self, r: u8, scanner: &mut Scanner)
        requires
            old(self).wf(),
            old(scanner)@.wf(),
            (Compilation { parser: old(self)@, scanner: old(scanner)@ }).reducible(r),
        ensures
            (Compilation { parser: final(self)@, scanner: final(scanner)@ }) == (Compilation { parser: old(self)@, scanner: old(scanner)@ }).reduce(r),
            final(scanner)@.wf(),
    {
        proof {
            crate::grammar::lemma_rule_shapes();
            lemma_semantic_action((Compilation { parser: old(self)@, scanner: old(scanner)@ }), r);
        }
        self.run_semantic_rule(r, scanner);
        let rule = self.grammar.get_rule(r as usize);
        let arity = rule.right.len();
        self.syntatic_stack.pop(arity as u8);
        let uncovered = self.syntatic_stack.top();
        let target = self.goto_table.get(uncovered, rule.left.text.as_str());
        self.syntatic_stack.push(target);
        if arity == 1 {
            self.chain = self.chain + 1;
        } else {
            self.chain = 0;
        }
    }

    /// What the parser does next: the entry of the action table, or the
    /// error of code zero where the entry cannot be carried out.
    fn action(&self, scanner: &Scanner) -> (action: SlrAction)
        requires
            self.wf(),
        ensures
            action == (Compilation { parser: self@, scanner: scanner@ }).action(),
    {
        let state = self.syntatic_stack.top();
        let entry = self.action_table.get(state, self.token.class.as_str());
        match entry {
            SlrAction::S(_) => {
                if class_is_end(self.token.class.as_str()) {
                    SlrAction::E(0)
                } else {
                    entry
                }
            },
            SlrAction::R(r) => {
                if self.can_reduce(r, scanner) {
                    entry
                } else {
                    SlrAction::E(0)
                }
            },
            _ => entry,
        }
    }

    /// Makes one step of the analysis, and says how the analysis stands
    /// after it.
    pub fn step(&mut self, scanner: &mut Scanner) -> (status: Status)
        requires
            old(self).wf(),
            old(scanner)@.wf(),
        ensures
            (status, (Compilation { parser: final(self)@, scanner: final(scanner)@ })) == (Compilation { parser: old(self)@, scanner: old(scanner)@ }).step(),
            final(self).wf(),
            final(scanner)@.wf(),
    {
        proof {
            reveal(Compilation::step);
            lemma_step((Compilation { parser: old(self)@, scanner: old(scanner)@ }));
        }
        match self.action(scanner) {
            SlrAction::S(target) => {
                self.shift(target, scanner);
                Status::Going
            },
            SlrAction::R(r) => {
                self.reduce(r, scanner);
                Status::Going
            },
            SlrAction::Acc => Status::Accepted,
            SlrAction::E(code) => {
                let token = self.token.clone();
                self.token_buffer.push(token);
                assert(self@.buffer =~= old(self)@.buffer.push(old(self)@.token));
                if self.error_recovery(code, scanner) {
                    self.next_token(scanner);
                    Status::Going
                } else {
                    Status::Stopped
                }
            },
        }
    }

    /// Compiles what the scanner holds, from a fresh start of the parser
    /// with its tables. The result is the text of the object file, if and
    /// only if no lexical, syntactic or semantic error was recorded.
    pub fn parse(&mut self, scanner: &mut Scanner) -> (text: Option<String>)
        requires
            old(self).wf(),
            old(scanner)@.wf(),
        ensures
            (Compilation { parser: final(self)@, scanner: final(scanner)@ }) == Compilation::compile(old(self)@.actions, old(self)@.gotos, old(scanner)@).1,
            opt_text(text) == (Compilation { parser: final(self)@, scanner: final(scanner)@ }).output(),
            final(self).wf(),
            final(scanner)@.wf(),
            final(self)@.recoveries <= MAX_RECOVERIES,
    {
        self.syntatic_stack = SyntaticStack::new();
        self.semantic_stack = SemanticStack::new();
        self.token_buffer = Vec::new();
        self.token = Token::new(String::new(), None, None);
        self.last_token = Token::new(String::new(), None, None);
        self.last_seen_operator = String::new();
        self.obj_file = ObjFile::new();
        self.recoveries = 0;
        self.chain = 0;
        self.syntatic_error_msgs = Vec::new();
        self.semantic_error_msgs = Vec::new();
        proof {
            assert(self@.buffer =~= Seq::empty());
            assert(self@.syntactic =~= Seq::empty());
            assert(self@.semantic =~= Seq::empty());
            assert(self@ == ParserView::start(old(self)@.actions, old(self)@.gotos));
            lemma_next_token(Compilation { parser: self@, scanner: scanner@ });
        }
        self.next_token(scanner);
        let ghost whole = Compilation::compile(old(self)@.actions, old(self)@.gotos, old(scanner)@);
        loop
            invariant_except_break
                (Compilation { parser: self@, scanner: scanner@ }).run() == whole,
            invariant
                self.wf(),
                scanner@.wf(),
            ensures
                self.wf(),
                scanner@.wf(),
                (Compilation { parser: self@, scanner: scanner@ }) == whole.1,
            decreases
                (Compilation { parser: self@, scanner: scanner@ }).budget(),
                (Compilation { parser: self@, scanner: scanner@ }).pending(),
                self@.states.len(),
                (Compilation { parser: self@, scanner: scanner@ }).slack(),
        {
            let ghost before = Compilation { parser: self@, scanner: scanner@ };
            proof {
                lemma_step(before);
            }
            let status = self.step(scanner);
            match status {
                Status::Going => {},
                _ => {
                    break ;
                },
            }
        }
        if scanner.error_count() == 0 && self.syntatic_error_msgs.len() == 0
            && self.semantic_error_msgs.len() == 0 {
            Some(self.obj_file.create())
        } else {
            None
        }
    }

    /// The states on the syntactic stack, from the bottom to the top.
    pub fn states(&self) -> (states: Vec<u8>)
        ensures
            states@ == self@.states,
    {
        let mut states: Vec<u8> = Vec::new();
        let mut i: usize = 0;
        while i < self.syntatic_stack.len()
            invariant
                i <= self@.states.len(),
                states@ == self@.states.take(i as int),
            decreases self@.states.len() - i,
        {
            states.push(self.syntatic_stack.get(i));
            assert(self@.states.take(i + 1) =~= self@.states.take(i as int).push(self@.states[i as int]));
            i += 1;
        }
        assert(self@.states.take(self@.states.len() as int) =~= self@.states);
        states
    }

    /// The entries of the semantic stack, from the bottom to the top.
    pub fn attributes(&self) -> (entries: Vec<(String, String, String)>)
        ensures
            crate::stack::attribute_views(entries@) == self@.attributes,
    {
        let mut entries: Vec<(String, String, String)> = Vec::new();
        let mut i: usize = 0;
        while i < self.semantic_stack.len()
            invariant
                i <= self@.attributes.len(),
                entries@.len() == i,
                forall|j: int| 0 <= j < i ==> (#[trigger] entries@[j])@ == self@.attributes[j],
            decreases self@.attributes.len() - i,
        {
            let entry = self.semantic_stack.entry(i);
            entries.push((entry.0.clone(), entry.1.clone(), entry.2.clone()));
            i += 1;
        }
        assert(crate::stack::attribute_views(entries@) =~= self@.attributes);
        entries
    }

    /// The lexeme of the operator that was shifted last.
    pub fn last_seen_operator(&self) -> (operator: &String)
        ensures
            operator@ == self@.operator,
    {
        &self.last_seen_operator
    }

    /// The token that was shifted last.
    pub fn last_token(&self) -> (token: &Token)
        ensures
            token@ == self@.last_token,
    {
        &self.last_token
    }

    /// The token that the parser looks at.
    pub fn token(&self) -> (token: &Token)
        ensures
            token@ == self@.token,
    {
        &self.token
    }

    /// The object file as the analysis has left it.
    pub fn obj_file(&self) -> (file: &ObjFile)
        ensures
            file@ == self@.object,
    {
        &self.obj_file
    }

    /// The number of recoveries made.
    pub fn recoveries(&self) -> (n: u8)
        ensures
            n == self@.recoveries,
    {
        self.recoveries
    }

    /// The number of syntactic errors recorded.
    pub fn syntatic_error_count(&self) -> (n: usize)
        ensures
            n == self@.syntactic.len(),
    {
        self.syntatic_error_msgs.len()
    }

    /// The number of semantic errors recorded.
    pub fn semantic_error_count(&self) -> (n: usize)
        ensures
            n == self@.semantic.len(),
    {
        self.semantic_error_msgs.len()
    }

    /// The report of the syntactic errors, line by line.
    pub fn show_syntatic_error_msgs(&self) -> (lines: Vec<String>)
        ensures
            texts(lines@) == report(
                "Foi encontrado 1 erro sintático"@,
                "Foi encontrado "@,
                " erros sintáticos"@,
                self@.syntactic,
            ),
    {
        report_lines(
            "Foi encontrado 1 erro sintático",
            "Foi encontrado ",
            " erros sintáticos",
            &self.syntatic_error_msgs,
        )
    }

    /// The report of the semantic errors, line by line.
    pub fn show_semantic_error_msgs(&self) -> (lines: Vec<String>)
        ensures
            texts(lines@) == report(
                "Foi encontrado 1 erro semântico"@,
                "Foi encontrado "@,
                " erros semânticos"@,
                self@.semantic,
            ),
    {
        report_lines(
            "Foi encontrado 1 erro semântico",
            "Foi encontrado ",
            " erros semânticos",
            &self.semantic_error_msgs,
        )
    }
}

} // verus!
