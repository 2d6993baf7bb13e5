use crate::text::{decimal, push_decimal};
use vstd::prelude::*;
use vstd::string::*;

verus! {

/// The most recoveries that one compilation performs.
pub const MAX_RECOVERIES: u8 = 100;

/// What the recovery of a syntactic error does to the tokens that are
/// still to be read, the offending one first among them.
#[derive(Clone, Copy, PartialEq, Eq, Structural, Debug)]
pub enum Repair {
    /// Drop them all, and put the end of the input in their place.
    Finish,
    /// Put a semicolon before them.
    Semicolon,
    /// Drop the offending token, and say nothing of it.
    Skip,
    /// Drop the offending token.
    Drop,
    /// Drop the offending token, and put an opening parenthesis in its
    /// place.
    Replace,
    /// Put an opening parenthesis before them.
    Open,
    /// Drop the offending token; a closing parenthesis there is fatal.
    Operand,
    /// Nothing: the error is fatal.
    Stop,
}

/// What the recovery of the error of the given code does.
pub open spec fn repair_of(code: u8) -> Repair {
    if code == 1 {
        Repair::Finish
    } else if code == 2 {
        Repair::Semicolon
    } else if code == 3 {
        Repair::Skip
    } else if code == 4 || code == 12 || code == 13 || code == 14 {
        Repair::Drop
    } else if code == 5 || code == 15 {
        Repair::Replace
    } else if code == 6 || code == 16 {
        Repair::Open
    } else if code == 9 || code == 17 {
        Repair::Operand
    } else {
        Repair::Stop
    }
}

/// What the recovery of the error of the given code does.
pub fn repair(code: u8) -> (r: Repair)
    ensures
        r == repair_of(code),
{
    if code == 1 {
        Repair::Finish
    } else if code == 2 {
        Repair::Semicolon
    } else if code == 3 {
        Repair::Skip
    } else if code == 4 || code == 12 || code == 13 || code == 14 {
        Repair::Drop
    } else if code == 5 || code == 15 {
        Repair::Replace
    } else if code == 6 || code == 16 {
        Repair::Open
    } else if code == 9 || code == 17 {
        Repair::Operand
    } else {
        Repair::Stop
    }
}

/// Whether the recovery of an error ends the analysis; `closing` says
/// whether the offending token is a closing parenthesis.
pub open spec fn is_fatal(code: u8, closing: bool) -> bool {
    match repair_of(code) {
        Repair::Stop => true,
        Repair::Operand => closing,
        _ => false,
    }
}

/// Whether the diagnostic of an error names the token that was dropped.
pub open spec fn names_token(code: u8, closing: bool) -> bool {
    match repair_of(code) {
        Repair::Drop => true,
        Repair::Replace => true,
        Repair::Operand => !closing,
        _ => false,
    }
}

/// The label of the diagnostic of an error. An unknown code has the label
/// of code zero.
pub open spec fn syntactic_tag(code: u8, closing: bool) -> Seq<char> {
    if code == 1 {
        "1"@
    } else if code == 2 {
        "2"@
    } else if code == 3 {
        "3"@
    } else if code == 4 {
        "4"@
    } else if code == 5 {
        "5"@
    } else if code == 6 {
        "6"@
    } else if code == 7 {
        "7"@
    } else if code == 8 {
        "8"@
    } else if code == 9 {
        if closing {
            "9.1"@
        } else {
            "9.2"@
        }
    } else if code == 10 {
        "10"@
    } else if code == 11 {
        "11"@
    } else if code == 12 {
        "12"@
    } else if code == 13 {
        "13"@
    } else if code == 14 {
        "14"@
    } else if code == 15 {
        "15"@
    } else if code == 16 {
        "16"@
    } else if code == 17 {
        if closing {
            "17.1"@
        } else {
            "17.2"@
        }
    } else {
        "0"@
    }
}

/// What the diagnostic of an error says after the place of the error.
pub open spec fn syntactic_detail(code: u8, closing: bool) -> Seq<char> {
    if code == 1 {
        ": nenhum código deve vir após a palavra reservada 'fim'"@
    } else if code == 2 {
        ": ausência de ';'"@
    } else if code == 3 {
        ": múltiplos ';' na sequência"@
    } else if code == 4 {
        ": token inválido após um ';'"@
    } else if code == 5 {
        ": esperado um '(' após a palavra reservada 'se'"@
    } else if code == 6 {
        ": esperado um '(' após a palavra reservada 'se'"@
    } else if code == 7 {
        ": após um identificador deve vir um operador relacional, um operador aritimético, um ')' ou um ';'"@
    } else if code == 8 {
        ": após um número deve vir um operador relacional, um operador aritimético, um ')' ou um ';'"@
    } else if code == 9 {
        if closing {
            ": encontrado um () após a palavra reservada 'se'"@
        } else {
            ": esperado um 'id' ou um 'num' após um 'se ('"@
        }
    } else if code == 10 {
        ": não encontrado '<', '>', '>=', '<=', '=' ou '<>' após o primeiro argumento de uma expressão relacional"@
    } else if code == 11 {
        ": esperado um 'num' ou um 'id' após um operador relacional"@
    } else if code == 12 {
        ": após uma expressão relacional, é esperado um ')'"@
    } else if code == 13 {
        ": esperado a palavra reservada 'entao' após a expressão relacional de uma estrutura condicional"@
    } else if code == 14 {
        ": esperado 'leia', 'escreva', 'id', 'se' ou 'fimse' após a palavra reservada 'entao'"@
    } else if code == 15 {
        ": esperado um '(' após a palavra reservada 'repita'"@
    } else if code == 16 {
        ": esperado um '(' após a palavra reservada 'repita'"@
    } else if code == 17 {
        if closing {
            ": encontrado um () após a palavra reservada 'repita'"@
        } else {
            ": esperado um 'id' ou um 'num' após um 'repita ('"@
        }
    } else {
        ""@
    }
}

/// The diagnostic of the syntactic error of the given code, met at the
/// given row and column; `lexeme` is the lexeme of the offending token.
pub open spec fn syntactic_error(code: u8, closing: bool, row: nat, col: nat, lexeme: Seq<char>) -> Seq<
    char,
> {
    let head = "[ES"@ + syntactic_tag(code, closing) + "] Erro sintático na linha "@ + decimal(row)
        + ", coluna "@ + decimal(col) + syntactic_detail(code, closing);
    if names_token(code, closing) {
        head + "\n    NOTA: o token '"@ + lexeme + "' foi removido"@
    } else if is_fatal(code, closing) {
        head
            + "\n    NOTA: não é possível recuperar deste erro e portanto a análise foi interrompida"@
    } else {
        head
    }
}

/// The label of the diagnostic of an error.
fn tag_of(code: u8, closing: bool) -> (tag: &'static str)
    ensures
        tag@ == syntactic_tag(code, closing),
{
    if code == 1 {
        "1"
    } else if code == 2 {
        "2"
    } else if code == 3 {
        "3"
    } else if code == 4 {
        "4"
    } else if code == 5 {
        "5"
    } else if code == 6 {
        "6"
    } else if code == 7 {
        "7"
    } else if code == 8 {
        "8"
    } else if code == 9 {
        if closing {
            "9.1"
        } else {
            "9.2"
        }
    } else if code == 10 {
        "10"
    } else if code == 11 {
        "11"
    } else if code == 12 {
        "12"
    } else if code == 13 {
        "13"
    } else if code == 14 {
        "14"
    } else if code == 15 {
        "15"
    } else if code == 16 {
        "16"
    } else if code == 17 {
        if closing {
            "17.1"
        } else {
            "17.2"
        }
    } else {
        "0"
    }
}

/// What the diagnostic of an error says after the place of the error.
fn detail_of(code: u8, closing: bool) -> (detail: &'static str)
    ensures
        detail@ == syntactic_detail(code, closing),
{
    if code == 1 {
        ": nenhum código deve vir após a palavra reservada 'fim'"
    } else if code == 2 {
        ": ausência de ';'"
    } else if code == 3 {
        ": múltiplos ';' na sequência"
    } else if code == 4 {
        ": token inválido após um ';'"
    } else if code == 5 {
        ": esperado um '(' após a palavra reservada 'se'"
    } else if code == 6 {
        ": esperado um '(' após a palavra reservada 'se'"
    } else if code == 7 {
        ": após um identificador deve vir um operador relacional, um operador aritimético, um ')' ou um ';'"
    } else if code == 8 {
        ": após um número deve vir um operador relacional, um operador aritimético, um ')' ou um ';'"
    } else if code == 9 {
        if closing {
            ": encontrado um () após a palavra reservada 'se'"
        } else {
            ": esperado um 'id' ou um 'num' após um 'se ('"
        }
    } else if code == 10 {
        ": não encontrado '<', '>', '>=', '<=', '=' ou '<>' após o primeiro argumento de uma expressão relacional"
    } else if code == 11 {
        ": esperado um 'num' ou um 'id' após um operador relacional"
    } else if code == 12 {
        ": após uma expressão relacional, é esperado um ')'"
    } else if code == 13 {
        ": esperado a palavra reservada 'entao' após a expressão relacional de uma estrutura condicional"
    } else if code == 14 {
        ": esperado 'leia', 'escreva', 'id', 'se' ou 'fimse' após a palavra reservada 'entao'"
    } else if code == 15 {
        ": esperado um '(' após a palavra reservada 'repita'"
    } else if code == 16 {
        ": esperado um '(' após a palavra reservada 'repita'"
    } else if code == 17 {
        if closing {
            ": encontrado um () após a palavra reservada 'repita'"
        } else {
            ": esperado um 'id' ou um 'num' após um 'repita ('"
        }
    } else {
        ""
    }
}

/// The diagnostic of the syntactic error of the given code.
pub fn syntactic_error_message(code: u8, closing: bool, row: usize, col: usize, lexeme: &str) -> (text:
    String)
    ensures
        text@ == syntactic_error(code, closing, row as nat, col as nat, lexeme@),
{
    let mut text = String::from_str("[ES");
    text.append(tag_of(code, closing));
    text.append("] Erro sintático na linha ");
    push_decimal(&mut text, row as u128);
    text.append(", coluna ");
    push_decimal(&mut text, col as u128);
    text.append(detail_of(code, closing));
    let kind = repair(code);
    let names = match kind {
        Repair::Drop => true,
        Repair::Replace => true,
        Repair::Operand => !closing,
        _ => false,
    };
    let fatal = match kind {
        Repair::Stop => true,
        Repair::Operand => closing,
        _ => false,
    };
    if names {
        text.append("\n    NOTA: o token '");
        text.append(lexeme);
        text.append("' foi removido");
    } else if fatal {
        text.append(
            "\n    NOTA: não é possível recuperar deste erro e portanto a análise foi interrompida",
        );
    }
    text
}

/// The place of a semantic error in its diagnostic.
pub open spec fn place(row: nat, col: nat) -> Seq<char> {
    " na linha "@ + decimal(row) + ", coluna "@ + decimal(col)
}

/// The diagnostic of the semantic error of the given kind, met at the
/// given row and column: 1 and 2 a variable that is not declared, whose
/// lexeme is `lexeme`; 3 an assignment between different types; 4
/// operands that do not fit each other; 5 operands that cannot be
/// compared. There are no other kinds.
pub open spec fn semantic_error(kind: u8, row: nat, col: nat, lexeme: Seq<char>) -> Seq<char> {
    if kind == 1 {
        "[ESe1] Erro: Variável '"@ + lexeme + "' não declarada na próximo à linha "@ + decimal(row)
            + ", coluna "@ + decimal(col)
    } else if kind == 2 {
        "[ESe2] Erro: Variável '"@ + lexeme + "' não declarada"@ + place(row, col)
    } else if kind == 3 {
        "[ESe3] Erro: Tipos diferentes para atribuição"@ + place(row, col)
    } else if kind == 4 {
        "[ESe4] Erro: Operandos com tipos incompatíveis"@ + place(row, col)
    } else {
        "[ESe5] Erro: Operandos com tipos incompatíveis para comparação"@ + place(row, col)
    }
}

/// The diagnostic of the semantic error of the given kind.
pub fn semantic_error_message(kind: u8, row: usize, col: usize, lexeme: &str) -> (text: String)
    ensures
        text@ == semantic_error(kind, row as nat, col as nat, lexeme@),
{
    if kind == 1 {
        let mut text = String::from_str("[ESe1] Erro: Variável '");
        text.append(lexeme);
        text.append("' não declarada na próximo à linha ");
        push_decimal(&mut text, row as u128);
        text.append(", coluna ");
        push_decimal(&mut text, col as u128);
        return text;
    }
    let mut text = String::new();
    if kind == 2 {
        text.append("[ESe2] Erro: Variável '");
        text.append(lexeme);
        text.append("' não declarada");
    } else if kind == 3 {
        text.append("[ESe3] Erro: Tipos diferentes para atribuição");
    } else if kind == 4 {
        text.append("[ESe4] Erro: Operandos com tipos incompatíveis");
    } else {
        text.append("[ESe5] Erro: Operandos com tipos incompatíveis para comparação");
    }
    let ghost head = text@;
    text.append(" na linha ");
    push_decimal(&mut text, row as u128);
    text.append(", coluna ");
    push_decimal(&mut text, col as u128);
    assert(text@ =~= head + place(row as nat, col as nat));
    text
}

} // verus!
