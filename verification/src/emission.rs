use crate::text::{decimal, push_decimal, same_text};
use vstd::prelude::*;
use vstd::string::*;

verus! {

/// The start of a declaration: the type, indented, and a blank.
pub open spec fn declaration_head(tk_type: Seq<char>) -> Seq<char> {
    "    "@ + tk_type + " "@
}

/// The statement that reads the variable `lexeme` of type `tk_type`.
pub open spec fn read_statement(tk_type: Seq<char>, lexeme: Seq<char>) -> Seq<char> {
    if tk_type == "inteiro"@ {
        "    scanf(\"%d\", &"@ + lexeme + ");\n"@
    } else if tk_type == "real"@ {
        "    scanf(\"%lf\", &"@ + lexeme + ");\n"@
    } else {
        "    scanf(\"%s\", "@ + lexeme + ");\n"@
    }
}

/// The arguments that print the variable `lexeme` of type `tk_type`: the
/// format of its type, a comma and the variable.
pub open spec fn variable_argument(tk_type: Seq<char>, lexeme: Seq<char>) -> Seq<char> {
    if tk_type == "inteiro"@ {
        "\"%d\", "@ + lexeme
    } else if tk_type == "real"@ {
        "\"%lf\", "@ + lexeme
    } else {
        "\"%s\", "@ + lexeme
    }
}

/// The arguments that print the number `lexeme` of type `tk_type`.
pub open spec fn number_argument(tk_type: Seq<char>, lexeme: Seq<char>) -> Seq<char> {
    if tk_type == "inteiro"@ {
        "\"%d\", "@ + lexeme
    } else {
        "\"%lf\", "@ + lexeme
    }
}

/// The statement that prints what `argument` stands for.
pub open spec fn write_statement(argument: Seq<char>) -> Seq<char> {
    "    printf("@ + argument + ");\n"@
}

/// The statement that assigns `value` to the variable `lexeme`.
pub open spec fn assignment(lexeme: Seq<char>, value: Seq<char>) -> Seq<char> {
    "    "@ + lexeme + " = "@ + value + ";\n"@
}

/// The name of the temporary variable of the given index.
pub open spec fn temp_name(index: nat) -> Seq<char> {
    "T"@ + decimal(index)
}

/// The expression that assigns to the temporary variable of the given
/// index the result of an operation on two operands.
pub open spec fn operation(index: nat, left: Seq<char>, operator: Seq<char>, right: Seq<char>) -> Seq<
    char,
> {
    temp_name(index) + " = "@ + left + " "@ + operator + " "@ + right
}

/// The statement made of an operation.
pub open spec fn operation_statement(
    index: nat,
    left: Seq<char>,
    operator: Seq<char>,
    right: Seq<char>,
) -> Seq<char> {
    "    "@ + operation(index, left, operator, right) + ";\n"@
}

/// The line that opens a conditional on `expression`.
pub open spec fn if_header(expression: Seq<char>) -> Seq<char> {
    "    if ("@ + expression + ") {\n"@
}

/// The line that opens a loop that goes on while `expression` holds and
/// evaluates `update` after each turn.
pub open spec fn for_header(expression: Seq<char>, update: Seq<char>) -> Seq<char> {
    "    for(; "@ + expression + "; "@ + update + ") {\n"@
}

/// The line that closes a block.
pub open spec fn block_end() -> Seq<char> {
    "    }\n"@
}

/// The start of a declaration of the given type.
pub fn declaration_head_text(tk_type: &str) -> (text: String)
    ensures
        text@ == declaration_head(tk_type@),
{
    let mut text = String::from_str("    ");
    text.append(tk_type);
    text.append(" ");
    text
}

/// The statement that reads the variable `lexeme` of type `tk_type`.
pub fn read_statement_text(tk_type: &str, lexeme: &str) -> (text: String)
    ensures
        text@ == read_statement(tk_type@, lexeme@),
{
    let mut text = if same_text(tk_type, "inteiro") {
        String::from_str("    scanf(\"%d\", &")
    } else if same_text(tk_type, "real") {
        String::from_str("    scanf(\"%lf\", &")
    } else {
        String::from_str("    scanf(\"%s\", ")
    };
    text.append(lexeme);
    text.append(");\n");
    text
}

/// The arguments that print the variable `lexeme` of type `tk_type`.
pub fn variable_argument_text(tk_type: &str, lexeme: &str) -> (text: String)
    ensures
        text@ == variable_argument(tk_type@, lexeme@),
{
    let mut text = if same_text(tk_type, "inteiro") {
        String::from_str("\"%d\", ")
    } else if same_text(tk_type, "real") {
        String::from_str("\"%lf\", ")
    } else {
        String::from_str("\"%s\", ")
    };
    text.append(lexeme);
    text
}

/// The arguments that print the number `lexeme` of type `tk_type`.
pub fn number_argument_text(tk_type: &str, lexeme: &str) -> (text: String)
    ensures
        text@ == number_argument(tk_type@, lexeme@),
{
    let mut text = if same_text(tk_type, "inteiro") {
        String::from_str("\"%d\", ")
    } else {
        String::from_str("\"%lf\", ")
    };
    text.append(lexeme);
    text
}

/// The statement that prints what `argument` stands for.
pub fn write_statement_text(argument: &str) -> (text: String)
    ensures
        text@ == write_statement(argument@),
{
    let mut text = String::from_str("    printf(");
    text.append(argument);
    text.append(");\n");
    text
}

/// The statement that assigns `value` to the variable `lexeme`.
pub fn assignment_text(lexeme: &str, value: &str) -> (text: String)
    ensures
        text@ == assignment(lexeme@, value@),
{
    let mut text = String::from_str("    ");
    text.append(lexeme);
    text.append(" = ");
    text.append(value);
    text.append(";\n");
    text
}

/// The name of the temporary variable of the given index.
pub fn temp_name_text(index: usize) -> (text: String)
    ensures
        text@ == temp_name(index as nat),
{
    let mut text = String::from_str("T");
    push_decimal(&mut text, index as u128);
    text
}

/// The expression that assigns to the temporary variable of the given
/// index the result of an operation on two operands.
pub fn operation_text(index: usize, left: &str, operator: &str, right: &str) -> (text: String)
    ensures
        text@ == operation(index as nat, left@, operator@, right@),
{
    let mut text = temp_name_text(index);
    text.append(" = ");
    text.append(left);
    text.append(" ");
    text.append(operator);
    text.append(" ");
    text.append(right);
    text
}

/// The statement made of an operation.
pub fn operation_statement_text(index: usize, left: &str, operator: &str, right: &str) -> (text:
    String)
    ensures
        text@ == operation_statement(index as nat, left@, operator@, right@),
{
    let mut text = String::from_str("    ");
    let inner = operation_text(index, left, operator, right);
    text.append(inner.as_str());
    text.append(";\n");
    text
}

/// The line that opens a conditional on `expression`.
pub fn if_header_text(expression: &str) -> (text: String)
    ensures
        text@ == if_header(expression@),
{
    let mut text = String::from_str("    if (");
    text.append(expression);
    text.append(") {\n");
    text
}

/// The line that opens a loop on `expression` with the update `update`.
pub fn for_header_text(expression: &str, update: &str) -> (text: String)
    ensures
        text@ == for_header(expression@, update@),
{
    let mut text = String::from_str("    for(; ");
    text.append(expression);
    text.append("; ");
    text.append(update);
    text.append(") {\n");
    text
}

} // verus!
