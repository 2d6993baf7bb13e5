use mgol::diagnostic::{repair, semantic_error_message, syntactic_error_message, Repair, MAX_RECOVERIES};
use mgol::emission::{
    assignment_text, declaration_head_text, for_header_text, if_header_text, number_argument_text,
    operation_statement_text, operation_text, read_statement_text, temp_name_text,
    variable_argument_text, write_statement_text,
};

#[test]
fn repairs_by_code() {
    assert_eq!(repair(1), Repair::Finish);
    assert_eq!(repair(2), Repair::Semicolon);
    assert_eq!(repair(3), Repair::Skip);
    for code in [4, 12, 13, 14] {
        assert_eq!(repair(code), Repair::Drop);
    }
    assert_eq!(repair(5), Repair::Replace);
    assert_eq!(repair(15), Repair::Replace);
    assert_eq!(repair(6), Repair::Open);
    assert_eq!(repair(16), Repair::Open);
    assert_eq!(repair(9), Repair::Operand);
    assert_eq!(repair(17), Repair::Operand);
    for code in [0, 7, 8, 10, 11, 18, 100, 255] {
        assert_eq!(repair(code), Repair::Stop);
    }
    assert_eq!(MAX_RECOVERIES, 100);
}

#[test]
fn syntactic_messages() {
    assert_eq!(
        syntactic_error_message(2, false, 3, 14, ";"),
        "[ES2] Erro sintático na linha 3, coluna 14: ausência de ';'"
    );
    assert_eq!(
        syntactic_error_message(3, true, 0, 0, "x"),
        "[ES3] Erro sintático na linha 0, coluna 0: múltiplos ';' na sequência"
    );
    assert_eq!(
        syntactic_error_message(4, false, 10, 1, "+"),
        "[ES4] Erro sintático na linha 10, coluna 1: token inválido após um ';'\n    NOTA: o token '+' foi removido"
    );
    assert_eq!(
        syntactic_error_message(8, false, 1, 2, "x"),
        "[ES8] Erro sintático na linha 1, coluna 2: após um número deve vir um operador relacional, um operador aritimético, um ')' ou um ';'\n    NOTA: não é possível recuperar deste erro e portanto a análise foi interrompida"
    );
    assert_eq!(
        syntactic_error_message(9, true, 1, 2, ")"),
        "[ES9.1] Erro sintático na linha 1, coluna 2: encontrado um () após a palavra reservada 'se'\n    NOTA: não é possível recuperar deste erro e portanto a análise foi interrompida"
    );
    assert_eq!(
        syntactic_error_message(9, false, 1, 2, "fim"),
        "[ES9.2] Erro sintático na linha 1, coluna 2: esperado um 'id' ou um 'num' após um 'se ('\n    NOTA: o token 'fim' foi removido"
    );
    assert_eq!(
        syntactic_error_message(16, true, 1, 2, "x"),
        "[ES16] Erro sintático na linha 1, coluna 2: esperado um '(' após a palavra reservada 'repita'"
    );
    for code in [0, 18, 99, 255] {
        assert_eq!(
            syntactic_error_message(code, false, 7, 8, "x"),
            "[ES0] Erro sintático na linha 7, coluna 8\n    NOTA: não é possível recuperar deste erro e portanto a análise foi interrompida"
        );
    }
}

#[test]
fn semantic_messages() {
    assert_eq!(
        semantic_error_message(1, 4, 5, "z"),
        "[ESe1] Erro: Variável 'z' não declarada na próximo à linha 4, coluna 5"
    );
    assert_eq!(
        semantic_error_message(2, 4, 5, "z"),
        "[ESe2] Erro: Variável 'z' não declarada na linha 4, coluna 5"
    );
    assert_eq!(
        semantic_error_message(3, 40, 50, "z"),
        "[ESe3] Erro: Tipos diferentes para atribuição na linha 40, coluna 50"
    );
    assert_eq!(
        semantic_error_message(4, 4, 5, ""),
        "[ESe4] Erro: Operandos com tipos incompatíveis na linha 4, coluna 5"
    );
    assert_eq!(
        semantic_error_message(5, 4, 5, ""),
        "[ESe5] Erro: Operandos com tipos incompatíveis para comparação na linha 4, coluna 5"
    );
}

#[test]
fn statements_of_the_object_file() {
    assert_eq!(declaration_head_text("inteiro"), "    inteiro ");
    assert_eq!(read_statement_text("inteiro", "x"), "    scanf(\"%d\", &x);\n");
    assert_eq!(read_statement_text("real", "x"), "    scanf(\"%lf\", &x);\n");
    assert_eq!(read_statement_text("literal", "x"), "    scanf(\"%s\", x);\n");
    assert_eq!(variable_argument_text("inteiro", "x"), "\"%d\", x");
    assert_eq!(variable_argument_text("real", "x"), "\"%lf\", x");
    assert_eq!(variable_argument_text("literal", "x"), "\"%s\", x");
    assert_eq!(number_argument_text("inteiro", "7"), "\"%d\", 7");
    assert_eq!(number_argument_text("real", "7.5"), "\"%lf\", 7.5");
    assert_eq!(write_statement_text("\"oi\""), "    printf(\"oi\");\n");
    assert_eq!(assignment_text("x", "T3"), "    x = T3;\n");
    assert_eq!(temp_name_text(0), "T0");
    assert_eq!(temp_name_text(123), "T123");
    assert_eq!(operation_text(2, "a", "<=", "10"), "T2 = a <= 10");
    assert_eq!(operation_statement_text(2, "a", "+", "b"), "    T2 = a + b;\n");
    assert_eq!(if_header_text("T0"), "    if (T0) {\n");
    assert_eq!(for_header_text("T0", "T0 = a < 3"), "    for(; T0; T0 = a < 3) {\n");
}
