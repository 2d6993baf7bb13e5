use mgol::obj_file::TempVarType;
use mgol::compilation::Status;
use mgol::parser::Parser;
use mgol::scanner::Scanner;
use mgol::slr_table::{ActionTable, GotoTable};

const ACTIONS: &str = "state,num,lit,id,opr,rcb,opm,ab_p,fc_p,pt_v,inicio,varinicio,varfim,escreva,leia,se,entao,fimse,repita,fimrepita,fim,inteiro,literal,real,$\n\
0,,,,,,,,,,S1,,,,,,,,,,,,,,\n\
1,,,,,,,,,,,S3,,,,,,,,,,,,,\n\
2,,,,,,,,,,,,,,,,,,,,,,,,A\n\
3,,,,,,,,,,,,S5,,,,,,,,,S6,S7,S8,\n\
4,,,S12,,,,,,,,,,S13,S14,S15,,,S16,,S17,,,,\n\
5,E2,E2,E2,E2,E2,E2,E2,E2,S25,E2,E2,E2,E2,E2,E2,E2,E2,E2,E2,E2,E2,E2,E2,E2\n\
6,,,R8,,,,,,,,,,,,,,,,,,,,,\n\
7,,,R10,,,,,,,,,,,,,,,,,,,,,\n\
8,,,R9,,,,,,,,,,,,,,,,,,,,,\n\
9,,,R3,,,,,,,,,,R3,R3,R3,,,R3,,R3,,,,\n\
10,,,,,,,,,,,,S5,,,,,,,,,S6,S7,S8,\n\
11,,,S27,,,,,,,,,,,,,,,,,,,,,\n\
12,,,,,S29,,,,,,,,,,,,,,,,,,,\n\
13,S30,S31,S32,,,,,,,,,,,,,,,,,,,,,\n\
14,,,S34,,,,,,,,,,,,,,,,,,,,,\n\
15,E6,E5,E6,E5,E5,E5,S35,E5,E5,E5,E5,E5,E5,E5,E5,E5,E5,E5,E5,E5,E5,E5,E5,E5\n\
16,E16,E15,E16,E15,E15,E15,S36,E15,E15,E15,E15,E15,E15,E15,E15,E15,E15,E15,E15,E15,E15,E15,E15,E15\n\
17,E1,E1,E1,E1,E1,E1,E1,E1,E1,E1,E1,E1,E1,E1,E1,E1,E1,E1,E1,E1,E1,E1,E1,R38\n\
18,E1,E1,E1,E1,E1,E1,E1,E1,E1,E1,E1,E1,E1,E1,E1,E1,E1,E1,E1,E1,E1,E1,E1,R2\n\
19,,,S12,,,,,,,,,,S13,S14,S15,,,S16,,S17,,,,\n\
20,,,S12,,,,,,,,,,S13,S14,S15,,,S16,,S17,,,,\n\
21,,,S12,,,,,,,,,,S13,S14,S15,,,S16,,S17,,,,\n\
22,,,S12,,,,,,,,,,S13,S14,S15,,S40,,,,,,,\n\
23,,,S12,,,,,,,,,,S13,S14,S15,,,S16,,S17,,,,\n\
24,,,S12,,,,,,,,,,S13,S14,S15,,,,S46,,,,,\n\
25,E4,E4,R5,E4,E4,E4,E4,E4,E3,E4,E4,E4,R5,R5,R5,E4,E4,R5,E4,R5,E4,E4,E4,\n\
26,,,R4,,,,,,,,,,R4,R4,R4,,,R4,,R4,,,,\n\
27,E2,E2,E2,E2,E2,E2,E2,E2,R7,E2,E2,E2,E2,E2,E2,E2,E2,E2,E2,E2,E2,E2,E2,E2\n\
28,E2,E2,E2,E2,E2,E2,E2,E2,S51,E2,E2,E2,E2,E2,E2,E2,E2,E2,E2,E2,E2,E2,E2,E2\n\
29,S52,,S53,,,,,,,,,,,,,,,,,,,,,\n\
30,E2,E2,E2,E2,E2,E2,E2,E2,R15,E2,E2,E2,E2,E2,E2,E2,E2,E2,E2,E2,E2,E2,E2,E2\n\
31,E2,E2,E2,E2,E2,E2,E2,E2,R14,E2,E2,E2,E2,E2,E2,E2,E2,E2,E2,E2,E2,E2,E2,E2\n\
32,E2,E2,E2,E2,E2,E2,E2,E2,R16,E2,E2,E2,E2,E2,E2,E2,E2,E2,E2,E2,E2,E2,E2,E2\n\
33,E2,E2,E2,E2,E2,E2,E2,E2,S56,E2,E2,E2,E2,E2,E2,E2,E2,E2,E2,E2,E2,E2,E2,E2\n\
34,E2,E2,E2,E2,E2,E2,E2,E2,S57,E2,E2,E2,E2,E2,E2,E2,E2,E2,E2,E2,E2,E2,E2,E2\n\
35,S52,E9,S53,E9,E9,E9,E9,E9,E9,E9,E9,E9,E9,E9,E9,E9,E9,E9,E9,E9,E9,E9,E9,E9\n\
36,S52,E17,S53,E17,E17,E17,E17,E17,E17,E17,E17,E17,E17,E17,E17,E17,E17,E17,E17,E17,E17,E17,E17,E17\n\
37,,,,,,,,,,,,,,,,,,,,,,,,R11\n\
38,,,,,,,,,,,,,,,,,,,,,,,,R17\n\
39,,,,,,,,,,,,,,,,,,,,,,,,R23\n\
40,,,R30,,,,,,,,,,R30,R30,R30,,R30,R30,R30,R30,,,,\n\
41,,,S12,,,,,,,,,,S13,S14,S15,,S40,,,,,,,\n\
42,,,S12,,,,,,,,,,S13,S14,S15,,S40,,,,,,,\n\
43,,,S12,,,,,,,,,,S13,S14,S15,,S40,,,,,,,\n\
44,,,R24,,,,,,,,,,R24,R24,R24,,R24,R24,R24,R24,,,,\n\
45,,,,,,,,,,,,,,,,,,,,,,,,R31\n\
46,,,R37,,,,,,,,,,R37,R37,R37,,,R37,,R37,,,,\n\
47,,,S12,,,,,,,,,,S13,S14,S15,,,,S46,,,,,\n\
48,,,S12,,,,,,,,,,S13,S14,S15,,,,S46,,,,,\n\
49,,,S12,,,,,,,,,,S13,S14,S15,,,,S46,,,,,\n\
50,,,R32,,,,,,,,,,R32,R32,R32,,,R32,,R32,,,,\n\
51,E4,E4,E4,E4,E4,E4,E4,E4,E3,E4,E4,R6,E4,E4,E4,E4,E4,E4,E4,E4,R6,R6,R6,\n\
52,E8,E8,E8,R22,E8,R22,E8,R22,R22,E8,E8,E8,E8,E8,E8,E8,E8,E8,E8,E8,E8,E8,E8,E8\n\
53,E7,E7,E7,R21,E7,R21,E7,R21,R21,E7,E7,E7,E7,E7,E7,E7,E7,E7,E7,E7,E7,E7,E7,E7\n\
54,E2,E2,E2,E2,E2,E2,E2,E2,S67,E2,E2,E2,E2,E2,E2,E2,E2,E2,E2,E2,E2,E2,E2,E2\n\
55,E2,E2,E2,E2,E2,S68,E2,E2,R20,E2,E2,E2,E2,E2,E2,E2,E2,E2,E2,E2,E2,E2,E2,E2\n\
56,E4,E4,R13,E4,E4,E4,E4,E4,E3,E4,E4,E4,R13,R13,R13,E4,R13,R13,R13,R13,E4,E4,E4,\n\
57,E4,E4,R12,E4,E4,E4,E4,E4,E3,E4,E4,E4,R12,R12,R12,E4,R12,R12,R12,R12,E4,E4,E4,\n\
58,E10,E10,E10,S69,E10,E10,E10,E10,E10,E10,E10,E10,E10,E10,E10,E10,E10,E10,E10,E10,E10,E10,E10,E10\n\
59,E12,E12,E12,E12,E12,E12,E12,S70,E12,E12,E12,E12,E12,E12,E12,E12,E12,E12,E12,E12,E12,E12,E12,E12\n\
60,E12,E12,E12,E12,E12,E12,E12,S71,E12,E12,E12,E12,E12,E12,E12,E12,E12,E12,E12,E12,E12,E12,E12,E12\n\
61,,,R27,,,,,,,,,,R27,R27,R27,,R27,R27,R27,R27,,,,\n\
62,,,R28,,,,,,,,,,R28,R28,R28,,R28,R28,R28,R28,,,,\n\
63,,,R29,,,,,,,,,,R29,R29,R29,,R29,R29,R29,R29,,,,\n\
64,,,R34,,,,,,,,,,R34,R34,R34,,,R34,,R34,,,,\n\
65,,,R35,,,,,,,,,,R35,R35,R35,,,R35,,R35,,,,\n\
66,,,R36,,,,,,,,,,R36,R36,R36,,,R36,,R36,,,,\n\
67,E4,E4,R18,E4,E4,E4,E4,E4,E3,E4,E4,E4,R18,R18,R18,E4,R18,R18,R18,R18,E4,E4,E4,\n\
68,S52,,S53,,,,,,,,,,,,,,,,,,,,,\n\
69,S52,E11,S53,E11,E11,E11,E11,E11,E11,E11,E11,E11,E11,E11,E11,E11,E11,E11,E11,E11,E11,E11,E11,E11\n\
70,E13,E13,E13,E13,E13,E13,E13,E13,E13,E13,E13,E13,E13,E13,E13,S74,E13,E13,E13,E13,E13,E13,E13,E13\n\
71,,,R33,,,,,,,,,,R33,R33,R33,,,,R33,,,,,\n\
72,E2,E2,E2,E2,E2,E2,E2,E2,R19,E2,E2,E2,E2,E2,E2,E2,E2,E2,E2,E2,E2,E2,E2,E2\n\
73,E12,E12,E12,E12,E12,E12,E12,R26,E12,E12,E12,E12,E12,E12,E12,E12,E12,E12,E12,E12,E12,E12,E12,E12\n\
74,E14,E14,R25,E14,E14,E14,E14,E14,E14,E14,E14,E14,R25,R25,R25,E14,R25,E14,E14,E14,E14,E14,E14,\n\
";

const GOTOS: &str = "state,P,V,LV,D,L,TIPO,A,ES,ARG,CMD,LD,OPRD,COND,CAB,EXP_R,CP,R,CABR,CPR\n\
0,2,0,0,0,0,0,0,0,0,0,0,0,0,0,0,0,0,0,0\n\
1,0,4,0,0,0,0,0,0,0,0,0,0,0,0,0,0,0,0,0\n\
2,0,0,0,0,0,0,0,0,0,0,0,0,0,0,0,0,0,0,0\n\
3,0,0,9,10,0,11,0,0,0,0,0,0,0,0,0,0,0,0,0\n\
4,0,0,0,0,0,0,18,19,0,20,0,0,21,22,0,0,23,24,0\n\
5,0,0,0,0,0,0,0,0,0,0,0,0,0,0,0,0,0,0,0\n\
6,0,0,0,0,0,0,0,0,0,0,0,0,0,0,0,0,0,0,0\n\
7,0,0,0,0,0,0,0,0,0,0,0,0,0,0,0,0,0,0,0\n\
8,0,0,0,0,0,0,0,0,0,0,0,0,0,0,0,0,0,0,0\n\
9,0,0,0,0,0,0,0,0,0,0,0,0,0,0,0,0,0,0,0\n\
10,0,0,26,10,0,11,0,0,0,0,0,0,0,0,0,0,0,0,0\n\
11,0,0,0,0,28,0,0,0,0,0,0,0,0,0,0,0,0,0,0\n\
12,0,0,0,0,0,0,0,0,0,0,0,0,0,0,0,0,0,0,0\n\
13,0,0,0,0,0,0,0,0,33,0,0,0,0,0,0,0,0,0,0\n\
14,0,0,0,0,0,0,0,0,0,0,0,0,0,0,0,0,0,0,0\n\
15,0,0,0,0,0,0,0,0,0,0,0,0,0,0,0,0,0,0,0\n\
16,0,0,0,0,0,0,0,0,0,0,0,0,0,0,0,0,0,0,0\n\
17,0,0,0,0,0,0,0,0,0,0,0,0,0,0,0,0,0,0,0\n\
18,0,0,0,0,0,0,0,0,0,0,0,0,0,0,0,0,0,0,0\n\
19,0,0,0,0,0,0,37,19,0,20,0,0,21,22,0,0,23,24,0\n\
20,0,0,0,0,0,0,38,19,0,20,0,0,21,22,0,0,23,24,0\n\
21,0,0,0,0,0,0,39,19,0,20,0,0,21,22,0,0,23,24,0\n\
22,0,0,0,0,0,0,0,41,0,42,0,0,43,22,0,44,0,0,0\n\
23,0,0,0,0,0,0,45,19,0,20,0,0,21,22,0,0,23,24,0\n\
24,0,0,0,0,0,0,0,47,0,48,0,0,49,22,0,0,0,0,50\n\
25,0,0,0,0,0,0,0,0,0,0,0,0,0,0,0,0,0,0,0\n\
26,0,0,0,0,0,0,0,0,0,0,0,0,0,0,0,0,0,0,0\n\
27,0,0,0,0,0,0,0,0,0,0,0,0,0,0,0,0,0,0,0\n\
28,0,0,0,0,0,0,0,0,0,0,0,0,0,0,0,0,0,0,0\n\
29,0,0,0,0,0,0,0,0,0,0,54,55,0,0,0,0,0,0,0\n\
30,0,0,0,0,0,0,0,0,0,0,0,0,0,0,0,0,0,0,0\n\
31,0,0,0,0,0,0,0,0,0,0,0,0,0,0,0,0,0,0,0\n\
32,0,0,0,0,0,0,0,0,0,0,0,0,0,0,0,0,0,0,0\n\
33,0,0,0,0,0,0,0,0,0,0,0,0,0,0,0,0,0,0,0\n\
34,0,0,0,0,0,0,0,0,0,0,0,0,0,0,0,0,0,0,0\n\
35,0,0,0,0,0,0,0,0,0,0,0,58,0,0,59,0,0,0,0\n\
36,0,0,0,0,0,0,0,0,0,0,0,58,0,0,60,0,0,0,0\n\
37,0,0,0,0,0,0,0,0,0,0,0,0,0,0,0,0,0,0,0\n\
38,0,0,0,0,0,0,0,0,0,0,0,0,0,0,0,0,0,0,0\n\
39,0,0,0,0,0,0,0,0,0,0,0,0,0,0,0,0,0,0,0\n\
40,0,0,0,0,0,0,0,0,0,0,0,0,0,0,0,0,0,0,0\n\
41,0,0,0,0,0,0,0,41,0,42,0,0,43,22,0,61,0,0,0\n\
42,0,0,0,0,0,0,0,41,0,42,0,0,43,22,0,62,0,0,0\n\
43,0,0,0,0,0,0,0,41,0,42,0,0,43,22,0,63,0,0,0\n\
44,0,0,0,0,0,0,0,0,0,0,0,0,0,0,0,0,0,0,0\n\
45,0,0,0,0,0,0,0,0,0,0,0,0,0,0,0,0,0,0,0\n\
46,0,0,0,0,0,0,0,0,0,0,0,0,0,0,0,0,0,0,0\n\
47,0,0,0,0,0,0,0,47,0,48,0,0,49,22,0,0,0,0,64\n\
48,0,0,0,0,0,0,0,47,0,48,0,0,49,22,0,0,0,0,65\n\
49,0,0,0,0,0,0,0,47,0,48,0,0,49,22,0,0,0,0,66\n\
50,0,0,0,0,0,0,0,0,0,0,0,0,0,0,0,0,0,0,0\n\
51,0,0,0,0,0,0,0,0,0,0,0,0,0,0,0,0,0,0,0\n\
52,0,0,0,0,0,0,0,0,0,0,0,0,0,0,0,0,0,0,0\n\
53,0,0,0,0,0,0,0,0,0,0,0,0,0,0,0,0,0,0,0\n\
54,0,0,0,0,0,0,0,0,0,0,0,0,0,0,0,0,0,0,0\n\
55,0,0,0,0,0,0,0,0,0,0,0,0,0,0,0,0,0,0,0\n\
56,0,0,0,0,0,0,0,0,0,0,0,0,0,0,0,0,0,0,0\n\
57,0,0,0,0,0,0,0,0,0,0,0,0,0,0,0,0,0,0,0\n\
58,0,0,0,0,0,0,0,0,0,0,0,0,0,0,0,0,0,0,0\n\
59,0,0,0,0,0,0,0,0,0,0,0,0,0,0,0,0,0,0,0\n\
60,0,0,0,0,0,0,0,0,0,0,0,0,0,0,0,0,0,0,0\n\
61,0,0,0,0,0,0,0,0,0,0,0,0,0,0,0,0,0,0,0\n\
62,0,0,0,0,0,0,0,0,0,0,0,0,0,0,0,0,0,0,0\n\
63,0,0,0,0,0,0,0,0,0,0,0,0,0,0,0,0,0,0,0\n\
64,0,0,0,0,0,0,0,0,0,0,0,0,0,0,0,0,0,0,0\n\
65,0,0,0,0,0,0,0,0,0,0,0,0,0,0,0,0,0,0,0\n\
66,0,0,0,0,0,0,0,0,0,0,0,0,0,0,0,0,0,0,0\n\
67,0,0,0,0,0,0,0,0,0,0,0,0,0,0,0,0,0,0,0\n\
68,0,0,0,0,0,0,0,0,0,0,0,72,0,0,0,0,0,0,0\n\
69,0,0,0,0,0,0,0,0,0,0,0,73,0,0,0,0,0,0,0\n\
70,0,0,0,0,0,0,0,0,0,0,0,0,0,0,0,0,0,0,0\n\
71,0,0,0,0,0,0,0,0,0,0,0,0,0,0,0,0,0,0,0\n\
72,0,0,0,0,0,0,0,0,0,0,0,0,0,0,0,0,0,0,0\n\
73,0,0,0,0,0,0,0,0,0,0,0,0,0,0,0,0,0,0,0\n\
74,0,0,0,0,0,0,0,0,0,0,0,0,0,0,0,0,0,0,0\n\
";

const PROLOGUE: &str = "#include <stdio.h>\n\ntypedef char literal[256];\ntypedef int inteiro;\ntypedef double real;\n\nvoid main(void)\n{\n";

const EPILOGUE: &str = "    return 0;\n}\n";

fn parser_with(actions: &str, gotos: &str) -> Parser {
    Parser::new(ActionTable::new(actions).unwrap(), GotoTable::new(gotos).unwrap())
}

fn compile(source: &str) -> (Option<String>, Parser, Scanner) {
    let mut scanner = Scanner::new(source);
    let mut parser = parser_with(ACTIONS, GOTOS);
    let text = parser.parse(&mut scanner);
    (text, parser, scanner)
}

fn body_of(parser: &Parser) -> String {
    let whole = parser.obj_file().create();
    assert!(whole.starts_with(PROLOGUE));
    assert!(whole.ends_with(EPILOGUE));
    whole[PROLOGUE.len()..whole.len() - EPILOGUE.len()].to_string()
}

#[test]
fn scenario_declaration_and_assignment() {
    let (text, parser, scanner) = compile("inicio varinicio inteiro x; varfim; x <- 3; fim");
    let body = "    inteiro x;\n\n    x = 3;\n";
    assert_eq!(text, Some(format!("{}{}{}", PROLOGUE, body, EPILOGUE)));
    assert_eq!(scanner.error_count(), 0);
    assert_eq!(parser.syntatic_error_count(), 0);
    assert_eq!(parser.semantic_error_count(), 0);
    assert_eq!(parser.obj_file().temp_count(), 0);
}

#[test]
fn scenario_read_and_write_a_real() {
    let (text, _, _) = compile("inicio varinicio real y; varfim; leia y; escreva y; fim");
    let body = "    real y;\n\n    scanf(\"%lf\", &y);\n    printf(\"%lf\", y);\n";
    assert_eq!(text, Some(format!("{}{}{}", PROLOGUE, body, EPILOGUE)));
}

#[test]
fn scenario_arithmetic_allocates_one_temporary() {
    let (text, parser, _) = compile("inicio varinicio inteiro a; varfim; a <- 1 + 2; fim");
    let temps = "    /*----Variaveis temporarias----*/\n    inteiro T0\n    /*------------------------------*/\n";
    let body = "    inteiro a;\n\n    T0 = 1 + 2;\n    a = T0;\n";
    assert_eq!(text, Some(format!("{}{}{}{}", PROLOGUE, temps, body, EPILOGUE)));
    assert_eq!(parser.obj_file().temp_count(), 1);
    assert_eq!(parser.obj_file().temp_var(0), Some(TempVarType::Int));
    assert_eq!(parser.obj_file().temp_var(1), None);
}

#[test]
fn scenario_undeclared_variable() {
    let (text, parser, scanner) = compile("inicio varinicio varfim; z <- 1; fim");
    assert_eq!(text, None);
    assert_eq!(scanner.error_count(), 0);
    assert_eq!(parser.syntatic_error_count(), 0);
    assert_eq!(parser.semantic_error_count(), 1);
    assert_eq!(
        parser.show_semantic_error_msgs(),
        vec![
            String::from("Foi encontrado 1 erro semântico"),
            String::from("# ERRO 1"),
            String::from("    [ESe1] Erro: Variável 'z' não declarada na próximo à linha 2, coluna 0"),
        ]
    );
}

#[test]
fn scenario_missing_semicolon_is_put_in() {
    let (text, parser, scanner) = compile("inicio varinicio inteiro a varfim; a <- 0; fim");
    assert_eq!(text, None);
    assert_eq!(scanner.error_count(), 0);
    assert_eq!(parser.semantic_error_count(), 0);
    assert_eq!(
        parser.show_syntatic_error_msgs(),
        vec![
            String::from("Foi encontrado 1 erro sintático"),
            String::from("# ERRO 1"),
            String::from("    [ES2] Erro sintático na linha 1, coluna 33: ausência de ';'"),
        ]
    );
    assert_eq!(body_of(&parser), "    inteiro a;\n\n    a = 0;\n");
    assert_eq!(parser.recoveries(), 1);
}

#[test]
fn scenario_lexical_error_is_swallowed() {
    let (text, parser, scanner) = compile("inicio varinicio inteiro a@; varfim; fim");
    assert_eq!(text, None);
    assert_eq!(
        scanner.show_error_msgs(),
        vec![
            String::from("Foi encontrado 1 erro léxico"),
            String::from("# ERRO 1"),
            String::from("    Erro léxico na linha 1, coluna 27: '@' não pertence ao alfabeto"),
        ]
    );
    assert_eq!(parser.semantic_error_count(), 0);
}

#[test]
fn conditional_is_opened_before_its_body() {
    let (text, _, _) = compile(
        "inicio\nvarinicio\n  inteiro a;\nvarfim;\na <- 1;\nse (a > 0) entao\n  escreva a;\nfimse\nfim\n",
    );
    let temps = "    /*----Variaveis temporarias----*/\n    inteiro T0\n    /*------------------------------*/\n";
    let body = "    inteiro a;\n\n    a = 1;\n    T0 = a > 0;\n    if (T0) {\n    printf(\"%d\", a);\n    }\n";
    assert_eq!(text, Some(format!("{}{}{}{}", PROLOGUE, temps, body, EPILOGUE)));
}

#[test]
fn loop_evaluates_its_relation_again() {
    let (text, parser, _) = compile(
        "inicio varinicio real r; inteiro a; varfim;\r\na <- 0; r <- 1.5;\r\nrepita (a < 3) a <- a + 1; r <- r * 2.0e1; fimrepita fim",
    );
    let temps = "    /*----Variaveis temporarias----*/\n    inteiro T0\n    inteiro T1\n    real T2\n    /*------------------------------*/\n";
    let body = "    real r;\n    inteiro a;\n\n    a = 0;\n    r = 1.5;\n    T0 = a < 3;\n    for(; T0; T0 = a < 3) {\n    T1 = a + 1;\n    a = T1;\n    T2 = r * 2.0e1;\n    r = T2;\n    }\n";
    assert_eq!(text, Some(format!("{}{}{}{}", PROLOGUE, temps, body, EPILOGUE)));
    assert_eq!(parser.obj_file().temp_var(2), Some(TempVarType::Real));
}

#[test]
fn statement_after_a_read_keeps_its_own_identifier() {
    let (text, _, _) = compile("inicio varinicio inteiro x; inteiro y; varfim; leia y; x <- y; fim");
    let body = "    inteiro x;\n    inteiro y;\n\n    scanf(\"%d\", &y);\n    x = y;\n";
    assert_eq!(text, Some(format!("{}{}{}", PROLOGUE, body, EPILOGUE)));
}

#[test]
fn literal_is_read_and_written() {
    let (text, _, _) = compile(
        "inicio varinicio literal s; varfim; escreva \"oi {x}\"; leia s; escreva s; escreva 7; escreva 2.5; fim",
    );
    let body = "    literal s;\n\n    printf(\"oi {x}\");\n    scanf(\"%s\", s);\n    printf(\"%s\", s);\n    printf(\"%d\", 7);\n    printf(\"%lf\", 2.5);\n";
    assert_eq!(text, Some(format!("{}{}{}", PROLOGUE, body, EPILOGUE)));
}

#[test]
fn comment_yields_no_token() {
    let (text, _, _) = compile("inicio {tudo isto; some} varinicio varfim; {fim} fim");
    assert_eq!(text, Some(format!("{}{}{}", PROLOGUE, "\n", EPILOGUE)));
}

#[test]
fn assignment_between_types_is_an_error() {
    let (text, parser, _) = compile("inicio varinicio inteiro a; varfim; a <- 1.5; fim");
    assert_eq!(text, None);
    assert_eq!(
        parser.show_semantic_error_msgs()[2],
        "    [ESe3] Erro: Tipos diferentes para atribuição na linha 2, coluna 0"
    );
    assert_eq!(body_of(&parser), "    inteiro a;\n\n");
}

#[test]
fn operands_of_two_types_are_an_error() {
    // the operands stay on the stack, so the assignment that follows finds
    // the left operand where it looks for its variable
    let (text, parser, _) = compile("inicio varinicio inteiro a; varfim; a <- 1 + 2.5;\nfim");
    assert_eq!(text, None);
    assert_eq!(parser.semantic_error_count(), 2);
    assert_eq!(
        parser.show_semantic_error_msgs(),
        vec![
            String::from("Foi encontrado 2 erros semânticos"),
            String::from("# ERRO 1"),
            String::from("    [ESe4] Erro: Operandos com tipos incompatíveis na linha 1, coluna 49"),
            String::from("# ERRO 2"),
            String::from("    [ESe1] Erro: Variável '1' não declarada na próximo à linha 3, coluna 0"),
        ]
    );
    assert_eq!(parser.obj_file().temp_count(), 0);
}

#[test]
fn undeclared_operand_and_argument_are_errors() {
    let (text, parser, _) = compile("inicio varinicio varfim; escreva w; leia w; fim");
    assert_eq!(text, None);
    let lines = parser.show_semantic_error_msgs();
    assert_eq!(lines[2], "    [ESe2] Erro: Variável 'w' não declarada na linha 1, coluna 35");
    assert_eq!(lines.len(), 5);
}

#[test]
fn literal_in_a_relation_is_an_error() {
    let (text, parser, _) = compile(
        "inicio varinicio literal s; varfim; se (s > 1) entao fimse fim",
    );
    assert_eq!(text, None);
    assert_eq!(
        parser.show_semantic_error_msgs()[2],
        "    [ESe5] Erro: Operandos com tipos incompatíveis para comparação na linha 1, coluna 46"
    );
}

#[test]
fn code_after_the_end_is_dropped() {
    let (text, parser, _) = compile("inicio varinicio varfim; fim leia x; fim");
    assert_eq!(text, None);
    assert_eq!(
        parser.show_syntatic_error_msgs()[2],
        "    [ES1] Erro sintático na linha 1, coluna 33: nenhum código deve vir após a palavra reservada 'fim'"
    );
    assert_eq!(parser.syntatic_error_count(), 1);
}

#[test]
fn doubled_semicolon_is_dropped() {
    let (text, parser, _) = compile("inicio varinicio inteiro a;; varfim; fim");
    assert_eq!(text, None);
    assert_eq!(
        parser.show_syntatic_error_msgs()[2],
        "    [ES3] Erro sintático na linha 1, coluna 28: múltiplos ';' na sequência"
    );
    assert_eq!(body_of(&parser), "    inteiro a;\n\n");
}

#[test]
fn stray_token_after_a_semicolon_is_dropped() {
    let (text, parser, _) = compile("inicio varinicio varfim; leia x; ) fim");
    assert_eq!(text, None);
    assert_eq!(
        parser.show_syntatic_error_msgs()[2],
        "    [ES4] Erro sintático na linha 1, coluna 34: token inválido após um ';'\n    NOTA: o token ')' foi removido"
    );
}

#[test]
fn missing_parenthesis_after_se_is_put_in() {
    let (text, parser, _) = compile(
        "inicio varinicio inteiro a; varfim; se a > 0) entao fimse fim",
    );
    assert_eq!(text, None);
    assert_eq!(
        parser.show_syntatic_error_msgs()[2],
        "    [ES6] Erro sintático na linha 1, coluna 40: esperado um '(' após a palavra reservada 'se'"
    );
    let temps = "    /*----Variaveis temporarias----*/\n    inteiro T0\n    /*------------------------------*/\n";
    assert_eq!(
        body_of(&parser),
        format!("{}{}", temps, "    inteiro a;\n\n    T0 = a > 0;\n    if (T0) {\n    }\n")
    );
}

#[test]
fn wrong_token_after_se_is_replaced() {
    let (text, parser, _) = compile(
        "inicio varinicio inteiro a; varfim; se ; a > 0) entao fimse fim",
    );
    assert_eq!(text, None);
    assert_eq!(
        parser.show_syntatic_error_msgs()[2],
        "    [ES5] Erro sintático na linha 1, coluna 40: esperado um '(' após a palavra reservada 'se'\n    NOTA: o token ';' foi removido"
    );
    assert_eq!(parser.syntatic_error_count(), 1);
}

#[test]
fn empty_parentheses_after_se_are_fatal() {
    let (text, parser, _) = compile("inicio varinicio varfim; se () entao fimse fim");
    assert_eq!(text, None);
    assert_eq!(
        parser.show_syntatic_error_msgs()[2],
        "    [ES9.1] Erro sintático na linha 1, coluna 30: encontrado um () após a palavra reservada 'se'\n    NOTA: não é possível recuperar deste erro e portanto a análise foi interrompida"
    );
}

#[test]
fn wrong_operand_after_se_is_dropped() {
    let (text, parser, _) = compile(
        "inicio varinicio inteiro a; varfim; se ( ; a > 0) entao fimse fim",
    );
    assert_eq!(text, None);
    assert_eq!(
        parser.show_syntatic_error_msgs()[2],
        "    [ES9.2] Erro sintático na linha 1, coluna 42: esperado um 'id' ou um 'num' após um 'se ('\n    NOTA: o token ';' foi removido"
    );
    assert_eq!(parser.syntatic_error_count(), 1);
}

#[test]
fn operand_without_operator_is_fatal() {
    let (text, parser, _) = compile("inicio varinicio inteiro a; varfim; a <- a a; fim");
    assert_eq!(text, None);
    assert!(parser.show_syntatic_error_msgs()[2].starts_with("    [ES7] Erro sintático na linha 1, coluna 44: após um identificador"));
    let (_, parser, _) = compile("inicio varinicio inteiro a; varfim; a <- 1 a; fim");
    assert!(parser.show_syntatic_error_msgs()[2].starts_with("    [ES8] Erro sintático na linha 1, coluna 44: após um número"));
}

#[test]
fn broken_relation_is_fatal() {
    let (_, parser, _) = compile("inicio varinicio inteiro a; varfim; se (a) entao fimse fim");
    assert!(parser.show_syntatic_error_msgs()[2].starts_with("    [ES10] Erro sintático na linha 1, coluna 42: não encontrado"));
    let (_, parser, _) = compile("inicio varinicio inteiro a; varfim; se (a >) entao fimse fim");
    assert!(parser.show_syntatic_error_msgs()[2].starts_with("    [ES11] Erro sintático na linha 1, coluna 44: esperado um 'num' ou um 'id'"));
}

#[test]
fn extra_tokens_in_a_header_are_dropped() {
    let (_, parser, _) = compile(
        "inicio varinicio inteiro a; varfim; se (a > 0 ;) ; entao ; fimse fim",
    );
    let lines = parser.show_syntatic_error_msgs();
    assert_eq!(lines[0], "Foi encontrado 3 erros sintáticos");
    assert_eq!(lines[2], "    [ES12] Erro sintático na linha 1, coluna 47: após uma expressão relacional, é esperado um ')'\n    NOTA: o token ';' foi removido");
    assert_eq!(lines[4], "    [ES13] Erro sintático na linha 1, coluna 50: esperado a palavra reservada 'entao' após a expressão relacional de uma estrutura condicional\n    NOTA: o token ';' foi removido");
    assert_eq!(lines[6], "    [ES14] Erro sintático na linha 1, coluna 58: esperado 'leia', 'escreva', 'id', 'se' ou 'fimse' após a palavra reservada 'entao'\n    NOTA: o token ';' foi removido");
    assert_eq!(parser.recoveries(), 3);
}

#[test]
fn recoveries_of_a_loop_header() {
    let (_, parser, _) = compile("inicio varinicio inteiro a; varfim; repita a < 1) fimrepita fim");
    assert_eq!(parser.show_syntatic_error_msgs()[2], "    [ES16] Erro sintático na linha 1, coluna 44: esperado um '(' após a palavra reservada 'repita'");
    let (_, parser, _) = compile("inicio varinicio inteiro a; varfim; repita ; a < 1) fimrepita fim");
    assert_eq!(parser.show_syntatic_error_msgs()[2], "    [ES15] Erro sintático na linha 1, coluna 44: esperado um '(' após a palavra reservada 'repita'\n    NOTA: o token ';' foi removido");
    let (_, parser, _) = compile("inicio varinicio inteiro a; varfim; repita ( ; a < 1) fimrepita fim");
    assert_eq!(parser.show_syntatic_error_msgs()[2], "    [ES17.2] Erro sintático na linha 1, coluna 46: esperado um 'id' ou um 'num' após um 'repita ('\n    NOTA: o token ';' foi removido");
    let (_, parser, _) = compile("inicio varinicio inteiro a; varfim; repita () fimrepita fim");
    assert!(parser.show_syntatic_error_msgs()[2].starts_with("    [ES17.1] Erro sintático na linha 1, coluna 45: encontrado um () após a palavra reservada 'repita'"));
}

#[test]
fn empty_cell_is_the_error_of_code_zero() {
    let (text, parser, _) = compile("varinicio");
    assert_eq!(text, None);
    assert_eq!(
        parser.show_syntatic_error_msgs(),
        vec![
            String::from("Foi encontrado 1 erro sintático"),
            String::from("# ERRO 1"),
            String::from("    [ES0] Erro sintático na linha 2, coluna 0\n    NOTA: não é possível recuperar deste erro e portanto a análise foi interrompida"),
        ]
    );
}

#[test]
fn no_compilation_makes_more_than_a_hundred_recoveries() {
    let mut source = String::from("inicio varinicio varfim; leia x;");
    for _ in 0..150 {
        source.push_str(" )");
    }
    source.push_str(" fim");
    let (text, parser, _) = compile(&source);
    assert_eq!(text, None);
    assert_eq!(parser.recoveries(), 100);
    assert_eq!(parser.syntatic_error_count(), 100);
}

#[test]
fn parse_starts_afresh_each_time() {
    let mut parser = parser_with(ACTIONS, GOTOS);
    let mut first = Scanner::new("inicio varinicio varfim; leia x; fim");
    assert_eq!(parser.parse(&mut first), None);
    assert_eq!(parser.semantic_error_count(), 1);
    let mut second = Scanner::new("inicio varinicio inteiro x; varfim; leia x; fim");
    let body = "    inteiro x;\n\n    scanf(\"%d\", &x);\n";
    assert_eq!(parser.parse(&mut second), Some(format!("{}{}{}", PROLOGUE, body, EPILOGUE)));
    assert_eq!(parser.semantic_error_count(), 0);
    assert_eq!(parser.recoveries(), 0);
}

#[test]
fn step_by_step_analysis_ends_in_acceptance() {
    let mut scanner = Scanner::new("inicio varinicio varfim; fim");
    let mut parser = parser_with(ACTIONS, GOTOS);
    parser.next_token(&mut scanner);
    let mut steps = 0;
    loop {
        let status = parser.step(&mut scanner);
        steps += 1;
        if status != Status::Going {
            assert_eq!(status, Status::Accepted);
            break;
        }
    }
    // five shifts, four reductions and the acceptance
    assert_eq!(steps, 10);
}

#[test]
fn reduction_takes_off_as_many_states_as_the_rule_has_symbols() {
    let mut scanner = Scanner::new("inicio varinicio inteiro a; varfim; a <- a + 1; fim");
    let mut parser = parser_with(ACTIONS, GOTOS);
    parser.next_token(&mut scanner);
    let gotos = GotoTable::new(GOTOS).unwrap();
    let actions = ActionTable::new(ACTIONS).unwrap();
    let grammar = mgol::grammar::Grammar::new();
    let mut reductions = 0;
    loop {
        let before = parser.states();
        let action = actions.get(*before.last().unwrap(), &parser.token().class);
        let status = parser.step(&mut scanner);
        let after = parser.states();
        match action {
            mgol::slr_table::SlrAction::R(r) => {
                let rule = grammar.get_rule(r as usize);
                let kept = before.len() - rule.right.len();
                assert_eq!(after.len(), kept + 1);
                assert_eq!(after[..kept], before[..kept]);
                let target = gotos.get(before[kept - 1], &rule.left.text);
                assert_ne!(target, 0);
                assert_eq!(after[kept], target);
                reductions += 1;
            }
            mgol::slr_table::SlrAction::S(target) => {
                assert_eq!(after.len(), before.len() + 1);
                assert_eq!(*after.last().unwrap(), target);
            }
            _ => assert_eq!(after, before),
        }
        if status != Status::Going {
            assert_eq!(status, Status::Accepted);
            break;
        }
    }
    assert_eq!(reductions, 13);
    assert_eq!(parser.states(), vec![0, 2]);
}

#[test]
fn object_file_is_given_if_and_only_if_nothing_was_recorded() {
    for source in [
        "inicio varinicio varfim; fim",
        "inicio varinicio inteiro a; varfim; a <- 1; fim",
        "inicio varinicio varfim; a <- 1; fim",
        "inicio varinicio varfim fim",
        "inicio varinicio varfim; # fim",
        "inicio varinicio varfim; fim {",
        "",
    ] {
        let (text, parser, scanner) = compile(source);
        let errors =
            scanner.error_count() + parser.syntatic_error_count() + parser.semantic_error_count();
        assert_eq!(text.is_some(), errors == 0, "{:?}", source);
        if let Some(text) = text {
            assert_eq!(text, parser.obj_file().create());
        }
    }
}

#[test]
fn table_that_shifts_the_end_of_the_input_is_stopped() {
    let actions = "state,header\n0,,,,,,,,,,,,,,,,,,,,,,,,S0\n";
    let mut parser = parser_with(actions, "state\n");
    let mut scanner = Scanner::new("");
    assert_eq!(parser.parse(&mut scanner), None);
    assert_eq!(
        parser.show_syntatic_error_msgs()[2],
        "    [ES0] Erro sintático na linha 1, coluna 0\n    NOTA: não é possível recuperar deste erro e portanto a análise foi interrompida"
    );
}

#[test]
fn reduction_without_a_goto_is_stopped() {
    // state 0 shifts `fim` to state 1, which reduces by the last rule; no goto is given
    let actions = "state,header\n0,,,,,,,,,,,,,,,,,,,,S1,,,,\n1,,,,,,,,,,,,,,,,,,,,,,,,R38\n";
    let mut parser = parser_with(actions, "state\n");
    let mut scanner = Scanner::new("fim");
    assert_eq!(parser.parse(&mut scanner), None);
    assert_eq!(parser.syntatic_error_count(), 1);
    // with the goto the same tables go on
    let gotos = "state,P,V,LV,D,L,TIPO,A\n0,0,0,0,0,0,0,2\n";
    let actions = "state,header\n0,,,,,,,,,,,,,,,,,,,,S1,,,,\n1,,,,,,,,,,,,,,,,,,,,,,,,R38\n2,,,,,,,,,,,,,,,,,,,,,,,,A\n";
    let gotos_full = format!("{}{}", &gotos[..gotos.find('\n').unwrap()], ",ES,ARG,CMD,LD,OPRD,COND,CAB,EXP_R,CP,R,CABR,CPR\n0,0,0,0,0,0,0,2,0,0,0,0,0,0,0,0,0,0,0,0\n");
    let mut parser = parser_with(actions, &gotos_full);
    let mut scanner = Scanner::new("fim");
    assert_eq!(parser.parse(&mut scanner), Some(format!("{}{}", PROLOGUE, EPILOGUE)));
}

#[test]
fn endless_run_of_reductions_is_stopped() {
    // state 1 reduces `A -> fim` and the goto leads back to state 1
    let actions = "state,header\n0,,,,,,,,,,,,,,,,,,,,S1,,,,\n1,,,,,,,,,,,,,,,,,,,,,,,,R38\n";
    let gotos = "state,P,V,LV,D,L,TIPO,A,ES,ARG,CMD,LD,OPRD,COND,CAB,EXP_R,CP,R,CABR,CPR\n0,0,0,0,0,0,0,1,0,0,0,0,0,0,0,0,0,0,0,0\n";
    let mut parser = parser_with(actions, gotos);
    let mut scanner = Scanner::new("fim");
    assert_eq!(parser.parse(&mut scanner), None);
    assert_eq!(parser.syntatic_error_count(), 1);
}
