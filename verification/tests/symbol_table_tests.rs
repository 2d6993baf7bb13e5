use mgol::symbol_table::SymbolTable;
use mgol::token::Token;

const RESERVED: [&str; 14] = [
    "inicio", "varinicio", "varfim", "escreva", "leia", "se", "entao", "fimse", "repita",
    "fimrepita", "fim", "inteiro", "literal", "real",
];

#[test]
fn new_table_holds_the_reserved_words() {
    let table = SymbolTable::new();
    for word in RESERVED {
        let token = table.get(String::from(word)).unwrap();
        assert_eq!(token.class, word);
        assert_eq!(token.lexeme, Some(String::from(word)));
        assert_eq!(token.tk_type, Some(String::from(word)));
    }
}

#[test]
fn new_table_holds_nothing_else() {
    let table = SymbolTable::new();
    assert!(table.get(String::from("x")).is_none());
    assert!(table.get(String::from("")).is_none());
    assert!(table.get(String::from("Inicio")).is_none());
    assert!(table.get(String::from("id")).is_none());
}

#[test]
fn insert_binds_and_replaces() {
    let mut table = SymbolTable::new();
    table.insert(String::from("x"), Token::new(String::from("id"), Some(String::from("x")), None));
    let got = table.get(String::from("x")).unwrap();
    assert_eq!(got.class, "id");
    assert_eq!(got.tk_type, None);
    table.insert(
        String::from("x"),
        Token::new(String::from("id"), Some(String::from("x")), Some(String::from("real"))),
    );
    assert_eq!(table.get(String::from("x")).unwrap().tk_type, Some(String::from("real")));
    // the other bindings stay
    assert_eq!(table.get(String::from("fim")).unwrap().class, "fim");
}

#[test]
fn update_changes_only_what_is_bound() {
    let mut table = SymbolTable::new();
    table.update(String::from("y"), Token::new(String::from("id"), Some(String::from("y")), None));
    assert!(table.get(String::from("y")).is_none());
    table.insert(String::from("y"), Token::new(String::from("id"), Some(String::from("y")), None));
    table.update(
        String::from("y"),
        Token::new(String::from("id"), Some(String::from("y")), Some(String::from("inteiro"))),
    );
    assert_eq!(table.get(String::from("y")).unwrap().tk_type, Some(String::from("inteiro")));
}

#[test]
fn seeding_again_restores_a_reserved_word() {
    let mut table = SymbolTable::new();
    table.insert(String::from("se"), Token::new(String::from("id"), None, None));
    assert_eq!(table.get(String::from("se")).unwrap().class, "id");
    table.init_reserved_words();
    assert_eq!(table.get(String::from("se")).unwrap().class, "se");
}

#[test]
fn lexemes_are_those_that_are_bound() {
    let mut table = SymbolTable::new();
    table.insert(String::from("x"), Token::new(String::from("id"), Some(String::from("x")), None));
    table.insert(String::from("x"), Token::new(String::from("id"), Some(String::from("x")), None));
    table.insert(String::from("fim"), Token::new_from_lexeme("fim"));
    let mut lexemes = table.lexemes();
    lexemes.sort();
    let mut expected: Vec<String> = RESERVED.iter().map(|w| String::from(*w)).collect();
    expected.push(String::from("x"));
    expected.sort();
    assert_eq!(lexemes, expected);
}
