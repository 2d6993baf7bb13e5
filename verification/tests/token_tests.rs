use mgol::token::Token;

#[test]
fn token_new_keeps_the_three_attributes() {
    let t = Token::new(String::from("num"), Some(String::from("42")), Some(String::from("inteiro")));
    assert_eq!(t.class, "num");
    assert_eq!(t.lexeme, Some(String::from("42")));
    assert_eq!(t.tk_type, Some(String::from("inteiro")));
}

#[test]
fn token_new_from_lexeme_repeats_the_word() {
    let t = Token::new_from_lexeme("inicio");
    assert_eq!(t.class, "inicio");
    assert_eq!(t.lexeme, Some(String::from("inicio")));
    assert_eq!(t.tk_type, Some(String::from("inicio")));
}

#[test]
fn token_new_from_ref_copies() {
    let t = Token::new(String::from("id"), Some(String::from("x")), None);
    let u = Token::new_from_ref(&t);
    assert_eq!(u.class, "id");
    assert_eq!(u.lexeme, Some(String::from("x")));
    assert_eq!(u.tk_type, None);
}
