use vstd::prelude::*;
use vstd::string::*;

verus! {

/// What a token is, as plain sequences of characters.
pub struct TokenView {
    pub class: Seq<char>,
    pub lexeme: Option<Seq<char>>,
    pub tk_type: Option<Seq<char>>,
}

/// The characters of an optional string.
pub open spec fn opt_text(s: Option<String>) -> Option<Seq<char>> {
    match s {
        Some(t) => Some(t@),
        None => None,
    }
}

/// A token: the class is the name of a terminal, the lexeme is the source
/// text it was read from, and the type is set for values only. An absent
/// lexeme or type means that the token has no such attribute.
pub struct Token {
    pub class: String,
    pub lexeme: Option<String>,
    pub tk_type: Option<String>,
}

impl View for Token {
    type V = TokenView;

    open spec fn view(&self) -> TokenView {
        TokenView {
            class: self.class@,
            lexeme: opt_text(self.lexeme),
            tk_type: opt_text(self.tk_type),
        }
    }
}

/// A copy of an optional string.
pub fn clone_opt(s: &Option<String>) -> (r: Option<String>)
    ensures
        opt_text(r) == opt_text(*s),
{
    match s {
        Some(t) => Some(t.clone()),
        None => None,
    }
}

impl Clone for Token {
    fn clone(&self) -> (r: Token)
        ensures
            r@ == self@,
    {
        Token {
            class: self.class.clone(),
            lexeme: clone_opt(&self.lexeme),
            tk_type: clone_opt(&self.tk_type),
        }
    }
}

impl Token {
    /// A token made of the three attributes given.
    pub fn new(class: String, lexeme: Option<String>, tk_type: Option<String>) -> (t: Token)
        ensures
            t@ == (TokenView { class: class@, lexeme: opt_text(lexeme), tk_type: opt_text(tk_type) }),
            t.class == class,
            t.lexeme == lexeme,
            t.tk_type == tk_type,
    {
        Token { class, lexeme, tk_type }
    }

    /// The token of a reserved word: class, lexeme and type are all the
    /// word itself.
    pub fn new_from_lexeme(lexeme: &str) -> (t: Token)
        ensures
            t@ == Self::reserved(lexeme@),
    {
        Token {
            class: String::from_str(lexeme),
            lexeme: Some(String::from_str(lexeme)),
            tk_type: Some(String::from_str(lexeme)),
        }
    }

    /// A copy of the token behind the reference.
    pub fn new_from_ref(token: &Token) -> (t: Token)
        ensures
            t@ == token@,
    {
        token.clone()
    }

    /// The token that a reserved word stands for.
    pub open spec fn reserved(word: Seq<char>) -> TokenView {
        TokenView { class: word, lexeme: Some(word), tk_type: Some(word) }
    }
}

} // verus!
