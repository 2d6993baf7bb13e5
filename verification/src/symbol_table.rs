use crate::token::{Token, TokenView};
use vstd::prelude::*;
use vstd::string::*;

verus! {

/// Whether `word` is one of the fourteen reserved words of the language.
pub open spec fn is_reserved(word: Seq<char>) -> bool {
    word == "inicio"@ || word == "varinicio"@ || word == "varfim"@ || word == "escreva"@
        || word == "leia"@ || word == "se"@ || word == "entao"@ || word == "fimse"@
        || word == "repita"@ || word == "fimrepita"@ || word == "fim"@ || word == "inteiro"@
        || word == "literal"@ || word == "real"@
}

/// The table that holds the reserved words and nothing else: each word is
/// bound to the token whose class, lexeme and type are the word itself.
pub open spec fn reserved_words() -> Map<Seq<char>, TokenView> {
    Map::new(|word: Seq<char>| is_reserved(word), |word: Seq<char>| Token::reserved(word))
}

/// One binding of the table.
pub struct Entry {
    pub lexeme: String,
    pub token: Token,
}

/// The symbol table: a finite map from lexemes to tokens, in which no
/// lexeme is bound twice.
pub struct SymbolTable {
    entries: Vec<Entry>,
}

impl View for SymbolTable {
    type V = Map<Seq<char>, TokenView>;

    closed spec fn view(&self) -> Map<Seq<char>, TokenView> {
        Map::new(
            |lexeme: Seq<char>| Self::bound(self.entries@, lexeme),
            |lexeme: Seq<char>| self.entries@[Self::position(self.entries@, lexeme)].token@,
        )
    }
}

impl SymbolTable {
    #[verifier::type_invariant]
    spec fn distinct(self) -> bool {
        forall|i: int, j: int|
            0 <= i < j < self.entries@.len() ==> self.entries@[i].lexeme@ != self.entries@[j].lexeme@
    }

    /// Whether some entry binds `lexeme`.
    spec fn bound(entries: Seq<Entry>, lexeme: Seq<char>) -> bool {
        exists|i: int| 0 <= i < entries.len() && #[trigger] entries[i].lexeme@ == lexeme
    }

    /// The place of an entry that binds `lexeme`.
    spec fn position(entries: Seq<Entry>, lexeme: Seq<char>) -> int {
        choose|i: int| 0 <= i < entries.len() && #[trigger] entries[i].lexeme@ == lexeme
    }

    /// The place of the entry that binds `lexeme`, if there is one.
    fn find(&self, lexeme: &String) -> (r: Option<usize>)
        ensures
            match r {
                Some(i) => i < self.entries@.len() && self.entries@[i as int].lexeme@ == lexeme@
                    && self@.dom().contains(lexeme@) && self@[lexeme@] == self.entries@[i as int].token@,
                None => !self@.dom().contains(lexeme@),
            },
    {
        proof {
            use_type_invariant(self);
        }
        let mut i: usize = 0;
        while i < self.entries.len()
            invariant
                self.distinct(),
                i <= self.entries@.len(),
                forall|j: int| 0 <= j < i ==> self.entries@[j].lexeme@ != lexeme@,
            decreases self.entries@.len() - i,
        {
            if self.entries[i].lexeme == *lexeme {
                proof {
                    assert(self.entries@[i as int].lexeme@ == lexeme@);
                    let j = Self::position(self.entries@, lexeme@);
                    if j < i {
                        assert(self.entries@[j].lexeme@ != self.entries@[i as int].lexeme@);
                    } else if i < j {
                        assert(self.entries@[i as int].lexeme@ != self.entries@[j].lexeme@);
                    }
                }
                return Some(i);
            }
            i += 1;
        }
        proof {
            if Self::bound(self.entries@, lexeme@) {
                let j = Self::position(self.entries@, lexeme@);
                assert(self.entries@[j].lexeme@ == lexeme@);
            }
        }
        None
    }

    /// A new table, which holds the reserved words.
    pub fn new() -> (table: SymbolTable)
        ensures
            table@ == reserved_words(),
    {
        let mut symbol_table = SymbolTable { entries: Vec::new() };
        assert(symbol_table@ =~= Map::empty());
        symbol_table.init_reserved_words();
        assert(symbol_table@ =~= reserved_words());
        symbol_table
    }

    /// The token bound to `lexeme`, if there is one.
    pub fn get(&self, lexeme: String) -> (r: Option<Token>)
        ensures
            match r {
                Some(token) => self@.dom().contains(lexeme@) && token@ == self@[lexeme@],
                None => !self@.dom().contains(lexeme@),
            },
    {
        match self.find(&lexeme) {
            Some(i) => Some(Token::new_from_ref(&self.entries[i].token)),
            None => None,
        }
    }

    /// Binds `lexeme` to `token`, in place of what it was bound to before.
    pub fn insert(&mut self, lexeme: String, token: Token)
        ensures
            final(self)@ == old(self)@.insert(lexeme@, token@),
    {
        proof {
            use_type_invariant(&*self);
        }
        let ghost before = self.entries@;
        let ghost key = lexeme@;
        let ghost value = token@;
        let found = self.find(&lexeme);
        let mut entries: Vec<Entry> = Vec::new();
        core::mem::swap(&mut self.entries, &mut entries);
        let ghost at: int;
        match found {
            Some(i) => {
                entries[i] = Entry { lexeme, token };
                proof {
                    at = i as int;
                }
            },
            None => {
                entries.push(Entry { lexeme, token });
                proof {
                    at = before.len() as int;
                    assert forall|j: int| 0 <= j < before.len() implies before[j].lexeme@ != key by {
                        if before[j].lexeme@ == key {
                            assert(Self::bound(before, key));
                        }
                    }
                }
            },
        }
        let ghost after = entries@;
        proof {
            assert(after[at].lexeme@ == key && after[at].token@ == value);
            assert(forall|j: int| 0 <= j < after.len() && j != at ==> after[j] == before[j]);
            assert(forall|j: int| 0 <= j < before.len() && j != at ==> before[j].lexeme@ != key);
            assert forall|i: int, j: int| 0 <= i < j < after.len() implies after[i].lexeme@ != after[j].lexeme@ by {
                if i != at && j != at {
                    assert(before[i].lexeme@ != before[j].lexeme@);
                }
            }
        }
        core::mem::swap(&mut self.entries, &mut entries);
        proof {
            assert forall|k: Seq<char>| Self::bound(after, k) <==> (k == key || Self::bound(before, k)) by {
                if Self::bound(after, k) && k != key {
                    let j = Self::position(after, k);
                    assert(before[j].lexeme@ == k);
                }
                if Self::bound(before, k) && k != key {
                    let j = Self::position(before, k);
                    assert(after[j].lexeme@ == k);
                }
                if k == key {
                    assert(after[at].lexeme@ == k);
                }
            }
            assert forall|k: Seq<char>| Self::bound(after, k) implies after[Self::position(after, k)].token@ == (if k
                == key {
                value
            } else {
                before[Self::position(before, k)].token@
            }) by {
                let j = Self::position(after, k);
                if k != key {
                    assert(before[j].lexeme@ == k);
                    let j0 = Self::position(before, k);
                    assert(j0 == j) by {
                        if j0 < j {
                            assert(before[j0].lexeme@ != before[j].lexeme@);
                        } else if j < j0 {
                            assert(before[j].lexeme@ != before[j0].lexeme@);
                        }
                    }
                } else {
                    assert(j == at) by {
                        if j < at {
                            assert(after[j].lexeme@ != after[at].lexeme@);
                        } else if at < j {
                            assert(after[at].lexeme@ != after[j].lexeme@);
                        }
                    }
                }
            }
            assert(self@ =~= old(self)@.insert(key, value));
        }
    }

    /// Binds `lexeme` to `token` if the table binds `lexeme` already, and
    /// leaves the table as it is otherwise.
    pub fn update(&mut self, lexeme: String, token: Token)
        ensures
            final(self)@ == (if old(self)@.dom().contains(lexeme@) {
                old(self)@.insert(lexeme@, token@)
            } else {
                old(self)@
            }),
    {
        if self.find(&lexeme).is_some() {
            self.insert(lexeme, token);
        }
    }

    /// The lexemes that the table binds, each once.
    pub fn lexemes(&self) -> (lexemes: Vec<String>)
        ensures
            forall|i: int, j: int|
                0 <= i < j < lexemes@.len() ==> lexemes@[i]@ != lexemes@[j]@,
            forall|i: int| 0 <= i < lexemes@.len() ==> self@.contains_key(#[trigger] lexemes@[i]@),
            forall|lexeme: Seq<char>| #[trigger]
                self@.contains_key(lexeme) ==> exists|i: int|
                    0 <= i < lexemes@.len() && #[trigger] lexemes@[i]@ == lexeme,
    {
        proof {
            use_type_invariant(self);
        }
        let mut lexemes: Vec<String> = Vec::new();
        let mut i: usize = 0;
        while i < self.entries.len()
            invariant
                i <= self.entries@.len(),
                lexemes@.len() == i,
                forall|j: int| 0 <= j < i ==> (#[trigger] lexemes@[j])@ == self.entries@[j].lexeme@,
            decreases self.entries@.len() - i,
        {
            lexemes.push(self.entries[i].lexeme.clone());
            i += 1;
        }
        proof {
            assert forall|k: int| 0 <= k < lexemes@.len() implies self@.contains_key(
                #[trigger] lexemes@[k]@,
            ) by {
                assert(self.entries@[k].lexeme@ == lexemes@[k]@);
            }
            assert forall|lexeme: Seq<char>| #[trigger] self@.contains_key(lexeme) implies exists|
                k: int,
            |
                0 <= k < lexemes@.len() && #[trigger] lexemes@[k]@ == lexeme by {
                let k = Self::position(self.entries@, lexeme);
                assert(lexemes@[k]@ == lexeme);
            }
        }
        lexemes
    }

    /// Binds every reserved word to its token.
    pub fn init_reserved_words(&mut self)
        ensures
            final(self)@ == old(self)@.union_prefer_right(reserved_words()),
    {
        self.insert(String::from_str("inicio"), Token::new_from_lexeme("inicio"));
        self.insert(String::from_str("varinicio"), Token::new_from_lexeme("varinicio"));
        self.insert(String::from_str("varfim"), Token::new_from_lexeme("varfim"));
        self.insert(String::from_str("escreva"), Token::new_from_lexeme("escreva"));
        self.insert(String::from_str("leia"), Token::new_from_lexeme("leia"));
        self.insert(String::from_str("se"), Token::new_from_lexeme("se"));
        self.insert(String::from_str("entao"), Token::new_from_lexeme("entao"));
        self.insert(String::from_str("fimse"), Token::new_from_lexeme("fimse"));
        self.insert(String::from_str("repita"), Token::new_from_lexeme("repita"));
        self.insert(String::from_str("fimrepita"), Token::new_from_lexeme("fimrepita"));
        self.insert(String::from_str("fim"), Token::new_from_lexeme("fim"));
        self.insert(String::from_str("inteiro"), Token::new_from_lexeme("inteiro"));
        self.insert(String::from_str("literal"), Token::new_from_lexeme("literal"));
        self.insert(String::from_str("real"), Token::new_from_lexeme("real"));
        assert(final(self)@ =~= old(self)@.union_prefer_right(reserved_words()));
    }
}

} // verus!
