use crate::text::{
    chars_of, decimal, lemma_five_words, lemma_four_words, lemma_one_word, lemma_three_words,
    lemma_two_words, push_decimal, same_text, split_words, string_of, texts, views, words,
};
use vstd::prelude::*;
use vstd::string::*;

verus! {

/// The lowercase form of a string, as `str::to_lowercase` gives it.
pub uninterp spec fn lowercase(text: Seq<char>) -> Seq<char>;

/// `str::to_lowercase` returns the lowercase form of the string, which
/// depends on the characters of the string alone. Nothing more is claimed
/// of it here.
#[verifier::external_body]
fn to_lowercase(text: &str) -> (lower: String)
    ensures
        lower@ == lowercase(text@),
{
    text.to_lowercase()
}

/// What a symbol of the grammar is.
pub struct ItemView {
    pub text: Seq<char>,
    pub terminal: bool,
}

/// What a rule of the grammar is.
pub struct RuleView {
    pub left: ItemView,
    pub right: Seq<ItemView>,
}

/// A symbol of the grammar. It is a terminal if and only if its text is
/// its own lowercase form.
pub struct AlphabetItem {
    pub text: String,
    pub terminal: bool,
}

/// A rule of the grammar: the symbol on its left side and the symbols on
/// its right side, in order.
pub struct GrammarRule {
    pub left: AlphabetItem,
    pub right: Vec<AlphabetItem>,
}

/// The rules of the grammar. Rule `n`, counted from one, stands at index
/// `n - 1`.
pub struct Grammar {
    rules: Vec<GrammarRule>,
}

impl View for AlphabetItem {
    type V = ItemView;

    open spec fn view(&self) -> ItemView {
        ItemView { text: self.text@, terminal: self.terminal }
    }
}

impl View for GrammarRule {
    type V = RuleView;

    open spec fn view(&self) -> RuleView {
        RuleView {
            left: self.left@,
            right: Seq::new(self.right@.len(), |i: int| self.right@[i]@),
        }
    }
}

impl View for Grammar {
    type V = Seq<RuleView>;

    closed spec fn view(&self) -> Seq<RuleView> {
        Seq::new(self.rules@.len(), |i: int| self.rules@[i]@)
    }
}

/// The symbol of the right side of a rule whose text is `text`.
pub open spec fn symbol(text: Seq<char>) -> ItemView {
    ItemView { text, terminal: lowercase(text) == text }
}

/// The rule with `left` on its left side and the symbols `right`, in
/// order, on its right side. The left side of a rule is no terminal.
pub open spec fn production(left: Seq<char>, right: Seq<Seq<char>>) -> RuleView {
    RuleView {
        left: ItemView { text: left, terminal: false },
        right: Seq::new(right.len(), |i: int| symbol(right[i])),
    }
}

/// The rules given, followed by the thirty-eight rules of the language in
/// order.
pub open spec fn extended(rules: Seq<RuleView>) -> Seq<RuleView> {
    rules
        .push(production("P'"@, seq!["P"@]))
        .push(production("P"@, seq!["inicio"@, "V"@, "A"@]))
        .push(production("V"@, seq!["varinicio"@, "LV"@]))
        .push(production("LV"@, seq!["D"@, "LV"@]))
        .push(production("LV"@, seq!["varfim"@, "pt_v"@]))
        .push(production("D"@, seq!["TIPO"@, "L"@, "pt_v"@]))
        .push(production("L"@, seq!["id"@]))
        .push(production("TIPO"@, seq!["inteiro"@]))
        .push(production("TIPO"@, seq!["real"@]))
        .push(production("TIPO"@, seq!["literal"@]))
        .push(production("A"@, seq!["ES"@, "A"@]))
        .push(production("ES"@, seq!["leia"@, "id"@, "pt_v"@]))
        .push(production("ES"@, seq!["escreva"@, "ARG"@, "pt_v"@]))
        .push(production("ARG"@, seq!["lit"@]))
        .push(production("ARG"@, seq!["num"@]))
        .push(production("ARG"@, seq!["id"@]))
        .push(production("A"@, seq!["CMD"@, "A"@]))
        .push(production("CMD"@, seq!["id"@, "rcb"@, "LD"@, "pt_v"@]))
        .push(production("LD"@, seq!["OPRD"@, "opm"@, "OPRD"@]))
        .push(production("LD"@, seq!["OPRD"@]))
        .push(production("OPRD"@, seq!["id"@]))
        .push(production("OPRD"@, seq!["num"@]))
        .push(production("A"@, seq!["COND"@, "A"@]))
        .push(production("COND"@, seq!["CAB"@, "CP"@]))
        .push(production("CAB"@, seq!["se"@, "ab_p"@, "EXP_R"@, "fc_p"@, "entao"@]))
        .push(production("EXP_R"@, seq!["OPRD"@, "opr"@, "OPRD"@]))
        .push(production("CP"@, seq!["ES"@, "CP"@]))
        .push(production("CP"@, seq!["CMD"@, "CP"@]))
        .push(production("CP"@, seq!["COND"@, "CP"@]))
        .push(production("CP"@, seq!["fimse"@]))
        .push(production("A"@, seq!["R"@, "A"@]))
        .push(production("R"@, seq!["CABR"@, "CPR"@]))
        .push(production("CABR"@, seq!["repita"@, "ab_p"@, "EXP_R"@, "fc_p"@]))
        .push(production("CPR"@, seq!["ES"@, "CPR"@]))
        .push(production("CPR"@, seq!["CMD"@, "CPR"@]))
        .push(production("CPR"@, seq!["COND"@, "CPR"@]))
        .push(production("CPR"@, seq!["fimrepita"@]))
        .push(production("A"@, seq!["fim"@]))
}

/// The thirty-eight rules of the language, in order; the first is the
/// rule of the augmented start symbol.
pub open spec fn productions() -> Seq<RuleView> {
    extended(Seq::empty())
}

impl AlphabetItem {
    /// The symbol whose text is `text`, where `lower` is the lowercase
    /// form of `text`: it is a terminal if and only if the two are the
    /// same.
    pub fn new(text: &str, lower: &str) -> (item: AlphabetItem)
        ensures
            item@ == (ItemView { text: text@, terminal: lower@ == text@ }),
    {
        AlphabetItem { text: String::from_str(text), terminal: same_text(lower, text) }
    }
}

/// The words of the right side `P`.
proof fn lemma_words_p()
    ensures
        words("P"@) == seq!["P"@],
{
    reveal_strlit("P");
    lemma_one_word("P"@);
}

/// The words of the right side `inicio V A`.
proof fn lemma_words_inicio_v_a()
    ensures
        words("inicio V A"@) == seq!["inicio"@, "V"@, "A"@],
{
    reveal_strlit("inicio V A");
    reveal_strlit("inicio");
    reveal_strlit("V");
    reveal_strlit("A");
    lemma_three_words("inicio"@, "V"@, "A"@);
    assert("inicio V A"@ =~= "inicio"@ + seq![' '] + "V"@ + seq![' '] + "A"@);
}

/// The words of the right side `varinicio LV`.
proof fn lemma_words_varinicio_lv()
    ensures
        words("varinicio LV"@) == seq!["varinicio"@, "LV"@],
{
    reveal_strlit("varinicio LV");
    reveal_strlit("varinicio");
    reveal_strlit("LV");
    lemma_two_words("varinicio"@, "LV"@);
    assert("varinicio LV"@ =~= "varinicio"@ + seq![' '] + "LV"@);
}

/// The words of the right side `D LV`.
proof fn lemma_words_d_lv()
    ensures
        words("D LV"@) == seq!["D"@, "LV"@],
{
    reveal_strlit("D LV");
    reveal_strlit("D");
    reveal_strlit("LV");
    lemma_two_words("D"@, "LV"@);
    assert("D LV"@ =~= "D"@ + seq![' '] + "LV"@);
}

/// The words of the right side `varfim pt_v`.
proof fn lemma_words_varfim_pt_v()
    ensures
        words("varfim pt_v"@) == seq!["varfim"@, "pt_v"@],
{
    reveal_strlit("varfim pt_v");
    reveal_strlit("varfim");
    reveal_strlit("pt_v");
    lemma_two_words("varfim"@, "pt_v"@);
    assert("varfim pt_v"@ =~= "varfim"@ + seq![' '] + "pt_v"@);
}

/// The words of the right side `TIPO L pt_v`.
proof fn lemma_words_tipo_l_pt_v()
    ensures
        words("TIPO L pt_v"@) == seq!["TIPO"@, "L"@, "pt_v"@],
{
    reveal_strlit("TIPO L pt_v");
    reveal_strlit("TIPO");
    reveal_strlit("L");
    reveal_strlit("pt_v");
    lemma_three_words("TIPO"@, "L"@, "pt_v"@);
    assert("TIPO L pt_v"@ =~= "TIPO"@ + seq![' '] + "L"@ + seq![' '] + "pt_v"@);
}

/// The words of the right side `id`.
proof fn lemma_words_id()
    ensures
        words("id"@) == seq!["id"@],
{
    reveal_strlit("id");
    lemma_one_word("id"@);
}

/// The words of the right side `inteiro`.
proof fn lemma_words_inteiro()
    ensures
        words("inteiro"@) == seq!["inteiro"@],
{
    reveal_strlit("inteiro");
    lemma_one_word("inteiro"@);
}

/// The words of the right side `real`.
proof fn lemma_words_real()
    ensures
        words("real"@) == seq!["real"@],
{
    reveal_strlit("real");
    lemma_one_word("real"@);
}

/// The words of the right side `literal`.
proof fn lemma_words_literal()
    ensures
        words("literal"@) == seq!["literal"@],
{
    reveal_strlit("literal");
    lemma_one_word("literal"@);
}

/// The words of the right side `ES A`.
proof fn lemma_words_es_a()
    ensures
        words("ES A"@) == seq!["ES"@, "A"@],
{
    reveal_strlit("ES A");
    reveal_strlit("ES");
    reveal_strlit("A");
    lemma_two_words("ES"@, "A"@);
    assert("ES A"@ =~= "ES"@ + seq![' '] + "A"@);
}

/// The words of the right side `leia id pt_v`.
proof fn lemma_words_leia_id_pt_v()
    ensures
        words("leia id pt_v"@) == seq!["leia"@, "id"@, "pt_v"@],
{
    reveal_strlit("leia id pt_v");
    reveal_strlit("leia");
    reveal_strlit("id");
    reveal_strlit("pt_v");
    lemma_three_words("leia"@, "id"@, "pt_v"@);
    assert("leia id pt_v"@ =~= "leia"@ + seq![' '] + "id"@ + seq![' '] + "pt_v"@);
}

/// The words of the right side `escreva ARG pt_v`.
proof fn lemma_words_escreva_arg_pt_v()
    ensures
        words("escreva ARG pt_v"@) == seq!["escreva"@, "ARG"@, "pt_v"@],
{
    reveal_strlit("escreva ARG pt_v");
    reveal_strlit("escreva");
    reveal_strlit("ARG");
    reveal_strlit("pt_v");
    lemma_three_words("escreva"@, "ARG"@, "pt_v"@);
    assert("escreva ARG pt_v"@ =~= "escreva"@ + seq![' '] + "ARG"@ + seq![' '] + "pt_v"@);
}

/// The words of the right side `lit`.
proof fn lemma_words_lit()
    ensures
        words("lit"@) == seq!["lit"@],
{
    reveal_strlit("lit");
    lemma_one_word("lit"@);
}

/// The words of the right side `num`.
proof fn lemma_words_num()
    ensures
        words("num"@) == seq!["num"@],
{
    reveal_strlit("num");
    lemma_one_word("num"@);
}

/// The words of the right side `CMD A`.
proof fn lemma_words_cmd_a()
    ensures
        words("CMD A"@) == seq!["CMD"@, "A"@],
{
    reveal_strlit("CMD A");
    reveal_strlit("CMD");
    reveal_strlit("A");
    lemma_two_words("CMD"@, "A"@);
    assert("CMD A"@ =~= "CMD"@ + seq![' '] + "A"@);
}

/// The words of the right side `id rcb LD pt_v`.
proof fn lemma_words_id_rcb_ld_pt_v()
    ensures
        words("id rcb LD pt_v"@) == seq!["id"@, "rcb"@, "LD"@, "pt_v"@],
{
    reveal_strlit("id rcb LD pt_v");
    reveal_strlit("id");
    reveal_strlit("rcb");
    reveal_strlit("LD");
    reveal_strlit("pt_v");
    lemma_four_words("id"@, "rcb"@, "LD"@, "pt_v"@);
    assert("id rcb LD pt_v"@ =~= "id"@ + seq![' '] + "rcb"@ + seq![' '] + "LD"@ + seq![' '] + "pt_v"@);
}

/// The words of the right side `OPRD opm OPRD`.
proof fn lemma_words_oprd_opm_oprd()
    ensures
        words("OPRD opm OPRD"@) == seq!["OPRD"@, "opm"@, "OPRD"@],
{
    reveal_strlit("OPRD opm OPRD");
    reveal_strlit("OPRD");
    reveal_strlit("opm");
    lemma_three_words("OPRD"@, "opm"@, "OPRD"@);
    assert("OPRD opm OPRD"@ =~= "OPRD"@ + seq![' '] + "opm"@ + seq![' '] + "OPRD"@);
}

/// The words of the right side `OPRD`.
proof fn lemma_words_oprd()
    ensures
        words("OPRD"@) == seq!["OPRD"@],
{
    reveal_strlit("OPRD");
    lemma_one_word("OPRD"@);
}

/// The words of the right side `COND A`.
proof fn lemma_words_cond_a()
    ensures
        words("COND A"@) == seq!["COND"@, "A"@],
{
    reveal_strlit("COND A");
    reveal_strlit("COND");
    reveal_strlit("A");
    lemma_two_words("COND"@, "A"@);
    assert("COND A"@ =~= "COND"@ + seq![' '] + "A"@);
}

/// The words of the right side `CAB CP`.
proof fn lemma_words_cab_cp()
    ensures
        words("CAB CP"@) == seq!["CAB"@, "CP"@],
{
    reveal_strlit("CAB CP");
    reveal_strlit("CAB");
    reveal_strlit("CP");
    lemma_two_words("CAB"@, "CP"@);
    assert("CAB CP"@ =~= "CAB"@ + seq![' '] + "CP"@);
}

/// The words of the right side `se ab_p EXP_R fc_p entao`.
proof fn lemma_words_se_ab_p_exp_r_fc_p_entao()
    ensures
        words("se ab_p EXP_R fc_p entao"@) == seq!["se"@, "ab_p"@, "EXP_R"@, "fc_p"@, "entao"@],
{
    reveal_strlit("se ab_p EXP_R fc_p entao");
    reveal_strlit("se");
    reveal_strlit("ab_p");
    reveal_strlit("EXP_R");
    reveal_strlit("fc_p");
    reveal_strlit("entao");
    lemma_five_words("se"@, "ab_p"@, "EXP_R"@, "fc_p"@, "entao"@);
    assert("se ab_p EXP_R fc_p entao"@ =~= "se"@ + seq![' '] + "ab_p"@ + seq![' '] + "EXP_R"@ + seq![' '] + "fc_p"@ + seq![' '] + "entao"@);
}

/// The words of the right side `OPRD opr OPRD`.
proof fn lemma_words_oprd_opr_oprd()
    ensures
        words("OPRD opr OPRD"@) == seq!["OPRD"@, "opr"@, "OPRD"@],
{
    reveal_strlit("OPRD opr OPRD");
    reveal_strlit("OPRD");
    reveal_strlit("opr");
    lemma_three_words("OPRD"@, "opr"@, "OPRD"@);
    assert("OPRD opr OPRD"@ =~= "OPRD"@ + seq![' '] + "opr"@ + seq![' '] + "OPRD"@);
}

/// The words of the right side `ES CP`.
proof fn lemma_words_es_cp()
    ensures
        words("ES CP"@) == seq!["ES"@, "CP"@],
{
    reveal_strlit("ES CP");
    reveal_strlit("ES");
    reveal_strlit("CP");
    lemma_two_words("ES"@, "CP"@);
    assert("ES CP"@ =~= "ES"@ + seq![' '] + "CP"@);
}

/// The words of the right side `CMD CP`.
proof fn lemma_words_cmd_cp()
    ensures
        words("CMD CP"@) == seq!["CMD"@, "CP"@],
{
    reveal_strlit("CMD CP");
    reveal_strlit("CMD");
    reveal_strlit("CP");
    lemma_two_words("CMD"@, "CP"@);
    assert("CMD CP"@ =~= "CMD"@ + seq![' '] + "CP"@);
}

/// The words of the right side `COND CP`.
proof fn lemma_words_cond_cp()
    ensures
        words("COND CP"@) == seq!["COND"@, "CP"@],
{
    reveal_strlit("COND CP");
    reveal_strlit("COND");
    reveal_strlit("CP");
    lemma_two_words("COND"@, "CP"@);
    assert("COND CP"@ =~= "COND"@ + seq![' '] + "CP"@);
}

/// The words of the right side `fimse`.
proof fn lemma_words_fimse()
    ensures
        words("fimse"@) == seq!["fimse"@],
{
    reveal_strlit("fimse");
    lemma_one_word("fimse"@);
}

/// The words of the right side `R A`.
proof fn lemma_words_r_a()
    ensures
        words("R A"@) == seq!["R"@, "A"@],
{
    reveal_strlit("R A");
    reveal_strlit("R");
    reveal_strlit("A");
    lemma_two_words("R"@, "A"@);
    assert("R A"@ =~= "R"@ + seq![' '] + "A"@);
}

/// The words of the right side `CABR CPR`.
proof fn lemma_words_cabr_cpr()
    ensures
        words("CABR CPR"@) == seq!["CABR"@, "CPR"@],
{
    reveal_strlit("CABR CPR");
    reveal_strlit("CABR");
    reveal_strlit("CPR");
    lemma_two_words("CABR"@, "CPR"@);
    assert("CABR CPR"@ =~= "CABR"@ + seq![' '] + "CPR"@);
}

/// The words of the right side `repita ab_p EXP_R fc_p`.
proof fn lemma_words_repita_ab_p_exp_r_fc_p()
    ensures
        words("repita ab_p EXP_R fc_p"@) == seq!["repita"@, "ab_p"@, "EXP_R"@, "fc_p"@],
{
    reveal_strlit("repita ab_p EXP_R fc_p");
    reveal_strlit("repita");
    reveal_strlit("ab_p");
    reveal_strlit("EXP_R");
    reveal_strlit("fc_p");
    lemma_four_words("repita"@, "ab_p"@, "EXP_R"@, "fc_p"@);
    assert("repita ab_p EXP_R fc_p"@ =~= "repita"@ + seq![' '] + "ab_p"@ + seq![' '] + "EXP_R"@ + seq![' '] + "fc_p"@);
}

/// The words of the right side `ES CPR`.
proof fn lemma_words_es_cpr()
    ensures
        words("ES CPR"@) == seq!["ES"@, "CPR"@],
{
    reveal_strlit("ES CPR");
    reveal_strlit("ES");
    reveal_strlit("CPR");
    lemma_two_words("ES"@, "CPR"@);
    assert("ES CPR"@ =~= "ES"@ + seq![' '] + "CPR"@);
}

/// The words of the right side `CMD CPR`.
proof fn lemma_words_cmd_cpr()
    ensures
        words("CMD CPR"@) == seq!["CMD"@, "CPR"@],
{
    reveal_strlit("CMD CPR");
    reveal_strlit("CMD");
    reveal_strlit("CPR");
    lemma_two_words("CMD"@, "CPR"@);
    assert("CMD CPR"@ =~= "CMD"@ + seq![' '] + "CPR"@);
}

/// The words of the right side `COND CPR`.
proof fn lemma_words_cond_cpr()
    ensures
        words("COND CPR"@) == seq!["COND"@, "CPR"@],
{
    reveal_strlit("COND CPR");
    reveal_strlit("COND");
    reveal_strlit("CPR");
    lemma_two_words("COND"@, "CPR"@);
    assert("COND CPR"@ =~= "COND"@ + seq![' '] + "CPR"@);
}

/// The words of the right side `fimrepita`.
proof fn lemma_words_fimrepita()
    ensures
        words("fimrepita"@) == seq!["fimrepita"@],
{
    reveal_strlit("fimrepita");
    lemma_one_word("fimrepita"@);
}

/// The words of the right side `fim`.
proof fn lemma_words_fim()
    ensures
        words("fim"@) == seq!["fim"@],
{
    reveal_strlit("fim");
    lemma_one_word("fim"@);
}

impl Grammar {
    /// The grammar of the language.
    pub fn new() -> (grammar: Grammar)
        ensures
            grammar@ == productions(),
    {
        let mut grammar = Grammar { rules: Vec::new() };
        assert(grammar@ =~= Seq::empty());
        grammar.init_rules();
        grammar
    }

    /// The rule of the given number, counted from one.
    pub fn get_rule(&self, index: usize) -> (rule: &GrammarRule)
        requires
            1 <= index <= self@.len(),
        ensures
            rule@ == self@[index - 1],
    {
        &self.rules[index - 1]
    }

    /// The number of rules.
    pub fn len(&self) -> (n: usize)
        ensures
            n == self@.len(),
    {
        self.rules.len()
    }

    /// Appends the rules of the language, in order.
    pub fn init_rules(&mut self)
        ensures
            final(self)@ == extended(old(self)@),
    {
        proof {
            lemma_words_p();
        }
        self.add_grammar_rule("P'", "P");
        proof {
            lemma_words_inicio_v_a();
        }
        self.add_grammar_rule("P", "inicio V A");
        proof {
            lemma_words_varinicio_lv();
        }
        self.add_grammar_rule("V", "varinicio LV");
        proof {
            lemma_words_d_lv();
        }
        self.add_grammar_rule("LV", "D LV");
        proof {
            lemma_words_varfim_pt_v();
        }
        self.add_grammar_rule("LV", "varfim pt_v");
        proof {
            lemma_words_tipo_l_pt_v();
        }
        self.add_grammar_rule("D", "TIPO L pt_v");
        proof {
            lemma_words_id();
        }
        self.add_grammar_rule("L", "id");
        proof {
            lemma_words_inteiro();
        }
        self.add_grammar_rule("TIPO", "inteiro");
        proof {
            lemma_words_real();
        }
        self.add_grammar_rule("TIPO", "real");
        proof {
            lemma_words_literal();
        }
        self.add_grammar_rule("TIPO", "literal");
        proof {
            lemma_words_es_a();
        }
        self.add_grammar_rule("A", "ES A");
        proof {
            lemma_words_leia_id_pt_v();
        }
        self.add_grammar_rule("ES", "leia id pt_v");
        proof {
            lemma_words_escreva_arg_pt_v();
        }
        self.add_grammar_rule("ES", "escreva ARG pt_v");
        proof {
            lemma_words_lit();
        }
        self.add_grammar_rule("ARG", "lit");
        proof {
            lemma_words_num();
        }
        self.add_grammar_rule("ARG", "num");
        proof {
            lemma_words_id();
        }
        self.add_grammar_rule("ARG", "id");
        proof {
            lemma_words_cmd_a();
        }
        self.add_grammar_rule("A", "CMD A");
        proof {
            lemma_words_id_rcb_ld_pt_v();
        }
        self.add_grammar_rule("CMD", "id rcb LD pt_v");
        proof {
            lemma_words_oprd_opm_oprd();
        }
        self.add_grammar_rule("LD", "OPRD opm OPRD");
        proof {
            lemma_words_oprd();
        }
        self.add_grammar_rule("LD", "OPRD");
        proof {
            lemma_words_id();
        }
        self.add_grammar_rule("OPRD", "id");
        proof {
            lemma_words_num();
        }
        self.add_grammar_rule("OPRD", "num");
        proof {
            lemma_words_cond_a();
        }
        self.add_grammar_rule("A", "COND A");
        proof {
            lemma_words_cab_cp();
        }
        self.add_grammar_rule("COND", "CAB CP");
        proof {
            lemma_words_se_ab_p_exp_r_fc_p_entao();
        }
        self.add_grammar_rule("CAB", "se ab_p EXP_R fc_p entao");
        proof {
            lemma_words_oprd_opr_oprd();
        }
        self.add_grammar_rule("EXP_R", "OPRD opr OPRD");
        proof {
            lemma_words_es_cp();
        }
        self.add_grammar_rule("CP", "ES CP");
        proof {
            lemma_words_cmd_cp();
        }
        self.add_grammar_rule("CP", "CMD CP");
        proof {
            lemma_words_cond_cp();
        }
        self.add_grammar_rule("CP", "COND CP");
        proof {
            lemma_words_fimse();
        }
        self.add_grammar_rule("CP", "fimse");
        proof {
            lemma_words_r_a();
        }
        self.add_grammar_rule("A", "R A");
        proof {
            lemma_words_cabr_cpr();
        }
        self.add_grammar_rule("R", "CABR CPR");
        proof {
            lemma_words_repita_ab_p_exp_r_fc_p();
        }
        self.add_grammar_rule("CABR", "repita ab_p EXP_R fc_p");
        proof {
            lemma_words_es_cpr();
        }
        self.add_grammar_rule("CPR", "ES CPR");
        proof {
            lemma_words_cmd_cpr();
        }
        self.add_grammar_rule("CPR", "CMD CPR");
        proof {
            lemma_words_cond_cpr();
        }
        self.add_grammar_rule("CPR", "COND CPR");
        proof {
            lemma_words_fimrepita();
        }
        self.add_grammar_rule("CPR", "fimrepita");
        proof {
            lemma_words_fim();
        }
        self.add_grammar_rule("A", "fim");
    }

    /// Appends the rule with `left_str` on its left side and the words of
    /// `right_str`, which blanks separate, as the symbols of its right
    /// side.
    pub fn add_grammar_rule(&mut self, left_str: &str, right_str: &str)
        ensures
            final(self)@ == old(self)@.push(production(left_str@, words(right_str@))),
    {
        let left = AlphabetItem { text: String::from_str(left_str), terminal: false };
        let chars = chars_of(right_str);
        let right = split_words(&chars);
        let mut items: Vec<AlphabetItem> = Vec::new();
        let mut i: usize = 0;
        while i < right.len()
            invariant
                i <= right@.len(),
                items@.len() == i,
                views(right@) == words(right_str@),
                forall|j: int| 0 <= j < i ==> (#[trigger] items@[j])@ == symbol(words(right_str@)[j]),
            decreases right@.len() - i,
        {
            assert(right@[i as int]@ == views(right@)[i as int]);
            let item = string_of(&right[i]);
            let lower = to_lowercase(item.as_str());
            items.push(AlphabetItem::new(item.as_str(), lower.as_str()));
            i += 1;
        }
        let rule = GrammarRule { left, right: items };
        assert(rule@.right =~= production(left_str@, words(right_str@)).right);
        self.rules.push(rule);
        assert(self@ =~= old(self)@.push(production(left_str@, words(right_str@))));
    }
}

/// The texts of the symbols, with one blank between each two.
pub open spec fn spaced(items: Seq<ItemView>) -> Seq<char>
    decreases items.len(),
{
    if items.len() == 0 {
        Seq::empty()
    } else if items.len() == 1 {
        items[0].text
    } else {
        spaced(items.drop_last()) + " "@ + items.last().text
    }
}

/// How a rule is written: its number, counted from one, its left side, an
/// arrow and its right side.
pub open spec fn written(index: nat, rule: RuleView) -> Seq<char> {
    decimal(index + 1) + ". "@ + rule.left.text + " -> "@ + spaced(rule.right)
}

impl Grammar {
    /// The rules as they are written, one line each.
    pub fn show(&self) -> (lines: Vec<String>)
        ensures
            texts(lines@) == Seq::new(self@.len(), |i: int| written(i as nat, self@[i])),
    {
        let mut lines: Vec<String> = Vec::new();
        let mut n: usize = 0;
        while n < self.rules.len()
            invariant
                n <= self.rules@.len(),
                lines@.len() == n,
                forall|i: int| 0 <= i < n ==> (#[trigger] lines@[i])@ == written(i as nat, self@[i]),
            decreases self.rules@.len() - n,
        {
            let rule = &self.rules[n];
            let mut line = String::new();
            push_decimal(&mut line, n as u128 + 1);
            line.append(". ");
            line.append(rule.left.text.as_str());
            line.append(" -> ");
            let ghost head = line@;
            let mut k: usize = 0;
            while k < rule.right.len()
                invariant
                    k <= rule.right@.len(),
                    line@ == head + spaced(rule@.right.take(k as int)),
                decreases rule.right@.len() - k,
            {
                proof {
                    assert(rule@.right.take(k + 1).drop_last() =~= rule@.right.take(k as int));
                    assert(rule@.right.take(k + 1).last() == rule.right@[k as int]@);
                }
                if k > 0 {
                    line.append(" ");
                }
                line.append(rule.right[k].text.as_str());
                proof {
                    if k == 0 {
                        assert(spaced(rule@.right.take(0)) =~= Seq::empty());
                        assert(line@ =~= head + spaced(rule@.right.take(1)));
                    } else {
                        assert(line@ =~= head + spaced(rule@.right.take(k + 1)));
                    }
                }
                k += 1;
            }
            proof {
                assert(rule@.right.take(rule.right@.len() as int) =~= rule@.right);
                assert(rule@ == self@[n as int]);
            }
            lines.push(line);
            n += 1;
        }
        assert(texts(lines@) =~= Seq::new(self@.len(), |i: int| written(i as nat, self@[i])));
        lines
    }
}

/// There are thirty-eight rules, and each has from one to five symbols on
/// its right side.
pub proof fn lemma_rule_shapes()
    ensures
        productions().len() == 38,
        forall|i: int| 0 <= i < 38 ==> 1 <= (#[trigger] productions()[i]).right.len() <= 5,
{
    let p = productions();
    assert(p.len() == 38);
    assert forall|i: int| 0 <= i < 38 implies 1 <= (#[trigger] p[i]).right.len() <= 5 by {
        if i < 10 {
            assert(1 <= p[i].right.len() <= 5);
        } else if i < 20 {
            assert(1 <= p[i].right.len() <= 5);
        } else if i < 30 {
            assert(1 <= p[i].right.len() <= 5);
        } else {
            assert(1 <= p[i].right.len() <= 5);
        }
    }
}

} // verus!
