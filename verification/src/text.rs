use vstd::prelude::*;
use vstd::string::*;

verus! {

/// `String::push` appends one character to the end of the string.
pub assume_specification[ String::push ](s: &mut String, c: char)
    ensures
        final(s)@ == old(s)@.push(c),
;

/// The digit character of a value below ten.
pub open spec fn digit_char(d: nat) -> char {
    (d + '0' as nat) as char
}

/// The decimal numeral of `n`, without leading zeros.
pub open spec fn decimal(n: nat) -> Seq<char>
    decreases n,
{
    if n < 10 {
        seq![digit_char(n)]
    } else {
        decimal(n / 10).push(digit_char(n % 10))
    }
}

/// The digit character of a value below ten.
pub fn digit_of(d: u128) -> (c: char)
    requires
        d < 10,
    ensures
        c == digit_char(d as nat),
{
    (d as u8 + 48) as char
}

/// Appends the decimal numeral of `n` to `s`.
pub fn push_decimal(s: &mut String, n: u128)
    ensures
        final(s)@ == old(s)@ + decimal(n as nat),
    decreases n,
{
    if n >= 10 {
        push_decimal(s, n / 10);
    }
    s.push(digit_of(n % 10));
    proof {
        if n < 10 {
            assert(old(s)@.push(digit_char(n as nat)) =~= old(s)@ + decimal(n as nat));
        } else {
            assert((old(s)@ + decimal((n / 10) as nat)).push(digit_char((n % 10) as nat))
                =~= old(s)@ + decimal(n as nat));
        }
    }
}

/// Whether two strings hold the same characters.
pub fn same_text(a: &str, b: &str) -> (r: bool)
    ensures
        r == (a@ == b@),
{
    let x = String::from_str(a);
    let y = String::from_str(b);
    x == y
}

/// The characters of a string, in order.
pub fn chars_of(s: &str) -> (v: Vec<char>)
    ensures
        v@ == s@,
{
    let mut v: Vec<char> = Vec::new();
    for c in it: s.chars()
        invariant
            it.seq() == s@,
            v@ == s@.take(it.index() as int),
    {
        v.push(c);
        assert(s@.take(it.index() + 1) =~= s@.take(it.index() as int).push(c));
    }
    assert(s@.take(s@.len() as int) =~= s@);
    v
}

/// The string made of the characters given, in order.
pub fn string_of(v: &Vec<char>) -> (s: String)
    ensures
        s@ == v@,
{
    let mut s = String::new();
    let mut i: usize = 0;
    while i < v.len()
        invariant
            i <= v.len(),
            s@ == v@.take(i as int),
        decreases v.len() - i,
    {
        s.push(v[i]);
        assert(v@.take(i + 1) =~= v@.take(i as int).push(v@[i as int]));
        i += 1;
    }
    assert(v@.take(v@.len() as int) =~= v@);
    s
}

/// The pieces of `s` between the occurrences of `sep`, in order. There is
/// always one piece more than there are separators, so pieces may be empty.
pub open spec fn pieces(s: Seq<char>, sep: char) -> Seq<Seq<char>>
    decreases s.len(),
{
    if s.len() == 0 {
        seq![Seq::empty()]
    } else {
        let before = pieces(s.drop_last(), sep);
        if s.last() == sep {
            before.push(Seq::empty())
        } else {
            before.drop_last().push(before.last().push(s.last()))
        }
    }
}

/// The pieces one after another, with `sep` between each two.
pub open spec fn glued(parts: Seq<Seq<char>>, sep: char) -> Seq<char>
    decreases parts.len(),
{
    if parts.len() == 0 {
        Seq::empty()
    } else if parts.len() == 1 {
        parts[0]
    } else {
        glued(parts.drop_last(), sep).push(sep) + parts.last()
    }
}

/// What is glued with one piece more.
pub proof fn lemma_glued_push(parts: Seq<Seq<char>>, piece: Seq<char>, sep: char)
    ensures
        glued(parts.push(piece), sep) == (if parts.len() == 0 {
            piece
        } else {
            glued(parts, sep).push(sep) + piece
        }),
{
    assert(parts.push(piece).drop_last() =~= parts);
}

/// The pieces are what is between the separators: none of them holds a
/// separator, and with separators put between them they make up the
/// sequence again.
pub proof fn lemma_pieces(s: Seq<char>, sep: char)
    ensures
        pieces(s, sep).len() >= 1,
        glued(pieces(s, sep), sep) == s,
        forall|i: int, j: int|
            0 <= i < pieces(s, sep).len() && 0 <= j < pieces(s, sep)[i].len() ==> pieces(s, sep)[i][j]
                != sep,
    decreases s.len(),
{
    if s.len() == 0 {
        assert(glued(pieces(s, sep), sep) =~= s);
    } else {
        let before = pieces(s.drop_last(), sep);
        lemma_pieces(s.drop_last(), sep);
        let parts = pieces(s, sep);
        if s.last() == sep {
            assert(parts.drop_last() =~= before);
            assert(glued(parts, sep) =~= s.drop_last().push(sep) + Seq::<char>::empty());
            assert(s.drop_last().push(sep) =~= s);
        } else {
            let longer = before.last().push(s.last());
            assert(parts.last() == longer);
            assert(parts.drop_last() =~= before.drop_last());
            if before.len() == 1 {
                assert(before[0] == s.drop_last());
                assert(longer =~= s);
            } else {
                assert(glued(before, sep) == glued(before.drop_last(), sep).push(sep) + before.last());
                assert(glued(parts, sep) =~= (glued(before.drop_last(), sep).push(sep) + before.last()).push(
                    s.last(),
                ));
                assert(s.drop_last().push(s.last()) =~= s);
            }
            assert forall|i: int, j: int|
                0 <= i < parts.len() && 0 <= j < parts[i].len() implies parts[i][j] != sep by {
                if i < parts.len() - 1 {
                    assert(parts[i] == before[i]);
                } else if j < before.last().len() {
                    assert(parts[i][j] == before.last()[j]);
                }
            }
        }
    }
}

/// The views of the vectors, in order.
pub open spec fn views(v: Seq<Vec<char>>) -> Seq<Seq<char>> {
    Seq::new(v.len(), |i: int| v[i]@)
}

/// Splits `chars` at every occurrence of `sep`.
pub fn split(chars: &Vec<char>, sep: char) -> (parts: Vec<Vec<char>>)
    ensures
        views(parts@) == pieces(chars@, sep),
{
    let mut parts: Vec<Vec<char>> = Vec::new();
    let mut current: Vec<char> = Vec::new();
    let mut i: usize = 0;
    while i < chars.len()
        invariant
            i <= chars@.len(),
            views(parts@).push(current@) == pieces(chars@.take(i as int), sep),
        decreases chars@.len() - i,
    {
        let c = chars[i];
        proof {
            assert(chars@.take(i + 1).drop_last() =~= chars@.take(i as int));
            assert(views(parts@).push(current@).drop_last() =~= views(parts@));
        }
        if c == sep {
            let ghost before = views(parts@);
            let ghost cur = current@;
            parts.push(current);
            current = Vec::new();
            proof {
                assert(views(parts@) =~= before.push(cur));
            }
        } else {
            current.push(c);
        }
        i += 1;
    }
    proof {
        assert(chars@.take(chars@.len() as int) =~= chars@);
    }
    let ghost before = views(parts@);
    let ghost cur = current@;
    parts.push(current);
    proof {
        assert(views(parts@) =~= before.push(cur));
    }
    parts
}

/// The value of a digit character.
pub open spec fn digit_value(c: char) -> nat {
    (c as nat - '0' as nat) as nat
}

/// Whether every character of `s` is a decimal digit.
pub open spec fn all_digits(s: Seq<char>) -> bool {
    forall|i: int| 0 <= i < s.len() ==> '0' <= #[trigger] s[i] <= '9'
}

/// The number that the digits of `s` write in base ten.
pub open spec fn digits_value(s: Seq<char>) -> nat
    decreases s.len(),
{
    if s.len() == 0 {
        0
    } else {
        digits_value(s.drop_last()) * 10 + digit_value(s.last())
    }
}

/// What is left of `s` without one leading plus sign.
pub open spec fn unsigned_part(s: Seq<char>) -> Seq<char> {
    if s.len() > 0 && s[0] == '+' {
        s.skip(1)
    } else {
        s
    }
}

/// The number that `s` writes: an optional plus sign, then one or more
/// decimal digits whose value is at most 255. Anything else writes no
/// number.
pub open spec fn small_number(s: Seq<char>) -> Option<u8> {
    let digits = unsigned_part(s);
    if digits.len() > 0 && all_digits(digits) && digits_value(digits) <= 255 {
        Some(digits_value(digits) as u8)
    } else {
        None
    }
}

/// The number that `chars` writes, if it writes one.
pub fn parse_small_number(chars: &Vec<char>) -> (r: Option<u8>)
    ensures
        r == small_number(chars@),
{
    let n = chars.len();
    let start: usize = if n > 0 && chars[0] == '+' { 1 } else { 0 };
    let ghost digits = unsigned_part(chars@);
    assert(digits =~= chars@.skip(start as int));
    if start == n {
        return None;
    }
    let mut value: u32 = 0;
    let mut over = false;
    let mut i: usize = start;
    while i < n
        invariant
            start <= i <= n,
            n == chars@.len(),
            digits == chars@.skip(start as int),
            digits == unsigned_part(chars@),
            all_digits(digits.take(i - start)),
            !over ==> value == digits_value(digits.take(i - start)) && value <= 255,
            over ==> digits_value(digits.take(i - start)) > 255,
        decreases n - i,
    {
        let c = chars[i];
        if !('0' <= c && c <= '9') {
            proof {
                assert(digits[i - start] == c);
            }
            return None;
        }
        proof {
            let next = digits.take(i - start + 1);
            assert(next.drop_last() =~= digits.take(i - start));
            assert(next.last() == c);
            assert forall|j: int| 0 <= j < next.len() implies '0' <= #[trigger] next[j] <= '9' by {
                if j < i - start {
                    assert(digits.take(i - start)[j] == next[j]);
                }
            }
        }
        if !over {
            let d: u32 = (c as u32) - ('0' as u32);
            value = value * 10 + d;
            if value > 255 {
                over = true;
            }
        }
        i += 1;
    }
    proof {
        assert(digits.take(n - start) =~= digits);
    }
    if over {
        None
    } else {
        Some(value as u8)
    }
}


/// The texts of the strings, in order.
pub open spec fn texts(v: Seq<String>) -> Seq<Seq<char>> {
    Seq::new(v.len(), |i: int| v[i]@)
}

/// The two lines of the report for the diagnostic of the given index: its
/// number, counted from one, and the diagnostic itself, indented.
pub open spec fn report_entry(index: nat, message: Seq<char>) -> Seq<Seq<char>> {
    seq!["# ERRO "@ + decimal(index + 1), "    "@ + message]
}

/// The lines of the report for the first `n` diagnostics.
pub open spec fn report_entries(messages: Seq<Seq<char>>, n: nat) -> Seq<Seq<char>>
    decreases n,
{
    if n == 0 {
        Seq::empty()
    } else {
        report_entries(messages, (n - 1) as nat) + report_entry((n - 1) as nat, messages[n - 1])
    }
}

/// The report of a list of diagnostics. Where there are none the report
/// is empty. Else its first line counts them: `one` for a single one, and
/// for more the number between `many_before` and `many_after`. After it
/// come two lines for each diagnostic.
pub open spec fn report(
    one: Seq<char>,
    many_before: Seq<char>,
    many_after: Seq<char>,
    messages: Seq<Seq<char>>,
) -> Seq<Seq<char>> {
    if messages.len() == 0 {
        Seq::empty()
    } else if messages.len() == 1 {
        seq![one] + report_entries(messages, 1)
    } else {
        seq![many_before + decimal(messages.len()) + many_after] + report_entries(
            messages,
            messages.len(),
        )
    }
}

/// The report of the diagnostics given.
pub fn report_lines(one: &str, many_before: &str, many_after: &str, messages: &Vec<String>) -> (lines:
    Vec<String>)
    ensures
        texts(lines@) == report(one@, many_before@, many_after@, texts(messages@)),
{
    let n = messages.len();
    let mut lines: Vec<String> = Vec::new();
    if n == 0 {
        assert(texts(lines@) =~= Seq::empty());
        return lines;
    }
    if n == 1 {
        lines.push(String::from_str(one));
    } else {
        let mut head = String::from_str(many_before);
        push_decimal(&mut head, n as u128);
        head.append(many_after);
        lines.push(head);
    }
    let ghost head = texts(lines@);
    assert(head =~= seq![lines@[0]@]);
    let mut i: usize = 0;
    while i < n
        invariant
            i <= n,
            n == messages@.len(),
            texts(lines@) == head + report_entries(texts(messages@), i as nat),
        decreases n - i,
    {
        let ghost before = texts(lines@);
        let mut number = String::from_str("# ERRO ");
        push_decimal(&mut number, i as u128 + 1);
        let mut entry = String::from_str("    ");
        entry.append(messages[i].as_str());
        lines.push(number);
        lines.push(entry);
        proof {
            assert(texts(lines@) =~= before + report_entry(i as nat, texts(messages@)[i as int]));
        }
        i += 1;
    }
    lines
}

/// Whether `c` is a blank: one of the characters that have the property
/// of white space.
pub open spec fn is_space(c: char) -> bool {
    ('\u{9}' <= c <= '\u{d}') || c == ' ' || c == '\u{85}' || c == '\u{a0}' || c == '\u{1680}' || (
    '\u{2000}' <= c <= '\u{200a}') || c == '\u{2028}' || c == '\u{2029}' || c == '\u{202f}' || c
        == '\u{205f}' || c == '\u{3000}'
}

/// Whether `c` is a blank.
pub fn is_space_char(c: char) -> (b: bool)
    ensures
        b == is_space(c),
{
    ('\u{9}' <= c && c <= '\u{d}') || c == ' ' || c == '\u{85}' || c == '\u{a0}' || c == '\u{1680}'
        || ('\u{2000}' <= c && c <= '\u{200a}') || c == '\u{2028}' || c == '\u{2029}' || c
        == '\u{202f}' || c == '\u{205f}' || c == '\u{3000}'
}

/// What has been gathered of the words of `s` at its end: the words that
/// a blank has ended, and the word under way, which is empty after a
/// blank.
pub open spec fn gathered(s: Seq<char>) -> (Seq<Seq<char>>, Seq<char>)
    decreases s.len(),
{
    if s.len() == 0 {
        (Seq::empty(), Seq::empty())
    } else {
        let (ended, current) = gathered(s.drop_last());
        if !is_space(s.last()) {
            (ended, current.push(s.last()))
        } else if current.len() > 0 {
            (ended.push(current), Seq::empty())
        } else {
            (ended, current)
        }
    }
}

/// The words of `s`: the longest runs of characters that are no blanks,
/// in order.
pub open spec fn words(s: Seq<char>) -> Seq<Seq<char>> {
    let (ended, current) = gathered(s);
    if current.len() > 0 {
        ended.push(current)
    } else {
        ended
    }
}

/// Whether `w` can be a word: it is not empty and holds no blank.
pub open spec fn is_word(w: Seq<char>) -> bool {
    w.len() > 0 && forall|i: int| 0 <= i < w.len() ==> !is_space(#[trigger] w[i])
}

/// Characters that are no blanks go on with the word under way.
pub proof fn lemma_gathered_word(s: Seq<char>, w: Seq<char>)
    requires
        forall|i: int| 0 <= i < w.len() ==> !is_space(#[trigger] w[i]),
    ensures
        gathered(s + w) == (gathered(s).0, gathered(s).1 + w),
    decreases w.len(),
{
    if w.len() == 0 {
        assert(s + w =~= s);
        assert(gathered(s).1 + w =~= gathered(s).1);
    } else {
        lemma_gathered_word(s, w.drop_last());
        assert((s + w).drop_last() =~= s + w.drop_last());
        assert((s + w).last() == w.last());
        assert((gathered(s).1 + w.drop_last()).push(w.last()) =~= gathered(s).1 + w);
    }
}

/// Words that are written with one blank between each two are the words
/// of what is written.
pub proof fn lemma_words_glued(parts: Seq<Seq<char>>)
    requires
        forall|i: int| 0 <= i < parts.len() ==> is_word(#[trigger] parts[i]),
    ensures
        words(glued(parts, ' ')) == parts,
        parts.len() > 0 ==> gathered(glued(parts, ' ')) == (parts.drop_last(), parts.last()),
    decreases parts.len(),
{
    if parts.len() == 0 {
        assert(words(glued(parts, ' ')) =~= parts);
    } else if parts.len() == 1 {
        lemma_gathered_word(Seq::empty(), parts[0]);
        assert(Seq::<char>::empty() + parts[0] =~= parts[0]);
        assert(parts.drop_last() =~= Seq::<Seq<char>>::empty());
        assert(parts.drop_last().push(parts.last()) =~= parts);
    } else {
        let before = parts.drop_last();
        lemma_words_glued(before);
        let written = glued(before, ' ');
        assert(written.push(' ').drop_last() =~= written);
        assert(before.drop_last().push(before.last()) =~= before);
        assert(gathered(written.push(' ')) == (before, Seq::<char>::empty()));
        lemma_gathered_word(written.push(' '), parts.last());
        assert(Seq::<char>::empty() + parts.last() =~= parts.last());
        assert(before.push(parts.last()) =~= parts);
    }
}

/// A word alone is its only word.
pub proof fn lemma_one_word(a: Seq<char>)
    requires
        is_word(a),
    ensures
        words(a) == seq![a],
{
    lemma_glued_push(Seq::<Seq<char>>::empty(), a, ' ');
    let parts = Seq::<Seq<char>>::empty().push(a);
    assert(glued(parts, ' ') =~= a);
    lemma_words_glued(parts);
    assert(parts =~= seq![a]);
}

/// Two words with one blank between each two are the words of what they
/// write.
pub proof fn lemma_two_words(a: Seq<char>, b: Seq<char>)
    requires
        is_word(a),
        is_word(b),
    ensures
        words(a + seq![' '] + b) == seq![a, b],
{
    lemma_glued_push(Seq::<Seq<char>>::empty(), a, ' ');
    lemma_glued_push(Seq::<Seq<char>>::empty().push(a), b, ' ');
    let parts = Seq::<Seq<char>>::empty().push(a).push(b);
    assert(glued(parts, ' ') =~= a + seq![' '] + b);
    lemma_words_glued(parts);
    assert(parts =~= seq![a, b]);
}

/// Three words with one blank between each two are the words of what they
/// write.
pub proof fn lemma_three_words(a: Seq<char>, b: Seq<char>, c: Seq<char>)
    requires
        is_word(a),
        is_word(b),
        is_word(c),
    ensures
        words(a + seq![' '] + b + seq![' '] + c) == seq![a, b, c],
{
    lemma_glued_push(Seq::<Seq<char>>::empty(), a, ' ');
    lemma_glued_push(Seq::<Seq<char>>::empty().push(a), b, ' ');
    lemma_glued_push(Seq::<Seq<char>>::empty().push(a).push(b), c, ' ');
    let parts = Seq::<Seq<char>>::empty().push(a).push(b).push(c);
    assert(glued(parts, ' ') =~= a + seq![' '] + b + seq![' '] + c);
    lemma_words_glued(parts);
    assert(parts =~= seq![a, b, c]);
}

/// Four words with one blank between each two are the words of what they
/// write.
pub proof fn lemma_four_words(a: Seq<char>, b: Seq<char>, c: Seq<char>, d: Seq<char>)
    requires
        is_word(a),
        is_word(b),
        is_word(c),
        is_word(d),
    ensures
        words(a + seq![' '] + b + seq![' '] + c + seq![' '] + d) == seq![a, b, c, d],
{
    lemma_glued_push(Seq::<Seq<char>>::empty(), a, ' ');
    lemma_glued_push(Seq::<Seq<char>>::empty().push(a), b, ' ');
    lemma_glued_push(Seq::<Seq<char>>::empty().push(a).push(b), c, ' ');
    lemma_glued_push(Seq::<Seq<char>>::empty().push(a).push(b).push(c), d, ' ');
    let parts = Seq::<Seq<char>>::empty().push(a).push(b).push(c).push(d);
    assert(glued(parts, ' ') =~= a + seq![' '] + b + seq![' '] + c + seq![' '] + d);
    lemma_words_glued(parts);
    assert(parts =~= seq![a, b, c, d]);
}

/// Five words with one blank between each two are the words of what they
/// write.
pub proof fn lemma_five_words(a: Seq<char>, b: Seq<char>, c: Seq<char>, d: Seq<char>, e: Seq<char>)
    requires
        is_word(a),
        is_word(b),
        is_word(c),
        is_word(d),
        is_word(e),
    ensures
        words(a + seq![' '] + b + seq![' '] + c + seq![' '] + d + seq![' '] + e) == seq![a, b, c, d, e],
{
    lemma_glued_push(Seq::<Seq<char>>::empty(), a, ' ');
    lemma_glued_push(Seq::<Seq<char>>::empty().push(a), b, ' ');
    lemma_glued_push(Seq::<Seq<char>>::empty().push(a).push(b), c, ' ');
    lemma_glued_push(Seq::<Seq<char>>::empty().push(a).push(b).push(c), d, ' ');
    lemma_glued_push(Seq::<Seq<char>>::empty().push(a).push(b).push(c).push(d), e, ' ');
    let parts = Seq::<Seq<char>>::empty().push(a).push(b).push(c).push(d).push(e);
    assert(glued(parts, ' ') =~= a + seq![' '] + b + seq![' '] + c + seq![' '] + d + seq![' '] + e);
    lemma_words_glued(parts);
    assert(parts =~= seq![a, b, c, d, e]);
}

/// The words of `chars`.
pub fn split_words(chars: &Vec<char>) -> (parts: Vec<Vec<char>>)
    ensures
        views(parts@) == words(chars@),
{
    let mut parts: Vec<Vec<char>> = Vec::new();
    let mut current: Vec<char> = Vec::new();
    let mut i: usize = 0;
    assert(views(parts@) =~= Seq::empty());
    while i < chars.len()
        invariant
            i <= chars@.len(),
            (views(parts@), current@) == gathered(chars@.take(i as int)),
        decreases chars@.len() - i,
    {
        let c = chars[i];
        proof {
            assert(chars@.take(i + 1).drop_last() =~= chars@.take(i as int));
        }
        if !is_space_char(c) {
            current.push(c);
        } else if current.len() > 0 {
            let ghost before = views(parts@);
            let ghost word = current@;
            parts.push(current);
            current = Vec::new();
            assert(views(parts@) =~= before.push(word));
        }
        i += 1;
    }
    assert(chars@.take(chars@.len() as int) =~= chars@);
    if current.len() > 0 {
        let ghost before = views(parts@);
        let ghost word = current@;
        parts.push(current);
        assert(views(parts@) =~= before.push(word));
    }
    parts
}

} // verus!
