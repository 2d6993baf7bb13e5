use crate::text::{
    chars_of, decimal, parse_small_number, pieces, push_decimal, same_text, small_number, split, texts,
    views,
};
use vstd::prelude::*;
use vstd::string::*;

verus! {

/// An entry of the action table.
#[derive(Clone, Copy, PartialEq, Eq, Structural, Debug)]
pub enum SlrAction {
    /// Shift, and go to the state given.
    S(u8),
    /// Reduce by the rule of the number given.
    R(u8),
    /// Accept.
    Acc,
    /// A syntactic error, with the code of its recovery.
    E(u8),
}

/// The number of terminals, which is the number of columns of the action
/// table.
pub const TERMINALS: usize = 24;

/// The number of nonterminals, which is the number of columns of the goto
/// table.
pub const NONTERMINALS: usize = 19;

/// The number of states that a table can hold.
pub const STATES: usize = 256;

/// The column of a terminal in the action table. The end of the input is
/// written `$` in the header of the table and `EOF` in the class of a
/// token: both name the last column.
pub open spec fn terminal_index(name: Seq<char>) -> Option<int> {
    if name == "num"@ {
        Some(0)
    } else if name == "lit"@ {
        Some(1)
    } else if name == "id"@ {
        Some(2)
    } else if name == "opr"@ {
        Some(3)
    } else if name == "rcb"@ {
        Some(4)
    } else if name == "opm"@ {
        Some(5)
    } else if name == "ab_p"@ {
        Some(6)
    } else if name == "fc_p"@ {
        Some(7)
    } else if name == "pt_v"@ {
        Some(8)
    } else if name == "inicio"@ {
        Some(9)
    } else if name == "varinicio"@ {
        Some(10)
    } else if name == "varfim"@ {
        Some(11)
    } else if name == "escreva"@ {
        Some(12)
    } else if name == "leia"@ {
        Some(13)
    } else if name == "se"@ {
        Some(14)
    } else if name == "entao"@ {
        Some(15)
    } else if name == "fimse"@ {
        Some(16)
    } else if name == "repita"@ {
        Some(17)
    } else if name == "fimrepita"@ {
        Some(18)
    } else if name == "fim"@ {
        Some(19)
    } else if name == "inteiro"@ {
        Some(20)
    } else if name == "literal"@ {
        Some(21)
    } else if name == "real"@ {
        Some(22)
    } else if name == "$"@ || name == "EOF"@ {
        Some(23)
    } else {
        None
    }
}

/// The column of a nonterminal in the goto table.
pub open spec fn nonterminal_index(name: Seq<char>) -> Option<int> {
    if name == "P"@ {
        Some(0)
    } else if name == "V"@ {
        Some(1)
    } else if name == "LV"@ {
        Some(2)
    } else if name == "D"@ {
        Some(3)
    } else if name == "L"@ {
        Some(4)
    } else if name == "TIPO"@ {
        Some(5)
    } else if name == "A"@ {
        Some(6)
    } else if name == "ES"@ {
        Some(7)
    } else if name == "ARG"@ {
        Some(8)
    } else if name == "CMD"@ {
        Some(9)
    } else if name == "LD"@ {
        Some(10)
    } else if name == "OPRD"@ {
        Some(11)
    } else if name == "COND"@ {
        Some(12)
    } else if name == "CAB"@ {
        Some(13)
    } else if name == "EXP_R"@ {
        Some(14)
    } else if name == "CP"@ {
        Some(15)
    } else if name == "R"@ {
        Some(16)
    } else if name == "CABR"@ {
        Some(17)
    } else if name == "CPR"@ {
        Some(18)
    } else {
        None
    }
}

/// The column of the terminal `name` in the action table.
pub fn terminal_column(name: &str) -> (r: Option<usize>)
    ensures
        match r {
            Some(i) => terminal_index(name@) == Some(i as int) && i < TERMINALS,
            None => terminal_index(name@) is None,
        },
{
    if same_text(name, "num") {
        Some(0)
    } else if same_text(name, "lit") {
        Some(1)
    } else if same_text(name, "id") {
        Some(2)
    } else if same_text(name, "opr") {
        Some(3)
    } else if same_text(name, "rcb") {
        Some(4)
    } else if same_text(name, "opm") {
        Some(5)
    } else if same_text(name, "ab_p") {
        Some(6)
    } else if same_text(name, "fc_p") {
        Some(7)
    } else if same_text(name, "pt_v") {
        Some(8)
    } else if same_text(name, "inicio") {
        Some(9)
    } else if same_text(name, "varinicio") {
        Some(10)
    } else if same_text(name, "varfim") {
        Some(11)
    } else if same_text(name, "escreva") {
        Some(12)
    } else if same_text(name, "leia") {
        Some(13)
    } else if same_text(name, "se") {
        Some(14)
    } else if same_text(name, "entao") {
        Some(15)
    } else if same_text(name, "fimse") {
        Some(16)
    } else if same_text(name, "repita") {
        Some(17)
    } else if same_text(name, "fimrepita") {
        Some(18)
    } else if same_text(name, "fim") {
        Some(19)
    } else if same_text(name, "inteiro") {
        Some(20)
    } else if same_text(name, "literal") {
        Some(21)
    } else if same_text(name, "real") {
        Some(22)
    } else if same_text(name, "$") || same_text(name, "EOF") {
        Some(23)
    } else {
        None
    }
}

/// The column of the nonterminal `name` in the goto table.
pub fn nonterminal_column(name: &str) -> (r: Option<usize>)
    ensures
        match r {
            Some(i) => nonterminal_index(name@) == Some(i as int) && i < NONTERMINALS,
            None => nonterminal_index(name@) is None,
        },
{
    if same_text(name, "P") {
        Some(0)
    } else if same_text(name, "V") {
        Some(1)
    } else if same_text(name, "LV") {
        Some(2)
    } else if same_text(name, "D") {
        Some(3)
    } else if same_text(name, "L") {
        Some(4)
    } else if same_text(name, "TIPO") {
        Some(5)
    } else if same_text(name, "A") {
        Some(6)
    } else if same_text(name, "ES") {
        Some(7)
    } else if same_text(name, "ARG") {
        Some(8)
    } else if same_text(name, "CMD") {
        Some(9)
    } else if same_text(name, "LD") {
        Some(10)
    } else if same_text(name, "OPRD") {
        Some(11)
    } else if same_text(name, "COND") {
        Some(12)
    } else if same_text(name, "CAB") {
        Some(13)
    } else if same_text(name, "EXP_R") {
        Some(14)
    } else if same_text(name, "CP") {
        Some(15)
    } else if same_text(name, "R") {
        Some(16)
    } else if same_text(name, "CABR") {
        Some(17)
    } else if same_text(name, "CPR") {
        Some(18)
    } else {
        None
    }
}

/// The number that follows the letter of a cell; zero where none is
/// written there.
pub open spec fn cell_number(rest: Seq<char>) -> u8 {
    match small_number(rest) {
        Some(n) => n,
        None => 0,
    }
}

/// The action that a cell of the table writes: a letter that gives its
/// kind, in either case, and a number after it. A cell that starts with no
/// such letter, the empty cell among them, writes the error of code zero.
pub open spec fn action_of(cell: Seq<char>) -> SlrAction {
    if cell.len() == 0 {
        SlrAction::E(0)
    } else {
        let n = cell_number(cell.skip(1));
        let kind = cell[0];
        if kind == 'S' || kind == 's' {
            SlrAction::S(n)
        } else if kind == 'R' || kind == 'r' {
            SlrAction::R(n)
        } else if kind == 'A' || kind == 'a' {
            SlrAction::Acc
        } else if kind == 'E' || kind == 'e' {
            SlrAction::E(n)
        } else {
            SlrAction::E(0)
        }
    }
}

/// The characters of `v` from index `from` on.
fn suffix(v: &Vec<char>, from: usize) -> (r: Vec<char>)
    requires
        from <= v@.len(),
    ensures
        r@ == v@.skip(from as int),
{
    let mut r: Vec<char> = Vec::new();
    let mut i: usize = from;
    while i < v.len()
        invariant
            from <= i <= v@.len(),
            r@ == v@.subrange(from as int, i as int),
        decreases v@.len() - i,
    {
        r.push(v[i]);
        assert(v@.subrange(from as int, i + 1) =~= v@.subrange(from as int, i as int).push(v@[i as int]));
        i += 1;
    }
    assert(v@.subrange(from as int, v@.len() as int) =~= v@.skip(from as int));
    r
}

/// The first `n` characters of `v`.
fn prefix(v: &Vec<char>, n: usize) -> (r: Vec<char>)
    requires
        n <= v@.len(),
    ensures
        r@ == v@.take(n as int),
{
    let mut r: Vec<char> = Vec::new();
    let mut i: usize = 0;
    while i < n
        invariant
            i <= n <= v@.len(),
            r@ == v@.take(i as int),
        decreases n - i,
    {
        r.push(v[i]);
        assert(v@.take(i + 1) =~= v@.take(i as int).push(v@[i as int]));
        i += 1;
    }
    r
}

/// The action that the cell made of `cell` writes.
pub fn action_from_chars(cell: &Vec<char>) -> (action: SlrAction)
    ensures
        action == action_of(cell@),
{
    if cell.len() == 0 {
        return SlrAction::E(0);
    }
    let rest = suffix(cell, 1);
    let n: u8 = match parse_small_number(&rest) {
        Some(n) => n,
        None => 0,
    };
    let kind = cell[0];
    if kind == 'S' || kind == 's' {
        SlrAction::S(n)
    } else if kind == 'R' || kind == 'r' {
        SlrAction::R(n)
    } else if kind == 'A' || kind == 'a' {
        SlrAction::Acc
    } else if kind == 'E' || kind == 'e' {
        SlrAction::E(n)
    } else {
        SlrAction::E(0)
    }
}

/// The action that the cell `s` writes.
pub fn str_to_action(s: &str) -> (action: SlrAction)
    ensures
        action == action_of(s@),
{
    let cell = chars_of(s);
    action_from_chars(&cell)
}

/// A line without the carriage return at its end, if it has one.
pub open spec fn without_return(line: Seq<char>) -> Seq<char> {
    if line.len() > 0 && line.last() == '\r' {
        line.drop_last()
    } else {
        line
    }
}

/// The lines of a text. A line ends at a line feed, which is no part of
/// it, nor is a carriage return just before that line feed. What follows
/// the last line feed is a line too, unless it is empty.
pub open spec fn lines_of(text: Seq<char>) -> Seq<Seq<char>> {
    let parts = pieces(text, '\n');
    let ended = Seq::new((parts.len() - 1) as nat, |i: int| without_return(parts[i]));
    if parts.last().len() == 0 {
        ended
    } else {
        ended.push(parts.last())
    }
}

/// The lines of `chars`.
pub fn split_lines(chars: &Vec<char>) -> (lines: Vec<Vec<char>>)
    ensures
        views(lines@) == lines_of(chars@),
{
    let parts = split(chars, '\n');
    proof {
        crate::text::lemma_pieces(chars@, '\n');
    }
    let ghost all = pieces(chars@, '\n');
    let ghost ended = Seq::new((all.len() - 1) as nat, |i: int| without_return(all[i]));
    let mut lines: Vec<Vec<char>> = Vec::new();
    let last = parts.len() - 1;
    let mut i: usize = 0;
    while i < last
        invariant
            i <= last,
            last == parts@.len() - 1,
            views(parts@) == all,
            ended == Seq::new((all.len() - 1) as nat, |i: int| without_return(all[i])),
            views(lines@) == ended.take(i as int),
        decreases last - i,
    {
        let part = &parts[i];
        assert(part@ == all[i as int]);
        let n = part.len();
        let line = if n > 0 && part[n - 1] == '\r' {
            prefix(part, n - 1)
        } else {
            prefix(part, n)
        };
        proof {
            assert(part@.take(n as int) =~= part@);
            assert(line@ == without_return(all[i as int]));
        }
        let ghost before = views(lines@);
        lines.push(line);
        proof {
            assert(views(lines@) =~= before.push(line@));
            assert(ended.take(i + 1) =~= ended.take(i as int).push(ended[i as int]));
        }
        i += 1;
    }
    proof {
        assert(ended.take(last as int) =~= ended);
        assert(parts@[last as int]@ == all.last());
    }
    if parts[last].len() > 0 {
        let line = prefix(&parts[last], parts[last].len());
        proof {
            assert(parts@[last as int]@.take(parts@[last as int]@.len() as int) =~= parts@[last as int]@);
        }
        let ghost before = views(lines@);
        lines.push(line);
        proof {
            assert(views(lines@) =~= before.push(line@));
        }
    }
    lines
}


/// What a line of the action table writes: the number of a state, then
/// one cell for each terminal, separated by commas. Cells after those are
/// of no account. A line whose first field is no number, or that has too
/// few cells, writes nothing.
pub open spec fn action_row(line: Seq<char>) -> Option<(u8, Seq<SlrAction>)> {
    let fields = pieces(line, ',');
    match small_number(fields[0]) {
        Some(state) => if fields.len() > TERMINALS {
            Some((state, Seq::new(TERMINALS as nat, |i: int| action_of(fields[i + 1]))))
        } else {
            None
        },
        None => None,
    }
}

/// The table `entries` with the row of `state` set to `actions`.
pub open spec fn with_action_row(
    entries: Map<(u8, int), SlrAction>,
    state: u8,
    actions: Seq<SlrAction>,
) -> Map<(u8, int), SlrAction> {
    Map::new(
        |k: (u8, int)| (k.0 == state && 0 <= k.1 < TERMINALS) || entries.contains_key(k),
        |k: (u8, int)|
            if k.0 == state && 0 <= k.1 < TERMINALS {
                actions[k.1]
            } else {
                entries[k]
            },
    )
}

/// The table that the lines write, each line setting the row of its state
/// in turn; nothing if one of the lines writes nothing.
pub open spec fn action_entries(lines: Seq<Seq<char>>) -> Option<Map<(u8, int), SlrAction>>
    decreases lines.len(),
{
    if lines.len() == 0 {
        Some(Map::empty())
    } else {
        match (action_entries(lines.drop_last()), action_row(lines.last())) {
            (Some(entries), Some((state, actions))) => Some(with_action_row(entries, state, actions)),
            _ => None,
        }
    }
}

/// The action table that a text writes. Its first line is a header, which
/// is passed over; every further line writes one row.
pub open spec fn action_table_of(text: Seq<char>) -> Option<Map<(u8, int), SlrAction>> {
    let lines = lines_of(text);
    if lines.len() == 0 {
        Some(Map::empty())
    } else {
        action_entries(lines.subrange(1, lines.len() as int))
    }
}

/// The action at a state and a terminal: the entry of the table, or the
/// error of code zero where the table has none.
pub open spec fn action_at(
    entries: Map<(u8, int), SlrAction>,
    state: u8,
    terminal: Seq<char>,
) -> SlrAction {
    match terminal_index(terminal) {
        Some(i) => if entries.contains_key((state, i)) {
            entries[(state, i)]
        } else {
            SlrAction::E(0)
        },
        None => SlrAction::E(0),
    }
}

/// Once a line writes nothing, no longer list of lines writes a table.
pub proof fn lemma_action_entries_fail(lines: Seq<Seq<char>>, n: int)
    requires
        0 <= n <= lines.len(),
        action_entries(lines.take(n)) is None,
    ensures
        action_entries(lines) is None,
    decreases lines.len() - n,
{
    if n < lines.len() {
        assert(lines.take(n + 1).drop_last() =~= lines.take(n));
        lemma_action_entries_fail(lines, n + 1);
    } else {
        assert(lines.take(n) =~= lines);
    }
}

/// The entries that the cells hold: the cell of state `s` and column `i`
/// stands at index `24 s + i`.
pub open spec fn action_cells_map(cells: Seq<Option<SlrAction>>) -> Map<(u8, int), SlrAction> {
    Map::new(
        |k: (u8, int)| 0 <= k.1 < TERMINALS && cells[k.0 * TERMINALS + k.1] is Some,
        |k: (u8, int)| cells[k.0 * TERMINALS + k.1]->0,
    )
}

/// The keys of the entries that stand below index `n`.
pub open spec fn action_keys_below(cells: Seq<Option<SlrAction>>, n: int) -> Set<(u8, int)> {
    Set::new(
        |k: (u8, int)|
            0 <= k.1 < TERMINALS && k.0 * TERMINALS + k.1 < n && cells[k.0 * TERMINALS + k.1] is Some,
    )
}

/// The action table: for a state and a terminal, what the parser does.
pub struct ActionTable {
    cells: Vec<Option<SlrAction>>,
}

impl View for ActionTable {
    type V = Map<(u8, int), SlrAction>;

    closed spec fn view(&self) -> Map<(u8, int), SlrAction> {
        action_cells_map(self.cells@)
    }
}

impl ActionTable {
    #[verifier::type_invariant]
    spec fn sized(self) -> bool {
        self.cells@.len() == STATES * TERMINALS
    }

    /// The action table that `text` writes, if it writes one.
    pub fn new(text: &str) -> (r: Option<ActionTable>)
        ensures
            match r {
                Some(table) => action_table_of(text@) == Some(table@),
                None => action_table_of(text@) is None,
            },
    {
        let chars = chars_of(text);
        let lines = split_lines(&chars);
        let mut cells: Vec<Option<SlrAction>> = Vec::new();
        let mut n: usize = 0;
        while n < STATES * TERMINALS
            invariant
                n <= STATES * TERMINALS,
                cells@.len() == n,
                forall|j: int| 0 <= j < n ==> cells@[j] is None,
            decreases STATES * TERMINALS - n,
        {
            cells.push(None);
            n += 1;
        }
        assert(action_cells_map(cells@) =~= Map::empty());
        if lines.len() == 0 {
            return Some(ActionTable { cells });
        }
        let ghost rows = lines_of(text@).subrange(1, lines@.len() as int);
        let mut k: usize = 1;
        assert(rows.take(0) =~= Seq::empty());
        while k < lines.len()
            invariant
                1 <= k <= lines@.len(),
                views(lines@) == lines_of(text@),
                rows == lines_of(text@).subrange(1, lines@.len() as int),
                cells@.len() == STATES * TERMINALS,
                action_entries(rows.take(k - 1)) == Some(action_cells_map(cells@)),
            decreases lines@.len() - k,
        {
            let fields = split(&lines[k], ',');
            proof {
                assert(lines@[k as int]@ == rows[k - 1]);
                assert(rows.take(k as int).drop_last() =~= rows.take(k - 1));
                assert(rows.take(k as int).last() == rows[k - 1]);
                crate::text::lemma_pieces(rows[k - 1], ',');
            }
            let state = match parse_small_number(&fields[0]) {
                Some(state) => state,
                None => {
                    proof {
                        lemma_action_entries_fail(rows, k as int);
                    }
                    return None;
                },
            };
            if fields.len() <= TERMINALS {
                proof {
                    lemma_action_entries_fail(rows, k as int);
                }
                return None;
            }
            let ghost before = cells@;
            let ghost actions = Seq::new(
                TERMINALS as nat,
                |i: int| action_of(pieces(rows[k - 1], ',')[i + 1]),
            );
            let base: usize = (state as usize) * TERMINALS;
            let mut i: usize = 0;
            while i < TERMINALS
                invariant
                    i <= TERMINALS,
                    base == state * TERMINALS,
                    fields@.len() > TERMINALS,
                    views(fields@) == pieces(rows[k - 1], ','),
                    cells@.len() == STATES * TERMINALS,
                    before.len() == STATES * TERMINALS,
                    forall|j: int|
                        0 <= j < STATES * TERMINALS ==> #[trigger] cells@[j] == (if base <= j < base + i {
                            Some(action_of(pieces(rows[k - 1], ',')[j - base + 1]))
                        } else {
                            before[j]
                        }),
                decreases TERMINALS - i,
            {
                let action = action_from_chars(&fields[i + 1]);
                assert(fields@[i + 1]@ == views(fields@)[i + 1]);
                cells[base + i] = Some(action);
                i += 1;
            }
            proof {
                assert(action_cells_map(cells@) =~= with_action_row(
                    action_cells_map(before),
                    state,
                    actions,
                ));
            }
            k += 1;
        }
        proof {
            assert(rows.take(lines@.len() - 1) =~= rows);
        }
        Some(ActionTable { cells })
    }

    /// The number of entries of the table.
    pub fn len(&self) -> (n: usize)
        ensures
            self@.dom().finite(),
            n == self@.dom().len(),
    {
        proof {
            use_type_invariant(self);
        }
        let mut n: usize = 0;
        let mut i: usize = 0;
        assert(action_keys_below(self.cells@, 0) =~= Set::empty());
        while i < STATES * TERMINALS
            invariant
                i <= STATES * TERMINALS,
                self.cells@.len() == STATES * TERMINALS,
                n <= i,
                action_keys_below(self.cells@, i as int).finite(),
                n == action_keys_below(self.cells@, i as int).len(),
            decreases STATES * TERMINALS - i,
        {
            proof {
                let key = ((i / TERMINALS) as u8, (i % TERMINALS) as int);
                assert(key.0 * TERMINALS + key.1 == i);
                if self.cells@[i as int] is Some {
                    assert(action_keys_below(self.cells@, i + 1) =~= action_keys_below(
                        self.cells@,
                        i as int,
                    ).insert(key));
                } else {
                    assert(action_keys_below(self.cells@, i + 1) =~= action_keys_below(
                        self.cells@,
                        i as int,
                    ));
                }
            }
            if self.cells[i].is_some() {
                n += 1;
            }
            i += 1;
        }
        proof {
            assert(action_keys_below(self.cells@, (STATES * TERMINALS) as int) =~= self@.dom());
        }
        n
    }

    /// The action at `state` and `terminal`.
    pub fn get(&self, state: u8, terminal: &str) -> (action: SlrAction)
        ensures
            action == action_at(self@, state, terminal@),
    {
        proof {
            use_type_invariant(self);
        }
        match terminal_column(terminal) {
            Some(i) => match self.cells[(state as usize) * TERMINALS + i] {
                Some(action) => action,
                None => SlrAction::E(0),
            },
            None => SlrAction::E(0),
        }
    }
}


/// What a line of the goto table writes: the number of a state, then one
/// number for each nonterminal, separated by commas. Fields after those
/// are of no account. A line with a field that is no number, or with too
/// few fields, writes nothing.
pub open spec fn goto_row(line: Seq<char>) -> Option<(u8, Seq<u8>)> {
    let fields = pieces(line, ',');
    match small_number(fields[0]) {
        Some(state) => if fields.len() > NONTERMINALS && (forall|i: int|
            0 <= i < NONTERMINALS ==> small_number(#[trigger] fields[i + 1]) is Some) {
            Some((state, Seq::new(NONTERMINALS as nat, |i: int| small_number(fields[i + 1])->0)))
        } else {
            None
        },
        None => None,
    }
}

/// The table `entries` after a line for `state`: each number of the line
/// that is not zero is the entry of its column, and a zero leaves the
/// column as it was.
pub open spec fn with_goto_row(entries: Map<(u8, int), u8>, state: u8, targets: Seq<u8>) -> Map<
    (u8, int),
    u8,
> {
    Map::new(
        |k: (u8, int)|
            (k.0 == state && 0 <= k.1 < NONTERMINALS && targets[k.1] != 0) || entries.contains_key(k),
        |k: (u8, int)|
            if k.0 == state && 0 <= k.1 < NONTERMINALS && targets[k.1] != 0 {
                targets[k.1]
            } else {
                entries[k]
            },
    )
}

/// The table that the lines write, one after another; nothing if one of
/// the lines writes nothing.
pub open spec fn goto_entries(lines: Seq<Seq<char>>) -> Option<Map<(u8, int), u8>>
    decreases lines.len(),
{
    if lines.len() == 0 {
        Some(Map::empty())
    } else {
        match (goto_entries(lines.drop_last()), goto_row(lines.last())) {
            (Some(entries), Some((state, targets))) => Some(with_goto_row(entries, state, targets)),
            _ => None,
        }
    }
}

/// The goto table that a text writes. Its first line is a header, which is
/// passed over; every further line writes one row.
pub open spec fn goto_table_of(text: Seq<char>) -> Option<Map<(u8, int), u8>> {
    let lines = lines_of(text);
    if lines.len() == 0 {
        Some(Map::empty())
    } else {
        goto_entries(lines.subrange(1, lines.len() as int))
    }
}

/// The state to go to from a state on a nonterminal, or zero where the
/// table has no entry.
pub open spec fn goto_at(entries: Map<(u8, int), u8>, state: u8, nonterminal: Seq<char>) -> u8 {
    match nonterminal_index(nonterminal) {
        Some(i) => if entries.contains_key((state, i)) {
            entries[(state, i)]
        } else {
            0
        },
        None => 0,
    }
}

/// Once a line writes nothing, no longer list of lines writes a table.
pub proof fn lemma_goto_entries_fail(lines: Seq<Seq<char>>, n: int)
    requires
        0 <= n <= lines.len(),
        goto_entries(lines.take(n)) is None,
    ensures
        goto_entries(lines) is None,
    decreases lines.len() - n,
{
    if n < lines.len() {
        assert(lines.take(n + 1).drop_last() =~= lines.take(n));
        lemma_goto_entries_fail(lines, n + 1);
    } else {
        assert(lines.take(n) =~= lines);
    }
}

/// The entries that the cells hold: the cell of state `s` and column `i`
/// stands at index `19 s + i`, and a zero there is no entry.
pub open spec fn goto_cells_map(cells: Seq<u8>) -> Map<(u8, int), u8> {
    Map::new(
        |k: (u8, int)| 0 <= k.1 < NONTERMINALS && cells[k.0 * NONTERMINALS + k.1] != 0,
        |k: (u8, int)| cells[k.0 * NONTERMINALS + k.1],
    )
}

/// The keys of the entries that stand below index `n`.
pub open spec fn goto_keys_below(cells: Seq<u8>, n: int) -> Set<(u8, int)> {
    Set::new(
        |k: (u8, int)|
            0 <= k.1 < NONTERMINALS && k.0 * NONTERMINALS + k.1 < n && cells[k.0 * NONTERMINALS + k.1]
                != 0,
    )
}

/// The goto table: for a state and a nonterminal, the state to go to.
pub struct GotoTable {
    cells: Vec<u8>,
}

impl View for GotoTable {
    type V = Map<(u8, int), u8>;

    closed spec fn view(&self) -> Map<(u8, int), u8> {
        goto_cells_map(self.cells@)
    }
}

impl GotoTable {
    #[verifier::type_invariant]
    spec fn sized(self) -> bool {
        self.cells@.len() == STATES * NONTERMINALS
    }

    /// The goto table that `text` writes, if it writes one.
    pub fn new(text: &str) -> (r: Option<GotoTable>)
        ensures
            match r {
                Some(table) => goto_table_of(text@) == Some(table@),
                None => goto_table_of(text@) is None,
            },
    {
        let chars = chars_of(text);
        let lines = split_lines(&chars);
        let mut cells: Vec<u8> = Vec::new();
        let mut n: usize = 0;
        while n < STATES * NONTERMINALS
            invariant
                n <= STATES * NONTERMINALS,
                cells@.len() == n,
                forall|j: int| 0 <= j < n ==> cells@[j] == 0,
            decreases STATES * NONTERMINALS - n,
        {
            cells.push(0);
            n += 1;
        }
        assert(goto_cells_map(cells@) =~= Map::empty());
        if lines.len() == 0 {
            return Some(GotoTable { cells });
        }
        let ghost rows = lines_of(text@).subrange(1, lines@.len() as int);
        let mut k: usize = 1;
        assert(rows.take(0) =~= Seq::empty());
        while k < lines.len()
            invariant
                1 <= k <= lines@.len(),
                views(lines@) == lines_of(text@),
                rows == lines_of(text@).subrange(1, lines@.len() as int),
                cells@.len() == STATES * NONTERMINALS,
                goto_entries(rows.take(k - 1)) == Some(goto_cells_map(cells@)),
            decreases lines@.len() - k,
        {
            let fields = split(&lines[k], ',');
            proof {
                assert(lines@[k as int]@ == rows[k - 1]);
                assert(rows.take(k as int).drop_last() =~= rows.take(k - 1));
                assert(rows.take(k as int).last() == rows[k - 1]);
                crate::text::lemma_pieces(rows[k - 1], ',');
            }
            let state = match parse_small_number(&fields[0]) {
                Some(state) => state,
                None => {
                    proof {
                        lemma_goto_entries_fail(rows, k as int);
                    }
                    return None;
                },
            };
            if fields.len() <= NONTERMINALS {
                proof {
                    lemma_goto_entries_fail(rows, k as int);
                }
                return None;
            }
            let ghost before = cells@;
            let ghost written = pieces(rows[k - 1], ',');
            let ghost targets = Seq::new(
                NONTERMINALS as nat,
                |i: int| small_number(written[i + 1])->0,
            );
            let base: usize = (state as usize) * NONTERMINALS;
            let mut i: usize = 0;
            while i < NONTERMINALS
                invariant
                    i <= NONTERMINALS,
                    base == state * NONTERMINALS,
                    fields@.len() > NONTERMINALS,
                    views(fields@) == written,
                    written == pieces(rows[k - 1], ','),
                    0 <= k - 1 < rows.len(),
                    1 <= k < lines@.len(),
                    views(lines@) == lines_of(text@),
                    rows == lines_of(text@).subrange(1, lines@.len() as int),
                    goto_entries(rows.take(k - 1)) is Some,
                    rows.take(k as int).drop_last() == rows.take(k - 1),
                    rows.take(k as int).last() == rows[k - 1],
                    k <= rows.len(),
                    cells@.len() == STATES * NONTERMINALS,
                    before.len() == STATES * NONTERMINALS,
                    forall|j: int| 0 <= j < i ==> small_number(#[trigger] written[j + 1]) is Some,
                    forall|j: int|
                        0 <= j < STATES * NONTERMINALS ==> #[trigger] cells@[j] == (if base <= j < base + i
                            && small_number(written[j - base + 1])->0 != 0 {
                            small_number(written[j - base + 1])->0
                        } else {
                            before[j]
                        }),
                decreases NONTERMINALS - i,
            {
                assert(fields@[i + 1]@ == views(fields@)[i + 1]);
                match parse_small_number(&fields[i + 1]) {
                    Some(target) => {
                        if target != 0 {
                            cells[base + i] = target;
                        }
                    },
                    None => {
                        proof {
                            assert(small_number(written[i + 1]) is None);
                            assert(goto_row(rows[k - 1]) is None);
                            lemma_goto_entries_fail(rows, k as int);
                        }
                        return None;
                    },
                }
                i += 1;
            }
            proof {
                assert(goto_row(rows[k - 1]) == Some((state, targets)));
                assert(goto_cells_map(cells@) =~= with_goto_row(goto_cells_map(before), state, targets));
            }
            k += 1;
        }
        proof {
            assert(rows.take(lines@.len() - 1) =~= rows);
        }
        Some(GotoTable { cells })
    }

    /// The number of entries of the table.
    pub fn len(&self) -> (n: usize)
        ensures
            self@.dom().finite(),
            n == self@.dom().len(),
    {
        proof {
            use_type_invariant(self);
        }
        let mut n: usize = 0;
        let mut i: usize = 0;
        assert(goto_keys_below(self.cells@, 0) =~= Set::empty());
        while i < STATES * NONTERMINALS
            invariant
                i <= STATES * NONTERMINALS,
                self.cells@.len() == STATES * NONTERMINALS,
                n <= i,
                goto_keys_below(self.cells@, i as int).finite(),
                n == goto_keys_below(self.cells@, i as int).len(),
            decreases STATES * NONTERMINALS - i,
        {
            proof {
                let key = ((i / NONTERMINALS) as u8, (i % NONTERMINALS) as int);
                assert(key.0 * NONTERMINALS + key.1 == i);
                if self.cells@[i as int] != 0 {
                    assert(goto_keys_below(self.cells@, i + 1) =~= goto_keys_below(
                        self.cells@,
                        i as int,
                    ).insert(key));
                } else {
                    assert(goto_keys_below(self.cells@, i + 1) =~= goto_keys_below(
                        self.cells@,
                        i as int,
                    ));
                }
            }
            if self.cells[i] != 0 {
                n += 1;
            }
            i += 1;
        }
        proof {
            assert(goto_keys_below(self.cells@, (STATES * NONTERMINALS) as int) =~= self@.dom());
        }
        n
    }

    /// The state to go to from `state` on `nonterminal`, or zero where the
    /// table has no entry.
    pub fn get(&self, state: u8, nonterminal: &str) -> (target: u8)
        ensures
            target == goto_at(self@, state, nonterminal@),
    {
        proof {
            use_type_invariant(self);
        }
        match nonterminal_column(nonterminal) {
            Some(i) => self.cells[(state as usize) * NONTERMINALS + i],
            None => 0,
        }
    }
}

/// The name of the terminal of the given column, as the header of the
/// action table writes it.
pub open spec fn terminal_name(column: int) -> Seq<char> {
    if column == 0 {
        "num"@
    } else if column == 1 {
        "lit"@
    } else if column == 2 {
        "id"@
    } else if column == 3 {
        "opr"@
    } else if column == 4 {
        "rcb"@
    } else if column == 5 {
        "opm"@
    } else if column == 6 {
        "ab_p"@
    } else if column == 7 {
        "fc_p"@
    } else if column == 8 {
        "pt_v"@
    } else if column == 9 {
        "inicio"@
    } else if column == 10 {
        "varinicio"@
    } else if column == 11 {
        "varfim"@
    } else if column == 12 {
        "escreva"@
    } else if column == 13 {
        "leia"@
    } else if column == 14 {
        "se"@
    } else if column == 15 {
        "entao"@
    } else if column == 16 {
        "fimse"@
    } else if column == 17 {
        "repita"@
    } else if column == 18 {
        "fimrepita"@
    } else if column == 19 {
        "fim"@
    } else if column == 20 {
        "inteiro"@
    } else if column == 21 {
        "literal"@
    } else if column == 22 {
        "real"@
    } else {
        "$"@
    }
}

/// The name of the nonterminal of the given column.
pub open spec fn nonterminal_name(column: int) -> Seq<char> {
    if column == 0 {
        "P"@
    } else if column == 1 {
        "V"@
    } else if column == 2 {
        "LV"@
    } else if column == 3 {
        "D"@
    } else if column == 4 {
        "L"@
    } else if column == 5 {
        "TIPO"@
    } else if column == 6 {
        "A"@
    } else if column == 7 {
        "ES"@
    } else if column == 8 {
        "ARG"@
    } else if column == 9 {
        "CMD"@
    } else if column == 10 {
        "LD"@
    } else if column == 11 {
        "OPRD"@
    } else if column == 12 {
        "COND"@
    } else if column == 13 {
        "CAB"@
    } else if column == 14 {
        "EXP_R"@
    } else if column == 15 {
        "CP"@
    } else if column == 16 {
        "R"@
    } else if column == 17 {
        "CABR"@
    } else {
        "CPR"@
    }
}

/// The name of the terminal of the given column.
fn terminal_of(column: usize) -> (name: &'static str)
    ensures
        name@ == terminal_name(column as int),
{
    if column == 0 {
        "num"
    } else if column == 1 {
        "lit"
    } else if column == 2 {
        "id"
    } else if column == 3 {
        "opr"
    } else if column == 4 {
        "rcb"
    } else if column == 5 {
        "opm"
    } else if column == 6 {
        "ab_p"
    } else if column == 7 {
        "fc_p"
    } else if column == 8 {
        "pt_v"
    } else if column == 9 {
        "inicio"
    } else if column == 10 {
        "varinicio"
    } else if column == 11 {
        "varfim"
    } else if column == 12 {
        "escreva"
    } else if column == 13 {
        "leia"
    } else if column == 14 {
        "se"
    } else if column == 15 {
        "entao"
    } else if column == 16 {
        "fimse"
    } else if column == 17 {
        "repita"
    } else if column == 18 {
        "fimrepita"
    } else if column == 19 {
        "fim"
    } else if column == 20 {
        "inteiro"
    } else if column == 21 {
        "literal"
    } else if column == 22 {
        "real"
    } else {
        "$"
    }
}

/// The name of the nonterminal of the given column.
fn nonterminal_of(column: usize) -> (name: &'static str)
    ensures
        name@ == nonterminal_name(column as int),
{
    if column == 0 {
        "P"
    } else if column == 1 {
        "V"
    } else if column == 2 {
        "LV"
    } else if column == 3 {
        "D"
    } else if column == 4 {
        "L"
    } else if column == 5 {
        "TIPO"
    } else if column == 6 {
        "A"
    } else if column == 7 {
        "ES"
    } else if column == 8 {
        "ARG"
    } else if column == 9 {
        "CMD"
    } else if column == 10 {
        "LD"
    } else if column == 11 {
        "OPRD"
    } else if column == 12 {
        "COND"
    } else if column == 13 {
        "CAB"
    } else if column == 14 {
        "EXP_R"
    } else if column == 15 {
        "CP"
    } else if column == 16 {
        "R"
    } else if column == 17 {
        "CABR"
    } else {
        "CPR"
    }
}

/// How an action is written: its kind, and its number in parentheses
/// where it has one.
pub open spec fn action_text(action: SlrAction) -> Seq<char> {
    match action {
        SlrAction::S(n) => "S("@ + decimal(n as nat) + ")"@,
        SlrAction::R(n) => "R("@ + decimal(n as nat) + ")"@,
        SlrAction::Acc => "Acc"@,
        SlrAction::E(n) => "E("@ + decimal(n as nat) + ")"@,
    }
}

/// How the key of an entry is written: the state and, between quotes,
/// the name of the column.
pub open spec fn key_text(state: u8, name: Seq<char>) -> Seq<char> {
    "("@ + decimal(state as nat) + ", \""@ + name + "\") -> "@
}

/// The entries of the action table below the cell of index `n`, one line
/// each, state by state and column by column.
pub open spec fn action_lines(entries: Map<(u8, int), SlrAction>, n: nat) -> Seq<Seq<char>>
    decreases n,
{
    if n == 0 {
        Seq::empty()
    } else {
        let key = (((n - 1) / TERMINALS as int) as u8, (n - 1) % TERMINALS as int);
        let before = action_lines(entries, (n - 1) as nat);
        if entries.contains_key(key) {
            before.push(key_text(key.0, terminal_name(key.1)) + action_text(entries[key]))
        } else {
            before
        }
    }
}

/// The entries of the goto table below the cell of index `n`, one line
/// each, state by state and column by column.
pub open spec fn goto_lines(entries: Map<(u8, int), u8>, n: nat) -> Seq<Seq<char>>
    decreases n,
{
    if n == 0 {
        Seq::empty()
    } else {
        let key = (((n - 1) / NONTERMINALS as int) as u8, (n - 1) % NONTERMINALS as int);
        let before = goto_lines(entries, (n - 1) as nat);
        if entries.contains_key(key) {
            before.push(key_text(key.0, nonterminal_name(key.1)) + decimal(entries[key] as nat))
        } else {
            before
        }
    }
}

/// The start of the line of an entry.
fn key_line(state: u8, name: &str) -> (line: String)
    ensures
        line@ == key_text(state, name@),
{
    let mut line = String::from_str("(");
    push_decimal(&mut line, state as u128);
    line.append(", \"");
    line.append(name);
    line.append("\") -> ");
    line
}

impl ActionTable {
    /// The entries of the table as they are written, one line each.
    pub fn show(&self) -> (lines: Vec<String>)
        ensures
            texts(lines@) == action_lines(self@, (STATES * TERMINALS) as nat),
    {
        proof {
            use_type_invariant(self);
        }
        let mut lines: Vec<String> = Vec::new();
        let mut i: usize = 0;
        assert(texts(lines@) =~= Seq::empty());
        while i < STATES * TERMINALS
            invariant
                i <= STATES * TERMINALS,
                self.cells@.len() == STATES * TERMINALS,
                texts(lines@) == action_lines(self@, i as nat),
            decreases STATES * TERMINALS - i,
        {
            let state = (i / TERMINALS) as u8;
            let column = i % TERMINALS;
            assert(state * TERMINALS + column == i);
            match self.cells[i] {
                Some(action) => {
                    let mut line = key_line(state, terminal_of(column));
                    match action {
                        SlrAction::S(n) => {
                            line.append("S(");
                            push_decimal(&mut line, n as u128);
                            line.append(")");
                        },
                        SlrAction::R(n) => {
                            line.append("R(");
                            push_decimal(&mut line, n as u128);
                            line.append(")");
                        },
                        SlrAction::Acc => {
                            line.append("Acc");
                        },
                        SlrAction::E(n) => {
                            line.append("E(");
                            push_decimal(&mut line, n as u128);
                            line.append(")");
                        },
                    }
                    let ghost before = texts(lines@);
                    assert(line@ =~= key_text(state, terminal_name(column as int)) + action_text(action));
                    lines.push(line);
                    assert(texts(lines@) =~= before.push(line@));
                },
                None => {},
            }
            i += 1;
        }
        lines
    }
}

impl GotoTable {
    /// The entries of the table as they are written, one line each.
    pub fn show(&self) -> (lines: Vec<String>)
        ensures
            texts(lines@) == goto_lines(self@, (STATES * NONTERMINALS) as nat),
    {
        proof {
            use_type_invariant(self);
        }
        let mut lines: Vec<String> = Vec::new();
        let mut i: usize = 0;
        assert(texts(lines@) =~= Seq::empty());
        while i < STATES * NONTERMINALS
            invariant
                i <= STATES * NONTERMINALS,
                self.cells@.len() == STATES * NONTERMINALS,
                texts(lines@) == goto_lines(self@, i as nat),
            decreases STATES * NONTERMINALS - i,
        {
            let state = (i / NONTERMINALS) as u8;
            let column = i % NONTERMINALS;
            assert(state * NONTERMINALS + column == i);
            let target = self.cells[i];
            if target != 0 {
                let mut line = key_line(state, nonterminal_of(column));
                push_decimal(&mut line, target as u128);
                let ghost before = texts(lines@);
                lines.push(line);
                assert(texts(lines@) =~= before.push(line@));
            }
            i += 1;
        }
        lines
    }
}

} // verus!
