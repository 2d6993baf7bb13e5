use vstd::prelude::*;

verus! {

/// The stack of states of the parser.
pub struct SyntaticStack {
    stack: Vec<u8>,
}

impl View for SyntaticStack {
    type V = Seq<u8>;

    closed spec fn view(&self) -> Seq<u8> {
        self.stack@
    }
}

/// The states that are left of `states` when `count` of them are taken
/// off its top; none where it holds no more than `count`.
pub open spec fn without_top(states: Seq<u8>, count: nat) -> Seq<u8> {
    if count >= states.len() {
        Seq::empty()
    } else {
        states.take(states.len() - count)
    }
}

impl SyntaticStack {
    /// The stack that holds the initial state, zero, and nothing else.
    pub fn new() -> (stack: SyntaticStack)
        ensures
            stack@ == seq![0u8],
    {
        let mut stack: Vec<u8> = Vec::new();
        stack.push(0);
        assert(stack@ =~= seq![0u8]);
        SyntaticStack { stack }
    }

    /// The state on top.
    pub fn top(&self) -> (state: u8)
        requires
            self@.len() > 0,
        ensures
            state == self@.last(),
    {
        self.stack[self.stack.len() - 1]
    }

    /// The state at the given height above the bottom of the stack.
    pub fn get(&self, index: usize) -> (state: u8)
        requires
            index < self@.len(),
        ensures
            state == self@[index as int],
    {
        self.stack[index]
    }

    /// The number of states on the stack.
    pub fn len(&self) -> (n: usize)
        ensures
            n == self@.len(),
    {
        self.stack.len()
    }

    /// Puts a state on top.
    pub fn push(&mut self, n: u8)
        ensures
            final(self)@ == old(self)@.push(n),
    {
        self.stack.push(n);
    }

    /// Takes `count` states off the top, or all of them where there are
    /// fewer.
    pub fn pop(&mut self, count: u8)
        ensures
            final(self)@ == without_top(old(self)@, count as nat),
    {
        let mut i: u8 = 0;
        assert(old(self)@.take(old(self)@.len() as int) =~= old(self)@);
        while i < count
            invariant
                i <= count,
                self@ == without_top(old(self)@, i as nat),
            decreases count - i,
        {
            self.stack.pop();
            assert(self@ =~= without_top(old(self)@, (i + 1) as nat));
            i += 1;
        }
    }
}

/// What an entry of the semantic stack is: the name of a symbol of the
/// grammar, a lexeme or a text made for it, and a type.
pub type Attributes = (Seq<char>, Seq<char>, Seq<char>);

/// The entry that lies at the bottom of every semantic stack.
pub open spec fn sentinel() -> Attributes {
    (Seq::empty(), Seq::empty(), Seq::empty())
}

/// The entries that are left of `entries` when `count` of them are taken
/// off its top, the bottom one never being taken.
pub open spec fn without_attributes(entries: Seq<Attributes>, count: nat) -> Seq<Attributes> {
    if count + 1 >= entries.len() {
        entries.take(1)
    } else {
        entries.take(entries.len() - count)
    }
}

/// The views of the entries, in order.
pub open spec fn attribute_views(entries: Seq<(String, String, String)>) -> Seq<Attributes> {
    Seq::new(entries.len(), |i: int| entries[i]@)
}

/// The stack of attributes of the parser. It is never empty: an entry of
/// three empty texts lies at its bottom and never leaves it.
pub struct SemanticStack {
    stack: Vec<(String, String, String)>,
}

impl View for SemanticStack {
    type V = Seq<Attributes>;

    closed spec fn view(&self) -> Seq<Attributes> {
        attribute_views(self.stack@)
    }
}

impl SemanticStack {
    #[verifier::type_invariant]
    spec fn inhabited(self) -> bool {
        self.stack@.len() >= 1
    }

    /// The stack that holds its bottom entry and nothing else.
    pub fn new() -> (stack: SemanticStack)
        ensures
            stack@ == seq![sentinel()],
    {
        let mut stack: Vec<(String, String, String)> = Vec::new();
        stack.push((String::new(), String::new(), String::new()));
        assert(attribute_views(stack@) =~= seq![sentinel()]);
        SemanticStack { stack }
    }

    /// The entry on top.
    pub fn top(&self) -> (attrs: &(String, String, String))
        ensures
            self@.len() >= 1,
            attrs@ == self@.last(),
    {
        proof {
            use_type_invariant(self);
        }
        &self.stack[self.stack.len() - 1]
    }

    /// The entry at the given height above the bottom of the stack.
    pub fn entry(&self, index: usize) -> (attrs: &(String, String, String))
        requires
            index < self@.len(),
        ensures
            attrs@ == self@[index as int],
    {
        &self.stack[index]
    }

    /// The number of entries on the stack, the bottom one among them.
    pub fn len(&self) -> (n: usize)
        ensures
            n == self@.len(),
            n >= 1,
    {
        proof {
            use_type_invariant(self);
        }
        self.stack.len()
    }

    /// Puts an entry on top.
    pub fn push(&mut self, attrs: (String, String, String))
        ensures
            final(self)@ == old(self)@.push(attrs@),
    {
        proof {
            use_type_invariant(&*self);
        }
        let mut stack: Vec<(String, String, String)> = Vec::new();
        stack.push((String::new(), String::new(), String::new()));
        core::mem::swap(&mut self.stack, &mut stack);
        stack.push(attrs);
        core::mem::swap(&mut self.stack, &mut stack);
        assert(self@ =~= old(self)@.push(attrs@));
    }

    /// Takes `count` entries off the top, or all but the bottom one where
    /// there are fewer above it.
    pub fn pop(&mut self, count: u8)
        ensures
            final(self)@ == without_attributes(old(self)@, count as nat),
    {
        proof {
            use_type_invariant(&*self);
        }
        let mut stack: Vec<(String, String, String)> = Vec::new();
        stack.push((String::new(), String::new(), String::new()));
        core::mem::swap(&mut self.stack, &mut stack);
        let ghost before = attribute_views(stack@);
        let mut i: u8 = 0;
        assert(before.take(before.len() as int) =~= before);
        while i < count && stack.len() > 1
            invariant
                i <= count,
                before.len() >= 1,
                stack@.len() >= 1,
                attribute_views(stack@) == without_attributes(before, i as nat),
            decreases count - i,
        {
            let ghost held = attribute_views(stack@);
            assert(held.len() == stack@.len());
            stack.pop();
            assert(attribute_views(stack@) =~= held.drop_last());
            assert(held.drop_last() =~= without_attributes(before, (i + 1) as nat));
            i += 1;
        }
        proof {
            assert(attribute_views(stack@).len() == stack@.len());
            assert(attribute_views(stack@) =~= without_attributes(before, count as nat));
        }
        core::mem::swap(&mut self.stack, &mut stack);
    }
}

} // verus!
