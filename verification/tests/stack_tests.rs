use mgol::stack::{SemanticStack, SyntaticStack};

fn entry(a: &str, b: &str, c: &str) -> (String, String, String) {
    (String::from(a), String::from(b), String::from(c))
}

#[test]
fn syntactic_stack_starts_with_state_zero() {
    let stack = SyntaticStack::new();
    assert_eq!(stack.len(), 1);
    assert_eq!(stack.top(), 0);
}

#[test]
fn syntactic_stack_pushes_and_pops() {
    let mut stack = SyntaticStack::new();
    stack.push(4);
    stack.push(9);
    stack.push(200);
    assert_eq!(stack.top(), 200);
    assert_eq!(stack.get(0), 0);
    assert_eq!(stack.get(2), 9);
    stack.pop(0);
    assert_eq!(stack.len(), 4);
    stack.pop(2);
    assert_eq!(stack.len(), 2);
    assert_eq!(stack.top(), 4);
}

#[test]
fn syntactic_stack_pops_no_more_than_it_holds() {
    let mut stack = SyntaticStack::new();
    stack.push(1);
    stack.pop(2);
    assert_eq!(stack.len(), 0);
    stack.push(7);
    stack.pop(255);
    assert_eq!(stack.len(), 0);
    stack.pop(1);
    assert_eq!(stack.len(), 0);
}

#[test]
fn semantic_stack_starts_with_its_bottom_entry() {
    let stack = SemanticStack::new();
    assert_eq!(stack.len(), 1);
    assert_eq!(*stack.top(), entry("", "", ""));
}

#[test]
fn semantic_stack_pushes_and_pops() {
    let mut stack = SemanticStack::new();
    stack.push(entry("id", "x", ""));
    stack.push(entry("OPRD", "1", "inteiro"));
    assert_eq!(stack.len(), 3);
    assert_eq!(*stack.top(), entry("OPRD", "1", "inteiro"));
    assert_eq!(*stack.entry(1), entry("id", "x", ""));
    stack.pop(0);
    assert_eq!(stack.len(), 3);
    stack.pop(1);
    assert_eq!(*stack.top(), entry("id", "x", ""));
}

#[test]
fn bottom_entry_never_leaves_the_semantic_stack() {
    let mut stack = SemanticStack::new();
    stack.pop(1);
    assert_eq!(stack.len(), 1);
    stack.push(entry("a", "b", "c"));
    stack.push(entry("d", "e", "f"));
    stack.pop(2);
    assert_eq!(stack.len(), 1);
    stack.push(entry("a", "b", "c"));
    stack.pop(255);
    assert_eq!(stack.len(), 1);
    assert_eq!(*stack.top(), entry("", "", ""));
}
