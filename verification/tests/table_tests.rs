use sod::symbol::number::Number;
use sod::symbol::scope::{Scope, ScopeKind, ScopeStack, GLOBAL_SCOPE_ID};
use sod::symbol::symbol::{StringSymbol, Symbol};
use sod::symbol::table::SymbolTable;

fn number(value: f64) -> Symbol {
    Symbol::Number(Number { bits: value.to_bits() })
}

fn string(value: &str) -> Symbol {
    Symbol::String(StringSymbol::new(value.to_string()))
}

fn ids(stack: &ScopeStack) -> Vec<usize> {
    stack.curr_stack().iter().map(|s| s.id).collect()
}

#[test]
fn scope_stack_starts_with_the_global_frame() {
    let stack = ScopeStack::new();
    assert_eq!(stack.curr_stack().len(), 1);
    assert_eq!(*stack.curr(), Scope { id: GLOBAL_SCOPE_ID, kind: ScopeKind::Global });
    assert_eq!(stack.next_id(), 1);
}

#[test]
fn blocks_go_on_top_and_functions_start_anew() {
    let mut stack = ScopeStack::new();
    assert_eq!(stack.push(ScopeKind::ConditionalBlock), 1);
    assert_eq!(stack.push(ScopeKind::ForBlock), 2);
    assert_eq!(ids(&stack), vec![0, 1, 2]);
    assert_eq!(stack.push(ScopeKind::FunctionBlock), 3);
    assert_eq!(ids(&stack), vec![0, 3]);
    assert_eq!(stack.curr().kind, ScopeKind::FunctionBlock);
    assert_eq!(stack.push(ScopeKind::ConditionalBlock), 4);
    assert_eq!(ids(&stack), vec![0, 3, 4]);
    assert_eq!(stack.pop(), Scope { id: 4, kind: ScopeKind::ConditionalBlock });
    assert_eq!(ids(&stack), vec![0, 3]);
    assert_eq!(stack.pop(), Scope { id: 3, kind: ScopeKind::FunctionBlock });
    assert_eq!(ids(&stack), vec![0, 1, 2]);
    assert_eq!(stack.pop().id, 2);
    assert_eq!(stack.pop().id, 1);
    assert_eq!(ids(&stack), vec![0]);
    assert_eq!(stack.push(ScopeKind::ConditionalBlock), 5);
}

#[test]
fn names_are_resolved_from_the_innermost_frame() {
    let mut table = SymbolTable::from(vec![("g", number(1.0))]);
    assert_eq!(table.get("g"), Some(&number(1.0)));
    assert_eq!(table.get("x"), None);
    table.set("x", number(2.0));
    table.push_scope(ScopeKind::ConditionalBlock);
    assert_eq!(table.get("x"), Some(&number(2.0)));
    table.set("y", number(3.0));
    assert_eq!(table.get("y"), Some(&number(3.0)));
    table.pop_scope();
    assert_eq!(table.get("y"), None);
    assert_eq!(table.get("x"), Some(&number(2.0)));
}

#[test]
fn assignment_updates_the_frame_that_binds_the_name() {
    let mut table = SymbolTable::from(vec![]);
    table.set("x", number(1.0));
    table.push_scope(ScopeKind::ConditionalBlock);
    table.push_scope(ScopeKind::ForBlock);
    assert_eq!(table.target_of("x"), 0);
    assert_eq!(table.target_of("fresh"), 2);
    table.set("x", number(2.0));
    table.pop_scope();
    table.pop_scope();
    assert_eq!(table.get("x"), Some(&number(2.0)));
    assert_eq!(table.scoped_table.len(), 1);
}

#[test]
fn function_frame_sees_the_global_frame_alone() {
    let mut table = SymbolTable::from(vec![("g", number(1.0))]);
    table.push_scope(ScopeKind::ConditionalBlock);
    table.set("local", number(2.0));
    table.push_scope(ScopeKind::FunctionBlock);
    assert_eq!(table.get("local"), None);
    assert_eq!(table.get("g"), Some(&number(1.0)));
    table.set("local", string("mine"));
    assert_eq!(table.get("local"), Some(&string("mine")));
    table.set("g", number(5.0));
    table.pop_scope();
    assert_eq!(table.get("local"), Some(&number(2.0)));
    assert_eq!(table.get("g"), Some(&number(5.0)));
    table.pop_scope();
    assert_eq!(table.get("local"), None);
    assert!(!table.can_pop());
    assert!(table.can_push());
}

#[test]
fn bound_value_can_be_written_in_place() {
    let mut table = SymbolTable::from(vec![]);
    table.set("x", number(1.0));
    table.push_scope(ScopeKind::ConditionalBlock);
    *table.get_mut("x").unwrap() = string("new");
    assert!(table.get_mut("missing").is_none());
    table.pop_scope();
    assert_eq!(table.get("x"), Some(&string("new")));
}

#[test]
fn bindings_are_kept_under_the_identity_of_each_open_frame() {
    let mut table = SymbolTable::from(vec![("g", number(1.0))]);
    assert!(table.scoped_table.contains_key(&0));
    table.push_scope(ScopeKind::ConditionalBlock);
    table.push_scope(ScopeKind::FunctionBlock);
    table.set("inner", number(2.0));
    let mut ids: Vec<usize> = table.scoped_table.keys().copied().collect();
    ids.sort();
    assert_eq!(ids, vec![0, 1, 2]);
    assert_eq!(table.scoped_table[&2].mapping.len(), 1);
    assert_eq!(table.scoped_table[&1].mapping.len(), 0);
    table.pop_scope();
    assert!(!table.scoped_table.contains_key(&2));
    table.push_scope(ScopeKind::ForBlock);
    assert!(table.scoped_table.contains_key(&3));
    assert!(!table.scoped_table.contains_key(&2));
    table.pop_scope();
    table.pop_scope();
    let ids: Vec<usize> = table.scoped_table.keys().copied().collect();
    assert_eq!(ids, vec![0]);
    assert_eq!(table.get("g"), Some(&number(1.0)));
    assert_eq!(table.get("inner"), None);
}

#[test]
fn writing_through_the_place_of_a_name_assigns_to_it() {
    let mut table = SymbolTable::from(vec![]);
    table.set("x", number(1.0));
    table.push_scope(ScopeKind::ConditionalBlock);
    table.set("y", number(5.0));
    match table.get_mut("x") {
        Some(slot) => *slot = number(2.0),
        None => panic!("x is bound"),
    }
    assert!(table.get_mut("absent").is_none());
    assert_eq!(table.get("x"), Some(&number(2.0)));
    assert_eq!(table.get("y"), Some(&number(5.0)));
    assert_eq!(table.scoped_table[&0].mapping.len(), 1);
    table.pop_scope();
    assert_eq!(table.get("x"), Some(&number(2.0)));
    assert_eq!(table.get("y"), None);
}
