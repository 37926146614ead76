use std::collections::hash_map::RandomState;
use std::collections::HashSet;

use sht::bindings::{BindError, BindNode, Bindings};
use sht::input::{Input, InputBuffer, KeyCode, KeyModifiers};

fn key(c: char) -> Input {
    Input(KeyCode::Char(c), KeyModifiers::none())
}

fn example() -> Bindings<usize> {
    let mut b = Bindings::empty();
    b.insert(key('a'), 1).unwrap();
    b.insert_chorded(&[key('b'), key('c')], 2).unwrap();
    b.insert_chorded(&[key('b'), key('d'), key('e')], 3).unwrap();
    b
}

#[test]
fn matches_single() {
    let b = example();
    assert_eq!(Some(&1), b.get_single(key('a')));
}

#[test]
fn matches_chord() {
    let b = example();

    assert!(matches!(b.get(&[key('b')]), Some(&BindNode::Chord { .. })));

    assert_eq!(
        Some(&2),
        b.get(&[key('b'), key('c')]).and_then(BindNode::action)
    );

    assert_eq!(
        Some(&3),
        b.get(&[key('b'), key('d'), key('e')])
            .and_then(BindNode::action)
    );
}

#[test]
fn unbound_paths_are_not_found() {
    let b = example();
    assert!(b.get(&[]).is_none());
    assert!(b.get(&[key('x')]).is_none());
    assert!(b.get(&[key('b'), key('x')]).is_none());
    assert!(b.get(&[key('b'), key('d'), key('x')]).is_none());
    assert_eq!(None, b.get_single(key('b')));
}

#[test]
fn action_is_returned_with_inputs_left_over() {
    let b = example();
    assert_eq!(
        Some(&1),
        b.get(&[key('a'), key('z'), key('z')]).and_then(BindNode::action)
    );
}

#[test]
fn bound_input_is_not_rebound() {
    let mut b = example();
    assert_eq!(Err(BindError::AlreadyBound), b.insert(key('a'), 9));
    assert_eq!(Err(BindError::AlreadyBound), b.insert(key('b'), 9));
    assert_eq!(Some(&1), b.get_single(key('a')));
    assert_eq!(
        Err(BindError::AlreadyBound),
        b.insert_chorded(&[key('b'), key('c')], 9)
    );
    assert_eq!(
        Err(BindError::AlreadyBound),
        b.insert_chorded(&[key('b'), key('d')], 9)
    );
    assert_eq!(Err(BindError::EmptyPath), b.insert_chorded(&[], 9));
}

#[test]
fn chord_through_action_is_refused() {
    let mut b = example();
    assert_eq!(
        Err(BindError::Conflict),
        b.insert_chorded(&[key('a'), key('b')], 9)
    );
    assert!(matches!(
        b.create_chord("x", &[key('a'), key('b')]),
        Err(BindError::Conflict)
    ));
    assert!(matches!(
        b.create_chord("x", &[key('a')]),
        Err(BindError::Conflict)
    ));
    assert!(matches!(b.create_chord("x", &[]), Err(BindError::EmptyPath)));
    assert_eq!(Some(&1), b.get_single(key('a')));
}

#[test]
fn create_chord_names_the_last_node_only() {
    let mut b: Bindings<usize> = Bindings::empty();
    {
        let below = b.create_chord("Delete", &[key('x'), key('y')]).unwrap();
        below.insert(key('c'), 7).unwrap();
    }
    match b.get(&[key('x')]) {
        Some(BindNode::Chord { name, .. }) => assert_eq!("", name),
        _ => panic!("no chord"),
    }
    match b.get(&[key('x'), key('y')]) {
        Some(BindNode::Chord { name, .. }) => assert_eq!("Delete", name),
        _ => panic!("no chord"),
    }
    assert_eq!(
        Some(&7),
        b.get(&[key('x'), key('y'), key('c')]).and_then(BindNode::action)
    );
    // an existing chord keeps its name and its bindings
    {
        let below = b.create_chord("Other", &[key('x'), key('y')]).unwrap();
        assert_eq!(Some(&7), below.get_single(key('c')));
    }
    match b.get(&[key('x'), key('y')]) {
        Some(BindNode::Chord { name, .. }) => assert_eq!("Delete", name),
        _ => panic!("no chord"),
    }
}

#[test]
fn scenario_single_binding_and_chord() {
    let mut b: Bindings<usize> = Bindings::empty();
    b.insert(key('a'), 1).unwrap();
    b.insert_chorded(&[key('b'), key('c')], 2).unwrap();
    assert_eq!(Some(&1), b.get(&[key('a')]).and_then(BindNode::action));
    assert!(matches!(b.get(&[key('b')]), Some(&BindNode::Chord { .. })));
    assert_eq!(
        Some(&2),
        b.get(&[key('b'), key('c')]).and_then(BindNode::action)
    );
    assert!(b.get(&[key('b'), key('x')]).is_none());
}

#[test]
fn input_buffer_collects_inputs() {
    let mut buf = InputBuffer::new();
    assert!(buf.is_empty());
    buf.push(key('a'));
    buf.push(key('b'));
    assert!(!buf.is_empty());
    assert_eq!(InputBuffer::from_inputs(&[key('a'), key('b')]), buf);
    assert_eq!(Some(key('b')), buf.pop());
    buf.clear();
    assert!(buf.is_empty());
    assert_eq!(None, buf.pop());
    let set: HashSet<InputBuffer, RandomState> = HashSet::from_iter(vec![buf]);
    assert_eq!(1, set.len());
}

#[test]
fn iters_all() {
    let b = example();
    let actions: Vec<_> = b.iter();

    let expected: Vec<(InputBuffer, &usize)> = vec![
        (InputBuffer::from_inputs(&[key('a')]), &1),
        (InputBuffer::from_inputs(&[key('b'), key('c')]), &2),
        (
            InputBuffer::from_inputs(&[key('b'), key('d'), key('e')]),
            &3,
        ),
    ];

    assert_eq!(expected.len(), actions.len());
    let expected_set: HashSet<_, RandomState> = HashSet::from_iter(expected);
    let actions_set: HashSet<_, RandomState> = HashSet::from_iter(actions);
    assert_eq!(expected_set, actions_set)
}

#[test]
fn iter_lists_shallow_before_deep() {
    let mut b: Bindings<usize> = Bindings::empty();
    b.insert_chorded(&[key('x'), key('y'), key('z')], 3).unwrap();
    b.insert_chorded(&[key('x'), key('a')], 2).unwrap();
    b.insert(key('q'), 1).unwrap();
    b.insert_chorded(&[key('w'), key('v')], 4).unwrap();
    let items = b.iter();
    assert_eq!(4, items.len());
    let place = |path: &[Input]| {
        items
            .iter()
            .position(|(p, _)| *p == InputBuffer::from_inputs(path))
            .unwrap()
    };
    assert_eq!(0, place(&[key('q')]));
    assert!(place(&[key('x'), key('a')]) < place(&[key('x'), key('y'), key('z')]));
    assert_eq!(vec![&1, &2, &3, &4], b.actions());
}

#[test]
fn singles_are_the_direct_actions() {
    let b = example();
    let singles = b.singles();
    assert_eq!(vec![(&key('a'), &1)], singles);
    let below = b.get(&[key('b')]).and_then(BindNode::bindings).unwrap();
    assert_eq!(vec![(&key('c'), &2)], below.singles());
}

#[test]
fn empty_tree_lists_nothing() {
    let b: Bindings<usize> = Bindings::empty();
    assert!(b.iter().is_empty());
    assert!(b.singles().is_empty());
    assert!(b.actions().is_empty());
    assert!(b.get(&[key('a')]).is_none());
}
