use masonry::tree_arena::TreeArena;

/// The forest
///
/// ```text
/// 1 ── 2 ── 4
///  │    └── 5
///  └── 3
/// 6
/// ```
///
/// where the payload of each node is ten times its key.
fn sample() -> TreeArena<u64> {
    let mut arena: TreeArena<u64> = TreeArena::new();
    {
        let mut roots = arena.root_token_mut();
        roots.insert_child(1, 10);
        roots.insert_child(6, 60);
    }
    {
        let mut one = arena.find_mut(1).unwrap();
        one.children.insert_child(2, 20);
        one.children.insert_child(3, 30);
    }
    {
        let mut two = arena.find_mut(2).unwrap();
        two.children.insert_child(4, 40);
        two.children.insert_child(5, 50);
    }
    arena
}

#[test]
fn new_arena_holds_nothing() {
    let arena: TreeArena<u64> = TreeArena::new();
    assert!(arena.find(1).is_none());
    assert!(arena.find(0).is_none());
    assert!(!arena.root_token().has_child(1));
    assert_eq!(arena.roots.len(), 0);
}

#[test]
fn find_reaches_every_depth() {
    let arena = sample();
    for key in [1u64, 2, 3, 4, 5, 6] {
        let node = arena.find(key).unwrap();
        assert_eq!(*node.item, key * 10);
        assert_eq!(node.children.id, Some(key));
    }
    assert!(arena.find(7).is_none());
}

#[test]
fn find_reports_the_parent() {
    let arena = sample();
    assert_eq!(arena.find(1).unwrap().parent_id, None);
    assert_eq!(arena.find(6).unwrap().parent_id, None);
    assert_eq!(arena.find(2).unwrap().parent_id, Some(1));
    assert_eq!(arena.find(3).unwrap().parent_id, Some(1));
    assert_eq!(arena.find(4).unwrap().parent_id, Some(2));
    assert_eq!(arena.find(5).unwrap().parent_id, Some(2));
}

#[test]
fn children_keep_their_order() {
    let arena = sample();
    let one = arena.find(1).unwrap();
    let keys: Vec<u64> = one.children.children.iter().map(|n| n.id).collect();
    assert_eq!(keys, vec![2, 3]);
    let roots: Vec<u64> = arena.roots.iter().map(|n| n.id).collect();
    assert_eq!(roots, vec![1, 6]);
}

#[test]
fn children_handle_searches_only_below() {
    let arena = sample();
    let two = arena.find(2).unwrap();
    assert_eq!(*two.children.find(5).unwrap().item, 50);
    assert_eq!(two.children.find(5).unwrap().parent_id, Some(2));
    assert!(two.children.find(3).is_none());
    assert!(two.children.find(2).is_none());
    let one = arena.find(1).unwrap();
    assert_eq!(one.children.find(4).unwrap().parent_id, Some(2));
}

#[test]
fn get_child_looks_one_level_down() {
    let arena = sample();
    let one = arena.find(1).unwrap();
    assert!(one.children.has_child(2));
    assert!(one.children.has_child(3));
    assert!(!one.children.has_child(4));
    assert_eq!(*one.children.get_child(3).unwrap().item, 30);
    assert_eq!(one.children.get_child(3).unwrap().parent_id, Some(1));
    assert!(one.children.get_child(4).is_none());
    let roots = arena.root_token();
    assert!(roots.has_child(6));
    assert!(!roots.has_child(2));
    assert_eq!(roots.get_child(6).unwrap().parent_id, None);
}

#[test]
fn find_mut_changes_one_node_only() {
    let mut arena = sample();
    {
        let four = arena.find_mut(4).unwrap();
        assert_eq!(four.parent_id, Some(2));
        assert_eq!(*four.item, 40);
        *four.item = 41;
    }
    assert_eq!(*arena.find(4).unwrap().item, 41);
    for key in [1u64, 2, 3, 5, 6] {
        assert_eq!(*arena.find(key).unwrap().item, key * 10);
    }
}

#[test]
fn find_mut_gives_item_and_children_at_once() {
    let mut arena = sample();
    {
        let mut two = arena.find_mut(2).unwrap();
        let mut four = two.children.get_child_mut(4).unwrap();
        *two.item += *four.item;
        *four.item = 0;
        four.children.insert_child(7, 70);
    }
    assert_eq!(*arena.find(2).unwrap().item, 60);
    assert_eq!(*arena.find(4).unwrap().item, 0);
    assert_eq!(arena.find(7).unwrap().parent_id, Some(4));
}

#[test]
fn find_mut_of_an_absent_key_changes_nothing() {
    let mut arena = sample();
    assert!(arena.find_mut(9).is_none());
    for key in [1u64, 2, 3, 4, 5, 6] {
        assert_eq!(*arena.find(key).unwrap().item, key * 10);
    }
}

#[test]
fn mutable_children_handle_finds_and_reads() {
    let mut arena = sample();
    let mut one = arena.find_mut(1).unwrap();
    assert!(one.children.has_child(3));
    assert!(!one.children.has_child(5));
    assert_eq!(*one.children.get_child(2).unwrap().item, 20);
    assert_eq!(*one.children.find(5).unwrap().item, 50);
    assert!(one.children.find(6).is_none());
    {
        let five = one.children.find_mut(5).unwrap();
        assert_eq!(five.parent_id, Some(2));
        *five.item = 55;
    }
    assert!(one.children.find_mut(6).is_none());
    assert_eq!(*one.children.find(5).unwrap().item, 55);
}

#[test]
fn remove_child_takes_the_subtree_along() {
    let mut arena = sample();
    let taken = {
        let mut one = arena.find_mut(1).unwrap();
        one.children.remove_child(2)
    };
    assert_eq!(taken, Some(20));
    assert!(arena.find(2).is_none());
    assert!(arena.find(4).is_none());
    assert!(arena.find(5).is_none());
    assert_eq!(*arena.find(3).unwrap().item, 30);
    assert_eq!(arena.find(1).unwrap().children.children.len(), 1);
}

#[test]
fn remove_child_of_an_absent_key_is_none() {
    let mut arena = sample();
    let taken = {
        let mut one = arena.find_mut(1).unwrap();
        one.children.remove_child(4)
    };
    assert_eq!(taken, None);
    assert_eq!(*arena.find(4).unwrap().item, 40);
    assert_eq!(arena.root_token_mut().remove_child(6), Some(60));
    assert!(arena.find(6).is_none());
    assert_eq!(arena.roots.len(), 1);
}

#[test]
fn first_of_two_equal_keys_is_found() {
    let mut arena: TreeArena<u64> = TreeArena::new();
    {
        let mut roots = arena.root_token_mut();
        roots.insert_child(1, 10);
        roots.insert_child(2, 20);
    }
    arena.find_mut(1).unwrap().children.insert_child(2, 21);
    let found = arena.find(2).unwrap();
    assert_eq!(*found.item, 21);
    assert_eq!(found.parent_id, Some(1));
    *arena.find_mut(2).unwrap().item = 22;
    assert_eq!(*arena.root_token().get_child(2).unwrap().item, 20);
    assert_eq!(*arena.find(1).unwrap().children.get_child(2).unwrap().item, 22);
}
