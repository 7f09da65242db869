use deet::diff::{diff_lines, lcs, DiffLine};
use deet::generic_list;
use deet::grid::Grid;
use deet::linked_list;
use deet::warmup::{add_n, add_n_inplace, dedup};

#[test]
fn test_add_n() {
    assert_eq!(add_n(vec![1], 2), vec![3]);
}

#[test]
fn test_add_n_inplace() {
    let mut v = vec![1];
    add_n_inplace(&mut v, 2);
    assert_eq!(v, vec![3]);
}

#[test]
fn test_dedup() {
    let mut v = vec![3, 1, 0, 1, 4, 4];
    dedup(&mut v);
    assert_eq!(v, vec![3, 1, 0, 4]);
}

#[test]
fn test_lcs() {
    let mut expected = Grid::new(5, 4);
    expected.set(1, 1, 1).unwrap();
    expected.set(1, 2, 1).unwrap();
    expected.set(1, 3, 1).unwrap();
    expected.set(2, 1, 1).unwrap();
    expected.set(2, 2, 1).unwrap();
    expected.set(2, 3, 2).unwrap();
    expected.set(3, 1, 1).unwrap();
    expected.set(3, 2, 1).unwrap();
    expected.set(3, 3, 2).unwrap();
    expected.set(4, 1, 1).unwrap();
    expected.set(4, 2, 2).unwrap();
    expected.set(4, 3, 2).unwrap();

    println!("Expected:");
    expected.display();
    let result = lcs(
        &"abcd".chars().map(|c| c.to_string()).collect(),
        &"adb".chars().map(|c| c.to_string()).collect(),
    );
    println!("Got:");
    result.display();
    assert_eq!(result.size(), expected.size());
    for row in 0..expected.size().0 {
        for col in 0..expected.size().1 {
            assert_eq!(result.get(row, col), expected.get(row, col));
        }
    }
}

#[test]
fn grid_rejects_out_of_bounds_accesses() {
    let mut grid = Grid::new(2, 3);
    assert_eq!(grid.size(), (2, 3));
    assert_eq!(grid.get(0, 0), Some(0));
    assert_eq!(grid.get(2, 0), None);
    assert_eq!(grid.get(0, 3), None);
    assert!(grid.set(1, 2, 9).is_ok());
    assert_eq!(grid.get(1, 2), Some(9));
    assert!(grid.set(2, 0, 1).is_err());
    assert!(grid.set(0, 3, 1).is_err());
    assert_eq!(grid.get(0, 0), Some(0));
}

#[test]
fn grid_display_renders_rows() {
    let mut grid = Grid::new(1, 2);
    grid.set(0, 1, 10).unwrap();
    assert_eq!(grid.display(), "0 10 \n");
}

#[test]
fn diff_lines_reports_additions_and_removals() {
    let lines1: Vec<String> = vec![String::from("a"), String::from("b")];
    let lines2: Vec<String> = vec![String::from("a"), String::from("c")];
    let table = lcs(&lines1, &lines2);
    let report = diff_lines(&table, &lines1, &lines2, lines1.len(), lines2.len());
    assert!(matches!(report[0], DiffLine::Blank));
    let mut same = 0;
    let mut added = 0;
    let mut removed = 0;
    for line in &report {
        match line {
            DiffLine::Same(s) => {
                assert_eq!(s, "a");
                same += 1;
            }
            DiffLine::Added(s) => {
                assert_eq!(s, "c");
                added += 1;
            }
            DiffLine::Removed(s) => {
                assert_eq!(s, "b");
                removed += 1;
            }
            DiffLine::Blank => {}
        }
    }
    assert_eq!((same, added, removed), (1, 1, 1));
}

#[test]
fn u32_list_pushes_to_the_front_and_pops_in_reverse() {
    let mut list = linked_list::LinkedList::new();
    assert!(list.empty());
    assert_eq!(list.get_size(), 0);
    for i in 1..=10 {
        list.push(i);
    }
    assert_eq!(list.get_size(), 10);
    assert!(!list.empty());
    assert_eq!(list.pop(), Some(10));
    assert_eq!(list.pop(), Some(9));
    assert_eq!(list.get_size(), 8);
    while !list.empty() {
        list.pop();
    }
    assert_eq!(list.get_size(), 0);
    assert_eq!(list.pop(), None);
}

#[test]
fn generic_list_holds_any_value_type() {
    let mut list: generic_list::LinkedList<String> = generic_list::LinkedList::new();
    list.push(String::from("abcd"));
    list.push(String::from("efgh"));
    assert_eq!(list.get_size(), 2);
    assert_eq!(list.pop(), Some(String::from("efgh")));
    assert_eq!(list.pop(), Some(String::from("abcd")));
    assert_eq!(list.pop(), None);
}

#[test]
fn generic_list_to_vec_preserves_order() {
    let mut list: generic_list::LinkedList<u32> = generic_list::LinkedList::new();
    for i in 1..=3 {
        list.push(i);
    }
    assert_eq!(list.to_vec(), vec![3, 2, 1]);
}

#[test]
fn generic_list_equality_compares_values_in_order() {
    let mut list1: generic_list::LinkedList<u32> = generic_list::LinkedList::new();
    let mut list2: generic_list::LinkedList<u32> = generic_list::LinkedList::new();
    for i in 1..=10 {
        list1.push(i);
        list2.push(i);
    }
    assert!(list1 == list2);
    list2.pop();
    assert!(list1 != list2);
    list2.push(100);
    assert!(list1 != list2);
    list2.pop();
    list2.push(10);
    assert!(list1 == list2);
}

#[test]
fn u32_list_display_renders_front_first() {
    let mut list = linked_list::LinkedList::new();
    assert_eq!(list.display(), "");
    list.push(1);
    list.push(23);
    assert_eq!(list.display(), " 23 1");
}

#[test]
fn generic_list_clone_is_a_deep_equal_copy() {
    let mut list1: generic_list::LinkedList<u32> = generic_list::LinkedList::new();
    for i in 1..=10 {
        list1.push(i);
    }
    let mut list2 = list1.clone();
    assert!(list1 == list2);
    assert_eq!(list2.pop(), Some(10));
    assert_eq!(list1.get_size(), 10);
    assert_eq!(list2.get_size(), 9);
    assert!(list1 != list2);
}
