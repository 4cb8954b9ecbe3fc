use const_type_layout::typeset::{
    contains_layout_name, str_eq, typeset_tys, typset_len, ComputeSet, ComputeTypeSet, Cons,
    Empty, ExpandTypeSet, TypeNode,
};
use const_type_layout::{TypeLayoutInfo, TypeStructure};

fn node(name: &str, links: &[&str]) -> TypeNode {
    TypeNode {
        info: TypeLayoutInfo {
            name: String::from(name),
            size: 0,
            alignment: 1,
            structure: TypeStructure::Primitive,
        },
        links: links.iter().map(|l| String::from(*l)).collect(),
    }
}

#[test]
fn str_eq_accepts_equal_strings() {
    assert!(str_eq("abc", "abc"));
    assert!(str_eq("", ""));
    assert!(str_eq("héllo", "héllo"));
}

#[test]
fn str_eq_rejects_different_strings() {
    assert!(!str_eq("abc", "abd"));
    assert!(!str_eq("abc", "ab"));
    assert!(!str_eq("héllo", "hello"));
    assert!(!str_eq("", "a"));
}

#[test]
fn contains_layout_name_scans_by_name() {
    let tys = vec![
        TypeLayoutInfo {
            name: String::from("u8"),
            size: 1,
            alignment: 1,
            structure: TypeStructure::Primitive,
        },
    ];
    assert!(contains_layout_name(&tys, "u8"));
    assert!(!contains_layout_name(&tys, "u16"));
    assert!(!contains_layout_name(&Vec::new(), "u8"));
}

#[test]
fn a_type_without_links_expands_to_itself() {
    let table = vec![node("A", &[])];
    assert_eq!(typset_len(&table, "A"), 1);
    let out = typeset_tys(&table, "A");
    assert_eq!(out.len(), 1);
    assert_eq!(out[0].name, "A");
}

#[test]
fn expansion_follows_links() {
    let table = vec![node("A", &["B"]), node("B", &["C"]), node("C", &[])];
    assert_eq!(typset_len(&table, "A"), 3);
    assert_eq!(typset_len(&table, "B"), 2);
    assert_eq!(typset_len(&table, "C"), 1);
}

#[test]
fn expansion_terminates_on_a_cycle() {
    // A links to B, and B back to A: the expansion stops once both are
    // listed.
    let table = vec![node("A", &["B"]), node("B", &["A"])];
    let out = typeset_tys(&table, "A");
    let names: Vec<&str> = out.iter().map(|t| t.name.as_str()).collect();
    assert_eq!(names, vec!["A", "B"]);
}

#[test]
fn expansion_terminates_on_a_self_loop() {
    let table = vec![node("A", &["A"])];
    assert_eq!(typset_len(&table, "A"), 1);
}

#[test]
fn expansion_deduplicates_a_diamond() {
    // A links to B and C, which both link to D: D is listed once.
    let table = vec![
        node("A", &["B", "C"]),
        node("B", &["D"]),
        node("C", &["D"]),
        node("D", &[]),
    ];
    let out = typeset_tys(&table, "A");
    assert_eq!(out.len(), 4);
    let mut names: Vec<&str> = out.iter().map(|t| t.name.as_str()).collect();
    assert_eq!(names[0], "A");
    names.sort();
    assert_eq!(names, vec!["A", "B", "C", "D"]);
}

#[test]
fn expansion_ignores_unreachable_entries() {
    let table = vec![node("A", &["B"]), node("B", &[]), node("X", &["A"])];
    assert_eq!(typset_len(&table, "A"), 2);
    let out = typeset_tys(&table, "A");
    assert!(!out.iter().any(|t| t.name == "X"));
}

#[test]
fn expansion_starts_with_the_root() {
    let table = vec![node("B", &[]), node("A", &["B"])];
    let out = typeset_tys(&table, "A");
    assert_eq!(out[0].name, "A");
}

#[test]
fn type_list_lengths() {
    assert_eq!(Empty::len(), 0);
    assert_eq!(<Cons<u8, Empty>>::len(), 1);
    assert_eq!(<Cons<u8, Cons<bool, Empty>>>::len(), 2);
    assert_eq!(<Cons<Cons<u8, Empty>, Cons<bool, Cons<(), Empty>>>>::len(), 3);
}

#[test]
fn type_list_emptiness() {
    assert!(Empty::is_empty());
    assert!(!<Cons<u8, Empty>>::is_empty());
    assert!(!<Cons<u8, Cons<bool, Empty>>>::is_empty());
}

#[test]
fn primitive_nodes_link_to_nothing() {
    let n = <u8 as ComputeTypeSet>::type_node();
    assert_eq!(n.info.name, "u8");
    assert!(n.links.is_empty());
}

#[test]
fn wrapper_nodes_link_to_what_they_wrap() {
    let n = <core::cell::Cell<u8> as ComputeTypeSet>::type_node();
    assert_eq!(n.info.name, "core::cell::Cell<u8>");
    assert_eq!(n.links, vec![String::from("core::cell::UnsafeCell<u8>")]);

    let m = <core::mem::MaybeUninit<u8> as ComputeTypeSet>::type_node();
    assert_eq!(m.info.name, "core::mem::MaybeUninit<u8>");
    assert_eq!(
        m.links,
        vec![String::from("()"), String::from("core::mem::ManuallyDrop<u8>")]
    );
}

#[test]
fn a_table_of_nodes_expands_like_the_graph() {
    let table = vec![
        <core::mem::MaybeUninit<u8> as ComputeTypeSet>::type_node(),
        <core::mem::ManuallyDrop<u8> as ComputeTypeSet>::type_node(),
        <() as ComputeTypeSet>::type_node(),
        <u8 as ComputeTypeSet>::type_node(),
    ];
    assert_eq!(typset_len(&table, "core::mem::MaybeUninit<u8>"), 4);
    assert_eq!(typset_len(&table, "core::mem::ManuallyDrop<u8>"), 2);
    let out = typeset_tys(&table, "core::mem::MaybeUninit<u8>");
    assert_eq!(out[0].name, "core::mem::MaybeUninit<u8>");
}
