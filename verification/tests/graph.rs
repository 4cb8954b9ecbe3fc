use const_type_layout::{
    serialise_type_graph, serialised_type_graph_len, Field, TypeGraphLayout, TypeLayout,
    TypeLayoutGraph, TypeLayoutInfo, TypeStructure,
};

fn primitive_info(name: &str, size: usize, alignment: usize) -> TypeLayoutInfo {
    TypeLayoutInfo {
        name: String::from(name),
        size,
        alignment,
        structure: TypeStructure::Primitive,
    }
}

#[test]
fn new_graph_is_empty_and_rooted() {
    let g = TypeLayoutGraph::new::<u8>();
    assert_eq!(g.ty, "u8");
    assert_eq!(g.tys.len(), 0);
}

#[test]
fn insert_records_a_new_name() {
    let mut g = TypeLayoutGraph::new::<u8>();
    assert!(g.insert(primitive_info("u8", 1, 1)));
    assert_eq!(g.tys.len(), 1);
    assert_eq!(g.tys[0].name, "u8");
}

#[test]
fn insert_skips_a_recorded_name() {
    let mut g = TypeLayoutGraph::new::<u8>();
    assert!(g.insert(primitive_info("u8", 1, 1)));
    assert!(!g.insert(primitive_info("u8", 1, 1)));
    assert_eq!(g.tys.len(), 1);
}

#[test]
fn insert_tells_names_apart() {
    let mut g = TypeLayoutGraph::new::<u8>();
    assert!(g.insert(primitive_info("u8", 1, 1)));
    assert!(g.insert(primitive_info("u16", 2, 2)));
    assert!(g.insert(primitive_info("u32", 4, 4)));
    assert!(!g.insert(primitive_info("u16", 2, 2)));
    assert_eq!(g.tys.len(), 3);
}

#[test]
fn primitive_layouts_report_size_and_alignment() {
    let u8_layout = <u8 as TypeLayout>::type_layout();
    assert_eq!(u8_layout.name, "u8");
    assert_eq!(u8_layout.size, 1);
    assert_eq!(u8_layout.alignment, 1);
    assert!(matches!(u8_layout.structure, TypeStructure::Primitive));

    let u32_layout = <u32 as TypeLayout>::type_layout();
    assert_eq!(u32_layout.name, "u32");
    assert_eq!(u32_layout.size, 4);

    let unit_layout = <() as TypeLayout>::type_layout();
    assert_eq!(unit_layout.name, "()");
    assert_eq!(unit_layout.size, 0);
    assert_eq!(unit_layout.alignment, 1);

    let bool_layout = <bool as TypeLayout>::type_layout();
    assert_eq!(bool_layout.name, "bool");
    assert_eq!(bool_layout.size, 1);
}

#[test]
fn primitive_type_graph_holds_one_layout() {
    let g = <u8 as TypeGraphLayout>::type_graph();
    assert_eq!(g.ty, "u8");
    assert_eq!(g.tys.len(), 1);
    assert_eq!(g.tys[0].name, "u8");
}

#[test]
fn cell_type_graph_expands_to_the_wrapped_type() {
    let g = <core::cell::Cell<u8> as TypeGraphLayout>::type_graph();
    assert_eq!(g.ty, "core::cell::Cell<u8>");
    let names: Vec<&str> = g.tys.iter().map(|t| t.name.as_str()).collect();
    assert_eq!(
        names,
        vec!["core::cell::Cell<u8>", "core::cell::UnsafeCell<u8>", "u8"]
    );
}

#[test]
fn unsafe_cell_layout_links_to_the_wrapped_type() {
    let layout = <core::cell::UnsafeCell<u16> as TypeLayout>::type_layout();
    assert_eq!(layout.name, "core::cell::UnsafeCell<u16>");
    match layout.structure {
        TypeStructure::Struct { repr, fields } => {
            assert_eq!(repr, "no_nieche,transparent");
            assert_eq!(fields.len(), 1);
            assert_eq!(fields[0].name, "value");
            assert_eq!(fields[0].offset, 0);
            assert_eq!(fields[0].ty, "u16");
        },
        _ => panic!("expected a struct structure"),
    }
}

#[test]
fn phantom_data_type_graph_holds_itself_only() {
    let g = <core::marker::PhantomData<u64> as TypeGraphLayout>::type_graph();
    assert_eq!(g.ty, "core::marker::PhantomData<u64>");
    assert_eq!(g.tys.len(), 1);
    assert_eq!(g.tys[0].size, 0);
}

#[test]
fn manually_drop_type_graph_expands_to_the_wrapped_type() {
    let g = <core::mem::ManuallyDrop<u8> as TypeGraphLayout>::type_graph();
    let names: Vec<&str> = g.tys.iter().map(|t| t.name.as_str()).collect();
    assert_eq!(names, vec!["core::mem::ManuallyDrop<u8>", "u8"]);
}

#[test]
fn maybe_uninit_type_graph_expands_to_both_union_arms() {
    let g = <core::mem::MaybeUninit<u16> as TypeGraphLayout>::type_graph();
    let names: Vec<&str> = g.tys.iter().map(|t| t.name.as_str()).collect();
    assert_eq!(
        names,
        vec!["core::mem::MaybeUninit<u16>", "()", "core::mem::ManuallyDrop<u16>", "u16"]
    );
}

#[test]
fn phantom_pinned_reports_an_empty_struct() {
    let layout = <core::marker::PhantomPinned as TypeLayout>::type_layout();
    assert_eq!(layout.name, "core::marker::PhantomPinned");
    assert_eq!(layout.size, 0);
    match layout.structure {
        TypeStructure::Struct { repr, fields } => {
            assert_eq!(repr, "");
            assert!(fields.is_empty());
        },
        _ => panic!("expected a struct structure"),
    }
}

#[test]
fn serialised_u8_graph_bytes() {
    let g = <u8 as TypeGraphLayout>::type_graph();
    // body: "u8" as [2, b'u', b'8'], one layout: its name again, size 1,
    // alignment 1, the primitive tag 3; ten bytes, so the total is eleven
    // and its prefix one byte.
    let expected = vec![11u8, 2, 117, 56, 1, 2, 117, 56, 1, 1, 3];
    assert_eq!(g.serialise(), expected);
    assert_eq!(g.serialised_len(), 11);
}

#[test]
fn generic_serialisation_matches_the_graph_methods() {
    let g = <bool as TypeGraphLayout>::type_graph();
    assert_eq!(serialise_type_graph::<bool>(), g.serialise());
    assert_eq!(serialised_type_graph_len::<bool>(), g.serialised_len());
    assert_eq!(serialise_type_graph::<bool>().len(), serialised_type_graph_len::<bool>());
}

#[test]
fn serialisation_compares_graphs() {
    // Equal graphs serialise to equal bytes; graphs that differ in any
    // recorded detail serialise to different bytes.
    let mut g1 = TypeLayoutGraph::new::<u32>();
    assert!(g1.insert(primitive_info("u32", 4, 4)));
    let mut g2 = TypeLayoutGraph::new::<u32>();
    assert!(g2.insert(primitive_info("u32", 4, 4)));
    assert_eq!(g1.serialise(), g2.serialise());

    // A drifted alignment shows up in the bytes.
    let mut g3 = TypeLayoutGraph::new::<u32>();
    assert!(g3.insert(primitive_info("u32", 4, 2)));
    assert_ne!(g1.serialise(), g3.serialise());
}

#[test]
fn total_length_prefix_grows_at_the_boundary() {
    // An empty graph's body is its length-prefixed root name plus a zero
    // entry count. A 124-byte name gives a 126-byte body, whose total of
    // 127 still fits a one-byte prefix; one more body byte pushes the
    // total to 129, behind a two-byte prefix.
    let short = TypeLayoutGraph { ty: "x".repeat(124), tys: Vec::new() };
    assert_eq!(short.serialised_len(), 127);
    assert_eq!(short.serialise().len(), 127);
    let long = TypeLayoutGraph { ty: "x".repeat(125), tys: Vec::new() };
    assert_eq!(long.serialised_len(), 129);
    assert_eq!(long.serialise().len(), 129);
}

#[test]
fn serialised_graph_starts_with_its_own_total_length() {
    let mut g = TypeLayoutGraph::new::<u32>();
    assert!(g.insert(primitive_info("u32", 4, 4)));
    assert!(g.insert(TypeLayoutInfo {
        name: String::from("Pair"),
        size: 8,
        alignment: 4,
        structure: TypeStructure::Struct {
            repr: String::from("C"),
            fields: vec![
                Field { name: String::from("a"), offset: 0, ty: String::from("u32") },
                Field { name: String::from("b"), offset: 4, ty: String::from("u32") },
            ],
        },
    }));
    let bytes = g.serialise();
    assert_eq!(bytes.len(), g.serialised_len());
    // The buffer's first varint encodes the buffer's own length.
    let mut value: usize = 0;
    let mut shift = 0u32;
    let mut used = 0;
    for b in bytes.iter() {
        used += 1;
        value += ((b & 0x7f) as usize) << shift;
        if b & 0x80 == 0 {
            break;
        }
        shift += 7;
    }
    assert!(used >= 1);
    assert_eq!(value, bytes.len());
}
