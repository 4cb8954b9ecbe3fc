//! Layout reporting for the memory wrapper types: a transparent wrapper
//! that links to what it wraps, and an uninitialised union over it.

use vstd::prelude::*;
use vstd::string::StringExecFns;

use crate::typeset::{ComputeTypeSet, TypeNode};
use crate::{contains_name, graph_insert, lemma_graph_insert, Field, FieldView};
use crate::{TypeGraph, TypeLayout};
use crate::{TypeLayoutGraph, TypeLayoutGraphView, TypeLayoutInfo, TypeLayoutInfoView};
use crate::{TypeStructure, TypeStructureView};

verus! {

impl<T: TypeLayout> TypeLayout for core::mem::ManuallyDrop<T> {
    open spec fn spec_layout() -> TypeLayoutInfoView {
        TypeLayoutInfoView {
            name: "core::mem::ManuallyDrop<"@ + T::spec_layout().name + ">"@,
            size: vstd::layout::size_of::<core::mem::ManuallyDrop<T>>(),
            alignment: vstd::layout::align_of::<core::mem::ManuallyDrop<T>>(),
            structure: TypeStructureView::Struct {
                repr: "transparent"@,
                fields: seq![
                    FieldView { name: "value"@, offset: 0, ty: T::spec_layout().name },
                ],
            },
        }
    }

    fn type_layout() -> (r: TypeLayoutInfo) {
        let inner = T::type_layout();
        let mut name = "core::mem::ManuallyDrop<".to_owned();
        name.append(inner.name.as_str());
        name.append(">");
        let mut fields: Vec<Field> = Vec::new();
        fields.push(Field { name: "value".to_owned(), offset: 0, ty: inner.name });
        let r = TypeLayoutInfo {
            name,
            size: core::mem::size_of::<core::mem::ManuallyDrop<T>>(),
            alignment: core::mem::align_of::<core::mem::ManuallyDrop<T>>(),
            structure: TypeStructure::Struct { repr: "transparent".to_owned(), fields },
        };
        proof {
            assert(r@ =~= Self::spec_layout());
        }
        r
    }
}

impl<T: TypeGraph> TypeGraph for core::mem::ManuallyDrop<T> {
    open spec fn spec_populate(g: TypeLayoutGraphView) -> TypeLayoutGraphView {
        if contains_name(g.tys, Self::spec_layout().name) {
            g
        } else {
            T::spec_populate(graph_insert(g, Self::spec_layout()))
        }
    }

    proof fn populate_extends(g: TypeLayoutGraphView) {
        if !contains_name(g.tys, Self::spec_layout().name) {
            lemma_graph_insert(g, Self::spec_layout());
            T::populate_extends(graph_insert(g, Self::spec_layout()));
        }
    }

    fn populate_graph(graph: &mut TypeLayoutGraph) {
        proof {
            if !contains_name(old(graph)@.tys, Self::spec_layout().name) {
                lemma_graph_insert(old(graph)@, Self::spec_layout());
                T::populate_extends(graph_insert(old(graph)@, Self::spec_layout()));
            }
        }
        if graph.insert(Self::type_layout()) {
            T::populate_graph(graph);
        }
    }
}

impl<T: ComputeTypeSet> ComputeTypeSet for core::mem::ManuallyDrop<T> {
    open spec fn spec_links() -> Seq<Seq<char>> {
        seq![T::spec_layout().name]
    }

    fn type_node() -> (n: TypeNode) {
        let inner = T::type_layout();
        let mut links: Vec<String> = Vec::new();
        links.push(inner.name);
        let n = TypeNode { info: Self::type_layout(), links };
        proof {
            assert(n@.links =~= Self::spec_links());
        }
        n
    }
}

impl<T: TypeLayout> TypeLayout for core::mem::MaybeUninit<T> {
    open spec fn spec_layout() -> TypeLayoutInfoView {
        TypeLayoutInfoView {
            name: "core::mem::MaybeUninit<"@ + T::spec_layout().name + ">"@,
            size: vstd::layout::size_of::<core::mem::MaybeUninit<T>>(),
            alignment: vstd::layout::align_of::<core::mem::MaybeUninit<T>>(),
            structure: TypeStructureView::Union {
                repr: "transparent"@,
                fields: seq![
                    FieldView { name: "uninit"@, offset: 0, ty: "()"@ },
                    FieldView {
                        name: "value"@,
                        offset: 0,
                        ty: <core::mem::ManuallyDrop<T> as TypeLayout>::spec_layout().name,
                    },
                ],
            },
        }
    }

    fn type_layout() -> (r: TypeLayoutInfo) {
        let inner = T::type_layout();
        let wrapped = <core::mem::ManuallyDrop<T> as TypeLayout>::type_layout();
        let mut name = "core::mem::MaybeUninit<".to_owned();
        name.append(inner.name.as_str());
        name.append(">");
        let mut fields: Vec<Field> = Vec::new();
        fields.push(Field { name: "uninit".to_owned(), offset: 0, ty: "()".to_owned() });
        fields.push(Field { name: "value".to_owned(), offset: 0, ty: wrapped.name });
        let r = TypeLayoutInfo {
            name,
            size: core::mem::size_of::<core::mem::MaybeUninit<T>>(),
            alignment: core::mem::align_of::<core::mem::MaybeUninit<T>>(),
            structure: TypeStructure::Union { repr: "transparent".to_owned(), fields },
        };
        proof {
            assert(r@ =~= Self::spec_layout());
        }
        r
    }
}

impl<T: TypeGraph> TypeGraph for core::mem::MaybeUninit<T> {
    open spec fn spec_populate(g: TypeLayoutGraphView) -> TypeLayoutGraphView {
        if contains_name(g.tys, Self::spec_layout().name) {
            g
        } else {
            <core::mem::ManuallyDrop<T> as TypeGraph>::spec_populate(
                <() as TypeGraph>::spec_populate(graph_insert(g, Self::spec_layout())),
            )
        }
    }

    proof fn populate_extends(g: TypeLayoutGraphView) {
        if !contains_name(g.tys, Self::spec_layout().name) {
            let g1 = graph_insert(g, Self::spec_layout());
            lemma_graph_insert(g, Self::spec_layout());
            <() as TypeGraph>::populate_extends(g1);
            <core::mem::ManuallyDrop<T> as TypeGraph>::populate_extends(
                <() as TypeGraph>::spec_populate(g1),
            );
        }
    }

    fn populate_graph(graph: &mut TypeLayoutGraph) {
        proof {
            if !contains_name(old(graph)@.tys, Self::spec_layout().name) {
                let g1 = graph_insert(old(graph)@, Self::spec_layout());
                lemma_graph_insert(old(graph)@, Self::spec_layout());
                <() as TypeGraph>::populate_extends(g1);
                <core::mem::ManuallyDrop<T> as TypeGraph>::populate_extends(
                    <() as TypeGraph>::spec_populate(g1),
                );
            }
        }
        if graph.insert(Self::type_layout()) {
            <() as TypeGraph>::populate_graph(graph);
            <core::mem::ManuallyDrop<T> as TypeGraph>::populate_graph(graph);
        }
    }
}

impl<T: ComputeTypeSet> ComputeTypeSet for core::mem::MaybeUninit<T> {
    open spec fn spec_links() -> Seq<Seq<char>> {
        seq![
            "()"@,
            <core::mem::ManuallyDrop<T> as TypeLayout>::spec_layout().name,
        ]
    }

    fn type_node() -> (n: TypeNode) {
        let wrapped = <core::mem::ManuallyDrop<T> as TypeLayout>::type_layout();
        let mut links: Vec<String> = Vec::new();
        links.push("()".to_owned());
        links.push(wrapped.name);
        let n = TypeNode { info: Self::type_layout(), links };
        proof {
            assert(n@.links =~= Self::spec_links());
        }
        n
    }
}

} // verus!
