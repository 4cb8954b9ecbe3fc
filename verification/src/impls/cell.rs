//! Layout reporting for the cell types: transparent wrappers whose layouts
//! link to what they wrap.

use vstd::prelude::*;
use vstd::string::StringExecFns;

use crate::typeset::{ComputeTypeSet, TypeNode};
use crate::{contains_name, graph_insert, lemma_graph_insert, Field, FieldView};
use crate::{TypeGraph, TypeLayout};
use crate::{TypeLayoutGraph, TypeLayoutGraphView, TypeLayoutInfo, TypeLayoutInfoView};
use crate::{TypeStructure, TypeStructureView};

verus! {

/// Declares `core::cell::UnsafeCell` to the verifier; the library never
/// reads or writes a value of it, it only reports the type's layout.
#[verifier::external_type_specification]
#[verifier::external_body]
#[verifier::reject_recursive_types(T)]
pub struct ExUnsafeCell<T>(core::cell::UnsafeCell<T>)
where
    T: ?Sized,
;

/// Declares `core::cell::Cell` to the verifier; the library never reads or
/// writes a value of it, it only reports the type's layout.
#[verifier::external_type_specification]
#[verifier::external_body]
#[verifier::reject_recursive_types(T)]
pub struct ExCell<T>(core::cell::Cell<T>)
where
    T: ?Sized,
;

impl<T: TypeLayout> TypeLayout for core::cell::UnsafeCell<T> {
    open spec fn spec_layout() -> TypeLayoutInfoView {
        TypeLayoutInfoView {
            name: "core::cell::UnsafeCell<"@ + T::spec_layout().name + ">"@,
            size: vstd::layout::size_of::<core::cell::UnsafeCell<T>>(),
            alignment: vstd::layout::align_of::<core::cell::UnsafeCell<T>>(),
            structure: TypeStructureView::Struct {
                repr: "no_nieche,transparent"@,
                fields: seq![
                    FieldView { name: "value"@, offset: 0, ty: T::spec_layout().name },
                ],
            },
        }
    }

    fn type_layout() -> (r: TypeLayoutInfo) {
        let inner = T::type_layout();
        let mut name = "core::cell::UnsafeCell<".to_owned();
        name.append(inner.name.as_str());
        name.append(">");
        let mut fields: Vec<Field> = Vec::new();
        fields.push(Field { name: "value".to_owned(), offset: 0, ty: inner.name });
        let r = TypeLayoutInfo {
            name,
            size: core::mem::size_of::<core::cell::UnsafeCell<T>>(),
            alignment: core::mem::align_of::<core::cell::UnsafeCell<T>>(),
            structure: TypeStructure::Struct {
                repr: "no_nieche,transparent".to_owned(),
                fields,
            },
        };
        proof {
            assert(r@ =~= Self::spec_layout());
        }
        r
    }
}

impl<T: TypeGraph> TypeGraph for core::cell::UnsafeCell<T> {
    open spec fn spec_populate(g: TypeLayoutGraphView) -> TypeLayoutGraphView {
        if contains_name(g.tys, Self::spec_layout().name) {
            g
        } else {
            T::spec_populate(graph_insert(g, Self::spec_layout()))
        }
    }

    proof fn populate_extends(g: TypeLayoutGraphView) {
        if !contains_name(g.tys, Self::spec_layout().name) {
            lemma_graph_insert(g, Self::spec_layout());
            T::populate_extends(graph_insert(g, Self::spec_layout()));
        }
    }

    fn populate_graph(graph: &mut TypeLayoutGraph) {
        proof {
            if !contains_name(old(graph)@.tys, Self::spec_layout().name) {
                lemma_graph_insert(old(graph)@, Self::spec_layout());
                T::populate_extends(graph_insert(old(graph)@, Self::spec_layout()));
            }
        }
        if graph.insert(Self::type_layout()) {
            T::populate_graph(graph);
        }
    }
}

impl<T: TypeLayout> TypeLayout for core::cell::Cell<T> {
    open spec fn spec_layout() -> TypeLayoutInfoView {
        TypeLayoutInfoView {
            name: "core::cell::Cell<"@ + T::spec_layout().name + ">"@,
            size: vstd::layout::size_of::<core::cell::Cell<T>>(),
            alignment: vstd::layout::align_of::<core::cell::Cell<T>>(),
            structure: TypeStructureView::Struct {
                repr: "transparent"@,
                fields: seq![
                    FieldView {
                        name: "value"@,
                        offset: 0,
                        ty: <core::cell::UnsafeCell<T> as TypeLayout>::spec_layout().name,
                    },
                ],
            },
        }
    }

    fn type_layout() -> (r: TypeLayoutInfo) {
        let inner = T::type_layout();
        let wrapped = <core::cell::UnsafeCell<T> as TypeLayout>::type_layout();
        let mut name = "core::cell::Cell<".to_owned();
        name.append(inner.name.as_str());
        name.append(">");
        let mut fields: Vec<Field> = Vec::new();
        fields.push(Field { name: "value".to_owned(), offset: 0, ty: wrapped.name });
        let r = TypeLayoutInfo {
            name,
            size: core::mem::size_of::<core::cell::Cell<T>>(),
            alignment: core::mem::align_of::<core::cell::Cell<T>>(),
            structure: TypeStructure::Struct { repr: "transparent".to_owned(), fields },
        };
        proof {
            assert(r@ =~= Self::spec_layout());
        }
        r
    }
}

impl<T: TypeGraph> TypeGraph for core::cell::Cell<T> {
    open spec fn spec_populate(g: TypeLayoutGraphView) -> TypeLayoutGraphView {
        if contains_name(g.tys, Self::spec_layout().name) {
            g
        } else {
            <core::cell::UnsafeCell<T> as TypeGraph>::spec_populate(
                graph_insert(g, Self::spec_layout()),
            )
        }
    }

    proof fn populate_extends(g: TypeLayoutGraphView) {
        if !contains_name(g.tys, Self::spec_layout().name) {
            lemma_graph_insert(g, Self::spec_layout());
            <core::cell::UnsafeCell<T> as TypeGraph>::populate_extends(
                graph_insert(g, Self::spec_layout()),
            );
        }
    }

    fn populate_graph(graph: &mut TypeLayoutGraph) {
        proof {
            if !contains_name(old(graph)@.tys, Self::spec_layout().name) {
                lemma_graph_insert(old(graph)@, Self::spec_layout());
                <core::cell::UnsafeCell<T> as TypeGraph>::populate_extends(
                    graph_insert(old(graph)@, Self::spec_layout()),
                );
            }
        }
        if graph.insert(Self::type_layout()) {
            <core::cell::UnsafeCell<T> as TypeGraph>::populate_graph(graph);
        }
    }
}

impl<T: ComputeTypeSet> ComputeTypeSet for core::cell::UnsafeCell<T> {
    open spec fn spec_links() -> Seq<Seq<char>> {
        seq![T::spec_layout().name]
    }

    fn type_node() -> (n: TypeNode) {
        let inner = T::type_layout();
        let mut links: Vec<String> = Vec::new();
        links.push(inner.name);
        let n = TypeNode { info: Self::type_layout(), links };
        proof {
            assert(n@.links =~= Self::spec_links());
        }
        n
    }
}

impl<T: ComputeTypeSet> ComputeTypeSet for core::cell::Cell<T> {
    open spec fn spec_links() -> Seq<Seq<char>> {
        seq![<core::cell::UnsafeCell<T> as TypeLayout>::spec_layout().name]
    }

    fn type_node() -> (n: TypeNode) {
        let wrapped = <core::cell::UnsafeCell<T> as TypeLayout>::type_layout();
        let mut links: Vec<String> = Vec::new();
        links.push(wrapped.name);
        let n = TypeNode { info: Self::type_layout(), links };
        proof {
            assert(n@.links =~= Self::spec_links());
        }
        n
    }
}

} // verus!
