//! Layout reporting for the marker types: zero-sized types whose layouts
//! carry no fields.

use vstd::prelude::*;
use vstd::string::StringExecFns;

use crate::typeset::{ComputeTypeSet, TypeNode};
use crate::{graph_insert, lemma_graph_insert, TypeGraph, TypeLayout};
use crate::{TypeLayoutGraph, TypeLayoutGraphView, TypeLayoutInfo, TypeLayoutInfoView};
use crate::{TypeStructure, TypeStructureView};

verus! {

/// Declares `core::marker::PhantomPinned` to the verifier; the library
/// only reports the type's layout.
#[verifier::external_type_specification]
pub struct ExPhantomPinned(core::marker::PhantomPinned);

impl<T: TypeLayout> TypeLayout for core::marker::PhantomData<T> {
    open spec fn spec_layout() -> TypeLayoutInfoView {
        TypeLayoutInfoView {
            name: "core::marker::PhantomData<"@ + T::spec_layout().name + ">"@,
            size: vstd::layout::size_of::<core::marker::PhantomData<T>>(),
            alignment: vstd::layout::align_of::<core::marker::PhantomData<T>>(),
            structure: TypeStructureView::Struct { repr: ""@, fields: Seq::empty() },
        }
    }

    fn type_layout() -> (r: TypeLayoutInfo) {
        let inner = T::type_layout();
        let mut name = "core::marker::PhantomData<".to_owned();
        name.append(inner.name.as_str());
        name.append(">");
        let r = TypeLayoutInfo {
            name,
            size: core::mem::size_of::<core::marker::PhantomData<T>>(),
            alignment: core::mem::align_of::<core::marker::PhantomData<T>>(),
            structure: TypeStructure::Struct { repr: "".to_owned(), fields: Vec::new() },
        };
        proof {
            assert(r@ =~= Self::spec_layout());
        }
        r
    }
}

impl<T: TypeGraph> TypeGraph for core::marker::PhantomData<T> {
    open spec fn spec_populate(g: TypeLayoutGraphView) -> TypeLayoutGraphView {
        graph_insert(g, Self::spec_layout())
    }

    proof fn populate_extends(g: TypeLayoutGraphView) {
        lemma_graph_insert(g, Self::spec_layout());
    }

    fn populate_graph(graph: &mut TypeLayoutGraph) {
        let _ = graph.insert(Self::type_layout());
    }
}

impl TypeLayout for core::marker::PhantomPinned {
    open spec fn spec_layout() -> TypeLayoutInfoView {
        TypeLayoutInfoView {
            name: "core::marker::PhantomPinned"@,
            size: vstd::layout::size_of::<core::marker::PhantomPinned>(),
            alignment: vstd::layout::align_of::<core::marker::PhantomPinned>(),
            structure: TypeStructureView::Struct { repr: ""@, fields: Seq::empty() },
        }
    }

    fn type_layout() -> (r: TypeLayoutInfo) {
        let r = TypeLayoutInfo {
            name: "core::marker::PhantomPinned".to_owned(),
            size: core::mem::size_of::<core::marker::PhantomPinned>(),
            alignment: core::mem::align_of::<core::marker::PhantomPinned>(),
            structure: TypeStructure::Struct { repr: "".to_owned(), fields: Vec::new() },
        };
        proof {
            assert(r@ =~= Self::spec_layout());
        }
        r
    }
}

impl TypeGraph for core::marker::PhantomPinned {
    open spec fn spec_populate(g: TypeLayoutGraphView) -> TypeLayoutGraphView {
        graph_insert(g, Self::spec_layout())
    }

    proof fn populate_extends(g: TypeLayoutGraphView) {
        lemma_graph_insert(g, Self::spec_layout());
    }

    fn populate_graph(graph: &mut TypeLayoutGraph) {
        let _ = graph.insert(Self::type_layout());
    }
}

impl<T: ComputeTypeSet> ComputeTypeSet for core::marker::PhantomData<T> {
    open spec fn spec_links() -> Seq<Seq<char>> {
        Seq::empty()
    }

    fn type_node() -> (n: TypeNode) {
        let n = TypeNode { info: Self::type_layout(), links: Vec::new() };
        proof {
            assert(n@.links =~= Self::spec_links());
        }
        n
    }
}

impl ComputeTypeSet for core::marker::PhantomPinned {
    open spec fn spec_links() -> Seq<Seq<char>> {
        Seq::empty()
    }

    fn type_node() -> (n: TypeNode) {
        let n = TypeNode { info: Self::type_layout(), links: Vec::new() };
        proof {
            assert(n@.links =~= Self::spec_links());
        }
        n
    }
}

} // verus!
