//! Layout reporting for the primitive types: each reports itself by name,
//! with its size and alignment, and links to nothing.

use vstd::prelude::*;

use crate::typeset::{ComputeTypeSet, TypeNode};
use crate::{graph_insert, lemma_graph_insert, TypeGraph, TypeLayout};
use crate::{TypeLayoutGraph, TypeLayoutGraphView, TypeLayoutInfo, TypeLayoutInfoView};
use crate::{TypeStructure, TypeStructureView};

verus! {

/// The layout a primitive type reports: nothing but a name, a size and an
/// alignment.
pub open spec fn spec_primitive_layout(name: Seq<char>, size: nat, alignment: nat) -> TypeLayoutInfoView {
    TypeLayoutInfoView { name, size, alignment, structure: TypeStructureView::Primitive }
}

/// Builds the layout of a primitive type.
fn primitive_layout(name: &str, size: usize, alignment: usize) -> (r: TypeLayoutInfo)
    ensures
        r@ == spec_primitive_layout(name@, size as nat, alignment as nat),
{
    TypeLayoutInfo {
        name: name.to_owned(),
        size,
        alignment,
        structure: TypeStructure::Primitive,
    }
}

impl TypeLayout for i8 {
    open spec fn spec_layout() -> TypeLayoutInfoView {
        spec_primitive_layout(
            "i8"@,
            vstd::layout::size_of::<i8>(),
            vstd::layout::align_of::<i8>(),
        )
    }

    fn type_layout() -> (r: TypeLayoutInfo) {
        primitive_layout("i8", core::mem::size_of::<i8>(), core::mem::align_of::<i8>())
    }
}

impl TypeGraph for i8 {
    open spec fn spec_populate(g: TypeLayoutGraphView) -> TypeLayoutGraphView {
        graph_insert(g, Self::spec_layout())
    }

    proof fn populate_extends(g: TypeLayoutGraphView) {
        lemma_graph_insert(g, Self::spec_layout());
    }

    fn populate_graph(graph: &mut TypeLayoutGraph) {
        let _ = graph.insert(Self::type_layout());
    }
}

impl TypeLayout for i16 {
    open spec fn spec_layout() -> TypeLayoutInfoView {
        spec_primitive_layout(
            "i16"@,
            vstd::layout::size_of::<i16>(),
            vstd::layout::align_of::<i16>(),
        )
    }

    fn type_layout() -> (r: TypeLayoutInfo) {
        primitive_layout("i16", core::mem::size_of::<i16>(), core::mem::align_of::<i16>())
    }
}

impl TypeGraph for i16 {
    open spec fn spec_populate(g: TypeLayoutGraphView) -> TypeLayoutGraphView {
        graph_insert(g, Self::spec_layout())
    }

    proof fn populate_extends(g: TypeLayoutGraphView) {
        lemma_graph_insert(g, Self::spec_layout());
    }

    fn populate_graph(graph: &mut TypeLayoutGraph) {
        let _ = graph.insert(Self::type_layout());
    }
}

impl TypeLayout for i32 {
    open spec fn spec_layout() -> TypeLayoutInfoView {
        spec_primitive_layout(
            "i32"@,
            vstd::layout::size_of::<i32>(),
            vstd::layout::align_of::<i32>(),
        )
    }

    fn type_layout() -> (r: TypeLayoutInfo) {
        primitive_layout("i32", core::mem::size_of::<i32>(), core::mem::align_of::<i32>())
    }
}

impl TypeGraph for i32 {
    open spec fn spec_populate(g: TypeLayoutGraphView) -> TypeLayoutGraphView {
        graph_insert(g, Self::spec_layout())
    }

    proof fn populate_extends(g: TypeLayoutGraphView) {
        lemma_graph_insert(g, Self::spec_layout());
    }

    fn populate_graph(graph: &mut TypeLayoutGraph) {
        let _ = graph.insert(Self::type_layout());
    }
}

impl TypeLayout for i64 {
    open spec fn spec_layout() -> TypeLayoutInfoView {
        spec_primitive_layout(
            "i64"@,
            vstd::layout::size_of::<i64>(),
            vstd::layout::align_of::<i64>(),
        )
    }

    fn type_layout() -> (r: TypeLayoutInfo) {
        primitive_layout("i64", core::mem::size_of::<i64>(), core::mem::align_of::<i64>())
    }
}

impl TypeGraph for i64 {
    open spec fn spec_populate(g: TypeLayoutGraphView) -> TypeLayoutGraphView {
        graph_insert(g, Self::spec_layout())
    }

    proof fn populate_extends(g: TypeLayoutGraphView) {
        lemma_graph_insert(g, Self::spec_layout());
    }

    fn populate_graph(graph: &mut TypeLayoutGraph) {
        let _ = graph.insert(Self::type_layout());
    }
}

impl TypeLayout for i128 {
    open spec fn spec_layout() -> TypeLayoutInfoView {
        spec_primitive_layout(
            "i128"@,
            vstd::layout::size_of::<i128>(),
            vstd::layout::align_of::<i128>(),
        )
    }

    fn type_layout() -> (r: TypeLayoutInfo) {
        primitive_layout("i128", core::mem::size_of::<i128>(), core::mem::align_of::<i128>())
    }
}

impl TypeGraph for i128 {
    open spec fn spec_populate(g: TypeLayoutGraphView) -> TypeLayoutGraphView {
        graph_insert(g, Self::spec_layout())
    }

    proof fn populate_extends(g: TypeLayoutGraphView) {
        lemma_graph_insert(g, Self::spec_layout());
    }

    fn populate_graph(graph: &mut TypeLayoutGraph) {
        let _ = graph.insert(Self::type_layout());
    }
}

impl TypeLayout for isize {
    open spec fn spec_layout() -> TypeLayoutInfoView {
        spec_primitive_layout(
            "isize"@,
            vstd::layout::size_of::<isize>(),
            vstd::layout::align_of::<isize>(),
        )
    }

    fn type_layout() -> (r: TypeLayoutInfo) {
        primitive_layout("isize", core::mem::size_of::<isize>(), core::mem::align_of::<isize>())
    }
}

impl TypeGraph for isize {
    open spec fn spec_populate(g: TypeLayoutGraphView) -> TypeLayoutGraphView {
        graph_insert(g, Self::spec_layout())
    }

    proof fn populate_extends(g: TypeLayoutGraphView) {
        lemma_graph_insert(g, Self::spec_layout());
    }

    fn populate_graph(graph: &mut TypeLayoutGraph) {
        let _ = graph.insert(Self::type_layout());
    }
}

impl TypeLayout for u8 {
    open spec fn spec_layout() -> TypeLayoutInfoView {
        spec_primitive_layout(
            "u8"@,
            vstd::layout::size_of::<u8>(),
            vstd::layout::align_of::<u8>(),
        )
    }

    fn type_layout() -> (r: TypeLayoutInfo) {
        primitive_layout("u8", core::mem::size_of::<u8>(), core::mem::align_of::<u8>())
    }
}

impl TypeGraph for u8 {
    open spec fn spec_populate(g: TypeLayoutGraphView) -> TypeLayoutGraphView {
        graph_insert(g, Self::spec_layout())
    }

    proof fn populate_extends(g: TypeLayoutGraphView) {
        lemma_graph_insert(g, Self::spec_layout());
    }

    fn populate_graph(graph: &mut TypeLayoutGraph) {
        let _ = graph.insert(Self::type_layout());
    }
}

impl TypeLayout for u16 {
    open spec fn spec_layout() -> TypeLayoutInfoView {
        spec_primitive_layout(
            "u16"@,
            vstd::layout::size_of::<u16>(),
            vstd::layout::align_of::<u16>(),
        )
    }

    fn type_layout() -> (r: TypeLayoutInfo) {
        primitive_layout("u16", core::mem::size_of::<u16>(), core::mem::align_of::<u16>())
    }
}

impl TypeGraph for u16 {
    open spec fn spec_populate(g: TypeLayoutGraphView) -> TypeLayoutGraphView {
        graph_insert(g, Self::spec_layout())
    }

    proof fn populate_extends(g: TypeLayoutGraphView) {
        lemma_graph_insert(g, Self::spec_layout());
    }

    fn populate_graph(graph: &mut TypeLayoutGraph) {
        let _ = graph.insert(Self::type_layout());
    }
}

impl TypeLayout for u32 {
    open spec fn spec_layout() -> TypeLayoutInfoView {
        spec_primitive_layout(
            "u32"@,
            vstd::layout::size_of::<u32>(),
            vstd::layout::align_of::<u32>(),
        )
    }

    fn type_layout() -> (r: TypeLayoutInfo) {
        primitive_layout("u32", core::mem::size_of::<u32>(), core::mem::align_of::<u32>())
    }
}

impl TypeGraph for u32 {
    open spec fn spec_populate(g: TypeLayoutGraphView) -> TypeLayoutGraphView {
        graph_insert(g, Self::spec_layout())
    }

    proof fn populate_extends(g: TypeLayoutGraphView) {
        lemma_graph_insert(g, Self::spec_layout());
    }

    fn populate_graph(graph: &mut TypeLayoutGraph) {
        let _ = graph.insert(Self::type_layout());
    }
}

impl TypeLayout for u64 {
    open spec fn spec_layout() -> TypeLayoutInfoView {
        spec_primitive_layout(
            "u64"@,
            vstd::layout::size_of::<u64>(),
            vstd::layout::align_of::<u64>(),
        )
    }

    fn type_layout() -> (r: TypeLayoutInfo) {
        primitive_layout("u64", core::mem::size_of::<u64>(), core::mem::align_of::<u64>())
    }
}

impl TypeGraph for u64 {
    open spec fn spec_populate(g: TypeLayoutGraphView) -> TypeLayoutGraphView {
        graph_insert(g, Self::spec_layout())
    }

    proof fn populate_extends(g: TypeLayoutGraphView) {
        lemma_graph_insert(g, Self::spec_layout());
    }

    fn populate_graph(graph: &mut TypeLayoutGraph) {
        let _ = graph.insert(Self::type_layout());
    }
}

impl TypeLayout for u128 {
    open spec fn spec_layout() -> TypeLayoutInfoView {
        spec_primitive_layout(
            "u128"@,
            vstd::layout::size_of::<u128>(),
            vstd::layout::align_of::<u128>(),
        )
    }

    fn type_layout() -> (r: TypeLayoutInfo) {
        primitive_layout("u128", core::mem::size_of::<u128>(), core::mem::align_of::<u128>())
    }
}

impl TypeGraph for u128 {
    open spec fn spec_populate(g: TypeLayoutGraphView) -> TypeLayoutGraphView {
        graph_insert(g, Self::spec_layout())
    }

    proof fn populate_extends(g: TypeLayoutGraphView) {
        lemma_graph_insert(g, Self::spec_layout());
    }

    fn populate_graph(graph: &mut TypeLayoutGraph) {
        let _ = graph.insert(Self::type_layout());
    }
}

impl TypeLayout for usize {
    open spec fn spec_layout() -> TypeLayoutInfoView {
        spec_primitive_layout(
            "usize"@,
            vstd::layout::size_of::<usize>(),
            vstd::layout::align_of::<usize>(),
        )
    }

    fn type_layout() -> (r: TypeLayoutInfo) {
        primitive_layout("usize", core::mem::size_of::<usize>(), core::mem::align_of::<usize>())
    }
}

impl TypeGraph for usize {
    open spec fn spec_populate(g: TypeLayoutGraphView) -> TypeLayoutGraphView {
        graph_insert(g, Self::spec_layout())
    }

    proof fn populate_extends(g: TypeLayoutGraphView) {
        lemma_graph_insert(g, Self::spec_layout());
    }

    fn populate_graph(graph: &mut TypeLayoutGraph) {
        let _ = graph.insert(Self::type_layout());
    }
}

impl TypeLayout for char {
    open spec fn spec_layout() -> TypeLayoutInfoView {
        spec_primitive_layout(
            "char"@,
            vstd::layout::size_of::<char>(),
            vstd::layout::align_of::<char>(),
        )
    }

    fn type_layout() -> (r: TypeLayoutInfo) {
        primitive_layout("char", core::mem::size_of::<char>(), core::mem::align_of::<char>())
    }
}

impl TypeGraph for char {
    open spec fn spec_populate(g: TypeLayoutGraphView) -> TypeLayoutGraphView {
        graph_insert(g, Self::spec_layout())
    }

    proof fn populate_extends(g: TypeLayoutGraphView) {
        lemma_graph_insert(g, Self::spec_layout());
    }

    fn populate_graph(graph: &mut TypeLayoutGraph) {
        let _ = graph.insert(Self::type_layout());
    }
}

impl TypeLayout for bool {
    open spec fn spec_layout() -> TypeLayoutInfoView {
        spec_primitive_layout(
            "bool"@,
            vstd::layout::size_of::<bool>(),
            vstd::layout::align_of::<bool>(),
        )
    }

    fn type_layout() -> (r: TypeLayoutInfo) {
        primitive_layout("bool", core::mem::size_of::<bool>(), core::mem::align_of::<bool>())
    }
}

impl TypeGraph for bool {
    open spec fn spec_populate(g: TypeLayoutGraphView) -> TypeLayoutGraphView {
        graph_insert(g, Self::spec_layout())
    }

    proof fn populate_extends(g: TypeLayoutGraphView) {
        lemma_graph_insert(g, Self::spec_layout());
    }

    fn populate_graph(graph: &mut TypeLayoutGraph) {
        let _ = graph.insert(Self::type_layout());
    }
}

impl TypeLayout for () {
    open spec fn spec_layout() -> TypeLayoutInfoView {
        spec_primitive_layout(
            "()"@,
            vstd::layout::size_of::<()>(),
            vstd::layout::align_of::<()>(),
        )
    }

    fn type_layout() -> (r: TypeLayoutInfo) {
        primitive_layout("()", core::mem::size_of::<()>(), core::mem::align_of::<()>())
    }
}

impl TypeGraph for () {
    open spec fn spec_populate(g: TypeLayoutGraphView) -> TypeLayoutGraphView {
        graph_insert(g, Self::spec_layout())
    }

    proof fn populate_extends(g: TypeLayoutGraphView) {
        lemma_graph_insert(g, Self::spec_layout());
    }

    fn populate_graph(graph: &mut TypeLayoutGraph) {
        let _ = graph.insert(Self::type_layout());
    }
}

impl ComputeTypeSet for i8 {
    open spec fn spec_links() -> Seq<Seq<char>> {
        Seq::empty()
    }

    fn type_node() -> (n: TypeNode) {
        let n = TypeNode { info: Self::type_layout(), links: Vec::new() };
        proof {
            assert(n@.links =~= Self::spec_links());
        }
        n
    }
}

impl ComputeTypeSet for i16 {
    open spec fn spec_links() -> Seq<Seq<char>> {
        Seq::empty()
    }

    fn type_node() -> (n: TypeNode) {
        let n = TypeNode { info: Self::type_layout(), links: Vec::new() };
        proof {
            assert(n@.links =~= Self::spec_links());
        }
        n
    }
}

impl ComputeTypeSet for i32 {
    open spec fn spec_links() -> Seq<Seq<char>> {
        Seq::empty()
    }

    fn type_node() -> (n: TypeNode) {
        let n = TypeNode { info: Self::type_layout(), links: Vec::new() };
        proof {
            assert(n@.links =~= Self::spec_links());
        }
        n
    }
}

impl ComputeTypeSet for i64 {
    open spec fn spec_links() -> Seq<Seq<char>> {
        Seq::empty()
    }

    fn type_node() -> (n: TypeNode) {
        let n = TypeNode { info: Self::type_layout(), links: Vec::new() };
        proof {
            assert(n@.links =~= Self::spec_links());
        }
        n
    }
}

impl ComputeTypeSet for i128 {
    open spec fn spec_links() -> Seq<Seq<char>> {
        Seq::empty()
    }

    fn type_node() -> (n: TypeNode) {
        let n = TypeNode { info: Self::type_layout(), links: Vec::new() };
        proof {
            assert(n@.links =~= Self::spec_links());
        }
        n
    }
}

impl ComputeTypeSet for isize {
    open spec fn spec_links() -> Seq<Seq<char>> {
        Seq::empty()
    }

    fn type_node() -> (n: TypeNode) {
        let n = TypeNode { info: Self::type_layout(), links: Vec::new() };
        proof {
            assert(n@.links =~= Self::spec_links());
        }
        n
    }
}

impl ComputeTypeSet for u8 {
    open spec fn spec_links() -> Seq<Seq<char>> {
        Seq::empty()
    }

    fn type_node() -> (n: TypeNode) {
        let n = TypeNode { info: Self::type_layout(), links: Vec::new() };
        proof {
            assert(n@.links =~= Self::spec_links());
        }
        n
    }
}

impl ComputeTypeSet for u16 {
    open spec fn spec_links() -> Seq<Seq<char>> {
        Seq::empty()
    }

    fn type_node() -> (n: TypeNode) {
        let n = TypeNode { info: Self::type_layout(), links: Vec::new() };
        proof {
            assert(n@.links =~= Self::spec_links());
        }
        n
    }
}

impl ComputeTypeSet for u32 {
    open spec fn spec_links() -> Seq<Seq<char>> {
        Seq::empty()
    }

    fn type_node() -> (n: TypeNode) {
        let n = TypeNode { info: Self::type_layout(), links: Vec::new() };
        proof {
            assert(n@.links =~= Self::spec_links());
        }
        n
    }
}

impl ComputeTypeSet for u64 {
    open spec fn spec_links() -> Seq<Seq<char>> {
        Seq::empty()
    }

    fn type_node() -> (n: TypeNode) {
        let n = TypeNode { info: Self::type_layout(), links: Vec::new() };
        proof {
            assert(n@.links =~= Self::spec_links());
        }
        n
    }
}

impl ComputeTypeSet for u128 {
    open spec fn spec_links() -> Seq<Seq<char>> {
        Seq::empty()
    }

    fn type_node() -> (n: TypeNode) {
        let n = TypeNode { info: Self::type_layout(), links: Vec::new() };
        proof {
            assert(n@.links =~= Self::spec_links());
        }
        n
    }
}

impl ComputeTypeSet for usize {
    open spec fn spec_links() -> Seq<Seq<char>> {
        Seq::empty()
    }

    fn type_node() -> (n: TypeNode) {
        let n = TypeNode { info: Self::type_layout(), links: Vec::new() };
        proof {
            assert(n@.links =~= Self::spec_links());
        }
        n
    }
}

impl ComputeTypeSet for char {
    open spec fn spec_links() -> Seq<Seq<char>> {
        Seq::empty()
    }

    fn type_node() -> (n: TypeNode) {
        let n = TypeNode { info: Self::type_layout(), links: Vec::new() };
        proof {
            assert(n@.links =~= Self::spec_links());
        }
        n
    }
}

impl ComputeTypeSet for bool {
    open spec fn spec_links() -> Seq<Seq<char>> {
        Seq::empty()
    }

    fn type_node() -> (n: TypeNode) {
        let n = TypeNode { info: Self::type_layout(), links: Vec::new() };
        proof {
            assert(n@.links =~= Self::spec_links());
        }
        n
    }
}

impl ComputeTypeSet for () {
    open spec fn spec_links() -> Seq<Seq<char>> {
        Seq::empty()
    }

    fn type_node() -> (n: TypeNode) {
        let n = TypeNode { info: Self::type_layout(), links: Vec::new() };
        proof {
            assert(n@.links =~= Self::spec_links());
        }
        n
    }
}

} // verus!
