//! Type layout descriptions as plain data: the name, size and alignment of a
//! type, its structure (struct, union, enum, primitive, array, reference or
//! pointer), and a graph of all the layouts a type transitively references.
//! The graph deduplicates entries by type name, and can be serialised into a
//! length-prefixed byte buffer for comparison across compilation units.

use core::cmp::Ordering;

use vstd::prelude::*;
use vstd::string::StringExecFns;
use vstd::utf8::encode_utf8;

pub mod impls;
pub mod ser;
pub mod typeset;

verus! {

/// How many distinct type layouts a graph can hold.
pub const CAPACITY: usize = 1024;

/// A field of a struct, union or enum variant: its name, its byte offset
/// inside the containing type, and the name of its type.
pub struct Field {
    pub name: String,
    pub offset: usize,
    pub ty: String,
}

/// The mathematical model of a [`Field`].
#[verifier::ext_equal]
pub struct FieldView {
    pub name: Seq<char>,
    pub offset: nat,
    pub ty: Seq<char>,
}

impl View for Field {
    type V = FieldView;

    open spec fn view(&self) -> FieldView {
        FieldView { name: self.name@, offset: self.offset as nat, ty: self.ty@ }
    }
}

impl Field {
    /// Compares two fields as [`spec_field_cmp`] states.
    pub fn cmp(&self, other: &Field) -> (r: Ordering)
        ensures
            r == spec_field_cmp(self@, other@),
    {
        if self.offset < other.offset {
            Ordering::Less
        } else if self.offset > other.offset {
            Ordering::Greater
        } else {
            let by_name = str_cmp(self.name.as_str(), other.name.as_str());
            match by_name {
                Ordering::Equal => str_cmp(self.ty.as_str(), other.ty.as_str()),
                _ => by_name,
            }
        }
    }

    /// Compares two fields; fields are totally ordered, so the order always
    /// exists.
    pub fn partial_cmp(&self, other: &Field) -> (r: Option<Ordering>)
        ensures
            r == Some(spec_field_cmp(self@, other@)),
    {
        Some(self.cmp(other))
    }
}

impl PartialEq for Field {
    /// Two fields are equal when their names, offsets and type names are.
    fn eq(&self, other: &Field) -> (r: bool) {
        typeset::str_eq(self.name.as_str(), other.name.as_str()) && self.offset == other.offset
            && typeset::str_eq(self.ty.as_str(), other.ty.as_str())
    }
}

impl vstd::std_specs::cmp::PartialEqSpecImpl for Field {
    open spec fn obeys_eq_spec() -> bool {
        true
    }

    open spec fn eq_spec(&self, other: &Field) -> bool {
        self@ == other@
    }
}

impl Eq for Field {}

/// An enum variant's discriminant, as its big-endian byte representation.
pub struct Discriminant {
    pub big_endian_bytes: Vec<u8>,
}

impl View for Discriminant {
    type V = Seq<u8>;

    open spec fn view(&self) -> Seq<u8> {
        self.big_endian_bytes@
    }
}

/// The lower-case hex digit for `d`.
pub open spec fn spec_hex_digit(d: nat) -> char {
    if d == 0 {
        '0'
    } else if d == 1 {
        '1'
    } else if d == 2 {
        '2'
    } else if d == 3 {
        '3'
    } else if d == 4 {
        '4'
    } else if d == 5 {
        '5'
    } else if d == 6 {
        '6'
    } else if d == 7 {
        '7'
    } else if d == 8 {
        '8'
    } else if d == 9 {
        '9'
    } else if d == 10 {
        'a'
    } else if d == 11 {
        'b'
    } else if d == 12 {
        'c'
    } else if d == 13 {
        'd'
    } else if d == 14 {
        'e'
    } else {
        'f'
    }
}

/// The hex digits of the byte `b`, without a leading zero.
pub open spec fn spec_hex_byte(b: u8) -> Seq<char> {
    if b < 16 {
        seq![spec_hex_digit(b as nat)]
    } else {
        seq![spec_hex_digit((b / 16) as nat), spec_hex_digit((b % 16) as nat)]
    }
}

/// The hex digits of every byte in `bytes` but the zero ones, in order.
pub open spec fn spec_hex_bytes(bytes: Seq<u8>) -> Seq<char>
    decreases bytes.len(),
{
    if bytes.len() == 0 {
        Seq::empty()
    } else if bytes.last() == 0 {
        spec_hex_bytes(bytes.drop_last())
    } else {
        spec_hex_bytes(bytes.drop_last()) + spec_hex_byte(bytes.last())
    }
}

/// Whether every byte of `bytes` is zero.
pub open spec fn spec_all_zero(bytes: Seq<u8>) -> bool {
    forall|i: int| 0 <= i < bytes.len() ==> bytes[i] == 0
}

/// The text a discriminant reads as: `0x`, then the hex digits of its
/// non-zero bytes, or a single `0` when no byte is set.
pub open spec fn spec_discriminant_text(bytes: Seq<u8>) -> Seq<char> {
    if spec_all_zero(bytes) {
        "0x"@ + seq!['0']
    } else {
        "0x"@ + spec_hex_bytes(bytes)
    }
}

/// The lower-case hex digit for `d`, as text.
fn hex_digit_str(d: u8) -> (r: &'static str)
    requires
        d < 16,
    ensures
        r@ == seq![spec_hex_digit(d as nat)],
{
    proof {
        reveal_strlit("0");
        reveal_strlit("1");
        reveal_strlit("2");
        reveal_strlit("3");
        reveal_strlit("4");
        reveal_strlit("5");
        reveal_strlit("6");
        reveal_strlit("7");
        reveal_strlit("8");
        reveal_strlit("9");
        reveal_strlit("a");
        reveal_strlit("b");
        reveal_strlit("c");
        reveal_strlit("d");
        reveal_strlit("e");
        reveal_strlit("f");
    }
    if d == 0 {
        "0"
    } else if d == 1 {
        "1"
    } else if d == 2 {
        "2"
    } else if d == 3 {
        "3"
    } else if d == 4 {
        "4"
    } else if d == 5 {
        "5"
    } else if d == 6 {
        "6"
    } else if d == 7 {
        "7"
    } else if d == 8 {
        "8"
    } else if d == 9 {
        "9"
    } else if d == 10 {
        "a"
    } else if d == 11 {
        "b"
    } else if d == 12 {
        "c"
    } else if d == 13 {
        "d"
    } else if d == 14 {
        "e"
    } else {
        "f"
    }
}

impl Discriminant {
    /// The discriminant as text, as [`spec_discriminant_text`] states.
    pub fn hex_string(&self) -> (r: String)
        ensures
            r@ == spec_discriminant_text(self@),
    {
        let mut s = "0x".to_owned();
        let mut is_zero = true;
        let mut i: usize = 0;
        while i < self.big_endian_bytes.len()
            invariant
                i <= self.big_endian_bytes@.len(),
                is_zero == spec_all_zero(self.big_endian_bytes@.take(i as int)),
                s@ == "0x"@ + spec_hex_bytes(self.big_endian_bytes@.take(i as int)),
            decreases self.big_endian_bytes@.len() - i,
        {
            let ghost bv = self.big_endian_bytes@;
            let b = self.big_endian_bytes[i];
            proof {
                assert(bv.take(i as int + 1).drop_last() =~= bv.take(i as int));
                assert(bv.take(i as int + 1).last() == b);
            }
            if b != 0 {
                is_zero = false;
                if b >= 16 {
                    let hi = hex_digit_str(b / 16);
                    let lo = hex_digit_str(b % 16);
                    s.append(hi);
                    s.append(lo);
                    proof {
                        assert(s@ =~= "0x"@ + spec_hex_bytes(bv.take(i as int + 1)));
                    }
                } else {
                    let lo = hex_digit_str(b);
                    s.append(lo);
                    proof {
                        assert(s@ =~= "0x"@ + spec_hex_bytes(bv.take(i as int + 1)));
                    }
                }
            }
            i = i + 1;
        }
        proof {
            assert(self.big_endian_bytes@.take(self.big_endian_bytes@.len() as int)
                =~= self.big_endian_bytes@);
        }
        if is_zero {
            s.append("0");
            proof {
                reveal_strlit("0");
                assert(spec_hex_bytes(self.big_endian_bytes@) =~= Seq::<char>::empty()) by {
                    lemma_hex_bytes_all_zero(self.big_endian_bytes@);
                }
                assert(s@ =~= "0x"@ + seq!['0']);
            }
        }
        s
    }
}

/// All-zero bytes leave no hex digits.
proof fn lemma_hex_bytes_all_zero(bytes: Seq<u8>)
    requires
        spec_all_zero(bytes),
    ensures
        spec_hex_bytes(bytes) == Seq::<char>::empty(),
    decreases bytes.len(),
{
    if bytes.len() > 0 {
        lemma_hex_bytes_all_zero(bytes.drop_last());
    }
}

/// An enum variant: its name, its discriminant, and its fields.
pub struct Variant {
    pub name: String,
    pub discriminant: Discriminant,
    pub fields: Vec<Field>,
}

/// The mathematical model of a [`Variant`].
#[verifier::ext_equal]
pub struct VariantView {
    pub name: Seq<char>,
    pub discriminant: Seq<u8>,
    pub fields: Seq<FieldView>,
}

impl View for Variant {
    type V = VariantView;

    open spec fn view(&self) -> VariantView {
        VariantView {
            name: self.name@,
            discriminant: self.discriminant@,
            fields: self.fields@.map_values(|f: Field| f@),
        }
    }
}

/// Lexicographic order on byte strings: the first differing byte decides,
/// and a proper prefix comes first.
pub open spec fn spec_bytes_cmp(a: Seq<u8>, b: Seq<u8>) -> Ordering
    decreases a.len(),
{
    if a.len() == 0 && b.len() == 0 {
        Ordering::Equal
    } else if a.len() == 0 {
        Ordering::Less
    } else if b.len() == 0 {
        Ordering::Greater
    } else if a[0] < b[0] {
        Ordering::Less
    } else if a[0] > b[0] {
        Ordering::Greater
    } else {
        spec_bytes_cmp(a.drop_first(), b.drop_first())
    }
}

/// Order on fields: by offset, an equal offset decided by the name, an
/// equal name by the type name, each string in byte order.
pub open spec fn spec_field_cmp(a: FieldView, b: FieldView) -> Ordering {
    if a.offset < b.offset {
        Ordering::Less
    } else if a.offset > b.offset {
        Ordering::Greater
    } else if spec_bytes_cmp(encode_utf8(a.name), encode_utf8(b.name)) != Ordering::Equal {
        spec_bytes_cmp(encode_utf8(a.name), encode_utf8(b.name))
    } else {
        spec_bytes_cmp(encode_utf8(a.ty), encode_utf8(b.ty))
    }
}

/// Lexicographic order on field lists: the first differing field decides,
/// and a proper prefix comes first.
pub open spec fn spec_fields_cmp(a: Seq<FieldView>, b: Seq<FieldView>) -> Ordering
    decreases a.len(),
{
    if a.len() == 0 && b.len() == 0 {
        Ordering::Equal
    } else if a.len() == 0 {
        Ordering::Less
    } else if b.len() == 0 {
        Ordering::Greater
    } else if spec_field_cmp(a[0], b[0]) != Ordering::Equal {
        spec_field_cmp(a[0], b[0])
    } else {
        spec_fields_cmp(a.drop_first(), b.drop_first())
    }
}

/// Order on variants: by discriminant bytes, an equal discriminant decided
/// by the name, an equal name by the fields.
pub open spec fn spec_variant_cmp(a: VariantView, b: VariantView) -> Ordering {
    if spec_bytes_cmp(a.discriminant, b.discriminant) != Ordering::Equal {
        spec_bytes_cmp(a.discriminant, b.discriminant)
    } else if spec_bytes_cmp(encode_utf8(a.name), encode_utf8(b.name)) != Ordering::Equal {
        spec_bytes_cmp(encode_utf8(a.name), encode_utf8(b.name))
    } else {
        spec_fields_cmp(a.fields, b.fields)
    }
}

/// Compares two byte strings as [`spec_bytes_cmp`] states.
pub fn bytes_cmp(a: &[u8], b: &[u8]) -> (r: Ordering)
    ensures
        r == spec_bytes_cmp(a@, b@),
{
    let mut i: usize = 0;
    proof {
        assert(a@.skip(0) =~= a@);
        assert(b@.skip(0) =~= b@);
    }
    while i < a.len() && i < b.len()
        invariant
            i <= a@.len(),
            i <= b@.len(),
            spec_bytes_cmp(a@, b@) == spec_bytes_cmp(a@.skip(i as int), b@.skip(i as int)),
        decreases a@.len() - i,
    {
        proof {
            assert(a@.skip(i as int)[0] == a@[i as int]);
            assert(b@.skip(i as int)[0] == b@[i as int]);
            assert(a@.skip(i as int).drop_first() =~= a@.skip(i as int + 1));
            assert(b@.skip(i as int).drop_first() =~= b@.skip(i as int + 1));
        }
        if a[i] < b[i] {
            return Ordering::Less;
        }
        if a[i] > b[i] {
            return Ordering::Greater;
        }
        i = i + 1;
    }
    proof {
        assert(a@.skip(i as int).len() == a@.len() - i);
        assert(b@.skip(i as int).len() == b@.len() - i);
    }
    if a.len() == b.len() {
        Ordering::Equal
    } else if a.len() < b.len() {
        Ordering::Less
    } else {
        Ordering::Greater
    }
}

/// Compares two strings by their UTF-8 bytes.
pub fn str_cmp(a: &str, b: &str) -> (r: Ordering)
    ensures
        r == spec_bytes_cmp(encode_utf8(a@), encode_utf8(b@)),
{
    bytes_cmp(a.as_bytes(), b.as_bytes())
}

/// Compares two field lists as [`spec_fields_cmp`] states.
pub fn fields_cmp(a: &Vec<Field>, b: &Vec<Field>) -> (r: Ordering)
    ensures
        r == spec_fields_cmp(
            a@.map_values(|f: Field| f@),
            b@.map_values(|f: Field| f@),
        ),
{
    let ghost av = a@.map_values(|f: Field| f@);
    let ghost bv = b@.map_values(|f: Field| f@);
    let mut i: usize = 0;
    proof {
        assert(av.skip(0) =~= av);
        assert(bv.skip(0) =~= bv);
    }
    while i < a.len() && i < b.len()
        invariant
            i <= av.len(),
            i <= bv.len(),
            av == a@.map_values(|f: Field| f@),
            bv == b@.map_values(|f: Field| f@),
            spec_fields_cmp(av, bv) == spec_fields_cmp(av.skip(i as int), bv.skip(i as int)),
        decreases av.len() - i,
    {
        proof {
            assert(av.skip(i as int)[0] == av[i as int]);
            assert(bv.skip(i as int)[0] == bv[i as int]);
            assert(av.skip(i as int).drop_first() =~= av.skip(i as int + 1));
            assert(bv.skip(i as int).drop_first() =~= bv.skip(i as int + 1));
        }
        let c = a[i].cmp(&b[i]);
        match c {
            Ordering::Equal => {},
            _ => {
                return c;
            },
        }
        i = i + 1;
    }
    proof {
        assert(av.skip(i as int).len() == av.len() - i);
        assert(bv.skip(i as int).len() == bv.len() - i);
    }
    if a.len() == b.len() {
        Ordering::Equal
    } else if a.len() < b.len() {
        Ordering::Less
    } else {
        Ordering::Greater
    }
}

impl Variant {
    /// Compares two variants as [`spec_variant_cmp`] states.
    pub fn cmp(&self, other: &Variant) -> (r: Ordering)
        ensures
            r == spec_variant_cmp(self@, other@),
    {
        let by_discriminant = bytes_cmp(
            self.discriminant.big_endian_bytes.as_slice(),
            other.discriminant.big_endian_bytes.as_slice(),
        );
        match by_discriminant {
            Ordering::Equal => {
                let by_name = str_cmp(self.name.as_str(), other.name.as_str());
                match by_name {
                    Ordering::Equal => fields_cmp(&self.fields, &other.fields),
                    _ => by_name,
                }
            },
            _ => by_discriminant,
        }
    }

    /// Compares two variants; variants are totally ordered, so the order
    /// always exists.
    pub fn partial_cmp(&self, other: &Variant) -> (r: Option<Ordering>)
        ensures
            r == Some(spec_variant_cmp(self@, other@)),
    {
        Some(self.cmp(other))
    }
}

/// The shape of a type: struct vs. union vs. enum vs. one of the built-in
/// kinds, with the fields or variants it exposes.
pub enum TypeStructure {
    Struct { repr: String, fields: Vec<Field> },
    Union { repr: String, fields: Vec<Field> },
    Enum { repr: String, variants: Vec<Variant> },
    Primitive,
    Array { item: String, len: usize },
    Reference { inner: String, mutability: bool },
    Pointer { inner: String, mutability: bool },
}

/// The mathematical model of a [`TypeStructure`].
#[verifier::ext_equal]
pub enum TypeStructureView {
    Struct { repr: Seq<char>, fields: Seq<FieldView> },
    Union { repr: Seq<char>, fields: Seq<FieldView> },
    Enum { repr: Seq<char>, variants: Seq<VariantView> },
    Primitive,
    Array { item: Seq<char>, len: nat },
    Reference { inner: Seq<char>, mutability: bool },
    Pointer { inner: Seq<char>, mutability: bool },
}

impl View for TypeStructure {
    type V = TypeStructureView;

    open spec fn view(&self) -> TypeStructureView {
        match self {
            TypeStructure::Struct { repr, fields } => TypeStructureView::Struct {
                repr: repr@,
                fields: fields@.map_values(|f: Field| f@),
            },
            TypeStructure::Union { repr, fields } => TypeStructureView::Union {
                repr: repr@,
                fields: fields@.map_values(|f: Field| f@),
            },
            TypeStructure::Enum { repr, variants } => TypeStructureView::Enum {
                repr: repr@,
                variants: variants@.map_values(|v: Variant| v@),
            },
            TypeStructure::Primitive => TypeStructureView::Primitive,
            TypeStructure::Array { item, len } => TypeStructureView::Array {
                item: item@,
                len: *len as nat,
            },
            TypeStructure::Reference { inner, mutability } => TypeStructureView::Reference {
                inner: inner@,
                mutability: *mutability,
            },
            TypeStructure::Pointer { inner, mutability } => TypeStructureView::Pointer {
                inner: inner@,
                mutability: *mutability,
            },
        }
    }
}

/// The layout of one type: its name, size, minimum alignment and structure.
pub struct TypeLayoutInfo {
    pub name: String,
    pub size: usize,
    pub alignment: usize,
    pub structure: TypeStructure,
}

/// The mathematical model of a [`TypeLayoutInfo`].
#[verifier::ext_equal]
pub struct TypeLayoutInfoView {
    pub name: Seq<char>,
    pub size: nat,
    pub alignment: nat,
    pub structure: TypeStructureView,
}

impl View for TypeLayoutInfo {
    type V = TypeLayoutInfoView;

    open spec fn view(&self) -> TypeLayoutInfoView {
        TypeLayoutInfoView {
            name: self.name@,
            size: self.size as nat,
            alignment: self.alignment as nat,
            structure: self.structure@,
        }
    }
}

/// The deep layout of one root type: the root's name together with the
/// layouts of every type its layout transitively references, each name
/// appearing at most once.
pub struct TypeLayoutGraph {
    pub ty: String,
    pub tys: Vec<TypeLayoutInfo>,
}

/// The mathematical model of a [`TypeLayoutGraph`].
#[verifier::ext_equal]
pub struct TypeLayoutGraphView {
    pub ty: Seq<char>,
    pub tys: Seq<TypeLayoutInfoView>,
}

impl View for TypeLayoutGraph {
    type V = TypeLayoutGraphView;

    open spec fn view(&self) -> TypeLayoutGraphView {
        TypeLayoutGraphView { ty: self.ty@, tys: self.tys@.map_values(|t: TypeLayoutInfo| t@) }
    }
}

impl Clone for Field {
    /// The clone describes the same field.
    fn clone(&self) -> (r: Self)
        ensures
            r@ == self@,
    {
        Field { name: self.name.clone(), offset: self.offset, ty: self.ty.clone() }
    }
}

impl Clone for Discriminant {
    /// The clone holds the same bytes.
    fn clone(&self) -> (r: Self)
        ensures
            r@ == self@,
    {
        let big_endian_bytes = self.big_endian_bytes.clone();
        proof {
            assert(big_endian_bytes@ =~= self.big_endian_bytes@);
        }
        Discriminant { big_endian_bytes }
    }
}

impl Clone for Variant {
    /// The clone describes the same variant.
    fn clone(&self) -> (r: Self)
        ensures
            r@ == self@,
    {
        let fields = self.fields.clone();
        proof {
            assert(fields@.map_values(|f: Field| f@) =~= self.fields@.map_values(|f: Field| f@));
        }
        Variant { name: self.name.clone(), discriminant: self.discriminant.clone(), fields }
    }
}

impl Clone for TypeStructure {
    /// The clone describes the same structure.
    fn clone(&self) -> (r: Self)
        ensures
            r@ == self@,
    {
        match self {
            TypeStructure::Struct { repr, fields } => {
                let fields2 = fields.clone();
                proof {
                    assert(fields2@.map_values(|f: Field| f@) =~= fields@.map_values(
                        |f: Field| f@,
                    ));
                }
                TypeStructure::Struct { repr: repr.clone(), fields: fields2 }
            },
            TypeStructure::Union { repr, fields } => {
                let fields2 = fields.clone();
                proof {
                    assert(fields2@.map_values(|f: Field| f@) =~= fields@.map_values(
                        |f: Field| f@,
                    ));
                }
                TypeStructure::Union { repr: repr.clone(), fields: fields2 }
            },
            TypeStructure::Enum { repr, variants } => {
                let variants2 = variants.clone();
                proof {
                    assert(variants2@.map_values(|v: Variant| v@) =~= variants@.map_values(
                        |v: Variant| v@,
                    ));
                }
                TypeStructure::Enum { repr: repr.clone(), variants: variants2 }
            },
            TypeStructure::Primitive => TypeStructure::Primitive,
            TypeStructure::Array { item, len } => TypeStructure::Array {
                item: item.clone(),
                len: *len,
            },
            TypeStructure::Reference { inner, mutability } => TypeStructure::Reference {
                inner: inner.clone(),
                mutability: *mutability,
            },
            TypeStructure::Pointer { inner, mutability } => TypeStructure::Pointer {
                inner: inner.clone(),
                mutability: *mutability,
            },
        }
    }
}

impl Clone for TypeLayoutInfo {
    /// The clone describes the same layout.
    fn clone(&self) -> (r: Self)
        ensures
            r@ == self@,
    {
        TypeLayoutInfo {
            name: self.name.clone(),
            size: self.size,
            alignment: self.alignment,
            structure: self.structure.clone(),
        }
    }
}

/// Whether some layout in `tys` already carries the type name `name`.
pub open spec fn contains_name(tys: Seq<TypeLayoutInfoView>, name: Seq<char>) -> bool {
    exists|i: int| 0 <= i < tys.len() && tys[i].name == name
}

/// No two layouts in `tys` carry the same type name.
pub open spec fn distinct_names(tys: Seq<TypeLayoutInfoView>) -> bool {
    forall|i: int, j: int| 0 <= i < j < tys.len() ==> tys[i].name != tys[j].name
}

/// What inserting `ty` into the graph `g` yields: `g` unchanged when a layout
/// with the same name is already present, and `g` with `ty` appended
/// otherwise.
pub open spec fn graph_insert(g: TypeLayoutGraphView, ty: TypeLayoutInfoView) -> TypeLayoutGraphView {
    if contains_name(g.tys, ty.name) {
        g
    } else {
        TypeLayoutGraphView { tys: g.tys.push(ty), ..g }
    }
}

/// A graph rooted at the type named `ty`, with nothing recorded yet.
pub open spec fn spec_graph_new(ty: Seq<char>) -> TypeLayoutGraphView {
    TypeLayoutGraphView { ty: ty, tys: Seq::empty() }
}

/// A type that can report its own layout.
pub trait TypeLayout: Sized {
    /// The model of the layout this type reports.
    spec fn spec_layout() -> TypeLayoutInfoView;

    /// This type's layout: its name, size, minimum alignment and structure.
    fn type_layout() -> (r: TypeLayoutInfo)
        ensures
            r@ == Self::spec_layout(),
    ;
}

/// A type that can record, in a graph, its own layout and the layouts of
/// every type it links to.
pub trait TypeGraph: TypeLayout {
    /// The graph after this type has recorded itself and everything it
    /// links to, starting from `g`.
    spec fn spec_populate(g: TypeLayoutGraphView) -> TypeLayoutGraphView;

    /// Populating keeps the graph's root, never removes an entry, and keeps
    /// distinct names distinct.
    proof fn populate_extends(g: TypeLayoutGraphView)
        ensures
            g.tys.len() <= Self::spec_populate(g).tys.len(),
            Self::spec_populate(g).ty == g.ty,
            distinct_names(g.tys) ==> distinct_names(Self::spec_populate(g).tys),
    ;

    /// Records this type's layout, and the layouts it links to, in `graph`.
    fn populate_graph(graph: &mut TypeLayoutGraph)
        requires
            Self::spec_populate(old(graph)@).tys.len() <= CAPACITY,
        ensures
            final(graph)@ == Self::spec_populate(old(graph)@),
    ;
}

/// The model of `T`'s deep layout graph: a fresh graph rooted at `T`'s
/// name, populated by `T`.
pub open spec fn spec_type_graph<T: TypeGraph>() -> TypeLayoutGraphView {
    T::spec_populate(spec_graph_new(T::spec_layout().name))
}

/// A type whose whole layout graph can be computed.
pub trait TypeGraphLayout: TypeGraph {
    /// The deep layout graph of this type: populated, with no type name
    /// recorded twice.
    fn type_graph() -> (g: TypeLayoutGraph)
        requires
            spec_type_graph::<Self>().tys.len() <= CAPACITY,
        ensures
            g@ == spec_type_graph::<Self>(),
            g.wf(),
    ;
}

impl<T: TypeGraph> TypeGraphLayout for T {
    fn type_graph() -> (g: TypeLayoutGraph) {
        let mut g = TypeLayoutGraph::new::<T>();
        proof {
            T::populate_extends(g@);
        }
        T::populate_graph(&mut g);
        g
    }
}

/// How many bytes the serialised deep layout graph of `T` takes.
pub fn serialised_type_graph_len<T: TypeGraphLayout>() -> (n: usize)
    requires
        spec_type_graph::<T>().tys.len() <= CAPACITY,
        ser::spec_total_len(ser::spec_ser_graph(spec_type_graph::<T>()).len()) <= usize::MAX,
    ensures
        n == ser::spec_total_len(ser::spec_ser_graph(spec_type_graph::<T>()).len()),
{
    let g = T::type_graph();
    g.serialised_len()
}

/// The serialised deep layout graph of `T`: its total length, prefix
/// included, then the graph's body.
pub fn serialise_type_graph<T: TypeGraphLayout>() -> (bytes: Vec<u8>)
    requires
        spec_type_graph::<T>().tys.len() <= CAPACITY,
        ser::spec_total_len(ser::spec_ser_graph(spec_type_graph::<T>()).len()) <= usize::MAX,
    ensures
        bytes@ == ser::spec_varint(
            ser::spec_total_len(ser::spec_ser_graph(spec_type_graph::<T>()).len()),
        ) + ser::spec_ser_graph(spec_type_graph::<T>()),
        bytes@.len() == ser::spec_total_len(ser::spec_ser_graph(spec_type_graph::<T>()).len()),
{
    let g = T::type_graph();
    g.serialise()
}

/// Inserting can only keep or append an entry: the root stays, the length
/// grows by at most one, and distinct names stay distinct.
pub proof fn lemma_graph_insert(g: TypeLayoutGraphView, ty: TypeLayoutInfoView)
    ensures
        g.tys.len() <= graph_insert(g, ty).tys.len() <= g.tys.len() + 1,
        graph_insert(g, ty).ty == g.ty,
        distinct_names(g.tys) ==> distinct_names(graph_insert(g, ty).tys),
{
}

impl TypeLayoutGraph {
    /// The graph never records two layouts under one type name.
    pub open spec fn wf(&self) -> bool {
        distinct_names(self@.tys)
    }

    /// A graph rooted at `T`'s name, with nothing recorded yet.
    pub fn new<T: TypeLayout>() -> (g: Self)
        ensures
            g@ == spec_graph_new(T::spec_layout().name),
    {
        let info = T::type_layout();
        let g = TypeLayoutGraph { ty: info.name, tys: Vec::new() };
        proof {
            assert(g@ =~= spec_graph_new(T::spec_layout().name));
        }
        g
    }

    /// Record the layout `ty` unless a layout with the same type name is
    /// already recorded. Returns whether `ty` was newly recorded.
    pub fn insert(&mut self, ty: TypeLayoutInfo) -> (r: bool)
        requires
            contains_name(old(self)@.tys, ty@.name) || old(self)@.tys.len() < CAPACITY,
        ensures
            final(self)@ == graph_insert(old(self)@, ty@),
            r == !contains_name(old(self)@.tys, ty@.name),
            old(self).wf() ==> final(self).wf(),
    {
        let ghost old_self = *self;
        let mut i: usize = 0;
        while i < self.tys.len()
            invariant
                i <= self.tys.len(),
                *self == old_self,
                old_self@ == old(self)@,
                forall|j: int| 0 <= j < i ==> old_self@.tys[j].name != ty@.name,
            decreases self.tys.len() - i,
        {
            if typeset::str_eq(self.tys[i].name.as_str(), ty.name.as_str()) {
                assert(old(self)@.tys[i as int].name == ty@.name);
                return false;
            }
            i += 1;
        }
        assert(!contains_name(old(self)@.tys, ty@.name));
        self.tys.push(ty);
        proof {
            assert(self@.tys =~= old(self)@.tys.push(ty@));
        }
        true
    }

    /// How many bytes [`Self::serialise`] returns: the graph's body plus
    /// the prefix that encodes this very total, found as the least fixed
    /// point of `total == body + varint_len(total)`.
    pub fn serialised_len(&self) -> (n: usize)
        requires
            ser::spec_total_len(ser::spec_ser_graph(self@).len()) <= usize::MAX,
        ensures
            n == ser::spec_total_len(ser::spec_ser_graph(self@).len()),
    {
        let ghost body = ser::spec_ser_graph(self@).len();
        let ghost total = ser::spec_total_len(body);
        proof {
            ser::lemma_total_len(body);
        }
        let len = ser::serialised_type_layout_graph_len(0, self);
        let mut last_full_len = len;
        proof {
            ser::lemma_varint_len_by_range(last_full_len as nat);
            ser::lemma_varint_len_by_range(total);
        }
        let mut full_len = ser::serialised_usize_len(len, last_full_len);
        while full_len != last_full_len
            invariant
                len == body,
                total == ser::spec_total_len(body),
                body + 10 < 1180591620717411303424,
                total <= usize::MAX,
                last_full_len <= full_len <= total,
                full_len == len + ser::spec_varint_len(last_full_len as nat),
            decreases total - last_full_len,
        {
            proof {
                ser::lemma_total_len(body);
                ser::lemma_varint_len_by_range(full_len as nat);
                ser::lemma_varint_len_by_range(total);
            }
            last_full_len = full_len;
            full_len = ser::serialised_usize_len(len, last_full_len);
        }
        proof {
            assert(ser::is_total_len(body, full_len as nat));
        }
        full_len
    }

    /// The graph as bytes: a prefix encoding the buffer's total length,
    /// prefix included, then the graph's body.
    pub fn serialise(&self) -> (bytes: Vec<u8>)
        requires
            ser::spec_total_len(ser::spec_ser_graph(self@).len()) <= usize::MAX,
        ensures
            bytes@ == ser::spec_varint(ser::spec_total_len(ser::spec_ser_graph(self@).len()))
                + ser::spec_ser_graph(self@),
            bytes@.len() == ser::spec_total_len(ser::spec_ser_graph(self@).len()),
    {
        let ghost body = ser::spec_ser_graph(self@).len();
        let total = self.serialised_len();
        let mut bytes: Vec<u8> = Vec::new();
        ser::serialise_usize(&mut bytes, total);
        ser::serialise_type_layout_graph(&mut bytes, self);
        proof {
            ser::lemma_total_len(body);
            ser::lemma_varint_len(total as nat);
            assert(bytes@ =~= ser::spec_varint(ser::spec_total_len(body)) + ser::spec_ser_graph(
                self@,
            ));
        }
        bytes
    }
}

} // verus!

