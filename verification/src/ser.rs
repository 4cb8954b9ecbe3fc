//! The byte encoding of type layouts: every number is written as a
//! base-128 varint (seven value bits per byte, high bit set on every byte but
//! the last), strings are written as their byte length followed by their
//! UTF-8 bytes, and lists as their length followed by their items. A
//! serialised graph is prefixed with its total length, prefix included, so
//! the prefix is the least fixed point of `total == body + varint_len(total)`.

use vstd::prelude::*;
use vstd::string::StringSliceAdditionalSpecFns;
use vstd::utf8::encode_utf8;

use crate::{Field, FieldView, Discriminant, Variant, VariantView};
use crate::{TypeStructure, TypeStructureView, TypeLayoutInfo, TypeLayoutInfoView};
use crate::{TypeLayoutGraph, TypeLayoutGraphView};

verus! {

/// The varint encoding of `n`: seven bits per byte, least significant group
/// first, the high bit marking every byte except the last.
pub open spec fn spec_varint(n: nat) -> Seq<u8>
    decreases n,
{
    if n < 128 {
        seq![n as u8]
    } else {
        seq![(n % 128 + 128) as u8] + spec_varint(n / 128)
    }
}

/// How many bytes the varint encoding of `n` takes.
pub open spec fn spec_varint_len(n: nat) -> nat
    decreases n,
{
    if n < 128 {
        1
    } else {
        1 + spec_varint_len(n / 128)
    }
}

pub proof fn lemma_varint_len(n: nat)
    ensures
        spec_varint(n).len() == spec_varint_len(n),
    decreases n,
{
    if n >= 128 {
        lemma_varint_len(n / 128);
    }
}

/// Pins `spec_varint_len` on each range of seven-bit groups, up to the ten
/// groups that cover every length below `128^10`.
pub proof fn lemma_varint_len_by_range(n: nat)
    ensures
        n < 128 ==> spec_varint_len(n) == 1,
        128 <= n < 16384 ==> spec_varint_len(n) == 2,
        16384 <= n < 2097152 ==> spec_varint_len(n) == 3,
        2097152 <= n < 268435456 ==> spec_varint_len(n) == 4,
        268435456 <= n < 34359738368 ==> spec_varint_len(n) == 5,
        34359738368 <= n < 4398046511104 ==> spec_varint_len(n) == 6,
        4398046511104 <= n < 562949953421312 ==> spec_varint_len(n) == 7,
        562949953421312 <= n < 72057594037927936 ==> spec_varint_len(n) == 8,
        72057594037927936 <= n < 9223372036854775808 ==> spec_varint_len(n) == 9,
        9223372036854775808 <= n < 1180591620717411303424 ==> spec_varint_len(n) == 10,
    decreases n,
{
    if n >= 128 {
        lemma_varint_len_by_range(n / 128);
    }
}

/// Whether `total` can prefix a body of `body` bytes with its own total
/// length: the prefix is part of the length it encodes.
pub open spec fn is_total_len(body: nat, total: nat) -> bool {
    total == body + spec_varint_len(total)
}

/// How many bytes the total-length prefix of a body of `body` bytes takes.
/// Each branch bound is `128^k - 1 - k`: the largest body whose total
/// `body + k` still fits in `k` seven-bit groups.
pub open spec fn spec_prefix_len(body: nat) -> nat {
    if body <= 126 {
        1
    } else if body <= 16381 {
        2
    } else if body <= 2097148 {
        3
    } else if body <= 268435451 {
        4
    } else if body <= 34359738362 {
        5
    } else if body <= 4398046511097 {
        6
    } else if body <= 562949953421304 {
        7
    } else if body <= 72057594037927927 {
        8
    } else if body <= 9223372036854775798 {
        9
    } else {
        10
    }
}

/// The length of a serialised buffer with a body of `body` bytes: the body
/// plus the total-length prefix.
pub open spec fn spec_total_len(body: nat) -> nat {
    body + spec_prefix_len(body)
}

/// `spec_total_len` is the least solution of
/// `total == body + varint_len(total)`.
pub proof fn lemma_total_len(body: nat)
    requires
        body + 10 < 1180591620717411303424,
    ensures
        is_total_len(body, spec_total_len(body)),
        forall|m: nat| m < spec_total_len(body) ==> !is_total_len(body, m),
        body < spec_total_len(body) <= body + 10,
{
    lemma_varint_len_by_range(body + spec_prefix_len(body));
    assert forall|m: nat| m < spec_total_len(body) implies !is_total_len(body, m) by {
        lemma_varint_len_by_range(m);
    }
}

/// Writes the varint encoding of `value`.
pub fn serialise_usize(bytes: &mut Vec<u8>, value: usize)
    ensures
        final(bytes)@ == old(bytes)@ + spec_varint(value as nat),
{
    let mut rem = value;
    while rem >= 128
        invariant
            old(bytes)@ + spec_varint(value as nat) == bytes@ + spec_varint(rem as nat),
        decreases rem,
    {
        let b: u8 = (rem % 128 + 128) as u8;
        proof {
            assert(bytes@ + spec_varint(rem as nat) =~= bytes@.push(b) + spec_varint(
                (rem / 128) as nat,
            ));
        }
        bytes.push(b);
        rem = rem / 128;
    }
    proof {
        assert(bytes@ + spec_varint(rem as nat) =~= bytes@.push(rem as u8));
    }
    bytes.push(rem as u8);
}

/// Counts the bytes of the varint encoding of `value`, added to `from`.
pub fn serialised_usize_len(from: usize, value: usize) -> (r: usize)
    requires
        from + spec_varint_len(value as nat) <= usize::MAX,
    ensures
        r == from + spec_varint_len(value as nat),
{
    let mut r = from + 1;
    let mut rem = value;
    while rem >= 128
        invariant
            from + spec_varint_len(value as nat) + 1 == r + spec_varint_len(rem as nat),
            from + spec_varint_len(value as nat) <= usize::MAX,
        decreases rem,
    {
        proof {
            assert(spec_varint_len((rem / 128) as nat) >= 1);
        }
        rem = rem / 128;
        r = r + 1;
    }
    r
}

/// A byte string: its length, then its bytes.
pub open spec fn spec_ser_bytes(b: Seq<u8>) -> Seq<u8> {
    spec_varint(b.len()) + b
}

/// A string: its byte length, then its UTF-8 bytes.
pub open spec fn spec_ser_str(s: Seq<char>) -> Seq<u8> {
    spec_ser_bytes(encode_utf8(s))
}

/// Writes the length of `data`, then its bytes.
pub fn serialise_bytes(bytes: &mut Vec<u8>, data: &[u8])
    ensures
        final(bytes)@ == old(bytes)@ + spec_ser_bytes(data@),
{
    serialise_usize(bytes, data.len());
    let ghost mid = bytes@;
    let mut i: usize = 0;
    while i < data.len()
        invariant
            i <= data@.len(),
            bytes@ == mid + data@.take(i as int),
            mid == old(bytes)@ + spec_varint(data@.len()),
        decreases data@.len() - i,
    {
        let b: u8 = data[i];
        proof {
            assert((mid + data@.take(i as int)).push(b) =~= mid + data@.take(i as int + 1));
        }
        bytes.push(b);
        i = i + 1;
    }
    proof {
        assert(data@.take(data@.len() as int) =~= data@);
        assert(mid + data@ =~= old(bytes)@ + spec_ser_bytes(data@));
    }
}

/// Counts the bytes that [`serialise_bytes`] writes, added to `from`.
pub fn serialised_bytes_len(from: usize, data: &[u8]) -> (r: usize)
    requires
        from + spec_ser_bytes(data@).len() <= usize::MAX,
    ensures
        r == from + spec_ser_bytes(data@).len(),
{
    proof {
        lemma_varint_len(data@.len());
    }
    let r = serialised_usize_len(from, data.len());
    r + data.len()
}

/// Writes the byte length of `s`, then its UTF-8 bytes.
pub fn serialise_str(bytes: &mut Vec<u8>, s: &str)
    ensures
        final(bytes)@ == old(bytes)@ + spec_ser_str(s@),
{
    serialise_bytes(bytes, s.as_bytes());
}

/// Counts the bytes that [`serialise_str`] writes, added to `from`.
pub fn serialised_str_len(from: usize, s: &str) -> (r: usize)
    requires
        from + spec_ser_str(s@).len() <= usize::MAX,
    ensures
        r == from + spec_ser_str(s@).len(),
{
    serialised_bytes_len(from, s.as_bytes())
}

/// A field: its name, its offset, then the name of its type.
pub open spec fn spec_ser_field(f: FieldView) -> Seq<u8> {
    spec_ser_str(f.name) + spec_varint(f.offset) + spec_ser_str(f.ty)
}

/// Writes a field as [`spec_ser_field`] states.
pub fn serialise_field(bytes: &mut Vec<u8>, f: &Field)
    ensures
        final(bytes)@ == old(bytes)@ + spec_ser_field(f@),
{
    serialise_str(bytes, f.name.as_str());
    serialise_usize(bytes, f.offset);
    serialise_str(bytes, f.ty.as_str());
    proof {
        assert(bytes@ =~= old(bytes)@ + spec_ser_field(f@));
    }
}

/// Counts the bytes that [`serialise_field`] writes, added to `from`.
pub fn serialised_field_len(from: usize, f: &Field) -> (r: usize)
    requires
        from + spec_ser_field(f@).len() <= usize::MAX,
    ensures
        r == from + spec_ser_field(f@).len(),
{
    proof {
        lemma_varint_len(f@.offset);
    }
    let r = serialised_str_len(from, f.name.as_str());
    let r = serialised_usize_len(r, f.offset);
    serialised_str_len(r, f.ty.as_str())
}

/// Writes a discriminant: its byte count, then its big-endian bytes.
pub fn serialise_discriminant(bytes: &mut Vec<u8>, d: &Discriminant)
    ensures
        final(bytes)@ == old(bytes)@ + spec_ser_bytes(d@),
{
    serialise_bytes(bytes, d.big_endian_bytes.as_slice());
}

/// Counts the bytes that [`serialise_discriminant`] writes, added to `from`.
pub fn serialised_discriminant_len(from: usize, d: &Discriminant) -> (r: usize)
    requires
        from + spec_ser_bytes(d@).len() <= usize::MAX,
    ensures
        r == from + spec_ser_bytes(d@).len(),
{
    serialised_bytes_len(from, d.big_endian_bytes.as_slice())
}

/// The items of a field list, in order.
pub open spec fn spec_ser_fields_seq(fs: Seq<FieldView>) -> Seq<u8>
    decreases fs.len(),
{
    if fs.len() == 0 {
        Seq::empty()
    } else {
        spec_ser_fields_seq(fs.drop_last()) + spec_ser_field(fs.last())
    }
}

/// A field list: its length, then its items.
pub open spec fn spec_ser_fields(fs: Seq<FieldView>) -> Seq<u8> {
    spec_varint(fs.len()) + spec_ser_fields_seq(fs)
}

/// Writes a field list as [`spec_ser_fields`] states.
pub fn serialise_fields(bytes: &mut Vec<u8>, fs: &Vec<Field>)
    ensures
        final(bytes)@ == old(bytes)@ + spec_ser_fields(fs@.map_values(|f: Field| f@)),
{
    let ghost fsv = fs@.map_values(|f: Field| f@);
    serialise_usize(bytes, fs.len());
    let ghost mid = bytes@;
    let mut i: usize = 0;
    while i < fs.len()
        invariant
            i <= fs@.len(),
            fsv == fs@.map_values(|f: Field| f@),
            bytes@ == mid + spec_ser_fields_seq(fsv.take(i as int)),
            mid == old(bytes)@ + spec_varint(fsv.len()),
        decreases fs@.len() - i,
    {
        serialise_field(bytes, &fs[i]);
        proof {
            assert(fsv.take(i as int + 1).drop_last() =~= fsv.take(i as int));
            assert(fsv.take(i as int + 1).last() == fsv[i as int]);
            assert(bytes@ =~= mid + spec_ser_fields_seq(fsv.take(i as int + 1)));
        }
        i = i + 1;
    }
    proof {
        assert(fsv.take(fsv.len() as int) =~= fsv);
        assert(mid + spec_ser_fields_seq(fsv) =~= old(bytes)@ + spec_ser_fields(fsv));
    }
}

/// Counts the bytes that [`serialise_fields`] writes, added to `from`.
pub fn serialised_fields_len(from: usize, fs: &Vec<Field>) -> (r: usize)
    requires
        from + spec_ser_fields(fs@.map_values(|f: Field| f@)).len() <= usize::MAX,
    ensures
        r == from + spec_ser_fields(fs@.map_values(|f: Field| f@)).len(),
{
    let ghost fsv = fs@.map_values(|f: Field| f@);
    proof {
        lemma_varint_len(fsv.len());
        lemma_ser_fields_seq_len_mono(fsv, fsv.len() as int);
    }
    let mut r = serialised_usize_len(from, fs.len());
    let mut i: usize = 0;
    while i < fs.len()
        invariant
            i <= fs@.len(),
            fsv == fs@.map_values(|f: Field| f@),
            r == from + spec_varint_len(fsv.len()) + spec_ser_fields_seq(fsv.take(i as int)).len(),
            from + spec_ser_fields(fsv).len() <= usize::MAX,
        decreases fs@.len() - i,
    {
        proof {
            lemma_varint_len(fsv.len());
            assert(fsv.take(i as int + 1).drop_last() =~= fsv.take(i as int));
            assert(fsv.take(i as int + 1).last() == fsv[i as int]);
            lemma_ser_fields_seq_len_mono(fsv, i as int + 1);
        }
        r = serialised_field_len(r, &fs[i]);
        i = i + 1;
    }
    proof {
        assert(fsv.take(fsv.len() as int) =~= fsv);
    }
    r
}

/// The items of a prefix of a field list never take more bytes than the
/// whole list's items.
proof fn lemma_ser_fields_seq_len_mono(fs: Seq<FieldView>, i: int)
    requires
        0 <= i <= fs.len(),
    ensures
        spec_ser_fields_seq(fs.take(i)).len() <= spec_ser_fields_seq(fs).len(),
    decreases fs.len() - i,
{
    if i < fs.len() {
        assert(fs.take(i + 1).drop_last() =~= fs.take(i));
        lemma_ser_fields_seq_len_mono(fs, i + 1);
        assert(fs.take(fs.len() as int) =~= fs);
    } else {
        assert(fs.take(fs.len() as int) =~= fs);
    }
}

/// A variant: its name, its discriminant, then its fields.
pub open spec fn spec_ser_variant(v: VariantView) -> Seq<u8> {
    spec_ser_str(v.name) + spec_ser_bytes(v.discriminant) + spec_ser_fields(v.fields)
}

/// Writes a variant as [`spec_ser_variant`] states.
pub fn serialise_variant(bytes: &mut Vec<u8>, v: &Variant)
    ensures
        final(bytes)@ == old(bytes)@ + spec_ser_variant(v@),
{
    serialise_str(bytes, v.name.as_str());
    serialise_discriminant(bytes, &v.discriminant);
    serialise_fields(bytes, &v.fields);
    proof {
        assert(bytes@ =~= old(bytes)@ + spec_ser_variant(v@));
    }
}

/// Counts the bytes that [`serialise_variant`] writes, added to `from`.
pub fn serialised_variant_len(from: usize, v: &Variant) -> (r: usize)
    requires
        from + spec_ser_variant(v@).len() <= usize::MAX,
    ensures
        r == from + spec_ser_variant(v@).len(),
{
    let r = serialised_str_len(from, v.name.as_str());
    let r = serialised_discriminant_len(r, &v.discriminant);
    serialised_fields_len(r, &v.fields)
}

/// The items of a variant list, in order.
pub open spec fn spec_ser_variants_seq(vs: Seq<VariantView>) -> Seq<u8>
    decreases vs.len(),
{
    if vs.len() == 0 {
        Seq::empty()
    } else {
        spec_ser_variants_seq(vs.drop_last()) + spec_ser_variant(vs.last())
    }
}

/// A variant list: its length, then its items.
pub open spec fn spec_ser_variants(vs: Seq<VariantView>) -> Seq<u8> {
    spec_varint(vs.len()) + spec_ser_variants_seq(vs)
}

/// Writes a variant list as [`spec_ser_variants`] states.
pub fn serialise_variants(bytes: &mut Vec<u8>, vs: &Vec<Variant>)
    ensures
        final(bytes)@ == old(bytes)@ + spec_ser_variants(vs@.map_values(|v: Variant| v@)),
{
    let ghost vsv = vs@.map_values(|v: Variant| v@);
    serialise_usize(bytes, vs.len());
    let ghost mid = bytes@;
    let mut i: usize = 0;
    while i < vs.len()
        invariant
            i <= vs@.len(),
            vsv == vs@.map_values(|v: Variant| v@),
            bytes@ == mid + spec_ser_variants_seq(vsv.take(i as int)),
            mid == old(bytes)@ + spec_varint(vsv.len()),
        decreases vs@.len() - i,
    {
        serialise_variant(bytes, &vs[i]);
        proof {
            assert(vsv.take(i as int + 1).drop_last() =~= vsv.take(i as int));
            assert(vsv.take(i as int + 1).last() == vsv[i as int]);
            assert(bytes@ =~= mid + spec_ser_variants_seq(vsv.take(i as int + 1)));
        }
        i = i + 1;
    }
    proof {
        assert(vsv.take(vsv.len() as int) =~= vsv);
        assert(mid + spec_ser_variants_seq(vsv) =~= old(bytes)@ + spec_ser_variants(vsv));
    }
}

/// The items of a prefix of a variant list never take more bytes than the
/// whole list's items.
proof fn lemma_ser_variants_seq_len_mono(vs: Seq<VariantView>, i: int)
    requires
        0 <= i <= vs.len(),
    ensures
        spec_ser_variants_seq(vs.take(i)).len() <= spec_ser_variants_seq(vs).len(),
    decreases vs.len() - i,
{
    if i < vs.len() {
        assert(vs.take(i + 1).drop_last() =~= vs.take(i));
        lemma_ser_variants_seq_len_mono(vs, i + 1);
        assert(vs.take(vs.len() as int) =~= vs);
    } else {
        assert(vs.take(vs.len() as int) =~= vs);
    }
}

/// Counts the bytes that [`serialise_variants`] writes, added to `from`.
pub fn serialised_variants_len(from: usize, vs: &Vec<Variant>) -> (r: usize)
    requires
        from + spec_ser_variants(vs@.map_values(|v: Variant| v@)).len() <= usize::MAX,
    ensures
        r == from + spec_ser_variants(vs@.map_values(|v: Variant| v@)).len(),
{
    let ghost vsv = vs@.map_values(|v: Variant| v@);
    proof {
        lemma_varint_len(vsv.len());
        lemma_ser_variants_seq_len_mono(vsv, vsv.len() as int);
    }
    let mut r = serialised_usize_len(from, vs.len());
    let mut i: usize = 0;
    while i < vs.len()
        invariant
            i <= vs@.len(),
            vsv == vs@.map_values(|v: Variant| v@),
            r == from + spec_varint_len(vsv.len()) + spec_ser_variants_seq(vsv.take(i as int)).len(),
            from + spec_ser_variants(vsv).len() <= usize::MAX,
        decreases vs@.len() - i,
    {
        proof {
            lemma_varint_len(vsv.len());
            assert(vsv.take(i as int + 1).drop_last() =~= vsv.take(i as int));
            assert(vsv.take(i as int + 1).last() == vsv[i as int]);
            lemma_ser_variants_seq_len_mono(vsv, i as int + 1);
        }
        r = serialised_variant_len(r, &vs[i]);
        i = i + 1;
    }
    proof {
        assert(vsv.take(vsv.len() as int) =~= vsv);
    }
    r
}

/// A boolean as one byte: one for true, zero for false.
pub open spec fn spec_ser_bool(b: bool) -> Seq<u8> {
    if b {
        seq![1u8]
    } else {
        seq![0u8]
    }
}

/// Writes a boolean as [`spec_ser_bool`] states.
pub fn serialise_bool(bytes: &mut Vec<u8>, b: bool)
    ensures
        final(bytes)@ == old(bytes)@ + spec_ser_bool(b),
{
    if b {
        bytes.push(1u8);
    } else {
        bytes.push(0u8);
    }
    proof {
        assert(bytes@ =~= old(bytes)@ + spec_ser_bool(b));
    }
}

/// A type structure: a tag byte naming the shape, then the shape's parts.
pub open spec fn spec_ser_structure(s: TypeStructureView) -> Seq<u8> {
    match s {
        TypeStructureView::Struct { repr, fields } => seq![0u8] + spec_ser_str(repr)
            + spec_ser_fields(fields),
        TypeStructureView::Union { repr, fields } => seq![1u8] + spec_ser_str(repr)
            + spec_ser_fields(fields),
        TypeStructureView::Enum { repr, variants } => seq![2u8] + spec_ser_str(repr)
            + spec_ser_variants(variants),
        TypeStructureView::Primitive => seq![3u8],
        TypeStructureView::Array { item, len } => seq![4u8] + spec_ser_str(item) + spec_varint(len),
        TypeStructureView::Reference { inner, mutability } => seq![5u8] + spec_ser_str(inner)
            + spec_ser_bool(mutability),
        TypeStructureView::Pointer { inner, mutability } => seq![6u8] + spec_ser_str(inner)
            + spec_ser_bool(mutability),
    }
}

/// Writes a type structure as [`spec_ser_structure`] states.
pub fn serialise_structure(bytes: &mut Vec<u8>, s: &TypeStructure)
    ensures
        final(bytes)@ == old(bytes)@ + spec_ser_structure(s@),
{
    match s {
        TypeStructure::Struct { repr, fields } => {
            bytes.push(0u8);
            serialise_str(bytes, repr.as_str());
            serialise_fields(bytes, fields);
        },
        TypeStructure::Union { repr, fields } => {
            bytes.push(1u8);
            serialise_str(bytes, repr.as_str());
            serialise_fields(bytes, fields);
        },
        TypeStructure::Enum { repr, variants } => {
            bytes.push(2u8);
            serialise_str(bytes, repr.as_str());
            serialise_variants(bytes, variants);
        },
        TypeStructure::Primitive => {
            bytes.push(3u8);
        },
        TypeStructure::Array { item, len } => {
            bytes.push(4u8);
            serialise_str(bytes, item.as_str());
            serialise_usize(bytes, *len);
        },
        TypeStructure::Reference { inner, mutability } => {
            bytes.push(5u8);
            serialise_str(bytes, inner.as_str());
            serialise_bool(bytes, *mutability);
        },
        TypeStructure::Pointer { inner, mutability } => {
            bytes.push(6u8);
            serialise_str(bytes, inner.as_str());
            serialise_bool(bytes, *mutability);
        },
    }
    proof {
        assert(bytes@ =~= old(bytes)@ + spec_ser_structure(s@));
    }
}

/// Counts the bytes that [`serialise_structure`] writes, added to `from`.
pub fn serialised_structure_len(from: usize, s: &TypeStructure) -> (r: usize)
    requires
        from + spec_ser_structure(s@).len() <= usize::MAX,
    ensures
        r == from + spec_ser_structure(s@).len(),
{
    match s {
        TypeStructure::Struct { repr, fields } => {
            let r = serialised_str_len(from + 1, repr.as_str());
            serialised_fields_len(r, fields)
        },
        TypeStructure::Union { repr, fields } => {
            let r = serialised_str_len(from + 1, repr.as_str());
            serialised_fields_len(r, fields)
        },
        TypeStructure::Enum { repr, variants } => {
            let r = serialised_str_len(from + 1, repr.as_str());
            serialised_variants_len(r, variants)
        },
        TypeStructure::Primitive => from + 1,
        TypeStructure::Array { item, len } => {
            proof {
                lemma_varint_len(*len as nat);
            }
            let r = serialised_str_len(from + 1, item.as_str());
            serialised_usize_len(r, *len)
        },
        TypeStructure::Reference { inner, mutability } => {
            let r = serialised_str_len(from + 1, inner.as_str());
            r + 1
        },
        TypeStructure::Pointer { inner, mutability } => {
            let r = serialised_str_len(from + 1, inner.as_str());
            r + 1
        },
    }
}

/// One type's layout: its name, its size, its alignment, then its structure.
pub open spec fn spec_ser_info(t: TypeLayoutInfoView) -> Seq<u8> {
    spec_ser_str(t.name) + spec_varint(t.size) + spec_varint(t.alignment) + spec_ser_structure(
        t.structure,
    )
}

/// Writes one type's layout as [`spec_ser_info`] states.
pub fn serialise_type_layout_info(bytes: &mut Vec<u8>, t: &TypeLayoutInfo)
    ensures
        final(bytes)@ == old(bytes)@ + spec_ser_info(t@),
{
    serialise_str(bytes, t.name.as_str());
    serialise_usize(bytes, t.size);
    serialise_usize(bytes, t.alignment);
    serialise_structure(bytes, &t.structure);
    proof {
        assert(bytes@ =~= old(bytes)@ + spec_ser_info(t@));
    }
}

/// Counts the bytes that [`serialise_type_layout_info`] writes, added to
/// `from`.
pub fn serialised_type_layout_info_len(from: usize, t: &TypeLayoutInfo) -> (r: usize)
    requires
        from + spec_ser_info(t@).len() <= usize::MAX,
    ensures
        r == from + spec_ser_info(t@).len(),
{
    proof {
        lemma_varint_len(t@.size);
        lemma_varint_len(t@.alignment);
    }
    let r = serialised_str_len(from, t.name.as_str());
    let r = serialised_usize_len(r, t.size);
    let r = serialised_usize_len(r, t.alignment);
    serialised_structure_len(r, &t.structure)
}

/// The items of a layout list, in order.
pub open spec fn spec_ser_infos_seq(ts: Seq<TypeLayoutInfoView>) -> Seq<u8>
    decreases ts.len(),
{
    if ts.len() == 0 {
        Seq::empty()
    } else {
        spec_ser_infos_seq(ts.drop_last()) + spec_ser_info(ts.last())
    }
}

/// A whole graph's body: the root type's name, then the recorded layouts as
/// a list.
pub open spec fn spec_ser_graph(g: TypeLayoutGraphView) -> Seq<u8> {
    spec_ser_str(g.ty) + spec_varint(g.tys.len()) + spec_ser_infos_seq(g.tys)
}

/// Writes a graph's body as [`spec_ser_graph`] states.
pub fn serialise_type_layout_graph(bytes: &mut Vec<u8>, g: &TypeLayoutGraph)
    ensures
        final(bytes)@ == old(bytes)@ + spec_ser_graph(g@),
{
    let ghost tsv = g.tys@.map_values(|t: TypeLayoutInfo| t@);
    serialise_str(bytes, g.ty.as_str());
    serialise_usize(bytes, g.tys.len());
    let ghost mid = bytes@;
    let mut i: usize = 0;
    while i < g.tys.len()
        invariant
            i <= g.tys@.len(),
            tsv == g.tys@.map_values(|t: TypeLayoutInfo| t@),
            bytes@ == mid + spec_ser_infos_seq(tsv.take(i as int)),
            mid == old(bytes)@ + spec_ser_str(g.ty@) + spec_varint(tsv.len()),
        decreases g.tys@.len() - i,
    {
        serialise_type_layout_info(bytes, &g.tys[i]);
        proof {
            assert(tsv.take(i as int + 1).drop_last() =~= tsv.take(i as int));
            assert(tsv.take(i as int + 1).last() == tsv[i as int]);
            assert(bytes@ =~= mid + spec_ser_infos_seq(tsv.take(i as int + 1)));
        }
        i = i + 1;
    }
    proof {
        assert(tsv.take(tsv.len() as int) =~= tsv);
        assert(mid + spec_ser_infos_seq(tsv) =~= old(bytes)@ + spec_ser_graph(g@));
    }
}

/// The items of a prefix of a layout list never take more bytes than the
/// whole list's items.
proof fn lemma_ser_infos_seq_len_mono(ts: Seq<TypeLayoutInfoView>, i: int)
    requires
        0 <= i <= ts.len(),
    ensures
        spec_ser_infos_seq(ts.take(i)).len() <= spec_ser_infos_seq(ts).len(),
    decreases ts.len() - i,
{
    if i < ts.len() {
        assert(ts.take(i + 1).drop_last() =~= ts.take(i));
        lemma_ser_infos_seq_len_mono(ts, i + 1);
        assert(ts.take(ts.len() as int) =~= ts);
    } else {
        assert(ts.take(ts.len() as int) =~= ts);
    }
}

/// Two equal concatenations with equally long first parts have equal parts.
proof fn lemma_concat_split(s1: Seq<u8>, r1: Seq<u8>, s2: Seq<u8>, r2: Seq<u8>)
    requires
        s1.len() == s2.len(),
        s1 + r1 == s2 + r2,
    ensures
        s1 == s2,
        r1 == r2,
{
    assert(s1 =~= s2) by {
        assert(forall|i: int|
            0 <= i < s1.len() ==> s1[i] == (s1 + r1)[i] && s2[i] == (s2 + r2)[i]);
    }
    assert((s1 + r1).len() == s1.len() + r1.len());
    assert((s2 + r2).len() == s2.len() + r2.len());
    assert(r1.len() == r2.len());
    assert forall|i: int| 0 <= i < r1.len() implies r1[i] == r2[i] by {
        assert(r1[i] == (s1 + r1)[s1.len() + i]);
        assert(r2[i] == (s2 + r2)[s2.len() + i]);
    }
    assert(r1 =~= r2);
}

/// The varint encoding is a prefix code: whatever follows two encodings,
/// equal bytes mean equal numbers and equal remainders.
pub proof fn lemma_varint_prefix(a: nat, b: nat, r1: Seq<u8>, r2: Seq<u8>)
    requires
        spec_varint(a) + r1 == spec_varint(b) + r2,
    ensures
        a == b,
        r1 == r2,
    decreases a,
{
    let s1 = spec_varint(a) + r1;
    let s2 = spec_varint(b) + r2;
    assert(s1[0] == spec_varint(a)[0]);
    assert(s2[0] == spec_varint(b)[0]);
    if a < 128 && b < 128 {
        lemma_concat_split(spec_varint(a), r1, spec_varint(b), r2);
    } else if a >= 128 && b >= 128 {
        assert(spec_varint(a) + r1 =~= seq![(a % 128 + 128) as u8] + (spec_varint(a / 128) + r1));
        assert(spec_varint(b) + r2 =~= seq![(b % 128 + 128) as u8] + (spec_varint(b / 128) + r2));
        lemma_concat_split(
            seq![(a % 128 + 128) as u8],
            spec_varint(a / 128) + r1,
            seq![(b % 128 + 128) as u8],
            spec_varint(b / 128) + r2,
        );
        lemma_varint_prefix(a / 128, b / 128, r1, r2);
        assert(a % 128 == b % 128);
        assert(a == 128 * (a / 128) + a % 128);
        assert(b == 128 * (b / 128) + b % 128);
    } else {
        // One first byte is below 128, the other is not: the encodings
        // cannot agree.
        assert(false);
    }
}

/// The byte-string encoding is a prefix code.
pub proof fn lemma_ser_bytes_prefix(b1: Seq<u8>, b2: Seq<u8>, r1: Seq<u8>, r2: Seq<u8>)
    requires
        spec_ser_bytes(b1) + r1 == spec_ser_bytes(b2) + r2,
    ensures
        b1 == b2,
        r1 == r2,
{
    assert(spec_ser_bytes(b1) + r1 =~= spec_varint(b1.len()) + (b1 + r1));
    assert(spec_ser_bytes(b2) + r2 =~= spec_varint(b2.len()) + (b2 + r2));
    lemma_varint_prefix(b1.len(), b2.len(), b1 + r1, b2 + r2);
    lemma_concat_split(b1, r1, b2, r2);
}

/// The string encoding is a prefix code.
pub proof fn lemma_ser_str_prefix(s1: Seq<char>, s2: Seq<char>, r1: Seq<u8>, r2: Seq<u8>)
    requires
        spec_ser_str(s1) + r1 == spec_ser_str(s2) + r2,
    ensures
        s1 == s2,
        r1 == r2,
{
    lemma_ser_bytes_prefix(encode_utf8(s1), encode_utf8(s2), r1, r2);
    vstd::utf8::encode_utf8_decode_utf8(s1);
    vstd::utf8::encode_utf8_decode_utf8(s2);
}

/// The boolean encoding is a prefix code.
proof fn lemma_ser_bool_prefix(b1: bool, b2: bool, r1: Seq<u8>, r2: Seq<u8>)
    requires
        spec_ser_bool(b1) + r1 == spec_ser_bool(b2) + r2,
    ensures
        b1 == b2,
        r1 == r2,
{
    assert((spec_ser_bool(b1) + r1)[0] == spec_ser_bool(b1)[0]);
    assert((spec_ser_bool(b2) + r2)[0] == spec_ser_bool(b2)[0]);
    lemma_concat_split(spec_ser_bool(b1), r1, spec_ser_bool(b2), r2);
}

/// The field encoding is a prefix code.
proof fn lemma_ser_field_prefix(x1: FieldView, x2: FieldView, r1: Seq<u8>, r2: Seq<u8>)
    requires
        spec_ser_field(x1) + r1 == spec_ser_field(x2) + r2,
    ensures
        x1 == x2,
        r1 == r2,
{
    assert(spec_ser_field(x1) + r1 =~= spec_ser_str(x1.name) + (spec_varint(x1.offset) + (
    spec_ser_str(x1.ty) + r1)));
    assert(spec_ser_field(x2) + r2 =~= spec_ser_str(x2.name) + (spec_varint(x2.offset) + (
    spec_ser_str(x2.ty) + r2)));
    lemma_ser_str_prefix(
        x1.name,
        x2.name,
        spec_varint(x1.offset) + (spec_ser_str(x1.ty) + r1),
        spec_varint(x2.offset) + (spec_ser_str(x2.ty) + r2),
    );
    lemma_varint_prefix(x1.offset, x2.offset, spec_ser_str(x1.ty) + r1, spec_ser_str(x2.ty) + r2);
    lemma_ser_str_prefix(x1.ty, x2.ty, r1, r2);
}

/// A field list's items can also be read off the front.
proof fn lemma_ser_fields_seq_first(fs: Seq<FieldView>)
    requires
        fs.len() > 0,
    ensures
        spec_ser_fields_seq(fs) == spec_ser_field(fs.first()) + spec_ser_fields_seq(
            fs.drop_first(),
        ),
    decreases fs.len(),
{
    if fs.len() == 1 {
        assert(fs.drop_last() =~= Seq::<FieldView>::empty());
        assert(fs.drop_first() =~= Seq::<FieldView>::empty());
        assert(fs.last() == fs.first());
        assert(spec_ser_fields_seq(fs) =~= spec_ser_field(fs.first()) + spec_ser_fields_seq(
            fs.drop_first(),
        ));
    } else {
        lemma_ser_fields_seq_first(fs.drop_last());
        assert(fs.drop_last().first() == fs.first());
        assert(fs.drop_last().drop_first() =~= fs.drop_first().drop_last());
        assert(fs.drop_first().last() == fs.last());
        assert(spec_ser_fields_seq(fs) == (spec_ser_field(fs.first()) + spec_ser_fields_seq(
            fs.drop_first().drop_last(),
        )) + spec_ser_field(fs.drop_first().last()));
        assert(spec_ser_fields_seq(fs) =~= spec_ser_field(fs.first()) + spec_ser_fields_seq(
            fs.drop_first(),
        ));
    }
}

/// Equally long field lists with matching serialised items are equal.
proof fn lemma_ser_fields_items_prefix(
    f1: Seq<FieldView>,
    f2: Seq<FieldView>,
    r1: Seq<u8>,
    r2: Seq<u8>,
)
    requires
        f1.len() == f2.len(),
        spec_ser_fields_seq(f1) + r1 == spec_ser_fields_seq(f2) + r2,
    ensures
        f1 == f2,
        r1 == r2,
    decreases f1.len(),
{
    if f1.len() == 0 {
        assert(spec_ser_fields_seq(f1) + r1 =~= r1);
        assert(spec_ser_fields_seq(f2) + r2 =~= r2);
    } else {
        lemma_ser_fields_seq_first(f1);
        lemma_ser_fields_seq_first(f2);
        assert(spec_ser_fields_seq(f1) + r1 =~= spec_ser_field(f1.first()) + (spec_ser_fields_seq(
            f1.drop_first(),
        ) + r1));
        assert(spec_ser_fields_seq(f2) + r2 =~= spec_ser_field(f2.first()) + (spec_ser_fields_seq(
            f2.drop_first(),
        ) + r2));
        lemma_ser_field_prefix(
            f1.first(),
            f2.first(),
            spec_ser_fields_seq(f1.drop_first()) + r1,
            spec_ser_fields_seq(f2.drop_first()) + r2,
        );
        lemma_ser_fields_items_prefix(f1.drop_first(), f2.drop_first(), r1, r2);
        assert(f1 =~= f2) by {
            assert(forall|i: int| 0 < i < f1.len() ==> f1[i] == f1.drop_first()[i - 1]);
            assert(forall|i: int| 0 < i < f2.len() ==> f2[i] == f2.drop_first()[i - 1]);
        }
    }
}

/// The field-list encoding is a prefix code.
proof fn lemma_ser_fields_prefix(f1: Seq<FieldView>, f2: Seq<FieldView>, r1: Seq<u8>, r2: Seq<u8>)
    requires
        spec_ser_fields(f1) + r1 == spec_ser_fields(f2) + r2,
    ensures
        f1 == f2,
        r1 == r2,
{
    assert(spec_ser_fields(f1) + r1 =~= spec_varint(f1.len()) + (spec_ser_fields_seq(f1) + r1));
    assert(spec_ser_fields(f2) + r2 =~= spec_varint(f2.len()) + (spec_ser_fields_seq(f2) + r2));
    lemma_varint_prefix(
        f1.len(),
        f2.len(),
        spec_ser_fields_seq(f1) + r1,
        spec_ser_fields_seq(f2) + r2,
    );
    lemma_ser_fields_items_prefix(f1, f2, r1, r2);
}

/// The variant encoding is a prefix code.
proof fn lemma_ser_variant_prefix(x1: VariantView, x2: VariantView, r1: Seq<u8>, r2: Seq<u8>)
    requires
        spec_ser_variant(x1) + r1 == spec_ser_variant(x2) + r2,
    ensures
        x1 == x2,
        r1 == r2,
{
    assert(spec_ser_variant(x1) + r1 =~= spec_ser_str(x1.name) + (spec_ser_bytes(x1.discriminant)
        + (spec_ser_fields(x1.fields) + r1)));
    assert(spec_ser_variant(x2) + r2 =~= spec_ser_str(x2.name) + (spec_ser_bytes(x2.discriminant)
        + (spec_ser_fields(x2.fields) + r2)));
    lemma_ser_str_prefix(
        x1.name,
        x2.name,
        spec_ser_bytes(x1.discriminant) + (spec_ser_fields(x1.fields) + r1),
        spec_ser_bytes(x2.discriminant) + (spec_ser_fields(x2.fields) + r2),
    );
    lemma_ser_bytes_prefix(
        x1.discriminant,
        x2.discriminant,
        spec_ser_fields(x1.fields) + r1,
        spec_ser_fields(x2.fields) + r2,
    );
    lemma_ser_fields_prefix(x1.fields, x2.fields, r1, r2);
}

/// A variant list's items can also be read off the front.
proof fn lemma_ser_variants_seq_first(vs: Seq<VariantView>)
    requires
        vs.len() > 0,
    ensures
        spec_ser_variants_seq(vs) == spec_ser_variant(vs.first()) + spec_ser_variants_seq(
            vs.drop_first(),
        ),
    decreases vs.len(),
{
    if vs.len() == 1 {
        assert(vs.drop_last() =~= Seq::<VariantView>::empty());
        assert(vs.drop_first() =~= Seq::<VariantView>::empty());
        assert(vs.last() == vs.first());
        assert(spec_ser_variants_seq(vs) =~= spec_ser_variant(vs.first()) + spec_ser_variants_seq(
            vs.drop_first(),
        ));
    } else {
        lemma_ser_variants_seq_first(vs.drop_last());
        assert(vs.drop_last().first() == vs.first());
        assert(vs.drop_last().drop_first() =~= vs.drop_first().drop_last());
        assert(vs.drop_first().last() == vs.last());
        assert(spec_ser_variants_seq(vs) == (spec_ser_variant(vs.first())
            + spec_ser_variants_seq(vs.drop_first().drop_last())) + spec_ser_variant(
            vs.drop_first().last(),
        ));
        assert(spec_ser_variants_seq(vs) =~= spec_ser_variant(vs.first())
            + spec_ser_variants_seq(vs.drop_first()));
    }
}

/// Equally long variant lists with matching serialised items are equal.
proof fn lemma_ser_variants_items_prefix(
    v1: Seq<VariantView>,
    v2: Seq<VariantView>,
    r1: Seq<u8>,
    r2: Seq<u8>,
)
    requires
        v1.len() == v2.len(),
        spec_ser_variants_seq(v1) + r1 == spec_ser_variants_seq(v2) + r2,
    ensures
        v1 == v2,
        r1 == r2,
    decreases v1.len(),
{
    if v1.len() == 0 {
        assert(spec_ser_variants_seq(v1) + r1 =~= r1);
        assert(spec_ser_variants_seq(v2) + r2 =~= r2);
    } else {
        lemma_ser_variants_seq_first(v1);
        lemma_ser_variants_seq_first(v2);
        assert(spec_ser_variants_seq(v1) + r1 =~= spec_ser_variant(v1.first()) + (
        spec_ser_variants_seq(v1.drop_first()) + r1));
        assert(spec_ser_variants_seq(v2) + r2 =~= spec_ser_variant(v2.first()) + (
        spec_ser_variants_seq(v2.drop_first()) + r2));
        lemma_ser_variant_prefix(
            v1.first(),
            v2.first(),
            spec_ser_variants_seq(v1.drop_first()) + r1,
            spec_ser_variants_seq(v2.drop_first()) + r2,
        );
        lemma_ser_variants_items_prefix(v1.drop_first(), v2.drop_first(), r1, r2);
        assert(v1 =~= v2) by {
            assert(forall|i: int| 0 < i < v1.len() ==> v1[i] == v1.drop_first()[i - 1]);
            assert(forall|i: int| 0 < i < v2.len() ==> v2[i] == v2.drop_first()[i - 1]);
        }
    }
}

/// The variant-list encoding is a prefix code.
proof fn lemma_ser_variants_prefix(
    v1: Seq<VariantView>,
    v2: Seq<VariantView>,
    r1: Seq<u8>,
    r2: Seq<u8>,
)
    requires
        spec_ser_variants(v1) + r1 == spec_ser_variants(v2) + r2,
    ensures
        v1 == v2,
        r1 == r2,
{
    assert(spec_ser_variants(v1) + r1 =~= spec_varint(v1.len()) + (spec_ser_variants_seq(v1)
        + r1));
    assert(spec_ser_variants(v2) + r2 =~= spec_varint(v2.len()) + (spec_ser_variants_seq(v2)
        + r2));
    lemma_varint_prefix(
        v1.len(),
        v2.len(),
        spec_ser_variants_seq(v1) + r1,
        spec_ser_variants_seq(v2) + r2,
    );
    lemma_ser_variants_items_prefix(v1, v2, r1, r2);
}

/// The tag byte that opens a serialised structure.
spec fn spec_structure_tag(s: TypeStructureView) -> u8 {
    match s {
        TypeStructureView::Struct { .. } => 0,
        TypeStructureView::Union { .. } => 1,
        TypeStructureView::Enum { .. } => 2,
        TypeStructureView::Primitive => 3,
        TypeStructureView::Array { .. } => 4,
        TypeStructureView::Reference { .. } => 5,
        TypeStructureView::Pointer { .. } => 6,
    }
}

/// What follows the tag byte of a serialised structure.
spec fn spec_ser_structure_rest(s: TypeStructureView) -> Seq<u8> {
    match s {
        TypeStructureView::Struct { repr, fields } => spec_ser_str(repr) + spec_ser_fields(fields),
        TypeStructureView::Union { repr, fields } => spec_ser_str(repr) + spec_ser_fields(fields),
        TypeStructureView::Enum { repr, variants } => spec_ser_str(repr) + spec_ser_variants(
            variants,
        ),
        TypeStructureView::Primitive => Seq::empty(),
        TypeStructureView::Array { item, len } => spec_ser_str(item) + spec_varint(len),
        TypeStructureView::Reference { inner, mutability } => spec_ser_str(inner) + spec_ser_bool(
            mutability,
        ),
        TypeStructureView::Pointer { inner, mutability } => spec_ser_str(inner) + spec_ser_bool(
            mutability,
        ),
    }
}

/// A serialised structure is its tag byte, then the rest.
proof fn lemma_ser_structure_open(s: TypeStructureView)
    ensures
        spec_ser_structure(s) == seq![spec_structure_tag(s)] + spec_ser_structure_rest(s),
{
    assert(spec_ser_structure(s) =~= seq![spec_structure_tag(s)] + spec_ser_structure_rest(s));
}

/// Two struct structures with one serialised rest are equal.
proof fn lemma_ser_rest_struct(
    s1: TypeStructureView,
    s2: TypeStructureView,
    r1: Seq<u8>,
    r2: Seq<u8>,
)
    requires
        s1 is Struct,
        s2 is Struct,
        spec_ser_structure_rest(s1) + r1 == spec_ser_structure_rest(s2) + r2,
    ensures
        s1 == s2,
        r1 == r2,
{
    assert(spec_ser_structure_rest(s1) + r1 =~= spec_ser_str(s1->Struct_repr) + (spec_ser_fields(
        s1->Struct_fields,
    ) + r1));
    assert(spec_ser_structure_rest(s2) + r2 =~= spec_ser_str(s2->Struct_repr) + (spec_ser_fields(
        s2->Struct_fields,
    ) + r2));
    lemma_ser_str_prefix(
        s1->Struct_repr,
        s2->Struct_repr,
        spec_ser_fields(s1->Struct_fields) + r1,
        spec_ser_fields(s2->Struct_fields) + r2,
    );
    lemma_ser_fields_prefix(s1->Struct_fields, s2->Struct_fields, r1, r2);
}

/// Two union structures with one serialised rest are equal.
proof fn lemma_ser_rest_union(
    s1: TypeStructureView,
    s2: TypeStructureView,
    r1: Seq<u8>,
    r2: Seq<u8>,
)
    requires
        s1 is Union,
        s2 is Union,
        spec_ser_structure_rest(s1) + r1 == spec_ser_structure_rest(s2) + r2,
    ensures
        s1 == s2,
        r1 == r2,
{
    assert(spec_ser_structure_rest(s1) + r1 =~= spec_ser_str(s1->Union_repr) + (spec_ser_fields(
        s1->Union_fields,
    ) + r1));
    assert(spec_ser_structure_rest(s2) + r2 =~= spec_ser_str(s2->Union_repr) + (spec_ser_fields(
        s2->Union_fields,
    ) + r2));
    lemma_ser_str_prefix(
        s1->Union_repr,
        s2->Union_repr,
        spec_ser_fields(s1->Union_fields) + r1,
        spec_ser_fields(s2->Union_fields) + r2,
    );
    lemma_ser_fields_prefix(s1->Union_fields, s2->Union_fields, r1, r2);
}

/// Two enum structures with one serialised rest are equal.
proof fn lemma_ser_rest_enum(
    s1: TypeStructureView,
    s2: TypeStructureView,
    r1: Seq<u8>,
    r2: Seq<u8>,
)
    requires
        s1 is Enum,
        s2 is Enum,
        spec_ser_structure_rest(s1) + r1 == spec_ser_structure_rest(s2) + r2,
    ensures
        s1 == s2,
        r1 == r2,
{
    assert(spec_ser_structure_rest(s1) + r1 =~= spec_ser_str(s1->Enum_repr) + (spec_ser_variants(
        s1->Enum_variants,
    ) + r1));
    assert(spec_ser_structure_rest(s2) + r2 =~= spec_ser_str(s2->Enum_repr) + (spec_ser_variants(
        s2->Enum_variants,
    ) + r2));
    lemma_ser_str_prefix(
        s1->Enum_repr,
        s2->Enum_repr,
        spec_ser_variants(s1->Enum_variants) + r1,
        spec_ser_variants(s2->Enum_variants) + r2,
    );
    lemma_ser_variants_prefix(s1->Enum_variants, s2->Enum_variants, r1, r2);
}

/// Two array structures with one serialised rest are equal.
proof fn lemma_ser_rest_array(
    s1: TypeStructureView,
    s2: TypeStructureView,
    r1: Seq<u8>,
    r2: Seq<u8>,
)
    requires
        s1 is Array,
        s2 is Array,
        spec_ser_structure_rest(s1) + r1 == spec_ser_structure_rest(s2) + r2,
    ensures
        s1 == s2,
        r1 == r2,
{
    assert(spec_ser_structure_rest(s1) + r1 =~= spec_ser_str(s1->Array_item) + (spec_varint(
        s1->Array_len,
    ) + r1));
    assert(spec_ser_structure_rest(s2) + r2 =~= spec_ser_str(s2->Array_item) + (spec_varint(
        s2->Array_len,
    ) + r2));
    lemma_ser_str_prefix(
        s1->Array_item,
        s2->Array_item,
        spec_varint(s1->Array_len) + r1,
        spec_varint(s2->Array_len) + r2,
    );
    lemma_varint_prefix(s1->Array_len, s2->Array_len, r1, r2);
}

/// Two reference structures with one serialised rest are equal.
proof fn lemma_ser_rest_reference(
    s1: TypeStructureView,
    s2: TypeStructureView,
    r1: Seq<u8>,
    r2: Seq<u8>,
)
    requires
        s1 is Reference,
        s2 is Reference,
        spec_ser_structure_rest(s1) + r1 == spec_ser_structure_rest(s2) + r2,
    ensures
        s1 == s2,
        r1 == r2,
{
    assert(spec_ser_structure_rest(s1) + r1 =~= spec_ser_str(s1->Reference_inner) + (
    spec_ser_bool(s1->Reference_mutability) + r1));
    assert(spec_ser_structure_rest(s2) + r2 =~= spec_ser_str(s2->Reference_inner) + (
    spec_ser_bool(s2->Reference_mutability) + r2));
    lemma_ser_str_prefix(
        s1->Reference_inner,
        s2->Reference_inner,
        spec_ser_bool(s1->Reference_mutability) + r1,
        spec_ser_bool(s2->Reference_mutability) + r2,
    );
    lemma_ser_bool_prefix(s1->Reference_mutability, s2->Reference_mutability, r1, r2);
}

/// Two pointer structures with one serialised rest are equal.
proof fn lemma_ser_rest_pointer(
    s1: TypeStructureView,
    s2: TypeStructureView,
    r1: Seq<u8>,
    r2: Seq<u8>,
)
    requires
        s1 is Pointer,
        s2 is Pointer,
        spec_ser_structure_rest(s1) + r1 == spec_ser_structure_rest(s2) + r2,
    ensures
        s1 == s2,
        r1 == r2,
{
    assert(spec_ser_structure_rest(s1) + r1 =~= spec_ser_str(s1->Pointer_inner) + (spec_ser_bool(
        s1->Pointer_mutability,
    ) + r1));
    assert(spec_ser_structure_rest(s2) + r2 =~= spec_ser_str(s2->Pointer_inner) + (spec_ser_bool(
        s2->Pointer_mutability,
    ) + r2));
    lemma_ser_str_prefix(
        s1->Pointer_inner,
        s2->Pointer_inner,
        spec_ser_bool(s1->Pointer_mutability) + r1,
        spec_ser_bool(s2->Pointer_mutability) + r2,
    );
    lemma_ser_bool_prefix(s1->Pointer_mutability, s2->Pointer_mutability, r1, r2);
}

/// The structure encoding is a prefix code: the tag byte decides the shape,
/// and each shape's parts are prefix codes in turn.
proof fn lemma_ser_structure_prefix(
    s1: TypeStructureView,
    s2: TypeStructureView,
    r1: Seq<u8>,
    r2: Seq<u8>,
)
    requires
        spec_ser_structure(s1) + r1 == spec_ser_structure(s2) + r2,
    ensures
        s1 == s2,
        r1 == r2,
{
    let t1 = spec_structure_tag(s1);
    let t2 = spec_structure_tag(s2);
    let x1 = spec_ser_structure_rest(s1);
    let x2 = spec_ser_structure_rest(s2);
    lemma_ser_structure_open(s1);
    lemma_ser_structure_open(s2);
    assert(spec_ser_structure(s1) + r1 =~= seq![t1] + (x1 + r1));
    assert(spec_ser_structure(s2) + r2 =~= seq![t2] + (x2 + r2));
    lemma_concat_split(seq![t1], x1 + r1, seq![t2], x2 + r2);
    assert(t1 == t2) by {
        assert(seq![t1][0] == seq![t2][0]);
    }
    if s1 is Struct {
        lemma_ser_rest_struct(s1, s2, r1, r2);
    } else if s1 is Union {
        lemma_ser_rest_union(s1, s2, r1, r2);
    } else if s1 is Enum {
        lemma_ser_rest_enum(s1, s2, r1, r2);
    } else if s1 is Primitive {
        assert(x1 + r1 =~= r1);
        assert(x2 + r2 =~= r2);
    } else if s1 is Array {
        lemma_ser_rest_array(s1, s2, r1, r2);
    } else if s1 is Reference {
        lemma_ser_rest_reference(s1, s2, r1, r2);
    } else {
        lemma_ser_rest_pointer(s1, s2, r1, r2);
    }
}

/// The layout encoding is a prefix code.
proof fn lemma_ser_info_prefix(t1: TypeLayoutInfoView, t2: TypeLayoutInfoView, r1: Seq<u8>, r2: Seq<u8>)
    requires
        spec_ser_info(t1) + r1 == spec_ser_info(t2) + r2,
    ensures
        t1 == t2,
        r1 == r2,
{
    assert(spec_ser_info(t1) + r1 =~= spec_ser_str(t1.name) + (spec_varint(t1.size) + (
    spec_varint(t1.alignment) + (spec_ser_structure(t1.structure) + r1))));
    assert(spec_ser_info(t2) + r2 =~= spec_ser_str(t2.name) + (spec_varint(t2.size) + (
    spec_varint(t2.alignment) + (spec_ser_structure(t2.structure) + r2))));
    lemma_ser_str_prefix(
        t1.name,
        t2.name,
        spec_varint(t1.size) + (spec_varint(t1.alignment) + (spec_ser_structure(t1.structure)
            + r1)),
        spec_varint(t2.size) + (spec_varint(t2.alignment) + (spec_ser_structure(t2.structure)
            + r2)),
    );
    lemma_varint_prefix(
        t1.size,
        t2.size,
        spec_varint(t1.alignment) + (spec_ser_structure(t1.structure) + r1),
        spec_varint(t2.alignment) + (spec_ser_structure(t2.structure) + r2),
    );
    lemma_varint_prefix(
        t1.alignment,
        t2.alignment,
        spec_ser_structure(t1.structure) + r1,
        spec_ser_structure(t2.structure) + r2,
    );
    lemma_ser_structure_prefix(t1.structure, t2.structure, r1, r2);
}

/// A layout list's items can also be read off the front.
proof fn lemma_ser_infos_seq_first(ts: Seq<TypeLayoutInfoView>)
    requires
        ts.len() > 0,
    ensures
        spec_ser_infos_seq(ts) == spec_ser_info(ts.first()) + spec_ser_infos_seq(ts.drop_first()),
    decreases ts.len(),
{
    if ts.len() == 1 {
        assert(ts.drop_last() =~= Seq::<TypeLayoutInfoView>::empty());
        assert(ts.drop_first() =~= Seq::<TypeLayoutInfoView>::empty());
        assert(ts.last() == ts.first());
        assert(spec_ser_infos_seq(ts) =~= spec_ser_info(ts.first()) + spec_ser_infos_seq(
            ts.drop_first(),
        ));
    } else {
        lemma_ser_infos_seq_first(ts.drop_last());
        assert(ts.drop_last().first() == ts.first());
        assert(ts.drop_last().drop_first() =~= ts.drop_first().drop_last());
        assert(ts.drop_first().last() == ts.last());
        assert(spec_ser_infos_seq(ts) == (spec_ser_info(ts.first()) + spec_ser_infos_seq(
            ts.drop_first().drop_last(),
        )) + spec_ser_info(ts.drop_first().last()));
        assert(spec_ser_infos_seq(ts) =~= spec_ser_info(ts.first()) + spec_ser_infos_seq(
            ts.drop_first(),
        ));
    }
}

/// Equally long layout lists with matching serialised items are equal.
proof fn lemma_ser_infos_items_prefix(
    t1: Seq<TypeLayoutInfoView>,
    t2: Seq<TypeLayoutInfoView>,
    r1: Seq<u8>,
    r2: Seq<u8>,
)
    requires
        t1.len() == t2.len(),
        spec_ser_infos_seq(t1) + r1 == spec_ser_infos_seq(t2) + r2,
    ensures
        t1 == t2,
        r1 == r2,
    decreases t1.len(),
{
    if t1.len() == 0 {
        assert(spec_ser_infos_seq(t1) + r1 =~= r1);
        assert(spec_ser_infos_seq(t2) + r2 =~= r2);
    } else {
        lemma_ser_infos_seq_first(t1);
        lemma_ser_infos_seq_first(t2);
        assert(spec_ser_infos_seq(t1) + r1 =~= spec_ser_info(t1.first()) + (spec_ser_infos_seq(
            t1.drop_first(),
        ) + r1));
        assert(spec_ser_infos_seq(t2) + r2 =~= spec_ser_info(t2.first()) + (spec_ser_infos_seq(
            t2.drop_first(),
        ) + r2));
        lemma_ser_info_prefix(
            t1.first(),
            t2.first(),
            spec_ser_infos_seq(t1.drop_first()) + r1,
            spec_ser_infos_seq(t2.drop_first()) + r2,
        );
        lemma_ser_infos_items_prefix(t1.drop_first(), t2.drop_first(), r1, r2);
        assert(t1 =~= t2) by {
            assert(forall|i: int| 0 < i < t1.len() ==> t1[i] == t1.drop_first()[i - 1]);
            assert(forall|i: int| 0 < i < t2.len() ==> t2[i] == t2.drop_first()[i - 1]);
        }
    }
}

/// The graph-body encoding is a prefix code.
proof fn lemma_ser_graph_prefix(
    g1: TypeLayoutGraphView,
    g2: TypeLayoutGraphView,
    r1: Seq<u8>,
    r2: Seq<u8>,
)
    requires
        spec_ser_graph(g1) + r1 == spec_ser_graph(g2) + r2,
    ensures
        g1 == g2,
        r1 == r2,
{
    assert(spec_ser_graph(g1) + r1 =~= spec_ser_str(g1.ty) + (spec_varint(g1.tys.len()) + (
    spec_ser_infos_seq(g1.tys) + r1)));
    assert(spec_ser_graph(g2) + r2 =~= spec_ser_str(g2.ty) + (spec_varint(g2.tys.len()) + (
    spec_ser_infos_seq(g2.tys) + r2)));
    lemma_ser_str_prefix(
        g1.ty,
        g2.ty,
        spec_varint(g1.tys.len()) + (spec_ser_infos_seq(g1.tys) + r1),
        spec_varint(g2.tys.len()) + (spec_ser_infos_seq(g2.tys) + r2),
    );
    lemma_varint_prefix(
        g1.tys.len(),
        g2.tys.len(),
        spec_ser_infos_seq(g1.tys) + r1,
        spec_ser_infos_seq(g2.tys) + r2,
    );
    lemma_ser_infos_items_prefix(g1.tys, g2.tys, r1, r2);
}

/// Serialised graphs compare like graphs: two graphs serialise to the same
/// bytes exactly when they are the same, so the byte buffers are faithful
/// comparison artifacts.
pub proof fn lemma_serialise_injective(g1: TypeLayoutGraphView, g2: TypeLayoutGraphView)
    ensures
        (spec_varint(spec_total_len(spec_ser_graph(g1).len())) + spec_ser_graph(g1) == spec_varint(
            spec_total_len(spec_ser_graph(g2).len()),
        ) + spec_ser_graph(g2)) <==> g1 == g2,
{
    if spec_varint(spec_total_len(spec_ser_graph(g1).len())) + spec_ser_graph(g1) == spec_varint(
        spec_total_len(spec_ser_graph(g2).len()),
    ) + spec_ser_graph(g2) {
        lemma_varint_prefix(
            spec_total_len(spec_ser_graph(g1).len()),
            spec_total_len(spec_ser_graph(g2).len()),
            spec_ser_graph(g1),
            spec_ser_graph(g2),
        );
        assert(spec_ser_graph(g1) =~= spec_ser_graph(g1) + Seq::<u8>::empty());
        assert(spec_ser_graph(g2) =~= spec_ser_graph(g2) + Seq::<u8>::empty());
        lemma_ser_graph_prefix(g1, g2, Seq::empty(), Seq::empty());
    }
}

/// Counts the bytes that [`serialise_type_layout_graph`] writes, added to
/// `from`.
pub fn serialised_type_layout_graph_len(from: usize, g: &TypeLayoutGraph) -> (r: usize)
    requires
        from + spec_ser_graph(g@).len() <= usize::MAX,
    ensures
        r == from + spec_ser_graph(g@).len(),
{
    let ghost tsv = g.tys@.map_values(|t: TypeLayoutInfo| t@);
    proof {
        lemma_varint_len(tsv.len());
        lemma_ser_infos_seq_len_mono(tsv, tsv.len() as int);
    }
    let r = serialised_str_len(from, g.ty.as_str());
    let mut r = serialised_usize_len(r, g.tys.len());
    let mut i: usize = 0;
    while i < g.tys.len()
        invariant
            i <= g.tys@.len(),
            tsv == g.tys@.map_values(|t: TypeLayoutInfo| t@),
            r == from + spec_ser_str(g.ty@).len() + spec_varint_len(tsv.len())
                + spec_ser_infos_seq(tsv.take(i as int)).len(),
            from + spec_ser_graph(g@).len() <= usize::MAX,
            spec_ser_graph(g@) == spec_ser_str(g.ty@) + spec_varint(tsv.len())
                + spec_ser_infos_seq(tsv),
        decreases g.tys@.len() - i,
    {
        proof {
            lemma_varint_len(tsv.len());
            assert(tsv.take(i as int + 1).drop_last() =~= tsv.take(i as int));
            assert(tsv.take(i as int + 1).last() == tsv[i as int]);
            lemma_ser_infos_seq_len_mono(tsv, i as int + 1);
        }
        r = serialised_type_layout_info_len(r, &g.tys[i]);
        i = i + 1;
    }
    proof {
        assert(tsv.take(tsv.len() as int) =~= tsv);
    }
    r
}

} // verus!
