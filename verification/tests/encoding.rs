use const_type_layout::ser::{
    serialise_bool, serialise_bytes, serialise_field, serialise_str, serialise_structure,
    serialise_type_layout_info, serialise_usize, serialised_usize_len,
};
use const_type_layout::{Discriminant, Field, TypeLayoutInfo, TypeStructure, Variant};

fn varint(value: usize) -> Vec<u8> {
    let mut out = Vec::new();
    serialise_usize(&mut out, value);
    out
}

#[test]
fn varint_single_byte_values() {
    assert_eq!(varint(0), vec![0u8]);
    assert_eq!(varint(1), vec![1u8]);
    assert_eq!(varint(127), vec![127u8]);
}

#[test]
fn varint_multi_byte_values() {
    assert_eq!(varint(128), vec![128u8, 1]);
    assert_eq!(varint(300), vec![172u8, 2]);
    assert_eq!(varint(16383), vec![255u8, 127]);
    assert_eq!(varint(16384), vec![128u8, 128, 1]);
}

#[test]
fn varint_len_counts_from_an_offset() {
    assert_eq!(serialised_usize_len(0, 0), 1);
    assert_eq!(serialised_usize_len(0, 127), 1);
    assert_eq!(serialised_usize_len(0, 128), 2);
    assert_eq!(serialised_usize_len(5, 300), 7);
    assert_eq!(serialised_usize_len(10, 16384), 13);
}

#[test]
fn strings_carry_their_byte_length() {
    let mut out = Vec::new();
    serialise_str(&mut out, "u8");
    assert_eq!(out, vec![2u8, 117, 56]);

    let mut out = Vec::new();
    serialise_str(&mut out, "");
    assert_eq!(out, vec![0u8]);

    // A two-byte UTF-8 character counts as two bytes.
    let mut out = Vec::new();
    serialise_str(&mut out, "é");
    assert_eq!(out, vec![2u8, 0xc3, 0xa9]);
}

#[test]
fn byte_strings_carry_their_length() {
    let mut out = Vec::new();
    serialise_bytes(&mut out, &[9, 8, 7]);
    assert_eq!(out, vec![3u8, 9, 8, 7]);
}

#[test]
fn booleans_are_one_byte() {
    let mut out = Vec::new();
    serialise_bool(&mut out, false);
    serialise_bool(&mut out, true);
    assert_eq!(out, vec![0u8, 1]);
}

#[test]
fn fields_list_name_offset_and_type() {
    let mut out = Vec::new();
    serialise_field(
        &mut out,
        &Field { name: String::from("a"), offset: 4, ty: String::from("u32") },
    );
    assert_eq!(out, vec![1u8, 97, 4, 3, 117, 51, 50]);
}

#[test]
fn structure_tags_tell_the_shapes_apart() {
    let mut out = Vec::new();
    serialise_structure(&mut out, &TypeStructure::Primitive);
    assert_eq!(out, vec![3u8]);

    let mut out = Vec::new();
    serialise_structure(
        &mut out,
        &TypeStructure::Struct { repr: String::from("C"), fields: Vec::new() },
    );
    assert_eq!(out, vec![0u8, 1, 67, 0]);

    let mut out = Vec::new();
    serialise_structure(
        &mut out,
        &TypeStructure::Union { repr: String::from("C"), fields: Vec::new() },
    );
    assert_eq!(out, vec![1u8, 1, 67, 0]);

    let mut out = Vec::new();
    serialise_structure(
        &mut out,
        &TypeStructure::Array { item: String::from("u8"), len: 4 },
    );
    assert_eq!(out, vec![4u8, 2, 117, 56, 4]);

    let mut out = Vec::new();
    serialise_structure(
        &mut out,
        &TypeStructure::Reference { inner: String::from("u8"), mutability: true },
    );
    assert_eq!(out, vec![5u8, 2, 117, 56, 1]);

    let mut out = Vec::new();
    serialise_structure(
        &mut out,
        &TypeStructure::Pointer { inner: String::from("u8"), mutability: false },
    );
    assert_eq!(out, vec![6u8, 2, 117, 56, 0]);
}

#[test]
fn enum_structures_list_their_variants() {
    let mut out = Vec::new();
    serialise_structure(
        &mut out,
        &TypeStructure::Enum {
            repr: String::from("u8"),
            variants: vec![Variant {
                name: String::from("A"),
                discriminant: Discriminant { big_endian_bytes: vec![0] },
                fields: Vec::new(),
            }],
        },
    );
    // tag 2, repr "u8", one variant: name "A", one discriminant byte 0,
    // no fields.
    assert_eq!(out, vec![2u8, 2, 117, 56, 1, 1, 65, 1, 0, 0]);
}

#[test]
fn layout_info_lists_name_size_alignment_structure() {
    let mut out = Vec::new();
    serialise_type_layout_info(
        &mut out,
        &TypeLayoutInfo {
            name: String::from("Pair"),
            size: 8,
            alignment: 4,
            structure: TypeStructure::Struct {
                repr: String::from("C"),
                fields: vec![
                    Field { name: String::from("a"), offset: 0, ty: String::from("u32") },
                    Field { name: String::from("b"), offset: 4, ty: String::from("u32") },
                ],
            },
        },
    );
    let expected = vec![
        4u8, 80, 97, 105, 114, // name "Pair"
        8, 4, // size, alignment
        0, 1, 67, // struct with repr "C"
        2, // two fields
        1, 97, 0, 3, 117, 51, 50, // a at 0, "u32"
        1, 98, 4, 3, 117, 51, 50, // b at 4, "u32"
    ];
    assert_eq!(out, expected);
}

#[test]
fn discriminant_text_skips_zero_bytes() {
    let d = Discriminant { big_endian_bytes: vec![1, 0, 255] };
    assert_eq!(d.hex_string(), "0x1ff");
}

#[test]
fn discriminant_text_of_zero_is_zero() {
    let d = Discriminant { big_endian_bytes: vec![0, 0, 0, 0] };
    assert_eq!(d.hex_string(), "0x0");
    let empty = Discriminant { big_endian_bytes: Vec::new() };
    assert_eq!(empty.hex_string(), "0x0");
}

#[test]
fn discriminant_text_uses_two_digits_above_fifteen() {
    let d = Discriminant { big_endian_bytes: vec![16] };
    assert_eq!(d.hex_string(), "0x10");
    let e = Discriminant { big_endian_bytes: vec![10, 12] };
    assert_eq!(e.hex_string(), "0xac");
}
