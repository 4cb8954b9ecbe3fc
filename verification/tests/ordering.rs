use core::cmp::Ordering;

use const_type_layout::{bytes_cmp, fields_cmp, str_cmp, Discriminant, Field, Variant};

fn field(name: &str, offset: usize, ty: &str) -> Field {
    Field { name: String::from(name), offset, ty: String::from(ty) }
}

fn variant(name: &str, discriminant: &[u8], fields: Vec<Field>) -> Variant {
    Variant {
        name: String::from(name),
        discriminant: Discriminant { big_endian_bytes: discriminant.to_vec() },
        fields,
    }
}

#[test]
fn byte_order_is_lexicographic() {
    assert_eq!(bytes_cmp(&[], &[]), Ordering::Equal);
    assert_eq!(bytes_cmp(&[1, 2], &[1, 2]), Ordering::Equal);
    assert_eq!(bytes_cmp(&[1, 2], &[1, 3]), Ordering::Less);
    assert_eq!(bytes_cmp(&[2], &[1, 9]), Ordering::Greater);
    assert_eq!(bytes_cmp(&[1], &[1, 0]), Ordering::Less);
}

#[test]
fn string_order_follows_bytes() {
    assert_eq!(str_cmp("abc", "abc"), Ordering::Equal);
    assert_eq!(str_cmp("abc", "abd"), Ordering::Less);
    assert_eq!(str_cmp("b", "a"), Ordering::Greater);
    assert_eq!(str_cmp("ab", "abc"), Ordering::Less);
}

#[test]
fn fields_order_by_offset_first() {
    let a = field("z", 0, "u8");
    let b = field("a", 4, "u8");
    assert_eq!(a.cmp(&b), Ordering::Less);
    assert_eq!(b.cmp(&a), Ordering::Greater);
}

#[test]
fn fields_with_one_offset_order_by_name_and_type() {
    let a = field("a", 0, "u8");
    let b = field("b", 0, "u8");
    assert_eq!(a.cmp(&b), Ordering::Less);

    let c = field("a", 0, "u16");
    let d = field("a", 0, "u8");
    // "u16" comes before "u8" byte-wise.
    assert_eq!(c.cmp(&d), Ordering::Less);
    assert_eq!(a.cmp(&field("a", 0, "u8")), Ordering::Equal);
    assert_eq!(a.partial_cmp(&b), Some(Ordering::Less));
}

#[test]
fn field_equality_compares_all_parts() {
    assert!(field("a", 0, "u8") == field("a", 0, "u8"));
    assert!(field("a", 0, "u8") != field("b", 0, "u8"));
    assert!(field("a", 0, "u8") != field("a", 4, "u8"));
    assert!(field("a", 0, "u8") != field("a", 0, "u16"));
}

#[test]
fn variants_order_by_discriminant_first() {
    let a = variant("Z", &[0], Vec::new());
    let b = variant("A", &[1], Vec::new());
    assert_eq!(a.cmp(&b), Ordering::Less);
    assert_eq!(b.cmp(&a), Ordering::Greater);
}

#[test]
fn variants_with_one_discriminant_order_by_name_then_fields() {
    let a = variant("A", &[7], Vec::new());
    let b = variant("B", &[7], Vec::new());
    assert_eq!(a.cmp(&b), Ordering::Less);

    let c = variant("A", &[7], vec![field("x", 0, "u8")]);
    assert_eq!(a.cmp(&c), Ordering::Less);
    assert_eq!(c.cmp(&c.clone()), Ordering::Equal);
    assert_eq!(a.partial_cmp(&b), Some(Ordering::Less));
}

#[test]
fn field_lists_order_lexicographically() {
    let xs = vec![field("a", 0, "u8")];
    let ys = vec![field("a", 0, "u8"), field("b", 4, "u8")];
    assert_eq!(fields_cmp(&xs, &ys), Ordering::Less);
    assert_eq!(fields_cmp(&ys, &xs), Ordering::Greater);
    assert_eq!(fields_cmp(&xs, &xs), Ordering::Equal);
}
