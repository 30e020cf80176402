use uniffi::convert::type_decl;
use uniffi::convert::type_lift;
use uniffi::convert::type_lower;
use uniffi::decl::u32_dec;
use uniffi::model::EnumType;
use uniffi::model::EnumVariant;
use uniffi::model::TypeReference;
use uniffi::wire::lift_boolean;
use uniffi::wire::lift_enum;
use uniffi::wire::lift_string;
use uniffi::wire::lift_u32;
use uniffi::wire::lift_u64;
use uniffi::wire::lower_boolean;
use uniffi::wire::lower_enum;
use uniffi::wire::lower_string;
use uniffi::wire::lower_u32;
use uniffi::wire::lower_u64;

fn status_enum() -> EnumType {
    EnumType {
        name: "Status".to_string(),
        variants: vec![
            EnumVariant { name: "Ok".to_string(), discriminant: 0 },
            EnumVariant { name: "Failed".to_string(), discriminant: 1 },
        ],
    }
}

#[test]
fn type_decl_covers_primitives() {
    assert_eq!(type_decl(&TypeReference::Boolean), "u8");
    assert_eq!(type_decl(&TypeReference::U32), "u32");
    assert_eq!(type_decl(&TypeReference::U64), "u64");
    assert_eq!(type_decl(&TypeReference::String), "FfiStr<'_>");
    assert_eq!(type_decl(&TypeReference::Enum("Status".to_string())), "u32");
    assert_eq!(type_decl(&TypeReference::Record("Point".to_string())), "Point");
    assert_eq!(type_decl(&TypeReference::Object("Counter".to_string())), "Handle");
}

#[test]
fn type_decl_covers_composites() {
    assert_eq!(
        type_decl(&TypeReference::Optional(Box::new(TypeReference::U32))),
        "u32?"
    );
    assert_eq!(
        type_decl(&TypeReference::Sequence(Box::new(TypeReference::Boolean))),
        "List<u8>"
    );
    assert_eq!(
        type_decl(&TypeReference::Dictionary(
            Box::new(TypeReference::U32),
            Box::new(TypeReference::U64),
        )),
        "Map<u32, u64>"
    );
    assert_eq!(
        type_decl(&TypeReference::Sequence(Box::new(TypeReference::Optional(Box::new(
            TypeReference::Object("Widget".to_string())
        ))))),
        "List<Handle?>"
    );
}

#[test]
fn type_lift_covers_every_variant() {
    assert_eq!(type_lift("x", &TypeReference::Boolean), "(x != 0)");
    assert_eq!(type_lift("x", &TypeReference::U32), "x");
    assert_eq!(type_lift("x", &TypeReference::U64), "x");
    assert_eq!(type_lift("x", &TypeReference::String), "(x).as_str()");
    assert_eq!(
        type_lift("x", &TypeReference::Enum("Status".to_string())),
        "Status_lift(x)"
    );
    assert_eq!(
        type_lift("x", &TypeReference::Record("Point".to_string())),
        "Point_lift(x)"
    );
    assert_eq!(
        type_lift("x", &TypeReference::Object("Counter".to_string())),
        "Counter(x)"
    );
    assert_eq!(
        type_lift("x", &TypeReference::Optional(Box::new(TypeReference::Boolean))),
        "(x)?.let { (it != 0) }"
    );
    assert_eq!(
        type_lift("x", &TypeReference::Sequence(Box::new(TypeReference::U32))),
        "(x).map { it }"
    );
    assert_eq!(
        type_lift(
            "x",
            &TypeReference::Dictionary(
                Box::new(TypeReference::U32),
                Box::new(TypeReference::Boolean),
            )
        ),
        "(x).entries.associate { it.key to (it.value != 0) }"
    );
}

#[test]
fn type_lower_covers_every_variant() {
    assert_eq!(type_lower("x", &TypeReference::Boolean), "(x as u8)");
    assert_eq!(type_lower("x", &TypeReference::U32), "x");
    assert_eq!(type_lower("x", &TypeReference::U64), "x");
    assert_eq!(type_lower("x", &TypeReference::String), "(x).as_str()");
    assert_eq!(
        type_lower("x", &TypeReference::Enum("Status".to_string())),
        "Status_lower(x)"
    );
    assert_eq!(
        type_lower("x", &TypeReference::Record("Point".to_string())),
        "Point_lower(x)"
    );
    assert_eq!(
        type_lower("x", &TypeReference::Object("Counter".to_string())),
        "(x).handle"
    );
    assert_eq!(
        type_lower("x", &TypeReference::Optional(Box::new(TypeReference::Boolean))),
        "(x)?.let { (it as u8) }"
    );
    assert_eq!(
        type_lower("x", &TypeReference::Sequence(Box::new(TypeReference::U64))),
        "(x).map { it }"
    );
    assert_eq!(
        type_lower(
            "x",
            &TypeReference::Dictionary(
                Box::new(TypeReference::Boolean),
                Box::new(TypeReference::U32),
            )
        ),
        "(x).entries.associate { (it.key as u8) to it.value }"
    );
}

#[test]
fn boolean_round_trip() {
    assert_eq!(lower_boolean(false), 0);
    assert_eq!(lower_boolean(true), 1);
    assert!(lift_boolean(lower_boolean(true)));
    assert!(!lift_boolean(lower_boolean(false)));
    assert!(lift_boolean(7));
}

#[test]
fn integer_round_trips() {
    assert_eq!(lift_u32(lower_u32(0)), 0);
    assert_eq!(lift_u32(lower_u32(4294967295)), 4294967295);
    assert_eq!(lift_u64(lower_u64(18446744073709551615)), 18446744073709551615);
}

#[test]
fn string_round_trip() {
    let s = "handle with care";
    assert_eq!(lift_string(lower_string(s)), s);
    assert_eq!(lift_string(lower_string("")), "");
}

#[test]
fn enum_round_trip() {
    let e = status_enum();
    assert_eq!(lower_enum(&e, 0), 0);
    assert_eq!(lower_enum(&e, 1), 1);
    assert_eq!(lift_enum(&e, lower_enum(&e, 0)).unwrap(), 0);
    assert_eq!(lift_enum(&e, lower_enum(&e, 1)).unwrap(), 1);
}

#[test]
fn enum_lift_out_of_range_is_an_error() {
    let e = status_enum();
    let err = lift_enum(&e, 2).unwrap_err();
    assert_eq!(err.enum_name, "Status");
    assert_eq!(err.value, 2);
}

#[test]
fn decimal_rendering() {
    assert_eq!(u32_dec(0), "0");
    assert_eq!(u32_dec(7), "7");
    assert_eq!(u32_dec(10), "10");
    assert_eq!(u32_dec(12345), "12345");
    assert_eq!(u32_dec(4294967295), "4294967295");
}
