use uniffi::decl::DeclKind;
use uniffi::kotlin::ComponentInterfaceKotlinWrapper;
use uniffi::kotlin::EnumKotlinWrapper;
use uniffi::kotlin::GenError;
use uniffi::kotlin::NamespaceFunctionKotlinWrapper;
use uniffi::kotlin::NamespaceKotlinWrapper;
use uniffi::kotlin::ObjectConstructorKotlinWrapper;
use uniffi::kotlin::ObjectKotlinWrapper;
use uniffi::kotlin::ObjectMethodKotlinWrapper;
use uniffi::kotlin::RecordKotlinWrapper;
use uniffi::kotlin::ffi_symbol;
use uniffi::model::Argument;
use uniffi::model::ComponentInterface;
use uniffi::model::EnumType;
use uniffi::model::EnumVariant;
use uniffi::model::Field;
use uniffi::model::InterfaceMember;
use uniffi::model::NamespaceType;
use uniffi::model::NamespaceTypeFunction;
use uniffi::model::NamespaceTypeMember;
use uniffi::model::ObjectType;
use uniffi::model::ObjectTypeConstructor;
use uniffi::model::ObjectTypeMember;
use uniffi::model::ObjectTypeMethod;
use uniffi::model::RecordType;
use uniffi::model::TypeReference;

fn preamble() -> &'static str {
    "package mozilla.appservices.example;\n\nimport com.sun.jna.Library\nimport com.sun.jna.Pointer\nimport mozilla.appservices.support.native.RustBuffer\nimport mozilla.appservices.support.native.loadIndirect\n\ninternal typealias Handle = Long\n\ninternal interface LibComponent : Library {\n"
}

fn arg(name: &str, typ: TypeReference) -> Argument {
    Argument { name: name.to_string(), typ }
}

fn math_namespace() -> NamespaceType {
    NamespaceType {
        name: "Math".to_string(),
        members: vec![NamespaceTypeMember::Function(NamespaceTypeFunction {
            name: "add".to_string(),
            argument_types: vec![arg("a", TypeReference::U32), arg("b", TypeReference::U32)],
            return_type: Some(TypeReference::U32),
        })],
    }
}

fn counter_object() -> ObjectType {
    ObjectType {
        name: "Counter".to_string(),
        members: vec![
            ObjectTypeMember::Constructor(ObjectTypeConstructor {
                name: "new".to_string(),
                argument_types: vec![],
            }),
            ObjectTypeMember::Method(ObjectTypeMethod {
                name: "increment".to_string(),
                argument_types: vec![],
                return_type: Some(TypeReference::U64),
            }),
        ],
    }
}

fn status_enum() -> EnumType {
    EnumType {
        name: "Status".to_string(),
        variants: vec![
            EnumVariant { name: "Ok".to_string(), discriminant: 0 },
            EnumVariant { name: "Failed".to_string(), discriminant: 1 },
        ],
    }
}

#[test]
fn ffi_symbol_joins_scope_and_member() {
    assert_eq!(ffi_symbol("Math", "add"), "Math_add");
    assert_eq!(ffi_symbol("Counter", "free"), "Counter_free");
}

#[test]
fn scenario_namespace_function() {
    let ci = ComponentInterface {
        members: vec![InterfaceMember::Namespace(math_namespace())],
    };
    let frags = ComponentInterfaceKotlinWrapper::new(&ci).members().unwrap();
    assert_eq!(frags.len(), 1);
    assert_eq!(frags[0].member_name, "Math");
    assert_eq!(
        frags[0].text,
        "fun Math_add(\n    a: u32,\n    b: u32,\n    err: RustError.ByReference,\n): u32\n"
    );
}

#[test]
fn scenario_object_with_constructor_and_method() {
    let ci = ComponentInterface {
        members: vec![InterfaceMember::Object(counter_object())],
    };
    let frags = ComponentInterfaceKotlinWrapper::new(&ci).members().unwrap();
    assert_eq!(frags.len(), 1);
    assert_eq!(frags[0].member_name, "Counter");
    let expected = "fun Counter_free(\n    handle: Handle,\n    err: RustError.ByReference,\n)\nfun Counter_new(\n    err: RustError.ByReference,\n): Handle\nfun Counter_increment(\n    handle: Handle,\n    err: RustError.ByReference,\n): u64\n";
    assert_eq!(frags[0].text, expected);
}

#[test]
fn scenario_enum_lift_reports_failure_arm() {
    let e = status_enum();
    let text = EnumKotlinWrapper::new(&e).render();
    let expected = "internal enum class Status {\n    Ok,\n    Failed,\n}\n\ninternal fun Status_lift(v: u32): Status = when (v) {\n    0u -> Status.Ok,\n    1u -> Status.Failed,\n    else -> throw RuntimeException(\"unexpected enum wire value \" + v)\n}\n\ninternal fun Status_lower(v: Status): u32 = when (v) {\n    Status.Ok -> 0u,\n    Status.Failed -> 1u,\n}\n";
    assert_eq!(text, expected);
}

#[test]
fn scenario_duplicate_objects_rejected() {
    let widget_a = ObjectType { name: "Widget".to_string(), members: vec![] };
    let widget_b = ObjectType { name: "Widget".to_string(), members: vec![] };
    let ci = ComponentInterface {
        members: vec![
            InterfaceMember::Object(widget_a),
            InterfaceMember::Object(widget_b),
        ],
    };
    let err = ComponentInterfaceKotlinWrapper::new(&ci).members().unwrap_err();
    match err {
        GenError::DuplicateSymbol { symbol, first_member, second_member } => {
            assert_eq!(symbol, "Widget_free");
            assert_eq!(first_member, "Widget");
            assert_eq!(second_member, "Widget");
        }
        other => panic!("expected a duplicate-symbol error, got {:?}", other),
    }
}

#[test]
fn unresolved_reference_rejected() {
    let ns = NamespaceType {
        name: "Tools".to_string(),
        members: vec![NamespaceTypeMember::Function(NamespaceTypeFunction {
            name: "check".to_string(),
            argument_types: vec![arg("status", TypeReference::Enum("Missing".to_string()))],
            return_type: None,
        })],
    };
    let ci = ComponentInterface { members: vec![InterfaceMember::Namespace(ns)] };
    let err = ComponentInterfaceKotlinWrapper::new(&ci).members().unwrap_err();
    match err {
        GenError::UnresolvedTypeReference { member, name } => {
            assert_eq!(member, "Tools");
            assert_eq!(name, "Missing");
        }
        other => panic!("expected an unresolved-reference error, got {:?}", other),
    }
}

#[test]
fn reference_must_resolve_to_the_right_kind() {
    // "Status" names an enumeration, so a record reference to it is
    // unresolved even though a member of that name exists.
    let ns = NamespaceType {
        name: "Tools".to_string(),
        members: vec![NamespaceTypeMember::Function(NamespaceTypeFunction {
            name: "check".to_string(),
            argument_types: vec![arg("status", TypeReference::Record("Status".to_string()))],
            return_type: None,
        })],
    };
    let ci = ComponentInterface {
        members: vec![
            InterfaceMember::Namespace(ns),
            InterfaceMember::Enum(status_enum()),
        ],
    };
    let err = ComponentInterfaceKotlinWrapper::new(&ci).members().unwrap_err();
    assert!(matches!(err, GenError::UnresolvedTypeReference { .. }));
}

#[test]
fn resolved_references_accepted() {
    let ns = NamespaceType {
        name: "Tools".to_string(),
        members: vec![NamespaceTypeMember::Function(NamespaceTypeFunction {
            name: "check".to_string(),
            argument_types: vec![arg("status", TypeReference::Enum("Status".to_string()))],
            return_type: Some(TypeReference::Object("Counter".to_string())),
        })],
    };
    let ci = ComponentInterface {
        members: vec![
            InterfaceMember::Namespace(ns),
            InterfaceMember::Enum(status_enum()),
            InterfaceMember::Object(counter_object()),
        ],
    };
    let frags = ComponentInterfaceKotlinWrapper::new(&ci).members().unwrap();
    assert_eq!(frags.len(), 3);
}

#[test]
fn duplicate_discriminant_rejected() {
    let e = EnumType {
        name: "Status".to_string(),
        variants: vec![
            EnumVariant { name: "Ok".to_string(), discriminant: 1 },
            EnumVariant { name: "Failed".to_string(), discriminant: 1 },
        ],
    };
    let ci = ComponentInterface { members: vec![InterfaceMember::Enum(e)] };
    let err = ComponentInterfaceKotlinWrapper::new(&ci).members().unwrap_err();
    match err {
        GenError::DuplicateDiscriminant { enum_name, discriminant } => {
            assert_eq!(enum_name, "Status");
            assert_eq!(discriminant, 1);
        }
        other => panic!("expected a duplicate-discriminant error, got {:?}", other),
    }
}

#[test]
fn generation_is_deterministic() {
    let ci = ComponentInterface {
        members: vec![
            InterfaceMember::Object(counter_object()),
            InterfaceMember::Enum(status_enum()),
            InterfaceMember::Namespace(math_namespace()),
        ],
    };
    let first = ComponentInterfaceKotlinWrapper::new(&ci).render().unwrap();
    let second = ComponentInterfaceKotlinWrapper::new(&ci).render().unwrap();
    assert_eq!(first, second);
    let a = ComponentInterfaceKotlinWrapper::new(&ci).members().unwrap();
    let b = ComponentInterfaceKotlinWrapper::new(&ci).members().unwrap();
    assert_eq!(a.len(), b.len());
    for (x, y) in a.iter().zip(b.iter()) {
        assert_eq!(x.member_name, y.member_name);
        assert_eq!(x.text, y.text);
    }
}

#[test]
fn handle_discipline_on_declarations() {
    let obj = ObjectType {
        name: "Session".to_string(),
        members: vec![
            ObjectTypeMember::Constructor(ObjectTypeConstructor {
                name: "open".to_string(),
                argument_types: vec![arg("url", TypeReference::String)],
            }),
            ObjectTypeMember::Method(ObjectTypeMethod {
                name: "send".to_string(),
                argument_types: vec![arg("payload", TypeReference::String)],
                return_type: Some(TypeReference::Boolean),
            }),
            ObjectTypeMember::Method(ObjectTypeMethod {
                name: "close".to_string(),
                argument_types: vec![],
                return_type: None,
            }),
        ],
    };
    let decls = ObjectKotlinWrapper::new(&obj).members();
    assert_eq!(decls.len(), 4);
    let free_count = decls.iter().filter(|d| d.kind == DeclKind::Free).count();
    assert_eq!(free_count, 1);
    assert_eq!(decls[0].kind, DeclKind::Free);
    assert_eq!(decls[0].symbol, "Session_free");
    assert_eq!(decls[0].params.len(), 1);
    assert_eq!(decls[0].params[0].name, "handle");
    assert_eq!(decls[0].params[0].type_decl, "Handle");
    assert!(decls[0].return_decl.is_none());
    for d in decls.iter() {
        match d.kind {
            DeclKind::Free => {}
            DeclKind::Constructor => {
                assert_eq!(d.return_decl.as_deref(), Some("Handle"));
            }
            DeclKind::Method => {
                assert_eq!(d.params[0].name, "handle");
                assert_eq!(d.params[0].type_decl, "Handle");
            }
            DeclKind::Function => panic!("an object emits no namespace function"),
        }
    }
}

#[test]
fn object_without_members_still_frees() {
    let obj = ObjectType { name: "Token".to_string(), members: vec![] };
    let text = ObjectKotlinWrapper::new(&obj).render();
    assert_eq!(
        text,
        "fun Token_free(\n    handle: Handle,\n    err: RustError.ByReference,\n)\n"
    );
}

#[test]
fn record_fragment_is_field_wise() {
    let rec = RecordType {
        name: "Point".to_string(),
        fields: vec![
            Field { name: "x".to_string(), typ: TypeReference::U32 },
            Field { name: "tag".to_string(), typ: TypeReference::Boolean },
        ],
    };
    let text = RecordKotlinWrapper::new(&rec).render();
    let expected = "internal data class Point(\n    val x: u32,\n    val tag: u8,\n)\n\ninternal fun Point_lift(v: Point): Point = Point(\n    v.x,\n    (v.tag != 0),\n)\n\ninternal fun Point_lower(v: Point): Point = Point(\n    v.x,\n    (v.tag as u8),\n)\n";
    assert_eq!(text, expected);
}

#[test]
fn wrapper_symbol_helpers() {
    let obj = counter_object();
    assert_eq!(ObjectKotlinWrapper::new(&obj).struct_name(), "Counter");
    if let ObjectTypeMember::Constructor(cons) = &obj.members[0] {
        assert_eq!(
            ObjectConstructorKotlinWrapper::new(&obj, cons).ffi_name(),
            "Counter_new"
        );
    } else {
        panic!("the first member is the constructor");
    }
    if let ObjectTypeMember::Method(meth) = &obj.members[1] {
        assert_eq!(
            ObjectMethodKotlinWrapper::new(&obj, meth).ffi_name(),
            "Counter_increment"
        );
    } else {
        panic!("the second member is the method");
    }
    let ns = math_namespace();
    let NamespaceTypeMember::Function(f) = &ns.members[0];
    assert_eq!(NamespaceFunctionKotlinWrapper::new(&ns, f).ffi_name(), "Math_add");
    let ns_decls = NamespaceKotlinWrapper::new(&ns).members();
    assert_eq!(ns_decls.len(), 1);
    assert_eq!(ns_decls[0].kind, DeclKind::Function);
    assert_eq!(ns_decls[0].symbol, "Math_add");
}

#[test]
fn render_wraps_fragments_in_preamble() {
    let empty = ComponentInterface { members: vec![] };
    let rendered = ComponentInterfaceKotlinWrapper::new(&empty).render().unwrap();
    assert_eq!(rendered, format!("{}{}", preamble(), "}\n"));

    let ci = ComponentInterface {
        members: vec![InterfaceMember::Namespace(math_namespace())],
    };
    let rendered = ComponentInterfaceKotlinWrapper::new(&ci).render().unwrap();
    assert!(rendered.starts_with(preamble()));
    assert!(rendered.ends_with("}\n"));
    assert!(rendered.contains("fun Math_add(\n"));
}

#[test]
fn duplicate_symbol_across_kinds_rejected() {
    // An object "Counter" with a method "free" collides with the object's
    // own free declaration.
    let obj = ObjectType {
        name: "Counter".to_string(),
        members: vec![ObjectTypeMember::Method(ObjectTypeMethod {
            name: "free".to_string(),
            argument_types: vec![],
            return_type: None,
        })],
    };
    let ci = ComponentInterface { members: vec![InterfaceMember::Object(obj)] };
    let err = ComponentInterfaceKotlinWrapper::new(&ci).members().unwrap_err();
    match err {
        GenError::DuplicateSymbol { symbol, .. } => assert_eq!(symbol, "Counter_free"),
        other => panic!("expected a duplicate-symbol error, got {:?}", other),
    }
}
