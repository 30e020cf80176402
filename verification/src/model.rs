//! The interface model: an immutable, already-resolved description of one
//! component's public surface. The generation engine only reads it.
//!
//! Besides the data types, this module holds the validation pass: every
//! `Enum`/`Record`/`Object` type reference must name a member of that kind
//! that is actually present in the component, and every enumeration must
//! carry pairwise-distinct discriminants. An offending model is reported as
//! a fatal generation error by the dispatcher, never silently defaulted.

use vstd::prelude::*;

verus! {

/// A reference to a value type usable in the signatures of the interface
/// model. `Enum`, `Record` and `Object` refer, by name, to a member of the
/// enclosing component; the composite forms (`Optional`, `Sequence`,
/// `Dictionary`) nest arbitrarily.
pub enum TypeReference {
    Boolean,
    U32,
    U64,
    String,
    Enum(String),
    Record(String),
    Object(String),
    Optional(Box<TypeReference>),
    Sequence(Box<TypeReference>),
    Dictionary(Box<TypeReference>, Box<TypeReference>),
}

/// One named argument of a constructor, method or namespace function.
pub struct Argument {
    pub name: String,
    pub typ: TypeReference,
}

/// A constructor of an object; its implicit return is a new handle.
pub struct ObjectTypeConstructor {
    pub name: String,
    pub argument_types: Vec<Argument>,
}

/// A method of an object; it borrows the object's handle.
pub struct ObjectTypeMethod {
    pub name: String,
    pub argument_types: Vec<Argument>,
    pub return_type: Option<TypeReference>,
}

pub enum ObjectTypeMember {
    Constructor(ObjectTypeConstructor),
    Method(ObjectTypeMethod),
}

/// An opaque object exposed across the boundary, held through a handle.
pub struct ObjectType {
    pub name: String,
    pub members: Vec<ObjectTypeMember>,
}

/// One field of a record.
pub struct Field {
    pub name: String,
    pub typ: TypeReference,
}

/// A plain data aggregate, passed by value across the boundary.
pub struct RecordType {
    pub name: String,
    pub fields: Vec<Field>,
}

/// One variant of an enumeration, with its wire discriminant.
pub struct EnumVariant {
    pub name: String,
    pub discriminant: u32,
}

/// An enumeration, encoded on the wire as its variant's discriminant.
pub struct EnumType {
    pub name: String,
    pub variants: Vec<EnumVariant>,
}

/// A free function grouped under a namespace.
pub struct NamespaceTypeFunction {
    pub name: String,
    pub argument_types: Vec<Argument>,
    pub return_type: Option<TypeReference>,
}

pub enum NamespaceTypeMember {
    Function(NamespaceTypeFunction),
}

/// A group of free functions.
pub struct NamespaceType {
    pub name: String,
    pub members: Vec<NamespaceTypeMember>,
}

pub enum InterfaceMember {
    Object(ObjectType),
    Record(RecordType),
    Namespace(NamespaceType),
    Enum(EnumType),
}

/// The root of the interface model: an ordered sequence of members.
pub struct ComponentInterface {
    pub members: Vec<InterfaceMember>,
}

/// The name of an interface member.
pub open spec fn spec_member_name(m: InterfaceMember) -> Seq<char> {
    match m {
        InterfaceMember::Object(o) => o.name@,
        InterfaceMember::Record(r) => r.name@,
        InterfaceMember::Namespace(n) => n.name@,
        InterfaceMember::Enum(e) => e.name@,
    }
}

/// The component holds an enumeration member of the given name.
pub open spec fn spec_has_enum(ci: ComponentInterface, name: Seq<char>) -> bool {
    exists|i: int|
        0 <= i < ci.members@.len() && ((#[trigger] ci.members@[i]) matches InterfaceMember::Enum(e)
            && e.name@ == name)
}

/// The component holds a record member of the given name.
pub open spec fn spec_has_record(ci: ComponentInterface, name: Seq<char>) -> bool {
    exists|i: int|
        0 <= i < ci.members@.len() && ((#[trigger] ci.members@[i]) matches InterfaceMember::Record(
            r,
        ) && r.name@ == name)
}

/// The component holds an object member of the given name.
pub open spec fn spec_has_object(ci: ComponentInterface, name: Seq<char>) -> bool {
    exists|i: int|
        0 <= i < ci.members@.len() && ((#[trigger] ci.members@[i]) matches InterfaceMember::Object(
            o,
        ) && o.name@ == name)
}

pub fn has_enum(ci: &ComponentInterface, name: &String) -> (r: bool)
    ensures
        r == spec_has_enum(*ci, name@),
{
    let n = ci.members.len();
    let mut i: usize = 0;
    while i < n
        invariant
            i <= n,
            n == ci.members@.len(),
            forall|k: int|
                0 <= k < i ==> !((#[trigger] ci.members@[k]) matches InterfaceMember::Enum(e)
                    && e.name@ == name@),
        decreases n - i,
    {
        if let InterfaceMember::Enum(e) = &ci.members[i] {
            if e.name.eq(name) {
                return true;
            }
        }
        i = i + 1;
    }
    false
}

pub fn has_record(ci: &ComponentInterface, name: &String) -> (r: bool)
    ensures
        r == spec_has_record(*ci, name@),
{
    let n = ci.members.len();
    let mut i: usize = 0;
    while i < n
        invariant
            i <= n,
            n == ci.members@.len(),
            forall|k: int|
                0 <= k < i ==> !((#[trigger] ci.members@[k]) matches InterfaceMember::Record(rec)
                    && rec.name@ == name@),
        decreases n - i,
    {
        if let InterfaceMember::Record(rec) = &ci.members[i] {
            if rec.name.eq(name) {
                return true;
            }
        }
        i = i + 1;
    }
    false
}

pub fn has_object(ci: &ComponentInterface, name: &String) -> (r: bool)
    ensures
        r == spec_has_object(*ci, name@),
{
    let n = ci.members.len();
    let mut i: usize = 0;
    while i < n
        invariant
            i <= n,
            n == ci.members@.len(),
            forall|k: int|
                0 <= k < i ==> !((#[trigger] ci.members@[k]) matches InterfaceMember::Object(o)
                    && o.name@ == name@),
        decreases n - i,
    {
        if let InterfaceMember::Object(o) = &ci.members[i] {
            if o.name.eq(name) {
                return true;
            }
        }
        i = i + 1;
    }
    false
}

/// The name of the first `Enum`/`Record`/`Object` reference within `t`, in
/// left-to-right order, that does not resolve to a member of that kind in
/// the component; `None` when every reference in `t` resolves.
pub open spec fn spec_unresolved_in_type(ci: ComponentInterface, t: TypeReference) -> Option<
    Seq<char>,
>
    decreases t,
{
    match t {
        TypeReference::Boolean => None,
        TypeReference::U32 => None,
        TypeReference::U64 => None,
        TypeReference::String => None,
        TypeReference::Enum(name) => if spec_has_enum(ci, name@) {
            None
        } else {
            Some(name@)
        },
        TypeReference::Record(name) => if spec_has_record(ci, name@) {
            None
        } else {
            Some(name@)
        },
        TypeReference::Object(name) => if spec_has_object(ci, name@) {
            None
        } else {
            Some(name@)
        },
        TypeReference::Optional(inner) => spec_unresolved_in_type(ci, *inner),
        TypeReference::Sequence(inner) => spec_unresolved_in_type(ci, *inner),
        TypeReference::Dictionary(k, v) => match spec_unresolved_in_type(ci, *k) {
            Some(n) => Some(n),
            None => spec_unresolved_in_type(ci, *v),
        },
    }
}

/// Every type reference within `t` resolves.
pub open spec fn spec_type_resolves(ci: ComponentInterface, t: TypeReference) -> bool {
    spec_unresolved_in_type(ci, t) is None
}

pub fn unresolved_in_type(ci: &ComponentInterface, t: &TypeReference) -> (r: Option<String>)
    ensures
        match r {
            Some(n) => spec_unresolved_in_type(*ci, *t) == Some(n@),
            None => spec_unresolved_in_type(*ci, *t) is None,
        },
    decreases *t,
{
    match t {
        TypeReference::Boolean => None,
        TypeReference::U32 => None,
        TypeReference::U64 => None,
        TypeReference::String => None,
        TypeReference::Enum(name) => if has_enum(ci, name) {
            None
        } else {
            Some(name.clone())
        },
        TypeReference::Record(name) => if has_record(ci, name) {
            None
        } else {
            Some(name.clone())
        },
        TypeReference::Object(name) => if has_object(ci, name) {
            None
        } else {
            Some(name.clone())
        },
        TypeReference::Optional(inner) => unresolved_in_type(ci, inner),
        TypeReference::Sequence(inner) => unresolved_in_type(ci, inner),
        TypeReference::Dictionary(k, v) => match unresolved_in_type(ci, k) {
            Some(n) => Some(n),
            None => unresolved_in_type(ci, v),
        },
    }
}

} // verus!
