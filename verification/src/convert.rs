//! The type conversion contract for the Kotlin backend.
//!
//! For every supported [`TypeReference`] the contract gives three artifacts:
//! the type used when naming it in a generated FFI signature (`type_decl`),
//! the expression that reconstructs an idiomatic native value from a wire
//! value (`type_lift`), and the expression that reduces a native value to
//! its wire representation (`type_lower`). All three are total over the
//! supported type universe — no variant maps to a placeholder — and the
//! composite forms are defined by recursion on their element types.
//!
//! The wire encoding chosen here: booleans travel as `u8` (zero is false,
//! anything else is true); `u32`/`u64` travel as themselves; strings travel
//! as a borrowed, non-owning `FfiStr` view valid only for the call's
//! duration; enumerations travel as their `u32` discriminant, converted
//! through the emitted per-enumeration helpers, whose lift reports an
//! unmatched discriminant instead of defaulting; records travel by value as
//! the emitted aggregate, converted field-wise through per-record helpers;
//! objects travel as an opaque `Handle`.

use vstd::prelude::*;

use crate::model::TypeReference;

verus! {

/// The wire type naming `t` in a generated FFI signature.
pub open spec fn spec_type_decl(t: TypeReference) -> Seq<char>
    decreases t,
{
    match t {
        TypeReference::Boolean => "u8"@,
        TypeReference::U32 => "u32"@,
        TypeReference::U64 => "u64"@,
        TypeReference::String => "FfiStr<'_>"@,
        TypeReference::Enum(_) => "u32"@,
        TypeReference::Record(name) => name@,
        TypeReference::Object(_) => "Handle"@,
        TypeReference::Optional(inner) => spec_type_decl(*inner) + "?"@,
        TypeReference::Sequence(inner) => "List<"@ + spec_type_decl(*inner) + ">"@,
        TypeReference::Dictionary(k, v) => "Map<"@ + spec_type_decl(*k) + ", "@ + spec_type_decl(
            *v,
        ) + ">"@,
    }
}

/// The expression lifting the wire value named by `nm` to a native value.
pub open spec fn spec_type_lift(nm: Seq<char>, t: TypeReference) -> Seq<char>
    decreases t,
{
    match t {
        TypeReference::Boolean => "("@ + nm + " != 0)"@,
        TypeReference::U32 => nm,
        TypeReference::U64 => nm,
        TypeReference::String => "("@ + nm + ").as_str()"@,
        TypeReference::Enum(name) => name@ + "_lift("@ + nm + ")"@,
        TypeReference::Record(name) => name@ + "_lift("@ + nm + ")"@,
        TypeReference::Object(name) => name@ + "("@ + nm + ")"@,
        TypeReference::Optional(inner) => "("@ + nm + ")?.let { "@ + spec_type_lift("it"@, *inner)
            + " }"@,
        TypeReference::Sequence(inner) => "("@ + nm + ").map { "@ + spec_type_lift("it"@, *inner)
            + " }"@,
        TypeReference::Dictionary(k, v) => "("@ + nm + ").entries.associate { "@ + spec_type_lift(
            "it.key"@,
            *k,
        ) + " to "@ + spec_type_lift("it.value"@, *v) + " }"@,
    }
}

/// The expression lowering the native value named by `nm` to its wire
/// representation.
pub open spec fn spec_type_lower(nm: Seq<char>, t: TypeReference) -> Seq<char>
    decreases t,
{
    match t {
        TypeReference::Boolean => "("@ + nm + " as u8)"@,
        TypeReference::U32 => nm,
        TypeReference::U64 => nm,
        TypeReference::String => "("@ + nm + ").as_str()"@,
        TypeReference::Enum(name) => name@ + "_lower("@ + nm + ")"@,
        TypeReference::Record(name) => name@ + "_lower("@ + nm + ")"@,
        TypeReference::Object(name) => "("@ + nm + ").handle"@,
        TypeReference::Optional(inner) => "("@ + nm + ")?.let { "@ + spec_type_lower("it"@, *inner)
            + " }"@,
        TypeReference::Sequence(inner) => "("@ + nm + ").map { "@ + spec_type_lower("it"@, *inner)
            + " }"@,
        TypeReference::Dictionary(k, v) => "("@ + nm + ").entries.associate { "@ + spec_type_lower(
            "it.key"@,
            *k,
        ) + " to "@ + spec_type_lower("it.value"@, *v) + " }"@,
    }
}

/// The type used when naming `typ` in a generated FFI signature.
///
/// Total: every `TypeReference` variant has a declaration, so no reachable
/// type can raise a generation-time error here.
pub fn type_decl(typ: &TypeReference) -> (r: String)
    ensures
        r@ == spec_type_decl(*typ),
    decreases *typ,
{
    match typ {
        TypeReference::Boolean => String::from_str("u8"),
        TypeReference::U32 => String::from_str("u32"),
        TypeReference::U64 => String::from_str("u64"),
        TypeReference::String => String::from_str("FfiStr<'_>"),
        TypeReference::Enum(_) => String::from_str("u32"),
        TypeReference::Record(name) => name.clone(),
        TypeReference::Object(_) => String::from_str("Handle"),
        TypeReference::Optional(inner) => {
            let mut s = type_decl(inner);
            s.append("?");
            s
        },
        TypeReference::Sequence(inner) => {
            let mut s = String::from_str("List<");
            let e = type_decl(inner);
            s.append(e.as_str());
            s.append(">");
            s
        },
        TypeReference::Dictionary(k, v) => {
            let mut s = String::from_str("Map<");
            let ks = type_decl(k);
            s.append(ks.as_str());
            s.append(", ");
            let vs = type_decl(v);
            s.append(vs.as_str());
            s.append(">");
            s
        },
    }
}

/// The expression lifting the wire value named by `nm` to a native value.
///
/// Total over every `TypeReference` variant.
pub fn type_lift(nm: &str, typ: &TypeReference) -> (r: String)
    ensures
        r@ == spec_type_lift(nm@, *typ),
    decreases *typ,
{
    match typ {
        TypeReference::Boolean => {
            let mut s = String::from_str("(");
            s.append(nm);
            s.append(" != 0)");
            s
        },
        TypeReference::U32 => String::from_str(nm),
        TypeReference::U64 => String::from_str(nm),
        TypeReference::String => {
            let mut s = String::from_str("(");
            s.append(nm);
            s.append(").as_str()");
            s
        },
        TypeReference::Enum(name) => {
            let mut s = name.clone();
            s.append("_lift(");
            s.append(nm);
            s.append(")");
            s
        },
        TypeReference::Record(name) => {
            let mut s = name.clone();
            s.append("_lift(");
            s.append(nm);
            s.append(")");
            s
        },
        TypeReference::Object(name) => {
            let mut s = name.clone();
            s.append("(");
            s.append(nm);
            s.append(")");
            s
        },
        TypeReference::Optional(inner) => {
            let mut s = String::from_str("(");
            s.append(nm);
            s.append(")?.let { ");
            let e = type_lift("it", inner);
            s.append(e.as_str());
            s.append(" }");
            s
        },
        TypeReference::Sequence(inner) => {
            let mut s = String::from_str("(");
            s.append(nm);
            s.append(").map { ");
            let e = type_lift("it", inner);
            s.append(e.as_str());
            s.append(" }");
            s
        },
        TypeReference::Dictionary(k, v) => {
            let mut s = String::from_str("(");
            s.append(nm);
            s.append(").entries.associate { ");
            let ks = type_lift("it.key", k);
            s.append(ks.as_str());
            s.append(" to ");
            let vs = type_lift("it.value", v);
            s.append(vs.as_str());
            s.append(" }");
            s
        },
    }
}

/// The expression lowering the native value named by `nm` to its wire
/// representation.
///
/// Total over every `TypeReference` variant.
pub fn type_lower(nm: &str, typ: &TypeReference) -> (r: String)
    ensures
        r@ == spec_type_lower(nm@, *typ),
    decreases *typ,
{
    match typ {
        TypeReference::Boolean => {
            let mut s = String::from_str("(");
            s.append(nm);
            s.append(" as u8)");
            s
        },
        TypeReference::U32 => String::from_str(nm),
        TypeReference::U64 => String::from_str(nm),
        TypeReference::String => {
            let mut s = String::from_str("(");
            s.append(nm);
            s.append(").as_str()");
            s
        },
        TypeReference::Enum(name) => {
            let mut s = name.clone();
            s.append("_lower(");
            s.append(nm);
            s.append(")");
            s
        },
        TypeReference::Record(name) => {
            let mut s = name.clone();
            s.append("_lower(");
            s.append(nm);
            s.append(")");
            s
        },
        TypeReference::Object(_) => {
            let mut s = String::from_str("(");
            s.append(nm);
            s.append(").handle");
            s
        },
        TypeReference::Optional(inner) => {
            let mut s = String::from_str("(");
            s.append(nm);
            s.append(")?.let { ");
            let e = type_lower("it", inner);
            s.append(e.as_str());
            s.append(" }");
            s
        },
        TypeReference::Sequence(inner) => {
            let mut s = String::from_str("(");
            s.append(nm);
            s.append(").map { ");
            let e = type_lower("it", inner);
            s.append(e.as_str());
            s.append(" }");
            s
        },
        TypeReference::Dictionary(k, v) => {
            let mut s = String::from_str("(");
            s.append(nm);
            s.append(").entries.associate { ");
            let ks = type_lower("it.key", k);
            s.append(ks.as_str());
            s.append(" to ");
            let vs = type_lower("it.value", v);
            s.append(vs.as_str());
            s.append(" }");
            s
        },
    }
}

} // verus!
