//! Value semantics of the wire encoding.
//!
//! The expressions emitted by the type conversion contract implement, in
//! the output language, the conversions defined here on plain values:
//! booleans cross the boundary as `u8`, enumeration variants as their
//! `u32` discriminant, `u32`/`u64` and borrowed strings as themselves.
//! Stating the conversions over values lets the round-trip law — lowering
//! a value and lifting it back yields the value — be proved once, per
//! supported type.
//!
//! Lifting an integer that matches no declared discriminant is a runtime
//! error of the generated bindings, reported through [`EnumLiftError`],
//! never a silent default variant.

use vstd::prelude::*;

use crate::model::EnumType;

verus! {

/// The wire representation of a boolean.
pub open spec fn spec_lower_boolean(v: bool) -> u8 {
    if v {
        1u8
    } else {
        0u8
    }
}

/// The boolean a wire byte lifts to: zero is false, anything else true.
pub open spec fn spec_lift_boolean(w: u8) -> bool {
    w != 0
}

pub fn lower_boolean(v: bool) -> (w: u8)
    ensures
        w == spec_lower_boolean(v),
{
    if v {
        1
    } else {
        0
    }
}

pub fn lift_boolean(w: u8) -> (v: bool)
    ensures
        v == spec_lift_boolean(w),
{
    w != 0
}

/// Round-trip law for booleans: lowering then lifting restores the value.
pub proof fn lemma_boolean_round_trip(v: bool)
    ensures
        spec_lift_boolean(spec_lower_boolean(v)) == v,
{
}

/// The wire representation of a `u32` — the value itself.
pub open spec fn spec_lower_u32(v: u32) -> u32 {
    v
}

/// The `u32` a wire value lifts to — the value itself.
pub open spec fn spec_lift_u32(w: u32) -> u32 {
    w
}

pub fn lower_u32(v: u32) -> (w: u32)
    ensures
        w == spec_lower_u32(v),
{
    v
}

pub fn lift_u32(w: u32) -> (v: u32)
    ensures
        v == spec_lift_u32(w),
{
    w
}

/// Round-trip law for `u32`: lowering then lifting restores the value.
pub proof fn lemma_u32_round_trip(v: u32)
    ensures
        spec_lift_u32(spec_lower_u32(v)) == v,
{
}

/// The wire representation of a `u64` — the value itself.
pub open spec fn spec_lower_u64(v: u64) -> u64 {
    v
}

/// The `u64` a wire value lifts to — the value itself.
pub open spec fn spec_lift_u64(w: u64) -> u64 {
    w
}

pub fn lower_u64(v: u64) -> (w: u64)
    ensures
        w == spec_lower_u64(v),
{
    v
}

pub fn lift_u64(w: u64) -> (v: u64)
    ensures
        v == spec_lift_u64(w),
{
    w
}

/// Round-trip law for `u64`: lowering then lifting restores the value.
pub proof fn lemma_u64_round_trip(v: u64)
    ensures
        spec_lift_u64(spec_lower_u64(v)) == v,
{
}

/// The wire representation of a string — a borrowed view of the same
/// characters, valid only for the call's duration; no copy is made and
/// none may be freed by the callee.
pub open spec fn spec_lower_string(v: Seq<char>) -> Seq<char> {
    v
}

/// The string a borrowed wire view lifts to — the same characters.
pub open spec fn spec_lift_string(w: Seq<char>) -> Seq<char> {
    w
}

pub fn lower_string(v: &str) -> (w: &str)
    ensures
        w@ == spec_lower_string(v@),
{
    v
}

pub fn lift_string(w: &str) -> (v: &str)
    ensures
        v@ == spec_lift_string(w@),
{
    w
}

/// Round-trip law for strings: lowering then lifting restores the
/// characters.
pub proof fn lemma_string_round_trip(v: Seq<char>)
    ensures
        spec_lift_string(spec_lower_string(v)) == v,
{
}

/// The enumeration's discriminants are pairwise distinct — the model
/// invariant every well-formed enumeration carries.
pub open spec fn spec_enum_wf(e: EnumType) -> bool {
    forall|i: int, j: int|
        0 <= i < j < e.variants@.len() ==> e.variants@[i].discriminant
            != e.variants@[j].discriminant
}

/// The variant (by index) a wire integer lifts to: the first variant whose
/// discriminant equals the integer, or `None` when no variant matches.
pub open spec fn spec_lift_enum(e: EnumType, w: u32) -> Option<int> {
    spec_lift_enum_from(e, w, 0)
}

pub open spec fn spec_lift_enum_from(e: EnumType, w: u32, i: int) -> Option<int>
    decreases e.variants@.len() - i,
{
    if i < 0 || i >= e.variants@.len() {
        None
    } else if e.variants@[i].discriminant == w {
        Some(i)
    } else {
        spec_lift_enum_from(e, w, i + 1)
    }
}

/// A runtime error of the generated bindings: an integer arrived on the
/// wire that matches no declared discriminant of the enumeration.
#[derive(Debug)]
pub struct EnumLiftError {
    pub enum_name: String,
    pub value: u32,
}

/// The wire representation of the variant at `variant` — its discriminant.
pub fn lower_enum(e: &EnumType, variant: usize) -> (w: u32)
    requires
        variant < e.variants@.len(),
    ensures
        w == e.variants@[variant as int].discriminant,
{
    e.variants[variant].discriminant
}

/// Lifts a wire integer to the index of the matching variant, or reports
/// a runtime error naming the enumeration and the unmatched integer.
pub fn lift_enum(e: &EnumType, w: u32) -> (r: Result<usize, EnumLiftError>)
    ensures
        match r {
            Ok(i) => spec_lift_enum(*e, w) == Some(i as int),
            Err(err) => spec_lift_enum(*e, w) is None && err.enum_name@ == e.name@ && err.value
                == w,
        },
{
    let n = e.variants.len();
    let mut i: usize = 0;
    while i < n
        invariant
            i <= n,
            n == e.variants@.len(),
            spec_lift_enum(*e, w) == spec_lift_enum_from(*e, w, i as int),
        decreases n - i,
    {
        if e.variants[i].discriminant == w {
            return Ok(i);
        }
        i = i + 1;
    }
    Err(EnumLiftError { enum_name: e.name.clone(), value: w })
}

/// What `spec_lift_enum_from` finds is a matching variant at or past its
/// starting point, and the first such.
pub proof fn lemma_lift_enum_from_sound(e: EnumType, w: u32, i: int)
    requires
        0 <= i,
    ensures
        match spec_lift_enum_from(e, w, i) {
            Some(k) => i <= k < e.variants@.len() && e.variants@[k].discriminant == w && forall|
                m: int,
            |
                i <= m < k ==> e.variants@[m].discriminant != w,
            None => forall|m: int| i <= m < e.variants@.len() ==> e.variants@[m].discriminant != w,
        },
    decreases e.variants@.len() - i,
{
    if i < e.variants@.len() && e.variants@[i].discriminant != w {
        lemma_lift_enum_from_sound(e, w, i + 1);
    }
}

/// Round-trip law for enumerations: with pairwise-distinct discriminants,
/// lowering a variant and lifting the integer back yields that variant.
pub proof fn lemma_enum_round_trip(e: EnumType, variant: int)
    requires
        spec_enum_wf(e),
        0 <= variant < e.variants@.len(),
    ensures
        spec_lift_enum(e, e.variants@[variant].discriminant) == Some(variant),
{
    let w = e.variants@[variant].discriminant;
    lemma_lift_enum_from_sound(e, w, 0);
    match spec_lift_enum(e, w) {
        Some(k) => {
            if k < variant {
                assert(e.variants@[k].discriminant == e.variants@[variant].discriminant);
            } else if k > variant {
                assert(e.variants@[variant].discriminant != w);
            }
        },
        None => {
            assert(e.variants@[variant].discriminant != w);
        },
    }
}

} // verus!
