//! The Kotlin backend: per-member generators and the binding dispatcher.
//!
//! Each interface member is turned into one text fragment. Objects emit
//! exactly one free declaration, then one declaration per constructor and
//! method; namespaces emit one declaration per function; records emit a
//! wire aggregate with field-wise lift/lower helpers; enumerations emit a
//! mirror enum with conversions both ways, whose lift reports an unmatched
//! discriminant instead of defaulting.
//!
//! The dispatcher walks the component once, in model order. It first
//! validates the model — every type reference resolves, every enumeration
//! has distinct discriminants, and no two emitted FFI symbols collide —
//! and only then produces fragments: a run either succeeds completely or
//! fails atomically with one diagnostic, never with placeholder output.

use vstd::prelude::*;

use crate::convert::spec_type_decl;
use crate::convert::spec_type_lift;
use crate::convert::spec_type_lower;
use crate::convert::type_decl;
use crate::convert::type_lift;
use crate::convert::type_lower;
use crate::decl::DeclKind;
use crate::decl::spec_u32_dec;
use crate::decl::u32_dec;
use crate::decl::FfiDecl;
use crate::decl::FfiDeclView;
use crate::decl::FfiParam;
use crate::decl::FfiParamView;
use crate::decl::decls_view;
use crate::decl::render_decl;
use crate::decl::spec_render_decl;
use crate::model::Argument;
use crate::model::ComponentInterface;
use crate::model::EnumType;
use crate::model::EnumVariant;
use crate::model::Field;
use crate::model::InterfaceMember;
use crate::model::NamespaceType;
use crate::model::NamespaceTypeFunction;
use crate::model::NamespaceTypeMember;
use crate::model::ObjectType;
use crate::model::ObjectTypeConstructor;
use crate::model::ObjectTypeMember;
use crate::model::ObjectTypeMethod;
use crate::model::RecordType;
use crate::model::TypeReference;
use crate::model::spec_member_name;
use crate::model::spec_unresolved_in_type;
use crate::model::unresolved_in_type;
use crate::wire::spec_enum_wf;

verus! {

/// The FFI-facing symbol for a member of a scope: `{Scope}_{Member}`.
pub open spec fn spec_ffi_symbol(scope: Seq<char>, member: Seq<char>) -> Seq<char> {
    scope + "_"@ + member
}

/// Forms the FFI-facing symbol `{Scope}_{Member}`.
pub fn ffi_symbol(scope: &str, member: &str) -> (r: String)
    ensures
        r@ == spec_ffi_symbol(scope@, member@),
{
    let mut s = String::from_str(scope);
    s.append("_");
    s.append(member);
    s
}

/// The implicit first parameter of a free or method declaration: the
/// borrowed handle of the object instance.
pub open spec fn spec_handle_param() -> FfiParamView {
    FfiParamView { name: "handle"@, type_decl: "Handle"@ }
}

fn handle_param() -> (p: FfiParam)
    ensures
        p@ == spec_handle_param(),
{
    FfiParam { name: String::from_str("handle"), type_decl: String::from_str("Handle") }
}

/// The declared parameters of an argument list, in order, each named as in
/// the model and typed through the type conversion contract.
pub open spec fn spec_arg_params(args: Seq<Argument>) -> Seq<FfiParamView> {
    args.map_values(
        |a: Argument| FfiParamView { name: a.name@, type_decl: spec_type_decl(a.typ) },
    )
}

fn arg_params(args: &Vec<Argument>) -> (r: Vec<FfiParam>)
    ensures
        r@.map_values(|p: FfiParam| p@) == spec_arg_params(args@),
{
    let mut r: Vec<FfiParam> = Vec::new();
    let n = args.len();
    let mut i: usize = 0;
    while i < n
        invariant
            i <= n,
            n == args@.len(),
            r@.len() == i,
            forall|k: int|
                0 <= k < i ==> (#[trigger] r@[k])@ =~~= (FfiParamView {
                    name: args@[k].name@,
                    type_decl: spec_type_decl(args@[k].typ),
                }),
        decreases n - i,
    {
        let td = type_decl(&args[i].typ);
        r.push(FfiParam { name: args[i].name.clone(), type_decl: td });
        i = i + 1;
    }
    proof {
        assert(r@.map_values(|p: FfiParam| p@) =~~= spec_arg_params(args@));
    }
    r
}

/// The free declaration of an object: takes the handle and the error slot,
/// returns nothing. Emitted once per object, constructors or not.
pub open spec fn spec_free_decl(obj: ObjectType) -> FfiDeclView {
    FfiDeclView {
        kind: DeclKind::Free,
        symbol: spec_ffi_symbol(obj.name@, "free"@),
        owner: obj.name@,
        params: seq![spec_handle_param()],
        return_decl: None,
    }
}

/// A constructor declaration: the declared arguments and the error slot,
/// returning a fresh handle.
pub open spec fn spec_constructor_decl(obj: ObjectType, cons: ObjectTypeConstructor) -> FfiDeclView {
    FfiDeclView {
        kind: DeclKind::Constructor,
        symbol: spec_ffi_symbol(obj.name@, cons.name@),
        owner: obj.name@,
        params: spec_arg_params(cons.argument_types@),
        return_decl: Some("Handle"@),
    }
}

/// A method declaration: the borrowed handle, the declared arguments and
/// the error slot, returning the declared wire type when one is present.
pub open spec fn spec_method_decl(obj: ObjectType, meth: ObjectTypeMethod) -> FfiDeclView {
    FfiDeclView {
        kind: DeclKind::Method,
        symbol: spec_ffi_symbol(obj.name@, meth.name@),
        owner: obj.name@,
        params: seq![spec_handle_param()] + spec_arg_params(meth.argument_types@),
        return_decl: match meth.return_type {
            Some(t) => Some(spec_type_decl(t)),
            None => None,
        },
    }
}

/// The declaration of one object member.
pub open spec fn spec_object_member_decl(obj: ObjectType, m: ObjectTypeMember) -> FfiDeclView {
    match m {
        ObjectTypeMember::Constructor(cons) => spec_constructor_decl(obj, cons),
        ObjectTypeMember::Method(meth) => spec_method_decl(obj, meth),
    }
}

pub open spec fn spec_object_member_decls_from(obj: ObjectType, i: int) -> Seq<FfiDeclView>
    decreases obj.members@.len() - i,
{
    if i < 0 || i >= obj.members@.len() {
        Seq::<FfiDeclView>::empty()
    } else {
        seq![spec_object_member_decl(obj, obj.members@[i])] + spec_object_member_decls_from(
            obj,
            i + 1,
        )
    }
}

/// All declarations of an object: the free declaration first, then one per
/// constructor or method, in model order.
pub open spec fn spec_object_decls(obj: ObjectType) -> Seq<FfiDeclView> {
    seq![spec_free_decl(obj)] + spec_object_member_decls_from(obj, 0)
}

/// A namespace function declaration: the declared arguments and the error
/// slot, returning the declared wire type when one is present.
pub open spec fn spec_function_decl(ns: NamespaceType, f: NamespaceTypeFunction) -> FfiDeclView {
    FfiDeclView {
        kind: DeclKind::Function,
        symbol: spec_ffi_symbol(ns.name@, f.name@),
        owner: ns.name@,
        params: spec_arg_params(f.argument_types@),
        return_decl: match f.return_type {
            Some(t) => Some(spec_type_decl(t)),
            None => None,
        },
    }
}

pub open spec fn spec_namespace_decls_from(ns: NamespaceType, i: int) -> Seq<FfiDeclView>
    decreases ns.members@.len() - i,
{
    if i < 0 || i >= ns.members@.len() {
        Seq::<FfiDeclView>::empty()
    } else {
        (match ns.members@[i] {
            NamespaceTypeMember::Function(f) => seq![spec_function_decl(ns, f)],
        }) + spec_namespace_decls_from(ns, i + 1)
    }
}

/// All declarations of a namespace: one per function, in model order.
pub open spec fn spec_namespace_decls(ns: NamespaceType) -> Seq<FfiDeclView> {
    spec_namespace_decls_from(ns, 0)
}

/// The FFI declarations of one interface member; records and enumerations
/// declare no FFI symbols of their own.
pub open spec fn spec_member_decls(m: InterfaceMember) -> Seq<FfiDeclView> {
    match m {
        InterfaceMember::Object(obj) => spec_object_decls(obj),
        InterfaceMember::Namespace(ns) => spec_namespace_decls(ns),
        InterfaceMember::Record(_) => Seq::<FfiDeclView>::empty(),
        InterfaceMember::Enum(_) => Seq::<FfiDeclView>::empty(),
    }
}

pub open spec fn spec_component_decls_from(ci: ComponentInterface, i: int) -> Seq<FfiDeclView>
    decreases ci.members@.len() - i,
{
    if i < 0 || i >= ci.members@.len() {
        Seq::<FfiDeclView>::empty()
    } else {
        spec_member_decls(ci.members@[i]) + spec_component_decls_from(ci, i + 1)
    }
}

/// Every FFI declaration of the component, in model order.
pub open spec fn spec_component_decls(ci: ComponentInterface) -> Seq<FfiDeclView> {
    spec_component_decls_from(ci, 0)
}

/// The concatenated text of a list of declarations.
pub open spec fn spec_decls_text(ds: Seq<FfiDeclView>) -> Seq<char>
    decreases ds.len(),
{
    if ds.len() == 0 {
        Seq::<char>::empty()
    } else {
        spec_render_decl(ds[0]) + spec_decls_text(ds.drop_first())
    }
}

fn render_decls(ds: &Vec<FfiDecl>) -> (r: String)
    ensures
        r@ == spec_decls_text(decls_view(ds@)),
{
    let ghost dv = decls_view(ds@);
    let mut s = String::new();
    let n = ds.len();
    let mut i: usize = 0;
    proof {
        assert(dv.skip(0) =~= dv);
        assert(s@ + spec_decls_text(dv) =~= spec_decls_text(dv));
    }
    while i < n
        invariant
            i <= n,
            n == ds@.len(),
            dv == decls_view(ds@),
            dv.len() == n,
            s@ + spec_decls_text(dv.skip(i as int)) == spec_decls_text(dv),
        decreases n - i,
    {
        let ghost s_old = s@;
        let t = render_decl(&ds[i]);
        s.append(t.as_str());
        proof {
            assert(dv.skip(i as int).drop_first() =~= dv.skip(i as int + 1));
            assert(dv.skip(i as int)[0] == dv[i as int]);
            assert(s_old + (spec_render_decl(dv[i as int]) + spec_decls_text(
                dv.skip(i as int + 1),
            )) =~= s@ + spec_decls_text(dv.skip(i as int + 1)));
        }
        i = i + 1;
    }
    proof {
        assert(dv.skip(n as int) =~= Seq::<FfiDeclView>::empty());
        assert(s@ + Seq::<char>::empty() =~= s@);
    }
    s
}

/// The generator for one constructor of one object.
pub struct ObjectConstructorKotlinWrapper<'a> {
    pub obj: &'a ObjectType,
    pub cons: &'a ObjectTypeConstructor,
}

impl<'a> ObjectConstructorKotlinWrapper<'a> {
    pub fn new(obj: &'a ObjectType, cons: &'a ObjectTypeConstructor) -> (r: Self)
        ensures
            r.obj == obj,
            r.cons == cons,
    {
        Self { obj, cons }
    }

    /// The constructor's FFI symbol: `{ObjectName}_{ConstructorName}`.
    pub fn ffi_name(&self) -> (r: String)
        ensures
            r@ == spec_ffi_symbol(self.obj.name@, self.cons.name@),
    {
        ffi_symbol(self.obj.name.as_str(), self.cons.name.as_str())
    }

    /// The constructor's FFI declaration.
    pub fn decl(&self) -> (r: FfiDecl)
        ensures
            r@ == spec_constructor_decl(*self.obj, *self.cons),
    {
        FfiDecl {
            kind: DeclKind::Constructor,
            symbol: self.ffi_name(),
            owner: self.obj.name.clone(),
            params: arg_params(&self.cons.argument_types),
            return_decl: Some(String::from_str("Handle")),
        }
    }
}

/// The generator for one method of one object.
pub struct ObjectMethodKotlinWrapper<'a> {
    pub obj: &'a ObjectType,
    pub meth: &'a ObjectTypeMethod,
}

impl<'a> ObjectMethodKotlinWrapper<'a> {
    pub fn new(obj: &'a ObjectType, meth: &'a ObjectTypeMethod) -> (r: Self)
        ensures
            r.obj == obj,
            r.meth == meth,
    {
        Self { obj, meth }
    }

    /// The method's FFI symbol: `{ObjectName}_{MethodName}`.
    pub fn ffi_name(&self) -> (r: String)
        ensures
            r@ == spec_ffi_symbol(self.obj.name@, self.meth.name@),
    {
        ffi_symbol(self.obj.name.as_str(), self.meth.name.as_str())
    }

    /// The method's FFI declaration, with the borrowed handle first.
    pub fn decl(&self) -> (r: FfiDecl)
        ensures
            r@ == spec_method_decl(*self.obj, *self.meth),
    {
        let mut params: Vec<FfiParam> = Vec::new();
        params.push(handle_param());
        let mut rest = arg_params(&self.meth.argument_types);
        params.append(&mut rest);
        proof {
            assert(params@.map_values(|p: FfiParam| p@) =~~= seq![spec_handle_param()]
                + spec_arg_params(self.meth.argument_types@));
        }
        let return_decl = match &self.meth.return_type {
            Some(t) => Some(type_decl(t)),
            None => None,
        };
        FfiDecl {
            kind: DeclKind::Method,
            symbol: self.ffi_name(),
            owner: self.obj.name.clone(),
            params,
            return_decl,
        }
    }
}

/// The generator for one object.
pub struct ObjectKotlinWrapper<'a> {
    pub obj: &'a ObjectType,
}

impl<'a> ObjectKotlinWrapper<'a> {
    pub fn new(obj: &'a ObjectType) -> (r: Self)
        ensures
            r.obj == obj,
    {
        Self { obj }
    }

    /// The object's name as declared in the model.
    pub fn struct_name(&self) -> (r: &'a str)
        ensures
            r@ == self.obj.name@,
    {
        self.obj.name.as_str()
    }

    /// The object's FFI declarations: the free declaration first, then one
    /// per constructor or method, in model order.
    pub fn members(&self) -> (r: Vec<FfiDecl>)
        ensures
            decls_view(r@) == spec_object_decls(*self.obj),
    {
        let mut r: Vec<FfiDecl> = Vec::new();
        r.push(
            FfiDecl {
                kind: DeclKind::Free,
                symbol: ffi_symbol(self.obj.name.as_str(), "free"),
                owner: self.obj.name.clone(),
                params: vec![handle_param()],
                return_decl: None,
            },
        );
        proof {
            assert(decls_view(r@) =~~= seq![spec_free_decl(*self.obj)]);
        }
        let n = self.obj.members.len();
        let mut i: usize = 0;
        while i < n
            invariant
                i <= n,
                n == self.obj.members@.len(),
                decls_view(r@) + spec_object_member_decls_from(*self.obj, i as int)
                    =~= spec_object_decls(*self.obj),
            decreases n - i,
        {
            let ghost r_old = decls_view(r@);
            let d = match &self.obj.members[i] {
                ObjectTypeMember::Constructor(cons) => ObjectConstructorKotlinWrapper::new(
                    self.obj,
                    cons,
                ).decl(),
                ObjectTypeMember::Method(meth) => ObjectMethodKotlinWrapper::new(
                    self.obj,
                    meth,
                ).decl(),
            };
            r.push(d);
            proof {
                assert(decls_view(r@) =~~= r_old + seq![
                    spec_object_member_decl(*self.obj, self.obj.members@[i as int]),
                ]);
                assert(decls_view(r@) + spec_object_member_decls_from(*self.obj, i as int + 1)
                    =~= r_old + spec_object_member_decls_from(*self.obj, i as int));
            }
            i = i + 1;
        }
        proof {
            assert(spec_object_member_decls_from(*self.obj, n as int)
                =~= Seq::<FfiDeclView>::empty());
            assert(decls_view(r@) + Seq::<FfiDeclView>::empty() =~= decls_view(r@));
        }
        r
    }

    /// The object's binding fragment: its declarations rendered in order.
    pub fn render(&self) -> (r: String)
        ensures
            r@ == spec_decls_text(spec_object_decls(*self.obj)),
    {
        let ds = self.members();
        render_decls(&ds)
    }
}

/// The generator for one function of one namespace.
pub struct NamespaceFunctionKotlinWrapper<'a> {
    pub ns: &'a NamespaceType,
    pub f: &'a NamespaceTypeFunction,
}

impl<'a> NamespaceFunctionKotlinWrapper<'a> {
    pub fn new(ns: &'a NamespaceType, f: &'a NamespaceTypeFunction) -> (r: Self)
        ensures
            r.ns == ns,
            r.f == f,
    {
        Self { ns, f }
    }

    /// The function's FFI symbol: `{NamespaceName}_{FunctionName}`.
    pub fn ffi_name(&self) -> (r: String)
        ensures
            r@ == spec_ffi_symbol(self.ns.name@, self.f.name@),
    {
        ffi_symbol(self.ns.name.as_str(), self.f.name.as_str())
    }

    /// The function's FFI declaration.
    pub fn decl(&self) -> (r: FfiDecl)
        ensures
            r@ == spec_function_decl(*self.ns, *self.f),
    {
        let return_decl = match &self.f.return_type {
            Some(t) => Some(type_decl(t)),
            None => None,
        };
        FfiDecl {
            kind: DeclKind::Function,
            symbol: self.ffi_name(),
            owner: self.ns.name.clone(),
            params: arg_params(&self.f.argument_types),
            return_decl,
        }
    }
}

/// The generator for one namespace.
pub struct NamespaceKotlinWrapper<'a> {
    pub ns: &'a NamespaceType,
}

impl<'a> NamespaceKotlinWrapper<'a> {
    pub fn new(ns: &'a NamespaceType) -> (r: Self)
        ensures
            r.ns == ns,
    {
        Self { ns }
    }

    /// The namespace's FFI declarations: one per function, in model order.
    pub fn members(&self) -> (r: Vec<FfiDecl>)
        ensures
            decls_view(r@) == spec_namespace_decls(*self.ns),
    {
        let mut r: Vec<FfiDecl> = Vec::new();
        let n = self.ns.members.len();
        let mut i: usize = 0;
        proof {
            assert(decls_view(r@) + spec_namespace_decls_from(*self.ns, 0)
                =~= spec_namespace_decls(*self.ns));
        }
        while i < n
            invariant
                i <= n,
                n == self.ns.members@.len(),
                decls_view(r@) + spec_namespace_decls_from(*self.ns, i as int)
                    =~= spec_namespace_decls(*self.ns),
            decreases n - i,
        {
            let ghost r_old = decls_view(r@);
            let d = match &self.ns.members[i] {
                NamespaceTypeMember::Function(f) => NamespaceFunctionKotlinWrapper::new(
                    self.ns,
                    f,
                ).decl(),
            };
            r.push(d);
            proof {
                assert(decls_view(r@) =~~= r_old + seq![
                    spec_function_decl(
                        *self.ns,
                        self.ns.members@[i as int]->Function_0,
                    ),
                ]);
                assert(decls_view(r@) + spec_namespace_decls_from(*self.ns, i as int + 1)
                    =~= r_old + spec_namespace_decls_from(*self.ns, i as int));
            }
            i = i + 1;
        }
        proof {
            assert(spec_namespace_decls_from(*self.ns, n as int) =~= Seq::<FfiDeclView>::empty());
            assert(decls_view(r@) + Seq::<FfiDeclView>::empty() =~= decls_view(r@));
        }
        r
    }

    /// The namespace's binding fragment: its declarations rendered in order.
    pub fn render(&self) -> (r: String)
        ensures
            r@ == spec_decls_text(spec_namespace_decls(*self.ns)),
    {
        let ds = self.members();
        render_decls(&ds)
    }
}

/// The text of a record's field declarations: one `val name: type,` line
/// per field, in declaration order.
pub open spec fn spec_record_fields_text(fs: Seq<Field>) -> Seq<char>
    decreases fs.len(),
{
    if fs.len() == 0 {
        Seq::<char>::empty()
    } else {
        "    val "@ + fs[0].name@ + ": "@ + spec_type_decl(fs[0].typ) + ",\n"@
            + spec_record_fields_text(fs.drop_first())
    }
}

/// The field-wise lift lines of a record helper, in declaration order.
pub open spec fn spec_record_lift_fields(fs: Seq<Field>) -> Seq<char>
    decreases fs.len(),
{
    if fs.len() == 0 {
        Seq::<char>::empty()
    } else {
        "    "@ + spec_type_lift("v."@ + fs[0].name@, fs[0].typ) + ",\n"@
            + spec_record_lift_fields(fs.drop_first())
    }
}

/// The field-wise lower lines of a record helper, in declaration order.
pub open spec fn spec_record_lower_fields(fs: Seq<Field>) -> Seq<char>
    decreases fs.len(),
{
    if fs.len() == 0 {
        Seq::<char>::empty()
    } else {
        "    "@ + spec_type_lower("v."@ + fs[0].name@, fs[0].typ) + ",\n"@
            + spec_record_lower_fields(fs.drop_first())
    }
}

/// The fragment of a record: the wire aggregate with one field per model
/// field, then a lift and a lower helper composed field-wise from the
/// type conversion contract. Records cross the boundary by value and
/// never require handle management.
pub open spec fn spec_record_text(rec: RecordType) -> Seq<char> {
    "internal data class "@ + rec.name@ + "(\n"@ + spec_record_fields_text(rec.fields@) + ")\n\ninternal fun "@
        + rec.name@ + "_lift(v: "@ + rec.name@ + "): "@ + rec.name@ + " = "@ + rec.name@ + "(\n"@
        + spec_record_lift_fields(rec.fields@) + ")\n\ninternal fun "@ + rec.name@ + "_lower(v: "@
        + rec.name@ + "): "@ + rec.name@ + " = "@ + rec.name@ + "(\n"@ + spec_record_lower_fields(
        rec.fields@,
    ) + ")\n"@
}

fn record_fields_text_from(fs: &Vec<Field>, i: usize) -> (r: String)
    requires
        i <= fs@.len(),
    ensures
        r@ == spec_record_fields_text(fs@.skip(i as int)),
    decreases fs@.len() - i,
{
    if i == fs.len() {
        proof {
            assert(fs@.skip(i as int) =~= Seq::<Field>::empty());
        }
        String::new()
    } else {
        let mut s = String::from_str("    val ");
        s.append(fs[i].name.as_str());
        s.append(": ");
        let td = type_decl(&fs[i].typ);
        s.append(td.as_str());
        s.append(",\n");
        let rest = record_fields_text_from(fs, i + 1);
        s.append(rest.as_str());
        proof {
            assert(fs@.skip(i as int).drop_first() =~= fs@.skip(i as int + 1));
            assert(fs@.skip(i as int)[0] == fs@[i as int]);
        }
        s
    }
}

fn record_lift_fields_from(fs: &Vec<Field>, i: usize) -> (r: String)
    requires
        i <= fs@.len(),
    ensures
        r@ == spec_record_lift_fields(fs@.skip(i as int)),
    decreases fs@.len() - i,
{
    if i == fs.len() {
        proof {
            assert(fs@.skip(i as int) =~= Seq::<Field>::empty());
        }
        String::new()
    } else {
        let mut s = String::from_str("    ");
        let mut nm = String::from_str("v.");
        nm.append(fs[i].name.as_str());
        let e = type_lift(nm.as_str(), &fs[i].typ);
        s.append(e.as_str());
        s.append(",\n");
        let rest = record_lift_fields_from(fs, i + 1);
        s.append(rest.as_str());
        proof {
            assert(fs@.skip(i as int).drop_first() =~= fs@.skip(i as int + 1));
            assert(fs@.skip(i as int)[0] == fs@[i as int]);
        }
        s
    }
}

fn record_lower_fields_from(fs: &Vec<Field>, i: usize) -> (r: String)
    requires
        i <= fs@.len(),
    ensures
        r@ == spec_record_lower_fields(fs@.skip(i as int)),
    decreases fs@.len() - i,
{
    if i == fs.len() {
        proof {
            assert(fs@.skip(i as int) =~= Seq::<Field>::empty());
        }
        String::new()
    } else {
        let mut s = String::from_str("    ");
        let mut nm = String::from_str("v.");
        nm.append(fs[i].name.as_str());
        let e = type_lower(nm.as_str(), &fs[i].typ);
        s.append(e.as_str());
        s.append(",\n");
        let rest = record_lower_fields_from(fs, i + 1);
        s.append(rest.as_str());
        proof {
            assert(fs@.skip(i as int).drop_first() =~= fs@.skip(i as int + 1));
            assert(fs@.skip(i as int)[0] == fs@[i as int]);
        }
        s
    }
}

/// The generator for one record.
pub struct RecordKotlinWrapper<'a> {
    pub rec: &'a RecordType,
}

impl<'a> RecordKotlinWrapper<'a> {
    pub fn new(rec: &'a RecordType) -> (r: Self)
        ensures
            r.rec == rec,
    {
        Self { rec }
    }

    /// The record's binding fragment: aggregate plus lift/lower helpers.
    pub fn render(&self) -> (r: String)
        ensures
            r@ == spec_record_text(*self.rec),
    {
        let name = self.rec.name.as_str();
        let mut s = String::from_str("internal data class ");
        s.append(name);
        s.append("(\n");
        let fields = record_fields_text_from(&self.rec.fields, 0);
        proof {
            assert(self.rec.fields@.skip(0) =~= self.rec.fields@);
        }
        s.append(fields.as_str());
        s.append(")\n\ninternal fun ");
        s.append(name);
        s.append("_lift(v: ");
        s.append(name);
        s.append("): ");
        s.append(name);
        s.append(" = ");
        s.append(name);
        s.append("(\n");
        let lifts = record_lift_fields_from(&self.rec.fields, 0);
        s.append(lifts.as_str());
        s.append(")\n\ninternal fun ");
        s.append(name);
        s.append("_lower(v: ");
        s.append(name);
        s.append("): ");
        s.append(name);
        s.append(" = ");
        s.append(name);
        s.append("(\n");
        let lowers = record_lower_fields_from(&self.rec.fields, 0);
        s.append(lowers.as_str());
        s.append(")\n");
        s
    }
}

/// The variant lines of the emitted enum mirror, in declaration order.
pub open spec fn spec_enum_variants_text(vs: Seq<EnumVariant>) -> Seq<char>
    decreases vs.len(),
{
    if vs.len() == 0 {
        Seq::<char>::empty()
    } else {
        "    "@ + vs[0].name@ + ",\n"@ + spec_enum_variants_text(vs.drop_first())
    }
}

/// The lift arms of the emitted enum conversion: one per declared
/// discriminant, in declaration order.
pub open spec fn spec_enum_lift_arms(name: Seq<char>, vs: Seq<EnumVariant>) -> Seq<char>
    decreases vs.len(),
{
    if vs.len() == 0 {
        Seq::<char>::empty()
    } else {
        "    "@ + spec_u32_dec(vs[0].discriminant) + "u -> "@ + name + "."@ + vs[0].name@ + ",\n"@
            + spec_enum_lift_arms(name, vs.drop_first())
    }
}

/// The lower arms of the emitted enum conversion, in declaration order.
pub open spec fn spec_enum_lower_arms(name: Seq<char>, vs: Seq<EnumVariant>) -> Seq<char>
    decreases vs.len(),
{
    if vs.len() == 0 {
        Seq::<char>::empty()
    } else {
        "    "@ + name + "."@ + vs[0].name@ + " -> "@ + spec_u32_dec(vs[0].discriminant) + "u,\n"@
            + spec_enum_lower_arms(name, vs.drop_first())
    }
}

/// The fragment of an enumeration: a mirror enum and conversions both
/// ways. The lift conversion ends in an arm that reports an unmatched
/// wire value instead of defaulting to an arbitrary variant.
pub open spec fn spec_enum_text(e: EnumType) -> Seq<char> {
    "internal enum class "@ + e.name@ + " {\n"@ + spec_enum_variants_text(e.variants@) + "}\n\ninternal fun "@
        + e.name@ + "_lift(v: u32): "@ + e.name@ + " = when (v) {\n"@ + spec_enum_lift_arms(
        e.name@,
        e.variants@,
    ) + "    else -> throw RuntimeException(\"unexpected enum wire value \" + v)\n}\n\ninternal fun "@
        + e.name@ + "_lower(v: "@ + e.name@ + "): u32 = when (v) {\n"@ + spec_enum_lower_arms(
        e.name@,
        e.variants@,
    ) + "}\n"@
}

fn enum_variants_text_from(vs: &Vec<EnumVariant>, i: usize) -> (r: String)
    requires
        i <= vs@.len(),
    ensures
        r@ == spec_enum_variants_text(vs@.skip(i as int)),
    decreases vs@.len() - i,
{
    if i == vs.len() {
        proof {
            assert(vs@.skip(i as int) =~= Seq::<EnumVariant>::empty());
        }
        String::new()
    } else {
        let mut s = String::from_str("    ");
        s.append(vs[i].name.as_str());
        s.append(",\n");
        let rest = enum_variants_text_from(vs, i + 1);
        s.append(rest.as_str());
        proof {
            assert(vs@.skip(i as int).drop_first() =~= vs@.skip(i as int + 1));
            assert(vs@.skip(i as int)[0] == vs@[i as int]);
        }
        s
    }
}

fn enum_lift_arms_from(name: &str, vs: &Vec<EnumVariant>, i: usize) -> (r: String)
    requires
        i <= vs@.len(),
    ensures
        r@ == spec_enum_lift_arms(name@, vs@.skip(i as int)),
    decreases vs@.len() - i,
{
    if i == vs.len() {
        proof {
            assert(vs@.skip(i as int) =~= Seq::<EnumVariant>::empty());
        }
        String::new()
    } else {
        let mut s = String::from_str("    ");
        let d = u32_dec(vs[i].discriminant);
        s.append(d.as_str());
        s.append("u -> ");
        s.append(name);
        s.append(".");
        s.append(vs[i].name.as_str());
        s.append(",\n");
        let rest = enum_lift_arms_from(name, vs, i + 1);
        s.append(rest.as_str());
        proof {
            assert(vs@.skip(i as int).drop_first() =~= vs@.skip(i as int + 1));
            assert(vs@.skip(i as int)[0] == vs@[i as int]);
        }
        s
    }
}

fn enum_lower_arms_from(name: &str, vs: &Vec<EnumVariant>, i: usize) -> (r: String)
    requires
        i <= vs@.len(),
    ensures
        r@ == spec_enum_lower_arms(name@, vs@.skip(i as int)),
    decreases vs@.len() - i,
{
    if i == vs.len() {
        proof {
            assert(vs@.skip(i as int) =~= Seq::<EnumVariant>::empty());
        }
        String::new()
    } else {
        let mut s = String::from_str("    ");
        s.append(name);
        s.append(".");
        s.append(vs[i].name.as_str());
        s.append(" -> ");
        let d = u32_dec(vs[i].discriminant);
        s.append(d.as_str());
        s.append("u,\n");
        let rest = enum_lower_arms_from(name, vs, i + 1);
        s.append(rest.as_str());
        proof {
            assert(vs@.skip(i as int).drop_first() =~= vs@.skip(i as int + 1));
            assert(vs@.skip(i as int)[0] == vs@[i as int]);
        }
        s
    }
}

/// The generator for one enumeration.
pub struct EnumKotlinWrapper<'a> {
    pub e: &'a EnumType,
}

impl<'a> EnumKotlinWrapper<'a> {
    pub fn new(e: &'a EnumType) -> (r: Self)
        ensures
            r.e == e,
    {
        Self { e }
    }

    /// The enumeration's binding fragment: mirror enum plus conversions.
    pub fn render(&self) -> (r: String)
        ensures
            r@ == spec_enum_text(*self.e),
    {
        let name = self.e.name.as_str();
        let mut s = String::from_str("internal enum class ");
        s.append(name);
        s.append(" {\n");
        let variants = enum_variants_text_from(&self.e.variants, 0);
        proof {
            assert(self.e.variants@.skip(0) =~= self.e.variants@);
        }
        s.append(variants.as_str());
        s.append("}\n\ninternal fun ");
        s.append(name);
        s.append("_lift(v: u32): ");
        s.append(name);
        s.append(" = when (v) {\n");
        let lifts = enum_lift_arms_from(name, &self.e.variants, 0);
        s.append(lifts.as_str());
        s.append("    else -> throw RuntimeException(\"unexpected enum wire value \" + v)\n}\n\ninternal fun ");
        s.append(name);
        s.append("_lower(v: ");
        s.append(name);
        s.append("): u32 = when (v) {\n");
        let lowers = enum_lower_arms_from(name, &self.e.variants, 0);
        s.append(lowers.as_str());
        s.append("}\n");
        s
    }
}

/// The first unresolved reference among the argument types at or past `i`.
pub open spec fn spec_unresolved_in_args_from(
    ci: ComponentInterface,
    args: Seq<Argument>,
    i: int,
) -> Option<Seq<char>>
    decreases args.len() - i,
{
    if i < 0 || i >= args.len() {
        None
    } else {
        match spec_unresolved_in_type(ci, args[i].typ) {
            Some(n) => Some(n),
            None => spec_unresolved_in_args_from(ci, args, i + 1),
        }
    }
}

/// The first unresolved reference in an optional return type.
pub open spec fn spec_unresolved_in_return(ci: ComponentInterface, r: Option<TypeReference>) -> Option<
    Seq<char>,
> {
    match r {
        Some(t) => spec_unresolved_in_type(ci, t),
        None => None,
    }
}

/// The first unresolved reference among an object's members at or past `i`:
/// constructor arguments, then method arguments and return, in model order.
pub open spec fn spec_unresolved_in_object_from(ci: ComponentInterface, obj: ObjectType, i: int) -> Option<
    Seq<char>,
>
    decreases obj.members@.len() - i,
{
    if i < 0 || i >= obj.members@.len() {
        None
    } else {
        let here = match obj.members@[i] {
            ObjectTypeMember::Constructor(cons) => spec_unresolved_in_args_from(
                ci,
                cons.argument_types@,
                0,
            ),
            ObjectTypeMember::Method(meth) => match spec_unresolved_in_args_from(
                ci,
                meth.argument_types@,
                0,
            ) {
                Some(n) => Some(n),
                None => spec_unresolved_in_return(ci, meth.return_type),
            },
        };
        match here {
            Some(n) => Some(n),
            None => spec_unresolved_in_object_from(ci, obj, i + 1),
        }
    }
}

/// The first unresolved reference among a record's fields at or past `i`.
pub open spec fn spec_unresolved_in_fields_from(ci: ComponentInterface, fs: Seq<Field>, i: int) -> Option<
    Seq<char>,
>
    decreases fs.len() - i,
{
    if i < 0 || i >= fs.len() {
        None
    } else {
        match spec_unresolved_in_type(ci, fs[i].typ) {
            Some(n) => Some(n),
            None => spec_unresolved_in_fields_from(ci, fs, i + 1),
        }
    }
}

/// The first unresolved reference among a namespace's functions at or past
/// `i`: arguments, then return, in model order.
pub open spec fn spec_unresolved_in_namespace_from(
    ci: ComponentInterface,
    ns: NamespaceType,
    i: int,
) -> Option<Seq<char>>
    decreases ns.members@.len() - i,
{
    if i < 0 || i >= ns.members@.len() {
        None
    } else {
        let here = match ns.members@[i] {
            NamespaceTypeMember::Function(f) => match spec_unresolved_in_args_from(
                ci,
                f.argument_types@,
                0,
            ) {
                Some(n) => Some(n),
                None => spec_unresolved_in_return(ci, f.return_type),
            },
        };
        match here {
            Some(n) => Some(n),
            None => spec_unresolved_in_namespace_from(ci, ns, i + 1),
        }
    }
}

/// The first unresolved reference within one interface member.
pub open spec fn spec_unresolved_in_member(ci: ComponentInterface, m: InterfaceMember) -> Option<
    Seq<char>,
> {
    match m {
        InterfaceMember::Object(obj) => spec_unresolved_in_object_from(ci, obj, 0),
        InterfaceMember::Record(rec) => spec_unresolved_in_fields_from(ci, rec.fields@, 0),
        InterfaceMember::Namespace(ns) => spec_unresolved_in_namespace_from(ci, ns, 0),
        InterfaceMember::Enum(_) => None,
    }
}

/// The first unresolved reference in the component at or past member `i`,
/// as the pair (member name, unresolved type name).
pub open spec fn spec_first_unresolved_from(ci: ComponentInterface, i: int) -> Option<
    (Seq<char>, Seq<char>),
>
    decreases ci.members@.len() - i,
{
    if i < 0 || i >= ci.members@.len() {
        None
    } else {
        match spec_unresolved_in_member(ci, ci.members@[i]) {
            Some(n) => Some((spec_member_name(ci.members@[i]), n)),
            None => spec_first_unresolved_from(ci, i + 1),
        }
    }
}

/// The first unresolved reference in the whole component, in model order.
pub open spec fn spec_first_unresolved(ci: ComponentInterface) -> Option<(Seq<char>, Seq<char>)> {
    spec_first_unresolved_from(ci, 0)
}

fn unresolved_in_args_from(ci: &ComponentInterface, args: &Vec<Argument>, i: usize) -> (r: Option<
    String,
>)
    requires
        i <= args@.len(),
    ensures
        match r {
            Some(n) => spec_unresolved_in_args_from(*ci, args@, i as int) == Some(n@),
            None => spec_unresolved_in_args_from(*ci, args@, i as int) is None,
        },
    decreases args@.len() - i,
{
    if i == args.len() {
        None
    } else {
        match unresolved_in_type(ci, &args[i].typ) {
            Some(n) => Some(n),
            None => unresolved_in_args_from(ci, args, i + 1),
        }
    }
}

fn unresolved_in_return(ci: &ComponentInterface, r: &Option<TypeReference>) -> (res: Option<String>)
    ensures
        match res {
            Some(n) => spec_unresolved_in_return(*ci, *r) == Some(n@),
            None => spec_unresolved_in_return(*ci, *r) is None,
        },
{
    match r {
        Some(t) => unresolved_in_type(ci, t),
        None => None,
    }
}

fn unresolved_in_object_from(ci: &ComponentInterface, obj: &ObjectType, i: usize) -> (r: Option<
    String,
>)
    requires
        i <= obj.members@.len(),
    ensures
        match r {
            Some(n) => spec_unresolved_in_object_from(*ci, *obj, i as int) == Some(n@),
            None => spec_unresolved_in_object_from(*ci, *obj, i as int) is None,
        },
    decreases obj.members@.len() - i,
{
    if i == obj.members.len() {
        None
    } else {
        let here = match &obj.members[i] {
            ObjectTypeMember::Constructor(cons) => unresolved_in_args_from(
                ci,
                &cons.argument_types,
                0,
            ),
            ObjectTypeMember::Method(meth) => match unresolved_in_args_from(
                ci,
                &meth.argument_types,
                0,
            ) {
                Some(n) => Some(n),
                None => unresolved_in_return(ci, &meth.return_type),
            },
        };
        match here {
            Some(n) => Some(n),
            None => unresolved_in_object_from(ci, obj, i + 1),
        }
    }
}

fn unresolved_in_fields_from(ci: &ComponentInterface, fs: &Vec<Field>, i: usize) -> (r: Option<
    String,
>)
    requires
        i <= fs@.len(),
    ensures
        match r {
            Some(n) => spec_unresolved_in_fields_from(*ci, fs@, i as int) == Some(n@),
            None => spec_unresolved_in_fields_from(*ci, fs@, i as int) is None,
        },
    decreases fs@.len() - i,
{
    if i == fs.len() {
        None
    } else {
        match unresolved_in_type(ci, &fs[i].typ) {
            Some(n) => Some(n),
            None => unresolved_in_fields_from(ci, fs, i + 1),
        }
    }
}

fn unresolved_in_namespace_from(ci: &ComponentInterface, ns: &NamespaceType, i: usize) -> (r: Option<
    String,
>)
    requires
        i <= ns.members@.len(),
    ensures
        match r {
            Some(n) => spec_unresolved_in_namespace_from(*ci, *ns, i as int) == Some(n@),
            None => spec_unresolved_in_namespace_from(*ci, *ns, i as int) is None,
        },
    decreases ns.members@.len() - i,
{
    if i == ns.members.len() {
        None
    } else {
        let here = match &ns.members[i] {
            NamespaceTypeMember::Function(f) => match unresolved_in_args_from(
                ci,
                &f.argument_types,
                0,
            ) {
                Some(n) => Some(n),
                None => unresolved_in_return(ci, &f.return_type),
            },
        };
        match here {
            Some(n) => Some(n),
            None => unresolved_in_namespace_from(ci, ns, i + 1),
        }
    }
}

fn member_name(m: &InterfaceMember) -> (r: String)
    ensures
        r@ == spec_member_name(*m),
{
    match m {
        InterfaceMember::Object(o) => o.name.clone(),
        InterfaceMember::Record(rec) => rec.name.clone(),
        InterfaceMember::Namespace(ns) => ns.name.clone(),
        InterfaceMember::Enum(e) => e.name.clone(),
    }
}

fn first_unresolved_from(ci: &ComponentInterface, i: usize) -> (r: Option<(String, String)>)
    requires
        i <= ci.members@.len(),
    ensures
        match r {
            Some(p) => spec_first_unresolved_from(*ci, i as int) == Some((p.0@, p.1@)),
            None => spec_first_unresolved_from(*ci, i as int) is None,
        },
    decreases ci.members@.len() - i,
{
    if i == ci.members.len() {
        None
    } else {
        let here = match &ci.members[i] {
            InterfaceMember::Object(obj) => unresolved_in_object_from(ci, obj, 0),
            InterfaceMember::Record(rec) => unresolved_in_fields_from(ci, &rec.fields, 0),
            InterfaceMember::Namespace(ns) => unresolved_in_namespace_from(ci, ns, 0),
            InterfaceMember::Enum(_) => None,
        };
        match here {
            Some(n) => Some((member_name(&ci.members[i]), n)),
            None => first_unresolved_from(ci, i + 1),
        }
    }
}

/// The earliest earlier index whose discriminant equals that of `j`.
pub open spec fn spec_disc_match_before(vs: Seq<EnumVariant>, j: int, i: int) -> Option<int>
    decreases j - i,
{
    if i < 0 || i >= j {
        None
    } else if vs[i].discriminant == vs[j].discriminant {
        Some(i)
    } else {
        spec_disc_match_before(vs, j, i + 1)
    }
}

/// The first pair of positions carrying the same discriminant, scanning
/// the later position upward from `j`.
pub open spec fn spec_disc_clash_from(vs: Seq<EnumVariant>, j: int) -> Option<(int, int)>
    decreases vs.len() - j,
{
    if j < 0 || j >= vs.len() {
        None
    } else {
        match spec_disc_match_before(vs, j, 0) {
            Some(i) => Some((i, j)),
            None => spec_disc_clash_from(vs, j + 1),
        }
    }
}

/// The first pair of variant positions sharing a discriminant.
pub open spec fn spec_enum_disc_clash(e: EnumType) -> Option<(int, int)> {
    spec_disc_clash_from(e.variants@, 0)
}

/// The first enumeration with a duplicated discriminant at or past member
/// `i`, as the pair (enumeration name, duplicated discriminant).
pub open spec fn spec_first_dup_disc_from(ci: ComponentInterface, i: int) -> Option<
    (Seq<char>, u32),
>
    decreases ci.members@.len() - i,
{
    if i < 0 || i >= ci.members@.len() {
        None
    } else {
        match ci.members@[i] {
            InterfaceMember::Enum(e) => match spec_enum_disc_clash(e) {
                Some(p) => Some((e.name@, e.variants@[p.0].discriminant)),
                None => spec_first_dup_disc_from(ci, i + 1),
            },
            _ => spec_first_dup_disc_from(ci, i + 1),
        }
    }
}

/// The first enumeration with a duplicated discriminant, in model order.
pub open spec fn spec_first_dup_disc(ci: ComponentInterface) -> Option<(Seq<char>, u32)> {
    spec_first_dup_disc_from(ci, 0)
}

fn enum_disc_clash(e: &EnumType) -> (r: Option<(usize, usize)>)
    ensures
        match r {
            Some(p) => spec_enum_disc_clash(*e) == Some((p.0 as int, p.1 as int)) && p.0 < p.1
                < e.variants@.len(),
            None => spec_enum_disc_clash(*e) is None,
        },
{
    let n = e.variants.len();
    let mut j: usize = 0;
    while j < n
        invariant
            j <= n,
            n == e.variants@.len(),
            spec_disc_clash_from(e.variants@, 0) == spec_disc_clash_from(e.variants@, j as int),
        decreases n - j,
    {
        let mut i: usize = 0;
        while i < j
            invariant
                i <= j < n,
                n == e.variants@.len(),
                spec_disc_clash_from(e.variants@, 0) == spec_disc_clash_from(e.variants@, j as int),
                spec_disc_match_before(e.variants@, j as int, 0) == spec_disc_match_before(
                    e.variants@,
                    j as int,
                    i as int,
                ),
            decreases j - i,
        {
            if e.variants[i].discriminant == e.variants[j].discriminant {
                proof {
                    assert(spec_disc_match_before(e.variants@, j as int, i as int) == Some(
                        i as int,
                    ));
                    assert(spec_disc_clash_from(e.variants@, j as int) == Some(
                        (i as int, j as int),
                    ));
                }
                return Some((i, j));
            }
            i = i + 1;
        }
        j = j + 1;
    }
    None
}

fn first_dup_disc_from(ci: &ComponentInterface, i: usize) -> (r: Option<(String, u32)>)
    requires
        i <= ci.members@.len(),
    ensures
        match r {
            Some(p) => spec_first_dup_disc_from(*ci, i as int) == Some((p.0@, p.1)),
            None => spec_first_dup_disc_from(*ci, i as int) is None,
        },
    decreases ci.members@.len() - i,
{
    if i == ci.members.len() {
        None
    } else {
        match &ci.members[i] {
            InterfaceMember::Enum(e) => match enum_disc_clash(e) {
                Some(p) => Some((e.name.clone(), e.variants[p.0].discriminant)),
                None => first_dup_disc_from(ci, i + 1),
            },
            _ => first_dup_disc_from(ci, i + 1),
        }
    }
}

/// The earliest earlier position whose symbol equals that of `j`.
pub open spec fn spec_sym_match_before(ds: Seq<FfiDeclView>, j: int, i: int) -> Option<int>
    decreases j - i,
{
    if i < 0 || i >= j {
        None
    } else if ds[i].symbol == ds[j].symbol {
        Some(i)
    } else {
        spec_sym_match_before(ds, j, i + 1)
    }
}

/// The first pair of declaration positions sharing a symbol, scanning the
/// later position upward from `j`.
pub open spec fn spec_sym_clash_from(ds: Seq<FfiDeclView>, j: int) -> Option<(int, int)>
    decreases ds.len() - j,
{
    if j < 0 || j >= ds.len() {
        None
    } else {
        match spec_sym_match_before(ds, j, 0) {
            Some(i) => Some((i, j)),
            None => spec_sym_clash_from(ds, j + 1),
        }
    }
}

/// The first pair of declaration positions sharing a symbol.
pub open spec fn spec_symbol_clash(ds: Seq<FfiDeclView>) -> Option<(int, int)> {
    spec_sym_clash_from(ds, 0)
}

fn symbol_clash(ds: &Vec<FfiDecl>) -> (r: Option<(usize, usize)>)
    ensures
        match r {
            Some(p) => spec_symbol_clash(decls_view(ds@)) == Some((p.0 as int, p.1 as int)) && p.0
                < p.1 < ds@.len(),
            None => spec_symbol_clash(decls_view(ds@)) is None,
        },
{
    let ghost dv = decls_view(ds@);
    let n = ds.len();
    let mut j: usize = 0;
    while j < n
        invariant
            j <= n,
            n == ds@.len(),
            dv == decls_view(ds@),
            dv.len() == n,
            spec_sym_clash_from(dv, 0) == spec_sym_clash_from(dv, j as int),
        decreases n - j,
    {
        let mut i: usize = 0;
        while i < j
            invariant
                i <= j < n,
                n == ds@.len(),
                dv == decls_view(ds@),
                dv.len() == n,
                spec_sym_clash_from(dv, 0) == spec_sym_clash_from(dv, j as int),
                spec_sym_match_before(dv, j as int, 0) == spec_sym_match_before(
                    dv,
                    j as int,
                    i as int,
                ),
            decreases j - i,
        {
            if ds[i].symbol.eq(&ds[j].symbol) {
                proof {
                    assert(dv[i as int].symbol == ds@[i as int].symbol@);
                    assert(dv[j as int].symbol == ds@[j as int].symbol@);
                    assert(spec_sym_match_before(dv, j as int, i as int) == Some(i as int));
                    assert(spec_sym_clash_from(dv, j as int) == Some((i as int, j as int)));
                }
                return Some((i, j));
            }
            i = i + 1;
        }
        j = j + 1;
    }
    None
}

fn component_decls(ci: &ComponentInterface) -> (r: Vec<FfiDecl>)
    ensures
        decls_view(r@) == spec_component_decls(*ci),
{
    let mut r: Vec<FfiDecl> = Vec::new();
    let n = ci.members.len();
    let mut i: usize = 0;
    proof {
        assert(decls_view(r@) + spec_component_decls_from(*ci, 0) =~= spec_component_decls(*ci));
    }
    while i < n
        invariant
            i <= n,
            n == ci.members@.len(),
            decls_view(r@) + spec_component_decls_from(*ci, i as int) =~= spec_component_decls(
                *ci,
            ),
        decreases n - i,
    {
        let ghost r_old = decls_view(r@);
        let mut part: Vec<FfiDecl> = match &ci.members[i] {
            InterfaceMember::Object(obj) => ObjectKotlinWrapper::new(obj).members(),
            InterfaceMember::Namespace(ns) => NamespaceKotlinWrapper::new(ns).members(),
            InterfaceMember::Record(_) => Vec::new(),
            InterfaceMember::Enum(_) => Vec::new(),
        };
        let ghost part_v = decls_view(part@);
        proof {
            assert(part_v == spec_member_decls(ci.members@[i as int]));
        }
        r.append(&mut part);
        proof {
            assert(decls_view(r@) =~~= r_old + part_v);
            assert(decls_view(r@) + spec_component_decls_from(*ci, i as int + 1) =~= r_old
                + spec_component_decls_from(*ci, i as int));
        }
        i = i + 1;
    }
    proof {
        assert(spec_component_decls_from(*ci, n as int) =~= Seq::<FfiDeclView>::empty());
        assert(decls_view(r@) + Seq::<FfiDeclView>::empty() =~= decls_view(r@));
    }
    r
}

/// One produced binding unit: the text emitted for one interface member,
/// tagged with the member it came from.
#[derive(Debug)]
pub struct Fragment {
    pub member_name: String,
    pub text: String,
}

/// The mathematical view of a fragment.
#[verifier::ext_equal]
pub struct FragmentView {
    pub member_name: Seq<char>,
    pub text: Seq<char>,
}

impl View for Fragment {
    type V = FragmentView;

    open spec fn view(&self) -> FragmentView {
        FragmentView { member_name: self.member_name@, text: self.text@ }
    }
}

/// The views of a vector of fragments.
pub open spec fn frags_view(fs: Seq<Fragment>) -> Seq<FragmentView> {
    fs.map_values(|f: Fragment| f@)
}

/// A fatal generation-time error; the run aborts with one of these and no
/// fragment is emitted.
#[derive(Debug)]
pub enum GenError {
    /// A type reference names no member of the required kind; carries the
    /// referring member's name and the unresolved name.
    UnresolvedTypeReference { member: String, name: String },
    /// An enumeration declares the same discriminant twice.
    DuplicateDiscriminant { enum_name: String, discriminant: u32 },
    /// Two declarations would share one FFI symbol; carries the symbol and
    /// the names of both colliding members.
    DuplicateSymbol { symbol: String, first_member: String, second_member: String },
}

/// The mathematical view of a generation error.
#[verifier::ext_equal]
pub enum GenErrorView {
    UnresolvedTypeReference { member: Seq<char>, name: Seq<char> },
    DuplicateDiscriminant { enum_name: Seq<char>, discriminant: u32 },
    DuplicateSymbol { symbol: Seq<char>, first_member: Seq<char>, second_member: Seq<char> },
}

impl View for GenError {
    type V = GenErrorView;

    open spec fn view(&self) -> GenErrorView {
        match self {
            GenError::UnresolvedTypeReference { member, name } => GenErrorView::UnresolvedTypeReference {
                member: member@,
                name: name@,
            },
            GenError::DuplicateDiscriminant { enum_name, discriminant } => GenErrorView::DuplicateDiscriminant {
                enum_name: enum_name@,
                discriminant: *discriminant,
            },
            GenError::DuplicateSymbol { symbol, first_member, second_member } => GenErrorView::DuplicateSymbol {
                symbol: symbol@,
                first_member: first_member@,
                second_member: second_member@,
            },
        }
    }
}

/// The text emitted for one interface member.
pub open spec fn spec_member_text(m: InterfaceMember) -> Seq<char> {
    match m {
        InterfaceMember::Object(obj) => spec_decls_text(spec_object_decls(obj)),
        InterfaceMember::Record(rec) => spec_record_text(rec),
        InterfaceMember::Namespace(ns) => spec_decls_text(spec_namespace_decls(ns)),
        InterfaceMember::Enum(e) => spec_enum_text(e),
    }
}

/// The fragment emitted for one interface member.
pub open spec fn spec_member_fragment(m: InterfaceMember) -> FragmentView {
    FragmentView { member_name: spec_member_name(m), text: spec_member_text(m) }
}

pub open spec fn spec_fragments_from(ci: ComponentInterface, i: int) -> Seq<FragmentView>
    decreases ci.members@.len() - i,
{
    if i < 0 || i >= ci.members@.len() {
        Seq::<FragmentView>::empty()
    } else {
        seq![spec_member_fragment(ci.members@[i])] + spec_fragments_from(ci, i + 1)
    }
}

/// The fragments of a valid component, one per member, in model order.
pub open spec fn spec_fragments(ci: ComponentInterface) -> Seq<FragmentView> {
    spec_fragments_from(ci, 0)
}

fn member_fragment(m: &InterfaceMember) -> (r: Fragment)
    ensures
        r@ == spec_member_fragment(*m),
{
    let text = match m {
        InterfaceMember::Object(obj) => ObjectKotlinWrapper::new(obj).render(),
        InterfaceMember::Record(rec) => RecordKotlinWrapper::new(rec).render(),
        InterfaceMember::Namespace(ns) => NamespaceKotlinWrapper::new(ns).render(),
        InterfaceMember::Enum(e) => EnumKotlinWrapper::new(e).render(),
    };
    Fragment { member_name: member_name(m), text }
}

/// What one generation run produces: the fragment sequence of a valid
/// component, or the first fatal error, checked in this order — unresolved
/// type references, duplicated enum discriminants, colliding FFI symbols.
/// A pure function of the component: the same model always yields the
/// same result.
pub open spec fn spec_generate(ci: ComponentInterface) -> Result<Seq<FragmentView>, GenErrorView> {
    match spec_first_unresolved(ci) {
        Some(p) => Err(
            GenErrorView::UnresolvedTypeReference { member: p.0, name: p.1 },
        ),
        None => match spec_first_dup_disc(ci) {
            Some(q) => Err(
                GenErrorView::DuplicateDiscriminant { enum_name: q.0, discriminant: q.1 },
            ),
            None => {
                let ds = spec_component_decls(ci);
                match spec_symbol_clash(ds) {
                    Some(p) => Err(
                        GenErrorView::DuplicateSymbol {
                            symbol: ds[p.0].symbol,
                            first_member: ds[p.0].owner,
                            second_member: ds[p.1].owner,
                        },
                    ),
                    None => Ok(spec_fragments(ci)),
                }
            },
        },
    }
}

/// The fixed head of the emitted binding unit, before the member
/// fragments.
pub open spec fn spec_preamble() -> Seq<char> {
    "package mozilla.appservices.example;\n\nimport com.sun.jna.Library\nimport com.sun.jna.Pointer\nimport mozilla.appservices.support.native.RustBuffer\nimport mozilla.appservices.support.native.loadIndirect\n\ninternal typealias Handle = Long\n\ninternal interface LibComponent : Library {\n"@
}

/// The concatenated text of a fragment sequence.
pub open spec fn spec_fragments_text(fs: Seq<FragmentView>) -> Seq<char>
    decreases fs.len(),
{
    if fs.len() == 0 {
        Seq::<char>::empty()
    } else {
        fs[0].text + spec_fragments_text(fs.drop_first())
    }
}

/// The binding dispatcher for the Kotlin backend: walks the component's
/// members once, in model order, and produces one fragment per member, or
/// the run's single fatal diagnostic.
pub struct ComponentInterfaceKotlinWrapper<'a> {
    pub ci: &'a ComponentInterface,
}

impl<'a> ComponentInterfaceKotlinWrapper<'a> {
    pub fn new(ci: &'a ComponentInterface) -> (r: Self)
        ensures
            r.ci == ci,
    {
        Self { ci }
    }

    /// Validates the component and produces its fragments, one per member,
    /// in model order; or fails atomically with the run's one diagnostic,
    /// emitting nothing.
    pub fn members(&self) -> (r: Result<Vec<Fragment>, GenError>)
        ensures
            match r {
                Ok(v) => spec_generate(*self.ci) == Ok::<Seq<FragmentView>, GenErrorView>(
                    frags_view(v@),
                ),
                Err(e) => spec_generate(*self.ci) == Err::<Seq<FragmentView>, GenErrorView>(e@),
            },
            r is Ok <==> spec_component_valid(*self.ci),
    {
        if let Some(p) = first_unresolved_from(self.ci, 0) {
            return Err(GenError::UnresolvedTypeReference { member: p.0, name: p.1 });
        }
        if let Some(q) = first_dup_disc_from(self.ci, 0) {
            return Err(GenError::DuplicateDiscriminant { enum_name: q.0, discriminant: q.1 });
        }
        let ds = component_decls(self.ci);
        if let Some(p) = symbol_clash(&ds) {
            let d_first = &ds[p.0];
            let d_second = &ds[p.1];
            return Err(
                GenError::DuplicateSymbol {
                    symbol: d_first.symbol.clone(),
                    first_member: d_first.owner.clone(),
                    second_member: d_second.owner.clone(),
                },
            );
        }
        let mut v: Vec<Fragment> = Vec::new();
        let n = self.ci.members.len();
        let mut i: usize = 0;
        proof {
            assert(frags_view(v@) + spec_fragments_from(*self.ci, 0) =~= spec_fragments(*self.ci));
        }
        while i < n
            invariant
                i <= n,
                n == self.ci.members@.len(),
                frags_view(v@) + spec_fragments_from(*self.ci, i as int) =~= spec_fragments(
                    *self.ci,
                ),
            decreases n - i,
        {
            let ghost v_old = frags_view(v@);
            let f = member_fragment(&self.ci.members[i]);
            v.push(f);
            proof {
                assert(frags_view(v@) =~~= v_old + seq![
                    spec_member_fragment(self.ci.members@[i as int]),
                ]);
                assert(frags_view(v@) + spec_fragments_from(*self.ci, i as int + 1) =~= v_old
                    + spec_fragments_from(*self.ci, i as int));
            }
            i = i + 1;
        }
        proof {
            assert(spec_fragments_from(*self.ci, n as int) =~= Seq::<FragmentView>::empty());
            assert(frags_view(v@) + Seq::<FragmentView>::empty() =~= frags_view(v@));
        }
        Ok(v)
    }

    /// Renders the whole binding unit: the fixed preamble, every member's
    /// fragment in model order, and the closing brace; or fails atomically
    /// with the run's one diagnostic.
    pub fn render(&self) -> (r: Result<String, GenError>)
        ensures
            match r {
                Ok(s) => spec_generate(*self.ci) is Ok && s@ == spec_preamble()
                    + spec_fragments_text(spec_generate(*self.ci)->Ok_0) + "}\n"@,
                Err(e) => spec_generate(*self.ci) == Err::<Seq<FragmentView>, GenErrorView>(e@),
            },
            r is Ok <==> spec_component_valid(*self.ci),
    {
        let frags = match self.members() {
            Ok(v) => v,
            Err(e) => {
                return Err(e);
            },
        };
        let ghost fv = frags_view(frags@);
        let mut s = String::from_str(
            "package mozilla.appservices.example;\n\nimport com.sun.jna.Library\nimport com.sun.jna.Pointer\nimport mozilla.appservices.support.native.RustBuffer\nimport mozilla.appservices.support.native.loadIndirect\n\ninternal typealias Handle = Long\n\ninternal interface LibComponent : Library {\n",
        );
        let n = frags.len();
        let mut i: usize = 0;
        proof {
            assert(fv.skip(0) =~= fv);
            assert(s@ + spec_fragments_text(fv) =~= spec_preamble() + spec_fragments_text(fv));
        }
        while i < n
            invariant
                i <= n,
                n == frags@.len(),
                fv == frags_view(frags@),
                fv.len() == n,
                s@ + spec_fragments_text(fv.skip(i as int)) == spec_preamble()
                    + spec_fragments_text(fv),
            decreases n - i,
        {
            let ghost s_old = s@;
            s.append(frags[i].text.as_str());
            proof {
                assert(fv.skip(i as int).drop_first() =~= fv.skip(i as int + 1));
                assert(fv.skip(i as int)[0] == fv[i as int]);
                assert(s_old + (fv[i as int].text + spec_fragments_text(fv.skip(i as int + 1)))
                    =~= s@ + spec_fragments_text(fv.skip(i as int + 1)));
            }
            i = i + 1;
        }
        proof {
            assert(fv.skip(n as int) =~= Seq::<FragmentView>::empty());
            assert(s@ + Seq::<char>::empty() =~= s@);
        }
        s.append("}\n");
        Ok(s)
    }
}

/// The component is valid for generation: every type reference resolves,
/// every enumeration's discriminants are distinct, and no two emitted FFI
/// symbols collide.
pub open spec fn spec_component_valid(ci: ComponentInterface) -> bool {
    &&& spec_first_unresolved(ci) is None
    &&& spec_first_dup_disc(ci) is None
    &&& spec_symbol_clash(spec_component_decls(ci)) is None
}

/// Determinism: generation is a pure function of the component. Two runs
/// over the same model yield the same result — the same fragment sequence,
/// byte for byte, or the same diagnostic.
pub proof fn lemma_generation_deterministic(a: ComponentInterface, b: ComponentInterface)
    requires
        a == b,
    ensures
        spec_generate(a) == spec_generate(b),
{
}

proof fn lemma_sym_match_before_none(ds: Seq<FfiDeclView>, j: int, i: int)
    requires
        0 <= i <= j < ds.len(),
        spec_sym_match_before(ds, j, i) is None,
    ensures
        forall|k: int| i <= k < j ==> (#[trigger] ds[k]).symbol != ds[j].symbol,
    decreases j - i,
{
    if i < j {
        lemma_sym_match_before_none(ds, j, i + 1);
    }
}

proof fn lemma_sym_match_before_sound(ds: Seq<FfiDeclView>, j: int, i: int)
    requires
        0 <= i <= j < ds.len(),
    ensures
        match spec_sym_match_before(ds, j, i) {
            Some(k) => i <= k < j && ds[k].symbol == ds[j].symbol,
            None => true,
        },
    decreases j - i,
{
    if i < j && ds[i].symbol != ds[j].symbol {
        lemma_sym_match_before_sound(ds, j, i + 1);
    }
}

proof fn lemma_sym_clash_from_none(ds: Seq<FfiDeclView>, j: int)
    requires
        0 <= j,
        spec_sym_clash_from(ds, j) is None,
    ensures
        forall|a: int, b: int|
            0 <= a < b < ds.len() && j <= b ==> (#[trigger] ds[a]).symbol != (#[trigger] ds[b]).symbol,
    decreases ds.len() - j,
{
    if j < ds.len() {
        lemma_sym_match_before_none(ds, j, 0);
        lemma_sym_clash_from_none(ds, j + 1);
    }
}

proof fn lemma_sym_clash_from_sound(ds: Seq<FfiDeclView>, j: int)
    requires
        0 <= j,
    ensures
        match spec_sym_clash_from(ds, j) {
            Some(p) => 0 <= p.0 < p.1 < ds.len() && j <= p.1 && ds[p.0].symbol == ds[p.1].symbol,
            None => true,
        },
    decreases ds.len() - j,
{
    if j < ds.len() {
        lemma_sym_match_before_sound(ds, j, 0);
        if spec_sym_match_before(ds, j, 0) is None {
            lemma_sym_clash_from_sound(ds, j + 1);
        }
    }
}

/// The symbol scan is exact: it reports `None` exactly when all symbols
/// are pairwise distinct, and any pair it reports is a real collision in
/// scan order.
pub proof fn lemma_symbol_clash_correct(ds: Seq<FfiDeclView>)
    ensures
        match spec_symbol_clash(ds) {
            Some(p) => 0 <= p.0 < p.1 < ds.len() && ds[p.0].symbol == ds[p.1].symbol,
            None => forall|a: int, b: int|
                0 <= a < b < ds.len() ==> (#[trigger] ds[a]).symbol != (#[trigger] ds[b]).symbol,
        },
{
    lemma_sym_clash_from_sound(ds, 0);
    if spec_sym_clash_from(ds, 0) is None {
        lemma_sym_clash_from_none(ds, 0);
    }
}

proof fn lemma_disc_match_before_none(vs: Seq<EnumVariant>, j: int, i: int)
    requires
        0 <= i <= j < vs.len(),
        spec_disc_match_before(vs, j, i) is None,
    ensures
        forall|k: int| i <= k < j ==> (#[trigger] vs[k]).discriminant != vs[j].discriminant,
    decreases j - i,
{
    if i < j {
        lemma_disc_match_before_none(vs, j, i + 1);
    }
}

proof fn lemma_disc_match_before_sound(vs: Seq<EnumVariant>, j: int, i: int)
    requires
        0 <= i <= j < vs.len(),
    ensures
        match spec_disc_match_before(vs, j, i) {
            Some(k) => i <= k < j && vs[k].discriminant == vs[j].discriminant,
            None => true,
        },
    decreases j - i,
{
    if i < j && vs[i].discriminant != vs[j].discriminant {
        lemma_disc_match_before_sound(vs, j, i + 1);
    }
}

proof fn lemma_disc_clash_from_none(vs: Seq<EnumVariant>, j: int)
    requires
        0 <= j,
        spec_disc_clash_from(vs, j) is None,
    ensures
        forall|a: int, b: int|
            0 <= a < b < vs.len() && j <= b ==> (#[trigger] vs[a]).discriminant != (
            #[trigger] vs[b]).discriminant,
    decreases vs.len() - j,
{
    if j < vs.len() {
        lemma_disc_match_before_none(vs, j, 0);
        lemma_disc_clash_from_none(vs, j + 1);
    }
}

proof fn lemma_disc_clash_from_sound(vs: Seq<EnumVariant>, j: int)
    requires
        0 <= j,
    ensures
        match spec_disc_clash_from(vs, j) {
            Some(p) => 0 <= p.0 < p.1 < vs.len() && vs[p.0].discriminant == vs[p.1].discriminant,
            None => true,
        },
    decreases vs.len() - j,
{
    if j < vs.len() {
        lemma_disc_match_before_sound(vs, j, 0);
        if spec_disc_match_before(vs, j, 0) is None {
            lemma_disc_clash_from_sound(vs, j + 1);
        }
    }
}

/// The discriminant scan is exact: it accepts an enumeration exactly when
/// the enumeration is well formed (pairwise-distinct discriminants) — the
/// precondition under which the enum round-trip law holds.
pub proof fn lemma_enum_disc_clash_correct(e: EnumType)
    ensures
        spec_enum_disc_clash(e) is None <==> spec_enum_wf(e),
        match spec_enum_disc_clash(e) {
            Some(p) => 0 <= p.0 < p.1 < e.variants@.len() && e.variants@[p.0].discriminant
                == e.variants@[p.1].discriminant,
            None => true,
        },
{
    lemma_disc_clash_from_sound(e.variants@, 0);
    if spec_disc_clash_from(e.variants@, 0) is None {
        lemma_disc_clash_from_none(e.variants@, 0);
    }
}

proof fn lemma_object_member_decls_from_props(obj: ObjectType, i: int)
    requires
        0 <= i <= obj.members@.len(),
    ensures
        spec_object_member_decls_from(obj, i).len() == obj.members@.len() - i,
        forall|k: int|
            0 <= k < obj.members@.len() - i ==> #[trigger] spec_object_member_decls_from(obj, i)[k]
                == spec_object_member_decl(obj, obj.members@[i + k]),
    decreases obj.members@.len() - i,
{
    if i < obj.members@.len() {
        lemma_object_member_decls_from_props(obj, i + 1);
    }
}

/// Handle discipline: every object's declaration list holds exactly one
/// free declaration — the first, taking only the borrowed handle and
/// returning nothing — and otherwise only constructor and method
/// declarations; every method takes the borrowed handle as its first
/// parameter, and every constructor returns a fresh handle.
pub proof fn lemma_handle_discipline(obj: ObjectType)
    ensures
        spec_object_decls(obj).len() == 1 + obj.members@.len(),
        spec_object_decls(obj)[0].kind == DeclKind::Free,
        spec_object_decls(obj)[0].symbol == spec_ffi_symbol(obj.name@, "free"@),
        spec_object_decls(obj)[0].params == seq![spec_handle_param()],
        spec_object_decls(obj)[0].return_decl is None,
        forall|k: int|
            1 <= k < spec_object_decls(obj).len() ==> (#[trigger] spec_object_decls(obj)[k]).kind
                != DeclKind::Free,
        forall|k: int|
            1 <= k < spec_object_decls(obj).len() && (#[trigger] spec_object_decls(obj)[k]).kind
                == DeclKind::Method ==> spec_object_decls(obj)[k].params.len() >= 1
                && spec_object_decls(obj)[k].params[0] == spec_handle_param(),
        forall|k: int|
            1 <= k < spec_object_decls(obj).len() && (#[trigger] spec_object_decls(obj)[k]).kind
                == DeclKind::Constructor ==> spec_object_decls(obj)[k].return_decl == Some(
                "Handle"@,
            ),
{
    lemma_object_member_decls_from_props(obj, 0);
    let ds = spec_object_decls(obj);
    assert forall|k: int| 1 <= k < ds.len() implies (#[trigger] ds[k]).kind != DeclKind::Free && (
    ds[k].kind == DeclKind::Method ==> ds[k].params.len() >= 1 && ds[k].params[0]
        == spec_handle_param()) && (ds[k].kind == DeclKind::Constructor ==> ds[k].return_decl
        == Some("Handle"@)) by {
        assert(ds[k] == spec_object_member_decls_from(obj, 0)[k - 1]);
        assert(ds[k] == spec_object_member_decl(obj, obj.members@[k - 1]));
        match obj.members@[k - 1] {
            ObjectTypeMember::Constructor(cons) => {
                assert(ds[k].kind == DeclKind::Constructor);
            },
            ObjectTypeMember::Method(meth) => {
                assert(ds[k].kind == DeclKind::Method);
                assert(ds[k].params == seq![spec_handle_param()] + spec_arg_params(
                    meth.argument_types@,
                ));
                assert(ds[k].params[0] == spec_handle_param());
            },
        }
    }
}

/// One of the member's declarations carries the symbol `s`.
pub open spec fn spec_member_emits(m: InterfaceMember, s: Seq<char>) -> bool {
    exists|k: int|
        0 <= k < spec_member_decls(m).len() && (#[trigger] spec_member_decls(m)[k]).symbol == s
}

proof fn lemma_component_decls_from_contains(ci: ComponentInterface, lo: int, m: int, k: int)
    requires
        0 <= lo <= m < ci.members@.len(),
        0 <= k < spec_member_decls(ci.members@[m]).len(),
    ensures
        exists|g: int|
            0 <= g < spec_component_decls_from(ci, lo).len() && #[trigger] spec_component_decls_from(
                ci,
                lo,
            )[g] == spec_member_decls(ci.members@[m])[k],
    decreases m - lo,
{
    let from_lo = spec_component_decls_from(ci, lo);
    let cur = spec_member_decls(ci.members@[lo]);
    if lo == m {
        assert(from_lo[k] == cur[k]);
    } else {
        lemma_component_decls_from_contains(ci, lo + 1, m, k);
        let from_next = spec_component_decls_from(ci, lo + 1);
        let g = choose|g: int|
            0 <= g < from_next.len() && #[trigger] from_next[g] == spec_member_decls(
                ci.members@[m],
            )[k];
        assert(from_lo[cur.len() + g] == from_next[g]);
    }
}

proof fn lemma_component_decls_pair(
    ci: ComponentInterface,
    lo: int,
    i: int,
    j: int,
    ki: int,
    kj: int,
)
    requires
        0 <= lo <= i < j < ci.members@.len(),
        0 <= ki < spec_member_decls(ci.members@[i]).len(),
        0 <= kj < spec_member_decls(ci.members@[j]).len(),
    ensures
        exists|g1: int, g2: int|
            0 <= g1 < g2 < spec_component_decls_from(ci, lo).len()
                && (#[trigger] spec_component_decls_from(ci, lo)[g1]) == spec_member_decls(
                ci.members@[i],
            )[ki] && (#[trigger] spec_component_decls_from(ci, lo)[g2]) == spec_member_decls(
                ci.members@[j],
            )[kj],
    decreases i - lo,
{
    let from_lo = spec_component_decls_from(ci, lo);
    let cur = spec_member_decls(ci.members@[lo]);
    let from_next = spec_component_decls_from(ci, lo + 1);
    if lo == i {
        lemma_component_decls_from_contains(ci, lo + 1, j, kj);
        let g = choose|g: int|
            0 <= g < from_next.len() && #[trigger] from_next[g] == spec_member_decls(
                ci.members@[j],
            )[kj];
        assert(from_lo[ki] == cur[ki]);
        assert(from_lo[cur.len() + g] == from_next[g]);
    } else {
        lemma_component_decls_pair(ci, lo + 1, i, j, ki, kj);
        let (g1, g2) = choose|g1: int, g2: int|
            0 <= g1 < g2 < from_next.len() && (#[trigger] from_next[g1]) == spec_member_decls(
                ci.members@[i],
            )[ki] && (#[trigger] from_next[g2]) == spec_member_decls(ci.members@[j])[kj];
        assert(from_lo[cur.len() + g1] == from_next[g1]);
        assert(from_lo[cur.len() + g2] == from_next[g2]);
    }
}

/// Symbol uniqueness is enforced centrally: whenever two distinct members
/// of an otherwise valid component would emit the same `{Scope}_{Member}`
/// symbol, generation fails with the duplicate-symbol diagnostic — no
/// fragment is produced.
pub proof fn lemma_duplicate_symbol_rejected(ci: ComponentInterface, i: int, j: int, s: Seq<char>)
    requires
        spec_first_unresolved(ci) is None,
        spec_first_dup_disc(ci) is None,
        0 <= i < j < ci.members@.len(),
        spec_member_emits(ci.members@[i], s),
        spec_member_emits(ci.members@[j], s),
    ensures
        spec_generate(ci) is Err,
        spec_generate(ci)->Err_0 is DuplicateSymbol,
{
    let ds = spec_component_decls(ci);
    let ki = choose|k: int|
        0 <= k < spec_member_decls(ci.members@[i]).len() && (#[trigger] spec_member_decls(
            ci.members@[i],
        )[k]).symbol == s;
    let kj = choose|k: int|
        0 <= k < spec_member_decls(ci.members@[j]).len() && (#[trigger] spec_member_decls(
            ci.members@[j],
        )[k]).symbol == s;
    lemma_component_decls_pair(ci, 0, i, j, ki, kj);
    let (g1, g2) = choose|g1: int, g2: int|
        0 <= g1 < g2 < ds.len() && (#[trigger] ds[g1]) == spec_member_decls(ci.members@[i])[ki] && (
        #[trigger] ds[g2]) == spec_member_decls(ci.members@[j])[kj];
    if spec_symbol_clash(ds) is None {
        lemma_sym_clash_from_none(ds, 0);
        assert(ds[g1].symbol != ds[g2].symbol);
        assert(false);
    }
}

} // verus!
