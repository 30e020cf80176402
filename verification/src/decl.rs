//! The structural form of one emitted FFI declaration, and its rendering.
//!
//! Every constructor, method, free operation and namespace function becomes
//! one [`FfiDecl`]: a symbol, an ordered parameter list, and an optional
//! return type, all already expressed in wire types. Symbol uniqueness and
//! the handle discipline are stated over this structural level; the text of
//! a declaration is a pure function of it.
//!
//! Every rendered declaration carries the implicit trailing error-output
//! slot (`err: RustError.ByReference`), present even where the operation
//! cannot itself fail, so the runtime support layer can use one calling
//! convention throughout.

use vstd::prelude::*;

verus! {

/// What an FFI declaration stands for: the free operation of an object, a
/// constructor, a method, or a namespace function.
#[derive(Clone, Copy, PartialEq, Eq, Structural, Debug)]
pub enum DeclKind {
    Free,
    Constructor,
    Method,
    Function,
}

/// One declared parameter, already in wire form.
pub struct FfiParam {
    pub name: String,
    pub type_decl: String,
}

/// The mathematical view of a parameter.
#[verifier::ext_equal]
pub struct FfiParamView {
    pub name: Seq<char>,
    pub type_decl: Seq<char>,
}

impl View for FfiParam {
    type V = FfiParamView;

    open spec fn view(&self) -> FfiParamView {
        FfiParamView { name: self.name@, type_decl: self.type_decl@ }
    }
}

/// One FFI declaration: its kind, its globally-unique symbol, the interface
/// member it was emitted for, its parameters, and its return type in wire
/// form (`None` when it returns nothing).
pub struct FfiDecl {
    pub kind: DeclKind,
    pub symbol: String,
    pub owner: String,
    pub params: Vec<FfiParam>,
    pub return_decl: Option<String>,
}

/// The mathematical view of a declaration.
#[verifier::ext_equal]
pub struct FfiDeclView {
    pub kind: DeclKind,
    pub symbol: Seq<char>,
    pub owner: Seq<char>,
    pub params: Seq<FfiParamView>,
    pub return_decl: Option<Seq<char>>,
}

impl View for FfiDecl {
    type V = FfiDeclView;

    open spec fn view(&self) -> FfiDeclView {
        FfiDeclView {
            kind: self.kind,
            symbol: self.symbol@,
            owner: self.owner@,
            params: self.params@.map_values(|p: FfiParam| p@),
            return_decl: match self.return_decl {
                Some(s) => Some(s@),
                None => None,
            },
        }
    }
}

/// The views of a vector of declarations.
pub open spec fn decls_view(ds: Seq<FfiDecl>) -> Seq<FfiDeclView> {
    ds.map_values(|d: FfiDecl| d@)
}

/// The text of a parameter list: one indented `name: type,` line each.
pub open spec fn spec_render_params(ps: Seq<FfiParamView>) -> Seq<char>
    decreases ps.len(),
{
    if ps.len() == 0 {
        Seq::<char>::empty()
    } else {
        "    "@ + ps[0].name + ": "@ + ps[0].type_decl + ",\n"@ + spec_render_params(
            ps.drop_first(),
        )
    }
}

/// The text of one declaration: its parameters in order, then the implicit
/// error-output slot, then the return type when one is declared.
pub open spec fn spec_render_decl(d: FfiDeclView) -> Seq<char> {
    "fun "@ + d.symbol + "(\n"@ + spec_render_params(d.params) + "    err: RustError.ByReference,\n)"@
        + (match d.return_decl {
        Some(rt) => ": "@ + rt,
        None => Seq::<char>::empty(),
    }) + "\n"@
}

fn render_params_from(ps: &Vec<FfiParam>, i: usize) -> (r: String)
    requires
        i <= ps@.len(),
    ensures
        r@ == spec_render_params(ps@.map_values(|p: FfiParam| p@).skip(i as int)),
    decreases ps@.len() - i,
{
    let ghost pv = ps@.map_values(|p: FfiParam| p@);
    if i == ps.len() {
        assert(pv.skip(i as int) =~= Seq::<FfiParamView>::empty());
        String::new()
    } else {
        let mut s = String::from_str("    ");
        s.append(ps[i].name.as_str());
        s.append(": ");
        s.append(ps[i].type_decl.as_str());
        s.append(",\n");
        let rest = render_params_from(ps, i + 1);
        s.append(rest.as_str());
        proof {
            assert(pv.skip(i as int).drop_first() =~= pv.skip(i as int + 1));
            assert(pv.skip(i as int)[0] == pv[i as int]);
        }
        s
    }
}

/// Renders one FFI declaration to its Kotlin text.
pub fn render_decl(d: &FfiDecl) -> (r: String)
    ensures
        r@ == spec_render_decl(d@),
{
    let mut s = String::from_str("fun ");
    s.append(d.symbol.as_str());
    s.append("(\n");
    let params = render_params_from(&d.params, 0);
    proof {
        assert(d.params@.map_values(|p: FfiParam| p@).skip(0) =~= d.params@.map_values(
            |p: FfiParam| p@,
        ));
    }
    s.append(params.as_str());
    s.append("    err: RustError.ByReference,\n)");
    match &d.return_decl {
        Some(rt) => {
            s.append(": ");
            s.append(rt.as_str());
        },
        None => {},
    }
    s.append("\n");
    s
}

/// The decimal digit characters of `d`.
pub open spec fn spec_digit_str(d: u32) -> Seq<char> {
    if d == 0 {
        "0"@
    } else if d == 1 {
        "1"@
    } else if d == 2 {
        "2"@
    } else if d == 3 {
        "3"@
    } else if d == 4 {
        "4"@
    } else if d == 5 {
        "5"@
    } else if d == 6 {
        "6"@
    } else if d == 7 {
        "7"@
    } else if d == 8 {
        "8"@
    } else {
        "9"@
    }
}

fn digit_str(d: u32) -> (r: &'static str)
    requires
        d < 10,
    ensures
        r@ == spec_digit_str(d),
{
    if d == 0 {
        "0"
    } else if d == 1 {
        "1"
    } else if d == 2 {
        "2"
    } else if d == 3 {
        "3"
    } else if d == 4 {
        "4"
    } else if d == 5 {
        "5"
    } else if d == 6 {
        "6"
    } else if d == 7 {
        "7"
    } else if d == 8 {
        "8"
    } else {
        "9"
    }
}

/// The decimal text of `n`, most significant digit first, no leading zero.
pub open spec fn spec_u32_dec(n: u32) -> Seq<char>
    decreases n,
{
    if n < 10 {
        spec_digit_str(n)
    } else {
        spec_u32_dec(n / 10) + spec_digit_str(n % 10)
    }
}

/// Renders `n` in decimal.
pub fn u32_dec(n: u32) -> (r: String)
    ensures
        r@ == spec_u32_dec(n),
    decreases n,
{
    if n < 10 {
        String::from_str(digit_str(n))
    } else {
        let mut s = u32_dec(n / 10);
        s.append(digit_str(n % 10));
        s
    }
}

} // verus!
