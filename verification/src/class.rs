use vstd::prelude::*;

use crate::ast::ClassDecl;
use crate::ast::ClassMember;
use crate::ast::ClassMethod;
use crate::ast::ClassProp;
use crate::ast::Constructor;
use crate::ast::CtorParam;
use crate::ast::CtorParamKind;
use crate::ast::Decorator;
use crate::ast::Expr;
use crate::ast::MemberProp;
use crate::ast::MethodParam;
use crate::ast::AssignTarget;
use crate::ast::SourceType;
use crate::ast::Stmt;
use crate::func::expr_text;
use crate::func::convert_expr;
use crate::names::snake_text;
use crate::names::to_snake_case;
use crate::text::brace_wrap;
use crate::text::braced;
use crate::text::join_tok;
use crate::text::str_eq;
use crate::type_mapper::is_optional_spec;
use crate::type_mapper::is_optional_type;
use crate::type_mapper::lemma_opt_maps_text;
use crate::type_mapper::map_ts_type;
use crate::type_mapper::opt_mapped_text;
use crate::type_mapper::render_target_type;

verus! {

pub open spec fn contains_name(v: Seq<String>, x: Seq<char>) -> bool {
    exists|i: int| 0 <= i < v.len() && v[i]@ == x
}

pub(crate) fn contains_name_exec(v: &Vec<String>, x: &str) -> (b: bool)
    ensures
        b == contains_name(v@, x@),
{
    let mut i: usize = 0;
    while i < v.len()
        invariant
            i <= v@.len(),
            forall|k: int| 0 <= k < i ==> v@[k]@ != x@,
        decreases v@.len() - i,
    {
        if str_eq(v[i].as_str(), x) {
            proof {
                assert(v@[i as int]@ == x@);
            }
            return true;
        }
        i = i + 1;
    }
    false
}

/// The fixed allow-list of primitive type names that never count as
/// component dependencies.
pub open spec fn allowlisted(n: Seq<char>) -> bool {
    ||| n == "String"@
    ||| n == "f64"@
    ||| n == "bool"@
    ||| n == "i32"@
    ||| n == "Vec"@
    ||| n == "Option"@
    ||| n == "Array"@
}

/// Dependency classification: a field or parameter needs shared-ownership
/// indirection exactly when its annotation is a reference type whose name
/// is neither on the primitive allow-list nor a local generic parameter.
pub open spec fn dep_of(t: Option<SourceType>, generics: Seq<String>) -> bool {
    match t {
        Option::Some(ty) => match ty {
            SourceType::Reference(n, _) => if contains_name(generics, n@) {
                false
            } else {
                !allowlisted(n@)
            },
            SourceType::Promise(_) => if contains_name(generics, "Promise"@) {
                false
            } else {
                true
            },
            _ => false,
        },
        Option::None => false,
    }
}

fn is_dep_exec(t: Option<&SourceType>, generics: &Vec<String>) -> (b: bool)
    ensures
        b == dep_of(
            match t {
                Option::Some(ty) => Option::Some(*ty),
                Option::None => Option::None,
            },
            generics@,
        ),
{
    match t {
        Option::Some(ty) => match ty {
            SourceType::Reference(n, _) => {
                if contains_name_exec(generics, n.as_str()) {
                    false
                } else {
                    !(str_eq(n.as_str(), "String") || str_eq(n.as_str(), "f64") || str_eq(
                        n.as_str(),
                        "bool",
                    ) || str_eq(n.as_str(), "i32") || str_eq(n.as_str(), "Vec") || str_eq(
                        n.as_str(),
                        "Option",
                    ) || str_eq(n.as_str(), "Array"))
                }
            },
            SourceType::Promise(_) => !contains_name_exec(generics, "Promise"),
            _ => false,
        },
        Option::None => false,
    }
}

/// The lowered type of a field or parameter: its mapped annotation, behind
/// a shared handle when it is dependency-classified.
pub open spec fn param_type_text(t: Option<SourceType>, generics: Seq<String>) -> Seq<char> {
    if dep_of(t, generics) {
        "std :: sync :: Arc < "@ + opt_mapped_text(t) + " >"@
    } else {
        opt_mapped_text(t)
    }
}

fn render_param_type(t: Option<&SourceType>, generics: &Vec<String>) -> (r: String)
    ensures
        r@ == param_type_text(
            match t {
                Option::Some(ty) => Option::Some(*ty),
                Option::None => Option::None,
            },
            generics@,
        ),
{
    let tt = map_ts_type(t);
    proof {
        lemma_opt_maps_text(
            match t {
                Option::Some(ty) => Option::Some(*ty),
                Option::None => Option::None,
            },
            tt,
        );
    }
    let base = render_target_type(&tt);
    if is_dep_exec(t, generics) {
        let mut out = String::from_str("std :: sync :: Arc < ");
        out.append(base.as_str());
        out.append(" >");
        out
    } else {
        base
    }
}

/// Whether a declared field is optional: it carries the optional marker or
/// its annotation is a union with null or undefined.
pub open spec fn effective_opt(p: ClassProp) -> bool {
    p.is_optional || is_optional_spec(p.type_ann)
}

fn effective_opt_exec(p: &ClassProp) -> (b: bool)
    ensures
        b == effective_opt(*p),
{
    p.is_optional || is_optional_type(p.type_ann.as_ref())
}

/// Two comma-separated runs side by side; an empty run disappears.
pub open spec fn comma_merge(a: Seq<char>, b: Seq<char>) -> Seq<char> {
    if a.len() == 0 {
        b
    } else if b.len() == 0 {
        a
    } else {
        a + " , "@ + b
    }
}

fn append_comma(out: &mut String, piece: &str)
    ensures
        final(out)@ == comma_merge(old(out)@, piece@),
{
    if piece.unicode_len() > 0 {
        if out.as_str().unicode_len() > 0 {
            out.append(" , ");
        }
        out.append(piece);
    }
}

/// One struct field from a declared class field: the name passes through
/// as written; a dependency is held by shared handle, an optional field in
/// an option.
pub open spec fn prop_field_piece(m: ClassMember, generics: Seq<String>) -> Option<Seq<char>> {
    match m {
        ClassMember::Prop(p) => {
            let base = param_type_text(p.type_ann, generics);
            let t1 = if p.is_optional {
                "Option < "@ + base + " >"@
            } else {
                base
            };
            Option::Some("pub "@ + p.name@ + " : "@ + t1)
        },
        _ => Option::None,
    }
}

pub open spec fn prop_fields_text(ms: Seq<ClassMember>, generics: Seq<String>) -> Seq<char>
    decreases ms.len(),
{
    if ms.len() == 0 {
        Seq::empty()
    } else {
        let prev = prop_fields_text(ms.drop_last(), generics);
        match prop_field_piece(ms.last(), generics) {
            Option::None => prev,
            Option::Some(t) => comma_merge(prev, t),
        }
    }
}

fn render_prop_field(m: &ClassMember, generics: &Vec<String>) -> (r: Option<String>)
    ensures
        match r {
            Option::Some(s) => prop_field_piece(*m, generics@) matches Option::Some(t) && s@
                == t,
            Option::None => prop_field_piece(*m, generics@) is None,
        },
{
    match m {
        ClassMember::Prop(p) => {
            let mut out = String::from_str("pub ");
            out.append(p.name.as_str());
            out.append(" : ");
            let base = render_param_type(p.type_ann.as_ref(), generics);
            if p.is_optional {
                out.append("Option < ");
                out.append(base.as_str());
                out.append(" >");
            } else {
                out.append(base.as_str());
            }
            proof {
                assert(out@ =~= prop_field_piece(*m, generics@).unwrap());
            }
            Option::Some(out)
        },
        _ => Option::None,
    }
}

/// One struct field from a constructor property parameter, snake-cased.
pub open spec fn ctor_field_piece(p: CtorParam, generics: Seq<String>) -> Option<Seq<char>> {
    match p.kind {
        CtorParamKind::PropParam => Option::Some(
            "pub "@ + snake_text(p.name@) + " : "@ + param_type_text(p.type_ann, generics),
        ),
        CtorParamKind::PlainParam => Option::None,
    }
}

pub open spec fn ctor_fields_text(ps: Seq<CtorParam>, generics: Seq<String>) -> Seq<char>
    decreases ps.len(),
{
    if ps.len() == 0 {
        Seq::empty()
    } else {
        let prev = ctor_fields_text(ps.drop_last(), generics);
        match ctor_field_piece(ps.last(), generics) {
            Option::None => prev,
            Option::Some(t) => comma_merge(prev, t),
        }
    }
}

fn render_ctor_field(p: &CtorParam, generics: &Vec<String>) -> (r: Option<String>)
    ensures
        match r {
            Option::Some(s) => ctor_field_piece(*p, generics@) matches Option::Some(t) && s@
                == t,
            Option::None => ctor_field_piece(*p, generics@) is None,
        },
{
    match p.kind {
        CtorParamKind::PropParam => {
            let mut out = String::from_str("pub ");
            let sn = to_snake_case(p.name.as_str());
            out.append(sn.as_str());
            out.append(" : ");
            let t = render_param_type(p.type_ann.as_ref(), generics);
            out.append(t.as_str());
            Option::Some(out)
        },
        CtorParamKind::PlainParam => Option::None,
    }
}

/// The last constructor a class declares, the one that is lowered.
pub open spec fn ctor_of(ms: Seq<ClassMember>) -> Option<Constructor>
    decreases ms.len(),
{
    if ms.len() == 0 {
        Option::None
    } else {
        match ms.last() {
            ClassMember::Ctor(c) => Option::Some(c),
            _ => ctor_of(ms.drop_last()),
        }
    }
}

/// One direct-constructor parameter: a property parameter is snake-cased,
/// a plain one keeps its spelling.
pub open spec fn ctor_param_piece(p: CtorParam, generics: Seq<String>) -> Seq<char> {
    (match p.kind {
        CtorParamKind::PropParam => snake_text(p.name@),
        CtorParamKind::PlainParam => p.name@,
    }) + " : "@ + param_type_text(p.type_ann, generics)
}

pub open spec fn ctor_params_text(ps: Seq<CtorParam>, generics: Seq<String>) -> Seq<char>
    decreases ps.len(),
{
    if ps.len() == 0 {
        Seq::empty()
    } else if ps.len() == 1 {
        ctor_param_piece(ps[0], generics)
    } else {
        ctor_params_text(ps.drop_last(), generics) + " , "@ + ctor_param_piece(
            ps.last(),
            generics,
        )
    }
}

fn render_ctor_param(p: &CtorParam, generics: &Vec<String>) -> (r: String)
    ensures
        r@ == ctor_param_piece(*p, generics@),
{
    let mut out: String = match p.kind {
        CtorParamKind::PropParam => to_snake_case(p.name.as_str()),
        CtorParamKind::PlainParam => p.name.clone(),
    };
    out.append(" : ");
    let t = render_param_type(p.type_ann.as_ref(), generics);
    out.append(t.as_str());
    out
}

/// One field initializer from a property parameter.
pub open spec fn prop_init_piece(p: CtorParam) -> Option<Seq<char>> {
    match p.kind {
        CtorParamKind::PropParam => Option::Some(
            snake_text(p.name@) + " : "@ + snake_text(p.name@),
        ),
        CtorParamKind::PlainParam => Option::None,
    }
}

pub open spec fn prop_inits_text(ps: Seq<CtorParam>) -> Seq<char>
    decreases ps.len(),
{
    if ps.len() == 0 {
        Seq::empty()
    } else {
        let prev = prop_inits_text(ps.drop_last());
        match prop_init_piece(ps.last()) {
            Option::None => prev,
            Option::Some(t) => comma_merge(prev, t),
        }
    }
}

pub open spec fn opt_field_at(m: ClassMember, x: Seq<char>) -> bool {
    m matches ClassMember::Prop(p) && p.name@ == x && effective_opt(p)
}

/// Whether the class declares an optional field of this name.
pub open spec fn is_opt_field(ms: Seq<ClassMember>, x: Seq<char>) -> bool {
    exists|i: int| 0 <= i < ms.len() && opt_field_at(ms[i], x)
}

fn is_opt_field_exec(ms: &Vec<ClassMember>, x: &str) -> (b: bool)
    ensures
        b == is_opt_field(ms@, x@),
{
    let mut i: usize = 0;
    while i < ms.len()
        invariant
            i <= ms@.len(),
            forall|k: int| 0 <= k < i ==> !opt_field_at(ms@[k], x@),
        decreases ms@.len() - i,
    {
        match &ms[i] {
            ClassMember::Prop(p) => {
                if str_eq(p.name.as_str(), x) && effective_opt_exec(p) {
                    proof {
                        assert(opt_field_at(ms@[i as int], x@));
                    }
                    return true;
                }
            },
            _ => {},
        }
        i = i + 1;
    }
    false
}

pub open spec fn dep_field_at(m: ClassMember, generics: Seq<String>, x: Seq<char>) -> bool {
    m matches ClassMember::Prop(p) && p.name@ == x && dep_of(p.type_ann, generics)
}

pub open spec fn dep_ctor_field_at(p: CtorParam, generics: Seq<String>, x: Seq<char>) -> bool {
    p.kind == CtorParamKind::PropParam && p.name@ == x && dep_of(p.type_ann, generics)
}

/// Whether a field of this name is dependency-classified, as a declared
/// field or as a constructor property parameter.
pub open spec fn is_dep_field(
    ms: Seq<ClassMember>,
    ps: Seq<CtorParam>,
    generics: Seq<String>,
    x: Seq<char>,
) -> bool {
    (exists|i: int| 0 <= i < ms.len() && dep_field_at(ms[i], generics, x)) || (exists|j: int|
        0 <= j < ps.len() && dep_ctor_field_at(ps[j], generics, x))
}

fn is_dep_field_exec(
    ms: &Vec<ClassMember>,
    ps: &Vec<CtorParam>,
    generics: &Vec<String>,
    x: &str,
) -> (b: bool)
    ensures
        b == is_dep_field(ms@, ps@, generics@, x@),
{
    let mut i: usize = 0;
    while i < ms.len()
        invariant
            i <= ms@.len(),
            forall|k: int| 0 <= k < i ==> !dep_field_at(ms@[k], generics@, x@),
        decreases ms@.len() - i,
    {
        match &ms[i] {
            ClassMember::Prop(p) => {
                if str_eq(p.name.as_str(), x) && is_dep_exec(p.type_ann.as_ref(), generics) {
                    proof {
                        assert(dep_field_at(ms@[i as int], generics@, x@));
                    }
                    return true;
                }
            },
            _ => {},
        }
        i = i + 1;
    }
    let mut j: usize = 0;
    while j < ps.len()
        invariant
            j <= ps@.len(),
            forall|k: int| 0 <= k < ms@.len() ==> !dep_field_at(ms@[k], generics@, x@),
            forall|k: int| 0 <= k < j ==> !dep_ctor_field_at(ps@[k], generics@, x@),
        decreases ps@.len() - j,
    {
        let p = &ps[j];
        let is_prop = match p.kind {
            CtorParamKind::PropParam => true,
            CtorParamKind::PlainParam => false,
        };
        if is_prop && str_eq(p.name.as_str(), x) && is_dep_exec(p.type_ann.as_ref(), generics) {
            proof {
                assert(dep_ctor_field_at(ps@[j as int], generics@, x@));
            }
            return true;
        }
        j = j + 1;
    }
    false
}

pub open spec fn dep_param_at(p: CtorParam, generics: Seq<String>, x: Seq<char>) -> bool {
    p.name@ == x && dep_of(p.type_ann, generics)
}

/// Whether a constructor parameter of this name, of either kind, is
/// dependency-classified; such a value arrives already wrapped.
pub open spec fn is_dep_param(ps: Seq<CtorParam>, generics: Seq<String>, x: Seq<char>) -> bool {
    exists|i: int| 0 <= i < ps.len() && dep_param_at(ps[i], generics, x)
}

fn is_dep_param_exec(ps: &Vec<CtorParam>, generics: &Vec<String>, x: &str) -> (b: bool)
    ensures
        b == is_dep_param(ps@, generics@, x@),
{
    let mut i: usize = 0;
    while i < ps.len()
        invariant
            i <= ps@.len(),
            forall|k: int| 0 <= k < i ==> !dep_param_at(ps@[k], generics@, x@),
        decreases ps@.len() - i,
    {
        if str_eq(ps[i].name.as_str(), x) && is_dep_exec(ps[i].type_ann.as_ref(), generics) {
            proof {
                assert(dep_param_at(ps@[i as int], generics@, x@));
            }
            return true;
        }
        i = i + 1;
    }
    false
}

/// Whether a statement is a verbatim field assignment on the implicit
/// receiver, the shape the constructor lowering picks up.
pub open spec fn field_assign_of(st: Stmt) -> Option<(Seq<char>, Expr)> {
    match st {
        Stmt::ExprStmt(e) => match e {
            Expr::Assign(_, t, v) => match t {
                AssignTarget::Member(obj, prop) => match prop {
                    MemberProp::Named(f) => match *obj {
                        Expr::This => Option::Some((f@, *v)),
                        _ => Option::None,
                    },
                    _ => Option::None,
                },
                _ => Option::None,
            },
            _ => Option::None,
        },
        _ => Option::None,
    }
}

pub open spec fn assigned_at(st: Stmt, x: Seq<char>) -> bool {
    field_assign_of(st) matches Option::Some(fv) && fv.0 == x
}

pub open spec fn assigned_in_body(ss: Seq<Stmt>, x: Seq<char>) -> bool {
    exists|i: int| 0 <= i < ss.len() && assigned_at(ss[i], x)
}

fn field_assign_parts(st: &Stmt) -> (r: Option<(&String, &Expr)>)
    ensures
        match r {
            Option::Some(fv) => field_assign_of(*st) matches Option::Some(sfv) && sfv.0 == fv.0@
                && sfv.1 == *fv.1,
            Option::None => field_assign_of(*st) is None,
        },
{
    match st {
        Stmt::ExprStmt(e) => match e {
            Expr::Assign(_, t, v) => match t {
                AssignTarget::Member(obj, prop) => match prop {
                    MemberProp::Named(f) => match &**obj {
                        Expr::This => Option::Some((f, &**v)),
                        _ => Option::None,
                    },
                    _ => Option::None,
                },
                _ => Option::None,
            },
            _ => Option::None,
        },
        _ => Option::None,
    }
}

fn assigned_in_body_exec(ss: &Vec<Stmt>, x: &str) -> (b: bool)
    ensures
        b == assigned_in_body(ss@, x@),
{
    let mut i: usize = 0;
    while i < ss.len()
        invariant
            i <= ss@.len(),
            forall|k: int| 0 <= k < i ==> !assigned_at(ss@[k], x@),
        decreases ss@.len() - i,
    {
        match field_assign_parts(&ss[i]) {
            Option::Some(fv) => {
                if str_eq(fv.0.as_str(), x) {
                    proof {
                        assert(assigned_at(ss@[i as int], x@));
                    }
                    return true;
                }
            },
            Option::None => {},
        }
        i = i + 1;
    }
    false
}

pub open spec fn prop_param_at(p: CtorParam, x: Seq<char>) -> bool {
    p.kind == CtorParamKind::PropParam && p.name@ == x
}

pub open spec fn is_prop_param(ps: Seq<CtorParam>, x: Seq<char>) -> bool {
    exists|i: int| 0 <= i < ps.len() && prop_param_at(ps[i], x)
}

fn is_prop_param_exec(ps: &Vec<CtorParam>, x: &str) -> (b: bool)
    ensures
        b == is_prop_param(ps@, x@),
{
    let mut i: usize = 0;
    while i < ps.len()
        invariant
            i <= ps@.len(),
            forall|k: int| 0 <= k < i ==> !prop_param_at(ps@[k], x@),
        decreases ps@.len() - i,
    {
        let is_prop = match ps[i].kind {
            CtorParamKind::PropParam => true,
            CtorParamKind::PlainParam => false,
        };
        if is_prop && str_eq(ps[i].name.as_str(), x) {
            proof {
                assert(prop_param_at(ps@[i as int], x@));
            }
            return true;
        }
        i = i + 1;
    }
    false
}

/// One field initializer read off a constructor-body assignment: the
/// assigned value, wrapped in a present marker for an optional field and
/// in shared-ownership construction for a dependency field whose source is
/// not already a dependency-typed parameter.
pub open spec fn assign_init_piece(
    st: Stmt,
    ms: Seq<ClassMember>,
    ps: Seq<CtorParam>,
    generics: Seq<String>,
) -> Option<Seq<char>> {
    match field_assign_of(st) {
        Option::Some(fv) => {
            let v0 = expr_text(fv.1);
            let v1 = if is_opt_field(ms, fv.0) {
                "Some ("@ + v0 + ")"@
            } else {
                v0
            };
            let v2 = if is_dep_field(ms, ps, generics, fv.0) {
                if fv.1 matches Expr::Ident(n) && is_dep_param(ps, generics, n@) {
                    v1
                } else {
                    "std :: sync :: Arc :: new ("@ + v1 + ")"@
                }
            } else {
                v1
            };
            Option::Some(fv.0 + " : "@ + v2)
        },
        Option::None => Option::None,
    }
}

pub open spec fn assign_inits_text(
    ss: Seq<Stmt>,
    ms: Seq<ClassMember>,
    ps: Seq<CtorParam>,
    generics: Seq<String>,
) -> Seq<char>
    decreases ss.len(),
{
    if ss.len() == 0 {
        Seq::empty()
    } else {
        let prev = assign_inits_text(ss.drop_last(), ms, ps, generics);
        match assign_init_piece(ss.last(), ms, ps, generics) {
            Option::None => prev,
            Option::Some(t) => comma_merge(prev, t),
        }
    }
}

fn render_assign_init(
    st: &Stmt,
    ms: &Vec<ClassMember>,
    ps: &Vec<CtorParam>,
    generics: &Vec<String>,
) -> (r: Option<String>)
    ensures
        match r {
            Option::Some(s) => assign_init_piece(*st, ms@, ps@, generics@)
                matches Option::Some(t) && s@ == t,
            Option::None => assign_init_piece(*st, ms@, ps@, generics@) is None,
        },
{
    match field_assign_parts(st) {
        Option::Some(fv) => {
            let f = fv.0;
            let v = fv.1;
            let v0 = convert_expr(v);
            let is_opt = is_opt_field_exec(ms, f.as_str());
            let v1: String = if is_opt {
                let mut w = String::from_str("Some (");
                w.append(v0.as_str());
                w.append(")");
                w
            } else {
                v0
            };
            let already = match v {
                Expr::Ident(n) => is_dep_param_exec(ps, generics, n.as_str()),
                _ => false,
            };
            let v2: String = if is_dep_field_exec(ms, ps, generics, f.as_str()) {
                if already {
                    v1
                } else {
                    let mut w = String::from_str("std :: sync :: Arc :: new (");
                    w.append(v1.as_str());
                    w.append(")");
                    w
                }
            } else {
                v1
            };
            let mut out = f.clone();
            out.append(" : ");
            out.append(v2.as_str());
            Option::Some(out)
        },
        Option::None => Option::None,
    }
}

/// One missing-optional initializer: an optional field that neither a
/// property parameter nor a body assignment covers starts out empty.
pub open spec fn missing_opt_piece(
    m: ClassMember,
    ps: Seq<CtorParam>,
    ss: Seq<Stmt>,
) -> Option<Seq<char>> {
    match m {
        ClassMember::Prop(p) => if effective_opt(p) && !is_prop_param(ps, p.name@)
            && !assigned_in_body(ss, p.name@) {
            Option::Some(p.name@ + " : None"@)
        } else {
            Option::None
        },
        _ => Option::None,
    }
}

pub open spec fn missing_opt_text(ms: Seq<ClassMember>, ps: Seq<CtorParam>, ss: Seq<Stmt>) -> Seq<
    char,
>
    decreases ms.len(),
{
    if ms.len() == 0 {
        Seq::empty()
    } else {
        let prev = missing_opt_text(ms.drop_last(), ps, ss);
        match missing_opt_piece(ms.last(), ps, ss) {
            Option::None => prev,
            Option::Some(t) => comma_merge(prev, t),
        }
    }
}

fn render_missing_opt(m: &ClassMember, ps: &Vec<CtorParam>, ss: &Vec<Stmt>) -> (r: Option<String>)
    ensures
        match r {
            Option::Some(s) => missing_opt_piece(*m, ps@, ss@) matches Option::Some(t) && s@
                == t,
            Option::None => missing_opt_piece(*m, ps@, ss@) is None,
        },
{
    match m {
        ClassMember::Prop(p) => {
            if effective_opt_exec(p) && !is_prop_param_exec(ps, p.name.as_str())
                && !assigned_in_body_exec(ss, p.name.as_str()) {
                let mut out = p.name.clone();
                out.append(" : None");
                Option::Some(out)
            } else {
                Option::None
            }
        },
        _ => Option::None,
    }
}

/// One injection-constructor parameter: property parameters always, plain
/// parameters only when dependency-classified.
pub open spec fn di_param_piece(p: CtorParam, generics: Seq<String>) -> Option<Seq<char>> {
    match p.kind {
        CtorParamKind::PropParam => Option::Some(
            snake_text(p.name@) + " : "@ + param_type_text(p.type_ann, generics),
        ),
        CtorParamKind::PlainParam => if dep_of(p.type_ann, generics) {
            Option::Some(p.name@ + " : "@ + param_type_text(p.type_ann, generics))
        } else {
            Option::None
        },
    }
}

pub open spec fn di_params_text(ps: Seq<CtorParam>, generics: Seq<String>) -> Seq<char>
    decreases ps.len(),
{
    if ps.len() == 0 {
        Seq::empty()
    } else {
        let prev = di_params_text(ps.drop_last(), generics);
        match di_param_piece(ps.last(), generics) {
            Option::None => prev,
            Option::Some(t) => comma_merge(prev, t),
        }
    }
}

fn render_di_param(p: &CtorParam, generics: &Vec<String>) -> (r: Option<String>)
    ensures
        match r {
            Option::Some(s) => di_param_piece(*p, generics@) matches Option::Some(t) && s@ == t,
            Option::None => di_param_piece(*p, generics@) is None,
        },
{
    match p.kind {
        CtorParamKind::PropParam => {
            let mut out = to_snake_case(p.name.as_str());
            out.append(" : ");
            let t = render_param_type(p.type_ann.as_ref(), generics);
            out.append(t.as_str());
            Option::Some(out)
        },
        CtorParamKind::PlainParam => {
            if is_dep_exec(p.type_ann.as_ref(), generics) {
                let mut out = p.name.clone();
                out.append(" : ");
                let t = render_param_type(p.type_ann.as_ref(), generics);
                out.append(t.as_str());
                Option::Some(out)
            } else {
                Option::None
            }
        },
    }
}

pub open spec fn prop_named_at(m: ClassMember, x: Seq<char>) -> bool {
    m matches ClassMember::Prop(p) && p.name@ == x
}

pub open spec fn has_prop_named(ms: Seq<ClassMember>, x: Seq<char>) -> bool {
    exists|i: int| 0 <= i < ms.len() && prop_named_at(ms[i], x)
}

fn has_prop_named_exec(ms: &Vec<ClassMember>, x: &str) -> (b: bool)
    ensures
        b == has_prop_named(ms@, x@),
{
    let mut i: usize = 0;
    while i < ms.len()
        invariant
            i <= ms@.len(),
            forall|k: int| 0 <= k < i ==> !prop_named_at(ms@[k], x@),
        decreases ms@.len() - i,
    {
        match &ms[i] {
            ClassMember::Prop(p) => {
                if str_eq(p.name.as_str(), x) {
                    proof {
                        assert(prop_named_at(ms@[i as int], x@));
                    }
                    return true;
                }
            },
            _ => {},
        }
        i = i + 1;
    }
    false
}

/// One injection-constructor field initializer from a parameter.
pub open spec fn di_init_piece(
    p: CtorParam,
    ms: Seq<ClassMember>,
    generics: Seq<String>,
) -> Option<Seq<char>> {
    match p.kind {
        CtorParamKind::PropParam => Option::Some(
            snake_text(p.name@) + " : "@ + snake_text(p.name@),
        ),
        CtorParamKind::PlainParam => if dep_of(p.type_ann, generics) && has_prop_named(
            ms,
            p.name@,
        ) {
            Option::Some(p.name@ + " : "@ + p.name@)
        } else {
            Option::None
        },
    }
}

pub open spec fn di_param_inits_text(
    ps: Seq<CtorParam>,
    ms: Seq<ClassMember>,
    generics: Seq<String>,
) -> Seq<char>
    decreases ps.len(),
{
    if ps.len() == 0 {
        Seq::empty()
    } else {
        let prev = di_param_inits_text(ps.drop_last(), ms, generics);
        match di_init_piece(ps.last(), ms, generics) {
            Option::None => prev,
            Option::Some(t) => comma_merge(prev, t),
        }
    }
}

fn render_di_init(p: &CtorParam, ms: &Vec<ClassMember>, generics: &Vec<String>) -> (r: Option<
    String,
>)
    ensures
        match r {
            Option::Some(s) => di_init_piece(*p, ms@, generics@) matches Option::Some(t) && s@
                == t,
            Option::None => di_init_piece(*p, ms@, generics@) is None,
        },
{
    match p.kind {
        CtorParamKind::PropParam => {
            let mut out = to_snake_case(p.name.as_str());
            out.append(" : ");
            let sn = to_snake_case(p.name.as_str());
            out.append(sn.as_str());
            Option::Some(out)
        },
        CtorParamKind::PlainParam => {
            if is_dep_exec(p.type_ann.as_ref(), generics) && has_prop_named_exec(
                ms,
                p.name.as_str(),
            ) {
                let mut out = p.name.clone();
                out.append(" : ");
                out.append(p.name.as_str());
                Option::Some(out)
            } else {
                Option::None
            }
        },
    }
}

pub open spec fn di_initialized(
    ps: Seq<CtorParam>,
    ms: Seq<ClassMember>,
    generics: Seq<String>,
    x: Seq<char>,
) -> bool {
    is_prop_param(ps, x) || (exists|i: int|
        0 <= i < ps.len() && ps[i].kind == CtorParamKind::PlainParam && ps[i].name@ == x && dep_of(
            ps[i].type_ann,
            generics,
        ) && has_prop_named(ms, x))
}

fn di_initialized_exec(
    ps: &Vec<CtorParam>,
    ms: &Vec<ClassMember>,
    generics: &Vec<String>,
    x: &str,
) -> (b: bool)
    ensures
        b == di_initialized(ps@, ms@, generics@, x@),
{
    if is_prop_param_exec(ps, x) {
        return true;
    }
    let mut i: usize = 0;
    while i < ps.len()
        invariant
            i <= ps@.len(),
            !is_prop_param(ps@, x@),
            forall|k: int|
                0 <= k < i ==> !(ps@[k].kind == CtorParamKind::PlainParam && ps@[k].name@ == x@
                    && dep_of(ps@[k].type_ann, generics@) && has_prop_named(ms@, x@)),
        decreases ps@.len() - i,
    {
        let is_plain = match ps[i].kind {
            CtorParamKind::PlainParam => true,
            CtorParamKind::PropParam => false,
        };
        if is_plain && str_eq(ps[i].name.as_str(), x) && is_dep_exec(
            ps[i].type_ann.as_ref(),
            generics,
        ) && has_prop_named_exec(ms, x) {
            return true;
        }
        i = i + 1;
    }
    false
}

/// One default initializer for a declared field the injection constructor
/// does not receive.
pub open spec fn di_default_piece(
    m: ClassMember,
    ps: Seq<CtorParam>,
    ms: Seq<ClassMember>,
    generics: Seq<String>,
) -> Option<Seq<char>> {
    match m {
        ClassMember::Prop(p) => if !di_initialized(ps, ms, generics, p.name@) {
            Option::Some(p.name@ + " : Default :: default ()"@)
        } else {
            Option::None
        },
        _ => Option::None,
    }
}

pub open spec fn di_defaults_text(
    scan: Seq<ClassMember>,
    ps: Seq<CtorParam>,
    ms: Seq<ClassMember>,
    generics: Seq<String>,
) -> Seq<char>
    decreases scan.len(),
{
    if scan.len() == 0 {
        Seq::empty()
    } else {
        let prev = di_defaults_text(scan.drop_last(), ps, ms, generics);
        match di_default_piece(scan.last(), ps, ms, generics) {
            Option::None => prev,
            Option::Some(t) => comma_merge(prev, t),
        }
    }
}

fn render_di_default(
    m: &ClassMember,
    ps: &Vec<CtorParam>,
    ms: &Vec<ClassMember>,
    generics: &Vec<String>,
) -> (r: Option<String>)
    ensures
        match r {
            Option::Some(s) => di_default_piece(*m, ps@, ms@, generics@)
                matches Option::Some(t) && s@ == t,
            Option::None => di_default_piece(*m, ps@, ms@, generics@) is None,
        },
{
    match m {
        ClassMember::Prop(p) => {
            if !di_initialized_exec(ps, ms, generics, p.name.as_str()) {
                let mut out = p.name.clone();
                out.append(" : Default :: default ()");
                Option::Some(out)
            } else {
                Option::None
            }
        },
        _ => Option::None,
    }
}

/// The slash-trimming of a route segment, front and back.
pub open spec fn trim_front(s: Seq<char>) -> Seq<char>
    decreases s.len(),
{
    if s.len() > 0 && s.first() == '/' {
        trim_front(s.drop_first())
    } else {
        s
    }
}

pub open spec fn trim_back(s: Seq<char>) -> Seq<char>
    decreases s.len(),
{
    if s.len() > 0 && s.last() == '/' {
        trim_back(s.drop_last())
    } else {
        s
    }
}

pub open spec fn trim_slashes(s: Seq<char>) -> Seq<char> {
    trim_back(trim_front(s))
}

proof fn lemma_trim_front_skip(s: Seq<char>, i: int)
    requires
        0 <= i <= s.len(),
        forall|k: int| 0 <= k < i ==> s[k] == '/',
        i < s.len() ==> s[i] != '/',
    ensures
        trim_front(s) == s.skip(i),
    decreases i,
{
    if i == 0 {
        assert(s.skip(0) =~= s);
    } else {
        lemma_trim_front_skip(s.drop_first(), i - 1);
        assert(s.drop_first().skip(i - 1) =~= s.skip(i));
    }
}

proof fn lemma_trim_back_take(s: Seq<char>, j: int)
    requires
        0 <= j <= s.len(),
        forall|k: int| j <= k < s.len() ==> s[k] == '/',
        j > 0 ==> s[j - 1] != '/',
    ensures
        trim_back(s) == s.take(j),
    decreases s.len() - j,
{
    if j == s.len() {
        assert(s.take(j) =~= s);
    } else {
        lemma_trim_back_take(s.drop_last(), j);
        assert(s.drop_last().take(j) =~= s.take(j));
    }
}

/// Trims separators off both ends of a route segment.
pub fn trim_slashes_exec(s: &str) -> (r: String)
    ensures
        r@ == trim_slashes(s@),
{
    let n = s.unicode_len();
    let mut i: usize = 0;
    while i < n && s.get_char(i) == '/'
        invariant
            n == s@.len(),
            i <= n,
            forall|k: int| 0 <= k < i ==> s@[k] == '/',
        decreases n - i,
    {
        i = i + 1;
    }
    proof {
        lemma_trim_front_skip(s@, i as int);
    }
    let mut j: usize = n;
    while j > i && s.get_char(j - 1) == '/'
        invariant
            n == s@.len(),
            i <= j <= n,
            forall|k: int| 0 <= k < i ==> s@[k] == '/',
            forall|k: int| j <= k < n ==> s@[k] == '/',
        decreases j,
    {
        j = j - 1;
    }
    let mut out: Vec<char> = Vec::new();
    let mut p: usize = i;
    while p < j
        invariant
            n == s@.len(),
            i <= j <= n,
            i <= p <= j,
            out@ == s@.skip(i as int).take(p - i),
        decreases j - p,
    {
        out.push(s.get_char(p));
        proof {
            assert(out@ =~= s@.skip(i as int).take(p + 1 - i));
        }
        p = p + 1;
    }
    proof {
        if j > i {
            lemma_trim_back_take(s@.skip(i as int), j - i);
        } else {
            lemma_trim_back_take(s@.skip(i as int), 0);
            assert(s@.skip(i as int).take(0) =~= Seq::<char>::empty());
        }
        assert(out@ =~= trim_slashes(s@));
    }
    crate::names::chars_to_string(&out)
}

/// The combination of a controller prefix with a method path: both are
/// trimmed of separators and the result carries exactly one leading
/// separator; an empty prefix leaves the path as written, save for the
/// leading separator.
pub open spec fn compose_route_text(prefix: Seq<char>, path: Seq<char>) -> Seq<char> {
    let full = if prefix.len() == 0 {
        path
    } else {
        let c = trim_slashes(prefix);
        let m = trim_slashes(path);
        if m.len() == 0 {
            "/"@ + c
        } else {
            "/"@ + c + "/"@ + m
        }
    };
    if full.len() > 0 && full.first() == '/' {
        full
    } else {
        "/"@ + full
    }
}

/// Combines a controller prefix and a method path into one route.
pub fn compose_route(prefix: &str, path: &str) -> (r: String)
    ensures
        r@ == compose_route_text(prefix@, path@),
{
    let full: String = if prefix.unicode_len() == 0 {
        path.to_owned()
    } else {
        let c = trim_slashes_exec(prefix);
        let m = trim_slashes_exec(path);
        if m.as_str().unicode_len() == 0 {
            let mut out = String::from_str("/");
            out.append(c.as_str());
            out
        } else {
            let mut out = String::from_str("/");
            out.append(c.as_str());
            out.append("/");
            out.append(m.as_str());
            out
        }
    };
    if full.as_str().unicode_len() > 0 && full.as_str().get_char(0) == '/' {
        full
    } else {
        let mut out = String::from_str("/");
        out.append(full.as_str());
        out
    }
}

/// The recognized verb decorators.
pub open spec fn is_http_name(n: Seq<char>) -> bool {
    ||| n == "Get"@
    ||| n == "Post"@
    ||| n == "Put"@
    ||| n == "Delete"@
    ||| n == "Patch"@
}

fn is_http_name_exec(n: &str) -> (b: bool)
    ensures
        b == is_http_name(n@),
{
    str_eq(n, "Get") || str_eq(n, "Post") || str_eq(n, "Put") || str_eq(n, "Delete") || str_eq(
        n,
        "Patch",
    )
}

/// The verb and path a method's decorators leave behind: the last verb
/// decorator names the verb, and the last one carrying a path argument
/// names the path.
pub open spec fn http_fold(ds: Seq<Decorator>) -> (Option<Seq<char>>, Seq<char>)
    decreases ds.len(),
{
    if ds.len() == 0 {
        (Option::None, Seq::empty())
    } else {
        let prev = http_fold(ds.drop_last());
        let d = ds.last();
        if is_http_name(d.name@) {
            (
                Option::Some(d.name@),
                match d.str_arg {
                    Option::Some(p) => p@,
                    Option::None => prev.1,
                },
            )
        } else {
            prev
        }
    }
}

fn http_fold_exec(ds: &Vec<Decorator>) -> (r: (Option<String>, String))
    ensures
        (match r.0 {
            Option::Some(m) => http_fold(ds@).0 matches Option::Some(t) && m@ == t,
            Option::None => http_fold(ds@).0 is None,
        }),
        r.1@ == http_fold(ds@).1,
{
    let mut m: Option<String> = Option::None;
    let mut path = String::new();
    let mut i: usize = 0;
    while i < ds.len()
        invariant
            i <= ds@.len(),
            (match m {
                Option::Some(mm) => http_fold(ds@.take(i as int)).0 matches Option::Some(t)
                    && mm@ == t,
                Option::None => http_fold(ds@.take(i as int)).0 is None,
            }),
            path@ == http_fold(ds@.take(i as int)).1,
        decreases ds@.len() - i,
    {
        proof {
            assert(ds@.take(i + 1 as int).drop_last() =~= ds@.take(i as int));
            assert(ds@.take(i + 1 as int).last() == ds@[i as int]);
        }
        if is_http_name_exec(ds[i].name.as_str()) {
            m = Option::Some(ds[i].name.clone());
            match &ds[i].str_arg {
                Option::Some(p) => {
                    path = p.clone();
                },
                Option::None => {},
            }
        }
        i = i + 1;
    }
    proof {
        assert(ds@.take(ds@.len() as int) =~= ds@);
    }
    (m, path)
}

/// Whether the class-level decorators mark a controller, and the prefix
/// the last controller decorator with a path argument carries.
pub open spec fn ctrl_fold(ds: Seq<Decorator>) -> (bool, Seq<char>)
    decreases ds.len(),
{
    if ds.len() == 0 {
        (false, Seq::empty())
    } else {
        let prev = ctrl_fold(ds.drop_last());
        let d = ds.last();
        if d.name@ == "Controller"@ {
            (
                true,
                match d.str_arg {
                    Option::Some(p) => p@,
                    Option::None => prev.1,
                },
            )
        } else {
            prev
        }
    }
}

fn ctrl_fold_exec(ds: &Vec<Decorator>) -> (r: (bool, String))
    ensures
        r.0 == ctrl_fold(ds@).0,
        r.1@ == ctrl_fold(ds@).1,
{
    let mut is_ctrl = false;
    let mut path = String::new();
    let mut i: usize = 0;
    while i < ds.len()
        invariant
            i <= ds@.len(),
            is_ctrl == ctrl_fold(ds@.take(i as int)).0,
            path@ == ctrl_fold(ds@.take(i as int)).1,
        decreases ds@.len() - i,
    {
        proof {
            assert(ds@.take(i + 1 as int).drop_last() =~= ds@.take(i as int));
            assert(ds@.take(i + 1 as int).last() == ds@[i as int]);
        }
        if str_eq(ds[i].name.as_str(), "Controller") {
            is_ctrl = true;
            match &ds[i].str_arg {
                Option::Some(p) => {
                    path = p.clone();
                },
                Option::None => {},
            }
        }
        i = i + 1;
    }
    proof {
        assert(ds@.take(ds@.len() as int) =~= ds@);
    }
    (is_ctrl, path)
}

pub open spec fn body_dec_at(d: Decorator) -> bool {
    d.name@ == "Body"@
}

/// Whether a parameter carries the request-body decorator.
pub open spec fn has_body_dec(ds: Seq<Decorator>) -> bool {
    exists|i: int| 0 <= i < ds.len() && body_dec_at(ds[i])
}

fn has_body_dec_exec(ds: &Vec<Decorator>) -> (b: bool)
    ensures
        b == has_body_dec(ds@),
{
    let mut i: usize = 0;
    while i < ds.len()
        invariant
            i <= ds@.len(),
            forall|k: int| 0 <= k < i ==> !body_dec_at(ds@[k]),
        decreases ds@.len() - i,
    {
        if str_eq(ds[i].name.as_str(), "Body") {
            proof {
                assert(body_dec_at(ds@[i as int]));
            }
            return true;
        }
        i = i + 1;
    }
    false
}

/// One lowered method parameter; a request-body parameter is destructured
/// from the structured wrapper in the generated signature.
pub open spec fn method_param_piece(p: MethodParam) -> Seq<char> {
    if has_body_dec(p.decorators@) {
        "axum :: Json ("@ + snake_text(p.name@) + ") : axum :: Json < "@ + opt_mapped_text(
            p.type_ann,
        ) + " >"@
    } else {
        snake_text(p.name@) + " : "@ + opt_mapped_text(p.type_ann)
    }
}

/// The full parameter list of a lowered method: a route handler takes the
/// receiver by value, any other method by mutable reference.
pub open spec fn method_params_text(ps: Seq<MethodParam>, handler: bool) -> Seq<char>
    decreases ps.len(),
{
    if ps.len() == 0 {
        if handler {
            "self"@
        } else {
            "& mut self"@
        }
    } else {
        method_params_text(ps.drop_last(), handler) + " , "@ + method_param_piece(ps.last())
    }
}

fn render_method_param(p: &MethodParam) -> (r: String)
    ensures
        r@ == method_param_piece(*p),
{
    let tt = map_ts_type(p.type_ann.as_ref());
    proof {
        lemma_opt_maps_text(p.type_ann, tt);
    }
    let ty = render_target_type(&tt);
    if has_body_dec_exec(&p.decorators) {
        let mut out = String::from_str("axum :: Json (");
        let sn = to_snake_case(p.name.as_str());
        out.append(sn.as_str());
        out.append(") : axum :: Json < ");
        out.append(ty.as_str());
        out.append(" >");
        out
    } else {
        let mut out = to_snake_case(p.name.as_str());
        out.append(" : ");
        out.append(ty.as_str());
        out
    }
}

fn render_method_params(ps: &Vec<MethodParam>, handler: bool) -> (r: String)
    ensures
        r@ == method_params_text(ps@, handler),
{
    let mut out = if handler {
        String::from_str("self")
    } else {
        String::from_str("& mut self")
    };
    let mut i: usize = 0;
    while i < ps.len()
        invariant
            i <= ps@.len(),
            out@ == method_params_text(ps@.take(i as int), handler),
        decreases ps@.len() - i,
    {
        out.append(" , ");
        let piece = render_method_param(&ps[i]);
        out.append(piece.as_str());
        proof {
            assert(ps@.take(i + 1 as int).drop_last() =~= ps@.take(i as int));
            assert(ps@.take(i + 1 as int).last() == ps@[i as int]);
            assert(out@ =~= method_params_text(ps@.take(i + 1 as int), handler));
        }
        i = i + 1;
    }
    proof {
        assert(ps@.take(ps@.len() as int) =~= ps@);
    }
    out
}

/// The payload type of a lowered method before any wrapping: an async
/// method's annotation is unwrapped from its promise, a plain one mapped
/// as written.
pub open spec fn method_ret_base(m: ClassMethod) -> Seq<char> {
    if m.is_async {
        match m.return_type {
            Option::Some(t) => crate::func::unwrapped_text(t),
            Option::None => "serde_json :: Value"@,
        }
    } else {
        opt_mapped_text(m.return_type)
    }
}

/// The declared return type of a lowered method: a route handler returns a
/// fallible wrapper whose payload is wrapped in the structured response
/// unless it is plain text; an async method returns a fallible wrapper.
pub open spec fn method_ret_text(m: ClassMethod, handler: bool) -> Seq<char> {
    if handler {
        let base = method_ret_base(m);
        if base == "String"@ {
            "Result < "@ + "String"@ + " , crate :: AppError >"@
        } else {
            "Result < "@ + ("axum :: Json < "@ + base + " >"@) + " , crate :: AppError >"@
        }
    } else if m.is_async {
        "Result < "@ + method_ret_base(m) + " , crate :: AppError >"@
    } else {
        opt_mapped_text(m.return_type)
    }
}

fn render_method_ret_base(m: &ClassMethod) -> (r: String)
    ensures
        r@ == method_ret_base(*m),
{
    if m.is_async {
        match &m.return_type {
            Option::Some(t) => {
                let tt = crate::type_mapper::unwrap_promise_type(Option::Some(t));
                proof {
                    match t {
                        SourceType::Promise(inner) => {
                            crate::type_mapper::lemma_inner_maps_text(**inner, tt);
                        },
                        _ => {
                            crate::type_mapper::lemma_full_maps_text(*t, tt);
                        },
                    }
                }
                render_target_type(&tt)
            },
            Option::None => String::from_str("serde_json :: Value"),
        }
    } else {
        let tt = map_ts_type(m.return_type.as_ref());
        proof {
            lemma_opt_maps_text(m.return_type, tt);
        }
        render_target_type(&tt)
    }
}

/// The body of a lowered method, with returns rewritten for handlers and
/// async methods.
pub open spec fn method_body_text(m: ClassMethod, handler: bool, json: bool) -> Seq<char> {
    let stmts = match m.body {
        Option::Some(ss) => ss@,
        Option::None => Seq::empty(),
    };
    if handler {
        crate::func::rw_stmts_text(
            stmts,
            if json {
                crate::func::ReturnRewrite::HandlerJson
            } else {
                crate::func::ReturnRewrite::HandlerPlain
            },
        )
    } else if m.is_async {
        crate::func::rw_stmts_text(stmts, crate::func::ReturnRewrite::AsyncMethod)
    } else {
        crate::func::stmts_text(stmts)
    }
}

/// The uppercase spelling of a verb decorator for the route note.
pub open spec fn http_upper(n: Seq<char>) -> Seq<char> {
    if n == "Get"@ {
        "GET"@
    } else if n == "Post"@ {
        "POST"@
    } else if n == "Put"@ {
        "PUT"@
    } else if n == "Delete"@ {
        "DELETE"@
    } else if n == "Patch"@ {
        "PATCH"@
    } else {
        "GET"@
    }
}

fn http_upper_exec(n: &str) -> (r: String)
    ensures
        r@ == http_upper(n@),
{
    if str_eq(n, "Get") {
        String::from_str("GET")
    } else if str_eq(n, "Post") {
        String::from_str("POST")
    } else if str_eq(n, "Put") {
        String::from_str("PUT")
    } else if str_eq(n, "Delete") {
        String::from_str("DELETE")
    } else if str_eq(n, "Patch") {
        String::from_str("PATCH")
    } else {
        String::from_str("GET")
    }
}

/// The lowercase routing method for a verb decorator.
pub open spec fn verb_lower(n: Seq<char>) -> Seq<char> {
    if n == "Get"@ {
        "get"@
    } else if n == "Post"@ {
        "post"@
    } else if n == "Put"@ {
        "put"@
    } else if n == "Delete"@ {
        "delete"@
    } else if n == "Patch"@ {
        "patch"@
    } else {
        "get"@
    }
}

fn verb_lower_exec(n: &str) -> (r: String)
    ensures
        r@ == verb_lower(n@),
{
    if str_eq(n, "Get") {
        String::from_str("get")
    } else if str_eq(n, "Post") {
        String::from_str("post")
    } else if str_eq(n, "Put") {
        String::from_str("put")
    } else if str_eq(n, "Delete") {
        String::from_str("delete")
    } else if str_eq(n, "Patch") {
        String::from_str("patch")
    } else {
        String::from_str("get")
    }
}

/// The route note above a lowered handler.
pub open spec fn doc_text(http: Seq<char>, path: Seq<char>) -> Seq<char> {
    let disp = if path.len() == 0 {
        "/"@
    } else {
        path
    };
    "# [doc = concat ! ("@ + crate::text::lit_str_text("Route: "@) + " , "@
        + crate::text::lit_str_text(http_upper(http)) + " , "@ + crate::text::lit_str_text(" "@)
        + " , "@ + crate::text::lit_str_text(disp) + ")]"@
}

/// The whole text of one lowered method.
pub open spec fn method_text(m: ClassMethod) -> Seq<char> {
    let hp = http_fold(m.decorators@);
    match hp.0 {
        Option::Some(http) => {
            let json = !(method_ret_base(m) == "String"@);
            let core = "pub async fn "@ + snake_text(m.name@) + " ("@ + method_params_text(
                m.params@,
                true,
            ) + ") -> "@ + method_ret_text(m, true) + " "@ + brace_wrap(
                method_body_text(m, true, json),
            );
            doc_text(http, hp.1) + " "@ + core
        },
        Option::None => {
            let kw = if m.is_async {
                "pub async fn "@
            } else {
                "pub fn "@
            };
            kw + snake_text(m.name@) + " ("@ + method_params_text(m.params@, false) + ") -> "@
                + method_ret_text(m, false) + " "@ + brace_wrap(method_body_text(m, false, false))
        },
    }
}

/// Converts one method; the second result carries its route registration,
/// if the method is a handler.
pub fn convert_method(m: &ClassMethod) -> (r: (String, Option<(String, String, String)>))
    ensures
        r.0@ == method_text(*m),
        (match r.1 {
            Option::Some(info) => http_fold(m.decorators@).0 matches Option::Some(h) && info.0@
                == snake_text(m.name@) && info.1@ == h && info.2@ == http_fold(m.decorators@).1,
            Option::None => http_fold(m.decorators@).0 is None,
        }),
{
    let hp = http_fold_exec(&m.decorators);
    let base = render_method_ret_base(m);
    match hp.0 {
        Option::Some(http) => {
            let json = !str_eq(base.as_str(), "String");
            let mut doc = String::from_str("# [doc = concat ! (");
            let l1 = crate::text::string_literal("Route: ");
            doc.append(l1.as_str());
            doc.append(" , ");
            let up = http_upper_exec(http.as_str());
            let l2 = crate::text::string_literal(up.as_str());
            doc.append(l2.as_str());
            doc.append(" , ");
            let l3 = crate::text::string_literal(" ");
            doc.append(l3.as_str());
            doc.append(" , ");
            let disp: String = if hp.1.as_str().unicode_len() == 0 {
                String::from_str("/")
            } else {
                hp.1.clone()
            };
            let l4 = crate::text::string_literal(disp.as_str());
            doc.append(l4.as_str());
            doc.append(")]");
            proof {
                assert(doc@ =~= doc_text(http@, hp.1@));
            }
            let mut ret = String::from_str("Result < ");
            if json {
                ret.append("axum :: Json < ");
                ret.append(base.as_str());
                ret.append(" >");
            } else {
                ret.append("String");
            }
            ret.append(" , crate :: AppError >");
            proof {
                assert(ret@ =~= method_ret_text(*m, true));
            }
            let mut core = String::from_str("pub async fn ");
            let sn = to_snake_case(m.name.as_str());
            core.append(sn.as_str());
            core.append(" (");
            let params = render_method_params(&m.params, true);
            core.append(params.as_str());
            core.append(") -> ");
            core.append(ret.as_str());
            core.append(" ");
            let empty_ss: Vec<Stmt> = Vec::new();
            let body_ss: &Vec<Stmt> = match &m.body {
                Option::Some(ss) => ss,
                Option::None => &empty_ss,
            };
            let rw = if json {
                crate::func::ReturnRewrite::HandlerJson
            } else {
                crate::func::ReturnRewrite::HandlerPlain
            };
            let body = crate::func::convert_stmts_recursive(body_ss, rw);
            let br = braced(body.as_str());
            core.append(br.as_str());
            let mut out = doc;
            out.append(" ");
            out.append(core.as_str());
            proof {
                assert(out@ =~= method_text(*m));
            }
            let name_sn = to_snake_case(m.name.as_str());
            (out, Option::Some((name_sn, http, hp.1)))
        },
        Option::None => {
            let mut ret: String = if m.is_async {
                let mut t = String::from_str("Result < ");
                t.append(base.as_str());
                t.append(" , crate :: AppError >");
                t
            } else {
                base
            };
            proof {
                assert(ret@ =~= method_ret_text(*m, false));
            }
            let mut out = if m.is_async {
                String::from_str("pub async fn ")
            } else {
                String::from_str("pub fn ")
            };
            let sn = to_snake_case(m.name.as_str());
            out.append(sn.as_str());
            out.append(" (");
            let params = render_method_params(&m.params, false);
            out.append(params.as_str());
            out.append(") -> ");
            out.append(ret.as_str());
            out.append(" ");
            let empty_ss: Vec<Stmt> = Vec::new();
            let body_ss: &Vec<Stmt> = match &m.body {
                Option::Some(ss) => ss,
                Option::None => &empty_ss,
            };
            let body: String = if m.is_async {
                crate::func::convert_stmts_recursive(
                    body_ss,
                    crate::func::ReturnRewrite::AsyncMethod,
                )
            } else {
                crate::func::convert_stmts(body_ss)
            };
            let br = braced(body.as_str());
            out.append(br.as_str());
            proof {
                assert(out@ =~= method_text(*m));
            }
            (out, Option::None)
        },
    }
}

pub open spec fn plain_list(tps: Seq<String>) -> Seq<char>
    decreases tps.len(),
{
    if tps.len() == 0 {
        Seq::empty()
    } else if tps.len() == 1 {
        tps[0]@
    } else {
        plain_list(tps.drop_last()) + " , "@ + tps.last()@
    }
}

/// The plain generic-parameter list of a lowered aggregate.
pub open spec fn plain_generics_text(tps: Seq<String>) -> Seq<char> {
    if tps.len() == 0 {
        Seq::empty()
    } else {
        "< "@ + plain_list(tps) + " >"@
    }
}

fn render_plain_list(tps: &Vec<String>) -> (r: String)
    ensures
        r@ == plain_list(tps@),
{
    let mut out = String::new();
    let mut i: usize = 0;
    while i < tps.len()
        invariant
            i <= tps@.len(),
            out@ == plain_list(tps@.take(i as int)),
        decreases tps@.len() - i,
    {
        if i > 0 {
            out.append(" , ");
        }
        out.append(tps[i].as_str());
        proof {
            assert(tps@.take(i + 1 as int).drop_last() =~= tps@.take(i as int));
            assert(tps@.take(i + 1 as int).last() == tps@[i as int]);
            assert(out@ =~= plain_list(tps@.take(i + 1 as int)));
        }
        i = i + 1;
    }
    proof {
        assert(tps@.take(tps@.len() as int) =~= tps@);
    }
    out
}

fn render_plain_generics(tps: &Vec<String>) -> (r: String)
    ensures
        r@ == plain_generics_text(tps@),
{
    if tps.len() == 0 {
        return String::new();
    }
    let mut out = String::from_str("< ");
    let l = render_plain_list(tps);
    out.append(l.as_str());
    out.append(" >");
    out
}

/// The bound every type parameter of a lowered aggregate carries.
pub open spec fn class_bound_text() -> Seq<char> {
    " : serde :: de :: DeserializeOwned + serde :: Serialize + Clone + Default + std :: fmt :: Debug"@
}

pub open spec fn impl_list(tps: Seq<String>) -> Seq<char>
    decreases tps.len(),
{
    if tps.len() == 0 {
        Seq::empty()
    } else if tps.len() == 1 {
        tps[0]@ + class_bound_text()
    } else {
        impl_list(tps.drop_last()) + " , "@ + tps.last()@ + class_bound_text()
    }
}

pub open spec fn impl_generics_text(tps: Seq<String>) -> Seq<char> {
    if tps.len() == 0 {
        Seq::empty()
    } else {
        "< "@ + impl_list(tps) + " >"@
    }
}

fn render_impl_generics(tps: &Vec<String>) -> (r: String)
    ensures
        r@ == impl_generics_text(tps@),
{
    if tps.len() == 0 {
        return String::new();
    }
    let mut items = String::new();
    let mut i: usize = 0;
    while i < tps.len()
        invariant
            i <= tps@.len(),
            items@ == impl_list(tps@.take(i as int)),
        decreases tps@.len() - i,
    {
        if i > 0 {
            items.append(" , ");
        }
        items.append(tps[i].as_str());
        items.append(
            " : serde :: de :: DeserializeOwned + serde :: Serialize + Clone + Default + std :: fmt :: Debug",
        );
        proof {
            assert(tps@.take(i + 1 as int).drop_last() =~= tps@.take(i as int));
            assert(tps@.take(i + 1 as int).last() == tps@[i as int]);
            assert(items@ =~= impl_list(tps@.take(i + 1 as int)));
        }
        i = i + 1;
    }
    proof {
        assert(tps@.take(tps@.len() as int) =~= tps@);
    }
    let mut out = String::from_str("< ");
    out.append(items.as_str());
    out.append(" >");
    out
}

/// The phantom type that keeps unused type parameters alive.
pub open spec fn phantom_text(tps: Seq<String>) -> Seq<char> {
    if tps.len() == 1 {
        tps[0]@
    } else {
        "("@ + plain_list(tps) + ")"@
    }
}

/// The hidden marker field of a generic lowered aggregate.
pub open spec fn marker_field_text(tps: Seq<String>) -> Seq<char> {
    "# [serde (skip)] pub _marker : std :: marker :: PhantomData < "@ + phantom_text(tps) + " >"@
}

fn render_marker_field(tps: &Vec<String>) -> (r: String)
    ensures
        r@ == marker_field_text(tps@),
{
    let mut out = String::from_str("# [serde (skip)] pub _marker : std :: marker :: PhantomData < ");
    if tps.len() == 1 {
        out.append(tps[0].as_str());
    } else {
        out.append("(");
        let l = render_plain_list(tps);
        out.append(l.as_str());
        out.append(")");
    }
    out.append(" >");
    out
}

/// All struct fields of a lowered class: declared fields, then fields the
/// constructor's property parameters add, then the marker of a generic
/// class.
pub open spec fn struct_fields_text(c: ClassDecl) -> Seq<char> {
    let a = prop_fields_text(c.members@, c.type_params@);
    let b = match ctor_of(c.members@) {
        Option::Some(c0) => ctor_fields_text(c0.params@, c.type_params@),
        Option::None => Seq::empty(),
    };
    let m = if c.type_params@.len() > 0 {
        marker_field_text(c.type_params@)
    } else {
        Seq::empty()
    };
    comma_merge(comma_merge(a, b), m)
}

/// The derives every lowered aggregate carries.
pub open spec fn derive_text() -> Seq<char> {
    "# [derive (Default , Debug , Clone , PartialEq , serde :: Serialize , serde :: Deserialize)] "@
}

/// The struct definition of a lowered class.
pub open spec fn struct_text(c: ClassDecl, exporting: bool) -> Seq<char> {
    let head = derive_text() + (if exporting {
        "pub struct "@
    } else {
        "struct "@
    }) + c.name@;
    join_tok(head, plain_generics_text(c.type_params@)) + " "@ + brace_wrap(struct_fields_text(c))
}

fn find_ctor(ms: &Vec<ClassMember>) -> (r: Option<&Constructor>)
    ensures
        match r {
            Option::Some(c) => ctor_of(ms@) matches Option::Some(sc) && sc == *c,
            Option::None => ctor_of(ms@) is None,
        },
{
    let mut found: Option<&Constructor> = Option::None;
    let mut i: usize = 0;
    while i < ms.len()
        invariant
            i <= ms@.len(),
            (match found {
                Option::Some(c) => ctor_of(ms@.take(i as int)) matches Option::Some(sc) && sc
                    == *c,
                Option::None => ctor_of(ms@.take(i as int)) is None,
            }),
        decreases ms@.len() - i,
    {
        proof {
            assert(ms@.take(i + 1 as int).drop_last() =~= ms@.take(i as int));
            assert(ms@.take(i + 1 as int).last() == ms@[i as int]);
        }
        match &ms[i] {
            ClassMember::Ctor(c) => {
                found = Option::Some(c);
            },
            _ => {},
        }
        i = i + 1;
    }
    proof {
        assert(ms@.take(ms@.len() as int) =~= ms@);
    }
    found
}

fn render_struct_fields(c: &ClassDecl) -> (r: String)
    ensures
        r@ == struct_fields_text(*c),
{
    let mut out = String::new();
    let mut i: usize = 0;
    while i < c.members.len()
        invariant
            i <= c.members@.len(),
            out@ == prop_fields_text(c.members@.take(i as int), c.type_params@),
        decreases c.members@.len() - i,
    {
        proof {
            assert(c.members@.take(i + 1 as int).drop_last() =~= c.members@.take(i as int));
            assert(c.members@.take(i + 1 as int).last() == c.members@[i as int]);
        }
        match render_prop_field(&c.members[i], &c.type_params) {
            Option::Some(t) => {
                append_comma(&mut out, t.as_str());
                proof {
                    assert(out@ =~= prop_fields_text(
                        c.members@.take(i + 1 as int),
                        c.type_params@,
                    ));
                }
            },
            Option::None => {
                proof {
                    assert(out@ =~= prop_fields_text(
                        c.members@.take(i + 1 as int),
                        c.type_params@,
                    ));
                }
            },
        }
        i = i + 1;
    }
    proof {
        assert(c.members@.take(c.members@.len() as int) =~= c.members@);
    }
    match find_ctor(&c.members) {
        Option::Some(c0) => {
            let mut j: usize = 0;
            let mut cf = String::new();
            while j < c0.params.len()
                invariant
                    j <= c0.params@.len(),
                    cf@ == ctor_fields_text(c0.params@.take(j as int), c.type_params@),
                decreases c0.params@.len() - j,
            {
                proof {
                    assert(c0.params@.take(j + 1 as int).drop_last() =~= c0.params@.take(
                        j as int,
                    ));
                    assert(c0.params@.take(j + 1 as int).last() == c0.params@[j as int]);
                }
                match render_ctor_field(&c0.params[j], &c.type_params) {
                    Option::Some(t) => {
                        append_comma(&mut cf, t.as_str());
                        proof {
                            assert(cf@ =~= ctor_fields_text(
                                c0.params@.take(j + 1 as int),
                                c.type_params@,
                            ));
                        }
                    },
                    Option::None => {
                        proof {
                            assert(cf@ =~= ctor_fields_text(
                                c0.params@.take(j + 1 as int),
                                c.type_params@,
                            ));
                        }
                    },
                }
                j = j + 1;
            }
            proof {
                assert(c0.params@.take(c0.params@.len() as int) =~= c0.params@);
            }
            append_comma(&mut out, cf.as_str());
        },
        Option::None => {},
    }
    if c.type_params.len() > 0 {
        let mk = render_marker_field(&c.type_params);
        append_comma(&mut out, mk.as_str());
    }
    out
}

/// Both lowered constructors of a class that declares one: the direct
/// constructor takes every declared parameter and applies the verbatim
/// field assignments; the injection constructor takes only the
/// dependency-classified parameters and defaults every other field.
pub open spec fn ctor_full_text(ms: Seq<ClassMember>, c0: Constructor, generics: Seq<String>) -> Seq<char> {
    let ps = c0.params@;
    let ss = match c0.body {
        Option::Some(b) => b@,
        Option::None => Seq::empty(),
    };
    let inits0 = comma_merge(
        comma_merge(prop_inits_text(ps), assign_inits_text(ss, ms, ps, generics)),
        missing_opt_text(ms, ps, ss),
    );
    let inits = if generics.len() > 0 {
        comma_merge(inits0, "_marker : std :: marker :: PhantomData"@)
    } else {
        inits0
    };
    if inits.len() == 0 {
        "pub fn new ("@ + ctor_params_text(ps, generics) + ") -> Self "@ + brace_wrap(
            "todo ! (\"Complex constructor not yet supported\")"@,
        )
    } else {
        let di0 = di_param_inits_text(ps, ms, generics);
        let di1 = if generics.len() > 0 {
            comma_merge(di0, "_marker : std :: marker :: PhantomData"@)
        } else {
            di0
        };
        let di = comma_merge(di1, di_defaults_text(ms, ps, ms, generics));
        "pub fn new ("@ + ctor_params_text(ps, generics) + ") -> Self "@ + brace_wrap(
            "Self "@ + brace_wrap(inits),
        ) + " pub fn new_di ("@ + di_params_text(ps, generics) + ") -> Self "@ + brace_wrap(
            "Self "@ + brace_wrap(di),
        )
    }
}

/// The pair of default constructors a class without a declared
/// constructor receives.
pub open spec fn default_ctor_text() -> Seq<char> {
    "pub fn new () -> Self "@ + brace_wrap("Self :: default ()"@) + " pub fn new_di () -> Self "@
        + brace_wrap("Self :: default ()"@)
}

pub open spec fn ctor_item_text(ms: Seq<ClassMember>, generics: Seq<String>) -> Seq<char> {
    match ctor_of(ms) {
        Option::Some(c0) => ctor_full_text(ms, c0, generics),
        Option::None => default_ctor_text(),
    }
}

fn render_prop_inits(ps: &Vec<CtorParam>) -> (r: String)
    ensures
        r@ == prop_inits_text(ps@),
{
    let mut out = String::new();
    let mut i: usize = 0;
    while i < ps.len()
        invariant
            i <= ps@.len(),
            out@ == prop_inits_text(ps@.take(i as int)),
        decreases ps@.len() - i,
    {
        proof {
            assert(ps@.take(i + 1 as int).drop_last() =~= ps@.take(i as int));
            assert(ps@.take(i + 1 as int).last() == ps@[i as int]);
        }
        let is_prop = match ps[i].kind {
            CtorParamKind::PropParam => true,
            CtorParamKind::PlainParam => false,
        };
        if is_prop {
            let sn = to_snake_case(ps[i].name.as_str());
            let mut piece = sn.clone();
            piece.append(" : ");
            piece.append(sn.as_str());
            append_comma(&mut out, piece.as_str());
            proof {
                assert(out@ =~= prop_inits_text(ps@.take(i + 1 as int)));
            }
        } else {
            proof {
                assert(out@ =~= prop_inits_text(ps@.take(i + 1 as int)));
            }
        }
        i = i + 1;
    }
    proof {
        assert(ps@.take(ps@.len() as int) =~= ps@);
    }
    out
}

fn render_ctor_params(ps: &Vec<CtorParam>, generics: &Vec<String>) -> (r: String)
    ensures
        r@ == ctor_params_text(ps@, generics@),
{
    let mut out = String::new();
    let mut i: usize = 0;
    while i < ps.len()
        invariant
            i <= ps@.len(),
            out@ == ctor_params_text(ps@.take(i as int), generics@),
        decreases ps@.len() - i,
    {
        if i > 0 {
            out.append(" , ");
        }
        let piece = render_ctor_param(&ps[i], generics);
        out.append(piece.as_str());
        proof {
            assert(ps@.take(i + 1 as int).drop_last() =~= ps@.take(i as int));
            assert(ps@.take(i + 1 as int).last() == ps@[i as int]);
            assert(out@ =~= ctor_params_text(ps@.take(i + 1 as int), generics@));
        }
        i = i + 1;
    }
    proof {
        assert(ps@.take(ps@.len() as int) =~= ps@);
    }
    out
}

fn render_assign_inits(
    ss: &Vec<Stmt>,
    ms: &Vec<ClassMember>,
    ps: &Vec<CtorParam>,
    generics: &Vec<String>,
) -> (r: String)
    ensures
        r@ == assign_inits_text(ss@, ms@, ps@, generics@),
{
    let mut out = String::new();
    let mut i: usize = 0;
    while i < ss.len()
        invariant
            i <= ss@.len(),
            out@ == assign_inits_text(ss@.take(i as int), ms@, ps@, generics@),
        decreases ss@.len() - i,
    {
        proof {
            assert(ss@.take(i + 1 as int).drop_last() =~= ss@.take(i as int));
            assert(ss@.take(i + 1 as int).last() == ss@[i as int]);
        }
        match render_assign_init(&ss[i], ms, ps, generics) {
            Option::Some(t) => {
                append_comma(&mut out, t.as_str());
                proof {
                    assert(out@ =~= assign_inits_text(ss@.take(i + 1 as int), ms@, ps@, generics@));
                }
            },
            Option::None => {
                proof {
                    assert(out@ =~= assign_inits_text(ss@.take(i + 1 as int), ms@, ps@, generics@));
                }
            },
        }
        i = i + 1;
    }
    proof {
        assert(ss@.take(ss@.len() as int) =~= ss@);
    }
    out
}

fn render_missing_opts(ms: &Vec<ClassMember>, ps: &Vec<CtorParam>, ss: &Vec<Stmt>) -> (r: String)
    ensures
        r@ == missing_opt_text(ms@, ps@, ss@),
{
    let mut out = String::new();
    let mut i: usize = 0;
    while i < ms.len()
        invariant
            i <= ms@.len(),
            out@ == missing_opt_text(ms@.take(i as int), ps@, ss@),
        decreases ms@.len() - i,
    {
        proof {
            assert(ms@.take(i + 1 as int).drop_last() =~= ms@.take(i as int));
            assert(ms@.take(i + 1 as int).last() == ms@[i as int]);
        }
        match render_missing_opt(&ms[i], ps, ss) {
            Option::Some(t) => {
                append_comma(&mut out, t.as_str());
                proof {
                    assert(out@ =~= missing_opt_text(ms@.take(i + 1 as int), ps@, ss@));
                }
            },
            Option::None => {
                proof {
                    assert(out@ =~= missing_opt_text(ms@.take(i + 1 as int), ps@, ss@));
                }
            },
        }
        i = i + 1;
    }
    proof {
        assert(ms@.take(ms@.len() as int) =~= ms@);
    }
    out
}

fn render_di_params(ps: &Vec<CtorParam>, generics: &Vec<String>) -> (r: String)
    ensures
        r@ == di_params_text(ps@, generics@),
{
    let mut out = String::new();
    let mut i: usize = 0;
    while i < ps.len()
        invariant
            i <= ps@.len(),
            out@ == di_params_text(ps@.take(i as int), generics@),
        decreases ps@.len() - i,
    {
        proof {
            assert(ps@.take(i + 1 as int).drop_last() =~= ps@.take(i as int));
            assert(ps@.take(i + 1 as int).last() == ps@[i as int]);
        }
        match render_di_param(&ps[i], generics) {
            Option::Some(t) => {
                append_comma(&mut out, t.as_str());
                proof {
                    assert(out@ =~= di_params_text(ps@.take(i + 1 as int), generics@));
                }
            },
            Option::None => {
                proof {
                    assert(out@ =~= di_params_text(ps@.take(i + 1 as int), generics@));
                }
            },
        }
        i = i + 1;
    }
    proof {
        assert(ps@.take(ps@.len() as int) =~= ps@);
    }
    out
}

fn render_di_param_inits(ps: &Vec<CtorParam>, ms: &Vec<ClassMember>, generics: &Vec<String>) -> (r:
    String)
    ensures
        r@ == di_param_inits_text(ps@, ms@, generics@),
{
    let mut out = String::new();
    let mut i: usize = 0;
    while i < ps.len()
        invariant
            i <= ps@.len(),
            out@ == di_param_inits_text(ps@.take(i as int), ms@, generics@),
        decreases ps@.len() - i,
    {
        proof {
            assert(ps@.take(i + 1 as int).drop_last() =~= ps@.take(i as int));
            assert(ps@.take(i + 1 as int).last() == ps@[i as int]);
        }
        match render_di_init(&ps[i], ms, generics) {
            Option::Some(t) => {
                append_comma(&mut out, t.as_str());
                proof {
                    assert(out@ =~= di_param_inits_text(ps@.take(i + 1 as int), ms@, generics@));
                }
            },
            Option::None => {
                proof {
                    assert(out@ =~= di_param_inits_text(ps@.take(i + 1 as int), ms@, generics@));
                }
            },
        }
        i = i + 1;
    }
    proof {
        assert(ps@.take(ps@.len() as int) =~= ps@);
    }
    out
}

fn render_di_defaults(ms: &Vec<ClassMember>, ps: &Vec<CtorParam>, generics: &Vec<String>) -> (r:
    String)
    ensures
        r@ == di_defaults_text(ms@, ps@, ms@, generics@),
{
    let mut out = String::new();
    let mut i: usize = 0;
    while i < ms.len()
        invariant
            i <= ms@.len(),
            out@ == di_defaults_text(ms@.take(i as int), ps@, ms@, generics@),
        decreases ms@.len() - i,
    {
        proof {
            assert(ms@.take(i + 1 as int).drop_last() =~= ms@.take(i as int));
            assert(ms@.take(i + 1 as int).last() == ms@[i as int]);
        }
        match render_di_default(&ms[i], ps, ms, generics) {
            Option::Some(t) => {
                append_comma(&mut out, t.as_str());
                proof {
                    assert(out@ =~= di_defaults_text(ms@.take(i + 1 as int), ps@, ms@, generics@));
                }
            },
            Option::None => {
                proof {
                    assert(out@ =~= di_defaults_text(ms@.take(i + 1 as int), ps@, ms@, generics@));
                }
            },
        }
        i = i + 1;
    }
    proof {
        assert(ms@.take(ms@.len() as int) =~= ms@);
    }
    out
}

/// Converts the constructors of a class: the declared one into the direct
/// and injection pair, or the default pair where none is declared.
pub fn convert_constructor(ms: &Vec<ClassMember>, generics: &Vec<String>) -> (r: String)
    ensures
        r@ == ctor_item_text(ms@, generics@),
{
    match find_ctor(ms) {
        Option::None => {
            let mut out = String::from_str("pub fn new () -> Self ");
            let b1 = braced("Self :: default ()");
            out.append(b1.as_str());
            out.append(" pub fn new_di () -> Self ");
            let b2 = braced("Self :: default ()");
            out.append(b2.as_str());
            proof {
                assert(out@ =~= default_ctor_text());
            }
            out
        },
        Option::Some(c0) => {
            let empty_ss: Vec<Stmt> = Vec::new();
            let ss: &Vec<Stmt> = match &c0.body {
                Option::Some(b) => b,
                Option::None => &empty_ss,
            };
            let mut inits = render_prop_inits(&c0.params);
            let ai = render_assign_inits(ss, ms, &c0.params, generics);
            append_comma(&mut inits, ai.as_str());
            let mo = render_missing_opts(ms, &c0.params, ss);
            append_comma(&mut inits, mo.as_str());
            if generics.len() > 0 {
                append_comma(&mut inits, "_marker : std :: marker :: PhantomData");
            }
            let params = render_ctor_params(&c0.params, generics);
            if inits.as_str().unicode_len() == 0 {
                let mut out = String::from_str("pub fn new (");
                out.append(params.as_str());
                out.append(") -> Self ");
                let b = braced("todo ! (\"Complex constructor not yet supported\")");
                out.append(b.as_str());
                proof {
                    assert(out@ =~= ctor_item_text(ms@, generics@));
                }
                out
            } else {
                let mut di = render_di_param_inits(&c0.params, ms, generics);
                if generics.len() > 0 {
                    append_comma(&mut di, "_marker : std :: marker :: PhantomData");
                }
                let dd = render_di_defaults(ms, &c0.params, generics);
                append_comma(&mut di, dd.as_str());
                let di_params = render_di_params(&c0.params, generics);
                let mut out = String::from_str("pub fn new (");
                out.append(params.as_str());
                out.append(") -> Self ");
                let mut body1 = String::from_str("Self ");
                let ib = braced(inits.as_str());
                body1.append(ib.as_str());
                let b1 = braced(body1.as_str());
                out.append(b1.as_str());
                out.append(" pub fn new_di (");
                out.append(di_params.as_str());
                out.append(") -> Self ");
                let mut body2 = String::from_str("Self ");
                let db = braced(di.as_str());
                body2.append(db.as_str());
                let b2 = braced(body2.as_str());
                out.append(b2.as_str());
                proof {
                    assert(out@ =~= ctor_item_text(ms@, generics@));
                }
                out
            }
        },
    }
}

/// One route registration of the lowered router.
pub open spec fn route_call_piece(
    m: ClassMethod,
    prefix: Seq<char>,
) -> Option<Seq<char>> {
    let hp = http_fold(m.decorators@);
    match hp.0 {
        Option::Some(http) => Option::Some(
            ". route ("@ + crate::text::lit_str_text(compose_route_text(prefix, hp.1))
                + " , axum :: routing :: "@ + verb_lower(http) + " (Self :: "@ + snake_text(
                m.name@,
            ) + "))"@,
        ),
        Option::None => Option::None,
    }
}

pub open spec fn route_calls_text(ms: Seq<ClassMember>, prefix: Seq<char>) -> Seq<char>
    decreases ms.len(),
{
    if ms.len() == 0 {
        Seq::empty()
    } else {
        let prev = route_calls_text(ms.drop_last(), prefix);
        match ms.last() {
            ClassMember::Method(m) => match route_call_piece(m, prefix) {
                Option::Some(t) => join_tok(prev, t),
                Option::None => prev,
            },
            _ => prev,
        }
    }
}

/// The router of a controller: one registration per handler, each path
/// combined with the controller prefix.
pub open spec fn router_text(ms: Seq<ClassMember>, prefix: Seq<char>) -> Seq<char> {
    "pub fn router () -> axum :: Router "@ + brace_wrap(
        join_tok("axum :: Router :: new ()"@, route_calls_text(ms, prefix)),
    )
}

/// The lowered methods of a class, in declaration order.
pub open spec fn methods_text(ms: Seq<ClassMember>) -> Seq<char>
    decreases ms.len(),
{
    if ms.len() == 0 {
        Seq::empty()
    } else {
        let prev = methods_text(ms.drop_last());
        match ms.last() {
            ClassMember::Method(m) => join_tok(prev, method_text(m)),
            _ => prev,
        }
    }
}

/// The extractor impl that lets the generated runtime hand a controller
/// value to its own handlers.
pub open spec fn from_request_text(name: Seq<char>) -> Seq<char> {
    "# [axum :: async_trait] impl < S > axum :: extract :: FromRequestParts < S > for "@ + name
        + " where S : Send + Sync { type Rejection = std :: convert :: Infallible ; async fn from_request_parts (parts : & mut axum :: http :: request :: Parts , state : & S) -> Result < Self , Self :: Rejection > { let axum :: Extension (controller) = axum :: Extension :: < std :: sync :: Arc < Self > > :: from_request_parts (parts , state) . await . expect (\"Controller extension missing\") ; Ok (controller . as_ref () . clone ()) } }"@
}

/// The impl block of a lowered class: constructors, methods, and, for a
/// controller, the router.
pub open spec fn impl_text(c: ClassDecl) -> Seq<char> {
    let cf = ctrl_fold(c.decorators@);
    let items0 = join_tok(
        ctor_item_text(c.members@, c.type_params@),
        methods_text(c.members@),
    );
    let items = if cf.0 {
        join_tok(items0, router_text(c.members@, cf.1))
    } else {
        items0
    };
    join_tok(
        join_tok(join_tok("impl"@, impl_generics_text(c.type_params@)), c.name@),
        plain_generics_text(c.type_params@),
    ) + " "@ + brace_wrap(items)
}

/// The whole lowered text of one class: the aggregate, the extractor impl
/// of a controller, and the operations impl, each on its own line.
pub open spec fn class_text(c: ClassDecl, exporting: bool) -> Seq<char> {
    let cf = ctrl_fold(c.decorators@);
    struct_text(c, exporting) + "\n"@ + (if cf.0 {
        from_request_text(c.name@) + "\n"@
    } else {
        Seq::empty()
    }) + impl_text(c) + "\n"@
}

fn render_methods(ms: &Vec<ClassMember>) -> (r: String)
    ensures
        r@ == methods_text(ms@),
{
    let mut out = String::new();
    let mut i: usize = 0;
    while i < ms.len()
        invariant
            i <= ms@.len(),
            out@ == methods_text(ms@.take(i as int)),
        decreases ms@.len() - i,
    {
        proof {
            assert(ms@.take(i + 1 as int).drop_last() =~= ms@.take(i as int));
            assert(ms@.take(i + 1 as int).last() == ms@[i as int]);
        }
        match &ms[i] {
            ClassMember::Method(m) => {
                let mt = convert_method(m);
                crate::text::append_tok(&mut out, mt.0.as_str());
                proof {
                    assert(out@ =~= methods_text(ms@.take(i + 1 as int)));
                }
            },
            _ => {
                proof {
                    assert(out@ =~= methods_text(ms@.take(i + 1 as int)));
                }
            },
        }
        i = i + 1;
    }
    proof {
        assert(ms@.take(ms@.len() as int) =~= ms@);
    }
    out
}

fn render_route_calls(ms: &Vec<ClassMember>, prefix: &str) -> (r: String)
    ensures
        r@ == route_calls_text(ms@, prefix@),
{
    let mut out = String::new();
    let mut i: usize = 0;
    while i < ms.len()
        invariant
            i <= ms@.len(),
            out@ == route_calls_text(ms@.take(i as int), prefix@),
        decreases ms@.len() - i,
    {
        proof {
            assert(ms@.take(i + 1 as int).drop_last() =~= ms@.take(i as int));
            assert(ms@.take(i + 1 as int).last() == ms@[i as int]);
        }
        match &ms[i] {
            ClassMember::Method(m) => {
                let hp = http_fold_exec(&m.decorators);
                match hp.0 {
                    Option::Some(http) => {
                        let mut piece = String::from_str(". route (");
                        let fp = compose_route(prefix, hp.1.as_str());
                        let lit = crate::text::string_literal(fp.as_str());
                        piece.append(lit.as_str());
                        piece.append(" , axum :: routing :: ");
                        let vb = verb_lower_exec(http.as_str());
                        piece.append(vb.as_str());
                        piece.append(" (Self :: ");
                        let sn = to_snake_case(m.name.as_str());
                        piece.append(sn.as_str());
                        piece.append("))");
                        crate::text::append_tok(&mut out, piece.as_str());
                        proof {
                            assert(piece@ =~= route_call_piece(ms@[i as int]->Method_0, prefix@).unwrap());
                            assert(out@ =~= route_calls_text(ms@.take(i + 1 as int), prefix@));
                        }
                    },
                    Option::None => {
                        proof {
                            assert(out@ =~= route_calls_text(ms@.take(i + 1 as int), prefix@));
                        }
                    },
                }
            },
            _ => {
                proof {
                    assert(out@ =~= route_calls_text(ms@.take(i + 1 as int), prefix@));
                }
            },
        }
        i = i + 1;
    }
    proof {
        assert(ms@.take(ms@.len() as int) =~= ms@);
    }
    out
}

fn render_struct_def(c: &ClassDecl, exporting: bool) -> (r: String)
    ensures
        r@ == struct_text(*c, exporting),
{
    let mut out = String::from_str(
        "# [derive (Default , Debug , Clone , PartialEq , serde :: Serialize , serde :: Deserialize)] ",
    );
    if exporting {
        out.append("pub struct ");
    } else {
        out.append("struct ");
    }
    out.append(c.name.as_str());
    if c.type_params.len() > 0 {
        let g = render_plain_generics(&c.type_params);
        crate::text::append_tok(&mut out, g.as_str());
    }
    out.append(" ");
    let fields = render_struct_fields(c);
    let fb = braced(fields.as_str());
    out.append(fb.as_str());
    proof {
        assert(out@ =~= struct_text(*c, exporting));
    }
    out
}

fn render_impl_block(c: &ClassDecl, is_ctrl: bool, prefix: &str) -> (r: String)
    requires
        is_ctrl == ctrl_fold(c.decorators@).0,
        prefix@ == ctrl_fold(c.decorators@).1,
    ensures
        r@ == impl_text(*c),
{
    let mut items = convert_constructor(&c.members, &c.type_params);
    let mt = render_methods(&c.members);
    crate::text::append_tok(&mut items, mt.as_str());
    if is_ctrl {
        let rc = render_route_calls(&c.members, prefix);
        let mut router = String::from_str("pub fn router () -> axum :: Router ");
        let mut rb = String::from_str("axum :: Router :: new ()");
        crate::text::append_tok(&mut rb, rc.as_str());
        let rbb = braced(rb.as_str());
        router.append(rbb.as_str());
        proof {
            assert(router@ =~= router_text(c.members@, prefix@));
        }
        crate::text::append_tok(&mut items, router.as_str());
    }
    let mut ib = String::from_str("impl");
    if c.type_params.len() > 0 {
        let ig = render_impl_generics(&c.type_params);
        crate::text::append_tok(&mut ib, ig.as_str());
    }
    crate::text::append_tok(&mut ib, c.name.as_str());
    if c.type_params.len() > 0 {
        let ug = render_plain_generics(&c.type_params);
        crate::text::append_tok(&mut ib, ug.as_str());
    }
    ib.append(" ");
    let ibb = braced(items.as_str());
    ib.append(ibb.as_str());
    proof {
        assert(ib@ =~= impl_text(*c));
    }
    ib
}

/// Converts one class declaration; beside the text, the results say
/// whether the class is a controller and under which route prefix.
pub fn process_class_decl(c: &ClassDecl, exporting: bool) -> (r: (String, bool, String))
    ensures
        r.0@ == class_text(*c, exporting),
        r.1 == ctrl_fold(c.decorators@).0,
        r.2@ == ctrl_fold(c.decorators@).1,
{
    let cf = ctrl_fold_exec(&c.decorators);
    let mut out = render_struct_def(c, exporting);
    out.append("\n");
    if cf.0 {
        out.append(
            "# [axum :: async_trait] impl < S > axum :: extract :: FromRequestParts < S > for ",
        );
        out.append(c.name.as_str());
        out.append(
            " where S : Send + Sync { type Rejection = std :: convert :: Infallible ; async fn from_request_parts (parts : & mut axum :: http :: request :: Parts , state : & S) -> Result < Self , Self :: Rejection > { let axum :: Extension (controller) = axum :: Extension :: < std :: sync :: Arc < Self > > :: from_request_parts (parts , state) . await . expect (\"Controller extension missing\") ; Ok (controller . as_ref () . clone ()) } }",
        );
        out.append("\n");
    }
    let ib = render_impl_block(c, cf.0, cf.1.as_str());
    out.append(ib.as_str());
    out.append("\n");
    proof {
        assert(out@ =~= class_text(*c, exporting));
    }
    (out, cf.0, cf.1)
}

/// A constructor parameter typed as a previously declared component — a
/// reference type whose name is off the primitive allow-list and is not a
/// local type parameter — is classified as a dependency, and both
/// generated constructors take it behind a shared handle.
pub proof fn lemma_dependency_param_shared(c: ClassDecl, ct: Constructor, i: int)
    requires
        ctor_of(c.members@) == Option::Some(ct),
        0 <= i < ct.params@.len(),
        ct.params@[i].type_ann matches Option::Some(t) && (t matches SourceType::Reference(n, _)
            && !allowlisted(n@) && !contains_name(c.type_params@, n@)),
    ensures
        dep_of(ct.params@[i].type_ann, c.type_params@),
        ctor_param_piece(ct.params@[i], c.type_params@) == (match ct.params@[i].kind {
            CtorParamKind::PropParam => snake_text(ct.params@[i].name@),
            CtorParamKind::PlainParam => ct.params@[i].name@,
        }) + " : "@ + ("std :: sync :: Arc < "@ + opt_mapped_text(ct.params@[i].type_ann)
            + " >"@),
        di_param_piece(ct.params@[i], c.type_params@) matches Option::Some(p) && p == (
        match ct.params@[i].kind {
            CtorParamKind::PropParam => snake_text(ct.params@[i].name@),
            CtorParamKind::PlainParam => ct.params@[i].name@,
        }) + " : "@ + ("std :: sync :: Arc < "@ + opt_mapped_text(ct.params@[i].type_ann)
            + " >"@),
{
    assert(dep_of(ct.params@[i].type_ann, c.type_params@));
}

} // verus!
