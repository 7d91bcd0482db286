use vstd::prelude::*;

use crate::ast::Arg;
use crate::ast::ArrowBody;
use crate::ast::ArrowParam;
use crate::ast::AssignOp;
use crate::ast::AssignTarget;
use crate::ast::BinOp;
use crate::ast::Callee;
use crate::ast::Expr;
use crate::ast::FnDecl;
use crate::ast::FnParam;
use crate::ast::Lit;
use crate::ast::MemberProp;
use crate::ast::Prop;
use crate::ast::SourceType;
use crate::ast::Stmt;
use crate::ast::UnOp;
use crate::ast::UpdateOp;
use crate::ast::VarDeclarator;
use crate::ast::VarKind;
use crate::names::char_is_uppercase;
use crate::names::is_upper_char;
use crate::names::snake_text;
use crate::names::to_snake_case;
use crate::stdlib::array::array_m_text;
use crate::stdlib::console::console_text;
use crate::stdlib::json::json_text;
use crate::stdlib::math::math_text;
use crate::stdlib::string::string_m_text;
use crate::text::brace_wrap;
use crate::text::braced;
use crate::text::int_prefix;
use crate::text::int_prefix_of;
use crate::text::join_tok;
use crate::text::lit_str_text;
use crate::text::lower_text;
use crate::text::str_eq;
use crate::text::string_literal;
use crate::text::to_lower_text;
use crate::type_mapper::full_mapped_text;
use crate::type_mapper::inner_mapped_text;
use crate::type_mapper::lemma_inner_maps_text;
use crate::type_mapper::lemma_opt_maps_text;
use crate::type_mapper::map_inner_type;
use crate::type_mapper::map_ts_type;
use crate::type_mapper::opt_mapped_text;
use crate::type_mapper::render_target_type;

verus! {

/// How a return statement is rewritten while a body is traversed: callers
/// choose the wrapping without reimplementing the traversal.
#[derive(Debug, Clone, Copy, PartialEq, Eq)]
pub enum ReturnRewrite {
    /// A plain function body; the flag says whether it returns no value.
    SyncFn(bool),
    /// An async function body, whose returns are wrapped in the ok case.
    AsyncFn(bool),
    /// A route handler whose payload is wrapped in the structured response.
    HandlerJson,
    /// A route handler returning plain text.
    HandlerPlain,
    /// An async method, whose returns are wrapped in the ok case.
    AsyncMethod,
}

/// The token of a supported binary operator; the unsupported case never
/// reaches this table, since the whole expression becomes a marker.
pub open spec fn op_text(op: BinOp) -> Seq<char> {
    match op {
        BinOp::Add => "+"@,
        BinOp::Sub => "-"@,
        BinOp::Mul => "*"@,
        BinOp::Div => "/"@,
        BinOp::EqEq => "=="@,
        BinOp::NotEq => "!="@,
        BinOp::Lt => "<"@,
        BinOp::LtEq => "<="@,
        BinOp::Gt => ">"@,
        BinOp::GtEq => ">="@,
        BinOp::And => "&&"@,
        BinOp::Or => "||"@,
        BinOp::Other => Seq::empty(),
    }
}

pub open spec fn lit_text(l: Lit) -> Seq<char> {
    match l {
        Lit::Num(d) => d@ + "f64"@,
        Lit::Str(s) => "String :: from ("@ + lit_str_text(s@) + ")"@,
        Lit::Bool(b) => if b {
            "true"@
        } else {
            "false"@
        },
        Lit::Other => "todo ! (\"unsupported literal\")"@,
    }
}

/// The rendered form of an identifier: the undefined keyword becomes the
/// empty option, a capitalized name passes through as a type or class name,
/// and any other name is snake-cased.
pub open spec fn ident_text(n: Seq<char>) -> Seq<char> {
    if n == "undefined"@ {
        "None"@
    } else if n.len() > 0 && is_upper_char(n[0]) {
        n
    } else {
        snake_text(n)
    }
}

/// The expression with every grouping layer removed.
pub open spec fn strip_parens(e: Expr) -> Expr
    decreases e,
{
    match e {
        Expr::Paren(i) => strip_parens(*i),
        _ => e,
    }
}

/// Instance methods whose call result is borrowed when it stands right of a
/// textual concatenation.
pub open spec fn is_borrow_method(m: Seq<char>) -> bool {
    ||| m == "toString"@
    ||| m == "toUpperCase"@
    ||| m == "toLowerCase"@
    ||| m == "trim"@
    ||| m == "replace"@
    ||| m == "join"@
    ||| m == "repeat"@
    ||| m == "slice"@
    ||| m == "substring"@
    ||| m == "substr"@
}

/// Whether the expression is a call of the text constructor, one of the two
/// shapes the concatenation heuristic takes as statically string-typed.
pub open spec fn is_string_from_call(e: Expr) -> bool {
    e matches Expr::Call(Callee::ExprCallee(c), _, _) && (*c matches Expr::Member(o, p) && (
    *o matches Expr::Ident(s) && s@ == "String"@ && (p matches MemberProp::Named(m) && m@
        == "from"@)))
}

/// Whether the left operand of a concatenation is statically identifiable
/// as string-typed: a text-constructor call or a string literal, through
/// any grouping.
pub open spec fn left_is_string(l: Expr) -> bool {
    is_string_from_call(strip_parens(l)) || strip_parens(l) matches Expr::Lit(Lit::Str(_))
}

/// Whether the right operand is a call of a borrow-worthy instance method.
pub open spec fn is_borrow_method_call(r: Expr) -> bool {
    r matches Expr::Call(Callee::ExprCallee(c), _, _) && (*c matches Expr::Member(_, p) && (
    p matches MemberProp::Named(m) && is_borrow_method(m@)))
}

/// The outbound HTTP call for a recognized get with an optional decoded
/// payload type.
pub open spec fn axios_get_text(url: Seq<char>, targ: Option<SourceType>) -> Seq<char> {
    match targ {
        Option::Some(t) => "reqwest :: Client :: new () . get ("@ + url
            + ") . send () . await ? . json :: < "@ + inner_mapped_text(t) + " > ()"@,
        Option::None => "reqwest :: Client :: new () . get ("@ + url + ") . send () . await ?"@,
    }
}

/// The rendered text of an expression of the surface language, token by
/// token; every expression has a rendering, with an explicit marker where
/// no translation rule exists.
pub open spec fn expr_text(e: Expr) -> Seq<char>
    decreases e, 3int,
{
    match e {
        Expr::This => "self"@,
        Expr::Ident(n) => ident_text(n@),
        Expr::Lit(l) => lit_text(l),
        Expr::Bin(_, _, _) => bin_text(e),
        Expr::Unary(op, a) => match op {
            UnOp::Not => "! "@ + expr_text(*a),
            UnOp::Neg => "- "@ + expr_text(*a),
            UnOp::Plus => "+ "@ + expr_text(*a),
            UnOp::Other => "todo ! (\"unsupported unary op\")"@,
        },
        Expr::Member(_, _) => member_text(e),
        Expr::Call(_, _, _) => call_text(e),
        Expr::New(c, args) => expr_text(*c) + " :: new ("@ + args_text(args@) + ")"@,
        Expr::Object(ps) => "serde_json :: json ! ("@ + brace_wrap(props_text(ps@)) + ")"@,
        Expr::Array(es) => "vec ! ["@ + elems_text(es@) + "]"@,
        Expr::Tpl(qs, xs) => {
            let fmt = lit_str_text(tpl_fmt(qs@, xs@.len() as int));
            if xs.len() == 0 {
                "format ! ("@ + fmt + " ,)"@
            } else {
                "format ! ("@ + fmt + " , "@ + tpl_args_text(xs@) + ")"@
            }
        },
        Expr::Arrow(ps, body, _) => {
            let bt = match body {
                ArrowBody::BlockBody(ss) => brace_wrap(stmts_text(ss@)),
                ArrowBody::ExprBody(be) => expr_text(*be),
            };
            join_tok(join_tok(join_tok("|"@, arrow_params_text(ps@, Option::None)), "|"@), bt)
        },
        Expr::Update(op, a) => expr_text(*a) + (match op {
            UpdateOp::Incr => " += 1f64"@,
            UpdateOp::Decr => " -= 1f64"@,
        }),
        Expr::Assign(op, t, v) => match op {
            AssignOp::Other => "todo ! (\"unsupported assign op\")"@,
            _ => assign_target_text(t) + (match op {
                AssignOp::AddAssign => " += "@,
                AssignOp::SubAssign => " -= "@,
                _ => " = "@,
            }) + expr_text(*v),
        },
        Expr::Await(a) => expr_text(*a) + " . await ?"@,
        _ => "todo ! ()"@,
    }
}

/// The rendering of a binary expression, with the concatenation heuristic:
/// when either side of an addition looks string-typed, the right operand is
/// borrowed or stringified so that the generated concatenation type-checks.
/// An operator without a rule leaves an explicit marker in place of the
/// whole expression.
pub open spec fn bin_text(e: Expr) -> Seq<char>
    decreases e, 2int,
{
    match e {
        Expr::Bin(op, l, r) => if op == BinOp::Other {
            "todo ! (\"unsupported operator\")"@
        } else {
            let lt = expr_text(*l);
            let rt = expr_text(*r);
            let rt2 = if op == BinOp::Add {
                if is_borrow_method_call(*r) {
                    "& "@ + rt
                } else if left_is_string(*l) {
                    match strip_parens(*r) {
                        Expr::Lit(li) => if li matches Lit::Num(_) {
                            "& "@ + rt + " . to_string ()"@
                        } else {
                            rt
                        },
                        Expr::Call(_, _, _) => "& "@ + rt + " . to_string ()"@,
                        Expr::Ident(_) => "& "@ + rt,
                        _ => rt,
                    }
                } else if *r matches Expr::Ident(_) {
                    "& "@ + rt
                } else {
                    rt
                }
            } else {
                rt
            };
            join_tok(join_tok(lt, op_text(op)), rt2)
        },
        _ => Seq::empty(),
    }
}

/// The rendering of a member access: an implicit-receiver field read turns
/// into a receiver-qualified clone, and a numeric subscript becomes a
/// machine index.
pub open spec fn member_text(e: Expr) -> Seq<char>
    decreases e, 2int,
{
    match e {
        Expr::Member(obj, prop) => {
            if *obj matches Expr::This && prop matches MemberProp::Named(_) {
                match prop {
                    MemberProp::Named(p) => "self . "@ + snake_text(p@) + " . clone ()"@,
                    _ => Seq::empty(),
                }
            } else {
                let ot = expr_text(*obj);
                match prop {
                    MemberProp::Named(p) => ot + " . "@ + snake_text(p@),
                    MemberProp::Computed(ce) => match *ce {
                        Expr::Lit(li) => match li {
                            Lit::Num(d) => ot + " ["@ + int_prefix(d@) + "usize]"@,
                            _ => ot + " ["@ + expr_text(*ce) + "]"@,
                        },
                        _ => ot + " ["@ + expr_text(*ce) + "]"@,
                    },
                    MemberProp::Other => "todo ! (\"complex member access\")"@,
                }
            }
        },
        _ => Seq::empty(),
    }
}

/// The rendering of a call: well-known namespace calls are dispatched to
/// native equivalents first, then instance-method rewrites, then the two
/// outbound HTTP shapes, and finally the generic call form.
pub open spec fn call_text(e: Expr) -> Seq<char>
    decreases e, 2int,
{
    match e {
        Expr::Call(c, args, targ) => match c {
            Callee::Other => "unknown_callee ("@ + args_text(args@) + ")"@,
            Callee::ExprCallee(ce) => match *ce {
                Expr::Member(obj, prop) => match prop {
                    MemberProp::Named(p) => {
                        let generic = expr_text(*ce) + " ("@ + args_text(args@) + ")"@;
                        match *obj {
                            Expr::Ident(o) => {
                                if o@ == "JSON"@ && json_text(p@, args@) matches Option::Some(_) {
                                    json_text(p@, args@).unwrap()
                                } else if o@ == "axios"@ && p@ == "get"@ && args.len() > 0 {
                                    axios_get_text(expr_text(args[0].expr), targ)
                                } else if o@ == "console"@ && console_text(p@, args@)
                                    matches Option::Some(_) {
                                    console_text(p@, args@).unwrap()
                                } else if o@ == "Math"@ && math_text(p@, args@)
                                    matches Option::Some(_) {
                                    math_text(p@, args@).unwrap()
                                } else if array_m_text(expr_text(*obj), p@, args@)
                                    matches Option::Some(_) {
                                    array_m_text(expr_text(*obj), p@, args@).unwrap()
                                } else if string_m_text(expr_text(*obj), p@, args@)
                                    matches Option::Some(_) {
                                    string_m_text(expr_text(*obj), p@, args@).unwrap()
                                } else if o@ == "axios"@ {
                                    axios_call_text(lower_text(p@), args@)
                                } else {
                                    generic
                                }
                            },
                            _ => {
                                if array_m_text(expr_text(*obj), p@, args@)
                                    matches Option::Some(_) {
                                    array_m_text(expr_text(*obj), p@, args@).unwrap()
                                } else if string_m_text(expr_text(*obj), p@, args@)
                                    matches Option::Some(_) {
                                    string_m_text(expr_text(*obj), p@, args@).unwrap()
                                } else {
                                    generic
                                }
                            },
                        }
                    },
                    _ => expr_text(*ce) + " ("@ + args_text(args@) + ")"@,
                },
                Expr::Ident(f) => if f@ == "fetch"@ {
                    fetch_text(args@)
                } else {
                    expr_text(*ce) + " ("@ + args_text(args@) + ")"@
                },
                _ => expr_text(*ce) + " ("@ + args_text(args@) + ")"@,
            },
        },
        _ => Seq::empty(),
    }
}

/// The outbound HTTP call for any recognized verb, threading the address
/// and, for writing verbs, the payload.
pub open spec fn axios_call_text(ml: Seq<char>, args: Seq<Arg>) -> Seq<char>
    decreases args, 2int,
{
    if args.len() == 0 {
        "reqwest :: Client :: new () . "@ + ml + " (\"\") . send () . await ?"@
    } else {
        let url = expr_text(args[0].expr);
        if (ml == "post"@ || ml == "put"@) && args.len() > 1 {
            "reqwest :: Client :: new () . "@ + ml + " ("@ + url + ") . json (& "@ + expr_text(
                args[1].expr,
            ) + ") . send () . await ?"@
        } else {
            "reqwest :: Client :: new () . "@ + ml + " ("@ + url + ") . send () . await ?"@
        }
    }
}

/// The native client call for the one-argument fetch shape.
pub open spec fn fetch_text(args: Seq<Arg>) -> Seq<char>
    decreases args, 2int,
{
    if args.len() == 0 {
        "reqwest :: get (\"\")"@
    } else {
        "reqwest :: get ("@ + expr_text(args[0].expr) + ")"@
    }
}

/// The rendering of an assignment's left side.
pub open spec fn assign_target_text(t: AssignTarget) -> Seq<char>
    decreases t, 2int,
{
    match t {
        AssignTarget::Ident(n) => snake_text(n@),
        AssignTarget::Member(obj, prop) => match prop {
            MemberProp::Named(p) => expr_text(*obj) + " . "@ + p@,
            MemberProp::Computed(ce) => match *ce {
                Expr::Lit(li) => match li {
                    Lit::Num(d) => expr_text(*obj) + " ["@ + int_prefix(d@) + "usize]"@,
                    _ => expr_text(*obj) + " ["@ + expr_text(*ce) + "]"@,
                },
                _ => expr_text(*obj) + " ["@ + expr_text(*ce) + "]"@,
            },
            MemberProp::Other => "todo ! (\"complex member assignment\")"@,
        },
        AssignTarget::Other => "todo ! (\"unsupported assign target\")"@,
    }
}

/// Call arguments, comma-separated; a spread mark changes nothing in the
/// rendering itself.
pub open spec fn args_text(args: Seq<Arg>) -> Seq<char>
    decreases args, 1int,
{
    if args.len() == 0 {
        Seq::empty()
    } else if args.len() == 1 {
        expr_text(args[0].expr)
    } else {
        args_text(args.drop_last()) + " , "@ + expr_text(args.last().expr)
    }
}

/// Interpolated expressions of a template, comma-separated.
pub open spec fn tpl_args_text(xs: Seq<Expr>) -> Seq<char>
    decreases xs, 1int,
{
    if xs.len() == 0 {
        Seq::empty()
    } else if xs.len() == 1 {
        expr_text(xs[0])
    } else {
        tpl_args_text(xs.drop_last()) + " , "@ + expr_text(xs.last())
    }
}

/// The format string of a lowered template: the fixed parts in order, with
/// one placeholder after each part that an expression follows.
pub open spec fn tpl_fmt(qs: Seq<String>, nexprs: int) -> Seq<char>
    decreases qs.len(),
{
    if qs.len() == 0 {
        Seq::empty()
    } else {
        tpl_fmt(qs.drop_last(), nexprs) + qs.last()@ + (if qs.len() - 1 < nexprs {
            "{}"@
        } else {
            Seq::empty()
        })
    }
}

/// Elements of an array literal; a hole becomes an explicit null.
pub open spec fn elem_piece(e: Option<Arg>) -> Seq<char>
    decreases e, 2int,
{
    match e {
        Option::Some(a) => expr_text(a.expr),
        Option::None => "serde_json :: Value :: Null"@,
    }
}

pub open spec fn elems_text(es: Seq<Option<Arg>>) -> Seq<char>
    decreases es, 1int,
{
    if es.len() == 0 {
        Seq::empty()
    } else if es.len() == 1 {
        elem_piece(es[0])
    } else {
        elems_text(es.drop_last()) + " , "@ + elem_piece(es.last())
    }
}

/// One property of a lowered object literal, if it has a rendering; an
/// explicit undefined value becomes a null.
pub open spec fn prop_piece(p: Prop) -> Option<Seq<char>>
    decreases p, 2int,
{
    match p {
        Prop::KeyValue(k, v) => Option::Some(
            lit_str_text(k@) + " : "@ + (if v matches Expr::Ident(n) && n@ == "undefined"@ {
                "serde_json :: Value :: Null"@
            } else {
                expr_text(v)
            }),
        ),
        Prop::Shorthand(k) => Option::Some(lit_str_text(k@) + " : "@ + snake_text(k@)),
        Prop::Other => Option::None,
    }
}

pub open spec fn props_text(ps: Seq<Prop>) -> Seq<char>
    decreases ps, 1int,
{
    if ps.len() == 0 {
        Seq::empty()
    } else {
        let prev = props_text(ps.drop_last());
        match prop_piece(ps.last()) {
            Option::None => prev,
            Option::Some(t) => if prev.len() == 0 {
                t
            } else {
                prev + " , "@ + t
            },
        }
    }
}

/// One parameter of a lowered arrow function; the hint types the first
/// unannotated parameter when the caller supplies one.
pub open spec fn arrow_param_piece(p: ArrowParam, hint: Option<Seq<char>>) -> Seq<char> {
    match p {
        ArrowParam::Ident(n, ann) => match ann {
            Option::Some(t) => snake_text(n@) + " : "@ + full_mapped_text(t),
            Option::None => match hint {
                Option::Some(h) => snake_text(n@) + " : "@ + h,
                Option::None => snake_text(n@),
            },
        },
        ArrowParam::Other => "_"@,
    }
}

pub open spec fn arrow_params_text(ps: Seq<ArrowParam>, hint: Option<Seq<char>>) -> Seq<char>
    decreases ps.len(),
{
    if ps.len() == 0 {
        Seq::empty()
    } else {
        let piece = arrow_param_piece(
            ps.last(),
            if ps.len() == 1 {
                hint
            } else {
                Option::None
            },
        );
        if ps.len() == 1 {
            piece
        } else {
            arrow_params_text(ps.drop_last(), hint) + " , "@ + piece
        }
    }
}

/// One lowered variable declarator: an immutable binding for a constant,
/// a mutable one otherwise.
pub open spec fn decl_text(k: VarKind, d: VarDeclarator) -> Seq<char>
    decreases d, 2int,
{
    match d.init {
        Option::Some(e) => (match k {
            VarKind::Const => "let "@,
            _ => "let mut "@,
        }) + snake_text(d.name@) + " = "@ + expr_text(e) + " ;"@,
        Option::None => "let mut "@ + snake_text(d.name@) + " ;"@,
    }
}

pub open spec fn var_decls_text(k: VarKind, ds: Seq<VarDeclarator>) -> Seq<char>
    decreases ds, 1int,
{
    if ds.len() == 0 {
        Seq::empty()
    } else {
        join_tok(var_decls_text(k, ds.drop_last()), decl_text(k, ds.last()))
    }
}

/// The rendered text of a statement; a statement kind without a rule
/// leaves an explicit marker, so the gap surfaces when the generated
/// program is built rather than silently dropping code.
pub open spec fn stmt_text(s: Stmt) -> Seq<char>
    decreases s, 3int,
{
    match s {
        Stmt::Return(a) => match a {
            Option::Some(e) => "return "@ + expr_text(e) + " ;"@,
            Option::None => "return ;"@,
        },
        Stmt::ExprStmt(e) => expr_text(e) + " ;"@,
        Stmt::VarDecl(k, ds) => var_decls_text(k, ds@),
        Stmt::Block(ss) => brace_wrap(stmts_text(ss@)),
        Stmt::If(t, c, alt) => {
            let cb = if *c matches Stmt::Block(_) {
                stmt_text(*c)
            } else {
                brace_wrap(stmt_text(*c))
            };
            let base = "if "@ + expr_text(t) + " "@ + cb;
            match alt {
                Option::Some(a) => {
                    let ab = if *a matches Stmt::Block(_) || *a matches Stmt::If(_, _, _) {
                        stmt_text(*a)
                    } else {
                        brace_wrap(stmt_text(*a))
                    };
                    base + " else "@ + ab
                },
                Option::None => base,
            }
        },
        Stmt::While(t, b) => {
            let bb = if *b matches Stmt::Block(_) {
                stmt_text(*b)
            } else {
                brace_wrap(stmt_text(*b))
            };
            "while "@ + expr_text(t) + " "@ + bb
        },
        Stmt::Other => "todo ! (\"unsupported statement\") ;"@,
    }
}

pub open spec fn stmts_text(ss: Seq<Stmt>) -> Seq<char>
    decreases ss, 1int,
{
    if ss.len() == 0 {
        Seq::empty()
    } else {
        join_tok(stmts_text(ss.drop_last()), stmt_text(ss.last()))
    }
}

/// The rewritten form of one return statement, by rewriting mode; the flag
/// says whether the returned expression is an object literal, which is
/// deserialized into the declared shape.
pub open spec fn rw_return_text(rw: ReturnRewrite, arg: Option<Seq<char>>, is_obj: bool) -> Seq<
    char,
> {
    match rw {
        ReturnRewrite::SyncFn(void) => match arg {
            Option::Some(t) => if !void && is_obj {
                "return serde_json :: from_value ("@ + t
                    + ") . unwrap_or_else (| e | panic ! (\"Failed to convert return value: {}\" , e)) ;"@
            } else {
                "return "@ + t + " ;"@
            },
            Option::None => "return ;"@,
        },
        ReturnRewrite::AsyncFn(void) => match arg {
            Option::Some(t) => if !void && is_obj {
                "return Ok (serde_json :: from_value ("@ + t
                    + ") . unwrap_or_else (| e | panic ! (\"Failed to convert return value: {}\" , e))) ;"@
            } else {
                "return Ok ("@ + t + ") ;"@
            },
            Option::None => "return Ok (()) ;"@,
        },
        ReturnRewrite::HandlerJson => match arg {
            Option::Some(t) => "return Ok (axum :: Json ("@ + t + " . into ())) ;"@,
            Option::None => "return Ok (() . into ()) ;"@,
        },
        ReturnRewrite::HandlerPlain => match arg {
            Option::Some(t) => "return Ok ("@ + t + " . into ()) ;"@,
            Option::None => "return Ok (() . into ()) ;"@,
        },
        ReturnRewrite::AsyncMethod => match arg {
            Option::Some(t) => "return Ok ("@ + t + ") ;"@,
            Option::None => "return Ok (() . into ()) ;"@,
        },
    }
}

/// The rendered text of a statement under a return rewriting: returns are
/// wrapped, blocks and branches are traversed, everything else renders as
/// without a rewriting.
pub open spec fn rw_stmt_text(s: Stmt, rw: ReturnRewrite) -> Seq<char>
    decreases s, 4int,
{
    match s {
        Stmt::Return(a) => rw_return_text(
            rw,
            match a {
                Option::Some(e) => Option::Some(expr_text(e)),
                Option::None => Option::None,
            },
            a matches Option::Some(e2) && e2 matches Expr::Object(_),
        ),
        Stmt::Block(ss) => brace_wrap(rw_stmts_text(ss@, rw)),
        Stmt::If(t, c, alt) => {
            let cb = if *c matches Stmt::Block(_) {
                rw_stmt_text(*c, rw)
            } else {
                brace_wrap(rw_stmt_text(*c, rw))
            };
            let base = "if "@ + expr_text(t) + " "@ + cb;
            match alt {
                Option::Some(a) => {
                    let ab = if *a matches Stmt::Block(_) || *a matches Stmt::If(_, _, _) {
                        rw_stmt_text(*a, rw)
                    } else {
                        brace_wrap(rw_stmt_text(*a, rw))
                    };
                    base + " else "@ + ab
                },
                Option::None => base,
            }
        },
        _ => stmt_text(s),
    }
}

pub open spec fn rw_stmts_text(ss: Seq<Stmt>, rw: ReturnRewrite) -> Seq<char>
    decreases ss, 4int,
{
    if ss.len() == 0 {
        Seq::empty()
    } else {
        join_tok(rw_stmts_text(ss.drop_last(), rw), rw_stmt_text(ss.last(), rw))
    }
}

fn strip_parens_ref(e: &Expr) -> (r: &Expr)
    ensures
        *r == strip_parens(*e),
    decreases *e,
{
    match e {
        Expr::Paren(i) => strip_parens_ref(&**i),
        _ => e,
    }
}

fn is_borrow_method_exec(m: &str) -> (b: bool)
    ensures
        b == is_borrow_method(m@),
{
    str_eq(m, "toString") || str_eq(m, "toUpperCase") || str_eq(m, "toLowerCase") || str_eq(
        m,
        "trim",
    ) || str_eq(m, "replace") || str_eq(m, "join") || str_eq(m, "repeat") || str_eq(m, "slice")
        || str_eq(m, "substring") || str_eq(m, "substr")
}

fn is_borrow_method_call_exec(r: &Expr) -> (b: bool)
    ensures
        b == is_borrow_method_call(*r),
{
    match r {
        Expr::Call(Callee::ExprCallee(c), _, _) => match &**c {
            Expr::Member(_, MemberProp::Named(p)) => is_borrow_method_exec(p.as_str()),
            _ => false,
        },
        _ => false,
    }
}

fn left_is_string_exec(l: &Expr) -> (b: bool)
    ensures
        b == left_is_string(*l),
{
    let s = strip_parens_ref(l);
    match s {
        Expr::Lit(Lit::Str(_)) => true,
        Expr::Call(Callee::ExprCallee(c), _, _) => match &**c {
            Expr::Member(o, MemberProp::Named(p)) => match &**o {
                Expr::Ident(n) => str_eq(n.as_str(), "String") && str_eq(p.as_str(), "from"),
                _ => false,
            },
            _ => false,
        },
        _ => false,
    }
}

/// Renders an identifier as the target language spells it.
fn convert_ident(n: &str) -> (r: String)
    ensures
        r@ == ident_text(n@),
{
    if str_eq(n, "undefined") {
        String::from_str("None")
    } else if n.unicode_len() > 0 && char_is_uppercase(n.get_char(0)) {
        n.to_owned()
    } else {
        to_snake_case(n)
    }
}

fn convert_lit(l: &Lit) -> (r: String)
    ensures
        r@ == lit_text(*l),
{
    match l {
        Lit::Num(d) => {
            let mut out = d.clone();
            out.append("f64");
            out
        },
        Lit::Str(s) => {
            let mut out = String::from_str("String :: from (");
            let lit = string_literal(s.as_str());
            out.append(lit.as_str());
            out.append(")");
            out
        },
        Lit::Bool(b) => {
            if *b {
                String::from_str("true")
            } else {
                String::from_str("false")
            }
        },
        Lit::Other => String::from_str("todo ! (\"unsupported literal\")"),
    }
}

/// Converts one expression node to target text.
pub fn convert_expr(e: &Expr) -> (r: String)
    ensures
        r@ == expr_text(*e),
    decreases *e, 3int,
{
    match e {
        Expr::This => String::from_str("self"),
        Expr::Ident(n) => convert_ident(n.as_str()),
        Expr::Lit(l) => convert_lit(l),
        Expr::Bin(_, _, _) => convert_bin_expr(e),
        Expr::Unary(op, a) => match op {
            UnOp::Not => {
                let mut out = String::from_str("! ");
                let at = convert_expr(&**a);
                out.append(at.as_str());
                out
            },
            UnOp::Neg => {
                let mut out = String::from_str("- ");
                let at = convert_expr(&**a);
                out.append(at.as_str());
                out
            },
            UnOp::Plus => {
                let mut out = String::from_str("+ ");
                let at = convert_expr(&**a);
                out.append(at.as_str());
                out
            },
            UnOp::Other => String::from_str("todo ! (\"unsupported unary op\")"),
        },
        Expr::Member(_, _) => convert_member_expr(e),
        Expr::Call(_, _, _) => convert_call_expr(e),
        Expr::New(_, _) => convert_new_expr(e),
        Expr::Object(ps) => convert_object_lit(ps),
        Expr::Array(es) => convert_array_lit(es),
        Expr::Tpl(_, _) => convert_tpl_expr(e),
        Expr::Arrow(_, _, _) => convert_arrow_expr_with_hint(e, Option::None),
        Expr::Update(op, a) => {
            let mut out = convert_expr(&**a);
            match op {
                UpdateOp::Incr => out.append(" += 1f64"),
                UpdateOp::Decr => out.append(" -= 1f64"),
            }
            out
        },
        Expr::Assign(_, _, _) => convert_assign_expr(e),
        Expr::Await(a) => {
            let mut out = convert_expr(&**a);
            out.append(" . await ?");
            out
        },
        _ => String::from_str("todo ! ()"),
    }
}

/// Converts a binary expression, applying the text-concatenation heuristic.
pub fn convert_bin_expr(e: &Expr) -> (r: String)
    requires
        *e matches Expr::Bin(_, _, _),
    ensures
        r@ == bin_text(*e),
    decreases *e, 2int,
{
    match e {
        Expr::Bin(op, l, r0) => {
            match op {
                BinOp::Other => {
                    return String::from_str("todo ! (\"unsupported operator\")");
                },
                _ => {},
            }
            let lt = convert_expr(&**l);
            let rt = convert_expr(&**r0);
            let is_add = match op {
                BinOp::Add => true,
                _ => false,
            };
            let rt2: String = if is_add {
                if is_borrow_method_call_exec(&**r0) {
                    let mut b = String::from_str("& ");
                    b.append(rt.as_str());
                    b
                } else if left_is_string_exec(&**l) {
                    match strip_parens_ref(&**r0) {
                        Expr::Lit(li) => match li {
                            Lit::Num(_) => {
                                let mut b = String::from_str("& ");
                                b.append(rt.as_str());
                                b.append(" . to_string ()");
                                b
                            },
                            _ => rt,
                        },
                        Expr::Call(_, _, _) => {
                            let mut b = String::from_str("& ");
                            b.append(rt.as_str());
                            b.append(" . to_string ()");
                            b
                        },
                        Expr::Ident(_) => {
                            let mut b = String::from_str("& ");
                            b.append(rt.as_str());
                            b
                        },
                        _ => rt,
                    }
                } else {
                    match &**r0 {
                        Expr::Ident(_) => {
                            let mut b = String::from_str("& ");
                            b.append(rt.as_str());
                            b
                        },
                        _ => rt,
                    }
                }
            } else {
                rt
            };
            let mut out = lt;
            match op {
                BinOp::Add => crate::text::append_tok(&mut out, "+"),
                BinOp::Sub => crate::text::append_tok(&mut out, "-"),
                BinOp::Mul => crate::text::append_tok(&mut out, "*"),
                BinOp::Div => crate::text::append_tok(&mut out, "/"),
                BinOp::EqEq => crate::text::append_tok(&mut out, "=="),
                BinOp::NotEq => crate::text::append_tok(&mut out, "!="),
                BinOp::Lt => crate::text::append_tok(&mut out, "<"),
                BinOp::LtEq => crate::text::append_tok(&mut out, "<="),
                BinOp::Gt => crate::text::append_tok(&mut out, ">"),
                BinOp::GtEq => crate::text::append_tok(&mut out, ">="),
                BinOp::And => crate::text::append_tok(&mut out, "&&"),
                BinOp::Or => crate::text::append_tok(&mut out, "||"),
                BinOp::Other => {},
            }
            crate::text::append_tok(&mut out, rt2.as_str());
            out
        },
        _ => unreached(),
    }
}

fn convert_member_expr(e: &Expr) -> (r: String)
    requires
        *e matches Expr::Member(_, _),
    ensures
        r@ == member_text(*e),
    decreases *e, 2int,
{
    match e {
        Expr::Member(obj, prop) => {
            let is_this = match &**obj {
                Expr::This => true,
                _ => false,
            };
            if is_this {
                match prop {
                    MemberProp::Named(p) => {
                        let mut out = String::from_str("self . ");
                        let sp = to_snake_case(p.as_str());
                        out.append(sp.as_str());
                        out.append(" . clone ()");
                        return out;
                    },
                    _ => {},
                }
            }
            let mut out = convert_expr(&**obj);
            match prop {
                MemberProp::Named(p) => {
                    out.append(" . ");
                    let sp = to_snake_case(p.as_str());
                    out.append(sp.as_str());
                    out
                },
                MemberProp::Computed(ce) => {
                    let is_num: Option<&String> = match &**ce {
                        Expr::Lit(Lit::Num(d)) => Option::Some(d),
                        _ => Option::None,
                    };
                    match is_num {
                        Option::Some(d) => {
                            out.append(" [");
                            let ip = int_prefix_of(d.as_str());
                            out.append(ip.as_str());
                            out.append("usize]");
                            out
                        },
                        Option::None => {
                            out.append(" [");
                            let it = convert_expr(&**ce);
                            out.append(it.as_str());
                            out.append("]");
                            out
                        },
                    }
                },
                MemberProp::Other => String::from_str("todo ! (\"complex member access\")"),
            }
        },
        _ => unreached(),
    }
}

fn convert_new_expr(e: &Expr) -> (r: String)
    requires
        *e matches Expr::New(_, _),
    ensures
        r@ == expr_text(*e),
    decreases *e, 2int,
{
    match e {
        Expr::New(c, args) => {
            let mut out = convert_expr(&**c);
            out.append(" :: new (");
            let at = convert_args(args);
            out.append(at.as_str());
            out.append(")");
            out
        },
        _ => unreached(),
    }
}

/// Converts a call argument; a spread mark does not change the rendering.
pub fn convert_expr_or_spread(a: &Arg) -> (r: String)
    ensures
        r@ == expr_text(a.expr),
    decreases *a, 2int,
{
    convert_expr(&a.expr)
}

/// Renders a comma-separated argument list.
pub(crate) fn convert_args(args: &Vec<Arg>) -> (r: String)
    ensures
        r@ == args_text(args@),
    decreases args@, 1int,
{
    let mut out = String::new();
    let mut i: usize = 0;
    while i < args.len()
        invariant
            i <= args@.len(),
            out@ == args_text(args@.take(i as int)),
        decreases args@.len() - i,
    {
        if i > 0 {
            out.append(" , ");
        }
        let piece = convert_expr(&args[i].expr);
        out.append(piece.as_str());
        proof {
            assert(args@.take(i + 1 as int).drop_last() =~= args@.take(i as int));
            assert(args@.take(i + 1 as int).last() == args@[i as int]);
            assert(out@ =~= args_text(args@.take(i + 1 as int)));
        }
        i = i + 1;
    }
    proof {
        assert(args@.take(args@.len() as int) =~= args@);
    }
    out
}

fn render_prop(p: &Prop) -> (r: Option<String>)
    ensures
        match r {
            Option::Some(s) => prop_piece(*p) matches Option::Some(t) && s@ == t,
            Option::None => prop_piece(*p) is None,
        },
    decreases *p, 2int,
{
    match p {
        Prop::KeyValue(k, v) => {
            let mut t = string_literal(k.as_str());
            t.append(" : ");
            let is_undef = match v {
                Expr::Ident(n) => str_eq(n.as_str(), "undefined"),
                _ => false,
            };
            if is_undef {
                t.append("serde_json :: Value :: Null");
            } else {
                let vt = convert_expr(v);
                t.append(vt.as_str());
            }
            Option::Some(t)
        },
        Prop::Shorthand(k) => {
            let mut t = string_literal(k.as_str());
            t.append(" : ");
            let sk = to_snake_case(k.as_str());
            t.append(sk.as_str());
            Option::Some(t)
        },
        Prop::Other => Option::None,
    }
}

fn convert_object_lit(ps: &Vec<Prop>) -> (r: String)
    ensures
        r@ == "serde_json :: json ! ("@ + brace_wrap(props_text(ps@)) + ")"@,
    decreases ps@, 1int,
{
    let mut inner = String::new();
    let mut i: usize = 0;
    while i < ps.len()
        invariant
            i <= ps@.len(),
            inner@ == props_text(ps@.take(i as int)),
        decreases ps@.len() - i,
    {
        proof {
            assert(ps@.take(i + 1 as int).drop_last() =~= ps@.take(i as int));
            assert(ps@.take(i + 1 as int).last() == ps@[i as int]);
        }
        match render_prop(&ps[i]) {
            Option::Some(t) => {
                if inner.as_str().unicode_len() > 0 {
                    inner.append(" , ");
                }
                inner.append(t.as_str());
                proof {
                    assert(inner@ =~= props_text(ps@.take(i + 1 as int)));
                }
            },
            Option::None => {
                proof {
                    assert(inner@ =~= props_text(ps@.take(i + 1 as int)));
                }
            },
        }
        i = i + 1;
    }
    proof {
        assert(ps@.take(ps@.len() as int) =~= ps@);
    }
    let mut out = String::from_str("serde_json :: json ! (");
    let br = braced(inner.as_str());
    out.append(br.as_str());
    out.append(")");
    out
}

fn render_elem(e: &Option<Arg>) -> (r: String)
    ensures
        r@ == elem_piece(*e),
    decreases *e, 2int,
{
    match e {
        Option::Some(a) => convert_expr(&a.expr),
        Option::None => String::from_str("serde_json :: Value :: Null"),
    }
}

fn convert_array_lit(es: &Vec<Option<Arg>>) -> (r: String)
    ensures
        r@ == "vec ! ["@ + elems_text(es@) + "]"@,
    decreases es@, 1int,
{
    let mut inner = String::new();
    let mut i: usize = 0;
    while i < es.len()
        invariant
            i <= es@.len(),
            inner@ == elems_text(es@.take(i as int)),
        decreases es@.len() - i,
    {
        if i > 0 {
            inner.append(" , ");
        }
        let piece = render_elem(&es[i]);
        inner.append(piece.as_str());
        proof {
            assert(es@.take(i + 1 as int).drop_last() =~= es@.take(i as int));
            assert(es@.take(i + 1 as int).last() == es@[i as int]);
            assert(inner@ =~= elems_text(es@.take(i + 1 as int)));
        }
        i = i + 1;
    }
    proof {
        assert(es@.take(es@.len() as int) =~= es@);
    }
    let mut out = String::from_str("vec ! [");
    out.append(inner.as_str());
    out.append("]");
    out
}

fn convert_tpl_args(xs: &Vec<Expr>) -> (r: String)
    ensures
        r@ == tpl_args_text(xs@),
    decreases xs@, 1int,
{
    let mut out = String::new();
    let mut i: usize = 0;
    while i < xs.len()
        invariant
            i <= xs@.len(),
            out@ == tpl_args_text(xs@.take(i as int)),
        decreases xs@.len() - i,
    {
        if i > 0 {
            out.append(" , ");
        }
        let t = convert_expr(&xs[i]);
        out.append(t.as_str());
        proof {
            assert(xs@.take(i + 1 as int).drop_last() =~= xs@.take(i as int));
            assert(xs@.take(i + 1 as int).last() == xs@[i as int]);
            assert(out@ =~= tpl_args_text(xs@.take(i + 1 as int)));
        }
        i = i + 1;
    }
    proof {
        assert(xs@.take(xs@.len() as int) =~= xs@);
    }
    out
}

fn convert_tpl_expr(e: &Expr) -> (r: String)
    requires
        *e matches Expr::Tpl(_, _),
    ensures
        r@ == expr_text(*e),
    decreases *e, 2int,
{
    match e {
        Expr::Tpl(qs, xs) => {
            let mut fmt = String::new();
            let mut i: usize = 0;
            while i < qs.len()
                invariant
                    i <= qs@.len(),
                    fmt@ == tpl_fmt(qs@.take(i as int), xs@.len() as int),
                decreases qs@.len() - i,
            {
                fmt.append(qs[i].as_str());
                if i < xs.len() {
                    fmt.append("{}");
                }
                proof {
                    assert(qs@.take(i + 1 as int).drop_last() =~= qs@.take(i as int));
                    assert(qs@.take(i + 1 as int).last() == qs@[i as int]);
                    assert(fmt@ =~= tpl_fmt(qs@.take(i + 1 as int), xs@.len() as int));
                }
                i = i + 1;
            }
            proof {
                assert(qs@.take(qs@.len() as int) =~= qs@);
            }
            let lit = string_literal(fmt.as_str());
            let mut out = String::from_str("format ! (");
            out.append(lit.as_str());
            if xs.len() == 0 {
                out.append(" ,)");
            } else {
                out.append(" , ");
                let ats = convert_tpl_args(xs);
                out.append(ats.as_str());
                out.append(")");
            }
            out
        },
        _ => unreached(),
    }
}

/// Converts an arrow function without a parameter type hint.
pub fn convert_arrow_expr(e: &Expr) -> (r: String)
    requires
        *e matches Expr::Arrow(_, _, _),
    ensures
        r@ == expr_text(*e),
{
    convert_arrow_expr_with_hint(e, Option::None)
}

/// The text of an arrow function whose first unannotated parameter may be
/// typed by a caller-supplied hint.
pub open spec fn arrow_text(e: Expr, hint: Option<Seq<char>>) -> Seq<char>
    decreases e, 2int,
{
    match e {
        Expr::Arrow(ps, body, _) => {
            let bt = match body {
                ArrowBody::BlockBody(ss) => brace_wrap(stmts_text(ss@)),
                ArrowBody::ExprBody(be) => expr_text(*be),
            };
            join_tok(join_tok(join_tok("|"@, arrow_params_text(ps@, hint)), "|"@), bt)
        },
        _ => Seq::empty(),
    }
}

/// Converts an arrow function, typing the first unannotated parameter with
/// the hint when one is given.
pub fn convert_arrow_expr_with_hint(e: &Expr, hint: Option<&str>) -> (r: String)
    requires
        *e matches Expr::Arrow(_, _, _),
    ensures
        r@ == arrow_text(
            *e,
            match hint {
                Option::Some(h) => Option::Some(h@),
                Option::None => Option::None,
            },
        ),
    decreases *e, 2int,
{
    let ghost hs: Option<Seq<char>> = match hint {
        Option::Some(h) => Option::Some(h@),
        Option::None => Option::None,
    };
    match e {
        Expr::Arrow(ps, body, _) => {
            let mut params = String::new();
            let mut i: usize = 0;
            while i < ps.len()
                invariant
                    i <= ps@.len(),
                    hs == (match hint {
                        Option::Some(h) => Option::Some(h@),
                        Option::None => Option::None::<Seq<char>>,
                    }),
                    params@ == arrow_params_text(ps@.take(i as int), hs),
                decreases ps@.len() - i,
            {
                if i > 0 {
                    params.append(" , ");
                }
                let piece: String = match &ps[i] {
                    ArrowParam::Ident(n, ann) => {
                        match ann {
                            Option::Some(t) => {
                                let mut p = to_snake_case(n.as_str());
                                p.append(" : ");
                                let tt = map_ts_type(Option::Some(t));
                                let rt = render_target_type(&tt);
                                proof {
                                    lemma_opt_maps_text(Option::Some(*t), tt);
                                }
                                p.append(rt.as_str());
                                p
                            },
                            Option::None => {
                                if i == 0 {
                                    match hint {
                                        Option::Some(h) => {
                                            let mut p = to_snake_case(n.as_str());
                                            p.append(" : ");
                                            p.append(h);
                                            p
                                        },
                                        Option::None => to_snake_case(n.as_str()),
                                    }
                                } else {
                                    to_snake_case(n.as_str())
                                }
                            },
                        }
                    },
                    ArrowParam::Other => String::from_str("_"),
                };
                params.append(piece.as_str());
                proof {
                    assert(ps@.take(i + 1 as int).drop_last() =~= ps@.take(i as int));
                    assert(ps@.take(i + 1 as int).last() == ps@[i as int]);
                    assert(params@ =~= arrow_params_text(ps@.take(i + 1 as int), hs));
                }
                i = i + 1;
            }
            proof {
                assert(ps@.take(ps@.len() as int) =~= ps@);
            }
            let body_text: String = match body {
                ArrowBody::BlockBody(ss) => {
                    let inner = convert_stmts(ss);
                    braced(inner.as_str())
                },
                ArrowBody::ExprBody(be) => convert_expr(&**be),
            };
            let mut out = String::from_str("|");
            crate::text::append_tok(&mut out, params.as_str());
            crate::text::append_tok(&mut out, "|");
            crate::text::append_tok(&mut out, body_text.as_str());
            out
        },
        _ => unreached(),
    }
}

fn render_assign_target(t: &AssignTarget) -> (r: String)
    ensures
        r@ == assign_target_text(*t),
    decreases *t, 2int,
{
    match t {
        AssignTarget::Ident(n) => to_snake_case(n.as_str()),
        AssignTarget::Member(obj, prop) => match prop {
            MemberProp::Named(p) => {
                let mut o = convert_expr(&**obj);
                o.append(" . ");
                o.append(p.as_str());
                o
            },
            MemberProp::Computed(ce) => {
                let is_num: Option<&String> = match &**ce {
                    Expr::Lit(Lit::Num(d)) => Option::Some(d),
                    _ => Option::None,
                };
                match is_num {
                    Option::Some(d) => {
                        let mut o = convert_expr(&**obj);
                        o.append(" [");
                        let ip = int_prefix_of(d.as_str());
                        o.append(ip.as_str());
                        o.append("usize]");
                        o
                    },
                    Option::None => {
                        let mut o = convert_expr(&**obj);
                        o.append(" [");
                        let it = convert_expr(&**ce);
                        o.append(it.as_str());
                        o.append("]");
                        o
                    },
                }
            },
            MemberProp::Other => String::from_str("todo ! (\"complex member assignment\")"),
        },
        AssignTarget::Other => String::from_str("todo ! (\"unsupported assign target\")"),
    }
}

fn convert_assign_expr(e: &Expr) -> (r: String)
    requires
        *e matches Expr::Assign(_, _, _),
    ensures
        r@ == expr_text(*e),
    decreases *e, 2int,
{
    match e {
        Expr::Assign(op, t, v) => {
            match op {
                AssignOp::Other => {
                    return String::from_str("todo ! (\"unsupported assign op\")");
                },
                _ => {},
            }
            let mut out = render_assign_target(t);
            match op {
                AssignOp::AddAssign => out.append(" += "),
                AssignOp::SubAssign => out.append(" -= "),
                _ => out.append(" = "),
            }
            let vt = convert_expr(&**v);
            out.append(vt.as_str());
            out
        },
        _ => unreached(),
    }
}

/// Converts a call, dispatching recognized namespace and instance-method
/// shapes to native equivalents before the generic call form.
fn convert_call_expr(e: &Expr) -> (r: String)
    requires
        *e matches Expr::Call(_, _, _),
    ensures
        r@ == call_text(*e),
    decreases *e, 2int,
{
    match e {
        Expr::Call(c, args, targ) => {
            match c {
                Callee::Other => {
                    let mut out = String::from_str("unknown_callee (");
                    let at = convert_args(args);
                    out.append(at.as_str());
                    out.append(")");
                    return out;
                },
                Callee::ExprCallee(ce) => {
                    match &**ce {
                        Expr::Member(obj, MemberProp::Named(p)) => {
                            let obj_is_ident: Option<&String> = match &**obj {
                                Expr::Ident(o) => Option::Some(o),
                                _ => Option::None,
                            };
                            match obj_is_ident {
                                Option::Some(o) => {
                                    if str_eq(o.as_str(), "JSON") {
                                        let jt = crate::stdlib::json::handle(p.as_str(), args);
                                        match jt {
                                            Option::Some(t) => {
                                                return t;
                                            },
                                            Option::None => {},
                                        }
                                    }
                                    if str_eq(o.as_str(), "axios") && str_eq(p.as_str(), "get")
                                        && args.len() > 0 {
                                        let url = convert_expr(&args[0].expr);
                                        return render_axios_get(url, targ.as_ref());
                                    }
                                    if str_eq(o.as_str(), "console") {
                                        let ct = crate::stdlib::console::handle(p.as_str(), args);
                                        match ct {
                                            Option::Some(t) => {
                                                return t;
                                            },
                                            Option::None => {},
                                        }
                                    }
                                    if str_eq(o.as_str(), "Math") {
                                        let mt = crate::stdlib::math::handle(p.as_str(), args);
                                        match mt {
                                            Option::Some(t) => {
                                                return t;
                                            },
                                            Option::None => {},
                                        }
                                    }
                                    let ot = convert_expr(&**obj);
                                    let at = crate::stdlib::array::handle_method(
                                        ot.as_str(),
                                        p.as_str(),
                                        args,
                                    );
                                    match at {
                                        Option::Some(t) => {
                                            return t;
                                        },
                                        Option::None => {},
                                    }
                                    let st = crate::stdlib::string::handle(
                                        ot.as_str(),
                                        p.as_str(),
                                        args,
                                    );
                                    match st {
                                        Option::Some(t) => {
                                            return t;
                                        },
                                        Option::None => {},
                                    }
                                    if str_eq(o.as_str(), "axios") {
                                        let ml = to_lower_text(p.as_str());
                                        return render_axios_call(ml.as_str(), args);
                                    }
                                },
                                Option::None => {
                                    let ot = convert_expr(&**obj);
                                    let at = crate::stdlib::array::handle_method(
                                        ot.as_str(),
                                        p.as_str(),
                                        args,
                                    );
                                    match at {
                                        Option::Some(t) => {
                                            return t;
                                        },
                                        Option::None => {},
                                    }
                                    let st = crate::stdlib::string::handle(
                                        ot.as_str(),
                                        p.as_str(),
                                        args,
                                    );
                                    match st {
                                        Option::Some(t) => {
                                            return t;
                                        },
                                        Option::None => {},
                                    }
                                },
                            }
                        },
                        Expr::Ident(f) => {
                            if str_eq(f.as_str(), "fetch") {
                                if args.len() == 0 {
                                    return String::from_str("reqwest :: get (\"\")");
                                }
                                let mut out = String::from_str("reqwest :: get (");
                                let url = convert_expr(&args[0].expr);
                                out.append(url.as_str());
                                out.append(")");
                                return out;
                            }
                        },
                        _ => {},
                    }
                    let mut out = convert_expr(&**ce);
                    out.append(" (");
                    let at = convert_args(args);
                    out.append(at.as_str());
                    out.append(")");
                    out
                },
            }
        },
        _ => unreached(),
    }
}

fn render_axios_get(url: String, targ: Option<&SourceType>) -> (r: String)
    ensures
        r@ == axios_get_text(
            url@,
            match targ {
                Option::Some(t) => Option::Some(*t),
                Option::None => Option::None,
            },
        ),
{
    match targ {
        Option::Some(t) => {
            let mut out = String::from_str("reqwest :: Client :: new () . get (");
            out.append(url.as_str());
            out.append(") . send () . await ? . json :: < ");
            let tt = map_inner_type(t);
            let rt = render_target_type(&tt);
            proof {
                lemma_inner_maps_text(*t, tt);
            }
            out.append(rt.as_str());
            out.append(" > ()");
            out
        },
        Option::None => {
            let mut out = String::from_str("reqwest :: Client :: new () . get (");
            out.append(url.as_str());
            out.append(") . send () . await ?");
            out
        },
    }
}

fn render_axios_call(ml: &str, args: &Vec<Arg>) -> (r: String)
    ensures
        r@ == axios_call_text(ml@, args@),
    decreases args@, 2int,
{
    if args.len() == 0 {
        let mut out = String::from_str("reqwest :: Client :: new () . ");
        out.append(ml);
        out.append(" (\"\") . send () . await ?");
        return out;
    }
    let url = convert_expr(&args[0].expr);
    let writing = (str_eq(ml, "post") || str_eq(ml, "put")) && args.len() > 1;
    if writing {
        let mut out = String::from_str("reqwest :: Client :: new () . ");
        out.append(ml);
        out.append(" (");
        out.append(url.as_str());
        out.append(") . json (& ");
        let data = convert_expr(&args[1].expr);
        out.append(data.as_str());
        out.append(") . send () . await ?");
        out
    } else {
        let mut out = String::from_str("reqwest :: Client :: new () . ");
        out.append(ml);
        out.append(" (");
        out.append(url.as_str());
        out.append(") . send () . await ?");
        out
    }
}

/// Converts one statement without any return rewriting.
pub fn convert_stmt(s: &Stmt) -> (r: String)
    ensures
        r@ == stmt_text(*s),
    decreases *s, 3int,
{
    match s {
        Stmt::Return(a) => match a {
            Option::Some(e) => {
                let mut out = String::from_str("return ");
                let et = convert_expr(e);
                out.append(et.as_str());
                out.append(" ;");
                out
            },
            Option::None => String::from_str("return ;"),
        },
        Stmt::ExprStmt(e) => {
            let mut out = convert_expr(e);
            out.append(" ;");
            out
        },
        Stmt::VarDecl(k, ds) => convert_var_decls(k, ds),
        Stmt::Block(ss) => {
            let inner = convert_stmts(ss);
            braced(inner.as_str())
        },
        Stmt::If(t, c, alt) => {
            let mut out = String::from_str("if ");
            let tt = convert_expr(t);
            out.append(tt.as_str());
            out.append(" ");
            let ct = convert_stmt(&**c);
            let is_block = match &**c {
                Stmt::Block(_) => true,
                _ => false,
            };
            if is_block {
                out.append(ct.as_str());
            } else {
                let w = braced(ct.as_str());
                out.append(w.as_str());
            }
            match alt {
                Option::Some(a) => {
                    out.append(" else ");
                    let at = convert_stmt(&**a);
                    let direct = match &**a {
                        Stmt::Block(_) => true,
                        Stmt::If(_, _, _) => true,
                        _ => false,
                    };
                    if direct {
                        out.append(at.as_str());
                    } else {
                        let w = braced(at.as_str());
                        out.append(w.as_str());
                    }
                },
                Option::None => {},
            }
            out
        },
        Stmt::While(t, b) => {
            let mut out = String::from_str("while ");
            let tt = convert_expr(t);
            out.append(tt.as_str());
            out.append(" ");
            let bt = convert_stmt(&**b);
            let is_block = match &**b {
                Stmt::Block(_) => true,
                _ => false,
            };
            if is_block {
                out.append(bt.as_str());
            } else {
                let w = braced(bt.as_str());
                out.append(w.as_str());
            }
            out
        },
        Stmt::Other => String::from_str("todo ! (\"unsupported statement\") ;"),
    }
}

fn render_decl(k: &VarKind, d: &VarDeclarator) -> (r: String)
    ensures
        r@ == decl_text(*k, *d),
    decreases *d, 2int,
{
    match &d.init {
        Option::Some(e) => {
            let is_const = match k {
                VarKind::Const => true,
                _ => false,
            };
            let mut p = if is_const {
                String::from_str("let ")
            } else {
                String::from_str("let mut ")
            };
            let sn = to_snake_case(d.name.as_str());
            p.append(sn.as_str());
            p.append(" = ");
            let et = convert_expr(e);
            p.append(et.as_str());
            p.append(" ;");
            p
        },
        Option::None => {
            let mut p = String::from_str("let mut ");
            let sn = to_snake_case(d.name.as_str());
            p.append(sn.as_str());
            p.append(" ;");
            p
        },
    }
}

fn convert_var_decls(k: &VarKind, ds: &Vec<VarDeclarator>) -> (r: String)
    ensures
        r@ == var_decls_text(*k, ds@),
    decreases ds@, 1int,
{
    let mut out = String::new();
    let mut i: usize = 0;
    while i < ds.len()
        invariant
            i <= ds@.len(),
            out@ == var_decls_text(*k, ds@.take(i as int)),
        decreases ds@.len() - i,
    {
        let piece = render_decl(k, &ds[i]);
        crate::text::append_tok(&mut out, piece.as_str());
        proof {
            assert(ds@.take(i + 1 as int).drop_last() =~= ds@.take(i as int));
            assert(ds@.take(i + 1 as int).last() == ds@[i as int]);
            assert(out@ =~= var_decls_text(*k, ds@.take(i + 1 as int)));
        }
        i = i + 1;
    }
    proof {
        assert(ds@.take(ds@.len() as int) =~= ds@);
    }
    out
}

/// Renders a statement list, one statement after the other.
pub(crate) fn convert_stmts(ss: &Vec<Stmt>) -> (r: String)
    ensures
        r@ == stmts_text(ss@),
    decreases ss@, 1int,
{
    let mut out = String::new();
    let mut i: usize = 0;
    while i < ss.len()
        invariant
            i <= ss@.len(),
            out@ == stmts_text(ss@.take(i as int)),
        decreases ss@.len() - i,
    {
        let piece = convert_stmt(&ss[i]);
        crate::text::append_tok(&mut out, piece.as_str());
        proof {
            assert(ss@.take(i + 1 as int).drop_last() =~= ss@.take(i as int));
            assert(ss@.take(i + 1 as int).last() == ss@[i as int]);
            assert(out@ =~= stmts_text(ss@.take(i + 1 as int)));
        }
        i = i + 1;
    }
    proof {
        assert(ss@.take(ss@.len() as int) =~= ss@);
    }
    out
}

/// Converts one statement, rewriting every return it holds according to
/// the caller's rewriting mode; blocks and branches are traversed, other
/// compound statements keep their plain form.
pub fn convert_stmt_recursive(s: &Stmt, rw: ReturnRewrite) -> (r: String)
    ensures
        r@ == rw_stmt_text(*s, rw),
    decreases *s, 4int,
{
    match s {
        Stmt::Return(a) => {
            let arg_text: Option<String> = match a {
                Option::Some(e) => Option::Some(convert_expr(e)),
                Option::None => Option::None,
            };
            let is_obj = match a {
                Option::Some(e) => match e {
                    Expr::Object(_) => true,
                    _ => false,
                },
                Option::None => false,
            };
            render_rw_return(rw, arg_text, is_obj)
        },
        Stmt::Block(ss) => {
            let inner = convert_stmts_recursive(ss, rw);
            braced(inner.as_str())
        },
        Stmt::If(t, c, alt) => {
            let mut out = String::from_str("if ");
            let tt = convert_expr(t);
            out.append(tt.as_str());
            out.append(" ");
            let ct = convert_stmt_recursive(&**c, rw);
            let is_block = match &**c {
                Stmt::Block(_) => true,
                _ => false,
            };
            if is_block {
                out.append(ct.as_str());
            } else {
                let w = braced(ct.as_str());
                out.append(w.as_str());
            }
            match alt {
                Option::Some(a) => {
                    out.append(" else ");
                    let at = convert_stmt_recursive(&**a, rw);
                    let direct = match &**a {
                        Stmt::Block(_) => true,
                        Stmt::If(_, _, _) => true,
                        _ => false,
                    };
                    if direct {
                        out.append(at.as_str());
                    } else {
                        let w = braced(at.as_str());
                        out.append(w.as_str());
                    }
                },
                Option::None => {},
            }
            out
        },
        _ => convert_stmt(s),
    }
}

fn render_rw_return(rw: ReturnRewrite, arg: Option<String>, is_obj: bool) -> (r: String)
    ensures
        r@ == rw_return_text(
            rw,
            match arg {
                Option::Some(t) => Option::Some(t@),
                Option::None => Option::None,
            },
            is_obj,
        ),
{
    match rw {
        ReturnRewrite::SyncFn(void) => match arg {
            Option::Some(t) => {
                if !void && is_obj {
                    let mut out = String::from_str("return serde_json :: from_value (");
                    out.append(t.as_str());
                    out.append(
                        ") . unwrap_or_else (| e | panic ! (\"Failed to convert return value: {}\" , e)) ;",
                    );
                    out
                } else {
                    let mut out = String::from_str("return ");
                    out.append(t.as_str());
                    out.append(" ;");
                    out
                }
            },
            Option::None => String::from_str("return ;"),
        },
        ReturnRewrite::AsyncFn(void) => match arg {
            Option::Some(t) => {
                if !void && is_obj {
                    let mut out = String::from_str("return Ok (serde_json :: from_value (");
                    out.append(t.as_str());
                    out.append(
                        ") . unwrap_or_else (| e | panic ! (\"Failed to convert return value: {}\" , e))) ;",
                    );
                    out
                } else {
                    let mut out = String::from_str("return Ok (");
                    out.append(t.as_str());
                    out.append(") ;");
                    out
                }
            },
            Option::None => String::from_str("return Ok (()) ;"),
        },
        ReturnRewrite::HandlerJson => match arg {
            Option::Some(t) => {
                let mut out = String::from_str("return Ok (axum :: Json (");
                out.append(t.as_str());
                out.append(" . into ())) ;");
                out
            },
            Option::None => String::from_str("return Ok (() . into ()) ;"),
        },
        ReturnRewrite::HandlerPlain => match arg {
            Option::Some(t) => {
                let mut out = String::from_str("return Ok (");
                out.append(t.as_str());
                out.append(" . into ()) ;");
                out
            },
            Option::None => String::from_str("return Ok (() . into ()) ;"),
        },
        ReturnRewrite::AsyncMethod => match arg {
            Option::Some(t) => {
                let mut out = String::from_str("return Ok (");
                out.append(t.as_str());
                out.append(") ;");
                out
            },
            Option::None => String::from_str("return Ok (() . into ()) ;"),
        },
    }
}

/// Renders a statement list under a return rewriting.
pub(crate) fn convert_stmts_recursive(ss: &Vec<Stmt>, rw: ReturnRewrite) -> (r: String)
    ensures
        r@ == rw_stmts_text(ss@, rw),
    decreases ss@, 4int,
{
    let mut out = String::new();
    let mut i: usize = 0;
    while i < ss.len()
        invariant
            i <= ss@.len(),
            out@ == rw_stmts_text(ss@.take(i as int), rw),
        decreases ss@.len() - i,
    {
        let piece = convert_stmt_recursive(&ss[i], rw);
        crate::text::append_tok(&mut out, piece.as_str());
        proof {
            assert(ss@.take(i + 1 as int).drop_last() =~= ss@.take(i as int));
            assert(ss@.take(i + 1 as int).last() == ss@[i as int]);
            assert(out@ =~= rw_stmts_text(ss@.take(i + 1 as int), rw));
        }
        i = i + 1;
    }
    proof {
        assert(ss@.take(ss@.len() as int) =~= ss@);
    }
    out
}

/// Converts one statement to target text.
pub fn convert_stmt_pub(s: &Stmt) -> (r: String)
    ensures
        r@ == stmt_text(*s),
{
    convert_stmt(s)
}

/// Converts one expression to target text.
pub fn convert_expr_pub(e: &Expr) -> (r: String)
    ensures
        r@ == expr_text(*e),
{
    convert_expr(e)
}

/// One parameter of a lowered function: its name as written, typed by the
/// full mapping.
pub open spec fn fn_param_piece(p: FnParam) -> Seq<char> {
    p.name@ + " : "@ + opt_mapped_text(p.type_ann)
}

pub open spec fn fn_params_text(ps: Seq<FnParam>) -> Seq<char>
    decreases ps.len(),
{
    if ps.len() == 0 {
        Seq::empty()
    } else if ps.len() == 1 {
        fn_param_piece(ps[0])
    } else {
        fn_params_text(ps.drop_last()) + " , "@ + fn_param_piece(ps.last())
    }
}

/// The serialization bounds every lowered type parameter carries.
pub open spec fn generic_bound_text() -> Seq<char> {
    " : serde :: de :: DeserializeOwned + serde :: Serialize + Clone"@
}

pub open spec fn fn_generic_items(tps: Seq<String>) -> Seq<char>
    decreases tps.len(),
{
    if tps.len() == 0 {
        Seq::empty()
    } else if tps.len() == 1 {
        tps[0]@ + generic_bound_text()
    } else {
        fn_generic_items(tps.drop_last()) + " , "@ + tps.last()@ + generic_bound_text()
    }
}

/// The generic-parameter list of a lowered function, empty when there are
/// no type parameters.
pub open spec fn fn_generics_text(tps: Seq<String>) -> Seq<char> {
    if tps.len() == 0 {
        Seq::empty()
    } else {
        "< "@ + fn_generic_items(tps) + " >"@
    }
}

/// The text of the type an async return annotation unwraps to.
pub open spec fn unwrapped_text(t: SourceType) -> Seq<char> {
    match t {
        SourceType::Promise(i) => inner_mapped_text(*i),
        _ => full_mapped_text(t),
    }
}

/// The lowered return type: an async function returns a fallible wrapper
/// around its unwrapped annotation, a plain one its mapped annotation.
pub open spec fn fn_ret_text(is_async: bool, ret: Option<SourceType>) -> Seq<char> {
    if is_async {
        match ret {
            Option::None => "Result < () , crate :: AppError >"@,
            Option::Some(t) => "Result < "@ + unwrapped_text(t) + " , crate :: AppError >"@,
        }
    } else {
        match ret {
            Option::None => "()"@,
            Option::Some(t) => full_mapped_text(t),
        }
    }
}

/// The whole text of a lowered function declaration: visibility, the async
/// marker, generics with serialization bounds, mapped parameter and return
/// types, and the body with its returns rewritten; an async body with no
/// value to return falls back to an ok result.
pub open spec fn fn_decl_text(f: FnDecl, exporting: bool) -> Seq<char> {
    let head = (if exporting {
        if f.is_async {
            "pub async fn "@
        } else {
            "pub fn "@
        }
    } else {
        if f.is_async {
            "async fn "@
        } else {
            "fn "@
        }
    }) + snake_text(f.name@);
    let headg = join_tok(head, fn_generics_text(f.type_params@));
    let void = f.return_type is None || crate::type_mapper::void_like(f.return_type);
    let rw = if f.is_async {
        ReturnRewrite::AsyncFn(void)
    } else {
        ReturnRewrite::SyncFn(void)
    };
    let body = match f.body {
        Option::Some(ss) => rw_stmts_text(ss@, rw),
        Option::None => Seq::empty(),
    };
    let body2 = if f.is_async && void {
        join_tok(body, "Ok (())"@)
    } else {
        body
    };
    headg + " ("@ + fn_params_text(f.params@) + ") -> "@ + fn_ret_text(f.is_async, f.return_type)
        + " "@ + brace_wrap(body2)
}

fn render_fn_param(p: &FnParam) -> (r: String)
    ensures
        r@ == fn_param_piece(*p),
{
    let mut out = p.name.clone();
    out.append(" : ");
    let tt = map_ts_type(p.type_ann.as_ref());
    proof {
        crate::type_mapper::lemma_opt_maps_text(p.type_ann, tt);
    }
    let rt = render_target_type(&tt);
    out.append(rt.as_str());
    out
}

fn convert_fn_params(ps: &Vec<FnParam>) -> (r: String)
    ensures
        r@ == fn_params_text(ps@),
{
    let mut out = String::new();
    let mut i: usize = 0;
    while i < ps.len()
        invariant
            i <= ps@.len(),
            out@ == fn_params_text(ps@.take(i as int)),
        decreases ps@.len() - i,
    {
        if i > 0 {
            out.append(" , ");
        }
        let piece = render_fn_param(&ps[i]);
        out.append(piece.as_str());
        proof {
            assert(ps@.take(i + 1 as int).drop_last() =~= ps@.take(i as int));
            assert(ps@.take(i + 1 as int).last() == ps@[i as int]);
            assert(out@ =~= fn_params_text(ps@.take(i + 1 as int)));
        }
        i = i + 1;
    }
    proof {
        assert(ps@.take(ps@.len() as int) =~= ps@);
    }
    out
}

/// Renders the generic-parameter list with serialization bounds.
pub(crate) fn convert_fn_generics(tps: &Vec<String>) -> (r: String)
    ensures
        r@ == fn_generics_text(tps@),
{
    if tps.len() == 0 {
        return String::new();
    }
    let mut items = String::new();
    let mut i: usize = 0;
    while i < tps.len()
        invariant
            i <= tps@.len(),
            items@ == fn_generic_items(tps@.take(i as int)),
        decreases tps@.len() - i,
    {
        if i > 0 {
            items.append(" , ");
        }
        items.append(tps[i].as_str());
        items.append(" : serde :: de :: DeserializeOwned + serde :: Serialize + Clone");
        proof {
            assert(tps@.take(i + 1 as int).drop_last() =~= tps@.take(i as int));
            assert(tps@.take(i + 1 as int).last() == tps@[i as int]);
            assert(items@ =~= fn_generic_items(tps@.take(i + 1 as int)));
        }
        i = i + 1;
    }
    proof {
        assert(tps@.take(tps@.len() as int) =~= tps@);
    }
    let mut out = String::from_str("< ");
    out.append(items.as_str());
    out.append(" >");
    proof {
        assert(out@ =~= fn_generics_text(tps@));
    }
    out
}

fn render_fn_ret(is_async: bool, ret: Option<&SourceType>) -> (r: String)
    ensures
        r@ == fn_ret_text(
            is_async,
            match ret {
                Option::Some(t) => Option::Some(*t),
                Option::None => Option::None,
            },
        ),
{
    if is_async {
        match ret {
            Option::None => String::from_str("Result < () , crate :: AppError >"),
            Option::Some(t) => {
                let mut out = String::from_str("Result < ");
                let tt = crate::type_mapper::unwrap_promise_type(Option::Some(t));
                proof {
                    match t {
                        SourceType::Promise(inner) => {
                            crate::type_mapper::lemma_inner_maps_text(**inner, tt);
                        },
                        _ => {
                            crate::type_mapper::lemma_full_maps_text(*t, tt);
                        },
                    }
                }
                let rt = render_target_type(&tt);
                out.append(rt.as_str());
                out.append(" , crate :: AppError >");
                out
            },
        }
    } else {
        match ret {
            Option::None => String::from_str("()"),
            Option::Some(t) => {
                let tt = map_ts_type(Option::Some(t));
                proof {
                    crate::type_mapper::lemma_opt_maps_text(Option::Some(*t), tt);
                }
                render_target_type(&tt)
            },
        }
    }
}

/// Converts one function declaration to target text.
pub fn convert_fn_decl(f: &FnDecl, exporting: bool) -> (r: String)
    ensures
        r@ == fn_decl_text(*f, exporting),
{
    let mut out = if exporting {
        if f.is_async {
            String::from_str("pub async fn ")
        } else {
            String::from_str("pub fn ")
        }
    } else {
        if f.is_async {
            String::from_str("async fn ")
        } else {
            String::from_str("fn ")
        }
    };
    let nm = to_snake_case(f.name.as_str());
    out.append(nm.as_str());
    if f.type_params.len() > 0 {
        let g = convert_fn_generics(&f.type_params);
        crate::text::append_tok(&mut out, g.as_str());
    }
    out.append(" (");
    let params = convert_fn_params(&f.params);
    out.append(params.as_str());
    out.append(") -> ");
    let ret = render_fn_ret(f.is_async, f.return_type.as_ref());
    out.append(ret.as_str());
    out.append(" ");
    let void = f.return_type.is_none() || crate::type_mapper::is_void_or_promise_void(
        f.return_type.as_ref(),
    );
    let rw = if f.is_async {
        ReturnRewrite::AsyncFn(void)
    } else {
        ReturnRewrite::SyncFn(void)
    };
    let mut body: String = match &f.body {
        Option::Some(ss) => convert_stmts_recursive(ss, rw),
        Option::None => String::new(),
    };
    if f.is_async && void {
        crate::text::append_tok(&mut body, "Ok (())");
    }
    let br = braced(body.as_str());
    out.append(br.as_str());
    out
}

} // verus!
