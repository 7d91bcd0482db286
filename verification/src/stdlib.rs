pub mod array;
pub mod console;
pub mod json;
pub mod math;
pub mod string;

use vstd::prelude::*;

use crate::ast::Arg;
use crate::ast::Callee;
use crate::ast::Expr;
use crate::ast::MemberProp;
use crate::func::convert_expr;
use crate::func::expr_text;
use crate::text::str_eq;

verus! {

/// The native text a well-known namespace call maps to, if the callee is a
/// recognized member of the logging, numeric or structured-data namespace.
pub open spec fn stdlib_call_text(c: Callee, args: Seq<Arg>) -> Option<Seq<char>> {
    match c {
        Callee::ExprCallee(ce) => match *ce {
            Expr::Member(obj, prop) => match prop {
                MemberProp::Named(p) => match *obj {
                    Expr::Ident(o) => if o@ == "console"@ {
                        console::console_text(p@, args)
                    } else if o@ == "Math"@ {
                        math::math_text(p@, args)
                    } else if o@ == "JSON"@ {
                        json::json_text(p@, args)
                    } else {
                        Option::None
                    },
                    _ => Option::None,
                },
                _ => Option::None,
            },
            _ => Option::None,
        },
        _ => Option::None,
    }
}

/// Dispatches a call whose callee names a well-known namespace object to
/// the matching native rewrite, or signals no match.
pub fn try_handle_stdlib_call(callee: &Callee, args: &Vec<Arg>) -> (r: Option<String>)
    ensures
        match r {
            Option::Some(s) => stdlib_call_text(*callee, args@) matches Option::Some(t) && s@
                == t,
            Option::None => stdlib_call_text(*callee, args@) is None,
        },
{
    match callee {
        Callee::ExprCallee(ce) => match &**ce {
            Expr::Member(obj, MemberProp::Named(p)) => match &**obj {
                Expr::Ident(o) => {
                    if str_eq(o.as_str(), "console") {
                        console::handle(p.as_str(), args)
                    } else if str_eq(o.as_str(), "Math") {
                        math::handle(p.as_str(), args)
                    } else if str_eq(o.as_str(), "JSON") {
                        json::handle(p.as_str(), args)
                    } else {
                        Option::None
                    }
                },
                _ => Option::None,
            },
            _ => Option::None,
        },
        _ => Option::None,
    }
}

/// The native text an instance-method call maps to: the collection
/// rewrites are tried first, then the string rewrites.
pub open spec fn method_call_text(obj: Expr, m: Seq<char>, args: Seq<Arg>) -> Option<Seq<char>> {
    if array::array_m_text(expr_text(obj), m, args) is Some {
        array::array_m_text(expr_text(obj), m, args)
    } else {
        string::string_m_text(expr_text(obj), m, args)
    }
}

/// Dispatches an instance-method call, recognized by name only, to the
/// collection or string rewrite, or signals no match.
pub fn try_handle_method_call(obj: &Expr, method: &str, args: &Vec<Arg>) -> (r: Option<String>)
    ensures
        match r {
            Option::Some(s) => method_call_text(*obj, method@, args@) matches Option::Some(t)
                && s@ == t,
            Option::None => method_call_text(*obj, method@, args@) is None,
        },
{
    let ot = convert_expr(obj);
    let a = array::handle_method(ot.as_str(), method, args);
    match a {
        Option::Some(t) => Option::Some(t),
        Option::None => string::handle(ot.as_str(), method, args),
    }
}

} // verus!
