use vstd::prelude::*;

use crate::ast::Arg;
use crate::func::args_text;
use crate::text::lit_str_text;
use crate::text::str_eq;
use crate::text::string_literal;

verus! {

/// The format string for a logging call of `n` arguments: one placeholder
/// per argument, space-separated.
pub open spec fn repeat_fmt(n: int) -> Seq<char>
    decreases n,
{
    if n <= 0 {
        Seq::empty()
    } else if n == 1 {
        "{}"@
    } else {
        repeat_fmt(n - 1) + " {}"@
    }
}

/// The native text for a recognized logging call: a formatted write to
/// stdout or stderr with one placeholder per argument.
pub open spec fn console_text(m: Seq<char>, args: Seq<Arg>) -> Option<Seq<char>>
    decreases args, 2int,
{
    if m == "log"@ || m == "error"@ {
        let head = if m == "error"@ {
            "eprintln ! ("@
        } else {
            "println ! ("@
        };
        let lit = lit_str_text(repeat_fmt(args.len() as int));
        if args.len() == 0 {
            Option::Some(head + lit + " ,)"@)
        } else {
            Option::Some(head + lit + " , "@ + args_text(args) + ")"@)
        }
    } else {
        Option::None
    }
}

/// Recognizes calls of the logging namespace and emits formatted writes.
pub fn handle(method: &str, args: &Vec<Arg>) -> (r: Option<String>)
    ensures
        match r {
            Option::Some(s) => console_text(method@, args@) matches Option::Some(t) && s@ == t,
            Option::None => console_text(method@, args@) is None,
        },
    decreases args@, 2int,
{
    let is_log = str_eq(method, "log");
    let is_err = str_eq(method, "error");
    if !is_log && !is_err {
        return Option::None;
    }
    let mut fmt = String::new();
    let mut i: usize = 0;
    while i < args.len()
        invariant
            i <= args@.len(),
            fmt@ == repeat_fmt(i as int),
        decreases args@.len() - i,
    {
        if i == 0 {
            fmt.append("{}");
        } else {
            fmt.append(" {}");
        }
        i = i + 1;
    }
    let lit = string_literal(fmt.as_str());
    let mut out = if is_err {
        String::from_str("eprintln ! (")
    } else {
        String::from_str("println ! (")
    };
    out.append(lit.as_str());
    if args.len() == 0 {
        out.append(" ,)");
    } else {
        out.append(" , ");
        let at = crate::func::convert_args(args);
        out.append(at.as_str());
        out.append(")");
    }
    Option::Some(out)
}

} // verus!
