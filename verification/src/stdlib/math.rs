use vstd::prelude::*;

use crate::ast::Arg;
use crate::ast::Expr;
use crate::func::expr_text;
use crate::text::str_eq;

verus! {

/// The native text for a recognized numeric-helper call, or nothing where
/// the shape is not recognized. Variadic maxima and minima fold from the
/// infinite seeds.
pub open spec fn math_text(m: Seq<char>, args: Seq<Arg>) -> Option<Seq<char>>
    decreases args, 2int,
{
    if m == "max"@ {
        if args.len() == 1 && args[0].spread {
            Option::Some(
                expr_text(args[0].expr)
                    + " . iter () . fold (f64 :: NEG_INFINITY , | a , & b | a . max (b))"@,
            )
        } else if args.len() == 2 && args[0].spread {
            Option::Some(
                expr_text(args[0].expr) + " . iter () . fold ("@ + expr_text(args[1].expr)
                    + " , | a , & b | a . max (b))"@,
            )
        } else if args.len() == 2 {
            Option::Some(expr_text(args[0].expr) + " . max ("@ + expr_text(args[1].expr) + ")"@)
        } else {
            Option::None
        }
    } else if m == "min"@ {
        if args.len() == 1 && args[0].spread {
            Option::Some(
                expr_text(args[0].expr)
                    + " . iter () . fold (f64 :: INFINITY , | a , & b | a . min (b))"@,
            )
        } else if args.len() == 2 {
            Option::Some(expr_text(args[0].expr) + " . min ("@ + expr_text(args[1].expr) + ")"@)
        } else {
            Option::None
        }
    } else if m == "round"@ {
        if args.len() == 1 {
            Option::Some("("@ + expr_text(args[0].expr) + ") . round ()"@)
        } else {
            Option::None
        }
    } else if m == "floor"@ {
        if args.len() == 1 {
            Option::Some("("@ + expr_text(args[0].expr) + ") . floor ()"@)
        } else {
            Option::None
        }
    } else if m == "ceil"@ {
        if args.len() == 1 {
            Option::Some("("@ + expr_text(args[0].expr) + ") . ceil ()"@)
        } else {
            Option::None
        }
    } else if m == "abs"@ {
        if args.len() == 1 {
            Option::Some("("@ + expr_text(args[0].expr) + ") . abs ()"@)
        } else {
            Option::None
        }
    } else if m == "random"@ {
        if args.len() == 0 {
            Option::Some("rand :: random :: < f64 > ()"@)
        } else {
            Option::None
        }
    } else {
        Option::None
    }
}

/// Recognizes calls of the numeric helper namespace and emits their native
/// equivalents.
pub fn handle(method: &str, args: &Vec<Arg>) -> (r: Option<String>)
    ensures
        match r {
            Option::Some(s) => math_text(method@, args@) matches Option::Some(t) && s@ == t,
            Option::None => math_text(method@, args@) is None,
        },
    decreases args@, 2int,
{
    if str_eq(method, "max") {
        if args.len() == 1 && args[0].spread {
            let mut out = crate::func::convert_expr(&args[0].expr);
            out.append(" . iter () . fold (f64 :: NEG_INFINITY , | a , & b | a . max (b))");
            Option::Some(out)
        } else if args.len() == 2 && args[0].spread {
            let mut out = crate::func::convert_expr(&args[0].expr);
            out.append(" . iter () . fold (");
            let v = crate::func::convert_expr(&args[1].expr);
            out.append(v.as_str());
            out.append(" , | a , & b | a . max (b))");
            Option::Some(out)
        } else if args.len() == 2 {
            let mut out = crate::func::convert_expr(&args[0].expr);
            out.append(" . max (");
            let v = crate::func::convert_expr(&args[1].expr);
            out.append(v.as_str());
            out.append(")");
            Option::Some(out)
        } else {
            Option::None
        }
    } else if str_eq(method, "min") {
        if args.len() == 1 && args[0].spread {
            let mut out = crate::func::convert_expr(&args[0].expr);
            out.append(" . iter () . fold (f64 :: INFINITY , | a , & b | a . min (b))");
            Option::Some(out)
        } else if args.len() == 2 {
            let mut out = crate::func::convert_expr(&args[0].expr);
            out.append(" . min (");
            let v = crate::func::convert_expr(&args[1].expr);
            out.append(v.as_str());
            out.append(")");
            Option::Some(out)
        } else {
            Option::None
        }
    } else if str_eq(method, "round") {
        if args.len() == 1 {
            let mut out = String::from_str("(");
            let v = crate::func::convert_expr(&args[0].expr);
            out.append(v.as_str());
            out.append(") . round ()");
            Option::Some(out)
        } else {
            Option::None
        }
    } else if str_eq(method, "floor") {
        if args.len() == 1 {
            let mut out = String::from_str("(");
            let v = crate::func::convert_expr(&args[0].expr);
            out.append(v.as_str());
            out.append(") . floor ()");
            Option::Some(out)
        } else {
            Option::None
        }
    } else if str_eq(method, "ceil") {
        if args.len() == 1 {
            let mut out = String::from_str("(");
            let v = crate::func::convert_expr(&args[0].expr);
            out.append(v.as_str());
            out.append(") . ceil ()");
            Option::Some(out)
        } else {
            Option::None
        }
    } else if str_eq(method, "abs") {
        if args.len() == 1 {
            let mut out = String::from_str("(");
            let v = crate::func::convert_expr(&args[0].expr);
            out.append(v.as_str());
            out.append(") . abs ()");
            Option::Some(out)
        } else {
            Option::None
        }
    } else if str_eq(method, "random") {
        if args.len() == 0 {
            Option::Some(String::from_str("rand :: random :: < f64 > ()"))
        } else {
            Option::None
        }
    } else {
        Option::None
    }
}

} // verus!
