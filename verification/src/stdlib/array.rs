use vstd::prelude::*;

use crate::ast::Arg;
use crate::ast::ArrowParam;
use crate::ast::Expr;
use crate::func::expr_text;
use crate::text::str_eq;

verus! {

/// Whether the callback of a collection rewrite takes more than one
/// parameter, in which case the element index is threaded through.
pub open spec fn callback_takes_index(e: Expr) -> bool {
    match e {
        Expr::Arrow(ps, _, _) => ps.len() > 1,
        _ => false,
    }
}

/// The native text for a recognized collection instance method on an
/// already rendered receiver; recognition is by name only.
pub open spec fn array_m_text(ot: Seq<char>, m: Seq<char>, args: Seq<Arg>) -> Option<Seq<char>>
    decreases args, 2int,
{
    if m == "push"@ {
        if args.len() == 1 {
            Option::Some(ot + " . push ("@ + expr_text(args[0].expr) + ")"@)
        } else {
            Option::None
        }
    } else if m == "map"@ {
        if args.len() == 1 {
            if callback_takes_index(args[0].expr) {
                Option::Some(
                    ot + " . iter () . cloned () . enumerate () . map (| (idx , val) | ("@
                        + expr_text(args[0].expr)
                        + ") (val , idx as f64)) . collect :: < Vec < _ > > ()"@,
                )
            } else {
                Option::Some(
                    ot + " . iter () . cloned () . map ("@ + expr_text(args[0].expr)
                        + ") . collect :: < Vec < _ > > ()"@,
                )
            }
        } else {
            Option::None
        }
    } else if m == "filter"@ {
        if args.len() == 1 {
            Option::Some(
                ot + " . iter () . filter (| x | ("@ + expr_text(args[0].expr)
                    + ") (* x)) . cloned () . collect :: < Vec < _ > > ()"@,
            )
        } else {
            Option::None
        }
    } else if m == "join"@ {
        if args.len() == 1 {
            Option::Some(ot + " . join (& "@ + expr_text(args[0].expr) + ")"@)
        } else {
            Option::None
        }
    } else {
        Option::None
    }
}

/// Recognizes collection instance methods by name and emits their native
/// iterator chains on the rendered receiver.
pub fn handle_method(obj_text: &str, method: &str, args: &Vec<Arg>) -> (r: Option<String>)
    ensures
        match r {
            Option::Some(s) => array_m_text(obj_text@, method@, args@) matches Option::Some(t)
                && s@ == t,
            Option::None => array_m_text(obj_text@, method@, args@) is None,
        },
    decreases args@, 2int,
{
    if str_eq(method, "push") {
        if args.len() == 1 {
            let mut out = obj_text.to_owned();
            out.append(" . push (");
            let v = crate::func::convert_expr(&args[0].expr);
            out.append(v.as_str());
            out.append(")");
            Option::Some(out)
        } else {
            Option::None
        }
    } else if str_eq(method, "map") {
        if args.len() == 1 {
            let takes_index = match &args[0].expr {
                Expr::Arrow(ps, _, _) => ps.len() > 1,
                _ => false,
            };
            if takes_index {
                let mut out = obj_text.to_owned();
                out.append(" . iter () . cloned () . enumerate () . map (| (idx , val) | (");
                let cb = crate::func::convert_expr(&args[0].expr);
                out.append(cb.as_str());
                out.append(") (val , idx as f64)) . collect :: < Vec < _ > > ()");
                Option::Some(out)
            } else {
                let mut out = obj_text.to_owned();
                out.append(" . iter () . cloned () . map (");
                let cb = crate::func::convert_expr(&args[0].expr);
                out.append(cb.as_str());
                out.append(") . collect :: < Vec < _ > > ()");
                Option::Some(out)
            }
        } else {
            Option::None
        }
    } else if str_eq(method, "filter") {
        if args.len() == 1 {
            let mut out = obj_text.to_owned();
            out.append(" . iter () . filter (| x | (");
            let cb = crate::func::convert_expr(&args[0].expr);
            out.append(cb.as_str());
            out.append(") (* x)) . cloned () . collect :: < Vec < _ > > ()");
            Option::Some(out)
        } else {
            Option::None
        }
    } else if str_eq(method, "join") {
        if args.len() == 1 {
            let mut out = obj_text.to_owned();
            out.append(" . join (& ");
            let v = crate::func::convert_expr(&args[0].expr);
            out.append(v.as_str());
            out.append(")");
            Option::Some(out)
        } else {
            Option::None
        }
    } else {
        Option::None
    }
}

} // verus!
