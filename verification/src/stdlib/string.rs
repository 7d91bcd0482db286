use vstd::prelude::*;

use crate::ast::Arg;
use crate::func::expr_text;
use crate::text::str_eq;

verus! {

/// The native text for a recognized string instance method on an already
/// rendered receiver; recognition is by name only, without type inference.
pub open spec fn string_m_text(ot: Seq<char>, m: Seq<char>, args: Seq<Arg>) -> Option<Seq<char>>
    decreases args, 2int,
{
    if m == "includes"@ {
        if args.len() > 0 {
            Option::Some(ot + " . contains ("@ + expr_text(args[0].expr) + ")"@)
        } else {
            Option::None
        }
    } else if m == "replace"@ {
        if args.len() == 2 {
            Option::Some(
                ot + " . replace (& "@ + expr_text(args[0].expr) + " , & "@ + expr_text(
                    args[1].expr,
                ) + ")"@,
            )
        } else {
            Option::None
        }
    } else if m == "split"@ {
        if args.len() > 0 {
            Option::Some(
                ot + " . split (& "@ + expr_text(args[0].expr)
                    + ") . collect :: < Vec < _ > > ()"@,
            )
        } else {
            Option::None
        }
    } else if m == "toUpperCase"@ {
        if args.len() == 0 {
            Option::Some(ot + " . to_uppercase ()"@)
        } else {
            Option::None
        }
    } else if m == "toLowerCase"@ {
        if args.len() == 0 {
            Option::Some(ot + " . to_lowercase ()"@)
        } else {
            Option::None
        }
    } else if m == "trim"@ {
        if args.len() == 0 {
            Option::Some(ot + " . trim ()"@)
        } else {
            Option::None
        }
    } else if m == "toString"@ {
        if args.len() == 0 {
            Option::Some(ot + " . to_string ()"@)
        } else {
            Option::None
        }
    } else {
        Option::None
    }
}

/// Recognizes string instance methods by name and emits their native
/// equivalents on the rendered receiver.
pub fn handle(obj_text: &str, method: &str, args: &Vec<Arg>) -> (r: Option<String>)
    ensures
        match r {
            Option::Some(s) => string_m_text(obj_text@, method@, args@) matches Option::Some(t)
                && s@ == t,
            Option::None => string_m_text(obj_text@, method@, args@) is None,
        },
    decreases args@, 2int,
{
    if str_eq(method, "includes") {
        if args.len() > 0 {
            let mut out = obj_text.to_owned();
            out.append(" . contains (");
            let v = crate::func::convert_expr(&args[0].expr);
            out.append(v.as_str());
            out.append(")");
            Option::Some(out)
        } else {
            Option::None
        }
    } else if str_eq(method, "replace") {
        if args.len() == 2 {
            let mut out = obj_text.to_owned();
            out.append(" . replace (& ");
            let v = crate::func::convert_expr(&args[0].expr);
            out.append(v.as_str());
            out.append(" , & ");
            let w = crate::func::convert_expr(&args[1].expr);
            out.append(w.as_str());
            out.append(")");
            Option::Some(out)
        } else {
            Option::None
        }
    } else if str_eq(method, "split") {
        if args.len() > 0 {
            let mut out = obj_text.to_owned();
            out.append(" . split (& ");
            let v = crate::func::convert_expr(&args[0].expr);
            out.append(v.as_str());
            out.append(") . collect :: < Vec < _ > > ()");
            Option::Some(out)
        } else {
            Option::None
        }
    } else if str_eq(method, "toUpperCase") {
        if args.len() == 0 {
            let mut out = obj_text.to_owned();
            out.append(" . to_uppercase ()");
            Option::Some(out)
        } else {
            Option::None
        }
    } else if str_eq(method, "toLowerCase") {
        if args.len() == 0 {
            let mut out = obj_text.to_owned();
            out.append(" . to_lowercase ()");
            Option::Some(out)
        } else {
            Option::None
        }
    } else if str_eq(method, "trim") {
        if args.len() == 0 {
            let mut out = obj_text.to_owned();
            out.append(" . trim ()");
            Option::Some(out)
        } else {
            Option::None
        }
    } else if str_eq(method, "toString") {
        if args.len() == 0 {
            let mut out = obj_text.to_owned();
            out.append(" . to_string ()");
            Option::Some(out)
        } else {
            Option::None
        }
    } else {
        Option::None
    }
}

} // verus!
