use vstd::prelude::*;

use crate::ast::Arg;
use crate::func::expr_text;
use crate::text::str_eq;

verus! {

/// The native text for a recognized structured-data call: encoding maps to
/// native serialization, decoding to native deserialization into the
/// dynamic value type.
pub open spec fn json_text(m: Seq<char>, args: Seq<Arg>) -> Option<Seq<char>>
    decreases args, 2int,
{
    if m == "stringify"@ && args.len() > 0 {
        Option::Some(
            "serde_json :: to_string (& "@ + expr_text(args[0].expr) + ") . unwrap ()"@,
        )
    } else if m == "parse"@ && args.len() > 0 {
        Option::Some(
            "serde_json :: from_str :: < serde_json :: Value > (& "@ + expr_text(args[0].expr)
                + ") . unwrap ()"@,
        )
    } else {
        Option::None
    }
}

/// Recognizes calls of the structured-data namespace and emits native
/// serialization calls.
pub fn handle(method: &str, args: &Vec<Arg>) -> (r: Option<String>)
    ensures
        match r {
            Option::Some(s) => json_text(method@, args@) matches Option::Some(t) && s@ == t,
            Option::None => json_text(method@, args@) is None,
        },
    decreases args@, 2int,
{
    if str_eq(method, "stringify") && args.len() > 0 {
        let mut out = String::from_str("serde_json :: to_string (& ");
        let v = crate::func::convert_expr(&args[0].expr);
        out.append(v.as_str());
        out.append(") . unwrap ()");
        Option::Some(out)
    } else if str_eq(method, "parse") && args.len() > 0 {
        let mut out = String::from_str("serde_json :: from_str :: < serde_json :: Value > (& ");
        let v = crate::func::convert_expr(&args[0].expr);
        out.append(v.as_str());
        out.append(") . unwrap ()");
        Option::Some(out)
    } else {
        Option::None
    }
}

} // verus!
