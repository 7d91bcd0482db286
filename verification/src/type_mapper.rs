use vstd::prelude::*;

use crate::ast::PrimKind;
use crate::ast::SourceType;
use crate::ast::TargetType;

verus! {

/// Whether a union member is the null or undefined keyword, the members that
/// make a union optional.
pub open spec fn is_nullish(t: SourceType) -> bool {
    match t {
        SourceType::Primitive(k) => k == PrimKind::Null || k == PrimKind::Undefined,
        _ => false,
    }
}

pub open spec fn has_null_member(ms: Seq<SourceType>) -> bool {
    exists|j: int| 0 <= j < ms.len() && is_nullish(ms[j])
}

/// The first union member that is not null or undefined, if any; it becomes
/// the payload of the option type.
pub open spec fn first_value_member(ms: Seq<SourceType>) -> Option<SourceType>
    decreases ms.len(),
{
    if ms.len() == 0 {
        Option::None
    } else if !is_nullish(ms[0]) {
        Option::Some(ms[0])
    } else {
        first_value_member(ms.drop_first())
    }
}

/// The type mapping for types in nested positions: primitives map one to
/// one, arrays to vectors, the temporal reference type to owned text, other
/// references pass through by name, and everything else falls back to the
/// dynamic value type. Nested positions do not recognize unions.
pub open spec fn maps_inner_to(t: SourceType, r: TargetType) -> bool
    decreases t,
{
    match t {
        SourceType::Primitive(k) => match k {
            PrimKind::Text => r matches TargetType::Owned(n) && n@ == "String"@,
            PrimKind::Number => r matches TargetType::Owned(n) && n@ == "f64"@,
            PrimKind::Boolean => r matches TargetType::Owned(n) && n@ == "bool"@,
            PrimKind::Void => r matches TargetType::Unit,
            _ => r matches TargetType::DynamicValue,
        },
        SourceType::Array(e) => r matches TargetType::Vector(inner) && maps_inner_to(*e, *inner),
        SourceType::Reference(n, args) => if n@ == "Date"@ {
            r matches TargetType::Owned(m) && m@ == "String"@
        } else if n@ == "Array"@ {
            if args.len() > 0 {
                r matches TargetType::Vector(inner) && maps_inner_to(args[0], *inner)
            } else {
                r matches TargetType::Vector(inner) && *inner matches TargetType::DynamicValue
            }
        } else {
            r matches TargetType::Owned(m) && m@ == n@
        },
        SourceType::Promise(_) => r matches TargetType::Owned(m) && m@ == "Promise"@,
        _ => r matches TargetType::DynamicValue,
    }
}

/// The full type mapping, applied to a type in annotation position: on top
/// of the nested rules it turns an optional annotation or a union holding
/// null or undefined into an option type. A union of anything else, like
/// every construct without a rule, falls back to the dynamic value type, so
/// the mapping is total.
pub open spec fn maps_full_to(t: SourceType, r: TargetType) -> bool
    decreases t,
{
    match t {
        SourceType::Primitive(k) => match k {
            PrimKind::Text => r matches TargetType::Owned(n) && n@ == "String"@,
            PrimKind::Number => r matches TargetType::Owned(n) && n@ == "f64"@,
            PrimKind::Boolean => r matches TargetType::Owned(n) && n@ == "bool"@,
            PrimKind::Void => r matches TargetType::Unit,
            _ => r matches TargetType::DynamicValue,
        },
        SourceType::Array(e) => r matches TargetType::Vector(inner) && maps_inner_to(*e, *inner),
        SourceType::Reference(n, args) => if n@ == "Date"@ {
            r matches TargetType::Owned(m) && m@ == "String"@
        } else if n@ == "Array"@ {
            if args.len() > 0 {
                r matches TargetType::Vector(inner) && maps_inner_to(args[0], *inner)
            } else {
                r matches TargetType::Vector(inner) && *inner matches TargetType::DynamicValue
            }
        } else {
            r matches TargetType::Owned(m) && m@ == n@
        },
        SourceType::Optional(inner) => r matches TargetType::OptionOf(i) && maps_inner_to(
            *inner,
            *i,
        ),
        SourceType::Union(ms) => if has_null_member(ms@) {
            r matches TargetType::OptionOf(i) && (match first_value_member(ms@) {
                Option::Some(m) => maps_inner_to(m, *i),
                Option::None => *i matches TargetType::DynamicValue,
            })
        } else {
            r matches TargetType::DynamicValue
        },
        SourceType::Promise(_) => r matches TargetType::Owned(m) && m@ == "Promise"@,
        _ => r matches TargetType::DynamicValue,
    }
}

/// The mapping of a whole annotation: a missing annotation always maps to
/// the dynamic value type.
pub open spec fn maps_opt_to(t: Option<SourceType>, r: TargetType) -> bool {
    match t {
        Option::Some(ty) => maps_full_to(ty, r),
        Option::None => r matches TargetType::DynamicValue,
    }
}

/// The rendered text of a target type, token by token.
pub open spec fn type_text(r: TargetType) -> Seq<char>
    decreases r,
{
    match r {
        TargetType::Owned(n) => n@,
        TargetType::GenericParam(n) => n@,
        TargetType::Vector(t) => "Vec < "@ + type_text(*t) + " >"@,
        TargetType::OptionOf(t) => "Option < "@ + type_text(*t) + " >"@,
        TargetType::SharedHandle(t) => "std :: sync :: Arc < "@ + type_text(*t) + " >"@,
        TargetType::ResultOf(a, b) => "Result < "@ + type_text(*a) + " , "@ + type_text(*b)
            + " >"@,
        TargetType::DynamicValue => "serde_json :: Value"@,
        TargetType::Unit => "()"@,
    }
}

/// The annotation one obtains by stripping exactly one promise layer; any
/// other annotation is left as it is.
pub open spec fn unwrap_async(t: SourceType) -> SourceType {
    match t {
        SourceType::Promise(inner) => *inner,
        _ => t,
    }
}

/// Stripping a promise strips exactly one layer, and every annotation that
/// is not a promise is left untouched.
pub proof fn lemma_unwrap_async(t: SourceType)
    ensures
        t matches SourceType::Promise(inner) ==> unwrap_async(t) == *inner,
        !(t matches SourceType::Promise(_)) ==> unwrap_async(t) == t,
{
}

fn is_nullish_exec(t: &SourceType) -> (b: bool)
    ensures
        b == is_nullish(*t),
{
    match t {
        SourceType::Primitive(k) => match k {
            PrimKind::Null => true,
            PrimKind::Undefined => true,
            _ => false,
        },
        _ => false,
    }
}

proof fn lemma_first_value_at(ms: Seq<SourceType>, j: int)
    requires
        0 <= j < ms.len(),
        forall|k: int| 0 <= k < j ==> is_nullish(ms[k]),
        !is_nullish(ms[j]),
    ensures
        first_value_member(ms) == Option::Some(ms[j]),
    decreases j,
{
    if j > 0 {
        lemma_first_value_at(ms.drop_first(), j - 1);
    }
}

proof fn lemma_first_value_none(ms: Seq<SourceType>)
    requires
        forall|k: int| 0 <= k < ms.len() ==> is_nullish(ms[k]),
    ensures
        first_value_member(ms) == Option::None::<SourceType>,
    decreases ms.len(),
{
    if ms.len() > 0 {
        lemma_first_value_none(ms.drop_first());
    }
}

/// Maps a type in nested position to its target type; total over every
/// annotation shape.
pub fn map_inner_type(t: &SourceType) -> (r: TargetType)
    ensures
        maps_inner_to(*t, r),
    decreases *t,
{
    match t {
        SourceType::Primitive(k) => match k {
            PrimKind::Text => TargetType::Owned(String::from_str("String")),
            PrimKind::Number => TargetType::Owned(String::from_str("f64")),
            PrimKind::Boolean => TargetType::Owned(String::from_str("bool")),
            PrimKind::Void => TargetType::Unit,
            _ => TargetType::DynamicValue,
        },
        SourceType::Array(e) => TargetType::Vector(Box::new(map_inner_type(e))),
        SourceType::Reference(n, args) => {
            if crate::text::str_eq(n.as_str(), "Date") {
                TargetType::Owned(String::from_str("String"))
            } else if crate::text::str_eq(n.as_str(), "Array") {
                if args.len() > 0 {
                    TargetType::Vector(Box::new(map_inner_type(&args[0])))
                } else {
                    TargetType::Vector(Box::new(TargetType::DynamicValue))
                }
            } else {
                TargetType::Owned(n.clone())
            }
        },
        SourceType::Promise(_) => TargetType::Owned(String::from_str("Promise")),
        _ => TargetType::DynamicValue,
    }
}

fn has_nullish_member(ms: &Vec<SourceType>) -> (b: bool)
    ensures
        b == has_null_member(ms@),
{
    let mut found_null: bool = false;
    let mut i: usize = 0;
    while i < ms.len()
        invariant
            i <= ms.len(),
            found_null == has_null_member(ms@.take(i as int)),
        decreases ms.len() - i,
    {
        if is_nullish_exec(&ms[i]) {
            found_null = true;
        }
        proof {
            assert(ms@.take(i + 1 as int).drop_last() =~= ms@.take(i as int));
            assert(ms@.take(i + 1 as int).last() == ms@[i as int]);
            if found_null {
                assert(has_null_member(ms@.take(i + 1 as int))) by {
                    if has_null_member(ms@.take(i as int)) {
                        let j = choose|j: int|
                            0 <= j < ms@.take(i as int).len() && #[trigger] is_nullish(
                                ms@.take(i as int)[j],
                            );
                        assert(is_nullish(ms@.take(i + 1 as int)[j]));
                    } else {
                        assert(is_nullish(ms@.take(i + 1 as int)[i as int]));
                    }
                }
            } else {
                assert(!has_null_member(ms@.take(i + 1 as int))) by {
                    if has_null_member(ms@.take(i + 1 as int)) {
                        let j = choose|j: int|
                            0 <= j < i + 1 && #[trigger] is_nullish(ms@.take(i + 1 as int)[j]);
                        if j < i {
                            assert(is_nullish(ms@.take(i as int)[j]));
                        }
                    }
                }
            }
        }
        i = i + 1;
    }
    proof {
        assert(ms@.take(ms@.len() as int) =~= ms@);
    }
    found_null
}

fn map_union(ms: &Vec<SourceType>) -> (r: TargetType)
    ensures
        has_null_member(ms@) ==> (r matches TargetType::OptionOf(i) && (
        match first_value_member(ms@) {
            Option::Some(m) => maps_inner_to(m, *i),
            Option::None => *i matches TargetType::DynamicValue,
        })),
        !has_null_member(ms@) ==> r matches TargetType::DynamicValue,
{
    let found_null = has_nullish_member(ms);
    if !found_null {
        return TargetType::DynamicValue;
    }
    let mut j: usize = 0;
    while j < ms.len()
        invariant
            j <= ms.len(),
            has_null_member(ms@),
            forall|k: int| 0 <= k < j ==> is_nullish(ms@[k]),
        decreases ms.len() - j,
    {
        if !is_nullish_exec(&ms[j]) {
            let inner = map_inner_type(&ms[j]);
            proof {
                lemma_first_value_at(ms@, j as int);
            }
            return TargetType::OptionOf(Box::new(inner));
        }
        j = j + 1;
    }
    proof {
        lemma_first_value_none(ms@);
    }
    TargetType::OptionOf(Box::new(TargetType::DynamicValue))
}

/// Maps an annotation to its target type. The mapping is total: it never
/// fails, whatever the annotation holds, and a missing annotation maps to
/// the dynamic value type.
pub fn map_ts_type(t: Option<&SourceType>) -> (r: TargetType)
    ensures
        maps_opt_to(
            match t {
                Option::Some(ty) => Option::Some(*ty),
                Option::None => Option::None,
            },
            r,
        ),
{
    match t {
        Option::None => TargetType::DynamicValue,
        Option::Some(ty) => match ty {
            SourceType::Primitive(k) => match k {
                PrimKind::Text => TargetType::Owned(String::from_str("String")),
                PrimKind::Number => TargetType::Owned(String::from_str("f64")),
                PrimKind::Boolean => TargetType::Owned(String::from_str("bool")),
                PrimKind::Void => TargetType::Unit,
                _ => TargetType::DynamicValue,
            },
            SourceType::Array(e) => TargetType::Vector(Box::new(map_inner_type(e))),
            SourceType::Reference(n, args) => {
                if crate::text::str_eq(n.as_str(), "Date") {
                    TargetType::Owned(String::from_str("String"))
                } else if crate::text::str_eq(n.as_str(), "Array") {
                    if args.len() > 0 {
                        TargetType::Vector(Box::new(map_inner_type(&args[0])))
                    } else {
                        TargetType::Vector(Box::new(TargetType::DynamicValue))
                    }
                } else {
                    TargetType::Owned(n.clone())
                }
            },
            SourceType::Optional(inner) => TargetType::OptionOf(Box::new(map_inner_type(inner))),
            SourceType::Union(ms) => map_union(ms),
            SourceType::Promise(_) => TargetType::Owned(String::from_str("Promise")),
            _ => TargetType::DynamicValue,
        },
    }
}

/// Unwraps one promise layer for async-return contexts: the inner type of a
/// promise is mapped directly, and any other annotation goes through the
/// full mapping unchanged.
pub fn unwrap_promise_type(t: Option<&SourceType>) -> (r: TargetType)
    ensures
        match t {
            Option::Some(ty) => match *ty {
                SourceType::Promise(inner) => maps_inner_to(unwrap_async(*ty), r) && unwrap_async(
                    *ty,
                ) == *inner,
                _ => maps_full_to(*ty, r),
            },
            Option::None => r matches TargetType::DynamicValue,
        },
{
    match t {
        Option::Some(ty) => match ty {
            SourceType::Promise(inner) => map_inner_type(inner),
            _ => map_ts_type(t),
        },
        Option::None => TargetType::DynamicValue,
    }
}

/// Whether an annotation makes the annotated field optional: it is a union
/// holding null or undefined, or the optional shorthand for one.
pub open spec fn is_optional_spec(t: Option<SourceType>) -> bool {
    match t {
        Option::Some(ty) => match ty {
            SourceType::Union(ms) => has_null_member(ms@),
            SourceType::Optional(_) => true,
            _ => false,
        },
        Option::None => false,
    }
}

pub fn is_optional_type(t: Option<&SourceType>) -> (r: bool)
    ensures
        r == is_optional_spec(
            match t {
                Option::Some(ty) => Option::Some(*ty),
                Option::None => Option::None,
            },
        ),
{
    match t {
        Option::Some(ty) => match ty {
            SourceType::Optional(_) => true,
            SourceType::Union(ms) => has_nullish_member(ms),
            _ => false,
        },
        Option::None => false,
    }
}

/// Whether a return annotation denotes no value: the void keyword, or a
/// promise of it.
pub open spec fn void_like(t: Option<SourceType>) -> bool {
    match t {
        Option::Some(ty) => match ty {
            SourceType::Primitive(k) => k == PrimKind::Void,
            SourceType::Promise(inner) => *inner matches SourceType::Primitive(k) && k
                == PrimKind::Void,
            _ => false,
        },
        Option::None => false,
    }
}

pub fn is_void_or_promise_void(t: Option<&SourceType>) -> (r: bool)
    ensures
        r == void_like(
            match t {
                Option::Some(ty) => Option::Some(*ty),
                Option::None => Option::None,
            },
        ),
{
    match t {
        Option::Some(ty) => match ty {
            SourceType::Primitive(k) => match k {
                PrimKind::Void => true,
                _ => false,
            },
            SourceType::Promise(inner) => match &**inner {
                SourceType::Primitive(k) => match k {
                    PrimKind::Void => true,
                    _ => false,
                },
                _ => false,
            },
            _ => false,
        },
        Option::None => false,
    }
}

/// Renders a target type as target-language text.
pub fn render_target_type(t: &TargetType) -> (r: String)
    ensures
        r@ == type_text(*t),
    decreases *t,
{
    match t {
        TargetType::Owned(n) => n.clone(),
        TargetType::GenericParam(n) => n.clone(),
        TargetType::Vector(inner) => {
            let mut out = String::from_str("Vec < ");
            let s = render_target_type(inner);
            out.append(s.as_str());
            out.append(" >");
            out
        },
        TargetType::OptionOf(inner) => {
            let mut out = String::from_str("Option < ");
            let s = render_target_type(inner);
            out.append(s.as_str());
            out.append(" >");
            out
        },
        TargetType::SharedHandle(inner) => {
            let mut out = String::from_str("std :: sync :: Arc < ");
            let s = render_target_type(inner);
            out.append(s.as_str());
            out.append(" >");
            out
        },
        TargetType::ResultOf(a, b) => {
            let mut out = String::from_str("Result < ");
            let sa = render_target_type(a);
            out.append(sa.as_str());
            out.append(" , ");
            let sb = render_target_type(b);
            out.append(sb.as_str());
            out.append(" >");
            out
        },
        TargetType::DynamicValue => String::from_str("serde_json :: Value"),
        TargetType::Unit => String::from_str("()"),
    }
}

/// The rendered text of the target type that the nested mapping assigns.
pub open spec fn inner_mapped_text(t: SourceType) -> Seq<char>
    decreases t,
{
    match t {
        SourceType::Primitive(k) => match k {
            PrimKind::Text => "String"@,
            PrimKind::Number => "f64"@,
            PrimKind::Boolean => "bool"@,
            PrimKind::Void => "()"@,
            _ => "serde_json :: Value"@,
        },
        SourceType::Array(e) => "Vec < "@ + inner_mapped_text(*e) + " >"@,
        SourceType::Reference(n, args) => if n@ == "Date"@ {
            "String"@
        } else if n@ == "Array"@ {
            if args.len() > 0 {
                "Vec < "@ + inner_mapped_text(args[0]) + " >"@
            } else {
                "Vec < "@ + "serde_json :: Value"@ + " >"@
            }
        } else {
            n@
        },
        SourceType::Promise(_) => "Promise"@,
        _ => "serde_json :: Value"@,
    }
}

/// The rendered text of the target type that the full mapping assigns.
pub open spec fn full_mapped_text(t: SourceType) -> Seq<char>
    decreases t,
{
    match t {
        SourceType::Primitive(k) => match k {
            PrimKind::Text => "String"@,
            PrimKind::Number => "f64"@,
            PrimKind::Boolean => "bool"@,
            PrimKind::Void => "()"@,
            _ => "serde_json :: Value"@,
        },
        SourceType::Array(e) => "Vec < "@ + inner_mapped_text(*e) + " >"@,
        SourceType::Reference(n, args) => if n@ == "Date"@ {
            "String"@
        } else if n@ == "Array"@ {
            if args.len() > 0 {
                "Vec < "@ + inner_mapped_text(args[0]) + " >"@
            } else {
                "Vec < "@ + "serde_json :: Value"@ + " >"@
            }
        } else {
            n@
        },
        SourceType::Optional(inner) => "Option < "@ + inner_mapped_text(*inner) + " >"@,
        SourceType::Union(ms) => if has_null_member(ms@) {
            "Option < "@ + (match first_value_member(ms@) {
                Option::Some(m) => inner_mapped_text(m),
                Option::None => "serde_json :: Value"@,
            }) + " >"@
        } else {
            "serde_json :: Value"@
        },
        SourceType::Promise(_) => "Promise"@,
        _ => "serde_json :: Value"@,
    }
}

/// The rendered text of a whole annotation's mapping.
pub open spec fn opt_mapped_text(t: Option<SourceType>) -> Seq<char> {
    match t {
        Option::Some(ty) => full_mapped_text(ty),
        Option::None => "serde_json :: Value"@,
    }
}

/// The nested mapping relation determines the mapped type's text.
pub proof fn lemma_inner_maps_text(t: SourceType, r: TargetType)
    requires
        maps_inner_to(t, r),
    ensures
        type_text(r) == inner_mapped_text(t),
    decreases t,
{
    match t {
        SourceType::Array(e) => {
            lemma_inner_maps_text(*e, *r->Vector_0);
        },
        SourceType::Reference(n, args) => {
            if n@ == "Date"@ {
            } else if n@ == "Array"@ {
                if args.len() > 0 {
                    lemma_inner_maps_text(args[0], *r->Vector_0);
                } else {
                    assert(type_text(*r->Vector_0) == "serde_json :: Value"@);
                }
            }
        },
        _ => {},
    }
}

/// The full mapping relation determines the mapped type's text.
pub proof fn lemma_full_maps_text(t: SourceType, r: TargetType)
    requires
        maps_full_to(t, r),
    ensures
        type_text(r) == full_mapped_text(t),
    decreases t,
{
    match t {
        SourceType::Array(e) => {
            lemma_inner_maps_text(*e, *r->Vector_0);
        },
        SourceType::Reference(n, args) => {
            if n@ == "Date"@ {
            } else if n@ == "Array"@ {
                if args.len() > 0 {
                    lemma_inner_maps_text(args[0], *r->Vector_0);
                } else {
                    assert(type_text(*r->Vector_0) == "serde_json :: Value"@);
                }
            }
        },
        SourceType::Optional(inner) => {
            lemma_inner_maps_text(*inner, *r->OptionOf_0);
        },
        SourceType::Union(ms) => {
            if has_null_member(ms@) {
                match first_value_member(ms@) {
                    Option::Some(m) => {
                        lemma_inner_maps_text(m, *r->OptionOf_0);
                    },
                    Option::None => {
                        assert(type_text(*r->OptionOf_0) == "serde_json :: Value"@);
                    },
                }
            }
        },
        _ => {},
    }
}

/// The whole-annotation mapping relation determines the mapped type's text.
pub proof fn lemma_opt_maps_text(t: Option<SourceType>, r: TargetType)
    requires
        maps_opt_to(t, r),
    ensures
        type_text(r) == opt_mapped_text(t),
{
    match t {
        Option::Some(ty) => {
            lemma_full_maps_text(ty, r);
        },
        Option::None => {},
    }
}

} // verus!
