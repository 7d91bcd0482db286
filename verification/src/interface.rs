use vstd::prelude::*;

use crate::ast::EnumInit;
use crate::ast::EnumMember;
use crate::ast::InterfaceDecl;
use crate::ast::PropSig;
use crate::ast::SourceType;
use crate::ast::TsEnumDecl;
use crate::ast::TypeAlias;
use crate::names::pascal_text;
use crate::names::snake_text;
use crate::names::to_pascal_case;
use crate::names::to_snake_case;
use crate::text::brace_wrap;
use crate::text::braced;
use crate::text::idec_text;
use crate::text::i64_dec;
use crate::text::join_tok;
use crate::text::lit_str_text;
use crate::text::string_literal;
use crate::text::str_eq;
use crate::type_mapper::lemma_opt_maps_text;
use crate::type_mapper::map_ts_type;
use crate::type_mapper::opt_mapped_text;
use crate::type_mapper::render_target_type;

verus! {

/// One field of the aggregate an interface lowers to, snake-cased and
/// optional members wrapped in an option.
pub open spec fn sig_piece(p: PropSig) -> Seq<char> {
    let base = opt_mapped_text(p.type_ann);
    "pub "@ + snake_text(p.name@) + " : "@ + (if p.optional {
        "Option < "@ + base + " >"@
    } else {
        base
    })
}

pub open spec fn sig_fields_text(ps: Seq<PropSig>) -> Seq<char>
    decreases ps.len(),
{
    if ps.len() == 0 {
        Seq::empty()
    } else if ps.len() == 1 {
        sig_piece(ps[0])
    } else {
        sig_fields_text(ps.drop_last()) + " , "@ + sig_piece(ps.last())
    }
}

pub open spec fn iface_generic_items(tps: Seq<String>) -> Seq<char>
    decreases tps.len(),
{
    if tps.len() == 0 {
        Seq::empty()
    } else if tps.len() == 1 {
        tps[0]@ + " : Clone"@
    } else {
        iface_generic_items(tps.drop_last()) + " , "@ + tps.last()@ + " : Clone"@
    }
}

pub open spec fn iface_generics_text(tps: Seq<String>) -> Seq<char> {
    if tps.len() == 0 {
        Seq::empty()
    } else {
        "< "@ + iface_generic_items(tps) + " >"@
    }
}

/// The aggregate an interface lowers to: always public, serialization
/// derives included, field names renamed back to the surface spelling.
pub open spec fn interface_text(d: InterfaceDecl) -> Seq<char> {
    let head =
        "# [derive (Default , Debug , Clone , PartialEq , serde :: Serialize , serde :: Deserialize)] # [serde (rename_all = \"camelCase\")] pub struct "@
        + d.name@;
    join_tok(head, iface_generics_text(d.type_params@)) + " "@ + brace_wrap(
        sig_fields_text(d.members@),
    )
}

fn render_sig(p: &PropSig) -> (r: String)
    ensures
        r@ == sig_piece(*p),
{
    let mut out = String::from_str("pub ");
    let sn = to_snake_case(p.name.as_str());
    out.append(sn.as_str());
    out.append(" : ");
    let tt = map_ts_type(p.type_ann.as_ref());
    proof {
        lemma_opt_maps_text(p.type_ann, tt);
    }
    let base = render_target_type(&tt);
    if p.optional {
        out.append("Option < ");
        out.append(base.as_str());
        out.append(" >");
    } else {
        out.append(base.as_str());
    }
    out
}

/// Converts an interface declaration to the text of an aggregate.
pub fn process_interface_decl(d: &InterfaceDecl) -> (r: String)
    ensures
        r@ == interface_text(*d),
{
    let mut out = String::from_str(
        "# [derive (Default , Debug , Clone , PartialEq , serde :: Serialize , serde :: Deserialize)] # [serde (rename_all = \"camelCase\")] pub struct ",
    );
    out.append(d.name.as_str());
    if d.type_params.len() > 0 {
        let mut items = String::new();
        let mut i: usize = 0;
        while i < d.type_params.len()
            invariant
                i <= d.type_params@.len(),
                items@ == iface_generic_items(d.type_params@.take(i as int)),
            decreases d.type_params@.len() - i,
        {
            if i > 0 {
                items.append(" , ");
            }
            items.append(d.type_params[i].as_str());
            items.append(" : Clone");
            proof {
                assert(d.type_params@.take(i + 1 as int).drop_last() =~= d.type_params@.take(
                    i as int,
                ));
                assert(d.type_params@.take(i + 1 as int).last() == d.type_params@[i as int]);
                assert(items@ =~= iface_generic_items(d.type_params@.take(i + 1 as int)));
            }
            i = i + 1;
        }
        proof {
            assert(d.type_params@.take(d.type_params@.len() as int) =~= d.type_params@);
        }
        let mut g = String::from_str("< ");
        g.append(items.as_str());
        g.append(" >");
        crate::text::append_tok(&mut out, g.as_str());
    }
    out.append(" ");
    let mut fields = String::new();
    let mut i: usize = 0;
    while i < d.members.len()
        invariant
            i <= d.members@.len(),
            fields@ == sig_fields_text(d.members@.take(i as int)),
        decreases d.members@.len() - i,
    {
        if i > 0 {
            fields.append(" , ");
        }
        let piece = render_sig(&d.members[i]);
        fields.append(piece.as_str());
        proof {
            assert(d.members@.take(i + 1 as int).drop_last() =~= d.members@.take(i as int));
            assert(d.members@.take(i + 1 as int).last() == d.members@[i as int]);
            assert(fields@ =~= sig_fields_text(d.members@.take(i + 1 as int)));
        }
        i = i + 1;
    }
    proof {
        assert(d.members@.take(d.members@.len() as int) =~= d.members@);
    }
    let fb = braced(fields.as_str());
    out.append(fb.as_str());
    proof {
        assert(out@ =~= interface_text(*d));
    }
    out
}

pub open spec fn strlit_at(t: SourceType) -> bool {
    t matches SourceType::StrLit(_)
}

/// Whether a union is made of string literals alone, the shape promoted to
/// a closed enum.
pub open spec fn is_string_union(ms: Seq<SourceType>) -> bool {
    ms.len() > 0 && (forall|i: int| 0 <= i < ms.len() ==> strlit_at(ms[i]))
}

/// One variant of the closed enum a string-literal union lowers to: the
/// first variant is the default, each is renamed back to its literal.
pub open spec fn union_variant_piece(t: SourceType, first: bool) -> Seq<char> {
    match t {
        SourceType::StrLit(v) => (if first {
            "# [default] "@
        } else {
            Seq::empty()
        }) + "# [serde (rename = "@ + lit_str_text(v@) + ")] "@ + pascal_text(v@, true),
        _ => Seq::empty(),
    }
}

pub open spec fn union_variants_text(ms: Seq<SourceType>) -> Seq<char>
    decreases ms.len(),
{
    if ms.len() == 0 {
        Seq::empty()
    } else if ms.len() == 1 {
        union_variant_piece(ms[0], true)
    } else {
        union_variants_text(ms.drop_last()) + " , "@ + union_variant_piece(ms.last(), false)
    }
}

/// One arm of the equality impl against owned text.
pub open spec fn eq_arm_string(name: Seq<char>, t: SourceType) -> Seq<char> {
    match t {
        SourceType::StrLit(v) => name + " :: "@ + pascal_text(v@, true) + " => other == "@
            + lit_str_text(v@),
        _ => Seq::empty(),
    }
}

pub open spec fn eq_arms_string_text(name: Seq<char>, ms: Seq<SourceType>) -> Seq<char>
    decreases ms.len(),
{
    if ms.len() == 0 {
        Seq::empty()
    } else if ms.len() == 1 {
        eq_arm_string(name, ms[0])
    } else {
        eq_arms_string_text(name, ms.drop_last()) + " , "@ + eq_arm_string(name, ms.last())
    }
}

/// One arm of the equality impl against borrowed text.
pub open spec fn eq_arm_str(name: Seq<char>, t: SourceType) -> Seq<char> {
    match t {
        SourceType::StrLit(v) => name + " :: "@ + pascal_text(v@, true) + " => * other == "@
            + lit_str_text(v@),
        _ => Seq::empty(),
    }
}

pub open spec fn eq_arms_str_text(name: Seq<char>, ms: Seq<SourceType>) -> Seq<char>
    decreases ms.len(),
{
    if ms.len() == 0 {
        Seq::empty()
    } else if ms.len() == 1 {
        eq_arm_str(name, ms[0])
    } else {
        eq_arms_str_text(name, ms.drop_last()) + " , "@ + eq_arm_str(name, ms.last())
    }
}

/// The closed enum a string-literal union lowers to, with equality impls
/// that compare against the literal spellings.
pub open spec fn union_enum_text(name: Seq<char>, ms: Seq<SourceType>, exporting: bool) -> Seq<
    char,
> {
    "# [derive (Debug , Clone , Copy , PartialEq , Eq , Default , serde :: Serialize , serde :: Deserialize)] "@
        + (if exporting {
        "pub enum "@
    } else {
        "enum "@
    }) + name + " "@ + brace_wrap(union_variants_text(ms)) + " impl PartialEq < String > for "@
        + name + " "@ + brace_wrap(
        "fn eq (& self , other : & String) -> bool "@ + brace_wrap(
            "match self "@ + brace_wrap(eq_arms_string_text(name, ms)),
        ),
    ) + " impl PartialEq < & str > for "@ + name + " "@ + brace_wrap(
        "fn eq (& self , other : & & str) -> bool "@ + brace_wrap(
            "match self "@ + brace_wrap(eq_arms_str_text(name, ms)),
        ),
    )
}

/// The text a type alias lowers to: a string-literal union becomes a
/// closed enum, anything else a plain alias of the mapped type.
pub open spec fn alias_text(a: TypeAlias, exporting: bool) -> Seq<char> {
    match a.ty {
        SourceType::Union(ms) => if is_string_union(ms@) {
            union_enum_text(a.name@, ms@, exporting)
        } else {
            (if exporting {
                "pub type "@
            } else {
                "type "@
            }) + a.name@ + " = "@ + crate::type_mapper::full_mapped_text(a.ty) + " ;"@
        },
        _ => (if exporting {
            "pub type "@
        } else {
            "type "@
        }) + a.name@ + " = "@ + crate::type_mapper::full_mapped_text(a.ty) + " ;"@,
    }
}

fn is_string_union_exec(ms: &Vec<SourceType>) -> (b: bool)
    ensures
        b == is_string_union(ms@),
{
    if ms.len() == 0 {
        return false;
    }
    let mut i: usize = 0;
    while i < ms.len()
        invariant
            i <= ms@.len(),
            forall|k: int| 0 <= k < i ==> strlit_at(ms@[k]),
        decreases ms@.len() - i,
    {
        let is_lit = match &ms[i] {
            SourceType::StrLit(_) => true,
            _ => false,
        };
        if !is_lit {
            proof {
                assert(!strlit_at(ms@[i as int]));
            }
            return false;
        }
        i = i + 1;
    }
    true
}

fn render_union_variant(t: &SourceType, first: bool) -> (r: String)
    ensures
        r@ == union_variant_piece(*t, first),
{
    match t {
        SourceType::StrLit(v) => {
            let mut out = if first {
                String::from_str("# [default] ")
            } else {
                String::new()
            };
            out.append("# [serde (rename = ");
            let lit = string_literal(v.as_str());
            out.append(lit.as_str());
            out.append(")] ");
            let pn = to_pascal_case(v.as_str());
            out.append(pn.as_str());
            proof {
                assert(out@ =~= union_variant_piece(*t, first));
            }
            out
        },
        _ => String::new(),
    }
}

fn render_eq_arm(name: &str, t: &SourceType, borrowed: bool) -> (r: String)
    ensures
        borrowed ==> r@ == eq_arm_str(name@, *t),
        !borrowed ==> r@ == eq_arm_string(name@, *t),
{
    match t {
        SourceType::StrLit(v) => {
            let mut out = name.to_owned();
            out.append(" :: ");
            let pn = to_pascal_case(v.as_str());
            out.append(pn.as_str());
            if borrowed {
                out.append(" => * other == ");
            } else {
                out.append(" => other == ");
            }
            let lit = string_literal(v.as_str());
            out.append(lit.as_str());
            out
        },
        _ => String::new(),
    }
}

fn render_union_enum(name: &str, ms: &Vec<SourceType>, exporting: bool) -> (r: String)
    ensures
        r@ == union_enum_text(name@, ms@, exporting),
{
    let mut out = String::from_str(
        "# [derive (Debug , Clone , Copy , PartialEq , Eq , Default , serde :: Serialize , serde :: Deserialize)] ",
    );
    if exporting {
        out.append("pub enum ");
    } else {
        out.append("enum ");
    }
    out.append(name);
    out.append(" ");
    let mut vars = String::new();
    let mut i: usize = 0;
    while i < ms.len()
        invariant
            i <= ms@.len(),
            vars@ == union_variants_text(ms@.take(i as int)),
        decreases ms@.len() - i,
    {
        if i > 0 {
            vars.append(" , ");
        }
        let piece = render_union_variant(&ms[i], i == 0);
        vars.append(piece.as_str());
        proof {
            assert(ms@.take(i + 1 as int).drop_last() =~= ms@.take(i as int));
            assert(ms@.take(i + 1 as int).last() == ms@[i as int]);
            assert(vars@ =~= union_variants_text(ms@.take(i + 1 as int)));
        }
        i = i + 1;
    }
    proof {
        assert(ms@.take(ms@.len() as int) =~= ms@);
    }
    let vb = braced(vars.as_str());
    out.append(vb.as_str());
    out.append(" impl PartialEq < String > for ");
    out.append(name);
    out.append(" ");
    let mut arms_string = String::new();
    let mut i: usize = 0;
    while i < ms.len()
        invariant
            i <= ms@.len(),
            arms_string@ == eq_arms_string_text(name@, ms@.take(i as int)),
        decreases ms@.len() - i,
    {
        if i > 0 {
            arms_string.append(" , ");
        }
        let piece = render_eq_arm(name, &ms[i], false);
        arms_string.append(piece.as_str());
        proof {
            assert(ms@.take(i + 1 as int).drop_last() =~= ms@.take(i as int));
            assert(ms@.take(i + 1 as int).last() == ms@[i as int]);
            assert(arms_string@ =~= eq_arms_string_text(name@, ms@.take(i + 1 as int)));
        }
        i = i + 1;
    }
    proof {
        assert(ms@.take(ms@.len() as int) =~= ms@);
    }
    let mut body1 = String::from_str("match self ");
    let ab1 = braced(arms_string.as_str());
    body1.append(ab1.as_str());
    let mut fn1 = String::from_str("fn eq (& self , other : & String) -> bool ");
    let fb1 = braced(body1.as_str());
    fn1.append(fb1.as_str());
    let ib1 = braced(fn1.as_str());
    out.append(ib1.as_str());
    out.append(" impl PartialEq < & str > for ");
    out.append(name);
    out.append(" ");
    let mut arms_str = String::new();
    let mut i: usize = 0;
    while i < ms.len()
        invariant
            i <= ms@.len(),
            arms_str@ == eq_arms_str_text(name@, ms@.take(i as int)),
        decreases ms@.len() - i,
    {
        if i > 0 {
            arms_str.append(" , ");
        }
        let piece = render_eq_arm(name, &ms[i], true);
        arms_str.append(piece.as_str());
        proof {
            assert(ms@.take(i + 1 as int).drop_last() =~= ms@.take(i as int));
            assert(ms@.take(i + 1 as int).last() == ms@[i as int]);
            assert(arms_str@ =~= eq_arms_str_text(name@, ms@.take(i + 1 as int)));
        }
        i = i + 1;
    }
    proof {
        assert(ms@.take(ms@.len() as int) =~= ms@);
    }
    let mut body2 = String::from_str("match self ");
    let ab2 = braced(arms_str.as_str());
    body2.append(ab2.as_str());
    let mut fn2 = String::from_str("fn eq (& self , other : & & str) -> bool ");
    let fb2 = braced(body2.as_str());
    fn2.append(fb2.as_str());
    let ib2 = braced(fn2.as_str());
    out.append(ib2.as_str());
    proof {
        assert(out@ =~= union_enum_text(name@, ms@, exporting));
    }
    out
}

/// Converts a type alias: a union of string literals is promoted to a
/// closed enum, anything else stays an alias.
pub fn process_type_alias_decl(a: &TypeAlias, exporting: bool) -> (r: String)
    ensures
        r@ == alias_text(*a, exporting),
{
    match &a.ty {
        SourceType::Union(ms) => {
            if is_string_union_exec(ms) {
                return render_union_enum(a.name.as_str(), ms, exporting);
            }
        },
        _ => {},
    }
    let mut out = if exporting {
        String::from_str("pub type ")
    } else {
        String::from_str("type ")
    };
    out.append(a.name.as_str());
    out.append(" = ");
    let tt = map_ts_type(Option::Some(&a.ty));
    proof {
        lemma_opt_maps_text(Option::Some(a.ty), tt);
    }
    let ty = render_target_type(&tt);
    out.append(ty.as_str());
    out.append(" ;");
    out
}

pub open spec fn str_init_at(m: EnumMember) -> bool {
    m.init matches EnumInit::StrInit(_)
}

/// Whether a declared enumeration carries string values.
pub open spec fn is_string_enum(ms: Seq<EnumMember>) -> bool {
    exists|i: int| 0 <= i < ms.len() && str_init_at(ms[i])
}

/// One variant of a lowered string enumeration, renamed where the value
/// differs from the member's name.
pub open spec fn str_enum_variant(m: EnumMember) -> Seq<char> {
    let rename = match m.init {
        EnumInit::StrInit(s) => s@,
        _ => m.name@,
    };
    if rename == m.name@ {
        m.name@
    } else {
        "# [serde (rename = "@ + lit_str_text(rename) + ")] "@ + m.name@
    }
}

pub open spec fn str_enum_variants_text(ms: Seq<EnumMember>) -> Seq<char>
    decreases ms.len(),
{
    if ms.len() == 0 {
        Seq::empty()
    } else if ms.len() == 1 {
        str_enum_variant(ms[0])
    } else {
        str_enum_variants_text(ms.drop_last()) + " , "@ + str_enum_variant(ms.last())
    }
}

/// The running counter's step, wrapping at the machine bound.
pub open spec fn next_counter(v: int) -> int {
    if v == i64::MAX {
        i64::MIN as int
    } else {
        v + 1
    }
}

/// The counter value a numeric member takes: an explicit value resets the
/// running counter, which otherwise advances by one.
pub open spec fn num_value_at(ms: Seq<EnumMember>, i: int) -> int
    decreases i,
{
    if i <= 0 {
        match ms[0].init {
            EnumInit::NumInit(n) => n as int,
            _ => 0,
        }
    } else {
        match ms[i].init {
            EnumInit::NumInit(n) => n as int,
            _ => next_counter(num_value_at(ms, i - 1)),
        }
    }
}

/// One variant of a lowered numeric enumeration, with its explicit value.
pub open spec fn num_enum_variant(ms: Seq<EnumMember>, i: int) -> Seq<char> {
    ms[i].name@ + " = "@ + idec_text(num_value_at(ms, i) as i32 as int) + "i32"@
}

pub open spec fn num_enum_variants_text(ms: Seq<EnumMember>, upto: int) -> Seq<char>
    decreases upto,
{
    if upto <= 0 {
        Seq::empty()
    } else if upto == 1 {
        num_enum_variant(ms, 0)
    } else {
        num_enum_variants_text(ms, upto - 1) + " , "@ + num_enum_variant(ms, upto - 1)
    }
}

/// The text a declared enumeration lowers to: string enumerations carry
/// serialization renames, numeric ones explicit representation values.
pub open spec fn ts_enum_text(d: TsEnumDecl, exporting: bool) -> Seq<char> {
    if is_string_enum(d.members@) {
        "# [derive (Debug , Clone , Copy , PartialEq , Eq , serde :: Serialize , serde :: Deserialize)] "@
            + (if exporting {
            "pub enum "@
        } else {
            "enum "@
        }) + d.name@ + " "@ + brace_wrap(str_enum_variants_text(d.members@))
    } else {
        "# [derive (Debug , Clone , Copy , PartialEq , Eq)] # [repr (i32)] "@ + (if exporting {
            "pub enum "@
        } else {
            "enum "@
        }) + d.name@ + " "@ + brace_wrap(num_enum_variants_text(d.members@, d.members@.len() as int))
    }
}

fn is_string_enum_exec(ms: &Vec<EnumMember>) -> (b: bool)
    ensures
        b == is_string_enum(ms@),
{
    let mut i: usize = 0;
    while i < ms.len()
        invariant
            i <= ms@.len(),
            forall|k: int| 0 <= k < i ==> !str_init_at(ms@[k]),
        decreases ms@.len() - i,
    {
        match &ms[i].init {
            EnumInit::StrInit(_) => {
                proof {
                    assert(str_init_at(ms@[i as int]));
                }
                return true;
            },
            _ => {},
        }
        i = i + 1;
    }
    false
}

fn render_str_enum_variant(m: &EnumMember) -> (r: String)
    ensures
        r@ == str_enum_variant(*m),
{
    let rename: &String = match &m.init {
        EnumInit::StrInit(s) => s,
        _ => &m.name,
    };
    if str_eq(rename.as_str(), m.name.as_str()) {
        m.name.clone()
    } else {
        let mut out = String::from_str("# [serde (rename = ");
        let lit = string_literal(rename.as_str());
        out.append(lit.as_str());
        out.append(")] ");
        out.append(m.name.as_str());
        out
    }
}

/// Converts a declared enumeration.
pub fn process_ts_enum_decl(d: &TsEnumDecl, exporting: bool) -> (r: String)
    ensures
        r@ == ts_enum_text(*d, exporting),
{
    if is_string_enum_exec(&d.members) {
        let mut out = String::from_str(
            "# [derive (Debug , Clone , Copy , PartialEq , Eq , serde :: Serialize , serde :: Deserialize)] ",
        );
        if exporting {
            out.append("pub enum ");
        } else {
            out.append("enum ");
        }
        out.append(d.name.as_str());
        out.append(" ");
        let mut vars = String::new();
        let mut i: usize = 0;
        while i < d.members.len()
            invariant
                i <= d.members@.len(),
                vars@ == str_enum_variants_text(d.members@.take(i as int)),
            decreases d.members@.len() - i,
        {
            if i > 0 {
                vars.append(" , ");
            }
            let piece = render_str_enum_variant(&d.members[i]);
            vars.append(piece.as_str());
            proof {
                assert(d.members@.take(i + 1 as int).drop_last() =~= d.members@.take(i as int));
                assert(d.members@.take(i + 1 as int).last() == d.members@[i as int]);
                assert(vars@ =~= str_enum_variants_text(d.members@.take(i + 1 as int)));
            }
            i = i + 1;
        }
        proof {
            assert(d.members@.take(d.members@.len() as int) =~= d.members@);
        }
        let vb = braced(vars.as_str());
        out.append(vb.as_str());
        proof {
            assert(out@ =~= ts_enum_text(*d, exporting));
        }
        out
    } else {
        let mut out = String::from_str("# [derive (Debug , Clone , Copy , PartialEq , Eq)] # [repr (i32)] ");
        if exporting {
            out.append("pub enum ");
        } else {
            out.append("enum ");
        }
        out.append(d.name.as_str());
        out.append(" ");
        let mut vars = String::new();
        let mut current: i64 = 0;
        let mut i: usize = 0;
        while i < d.members.len()
            invariant
                i <= d.members@.len(),
                vars@ == num_enum_variants_text(d.members@, i as int),
                i > 0 ==> current == next_counter(num_value_at(d.members@, i - 1 as int)),
                i == 0 ==> current == 0,
            decreases d.members@.len() - i,
        {
            if i > 0 {
                vars.append(" , ");
            }
            match &d.members[i].init {
                EnumInit::NumInit(n) => {
                    current = *n;
                },
                _ => {},
            }
            proof {
                if i == 0 {
                    assert(current == num_value_at(d.members@, 0) || (
                    !(d.members@[0].init matches EnumInit::NumInit(_)) && current == 0));
                }
                assert(current == num_value_at(d.members@, i as int));
            }
            vars.append(d.members[i].name.as_str());
            vars.append(" = ");
            let val: i32 = #[verifier::truncate] (current as i32);
            let vd = i64_dec(val as i64);
            vars.append(vd.as_str());
            vars.append("i32");
            proof {
                assert(vars@ =~= num_enum_variants_text(d.members@, i + 1 as int));
            }
            current = if current == i64::MAX {
                i64::MIN
            } else {
                current + 1
            };
            i = i + 1;
        }
        let vb = braced(vars.as_str());
        out.append(vb.as_str());
        proof {
            assert(out@ =~= ts_enum_text(*d, exporting));
        }
        out
    }
}

} // verus!
