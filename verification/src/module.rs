use vstd::prelude::*;

use crate::ast::Decl;
use crate::ast::ImportDecl;
use crate::ast::ImportSpecifier;
use crate::ast::ModuleItem;
use crate::ast::Stmt;
use crate::class::class_text;
use crate::class::ctrl_fold;
use crate::class::process_class_decl;
use crate::codegen::ControllerMetadata;
use crate::func::convert_fn_decl;
use crate::func::convert_stmt;
use crate::func::fn_decl_text;
use crate::func::stmt_text;
use crate::interface::alias_text;
use crate::interface::interface_text;
use crate::interface::process_interface_decl;
use crate::interface::process_type_alias_decl;
use crate::interface::process_ts_enum_decl;
use crate::interface::ts_enum_text;
use crate::names::chars_to_string;
use crate::names::is_upper_char;
use crate::names::snake_text;
use crate::names::to_snake_case;
use crate::text::str_eq;

verus! {

pub open spec fn has_prefix(s: Seq<char>, p: Seq<char>) -> bool {
    s.len() >= p.len() && s.take(p.len() as int) == p
}

pub open spec fn has_suffix(s: Seq<char>, p: Seq<char>) -> bool {
    s.len() >= p.len() && s.skip(s.len() - p.len()) == p
}

fn has_prefix_exec(s: &str, p: &str) -> (b: bool)
    ensures
        b == has_prefix(s@, p@),
{
    let n = s.unicode_len();
    let m = p.unicode_len();
    if n < m {
        return false;
    }
    let mut i: usize = 0;
    while i < m
        invariant
            n == s@.len(),
            m == p@.len(),
            m <= n,
            i <= m,
            forall|k: int| 0 <= k < i ==> s@[k] == p@[k],
        decreases m - i,
    {
        if s.get_char(i) != p.get_char(i) {
            proof {
                assert(s@.take(m as int)[i as int] != p@[i as int]);
            }
            return false;
        }
        i = i + 1;
    }
    proof {
        assert(s@.take(m as int) =~= p@);
    }
    true
}

pub(crate) fn has_suffix_pub(s: &str, p: &str) -> (b: bool)
    ensures
        b == has_suffix(s@, p@),
{
    let n = s.unicode_len();
    let m = p.unicode_len();
    if n < m {
        return false;
    }
    let off = n - m;
    let mut i: usize = 0;
    while i < m
        invariant
            n == s@.len(),
            m == p@.len(),
            off == n - m,
            i <= m,
            forall|k: int| 0 <= k < i ==> s@[off + k] == p@[k],
        decreases m - i,
    {
        if s.get_char(off + i) != p.get_char(i) {
            proof {
                assert(s@.skip(off as int)[i as int] != p@[i as int]);
            }
            return false;
        }
        i = i + 1;
    }
    proof {
        assert(s@.skip(off as int) =~= p@);
    }
    true
}

/// The relative-path marker stripped as often as it leads.
pub open spec fn strip_all_prefix(s: Seq<char>, p: Seq<char>) -> Seq<char>
    decreases s.len(),
{
    if p.len() > 0 && has_prefix(s, p) && s.len() >= p.len() {
        strip_all_prefix(s.skip(p.len() as int), p)
    } else {
        s
    }
}

/// One path character sanitized for a module path.
pub open spec fn sanitize_char(c: char) -> Seq<char> {
    if c == '/' {
        "::"@
    } else if c == '.' || c == '-' {
        "_"@
    } else {
        seq![c]
    }
}

/// A source path rewritten as a module path: separators become path
/// separators, dots and dashes underscores.
pub open spec fn sanitize_path(s: Seq<char>) -> Seq<char>
    decreases s.len(),
{
    if s.len() == 0 {
        Seq::empty()
    } else {
        sanitize_path(s.drop_last()) + sanitize_char(s.last())
    }
}

fn sanitize_path_exec(s: &str) -> (r: String)
    ensures
        r@ == sanitize_path(s@),
{
    let n = s.unicode_len();
    let mut out = String::new();
    let mut i: usize = 0;
    while i < n
        invariant
            n == s@.len(),
            i <= n,
            out@ == sanitize_path(s@.take(i as int)),
        decreases n - i,
    {
        let c = s.get_char(i);
        if c == '/' {
            out.append("::");
        } else if c == '.' || c == '-' {
            out.append("_");
        } else {
            let mut one: Vec<char> = Vec::new();
            one.push(c);
            let cs = chars_to_string(&one);
            out.append(cs.as_str());
        }
        proof {
            assert(s@.take(i + 1 as int).drop_last() =~= s@.take(i as int));
            assert(s@.take(i + 1 as int).last() == s@[i as int]);
            assert(out@ =~= sanitize_path(s@.take(i + 1 as int)));
        }
        i = i + 1;
    }
    proof {
        assert(s@.take(n as int) =~= s@);
    }
    out
}

fn strip_all_prefix_exec(s: &str, p: &str) -> (r: String)
    requires
        p@.len() > 0,
    ensures
        r@ == strip_all_prefix(s@, p@),
{
    let n = s.unicode_len();
    let m = p.unicode_len();
    let mut pos: usize = 0;
    let mut rest = s.to_owned();
    loop
        invariant
            m == p@.len(),
            m > 0,
            strip_all_prefix(s@, p@) == strip_all_prefix(rest@, p@),
        decreases rest@.len(),
    {
        if !has_prefix_exec(rest.as_str(), p) {
            proof {
                assert(strip_all_prefix(rest@, p@) == rest@);
            }
            return rest;
        }
        let rl = rest.as_str().unicode_len();
        let mut nx: Vec<char> = Vec::new();
        let mut i: usize = m;
        while i < rl
            invariant
                rl == rest@.len(),
                m <= i <= rl,
                nx@ == rest@.skip(m as int).take(i - m),
            decreases rl - i,
        {
            nx.push(rest.as_str().get_char(i));
            proof {
                assert(nx@ =~= rest@.skip(m as int).take(i + 1 - m));
            }
            i = i + 1;
        }
        proof {
            assert(nx@ =~= rest@.skip(m as int));
        }
        rest = chars_to_string(&nx);
    }
}

/// The spelling an imported name takes: a capitalized name passes through
/// as a type, any other is snake-cased.
pub open spec fn casing_text(n: Seq<char>) -> Seq<char> {
    if n.len() > 0 && is_upper_char(n[0]) {
        n
    } else {
        snake_text(n)
    }
}

fn casing_exec(n: &str) -> (r: String)
    ensures
        r@ == casing_text(n@),
{
    if n.unicode_len() > 0 && crate::names::char_is_uppercase(n.get_char(0)) {
        n.to_owned()
    } else {
        to_snake_case(n)
    }
}

/// The module path an import source resolves to, relative to the file.
pub open spec fn module_path_text(src: Seq<char>, is_index: bool) -> Seq<char> {
    if has_prefix(src, "./"@) {
        (if is_index {
            "self::"@
        } else {
            "super::"@
        }) + sanitize_path(strip_all_prefix(src, "./"@))
    } else if has_prefix(src, "../"@) {
        (if is_index {
            "super::"@
        } else {
            "super::super::"@
        }) + sanitize_path(strip_all_prefix(src, "../"@))
    } else {
        src
    }
}

/// One lowered use line; import lines are written in compact path form.
pub open spec fn specifier_text(sp: ImportSpecifier, mp: Seq<char>) -> Seq<char> {
    match sp {
        ImportSpecifier::Named(imported, local) => {
            let iname = match imported {
                Option::Some(x) => x@,
                Option::None => local@,
            };
            let ir = casing_text(iname);
            let lr = casing_text(local@);
            if ir == lr {
                "use "@ + mp + "::"@ + lr + ";"@ + "\n"@
            } else {
                "use "@ + mp + "::"@ + ir + " as "@ + lr + ";"@ + "\n"@
            }
        },
        ImportSpecifier::DefaultSpec(local) => "use "@ + mp + "::"@ + casing_text(local@) + ";"@
            + "\n"@,
        ImportSpecifier::Namespace(local) => "use "@ + mp + " as "@ + casing_text(local@) + ";"@
            + "\n"@,
    }
}

pub open spec fn specifiers_text(sps: Seq<ImportSpecifier>, mp: Seq<char>) -> Seq<char>
    decreases sps.len(),
{
    if sps.len() == 0 {
        Seq::empty()
    } else {
        specifiers_text(sps.drop_last(), mp) + specifier_text(sps.last(), mp)
    }
}

/// The lowered text of an import declaration: framework imports and the
/// HTTP helper vanish, relative sources resolve to module paths.
pub open spec fn import_text(d: ImportDecl, is_index: bool) -> Seq<char> {
    if has_prefix(d.src@, "@nestjs"@) {
        Seq::empty()
    } else {
        let src1 = if has_suffix(d.src@, "/index"@) {
            d.src@.take(d.src@.len() - 6)
        } else {
            d.src@
        };
        if src1 == "axios"@ {
            Seq::empty()
        } else {
            specifiers_text(d.specifiers@, module_path_text(src1, is_index))
        }
    }
}

fn render_specifier(sp: &ImportSpecifier, mp: &str) -> (r: String)
    ensures
        r@ == specifier_text(*sp, mp@),
{
    match sp {
        ImportSpecifier::Named(imported, local) => {
            let iname: &String = match imported {
                Option::Some(x) => x,
                Option::None => local,
            };
            let ir = casing_exec(iname.as_str());
            let lr = casing_exec(local.as_str());
            if str_eq(ir.as_str(), lr.as_str()) {
                let mut out = String::from_str("use ");
                out.append(mp);
                out.append("::");
                out.append(lr.as_str());
                out.append(";");
                out.append("\n");
                out
            } else {
                let mut out = String::from_str("use ");
                out.append(mp);
                out.append("::");
                out.append(ir.as_str());
                out.append(" as ");
                out.append(lr.as_str());
                out.append(";");
                out.append("\n");
                out
            }
        },
        ImportSpecifier::DefaultSpec(local) => {
            let mut out = String::from_str("use ");
            out.append(mp);
            out.append("::");
            let lr = casing_exec(local.as_str());
            out.append(lr.as_str());
            out.append(";");
            out.append("\n");
            out
        },
        ImportSpecifier::Namespace(local) => {
            let mut out = String::from_str("use ");
            out.append(mp);
            out.append(" as ");
            let lr = casing_exec(local.as_str());
            out.append(lr.as_str());
            out.append(";");
            out.append("\n");
            out
        },
    }
}

/// Converts an import declaration to its lowered use lines.
pub fn process_import_decl(d: &ImportDecl, is_index: bool) -> (r: String)
    ensures
        r@ == import_text(*d, is_index),
{
    if has_prefix_exec(d.src.as_str(), "@nestjs") {
        return String::new();
    }
    let src1: String = if has_suffix_pub(d.src.as_str(), "/index") {
        proof {
            reveal_strlit("/index");
        }
        let n = d.src.as_str().unicode_len();
        let mut kept: Vec<char> = Vec::new();
        let mut i: usize = 0;
        while i < n - 6
            invariant
                n == d.src@.len(),
                n >= 6,
                i <= n - 6,
                kept@ == d.src@.take(i as int),
            decreases n - 6 - i,
        {
            kept.push(d.src.as_str().get_char(i));
            proof {
                assert(kept@ =~= d.src@.take(i + 1 as int));
            }
            i = i + 1;
        }
        chars_to_string(&kept)
    } else {
        d.src.clone()
    };
    if str_eq(src1.as_str(), "axios") {
        return String::new();
    }
    let mp: String = if has_prefix_exec(src1.as_str(), "./") {
        let mut out = if is_index {
            String::from_str("self::")
        } else {
            String::from_str("super::")
        };
        proof {
            reveal_strlit("./");
        }
        let stripped = strip_all_prefix_exec(src1.as_str(), "./");
        let sp = sanitize_path_exec(stripped.as_str());
        out.append(sp.as_str());
        out
    } else if has_prefix_exec(src1.as_str(), "../") {
        let mut out = if is_index {
            String::from_str("super::")
        } else {
            String::from_str("super::super::")
        };
        proof {
            reveal_strlit("../");
        }
        let stripped = strip_all_prefix_exec(src1.as_str(), "../");
        let sp = sanitize_path_exec(stripped.as_str());
        out.append(sp.as_str());
        out
    } else {
        src1.clone()
    };
    let mut out = String::new();
    let mut i: usize = 0;
    while i < d.specifiers.len()
        invariant
            i <= d.specifiers@.len(),
            out@ == specifiers_text(d.specifiers@.take(i as int), mp@),
        decreases d.specifiers@.len() - i,
    {
        let line = render_specifier(&d.specifiers[i], mp.as_str());
        out.append(line.as_str());
        proof {
            assert(d.specifiers@.take(i + 1 as int).drop_last() =~= d.specifiers@.take(i as int));
            assert(d.specifiers@.take(i + 1 as int).last() == d.specifiers@[i as int]);
        }
        i = i + 1;
    }
    proof {
        assert(d.specifiers@.take(d.specifiers@.len() as int) =~= d.specifiers@);
    }
    out
}

/// The code a declaration contributes, visibility included.
pub open spec fn decl_code_text(d: Decl, exporting: bool) -> Seq<char> {
    match d {
        Decl::ClassD(c) => class_text(c, exporting),
        Decl::FnD(f) => fn_decl_text(f, exporting) + "\n"@,
        Decl::InterfaceD(i) => interface_text(i) + "\n"@,
        Decl::AliasD(a) => alias_text(a, exporting) + "\n"@,
        Decl::EnumD(e) => ts_enum_text(e, exporting) + "\n"@,
        Decl::Other => Seq::empty(),
    }
}

/// The code one module item contributes to the lowered file.
pub open spec fn item_code_text(item: ModuleItem, is_index: bool) -> Seq<char> {
    match item {
        ModuleItem::Export(d) => decl_code_text(d, true),
        ModuleItem::ExportDefault(d) => match d {
            Decl::ClassD(c) => class_text(c, true),
            Decl::FnD(f) => fn_decl_text(f, true) + "\n"@,
            _ => Seq::empty(),
        },
        ModuleItem::Plain(d) => decl_code_text(d, false),
        ModuleItem::Import(i) => import_text(i, is_index),
        ModuleItem::StmtItem(_) => Seq::empty(),
        ModuleItem::Other => Seq::empty(),
    }
}

/// The text one module item contributes to the entry body: only loose
/// script statements land there.
pub open spec fn item_main_text(item: ModuleItem) -> Seq<char> {
    match item {
        ModuleItem::StmtItem(s) => stmt_text(s) + "\n"@,
        _ => Seq::empty(),
    }
}

/// The controller an item registers, if its class is one.
pub open spec fn item_ctrl(item: ModuleItem) -> Option<(Seq<char>, Seq<char>)> {
    match item {
        ModuleItem::Export(d) => decl_ctrl(d),
        ModuleItem::ExportDefault(d) => decl_ctrl(d),
        ModuleItem::Plain(d) => decl_ctrl(d),
        _ => Option::None,
    }
}

pub open spec fn decl_ctrl(d: Decl) -> Option<(Seq<char>, Seq<char>)> {
    match d {
        Decl::ClassD(c) => {
            let cf = ctrl_fold(c.decorators@);
            if cf.0 {
                Option::Some((c.name@, cf.1))
            } else {
                Option::None
            }
        },
        _ => Option::None,
    }
}

/// The translator state threaded through one file's visit: the code and
/// entry-body builders, the export flag, and the controllers found so far.
pub struct RustGenerator {
    pub code: String,
    pub is_exporting: bool,
    pub is_index: bool,
    pub controllers: Vec<ControllerMetadata>,
    pub main_body: String,
}

impl RustGenerator {
    /// A fresh generator for one file.
    pub fn new(is_index: bool) -> (r: RustGenerator)
        ensures
            r.code@ == Seq::<char>::empty(),
            r.is_exporting == false,
            r.is_index == is_index,
            r.controllers@ == Seq::<ControllerMetadata>::empty(),
            r.main_body@ == Seq::<char>::empty(),
    {
        RustGenerator {
            code: String::new(),
            is_exporting: false,
            is_index,
            controllers: Vec::new(),
            main_body: String::new(),
        }
    }

    /// Processes one module item: declarations extend the code, loose
    /// statements the entry body, and a controller class is registered.
    pub fn process_module_item(&mut self, item: &ModuleItem)
        ensures
            final(self).code@ == old(self).code@ + item_code_text(*item, old(self).is_index),
            final(self).main_body@ == old(self).main_body@ + item_main_text(*item),
            final(self).is_index == old(self).is_index,
            final(self).is_exporting == old(self).is_exporting,
            (match item_ctrl(*item) {
                Option::Some(meta) => {
                    &&& final(self).controllers@.len() == old(self).controllers@.len() + 1
                    &&& final(self).controllers@.drop_last() == old(self).controllers@
                    &&& final(self).controllers@.last().struct_name@ == meta.0
                    &&& final(self).controllers@.last().route_path@ == meta.1
                },
                Option::None => final(self).controllers@ == old(self).controllers@,
            }),
    {
        match item {
            ModuleItem::Export(d) => self.process_decl(d, true),
            ModuleItem::ExportDefault(d) => match d {
                Decl::ClassD(c) => {
                    let out = process_class_decl(c, true);
                    self.code.append(out.0.as_str());
                    if out.1 {
                        self.controllers.push(
                            ControllerMetadata { struct_name: c.name.clone(), route_path: out.2 },
                        );
                        proof {
                            assert(self.controllers@.drop_last() =~= old(self).controllers@);
                        }
                    }
                },
                Decl::FnD(f) => {
                    let out = convert_fn_decl(f, true);
                    self.code.append(out.as_str());
                    self.code.append("\n");
                },
                _ => {},
            },
            ModuleItem::Plain(d) => self.process_decl(d, false),
            ModuleItem::Import(i) => {
                let out = process_import_decl(i, self.is_index);
                self.code.append(out.as_str());
            },
            ModuleItem::StmtItem(s) => {
                let out = convert_stmt(s);
                self.main_body.append(out.as_str());
                self.main_body.append("\n");
            },
            ModuleItem::Other => {},
        }
    }

    /// Converts one function declaration into the file's code, honoring
    /// the export flag.
    pub fn process_fn_decl(&mut self, f: &crate::ast::FnDecl)
        ensures
            final(self).code@ == old(self).code@ + fn_decl_text(*f, old(self).is_exporting)
                + "\n"@,
            final(self).main_body@ == old(self).main_body@,
            final(self).controllers@ == old(self).controllers@,
            final(self).is_index == old(self).is_index,
            final(self).is_exporting == old(self).is_exporting,
    {
        let out = convert_fn_decl(f, self.is_exporting);
        self.code.append(out.as_str());
        self.code.append("\n");
    }

    /// Converts one class declaration into the file's code, registering
    /// it when it is a controller.
    pub fn process_class_decl(&mut self, c: &crate::ast::ClassDecl)
        ensures
            final(self).code@ == old(self).code@ + class_text(*c, old(self).is_exporting),
            final(self).main_body@ == old(self).main_body@,
            final(self).is_index == old(self).is_index,
            final(self).is_exporting == old(self).is_exporting,
            (if ctrl_fold(c.decorators@).0 {
                &&& final(self).controllers@.len() == old(self).controllers@.len() + 1
                &&& final(self).controllers@.drop_last() == old(self).controllers@
                &&& final(self).controllers@.last().struct_name@ == c.name@
                &&& final(self).controllers@.last().route_path@ == ctrl_fold(c.decorators@).1
            } else {
                final(self).controllers@ == old(self).controllers@
            }),
    {
        let out = process_class_decl(c, self.is_exporting);
        self.code.append(out.0.as_str());
        if out.1 {
            self.controllers.push(
                ControllerMetadata { struct_name: c.name.clone(), route_path: out.2 },
            );
            proof {
                assert(self.controllers@.drop_last() =~= old(self).controllers@);
            }
        }
    }

    fn process_decl(&mut self, d: &Decl, exporting: bool)
        ensures
            final(self).code@ == old(self).code@ + decl_code_text(*d, exporting),
            final(self).main_body@ == old(self).main_body@,
            final(self).is_index == old(self).is_index,
            final(self).is_exporting == old(self).is_exporting,
            (match decl_ctrl(*d) {
                Option::Some(meta) => {
                    &&& final(self).controllers@.len() == old(self).controllers@.len() + 1
                    &&& final(self).controllers@.drop_last() == old(self).controllers@
                    &&& final(self).controllers@.last().struct_name@ == meta.0
                    &&& final(self).controllers@.last().route_path@ == meta.1
                },
                Option::None => final(self).controllers@ == old(self).controllers@,
            }),
    {
        match d {
            Decl::ClassD(c) => {
                let out = process_class_decl(c, exporting);
                self.code.append(out.0.as_str());
                if out.1 {
                    self.controllers.push(
                        ControllerMetadata { struct_name: c.name.clone(), route_path: out.2 },
                    );
                    proof {
                        assert(self.controllers@.drop_last() =~= old(self).controllers@);
                    }
                }
            },
            Decl::FnD(f) => {
                let out = convert_fn_decl(f, exporting);
                self.code.append(out.as_str());
                self.code.append("\n");
            },
            Decl::InterfaceD(i) => {
                let out = process_interface_decl(i);
                self.code.append(out.as_str());
                self.code.append("\n");
            },
            Decl::AliasD(a) => {
                let out = process_type_alias_decl(a, exporting);
                self.code.append(out.as_str());
                self.code.append("\n");
            },
            Decl::EnumD(e) => {
                let out = process_ts_enum_decl(e, exporting);
                self.code.append(out.as_str());
                self.code.append("\n");
            },
            Decl::Other => {},
        }
    }
}

} // verus!
