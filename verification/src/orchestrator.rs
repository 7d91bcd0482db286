use vstd::prelude::*;

use crate::ast::Program;
use crate::codegen::generate;
use crate::codegen::program_code_text;
use crate::module::has_prefix;
use crate::module::has_suffix;
use crate::names::chars_to_string;
use crate::names::snake_text;
use crate::names::to_snake_case;
use crate::text::str_eq;

verus! {

/// Whether the pattern occurs anywhere in the text.
pub open spec fn contains_sub(s: Seq<char>, p: Seq<char>) -> bool {
    exists|i: int| 0 <= i <= s.len() - p.len() && #[trigger] has_prefix(s.skip(i), p)
}

fn has_prefix_at(s: &str, i: usize, p: &str) -> (b: bool)
    requires
        i <= s@.len(),
    ensures
        b == has_prefix(s@.skip(i as int), p@),
{
    let n = s.unicode_len();
    let m = p.unicode_len();
    if n - i < m {
        return false;
    }
    let mut k: usize = 0;
    while k < m
        invariant
            n == s@.len(),
            m == p@.len(),
            i + m <= n,
            k <= m,
            forall|j: int| 0 <= j < k ==> s@[i + j] == p@[j],
        decreases m - k,
    {
        if s.get_char(i + k) != p.get_char(k) {
            proof {
                assert(s@.skip(i as int)[k as int] != p@[k as int]);
            }
            return false;
        }
        k = k + 1;
    }
    proof {
        assert(s@.skip(i as int).take(m as int) =~= p@);
    }
    true
}

fn contains_sub_exec(s: &str, p: &str) -> (b: bool)
    ensures
        b == contains_sub(s@, p@),
{
    let n = s.unicode_len();
    let m = p.unicode_len();
    if m > n {
        proof {
            assert(!contains_sub(s@, p@)) by {
                if contains_sub(s@, p@) {
                    let i = choose|i: int|
                        0 <= i <= s@.len() - p@.len() && #[trigger] has_prefix(s@.skip(i), p@);
                }
            }
        }
        return false;
    }
    if m == 0 {
        proof {
            assert(s@.skip(0).take(0) =~= p@);
            assert(has_prefix(s@.skip(0), p@));
        }
        return true;
    }
    let mut i: usize = 0;
    while i <= n - m
        invariant
            n == s@.len(),
            m == p@.len(),
            1 <= m <= n,
            i <= n - m + 1,
            forall|j: int| 0 <= j < i ==> !has_prefix(s@.skip(j), p@),
        decreases n - i,
    {
        if has_prefix_at(s, i, p) {
            proof {
                assert(has_prefix(s@.skip(i as int), p@));
            }
            return true;
        }
        i = i + 1;
    }
    proof {
        assert(!contains_sub(s@, p@)) by {
            if contains_sub(s@, p@) {
                let j = choose|j: int|
                    0 <= j <= s@.len() - p@.len() && #[trigger] has_prefix(s@.skip(j), p@);
            }
        }
    }
    false
}

/// The text with every occurrence of the pattern replaced, scanning left
/// to right without reexamining replacements.
pub open spec fn replace_text(s: Seq<char>, p: Seq<char>, r: Seq<char>) -> Seq<char>
    decreases s.len(),
{
    if p.len() == 0 || s.len() < p.len() {
        s
    } else if has_prefix(s, p) {
        r + replace_text(s.skip(p.len() as int), p, r)
    } else {
        seq![s.first()] + replace_text(s.drop_first(), p, r)
    }
}

/// Replaces every occurrence of a pattern.
pub fn replace_all(s: &str, p: &str, r: &str) -> (out: String)
    requires
        p@.len() > 0,
    ensures
        out@ == replace_text(s@, p@, r@),
{
    let n = s.unicode_len();
    let m = p.unicode_len();
    let mut out = String::new();
    let mut i: usize = 0;
    proof {
        assert(s@.skip(0) =~= s@);
    }
    while i < n
        invariant
            n == s@.len(),
            m == p@.len(),
            m > 0,
            i <= n,
            replace_text(s@, p@, r@) == out@ + replace_text(s@.skip(i as int), p@, r@),
        decreases n - i,
    {
        if has_prefix_at(s, i, p) {
            out.append(r);
            proof {
                assert(s@.skip(i as int).skip(m as int) =~= s@.skip(i + m));
                assert(replace_text(s@, p@, r@) =~= out@ + replace_text(s@.skip(i + m), p@, r@));
            }
            i = i + m;
        } else {
            let mut one: Vec<char> = Vec::new();
            one.push(s.get_char(i));
            let cs = chars_to_string(&one);
            out.append(cs.as_str());
            proof {
                assert(s@.skip(i as int).drop_first() =~= s@.skip(i + 1));
                assert(s@.skip(i as int).first() == s@[i as int]);
                if s@.skip(i as int).len() < m {
                    assert(replace_text(s@.skip(i as int), p@, r@) == s@.skip(i as int));
                    assert(s@.skip(i as int) =~= seq![s@[i as int]] + s@.skip(i + 1));
                    assert(replace_text(s@.skip(i + 1), p@, r@) == s@.skip(i + 1));
                }
                assert(replace_text(s@, p@, r@) =~= out@ + replace_text(s@.skip(i + 1), p@, r@));
            }
            i = i + 1;
        }
    }
    proof {
        assert(s@.skip(n as int) =~= Seq::<char>::empty());
        assert(replace_text(Seq::<char>::empty(), p@, r@) == Seq::<char>::empty());
        assert(out@ =~= replace_text(s@, p@, r@));
    }
    out
}

/// The fallible-wrapper boilerplate appended to a single translated file
/// that mentions the error type.
pub open spec fn app_error_text() -> Seq<char> {
    "\nuse axum::{response::{IntoResponse, Response}, http::StatusCode};\n\n#[derive(Debug)]\npub struct AppError(Box<dyn std::error::Error + Send + Sync>);\n\nimpl IntoResponse for AppError {\n    fn into_response(self) -> Response {\n        (\n            StatusCode::INTERNAL_SERVER_ERROR,\n            self.0.to_string(),\n        )\n            .into_response()\n    }\n}\n\nimpl<E> From<E> for AppError\nwhere\n    E: std::error::Error + Send + Sync + 'static,\n{\n    fn from(err: E) -> Self {\n        Self(Box::new(err))\n    }\n}\n\nimpl std::fmt::Display for AppError {\n    fn fmt(&self, f: &mut std::fmt::Formatter<'_>) -> std::fmt::Result {\n        write!(f, \"{}\", self.0)\n    }\n}\n"@
}

/// The error boilerplate of a generated program.
pub fn get_app_error_code() -> (r: String)
    ensures
        r@ == app_error_text(),
{
    String::from_str(
        "\nuse axum::{response::{IntoResponse, Response}, http::StatusCode};\n\n#[derive(Debug)]\npub struct AppError(Box<dyn std::error::Error + Send + Sync>);\n\nimpl IntoResponse for AppError {\n    fn into_response(self) -> Response {\n        (\n            StatusCode::INTERNAL_SERVER_ERROR,\n            self.0.to_string(),\n        )\n            .into_response()\n    }\n}\n\nimpl<E> From<E> for AppError\nwhere\n    E: std::error::Error + Send + Sync + 'static,\n{\n    fn from(err: E) -> Self {\n        Self(Box::new(err))\n    }\n}\n\nimpl std::fmt::Display for AppError {\n    fn fmt(&self, f: &mut std::fmt::Formatter<'_>) -> std::fmt::Result {\n        write!(f, \"{}\", self.0)\n    }\n}\n",
    )
}

/// The manifest of a generated project.
pub open spec fn cargo_toml_text() -> Seq<char> {
    "[package]\nname = \"tyrus_app\"\nversion = \"0.1.0\"\nedition = \"2021\"\n\n[workspace]\n\n[dependencies]\ntokio = { version = \"1.0\", features = [\"full\"] }\naxum = \"0.7\"\nserde = { version = \"1.0\", features = [\"derive\", \"rc\"] }\nserde_json = \"1.0\"\nreqwest = { version = \"0.11\", features = [\"json\"] }\ntower = { version = \"0.4\" }\ntower-http = { version = \"0.5\", features = [\"trace\"] }\nrand = \"0.8\"\n\n[[bin]]\nname = \"server\"\npath = \"src/main.rs\"\n\n[lib]\nname = \"tyrus_app\"\npath = \"src/lib.rs\"\n"@
}

pub fn generate_cargo_toml() -> (r: String)
    ensures
        r@ == cargo_toml_text(),
{
    String::from_str(
        "[package]\nname = \"tyrus_app\"\nversion = \"0.1.0\"\nedition = \"2021\"\n\n[workspace]\n\n[dependencies]\ntokio = { version = \"1.0\", features = [\"full\"] }\naxum = \"0.7\"\nserde = { version = \"1.0\", features = [\"derive\", \"rc\"] }\nserde_json = \"1.0\"\nreqwest = { version = \"0.11\", features = [\"json\"] }\ntower = { version = \"0.4\" }\ntower-http = { version = \"0.5\", features = [\"trace\"] }\nrand = \"0.8\"\n\n[[bin]]\nname = \"server\"\npath = \"src/main.rs\"\n\n[lib]\nname = \"tyrus_app\"\npath = \"src/lib.rs\"\n",
    )
}

/// The note prefixed where formatting is skipped.
pub open spec fn fmt_skip_note() -> Seq<char> {
    "// Note: async/await code - formatting skipped for edition compatibility\n"@
}

/// The single-file output: generated code, the error boilerplate spliced
/// in where the error type is mentioned, and the formatting-skip note
/// where the code awaits.
pub open spec fn build_text(p: Program) -> Seq<char> {
    let code = program_code_text(p, false);
    let code2 = if contains_sub(code, "crate::AppError"@) {
        replace_text(code, "crate::AppError"@, "AppError"@) + app_error_text()
    } else if contains_sub(code, "crate :: AppError"@) {
        replace_text(code, "crate :: AppError"@, "AppError"@) + "\n"@ + app_error_text()
    } else {
        code
    };
    if contains_sub(code2, "async fn"@) {
        fmt_skip_note() + code2
    } else {
        code2
    }
}

/// Translates one parsed file into a standalone module: the error
/// boilerplate is inlined when anything in the file needs it. Formatting
/// of the output text is a collaborator's concern, not handled here.
pub fn build(program: &Program) -> (r: String)
    ensures
        r@ == build_text(*program),
{
    let generated = generate(program, false);
    let code = generated.code;
    let code2: String = if contains_sub_exec(code.as_str(), "crate::AppError") {
        proof {
            reveal_strlit("crate::AppError");
        }
        let mut t = replace_all(code.as_str(), "crate::AppError", "AppError");
        let ae = get_app_error_code();
        t.append(ae.as_str());
        t
    } else if contains_sub_exec(code.as_str(), "crate :: AppError") {
        proof {
            reveal_strlit("crate :: AppError");
        }
        let mut t = replace_all(code.as_str(), "crate :: AppError", "AppError");
        t.append("\n");
        let ae = get_app_error_code();
        t.append(ae.as_str());
        t
    } else {
        code
    };
    if contains_sub_exec(code2.as_str(), "async fn") {
        let mut out = String::from_str(
            "// Note: async/await code - formatting skipped for edition compatibility\n",
        );
        out.append(code2.as_str());
        out
    } else {
        code2
    }
}

/// A placeholder stage of the pipeline; it has nothing to do yet and
/// always succeeds.
pub fn pipeline() -> (r: Result<(), String>)
    ensures
        r is Ok,
{
    Result::Ok(())
}

/// One entry of a generated output directory, as the compute side sees
/// it: a name and whether it is a directory.
pub struct FsEntry {
    pub name: String,
    pub is_dir: bool,
}

/// A file or directory name sanitized into a module identifier.
pub open spec fn ident_sanitized(s: Seq<char>) -> Seq<char>
    decreases s.len(),
{
    if s.len() == 0 {
        Seq::empty()
    } else {
        ident_sanitized(s.drop_last()) + (if s.last() == '.' || s.last() == '-' {
            seq!['_']
        } else {
            seq![s.last()]
        })
    }
}

fn sanitize_ident(s: &str) -> (r: String)
    ensures
        r@ == ident_sanitized(s@),
{
    let n = s.unicode_len();
    let mut out: Vec<char> = Vec::new();
    let mut i: usize = 0;
    while i < n
        invariant
            n == s@.len(),
            i <= n,
            out@ == ident_sanitized(s@.take(i as int)),
        decreases n - i,
    {
        let c = s.get_char(i);
        if c == '.' || c == '-' {
            out.push('_');
        } else {
            out.push(c);
        }
        proof {
            assert(s@.take(i + 1 as int).drop_last() =~= s@.take(i as int));
            assert(s@.take(i + 1 as int).last() == s@[i as int]);
            assert(out@ =~= ident_sanitized(s@.take(i + 1 as int)));
        }
        i = i + 1;
    }
    proof {
        assert(s@.take(n as int) =~= s@);
    }
    chars_to_string(&out)
}

/// What one directory entry contributes to the module file: directories
/// and translated files become module lines, bookkeeping files and the
/// entry file nothing.
pub open spec fn entry_line(e: FsEntry) -> Seq<char> {
    if e.name@ == "mod.rs"@ || e.name@ == "lib.rs"@ || e.name@ == "main.rs"@ {
        Seq::empty()
    } else if e.is_dir {
        "pub mod "@ + ident_sanitized(e.name@) + ";\n"@
    } else if has_suffix(e.name@, ".rs"@) {
        let stem = e.name@.take(e.name@.len() - 3);
        if stem == "index"@ {
            Seq::empty()
        } else {
            "pub mod "@ + ident_sanitized(stem) + ";\n"@
        }
    } else {
        Seq::empty()
    }
}

pub open spec fn entries_lines(es: Seq<FsEntry>) -> Seq<char>
    decreases es.len(),
{
    if es.len() == 0 {
        Seq::empty()
    } else {
        entries_lines(es.drop_last()) + entry_line(es.last())
    }
}

/// The module file a directory of generated output needs, or nothing
/// when it would be empty: one line per child, with the entry file's own
/// content appended where an entry module was captured.
pub open spec fn mod_rs_text(es: Seq<FsEntry>, index_content: Seq<char>) -> Option<Seq<char>> {
    let lines = entries_lines(es);
    let full = if index_content.len() > 0 {
        lines + "\n"@ + "// Content from index.ts\n"@ + index_content
    } else {
        lines
    };
    if full.len() > 0 {
        Option::Some(full)
    } else {
        Option::None
    }
}

/// Computes the module file for one directory of generated output.
pub fn generate_mod_rs(entries: &Vec<FsEntry>, index_content: &str) -> (r: Option<String>)
    ensures
        match r {
            Option::Some(s) => mod_rs_text(entries@, index_content@) matches Option::Some(t)
                && s@ == t,
            Option::None => mod_rs_text(entries@, index_content@) is None,
        },
{
    let mut lines = String::new();
    let mut i: usize = 0;
    while i < entries.len()
        invariant
            i <= entries@.len(),
            lines@ == entries_lines(entries@.take(i as int)),
        decreases entries@.len() - i,
    {
        proof {
            assert(entries@.take(i + 1 as int).drop_last() =~= entries@.take(i as int));
            assert(entries@.take(i + 1 as int).last() == entries@[i as int]);
        }
        let e = &entries[i];
        let skip_name = str_eq(e.name.as_str(), "mod.rs") || str_eq(e.name.as_str(), "lib.rs")
            || str_eq(e.name.as_str(), "main.rs");
        if !skip_name {
            if e.is_dir {
                lines.append("pub mod ");
                let sn = sanitize_ident(e.name.as_str());
                lines.append(sn.as_str());
                lines.append(";\n");
            } else if crate::module::has_suffix_pub(e.name.as_str(), ".rs") {
                proof {
                    reveal_strlit(".rs");
                }
                let n = e.name.as_str().unicode_len();
                let mut kept: Vec<char> = Vec::new();
                let mut k: usize = 0;
                while k < n - 3
                    invariant
                        n == e.name@.len(),
                        n >= 3,
                        k <= n - 3,
                        kept@ == e.name@.take(k as int),
                    decreases n - 3 - k,
                {
                    kept.push(e.name.as_str().get_char(k));
                    proof {
                        assert(kept@ =~= e.name@.take(k + 1 as int));
                    }
                    k = k + 1;
                }
                let stem = chars_to_string(&kept);
                if !str_eq(stem.as_str(), "index") {
                    lines.append("pub mod ");
                    let sn = sanitize_ident(stem.as_str());
                    lines.append(sn.as_str());
                    lines.append(";\n");
                }
            }
        }
        proof {
            assert(lines@ =~= entries_lines(entries@.take(i + 1 as int)));
        }
        i = i + 1;
    }
    proof {
        assert(entries@.take(entries@.len() as int) =~= entries@);
    }
    let mut full = lines;
    if index_content.unicode_len() > 0 {
        full.append("\n");
        full.append("// Content from index.ts\n");
        full.append(index_content);
    }
    if full.as_str().unicode_len() > 0 {
        Option::Some(full)
    } else {
        Option::None
    }
}

/// The module path a class maps to, if the project scan recorded one.
pub open spec fn map_lookup(ms: Seq<(String, String)>, x: Seq<char>) -> Option<Seq<char>>
    decreases ms.len(),
{
    if ms.len() == 0 {
        Option::None
    } else if ms[0].0@ == x {
        Option::Some(ms[0].1@)
    } else {
        map_lookup(ms.drop_first(), x)
    }
}

fn map_lookup_exec<'a>(ms: &'a Vec<(String, String)>, x: &str) -> (r: Option<&'a String>)
    ensures
        match r {
            Option::Some(p) => map_lookup(ms@, x@) matches Option::Some(t) && p@ == t,
            Option::None => map_lookup(ms@, x@) is None,
        },
{
    let ghost mv = ms@;
    proof {
        assert(mv.skip(0) =~= mv);
    }
    let mut i: usize = 0;
    while i < ms.len()
        invariant
            mv == ms@,
            i <= mv.len(),
            map_lookup(mv, x@) == map_lookup(mv.skip(i as int), x@),
        decreases mv.len() - i,
    {
        proof {
            assert(mv.skip(i as int).drop_first() =~= mv.skip(i + 1 as int));
            assert(mv.skip(i as int)[0] == mv[i as int]);
        }
        if str_eq(ms[i].0.as_str(), x) {
            return Option::Some(&ms[i].1);
        }
        i = i + 1;
    }
    proof {
        assert(mv.skip(mv.len() as int) =~= Seq::<(String, String)>::empty());
    }
    Option::None
}

pub open spec fn in_names(v: Seq<String>, x: Seq<char>) -> bool {
    exists|i: int| 0 <= i < v.len() && (#[trigger] v[i])@ == x
}

fn in_names_exec(v: &Vec<String>, x: &str) -> (b: bool)
    ensures
        b == in_names(v@, x@),
{
    let mut i: usize = 0;
    while i < v.len()
        invariant
            i <= v@.len(),
            forall|k: int| 0 <= k < i ==> (#[trigger] v@[k])@ != x@,
        decreases v@.len() - i,
    {
        if str_eq(v[i].as_str(), x) {
            proof {
                assert((v@[i as int])@ == x@);
            }
            return true;
        }
        i = i + 1;
    }
    false
}

/// The injection arguments of one bootstrap line: each dependency's
/// variable, cloned.
pub open spec fn boot_args_text(ds: Seq<String>) -> Seq<char>
    decreases ds.len(),
{
    if ds.len() == 0 {
        Seq::empty()
    } else if ds.len() == 1 {
        snake_text(ds[0]@) + ".clone()"@
    } else {
        boot_args_text(ds.drop_last()) + ", "@ + snake_text(ds.last()@) + ".clone()"@
    }
}

/// One bootstrap instantiation, for a mapped, non-generic component.
pub open spec fn boot_line(
    cls: Seq<char>,
    ds: Seq<String>,
    map: Seq<(String, String)>,
    generics: Seq<String>,
) -> Seq<char> {
    if in_names(generics, cls) {
        Seq::empty()
    } else {
        match map_lookup(map, cls) {
            Option::Some(path) => "    let "@ + snake_text(cls) + " = Arc::new("@ + path + "::"@
                + cls + "::new_di("@ + boot_args_text(ds) + "));\n"@,
            Option::None => Seq::empty(),
        }
    }
}

pub open spec fn boot_lines(
    order: Seq<String>,
    deps: Seq<Vec<String>>,
    map: Seq<(String, String)>,
    generics: Seq<String>,
    upto: int,
) -> Seq<char>
    decreases upto,
{
    if upto <= 0 {
        Seq::empty()
    } else {
        boot_lines(order, deps, map, generics, upto - 1) + boot_line(
            order[upto - 1]@,
            deps[upto - 1]@,
            map,
            generics,
        )
    }
}

/// The extension layer of one instantiated component.
pub open spec fn ext_line(
    cls: Seq<char>,
    map: Seq<(String, String)>,
    generics: Seq<String>,
) -> Seq<char> {
    if in_names(generics, cls) {
        Seq::empty()
    } else {
        match map_lookup(map, cls) {
            Option::Some(_) => "\n        .layer(Extension("@ + snake_text(cls) + ".clone()))"@,
            Option::None => Seq::empty(),
        }
    }
}

pub open spec fn ext_lines(
    order: Seq<String>,
    map: Seq<(String, String)>,
    generics: Seq<String>,
    upto: int,
) -> Seq<char>
    decreases upto,
{
    if upto <= 0 {
        Seq::empty()
    } else {
        ext_lines(order, map, generics, upto - 1) + ext_line(order[upto - 1]@, map, generics)
    }
}

/// One router merge, for a mapped controller.
pub open spec fn merge_line(cls: Seq<char>, map: Seq<(String, String)>) -> Seq<char> {
    match map_lookup(map, cls) {
        Option::Some(path) => "\n        .merge("@ + path + "::"@ + cls + "::router())"@,
        Option::None => Seq::empty(),
    }
}

pub open spec fn merge_lines(
    controllers: Seq<String>,
    map: Seq<(String, String)>,
    upto: int,
) -> Seq<char>
    decreases upto,
{
    if upto <= 0 {
        Seq::empty()
    } else {
        merge_lines(controllers, map, upto - 1) + merge_line(controllers[upto - 1]@, map)
    }
}

/// The head of the generated entry file.
pub open spec fn main_head_text() -> Seq<char> {
    "#![allow(unused)]\n\nuse axum::Router;\nuse tokio::net::TcpListener;\nuse std::sync::Arc;\nuse axum::Extension;\n\n#[tokio::main]\nasync fn main() {\n"@
}

/// The tail of the generated entry file.
pub open spec fn main_tail_text() -> Seq<char> {
    ";\n\n    let listener = TcpListener::bind(\"0.0.0.0:3000\").await.unwrap();\n    println!(\"Server running on http://0.0.0.0:3000\");\n    axum::serve(listener, app).await.unwrap();\n}\n"@
}

/// The whole entry file of a generated project: components instantiated
/// in initialization order, the router merged from every controller, and
/// each component handed to the runtime as an extension.
pub open spec fn main_rs_text(
    order: Seq<String>,
    deps: Seq<Vec<String>>,
    map: Seq<(String, String)>,
    controllers: Seq<String>,
    generics: Seq<String>,
) -> Seq<char> {
    main_head_text() + boot_lines(order, deps, map, generics, order.len() as int)
        + "\n    // Build router\n    let app = axum::Router::new()"@ + merge_lines(
        controllers,
        map,
        controllers.len() as int,
    ) + ext_lines(order, map, generics, order.len() as int) + main_tail_text()
}

/// Writes the entry file of a generated project; the dependency lists
/// run parallel to the initialization order.
pub fn generate_main_rs(
    init_order: &Vec<String>,
    deps: &Vec<Vec<String>>,
    class_module_map: &Vec<(String, String)>,
    controllers: &Vec<String>,
    generic_classes: &Vec<String>,
) -> (r: String)
    requires
        deps@.len() == init_order@.len(),
    ensures
        r@ == main_rs_text(init_order@, deps@, class_module_map@, controllers@, generic_classes@),
{
    let mut out = String::from_str(
        "#![allow(unused)]\n\nuse axum::Router;\nuse tokio::net::TcpListener;\nuse std::sync::Arc;\nuse axum::Extension;\n\n#[tokio::main]\nasync fn main() {\n",
    );
    let mut boot = String::new();
    let mut i: usize = 0;
    while i < init_order.len()
        invariant
            deps@.len() == init_order@.len(),
            i <= init_order@.len(),
            boot@ == boot_lines(
                init_order@,
                deps@,
                class_module_map@,
                generic_classes@,
                i as int,
            ),
        decreases init_order@.len() - i,
    {
        if !in_names_exec(generic_classes, init_order[i].as_str()) {
            match map_lookup_exec(class_module_map, init_order[i].as_str()) {
                Option::Some(path) => {
                    boot.append("    let ");
                    let v = to_snake_case(init_order[i].as_str());
                    boot.append(v.as_str());
                    boot.append(" = Arc::new(");
                    boot.append(path.as_str());
                    boot.append("::");
                    boot.append(init_order[i].as_str());
                    boot.append("::new_di(");
                    let dl = &deps[i];
                    let mut args = String::new();
                    let mut j: usize = 0;
                    while j < dl.len()
                        invariant
                            j <= dl@.len(),
                            args@ == boot_args_text(dl@.take(j as int)),
                        decreases dl@.len() - j,
                    {
                        if j > 0 {
                            args.append(", ");
                        }
                        let dv = to_snake_case(dl[j].as_str());
                        args.append(dv.as_str());
                        args.append(".clone()");
                        proof {
                            assert(dl@.take(j + 1 as int).drop_last() =~= dl@.take(j as int));
                            assert(dl@.take(j + 1 as int).last() == dl@[j as int]);
                            assert(args@ =~= boot_args_text(dl@.take(j + 1 as int)));
                        }
                        j = j + 1;
                    }
                    proof {
                        assert(dl@.take(dl@.len() as int) =~= dl@);
                    }
                    boot.append(args.as_str());
                    boot.append("));\n");
                },
                Option::None => {},
            }
        }
        proof {
            assert(boot@ =~= boot_lines(
                init_order@,
                deps@,
                class_module_map@,
                generic_classes@,
                i + 1 as int,
            ));
        }
        i = i + 1;
    }
    out.append(boot.as_str());
    out.append("\n    // Build router\n    let app = axum::Router::new()");
    let mut c: usize = 0;
    let mut merges = String::new();
    while c < controllers.len()
        invariant
            c <= controllers@.len(),
            merges@ == merge_lines(controllers@, class_module_map@, c as int),
        decreases controllers@.len() - c,
    {
        match map_lookup_exec(class_module_map, controllers[c].as_str()) {
            Option::Some(path) => {
                merges.append("\n        .merge(");
                merges.append(path.as_str());
                merges.append("::");
                merges.append(controllers[c].as_str());
                merges.append("::router())");
            },
            Option::None => {},
        }
        proof {
            assert(merges@ =~= merge_lines(controllers@, class_module_map@, c + 1 as int));
        }
        c = c + 1;
    }
    out.append(merges.as_str());
    let mut exts = String::new();
    let mut e: usize = 0;
    while e < init_order.len()
        invariant
            e <= init_order@.len(),
            exts@ == ext_lines(init_order@, class_module_map@, generic_classes@, e as int),
        decreases init_order@.len() - e,
    {
        if !in_names_exec(generic_classes, init_order[e].as_str()) {
            match map_lookup_exec(class_module_map, init_order[e].as_str()) {
                Option::Some(_) => {
                    exts.append("\n        .layer(Extension(");
                    let v = to_snake_case(init_order[e].as_str());
                    exts.append(v.as_str());
                    exts.append(".clone()))");
                },
                Option::None => {},
            }
        }
        proof {
            assert(exts@ =~= ext_lines(
                init_order@,
                class_module_map@,
                generic_classes@,
                e + 1 as int,
            ));
        }
        e = e + 1;
    }
    out.append(exts.as_str());
    out.append(
        ";\n\n    let listener = TcpListener::bind(\"0.0.0.0:3000\").await.unwrap();\n    println!(\"Server running on http://0.0.0.0:3000\");\n    axum::serve(listener, app).await.unwrap();\n}\n",
    );
    proof {
        assert(out@ =~= main_rs_text(
            init_order@,
            deps@,
            class_module_map@,
            controllers@,
            generic_classes@,
        ));
    }
    out
}

} // verus!
