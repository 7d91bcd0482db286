use tyrus::ast::Arg;
use tyrus::ast::AssignOp;
use tyrus::ast::AssignTarget;
use tyrus::ast::BinOp;
use tyrus::ast::Callee;
use tyrus::ast::Decl;
use tyrus::ast::Expr;
use tyrus::ast::ImportDecl;
use tyrus::ast::ImportSpecifier;
use tyrus::ast::Lit;
use tyrus::ast::MemberProp;
use tyrus::ast::ModuleItem;
use tyrus::ast::PrimKind;
use tyrus::ast::Program;
use tyrus::ast::SourceType;
use tyrus::ast::Stmt;
use tyrus::ast::UnOp;
use tyrus::ast::UpdateOp;
use tyrus::ast::VarDeclarator;
use tyrus::ast::VarKind;
use tyrus::func::convert_expr;
use tyrus::func::convert_stmt_pub;
use tyrus::module::process_import_decl;

fn s(x: &str) -> String {
    x.to_owned()
}

fn ident(n: &str) -> Expr {
    Expr::Ident(s(n))
}

fn arg(e: Expr) -> Arg {
    Arg { spread: false, expr: e }
}

fn method_call(obj: Expr, method: &str, args: Vec<Expr>) -> Expr {
    Expr::Call(
        Callee::ExprCallee(Box::new(Expr::Member(Box::new(obj), MemberProp::Named(s(method))))),
        args.into_iter().map(arg).collect(),
        None,
    )
}

#[test]
fn test_string_method_rewrites() {
    assert_eq!(
        convert_expr(&method_call(ident("title"), "includes", vec![ident("word")])),
        "title . contains (word)"
    );
    assert_eq!(
        convert_expr(&method_call(ident("title"), "toUpperCase", vec![])),
        "title . to_uppercase ()"
    );
    assert_eq!(convert_expr(&method_call(ident("title"), "trim", vec![])), "title . trim ()");
    assert_eq!(
        convert_expr(&method_call(ident("count"), "toString", vec![])),
        "count . to_string ()"
    );
    assert_eq!(
        convert_expr(&method_call(ident("csv"), "split", vec![Expr::Lit(Lit::Str(s(",")))])),
        "csv . split (& String :: from (\",\")) . collect :: < Vec < _ > > ()"
    );
}

#[test]
fn test_array_method_rewrites() {
    assert_eq!(
        convert_expr(&method_call(ident("items"), "push", vec![ident("one")])),
        "items . push (one)"
    );
    assert_eq!(
        convert_expr(&method_call(ident("items"), "join", vec![Expr::Lit(Lit::Str(s("-")))])),
        "items . join (& String :: from (\"-\"))"
    );
    let filtered = convert_expr(&method_call(ident("items"), "filter", vec![ident("keep")]));
    assert_eq!(
        filtered,
        "items . iter () . filter (| x | (keep) (* x)) . cloned () . collect :: < Vec < _ > > ()"
    );
}

#[test]
fn test_outbound_http_rewrites() {
    // the one-argument fetch shape
    let fetch = Expr::Call(
        Callee::ExprCallee(Box::new(ident("fetch"))),
        vec![arg(Expr::Lit(Lit::Str(s("http://localhost/x"))))],
        None,
    );
    assert_eq!(
        convert_expr(&fetch),
        "reqwest :: get (String :: from (\"http://localhost/x\"))"
    );
    // a writing verb threads the payload
    let post = method_call(ident("axios"), "post", vec![ident("url"), ident("body")]);
    assert_eq!(
        convert_expr(&post),
        "reqwest :: Client :: new () . post (url) . json (& body) . send () . await ?"
    );
    // a get with a decoded payload type
    let get = Expr::Call(
        Callee::ExprCallee(Box::new(Expr::Member(
            Box::new(ident("axios")),
            MemberProp::Named(s("get")),
        ))),
        vec![arg(ident("url"))],
        Some(SourceType::Reference(s("User"), Vec::new())),
    );
    assert_eq!(
        convert_expr(&get),
        "reqwest :: Client :: new () . get (url) . send () . await ? . json :: < User > ()"
    );
}

#[test]
fn test_constructor_call() {
    let e = Expr::New(Box::new(ident("CatsService")), vec![arg(ident("repo"))]);
    assert_eq!(convert_expr(&e), "CatsService :: new (repo)");
}

#[test]
fn test_array_literal_with_hole() {
    let e = Expr::Array(vec![Some(arg(Expr::Lit(Lit::Num(s("1"))))), None]);
    assert_eq!(convert_expr(&e), "vec ! [1f64 , serde_json :: Value :: Null]");
}

#[test]
fn test_object_literal_with_undefined_value() {
    let e = Expr::Object(vec![
        tyrus::ast::Prop::KeyValue(s("name"), Expr::Lit(Lit::Str(s("kit")))),
        tyrus::ast::Prop::KeyValue(s("owner"), ident("undefined")),
    ]);
    assert_eq!(
        convert_expr(&e),
        "serde_json :: json ! ({ \"name\" : String :: from (\"kit\") , \"owner\" : serde_json :: Value :: Null })"
    );
}

#[test]
fn test_assignment_and_update_forms() {
    let e = Expr::Assign(
        AssignOp::AddAssign,
        AssignTarget::Member(Box::new(Expr::This), MemberProp::Named(s("count"))),
        Box::new(Expr::Lit(Lit::Num(s("1")))),
    );
    assert_eq!(convert_expr(&e), "self . count += 1f64");
    let u = Expr::Update(UpdateOp::Incr, Box::new(ident("i")));
    assert_eq!(convert_expr(&u), "i += 1f64");
    let n = Expr::Unary(UnOp::Not, Box::new(ident("done")));
    assert_eq!(convert_expr(&n), "! done");
    let w = Expr::Await(Box::new(ident("task")));
    assert_eq!(convert_expr(&w), "task . await ?");
}

#[test]
fn test_statement_forms() {
    let decl = Stmt::VarDecl(
        VarKind::Const,
        vec![VarDeclarator { name: s("maxSize"), init: Some(Expr::Lit(Lit::Num(s("3")))) }],
    );
    assert_eq!(convert_stmt_pub(&decl), "let max_size = 3f64 ;");
    let decl_mut = Stmt::VarDecl(VarKind::Let, vec![VarDeclarator { name: s("i"), init: None }]);
    assert_eq!(convert_stmt_pub(&decl_mut), "let mut i ;");
    let branch = Stmt::If(
        Expr::Bin(BinOp::Lt, Box::new(ident("i")), Box::new(ident("n"))),
        Box::new(Stmt::Return(Some(ident("i")))),
        Some(Box::new(Stmt::Return(None))),
    );
    assert_eq!(convert_stmt_pub(&branch), "if i < n { return i ; } else { return ; }");
    let repeat = Stmt::While(
        Expr::Bin(BinOp::Lt, Box::new(ident("i")), Box::new(ident("n"))),
        Box::new(Stmt::Block(vec![Stmt::ExprStmt(Expr::Update(
            UpdateOp::Incr,
            Box::new(ident("i")),
        ))])),
    );
    assert_eq!(convert_stmt_pub(&repeat), "while i < n { i += 1f64 ; }");
}

#[test]
fn test_identifier_casing() {
    assert_eq!(convert_expr(&ident("undefined")), "None");
    assert_eq!(convert_expr(&ident("CatsService")), "CatsService");
    assert_eq!(convert_expr(&ident("fetchData")), "fetch_data");
}

#[test]
fn test_string_literal_escaping() {
    let e = Expr::Lit(Lit::Str(s("say \"hi\"\n")));
    assert_eq!(convert_expr(&e), "String :: from (\"say \\\"hi\\\"\\n\")");
}

fn import(src: &str, specifiers: Vec<ImportSpecifier>) -> ImportDecl {
    ImportDecl { src: s(src), specifiers }
}

#[test]
fn test_import_lowering() {
    // framework and HTTP-helper imports vanish
    let gone = import("@nestjs/common", vec![ImportSpecifier::Named(None, s("Controller"))]);
    assert_eq!(process_import_decl(&gone, false), "");
    let axios = import("axios", vec![ImportSpecifier::DefaultSpec(s("axios"))]);
    assert_eq!(process_import_decl(&axios, false), "");
    // a relative import resolves against the module tree
    let rel = import("./cats.service", vec![ImportSpecifier::Named(None, s("CatsService"))]);
    assert_eq!(process_import_decl(&rel, false), "use super::cats_service::CatsService;\n");
    assert_eq!(process_import_decl(&rel, true), "use self::cats_service::CatsService;\n");
    // an entry-directory import is trimmed and renamed
    let idx = import("../shared/index", vec![ImportSpecifier::Named(None, s("helper"))]);
    assert_eq!(process_import_decl(&idx, false), "use super::super::shared::helper;\n");
    // a renaming import keeps the alias
    let renamed = import(
        "./models",
        vec![ImportSpecifier::Named(Some(s("User")), s("Account"))],
    );
    assert_eq!(process_import_decl(&renamed, false), "use super::models::User as Account;\n");
    let ns = import("./utils", vec![ImportSpecifier::Namespace(s("utils"))]);
    assert_eq!(process_import_decl(&ns, false), "use super::utils as utils;\n");
}

#[test]
fn test_build_without_error_type_stays_plain() {
    let f = tyrus::ast::FnDecl {
        name: s("twice"),
        type_params: Vec::new(),
        params: vec![tyrus::ast::FnParam {
            name: s("x"),
            type_ann: Some(SourceType::Primitive(PrimKind::Number)),
        }],
        return_type: Some(SourceType::Primitive(PrimKind::Number)),
        is_async: false,
        body: Some(vec![Stmt::Return(Some(Expr::Bin(
            BinOp::Mul,
            Box::new(ident("x")),
            Box::new(Expr::Lit(Lit::Num(s("2")))),
        )))]),
    };
    let program = Program { items: vec![ModuleItem::Export(Decl::FnD(f))] };
    let out = tyrus::orchestrator::build(&program);
    assert_eq!(out, "pub fn twice (x : f64) -> f64 { return x * 2f64 ; }\n");
}

#[test]
fn test_script_statements_wrap_into_entry_function() {
    let program = Program {
        items: vec![ModuleItem::StmtItem(Stmt::ExprStmt(method_call(
            ident("console"),
            "log",
            vec![Expr::Lit(Lit::Str(s("ready")))],
        )))],
    };
    // only the entry file wraps loose statements
    let plain = tyrus::codegen::generate(&program, false);
    assert_eq!(plain.code, "");
    let entry = tyrus::codegen::generate(&program, true);
    assert_eq!(
        entry.code,
        "\npub fn main() {\nprintln ! (\"{}\" , String :: from (\"ready\")) ;\n}\n"
    );
}

#[test]
fn test_stdlib_dispatchers() {
    let callee = Callee::ExprCallee(Box::new(Expr::Member(
        Box::new(ident("Math")),
        MemberProp::Named(s("abs")),
    )));
    let args = vec![arg(ident("delta"))];
    let hit = tyrus::stdlib::try_handle_stdlib_call(&callee, &args);
    assert_eq!(hit, Some(s("(delta) . abs ()")));
    let unknown = Callee::ExprCallee(Box::new(Expr::Member(
        Box::new(ident("Math")),
        MemberProp::Named(s("tanh")),
    )));
    assert_eq!(tyrus::stdlib::try_handle_stdlib_call(&unknown, &args), None);
    let via_method = tyrus::stdlib::try_handle_method_call(&ident("names"), "join", &vec![arg(
        Expr::Lit(Lit::Str(s(", "))),
    )]);
    assert_eq!(via_method, Some(s("names . join (& String :: from (\", \"))")));
}

#[test]
fn test_math_variadic_max_folds() {
    let e = Expr::Call(
        Callee::ExprCallee(Box::new(Expr::Member(
            Box::new(ident("Math")),
            MemberProp::Named(s("max")),
        ))),
        vec![Arg { spread: true, expr: ident("values") }],
        None,
    );
    assert_eq!(
        convert_expr(&e),
        "values . iter () . fold (f64 :: NEG_INFINITY , | a , & b | a . max (b))"
    );
}

#[test]
fn test_template_without_interpolation() {
    let e = Expr::Tpl(vec![s("plain")], Vec::new());
    assert_eq!(convert_expr(&e), "format ! (\"plain\" ,)");
}
