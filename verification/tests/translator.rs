use tyrus::ast::Arg;
use tyrus::ast::ArrowBody;
use tyrus::ast::ArrowParam;
use tyrus::ast::Callee;
use tyrus::ast::ClassDecl;
use tyrus::ast::ClassMember;
use tyrus::ast::ClassMethod;
use tyrus::ast::ClassProp;
use tyrus::ast::Constructor;
use tyrus::ast::CtorParam;
use tyrus::ast::CtorParamKind;
use tyrus::ast::Decl;
use tyrus::ast::Decorator;
use tyrus::ast::EnumInit;
use tyrus::ast::EnumMember;
use tyrus::ast::Expr;
use tyrus::ast::FnDecl;
use tyrus::ast::FnParam;
use tyrus::ast::InterfaceDecl;
use tyrus::ast::Lit;
use tyrus::ast::MemberProp;
use tyrus::ast::MethodParam;
use tyrus::ast::ModuleItem;
use tyrus::ast::PrimKind;
use tyrus::ast::Program;
use tyrus::ast::PropSig;
use tyrus::ast::SourceType;
use tyrus::ast::Stmt;
use tyrus::ast::TargetType;
use tyrus::ast::TsEnumDecl;
use tyrus::ast::TypeAlias;
use tyrus::class::compose_route;
use tyrus::codegen::generate;
use tyrus::func::convert_expr;
use tyrus::func::convert_stmt_pub;
use tyrus::type_mapper::map_ts_type;
use tyrus::type_mapper::render_target_type;
use tyrus::type_mapper::unwrap_promise_type;

fn s(x: &str) -> String {
    x.to_owned()
}

fn reference(name: &str) -> SourceType {
    SourceType::Reference(s(name), Vec::new())
}

#[test]
fn test_map_ts_type_string() {
    let t = SourceType::Primitive(PrimKind::Text);
    let result = map_ts_type(Some(&t));
    assert_eq!(render_target_type(&result), "String");
}

#[test]
fn test_map_ts_type_number() {
    let t = SourceType::Primitive(PrimKind::Number);
    let result = map_ts_type(Some(&t));
    assert_eq!(render_target_type(&result), "f64");
}

#[test]
fn test_map_ts_type_boolean() {
    let t = SourceType::Primitive(PrimKind::Boolean);
    let result = map_ts_type(Some(&t));
    assert_eq!(render_target_type(&result), "bool");
}

#[test]
fn test_map_ts_type_none() {
    let result = map_ts_type(None);
    assert_eq!(render_target_type(&result), "serde_json :: Value");
}

#[test]
fn test_translate_optional_reference() {
    let t = SourceType::Optional(Box::new(reference("X")));
    let result = map_ts_type(Some(&t));
    assert_eq!(result, TargetType::OptionOf(Box::new(TargetType::Owned(s("X")))));
}

#[test]
fn test_map_array_of_numbers() {
    let t = SourceType::Array(Box::new(SourceType::Primitive(PrimKind::Number)));
    let result = map_ts_type(Some(&t));
    assert_eq!(render_target_type(&result), "Vec < f64 >");
}

#[test]
fn test_map_union_with_undefined() {
    let t = SourceType::Union(vec![
        SourceType::Primitive(PrimKind::Text),
        SourceType::Primitive(PrimKind::Undefined),
    ]);
    let result = map_ts_type(Some(&t));
    assert_eq!(render_target_type(&result), "Option < String >");
}

#[test]
fn test_unwrap_async_unwraps_exactly_once() {
    let once = SourceType::Promise(Box::new(SourceType::Primitive(PrimKind::Number)));
    assert_eq!(unwrap_promise_type(Some(&once)), TargetType::Owned(s("f64")));
    // a nested promise is stripped one layer only
    let twice = SourceType::Promise(Box::new(SourceType::Promise(Box::new(
        SourceType::Primitive(PrimKind::Number),
    ))));
    assert_eq!(unwrap_promise_type(Some(&twice)), TargetType::Owned(s("Promise")));
}

#[test]
fn test_unwrap_async_identity_on_non_promise() {
    let t = SourceType::Primitive(PrimKind::Text);
    assert_eq!(unwrap_promise_type(Some(&t)), map_ts_type(Some(&t)));
    let r = reference("User");
    assert_eq!(unwrap_promise_type(Some(&r)), map_ts_type(Some(&r)));
}

#[test]
fn test_route_composition() {
    assert_eq!(compose_route("cats", "/"), "/cats");
    assert_eq!(compose_route("", "/:id"), "/:id");
    assert_eq!(compose_route("cats/", ":id"), "/cats/:id");
}

fn num(text: &str) -> Expr {
    Expr::Lit(Lit::Num(s(text)))
}

fn math_call(method: &str, args: Vec<Expr>) -> Expr {
    Expr::Call(
        Callee::ExprCallee(Box::new(Expr::Member(
            Box::new(Expr::Ident(s("Math"))),
            MemberProp::Named(s(method)),
        ))),
        args.into_iter().map(|e| Arg { spread: false, expr: e }).collect(),
        None,
    )
}

#[test]
fn test_math_max_generates_runnable_expression() {
    let e = math_call("max", vec![num("10"), num("20")]);
    let text = convert_expr(&e);
    assert_eq!(text, "10f64 . max (20f64)");
    // the generated expression evaluates to the larger operand
    assert_eq!(10f64.max(20f64), 20.0);
}

#[test]
fn test_math_round() {
    let e = math_call("round", vec![num("1.5")]);
    assert_eq!(convert_expr(&e), "(1.5f64) . round ()");
}

#[test]
fn test_console_log_text() {
    let e = Expr::Call(
        Callee::ExprCallee(Box::new(Expr::Member(
            Box::new(Expr::Ident(s("console"))),
            MemberProp::Named(s("log")),
        ))),
        vec![Arg { spread: false, expr: Expr::Lit(Lit::Str(s("hi"))) }],
        None,
    );
    assert_eq!(convert_expr(&e), "println ! (\"{}\" , String :: from (\"hi\"))");
}

#[test]
fn test_json_stringify_text() {
    let e = Expr::Call(
        Callee::ExprCallee(Box::new(Expr::Member(
            Box::new(Expr::Ident(s("JSON"))),
            MemberProp::Named(s("stringify")),
        ))),
        vec![Arg { spread: false, expr: Expr::Ident(s("user")) }],
        None,
    );
    assert_eq!(convert_expr(&e), "serde_json :: to_string (& user) . unwrap ()");
}

#[test]
fn test_string_concat_heuristic_borrows_identifier() {
    let e = Expr::Bin(
        tyrus::ast::BinOp::Add,
        Box::new(Expr::Lit(Lit::Str(s("Hello ")))),
        Box::new(Expr::Ident(s("name"))),
    );
    assert_eq!(convert_expr(&e), "String :: from (\"Hello \") + & name");
}

#[test]
fn test_this_member_reads_clone() {
    let e = Expr::Member(Box::new(Expr::This), MemberProp::Named(s("catsService")));
    assert_eq!(convert_expr(&e), "self . cats_service . clone ()");
}

fn cats_controller_class() -> ClassDecl {
    ClassDecl {
        name: s("CatsController"),
        type_params: Vec::new(),
        decorators: vec![Decorator {
            name: s("Controller"),
            str_arg: Some(s("cats")),
            obj_arg: None,
        }],
        members: vec![
            ClassMember::Method(ClassMethod {
                name: s("findAll"),
                decorators: vec![Decorator { name: s("Get"), str_arg: None, obj_arg: None }],
                params: Vec::new(),
                return_type: Some(SourceType::Primitive(PrimKind::Text)),
                is_async: false,
                body: Some(vec![Stmt::Return(Some(Expr::Lit(Lit::Str(s(
                    "This action returns all cats",
                )))))]),
            }),
            ClassMember::Method(ClassMethod {
                name: s("create"),
                decorators: vec![Decorator { name: s("Post"), str_arg: None, obj_arg: None }],
                params: vec![MethodParam {
                    name: s("createCatDto"),
                    type_ann: Some(reference("CreateCatDto")),
                    decorators: vec![Decorator { name: s("Body"), str_arg: None, obj_arg: None }],
                }],
                return_type: Some(SourceType::Promise(Box::new(reference("CreateCatDto")))),
                is_async: true,
                body: Some(vec![Stmt::Return(Some(Expr::Ident(s("createCatDto"))))]),
            }),
        ],
    }
}

#[test]
fn test_nestjs_controller_generation() {
    let program = Program { items: vec![ModuleItem::Export(Decl::ClassD(cats_controller_class()))] };
    let rust_code = generate(&program, false).code;

    println!("Generated Rust Code:\n{}", rust_code);

    assert!(rust_code.contains("pub async fn find_all"));
    assert!(rust_code.contains("-> Result < String , crate :: AppError >"));
    assert!(rust_code.contains("Route:"));
    assert!(rust_code.contains("GET"));

    assert!(rust_code.contains("pub async fn create"));
    assert!(rust_code.contains("axum :: Json (create_cat_dto)"));
    assert!(rust_code.contains("axum :: Json < CreateCatDto >"));
    assert!(rust_code.contains("-> Result < axum :: Json < CreateCatDto > , crate :: AppError >"));
    assert!(rust_code.contains("POST"));
    assert!(rust_code.contains("return Ok (axum :: Json (create_cat_dto . into ()))"));
}

#[test]
fn test_controller_router_paths() {
    let program = Program { items: vec![ModuleItem::Export(Decl::ClassD(cats_controller_class()))] };
    let code = generate(&program, false).code;
    assert!(code.contains(". route (\"/cats\" , axum :: routing :: get (Self :: find_all))"));
    assert!(code.contains(". route (\"/cats\" , axum :: routing :: post (Self :: create))"));
    assert!(code.contains("pub fn router () -> axum :: Router"));
}

#[test]
fn test_translation_is_deterministic() {
    let make = || Program {
        items: vec![ModuleItem::Export(Decl::ClassD(cats_controller_class()))],
    };
    let first = generate(&make(), false).code;
    let second = generate(&make(), false).code;
    assert_eq!(first, second);
}

fn di_class() -> ClassDecl {
    ClassDecl {
        name: s("CatsFacade"),
        type_params: Vec::new(),
        decorators: Vec::new(),
        members: vec![
            ClassMember::Prop(ClassProp {
                name: s("name"),
                type_ann: Some(SourceType::Primitive(PrimKind::Text)),
                is_optional: false,
            }),
            ClassMember::Ctor(Constructor {
                params: vec![CtorParam {
                    kind: CtorParamKind::PropParam,
                    name: s("catsService"),
                    type_ann: Some(reference("CatsService")),
                }],
                body: Some(Vec::new()),
            }),
        ],
    }
}

#[test]
fn test_dependency_param_shared_in_both_constructors() {
    let out = tyrus::class::process_class_decl(&di_class(), true);
    let code = out.0;
    // the direct constructor takes the dependency behind a shared handle
    assert!(code.contains("pub fn new (cats_service : std :: sync :: Arc < CatsService >)"));
    // so does the injection constructor, which defaults the plain field
    assert!(code.contains("pub fn new_di (cats_service : std :: sync :: Arc < CatsService >)"));
    assert!(code.contains("name : Default :: default ()"));
    // and the aggregate holds the dependency behind the same handle
    assert!(code.contains("pub cats_service : std :: sync :: Arc < CatsService >"));
}

#[test]
fn test_di_constructor_takes_exactly_the_dependency() {
    let out = tyrus::class::process_class_decl(&di_class(), true);
    let code = out.0;
    let start = code.find("pub fn new_di (").expect("injection constructor missing");
    let rest = &code[start + "pub fn new_di (".len()..];
    let end = rest.find(")").expect("parameter list unterminated");
    let params = &rest[..end];
    assert_eq!(params, "cats_service : std :: sync :: Arc < CatsService >");
}

#[test]
fn test_fn_decl_lowering() {
    let f = FnDecl {
        name: s("add"),
        type_params: Vec::new(),
        params: vec![
            FnParam { name: s("a"), type_ann: Some(SourceType::Primitive(PrimKind::Number)) },
            FnParam { name: s("b"), type_ann: Some(SourceType::Primitive(PrimKind::Number)) },
        ],
        return_type: Some(SourceType::Primitive(PrimKind::Number)),
        is_async: false,
        body: Some(vec![Stmt::Return(Some(Expr::Bin(
            tyrus::ast::BinOp::Add,
            Box::new(Expr::Ident(s("a"))),
            Box::new(Expr::Ident(s("b"))),
        )))]),
    };
    let code = tyrus::func::convert_fn_decl(&f, true);
    assert_eq!(code, "pub fn add (a : f64 , b : f64) -> f64 { return a + & b ; }");
}

#[test]
fn test_interface_lowering() {
    let d = InterfaceDecl {
        name: s("User"),
        type_params: Vec::new(),
        members: vec![
            PropSig { name: s("name"), type_ann: Some(SourceType::Primitive(PrimKind::Text)), optional: false },
            PropSig { name: s("age"), type_ann: Some(SourceType::Primitive(PrimKind::Number)), optional: false },
        ],
    };
    let code = tyrus::interface::process_interface_decl(&d);
    assert!(code.contains("pub struct User"));
    assert!(code.contains("pub name : String"));
    assert!(code.contains("pub age : f64"));
}

#[test]
fn test_string_union_alias_becomes_enum() {
    let a = TypeAlias {
        name: s("Status"),
        ty: SourceType::Union(vec![SourceType::StrLit(s("open")), SourceType::StrLit(s("closed"))]),
    };
    let code = tyrus::interface::process_type_alias_decl(&a, true);
    assert!(code.contains("pub enum Status"));
    assert!(code.contains("# [default] # [serde (rename = \"open\")] Open"));
    assert!(code.contains("# [serde (rename = \"closed\")] Closed"));
    assert!(code.contains("impl PartialEq < String > for Status"));
    assert!(code.contains("Status :: Open => other == \"open\""));
}

#[test]
fn test_numeric_enum_discriminants() {
    let d = TsEnumDecl {
        name: s("Level"),
        members: vec![
            EnumMember { name: s("Low"), init: EnumInit::NoInit },
            EnumMember { name: s("High"), init: EnumInit::NumInit(5) },
            EnumMember { name: s("Higher"), init: EnumInit::NoInit },
        ],
    };
    let code = tyrus::interface::process_ts_enum_decl(&d, true);
    assert!(code.contains("Low = 0i32"));
    assert!(code.contains("High = 5i32"));
    assert!(code.contains("Higher = 6i32"));
}

#[test]
fn test_single_file_build_injects_error_boilerplate() {
    let f = FnDecl {
        name: s("load"),
        type_params: Vec::new(),
        params: Vec::new(),
        return_type: None,
        is_async: true,
        body: Some(Vec::new()),
    };
    let program = Program { items: vec![ModuleItem::Export(Decl::FnD(f))] };
    let out = tyrus::orchestrator::build(&program);
    // the inlined boilerplate replaces the crate-level mention
    assert!(out.contains("-> Result < () , AppError >"));
    assert!(!out.contains("crate :: AppError"));
    assert!(out.contains("pub struct AppError"));
    assert!(out.starts_with("// Note: async/await code - formatting skipped"));
}

#[test]
fn test_template_literal_lowering() {
    let e = Expr::Tpl(vec![s("Hello, "), s("!")], vec![Expr::Ident(s("name"))]);
    assert_eq!(convert_expr(&e), "format ! (\"Hello, {}!\" , name)");
}

#[test]
fn test_array_map_with_index_callback() {
    let cb = Expr::Arrow(
        vec![ArrowParam::Ident(s("x"), None), ArrowParam::Ident(s("i"), None)],
        ArrowBody::ExprBody(Box::new(Expr::Ident(s("x")))),
        false,
    );
    let e = Expr::Call(
        Callee::ExprCallee(Box::new(Expr::Member(
            Box::new(Expr::Ident(s("items"))),
            MemberProp::Named(s("map")),
        ))),
        vec![Arg { spread: false, expr: cb }],
        None,
    );
    let text = convert_expr(&e);
    assert!(text.contains("enumerate () . map (| (idx , val) | (| x , i | x) (val , idx as f64))"));
}

#[test]
fn test_unsupported_statement_leaves_marker() {
    assert_eq!(convert_stmt_pub(&Stmt::Other), "todo ! (\"unsupported statement\") ;");
}

#[test]
fn test_unsupported_operator_leaves_marker() {
    let e = Expr::Bin(
        tyrus::ast::BinOp::Other,
        Box::new(Expr::Ident(s("a"))),
        Box::new(Expr::Ident(s("b"))),
    );
    assert_eq!(convert_expr(&e), "todo ! (\"unsupported operator\")");
}
