use tyrus::analyzer::Analyzer;
use tyrus::analyzer::graph::DependencyGraph;
use tyrus::analyzer::graph::build_graph;
use tyrus::ast::ClassDecl;
use tyrus::ast::ClassMember;
use tyrus::ast::Constructor;
use tyrus::ast::CtorParam;
use tyrus::ast::CtorParamKind;
use tyrus::ast::Decl;
use tyrus::ast::Decorator;
use tyrus::ast::ModuleItem;
use tyrus::ast::ObjKeyIdents;
use tyrus::ast::Program;
use tyrus::ast::SourceType;
use tyrus::di::graph::DiError;
use tyrus::di::graph::DiGraph;
use tyrus::di::module::Module;
use tyrus::di::provider::InjectableDefinition;
use tyrus::di::provider::InjectionScope;
use tyrus::di::provider::Provider;
use tyrus::orchestrator::FsEntry;

fn s(x: &str) -> String {
    x.to_owned()
}

#[test]
fn test_chain_initialization_order() {
    let mut g = DependencyGraph::new();
    g.add_dependency("A", "B");
    g.add_dependency("B", "C");
    let order = g.get_initialization_order().expect("acyclic graph must order");
    assert_eq!(order, vec![s("C"), s("B"), s("A")]);
}

#[test]
fn test_cycle_yields_no_partial_order() {
    let mut g = DependencyGraph::new();
    g.add_dependency("A", "B");
    g.add_dependency("B", "A");
    match g.get_initialization_order() {
        Err(n) => {
            // the error names a component on the cycle, and nothing is ordered
            assert!(n == "A" || n == "B");
        },
        other => panic!("expected a cycle report, got {:?}", other),
    }
}

#[test]
fn test_empty_graph_orders_trivially() {
    let g = DependencyGraph::new();
    assert_eq!(g.get_initialization_order(), Ok(Vec::<String>::new()));
}

#[test]
fn test_add_node_is_idempotent() {
    let mut g = DependencyGraph::new();
    let first = g.add_node(s("A"));
    let second = g.add_node(s("A"));
    assert_eq!(first, second);
    assert_eq!(g.get_initialization_order(), Ok(vec![s("A")]));
}

#[test]
fn test_get_dependencies() {
    let mut g = DependencyGraph::new();
    g.add_dependency("A", "B");
    g.add_dependency("A", "C");
    let deps = g.get_dependencies("A").expect("registered node");
    assert_eq!(deps.len(), 2);
    assert!(deps.contains(&s("B")));
    assert!(deps.contains(&s("C")));
    assert!(g.get_dependencies("missing").is_none());
}

fn injectable_class(name: &str, dep: Option<&str>) -> ClassDecl {
    let params = match dep {
        Some(d) => vec![CtorParam {
            kind: CtorParamKind::PropParam,
            name: {
                let mut v = d.to_owned();
                v.make_ascii_lowercase();
                v
            },
            type_ann: Some(SourceType::Reference(s(d), Vec::new())),
        }],
        None => Vec::new(),
    };
    ClassDecl {
        name: s(name),
        type_params: Vec::new(),
        decorators: vec![Decorator { name: s("Injectable"), str_arg: None, obj_arg: None }],
        members: vec![ClassMember::Ctor(Constructor { params, body: Some(Vec::new()) })],
    }
}

#[test]
fn test_build_graph_reads_constructor_types() {
    let program = Program {
        items: vec![
            ModuleItem::Export(Decl::ClassD(injectable_class("CatsService", None))),
            ModuleItem::Export(Decl::ClassD(injectable_class("CatsController", Some("CatsService")))),
        ],
    };
    let g = build_graph(&vec![program]);
    let order = g.get_initialization_order().expect("acyclic");
    let service = order.iter().position(|n| n == "CatsService").expect("service present");
    let controller = order.iter().position(|n| n == "CatsController").expect("controller present");
    assert!(service < controller);
}

fn module_of(name: &str, providers: Vec<&str>, controllers: Vec<&str>) -> Module {
    Module {
        name: s(name),
        imports: Vec::new(),
        providers: providers
            .into_iter()
            .map(|p| Provider {
                token: s(p),
                implementation: s(p),
                scope: InjectionScope::Singleton,
                dependencies: Vec::new(),
            })
            .collect(),
        controllers: controllers.into_iter().map(s).collect(),
        exports: Vec::new(),
    }
}

fn injectable(name: &str, deps: Vec<&str>) -> InjectableDefinition {
    InjectableDefinition {
        name: s(name),
        dependencies: deps.into_iter().map(s).collect(),
        scope: InjectionScope::Singleton,
    }
}

#[test]
fn test_resolve_orders_dependencies_first() {
    let mut g = DiGraph::new();
    g.add_module(module_of("CatsModule", vec!["CatsService"], vec!["CatsController"]));
    g.add_injectable(injectable("CatsService", vec![]));
    g.add_injectable(injectable("CatsController", vec!["CatsService"]));
    let order = g.resolve().expect("acyclic module resolves");
    let service = order.iter().position(|n| n == "CatsService").expect("service");
    let controller = order.iter().position(|n| n == "CatsController").expect("controller");
    assert!(service < controller);
}

#[test]
fn test_resolve_cycle_names_a_participant() {
    let mut g = DiGraph::new();
    g.add_module(module_of("Loop", vec!["A", "B"], vec![]));
    g.add_injectable(injectable("A", vec!["B"]));
    g.add_injectable(injectable("B", vec!["A"]));
    match g.resolve() {
        Err(DiError::CircularDependency(n)) => {
            assert!(n == "A" || n == "B");
        },
        other => panic!("expected a cycle report, got {:?}", other),
    }
}

#[test]
fn test_circular_dependency_message() {
    let e = DiError::CircularDependency(s("A"));
    assert_eq!(e.describe(), "Circular dependency detected: A");
    let p = DiError::ProviderNotFound(s("X"));
    assert_eq!(p.describe(), "Provider not found: X");
}

#[test]
fn test_provider_dependencies_lookup() {
    let mut g = DiGraph::new();
    let mut m = module_of("CatsModule", vec![], vec!["CatsController"]);
    m.providers.push(Provider {
        token: s("CatsService"),
        implementation: s("CatsService"),
        scope: InjectionScope::Singleton,
        dependencies: vec![s("Repo")],
    });
    g.add_module(m);
    g.add_injectable(injectable("CatsController", vec!["CatsService"]));
    assert_eq!(g.get_provider_dependencies("CatsService"), Some(vec![s("Repo")]));
    assert_eq!(g.get_provider_dependencies("CatsController"), Some(vec![s("CatsService")]));
    assert_eq!(g.get_provider_dependencies("Nobody"), None);
}

#[test]
fn test_module_registration_updates_in_place() {
    let mut g = DiGraph::new();
    g.add_module(module_of("M", vec!["A"], vec![]));
    g.add_module(module_of("M", vec!["B"], vec![]));
    assert_eq!(g.modules.len(), 1);
    assert_eq!(g.modules[0].providers[0].token, "B");
}

#[test]
fn test_merge_combines_registries() {
    let mut a = DiGraph::new();
    a.add_module(module_of("M1", vec!["A"], vec![]));
    let mut b = DiGraph::new();
    b.add_module(module_of("M2", vec!["B"], vec![]));
    b.add_injectable(injectable("B", vec![]));
    a.merge(b);
    assert_eq!(a.modules.len(), 2);
    assert_eq!(a.injectables.len(), 1);
}

#[test]
fn test_decorator_scan_builds_module_and_injectables() {
    let module_class = ClassDecl {
        name: s("CatsModule"),
        type_params: Vec::new(),
        decorators: vec![Decorator {
            name: s("Module"),
            str_arg: None,
            obj_arg: Some(vec![
                ObjKeyIdents { key: s("providers"), idents: vec![s("CatsService")] },
                ObjKeyIdents { key: s("controllers"), idents: vec![s("CatsController")] },
            ]),
        }],
        members: Vec::new(),
    };
    let program = Program {
        items: vec![
            ModuleItem::Export(Decl::ClassD(module_class)),
            ModuleItem::Export(Decl::ClassD(injectable_class("CatsService", None))),
            ModuleItem::Export(Decl::ClassD(injectable_class("CatsController", Some("CatsService")))),
        ],
    };
    let result = Analyzer::analyze(&program);
    let g = result.graph;
    assert!(g.get_module("CatsModule").is_some());
    assert_eq!(g.modules[0].providers[0].token, "CatsService");
    assert_eq!(g.modules[0].controllers[0], "CatsController");
    let order = g.resolve().expect("resolves");
    let service = order.iter().position(|n| n == "CatsService").expect("service");
    let controller = order.iter().position(|n| n == "CatsController").expect("controller");
    assert!(service < controller);
}

#[test]
fn test_generate_main_rs_bootstrap() {
    let order = vec![s("CatsService"), s("CatsController")];
    let deps = vec![Vec::new(), vec![s("CatsService")]];
    let map = vec![
        (s("CatsService"), s("tyrus_app::input")),
        (s("CatsController"), s("tyrus_app::input")),
    ];
    let controllers = vec![s("CatsController")];
    let generics: Vec<String> = Vec::new();
    let main_rs = tyrus::orchestrator::generate_main_rs(&order, &deps, &map, &controllers, &generics);
    assert!(main_rs.contains("let cats_service = Arc::new(tyrus_app::input::CatsService::new_di());"));
    assert!(main_rs.contains(
        "let cats_controller = Arc::new(tyrus_app::input::CatsController::new_di(cats_service.clone()));"
    ));
    assert!(main_rs.contains(".merge(tyrus_app::input::CatsController::router())"));
    assert!(main_rs.contains(".layer(Extension(cats_controller.clone()))"));
}

#[test]
fn test_mod_rs_listing() {
    let entries = vec![
        FsEntry { name: s("cats_service.rs"), is_dir: false },
        FsEntry { name: s("main.rs"), is_dir: false },
        FsEntry { name: s("utils"), is_dir: true },
    ];
    let out = tyrus::orchestrator::generate_mod_rs(&entries, "").expect("has children");
    assert_eq!(out, "pub mod cats_service;\npub mod utils;\n");
    let none = tyrus::orchestrator::generate_mod_rs(&Vec::new(), "");
    assert!(none.is_none());
}

#[test]
fn test_cats_service_sample() {
    let svc = tyrus::cats_service::CatsService::new();
    assert_eq!(svc.hello(), "Meow");
}
