use vstd::prelude::*;

use crate::analyzer::graph::dep_name_of;
use crate::analyzer::graph::names_view;
use crate::ast::ClassDecl;
use crate::ast::ClassMember;
use crate::ast::CtorParam;
use crate::ast::Decl;
use crate::ast::Decorator;
use crate::ast::ModuleItem;
use crate::ast::ObjKeyIdents;
use crate::ast::Program;
use crate::di::graph::DiGraph;
use crate::di::module::Module;
use crate::di::provider::InjectableDefinition;
use crate::di::provider::InjectionScope;
use crate::di::provider::Provider;
use crate::text::str_eq;

verus! {

/// What a module decorator declares, at the specification level.
pub struct ModuleSpec {
    pub name: Seq<char>,
    pub imports: Seq<Seq<char>>,
    pub providers: Seq<Seq<char>>,
    pub controllers: Seq<Seq<char>>,
    pub exports: Seq<Seq<char>>,
}

/// What an injectable marking declares, at the specification level.
pub struct InjSpec {
    pub name: Seq<char>,
    pub deps: Seq<Seq<char>>,
}

/// Whether a registered module descriptor says exactly what the
/// decorator declared: bare providers are registered under their own
/// name as singletons with dependencies left to be resolved later.
pub open spec fn module_matches(m: Module, v: ModuleSpec) -> bool {
    &&& m.name@ == v.name
    &&& names_view(m.imports@) == v.imports
    &&& m.providers@.len() == v.providers.len()
    &&& forall|i: int|
        0 <= i < v.providers.len() ==> {
            let p = #[trigger] m.providers@[i];
            p.token@ == v.providers[i] && p.implementation@ == v.providers[i] && p.scope
                == InjectionScope::Singleton && p.dependencies@.len() == 0
        }
    &&& names_view(m.controllers@) == v.controllers
    &&& names_view(m.exports@) == v.exports
}

pub open spec fn inj_matches(d: InjectableDefinition, v: InjSpec) -> bool {
    &&& d.name@ == v.name
    &&& names_view(d.dependencies@) == v.deps
    &&& d.scope == InjectionScope::Singleton
}

pub open spec fn mods_match(ms: Seq<Module>, vs: Seq<ModuleSpec>) -> bool {
    ms.len() == vs.len() && (forall|i: int|
        0 <= i < ms.len() ==> module_matches(#[trigger] ms[i], vs[i]))
}

pub open spec fn injs_match(ds: Seq<InjectableDefinition>, vs: Seq<InjSpec>) -> bool {
    ds.len() == vs.len() && (forall|i: int|
        0 <= i < ds.len() ==> inj_matches(#[trigger] ds[i], vs[i]))
}

pub open spec fn has_mspec(s: Seq<ModuleSpec>, x: Seq<char>) -> bool {
    exists|i: int| 0 <= i < s.len() && (#[trigger] s[i]).name == x
}

pub open spec fn mspec_index(s: Seq<ModuleSpec>, x: Seq<char>) -> int
    decreases s.len(),
{
    if s.len() == 0 {
        0
    } else if s[0].name == x {
        0
    } else {
        1 + mspec_index(s.drop_first(), x)
    }
}

pub open spec fn upsert_mspec(s: Seq<ModuleSpec>, m: ModuleSpec) -> Seq<ModuleSpec> {
    if has_mspec(s, m.name) {
        s.update(mspec_index(s, m.name), m)
    } else {
        s.push(m)
    }
}

pub open spec fn has_ispec(s: Seq<InjSpec>, x: Seq<char>) -> bool {
    exists|i: int| 0 <= i < s.len() && (#[trigger] s[i]).name == x
}

pub open spec fn ispec_index(s: Seq<InjSpec>, x: Seq<char>) -> int
    decreases s.len(),
{
    if s.len() == 0 {
        0
    } else if s[0].name == x {
        0
    } else {
        1 + ispec_index(s.drop_first(), x)
    }
}

pub open spec fn upsert_ispec(s: Seq<InjSpec>, v: InjSpec) -> Seq<InjSpec> {
    if has_ispec(s, v.name) {
        s.update(ispec_index(s, v.name), v)
    } else {
        s.push(v)
    }
}

/// The module descriptor a decorator's object argument builds up: each
/// recognized key replaces its list, unknown keys are ignored.
pub open spec fn module_spec_keys(v: ModuleSpec, keys: Seq<ObjKeyIdents>) -> ModuleSpec
    decreases keys.len(),
{
    if keys.len() == 0 {
        v
    } else {
        let prev = module_spec_keys(v, keys.drop_last());
        let k = keys.last();
        if k.key@ == "imports"@ {
            ModuleSpec { imports: names_view(k.idents@), ..prev }
        } else if k.key@ == "providers"@ {
            ModuleSpec { providers: names_view(k.idents@), ..prev }
        } else if k.key@ == "controllers"@ {
            ModuleSpec { controllers: names_view(k.idents@), ..prev }
        } else if k.key@ == "exports"@ {
            ModuleSpec { exports: names_view(k.idents@), ..prev }
        } else {
            prev
        }
    }
}

pub open spec fn empty_module_spec(name: Seq<char>) -> ModuleSpec {
    ModuleSpec {
        name,
        imports: Seq::empty(),
        providers: Seq::empty(),
        controllers: Seq::empty(),
        exports: Seq::empty(),
    }
}

pub open spec fn module_spec_of(name: Seq<char>, d: Decorator) -> ModuleSpec {
    match d.obj_arg {
        Option::Some(keys) => module_spec_keys(empty_module_spec(name), keys@),
        Option::None => empty_module_spec(name),
    }
}

/// The modules a class's decorators register, in order.
pub open spec fn class_mods_fold(ms: Seq<ModuleSpec>, c: ClassDecl) -> Seq<ModuleSpec>
    decreases c.decorators@.len(),
{
    decs_mods_fold(ms, c.name@, c.decorators@)
}

pub open spec fn decs_mods_fold(
    ms: Seq<ModuleSpec>,
    name: Seq<char>,
    ds: Seq<Decorator>,
) -> Seq<ModuleSpec>
    decreases ds.len(),
{
    if ds.len() == 0 {
        ms
    } else {
        let prev = decs_mods_fold(ms, name, ds.drop_last());
        if ds.last().name@ == "Module"@ {
            upsert_mspec(prev, module_spec_of(name, ds.last()))
        } else {
            prev
        }
    }
}

/// Whether a decorator marks the class as eligible for injection.
pub open spec fn injectable_dec_at(d: Decorator) -> bool {
    d.name@ == "Injectable"@ || d.name@ == "Controller"@
}

pub open spec fn has_injectable_dec(ds: Seq<Decorator>) -> bool {
    exists|i: int| 0 <= i < ds.len() && injectable_dec_at(ds[i])
}

/// The dependency names read off every constructor's reference-typed
/// parameters, in order.
pub open spec fn params_dep_names(acc: Seq<Seq<char>>, ps: Seq<CtorParam>) -> Seq<Seq<char>>
    decreases ps.len(),
{
    if ps.len() == 0 {
        acc
    } else {
        let prev = params_dep_names(acc, ps.drop_last());
        match dep_name_of(ps.last().type_ann) {
            Option::Some(n) => prev.push(n),
            Option::None => prev,
        }
    }
}

pub open spec fn members_dep_names(acc: Seq<Seq<char>>, ms: Seq<ClassMember>) -> Seq<Seq<char>>
    decreases ms.len(),
{
    if ms.len() == 0 {
        acc
    } else {
        let prev = members_dep_names(acc, ms.drop_last());
        match ms.last() {
            ClassMember::Ctor(c) => params_dep_names(prev, c.params@),
            _ => prev,
        }
    }
}

pub open spec fn class_injs_fold(is: Seq<InjSpec>, c: ClassDecl) -> Seq<InjSpec> {
    if has_injectable_dec(c.decorators@) {
        upsert_ispec(
            is,
            InjSpec { name: c.name@, deps: members_dep_names(Seq::empty(), c.members@) },
        )
    } else {
        is
    }
}

pub open spec fn item_class(item: ModuleItem) -> Option<ClassDecl> {
    match item {
        ModuleItem::Export(d) => match d {
            Decl::ClassD(c) => Option::Some(c),
            _ => Option::None,
        },
        ModuleItem::ExportDefault(d) => match d {
            Decl::ClassD(c) => Option::Some(c),
            _ => Option::None,
        },
        ModuleItem::Plain(d) => match d {
            Decl::ClassD(c) => Option::Some(c),
            _ => Option::None,
        },
        _ => Option::None,
    }
}

pub open spec fn items_mods_fold(ms: Seq<ModuleSpec>, items: Seq<ModuleItem>) -> Seq<ModuleSpec>
    decreases items.len(),
{
    if items.len() == 0 {
        ms
    } else {
        let prev = items_mods_fold(ms, items.drop_last());
        match item_class(items.last()) {
            Option::Some(c) => class_mods_fold(prev, c),
            Option::None => prev,
        }
    }
}

pub open spec fn items_injs_fold(is: Seq<InjSpec>, items: Seq<ModuleItem>) -> Seq<InjSpec>
    decreases items.len(),
{
    if items.len() == 0 {
        is
    } else {
        let prev = items_injs_fold(is, items.drop_last());
        match item_class(items.last()) {
            Option::Some(c) => class_injs_fold(prev, c),
            Option::None => prev,
        }
    }
}

/// The modules one file's decorators declare.
pub open spec fn modules_fold(items: Seq<ModuleItem>) -> Seq<ModuleSpec> {
    items_mods_fold(Seq::empty(), items)
}

/// The injectable definitions one file's decorators declare.
pub open spec fn injectables_fold(items: Seq<ModuleItem>) -> Seq<InjSpec> {
    items_injs_fold(Seq::empty(), items)
}

proof fn lemma_upsert_match(
    ms: Seq<Module>,
    vs: Seq<ModuleSpec>,
    m: Module,
    v: ModuleSpec,
)
    requires
        mods_match(ms, vs),
        module_matches(m, v),
    ensures
        mods_match(crate::di::graph::upsert_module(ms, m), upsert_mspec(vs, v)),
    decreases ms.len(),
{
    assert(m.name@ == v.name);
    if crate::di::graph::has_module(ms, m.name@) {
        let i = choose|i: int| 0 <= i < ms.len() && (#[trigger] ms[i]).name@ == m.name@;
        assert(vs[i].name == m.name@);
        assert(has_mspec(vs, v.name));
        lemma_index_agree(ms, vs, m.name@);
        crate::di::graph::lemma_module_index_props_pub(ms, m.name@);
        assert(forall|k: int|
            0 <= k < ms.len() && k != crate::di::graph::module_index(ms, m.name@)
                ==> crate::di::graph::upsert_module(ms, m)[k] == ms[k]);
    } else {
        assert(!has_mspec(vs, v.name)) by {
            if has_mspec(vs, v.name) {
                let i = choose|i: int| 0 <= i < vs.len() && (#[trigger] vs[i]).name == v.name;
                assert(ms[i].name@ == v.name);
            }
        }
        assert(forall|k: int| 0 <= k < ms.len() ==> ms.push(m)[k] == ms[k]);
    }
}

proof fn lemma_index_agree(ms: Seq<Module>, vs: Seq<ModuleSpec>, x: Seq<char>)
    requires
        mods_match(ms, vs),
        crate::di::graph::has_module(ms, x),
    ensures
        has_mspec(vs, x),
        mspec_index(vs, x) == crate::di::graph::module_index(ms, x),
    decreases ms.len(),
{
    let i = choose|i: int| 0 <= i < ms.len() && (#[trigger] ms[i]).name@ == x;
    assert(vs[i].name == x);
    if ms[0].name@ != x {
        assert(ms.drop_first()[i - 1].name@ == x);
        assert(mods_match(ms.drop_first(), vs.drop_first())) by {
            assert(forall|k: int|
                0 <= k < ms.drop_first().len() ==> #[trigger] ms.drop_first()[k] == ms[k + 1]
                    && vs.drop_first()[k] == vs[k + 1]);
        }
        lemma_index_agree(ms.drop_first(), vs.drop_first(), x);
    }
}

proof fn lemma_upsert_inj_match(
    ds: Seq<InjectableDefinition>,
    vs: Seq<InjSpec>,
    d: InjectableDefinition,
    v: InjSpec,
)
    requires
        injs_match(ds, vs),
        inj_matches(d, v),
    ensures
        injs_match(crate::di::graph::upsert_inj(ds, d), upsert_ispec(vs, v)),
{
    assert(d.name@ == v.name);
    if crate::di::graph::has_inj(ds, d.name@) {
        let i = choose|i: int| 0 <= i < ds.len() && (#[trigger] ds[i]).name@ == d.name@;
        assert(vs[i].name == d.name@);
        assert(has_ispec(vs, v.name));
        lemma_inj_index_agree(ds, vs, d.name@);
        crate::di::graph::lemma_inj_index_props_pub(ds, d.name@);
        assert(forall|k: int|
            0 <= k < ds.len() && k != crate::di::graph::inj_index(ds, d.name@)
                ==> crate::di::graph::upsert_inj(ds, d)[k] == ds[k]);
    } else {
        assert(!has_ispec(vs, v.name)) by {
            if has_ispec(vs, v.name) {
                let i = choose|i: int| 0 <= i < vs.len() && (#[trigger] vs[i]).name == v.name;
                assert(ds[i].name@ == v.name);
            }
        }
        assert(forall|k: int| 0 <= k < ds.len() ==> ds.push(d)[k] == ds[k]);
    }
}

proof fn lemma_inj_index_agree(ds: Seq<InjectableDefinition>, vs: Seq<InjSpec>, x: Seq<char>)
    requires
        injs_match(ds, vs),
        crate::di::graph::has_inj(ds, x),
    ensures
        has_ispec(vs, x),
        ispec_index(vs, x) == crate::di::graph::inj_index(ds, x),
    decreases ds.len(),
{
    let i = choose|i: int| 0 <= i < ds.len() && (#[trigger] ds[i]).name@ == x;
    assert(vs[i].name == x);
    if ds[0].name@ != x {
        assert(ds.drop_first()[i - 1].name@ == x);
        assert(injs_match(ds.drop_first(), vs.drop_first())) by {
            assert(forall|k: int|
                0 <= k < ds.drop_first().len() ==> #[trigger] ds.drop_first()[k] == ds[k + 1]
                    && vs.drop_first()[k] == vs[k + 1]);
        }
        lemma_inj_index_agree(ds.drop_first(), vs.drop_first(), x);
    }
}

fn copy_names(v: &Vec<String>) -> (r: Vec<String>)
    ensures
        names_view(r@) == names_view(v@),
{
    let mut out: Vec<String> = Vec::new();
    let mut i: usize = 0;
    while i < v.len()
        invariant
            i <= v@.len(),
            out@.len() == i,
            forall|k: int| 0 <= k < i ==> (#[trigger] out@[k])@ == v@[k]@,
        decreases v@.len() - i,
    {
        out.push(v[i].clone());
        i = i + 1;
    }
    proof {
        assert(names_view(out@) =~= names_view(v@));
    }
    out
}

fn providers_from(idents: &Vec<String>) -> (r: Vec<Provider>)
    ensures
        r@.len() == idents@.len(),
        forall|i: int|
            0 <= i < r@.len() ==> {
                let p = #[trigger] r@[i];
                p.token@ == idents@[i]@ && p.implementation@ == idents@[i]@ && p.scope
                    == InjectionScope::Singleton && p.dependencies@.len() == 0
            },
{
    let mut out: Vec<Provider> = Vec::new();
    let mut i: usize = 0;
    while i < idents.len()
        invariant
            i <= idents@.len(),
            out@.len() == i,
            forall|k: int|
                0 <= k < i ==> {
                    let p = #[trigger] out@[k];
                    p.token@ == idents@[k]@ && p.implementation@ == idents@[k]@ && p.scope
                        == InjectionScope::Singleton && p.dependencies@.len() == 0
                },
        decreases idents@.len() - i,
    {
        out.push(
            Provider {
                token: idents[i].clone(),
                implementation: idents[i].clone(),
                scope: InjectionScope::Singleton,
                dependencies: Vec::new(),
            },
        );
        i = i + 1;
    }
    out
}

fn build_module(name: &String, d: &Decorator) -> (m: Module)
    ensures
        module_matches(m, module_spec_of(name@, *d)),
{
    let mut m = Module {
        name: name.clone(),
        imports: Vec::new(),
        providers: Vec::new(),
        controllers: Vec::new(),
        exports: Vec::new(),
    };
    proof {
        assert(names_view(m.imports@) =~= Seq::<Seq<char>>::empty());
        assert(names_view(m.controllers@) =~= Seq::<Seq<char>>::empty());
        assert(names_view(m.exports@) =~= Seq::<Seq<char>>::empty());
    }
    match &d.obj_arg {
        Option::None => m,
        Option::Some(keys) => {
            let mut i: usize = 0;
            while i < keys.len()
                invariant
                    i <= keys@.len(),
                    module_matches(m, module_spec_keys(empty_module_spec(name@), keys@.take(
                        i as int,
                    ))),
                decreases keys@.len() - i,
            {
                proof {
                    assert(keys@.take(i + 1 as int).drop_last() =~= keys@.take(i as int));
                    assert(keys@.take(i + 1 as int).last() == keys@[i as int]);
                }
                let k = &keys[i];
                if str_eq(k.key.as_str(), "imports") {
                    m.imports = copy_names(&k.idents);
                } else if str_eq(k.key.as_str(), "providers") {
                    m.providers = providers_from(&k.idents);
                    proof {
                        assert(names_view(k.idents@) =~= names_view(k.idents@));
                    }
                } else if str_eq(k.key.as_str(), "controllers") {
                    m.controllers = copy_names(&k.idents);
                } else if str_eq(k.key.as_str(), "exports") {
                    m.exports = copy_names(&k.idents);
                }
                i = i + 1;
            }
            proof {
                assert(keys@.take(keys@.len() as int) =~= keys@);
            }
            m
        },
    }
}

fn has_injectable_dec_exec(ds: &Vec<Decorator>) -> (b: bool)
    ensures
        b == has_injectable_dec(ds@),
{
    let mut i: usize = 0;
    while i < ds.len()
        invariant
            i <= ds@.len(),
            forall|k: int| 0 <= k < i ==> !injectable_dec_at(ds@[k]),
        decreases ds@.len() - i,
    {
        if str_eq(ds[i].name.as_str(), "Injectable") || str_eq(ds[i].name.as_str(), "Controller") {
            proof {
                assert(injectable_dec_at(ds@[i as int]));
            }
            return true;
        }
        i = i + 1;
    }
    false
}

fn collect_dep_names(ms: &Vec<ClassMember>) -> (r: Vec<String>)
    ensures
        names_view(r@) == members_dep_names(Seq::empty(), ms@),
{
    let mut out: Vec<String> = Vec::new();
    proof {
        assert(names_view(out@) =~= Seq::<Seq<char>>::empty());
    }
    let mut i: usize = 0;
    while i < ms.len()
        invariant
            i <= ms@.len(),
            names_view(out@) == members_dep_names(Seq::empty(), ms@.take(i as int)),
        decreases ms@.len() - i,
    {
        proof {
            assert(ms@.take(i + 1 as int).drop_last() =~= ms@.take(i as int));
            assert(ms@.take(i + 1 as int).last() == ms@[i as int]);
        }
        match &ms[i] {
            ClassMember::Ctor(ctor) => {
                let ghost acc0 = names_view(out@);
                let mut j: usize = 0;
                while j < ctor.params.len()
                    invariant
                        j <= ctor.params@.len(),
                        names_view(out@) == params_dep_names(acc0, ctor.params@.take(j as int)),
                    decreases ctor.params@.len() - j,
                {
                    proof {
                        assert(ctor.params@.take(j + 1 as int).drop_last() =~= ctor.params@.take(
                            j as int,
                        ));
                        assert(ctor.params@.take(j + 1 as int).last() == ctor.params@[j as int]);
                    }
                    match &ctor.params[j].type_ann {
                        Option::Some(ty) => match ty {
                            crate::ast::SourceType::Reference(n, _) => {
                                out.push(n.clone());
                                proof {
                                    assert(names_view(out@) =~= names_view(
                                        out@.drop_last(),
                                    ).push(n@));
                                }
                            },
                            crate::ast::SourceType::Promise(_) => {
                                out.push(String::from_str("Promise"));
                                proof {
                                    assert(names_view(out@) =~= names_view(
                                        out@.drop_last(),
                                    ).push("Promise"@));
                                }
                            },
                            _ => {},
                        },
                        Option::None => {},
                    }
                    j = j + 1;
                }
                proof {
                    assert(ctor.params@.take(ctor.params@.len() as int) =~= ctor.params@);
                }
            },
            _ => {},
        }
        i = i + 1;
    }
    proof {
        assert(ms@.take(ms@.len() as int) =~= ms@);
    }
    out
}

/// Scans one class's decorators into the registry: a module decorator
/// registers a descriptor, an injectable marking a definition whose
/// dependencies come from the constructor parameter types.
fn scan_class(g: &mut DiGraph, c: &ClassDecl)
    requires
        old(g).wf(),
    ensures
        final(g).wf(),
        (forall|vs: Seq<ModuleSpec>|
            mods_match(old(g).modules@, vs) ==> mods_match(
                final(g).modules@,
                #[trigger] class_mods_fold(vs, *c),
            )),
        (forall|vs: Seq<InjSpec>|
            injs_match(old(g).injectables@, vs) ==> injs_match(
                final(g).injectables@,
                #[trigger] class_injs_fold(vs, *c),
            )),
{
    let ghost mods0 = g.modules@;
    let ghost injs0 = g.injectables@;
    let mut i: usize = 0;
    while i < c.decorators.len()
        invariant
            g.wf(),
            i <= c.decorators@.len(),
            g.injectables@ == injs0,
            forall|vs: Seq<ModuleSpec>|
                mods_match(mods0, vs) ==> mods_match(
                    g.modules@,
                    #[trigger] decs_mods_fold(vs, c.name@, c.decorators@.take(i as int)),
                ),
        decreases c.decorators@.len() - i,
    {
        proof {
            assert(c.decorators@.take(i + 1 as int).drop_last() =~= c.decorators@.take(i as int));
            assert(c.decorators@.take(i + 1 as int).last() == c.decorators@[i as int]);
        }
        if str_eq(c.decorators[i].name.as_str(), "Module") {
            let m = build_module(&c.name, &c.decorators[i]);
            let ghost pre = g.modules@;
            g.add_module(m);
            proof {
                assert forall|vs: Seq<ModuleSpec>| mods_match(mods0, vs) implies mods_match(
                    g.modules@,
                    #[trigger] decs_mods_fold(vs, c.name@, c.decorators@.take(i + 1 as int)),
                ) by {
                    lemma_upsert_match(
                        pre,
                        decs_mods_fold(vs, c.name@, c.decorators@.take(i as int)),
                        m,
                        module_spec_of(c.name@, c.decorators@[i as int]),
                    );
                }
            }
        } else {
            proof {
                assert forall|vs: Seq<ModuleSpec>| mods_match(mods0, vs) implies mods_match(
                    g.modules@,
                    #[trigger] decs_mods_fold(vs, c.name@, c.decorators@.take(i + 1 as int)),
                ) by {
                    assert(decs_mods_fold(vs, c.name@, c.decorators@.take(i + 1 as int))
                        == decs_mods_fold(vs, c.name@, c.decorators@.take(i as int)));
                }
            }
        }
        i = i + 1;
    }
    proof {
        assert(c.decorators@.take(c.decorators@.len() as int) =~= c.decorators@);
    }
    if has_injectable_dec_exec(&c.decorators) {
        let deps = collect_dep_names(&c.members);
        let ghost pre = g.injectables@;
        let def = InjectableDefinition {
            name: c.name.clone(),
            dependencies: deps,
            scope: InjectionScope::Singleton,
        };
        g.add_injectable(def);
        proof {
            assert forall|vs: Seq<InjSpec>| injs_match(injs0, vs) implies injs_match(
                g.injectables@,
                #[trigger] class_injs_fold(vs, *c),
            ) by {
                lemma_upsert_inj_match(
                    pre,
                    vs,
                    def,
                    InjSpec { name: c.name@, deps: members_dep_names(Seq::empty(), c.members@) },
                );
            }
        }
    }
}

/// Scans one parsed file's class declarations into a fresh registry.
pub fn scan_program(program: &Program) -> (r: DiGraph)
    ensures
        r.wf(),
        mods_match(r.modules@, modules_fold(program.items@)),
        injs_match(r.injectables@, injectables_fold(program.items@)),
{
    let mut g = DiGraph::new();
    proof {
        assert(mods_match(g.modules@, Seq::<ModuleSpec>::empty()));
        assert(injs_match(g.injectables@, Seq::<InjSpec>::empty()));
    }
    let mut i: usize = 0;
    while i < program.items.len()
        invariant
            g.wf(),
            i <= program.items@.len(),
            mods_match(g.modules@, items_mods_fold(Seq::empty(), program.items@.take(i as int))),
            injs_match(
                g.injectables@,
                items_injs_fold(Seq::empty(), program.items@.take(i as int)),
            ),
        decreases program.items@.len() - i,
    {
        proof {
            assert(program.items@.take(i + 1 as int).drop_last() =~= program.items@.take(
                i as int,
            ));
            assert(program.items@.take(i + 1 as int).last() == program.items@[i as int]);
        }
        match &program.items[i] {
            ModuleItem::Export(d) => match d {
                Decl::ClassD(c) => scan_class(&mut g, c),
                _ => {},
            },
            ModuleItem::ExportDefault(d) => match d {
                Decl::ClassD(c) => scan_class(&mut g, c),
                _ => {},
            },
            ModuleItem::Plain(d) => match d {
                Decl::ClassD(c) => scan_class(&mut g, c),
                _ => {},
            },
            _ => {},
        }
        i = i + 1;
    }
    proof {
        assert(program.items@.take(program.items@.len() as int) =~= program.items@);
    }
    g
}

} // verus!
