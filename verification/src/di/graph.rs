use vstd::prelude::*;

use crate::analyzer::graph::add_name;
use crate::analyzer::graph::contains_seq;
use crate::analyzer::graph::DependencyGraph;
use crate::analyzer::graph::name_index;
use crate::analyzer::graph::names_view;
use crate::di::module::Module;
use crate::di::provider::InjectableDefinition;
use crate::di::provider::Provider;
use crate::text::str_eq;

verus! {

/// What can go wrong while the injection graph is resolved.
#[derive(Debug, PartialEq, Eq)]
pub enum DiError {
    /// A dependency cycle, naming one participating component.
    CircularDependency(String),
    /// A token no module provides.
    ProviderNotFound(String),
}

impl DiError {
    /// The error, spelled out.
    pub fn describe(&self) -> (r: String)
        ensures
            (match self {
                DiError::CircularDependency(n) => r@ == "Circular dependency detected: "@ + n@,
                DiError::ProviderNotFound(n) => r@ == "Provider not found: "@ + n@,
            }),
    {
        match self {
            DiError::CircularDependency(n) => {
                let mut out = String::from_str("Circular dependency detected: ");
                out.append(n.as_str());
                out
            },
            DiError::ProviderNotFound(n) => {
                let mut out = String::from_str("Provider not found: ");
                out.append(n.as_str());
                out
            },
        }
    }
}

pub open spec fn has_module(s: Seq<Module>, x: Seq<char>) -> bool {
    exists|i: int| 0 <= i < s.len() && (#[trigger] s[i]).name@ == x
}

pub open spec fn module_index(s: Seq<Module>, x: Seq<char>) -> int
    decreases s.len(),
{
    if s.len() == 0 {
        0
    } else if s[0].name@ == x {
        0
    } else {
        1 + module_index(s.drop_first(), x)
    }
}

/// Module registration is idempotent on the name: a module of a known
/// name replaces the old entry in place.
pub open spec fn upsert_module(s: Seq<Module>, m: Module) -> Seq<Module> {
    if has_module(s, m.name@) {
        s.update(module_index(s, m.name@), m)
    } else {
        s.push(m)
    }
}

pub open spec fn has_inj(s: Seq<InjectableDefinition>, x: Seq<char>) -> bool {
    exists|i: int| 0 <= i < s.len() && (#[trigger] s[i]).name@ == x
}

pub open spec fn inj_index(s: Seq<InjectableDefinition>, x: Seq<char>) -> int
    decreases s.len(),
{
    if s.len() == 0 {
        0
    } else if s[0].name@ == x {
        0
    } else {
        1 + inj_index(s.drop_first(), x)
    }
}

pub open spec fn upsert_inj(s: Seq<InjectableDefinition>, d: InjectableDefinition) -> Seq<
    InjectableDefinition,
> {
    if has_inj(s, d.name@) {
        s.update(inj_index(s, d.name@), d)
    } else {
        s.push(d)
    }
}

/// The injectable definition registered under a name, if any.
pub open spec fn find_inj(s: Seq<InjectableDefinition>, x: Seq<char>) -> Option<
    InjectableDefinition,
> {
    if has_inj(s, x) {
        Option::Some(s[inj_index(s, x)])
    } else {
        Option::None
    }
}

pub proof fn lemma_module_index_props_pub(s: Seq<Module>, x: Seq<char>)
    requires
        has_module(s, x),
    ensures
        0 <= module_index(s, x) < s.len(),
        s[module_index(s, x)].name@ == x,
        forall|k: int| 0 <= k < module_index(s, x) ==> (#[trigger] s[k]).name@ != x,
    decreases s.len(),
{
    if s.len() > 0 && s[0].name@ != x {
        let i = choose|i: int| 0 <= i < s.len() && (#[trigger] s[i]).name@ == x;
        assert(s.drop_first()[i - 1].name@ == x);
        lemma_module_index_props_pub(s.drop_first(), x);
        assert(forall|k: int|
            1 <= k < module_index(s, x) ==> (#[trigger] s[k]).name@ == s.drop_first()[k - 1].name@);
    }
}

pub proof fn lemma_inj_index_props_pub(s: Seq<InjectableDefinition>, x: Seq<char>)
    requires
        has_inj(s, x),
    ensures
        0 <= inj_index(s, x) < s.len(),
        s[inj_index(s, x)].name@ == x,
        forall|k: int| 0 <= k < inj_index(s, x) ==> (#[trigger] s[k]).name@ != x,
    decreases s.len(),
{
    if s.len() > 0 && s[0].name@ != x {
        let i = choose|i: int| 0 <= i < s.len() && (#[trigger] s[i]).name@ == x;
        assert(s.drop_first()[i - 1].name@ == x);
        lemma_inj_index_props_pub(s.drop_first(), x);
        assert(forall|k: int|
            1 <= k < inj_index(s, x) ==> (#[trigger] s[k]).name@ == s.drop_first()[k - 1].name@);
    }
}

/// The injection registry one analysis pass accumulates: module
/// descriptors and injectable definitions, each keyed by name.
pub struct DiGraph {
    pub modules: Vec<Module>,
    pub injectables: Vec<InjectableDefinition>,
}

impl DiGraph {
    pub open spec fn modules_view(self) -> Seq<Module> {
        self.modules@
    }

    pub open spec fn injectables_view(self) -> Seq<InjectableDefinition> {
        self.injectables@
    }

    /// Names are registered once each.
    pub open spec fn wf(self) -> bool {
        &&& forall|i: int, j: int|
            0 <= i < j < self.modules@.len() ==> (#[trigger] self.modules@[i]).name@ != (
            #[trigger] self.modules@[j]).name@
        &&& forall|i: int, j: int|
            0 <= i < j < self.injectables@.len() ==> (#[trigger] self.injectables@[i]).name@ != (
            #[trigger] self.injectables@[j]).name@
    }

    pub fn new() -> (r: DiGraph)
        ensures
            r.wf(),
            r.modules_view() == Seq::<Module>::empty(),
            r.injectables_view() == Seq::<InjectableDefinition>::empty(),
    {
        DiGraph { modules: Vec::new(), injectables: Vec::new() }
    }

    /// Registers a module; re-registration under the same name updates
    /// the entry in place.
    pub fn add_module(&mut self, module: Module)
        requires
            old(self).wf(),
        ensures
            final(self).wf(),
            final(self).modules_view() == upsert_module(old(self).modules_view(), module),
            final(self).injectables_view() == old(self).injectables_view(),
    {
        let mut i: usize = 0;
        while i < self.modules.len()
            invariant
                old(self).wf(),
                self.modules@ == old(self).modules@,
                self.injectables@ == old(self).injectables@,
                i <= self.modules@.len(),
                forall|k: int| 0 <= k < i ==> (#[trigger] self.modules@[k]).name@ != module.name@,
            decreases self.modules@.len() - i,
        {
            if str_eq(self.modules[i].name.as_str(), module.name.as_str()) {
                proof {
                    assert(has_module(self.modules@, module.name@));
                    lemma_module_index_props_pub(self.modules@, module.name@);
                    assert(module_index(self.modules@, module.name@) == i as int) by {
                        if module_index(self.modules@, module.name@) < i as int {
                            assert((self.modules@[module_index(
                                self.modules@,
                                module.name@,
                            )]).name@ != module.name@);
                        }
                        if module_index(self.modules@, module.name@) > i as int {
                            assert((self.modules@[i as int]).name@ != module.name@);
                        }
                    }
                }
                let ghost pre = self.modules@;
                let ghost nm = module.name@;
                self.modules.set(i, module);
                proof {
                    assert(self.modules@ =~= upsert_module(pre, self.modules@[i as int]));
                    assert(forall|a: int, b: int|
                        0 <= a < b < self.modules@.len() && a != i && b != i ==> (
                        #[trigger] self.modules@[a]).name@ != (#[trigger] self.modules@[b]).name@);
                    assert(forall|a: int|
                        0 <= a < self.modules@.len() && a != i ==> (
                        #[trigger] self.modules@[a]).name@ != nm);
                }
                return ;
            }
            i = i + 1;
        }
        proof {
            assert(!has_module(self.modules@, module.name@));
        }
        let ghost nm = module.name@;
        self.modules.push(module);
        proof {
            assert(forall|a: int|
                0 <= a < self.modules@.len() - 1 ==> (#[trigger] self.modules@[a]).name@ != nm);
        }
    }

    /// Registers an injectable definition; re-registration updates in
    /// place.
    pub fn add_injectable(&mut self, def: InjectableDefinition)
        requires
            old(self).wf(),
        ensures
            final(self).wf(),
            final(self).injectables_view() == upsert_inj(old(self).injectables_view(), def),
            final(self).modules_view() == old(self).modules_view(),
    {
        let mut i: usize = 0;
        while i < self.injectables.len()
            invariant
                old(self).wf(),
                self.modules@ == old(self).modules@,
                self.injectables@ == old(self).injectables@,
                i <= self.injectables@.len(),
                forall|k: int| 0 <= k < i ==> (#[trigger] self.injectables@[k]).name@ != def.name@,
            decreases self.injectables@.len() - i,
        {
            if str_eq(self.injectables[i].name.as_str(), def.name.as_str()) {
                proof {
                    assert(has_inj(self.injectables@, def.name@));
                    lemma_inj_index_props_pub(self.injectables@, def.name@);
                    assert(inj_index(self.injectables@, def.name@) == i as int) by {
                        if inj_index(self.injectables@, def.name@) < i as int {
                            assert((self.injectables@[inj_index(
                                self.injectables@,
                                def.name@,
                            )]).name@ != def.name@);
                        }
                        if inj_index(self.injectables@, def.name@) > i as int {
                            assert((self.injectables@[i as int]).name@ != def.name@);
                        }
                    }
                }
                let ghost pre = self.injectables@;
                let ghost nm = def.name@;
                self.injectables.set(i, def);
                proof {
                    assert(self.injectables@ =~= upsert_inj(pre, self.injectables@[i as int]));
                    assert(forall|a: int, b: int|
                        0 <= a < b < self.injectables@.len() && a != i && b != i ==> (
                        #[trigger] self.injectables@[a]).name@ != (
                        #[trigger] self.injectables@[b]).name@);
                    assert(forall|a: int|
                        0 <= a < self.injectables@.len() && a != i ==> (
                        #[trigger] self.injectables@[a]).name@ != nm);
                }
                return ;
            }
            i = i + 1;
        }
        proof {
            assert(!has_inj(self.injectables@, def.name@));
        }
        let ghost nm = def.name@;
        self.injectables.push(def);
        proof {
            assert(forall|a: int|
                0 <= a < self.injectables@.len() - 1 ==> (#[trigger] self.injectables@[a]).name@
                    != nm);
        }
    }

    /// The module registered under a name, if any.
    pub fn get_module(&self, name: &str) -> (r: Option<&Module>)
        requires
            self.wf(),
        ensures
            match r {
                Option::Some(m) => has_module(self.modules_view(), name@) && *m
                    == self.modules_view()[module_index(self.modules_view(), name@)],
                Option::None => !has_module(self.modules_view(), name@),
            },
    {
        let mut i: usize = 0;
        while i < self.modules.len()
            invariant
                i <= self.modules@.len(),
                forall|k: int| 0 <= k < i ==> (#[trigger] self.modules@[k]).name@ != name@,
            decreases self.modules@.len() - i,
        {
            if str_eq(self.modules[i].name.as_str(), name) {
                proof {
                    assert(has_module(self.modules@, name@));
                    lemma_module_index_props_pub(self.modules@, name@);
                    assert(module_index(self.modules@, name@) == i as int) by {
                        if module_index(self.modules@, name@) < i as int {
                            assert((self.modules@[module_index(self.modules@, name@)]).name@
                                != name@);
                        }
                        if module_index(self.modules@, name@) > i as int {
                            assert((self.modules@[i as int]).name@ != name@);
                        }
                    }
                }
                return Option::Some(&self.modules[i]);
            }
            i = i + 1;
        }
        Option::None
    }

    fn find_injectable(&self, name: &str) -> (r: Option<&InjectableDefinition>)
        ensures
            match r {
                Option::Some(d) => find_inj(self.injectables_view(), name@)
                    matches Option::Some(sd) && sd == *d,
                Option::None => find_inj(self.injectables_view(), name@) is None,
            },
    {
        let mut i: usize = 0;
        while i < self.injectables.len()
            invariant
                i <= self.injectables@.len(),
                forall|k: int| 0 <= k < i ==> (#[trigger] self.injectables@[k]).name@ != name@,
            decreases self.injectables@.len() - i,
        {
            if str_eq(self.injectables[i].name.as_str(), name) {
                proof {
                    assert(has_inj(self.injectables@, name@));
                    lemma_inj_index_props_pub(self.injectables@, name@);
                    assert(inj_index(self.injectables@, name@) == i as int) by {
                        if inj_index(self.injectables@, name@) < i as int {
                            assert((self.injectables@[inj_index(
                                self.injectables@,
                                name@,
                            )]).name@ != name@);
                        }
                        if inj_index(self.injectables@, name@) > i as int {
                            assert((self.injectables@[i as int]).name@ != name@);
                        }
                    }
                }
                return Option::Some(&self.injectables[i]);
            }
            i = i + 1;
        }
        proof {
            assert(!has_inj(self.injectables@, name@));
        }
        Option::None
    }

    /// Folds the other registry into this one, entry by entry.
    pub fn merge(&mut self, other: DiGraph)
        requires
            old(self).wf(),
        ensures
            final(self).wf(),
            final(self).modules_view() == merge_modules(
                old(self).modules_view(),
                other.modules_view(),
            ),
            final(self).injectables_view() == merge_injs(
                old(self).injectables_view(),
                other.injectables_view(),
            ),
    {
        let mut rest_modules = other.modules;
        let mut rest_injs = other.injectables;
        let ghost oms = rest_modules@;
        let ghost mut k: int = 0;
        proof {
            assert(oms.skip(0) =~= oms);
        }
        while rest_modules.len() > 0
            invariant
                self.wf(),
                0 <= k <= oms.len(),
                rest_modules@ == oms.skip(k),
                self.injectables@ == old(self).injectables@,
                merge_modules(old(self).modules_view(), oms) == merge_modules(
                    self.modules@,
                    oms.skip(k),
                ),
            decreases rest_modules@.len(),
        {
            proof {
                assert(oms.skip(k).drop_first() =~= oms.skip(k + 1));
                lemma_merge_modules_cons(self.modules@, oms.skip(k));
            }
            let m = rest_modules.remove(0);
            self.add_module(m);
            proof {
                k = k + 1;
            }
        }
        proof {
            assert(oms.skip(k) =~= Seq::<Module>::empty());
        }
        let ghost ois = rest_injs@;
        let ghost mut j: int = 0;
        proof {
            assert(ois.skip(0) =~= ois);
        }
        while rest_injs.len() > 0
            invariant
                self.wf(),
                0 <= j <= ois.len(),
                rest_injs@ == ois.skip(j),
                self.modules@ == merge_modules(old(self).modules_view(), oms),
                merge_injs(old(self).injectables_view(), ois) == merge_injs(
                    self.injectables@,
                    ois.skip(j),
                ),
            decreases rest_injs@.len(),
        {
            proof {
                assert(ois.skip(j).drop_first() =~= ois.skip(j + 1));
                lemma_merge_injs_cons(self.injectables@, ois.skip(j));
            }
            let d = rest_injs.remove(0);
            self.add_injectable(d);
            proof {
                j = j + 1;
            }
        }
        proof {
            assert(ois.skip(j) =~= Seq::<InjectableDefinition>::empty());
        }
    }

    /// The dependency tokens a provider resolves to: its own list when it
    /// has one, else the list of the equally named injectable, else none.
    pub open spec fn chosen_deps(p: Provider, injs: Seq<InjectableDefinition>) -> Seq<String> {
        if p.dependencies@.len() > 0 {
            p.dependencies@
        } else {
            match find_inj(injs, p.token@) {
                Option::Some(d) => d.dependencies@,
                Option::None => Seq::empty(),
            }
        }
    }

    /// The first provider of a list that answers to a token.
    pub open spec fn provider_lookup(ps: Seq<Provider>, token: Seq<char>) -> Option<Provider>
        decreases ps.len(),
    {
        if ps.len() == 0 {
            Option::None
        } else if ps[0].token@ == token {
            Option::Some(ps[0])
        } else {
            Self::provider_lookup(ps.drop_first(), token)
        }
    }

    pub open spec fn list_contains(s: Seq<String>, x: Seq<char>) -> bool {
        exists|i: int| 0 <= i < s.len() && (#[trigger] s[i])@ == x
    }

    /// The dependency list a token resolves to, scanning the modules in
    /// registration order, providers before controllers.
    pub open spec fn lookup_deps(
        mods: Seq<Module>,
        injs: Seq<InjectableDefinition>,
        token: Seq<char>,
    ) -> Option<Seq<String>>
        decreases mods.len(),
    {
        if mods.len() == 0 {
            Option::None
        } else {
            let m = mods[0];
            match Self::provider_lookup(m.providers@, token) {
                Option::Some(p) => Option::Some(Self::chosen_deps(p, injs)),
                Option::None => if Self::list_contains(m.controllers@, token) {
                    Option::Some(
                        match find_inj(injs, token) {
                            Option::Some(d) => d.dependencies@,
                            Option::None => Seq::empty(),
                        },
                    )
                } else {
                    Self::lookup_deps(mods.drop_first(), injs, token)
                },
            }
        }
    }

    /// What one module answers for a token: its first matching provider's
    /// resolved dependencies, else the injectable-derived list when the
    /// token is one of its controllers.
    fn module_deps(&self, m: &Module, token: &str) -> (r: Option<Vec<String>>)
        ensures
            match r {
                Option::Some(v) => (match Self::provider_lookup(m.providers@, token@) {
                    Option::Some(p) => names_view(v@) == names_view(
                        Self::chosen_deps(p, self.injectables@),
                    ),
                    Option::None => Self::list_contains(m.controllers@, token@) && names_view(v@)
                        == names_view(
                        match find_inj(self.injectables@, token@) {
                            Option::Some(d) => d.dependencies@,
                            Option::None => Seq::empty(),
                        },
                    ),
                }),
                Option::None => Self::provider_lookup(m.providers@, token@) is None
                    && !Self::list_contains(m.controllers@, token@),
            },
    {
        proof {
            assert(m.providers@.skip(0) =~= m.providers@);
        }
        let mut j: usize = 0;
        while j < m.providers.len()
            invariant
                j <= m.providers@.len(),
                Self::provider_lookup(m.providers@, token@) == Self::provider_lookup(
                    m.providers@.skip(j as int),
                    token@,
                ),
            decreases m.providers@.len() - j,
        {
            proof {
                assert(m.providers@.skip(j as int).drop_first() =~= m.providers@.skip(
                    j + 1 as int,
                ));
                assert(m.providers@.skip(j as int)[0] == m.providers@[j as int]);
            }
            if str_eq(m.providers[j].token.as_str(), token) {
                let p = &m.providers[j];
                if p.dependencies.len() > 0 {
                    return Option::Some(copy_strings(&p.dependencies));
                }
                match self.find_injectable(token) {
                    Option::Some(d) => {
                        return Option::Some(copy_strings(&d.dependencies));
                    },
                    Option::None => {
                        let out: Vec<String> = Vec::new();
                        proof {
                            assert(names_view(out@) =~= names_view(Seq::<String>::empty()));
                        }
                        return Option::Some(out);
                    },
                }
            }
            j = j + 1;
        }
        proof {
            assert(m.providers@.skip(m.providers@.len() as int) =~= Seq::<Provider>::empty());
        }
        let mut c: usize = 0;
        while c < m.controllers.len()
            invariant
                c <= m.controllers@.len(),
                Self::provider_lookup(m.providers@, token@) is None,
                forall|k: int| 0 <= k < c ==> (#[trigger] m.controllers@[k])@ != token@,
            decreases m.controllers@.len() - c,
        {
            if str_eq(m.controllers[c].as_str(), token) {
                proof {
                    assert(Self::list_contains(m.controllers@, token@)) by {
                        assert((m.controllers@[c as int])@ == token@);
                    }
                }
                match self.find_injectable(token) {
                    Option::Some(d) => {
                        return Option::Some(copy_strings(&d.dependencies));
                    },
                    Option::None => {
                        let out: Vec<String> = Vec::new();
                        proof {
                            assert(names_view(out@) =~= names_view(Seq::<String>::empty()));
                        }
                        return Option::Some(out);
                    },
                }
            }
            c = c + 1;
        }
        proof {
            assert(!Self::list_contains(m.controllers@, token@)) by {
                if Self::list_contains(m.controllers@, token@) {
                    let w = choose|w: int|
                        0 <= w < m.controllers@.len() && (#[trigger] m.controllers@[w])@ == token@;
                }
            }
        }
        Option::None
    }

    /// The dependency tokens of a provided or controlled component, if
    /// any module carries it.
    pub fn get_provider_dependencies(&self, token: &str) -> (r: Option<Vec<String>>)
        requires
            self.wf(),
        ensures
            match r {
                Option::Some(v) => Self::lookup_deps(
                    self.modules_view(),
                    self.injectables_view(),
                    token@,
                ) matches Option::Some(d) && names_view(v@) == names_view(d),
                Option::None => Self::lookup_deps(
                    self.modules_view(),
                    self.injectables_view(),
                    token@,
                ) is None,
            },
    {
        let ghost mods = self.modules@;
        proof {
            assert(mods.skip(0) =~= mods);
        }
        let mut i: usize = 0;
        while i < self.modules.len()
            invariant
                self.wf(),
                i <= mods.len(),
                mods == self.modules@,
                Self::lookup_deps(mods, self.injectables@, token@) == Self::lookup_deps(
                    mods.skip(i as int),
                    self.injectables@,
                    token@,
                ),
            decreases mods.len() - i,
        {
            proof {
                assert(mods.skip(i as int).drop_first() =~= mods.skip(i + 1 as int));
                assert(mods.skip(i as int)[0] == mods[i as int]);
            }
            match self.module_deps(&self.modules[i], token) {
                Option::Some(v) => {
                    return Option::Some(v);
                },
                Option::None => {},
            }
            i = i + 1;
        }
        proof {
            assert(mods.skip(mods.len() as int) =~= Seq::<Module>::empty());
        }
        Option::None
    }
}

/// The registered component tokens, module by module: each module's
/// provider tokens first, then its controllers, first registration wins.
pub open spec fn provider_tokens_fold(st: Seq<Seq<char>>, ps: Seq<Provider>) -> Seq<Seq<char>>
    decreases ps.len(),
{
    if ps.len() == 0 {
        st
    } else {
        add_name(provider_tokens_fold(st, ps.drop_last()), ps.last().token@)
    }
}

pub open spec fn controller_tokens_fold(st: Seq<Seq<char>>, cs: Seq<String>) -> Seq<Seq<char>>
    decreases cs.len(),
{
    if cs.len() == 0 {
        st
    } else {
        add_name(controller_tokens_fold(st, cs.drop_last()), cs.last()@)
    }
}

pub open spec fn module_tokens_fold(st: Seq<Seq<char>>, m: Module) -> Seq<Seq<char>> {
    controller_tokens_fold(provider_tokens_fold(st, m.providers@), m.controllers@)
}

pub open spec fn modules_tokens_fold(st: Seq<Seq<char>>, mods: Seq<Module>) -> Seq<Seq<char>>
    decreases mods.len(),
{
    if mods.len() == 0 {
        st
    } else {
        module_tokens_fold(modules_tokens_fold(st, mods.drop_last()), mods.last())
    }
}

/// The dependency edges of the injection graph, directed from dependent
/// to dependency; an edge is recorded only between registered tokens.
pub open spec fn deps_edges_fold(
    es: Set<(int, int)>,
    toks: Seq<Seq<char>>,
    parent: Seq<char>,
    deps: Seq<String>,
) -> Set<(int, int)>
    decreases deps.len(),
{
    if deps.len() == 0 {
        es
    } else {
        let prev = deps_edges_fold(es, toks, parent, deps.drop_last());
        if contains_seq(toks, parent) && contains_seq(toks, deps.last()@) {
            prev.insert((name_index(toks, parent), name_index(toks, deps.last()@)))
        } else {
            prev
        }
    }
}

pub open spec fn providers_edges_fold(
    es: Set<(int, int)>,
    toks: Seq<Seq<char>>,
    injs: Seq<InjectableDefinition>,
    ps: Seq<Provider>,
) -> Set<(int, int)>
    decreases ps.len(),
{
    if ps.len() == 0 {
        es
    } else {
        deps_edges_fold(
            providers_edges_fold(es, toks, injs, ps.drop_last()),
            toks,
            ps.last().token@,
            DiGraph::chosen_deps(ps.last(), injs),
        )
    }
}

pub open spec fn controllers_edges_fold(
    es: Set<(int, int)>,
    toks: Seq<Seq<char>>,
    injs: Seq<InjectableDefinition>,
    cs: Seq<String>,
) -> Set<(int, int)>
    decreases cs.len(),
{
    if cs.len() == 0 {
        es
    } else {
        let prev = controllers_edges_fold(es, toks, injs, cs.drop_last());
        match find_inj(injs, cs.last()@) {
            Option::Some(d) => deps_edges_fold(prev, toks, cs.last()@, d.dependencies@),
            Option::None => prev,
        }
    }
}

pub open spec fn module_edges_fold(
    es: Set<(int, int)>,
    toks: Seq<Seq<char>>,
    injs: Seq<InjectableDefinition>,
    m: Module,
) -> Set<(int, int)> {
    controllers_edges_fold(
        providers_edges_fold(es, toks, injs, m.providers@),
        toks,
        injs,
        m.controllers@,
    )
}

pub open spec fn modules_edges_fold(
    es: Set<(int, int)>,
    toks: Seq<Seq<char>>,
    injs: Seq<InjectableDefinition>,
    mods: Seq<Module>,
) -> Set<(int, int)>
    decreases mods.len(),
{
    if mods.len() == 0 {
        es
    } else {
        module_edges_fold(
            modules_edges_fold(es, toks, injs, mods.drop_last()),
            toks,
            injs,
            mods.last(),
        )
    }
}

impl DiGraph {
    /// The tokens the registry's modules provide or control.
    pub open spec fn di_tokens(self) -> Seq<Seq<char>> {
        modules_tokens_fold(Seq::empty(), self.modules@)
    }

    /// The dependency edges among those tokens.
    pub open spec fn di_edges(self) -> Set<(int, int)> {
        modules_edges_fold(Set::empty(), self.di_tokens(), self.injectables@, self.modules@)
    }

    fn add_deps_edges(
        &self,
        g: &mut DependencyGraph,
        parent: &str,
        deps: &Vec<String>,
        Ghost(toks): Ghost<Seq<Seq<char>>>,
    )
        requires
            old(g).wf(),
            old(g).nodes() == toks,
        ensures
            final(g).wf(),
            final(g).nodes() == toks,
            final(g).edges() == deps_edges_fold(old(g).edges(), toks, parent@, deps@),
    {
        let mut k: usize = 0;
        while k < deps.len()
            invariant
                g.wf(),
                g.nodes() == toks,
                k <= deps@.len(),
                g.edges() == deps_edges_fold(old(g).edges(), toks, parent@, deps@.take(k as int)),
            decreases deps@.len() - k,
        {
            proof {
                assert(deps@.take(k + 1 as int).drop_last() =~= deps@.take(k as int));
                assert(deps@.take(k + 1 as int).last() == deps@[k as int]);
            }
            if g.has_node(parent) && g.has_node(deps[k].as_str()) {
                g.add_dependency(parent, deps[k].as_str());
                proof {
                    assert(add_name(add_name(toks, parent@), deps@[k as int]@) == toks);
                }
            }
            k = k + 1;
        }
        proof {
            assert(deps@.take(deps@.len() as int) =~= deps@);
        }
    }

    /// Resolves the injection graph to a safe initialization order:
    /// dependencies come before their dependents. An acyclic registry
    /// always resolves; a dependency cycle is reported with a registered
    /// component that lies on it, and no partial order.
    pub fn resolve(&self) -> (r: Result<Vec<String>, DiError>)
        requires
            self.wf(),
        ensures
            match r {
                Result::Ok(v) => DependencyGraph::valid_init_order(
                    self.di_tokens(),
                    self.di_edges(),
                    names_view(v@),
                ),
                Result::Err(e) => e matches DiError::CircularDependency(n) && contains_seq(
                    self.di_tokens(),
                    n@,
                ) && crate::graphs::on_cycle(
                    self.di_edges(),
                    name_index(self.di_tokens(), n@),
                ),
            },
            !crate::graphs::has_cycle(self.di_edges()) ==> r is Ok,
    {
        let mut g = DependencyGraph::new();
        let mut i: usize = 0;
        proof {
            assert(modules_tokens_fold(Seq::empty(), self.modules@.take(0)) =~= Seq::<Seq<
                char,
            >>::empty());
        }
        while i < self.modules.len()
            invariant
                self.wf(),
                g.wf(),
                i <= self.modules@.len(),
                g.edges() == Set::<(int, int)>::empty(),
                g.nodes() == modules_tokens_fold(Seq::empty(), self.modules@.take(i as int)),
            decreases self.modules@.len() - i,
        {
            proof {
                assert(self.modules@.take(i + 1 as int).drop_last() =~= self.modules@.take(
                    i as int,
                ));
                assert(self.modules@.take(i + 1 as int).last() == self.modules@[i as int]);
            }
            let m = &self.modules[i];
            let ghost st0 = g.nodes();
            let mut j: usize = 0;
            while j < m.providers.len()
                invariant
                    g.wf(),
                    j <= m.providers@.len(),
                    g.edges() == Set::<(int, int)>::empty(),
                    g.nodes() == provider_tokens_fold(st0, m.providers@.take(j as int)),
                decreases m.providers@.len() - j,
            {
                proof {
                    assert(m.providers@.take(j + 1 as int).drop_last() =~= m.providers@.take(
                        j as int,
                    ));
                    assert(m.providers@.take(j + 1 as int).last() == m.providers@[j as int]);
                }
                let _ = g.add_node(m.providers[j].token.clone());
                j = j + 1;
            }
            proof {
                assert(m.providers@.take(m.providers@.len() as int) =~= m.providers@);
            }
            let ghost st1 = g.nodes();
            let mut c: usize = 0;
            while c < m.controllers.len()
                invariant
                    g.wf(),
                    c <= m.controllers@.len(),
                    g.edges() == Set::<(int, int)>::empty(),
                    g.nodes() == controller_tokens_fold(st1, m.controllers@.take(c as int)),
                decreases m.controllers@.len() - c,
            {
                proof {
                    assert(m.controllers@.take(c + 1 as int).drop_last() =~= m.controllers@.take(
                        c as int,
                    ));
                    assert(m.controllers@.take(c + 1 as int).last() == m.controllers@[c as int]);
                }
                let _ = g.add_node(m.controllers[c].clone());
                c = c + 1;
            }
            proof {
                assert(m.controllers@.take(m.controllers@.len() as int) =~= m.controllers@);
            }
            i = i + 1;
        }
        proof {
            assert(self.modules@.take(self.modules@.len() as int) =~= self.modules@);
        }
        let ghost toks = g.nodes();
        proof {
            assert(toks == self.di_tokens());
        }
        let empty_deps: Vec<String> = Vec::new();
        let mut i2: usize = 0;
        proof {
            assert(modules_edges_fold(
                Set::empty(),
                toks,
                self.injectables@,
                self.modules@.take(0),
            ) =~= Set::<(int, int)>::empty());
        }
        while i2 < self.modules.len()
            invariant
                self.wf(),
                g.wf(),
                i2 <= self.modules@.len(),
                g.nodes() == toks,
                toks == self.di_tokens(),
                g.edges() == modules_edges_fold(
                    Set::empty(),
                    toks,
                    self.injectables@,
                    self.modules@.take(i2 as int),
                ),
            decreases self.modules@.len() - i2,
        {
            proof {
                assert(self.modules@.take(i2 + 1 as int).drop_last() =~= self.modules@.take(
                    i2 as int,
                ));
                assert(self.modules@.take(i2 + 1 as int).last() == self.modules@[i2 as int]);
            }
            let m = &self.modules[i2];
            let ghost es0 = g.edges();
            let mut j: usize = 0;
            while j < m.providers.len()
                invariant
                    self.wf(),
                    g.wf(),
                    j <= m.providers@.len(),
                    g.nodes() == toks,
                    g.edges() == providers_edges_fold(
                        es0,
                        toks,
                        self.injectables@,
                        m.providers@.take(j as int),
                    ),
                decreases m.providers@.len() - j,
            {
                proof {
                    assert(m.providers@.take(j + 1 as int).drop_last() =~= m.providers@.take(
                        j as int,
                    ));
                    assert(m.providers@.take(j + 1 as int).last() == m.providers@[j as int]);
                }
                let p = &m.providers[j];
                if p.dependencies.len() > 0 {
                    self.add_deps_edges(&mut g, p.token.as_str(), &p.dependencies, Ghost(toks));
                } else {
                    match self.find_injectable(p.token.as_str()) {
                        Option::Some(d) => {
                            self.add_deps_edges(
                                &mut g,
                                p.token.as_str(),
                                &d.dependencies,
                                Ghost(toks),
                            );
                        },
                        Option::None => {
                            proof {
                                assert(deps_edges_fold(
                                    g.edges(),
                                    toks,
                                    p.token@,
                                    Seq::<String>::empty(),
                                ) == g.edges());
                            }
                        },
                    }
                }
                j = j + 1;
            }
            proof {
                assert(m.providers@.take(m.providers@.len() as int) =~= m.providers@);
            }
            let ghost es1 = g.edges();
            let mut c: usize = 0;
            while c < m.controllers.len()
                invariant
                    self.wf(),
                    g.wf(),
                    c <= m.controllers@.len(),
                    g.nodes() == toks,
                    g.edges() == controllers_edges_fold(
                        es1,
                        toks,
                        self.injectables@,
                        m.controllers@.take(c as int),
                    ),
                decreases m.controllers@.len() - c,
            {
                proof {
                    assert(m.controllers@.take(c + 1 as int).drop_last() =~= m.controllers@.take(
                        c as int,
                    ));
                    assert(m.controllers@.take(c + 1 as int).last() == m.controllers@[c as int]);
                }
                match self.find_injectable(m.controllers[c].as_str()) {
                    Option::Some(d) => {
                        self.add_deps_edges(
                            &mut g,
                            m.controllers[c].as_str(),
                            &d.dependencies,
                            Ghost(toks),
                        );
                    },
                    Option::None => {},
                }
                c = c + 1;
            }
            proof {
                assert(m.controllers@.take(m.controllers@.len() as int) =~= m.controllers@);
            }
            i2 = i2 + 1;
        }
        proof {
            assert(self.modules@.take(self.modules@.len() as int) =~= self.modules@);
        }
        match g.get_initialization_order() {
            Result::Ok(v) => Result::Ok(v),
            Result::Err(n) => Result::Err(DiError::CircularDependency(n)),
        }
    }
}

impl Default for DiGraph {
    /// An empty registry.
    fn default() -> (r: DiGraph)
        ensures
            r.wf(),
            r.modules_view() == Seq::<Module>::empty(),
            r.injectables_view() == Seq::<InjectableDefinition>::empty(),
    {
        DiGraph::new()
    }
}

/// A registry folded over another: later entries win on a name.
pub open spec fn merge_modules(base: Seq<Module>, add: Seq<Module>) -> Seq<Module>
    decreases add.len(),
{
    if add.len() == 0 {
        base
    } else {
        upsert_module(merge_modules(base, add.drop_last()), add.last())
    }
}

pub open spec fn merge_injs(
    base: Seq<InjectableDefinition>,
    add: Seq<InjectableDefinition>,
) -> Seq<InjectableDefinition>
    decreases add.len(),
{
    if add.len() == 0 {
        base
    } else {
        upsert_inj(merge_injs(base, add.drop_last()), add.last())
    }
}

proof fn lemma_merge_modules_cons(base: Seq<Module>, s: Seq<Module>)
    requires
        s.len() > 0,
    ensures
        merge_modules(base, s) == merge_modules(upsert_module(base, s[0]), s.drop_first()),
    decreases s.len(),
{
    if s.len() == 1 {
        assert(s.drop_last() =~= Seq::<Module>::empty());
        assert(s.drop_first() =~= Seq::<Module>::empty());
        assert(merge_modules(base, s.drop_last()) == base);
        assert(merge_modules(upsert_module(base, s[0]), s.drop_first()) == upsert_module(
            base,
            s[0],
        ));
    } else {
        lemma_merge_modules_cons(base, s.drop_last());
        assert(s.drop_last()[0] == s[0]);
        assert(s.drop_last().drop_first() =~= s.drop_first().drop_last());
        assert(s.drop_first().last() == s.last());
        assert(s.drop_first().len() > 0);
        assert(merge_modules(base, s) == upsert_module(
            merge_modules(base, s.drop_last()),
            s.last(),
        ));
        assert(merge_modules(base, s.drop_last()) == merge_modules(
            upsert_module(base, s[0]),
            s.drop_first().drop_last(),
        ));
        assert(merge_modules(upsert_module(base, s[0]), s.drop_first()) == upsert_module(
            merge_modules(upsert_module(base, s[0]), s.drop_first().drop_last()),
            s.drop_first().last(),
        ));
    }
}

proof fn lemma_merge_injs_cons(base: Seq<InjectableDefinition>, s: Seq<InjectableDefinition>)
    requires
        s.len() > 0,
    ensures
        merge_injs(base, s) == merge_injs(upsert_inj(base, s[0]), s.drop_first()),
    decreases s.len(),
{
    if s.len() == 1 {
        assert(s.drop_last() =~= Seq::<InjectableDefinition>::empty());
        assert(s.drop_first() =~= Seq::<InjectableDefinition>::empty());
        assert(merge_injs(base, s.drop_last()) == base);
        assert(merge_injs(upsert_inj(base, s[0]), s.drop_first()) == upsert_inj(base, s[0]));
    } else {
        lemma_merge_injs_cons(base, s.drop_last());
        assert(s.drop_last()[0] == s[0]);
        assert(s.drop_last().drop_first() =~= s.drop_first().drop_last());
        assert(s.drop_first().last() == s.last());
        assert(s.drop_first().len() > 0);
        assert(merge_injs(base, s) == upsert_inj(merge_injs(base, s.drop_last()), s.last()));
        assert(merge_injs(base, s.drop_last()) == merge_injs(
            upsert_inj(base, s[0]),
            s.drop_first().drop_last(),
        ));
        assert(merge_injs(upsert_inj(base, s[0]), s.drop_first()) == upsert_inj(
            merge_injs(upsert_inj(base, s[0]), s.drop_first().drop_last()),
            s.drop_first().last(),
        ));
    }
}

/// Copies a token list, entry by entry.
fn copy_strings(v: &Vec<String>) -> (r: Vec<String>)
    ensures
        r@.len() == v@.len(),
        forall|i: int| 0 <= i < v@.len() ==> (#[trigger] r@[i])@ == v@[i]@,
{
    let mut out: Vec<String> = Vec::new();
    let mut i: usize = 0;
    while i < v.len()
        invariant
            i <= v@.len(),
            out@.len() == i,
            forall|k: int| 0 <= k < i ==> (#[trigger] out@[k])@ == v@[k]@,
        decreases v@.len() - i,
    {
        out.push(v[i].clone());
        i = i + 1;
    }
    out
}

} // verus!
