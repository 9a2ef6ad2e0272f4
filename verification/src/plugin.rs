//! Plugins and the plugin registry. Every engine subsystem and game feature
//! is a plugin with a unique name; the registry refuses a second plugin with
//! a name it already has, and records which plugins have been built.

use crate::error::EngineError;
use crate::scheduler::stops_at_first_error;
use vstd::prelude::*;

verus! {

/// What the registry needs of a plugin: its unique, stable name.
pub trait Plugin {
    /// The name this plugin reports. Every plugin of this library states its
    /// own; the provided default, the empty name, is for plugins written
    /// outside verified code, whose `name` nothing checks.
    open spec fn spec_name(&self) -> Seq<char> {
        Seq::empty()
    }

    /// A unique, stable name for this plugin. Used for duplicate detection.
    fn name(&self) -> (n: &'static str)
        ensures
            n@ == self.spec_name(),
    ;
}

/// The names of a list of registered plugins.
pub open spec fn plugin_names<P>(v: Seq<(&'static str, P)>) -> Seq<Seq<char>> {
    v.map_values(|e: (&'static str, P)| e.0@)
}

/// Collects plugins in registration order and records which were built.
pub struct PluginRegistry<P> {
    plugins: Vec<(&'static str, P)>,
    built: Vec<&'static str>,
}

impl<P> PluginRegistry<P> {
    /// Names of the registered plugins, in registration order.
    pub closed spec fn names(&self) -> Seq<Seq<char>> {
        plugin_names(self.plugins@)
    }

    /// The registered plugins, in registration order.
    pub closed spec fn plugins(&self) -> Seq<P> {
        self.plugins@.map_values(|e: (&'static str, P)| e.1)
    }

    /// Names of the plugins recorded as built.
    pub closed spec fn built_names(&self) -> Set<Seq<char>> {
        self.built@.map_values(|n: &'static str| n@).to_set()
    }

    /// An empty registry.
    pub fn new() -> (r: Self)
        ensures
            r.names() == Seq::<Seq<char>>::empty(),
            r.plugins() == Seq::<P>::empty(),
            r.built_names() == Set::<Seq<char>>::empty(),
    {
        let r = PluginRegistry { plugins: Vec::new(), built: Vec::new() };
        assert(r.names() =~= Seq::<Seq<char>>::empty());
        assert(r.plugins() =~= Seq::<P>::empty());
        assert(r.built_names() =~= Set::<Seq<char>>::empty());
        r
    }

    /// `true` if a plugin with the given name has been registered.
    pub fn has(&self, name: &str) -> (b: bool)
        ensures
            b == self.names().contains(name@),
    {
        let mut i: usize = 0;
        while i < self.plugins.len()
            invariant
                i <= self.plugins@.len(),
                forall|j: int| 0 <= j < i ==> self.names()[j] != name@,
            decreases self.plugins@.len() - i,
        {
            if str_eq(self.plugins[i].0, name) {
                assert(self.names()[i as int] == name@);
                return true;
            }
            i = i + 1;
        }
        false
    }

    /// Register `plugin` under `name`, unless a plugin with that name is
    /// already registered.
    pub fn add_named(&mut self, name: &'static str, plugin: P) -> (r: Result<(), EngineError>)
        ensures
            old(self).names().contains(name@) ==> (r matches Err(EngineError::DuplicatePlugin(n)) && n@ == name@)
                && final(self).names() == old(self).names() && final(self).plugins() == old(self).plugins()
                && final(self).built_names() == old(self).built_names(),
            !old(self).names().contains(name@) ==> r is Ok
                && final(self).names() == old(self).names().push(name@)
                && final(self).plugins() == old(self).plugins().push(plugin)
                && final(self).built_names() == old(self).built_names(),
    {
        if self.has(name) {
            return Err(EngineError::DuplicatePlugin(name));
        }
        let ghost prev = self.plugins@;
        self.plugins.push((name, plugin));
        proof {
            assert(plugin_names(self.plugins@) =~= plugin_names(prev).push(name@));
            assert(self.plugins@.map_values(|e: (&'static str, P)| e.1) =~= prev.map_values(|e: (&'static str, P)| e.1).push(plugin));
        }
        Ok(())
    }

    /// Record that the plugin named `name` has been built.
    pub fn mark_built(&mut self, name: &'static str)
        ensures
            final(self).built_names() == old(self).built_names().insert(name@),
            final(self).names() == old(self).names(),
            final(self).plugins() == old(self).plugins(),
    {
        let ghost prev = self.built@;
        self.built.push(name);
        proof {
            let pv = prev.map_values(|n: &'static str| n@);
            let nv = self.built@.map_values(|n: &'static str| n@);
            assert(nv =~= pv.push(name@));
            assert forall|x: Seq<char>| #[trigger] nv.to_set().contains(x) == pv.to_set().insert(name@).contains(x) by {
                if pv.contains(x) {
                    let i = choose|i: int| 0 <= i < pv.len() && pv[i] == x;
                    assert(nv[i] == x);
                }
                if nv.contains(x) && x != name@ {
                    let i = choose|i: int| 0 <= i < nv.len() && nv[i] == x;
                    assert(pv[i] == x);
                }
                if x == name@ { assert(nv[pv.len() as int] == x); }
            }
            assert(nv.to_set() =~= pv.to_set().insert(name@));
        }
    }

    /// `true` if the plugin named `name` has been recorded as built.
    pub fn is_built(&self, name: &str) -> (b: bool)
        ensures
            b == self.built_names().contains(name@),
    {
        let mut i: usize = 0;
        while i < self.built.len()
            invariant
                i <= self.built@.len(),
                forall|j: int| 0 <= j < i ==> self.built@[j]@ != name@,
            decreases self.built@.len() - i,
        {
            if str_eq(self.built[i], name) {
                assert(self.built@.map_values(|n: &'static str| n@)[i as int] == name@);
                return true;
            }
            i = i + 1;
        }
        proof {
            if self.built_names().contains(name@) {
                let pv = self.built@.map_values(|n: &'static str| n@);
                let k = choose|k: int| 0 <= k < pv.len() && pv[k] == name@;
                assert(self.built@[k]@ == name@);
            }
        }
        false
    }

    /// The registered plugins, in registration order (the order they are
    /// built in).
    pub fn entries(&self) -> (v: &[(&'static str, P)])
        ensures
            plugin_names(v@) == self.names(),
            v@.map_values(|e: (&'static str, P)| e.1) == self.plugins(),
    {
        self.plugins.as_slice()
    }
}

/// Build one plugin with `build`.
fn call_build<P, A, F: Fn(&P, &mut A) -> Result<(), EngineError>>(build: &F, plugin: &P, ctx: &mut A) -> (r: Result<(), EngineError>)
    requires
        forall|a: &mut A| call_requires(*build, (plugin, a)),
    ensures
        exists|c: &mut A| *c == *old(ctx) && *final(c) == *final(ctx) && call_ensures(*build, (plugin, c), r),
{
    build(plugin, ctx)
}

impl<P> PluginRegistry<P> {
    /// Build every registered plugin with `build`, each once, in
    /// registration order, recording each one as built once its build
    /// succeeds. Stops right after the first build that fails and returns its
    /// error; the plugins built before it stay recorded.
    ///
    /// The context passes from each build to the next: there are states
    /// `cs[0] .. cs[m]`, from the given context to the final one, such that
    /// the `i`-th build turned `cs[i]` into `cs[i + 1]` with outcome
    /// `outs[i]`.
    pub fn build_all<A, F: Fn(&P, &mut A) -> Result<(), EngineError>>(&mut self, build: &F, ctx: &mut A) -> (r: Result<(), EngineError>)
        requires
            forall|i: int, a: &mut A| 0 <= i < old(self).plugins().len() ==> call_requires(*build, (&old(self).plugins()[i], a)),
        ensures
            final(self).names() == old(self).names(),
            final(self).plugins() == old(self).plugins(),
            exists|cs: Seq<A>, outs: Seq<Result<(), EngineError>>| {
                &&& cs.len() == outs.len() + 1
                &&& cs[0] == *old(ctx) && cs.last() == *final(ctx)
                &&& stops_at_first_error(old(self).plugins().len() as int, outs, None, r)
                &&& final(self).built_names() == old(self).built_names()
                    + old(self).names().take(if r is Ok { outs.len() as int } else { outs.len() - 1 }).to_set()
                &&& forall|i: int| 0 <= i < outs.len() ==> (i == outs.len() - 1 || #[trigger] outs[i] is Ok)
                    && exists|cm: &mut A| *cm == cs[i] && *final(cm) == cs[i + 1]
                        && call_ensures(*build, (&old(self).plugins()[i], cm), outs[i])
            },
    {
        let ghost names0 = self.names();
        let ghost plugins0 = self.plugins();
        let ghost built0 = self.built_names();
        let ghost mut cs: Seq<A> = seq![*ctx];
        let ghost mut outs: Seq<Result<(), EngineError>> = seq![];
        let mut i: usize = 0;
        while i < self.plugins.len()
            invariant
                i <= self.plugins@.len(),
                self.names() == names0,
                names0 == old(self).names(),
                self.plugins() == plugins0,
                plugins0 == old(self).plugins(),
                built0 == old(self).built_names(),
                names0.len() == plugins0.len() == self.plugins@.len(),
                forall|j: int| 0 <= j < self.plugins@.len() ==> plugins0[j] == self.plugins@[j].1 && names0[j] == self.plugins@[j].0@,
                forall|j: int, a: &mut A| 0 <= j < plugins0.len() ==> call_requires(*build, (&plugins0[j], a)),
                self.built_names() == built0 + names0.take(i as int).to_set(),
                outs.len() == i,
                cs.len() == i + 1,
                cs[0] == *old(ctx),
                cs.last() == *ctx,
                forall|k: int| 0 <= k < outs.len() ==> (#[trigger] outs[k] is Ok)
                    && exists|cm: &mut A| *cm == cs[k] && *final(cm) == cs[k + 1]
                        && call_ensures(*build, (&plugins0[k], cm), outs[k]),
            decreases self.plugins@.len() - i,
        {
            let name: &'static str = self.plugins[i].0;
            let ghost c_pre = *ctx;
            proof {
                assert(plugins0[i as int] == self.plugins@[i as int].1);
                assert forall|a: &mut A| call_requires(*build, (&self.plugins@[i as int].1, a)) by {
                    assert(call_requires(*build, (&plugins0[i as int], a)));
                }
            }
            let res = call_build(build, &self.plugins[i].1, ctx);
            proof {
                let ghost cs0 = cs;
                let ghost outs0 = outs;
                cs = cs.push(*ctx);
                outs = outs.push(res);
                assert forall|k: int| 0 <= k < outs.len() implies (k == outs.len() - 1 || #[trigger] outs[k] is Ok)
                    && exists|cm: &mut A| *cm == cs[k] && *final(cm) == cs[k + 1]
                        && call_ensures(*build, (&plugins0[k], cm), outs[k]) by {
                    if k < i {
                        assert(outs0[k] == outs[k] && outs0[k] is Ok);
                        assert(cs0[k] == cs[k] && cs0[k + 1] == cs[k + 1]);
                    } else {
                        assert(cs[k] == c_pre && cs[k + 1] == *ctx && outs[k] == res && plugins0[k] == self.plugins@[k].1);
                    }
                }
            }
            if res.is_err() {
                proof {
                    assert(stops_at_first_error(plugins0.len() as int, outs, None, res));
                    assert(names0.take(outs.len() - 1) == names0.take(i as int));
                    let ghost shape = ({
                        &&& cs.len() == outs.len() + 1
                        &&& cs[0] == *old(ctx) && cs.last() == *ctx
                        &&& self.built_names() == built0 + names0.take(outs.len() - 1).to_set()
                    });
                    assert(shape);
                }
                return res;
            }
            self.mark_built(name);
            proof {
                assert(names0.take(i + 1) =~= names0.take(i as int).push(name@));
                lemma_push_to_set(names0.take(i as int), name@);
                assert(self.built_names() =~= built0 + names0.take(i + 1).to_set());
            }
            i = i + 1;
        }
        proof {
            assert(names0.take(i as int) =~= names0);
            assert(stops_at_first_error(plugins0.len() as int, outs, None, Ok(())));
            assert forall|k: int| 0 <= k < outs.len() implies (k == outs.len() - 1 || #[trigger] outs[k] is Ok)
                && exists|cm: &mut A| *cm == cs[k] && *final(cm) == cs[k + 1]
                    && call_ensures(*build, (&plugins0[k], cm), outs[k]) by {
                assert(outs[k] is Ok);
            }
        }
        Ok(())
    }
}

/// Clean up one plugin with `cleanup`.
fn call_cleanup<P, A, F: Fn(&P, &mut A)>(cleanup: &F, plugin: &P, ctx: &mut A)
    requires
        forall|a: &mut A| call_requires(*cleanup, (plugin, a)),
    ensures
        exists|c: &mut A| *c == *old(ctx) && *final(c) == *final(ctx) && call_ensures(*cleanup, (plugin, c), ()),
{
    cleanup(plugin, ctx)
}

impl<P> PluginRegistry<P> {
    /// Clean up every registered plugin with `cleanup`, each once, in
    /// reverse registration order.
    ///
    /// The context passes from each call to the next: there are states
    /// `cs[0] .. cs[n]`, from the given context to the final one, such that
    /// the `i`-th call, on the `i`-th plugin from the end, turned `cs[i]`
    /// into `cs[i + 1]`.
    pub fn cleanup_all<A, F: Fn(&P, &mut A)>(&self, cleanup: &F, ctx: &mut A)
        requires
            forall|i: int, a: &mut A| 0 <= i < self.plugins().len() ==> call_requires(*cleanup, (&self.plugins()[i], a)),
        ensures
            exists|cs: Seq<A>| {
                &&& cs.len() == self.plugins().len() + 1
                &&& cs[0] == *old(ctx) && cs.last() == *final(ctx)
                &&& forall|i: int| #![trigger cs[i]] 0 <= i < self.plugins().len() ==> exists|cm: &mut A|
                    *cm == cs[i] && *final(cm) == cs[i + 1]
                        && call_ensures(*cleanup, (&self.plugins()[self.plugins().len() - 1 - i], cm), ())
            },
    {
        let ghost ps = self.plugins();
        let ghost mut cs: Seq<A> = seq![*ctx];
        let n = self.plugins.len();
        let mut j: usize = n;
        while j > 0
            invariant
                n == self.plugins@.len(),
                ps == self.plugins(),
                ps.len() == n,
                forall|k: int| 0 <= k < n ==> ps[k] == self.plugins@[k].1,
                forall|k: int, a: &mut A| 0 <= k < ps.len() ==> call_requires(*cleanup, (&ps[k], a)),
                j <= n,
                cs.len() == n - j + 1,
                cs[0] == *old(ctx),
                cs.last() == *ctx,
                forall|i: int| #![trigger cs[i]] 0 <= i < n - j ==> exists|cm: &mut A|
                    *cm == cs[i] && *final(cm) == cs[i + 1]
                        && call_ensures(*cleanup, (&ps[n - 1 - i], cm), ()),
            decreases j,
        {
            j = j - 1;
            let ghost c_pre = *ctx;
            proof {
                assert forall|a: &mut A| call_requires(*cleanup, (&self.plugins@[j as int].1, a)) by {
                    assert(call_requires(*cleanup, (&ps[j as int], a)));
                }
            }
            call_cleanup(cleanup, &self.plugins[j].1, ctx);
            proof {
                let ghost cs0 = cs;
                cs = cs.push(*ctx);
                assert forall|i: int| #![trigger cs[i]] 0 <= i < n - j implies exists|cm: &mut A|
                    *cm == cs[i] && *final(cm) == cs[i + 1]
                        && call_ensures(*cleanup, (&ps[n - 1 - i], cm), ()) by {
                    if i < n - j - 1 {
                        assert(cs0[i] == cs[i] && cs0[i + 1] == cs[i + 1]);
                    } else {
                        assert(cs[i] == c_pre && cs[i + 1] == *ctx && n - 1 - i == j);
                    }
                }
            }
        }
    }
}

/// The set of a sequence with one more element is the old set with it added.
proof fn lemma_push_to_set(s: Seq<Seq<char>>, x: Seq<char>)
    ensures
        s.push(x).to_set() == s.to_set().insert(x),
{
    assert forall|y: Seq<char>| #[trigger] s.push(x).to_set().contains(y) == s.to_set().insert(x).contains(y) by {
        if s.contains(y) {
            let k = choose|k: int| 0 <= k < s.len() && s[k] == y;
            assert(s.push(x)[k] == y);
        }
        if s.push(x).contains(y) && y != x {
            let k = choose|k: int| 0 <= k < s.push(x).len() && s.push(x)[k] == y;
            assert(s[k] == y);
        }
        if y == x { assert(s.push(x)[s.len() as int] == y); }
    }
    assert(s.push(x).to_set() =~= s.to_set().insert(x));
}

impl<P: Plugin> PluginRegistry<P> {
    /// Register a plugin under the name it reports, unless a plugin with that
    /// name is already registered.
    pub fn add(&mut self, plugin: P) -> (r: Result<(), EngineError>)
        ensures
            old(self).names().contains(plugin.spec_name()) ==> (r matches Err(EngineError::DuplicatePlugin(d))
                && d@ == plugin.spec_name())
                && final(self).names() == old(self).names() && final(self).plugins() == old(self).plugins(),
            !old(self).names().contains(plugin.spec_name()) ==> r is Ok
                && final(self).names() == old(self).names().push(plugin.spec_name())
                && final(self).plugins() == old(self).plugins().push(plugin),
            final(self).built_names() == old(self).built_names(),
    {
        let name = plugin.name();
        self.add_named(name, plugin)
    }
}

/// `<str as PartialEq>::eq`: `true` iff both strings have the same characters.
#[verifier::external_body]
fn str_eq(a: &str, b: &str) -> (r: bool)
    ensures
        r == (a@ == b@),
{
    a == b
}

/// A registry never holds two plugins with the same name: adding a name it
/// already has is refused and leaves it unchanged.
pub proof fn lemma_names_stay_distinct(names: Seq<Seq<char>>, n: Seq<char>)
    requires
        forall|i: int, j: int| 0 <= i < names.len() && 0 <= j < names.len() && i != j ==> names[i] != names[j],
        !names.contains(n),
    ensures
        forall|i: int, j: int| 0 <= i < names.push(n).len() && 0 <= j < names.push(n).len() && i != j
            ==> names.push(n)[i] != names.push(n)[j],
{
    assert forall|i: int, j: int| 0 <= i < names.push(n).len() && 0 <= j < names.push(n).len() && i != j
        implies names.push(n)[i] != names.push(n)[j] by {
        if i == names.len() as int { assert(names[j] != n); }
        if j == names.len() as int { assert(names[i] != n); }
    }
}

} // verus!
