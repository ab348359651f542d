use vstd::prelude::*;
use crate::err;
use crate::condition::{Condition, CondView, cond_views, condition_holds, clone_conditions, same_conditions};
use crate::glob_to_regex::{GlobRegex, from_str, glob_matches, glob_regex, anchored, pcre_accepts};
use crate::json::{Json, same_text};
use crate::policy::strs;

verus! {

/// The globs that a list of compiled globs came from.
pub open spec fn globs_of(v: Seq<GlobRegex>) -> Seq<Seq<char>> {
    v.map_values(|g: GlobRegex| g.spec_glob())
}

/// Whether some glob of the list matches `s` as a whole.
pub open spec fn any_glob_matches(globs: Seq<Seq<char>>, s: Seq<char>) -> bool {
    exists|i: int| 0 <= i < globs.len() && glob_matches(#[trigger] globs[i], s)
}

/// Whether every glob of the list is one that pcre2 can compile.
pub open spec fn all_globs_compile(globs: Seq<Seq<char>>) -> bool {
    forall|i: int| 0 <= i < globs.len() ==> pcre_accepts(anchored(glob_regex(#[trigger] globs[i])))
}

/// Whether a list of resource globs says "every resource": it holds `*`.
pub open spec fn holds_star(globs: Seq<Seq<char>>) -> bool {
    exists|i: int| 0 <= i < globs.len() && #[trigger] globs[i] == seq!['*']
}

/// The resource globs that are compiled: none where `*` stands among them.
pub open spec fn compiled_resource_globs(globs: Seq<Seq<char>>) -> Seq<Seq<char>> {
    if holds_star(globs) { seq![] } else { globs }
}

/// A policy in the form that requests are matched against: the compiled action and
/// resource globs and the conditions.
#[derive(Debug)]
pub struct CompiledPolicy {
    actions: Vec<GlobRegex>,
    resources: Vec<GlobRegex>,
    conditions: Vec<Condition>,
    no_conditions: bool,
    all_resources: bool,
}

impl CompiledPolicy {
    pub closed spec fn action_globs(&self) -> Seq<Seq<char>> {
        globs_of(self.actions@)
    }

    pub closed spec fn resource_globs(&self) -> Seq<Seq<char>> {
        globs_of(self.resources@)
    }

    pub closed spec fn condition_views(&self) -> Seq<CondView> {
        cond_views(self.conditions@)
    }

    /// Every compiled glob is well formed, and the two flags say whether there are
    /// no resource globs and no conditions.
    pub closed spec fn wf(&self) -> bool {
        &&& forall|i: int| 0 <= i < self.actions.len() ==> (#[trigger] self.actions[i]).wf()
        &&& forall|i: int| 0 <= i < self.resources.len() ==> (#[trigger] self.resources[i]).wf()
        &&& self.all_resources == (self.resources.len() == 0)
        &&& self.no_conditions == (self.conditions.len() == 0)
    }

    /// What `match_resource` answers.
    pub open spec fn spec_match_resource(&self, resource: Option<Seq<char>>) -> Option<bool> {
        if self.resource_globs().len() == 0 {
            Some(true)
        } else {
            match resource {
                None => None,
                Some(r) => Some(any_glob_matches(self.resource_globs(), r)),
            }
        }
    }

    /// What `match_conditions` answers: whether every condition holds.
    pub open spec fn spec_match_conditions(&self, params: Json, scripts: Seq<(String, bool)>) -> bool {
        forall|i: int| 0 <= i < self.condition_views().len() ==> condition_holds(#[trigger] self.condition_views()[i], params, scripts)
    }

    /// Builds a compiled policy. No resource globs means that every resource matches;
    /// no action globs means that no action does.
    pub fn new(actions: Vec<GlobRegex>, resources: Vec<GlobRegex>, conditions: Vec<Condition>) -> (r: CompiledPolicy)
        requires
            forall|i: int| 0 <= i < actions.len() ==> (#[trigger] actions[i]).wf(),
            forall|i: int| 0 <= i < resources.len() ==> (#[trigger] resources[i]).wf(),
        ensures
            r.wf(),
            r.action_globs() == globs_of(actions@),
            r.resource_globs() == globs_of(resources@),
            r.condition_views() == cond_views(conditions@),
    {
        let no_conditions = conditions.len() == 0;
        let all_resources = resources.len() == 0;
        CompiledPolicy { actions, resources, conditions, no_conditions, all_resources }
    }

    /// Whether every resource matches: there are no resource globs.
    pub fn all_resources(&self) -> (r: bool)
        requires
            self.wf(),
        ensures
            r == (self.resource_globs().len() == 0),
    {
        self.all_resources
    }

    /// Whether there are no conditions.
    pub fn no_conditions(&self) -> (r: bool)
        requires
            self.wf(),
        ensures
            r == (self.condition_views().len() == 0),
    {
        self.no_conditions
    }

    /// Whether some action glob matches `action` as a whole.
    pub fn match_action(&self, action: &str) -> (r: bool)
        requires
            self.wf(),
        ensures
            r == any_glob_matches(self.action_globs(), action@),
    {
        let mut i: usize = 0;
        while i < self.actions.len()
            invariant
                self.wf(),
                i <= self.actions.len(),
                forall|k: int| 0 <= k < i ==> !glob_matches(#[trigger] self.action_globs()[k], action@),
            decreases self.actions.len() - i,
        {
            if self.actions[i].is_match(action) {
                proof {
                    assert(self.action_globs()[i as int] == self.actions@[i as int].spec_glob());
                }
                return true;
            }
            i = i + 1;
        }
        false
    }

    /// `Some(true)` where every resource matches; `None` where the resource is not
    /// given (this axis is undecided); else whether some resource glob matches it.
    pub fn match_resource(&self, resource: Option<&str>) -> (r: Option<bool>)
        requires
            self.wf(),
        ensures
            r == self.spec_match_resource(match resource { Some(s) => Some(s@), None => None }),
    {
        if self.all_resources {
            return Some(true);
        }
        match resource {
            None => None,
            Some(res) => {
                let mut i: usize = 0;
                while i < self.resources.len()
                    invariant
                        self.wf(),
                        !self.all_resources,
                        resource == Some(res),
                        i <= self.resources.len(),
                        forall|k: int| 0 <= k < i ==> !glob_matches(#[trigger] self.resource_globs()[k], res@),
                    decreases self.resources.len() - i,
                {
                    if self.resources[i].is_match(res) {
                        proof {
                            assert(self.resource_globs().len() == self.resources.len());
                            assert(self.resource_globs()[i as int] == self.resources@[i as int].spec_glob());
                            assert(glob_matches(self.resource_globs()[i as int], res@));
                        }
                        return Some(true);
                    }
                    i = i + 1;
                }
                Some(false)
            },
        }
    }

    /// Whether every condition holds on the request context.
    pub fn match_conditions(&self, params: &Json, scripts: &Vec<(String, bool)>) -> (r: bool)
        ensures
            r == self.spec_match_conditions(*params, scripts@),
    {
        let mut i: usize = 0;
        while i < self.conditions.len()
            invariant
                i <= self.conditions.len(),
                forall|k: int| 0 <= k < i ==> condition_holds(#[trigger] self.condition_views()[k], *params, scripts@),
            decreases self.conditions.len() - i,
        {
            if !self.conditions[i].matching(params, scripts) {
                proof {
                    assert(!condition_holds(self.condition_views()[i as int], *params, scripts@));
                }
                return false;
            }
            i = i + 1;
        }
        true
    }

    pub fn clone(&self) -> (r: CompiledPolicy)
        ensures
            self.wf() ==> r.wf(),
            r.action_globs() == self.action_globs(),
            r.resource_globs() == self.resource_globs(),
            r.condition_views() == self.condition_views(),
    {
        let actions = clone_globs(&self.actions);
        let resources = clone_globs(&self.resources);
        let conditions = clone_conditions(&self.conditions);
        proof {
            assert(cond_views(conditions@).len() == cond_views(self.conditions@).len());
            assert(conditions.len() == self.conditions.len());
        }
        CompiledPolicy { actions, resources, conditions, no_conditions: self.no_conditions, all_resources: self.all_resources }
    }
}

fn clone_globs(v: &Vec<GlobRegex>) -> (r: Vec<GlobRegex>)
    ensures
        globs_of(r@) == globs_of(v@),
        r.len() == v.len(),
        forall|i: int| 0 <= i < v.len() ==> (#[trigger] r[i]).wf() == v[i].wf(),
{
    let mut out: Vec<GlobRegex> = Vec::new();
    let mut i: usize = 0;
    while i < v.len()
        invariant
            i <= v.len(),
            out.len() == i,
            forall|k: int| 0 <= k < i ==> (#[trigger] out[k]).wf() == v[k].wf() && out[k].spec_glob() == v[k].spec_glob(),
        decreases v.len() - i,
    {
        out.push(v[i].clone());
        i = i + 1;
    }
    proof {
        assert(globs_of(out@) =~= globs_of(v@));
    }
    out
}

/// Compiles a list of globs, in order; fails on the first that pcre2 refuses.
fn compile_globs(globs: &Vec<String>) -> (r: Result<Vec<GlobRegex>, err::Error>)
    ensures
        r is Ok <==> all_globs_compile(strs(globs@)),
        r matches Ok(v) ==> globs_of(v@) == strs(globs@) && forall|i: int| 0 <= i < v.len() ==> (#[trigger] v[i]).wf(),
        r matches Err(e) ==> e.spec_kind() == err::ErrorKind::UnknownError,
{
    let mut out: Vec<GlobRegex> = Vec::new();
    let mut i: usize = 0;
    while i < globs.len()
        invariant
            i <= globs.len(),
            out.len() == i,
            forall|k: int| 0 <= k < i ==> (#[trigger] out[k]).wf() && out[k].spec_glob() == globs[k]@,
            forall|k: int| 0 <= k < i ==> pcre_accepts(anchored(glob_regex(#[trigger] strs(globs@)[k]))),
        decreases globs.len() - i,
    {
        match from_str(globs[i].as_str()) {
            Ok(g) => {
                out.push(g);
            },
            Err(e) => {
                proof {
                    assert(!pcre_accepts(anchored(glob_regex(strs(globs@)[i as int]))));
                }
                return Err(e);
            },
        }
        i = i + 1;
    }
    proof {
        assert(globs_of(out@) =~= strs(globs@));
    }
    Ok(out)
}

/// Whether `*` stands among the globs.
fn has_star(globs: &Vec<String>) -> (r: bool)
    ensures
        r == holds_star(strs(globs@)),
{
    let mut i: usize = 0;
    while i < globs.len()
        invariant
            i <= globs.len(),
            forall|k: int| 0 <= k < i ==> #[trigger] strs(globs@)[k] != seq!['*'],
        decreases globs.len() - i,
    {
        proof {
            reveal_strlit("*");
        }
        if same_text(globs[i].as_str(), "*") {
            proof {
                assert(strs(globs@)[i as int] == seq!['*']);
            }
            return true;
        }
        proof {
            assert("*"@ =~= seq!['*']);
        }
        i = i + 1;
    }
    false
}

/// Compiles policies and keeps the compiled forms, by policy id, so that a policy
/// is compiled once. Ids are unique in the cache.
pub struct Compiler {
    cache: Vec<(String, CompiledPolicy)>,
}

/// The position of the entry for `id`, if the cache holds one.
pub open spec fn cache_index(entries: Seq<(String, CompiledPolicy)>, id: Seq<char>) -> Option<int> {
    if exists|i: int| 0 <= i < entries.len() && #[trigger] entries[i].0@ == id {
        Some(choose|i: int| 0 <= i < entries.len() && #[trigger] entries[i].0@ == id)
    } else {
        None
    }
}

impl Compiler {
    /// The ids of the cached policies.
    pub closed spec fn cached_ids(&self) -> Set<Seq<char>> {
        Set::new(|id: Seq<char>| exists|i: int| 0 <= i < self.cache.len() && #[trigger] self.cache[i].0@ == id)
    }

    /// Every cached compiled policy is well formed and ids are unique.
    pub closed spec fn wf(&self) -> bool {
        &&& forall|i: int| 0 <= i < self.cache.len() ==> (#[trigger] self.cache[i]).1.wf()
        &&& forall|i: int, j: int| 0 <= i < self.cache.len() && 0 <= j < self.cache.len() && i != j
            ==> (#[trigger] self.cache[i]).0@ != (#[trigger] self.cache[j]).0@
    }

    /// A compiler with an empty cache.
    pub fn new() -> (r: Compiler)
        ensures
            r.wf(),
            r.cached_ids() == Set::<Seq<char>>::empty(),
    {
        let r = Compiler { cache: Vec::new() };
        proof {
            assert(r.cached_ids() =~= Set::<Seq<char>>::empty());
        }
        r
    }

    fn find(&self, id: &str) -> (r: Option<usize>)
        requires
            self.wf(),
        ensures
            r matches Some(i) ==> i < self.cache.len() && self.cache[i as int].0@ == id@,
            r is None ==> !self.cached_ids().contains(id@),
    {
        let mut i: usize = 0;
        while i < self.cache.len()
            invariant
                i <= self.cache.len(),
                forall|k: int| 0 <= k < i ==> #[trigger] self.cache[k].0@ != id@,
            decreases self.cache.len() - i,
        {
            if same_text(self.cache[i].0.as_str(), id) {
                return Some(i);
            }
            i = i + 1;
        }
        None
    }

    /// Whether a compiled form is cached for `id`.
    pub fn contains(&self, id: &str) -> (r: bool)
        requires
            self.wf(),
        ensures
            r == self.cached_ids().contains(id@),
    {
        match self.find(id) {
            Some(_) => true,
            None => false,
        }
    }

    /// Removes the compiled form cached for `id`, if any. To be called when a policy
    /// is saved or removed.
    pub fn flush(&mut self, id: &str)
        requires
            old(self).wf(),
        ensures
            final(self).wf(),
            final(self).cached_ids() == old(self).cached_ids().remove(id@),
    {
        match self.find(id) {
            Some(i) => {
                let ghost before = self.cache@;
                self.cache.remove(i);
                proof {
                    assert forall|x: Seq<char>| #[trigger] self.cached_ids().contains(x) == old(self).cached_ids().remove(id@).contains(x) by {
                        if self.cached_ids().contains(x) {
                            let k = choose|k: int| 0 <= k < self.cache.len() && #[trigger] self.cache[k].0@ == x;
                            let j = if k < i { k } else { k + 1 };
                            assert(before[j].0@ == x);
                            assert(x != id@);
                        }
                        if old(self).cached_ids().remove(id@).contains(x) {
                            let j = choose|j: int| 0 <= j < before.len() && #[trigger] before[j].0@ == x;
                            assert(j != i);
                            let k = if j < i { j } else { j - 1 };
                            assert(self.cache[k].0@ == x);
                        }
                    }
                    assert(self.cached_ids() =~= old(self).cached_ids().remove(id@));
                }
            },
            None => {
                proof {
                    assert(self.cached_ids() =~= old(self).cached_ids().remove(id@));
                }
            },
        }
    }

    /// Compiles a policy: its action globs, its resource globs (none where `*` is
    /// among them: every resource matches) and its conditions.
    ///
    /// Where the id is not empty the compiled form is cached under it, and a cached
    /// form for that id is handed back instead of compiling again, provided that it
    /// was compiled from the same globs and conditions. Fails where pcre2 refuses
    /// one of the globs.
    pub fn compile(&mut self, id: &str, actions: &Vec<String>, resources: &Vec<String>, conditions: Vec<Condition>) -> (r: Result<CompiledPolicy, err::Error>)
        requires
            old(self).wf(),
        ensures
            final(self).wf(),
            r is Ok <==> all_globs_compile(strs(actions@)) && all_globs_compile(compiled_resource_globs(strs(resources@))),
            r matches Ok(cp) ==> cp.wf()
                && cp.action_globs() == strs(actions@)
                && cp.resource_globs() == compiled_resource_globs(strs(resources@))
                && cp.condition_views() == cond_views(conditions@),
            r matches Err(e) ==> e.spec_kind() == err::ErrorKind::UnknownError,
            r is Ok && id@.len() > 0 ==> final(self).cached_ids() == old(self).cached_ids().insert(id@),
            !(r is Ok && id@.len() > 0) ==> final(self).cached_ids() == old(self).cached_ids(),
    {
        let star = has_star(resources);
        let cached = if !id.is_empty() { self.find(id) } else { None };
        if let Some(i) = cached {
            let cp = &self.cache[i].1;
            if same_globs(&cp.actions, actions) && same_conditions(&cp.conditions, &conditions)
                && ((star && cp.resources.len() == 0) || (!star && same_globs(&cp.resources, resources))) {
                proof {
                    lemma_compiled_globs_accepted(cp.actions@);
                    lemma_compiled_globs_accepted(cp.resources@);
                    if star {
                        assert(compiled_resource_globs(strs(resources@)) =~= globs_of(cp.resources@));
                    }
                    assert(self.cached_ids() =~= old(self).cached_ids().insert(id@));
                }
                return Ok(cp.clone());
            }
        }
        let compiled_actions = match compile_globs(actions) {
            Ok(v) => v,
            Err(e) => {
                return Err(e);
            },
        };
        let compiled_resources = if star {
            let none: Vec<GlobRegex> = Vec::new();
            proof {
                assert(globs_of(none@) =~= seq![]);
            }
            none
        } else {
            match compile_globs(resources) {
                Ok(v) => v,
                Err(e) => {
                    return Err(e);
                },
            }
        };
        let cp = CompiledPolicy::new(compiled_actions, compiled_resources, conditions);
        if !id.is_empty() {
            self.store(id, cp.clone(), cached);
        }
        Ok(cp)
    }

    fn store(&mut self, id: &str, cp: CompiledPolicy, at: Option<usize>)
        requires
            old(self).wf(),
            cp.wf(),
            at matches Some(i) ==> i < old(self).cache.len() && old(self).cache[i as int].0@ == id@,
            at is None ==> !old(self).cached_ids().contains(id@),
        ensures
            final(self).wf(),
            final(self).cached_ids() == old(self).cached_ids().insert(id@),
    {
        let key = String::from_str(id);
        match at {
            Some(i) => {
                self.cache.set(i, (key, cp));
                proof {
                    assert(self.cached_ids() =~= old(self).cached_ids().insert(id@)) by {
                        assert forall|x: Seq<char>| #[trigger] self.cached_ids().contains(x) == old(self).cached_ids().insert(id@).contains(x) by {
                            if old(self).cached_ids().insert(id@).contains(x) && x != id@ {
                                let j = choose|j: int| 0 <= j < old(self).cache.len() && #[trigger] old(self).cache[j].0@ == x;
                                assert(self.cache[j].0@ == x);
                            }
                            if x == id@ {
                                assert(self.cache[i as int].0@ == x);
                            }
                        }
                    }
                }
            },
            None => {
                self.cache.push((key, cp));
                proof {
                    let n = old(self).cache.len() as int;
                    assert(self.cache[n].0@ == id@);
                    assert(self.cached_ids() =~= old(self).cached_ids().insert(id@)) by {
                        assert forall|x: Seq<char>| #[trigger] self.cached_ids().contains(x) == old(self).cached_ids().insert(id@).contains(x) by {
                            if old(self).cached_ids().insert(id@).contains(x) && x != id@ {
                                let j = choose|j: int| 0 <= j < old(self).cache.len() && #[trigger] old(self).cache[j].0@ == x;
                                assert(self.cache[j].0@ == x);
                            }
                        }
                    }
                }
            },
        }
    }
}

proof fn lemma_compiled_globs_accepted(v: Seq<GlobRegex>)
    requires
        forall|i: int| 0 <= i < v.len() ==> (#[trigger] v[i]).wf(),
    ensures
        all_globs_compile(globs_of(v)),
{
    assert forall|i: int| 0 <= i < globs_of(v).len() implies pcre_accepts(anchored(glob_regex(#[trigger] globs_of(v)[i]))) by {
        v[i].lemma_wf_accepted();
    }
}

/// Whether compiled globs came from exactly these globs, in order.
fn same_globs(compiled: &Vec<GlobRegex>, globs: &Vec<String>) -> (r: bool)
    ensures
        r == (globs_of(compiled@) == strs(globs@)),
{
    if compiled.len() != globs.len() {
        proof {
            assert(globs_of(compiled@).len() != strs(globs@).len());
        }
        return false;
    }
    let mut i: usize = 0;
    while i < compiled.len()
        invariant
            compiled.len() == globs.len(),
            i <= compiled.len(),
            forall|k: int| 0 <= k < i ==> #[trigger] compiled@[k].spec_glob() == globs@[k]@,
        decreases compiled.len() - i,
    {
        if !same_text(compiled[i].glob(), globs[i].as_str()) {
            proof {
                assert(globs_of(compiled@)[i as int] != strs(globs@)[i as int]);
            }
            return false;
        }
        i = i + 1;
    }
    proof {
        assert(globs_of(compiled@) =~= strs(globs@));
    }
    true
}

/// Removes a compiled policy from the cache. To be called by the storage layer when
/// the policy is saved or removed.
pub fn flush_policy(compiler: &mut Compiler, id: &str)
    requires
        old(compiler).wf(),
    ensures
        final(compiler).wf(),
        final(compiler).cached_ids() == old(compiler).cached_ids().remove(id@),
{
    compiler.flush(id);
}

/// The globs of a well-formed compiled policy are all ones that pcre2 compiles.
pub proof fn lemma_wf_globs_compile(cp: CompiledPolicy)
    requires
        cp.wf(),
    ensures
        all_globs_compile(cp.action_globs()),
        all_globs_compile(cp.resource_globs()),
{
    lemma_compiled_globs_accepted(cp.actions@);
    lemma_compiled_globs_accepted(cp.resources@);
}

} // verus!
