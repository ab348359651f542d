use vstd::prelude::*;
use crate::err;
use crate::glob_to_regex::chars_of;
use crate::json::{Json, clone_json, json_same, json_get, entry, is_str_array, str_array, same_text};
use crate::condition::{Condition, parse_conditions, cond_views};
use crate::compiler::{Compiler, CompiledPolicy, all_globs_compile, compiled_resource_globs, any_glob_matches, holds_star};
use crate::glob_to_regex::glob_matches;

verus! {

/// The schema version of a policy. Only version 1 exists.
#[derive(Clone, Copy, Debug, PartialEq, Eq, Structural)]
pub enum PolicyVersion {
    Version1,
}

/// What a policy does to the requests it matches.
#[derive(Clone, Copy, Debug, PartialEq, Eq, Structural)]
pub enum PolicyEffect {
    Deny,
    Allow,
}

/// The number a version is written as.
pub open spec fn version_number(v: PolicyVersion) -> int {
    match v {
        PolicyVersion::Version1 => 1,
    }
}

/// The version a number stands for, if any.
pub open spec fn version_of_number(n: int) -> Option<PolicyVersion> {
    if n == 1 { Some(PolicyVersion::Version1) } else { None }
}

impl PolicyVersion {
    /// Reads a version number: 1 is `Version1`, anything else is an unknown version.
    pub fn try_from(value: i32) -> (r: Result<PolicyVersion, err::Error>)
        ensures
            r matches Ok(v) ==> version_of_number(value as int) == Some(v),
            r matches Err(e) ==> version_of_number(value as int) is None
                && e.spec_kind() == err::ErrorKind::UnknownPolicyVersionError
                && e.spec_message() == err::unknown_version_message(),
    {
        if value == 1 {
            Ok(PolicyVersion::Version1)
        } else {
            Err(err::Error::unknown_policy_version(value))
        }
    }

    pub fn to_i32(&self) -> (r: i32)
        ensures
            r as int == version_number(*self),
    {
        match self {
            PolicyVersion::Version1 => 1,
        }
    }

    /// Whether this version is written as `other`.
    pub fn eq_number(&self, other: i32) -> (r: bool)
        ensures
            r == (version_number(*self) == other as int),
    {
        self.to_i32() == other
    }
}

impl PartialEq<i32> for PolicyVersion {
    fn eq(&self, other: &i32) -> (r: bool) {
        self.eq_number(*other)
    }
}

impl vstd::std_specs::cmp::PartialEqSpecImpl<i32> for PolicyVersion {
    open spec fn obeys_eq_spec() -> bool {
        true
    }

    open spec fn eq_spec(&self, other: &i32) -> bool {
        version_number(*self) == *other as int
    }
}

/// The lower-case form of an ASCII letter; other characters are kept.
pub open spec fn ascii_lower(c: char) -> char {
    if 'A' <= c && c <= 'Z' { ((c as u32) + 32) as char } else { c }
}

/// Whether two texts are equal when ASCII letters are compared without case.
pub open spec fn eq_ignore_ascii_case(a: Seq<char>, b: Seq<char>) -> bool {
    a.len() == b.len() && forall|i: int| 0 <= i < a.len() ==> ascii_lower(#[trigger] a[i]) == ascii_lower(b[i])
}

fn lower_ascii_char(c: char) -> (r: char)
    ensures
        r == ascii_lower(c),
{
    if 'A' <= c && c <= 'Z' {
        let code: u8 = (c as u32 - 'A' as u32) as u8;
        let lower: u8 = code + 97;
        lower as char
    } else {
        c
    }
}

/// Compares two texts, ASCII letters without case.
pub fn same_ignoring_ascii_case(a: &str, b: &str) -> (r: bool)
    ensures
        r == eq_ignore_ascii_case(a@, b@),
{
    let ac = chars_of(a);
    let bc = chars_of(b);
    if ac.len() != bc.len() {
        return false;
    }
    let mut i: usize = 0;
    while i < ac.len()
        invariant
            ac@ == a@,
            bc@ == b@,
            ac.len() == bc.len(),
            i <= ac.len(),
            forall|k: int| 0 <= k < i ==> ascii_lower(#[trigger] a@[k]) == ascii_lower(b@[k]),
        decreases ac.len() - i,
    {
        if lower_ascii_char(ac[i]) != lower_ascii_char(bc[i]) {
            return false;
        }
        i = i + 1;
    }
    true
}

/// The text an effect is written as.
pub open spec fn effect_name(e: PolicyEffect) -> Seq<char> {
    match e {
        PolicyEffect::Allow => "ALLOW"@,
        PolicyEffect::Deny => "DENY"@,
    }
}

/// The effect a text stands for, ignoring ASCII case.
pub open spec fn effect_of_name(s: Seq<char>) -> Option<PolicyEffect> {
    if eq_ignore_ascii_case(s, "ALLOW"@) {
        Some(PolicyEffect::Allow)
    } else if eq_ignore_ascii_case(s, "DENY"@) {
        Some(PolicyEffect::Deny)
    } else {
        None
    }
}

/// The flag an effect is stored as: true for `Allow`.
pub open spec fn effect_flag(e: PolicyEffect) -> bool {
    e == PolicyEffect::Allow
}

impl PolicyEffect {
    /// Reads an effect from its name, ignoring ASCII case.
    pub fn try_from(value: &String) -> (r: Result<PolicyEffect, err::Error>)
        ensures
            r matches Ok(e) ==> effect_of_name(value@) == Some(e),
            r matches Err(e) ==> effect_of_name(value@) is None && e.spec_kind() == err::ErrorKind::UnknownError,
    {
        if same_ignoring_ascii_case(value.as_str(), "ALLOW") {
            Ok(PolicyEffect::Allow)
        } else if same_ignoring_ascii_case(value.as_str(), "DENY") {
            Ok(PolicyEffect::Deny)
        } else {
            Err(err::Error::other("Invalid"))
        }
    }

    /// The flag the effect is stored as: true for `Allow`.
    pub fn to_bool(&self) -> (r: bool)
        ensures
            r == effect_flag(*self),
    {
        match self {
            PolicyEffect::Allow => true,
            PolicyEffect::Deny => false,
        }
    }

    /// The name of the effect, `ALLOW` or `DENY`.
    pub fn name(&self) -> (r: String)
        ensures
            r@ == effect_name(*self),
    {
        match self {
            PolicyEffect::Allow => String::from_str("ALLOW"),
            PolicyEffect::Deny => String::from_str("DENY"),
        }
    }

    /// Whether this effect is stored as the number `other` (non-zero for `Allow`).
    pub fn eq_number(&self, other: i32) -> (r: bool)
        ensures
            r == (effect_flag(*self) == (other != 0)),
    {
        self.to_bool() == (other != 0)
    }
}

impl PartialEq<i32> for PolicyEffect {
    fn eq(&self, other: &i32) -> (r: bool) {
        self.eq_number(*other)
    }
}

impl vstd::std_specs::cmp::PartialEqSpecImpl<i32> for PolicyEffect {
    open spec fn obeys_eq_spec() -> bool {
        true
    }

    open spec fn eq_spec(&self, other: &i32) -> bool {
        effect_flag(*self) == (*other != 0)
    }
}

/// The views of a list of strings.
pub open spec fn strs(v: Seq<String>) -> Seq<Seq<char>> {
    v.map_values(|s: String| s@)
}

/// A copy of a list of strings.
pub fn clone_strings(v: &Vec<String>) -> (r: Vec<String>)
    ensures
        strs(r@) == strs(v@),
        r@ == v@,
{
    let mut out: Vec<String> = Vec::new();
    let mut i: usize = 0;
    while i < v.len()
        invariant
            i <= v.len(),
            out@ == v@.subrange(0, i as int),
        decreases v.len() - i,
    {
        out.push(v[i].clone());
        i = i + 1;
        proof {
            assert(out@ =~= v@.subrange(0, i as int));
        }
    }
    proof {
        assert(out@ =~= v@);
    }
    out
}

/// A policy of which some part is still to be decided: it is handed back where a
/// request matched on one axis but lacked what the other needs. `actions` or
/// `resources` hold the lists that were not decided.
#[derive(Debug)]
pub struct PartialPolicy {
    pub version: PolicyVersion,
    pub effect: PolicyEffect,
    pub actions: Option<Vec<String>>,
    pub resources: Option<Vec<String>>,
    pub conditions: Json,
}

/// A partial policy with its lists seen as sequences of texts.
pub struct PartialView {
    pub version: PolicyVersion,
    pub effect: PolicyEffect,
    pub actions: Option<Seq<Seq<char>>>,
    pub resources: Option<Seq<Seq<char>>>,
    pub conditions_null: bool,
}

pub open spec fn opt_strs(v: Option<Vec<String>>) -> Option<Seq<Seq<char>>> {
    match v {
        Some(v) => Some(strs(v@)),
        None => None,
    }
}

impl View for PartialPolicy {
    type V = PartialView;

    open spec fn view(&self) -> PartialView {
        PartialView {
            version: self.version,
            effect: self.effect,
            actions: opt_strs(self.actions),
            resources: opt_strs(self.resources),
            conditions_null: self.conditions is Null,
        }
    }
}

/// The partial policy with nothing left to decide and the given effect.
pub open spec fn cleared_partial(effect: PolicyEffect) -> PartialView {
    PartialView { version: PolicyVersion::Version1, effect, actions: None, resources: None, conditions_null: true }
}

fn clone_opt_strings(v: &Option<Vec<String>>) -> (r: Option<Vec<String>>)
    ensures
        opt_strs(r) == opt_strs(*v),
{
    match v {
        Some(list) => Some(clone_strings(list)),
        None => None,
    }
}

impl PartialPolicy {
    /// A partial policy of version 1 that allows, with nothing undecided.
    pub fn default() -> (r: PartialPolicy)
        ensures
            r@ == cleared_partial(PolicyEffect::Allow),
    {
        PartialPolicy {
            version: PolicyVersion::Version1,
            effect: PolicyEffect::Allow,
            actions: None,
            resources: None,
            conditions: Json::Null,
        }
    }

    /// Clears what is undecided; the effect is kept.
    pub fn reset(&mut self)
        ensures
            final(self)@ == cleared_partial(old(self).effect),
    {
        self.version = PolicyVersion::Version1;
        self.actions = None;
        self.resources = None;
        self.conditions = Json::Null;
    }

    /// A partial policy is never complete.
    pub fn complete(&self) -> (r: bool)
        ensures
            !r,
    {
        false
    }

    pub fn clone(&self) -> (r: PartialPolicy)
        ensures
            r@ == self@,
            json_same(r.conditions, self.conditions),
    {
        PartialPolicy {
            version: self.version,
            effect: self.effect,
            actions: clone_opt_strings(&self.actions),
            resources: clone_opt_strings(&self.resources),
            conditions: clone_json(&self.conditions),
        }
    }
}

/// The resources a policy is stored with: `*` where none are given.
pub open spec fn stored_resources(resources: Seq<Seq<char>>) -> Seq<Seq<char>> {
    if resources.len() == 0 { seq![seq!['*']] } else { resources }
}

/// Whether a policy with these parts can be created, or the kind of error that
/// creating it meets first: no actions, then conditions that do not read, then a
/// glob that pcre2 refuses.
pub open spec fn policy_check(actions: Seq<Seq<char>>, resources: Seq<Seq<char>>, conditions: Json) -> Result<(), err::ErrorKind> {
    if actions.len() == 0 {
        Err(err::ErrorKind::ActionsCannotBeEmptyError)
    } else {
        match parse_conditions(conditions) {
            Err(k) => Err(k),
            Ok(_) => if all_globs_compile(actions) && all_globs_compile(compiled_resource_globs(stored_resources(resources))) {
                Ok(())
            } else {
                Err(err::ErrorKind::UnknownError)
            },
        }
    }
}

/// A policy with all its parts: an id, its effect, the actions and resources it
/// covers (as globs) and its conditions. Equality of policies is by id.
#[derive(Debug)]
pub struct CompletePolicy {
    id: String,
    version: PolicyVersion,
    effect: PolicyEffect,
    actions: Vec<String>,
    resources: Vec<String>,
    conditions: Json,
    compiled_policy: CompiledPolicy,
}

impl CompletePolicy {
    pub closed spec fn spec_id(&self) -> Seq<char> {
        self.id@
    }

    pub closed spec fn spec_version(&self) -> PolicyVersion {
        self.version
    }

    pub closed spec fn spec_effect(&self) -> PolicyEffect {
        self.effect
    }

    pub closed spec fn spec_actions(&self) -> Seq<Seq<char>> {
        strs(self.actions@)
    }

    pub closed spec fn spec_resources(&self) -> Seq<Seq<char>> {
        strs(self.resources@)
    }

    pub closed spec fn spec_conditions(&self) -> Json {
        self.conditions
    }

    /// The compiled form that requests are matched against.
    pub closed spec fn spec_compiled(&self) -> CompiledPolicy {
        self.compiled_policy
    }

    /// At least one action and one resource; the compiled form is that of the
    /// actions, the resources and the conditions of the policy.
    pub closed spec fn wf(&self) -> bool {
        &&& self.actions.len() > 0
        &&& self.resources.len() > 0
        &&& self.compiled_policy.wf()
        &&& self.compiled_policy.action_globs() == strs(self.actions@)
        &&& self.compiled_policy.resource_globs() == compiled_resource_globs(strs(self.resources@))
        &&& parse_conditions(self.conditions) == Ok::<_, err::ErrorKind>(self.compiled_policy.condition_views())
    }

    /// What well-formedness gives: the compiled form is well formed and is that of
    /// the policy's globs and conditions.
    pub proof fn lemma_wf(&self)
        requires
            self.wf(),
        ensures
            self.spec_compiled().wf(),
            self.spec_actions().len() > 0,
            self.spec_resources().len() > 0,
            self.spec_compiled().action_globs() == self.spec_actions(),
            self.spec_compiled().resource_globs() == compiled_resource_globs(self.spec_resources()),
            parse_conditions(self.spec_conditions()) == Ok::<_, err::ErrorKind>(self.spec_compiled().condition_views()),
    {
    }

    /// Creates a policy and compiles it through `compiler`. An empty list of
    /// resources is stored as `["*"]`: every resource.
    pub fn new(
        id: String,
        version: PolicyVersion,
        effect: PolicyEffect,
        actions: Vec<String>,
        resources: Vec<String>,
        conditions: Json,
        compiler: &mut Compiler,
    ) -> (r: Result<CompletePolicy, err::Error>)
        requires
            old(compiler).wf(),
        ensures
            final(compiler).wf(),
            r is Ok <==> policy_check(strs(actions@), strs(resources@), conditions) is Ok,
            r matches Err(e) ==> policy_check(strs(actions@), strs(resources@), conditions) == Err::<(), err::ErrorKind>(e.spec_kind()),
            actions@.len() == 0 ==> (r matches Err(e) && e.spec_message() == err::actions_empty_message()),
            r matches Ok(p) ==> p.wf()
                && p.spec_id() == id@
                && p.spec_version() == version
                && p.spec_effect() == effect
                && p.spec_actions() == strs(actions@)
                && p.spec_resources() == stored_resources(strs(resources@))
                && p.spec_conditions() == conditions,
    {
        if actions.len() == 0 {
            return Err(err::Error::actions_cannot_be_empty());
        }
        let resources = if resources.len() == 0 {
            let mut star: Vec<String> = Vec::new();
            star.push(String::from_str("*"));
            proof {
                reveal_strlit("*");
                assert("*"@ =~= seq!['*']);
                assert(strs(star@) =~= seq![seq!['*']]);
            }
            star
        } else {
            resources
        };
        let parsed = match Condition::from_value(&conditions) {
            Ok(cs) => cs,
            Err(e) => {
                return Err(e);
            },
        };
        let compiled_policy = match compiler.compile(id.as_str(), &actions, &resources, parsed) {
            Ok(cp) => cp,
            Err(e) => {
                return Err(e);
            },
        };
        Ok(CompletePolicy { id, version, effect, actions, resources, conditions, compiled_policy })
    }

    pub fn id(&self) -> (r: &String)
        ensures
            r@ == self.spec_id(),
    {
        &self.id
    }

    /// A complete policy decides on its own.
    pub fn complete(&self) -> (r: bool)
        ensures
            r,
    {
        true
    }

    pub fn get_version(&self) -> (r: PolicyVersion)
        ensures
            r == self.spec_version(),
    {
        self.version
    }

    pub fn get_effect(&self) -> (r: PolicyEffect)
        ensures
            r == self.spec_effect(),
    {
        self.effect
    }

    pub fn get_actions(&self) -> (r: &Vec<String>)
        ensures
            strs(r@) == self.spec_actions(),
    {
        &self.actions
    }

    pub fn get_resources(&self) -> (r: &Vec<String>)
        ensures
            strs(r@) == self.spec_resources(),
    {
        &self.resources
    }

    pub fn get_conditions(&self) -> (r: &Json)
        ensures
            *r == self.spec_conditions(),
    {
        &self.conditions
    }

    /// The compiled form of the policy.
    pub fn compiled(&self) -> (r: &CompiledPolicy)
        ensures
            *r == self.spec_compiled(),
    {
        &self.compiled_policy
    }

    /// Gives the policy another id (inline policies take one from their owner).
    pub fn set_id(&mut self, id: String)
        requires
            old(self).wf(),
        ensures
            final(self).wf(),
            final(self).spec_id() == id@,
            final(self).spec_version() == old(self).spec_version(),
            final(self).spec_effect() == old(self).spec_effect(),
            final(self).spec_actions() == old(self).spec_actions(),
            final(self).spec_resources() == old(self).spec_resources(),
            final(self).spec_conditions() == old(self).spec_conditions(),
            final(self).spec_compiled() == old(self).spec_compiled(),
    {
        self.id = id;
    }

    /// Whether two policies are the same policy: they have the same id.
    pub fn same_policy(&self, other: &CompletePolicy) -> (r: bool)
        ensures
            r == (self.spec_id() == other.spec_id()),
    {
        crate::json::same_text(self.id.as_str(), other.id.as_str())
    }
}

/// Creates a policy; see `CompletePolicy::new`.
pub fn policy_new(
    id: String,
    version: PolicyVersion,
    effect: PolicyEffect,
    actions: Vec<String>,
    resources: Vec<String>,
    conditions: Json,
    compiler: &mut Compiler,
) -> (r: Result<CompletePolicy, err::Error>)
    requires
        old(compiler).wf(),
    ensures
        final(compiler).wf(),
        r is Ok <==> policy_check(strs(actions@), strs(resources@), conditions) is Ok,
        r matches Err(e) ==> policy_check(strs(actions@), strs(resources@), conditions) == Err::<(), err::ErrorKind>(e.spec_kind()),
        r matches Ok(p) ==> p.wf()
            && p.spec_id() == id@
            && p.spec_version() == version
            && p.spec_effect() == effect
            && p.spec_actions() == strs(actions@)
            && p.spec_resources() == stored_resources(strs(resources@))
            && p.spec_conditions() == conditions,
{
    CompletePolicy::new(id, version, effect, actions, resources, conditions, compiler)
}

/// Whether `j` is the JSON form of a partial policy: version, effect, the undecided
/// lists where there are any, then the conditions.
pub open spec fn is_partial_json(j: Json, p: PartialView, conditions: Json) -> bool {
    j is Object && {
        let e = j->Object_0@;
        let na: int = if p.actions is Some { 1 } else { 0 };
        let nr: int = if p.resources is Some { 1 } else { 0 };
        &&& e.len() == 3 + na + nr
        &&& e[0].0@ == "version"@ && e[0].1 == Json::Int(1)
        &&& e[1].0@ == "effect"@ && e[1].1 is Str && e[1].1->Str_0@ == effect_name(p.effect)
        &&& (p.actions matches Some(a) ==> e[2].0@ == "actions"@ && is_str_array(e[2].1, a))
        &&& (p.resources matches Some(rs) ==> e[2 + na].0@ == "resources"@ && is_str_array(e[2 + na].1, rs))
        &&& e[2 + na + nr].0@ == "conditions"@ && json_same(e[2 + na + nr].1, conditions)
    }
}

impl PartialPolicy {
    /// The JSON form: `{version, effect, actions?, resources?, conditions}`.
    pub fn to_json(&self) -> (r: Json)
        ensures
            is_partial_json(r, self@, self.conditions),
    {
        let mut e: Vec<(String, Json)> = Vec::new();
        e.push(entry("version", Json::Int(1)));
        e.push(entry("effect", Json::Str(self.effect.name())));
        if let Some(actions) = &self.actions {
            e.push(entry("actions", str_array(actions)));
        }
        if let Some(resources) = &self.resources {
            e.push(entry("resources", str_array(resources)));
        }
        e.push(entry("conditions", clone_json(&self.conditions)));
        Json::Object(e)
    }
}

/// Whether `j` is the JSON form of a policy:
/// `{id, version, effect, actions, resources, conditions}`.
pub open spec fn is_policy_json(j: Json, p: CompletePolicy) -> bool {
    j is Object && {
        let e = j->Object_0@;
        &&& e.len() == 6
        &&& e[0].0@ == "id"@ && e[0].1 is Str && e[0].1->Str_0@ == p.spec_id()
        &&& e[1].0@ == "version"@ && e[1].1 == Json::Int(version_number(p.spec_version()) as i64)
        &&& e[2].0@ == "effect"@ && e[2].1 is Str && e[2].1->Str_0@ == effect_name(p.spec_effect())
        &&& e[3].0@ == "actions"@ && is_str_array(e[3].1, p.spec_actions())
        &&& e[4].0@ == "resources"@ && is_str_array(e[4].1, p.spec_resources())
        &&& e[5].0@ == "conditions"@ && json_same(e[5].1, p.spec_conditions())
    }
}

impl CompletePolicy {
    /// The JSON form of the policy, as it is stored and served.
    pub fn to_json(&self) -> (r: Json)
        ensures
            is_policy_json(r, *self),
    {
        let mut e: Vec<(String, Json)> = Vec::new();
        e.push(entry("id", Json::Str(self.id.clone())));
        e.push(entry("version", Json::Int(self.version.to_i32() as i64)));
        e.push(entry("effect", Json::Str(self.effect.name())));
        e.push(entry("actions", str_array(&self.actions)));
        e.push(entry("resources", str_array(&self.resources)));
        e.push(entry("conditions", clone_json(&self.conditions)));
        Json::Object(e)
    }
}

/// Every action that matches one of a policy's action globs is matched by the
/// policy's compiled form.
pub proof fn lemma_action_glob_matches(p: CompletePolicy, action: Seq<char>, i: int)
    requires
        p.wf(),
        0 <= i < p.spec_actions().len(),
        glob_matches(p.spec_actions()[i], action),
    ensures
        any_glob_matches(p.spec_compiled().action_globs(), action),
{
    p.lemma_wf();
    assert(glob_matches(p.spec_compiled().action_globs()[i], action));
}

/// A policy created with no resources, or with `*` among them, matches every
/// resource, and also a request that names none.
pub proof fn lemma_star_matches_every_resource(p: CompletePolicy, given: Seq<Seq<char>>, resource: Option<Seq<char>>)
    requires
        p.wf(),
        p.spec_resources() == stored_resources(given),
        given.len() == 0 || holds_star(given),
    ensures
        p.spec_compiled().spec_match_resource(resource) == Some(true),
{
    p.lemma_wf();
    let stored = stored_resources(given);
    if given.len() == 0 {
        assert(stored[0] == seq!['*']);
    }
    assert(holds_star(stored));
    assert(p.spec_compiled().resource_globs() == Seq::<Seq<char>>::empty());
}

/// The texts of an array of strings; `None` for anything else.
pub open spec fn str_array_view(j: Json) -> Option<Seq<Seq<char>>> {
    if j is Array && forall|i: int| 0 <= i < j->Array_0.len() ==> (#[trigger] j->Array_0@[i]) is Str {
        Some(Seq::new(j->Array_0.len() as nat, |i: int| j->Array_0@[i]->Str_0@))
    } else {
        None
    }
}

/// The parts of a policy that its JSON form gives: id, version number, effect name,
/// actions, resources and conditions (`null` where absent). `None` where a part is
/// missing or of the wrong type.
pub open spec fn read_policy_json(j: Json) -> Option<(Seq<char>, int, Seq<char>, Seq<Seq<char>>, Seq<Seq<char>>, Json)> {
    match (json_get(j, "id"@), json_get(j, "version"@), json_get(j, "effect"@), json_get(j, "actions"@), json_get(j, "resources"@)) {
        (Some(Json::Str(id)), Some(Json::Int(v)), Some(Json::Str(e)), Some(a), Some(r)) => {
            match (str_array_view(a), str_array_view(r)) {
                (Some(actions), Some(resources)) => Some((
                    id@,
                    v as int,
                    e@,
                    actions,
                    resources,
                    match json_get(j, "conditions"@) {
                        Some(c) => c,
                        None => Json::Null,
                    },
                )),
                _ => None,
            }
        },
        _ => None,
    }
}

/// Whether `j` is the JSON form of a policy, with its very conditions document.
pub open spec fn is_policy_json_of(j: Json, id: Seq<char>, version: PolicyVersion, effect: PolicyEffect, actions: Seq<Seq<char>>, resources: Seq<Seq<char>>, conditions: Json) -> bool {
    j is Object && {
        let e = j->Object_0@;
        &&& e.len() == 6
        &&& e[0].0@ == "id"@ && e[0].1 is Str && e[0].1->Str_0@ == id
        &&& e[1].0@ == "version"@ && e[1].1 == Json::Int(version_number(version) as i64)
        &&& e[2].0@ == "effect"@ && e[2].1 is Str && e[2].1->Str_0@ == effect_name(effect)
        &&& e[3].0@ == "actions"@ && is_str_array(e[3].1, actions)
        &&& e[4].0@ == "resources"@ && is_str_array(e[4].1, resources)
        &&& e[5].0@ == "conditions"@ && e[5].1 == conditions
    }
}

fn read_strings(j: &Json) -> (r: Option<Vec<String>>)
    ensures
        r matches Some(v) ==> str_array_view(*j) == Some(strs(v@)),
        r is None ==> str_array_view(*j) is None,
{
    match j {
        Json::Array(items) => {
            let mut out: Vec<String> = Vec::new();
            let mut i: usize = 0;
            while i < items.len()
                invariant
                    *j is Array,
                    j->Array_0 == *items,
                    i <= items.len(),
                    out.len() == i,
                    forall|k: int| 0 <= k < i ==> (#[trigger] items@[k]) is Str && out@[k]@ == items@[k]->Str_0@,
                decreases items.len() - i,
            {
                match &items[i] {
                    Json::Str(s) => {
                        out.push(s.clone());
                    },
                    _ => {
                        return None;
                    },
                }
                i = i + 1;
            }
            proof {
                assert(strs(out@) =~= Seq::new(items.len() as nat, |k: int| items@[k]->Str_0@));
            }
            Some(out)
        },
        _ => None,
    }
}

impl CompletePolicy {
    /// The JSON form of the policy, handing over its conditions document as it is.
    pub fn into_json(self) -> (r: Json)
        ensures
            is_policy_json_of(r, self.spec_id(), self.spec_version(), self.spec_effect(), self.spec_actions(), self.spec_resources(), self.spec_conditions()),
    {
        let mut e: Vec<(String, Json)> = Vec::new();
        e.push(entry("id", Json::Str(self.id.clone())));
        e.push(entry("version", Json::Int(self.version.to_i32() as i64)));
        e.push(entry("effect", Json::Str(self.effect.name())));
        e.push(entry("actions", str_array(&self.actions)));
        e.push(entry("resources", str_array(&self.resources)));
        e.push(entry("conditions", self.conditions));
        Json::Object(e)
    }

    /// Reads a policy from its JSON form and creates it through `compiler`.
    pub fn from_json(j: Json, compiler: &mut Compiler) -> (r: Result<CompletePolicy, err::Error>)
        requires
            old(compiler).wf(),
        ensures
            final(compiler).wf(),
            r is Ok <==> (read_policy_json(j) matches Some(f)
                && version_of_number(f.1) is Some
                && effect_of_name(f.2) is Some
                && policy_check(f.3, f.4, f.5) is Ok),
            r matches Ok(p) ==> (read_policy_json(j) matches Some(f)
                && p.wf()
                && p.spec_id() == f.0
                && Some(p.spec_version()) == version_of_number(f.1)
                && Some(p.spec_effect()) == effect_of_name(f.2)
                && p.spec_actions() == f.3
                && p.spec_resources() == stored_resources(f.4)
                && p.spec_conditions() == f.5),
    {
        let id = match j.get("id") {
            Some(Json::Str(s)) => s.clone(),
            _ => {
                return Err(err::Error::malformed("Policy id is not a string"));
            },
        };
        let version = match j.get("version") {
            Some(Json::Int(n)) => {
                if *n == 1 {
                    PolicyVersion::Version1
                } else {
                    let shown: i32 = if *n >= -2147483648i64 && *n <= 2147483647i64 { *n as i32 } else { 0 };
                    return Err(err::Error::unknown_policy_version(shown));
                }
            },
            _ => {
                return Err(err::Error::malformed("Policy version is not an integer"));
            },
        };
        let effect = match j.get("effect") {
            Some(Json::Str(s)) => match PolicyEffect::try_from(s) {
                Ok(e) => e,
                Err(e) => {
                    return Err(e);
                },
            },
            _ => {
                return Err(err::Error::malformed("Policy effect is not a string"));
            },
        };
        let actions = match j.get("actions") {
            Some(a) => match read_strings(a) {
                Some(v) => v,
                None => {
                    return Err(err::Error::malformed("Policy actions are not strings"));
                },
            },
            None => {
                return Err(err::Error::malformed("Policy actions are missing"));
            },
        };
        let resources = match j.get("resources") {
            Some(a) => match read_strings(a) {
                Some(v) => v,
                None => {
                    return Err(err::Error::malformed("Policy resources are not strings"));
                },
            },
            None => {
                return Err(err::Error::malformed("Policy resources are missing"));
            },
        };
        let conditions = take_entry(j, "conditions");
        CompletePolicy::new(id, version, effect, actions, resources, conditions, compiler)
    }
}

/// The value stored under `key` in an object, taken out of it; `null` where absent.
fn take_entry(j: Json, key: &str) -> (r: Json)
    ensures
        r == match json_get(j, key@) {
            Some(c) => c,
            None => Json::Null,
        },
{
    match j {
        Json::Object(mut entries) => {
            let ghost all = entries@;
            let mut i: usize = 0;
            proof {
                assert(all.subrange(0, all.len() as int) =~= all);
            }
            while i < entries.len()
                invariant
                    entries@ == all,
                    j is Object,
                    j->Object_0@ == all,
                    i <= entries.len(),
                    crate::json::entry_get(all, key@) == crate::json::entry_get(all.subrange(i as int, all.len() as int), key@),
                decreases entries.len() - i,
            {
                proof {
                    let rest = all.subrange(i as int, all.len() as int);
                    assert(rest.drop_first() =~= all.subrange(i + 1, all.len() as int));
                    assert(rest[0] == all[i as int]);
                }
                if same_text(entries[i].0.as_str(), key) {
                    let (_, value) = entries.remove(i);
                    proof {
                        assert(value == all[i as int].1);
                    }
                    return value;
                }
                i = i + 1;
            }
            Json::Null
        },
        _ => Json::Null,
    }
}

/// Round trip: the JSON form of a well-formed policy reads back as the policy's own
/// parts, and those parts create a policy again, with the same id, version, effect,
/// actions, resources and conditions (by `from_json`'s contract).
pub proof fn lemma_policy_json_round_trip(p: CompletePolicy, j: Json)
    requires
        p.wf(),
        is_policy_json_of(j, p.spec_id(), p.spec_version(), p.spec_effect(), p.spec_actions(), p.spec_resources(), p.spec_conditions()),
    ensures
        read_policy_json(j) == Some((
            p.spec_id(),
            version_number(p.spec_version()),
            effect_name(p.spec_effect()),
            p.spec_actions(),
            p.spec_resources(),
            p.spec_conditions(),
        )),
        version_of_number(version_number(p.spec_version())) == Some(p.spec_version()),
        effect_of_name(effect_name(p.spec_effect())) == Some(p.spec_effect()),
        policy_check(p.spec_actions(), p.spec_resources(), p.spec_conditions()) is Ok,
        stored_resources(p.spec_resources()) == p.spec_resources(),
{
    p.lemma_wf();
    let e = j->Object_0@;
    reveal_strlit("id");
    reveal_strlit("version");
    reveal_strlit("effect");
    reveal_strlit("actions");
    reveal_strlit("resources");
    reveal_strlit("conditions");
    reveal_strlit("ALLOW");
    reveal_strlit("DENY");
    reveal_with_fuel(crate::json::entry_get, 7);
    assert("id"@ =~= seq!['i', 'd']);
    assert("version"@.len() == 7);
    assert("effect"@.len() == 6);
    assert("actions"@.len() == 7);
    assert("resources"@.len() == 9);
    assert("conditions"@.len() == 10);
    assert("version"@ != "actions"@) by {
        assert("version"@[0] != "actions"@[0]);
    }
    assert(crate::json::entry_get(e, "id"@) == Some(e[0].1));
    assert(e.drop_first()[0] == e[1]);
    assert(crate::json::entry_get(e, "version"@) == Some(e[1].1));
    assert(e.drop_first().drop_first()[0] == e[2]);
    assert(crate::json::entry_get(e, "effect"@) == Some(e[2].1));
    assert(e.drop_first().drop_first().drop_first()[0] == e[3]);
    assert(crate::json::entry_get(e, "actions"@) == Some(e[3].1));
    assert(e.drop_first().drop_first().drop_first().drop_first()[0] == e[4]);
    assert(crate::json::entry_get(e, "resources"@) == Some(e[4].1));
    assert(e.drop_first().drop_first().drop_first().drop_first().drop_first()[0] == e[5]);
    assert(crate::json::entry_get(e, "conditions"@) == Some(e[5].1));
    assert(str_array_view(e[3].1) == Some(p.spec_actions())) by {
        assert(Seq::new(e[3].1->Array_0.len() as nat, |i: int| e[3].1->Array_0@[i]->Str_0@) =~= p.spec_actions());
    }
    assert(str_array_view(e[4].1) == Some(p.spec_resources())) by {
        assert(Seq::new(e[4].1->Array_0.len() as nat, |i: int| e[4].1->Array_0@[i]->Str_0@) =~= p.spec_resources());
    }
    match p.spec_effect() {
        PolicyEffect::Allow => {
            assert(eq_ignore_ascii_case("ALLOW"@, "ALLOW"@));
        },
        PolicyEffect::Deny => {
            assert(eq_ignore_ascii_case("DENY"@, "DENY"@));
            assert(!eq_ignore_ascii_case("DENY"@, "ALLOW"@));
        },
    }
    assert(all_globs_compile(p.spec_actions())) by {
        crate::compiler::lemma_wf_globs_compile(p.spec_compiled());
    }
    assert(all_globs_compile(compiled_resource_globs(p.spec_resources()))) by {
        crate::compiler::lemma_wf_globs_compile(p.spec_compiled());
    }
}

/// What every kind of policy tells: whether it decides on its own.
pub trait Policy {
    spec fn spec_complete(&self) -> bool;

    fn complete(&self) -> (r: bool)
        ensures
            r == self.spec_complete();
}

impl Policy for CompletePolicy {
    open spec fn spec_complete(&self) -> bool {
        true
    }

    fn complete(&self) -> (r: bool) {
        true
    }
}

impl Policy for PartialPolicy {
    open spec fn spec_complete(&self) -> bool {
        false
    }

    fn complete(&self) -> (r: bool) {
        false
    }
}

} // verus!
