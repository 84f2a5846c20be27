//! Project-persisted tool permission rules: tool name to allow/deny. The
//! rules are stored at `<project>/.luminus/tool_policy.json`; reading and
//! writing that file is left to the caller.

use vstd::prelude::*;

use crate::text::{str_eq, IntoText};

verus! {

/// Persistable allow/deny decision for a single tool name.
#[derive(Debug, Clone, Copy, PartialEq, Eq, Structural)]
pub enum ToolPolicy {
    Allowed,
    Denied,
}

/// Tool name to project policy, bound to a project root.
#[derive(Debug)]
pub struct ProjectToolPolicy {
    tools: Vec<(String, ToolPolicy)>,
    root: String,
}

/// The entries as a map from tool name to policy.
pub open spec fn map_of(tools: Seq<(String, ToolPolicy)>) -> Map<Seq<char>, ToolPolicy>
    decreases tools.len(),
{
    if tools.len() == 0 {
        Map::empty()
    } else {
        map_of(tools.drop_last()).insert(tools.last().0@, tools.last().1)
    }
}

proof fn lemma_map_of_dom(tools: Seq<(String, ToolPolicy)>, k: Seq<char>)
    ensures
        map_of(tools).dom().contains(k) <==> exists|i: int| 0 <= i < tools.len() && (#[trigger] tools[i]).0@ == k,
    decreases tools.len(),
{
    if tools.len() > 0 {
        lemma_map_of_dom(tools.drop_last(), k);
        if map_of(tools.drop_last()).dom().contains(k) {
            let i = choose|i: int| 0 <= i < tools.drop_last().len() && (#[trigger] tools.drop_last()[i]).0@ == k;
            assert(tools[i] == tools.drop_last()[i]);
        }
        if exists|i: int| 0 <= i < tools.len() && (#[trigger] tools[i]).0@ == k {
            let i = choose|i: int| 0 <= i < tools.len() && (#[trigger] tools[i]).0@ == k;
            if i < tools.len() - 1 {
                assert(tools.drop_last()[i] == tools[i]);
            }
        }
    }
}

/// No tool name occurs twice.
pub open spec fn unique_names(tools: Seq<(String, ToolPolicy)>) -> bool {
    forall|i: int, j: int| 0 <= i < j < tools.len() ==> (#[trigger] tools[i]).0@ != (#[trigger] tools[j]).0@
}

proof fn lemma_map_of_at(tools: Seq<(String, ToolPolicy)>, i: int)
    requires
        unique_names(tools),
        0 <= i < tools.len(),
    ensures
        map_of(tools).dom().contains(tools[i].0@),
        map_of(tools)[tools[i].0@] == tools[i].1,
    decreases tools.len(),
{
    if i < tools.len() - 1 {
        let t = tools.drop_last();
        assert(t[i] == tools[i]);
        assert forall|a: int, b: int| 0 <= a < b < t.len() implies (#[trigger] t[a]).0@ != (#[trigger] t[b]).0@ by {
            assert(t[a] == tools[a]);
            assert(t[b] == tools[b]);
        }
        lemma_map_of_at(t, i);
        assert(tools.last().0@ != tools[i].0@);
    }
}

impl ProjectToolPolicy {
    /// The rules as a map from tool name to policy.
    pub closed spec fn rules(&self) -> Map<Seq<char>, ToolPolicy> {
        map_of(self.tools@)
    }

    /// The project root the rules belong to.
    pub closed spec fn spec_root(&self) -> Seq<char> {
        self.root@
    }

    /// Each tool has at most one entry.
    #[verifier::type_invariant]
    pub closed spec fn wf(&self) -> bool {
        unique_names(self.tools@)
    }

    /// No rules, bound to `root`.
    pub fn empty(root: impl IntoText) -> (p: Self)
        ensures
            p.wf(),
            p.rules() == Map::<Seq<char>, ToolPolicy>::empty(),
            p.spec_root() == root.text_view(),
    {
        ProjectToolPolicy { tools: Vec::new(), root: root.into_text() }
    }

    /// Rules read from the policy file, bound to `root`; a later entry for
    /// the same tool wins.
    pub fn from_entries(root: impl IntoText, entries: Vec<(String, ToolPolicy)>) -> (p: Self)
        ensures
            p.wf(),
            p.rules() == map_of(entries@),
            p.spec_root() == root.text_view(),
    {
        let mut p = Self::empty(root);
        let mut i: usize = 0;
        while i < entries.len()
            invariant
                i <= entries@.len(),
                p.wf(),
                p.rules() == map_of(entries@.take(i as int)),
                p.spec_root() == root.text_view(),
            decreases entries@.len() - i,
        {
            let (name, policy) = &entries[i];
            p.set(crate::agent::copy_string(name), *policy);
            assert(entries@.take(i + 1).drop_last() =~= entries@.take(i as int));
            i = i + 1;
        }
        assert(entries@.take(entries@.len() as int) =~= entries@);
        p
    }

    /// The path of the policy file under a project root.
    pub fn policy_path(project_root: &str) -> (r: String)
        ensures
            r@ == crate::paths::in_project(project_root@, "tool_policy.json"@),
    {
        crate::paths::project_tool_policy_path(project_root)
    }

    /// The project root the rules belong to.
    pub fn root(&self) -> (r: &str)
        ensures
            r@ == self.spec_root(),
    {
        self.root.as_str()
    }

    /// Number of tools with a rule.
    pub fn len(&self) -> (n: usize)
        ensures
            n == self.rules().dom().len(),
    {
        proof {
            use_type_invariant(self);
            self.lemma_len();
        }
        self.tools.len()
    }

    proof fn lemma_len(&self)
        requires
            self.wf(),
        ensures
            self.rules().dom().len() == self.tools@.len(),
            self.rules().dom().finite(),
        decreases self.tools@.len(),
    {
        lemma_len_unique(self.tools@);
    }

    /// Whether no tool has a rule.
    pub fn is_empty(&self) -> (r: bool)
        ensures
            r == (self.rules().dom().len() == 0),
    {
        self.len() == 0
    }

    /// Sets (or replaces) the rule of a tool.
    pub fn set(&mut self, tool: impl IntoText, policy: ToolPolicy)
        ensures
            final(self).wf(),
            final(self).rules() == old(self).rules().insert(tool.text_view(), policy),
            final(self).spec_root() == old(self).spec_root(),
    {
        proof {
            use_type_invariant(&*self);
        }
        let name = tool.into_text();
        let mut tools: Vec<(String, ToolPolicy)> = Vec::new();
        std::mem::swap(&mut tools, &mut self.tools);
        let mut i: usize = 0;
        while i < tools.len()
            invariant
                tools@ == old(self).tools@,
                self.root == old(self).root,
                unique_names(tools@),
                name@ == tool.text_view(),
                i <= tools@.len(),
                forall|j: int| 0 <= j < i ==> (#[trigger] tools@[j]).0@ != name@,
            decreases tools@.len() - i,
        {
            if str_eq(tools[i].0.as_str(), name.as_str()) {
                let ghost before = tools@;
                tools.set(i, (name, policy));
                proof {
                    let after = tools@;
                    assert forall|a: int, b: int| 0 <= a < b < after.len() implies (#[trigger] after[a]).0@ != (#[trigger] after[b]).0@ by {
                        assert(after[a].0@ == before[a].0@);
                        assert(after[b].0@ == before[b].0@);
                        assert(before[a].0@ != before[b].0@);
                    }
                    assert(after =~= before.update(i as int, after[i as int]));
                    lemma_map_of_update(before, i as int, after[i as int]);
                }
                self.tools = tools;
                return;
            }
            i = i + 1;
        }
        let ghost before = tools@;
        tools.push((name, policy));
        proof {
            let after = tools@;
            assert(after.drop_last() =~= before);
            assert forall|a: int, b: int| 0 <= a < b < after.len() implies (#[trigger] after[a]).0@ != (#[trigger] after[b]).0@ by {
                if b < before.len() {
                    assert(before[a].0@ != before[b].0@);
                }
            }
        }
        self.tools = tools;
    }

    /// The rule of a tool, if any.
    pub fn get(&self, tool: &str) -> (r: Option<ToolPolicy>)
        ensures
            r == if self.rules().dom().contains(tool@) {
                Some(self.rules()[tool@])
            } else {
                None::<ToolPolicy>
            },
    {
        proof {
            use_type_invariant(self);
        }
        let mut i: usize = 0;
        while i < self.tools.len()
            invariant
                i <= self.tools@.len(),
                unique_names(self.tools@),
                forall|j: int| 0 <= j < i ==> (#[trigger] self.tools@[j]).0@ != tool@,
            decreases self.tools@.len() - i,
        {
            if str_eq(self.tools[i].0.as_str(), tool) {
                proof {
                    lemma_map_of_at(self.tools@, i as int);
                }
                return Some(self.tools[i].1);
            }
            i = i + 1;
        }
        proof {
            lemma_map_of_dom(self.tools@, tool@);
        }
        None
    }

    /// Removes every rule held in memory.
    pub fn clear(&mut self)
        ensures
            final(self).wf(),
            final(self).rules() == Map::<Seq<char>, ToolPolicy>::empty(),
            final(self).spec_root() == old(self).spec_root(),
    {
        self.tools = Vec::new();
        assert(map_of(self.tools@) =~= Map::<Seq<char>, ToolPolicy>::empty());
    }

    /// The rules as `(tool, policy)` pairs.
    pub fn iter(&self) -> (r: Vec<(String, ToolPolicy)>)
        ensures
            map_of(r@) == self.rules(),
            unique_names(r@),
    {
        proof {
            use_type_invariant(self);
        }
        let mut r: Vec<(String, ToolPolicy)> = Vec::new();
        let mut i: usize = 0;
        while i < self.tools.len()
            invariant
                i <= self.tools@.len(),
                r@.len() == i,
                forall|j: int| 0 <= j < i ==> (#[trigger] r@[j]).0@ == self.tools@[j].0@ && r@[j].1 == self.tools@[j].1,
            decreases self.tools@.len() - i,
        {
            r.push((crate::agent::copy_string(&self.tools[i].0), self.tools[i].1));
            i = i + 1;
        }
        proof {
            lemma_map_of_views(r@, self.tools@);
        }
        r
    }
}

proof fn lemma_map_of_views(a: Seq<(String, ToolPolicy)>, b: Seq<(String, ToolPolicy)>)
    requires
        a.len() == b.len(),
        forall|j: int| 0 <= j < a.len() ==> (#[trigger] a[j]).0@ == b[j].0@ && a[j].1 == b[j].1,
    ensures
        map_of(a) == map_of(b),
        unique_names(b) ==> unique_names(a),
    decreases a.len(),
{
    if a.len() > 0 {
        assert forall|j: int| 0 <= j < a.drop_last().len() implies (#[trigger] a.drop_last()[j]).0@ == b.drop_last()[j].0@ && a.drop_last()[j].1 == b.drop_last()[j].1 by {
            assert(a.drop_last()[j] == a[j]);
            assert(b.drop_last()[j] == b[j]);
        }
        lemma_map_of_views(a.drop_last(), b.drop_last());
    }
    if unique_names(b) {
        assert forall|i: int, j: int| 0 <= i < j < a.len() implies (#[trigger] a[i]).0@ != (#[trigger] a[j]).0@ by {
            assert(b[i].0@ != b[j].0@);
        }
    }
}

proof fn lemma_map_of_update(tools: Seq<(String, ToolPolicy)>, i: int, e: (String, ToolPolicy))
    requires
        0 <= i < tools.len(),
        unique_names(tools),
        e.0@ == tools[i].0@,
    ensures
        map_of(tools.update(i, e)) == map_of(tools).insert(e.0@, e.1),
    decreases tools.len(),
{
    let t = tools.update(i, e);
    if i == tools.len() - 1 {
        assert(t.drop_last() =~= tools.drop_last());
        let m0 = map_of(tools.drop_last());
        assert(map_of(t) == m0.insert(e.0@, e.1));
        assert(map_of(tools) == m0.insert(tools.last().0@, tools.last().1));
        assert(map_of(t) =~= map_of(tools).insert(e.0@, e.1));
    } else {
        let d = tools.drop_last();
        assert forall|a: int, b: int| 0 <= a < b < d.len() implies (#[trigger] d[a]).0@ != (#[trigger] d[b]).0@ by {
            assert(d[a] == tools[a]);
            assert(d[b] == tools[b]);
        }
        assert(d[i] == tools[i]);
        lemma_map_of_update(d, i, e);
        assert(t.drop_last() =~= d.update(i, e));
        assert(t.last() == tools.last());
        assert(tools.last().0@ != e.0@) by {
            assert(tools[i].0@ != tools[tools.len() - 1].0@);
        }
        assert(map_of(t) =~= map_of(tools).insert(e.0@, e.1));
    }
}

proof fn lemma_len_unique(tools: Seq<(String, ToolPolicy)>)
    requires
        unique_names(tools),
    ensures
        map_of(tools).dom().len() == tools.len(),
        map_of(tools).dom().finite(),
    decreases tools.len(),
{
    if tools.len() > 0 {
        let d = tools.drop_last();
        assert forall|a: int, b: int| 0 <= a < b < d.len() implies (#[trigger] d[a]).0@ != (#[trigger] d[b]).0@ by {
            assert(d[a] == tools[a]);
            assert(d[b] == tools[b]);
        }
        lemma_len_unique(d);
        lemma_map_of_dom(d, tools.last().0@);
        if map_of(d).dom().contains(tools.last().0@) {
            let i = choose|i: int| 0 <= i < d.len() && (#[trigger] d[i]).0@ == tools.last().0@;
            assert(d[i] == tools[i]);
            assert(tools[i].0@ != tools[tools.len() - 1].0@);
        }
    }
}

/// Setting a rule and reading it back gives that rule; other tools keep
/// theirs.
pub proof fn law_get_after_set(
    before: ProjectToolPolicy,
    after: ProjectToolPolicy,
    tool: Seq<char>,
    policy: ToolPolicy,
    other: Seq<char>,
)
    requires
        after.rules() == before.rules().insert(tool, policy),
        other != tool,
    ensures
        after.rules().dom().contains(tool) && after.rules()[tool] == policy,
        after.rules().dom().contains(other) == before.rules().dom().contains(other),
        before.rules().dom().contains(other) ==> after.rules()[other] == before.rules()[other],
{
}

} // verus!
