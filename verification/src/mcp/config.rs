//! MCP server configuration: the global file overridden by the project's.

use vstd::prelude::*;

use crate::agent::copy_string;
use crate::text::{join, join_strs, push_str, strs_view};

verus! {

/// How to start one MCP server.
#[derive(Debug, Clone, PartialEq, Eq)]
pub struct McpServerConfig {
    pub command: String,
    pub args: Vec<String>,
    pub env: Vec<(String, String)>,
}

/// The MCP servers by name, one entry per name.
#[derive(Debug, Clone, PartialEq, Eq)]
pub struct McpConfig {
    pub mcp_servers: Vec<(String, McpServerConfig)>,
}

impl Default for McpConfig {
    fn default() -> (c: Self)
        ensures
            c.mcp_servers@.len() == 0,
    {
        McpConfig { mcp_servers: Vec::new() }
    }
}

/// A server's command, arguments and environment by their characters.
pub type ServerView = (Seq<char>, Seq<Seq<char>>, Seq<(Seq<char>, Seq<char>)>);

/// The characters of a server configuration.
pub open spec fn server_view(c: McpServerConfig) -> ServerView {
    (
        c.command@,
        strs_view(c.args@),
        c.env@.map_values(|p: (String, String)| (p.0@, p.1@)),
    )
}

/// The named servers by their characters.
pub open spec fn entries_view(s: Seq<(String, McpServerConfig)>) -> Seq<(Seq<char>, ServerView)> {
    s.map_values(|e: (String, McpServerConfig)| (e.0@, server_view(e.1)))
}

/// The first entry at or after `i` with the given name.
pub open spec fn name_index_from(list: Seq<(Seq<char>, ServerView)>, name: Seq<char>, i: int) -> Option<int>
    decreases list.len() - i,
{
    if i < 0 || i >= list.len() {
        None
    } else if list[i].0 == name {
        Some(i)
    } else {
        name_index_from(list, name, i + 1)
    }
}

/// A server added to a list: it replaces the first one of its name in
/// place, or goes last.
pub open spec fn with_server(list: Seq<(Seq<char>, ServerView)>, e: (Seq<char>, ServerView)) -> Seq<
    (Seq<char>, ServerView),
> {
    match name_index_from(list, e.0, 0) {
        Some(i) => list.update(i, e),
        None => list.push(e),
    }
}

/// The global servers with the project's added one by one.
pub open spec fn merged_servers(
    global: Seq<(Seq<char>, ServerView)>,
    project: Seq<(Seq<char>, ServerView)>,
) -> Seq<(Seq<char>, ServerView)>
    decreases project.len(),
{
    if project.len() == 0 {
        global
    } else {
        with_server(merged_servers(global, project.drop_last()), project.last())
    }
}

/// No server name occurs twice.
pub open spec fn unique_names(list: Seq<(Seq<char>, ServerView)>) -> bool {
    forall|i: int, j: int|
        0 <= i < j < list.len() ==> (#[trigger] list[i]).0 != (#[trigger] list[j]).0
}

/// Adding a server keeps every name once.
proof fn lemma_with_server_keeps_unique(list: Seq<(Seq<char>, ServerView)>, e: (Seq<char>, ServerView))
    requires
        unique_names(list),
    ensures
        unique_names(with_server(list, e)),
{
    let r = with_server(list, e);
    match name_index_from(list, e.0, 0) {
        Some(k) => {
            lemma_name_index_found(list, e.0, 0);
            assert forall|i: int, j: int| 0 <= i < j < r.len() implies (#[trigger] r[i]).0 != (#[trigger] r[j]).0 by {
                assert(r[i].0 == list[i].0);
                assert(r[j].0 == list[j].0);
            }
        },
        None => {
            lemma_name_index_absent(list, e.0, 0);
            assert forall|i: int, j: int| 0 <= i < j < r.len() implies (#[trigger] r[i]).0 != (#[trigger] r[j]).0 by {
                if j == list.len() {
                    assert(r[i] == list[i]);
                } else {
                    assert(r[i] == list[i]);
                    assert(r[j] == list[j]);
                }
            }
        },
    }
}

/// Merging keeps every server name once.
proof fn lemma_merged_servers_unique(
    global: Seq<(Seq<char>, ServerView)>,
    project: Seq<(Seq<char>, ServerView)>,
)
    requires
        unique_names(global),
    ensures
        unique_names(merged_servers(global, project)),
    decreases project.len(),
{
    if project.len() > 0 {
        lemma_merged_servers_unique(global, project.drop_last());
        lemma_with_server_keeps_unique(merged_servers(global, project.drop_last()), project.last());
    }
}

proof fn lemma_name_index_from(list: Seq<(Seq<char>, ServerView)>, name: Seq<char>, start: int, k: int)
    requires
        0 <= start <= k <= list.len(),
        forall|j: int| start <= j < k ==> (#[trigger] list[j]).0 != name,
        k < list.len() ==> list[k].0 == name,
    ensures
        name_index_from(list, name, start) == (if k < list.len() {
            Some(k)
        } else {
            None::<int>
        }),
    decreases k - start,
{
    if start < k {
        lemma_name_index_from(list, name, start + 1, k);
    }
}

/// The line listing one server: `  name -> command args`.
pub open spec fn server_line(e: (String, McpServerConfig)) -> Seq<char> {
    "  "@ + e.0@ + " -> "@ + e.1.command@ + " "@ + join(strs_view(e.1.args@), " "@)
}

/// The message shown when no server is configured.
pub const NO_SERVERS: &'static str = "No MCP servers configured. Add servers in .luminus/mcp.json or %LOCALAPPDATA%/Luminus/mcp.json";

impl McpConfig {
    /// The global servers with the project's added over them: a project
    /// server replaces a global one of the same name in place, new names go
    /// last.
    pub fn merge(global: McpConfig, project: McpConfig) -> (r: McpConfig)
        ensures
            entries_view(r.mcp_servers@) == merged_servers(
                entries_view(global.mcp_servers@),
                entries_view(project.mcp_servers@),
            ),
            unique_names(entries_view(global.mcp_servers@)) ==> unique_names(
                entries_view(r.mcp_servers@),
            ),
    {
        proof {
            if unique_names(entries_view(global.mcp_servers@)) {
                lemma_merged_servers_unique(
                    entries_view(global.mcp_servers@),
                    entries_view(project.mcp_servers@),
                );
            }
        }
        let mut merged = global;
        let ghost g = entries_view(merged.mcp_servers@);
        let ghost pv = entries_view(project.mcp_servers@);
        let mut i: usize = 0;
        assert(pv.take(0) =~= Seq::<(Seq<char>, ServerView)>::empty());
        while i < project.mcp_servers.len()
            invariant
                i <= project.mcp_servers@.len(),
                pv == entries_view(project.mcp_servers@),
                entries_view(merged.mcp_servers@) == merged_servers(g, pv.take(i as int)),
            decreases project.mcp_servers@.len() - i,
        {
            let (name, cfg) = &project.mcp_servers[i];
            insert_server(&mut merged.mcp_servers, copy_string(name), copy_server(cfg));
            assert(pv.take(i + 1).drop_last() =~= pv.take(i as int));
            assert(pv.take(i + 1).last() == pv[i as int]);
            i = i + 1;
        }
        assert(pv.take(project.mcp_servers@.len() as int) =~= pv);
        merged
    }

    /// The server listing for `/mcp`.
    pub fn list_servers(&self) -> (r: String)
        ensures
            self.mcp_servers@.len() == 0 ==> r@ == NO_SERVERS@,
            self.mcp_servers@.len() > 0 ==> r@ == join(
                seq!["MCP Servers:"@] + self.mcp_servers@.map_values(
                    |e: (String, McpServerConfig)| server_line(e),
                ),
                "\n"@,
            ),
    {
        if self.mcp_servers.len() == 0 {
            return NO_SERVERS.to_owned();
        }
        let mut ls: Vec<String> = Vec::new();
        ls.push("MCP Servers:".to_owned());
        let mut i: usize = 0;
        while i < self.mcp_servers.len()
            invariant
                i <= self.mcp_servers@.len(),
                strs_view(ls@) == seq!["MCP Servers:"@] + self.mcp_servers@.take(i as int).map_values(
                    |e: (String, McpServerConfig)| server_line(e),
                ),
            decreases self.mcp_servers@.len() - i,
        {
            let (name, cfg) = &self.mcp_servers[i];
            let mut l = "  ".to_owned();
            push_str(&mut l, name.as_str());
            push_str(&mut l, " -> ");
            push_str(&mut l, cfg.command.as_str());
            push_str(&mut l, " ");
            let args = join_strs(&cfg.args, " ");
            push_str(&mut l, args.as_str());
            let ghost before = ls@;
            ls.push(l);
            proof {
                let f = |e: (String, McpServerConfig)| server_line(e);
                assert(strs_view(ls@) =~= strs_view(before).push(f(self.mcp_servers@[i as int])));
                assert(self.mcp_servers@.take(i + 1).map_values(f) =~= self.mcp_servers@.take(
                    i as int,
                ).map_values(f).push(f(self.mcp_servers@[i as int])));
                assert(strs_view(ls@) =~= seq!["MCP Servers:"@] + self.mcp_servers@.take(
                    i + 1,
                ).map_values(f));
            }
            i = i + 1;
        }
        assert(self.mcp_servers@.take(self.mcp_servers@.len() as int) =~= self.mcp_servers@);
        join_strs(&ls, "\n")
    }
}

fn copy_strings(v: &Vec<String>) -> (r: Vec<String>)
    ensures
        r@ == v@,
{
    let mut r: Vec<String> = Vec::new();
    let mut i: usize = 0;
    while i < v.len()
        invariant
            i <= v@.len(),
            r@ == v@.take(i as int),
        decreases v@.len() - i,
    {
        r.push(copy_string(&v[i]));
        assert(r@ =~= v@.take(i + 1));
        i = i + 1;
    }
    assert(v@.take(v@.len() as int) =~= v@);
    r
}

fn copy_server(c: &McpServerConfig) -> (r: McpServerConfig)
    ensures
        server_view(r) == server_view(*c),
{
    let mut env: Vec<(String, String)> = Vec::new();
    let mut i: usize = 0;
    while i < c.env.len()
        invariant
            i <= c.env@.len(),
            env@.len() == i,
            forall|k: int| 0 <= k < i ==> (#[trigger] env@[k]).0@ == c.env@[k].0@ && env@[k].1@ == c.env@[k].1@,
        decreases c.env@.len() - i,
    {
        env.push((copy_string(&c.env[i].0), copy_string(&c.env[i].1)));
        i = i + 1;
    }
    assert(env@.map_values(|p: (String, String)| (p.0@, p.1@)) =~= c.env@.map_values(
        |p: (String, String)| (p.0@, p.1@),
    ));
    let args = copy_strings(&c.args);
    assert(strs_view(args@) =~= strs_view(c.args@));
    McpServerConfig { command: copy_string(&c.command), args, env }
}

fn insert_server(list: &mut Vec<(String, McpServerConfig)>, name: String, cfg: McpServerConfig)
    ensures
        entries_view(final(list)@) == with_server(entries_view(old(list)@), (name@, server_view(cfg))),
{
    let ghost lv = entries_view(list@);
    let ghost e = (name@, server_view(cfg));
    let mut i: usize = 0;
    while i < list.len()
        invariant
            *list == *old(list),
            lv == entries_view(list@),
            e == (name@, server_view(cfg)),
            i <= list@.len(),
            forall|j: int| 0 <= j < i ==> (#[trigger] lv[j]).0 != name@,
        decreases list@.len() - i,
    {
        if crate::text::str_eq(list[i].0.as_str(), name.as_str()) {
            proof {
                lemma_name_index_from(lv, name@, 0, i as int);
            }
            let ghost before = list@;
            list.set(i, (name, cfg));
            assert(entries_view(list@) =~= lv.update(i as int, e));
            return;
        }
        i = i + 1;
    }
    proof {
        lemma_name_index_from(lv, name@, 0, lv.len() as int);
    }
    list.push((name, cfg));
    assert(entries_view(list@) =~= lv.push(e));
}

/// A project server wins over a global one of the same name: after the
/// merge, the first server of the last project entry's name is that entry.
pub proof fn law_project_server_wins(
    global: Seq<(Seq<char>, ServerView)>,
    project: Seq<(Seq<char>, ServerView)>,
)
    requires
        project.len() > 0,
    ensures
        ({
            let m = merged_servers(global, project);
            name_index_from(m, project.last().0, 0) matches Some(i) && m[i] == project.last()
        }),
{
    let before = merged_servers(global, project.drop_last());
    let e = project.last();
    match name_index_from(before, e.0, 0) {
        Some(i) => {
            lemma_name_index_found(before, e.0, 0);
            let m = before.update(i, e);
            assert forall|j: int| 0 <= j < i implies (#[trigger] m[j]).0 != e.0 by {
                assert(m[j] == before[j]);
            }
            lemma_name_index_from(m, e.0, 0, i);
        },
        None => {
            lemma_name_index_absent(before, e.0, 0);
            let m = before.push(e);
            assert forall|j: int| 0 <= j < before.len() implies (#[trigger] m[j]).0 != e.0 by {
                assert(m[j] == before[j]);
            }
            lemma_name_index_from(m, e.0, 0, before.len() as int);
        },
    }
}

proof fn lemma_name_index_found(list: Seq<(Seq<char>, ServerView)>, name: Seq<char>, start: int)
    requires
        0 <= start,
        name_index_from(list, name, start) is Some,
    ensures
        ({
            let i = name_index_from(list, name, start)->0;
            &&& start <= i < list.len()
            &&& list[i].0 == name
            &&& forall|j: int| start <= j < i ==> (#[trigger] list[j]).0 != name
        }),
    decreases list.len() - start,
{
    if start < list.len() && list[start].0 != name {
        lemma_name_index_found(list, name, start + 1);
    }
}

proof fn lemma_name_index_absent(list: Seq<(Seq<char>, ServerView)>, name: Seq<char>, start: int)
    requires
        0 <= start,
        name_index_from(list, name, start) is None,
    ensures
        forall|j: int| start <= j < list.len() ==> (#[trigger] list[j]).0 != name,
    decreases list.len() - start,
{
    if start < list.len() {
        lemma_name_index_absent(list, name, start + 1);
    }
}

} // verus!
