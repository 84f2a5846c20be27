//! The tools that connected MCP servers offer, under names of the form
//! `mcp:<server>:<tool>`, and the routing of a call to its server.

use vstd::prelude::*;

use crate::agent::copy_string;
use crate::text::push_str;

verus! {

/// The name a server's tool is offered under.
pub open spec fn full_name_of(server: Seq<char>, tool: Seq<char>) -> Seq<char> {
    "mcp:"@ + server + ":"@ + tool
}

/// `mcp:<server>:<tool>`.
pub fn full_tool_name(server: &str, tool: &str) -> (r: String)
    ensures
        r@ == full_name_of(server@, tool@),
{
    let mut r = "mcp:".to_owned();
    push_str(&mut r, server);
    push_str(&mut r, ":");
    push_str(&mut r, tool);
    r
}

/// One offered tool: its full name, server, name on the server and
/// description.
#[derive(Debug, Clone, PartialEq, Eq)]
pub struct McpToolEntry {
    pub full_name: String,
    pub server: String,
    pub tool: String,
    pub description: String,
}

/// An entry by its characters.
pub type EntryView = (Seq<char>, Seq<char>, Seq<char>, Seq<char>);

/// The description shown for a tool that has none.
pub open spec fn described(description: Option<Seq<char>>) -> Seq<char> {
    match description {
        Some(d) => d,
        None => "MCP tool"@,
    }
}

/// The first entry at or after `i` with the given full name.
pub open spec fn entry_index_from(entries: Seq<EntryView>, full: Seq<char>, i: int) -> Option<int>
    decreases entries.len() - i,
{
    if i < 0 || i >= entries.len() {
        None
    } else if entries[i].0 == full {
        Some(i)
    } else {
        entry_index_from(entries, full, i + 1)
    }
}

proof fn lemma_entry_index_from(entries: Seq<EntryView>, full: Seq<char>, start: int, k: int)
    requires
        0 <= start <= k <= entries.len(),
        forall|j: int| start <= j < k ==> (#[trigger] entries[j]).0 != full,
        k < entries.len() ==> entries[k].0 == full,
    ensures
        entry_index_from(entries, full, start) == (if k < entries.len() {
            Some(k)
        } else {
            None::<int>
        }),
    decreases k - start,
{
    if start < k {
        lemma_entry_index_from(entries, full, start + 1, k);
    }
}

/// An entry added to the table: it replaces the one of the same full name
/// in place, or goes last.
pub open spec fn with_entry(entries: Seq<EntryView>, e: EntryView) -> Seq<EntryView> {
    match entry_index_from(entries, e.0, 0) {
        Some(i) => entries.update(i, e),
        None => entries.push(e),
    }
}

/// Where a call to `full` goes: the server and the tool's name there, or
/// why it cannot go anywhere.
pub open spec fn spec_route(entries: Seq<EntryView>, connected: Seq<Seq<char>>, full: Seq<char>) -> Result<
    (Seq<char>, Seq<char>),
    Seq<char>,
> {
    match entry_index_from(entries, full, 0) {
        None => Err("Unknown MCP tool: "@ + full),
        Some(i) => if connected.contains(entries[i].1) {
            Ok((entries[i].1, entries[i].2))
        } else {
            Err("MCP server '"@ + entries[i].1 + "' is not connected"@)
        },
    }
}

/// The tools offered by the connected servers, in the order they were
/// first offered.
#[derive(Debug)]
pub struct McpToolTable {
    entries: Vec<McpToolEntry>,
}

impl Default for McpToolTable {
    fn default() -> (t: Self)
        ensures
            t.view_entries().len() == 0,
    {
        Self::new()
    }
}

impl McpToolTable {
    /// The entries by their characters.
    pub closed spec fn view_entries(&self) -> Seq<EntryView> {
        self.entries@.map_values(
            |e: McpToolEntry| (e.full_name@, e.server@, e.tool@, e.description@),
        )
    }

    /// An empty table.
    pub fn new() -> (t: Self)
        ensures
            t.view_entries().len() == 0,
    {
        McpToolTable { entries: Vec::new() }
    }

    /// Records a tool a server offers.
    pub fn register(&mut self, server: &str, tool: &str, description: Option<&str>)
        ensures
            final(self).view_entries() == with_entry(
                old(self).view_entries(),
                (
                    full_name_of(server@, tool@),
                    server@,
                    tool@,
                    described(
                        match description {
                            Some(d) => Some(d@),
                            None => None,
                        },
                    ),
                ),
            ),
    {
        let full_name = full_tool_name(server, tool);
        let desc = match description {
            Some(d) => d.to_owned(),
            None => "MCP tool".to_owned(),
        };
        let entry = McpToolEntry {
            full_name,
            server: server.to_owned(),
            tool: tool.to_owned(),
            description: desc,
        };
        let ghost ev = (entry.full_name@, entry.server@, entry.tool@, entry.description@);
        let ghost before = self.view_entries();
        let mut i: usize = 0;
        while i < self.entries.len()
            invariant
                *self == *old(self),
                before == self.view_entries(),
                i <= self.entries@.len(),
                ev == (entry.full_name@, entry.server@, entry.tool@, entry.description@),
                ev == (
                    full_name_of(server@, tool@),
                    server@,
                    tool@,
                    described(
                        match description {
                            Some(d) => Some(d@),
                            None => None,
                        },
                    ),
                ),
                forall|j: int| 0 <= j < i ==> (#[trigger] before[j]).0 != entry.full_name@,
            decreases self.entries@.len() - i,
        {
            if crate::text::str_eq(self.entries[i].full_name.as_str(), entry.full_name.as_str()) {
                proof {
                    lemma_entry_index_from(before, ev.0, 0, i as int);
                }
                self.entries.set(i, entry);
                assert(self.view_entries() =~= before.update(i as int, ev));
                return;
            }
            i = i + 1;
        }
        proof {
            lemma_entry_index_from(before, ev.0, 0, before.len() as int);
        }
        self.entries.push(entry);
        assert(self.view_entries() =~= before.push(ev));
    }

    /// `(full name, description)` of every tool, in order.
    pub fn listing(&self) -> (r: Vec<(String, String)>)
        ensures
            r@.map_values(|p: (String, String)| (p.0@, p.1@)) == self.view_entries().map_values(
                |e: EntryView| (e.0, e.3),
            ),
    {
        let mut r: Vec<(String, String)> = Vec::new();
        let mut i: usize = 0;
        while i < self.entries.len()
            invariant
                i <= self.entries@.len(),
                r@.len() == i,
                forall|k: int|
                    0 <= k < i ==> (#[trigger] r@[k]).0@ == self.entries@[k].full_name@ && r@[k].1@
                        == self.entries@[k].description@,
            decreases self.entries@.len() - i,
        {
            r.push((copy_string(&self.entries[i].full_name), copy_string(&self.entries[i].description)));
            i = i + 1;
        }
        assert(r@.map_values(|p: (String, String)| (p.0@, p.1@)) =~= self.view_entries().map_values(
            |e: EntryView| (e.0, e.3),
        ));
        r
    }

    /// Where a call to `full_name` goes, given the servers still connected:
    /// the server and the tool's name there, or the reason it cannot go.
    pub fn route(&self, full_name: &str, connected: &[String]) -> (r: Result<(String, String), String>)
        ensures
            match spec_route(self.view_entries(), crate::text::strs_view(connected@), full_name@) {
                Ok((s, t)) => r matches Ok((rs, rt)) && rs@ == s && rt@ == t,
                Err(m) => r matches Err(e) && e@ == m,
            },
    {
        let ghost ev = self.view_entries();
        let mut i: usize = 0;
        while i < self.entries.len()
            invariant
                ev == self.view_entries(),
                i <= self.entries@.len(),
                forall|j: int| 0 <= j < i ==> (#[trigger] ev[j]).0 != full_name@,
            decreases self.entries@.len() - i,
        {
            if crate::text::str_eq(self.entries[i].full_name.as_str(), full_name) {
                proof {
                    lemma_entry_index_from(ev, full_name@, 0, i as int);
                }
                let server = &self.entries[i].server;
                let mut k: usize = 0;
                while k < connected.len()
                    invariant
                        k <= connected@.len(),
                        i < self.entries@.len(),
                        ev == self.view_entries(),
                        *server == self.entries@[i as int].server,
                        entry_index_from(ev, full_name@, 0) == Some(i as int),
                        forall|j: int| 0 <= j < k ==> (#[trigger] connected@[j])@ != server@,
                    decreases connected@.len() - k,
                {
                    if crate::text::str_eq(connected[k].as_str(), server.as_str()) {
                        assert(crate::text::strs_view(connected@)[k as int] == server@);
                        return Ok((copy_string(server), copy_string(&self.entries[i].tool)));
                    }
                    k = k + 1;
                }
                assert(!crate::text::strs_view(connected@).contains(server@)) by {
                    if crate::text::strs_view(connected@).contains(server@) {
                        let j = choose|j: int|
                            0 <= j < connected@.len() && crate::text::strs_view(connected@)[j] == server@;
                        assert(connected@[j]@ == server@);
                    }
                }
                let mut m = "MCP server '".to_owned();
                push_str(&mut m, server.as_str());
                push_str(&mut m, "' is not connected");
                return Err(m);
            }
            i = i + 1;
        }
        proof {
            lemma_entry_index_from(ev, full_name@, 0, ev.len() as int);
        }
        let mut m = "Unknown MCP tool: ".to_owned();
        push_str(&mut m, full_name);
        Err(m)
    }
}

/// What to do with one line a server wrote while a request waits.
#[derive(Debug, Clone, PartialEq, Eq)]
pub enum ReplyStep {
    /// Not the reply to the request (another id, or none): keep reading.
    Skip,
    /// The reply reports an error, shown as this text.
    Failed(String),
    /// The reply carries the request's result.
    Done,
}

/// The step for a line read while the request `sent_id` waits, given the
/// line's id, when it has a string one, and its error, when it has one.
pub fn reply_step(reply_id: Option<&str>, sent_id: &str, error: Option<String>) -> (r: ReplyStep)
    ensures
        match reply_id {
            Some(id) if id@ == sent_id@ => match error {
                Some(e) => r matches ReplyStep::Failed(m) && m@ == e@,
                None => r is Done,
            },
            _ => r is Skip,
        },
{
    match reply_id {
        Some(id) => if crate::text::str_eq(id, sent_id) {
            match error {
                Some(e) => ReplyStep::Failed(e),
                None => ReplyStep::Done,
            }
        } else {
            ReplyStep::Skip
        },
        None => ReplyStep::Skip,
    }
}

} // verus!
