//! Canonical directory layout: the global data root holds skills, plugins,
//! configuration, memory, MCP servers and sessions; a project keeps its own
//! under `<project>/.luminus/`. Finding the global root from the environment
//! is left to the caller.

use vstd::prelude::*;

use crate::text::push_str;

verus! {

/// `base` joined with a relative `part` by a `/` (`Path::join`): an
/// absolute part replaces the base, an empty base gives the part.
pub open spec fn path_join(base: Seq<char>, part: Seq<char>) -> Seq<char> {
    if part.len() > 0 && part[0] == '/' {
        part
    } else if base.len() == 0 {
        part
    } else if base.last() == '/' {
        base + part
    } else {
        base + "/"@ + part
    }
}

/// Joins a path component to a base path.
pub fn join(base: &str, part: &str) -> (r: String)
    ensures
        r@ == path_join(base@, part@),
{
    let pv = crate::text::chars_of(part);
    if pv.len() > 0 && pv[0] == '/' {
        return part.to_owned();
    }
    let bv = crate::text::chars_of(base);
    if bv.len() == 0 {
        return part.to_owned();
    }
    let mut r = base.to_owned();
    if bv[bv.len() - 1] != '/' {
        push_str(&mut r, "/");
    }
    push_str(&mut r, part);
    r
}

/// Global skills directory under the data root.
pub fn global_skills_dir(data_root: &str) -> (r: String)
    ensures
        r@ == path_join(data_root@, "skills"@),
{
    join(data_root, "skills")
}

/// Global plugins directory under the data root.
pub fn global_plugins_dir(data_root: &str) -> (r: String)
    ensures
        r@ == path_join(data_root@, "plugins"@),
{
    join(data_root, "plugins")
}

/// Global config file under the data root.
pub fn global_config_path(data_root: &str) -> (r: String)
    ensures
        r@ == path_join(data_root@, "config.json"@),
{
    join(data_root, "config.json")
}

/// Global memory file under the data root.
pub fn global_memory_path(data_root: &str) -> (r: String)
    ensures
        r@ == path_join(data_root@, "memory.json"@),
{
    join(data_root, "memory.json")
}

/// Global MCP servers config under the data root.
pub fn global_mcp_config_path(data_root: &str) -> (r: String)
    ensures
        r@ == path_join(data_root@, "mcp.json"@),
{
    join(data_root, "mcp.json")
}

/// Global sessions directory under the data root.
pub fn global_sessions_dir(data_root: &str) -> (r: String)
    ensures
        r@ == path_join(data_root@, "sessions"@),
{
    join(data_root, "sessions")
}

/// The project's `.luminus/` directory.
pub fn project_luminus_dir(project_root: &str) -> (r: String)
    ensures
        r@ == path_join(project_root@, ".luminus"@),
{
    join(project_root, ".luminus")
}

/// A file or directory inside the project's `.luminus/` directory.
pub open spec fn in_project(project_root: Seq<char>, name: Seq<char>) -> Seq<char> {
    path_join(path_join(project_root, ".luminus"@), name)
}

/// Project-local skills directory.
pub fn project_skills_dir(project_root: &str) -> (r: String)
    ensures
        r@ == in_project(project_root@, "skills"@),
{
    join(project_luminus_dir(project_root).as_str(), "skills")
}

/// Project-local config file.
pub fn project_config_path(project_root: &str) -> (r: String)
    ensures
        r@ == in_project(project_root@, "config.json"@),
{
    join(project_luminus_dir(project_root).as_str(), "config.json")
}

/// Project-local MCP config.
pub fn project_mcp_config_path(project_root: &str) -> (r: String)
    ensures
        r@ == in_project(project_root@, "mcp.json"@),
{
    join(project_luminus_dir(project_root).as_str(), "mcp.json")
}

/// Project-local artifacts directory.
pub fn project_artifacts_dir(project_root: &str) -> (r: String)
    ensures
        r@ == in_project(project_root@, "artifacts"@),
{
    join(project_luminus_dir(project_root).as_str(), "artifacts")
}

/// Project-local tool policy file.
pub fn project_tool_policy_path(project_root: &str) -> (r: String)
    ensures
        r@ == in_project(project_root@, "tool_policy.json"@),
{
    join(project_luminus_dir(project_root).as_str(), "tool_policy.json")
}

/// Every project path lies under the project's `.luminus/` directory: it is
/// that directory, a `/`, then the entry's name, for a relative entry name
/// and a root that does not end in `/`.
pub proof fn law_project_paths_are_under_dot_luminus(project_root: Seq<char>, name: Seq<char>)
    requires
        project_root.len() > 0,
        project_root.last() != '/',
        project_root[0] != '/' || project_root.len() > 0,
        name.len() > 0,
        name[0] != '/',
    ensures
        in_project(project_root, name) == path_join(project_root, ".luminus"@) + "/"@ + name,
{
    reveal_strlit(".luminus");
    let d = path_join(project_root, ".luminus"@);
    assert(d == project_root + "/"@ + ".luminus"@);
    assert(d.last() == 's');
}

} // verus!
