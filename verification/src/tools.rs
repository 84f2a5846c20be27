//! Permission-gated coding tools: specifications, argument validation, path
//! checks, risk classification, glob matching and edit planning.
//!
//! Everything here is computation on plain values. Reading the file system,
//! spawning processes and writing files happen outside the library, which
//! hands the results back (resolved paths, file contents).

use vstd::prelude::*;

use crate::text::{
    chars_of, contains_seq, contains_str, ends_with, ends_with_str, eq_str, from_chars, push_char,
    push_str, starts_with, starts_with_str, str_eq, to_lower, to_lower_chars,
};

verus! {

/// The outcome of policy evaluation before a caller approves execution.
#[derive(Debug, Clone, Copy, PartialEq, Eq, Structural)]
pub enum PermissionDecision {
    Allow,
    Ask,
    Deny,
}

/// Coarse risk tier used to decide how to surface approval prompts.
#[derive(Debug, Clone, Copy, PartialEq, Eq, Structural, PartialOrd, Ord)]
pub enum RiskLevel {
    Low,
    Medium,
    High,
    Critical,
}

/// What a tool may do.
#[derive(Debug, Clone, Copy, PartialEq, Eq, Structural, PartialOrd, Ord)]
pub enum Permission {
    ReadOnly,
    Write,
    Execute,
    Network,
}

impl Permission {
    pub open spec fn spec_label(self) -> Seq<char> {
        match self {
            Permission::ReadOnly => "read-only"@,
            Permission::Write => "write"@,
            Permission::Execute => "execute"@,
            Permission::Network => "network"@,
        }
    }

    /// The label shown in approval prompts.
    pub fn label(self) -> (r: &'static str)
        ensures
            r@ == self.spec_label(),
    {
        match self {
            Permission::ReadOnly => "read-only",
            Permission::Write => "write",
            Permission::Execute => "execute",
            Permission::Network => "network",
        }
    }
}

/// A tool's name, description and permission.
#[derive(Debug, Clone, PartialEq, Eq)]
pub struct ToolSpec {
    pub name: &'static str,
    pub description: &'static str,
    pub permission: Permission,
}

/// A request to run a tool with arguments.
#[derive(Debug, Clone, PartialEq, Eq)]
pub struct ToolRequest {
    pub name: String,
    pub args: Vec<String>,
}

/// A validated request awaiting operator approval.
#[derive(Debug, Clone, PartialEq, Eq)]
pub struct ApprovalRequest {
    pub request: ToolRequest,
    pub spec: ToolSpec,
}

/// Resolved approval metadata for prompts and policy decisions.
#[derive(Debug, Clone, PartialEq, Eq)]
pub struct ApprovalMetadata {
    pub decision: PermissionDecision,
    pub risk: RiskLevel,
    pub cwd: String,
    pub affected_paths: Vec<String>,
    pub reason: String,
}

/// The text a tool produced.
#[derive(Debug, Clone, PartialEq, Eq)]
pub struct ToolOutput {
    pub tool: String,
    pub output: String,
}

/// Why a tool request was refused or failed.
#[derive(Debug, Clone, PartialEq, Eq)]
pub enum ToolError {
    UnknownTool(String),
    MissingArgument(&'static str),
    PermissionDenied(Permission),
    Io(String),
    Process(String),
    NetworkDisabled,
    SecurityDenied(String),
    /// Edit failed because `old_string` was missing or not unique.
    EditFailed(String),
    /// A bounded tool exceeded its wall-clock timeout and was killed.
    Timeout(String),
    /// A bounded tool was cancelled.
    Cancelled(String),
}

impl ToolError {
    /// The one-line description of the error.
    pub open spec fn spec_message(&self) -> Seq<char> {
        match self {
            ToolError::UnknownTool(name) => "unknown tool: "@ + name@,
            ToolError::MissingArgument(arg) => "missing argument: "@ + arg@,
            ToolError::PermissionDenied(p) => "permission denied: "@ + p.spec_label(),
            ToolError::Io(e) => "I/O error: "@ + e@,
            ToolError::Process(e) => "process error: "@ + e@,
            ToolError::NetworkDisabled => "network tools are disabled in this phase"@,
            ToolError::SecurityDenied(r) => "security policy denied request: "@ + r@,
            ToolError::EditFailed(r) => "edit failed: "@ + r@,
            ToolError::Timeout(r) => "timeout: "@ + r@,
            ToolError::Cancelled(r) => "cancelled: "@ + r@,
        }
    }

    /// The one-line description of the error.
    pub fn to_string(&self) -> (s: String)
        ensures
            s@ == self.spec_message(),
    {
        let (head, tail): (&str, &str) = match self {
            ToolError::UnknownTool(name) => ("unknown tool: ", name.as_str()),
            ToolError::MissingArgument(arg) => ("missing argument: ", *arg),
            ToolError::PermissionDenied(p) => ("permission denied: ", p.label()),
            ToolError::Io(e) => ("I/O error: ", e.as_str()),
            ToolError::Process(e) => ("process error: ", e.as_str()),
            ToolError::NetworkDisabled => ("network tools are disabled in this phase", ""),
            ToolError::SecurityDenied(r) => ("security policy denied request: ", r.as_str()),
            ToolError::EditFailed(r) => ("edit failed: ", r.as_str()),
            ToolError::Timeout(r) => ("timeout: ", r.as_str()),
            ToolError::Cancelled(r) => ("cancelled: ", r.as_str()),
        };
        let mut s = head.to_owned();
        push_str(&mut s, tail);
        proof {
            if self is NetworkDisabled {
                reveal_strlit("");
                assert(s@ =~= "network tools are disabled in this phase"@);
            }
        }
        s
    }
}

/// The names of the registered tools, in listing order.
pub open spec fn spec_tool_names() -> Seq<Seq<char>> {
    seq![
        "read_file"@,
        "write_file"@,
        "list_dir"@,
        "file_meta"@,
        "file_metadata"@,
        "glob"@,
        "grep"@,
        "edit_file"@,
        "run_shell"@,
        "http_get"@,
    ]
}

/// The permission of each registered tool, in listing order.
pub open spec fn spec_tool_permissions() -> Seq<Permission> {
    seq![
        Permission::ReadOnly,
        Permission::Write,
        Permission::ReadOnly,
        Permission::ReadOnly,
        Permission::ReadOnly,
        Permission::ReadOnly,
        Permission::ReadOnly,
        Permission::Write,
        Permission::Execute,
        Permission::Network,
    ]
}

/// The specifications of every registered tool, in listing order.
pub fn tool_specs() -> (r: Vec<ToolSpec>)
    ensures
        r@.len() == 10,
        forall|i: int| 0 <= i < 10 ==> #[trigger] r@[i].name@ == spec_tool_names()[i],
        forall|i: int| 0 <= i < 10 ==> #[trigger] r@[i].permission == spec_tool_permissions()[i],
{
    let r = vec![
        ToolSpec {
            name: "read_file",
            description: "read a UTF-8 text file",
            permission: Permission::ReadOnly,
        },
        ToolSpec {
            name: "write_file",
            description: "write UTF-8 text to a file",
            permission: Permission::Write,
        },
        ToolSpec {
            name: "list_dir",
            description: "list directory entries",
            permission: Permission::ReadOnly,
        },
        ToolSpec {
            name: "file_meta",
            description: "read basic file or directory metadata",
            permission: Permission::ReadOnly,
        },
        ToolSpec {
            name: "file_metadata",
            description: "alias of file_meta",
            permission: Permission::ReadOnly,
        },
        ToolSpec {
            name: "glob",
            description: "find paths matching a glob pattern under the project root",
            permission: Permission::ReadOnly,
        },
        ToolSpec {
            name: "grep",
            description: "search file contents for a pattern (path:line:content)",
            permission: Permission::ReadOnly,
        },
        ToolSpec {
            name: "edit_file",
            description: "replace an exact unique string in a file; optional 4th arg expected_hash (dh64:…) rejects stale content; reports before/after hash + unified diff",
            permission: Permission::Write,
        },
        ToolSpec {
            name: "run_shell",
            description: "run one shell command",
            permission: Permission::Execute,
        },
        ToolSpec {
            name: "http_get",
            description: "fetch a URL (disabled by default)",
            permission: Permission::Network,
        },
    ];
    assert forall|i: int| 0 <= i < 10 implies #[trigger] r@[i].name@ == spec_tool_names()[i] by {
    }
    r
}


/// The argument a tool is missing, if any.
pub open spec fn spec_missing_argument(name: Seq<char>, nargs: nat) -> Option<Seq<char>> {
    if (name == "read_file"@ || name == "list_dir"@ || name == "run_shell"@ || name == "http_get"@
        || name == "file_meta"@ || name == "file_metadata"@ || name == "glob"@) && nargs == 0 {
        Some("value"@)
    } else if name == "write_file"@ && nargs < 2 {
        Some("content"@)
    } else if name == "grep"@ && nargs == 0 {
        Some("pattern"@)
    } else if name == "edit_file"@ && nargs < 3 {
        Some("path/old_string/new_string"@)
    } else {
        None
    }
}

/// Checks that a tool received the arguments it needs.
pub fn validate_args(spec: &ToolSpec, args: &[String]) -> (r: Result<(), ToolError>)
    ensures
        match spec_missing_argument(spec.name@, args@.len()) {
            Some(a) => r matches Err(ToolError::MissingArgument(m)) && m@ == a,
            None => r is Ok,
        },
{
    let n = chars_of(spec.name);
    let simple = eq_str(&n, "read_file") || eq_str(&n, "list_dir") || eq_str(&n, "run_shell")
        || eq_str(&n, "http_get") || eq_str(&n, "file_meta") || eq_str(&n, "file_metadata")
        || eq_str(&n, "glob");
    if simple && args.len() == 0 {
        Err(ToolError::MissingArgument("value"))
    } else if eq_str(&n, "write_file") && args.len() < 2 {
        Err(ToolError::MissingArgument("content"))
    } else if eq_str(&n, "grep") && args.len() == 0 {
        Err(ToolError::MissingArgument("pattern"))
    } else if eq_str(&n, "edit_file") && args.len() < 3 {
        Err(ToolError::MissingArgument("path/old_string/new_string"))
    } else {
        Ok(())
    }
}

/// Shell command fragments that are always refused.
pub open spec fn spec_denylist() -> Seq<Seq<char>> {
    seq![
        "rm -rf"@,
        "rmdir /s"@,
        "del /f"@,
        "format "@,
        "shutdown"@,
        "reboot"@,
        "mkfs"@,
        "diskpart"@,
        "git reset --hard"@,
        "git clean -fd"@,
    ]
}

/// The lower-cased command holds a denylisted fragment.
pub open spec fn spec_destructive(command: Seq<char>) -> bool {
    exists|i: int| 0 <= i < 10 && contains_seq(to_lower(command), #[trigger] spec_denylist()[i])
}

/// Matches a small denylist of destructive commands across POSIX and Windows
/// shells, ignoring ASCII case. Defense in depth, not a sandbox.
pub fn destructive_command(command: &str) -> (r: bool)
    ensures
        r == spec_destructive(command@),
{
    let c = to_lower_chars(&chars_of(command));
    let hit = contains_str(&c, "rm -rf") || contains_str(&c, "rmdir /s") || contains_str(
        &c,
        "del /f",
    ) || contains_str(&c, "format ") || contains_str(&c, "shutdown") || contains_str(&c, "reboot")
        || contains_str(&c, "mkfs") || contains_str(&c, "diskpart") || contains_str(
        &c,
        "git reset --hard",
    ) || contains_str(&c, "git clean -fd");
    proof {
        let l = spec_denylist();
        if hit {
            if contains_seq(c@, "rm -rf"@) {
                assert(contains_seq(to_lower(command@), l[0]));
            } else if contains_seq(c@, "rmdir /s"@) {
                assert(contains_seq(to_lower(command@), l[1]));
            } else if contains_seq(c@, "del /f"@) {
                assert(contains_seq(to_lower(command@), l[2]));
            } else if contains_seq(c@, "format "@) {
                assert(contains_seq(to_lower(command@), l[3]));
            } else if contains_seq(c@, "shutdown"@) {
                assert(contains_seq(to_lower(command@), l[4]));
            } else if contains_seq(c@, "reboot"@) {
                assert(contains_seq(to_lower(command@), l[5]));
            } else if contains_seq(c@, "mkfs"@) {
                assert(contains_seq(to_lower(command@), l[6]));
            } else if contains_seq(c@, "diskpart"@) {
                assert(contains_seq(to_lower(command@), l[7]));
            } else if contains_seq(c@, "git reset --hard"@) {
                assert(contains_seq(to_lower(command@), l[8]));
            } else {
                assert(contains_seq(to_lower(command@), l[9]));
            }
        } else {
            assert forall|i: int| 0 <= i < 10 implies !contains_seq(
                to_lower(command@),
                #[trigger] l[i],
            ) by {
            }
        }
    }
    hit
}

/// The risk tier of a permission.
pub open spec fn spec_risk(p: Permission) -> RiskLevel {
    match p {
        Permission::ReadOnly => RiskLevel::Low,
        Permission::Write => RiskLevel::Medium,
        Permission::Execute => RiskLevel::High,
        Permission::Network => RiskLevel::Critical,
    }
}

/// The decision, risk and reason for a request: network tools and
/// destructive shell commands are denied, everything else asks.
pub open spec fn spec_classify(name: Seq<char>, permission: Permission, args: Seq<Seq<char>>) -> (
    PermissionDecision,
    RiskLevel,
    Seq<char>,
) {
    if name == "http_get"@ {
        (PermissionDecision::Deny, RiskLevel::Critical, "network disabled"@)
    } else if name == "run_shell"@ && spec_destructive(args[0]) {
        (PermissionDecision::Deny, RiskLevel::Critical, "destructive shell command blocked"@)
    } else {
        (
            PermissionDecision::Ask,
            spec_risk(permission),
            permission.spec_label() + " permission requires approval"@,
        )
    }
}

/// Produces the (decision, risk, reason) triple for a tool request.
pub fn classify(spec: &ToolSpec, args: &[String]) -> (r: (PermissionDecision, RiskLevel, String))
    requires
        spec.name@ == "run_shell"@ ==> args@.len() >= 1,
    ensures
        ({
            let e = spec_classify(spec.name@, spec.permission, crate::text::strs_view(args@));
            r.0 == e.0 && r.1 == e.1 && r.2@ == e.2
        }),
{
    let n = chars_of(spec.name);
    if eq_str(&n, "http_get") {
        return (PermissionDecision::Deny, RiskLevel::Critical, "network disabled".to_owned());
    }
    if eq_str(&n, "run_shell") && destructive_command(args[0].as_str()) {
        return (
            PermissionDecision::Deny,
            RiskLevel::Critical,
            "destructive shell command blocked".to_owned(),
        );
    }
    let risk = match spec.permission {
        Permission::ReadOnly => RiskLevel::Low,
        Permission::Write => RiskLevel::Medium,
        Permission::Execute => RiskLevel::High,
        Permission::Network => RiskLevel::Critical,
    };
    let mut reason = spec.permission.label().to_owned();
    push_str(&mut reason, " permission requires approval");
    (PermissionDecision::Ask, risk, reason)
}

/// The last path segment after trailing separators are removed, lower-cased;
/// empty for a path ending in `..`.
pub open spec fn spec_file_name(path: Seq<char>) -> Seq<char> {
    let t = trim_slashes(path);
    let last = crate::text::split_on(t, '/').last();
    if last == ".."@ {
        seq![]
    } else {
        to_lower(last)
    }
}

/// Trailing `/` characters removed.
pub open spec fn trim_slashes(s: Seq<char>) -> Seq<char>
    decreases s.len(),
{
    if s.len() > 0 && s.last() == '/' {
        trim_slashes(s.drop_last())
    } else {
        s
    }
}

/// Credential, key, and SSH/AWS/GCloud configuration paths.
pub open spec fn spec_is_sensitive(path: Seq<char>) -> bool {
    let normalized = to_lower(crate::text::replace_char(path, '\\', '/'));
    let name = spec_file_name(path);
    ||| name == ".env"@
    ||| starts_with(name, ".env."@)
    ||| ends_with(name, ".key"@)
    ||| ends_with(name, ".pem"@)
    ||| ends_with(name, ".p12"@)
    ||| ends_with(name, ".pfx"@)
    ||| contains_seq(normalized, "/.ssh/"@)
    ||| contains_seq(normalized, "/.aws/"@)
    ||| contains_seq(normalized, "/.config/gcloud/"@)
    ||| contains_seq(normalized, "credentials"@)
    ||| contains_seq(normalized, "secrets"@)
}

proof fn lemma_trim_slashes(s: Seq<char>, k: int)
    requires
        0 <= k <= s.len(),
        forall|i: int| k <= i < s.len() ==> #[trigger] s[i] == '/',
        k == 0 || s[k - 1] != '/',
    ensures
        trim_slashes(s) == s.take(k),
    decreases s.len() - k,
{
    if k == s.len() {
        assert(s.take(k) =~= s);
    } else {
        assert(s.drop_last().take(k) =~= s.take(k));
        assert forall|i: int| k <= i < s.drop_last().len() implies #[trigger] s.drop_last()[i]
            == '/' by {
            assert(s.drop_last()[i] == s[i]);
        }
        if k > 0 {
            assert(s.drop_last()[k - 1] == s[k - 1]);
        }
        lemma_trim_slashes(s.drop_last(), k);
    }
}

/// The lower-cased file name of a path.
pub fn file_name_lower(path: &[char]) -> (r: Vec<char>)
    ensures
        r@ == spec_file_name(path@),
{
    let mut e = path.len();
    while e > 0 && path[e - 1] == '/'
        invariant
            e <= path.len(),
            forall|i: int| e <= i < path.len() ==> #[trigger] path@[i] == '/',
        decreases e,
    {
        e = e - 1;
    }
    proof {
        lemma_trim_slashes(path@, e as int);
    }
    let t = crate::text::slice_range(path, 0, e);
    assert(t@ =~= path@.take(e as int));
    let pieces = crate::text::split_on_char(&t, '/');
    proof {
        crate::text::lemma_split_on_nonempty(t@, '/');
        assert(crate::text::strs_view(pieces@).len() == pieces@.len());
    }
    let last = chars_of(pieces[pieces.len() - 1].as_str());
    if eq_str(&last, "..") {
        Vec::new()
    } else {
        to_lower_chars(&last)
    }
}

/// Whether a path names credentials, keys, or SSH/AWS/GCloud configuration.
pub fn is_sensitive(path: &str) -> (r: bool)
    ensures
        r == spec_is_sensitive(path@),
{
    let p = chars_of(path);
    let normalized = to_lower_chars(&crate::text::replace_char_chars(&p, '\\', '/'));
    let name = file_name_lower(&p);
    eq_str(&name, ".env") || starts_with_str(&name, ".env.") || ends_with_str(&name, ".key")
        || ends_with_str(&name, ".pem") || ends_with_str(&name, ".p12") || ends_with_str(
        &name,
        ".pfx",
    ) || contains_str(&normalized, "/.ssh/") || contains_str(&normalized, "/.aws/")
        || contains_str(&normalized, "/.config/gcloud/") || contains_str(
        &normalized,
        "credentials",
    ) || contains_str(&normalized, "secrets")
}

/// A path is absolute when it starts with `/`.
pub open spec fn spec_is_absolute(path: Seq<char>) -> bool {
    path.len() > 0 && path[0] == '/'
}

/// `path` lies at or under `base`, compared as normalized absolute paths:
/// `base` is a prefix of `path` ending at a separator or at the end of `path`.
pub open spec fn spec_under(path: Seq<char>, base: Seq<char>) -> bool {
    starts_with(path, base) && (path.len() == base.len() || path[base.len() as int] == '/' || (
    base.len() > 0 && base.last() == '/'))
}

/// Whether `path` lies at or under `base`.
pub fn is_under(path: &str, base: &str) -> (r: bool)
    ensures
        r == spec_under(path@, base@),
{
    let p = chars_of(path);
    let b = chars_of(base);
    if !crate::text::starts_with_chars(&p, &b) {
        return false;
    }
    p.len() == b.len() || p[b.len()] == '/' || (b.len() > 0 && b[b.len() - 1] == '/')
}

/// The check applied to a path once it has been resolved against the
/// project root: a relative input must stay under the root, and sensitive
/// paths are refused.
pub open spec fn spec_check_path(raw: Seq<char>, canonical: Seq<char>, cwd: Seq<char>) -> Option<
    Seq<char>,
> {
    if !spec_is_absolute(raw) && !spec_under(canonical, cwd) {
        Some("path escapes project root"@)
    } else if spec_is_sensitive(canonical) {
        Some("sensitive path"@)
    } else {
        None
    }
}

/// Checks a resolved path; returns it when allowed.
pub fn check_resolved_path(raw: &str, canonical: String, cwd: &str) -> (r: Result<String, ToolError>)
    ensures
        match spec_check_path(raw@, canonical@, cwd@) {
            Some(reason) => r matches Err(ToolError::SecurityDenied(m)) && m@ == reason,
            None => r == Ok::<String, ToolError>(canonical),
        },
{
    let rv = chars_of(raw);
    let absolute = rv.len() > 0 && rv[0] == '/';
    if !absolute && !is_under(canonical.as_str(), cwd) {
        return Err(ToolError::SecurityDenied("path escapes project root".to_owned()));
    }
    if is_sensitive(canonical.as_str()) {
        return Err(ToolError::SecurityDenied("sensitive path".to_owned()));
    }
    Ok(canonical)
}

/// Why a glob pattern is refused, if it is.
pub open spec fn spec_glob_pattern_error(pattern: Seq<char>) -> Option<(bool, Seq<char>)> {
    if spec_is_absolute(pattern) {
        Some((true, "glob pattern must be relative to project root"@))
    } else if crate::text::split_on(pattern, '/').contains(".."@) {
        Some((true, "glob pattern must not escape project root"@))
    } else if pattern.len() == 0 {
        Some((false, "pattern"@))
    } else {
        None
    }
}

/// Rejects absolute patterns and parent-directory escapes before walking.
pub fn validate_glob_pattern(pattern: &str) -> (r: Result<(), ToolError>)
    ensures
        match spec_glob_pattern_error(pattern@) {
            Some((true, m)) => r matches Err(ToolError::SecurityDenied(e)) && e@ == m,
            Some((false, m)) => r matches Err(ToolError::MissingArgument(e)) && e@ == m,
            None => r is Ok,
        },
{
    let p = chars_of(pattern);
    if p.len() > 0 && p[0] == '/' {
        return Err(
            ToolError::SecurityDenied("glob pattern must be relative to project root".to_owned()),
        );
    }
    let pieces = crate::text::split_on_char(&p, '/');
    let mut i: usize = 0;
    while i < pieces.len()
        invariant
            i <= pieces@.len(),
            crate::text::strs_view(pieces@) == crate::text::split_on(p@, '/'),
            p@ == pattern@,
            !spec_is_absolute(pattern@),
            forall|j: int| 0 <= j < i ==> #[trigger] pieces@[j]@ != ".."@,
        decreases pieces@.len() - i,
    {
        let piece = chars_of(pieces[i].as_str());
        if eq_str(&piece, "..") {
            proof {
                let sv = crate::text::strs_view(pieces@);
                assert(sv[i as int] == ".."@);
                assert(sv.contains(".."@));
                assert(!spec_is_absolute(pattern@));
                assert(spec_glob_pattern_error(pattern@) == Some(
                    (true, "glob pattern must not escape project root"@),
                ));
            }
            return Err(
                ToolError::SecurityDenied("glob pattern must not escape project root".to_owned()),
            );
        }
        i = i + 1;
    }
    proof {
        let sv = crate::text::strs_view(pieces@);
        if sv.contains(".."@) {
            let j = choose|j: int| 0 <= j < sv.len() && sv[j] == ".."@;
            assert(pieces@[j]@ == ".."@);
        }
    }
    if p.len() == 0 {
        return Err(ToolError::MissingArgument("pattern"));
    }
    Ok(())
}


/// One path segment against one glob segment: `*` matches any run of
/// characters, `?` any single character, anything else itself.
pub open spec fn seg_match(p: Seq<char>, s: Seq<char>) -> bool
    decreases p.len() + s.len(),
{
    if p.len() == 0 {
        s.len() == 0
    } else if p[0] == '*' {
        seg_match(p.drop_first(), s) || (s.len() > 0 && seg_match(p, s.drop_first()))
    } else if s.len() == 0 {
        false
    } else if p[0] == '?' || p[0] == s[0] {
        seg_match(p.drop_first(), s.drop_first())
    } else {
        false
    }
}

/// Path segments against glob segments: `**` matches zero or more segments.
pub open spec fn glob_parts(p: Seq<Seq<char>>, s: Seq<Seq<char>>) -> bool
    decreases p.len() + s.len(),
{
    if p.len() == 0 {
        s.len() == 0
    } else if p[0] == "**"@ {
        glob_parts(p.drop_first(), s) || (s.len() > 0 && glob_parts(p, s.drop_first()))
    } else if s.len() == 0 {
        false
    } else {
        seg_match(p[0], s[0]) && glob_parts(p.drop_first(), s.drop_first())
    }
}

/// A relative path against a glob pattern, both split at `/` with empty
/// segments ignored.
pub open spec fn spec_glob_match(pattern: Seq<char>, path: Seq<char>) -> bool {
    glob_parts(
        crate::text::drop_empty(crate::text::split_on(pattern, '/')),
        crate::text::drop_empty(crate::text::split_on(path, '/')),
    )
}

/// Splitting at a separator splits each side of it.
proof fn lemma_split_at_separator(a: Seq<char>, b: Seq<char>, c: char)
    ensures
        crate::text::split_on(a + seq![c] + b, c) == crate::text::split_on(a, c)
            + crate::text::split_on(b, c),
    decreases a.len(),
{
    let t = a + seq![c] + b;
    let k = crate::text::index_of(a, c);
    crate::text::lemma_index_of_from(a, c, 0);
    if k >= a.len() {
        assert(t[a.len() as int] == c);
        crate::text::lemma_index_of_from_is(t, c, 0, a.len() as int);
        assert(t.take(a.len() as int) =~= a);
        assert(t.skip((a.len() + 1) as int) =~= b);
    } else {
        assert(t[k] == c);
        crate::text::lemma_index_of_from_is(t, c, 0, k);
        let a2 = a.skip(k + 1);
        assert(t.take(k) =~= a.take(k));
        assert(t.skip(k + 1) =~= a2 + seq![c] + b);
        lemma_split_at_separator(a2, b, c);
        assert(crate::text::split_on(t, c) =~= crate::text::split_on(a, c) + crate::text::split_on(
            b,
            c,
        ));
    }
}

/// Dropping empty pieces works piece list by piece list.
proof fn lemma_drop_empty_concat(x: Seq<Seq<char>>, y: Seq<Seq<char>>)
    ensures
        crate::text::drop_empty(x + y) == crate::text::drop_empty(x) + crate::text::drop_empty(y),
    decreases x.len(),
{
    if x.len() == 0 {
        assert(x + y =~= y);
    } else {
        assert((x + y).drop_first() =~= x.drop_first() + y);
        assert((x + y)[0] == x[0]);
        lemma_drop_empty_concat(x.drop_first(), y);
        assert(crate::text::drop_empty(x + y) =~= crate::text::drop_empty(x) + crate::text::drop_empty(
            y,
        ));
    }
}

/// Patterns that match two paths, one after the other, match the paths one
/// after the other.
proof fn lemma_glob_parts_concat(
    p1: Seq<Seq<char>>,
    s1: Seq<Seq<char>>,
    p2: Seq<Seq<char>>,
    s2: Seq<Seq<char>>,
)
    requires
        glob_parts(p1, s1),
        glob_parts(p2, s2),
    ensures
        glob_parts(p1 + p2, s1 + s2),
    decreases p1.len() + s1.len(),
{
    if p1.len() == 0 {
        assert(s1.len() == 0);
        assert(p1 + p2 =~= p2);
        assert(s1 + s2 =~= s2);
    } else {
        assert((p1 + p2)[0] == p1[0]);
        assert((p1 + p2).drop_first() =~= p1.drop_first() + p2);
        if p1[0] == "**"@ {
            if glob_parts(p1.drop_first(), s1) {
                lemma_glob_parts_concat(p1.drop_first(), s1, p2, s2);
            } else {
                lemma_glob_parts_concat(p1, s1.drop_first(), p2, s2);
                assert((s1 + s2).drop_first() =~= s1.drop_first() + s2);
            }
        } else {
            assert((s1 + s2)[0] == s1[0]);
            assert((s1 + s2).drop_first() =~= s1.drop_first() + s2);
            lemma_glob_parts_concat(p1.drop_first(), s1.drop_first(), p2, s2);
        }
    }
}

/// `**` at the front of a pattern may match no segment at all:
/// `**/q` matches every path that `q` matches.
pub proof fn law_double_star_matches_no_segment(q: Seq<char>, y: Seq<char>)
    requires
        spec_glob_match(q, y),
    ensures
        spec_glob_match("**/"@ + q, y),
{
    reveal_strlit("**/");
    reveal_strlit("**");
    let star = "**"@;
    assert("**/"@ + q =~= star + seq!['/'] + q);
    lemma_split_at_separator(star, q, '/');
    crate::text::lemma_index_of_from(star, '/', 0);
    assert(crate::text::split_on(star, '/') =~= seq![star]);
    lemma_drop_empty_concat(seq![star], crate::text::split_on(q, '/'));
    assert(crate::text::drop_empty(seq![star]) =~= seq![star]) by {
        assert(star.len() == 2);
        assert(seq![star][0] == star);
        assert(seq![star].drop_first() =~= Seq::<Seq<char>>::empty());
        assert(crate::text::drop_empty(Seq::<Seq<char>>::empty()) =~= Seq::<Seq<char>>::empty());
        assert(crate::text::drop_empty(seq![star]) == seq![star] + crate::text::drop_empty(
            seq![star].drop_first(),
        ));
    }
    let pq = crate::text::drop_empty(crate::text::split_on(q, '/'));
    assert(crate::text::drop_empty(crate::text::split_on("**/"@ + q, '/')) =~= seq![star] + pq);
    assert((seq![star] + pq)[0] == star);
    assert((seq![star] + pq).drop_first() =~= pq);
}

/// `**` between two patterns matches any number of segments, none
/// included: where `p` matches `x` and `q` matches `y`, `p/**/q` matches
/// `x/y`.
pub proof fn law_double_star_joins_matches(p: Seq<char>, q: Seq<char>, x: Seq<char>, y: Seq<char>)
    requires
        spec_glob_match(p, x),
        spec_glob_match(q, y),
    ensures
        spec_glob_match(p + "/**/"@ + q, x + "/"@ + y),
{
    reveal_strlit("/**/");
    reveal_strlit("/");
    reveal_strlit("**/");
    law_double_star_matches_no_segment(q, y);
    assert(p + "/**/"@ + q =~= p + seq!['/'] + ("**/"@ + q));
    assert(x + "/"@ + y =~= x + seq!['/'] + y);
    lemma_split_at_separator(p, "**/"@ + q, '/');
    lemma_split_at_separator(x, y, '/');
    lemma_drop_empty_concat(crate::text::split_on(p, '/'), crate::text::split_on("**/"@ + q, '/'));
    lemma_drop_empty_concat(crate::text::split_on(x, '/'), crate::text::split_on(y, '/'));
    lemma_glob_parts_concat(
        crate::text::drop_empty(crate::text::split_on(p, '/')),
        crate::text::drop_empty(crate::text::split_on(x, '/')),
        crate::text::drop_empty(crate::text::split_on("**/"@ + q, '/')),
        crate::text::drop_empty(crate::text::split_on(y, '/')),
    );
}

fn seg_match_at(p: &[char], i: usize, s: &[char], j: usize) -> (r: bool)
    requires
        i <= p.len(),
        j <= s.len(),
    ensures
        r == seg_match(p@.skip(i as int), s@.skip(j as int)),
    decreases (p.len() - i) + (s.len() - j),
{
    proof {
        if i < p.len() {
            assert(p@.skip(i as int).drop_first() =~= p@.skip(i + 1));
            assert(p@.skip(i as int)[0] == p@[i as int]);
        }
        if j < s.len() {
            assert(s@.skip(j as int).drop_first() =~= s@.skip(j + 1));
            assert(s@.skip(j as int)[0] == s@[j as int]);
        }
    }
    if i == p.len() {
        return j == s.len();
    }
    if p[i] == '*' {
        if seg_match_at(p, i + 1, s, j) {
            return true;
        }
        if j == s.len() {
            return false;
        }
        return seg_match_at(p, i, s, j + 1);
    }
    if j == s.len() {
        return false;
    }
    if p[i] == '?' || p[i] == s[j] {
        return seg_match_at(p, i + 1, s, j + 1);
    }
    false
}

/// One path segment against one glob segment.
pub fn segment_match(pattern: &str, segment: &str) -> (r: bool)
    ensures
        r == seg_match(pattern@, segment@),
{
    let p = chars_of(pattern);
    let s = chars_of(segment);
    assert(p@.skip(0) =~= p@);
    assert(s@.skip(0) =~= s@);
    seg_match_at(&p, 0, &s, 0)
}

fn glob_parts_at(p: &[String], i: usize, s: &[String], j: usize) -> (r: bool)
    requires
        i <= p.len(),
        j <= s.len(),
    ensures
        r == glob_parts(
            crate::text::strs_view(p@).skip(i as int),
            crate::text::strs_view(s@).skip(j as int),
        ),
    decreases (p.len() - i) + (s.len() - j),
{
    let ghost pv = crate::text::strs_view(p@);
    let ghost sv = crate::text::strs_view(s@);
    proof {
        if i < p.len() {
            assert(pv.skip(i as int).drop_first() =~= pv.skip(i + 1));
            assert(pv.skip(i as int)[0] == p@[i as int]@);
        }
        if j < s.len() {
            assert(sv.skip(j as int).drop_first() =~= sv.skip(j + 1));
            assert(sv.skip(j as int)[0] == s@[j as int]@);
        }
    }
    if i == p.len() {
        return j == s.len();
    }
    let pc = chars_of(p[i].as_str());
    if eq_str(&pc, "**") {
        if glob_parts_at(p, i + 1, s, j) {
            return true;
        }
        if j == s.len() {
            return false;
        }
        return glob_parts_at(p, i, s, j + 1);
    }
    if j == s.len() {
        return false;
    }
    segment_match(p[i].as_str(), s[j].as_str()) && glob_parts_at(p, i + 1, s, j + 1)
}

/// Matches a relative path against a glob pattern (`*`, `?`, `**`).
pub fn glob_match(pattern: &str, path: &str) -> (r: bool)
    ensures
        r == spec_glob_match(pattern@, path@),
{
    let pp = crate::text::drop_empty_strs(&crate::text::split_on_char(&chars_of(pattern), '/'));
    let sp = crate::text::drop_empty_strs(&crate::text::split_on_char(&chars_of(path), '/'));
    assert(crate::text::strs_view(pp@).skip(0) =~= crate::text::strs_view(pp@));
    assert(crate::text::strs_view(sp@).skip(0) =~= crate::text::strs_view(sp@));
    glob_parts_at(&pp, 0, &sp, 0)
}


/// The tools whose first argument is a file-system path.
pub open spec fn is_path_tool(name: Seq<char>) -> bool {
    name == "read_file"@ || name == "write_file"@ || name == "list_dir"@ || name == "file_meta"@
        || name == "file_metadata"@ || name == "edit_file"@
}

/// The raw path argument a request needs resolved against the project
/// root: the first argument of path tools, the second (default `.`) of `grep`.
pub open spec fn spec_path_arg(name: Seq<char>, args: Seq<Seq<char>>) -> Option<Seq<char>> {
    if is_path_tool(name) {
        Some(args[0])
    } else if name == "grep"@ {
        if args.len() > 1 {
            Some(args[1])
        } else {
            Some("."@)
        }
    } else {
        None
    }
}

/// What the file system reported for a path: its canonical form, or the
/// I/O error text.
pub type Resolved = Option<Result<String, String>>;

/// The metadata outcome for validated arguments, the project root and the
/// resolved path (when the tool has one).
pub open spec fn spec_metadata_error(
    name: Seq<char>,
    args: Seq<Seq<char>>,
    cwd: Seq<char>,
    resolved: Option<Result<Seq<char>, Seq<char>>>,
) -> Option<ToolErrorSpec> {
    match spec_path_arg(name, args) {
        Some(raw) => match resolved {
            Some(Ok(canonical)) => match spec_check_path(raw, canonical, cwd) {
                Some(reason) => Some(ToolErrorSpec::SecurityDenied(reason)),
                None => None,
            },
            Some(Err(e)) => Some(ToolErrorSpec::Io(e)),
            None => None,
        },
        None => if name == "glob"@ {
            match spec_glob_pattern_error(args[0]) {
                Some((true, m)) => Some(ToolErrorSpec::SecurityDenied(m)),
                Some((false, m)) => Some(ToolErrorSpec::MissingArgument(m)),
                None => None,
            }
        } else {
            None
        },
    }
}

/// The error kinds a request can be refused with, by their texts.
pub enum ToolErrorSpec {
    UnknownTool(Seq<char>),
    MissingArgument(Seq<char>),
    Io(Seq<char>),
    SecurityDenied(Seq<char>),
}

impl ToolError {
    /// Whether this error is the given refusal.
    pub open spec fn is(&self, e: ToolErrorSpec) -> bool {
        match e {
            ToolErrorSpec::UnknownTool(m) => self matches ToolError::UnknownTool(x) && x@ == m,
            ToolErrorSpec::MissingArgument(m) => self matches ToolError::MissingArgument(x) && x@
                == m,
            ToolErrorSpec::Io(m) => self matches ToolError::Io(x) && x@ == m,
            ToolErrorSpec::SecurityDenied(m) => self matches ToolError::SecurityDenied(x) && x@
                == m,
        }
    }
}

/// The resolved path as characters.
pub open spec fn resolved_view(r: Resolved) -> Option<Result<Seq<char>, Seq<char>>> {
    match r {
        Some(Ok(p)) => Some(Ok(p@)),
        Some(Err(e)) => Some(Err(e@)),
        None => None,
    }
}

/// Approval metadata for validated arguments: the affected path (checked),
/// the glob pattern check, and the classification.
pub fn metadata_for(spec: &ToolSpec, args: &[String], cwd: &str, resolved: Resolved) -> (r: Result<
    ApprovalMetadata,
    ToolError,
>)
    requires
        spec_missing_argument(spec.name@, args@.len()) is None,
        spec_path_arg(spec.name@, crate::text::strs_view(args@)) is Some ==> resolved is Some,
    ensures
        match spec_metadata_error(
            spec.name@,
            crate::text::strs_view(args@),
            cwd@,
            resolved_view(resolved),
        ) {
            Some(e) => r matches Err(err) && err.is(e),
            None => r matches Ok(m) && ({
                let c = spec_classify(spec.name@, spec.permission, crate::text::strs_view(args@));
                &&& m.decision == c.0
                &&& m.risk == c.1
                &&& m.reason@ == c.2
                &&& m.cwd@ == cwd@
                &&& match spec_path_arg(spec.name@, crate::text::strs_view(args@)) {
                    Some(_) => m.affected_paths@.len() == 1 && (resolved matches Some(Ok(p))
                        && m.affected_paths@[0] == p),
                    None => if spec.name@ == "glob"@ {
                        m.affected_paths@.len() == 1 && m.affected_paths@[0]@ == cwd@
                    } else {
                        m.affected_paths@.len() == 0
                    },
                }
            }),
        },
{
    let n = chars_of(spec.name);
    let ghost av = crate::text::strs_view(args@);
    let path_tool = eq_str(&n, "read_file") || eq_str(&n, "write_file") || eq_str(&n, "list_dir")
        || eq_str(&n, "file_meta") || eq_str(&n, "file_metadata") || eq_str(&n, "edit_file");
    let is_grep = eq_str(&n, "grep");
    let mut affected: Vec<String> = Vec::new();
    if path_tool || is_grep {
        let raw: &str = if path_tool {
            args[0].as_str()
        } else if args.len() > 1 {
            args[1].as_str()
        } else {
            "."
        };
        proof {
            assert(spec_path_arg(spec.name@, av) == Some(raw@));
        }
        match resolved {
            Some(Ok(canonical)) => {
                let p = check_resolved_path(raw, canonical, cwd)?;
                affected.push(p);
            },
            Some(Err(e)) => {
                return Err(ToolError::Io(e));
            },
            None => {
                return Err(ToolError::Io("path was not resolved".to_owned()));
            },
        }
    } else if eq_str(&n, "glob") {
        validate_glob_pattern(args[0].as_str())?;
        affected.push(cwd.to_owned());
    }
    let (decision, risk, reason) = classify(spec, args);
    Ok(ApprovalMetadata { decision, risk, cwd: cwd.to_owned(), affected_paths: affected, reason })
}

/// The specifications of the tools, validation and preparation for approval.
#[derive(Debug, Clone, Copy, Default)]
pub struct ToolRegistry;

/// The permission listed for the first registered tool at or after `i`
/// with the given name.
pub open spec fn permission_from(name: Seq<char>, i: int) -> Permission
    decreases 10 - i,
{
    if i < 0 || i >= 10 {
        Permission::ReadOnly
    } else if spec_tool_names()[i] == name {
        spec_tool_permissions()[i]
    } else {
        permission_from(name, i + 1)
    }
}

/// The permission of a registered tool, by name.
pub open spec fn spec_permission_of(name: Seq<char>) -> Permission {
    permission_from(name, 0)
}

proof fn lemma_permission_from(name: Seq<char>, start: int, k: int)
    requires
        0 <= start <= k < 10,
        forall|j: int| start <= j < k ==> spec_tool_names()[j] != name,
        spec_tool_names()[k] == name,
    ensures
        permission_from(name, start) == spec_tool_permissions()[k],
    decreases k - start,
{
    if start < k {
        lemma_permission_from(name, start + 1, k);
    }
}

impl ToolRegistry {
    /// The specifications of every registered tool, in listing order.
    pub fn specs(&self) -> (r: Vec<ToolSpec>)
        ensures
            r@.len() == 10,
            forall|i: int| 0 <= i < 10 ==> #[trigger] r@[i].name@ == spec_tool_names()[i],
            forall|i: int| 0 <= i < 10 ==> #[trigger] r@[i].permission
                == spec_tool_permissions()[i],
    {
        tool_specs()
    }

    /// The specification of the tool with the given name.
    pub fn lookup(&self, name: &str) -> (r: Result<ToolSpec, ToolError>)
        ensures
            match r {
                Ok(spec) => spec_tool_names().contains(name@) && spec.name@ == name@
                    && spec.permission == spec_permission_of(name@),
                Err(e) => !spec_tool_names().contains(name@) && e.is(
                    ToolErrorSpec::UnknownTool(name@),
                ),
            },
    {
        let mut specs = tool_specs();
        let mut i: usize = 0;
        while i < specs.len()
            invariant
                i <= specs@.len(),
                specs@.len() == 10,
                forall|k: int| 0 <= k < 10 ==> #[trigger] specs@[k].name@ == spec_tool_names()[k],
                forall|k: int| 0 <= k < 10 ==> #[trigger] specs@[k].permission
                    == spec_tool_permissions()[k],
                forall|k: int| 0 <= k < i ==> spec_tool_names()[k] != name@,
            decreases specs@.len() - i,
        {
            if str_eq(specs[i].name, name) {
                proof {
                    let names = spec_tool_names();
                    assert(names[i as int] == name@);
                    assert(names.contains(name@));
                    lemma_permission_from(name@, 0, i as int);
                }
                return Ok(specs.remove(i));
            }
            i = i + 1;
        }
        proof {
            let names = spec_tool_names();
            if names.contains(name@) {
                let j = choose|j: int| 0 <= j < names.len() && names[j] == name@;
                assert(names[j] != name@);
            }
        }
        Err(ToolError::UnknownTool(name.to_owned()))
    }

    /// The raw path a request needs resolved before [`Self::prepare`], or
    /// `None`; fails like [`Self::prepare`] on unknown tools and missing arguments.
    pub fn path_to_resolve(&self, request: &ToolRequest) -> (r: Result<Option<String>, ToolError>)
        ensures
            !spec_tool_names().contains(request.name@) ==> (r matches Err(e) && e.is(
                ToolErrorSpec::UnknownTool(request.name@),
            )),
            spec_tool_names().contains(request.name@) ==> match spec_missing_argument(
                request.name@,
                request.args@.len(),
            ) {
                Some(a) => r matches Err(e) && e.is(ToolErrorSpec::MissingArgument(a)),
                None => r matches Ok(p) && match spec_path_arg(
                    request.name@,
                    crate::text::strs_view(request.args@),
                ) {
                    Some(raw) => p matches Some(x) && x@ == raw,
                    None => p is None,
                },
            },
    {
        let spec = self.lookup(request.name.as_str())?;
        validate_args(&spec, &request.args)?;
        let n = chars_of(spec.name);
        let ghost av = crate::text::strs_view(request.args@);
        let path_tool = eq_str(&n, "read_file") || eq_str(&n, "write_file") || eq_str(
            &n,
            "list_dir",
        ) || eq_str(&n, "file_meta") || eq_str(&n, "file_metadata") || eq_str(&n, "edit_file");
        if path_tool {
            proof {
                assert(av[0] == request.args@[0]@);
            }
            Ok(Some(request.args[0].clone()))
        } else if eq_str(&n, "grep") {
            if request.args.len() > 1 {
                proof {
                    assert(av[1] == request.args@[1]@);
                }
                Ok(Some(request.args[1].clone()))
            } else {
                Ok(Some(".".to_owned()))
            }
        } else {
            Ok(None)
        }
    }

    /// Validates arguments, checks the resolved path, classifies risk, and
    /// produces an approval request. Deny decisions come back as
    /// `SecurityDenied`, so no approval prompt is shown for blocked actions.
    pub fn prepare(&self, request: ToolRequest, cwd: &str, resolved: Resolved) -> (r: Result<
        ApprovalRequest,
        ToolError,
    >)
        requires
            spec_path_arg(request.name@, crate::text::strs_view(request.args@)) is Some
                ==> resolved is Some,
        ensures
            !spec_tool_names().contains(request.name@) ==> (r matches Err(e) && e.is(
                ToolErrorSpec::UnknownTool(request.name@),
            )),
            spec_tool_names().contains(request.name@) ==> match spec_missing_argument(
                request.name@,
                request.args@.len(),
            ) {
                Some(a) => r matches Err(e) && e.is(ToolErrorSpec::MissingArgument(a)),
                None => match spec_metadata_error(
                    request.name@,
                    crate::text::strs_view(request.args@),
                    cwd@,
                    resolved_view(resolved),
                ) {
                    Some(e) => r matches Err(err) && err.is(e),
                    None => {
                        let c = spec_classify(
                            request.name@,
                            spec_permission_of(request.name@),
                            crate::text::strs_view(request.args@),
                        );
                        if c.0 == PermissionDecision::Deny {
                            r matches Err(err) && err.is(ToolErrorSpec::SecurityDenied(c.2))
                        } else {
                            r matches Ok(a) && a.request == request && a.spec.name@
                                == request.name@ && a.spec.permission
                                == spec_permission_of(request.name@)
                        }
                    },
                },
            },
    {
        let spec = self.lookup(request.name.as_str())?;
        validate_args(&spec, &request.args)?;
        let metadata = metadata_for(&spec, &request.args, cwd, resolved)?;
        match metadata.decision {
            PermissionDecision::Deny => {
                return Err(ToolError::SecurityDenied(metadata.reason));
            },
            _ => {},
        }
        Ok(ApprovalRequest { request, spec })
    }
}

impl ApprovalRequest {
    /// Approval metadata for this request, given the project root and the
    /// resolved path.
    pub fn metadata(&self, cwd: &str, resolved: Resolved) -> (r: Result<ApprovalMetadata, ToolError>)
        requires
            spec_missing_argument(self.spec.name@, self.request.args@.len()) is None,
            spec_path_arg(self.spec.name@, crate::text::strs_view(self.request.args@)) is Some
                ==> resolved is Some,
        ensures
            match spec_metadata_error(
                self.spec.name@,
                crate::text::strs_view(self.request.args@),
                cwd@,
                resolved_view(resolved),
            ) {
                Some(e) => r matches Err(err) && err.is(e),
                None => r matches Ok(m) && ({
                    let c = spec_classify(
                        self.spec.name@,
                        self.spec.permission,
                        crate::text::strs_view(self.request.args@),
                    );
                    m.decision == c.0 && m.risk == c.1 && m.reason@ == c.2
                }),
            },
    {
        metadata_for(&self.spec, &self.request.args, cwd, resolved)
    }
}

} // verus!
