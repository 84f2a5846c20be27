//! Where truncated tool outputs are kept in full: `<data_root>/artifacts/<id>.txt`.
//! The store names the files and hands out identifiers; writing, reading
//! and deleting them is left to the caller.

use vstd::prelude::*;

use crate::paths::{join, path_join};
use crate::session::{is_name_char, name_char};
use crate::text::{chars_of, dec, from_chars, push_dec, push_str, IntoText};
use crate::tool_output::ArtifactId;

verus! {

/// A lower-case hexadecimal digit or a hyphen, the characters of a
/// hyphenated UUID.
pub open spec fn is_uuid_char(c: char) -> bool {
    ('0' <= c <= '9') || ('a' <= c <= 'f') || c == '-'
}

/// `uuid::Uuid::new_v4().to_string()`: a random version-4 UUID in its
/// hyphenated lower-case form, 36 characters of hexadecimal digits and
/// hyphens. Which UUID comes out is left open.
#[verifier::external_body]
fn random_uuid_text() -> (s: String)
    ensures
        s@.len() == 36,
        forall|i: int| 0 <= i < 36 ==> is_uuid_char(#[trigger] s@[i]),
{
    uuid::Uuid::new_v4().to_string()
}

/// Maximum number of characters of an artifact file stem.
pub const MAX_ID_CHARS: usize = 120;

/// The file stem of an artifact id: every character outside ASCII letters,
/// digits, `-` and `_` replaced by `_`, `artifact` when empty, cut to 120
/// characters.
pub open spec fn spec_sanitize_id(id: Seq<char>) -> Seq<char> {
    let normalized = id.map_values(|c: char| name_char(c));
    if normalized.len() == 0 {
        "artifact"@
    } else if normalized.len() <= MAX_ID_CHARS {
        normalized
    } else {
        normalized.take(MAX_ID_CHARS as int)
    }
}

/// Restricts an id to characters that are safe in a file name.
pub fn sanitize_id(id: &str) -> (r: String)
    ensures
        r@ == spec_sanitize_id(id@),
{
    let v = chars_of(id);
    let n = v.len();
    if n == 0 {
        return "artifact".to_owned();
    }
    let limit: usize = if n <= MAX_ID_CHARS {
        n
    } else {
        MAX_ID_CHARS
    };
    let mut out: Vec<char> = Vec::new();
    let mut i: usize = 0;
    while i < limit
        invariant
            limit <= n,
            n == v@.len(),
            i <= limit,
            out@ =~= v@.map_values(|c: char| name_char(c)).take(i as int),
        decreases limit - i,
    {
        let c = v[i];
        let kept = ('a' <= c && c <= 'z') || ('A' <= c && c <= 'Z') || ('0' <= c && c <= '9') || c
            == '-' || c == '_';
        if kept {
            out.push(c);
        } else {
            out.push('_');
        }
        i = i + 1;
    }
    proof {
        if n <= MAX_ID_CHARS {
            assert(out@ =~= v@.map_values(|c: char| name_char(c)));
        }
    }
    from_chars(&out)
}

/// The sanitised stem never holds a path separator or a dot, so an artifact
/// path cannot leave the artifacts directory.
pub proof fn law_sanitized_id_is_path_safe(id: Seq<char>)
    ensures
        forall|i: int|
            0 <= i < spec_sanitize_id(id).len() ==> is_name_char(
                #[trigger] spec_sanitize_id(id)[i],
            ),
{
    reveal_strlit("artifact");
}

/// Store of full tool outputs under a data root.
#[derive(Debug, Clone)]
pub struct ArtifactStore {
    data_root: String,
    issued: u64,
}

impl ArtifactStore {
    /// The data root.
    pub closed spec fn root(&self) -> Seq<char> {
        self.data_root@
    }

    /// The sequence number the next identifier will carry.
    pub closed spec fn upcoming(&self) -> u64 {
        self.issued
    }

    /// A store rooted at `data_root`; its first identifier is numbered 1.
    pub fn new(data_root: impl IntoText) -> (s: Self)
        ensures
            s.root() == data_root.text_view(),
            s.upcoming() == 1,
    {
        ArtifactStore { data_root: data_root.into_text(), issued: 1 }
    }

    /// The data root.
    pub fn data_root(&self) -> (r: &str)
        ensures
            r@ == self.root(),
    {
        self.data_root.as_str()
    }

    /// The directory holding artifact files: `<data_root>/artifacts`.
    pub fn artifacts_dir(&self) -> (r: String)
        ensures
            r@ == path_join(self.root(), "artifacts"@),
    {
        join(self.data_root.as_str(), "artifacts")
    }

    /// The file of an artifact: `<data_root>/artifacts/<sanitised id>.txt`.
    pub fn path_for(&self, id: &ArtifactId) -> (r: String)
        ensures
            r@ == path_join(
                path_join(self.root(), "artifacts"@),
                spec_sanitize_id(id.spec_str()) + ".txt"@,
            ),
    {
        let mut name = sanitize_id(id.as_str());
        push_str(&mut name, ".txt");
        let dir = self.artifacts_dir();
        join(dir.as_str(), name.as_str())
    }

    /// A fresh identifier: `a<n>-<uuid>`, `n` counting up from 1 in this
    /// store and the UUID random.
    pub fn next_artifact_id(&mut self) -> (id: ArtifactId)
        ensures
            final(self).root() == old(self).root(),
            final(self).upcoming() == crate::tool_event::after(old(self).upcoming()),
            exists|u: Seq<char>|
                u.len() == 36 && (forall|i: int| 0 <= i < 36 ==> is_uuid_char(#[trigger] u[i]))
                    && id.spec_str() == "a"@ + dec(old(self).upcoming() as nat) + "-"@ + u,
    {
        let uuid = random_uuid_text();
        let mut s = "a".to_owned();
        push_dec(&mut s, self.issued as u128);
        push_str(&mut s, "-");
        push_str(&mut s, uuid.as_str());
        self.issued = self.issued.wrapping_add(1);
        let id = ArtifactId::new(s);
        assert(id.spec_str() == "a"@ + dec(old(self).upcoming() as nat) + "-"@ + uuid@);
        id
    }
}

} // verus!
