//! Long-running missions: a goal, a short title and a status, stored under
//! `<project>/.luminus/missions/<id>.json` by the caller.

use vstd::prelude::*;

use crate::paths::{join, path_join};
use crate::text::{chars_of, push_str, IntoText};
use crate::utf8_len::{bytes_len, fit_len};

verus! {

/// Where a mission is in its lifecycle.
#[derive(Debug, Clone, PartialEq, Eq, Structural)]
pub enum MissionStatus {
    Queued,
    Planning,
    Running,
    WaitingForApproval,
    Paused,
    Verifying,
    Completed,
    Failed,
    Cancelled,
}

impl Default for MissionStatus {
    fn default() -> (s: Self)
        ensures
            s == MissionStatus::Queued,
    {
        MissionStatus::Queued
    }
}

/// A mission and its status.
#[derive(Debug, Clone)]
pub struct Mission {
    pub id: String,
    pub title: String,
    pub goal: String,
    pub status: MissionStatus,
    pub created_at: u64,
}

/// Longest goal, in bytes, used as its own title.
pub const MAX_TITLE_BYTES: usize = 30;

/// Bytes of a long goal kept in its title, before `...`.
pub const TITLE_PREFIX_BYTES: usize = 27;

/// The title of a goal: the goal itself when it has at most 30 bytes, else
/// its first 27 bytes and `...`.
pub open spec fn spec_title(goal: Seq<char>) -> Seq<char> {
    if bytes_len(goal) > MAX_TITLE_BYTES {
        goal.take(fit_len(goal, TITLE_PREFIX_BYTES as nat) as int) + "..."@
    } else {
        goal
    }
}

/// A long goal's 27th byte ends a character.
pub open spec fn title_cut_ok(goal: Seq<char>) -> bool {
    bytes_len(goal) > MAX_TITLE_BYTES ==> bytes_len(
        goal.take(fit_len(goal, TITLE_PREFIX_BYTES as nat) as int),
    ) == TITLE_PREFIX_BYTES
}

impl Mission {
    /// A queued mission created now, its title shortened from the goal.
    pub fn new(id: impl IntoText, goal: impl IntoText) -> (m: Self)
        requires
            title_cut_ok(goal.text_view()),
        ensures
            m.id@ == id.text_view(),
            m.goal@ == goal.text_view(),
            m.title@ == spec_title(goal.text_view()),
            m.status == MissionStatus::Queued,
    {
        let created_at = crate::clock::unix_seconds_now();
        let goal = goal.into_text();
        let n = crate::utf8_len::str_bytes(goal.as_str());
        let title = if n > MAX_TITLE_BYTES {
            let v = chars_of(goal.as_str());
            let k = crate::utf8_len::fit_prefix(&v, TITLE_PREFIX_BYTES);
            proof {
                crate::utf8_len::lemma_fit_len(v@, TITLE_PREFIX_BYTES as nat);
            }
            let mut t = crate::text::from_range(&v, 0, k);
            assert(v@.subrange(0, k as int) =~= v@.take(k as int));
            push_str(&mut t, "...");
            t
        } else {
            crate::agent::copy_string(&goal)
        };
        Mission { id: id.into_text(), title, goal, status: MissionStatus::Queued, created_at }
    }
}

/// Where missions are kept: `<project>/.luminus/missions`.
pub struct MissionStore {
    pub root: String,
}

impl MissionStore {
    /// The store of a project.
    pub fn new(project_root: &str) -> (s: Self)
        ensures
            s.root@ == path_join(path_join(project_root@, ".luminus"@), "missions"@),
    {
        let dir = crate::paths::project_luminus_dir(project_root);
        MissionStore { root: join(dir.as_str(), "missions") }
    }

    /// The file of a mission: `<root>/<id>.json`.
    pub fn mission_path(&self, id: &str) -> (r: String)
        ensures
            r@ == path_join(self.root@, id@ + ".json"@),
    {
        let mut name = id.to_owned();
        push_str(&mut name, ".json");
        join(self.root.as_str(), name.as_str())
    }
}

} // verus!
