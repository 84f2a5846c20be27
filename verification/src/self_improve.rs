//! Learned skills: a finished task's lessons written down as a SKILL.md
//! draft, saved under `<project>/.luminus/skills/<name>/SKILL.md` by the
//! caller.

use vstd::prelude::*;

use crate::paths::{join, path_join};
use crate::text::{dec, push_dec, push_str, trim, IntoText};

verus! {

/// A skill drafted from a finished task.
#[derive(Debug, Clone, PartialEq, Eq)]
pub struct LearnedSkillDraft {
    pub name: String,
    pub description: String,
    pub body: String,
}

impl LearnedSkillDraft {
    /// A draft with the given fields.
    pub fn new(name: impl IntoText, description: impl IntoText, body: impl IntoText) -> (d: Self)
        ensures
            d.name@ == name.text_view(),
            d.description@ == description.text_view(),
            d.body@ == body.text_view(),
    {
        LearnedSkillDraft {
            name: name.into_text(),
            description: description.into_text(),
            body: body.into_text(),
        }
    }

    /// The SKILL.md text of the draft.
    pub fn to_skill_md(&self) -> (r: String)
        ensures
            r@ == "---\nname: "@ + self.name@ + "\ndescription: "@ + self.description@
                + "\nversion: 0.1.0\nauthor: luminus-self-improve\ntags:\n  - learned\n  - workflow\n---\n\n"@
                + trim(self.body@) + "\n"@,
    {
        let mut r = "---\nname: ".to_owned();
        push_str(&mut r, self.name.as_str());
        push_str(&mut r, "\ndescription: ");
        push_str(&mut r, self.description.as_str());
        push_str(
            &mut r,
            "\nversion: 0.1.0\nauthor: luminus-self-improve\ntags:\n  - learned\n  - workflow\n---\n\n",
        );
        let body = crate::text::trim_str(self.body.as_str());
        push_str(&mut r, body.as_str());
        push_str(&mut r, "\n");
        r
    }
}

/// Where learned skills are kept: `<project>/.luminus/skills`.
#[derive(Debug, Clone)]
pub struct SelfImproveStore {
    pub root: String,
}

/// The numbered steps of a draft, one per lesson, counting from 1.
pub open spec fn steps(lessons: Seq<Seq<char>>) -> Seq<char>
    decreases lessons.len(),
{
    if lessons.len() == 0 {
        seq![]
    } else {
        steps(lessons.drop_last()) + dec(lessons.len()) + ". "@ + trim(lessons.last()) + "\n"@
    }
}

impl SelfImproveStore {
    /// The store of a project.
    pub fn new(project_root: &str) -> (s: Self)
        ensures
            s.root@ == crate::paths::in_project(project_root@, "skills"@),
    {
        SelfImproveStore { root: crate::paths::project_skills_dir(project_root) }
    }

    /// The file a draft is saved to: `<root>/<name>/SKILL.md`.
    pub fn skill_path(&self, draft: &LearnedSkillDraft) -> (r: String)
        ensures
            r@ == path_join(path_join(self.root@, draft.name@), "SKILL.md"@),
    {
        let dir = join(self.root.as_str(), draft.name.as_str());
        join(dir.as_str(), "SKILL.md")
    }

    /// A draft from a task and its lessons: a heading, when to use it, and
    /// the lessons as numbered steps.
    pub fn draft_from_summary(name: &str, task: &str, lessons: &[String]) -> (d: LearnedSkillDraft)
        ensures
            d.name@ == name@,
            d.description@ == "Learned workflow for "@ + task@,
            d.body@ == "# "@ + name@ + "\n\n## When to use\n"@ + trim(task@) + "\n\n## Steps\n"@
                + steps(crate::text::strs_view(lessons@)),
    {
        let mut body = "# ".to_owned();
        push_str(&mut body, name);
        push_str(&mut body, "\n\n## When to use\n");
        let t = crate::text::trim_str(task);
        push_str(&mut body, t.as_str());
        push_str(&mut body, "\n\n## Steps\n");
        let ghost head = body@;
        let mut i: usize = 0;
        while i < lessons.len()
            invariant
                i <= lessons@.len(),
                body@ == head + steps(crate::text::strs_view(lessons@).take(i as int)),
            decreases lessons@.len() - i,
        {
            let ghost ls = crate::text::strs_view(lessons@).take(i + 1);
            assert(ls.drop_last() =~= crate::text::strs_view(lessons@).take(i as int));
            assert(ls.last() == lessons@[i as int]@);
            push_dec(&mut body, (i as u128) + 1);
            push_str(&mut body, ". ");
            let l = crate::text::trim_str(lessons[i].as_str());
            push_str(&mut body, l.as_str());
            push_str(&mut body, "\n");
            i = i + 1;
        }
        assert(crate::text::strs_view(lessons@).take(lessons@.len() as int) =~= crate::text::strs_view(
            lessons@,
        ));
        let mut description = "Learned workflow for ".to_owned();
        push_str(&mut description, task);
        LearnedSkillDraft::new(name, description, body)
    }
}

} // verus!
