//! Provider-agnostic model selection domain types.

use vstd::prelude::*;

use crate::text::{chars_of, eq_str, to_lower, to_lower_chars, trim, trim_chars, IntoText};

verus! {

/// A model role: which model the application uses for a kind of work.
#[derive(Debug, Clone, Copy, PartialEq, Eq, Structural, Hash, PartialOrd, Ord)]
pub enum ModelRole {
    Default,
    Fast,
    Deep,
    Plan,
    Review,
    Subagent,
    Vision,
    Summarizer,
}

impl ModelRole {
    /// Every role, in declaration order.
    pub const ALL: [ModelRole; 8] = [
        ModelRole::Default,
        ModelRole::Fast,
        ModelRole::Deep,
        ModelRole::Plan,
        ModelRole::Review,
        ModelRole::Subagent,
        ModelRole::Vision,
        ModelRole::Summarizer,
    ];

    /// The lower-case name of a role.
    pub open spec fn spec_name(&self) -> Seq<char> {
        match self {
            ModelRole::Default => "default"@,
            ModelRole::Fast => "fast"@,
            ModelRole::Deep => "deep"@,
            ModelRole::Plan => "plan"@,
            ModelRole::Review => "review"@,
            ModelRole::Subagent => "subagent"@,
            ModelRole::Vision => "vision"@,
            ModelRole::Summarizer => "summarizer"@,
        }
    }

    /// The lower-case name of a role.
    pub fn name(&self) -> (r: &'static str)
        ensures
            r@ == self.spec_name(),
    {
        match self {
            ModelRole::Default => "default",
            ModelRole::Fast => "fast",
            ModelRole::Deep => "deep",
            ModelRole::Plan => "plan",
            ModelRole::Review => "review",
            ModelRole::Subagent => "subagent",
            ModelRole::Vision => "vision",
            ModelRole::Summarizer => "summarizer",
        }
    }

    /// The lower-case name of a role, owned.
    pub fn to_string(&self) -> (r: String)
        ensures
            r@ == self.spec_name(),
    {
        self.name().to_owned()
    }

    /// Parses a role: surrounding whitespace ignored, ASCII case ignored.
    pub fn parse(value: &str) -> (r: Result<ModelRole, UnknownRole>)
        ensures
            match r {
                Ok(role) => role_of(value@) == Some(role),
                Err(e) => role_of(value@) is None && e.0@ == value@,
            },
    {
        let v = chars_of(value);
        let t = trim_chars(&v);
        let l = to_lower_chars(&t);
        if eq_str(&l, "default") {
            Ok(ModelRole::Default)
        } else if eq_str(&l, "fast") {
            Ok(ModelRole::Fast)
        } else if eq_str(&l, "deep") {
            Ok(ModelRole::Deep)
        } else if eq_str(&l, "plan") {
            Ok(ModelRole::Plan)
        } else if eq_str(&l, "review") {
            Ok(ModelRole::Review)
        } else if eq_str(&l, "subagent") {
            Ok(ModelRole::Subagent)
        } else if eq_str(&l, "vision") {
            Ok(ModelRole::Vision)
        } else if eq_str(&l, "summarizer") {
            Ok(ModelRole::Summarizer)
        } else {
            Err(UnknownRole(value.to_owned()))
        }
    }
}

/// The role a text names, after trimming and ASCII lower-casing.
pub open spec fn role_of(s: Seq<char>) -> Option<ModelRole> {
    let t = to_lower(trim(s));
    if t == "default"@ {
        Some(ModelRole::Default)
    } else if t == "fast"@ {
        Some(ModelRole::Fast)
    } else if t == "deep"@ {
        Some(ModelRole::Deep)
    } else if t == "plan"@ {
        Some(ModelRole::Plan)
    } else if t == "review"@ {
        Some(ModelRole::Review)
    } else if t == "subagent"@ {
        Some(ModelRole::Subagent)
    } else if t == "vision"@ {
        Some(ModelRole::Vision)
    } else if t == "summarizer"@ {
        Some(ModelRole::Summarizer)
    } else {
        None
    }
}

/// A text that names no role.
#[derive(Debug, Clone, PartialEq, Eq)]
pub struct UnknownRole(pub String);

impl UnknownRole {
    /// `unknown model role: <text>`.
    pub fn to_string(&self) -> (r: String)
        ensures
            r@ == "unknown model role: "@ + self.0@,
    {
        let mut s = "unknown model role: ".to_owned();
        crate::text::push_str(&mut s, self.0.as_str());
        s
    }
}

/// Things a role can be taken from: a role itself or its name.
pub trait RoleSource {
    /// The role this value denotes, if any.
    spec fn spec_role(&self) -> Option<ModelRole>;

    /// The text shown when the value names no role.
    spec fn spec_text(&self) -> Seq<char>;

    /// Converts into a role.
    fn into_role(self) -> (r: Result<ModelRole, UnknownRole>)
        ensures
            match r {
                Ok(role) => self.spec_role() == Some(role),
                Err(e) => self.spec_role() is None && e.0@ == self.spec_text(),
            },
    ;
}

impl RoleSource for ModelRole {
    open spec fn spec_role(&self) -> Option<ModelRole> {
        Some(*self)
    }

    open spec fn spec_text(&self) -> Seq<char> {
        self.spec_name()
    }

    fn into_role(self) -> (r: Result<ModelRole, UnknownRole>) {
        Ok(self)
    }
}

impl RoleSource for &str {
    open spec fn spec_role(&self) -> Option<ModelRole> {
        role_of((**self)@)
    }

    open spec fn spec_text(&self) -> Seq<char> {
        (**self)@
    }

    fn into_role(self) -> (r: Result<ModelRole, UnknownRole>) {
        ModelRole::parse(self)
    }
}

impl RoleSource for String {
    open spec fn spec_role(&self) -> Option<ModelRole> {
        role_of((*self)@)
    }

    open spec fn spec_text(&self) -> Seq<char> {
        (*self)@
    }

    fn into_role(self) -> (r: Result<ModelRole, UnknownRole>) {
        ModelRole::parse(self.as_str())
    }
}

/// A provider/model pair serving a role.
#[derive(Debug, Clone, PartialEq, Eq)]
pub struct ModelSelection {
    pub provider: String,
    pub model: String,
    pub role: ModelRole,
}

impl ModelSelection {
    pub fn new(provider: impl IntoText, model: impl IntoText, role: ModelRole) -> (s: Self)
        ensures
            s.provider@ == provider.text_view(),
            s.model@ == model.text_view(),
            s.role == role,
    {
        ModelSelection { provider: provider.into_text(), model: model.into_text(), role }
    }
}

/// Why a catalog operation was refused.
#[derive(Debug, Clone, PartialEq, Eq)]
pub enum ModelCatalogError {
    UnknownRole(UnknownRole),
    UnknownModel(String),
    EmptyProvider,
    EmptyModel,
}

impl ModelCatalogError {
    /// A one-line description of the error.
    pub fn to_string(&self) -> (r: String)
        ensures
            match self {
                ModelCatalogError::UnknownRole(e) => r@ == "unknown model role: "@ + e.0@,
                ModelCatalogError::UnknownModel(m) => r@ == "unknown model: "@ + m@,
                ModelCatalogError::EmptyProvider => r@ == "provider cannot be empty"@,
                ModelCatalogError::EmptyModel => r@ == "model cannot be empty"@,
            },
    {
        match self {
            ModelCatalogError::UnknownRole(e) => e.to_string(),
            ModelCatalogError::UnknownModel(m) => {
                let mut s = "unknown model: ".to_owned();
                crate::text::push_str(&mut s, m.as_str());
                s
            },
            ModelCatalogError::EmptyProvider => "provider cannot be empty".to_owned(),
            ModelCatalogError::EmptyModel => "model cannot be empty".to_owned(),
        }
    }
}

/// One selection per role, in insertion order, plus the active entry.
#[derive(Debug, Clone, Default)]
pub struct ModelCatalog {
    entries: Vec<ModelSelection>,
    active: Option<usize>,
}

/// The index of the first selection at or after `i` serving `role`.
pub open spec fn position_from(entries: Seq<ModelSelection>, role: ModelRole, i: int) -> Option<
    int,
>
    decreases entries.len() - i,
{
    if i < 0 || i >= entries.len() {
        None
    } else if entries[i].role == role {
        Some(i)
    } else {
        position_from(entries, role, i + 1)
    }
}

/// The index of the first selection serving `role`.
pub open spec fn position_of_role(entries: Seq<ModelSelection>, role: ModelRole) -> Option<int> {
    position_from(entries, role, 0)
}

proof fn lemma_position_from(entries: Seq<ModelSelection>, role: ModelRole, start: int, k: int)
    requires
        0 <= start <= k <= entries.len(),
        forall|j: int| start <= j < k ==> entries[j].role != role,
        k < entries.len() ==> entries[k].role == role,
    ensures
        position_from(entries, role, start) == (if k < entries.len() {
            Some(k)
        } else {
            None::<int>
        }),
    decreases k - start,
{
    if start < k {
        lemma_position_from(entries, role, start + 1, k);
    }
}

/// How a selection is listed: `role -> provider / model`, then ` (active)`
/// for the active one.
pub open spec fn selection_line(e: ModelSelection, active: bool) -> Seq<char> {
    e.role.spec_name() + " -> "@ + e.provider@ + " / "@ + e.model@ + if active {
        " (active)"@
    } else {
        Seq::<char>::empty()
    }
}

impl ModelCatalog {
    /// The selections, in order.
    pub closed spec fn spec_entries(&self) -> Seq<ModelSelection> {
        self.entries@
    }

    /// The index of the active selection, when one was selected.
    pub closed spec fn spec_active(&self) -> Option<usize> {
        self.active
    }

    /// No two selections serve the same role, and the active index is in range.
    pub closed spec fn wf(&self) -> bool {
        &&& forall|i: int, j: int|
            0 <= i < j < self.entries@.len() ==> self.entries@[i].role != self.entries@[j].role
        &&& self.active matches Some(a) ==> a < self.entries@.len()
    }

    /// An empty catalog.
    pub fn new() -> (c: Self)
        ensures
            c.wf(),
            c.spec_entries().len() == 0,
            c.spec_active() is None,
    {
        ModelCatalog { entries: Vec::new(), active: None }
    }

    fn find_role(&self, role: ModelRole) -> (r: Option<usize>)
        ensures
            match r {
                Some(i) => i < self.entries@.len() && self.entries@[i as int].role == role
                    && forall|j: int| 0 <= j < i ==> self.entries@[j].role != role,
                None => forall|j: int|
                    0 <= j < self.entries@.len() ==> self.entries@[j].role != role,
            },
    {
        let mut i: usize = 0;
        while i < self.entries.len()
            invariant
                i <= self.entries@.len(),
                forall|j: int| 0 <= j < i ==> self.entries@[j].role != role,
            decreases self.entries@.len() - i,
        {
            if self.entries[i].role == role {
                return Some(i);
            }
            i = i + 1;
        }
        None
    }

    /// Adds a selection, replacing the one serving the same role in place.
    /// Refused when the provider or model is blank.
    pub fn add(&mut self, selection: ModelSelection) -> (r: Result<(), ModelCatalogError>)
        requires
            old(self).wf(),
        ensures
            final(self).wf(),
            trim(selection.provider@).len() == 0 ==> r == Err::<(), ModelCatalogError>(
                ModelCatalogError::EmptyProvider,
            ) && *final(self) == *old(self),
            trim(selection.provider@).len() != 0 && trim(selection.model@).len() == 0 ==> r
                == Err::<(), ModelCatalogError>(ModelCatalogError::EmptyModel) && *final(self)
                == *old(self),
            trim(selection.provider@).len() != 0 && trim(selection.model@).len() != 0 ==> r is Ok
                && final(self).spec_active() == old(self).spec_active() && match position_of_role(
                old(self).spec_entries(),
                selection.role,
            ) {
                Some(i) => final(self).spec_entries() == old(self).spec_entries().update(
                    i,
                    selection,
                ),
                None => final(self).spec_entries() == old(self).spec_entries().push(selection),
            },
    {
        let p = chars_of(selection.provider.as_str());
        if trim_chars(&p).len() == 0 {
            return Err(ModelCatalogError::EmptyProvider);
        }
        let m = chars_of(selection.model.as_str());
        if trim_chars(&m).len() == 0 {
            return Err(ModelCatalogError::EmptyModel);
        }
        let ghost old_entries = self.entries@;
        let role = selection.role;
        match self.find_role(role) {
            Some(i) => {
                proof {
                    lemma_position_from(old_entries, role, 0, i as int);
                }
                self.entries.set(i, selection);
                proof {
                    assert forall|a: int, b: int|
                        0 <= a < b < self.entries@.len() implies self.entries@[a].role
                        != self.entries@[b].role by {
                        if a != i && b != i {
                            assert(old_entries[a].role != old_entries[b].role);
                        } else if a == i {
                            assert(old_entries[a].role != old_entries[b].role);
                        } else {
                            assert(old_entries[a].role != old_entries[b].role);
                        }
                    }
                }
            },
            None => {
                proof {
                    lemma_position_from(old_entries, role, 0, old_entries.len() as int);
                }
                self.entries.push(selection);
                proof {
                    assert forall|a: int, b: int|
                        0 <= a < b < self.entries@.len() implies self.entries@[a].role
                        != self.entries@[b].role by {
                        if b < old_entries.len() {
                            assert(old_entries[a].role != old_entries[b].role);
                        } else {
                            assert(old_entries[a].role != role);
                        }
                    }
                }
            },
        }
        Ok(())
    }

    /// Makes the selection serving `role` active.
    pub fn select_role<R: RoleSource>(&mut self, role: R) -> (r: Result<
        &ModelSelection,
        ModelCatalogError,
    >)
        requires
            old(self).wf(),
        ensures
            final(self).wf(),
            final(self).spec_entries() == old(self).spec_entries(),
            match role.spec_role() {
                None => (r matches Err(ModelCatalogError::UnknownRole(e)) && e.0@ == role.spec_text())
                    && final(self).spec_active() == old(self).spec_active(),
                Some(rl) => match position_of_role(old(self).spec_entries(), rl) {
                    None => (r matches Err(ModelCatalogError::UnknownModel(m)) && m@ == rl.spec_name())
                        && final(self).spec_active() == old(self).spec_active(),
                    Some(i) => r is Ok && final(self).spec_active() == Some(i as usize) && *r->Ok_0
                        == old(self).spec_entries()[i],
                },
            },
    {
        let role = match role.into_role() {
            Ok(r) => r,
            Err(e) => {
                return Err(ModelCatalogError::UnknownRole(e));
            },
        };
        let ghost es = self.entries@;
        match self.find_role(role) {
            Some(i) => {
                proof {
                    lemma_position_from(es, role, 0, i as int);
                }
                self.active = Some(i);
                Ok(&self.entries[i])
            },
            None => {
                proof {
                    lemma_position_from(es, role, 0, es.len() as int);
                }
                Err(ModelCatalogError::UnknownModel(role.to_string()))
            },
        }
    }

    /// The active selection, if one was selected.
    pub fn active(&self) -> (r: Option<&ModelSelection>)
        requires
            self.wf(),
        ensures
            match self.spec_active() {
                Some(i) => r == Some(&self.spec_entries()[i as int]),
                None => r is None,
            },
    {
        match self.active {
            Some(i) => Some(&self.entries[i]),
            None => None,
        }
    }

    /// One line per selection, in order: `role -> provider / model`, the
    /// active one followed by ` (active)`.
    pub fn lines(&self) -> (r: Vec<String>)
        ensures
            crate::text::strs_view(r@) == Seq::new(
                self.spec_entries().len(),
                |i: int| selection_line(self.spec_entries()[i], self.spec_active() == Some(i as usize)),
            ),
    {
        let mut r: Vec<String> = Vec::new();
        let mut i: usize = 0;
        while i < self.entries.len()
            invariant
                i <= self.entries@.len(),
                crate::text::strs_view(r@) == Seq::new(
                    i as nat,
                    |k: int| selection_line(self.entries@[k], self.active == Some(k as usize)),
                ),
            decreases self.entries@.len() - i,
        {
            let e = &self.entries[i];
            let mut line = e.role.to_string();
            crate::text::push_str(&mut line, " -> ");
            crate::text::push_str(&mut line, e.provider.as_str());
            crate::text::push_str(&mut line, " / ");
            crate::text::push_str(&mut line, e.model.as_str());
            let is_active = match self.active {
                Some(a) => a == i,
                None => false,
            };
            if is_active {
                crate::text::push_str(&mut line, " (active)");
            }
            let ghost before = r@;
            r.push(line);
            assert(crate::text::strs_view(r@) =~= Seq::new(
                (i + 1) as nat,
                |k: int| selection_line(self.entries@[k], self.active == Some(k as usize)),
            )) by {
                assert(crate::text::strs_view(before).len() == i);
                assert forall|k: int| 0 <= k < i implies crate::text::strs_view(r@)[k] == selection_line(
                    self.entries@[k],
                    self.active == Some(k as usize),
                ) by {
                    assert(r@[k] == before[k]);
                    assert(crate::text::strs_view(before)[k] == before[k]@);
                }
            }
            i = i + 1;
        }
        r
    }

    /// All selections, in insertion order.
    pub fn list(&self) -> (r: &[ModelSelection])
        ensures
            r@ == self.spec_entries(),
    {
        self.entries.as_slice()
    }

    /// Converts to a role without touching the catalog.
    pub fn validate_role<R: RoleSource>(&self, role: R) -> (r: Result<ModelRole, ModelCatalogError>)
        ensures
            match role.spec_role() {
                Some(rl) => r == Ok::<ModelRole, ModelCatalogError>(rl),
                None => r matches Err(ModelCatalogError::UnknownRole(e)) && e.0@ == role.spec_text(),
            },
    {
        match role.into_role() {
            Ok(r) => Ok(r),
            Err(e) => Err(ModelCatalogError::UnknownRole(e)),
        }
    }

    /// Succeeds when some selection uses the model name.
    pub fn validate_model(&self, model: &str) -> (r: Result<(), ModelCatalogError>)
        ensures
            (exists|i: int|
                0 <= i < self.spec_entries().len() && #[trigger] self.spec_entries()[i].model@
                    == model@) ==> r is Ok,
            !(exists|i: int|
                0 <= i < self.spec_entries().len() && #[trigger] self.spec_entries()[i].model@
                    == model@) ==> (r matches Err(ModelCatalogError::UnknownModel(m)) && m@ == model@),
    {
        let mut i: usize = 0;
        while i < self.entries.len()
            invariant
                i <= self.entries@.len(),
                forall|j: int| 0 <= j < i ==> #[trigger] self.entries@[j].model@ != model@,
            decreases self.entries@.len() - i,
        {
            if crate::text::str_eq(self.entries[i].model.as_str(), model) {
                return Ok(());
            }
            i = i + 1;
        }
        Err(ModelCatalogError::UnknownModel(model.to_owned()))
    }
}

impl std::str::FromStr for ModelRole {
    type Err = UnknownRole;

    fn from_str(value: &str) -> (r: Result<Self, Self::Err>)
        ensures
            match r {
                Ok(role) => role_of(value@) == Some(role),
                Err(e) => role_of(value@) is None && e.0@ == value@,
            },
    {
        ModelRole::parse(value)
    }
}

} // verus!
