//! Configuration: global config, overridden by the project's, overridden
//! by the environment. Secrets (API keys) are never shown: displays use the
//! redacted form. Reading the files and the environment is left to the
//! caller, who hands the values over.

use vstd::prelude::*;

use crate::agent::copy_string;
use crate::skill::unquote;
use crate::text::{chars_of, from_chars, lines, lines_of, starts_with, str_eq, strs_view, trim, IntoText};

verus! {

/// How to reach the model provider.
#[derive(Debug, Clone, PartialEq, Eq)]
pub struct ProviderConfig {
    pub base_url: String,
    pub api_key: Option<String>,
    pub model: String,
}

/// The local custom server's address, used unless configured otherwise.
pub const DEFAULT_BASE_URL: &'static str = "http://localhost:20128/v1";

/// The model used unless configured otherwise.
pub const DEFAULT_MODEL: &'static str = "BomWaktu";

impl Default for ProviderConfig {
    fn default() -> (c: Self)
        ensures
            c.base_url@ == DEFAULT_BASE_URL@,
            c.api_key is None,
            c.model@ == DEFAULT_MODEL@,
    {
        ProviderConfig {
            base_url: DEFAULT_BASE_URL.to_owned(),
            api_key: None,
            model: DEFAULT_MODEL.to_owned(),
        }
    }
}

/// The application configuration.
#[derive(Debug, Clone, PartialEq, Eq)]
pub struct AppConfig {
    pub provider: ProviderConfig,
    /// Role-to-model overrides (e.g. `fast` to `BomWaktu-fast`), one per role.
    pub models: Vec<(String, String)>,
    /// Whether to auto-save learned skills.
    pub auto_improve: bool,
}

impl Default for AppConfig {
    fn default() -> (c: Self)
        ensures
            c.provider.base_url@ == DEFAULT_BASE_URL@,
            c.provider.api_key is None,
            c.provider.model@ == DEFAULT_MODEL@,
            c.models@.len() == 0,
            !c.auto_improve,
    {
        AppConfig { provider: ProviderConfig::default(), models: Vec::new(), auto_improve: false }
    }
}

/// A role-to-model list with one more entry: an existing role's model is
/// replaced in place, a new role goes last.
pub open spec fn assoc_insert(list: Seq<(Seq<char>, Seq<char>)>, k: Seq<char>, v: Seq<char>) -> Seq<
    (Seq<char>, Seq<char>),
>
    decreases list.len(),
{
    if list.len() == 0 {
        seq![(k, v)]
    } else if list[0].0 == k {
        list.update(0, (k, v))
    } else {
        seq![list[0]] + assoc_insert(list.drop_first(), k, v)
    }
}

/// The entries of `more` inserted one by one.
pub open spec fn assoc_merge(list: Seq<(Seq<char>, Seq<char>)>, more: Seq<(Seq<char>, Seq<char>)>) -> Seq<
    (Seq<char>, Seq<char>),
>
    decreases more.len(),
{
    if more.len() == 0 {
        list
    } else {
        assoc_insert(assoc_merge(list, more.drop_last()), more.last().0, more.last().1)
    }
}

/// No role occurs twice.
pub open spec fn unique_keys(list: Seq<(Seq<char>, Seq<char>)>) -> bool {
    forall|i: int, j: int|
        0 <= i < j < list.len() ==> (#[trigger] list[i]).0 != (#[trigger] list[j]).0
}

/// The role occurs in the list.
pub open spec fn has_key(list: Seq<(Seq<char>, Seq<char>)>, k: Seq<char>) -> bool {
    exists|i: int| 0 <= i < list.len() && (#[trigger] list[i]).0 == k
}

/// Inserting keeps every role once, and adds no role but the inserted one.
pub proof fn lemma_insert_keeps_unique(list: Seq<(Seq<char>, Seq<char>)>, k: Seq<char>, v: Seq<char>)
    requires
        unique_keys(list),
    ensures
        unique_keys(assoc_insert(list, k, v)),
        forall|x: Seq<char>| has_key(assoc_insert(list, k, v), x) ==> (x == k || has_key(list, x)),
    decreases list.len(),
{
    let r = assoc_insert(list, k, v);
    if list.len() == 0 {
        assert forall|x: Seq<char>| has_key(r, x) implies (x == k || has_key(list, x)) by {
            let i = choose|i: int| 0 <= i < r.len() && (#[trigger] r[i]).0 == x;
            assert(r[i] == (k, v));
        }
    } else if list[0].0 == k {
        assert forall|x: Seq<char>| has_key(r, x) implies (x == k || has_key(list, x)) by {
            let i = choose|i: int| 0 <= i < r.len() && (#[trigger] r[i]).0 == x;
            if i != 0 {
                assert(list[i].0 == x);
            }
        }
        assert forall|i: int, j: int| 0 <= i < j < r.len() implies (#[trigger] r[i]).0 != (#[trigger] r[j]).0 by {
            assert(r[i].0 == list[i].0);
            assert(r[j].0 == list[j].0);
        }
    } else {
        let rest = list.drop_first();
        assert(unique_keys(rest)) by {
            assert forall|i: int, j: int| 0 <= i < j < rest.len() implies (#[trigger] rest[i]).0 != (#[trigger] rest[j]).0 by {
                assert(rest[i] == list[i + 1]);
                assert(rest[j] == list[j + 1]);
            }
        }
        lemma_insert_keeps_unique(rest, k, v);
        let ri = assoc_insert(rest, k, v);
        assert(r == seq![list[0]] + ri);
        assert(!has_key(ri, list[0].0)) by {
            if has_key(ri, list[0].0) {
                assert(has_key(rest, list[0].0));
                let i = choose|i: int| 0 <= i < rest.len() && (#[trigger] rest[i]).0 == list[0].0;
                assert(list[i + 1] == rest[i]);
                assert(list[0].0 != list[i + 1].0);
            }
        }
        assert forall|i: int, j: int| 0 <= i < j < r.len() implies (#[trigger] r[i]).0 != (#[trigger] r[j]).0 by {
            assert(r[j] == ri[j - 1]);
            if i == 0 {
                assert(r[i] == list[0]);
                if r[j].0 == list[0].0 {
                    assert(has_key(ri, list[0].0));
                }
            } else {
                assert(r[i] == ri[i - 1]);
            }
        }
        assert forall|x: Seq<char>| has_key(r, x) implies (x == k || has_key(list, x)) by {
            let i = choose|i: int| 0 <= i < r.len() && (#[trigger] r[i]).0 == x;
            if i == 0 {
                assert(list[0].0 == x);
            } else {
                assert(ri[i - 1].0 == x);
                assert(has_key(ri, x));
                if x != k {
                    assert(has_key(rest, x));
                    let m = choose|m: int| 0 <= m < rest.len() && (#[trigger] rest[m]).0 == x;
                    assert(list[m + 1] == rest[m]);
                }
            }
        }
    }
}

/// Merging keeps every role once.
pub proof fn lemma_merge_keeps_unique(list: Seq<(Seq<char>, Seq<char>)>, more: Seq<(Seq<char>, Seq<char>)>)
    requires
        unique_keys(list),
    ensures
        unique_keys(assoc_merge(list, more)),
    decreases more.len(),
{
    if more.len() > 0 {
        lemma_merge_keeps_unique(list, more.drop_last());
        lemma_insert_keeps_unique(assoc_merge(list, more.drop_last()), more.last().0, more.last().1);
    }
}

/// The model configured for a role, if any.
pub open spec fn assoc_get(list: Seq<(Seq<char>, Seq<char>)>, k: Seq<char>) -> Option<Seq<char>>
    decreases list.len(),
{
    if list.len() == 0 {
        None
    } else if list[0].0 == k {
        Some(list[0].1)
    } else {
        assoc_get(list.drop_first(), k)
    }
}

/// Role-to-model pairs taken by characters.
pub open spec fn pairs_view(v: Seq<(String, String)>) -> Seq<(Seq<char>, Seq<char>)> {
    v.map_values(|p: (String, String)| (p.0@, p.1@))
}

fn insert_pair(list: &mut Vec<(String, String)>, k: String, v: String)
    ensures
        pairs_view(final(list)@) == assoc_insert(pairs_view(old(list)@), k@, v@),
{
    let ghost ov = pairs_view(list@);
    let mut i: usize = 0;
    assert(ov.skip(0) =~= ov);
    assert(ov.take(0) + assoc_insert(ov, k@, v@) =~= assoc_insert(ov, k@, v@));
    while i < list.len()
        invariant
            *list == *old(list),
            ov == pairs_view(list@),
            i <= list@.len(),
            forall|j: int| 0 <= j < i ==> (#[trigger] list@[j]).0@ != k@,
            assoc_insert(ov, k@, v@) == ov.take(i as int) + assoc_insert(ov.skip(i as int), k@, v@),
        decreases list@.len() - i,
    {
        let ghost rest = ov.skip(i as int);
        assert(rest[0] == ov[i as int]);
        if str_eq(list[i].0.as_str(), k.as_str()) {
            list.set(i, (k, v));
            proof {
                assert(pairs_view(list@) =~= ov.take(i as int) + rest.update(0, (k@, v@)));
            }
            return;
        }
        proof {
            assert(rest.drop_first() =~= ov.skip(i + 1));
            assert(ov.take(i as int) + (seq![rest[0]] + assoc_insert(rest.drop_first(), k@, v@))
                =~= ov.take(i + 1) + assoc_insert(ov.skip(i + 1), k@, v@));
        }
        i = i + 1;
    }
    let ghost before = list@;
    list.push((k, v));
    proof {
        assert(ov.skip(i as int).len() == 0);
        assert(ov.take(i as int) =~= ov);
        assert(pairs_view(list@) =~= pairs_view(before).push((k@, v@)));
        assert(pairs_view(list@) =~= ov.take(i as int) + seq![(k@, v@)]);
    }
}

/// A configured base URL other than the default overrides; so does a
/// configured key, and a configured non-empty model other than the default.
pub open spec fn merged_provider(g: ProviderConfig, p: ProviderConfig) -> (Seq<char>, Option<Seq<char>>, Seq<char>) {
    (
        if p.base_url@ != DEFAULT_BASE_URL@ {
            p.base_url@
        } else {
            g.base_url@
        },
        match p.api_key {
            Some(k) => Some(k@),
            None => match g.api_key {
                Some(k) => Some(k@),
                None => None,
            },
        },
        if p.model@.len() > 0 && p.model@ != DEFAULT_MODEL@ {
            p.model@
        } else {
            g.model@
        },
    )
}

/// The provider settings taken by characters.
pub open spec fn provider_view(c: ProviderConfig) -> (Seq<char>, Option<Seq<char>>, Seq<char>) {
    (c.base_url@, match c.api_key {
        Some(k) => Some(k@),
        None => None,
    }, c.model@)
}

impl AppConfig {
    /// The global configuration overridden by the project's: provider fields
    /// the project sets away from their defaults win, the project's role
    /// models are added over the global ones, and the project's learning
    /// switch wins.
    pub fn merge(global: AppConfig, project: AppConfig) -> (r: AppConfig)
        ensures
            provider_view(r.provider) == merged_provider(global.provider, project.provider),
            pairs_view(r.models@) == assoc_merge(pairs_view(global.models@), pairs_view(project.models@)),
            r.auto_improve == project.auto_improve,
            unique_keys(pairs_view(global.models@)) ==> unique_keys(pairs_view(r.models@)),
    {
        proof {
            if unique_keys(pairs_view(global.models@)) {
                lemma_merge_keeps_unique(pairs_view(global.models@), pairs_view(project.models@));
            }
        }
        let ghost goal = merged_provider(global.provider, project.provider);
        let ghost g_ai = global.auto_improve;
        let mut merged = global;
        let project_url = chars_of(project.provider.base_url.as_str());
        if !crate::text::eq_str(&project_url, DEFAULT_BASE_URL) {
            merged.provider.base_url = project.provider.base_url;
        }
        match project.provider.api_key {
            Some(k) => {
                merged.provider.api_key = Some(k);
            },
            None => {},
        }
        let project_model = chars_of(project.provider.model.as_str());
        if project_model.len() > 0 && !crate::text::eq_str(&project_model, DEFAULT_MODEL) {
            merged.provider.model = project.provider.model;
        }
        let ghost gm = pairs_view(merged.models@);
        let ghost pm = pairs_view(project.models@);
        let mut i: usize = 0;
        while i < project.models.len()
            invariant
                i <= project.models@.len(),
                pm == pairs_view(project.models@),
                provider_view(merged.provider) == goal,
                merged.auto_improve == g_ai,
                pairs_view(merged.models@) == assoc_merge(gm, pm.take(i as int)),
            decreases project.models@.len() - i,
        {
            let (k, v) = &project.models[i];
            insert_pair(&mut merged.models, copy_string(k), copy_string(v));
            assert(pm.take(i + 1).drop_last() =~= pm.take(i as int));
            i = i + 1;
        }
        assert(pm.take(pm.len() as int) =~= pm);
        merged.auto_improve = project.auto_improve;
        merged
    }

    /// The global configuration with the project's merged over it when the
    /// project has a configuration; without one the global stands as it is.
    pub fn merge_optional(global: AppConfig, project: Option<AppConfig>) -> (r: AppConfig)
        ensures
            project is None ==> r == global,
            project matches Some(p) ==> {
                &&& provider_view(r.provider) == merged_provider(global.provider, p.provider)
                &&& pairs_view(r.models@) == assoc_merge(
                    pairs_view(global.models@),
                    pairs_view(p.models@),
                )
                &&& r.auto_improve == p.auto_improve
                &&& unique_keys(pairs_view(global.models@)) ==> unique_keys(pairs_view(r.models@))
            },
    {
        match project {
            Some(p) => AppConfig::merge(global, p),
            None => global,
        }
    }

    /// The configuration with the environment's values on top: a key that is
    /// not blank, a base URL, a model.
    pub fn with_env_overrides(
        self,
        api_key: Option<String>,
        base_url: Option<String>,
        model: Option<String>,
    ) -> (r: AppConfig)
        ensures
            r.provider.api_key == match api_key {
                Some(k) => if trim(k@).len() > 0 {
                    Some(k)
                } else {
                    self.provider.api_key
                },
                None => self.provider.api_key,
            },
            r.provider.base_url == match base_url {
                Some(u) => u,
                None => self.provider.base_url,
            },
            r.provider.model == match model {
                Some(m) => m,
                None => self.provider.model,
            },
            r.models == self.models,
            r.auto_improve == self.auto_improve,
    {
        let mut c = self;
        match api_key {
            Some(k) => {
                let t = crate::text::trim_str(k.as_str());
                if !t.as_str().is_empty() {
                    c.provider.api_key = Some(k);
                }
            },
            None => {},
        }
        match base_url {
            Some(u) => {
                c.provider.base_url = u;
            },
            None => {},
        }
        match model {
            Some(m) => {
                c.provider.model = m;
            },
            None => {},
        }
        c
    }

    /// The configuration as shown: a set key reads `[REDACTED]`.
    pub fn redacted(&self) -> (r: AppConfig)
        ensures
            r.provider.base_url == self.provider.base_url,
            r.provider.model == self.provider.model,
            r.provider.api_key is None <==> self.provider.api_key is None,
            r.provider.api_key matches Some(k) ==> k@ == "[REDACTED]"@,
            pairs_view(r.models@) == pairs_view(self.models@),
            r.auto_improve == self.auto_improve,
    {
        let mut models: Vec<(String, String)> = Vec::new();
        let mut i: usize = 0;
        while i < self.models.len()
            invariant
                i <= self.models@.len(),
                pairs_view(models@) == pairs_view(self.models@).take(i as int),
            decreases self.models@.len() - i,
        {
            let (k, v) = &self.models[i];
            let ghost before = models@;
            models.push((copy_string(k), copy_string(v)));
            assert(pairs_view(models@) =~= pairs_view(before).push((k@, v@)));
            assert(pairs_view(self.models@).take(i + 1) =~= pairs_view(self.models@).take(i as int).push(
                (k@, v@),
            ));
            i = i + 1;
        }
        assert(pairs_view(self.models@).take(self.models@.len() as int) =~= pairs_view(self.models@));
        AppConfig {
            provider: ProviderConfig {
                base_url: copy_string(&self.provider.base_url),
                api_key: match &self.provider.api_key {
                    Some(_) => Some("[REDACTED]".to_owned()),
                    None => None,
                },
                model: copy_string(&self.provider.model),
            },
            models,
            auto_improve: self.auto_improve,
        }
    }
}

/// The assignments of a dotenv file: for each line, once trimmed, that is
/// not empty, not a `#` comment and holds a `=`, the trimmed name before the
/// first `=` and the trimmed, unquoted value after it, when not empty.
pub open spec fn env_assignments(ls: Seq<Seq<char>>) -> Seq<(Seq<char>, Seq<char>)>
    decreases ls.len(),
{
    if ls.len() == 0 {
        seq![]
    } else {
        let rest = env_assignments(ls.drop_last());
        let t = trim(ls.last());
        let eq = crate::text::index_of(t, '=');
        if t.len() == 0 || t[0] == '#' || eq >= t.len() {
            rest
        } else {
            let value = unquote(trim(t.skip(eq + 1)));
            if value.len() == 0 {
                rest
            } else {
                rest.push((trim(t.take(eq)), value))
            }
        }
    }
}

/// Reads the assignments of a dotenv file.
pub fn parse_env_file(content: &str) -> (r: Vec<(String, String)>)
    ensures
        pairs_view(r@) == env_assignments(lines(content@)),
{
    let v = chars_of(content);
    let ls = lines_of(&v);
    let ghost lsv = strs_view(ls@);
    let mut r: Vec<(String, String)> = Vec::new();
    let mut i: usize = 0;
    while i < ls.len()
        invariant
            i <= ls@.len(),
            lsv == strs_view(ls@),
            pairs_view(r@) == env_assignments(lsv.take(i as int)),
        decreases ls@.len() - i,
    {
        proof {
            assert(lsv.take(i + 1).drop_last() =~= lsv.take(i as int));
            assert(lsv.take(i + 1).last() == ls@[i as int]@);
        }
        let lv = chars_of(ls[i].as_str());
        let (a, b) = crate::text::trim_bounds(&lv, 0, lv.len());
        assert(lv@.subrange(0, lv@.len() as int) =~= lv@);
        let t = crate::text::slice_range(&lv, a, b);
        if t.len() > 0 && t[0] != '#' {
            let mut eq: usize = 0;
            while eq < t.len() && t[eq] != '='
                invariant
                    eq <= t@.len(),
                    forall|j: int| 0 <= j < eq ==> t@[j] != '=',
                decreases t@.len() - eq,
            {
                eq = eq + 1;
            }
            proof {
                crate::text::lemma_index_of_from_is(t@, '=', 0, eq as int);
            }
            if eq < t.len() {
                let (c, d) = crate::text::trim_bounds(&t, eq + 1, t.len());
                assert(t@.subrange(eq + 1, t@.len() as int) =~= t@.skip(eq + 1));
                let value_chars = crate::text::slice_range(&t, c, d);
                let value = unquote_chars(&value_chars);
                if !value.as_str().is_empty() {
                    let (e, f) = crate::text::trim_bounds(&t, 0, eq);
                    assert(t@.subrange(0, eq as int) =~= t@.take(eq as int));
                    let key = crate::text::from_range(&t, e, f);
                    let ghost before = r@;
                    r.push((key, value));
                    assert(pairs_view(r@) =~= pairs_view(before).push((trim(t@.take(eq as int)), unquote(trim(t@.skip(eq + 1))))));
                }
            }
        }
        i = i + 1;
    }
    assert(lsv.take(ls@.len() as int) =~= lsv);
    r
}

fn unquote_chars(v: &[char]) -> (r: String)
    ensures
        r@ == unquote(v@),
{
    crate::skill::unquote_text(v)
}

/// After setting a role's model, looking the role up gives that model, and
/// every other role keeps its own: the project's models win over the
/// global ones.
pub proof fn law_role_model_lookup_after_insert(
    list: Seq<(Seq<char>, Seq<char>)>,
    k: Seq<char>,
    v: Seq<char>,
    other: Seq<char>,
)
    ensures
        assoc_get(assoc_insert(list, k, v), k) == Some(v),
        other != k ==> assoc_get(assoc_insert(list, k, v), other) == assoc_get(list, other),
    decreases list.len(),
{
    if list.len() > 0 {
        if list[0].0 == k {
            let u = list.update(0, (k, v));
            assert(u[0] == (k, v));
            assert(u.drop_first() =~= list.drop_first());
            assert(assoc_insert(list, k, v) == u);
        } else {
            law_role_model_lookup_after_insert(list.drop_first(), k, v, other);
            let w = seq![list[0]] + assoc_insert(list.drop_first(), k, v);
            assert(assoc_insert(list, k, v) == w);
            assert(w[0] == list[0]);
            assert((seq![list[0]] + assoc_insert(list.drop_first(), k, v)).drop_first()
                =~= assoc_insert(list.drop_first(), k, v));
        }
    } else {
        let w = seq![(k, v)];
        assert(assoc_insert(list, k, v) == w);
        assert(w[0] == (k, v));
        assert(w.drop_first() =~= Seq::<(Seq<char>, Seq<char>)>::empty());
        assert(assoc_get(w.drop_first(), other) is None);
    }
}

} // verus!
