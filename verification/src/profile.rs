//! Profiles: named provider/model settings, and the choice of provider a
//! profile leads to. Reading and writing the profile file, and fetching
//! secrets, happen outside the library; these functions hold the rules.

use vstd::prelude::*;

verus! {

/// A tool server added to a profile by name and location.
#[derive(Debug, PartialEq)]
pub struct AdditionalSystem {
    pub name: String,
    pub location: String,
}

/// The mathematical shape of an additional system.
#[verifier::ext_equal]
pub struct AdditionalSystemSpec {
    pub name: Seq<char>,
    pub location: Seq<char>,
}

impl DeepView for AdditionalSystem {
    type V = AdditionalSystemSpec;

    open spec fn deep_view(&self) -> AdditionalSystemSpec {
        AdditionalSystemSpec { name: self.name@, location: self.location@ }
    }
}

/// What a profile stores of a provider and model choice.
#[derive(Debug, PartialEq)]
pub struct ProfileRecord {
    pub provider: String,
    pub model: String,
    pub additional_systems: Vec<AdditionalSystem>,
    pub context_limit: Option<usize>,
    pub max_tokens: Option<i32>,
}

/// The mathematical shape of a profile record.
#[verifier::ext_equal]
pub struct ProfileRecordSpec {
    pub provider: Seq<char>,
    pub model: Seq<char>,
    pub additional_systems: Seq<AdditionalSystemSpec>,
    pub context_limit: Option<usize>,
    pub max_tokens: Option<i32>,
}

impl DeepView for ProfileRecord {
    type V = ProfileRecordSpec;

    open spec fn deep_view(&self) -> ProfileRecordSpec {
        ProfileRecordSpec {
            provider: self.provider@,
            model: self.model@,
            additional_systems: self.additional_systems.deep_view(),
            context_limit: self.context_limit,
            max_tokens: self.max_tokens,
        }
    }
}

impl ProfileRecord {
    /// A structurally equal copy of the record.
    pub fn duplicate(&self) -> (r: ProfileRecord)
        ensures
            r.deep_view() == self.deep_view(),
    {
        let mut systems: Vec<AdditionalSystem> = Vec::new();
        let n = self.additional_systems.len();
        let mut i: usize = 0;
        while i < n
            invariant
                i <= n,
                n == self.additional_systems@.len(),
                systems@.len() == i,
                forall|k: int|
                    0 <= k < i ==> (#[trigger] systems@[k]).deep_view()
                        == self.additional_systems@[k].deep_view(),
            decreases n - i,
        {
            let s = &self.additional_systems[i];
            systems.push(AdditionalSystem { name: s.name.clone(), location: s.location.clone() });
            i += 1;
        }
        let r = ProfileRecord {
            provider: self.provider.clone(),
            model: self.model.clone(),
            additional_systems: systems,
            context_limit: self.context_limit,
            max_tokens: self.max_tokens,
        };
        proof {
            assert(r.deep_view().additional_systems =~= self.deep_view().additional_systems);
        }
        r
    }
}

/// The stored profiles: a name-keyed collection whose names never repeat.
pub struct Profiles {
    pub profile_items: Vec<(String, ProfileRecord)>,
}

impl Profiles {
    /// Every profile name appears once.
    pub open spec fn wf(self) -> bool {
        forall|a: int, b: int|
            0 <= a < b < self.profile_items@.len() ==> (#[trigger] self.profile_items@[a]).0@ != (
            #[trigger] self.profile_items@[b]).0@
    }

    /// The position of the profile named `name`, if any.
    pub open spec fn index_of(self, name: Seq<char>) -> Option<int> {
        if exists|k: int|
            0 <= k < self.profile_items@.len() && (#[trigger] self.profile_items@[k]).0@ == name {
            Some(
                choose|k: int|
                    0 <= k < self.profile_items@.len() && (#[trigger] self.profile_items@[k]).0@
                        == name,
            )
        } else {
            None
        }
    }

    /// No profiles stored yet.
    pub fn new() -> (r: Profiles)
        ensures
            r.wf(),
            r.profile_items@.len() == 0,
    {
        Profiles { profile_items: Vec::new() }
    }

    /// The stored record under `name`, if one exists.
    pub fn get<'a>(&'a self, name: &str) -> (r: Option<&'a ProfileRecord>)
        ensures
            match r {
                Some(p) => exists|k: int|
                    0 <= k < self.profile_items@.len() && (#[trigger] self.profile_items@[k]).0@
                        == name@ && self.profile_items@[k].1 == *p,
                None => forall|k: int|
                    0 <= k < self.profile_items@.len() ==> (#[trigger] self.profile_items@[k]).0@
                        != name@,
            },
    {
        let n = self.profile_items.len();
        let mut i: usize = 0;
        while i < n
            invariant
                i <= n,
                n == self.profile_items@.len(),
                forall|k: int| 0 <= k < i ==> (#[trigger] self.profile_items@[k]).0@ != name@,
            decreases n - i,
        {
            if crate::json::str_eq(self.profile_items[i].0.as_str(), name) {
                return Some(&self.profile_items[i].1);
            }
            i += 1;
        }
        None
    }

    /// Stores `record` under `name`: replaces the record of an existing
    /// name, else appends a new entry. Names stay unique.
    pub fn insert(&mut self, name: &str, record: ProfileRecord)
        requires
            old(self).wf(),
        ensures
            final(self).wf(),
            match old(self).index_of(name@) {
                Some(k) => {
                    &&& final(self).profile_items@.len() == old(self).profile_items@.len()
                    &&& final(self).profile_items@[k].0@ == name@
                    &&& final(self).profile_items@[k].1 == record
                    &&& forall|j: int|
                        0 <= j < old(self).profile_items@.len() && j != k ==> final(self).profile_items@[j]
                            == old(self).profile_items@[j]
                },
                None => {
                    &&& final(self).profile_items@.len() == old(self).profile_items@.len() + 1
                    &&& final(self).profile_items@.last().0@ == name@
                    &&& final(self).profile_items@.last().1 == record
                    &&& forall|j: int|
                        0 <= j < old(self).profile_items@.len() ==> final(self).profile_items@[j]
                            == old(self).profile_items@[j]
                },
            },
    {
        let n = self.profile_items.len();
        let mut i: usize = 0;
        while i < n
            invariant
                i <= n,
                n == self.profile_items@.len(),
                self == old(self),
                old(self).wf(),
                forall|k: int| 0 <= k < i ==> (#[trigger] self.profile_items@[k]).0@ != name@,
            decreases n - i,
        {
            if crate::json::str_eq(self.profile_items[i].0.as_str(), name) {
                proof {
                    let k = i as int;
                    assert(0 <= k < self.profile_items@.len() && self.profile_items@[k].0@
                        == name@);
                    assert(old(self).index_of(name@) matches Some(f) && self.profile_items@[f].0@
                        == name@);
                    assert(old(self).index_of(name@) == Some(k)) by {
                        let f = old(self).index_of(name@)->0;
                        if f != k {
                            assert(self.profile_items@[f].0@ != self.profile_items@[k].0@);
                        }
                    }
                }
                self.profile_items[i].1 = record;
                proof {
                    assert(forall|j: int|
                        0 <= j < self.profile_items@.len() ==> (
                        #[trigger] self.profile_items@[j]).0@ == old(
                            self,
                        ).profile_items@[j].0@);
                }
                return ;
            }
            i += 1;
        }
        self.profile_items.push((name.to_owned(), record));
    }

    /// Whether nothing is stored.
    pub fn is_empty(&self) -> (r: bool)
        ensures
            r == (self.profile_items@.len() == 0),
    {
        self.profile_items.len() == 0
    }
}

/// Whether no profile has been stored at all.
pub fn has_no_profiles(profiles: &Profiles) -> (r: bool)
    ensures
        r == (profiles.profile_items@.len() == 0),
{
    profiles.is_empty()
}

/// The stored profile of that name, copied out, as a lookup hands it to a
/// caller that keeps it.
pub fn find_existing_profile(profiles: &Profiles, name: &str) -> (r: Option<ProfileRecord>)
    ensures
        match r {
            Some(p) => exists|k: int|
                0 <= k < profiles.profile_items@.len() && (
                #[trigger] profiles.profile_items@[k]).0@ == name@
                    && profiles.profile_items@[k].1.deep_view() == p.deep_view(),
            None => forall|k: int|
                0 <= k < profiles.profile_items@.len() ==> (
                #[trigger] profiles.profile_items@[k]).0@ != name@,
        },
{
    match profiles.get(name) {
        Some(p) => Some(p.duplicate()),
        None => None,
    }
}

/// The providers a profile can name.
#[derive(Debug, Clone, Copy, PartialEq, Eq, Structural)]
pub enum ProviderKind {
    OpenAi,
    Databricks,
    Ollama,
    Anthropic,
}

/// The code point of `c` with an ASCII capital folded to its small letter.
pub open spec fn lower_code(c: char) -> int {
    if 'A' <= c && c <= 'Z' {
        c as int + 32
    } else {
        c as int
    }
}

/// The two texts agree once ASCII capitals are folded.
pub open spec fn eq_ignore_ascii_case(a: Seq<char>, b: Seq<char>) -> bool {
    a.len() == b.len() && forall|i: int| 0 <= i < a.len() ==> lower_code(a[i]) == lower_code(b[i])
}

/// The provider a (case-insensitive) name picks.
pub open spec fn provider_kind_spec(name: Seq<char>) -> Option<ProviderKind> {
    if eq_ignore_ascii_case(name, "openai"@) {
        Some(ProviderKind::OpenAi)
    } else if eq_ignore_ascii_case(name, "databricks"@) {
        Some(ProviderKind::Databricks)
    } else if eq_ignore_ascii_case(name, "ollama"@) {
        Some(ProviderKind::Ollama)
    } else if eq_ignore_ascii_case(name, "anthropic"@) {
        Some(ProviderKind::Anthropic)
    } else {
        None
    }
}

/// Whether two names agree once ASCII capitals are folded.
fn str_eq_ignore_case(a: &str, b: &str) -> (r: bool)
    ensures
        r == eq_ignore_ascii_case(a@, b@),
{
    let a_len = a.unicode_len();
    let b_len = b.unicode_len();
    if a_len != b_len {
        return false;
    }
    let mut i: usize = 0;
    while i < a_len
        invariant
            i <= a_len,
            a_len == a@.len(),
            a@.len() == b@.len(),
            forall|j: int| 0 <= j < i ==> lower_code(a@[j]) == lower_code(b@[j]),
        decreases a_len - i,
    {
        let ca = a.get_char(i);
        let cb = b.get_char(i);
        let fa: u32 = if 'A' <= ca && ca <= 'Z' {
            ca as u32 + 32
        } else {
            ca as u32
        };
        let fb: u32 = if 'A' <= cb && cb <= 'Z' {
            cb as u32 + 32
        } else {
            cb as u32
        };
        if fa != fb {
            return false;
        }
        i += 1;
    }
    true
}

/// Which provider the profile's name picks, spelled in any case. `None`
/// stands for a name no provider answers to.
pub fn provider_kind_of(name: &str) -> (r: Option<ProviderKind>)
    ensures
        r == provider_kind_spec(name@),
{
    if str_eq_ignore_case(name, "openai") {
        Some(ProviderKind::OpenAi)
    } else if str_eq_ignore_case(name, "databricks") {
        Some(ProviderKind::Databricks)
    } else if str_eq_ignore_case(name, "ollama") {
        Some(ProviderKind::Ollama)
    } else if str_eq_ignore_case(name, "anthropic") {
        Some(ProviderKind::Anthropic)
    } else {
        None
    }
}

} // verus!
