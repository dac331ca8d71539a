//! Looking up, replacing and adding the profiles of a configuration.

use crate::keyed::distinct_keys;
use crate::keyed::has_key;
use crate::keyed::lacks;
use crate::keyed::lemma_filter_keeps_distinct;
use crate::keyed::lemma_push_keeps_distinct;
use crate::keyed::lemma_without_key_lacks;
use crate::keyed::without_key;
use crate::types::profiles_view;
use crate::types::text_view;
use crate::types::Config;
use crate::types::ConfigView;
use crate::types::Profile;
use crate::types::ProfileView;
use vstd::prelude::*;

verus! {

/// The key of a named profile: its name.
pub open spec fn profile_name() -> spec_fn(ProfileView) -> Option<Seq<char>> {
    |p: ProfileView| Some(p.name)
}

/// The value of a profile that was or was not found.
pub open spec fn profile_view(found: Option<&Profile>) -> Option<ProfileView> {
    match found {
        Some(profile) => Some(profile@),
        None => None,
    }
}

/// Whether `profiles[at]` is the first profile of that name.
pub open spec fn first_named(profiles: Seq<Profile>, name: Seq<char>, at: int) -> bool {
    &&& 0 <= at < profiles.len()
    &&& profiles[at].name@ == name
    &&& forall|j: int| 0 <= j < at ==> (#[trigger] profiles[j]).name@ != name
}

/// Whether `profiles[at]` is the first profile value of that name.
pub open spec fn first_named_view(profiles: Seq<ProfileView>, name: Seq<char>, at: int) -> bool {
    &&& 0 <= at < profiles.len()
    &&& profiles[at].name == name
    &&& forall|j: int| 0 <= j < at ==> (#[trigger] profiles[j]).name != name
}

impl ConfigView {
    /// Whether a named profile of that name exists.
    pub open spec fn has_profile(self, name: Seq<char>) -> bool {
        has_key(self.profiles, profile_name(), name)
    }

    /// The profile that a command addresses: the default profile where no
    /// name is given, else the first named profile of that name, if any.
    pub open spec fn profile(self, name: Option<Seq<char>>) -> Option<ProfileView> {
        match name {
            None => Some(self.default_profile),
            Some(name) => if self.has_profile(name) {
                Some(self.profiles[choose|at: int| first_named_view(self.profiles, name, at)])
            } else {
                None
            },
        }
    }

    /// No two named profiles share a name, and every profile, the default
    /// one included, is well formed.
    pub open spec fn wf(self) -> bool {
        &&& distinct_keys(self.profiles, profile_name())
        &&& self.default_profile.wf()
        &&& forall|i: int| 0 <= i < self.profiles.len() ==> (#[trigger] self.profiles[i]).wf()
    }

    /// The configuration with `profile` as its default profile.
    pub open spec fn update_default_profile(self, profile: ProfileView) -> ConfigView {
        ConfigView { default_profile: profile, ..self }
    }

    /// The configuration with every named profile called like `profile`
    /// taken out, and `profile` appended.
    pub open spec fn upsert_profile(self, profile: ProfileView) -> ConfigView {
        ConfigView {
            profiles: without_key(self.profiles, profile_name(), profile.name).push(profile),
            ..self
        }
    }

    /// The configuration with `profile` in the place that `target`
    /// addresses: that of the default profile where no name is given, else
    /// among the named profiles.
    pub open spec fn with_profile(self, target: Option<Seq<char>>, profile: ProfileView) -> ConfigView {
        if target is Some {
            self.upsert_profile(profile)
        } else {
            self.update_default_profile(profile)
        }
    }

    /// The configuration with an empty profile of that name appended, or as
    /// it is where a profile of that name exists.
    pub open spec fn add_profile(self, name: Seq<char>) -> ConfigView {
        if self.has_profile(name) {
            self
        } else {
            ConfigView { profiles: self.profiles.push(ProfileView::named(name)), ..self }
        }
    }
}

impl Config {
    /// The profile that a command addresses: the default profile where no
    /// name is given, else the first named profile of that name, if any.
    pub fn profile<'a>(&'a self, name: &Option<String>) -> (found: Option<&'a Profile>)
        ensures
            profile_view(found) == self@.profile(text_view(*name)),
            match *name {
                None => found == Some(&self.default_profile),
                Some(name) => match found {
                    Some(profile) => exists|at: int|
                        first_named(self.profiles@, name@, at) && *profile == self.profiles@[at],
                    None => !self@.has_profile(name@),
                },
            },
    {
        match name {
            None => Some(&self.default_profile),
            Some(wanted) => {
                let ghost views = profiles_view(self.profiles@);
                let mut i: usize = 0;
                while i < self.profiles.len()
                    invariant
                        i <= self.profiles.len(),
                        *name == Some(*wanted),
                        views == profiles_view(self.profiles@),
                        forall|j: int|
                            0 <= j < i ==> (#[trigger] self.profiles@[j]).name@ != wanted@,
                    decreases self.profiles.len() - i,
                {
                    if self.profiles[i].name == *wanted {
                        assert(first_named(self.profiles@, wanted@, i as int));
                        proof {
                            assert(first_named_view(views, wanted@, i as int));
                            lemma_profile_is_first(self@, wanted@, i as int);
                        }
                        return Some(&self.profiles[i]);
                    }
                    i += 1;
                }
                assert(!has_key(views, profile_name(), wanted@));
                None
            },
        }
    }

    /// Whether a named profile of that name exists.
    pub fn has_profile(&self, name: &String) -> (b: bool)
        ensures
            b == self@.has_profile(name@),
    {
        let ghost views = profiles_view(self.profiles@);
        let mut i: usize = 0;
        while i < self.profiles.len()
            invariant
                i <= self.profiles.len(),
                views == profiles_view(self.profiles@),
                forall|j: int| 0 <= j < i ==> (#[trigger] views[j]).name != name@,
            decreases self.profiles.len() - i,
        {
            if self.profiles[i].name == *name {
                assert(profile_name()(views[i as int]) == Some(name@));
                return true;
            }
            i += 1;
        }
        false
    }

    /// Puts `default_profile` in place of the default profile.
    pub fn update_default_profile(self, default_profile: Profile) -> (updated: Config)
        ensures
            updated@ == self@.update_default_profile(default_profile@),
            self@.wf() && default_profile@.wf() ==> updated@.wf(),
    {
        Config { default_profile, profiles: self.profiles }
    }

    /// The named profiles that are not called `name`, in their order.
    fn without(&self, name: &String) -> (kept: Vec<Profile>)
        ensures
            profiles_view(kept@) == without_key(profiles_view(self.profiles@), profile_name(), name@),
    {
        let ghost views = profiles_view(self.profiles@);
        let ghost keep = lacks(profile_name(), name@);
        let mut kept: Vec<Profile> = Vec::new();
        let mut i: usize = 0;
        proof {
            reveal(Seq::filter);
        }
        while i < self.profiles.len()
            invariant
                i <= self.profiles.len(),
                views == profiles_view(self.profiles@),
                keep == lacks(profile_name(), name@),
                profiles_view(kept@) == views.take(i as int).filter(keep),
            decreases self.profiles.len() - i,
        {
            proof {
                assert(views.take(i + 1) == views.take(i as int).push(views[i as int]));
                views.take(i as int).lemma_filter_push(views[i as int], keep);
            }
            if self.profiles[i].name != *name {
                kept.push(self.profiles[i].clone());
            }
            i += 1;
        }
        assert(views.take(i as int) == views);
        kept
    }

    /// Puts `to_upsert` among the named profiles: every profile of its name
    /// leaves, the others keep their order, and `to_upsert` is appended.
    pub fn upsert_profile(self, to_upsert: Profile) -> (updated: Config)
        ensures
            updated@ == self@.upsert_profile(to_upsert@),
            self@.wf() && to_upsert@.wf() ==> updated@.wf(),
    {
        proof {
            if self@.wf() && to_upsert@.wf() {
                lemma_upsert_keeps_wf(self@, to_upsert@);
            }
        }
        let mut profiles = self.without(&to_upsert.name);
        let ghost kept = profiles_view(profiles@);
        profiles.push(to_upsert);
        assert(profiles_view(profiles@) == kept.push(to_upsert@));
        Config { default_profile: self.default_profile, profiles }
    }

    /// Puts `profile` in the place that `target` addresses: that of the
    /// default profile where no name is given, else among the named
    /// profiles, under the name that `profile` itself has.
    pub fn with_profile(self, target: &Option<String>, profile: Profile) -> (updated: Config)
        ensures
            updated@ == self@.with_profile(text_view(*target), profile@),
            self@.wf() && profile@.wf() ==> updated@.wf(),
    {
        if target.is_some() {
            self.upsert_profile(profile)
        } else {
            self.update_default_profile(profile)
        }
    }

    /// Appends an empty profile of that name, unless a profile of that name
    /// exists: then the configuration stays as it is.
    pub fn add_profile(self, name: String) -> (updated: Config)
        ensures
            updated@ == self@.add_profile(name@),
            self@.wf() ==> updated@.wf(),
    {
        if self.has_profile(&name) {
            self
        } else {
            proof {
                if self@.wf() {
                    lemma_push_keeps_distinct(
                        self@.profiles,
                        profile_name(),
                        ProfileView::named(name@),
                    );
                }
            }
            let ghost before = profiles_view(self.profiles@);
            let mut profiles = self.profiles;
            let added = Profile { name, description: None, definitions: Vec::new() };
            assert(added@.definitions == Seq::<crate::types::DefinitionView>::empty());
            profiles.push(added);
            assert(profiles_view(profiles@) == before.push(added@));
            Config { default_profile: self.default_profile, profiles }
        }
    }

    /// The names under which profiles are listed: "default" for the default
    /// profile, then the names of the named profiles in their order.
    pub fn profile_names(&self) -> (names: Vec<String>)
        ensures
            names.len() == self.profiles.len() + 1,
            names@[0]@ == "default"@,
            forall|i: int| 0 <= i < self.profiles.len() ==> names@[i + 1]@ == self.profiles@[i].name@,
    {
        let mut names: Vec<String> = Vec::new();
        names.push("default".to_owned());
        let mut i: usize = 0;
        while i < self.profiles.len()
            invariant
                i <= self.profiles.len(),
                names.len() == i + 1,
                names@[0]@ == "default"@,
                forall|j: int| 0 <= j < i ==> names@[j + 1]@ == self.profiles@[j].name@,
            decreases self.profiles.len() - i,
        {
            names.push(self.profiles[i].name.clone());
            i += 1;
        }
        names
    }
}

/// The profile that a name addresses is the first of that name, and no
/// other.
pub proof fn lemma_profile_is_first(config: ConfigView, name: Seq<char>, at: int)
    requires
        first_named_view(config.profiles, name, at),
    ensures
        config.profile(Some(name)) == Some(config.profiles[at]),
{
    assert(profile_name()(config.profiles[at]) == Some(name));
    let chosen = choose|first: int| first_named_view(config.profiles, name, first);
    assert(chosen == at);
}

/// Where some profile carries the name, one of them is the first.
pub proof fn lemma_first_named_exists(profiles: Seq<ProfileView>, name: Seq<char>, at: int)
    requires
        0 <= at < profiles.len(),
        profiles[at].name == name,
    ensures
        exists|first: int| first_named_view(profiles, name, first),
    decreases at,
{
    if exists|j: int| 0 <= j < at && (#[trigger] profiles[j]).name == name {
        let j = choose|j: int| 0 <= j < at && (#[trigger] profiles[j]).name == name;
        lemma_first_named_exists(profiles, name, j);
    } else {
        assert(first_named_view(profiles, name, at));
    }
}

/// An upsert keeps a configuration well formed.
pub proof fn lemma_upsert_keeps_wf(config: ConfigView, profile: ProfileView)
    requires
        config.wf(),
        profile.wf(),
    ensures
        config.upsert_profile(profile).wf(),
{
    let key = profile_name();
    let kept = without_key(config.profiles, key, profile.name);
    lemma_filter_keeps_distinct(config.profiles, key, lacks(key, profile.name));
    lemma_without_key_lacks(config.profiles, key, profile.name);
    lemma_push_keeps_distinct(kept, key, profile);
    let out = kept.push(profile);
    assert forall|i: int| 0 <= i < out.len() implies (#[trigger] out[i]).wf() by {
        if i < kept.len() {
            config.profiles.lemma_filter_contains_rev(lacks(key, profile.name), kept[i]);
        }
    }
}

} // verus!
