//! The stored data: variables, definitions, profiles and the configuration
//! that holds them, each with the mathematical value that contracts speak of.

use vstd::prelude::*;

verus! {

/// One environment variable of a profile.
#[derive(Debug, PartialEq, Eq)]
pub struct EnvironmentVariable {
    pub name: String,
    pub description: Option<String>,
    pub required: bool,
    pub default_value: Option<String>,
}

/// What an [`EnvironmentVariable`] is, as a value of texts and booleans.
pub ghost struct VariableView {
    pub name: Seq<char>,
    pub description: Option<Seq<char>>,
    pub required: bool,
    pub default_value: Option<Seq<char>>,
}

impl View for EnvironmentVariable {
    type V = VariableView;

    open spec fn view(&self) -> VariableView {
        VariableView {
            name: self.name@,
            description: text_view(self.description),
            required: self.required,
            default_value: text_view(self.default_value),
        }
    }
}

/// The text of an optional string.
pub open spec fn text_view(text: Option<String>) -> Option<Seq<char>> {
    match text {
        Some(s) => Some(s@),
        None => None,
    }
}

/// A copy of an optional string.
fn clone_text(text: &Option<String>) -> (copy: Option<String>)
    ensures
        text_view(copy) == text_view(*text),
{
    match text {
        Some(s) => Some(s.clone()),
        None => None,
    }
}

impl Clone for EnvironmentVariable {
    fn clone(&self) -> (copy: Self)
        ensures
            copy@ == self@,
    {
        EnvironmentVariable {
            name: self.name.clone(),
            description: clone_text(&self.description),
            required: self.required,
            default_value: clone_text(&self.default_value),
        }
    }
}

/// One entry of a profile: a single variable, or a named group of them.
#[derive(Debug, PartialEq, Eq)]
pub enum Definition {
    Variable(EnvironmentVariable),
    Group { name: String, members: Vec<EnvironmentVariable> },
}

/// What a [`Definition`] is.
pub ghost enum DefinitionView {
    Variable(VariableView),
    Group { name: Seq<char>, members: Seq<VariableView> },
}

/// The values of a list of variables, in order.
pub open spec fn variables_view(variables: Seq<EnvironmentVariable>) -> Seq<VariableView> {
    variables.map_values(|v: EnvironmentVariable| v@)
}

impl View for Definition {
    type V = DefinitionView;

    open spec fn view(&self) -> DefinitionView {
        match *self {
            Definition::Variable(v) => DefinitionView::Variable(v@),
            Definition::Group { name, members } => DefinitionView::Group {
                name: name@,
                members: variables_view(members@),
            },
        }
    }
}

/// A copy of a list of variables.
fn clone_variables(variables: &Vec<EnvironmentVariable>) -> (copy: Vec<EnvironmentVariable>)
    ensures
        variables_view(copy@) == variables_view(variables@),
{
    let mut copy: Vec<EnvironmentVariable> = Vec::new();
    let mut i: usize = 0;
    while i < variables.len()
        invariant
            i <= variables.len(),
            copy.len() == i,
            forall|j: int| 0 <= j < i ==> copy@[j]@ == variables@[j]@,
        decreases variables.len() - i,
    {
        copy.push(variables[i].clone());
        i += 1;
    }
    copy
}

impl Clone for Definition {
    fn clone(&self) -> (copy: Self)
        ensures
            copy@ == self@,
    {
        match self {
            Definition::Variable(v) => Definition::Variable(v.clone()),
            Definition::Group { name, members } => Definition::Group {
                name: name.clone(),
                members: clone_variables(members),
            },
        }
    }
}

/// A named, ordered list of definitions.
#[derive(Debug, PartialEq, Eq)]
pub struct Profile {
    pub name: String,
    pub description: Option<String>,
    pub definitions: Vec<Definition>,
}

/// What a [`Profile`] is.
pub ghost struct ProfileView {
    pub name: Seq<char>,
    pub description: Option<Seq<char>>,
    pub definitions: Seq<DefinitionView>,
}

/// The values of a list of definitions, in order.
pub open spec fn definitions_view(definitions: Seq<Definition>) -> Seq<DefinitionView> {
    definitions.map_values(|d: Definition| d@)
}

impl View for Profile {
    type V = ProfileView;

    open spec fn view(&self) -> ProfileView {
        ProfileView {
            name: self.name@,
            description: text_view(self.description),
            definitions: definitions_view(self.definitions@),
        }
    }
}

/// A copy of a list of definitions.
fn clone_definitions(definitions: &Vec<Definition>) -> (copy: Vec<Definition>)
    ensures
        definitions_view(copy@) == definitions_view(definitions@),
{
    let mut copy: Vec<Definition> = Vec::new();
    let mut i: usize = 0;
    while i < definitions.len()
        invariant
            i <= definitions.len(),
            copy.len() == i,
            forall|j: int| 0 <= j < i ==> copy@[j]@ == definitions@[j]@,
        decreases definitions.len() - i,
    {
        copy.push(definitions[i].clone());
        i += 1;
    }
    copy
}

impl Clone for Profile {
    fn clone(&self) -> (copy: Self)
        ensures
            copy@ == self@,
    {
        Profile {
            name: self.name.clone(),
            description: clone_text(&self.description),
            definitions: clone_definitions(&self.definitions),
        }
    }
}

/// The default profile and the named ones.
#[derive(Debug, PartialEq, Eq)]
pub struct Config {
    pub default_profile: Profile,
    pub profiles: Vec<Profile>,
}

/// What a [`Config`] is.
pub ghost struct ConfigView {
    pub default_profile: ProfileView,
    pub profiles: Seq<ProfileView>,
}

/// The values of a list of profiles, in order.
pub open spec fn profiles_view(profiles: Seq<Profile>) -> Seq<ProfileView> {
    profiles.map_values(|p: Profile| p@)
}

impl View for Config {
    type V = ConfigView;

    open spec fn view(&self) -> ConfigView {
        ConfigView {
            default_profile: self.default_profile@,
            profiles: profiles_view(self.profiles@),
        }
    }
}

/// A copy of a list of profiles.
fn clone_profiles(profiles: &Vec<Profile>) -> (copy: Vec<Profile>)
    ensures
        profiles_view(copy@) == profiles_view(profiles@),
{
    let mut copy: Vec<Profile> = Vec::new();
    let mut i: usize = 0;
    while i < profiles.len()
        invariant
            i <= profiles.len(),
            copy.len() == i,
            forall|j: int| 0 <= j < i ==> copy@[j]@ == profiles@[j]@,
        decreases profiles.len() - i,
    {
        copy.push(profiles[i].clone());
        i += 1;
    }
    copy
}

impl Clone for Config {
    fn clone(&self) -> (copy: Self)
        ensures
            copy@ == self@,
    {
        Config {
            default_profile: self.default_profile.clone(),
            profiles: clone_profiles(&self.profiles),
        }
    }
}

impl Default for EnvironmentVariable {
    fn default() -> (v: Self)
        ensures
            v@ == (VariableView {
                name: Seq::empty(),
                description: None,
                required: false,
                default_value: None,
            }),
    {
        EnvironmentVariable {
            name: String::new(),
            description: None,
            required: false,
            default_value: None,
        }
    }
}

impl Default for Profile {
    fn default() -> (p: Self)
        ensures
            p@ == ProfileView::named(Seq::empty()),
    {
        let p = Profile { name: String::new(), description: None, definitions: Vec::new() };
        assert(definitions_view(p.definitions@) =~= Seq::empty());
        p
    }
}

impl Default for Config {
    fn default() -> (c: Self)
        ensures
            c@ == ConfigView::empty(),
    {
        let c = Config { default_profile: Profile::default(), profiles: Vec::new() };
        assert(profiles_view(c.profiles@) =~= Seq::empty());
        c
    }
}

impl ProfileView {
    /// The profile of that name with no description and no definitions.
    pub open spec fn named(name: Seq<char>) -> ProfileView {
        ProfileView { name, description: None, definitions: Seq::empty() }
    }
}

impl ConfigView {
    /// The configuration with an unnamed, empty default profile and no others.
    pub open spec fn empty() -> ConfigView {
        ConfigView { default_profile: ProfileView::named(Seq::empty()), profiles: Seq::empty() }
    }
}

} // verus!
