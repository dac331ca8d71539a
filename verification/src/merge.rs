//! Adding a variable to a profile, and settling the conflict when the
//! profile already defines a variable of that name.

use crate::cli::answer_yes_no;
use crate::cli::spec_answer;
use crate::cli::Key;
use crate::error::Error;
use crate::keyed::distinct_keys;
use crate::keyed::has_key;
use crate::keyed::lemma_filter_keeps_distinct;
use crate::keyed::lemma_push_keeps_distinct;
use crate::keyed::lemma_without_key_lacks;
use crate::keyed::without_key;
use crate::types::definitions_view;
use crate::types::Definition;
use crate::types::DefinitionView;
use crate::types::EnvironmentVariable;
use crate::types::Profile;
use crate::types::ProfileView;
use crate::types::VariableView;
use vstd::prelude::*;

verus! {

impl VariableView {
    /// A variable has a name.
    pub open spec fn wf(self) -> bool {
        self.name.len() > 0
    }
}

impl DefinitionView {
    /// A single variable has a name, and so has each member of a group.
    pub open spec fn wf(self) -> bool {
        match self {
            DefinitionView::Variable(v) => v.wf(),
            DefinitionView::Group { members, .. } => forall|i: int|
                0 <= i < members.len() ==> (#[trigger] members[i]).wf(),
        }
    }

    /// The name under which a definition can collide with a new variable:
    /// that of a single variable. A group collides with nothing, whatever
    /// its own name or those of its members.
    pub open spec fn variable_name(self) -> Option<Seq<char>> {
        match self {
            DefinitionView::Variable(v) => Some(v.name),
            DefinitionView::Group { .. } => None,
        }
    }
}

/// The name under which a definition collides; see
/// [`DefinitionView::variable_name`].
pub open spec fn variable_name() -> spec_fn(DefinitionView) -> Option<Seq<char>> {
    |d: DefinitionView| d.variable_name()
}

impl ProfileView {
    /// Whether a single variable of that name is among the definitions.
    /// Names are compared exactly, letter case included.
    pub open spec fn defines(self, name: Seq<char>) -> bool {
        has_key(self.definitions, variable_name(), name)
    }

    /// No two single variables of the profile share a name, and every
    /// variable has one.
    pub open spec fn wf(self) -> bool {
        &&& distinct_keys(self.definitions, variable_name())
        &&& forall|i: int|
            0 <= i < self.definitions.len() ==> (#[trigger] self.definitions[i]).wf()
    }

    /// The profile with `variable` appended as a single variable.
    pub open spec fn append(self, variable: VariableView) -> ProfileView {
        ProfileView {
            definitions: self.definitions.push(DefinitionView::Variable(variable)),
            ..self
        }
    }

    /// The profile with every single variable named like `variable` taken
    /// out, and `variable` appended.
    pub open spec fn replace(self, variable: VariableView) -> ProfileView {
        ProfileView {
            definitions: without_key(self.definitions, variable_name(), variable.name).push(
                DefinitionView::Variable(variable),
            ),
            ..self
        }
    }

    /// The profile after `variable` was offered to it: appended where its
    /// name is free; where it is taken, put in place of the old definition
    /// if `replace` says so, and dropped otherwise.
    pub open spec fn merge(self, variable: VariableView, replace: bool) -> ProfileView {
        if !self.defines(variable.name) {
            self.append(variable)
        } else if replace {
            self.replace(variable)
        } else {
            self
        }
    }

    /// The profile after `variable` was offered to it, where a conflict is
    /// settled by a yes/no prompt that is fed `events`. Without a conflict
    /// nothing is asked and no event is looked at.
    pub open spec fn add(self, variable: VariableView, events: Seq<Option<Key>>) -> Result<
        ProfileView,
        Error,
    > {
        if self.defines(variable.name) {
            match spec_answer(events) {
                Ok(replace) => Ok(self.merge(variable, replace)),
                Err(e) => Err(e),
            }
        } else {
            Ok(self.merge(variable, false))
        }
    }
}

/// The value of a profile that was or was not produced.
pub open spec fn profile_result_view(r: Result<Profile, Error>) -> Result<ProfileView, Error> {
    match r {
        Ok(profile) => Ok(profile@),
        Err(e) => Err(e),
    }
}

impl Definition {
    /// Whether this is the single variable of that name.
    pub fn defines(&self, name: &String) -> (b: bool)
        ensures
            b == (self@.variable_name() == Some(name@)),
    {
        match self {
            Definition::Variable(v) => v.name == *name,
            Definition::Group { .. } => false,
        }
    }
}

impl Profile {
    /// Whether the profile holds a single variable of that name.
    pub fn defines(&self, name: &String) -> (b: bool)
        ensures
            b == self@.defines(name@),
    {
        let ghost defs = definitions_view(self.definitions@);
        let mut i: usize = 0;
        while i < self.definitions.len()
            invariant
                i <= self.definitions.len(),
                defs == definitions_view(self.definitions@),
                forall|j: int| 0 <= j < i ==> (#[trigger] defs[j]).variable_name() != Some(name@),
            decreases self.definitions.len() - i,
        {
            if self.definitions[i].defines(name) {
                assert(variable_name()(defs[i as int]) == Some(name@));
                return true;
            }
            i += 1;
        }
        false
    }

    /// The question that settles a conflict over the variable of that name.
    pub fn replace_prompt(name: &String) -> (prompt: String)
        ensures
            prompt@ == name@ + " is already defined, replace it? "@,
    {
        let mut prompt = name.clone();
        prompt.append(" is already defined, replace it? ");
        prompt
    }

    /// The definitions that are not the single variable of that name, in
    /// their order.
    fn without(&self, name: &String) -> (kept: Vec<Definition>)
        ensures
            definitions_view(kept@) == without_key(
                definitions_view(self.definitions@),
                variable_name(),
                name@,
            ),
    {
        let ghost defs = definitions_view(self.definitions@);
        let ghost keep = crate::keyed::lacks(variable_name(), name@);
        let mut kept: Vec<Definition> = Vec::new();
        let mut i: usize = 0;
        proof {
            reveal(Seq::filter);
        }
        while i < self.definitions.len()
            invariant
                i <= self.definitions.len(),
                defs == definitions_view(self.definitions@),
                keep == crate::keyed::lacks(variable_name(), name@),
                definitions_view(kept@) == defs.take(i as int).filter(keep),
            decreases self.definitions.len() - i,
        {
            proof {
                assert(defs.take(i + 1) == defs.take(i as int).push(defs[i as int]));
                defs.take(i as int).lemma_filter_push(defs[i as int], keep);
            }
            if !self.definitions[i].defines(name) {
                kept.push(self.definitions[i].clone());
            }
            i += 1;
        }
        assert(defs.take(i as int) == defs);
        kept
    }

    /// Offers `to_add` to the profile, with the conflict already settled:
    /// the variable is appended where its name is free; where it is taken,
    /// `replace` decides whether every single variable of that name leaves
    /// and `to_add` is appended, or the profile stays as it is and `to_add`
    /// is dropped.
    pub fn merge(self, to_add: EnvironmentVariable, replace: bool) -> (merged: Profile)
        ensures
            merged@ == self@.merge(to_add@, replace),
            !self@.defines(to_add@.name) ==> merged@.definitions == self@.definitions.push(
                DefinitionView::Variable(to_add@),
            ),
            self@.defines(to_add@.name) && !replace ==> merged@ == self@,
            self@.wf() && to_add@.wf() ==> merged@.wf(),
    {
        proof {
            if self@.wf() && to_add@.wf() {
                lemma_merge_keeps_wf(self@, to_add@, replace);
            }
        }
        let ghost old_definitions = definitions_view(self.definitions@);
        if !self.defines(&to_add.name) {
            let mut definitions = self.definitions;
            definitions.push(Definition::Variable(to_add));
            assert(definitions_view(definitions@) == old_definitions.push(
                DefinitionView::Variable(to_add@),
            ));
            Profile { name: self.name, description: self.description, definitions }
        } else if replace {
            let mut definitions = self.without(&to_add.name);
            let ghost kept = definitions_view(definitions@);
            definitions.push(Definition::Variable(to_add));
            assert(definitions_view(definitions@) == kept.push(DefinitionView::Variable(to_add@)));
            Profile { name: self.name, description: self.description, definitions }
        } else {
            self
        }
    }

    /// Offers `to_add` to the profile. Where the profile already holds a
    /// single variable of that name, a yes/no prompt that is fed `events`
    /// decides whether `to_add` takes its place; a cancelled prompt, or one
    /// whose events run out, interrupts the addition and no profile comes
    /// back. Where the name is free nothing is asked.
    pub fn add(self, to_add: EnvironmentVariable, events: &Vec<Option<Key>>) -> (r: Result<
        Profile,
        Error,
    >)
        ensures
            profile_result_view(r) == self@.add(to_add@, events@),
            !self@.defines(to_add@.name) ==> (r matches Ok(merged) && merged@.definitions
                == self@.definitions.push(DefinitionView::Variable(to_add@))),
            r is Err <==> self@.defines(to_add@.name) && spec_answer(events@) is Err,
            r matches Err(e) ==> e == Error::Interrupted,
            r matches Ok(merged) ==> (self@.wf() && to_add@.wf() ==> merged@.wf()),
    {
        proof {
            crate::cli::lemma_answer_error(events@);
        }
        if self.defines(&to_add.name) {
            match answer_yes_no(Profile::replace_prompt(&to_add.name), events) {
                Ok(replace) => Ok(self.merge(to_add, replace)),
                Err(e) => Err(e),
            }
        } else {
            Ok(self.merge(to_add, false))
        }
    }
}

/// Where the name is free, the variable is appended and nothing else
/// changes, whatever the length of the list and whatever the events.
pub proof fn lemma_add_free_name(
    profile: ProfileView,
    variable: VariableView,
    events: Seq<Option<Key>>,
)
    requires
        !profile.defines(variable.name),
    ensures
        profile.add(variable, events) matches Ok(merged) && merged.definitions
            == profile.definitions.push(DefinitionView::Variable(variable)) && merged.name
            == profile.name && merged.description == profile.description,
{
}

/// Where the name is taken and the answer is no, the profile comes back as
/// it was: the same definitions in the same order.
pub proof fn lemma_add_declined(
    profile: ProfileView,
    variable: VariableView,
    events: Seq<Option<Key>>,
)
    requires
        profile.defines(variable.name),
        spec_answer(events) == Ok::<bool, Error>(false),
    ensures
        profile.add(variable, events) == Ok::<ProfileView, Error>(profile),
{
}

/// Where the name is taken and the answer is yes, the new variable is the
/// last definition and the only single variable of its name; every other
/// definition stays, in its order.
pub proof fn lemma_add_accepted(
    profile: ProfileView,
    variable: VariableView,
    events: Seq<Option<Key>>,
)
    requires
        profile.defines(variable.name),
        spec_answer(events) == Ok::<bool, Error>(true),
    ensures
        profile.add(variable, events) matches Ok(merged) && merged.definitions == without_key(
            profile.definitions,
            variable_name(),
            variable.name,
        ).push(DefinitionView::Variable(variable)) && merged.definitions.last()
            == DefinitionView::Variable(variable) && !has_key(
            merged.definitions.drop_last(),
            variable_name(),
            variable.name,
        ),
{
    let kept = without_key(profile.definitions, variable_name(), variable.name);
    lemma_without_key_lacks(profile.definitions, variable_name(), variable.name);
    assert(kept.push(DefinitionView::Variable(variable)).drop_last() == kept);
}

/// Where the name is taken and the prompt is cancelled, the addition is
/// interrupted and yields no profile.
pub proof fn lemma_add_cancelled(
    profile: ProfileView,
    variable: VariableView,
    events: Seq<Option<Key>>,
    at: int,
)
    requires
        profile.defines(variable.name),
        crate::cli::cancelled_at(events, at),
    ensures
        profile.add(variable, events) == Err::<ProfileView, Error>(Error::Interrupted),
{
    crate::cli::lemma_cancel_interrupts_answer(events, at);
}

/// A merge keeps a profile well formed: the names of its single variables
/// stay distinct, whatever the decision.
pub proof fn lemma_merge_keeps_wf(profile: ProfileView, variable: VariableView, replace: bool)
    requires
        profile.wf(),
        variable.wf(),
    ensures
        profile.merge(variable, replace).wf(),
{
    let key = variable_name();
    let new = DefinitionView::Variable(variable);
    if !profile.defines(variable.name) {
        lemma_push_keeps_distinct(profile.definitions, key, new);
    } else if replace {
        let keep = crate::keyed::lacks(key, variable.name);
        let kept = without_key(profile.definitions, key, variable.name);
        lemma_filter_keeps_distinct(profile.definitions, key, keep);
        lemma_without_key_lacks(profile.definitions, key, variable.name);
        lemma_push_keeps_distinct(kept, key, new);
        assert forall|i: int| 0 <= i < kept.len() implies (#[trigger] kept[i]).wf() by {
            profile.definitions.lemma_filter_contains_rev(keep, kept[i]);
        }
    }
}

} // verus!
