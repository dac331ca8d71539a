//! The whole of adding a variable to a stored configuration.

use crate::cli::Key;
use crate::error::Error;
use crate::types::text_view;
use crate::types::Config;
use crate::types::ConfigView;
use crate::types::EnvironmentVariable;
use crate::types::VariableView;
use vstd::prelude::*;

verus! {

/// The value of a configuration that was or was not produced.
pub open spec fn config_result_view(r: Result<Config, Error>) -> Result<ConfigView, Error> {
    match r {
        Ok(config) => Ok(config@),
        Err(e) => Err(e),
    }
}

/// What adding `variable` to the profile that `profile` addresses makes of
/// `config`.
///
/// Without such a profile the request is invalid. Else the variable is
/// offered to a copy of that profile, a conflict being settled by a yes/no
/// prompt that is fed `events`; an interrupted prompt interrupts the whole.
/// The merged profile then takes the place of the default profile, or is
/// put among the named ones.
pub open spec fn spec_add(
    config: ConfigView,
    profile: Option<Seq<char>>,
    variable: VariableView,
    events: Seq<Option<Key>>,
) -> Result<ConfigView, Error> {
    match config.profile(profile) {
        None => Err(Error::Validation),
        Some(found) => match found.add(variable, events) {
            Err(e) => Err(e),
            Ok(merged) => Ok(config.with_profile(profile, merged)),
        },
    }
}

/// Adds `to_add` to the default profile of `config`, or to the named
/// profile that `profile` gives, and returns the configuration to store.
///
/// Fails with `Validation` where no profile of that name exists, and with
/// `Interrupted` where the variable's name is taken and the prompt that
/// `events` feed is cancelled or runs out of events. In both cases no
/// configuration comes back, so nothing half-decided can be stored.
pub fn add(
    config: Config,
    profile: &Option<String>,
    to_add: EnvironmentVariable,
    events: &Vec<Option<Key>>,
) -> (r: Result<Config, Error>)
    ensures
        config_result_view(r) == spec_add(config@, text_view(*profile), to_add@, events@),
        r matches Err(e) ==> (e == Error::Validation || e == Error::Interrupted) && (e
            == Error::Validation <==> config@.profile(text_view(*profile)) is None),
        r matches Ok(updated) ==> (config@.wf() && to_add@.wf() ==> updated@.wf()),
{
    proof {
        crate::cli::lemma_answer_error(events@);
    }
    let found = match config.profile(profile) {
        Some(found) => found.clone(),
        None => { return Err(Error::Validation); },
    };
    proof {
        if config@.wf() {
            lemma_addressed_profile_wf(config@, text_view(*profile));
        }
    }
    match found.add(to_add, events) {
        Err(e) => Err(e),
        Ok(merged) => Ok(config.with_profile(profile, merged)),
    }
}

/// Every profile that a well-formed configuration hands out is well formed.
pub proof fn lemma_addressed_profile_wf(config: ConfigView, profile: Option<Seq<char>>)
    requires
        config.wf(),
    ensures
        config.profile(profile) matches Some(found) ==> found.wf(),
{
    if let Some(name) = profile {
        if config.has_profile(name) {
            let at = choose|at: int| 0 <= at < config.profiles.len() && crate::config::profile_name()(
                #[trigger] config.profiles[at],
            ) == Some(name);
            crate::config::lemma_first_named_exists(config.profiles, name, at);
        }
    }
}

} // verus!
