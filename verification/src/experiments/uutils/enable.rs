//! Enabling a uutils experiment.

pub mod flow;
pub mod coreutils;
pub mod non_coreutils;
pub mod utils;

use vstd::prelude::*;
use crate::utils::session::all_answered_by;
use crate::error::Result;
use crate::experiments::uutils::model::UutilsExperiment;
use crate::utils::worker::Worker;
use crate::checks::spec_is_supported_distro;
use crate::experiments::uutils::enable::flow::spec_uutils_repo_gate;
use crate::utils::session::{effects_since, extends, Session};

verus! {

/// Enable an experiment (see `UutilsExperiment::enable`).
pub fn enable<W: Worker>(experiment: &UutilsExperiment, session: &mut Session<W>, assume_yes: bool, update_lists: bool) -> (r: Result<()>)
    ensures
        final(session).worker == old(session).worker,
        extends(old(session).effects@, final(session).effects@),
        all_answered_by(&old(session).worker, old(session).effects@) ==> all_answered_by(
            &final(session).worker,
            final(session).effects@,
        ),
        experiment.spec_enable_ran(&old(session).worker, effects_since(old(session).effects@, final(session).effects@), update_lists, r),
        r is Ok ==> (old(session).worker.spec_distribution_id() matches Some(id) && spec_is_supported_distro(id)),
        r is Ok ==> (old(session).worker.spec_extra_repo() matches Some(x) && old(session).worker.spec_aur_helper() matches Some(
            a,
        ) && spec_uutils_repo_gate(experiment.package_name@, x, a, Ok(()))),
{
    experiment.enable(session, assume_yes, update_lists)
}

} // verus!
