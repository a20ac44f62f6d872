//! The decisions of `init` and `update`: the recorded period and whether a
//! newer one is worth fetching.

use vstd::prelude::*;
use crate::error::Error;
use crate::period::{parse_period_spec, Period};
use crate::text::{trim, trim_spec};

verus! {

/// The name of the file, under the data root, that records the period the
/// data was built from.
pub const PERIOD_FILE: &'static str = ".period";

/// The result of an update.
#[derive(Debug, Clone, Copy, PartialEq, Eq)]
pub enum UpdateOutcome {
    /// The local data is already at the latest period.
    UpToDate(Period),
    /// The local data moved from one period to a later one.
    Updated { from: Period, to: Period },
}

/// What an update does: nothing when the latest published period does not
/// come after the local one, a move to it otherwise.
pub open spec fn plan_update_spec(local: Period, latest: Period) -> UpdateOutcome {
    if local.precedes(latest) {
        UpdateOutcome::Updated { from: local, to: latest }
    } else {
        UpdateOutcome::UpToDate(local)
    }
}

/// Decides an update from the local period and the latest published one.
pub fn plan_update(local: Period, latest: Period) -> (r: UpdateOutcome)
    ensures
        r == plan_update_spec(local, latest),
{
    if local.is_before(&latest) {
        UpdateOutcome::Updated { from: local, to: latest }
    } else {
        UpdateOutcome::UpToDate(local)
    }
}

/// An update never moves backwards: it reports either the local period, when
/// nothing newer is published, or a move from the local period to a later one.
pub proof fn law_update_moves_forward(local: Period, latest: Period)
    ensures
        plan_update_spec(local, latest) matches UpdateOutcome::Updated { from, to } ==> from
            == local && to == latest && from.precedes(to),
        plan_update_spec(local, latest) matches UpdateOutcome::UpToDate(p) ==> p == local
            && !local.precedes(latest),
{
}

/// Reads the period recorded in the period file: its text without
/// surrounding white space, written `YYYY-MM`.
pub fn parse_period_file(contents: &str) -> (r: Result<Period, Error>)
    ensures
        r is Err <==> parse_period_spec(trim_spec(contents@)) is None,
        r matches Ok(p) ==> parse_period_spec(trim_spec(contents@)) == Some(p),
        r matches Err(e) ==> (e matches Error::InvalidPeriod(t) && t@ == trim_spec(contents@)),
{
    let t = trim(contents);
    Period::parse(t.as_str())
}

/// The error of an `init` over existing data: the companies directory is
/// already there, and `update` is the command for it.
pub fn already_initialized(companies_dir: &str) -> (r: Error)
    ensures
        r matches Error::MissingData(m) && m@ == companies_dir@
            + " já existe — use `update` em vez de `init`"@,
{
    let mut m = String::from_str(companies_dir);
    m.append(" já existe — use `update` em vez de `init`");
    Error::MissingData(m)
}

} // verus!
