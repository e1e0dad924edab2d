use vstd::prelude::*;

use crate::errors::Error;
use crate::types::{EventRecord, ReleaseKind};

verus! {

/// Why a crowdfunding record is refused at creation, if it is: campaigns
/// release in one or more milestones, need a deadline and pay a single
/// position (the builder).
pub open spec fn crowdfunding_create_error(release_kind: ReleaseKind, deadline: Option<u64>, positions: nat) -> Option<Error> {
    if !(release_kind matches ReleaseKind::Multi(n) && n > 0) {
        Some(Error::InvalidReleaseKind)
    } else if deadline is None {
        Some(Error::DeadlineRequired)
    } else if positions != 1 {
        Some(Error::InvalidDistribution)
    } else {
        None
    }
}

/// Checks the pillar-specific rules of a new crowdfunding campaign.
pub fn validate_create(record: &EventRecord) -> (r: Result<(), Error>)
    ensures
        r is Err <==> crowdfunding_create_error(record.release_kind, record.deadline,
            record.winner_distribution.entries@.len()) is Some,
        r matches Err(e) ==> Some(e) == crowdfunding_create_error(record.release_kind, record.deadline,
            record.winner_distribution.entries@.len()),
{
    match record.release_kind {
        ReleaseKind::Multi(n) => if n == 0 {
            return Err(Error::InvalidReleaseKind);
        },
        _ => return Err(Error::InvalidReleaseKind),
    }
    if record.deadline.is_none() {
        return Err(Error::DeadlineRequired);
    }
    if record.winner_distribution.entries.len() != 1 {
        return Err(Error::InvalidDistribution);
    }
    Ok(())
}

} // verus!
