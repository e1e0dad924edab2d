use vstd::prelude::*;

use crate::errors::Error;
use crate::types::{EventRecord, ReleaseKind};

verus! {

/// Why a hackathon record is refused at creation, if it is: hackathons pay
/// out once and need a deadline.
pub open spec fn hackathon_create_error(release_kind: ReleaseKind, deadline: Option<u64>) -> Option<Error> {
    if release_kind != ReleaseKind::Single {
        Some(Error::InvalidReleaseKind)
    } else if deadline is None {
        Some(Error::DeadlineRequired)
    } else {
        None
    }
}

/// Checks the pillar-specific rules of a new hackathon.
pub fn validate_create(record: &EventRecord) -> (r: Result<(), Error>)
    ensures
        r is Err <==> hackathon_create_error(record.release_kind, record.deadline) is Some,
        r matches Err(e) ==> Some(e) == hackathon_create_error(record.release_kind, record.deadline),
{
    match record.release_kind {
        ReleaseKind::Single => {},
        _ => return Err(Error::InvalidReleaseKind),
    }
    if record.deadline.is_none() {
        return Err(Error::DeadlineRequired);
    }
    Ok(())
}

} // verus!
