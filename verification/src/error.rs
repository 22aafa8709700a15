use vstd::prelude::*;

verus! {

/// The failures that processing one host can surface.
///
/// A single candidate's failed connection attempt is never one of these: the
/// coordinator absorbs it, and only the race as a whole can fail.
#[derive(Clone, Copy, Debug, PartialEq, Eq, Structural)]
pub enum RaceError {
    /// The host could not be resolved to any candidate address.
    Resolution,
    /// Every candidate address failed to connect.
    AllCandidatesFailed,
    /// The request could not be written to the winning connection.
    Write,
    /// Nothing could be read from the winning connection.
    Read,
}

} // verus!
