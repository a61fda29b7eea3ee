//! Failures that the control plane reports.

use vstd::prelude::*;

verus! {

/// A failure of a control-plane operation.
#[derive(Debug)]
pub enum Error {
    /// An interface pattern is not a regular expression that can be used.
    Regex(regex::Error),
    /// The metrics registry refused the counter family, or the family could
    /// not be made.
    Metrics(prometheus::Error),
    /// The VIP table already holds as many addresses as it can; the address
    /// was not added and none was dropped.
    VipTableFull(u32),
}

} // verus!
