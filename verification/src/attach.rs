//! How the packet classifier is attached to an interface.

use vstd::prelude::*;
use vstd::string::*;

verus! {

/// The way in which the classifier is attached to an interface.
#[derive(Debug, Clone, Copy, PartialEq, Eq, Structural)]
pub enum XdpMode {
    /// Whatever the kernel chooses.
    Default,
    /// In the driver of the interface.
    Native,
    /// On the hardware of the interface.
    Hardware,
    /// In the generic path of the kernel, which every interface has.
    Generic,
}

/// What `str::to_lowercase` of the standard library returns for `text`.
pub uninterp spec fn lowercase_of(text: Seq<char>) -> Seq<char>;

/// Calls `str::to_lowercase`. The claim is only that the result depends on
/// the text and on nothing else, so that it can be named.
#[verifier::external_body]
fn to_lowercase(text: &str) -> (lower: String)
    ensures
        lower@ == lowercase_of(text@),
{
    text.to_lowercase()
}

/// The mode that a name in lower case stands for: `native`, `hw` and `skb`
/// name a mode each, and every other text leaves the choice to the kernel.
pub open spec fn mode_named(lower: Seq<char>) -> XdpMode {
    if lower == "native"@ {
        XdpMode::Native
    } else if lower == "hw"@ {
        XdpMode::Hardware
    } else if lower == "skb"@ {
        XdpMode::Generic
    } else {
        XdpMode::Default
    }
}

/// The mode that `lower`, a name in lower case, stands for.
pub fn xdp_mode_named(lower: &str) -> (mode: XdpMode)
    ensures
        mode == mode_named(lower@),
{
    let lower = String::from_str(lower);
    if lower == String::from_str("native") {
        XdpMode::Native
    } else if lower == String::from_str("hw") {
        XdpMode::Hardware
    } else if lower == String::from_str("skb") {
        XdpMode::Generic
    } else {
        XdpMode::Default
    }
}

/// The mode that the configured name stands for, whatever its case.
pub fn get_xdp_mode(mode: &str) -> (chosen: XdpMode)
    ensures
        chosen == mode_named(lowercase_of(mode@)),
{
    let lower = to_lowercase(mode);
    xdp_mode_named(lower.as_str())
}

} // verus!
