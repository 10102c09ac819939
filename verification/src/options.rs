//! The choices that a caller makes for a build.
use vstd::prelude::*;

verus! {

/// How strictly the parser of the description validates what it reads.
#[derive(Clone, Copy, Debug, PartialEq, Eq, PartialOrd, Ord, Structural)]
pub enum SvdValidationLevel {
    Disabled,
    Weak,
    Strict,
}

/// The kind of target that code is generated for.
#[derive(Clone, Copy, Debug, PartialEq, Eq, PartialOrd, Ord, Structural)]
pub enum Target {
    /// Generic access to registers only.
    Generic,
    /// Generic access to registers, and atomic read-modify-write.
    Aurix,
    /// Support for the interrupt vector and the priority bits of the
    /// interrupt controller.
    CortexM,
}

/// What `str::to_lowercase` makes of the text `s`.
pub uninterp spec fn lowercased(s: Seq<char>) -> Seq<char>;

/// `str::to_lowercase`: the text in lower case, as Unicode defines it. The
/// result depends on the text alone; nothing more is claimed of it.
#[verifier::external_body]
fn to_lowercase(s: &str) -> (r: String)
    ensures
        r@ == lowercased(s@),
{
    s.to_lowercase()
}

/// The name of the package that is generated for a device: the name that
/// the caller chooses, or the name of the device in lower case.
pub open spec fn package_name_of(chosen: Option<String>, device_name: Seq<char>) -> Seq<char> {
    match chosen {
        Some(name) => name@,
        None => lowercased(device_name),
    }
}

/// The name of the package that is generated for a device.
pub fn package_name(chosen: &Option<String>, device_name: &str) -> (r: String)
    ensures
        r@ == package_name_of(*chosen, device_name@),
{
    match chosen {
        Some(name) => name.clone(),
        None => to_lowercase(device_name),
    }
}

} // verus!
