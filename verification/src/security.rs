//! Process confinement. The core runs with whatever confinement the process
//! was started with and changes no privilege itself; these entry points say
//! so to the caller, who logs it.

use vstd::prelude::*;

verus! {

/// What became of a request to confine the process.
#[derive(Debug, Clone, Copy, PartialEq, Eq, Structural)]
pub enum Confinement {
    /// Nothing was installed: the mechanism is not wired into the core.
    NotInstalled,
    /// Nothing was loaded: the profile is applied by the service manager
    /// when the unit is installed.
    Deferred,
}

/// Ask for a seccomp filter. The core installs none.
pub fn install_seccomp_filter() -> (status: Confinement)
    ensures
        status == Confinement::NotInstalled,
{
    Confinement::NotInstalled
}

/// Ask for the AppArmor profile. Loading it is left to the service manager.
pub fn load_apparmor_profile() -> (status: Confinement)
    ensures
        status == Confinement::Deferred,
{
    Confinement::Deferred
}

} // verus!
