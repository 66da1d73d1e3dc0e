use vstd::prelude::*;

verus! {

/// The answer of a policy to a request to run a tool.
#[derive(Debug, Clone, Copy, PartialEq, Eq, Structural)]
pub enum Permission {
    Allow,
    Ask,
    Deny,
}

/// How dangerous a tool operation is; the input of a permission decision.
#[derive(Debug, Clone, Copy, PartialEq, Eq, Structural)]
pub enum Risk {
    /// Only reads, never changes any state (reading files, listing directories).
    ReadOnly,
    /// Changes the file system.
    Write,
    /// Runs an arbitrary command.
    Execute,
}

/// The permission that the policy gives to an operation of the given risk:
/// reads are allowed outright, anything that changes state needs confirmation.
pub open spec fn permission_for(risk: Risk) -> Permission {
    match risk {
        Risk::ReadOnly => Permission::Allow,
        Risk::Write | Risk::Execute => Permission::Ask,
    }
}

/// The fixed permission policy.
#[derive(Debug, Default, Clone, Copy)]
pub struct Policy;

impl Policy {
    pub fn new() -> (p: Self) {
        Policy
    }

    /// Reads are allowed without asking; operations that change state are
    /// confirmed with the user every time.
    pub fn check(&self, risk: Risk) -> (p: Permission)
        ensures
            p == permission_for(risk),
    {
        match risk {
            Risk::ReadOnly => Permission::Allow,
            Risk::Write | Risk::Execute => Permission::Ask,
        }
    }
}

/// The policy never refuses outright: reading is allowed, and everything that
/// changes state is asked about.
pub proof fn law_policy_never_denies(risk: Risk)
    ensures
        permission_for(risk) != Permission::Deny,
        permission_for(risk) == Permission::Allow <==> risk == Risk::ReadOnly,
{
}

} // verus!
