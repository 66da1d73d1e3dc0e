use midna::permissions::{Permission, Policy, Risk};

#[test]
fn read_only_is_allowed_without_asking() {
    assert_eq!(Policy::new().check(Risk::ReadOnly), Permission::Allow);
}

#[test]
fn state_changing_operations_require_confirmation() {
    let policy = Policy::new();
    assert_eq!(policy.check(Risk::Write), Permission::Ask);
    assert_eq!(policy.check(Risk::Execute), Permission::Ask);
}

#[test]
fn policy_never_denies_any_risk() {
    let policy = Policy::new();
    for risk in [Risk::ReadOnly, Risk::Write, Risk::Execute] {
        assert_ne!(policy.check(risk), Permission::Deny);
    }
}
