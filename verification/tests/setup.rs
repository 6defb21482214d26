use internal_api::setup::SetupStep;

#[test]
fn server_is_set_up_in_order() {
    let expected = [
        SetupStep::ApplyOptions,
        SetupStep::SetIdentity,
        SetupStep::SetVerification,
        SetupStep::SetPassword,
        SetupStep::MarkReady,
        SetupStep::KeepPassword,
        SetupStep::KeepPassword,
    ];
    let mut step = SetupStep::first();
    for wanted in expected {
        assert!(step == wanted);
        step = step.next();
    }
}
