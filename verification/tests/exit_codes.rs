use paddock_core::exit::Exit;

#[test]
fn documented_codes_map_to_their_meaning() {
    assert_eq!(Exit::from_code(0), Exit::Success);
    assert_eq!(Exit::from_code(3), Exit::NoDocker);
    assert_eq!(Exit::from_code(6), Exit::Closed);
    assert_eq!(Exit::from_code(7), Exit::NoSandbox);
}

#[test]
fn undocumented_codes_are_preserved_not_flattened() {
    // `run`/`shell`/`exec` exit with the inner command's code; collapsing
    // 130 into "failed" would lose that Ctrl-C is not a paddock failure.
    assert_eq!(Exit::from_code(130), Exit::Other(130));
}

#[test]
fn only_the_policy_codes_misstate_policy() {
    for code in [0, 1, 2, 3, 4, 7, 130] {
        assert!(!Exit::from_code(code).misstates_policy(), "code {code}");
    }
    assert!(Exit::from_code(5).misstates_policy());
    assert!(Exit::from_code(6).misstates_policy());
}

#[test]
fn every_actionable_code_offers_a_remedy() {
    for code in [3, 4, 5, 6, 7] {
        assert!(Exit::from_code(code).remedy().is_some(), "code {code}");
    }
}

#[test]
fn codes_without_an_action_offer_no_remedy() {
    for code in [0, 1, 2, 8, -1, 130] {
        assert!(Exit::from_code(code).remedy().is_none(), "code {code}");
    }
}

#[test]
fn every_code_reads_back_as_itself() {
    for code in [i32::MIN, -1, 0, 1, 2, 3, 4, 5, 6, 7, 8, 130, i32::MAX] {
        assert_eq!(Exit::from_code(code).code(), code);
    }
}

#[test]
fn an_undocumented_exit_with_a_documented_code_does_not_read_back() {
    // The one input on which reading back the code is not the identity.
    assert_eq!(Exit::Other(3).code(), 3);
    assert_eq!(Exit::from_code(Exit::Other(3).code()), Exit::NoDocker);
}

#[test]
fn only_success_is_ok() {
    assert!(Exit::from_code(0).is_ok());
    for code in [1, 2, 3, 4, 5, 6, 7, 130] {
        assert!(!Exit::from_code(code).is_ok(), "code {code}");
    }
}

#[test]
fn meanings_are_in_the_users_terms() {
    assert_eq!(Exit::Success.meaning(), "succeeded");
    assert_eq!(Exit::Failure.meaning(), "failed");
    assert_eq!(Exit::NoDocker.meaning(), "Docker is not running");
    assert_eq!(Exit::Closed.meaning(), "the egress policy could not be fully applied");
    assert_eq!(Exit::Other(130).meaning(), "failed");
    assert_eq!(Exit::NoDocker.remedy(), Some("Start Docker Desktop, then try again."));
    assert_eq!(Exit::NoSandbox.remedy(), Some("Start the sandbox first."));
}
