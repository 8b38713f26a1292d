use colored::control::ShouldColorize;

#[test]
fn normalize_env_returns_none_if_unset() {
    assert_eq!(None, ShouldColorize::normalize_env(None));
}

#[test]
fn normalize_env_returns_some_true_if_not_zero() {
    assert_eq!(Some(true), ShouldColorize::normalize_env(Some(String::from("1"))));
    assert_eq!(Some(true), ShouldColorize::normalize_env(Some(String::from(""))));
    assert_eq!(Some(true), ShouldColorize::normalize_env(Some(String::from("00"))));
}

#[test]
fn normalize_env_returns_some_false_if_zero() {
    assert_eq!(Some(false), ShouldColorize::normalize_env(Some(String::from("0"))));
}

#[test]
fn resolve_clicolor_force_unset_or_zero_force() {
    assert_eq!(None, ShouldColorize::resolve_clicolor_force(None, None));
    assert_eq!(
        None,
        ShouldColorize::resolve_clicolor_force(None, Some(String::from("0")))
    );
}

#[test]
fn resolve_clicolor_force_no_color_wins_when_force_disabled() {
    assert_eq!(
        Some(false),
        ShouldColorize::resolve_clicolor_force(Some(String::from("0")), None)
    );
    assert_eq!(
        Some(false),
        ShouldColorize::resolve_clicolor_force(Some(String::from("1")), None)
    );
    assert_eq!(
        Some(false),
        ShouldColorize::resolve_clicolor_force(Some(String::from("1")), Some(String::from("0")))
    );
}

#[test]
fn resolve_clicolor_force_prioritizes_nonzero_force() {
    assert_eq!(
        Some(true),
        ShouldColorize::resolve_clicolor_force(Some(String::from("1")), Some(String::from("1")))
    );
    assert_eq!(
        Some(true),
        ShouldColorize::resolve_clicolor_force(None, Some(String::from("1")))
    );
}

#[test]
fn default_constructor_colorizes() {
    assert!(ShouldColorize::default().should_colorize());
}

#[test]
fn clicolor_zero_or_no_tty_means_no_colors() {
    let policy = ShouldColorize::from_env_parts(Some(String::from("0")), None, None, true);
    assert!(!policy.should_colorize());
    let policy = ShouldColorize::from_env_parts(None, None, None, false);
    assert!(!policy.should_colorize());
}

#[test]
fn clicolor_nonzero_on_tty_means_colors() {
    let policy = ShouldColorize::from_env_parts(Some(String::from("1")), None, None, true);
    assert!(policy.should_colorize());
}

#[test]
fn unset_clicolor_on_tty_implies_colors() {
    let policy = ShouldColorize::from_env_parts(None, None, None, true);
    assert!(policy.should_colorize());
}

#[test]
fn no_color_forces_off_whatever_clicolor_says() {
    let policy = ShouldColorize::from_env_parts(
        Some(String::from("1")),
        Some(String::from("")),
        None,
        true,
    );
    assert!(!policy.should_colorize());
    // NO_COLOR counts even when set to "0"
    let policy = ShouldColorize::from_env_parts(
        Some(String::from("1")),
        Some(String::from("0")),
        Some(String::from("0")),
        true,
    );
    assert!(!policy.should_colorize());
}

#[test]
fn clicolor_force_forces_on_whatever_else_says() {
    let policy = ShouldColorize::from_env_parts(
        Some(String::from("0")),
        Some(String::from("1")),
        Some(String::from("1")),
        false,
    );
    assert!(policy.should_colorize());
}

#[test]
fn clicolor_force_can_not_force_off() {
    // a "0" force is no signal; NO_COLOR then decides
    let policy = ShouldColorize::from_env_parts(
        Some(String::from("1")),
        None,
        Some(String::from("0")),
        true,
    );
    assert!(policy.should_colorize());
}

#[test]
fn manual_override_wins_over_everything() {
    let mut policy = ShouldColorize::from_env_parts(
        Some(String::from("0")),
        Some(String::from("1")),
        None,
        false,
    );
    assert!(!policy.should_colorize());
    policy.set_override(true);
    assert!(policy.should_colorize());

    let mut policy = ShouldColorize::from_env_parts(None, None, Some(String::from("1")), true);
    assert!(policy.should_colorize());
    policy.set_override(false);
    assert!(!policy.should_colorize());
}

#[test]
fn unset_override_restores_environment_decision() {
    let mut policy = ShouldColorize::from_env_parts(None, None, None, true);
    policy.set_override(false);
    assert!(!policy.should_colorize());
    policy.unset_override();
    assert!(policy.should_colorize());
}
