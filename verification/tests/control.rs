use studiox_switcher::control::{active_path, control_action, ControlAction, ControlArg};
use studiox_switcher::naming::{decimal_string, signed_decimal_string};

#[test]
fn state_without_arguments_reports() {
    assert_eq!(control_action("/state", &[]), ControlAction::ShowState);
}

#[test]
fn state_with_arguments_is_ignored() {
    assert_eq!(control_action("/state", &[ControlArg::Int(1)]), ControlAction::Ignore);
}

#[test]
fn switcher_with_two_integers_sets_a_gate() {
    assert_eq!(
        control_action("/switcher", &[ControlArg::Int(2), ControlArg::Int(1)]),
        ControlAction::SetActive { channel: 2, active: 1 }
    );
    assert_eq!(
        control_action("/switcher", &[ControlArg::Int(-3), ControlArg::Int(0)]),
        ControlAction::SetActive { channel: -3, active: 0 }
    );
}

#[test]
fn switcher_with_other_arguments_is_ignored() {
    assert_eq!(control_action("/switcher", &[]), ControlAction::Ignore);
    assert_eq!(control_action("/switcher", &[ControlArg::Int(2)]), ControlAction::Ignore);
    assert_eq!(
        control_action("/switcher", &[ControlArg::Int(2), ControlArg::Other]),
        ControlAction::Ignore
    );
    assert_eq!(
        control_action("/switcher", &[ControlArg::Other, ControlArg::Int(2)]),
        ControlAction::Ignore
    );
    assert_eq!(
        control_action(
            "/switcher",
            &[ControlArg::Int(2), ControlArg::Int(1), ControlArg::Int(0)]
        ),
        ControlAction::Ignore
    );
}

#[test]
fn other_addresses_are_ignored() {
    assert_eq!(control_action("/volume", &[]), ControlAction::Ignore);
    assert_eq!(control_action("", &[]), ControlAction::Ignore);
    assert_eq!(control_action("/state/", &[]), ControlAction::Ignore);
    assert_eq!(
        control_action("/Switcher", &[ControlArg::Int(2), ControlArg::Int(1)]),
        ControlAction::Ignore
    );
}

#[test]
fn gate_paths_name_the_channel() {
    assert_eq!(active_path(0), "active/0");
    assert_eq!(active_path(7), "active/7");
    assert_eq!(active_path(12), "active/12");
    assert_eq!(active_path(-1), "active/-1");
    assert_eq!(active_path(i32::MAX), "active/2147483647");
    assert_eq!(active_path(i32::MIN), "active/-2147483648");
}

#[test]
fn decimal_matches_the_standard_rendering() {
    for n in [0usize, 1, 9, 10, 11, 99, 100, 101, 999, 1000, 65535, 1234567890] {
        assert_eq!(decimal_string(n), n.to_string());
    }
    assert_eq!(decimal_string(usize::MAX), usize::MAX.to_string());
    for n in [0i32, 5, -5, 10, -10, 12345, -12345, i32::MAX, i32::MIN] {
        assert_eq!(signed_decimal_string(n), n.to_string());
    }
}
