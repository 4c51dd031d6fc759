use im_select::command::{decide, Action};
use im_select::input_mode::InputMode;

#[test]
fn no_argument_prints_the_mode() {
    assert_eq!(decide(InputMode::En, None), Action::Print("1".to_string()));
    assert_eq!(decide(InputMode::Zh, None), Action::Print("2".to_string()));
}

#[test]
fn other_mode_switches() {
    assert_eq!(decide(InputMode::Zh, Some("1")), Action::Switch);
    assert_eq!(decide(InputMode::En, Some("2")), Action::Switch);
}

#[test]
fn same_mode_stays() {
    assert_eq!(decide(InputMode::En, Some("1")), Action::Stay);
    assert_eq!(decide(InputMode::Zh, Some("2")), Action::Stay);
}

#[test]
fn bad_argument_stays() {
    for arg in ["", "3", "x", "en", "256"] {
        assert_eq!(decide(InputMode::En, Some(arg)), Action::Stay);
        assert_eq!(decide(InputMode::Zh, Some(arg)), Action::Stay);
    }
}

#[test]
fn request_is_reached_after_one_press() {
    for current in [InputMode::En, InputMode::Zh] {
        for (arg, want) in [("1", InputMode::En), ("2", InputMode::Zh)] {
            let after = match decide(current, Some(arg)) {
                Action::Switch => if current == InputMode::En { InputMode::Zh } else { InputMode::En },
                Action::Stay => current,
                Action::Print(_) => panic!("no print with an argument"),
            };
            assert_eq!(after, want);
        }
    }
}
