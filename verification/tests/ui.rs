use saba_core::ui::edit_address;
use saba_core::ui::Click;
use saba_core::ui::Frame;
use saba_core::ui::InputMode;

fn frame() -> Frame {
    Frame { x: 30, y: 50, width: 600, title_bar_height: 24, toolbar_height: 26 }
}

#[test]
fn click_into_the_toolbar_starts_editing_and_clears() {
    let click = frame().classify(100, 50 + 24);
    assert_eq!(click, Click::Toolbar);
    assert_eq!(click.mode(), InputMode::Editing);
    assert!(click.clears());
    assert_eq!(frame().classify(30, 50 + 26), Click::Toolbar);
    assert_eq!(frame().classify(630, 50 + 25), Click::Toolbar);
}

#[test]
fn click_into_the_title_bar_ends_editing() {
    let click = frame().classify(100, 50);
    assert_eq!(click, Click::Elsewhere);
    assert_eq!(click.mode(), InputMode::Normal);
    assert!(!click.clears());
    assert_eq!(frame().classify(100, 50 + 23), Click::Elsewhere);
}

#[test]
fn click_outside_the_strip_starts_editing() {
    for (x, y) in [(29, 60), (631, 60), (100, 49), (100, 50 + 27), (i64::MIN, 0), (0, i64::MAX)] {
        let click = frame().classify(x, y);
        assert_eq!(click, Click::Outside);
        assert_eq!(click.mode(), InputMode::Editing);
        assert!(!click.clears());
    }
}

#[test]
fn keys_edit_the_address() {
    let mut address = String::new();
    edit_address(&mut address, '\u{7f}');
    assert_eq!(address, "");
    for c in "http://a".chars() {
        edit_address(&mut address, c);
    }
    assert_eq!(address, "http://a");
    edit_address(&mut address, '\u{8}');
    assert_eq!(address, "http://");
    edit_address(&mut address, '\u{7f}');
    assert_eq!(address, "http:/");
}
