use blonkenrust::button::Button;

fn feed(button: &mut Button, levels: &[bool]) -> Vec<bool> {
    levels.iter().map(|&level| button.was_clicked(level)).collect()
}

#[test]
fn held_press_clicks_once_after_debounce() {
    let mut button = Button::new(false);
    let clicks = feed(&mut button, &[true; 10]);
    assert_eq!(clicks, vec![false, false, false, false, false, true, false, false, false, false]);
    assert!(button.stable_down);
}

#[test]
fn release_is_not_a_click() {
    let mut button = Button::new(true);
    let clicks = feed(&mut button, &[false; 10]);
    assert!(clicks.iter().all(|&c| !c));
    assert!(!button.stable_down);
}

#[test]
fn bounce_restarts_the_wait() {
    let mut button = Button::new(false);
    let clicks = feed(&mut button, &[true, true, false, true, true, true, true, true, true]);
    assert_eq!(clicks, vec![false, false, false, false, false, false, false, false, true]);
}

#[test]
fn short_glitch_is_ignored() {
    let mut button = Button::new(false);
    let clicks = feed(&mut button, &[true, true, true, true, true, false, false, false, false, false, false, false]);
    assert!(clicks.iter().all(|&c| !c));
    assert!(!button.stable_down);
}

#[test]
fn pressed_at_start_needs_release_first() {
    let mut button = Button::new(true);
    assert!(feed(&mut button, &[true; 10]).iter().all(|&c| !c));
    let mut levels = vec![false; 6];
    levels.extend([true; 6]);
    let clicks = feed(&mut button, &levels);
    assert_eq!(clicks.iter().filter(|&&c| c).count(), 1);
    assert!(clicks[11]);
}

#[test]
fn new_button_state() {
    let button = Button::new(true);
    assert_eq!(button, Button { stable_down: true, last_raw_down: true, debounce_ticks: 0 });
}
