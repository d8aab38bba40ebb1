use gamekit::messagebox::{FrameInput, MessageBox, MessageBoxResult};

fn idle() -> FrameInput {
    FrameInput {
        over_close: false,
        over_buttons: Vec::new(),
        clicked: false,
        tab: false,
        enter: false,
        escape: false,
    }
}

fn over(button: usize) -> FrameInput {
    let mut flags = vec![false; button + 1];
    flags[button] = true;
    FrameInput { over_buttons: flags, ..idle() }
}

fn click(button: usize) -> FrameInput {
    FrameInput { clicked: true, ..over(button) }
}

fn shown(mut b: MessageBox) -> MessageBox {
    b.show();
    b
}

fn text(s: &str) -> String {
    s.to_string()
}

fn three(default_button: Option<usize>) -> MessageBox {
    MessageBox::new(
        text("t"),
        text("m"),
        vec![text("a"), text("b"), text("c")],
        default_button,
    )
}

#[test]
fn new_box_is_hidden_and_unanswered() {
    let b = three(Some(1));
    assert!(!b.is_visible());
    assert!(!b.is_active());
    assert_eq!(b.get_result(), None);
    assert_eq!(b.selected_button(), Some(1));
    assert_eq!(b.button_count(), 3);
    assert!(b.is_modal());
    assert!(b.has_close_button());
    assert_eq!(b.title(), "t");
    assert_eq!(b.message(), "m");
    assert_eq!(b.button_label(0), Some(&text("a")));
    assert_eq!(b.button_label(2), Some(&text("c")));
    assert_eq!(b.button_label(3), None);
}

#[test]
fn default_button_outside_the_row_is_dropped() {
    assert_eq!(three(Some(2)).selected_button(), Some(2));
    assert_eq!(three(Some(3)).selected_button(), None);
    assert_eq!(three(Some(usize::MAX)).selected_button(), None);
    assert_eq!(three(None).selected_button(), None);
    let empty = MessageBox::new(text("t"), text("m"), Vec::new(), Some(0));
    assert_eq!(empty.selected_button(), None);
    assert_eq!(empty.button_count(), 0);
}

#[test]
fn ready_made_boxes_have_their_buttons() {
    let info = MessageBox::info(text("Information"), text("Done"));
    assert_eq!(info.button_count(), 1);
    assert_eq!(info.button_label(0), Some(&text("OK")));
    assert_eq!(info.selected_button(), Some(0));
    assert_eq!(info.title(), "Information");
    assert_eq!(info.message(), "Done");
    assert!(!info.is_visible());

    let confirm = MessageBox::confirm(text("Out Of Chips"), text("Play again?"));
    assert_eq!(confirm.button_count(), 2);
    assert_eq!(confirm.button_label(0), Some(&text("Yes")));
    assert_eq!(confirm.button_label(1), Some(&text("No")));
    assert_eq!(confirm.selected_button(), Some(0));

    let cancel = MessageBox::confirm_with_cancel(text("Save"), text("Save?"));
    assert_eq!(cancel.button_count(), 3);
    assert_eq!(cancel.button_label(0), Some(&text("Yes")));
    assert_eq!(cancel.button_label(1), Some(&text("No")));
    assert_eq!(cancel.button_label(2), Some(&text("Cancel")));
    assert_eq!(cancel.selected_button(), Some(0));

    let custom = MessageBox::custom(
        text("Difficulty"),
        text("Select:"),
        vec![text("Easy"), text("Normal"), text("Hard"), text("Extreme")],
        Some(1),
    );
    assert_eq!(custom.button_count(), 4);
    assert_eq!(custom.button_label(3), Some(&text("Extreme")));
    assert_eq!(custom.selected_button(), Some(1));
}

#[test]
fn show_selects_the_default_and_forgets_the_answer() {
    let mut b = shown(three(Some(2)));
    assert!(b.is_visible());
    assert!(b.is_active());
    assert_eq!(b.update_and_draw(&over(0)), None);
    assert_eq!(b.selected_button(), Some(0));
    assert_eq!(b.update_and_draw(&FrameInput { escape: true, ..idle() }), Some(MessageBoxResult::Closed));
    assert_eq!(b.get_result(), Some(MessageBoxResult::Closed));
    assert!(!b.is_active());
    b.show();
    assert_eq!(b.get_result(), None);
    assert_eq!(b.selected_button(), Some(2));
    assert!(b.is_active());
}

#[test]
fn dismiss_hides_and_forgets() {
    let mut b = shown(three(Some(0)));
    assert_eq!(b.update_and_draw(&FrameInput { enter: true, ..idle() }), Some(MessageBoxResult::ButtonPressed(0)));
    b.dismiss();
    assert!(!b.is_visible());
    assert_eq!(b.get_result(), None);
    assert_eq!(b.selected_button(), Some(0));
}

#[test]
fn clear_result_keeps_the_box_shown() {
    let mut b = shown(three(None));
    assert_eq!(b.update_and_draw(&click(1)), Some(MessageBoxResult::ButtonPressed(1)));
    b.clear_result();
    assert!(b.is_visible());
    assert!(b.is_active());
    assert_eq!(b.get_result(), None);
    assert_eq!(b.selected_button(), Some(1));
}

#[test]
fn hidden_box_ignores_input() {
    let mut b = three(Some(1));
    let all = FrameInput {
        over_close: true,
        over_buttons: vec![true, true, true],
        clicked: true,
        tab: true,
        enter: true,
        escape: true,
    };
    assert_eq!(b.update_and_draw(&all), None);
    assert_eq!(b.draw(&all), None);
    assert!(!b.process(&all));
    assert_eq!(b.get_result(), None);
    assert_eq!(b.selected_button(), Some(1));
    assert!(!b.is_visible());
}

#[test]
fn idle_frame_changes_nothing() {
    let mut b = shown(three(Some(1)));
    assert_eq!(b.update_and_draw(&idle()), None);
    assert_eq!(b.draw(&idle()), None);
    assert!(!b.process(&idle()));
    assert!(b.is_active());
    assert_eq!(b.selected_button(), Some(1));
}

#[test]
fn close_button_comes_first() {
    let mut b = shown(three(Some(1)));
    let input = FrameInput {
        over_close: true,
        over_buttons: vec![true, false, false],
        clicked: true,
        tab: true,
        enter: true,
        escape: false,
    };
    assert_eq!(b.update_and_draw(&input), Some(MessageBoxResult::Closed));
    // Neither the pointer nor the tab key moved the selection.
    assert_eq!(b.selected_button(), Some(1));
}

#[test]
fn close_button_needs_pointer_click_and_to_be_shown() {
    let mut b = shown(three(None));
    assert_eq!(b.update_and_draw(&FrameInput { over_close: true, ..idle() }), None);
    assert_eq!(b.update_and_draw(&FrameInput { clicked: true, ..idle() }), None);
    b.with_close_button(false);
    assert!(!b.has_close_button());
    assert_eq!(b.update_and_draw(&FrameInput { over_close: true, clicked: true, ..idle() }), None);
    b.with_close_button(true);
    assert_eq!(
        b.update_and_draw(&FrameInput { over_close: true, clicked: true, ..idle() }),
        Some(MessageBoxResult::Closed)
    );
}

#[test]
fn pointer_selects_the_button_under_it() {
    let mut b = shown(three(Some(0)));
    assert_eq!(b.update_and_draw(&over(2)), None);
    assert_eq!(b.selected_button(), Some(2));
    assert_eq!(b.update_and_draw(&idle()), None);
    assert_eq!(b.selected_button(), Some(2));
    // A flag beyond the row of buttons is ignored.
    assert_eq!(b.update_and_draw(&over(3)), None);
    assert_eq!(b.selected_button(), Some(2));
}

#[test]
fn click_presses_the_first_button_under_the_pointer() {
    let mut b = shown(three(None));
    assert_eq!(b.update_and_draw(&click(1)), Some(MessageBoxResult::ButtonPressed(1)));
    assert_eq!(b.selected_button(), Some(1));

    let mut b = shown(three(None));
    let two = FrameInput { over_buttons: vec![false, true, true], clicked: true, ..idle() };
    assert_eq!(b.update_and_draw(&two), Some(MessageBoxResult::ButtonPressed(1)));
    assert_eq!(b.selected_button(), Some(2));

    let mut b = shown(three(None));
    assert_eq!(b.update_and_draw(&click(3)), None);
    assert_eq!(b.update_and_draw(&FrameInput { clicked: true, ..idle() }), None);
}

#[test]
fn click_on_a_button_wins_over_the_keys() {
    let mut b = shown(three(Some(2)));
    let input = FrameInput { tab: true, enter: true, escape: true, ..click(0) };
    assert_eq!(b.update_and_draw(&input), Some(MessageBoxResult::ButtonPressed(0)));
    assert_eq!(b.selected_button(), Some(0));
}

#[test]
fn tab_moves_the_selection_round() {
    let mut b = shown(three(None));
    let tab = FrameInput { tab: true, ..idle() };
    assert_eq!(b.update_and_draw(&tab), None);
    assert_eq!(b.selected_button(), Some(0));
    assert_eq!(b.update_and_draw(&tab), None);
    assert_eq!(b.selected_button(), Some(1));
    assert_eq!(b.update_and_draw(&tab), None);
    assert_eq!(b.selected_button(), Some(2));
    assert_eq!(b.update_and_draw(&tab), None);
    assert_eq!(b.selected_button(), Some(0));
    // The pointer is looked at before the tab key.
    assert_eq!(b.update_and_draw(&FrameInput { tab: true, ..over(1) }), None);
    assert_eq!(b.selected_button(), Some(2));
}

#[test]
fn tab_on_a_box_without_buttons_selects_nothing() {
    let mut b = shown(MessageBox::new(text("t"), text("m"), Vec::new(), None));
    assert_eq!(b.update_and_draw(&FrameInput { tab: true, enter: true, ..idle() }), None);
    assert_eq!(b.selected_button(), None);
    assert_eq!(
        b.update_and_draw(&FrameInput { tab: true, enter: true, escape: true, ..idle() }),
        Some(MessageBoxResult::Closed)
    );
}

#[test]
fn enter_presses_the_selected_button() {
    let mut b = shown(three(Some(1)));
    assert_eq!(b.update_and_draw(&FrameInput { enter: true, ..idle() }), Some(MessageBoxResult::ButtonPressed(1)));

    let mut b = shown(three(None));
    assert_eq!(b.update_and_draw(&FrameInput { enter: true, ..idle() }), None);
    // Tab is looked at before enter.
    assert_eq!(
        b.update_and_draw(&FrameInput { tab: true, enter: true, ..idle() }),
        Some(MessageBoxResult::ButtonPressed(0))
    );

    let mut b = shown(three(Some(2)));
    assert_eq!(
        b.update_and_draw(&FrameInput { tab: true, enter: true, escape: true, ..idle() }),
        Some(MessageBoxResult::ButtonPressed(0))
    );
}

#[test]
fn escape_closes_when_nothing_is_pressed() {
    let mut b = shown(three(None));
    assert_eq!(b.update_and_draw(&FrameInput { escape: true, ..idle() }), Some(MessageBoxResult::Closed));
    let mut b = shown(three(None));
    assert_eq!(
        b.update_and_draw(&FrameInput { enter: true, escape: true, ..idle() }),
        Some(MessageBoxResult::Closed)
    );
}

#[test]
fn an_answer_is_reported_until_it_is_cleared() {
    let mut b = shown(three(None));
    assert_eq!(b.update_and_draw(&click(2)), Some(MessageBoxResult::ButtonPressed(2)));
    assert_eq!(b.update_and_draw(&idle()), Some(MessageBoxResult::ButtonPressed(2)));
    assert_eq!(b.update_and_draw(&FrameInput { escape: true, ..idle() }), Some(MessageBoxResult::Closed));
    b.clear_result();
    assert_eq!(b.update_and_draw(&idle()), None);
}

#[test]
fn draw_reports_once_and_hides() {
    let mut b = shown(MessageBox::confirm(text("Out Of Chips"), text("Play again?")));
    assert_eq!(b.draw(&idle()), None);
    assert!(b.is_visible());
    assert_eq!(b.draw(&click(1)), Some(MessageBoxResult::ButtonPressed(1)));
    assert!(!b.is_visible());
    assert_eq!(b.get_result(), None);
    assert_eq!(b.draw(&click(1)), None);
    assert_eq!(b.draw(&idle()), None);
    b.show();
    assert_eq!(b.draw(&FrameInput { enter: true, ..idle() }), Some(MessageBoxResult::ButtonPressed(0)));
    assert!(!b.is_visible());
}

#[test]
fn process_hides_and_keeps_the_answer() {
    let mut b = shown(MessageBox::info(text("Information"), text("Done")));
    assert!(!b.process(&idle()));
    assert!(b.is_active());
    assert!(b.process(&click(0)));
    assert!(!b.is_visible());
    assert!(!b.is_active());
    assert_eq!(b.get_result(), Some(MessageBoxResult::ButtonPressed(0)));
    assert!(!b.process(&click(0)));
    assert_eq!(b.get_result(), Some(MessageBoxResult::ButtonPressed(0)));
}

#[test]
fn with_modal_is_remembered() {
    let mut b = three(None);
    assert!(b.is_modal());
    b.with_modal(false);
    assert!(!b.is_modal());
    b.show();
    assert!(!b.is_modal());
    assert!(b.has_close_button());
}
