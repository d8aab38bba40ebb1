//! The decisions of a modal message box: which button is selected, and when
//! the box is answered or closed.
//!
//! Drawing and measuring are left to the caller. Once per frame the caller
//! reports where the pointer is and which keys went down, and the box says
//! what follows.

use vstd::prelude::*;

verus! {

/// How a message box was answered.
#[derive(Clone, Copy, Debug, PartialEq, Eq, Structural)]
pub enum MessageBoxResult {
    /// The button with this index was pressed.
    ButtonPressed(usize),
    /// The box was closed with its close button or the escape key.
    Closed,
}

/// What happened during one frame.
#[derive(Debug)]
pub struct FrameInput {
    /// The pointer is over the close button.
    pub over_close: bool,
    /// For each button, whether the pointer is over it. Missing entries count
    /// as `false`.
    pub over_buttons: Vec<bool>,
    /// The left mouse button went down.
    pub clicked: bool,
    /// The tab key went down.
    pub tab: bool,
    /// The enter key went down.
    pub enter: bool,
    /// The escape key went down.
    pub escape: bool,
}

/// What the decisions of a message box depend on.
pub struct MessageBoxView {
    pub visible: bool,
    pub title: Seq<char>,
    pub message: Seq<char>,
    pub buttons: Seq<Seq<char>>,
    pub default_button: Option<usize>,
    pub selected_button: Option<usize>,
    pub show_close_button: bool,
    pub modal: bool,
    pub result: Option<MessageBoxResult>,
}

/// A message box with a title, a message and a row of buttons.
#[derive(Debug)]
pub struct MessageBox {
    visible: bool,
    title: String,
    message: String,
    buttons: Vec<String>,
    default_button: Option<usize>,
    selected_button: Option<usize>,
    show_close_button: bool,
    modal: bool,
    result: Option<MessageBoxResult>,
}

/// The texts of a row of buttons.
pub open spec fn labels(buttons: Seq<String>) -> Seq<Seq<char>> {
    Seq::new(buttons.len(), |i: int| buttons[i]@)
}

/// The default button, if it names one of `count` buttons.
pub open spec fn valid_default(default_button: Option<usize>, count: nat) -> Option<usize> {
    match default_button {
        Some(index) if index < count => Some(index),
        _ => None,
    }
}

/// A box as `new` makes it: hidden, unanswered, modal, with a close button,
/// and with the default button selected.
pub open spec fn fresh(
    title: Seq<char>,
    message: Seq<char>,
    buttons: Seq<Seq<char>>,
    default_button: Option<usize>,
) -> MessageBoxView {
    MessageBoxView {
        visible: false,
        title,
        message,
        buttons,
        default_button: valid_default(default_button, buttons.len()),
        selected_button: valid_default(default_button, buttons.len()),
        show_close_button: true,
        modal: true,
        result: None,
    }
}

/// The default and the selected button, where there is one, are buttons of
/// the box, and the buttons can be counted in a machine integer.
pub open spec fn well_formed(v: MessageBoxView) -> bool {
    &&& v.buttons.len() <= usize::MAX
    &&& v.default_button matches Some(index) ==> index < v.buttons.len()
    &&& v.selected_button matches Some(index) ==> index < v.buttons.len()
}

/// Whether the pointer is over button `index`.
pub open spec fn hover_at(input: FrameInput, index: int) -> bool {
    0 <= index < input.over_buttons@.len() && input.over_buttons@[index]
}

/// The last of the first `count` buttons that the pointer is over.
pub open spec fn last_hover(input: FrameInput, count: int) -> Option<usize>
    decreases count,
{
    if count <= 0 {
        None
    } else if hover_at(input, count - 1) {
        Some((count - 1) as usize)
    } else {
        last_hover(input, count - 1)
    }
}

/// The first of the first `count` buttons that the pointer is over.
pub open spec fn first_hover(input: FrameInput, count: int) -> Option<usize>
    decreases count,
{
    if count <= 0 {
        None
    } else {
        match first_hover(input, count - 1) {
            Some(index) => Some(index),
            None => if hover_at(input, count - 1) {
                Some((count - 1) as usize)
            } else {
                None
            },
        }
    }
}

/// Whether the close button is shown and was clicked.
pub open spec fn close_pressed(v: MessageBoxView, input: FrameInput) -> bool {
    v.show_close_button && input.over_close && input.clicked
}

/// The selection once the pointer has been looked at: a button under the
/// pointer becomes the selected one.
pub open spec fn hover_selection(v: MessageBoxView, input: FrameInput) -> Option<usize> {
    match last_hover(input, v.buttons.len() as int) {
        Some(index) => Some(index),
        None => v.selected_button,
    }
}

/// The button that was clicked, if one was.
pub open spec fn button_pressed(v: MessageBoxView, input: FrameInput) -> Option<usize> {
    if input.clicked {
        first_hover(input, v.buttons.len() as int)
    } else {
        None
    }
}

/// The selection once the tab key has been looked at: tab moves the selection
/// to the next button, from the last back to the first, and selects the first
/// button where none was selected.
pub open spec fn tab_selection(v: MessageBoxView, input: FrameInput) -> Option<usize> {
    let selected = hover_selection(v, input);
    if !input.tab {
        selected
    } else {
        match selected {
            Some(index) => Some(((index + 1) % (v.buttons.len() as int)) as usize),
            None => if v.buttons.len() > 0 {
                Some(0usize)
            } else {
                None
            },
        }
    }
}

/// The selected button after a frame.
pub open spec fn frame_selection(v: MessageBoxView, input: FrameInput) -> Option<usize> {
    if !v.visible || close_pressed(v, input) {
        v.selected_button
    } else if button_pressed(v, input) is Some {
        hover_selection(v, input)
    } else {
        tab_selection(v, input)
    }
}

/// The answer that the box holds after a frame. In order: a hidden box keeps
/// what it held; the close button closes; a clicked button is pressed; the
/// enter key presses the selected button; the escape key closes; otherwise
/// the box keeps what it held.
pub open spec fn frame_result(v: MessageBoxView, input: FrameInput) -> Option<MessageBoxResult> {
    if !v.visible {
        v.result
    } else if close_pressed(v, input) {
        Some(MessageBoxResult::Closed)
    } else if button_pressed(v, input) is Some {
        Some(MessageBoxResult::ButtonPressed(button_pressed(v, input)->Some_0))
    } else if input.enter && tab_selection(v, input) is Some {
        Some(MessageBoxResult::ButtonPressed(tab_selection(v, input)->Some_0))
    } else if input.escape {
        Some(MessageBoxResult::Closed)
    } else {
        v.result
    }
}

/// The box after a frame.
pub open spec fn after_frame(v: MessageBoxView, input: FrameInput) -> MessageBoxView {
    MessageBoxView { selected_button: frame_selection(v, input), result: frame_result(v, input), ..v }
}

/// What a frame reports: nothing for a hidden box, else the answer held.
pub open spec fn frame_report(v: MessageBoxView, input: FrameInput) -> Option<MessageBoxResult> {
    if v.visible {
        frame_result(v, input)
    } else {
        None
    }
}

/// The box after it was hidden.
pub open spec fn hidden(v: MessageBoxView) -> MessageBoxView {
    MessageBoxView { visible: false, result: None, ..v }
}

/// A button under the pointer is one of the buttons, and where the pointer is
/// over no button there is none.
pub proof fn lemma_hover_bounds(input: FrameInput, count: int)
    requires
        count <= usize::MAX,
    ensures
        last_hover(input, count) matches Some(index) ==> index < count && hover_at(input, index as int),
        first_hover(input, count) matches Some(index) ==> index < count && hover_at(input, index as int),
        last_hover(input, count) is Some == first_hover(input, count) is Some,
        first_hover(input, count) is None ==> forall|i: int| 0 <= i < count ==> !hover_at(input, i),
        first_hover(input, count) is Some ==> first_hover(input, count)->Some_0 <= last_hover(
            input,
            count,
        )->Some_0,
    decreases count,
{
    if count > 0 {
        lemma_hover_bounds(input, count - 1);
    }
}

/// A frame leaves a well-formed box well formed.
pub proof fn lemma_frame_keeps_well_formed(v: MessageBoxView, input: FrameInput)
    requires
        well_formed(v),
    ensures
        well_formed(after_frame(v, input)),
{
    lemma_hover_bounds(input, v.buttons.len() as int);
    if hover_selection(v, input) is Some {
        let index = hover_selection(v, input)->Some_0 as int;
        let count = v.buttons.len() as int;
        assert(0 <= (index + 1) % count < count) by (nonlinear_arith)
            requires
                count > 0,
                index >= 0,
        ;
    }
}

/// A hidden box reports nothing and does not change.
pub proof fn lemma_hidden_box_is_inert(v: MessageBoxView, input: FrameInput)
    requires
        !v.visible,
    ensures
        frame_report(v, input) is None,
        after_frame(v, input) == v,
{
}

impl View for MessageBox {
    type V = MessageBoxView;

    closed spec fn view(&self) -> MessageBoxView {
        MessageBoxView {
            visible: self.visible,
            title: self.title@,
            message: self.message@,
            buttons: labels(self.buttons@),
            default_button: self.default_button,
            selected_button: self.selected_button,
            show_close_button: self.show_close_button,
            modal: self.modal,
            result: self.result,
        }
    }
}

impl MessageBox {
    /// A hidden box. A default button that is not one of the buttons is
    /// dropped.
    pub fn new(title: String, message: String, buttons: Vec<String>, default_button: Option<usize>) -> (b:
        MessageBox)
        ensures
            b@ == fresh(title@, message@, labels(buttons@), default_button),
            well_formed(b@),
    {
        let count: usize = buttons.len();
        let default_button = match default_button {
            Some(index) => if index < count {
                Some(index)
            } else {
                None
            },
            None => None,
        };
        MessageBox {
            visible: false,
            title,
            message,
            buttons,
            default_button,
            selected_button: default_button,
            show_close_button: true,
            modal: true,
            result: None,
        }
    }

    /// Sets whether the box dims and blocks what lies behind it.
    pub fn with_modal(&mut self, modal: bool)
        ensures
            final(self)@ == (MessageBoxView { modal, ..old(self)@ }),
    {
        self.modal = modal;
    }

    /// Sets whether the box has a close button.
    pub fn with_close_button(&mut self, show: bool)
        ensures
            final(self)@ == (MessageBoxView { show_close_button: show, ..old(self)@ }),
    {
        self.show_close_button = show;
    }

    /// Shows the box, unanswered and with the default button selected.
    pub fn show(&mut self)
        ensures
            final(self)@ == (MessageBoxView {
                visible: true,
                result: None,
                selected_button: old(self)@.default_button,
                ..old(self)@
            }),
    {
        self.visible = true;
        self.result = None;
        self.selected_button = self.default_button;
    }

    /// Hides the box and forgets its answer.
    pub fn dismiss(&mut self)
        ensures
            final(self)@ == hidden(old(self)@),
    {
        self.visible = false;
        self.result = None;
    }

    /// Whether the box is shown.
    pub fn is_visible(&self) -> (visible: bool)
        ensures
            visible == self@.visible,
    {
        self.visible
    }

    /// Whether the box dims and blocks what lies behind it.
    pub fn is_modal(&self) -> (modal: bool)
        ensures
            modal == self@.modal,
    {
        self.modal
    }

    /// Whether the box has a close button.
    pub fn has_close_button(&self) -> (shown: bool)
        ensures
            shown == self@.show_close_button,
    {
        self.show_close_button
    }

    /// The selected button.
    pub fn selected_button(&self) -> (selected: Option<usize>)
        ensures
            selected == self@.selected_button,
    {
        self.selected_button
    }

    /// The number of buttons.
    pub fn button_count(&self) -> (count: usize)
        ensures
            count == self@.buttons.len(),
    {
        self.buttons.len()
    }

    /// The title.
    pub fn title(&self) -> (title: &String)
        ensures
            title@ == self@.title,
    {
        &self.title
    }

    /// The message.
    pub fn message(&self) -> (message: &String)
        ensures
            message@ == self@.message,
    {
        &self.message
    }

    /// The text of button `index`.
    pub fn button_label(&self, index: usize) -> (label: Option<&String>)
        ensures
            label is Some == (index < self@.buttons.len()),
            label matches Some(text) ==> text@ == self@.buttons[index as int],
    {
        if index < self.buttons.len() {
            Some(&self.buttons[index])
        } else {
            None
        }
    }

    /// The answer that the box holds.
    pub fn get_result(&self) -> (result: Option<MessageBoxResult>)
        ensures
            result == self@.result,
    {
        self.result
    }

    /// Forgets the answer.
    pub fn clear_result(&mut self)
        ensures
            final(self)@ == (MessageBoxView { result: None, ..old(self)@ }),
    {
        self.result = None;
    }

    /// Whether the box is shown and not yet answered.
    pub fn is_active(&self) -> (active: bool)
        ensures
            active == (self@.visible && self@.result is None),
    {
        self.visible && self.result.is_none()
    }

    /// Takes one frame's input and reports the answer, if the box holds one.
    pub fn update_and_draw(&mut self, input: &FrameInput) -> (report: Option<MessageBoxResult>)
        requires
            well_formed(old(self)@),
        ensures
            final(self)@ == after_frame(old(self)@, *input),
            report == frame_report(old(self)@, *input),
            well_formed(final(self)@),
    {
        proof {
            lemma_frame_keeps_well_formed(self@, *input);
            lemma_hover_bounds(*input, self.buttons@.len() as int);
        }
        if !self.visible {
            return None;
        }
        if self.show_close_button && input.over_close && input.clicked {
            self.result = Some(MessageBoxResult::Closed);
            return self.result;
        }
        let count: usize = self.buttons.len();
        let mut selected: Option<usize> = self.selected_button;
        let mut pressed: Option<usize> = None;
        let mut index: usize = 0;
        while index < count
            invariant
                index <= count,
                selected == (match last_hover(*input, index as int) {
                    Some(over) => Some(over),
                    None => self.selected_button,
                }),
                pressed == first_hover(*input, index as int),
            decreases count - index,
        {
            if index < input.over_buttons.len() && input.over_buttons[index] {
                selected = Some(index);
                if pressed.is_none() {
                    pressed = Some(index);
                }
            }
            index = index + 1;
        }
        self.selected_button = selected;
        if input.clicked {
            if let Some(button) = pressed {
                self.result = Some(MessageBoxResult::ButtonPressed(button));
                return self.result;
            }
        }
        if input.tab {
            if let Some(current) = self.selected_button {
                self.selected_button = Some((current + 1) % count);
            } else if count > 0 {
                self.selected_button = Some(0);
            }
        }
        if input.enter {
            if let Some(current) = self.selected_button {
                self.result = Some(MessageBoxResult::ButtonPressed(current));
                return self.result;
            }
        }
        if input.escape {
            self.result = Some(MessageBoxResult::Closed);
            return self.result;
        }
        self.result
    }

    /// Takes one frame's input. Once the box is answered it is hidden and the
    /// answer is reported, once.
    pub fn draw(&mut self, input: &FrameInput) -> (report: Option<MessageBoxResult>)
        requires
            well_formed(old(self)@),
        ensures
            report == frame_report(old(self)@, *input),
            report is Some ==> final(self)@ == hidden(after_frame(old(self)@, *input)),
            report is None ==> final(self)@ == after_frame(old(self)@, *input),
            well_formed(final(self)@),
    {
        if !self.visible {
            return None;
        }
        let report = self.update_and_draw(input);
        if report.is_some() {
            self.dismiss();
        }
        report
    }

    /// Takes one frame's input. Once the box is answered it is hidden, keeps
    /// the answer for `get_result`, and `true` is returned.
    pub fn process(&mut self, input: &FrameInput) -> (answered: bool)
        requires
            well_formed(old(self)@),
        ensures
            answered == frame_report(old(self)@, *input) is Some,
            answered ==> final(self)@ == (MessageBoxView {
                visible: false,
                ..after_frame(old(self)@, *input)
            }),
            !answered ==> final(self)@ == after_frame(old(self)@, *input),
            well_formed(final(self)@),
    {
        match self.update_and_draw(input) {
            Some(result) => {
                self.dismiss();
                self.result = Some(result);
                true
            },
            None => false,
        }
    }

    /// A box with the single button `OK`, selected by default.
    pub fn info(title: String, message: String) -> (b: MessageBox)
        ensures
            b@ == fresh(title@, message@, seq!["OK"@], Some(0usize)),
            well_formed(b@),
    {
        let mut buttons: Vec<String> = Vec::new();
        buttons.push("OK".to_owned());
        assert(labels(buttons@) =~= seq!["OK"@]);
        MessageBox::new(title, message, buttons, Some(0))
    }

    /// A box with the buttons `Yes` and `No`; `Yes` is selected by default.
    pub fn confirm(title: String, message: String) -> (b: MessageBox)
        ensures
            b@ == fresh(title@, message@, seq!["Yes"@, "No"@], Some(0usize)),
            well_formed(b@),
    {
        let mut buttons: Vec<String> = Vec::new();
        buttons.push("Yes".to_owned());
        buttons.push("No".to_owned());
        assert(labels(buttons@) =~= seq!["Yes"@, "No"@]);
        MessageBox::new(title, message, buttons, Some(0))
    }

    /// A box with the buttons `Yes`, `No` and `Cancel`; `Yes` is selected by
    /// default.
    pub fn confirm_with_cancel(title: String, message: String) -> (b: MessageBox)
        ensures
            b@ == fresh(title@, message@, seq!["Yes"@, "No"@, "Cancel"@], Some(0usize)),
            well_formed(b@),
    {
        let mut buttons: Vec<String> = Vec::new();
        buttons.push("Yes".to_owned());
        buttons.push("No".to_owned());
        buttons.push("Cancel".to_owned());
        assert(labels(buttons@) =~= seq!["Yes"@, "No"@, "Cancel"@]);
        MessageBox::new(title, message, buttons, Some(0))
    }

    /// A box with the given buttons.
    pub fn custom(title: String, message: String, buttons: Vec<String>, default_button: Option<usize>) -> (b:
        MessageBox)
        ensures
            b@ == fresh(title@, message@, labels(buttons@), default_button),
            well_formed(b@),
    {
        MessageBox::new(title, message, buttons, default_button)
    }
}

} // verus!
