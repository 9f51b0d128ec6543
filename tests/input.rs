use rgm::input::{Input, InputStatus};

#[test]
fn input_editing() {
    let mut def = Input::default();
    assert_eq!(
        def,
        Input {
            editing: false,
            text: String::new(),
            status: InputStatus::Info
        }
    );
    def.editing(true);
    def.push('a');
    def.push('b');
    assert_eq!(def.is_editing(), true);
    assert_eq!(def.text(), String::from(":ab"));
    // pop doesn't remove `:` prompt
    def.pop();
    def.pop();
    def.pop();
    def.editing(false);
    assert_eq!(def.is_editing(), false);
    assert_eq!(def.text(), String::from(":"));
    // Clear removes text
    def.clear();
    assert_eq!(def.text(), String::new());
}

#[test]
fn input_messages_carry_their_status() {
    let w = Input::warning(String::from("careful"));
    assert_eq!(w.status, InputStatus::Warning);
    assert_eq!(w.text(), "careful");
    assert!(!w.is_editing());
    let e = Input::error(String::from("broken"));
    assert_eq!(e.status, InputStatus::Error);
    assert_eq!(e.text(), "broken");
}

#[test]
fn input_pop_on_empty_text_keeps_it_empty() {
    let mut i = Input::default();
    i.pop();
    assert_eq!(i.text(), "");
    i.push('x');
    i.pop();
    assert_eq!(i.text(), "x");
}
