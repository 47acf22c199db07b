use bevy_egui::{
    begin_pass_system, EguiContext, EguiInput, ImeEvent, InputEvent, PassStart, PointerAction,
    TouchPhase,
};

fn ime_events(input: &EguiInput) -> Vec<ImeEvent> {
    input
        .events
        .iter()
        .map(|event| match event {
            InputEvent::Ime(ime) => *ime,
            InputEvent::Toolkit(_) => panic!("unexpected toolkit event"),
        })
        .collect()
}

#[test]
fn ime_enabled_is_sent_once() {
    let mut ctx = EguiContext::new();
    let mut input = EguiInput::new();
    ctx.ime_event_enable(&mut input);
    ctx.ime_event_enable(&mut input);
    ctx.ime_event_enable(&mut input);
    assert_eq!(ime_events(&input), vec![ImeEvent::Enabled]);
    assert!(ctx.has_sent_ime_enabled);
}

#[test]
fn ime_disabled_is_sent_once_after_enabled() {
    let mut ctx = EguiContext::default();
    let mut input = EguiInput::default();
    ctx.ime_event_disable(&mut input);
    assert!(input.events.is_empty());
    ctx.ime_event_enable(&mut input);
    ctx.ime_event_disable(&mut input);
    ctx.ime_event_disable(&mut input);
    ctx.ime_event_enable(&mut input);
    assert_eq!(ime_events(&input), vec![ImeEvent::Enabled, ImeEvent::Disabled, ImeEvent::Enabled]);
}

#[test]
fn ime_keeps_touch_id() {
    let mut ctx = EguiContext { pointer_touch_id: Some(4), has_sent_ime_enabled: true };
    let mut input = EguiInput::new();
    ctx.ime_event_disable(&mut input);
    assert_eq!(ctx, EguiContext { pointer_touch_id: Some(4), has_sent_ime_enabled: false });
    assert_eq!(ime_events(&input), vec![ImeEvent::Disabled]);
}

#[test]
fn pass_takes_the_input() {
    let mut input = EguiInput::new();
    input.events.push(InputEvent::Ime(ImeEvent::Enabled));
    input.events.push(InputEvent::Toolkit(egui::Event::Copy));
    match begin_pass_system(false, &mut input) {
        PassStart::Begin(events) => {
            assert_eq!(events.len(), 2);
            assert!(matches!(events[0], InputEvent::Ime(ImeEvent::Enabled)));
            assert!(matches!(events[1], InputEvent::Toolkit(egui::Event::Copy)));
        }
        PassStart::Manual => panic!("the pass should begin"),
    }
    assert!(input.events.is_empty());
}

#[test]
fn manual_pass_leaves_the_input() {
    let mut input = EguiInput::new();
    input.events.push(InputEvent::Ime(ImeEvent::Disabled));
    assert!(matches!(begin_pass_system(true, &mut input), PassStart::Manual));
    assert_eq!(input.events.len(), 1);
}

#[test]
fn take_empties_the_buffer() {
    let mut input = EguiInput::new();
    input.events.push(InputEvent::Toolkit(egui::Event::Cut));
    let taken = input.take();
    assert_eq!(taken.len(), 1);
    assert!(input.events.is_empty());
    assert!(input.take().is_empty());
}

#[test]
fn first_touch_acts_as_pointer() {
    let mut ctx = EguiContext::new();
    assert_eq!(ctx.touch(1, TouchPhase::Started), PointerAction::Press);
    assert_eq!(ctx.pointer_touch_id, Some(1));
    assert_eq!(ctx.touch(2, TouchPhase::Started), PointerAction::Ignore);
    assert_eq!(ctx.touch(2, TouchPhase::Moved), PointerAction::Ignore);
    assert_eq!(ctx.touch(1, TouchPhase::Moved), PointerAction::Move);
    assert_eq!(ctx.touch(2, TouchPhase::Ended), PointerAction::Ignore);
    assert_eq!(ctx.pointer_touch_id, Some(1));
    assert_eq!(ctx.touch(1, TouchPhase::Ended), PointerAction::Release);
    assert_eq!(ctx.pointer_touch_id, None);
    assert_eq!(ctx.touch(3, TouchPhase::Started), PointerAction::Press);
    assert_eq!(ctx.touch(3, TouchPhase::Canceled), PointerAction::Gone);
    assert_eq!(ctx.pointer_touch_id, None);
}

#[test]
fn touch_without_start_moves_the_pointer() {
    let mut ctx = EguiContext { pointer_touch_id: None, has_sent_ime_enabled: true };
    assert_eq!(ctx.touch(9, TouchPhase::Moved), PointerAction::Move);
    assert_eq!(ctx.pointer_touch_id, None);
    assert_eq!(ctx.touch(9, TouchPhase::Ended), PointerAction::Release);
    assert!(ctx.has_sent_ime_enabled);
}
