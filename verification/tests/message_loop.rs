use diagramide::handler::Msg;
use diagramide::message_loop::{LoopInput, MessageLoop};

#[test]
fn the_timer_queues_a_dependency_check() {
    let mut l = MessageLoop::new();
    assert!(l.input(LoopInput::Tick, 0));
    assert!(matches!(l.next(), Some(Msg::CheckDependencies)));
    assert!(l.next().is_none());
}

#[test]
fn messages_are_handled_first_in_first_out() {
    let mut l = MessageLoop::new();
    l.input(LoopInput::Received(Some(Msg::HideHelp)), 0);
    l.input(LoopInput::Received(Some(Msg::PopModal)), 0);
    l.enqueue(vec![Msg::Refresh(3)]);
    assert!(matches!(l.next(), Some(Msg::HideHelp)));
    assert!(matches!(l.next(), Some(Msg::PopModal)));
    assert!(matches!(l.next(), Some(Msg::Refresh(3))));
    assert!(l.next().is_none());
}

#[test]
fn a_closed_channel_ends_the_loop() {
    let mut l = MessageLoop::new();
    assert!(!l.input(LoopInput::Received(None), 0));
}

#[test]
fn only_the_last_debounced_message_of_a_window_waits() {
    let mut l = MessageLoop::new();
    l.input(LoopInput::Received(Some(Msg::Debounce(100, 7, Box::new(Msg::Refresh(1))))), 0);
    l.input(LoopInput::Received(Some(Msg::Debounce(100, 7, Box::new(Msg::Refresh(2))))), 50);
    l.input(LoopInput::Received(Some(Msg::Debounce(30, 8, Box::new(Msg::Refresh(3))))), 60);
    assert_eq!(l.pending.len(), 2);
    assert!(l.next().is_none());
    l.input(LoopInput::Due, 90);
    assert!(matches!(l.next(), Some(Msg::Refresh(3))));
    l.input(LoopInput::Due, 150);
    assert!(matches!(l.next(), Some(Msg::Refresh(2))));
    assert!(l.pending.is_empty());
    l.input(LoopInput::Due, 200);
    assert!(l.next().is_none());
}

#[test]
fn a_debounced_message_waits_for_its_delay() {
    let mut l = MessageLoop::new();
    l.input(LoopInput::Received(Some(Msg::Debounce(1000, 4, Box::new(Msg::Refresh(4))))), 0);
    assert_eq!(l.next_due(), Some(1000));
    l.input(LoopInput::Due, 0);
    assert!(l.next().is_none());
    l.input(LoopInput::Due, 999);
    assert!(l.next().is_none());
    assert_eq!(l.pending.len(), 1);
    l.input(LoopInput::Due, 1000);
    assert!(matches!(l.next(), Some(Msg::Refresh(4))));
    assert_eq!(l.next_due(), None);
}
