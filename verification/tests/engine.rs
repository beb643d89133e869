//! The dispatch engine and the poe adapter from the outside: filters,
//! rules, registration failures, and events on the channel.

use poe_watch::error::EventError;
use poe_watch::events::{PoeEvent, PoeEvents, PoeLogLineInfo};
use poe_watch::filter::LineFilter;
use poe_watch::manager::{EventAction, EventManager};
use poe_watch::poll::StringLinePoll;
use std::io::Cursor;
use std::sync::mpsc::channel;

fn chars_of(s: &str) -> Vec<char> {
    s.chars().collect()
}

fn string_of(cs: &[char]) -> String {
    cs.iter().collect()
}

#[test]
fn timestamp_filter_extracts_tick_and_strips_prefix() {
    let mut info = PoeLogLineInfo::default();
    let line = chars_of("2024/01/01 00:00:01 123 abc] : You have entered The Forest.");
    let out = LineFilter::TimestampPrefix.apply(line, &mut info);
    assert_eq!(string_of(&out), ": You have entered The Forest.");
    assert_eq!(info.time, 123);
}

#[test]
fn timestamp_filter_strips_to_the_last_bracket() {
    let mut info = PoeLogLineInfo::default();
    let line = chars_of("2024/01/01 00:00:01 9 a] b] rest");
    let out = LineFilter::TimestampPrefix.apply(line, &mut info);
    assert_eq!(string_of(&out), "rest");
    assert_eq!(info.time, 9);
}

#[test]
fn timestamp_filter_passes_unmatched_lines_through() {
    let mut info = PoeLogLineInfo::default();
    let line = chars_of("Connecting to instance server at 10.0.0.5");
    let out = LineFilter::TimestampPrefix.apply(line, &mut info);
    assert_eq!(string_of(&out), "Connecting to instance server at 10.0.0.5");
    assert_eq!(info.time, 0);
    // a well-shaped timestamp without any closing bracket does not match
    let raw = "2024/01/01 00:00:01 123 no bracket";
    let out = LineFilter::TimestampPrefix.apply(chars_of(raw), &mut info);
    assert_eq!(string_of(&out), raw);
    assert_eq!(info.time, 0);
}

#[test]
fn timestamp_filter_leaves_oversized_ticks_alone() {
    let mut info = PoeLogLineInfo::default();
    // the tick does not fit a u64: the line passes through untouched
    let raw = "2024/01/01 00:00:01 99999999999999999999 abc] rest";
    let out = LineFilter::TimestampPrefix.apply(chars_of(raw), &mut info);
    assert_eq!(string_of(&out), raw);
    assert_eq!(info.time, 0);
}

#[test]
fn drop_prefix_filter_is_conditional() {
    let mut info = PoeLogLineInfo::default();
    let f = LineFilter::DropLiteralPrefix("ab".to_string());
    let out = f.apply(chars_of("abc"), &mut info);
    assert_eq!(string_of(&out), "c");
    let out = f.apply(chars_of("bac"), &mut info);
    assert_eq!(string_of(&out), "bac");
}

#[test]
fn filter_order_is_observable() {
    // two non-commuting filters, applied in both orders by hand
    let a = LineFilter::DropLiteralPrefix("a".to_string());
    let ab = LineFilter::DropLiteralPrefix("ab".to_string());
    let mut info = PoeLogLineInfo::default();
    let first = ab.apply(a.apply(chars_of("abc"), &mut info), &mut info);
    assert_eq!(string_of(&first), "bc");
    let second = a.apply(ab.apply(chars_of("abc"), &mut info), &mut info);
    assert_eq!(string_of(&second), "c");
}

#[test]
fn engine_applies_filters_in_registration_order() {
    let mut manager = EventManager::new();
    manager.register_filter(LineFilter::DropLiteralPrefix("a".to_string()));
    manager.register_filter(LineFilter::DropLiteralPrefix("ab".to_string()));
    manager
        .register_event("^(?P<location>bc)$", EventAction::JoinedArea)
        .unwrap();
    // "abc" -> drop "a" -> "bc"; the second filter no longer applies
    let ems = manager.process_line("abc");
    assert_eq!(ems.len(), 1);
    match &ems[0].0 {
        PoeEvent::JoinedArea(s) => assert_eq!(s, "bc"),
        other => panic!("wrong event: {:?}", other),
    }
}

#[test]
fn every_matching_rule_fires_once_in_order() {
    let mut manager = EventManager::new();
    manager
        .register_event("^(?P<location>x.*)$", EventAction::JoinedArea)
        .unwrap();
    manager
        .register_event("(?P<ip>.*x)", EventAction::ConnectingToInstance)
        .unwrap();
    manager
        .register_event("^(?P<location>never)$", EventAction::JoinedArea)
        .unwrap();
    let ems = manager.process_line("xyx");
    assert_eq!(ems.len(), 2);
    match &ems[0].0 {
        PoeEvent::JoinedArea(s) => assert_eq!(s, "xyx"),
        other => panic!("wrong first event: {:?}", other),
    }
    match &ems[1].0 {
        PoeEvent::ConnectingToInstance(s) => assert_eq!(s, "xyx"),
        other => panic!("wrong second event: {:?}", other),
    }
    // each firing carries its own metadata copy
    assert_eq!(ems[0].1.time, ems[1].1.time);
}

#[test]
fn metadata_copies_are_independent() {
    let mut manager = EventManager::new();
    manager.register_filter(LineFilter::TimestampPrefix);
    manager
        .register_event("^(?P<location>.*)$", EventAction::JoinedArea)
        .unwrap();
    manager
        .register_event("^(?P<ip>.*)$", EventAction::ConnectingToInstance)
        .unwrap();
    let ems = manager.process_line("2024/01/01 00:00:01 77 x] hello");
    assert_eq!(ems.len(), 2);
    let mut first = ems[0].1;
    first.time = 1;
    assert_eq!(ems[1].1.time, 77);
}

#[test]
fn invalid_pattern_fails_and_keeps_prior_rules() {
    let mut manager = EventManager::new();
    manager
        .register_event("^(?P<location>keep.*)$", EventAction::JoinedArea)
        .unwrap();
    let err = manager
        .register_event("(unbalanced", EventAction::ConnectingToInstance)
        .unwrap_err();
    assert!(matches!(err, EventError::Pattern(_)));
    // the earlier registration still fires
    let ems = manager.process_line("keep me");
    assert_eq!(ems.len(), 1);
    match &ems[0].0 {
        PoeEvent::JoinedArea(s) => assert_eq!(s, "keep me"),
        other => panic!("wrong event: {:?}", other),
    }
}

#[test]
fn joined_area_scenario() {
    let content = b"2024/01/01 00:00:01 123 abc] : You have entered The Forest.\n".to_vec();
    let poll = StringLinePoll::new(Cursor::new(content), 20, 1024).unwrap();
    let (sender, receiver) = channel();
    let mut poe = PoeEvents::new(poll, sender);
    poe.register_poe_events().unwrap();
    assert_eq!(poe.poll_step().unwrap(), 1);
    let (event, info) = receiver.try_recv().unwrap();
    match event {
        PoeEvent::JoinedArea(location) => assert_eq!(location, "The Forest"),
        other => panic!("wrong event: {:?}", other),
    }
    assert_eq!(info.time, 123);
    assert!(receiver.try_recv().is_err());
}

#[test]
fn connecting_scenario_without_prefix() {
    let content = b"Connecting to instance server at 10.0.0.5\n".to_vec();
    let poll = StringLinePoll::new(Cursor::new(content), 20, 1024).unwrap();
    let (sender, receiver) = channel();
    let mut poe = PoeEvents::new(poll, sender);
    poe.register_poe_events().unwrap();
    assert_eq!(poe.poll_step().unwrap(), 1);
    let (event, info) = receiver.try_recv().unwrap();
    match event {
        PoeEvent::ConnectingToInstance(ip) => assert_eq!(ip, "10.0.0.5"),
        other => panic!("wrong event: {:?}", other),
    }
    assert_eq!(info.time, 0);
}

#[test]
fn two_lines_in_one_batch_process_in_order() {
    let content = b"2024/01/01 00:00:01 5 a] : You have entered Oriath.\nConnecting to instance server at 1.2.3.4\n"
        .to_vec();
    let poll = StringLinePoll::new(Cursor::new(content), 20, 1024).unwrap();
    let (sender, receiver) = channel();
    let mut poe = PoeEvents::new(poll, sender);
    poe.register_poe_events().unwrap();
    assert_eq!(poe.poll_step().unwrap(), 2);
    let (first, first_info) = receiver.try_recv().unwrap();
    match first {
        PoeEvent::JoinedArea(location) => assert_eq!(location, "Oriath"),
        other => panic!("wrong first event: {:?}", other),
    }
    assert_eq!(first_info.time, 5);
    let (second, second_info) = receiver.try_recv().unwrap();
    match second {
        PoeEvent::ConnectingToInstance(ip) => assert_eq!(ip, "1.2.3.4"),
        other => panic!("wrong second event: {:?}", other),
    }
    assert_eq!(second_info.time, 0);
    // nothing more arrived, and the next step finds nothing new
    assert!(receiver.try_recv().is_err());
    assert_eq!(poe.poll_step().unwrap(), 0);
}

#[test]
fn closed_channel_surfaces_a_sink_error() {
    let content = b"Connecting to instance server at 9.9.9.9\n".to_vec();
    let poll = StringLinePoll::new(Cursor::new(content), 20, 1024).unwrap();
    let (sender, receiver) = channel();
    drop(receiver);
    let mut poe = PoeEvents::new(poll, sender);
    poe.register_poe_events().unwrap();
    let err = poe.poll_step().unwrap_err();
    assert!(matches!(err, EventError::Sink));
}

#[test]
fn unmatched_lines_emit_nothing() {
    let content = b"nothing interesting here\n".to_vec();
    let poll = StringLinePoll::new(Cursor::new(content), 20, 1024).unwrap();
    let (sender, receiver) = channel();
    let mut poe = PoeEvents::new(poll, sender);
    poe.register_poe_events().unwrap();
    assert_eq!(poe.poll_step().unwrap(), 1);
    assert!(receiver.try_recv().is_err());
}
