use gilrs::code::{EvCode, EvCodeKind, BTN_DPAD_RIGHT};
use gilrs::ev::{Axis, Button, Event, EventType, RawEventType, UNIT};
use gilrs::gamepad::{FfError, FfMessage, Gilrs, GilrsBuilder, MappingSource, Status};
use gilrs::mapping::{MappingData, MappingError};
use gilrs::platform::ControllerInfo;
use gilrs::state::{counter_after, MAX_COUNTER};

const PAD_GUID: &str = "030000005e0400008e02000000000000";

fn raw_pad(stable: u16) -> ControllerInfo {
    ControllerInfo {
        non_roamable_id: vec![stable, 7],
        display_name: Some("Pad".to_string()),
        is_standard: false,
        vendor_id: 0x045e,
        product_id: 0x028e,
        axis_count: 4,
        button_count: 8,
        switch_count: 1,
        has_ff_motors: false,
    }
}

fn mapping_line() -> String {
    format!("{},Test pad,a:b0,b:b1,lefttrigger:a0,leftx:a1,dpadx:a2,platform:Windows,", PAD_GUID)
}

fn button(i: u32) -> EvCode {
    EvCode::new(EvCodeKind::Button, i)
}

fn axis(i: u32) -> EvCode {
    EvCode::new(EvCodeKind::Axis, i)
}

fn connected_context(filters: bool) -> Gilrs {
    let mut g = GilrsBuilder::new()
        .with_default_filters(filters)
        .add_mappings(&mapping_line())
        .build(Vec::new());
    g.push_raw(raw_pad(1), RawEventType::Connected, 10);
    let ev = g.next_event().unwrap();
    assert_eq!(ev, Event::new(0, EventType::Connected, 10));
    g.update(&ev);
    g
}

fn pull(g: &mut Gilrs, info: ControllerInfo, raw: RawEventType, time: u64) -> Vec<EventType> {
    g.push_raw(info, raw, time);
    let mut out = Vec::new();
    while let Some(ev) = g.next_event() {
        g.update(&ev);
        out.push(ev.event);
    }
    out
}

#[test]
fn connect_applies_mapping_for_uuid() {
    let g = connected_context(true);
    let pad = g.gamepad(0).unwrap();
    assert_eq!(pad.status(), Status::Connected);
    assert_eq!(pad.uuid(), 0x030000005e0400008e02000000000000);
    assert_eq!(pad.name(), "Test pad");
    assert_eq!(pad.os_name(), "Pad");
    assert_eq!(pad.mapping_source(), MappingSource::SdlMappings);
    assert_eq!(pad.button_code(Button::South), Some(button(0)));
    assert_eq!(pad.button_code(Button::LeftTrigger2), Some(axis(0)));
    assert_eq!(pad.axis_code(Axis::LeftStickX), Some(axis(1)));
    assert_eq!(pad.id(), 0);
    assert_eq!(g.gamepads(), vec![0]);
}

#[test]
fn unknown_uuid_keeps_default_mapping() {
    let mut g = Gilrs::new(Vec::new());
    let mut info = raw_pad(3);
    info.vendor_id = 0x1234;
    let evs = pull(&mut g, info.clone(), RawEventType::Connected, 1);
    assert_eq!(evs, vec![EventType::Connected]);
    assert_eq!(g.gamepad(0).unwrap().mapping_source(), MappingSource::Driver);
    assert_eq!(g.gamepad(0).unwrap().name(), "Pad");
    let evs = pull(&mut g, info, RawEventType::ButtonPressed(button(5)), 2);
    assert_eq!(
        evs,
        vec![
            EventType::ButtonPressed(Button::Unknown, button(5)),
            EventType::ButtonChanged(Button::Unknown, UNIT, button(5)),
        ]
    );
}

#[test]
fn mapped_press_is_followed_by_its_change() {
    let mut g = connected_context(true);
    g.push_raw(raw_pad(1), RawEventType::ButtonPressed(button(0)), 20);
    g.push_raw(raw_pad(1), RawEventType::ButtonPressed(button(1)), 21);
    let first = g.next_event().unwrap();
    let second = g.next_event().unwrap();
    let third = g.next_event().unwrap();
    assert_eq!(first, Event::new(0, EventType::ButtonPressed(Button::South, button(0)), 20));
    assert_eq!(second, Event::new(0, EventType::ButtonChanged(Button::South, UNIT, button(0)), 20));
    assert_eq!(third, Event::new(0, EventType::ButtonPressed(Button::East, button(1)), 21));
}

#[test]
fn released_button_gives_zero_change() {
    let mut g = connected_context(false);
    let evs = pull(&mut g, raw_pad(1), RawEventType::ButtonReleased(button(1)), 5);
    assert_eq!(
        evs,
        vec![
            EventType::ButtonReleased(Button::East, button(1)),
            EventType::ButtonChanged(Button::East, 0, button(1)),
        ]
    );
}

#[test]
fn axis_to_button_hysteresis() {
    let mut g = connected_context(false);
    let trig = axis(0);
    let evs = pull(&mut g, raw_pad(1), RawEventType::AxisValueChanged(-32768, trig), 1);
    assert_eq!(evs, vec![EventType::ButtonChanged(Button::LeftTrigger2, 0, trig)]);
    let evs = pull(&mut g, raw_pad(1), RawEventType::AxisValueChanged(19660, trig), 2);
    assert_eq!(
        evs,
        vec![
            EventType::ButtonPressed(Button::LeftTrigger2, trig),
            EventType::ButtonChanged(Button::LeftTrigger2, 800_000, trig),
        ]
    );
    let evs = pull(&mut g, raw_pad(1), RawEventType::AxisValueChanged(13107, trig), 3);
    assert_eq!(evs, vec![EventType::ButtonChanged(Button::LeftTrigger2, 700_007, trig)]);
    assert!(g.gamepad(0).unwrap().is_pressed(Button::LeftTrigger2));
    let evs = pull(&mut g, raw_pad(1), RawEventType::AxisValueChanged(6553, trig), 4);
    assert_eq!(
        evs,
        vec![
            EventType::ButtonReleased(Button::LeftTrigger2, trig),
            EventType::ButtonChanged(Button::LeftTrigger2, 600_000, trig),
        ]
    );
    assert!(!g.gamepad(0).unwrap().is_pressed(Button::LeftTrigger2));
}

#[test]
fn custom_thresholds() {
    let mut g = GilrsBuilder::new()
        .with_default_filters(false)
        .add_mappings(&mapping_line())
        .set_axis_to_btn(900_000, 100_000)
        .build(Vec::new());
    pull(&mut g, raw_pad(1), RawEventType::Connected, 1);
    let trig = axis(0);
    let evs = pull(&mut g, raw_pad(1), RawEventType::AxisValueChanged(19660, trig), 2);
    assert_eq!(evs, vec![EventType::ButtonChanged(Button::LeftTrigger2, 800_000, trig)]);
}

#[test]
fn axis_values_are_rescaled() {
    let mut g = connected_context(false);
    let evs = pull(&mut g, raw_pad(1), RawEventType::AxisValueChanged(32767, axis(1)), 1);
    assert_eq!(evs, vec![EventType::AxisChanged(Axis::LeftStickX, UNIT, axis(1))]);
    assert_eq!(g.gamepad(0).unwrap().value(Axis::LeftStickX), UNIT);
    let evs = pull(&mut g, raw_pad(1), RawEventType::AxisValueChanged(19660, axis(3)), 2);
    assert_eq!(evs, vec![EventType::AxisChanged(Axis::Unknown, 600_000, axis(3))]);
}

#[test]
fn deadzone_filter_applies_default_deadzone() {
    let mut g = connected_context(true);
    let evs = pull(&mut g, raw_pad(1), RawEventType::AxisValueChanged(19660, axis(1)), 1);
    // 0.6 outside a 0.1 deadzone is stretched to (0.6 - 0.1) / 0.9.
    assert_eq!(evs, vec![EventType::AxisChanged(Axis::LeftStickX, 555_555, axis(1))]);
}

#[test]
fn jitter_filter_drops_small_moves() {
    let mut g = connected_context(true);
    let evs = pull(&mut g, raw_pad(1), RawEventType::AxisValueChanged(32767, axis(1)), 1);
    assert_eq!(evs, vec![EventType::AxisChanged(Axis::LeftStickX, UNIT, axis(1))]);
    // 32700 reads as 997_955: less than 0.01 away from the cached full value.
    let evs = pull(&mut g, raw_pad(1), RawEventType::AxisValueChanged(32700, axis(1)), 2);
    assert_eq!(evs, Vec::<EventType>::new());
    // Back at rest always passes.
    let evs = pull(&mut g, raw_pad(1), RawEventType::AxisValueChanged(0, axis(1)), 3);
    assert_eq!(evs, vec![EventType::AxisChanged(Axis::LeftStickX, 0, axis(1))]);
}

#[test]
fn dpad_axis_becomes_buttons() {
    let mut g = connected_context(true);
    let dpad = axis(2);
    let right = EvCode::new(EvCodeKind::Button, BTN_DPAD_RIGHT);
    let evs = pull(&mut g, raw_pad(1), RawEventType::AxisValueChanged(32767, dpad), 1);
    assert_eq!(evs, vec![EventType::ButtonPressed(Button::DPadRight, right)]);
    assert!(g.gamepad(0).unwrap().is_pressed(Button::DPadRight));
    let evs = pull(&mut g, raw_pad(1), RawEventType::AxisValueChanged(0, dpad), 2);
    assert_eq!(evs, vec![EventType::ButtonReleased(Button::DPadRight, right)]);
    let evs = pull(&mut g, raw_pad(1), RawEventType::AxisValueChanged(0, dpad), 3);
    assert_eq!(evs, Vec::<EventType>::new());
}

#[test]
fn disconnected_device_reads_as_zero() {
    let mut g = connected_context(false);
    pull(&mut g, raw_pad(1), RawEventType::ButtonPressed(button(0)), 1);
    pull(&mut g, raw_pad(1), RawEventType::AxisValueChanged(32767, axis(1)), 2);
    assert!(g.gamepad(0).unwrap().is_pressed(Button::South));
    assert_eq!(g.gamepad(0).unwrap().value(Axis::LeftStickX), UNIT);
    let evs = pull(&mut g, raw_pad(1), RawEventType::Disconnected, 3);
    assert_eq!(evs, vec![EventType::Disconnected]);
    let pad = g.gamepad(0).unwrap();
    assert_eq!(pad.status(), Status::Disconnected);
    assert!(!pad.is_pressed(Button::South));
    assert_eq!(pad.value(Axis::LeftStickX), 0);
    assert_eq!(pad.button_data(Button::South), None);
    assert!(g.connected_gamepad(0).is_none());
    assert_eq!(g.gamepads(), Vec::<usize>::new());
    // The cached state is kept, not cleared.
    assert!(pad.state().is_pressed(button(0)));
    // Updates for a disconnected device change nothing.
    let ev = Event::new(0, EventType::ButtonReleased(Button::South, button(0)), 4);
    g.update(&ev);
    assert!(g.gamepad(0).unwrap().state().is_pressed(button(0)));
}

#[test]
fn reconnect_keeps_id_and_new_device_is_appended() {
    let mut g = connected_context(false);
    pull(&mut g, raw_pad(1), RawEventType::Disconnected, 1);
    pull(&mut g, raw_pad(1), RawEventType::Connected, 2);
    assert_eq!(g.last_gamepad_hint(), 1);
    assert!(g.gamepad(0).unwrap().is_connected());
    let mut other = raw_pad(2);
    other.vendor_id = 0x1111;
    g.push_raw(other, RawEventType::Connected, 3);
    let ev = g.next_event().unwrap();
    assert_eq!(ev.id, 1);
    assert_eq!(g.last_gamepad_hint(), 2);
    assert_eq!(g.gamepads(), vec![0, 1]);
}

#[test]
fn ff_messages_follow_connection() {
    let mut g = connected_context(false);
    assert_eq!(g.take_ff_messages(), vec![FfMessage::Open { id: 0 }]);
    pull(&mut g, raw_pad(1), RawEventType::Disconnected, 1);
    assert_eq!(g.take_ff_messages(), vec![FfMessage::Close { id: 0 }]);
    pull(&mut g, raw_pad(1), RawEventType::Connected, 2);
    assert_eq!(g.take_ff_messages(), Vec::<FfMessage>::new());
    let pad = g.gamepad(0).unwrap();
    assert_eq!(pad.set_listener_position(1, 2, 3), Err(FfError::FfNotSupported(0)));
}

#[test]
fn standard_gamepad_found_at_start() {
    let mut info = raw_pad(9);
    info.is_standard = true;
    info.has_ff_motors = true;
    let mut g = Gilrs::new(vec![info]);
    assert_eq!(g.take_ff_messages(), vec![FfMessage::Open { id: 0 }]);
    let pad = g.gamepad(0).unwrap();
    assert_eq!(pad.uuid(), 0);
    assert!(pad.is_ff_supported());
    assert_eq!(
        pad.set_listener_position(1, 2, 3),
        Ok(FfMessage::SetListenerPosition { id: 0, x: 1, y: 2, z: 3 })
    );
}

#[test]
fn counter_counts_frames_and_wraps() {
    let mut g = connected_context(false);
    assert_eq!(g.counter(), 0);
    g.inc();
    g.inc();
    assert_eq!(g.counter(), 2);
    pull(&mut g, raw_pad(1), RawEventType::ButtonPressed(button(0)), 7);
    let data = g.gamepad(0).unwrap().button_data(Button::South).unwrap();
    assert_eq!(data.counter(), 2);
    assert_eq!(data.timestamp(), 7);
    assert!(data.is_pressed());
    g.reset_counter();
    assert_eq!(g.counter(), 0);
    assert_eq!(counter_after(MAX_COUNTER), 0);
    assert_eq!(counter_after(MAX_COUNTER - 1), MAX_COUNTER);
    assert_eq!(counter_after(5), 6);
}

#[test]
fn set_mapping_builds_text() {
    let mut g = connected_context(false);
    let mut data = MappingData::new();
    data.insert_btn(Button::South, button(2));
    data.insert_axis(Axis::LeftStickY, axis(3));
    let text = g.set_mapping(0, &data, Some("Custom")).unwrap();
    assert_eq!(text, format!("{},Custom,a:b2,lefty:a3,", PAD_GUID));
    let pad = g.gamepad(0).unwrap();
    assert_eq!(pad.button_code(Button::South), Some(button(2)));
    assert_eq!(pad.name(), "Custom");
    let text = g.set_mapping(0, &data, None).unwrap();
    assert_eq!(text, format!("{},Pad,a:b2,lefty:a3,", PAD_GUID));
}

#[test]
fn set_mapping_errors() {
    let mut g = connected_context(false);
    let mut data = MappingData::new();
    data.insert_btn(Button::South, button(2));
    assert_eq!(g.set_mapping(0, &data, Some("a,b")), Err(MappingError::Parser));
    assert_eq!(g.set_mapping(3, &data, None), Err(MappingError::NotConnected));
    let mut dup = MappingData::new();
    dup.insert_btn(Button::South, axis(1));
    dup.insert_axis(Axis::LeftStickX, axis(1));
    assert_eq!(g.set_mapping(0, &dup, None), Err(MappingError::DuplicateAxis));
    let mut missing = MappingData::new();
    missing.insert_btn(Button::South, button(40));
    assert_eq!(g.set_mapping(0, &missing, None), Err(MappingError::UnknownElement));
    let mut unknown = MappingData::new();
    unknown.insert_btn(Button::Unknown, button(1));
    assert_eq!(g.set_mapping(0, &unknown, None), Err(MappingError::UnknownElement));
    pull(&mut g, raw_pad(1), RawEventType::Disconnected, 1);
    assert_eq!(g.set_mapping(0, &data, None), Err(MappingError::NotConnected));
}

#[test]
fn strict_mapping_refuses_extensions() {
    let mut g = connected_context(false);
    let mut data = MappingData::new();
    data.insert_btn(Button::C, button(2));
    assert_eq!(g.set_mapping_strict(0, &data, None), Err(MappingError::NotSdl2Compatible));
    let mut zdata = MappingData::new();
    zdata.insert_axis(Axis::RightZ, axis(2));
    assert_eq!(g.set_mapping_strict(0, &zdata, None), Err(MappingError::NotSdl2Compatible));
    let mut ok = MappingData::new();
    ok.insert_btn(Button::North, button(3));
    let text = g.set_mapping_strict(0, &ok, Some("Strict")).unwrap();
    assert_eq!(text, format!("{},Strict,y:b3,", PAD_GUID));
    assert_eq!(g.gamepad(0).unwrap().button_code(Button::North), Some(button(3)));
}

#[test]
fn filter_step_marks_dropped_events() {
    let mut g = connected_context(true);
    let dpad = axis(2);
    g.push_raw(raw_pad(1), RawEventType::AxisValueChanged(0, dpad), 1);
    let step = g.next_filtered().unwrap();
    assert!(step.is_dropped());
    assert_eq!(step.id, 0);
    assert_eq!(step.time, 1);
    assert_eq!(g.next_filtered(), None);
}

#[test]
fn unparsable_mapping_falls_back_to_default() {
    let bad = format!("{},Broken,a:b99,", PAD_GUID);
    let mut g = GilrsBuilder::new().add_mappings(&bad).build(Vec::new());
    pull(&mut g, raw_pad(1), RawEventType::Connected, 1);
    let pad = g.gamepad(0).unwrap();
    assert_eq!(pad.mapping_source(), MappingSource::Driver);
    assert_eq!(pad.button_code(Button::South), None);
    assert_eq!(pad.name(), "Pad");
}
