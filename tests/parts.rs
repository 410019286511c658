use gilrs::axis::{apply_deadzone, hysteresis, jitter_passes, AxisInfo, Edge};
use gilrs::code::{EvCode, EvCodeKind, AXIS_LSTICKX, AXIS_LT2, BTN_DPAD_UP, BTN_SOUTH};
use gilrs::ev::{Axis, AxisOrBtn, Button, EventType, RawEventType, UNIT};
use gilrs::state::GamepadState;
use gilrs::gamepad::PowerInfo;
use gilrs::mapping::{Mapping, MappingData, MappingError};
use gilrs::platform::{collect_axes_and_buttons, power_info_from, BatteryStatus};
use gilrs::reading::{
    direction_from_switch, poll_differences, GamepadReading, RawGamepadReading, Reading,
    ReadingError, SwitchPosition,
};
use gilrs::sdl::{chars_of, from_data, parse_sdl_mapping, MappingDb};

fn button(i: u32) -> EvCode {
    EvCode::new(EvCodeKind::Button, i)
}

fn axis(i: u32) -> EvCode {
    EvCode::new(EvCodeKind::Axis, i)
}

fn switch(i: u32) -> EvCode {
    EvCode::new(EvCodeKind::Switch, i)
}

fn raw(axes: Vec<i32>, buttons: Vec<bool>, switches: Vec<SwitchPosition>, time: u64) -> Reading {
    Reading::Raw(RawGamepadReading { axes, buttons, switches, time })
}

#[test]
fn packed_code() {
    assert_eq!(button(3).into_u32(), 3);
    assert_eq!(axis(5).into_u32(), (1 << 16) | 5);
    assert_eq!(switch(1).into_u32(), (2 << 16) | 1);
    assert_eq!(EvCodeKind::Switch.name(), "Switch");
}

#[test]
fn switch_directions() {
    assert_eq!(direction_from_switch(SwitchPosition::Up), (0, 1));
    assert_eq!(direction_from_switch(SwitchPosition::DownLeft), (-1, -1));
    assert_eq!(direction_from_switch(SwitchPosition::Center), (0, 0));
}

#[test]
fn single_axis_difference() {
    let old = raw(vec![0, 1, 2, 3, 4], vec![false, true], vec![SwitchPosition::Up], 1);
    let new = raw(vec![0, 1, 2, 99, 4], vec![false, true], vec![SwitchPosition::Up], 2);
    let evs = poll_differences(&old, &new).unwrap();
    assert_eq!(evs, vec![RawEventType::AxisValueChanged(99, axis(3))]);
}

#[test]
fn buttons_and_switches_differences() {
    let old = raw(vec![5], vec![false, true, false], vec![SwitchPosition::Center, SwitchPosition::Up], 1);
    let new = raw(vec![5], vec![true, false, false], vec![SwitchPosition::Center, SwitchPosition::DownRight], 2);
    let evs = poll_differences(&old, &new).unwrap();
    assert_eq!(
        evs,
        vec![
            RawEventType::ButtonPressed(button(0)),
            RawEventType::ButtonReleased(button(1)),
            RawEventType::AxisValueChanged(1, switch(2)),
            RawEventType::AxisValueChanged(-1, switch(3)),
        ]
    );
}

#[test]
fn unchanged_timestamp_gives_nothing() {
    let old = raw(vec![0], vec![false], vec![], 5);
    let new = raw(vec![1], vec![true], vec![], 5);
    assert_eq!(poll_differences(&old, &new).unwrap(), Vec::<RawEventType>::new());
}

#[test]
fn class_change_is_an_error() {
    let old = raw(vec![0], vec![false], vec![], 1);
    let new = Reading::Gamepad(GamepadReading {
        time: 2,
        buttons: 0,
        left_trigger: 0,
        right_trigger: 0,
        left_thumbstick_x: 0,
        left_thumbstick_y: 0,
        right_thumbstick_x: 0,
        right_thumbstick_y: 0,
    });
    assert_eq!(
        poll_differences(&old, &new),
        Err(ReadingError::ClassChanged { was_gamepad: false, is_gamepad: true })
    );
}

#[test]
fn gamepad_reading_differences() {
    let old = GamepadReading {
        time: 1,
        buttons: 4,
        left_trigger: 0,
        right_trigger: 0,
        left_thumbstick_x: 0,
        left_thumbstick_y: 0,
        right_thumbstick_x: 0,
        right_thumbstick_y: 0,
    };
    let new = GamepadReading { time: 2, buttons: 64, left_trigger: 100, left_thumbstick_x: -5, ..old };
    let evs = poll_differences(&Reading::Gamepad(old), &Reading::Gamepad(new)).unwrap();
    assert_eq!(
        evs,
        vec![
            RawEventType::AxisValueChanged(100, axis(AXIS_LT2)),
            RawEventType::AxisValueChanged(-5, axis(AXIS_LSTICKX)),
            RawEventType::ButtonPressed(button(BTN_DPAD_UP)),
            RawEventType::ButtonReleased(button(BTN_SOUTH)),
        ]
    );
}

#[test]
fn native_codes_of_a_controller() {
    let (buttons, axes) = collect_axes_and_buttons(2, 3, 1);
    assert_eq!(buttons, vec![button(0), button(1), button(2)]);
    assert_eq!(axes, vec![axis(0), axis(1), switch(0), switch(1)]);
}

#[test]
fn axis_rescaling() {
    let stick = AxisInfo { min: -32768, max: 32767, deadzone: None };
    assert_eq!(stick.value_axis(-32768), -UNIT);
    assert_eq!(stick.value_axis(32767), UNIT);
    assert_eq!(stick.value_btn(-32768), 0);
    assert_eq!(stick.value_btn(6553), 600_000);
    let trigger = AxisInfo { min: 0, max: 255, deadzone: Some(51) };
    assert_eq!(trigger.value_axis(255), UNIT);
    assert_eq!(trigger.value_axis(300), UNIT);
    assert_eq!(trigger.deadzone(), Some(200_000));
}

#[test]
fn deadzone_values() {
    assert_eq!(apply_deadzone(50_000, 100_000), 0);
    assert_eq!(apply_deadzone(500_000, 100_000), 444_444);
    assert_eq!(apply_deadzone(-500_000, 100_000), -444_444);
    // Full deflection and an empty deadzone are left where they are.
    let once = apply_deadzone(UNIT, 100_000);
    assert_eq!(once, UNIT);
    assert_eq!(apply_deadzone(once, 100_000), once);
    let v = apply_deadzone(-300_000, 0);
    assert_eq!(v, -300_000);
    assert_eq!(apply_deadzone(v, 0), v);
}

#[test]
fn hysteresis_sequence() {
    let mut pressed = false;
    let mut edges = Vec::new();
    for v in [0, 800_000, 700_000, 600_000] {
        let e = hysteresis(v, 750_000, 650_000, pressed);
        match e {
            Edge::Press => pressed = true,
            Edge::Release => pressed = false,
            Edge::NoEdge => {}
        }
        edges.push(e);
    }
    assert_eq!(edges, vec![Edge::NoEdge, Edge::Press, Edge::NoEdge, Edge::Release]);
}

#[test]
fn jitter_threshold() {
    assert!(!jitter_passes(505_000, 500_000, 10_000));
    assert!(jitter_passes(510_000, 500_000, 10_000));
    assert!(jitter_passes(0, 5_000, 10_000));
}

#[test]
fn power_states() {
    assert_eq!(power_info_from(false, BatteryStatus::Discharging, 100, 50), PowerInfo::Wired);
    assert_eq!(power_info_from(true, BatteryStatus::Discharging, 200, 50), PowerInfo::Discharging(25));
    assert_eq!(power_info_from(true, BatteryStatus::Charging, 200, 150), PowerInfo::Charging(75));
    assert_eq!(power_info_from(true, BatteryStatus::Charging, 200, 200), PowerInfo::Charged);
    assert_eq!(power_info_from(true, BatteryStatus::Idle, 0, 0), PowerInfo::Charged);
    assert_eq!(power_info_from(true, BatteryStatus::NotPresent, 0, 0), PowerInfo::Wired);
    assert_eq!(power_info_from(true, BatteryStatus::Other, 0, 0), PowerInfo::Unknown);
}

const GUID: &str = "030000005e0400008e02000000000000";

fn device() -> (Vec<EvCode>, Vec<EvCode>) {
    collect_axes_and_buttons(4, 8, 1)
}

#[test]
fn parse_mapping_line() {
    let (buttons, axes) = device();
    let line = format!("{},Pad X,a:b0,b:b1,leftx:a0,lefty:-a1~,dpup:h0.1,misc1:b7,platform:Windows,", GUID);
    let m = parse_sdl_mapping(&line, &buttons, &axes).unwrap();
    assert_eq!(m.name(), "Pad X");
    assert_eq!(m.uuid(), 0x030000005e0400008e02000000000000);
    assert!(!m.is_default());
    assert_eq!(m.map(button(0)), Some(AxisOrBtn::Btn(Button::South)));
    assert_eq!(m.map(axis(1)), Some(AxisOrBtn::Axis(Axis::LeftStickY)));
    assert_eq!(m.map(button(7)), None);
    assert_eq!(m.map_rev(AxisOrBtn::Btn(Button::DPadUp)), None);
    assert_eq!(m.map_rev(AxisOrBtn::Axis(Axis::LeftStickX)), Some(axis(0)));
}

#[test]
fn parse_upper_case_uuid() {
    let (buttons, axes) = device();
    let m = parse_sdl_mapping("030000005E0400008E02000000000000,P,x:b2", &buttons, &axes).unwrap();
    assert_eq!(m.uuid(), 0x030000005e0400008e02000000000000);
    assert_eq!(m.map(button(2)), Some(AxisOrBtn::Btn(Button::West)));
}

#[test]
fn parse_errors() {
    let (buttons, axes) = device();
    let bad = |s: String| parse_sdl_mapping(&s, &buttons, &axes).err();
    assert_eq!(bad("nothex,Pad,a:b0".to_string()), Some(MappingError::Parser));
    assert_eq!(bad(GUID.to_string()), Some(MappingError::Parser));
    assert_eq!(bad(format!("{},Pad,a", GUID)), Some(MappingError::Parser));
    assert_eq!(bad(format!("{},Pad,a:q0", GUID)), Some(MappingError::Parser));
    assert_eq!(bad(format!("{},Pad,a:b", GUID)), Some(MappingError::Parser));
    assert_eq!(bad(format!("{},Pad,a:b1x", GUID)), Some(MappingError::Parser));
    assert_eq!(bad(format!("{},Pad,a:b8", GUID)), Some(MappingError::UnknownElement));
    assert_eq!(bad(format!("{},Pad,a:a99999999999999999999999", GUID)), Some(MappingError::UnknownElement));
    assert_eq!(bad(format!("{},Pad,a:b0,leftx:b0", GUID)), Some(MappingError::DuplicateAxis));
    assert_eq!(bad(format!("{},Pad,a:b0,a:b1", GUID)), Some(MappingError::Parser));
}

#[test]
fn mapping_text_round_trip() {
    let (buttons, axes) = device();
    let mut data = MappingData::new();
    data.insert_btn(Button::South, button(0));
    data.insert_btn(Button::Start, button(7));
    data.insert_btn(Button::LeftTrigger2, axis(3));
    data.insert_axis(Axis::LeftStickX, axis(0));
    data.insert_axis(Axis::DPadY, EvCode::new(EvCodeKind::Switch, 1));
    let (m, text) = from_data(&data, &buttons, &axes, "Round", 0x1234).unwrap();
    assert_eq!(
        text,
        "00000000000000000000000000001234,Round,a:b0,lefttrigger:a3,start:b7,leftx:a0,dpady:a5,"
    );
    let back = parse_sdl_mapping(&text, &buttons, &axes).unwrap();
    assert_eq!(back.name(), m.name());
    assert_eq!(back.uuid(), m.uuid());
    for code in buttons.iter().chain(axes.iter()) {
        assert_eq!(back.map(*code), m.map(*code));
    }
}

#[test]
fn mapping_data_edits() {
    let mut data = MappingData::new();
    assert_eq!(data.insert_btn(Button::North, button(3)), None);
    assert_eq!(data.insert_btn(Button::North, button(4)), Some(button(3)));
    assert_eq!(data.button(Button::North), Some(button(4)));
    assert_eq!(data.remove_button(Button::North), Some(button(4)));
    assert_eq!(data.button(Button::North), None);
    data.insert_axis(Axis::RightZ, axis(2));
    assert_eq!(data.remove_axis(Axis::RightZ), Some(axis(2)));
    let m = Mapping::new();
    assert!(m.is_default());
    assert_eq!(m.map(button(0)), None);
}

#[test]
fn mapping_db_lines() {
    let mut db = MappingDb::new();
    let text = format!("# comment\r\n{},First,a:b0,\r\n\nshort,Skip,\n{},Second,a:b1,", GUID, GUID);
    db.insert(&text);
    let got = db.get(0x030000005e0400008e02000000000000).unwrap();
    assert_eq!(got.as_str(), format!("{},Second,a:b1,", GUID));
    assert!(db.get(7).is_none());
    db.insert(&format!("{},Third\r", GUID));
    assert_eq!(db.get(0x030000005e0400008e02000000000000).unwrap().as_str(), format!("{},Third", GUID));
}

#[test]
fn characters_of_text() {
    assert_eq!(chars_of("añb"), vec!['a', 'ñ', 'b']);
}

#[test]
fn code_as_text() {
    assert_eq!(axis(3).to_text(), "Axis(3)");
    assert_eq!(button(12).to_text(), "Button(12)");
    assert_eq!(switch(0).to_text(), "Switch(0)");
}

#[test]
fn charge_above_full_reads_as_charged() {
    assert_eq!(power_info_from(true, BatteryStatus::Discharging, 100, 150), PowerInfo::Charged);
    assert_eq!(power_info_from(true, BatteryStatus::Charging, 100, 99), PowerInfo::Charging(99));
}

#[test]
fn code_keeps_last_committed_kind() {
    let mut s = GamepadState::new();
    let c = axis(4);
    s.commit(EventType::AxisChanged(Axis::LeftZ, 300_000, c), 1, 10);
    assert_eq!(s.value(c), 300_000);
    s.commit(EventType::ButtonChanged(Button::LeftTrigger2, 700_000, c), 2, 11);
    assert_eq!(s.value(c), 700_000);
    assert!(s.axis_data(c).is_none());
    assert_eq!(s.button_data(c).unwrap().counter(), 2);
    s.commit(EventType::AxisChanged(Axis::LeftZ, 100_000, c), 3, 12);
    assert!(s.button_data(c).is_none());
    assert_eq!(s.value(c), 100_000);
}
