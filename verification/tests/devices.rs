use evdev::{AbsoluteAxisCode, AttributeSet, EventType, KeyCode, RelativeAxisCode};
use joyclicks::codes;
use joyclicks::device::{
    declared_key_set, find_device, virtual_pad_axes, virtual_pad_name, AxisSetup, Candidate,
    NoDevice,
};
use joyclicks::reader::{
    after_fetch, after_poll, dev_kind, interpret, read_event, AfterFetch, AfterPoll, Course,
    FetchOutcome, Forwarding, Plan, Point, PollOutcome, RawEvent, Reader, Report, SendOutcome,
};
use joyclicks::session::Msg;

#[test]
fn codes_are_those_of_the_kernel() {
    assert_eq!(codes::BTN_LEFT, KeyCode::BTN_LEFT.0);
    assert_eq!(codes::BTN_RIGHT, KeyCode::BTN_RIGHT.0);
    assert_eq!(codes::BTN_MIDDLE, KeyCode::BTN_MIDDLE.0);
    assert_eq!(codes::BTN_SIDE, KeyCode::BTN_SIDE.0);
    assert_eq!(codes::BTN_EXTRA, KeyCode::BTN_EXTRA.0);
    assert_eq!(codes::BTN_SOUTH, KeyCode::BTN_SOUTH.0);
    assert_eq!(codes::BTN_EAST, KeyCode::BTN_EAST.0);
    assert_eq!(codes::BTN_NORTH, KeyCode::BTN_NORTH.0);
    assert_eq!(codes::BTN_WEST, KeyCode::BTN_WEST.0);
    assert_eq!(codes::BTN_TL, KeyCode::BTN_TL.0);
    assert_eq!(codes::BTN_TR, KeyCode::BTN_TR.0);
    assert_eq!(codes::BTN_SELECT, KeyCode::BTN_SELECT.0);
    assert_eq!(codes::BTN_START, KeyCode::BTN_START.0);
    assert_eq!(codes::BTN_MODE, KeyCode::BTN_MODE.0);
    assert_eq!(codes::BTN_THUMBL, KeyCode::BTN_THUMBL.0);
    assert_eq!(codes::BTN_THUMBR, KeyCode::BTN_THUMBR.0);
    assert_eq!(codes::REL_X, RelativeAxisCode::REL_X.0);
    assert_eq!(codes::REL_Y, RelativeAxisCode::REL_Y.0);
    assert_eq!(codes::REL_WHEEL, RelativeAxisCode::REL_WHEEL.0);
    assert_eq!(codes::ABS_X, AbsoluteAxisCode::ABS_X.0);
    assert_eq!(codes::ABS_Y, AbsoluteAxisCode::ABS_Y.0);
    assert_eq!(codes::ABS_Z, AbsoluteAxisCode::ABS_Z.0);
    assert_eq!(codes::ABS_RX, AbsoluteAxisCode::ABS_RX.0);
    assert_eq!(codes::ABS_RY, AbsoluteAxisCode::ABS_RY.0);
    assert_eq!(codes::ABS_RZ, AbsoluteAxisCode::ABS_RZ.0);
    assert_eq!(codes::ABS_HAT0X, AbsoluteAxisCode::ABS_HAT0X.0);
    assert_eq!(codes::ABS_HAT0Y, AbsoluteAxisCode::ABS_HAT0Y.0);
}

#[test]
fn declared_buttons() {
    assert!(codes::is_declared(KeyCode::BTN_START.0));
    assert!(!codes::is_declared(KeyCode::BTN_TL2.0));
    assert!(!codes::is_declared(KeyCode::BTN_TR2.0));
    assert!(!codes::is_declared(KeyCode::BTN_MODE.0));
}

#[test]
fn the_pad_announces_the_declared_buttons() {
    let set = declared_key_set();
    let keys = set.attributes();
    let announced: Vec<u16> = keys.iter().map(|k| k.0).collect();
    let mut expected = codes::DECLARED_KEYS.to_vec();
    expected.sort();
    assert_eq!(announced, expected);
    assert!(keys.contains(KeyCode::BTN_SOUTH));
    assert!(!keys.contains(KeyCode::BTN_MODE));
}

#[test]
fn the_pad_announces_its_axes() {
    let stick = |code: AbsoluteAxisCode| AxisSetup {
        code: code.0,
        value: 128,
        minimum: 0,
        maximum: 255,
        fuzz: 0,
        flat: 0,
        resolution: 0,
    };
    let other = |code: AbsoluteAxisCode, minimum: i32, maximum: i32| AxisSetup {
        code: code.0,
        value: 0,
        minimum,
        maximum,
        fuzz: 0,
        flat: 0,
        resolution: 0,
    };
    assert_eq!(
        virtual_pad_axes(),
        vec![
            stick(AbsoluteAxisCode::ABS_X),
            stick(AbsoluteAxisCode::ABS_Y),
            other(AbsoluteAxisCode::ABS_RX, -32767, 32767),
            other(AbsoluteAxisCode::ABS_RY, -32767, 32767),
            other(AbsoluteAxisCode::ABS_Z, 0, 255),
            other(AbsoluteAxisCode::ABS_RZ, 0, 255),
            other(AbsoluteAxisCode::ABS_HAT0X, -1, 1),
            other(AbsoluteAxisCode::ABS_HAT0Y, -1, 1),
        ]
    );
    assert_eq!(virtual_pad_name(), "JoyClicks Virtual Gamepad");
}

fn keys(codes: &[KeyCode]) -> AttributeSet<KeyCode> {
    codes.iter().collect()
}

fn rels(codes: &[RelativeAxisCode]) -> AttributeSet<RelativeAxisCode> {
    codes.iter().collect()
}

#[test]
fn the_first_device_that_suits_is_found() {
    let pad_keys = keys(&[KeyCode::BTN_SOUTH, KeyCode::BTN_EAST]);
    let mouse_keys = keys(&[KeyCode::BTN_LEFT]);
    let xy = rels(&[RelativeAxisCode::REL_X, RelativeAxisCode::REL_Y]);
    let candidates = vec![
        Candidate {
            name: "Wireless Controller Touchpad",
            keys: Some(&mouse_keys),
            relative_axes: None,
        },
        Candidate { name: "Sony Wireless Controller", keys: Some(&pad_keys), relative_axes: None },
        Candidate { name: "Wireless Controller", keys: Some(&pad_keys), relative_axes: None },
        Candidate { name: "Acme Gaming Mouse", keys: Some(&mouse_keys), relative_axes: Some(&xy) },
    ];
    assert!(matches!(find_device(&candidates, "Wireless Controller", true), Ok(1)));
    assert!(matches!(find_device(&candidates, "Gaming Mouse", false), Ok(3)));
    assert!(matches!(find_device(&candidates, "", false), Ok(3)));
}

#[test]
fn a_device_without_the_capabilities_is_passed_over() {
    let mouse_keys = keys(&[KeyCode::BTN_LEFT]);
    let right_only = keys(&[KeyCode::BTN_RIGHT]);
    let x = rels(&[RelativeAxisCode::REL_X]);
    let y = rels(&[RelativeAxisCode::REL_Y]);
    let candidates = vec![
        Candidate { name: "Mouse", keys: None, relative_axes: Some(&x) },
        Candidate { name: "Mouse", keys: Some(&right_only), relative_axes: Some(&x) },
        Candidate { name: "Mouse", keys: Some(&mouse_keys), relative_axes: Some(&y) },
        Candidate { name: "Mouse", keys: Some(&mouse_keys), relative_axes: None },
    ];
    let e = match find_device(&candidates, "Mouse", false) {
        Err(e) => e,
        Ok(_) => panic!(),
    };
    assert_eq!(
        e.message(),
        "no mouse matching name 'Mouse' with the required capabilities was found"
    );
    assert!(find_device(&candidates, "mouse", false).is_err());
}

#[test]
fn no_gamepad_is_reported_as_such() {
    let e = NoDevice { want_pad: true, name_substr: "Wireless Controller".to_string() };
    assert_eq!(
        e.message(),
        "no gamepad matching name 'Wireless Controller' with the required capabilities was found"
    );
    assert!(find_device(&Vec::new(), "x", true).is_err());
}

#[test]
fn mouse_events_become_messages() {
    let rel = EventType::RELATIVE.0;
    let key = EventType::KEY.0;
    assert_eq!(read_event(true, rel, codes::REL_X, -7), Some(Msg::MouseRel(-7, 0)));
    assert_eq!(read_event(true, rel, codes::REL_Y, 9), Some(Msg::MouseRel(0, 9)));
    assert_eq!(read_event(true, rel, codes::REL_WHEEL, 3), Some(Msg::MouseWheel(1)));
    assert_eq!(read_event(true, rel, codes::REL_WHEEL, -2), Some(Msg::MouseWheel(-1)));
    assert_eq!(read_event(true, rel, codes::REL_WHEEL, 0), None);
    assert_eq!(read_event(true, rel, 0x06, 1), None);
    assert_eq!(
        read_event(true, key, codes::BTN_LEFT, 1),
        Some(Msg::MouseButton(codes::BTN_LEFT, true))
    );
    assert_eq!(
        read_event(true, key, codes::BTN_LEFT, 0),
        Some(Msg::MouseButton(codes::BTN_LEFT, false))
    );
    assert_eq!(
        read_event(true, EventType::ABSOLUTE.0, codes::ABS_X, 4),
        Some(Msg::PadAbs(codes::ABS_X, 4))
    );
}

#[test]
fn pad_events_become_messages() {
    let key = EventType::KEY.0;
    let abs = EventType::ABSOLUTE.0;
    assert_eq!(
        read_event(false, key, codes::BTN_SOUTH, 1),
        Some(Msg::PadKey(codes::BTN_SOUTH, 1))
    );
    assert_eq!(
        read_event(false, key, codes::BTN_SOUTH, 2),
        Some(Msg::PadKey(codes::BTN_SOUTH, 2))
    );
    assert_eq!(read_event(false, abs, codes::ABS_Z, 200), Some(Msg::PadAbs(codes::ABS_Z, 200)));
    assert_eq!(read_event(false, EventType::RELATIVE.0, codes::REL_X, 5), None);
    for other in [EventType::SYNCHRONIZATION.0, EventType::MISC.0, EventType::LED.0, 0x1f, 0xffff] {
        assert_eq!(read_event(false, other, 1, 1), None);
        assert_eq!(read_event(true, other, 1, 1), None);
    }
}

#[test]
fn the_ps_button_toggles_on_press_only() {
    assert_eq!(interpret(false, RawEvent::Key(codes::BTN_MODE, 1)), Some(Msg::TogglePs));
    assert_eq!(interpret(false, RawEvent::Key(codes::BTN_MODE, 0)), None);
    assert_eq!(interpret(false, RawEvent::Key(codes::BTN_MODE, 2)), None);
}

#[test]
fn mice_follow_the_active_flag() {
    let mut r = Reader::new(true);
    assert_eq!(r.plan(false, true), Plan::Wait);
    assert_eq!(r.plan(false, false), Plan::UngrabAndWait);
    assert_eq!(r.plan(false, false), Plan::Wait);
    assert_eq!(r.plan(false, true), Plan::GrabAndWait);
    assert!(r.grabbed);
    assert_eq!(r.plan(true, false), Plan::Stop);
    assert!(r.grabbed);
}

#[test]
fn the_pad_stays_grabbed() {
    let mut r = Reader::new(false);
    assert_eq!(r.plan(false, false), Plan::Wait);
    assert!(r.grabbed);
    assert_eq!(r.plan(false, true), Plan::Wait);
    assert_eq!(r.plan(true, true), Plan::Stop);
}

#[test]
fn waiting_leads_to_reading_or_starting_over() {
    assert_eq!(after_poll(PollOutcome::TimedOut), AfterPoll::StartOver);
    assert_eq!(after_poll(PollOutcome::Interrupted), AfterPoll::StartOver);
    assert_eq!(after_poll(PollOutcome::Ready), AfterPoll::Read);
    assert_eq!(after_poll(PollOutcome::Failed), AfterPoll::Fail);
}

#[test]
fn a_failed_read_stops_the_reader() {
    assert_eq!(after_fetch(FetchOutcome::Fetched), AfterFetch::Forward);
    assert_eq!(after_fetch(FetchOutcome::Failed), AfterFetch::Fail);
}

fn batch() -> Vec<Report> {
    let rel = EventType::RELATIVE.0;
    vec![
        Report { event_type: rel, code: codes::REL_X, value: 3 },
        Report { event_type: EventType::SYNCHRONIZATION.0, code: 0, value: 0 },
        Report { event_type: rel, code: codes::REL_WHEEL, value: -1 },
        Report { event_type: EventType::KEY.0, code: codes::BTN_LEFT, value: 1 },
    ]
}

#[test]
fn a_batch_is_forwarded_in_order() {
    let mut f = Forwarding::new(true, &batch());
    let mut sent = Vec::new();
    while let Some(m) = f.next_to_send() {
        sent.push(m);
        f.record(SendOutcome::Sent);
    }
    let all = [Msg::MouseRel(3, 0), Msg::MouseWheel(-1), Msg::MouseButton(codes::BTN_LEFT, true)];
    assert_eq!(sent, all);
    assert!(!f.stopped);
    assert_eq!(Forwarding::new(false, &batch()).messages, [Msg::PadKey(codes::BTN_LEFT, 1)]);
}

#[test]
fn a_closed_channel_drops_the_rest_of_the_batch() {
    let mut f = Forwarding::new(true, &batch());
    f.record(SendOutcome::Sent);
    assert_eq!(f.next_to_send(), Some(Msg::MouseWheel(-1)));
    f.record(SendOutcome::Closed);
    assert_eq!(f.next_to_send(), None);
    assert!(f.stopped);
    f.record(SendOutcome::Sent);
    assert_eq!(f.sent, 1);
}

#[test]
fn every_way_out_releases_the_device() {
    let ways = [
        Point::Planned(Plan::Stop),
        Point::Polled(AfterPoll::Fail),
        Point::Fetched(AfterFetch::Fail),
        Point::Forwarded(true),
    ];
    for is_mouse in [true, false] {
        for point in ways {
            let mut r = Reader::new(is_mouse);
            assert_eq!(r.course(point), Course::ReleaseAndStop);
            assert!(!r.grabbed);
        }
    }
}

#[test]
fn the_pad_is_held_until_the_end() {
    let mut r = Reader::new(false);
    for active in [true, false, true] {
        let plan = r.plan(false, active);
        assert_eq!(plan, Plan::Wait);
        assert_eq!(r.course(Point::Planned(plan)), Course::GoOn);
        assert_eq!(r.course(Point::Polled(AfterPoll::StartOver)), Course::GoOn);
        assert_eq!(r.course(Point::Polled(AfterPoll::Read)), Course::GoOn);
        assert_eq!(r.course(Point::Fetched(AfterFetch::Forward)), Course::GoOn);
        assert_eq!(r.course(Point::Forwarded(false)), Course::GoOn);
        assert!(r.grabbed);
    }
    let plan = r.plan(true, true);
    assert_eq!(r.course(Point::Planned(plan)), Course::ReleaseAndStop);
    assert!(!r.grabbed);
}

#[test]
fn a_mouse_that_goes_on_keeps_its_grab() {
    let mut r = Reader::new(true);
    for (active, expected) in [(false, Plan::UngrabAndWait), (true, Plan::GrabAndWait)] {
        let plan = r.plan(false, active);
        assert_eq!(plan, expected);
        assert_eq!(r.course(Point::Planned(plan)), Course::GoOn);
        assert_eq!(r.grabbed, active);
    }
}

#[test]
fn readers_have_names() {
    assert_eq!(dev_kind(true), "mouse");
    assert_eq!(dev_kind(false), "pad");
}
