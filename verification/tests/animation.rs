use ascii_cube::animation::{advance, Action, Angles, Animation, Phase, ANGLE_STEP};
use ascii_cube::delay::{frame_delay, parse_millis, DEFAULT_FRAME_DELAY};

#[test]
fn default_delay_is_fifty_milliseconds() {
    assert_eq!(DEFAULT_FRAME_DELAY, 50);
    assert_eq!(frame_delay(None), 50);
    assert_eq!(frame_delay(Some(b"")), 50);
    assert_eq!(frame_delay(Some(b"fast")), 50);
    assert_eq!(frame_delay(Some(b"12ms")), 50);
    assert_eq!(frame_delay(Some(b"-5")), 50);
    assert_eq!(frame_delay(Some(b"18446744073709551616")), 50);
    assert_eq!(frame_delay(Some(b"0")), 0);
    assert_eq!(frame_delay(Some(b"120")), 120);
    assert_eq!(Animation::start(120).delay_ms, 120);
}

#[test]
fn millis_are_read_as_the_standard_library_reads_them() {
    let texts: [&str; 22] = [
        "", "+", "-", "0", "7", "007", "+7", "++7", "-7", "+-7", "7+", " 7", "7 ", "1_000",
        "0x10", "50", "18446744073709551615", "18446744073709551616", "18446744073709551620",
        "99999999999999999999999", "+18446744073709551615", "12.5",
    ];
    for text in texts.iter() {
        assert_eq!(parse_millis(text.as_bytes()), text.parse::<u64>().ok(), "{:?}", text);
    }
    assert_eq!(parse_millis(b"50"), Some(50));
    assert_eq!(parse_millis(b"+0012"), Some(12));
    assert_eq!(parse_millis(b"18446744073709551615"), Some(u64::MAX));
    assert_eq!(parse_millis(b"18446744073709551616"), None);
    assert_eq!(parse_millis(b"1844674407370955162"), Some(1844674407370955162));
    assert_eq!(parse_millis(b"\xc2\xb2"), None);
}

#[test]
fn loop_clears_then_alternates_frames_and_sleeps() {
    let mut a = Animation::start(30);
    assert_eq!(a.phase, Phase::Opening);
    assert_eq!(a.step(false), Action::Clear);
    assert_eq!(a.step(false), Action::Frame(Angles { x: 0, y: 0, z: 0 }));
    assert_eq!(a.step(false), Action::Sleep(30));
    assert_eq!(a.step(false), Action::Frame(Angles { x: 50, y: 50, z: 50 }));
    assert_eq!(a.step(false), Action::Sleep(30));
    assert_eq!(a.step(false), Action::Frame(Angles { x: 100, y: 100, z: 100 }));
    assert_eq!(a.phase, Phase::Resting);
}

#[test]
fn sleep_follows_every_frame() {
    let mut a = Animation::start(DEFAULT_FRAME_DELAY);
    let mut last_was_frame = false;
    let mut frames = 0;
    for i in 0..200 {
        // a request to cancel while a sleep is due is not honoured
        let action = a.step(last_was_frame && i % 3 == 0);
        match action {
            Action::Frame(_) => {
                assert!(!last_was_frame);
                frames += 1;
                last_was_frame = true;
            }
            Action::Sleep(ms) => {
                assert!(last_was_frame);
                assert_eq!(ms, 50);
                last_was_frame = false;
            }
            Action::Clear => assert_eq!(i, 0),
            Action::Stop => panic!("the loop ended unasked"),
        }
    }
    assert_eq!(frames, 100);
}

#[test]
fn cancel_is_honoured_when_a_frame_is_due() {
    let mut a = Animation::start(DEFAULT_FRAME_DELAY);
    assert_eq!(a.step(true), Action::Clear);
    assert_eq!(a.step(false), Action::Frame(Angles { x: 0, y: 0, z: 0 }));
    assert_eq!(a.step(true), Action::Sleep(50));
    assert_eq!(a.step(true), Action::Stop);
    assert_eq!(a.phase, Phase::Stopped);
    assert_eq!(a.step(false), Action::Stop);
    assert_eq!(a.angles, Angles { x: 50, y: 50, z: 50 });
}

#[test]
fn angles_advance_by_a_twentieth_of_a_radian() {
    assert_eq!(ANGLE_STEP, 50);
    assert_eq!(advance(0), 50);
    assert_eq!(advance(6250), 6300);
    let next = Angles { x: 1, y: 2, z: 3 }.advanced();
    assert_eq!(next, Angles { x: 51, y: 52, z: 53 });
}

#[test]
fn angles_wrap_at_the_end_of_the_range() {
    assert_eq!(advance(u64::MAX), 49);
    assert_eq!(advance(u64::MAX - 50), u64::MAX);
    assert_eq!(advance(u64::MAX - 49), 0);
}
