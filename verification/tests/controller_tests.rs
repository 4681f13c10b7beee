use bongo_display::controller::{compose_frame, DisplayController, DisplayDriver, Frame};
use bongo_display::info::{Infomation, TelemetryEvent};
use bongo_display::pose::Pose;

#[test]
fn throttle_scenario() {
    // Events at t = 0, 4, 9, 12 ms: the very first event always
    // redraws; among the following ones only the event at t = 12 is
    // at least 10 ms after the last redraw.
    let mut ctl = DisplayController::new(0);
    assert!(ctl.process_event(&TelemetryEvent::Wpm(50), 0).is_some());
    assert!(ctl.process_event(&TelemetryEvent::Wpm(51), 4).is_none());
    assert!(ctl.process_event(&TelemetryEvent::Wpm(52), 9).is_none());
    assert!(ctl.process_event(&TelemetryEvent::Wpm(53), 12).is_some());
}

#[test]
fn first_event_always_redraws() {
    let mut ctl = DisplayController::new(0);
    // Even at a large timestamp, the first event redraws.
    assert!(ctl.process_event(&TelemetryEvent::Battery(50), 123456).is_some());
    // And exactly at the interval boundary a redraw is due again.
    assert!(ctl.process_event(&TelemetryEvent::Battery(51), 123456 + 10).is_some());
    assert!(ctl.process_event(&TelemetryEvent::Battery(52), 123456 + 19).is_none());
}

#[test]
fn animation_parity_scenario() {
    // Typing speed fixed nonzero across three consecutive throttled
    // redraws: the selected pose alternates Default, BothUp, Default.
    let mut ctl = DisplayController::new(0);
    let f1 = ctl.process_event(&TelemetryEvent::Wpm(60), 0).unwrap();
    let f2 = ctl.process_event(&TelemetryEvent::Wpm(60), 20).unwrap();
    let f3 = ctl.process_event(&TelemetryEvent::Wpm(60), 40).unwrap();
    assert_eq!(f1.pose, Pose::Default);
    assert_eq!(f2.pose, Pose::BothUp);
    assert_eq!(f3.pose, Pose::Default);

    // The moment typing speed becomes zero the next redraw selects
    // the default pose and resets parity to even.
    let f4 = ctl.process_event(&TelemetryEvent::Wpm(0), 60).unwrap();
    assert_eq!(f4.pose, Pose::Default);
    assert!(!ctl.info.up);
    // Typing resumes: the animation starts over from the same frame
    // sequence.
    let f5 = ctl.process_event(&TelemetryEvent::Wpm(60), 80).unwrap();
    assert_eq!(f5.pose, Pose::Default);
    let f6 = ctl.process_event(&TelemetryEvent::Wpm(60), 100).unwrap();
    assert_eq!(f6.pose, Pose::BothUp);
}

#[test]
fn wpm_text_is_decimal() {
    let mut ctl = DisplayController::new(0);
    let f = ctl.process_event(&TelemetryEvent::Wpm(37), 0).unwrap();
    assert_eq!(f.wpm_text, "37");
    let f = ctl.process_event(&TelemetryEvent::Wpm(0), 20).unwrap();
    assert_eq!(f.wpm_text, "0");
    let f = ctl.process_event(&TelemetryEvent::Wpm(65535), 40).unwrap();
    assert_eq!(f.wpm_text, "65535");
    let f = ctl.process_event(&TelemetryEvent::Wpm(100), 60).unwrap();
    assert_eq!(f.wpm_text, "100");
}

#[test]
fn compose_frame_idle_resets_parity() {
    let mut info = Infomation::new(0);
    info.up = true;
    info.wpm = 0;
    let f = compose_frame(&mut info);
    assert_eq!(f.pose, Pose::Default);
    assert!(!info.up);
}

#[test]
fn compose_frame_typing_flips_parity() {
    let mut info = Infomation::new(0);
    info.wpm = 30;
    let f = compose_frame(&mut info);
    assert_eq!(f.pose, Pose::Default);
    assert!(info.up);
    let f = compose_frame(&mut info);
    assert_eq!(f.pose, Pose::BothUp);
    assert!(!info.up);
}

struct RecordingDriver {
    calls: Vec<String>,
}

impl DisplayDriver for RecordingDriver {
    fn clear(&mut self) {
        self.calls.push(String::from("clear"));
    }

    fn draw(&mut self, frame: &Frame) {
        self.calls.push(format!("draw {}", frame.wpm_text));
    }

    fn flush(&mut self) {
        self.calls.push(String::from("flush"));
    }
}

#[test]
fn run_step_paints_only_when_due() {
    let mut ctl = DisplayController::new(0);
    let mut driver = RecordingDriver { calls: Vec::new() };
    assert!(ctl.run_step(&mut driver, &TelemetryEvent::Wpm(5), 0));
    assert_eq!(driver.calls, vec!["clear", "draw 5", "flush"]);
    driver.calls.clear();
    assert!(!ctl.run_step(&mut driver, &TelemetryEvent::Wpm(6), 5));
    assert!(driver.calls.is_empty());
}
