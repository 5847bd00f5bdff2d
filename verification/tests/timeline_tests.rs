//! Timeline control: pacing flags and speed, pause/resume, cancel and
//! reset.  Speeds are in thousandths of real time (1000 is 1.0x).

use candor_io::timeline::TimelineControl;

#[test]
fn test_initial_speed_zero_disables_pacing() {
    let ctrl = TimelineControl::new(0);
    assert!(!ctrl.is_pacing_enabled());
    assert_eq!(ctrl.read_speed(), 1000); // Stores real time when disabled
}

#[test]
fn test_initial_speed_nonzero_enables_pacing() {
    let ctrl = TimelineControl::new(2000);
    assert!(ctrl.is_pacing_enabled());
    assert_eq!(ctrl.read_speed(), 2000);
}

#[test]
fn test_set_speed_zero_disables_pacing() {
    let mut ctrl = TimelineControl::new(1000);
    assert!(ctrl.is_pacing_enabled());

    ctrl.set_speed(0).unwrap();
    assert!(!ctrl.is_pacing_enabled());
}

#[test]
fn test_set_speed_nonzero_enables_pacing() {
    let mut ctrl = TimelineControl::new(0);
    assert!(!ctrl.is_pacing_enabled());

    ctrl.set_speed(1500).unwrap();
    assert!(ctrl.is_pacing_enabled());
    assert_eq!(ctrl.read_speed(), 1500);
}

#[test]
fn test_set_speed_negative_fails() {
    let mut ctrl = TimelineControl::new(1000);
    assert!(ctrl.set_speed(-1000).is_err());
}

#[test]
fn test_pause_resume() {
    let mut ctrl = TimelineControl::new(1000);
    assert!(!ctrl.is_paused());

    ctrl.pause();
    assert!(ctrl.is_paused());

    ctrl.resume();
    assert!(!ctrl.is_paused());
}

#[test]
fn test_cancel() {
    let mut ctrl = TimelineControl::new(1000);
    assert!(!ctrl.is_cancelled());

    ctrl.cancel();
    assert!(ctrl.is_cancelled());
}

#[test]
fn test_reset() {
    let mut ctrl = TimelineControl::new(1000);
    ctrl.cancel();
    ctrl.pause();
    assert!(ctrl.is_cancelled());
    assert!(ctrl.is_paused());

    ctrl.reset();
    assert!(!ctrl.is_cancelled());
    assert!(!ctrl.is_paused());
}
