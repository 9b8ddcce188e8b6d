use pid_loop::PID;

fn feed<const W: usize>(pid: &mut PID<i64, W>, inputs: &[(i64, i64)]) -> Vec<i64> {
    let mut out = Vec::new();
    for &(sp, fb) in inputs {
        out.push(pid.next(sp, fb));
    }
    out
}

#[test]
fn new_takes_gains_as_given() {
    let pid = PID::<i64, 4>::new(2, 3, 5, 7, 11);
    assert_eq!(pid.kp, 2);
    assert_eq!(pid.ki, 3);
    assert_eq!(pid.kd, 5);
    assert_eq!(pid.kf, 7);
    assert_eq!(pid.kv, 11);
}

#[test]
fn new_converts_gains() {
    let pid = PID::<i64, 1>::new(2i32, 3i16, 5i8, 7u8, 11u32);
    assert_eq!(pid.kp, 2i64);
    assert_eq!(pid.ki, 3i64);
    assert_eq!(pid.kd, 5i64);
    assert_eq!(pid.kf, 7i64);
    assert_eq!(pid.kv, 11i64);
}

#[test]
fn from_gains_without_feed_forward_has_zero_feed_forward_gains() {
    let pid = PID::<i64, 2>::from_gains(2, 3, 5, None);
    assert_eq!(pid.kp, 2);
    assert_eq!(pid.ki, 3);
    assert_eq!(pid.kd, 5);
    assert_eq!(pid.kf, 0);
    assert_eq!(pid.kv, 0);
}

#[test]
fn from_gains_with_feed_forward_is_new() {
    let inputs = [(10, 4), (12, 9), (12, 12), (-5, 3)];
    let mut a = PID::<i64, 3>::from_gains(2, 3, 5, Some((7, 11)));
    let mut b = PID::<i64, 3>::new(2, 3, 5, 7, 11);
    assert_eq!((a.kf, a.kv), (7, 11));
    assert_eq!(feed(&mut a, &inputs), feed(&mut b, &inputs));
}

#[test]
fn float_controller_runs() {
    let target = 30.0;
    let mut controller = PID::<f64, 1>::new(0.7, 0.034, 0.084, 0.1, 0.1);
    let correction = controller.next(target, 42.0);
    // error -12: p = -8.4, i = -0.408, d = -1.008, f = 3.0, v = 4.2
    assert!((correction - (-2.616)).abs() < 1e-9);
    controller.reset();
    let again = controller.next(target, 42.0);
    assert_eq!(correction, again);
}

#[test]
fn first_update_of_float_controller() {
    let mut controller = PID::<f64, 1>::new(2.0, 0.7, 0.3, 0.0, 0.0);
    assert_eq!(controller.next(42.0, 0.0), 126.0);
}

#[test]
fn correction_adds_all_five_terms() {
    let mut pid = PID::<i64, 2>::new(2, 3, 5, 7, 11);
    // error 6, delta 6, window [0, 6], setpoint change 10
    assert_eq!(pid.next(10, 4), 2 * 6 + 3 * 6 + 5 * 6 + 7 * 10 + 11 * 4);
    // error 3, delta -3, window [3, 6], setpoint change 2
    assert_eq!(pid.next(12, 9), 2 * 3 + 3 * 9 + 5 * (-3) + 7 * 2 + 11 * 9);
    // error 0, delta -3, window [3, 0], setpoint change 0
    assert_eq!(pid.next(12, 12), 3 * 3 + 5 * (-3) + 11 * 12);
}

#[test]
fn correction_without_feed_forward_adds_three_terms() {
    let mut pid = PID::<i64, 2>::from_gains(2, 3, 5, None);
    assert_eq!(pid.next(10, 4), 2 * 6 + 3 * 6 + 5 * 6);
    assert_eq!(pid.next(12, 9), 2 * 3 + 3 * 9 + 5 * (-3));
    assert_eq!(pid.next(12, 12), 3 * 3 + 5 * (-3));
}

#[test]
fn integral_is_sum_of_last_three_errors() {
    let mut pid = PID::<i64, 3>::new(0, 1, 0, 0, 0);
    let out = feed(&mut pid, &[(1, 0), (2, 0), (3, 0), (4, 0)]);
    assert_eq!(out, vec![1, 3, 6, 9]);
}

#[test]
fn older_errors_leave_the_window() {
    let mut long_history = PID::<i64, 3>::new(0, 1, 0, 0, 0);
    feed(&mut long_history, &[(1000, 0), (-500, 0), (77, 0)]);
    let mut short_history = PID::<i64, 3>::new(0, 1, 0, 0, 0);
    let inputs = [(5, 1), (6, 2), (9, 3), (1, 1), (8, 0)];
    let a = feed(&mut long_history, &inputs);
    let b = feed(&mut short_history, &inputs);
    assert_eq!(a[2..], b[2..]);
    assert_eq!(a[4], 6 + 0 + 8);
}

#[test]
fn window_of_one_holds_the_current_error() {
    let mut pid = PID::<i64, 1>::new(0, 1, 0, 0, 0);
    let out = feed(&mut pid, &[(5, 0), (7, 0), (-2, 0)]);
    assert_eq!(out, vec![5, 7, -2]);
}

#[test]
fn derivative_is_taken_against_previous_error() {
    let mut pid = PID::<i64, 3>::new(0, 0, 1, 0, 0);
    let out = feed(&mut pid, &[(5, 0), (7, 0), (7, 0), (1, 0), (0, 10)]);
    assert_eq!(out, vec![5, 2, 0, -6, -11]);
}

#[test]
fn zero_error_gives_zero_correction() {
    let mut plain = PID::<i64, 4>::from_gains(2, 3, 5, None);
    let out = feed(&mut plain, &[(4, 4), (9, 9), (-3, -3), (0, 0), (7, 7), (7, 7)]);
    assert_eq!(out, vec![0; 6]);
    let mut zero_gains = PID::<i64, 4>::new(2, 3, 5, 0, 0);
    let out = feed(&mut zero_gains, &[(4, 4), (9, 9), (-3, -3), (0, 0), (7, 7), (7, 7)]);
    assert_eq!(out, vec![0; 6]);
}

#[test]
fn zero_error_leaves_feed_forward_terms() {
    let mut pid = PID::<i64, 4>::new(2, 3, 5, 7, 11);
    // setpoint change 5, feedback 5
    assert_eq!(pid.next(5, 5), 7 * 5 + 11 * 5);
    // setpoint change 0, feedback 5
    assert_eq!(pid.next(5, 5), 11 * 5);
}

#[test]
fn constant_setpoint_has_no_feed_forward_term() {
    let mut pid = PID::<i64, 2>::new(0, 0, 0, 5, 0);
    assert_eq!(pid.next(10, 3), 50);
    assert_eq!(pid.next(10, 7), 0);
    assert_eq!(pid.next(12, 7), 10);
}

#[test]
fn reset_gives_outputs_of_fresh_controller() {
    let inputs = [(10, 4), (12, 9), (12, 12), (-5, 3), (0, 1)];
    let mut fresh = PID::<i64, 3>::new(2, 3, 5, 7, 11);
    let expected = feed(&mut fresh, &inputs);
    let mut used = PID::<i64, 3>::new(2, 3, 5, 7, 11);
    feed(&mut used, &[(100, -100), (3, 50), (8, 8), (-9, 9)]);
    used.reset();
    assert_eq!(feed(&mut used, &inputs), expected);
}

#[test]
fn reset_keeps_gains() {
    let mut pid = PID::<i64, 3>::new(2, 3, 5, 7, 11);
    pid.next(10, 4);
    pid.reset();
    assert_eq!((pid.kp, pid.ki, pid.kd, pid.kf, pid.kv), (2, 3, 5, 7, 11));
}

#[test]
fn gains_can_be_changed_between_updates() {
    let mut pid = PID::<i64, 2>::new(1, 0, 0, 0, 0);
    assert_eq!(pid.next(10, 4), 6);
    pid.kp = 3;
    assert_eq!(pid.next(10, 4), 18);
}

#[test]
fn update_takes_values_of_the_numeric_type() {
    let mut a = PID::<i64, 2>::new(2, 3, 5, 7, 11);
    let mut b = PID::<i64, 2>::new(2, 3, 5, 7, 11);
    for (sp, fb) in [(10i64, 4i64), (12, 9), (12, 12)] {
        assert_eq!(a.update(sp, fb), b.next(sp as i32, fb as i32));
    }
}
