use pid_loop::DiscretePID;

fn feed(pid: &mut DiscretePID<i64>, inputs: &[(i64, i64)]) -> Vec<i64> {
    let mut out = Vec::new();
    for &(sp, fb) in inputs {
        out.push(pid.next(sp, fb));
    }
    out
}

#[test]
fn first_tap_alone_passes_the_error() {
    let mut pid = DiscretePID::<i64>::new(1, 0, 0);
    assert_eq!(feed(&mut pid, &[(10, 0), (10, 0), (10, 0)]), vec![10, 10, 10]);
}

#[test]
fn first_tap_alone_passes_the_error_in_floats() {
    let mut pid = DiscretePID::<f64>::new(1.0, 0.0, 0.0);
    assert_eq!(pid.next(10.0, 0.0), 10.0);
    assert_eq!(pid.next(10.0, 0.0), 10.0);
    assert_eq!(pid.next(10.0, 0.0), 10.0);
}

#[test]
fn discrete_new_takes_gains_as_given() {
    let pid = DiscretePID::<i64>::new(2, 3i32, 5u8);
    assert_eq!((pid.kp, pid.ki, pid.kd), (2, 3, 5));
}

#[test]
fn taps_shift_by_one_each_update() {
    let mut pid = DiscretePID::<i64>::new(1, 10, 100);
    let out = feed(&mut pid, &[(1, 0), (2, 0), (3, 0), (4, 0), (0, 0), (0, 0), (0, 0)]);
    assert_eq!(out, vec![1, 12, 123, 234, 340, 400, 0]);
}

#[test]
fn second_and_third_tap_see_older_errors_only() {
    let mut second = DiscretePID::<i64>::new(0, 1, 0);
    assert_eq!(feed(&mut second, &[(7, 0), (8, 0), (9, 0)]), vec![0, 7, 8]);
    let mut third = DiscretePID::<i64>::new(0, 0, 1);
    assert_eq!(feed(&mut third, &[(7, 0), (8, 0), (9, 0), (1, 0)]), vec![0, 0, 7, 8]);
}

#[test]
fn set_config_mixes_gains() {
    let mut pid = DiscretePID::<i64>::new(0, 0, 0);
    pid.set_config(1, 2, 3);
    assert_eq!(pid.kp, 1 + 2 + 3);
    assert_eq!(pid.ki, 0 - 1 - 3 * 3);
    assert_eq!(pid.kd, 3);
}

#[test]
fn set_config_of_proportional_gain_alone() {
    let mut pid = DiscretePID::<i64>::new(0, 0, 0);
    pid.set_config(1, 0, 0);
    assert_eq!((pid.kp, pid.ki, pid.kd), (1, -1, 0));
    assert_eq!(feed(&mut pid, &[(10, 0), (10, 0), (10, 0)]), vec![10, 0, 0]);
}

#[test]
fn set_config_keeps_taps() {
    let mut pid = DiscretePID::<i64>::new(1, 1, 1);
    feed(&mut pid, &[(5, 0), (7, 0)]);
    pid.set_config(1, 2, 3);
    // 6 * 1 + (-10) * 7 + 3 * 5
    assert_eq!(pid.next(1, 0), 6 - 70 + 15);
}

#[test]
fn discrete_zero_error_gives_zero_correction() {
    let mut pid = DiscretePID::<i64>::new(2, 3, 5);
    let out = feed(&mut pid, &[(4, 4), (9, 9), (-3, -3), (0, 0), (7, 7)]);
    assert_eq!(out, vec![0; 5]);
}

#[test]
fn discrete_reset_gives_outputs_of_fresh_controller() {
    let inputs = [(10, 4), (12, 9), (12, 12), (-5, 3), (0, 1)];
    let mut fresh = DiscretePID::<i64>::new(2, 3, 5);
    let expected = feed(&mut fresh, &inputs);
    let mut used = DiscretePID::<i64>::new(2, 3, 5);
    feed(&mut used, &[(100, -100), (3, 50), (8, 8), (-9, 9)]);
    used.reset();
    assert_eq!(feed(&mut used, &inputs), expected);
}

#[test]
fn discrete_reset_keeps_gains() {
    let mut pid = DiscretePID::<i64>::new(0, 0, 0);
    pid.set_config(1, 2, 3);
    pid.next(10, 0);
    pid.reset();
    assert_eq!((pid.kp, pid.ki, pid.kd), (6, -10, 3));
}

#[test]
fn discrete_update_takes_values_of_the_numeric_type() {
    let mut a = DiscretePID::<i64>::new(2, 3, 5);
    let mut b = DiscretePID::<i64>::new(2, 3, 5);
    for (sp, fb) in [(10i64, 4i64), (12, 9), (12, 12)] {
        assert_eq!(a.update(sp, fb), b.next(sp as i32, fb as i32));
    }
}
