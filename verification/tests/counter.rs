use led_control::counter::{counter_digits, counter_frame, counter_step, Shown};

fn digit(value: usize) -> Option<Shown> {
    Some(Shown { value, point: false })
}

fn ones(value: usize) -> Option<Shown> {
    Some(Shown { value, point: true })
}

#[test]
fn counter_digits_splits_hundreds_tens_ones() {
    assert_eq!(counter_digits(0), [0, 0, 0]);
    assert_eq!(counter_digits(7), [0, 0, 7]);
    assert_eq!(counter_digits(42), [0, 4, 2]);
    assert_eq!(counter_digits(907), [9, 0, 7]);
    assert_eq!(counter_digits(999), [9, 9, 9]);
    assert_eq!(counter_digits(1000), [0, 0, 0]);
    assert_eq!(counter_digits(12345), [3, 4, 5]);
    for number in 0usize..2000 {
        assert_eq!(
            counter_digits(number),
            [number / 100 % 10, number / 10 % 10, number % 10]
        );
    }
    let top = usize::MAX;
    assert_eq!(counter_digits(top), [top / 100 % 10, top / 10 % 10, top % 10]);
}

#[test]
fn counter_frame_of_zero_is_a_single_zero_with_point() {
    assert_eq!(counter_frame(0, 0), [None, None, ones(0), digit(0)]);
    assert_eq!(counter_frame(0, 7), [None, None, ones(0), digit(7)]);
}

#[test]
fn counter_frame_hides_leading_zeros() {
    assert_eq!(counter_frame(5, 1), [None, None, ones(5), digit(1)]);
    assert_eq!(counter_frame(10, 0), [None, digit(1), ones(0), digit(0)]);
    assert_eq!(counter_frame(42, 9), [None, digit(4), ones(2), digit(9)]);
    assert_eq!(counter_frame(100, 3), [digit(1), digit(0), ones(0), digit(3)]);
    assert_eq!(counter_frame(907, 3), [digit(9), digit(0), ones(7), digit(3)]);
    assert_eq!(counter_frame(999, 9), [digit(9), digit(9), ones(9), digit(9)]);
}

#[test]
fn counter_frame_below_a_thousand() {
    for whole in 1usize..1000 {
        let frame = counter_frame(whole, 4);
        assert_eq!(frame[0], if whole >= 100 { digit(whole / 100) } else { None });
        assert_eq!(frame[1], if whole >= 10 { digit(whole / 10 % 10) } else { None });
        assert_eq!(frame[2], ones(whole % 10));
        assert_eq!(frame[3], digit(4));
    }
}

#[test]
fn counter_frame_of_a_thousand_shows_only_the_tenths() {
    assert_eq!(counter_frame(1000, 2), [None, None, None, digit(2)]);
    assert_eq!(counter_frame(2030, 2), [None, digit(3), ones(0), digit(2)]);
}

#[test]
fn counter_step_carries_into_the_whole_part() {
    assert_eq!(counter_step(0, 0, 1), (0, 1));
    assert_eq!(counter_step(0, 9, 1), (1, 0));
    assert_eq!(counter_step(5, 9, 1), (6, 0));
    assert_eq!(counter_step(999, 9, 1), (1000, 0));
    assert_eq!(counter_step(3, 4, 0), (3, 4));
    assert_eq!(counter_step(3, 4, 25), (5, 9));
    assert_eq!(counter_step(3, 8, 12), (5, 0));
}

#[test]
fn counter_reaches_a_thousand_after_ten_thousand_steps() {
    let mut count = (0usize, 0usize);
    let mut steps = 0usize;
    while count.0 != 1000 {
        assert_eq!(count.0 * 10 + count.1, steps);
        count = counter_step(count.0, count.1, 1);
        steps += 1;
    }
    assert_eq!(steps, 10_000);
    assert_eq!(count, (1000, 0));
}
