use notch::clock::{clock_text, current};

#[test]
fn clock_text_pads_to_two_digits() {
    assert_eq!(clock_text(7, 5), "07:05");
    assert_eq!(clock_text(0, 0), "00:00");
    assert_eq!(clock_text(23, 59), "23:59");
    assert_eq!(clock_text(12, 30), "12:30");
}

#[test]
fn current_has_clock_shape() {
    let t: Vec<char> = current().chars().collect();
    assert_eq!(t.len(), 5);
    assert_eq!(t[2], ':');
    for i in [0usize, 1, 3, 4] {
        assert!(t[i].is_ascii_digit());
    }
    let hour: u32 = t[0..2].iter().collect::<String>().parse().unwrap();
    let minute: u32 = t[3..5].iter().collect::<String>().parse().unwrap();
    assert!(hour < 24);
    assert!(minute < 60);
}
