use qone::lights::{light_level, light_levels, light_style, LIGHT_STYLE_COUNT};

#[test]
fn style_letters_give_brightness() {
    assert_eq!(light_level(0, 0), 12);
    assert_eq!(light_level(0, 12345), 12);
    assert_eq!(light_level(2, 0), 0);
    assert_eq!(light_level(2, 25), 25);
    assert_eq!(light_level(9, 8), 25);
    // style 9 has 16 letters: frame 23 is letter 7
    assert_eq!(light_level(9, 23), 0);
}

#[test]
fn negative_frame_multiple_of_length() {
    assert_eq!(light_level(4, -12), light_level(4, 0));
}

#[test]
fn all_styles_at_once() {
    let v = light_levels(5);
    assert_eq!(v.len(), LIGHT_STYLE_COUNT);
    for i in 0..LIGHT_STYLE_COUNT {
        let s: Vec<char> = light_style(i).chars().collect();
        assert_eq!(v[i], s[5 % s.len()] as i32 - 'a' as i32);
    }
}

#[test]
fn light_animation_repeats_after_one_cycle() {
    for i in 0..LIGHT_STYLE_COUNT {
        let len = light_style(i).chars().count() as i32;
        for t in [0, 3, 17, 100] {
            assert_eq!(light_level(i, t + len), light_level(i, t));
        }
    }
}

#[test]
fn brightness_stays_between_a_and_z() {
    for t in 0..60 {
        for v in light_levels(t) {
            assert!((0..=25).contains(&v));
        }
    }
}
