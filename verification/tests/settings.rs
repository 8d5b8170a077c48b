use marker_overlay::settings::{Settings, DEFAULT_INVERT, DEFAULT_SHIFT};

#[test]
fn settings_start_plain() {
    let settings = Settings::default();
    assert!(!settings.invert());
    assert_eq!(settings.shift(), 0);
    assert_eq!(settings, Settings { invert: false, shift: 0 });
    assert!(!DEFAULT_INVERT);
    assert_eq!(DEFAULT_SHIFT, 0);
}

#[test]
fn settings_can_be_set_one_by_one() {
    let mut settings = Settings::new(false, 3);
    assert_eq!(settings.shift(), 3);
    settings.set_invert(true);
    assert_eq!(settings, Settings { invert: true, shift: 3 });
    settings.set_shift(255);
    assert_eq!(settings, Settings { invert: true, shift: 255 });
    settings.set_invert(false);
    assert_eq!(settings, Settings { invert: false, shift: 255 });
    assert!(!settings.invert());
    assert_eq!(settings.shift(), 255);
}

#[test]
fn shift_wraps_round() {
    assert_eq!(Settings::new(false, 0).apply(123), 123);
    assert_eq!(Settings::new(false, 10).apply(245), 255);
    assert_eq!(Settings::new(false, 10).apply(246), 0);
    assert_eq!(Settings::new(false, 10).apply(255), 9);
    assert_eq!(Settings::new(false, 255).apply(255), 254);
    assert_eq!(Settings::new(false, 255).apply(0), 255);
}

#[test]
fn invert_comes_before_shift() {
    assert_eq!(Settings::new(true, 0).apply(0), 255);
    assert_eq!(Settings::new(true, 0).apply(255), 0);
    assert_eq!(Settings::new(true, 0).apply(100), 155);
    assert_eq!(Settings::new(true, 10).apply(255), 10);
    assert_eq!(Settings::new(true, 10).apply(0), 9);
    assert_eq!(Settings::new(true, 200).apply(123), 76);
}
