use teleprompter::state::{Align, Font, Rgb, TeleprompterConfig, MAX_PROGRESS};

#[test]
fn default_config_values() {
    let d = TeleprompterConfig::default();
    assert!(!d.playing);
    assert!(d.text.starts_with("Lorem ipsum dolor sit amet"));
    assert_eq!(d.speed, 1000);
    assert_eq!(d.progress, 0);
    assert_eq!(d.align, Align::Left);
    assert_eq!(d.font, Font::Arial);
    assert_eq!(d.font_size, 128);
    assert_eq!(d.font_color, Rgb { red: 1000, green: 1000, blue: 1000 });
    assert_eq!(d.background_color, Rgb { red: 0, green: 0, blue: 0 });
    assert!(!d.mirrored);
    assert!(!d.reversed);
}

#[test]
fn equality_is_structural() {
    let a = TeleprompterConfig::default();
    let b = TeleprompterConfig::default();
    assert!(a == b);
    let mut c = a.clone();
    c.text = String::from("changed");
    assert!(a != c);
    let mut d = a.clone();
    d.progress = 5;
    assert!(a != d);
    let mut e = a.clone();
    e.mirrored = true;
    assert!(a != e);
}

#[test]
fn only_progress_changed_detects_pure_motion() {
    let a = TeleprompterConfig::default();
    let mut b = a.clone();
    b.progress = 4200;
    assert!(a.only_progress_changed(&b));
    assert!(b.only_progress_changed(&a));
}

#[test]
fn only_progress_changed_rejects_equal_and_mixed() {
    let a = TeleprompterConfig::default();
    assert!(!a.only_progress_changed(&a));
    let mut b = a.clone();
    b.progress = 4200;
    b.text = String::from("also new text");
    assert!(!a.only_progress_changed(&b));
    let mut c = a.clone();
    c.speed = 2000;
    assert!(!a.only_progress_changed(&c));
}

#[test]
fn font_labels() {
    assert_eq!(Font::Arial.to_string(), "Arial");
    assert_eq!(Font::CourierNew.to_string(), "Courier New");
    assert_eq!(Font::TimesNewRoman.to_string(), "Times New Roman");
    assert_eq!(Font::Verdana.to_string(), "Verdana");
}

#[test]
fn align_labels() {
    assert_eq!(Align::Left.to_string(), "Left");
    assert_eq!(Align::Center.to_string(), "Center");
    assert_eq!(Align::Right.to_string(), "Right");
    assert_eq!(Align::Justify.to_string(), "Justify");
}

#[test]
fn advance_moves_by_a_hundredth_of_speed() {
    let mut a = TeleprompterConfig::default();
    a.playing = true;
    a.speed = 1000;
    a.progress = 500;
    let b = a.advance();
    assert_eq!(b.progress, 510);
    assert!(b.playing);
}

#[test]
fn advance_clamps_and_stops_at_the_end() {
    let mut a = TeleprompterConfig::default();
    a.playing = true;
    a.speed = 1000;
    a.progress = MAX_PROGRESS - 3;
    let b = a.advance();
    assert_eq!(b.progress, MAX_PROGRESS);
    assert!(!b.playing);
}

#[test]
fn advance_does_nothing_while_paused() {
    let mut a = TeleprompterConfig::default();
    a.playing = false;
    a.progress = 700;
    let b = a.advance();
    assert!(a == b);
}
