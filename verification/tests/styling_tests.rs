use coin_monitor::styling::{Button, Checkbox, Container, PickList, Rgb, Rule, Theme};

#[test]
fn theme_discriminants_round_trip() {
    for theme in Theme::all() {
        assert_eq!(Theme::from_discriminant(theme.discriminant()), Some(theme));
    }
    assert_eq!(Theme::from_discriminant(3), None);
    assert_eq!(Theme::from_discriminant(255), None);
}

#[test]
fn theme_defaults_and_labels() {
    assert_eq!(Theme::default(), Theme::Default);
    assert_eq!(Theme::Default.label(), "Default");
    assert_eq!(Theme::Light.label(), "Light");
    assert_eq!(Theme::Dark.label(), "Dark");
}

#[test]
fn dark_button_palette() {
    let b = Button::dark();
    assert_eq!(b.background, Rgb { red: 0x72, green: 0x89, blue: 0xDA });
    assert_eq!(b.hovered_background, Rgb { red: 0x67, green: 0x7B, blue: 0xC4 });
    assert_eq!(b.text, Rgb { red: 255, green: 255, blue: 255 });
}

#[test]
fn dark_picklist_palette() {
    let p = PickList::dark();
    assert_eq!(p.background, Rgb { red: 0x40, green: 0x44, blue: 0x4B });
    assert_eq!(p.border, p.selected_background);
    assert_eq!(p.text, Rgb { red: 255, green: 255, blue: 255 });
}

#[test]
fn dark_checkbox_backgrounds_follow_checked_state() {
    let c = Checkbox::dark();
    assert_eq!(c.background(true), Rgb { red: 0x72, green: 0x89, blue: 0xDA });
    assert_eq!(c.background(false), Rgb { red: 0x40, green: 0x44, blue: 0x4B });
    assert_eq!(c.checkmark, Rgb { red: 255, green: 255, blue: 255 });
}

#[test]
fn dark_container_and_rule() {
    let c = Container::dark();
    assert_eq!(c.background, Rgb { red: 0x36, green: 0x39, blue: 0x3F });
    let r = Rule::dark();
    assert_eq!(r.color, Rgb { red: 0x40, green: 0x44, blue: 0x4B });
    assert_eq!(r.width, 2);
    assert_eq!(r.fill_padding, 15);
}
