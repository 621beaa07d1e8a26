use coin_monitor::settings::{decode, encode, GraphColor, Settings, SettingsError};
use coin_monitor::styling::Theme;

#[test]
fn settings_codec_round_trips() {
    let s = Settings {
        theme: Theme::Dark,
        show_all_coins: true,
        show_all_currencies: false,
        graph_color: GraphColor { red: 10, green: 200, blue: 30, alpha: 128 },
    };
    assert_eq!(decode(&encode(&s)), Ok(s));
}

#[test]
fn default_settings_round_trip() {
    let s = Settings::default();
    assert_eq!(s.theme, Theme::Default);
    assert!(!s.show_all_coins);
    assert!(!s.show_all_currencies);
    assert_eq!(s.graph_color, GraphColor { red: 0, green: 200, blue: 0, alpha: 255 });
    assert_eq!(decode(&encode(&s)), Ok(s));
}

#[test]
fn encoded_layout_is_one_byte_per_field() {
    let s = Settings {
        theme: Theme::Light,
        show_all_coins: false,
        show_all_currencies: true,
        graph_color: GraphColor { red: 1, green: 2, blue: 3, alpha: 4 },
    };
    assert_eq!(encode(&s), vec![1, 0, 1, 1, 2, 3, 4]);
}

#[test]
fn decode_rejects_unknown_theme() {
    assert_eq!(
        decode(&vec![3, 0, 0, 0, 0, 0, 0]),
        Err(SettingsError::UnknownTheme)
    );
}

#[test]
fn decode_rejects_wrong_length() {
    assert_eq!(decode(&vec![0, 0, 0, 0, 0, 0]), Err(SettingsError::WrongLength));
    assert_eq!(
        decode(&vec![0, 0, 0, 0, 0, 0, 0, 0]),
        Err(SettingsError::WrongLength)
    );
}

#[test]
fn decode_reads_any_nonone_byte_as_cleared_switch() {
    let s = decode(&vec![0, 2, 1, 0, 0, 0, 0]).unwrap();
    assert!(!s.show_all_coins);
    assert!(s.show_all_currencies);
}
