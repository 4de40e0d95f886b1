use ticker::poll::update_period_ms;
use ticker::settings::{
    DraftSettings, Settings, Timeframe, MAX_UPDATE_MS, MIN_UPDATE_MS, TIMEFRAME_LABELS,
};

#[test]
fn timeframe_roundtrip_uses_supported_indices() {
    for index in 0..TIMEFRAME_LABELS.len() {
        assert_eq!(Timeframe::from_index(index).index(), index);
    }
}

#[test]
fn draft_validates_update_interval() {
    let mut draft = DraftSettings::from(Settings::default());
    draft.update_interval_ms = 99;
    assert!(draft.parse().is_err());

    draft.update_interval_ms = 250;
    assert_eq!(draft.parse().unwrap().update_interval_ms, 250);
}

#[test]
fn timeframe_names_follow_the_exchange() {
    assert_eq!(Timeframe::M1.as_binance(), "1m");
    assert_eq!(Timeframe::M5.as_binance(), "5m");
    assert_eq!(Timeframe::M15.as_binance(), "15m");
    assert_eq!(Timeframe::M30.as_binance(), "30m");
    assert_eq!(Timeframe::H1.as_binance(), "1h");
    assert_eq!(Timeframe::H4.as_binance(), "4h");
    assert_eq!(Timeframe::D1.as_binance(), "1d");
}

#[test]
fn timeframe_from_unknown_index_is_one_hour() {
    assert_eq!(Timeframe::from_index(4), Timeframe::H1);
    assert_eq!(Timeframe::from_index(7), Timeframe::H1);
    assert_eq!(Timeframe::from_index(usize::MAX), Timeframe::H1);
    assert_eq!(Timeframe::from_index(6), Timeframe::D1);
    assert_eq!(Timeframe::default(), Timeframe::H1);
}

#[test]
fn every_timeframe_survives_its_index() {
    for t in [
        Timeframe::M1,
        Timeframe::M5,
        Timeframe::M15,
        Timeframe::M30,
        Timeframe::H1,
        Timeframe::H4,
        Timeframe::D1,
    ] {
        assert!(t.index() < TIMEFRAME_LABELS.len());
        assert_eq!(Timeframe::from_index(t.index()), t);
    }
    assert_eq!(TIMEFRAME_LABELS[Timeframe::H1.index()], "1 h");
}

#[test]
fn default_settings_poll_every_second_on_hourly_candles() {
    let s = Settings::default();
    assert_eq!(s.update_interval_ms, 1_000);
    assert_eq!(s.timeframe, Timeframe::H1);
    assert!(!s.show_change_percent);
    assert_eq!(update_period_ms(s), 1_000);
}

#[test]
fn draft_bounds_are_inclusive_and_message_names_them() {
    let mut draft = DraftSettings::from(Settings::default());
    draft.update_interval_ms = MIN_UPDATE_MS;
    assert!(draft.parse().is_ok());
    draft.update_interval_ms = MAX_UPDATE_MS;
    assert!(draft.parse().is_ok());
    draft.update_interval_ms = MAX_UPDATE_MS + 1;
    assert_eq!(
        draft.parse().unwrap_err(),
        "Use um intervalo entre 100 e 60000 ms."
    );
}

#[test]
fn draft_roundtrip_keeps_settings() {
    let s = Settings {
        update_interval_ms: 5_000,
        timeframe: Timeframe::M15,
        show_change_percent: true,
    };
    let draft = DraftSettings::from(s);
    assert_eq!(draft.timeframe_index, 2);
    assert_eq!(draft.parse(), Ok(s));
}

#[test]
fn stored_settings_out_of_range_fall_back_to_defaults() {
    let good = Settings {
        update_interval_ms: 500,
        timeframe: Timeframe::D1,
        show_change_percent: true,
    };
    assert_eq!(Settings::from_stored(Some(good)), good);
    let bad = Settings {
        update_interval_ms: 50,
        ..good
    };
    assert_eq!(Settings::from_stored(Some(bad)), Settings::default());
    assert_eq!(Settings::from_stored(None), Settings::default());
}
