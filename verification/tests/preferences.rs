use ticker::preferences::{interval_from_text, Preferences};
use ticker::settings::{DraftSettings, Settings, Timeframe};

#[test]
fn editing_and_saving_preferences() {
    let mut p = Preferences::new(Settings::default());
    assert_eq!(p.draft, DraftSettings::from(Settings::default()));

    p.set_update_interval(50);
    assert!(p.request_save().is_none());
    assert_eq!(
        p.validation_error.as_deref(),
        Some("Use um intervalo entre 100 e 60000 ms.")
    );

    p.set_update_interval(2_000);
    assert!(p.validation_error.is_none());
    p.select_timeframe(5);
    p.set_show_change(true);
    let to_save = p.request_save().expect("valid draft");
    assert_eq!(
        to_save,
        Settings {
            update_interval_ms: 2_000,
            timeframe: Timeframe::H4,
            show_change_percent: true
        }
    );
    assert_eq!(p.settings, Settings::default());

    p.save_failed("disk full");
    assert_eq!(
        p.validation_error.as_deref(),
        Some("Não foi possível salvar: disk full")
    );

    p.save_succeeded(to_save);
    assert_eq!(p.settings, to_save);
    assert_eq!(p.draft, DraftSettings::from(to_save));
    assert!(p.validation_error.is_none());
}

#[test]
fn discarding_restores_the_saved_draft() {
    let mut p = Preferences::new(Settings::default());
    p.set_update_interval(7);
    p.select_timeframe(0);
    let _ = p.request_save();
    p.reset_draft();
    assert_eq!(p.draft, DraftSettings::from(Settings::default()));
    assert!(p.validation_error.is_none());
}

#[test]
fn interval_text_reads_whole_milliseconds() {
    assert_eq!(interval_from_text("250"), Some(250));
    assert_eq!(interval_from_text("  1000 "), Some(1000));
    assert_eq!(interval_from_text("18446744073709551615"), Some(u64::MAX));
    assert_eq!(interval_from_text("18446744073709551616"), None);
    assert_eq!(interval_from_text(""), None);
    assert_eq!(interval_from_text("   "), None);
    assert_eq!(interval_from_text("1 000"), None);
    assert_eq!(interval_from_text("-5"), None);
    assert_eq!(interval_from_text("12ms"), None);
    assert_eq!(interval_from_text("١٢"), None);
}

#[test]
fn typed_interval_goes_into_the_draft() {
    let mut p = Preferences::new(Settings::default());
    p.set_interval_text(" 2500 ");
    assert_eq!(p.draft.update_interval_ms, 2500);
    assert!(p.request_save().is_some());
    p.set_interval_text("abc");
    assert_eq!(p.draft.update_interval_ms, 0);
    assert!(p.request_save().is_none());
    assert_eq!(
        p.validation_error.as_deref(),
        Some("Use um intervalo entre 100 e 60000 ms.")
    );
}
