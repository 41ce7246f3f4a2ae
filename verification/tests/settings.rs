//! What a server decides for itself, and the cache around it.

use sc_server::settings::{FileRead, Seed, Settings, SettingsCache};

#[test]
fn the_seed_is_applied_once_and_never_again() {
    let seed = Seed {
        show_spec: Some(false),
        ..Seed::default()
    };

    let mut s = Settings::default();
    assert!(s.seed(seed));
    assert_eq!(s.show_spec, Some(false));

    s.show_spec = Some(true);
    assert!(!s.seed(seed), "a later boot does not");
    assert_eq!(s.show_spec, Some(true), "the edit survived");
}

#[test]
fn an_empty_seed_still_marks_the_volume_administered() {
    let mut s = Settings::default();
    assert!(s.seed(Seed::default()));
    assert!(s.seeded);
    assert!(!s.seed(Seed {
        show_spec: Some(false),
        ..Seed::default()
    },));
    assert_eq!(s.show_spec, None);
}

#[test]
fn the_cache_sees_a_change_on_the_next_look() {
    let mut s = Settings {
        show_spec: Some(false),
        ..Settings::default()
    };
    let mut cache = SettingsCache::default();
    assert_eq!(cache.current(Some(7), FileRead::Read(s)).show_spec, Some(false));

    s.show_spec = Some(true);
    // The write landed within the tick of the read before it.
    assert!(!cache.is_stale(Some(7)));
    cache.invalidate();
    assert_eq!(cache.current(Some(7), FileRead::Read(s)).show_spec, Some(true));
}

#[test]
fn a_missing_file_is_an_unconfigured_server_and_not_an_error() {
    let mut cache = SettingsCache::default();
    assert!(!cache.current(None, FileRead::Unreadable).seeded);
}

#[test]
fn a_file_that_goes_bad_keeps_the_last_good_settings() {
    let good = Settings {
        public: true,
        ..Settings::default()
    };
    let mut cache = SettingsCache::default();
    cache.refresh(Some(1), FileRead::Read(good));
    cache.refresh(Some(2), FileRead::Malformed);
    assert!(cache.current(Some(2), FileRead::Malformed).public);
    cache.refresh(Some(3), FileRead::Unreadable);
    assert!(cache.value.public);
    cache.refresh(None, FileRead::Unreadable);
    assert!(!cache.value.public, "a file that is gone is no configuration");
}

#[test]
fn everything_the_environment_offers_is_taken() {
    let mut s = Settings::default();
    s.seed(Seed {
        public: true,
        show_spec: Some(true),
        max_daily_filings: Some(1),
        max_daily_drafts: Some(2),
        max_accounts: Some(3),
        max_outstanding_links: Some(4),
    });
    assert_eq!(
        s,
        Settings {
            public: true,
            show_spec: Some(true),
            max_daily_filings: Some(1),
            max_daily_drafts: Some(2),
            max_accounts: Some(3),
            max_outstanding_links: Some(4),
            seeded: true,
        }
    );
}
