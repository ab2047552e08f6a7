use zhelper::config::Config;

#[test]
fn default_configuration() {
    let c = Config::default();
    assert_eq!(c.charge_limit, 80);
    assert!(!c.auto_apply_on_start);
    assert!(!c.persistent_limit);
    assert_eq!(c.refresh_secs, 5);
}

#[test]
fn stored_configuration_is_taken() {
    let stored = Config {
        charge_limit: 60,
        auto_apply_on_start: true,
        persistent_limit: true,
        refresh_secs: 9,
    };
    let c = Config::load(Some(stored));
    assert_eq!(c.charge_limit, 60);
    assert!(c.auto_apply_on_start);
    assert!(c.persistent_limit);
    assert_eq!(c.refresh_secs, 9);
    assert_eq!(Config::load(None).charge_limit, 80);
}

#[test]
fn a_stored_limit_is_brought_into_range() {
    for (stored, want) in [(0u8, 20u8), (5, 20), (19, 20), (20, 20), (80, 80), (100, 100), (101, 100), (150, 100), (255, 100)] {
        let c = Config::load(Some(Config {
            charge_limit: stored,
            auto_apply_on_start: true,
            persistent_limit: false,
            refresh_secs: 7,
        }));
        assert_eq!(c.charge_limit, want);
        assert!(c.auto_apply_on_start && !c.persistent_limit);
        assert_eq!(c.refresh_secs, 7);
    }
}

#[test]
fn loaded_settings_are_loaded_again_as_they_are() {
    for charge_limit in [0u8, 20, 55, 100, 255] {
        let c = Config::load(Some(Config {
            charge_limit,
            auto_apply_on_start: false,
            persistent_limit: true,
            refresh_secs: 3,
        }));
        assert_eq!(Config::load(Some(c)), c);
    }
}
