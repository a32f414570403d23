use teststrip::settings::{
    challenge_or_fallback, clamp_settings, default_challenge_defs, enabled_challenge_texts,
    merge_with_defaults, pick_challenge, settings_after_load, ChallengeDef, Settings,
    DEFAULT_CHALLENGE_COUNT,
};

#[test]
fn default_challenges_are_all_enabled_and_not_custom() {
    let defs = default_challenge_defs();
    assert!(!defs.is_empty());
    assert!(defs.iter().all(|c| c.enabled && !c.custom));
}

#[test]
fn merge_with_defaults_preserves_disabled_builtin_flag() {
    let mut saved = Settings::default();
    saved.challenges[0].enabled = false;

    let merged = merge_with_defaults(saved);
    assert!(!merged.challenges[0].enabled);
    assert_eq!(merged.challenges.len(), default_challenge_defs().len());
}

#[test]
fn merge_with_defaults_keeps_custom_challenges() {
    let mut saved = Settings::default();
    saved.challenges.push(ChallengeDef {
        id: "custom-1".to_string(),
        text: "My custom challenge".to_string(),
        enabled: true,
        custom: true,
    });

    let merged = merge_with_defaults(saved);
    assert!(merged
        .challenges
        .iter()
        .any(|c| c.id == "custom-1" && c.text == "My custom challenge"));
}

#[test]
fn merge_with_defaults_drops_stale_builtin_ids_not_in_current_defaults() {
    let mut saved = Settings::default();
    saved.challenges.push(ChallengeDef {
        id: "builtin-old-removed".to_string(),
        text: "no longer a default".to_string(),
        enabled: true,
        custom: false,
    });

    let merged = merge_with_defaults(saved);
    assert!(!merged.challenges.iter().any(|c| c.id == "builtin-old-removed"));
}

#[test]
fn merge_with_defaults_clamps_out_of_range_values() {
    let mut saved = Settings::default();
    saved.photos_per_session = 999;
    saved.seconds_per_photo = 1;

    let merged = merge_with_defaults(saved);
    assert_eq!(merged.photos_per_session, 20);
    assert_eq!(merged.seconds_per_photo, 5);
}

#[test]
fn merge_with_defaults_preserves_last_used_folders() {
    let mut saved = Settings::default();
    saved.last_archive_root = Some("C:/archive".to_string());
    saved.last_export_root = Some("C:/exports".to_string());

    let merged = merge_with_defaults(saved);
    assert_eq!(merged.last_archive_root, Some("C:/archive".to_string()));
    assert_eq!(merged.last_export_root, Some("C:/exports".to_string()));
}

fn two_challenge_settings(first_enabled: bool, second_enabled: bool) -> Settings {
    Settings {
        photos_per_session: 3,
        seconds_per_photo: 60,
        challenges: vec![
            ChallengeDef {
                id: "a".into(),
                text: "only enabled".into(),
                enabled: first_enabled,
                custom: false,
            },
            ChallengeDef {
                id: "b".into(),
                text: "disabled".into(),
                enabled: second_enabled,
                custom: false,
            },
        ],
        last_archive_root: None,
        last_export_root: None,
    }
}

#[test]
fn pick_challenge_returns_only_enabled_text() {
    let settings = two_challenge_settings(true, false);
    assert_eq!(pick_challenge(&settings), "only enabled");
}

#[test]
fn pick_challenge_falls_back_when_none_enabled() {
    let settings = Settings {
        photos_per_session: 3,
        seconds_per_photo: 60,
        challenges: vec![ChallengeDef {
            id: "a".into(),
            text: "disabled".into(),
            enabled: false,
            custom: false,
        }],
        last_archive_root: None,
        last_export_root: None,
    };
    assert!(pick_challenge(&settings).contains("no challenges enabled"));
}

#[test]
fn default_settings_values() {
    let s = Settings::default();
    assert_eq!(s.photos_per_session, 3);
    assert_eq!(s.seconds_per_photo, 300);
    assert_eq!(s.challenges.len(), DEFAULT_CHALLENGE_COUNT);
    assert_eq!(s.last_archive_root, None);
    assert_eq!(s.last_export_root, None);
}

#[test]
fn default_challenge_ids_are_numbered_in_order() {
    let defs = default_challenge_defs();
    assert_eq!(defs.len(), 16);
    assert_eq!(defs[0].id, "builtin-0");
    assert_eq!(defs[9].id, "builtin-9");
    assert_eq!(defs[10].id, "builtin-10");
    assert_eq!(defs[15].id, "builtin-15");
    assert_eq!(defs[0].text, "Convert the photo to black and white. No color at all.");
    assert_eq!(defs[15].text, "Cut the saturation exactly in half.");
}

#[test]
fn merge_uses_first_saved_entry_for_a_builtin_id() {
    let mut saved = Settings::default();
    saved.challenges.truncate(0);
    saved.challenges.push(ChallengeDef {
        id: "builtin-3".into(),
        text: "old text".into(),
        enabled: false,
        custom: false,
    });
    saved.challenges.push(ChallengeDef {
        id: "builtin-3".into(),
        text: "old text".into(),
        enabled: true,
        custom: false,
    });
    let merged = merge_with_defaults(saved);
    assert_eq!(merged.challenges.len(), 16);
    assert!(!merged.challenges[3].enabled);
    assert_eq!(
        merged.challenges[3].text,
        "Every slider you touch must land on exactly -100, 0, or +100. No in-between values."
    );
    assert!(merged.challenges[4].enabled);
}

#[test]
fn merge_keeps_custom_order_after_builtins() {
    let mut saved = Settings::default();
    for (i, name) in ["c1", "c2", "c3"].iter().enumerate() {
        saved.challenges.insert(
            i,
            ChallengeDef { id: name.to_string(), text: name.to_string(), enabled: i != 1, custom: true },
        );
    }
    let merged = merge_with_defaults(saved);
    assert_eq!(merged.challenges.len(), 19);
    assert_eq!(merged.challenges[16].id, "c1");
    assert_eq!(merged.challenges[17].id, "c2");
    assert!(!merged.challenges[17].enabled);
    assert_eq!(merged.challenges[18].id, "c3");
    assert_eq!(merged.challenges[0].id, "builtin-0");
}

#[test]
fn merge_clamps_lower_and_upper_bounds() {
    let mut saved = Settings::default();
    saved.photos_per_session = 0;
    saved.seconds_per_photo = 100_000;
    let merged = merge_with_defaults(saved);
    assert_eq!(merged.photos_per_session, 1);
    assert_eq!(merged.seconds_per_photo, 3600);

    let mut inside = Settings::default();
    inside.photos_per_session = 7;
    inside.seconds_per_photo = 5;
    let merged = merge_with_defaults(inside);
    assert_eq!(merged.photos_per_session, 7);
    assert_eq!(merged.seconds_per_photo, 5);
}

#[test]
fn merge_is_idempotent_on_concrete_settings() {
    let mut saved = Settings::default();
    saved.challenges[2].enabled = false;
    saved.challenges.push(ChallengeDef { id: "x".into(), text: "mine".into(), enabled: true, custom: true });
    saved.challenges.push(ChallengeDef { id: "builtin-99".into(), text: "gone".into(), enabled: true, custom: false });
    saved.photos_per_session = 50;
    let once = merge_with_defaults(saved);
    let twice = merge_with_defaults(once.clone());
    assert_eq!(once.photos_per_session, twice.photos_per_session);
    assert_eq!(once.seconds_per_photo, twice.seconds_per_photo);
    assert_eq!(once.challenges.len(), twice.challenges.len());
    for (a, b) in once.challenges.iter().zip(twice.challenges.iter()) {
        assert_eq!(a.id, b.id);
        assert_eq!(a.text, b.text);
        assert_eq!(a.enabled, b.enabled);
        assert_eq!(a.custom, b.custom);
    }
}

#[test]
fn defaults_survive_merge_unchanged() {
    let merged = merge_with_defaults(Settings::default());
    let defaults = Settings::default();
    assert_eq!(merged.photos_per_session, defaults.photos_per_session);
    assert_eq!(merged.seconds_per_photo, defaults.seconds_per_photo);
    assert_eq!(merged.challenges.len(), defaults.challenges.len());
    assert!(merged.challenges.iter().zip(defaults.challenges.iter()).all(|(a, b)| a.id == b.id
        && a.text == b.text
        && a.enabled == b.enabled
        && a.custom == b.custom));
}

#[test]
fn clamp_settings_holds_values_in_range_and_keeps_rest() {
    let mut s = two_challenge_settings(true, true);
    s.photos_per_session = 21;
    s.seconds_per_photo = 4;
    s.last_export_root = Some("E:/x".into());
    let c = clamp_settings(s);
    assert_eq!(c.photos_per_session, 20);
    assert_eq!(c.seconds_per_photo, 5);
    assert_eq!(c.challenges.len(), 2);
    assert_eq!(c.last_export_root, Some("E:/x".to_string()));
}

#[test]
fn settings_after_load_merges_or_falls_back() {
    let mut saved = Settings::default();
    saved.photos_per_session = 99;
    let (loaded, write_back) = settings_after_load(Some(saved));
    assert_eq!(loaded.photos_per_session, 20);
    assert!(!write_back);

    let (fresh, write_back) = settings_after_load(None);
    assert_eq!(fresh.photos_per_session, 3);
    assert_eq!(fresh.challenges.len(), 16);
    assert!(write_back);
}

#[test]
fn remember_roots_sets_both_folders() {
    let mut s = Settings::default();
    s.remember_roots("A:/raw".into(), "B:/out".into());
    assert_eq!(s.last_archive_root, Some("A:/raw".to_string()));
    assert_eq!(s.last_export_root, Some("B:/out".to_string()));
    assert_eq!(s.photos_per_session, 3);
}

#[test]
fn enabled_challenge_texts_keeps_order_of_enabled() {
    let mut s = two_challenge_settings(true, true);
    s.challenges.push(ChallengeDef { id: "c".into(), text: "third".into(), enabled: false, custom: true });
    assert_eq!(enabled_challenge_texts(&s), vec!["only enabled".to_string(), "disabled".to_string()]);
    let none = two_challenge_settings(false, false);
    assert!(enabled_challenge_texts(&none).is_empty());
}

#[test]
fn pick_challenge_draws_among_enabled() {
    let s = two_challenge_settings(true, true);
    for _ in 0..20 {
        let c = pick_challenge(&s);
        assert!(c == "only enabled" || c == "disabled");
    }
    let only_second = two_challenge_settings(false, true);
    assert_eq!(pick_challenge(&only_second), "disabled");
}

#[test]
fn challenge_or_fallback_exact_text() {
    assert_eq!(challenge_or_fallback(Some("x".into())), "x");
    assert_eq!(
        challenge_or_fallback(None),
        "Edit the photo (no challenges enabled -- check Settings)."
    );
}
