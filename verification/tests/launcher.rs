use quazal::launcher::{AnimatedText, GameState, GameVersion, Key, MockUpdaterClient, UIVersion, UpdateResult};
use quazal::version::Version;

#[test]
fn game_version_names() {
    assert_eq!(GameVersion::SplinterCellBlacklistDx9.executable(), "Blacklist_game.exe");
    assert_eq!(GameVersion::SplinterCellBlacklistDx11.executable(), "Blacklist_DX11_game.exe");
    assert_eq!(GameVersion::SplinterCellBlacklistDx9.label(), "DirectX 9");
    assert_eq!(GameVersion::SplinterCellBlacklistDx11.label(), "DirectX 11");
    assert_eq!(GameVersion::SplinterCellBlacklistDx9.label_short(), "DX9");
    assert_eq!(GameVersion::SplinterCellBlacklistDx11.label_short(), "DX11");
    let p = GameVersion::SplinterCellBlacklistDx11.full_path(&std::path::PathBuf::from("games"));
    assert_eq!(p, std::path::PathBuf::from("games").join("Blacklist_DX11_game.exe"));
    assert!(GameVersion::SplinterCellBlacklistDx9 < GameVersion::SplinterCellBlacklistDx11);
}

#[test]
fn game_state_from_bool() {
    assert_eq!(GameState::from(true), GameState::Ready);
    assert_eq!(GameState::from(false), GameState::NotReady);
    assert_ne!(UIVersion::Old, UIVersion::New);
    assert_ne!(Key::LocaLMachine, Key::CurrentUser);
}

#[test]
fn update_result_is_err() {
    assert!(UpdateResult::Error(1).is_err());
    assert!(!UpdateResult::Saved(1).is_err());
    assert!(!UpdateResult::Unchanged(()).is_err());
}

#[test]
fn mock_release() {
    let assets = MockUpdaterClient.latest_assets();
    assert_eq!(assets.len(), 2);
    assert_eq!(assets[0].name, "launcher.exe");
    assert_eq!(assets[0].size, 1024);
    assert_eq!(assets[1].url, "http://localhost/dedicated_server.exe");
    assert_eq!(assets[1].version, Version { major: 1, minor: 2, patch: 3 });
}

#[test]
fn animated_text_cycles() {
    let variants = ["a", "b", "c"];
    let mut t = AnimatedText::starting_at(&variants, 100, 1000);
    assert_eq!(t.text(), "a");
    assert!(!t.update_at(1099));
    assert_eq!(t.text(), "a");
    assert!(t.update_at(1100));
    assert_eq!(t.text(), "b");
    assert!(t.update_at(1200));
    assert!(t.update_at(1300));
    assert_eq!(t.text(), "a");
    // a clock that went back does not move the text
    assert!(!t.update_at(0));
    let mut now = AnimatedText::new(&variants, 0);
    assert!(now.update());
    assert_eq!(now.text(), "b");
}

#[test]
fn update_reports() {
    assert!(matches!(UpdateResult::after_update(1, false, false), UpdateResult::Saved(1)));
    assert!(matches!(UpdateResult::after_update(2, true, false), UpdateResult::Unchanged(2)));
    let failed = UpdateResult::after_update(3, true, true);
    assert!(failed.is_err());
    assert!(matches!(failed, UpdateResult::Error(3)));
}
