use krugg_lcu::model::AppConfig;
use krugg_lcu::model::DdragonError;
use krugg_lcu::model::UggError;
use krugg_lcu::model::Versions;
use krugg_lcu::model::patch_version_key;
use krugg_lcu::model::ugg_version_key;

#[test]
fn ugg_key_keeps_two_components() {
    assert_eq!(ugg_version_key("15.1.2"), "15_1");
    assert_eq!(ugg_version_key("15.1"), "15_1");
    assert_eq!(ugg_version_key("15"), "15");
    assert_eq!(ugg_version_key(""), "");
}

#[test]
fn patch_key_drops_last_component() {
    assert_eq!(patch_version_key("15.1.2"), "15_1");
    assert_eq!(patch_version_key("15.1"), "15");
    assert_eq!(patch_version_key("15"), "");
}

#[test]
fn versions_pairs_full_version_with_key() {
    let v = Versions::for_game_version("14.23.1");
    assert_eq!(v.ddragon, "14.23.1");
    assert_eq!(v.ugg, "14_23");
}

#[test]
fn error_messages_are_exact() {
    assert_eq!(
        DdragonError::NoLatestVersion.message(),
        "Failed to get the latest API version"
    );
    assert_eq!(
        DdragonError::NoChampionData(String::from("Annie")).message(),
        "Failed to get champion data for id: Annie"
    );
    assert_eq!(
        UggError::NoSupportedVersions.message(),
        "Failed to find a supported game version"
    );
    assert_eq!(
        UggError::MissingRegionOrRank.message(),
        "Missing region or rank entry"
    );
    assert_eq!(UggError::MissingRole.message(), "Missing role entry");
}

#[test]
fn app_config_holds_key() {
    let config = AppConfig {
        riot_dev_key: String::from("dev-key"),
    };
    assert_eq!(config.riot_dev_key, "dev-key");
}
