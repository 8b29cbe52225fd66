use where_is_teemo::game::Game;
use where_is_teemo::regions::chat_server_for_region;
use where_is_teemo::regions::get_regions;

#[test]
fn test_known_regions() {
    assert_eq!(
        chat_server_for_region("br"),
        Some("br1.chat.si.riotgames.com")
    );
    assert_eq!(
        chat_server_for_region("na"),
        Some("na2.chat.si.riotgames.com")
    );
    assert_eq!(
        chat_server_for_region("euw1"),
        Some("euw1.chat.si.riotgames.com")
    );
}

#[test]
fn test_unknown_region() {
    assert_eq!(chat_server_for_region("unknown"), None);
}

// Region lookup ignores ASCII case.
#[test]
fn region_lookup_ignores_case() {
    assert_eq!(chat_server_for_region("NA"), Some("na2.chat.si.riotgames.com"));
    assert_eq!(chat_server_for_region("EuW"), Some("euw1.chat.si.riotgames.com"));
}

// Every listed region resolves to a chat host.
#[test]
fn all_listed_regions_resolve() {
    let regions = get_regions();
    assert_eq!(regions.len(), 16);
    for r in &regions {
        assert!(
            chat_server_for_region(r.code.as_str()).is_some(),
            "region {} must resolve",
            r.code
        );
    }
    assert_eq!(regions[0].code, "br");
    assert_eq!(regions[0].name, "Brazil");
    assert_eq!(regions[7].code, "na");
    assert_eq!(regions[7].name, "North America");
}

#[test]
fn game_display_names() {
    assert_eq!(Game::LeagueOfLegends.display_name(), "League of Legends");
    assert_eq!(Game::Valorant.display_name(), "VALORANT");
}
