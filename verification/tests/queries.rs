use discord_game_sdk::data::USER_FLAG_HYPE_SQUAD_EVENTS;
use discord_game_sdk::data::USER_FLAG_HYPE_SQUAD_HOUSE_1;
use discord_game_sdk::data::USER_FLAG_HYPE_SQUAD_HOUSE_2;
use discord_game_sdk::data::USER_FLAG_HYPE_SQUAD_HOUSE_3;
use discord_game_sdk::data::USER_FLAG_PARTNER;
use discord_game_sdk::Discord;
use discord_game_sdk::Error;
use discord_game_sdk::UserFlags;

#[test]
fn member_ids_assemble_in_fetch_order() {
    let discord = Discord::new(1).unwrap();
    let fetched = vec![Ok(10), Ok(20), Ok(30)];
    assert_eq!(
        discord.all_lobby_member_ids(5, &fetched),
        Ok(vec![10, 20, 30])
    );
    assert_eq!(
        discord.all_lobby_member_ids(5, &Vec::new()),
        Ok(Vec::new())
    );
}

#[test]
fn member_ids_halt_at_first_failed_fetch() {
    let discord = Discord::new(1).unwrap();
    let fetched = vec![Ok(10), Err(Error::NotFound), Ok(30), Err(Error::LobbyFull)];
    assert_eq!(
        discord.all_lobby_member_ids(5, &fetched),
        Err(Error::NotFound)
    );
}

#[test]
fn metadata_assembles_with_last_binding_winning() {
    let discord = Discord::new(1).unwrap();
    let fetched = vec![
        (Ok("a".to_string()), Ok("1".to_string())),
        (Ok("b".to_string()), Ok("2".to_string())),
        (Ok("a".to_string()), Ok("3".to_string())),
    ];
    assert_eq!(
        discord.all_lobby_metadata(5, &fetched),
        Ok(vec![
            ("a".to_string(), "3".to_string()),
            ("b".to_string(), "2".to_string()),
        ])
    );
}

#[test]
fn metadata_read_surfaces_key_error_before_value_error() {
    let discord = Discord::new(1).unwrap();
    let fetched = vec![
        (Ok("a".to_string()), Ok("1".to_string())),
        (Err(Error::NotFetched), Err(Error::NotFound)),
    ];
    assert_eq!(
        discord.all_lobby_member_metadata(5, 7, &fetched),
        Err(Error::NotFetched)
    );
    let value_failed = vec![(Ok("a".to_string()), Err(Error::NotFound))];
    assert_eq!(
        discord.all_lobby_metadata(5, &value_failed),
        Err(Error::NotFound)
    );
}

#[test]
fn user_flags_set_exactly_the_confirmed_bits() {
    let discord = Discord::new(1).unwrap();
    let checks = vec![
        (USER_FLAG_PARTNER, Ok(true)),
        (USER_FLAG_HYPE_SQUAD_EVENTS, Ok(false)),
        (USER_FLAG_HYPE_SQUAD_HOUSE_1, Ok(true)),
        (USER_FLAG_HYPE_SQUAD_HOUSE_2, Ok(false)),
        (USER_FLAG_HYPE_SQUAD_HOUSE_3, Ok(false)),
    ];
    assert_eq!(
        discord.current_user_flags(&checks),
        Ok(UserFlags { bits: USER_FLAG_PARTNER | USER_FLAG_HYPE_SQUAD_HOUSE_1 })
    );
    assert_eq!(
        discord.current_user_flags(&checks).unwrap().bits,
        2 | 64
    );
}

#[test]
fn user_flags_read_halts_at_first_failed_check() {
    let discord = Discord::new(1).unwrap();
    let checks = vec![
        (USER_FLAG_PARTNER, Ok(true)),
        (USER_FLAG_HYPE_SQUAD_EVENTS, Err(Error::NotAuthenticated)),
        (USER_FLAG_HYPE_SQUAD_HOUSE_1, Ok(true)),
    ];
    assert_eq!(
        discord.current_user_flags(&checks),
        Err(Error::NotAuthenticated)
    );
}
