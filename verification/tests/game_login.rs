use tfs_rust::map::Position;
use tfs_rust::net::login::{login_refusal_message, login_world_refusal, LoginRefusal};
use tfs_rust::net::game_login::{
    game_login_refusal_message, protocol_message, GameLoginRefusal,
    game_login_step, login_position, BanInfo, GameLoginAction, GameLoginEvent, GameLoginStage,
    LoginPlayerFacts, WorldState,
};

fn player(always: bool, cannot_be_banned: bool) -> LoginPlayerFacts {
    LoginPlayerFacts {
        has_can_always_login_flag: always,
        is_game_master_or_above: false,
        cannot_be_banned,
        account_number: 42,
    }
}

fn disconnect(message: &str) -> GameLoginAction {
    GameLoginAction::Disconnect { message: message.to_string() }
}

#[test]
fn a_clean_login_goes_through_every_check_to_admission() {
    let (s, a) = game_login_step(GameLoginStage::AwaitChecked, &GameLoginEvent::Checked { world: WorldState::Open });
    assert_eq!((s, a), (GameLoginStage::AwaitIpBan, GameLoginAction::QueryIpBan));
    let (s, a) = game_login_step(s, &GameLoginEvent::IpBan { ban: None });
    assert_eq!((s, a), (GameLoginStage::AwaitAuth, GameLoginAction::Authenticate));
    let (s, a) = game_login_step(s, &GameLoginEvent::Authenticated { ok: true });
    assert_eq!((s, a), (GameLoginStage::AwaitPlayer, GameLoginAction::LoadPlayer));
    let loaded = GameLoginEvent::PlayerLoaded {
        player: Some(player(false, false)),
        world: WorldState::Open,
        max_players: 10,
        online: 9,
    };
    let (s, a) = game_login_step(s, &loaded);
    assert_eq!((s, a), (GameLoginStage::AwaitAccountBan, GameLoginAction::QueryAccountBan { account: 42 }));
    let (s, a) = game_login_step(s, &GameLoginEvent::AccountBan { ban: None });
    assert_eq!((s, a), (GameLoginStage::Finished, GameLoginAction::Admit));
}

#[test]
fn closed_or_full_worlds_refuse_all_but_privileged_characters() {
    let world_closed = |p: LoginPlayerFacts, world: WorldState, online: usize| {
        game_login_step(
            GameLoginStage::AwaitPlayer,
            &GameLoginEvent::PlayerLoaded { player: Some(p), world, max_players: 10, online },
        )
        .1
    };
    assert_eq!(
        world_closed(player(false, false), WorldState::Closing, 0),
        disconnect("The game is just going down.\nPlease try again later.")
    );
    assert_eq!(
        world_closed(player(false, false), WorldState::Closed, 0),
        disconnect("Server is currently closed.\nPlease try again later.")
    );
    assert_eq!(
        world_closed(player(false, false), WorldState::Open, 10),
        disconnect("Too many players online.\nPlease try again later.")
    );
    assert_eq!(world_closed(player(true, true), WorldState::Closed, 10), GameLoginAction::Admit);
    assert_eq!(
        game_login_step(GameLoginStage::AwaitChecked, &GameLoginEvent::Checked { world: WorldState::Startup }).1,
        disconnect("Gameworld is starting up. Please wait.")
    );
}

#[test]
fn bans_are_told_with_their_end_and_reason() {
    let ban = BanInfo { expires_at: 0, reason: "botting".to_string() };
    assert_eq!(
        game_login_step(GameLoginStage::AwaitIpBan, &GameLoginEvent::IpBan { ban: Some(ban) }),
        (
            GameLoginStage::Finished,
            disconnect("Your IP has been permanently banned.\n\nReason specified:\nbotting")
        )
    );
    let ban = BanInfo { expires_at: 86400, reason: "spam".to_string() };
    assert_eq!(
        game_login_step(GameLoginStage::AwaitAccountBan, &GameLoginEvent::AccountBan { ban: Some(ban) }).1,
        disconnect("Your account has been banned until 02 Jan 1970.\n\nReason specified:\nspam")
    );
    assert_eq!(
        game_login_step(GameLoginStage::AwaitAuth, &GameLoginEvent::Authenticated { ok: false }).1,
        disconnect("Account name or password is not correct.")
    );
    assert_eq!(
        game_login_step(GameLoginStage::Finished, &GameLoginEvent::Authenticated { ok: true }),
        (GameLoginStage::Finished, GameLoginAction::Ignore)
    );
}

#[test]
fn unset_login_positions_go_to_the_temple() {
    let temple = Position { x: 100, y: 200, z: 7 };
    assert_eq!(login_position(Position { x: 0, y: 0, z: 7 }, Some(temple)), temple);
    assert_eq!(login_position(Position { x: 0, y: 0, z: 7 }, None), Position { x: 0, y: 0, z: 7 });
    assert_eq!(login_position(Position { x: 5, y: 0, z: 7 }, Some(temple)), Position { x: 5, y: 0, z: 7 });
}

#[test]
fn refusal_texts_name_the_lowest_protocol() {
    assert_eq!(protocol_message(860), "Only clients with protocol 8.60 allowed!");
    assert_eq!(protocol_message(1097), "Only clients with protocol 10.97 allowed!");
    assert_eq!(protocol_message(1005), "Only clients with protocol 10.5 allowed!");
    assert_eq!(
        game_login_refusal_message(GameLoginRefusal::EmptyAccount).as_deref(),
        Some("You must enter your account name.")
    );
    assert_eq!(game_login_refusal_message(GameLoginRefusal::ChallengeMismatch), None);
    assert_eq!(
        game_login_refusal_message(GameLoginRefusal::WrongVersion { min: 1097 }).as_deref(),
        Some("Only clients with protocol 10.97 allowed!")
    );
    assert_eq!(login_refusal_message(LoginRefusal::TooOld), "Only clients with protocol 8.60 allowed!");
    assert_eq!(
        login_refusal_message(LoginRefusal::WrongVersion { min: 860 }),
        "Only clients with protocol 8.60 allowed!"
    );
    assert_eq!(login_world_refusal(WorldState::Closed).as_deref(), Some("Server is currently closed."));
    assert_eq!(
        login_world_refusal(WorldState::Maintain).as_deref(),
        Some("Gameworld is under maintenance. Please re-connect in a while.")
    );
    assert_eq!(login_world_refusal(WorldState::Closing), None);
}
