use discord_game_sdk::pending::Completion;
use discord_game_sdk::pending::Outcome;
use discord_game_sdk::pending::Payload;
use discord_game_sdk::pending::Request;
use discord_game_sdk::pending::Resolution;
use discord_game_sdk::transaction::LobbyKind;
use discord_game_sdk::transaction::LobbyTransaction;
use discord_game_sdk::transaction::NativeLobbyTransaction;
use discord_game_sdk::CompletionHandler;
use discord_game_sdk::Discord;
use discord_game_sdk::Error;
use discord_game_sdk::Event;
use discord_game_sdk::EventChannels;
use discord_game_sdk::EventKind;
use discord_game_sdk::Lobby;
use discord_game_sdk::NativeTick;
use discord_game_sdk::User;

/// A completion handler that records what it saw and can issue follow-up
/// requests from its first resolution.
struct Recorder {
    tokens: Vec<u64>,
    unit_results: Vec<Result<(), Error>>,
    lobbies: Vec<Result<Lobby, Error>>,
    users: Vec<Result<User, Error>>,
    id_lists: Vec<Result<Vec<i64>, Error>>,
    to_issue: Vec<Request>,
}

impl Recorder {
    fn new() -> Recorder {
        Recorder {
            tokens: Vec::new(),
            unit_results: Vec::new(),
            lobbies: Vec::new(),
            users: Vec::new(),
            id_lists: Vec::new(),
            to_issue: Vec::new(),
        }
    }
}

impl CompletionHandler for Recorder {
    fn on_complete(&mut self, resolution: &Resolution) -> Vec<Request> {
        self.tokens.push(resolution.token);
        match &resolution.outcome {
            Outcome::Unit(r) => self.unit_results.push(r.clone()),
            Outcome::Lobby(r) => self.lobbies.push(r.clone()),
            Outcome::User(r) => self.users.push(r.clone()),
            Outcome::LobbyIds(r) => self.id_lists.push(r.clone()),
        }
        std::mem::take(&mut self.to_issue)
    }
}

fn quiet_tick(completions: Vec<Completion>) -> NativeTick {
    NativeTick { running: true, events: Vec::new(), completions }
}

#[test]
fn channels_deliver_per_kind_in_push_order() {
    let mut channels = EventChannels::new();
    channels.push(Event::LobbyUpdate { lobby_id: 1 });
    channels.push(Event::OverlayToggle { opened: true });
    channels.push(Event::LobbyUpdate { lobby_id: 2 });
    channels.push(Event::LobbyUpdate { lobby_id: 3 });

    let updates = channels.drain(EventKind::LobbyUpdate);
    assert_eq!(
        updates,
        vec![
            Event::LobbyUpdate { lobby_id: 1 },
            Event::LobbyUpdate { lobby_id: 2 },
            Event::LobbyUpdate { lobby_id: 3 },
        ]
    );
    // a second drain of the same kind is empty
    assert_eq!(channels.drain(EventKind::LobbyUpdate), Vec::<Event>::new());
    // the other kind was untouched
    assert_eq!(
        channels.drain(EventKind::OverlayToggle),
        vec![Event::OverlayToggle { opened: true }]
    );
}

#[test]
fn one_tick_resolves_all_pending_exactly_once() {
    let mut discord = Discord::new(1234).unwrap();
    let mut builder = LobbyTransaction::new();
    builder.kind(LobbyKind::Private);
    let t_create = discord.create_lobby(&builder).unwrap();
    let t_delete = discord.delete_lobby(77);
    let t_user = discord.user(42);

    let lobby = Lobby {
        id: 900,
        kind: LobbyKind::Private,
        owner_id: 42,
        secret: "s".to_string(),
        capacity: 16,
        locked: false,
        metadata: Vec::new(),
    };
    let user = User {
        id: 42,
        username: "someone".to_string(),
        discriminator: 7,
        avatar: String::new(),
        bot: false,
    };
    // readiness order differs from issue order on purpose
    let tick = quiet_tick(vec![
        Completion { token: t_user, status: 0, payload: Payload::User(user.clone()) },
        Completion { token: t_create, status: 0, payload: Payload::Lobby(lobby.clone()) },
        Completion { token: t_delete, status: 0, payload: Payload::Empty },
    ]);

    let mut recorder = Recorder::new();
    let resolutions = discord.run_callbacks(tick, &mut recorder).unwrap();

    assert_eq!(resolutions.len(), 3);
    // each issued operation resolved exactly once, in table order
    assert_eq!(recorder.tokens, vec![t_create, t_delete, t_user]);
    assert_eq!(recorder.lobbies, vec![Ok(lobby)]);
    assert_eq!(recorder.unit_results, vec![Ok(())]);
    assert_eq!(recorder.users, vec![Ok(user)]);

    // nothing is left: a later tick resolves nothing
    let mut recorder2 = Recorder::new();
    let later = discord.run_callbacks(quiet_tick(Vec::new()), &mut recorder2).unwrap();
    assert_eq!(later.len(), 0);
    assert_eq!(recorder2.tokens, Vec::<u64>::new());
}

#[test]
fn draining_an_empty_table_is_a_noop() {
    let mut discord = Discord::new(1).unwrap();
    let mut recorder = Recorder::new();
    let first = discord.run_callbacks(quiet_tick(Vec::new()), &mut recorder).unwrap();
    let second = discord.run_callbacks(quiet_tick(Vec::new()), &mut recorder).unwrap();
    assert_eq!(first.len(), 0);
    assert_eq!(second.len(), 0);
    assert_eq!(recorder.tokens, Vec::<u64>::new());
}

#[test]
fn not_running_tick_fails_and_touches_nothing() {
    let mut discord = Discord::new(1).unwrap();
    let t0 = discord.delete_lobby(5);

    let mut recorder = Recorder::new();
    let dead = NativeTick {
        running: false,
        events: vec![Event::OverlayToggle { opened: true }],
        completions: vec![Completion { token: t0, status: 0, payload: Payload::Empty }],
    };
    assert_eq!(discord.run_callbacks(dead, &mut recorder), Err(Error::NotRunning));
    // nothing resolved, no event delivered
    assert_eq!(recorder.tokens, Vec::<u64>::new());
    assert_eq!(discord.recv(EventKind::OverlayToggle), Vec::<Event>::new());

    // the operation is still pending: a running tick resolves it
    let tick = quiet_tick(vec![Completion { token: t0, status: 9, payload: Payload::Empty }]);
    let resolutions = discord.run_callbacks(tick, &mut recorder).unwrap();
    assert_eq!(resolutions.len(), 1);
    assert_eq!(recorder.unit_results, vec![Err(Error::NotFound)]);
}

#[test]
fn request_issued_during_tick_resolves_on_a_later_tick() {
    let mut discord = Discord::new(1).unwrap();
    let t0 = discord.delete_lobby(5);

    let mut recorder = Recorder::new();
    recorder.to_issue = vec![Request::DisconnectLobby(5)];
    let tick = quiet_tick(vec![Completion { token: t0, status: 0, payload: Payload::Empty }]);
    let resolutions = discord.run_callbacks(tick, &mut recorder).unwrap();
    assert_eq!(resolutions.len(), 1);
    assert_eq!(recorder.tokens, vec![t0]);

    // the follow-up request got the next token and is not lost: the next
    // tick that reports it resolves it
    let t1 = t0 + 1;
    let tick2 = quiet_tick(vec![Completion { token: t1, status: 0, payload: Payload::Empty }]);
    let resolutions2 = discord.run_callbacks(tick2, &mut recorder).unwrap();
    assert_eq!(resolutions2.len(), 1);
    assert_eq!(recorder.tokens, vec![t0, t1]);
    assert_eq!(recorder.unit_results, vec![Ok(()), Ok(())]);
}

#[test]
fn create_lobby_with_metadata_round_trip() {
    let mut discord = Discord::new(1234).unwrap();
    let mut builder = LobbyTransaction::new();
    builder.kind(LobbyKind::Public);
    builder.add_metadata("k".to_string(), "v".to_string());

    // the populated native transaction is deterministic: replaying the same
    // builder against a fresh handle shows what was handed across
    let mut populated = NativeLobbyTransaction::new();
    assert_eq!(builder.process(&mut populated), Ok(()));
    assert_eq!(populated.kind(), Some(LobbyKind::Public));
    assert_eq!(populated.metadata(), &vec![("k".to_string(), "v".to_string())]);

    let token = discord.create_lobby(&builder).unwrap();
    let created = Lobby {
        id: 31,
        kind: LobbyKind::Public,
        owner_id: 1,
        secret: "sec".to_string(),
        capacity: 16,
        locked: false,
        metadata: vec![("k".to_string(), "v".to_string())],
    };
    let tick = quiet_tick(vec![Completion {
        token,
        status: 0,
        payload: Payload::Lobby(created.clone()),
    }]);
    let mut recorder = Recorder::new();
    discord.run_callbacks(tick, &mut recorder).unwrap();
    assert_eq!(recorder.lobbies, vec![Ok(created)]);
    assert_eq!(recorder.lobbies[0].as_ref().unwrap().id, 31);
    assert_eq!(
        recorder.lobbies[0].as_ref().unwrap().metadata,
        vec![("k".to_string(), "v".to_string())]
    );
}

#[test]
fn failed_builder_issues_nothing() {
    let mut discord = Discord::new(1).unwrap();
    let mut builder = LobbyTransaction::new();
    builder.add_metadata("k".repeat(300), "v".to_string());
    assert_eq!(discord.create_lobby(&builder), Err(Error::TooLong));
    // nothing was issued: an empty running tick resolves nothing
    let mut recorder = Recorder::new();
    let resolutions = discord.run_callbacks(quiet_tick(Vec::new()), &mut recorder).unwrap();
    assert_eq!(resolutions.len(), 0);
}

#[test]
fn connect_lobby_rejects_oversized_secret() {
    let mut discord = Discord::new(1).unwrap();
    assert_eq!(
        discord.connect_lobby(3, "s".repeat(500)),
        Err(Error::TooLong)
    );
    assert!(discord.connect_lobby(3, "s".repeat(127)).is_ok());
}

#[test]
fn events_route_by_kind_during_tick() {
    let mut discord = Discord::new(1).unwrap();
    let tick = NativeTick {
        running: true,
        events: vec![
            Event::CurrentUserUpdate { user_id: 10 },
            Event::LobbyMessage { lobby_id: 1, member_id: 2, buffer: vec![1, 2, 3] },
            Event::CurrentUserUpdate { user_id: 11 },
        ],
        completions: Vec::new(),
    };
    let mut recorder = Recorder::new();
    discord.run_callbacks(tick, &mut recorder).unwrap();

    let updates = discord.recv_current_user_update();
    assert_eq!(
        updates,
        vec![
            Event::CurrentUserUpdate { user_id: 10 },
            Event::CurrentUserUpdate { user_id: 11 },
        ]
    );
    // drained queues stay empty until something new arrives
    assert_eq!(discord.recv_current_user_update(), Vec::<Event>::new());
    assert_eq!(
        discord.recv(EventKind::LobbyMessage),
        vec![Event::LobbyMessage { lobby_id: 1, member_id: 2, buffer: vec![1, 2, 3] }]
    );
}

#[test]
fn empty_event_buffers_discards_everything() {
    let mut discord = Discord::new(1).unwrap();
    let tick = NativeTick {
        running: true,
        events: vec![
            Event::CurrentUserUpdate { user_id: 10 },
            Event::OverlayToggle { opened: false },
        ],
        completions: Vec::new(),
    };
    let mut recorder = Recorder::new();
    discord.run_callbacks(tick, &mut recorder).unwrap();
    discord.empty_event_buffers();
    assert_eq!(discord.recv_current_user_update(), Vec::<Event>::new());
    assert_eq!(discord.recv(EventKind::OverlayToggle), Vec::<Event>::new());
}

#[test]
fn search_and_failed_create_decode_under_their_shapes() {
    let mut discord = Discord::new(1).unwrap();
    let query = discord_game_sdk::transaction::SearchQuery::new();
    let t_search = discord.lobby_search(&query).unwrap();
    let mut builder = LobbyTransaction::new();
    builder.kind(LobbyKind::Public);
    let t_create = discord.create_lobby(&builder).unwrap();

    let tick = quiet_tick(vec![
        Completion { token: t_search, status: 0, payload: Payload::LobbyIds(vec![3, 5]) },
        // the lobby was full: a failing status carries no object
        Completion { token: t_create, status: 21, payload: Payload::Empty },
    ]);
    let mut recorder = Recorder::new();
    discord.run_callbacks(tick, &mut recorder).unwrap();
    assert_eq!(recorder.id_lists, vec![Ok(vec![3, 5])]);
    assert_eq!(recorder.lobbies, vec![Err(Error::LobbyFull)]);
}

#[test]
fn client_id_is_kept() {
    let discord = Discord::new(987654).unwrap();
    assert_eq!(discord.client_id(), 987654);
}
