use tatic_server::clock::Timestamp;
use tatic_server::event::{frame, Event, EventKind};
use tatic_server::game::GameState;
use tatic_server::observers::{open_channel, Observer, ObserverRegistry, CHANNEL_CAPACITY};
use tatic_server::state::{AppState, MutationError};
use tatic_server::store::Match;
use tokio::sync::mpsc::error::TryRecvError;
use tokio::sync::mpsc::{channel, Receiver};

#[derive(Clone, Debug, PartialEq)]
enum Action {
    EndTurn,
    Cheat,
}

fn snapshot(a: &str, b: &str, turn: &str, turn_count: u64) -> GameState {
    GameState {
        player_a: a.to_string(),
        player_b: b.to_string(),
        turn: turn.to_string(),
        turn_count,
        phase: "Playing".to_string(),
        document: format!(
            "{{\"players\":[\"{}\",\"{}\"],\"turn\":\"{}\",\"turn_count\":{}}}",
            a, b, turn, turn_count
        ),
    }
}

fn new_game(a: String, b: String) -> GameState {
    snapshot(&a, &b, &a, 1)
}

fn engine(state: &GameState, player: &str, action: Action) -> Result<GameState, String> {
    if action == Action::Cheat {
        return Err("illegal action".to_string());
    }
    if state.turn != player {
        return Err("not your turn".to_string());
    }
    let next = if state.turn == state.player_a { &state.player_b } else { &state.player_a };
    Ok(snapshot(&state.player_a, &state.player_b, next, state.turn_count + 1))
}

fn state_with(id: &str, a: &str, b: &str) -> AppState {
    let mut state = AppState::empty();
    state.matches.insert(Match::open(
        id.to_string(),
        new_game(a.to_string(), b.to_string()),
        Timestamp { secs: 100, nanos: 0 },
    ));
    state
}

fn drain(receiver: &mut Receiver<String>) -> Vec<String> {
    let mut payloads = Vec::new();
    while let Ok(payload) = receiver.try_recv() {
        payloads.push(payload);
    }
    payloads
}

fn field(payload: &str, path: &[&str]) -> serde_json::Value {
    let mut value: serde_json::Value = serde_json::from_str(payload).unwrap();
    for key in path {
        value = value.get(*key).unwrap().clone();
    }
    value
}

#[test]
fn unknown_match_is_absent_and_not_found() {
    let mut state = state_with("m1", "a", "b");
    assert!(state.get_match("m2").is_none());
    assert!(state.get_match("").is_none());
    let reply = state.mutate("m2", "a", Action::EndTurn, &engine);
    assert_eq!(reply, Err(MutationError::NotFound));
    let reply = state.conclude::<String>("m2", Ok(snapshot("a", "b", "b", 2)), Timestamp::now());
    assert_eq!(reply, Err(MutationError::NotFound));
    assert!(state.get_match("m2").is_none());
    assert_eq!(state.list_matches(), vec!["m1".to_string()]);
}

#[test]
fn created_match_reads_back_with_equal_stamps() {
    let mut state = AppState::empty();
    let id = state.create_match("a".to_string(), "b".to_string(), &new_game);
    assert!(id.starts_with("match-"));
    let record = state.get_match(&id).unwrap();
    assert_eq!(record.id, id);
    assert_eq!(record.state.player_a, "a");
    assert_eq!(record.state.player_b, "b");
    assert_eq!(record.state, new_game("a".to_string(), "b".to_string()));
    assert_eq!(record.created_at, record.updated_at);
    assert_eq!(state.list_matches(), vec![id]);
}

#[test]
fn successful_mutation_commits_the_engine_state() {
    let mut state = state_with("m1", "a", "b");
    let before = state.get_match("m1").unwrap();
    let returned = state.mutate("m1", "a", Action::EndTurn, &engine).unwrap();
    assert_eq!(returned, snapshot("a", "b", "b", 2));
    let after = state.get_match("m1").unwrap();
    assert_eq!(after.state, returned);
    assert_eq!(after.id, "m1");
    assert_eq!(after.created_at, before.created_at);
    assert!(before.updated_at.is_before(&after.updated_at));
    assert_eq!(state.get_match("m1").unwrap(), after);
}

#[test]
fn conclude_stamps_with_the_given_time() {
    let mut state = state_with("m1", "a", "b");
    let now = Timestamp { secs: 200, nanos: 9 };
    let reply = state.conclude::<String>("m1", Ok(snapshot("a", "b", "b", 2)), now);
    assert_eq!(reply, Ok(snapshot("a", "b", "b", 2)));
    let record = state.get_match("m1").unwrap();
    assert_eq!(record.updated_at, now);
    assert_eq!(record.created_at, Timestamp { secs: 100, nanos: 0 });
    assert_eq!(record.state.turn, "b");
}

#[test]
fn failing_mutation_changes_nothing_and_tells_nobody() {
    let mut state = state_with("m1", "a", "b");
    let mut subscription = state.connect("m1".to_string());
    let before = state.get_match("m1").unwrap();

    let reply = state.mutate("m1", "a", Action::Cheat, &engine);
    assert_eq!(reply, Err(MutationError::EngineRejected("illegal action".to_string())));
    let reply = state.mutate("m1", "b", Action::EndTurn, &engine);
    assert_eq!(reply, Err(MutationError::EngineRejected("not your turn".to_string())));
    let reply = state.conclude("m1", Err("refused".to_string()), Timestamp::now());
    assert_eq!(reply, Err(MutationError::EngineRejected("refused".to_string())));

    assert_eq!(state.get_match("m1").unwrap(), before);
    assert_eq!(subscription.receiver.try_recv(), Err(TryRecvError::Empty));
    assert_eq!(state.observers.watching("m1"), 1);
}

#[test]
fn observer_gets_initial_state_then_one_update_with_turn_b() {
    let mut state = state_with("m1", "a", "b");
    let mut o1 = state.connect("m1".to_string());

    let initial = o1.initial.clone().unwrap();
    assert_eq!(field(&initial, &["type"]), "initial_state");
    assert_eq!(field(&initial, &["match_id"]), "m1");
    assert_eq!(field(&initial, &["state", "turn"]), "a");

    state.mutate("m1", "a", Action::EndTurn, &engine).unwrap();

    let updates = drain(&mut o1.receiver);
    assert_eq!(updates.len(), 1);
    assert_eq!(field(&updates[0], &["type"]), "state_update");
    assert_eq!(field(&updates[0], &["match_id"]), "m1");
    assert_eq!(field(&updates[0], &["state", "turn"]), "b");
    assert_eq!(
        updates[0],
        "{\"match_id\":\"m1\",\"state\":{\"players\":[\"a\",\"b\"],\"turn\":\"b\",\"turn_count\":2},\"type\":\"state_update\"}"
    );
}

#[test]
fn updates_arrive_in_the_order_of_the_mutations() {
    let mut state = state_with("m1", "a", "b");
    let mut observer = state.connect("m1".to_string());
    let mut committed = Vec::new();
    let players = ["a", "b"];
    for round in 0..10 {
        let new_state = state.mutate("m1", players[round % 2], Action::EndTurn, &engine).unwrap();
        committed.push(new_state);
    }
    let updates = drain(&mut observer.receiver);
    assert_eq!(updates.len(), 10);
    for (update, new_state) in updates.iter().zip(committed.iter()) {
        assert_eq!(*update, frame(EventKind::StateUpdate, "m1", &new_state.document));
        assert_eq!(field(update, &["state", "turn_count"]), new_state.turn_count);
    }
    assert_eq!(state.observers.watching("m1"), 1);
}

#[test]
fn early_subscription_is_served_once_the_match_exists() {
    let mut state = AppState::empty();
    let mut early = state.connect("m7".to_string());
    assert!(early.initial.is_none());
    assert_eq!(state.observers.watching("m7"), 1);
    assert_eq!(early.receiver.try_recv(), Err(TryRecvError::Empty));

    state.matches.insert(Match::open(
        "m7".to_string(),
        new_game("a".to_string(), "b".to_string()),
        Timestamp::now(),
    ));
    state.mutate("m7", "a", Action::EndTurn, &engine).unwrap();

    let updates = drain(&mut early.receiver);
    assert_eq!(updates.len(), 1);
    assert_eq!(field(&updates[0], &["type"]), "state_update");
    assert_eq!(field(&updates[0], &["state", "turn"]), "b");
}

#[test]
fn unresponsive_observer_does_not_block_a_healthy_one() {
    let mut state = state_with("m1", "a", "b");
    let (stuck_sender, mut stuck_receiver) = channel::<String>(1);
    stuck_sender.try_send("backlog".to_string()).unwrap();
    state.add_observer("m1".to_string(), stuck_sender);
    let gone = state.connect("m1".to_string());
    drop(gone);
    let mut healthy = state.connect("m1".to_string());
    assert_eq!(state.observers.watching("m1"), 3);

    state.mutate("m1", "a", Action::EndTurn, &engine).unwrap();

    let updates = drain(&mut healthy.receiver);
    assert_eq!(updates.len(), 1);
    assert_eq!(field(&updates[0], &["state", "turn"]), "b");
    assert_eq!(drain(&mut stuck_receiver), vec!["backlog".to_string()]);
    assert_eq!(state.observers.watching("m1"), 1);

    state.mutate("m1", "b", Action::EndTurn, &engine).unwrap();
    assert_eq!(drain(&mut healthy.receiver).len(), 1);
    assert!(drain(&mut stuck_receiver).is_empty());
}

#[test]
fn deliver_reports_one_answer_per_observer_and_prunes_refusals() {
    let mut registry = ObserverRegistry::new();
    let (first, mut first_receiver) = channel::<String>(4);
    let (second, second_receiver) = channel::<String>(4);
    let (third, mut third_receiver) = channel::<String>(4);
    let (other, mut other_receiver) = channel::<String>(4);
    registry.subscribe("m1".to_string(), first);
    registry.subscribe("m1".to_string(), second);
    registry.subscribe("m1".to_string(), third);
    registry.subscribe("m2".to_string(), other);
    drop(second_receiver);

    assert_eq!(registry.deliver("m1", "one"), vec![true, false, true]);
    assert_eq!(registry.deliver("m1", "two"), vec![true, true]);
    assert_eq!(registry.deliver("m3", "lost"), Vec::<bool>::new());

    assert_eq!(drain(&mut first_receiver), vec!["one".to_string(), "two".to_string()]);
    assert_eq!(drain(&mut third_receiver), vec!["one".to_string(), "two".to_string()]);
    assert!(drain(&mut other_receiver).is_empty());
    assert_eq!(registry.watching("m1"), 2);
    assert_eq!(registry.watching("m2"), 1);
    assert_eq!(registry.watching("m3"), 0);
}

#[test]
fn full_channel_is_pruned_at_capacity() {
    let mut state = state_with("m1", "a", "b");
    let mut slow = state.connect("m1".to_string());
    for n in 0..CHANNEL_CAPACITY {
        state.notify_observers("m1", format!("{}", n));
        assert_eq!(state.observers.watching("m1"), 1);
    }
    state.notify_observers("m1", "one too many".to_string());
    assert_eq!(state.observers.watching("m1"), 0);
    let backlog = drain(&mut slow.receiver);
    assert_eq!(backlog.len(), 100);
    assert_eq!(backlog[0], "0");
    assert_eq!(backlog[99], "99");
    assert_eq!(slow.receiver.try_recv(), Err(TryRecvError::Disconnected));
}

#[test]
fn notifying_nobody_is_fine() {
    let mut state = state_with("m1", "a", "b");
    state.notify_observers("m1", "hello".to_string());
    state.notify_observers("unknown", "hello".to_string());
    state.notify(&Event {
        kind: EventKind::StateUpdate,
        match_id: "m1".to_string(),
        state: new_game("a".to_string(), "b".to_string()),
    });
    assert_eq!(state.observers.watching("m1"), 0);
    assert!(state.get_match("m1").is_some());
}

#[test]
fn notify_serialises_the_event_for_every_observer() {
    let mut state = state_with("m1", "a", "b");
    let mut one = state.connect("m1".to_string());
    let mut two = state.connect("m1".to_string());
    let event = Event {
        kind: EventKind::InitialState,
        match_id: "m1".to_string(),
        state: snapshot("a", "b", "a", 1),
    };
    state.notify(&event);
    let expected = event.encode();
    assert_eq!(drain(&mut one.receiver), vec![expected.clone()]);
    assert_eq!(drain(&mut two.receiver), vec![expected]);
}

#[test]
fn update_match_stamps_and_replaces() {
    let mut state = state_with("m1", "a", "b");
    state.update_match("m1", snapshot("a", "b", "b", 2));
    let record = state.get_match("m1").unwrap();
    assert_eq!(record.state, snapshot("a", "b", "b", 2));
    assert_eq!(record.created_at, Timestamp { secs: 100, nanos: 0 });
    assert!(record.created_at.is_before(&record.updated_at));
    state.update_match("m2", snapshot("a", "b", "b", 2));
    assert!(state.get_match("m2").is_none());
}

#[test]
fn settle_keeps_an_observer_only_if_its_channel_accepted() {
    let (sender, _receiver) = open_channel();
    assert!(Observer::new(sender).settle("payload", true).is_some());
    let (sender, _receiver) = open_channel();
    assert!(Observer::new(sender).settle("payload", false).is_none());
    let (sender, mut receiver) = open_channel();
    let (kept, accepted) = Observer::new(sender).offer("payload");
    assert!(accepted);
    assert!(kept.is_some());
    assert_eq!(receiver.try_recv(), Ok("payload".to_string()));
    let (sender, receiver) = open_channel();
    drop(receiver);
    let (kept, accepted) = Observer::new(sender).offer("payload");
    assert!(!accepted);
    assert!(kept.is_none());
}

#[test]
fn observer_channels_are_made_for_a_hundred_payloads() {
    assert_eq!(CHANNEL_CAPACITY, 100);
    let (sender, receiver) = open_channel();
    assert_eq!(sender.max_capacity(), 100);
    assert_eq!(receiver.max_capacity(), 100);
    assert_eq!(sender.capacity(), 100);
    let mut state = state_with("m1", "a", "b");
    let subscription = state.connect("m1".to_string());
    assert_eq!(subscription.receiver.max_capacity(), CHANNEL_CAPACITY);
}

#[test]
fn update_time_strictly_increases_with_every_accepted_action() {
    let mut state = state_with("m1", "a", "b");
    let players = ["a", "b"];
    let mut previous = state.get_match("m1").unwrap().updated_at;
    for round in 0..50 {
        state.mutate("m1", players[round % 2], Action::EndTurn, &engine).unwrap();
        let record = state.get_match("m1").unwrap();
        assert!(previous.is_before(&record.updated_at));
        assert_eq!(record.created_at, Timestamp { secs: 100, nanos: 0 });
        previous = record.updated_at;
    }
}

#[test]
fn update_time_increases_even_if_the_clock_was_set_back() {
    let mut state = AppState::empty();
    let far = Timestamp { secs: 9_000_000_000_000, nanos: 17 };
    state.matches.insert(Match::open("m1".to_string(), new_game("a".to_string(), "b".to_string()), far));

    state.mutate("m1", "a", Action::EndTurn, &engine).unwrap();
    assert_eq!(state.get_match("m1").unwrap().updated_at, Timestamp { secs: far.secs, nanos: 18 });

    state.update_match("m1", snapshot("a", "b", "a", 3));
    assert_eq!(state.get_match("m1").unwrap().updated_at, Timestamp { secs: far.secs, nanos: 19 });

    let reply = state.conclude::<String>("m1", Ok(snapshot("a", "b", "b", 4)), Timestamp { secs: 1, nanos: 0 });
    assert!(reply.is_ok());
    let record = state.get_match("m1").unwrap();
    assert_eq!(record.updated_at, Timestamp { secs: far.secs, nanos: 20 });
    assert_eq!(record.created_at, far);
}

#[test]
fn every_created_match_gets_an_identifier_of_its_own() {
    let mut state = AppState::new(&new_game);
    let seeds = state.list_matches();
    assert_eq!(seeds.len(), 3);
    assert_ne!(seeds[0], seeds[1]);
    assert_ne!(seeds[0], seeds[2]);
    assert_ne!(seeds[1], seeds[2]);

    let before: Vec<Match> = seeds.iter().map(|id| state.get_match(id).unwrap()).collect();
    let mut ids = seeds.clone();
    for n in 0..10 {
        let id = state.create_match(format!("p{}", n), format!("q{}", n), &new_game);
        assert!(!ids.contains(&id));
        ids.push(id);
        assert_eq!(state.list_matches(), ids);
    }
    assert_eq!(state.list_matches().len(), 13);
    for record in before.iter() {
        assert_eq!(state.get_match(&record.id).unwrap(), *record);
    }
}
