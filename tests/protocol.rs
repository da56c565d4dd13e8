use joystick_sync::state::{clamp_axis, update_joysticks};
use joystick_sync::{
    new_players, Buttons, Directory, GameState, Inbound, Registry, Role, Session, SessionState,
    Vector2,
};

fn state(x: f32, y: f32, a: bool) -> GameState {
    GameState {
        joystick: Vector2 { x: x.to_bits(), y: y.to_bits() },
        buttons: Buttons { a, b: false, x: false, y: false },
    }
}

fn id(s: &str) -> String {
    s.to_string()
}

fn entry<'a>(snap: &'a [(String, GameState)], key: &str) -> Option<&'a GameState> {
    snap.iter().find(|(k, _)| k == key).map(|(_, s)| s)
}

#[test]
fn new_default_is_centred_and_released() {
    let s = GameState::new_default();
    assert_eq!(s, state(0.0, 0.0, false));
}

#[test]
fn clamp_axis_exact_values() {
    assert_eq!(clamp_axis(2.0f32.to_bits()), 1.0f32.to_bits());
    assert_eq!(clamp_axis((-2.0f32).to_bits()), (-1.0f32).to_bits());
    assert_eq!(clamp_axis(0.5f32.to_bits()), 0.5f32.to_bits());
    assert_eq!(clamp_axis((-0.25f32).to_bits()), (-0.25f32).to_bits());
    assert_eq!(clamp_axis(1.0f32.to_bits()), 1.0f32.to_bits());
    assert_eq!(clamp_axis((-1.0f32).to_bits()), (-1.0f32).to_bits());
    assert_eq!(clamp_axis(f32::INFINITY.to_bits()), 1.0f32.to_bits());
    assert_eq!(clamp_axis(f32::NEG_INFINITY.to_bits()), (-1.0f32).to_bits());
    assert_eq!(clamp_axis(1.0e30f32.to_bits()), 1.0f32.to_bits());
    assert_eq!(clamp_axis(f32::NAN.to_bits()), 1.0f32.to_bits());
    assert_eq!(clamp_axis(f32::MIN_POSITIVE.to_bits()), f32::MIN_POSITIVE.to_bits());
}

#[test]
fn update_joysticks_keeps_buttons() {
    let mut s = state(3.5, -0.5, true);
    update_joysticks(&mut s);
    assert_eq!(s, state(1.0, -0.5, true));
}

#[test]
fn classify_each_kind() {
    let s = state(0.1, 0.2, false);
    assert_eq!(Inbound::classify(&id("register"), Some(id("player")), None), Inbound::Register(Role::Player));
    assert_eq!(Inbound::classify(&id("register"), Some(id("viewer")), None), Inbound::Register(Role::Viewer));
    assert_eq!(Inbound::classify(&id("register"), Some(id("judge")), None), Inbound::Register(Role::Viewer));
    assert_eq!(Inbound::classify(&id("register"), None, None), Inbound::Malformed);
    assert_eq!(Inbound::classify(&id("action"), None, Some(s)), Inbound::Action(s));
    assert_eq!(Inbound::classify(&id("action"), None, None), Inbound::Malformed);
    assert_eq!(Inbound::classify(&id("readstate"), None, None), Inbound::ReadState);
    assert_eq!(Inbound::classify(&id("dance"), None, Some(s)), Inbound::Unknown);
}

#[test]
fn player_action_clamped_by_next_tick() {
    let mut reg = new_players();
    let mut a = Session::new(id("p1"));
    assert!(!a.handle(Inbound::Register(Role::Player), &mut reg));
    assert_eq!(a.state, SessionState::Player);
    assert!(a.handle(Inbound::Action(state(2.0, -2.0, true)), &mut reg));
    let snap = reg.tick();
    assert_eq!(snap.len(), 1);
    let p1 = entry(&snap, "p1").unwrap();
    assert_eq!(p1.joystick.x, 1.0f32.to_bits());
    assert_eq!(p1.joystick.y, (-1.0f32).to_bits());
    assert!(p1.buttons.a);
    assert!(!p1.buttons.b);
}

#[test]
fn out_of_range_actions_in_range_after_tick() {
    let mut reg = new_players();
    let mut a = Session::new(id("p1"));
    a.handle(Inbound::Register(Role::Player), &mut reg);
    for v in [5.0f32, -7.5, 1.0e20, f32::INFINITY, 0.3] {
        a.handle(Inbound::Action(state(v, -v, false)), &mut reg);
        for (_, s) in reg.tick() {
            assert!((-1.0..=1.0).contains(&f32::from_bits(s.joystick.x)));
            assert!((-1.0..=1.0).contains(&f32::from_bits(s.joystick.y)));
        }
    }
}

#[test]
fn viewer_readstate_lists_players_only() {
    let mut reg = new_players();
    let mut b = Session::new(id("b"));
    b.handle(Inbound::Register(Role::Viewer), &mut reg);
    assert!(b.handle(Inbound::ReadState, &mut reg));
    assert!(reg.snapshot().is_empty());
    let mut a = Session::new(id("p1"));
    a.handle(Inbound::Register(Role::Player), &mut reg);
    assert!(b.handle(Inbound::ReadState, &mut reg));
    let snap = reg.snapshot();
    assert_eq!(snap.len(), 1);
    assert!(entry(&snap, "p1").is_some());
    assert!(entry(&snap, "b").is_none());
}

#[test]
fn viewer_action_changes_nothing() {
    let mut reg = new_players();
    let mut b = Session::new(id("b"));
    b.handle(Inbound::Register(Role::Viewer), &mut reg);
    assert!(!b.handle(Inbound::Action(state(0.5, 0.5, true)), &mut reg));
    assert!(!reg.contains(&id("b")));
    assert!(reg.snapshot().is_empty());
    let mut u = Session::new(id("u"));
    assert!(!u.handle(Inbound::Action(state(0.5, 0.5, true)), &mut reg));
    assert!(!reg.contains(&id("u")));
}

#[test]
fn two_players_in_one_tick_both_kept() {
    let mut reg = new_players();
    let mut p1 = Session::new(id("p1"));
    let mut p2 = Session::new(id("p2"));
    p1.handle(Inbound::Register(Role::Player), &mut reg);
    p2.handle(Inbound::Register(Role::Player), &mut reg);
    p1.handle(Inbound::Action(state(0.5, 0.25, true)), &mut reg);
    p2.handle(Inbound::Action(state(-0.75, 3.0, false)), &mut reg);
    let snap = reg.tick();
    assert_eq!(snap.len(), 2);
    assert_eq!(*entry(&snap, "p1").unwrap(), state(0.5, 0.25, true));
    assert_eq!(*entry(&snap, "p2").unwrap(), state(-0.75, 1.0, false));
}

#[test]
fn player_close_removes_entry() {
    let mut reg = new_players();
    let mut a = Session::new(id("p1"));
    let mut v = Session::new(id("v"));
    a.handle(Inbound::Register(Role::Player), &mut reg);
    v.handle(Inbound::Register(Role::Viewer), &mut reg);
    v.close(&mut reg);
    assert!(reg.contains(&id("p1")));
    a.close(&mut reg);
    assert_eq!(a.state, SessionState::Closed);
    assert!(reg.tick().is_empty());
    assert!(!a.handle(Inbound::ReadState, &mut reg));
}

#[test]
fn reregister_resets_state() {
    let mut reg = Registry::new();
    reg.register(&id("p1"));
    assert!(reg.apply_action(&id("p1"), state(0.5, 0.5, true)));
    reg.register(&id("p1"));
    assert_eq!(reg.get(&id("p1")), Some(GameState::new_default()));
    assert_eq!(reg.snapshot().len(), 1);
}

#[test]
fn apply_action_unknown_id_is_rejected() {
    let mut reg = Registry::new();
    assert!(!reg.apply_action(&id("ghost"), state(0.5, 0.5, true)));
    assert_eq!(reg.get(&id("ghost")), None);
}

#[test]
fn unregister_twice_is_noop() {
    let mut reg = Registry::new();
    reg.register(&id("p1"));
    reg.register(&id("p2"));
    reg.unregister(&id("p1"));
    reg.unregister(&id("p1"));
    assert!(!reg.contains(&id("p1")));
    assert!(reg.contains(&id("p2")));
    assert_eq!(reg.snapshot().len(), 1);
}

fn ids<S>(d: &Directory<S>) -> Vec<String> {
    (0..d.len()).map(|i| d.id(i).clone()).collect()
}

#[test]
fn broadcast_failure_drops_only_failed() {
    let mut d: Directory<u32> = Directory::new();
    d.add(id("a"), 1);
    d.add(id("b"), 2);
    d.add(id("c"), 3);
    d.add(id("d"), 4);
    d.retain_delivered(&vec![true, false, true, true]);
    assert_eq!(ids(&d), vec![id("a"), id("c"), id("d")]);
    assert_eq!(*d.sender(1), 3);
}

#[test]
fn directory_remove_twice_is_noop() {
    let mut d: Directory<u32> = Directory::new();
    d.add(id("a"), 1);
    d.add(id("b"), 2);
    d.remove(&id("a"));
    d.remove(&id("a"));
    assert_eq!(ids(&d), vec![id("b")]);
    d.remove(&id("zz"));
    assert_eq!(d.len(), 1);
}

#[test]
fn directory_add_same_id_replaces() {
    let mut d: Directory<u32> = Directory::new();
    d.add(id("a"), 1);
    d.add(id("b"), 2);
    d.add(id("a"), 9);
    assert_eq!(ids(&d), vec![id("b"), id("a")]);
    assert_eq!(*d.sender(1), 9);
}
