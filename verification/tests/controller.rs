use livekit_portal::controller::{
    begin_set_active, classify_role, gate_action, identity_or_none, identity_value, role_value,
    ControllerState, Notice, Participant, RobotSearch, SearchStep, ACTIVE_OPERATOR_ATTR_KEY,
    ROBOT_POLL_INTERVAL_MS, ROBOT_POLL_TICKS, ROLE_ATTR_KEY, RPC_NOT_CONNECTED,
    RPC_SET_ATTRIBUTES_FAILED,
};
use livekit_portal::error::PortalError;
use livekit_portal::name_map::NameMap;
use livekit_portal::types::{ActionSubscription, Role};

fn attrs(pairs: &[(&str, &str)]) -> NameMap<String> {
    let mut m = NameMap::new();
    for (k, v) in pairs {
        m.insert(k.to_string(), v.to_string());
    }
    m
}

fn someone(identity: &str, pairs: &[(&str, &str)]) -> Participant {
    Participant { identity: identity.to_string(), attributes: attrs(pairs) }
}

fn s(text: &str) -> Option<String> {
    Some(text.to_string())
}

#[test]
fn published_roles_are_recognised() {
    for role in [Role::Robot, Role::Operator] {
        assert_eq!(classify_role(&attrs(&[(ROLE_ATTR_KEY, role_value(role))])), Some(role));
    }
    assert_eq!(classify_role(&attrs(&[(ROLE_ATTR_KEY, "viewer")])), None);
    assert_eq!(classify_role(&attrs(&[])), None);
}

#[test]
fn empty_identities_mean_none() {
    assert_eq!(identity_or_none(""), None);
    assert_eq!(identity_or_none("op"), s("op"));
    assert_eq!(identity_value(&None), "");
    assert_eq!(identity_value(&s("op")), "op");
}

#[test]
fn an_operator_follows_the_robot() {
    let mut c = ControllerState::new();
    let seen = attrs(&[(ROLE_ATTR_KEY, "robot"), (ACTIVE_OPERATOR_ATTR_KEY, "op1")]);
    match c.classify_and_update(Role::Operator, "r", &seen) {
        Some(Notice::ActiveOperatorChanged(id)) => assert_eq!(id, s("op1")),
        other => panic!("unexpected {other:?}"),
    }
    assert_eq!(c.robot_identity(), s("r"));
    assert_eq!(c.active_operator(), s("op1"));
    // Seeing the same again changes and tells nothing.
    assert!(c.classify_and_update(Role::Operator, "r", &seen).is_none());
}

#[test]
fn a_robot_keeps_its_own_pointer() {
    let mut c = ControllerState::new();
    let seen = attrs(&[(ROLE_ATTR_KEY, "robot"), (ACTIVE_OPERATOR_ATTR_KEY, "op1")]);
    assert!(c.classify_and_update(Role::Robot, "r2", &seen).is_none());
    assert_eq!(c.active_operator(), None);
}

#[test]
fn operators_come_and_go_without_losing_control() {
    let mut c = ControllerState::new();
    let op = attrs(&[(ROLE_ATTR_KEY, "operator")]);
    assert!(matches!(
        c.classify_and_update(Role::Robot, "b", &op),
        Some(Notice::OperatorJoined(id)) if id == "b"
    ));
    c.classify_and_update(Role::Robot, "a", &op);
    assert_eq!(c.operators(), vec!["a".to_string(), "b".to_string()]);
    c.set_active(s("b"));
    assert!(matches!(c.participant_left("b"), Some(Notice::OperatorLeft(id)) if id == "b"));
    assert!(c.participant_left("b").is_none());
    assert_eq!(c.active_operator(), s("b"), "a rejoin finds control where it was");
    c.clear_for_reconnect();
    assert!(c.operators().is_empty());
    assert_eq!(c.active_operator(), s("b"));
    c.clear();
    assert_eq!(c.active_operator(), None);
}

#[test]
fn calls_go_to_the_counterpart() {
    let mut c = ControllerState::new();
    let one = Some(vec!["x".to_string()]);
    let two = Some(vec!["x".to_string(), "y".to_string()]);
    assert!(matches!(c.resolve_peer(Role::Robot, &None), Err(PortalError::NotConnected)));
    assert!(matches!(c.resolve_peer(Role::Robot, &Some(vec![])), Err(PortalError::NoPeer)));
    assert_eq!(c.resolve_peer(Role::Robot, &one).unwrap(), "x");
    assert!(matches!(c.resolve_peer(Role::Robot, &two), Err(PortalError::AmbiguousPeer)));
    c.set_active(s("op"));
    assert_eq!(c.resolve_peer(Role::Robot, &two).unwrap(), "op");
    assert!(matches!(c.resolve_peer(Role::Operator, &two), Err(PortalError::AmbiguousPeer)));
}

#[test]
fn only_the_active_operator_passes() {
    let mut c = ControllerState::new();
    let a = Some(("a".to_string(), true));
    assert_eq!(gate_action(Role::Robot, ActionSubscription::Off, &c, s("a")), None);
    c.set_active(s("a"));
    for on_robot in [ActionSubscription::Off, ActionSubscription::Active, ActionSubscription::All] {
        assert_eq!(gate_action(Role::Robot, on_robot, &c, s("a")), a);
        assert_eq!(gate_action(Role::Robot, on_robot, &c, s("b")), None);
        assert_eq!(gate_action(Role::Robot, on_robot, &c, None), None);
    }
    for role in [Role::Operator, Role::Observer] {
        assert_eq!(gate_action(role, ActionSubscription::Off, &c, s("a")), None);
        assert_eq!(gate_action(role, ActionSubscription::Active, &c, s("a")), a);
        assert_eq!(gate_action(role, ActionSubscription::Active, &c, s("b")), None);
    }
}

#[test]
fn a_subscription_to_all_marks_the_shadows() {
    let mut c = ControllerState::new();
    c.set_active(s("a"));
    let all = ActionSubscription::All;
    assert_eq!(
        gate_action(Role::Operator, all, &c, s("a")),
        Some(("a".to_string(), true))
    );
    assert_eq!(
        gate_action(Role::Observer, all, &c, s("b")),
        Some(("b".to_string(), false))
    );
    assert_eq!(gate_action(Role::Operator, all, &c, None), None);
}

#[test]
fn observers_are_listed_apart() {
    let mut c = ControllerState::new();
    let watching = attrs(&[(ROLE_ATTR_KEY, "observer")]);
    assert_eq!(classify_role(&watching), Some(Role::Observer));
    assert_eq!(role_value(Role::Observer), "observer");
    assert!(c.classify_and_update(Role::Robot, "z", &watching).is_none());
    assert!(c.classify_and_update(Role::Robot, "y", &watching).is_none());
    assert_eq!(c.observers(), vec!["y".to_string(), "z".to_string()]);
    assert!(c.operators().is_empty());
    assert!(c.participant_left("z").is_none());
    assert_eq!(c.observers(), vec!["y".to_string()]);
    c.clear_for_reconnect();
    assert!(c.observers().is_empty());
    // An observer mirrors the robot's pointer, as an operator does.
    let robot = attrs(&[(ROLE_ATTR_KEY, "robot"), (ACTIVE_OPERATOR_ATTR_KEY, "op1")]);
    assert!(c.classify_and_update(Role::Observer, "r", &robot).is_some());
    assert_eq!(c.active_operator(), s("op1"));
    assert_eq!(c.resolve_peer(Role::Observer, &None).unwrap(), "r");
}

#[test]
fn requests_to_hand_over_control() {
    assert_eq!(begin_set_active("op", true).unwrap(), s("op"));
    assert_eq!(begin_set_active("", true).unwrap(), None);
    let e = begin_set_active("op", false).unwrap_err();
    assert_eq!((e.code, e.message.as_str()), (RPC_NOT_CONNECTED, "robot not connected"));

    let mut c = ControllerState::new();
    let e = c.finish_set_active(s("op"), Err("gone".to_string())).unwrap_err();
    assert_eq!(e.code, RPC_SET_ATTRIBUTES_FAILED);
    assert_eq!(e.message, "set_attributes failed: gone");
    assert_eq!(c.active_operator(), None);
    assert!(c.finish_set_active(s("op"), Ok(())).unwrap().is_some());
    assert!(c.finish_set_active(s("op"), Ok(())).unwrap().is_none());
    assert_eq!(c.active_operator(), s("op"));
}

#[test]
fn the_search_for_a_robot_ends() {
    let mut c = ControllerState::new();
    let mut search = RobotSearch::new();
    for _ in 0..ROBOT_POLL_TICKS {
        match search.step(&mut c, &[]) {
            SearchStep::Wait(ms) => assert_eq!(ms, ROBOT_POLL_INTERVAL_MS),
            other => panic!("unexpected {other:?}"),
        }
    }
    assert!(matches!(
        search.step(&mut c, &[]),
        SearchStep::GiveUp(PortalError::NoPeer)
    ));
    let room = [someone("op", &[(ROLE_ATTR_KEY, "operator")]), someone("r", &[(ROLE_ATTR_KEY, "robot")])];
    assert!(matches!(search.step(&mut c, &room), SearchStep::Found(id) if id == "r"));
    assert!(matches!(search.step(&mut c, &[]), SearchStep::Found(id) if id == "r"));
}

#[test]
fn a_robot_seeds_its_pointer_from_its_attributes() {
    let mut c = ControllerState::new();
    c.set_active(s("old"));
    c.seed_active(&attrs(&[]));
    assert_eq!(c.active_operator(), s("old"));
    c.seed_active(&attrs(&[(ACTIVE_OPERATOR_ATTR_KEY, "op")]));
    assert_eq!(c.active_operator(), s("op"));
    c.seed_active(&attrs(&[(ACTIVE_OPERATOR_ATTR_KEY, "")]));
    assert_eq!(c.active_operator(), None);
}
