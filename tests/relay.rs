use ws_relay::dispatch::{Broadcast, Payload};
use ws_relay::handler::RelayHandler;
use ws_relay::registry::{GroupRegistry, PeerId};

const GROUP: u64 = 0;
const A: PeerId = 1;
const B: PeerId = 2;
const C: PeerId = 3;

/// A stand-in transport: sends to the peers in `down` fail, every send is
/// logged in order.
struct StubTransport {
    down: Vec<PeerId>,
    log: Vec<(PeerId, Payload)>,
}

impl StubTransport {
    fn new(down: Vec<PeerId>) -> StubTransport {
        StubTransport { down, log: Vec::new() }
    }

    fn run(&mut self, b: &mut Broadcast) {
        while let Some(to) = b.next_target() {
            let ok = !self.down.contains(&to);
            if ok {
                self.log.push((to, b.payload().clone()));
            }
            b.record(ok);
        }
    }

    fn count_to(&self, peer: PeerId) -> usize {
        self.log.iter().filter(|(p, _)| *p == peer).count()
    }

    fn received_by(&self, peer: PeerId) -> Vec<Payload> {
        self.log.iter().filter(|(p, _)| *p == peer).map(|(_, m)| m.clone()).collect()
    }
}

fn text(s: &str) -> Payload {
    Payload::Text(s.to_string())
}

fn group_of_three(reg: &mut GroupRegistry) -> (RelayHandler, RelayHandler, RelayHandler) {
    let a = RelayHandler::join(reg, GROUP, A);
    let b = RelayHandler::join(reg, GROUP, B);
    let c = RelayHandler::join(reg, GROUP, C);
    (a, b, c)
}

#[test]
fn member_send_counts_sender_twice_others_once() {
    let mut reg = GroupRegistry::new();
    let (a, _b, _c) = group_of_three(&mut reg);
    let d = RelayHandler::join(&mut reg, GROUP, 4);
    let mut bc = d.on_message(&reg, text("m")).unwrap();
    assert_eq!(bc.targets(), &vec![A, B, C, 4, 4]);
    let mut t = StubTransport::new(vec![]);
    t.run(&mut bc);
    assert_eq!(t.count_to(4), 2);
    assert_eq!(t.count_to(A), 1);
    assert_eq!(t.count_to(B), 1);
    assert_eq!(t.count_to(C), 1);
    assert_eq!(t.count_to(99), 0);
    assert!(a.is_connected());
}

#[test]
fn hello_scenario_fan_out() {
    let mut reg = GroupRegistry::new();
    let (a, _b, _c) = group_of_three(&mut reg);
    let mut bc = a.on_message(&reg, text("hello")).unwrap();
    let mut t = StubTransport::new(vec![]);
    t.run(&mut bc);
    // A is reached once through the group and once by the echo.
    assert_eq!(t.count_to(A), 2);
    assert_eq!(t.count_to(B), 1);
    assert_eq!(t.count_to(C), 1);
    assert_eq!(t.received_by(B), vec![text("hello")]);
    assert_eq!(t.received_by(C), vec![text("hello")]);
    assert_eq!(bc.delivered(), vec![A, B, C, A]);
}

#[test]
fn standalone_peer_gets_only_its_echo() {
    let mut reg = GroupRegistry::new();
    let _ = group_of_three(&mut reg);
    let solo = RelayHandler::standalone(7);
    assert_eq!(solo.group(), None);
    let bc = solo.on_message(&reg, text("x")).unwrap();
    assert_eq!(bc.targets(), &vec![7]);
    assert_eq!(bc.payload(), &text("x"));
}

#[test]
fn repeated_joins_create_one_group() {
    let mut reg = GroupRegistry::new();
    let n: u64 = 25;
    for p in 0..n {
        let _ = RelayHandler::join(&mut reg, 42, p);
    }
    assert_eq!(reg.group_count(), 1);
    assert!(reg.contains_group(42));
    assert_eq!(reg.members(42), (0..n).collect::<Vec<u64>>());
}

#[test]
fn get_or_create_then_existing() {
    let mut reg = GroupRegistry::new();
    assert!(!reg.contains_group(5));
    assert_eq!(reg.get_or_create_group(5), Vec::<u64>::new());
    assert_eq!(reg.group_count(), 1);
    assert_eq!(reg.get_or_create_group(5), Vec::<u64>::new());
    assert_eq!(reg.group_count(), 1);
    reg.add_member(5, 9);
    assert_eq!(reg.get_or_create_group(5), vec![9]);
    assert_eq!(reg.group_count(), 1);
    reg.add_member(6, 1);
    assert_eq!(reg.group_count(), 2);
    assert_eq!(reg.members(6), vec![1]);
}

#[test]
fn members_of_unknown_group_is_empty() {
    let reg = GroupRegistry::new();
    assert_eq!(reg.members(3), Vec::<u64>::new());
    assert_eq!(reg.group_count(), 0);
    assert!(!reg.contains_group(3));
}

#[test]
fn duplicate_member_is_sent_twice() {
    let mut reg = GroupRegistry::new();
    let a = RelayHandler::join(&mut reg, GROUP, A);
    reg.add_member(GROUP, B);
    reg.add_member(GROUP, B);
    assert_eq!(reg.members(GROUP), vec![A, B, B]);
    let mut bc = a.on_message(&reg, text("d")).unwrap();
    let mut t = StubTransport::new(vec![]);
    t.run(&mut bc);
    assert_eq!(t.count_to(B), 2);
}

#[test]
fn one_failed_send_does_not_stop_the_others() {
    let mut reg = GroupRegistry::new();
    let (a, _b, _c) = group_of_three(&mut reg);
    let mut bc = a.on_message(&reg, text("m")).unwrap();
    let mut t = StubTransport::new(vec![B]);
    t.run(&mut bc);
    assert!(bc.is_done());
    assert_eq!(bc.outcomes(), &vec![true, false, true, true]);
    assert_eq!(bc.delivered(), vec![A, C, A]);
    assert_eq!(t.count_to(B), 0);
    assert_eq!(t.count_to(C), 1);
    assert_eq!(t.count_to(A), 2);
}

#[test]
fn messages_arrive_in_send_order() {
    let mut reg = GroupRegistry::new();
    let (a, _b, _c) = group_of_three(&mut reg);
    let mut t = StubTransport::new(vec![]);
    let mut first = a.on_message(&reg, text("m1")).unwrap();
    t.run(&mut first);
    let mut second = a.on_message(&reg, Payload::Binary(vec![1, 2])).unwrap();
    t.run(&mut second);
    assert_eq!(t.received_by(B), vec![text("m1"), Payload::Binary(vec![1, 2])]);
    assert_eq!(t.received_by(C), vec![text("m1"), Payload::Binary(vec![1, 2])]);
    assert_eq!(
        t.received_by(A),
        vec![text("m1"), text("m1"), Payload::Binary(vec![1, 2]), Payload::Binary(vec![1, 2])]
    );
}

#[test]
fn closed_peer_stays_listed_and_fails_silently() {
    let mut reg = GroupRegistry::new();
    let (a, mut b, _c) = group_of_three(&mut reg);
    b.on_close(1000, "bye".to_string());
    assert!(!b.is_connected());
    assert_eq!(b.close_info(), Some((1000, &"bye".to_string())));
    assert_eq!(reg.members(GROUP), vec![A, B, C]);
    let mut bc = a.on_message(&reg, text("after")).unwrap();
    assert_eq!(bc.targets(), &vec![A, B, C, A]);
    let mut t = StubTransport::new(vec![B]);
    t.run(&mut bc);
    assert_eq!(bc.delivered(), vec![A, C, A]);
    assert_eq!(t.received_by(C), vec![text("after")]);
}

#[test]
fn closed_handler_sends_nothing() {
    let mut reg = GroupRegistry::new();
    let (_a, mut b, _c) = group_of_three(&mut reg);
    assert_eq!(b.close_info(), None);
    b.on_close(1001, String::new());
    assert!(b.on_message(&reg, text("late")).is_none());
    assert_eq!(b.peer(), B);
    assert_eq!(b.group(), Some(GROUP));
}

#[test]
fn broadcast_steps_through_targets() {
    let mut bc = Broadcast::new(text("s"), vec![5, 6]);
    assert!(!bc.is_done());
    assert_eq!(bc.next_target(), Some(5));
    bc.record(false);
    assert_eq!(bc.next_target(), Some(6));
    bc.record(true);
    assert_eq!(bc.next_target(), None);
    assert!(bc.is_done());
    assert_eq!(bc.delivered(), vec![6]);
}

#[test]
fn empty_broadcast_is_done_at_once() {
    let bc = Broadcast::new(text("e"), Vec::new());
    assert!(bc.is_done());
    assert_eq!(bc.next_target(), None);
    assert_eq!(bc.delivered(), Vec::<u64>::new());
}
