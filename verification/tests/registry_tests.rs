use deskremote::dispatch::{plan_frame, settle, Action, Plan};
use deskremote::registry::Registry;
use deskremote::wire::{render_response, Reply, Status};
use tokio::sync::mpsc::{unbounded_channel, UnboundedReceiver};

fn recv_all(rx: &mut UnboundedReceiver<Vec<u8>>) -> Vec<Vec<u8>> {
    let mut out = Vec::new();
    while let Ok(m) = rx.try_recv() {
        out.push(m);
    }
    out
}

#[test]
fn broadcast_reaches_every_healthy_connection() {
    let mut reg = Registry::new();
    let (tx_a, mut rx_a) = unbounded_channel();
    let (tx_b, mut rx_b) = unbounded_channel();
    let (tx_c, mut rx_c) = unbounded_channel();
    reg.register(b"a".to_vec(), tx_a);
    reg.register(b"b".to_vec(), tx_b);
    reg.register(b"c".to_vec(), tx_c);
    assert_eq!(reg.get_client_count(), 3);

    let delivered = reg.broadcast_message(b"ping");
    assert_eq!(delivered, 3);
    assert_eq!(recv_all(&mut rx_a), vec![b"ping".to_vec()]);
    assert_eq!(recv_all(&mut rx_b), vec![b"ping".to_vec()]);
    assert_eq!(recv_all(&mut rx_c), vec![b"ping".to_vec()]);
}

#[test]
fn broadcast_survives_one_dead_channel() {
    let mut reg = Registry::new();
    let (tx_a, mut rx_a) = unbounded_channel();
    let (tx_b, rx_b) = unbounded_channel::<Vec<u8>>();
    let (tx_c, mut rx_c) = unbounded_channel();
    reg.register(b"a".to_vec(), tx_a);
    reg.register(b"b".to_vec(), tx_b);
    reg.register(b"c".to_vec(), tx_c);
    drop(rx_b);

    let delivered = reg.broadcast_message(b"hello");
    assert_eq!(delivered, 2);
    assert_eq!(recv_all(&mut rx_a), vec![b"hello".to_vec()]);
    assert_eq!(recv_all(&mut rx_c), vec![b"hello".to_vec()]);
    // the dead entry is not removed by the broadcast itself
    assert_eq!(reg.get_client_count(), 3);
}

#[test]
fn register_same_id_keeps_one_entry() {
    let mut reg = Registry::new();
    let (tx1, mut rx1) = unbounded_channel();
    let (tx2, mut rx2) = unbounded_channel();
    reg.register(b"same".to_vec(), tx1);
    reg.register(b"same".to_vec(), tx2);
    assert_eq!(reg.get_client_count(), 1);
    // the last writer won
    assert_eq!(reg.broadcast_message(b"m"), 1);
    assert_eq!(recv_all(&mut rx1), Vec::<Vec<u8>>::new());
    assert_eq!(recv_all(&mut rx2), vec![b"m".to_vec()]);
}

#[test]
fn unregister_is_idempotent() {
    let mut reg = Registry::new();
    let (tx, _rx) = unbounded_channel();
    reg.register(b"x".to_vec(), tx);
    assert_eq!(reg.get_client_count(), 1);
    reg.unregister(b"x");
    assert_eq!(reg.get_client_count(), 0);
    reg.unregister(b"x");
    assert_eq!(reg.get_client_count(), 0);
    reg.unregister(b"never-there");
    assert_eq!(reg.get_client_count(), 0);
}

#[test]
fn send_to_unknown_id_is_false() {
    let reg = Registry::new();
    assert!(!reg.send_to(b"ghost", b"m"));
}

#[test]
fn send_to_dead_channel_is_false() {
    let mut reg = Registry::new();
    let (tx, rx) = unbounded_channel::<Vec<u8>>();
    reg.register(b"x".to_vec(), tx);
    drop(rx);
    assert!(!reg.send_to(b"x", b"m"));
}

#[test]
fn two_clients_command_and_broadcast_scenario() {
    // Connect A and B.
    let mut reg = Registry::new();
    let (tx_a, mut rx_a) = unbounded_channel();
    let (tx_b, mut rx_b) = unbounded_channel();
    reg.register(b"client-a".to_vec(), tx_a);
    reg.register(b"client-b".to_vec(), tx_b);

    // A sends play_pause; its response goes only to A.
    let plan = plan_frame(br#"{"command":"play_pause"}"#);
    let response = match plan {
        Plan::Invoke(id, Action::PlayPause) => settle(
            id,
            Ok(Reply {
                status: Status::Success,
                message: b"Play/pause command sent".to_vec(),
            }),
        ),
        other => panic!("unexpected plan: {:?}", other),
    };
    let bytes = render_response(&response);
    assert!(reg.send_to(b"client-a", &bytes));

    let a_got = recv_all(&mut rx_a);
    assert_eq!(a_got.len(), 1);
    assert_eq!(
        String::from_utf8(a_got[0].clone()).unwrap(),
        r#"{"id":null,"status":"success","message":"Play/pause command sent","data":null}"#
    );
    assert_eq!(recv_all(&mut rx_b), Vec::<Vec<u8>>::new());

    // The host broadcasts a ping; both receive it.
    let ping = br#"{"status":"info","message":"ping"}"#;
    assert_eq!(reg.broadcast_message(ping), 2);
    assert_eq!(recv_all(&mut rx_a), vec![ping.to_vec()]);
    assert_eq!(recv_all(&mut rx_b), vec![ping.to_vec()]);
}

#[test]
fn unregister_leaves_other_channels_working() {
    let mut reg = Registry::new();
    let (tx_a, mut rx_a) = unbounded_channel();
    let (tx_b, _rx_b) = unbounded_channel::<Vec<u8>>();
    let (tx_c, mut rx_c) = unbounded_channel();
    reg.register(b"a".to_vec(), tx_a);
    reg.register(b"b".to_vec(), tx_b);
    reg.register(b"c".to_vec(), tx_c);
    reg.unregister(b"b");
    assert_eq!(reg.get_client_count(), 2);
    assert_eq!(reg.broadcast_message(b"still-here"), 2);
    assert_eq!(recv_all(&mut rx_a), vec![b"still-here".to_vec()]);
    assert_eq!(recv_all(&mut rx_c), vec![b"still-here".to_vec()]);
    assert!(reg.send_to(b"a", b"direct"));
    assert_eq!(recv_all(&mut rx_a), vec![b"direct".to_vec()]);
}
