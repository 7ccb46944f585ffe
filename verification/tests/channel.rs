use worker_pool::channel::Channel;
use worker_pool::signal::Signal;

#[test]
fn new_channel_is_empty_and_connected() {
    let channel: Channel<u32> = Channel::new();
    assert!(channel.is_empty());
    assert_eq!(channel.len(), 0);
    assert!(channel.is_connected());
}

#[test]
fn receive_on_empty_channel_gives_nothing() {
    let mut channel: Channel<u32> = Channel::new();
    assert_eq!(channel.receive(), None);
    assert_eq!(channel.len(), 0);
    assert!(channel.is_connected());
}

#[test]
fn signals_are_received_in_send_order() {
    let mut channel: Channel<u32> = Channel::new();
    assert_eq!(channel.send(Signal::Work(10)), Ok(()));
    assert_eq!(channel.send(Signal::Work(20)), Ok(()));
    assert_eq!(channel.send(Signal::Terminate), Ok(()));
    assert_eq!(channel.send(Signal::Work(30)), Ok(()));
    assert_eq!(channel.len(), 4);
    assert_eq!(channel.receive(), Some(Signal::Work(10)));
    assert_eq!(channel.receive(), Some(Signal::Work(20)));
    assert_eq!(channel.receive(), Some(Signal::Terminate));
    assert_eq!(channel.receive(), Some(Signal::Work(30)));
    assert_eq!(channel.receive(), None);
}

#[test]
fn each_signal_is_received_once() {
    let mut channel: Channel<u32> = Channel::new();
    for job in 0..100u32 {
        assert!(channel.send(Signal::Work(job)).is_ok());
    }
    let mut received = Vec::new();
    while let Some(signal) = channel.receive() {
        match signal {
            Signal::Work(job) => received.push(job),
            Signal::Terminate => panic!("no terminate directive was sent"),
        }
    }
    assert_eq!(received, (0..100u32).collect::<Vec<u32>>());
    assert!(channel.is_empty());
}

#[test]
fn send_and_receive_interleave() {
    let mut channel: Channel<u32> = Channel::new();
    assert!(channel.send(Signal::Work(1)).is_ok());
    assert_eq!(channel.receive(), Some(Signal::Work(1)));
    assert_eq!(channel.receive(), None);
    assert!(channel.send(Signal::Work(2)).is_ok());
    assert!(channel.send(Signal::Work(3)).is_ok());
    assert_eq!(channel.receive(), Some(Signal::Work(2)));
    assert!(channel.send(Signal::Work(4)).is_ok());
    assert_eq!(channel.receive(), Some(Signal::Work(3)));
    assert_eq!(channel.receive(), Some(Signal::Work(4)));
    assert!(channel.is_empty());
}

#[test]
fn send_fails_once_disconnected_and_returns_the_signal() {
    let mut channel: Channel<u32> = Channel::new();
    assert!(channel.send(Signal::Work(1)).is_ok());
    channel.disconnect();
    assert!(!channel.is_connected());
    assert_eq!(channel.send(Signal::Work(2)), Err(Signal::Work(2)));
    assert_eq!(channel.send(Signal::Terminate), Err(Signal::Terminate));
    assert_eq!(channel.len(), 1);
}

#[test]
fn nothing_is_received_once_disconnected() {
    let mut channel: Channel<u32> = Channel::new();
    assert!(channel.send(Signal::Work(5)).is_ok());
    assert!(channel.send(Signal::Terminate).is_ok());
    channel.disconnect();
    assert_eq!(channel.len(), 2);
    assert_eq!(channel.receive(), None);
    assert_eq!(channel.len(), 2);
    assert!(!channel.is_empty());
    assert!(!channel.is_connected());
}
