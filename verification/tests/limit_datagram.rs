use governor::clock::FakeRelativeClock;
use governor::middleware::NoOpMiddleware;
use governor::nanos::Nanos;
use governor::state::{InMemoryState, NotKeyed};
use governor::RateLimiter;
use sfo_io::limit_datagram::{
    DatagramState, DatagramStep, DatagramThrottle, LimitDatagram, LimitDatagramRecv,
    LimitDatagramSend, LocalLimitDatagram,
};
use sfo_io::speed_limiter::{LimitSettings, SpeedLimiter, SpeedLimiterRef};
use std::cell::{Cell, RefCell};
use std::collections::VecDeque;
use std::rc::Rc;
use std::time::Duration;

type FakeGate = RateLimiter<NotKeyed, InMemoryState, FakeRelativeClock, NoOpMiddleware<Nanos>>;

/// A clock that stands still until the test moves it.
struct TestClock {
    clock: FakeRelativeClock,
    passed: Cell<Duration>,
}

impl TestClock {
    fn new() -> TestClock {
        TestClock { clock: FakeRelativeClock::default(), passed: Cell::new(Duration::ZERO) }
    }

    fn now(&self) -> Duration {
        self.passed.get()
    }

    fn since(&self, start: Duration) -> Duration {
        self.passed.get() - start
    }

    fn advance(&self, by: Duration) {
        self.clock.advance(by);
        self.passed.set(self.passed.get() + by);
    }
}

/// Settings with a rate limiter that runs on a clock of the test.
struct Gate {
    settings: LimitSettings,
    gate: Option<FakeGate>,
}

fn gated(
    upper: Option<SpeedLimiterRef<Gate>>,
    rate: Option<u32>,
    weight: Option<u32>,
    clock: &TestClock,
) -> SpeedLimiterRef<Gate> {
    let settings = LimitSettings::new(rate, weight);
    let gate = settings
        .quota
        .map(|quota| RateLimiter::direct_with_clock(quota, clock.clock.clone()));
    SpeedLimiter::with_settings(upper, Gate { settings, gate })
}

/// A piece, if the limiter lets one through at once.
fn piece_of(limiter: &SpeedLimiterRef<Gate>) -> Option<usize> {
    let admission = limiter.limiter.settings.until_ready();
    if admission.gated {
        limiter.limiter.gate.as_ref().unwrap().check().ok()?;
    }
    Some(admission.piece_size)
}

/// A socket that gives the results it was told to, or else the length of the buffer.
struct MockDatagram {
    send_returns: VecDeque<Result<usize, &'static str>>,
    recv_returns: VecDeque<Result<usize, &'static str>>,
}

impl MockDatagram {
    fn new() -> Self {
        Self { send_returns: VecDeque::new(), recv_returns: VecDeque::new() }
    }

    fn with_send_result(mut self, result: Result<usize, &'static str>) -> Self {
        self.send_returns.push_back(result);
        self
    }

    fn with_recv_result(mut self, result: Result<usize, &'static str>) -> Self {
        self.recv_returns.push_back(result);
        self
    }

    fn send_to(&mut self, buf: &[u8]) -> Result<usize, &'static str> {
        self.send_returns.pop_front();
        Ok(buf.len())
    }

    fn recv_from(&mut self, buf: &mut [u8]) -> Result<usize, &'static str> {
        self.recv_returns.pop_front();
        Ok(buf.len())
    }
}

struct MockDatagramSend {
    send_returns: VecDeque<Result<usize, &'static str>>,
}

impl MockDatagramSend {
    fn new() -> Self {
        Self { send_returns: VecDeque::new() }
    }

    fn with_send_result(mut self, result: Result<usize, &'static str>) -> Self {
        self.send_returns.push_back(result);
        self
    }

    fn send_to(&mut self, buf: &[u8]) -> Result<usize, &'static str> {
        self.send_returns.pop_front().unwrap_or(Ok(buf.len()))
    }
}

struct MockDatagramRecv {
    recv_returns: VecDeque<Result<usize, &'static str>>,
}

impl MockDatagramRecv {
    fn new() -> Self {
        Self { recv_returns: VecDeque::new() }
    }

    fn with_recv_result(mut self, result: Result<usize, &'static str>) -> Self {
        self.recv_returns.push_back(result);
        self
    }

    fn recv_from(&mut self, buf: &mut [u8]) -> Result<usize, &'static str> {
        self.recv_returns.pop_front().unwrap_or(Ok(buf.len()))
    }
}

fn wait_piece(limiter: &SpeedLimiterRef<Gate>, clock: &TestClock) -> usize {
    loop {
        if let Some(n) = piece_of(limiter) {
            return n;
        }
        clock.advance(Duration::from_millis(1));
    }
}

fn send_both(
    socket: &mut LimitDatagram<MockDatagram, Gate>,
    buf: &[u8],
    clock: &TestClock,
) -> Result<usize, &'static str> {
    let mut piece = None;
    loop {
        match socket.send_to(piece) {
            DatagramStep::Acquire(limiter) => piece = Some(wait_piece(&limiter, clock)),
            DatagramStep::Pass => {
                let outcome = socket.inner.send_to(buf);
                return socket.sent(buf, outcome);
            }
        }
    }
}

fn recv_both(
    socket: &mut LimitDatagram<MockDatagram, Gate>,
    buf: &mut [u8],
    clock: &TestClock,
) -> Result<usize, &'static str> {
    let mut piece = None;
    loop {
        match socket.recv_from(piece) {
            DatagramStep::Acquire(limiter) => piece = Some(wait_piece(&limiter, clock)),
            DatagramStep::Pass => {
                let outcome = socket.inner.recv_from(buf);
                return socket.received(outcome);
            }
        }
    }
}

fn send_one(
    socket: &mut LimitDatagramSend<MockDatagramSend, Gate>,
    buf: &[u8],
    clock: &TestClock,
) -> Result<usize, &'static str> {
    let mut piece = None;
    loop {
        match socket.send_to(piece) {
            DatagramStep::Acquire(limiter) => piece = Some(wait_piece(&limiter, clock)),
            DatagramStep::Pass => {
                let outcome = socket.inner.send_to(buf);
                return socket.sent(buf, outcome);
            }
        }
    }
}

fn recv_one(
    socket: &mut LimitDatagramRecv<MockDatagramRecv, Gate>,
    buf: &mut [u8],
    clock: &TestClock,
) -> Result<usize, &'static str> {
    let mut piece = None;
    loop {
        match socket.recv_from(piece) {
            DatagramStep::Acquire(limiter) => piece = Some(wait_piece(&limiter, clock)),
            DatagramStep::Pass => {
                let outcome = socket.inner.recv_from(buf);
                return socket.received(outcome);
            }
        }
    }
}

#[test]
fn test_limit_datagram_new() {
    let clock = TestClock::new();
    let mock_datagram = MockDatagram::new();
    let read_limiter = gated(None, Some(10), Some(10), &clock);
    let read_limit = read_limiter.new_limit_session();
    let write_limiter = gated(None, Some(10), Some(10), &clock);
    let write_limit = write_limiter.new_limit_session();
    let limit_datagram = LimitDatagram::new(mock_datagram, read_limit, write_limit);

    match limit_datagram.read_limiter.state {
        DatagramState::Idle => (),
        _ => panic!("expected no grant in hand"),
    }
    match limit_datagram.write_limiter.state {
        DatagramState::Idle => (),
        _ => panic!("expected no grant in hand"),
    }
}

#[test]
fn test_send_to_without_write_limit() {
    let clock = TestClock::new();
    let mock_datagram = MockDatagram::new().with_send_result(Ok(10));
    let read_limiter = gated(None, Some(10), Some(10), &clock);
    let read_limit = read_limiter.new_limit_session();
    let write_limiter = gated(None, Some(10), Some(10), &clock);
    let write_limit = write_limiter.new_limit_session();
    let mut limit_datagram = LimitDatagram::new(mock_datagram, read_limit, write_limit);

    let buffer = [0u8; 10];
    let result = send_both(&mut limit_datagram, &buffer, &clock);

    assert_eq!(result, Ok(10));
}

#[test]
fn test_recv_from_without_read_limit() {
    let clock = TestClock::new();
    let mock_datagram = MockDatagram::new().with_recv_result(Ok(10));
    let read_limiter = gated(None, Some(u32::MAX), Some(1024), &clock);
    let read_limit = read_limiter.new_limit_session();
    let write_limiter = gated(None, Some(10), Some(10), &clock);
    let write_limit = write_limiter.new_limit_session();
    let mut limit_datagram = LimitDatagram::new(mock_datagram, read_limit, write_limit);

    let mut buffer = [0u8; 10];
    let result = recv_both(&mut limit_datagram, &mut buffer, &clock);

    assert_eq!(result, Ok(10));
}

#[test]
fn test_send_to_with_write_limit_initial() {
    let clock = TestClock::new();
    let mock_datagram = MockDatagram::new().with_send_result(Ok(10));
    let read_limiter = gated(None, Some(u32::MAX), Some(1024), &clock);
    let read_limit = read_limiter.new_limit_session();
    let write_limiter = gated(None, Some(10), Some(10), &clock);
    let write_limit = write_limiter.new_limit_session();
    let mut limit_datagram = LimitDatagram::new(mock_datagram, read_limit, write_limit);

    let buffer = [0u8; 10];
    let result = send_both(&mut limit_datagram, &buffer, &clock);

    assert!(result.is_ok());
}

#[test]
fn test_recv_from_with_read_limit_initial() {
    let clock = TestClock::new();
    let mock_datagram = MockDatagram::new().with_recv_result(Ok(10));
    let read_limiter = gated(None, Some(10), Some(10), &clock);
    let read_limit = read_limiter.new_limit_session();
    let write_limiter = gated(None, Some(10), Some(10), &clock);
    let write_limit = write_limiter.new_limit_session();
    let mut limit_datagram = LimitDatagram::new(mock_datagram, read_limit, write_limit);

    let mut buffer = [0u8; 10];
    let result = recv_both(&mut limit_datagram, &mut buffer, &clock);

    assert!(result.is_ok());
}

#[test]
fn test_send_to_in_writing_state() {
    let clock = TestClock::new();
    let mock_datagram = MockDatagram::new()
        .with_send_result(Ok(5))
        .with_send_result(Ok(5));

    let read_limiter = gated(None, Some(10), Some(10), &clock);
    let read_limit = read_limiter.new_limit_session();
    let write_limiter = gated(None, Some(1), Some(10), &clock);
    let write_limit = write_limiter.new_limit_session();
    let mut limit_datagram = LimitDatagram::new(mock_datagram, read_limit, write_limit);

    let buffer1 = [0u8; 5];
    let _ = send_both(&mut limit_datagram, &buffer1, &clock);

    match limit_datagram.write_limiter.state {
        DatagramState::Spending { .. } => (),
        _ => panic!("expected a grant in hand"),
    }

    let start = clock.now();
    let buffer2 = [0u8; 2];
    let result = send_both(&mut limit_datagram, &buffer2, &clock);
    assert!(clock.since(start) <= Duration::from_millis(50));
    assert_eq!(result, Ok(2));

    let buffer2 = [0u8; 5];
    let result = send_both(&mut limit_datagram, &buffer2, &clock);

    assert_eq!(result, Ok(5));
    assert!(clock.since(start) <= Duration::from_millis(100));
    let buffer2 = [0u8; 5];
    let result = send_both(&mut limit_datagram, &buffer2, &clock);

    assert_eq!(result, Ok(5));
    assert!(clock.since(start) >= Duration::from_millis(900));
}

#[test]
fn test_recv_from_in_reading_state() {
    let clock = TestClock::new();
    let mock_datagram = MockDatagram::new()
        .with_recv_result(Ok(5))
        .with_recv_result(Ok(5));
    let read_limiter = gated(None, Some(1), Some(10), &clock);
    let read_limit = read_limiter.new_limit_session();
    let write_limiter = gated(None, Some(1), Some(10), &clock);
    let write_limit = write_limiter.new_limit_session();
    let mut limit_datagram = LimitDatagram::new(mock_datagram, read_limit, write_limit);

    let mut buffer1 = [0u8; 5];
    let _ = recv_both(&mut limit_datagram, &mut buffer1, &clock);

    match limit_datagram.read_limiter.state {
        DatagramState::Spending { .. } => (),
        _ => panic!("expected a grant in hand"),
    }

    let start = clock.now();
    let mut buffer2 = [0u8; 2];
    let result = recv_both(&mut limit_datagram, &mut buffer2, &clock);
    assert!(clock.since(start) <= Duration::from_millis(50));

    assert_eq!(result, Ok(2));

    let mut buffer2 = [0u8; 5];
    let result = recv_both(&mut limit_datagram, &mut buffer2, &clock);
    assert!(clock.since(start) <= Duration::from_millis(100));

    assert_eq!(result, Ok(5));

    let mut buffer2 = [0u8; 5];

    let result = recv_both(&mut limit_datagram, &mut buffer2, &clock);
    assert!(clock.since(start) > Duration::from_millis(900));

    assert_eq!(result, Ok(5));
}

#[test]
fn test_send_to_complete_writing_state() {
    let clock = TestClock::new();
    let mock_datagram = MockDatagram::new()
        .with_send_result(Ok(5))
        .with_send_result(Ok(5));
    let read_limiter = gated(None, Some(10), Some(1), &clock);
    let read_limit = read_limiter.new_limit_session();
    let write_limiter = gated(None, Some(10), Some(1), &clock);
    let write_limit = write_limiter.new_limit_session();
    let mut limit_datagram = LimitDatagram::new(mock_datagram, read_limit, write_limit);

    let buffer1 = [0u8; 5];
    let _ = send_both(&mut limit_datagram, &buffer1, &clock);

    let buffer2 = [0u8; 5];
    let _ = send_both(&mut limit_datagram, &buffer2, &clock);

    match limit_datagram.write_limiter.state {
        DatagramState::Idle => (),
        _ => panic!("expected no grant in hand"),
    }
}

#[test]
fn test_recv_from_complete_reading_state() {
    let clock = TestClock::new();
    let mock_datagram = MockDatagram::new()
        .with_recv_result(Ok(5))
        .with_recv_result(Ok(5));
    let read_limiter = gated(None, Some(10), Some(1), &clock);
    let read_limit = read_limiter.new_limit_session();
    let write_limiter = gated(None, Some(10), Some(1), &clock);
    let write_limit = write_limiter.new_limit_session();
    let mut limit_datagram = LimitDatagram::new(mock_datagram, read_limit, write_limit);

    let mut buffer1 = [0u8; 5];
    let _ = recv_both(&mut limit_datagram, &mut buffer1, &clock);

    let mut buffer2 = [0u8; 5];
    let _ = recv_both(&mut limit_datagram, &mut buffer2, &clock);

    match limit_datagram.read_limiter.state {
        DatagramState::Idle => (),
        _ => panic!("expected no grant in hand"),
    }
}

#[test]
fn test_limit_datagram_send_new() {
    let clock = TestClock::new();
    let mock_sender = MockDatagramSend::new();
    let write_limiter = gated(None, Some(10), Some(10), &clock);
    let write_limit = write_limiter.new_limit_session();
    let limit_sender = LimitDatagramSend::new(mock_sender, write_limit);

    match limit_sender.write_limiter.state {
        DatagramState::Idle => (),
        _ => panic!("expected no grant in hand"),
    }
}

#[test]
fn test_limit_datagram_send_without_limit() {
    let clock = TestClock::new();
    let mock_sender = MockDatagramSend::new().with_send_result(Ok(10));
    let write_limiter = gated(None, Some(100), Some(100), &clock);
    let write_limit = write_limiter.new_limit_session();
    let mut limit_sender = LimitDatagramSend::new(mock_sender, write_limit);

    let buffer = [0u8; 10];
    let result = send_one(&mut limit_sender, &buffer, &clock);

    assert_eq!(result, Ok(10));
}

#[test]
fn test_limit_datagram_send_with_limit() {
    let clock = TestClock::new();
    let mock_sender = MockDatagramSend::new().with_send_result(Ok(5));
    let write_limiter = gated(None, Some(10), Some(10), &clock);
    let write_limit = write_limiter.new_limit_session();
    let mut limit_sender = LimitDatagramSend::new(mock_sender, write_limit);

    let buffer = [0u8; 5];
    let result = send_one(&mut limit_sender, &buffer, &clock);

    assert!(result.is_ok());
}

#[test]
fn test_limit_datagram_send_in_writing_state() {
    let clock = TestClock::new();
    let mock_sender = MockDatagramSend::new()
        .with_send_result(Ok(5))
        .with_send_result(Ok(3));

    let write_limiter = gated(None, Some(1), Some(60), &clock);
    let write_limit = write_limiter.new_limit_session();
    let mut limit_sender = LimitDatagramSend::new(mock_sender, write_limit);

    let buffer1 = [0u8; 5];
    let _ = send_one(&mut limit_sender, &buffer1, &clock);

    match &limit_sender.write_limiter.state {
        DatagramState::Spending { limit, used: written } => {
            assert_eq!(*limit, 60);
            assert_eq!(*written, 5);
        },
        _ => panic!("expected a grant in hand"),
    }

    let buffer2 = [0u8; 3];
    let result = send_one(&mut limit_sender, &buffer2, &clock);

    assert_eq!(result, Ok(3));
}

#[test]
fn test_limit_datagram_send_complete_writing_state() {
    let clock = TestClock::new();
    let mock_sender = MockDatagramSend::new()
        .with_send_result(Ok(3))
        .with_send_result(Ok(3));

    let write_limiter = gated(None, Some(5), Some(5), &clock);
    let write_limit = write_limiter.new_limit_session();
    let mut limit_sender = LimitDatagramSend::new(mock_sender, write_limit);

    let buffer1 = [0u8; 3];
    let _ = send_one(&mut limit_sender, &buffer1, &clock);

    match &limit_sender.write_limiter.state {
        DatagramState::Spending { limit, used: written } => {
            assert_eq!(*limit, 5);
            assert_eq!(*written, 3);
        },
        _ => panic!("expected a grant in hand"),
    }

    let buffer2 = [0u8; 3];
    let _ = send_one(&mut limit_sender, &buffer2, &clock);

    match limit_sender.write_limiter.state {
        DatagramState::Idle => (),
        _ => panic!("expected no grant in hand"),
    }
}

#[test]
fn test_limit_datagram_recv_new() {
    let clock = TestClock::new();
    let mock_receiver = MockDatagramRecv::new();
    let read_limiter = gated(None, Some(10), Some(10), &clock);
    let read_limit = read_limiter.new_limit_session();
    let limit_receiver = LimitDatagramRecv::new(mock_receiver, read_limit);

    match limit_receiver.read_limiter.state {
        DatagramState::Idle => (),
        _ => panic!("expected no grant in hand"),
    }
}

#[test]
fn test_limit_datagram_recv_without_limit() {
    let clock = TestClock::new();
    let mock_receiver = MockDatagramRecv::new().with_recv_result(Ok(10));
    let read_limiter = gated(None, Some(100), Some(100), &clock);
    let read_limit = read_limiter.new_limit_session();
    let mut limit_receiver = LimitDatagramRecv::new(mock_receiver, read_limit);

    let mut buffer = [0u8; 10];
    let result = recv_one(&mut limit_receiver, &mut buffer, &clock);

    assert_eq!(result, Ok(10));
}

#[test]
fn test_limit_datagram_recv_with_limit() {
    let clock = TestClock::new();
    let mock_receiver = MockDatagramRecv::new().with_recv_result(Ok(5));
    let read_limiter = gated(None, Some(10), Some(10), &clock);
    let read_limit = read_limiter.new_limit_session();
    let mut limit_receiver = LimitDatagramRecv::new(mock_receiver, read_limit);

    let mut buffer = [0u8; 5];
    let result = recv_one(&mut limit_receiver, &mut buffer, &clock);

    assert!(result.is_ok());
}

#[test]
fn test_limit_datagram_recv_in_reading_state() {
    let clock = TestClock::new();
    let mock_receiver = MockDatagramRecv::new()
        .with_recv_result(Ok(5))
        .with_recv_result(Ok(3));

    let read_limiter = gated(None, Some(1), Some(60), &clock);
    let read_limit = read_limiter.new_limit_session();
    let mut limit_receiver = LimitDatagramRecv::new(mock_receiver, read_limit);

    let mut buffer1 = [0u8; 5];
    let _ = recv_one(&mut limit_receiver, &mut buffer1, &clock);

    match &limit_receiver.read_limiter.state {
        DatagramState::Spending { limit, used: read } => {
            assert_eq!(*limit, 60);
            assert_eq!(*read, 5);
        },
        _ => panic!("expected a grant in hand"),
    }

    let mut buffer2 = [0u8; 3];
    let result = recv_one(&mut limit_receiver, &mut buffer2, &clock);

    assert_eq!(result, Ok(3));
}

#[test]
fn test_limit_datagram_recv_complete_reading_state() {
    let clock = TestClock::new();
    let mock_receiver = MockDatagramRecv::new()
        .with_recv_result(Ok(3))
        .with_recv_result(Ok(3));

    let read_limiter = gated(None, Some(5), Some(5), &clock);
    let read_limit = read_limiter.new_limit_session();
    let mut limit_receiver = LimitDatagramRecv::new(mock_receiver, read_limit);

    let mut buffer1 = [0u8; 3];
    let _ = recv_one(&mut limit_receiver, &mut buffer1, &clock);

    match &limit_receiver.read_limiter.state {
        DatagramState::Spending { limit, used: read } => {
            assert_eq!(*limit, 5);
            assert_eq!(*read, 3);
        },
        _ => panic!("expected a grant in hand"),
    }

    let mut buffer2 = [0u8; 3];
    let _ = recv_one(&mut limit_receiver, &mut buffer2, &clock);

    match limit_receiver.read_limiter.state {
        DatagramState::Idle => (),
        _ => panic!("expected no grant in hand"),
    }
}

#[test]
fn local_limit_datagram_accepts_non_send_inner() {
    let calls = Rc::new(RefCell::new(Vec::new()));
    let read_limit = SpeedLimiter::new(None, None, Some(64)).new_limit_session();
    let write_limit = SpeedLimiter::new(None, None, Some(64)).new_limit_session();
    let mut datagram = LocalLimitDatagram::new(calls.clone(), read_limit, write_limit);

    assert!(matches!(datagram.send_to(None), DatagramStep::Acquire(_)));
    assert!(matches!(datagram.send_to(Some(64)), DatagramStep::Pass));
    datagram.inner.borrow_mut().push("send_to");
    let sent: Result<usize, &str> = datagram.sent(&[1, 2, 3], Ok(3));
    assert_eq!(sent, Ok(3));

    assert!(matches!(datagram.recv_from(None), DatagramStep::Acquire(_)));
    assert!(matches!(datagram.recv_from(Some(64)), DatagramStep::Pass));
    datagram.inner.borrow_mut().push("recv_from");
    let received: Result<usize, &str> = datagram.received(Ok(8));
    assert_eq!(received, Ok(8));
    assert_eq!(&*calls.borrow(), &["send_to", "recv_from"]);
}

#[test]
fn what_was_offered_counts_as_sent() {
    let session = SpeedLimiter::new(None, None, Some(64)).new_limit_session();
    let mut socket = LimitDatagramSend::new((), session);
    socket.send_to(None);
    socket.send_to(Some(64));
    let sent: Result<usize, &str> = socket.sent(&[0; 10], Ok(4));
    assert_eq!(sent, Ok(10));
    assert_eq!(socket.write_limiter.state, DatagramState::Spending { limit: 64, used: 10 });
}

#[test]
fn a_failure_forfeits_the_grant_it_came_with() {
    let session = SpeedLimiter::new(None, None, Some(64)).new_limit_session();
    let mut socket = LimitDatagramSend::new((), session);
    socket.send_to(None);
    socket.send_to(Some(64));
    let sent: Result<usize, &str> = socket.sent(&[0; 10], Err("gone"));
    assert_eq!(sent, Err("gone"));
    assert_eq!(socket.write_limiter.state, DatagramState::Idle);
    // A later failure leaves the grant in hand.
    socket.send_to(None);
    socket.send_to(Some(64));
    let sent: Result<usize, &str> = socket.sent(&[0; 10], Ok(10));
    assert_eq!(sent, Ok(10));
    assert!(matches!(socket.send_to(None), DatagramStep::Pass));
    let sent: Result<usize, &str> = socket.sent(&[0; 10], Err("gone"));
    assert_eq!(sent, Err("gone"));
    assert_eq!(socket.write_limiter.state, DatagramState::Spending { limit: 64, used: 10 });
}

#[test]
fn only_the_last_datagram_exceeds_a_grant() {
    let session = SpeedLimiter::new(None, None, Some(10)).new_limit_session();
    let mut throttle = DatagramThrottle::new(session);
    let offer = |throttle: &mut DatagramThrottle| {
        assert!(matches!(throttle.start(None), DatagramStep::Acquire(_)));
        assert!(matches!(throttle.start(Some(10)), DatagramStep::Pass));
        assert_eq!(throttle.state, DatagramState::Offered { limit: 10 });
    };
    let pass = |throttle: &mut DatagramThrottle, len: usize| {
        let result: Result<usize, ()> = Ok(len);
        throttle.settle(&result);
    };
    // One that is longer than the grant goes through, and ends it.
    offer(&mut throttle);
    pass(&mut throttle, 11);
    assert_eq!(throttle.state, DatagramState::Idle);
    // One that is exactly as long leaves it in hand for one more.
    offer(&mut throttle);
    pass(&mut throttle, 10);
    assert_eq!(throttle.state, DatagramState::Spending { limit: 10, used: 10 });
    assert!(matches!(throttle.start(None), DatagramStep::Pass));
    pass(&mut throttle, 500);
    assert_eq!(throttle.state, DatagramState::Idle);
    // Later ones end it once they reach it.
    offer(&mut throttle);
    pass(&mut throttle, 4);
    pass(&mut throttle, 5);
    assert_eq!(throttle.state, DatagramState::Spending { limit: 10, used: 9 });
    pass(&mut throttle, 1);
    assert_eq!(throttle.state, DatagramState::Idle);
    offer(&mut throttle);
    pass(&mut throttle, 4);
    pass(&mut throttle, usize::MAX);
    assert_eq!(throttle.state, DatagramState::Idle);
}

#[test]
fn a_datagram_that_is_given_up_forfeits_its_grant() {
    let session = SpeedLimiter::new(None, None, Some(10)).new_limit_session();
    let mut throttle = DatagramThrottle::new(session);
    throttle.start(None);
    assert!(matches!(throttle.start(Some(10)), DatagramStep::Pass));
    assert!(matches!(throttle.start(None), DatagramStep::Acquire(_)));
    assert_eq!(throttle.state, DatagramState::Idle);
}
