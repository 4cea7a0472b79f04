use event_bus::dispatch::callback::Callback;
use event_bus::dispatch::event_pool::EventPool;
use event_bus::dispatch::observer::{Listener, Observer};
use event_bus::event::Event;

struct Sig(u64);

impl Event for Sig {
    fn kind(&self) -> u64 {
        self.0
    }
}

#[derive(Clone, Copy)]
enum Probe {
    /// Appends its mark to the log.
    Note { accepts: u64, mark: u64 },
    /// Appends its mark, then emits one follow-up signal.
    Relay { accepts: u64, mark: u64, emit: u64 },
    /// Appends its mark, then emits while the log is shorter than `limit`.
    RelayWhile { accepts: u64, mark: u64, emit: u64, limit: usize },
}

impl Callback for Probe {
    type Ev = Sig;
    type Ctx = Vec<u64>;

    fn kind(&self) -> u64 {
        match self {
            Probe::Note { accepts, .. } => *accepts,
            Probe::Relay { accepts, .. } => *accepts,
            Probe::RelayWhile { accepts, .. } => *accepts,
        }
    }

    fn on_event(&self, ctx: &mut Vec<u64>, _event: &Sig, event_pool: &mut EventPool<Sig>) {
        match self {
            Probe::Note { mark, .. } => ctx.push(*mark),
            Probe::Relay { mark, emit, .. } => {
                ctx.push(*mark);
                event_pool.send(Sig(*emit));
            }
            Probe::RelayWhile { mark, emit, limit, .. } => {
                ctx.push(*mark);
                if ctx.len() < *limit {
                    event_pool.send(Sig(*emit));
                }
            }
        }
    }
}

enum ChainEv {
    Red,
    First(u32),
    Second(String),
    Third(String),
}

impl Event for ChainEv {
    fn kind(&self) -> u64 {
        match self {
            ChainEv::Red => 10,
            ChainEv::First(_) => 20,
            ChainEv::Second(_) => 30,
            ChainEv::Third(_) => 40,
        }
    }
}

#[derive(Clone, Copy)]
enum ChainCb {
    OnRed,
    OnFirst,
    OnSecond,
    OnThird,
}

impl Callback for ChainCb {
    type Ev = ChainEv;
    type Ctx = String;

    fn kind(&self) -> u64 {
        match self {
            ChainCb::OnRed => 10,
            ChainCb::OnFirst => 20,
            ChainCb::OnSecond => 30,
            ChainCb::OnThird => 40,
        }
    }

    fn on_event(&self, ctx: &mut String, event: &ChainEv, event_pool: &mut EventPool<ChainEv>) {
        match (self, event) {
            (ChainCb::OnRed, _) => ctx.push_str("red event"),
            (ChainCb::OnFirst, ChainEv::First(val)) => {
                event_pool.send(ChainEv::Second(format!("first({}),", val)));
            }
            (ChainCb::OnSecond, ChainEv::Second(msg)) => {
                event_pool.send(ChainEv::Third(format!("{} second,", msg)));
            }
            (ChainCb::OnThird, ChainEv::Third(msg)) => {
                ctx.push_str(&format!("{} third, ", msg));
            }
            _ => {}
        }
    }
}

#[test]
fn breadth_first_chain() {
    let mut out = String::new();
    let mut ob: Observer<ChainCb> = Observer::new();

    ob.listen(ChainCb::OnFirst);
    ob.listen(ChainCb::OnSecond);
    ob.listen(ChainCb::OnThird);
    let mut red = ob.listen(ChainCb::OnRed);
    red.deactivate(&mut ob);

    ob.send(&mut out, ChainEv::Red);
    ob.send(&mut out, ChainEv::First(555));

    assert_eq!(out, "first(555), second, third, ");
    assert!(!out.contains("red event"));
}

#[test]
fn registration_order_dispatch() {
    let mut log: Vec<u64> = Vec::new();
    let mut ob: Observer<Probe> = Observer::new();

    ob.listen(Probe::Note { accepts: 1, mark: 1 });
    ob.listen(Probe::Note { accepts: 1, mark: 2 });
    ob.listen(Probe::Note { accepts: 1, mark: 3 });
    ob.send(&mut log, Sig(1));

    assert_eq!(log, vec![1, 2, 3]);
}

#[test]
fn breadth_first_never_interleaves() {
    let mut log: Vec<u64> = Vec::new();
    let mut ob: Observer<Probe> = Observer::new();

    ob.listen(Probe::Relay { accepts: 1, mark: 1, emit: 2 });
    ob.listen(Probe::Note { accepts: 1, mark: 2 });
    ob.listen(Probe::Note { accepts: 2, mark: 3 });
    ob.send(&mut log, Sig(1));

    assert_eq!(log, vec![1, 2, 3]);
}

#[test]
fn deactivate_removes_exactly_one() {
    let mut log: Vec<u64> = Vec::new();
    let mut ob: Observer<Probe> = Observer::new();

    let mut first = ob.listen(Probe::Note { accepts: 1, mark: 7 });
    ob.listen(Probe::Note { accepts: 1, mark: 7 });
    first.deactivate(&mut ob);
    ob.send(&mut log, Sig(1));

    assert_eq!(log, vec![7]);
}

#[test]
fn deactivated_listener_never_fires() {
    let mut log: Vec<u64> = Vec::new();
    let mut ob: Observer<Probe> = Observer::new();

    let mut listener = ob.listen(Probe::Note { accepts: 1, mark: 1 });
    listener.deactivate(&mut ob);

    ob.send(&mut log, Sig(1));
    ob.send(&mut log, Sig(1));
    ob.send(&mut log, Sig(1));

    assert_eq!(log, Vec::<u64>::new());
}

#[test]
fn deactivate_twice_is_deactivate_once() {
    let mut log: Vec<u64> = Vec::new();
    let mut ob: Observer<Probe> = Observer::new();

    let mut doomed = ob.listen(Probe::Note { accepts: 1, mark: 1 });
    ob.listen(Probe::Note { accepts: 1, mark: 2 });
    doomed.deactivate(&mut ob);
    doomed.deactivate(&mut ob);
    ob.send(&mut log, Sig(1));

    assert_eq!(log, vec![2]);
}

#[test]
fn deactivate_through_copy_removes_the_registration() {
    let mut log: Vec<u64> = Vec::new();
    let mut ob: Observer<Probe> = Observer::new();

    let listener = ob.listen(Probe::Note { accepts: 1, mark: 1 });
    let mut copy = listener;
    copy.deactivate(&mut ob);
    ob.send(&mut log, Sig(1));

    assert_eq!(log, Vec::<u64>::new());
}

#[test]
fn send_without_listeners_is_a_no_op() {
    let mut log: Vec<u64> = Vec::new();
    let mut ob: Observer<Probe> = Observer::new();

    let complete = ob.send(&mut log, Sig(9));

    assert!(complete);
    assert_eq!(log, Vec::<u64>::new());
}

#[test]
fn type_isolation() {
    let mut log: Vec<u64> = Vec::new();
    let mut ob: Observer<Probe> = Observer::new();

    ob.listen(Probe::Note { accepts: 1, mark: 1 });
    let complete = ob.send(&mut log, Sig(2));

    assert!(complete);
    assert_eq!(log, Vec::<u64>::new());
}

#[test]
fn looping_send_drains_in_waves() {
    let mut log: Vec<u64> = Vec::new();
    let mut ob: Observer<Probe> = Observer::new();

    ob.listen(Probe::Relay { accepts: 1, mark: 1, emit: 2 });
    ob.listen(Probe::RelayWhile { accepts: 2, mark: 2, emit: 1, limit: 6 });
    let complete = ob.send(&mut log, Sig(1));

    assert!(complete);
    assert_eq!(log, vec![1, 2, 1, 2, 1, 2]);
}

#[test]
fn remove_listener_equals_deactivate() {
    let mut log: Vec<u64> = Vec::new();
    let mut ob: Observer<Probe> = Observer::new();

    let mut listener = ob.listen(Probe::Note { accepts: 1, mark: 4 });
    ob.remove_listener(&mut listener);
    ob.send(&mut log, Sig(1));

    assert_eq!(log, Vec::<u64>::new());
}

#[test]
fn reactivation_moves_to_the_back() {
    let mut log: Vec<u64> = Vec::new();
    let mut ob: Observer<Probe> = Observer::new();

    let mut first = ob.listen(Probe::Note { accepts: 1, mark: 1 });
    ob.listen(Probe::Note { accepts: 1, mark: 2 });
    first.activate(&mut ob);
    ob.send(&mut log, Sig(1));

    assert_eq!(log, vec![2, 1]);
}

#[test]
fn new_listener_is_inactive_until_activated() {
    let mut log: Vec<u64> = Vec::new();
    let mut ob: Observer<Probe> = Observer::new();

    let mut listener = Listener::new(Probe::Note { accepts: 1, mark: 5 });
    ob.send(&mut log, Sig(1));
    assert_eq!(log, Vec::<u64>::new());

    listener.activate(&mut ob);
    ob.send(&mut log, Sig(1));
    assert_eq!(log, vec![5]);
}

#[test]
fn listener_notify_calls_the_callback() {
    let mut log: Vec<u64> = Vec::new();
    let listener = Listener::new(Probe::Note { accepts: 3, mark: 9 });
    let mut pool = EventPool::new();

    listener.notify(&mut log, &Sig(3), &mut pool);

    assert_eq!(log, vec![9]);
    assert_eq!(listener.event_type(), 3);
}
