use event_bus::dispatch::callback::Callback;
use event_bus::dispatch::counter::Counter;
use event_bus::dispatch::event_pool::EventPool;
use event_bus::dispatch::observer::Observer;
use event_bus::dispatch::observer::Listener;
use event_bus::dispatch::vec_listeners::VecListeners;
use event_bus::event::{Event, Signal};
use event_bus::direct::observer::Observer as DirectObserver;
use event_bus::direct::tally::Tally;
use event_bus::toggle::{Toggle, ToggleState};
use event_bus::value_observer::Gauge;
use event_bus::value_observer::{ValueObserver, Watch};

struct Ping(u64);

impl Event for Ping {
    fn kind(&self) -> u64 {
        self.0
    }
}

#[derive(Clone, Copy)]
struct Stamp(u64);

impl Callback for Stamp {
    type Ev = Ping;
    type Ctx = Vec<u64>;

    fn kind(&self) -> u64 {
        self.0
    }

    fn on_event(&self, ctx: &mut Vec<u64>, _event: &Ping, _event_pool: &mut EventPool<Ping>) {
        ctx.push(self.0);
    }
}

#[derive(Clone, Copy)]
struct PushVal;

impl Watch for PushVal {
    type Val = i32;
    type Ctx = Vec<i32>;

    fn watch(&self, ctx: &mut Vec<i32>, val: &i32) {
        ctx.push(*val);
    }
}

#[test]
fn event_pool_is_fifo() {
    let mut pool = EventPool::from(Ping(1));
    pool.send(Ping(2));
    pool.send(Ping(3));

    assert_eq!(pool.len(), 3);
    assert_eq!(pool.pop().map(|e| e.0), Some(1));
    assert_eq!(pool.pop().map(|e| e.0), Some(2));
    assert_eq!(pool.pop().map(|e| e.0), Some(3));
    assert!(pool.pop().is_none());
    assert_eq!(pool.len(), 0);
}

#[test]
fn counter_counts_only_its_kind() {
    let mut count: u64 = 0;
    let mut ob: Observer<Counter> = Observer::new();

    ob.listen(Counter { accepts: 1 });
    ob.send(&mut count, Signal { kind_id: 1 });
    ob.send(&mut count, Signal { kind_id: 1 });
    ob.send(&mut count, Signal { kind_id: 2 });
    ob.send(&mut count, Signal { kind_id: 1 });

    assert_eq!(count, 3);
}

#[test]
fn empty_pool_pops_nothing() {
    let mut pool: EventPool<Ping> = EventPool::new();
    assert!(pool.pop().is_none());
}

#[test]
fn row_from_listener_notifies() {
    let mut log: Vec<u64> = Vec::new();
    let mut pool = EventPool::new();
    let row = Vec::from_listener(Listener::new(Stamp(4)));

    row.notify_all(&mut log, &Ping(4), &mut pool);

    assert_eq!(log, vec![4]);
}

#[test]
fn value_observer_calls_watchers_then_stores() {
    let mut accumulator: Vec<i32> = Vec::new();
    let mut ob = ValueObserver::new(0);

    let subscriber = ob.subscribe(PushVal);
    ob.set(&mut accumulator, 1);
    ob.set(&mut accumulator, 2);
    ob.unsubscribe(subscriber);
    ob.set(&mut accumulator, 3);

    assert_eq!(accumulator.as_slice(), &[1, 2]);
    assert_eq!(ob.get(), &3);
}

#[test]
fn value_observer_without_watchers_just_stores() {
    let mut accumulator: Vec<i32> = Vec::new();
    let mut ob: ValueObserver<PushVal> = ValueObserver::new(7);

    ob.set(&mut accumulator, 8);

    assert_eq!(accumulator.as_slice(), &[] as &[i32]);
    assert_eq!(ob.get(), &8);
}

#[test]
fn tally_counts_only_its_kind() {
    let mut count: u64 = 0;
    let mut ob: DirectObserver<Tally> = DirectObserver::new();

    ob.subscribe(Tally { accepts: 5 });
    ob.notify(&mut count, Signal { kind_id: 5 });
    ob.notify(&mut count, Signal { kind_id: 6 });
    ob.notify(&mut count, Signal { kind_id: 5 });

    assert_eq!(count, 2);
}

#[test]
fn gauge_tracks_the_last_value() {
    let mut seen: i64 = 0;
    let mut ob: ValueObserver<Gauge> = ValueObserver::new(0);

    ob.subscribe(Gauge);
    ob.set(&mut seen, 41);
    ob.set(&mut seen, 42);

    assert_eq!(seen, 42);
    assert_eq!(ob.get(), &42);
}

#[test]
fn registration_numbers_count_up() {
    let mut ob: Observer<Counter> = Observer::new();

    assert_eq!(ob.next_registration(), 0);
    ob.listen(Counter { accepts: 1 });
    assert_eq!(ob.next_registration(), 1);
    ob.listen(Counter { accepts: 2 });
    assert_eq!(ob.next_registration(), 2);
}

#[test]
fn toggle_cycles_three_states() {
    let mut toggle = Toggle::new();
    assert_eq!(toggle.name(), "first");

    toggle.switch();
    assert_eq!(toggle.name(), "second");

    toggle.switch();
    assert_eq!(toggle.name(), "third");

    toggle.switch();
    assert_eq!(toggle.name(), "first");
}

#[test]
fn toggle_set_state_jumps() {
    let mut toggle = Toggle::new();
    toggle.set_state(ToggleState::Third);
    assert_eq!(toggle.name(), "third");

    toggle.switch();
    assert_eq!(toggle.name(), "first");
}
