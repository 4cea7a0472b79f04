use event_bus::direct::observer::Observer;
use event_bus::direct::subscriber::Update;
use event_bus::event::Event;

enum Ev {
    First(&'static str),
    Second(i32),
}

impl Event for Ev {
    fn kind(&self) -> u64 {
        match self {
            Ev::First(_) => 1,
            Ev::Second(_) => 2,
        }
    }
}

#[derive(Clone, Copy)]
struct PushName;

impl Update for PushName {
    type Ev = Ev;
    type Ctx = String;

    fn kind(&self) -> u64 {
        1
    }

    fn update(&self, ctx: &mut String, event: &Ev) {
        if let Ev::First(name) = event {
            ctx.push_str(name);
        }
    }
}

#[derive(Clone, Copy)]
struct SetFlag;

impl Update for SetFlag {
    type Ev = Ev;
    type Ctx = bool;

    fn kind(&self) -> u64 {
        1
    }

    fn update(&self, ctx: &mut bool, _event: &Ev) {
        *ctx = true;
    }
}

#[derive(Clone, Copy)]
enum CounterCb {
    AddTen,
    AddNum,
}

impl Update for CounterCb {
    type Ev = Ev;
    type Ctx = i32;

    fn kind(&self) -> u64 {
        match self {
            CounterCb::AddTen => 1,
            CounterCb::AddNum => 2,
        }
    }

    fn update(&self, ctx: &mut i32, event: &Ev) {
        match self {
            CounterCb::AddTen => *ctx += 10,
            CounterCb::AddNum => {
                if let Ev::Second(num) = event {
                    *ctx += *num;
                }
            }
        }
    }
}

#[test]
fn subscribe_notify() {
    let mut str_out = String::new();
    let mut ob = Observer::new();

    ob.subscribe(PushName);
    ob.notify(&mut str_out, Ev::First("rust"));

    assert_eq!(str_out, "rust");
}

#[test]
fn unsubscribe() {
    let mut it_works = false;
    let mut ob = Observer::new();

    let subscriber = ob.subscribe(SetFlag);
    ob.unsubscribe(subscriber);
    ob.notify(&mut it_works, Ev::First(""));

    assert_eq!(it_works, false);
}

#[test]
fn two_events() {
    let mut counter: i32 = 0;
    let mut ob = Observer::new();

    ob.subscribe(CounterCb::AddTen);
    ob.subscribe(CounterCb::AddNum);

    ob.notify(&mut counter, Ev::First(""));
    ob.notify(&mut counter, Ev::Second(5));

    assert_eq!(counter, 15);
}

#[test]
fn test_subscribe_notify() {
    let mut str_out = String::new();
    let mut ob = Observer::new();

    ob.subscribe(PushName);
    ob.notify(&mut str_out, Ev::First("rust"));

    assert_eq!(str_out, "rust");
}

#[test]
fn test_unsubscribe() {
    let mut it_works = false;
    let mut ob = Observer::new();

    let subscriber = ob.subscribe(SetFlag);
    ob.unsubscribe(subscriber);
    ob.notify(&mut it_works, Ev::First(""));

    assert_eq!(it_works, false);
}

#[test]
fn test_two_events() {
    let mut counter: i32 = 0;
    let mut ob = Observer::new();

    ob.subscribe(CounterCb::AddTen);
    ob.subscribe(CounterCb::AddNum);

    ob.notify(&mut counter, Ev::First(""));
    ob.notify(&mut counter, Ev::Second(5));

    assert_eq!(counter, 15);
}

#[test]
fn main_subscribe_notify() {
    let mut str_out = String::new();
    let mut ob = Observer::new();

    ob.subscribe(PushName);
    ob.notify(&mut str_out, Ev::First("rust"));

    assert_eq!(str_out, "rust");
}

#[test]
fn main_unsubscribe() {
    let mut it_works = false;
    let mut ob = Observer::new();

    let subscriber = ob.subscribe(SetFlag);
    ob.unsubscribe(subscriber);
    ob.notify(&mut it_works, Ev::First(""));

    assert_eq!(it_works, false);
}

#[test]
fn main_two_events() {
    let mut counter: i32 = 0;
    let mut ob = Observer::new();

    ob.subscribe(CounterCb::AddTen);
    ob.subscribe(CounterCb::AddNum);

    ob.notify(&mut counter, Ev::First(""));
    ob.notify(&mut counter, Ev::Second(5));

    assert_eq!(counter, 15);
}

#[test]
fn notify_order_is_subscription_order() {
    let mut log = String::new();
    let mut ob = Observer::new();

    ob.subscribe(PushName);
    ob.subscribe(PushName);
    ob.notify(&mut log, Ev::First("a"));

    assert_eq!(log, "aa");
}

#[test]
fn unsubscribe_one_of_two_equal_callbacks() {
    let mut log = String::new();
    let mut ob = Observer::new();

    let first = ob.subscribe(PushName);
    let _second = ob.subscribe(PushName);
    ob.unsubscribe(first);
    ob.notify(&mut log, Ev::First("x"));

    assert_eq!(log, "x");
}

#[test]
fn notify_other_kind_is_isolated() {
    let mut it_works = false;
    let mut ob = Observer::new();

    ob.subscribe(SetFlag);
    ob.notify(&mut it_works, Ev::Second(7));

    assert_eq!(it_works, false);
}
