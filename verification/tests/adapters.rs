use sink_adapters::buffer::Buffer;
use sink_adapters::fanout::Fanout;
use sink_adapters::future::{ready, Future, Ready};
use sink_adapters::recorder::Recorder;
use sink_adapters::sink::{Sink, StartSend};
use sink_adapters::step::{FnStep, Step};
use sink_adapters::stream::{Iter, Stream};
use sink_adapters::with::With;
use sink_adapters::with_flat_map::WithFlatMap;
use sink_adapters::SinkExt;
use std::cell::RefCell;
use std::collections::VecDeque;
use std::rc::Rc;
use std::task::{Context, Poll, Waker};

/// What a `Gate` has seen, shared with the test that holds the other handle.
#[derive(Default)]
struct Seen {
    taken: Vec<u32>,
    room: usize,
    flush_waits: usize,
    close_waits: usize,
    fail_on: Option<usize>,
    flushes: usize,
    closes: usize,
    closed: bool,
}

/// A sink that takes an item only while it has room, and fails on demand.
#[derive(Clone)]
struct Gate(Rc<RefCell<Seen>>);

impl Gate {
    fn with_room(room: usize) -> Gate {
        Gate(Rc::new(RefCell::new(Seen { room, ..Seen::default() })))
    }

    fn failing_on(nth: usize) -> Gate {
        let seen = Seen { room: usize::MAX, fail_on: Some(nth), ..Seen::default() };
        Gate(Rc::new(RefCell::new(seen)))
    }

    fn let_in(&self, more: usize) {
        self.0.borrow_mut().room += more;
    }

    fn taken(&self) -> Vec<u32> {
        self.0.borrow().taken.clone()
    }
}

impl Sink for Gate {
    type Item = u32;
    type Error = String;

    fn start_send(&mut self, _cx: &mut Context<'_>, item: u32) -> Result<StartSend<u32>, String> {
        let mut seen = self.0.borrow_mut();
        if seen.fail_on == Some(seen.taken.len() + 1) {
            return Err(format!("item {} refused", item));
        }
        if seen.room == 0 {
            return Ok(StartSend::Rejected(item));
        }
        seen.room -= 1;
        seen.taken.push(item);
        Ok(StartSend::Accepted)
    }

    fn poll_flush(&mut self, _cx: &mut Context<'_>) -> Poll<Result<(), String>> {
        let mut seen = self.0.borrow_mut();
        if seen.flush_waits > 0 {
            seen.flush_waits -= 1;
            return Poll::Pending;
        }
        seen.flushes += 1;
        Poll::Ready(Ok(()))
    }

    fn poll_close(&mut self, _cx: &mut Context<'_>) -> Poll<Result<(), String>> {
        let mut seen = self.0.borrow_mut();
        if seen.close_waits > 0 {
            seen.close_waits -= 1;
            return Poll::Pending;
        }
        if !seen.closed {
            seen.closed = true;
            seen.closes += 1;
        }
        Poll::Ready(Ok(()))
    }
}

/// A future that waits a number of polls before it hands over its value.
struct Later<T> {
    waits: usize,
    value: Option<T>,
}

impl<T> Future for Later<T> {
    type Output = T;

    fn poll(&mut self, _cx: &mut Context<'_>) -> Poll<T> {
        if self.waits > 0 {
            self.waits -= 1;
            return Poll::Pending;
        }
        match self.value.take() {
            Some(v) => Poll::Ready(v),
            None => Poll::Pending,
        }
    }
}

fn accepted<T, E>() -> Result<StartSend<T>, E> {
    Ok(StartSend::Accepted)
}

fn rejected<T, E>(item: T) -> Result<StartSend<T>, E> {
    Ok(StartSend::Rejected(item))
}

fn done<E>() -> Poll<Result<(), E>> {
    Poll::Ready(Ok(()))
}

#[test]
fn buffer_rejects_the_item_after_the_last_that_fits() {
    let waker = Waker::noop();
    let mut cx = Context::from_waker(&waker);
    let gate = Gate::with_room(0);
    let mut buf = Buffer::new(gate.clone(), 3);
    assert_eq!(buf.start_send(&mut cx, 1), accepted());
    assert_eq!(buf.start_send(&mut cx, 2), accepted());
    assert_eq!(buf.start_send(&mut cx, 3), accepted());
    assert_eq!(buf.len(), 3);
    assert_eq!(buf.start_send(&mut cx, 4), rejected(4));
    assert_eq!(buf.start_send(&mut cx, 4), rejected(4));
    assert_eq!(buf.len(), 3);
    assert_eq!(gate.taken(), Vec::<u32>::new());
}

#[test]
fn buffer_has_room_for_one_more_after_the_sink_took_one() {
    let waker = Waker::noop();
    let mut cx = Context::from_waker(&waker);
    let gate = Gate::with_room(0);
    let mut buf = Buffer::new(gate.clone(), 2);
    assert_eq!(buf.start_send(&mut cx, 1), accepted());
    assert_eq!(buf.start_send(&mut cx, 2), accepted());
    assert_eq!(buf.start_send(&mut cx, 3), rejected(3));
    gate.let_in(1);
    assert_eq!(buf.start_send(&mut cx, 3), accepted());
    assert_eq!(gate.taken(), vec![1]);
    assert_eq!(buf.len(), 2);
    assert_eq!(buf.start_send(&mut cx, 4), rejected(4));
    assert_eq!(gate.taken(), vec![1]);
}

#[test]
fn buffer_flush_forwards_in_order_and_waits_for_the_sink() {
    let waker = Waker::noop();
    let mut cx = Context::from_waker(&waker);
    let gate = Gate::with_room(1);
    let mut buf = gate.clone().buffer(4);
    assert_eq!(buf.capacity(), 4);
    for i in 1..=4 {
        assert_eq!(buf.start_send(&mut cx, i), accepted());
    }
    assert_eq!(gate.taken(), vec![1]);
    assert_eq!(buf.poll_flush(&mut cx), Poll::Pending);
    assert_eq!(buf.len(), 3);
    gate.let_in(2);
    assert_eq!(buf.poll_flush(&mut cx), Poll::Pending);
    assert_eq!(gate.taken(), vec![1, 2, 3]);
    gate.let_in(5);
    gate.0.borrow_mut().flush_waits = 1;
    assert_eq!(buf.poll_flush(&mut cx), Poll::Pending);
    assert_eq!(gate.taken(), vec![1, 2, 3, 4]);
    assert_eq!(buf.len(), 0);
    assert_eq!(buf.poll_flush(&mut cx), done());
    assert_eq!(gate.0.borrow().flushes, 1);
}

#[test]
fn buffer_close_drains_before_it_closes() {
    let waker = Waker::noop();
    let mut cx = Context::from_waker(&waker);
    let gate = Gate::with_room(0);
    let mut buf = Buffer::new(gate.clone(), 2);
    assert_eq!(buf.start_send(&mut cx, 8), accepted());
    assert_eq!(buf.poll_close(&mut cx), Poll::Pending);
    assert!(!gate.0.borrow().closed);
    gate.let_in(1);
    assert_eq!(buf.poll_close(&mut cx), done());
    assert!(gate.0.borrow().closed);
    assert_eq!(gate.taken(), vec![8]);
}

#[test]
fn buffer_stays_failed_after_the_error_of_the_sink() {
    let waker = Waker::noop();
    let mut cx = Context::from_waker(&waker);
    let gate = Gate::failing_on(3);
    let mut buf = Buffer::new(gate.clone(), 4);
    for i in 1..=3 {
        assert_eq!(buf.start_send(&mut cx, i), accepted());
    }
    assert_eq!(gate.taken(), vec![1, 2]);
    assert_eq!(buf.start_send(&mut cx, 4), Err("item 3 refused".to_string()));
    assert_eq!(buf.start_send(&mut cx, 4), rejected(4));
    assert_eq!(buf.poll_flush(&mut cx), Poll::Pending);
    assert_eq!(buf.poll_close(&mut cx), Poll::Pending);
    assert_eq!(gate.taken(), vec![1, 2]);
    assert_eq!(gate.0.borrow().flushes, 0);
    assert!(!gate.0.borrow().closed);
}

#[test]
fn buffer_of_capacity_zero_hands_through() {
    let waker = Waker::noop();
    let mut cx = Context::from_waker(&waker);
    let gate = Gate::with_room(1);
    let mut buf = Buffer::new(gate.clone(), 0);
    assert_eq!(buf.start_send(&mut cx, 5), accepted());
    assert_eq!(gate.taken(), vec![5]);
    assert_eq!(buf.start_send(&mut cx, 6), rejected(6));
    assert_eq!(buf.len(), 0);
    gate.let_in(1);
    assert_eq!(buf.start_send(&mut cx, 6), accepted());
    assert_eq!(buf.poll_flush(&mut cx), done());
    assert_eq!(gate.taken(), vec![5, 6]);
    assert_eq!(buf.get_ref().taken(), vec![5, 6]);
    assert_eq!(buf.into_inner().taken(), vec![5, 6]);
}

#[test]
fn fanout_gives_each_sink_one_copy() {
    let waker = Waker::noop();
    let mut cx = Context::from_waker(&waker);
    let mut fan = Fanout::new(Recorder::new(), Recorder::new());
    assert_eq!(fan.start_send(&mut cx, 7u32), accepted());
    assert_eq!(fan.start_send(&mut cx, 9u32), accepted());
    assert_eq!(fan.poll_flush(&mut cx), done());
    let (left, right) = fan.into_inner();
    assert_eq!(left.into_items(), vec![7, 9]);
    assert_eq!(right.into_items(), vec![7, 9]);
}

#[test]
fn fanout_accepts_only_when_the_slow_sink_has_its_copy() {
    let waker = Waker::noop();
    let mut cx = Context::from_waker(&waker);
    let quick = Gate::with_room(10);
    let slow = Gate::with_room(0);
    let mut fan = quick.clone().fanout(slow.clone());
    assert_eq!(fan.start_send(&mut cx, 4), rejected(4));
    assert_eq!(quick.taken(), vec![4]);
    assert_eq!(slow.taken(), Vec::<u32>::new());
    assert_eq!(fan.start_send(&mut cx, 4), rejected(4));
    assert_eq!(quick.taken(), vec![4]);
    slow.let_in(1);
    assert_eq!(fan.start_send(&mut cx, 4), accepted());
    assert_eq!(quick.taken(), vec![4]);
    assert_eq!(slow.taken(), vec![4]);
    slow.let_in(1);
    assert_eq!(fan.start_send(&mut cx, 5), accepted());
    assert_eq!(quick.taken(), vec![4, 5]);
    assert_eq!(slow.taken(), vec![4, 5]);
}

#[test]
fn fanout_polls_both_sinks_on_every_flush_and_close() {
    let waker = Waker::noop();
    let mut cx = Context::from_waker(&waker);
    let a = Gate::with_room(10);
    let b = Gate::with_room(10);
    a.0.borrow_mut().flush_waits = 1;
    b.0.borrow_mut().flush_waits = 1;
    let mut fan = Fanout::new(a.clone(), b.clone());
    assert_eq!(fan.start_send(&mut cx, 1), accepted());
    assert_eq!(fan.poll_flush(&mut cx), Poll::Pending);
    assert_eq!(a.0.borrow().flush_waits, 0);
    assert_eq!(b.0.borrow().flush_waits, 0);
    assert_eq!(fan.poll_flush(&mut cx), done());
    b.0.borrow_mut().close_waits = 1;
    assert_eq!(fan.poll_close(&mut cx), Poll::Pending);
    assert!(a.0.borrow().closed);
    assert!(!b.0.borrow().closed);
    assert_eq!(fan.start_send(&mut cx, 2), rejected(2));
    assert_eq!(fan.poll_close(&mut cx), done());
    assert!(b.0.borrow().closed);
    assert_eq!(a.0.borrow().closes, 1);
    assert_eq!(b.0.borrow().closes, 1);
    let (x, y) = fan.get_ref();
    assert_eq!(x.taken(), vec![1]);
    assert_eq!(y.taken(), vec![1]);
}

#[test]
fn fanout_reports_the_error_of_either_sink() {
    let waker = Waker::noop();
    let mut cx = Context::from_waker(&waker);
    let good = Gate::with_room(10);
    let bad = Gate::failing_on(2);
    let mut fan = Fanout::new(good.clone(), bad.clone());
    assert_eq!(fan.start_send(&mut cx, 1), accepted());
    assert_eq!(fan.start_send(&mut cx, 2), Err("item 2 refused".to_string()));
    assert_eq!(good.taken(), vec![1, 2]);
    assert_eq!(bad.taken(), vec![1]);
    assert_eq!(fan.start_send(&mut cx, 2), rejected(2));
    assert_eq!(fan.poll_flush(&mut cx), Poll::Pending);
    assert_eq!(fan.poll_close(&mut cx), Poll::Pending);
    assert_eq!(good.taken(), vec![1, 2]);
    assert_eq!(good.0.borrow().flushes, 0);
    assert!(!good.0.borrow().closed);
}

#[test]
fn with_converts_each_item_before_it_reaches_the_sink() {
    let waker = Waker::noop();
    let mut cx = Context::from_waker(&waker);
    let step = FnStep::new(|x: u8| -> Ready<Result<u32, String>> { ready(Ok(u32::from(x) * 10)) });
    let mut sink = With::new(Gate::with_room(10), step);
    assert_eq!(sink.start_send(&mut cx, 1u8), accepted());
    assert_eq!(sink.start_send(&mut cx, 2u8), accepted());
    assert_eq!(sink.get_ref().taken(), vec![10]);
    assert_eq!(sink.poll_flush(&mut cx), done());
    assert_eq!(sink.get_ref().taken(), vec![10, 20]);
    assert_eq!(sink.get_ref().0.borrow().flushes, 1);
}

#[test]
fn with_takes_no_item_while_a_conversion_is_under_way() {
    let waker = Waker::noop();
    let mut cx = Context::from_waker(&waker);
    let step = FnStep::new(|x: u32| -> Later<Result<u32, String>> {
        Later { waits: 2, value: Some(Ok(x + 1)) }
    });
    let gate = Gate::with_room(10);
    let mut sink = gate.clone().with(step);
    assert_eq!(sink.start_send(&mut cx, 1), accepted());
    assert_eq!(sink.start_send(&mut cx, 2), rejected(2));
    assert_eq!(sink.start_send(&mut cx, 2), rejected(2));
    assert_eq!(gate.taken(), Vec::<u32>::new());
    assert_eq!(sink.start_send(&mut cx, 2), accepted());
    assert_eq!(gate.taken(), vec![2]);
    assert_eq!(sink.poll_close(&mut cx), Poll::Pending);
    assert_eq!(sink.poll_close(&mut cx), Poll::Pending);
    assert_eq!(sink.poll_close(&mut cx), done());
    assert_eq!(gate.taken(), vec![2, 3]);
    assert!(gate.0.borrow().closed);
}

#[test]
fn with_keeps_the_result_and_calls_the_step_once_when_the_sink_pushes_back() {
    let waker = Waker::noop();
    let mut cx = Context::from_waker(&waker);
    let calls = Rc::new(RefCell::new(0usize));
    let count = calls.clone();
    let step = FnStep::new(move |x: u32| -> Ready<Result<u32, String>> {
        *count.borrow_mut() += 1;
        ready(Ok(x * 2))
    });
    let gate = Gate::with_room(0);
    let mut sink = With::new(gate.clone(), step);
    assert_eq!(sink.start_send(&mut cx, 21), accepted());
    assert_eq!(sink.poll_flush(&mut cx), Poll::Pending);
    assert_eq!(sink.poll_flush(&mut cx), Poll::Pending);
    assert_eq!(sink.start_send(&mut cx, 22), rejected(22));
    assert_eq!(*calls.borrow(), 1);
    gate.let_in(1);
    assert_eq!(sink.poll_flush(&mut cx), done());
    assert_eq!(gate.taken(), vec![42]);
    assert_eq!(*calls.borrow(), 1);
}

#[test]
fn with_reports_the_error_of_the_step_and_of_the_sink() {
    let waker = Waker::noop();
    let mut cx = Context::from_waker(&waker);
    let step = FnStep::new(|x: u32| -> Ready<Result<u32, String>> {
        if x == 0 {
            ready(Err("zero".to_string()))
        } else {
            ready(Ok(x))
        }
    });
    let mut sink = With::new(Gate::failing_on(2), step);
    assert_eq!(sink.start_send(&mut cx, 5), accepted());
    assert_eq!(sink.start_send(&mut cx, 6), accepted());
    assert_eq!(sink.poll_flush(&mut cx), Poll::Ready(Err("item 6 refused".to_string())));
    assert_eq!(sink.start_send(&mut cx, 7), rejected(7));
    assert_eq!(sink.poll_flush(&mut cx), Poll::Pending);
    assert_eq!(sink.get_ref().taken(), vec![5]);
    let step = FnStep::new(|x: u32| -> Ready<Result<u32, String>> {
        if x == 0 {
            ready(Err("zero".to_string()))
        } else {
            ready(Ok(x))
        }
    });
    let mut sink = With::new(Gate::with_room(10), step);
    assert_eq!(sink.start_send(&mut cx, 0), accepted());
    assert_eq!(sink.start_send(&mut cx, 1), Err("zero".to_string()));
    assert_eq!(sink.start_send(&mut cx, 1), rejected(1));
    assert_eq!(sink.poll_close(&mut cx), Poll::Pending);
    assert_eq!(sink.get_ref().taken(), Vec::<u32>::new());
}

fn thrice(x: u32) -> Iter<Result<u32, String>> {
    Iter::new(VecDeque::from(vec![Ok(x), Ok(x + 1), Ok(x + 2)]))
}

#[test]
fn with_flat_map_sends_the_whole_expansion_in_order() {
    let waker = Waker::noop();
    let mut cx = Context::from_waker(&waker);
    let gate = Gate::with_room(10);
    let mut sink = WithFlatMap::new(gate.clone(), FnStep::new(thrice));
    assert_eq!(sink.start_send(&mut cx, 10), accepted());
    assert_eq!(gate.taken(), vec![10, 11, 12]);
    assert_eq!(sink.start_send(&mut cx, 20), accepted());
    assert_eq!(sink.poll_flush(&mut cx), done());
    assert_eq!(gate.taken(), vec![10, 11, 12, 20, 21, 22]);
}

#[test]
fn with_flat_map_takes_no_item_until_the_last_of_the_expansion_is_in() {
    let waker = Waker::noop();
    let mut cx = Context::from_waker(&waker);
    let gate = Gate::with_room(1);
    let mut sink = gate.clone().with_flat_map(FnStep::new(thrice));
    assert_eq!(sink.start_send(&mut cx, 1), accepted());
    assert_eq!(gate.taken(), vec![1]);
    assert_eq!(sink.start_send(&mut cx, 7), rejected(7));
    gate.let_in(1);
    assert_eq!(sink.start_send(&mut cx, 7), rejected(7));
    assert_eq!(gate.taken(), vec![1, 2]);
    assert_eq!(sink.poll_flush(&mut cx), Poll::Pending);
    gate.let_in(1);
    assert_eq!(sink.start_send(&mut cx, 7), accepted());
    assert_eq!(gate.taken(), vec![1, 2, 3]);
    gate.let_in(3);
    assert_eq!(sink.poll_close(&mut cx), done());
    assert_eq!(gate.taken(), vec![1, 2, 3, 7, 8, 9]);
    assert!(gate.0.borrow().closed);
}

#[test]
fn with_flat_map_of_an_empty_expansion_sends_nothing() {
    let waker = Waker::noop();
    let mut cx = Context::from_waker(&waker);
    let gate = Gate::with_room(10);
    let step = FnStep::new(|n: usize| -> Iter<Result<u32, String>> {
        Iter::new(VecDeque::from(vec![Ok(42); n]))
    });
    let mut sink = WithFlatMap::new(gate.clone(), step);
    assert_eq!(sink.start_send(&mut cx, 0), accepted());
    assert_eq!(gate.taken(), Vec::<u32>::new());
    assert_eq!(sink.start_send(&mut cx, 5), accepted());
    assert_eq!(sink.poll_flush(&mut cx), done());
    assert_eq!(gate.taken(), vec![42, 42, 42, 42, 42]);
}

#[test]
fn with_flat_map_stops_at_an_error_in_the_expansion() {
    let waker = Waker::noop();
    let mut cx = Context::from_waker(&waker);
    let gate = Gate::with_room(10);
    let step = FnStep::new(|x: u32| -> Iter<Result<u32, String>> {
        Iter::new(VecDeque::from(vec![Ok(x), Err("broken".to_string()), Ok(x + 1)]))
    });
    let mut sink = WithFlatMap::new(gate.clone(), step);
    assert_eq!(sink.start_send(&mut cx, 3), Err("broken".to_string()));
    assert_eq!(gate.taken(), vec![3]);
    assert_eq!(sink.start_send(&mut cx, 4), rejected(4));
    assert_eq!(sink.poll_flush(&mut cx), Poll::Pending);
    assert_eq!(gate.taken(), vec![3]);
}

#[test]
fn a_stack_of_adapters_keeps_the_order() {
    let waker = Waker::noop();
    let mut cx = Context::from_waker(&waker);
    let gate = Gate::with_room(0);
    let double = FnStep::new(|x: u32| -> Later<Result<u32, String>> {
        Later { waits: 1, value: Some(Ok(x * 2)) }
    });
    let pair = FnStep::new(|x: u32| -> Iter<Result<u32, String>> {
        Iter::new(VecDeque::from(vec![Ok(x), Ok(x + 1)]))
    });
    let mut stack = gate.clone().buffer(2).with(double).with_flat_map(pair);
    let input: Vec<u32> = vec![1, 3, 5, 7, 9];
    let mut next = 0;
    let mut rounds = 0;
    while next < input.len() {
        rounds += 1;
        assert!(rounds < 1000);
        match stack.start_send(&mut cx, input[next]) {
            Ok(StartSend::Accepted) => next += 1,
            Ok(StartSend::Rejected(back)) => {
                assert_eq!(back, input[next]);
                gate.let_in(1);
            }
            Err(e) => panic!("{}", e),
        }
    }
    while stack.poll_close(&mut cx) == Poll::Pending {
        rounds += 1;
        assert!(rounds < 1000);
        gate.let_in(1);
    }
    assert_eq!(gate.taken(), vec![2, 4, 6, 8, 10, 12, 14, 16, 18, 20]);
    assert!(gate.0.borrow().closed);
}

#[test]
fn the_error_of_the_third_item_comes_up_through_the_stack() {
    let waker = Waker::noop();
    let mut cx = Context::from_waker(&waker);
    let gate = Gate::failing_on(3);
    let same = FnStep::new(|x: u32| -> Ready<Result<u32, String>> { ready(Ok(x)) });
    let mut stack = Buffer::new(With::new(gate.clone(), same), 0);
    assert_eq!(stack.start_send(&mut cx, 1), accepted());
    assert_eq!(stack.start_send(&mut cx, 2), accepted());
    assert_eq!(stack.start_send(&mut cx, 3), accepted());
    assert_eq!(stack.start_send(&mut cx, 4), Err("item 3 refused".to_string()));
    assert_eq!(stack.start_send(&mut cx, 4), rejected(4));
    assert_eq!(stack.start_send(&mut cx, 5), rejected(5));
    assert_eq!(stack.poll_flush(&mut cx), Poll::Pending);
    assert_eq!(stack.poll_close(&mut cx), Poll::Pending);
    assert_eq!(gate.taken(), vec![1, 2]);
    assert!(!gate.0.borrow().closed);
    assert_eq!(gate.0.borrow().flushes, 0);
}

#[test]
fn flushing_or_closing_twice_does_nothing_the_second_time() {
    let waker = Waker::noop();
    let mut cx = Context::from_waker(&waker);
    let mut rec: Buffer<Recorder<u32>> = Recorder::new().buffer(2);
    assert_eq!(rec.start_send(&mut cx, 1), accepted());
    assert_eq!(rec.poll_flush(&mut cx), done());
    assert_eq!(rec.poll_flush(&mut cx), done());
    assert_eq!(rec.get_ref().items(), &vec![1]);
    assert!(!rec.get_ref().is_closed());
    assert_eq!(rec.poll_close(&mut cx), done());
    assert_eq!(rec.poll_close(&mut cx), done());
    assert_eq!(rec.get_ref().items(), &vec![1]);
    assert!(rec.get_ref().is_closed());
    let gate = Gate::with_room(10);
    let mut fan = Fanout::new(gate.clone(), Recorder::new().sink_map_err(FnStep::new(
        |_: std::convert::Infallible| -> String { String::new() },
    )));
    assert_eq!(fan.start_send(&mut cx, 3), accepted());
    assert_eq!(fan.poll_close(&mut cx), done());
    assert_eq!(fan.poll_close(&mut cx), done());
    assert_eq!(gate.0.borrow().closes, 1);
    assert_eq!(gate.taken(), vec![3]);
}

#[test]
fn iter_hands_out_front_to_back_and_then_ends() {
    let waker = Waker::noop();
    let mut cx = Context::from_waker(&waker);
    let mut st = Iter::new(VecDeque::from(vec!['a', 'b']));
    assert_eq!(st.poll_next(&mut cx), Poll::Ready(Some('a')));
    assert_eq!(st.poll_next(&mut cx), Poll::Ready(Some('b')));
    assert_eq!(st.poll_next(&mut cx), Poll::Ready(None));
}

#[test]
fn ready_hands_over_its_value_at_the_first_poll() {
    let waker = Waker::noop();
    let mut cx = Context::from_waker(&waker);
    let mut f = ready(17u8);
    assert_eq!(f.poll(&mut cx), Poll::Ready(17));
}

#[test]
fn fn_step_calls_the_function() {
    let mut step = FnStep::new(|x: u8| x + 1);
    assert_eq!(step.call(1), 2);
    assert_eq!(step.call(7), 8);
}
