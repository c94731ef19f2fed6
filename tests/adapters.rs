use meltdown::catch_panic::{settle, CatchPanic, CatchPanicFuture};
use meltdown::tagged::{Tagged, TaggedFuture};
use meltdown::utils::{CatchPanicService, TaggedFuture as LabelledFuture, TaggedService};
use meltdown::{Meltdown, Next, Step, Trigger};

fn response_service(_token: ()) -> &'static str {
    "response"
}

fn panic_service(_token: ()) {}

#[test]
fn response_contains_the_tag() {
    let service = Tagged::new("my-tag", response_service);
    let (tag, inner) = service.into_parts();
    let mut future = TaggedFuture::new(tag, inner(()));
    let output = *future.future_mut();
    assert_eq!(future.resolve(Step::Ready(output)), Step::Ready(("my-tag", "response")));
}

#[test]
fn can_catch_panics() {
    let service = CatchPanic::new(panic_service);
    let inner = service.into_inner();
    let _future = CatchPanicFuture::new(inner);
    // Advancing the operation faulted with this payload.
    let outcome: Result<Step<()>, &str> = Err("broken!");
    let step = settle(outcome);
    assert!(matches!(step, Step::Ready(Err(_))));
}

#[test]
fn tagged_pending_keeps_tag() {
    let mut future = TaggedFuture::new("t", 0u8);
    assert_eq!(future.resolve::<u32>(Step::Pending), Step::Pending);
    assert!(!future.is_resolved());
    assert_eq!(future.resolve(Step::Ready(9u32)), Step::Ready(("t", 9u32)));
    assert!(future.is_resolved());
}

#[test]
fn tagged_results_form_the_expected_set() {
    let mut meltdown = Meltdown::new();
    let foo = meltdown.register();
    let bar = meltdown.register();
    let mut fx = TaggedFuture::new("foo", ());
    let mut fy = TaggedFuture::new("bar", ());
    // Both finish at once; report them in either order.
    if let Step::Ready(r) = fy.resolve(Step::Ready("b")) {
        assert!(meltdown.complete(bar, r));
    }
    if let Step::Ready(r) = fx.resolve(Step::Ready("a")) {
        assert!(meltdown.complete(foo, r));
    }
    let mut got = Vec::new();
    while let Next::Ready(r) = meltdown.next() {
        got.push(r);
    }
    got.sort();
    assert_eq!(got, vec![("bar", "b"), ("foo", "a")]);
}

#[test]
fn fault_does_not_disrupt_the_pull_loop() {
    let mut meltdown = Meltdown::new();
    let faulty = meltdown.register();
    let plain = meltdown.register();
    let failed: Result<Step<u32>, &str> = Err("something broke!");
    if let Step::Ready(r) = settle(failed) {
        assert!(meltdown.complete(faulty, r));
    }
    if let Step::Ready(r) = settle::<u32, &str>(Ok(Step::Ready(3))) {
        assert!(meltdown.complete(plain, r));
    }
    assert_eq!(meltdown.next(), Next::Ready(Err("something broke!")));
    assert_eq!(meltdown.next(), Next::Ready(Ok(3)));
    assert_eq!(meltdown.next(), Next::Exhausted);
}

#[test]
fn settle_passes_normal_steps() {
    assert_eq!(settle::<u8, ()>(Ok(Step::Pending)), Step::Pending);
    assert_eq!(settle::<u8, ()>(Ok(Step::Ready(4))), Step::Ready(Ok(4)));
    assert_eq!(settle::<u8, u8>(Err(1)), Step::Ready(Err(1)));
}

#[test]
fn labelled_future_pairs_each_output() {
    let service = TaggedService::new("sleep-1", 5u8);
    let (tag, inner) = service.into_parts();
    assert_eq!(tag, "sleep-1");
    let mut future = LabelledFuture::new(tag, inner);
    assert_eq!(*future.future_mut(), 5u8);
    assert_eq!(future.resolve::<u8>(Step::Pending), Step::Pending);
    assert_eq!(future.resolve(Step::Ready(())), Step::Ready(("sleep-1", ())));
}

#[test]
fn catch_panic_service_keeps_inner() {
    let service = CatchPanicService::new(TaggedService::new("x", 1u8));
    let (tag, inner) = service.into_inner().into_parts();
    assert_eq!((tag, inner), ("x", 1u8));
}

#[test]
fn trigger_fires_once() {
    let mut slot = Trigger::new(42u8);
    assert!(!slot.is_triggered());
    assert_eq!(slot.fire(), Some(42));
    assert!(slot.is_triggered());
    assert_eq!(slot.fire(), None);
    assert!(slot.is_triggered());
}

#[test]
fn armed_trigger_sends_once() {
    let (mut slot, mut receiver) = Trigger::armed();
    assert!(!slot.is_triggered());
    assert_eq!(receiver.try_recv(), Ok(None));
    assert!(slot.trigger());
    assert!(slot.is_triggered());
    assert_eq!(receiver.try_recv(), Ok(Some(())));
    assert!(!slot.trigger());
    assert!(slot.is_triggered());
}

#[test]
fn trigger_without_receiver_still_fires() {
    let (mut slot, receiver) = Trigger::armed();
    drop(receiver);
    assert!(slot.trigger());
    assert!(!slot.trigger());
}
