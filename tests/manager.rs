use meltdown::{Meltdown, Next};

fn drain<T>(m: &mut Meltdown<T>) -> Vec<T> {
    let mut out = Vec::new();
    while let Next::Ready(v) = m.next() {
        out.push(v);
    }
    out
}

#[test]
fn can_register_and_run_services() {
    let mut meltdown = Meltdown::new();
    let a = meltdown.register();
    let b = meltdown.register();
    let c = meltdown.register();
    assert!(meltdown.complete(a, "service 1"));
    assert!(meltdown.complete(b, "service 2"));
    assert!(meltdown.complete(c, "service 3"));

    assert!(matches!(meltdown.next(), Next::Ready(_)));
    assert!(matches!(meltdown.next(), Next::Ready(_)));
    assert!(matches!(meltdown.next(), Next::Ready(_)));
    assert_eq!(meltdown.next(), Next::Exhausted);
}

#[test]
fn can_trigger_meltdown() {
    let mut meltdown = Meltdown::new();
    let w1 = meltdown.register();
    let i1 = meltdown.register();
    let i2 = meltdown.register();
    let w2 = meltdown.register();
    assert!(!meltdown.is_triggered());

    // The two services that do not wait for the token finish at once.
    assert!(meltdown.complete(i1, 1));
    assert!(meltdown.complete(i2, 1));
    assert_eq!(meltdown.next(), Next::Ready(1));
    assert_eq!(meltdown.next(), Next::Ready(1));
    assert_eq!(meltdown.next(), Next::Waiting);

    meltdown.trigger();
    assert!(meltdown.is_triggered());

    assert!(meltdown.complete(w1, 2));
    assert!(meltdown.complete(w2, 2));
    assert_eq!(meltdown.next(), Next::Ready(2));
    assert_eq!(meltdown.next(), Next::Ready(2));
    assert_eq!(meltdown.next(), Next::Exhausted);
}

#[test]
fn fresh_manager_is_exhausted() {
    let mut meltdown: Meltdown<u32> = Meltdown::new();
    assert!(meltdown.is_exhausted());
    assert_eq!(meltdown.registered(), 0);
    assert_eq!(meltdown.next(), Next::Exhausted);
    assert_eq!(meltdown.next(), Next::Exhausted);
}

#[test]
fn register_hands_out_fresh_ids() {
    let mut meltdown: Meltdown<u32> = Meltdown::new();
    assert_eq!(meltdown.register(), 0);
    assert_eq!(meltdown.register(), 1);
    assert_eq!(meltdown.register(), 2);
    assert_eq!(meltdown.registered(), 3);
    assert!(!meltdown.is_exhausted());
}

#[test]
fn every_registration_surfaces_once() {
    let mut meltdown = Meltdown::new();
    let ids: Vec<u64> = (0..5).map(|_| meltdown.register()).collect();
    // Completions arrive in an order unrelated to registration.
    for &id in ids.iter().rev() {
        assert!(meltdown.complete(id, id * 10));
    }
    let out = drain(&mut meltdown);
    assert_eq!(out, vec![40, 30, 20, 10, 0]);
    assert_eq!(out.len(), ids.len());
    assert!(meltdown.is_exhausted());
}

#[test]
fn completion_is_accepted_once() {
    let mut meltdown = Meltdown::new();
    let id = meltdown.register();
    assert!(meltdown.complete(id, 7));
    assert!(!meltdown.complete(id, 8));
    assert_eq!(meltdown.next(), Next::Ready(7));
    assert_eq!(meltdown.next(), Next::Exhausted);
}

#[test]
fn unknown_completion_is_refused() {
    let mut meltdown = Meltdown::new();
    let id = meltdown.register();
    assert!(!meltdown.complete(id + 1, 3));
    assert_eq!(meltdown.next(), Next::Waiting);
}

#[test]
fn trigger_twice_is_trigger_once() {
    let mut once: Meltdown<u32> = Meltdown::new();
    let mut twice: Meltdown<u32> = Meltdown::new();
    once.register();
    twice.register();
    once.trigger();
    twice.trigger();
    twice.trigger();
    assert_eq!(once.is_triggered(), twice.is_triggered());
    assert_eq!(once.next(), twice.next());
    assert_eq!(once.registered(), twice.registered());
}

#[test]
fn late_registration_sees_trigger() {
    let mut meltdown: Meltdown<u32> = Meltdown::new();
    meltdown.trigger();
    let id = meltdown.register();
    assert!(meltdown.is_triggered());
    assert!(meltdown.complete(id, 5));
    assert_eq!(meltdown.next(), Next::Ready(5));
}

#[test]
fn register_after_exhaustion_revives() {
    let mut meltdown = Meltdown::new();
    let a = meltdown.register();
    assert!(meltdown.complete(a, 1));
    assert_eq!(meltdown.next(), Next::Ready(1));
    assert_eq!(meltdown.next(), Next::Exhausted);
    let b = meltdown.register();
    assert_eq!(meltdown.next(), Next::Waiting);
    assert!(meltdown.complete(b, 2));
    assert_eq!(meltdown.next(), Next::Ready(2));
    assert_eq!(meltdown.next(), Next::Exhausted);
}

#[test]
fn immediate_then_token_waiter() {
    let mut meltdown = Meltdown::new();
    let x = meltdown.register();
    let y = meltdown.register();
    // X returns at once; Y waits for the token.
    assert!(meltdown.complete(x, 1));
    assert_eq!(meltdown.next(), Next::Ready(1));
    assert_eq!(meltdown.next(), Next::Waiting);
    meltdown.trigger();
    assert!(meltdown.complete(y, 2));
    assert_eq!(meltdown.next(), Next::Ready(2));
    assert_eq!(meltdown.next(), Next::Exhausted);
}
