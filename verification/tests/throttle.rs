use nasdedup_core::throttle::{CountingGovernor, IoGovernor, Unlimited};

#[test]
fn unlimited_khong_gioi_han() {
    let mut g = Unlimited;
    g.acquire(u64::MAX);
    assert!(!g.should_pause());
}

#[test]
fn counting_governor_dem_dung() {
    let mut g = CountingGovernor::new();
    g.acquire(100);
    g.acquire(50);
    assert_eq!(g.total(), 150);
    assert!(!g.should_pause());
    g.set_paused(true);
    assert!(g.should_pause());
}

#[test]
fn counting_governor_paused_tu_dau() {
    let g = CountingGovernor::paused();
    assert!(g.should_pause());
    assert_eq!(g.total(), 0);
}
