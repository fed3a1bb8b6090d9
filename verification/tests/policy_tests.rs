use hetero_storage::cycle::Blocking32;
use hetero_storage::cycle::Blocking8;
use hetero_storage::cycle::NonBlocking8;
use hetero_storage::Cycle;
use hetero_storage::NoCycle;

#[test]
fn no_cycle_never_advances() {
    let g = NoCycle::start();
    assert!(!g.is_over());
    assert_eq!(g.current(), 0);
    assert_eq!(g.max(), 0);
    let g2 = g.next();
    assert!(g2.equals(&g));
}

#[test]
fn blocking32_counts_up() {
    let g = Blocking32::start();
    assert_eq!(g.current(), 0);
    assert!(!g.is_over());
    let g2 = g.next().next().next();
    assert_eq!(g2.current(), 3);
    assert_eq!(g2.max(), u32::MAX as u128);
    assert!(!g2.equals(&g));
}

#[test]
fn blocking8_saturates_and_blocks() {
    let mut g = Blocking8::start();
    for _ in 0..255 {
        g = g.next();
    }
    assert_eq!(g.current(), u8::MAX as u128);
    assert!(g.is_over());
    let g2 = g.next();
    assert!(g2.equals(&g));
    assert!(g2.is_over());
}

#[test]
fn non_blocking8_wraps_without_blocking() {
    let mut g = NonBlocking8::start();
    for _ in 0..255 {
        g = g.next();
        assert!(!g.is_over());
    }
    assert_eq!(g.current(), u8::MAX as u128);
    let wrapped = g.next();
    assert_eq!(wrapped.current(), 0);
    assert!(!wrapped.is_over());
    assert!(wrapped.equals(&NonBlocking8::start()));
}
