use tribalcraft::serial::{SerialU32, SerialU64};

#[test]
fn serial_counts_up_from_zero() {
    let mut g = SerialU64::new();
    assert_eq!(g.generate(), 0);
    assert_eq!(g.generate(), 1);
    assert_eq!(g.generate(), 2);
    assert!(!g.is_at_max());
}

#[test]
fn serial_u32_counts_up_from_zero() {
    let mut g = SerialU32::new();
    assert_eq!(g.generate(), 0);
    assert_eq!(g.generate(), 1);
}
