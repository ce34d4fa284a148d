use ray_tracing::distance::order_key;

fn key(x: f64) -> u64 {
    order_key(x.to_bits()).unwrap()
}

#[test]
fn nan_has_no_key() {
    assert_eq!(order_key(f64::NAN.to_bits()), None);
    assert_eq!(order_key((-f64::NAN).to_bits()), None);
}

#[test]
fn zeros_share_a_key() {
    assert_eq!(key(0.0), key(-0.0));
    assert_eq!(key(0.0), 0x8000_0000_0000_0000);
}

#[test]
fn keys_order_as_distances_do() {
    let xs = [
        f64::NEG_INFINITY,
        -1e300,
        -2.5,
        -1.0,
        -5e-324,
        0.0,
        5e-324,
        1e-10,
        1.0,
        2.5,
        1e300,
        f64::INFINITY,
    ];
    for a in xs {
        for b in xs {
            assert_eq!(key(a) <= key(b), a <= b, "{a} {b}");
        }
    }
}

#[test]
fn key_of_one_and_minus_one() {
    assert_eq!(key(1.0), 0xbff0_0000_0000_0000);
    assert_eq!(key(-1.0), 0x400f_ffff_ffff_ffff);
}
