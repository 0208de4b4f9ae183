use rogue_core::character::{clamp, Damage, Dice, HitPoint, Maxed, Strength};
use rogue_core::rng::XorShiftRng;

#[test]
fn test_dice() {
    let dice = Dice::new(2, HitPoint(4));
    let mut rng = XorShiftRng::new(0x5eed_1001);
    for _ in 0..100 {
        let hp = dice.random(&mut rng);
        assert!(2 <= hp.0 && hp.0 <= 8);
    }
}

#[test]
fn dice_min_max() {
    let dice = Dice::new(3, HitPoint(6));
    assert_eq!(dice.min(), HitPoint(3));
    assert_eq!(dice.max(), HitPoint(18));
    let one = Dice::new(1, HitPoint(1));
    assert_eq!(one.min(), HitPoint(1));
    assert_eq!(one.max(), HitPoint(1));
    let mut rng = XorShiftRng::new(0x5eed_1002);
    assert_eq!(one.random(&mut rng), HitPoint(1));
}

#[test]
fn maxed_clamps_current() {
    let mut hp = Maxed::max(HitPoint(12));
    assert_eq!(hp.max, HitPoint(12));
    assert_eq!(hp.current, HitPoint(12));
    hp.current = HitPoint(20);
    hp.verify();
    assert_eq!(hp.current, HitPoint(12));
    hp.current = HitPoint(5);
    hp.verify();
    assert_eq!(hp.current, HitPoint(5));
}

#[test]
fn clamp_orders_by_key() {
    assert_eq!(clamp(Strength(5), Strength(0), Strength(10)), Strength(5));
    assert_eq!(clamp(Strength(-3), Strength(0), Strength(10)), Strength(0));
    assert_eq!(clamp(Strength(42), Strength(0), Strength(10)), Strength(10));
}
