use arb::relays::active_relays;
use arb::relays::status_from_relays;

#[test]
fn status_has_a_bit_per_relay() {
    assert_eq!(status_from_relays(&vec![1, 2, 3, 5, 6]), 0b0011_0111);
    assert_eq!(status_from_relays(&vec![8]), 0x80);
    assert_eq!(status_from_relays(&vec![1]), 0x01);
    assert_eq!(status_from_relays(&vec![1, 2, 3, 4, 5, 6, 7, 8]), 0xff);
}

#[test]
fn status_skips_zero_and_repeats() {
    assert_eq!(status_from_relays(&vec![]), 0);
    assert_eq!(status_from_relays(&vec![0]), 0);
    assert_eq!(status_from_relays(&vec![0, 4, 0, 4]), 0x08);
    assert_eq!(status_from_relays(&vec![6, 5, 3, 2, 1]), 0b0011_0111);
}

#[test]
fn active_relays_are_listed_in_order() {
    assert_eq!(active_relays(0b0011_0111), vec![1, 2, 3, 5, 6]);
    assert_eq!(active_relays(55), vec![1, 2, 3, 5, 6]);
    assert_eq!(active_relays(0), Vec::<u8>::new());
    assert_eq!(active_relays(0xff), vec![1, 2, 3, 4, 5, 6, 7, 8]);
    assert_eq!(active_relays(0x80), vec![8]);
}

#[test]
fn patterns_and_relay_lists_agree() {
    for status in 0..=255u8 {
        assert_eq!(status_from_relays(&active_relays(status)), status);
    }
}
