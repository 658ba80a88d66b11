//! Relay patterns. Bit 0 to 7 of a pattern stand for relay 1 to 8; a set
//! bit is an active relay.

use vstd::prelude::*;

verus! {

/// Whether relay `relay`, from 1 to 8, is active in `status`.
pub open spec fn relay_active(status: u8, relay: u8) -> bool {
    1 <= relay <= 8 && status & (1u8 << ((relay - 1) as u8)) != 0
}

/// Setting one bit of a pattern sets that bit and leaves the others.
proof fn lemma_set_bit(status: u8, m: u8, k: u8)
    by (bit_vector)
    requires
        m < 8,
        k < 8,
    ensures
        ((status | (1u8 << m)) & (1u8 << k) != 0) == (status & (1u8 << k) != 0 || k == m),
        0u8 & (1u8 << k) == 0,
{
}

/// The pattern in which exactly the given relays are active. A `0` among
/// the relays stands for none and is skipped.
pub fn status_from_relays(relays: &Vec<u8>) -> (status: u8)
    requires
        forall|j: int| 0 <= j < relays.len() ==> relays[j] <= 8,
    ensures
        forall|relay: u8|
            relay_active(status, relay) <==> (1 <= relay <= 8 && relays@.contains(relay)),
{
    let mut status: u8 = 0;
    let mut i: usize = 0;
    proof {
        assert forall|relay: u8| !relay_active(0, relay) by {
            if 1 <= relay <= 8 {
                lemma_set_bit(0, 0, (relay - 1) as u8);
            }
        }
    }
    while i < relays.len()
        invariant
            i <= relays.len(),
            forall|j: int| 0 <= j < relays.len() ==> relays[j] <= 8,
            forall|relay: u8|
                relay_active(status, relay) <==> (1 <= relay <= 8 && relays@.take(
                    i as int,
                ).contains(relay)),
        decreases relays.len() - i,
    {
        let r: u8 = relays[i];
        let ghost before = status;
        if r != 0 {
            status = status | (1u8 << (r - 1));
        }
        proof {
            let seen = relays@.take(i as int);
            let now = relays@.take(i + 1);
            assert(now =~= seen.push(r));
            assert forall|relay: u8| relay_active(status, relay) <==> (1 <= relay <= 8
                && now.contains(relay)) by {
                if 1 <= relay <= 8 {
                    assert(relay_active(before, relay) <==> seen.contains(relay));
                    if r != 0 {
                        lemma_set_bit(before, (r - 1) as u8, (relay - 1) as u8);
                    }
                    if seen.contains(relay) {
                        let j = choose|j: int| 0 <= j < seen.len() && seen[j] == relay;
                        assert(now[j] == relay);
                    }
                    if relay == r {
                        assert(now[i as int] == relay);
                    }
                    if now.contains(relay) && relay != r {
                        let j = choose|j: int| 0 <= j < now.len() && now[j] == relay;
                        assert(seen[j] == relay);
                    }
                }
            }
        }
        i += 1;
    }
    proof {
        assert(relays@.take(i as int) =~= relays@);
    }
    status
}

/// The relays that are active in `status`, in increasing order.
pub fn active_relays(status: u8) -> (relays: Vec<u8>)
    ensures
        forall|relay: u8| relays@.contains(relay) <==> relay_active(status, relay),
        forall|i: int, j: int| 0 <= i < j < relays.len() ==> relays[i] < relays[j],
{
    let mut relays: Vec<u8> = Vec::new();
    let mut m: u8 = 0;
    while m < 8
        invariant
            m <= 8,
            forall|relay: u8|
                relays@.contains(relay) <==> (relay <= m && relay_active(status, relay)),
            forall|i: int, j: int| 0 <= i < j < relays.len() ==> relays[i] < relays[j],
            forall|i: int| 0 <= i < relays.len() ==> relays[i] <= m,
        decreases 8 - m,
    {
        let ghost before = relays@;
        if (1u8 << m) & status != 0 {
            relays.push(m + 1);
        }
        proof {
            assert((1u8 << m) & status == status & (1u8 << m)) by (bit_vector);
            assert forall|relay: u8| relays@.contains(relay) <==> (relay <= m + 1 && relay_active(
                status,
                relay,
            )) by {
                if before.contains(relay) {
                    let j = choose|j: int| 0 <= j < before.len() && before[j] == relay;
                    assert(relays[j] == relay);
                }
                if relays@.contains(relay) && !before.contains(relay) {
                    let j = choose|j: int| 0 <= j < relays.len() && relays[j] == relay;
                    assert(j == relays.len() - 1);
                }
                if relay == m + 1 && relay_active(status, relay) {
                    assert(relays[relays.len() - 1] == relay);
                }
            }
        }
        m += 1;
    }
    relays
}

} // verus!
