use quantaos::bluetooth::l2cap::manager::L2capManager;
use quantaos::bluetooth::smp::manager::{SmpManager, SmpNote};
use quantaos::bluetooth::{BdAddr, BluetoothError};

#[test]
fn failed_pairing_is_noted_once() {
    let mut l2cap = L2capManager::new();
    let mut smp = SmpManager::new();
    let addr = BdAddr([1, 2, 3, 4, 5, 6]);
    // no SMP channel on the link: the request cannot go out, the session stays
    assert_eq!(smp.pair(&mut l2cap, 1, addr), Err(BluetoothError::NotConnected));
    assert!(smp.take_notes().is_empty());
    smp.handle_smp(&mut l2cap, 1, addr, &[0x05, 0x08]);
    assert_eq!(smp.take_notes(), vec![SmpNote::Bonded { address: addr, success: false }]);
    assert!(smp.take_notes().is_empty());
}

#[test]
fn failure_on_unknown_connection_is_not_noted() {
    let mut l2cap = L2capManager::new();
    let mut smp = SmpManager::new();
    smp.handle_smp(&mut l2cap, 9, BdAddr([0; 6]), &[0x05, 0x08]);
    assert!(smp.take_notes().is_empty());
}
