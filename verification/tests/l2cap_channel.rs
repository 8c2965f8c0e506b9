use quantaos::bluetooth::l2cap::{L2capChannel, L2capState};
use quantaos::bluetooth::BluetoothError;

#[test]
fn pending_tx_is_first_in_first_out() {
    let mut ch = L2capChannel::new(0x40, 1, 1, false);
    ch.set_state(L2capState::Open);
    assert_eq!(ch.send(vec![1]), Ok(()));
    assert_eq!(ch.send(vec![2, 2]), Ok(()));
    assert_eq!(ch.pending_tx(), Some(vec![1]));
    assert_eq!(ch.pending_tx(), Some(vec![2, 2]));
    assert_eq!(ch.pending_tx(), None);
}

#[test]
fn send_on_closed_channel_is_refused() {
    let mut ch = L2capChannel::new(0x40, 1, 1, false);
    assert_eq!(ch.send(vec![9]), Err(BluetoothError::NotConnected));
    assert_eq!(ch.pending_tx(), None);
}

#[test]
fn pending_rx_is_first_in_first_out() {
    let mut ch = L2capChannel::new(0x41, 1, 1, false);
    ch.receive(&[7]);
    ch.receive(&[8, 9]);
    assert_eq!(ch.pending_rx(), Some(vec![7]));
    assert_eq!(ch.pending_rx(), Some(vec![8, 9]));
    assert_eq!(ch.pending_rx(), None);
}
