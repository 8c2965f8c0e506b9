use quantaos::bluetooth::adapter::{adapter_count, get_adapter, get_default_adapter, register_adapter, BluetoothAdapter, BluetoothSubsystem};
use quantaos::bluetooth::hci::controller::HciController;
use quantaos::bluetooth::hci::{ConnectionState, HciEvent, HciPacketType, HciTransport, HciUart, LinkType};
use quantaos::bluetooth::{BdAddr, BluetoothError};

#[test]
fn every_event_goes_to_every_handler_in_order() {
    let mut c = HciController::new(HciTransport::Uart);
    assert_eq!(c.handle_event(&HciEvent { code: 0x0F, params: vec![0, 1, 0, 0] }), Vec::<u32>::new());
    c.register_event_handler(7);
    c.register_event_handler(3);
    let ev = HciEvent { code: 0x0F, params: vec![0, 1, 0, 0] };
    assert_eq!(c.handle_event(&ev), vec![7, 3]);
    assert_eq!(c.handle_event(&ev), vec![7, 3]);
}

#[test]
fn connection_complete_then_disconnect() {
    let mut c = HciController::new(HciTransport::Usb);
    c.register_event_handler(1);
    let complete = HciEvent { code: 0x03, params: vec![0, 0x2A, 0x00, 1, 2, 3, 4, 5, 6, 1, 1] };
    assert_eq!(c.handle_event(&complete), vec![1]);
    let conns = c.connections();
    assert_eq!(conns.len(), 1);
    assert_eq!(conns[0].handle, 0x2A);
    assert_eq!(conns[0].address, BdAddr([1, 2, 3, 4, 5, 6]));
    assert_eq!(conns[0].link_type, LinkType::Acl);
    assert!(conns[0].encrypted);
    assert_eq!(conns[0].state, ConnectionState::Connected);
    let disc = HciEvent { code: 0x05, params: vec![0, 0x2A, 0x00, 0x13] };
    assert_eq!(c.handle_event(&disc), vec![1]);
    assert!(c.connections().is_empty());
}

#[test]
fn failed_connection_adds_nothing() {
    let mut c = HciController::new(HciTransport::Usb);
    let complete = HciEvent { code: 0x03, params: vec![4, 0x2A, 0x00, 1, 2, 3, 4, 5, 6, 0, 0] };
    assert_eq!(c.handle_event(&complete), Vec::<u32>::new());
    assert!(c.connections().is_empty());
}

#[test]
fn registered_adapter_can_be_found() {
    let mut bt = BluetoothSubsystem::new();
    assert_eq!(adapter_count(&bt), 0);
    assert!(get_default_adapter(&bt).is_none());
    let a = register_adapter(&mut bt, BluetoothAdapter::new(0, HciController::new(HciTransport::Usb)));
    let b = register_adapter(&mut bt, BluetoothAdapter::new(0, HciController::new(HciTransport::Uart)));
    assert_ne!(a, b);
    assert_eq!(adapter_count(&bt), 2);
    assert!(get_adapter(&bt, a).is_some());
    assert!(get_adapter(&bt, b).is_some());
    assert!(get_adapter(&bt, b + 100).is_none());
}

#[test]
fn uart_transport_refuses_while_closed() {
    let mut u = HciUart::new(1, 115200);
    assert_eq!(u.send(HciPacketType::Command, &[1, 2]), Err(BluetoothError::NotConnected));
    assert_eq!(u.recv(), Err(BluetoothError::NotConnected));
    assert_eq!(u.open(), Ok(()));
    assert_eq!(u.send(HciPacketType::Command, &[1, 2]), Ok(()));
    assert_eq!(u.recv(), Err(BluetoothError::Timeout));
    u.close();
    assert_eq!(u.send(HciPacketType::AclData, &[]), Err(BluetoothError::NotConnected));
}
