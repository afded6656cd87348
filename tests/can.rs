use std::cell::RefCell;
use std::time::Duration;

use overboost::datalink::can::{Can, Message};

#[test]
fn message_default_is_empty() {
    let m = Message::default();
    assert_eq!(m.id, 0);
    assert_eq!(m.data, [0; 8]);
    assert_eq!(m.len, 0);
}

#[test]
fn message_text() {
    let m = Message { id: 0x7E0, data: [0x02, 0x10, 0x03, 0, 0, 0, 0xAB, 0xFF], len: 3 };
    assert_eq!(m.to_text(), "[7E0] 2 10 3 0 0 0 AB FF");
    assert_eq!(Message::default().to_text(), "[0] 0 0 0 0 0 0 0 0");
}

struct RecordingBus {
    sent: RefCell<Vec<(u32, Vec<u8>)>>,
}

impl Can for RecordingBus {
    fn write(&self, id: u32, message: &[u8]) -> std::io::Result<()> {
        self.sent.borrow_mut().push((id, message.to_vec()));
        Ok(())
    }

    fn read(&self, _timeout: Duration) -> std::io::Result<Message> {
        Err(std::io::Error::from(std::io::ErrorKind::TimedOut))
    }
}

#[test]
fn message_from_frame_and_payload() {
    let m = Message::from_frame(0x7E8, &[0x06, 0x50, 0x03]);
    assert_eq!(m.id, 0x7E8);
    assert_eq!(m.len, 3);
    assert_eq!(m.data, [0x06, 0x50, 0x03, 0, 0, 0, 0, 0]);
    assert_eq!(m.payload(), &[0x06, 0x50, 0x03]);
    let full = Message::from_frame(1, &[1, 2, 3, 4, 5, 6, 7, 8]);
    assert_eq!(full.payload(), &[1, 2, 3, 4, 5, 6, 7, 8]);
    assert_eq!(Message::from_frame(2, &[]).payload(), &[] as &[u8]);
}

#[test]
fn send_msg_sends_payload_in_use() {
    let bus = RecordingBus { sent: RefCell::new(Vec::new()) };
    let m = Message { id: 0x7E0, data: [0x02, 0x10, 0x03, 9, 9, 9, 9, 9], len: 3 };
    bus.send_msg(&m).unwrap();
    assert_eq!(bus.sent.borrow().clone(), vec![(0x7E0, vec![0x02, 0x10, 0x03])]);
}
