use crossbeam_queue::ArrayQueue;
use futures_util::task::AtomicWaker;
use kernel::keyboard::{add_scancode, decode_scancode, key_bytes, new_key_decoder, KeyOutput, ScancodeStream};
use kernel::user::{echo_step, is_process_b, print_call_args, print_str, service_pid_digit, EchoAction, Message, SERVICE_NAME_SERIAL};

#[test]
fn scancodes_before_the_stream_exists_are_dropped() {
    let mut queue: Option<ArrayQueue<u8>> = None;
    let mut waker = AtomicWaker::new();
    assert!(!add_scancode(0x1e, &mut queue, &mut waker));
    assert!(queue.is_none());
}

#[test]
fn scancodes_come_out_in_order() {
    let mut queue: Option<ArrayQueue<u8>> = None;
    let mut waker = AtomicWaker::new();
    let stream = ScancodeStream::new(&mut queue);
    assert_eq!(queue.as_ref().unwrap().capacity(), 100);
    assert!(add_scancode(0x1e, &mut queue, &mut waker));
    assert!(add_scancode(0x9e, &mut queue, &mut waker));
    assert_eq!(stream.next_scancode(&mut queue), Some(0x1e));
    assert_eq!(stream.next_scancode(&mut queue), Some(0x9e));
    assert_eq!(stream.next_scancode(&mut queue), None);
}

#[test]
fn a_full_scancode_queue_drops_new_scancodes() {
    let mut queue: Option<ArrayQueue<u8>> = None;
    let mut waker = AtomicWaker::new();
    let stream = ScancodeStream::new(&mut queue);
    for i in 0..100u32 {
        assert!(add_scancode(i as u8, &mut queue, &mut waker));
    }
    assert!(!add_scancode(0xff, &mut queue, &mut waker));
    for i in 0..100u32 {
        assert_eq!(stream.next_scancode(&mut queue), Some(i as u8));
    }
    assert_eq!(stream.next_scancode(&mut queue), None);
}

#[test]
fn queuing_a_scancode_wakes_the_stream() {
    let mut queue: Option<ArrayQueue<u8>> = None;
    let mut waker = AtomicWaker::new();
    let _stream = ScancodeStream::new(&mut queue);
    waker.register(&futures_util::task::noop_waker());
    assert!(add_scancode(0x1e, &mut queue, &mut waker));
    assert!(waker.take().is_none());
}

#[test]
fn a_dropped_scancode_leaves_the_waker_registered() {
    let mut queue: Option<ArrayQueue<u8>> = None;
    let mut waker = AtomicWaker::new();
    waker.register(&futures_util::task::noop_waker());
    assert!(!add_scancode(0x1e, &mut queue, &mut waker));
    assert!(waker.take().is_some());
}

#[test]
fn processes_tell_themselves_apart_by_stack() {
    assert!(!is_process_b(0x3000_8000));
    assert!(is_process_b(0x4000_8000));
    assert!(!is_process_b(0x3500_0000));
}

#[test]
fn print_str_sends_each_byte() {
    assert_eq!(print_str("hi\n"), vec![b'h', b'i', b'\n']);
    assert_eq!(print_str(""), Vec::<u8>::new());
    assert_eq!(print_str("é"), vec![0xc3, 0xa9]);
}

#[test]
fn print_call_registers() {
    assert_eq!(print_call_args('a'), (1, 97));
}

#[test]
fn service_name_is_serial_in_ascii() {
    assert_eq!(&SERVICE_NAME_SERIAL.to_le_bytes(), b"SERIAL  ");
}

#[test]
fn service_pid_digits() {
    assert_eq!(service_pid_digit(1), Some(b'1'));
    assert_eq!(service_pid_digit(9), Some(b'9'));
    assert_eq!(service_pid_digit(u64::MAX), None);
    assert_eq!(service_pid_digit(0x1d0), Some(0));
    assert_eq!(service_pid_digit(250), Some(250u8.wrapping_add(b'0')));
}

#[test]
fn echo_server_steps() {
    let serial = Message { from: 0, to: 1, label: 3, payload: [b'k' as u64, 0] };
    let keyboard = Message { from: 0, to: 1, label: 2, payload: [0x1e, 0] };
    assert_eq!(echo_step(1, &serial), EchoAction::Echo(b'k'));
    assert_eq!(echo_step(1, &keyboard), EchoAction::Ignore);
    assert_eq!(echo_step(0, &serial), EchoAction::Yield);
}

fn typed(codes: &[u8]) -> Vec<u8> {
    let mut d = new_key_decoder();
    let mut out = Vec::new();
    for c in codes {
        if let Some(k) = decode_scancode(&mut d, *c) {
            out.extend(key_bytes(&k));
        }
    }
    out
}

#[test]
fn scancodes_decode_to_typed_text() {
    // a down, a up, shift down, a down, a up, shift up
    assert_eq!(typed(&[0x1e, 0x9e]), b"a".to_vec());
    assert_eq!(typed(&[0x2a, 0x1e, 0x9e, 0xaa]), b"LShiftA".to_vec());
}

#[test]
fn key_releases_type_nothing() {
    let mut d = new_key_decoder();
    assert!(decode_scancode(&mut d, 0x9e).is_none());
}

#[test]
fn key_bytes_are_utf8() {
    assert_eq!(key_bytes(&KeyOutput::Unicode('a')), vec![0x61]);
    assert_eq!(key_bytes(&KeyOutput::Unicode('é')), vec![0xc3, 0xa9]);
    assert_eq!(key_bytes(&KeyOutput::Unicode('€')), vec![0xe2, 0x82, 0xac]);
    assert_eq!(key_bytes(&KeyOutput::Unicode('😀')), vec![0xf0, 0x9f, 0x98, 0x80]);
    assert_eq!(key_bytes(&KeyOutput::Raw(String::from("F1"))), b"F1".to_vec());
}
