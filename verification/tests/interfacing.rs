use robot_core::commands::{Command, SetSpeedParams};
use robot_core::interfacing::{
    CommandId, Interfacing, UpdateErorr, REGISTRY_CAPACITY, START_BYTE,
};
use robot_core::message::Message;

fn frame_bytes(msg: &Message) -> Vec<u8> {
    let body = msg.serialize().unwrap();
    let mut frame = vec![START_BYTE, body.len() as u8];
    frame.extend_from_slice(&body);
    frame
}

fn consume_message(i: &mut Interfacing, msg: &Message) {
    for byte in frame_bytes(msg) {
        i.handle_received_byte(byte).unwrap();
    }
}

#[test]
fn execute_handle_test() {
    let mut i = Interfacing::new();
    let id = i.execute(Command::Stop, None).unwrap();
    assert!(!i.is_finished(id));

    i.start_executing(id);
    let cmd = i.get_command(id);
    assert_eq!(cmd, Command::Stop);

    i.finish_executing(id).unwrap();
    assert!(i.get_message_to_send().is_some());
}

#[test]
fn execute_send_test() {
    let mut i = Interfacing::new();
    i.execute(Command::Stop, None).unwrap();
    assert!(i.get_message_to_send().is_some());
    assert!(i.get_message_to_send().is_none());
}

#[test]
fn done_test() {
    let mut i = Interfacing::new();
    let id = i.execute(Command::Stop, None).unwrap();

    let msg = Message::Done(id.value());
    consume_message(&mut i, &msg);
    assert!(i.get_command_to_execute().is_none());

    assert!(i.is_finished(id));
}

#[test]
fn many_commands_test() {
    let mut i = Interfacing::new();
    for _ in 0..50 {
        let mut ids: Vec<CommandId> = Vec::new();

        for _ in 0..REGISTRY_CAPACITY {
            let id = i.execute(Command::Stop, None).unwrap();
            assert!(i.get_message_to_send().is_some());
            ids.push(id);
        }
        for id in &ids {
            let msg = Message::Done(id.value());
            consume_message(&mut i, &msg);
            assert!(i.get_command_to_execute().is_none());
        }
        for id in ids {
            assert!(i.is_finished(id));
            i.ack_finish(id);
        }
    }
}

#[test]
fn execute_frame_shape_test() {
    // one outbound frame per execute: start byte, then a length that
    // matches the remaining byte count
    let mut i = Interfacing::new();
    let id = i.execute(
        Command::SetSpeed(SetSpeedParams { left: -100, right: 42 }),
        None,
    )
    .unwrap();
    assert_eq!(id.value(), 0);

    let frame = i.get_message_to_send().unwrap();
    assert!(i.get_message_to_send().is_none());
    assert_eq!(frame[0], START_BYTE);
    assert_eq!(frame[1] as usize, frame.len() - 2);

    let expected = frame_bytes(&Message::Command(
        0,
        Command::SetSpeed(SetSpeedParams { left: -100, right: 42 }),
    ));
    assert_eq!(frame, expected);
}

#[test]
fn execute_ids_increase_test() {
    let mut i = Interfacing::new();
    let a = i.execute(Command::Stop, None).unwrap();
    i.get_message_to_send().unwrap();
    let b = i.execute(Command::OpenGripper, None).unwrap();
    i.get_message_to_send().unwrap();
    let c = i.execute(Command::Stop, None).unwrap();
    assert!(a.value() < b.value());
    assert!(b.value() < c.value());
}

#[test]
fn done_marks_only_matching_handle_test() {
    let mut i = Interfacing::new();
    let first = i.execute(Command::Stop, None).unwrap();
    let second = i.execute(Command::CloseGripper, None).unwrap();

    consume_message(&mut i, &Message::Done(second.value()));
    assert!(!i.is_finished(first));
    assert!(i.is_finished(second));
}

#[test]
fn bad_id_test() {
    let mut i = Interfacing::new();
    let mut err = None;
    for byte in frame_bytes(&Message::Done(7)) {
        if let Err(e) = i.handle_received_byte(byte) {
            err = Some(e);
        }
    }
    assert!(matches!(err, Some(UpdateErorr::BadId(7))));
}

#[test]
fn receiver_ignores_noise_test() {
    // bytes before the start byte are discarded; the frame after them
    // still goes through
    let mut i = Interfacing::new();
    let id = i.execute(Command::Stop, None).unwrap();

    for byte in [0x00u8, 0x13, 0xFF, 0x54] {
        i.handle_received_byte(byte).unwrap();
    }
    consume_message(&mut i, &Message::Done(id.value()));
    assert!(i.is_finished(id));
}

#[test]
fn receiver_bad_length_resets_test() {
    // a length outside the frame bound drops the frame; the receiver
    // resynchronizes on the next start byte
    let mut i = Interfacing::new();
    let id = i.execute(Command::Stop, None).unwrap();

    assert!(i.handle_received_byte(START_BYTE).is_ok());
    assert!(i.handle_received_byte(0xFB).is_err());

    consume_message(&mut i, &Message::Done(id.value()));
    assert!(i.is_finished(id));
}

#[test]
fn received_command_queues_execution_test() {
    let mut i = Interfacing::new();
    let cmd = Command::SetSpeed(SetSpeedParams { left: 3, right: -3 });
    consume_message(&mut i, &Message::Command(9, cmd));

    let id = i.get_command_to_execute().unwrap();
    assert_eq!(id.value(), 9);
    assert_eq!(i.get_command(id), cmd);
    assert!(i.get_command_to_execute().is_none());

    i.start_executing(id);
    let ack = i.get_message_to_send().unwrap();
    assert_eq!(ack, frame_bytes(&Message::Ack(9)));

    i.finish_executing(id).unwrap();
    let done = i.get_message_to_send().unwrap();
    assert_eq!(done, frame_bytes(&Message::Done(9)));
}

#[test]
fn received_commands_saturate_test() {
    // the registry and execution queue hold four commands; a fifth is
    // rejected and disturbs nothing
    let mut i = Interfacing::new();
    for id in 0..4u32 {
        consume_message(&mut i, &Message::Command(id, Command::Stop));
    }

    let mut err = None;
    for byte in frame_bytes(&Message::Command(9, Command::Stop)) {
        if let Err(e) = i.handle_received_byte(byte) {
            err = Some(e);
        }
    }
    assert!(matches!(err, Some(UpdateErorr::Saturated)));

    for id in 0..4u32 {
        let queued = i.get_command_to_execute().unwrap();
        assert_eq!(queued.value(), id);
    }
    assert!(i.get_command_to_execute().is_none());
}

#[test]
fn retry_timed_out_test() {
    // 51 ms after enqueueing, one retry goes out and the stamp is
    // refreshed; 10 ms later nothing more is due
    let mut i = Interfacing::new();
    let id = i.execute(Command::Stop, Some(0)).unwrap();
    assert!(i.get_message_to_send().is_some());

    i.retry_timed_out(51).unwrap();
    let retry = i.get_message_to_send().unwrap();
    assert_eq!(retry, frame_bytes(&Message::Command(id.value(), Command::Stop)));
    assert!(i.get_message_to_send().is_none());

    i.retry_timed_out(61).unwrap();
    assert!(i.get_message_to_send().is_none());
}

#[test]
fn retry_skips_started_test() {
    let mut i = Interfacing::new();
    let id = i.execute(Command::Stop, Some(0)).unwrap();
    i.get_message_to_send().unwrap();

    consume_message(&mut i, &Message::Ack(id.value()));
    i.retry_timed_out(100).unwrap();
    assert!(i.get_message_to_send().is_none());
}

#[test]
fn retry_wrapping_clock_test() {
    // the monotonic clock wraps; the elapsed time is taken modulo 2^32
    let mut i = Interfacing::new();
    let id = i.execute(Command::Stop, Some(u32::MAX - 10)).unwrap();
    i.get_message_to_send().unwrap();

    i.retry_timed_out(45).unwrap();
    let retry = i.get_message_to_send().unwrap();
    assert_eq!(retry, frame_bytes(&Message::Command(id.value(), Command::Stop)));

    i.retry_timed_out(50).unwrap();
    assert!(i.get_message_to_send().is_none());
}
