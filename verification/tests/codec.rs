use bytes::BytesMut;
use cannonball::codec::{DecodeError, QemuMsgCodec, MAX_FRAME_LEN, MIN_FRAME_LEN};
use cannonball::qemu_event::{
    EventFlags, EventKind, FromBytes, QemuEvent, QemuEventMsg, QemuInstr, QemuLoad, QemuMemAccess,
    QemuPc, QemuSyscall, ToBytes, ALL_BITS, BRANCHES, EXECUTED, FINISHED, INSTRS, KIND_BITS, LOAD,
    MAX_OPCODE_SIZE, NUM_SYSCALL_ARGS, PC, READS_WRITES, SYSCALLS,
};

fn encode(msg: QemuEventMsg) -> BytesMut {
    let mut buf = BytesMut::new();
    let mut codec = QemuMsgCodec {};
    assert_eq!(codec.encode(msg, &mut buf), Ok(()));
    buf
}

fn frame(event: QemuEvent) -> QemuEventMsg {
    QemuEventMsg::of_event(event, EventFlags::empty())
}

fn opcode(bytes: &[u8]) -> [u8; 16] {
    let mut op = [0u8; 16];
    op[..bytes.len()].copy_from_slice(bytes);
    op
}

fn one_of_each() -> Vec<QemuEventMsg> {
    vec![
        frame(QemuEvent::Pc(QemuPc::new(0x400080, true))),
        frame(QemuEvent::Instr(QemuInstr::new(opcode(&[0x48, 0x89, 0x18]), 3))),
        frame(QemuEvent::MemAccess(QemuMemAccess::new(0x400080, 0x7fff_0000_1234, true))),
        frame(QemuEvent::Syscall(QemuSyscall::new(
            1,
            2,
            [1, 0xdead_beef, 2, 3, 4, 5, 6, u64::MAX],
        ))),
        frame(QemuEvent::Load(QemuLoad::new(0x1000, 0x2fff, 0x1040, 5))),
    ]
}

#[test]
fn flag_bits_have_their_wire_values() {
    assert_eq!(PC, 1 << 0);
    assert_eq!(READS_WRITES, 1 << 1);
    assert_eq!(INSTRS, 1 << 3);
    assert_eq!(SYSCALLS, 1 << 4);
    assert_eq!(BRANCHES, 1 << 5);
    assert_eq!(EXECUTED, 1 << 6);
    assert_eq!(FINISHED, 1 << 7);
    assert_eq!(LOAD, 1 << 8);
    assert_eq!(KIND_BITS, PC | READS_WRITES | INSTRS | SYSCALLS | LOAD);
    assert_eq!(ALL_BITS, KIND_BITS | BRANCHES | EXECUTED | FINISHED);
    assert_eq!(MAX_OPCODE_SIZE, 16);
    assert_eq!(NUM_SYSCALL_ARGS, 8);
}

#[test]
fn flags_from_switches() {
    assert_eq!(EventFlags::from(false, false, false, false, false).bits(), 0);
    assert_eq!(EventFlags::from(true, false, false, false, false).bits(), PC);
    assert_eq!(EventFlags::from(false, true, false, false, false).bits(), INSTRS);
    assert_eq!(EventFlags::from(false, false, true, false, false).bits(), READS_WRITES);
    assert_eq!(EventFlags::from(false, false, false, true, false).bits(), SYSCALLS);
    assert_eq!(EventFlags::from(false, false, false, false, true).bits(), BRANCHES);
    assert_eq!(EventFlags::from(true, true, true, true, true).bits(), 0x3b);
}

#[test]
fn flags_truncate_drops_unknown_bits() {
    assert_eq!(EventFlags::from_bits_truncate(0xffff_ffff).bits(), ALL_BITS);
    assert_eq!(EventFlags::from_bits_truncate(0x4).bits(), 0);
    assert_eq!(EventFlags::from_bits_truncate(PC | 0x4 | 0x200).bits(), PC);
    assert_eq!(EventFlags::default().bits(), 0);
    assert_eq!(EventFlags::empty().bits(), 0);
}

#[test]
fn flags_contains_union_insert() {
    let pc = EventFlags::from_bits_truncate(PC);
    let fin = EventFlags::from_bits_truncate(FINISHED);
    let both = pc.union(fin);
    assert_eq!(both.bits(), PC | FINISHED);
    assert!(both.contains(pc));
    assert!(both.contains(fin));
    assert!(!pc.contains(fin));
    assert!(both.has(FINISHED));
    assert!(!pc.has(FINISHED));
    let mut f = EventFlags::empty();
    f.insert(pc);
    f.insert(fin);
    assert_eq!(f, both);
}

#[test]
fn pc_frame_layout() {
    let buf = encode(frame(QemuEvent::Pc(QemuPc::new(0x400080, false))));
    assert_eq!(&buf[..], &[0, 0, 0, 1, 0, 0, 0, 0, 0, 0x40, 0, 0x80, 0][..]);
    let buf = encode(frame(QemuEvent::Pc(QemuPc::new(0x0102_0304_0506_0708, true))));
    assert_eq!(&buf[..], &[0, 0, 0, 1, 1, 2, 3, 4, 5, 6, 7, 8, 1][..]);
}

#[test]
fn instr_frame_layout() {
    let buf = encode(frame(QemuEvent::Instr(QemuInstr::new(opcode(&[0x48, 0x89, 0x18]), 3))));
    let mut want = vec![0u8, 0, 0, 8, 0x48, 0x89, 0x18];
    want.extend_from_slice(&[0u8; 13]);
    want.extend_from_slice(&[0, 0, 0, 0, 0, 0, 0, 3]);
    assert_eq!(&buf[..], &want[..]);
    assert_eq!(buf.len(), 28);
}

#[test]
fn mem_access_frame_layout() {
    let buf = encode(frame(QemuEvent::MemAccess(QemuMemAccess::new(0x400080, 0x10, true))));
    let want = [
        0u8, 0, 0, 2, 0, 0, 0, 0, 0, 0x40, 0, 0x80, 0, 0, 0, 0, 0, 0, 0, 0x10, 1,
    ];
    assert_eq!(&buf[..], &want[..]);
}

#[test]
fn syscall_frame_layout() {
    let buf = encode(frame(QemuEvent::Syscall(QemuSyscall::new(1, -1, [1, 2, 3, 4, 5, 6, 7, 8]))));
    let mut want = vec![0u8, 0, 0, 0x10];
    want.extend_from_slice(&1i64.to_be_bytes());
    want.extend_from_slice(&[0xff; 8]);
    for a in 1u64..=8 {
        want.extend_from_slice(&a.to_be_bytes());
    }
    assert_eq!(&buf[..], &want[..]);
    assert_eq!(buf.len(), 84);
}

#[test]
fn load_frame_layout() {
    let buf = encode(frame(QemuEvent::Load(QemuLoad::new(0x1000, 0x2fff, 0x1040, 5))));
    let mut want = vec![0u8, 0, 1, 0];
    want.extend_from_slice(&0x1000u64.to_be_bytes());
    want.extend_from_slice(&0x2fffu64.to_be_bytes());
    want.extend_from_slice(&0x1040u64.to_be_bytes());
    want.push(5);
    assert_eq!(&buf[..], &want[..]);
    assert_eq!(buf.len(), 29);
}

#[test]
fn frame_lengths_depend_on_kind_only() {
    assert_eq!(EventKind::Pc.payload_len(), 9);
    assert_eq!(EventKind::Instr.payload_len(), 24);
    assert_eq!(EventKind::MemAccess.payload_len(), 17);
    assert_eq!(EventKind::Syscall.payload_len(), 80);
    assert_eq!(EventKind::Load.payload_len(), 25);
    assert_eq!(MIN_FRAME_LEN, 13);
    assert_eq!(MAX_FRAME_LEN, 84);
    for msg in one_of_each() {
        assert_eq!(encode(msg).len(), 4 + msg.event.kind().payload_len());
    }
    let a = encode(frame(QemuEvent::Pc(QemuPc::new(0, false))));
    let b = encode(frame(QemuEvent::Pc(QemuPc::new(u64::MAX, true))));
    assert_eq!(a.len(), b.len());
}

#[test]
fn codec_round_trip_every_kind() {
    let mut codec = QemuMsgCodec {};
    for msg in one_of_each() {
        assert!(msg.is_wf());
        let mut buf = encode(msg);
        assert_eq!(codec.decode(&mut buf), Ok(Some(msg)));
        assert_eq!(buf.len(), 0);
    }
}

#[test]
fn codec_round_trip_extreme_values() {
    let mut codec = QemuMsgCodec {};
    let msgs = vec![
        frame(QemuEvent::Pc(QemuPc::new(u64::MAX, true))),
        frame(QemuEvent::Pc(QemuPc::new(0, false))),
        frame(QemuEvent::Instr(QemuInstr::new([0xff; 16], 16))),
        frame(QemuEvent::Instr(QemuInstr::new([0; 16], 0))),
        frame(QemuEvent::MemAccess(QemuMemAccess::new(u64::MAX, u64::MAX, false))),
        frame(QemuEvent::Syscall(QemuSyscall::new(i64::MIN, i64::MAX, [u64::MAX; 8]))),
        frame(QemuEvent::Syscall(QemuSyscall::new(i64::MAX, i64::MIN, [0; 8]))),
        frame(QemuEvent::Load(QemuLoad::new(u64::MAX, 0, u64::MAX, 255))),
    ];
    for msg in msgs {
        let mut buf = encode(msg);
        assert_eq!(codec.decode(&mut buf), Ok(Some(msg)));
        assert!(buf.is_empty());
    }
}

#[test]
fn codec_round_trip_keeps_state_flags() {
    let mut codec = QemuMsgCodec {};
    let state = EventFlags::from_bits_truncate(FINISHED | EXECUTED | BRANCHES);
    let msg = QemuEventMsg::of_event(QemuEvent::Pc(QemuPc::new(7, false)), state);
    assert_eq!(msg.flags.bits(), FINISHED | EXECUTED | BRANCHES | PC);
    assert!(msg.is_wf());
    assert!(msg.is_finished());
    let mut buf = encode(msg);
    assert_eq!(codec.decode(&mut buf), Ok(Some(msg)));
}

#[test]
fn of_event_sets_exactly_one_kind_bit() {
    let state = EventFlags::from_bits_truncate(0xffff_ffff);
    for msg in one_of_each() {
        let m = QemuEventMsg::of_event(msg.event, state);
        assert_eq!(m.flags.bits() & KIND_BITS, m.event.kind().bit());
        assert_eq!(m.flags.bits() & !KIND_BITS, BRANCHES | EXECUTED | FINISHED);
        assert_eq!((m.flags.bits() & KIND_BITS).count_ones(), 1);
        assert!(m.is_wf());
    }
}

#[test]
fn frame_with_wrong_kind_bit_is_not_well_formed() {
    let msg = QemuEventMsg::new(
        EventFlags::from_bits_truncate(PC | INSTRS),
        QemuEvent::Instr(QemuInstr::new([0; 16], 1)),
    );
    assert!(!msg.is_wf());
    let msg = QemuEventMsg::new(EventFlags::empty(), QemuEvent::Pc(QemuPc::new(1, false)));
    assert!(!msg.is_wf());
    let msg =
        QemuEventMsg::new(EventFlags { bits: PC | 0x4 }, QemuEvent::Pc(QemuPc::new(1, false)));
    assert!(!msg.is_wf());
}

#[test]
fn decode_empty_buffer_is_incomplete() {
    let mut codec = QemuMsgCodec {};
    let mut buf = BytesMut::new();
    assert_eq!(codec.decode(&mut buf), Ok(None));
    assert_eq!(buf.len(), 0);
}

#[test]
fn decode_waits_for_the_shortest_frame() {
    let mut codec = QemuMsgCodec {};
    let whole = encode(frame(QemuEvent::Pc(QemuPc::new(0x400080, false))));
    for n in 0..whole.len() {
        let mut buf = BytesMut::from(&whole[..n]);
        assert_eq!(codec.decode(&mut buf), Ok(None));
        assert_eq!(&buf[..], &whole[..n]);
    }
}

#[test]
fn decode_waits_for_the_whole_frame() {
    let mut codec = QemuMsgCodec {};
    for msg in one_of_each() {
        let whole = encode(msg);
        for n in 0..whole.len() {
            let mut buf = BytesMut::from(&whole[..n]);
            assert_eq!(codec.decode(&mut buf), Ok(None));
            assert_eq!(&buf[..], &whole[..n]);
        }
        let mut buf = BytesMut::from(&whole[..]);
        assert_eq!(codec.decode(&mut buf), Ok(Some(msg)));
    }
}

#[test]
fn decode_rejects_flag_word_without_kind_bit() {
    let mut codec = QemuMsgCodec {};
    for flags in [0u32, FINISHED, BRANCHES | EXECUTED, 0x4, 0xffff_fe04] {
        let mut bytes = flags.to_be_bytes().to_vec();
        bytes.extend_from_slice(&[0u8; 20]);
        let mut buf = BytesMut::from(&bytes[..]);
        assert_eq!(codec.decode(&mut buf), Err(DecodeError::NoEventKind));
        assert_eq!(&buf[..], &bytes[..]);
    }
}

#[test]
fn decode_short_buffer_without_kind_bit_is_incomplete_not_an_error() {
    let mut codec = QemuMsgCodec {};
    let mut buf = BytesMut::from(&[0u8; 12][..]);
    assert_eq!(codec.decode(&mut buf), Ok(None));
    let mut buf = BytesMut::from(&[0u8; 13][..]);
    assert_eq!(codec.decode(&mut buf), Err(DecodeError::NoEventKind));
}

#[test]
fn decode_accepts_unknown_bits_and_drops_them() {
    let mut codec = QemuMsgCodec {};
    let mut bytes = (PC | 0x4 | 0x8000_0000).to_be_bytes().to_vec();
    bytes.extend_from_slice(&0x400080u64.to_be_bytes());
    bytes.push(1);
    let mut buf = BytesMut::from(&bytes[..]);
    let got = codec.decode(&mut buf).unwrap().unwrap();
    assert_eq!(got.flags.bits(), PC);
    assert_eq!(got.event, QemuEvent::Pc(QemuPc::new(0x400080, true)));
    assert!(buf.is_empty());
}

#[test]
fn decode_reads_any_nonzero_byte_as_true() {
    let mut codec = QemuMsgCodec {};
    let mut bytes = PC.to_be_bytes().to_vec();
    bytes.extend_from_slice(&5u64.to_be_bytes());
    bytes.push(0x80);
    let mut buf = BytesMut::from(&bytes[..]);
    let got = codec.decode(&mut buf).unwrap().unwrap();
    assert_eq!(got.event, QemuEvent::Pc(QemuPc::new(5, true)));
}

#[test]
fn decode_picks_the_first_kind_in_order() {
    let mut codec = QemuMsgCodec {};
    // PC and SYSCALLS both set: the frame is read as a program counter.
    let mut bytes = (PC | SYSCALLS).to_be_bytes().to_vec();
    bytes.extend_from_slice(&9u64.to_be_bytes());
    bytes.push(0);
    let mut buf = BytesMut::from(&bytes[..]);
    let got = codec.decode(&mut buf).unwrap().unwrap();
    assert_eq!(got.event.kind(), EventKind::Pc);
    let kind = |bits: u32| EventKind::of_flags(EventFlags { bits });
    assert_eq!(kind(INSTRS | READS_WRITES), Some(EventKind::Instr));
    assert_eq!(kind(READS_WRITES | LOAD), Some(EventKind::MemAccess));
    assert_eq!(kind(SYSCALLS | LOAD), Some(EventKind::Syscall));
    assert_eq!(kind(LOAD), Some(EventKind::Load));
    assert_eq!(kind(FINISHED), None);
}

#[test]
fn decode_takes_one_frame_and_leaves_the_rest() {
    let mut codec = QemuMsgCodec {};
    let msgs = one_of_each();
    let mut buf = BytesMut::new();
    for m in &msgs {
        assert!(codec.encode(*m, &mut buf).is_ok());
    }
    buf.extend_from_slice(&[0, 0, 0]);
    let mut left = buf.len();
    for m in &msgs {
        assert_eq!(codec.decode(&mut buf), Ok(Some(*m)));
        left -= 4 + m.event.kind().payload_len();
        assert_eq!(buf.len(), left);
    }
    assert_eq!(codec.decode(&mut buf), Ok(None));
    assert_eq!(&buf[..], &[0, 0, 0][..]);
}

#[test]
fn frames_are_self_sufficient() {
    let mut codec = QemuMsgCodec {};
    let mut msgs = Vec::new();
    for round in 0..20u64 {
        for m in one_of_each() {
            msgs.push(m);
        }
        msgs.push(frame(QemuEvent::Pc(QemuPc::new(round, round % 2 == 0))));
    }
    let mut buf = BytesMut::new();
    for m in &msgs {
        assert!(codec.encode(*m, &mut buf).is_ok());
    }
    let mut got = Vec::new();
    while let Ok(Some(m)) = codec.decode(&mut buf) {
        got.push(m);
    }
    assert_eq!(got, msgs);
    assert!(buf.is_empty());
}

#[test]
fn frames_survive_arbitrary_chunking() {
    let mut codec = QemuMsgCodec {};
    let msgs = one_of_each();
    let mut wire = BytesMut::new();
    for m in &msgs {
        assert!(codec.encode(*m, &mut wire).is_ok());
    }
    for chunk in [1usize, 2, 3, 7, 13, 29, 64] {
        let mut buf = BytesMut::new();
        let mut got = Vec::new();
        for piece in wire.chunks(chunk) {
            buf.extend_from_slice(piece);
            while let Ok(Some(m)) = codec.decode(&mut buf) {
                got.push(m);
            }
        }
        assert_eq!(got, msgs);
        assert!(buf.is_empty());
    }
}

#[test]
fn encode_appends_after_what_is_there() {
    let mut codec = QemuMsgCodec {};
    let mut buf = BytesMut::from(&[0xaa, 0xbb][..]);
    let msg = frame(QemuEvent::Pc(QemuPc::new(1, false)));
    assert_eq!(codec.encode(msg, &mut buf), Ok(()));
    assert_eq!(&buf[..2], &[0xaa, 0xbb][..]);
    assert_eq!(&buf[2..], &encode(msg)[..]);
}

#[test]
fn payloads_write_and_read_by_themselves() {
    let mut buf = BytesMut::new();
    let pc = QemuPc::new(0x1122_3344_5566_7788, true);
    let mem = QemuMemAccess::new(1, 2, false);
    let sys = QemuSyscall::new(-2, 3, [9, 8, 7, 6, 5, 4, 3, 2]);
    let load = QemuLoad::new(1, 2, 3, 4);
    let instr = QemuInstr::new(opcode(&[0x90]), 1);
    pc.to_bytes(&mut buf);
    mem.to_bytes(&mut buf);
    sys.to_bytes(&mut buf);
    load.to_bytes(&mut buf);
    instr.to_bytes(&mut buf);
    assert_eq!(buf.len(), 9 + 17 + 80 + 25 + 24);
    assert_eq!(QemuPc::from_bytes(&mut buf), pc);
    assert_eq!(QemuMemAccess::from_bytes(&mut buf), mem);
    assert_eq!(QemuSyscall::from_bytes(&mut buf), sys);
    assert_eq!(QemuLoad::from_bytes(&mut buf), load);
    assert_eq!(QemuInstr::from_bytes(&mut buf), instr);
    assert!(buf.is_empty());
}

#[test]
fn message_writes_and_reads_by_itself() {
    let mut buf = BytesMut::new();
    let msg = frame(QemuEvent::Load(QemuLoad::new(10, 20, 0, 7)));
    msg.to_bytes(&mut buf);
    buf.extend_from_slice(&[1, 2, 3]);
    assert_eq!(QemuEventMsg::from_bytes(&mut buf), msg);
    assert_eq!(&buf[..], &[1, 2, 3][..]);
}

#[test]
fn integers_are_big_endian_on_the_wire() {
    let buf = encode(frame(QemuEvent::MemAccess(QemuMemAccess::new(
        0x0102_0304_0506_0708,
        0x1112_1314_1516_1718,
        false,
    ))));
    assert_eq!(&buf[4..12], &[1, 2, 3, 4, 5, 6, 7, 8][..]);
    assert_eq!(&buf[12..20], &[0x11, 0x12, 0x13, 0x14, 0x15, 0x16, 0x17, 0x18][..]);
    let buf = encode(QemuEventMsg::of_event(
        QemuEvent::Load(QemuLoad::new(0, 0, 0, 0)),
        EventFlags::from_bits_truncate(FINISHED),
    ));
    assert_eq!(&buf[..4], &[0, 0, 1, 0x80][..]);
}

fn flag_word(buf: &BytesMut) -> u32 {
    u32::from_be_bytes([buf[0], buf[1], buf[2], buf[3]])
}

#[test]
fn encoder_writes_the_kind_bit_of_the_event() {
    let event = QemuEvent::Pc(QemuPc::new(0x400080, false));
    // No kind bit, two kind bits, the bit of another kind, bits without a
    // meaning: the flag word on the wire names the program counter alone.
    for bits in [0u32, PC | INSTRS, SYSCALLS, LOAD | READS_WRITES, 0xffff_fe04] {
        let msg = QemuEventMsg::new(EventFlags { bits }, event);
        let mut buf = encode(msg);
        assert_eq!(buf.len(), 13);
        assert_eq!(flag_word(&buf) & KIND_BITS, PC);
        assert_eq!(flag_word(&buf) & !ALL_BITS, 0);
        let back = QemuMsgCodec {}.decode(&mut buf).unwrap().unwrap();
        assert_eq!(back, msg.emitted());
        assert_eq!(back.event, event);
        assert!(back.is_wf());
    }
}

#[test]
fn encoder_keeps_the_state_bits() {
    let event = QemuEvent::Syscall(QemuSyscall::new(1, 2, [0; 8]));
    let msg = QemuEventMsg::new(EventFlags { bits: PC | FINISHED | EXECUTED | BRANCHES }, event);
    let buf = encode(msg);
    assert_eq!(flag_word(&buf), SYSCALLS | FINISHED | EXECUTED | BRANCHES);
    assert_eq!(buf.len(), 84);
}

#[test]
fn encoder_writes_an_emittable_frame_as_it_is() {
    for msg in one_of_each() {
        assert!(msg.is_wf());
        assert_eq!(msg.emitted(), msg);
        let buf = encode(msg);
        assert_eq!(flag_word(&buf), msg.flags.bits());
    }
}

#[test]
fn emitted_form_of_a_frame() {
    let instr = QemuInstr { opcode: opcode(&[0x90]), opcode_size: 40 };
    let msg = QemuEventMsg::new(EventFlags { bits: 0xffff_ffff }, QemuEvent::Instr(instr));
    assert!(!msg.is_wf());
    let written = msg.emitted();
    assert!(written.is_wf());
    assert_eq!(written.flags.bits(), INSTRS | BRANCHES | EXECUTED | FINISHED);
    assert_eq!(
        written.event,
        QemuEvent::Instr(QemuInstr { opcode: opcode(&[0x90]), opcode_size: 16 })
    );
    assert_eq!(written.emitted(), written);
    let wrong_kind = QemuEventMsg::new(EventFlags { bits: PC }, QemuEvent::Instr(instr));
    assert!(!wrong_kind.is_wf());
    let wrong_size = QemuEventMsg::new(EventFlags { bits: INSTRS }, QemuEvent::Instr(instr));
    assert!(!wrong_size.is_wf());
    assert!(!QemuEvent::Instr(instr).is_wf());
    assert!(QemuEvent::Instr(instr).emitted().is_wf());
}

#[test]
fn decoder_gives_frames_with_one_kind_bit() {
    // A flag word with the bits of two kinds: the first kind is meant.
    let mut buf = BytesMut::new();
    buf.extend_from_slice(&(PC | INSTRS | FINISHED).to_be_bytes());
    buf.extend_from_slice(&0x400080u64.to_be_bytes());
    buf.extend_from_slice(&[1]);
    let msg = QemuMsgCodec {}.decode(&mut buf).unwrap().unwrap();
    assert_eq!(msg.flags.bits(), PC | FINISHED);
    assert_eq!(msg.event, QemuEvent::Pc(QemuPc::new(0x400080, true)));
    assert!(msg.is_wf());
    assert!(buf.is_empty());
}

#[test]
fn opcode_size_is_never_above_sixteen() {
    let op = opcode(&[0x48, 0x89, 0x18]);
    assert_eq!(QemuInstr::new(op, 3).opcode_size, 3);
    assert_eq!(QemuInstr::new(op, 16).opcode_size, 16);
    assert_eq!(QemuInstr::new(op, 17).opcode_size, 16);
    assert_eq!(QemuInstr::new(op, usize::MAX).opcode_size, 16);
    assert_eq!(QemuInstr::new(op, 17).opcode, op);
    assert!(QemuInstr::new(op, 17).is_wf());
    // Written: a size above sixteen goes out as sixteen.
    let mut buf = BytesMut::new();
    QemuInstr { opcode: op, opcode_size: 17 }.to_bytes(&mut buf);
    assert_eq!(buf.len(), 24);
    assert_eq!(&buf[..16], &op[..]);
    assert_eq!(&buf[16..], &16u64.to_be_bytes()[..]);
    // Read: a size field above sixteen comes in as sixteen.
    for (field, size) in [(0u64, 0usize), (3, 3), (16, 16), (17, 16), (u64::MAX, 16)] {
        let mut buf = BytesMut::new();
        buf.extend_from_slice(&op);
        buf.extend_from_slice(&field.to_be_bytes());
        let instr = QemuInstr::from_bytes(&mut buf);
        assert_eq!(instr.opcode, op);
        assert_eq!(instr.opcode_size, size);
        assert!(instr.opcode_size <= MAX_OPCODE_SIZE);
        assert!(buf.is_empty());
    }
}

#[test]
fn decoded_instruction_frame_has_a_bounded_size() {
    let mut buf = BytesMut::new();
    buf.extend_from_slice(&INSTRS.to_be_bytes());
    buf.extend_from_slice(&opcode(&[0xcc]));
    buf.extend_from_slice(&17u64.to_be_bytes());
    let msg = QemuMsgCodec {}.decode(&mut buf).unwrap().unwrap();
    assert_eq!(
        msg.event,
        QemuEvent::Instr(QemuInstr { opcode: opcode(&[0xcc]), opcode_size: 16 })
    );
    assert!(msg.is_wf());
}

#[test]
fn frame_length_depends_on_the_kind_alone() {
    let lengths = [13usize, 28, 21, 84, 29];
    for (msg, len) in one_of_each().into_iter().zip(lengths) {
        for bits in [0u32, msg.flags.bits(), ALL_BITS, u32::MAX] {
            let buf = encode(QemuEventMsg::new(EventFlags { bits }, msg.event));
            assert_eq!(buf.len(), len);
        }
    }
}
