use bytes::BytesMut;
use cannonball::client::{
    after_connect_attempt, after_write, exit_events, Batcher, ClientEvent, ConnectAction,
    ProducerStep, WriteAction, CONNECT_RETRY_MS, EXIT_WRITE_ERROR,
};
use cannonball::args::Args;
use cannonball::context::{Context, TranslatedInsn};
use cannonball::codec::{DecodeError, QemuMsgCodec};
use cannonball::consumer::{
    drain, on_item, ConsumerAction, DrainEnd, StreamItem, EXIT_CLEAN, EXIT_DECODE_ERROR,
};
use cannonball::qemu_event::{
    EventFlags, QemuEvent, QemuEventMsg, QemuLoad, QemuPc, QemuSyscall, FINISHED, LOAD,
};

fn pc(n: u64) -> QemuEventMsg {
    QemuEventMsg::of_event(QemuEvent::Pc(QemuPc::new(n, false)), EventFlags::empty())
}

fn finished(n: u64) -> QemuEventMsg {
    QemuEventMsg::of_event(
        QemuEvent::Pc(QemuPc::new(n, true)),
        EventFlags::from_bits_truncate(FINISHED),
    )
}

/// A socket as the producer sees it: what is fed is buffered, a flush moves
/// the buffer to the other side.
struct Pipe {
    codec: QemuMsgCodec,
    buffered: BytesMut,
    sent: BytesMut,
    flushes: usize,
}

impl Pipe {
    fn new() -> Pipe {
        Pipe {
            codec: QemuMsgCodec {},
            buffered: BytesMut::new(),
            sent: BytesMut::new(),
            flushes: 0,
        }
    }

    fn take(&mut self, step: ProducerStep) {
        if let Some(msg) = step.feed {
            assert!(self.codec.encode(msg, &mut self.buffered).is_ok());
        }
        if step.flush {
            self.flushes += 1;
            let bytes = self.buffered.split();
            self.sent.extend_from_slice(&bytes);
        }
    }
}

#[test]
fn ten_events_in_batches_of_four() {
    let mut batcher = Batcher::new(4);
    let mut pipe = Pipe::new();
    let msgs: Vec<QemuEventMsg> = (0..10).map(pc).collect();
    for m in &msgs {
        let step = batcher.on_event(ClientEvent::Event(*m));
        pipe.take(step);
    }
    assert_eq!(pipe.flushes, 2);
    assert_eq!(batcher.pending(), 2);
    pipe.take(batcher.on_event(ClientEvent::Shutdown));
    assert_eq!(pipe.flushes, 3);
    assert!(pipe.buffered.is_empty());
    let mut codec = QemuMsgCodec {};
    let (got, end) = drain(&mut codec, &mut pipe.sent);
    assert_eq!(got, msgs);
    assert_eq!(end, DrainEnd::NeedMore);
    assert!(pipe.sent.is_empty());
}

#[test]
fn batcher_flushes_on_every_full_batch() {
    for batch in 1usize..=7 {
        let mut batcher = Batcher::new(batch);
        let mut flushes = 0;
        for n in 1..=50usize {
            let step = batcher.on_event(ClientEvent::Event(pc(n as u64)));
            assert_eq!(step.feed, Some(pc(n as u64)));
            assert_eq!(step.flush, n % batch == 0);
            if step.flush {
                flushes += 1;
            }
            assert_eq!(flushes, n / batch);
            assert_eq!(batcher.pending(), n % batch);
        }
    }
}

#[test]
fn batcher_with_batch_of_zero_flushes_on_shutdown_only() {
    let mut batcher = Batcher::new(0);
    for n in 0..20 {
        let step = batcher.on_event(ClientEvent::Event(pc(n)));
        assert_eq!(step, ProducerStep { feed: Some(pc(n)), flush: false });
        assert_eq!(batcher.pending(), 0);
    }
    assert_eq!(
        batcher.on_event(ClientEvent::Shutdown),
        ProducerStep { feed: None, flush: true }
    );
}

#[test]
fn shutdown_flushes_and_feeds_nothing() {
    let mut batcher = Batcher::new(3);
    assert_eq!(
        batcher.on_event(ClientEvent::Shutdown),
        ProducerStep { feed: None, flush: true }
    );
    batcher.on_event(ClientEvent::Event(pc(1)));
    assert_eq!(batcher.pending(), 1);
    assert_eq!(
        batcher.on_event(ClientEvent::Shutdown),
        ProducerStep { feed: None, flush: true }
    );
    // Shutting down does not restart the count.
    assert_eq!(batcher.pending(), 1);
    assert!(!batcher.on_event(ClientEvent::Event(pc(2))).flush);
    assert!(batcher.on_event(ClientEvent::Event(pc(3))).flush);
}

#[test]
fn events_arrive_in_submission_order() {
    let mut batcher = Batcher::new(5);
    let mut pipe = Pipe::new();
    let mut msgs = Vec::new();
    for n in 0..137u64 {
        let m = match n % 3 {
            0 => pc(n),
            1 => QemuEventMsg::of_event(
                QemuEvent::Syscall(QemuSyscall::new(n as i64, -(n as i64), [n; 8])),
                EventFlags::empty(),
            ),
            _ => QemuEventMsg::of_event(
                QemuEvent::Load(QemuLoad::new(n, n + 1, 0, 3)),
                EventFlags::empty(),
            ),
        };
        msgs.push(m);
        pipe.take(batcher.on_event(ClientEvent::Event(m)));
    }
    pipe.take(batcher.on_event(ClientEvent::Shutdown));
    let mut codec = QemuMsgCodec {};
    let (got, _) = drain(&mut codec, &mut pipe.sent);
    assert_eq!(got, msgs);
}

#[test]
fn connect_is_retried_every_333_ms() {
    assert_eq!(CONNECT_RETRY_MS, 333);
    assert_eq!(after_connect_attempt(true), ConnectAction::Start);
    assert_eq!(after_connect_attempt(false), ConnectAction::RetryAfterMs(333));
}

#[test]
fn consumer_bound_a_second_late() {
    // The consumer binds its socket one second after the plugin starts.
    let bound_at_ms = 1000u64;
    let mut now = 0u64;
    let mut attempts = 0;
    let connected_at = loop {
        attempts += 1;
        match after_connect_attempt(now >= bound_at_ms) {
            ConnectAction::Start => break now,
            ConnectAction::RetryAfterMs(ms) => now += ms,
        }
        assert!(attempts < 100);
    };
    assert_eq!(attempts, 5);
    assert_eq!(connected_at, 1332);
    assert!(connected_at <= 1333);
    // Nothing was sent before the connection; everything after it arrives.
    let mut batcher = Batcher::new(2);
    let mut pipe = Pipe::new();
    let msgs: Vec<QemuEventMsg> = (0..5).map(pc).collect();
    for m in &msgs {
        pipe.take(batcher.on_event(ClientEvent::Event(*m)));
    }
    pipe.take(batcher.on_event(ClientEvent::Shutdown));
    let mut codec = QemuMsgCodec {};
    assert_eq!(drain(&mut codec, &mut pipe.sent).0, msgs);
}

#[test]
fn reconnect_tolerance_for_any_delay() {
    for bound_at_ms in [0u64, 1, 332, 333, 334, 5000, 30_000] {
        let mut now = 0u64;
        let connected_at = loop {
            match after_connect_attempt(now >= bound_at_ms) {
                ConnectAction::Start => break now,
                ConnectAction::RetryAfterMs(ms) => now += ms,
            }
        };
        assert!(connected_at >= bound_at_ms);
        assert!(connected_at < bound_at_ms + CONNECT_RETRY_MS);
    }
}

#[test]
fn consumer_emits_frames_and_stops_on_finished() {
    assert_eq!(on_item(StreamItem::Frame(pc(1))), ConsumerAction::Emit(pc(1)));
    assert_eq!(on_item(StreamItem::Frame(finished(2))), ConsumerAction::EmitAndClose(finished(2)));
}

#[test]
fn consumer_exit_codes() {
    assert_eq!(EXIT_CLEAN, 0);
    assert_ne!(EXIT_DECODE_ERROR, 0);
    assert_eq!(on_item(StreamItem::End), ConsumerAction::Close(0));
    assert_eq!(
        on_item(StreamItem::Failed(DecodeError::NoEventKind)),
        ConsumerAction::Close(EXIT_DECODE_ERROR)
    );
}

#[test]
fn drain_takes_all_whole_frames() {
    let mut codec = QemuMsgCodec {};
    let mut buf = BytesMut::new();
    let msgs: Vec<QemuEventMsg> = (0..4).map(pc).collect();
    for m in &msgs {
        assert!(codec.encode(*m, &mut buf).is_ok());
    }
    buf.extend_from_slice(&[0, 0, 0, 1, 9]);
    let (got, end) = drain(&mut codec, &mut buf);
    assert_eq!(got, msgs);
    assert_eq!(end, DrainEnd::NeedMore);
    assert_eq!(&buf[..], &[0, 0, 0, 1, 9][..]);
}

#[test]
fn drain_of_nothing() {
    let mut codec = QemuMsgCodec {};
    let mut buf = BytesMut::new();
    let (got, end) = drain(&mut codec, &mut buf);
    assert!(got.is_empty());
    assert_eq!(end, DrainEnd::NeedMore);
}

#[test]
fn drain_stops_after_the_finished_frame() {
    let mut codec = QemuMsgCodec {};
    let mut buf = BytesMut::new();
    for m in [pc(1), pc(2), finished(3), pc(4)] {
        assert!(codec.encode(m, &mut buf).is_ok());
    }
    let (got, end) = drain(&mut codec, &mut buf);
    assert_eq!(got, vec![pc(1), pc(2), finished(3)]);
    assert_eq!(end, DrainEnd::Finished);
    assert_eq!(buf.len(), 13);
}

#[test]
fn drain_stops_at_a_frame_without_kind() {
    let mut codec = QemuMsgCodec {};
    let mut buf = BytesMut::new();
    assert!(codec.encode(pc(1), &mut buf).is_ok());
    let bad = [0u8; 20];
    buf.extend_from_slice(&bad);
    let (got, end) = drain(&mut codec, &mut buf);
    assert_eq!(got, vec![pc(1)]);
    assert_eq!(end, DrainEnd::Invalid);
    assert_eq!(&buf[..], &bad[..]);
}

#[test]
fn pc_trace_ends_with_finished() {
    // Three executions of the instruction at 0x400080, then the emulator
    // exits: three program counter frames, then the frame that says that
    // the emulator has finished.
    let mut ctx = Context::new();
    ctx.configure(Args::new(vec![
        "plugin.so".to_string(),
        "trace_pc=on".to_string(),
        "sock_path=/tmp/s".to_string(),
    ]));
    // A loop of one instruction, translated as a block of two: the
    // instruction and the jump back.
    let tb = vec![
        TranslatedInsn { vaddr: 0x400080, opcode: vec![0x90] },
        TranslatedInsn { vaddr: 0x400081, opcode: vec![0xeb, 0xfd] },
    ];
    let mut batcher = Batcher::new(64);
    let mut pipe = Pipe::new();
    for _ in 0..3 {
        for reg in ctx.on_tb_trans(&tb) {
            for frame in ctx.on_insn_exec(reg.exec_key) {
                pipe.take(batcher.on_event(ClientEvent::Event(frame)));
            }
        }
    }
    assert_eq!(pipe.flushes, 0);
    for e in exit_events(ctx.on_exit()) {
        pipe.take(batcher.on_event(e));
    }
    let mut codec = QemuMsgCodec {};
    let mut actions = Vec::new();
    while let Ok(Some(m)) = codec.decode(&mut pipe.sent) {
        let a = on_item(StreamItem::Frame(m));
        actions.push(a);
        if matches!(a, ConsumerAction::EmitAndClose(_)) {
            break;
        }
    }
    let at_loop =
        QemuEventMsg::of_event(QemuEvent::Pc(QemuPc::new(0x400080, false)), EventFlags::empty());
    let jump =
        QemuEventMsg::of_event(QemuEvent::Pc(QemuPc::new(0x400081, true)), EventFlags::empty());
    assert_eq!(
        actions,
        vec![
            ConsumerAction::Emit(at_loop),
            ConsumerAction::Emit(jump),
            ConsumerAction::Emit(at_loop),
            ConsumerAction::Emit(jump),
            ConsumerAction::Emit(at_loop),
            ConsumerAction::Emit(jump),
            ConsumerAction::EmitAndClose(ctx.on_exit()),
        ]
    );
    assert!(ctx.on_exit().is_finished());
    assert!(pipe.sent.is_empty());
}

#[test]
fn failed_write_ends_the_process() {
    assert_eq!(after_write(true), WriteAction::Continue);
    assert_eq!(after_write(false), WriteAction::Exit(EXIT_WRITE_ERROR));
    assert_eq!(after_write(false), WriteAction::Exit(1));
    assert_ne!(EXIT_WRITE_ERROR, 0);
}

#[test]
fn exit_puts_the_last_frame_before_the_flush() {
    let last = Context::new().on_exit();
    assert_eq!(exit_events(last), vec![ClientEvent::Event(last), ClientEvent::Shutdown]);
}

#[test]
fn frame_that_ends_a_trace() {
    let last = Context::new().on_exit();
    assert!(last.is_wf());
    assert!(last.is_finished());
    assert_eq!(last.flags.bits(), LOAD | FINISHED);
    assert_eq!(last.event, QemuEvent::Load(QemuLoad::new(0, 0, 0, 0)));
    assert_eq!(on_item(StreamItem::Frame(last)), ConsumerAction::EmitAndClose(last));
}

#[test]
fn exit_reaches_the_consumer() {
    // Three frames of a batch of sixty-four that never fills, then the
    // emulator exits: the consumer gets all of them and then closes.
    let ctx = Context::new();
    let frames = vec![pc(0x400080), pc(0x400080), pc(0x400080)];
    let mut batcher = Batcher::new(64);
    let mut pipe = Pipe::new();
    for f in &frames {
        pipe.take(batcher.on_event(ClientEvent::Event(*f)));
    }
    assert!(pipe.sent.is_empty());
    for e in exit_events(ctx.on_exit()) {
        pipe.take(batcher.on_event(e));
    }
    assert_eq!(pipe.flushes, 1);
    assert!(pipe.buffered.is_empty());
    let mut codec = QemuMsgCodec {};
    let (got, end) = drain(&mut codec, &mut pipe.sent);
    assert_eq!(end, DrainEnd::Finished);
    assert_eq!(got.len(), 4);
    assert_eq!(&got[..3], &frames[..]);
    assert_eq!(got[3], ctx.on_exit());
    assert!(pipe.sent.is_empty());
}

#[test]
fn order_is_kept_without_batching() {
    // A batch size of zero: nothing is flushed before the shutdown.
    let mut batcher = Batcher::new(0);
    let mut pipe = Pipe::new();
    let msgs: Vec<QemuEventMsg> = (0..5).map(pc).collect();
    for m in &msgs {
        pipe.take(batcher.on_event(ClientEvent::Event(*m)));
    }
    assert_eq!(pipe.flushes, 0);
    pipe.take(batcher.on_event(ClientEvent::Shutdown));
    assert_eq!(pipe.flushes, 1);
    let mut codec = QemuMsgCodec {};
    let (got, end) = drain(&mut codec, &mut pipe.sent);
    assert_eq!(got, msgs);
    assert_eq!(end, DrainEnd::NeedMore);
}
