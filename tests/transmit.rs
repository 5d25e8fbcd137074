use dmx::transmit::{DeviceOp, Transmitter};

fn run_all_succeeding() -> Vec<DeviceOp> {
    let (mut t, mut op) = Transmitter::start();
    let mut ops = vec![op];
    while op != DeviceOp::Finished {
        op = t.advance(true);
        ops.push(op);
        assert!(ops.len() < 100);
    }
    ops
}

#[test]
fn send_opens_configures_then_ten_passes() {
    let ops = run_all_succeeding();
    assert_eq!(ops.len(), 63);
    assert_eq!(ops[0], DeviceOp::Open { vendor: 0x0403, product: 0x6001 });
    assert_eq!(ops[1], DeviceOp::SetBaudRate(250_000));
    for pass in 0..10 {
        let base = 2 + 6 * pass;
        assert_eq!(
            &ops[base..base + 6],
            &[
                DeviceOp::SetBreak(true),
                DeviceOp::Pause(10_000),
                DeviceOp::SetBreak(false),
                DeviceOp::Pause(8),
                DeviceOp::WriteFrame,
                DeviceOp::Pause(15_000),
            ]
        );
    }
    assert_eq!(ops[62], DeviceOp::Finished);
    assert_eq!(ops.iter().filter(|o| **o == DeviceOp::WriteFrame).count(), 10);
}

#[test]
fn failure_aborts_at_once() {
    let (mut t, _) = Transmitter::start();
    assert_eq!(t.advance(true), DeviceOp::SetBaudRate(250_000));
    assert_eq!(t.advance(true), DeviceOp::SetBreak(true));
    assert_eq!(t.advance(false), DeviceOp::Aborted);
    assert_eq!(t.advance(true), DeviceOp::Aborted);
}

#[test]
fn failed_open_aborts() {
    let (mut t, op) = Transmitter::start();
    assert!(matches!(op, DeviceOp::Open { .. }));
    assert_eq!(t.advance(false), DeviceOp::Aborted);
}

#[test]
fn finished_send_stays_finished() {
    let (mut t, _) = Transmitter::start();
    for _ in 0..62 {
        t.advance(true);
    }
    assert_eq!(t.advance(true), DeviceOp::Finished);
    assert_eq!(t.advance(false), DeviceOp::Finished);
}

#[test]
fn failure_in_last_pass_aborts() {
    let (mut t, _) = Transmitter::start();
    for _ in 0..60 {
        t.advance(true);
    }
    assert_eq!(t.advance(false), DeviceOp::Aborted);
}
