use libairspy_rs::cli::parse_u64;
use libairspy_rs::commands::{GpioPin, GpioPort};
use libairspy_rs::filters::HB_KERNEL_INT16;
use libairspy_rs::gpio_cli::{GpioOp, GpioReplay, GpioStep, ReplayOutcome};
use libairspy_rs::iqconverter_int16::IqConverterInt16;
use libairspy_rs::options::in_command_line_order;
use libairspy_rs::rx::{capture_byte_budget, WAV_HEADER_LEN, WAV_MAX_DATA_BYTES};
use libairspy_rs::control::port_pin;
use libairspy_rs::flash_cli::transfer_chunks;
use libairspy_rs::rx::apply_byte_budget;
use libairspy_rs::stream::SampleQueue;

#[test]
fn chunks_are_contiguous_and_cover_the_range() {
    for (address, length) in [(0u32, 1u32), (0x100, 600), (7, 256), (0x0F_FF00, 0x100), (3, 1025)] {
        let chunks = transfer_chunks(address, length);
        assert_eq!(chunks[0].0, address);
        let mut next = address;
        let mut total = 0u32;
        for (a, n) in &chunks {
            assert_eq!(*a, next);
            assert!(*n >= 1 && *n <= 256);
            next += u32::from(*n);
            total += u32::from(*n);
        }
        assert_eq!(total, length);
        assert_eq!(next, address + length);
    }
}

#[test]
fn byte_budget_is_never_exceeded() {
    let mut remaining = Some(10_000u64);
    let mut written = 0u64;
    for len in [4096usize, 0, 4096, 4096, 4096, 1] {
        written += apply_byte_budget(&mut remaining, len) as u64;
        assert_eq!(written + remaining.unwrap(), 10_000);
    }
    assert_eq!(written, 10_000);
    assert_eq!(remaining, Some(0));
}

#[test]
fn port_pin_names_one_pin() {
    for p in 0..8u8 {
        for n in 0..32u8 {
            let port = GpioPort::from_u8(p).unwrap();
            let pin = GpioPin::from_u8(n).unwrap();
            let v = port_pin(port, pin);
            assert_eq!((v / 32, v % 32), (u16::from(p), u16::from(n)));
        }
    }
}

#[test]
fn dropped_count_travels_with_the_next_queued_buffer() {
    let mut q = SampleQueue::with_pool(1, 3);
    let a = q.acquire_free().unwrap();
    q.push_filled(a);
    let lost = q.acquire_free().unwrap();
    q.push_filled(lost);
    let lost = q.acquire_free().unwrap();
    q.push_filled(lost);
    let (first, d) = q.pop_filled().unwrap();
    assert_eq!(d, 0);
    q.recycle(first);
    let b = q.acquire_free().unwrap();
    q.push_filled(b);
    let (_, d) = q.pop_filled().unwrap();
    assert_eq!(d, 2);
    let c = q.acquire_free().unwrap();
    q.push_filled(c);
    let (_, d) = q.pop_filled().unwrap();
    assert_eq!(d, 0);
}

#[test]
fn parse_u64_reads_back_decimal_hex_and_binary_text() {
    for n in [0u64, 1, 7, 10, 255, 0x1234_5678, u64::from(u32::MAX) + 1, u64::MAX - 1, u64::MAX] {
        assert_eq!(parse_u64(&n.to_string()), Ok(n));
        assert_eq!(parse_u64(&format!("{:#x}", n)), Ok(n));
        assert_eq!(parse_u64(&format!("{:#b}", n)), Ok(n));
    }
}

#[test]
fn splitting_a_block_at_four_samples_changes_nothing() {
    let input: Vec<i16> = (0..96).map(|i: i32| ((i * 1237) % 4096 - 2048) as i16 * 16).collect();
    for split in [0usize, 4, 8, 44, 92, 96] {
        let mut whole = input.clone();
        let mut one = IqConverterInt16::new(&HB_KERNEL_INT16);
        one.process(&mut whole);

        let mut two = IqConverterInt16::new(&HB_KERNEL_INT16);
        let (mut a, mut b) = (input[..split].to_vec(), input[split..].to_vec());
        two.process(&mut a);
        two.process(&mut b);
        a.extend(b);
        assert_eq!(a, whole, "split at {split}");

        let mut next_one = input[..12].to_vec();
        let mut next_two = next_one.clone();
        one.process(&mut next_one);
        two.process(&mut next_two);
        assert_eq!(next_one, next_two);
    }
}

/// Replays `ops` with every device operation returning `ok`; the
/// outcome and the operations asked for.
fn replay(ops: &[GpioOp], ok: bool) -> (ReplayOutcome, Vec<GpioStep>) {
    let mut r = GpioReplay::new();
    let mut asked = Vec::new();
    for op in ops {
        match r.step(op) {
            GpioStep::Continue => {}
            GpioStep::Stop(_) => break,
            step => {
                asked.push(step);
                let result = if ok { Ok(()) } else { Err(libairspy_rs::error::Error::Other) };
                if r.finish_operation(result).is_some() {
                    break;
                }
            }
        }
    }
    (r.outcome, asked)
}

#[test]
fn gpio_replay_over_whole_sequences() {
    assert_eq!(replay(&[], true).0, ReplayOutcome::NoOps);
    let ops = [GpioOp::Read, GpioOp::Read, GpioOp::Read];
    let (outcome, asked) = replay(&ops, false);
    assert_eq!((outcome, asked.len()), (ReplayOutcome::Failed, 1));
    let (outcome, asked) = replay(&ops, true);
    assert_eq!((outcome, asked.len()), (ReplayOutcome::Completed, 3));
    let (outcome, asked) = replay(&[GpioOp::Pin("3".into()), GpioOp::Write("1".into())], true);
    assert_eq!(outcome, ReplayOutcome::Failed);
    assert!(asked.is_empty());
    let (outcome, asked) = replay(&[GpioOp::Port("9".into())], true);
    assert_eq!(outcome, ReplayOutcome::Failed);
    assert!(asked.is_empty());
}

#[test]
fn options_come_back_in_command_line_order() {
    let ops = in_command_line_order(vec![
        (4, GpioOp::Write("1".into())),
        (1, GpioOp::Pin("12".into())),
        (6, GpioOp::Read),
        (0, GpioOp::Port("0".into())),
        (5, GpioOp::Read),
    ]);
    assert_eq!(
        ops,
        [
            GpioOp::Port("0".into()),
            GpioOp::Pin("12".into()),
            GpioOp::Write("1".into()),
            GpioOp::Read,
            GpioOp::Read,
        ]
    );
    assert!(in_command_line_order(Vec::<(usize, GpioOp)>::new()).is_empty());
}

#[test]
fn wav_captures_stop_within_representable_sizes() {
    assert_eq!(capture_byte_budget(true, None), Some(WAV_MAX_DATA_BYTES));
    assert_eq!(capture_byte_budget(true, Some(u64::MAX)), Some(WAV_MAX_DATA_BYTES));
    assert_eq!(capture_byte_budget(true, Some(4000)), Some(4000));
    assert_eq!(capture_byte_budget(false, None), None);
    assert_eq!(capture_byte_budget(false, Some(u64::MAX)), Some(u64::MAX));
    let mut remaining = capture_byte_budget(true, None);
    let mut written = 0u64;
    while remaining != Some(0) {
        written += apply_byte_budget(&mut remaining, usize::MAX) as u64;
    }
    assert_eq!(written + WAV_HEADER_LEN as u64, u64::from(u32::MAX));
}

#[test]
fn queue_buffers_are_conserved() {
    let pool = 4;
    let mut q = SampleQueue::with_pool(2, pool);
    let mut held = Vec::new();
    for _ in 0..3 {
        held.push(q.acquire_free().expect("free"));
    }
    for buf in held.drain(..) {
        q.push_filled(buf);
    }
    let (buf, _) = q.pop_filled().expect("filled");
    held.push(buf);
    q.recycle(held.pop().expect("held"));
    let mut count = held.len();
    while let Some(buf) = q.try_acquire_free() {
        held.push(buf);
        count += 1;
    }
    while let Some((buf, _)) = q.pop_filled() {
        held.push(buf);
        count += 1;
    }
    assert_eq!(count, pool);
}

