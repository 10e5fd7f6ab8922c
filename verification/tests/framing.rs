use emu2rs::decode;
use emu2rs::FrameAccumulator;
use emu2rs::Message;

#[test]
fn idle_with_empty_buffer_yields_no_batch() {
    let mut acc = FrameAccumulator::new();
    assert!(acc.on_idle_signal().is_none());
    acc.on_bytes(b"");
    assert!(acc.on_idle_signal().is_none());
}

#[test]
fn idle_after_bytes_yields_the_batch_and_resets() {
    let mut acc = FrameAccumulator::new();
    acc.on_bytes(b"abc");
    let batch = acc.on_idle_signal().expect("bytes were buffered");
    assert_eq!(batch, b"abc");
    assert!(acc.on_idle_signal().is_none());
}

#[test]
fn chunks_of_arbitrary_size_accumulate_in_order() {
    let mut acc = FrameAccumulator::new();
    acc.on_bytes(b"<Instantaneous");
    acc.on_bytes(b"");
    acc.on_bytes(b"Demand>");
    let batch = acc.on_idle_signal().expect("bytes were buffered");
    assert_eq!(batch, b"<InstantaneousDemand>");
}

#[test]
fn fragment_split_across_reads_decodes_after_idle() {
    let text = "<InstantaneousDemand><DeviceMacId>0x01</DeviceMacId><MeterMacId>0x02</MeterMacId><TimeStamp>0x00</TimeStamp><Demand>0x10</Demand><Multiplier>0x01</Multiplier><Divisor>0x01</Divisor><DigitsRight>0x00</DigitsRight><DigitsLeft>0x00</DigitsLeft><SuppressLeadingZero>N</SuppressLeadingZero></InstantaneousDemand>";
    let bytes = text.as_bytes();
    let mut acc = FrameAccumulator::new();
    for chunk in bytes.chunks(7) {
        acc.on_bytes(chunk);
    }
    let batch = acc.on_idle_signal().expect("bytes were buffered");
    let msgs = decode(&batch).expect("batch should decode");
    assert_eq!(msgs.len(), 1);
    match &msgs[0] {
        Message::InstantaneousDemand(v) => {
            assert_eq!(v.demand, 0x10);
            assert!(!v.suppress_leading_zero);
        }
        _ => panic!("wrong variant"),
    }
}

#[test]
fn a_bad_batch_does_not_bleed_into_the_next() {
    let mut acc = FrameAccumulator::new();
    acc.on_bytes(b"<Instantaneous");
    let truncated = acc.on_idle_signal().expect("bytes were buffered");
    assert!(decode(&truncated).is_err());
    // The buffer was reset: the next batch stands on its own.
    acc.on_bytes(b"<UnknownEvent><X>0x01</X></UnknownEvent>");
    let next = acc.on_idle_signal().expect("bytes were buffered");
    assert_eq!(next, b"<UnknownEvent><X>0x01</X></UnknownEvent>");
}
