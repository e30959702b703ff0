use bitendian::machine::{ReadEndian, ReadStep, WriteArray};
use bitendian::{BitEndian, Endian};

const LOWER: i64 = -500_000;
const UPPER: i64 = 500_000;
const CAPACITY: usize = 1021; // prime, so chunk edges drift across values

/// Drive a read machine over an in-memory stream, moving at most `max_chunk`
/// bytes per transfer; `None` models a source that hit end of input early.
fn read_value<const N: usize, T: BitEndian<N>>(
    data: &[u8],
    pos: &mut usize,
    endian: Endian,
    max_chunk: usize,
) -> Option<T> {
    let mut machine = ReadEndian::<N, T>::new(endian);
    loop {
        let want = machine.wanted();
        let take = want.min(max_chunk).min(data.len() - *pos);
        let chunk = &data[*pos..*pos + take];
        *pos += take;
        match machine.advance(chunk) {
            ReadStep::Done(v) => return Some(v),
            ReadStep::More => {}
            ReadStep::Eof => return None,
        }
    }
}

/// Drive a write machine into an in-memory sink that accepts at most
/// `max_chunk` bytes per transfer.
fn write_value<const N: usize, T: BitEndian<N>>(
    out: &mut Vec<u8>,
    it: T,
    endian: Endian,
    max_chunk: usize,
) {
    let mut machine = WriteArray::new(it, endian);
    loop {
        let pending = machine.pending();
        let take = pending.len().min(max_chunk);
        out.extend_from_slice(&pending[..take]);
        if machine.advance(take) {
            return;
        }
    }
}

/// One million sequential values written synchronously, then read back by
/// driving read machines over the stream.
#[test]
fn futures_read() {
    for endian in [Endian::Big, Endian::Little] {
        let mut stream: Vec<u8> = Vec::new();
        stream.extend_from_slice(&BitEndian::to_bytes_endian(1u8, endian));
        for it in LOWER..UPPER {
            stream.extend_from_slice(&BitEndian::to_bytes_endian(it, endian));
        }
        let mut pos = 0;
        let first: u8 = read_value(&stream, &mut pos, endian, usize::MAX).unwrap();
        assert_eq!(1u8, first);
        for expected in LOWER..UPPER {
            let actual: i64 = read_value(&stream, &mut pos, endian, usize::MAX).unwrap();
            assert_eq!(expected, actual);
        }
        assert_eq!(pos, stream.len());
    }
}

/// One million sequential values written by driving write machines, then read
/// back synchronously.
#[test]
fn futures_write() {
    for endian in [Endian::Big, Endian::Little] {
        let mut stream: Vec<u8> = Vec::new();
        write_value(&mut stream, 1u8, endian, usize::MAX);
        for i in LOWER..UPPER {
            write_value(&mut stream, i, endian, usize::MAX);
        }
        let mut pos = 1;
        let first: u8 = BitEndian::from_bytes_endian(&stream[0..1], endian);
        assert_eq!(1u8, first);
        for expected in LOWER..UPPER {
            let actual: i64 = BitEndian::from_bytes_endian(&stream[pos..pos + 8], endian);
            pos += 8;
            assert_eq!(expected, actual);
        }
        assert_eq!(pos, stream.len());
    }
}

/// As `futures_read`, but the source moves at most `CAPACITY`-aligned chunks,
/// so values regularly straddle a transfer boundary.
#[test]
fn tokio_read() {
    for endian in [Endian::Big, Endian::Little] {
        let mut stream: Vec<u8> = Vec::new();
        stream.extend_from_slice(&BitEndian::to_bytes_endian(1u8, endian));
        for it in LOWER..UPPER {
            stream.extend_from_slice(&BitEndian::to_bytes_endian(it, endian));
        }
        let mut pos = 0;
        let first: u8 = read_value(&stream, &mut pos, endian, CAPACITY).unwrap();
        assert_eq!(1u8, first);
        for expected in LOWER..UPPER {
            let actual: i64 = read_value(&stream, &mut pos, endian, CAPACITY).unwrap();
            assert_eq!(expected, actual);
        }
    }
}

/// As `futures_write`, but the sink accepts at most `CAPACITY` bytes per
/// transfer.
#[test]
fn tokio_write() {
    for endian in [Endian::Big, Endian::Little] {
        let mut stream: Vec<u8> = Vec::new();
        write_value(&mut stream, 1u8, endian, CAPACITY);
        for i in LOWER..UPPER {
            write_value(&mut stream, i, endian, CAPACITY);
        }
        let first: u8 = BitEndian::from_bytes_endian(&stream[0..1], endian);
        assert_eq!(1u8, first);
        let mut pos = 1;
        for expected in LOWER..UPPER {
            let actual: i64 = BitEndian::from_bytes_endian(&stream[pos..pos + 8], endian);
            pos += 8;
            assert_eq!(expected, actual);
        }
    }
}

/// A source that moves one byte per operation decodes to the same value as one
/// that moves everything at once, on both sides of the transfer.
#[test]
fn partial_transfer_matches_single_shot() {
    for endian in [Endian::Big, Endian::Little, Endian::Network, Endian::Native] {
        let value = -0x0102_0304_0506_0708i64;
        let mut whole: Vec<u8> = Vec::new();
        write_value(&mut whole, value, endian, usize::MAX);
        let mut trickled: Vec<u8> = Vec::new();
        write_value(&mut trickled, value, endian, 1);
        assert_eq!(whole, trickled);

        let mut pos = 0;
        let one_shot: i64 = read_value(&whole, &mut pos, endian, usize::MAX).unwrap();
        pos = 0;
        let byte_wise: i64 = read_value(&whole, &mut pos, endian, 1).unwrap();
        assert_eq!(one_shot, value);
        assert_eq!(byte_wise, value);
    }
}

/// A source that closes after fewer than `N` bytes fails with end of input
/// and never yields a truncated or zero-padded value.
#[test]
fn short_read_fails() {
    let bytes = BitEndian::to_bytes_endian(0x0102_0304u32, Endian::Big);
    for cut in 0..bytes.len() {
        let mut pos = 0;
        let got: Option<u32> = read_value(&bytes[..cut], &mut pos, Endian::Big, usize::MAX);
        assert!(got.is_none());
        let mut pos = 0;
        let trickled: Option<u32> = read_value(&bytes[..cut], &mut pos, Endian::Big, 1);
        assert!(trickled.is_none());
    }
}

/// The step-by-step outcomes of a read machine: more, more, done.
#[test]
fn read_machine_steps() {
    let mut machine = ReadEndian::<4, u32>::new(Endian::Big);
    assert_eq!(machine.wanted(), 4);
    assert!(matches!(machine.advance(&[1]), ReadStep::More));
    assert_eq!(machine.wanted(), 3);
    assert!(matches!(machine.advance(&[2, 3]), ReadStep::More));
    assert_eq!(machine.wanted(), 1);
    match machine.advance(&[4]) {
        ReadStep::Done(v) => assert_eq!(v, 0x0102_0304u32),
        _ => panic!("expected the decoded value"),
    }
}

/// An empty transfer while bytes are still needed is terminal end of input,
/// and the bytes already received stay in place.
#[test]
fn read_machine_eof_step() {
    let mut machine = ReadEndian::<2, u16>::new(Endian::Little);
    assert!(matches!(machine.advance(&[7]), ReadStep::More));
    assert!(matches!(machine.advance(&[]), ReadStep::Eof));
    // The cursor is unchanged: one byte more still completes the read.
    assert_eq!(machine.wanted(), 1);
    match machine.advance(&[1]) {
        ReadStep::Done(v) => assert_eq!(v, 0x0107u16),
        _ => panic!("expected the decoded value"),
    }
}

/// Zero bytes of progress is not an error for a writer: the machine stays at
/// the same cursor and completes once the sink accepts the rest.
#[test]
fn write_machine_tolerates_zero_progress() {
    let mut machine = WriteArray::new(0x0102u16, Endian::Big);
    assert_eq!(machine.pending(), &[1, 2]);
    assert!(!machine.advance(0));
    assert_eq!(machine.pending(), &[1, 2]);
    assert!(!machine.advance(1));
    assert_eq!(machine.pending(), &[2]);
    assert!(!machine.advance(0));
    assert!(!machine.is_done());
    assert!(machine.advance(1));
    assert!(machine.is_done());
    assert_eq!(machine.pending(), &[] as &[u8]);
}

/// The writer encodes eagerly at construction, exactly as the run-time
/// dispatch encodes.
#[test]
fn write_machine_payload() {
    for endian in [Endian::Big, Endian::Little, Endian::Network, Endian::Native] {
        let machine = WriteArray::new(-2i32, endian);
        assert_eq!(machine.pending(), BitEndian::to_bytes_endian(-2i32, endian).as_slice());
    }
}
