use unarr_reader::{
    ArArchive, ArEntry, ArchiveFormat, CatalogAction, EntryReader, ReadAction, ReadError,
    ReaderError,
};

/// A forward-only engine over in-memory entries: one cursor, entries started
/// by offset or by stepping, bytes produced in order.
struct Engine {
    entries: Vec<(i64, Vec<u8>, Vec<u8>, i64)>,
    current: Option<usize>,
    pos: usize,
    parse_calls: usize,
    discard_calls: usize,
    fail_parse_at: bool,
    fail_produce_after: Option<usize>,
    produce_calls: usize,
}

impl Engine {
    fn new(entries: Vec<(i64, &str, Vec<u8>)>) -> Engine {
        Engine {
            entries: entries
                .into_iter()
                .map(|(o, n, d)| (o, n.as_bytes().to_vec(), d, 1000 + o))
                .collect(),
            current: None,
            pos: 0,
            parse_calls: 0,
            discard_calls: 0,
            fail_parse_at: false,
            fail_produce_after: None,
            produce_calls: 0,
        }
    }

    fn current_offset(&self) -> i64 {
        match self.current {
            Some(i) => self.entries[i].0,
            None => -1,
        }
    }

    fn parse_at(&mut self, offset: i64) -> bool {
        self.parse_calls += 1;
        if self.fail_parse_at {
            return false;
        }
        match self.entries.iter().position(|e| e.0 == offset) {
            Some(i) => {
                self.current = Some(i);
                self.pos = 0;
                true
            }
            None if offset == 0 && !self.entries.is_empty() => {
                self.current = Some(0);
                self.pos = 0;
                true
            }
            None => false,
        }
    }

    fn parse_next(&mut self) -> bool {
        match self.current {
            Some(i) if i + 1 < self.entries.len() => {
                self.current = Some(i + 1);
                self.pos = 0;
                true
            }
            _ => {
                self.current = None;
                false
            }
        }
    }

    fn produce(&mut self, out: &mut [u8]) -> bool {
        self.produce_calls += 1;
        if let Some(n) = self.fail_produce_after {
            if self.produce_calls > n {
                return false;
            }
        }
        let i = match self.current {
            Some(i) => i,
            None => return false,
        };
        let data = &self.entries[i].2;
        if self.pos + out.len() > data.len() {
            return false;
        }
        out.copy_from_slice(&data[self.pos..self.pos + out.len()]);
        self.pos += out.len();
        true
    }
}

fn bytes(n: usize, seed: u8) -> Vec<u8> {
    (0..n).map(|i| (i as u8).wrapping_mul(31).wrapping_add(seed)).collect()
}

/// Lists the entries; an entry whose offset may not follow the previous one
/// stops the listing with that offset.
fn list(arch: &mut ArArchive, eng: &mut Engine) -> Result<Vec<ArEntry>, i64> {
    let mut it = arch.iter();
    let mut out = Vec::new();
    loop {
        let mut action = it.start_next(arch, eng.current_offset());
        loop {
            match action {
                CatalogAction::ParseAt { offset } => {
                    let ok = eng.parse_at(offset);
                    action = it.advance(arch, ok);
                }
                CatalogAction::ParseNext => {
                    let ok = eng.parse_next();
                    action = it.advance(arch, ok);
                }
                CatalogAction::Describe => {
                    let e = &eng.entries[eng.current.unwrap()];
                    let (o, n, d, t) = (e.0, e.1.clone(), e.2.len(), e.3);
                    if !it.accepts_offset(o) {
                        return Err(o);
                    }
                    out.push(it.describe(arch, &n, o, d, t));
                    break;
                }
                CatalogAction::End => return Ok(out),
            }
        }
    }
}

fn open_reader(
    arch: &mut ArArchive,
    eng: &mut Engine,
    entry: &ArEntry,
) -> Result<EntryReader, ReaderError> {
    let ok = eng.parse_at(entry.offset());
    arch.reader_for(entry, ok)
}

fn read(
    r: &mut EntryReader,
    arch: &mut ArArchive,
    eng: &mut Engine,
    buf: &mut [u8],
    scratch: &mut Vec<u8>,
) -> Result<usize, ReadError> {
    let mut action = r.start_read(arch, eng.current_offset(), buf.len());
    loop {
        match action {
            ReadAction::Reposition { offset } => {
                let ok = eng.parse_at(offset);
                action = r.advance(arch, ok);
            }
            ReadAction::Discard { len } => {
                if scratch.len() < len {
                    scratch.resize(len, 0);
                }
                eng.discard_calls += 1;
                let ok = eng.produce(&mut scratch[..len]);
                action = r.advance(arch, ok);
            }
            ReadAction::Deliver { len } => {
                let ok = eng.produce(&mut buf[..len]);
                action = r.advance(arch, ok);
            }
            ReadAction::Complete { len } => return Ok(len),
            ReadAction::Fail { error } => return Err(error),
        }
    }
}

fn read_exact(
    r: &mut EntryReader,
    arch: &mut ArArchive,
    eng: &mut Engine,
    buf: &mut [u8],
    scratch: &mut Vec<u8>,
) {
    let mut done = 0;
    while done < buf.len() {
        let n = read(r, arch, eng, &mut buf[done..], scratch).unwrap();
        assert!(n > 0);
        done += n;
    }
}

fn read_to_end(
    r: &mut EntryReader,
    arch: &mut ArArchive,
    eng: &mut Engine,
    chunk: usize,
    scratch: &mut Vec<u8>,
) -> Vec<u8> {
    let mut out = Vec::new();
    let mut buf = vec![0u8; chunk];
    loop {
        let n = read(r, arch, eng, &mut buf, scratch).unwrap();
        if n == 0 {
            return out;
        }
        out.extend_from_slice(&buf[..n]);
    }
}

fn sample() -> (ArArchive, Engine) {
    let eng = Engine::new(vec![
        (10, "a.txt", bytes(100, 1)),
        (250, "b.bin", bytes(50, 7)),
        (400, "c.empty", Vec::new()),
    ]);
    (ArArchive::new(ArchiveFormat::Tar), eng)
}

#[test]
fn example_scenario() {
    let (mut arch, mut eng) = sample();
    let entries = list(&mut arch, &mut eng).unwrap();
    assert_eq!(entries.len(), 3);
    let sizes: Vec<usize> = entries.iter().map(|e| e.size()).collect();
    assert_eq!(sizes, vec![100, 50, 0]);
    let names: Vec<&str> = entries.iter().map(|e| e.name()).collect();
    assert_eq!(names, vec!["a.txt", "b.bin", "c.empty"]);

    let mut scratch = Vec::new();
    let mut c = open_reader(&mut arch, &mut eng, &entries[2]).unwrap();
    let produced = eng.produce_calls;
    let mut buf = [0u8; 16];
    assert_eq!(read(&mut c, &mut arch, &mut eng, &mut buf, &mut scratch), Ok(0));
    assert_eq!(eng.produce_calls, produced);
    assert!(scratch.is_empty());

    let mut a = open_reader(&mut arch, &mut eng, &entries[0]).unwrap();
    let mut b = open_reader(&mut arch, &mut eng, &entries[1]).unwrap();
    let mut a_bytes = vec![0u8; 100];
    read_exact(&mut a, &mut arch, &mut eng, &mut a_bytes[..40], &mut scratch);
    let b_bytes = read_to_end(&mut b, &mut arch, &mut eng, 64, &mut scratch);
    assert_eq!(b_bytes, bytes(50, 7));
    read_exact(&mut a, &mut arch, &mut eng, &mut a_bytes[40..], &mut scratch);
    assert_eq!(a_bytes, bytes(100, 1));
    assert_eq!(read(&mut a, &mut arch, &mut eng, &mut buf, &mut scratch), Ok(0));
}

#[test]
fn catalog_offsets_increase() {
    let (mut arch, mut eng) = sample();
    let entries = list(&mut arch, &mut eng).unwrap();
    let offsets: Vec<i64> = entries.iter().map(|e| e.offset()).collect();
    assert_eq!(offsets, vec![10, 250, 400]);
    for w in offsets.windows(2) {
        assert!(w[0] < w[1]);
    }
    assert_eq!(entries[1].time(), 1250);
}

#[test]
fn catalog_realigns_after_a_reader_moved_the_cursor() {
    let (mut arch, mut eng) = sample();
    let mut it = arch.iter();
    assert_eq!(
        it.start_next(&mut arch, eng.current_offset()),
        CatalogAction::ParseAt { offset: 0 }
    );
    assert!(eng.parse_at(0));
    assert_eq!(it.advance(&mut arch, true), CatalogAction::Describe);
    assert!(it.accepts_offset(10));
    let first = it.describe(&arch, b"a.txt", 10, 100, 1010);

    let mut scratch = Vec::new();
    let c = ArEntry::describe(ArchiveFormat::Tar, b"c.empty", 400, 0, 1400);
    let mut r = open_reader(&mut arch, &mut eng, &c).unwrap();
    let mut buf = [0u8; 4];
    assert_eq!(read(&mut r, &mut arch, &mut eng, &mut buf, &mut scratch), Ok(0));
    assert_eq!(eng.current_offset(), 400);

    assert_eq!(
        it.start_next(&mut arch, eng.current_offset()),
        CatalogAction::ParseAt { offset: first.offset() }
    );
    assert!(eng.parse_at(10));
    assert_eq!(it.advance(&mut arch, true), CatalogAction::ParseNext);
    assert!(eng.parse_next());
    assert_eq!(it.advance(&mut arch, true), CatalogAction::Describe);
    assert!(it.accepts_offset(250));
    let second = it.describe(&arch, b"b.bin", 250, 50, 1250);
    assert_eq!(second.name(), "b.bin");
}

#[test]
fn catalog_ends_when_the_engine_cannot_step() {
    let (mut arch, mut eng) = sample();
    let entries = list(&mut arch, &mut eng).unwrap();
    assert_eq!(entries.len(), 3);
    let mut empty = Engine::new(Vec::new());
    let mut arch2 = ArArchive::new(ArchiveFormat::Zip);
    assert_eq!(list(&mut arch2, &mut empty).unwrap().len(), 0);
}

#[test]
fn catalog_rejects_an_offset_that_goes_back() {
    let mut eng = Engine::new(vec![(30, "x", bytes(3, 0)), (20, "y", bytes(3, 0))]);
    let mut arch = ArArchive::new(ArchiveFormat::Tar);
    assert_eq!(list(&mut arch, &mut eng).unwrap_err(), 20);
}

#[test]
fn catalog_exempts_offset_zero() {
    let (mut arch, _eng) = sample();
    let mut it = arch.iter();
    assert!(it.accepts_offset(-5));
    assert_eq!(
        it.start_next(&mut arch, -1),
        CatalogAction::ParseAt { offset: 0 }
    );
    assert_eq!(it.advance(&mut arch, true), CatalogAction::Describe);
    let e = it.describe(&arch, b"a.txt", 30, 1, 0);
    assert_eq!(e.offset(), 30);
    assert!(!it.accepts_offset(30));
    assert!(!it.accepts_offset(12));
    assert!(it.accepts_offset(0));
    assert!(it.accepts_offset(31));
}

#[test]
fn catalog_stays_finished() {
    let (mut arch, mut eng) = sample();
    let mut it = arch.iter();
    let a = it.start_next(&mut arch, eng.current_offset());
    assert_eq!(a, CatalogAction::ParseAt { offset: 0 });
    assert_eq!(it.advance(&mut arch, false), CatalogAction::End);
    assert_eq!(
        it.start_next(&mut arch, eng.current_offset()),
        CatalogAction::End
    );
}

#[test]
fn single_pass_reads_exactly_the_size() {
    let (mut arch, mut eng) = sample();
    let entries = list(&mut arch, &mut eng).unwrap();
    let mut scratch = Vec::new();
    for chunk in [1usize, 7, 50, 100, 1000] {
        for e in &entries {
            let mut r = open_reader(&mut arch, &mut eng, e).unwrap();
            let got = read_to_end(&mut r, &mut arch, &mut eng, chunk, &mut scratch);
            assert_eq!(got.len(), e.size());
            let mut buf = [0u8; 8];
            assert_eq!(read(&mut r, &mut arch, &mut eng, &mut buf, &mut scratch), Ok(0));
        }
    }
    assert_eq!(eng.discard_calls, 0);
}

#[test]
fn uninterrupted_reads_do_not_start_the_entry_again() {
    let (mut arch, mut eng) = sample();
    let entries = list(&mut arch, &mut eng).unwrap();
    let mut r = open_reader(&mut arch, &mut eng, &entries[0]).unwrap();
    let parses = eng.parse_calls;
    let mut scratch = Vec::new();
    let got = read_to_end(&mut r, &mut arch, &mut eng, 9, &mut scratch);
    assert_eq!(got, bytes(100, 1));
    assert_eq!(eng.parse_calls, parses);
}

#[test]
fn interleaving_at_every_split_point() {
    let (mut arch, mut eng) = sample();
    let entries = list(&mut arch, &mut eng).unwrap();
    let mut scratch = Vec::new();
    for split in 0..=100usize {
        let mut a = open_reader(&mut arch, &mut eng, &entries[0]).unwrap();
        let mut b = open_reader(&mut arch, &mut eng, &entries[1]).unwrap();
        let mut a_bytes = vec![0u8; 100];
        read_exact(&mut a, &mut arch, &mut eng, &mut a_bytes[..split], &mut scratch);
        let b_bytes = read_to_end(&mut b, &mut arch, &mut eng, 13, &mut scratch);
        assert_eq!(b_bytes, bytes(50, 7));
        read_exact(&mut a, &mut arch, &mut eng, &mut a_bytes[split..], &mut scratch);
        assert_eq!(a_bytes, bytes(100, 1));
    }
}

#[test]
fn interleaving_with_a_second_reader_of_the_same_entry() {
    let (mut arch, mut eng) = sample();
    let entries = list(&mut arch, &mut eng).unwrap();
    let mut scratch = Vec::new();
    let mut a = open_reader(&mut arch, &mut eng, &entries[0]).unwrap();
    let mut first = vec![0u8; 30];
    read_exact(&mut a, &mut arch, &mut eng, &mut first, &mut scratch);
    let _other = open_reader(&mut arch, &mut eng, &entries[0]).unwrap();
    let mut rest = vec![0u8; 70];
    read_exact(&mut a, &mut arch, &mut eng, &mut rest, &mut scratch);
    first.extend_from_slice(&rest);
    assert_eq!(first, bytes(100, 1));
}

#[test]
fn catalog_between_reads_does_not_disturb_a_reader() {
    let (mut arch, mut eng) = sample();
    let entries = list(&mut arch, &mut eng).unwrap();
    let mut scratch = Vec::new();
    let mut a = open_reader(&mut arch, &mut eng, &entries[0]).unwrap();
    let mut got = vec![0u8; 100];
    read_exact(&mut a, &mut arch, &mut eng, &mut got[..55], &mut scratch);
    let again = list(&mut arch, &mut eng).unwrap();
    assert_eq!(again.len(), 3);
    read_exact(&mut a, &mut arch, &mut eng, &mut got[55..], &mut scratch);
    assert_eq!(got, bytes(100, 1));
    assert!(eng.discard_calls >= 1);
}

#[test]
fn rereads_reproduce_the_content() {
    let (mut arch, mut eng) = sample();
    let entries = list(&mut arch, &mut eng).unwrap();
    let mut scratch = Vec::new();
    for _ in 0..4 {
        let mut r = open_reader(&mut arch, &mut eng, &entries[1]).unwrap();
        assert_eq!(
            read_to_end(&mut r, &mut arch, &mut eng, 16, &mut scratch),
            bytes(50, 7)
        );
    }
}

#[test]
fn zero_length_buffer_delivers_nothing() {
    let (mut arch, mut eng) = sample();
    let entries = list(&mut arch, &mut eng).unwrap();
    let mut scratch = Vec::new();
    let mut r = open_reader(&mut arch, &mut eng, &entries[0]).unwrap();
    let mut empty: [u8; 0] = [];
    assert_eq!(read(&mut r, &mut arch, &mut eng, &mut empty, &mut scratch), Ok(0));
    assert_eq!(
        read_to_end(&mut r, &mut arch, &mut eng, 100, &mut scratch),
        bytes(100, 1)
    );
}

#[test]
fn reader_for_an_unknown_offset_fails() {
    let (mut arch, mut eng) = sample();
    let ghost = ArEntry::describe(ArchiveFormat::Tar, b"nowhere", 77, 5, 0);
    assert_eq!(
        open_reader(&mut arch, &mut eng, &ghost).err(),
        Some(ReaderError::EntryNotFound)
    );
}

#[test]
fn position_failure_on_resume() {
    let (mut arch, mut eng) = sample();
    let entries = list(&mut arch, &mut eng).unwrap();
    let mut scratch = Vec::new();
    let mut a = open_reader(&mut arch, &mut eng, &entries[0]).unwrap();
    let mut buf = vec![0u8; 10];
    read_exact(&mut a, &mut arch, &mut eng, &mut buf, &mut scratch);
    let mut b = open_reader(&mut arch, &mut eng, &entries[1]).unwrap();
    read_exact(&mut b, &mut arch, &mut eng, &mut buf, &mut scratch);
    eng.fail_parse_at = true;
    assert_eq!(
        read(&mut a, &mut arch, &mut eng, &mut buf, &mut scratch),
        Err(ReadError::PositionFailure)
    );
    eng.fail_parse_at = false;
    let mut rest = vec![0u8; 90];
    read_exact(&mut a, &mut arch, &mut eng, &mut rest, &mut scratch);
    assert_eq!(rest, bytes(100, 1)[10..].to_vec());
}

#[test]
fn discard_failure_on_resume() {
    let (mut arch, mut eng) = sample();
    let entries = list(&mut arch, &mut eng).unwrap();
    let mut scratch = Vec::new();
    let mut a = open_reader(&mut arch, &mut eng, &entries[0]).unwrap();
    let mut buf = vec![0u8; 10];
    read_exact(&mut a, &mut arch, &mut eng, &mut buf, &mut scratch);
    let mut b = open_reader(&mut arch, &mut eng, &entries[1]).unwrap();
    read_exact(&mut b, &mut arch, &mut eng, &mut buf, &mut scratch);
    eng.fail_produce_after = Some(eng.produce_calls);
    assert_eq!(
        read(&mut a, &mut arch, &mut eng, &mut buf, &mut scratch),
        Err(ReadError::DiscardFailure)
    );
}

#[test]
fn decode_failure_then_recovery() {
    let (mut arch, mut eng) = sample();
    let entries = list(&mut arch, &mut eng).unwrap();
    let mut scratch = Vec::new();
    let mut a = open_reader(&mut arch, &mut eng, &entries[0]).unwrap();
    let mut buf = vec![0u8; 25];
    read_exact(&mut a, &mut arch, &mut eng, &mut buf, &mut scratch);
    eng.fail_produce_after = Some(eng.produce_calls);
    assert_eq!(
        read(&mut a, &mut arch, &mut eng, &mut buf, &mut scratch),
        Err(ReadError::DecodeFailure)
    );
    eng.fail_produce_after = None;
    eng.pos += 3;
    let mut rest = vec![0u8; 75];
    read_exact(&mut a, &mut arch, &mut eng, &mut rest, &mut scratch);
    assert_eq!(rest, bytes(100, 1)[25..].to_vec());
}

#[test]
fn cookies_run_out_only_at_the_top() {
    let (mut arch, mut eng) = sample();
    let entries = list(&mut arch, &mut eng).unwrap();
    assert!(arch.has_cookie_left());
    let r = open_reader(&mut arch, &mut eng, &entries[0]).unwrap();
    assert!(!r.is_reading());
    assert_eq!(arch.format(), ArchiveFormat::Tar);
}

#[test]
fn test() {
    let (mut arch, mut eng) = sample();
    let entries = list(&mut arch, &mut eng).unwrap();
    let mut scratch = Vec::new();
    for (i, f) in entries.iter().enumerate() {
        let mut outer_buf = vec![0u8; f.size()];
        let mut outer = open_reader(&mut arch, &mut eng, f).unwrap();
        let read_first = if f.size() == 0 {
            0
        } else {
            rand::random::<usize>() % f.size()
        };
        read_exact(&mut outer, &mut arch, &mut eng, &mut outer_buf[..read_first], &mut scratch);
        let mut inner_vec = Vec::new();
        for change_pos in entries.iter() {
            let mut reader = open_reader(&mut arch, &mut eng, change_pos).unwrap();
            inner_vec.push(read_to_end(&mut reader, &mut arch, &mut eng, 4096, &mut scratch));
        }
        read_exact(&mut outer, &mut arch, &mut eng, &mut outer_buf[read_first..], &mut scratch);
        assert_eq!(outer_buf, inner_vec[i]);
    }
}
