use xcontract_core::cell::TypedCell;
use xcontract_core::chunk::TypedChunk;
use xcontract_core::host::Host;
use xcontract_core::key::Key;
use xcontract_core::sync_chunk::SyncChunk;

fn dummy_cell() -> TypedCell<i32> {
    TypedCell::new(Key::zero())
}

#[test]
fn typed_cell_simple() {
    let mut host = Host::new();
    let mut cell = dummy_cell();
    assert_eq!(cell.load(&mut host), None);
    cell.store(&mut host, &5);
    assert_eq!(cell.load(&mut host), Some(5));
    cell.clear(&mut host);
    assert_eq!(cell.load(&mut host), None);
}

#[test]
fn count_reads() {
    let mut host = Host::new();
    let cell = dummy_cell();
    assert_eq!(host.total_reads(), 0);
    cell.load(&mut host);
    assert_eq!(host.total_reads(), 1);
    cell.load(&mut host);
    cell.load(&mut host);
    assert_eq!(host.total_reads(), 3);
}

#[test]
fn count_writes() {
    let mut host = Host::new();
    let mut cell = dummy_cell();
    assert_eq!(host.total_writes(), 0);
    cell.store(&mut host, &1);
    assert_eq!(host.total_writes(), 1);
    cell.store(&mut host, &2);
    cell.store(&mut host, &3);
    assert_eq!(host.total_writes(), 3);
}

#[test]
fn typed_chunk_simple() {
    const TEST_LEN: u32 = 5;

    let mut host = Host::new();
    let mut chunk: TypedChunk<u32> = TypedChunk::new(Key::zero());

    // Invariants after initialization.
    for i in 0..TEST_LEN {
        assert_eq!(chunk.load(&mut host, i), None);
    }

    // Store some elements.
    for i in 0..TEST_LEN {
        chunk.store(&mut host, i, &i);
        assert_eq!(chunk.load(&mut host, i), Some(i));
    }

    // Clear all elements.
    for i in 0..TEST_LEN {
        chunk.clear(&mut host, i);
        assert_eq!(chunk.load(&mut host, i), None);
    }
}

#[test]
fn count_reads_writes() {
    const TEST_LEN: u32 = 5;

    let mut host = Host::new();
    let mut chunk: TypedChunk<u32> = TypedChunk::new(Key::zero());

    // Reads and writes after init.
    assert_eq!(host.total_reads(), 0);
    assert_eq!(host.total_writes(), 0);

    // Loading from all cells.
    for i in 0..TEST_LEN {
        chunk.load(&mut host, i);
        assert_eq!(host.total_reads(), i as u64 + 1);
        assert_eq!(host.total_writes(), 0);
    }
    assert_eq!(host.total_reads(), TEST_LEN as u64);
    assert_eq!(host.total_writes(), 0);

    // Writing to all cells.
    for i in 0..TEST_LEN {
        chunk.store(&mut host, i, &i);
        assert_eq!(host.total_reads(), TEST_LEN as u64);
        assert_eq!(host.total_writes(), i as u64 + 1);
    }
    assert_eq!(host.total_reads(), TEST_LEN as u64);
    assert_eq!(host.total_writes(), TEST_LEN as u64);

    // Loading multiple times from a single cell.
    const LOAD_REPEATS: usize = 3;
    for n in 0..LOAD_REPEATS {
        chunk.load(&mut host, 0);
        assert_eq!(host.total_reads(), TEST_LEN as u64 + n as u64 + 1);
        assert_eq!(host.total_writes(), TEST_LEN as u64);
    }
    assert_eq!(host.total_reads(), TEST_LEN as u64 + LOAD_REPEATS as u64);
    assert_eq!(host.total_writes(), TEST_LEN as u64);

    // Storing multiple times to a single cell.
    const STORE_REPEATS: usize = 3;
    for n in 0..STORE_REPEATS {
        chunk.store(&mut host, 0, &10);
        assert_eq!(host.total_reads(), TEST_LEN as u64 + LOAD_REPEATS as u64);
        assert_eq!(host.total_writes(), TEST_LEN as u64 + n as u64 + 1);
    }
    assert_eq!(host.total_reads(), TEST_LEN as u64 + LOAD_REPEATS as u64);
    assert_eq!(host.total_writes(), TEST_LEN as u64 + STORE_REPEATS as u64);
}

#[test]
fn sync_chunk_read_count_monotone() {
    // Three reads of the same index hit the host exactly once.
    let mut host = Host::new();
    let mut chunk: SyncChunk<u32> = SyncChunk::new(Key::zero());
    assert_eq!(chunk.get(&mut host, 7), None);
    assert_eq!(chunk.get(&mut host, 7), None);
    assert_eq!(chunk.get(&mut host, 7), None);
    assert_eq!(host.total_reads(), 1);
    assert_eq!(host.total_writes(), 0);
}

#[test]
fn sync_chunk_write_batching() {
    // Three sets of the same index flush as exactly one host write,
    // carrying the last value.
    let mut host = Host::new();
    let mut chunk: SyncChunk<u32> = SyncChunk::new(Key::zero());
    chunk.set(0, 10);
    chunk.set(0, 20);
    chunk.set(0, 30);
    assert_eq!(host.total_writes(), 0);
    chunk.flush(&mut host);
    assert_eq!(host.total_writes(), 1);
    let plain: TypedChunk<u32> = TypedChunk::new(Key::zero());
    assert_eq!(plain.load(&mut host, 0), Some(30));
}

#[test]
fn sync_chunk_set_then_get() {
    let mut host = Host::new();
    let mut chunk: SyncChunk<u32> = SyncChunk::new(Key::zero());
    chunk.set(3, 42);
    assert_eq!(chunk.get(&mut host, 3), Some(42));
    // The value was cached, never read from the host.
    assert_eq!(host.total_reads(), 0);
}

#[test]
fn sync_chunk_absent_after_clear() {
    let mut host = Host::new();
    let mut chunk: SyncChunk<u32> = SyncChunk::new(Key::zero());
    chunk.set(1, 11);
    chunk.flush(&mut host);
    chunk.clear(1);
    assert_eq!(chunk.get(&mut host, 1), None);
    chunk.set(1, 12);
    assert_eq!(chunk.get(&mut host, 1), Some(12));
}

#[test]
fn sync_chunk_take_returns_previous() {
    let mut host = Host::new();
    let mut chunk: SyncChunk<u32> = SyncChunk::new(Key::zero());
    chunk.set(2, 5);
    assert_eq!(chunk.take(&mut host, 2), Some(5));
    assert_eq!(chunk.get(&mut host, 2), None);
    assert_eq!(chunk.take(&mut host, 2), None);
}

#[test]
fn sync_chunk_put_returns_previous() {
    let mut host = Host::new();
    let mut chunk: SyncChunk<u32> = SyncChunk::new(Key::zero());
    assert_eq!(chunk.put(&mut host, 4, 100), None);
    assert_eq!(chunk.put(&mut host, 4, 200), Some(100));
    assert_eq!(chunk.get(&mut host, 4), Some(200));
    // Only the first put had to consult the host.
    assert_eq!(host.total_reads(), 1);
}

#[test]
fn sync_chunk_get_mut_marks_dirty() {
    let mut host = Host::new();
    let mut chunk: SyncChunk<u32> = SyncChunk::new(Key::zero());
    chunk.set(0, 1);
    chunk.flush(&mut host);
    let writes_after_first_flush = host.total_writes();
    {
        let slot = chunk.get_mut(&mut host, 0);
        assert_eq!(*slot, Some(1));
        *slot = Some(99);
    }
    chunk.flush(&mut host);
    assert_eq!(host.total_writes(), writes_after_first_flush + 1);
    assert_eq!(chunk.get(&mut host, 0), Some(99));
    let plain: TypedChunk<u32> = TypedChunk::new(Key::zero());
    assert_eq!(plain.load(&mut host, 0), Some(99));
}

#[test]
fn sync_chunk_flush_idempotent() {
    let mut host = Host::new();
    let mut chunk: SyncChunk<u32> = SyncChunk::new(Key::zero());
    chunk.set(0, 7);
    chunk.clear(9);
    chunk.flush(&mut host);
    let writes = host.total_writes();
    chunk.flush(&mut host);
    assert_eq!(host.total_writes(), writes);
}

#[test]
fn sync_chunk_lazy_load_reads_through() {
    // Values written through the plain chunk become visible to the cache
    // on its first read, and stay cached afterwards.
    let mut host = Host::new();
    let mut plain: TypedChunk<u32> = TypedChunk::new(Key::zero());
    plain.store(&mut host, 0, &123);
    let mut chunk: SyncChunk<u32> = SyncChunk::new(Key::zero());
    let reads_before = host.total_reads();
    assert_eq!(chunk.get(&mut host, 0), Some(123));
    assert_eq!(chunk.get(&mut host, 0), Some(123));
    assert_eq!(host.total_reads(), reads_before + 1);
}

#[test]
fn key_offsets_are_distinct() {
    let base = Key::zero();
    let k1 = base.offset(1);
    let k2 = base.offset(2);
    assert_ne!(k1, k2);
    assert_ne!(k1, base);
}

#[test]
fn key_offset_wraps_around() {
    let top = Key::new(u64::MAX, u64::MAX, u64::MAX, u64::MAX);
    assert_eq!(top.offset(1), Key::zero());
}

#[test]
fn cells_key_returns_base() {
    let base = Key::new(1, 2, 3, 4);
    let chunk: TypedChunk<u32> = TypedChunk::new(base);
    assert_eq!(chunk.cells_key(), base);
    let sync: SyncChunk<u32> = SyncChunk::new(base);
    assert_eq!(sync.cells_key(), base);
    let cell: TypedCell<i32> = TypedCell::new(base);
    assert_eq!(cell.raw_key(), base);
}

#[test]
fn sync_chunk_indices_use_disjoint_slots() {
    let mut host = Host::new();
    let mut chunk: SyncChunk<u32> = SyncChunk::new(Key::zero());
    chunk.set(0, 10);
    chunk.set(1, 11);
    chunk.set(5, 15);
    chunk.flush(&mut host);
    assert_eq!(host.total_writes(), 3);
    let plain: TypedChunk<u32> = TypedChunk::new(Key::zero());
    assert_eq!(plain.load(&mut host, 0), Some(10));
    assert_eq!(plain.load(&mut host, 1), Some(11));
    assert_eq!(plain.load(&mut host, 5), Some(15));
    assert_eq!(plain.load(&mut host, 2), None);
}

#[test]
fn chunk_slots_stay_distinct_across_wraparound() {
    // A chunk whose base key sits at the very top of the key space:
    // index 1 wraps around to the all-zero key, and the slots stay
    // disjoint.
    let top = Key::new(u64::MAX, u64::MAX, u64::MAX, u64::MAX);
    let mut host = Host::new();
    let mut chunk: TypedChunk<u32> = TypedChunk::new(top);
    chunk.store(&mut host, 0, &100);
    chunk.store(&mut host, 1, &101);
    assert_eq!(chunk.load(&mut host, 0), Some(100));
    assert_eq!(chunk.load(&mut host, 1), Some(101));
    let zero_cell: TypedCell<u32> = TypedCell::new(Key::zero());
    assert_eq!(zero_cell.load(&mut host), Some(101));
}
