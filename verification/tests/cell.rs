use seqlock::Seqlock;

/// Drives one writer and a reader over a cell of `N`-word payloads: every
/// published payload has all words set to the same counter value, so a copy
/// that ever mixed two writes would contain two different words.
fn read_test<const N: usize>() {
    let mut lock = Seqlock::new([0usize; N]);
    let mut msg = [0usize; N];
    let mut count: usize = 0;
    for _ in 0..1000 {
        let payload = [count; N];
        lock.write(&payload);
        count = count.wrapping_add(1);
        lock.read(&mut msg);
        let first = msg[0];
        for word in msg {
            assert_eq!(first, word);
        }
    }
}

#[test]
fn read_1() {
    read_test::<1>()
}

#[test]
fn read_16() {
    read_test::<16>()
}

#[test]
fn read_32() {
    read_test::<32>()
}

#[test]
fn read_64() {
    read_test::<64>()
}

#[test]
fn read_128() {
    read_test::<128>()
}

#[test]
fn read_256() {
    read_test::<256>()
}

#[test]
fn read_512() {
    read_test::<512>()
}

#[test]
fn initial_state() {
    let lock = Seqlock::new([7u64; 4]);
    assert_eq!(lock.version(), 0);
    let mut out = [0u64; 4];
    lock.read(&mut out);
    assert_eq!(out, [7u64; 4]);
}

#[test]
fn version_advances_by_two_per_write() {
    let mut lock = Seqlock::new(0u32);
    for i in 0..10u32 {
        assert_eq!(lock.version(), 2 * i as usize);
        lock.write(&(i + 1));
    }
    assert_eq!(lock.version(), 20);
    let mut out = 0u32;
    lock.read(&mut out);
    assert_eq!(out, 10);
}

#[test]
fn observed_version_is_even() {
    let mut lock = Seqlock::new([0u8; 16]);
    let mut out = [0u8; 16];
    for i in 0..50u8 {
        lock.read(&mut out);
        assert_eq!(lock.version() % 2, 0);
        lock.write(&[i; 16]);
        assert_eq!(lock.version() % 2, 0);
    }
}

#[test]
fn counter_scenario_8() {
    let mut lock = Seqlock::new([0u64; 8]);
    let mut out = [0u64; 8];
    for counter in 0..100u64 {
        lock.write(&[counter; 8]);
        lock.read(&mut out);
        for word in out {
            assert_eq!(word, counter);
        }
    }
}

#[test]
fn read_leaves_cell_unchanged() {
    let lock = Seqlock::new(41i16);
    let mut a = 0i16;
    let mut b = 0i16;
    lock.read(&mut a);
    lock.read(&mut b);
    assert_eq!(a, 41);
    assert_eq!(b, 41);
    assert_eq!(lock.version(), 0);
}
