use rivals_rwinner::chase::{displace, resolve, Chase, ChaseAction, MemoryImage, ResolutionError, MAX_ADDRESS};

const BASE: u64 = 0x0040_0000;

fn image(cells: &[(u64, u64)]) -> MemoryImage {
    let mut memory = MemoryImage::new();
    for (address, value) in cells {
        memory.store(*address, *value);
    }
    memory
}

#[test]
fn valid_chain_resolves_to_the_exact_address() {
    let memory = image(&[(0x0050_0000, 0x0060_0000), (0x0060_0010, 0x0070_0000), (0x0070_0048, 0x0080_0000)]);
    let outcome = resolve(&memory, BASE, 0x0050_0000, &[0x10, 0x48, -0x20]);
    assert_eq!(outcome, Ok(0x0080_0000 - 0x20));
}

#[test]
fn empty_chain_resolves_to_the_start() {
    let memory = MemoryImage::new();
    assert_eq!(resolve(&memory, BASE, 0x1234, &[]), Ok(0x1234));
    assert_eq!(resolve(&memory, BASE, 0, &[]), Ok(0));
}

#[test]
fn value_below_the_base_is_out_of_range() {
    let memory = image(&[(0x0050_0000, 0x0060_0000), (0x0060_0010, BASE - 1), (BASE - 1 + 8, 0x0070_0000)]);
    let outcome = resolve(&memory, BASE, 0x0050_0000, &[0x10, 8, 0]);
    assert_eq!(outcome, Err(ResolutionError::OutOfRange));
}

#[test]
fn value_above_the_greatest_address_is_out_of_range() {
    let memory = image(&[(0x0050_0000, MAX_ADDRESS + 1)]);
    assert_eq!(resolve(&memory, BASE, 0x0050_0000, &[0]), Err(ResolutionError::OutOfRange));
}

#[test]
fn bounds_of_the_range_are_accepted() {
    let memory = image(&[(0x0050_0000, BASE), (0x0050_0008, MAX_ADDRESS)]);
    assert_eq!(resolve(&memory, BASE, 0x0050_0000, &[4]), Ok(BASE + 4));
    assert_eq!(resolve(&memory, BASE, 0x0050_0008, &[-1]), Ok(MAX_ADDRESS - 1));
}

#[test]
fn unmapped_address_reads_as_zero() {
    let memory = MemoryImage::new();
    assert_eq!(memory.read(0x0050_0000), 0);
    assert_eq!(resolve(&memory, BASE, 0x0050_0000, &[0]), Err(ResolutionError::OutOfRange));
}

#[test]
fn null_start_fails_at_the_first_hop() {
    let memory = MemoryImage::new();
    assert_eq!(resolve(&memory, BASE, 0, &[8, 16]), Err(ResolutionError::NullPointer(0)));
}

#[test]
fn null_cursor_names_the_hop() {
    let memory = image(&[(0x0050_0000, 0x0060_0000)]);
    let outcome = resolve(&memory, BASE, 0x0050_0000, &[-0x0060_0000, 8]);
    assert_eq!(outcome, Err(ResolutionError::NullPointer(1)));
}

#[test]
fn later_store_replaces_earlier() {
    let mut memory = MemoryImage::new();
    memory.store(0x10, 1);
    memory.store(0x18, 2);
    memory.store(0x10, 3);
    assert_eq!(memory.read(0x10), 3);
    assert_eq!(memory.read(0x18), 2);
}

#[test]
fn displace_is_byte_arithmetic() {
    assert_eq!(displace(0x1000, 0x10), 0x1010);
    assert_eq!(displace(0x1000, -0x10), 0x0ff0);
    assert_eq!(displace(0x1000, 0), 0x1000);
    assert_eq!(displace(0, -1), u64::MAX);
    assert_eq!(displace(u64::MAX, 1), 0);
    assert_eq!(displace(0, i64::MIN), 0x8000_0000_0000_0000);
    assert_eq!(displace(5, i64::MAX), 5 + 0x7fff_ffff_ffff_ffff);
    assert_eq!(displace(0x1234, -0x34), 0x1234u64.wrapping_add_signed(-0x34));
}

#[test]
fn chase_steps_one_hop_at_a_time() {
    let chase = Chase::begin(0x0050_0000);
    assert_eq!(chase, Chase { cursor: 0x0050_0000, index: 0 });
    assert_eq!(chase.action(2), ChaseAction::Read(0x0050_0000));
    let next = chase.follow(0x0060_0000, 0x10, BASE).unwrap();
    assert_eq!(next, Chase { cursor: 0x0060_0010, index: 1 });
    assert_eq!(next.action(2), ChaseAction::Read(0x0060_0010));
    let last = next.follow(0x0070_0000, -8, BASE).unwrap();
    assert_eq!(last.action(2), ChaseAction::Resolved(0x0070_0000 - 8));
    assert_eq!(next.follow(BASE - 1, 0, BASE), Err(ResolutionError::OutOfRange));
    assert_eq!(Chase { cursor: 0, index: 1 }.action(2), ChaseAction::Failed(ResolutionError::NullPointer(1)));
    assert_eq!(Chase { cursor: 0, index: 2 }.action(2), ChaseAction::Resolved(0));
}
