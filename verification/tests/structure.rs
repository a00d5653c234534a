use ckproof::document::structure::BlockLocation;

#[test]
fn block_location() {
    let mut location = BlockLocation::new();

    assert_eq!(
        location.next_block(),
        BlockLocation {
            block: 0,
            page: 0,
            chapter: 0,
            book: 0,

            serial: 0,
        }
    );

    location.next_page();
    assert_eq!(
        location.next_block(),
        BlockLocation {
            block: 0,
            page: 1,
            chapter: 0,
            book: 0,

            serial: 1,
        }
    );

    location.next_chapter();
    location.next_page();
    assert_eq!(
        location.next_block(),
        BlockLocation {
            block: 0,
            page: 1,
            chapter: 1,
            book: 0,

            serial: 2,
        }
    );

    location.next_book();
    location.next_chapter();
    location.next_page();
    assert_eq!(
        location.next_block(),
        BlockLocation {
            block: 0,
            page: 1,
            chapter: 1,
            book: 1,

            serial: 3,
        }
    );
}

#[test]
fn block_location_getters() {
    let mut location = BlockLocation::new();
    location.next_block();
    location.next_block();
    location.next_page();
    location.next_block();

    assert_eq!(location.block(), 1);
    assert_eq!(location.page(), 1);
    assert_eq!(location.chapter(), 0);
    assert_eq!(location.book(), 0);
    assert_eq!(location.serial(), 3);
}

#[test]
fn block_location_serial_survives_moves() {
    let mut location = BlockLocation::new();
    location.next_block();
    location.next_book();
    assert_eq!(location.serial(), 1);
    assert_eq!(location.block(), 0);
    assert_eq!(location.book(), 1);
}

#[test]
fn serial_counts_blocks_and_block_counts_since_page() {
    let mut loc = BlockLocation::new();
    let first = loc.next_block();
    let second = loc.next_block();
    loc.next_page();
    let third = loc.next_block();
    loc.next_chapter();
    loc.next_book();
    let fourth = loc.next_block();
    assert_eq!((first.serial(), second.serial(), third.serial(), fourth.serial()), (0, 1, 2, 3));
    assert_eq!(loc.serial(), 4);
    assert_eq!(loc.block(), 1);
    assert_eq!(third.block(), 0);
}
