use frame_inspector::walker::frame_record_at;
use frame_inspector::walker::try_walk;
use frame_inspector::walker::walk;
use frame_inspector::walker::FrameRecord;
use frame_inspector::walker::StackImage;

/// An image over `0x100..0x100 + 8 * words`, all words zero.
fn blank_image(words: usize) -> StackImage {
    StackImage {
        base: 0x100,
        words: vec![0u64; words],
    }
}

/// Stores `value` at address `addr` of the image.
fn poke(img: &mut StackImage, addr: u64, value: u64) {
    let idx = ((addr - img.base) / 8) as usize;
    img.words[idx] = value;
}

/// The three-frame chain: frames at 0x100, 0x200, 0x300 with return
/// addresses 0x1000, 0x2000, 0x3000, each saving the next frame pointer and
/// the last saving zero.
fn three_frame_image() -> StackImage {
    let mut img = blank_image(0x42);
    poke(&mut img, 0x100, 0x200);
    poke(&mut img, 0x108, 0x1000);
    poke(&mut img, 0x200, 0x300);
    poke(&mut img, 0x208, 0x2000);
    poke(&mut img, 0x300, 0);
    poke(&mut img, 0x308, 0x3000);
    img
}

#[test]
fn test_walk_three_linked_frames() {
    let img = three_frame_image();
    let records = walk(&img, 0x100, 10);
    assert_eq!(
        records,
        vec![
            FrameRecord {
                frame_pointer: 0x100,
                saved_frame_pointer: 0x200,
                return_address: 0x1000,
            },
            FrameRecord {
                frame_pointer: 0x200,
                saved_frame_pointer: 0x300,
                return_address: 0x2000,
            },
            FrameRecord {
                frame_pointer: 0x300,
                saved_frame_pointer: 0,
                return_address: 0x3000,
            },
        ]
    );
}

#[test]
fn test_walk_depth_zero_is_empty() {
    let img = three_frame_image();
    let records = walk(&img, 0x100, 0);
    assert!(records.is_empty());
}

#[test]
fn test_walk_never_exceeds_depth() {
    let img = three_frame_image();
    for depth in 0..6 {
        let records = walk(&img, 0x100, depth);
        assert!(records.len() <= depth);
    }
    assert_eq!(walk(&img, 0x100, 2).len(), 2);
}

#[test]
fn test_walk_stops_on_non_increasing_frame() {
    // The second hop saves the first hop's frame pointer: corruption, so
    // the walk yields exactly one record, not two — the corrupted record
    // stays out.
    let mut img = blank_image(0x40);
    poke(&mut img, 0x100, 0x200);
    poke(&mut img, 0x108, 0x1000);
    poke(&mut img, 0x200, 0x100);
    poke(&mut img, 0x208, 0x2000);
    let records = walk(&img, 0x100, 10);
    assert_eq!(
        records,
        vec![FrameRecord {
            frame_pointer: 0x100,
            saved_frame_pointer: 0x200,
            return_address: 0x1000,
        }]
    );
}

#[test]
fn test_walk_drops_corrupted_first_frame() {
    // A first frame that saves its own frame pointer is already corrupted:
    // nothing is emitted.
    let mut img = blank_image(8);
    poke(&mut img, 0x100, 0x100);
    poke(&mut img, 0x108, 0x1000);
    let records = walk(&img, 0x100, 10);
    assert!(records.is_empty());
}

#[test]
fn test_try_walk_rejects_hop_outside_image() {
    // The first frame points far beyond the image.
    let mut img = blank_image(8);
    poke(&mut img, 0x100, 0x4000);
    poke(&mut img, 0x108, 0x1000);
    assert!(try_walk(&img, 0x100, 10).is_none());
}

#[test]
fn test_try_walk_rejects_misaligned_start() {
    let img = three_frame_image();
    assert!(try_walk(&img, 0x104, 10).is_none());
}

#[test]
fn test_try_walk_accepts_full_chain() {
    let img = three_frame_image();
    let records = try_walk(&img, 0x100, 10).unwrap();
    assert_eq!(records.len(), 3);
    assert_eq!(records[2].return_address, 0x3000);
}

#[test]
fn test_frame_record_at_reads_both_words() {
    let img = three_frame_image();
    let rec = frame_record_at(&img, 0x200);
    assert_eq!(rec.frame_pointer, 0x200);
    assert_eq!(rec.saved_frame_pointer, 0x300);
    assert_eq!(rec.return_address, 0x2000);
}
