use hookpatch::hook::writer::HookWriteReason;
use hookpatch::hook::{HookExtraPos, HookWriter, WriterError};

#[test]
fn writer_test_read() {
    let writer = HookWriter::new(
        0x1000,
        vec![0x00, 0x01, 0x02, 0x03, 0x04, 0x05, 0x06, 0x07, 0x08],
    );

    assert_eq!(writer.read::<1>(0x1000).unwrap(), [0x00]);
    assert_eq!(writer.read::<2>(0x1000).unwrap(), [0x00, 0x01]);
    assert_eq!(writer.read::<4>(0x1000).unwrap(), [0x00, 0x01, 0x02, 0x03]);

    assert_eq!(0x00, u8::from_le_bytes(writer.read(0x1000).unwrap()));
    assert_eq!(0x0100, u16::from_le_bytes(writer.read(0x1000).unwrap()));
    assert_eq!(0x03020100, u32::from_le_bytes(writer.read(0x1000).unwrap()));

    assert_eq!(writer.read::<1>(0x1001).unwrap(), [0x01]);
    assert_eq!(writer.read::<4>(0x1005).unwrap(), [0x05, 0x06, 0x07, 0x08]);

    assert_eq!(
        writer.read::<1>(0x0FFF).unwrap_err(),
        WriterError::OutOfBoundsRead(0x0FFF, 1)
    );
    assert_eq!(
        writer.read::<2>(0x0FFF).unwrap_err(),
        WriterError::OutOfBoundsRead(0x0FFF, 2)
    );
    assert_eq!(
        writer.read::<1>(0x1009).unwrap_err(),
        WriterError::OutOfBoundsRead(0x1009, 1)
    );
    assert_eq!(
        writer.read::<2>(0x1008).unwrap_err(),
        WriterError::OutOfBoundsRead(0x1008, 2)
    );
    assert_eq!(
        writer.read::<11>(0x0FFF).unwrap_err(),
        WriterError::OutOfBoundsRead(0x0FFF, 11)
    );
}

#[test]
fn test_write() {
    // Every write that goes through is recorded, so each of the four that
    // share bytes starts from an image of its own.
    let mut writer = HookWriter::new(0x1000, vec![0x00; 4]);

    writer.write(0x1000, &[0x01]).unwrap();
    assert_eq!(writer.read::<1>(0x1000).unwrap(), [0x01]);

    let mut writer = HookWriter::new(0x1000, vec![0x00; 4]);
    writer.write(0x1000, &[0x02, 0x03]).unwrap();
    assert_eq!(writer.read::<2>(0x1000).unwrap(), [0x02, 0x03]);

    let mut writer = HookWriter::new(0x1000, vec![0x00; 4]);
    writer.write(0x1000, &[0x04, 0x05, 0x06, 0x07]).unwrap();
    assert_eq!(writer.read::<4>(0x1000).unwrap(), [0x04, 0x05, 0x06, 0x07]);

    let mut writer = HookWriter::new(0x1000, vec![0x00; 4]);
    writer.write(0x1001, &[0x08, 0x09]).unwrap();
    assert_eq!(writer.read::<2>(0x1001).unwrap(), [0x08, 0x09]);

    assert_eq!(
        writer.write(0x0FFF, &[0x01]).unwrap_err(),
        WriterError::OutOfBoundsWrite(0x0FFF, 1)
    );

    assert_eq!(
        writer.write(0x0FFF, &[0x01, 0x02]).unwrap_err(),
        WriterError::OutOfBoundsWrite(0x0FFF, 2)
    );

    assert_eq!(
        writer.write(0x1004, &[0x01]).unwrap_err(),
        WriterError::OutOfBoundsWrite(0x1004, 1)
    );

    assert_eq!(
        writer.write(0x1003, &[0x01, 0x02]).unwrap_err(),
        WriterError::OutOfBoundsWrite(0x1003, 2)
    );

    assert_eq!(
        writer
            .write(0x1000, &[0x01, 0x02, 0x03, 0x04, 0x05, 0x06])
            .unwrap_err(),
        WriterError::OutOfBoundsWrite(0x1000, 6)
    );
}

#[test]
fn test_duplicate_write() {
    let mut writer = HookWriter::new(0x1000, vec![0x00; 4]);
    writer.write(0x1001, &[0x01; 2]).unwrap();

    assert_eq!(
        writer.write(0x1001, &[0x01]).unwrap_err(),
        WriterError::DuplicateWrite(0x1001, 1)
    );

    assert_eq!(
        writer.write(0x1002, &[0x01]).unwrap_err(),
        WriterError::DuplicateWrite(0x1002, 1)
    );

    assert_eq!(
        writer.write(0x1001, &[0x01, 0x02]).unwrap_err(),
        WriterError::DuplicateWrite(0x1001, 2)
    );

    assert_eq!(
        writer.write(0x1000, &[0x01, 0x02]).unwrap_err(),
        WriterError::DuplicateWrite(0x1000, 2)
    );
}

#[test]
fn test_write_end() {
    let mut writer = HookWriter::new(0x1000, vec![0x00; 4]);
    writer.write_end(&[0x01]).unwrap();
    assert_eq!(
        writer.read::<5>(0x1000).unwrap(),
        [0x00, 0x00, 0x00, 0x00, 0x01]
    );
}

#[test]
fn test_write_extra() {
    let mut writer = HookWriter::new(0x1000, vec![0x00; 0x6]);

    assert_eq!(
        writer
            .write_extra(HookExtraPos::Loader, |_, w| {
                w.write_end(&[0x01]).unwrap();
            })
            .unwrap_err(),
        WriterError::LoaderExtraAddressNotSet
    );

    writer.set_loader_extra_address(0x1002);
    writer
        .write_extra(HookExtraPos::Loader, |_, w| {
            w.write_end(&[0x01, 0x02]).unwrap();
        })
        .unwrap();
    assert_eq!(
        writer.read::<6>(0x1000).unwrap(),
        [0x00, 0x00, 0x01, 0x02, 0x00, 0x00]
    );

    writer
        .write_extra(HookExtraPos::Tail, |_, w| {
            w.write_end(&[0x03, 0x04]).unwrap();
        })
        .unwrap();
    assert_eq!(
        writer.read::<8>(0x1000).unwrap(),
        [0x00, 0x00, 0x01, 0x02, 0x00, 0x00, 0x03, 0x04]
    );
}

#[test]
fn test_resize_until() {
    let mut writer = HookWriter::new(0x1000, vec![0xAA; 4]);

    writer.resize_until(0x1008).unwrap();
    assert_eq!(
        writer.read::<8>(0x1000).unwrap(),
        [0xAA, 0xAA, 0xAA, 0xAA, 0x00, 0x00, 0x00, 0x00]
    );
    assert_eq!(
        writer.read::<1>(0x0FFF).unwrap_err(),
        WriterError::OutOfBoundsRead(0x0FFF, 1)
    );
    assert_eq!(
        writer.read::<1>(0x1008).unwrap_err(),
        WriterError::OutOfBoundsRead(0x1008, 1)
    );

    writer.resize_until(0x1004).unwrap();
    assert_eq!(writer.read::<4>(0x1000).unwrap(), [0xAA; 4]);
    assert_eq!(
        writer.read::<1>(0x0FFF).unwrap_err(),
        WriterError::OutOfBoundsRead(0x0FFF, 1)
    );
    assert_eq!(
        writer.read::<1>(0x1004).unwrap_err(),
        WriterError::OutOfBoundsRead(0x1004, 1)
    );

    assert_eq!(
        writer.resize_until(0x0FFF).unwrap_err(),
        WriterError::ResizeBelowBaseAddress(0x0FFF)
    );
    assert_eq!(writer.read::<4>(0x1000).unwrap(), [0xAA; 4]);
}

#[test]
fn duplicate_write_scenario() {
    let mut writer = HookWriter::new(0x1000, vec![0x00; 4]);
    assert_eq!(writer.write(0x1001, &[0, 0]), Ok(()));
    assert_eq!(
        writer.write(0x1002, &[0]),
        Err(WriterError::DuplicateWrite(0x1002, 1))
    );
    assert_eq!(
        writer.write(0x1000, &[0, 0]),
        Err(WriterError::DuplicateWrite(0x1000, 2))
    );
    // The bytes on either side are still free.
    assert_eq!(writer.write(0x1000, &[7]), Ok(()));
    assert_eq!(writer.write(0x1003, &[9]), Ok(()));
    assert_eq!(writer.data(), &[7, 0, 0, 9]);
    assert_eq!(
        writer.write(0x1000, &[1, 2, 3, 4]),
        Err(WriterError::DuplicateWrite(0x1000, 4))
    );
}

#[test]
fn a_refused_write_changes_nothing() {
    let mut writer = HookWriter::new(0x2000, vec![1, 2, 3, 4]);
    writer.write(0x2002, &[9]).unwrap();
    assert!(writer.write(0x2001, &[7, 7]).is_err());
    assert!(writer.write(0x2003, &[7, 7]).is_err());
    assert_eq!(writer.data(), &[1, 2, 9, 4]);
    // Neither refused write was recorded.
    assert_eq!(writer.write(0x2001, &[5]), Ok(()));
    assert_eq!(writer.write(0x2003, &[6]), Ok(()));
    assert_eq!(writer.data(), &[1, 5, 9, 6]);
}

#[test]
fn found_duplicate_has_a_reason() {
    let mut writer = HookWriter::new(0x1000, vec![0x00; 16]);
    assert_eq!(writer.find_duplicate_write(0x1000, 16), None);
    assert_eq!(HookWriteReason::Misc.clone(), HookWriteReason::Misc);
    writer.write(0x1004, &[1, 2, 3, 4]).unwrap();
    writer.write(0x100C, &[1, 2]).unwrap();
    assert_eq!(
        writer.find_duplicate_write(0x1007, 1),
        Some(&HookWriteReason::Misc)
    );
    assert_eq!(writer.find_duplicate_write(0x1008, 4), None);
    assert_eq!(writer.find_duplicate_write(0x1000, 4), None);
    assert_eq!(
        writer.find_duplicate_write(0x1000, 5),
        Some(&HookWriteReason::Misc)
    );
    assert_eq!(
        writer.find_duplicate_write(0x1008, 5),
        Some(&HookWriteReason::Misc)
    );
    assert_eq!(writer.find_duplicate_write(0x100E, 2), None);
    assert_eq!(
        writer.find_duplicate_write(0, u32::MAX),
        Some(&HookWriteReason::Misc)
    );
}

#[test]
fn addresses_and_data() {
    let mut writer = HookWriter::new(0x100000, vec![1, 2, 3]);
    assert_eq!(writer.base_address(), 0x100000);
    assert_eq!(writer.end_address(), 0x100003);
    assert_eq!(writer.data(), &[1, 2, 3]);
    writer.write_end(&[4, 5]).unwrap();
    assert_eq!(writer.end_address(), 0x100005);
    // Appended bytes have not been written in the sense of the ledger.
    writer.write(0x100003, &[8, 9]).unwrap();
    assert_eq!(writer.data(), &[1, 2, 3, 8, 9]);
    writer.write_end(&[]).unwrap();
    assert_eq!(writer.end_address(), 0x100005);
    let empty = HookWriter::new(7, Vec::new());
    assert_eq!(empty.base_address(), 7);
    assert_eq!(empty.end_address(), 7);
    assert_eq!(empty.read::<0>(7), Ok([]));
    assert_eq!(empty.read::<1>(7), Err(WriterError::OutOfBoundsRead(7, 1)));
}

#[test]
fn read_into_a_buffer() {
    let writer = HookWriter::new(0x10, vec![1, 2, 3, 4, 5]);
    let mut buffer = [0u8; 3];
    assert_eq!(writer.read_mut(0x11, &mut buffer), Ok(()));
    assert_eq!(buffer, [2, 3, 4]);
    assert_eq!(
        writer.read_mut(0x13, &mut buffer),
        Err(WriterError::OutOfBoundsRead(0x13, 3))
    );
    assert_eq!(buffer, [2, 3, 4]);
    assert_eq!(writer.read_mut(0x12, &mut buffer), Ok(()));
    assert_eq!(buffer, [3, 4, 5]);
}

#[test]
fn resize_then_read_last_byte() {
    for until in [0x1000u32, 0x1001, 0x1004, 0x1010] {
        let mut writer = HookWriter::new(0x1000, vec![0xAA; 4]);
        writer.resize_until(until).unwrap();
        assert_eq!(writer.end_address(), until);
        assert_eq!(writer.read::<1>(until - 1).is_ok(), until > 0x1000);
        assert!(writer.read::<1>(until).is_err());
    }
}

#[test]
fn loader_arena_moves_its_cursor() {
    let mut writer = HookWriter::new(0x1000, vec![0x00; 8]);
    writer.set_loader_extra_address(0x1002);
    writer
        .write_extra(HookExtraPos::Loader, |outer, nested| {
            assert_eq!(nested.base_address(), 0x1002);
            assert_eq!(nested.end_address(), 0x1002);
            assert_eq!(outer.base_address(), 0x1000);
            nested.write_end(&[1, 2]).unwrap();
        })
        .unwrap();
    writer
        .write_extra(HookExtraPos::Loader, |_, nested| {
            assert_eq!(nested.base_address(), 0x1004);
            nested.write_end(&[3]).unwrap();
        })
        .unwrap();
    assert_eq!(writer.data(), &[0, 0, 1, 2, 3, 0, 0, 0]);
    // What the arena holds counts as written.
    assert_eq!(
        writer.write(0x1003, &[9]),
        Err(WriterError::DuplicateWrite(0x1003, 1))
    );
    // An arena that runs out of the image is refused, and the cursor stays.
    assert_eq!(
        writer.write_extra(HookExtraPos::Loader, |_, nested| {
            nested.write_end(&[0; 4]).unwrap();
        }),
        Err(WriterError::OutOfBoundsWrite(0x1005, 4))
    );
    writer
        .write_extra(HookExtraPos::Loader, |_, nested| {
            nested.write_end(&[4, 5, 6]).unwrap();
        })
        .unwrap();
    assert_eq!(writer.data(), &[0, 0, 1, 2, 3, 4, 5, 6]);
}

#[test]
fn tail_arena_starts_at_the_end() {
    let mut writer = HookWriter::new(0x1000, vec![0x00; 2]);
    writer
        .write_extra(HookExtraPos::Tail, |outer, nested| {
            assert_eq!(nested.base_address(), 0x1002);
            outer.write(0x1000, &[7]).unwrap();
            nested.write_end(&[1, 2, 3]).unwrap();
        })
        .unwrap();
    assert_eq!(writer.data(), &[7, 0, 1, 2, 3]);
    assert_eq!(writer.end_address(), 0x1005);
    assert_eq!(
        writer.commit_extra(HookExtraPos::Tail, 0x1005, &[4]),
        Ok(())
    );
    assert_eq!(
        writer.commit_extra(HookExtraPos::Loader, 0x1000, &[4]),
        Err(WriterError::DuplicateWrite(0x1000, 1))
    );
    assert_eq!(
        writer.commit_extra(HookExtraPos::Loader, 0x1001, &[5]),
        Ok(())
    );
    assert_eq!(writer.data(), &[7, 5, 1, 2, 3, 4]);
}
