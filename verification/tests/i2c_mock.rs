use ht16k33::i2c_mock::{copy_from_wrapping_with_offset, copy_to_wrapping_with_offset, Operation};
use ht16k33::{I2cMock, ROWS_SIZE};

const ADDRESS: u8 = 0;

#[test]
fn new() {
    let _i2c_mock = I2cMock::new();
}

#[test]
fn write_no_offset() {
    let mut i2c_mock = I2cMock::new();

    let write_buffer = [0, 1u8, 1u8];
    i2c_mock.write(ADDRESS, &write_buffer).unwrap();

    for value in 0..i2c_mock.data_values.len() {
        match value {
            0 | 1 => assert_eq!(
                i2c_mock.data_values[value], 1,
                "index [{}] should be 1, found [{}]",
                value, i2c_mock.data_values[value]
            ),
            _ => assert_eq!(
                i2c_mock.data_values[value], 0,
                "index [{}] should be 0, found [{}]",
                value, i2c_mock.data_values[value]
            ),
        }
    }
}

#[test]
fn write_with_offset() {
    let mut i2c_mock = I2cMock::new();

    let offset = 4u8;
    let write_buffer = [offset, 1u8, 1u8];
    i2c_mock.write(ADDRESS, &write_buffer).unwrap();

    for value in 0..i2c_mock.data_values.len() {
        match value {
            4 | 5 => assert_eq!(
                i2c_mock.data_values[value], 1,
                "index [{}] should be 1, found [{}]",
                value, i2c_mock.data_values[value]
            ),
            _ => assert_eq!(
                i2c_mock.data_values[value], 0,
                "index [{}] should be 0, found [{}]",
                value, i2c_mock.data_values[value]
            ),
        }
    }
}

#[test]
fn write_with_wraparound() {
    let mut i2c_mock = I2cMock::new();

    // Match the data values size, +2 to wrap around, +1 for the data command.
    let mut write_buffer = [1u8; ROWS_SIZE + 3];
    write_buffer[0] = 0;

    // These values should wrap and end up at indexes 0 & 1.
    write_buffer[write_buffer.len() - 1] = 2;
    write_buffer[write_buffer.len() - 2] = 2;

    i2c_mock.write(ADDRESS, &write_buffer).unwrap();

    for value in 0..i2c_mock.data_values.len() {
        match value {
            0 | 1 => assert_eq!(
                i2c_mock.data_values[value], 2,
                "index [{}] should be 2, found [{}]",
                value, i2c_mock.data_values[value]
            ),
            _ => assert_eq!(
                i2c_mock.data_values[value], 1,
                "index [{}] should be 1, found [{}]",
                value, i2c_mock.data_values[value]
            ),
        }
    }
}

#[test]
fn write_with_wraparound_and_offset() {
    let mut i2c_mock = I2cMock::new();

    // Match the data values size, +2 to wrap around, +1 for the data command.
    let mut write_buffer = [1u8; ROWS_SIZE + 3];

    let offset = 4u8;
    write_buffer[0] = offset;

    // These values should wrap and end up at indexes 4 & 5.
    write_buffer[write_buffer.len() - 1] = 2;
    write_buffer[write_buffer.len() - 2] = 2;

    i2c_mock.write(ADDRESS, &write_buffer).unwrap();

    for value in 0..i2c_mock.data_values.len() {
        match value {
            4 | 5 => assert_eq!(
                i2c_mock.data_values[value], 2,
                "index [{}] should be 2, found [{}]",
                value, i2c_mock.data_values[value]
            ),
            _ => assert_eq!(
                i2c_mock.data_values[value], 1,
                "index [{}] should be 1, found [{}]",
                value, i2c_mock.data_values[value]
            ),
        }
    }
}

#[test]
fn write_read_no_offset() {
    let mut i2c_mock = I2cMock::new();

    i2c_mock.data_values[0] = 1;
    i2c_mock.data_values[1] = 1;

    let mut read_buffer = [0u8; ROWS_SIZE];
    i2c_mock
        .write_read(ADDRESS, &[0], &mut read_buffer)
        .unwrap();

    for value in 0..read_buffer.len() {
        match value {
            0 | 1 => assert_eq!(
                read_buffer[value], 1,
                "index [{}] should be 1, found [{}]",
                value, read_buffer[value]
            ),
            _ => assert_eq!(
                read_buffer[value], 0,
                "index [{}] should be 0, found [{}]",
                value, read_buffer[value]
            ),
        }
    }
}

#[test]
fn write_read_offset() {
    let mut i2c_mock = I2cMock::new();

    i2c_mock.data_values[2] = 1;
    i2c_mock.data_values[3] = 1;

    let mut read_buffer = [0u8; 4];

    let offset = 2u8;
    i2c_mock
        .write_read(ADDRESS, &[offset], &mut read_buffer)
        .unwrap();

    for value in 0..read_buffer.len() {
        match value {
            0 | 1 => assert_eq!(
                read_buffer[value], 1,
                "index [{}] should be 1, found [{}]",
                value, read_buffer[value]
            ),
            _ => assert_eq!(
                read_buffer[value], 0,
                "index [{}] should be 0, found [{}]",
                value, read_buffer[value]
            ),
        }
    }
}

#[test]
fn write_read_wraparound() {
    let mut i2c_mock = I2cMock::new();

    i2c_mock.data_values[2] = 1;
    i2c_mock.data_values[3] = 1;

    let mut read_buffer = [0u8; ROWS_SIZE + 4];

    i2c_mock
        .write_read(ADDRESS, &[0], &mut read_buffer)
        .unwrap();

    for value in 0..read_buffer.len() {
        match value {
            2 | 3 | 18 | 19 => assert_eq!(
                read_buffer[value], 1,
                "index [{}] should be 1, found [{}]",
                value, read_buffer[value]
            ),
            _ => assert_eq!(
                read_buffer[value], 0,
                "index [{}] should be 0, found [{}]",
                value, read_buffer[value]
            ),
        }
    }
}

#[test]
fn write_read_wraparound_and_offset() {
    let mut i2c_mock = I2cMock::new();

    i2c_mock.data_values[0] = 1;
    i2c_mock.data_values[1] = 1;

    let mut read_buffer = [0u8; ROWS_SIZE];

    let offset = 4u8;
    i2c_mock
        .write_read(ADDRESS, &[offset], &mut read_buffer)
        .unwrap();

    for value in 0..read_buffer.len() {
        match value {
            // The indexes will be 12/13 b/c the data values are at 1/2, but the read is offset
            // by 4, so the read buffer will wraparound to load those values.
            12 | 13 => assert_eq!(
                read_buffer[value], 1,
                "index [{}] should be 1, found [{}]",
                value, read_buffer[value]
            ),
            _ => assert_eq!(
                read_buffer[value], 0,
                "index [{}] should be 0, found [{}]",
                value, read_buffer[value]
            ),
        }
    }
}

#[test]
fn write_then_read_back_wrapping() {
    let mut i2c_mock = I2cMock::new();
    let data: Vec<u8> = (0..ROWS_SIZE as u8).map(|v| v + 10).collect();
    let mut command = vec![9u8];
    command.extend_from_slice(&data);
    i2c_mock.write(ADDRESS, &command).unwrap();
    assert_eq!(i2c_mock.data_values[9], 10);
    assert_eq!(i2c_mock.data_values[15], 16);
    assert_eq!(i2c_mock.data_values[0], 17);
    assert_eq!(i2c_mock.data_values[8], 25);

    let mut read_buffer = [0u8; ROWS_SIZE];
    i2c_mock.write_read(ADDRESS, &[9], &mut read_buffer).unwrap();
    assert_eq!(read_buffer.to_vec(), data);
}

#[test]
fn last_write_to_a_row_wins() {
    let mut i2c_mock = I2cMock::new();
    // 2 * ROWS_SIZE + 1 data bytes from row 3: every row is written twice, row 3 three times.
    let mut command = vec![3u8];
    for v in 0..(2 * ROWS_SIZE + 1) as u8 {
        command.push(v);
    }
    i2c_mock.write(ADDRESS, &command).unwrap();
    assert_eq!(i2c_mock.data_values[3], 32);
    assert_eq!(i2c_mock.data_values[4], 17);
    assert_eq!(i2c_mock.data_values[2], 31);
}

#[test]
fn setup_commands_leave_ram_unchanged() {
    let mut i2c_mock = I2cMock::new();
    i2c_mock.data_values[5] = 0xAB;
    let before = i2c_mock.data_values;
    for command in [0x21u8, 0x20, 0x81, 0x87, 0xE0, 0xEF] {
        i2c_mock.write(ADDRESS, &[command, 1, 2, 3]).unwrap();
        assert_eq!(i2c_mock.data_values, before);
    }
    let mut read_buffer = [7u8; 3];
    i2c_mock.write_read(ADDRESS, &[0x81], &mut read_buffer).unwrap();
    assert_eq!(read_buffer, [7u8; 3]);
}

#[test]
fn empty_write_does_nothing() {
    let mut i2c_mock = I2cMock::new();
    i2c_mock.write(ADDRESS, &[]).unwrap();
    assert_eq!(i2c_mock.data_values, [0u8; ROWS_SIZE]);
}

#[test]
fn transaction_skips_leading_empty_writes() {
    let mut i2c_mock = I2cMock::new();
    let mut operations = vec![
        Operation::Write(vec![]),
        Operation::Write(vec![14, 5, 6, 7]),
        Operation::Read(vec![0; 3]),
        Operation::Read(vec![0; 1]),
    ];
    i2c_mock.transaction(ADDRESS, &mut operations).unwrap();
    assert_eq!(i2c_mock.data_values[14], 5);
    assert_eq!(i2c_mock.data_values[15], 6);
    assert_eq!(i2c_mock.data_values[0], 7);
    match &operations[2] {
        Operation::Read(buffer) => assert_eq!(buffer, &vec![5, 6, 7]),
        Operation::Write(_) => panic!("the read stays a read"),
    }
    match &operations[3] {
        Operation::Read(buffer) => assert_eq!(buffer, &vec![5]),
        Operation::Write(_) => panic!("the read stays a read"),
    }
}

#[test]
fn transaction_of_empty_writes_only() {
    let mut i2c_mock = I2cMock::new();
    let mut operations = vec![Operation::Write(vec![]), Operation::Write(vec![])];
    i2c_mock.transaction(ADDRESS, &mut operations).unwrap();
    assert_eq!(i2c_mock.data_values, [0u8; ROWS_SIZE]);
}

#[test]
fn copy_helpers_wrap() {
    let mut dst = [0u8; 4];
    copy_to_wrapping_with_offset(&[1, 2, 3, 4, 5, 6], &mut dst, 2);
    assert_eq!(dst, [3, 4, 5, 6]);
    let mut dst = [9u8; 4];
    copy_to_wrapping_with_offset(&[1, 2], &mut dst, 4);
    assert_eq!(dst, [1, 2, 9, 9]);

    let mut out = [0u8; 6];
    copy_from_wrapping_with_offset(&mut out, &[1, 2, 3, 4], 3);
    assert_eq!(out, [4, 1, 2, 3, 4, 1]);
}

#[test]
fn address_has_no_influence() {
    let mut first = I2cMock::new();
    let mut second = I2cMock::new();
    first.write(0x70, &[2, 8, 9]).unwrap();
    second.write(0x00, &[2, 8, 9]).unwrap();
    assert_eq!(first.data_values, second.data_values);
    let (mut read1, mut read2) = ([0u8; 3], [0u8; 3]);
    first.write_read(0x11, &[1], &mut read1).unwrap();
    second.write_read(0x22, &[1], &mut read2).unwrap();
    assert_eq!(read1, read2);
    assert_eq!(read1, [0, 8, 9]);
}
