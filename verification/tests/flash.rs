use riscv64_emulator::flash::Flash;

#[test]
fn test_cfi_query_x32() {
    let mut flash = Flash::new(32 * 1024 * 1024);

    flash.write(0x55 * 4, 0x98, 1).unwrap();

    assert_eq!(flash.read32(0x10 * 4).unwrap() as u8, b'Q');
    assert_eq!(flash.read32(0x11 * 4).unwrap() as u8, b'R');
    assert_eq!(flash.read32(0x12 * 4).unwrap() as u8, b'Y');

    // 2^25 bytes.
    assert_eq!(flash.read32(0x27 * 4).unwrap() as u8, 0x19);

    flash.write(0x00, 0xFF, 1).unwrap();
}

#[test]
fn the_query_table_is_one_geometry() {
    let mut flash = Flash::new(1024);
    flash.write8(0, 0x98).unwrap();
    let g: Vec<u64> = (0..0x100).map(|i| flash.read8(4 * i).unwrap() as u64).collect();
    let blocks = (g[0x2E] << 8 | g[0x2D]) + 1;
    let block_size = (g[0x30] << 8 | g[0x2F]) * 256;
    assert_eq!(g[0x2C], 1);
    assert_eq!((blocks, block_size), (128, 256 * 1024));
    assert_eq!(blocks * block_size, 1 << g[0x27]);
    assert_eq!(blocks * block_size, 32 * 1024 * 1024);
    assert!(g[..0x10].iter().all(|b| *b == 0));
    assert!(g[0x31..].iter().all(|b| *b == 0));
}

#[test]
fn test_read_id_x32() {
    let mut flash = Flash::new(32 * 1024 * 1024);

    flash.write(0x00, 0x90, 1).unwrap();

    assert_eq!(flash.read32(0x00).unwrap() as u8, 0x89);
    assert_eq!(flash.read32(0x04).unwrap() as u8, 0x18);

    flash.write(0x00, 0xFF, 1).unwrap();
}

#[test]
fn test_read_array() {
    let mut flash = Flash::new(1024);

    let data = vec![0x12, 0x34, 0x56, 0x78];
    flash.load(0, &data).unwrap();

    assert_eq!(flash.read8(0).unwrap(), 0x12);
    assert_eq!(flash.read8(1).unwrap(), 0x34);
    assert_eq!(flash.read16(0).unwrap(), 0x3412);
    assert_eq!(flash.read32(0).unwrap(), 0x78563412);
}

#[test]
fn erased_flash_reads_ones() {
    let mut flash = Flash::new(16);
    assert_eq!(flash.read64(0).unwrap(), u64::MAX);
    assert_eq!(flash.read8(15).unwrap(), 0xFF);
}

#[test]
fn reads_behind_the_array() {
    let mut flash = Flash::new(16);
    flash.load(0, &[0u8; 16]).unwrap();
    assert_eq!(flash.read32(16).unwrap(), 0xFFFF_FFFF);
    assert_eq!(flash.read64(1 << 40).unwrap(), u64::MAX);
    assert_eq!(flash.read32(14), Err("Flash 读取越界"));
    assert_eq!(flash.read64(9), Err("Flash 读取越界"));
    assert_eq!(flash.read64(8).unwrap(), 0);
}

#[test]
fn load_error_names_the_numbers() {
    let mut flash = Flash::new(1024);
    let e = flash.load(1020, &[1, 2, 3, 4, 5]).unwrap_err();
    assert_eq!(e, "Flash 加载越界：offset=1020, len=5, flash_size=1024");
    assert_eq!(flash.read8(1020).unwrap(), 0xFF);
    assert!(flash.load(1020, &[1, 2, 3, 4]).is_ok());
    assert_eq!(flash.read32(1020).unwrap(), 0x04030201);
}

#[test]
fn load_error_with_zero() {
    let mut flash = Flash::new(0);
    let e = flash.load(0, &[1]).unwrap_err();
    assert_eq!(e, "Flash 加载越界：offset=0, len=1, flash_size=0");
}

#[test]
fn commands_do_not_change_the_array() {
    let mut flash = Flash::new(64);
    flash.load(0, &[0xA5, 0x5A]).unwrap();
    for cmd in [0x10u64, 0x40, 0x20, 0xD0, 0x98, 0x90, 0x33, 0xF0] {
        flash.write64(0, cmd).unwrap();
    }
    assert_eq!(flash.read16(0).unwrap(), 0x5AA5);
}

#[test]
fn table_bytes_on_the_lanes() {
    let mut flash = Flash::new(64);
    flash.write32(0, 0x98).unwrap();
    assert_eq!(flash.read32(0x40).unwrap(), 0x5151_5151);
    assert_eq!(flash.read16(0x40).unwrap(), 0x51);
    assert_eq!(flash.read8(0x43).unwrap(), 0x51);
    assert_eq!(flash.read64(0x44).unwrap(), 0x52);
    assert_eq!(flash.read32(0x2D * 4).unwrap(), 0x7F7F_7F7F);
    assert_eq!(flash.read32(0x30 * 4).unwrap() & 0xFF, 4);
    assert_eq!(flash.read32(0x31 * 4).unwrap(), 0);
    flash.write16(0, 0x1290).unwrap();
    assert_eq!(flash.read8(0).unwrap(), 0x89);
    assert_eq!(flash.read8(8).unwrap(), 0);
    assert_eq!(flash.read8(12).unwrap(), 0xFF);
    flash.write8(0, 0xFF).unwrap();
    assert_eq!(flash.read8(0).unwrap(), 0xFF);
}

#[test]
fn the_query_table_by_logical_address() {
    let f = Flash::new(0);
    let row = |at: u64| f.get_cfi_byte(at);
    assert_eq!((row(0x10), row(0x11), row(0x12)), (b'Q', b'R', b'Y'));
    assert_eq!((row(0x13), row(0x1B), row(0x1C), row(0x1F)), (0x01, 0x27, 0x36, 0x09));
    assert_eq!((row(0x21), row(0x23), row(0x25), row(0x27)), (0x0A, 0x04, 0x04, 0x19));
    assert_eq!((row(0x28), row(0x2C), row(0x0F), row(u64::MAX)), (0x02, 0x01, 0x00, 0x00));
}
