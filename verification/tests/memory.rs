use riscv64_emulator::dram::{Dram, LoadProgress};
use riscv64_emulator::mrom::Mrom;

#[test]
fn new_dram_is_zero() {
    let d = Dram::new(8192).unwrap();
    assert_eq!(d.size(), 8192);
    assert_eq!(d.read64(0), Ok(0));
    assert_eq!(d.read64(8184), Ok(0));
}

#[test]
fn dram_of_size_zero_is_refused() {
    assert!(Dram::new(0).is_err());
}

#[test]
fn dram_of_a_mapping() {
    let mut m = mmap_rs::MmapOptions::new(4096).unwrap().map_mut().unwrap();
    m.as_mut_slice()[8] = 0x5A;
    let d = Dram::from_mapping(Ok(m)).unwrap();
    assert_eq!(d.size(), 4096);
    assert_eq!(d.read8(8), Ok(0x5A));
    assert_eq!(d.read8(9), Ok(0));
    match Dram::from_mapping(Err(mmap_rs::Error::InvalidOffset)) {
        Err(e) => assert!(matches!(e.reason, mmap_rs::Error::InvalidOffset)),
        Ok(_) => panic!("no mapping, no memory"),
    }
    match Dram::new(0) {
        Err(e) => assert!(matches!(e.reason, mmap_rs::Error::InvalidSize)),
        Ok(_) => panic!("no memory of size zero"),
    }
}

#[test]
fn dram_is_little_endian() {
    let mut d = Dram::new(4096).unwrap();
    d.write64(16, 0x1122_3344_5566_7788).unwrap();
    assert_eq!(d.read8(16), Ok(0x88));
    assert_eq!(d.read8(23), Ok(0x11));
    assert_eq!(d.read16(16), Ok(0x7788));
    assert_eq!(d.read32(20), Ok(0x1122_3344));
    assert_eq!(d.read64(16), Ok(0x1122_3344_5566_7788));
    d.write32(17, 0xAABB_CCDD).unwrap();
    assert_eq!(d.read64(16), Ok(0x1122_33AA_BBCC_DD88));
    d.write16(22, 0xEEFF).unwrap();
    assert_eq!(d.read64(16), Ok(0xEEFF_33AA_BBCC_DD88));
    d.write8(16, 0x01).unwrap();
    assert_eq!(d.read64(16), Ok(0xEEFF_33AA_BBCC_DD01));
    assert_eq!(d.read64(24), Ok(0));
    assert_eq!(d.read64(8), Ok(0));
}

#[test]
fn dram_bounds() {
    let mut d = Dram::new(4096).unwrap();
    assert_eq!(d.read64(4089), Err("DRAM 读取64：地址超出范围"));
    assert_eq!(d.read32(4093), Err("DRAM 读取32：地址超出范围"));
    assert_eq!(d.read16(4095), Err("DRAM 读取16：地址超出范围"));
    assert_eq!(d.read8(4096), Err("DRAM 读取8：地址超出范围"));
    assert_eq!(d.write64(u64::MAX, 1), Err("DRAM 写入64：地址超出范围"));
    assert_eq!(d.write32(4093, 1), Err("DRAM 写入32：地址超出范围"));
    assert_eq!(d.write16(4095, 1), Err("DRAM 写入16：地址超出范围"));
    assert_eq!(d.write8(4096, 1), Err("DRAM 写入8：地址超出范围"));
    assert_eq!(d.write64(4088, 7), Ok(()));
    assert_eq!(d.write8(4095, 9), Ok(()));
    assert_eq!(d.read8(4095), Ok(9));
}

#[test]
fn dram_load() {
    let mut d = Dram::new(4096).unwrap();
    d.load(4092, &[1, 2, 3, 4]).unwrap();
    assert_eq!(d.read32(4092), Ok(0x0403_0201));
    assert_eq!(d.load(4093, &[9, 9, 9, 9]), Err("DRAM 加载：数据超出内存范围"));
    assert_eq!(d.load(usize::MAX, &[9, 9]), Err("DRAM 加载：数据超出内存范围"));
    assert_eq!(d.read32(4092), Ok(0x0403_0201));
}

#[test]
fn dram_load_in_chunks() {
    let mut d = Dram::new(4096).unwrap();
    let half = vec![0x5Au8; 2048];
    assert_eq!(d.load_from_reader(0, &half), LoadProgress::More(2048));
    assert_eq!(
        d.load_from_reader(2048, &[]),
        LoadProgress::Short { expected: 4096, actual: 2048 }
    );
    assert_eq!(d.load_from_reader(2048, &half), LoadProgress::Done);
    assert_eq!(d.read64(4088), Ok(0x5A5A_5A5A_5A5A_5A5A));
}

#[test]
fn mrom_reads_what_was_loaded() {
    let mut m = Mrom::new(16).unwrap();
    assert_eq!(m.size(), 16);
    assert_eq!(m.read64(8), Ok(0));
    m.load(4, &[1, 2, 3, 4, 5, 6, 7, 8]).unwrap();
    assert_eq!(m.read8(4), Ok(1));
    assert_eq!(m.read16(5), Ok(0x0302));
    assert_eq!(m.read32(6), Ok(0x0605_0403));
    assert_eq!(m.read64(4), Ok(0x0807_0605_0403_0201));
}

#[test]
fn mrom_bounds() {
    let mut m = Mrom::new(16).unwrap();
    assert_eq!(m.read64(9), Err("MROM 读取64：地址超出范围"));
    assert_eq!(m.read32(13), Err("MROM 读取32：地址超出范围"));
    assert_eq!(m.read16(15), Err("MROM 读取16：地址超出范围"));
    assert_eq!(m.read8(16), Err("MROM 读取8：地址超出范围"));
    assert_eq!(m.read64(u64::MAX), Err("MROM 读取64：地址超出范围"));
    assert_eq!(m.load(9, &[0; 8]), Err("MROM 加载：数据超出内存范围"));
    assert_eq!(m.load(8, &[0; 8]), Ok(()));
}
