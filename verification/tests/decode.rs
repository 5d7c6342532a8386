use riscv64_emulator::cpu::decode;

/// Pseudo-random instruction words.
fn words() -> Vec<u32> {
    let mut out = vec![0, u32::MAX, 0x8000_0000, 0x7FFF_FFFF, 0x80, 0x100, 0xFFF0_0000];
    let mut x = 0x1234_5678u32;
    for _ in 0..20000 {
        x ^= x << 13;
        x ^= x >> 17;
        x ^= x << 5;
        out.push(x);
    }
    for i in 0..32 {
        out.push(1 << i);
        out.push(!(1 << i));
    }
    out
}

fn sx(v: u32, bits: u32) -> u64 {
    (((v << (32 - bits)) as i32) >> (32 - bits)) as i64 as u64
}

#[test]
fn fields_of_words() {
    for w in words() {
        assert_eq!(decode::opcode(w), w & 0x7F);
        assert_eq!(decode::rd(w), (w >> 7 & 0x1F) as usize);
        assert_eq!(decode::rs1(w), (w >> 15 & 0x1F) as usize);
        assert_eq!(decode::rs2(w), (w >> 20 & 0x1F) as usize);
        assert_eq!(decode::rs3(w), (w >> 27 & 0x1F) as usize);
        assert_eq!(decode::funct3(w), w >> 12 & 7);
        assert_eq!(decode::funct7(w), w >> 25);
        assert_eq!(decode::imm12(w), w >> 20);
        assert_eq!(decode::csr_address(w), (w >> 20) as u16);
    }
}

#[test]
fn immediates_of_words() {
    for w in words() {
        assert_eq!(decode::imm_i(w), ((w as i32) >> 20) as i64 as u64);
        let s = ((w & 0xFE00_0000) as i32 >> 20) as i64 | (w >> 7 & 0x1F) as i64;
        assert_eq!(decode::imm_s(w), s as u64);
        let b = ((w & 0x8000_0000) as i32 >> 19) as i64
            | ((w & 0x80) << 4) as i64
            | (w >> 20 & 0x7E0) as i64
            | (w >> 7 & 0x1E) as i64;
        assert_eq!(decode::imm_b(w), b as u64);
        assert_eq!(decode::imm_u(w), (w & 0xFFFF_F000) as i32 as i64 as u64);
        let j = ((w & 0x8000_0000) as i32 >> 11) as i64
            | (w & 0xFF000) as i64
            | (w >> 9 & 0x800) as i64
            | (w >> 20 & 0x7FE) as i64;
        assert_eq!(decode::imm_j(w), j as u64);
    }
}

#[test]
fn fields_of_halfwords() {
    for i in 0..=0xFFFFu32 {
        assert_eq!(decode::c_op(i), i & 3);
        assert_eq!(decode::c_funct3(i), i >> 13 & 7);
        assert_eq!(decode::c_reg_low(i), (i >> 2 & 7) as usize + 8);
        assert_eq!(decode::c_reg_high(i), (i >> 7 & 7) as usize + 8);
        assert_eq!(decode::c_rd(i), (i >> 7 & 0x1F) as usize);
        assert_eq!(decode::c_rs2(i), (i >> 2 & 0x1F) as usize);
        let six = (i >> 12 & 1) << 5 | i >> 2 & 0x1F;
        assert_eq!(decode::c_shamt(i), six as u64);
        assert_eq!(decode::c_imm6(i), sx(six, 6));
    }
}

#[test]
fn immediates_of_halfwords() {
    for i in 0..=0xFFFFu32 {
        let spn = (i >> 11 & 3) << 4 | (i >> 7 & 0xF) << 6 | (i >> 6 & 1) << 2 | (i >> 5 & 1) << 3;
        assert_eq!(decode::c_imm_addi4spn(i), spn as u64);
        let w = (i >> 10 & 7) << 3 | (i >> 6 & 1) << 2 | (i >> 5 & 1) << 6;
        assert_eq!(decode::c_imm_w(i), w as u64);
        let d = (i >> 10 & 7) << 3 | (i >> 5 & 3) << 6;
        assert_eq!(decode::c_imm_d(i), d as u64);
        let sp = (i >> 12 & 1) << 9
            | (i >> 6 & 1) << 4
            | (i >> 5 & 1) << 6
            | (i >> 3 & 3) << 7
            | (i >> 2 & 1) << 5;
        assert_eq!(decode::c_imm_addi16sp(i), sx(sp, 10));
        let lui = (i >> 12 & 1) << 17 | (i >> 2 & 0x1F) << 12;
        assert_eq!(decode::c_imm_lui(i), sx(lui, 18));
        let j = (i >> 12 & 1) << 11
            | (i >> 11 & 1) << 4
            | (i >> 9 & 3) << 8
            | (i >> 8 & 1) << 10
            | (i >> 7 & 1) << 6
            | (i >> 6 & 1) << 7
            | (i >> 3 & 7) << 1
            | (i >> 2 & 1) << 5;
        assert_eq!(decode::c_imm_j(i), sx(j, 12));
        let b = (i >> 12 & 1) << 8
            | (i >> 10 & 3) << 3
            | (i >> 5 & 3) << 6
            | (i >> 3 & 3) << 1
            | (i >> 2 & 1) << 5;
        assert_eq!(decode::c_imm_b(i), sx(b, 9));
        let lwsp = (i >> 12 & 1) << 5 | (i >> 4 & 7) << 2 | (i >> 2 & 3) << 6;
        assert_eq!(decode::c_imm_lwsp(i), lwsp as u64);
        let ldsp = (i >> 12 & 1) << 5 | (i >> 5 & 3) << 3 | (i >> 2 & 7) << 6;
        assert_eq!(decode::c_imm_ldsp(i), ldsp as u64);
        let swsp = (i >> 9 & 0xF) << 2 | (i >> 7 & 3) << 6;
        assert_eq!(decode::c_imm_swsp(i), swsp as u64);
        let sdsp = (i >> 10 & 7) << 3 | (i >> 7 & 7) << 6;
        assert_eq!(decode::c_imm_sdsp(i), sdsp as u64);
    }
}
