use chip8::hardware::chip8::Chip8;

fn get_inter() -> Chip8 {
    return Chip8::new();
}

#[test]
fn test_ld_bcd() {
    let mut inter = get_inter();
    inter.set_i(0);
    inter.set_reg(1, 123);
    inter.ld_bcd(1).unwrap();
    for i in 0..3 {
        assert_eq!(inter.read_mem(i as usize), i + 1);
    }
}

#[test]
fn test_ld_sprite() {
    let mut inter = get_inter();
    inter.set_reg(1, 8);
    inter.ld_sprite(1);
    assert_eq!(inter.get_i(), 5 * 8);
}

#[test]
fn test_read_reg_mem() {
    let mut inter = get_inter();
    for i in 10..20 {
        inter.write_mem(i, i as u8);
    }

    inter.set_i(10);
    inter.read_reg_mem(9).unwrap();

    for i in 0..10 {
        assert_eq!(inter.get_reg(i), (i + 10) as u8);
    }
}

#[test]
fn test_copy_reg_mem() {
    let mut inter = get_inter();
    inter.set_i(10);
    for i in 0..10 {
        inter.set_reg(i, (i + 1) as u8);
    }
    inter.copy_reg_mem(9).unwrap();

    for i in 0..10 {
        assert_eq!(inter.read_mem(i + 10), (i + 1) as u8);
    }
}

#[test]
fn instructions_test_call() {
    let mut inter = get_inter();
    inter.registers.pc = 10;
    inter.call(107).unwrap();
    assert_eq!(inter.pop_stack().unwrap(), 10);
    assert_eq!(inter.registers.pc, 107);
}

#[test]
fn test_ret() {
    let mut inter = get_inter();
    inter.push_stack(1010).unwrap();
    inter.ret().unwrap();
    assert_eq!(inter.registers.pc, 1010 + 2);
    assert_eq!(inter.memory.stack.is_empty(), true);
}

#[test]
fn test_jp_add() {
    let mut inter = get_inter();
    inter.set_reg(0, 10);
    inter.jp_add(100);
    assert_eq!(inter.get_pc(), 110);
}

#[test]
fn test_jp() {
    let mut inter = get_inter();
    inter.jp(100);
    assert_eq!(inter.get_pc(), 100);
}

#[test]
fn test_sst() {
    let mut inter = get_inter();
    inter.set_reg(1, 10);
    inter.sst(1);
    assert_eq!(inter.get_st(), 10);
}

#[test]
fn test_sdt() {
    let mut inter = get_inter();
    inter.set_reg(1, 10);
    inter.sdt(1);
    assert_eq!(inter.get_dt(), 10);
}

#[test]
fn test_ldt() {
    let mut inter = get_inter();
    inter.set_dt(10);
    inter.ldt(1);
    assert_eq!(inter.get_reg(1), 10);
}

#[test]
fn test_ldi() {
    let mut inter = get_inter();
    inter.ldi(30);
    assert_eq!(inter.get_i(), 30);
}

#[test]
fn test_ld() {
    let mut inter = get_inter();
    inter.set_reg(2, 15);
    inter.ld(1, 2);
    assert_eq!(inter.get_reg(1), 15);
}

#[test]
fn test_ldb() {
    let mut inter = get_inter();
    inter.ldb(1, 10);
    assert_eq!(inter.get_reg(1), 10);
}

#[test]
fn test_se_true() {
    let mut inter = get_inter();
    let curr_pc = inter.get_pc();
    inter.set_reg(1, 10);
    inter.set_reg(2, 10);
    inter.se(1, 2);
    assert_eq!(inter.get_pc(), curr_pc + 4);
}

#[test]
fn test_se_false() {
    let mut inter = get_inter();
    let curr_pc = inter.get_pc();
    inter.set_reg(1, 10);
    inter.set_reg(2, 4);
    inter.se(1, 2);
    assert_eq!(inter.get_pc(), curr_pc + 2);
}

#[test]
fn test_sne_true() {
    let mut inter = get_inter();
    let curr_pc = inter.get_pc();
    inter.set_reg(1, 10);
    inter.set_reg(2, 4);
    inter.sne(1, 2);
    assert_eq!(inter.get_pc(), curr_pc + 4);
}

#[test]
fn test_sne_false() {
    let mut inter = get_inter();
    let curr_pc = inter.get_pc();
    inter.set_reg(1, 10);
    inter.set_reg(2, 10);
    inter.sne(1, 2);
    assert_eq!(inter.get_pc(), curr_pc + 2);
}

#[test]
fn test_sneb_true() {
    let mut inter = get_inter();
    let byte = 10;
    inter.set_reg(1, 5);
    let curr_pc = inter.get_pc();
    inter.sneb(1, byte);
    assert_eq!(inter.get_pc(), curr_pc + 4);
}

#[test]
fn test_sneb_false() {
    let mut inter = get_inter();
    let byte = 10;
    inter.set_reg(1, 10);
    let curr_pc = inter.get_pc();
    inter.sneb(1, byte);
    assert_eq!(inter.get_pc(), curr_pc + 2);
}

#[test]
fn test_seb_true() {
    let mut inter = get_inter();
    let byte = 10;
    inter.set_reg(1, 10);
    let curr_pc = inter.get_pc();
    inter.seb(1, byte);
    assert_eq!(inter.get_pc(), curr_pc + 4);
}

#[test]
fn test_seb_false() {
    let mut inter = get_inter();
    let byte = 10;
    inter.set_reg(1, 2);
    let curr_pc = inter.get_pc();
    inter.seb(1, byte);
    assert_eq!(inter.get_pc(), curr_pc + 2);
}

#[test]
fn test_shr_0() {
    let mut inter = get_inter();
    let val: u8 = 0x10;
    inter.set_reg(1, val);
    inter.shr(1);
    assert_eq!(inter.get_reg(1), val >> 1);
    assert_eq!(inter.get_reg(15), 0);
}

#[test]
fn test_shr_1() {
    let mut inter = get_inter();
    let val: u8 = 0x11;
    inter.set_reg(1, val);
    inter.shr(1);
    assert_eq!(inter.get_reg(1), val >> 1);
    assert_eq!(inter.get_reg(15), 1);
}

#[test]
fn test_shl_0() {
    let mut inter = get_inter();
    let val: u8 = 0x1;
    inter.set_reg(1, val);
    inter.shl(1);
    assert_eq!(inter.get_reg(1), val << 1);
    assert_eq!(inter.get_reg(15), 0);
}

#[test]
fn test_shl_1() {
    let mut inter = get_inter();
    let val: u8 = 0x90;
    inter.set_reg(1, val);
    inter.shl(1);
    assert_eq!(inter.get_reg(1), val << 1);
    assert_eq!(inter.get_reg(15), 1);
}

#[test]
fn test_xor() {
    let mut inter = get_inter();
    inter.set_reg(1, 0x10);
    inter.set_reg(2, 0x11);
    inter.xor(1, 2);
    assert_eq!(inter.get_reg(1), 0x1);
}

#[test]
fn test_and() {
    let mut inter = get_inter();
    inter.set_reg(1, 0x10);
    inter.set_reg(2, 0x11);
    inter.and(1, 2);
    assert_eq!(inter.get_reg(1), 0x10);
}

#[test]
fn test_or() {
    let mut inter = get_inter();
    inter.set_reg(1, 0x1);
    inter.or(2, 1);
    assert_eq!(inter.get_reg(2), 1);
}

#[test]
fn test_subn() {
    let mut inter = get_inter();
    inter.set_reg(1, 3);
    inter.set_reg(2, 10);
    inter.subn(1, 2);
    assert_eq!(inter.get_reg(1), 7);
    assert_eq!(inter.get_reg(15), 1);
}

#[test]
fn test_subn_underflow() {
    let mut inter = get_inter();
    inter.set_reg(1, 10);
    inter.set_reg(2, 3);
    inter.subn(1, 2);
    assert_eq!(inter.get_reg(1), 249);
    assert_eq!(inter.get_reg(15), 0);
}

#[test]
fn test_sub() {
    let mut inter = get_inter();
    inter.set_reg(1, 10);
    inter.set_reg(2, 3);
    inter.sub(1, 2);
    assert_eq!(inter.get_reg(1), 7);
    assert_eq!(inter.get_reg(15), 1);
}

#[test]
fn test_sub_underflow() {
    let mut inter = get_inter();
    inter.set_reg(1, 3);
    inter.set_reg(2, 10);
    inter.sub(1, 2);
    assert_eq!(inter.get_reg(1), 249);
    assert_eq!(inter.get_reg(15), 0);
}

#[test]
fn test_addi() {
    let mut inter = get_inter();
    inter.set_reg(1, 10);
    inter.set_i(10);
    inter.addi(1);
    assert_eq!(inter.get_i(), 20);
}

#[test]
fn test_addi_overflow() {
    let mut inter = get_inter();
    inter.set_reg(1, 10);
    inter.set_i(u16::MAX);
    inter.addi(1);
    assert_eq!(inter.get_i(), 9);
}

#[test]
fn test_addb() {
    let mut inter = get_inter();
    inter.addb(1, 8);
    assert_eq!(inter.get_reg(1), 8);
}

#[test]
fn test_addb_overflow() {
    let mut inter = get_inter();
    inter.addb(2, 255);
    inter.addb(2, 1);
    assert_eq!(inter.get_reg(2), 0);
}

#[test]
fn test_add() {
    let mut inter = get_inter();
    inter.set_reg(2, 10);
    inter.add(1, 2);
    assert_eq!(inter.get_reg(1), 10);
    assert_eq!(inter.get_reg(15), 0);
}

#[test]
fn test_add_overflow() {
    let mut inter = get_inter();
    inter.set_reg(1, 255);
    inter.set_reg(2, 2);
    inter.add(1, 2);
    assert_eq!(inter.get_reg(1), 1);
    assert_eq!(inter.get_reg(15), 1);
}
