use chip8::entropy::Entropy;
use chip8::semantics::{Fault, LoadError, Quirks};
use chip8::vm::State;

fn fresh() -> State {
    State::new(Entropy::fixed(vec![]))
}

#[test]
fn add_sets_carry_on_overflow() {
    let mut vm = fresh();
    vm.x6XNN(0, 200);
    vm.x6XNN(1, 100);
    vm.x8XY4(0, 1);
    assert_eq!(vm.get_reg(0), 44); // 300 mod 256
    assert_eq!(vm.get_reg(0xF), 1);
}

#[test]
fn add_clears_carry_without_overflow() {
    let mut vm = fresh();
    vm.x6XNN(0, 10);
    vm.x6XNN(1, 20);
    vm.x6XNN(0xF, 1);
    vm.x8XY4(0, 1);
    assert_eq!(vm.get_reg(0), 30);
    assert_eq!(vm.get_reg(0xF), 0);
}

#[test]
fn sub_sets_flag_when_no_borrow() {
    let mut vm = fresh();
    vm.x6XNN(0, 50);
    vm.x6XNN(1, 20);
    vm.x8XY5(0, 1);
    assert_eq!(vm.get_reg(0), 30);
    assert_eq!(vm.get_reg(0xF), 1);
}

#[test]
fn sub_clears_flag_on_borrow() {
    let mut vm = fresh();
    vm.x6XNN(0, 20);
    vm.x6XNN(1, 50);
    vm.x8XY5(0, 1);
    assert_eq!(vm.get_reg(0), 226); // -30 mod 256
    assert_eq!(vm.get_reg(0xF), 0);
}

#[test]
fn sub_equal_values_is_no_borrow() {
    let mut vm = fresh();
    vm.x6XNN(0, 7);
    vm.x6XNN(1, 7);
    vm.x8XY5(0, 1);
    assert_eq!(vm.get_reg(0), 0);
    assert_eq!(vm.get_reg(0xF), 1);
}

#[test]
fn reverse_sub_flags() {
    let mut vm = fresh();
    vm.x6XNN(0, 20);
    vm.x6XNN(1, 50);
    vm.x8XY7(0, 1); // v0 := v1 - v0 = 30, no borrow
    assert_eq!(vm.get_reg(0), 30);
    assert_eq!(vm.get_reg(0xF), 1);
    let mut vm2 = fresh();
    vm2.x6XNN(0, 50);
    vm2.x6XNN(1, 20);
    vm2.x8XY7(0, 1); // v0 := 20 - 50, borrow
    assert_eq!(vm2.get_reg(0), 226);
    assert_eq!(vm2.get_reg(0xF), 0);
}

#[test]
fn draw_twice_restores_cleared_display() {
    let mut vm = fresh();
    vm.x00E0();
    vm.xANNN(0); // glyph for digit 0 lives at address 0
    vm.x6XNN(0, 3);
    vm.x6XNN(1, 5);
    vm.xDXYN(0, 1, 5).unwrap();
    let lit = vm.get_gfx()[5 * 64 + 3];
    assert!(lit); // top-left bit of the glyph is on
    assert_eq!(vm.get_reg(0xF), 0); // nothing was lit before
    vm.xDXYN(0, 1, 5).unwrap();
    assert_eq!(vm.get_reg(0xF), 1); // the second draw turned pixels off
    let gfx = vm.get_gfx();
    for p in 0..2048 {
        assert!(!gfx[p]);
    }
}

#[test]
fn draw_wraps_around_both_edges() {
    let mut vm = fresh();
    vm.xANNN(0);
    vm.x6XNN(0, 62);
    vm.x6XNN(1, 30);
    vm.xDXYN(0, 1, 5).unwrap();
    let gfx = vm.get_gfx();
    assert!(gfx[30 * 64 + 62]); // anchor pixel: 0xF0 bit 7
    assert!(gfx[0 * 64 + 1]); // row 2 of the glyph (0x90), column 3, wrapped
    assert!(!gfx[0 * 64 + 0]); // 0x90 has bit 5 clear
}

#[test]
fn draw_reports_fault_past_memory_end() {
    let mut vm = fresh();
    vm.xANNN(0xFFF);
    vm.x6XNN(0, 0);
    vm.x6XNN(1, 0);
    assert_eq!(vm.xDXYN(0, 1, 5), Err(Fault::AddressOutOfRange));
}

#[test]
fn load_accepts_largest_rom() {
    let mut vm = fresh();
    let rom = vec![0u8; 3584];
    assert_eq!(vm.load(&rom), Ok(()));
}

#[test]
fn load_rejects_rom_one_byte_too_long() {
    let mut vm = fresh();
    let rom = vec![0u8; 3585];
    assert_eq!(vm.load(&rom), Err(LoadError::TooLarge));
}

#[test]
fn skip_taken_advances_by_four() {
    let mut vm = fresh();
    vm.x6XNN(0, 5);
    let pc0 = vm.get_pc();
    vm.x3XNN(0, 5);
    assert_eq!(vm.get_pc(), pc0 + 4);
}

#[test]
fn skip_not_taken_advances_by_two() {
    let mut vm = fresh();
    vm.x6XNN(0, 4);
    let pc0 = vm.get_pc();
    vm.x3XNN(0, 5);
    assert_eq!(vm.get_pc(), pc0 + 2);
}

#[test]
fn wait_key_stalls_then_stores_lowest_pressed() {
    let mut vm = fresh();
    vm.load(&vec![0xF0, 0x0A]).unwrap(); // wait for a key into V0
    for _ in 0..5 {
        vm.step().unwrap();
        assert_eq!(vm.get_pc(), 512);
    }
    vm.set_key(9, true);
    vm.set_key(3, true);
    vm.step().unwrap();
    assert_eq!(vm.get_pc(), 514);
    assert_eq!(vm.get_reg(0), 3); // the lowest pressed index
}

#[test]
fn font_address_of_digit_a() {
    let mut vm = fresh();
    vm.x6XNN(0, 0xA);
    vm.xFX29(0);
    assert_eq!(vm.get_i(), 50);
}

#[test]
fn three_loads_and_no_skip_advance_six_bytes() {
    let mut vm = fresh();
    // set V0 := 5, set V1 := 5, skip if V0 != V1 (not taken)
    vm.load(&vec![0x60, 0x05, 0x61, 0x05, 0x90, 0x10]).unwrap();
    vm.step().unwrap();
    vm.step().unwrap();
    vm.step().unwrap();
    assert_eq!(vm.get_pc(), 512 + 6);
    assert_eq!(vm.get_reg(0), 5);
    assert_eq!(vm.get_reg(1), 5);
}

#[test]
fn illegal_opcode_faults_and_leaves_pc() {
    let mut vm = fresh();
    vm.load(&vec![0xFF, 0xFF]).unwrap();
    assert_eq!(vm.step(), Err(Fault::IllegalOpcode));
    assert_eq!(vm.get_pc(), 512);
}

#[test]
fn return_with_empty_stack_underflows() {
    let mut vm = fresh();
    vm.load(&vec![0x00, 0xEE]).unwrap();
    assert_eq!(vm.step(), Err(Fault::StackUnderflow));
}

#[test]
fn seventeenth_nested_call_overflows() {
    let mut vm = fresh();
    vm.load(&vec![0x22, 0x00]).unwrap(); // call the instruction itself
    for k in 0..16 {
        assert!(vm.step().is_ok(), "call {} should succeed", k);
    }
    assert_eq!(vm.stack_depth(), 16);
    assert_eq!(vm.step(), Err(Fault::StackOverflow));
}

#[test]
fn fetch_past_memory_end_faults() {
    let mut vm = fresh();
    vm.load(&vec![0x1F, 0xFF]).unwrap(); // jump to the last byte
    vm.step().unwrap();
    assert_eq!(vm.get_pc(), 0xFFF);
    assert_eq!(vm.step(), Err(Fault::AddressOutOfRange));
}

#[test]
fn call_and_return_round_trip() {
    let mut vm = fresh();
    vm.load(&vec![0x22, 0x04, 0x00, 0x00, 0x00, 0xEE]).unwrap();
    vm.step().unwrap(); // call 0x204
    assert_eq!(vm.get_pc(), 0x204);
    assert_eq!(vm.stack_depth(), 1);
    vm.step().unwrap(); // return
    assert_eq!(vm.get_pc(), 0x202);
    assert_eq!(vm.stack_depth(), 0);
}

#[test]
fn bcd_digits_land_in_memory() {
    let mut vm = fresh();
    vm.x6XNN(2, 234);
    vm.xANNN(0x300);
    vm.xFX33(2).unwrap();
    vm.xFX65(2).unwrap(); // read the three bytes back into V0..V2
    assert_eq!(vm.get_reg(0), 2);
    assert_eq!(vm.get_reg(1), 3);
    assert_eq!(vm.get_reg(2), 4);
}

#[test]
fn bcd_past_memory_end_faults() {
    let mut vm = fresh();
    vm.x6XNN(0, 7);
    vm.xANNN(0xFFF);
    assert_eq!(vm.xFX33(0), Err(Fault::AddressOutOfRange));
}

#[test]
fn store_then_load_registers_round_trip() {
    let mut vm = fresh();
    for x in 0..5u8 {
        vm.x6XNN(x, 10 + x);
    }
    vm.xANNN(0x400);
    vm.xFX55(4).unwrap();
    for x in 0..5u8 {
        vm.x6XNN(x, 0);
    }
    vm.xFX65(4).unwrap();
    for x in 0..5u8 {
        assert_eq!(vm.get_reg(x), 10 + x);
    }
}

#[test]
fn store_registers_past_memory_end_faults() {
    let mut vm = fresh();
    vm.xANNN(0xFFE);
    assert_eq!(vm.xFX55(4), Err(Fault::AddressOutOfRange));
}

#[test]
fn random_with_fixed_entropy_is_masked_byte() {
    let mut vm = State::new(Entropy::fixed(vec![0xAB, 0x0F]));
    vm.load(&vec![0xC0, 0xFF, 0xC1, 0x3C]).unwrap();
    vm.step().unwrap();
    assert_eq!(vm.get_reg(0), 0xAB);
    vm.step().unwrap();
    assert_eq!(vm.get_reg(1), 0x0F & 0x3C);
}

#[test]
fn random_with_system_entropy_respects_mask() {
    let mut vm = State::new(Entropy::system());
    vm.load(&vec![0xC0, 0x00]).unwrap(); // any byte masked with zero
    vm.step().unwrap();
    assert_eq!(vm.get_reg(0), 0);
    assert_eq!(vm.get_pc(), 514);
}

#[test]
fn timers_decrement_once_per_cycle() {
    let mut vm = fresh();
    vm.x6XNN(0, 3);
    vm.xFX15(0); // delay := 3
    vm.x1NNN(0x200); // back to the load address
    vm.load(&vec![0x61, 0x01, 0x61, 0x01, 0x61, 0x01]).unwrap();
    vm.step().unwrap();
    assert_eq!(vm.get_delay(), 2);
    vm.step().unwrap();
    assert_eq!(vm.get_delay(), 1);
    vm.step().unwrap();
    assert_eq!(vm.get_delay(), 0);
}

#[test]
fn sound_timer_reaching_zero_is_reported() {
    let mut vm = fresh();
    vm.x6XNN(0, 2);
    vm.xFX18(0); // sound := 2
    vm.x1NNN(0x200); // back to the load address
    vm.load(&vec![0x61, 0x01, 0x61, 0x01]).unwrap();
    let r1 = vm.step().unwrap();
    assert!(!r1.sound_stopped);
    assert_eq!(vm.get_sound(), 1);
    let r2 = vm.step().unwrap();
    assert!(r2.sound_stopped);
    assert_eq!(vm.get_sound(), 0);
}

#[test]
fn delay_timer_reads_back_through_fx07() {
    let mut vm = fresh();
    vm.x6XNN(0, 9);
    vm.xFX15(0);
    vm.xFX07(3);
    assert_eq!(vm.get_reg(3), 9);
}

#[test]
fn step_reports_display_update_only_for_drawing() {
    let mut vm = fresh();
    vm.clear_draw_flag();
    vm.load(&vec![0x00, 0xE0, 0x61, 0x01]).unwrap();
    let r1 = vm.step().unwrap();
    assert!(r1.display_updated);
    assert!(vm.get_draw_flag());
    vm.clear_draw_flag();
    assert!(!vm.get_draw_flag());
    let r2 = vm.step().unwrap();
    assert!(!r2.display_updated);
    assert!(!vm.get_draw_flag());
}

#[test]
fn shift_right_uses_vx_by_default() {
    let mut vm = fresh();
    vm.x6XNN(0, 0x81);
    vm.x6XNN(1, 0x04);
    vm.x8XY6(0, 1);
    assert_eq!(vm.get_reg(0), 0x40);
    assert_eq!(vm.get_reg(0xF), 1); // bit shifted out of 0x81
}

#[test]
fn shift_left_reports_high_bit() {
    let mut vm = fresh();
    vm.x6XNN(0, 0x81);
    vm.x8XYE(0, 1);
    assert_eq!(vm.get_reg(0), 0x02);
    assert_eq!(vm.get_reg(0xF), 1);
}

#[test]
fn shift_quirk_reads_vy() {
    let mut vm = fresh();
    let q = Quirks { shift_reads_vy: true, ..Quirks::classic() };
    vm.set_quirks(q);
    vm.x6XNN(0, 0xFF);
    vm.x6XNN(1, 0x04);
    vm.x8XY6(0, 1);
    assert_eq!(vm.get_reg(0), 0x02);
    assert_eq!(vm.get_reg(0xF), 0);
}

#[test]
fn jump_with_offset_uses_v0_by_default() {
    let mut vm = fresh();
    vm.x6XNN(0, 3);
    vm.x6XNN(3, 0x20);
    vm.xBNNN(0x300);
    assert_eq!(vm.get_pc(), 0x303);
}

#[test]
fn jump_quirk_uses_high_nibble_register() {
    let mut vm = fresh();
    let q = Quirks { jump_offset_vx: true, ..Quirks::classic() };
    vm.set_quirks(q);
    vm.x6XNN(0, 3);
    vm.x6XNN(3, 0x20);
    vm.xBNNN(0x300);
    assert_eq!(vm.get_pc(), 0x320);
}

#[test]
fn index_add_leaves_flag_by_default() {
    let mut vm = fresh();
    vm.xANNN(0xFFF);
    vm.x6XNN(0, 2);
    vm.x6XNN(0xF, 0);
    vm.xFX1E(0);
    assert_eq!(vm.get_i(), 0x1001);
    assert_eq!(vm.get_reg(0xF), 0);
}

#[test]
fn index_add_quirk_sets_flag_past_address_space() {
    let mut vm = fresh();
    let q = Quirks { index_add_carry: true, ..Quirks::classic() };
    vm.set_quirks(q);
    vm.xANNN(0xFFF);
    vm.x6XNN(0, 2);
    vm.xFX1E(0);
    assert_eq!(vm.get_i(), 0x1001);
    assert_eq!(vm.get_reg(0xF), 1);
}

#[test]
fn add_immediate_wraps_without_flag() {
    let mut vm = fresh();
    vm.x6XNN(0, 250);
    vm.x6XNN(0xF, 0);
    vm.x7XNN(0, 10);
    assert_eq!(vm.get_reg(0), 4);
    assert_eq!(vm.get_reg(0xF), 0);
}

#[test]
fn bitwise_ops_and_assign() {
    let mut vm = fresh();
    vm.x6XNN(0, 0b1100);
    vm.x6XNN(1, 0b1010);
    vm.x8XY1(0, 1);
    assert_eq!(vm.get_reg(0), 0b1110);
    vm.x6XNN(0, 0b1100);
    vm.x8XY2(0, 1);
    assert_eq!(vm.get_reg(0), 0b1000);
    vm.x6XNN(0, 0b1100);
    vm.x8XY3(0, 1);
    assert_eq!(vm.get_reg(0), 0b0110);
    vm.x8XY0(0, 1);
    assert_eq!(vm.get_reg(0), 0b1010);
}

#[test]
fn key_skip_instructions() {
    let mut vm = fresh();
    vm.x6XNN(0, 7);
    vm.set_key(7, true);
    let pc0 = vm.get_pc();
    vm.xEX9E(0);
    assert_eq!(vm.get_pc(), pc0 + 4);
    let pc1 = vm.get_pc();
    vm.xEXA1(0);
    assert_eq!(vm.get_pc(), pc1 + 2);
    vm.set_key(7, false);
    let pc2 = vm.get_pc();
    vm.xEX9E(0);
    assert_eq!(vm.get_pc(), pc2 + 2);
    let pc3 = vm.get_pc();
    vm.xEXA1(0);
    assert_eq!(vm.get_pc(), pc3 + 4);
}

#[test]
fn register_compare_skips() {
    let mut vm = fresh();
    vm.x6XNN(0, 5);
    vm.x6XNN(1, 5);
    let pc0 = vm.get_pc();
    vm.x5XY0(0, 1);
    assert_eq!(vm.get_pc(), pc0 + 4);
    let pc1 = vm.get_pc();
    vm.x9XY0(0, 1);
    assert_eq!(vm.get_pc(), pc1 + 2);
    vm.x6XNN(1, 6);
    let pc2 = vm.get_pc();
    vm.x4XNN(0, 6);
    assert_eq!(vm.get_pc(), pc2 + 4);
}

#[test]
fn clear_screen_blanks_every_pixel() {
    let mut vm = fresh();
    vm.xANNN(0);
    vm.x6XNN(0, 0);
    vm.x6XNN(1, 0);
    vm.xDXYN(0, 1, 5).unwrap();
    assert!(vm.get_gfx()[0]);
    vm.x00E0();
    let gfx = vm.get_gfx();
    for p in 0..2048 {
        assert!(!gfx[p]);
    }
    assert!(vm.get_draw_flag());
}

#[test]
fn operand_accessors_read_instruction_at_pc() {
    let mut vm = fresh();
    vm.load(&vec![0xA2, 0xF7]).unwrap();
    assert_eq!(vm.NNN(), 0x2F7);
    assert_eq!(vm.NN(), 0xF7);
}
