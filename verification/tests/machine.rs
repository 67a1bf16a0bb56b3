use chip_8::arith::{wrapping_difference, wrapping_double, wrapping_sum};
use chip_8::decode::{decode, read_word};
use chip_8::display::{draw_sprite, pixel_char};
use chip_8::frontend::{
    get_offsets, key_for, process_input, time_left, CYCLES_PER_SECOND, ESC, KEY_MAP,
    TICKS_PER_CYCLE,
};
use chip_8::state::CHIP8_FONTSET;
use chip_8::{Chip8, Fault, ProgramTooLargeError};

fn machine_with(program: &[u8]) -> Chip8 {
    let mut chip8 = Chip8::new();
    chip8.load_program(program.to_vec()).unwrap();
    chip8
}

fn lit_cells(chip8: &Chip8) -> usize {
    chip8.gfx.iter().filter(|cell| **cell == 1).count()
}

fn assert_same_state(a: &Chip8, b: &Chip8) {
    assert_eq!(a.memory[..], b.memory[..]);
    assert_eq!(a.v, b.v);
    assert_eq!(a.i, b.i);
    assert_eq!(a.pc, b.pc);
    assert_eq!(a.gfx[..], b.gfx[..]);
    assert_eq!(a.delay_timer, b.delay_timer);
    assert_eq!(a.sound_timer, b.sound_timer);
    assert_eq!(a.stack, b.stack);
    assert_eq!(a.sp, b.sp);
    assert_eq!(a.key, b.key);
    assert_eq!(a.draw_flag, b.draw_flag);
}

fn snapshot(chip8: &Chip8) -> Chip8 {
    Chip8 {
        memory: chip8.memory,
        v: chip8.v,
        i: chip8.i,
        pc: chip8.pc,
        gfx: chip8.gfx,
        delay_timer: chip8.delay_timer,
        sound_timer: chip8.sound_timer,
        stack: chip8.stack,
        sp: chip8.sp,
        key: chip8.key,
        draw_flag: chip8.draw_flag,
    }
}

#[test]
fn new_machine_is_at_power_on() {
    let chip8 = Chip8::new();
    assert_eq!(chip8.pc, 0x200);
    assert_eq!(chip8.i, 0);
    assert_eq!(chip8.sp, 0);
    assert_eq!(chip8.v, [0u8; 16]);
    assert_eq!(chip8.key, [0u8; 16]);
    assert_eq!(chip8.stack, [0u16; 16]);
    assert_eq!(chip8.delay_timer, 0);
    assert_eq!(chip8.sound_timer, 0);
    assert!(!chip8.draw_flag);
    assert_eq!(lit_cells(&chip8), 0);
    assert_eq!(chip8.memory[..80], CHIP8_FONTSET[..]);
    assert_eq!(chip8.memory[79], 0x80);
    assert!(chip8.memory[80..].iter().all(|cell| *cell == 0));
}

#[test]
fn font_glyph_starts_at_five_times_its_digit() {
    let chip8 = Chip8::new();
    assert_eq!(chip8.memory[0..5], [0xF0, 0x90, 0x90, 0x90, 0xF0]);
    assert_eq!(chip8.memory[5..10], [0x20, 0x60, 0x20, 0x20, 0x70]);
    assert_eq!(chip8.memory[75..80], [0xF0, 0x80, 0xF0, 0x80, 0x80]);
}

#[test]
fn load_of_largest_image_succeeds() {
    let mut chip8 = Chip8::new();
    let image: Vec<u8> = (0..4096 - 512).map(|k| (k % 251) as u8 + 1).collect();
    assert!(chip8.load_program(image.clone()).is_ok());
    assert_eq!(chip8.memory[512..], image[..]);
    assert_eq!(chip8.memory[..80], CHIP8_FONTSET[..]);
    assert!(chip8.memory[80..512].iter().all(|cell| *cell == 0));
}

#[test]
fn load_of_one_byte_more_fails_and_changes_nothing() {
    let mut chip8 = machine_with(&[0x60, 0x05]);
    chip8.execute_cycle().unwrap();
    let before = snapshot(&chip8);
    let image: Vec<u8> = vec![0xAB; 4096 - 512 + 1];
    let res = chip8.load_program(image);
    assert!(matches!(res, Err(ProgramTooLargeError)));
    assert_same_state(&chip8, &before);
}

#[test]
fn load_of_empty_image_succeeds() {
    let mut chip8 = Chip8::new();
    assert!(chip8.load_program(Vec::new()).is_ok());
    assert!(chip8.memory[512..].iter().all(|cell| *cell == 0));
}

#[test]
fn load_resets_the_machine() {
    let mut chip8 = machine_with(&[0x6A, 0x33, 0xA1, 0x23, 0x22, 0x08]);
    chip8.execute_cycle().unwrap();
    chip8.execute_cycle().unwrap();
    chip8.execute_cycle().unwrap();
    chip8.key[3] = 1;
    chip8.gfx[7] = 1;
    chip8.load_program(vec![0x12, 0x00]).unwrap();
    let fresh = machine_with(&[0x12, 0x00]);
    assert_same_state(&chip8, &fresh);
}

#[test]
fn too_large_error_has_its_message() {
    assert_eq!(ProgramTooLargeError.message(), "program too large to fit in memory");
}

#[test]
fn set_index_scenario() {
    let mut chip8 = machine_with(&[0xA2, 0x00]);
    chip8.execute_cycle().unwrap();
    assert_eq!(chip8.i, 0x200);
    assert_eq!(chip8.pc, 0x202);
}

#[test]
fn set_then_add_scenario() {
    let mut chip8 = machine_with(&[0x60, 0x05, 0x70, 0x0A]);
    chip8.execute_cycle().unwrap();
    assert_eq!(chip8.v[0], 0x05);
    chip8.execute_cycle().unwrap();
    assert_eq!(chip8.v[0], 0x0F);
    assert_eq!(chip8.v[0xF], 0);
    assert_eq!(chip8.pc, 0x204);
}

#[test]
fn call_then_return_scenario() {
    // 0x200: jump to 0x204; 0x202: return; 0x204: call 0x202
    let mut chip8 = machine_with(&[0x12, 0x04, 0x00, 0xEE, 0x22, 0x02]);
    chip8.execute_cycle().unwrap();
    assert_eq!(chip8.pc, 0x204);
    let sp_before = chip8.sp;
    chip8.execute_cycle().unwrap();
    assert_eq!(chip8.pc, 0x202);
    assert_eq!(chip8.sp, sp_before + 1);
    assert_eq!(chip8.stack[0], 0x204);
    chip8.execute_cycle().unwrap();
    assert_eq!(chip8.pc, 0x206);
    assert_eq!(chip8.sp, sp_before);
}

#[test]
fn glyph_zero_scenario() {
    let mut chip8 = machine_with(&[0xD4, 0x65, 0xD4, 0x65]);
    chip8.i = 0;
    chip8.v[4] = 10;
    chip8.v[6] = 10;
    chip8.execute_cycle().unwrap();
    assert_eq!(lit_cells(&chip8), 14);
    assert_eq!(chip8.v[0xF], 0);
    let rows: [[u8; 4]; 5] = [[1, 1, 1, 1], [1, 0, 0, 1], [1, 0, 0, 1], [1, 0, 0, 1], [1, 1, 1, 1]];
    for (r, row) in rows.iter().enumerate() {
        for (c, bit) in row.iter().enumerate() {
            assert_eq!(chip8.gfx[(10 + r) * 64 + 10 + c], *bit);
        }
    }
    chip8.execute_cycle().unwrap();
    assert_eq!(lit_cells(&chip8), 0);
    assert_eq!(chip8.v[0xF], 1);
    assert!(chip8.draw_flag);
}

#[test]
fn draw_wraps_at_the_edges() {
    let mut chip8 = machine_with(&[0xD0, 0x12]);
    chip8.memory[0x300] = 0xFF;
    chip8.memory[0x301] = 0x81;
    chip8.i = 0x300;
    chip8.v[0] = 60 + 64;
    chip8.v[1] = 31 + 32;
    chip8.execute_cycle().unwrap();
    assert_eq!(lit_cells(&chip8), 10);
    for x in [60usize, 61, 62, 63, 0, 1, 2, 3] {
        assert_eq!(chip8.gfx[31 * 64 + x], 1);
    }
    assert_eq!(chip8.gfx[60], 1);
    assert_eq!(chip8.gfx[3], 1);
    assert_eq!(chip8.v[0xF], 0);
}

#[test]
fn draw_with_partial_overlap_sets_flag_and_flips() {
    let mut chip8 = machine_with(&[0xD0, 0x11]);
    chip8.memory[0x300] = 0b1100_0000;
    chip8.i = 0x300;
    chip8.gfx[1] = 1;
    chip8.gfx[5] = 1;
    chip8.execute_cycle().unwrap();
    assert_eq!(chip8.gfx[0], 1);
    assert_eq!(chip8.gfx[1], 0);
    assert_eq!(chip8.gfx[5], 1);
    assert_eq!(chip8.v[0xF], 1);
}

#[test]
fn draw_of_no_rows_marks_display_dirty() {
    let mut chip8 = machine_with(&[0xD0, 0x10]);
    chip8.v[0xF] = 7;
    chip8.i = 0xFFFF;
    chip8.execute_cycle().unwrap();
    assert!(chip8.draw_flag);
    assert_eq!(chip8.v[0xF], 0);
    assert_eq!(lit_cells(&chip8), 0);
    assert_eq!(chip8.pc, 0x202);
}

#[test]
fn draw_past_the_end_of_memory_is_a_fault() {
    let mut chip8 = machine_with(&[0xD0, 0x12]);
    chip8.i = 4095;
    let before = snapshot(&chip8);
    assert_eq!(chip8.execute_cycle(), Err(Fault::MemoryOutOfBounds));
    assert_same_state(&chip8, &before);
    chip8.i = 4094;
    assert_eq!(chip8.execute_cycle(), Ok(()));
}

#[test]
fn fetch_past_the_end_of_memory_is_a_fault() {
    let mut chip8 = machine_with(&[0x1F, 0xFF]);
    chip8.execute_cycle().unwrap();
    assert_eq!(chip8.pc, 0xFFF);
    let before = snapshot(&chip8);
    assert_eq!(chip8.execute_cycle(), Err(Fault::FetchOutOfBounds));
    assert_same_state(&chip8, &before);
}

#[test]
fn running_off_the_end_of_memory_is_a_fault() {
    let mut chip8 = machine_with(&[0x1F, 0xFE]);
    chip8.memory[0xFFE] = 0x60;
    chip8.memory[0xFFF] = 0x01;
    chip8.execute_cycle().unwrap();
    chip8.execute_cycle().unwrap();
    assert_eq!(chip8.pc, 0x1000);
    assert_eq!(chip8.execute_cycle(), Err(Fault::FetchOutOfBounds));
}

#[test]
fn odd_program_counter_is_a_fault() {
    let mut chip8 = machine_with(&[0x12, 0x03]);
    chip8.execute_cycle().unwrap();
    assert_eq!(chip8.pc, 0x203);
    let before = snapshot(&chip8);
    assert_eq!(chip8.execute_cycle(), Err(Fault::MisalignedProgramCounter));
    assert_same_state(&chip8, &before);
}

#[test]
fn seventeenth_nested_call_is_a_fault() {
    // a subroutine that calls itself
    let mut chip8 = machine_with(&[0x22, 0x00]);
    for depth in 0..16 {
        assert_eq!(chip8.sp, depth);
        chip8.execute_cycle().unwrap();
    }
    assert_eq!(chip8.sp, 16);
    assert_eq!(chip8.stack, [0x200u16; 16]);
    let before = snapshot(&chip8);
    assert_eq!(chip8.execute_cycle(), Err(Fault::StackOverflow));
    assert_same_state(&chip8, &before);
}

#[test]
fn return_with_empty_stack_is_a_fault() {
    let mut chip8 = machine_with(&[0x00, 0xEE]);
    let before = snapshot(&chip8);
    assert_eq!(chip8.execute_cycle(), Err(Fault::StackUnderflow));
    assert_same_state(&chip8, &before);
}

#[test]
fn return_with_stack_pointer_beyond_the_stack_is_a_fault() {
    let mut chip8 = machine_with(&[0x00, 0xEE]);
    chip8.sp = 17;
    assert_eq!(chip8.execute_cycle(), Err(Fault::StackOverflow));
}

#[test]
fn return_to_an_address_beyond_the_counter_is_a_fault() {
    let mut chip8 = machine_with(&[0x00, 0xEE]);
    chip8.sp = 1;
    chip8.stack[0] = 0xFFFE;
    assert_eq!(chip8.execute_cycle(), Err(Fault::FetchOutOfBounds));
    chip8.stack[0] = 0xFFFD;
    assert_eq!(chip8.execute_cycle(), Ok(()));
    assert_eq!(chip8.pc, 0xFFFF);
}

#[test]
fn unknown_opcodes_are_faults() {
    for word in [[0x80u8, 0x08u8], [0x81, 0x2F], [0xE0, 0x00], [0xE1, 0x9F], [0xF0, 0x00], [0xF2, 0x56]] {
        let mut chip8 = machine_with(&word);
        let before = snapshot(&chip8);
        assert_eq!(chip8.execute_cycle(), Err(Fault::UnknownOpcode));
        assert_same_state(&chip8, &before);
    }
}

#[test]
fn key_above_fifteen_is_a_fault() {
    for word in [[0xE3u8, 0x9Eu8], [0xE3, 0xA1]] {
        let mut chip8 = machine_with(&word);
        chip8.v[3] = 16;
        let before = snapshot(&chip8);
        assert_eq!(chip8.execute_cycle(), Err(Fault::InvalidKey));
        assert_same_state(&chip8, &before);
    }
}

#[test]
fn legacy_jump_sets_program_counter() {
    let mut chip8 = machine_with(&[0x03, 0x46]);
    chip8.execute_cycle().unwrap();
    assert_eq!(chip8.pc, 0x346);
}

#[test]
fn subtract_vy_from_vx_without_borrow() {
    let mut chip8 = machine_with(&[0x84, 0x55]);
    chip8.v[4] = 0xCC;
    chip8.v[5] = 0xBA;
    chip8.execute_cycle().unwrap();
    assert_eq!(chip8.v[4], 0x12);
    assert_eq!(chip8.v[0xF], 1);
}

#[test]
fn subtract_equal_values_raises_flag() {
    let mut chip8 = machine_with(&[0x84, 0x55]);
    chip8.v[4] = 0x33;
    chip8.v[5] = 0x33;
    chip8.execute_cycle().unwrap();
    assert_eq!(chip8.v[4], 0);
    assert_eq!(chip8.v[0xF], 1);
}

#[test]
fn set_vx_to_vy_minus_vx_without_borrow() {
    let mut chip8 = machine_with(&[0x84, 0x57]);
    chip8.v[4] = 0xBA;
    chip8.v[5] = 0xCC;
    chip8.execute_cycle().unwrap();
    assert_eq!(chip8.v[4], 0x12);
    assert_eq!(chip8.v[5], 0xCC);
    assert_eq!(chip8.v[0xF], 1);
}

#[test]
fn shift_right_of_even_value_clears_flag() {
    let mut chip8 = machine_with(&[0x84, 0x56]);
    chip8.v[4] = 0xBA;
    chip8.v[0xF] = 1;
    chip8.execute_cycle().unwrap();
    assert_eq!(chip8.v[4], 0x5D);
    assert_eq!(chip8.v[0xF], 0);
}

#[test]
fn shift_left_without_high_bit_clears_flag() {
    let mut chip8 = machine_with(&[0x84, 0x5E]);
    chip8.v[4] = 0x55;
    chip8.v[0xF] = 1;
    chip8.execute_cycle().unwrap();
    assert_eq!(chip8.v[4], 0xAA);
    assert_eq!(chip8.v[0xF], 0);
}

#[test]
fn add_with_flag_register_as_target_keeps_the_sum_made_from_the_flag() {
    // VF is written first, then VX = VX + VY is made from the new VF
    let mut chip8 = machine_with(&[0x8F, 0x54]);
    chip8.v[0xF] = 0xF0;
    chip8.v[5] = 0x20;
    chip8.execute_cycle().unwrap();
    assert_eq!(chip8.v[0xF], 0x21);
}

#[test]
fn arithmetic_matches_the_table_for_every_operand_pair() {
    let mut chip8 = Chip8::new();
    for a in 0..=255u16 {
        for b in 0..=255u16 {
            chip8.v[1] = a as u8;
            chip8.process_opcode(0x7100 | b, 0).unwrap();
            assert_eq!(chip8.v[1] as u16, (a + b) % 256);

            chip8.v[1] = a as u8;
            chip8.v[2] = b as u8;
            chip8.process_opcode(0x8124, 0).unwrap();
            assert_eq!(chip8.v[1] as u16, (a + b) % 256);
            assert_eq!(chip8.v[0xF], if a + b > 255 { 1 } else { 0 });

            chip8.v[1] = a as u8;
            chip8.process_opcode(0x8125, 0).unwrap();
            assert_eq!(chip8.v[1] as u16, (256 + a - b) % 256);
            assert_eq!(chip8.v[0xF], if a >= b { 1 } else { 0 });

            chip8.v[1] = a as u8;
            chip8.process_opcode(0x8127, 0).unwrap();
            assert_eq!(chip8.v[1] as u16, (256 + b - a) % 256);
            assert_eq!(chip8.v[0xF], if b >= a { 1 } else { 0 });

            chip8.v[1] = a as u8;
            chip8.process_opcode(0x812E, 0).unwrap();
            assert_eq!(chip8.v[1] as u16, (a * 2) % 256);
            assert_eq!(chip8.v[0xF] as u16, a >> 7);
        }
    }
}

#[test]
fn random_byte_is_masked_by_nn() {
    let mut chip8 = machine_with(&[0xC3, 0x00, 0xC3, 0x0F]);
    chip8.v[3] = 0xFF;
    chip8.execute_cycle().unwrap();
    assert_eq!(chip8.v[3], 0);
    assert_eq!(chip8.pc, 0x202);
    chip8.execute_cycle().unwrap();
    assert!(chip8.v[3] <= 0x0F);
}

#[test]
fn given_random_byte_is_masked_by_nn() {
    let mut chip8 = machine_with(&[0xC3, 0x3C]);
    chip8.execute_cycle_with(0xA5).unwrap();
    assert_eq!(chip8.v[3], 0x24);
    assert_eq!(chip8.pc, 0x202);
}

#[test]
fn given_random_byte_is_ignored_by_other_instructions() {
    let mut one = machine_with(&[0x63, 0x3C]);
    let mut other = machine_with(&[0x63, 0x3C]);
    one.execute_cycle_with(0x00).unwrap();
    other.execute_cycle_with(0xFF).unwrap();
    assert_same_state(&one, &other);
}

#[test]
fn key_wait_holds_the_program_counter_until_a_key_is_set() {
    let mut chip8 = machine_with(&[0xF7, 0x0A]);
    chip8.delay_timer = 5;
    for _ in 0..3 {
        chip8.execute_cycle().unwrap();
        assert_eq!(chip8.pc, 0x200);
        assert_eq!(chip8.v[7], 0);
    }
    assert_eq!(chip8.delay_timer, 2);
    chip8.key[0xC] = 1;
    chip8.key[0x9] = 1;
    chip8.execute_cycle().unwrap();
    assert_eq!(chip8.pc, 0x202);
    assert_eq!(chip8.v[7], 0x9);
    assert_eq!(chip8.key[0x9], 1);
    assert_eq!(chip8.key[0xC], 1);
}

#[test]
fn key_skip_looks_only_at_the_named_key() {
    let mut chip8 = machine_with(&[0xE4, 0x9E]);
    chip8.v[4] = 2;
    chip8.key[3] = 1;
    chip8.execute_cycle().unwrap();
    assert_eq!(chip8.pc, 0x202);
    assert_eq!(chip8.key[3], 1);
}

#[test]
fn timers_are_read_and_set() {
    let mut chip8 = machine_with(&[0xF1, 0x15, 0xF1, 0x18, 0xF2, 0x07]);
    chip8.v[1] = 9;
    chip8.execute_cycle().unwrap();
    // set to 9, then ticked once at the end of the cycle
    assert_eq!(chip8.delay_timer, 8);
    chip8.execute_cycle().unwrap();
    assert_eq!(chip8.delay_timer, 7);
    assert_eq!(chip8.sound_timer, 8);
    chip8.execute_cycle().unwrap();
    assert_eq!(chip8.v[2], 7);
    assert_eq!(chip8.delay_timer, 6);
    assert_eq!(chip8.sound_timer, 7);
}

#[test]
fn timers_stop_at_zero() {
    let mut chip8 = machine_with(&[0x12, 0x00]);
    chip8.delay_timer = 1;
    chip8.sound_timer = 2;
    chip8.execute_cycle().unwrap();
    assert_eq!((chip8.delay_timer, chip8.sound_timer), (0, 1));
    chip8.execute_cycle().unwrap();
    assert_eq!((chip8.delay_timer, chip8.sound_timer), (0, 0));
    chip8.execute_cycle().unwrap();
    assert_eq!((chip8.delay_timer, chip8.sound_timer), (0, 0));
}

#[test]
fn update_timers_counts_each_down_by_one() {
    let mut chip8 = Chip8::new();
    chip8.delay_timer = 200;
    chip8.update_timers();
    assert_eq!((chip8.delay_timer, chip8.sound_timer), (199, 0));
}

#[test]
fn add_vx_to_index_sets_flag_past_twelve_bits() {
    let mut chip8 = machine_with(&[0xF1, 0x1E, 0xF1, 0x1E]);
    chip8.i = 0xF00;
    chip8.v[1] = 0xFF;
    chip8.execute_cycle().unwrap();
    assert_eq!(chip8.i, 0xFFF);
    assert_eq!(chip8.v[0xF], 0);
    chip8.execute_cycle().unwrap();
    assert_eq!(chip8.i, 0x10FE);
    assert_eq!(chip8.v[0xF], 1);
}

#[test]
fn add_vx_to_index_wraps_at_sixteen_bits() {
    let mut chip8 = machine_with(&[0xF1, 0x1E]);
    chip8.i = 0xFFFF;
    chip8.v[1] = 2;
    chip8.execute_cycle().unwrap();
    assert_eq!(chip8.i, 1);
    assert_eq!(chip8.v[0xF], 1);
}

#[test]
fn index_of_glyph_is_five_times_vx() {
    let mut chip8 = machine_with(&[0xF1, 0x29, 0xF2, 0x29]);
    chip8.v[1] = 0xA;
    chip8.v[2] = 0xFF;
    chip8.execute_cycle().unwrap();
    assert_eq!(chip8.i, 50);
    chip8.execute_cycle().unwrap();
    assert_eq!(chip8.i, 1275);
}

#[test]
fn decimal_digits_are_stored_at_index() {
    let mut chip8 = machine_with(&[0xF1, 0x33]);
    chip8.v[1] = 254;
    chip8.i = 0x300;
    chip8.execute_cycle().unwrap();
    assert_eq!(chip8.memory[0x300..0x303], [2, 5, 4]);
    assert_eq!(chip8.i, 0x300);
}

#[test]
fn decimal_digits_past_the_end_of_memory_are_a_fault() {
    let mut chip8 = machine_with(&[0xF1, 0x33]);
    chip8.v[1] = 254;
    chip8.i = 4094;
    let before = snapshot(&chip8);
    assert_eq!(chip8.execute_cycle(), Err(Fault::MemoryOutOfBounds));
    assert_same_state(&chip8, &before);
    chip8.i = 4093;
    assert_eq!(chip8.execute_cycle(), Ok(()));
    assert_eq!(chip8.memory[4093..], [2, 5, 4]);
}

#[test]
fn registers_below_vx_are_stored() {
    let mut chip8 = machine_with(&[0xF3, 0x55]);
    chip8.v[0] = 11;
    chip8.v[1] = 22;
    chip8.v[2] = 33;
    chip8.v[3] = 44;
    chip8.i = 0x300;
    chip8.execute_cycle().unwrap();
    assert_eq!(chip8.memory[0x300..0x304], [11, 22, 33, 0]);
    assert_eq!(chip8.i, 0x300);
    assert_eq!(chip8.pc, 0x202);
}

#[test]
fn registers_below_vx_are_loaded() {
    let mut chip8 = machine_with(&[0xF3, 0x65]);
    chip8.memory[0x300] = 11;
    chip8.memory[0x301] = 22;
    chip8.memory[0x302] = 33;
    chip8.memory[0x303] = 44;
    chip8.v[3] = 99;
    chip8.i = 0x300;
    chip8.execute_cycle().unwrap();
    assert_eq!(chip8.v[0..4], [11, 22, 33, 99]);
    assert_eq!(chip8.i, 0x300);
}

#[test]
fn register_transfer_past_the_end_of_memory_is_a_fault() {
    for word in [[0xF3u8, 0x55u8], [0xF3, 0x65]] {
        let mut chip8 = machine_with(&word);
        chip8.i = 4094;
        let before = snapshot(&chip8);
        assert_eq!(chip8.execute_cycle(), Err(Fault::MemoryOutOfBounds));
        assert_same_state(&chip8, &before);
        chip8.i = 4093;
        assert_eq!(chip8.execute_cycle(), Ok(()));
    }
}

#[test]
fn register_transfer_of_nothing_reads_no_memory() {
    let mut chip8 = machine_with(&[0xF0, 0x55, 0xF0, 0x65]);
    chip8.i = 0xFFFF;
    chip8.execute_cycle().unwrap();
    chip8.execute_cycle().unwrap();
    assert_eq!(chip8.pc, 0x204);
}

#[test]
fn clear_keys_clears_every_latch() {
    let mut chip8 = machine_with(&[0x12, 0x00]);
    chip8.key = [1; 16];
    chip8.key[5] = 9;
    let mut expected = snapshot(&chip8);
    expected.key = [0; 16];
    chip8.clear_keys();
    assert_same_state(&chip8, &expected);
}

#[test]
fn display_is_rendered_row_by_row() {
    let mut chip8 = Chip8::new();
    chip8.gfx[0] = 1;
    chip8.gfx[63] = 1;
    chip8.gfx[64 + 2] = 1;
    chip8.gfx[31 * 64 + 63] = 1;
    chip8.gfx[5] = 2;
    let text = chip8.to_string();
    let lines: Vec<&str> = text.split('\n').collect();
    assert_eq!(text.len(), 32 * 65 - 1);
    assert_eq!(lines.len(), 32);
    assert!(lines.iter().all(|line| line.len() == 64));
    assert_eq!(lines[0], format!("*{}*", " ".repeat(62)));
    assert_eq!(lines[1], format!("  *{}", " ".repeat(61)));
    assert_eq!(lines[2], " ".repeat(64));
    assert_eq!(lines[31], format!("{}*", " ".repeat(63)));
}

#[test]
fn drawing_twice_restores_the_display() {
    let mut chip8 = machine_with(&[0xD1, 0x2F, 0xD1, 0x2F]);
    for (k, cell) in chip8.gfx.iter_mut().enumerate() {
        *cell = if k % 3 == 0 { 1 } else { 0 };
    }
    for k in 0..15 {
        chip8.memory[0x300 + k] = (k * 37 + 11) as u8;
    }
    chip8.i = 0x300;
    chip8.v[1] = 59;
    chip8.v[2] = 25;
    let before = snapshot(&chip8);
    chip8.execute_cycle().unwrap();
    assert_ne!(chip8.gfx[..], before.gfx[..]);
    chip8.execute_cycle().unwrap();
    assert_eq!(chip8.gfx[..], before.gfx[..]);
}

#[test]
fn skip_if_equal_ignores_the_low_nibble() {
    let mut chip8 = machine_with(&[0x54, 0x67]);
    chip8.v[4] = 1;
    chip8.v[6] = 1;
    chip8.execute_cycle().unwrap();
    assert_eq!(chip8.pc, 0x204);
}

#[test]
fn keyboard_characters_stand_for_keys() {
    assert_eq!(key_for('x'), Some(0));
    assert_eq!(key_for('1'), Some(1));
    assert_eq!(key_for('4'), Some(0xC));
    assert_eq!(key_for('v'), Some(0xF));
    assert_eq!(key_for('p'), None);
    assert_eq!(key_for('\u{1b}'), None);
    for (k, c) in KEY_MAP.iter().enumerate() {
        assert_eq!(key_for(*c), Some(k));
    }
}

#[test]
fn input_sets_the_latch_of_its_key() {
    let mut chip8 = machine_with(&[0x12, 0x00]);
    let mut expected = snapshot(&chip8);
    assert!(process_input(&mut chip8, None));
    assert_same_state(&chip8, &expected);
    assert!(process_input(&mut chip8, Some('p')));
    assert_same_state(&chip8, &expected);
    assert!(process_input(&mut chip8, Some('w')));
    expected.key[5] = 1;
    assert_same_state(&chip8, &expected);
    assert!(process_input(&mut chip8, Some('w')));
    assert_same_state(&chip8, &expected);
}

#[test]
fn escape_ends_the_program_and_sets_no_latch() {
    let mut chip8 = machine_with(&[0x12, 0x00]);
    let expected = snapshot(&chip8);
    assert_eq!(ESC, 27 as char);
    assert!(!process_input(&mut chip8, Some(ESC)));
    assert_same_state(&chip8, &expected);
}

#[test]
fn screen_is_centred_in_the_terminal() {
    assert_eq!(get_offsets(40, 100), (4, 18));
    assert_eq!(get_offsets(25, 81), (-4, 8));
    assert_eq!(get_offsets(0, 0), (-16, -32));
}

#[test]
fn wait_fills_up_the_time_of_a_cycle() {
    assert_eq!(TICKS_PER_CYCLE, 1000 / CYCLES_PER_SECOND);
    assert_eq!(time_left(0), Some(2));
    assert_eq!(time_left(1), Some(1));
    assert_eq!(time_left(2), None);
    assert_eq!(time_left(u128::MAX), None);
}

#[test]
fn pixel_characters() {
    assert_eq!(pixel_char(1), '*');
    assert_eq!(pixel_char(0), ' ');
    assert_eq!(pixel_char(2), ' ');
}

#[test]
fn instruction_word_is_read_big_endian() {
    let mut chip8 = Chip8::new();
    chip8.memory[0x200] = 0xAB;
    chip8.memory[0x201] = 0xCD;
    chip8.memory[4094] = 0x12;
    chip8.memory[4095] = 0x34;
    assert_eq!(read_word(&chip8.memory, 0x200), Ok(0xABCD));
    assert_eq!(read_word(&chip8.memory, 4094), Ok(0x1234));
    assert_eq!(read_word(&chip8.memory, 4095), Err(Fault::FetchOutOfBounds));
    assert_eq!(read_word(&chip8.memory, 0xFFFF), Err(Fault::FetchOutOfBounds));
    let ins = decode(0xABCD);
    assert_eq!(ins.word, 0xABCD);
    assert_eq!(ins.class, 0xA000);
    assert_eq!(ins.x, 0xB);
    assert_eq!(ins.y, 0xC);
    assert_eq!(ins.n, 0xD);
    assert_eq!(ins.nn, 0xCD);
    assert_eq!(ins.nnn, 0xBCD);
}

#[test]
fn modular_arithmetic_helpers() {
    assert_eq!(wrapping_sum(0xBA, 0xAA), 0x64);
    assert_eq!(wrapping_sum(255, 255), 254);
    assert_eq!(wrapping_difference(0xBA, 0xCC), 0xEE);
    assert_eq!(wrapping_difference(0, 255), 1);
    assert_eq!(wrapping_difference(7, 7), 0);
    assert_eq!(wrapping_double(0xF0), 0xE0);
    assert_eq!(wrapping_double(0x7F), 0xFE);
}

#[test]
fn sprite_is_drawn_into_a_bare_display() {
    let mut gfx = [0u8; 2048];
    let mut memory = [0u8; 4096];
    memory[4095] = 0x80;
    assert!(!draw_sprite(&mut gfx, &memory, 4095, 1, 63, 31));
    assert_eq!(gfx[2047], 1);
    assert_eq!(gfx.iter().filter(|cell| **cell == 1).count(), 1);
    assert!(draw_sprite(&mut gfx, &memory, 4095, 1, 63, 31));
    assert!(gfx.iter().all(|cell| *cell == 0));
}
