use std::cell::RefCell;

use flashcalw::bits::{min, page_region, region_first_page, status_ready, GP_ALL_FUSES_ONE};
use flashcalw::bus::{Access, RegKey, RegisterBus};
use flashcalw::command::{FlashCMD, Speed};
use flashcalw::flashcalw::FLASHCALW;

/// A register file that stands in for the controller: reads give what was
/// written last, and every write is kept in order.
struct Device {
    regs: [u32; 7],
    writes: Vec<(RegKey, u32)>,
    waits: usize,
    accesses: Vec<Access>,
    status_after_command: Option<u32>,
    fuse_commands: bool,
}

fn index(key: RegKey) -> usize {
    match key {
        RegKey::CONTROL => 0,
        RegKey::COMMAND => 1,
        RegKey::STATUS => 2,
        RegKey::PARAMETER => 3,
        RegKey::VERSION => 4,
        RegKey::GPFRHI => 5,
        RegKey::GPFRLO => 6,
    }
}

impl Device {
    fn new() -> Device {
        Device { regs: [0; 7], writes: Vec::new(), waits: 0, accesses: Vec::new(), status_after_command: None, fuse_commands: false }
    }

    fn with(key: RegKey, value: u32) -> Device {
        let mut d = Device::new();
        d.regs[index(key)] = value;
        d
    }

    fn set(&mut self, key: RegKey, value: u32) {
        self.regs[index(key)] = value;
    }

    fn get(&self, key: RegKey) -> u32 {
        self.regs[index(key)]
    }

    fn access(&mut self, a: Access) -> u32 {
        self.accesses.push(a);
        match a {
            Access::WaitUntilReady => {
                self.waits += 1;
                0
            }
            Access::Read(k) => self.regs[index(k)],
            Access::Write(k, v) => {
                self.regs[index(k)] = v;
                self.writes.push((k, v));
                if k == RegKey::COMMAND && self.fuse_commands {
                    self.run_fuse_command(v);
                }
                if k == RegKey::COMMAND {
                    if let Some(s) = self.status_after_command {
                        self.regs[index(RegKey::STATUS)] = s;
                    }
                }
                0
            }
        }
    }

    fn fuses(&self) -> u64 {
        ((self.get(RegKey::GPFRHI) as u64) << 32) | self.get(RegKey::GPFRLO) as u64
    }

    fn set_fuses(&mut self, f: u64) {
        self.set(RegKey::GPFRHI, (f >> 32) as u32);
        self.set(RegKey::GPFRLO, f as u32);
    }

    /// Erase-all sets every fuse; programming a byte clears the fuses where
    /// the value has zeros.
    fn run_fuse_command(&mut self, word: u32) {
        let code = word & 0x3F;
        let arg = (word >> 8) & 0xFFFF;
        if code == 11 {
            self.set_fuses(u64::MAX);
        } else if code == 10 {
            let idx = (arg & 7) as u64;
            let value = ((arg >> 3) & 0xFF) as u64;
            let f = self.fuses() & !(((!value) & 0xFF) << (8 * idx));
            self.set_fuses(f);
        }
    }

    fn command_writes(&self) -> Vec<u32> {
        self.writes.iter().filter(|(k, _)| *k == RegKey::COMMAND).map(|(_, v)| *v).collect()
    }
}

fn word(code: u32, page: u32) -> u32 {
    (0xA5 << 24) | (page << 8) | code
}

#[test]
fn command_codes_follow_the_table() {
    assert_eq!(FlashCMD::NOP.code(), 0);
    assert_eq!(FlashCMD::WP.code(), 1);
    assert_eq!(FlashCMD::EP.code(), 2);
    assert_eq!(FlashCMD::PGPFB.code(), 10);
    assert_eq!(FlashCMD::QPRUP.code(), 15);
    assert_eq!(FlashCMD::HSDIS.code(), 17);
}

#[test]
fn new_driver_has_no_error() {
    let f = FLASHCALW::new(Speed::Standard);
    assert_eq!(f.error_status(), 0);
    assert_eq!(f.speed_mode(), Speed::Standard);
    assert_eq!(f.get_page_size(), 512);
}

#[test]
fn no_operation_writes_the_keyed_word_and_waits_twice() {
    let dev = RefCell::new(Device::new());
    let mut bus = RegisterBus::new(|a: Access| dev.borrow_mut().access(a));
    let mut f = FLASHCALW::new(Speed::Standard);
    f.flashcalw_no_operation(&mut bus);
    assert_eq!(dev.borrow().command_writes(), vec![0xA500_0000]);
    assert_eq!(dev.borrow().waits, 2);
}

#[test]
fn write_page_puts_the_page_in_bits_8_to_23() {
    let dev = RefCell::new(Device::new());
    let mut bus = RegisterBus::new(|a: Access| dev.borrow_mut().access(a));
    let mut f = FLASHCALW::new(Speed::Standard);
    f.write_page(&mut bus, 5);
    assert_eq!(dev.borrow().command_writes(), vec![0xA500_0501]);
    assert_eq!(f.get_page_number(&mut bus), 5);
    assert_eq!(f.get_command(&mut bus), 1);
}

#[test]
fn negative_page_keeps_the_page_field() {
    let dev = RefCell::new(Device::with(RegKey::COMMAND, 0x0012_3405));
    let mut bus = RegisterBus::new(|a: Access| dev.borrow_mut().access(a));
    let mut f = FLASHCALW::new(Speed::Standard);
    f.erase_all(&mut bus);
    assert_eq!(dev.borrow().command_writes(), vec![0xA512_3406]);
    assert_eq!(f.get_page_number(&mut bus), 0x1234);
}

#[test]
fn error_status_keeps_the_lock_and_programming_flags() {
    let dev = RefCell::new(Device::with(RegKey::STATUS, 0x0001_003D));
    let mut bus = RegisterBus::new(|a: Access| dev.borrow_mut().access(a));
    let mut f = FLASHCALW::new(Speed::Standard);
    f.clear_page_buffer(&mut bus);
    assert_eq!(f.error_status(), 0xC);
    assert_eq!(f.get_error_status(&mut bus), 0xC);
    assert!(f.is_lock_error(&mut bus));
    assert!(f.is_programming_error(&mut bus));
    assert!(f.is_ready(&mut bus));
    assert!(f.is_security_bit_active(&mut bus));
    assert!(f.is_page_erased(&mut bus));
}

#[test]
fn status_flags_clear() {
    let dev = RefCell::new(Device::with(RegKey::STATUS, 0));
    let mut bus = RegisterBus::new(|a: Access| dev.borrow_mut().access(a));
    let f = FLASHCALW::new(Speed::Standard);
    assert!(!f.is_ready(&mut bus));
    assert!(!f.is_lock_error(&mut bus));
    assert!(!f.is_programming_error(&mut bus));
    assert!(!f.is_security_bit_active(&mut bus));
    assert!(!f.is_page_erased(&mut bus));
    assert_eq!(f.get_error_status(&mut bus), 0);
    f.handle_interrupt(&mut bus);
    assert!(status_ready(1));
    assert!(!status_ready(2));
}

#[test]
fn flash_size_follows_the_fsz_table() {
    let f = FLASHCALW::new(Speed::Standard);
    let expected: [u32; 15] = [4, 8, 16, 32, 48, 64, 96, 128, 192, 256, 384, 512, 768, 1024, 2048];
    for (fsz, size) in expected.iter().enumerate() {
        let dev = RefCell::new(Device::with(RegKey::PARAMETER, 0x0700 | fsz as u32));
        let mut bus = RegisterBus::new(|a: Access| dev.borrow_mut().access(a));
        assert_eq!(f.get_flash_size(&mut bus), *size);
        assert_eq!(f.get_page_count(&mut bus), *size / 512);
        assert_eq!(f.get_page_count_per_region(&mut bus), *size / 512 / 16);
    }
}

#[test]
fn region_first_page_is_zero_with_no_page_per_region() {
    let dev = RefCell::new(Device::with(RegKey::PARAMETER, 0xE));
    let mut bus = RegisterBus::new(|a: Access| dev.borrow_mut().access(a));
    let f = FLASHCALW::new(Speed::Standard);
    assert_eq!(f.get_region_first_page_number(&mut bus, 7), 0);
}

#[test]
fn geometry_helpers() {
    assert_eq!(region_first_page(3, 8), 24);
    assert_eq!(page_region(24, 8), 3);
    assert_eq!(page_region(31, 8), 3);
    assert_eq!(page_region(32, 8), 4);
}

#[test]
fn wait_state_set_and_read_back() {
    let dev = RefCell::new(Device::with(RegKey::CONTROL, 0x0000_0105));
    let mut bus = RegisterBus::new(|a: Access| dev.borrow_mut().access(a));
    let f = FLASHCALW::new(Speed::Standard);
    assert_eq!(f.get_wait_state(&mut bus), 0);
    f.set_wait_state(&mut bus, 1);
    assert_eq!(dev.borrow().get(RegKey::CONTROL), 0x0000_0145);
    assert_eq!(f.get_wait_state(&mut bus), 1);
    f.set_wait_state(&mut bus, 7);
    assert_eq!(dev.borrow().get(RegKey::CONTROL), 0x0000_0105);
    assert_eq!(f.get_wait_state(&mut bus), 0);
}

#[test]
fn ready_interrupt_enable_and_read_back() {
    let dev = RefCell::new(Device::new());
    let mut bus = RegisterBus::new(|a: Access| dev.borrow_mut().access(a));
    let f = FLASHCALW::new(Speed::Standard);
    assert!(!f.is_ready_int_enabled(&mut bus));
    f.enable_ready_int(&mut bus, true);
    assert_eq!(dev.borrow().get(RegKey::CONTROL), 0x1);
    assert!(f.is_ready_int_enabled(&mut bus));
    f.enable_ready_int(&mut bus, false);
    assert!(!f.is_ready_int_enabled(&mut bus));
}

#[test]
fn error_interrupt_enables_write_control_but_read_command() {
    let dev = RefCell::new(Device::new());
    let mut bus = RegisterBus::new(|a: Access| dev.borrow_mut().access(a));
    let f = FLASHCALW::new(Speed::Standard);
    f.enable_lock_error_int(&mut bus, true);
    f.enable_prog_error_int(&mut bus, true);
    assert_eq!(dev.borrow().get(RegKey::CONTROL), 0xC);
    assert!(!f.is_lock_error_int_enabled(&mut bus));
    assert!(!f.is_prog_error_int_enabled(&mut bus));
    dev.borrow_mut().set(RegKey::COMMAND, 0xC);
    assert!(f.is_lock_error_int_enabled(&mut bus));
    assert!(f.is_prog_error_int_enabled(&mut bus));
    f.enable_lock_error_int(&mut bus, false);
    assert_eq!(dev.borrow().get(RegKey::CONTROL), 0x8);
}

#[test]
fn region_lock_flags_are_bits_16_up() {
    let dev = RefCell::new(Device::with(RegKey::STATUS, 1 << 19));
    let mut bus = RegisterBus::new(|a: Access| dev.borrow_mut().access(a));
    let f = FLASHCALW::new(Speed::Standard);
    assert!(f.is_region_locked(&mut bus, 3));
    assert!(!f.is_region_locked(&mut bus, 2));
    assert!(!f.is_region_locked(&mut bus, 15));
}

#[test]
fn lock_and_unlock_page_region() {
    let dev = RefCell::new(Device::new());
    let mut bus = RegisterBus::new(|a: Access| dev.borrow_mut().access(a));
    let mut f = FLASHCALW::new(Speed::Standard);
    f.lock_page_region(&mut bus, 9, true);
    f.lock_page_region(&mut bus, 9, false);
    assert_eq!(dev.borrow().command_writes(), vec![word(4, 9), word(5, 9)]);
}

#[test]
fn lock_all_regions_issues_sixteen_commands_and_ors_the_errors() {
    let dev = RefCell::new(Device::with(RegKey::PARAMETER, 0xE));
    dev.borrow_mut().set(RegKey::STATUS, 0x4);
    let mut bus = RegisterBus::new(|a: Access| dev.borrow_mut().access(a));
    let mut f = FLASHCALW::new(Speed::Standard);
    f.lock_all_regions(&mut bus, true);
    let w = dev.borrow().command_writes();
    assert_eq!(w.len(), 16);
    assert!(w.iter().all(|x| *x == word(4, 0)));
    assert_eq!(f.error_status(), 0x4);
    f.lock_region(&mut bus, 2, false);
    assert_eq!(*dev.borrow().command_writes().last().unwrap(), word(5, 0));
}

#[test]
fn read_fuses_from_both_registers() {
    let dev = RefCell::new(Device::with(RegKey::GPFRHI, 0x1122_3344));
    dev.borrow_mut().set(RegKey::GPFRLO, 0x5566_7788);
    let mut bus = RegisterBus::new(|a: Access| dev.borrow_mut().access(a));
    let f = FLASHCALW::new(Speed::Standard);
    assert_eq!(f.read_all_gp_fuses(&mut bus), 0x1122_3344_5566_7788);
    assert_eq!(f.read_gp_fuse_byte(&mut bus, 0), 0x88);
    assert_eq!(f.read_gp_fuse_byte(&mut bus, 4), 0x44);
    assert_eq!(f.read_gp_fuse_byte(&mut bus, 7), 0x11);
    assert_eq!(f.read_gp_fuse_byte(&mut bus, 8), 0x88);
    assert!(f.read_gp_fuse_bit(&mut bus, 3));
    assert!(!f.read_gp_fuse_bit(&mut bus, 2));
    assert!(f.read_gp_fuse_bit(&mut bus, 64 + 3));
    assert_eq!(f.read_gp_fuse_bitfield(&mut bus, 4, 8), 0x78);
    assert_eq!(f.read_gp_fuse_bitfield(&mut bus, 60, 4), 0x1);
    assert_eq!(f.read_gp_fuse_bitfield(&mut bus, 0, 0), 0);
}

#[test]
fn erase_and_write_single_fuse_bits() {
    let dev = RefCell::new(Device::new());
    let mut bus = RegisterBus::new(|a: Access| dev.borrow_mut().access(a));
    let mut f = FLASHCALW::new(Speed::Standard);
    assert!(f.erase_gp_fuse_bit(&mut bus, 70, false));
    f.write_gp_fuse_bit(&mut bus, 5, true);
    f.write_gp_fuse_bit(&mut bus, 5, false);
    f.set_gp_fuse_bit(&mut bus, 1, true);
    f.set_gp_fuse_bit(&mut bus, 1, false);
    assert_eq!(
        dev.borrow().command_writes(),
        vec![word(8, 6), word(7, 5), word(8, 1), word(7, 1)]
    );
}

#[test]
fn erase_fuse_bit_with_check_reads_it_back() {
    let dev = RefCell::new(Device::with(RegKey::GPFRLO, 0x40));
    let mut bus = RegisterBus::new(|a: Access| dev.borrow_mut().access(a));
    let mut f = FLASHCALW::new(Speed::Standard);
    assert!(f.erase_gp_fuse_bit(&mut bus, 6, true));
    assert!(!f.erase_gp_fuse_bit(&mut bus, 7, true));
}

#[test]
fn erase_all_fuses_with_check() {
    let dev = RefCell::new(Device::new());
    let mut bus = RegisterBus::new(|a: Access| dev.borrow_mut().access(a));
    let mut f = FLASHCALW::new(Speed::Standard);
    assert!(!f.erase_all_gp_fuses(&mut bus, true));
    dev.borrow_mut().set(RegKey::GPFRHI, 0xFFFF_FFFF);
    dev.borrow_mut().set(RegKey::GPFRLO, 0xFFFF_FFFF);
    assert!(f.erase_all_gp_fuses(&mut bus, true));
    assert!(f.erase_all_gp_fuses(&mut bus, false));
    assert_eq!(dev.borrow().command_writes().len(), 3);
    assert!(dev.borrow().command_writes().iter().all(|x| *x == 0xA500_000B));
}

#[test]
fn write_fuse_byte_argument() {
    let dev = RefCell::new(Device::new());
    let mut bus = RegisterBus::new(|a: Access| dev.borrow_mut().access(a));
    let mut f = FLASHCALW::new(Speed::Standard);
    f.write_gp_fuse_byte(&mut bus, 10, 0xAB);
    assert_eq!(dev.borrow().command_writes(), vec![word(10, 2 | (0xAB << 3))]);
}

#[test]
fn write_all_fuses_programs_each_byte_in_order() {
    let dev = RefCell::new(Device::new());
    let mut bus = RegisterBus::new(|a: Access| dev.borrow_mut().access(a));
    let mut f = FLASHCALW::new(Speed::Standard);
    let value: u64 = 0x0807_0605_0403_0201;
    f.write_all_gp_fuses(&mut bus, value);
    let w = dev.borrow().command_writes();
    assert_eq!(w.len(), 8);
    let mut rebuilt: u64 = 0;
    for (j, x) in w.iter().enumerate() {
        assert_eq!(x & 0x3F, 10);
        let arg = (x >> 8) & 0xFFFF;
        assert_eq!(arg & 7, j as u32);
        rebuilt |= ((arg >> 3) as u64) << (8 * j);
    }
    assert_eq!(rebuilt, value);
}

#[test]
fn erase_fuse_byte_rewrites_the_other_bytes() {
    let dev = RefCell::new(Device::with(RegKey::GPFRHI, 0x8877_6655));
    dev.borrow_mut().set(RegKey::GPFRLO, 0x4433_2211);
    let mut bus = RegisterBus::new(|a: Access| dev.borrow_mut().access(a));
    let mut f = FLASHCALW::new(Speed::Standard);
    assert!(f.erase_gp_fuse_byte(&mut bus, 2, false));
    let w = dev.borrow().command_writes();
    let expected = vec![
        0xA500_000B,
        word(10, 0 | (0x11 << 3)),
        word(10, 1 | (0x22 << 3)),
        word(10, 3 | (0x44 << 3)),
        word(10, 4 | (0x55 << 3)),
        word(10, 5 | (0x66 << 3)),
        word(10, 6 | (0x77 << 3)),
        word(10, 7 | (0x88 << 3)),
    ];
    assert_eq!(w, expected);
}

#[test]
fn erase_fuse_byte_above_seven_rewrites_every_byte() {
    let dev = RefCell::new(Device::new());
    let mut bus = RegisterBus::new(|a: Access| dev.borrow_mut().access(a));
    let mut f = FLASHCALW::new(Speed::Standard);
    f.erase_gp_fuse_byte(&mut bus, 9, false);
    assert_eq!(dev.borrow().command_writes().len(), 9);
}

#[test]
fn erase_fuse_byte_with_check() {
    let dev = RefCell::new(Device::with(RegKey::GPFRLO, 0x00FF_0000));
    let mut bus = RegisterBus::new(|a: Access| dev.borrow_mut().access(a));
    let mut f = FLASHCALW::new(Speed::Standard);
    assert!(f.erase_gp_fuse_byte(&mut bus, 2, true));
    assert!(!f.erase_gp_fuse_byte(&mut bus, 1, true));
}

#[test]
fn set_fuse_byte_variants() {
    let dev = RefCell::new(Device::new());
    let mut bus = RegisterBus::new(|a: Access| dev.borrow_mut().access(a));
    let mut f = FLASHCALW::new(Speed::Standard);
    f.set_gp_fuse_byte(&mut bus, 1, 0x00);
    assert_eq!(dev.borrow().command_writes(), vec![word(10, 1)]);

    let dev = RefCell::new(Device::new());
    let mut bus = RegisterBus::new(|a: Access| dev.borrow_mut().access(a));
    f.set_gp_fuse_byte(&mut bus, 1, 0xFF);
    assert_eq!(dev.borrow().command_writes().len(), 8);

    let dev = RefCell::new(Device::with(RegKey::STATUS, 0x8));
    let mut bus = RegisterBus::new(|a: Access| dev.borrow_mut().access(a));
    f.set_gp_fuse_byte(&mut bus, 1, 0x5A);
    let w = dev.borrow().command_writes();
    assert_eq!(w.len(), 9);
    assert_eq!(w[8], word(10, 1 | (0x5A << 3)));
    assert_eq!(f.error_status(), 0x8);
}

#[test]
fn set_all_fuses_variants() {
    let dev = RefCell::new(Device::new());
    let mut bus = RegisterBus::new(|a: Access| dev.borrow_mut().access(a));
    let mut f = FLASHCALW::new(Speed::Standard);
    f.set_all_gp_fuses(&mut bus, GP_ALL_FUSES_ONE);
    assert_eq!(dev.borrow().command_writes(), vec![0xA500_000B]);

    let dev = RefCell::new(Device::new());
    let mut bus = RegisterBus::new(|a: Access| dev.borrow_mut().access(a));
    f.set_all_gp_fuses(&mut bus, 0);
    assert_eq!(dev.borrow().command_writes().len(), 8);

    let dev = RefCell::new(Device::new());
    let mut bus = RegisterBus::new(|a: Access| dev.borrow_mut().access(a));
    f.set_all_gp_fuses(&mut bus, 0x1234);
    let w = dev.borrow().command_writes();
    assert_eq!(w.len(), 9);
    assert_eq!(w[0], 0xA500_000B);
    assert_eq!(w[1], word(10, 0 | (0x34 << 3)));
    assert_eq!(w[2], word(10, 1 | (0x12 << 3)));
    assert_eq!(w[3], word(10, 2));
}

#[test]
fn write_fuse_bitfield_clears_only_zero_bits() {
    let dev = RefCell::new(Device::new());
    let mut bus = RegisterBus::new(|a: Access| dev.borrow_mut().access(a));
    let mut f = FLASHCALW::new(Speed::Standard);
    f.write_gp_fuse_bitfield(&mut bus, 4 + 64, 4, 0b0101);
    assert_eq!(dev.borrow().command_writes(), vec![word(7, 5), word(7, 7)]);
}

#[test]
fn write_fuse_bitfield_keeps_earlier_errors_when_bit_zero_is_one() {
    let dev = RefCell::new(Device::with(RegKey::STATUS, 0x4));
    let mut bus = RegisterBus::new(|a: Access| dev.borrow_mut().access(a));
    let mut f = FLASHCALW::new(Speed::Standard);
    f.clear_page_buffer(&mut bus);
    assert_eq!(f.error_status(), 0x4);
    dev.borrow_mut().set(RegKey::STATUS, 0x0);
    f.write_gp_fuse_bitfield(&mut bus, 0, 2, 0b01);
    assert_eq!(f.error_status(), 0x4);
    f.write_gp_fuse_bitfield(&mut bus, 0, 2, 0b10);
    assert_eq!(f.error_status(), 0x0);
    f.write_gp_fuse_bitfield(&mut bus, 0, 0, 0);
    assert_eq!(f.error_status(), 0x0);
}

#[test]
fn set_fuse_bitfield_erases_ones_and_writes_zeros() {
    let dev = RefCell::new(Device::new());
    let mut bus = RegisterBus::new(|a: Access| dev.borrow_mut().access(a));
    let mut f = FLASHCALW::new(Speed::Standard);
    f.set_gp_fuse_bitfield(&mut bus, 62, 3, 0b101);
    assert_eq!(dev.borrow().command_writes(), vec![word(8, 62), word(7, 63), word(8, 0)]);
}

#[test]
fn erase_fuse_bitfield_with_check() {
    let dev = RefCell::new(Device::with(RegKey::GPFRLO, 0xF0));
    let mut bus = RegisterBus::new(|a: Access| dev.borrow_mut().access(a));
    let mut f = FLASHCALW::new(Speed::Standard);
    assert!(f.erase_gp_fuse_bitfield(&mut bus, 4, 4, true));
    assert!(!f.erase_gp_fuse_bitfield(&mut bus, 3, 4, true));
    assert!(f.erase_gp_fuse_bitfield(&mut bus, 0, 100, false));
    let w = dev.borrow().command_writes();
    assert_eq!(w.len(), 4 + 4 + 64);
    assert_eq!(w[0], word(8, 4));
    assert_eq!(w[7], word(8, 6));
}

#[test]
fn quick_page_read_and_erase_page() {
    let dev = RefCell::new(Device::with(RegKey::STATUS, 0x20));
    let mut bus = RegisterBus::new(|a: Access| dev.borrow_mut().access(a));
    let mut f = FLASHCALW::new(Speed::Standard);
    assert!(f.quick_page_read(&mut bus, 3));
    assert!(f.erase_page(&mut bus, 3, true));
    assert!(f.erase_page(&mut bus, 3, false));
    dev.borrow_mut().set(RegKey::STATUS, 0x0);
    assert!(!f.erase_page(&mut bus, 4, true));
    assert!(f.erase_page(&mut bus, 4, false));
    let w = dev.borrow().command_writes();
    assert_eq!(w[0], word(12, 3));
    assert_eq!(w[1], word(2, 3));
    assert_eq!(w[2], 0xA500_030C);
}

#[test]
fn erase_all_pages_goes_down_from_the_last_page() {
    let dev = RefCell::new(Device::with(RegKey::PARAMETER, 0xE));
    dev.borrow_mut().set(RegKey::STATUS, 0x24);
    let mut bus = RegisterBus::new(|a: Access| dev.borrow_mut().access(a));
    let mut f = FLASHCALW::new(Speed::Standard);
    assert!(f.erase_all_pages(&mut bus, false));
    let w = dev.borrow().command_writes();
    assert_eq!(w, vec![word(2, 3), word(2, 2), word(2, 1), word(2, 0)]);
    assert_eq!(f.error_status(), 0x4);
    assert!(f.erase_all_pages(&mut bus, true));
    assert_eq!(dev.borrow().command_writes().len(), 4 + 8);
}

#[test]
fn erase_all_pages_with_no_page() {
    let dev = RefCell::new(Device::with(RegKey::PARAMETER, 0x3));
    let mut bus = RegisterBus::new(|a: Access| dev.borrow_mut().access(a));
    let mut f = FLASHCALW::new(Speed::Standard);
    assert!(f.erase_all_pages(&mut bus, true));
    assert!(dev.borrow().command_writes().is_empty());
    assert_eq!(f.error_status(), 0);
}

#[test]
fn user_page_commands() {
    let dev = RefCell::new(Device::with(RegKey::STATUS, 0x20));
    let mut bus = RegisterBus::new(|a: Access| dev.borrow_mut().access(a));
    let mut f = FLASHCALW::new(Speed::Standard);
    f.write_user_page(&mut bus);
    assert!(f.quick_user_page_read(&mut bus));
    assert!(f.erase_user_page(&mut bus, true));
    assert!(f.erase_user_page(&mut bus, false));
    let w: Vec<u32> = dev.borrow().command_writes().iter().map(|x| x & 0x3F).collect();
    assert_eq!(w, vec![13, 15, 14, 15, 14]);
}

#[test]
fn security_bit_command() {
    let dev = RefCell::new(Device::new());
    let mut bus = RegisterBus::new(|a: Access| dev.borrow_mut().access(a));
    let mut f = FLASHCALW::new(Speed::Standard);
    f.set_security_bit(&mut bus);
    assert_eq!(dev.borrow().command_writes(), vec![0xA500_0009]);
}

fn readmode(cpu_freq: u32, ps_val: u32, fwu: bool) -> (u32, u32) {
    let dev = RefCell::new(Device::new());
    let mut bus = RegisterBus::new(|a: Access| dev.borrow_mut().access(a));
    let mut f = FLASHCALW::new(Speed::Standard);
    f.set_flash_waitstate_and_readmode(&mut bus, cpu_freq, ps_val, fwu);
    let ws = f.get_wait_state(&mut bus);
    let code = dev.borrow().command_writes()[0] & 0x3F;
    (ws, code)
}

#[test]
fn wait_state_and_read_mode_by_frequency() {
    assert_eq!(readmode(48_000_000, 0, false), (1, 16));
    assert_eq!(readmode(36_000_000, 0, false), (1, 17));
    assert_eq!(readmode(18_000_001, 0, false), (1, 17));
    assert_eq!(readmode(18_000_000, 0, false), (0, 17));
    assert_eq!(readmode(12_000_000, 0, true), (1, 17));
    assert_eq!(readmode(12_000_001, 0, true), (0, 17));
    assert_eq!(readmode(8_000_001, 1, false), (1, 17));
    assert_eq!(readmode(8_000_000, 1, true), (0, 17));
}

#[test]
fn high_speed_read_mode_variant() {
    let dev = RefCell::new(Device::new());
    let mut bus = RegisterBus::new(|a: Access| dev.borrow_mut().access(a));
    let mut f = FLASHCALW::new(Speed::HighSpeed);
    f.set_flash_waitstate_and_readmode_high_speed(&mut bus, 24_000_001, 1, false);
    assert_eq!(f.get_wait_state(&mut bus), 1);
    f.set_flash_waitstate_and_readmode_high_speed(&mut bus, 24_000_000, 0, true);
    assert_eq!(f.get_wait_state(&mut bus), 0);
    let w: Vec<u32> = dev.borrow().command_writes().iter().map(|x| x & 0x3F).collect();
    assert_eq!(w, vec![16, 16]);
}

#[test]
fn one_fuse_field_is_that_fuse() {
    let dev = RefCell::new(Device::with(RegKey::GPFRHI, 0x8000_0001));
    dev.borrow_mut().set(RegKey::GPFRLO, 0x0000_0004);
    let mut bus = RegisterBus::new(|a: Access| dev.borrow_mut().access(a));
    let f = FLASHCALW::new(Speed::Standard);
    for pos in 0..70u32 {
        let bit = f.read_gp_fuse_bit(&mut bus, pos);
        assert_eq!(f.read_gp_fuse_bitfield(&mut bus, pos, 1), if bit { 1 } else { 0 });
    }
}

#[test]
fn every_command_word_carries_the_key() {
    let dev = RefCell::new(Device::with(RegKey::COMMAND, 0x5A00_0000));
    let mut bus = RegisterBus::new(|a: Access| dev.borrow_mut().access(a));
    let mut f = FLASHCALW::new(Speed::Standard);
    f.clear_page_buffer(&mut bus);
    assert_eq!(dev.borrow().command_writes(), vec![0xFF00_0003]);
    f.write_page(&mut bus, 0x1_0002);
    let w = dev.borrow().command_writes()[1];
    assert_eq!((w >> 24) & 0xA5, 0xA5);
    assert_eq!(w, 0xA500_0201);
}

#[test]
fn command_accesses_come_in_order() {
    let dev = RefCell::new(Device::with(RegKey::COMMAND, 0x12));
    let mut bus = RegisterBus::new(|a: Access| dev.borrow_mut().access(a));
    let mut f = FLASHCALW::new(Speed::Standard);
    f.write_page(&mut bus, 2);
    assert_eq!(
        dev.borrow().accesses,
        vec![
            Access::WaitUntilReady,
            Access::Read(RegKey::COMMAND),
            Access::Write(RegKey::COMMAND, word(1, 2)),
            Access::Read(RegKey::STATUS),
            Access::WaitUntilReady,
        ]
    );
}

#[test]
fn error_flags_come_from_the_status_after_the_command() {
    let dev = RefCell::new(Device::with(RegKey::STATUS, 0x1));
    dev.borrow_mut().status_after_command = Some(0x9);
    let mut bus = RegisterBus::new(|a: Access| dev.borrow_mut().access(a));
    let mut f = FLASHCALW::new(Speed::Standard);
    f.erase_all(&mut bus);
    assert_eq!(f.error_status(), 0x8);
}

#[test]
fn wait_state_is_selected_before_the_read_mode_command() {
    let dev = RefCell::new(Device::new());
    let mut bus = RegisterBus::new(|a: Access| dev.borrow_mut().access(a));
    let mut f = FLASHCALW::new(Speed::Standard);
    f.set_flash_waitstate_and_readmode(&mut bus, 10_000_000, 1, false);
    let a = dev.borrow().accesses.clone();
    assert_eq!(a[0], Access::Read(RegKey::CONTROL));
    assert_eq!(a[1], Access::Write(RegKey::CONTROL, 0x40));
    assert_eq!(a[2], Access::WaitUntilReady);
    assert_eq!(a[4], Access::Write(RegKey::COMMAND, word(17, 0)));
    assert_eq!(a.len(), 7);
}

#[test]
fn erase_check_reads_the_fuses_after_the_commands() {
    let dev = RefCell::new(Device::new());
    let mut bus = RegisterBus::new(|a: Access| dev.borrow_mut().access(a));
    let mut f = FLASHCALW::new(Speed::Standard);
    f.erase_gp_fuse_byte(&mut bus, 3, true);
    let a = dev.borrow().accesses.clone();
    let n = a.len();
    assert_eq!(a[n - 2], Access::Read(RegKey::GPFRHI));
    assert_eq!(a[n - 1], Access::Read(RegKey::GPFRLO));
    assert_eq!(a[n - 3], Access::WaitUntilReady);
    assert_eq!(n, 2 + 5 * 8 + 2);
}

#[test]
fn smaller_of_two() {
    assert_eq!(min(3, 64), 3);
    assert_eq!(min(100, 64), 64);
    assert_eq!(min(7, 7), 7);
}

#[test]
fn erase_fuse_byte_leaves_the_other_bytes_on_a_controller() {
    let dev = RefCell::new(Device::new());
    dev.borrow_mut().fuse_commands = true;
    dev.borrow_mut().set_fuses(0x0123_4567_89AB_CDEF);
    let mut bus = RegisterBus::new(|a: Access| dev.borrow_mut().access(a));
    let mut f = FLASHCALW::new(Speed::Standard);
    assert!(f.erase_gp_fuse_byte(&mut bus, 2, true));
    assert_eq!(dev.borrow().fuses(), 0x0123_4567_89FF_CDEF);
    assert!(f.erase_gp_fuse_byte(&mut bus, 9, true) == false);
    assert_eq!(dev.borrow().fuses(), 0x0123_4567_89FF_CDEF);
}

#[test]
fn set_all_fuses_on_a_controller() {
    let dev = RefCell::new(Device::new());
    dev.borrow_mut().fuse_commands = true;
    let mut bus = RegisterBus::new(|a: Access| dev.borrow_mut().access(a));
    let mut f = FLASHCALW::new(Speed::Standard);
    f.set_all_gp_fuses(&mut bus, 0x5A5A_0000_FFFF_1234);
    assert_eq!(dev.borrow().fuses(), 0x5A5A_0000_FFFF_1234);
    assert_eq!(f.read_all_gp_fuses(&mut bus), 0x5A5A_0000_FFFF_1234);
}

#[test]
fn set_all_fuses_to_zero_and_all_ones_on_a_controller() {
    let dev = RefCell::new(Device::new());
    dev.borrow_mut().fuse_commands = true;
    dev.borrow_mut().set_fuses(0xDEAD_BEEF_0BAD_F00D);
    let mut bus = RegisterBus::new(|a: Access| dev.borrow_mut().access(a));
    let mut f = FLASHCALW::new(Speed::Standard);
    f.set_all_gp_fuses(&mut bus, 0);
    assert_eq!(f.read_all_gp_fuses(&mut bus), 0);
    f.set_all_gp_fuses(&mut bus, GP_ALL_FUSES_ONE);
    assert_eq!(f.read_all_gp_fuses(&mut bus), GP_ALL_FUSES_ONE);
}

#[test]
fn set_fuse_byte_on_a_controller() {
    let dev = RefCell::new(Device::new());
    dev.borrow_mut().fuse_commands = true;
    dev.borrow_mut().set_fuses(0x0123_4567_89AB_CDEF);
    let mut bus = RegisterBus::new(|a: Access| dev.borrow_mut().access(a));
    let mut f = FLASHCALW::new(Speed::Standard);
    f.set_gp_fuse_byte(&mut bus, 1, 0x5A);
    assert_eq!(f.read_all_gp_fuses(&mut bus), 0x0123_4567_89AB_5AEF);
    f.set_gp_fuse_byte(&mut bus, 7, 0x00);
    assert_eq!(f.read_all_gp_fuses(&mut bus), 0x0023_4567_89AB_5AEF);
    f.set_gp_fuse_byte(&mut bus, 0, 0xFF);
    assert_eq!(f.read_all_gp_fuses(&mut bus), 0x0023_4567_89AB_5AFF);
}
