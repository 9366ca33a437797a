//! What each field of the controller's registers is, stated arithmetically
//! over all register words: a flag is one binary digit of the word, a
//! field is a run of digits, and the fuses are the two fuse registers as
//! one 64-bit number. The driver's readers return these values, so these
//! laws fix what every reader gives for every word the controller returns.
use vstd::prelude::*;
use crate::bits::{
    command_field, error_bits, fuse_bit, fuse_bit_arg, fuse_bitfield, fuse_byte, fuse_byte_arg,
    fuses_of, key_field, lock_error_flag, page_erased_flag, page_field, programming_error_flag,
    ready_flag, region_locked_flag, security_flag, wait_state_field, ready_int_flag,
    lock_error_int_flag, prog_error_int_flag, low_mask, min_u32, flash_size_table,
    FLASH_FREQ_PS2_FWS_0_MAX_FREQ,
};
use crate::bus::{BusEvent, RegKey, event_errors};
use crate::command::FlashCMD;
use crate::flashcalw::{lock_command, readmode_command, readmode_wait_state};
use crate::fuses::{set_bit_command, value_bit};

verus! {

/// Each flag of the status register is one binary digit of the status word:
/// ready is digit 0, lock error digit 2, programming error digit 3, the
/// security bit digit 4 and the page-erased report of a quick page read
/// digit 5. No other digit changes a flag.
pub proof fn law_status_flags(status: u32)
    ensures
        ready_flag(status) == ((status / 1) % 2 == 1),
        lock_error_flag(status) == ((status / 4) % 2 == 1),
        programming_error_flag(status) == ((status / 8) % 2 == 1),
        security_flag(status) == ((status / 16) % 2 == 1),
        page_erased_flag(status) == ((status / 32) % 2 == 1),
{
    assert((status & 0x1 != 0) == ((status / 1) % 2 == 1) && (status & 0x4 != 0) == ((status / 4)
        % 2 == 1) && (status & 0x8 != 0) == ((status / 8) % 2 == 1) && (status & 0x10 != 0) == ((
    status / 16) % 2 == 1) && (status & 0x20 != 0) == ((status / 32) % 2 == 1)) by (bit_vector);
}

/// The error status is the lock error flag worth 4 plus the programming
/// error flag worth 8, and nothing else of the status word; a command
/// reports the error status of the status word read after it, a read
/// reports no error.
pub proof fn law_error_status(status: u32, command: FlashCMD, page_number: i32, previous: u32, key: RegKey, value: u32)
    ensures
        error_bits(status) == (if lock_error_flag(status) { 4u32 } else { 0u32 }) + (if programming_error_flag(status) { 8u32 } else { 0u32 }),
        event_errors(BusEvent::Command { command, page_number, previous, status }) == error_bits(status),
        event_errors(BusEvent::Read { key, value }) == 0,
        event_errors(BusEvent::Write { key, value }) == 0,
{
    assert(status & 0xC == (if status & 0x4 != 0 { 4u32 } else { 0u32 }) + (if status & 0x8 != 0 { 8u32 } else { 0u32 })) by (bit_vector);
}

/// The lock flag of region `region` is binary digit `16 + region` of the
/// status word, for each of the 16 regions.
pub proof fn law_region_locked_flag(status: u32, region: u32)
    requires
        region < 16,
    ensures
        region_locked_flag(status, region) == ((status >> (16 + region) as u32) % 2 == 1),
{
    let k: u32 = (region + 16) as u32;
    assert((status & (1u32 << k) != 0) == ((status >> k) % 2 == 1)) by (bit_vector)
        requires k < 32;
}

/// The wait state read from the control register is its binary digit 6.
pub proof fn law_wait_state_field(control: u32)
    ensures
        wait_state_field(control) == (control / 64) % 2,
{
    assert((control & 0x40 == 0) == ((control / 64) % 2 == 0)) by (bit_vector);
}

/// The fields of the command register: the command code is the word modulo
/// 64, the page number the 16 digits from digit 8, the key the top 8 digits.
pub proof fn law_command_register_fields(word: u32)
    ensures
        command_field(word) == word % 64,
        page_field(word) == (word / 256) % 65536,
        key_field(word) == word / 16777216,
{
    assert(word & 0x3F == word % 64 && (word & 0x00FF_FF00) >> 8 == (word / 256) % 65536 && word
        >> 24 == word / 16777216) by (bit_vector);
}

/// The 64 fuses are the high fuse register times 2^32 plus the low one.
pub proof fn law_fuses_of_registers(hi: u32, lo: u32)
    ensures
        fuses_of(hi, lo) == hi as int * 0x1_0000_0000 + lo as int,
{
    let h: u64 = hi as u64;
    let l: u64 = lo as u64;
    assert(l | (h << 32u64) == h * 0x1_0000_0000 + l) by (bit_vector)
        requires h < 0x1_0000_0000, l < 0x1_0000_0000;
}

/// Fuse `bit` is binary digit `bit % 64` of the fuses, and fuse byte `byte`
/// is base-256 digit `byte % 8` of the fuses.
pub proof fn law_fuse_bit_and_byte(fuses: u64, bit: u32, byte: u32)
    ensures
        fuse_bit(fuses, bit) == ((fuses >> (bit % 64) as u64) % 2 == 1),
        fuse_byte(fuses, byte) as u64 == (fuses >> (8 * (byte % 8)) as u64) % 256,
{
    let b: u64 = (bit % 64) as u64;
    let s: u64 = (8 * (byte % 8)) as u64;
    assert(bit & 0x3F == bit % 64 && ((byte & 7) << 3u32) == 8 * (byte % 8) && (fuses & (1u64
        << b) != 0) == ((fuses >> b) % 2 == 1) && (fuses >> s) as u8 as u64 == (fuses >> s) % 256)
        by (bit_vector)
        requires b == bit % 64, s == 8 * (byte % 8);
}

/// The field of `width` fuses from `pos` (taken modulo 64): for every
/// width below 64, binary digit `i` of the field is fuse `pos % 64 + i` for
/// `i < width` (0 past fuse 63), and 0 from digit `width` on.
pub proof fn law_fuse_bitfield_digits(fuses: u64, pos: u32, width: u32)
    requires
        width < 64,
    ensures
        forall|i: u64|
            i < 64 ==> #[trigger] ((fuse_bitfield(fuses, pos, width) >> i) % 2) == (if i < width
                && (pos % 64) + i < 64 {
                (fuses >> ((pos % 64) + i) as u64) % 2
            } else {
                0
            }),
{
    let p: u64 = (pos % 64) as u64;
    let w: u64 = width as u64;
    assert(pos & 0x3F == pos % 64 && (fuses >> (pos & 0x3F)) == (fuses >> p) && (1u64 << width) == (
    1u64 << w)) by (bit_vector)
        requires p == pos % 64, w == width;
    assert forall|i: u64| i < 64 implies #[trigger] ((fuse_bitfield(fuses, pos, width) >> i) % 2)
        == (if i < width && (pos % 64) + i < 64 {
        (fuses >> ((pos % 64) + i) as u64) % 2
    } else {
        0
    }) by {
        let q: u64 = (p + i) as u64;
        assert((i < w && q < 64 ==> (((fuses >> p) & (((1u64 << w) - 1) as u64)) >> i) % 2 == (
        fuses >> q) % 2) && (!(i < w && q < 64) ==> (((fuses >> p) & (((1u64 << w) - 1) as u64))
            >> i) % 2 == 0)) by (bit_vector)
            requires p < 64, w < 64, i < 64, q == p + i;
    }
}

/// Bit `i` of a value, as the fuse-bit writers walk it: binary digit `i`,
/// for each of the 64 digits.
pub proof fn law_value_bit(value: u64, i: u64)
    requires
        i < 64,
    ensures
        value_bit(value, i as int) == ((value >> i) % 2 == 1),
        value_bit(value, i as int) == (value & (1u64 << i) != 0),
{
    assert(((value >> i) & 1 != 0) == ((value >> i) % 2 == 1) && ((value >> i) & 1 != 0) == (value
        & (1u64 << i) != 0)) by (bit_vector)
        requires i < 64;
}

/// The arguments of the fuse commands: a single-fuse command carries the
/// fuse number modulo 64; a byte-programming command carries the byte index
/// modulo 8 plus 8 times the byte value.
pub proof fn law_fuse_command_args(bit: u32, byte: u32, value: u8)
    ensures
        fuse_bit_arg(bit) == (bit % 64) as i32,
        fuse_byte_arg(byte, value) == (byte % 8 + 8 * value) as i32,
{
    let b: i32 = bit as i32;
    assert((b & 0x3F) as int == (bit % 64) as int && ((byte & 7) | ((value as u32) << 3u32)) == byte
        % 8 + 8 * (value as u32)) by (bit_vector)
        requires b == bit as i32;
}

/// A fuse gets the value 1 only by an erase: the command that gives a fuse
/// the value `true` is the erase-bit command, and for `false` the
/// write-bit command, which clears it.
pub proof fn law_set_bit_command()
    ensures
        set_bit_command(true) == FlashCMD::EGPB,
        set_bit_command(false) == FlashCMD::WGPB,
{
}

/// The wait state that `set_flash_waitstate_and_readmode` selects, over
/// every frequency: with power scaling 0, one wait state above 18 MHz, and
/// at or below 18 MHz only with fast wake-up at or below 12 MHz; with any
/// other power scaling, one wait state above 8 MHz and none at or below.
/// Without fast wake-up, a higher frequency never needs fewer wait states,
/// and fast wake-up never removes one.
pub proof fn law_readmode_wait_state(f: u32, g: u32, ps: u32, fwu: bool)
    ensures
        readmode_wait_state(f, ps, fwu) == 0 || readmode_wait_state(f, ps, fwu) == 1,
        ps == 0 && f > 18_000_000 ==> readmode_wait_state(f, ps, fwu) == 1,
        ps == 0 && f <= 18_000_000 && !fwu ==> readmode_wait_state(f, ps, fwu) == 0,
        ps == 0 && f <= 12_000_000 && fwu ==> readmode_wait_state(f, ps, fwu) == 1,
        ps == 0 && 12_000_000 < f <= 18_000_000 ==> readmode_wait_state(f, ps, fwu) == 0,
        ps != 0 && f > 8_000_000 ==> readmode_wait_state(f, ps, fwu) == 1,
        ps != 0 && f <= 8_000_000 ==> readmode_wait_state(f, ps, fwu) == 0,
        f <= g ==> readmode_wait_state(f, ps, false) <= readmode_wait_state(g, ps, false),
        readmode_wait_state(f, ps, false) <= readmode_wait_state(f, ps, true),
{
}

/// The read mode that `set_flash_waitstate_and_readmode` selects: high
/// speed mode with power scaling 0 above 36 MHz, and never otherwise; high
/// speed mode always comes with one wait state.
pub proof fn law_readmode_command(f: u32, ps: u32, fwu: bool)
    ensures
        (readmode_command(f, ps) == FlashCMD::HSEN) == (ps == 0 && f > 36_000_000),
        readmode_command(f, ps) == FlashCMD::HSEN || readmode_command(f, ps) == FlashCMD::HSDIS,
        readmode_command(f, ps) == FlashCMD::HSEN ==> readmode_wait_state(f, ps, fwu) == 1,
{
}

/// The interrupt enables the driver reads: the ready interrupt is binary
/// digit 0 of the control word; the lock error and programming error
/// interrupt enables are digits 2 and 3 of the word read.
pub proof fn law_interrupt_enable_flags(word: u32)
    ensures
        ready_int_flag(word) == (word % 2 == 1),
        lock_error_int_flag(word) == ((word / 4) % 2 == 1),
        prog_error_int_flag(word) == ((word / 8) % 2 == 1),
{
    assert((word & 0x1 != 0) == (word % 2 == 1) && (word & 0x4 != 0) == ((word / 4) % 2 == 1) && (
    word & 0x8 != 0) == ((word / 8) % 2 == 1)) by (bit_vector);
}

/// The mask of `width` fuses, for every width below 64: its binary digits
/// below `width` are 1 and all others 0, so a field equals it exactly when
/// every fuse of the field is set.
pub proof fn law_low_mask(width: u32)
    requires
        width < 64,
    ensures
        forall|i: u64| i < 64 ==> #[trigger] ((low_mask(width) >> i) % 2) == (if i < width { 1u64 } else { 0u64 }),
        low_mask(width) as int + 1 == (1u64 << width) as int,
{
    let w: u64 = width as u64;
    assert((1u64 << width) == (1u64 << w) && (1u64 << w) >= 1) by (bit_vector)
        requires w == width, w < 64;
    assert forall|i: u64| i < 64 implies #[trigger] ((low_mask(width) >> i) % 2) == (if i < width { 1u64 } else { 0u64 }) by {
        assert(((((1u64 << w) - 1) as u64) >> i) % 2 == (if i < w { 1u64 } else { 0u64 })) by (bit_vector)
            requires w < 64, i < 64;
    }
}

/// The smaller of two numbers is at most each of them and is one of them.
pub proof fn law_min(a: u32, b: u32)
    ensures
        min_u32(a, b) <= a,
        min_u32(a, b) <= b,
        min_u32(a, b) == a || min_u32(a, b) == b,
{
}

/// With the high speed read mode build, one wait state is selected exactly
/// above 24 MHz.
pub proof fn law_high_speed_wait_state(f: u32)
    ensures
        (f > FLASH_FREQ_PS2_FWS_0_MAX_FREQ) == (f > 24_000_000),
{
}

/// Locking a region uses the lock-page command, unlocking the unlock-page command.
pub proof fn law_lock_command()
    ensures
        lock_command(true) == FlashCMD::LP,
        lock_command(false) == FlashCMD::UP,
{
}

/// Every command has a code of its own below 18, and every code below 18
/// is that of one command.
pub proof fn law_command_codes(a: FlashCMD, b: FlashCMD, code: u32)
    ensures
        a.spec_code() < 18,
        a.spec_code() == b.spec_code() ==> a == b,
        code < 18 ==> exists|c: FlashCMD| #[trigger] c.spec_code() == code,
{
    if code < 18 {
        let cmds = seq![
            FlashCMD::NOP, FlashCMD::WP, FlashCMD::EP, FlashCMD::CPB, FlashCMD::LP, FlashCMD::UP,
            FlashCMD::EA, FlashCMD::WGPB, FlashCMD::EGPB, FlashCMD::SSB, FlashCMD::PGPFB,
            FlashCMD::EAGPF, FlashCMD::QPR, FlashCMD::WUP, FlashCMD::EUP, FlashCMD::QPRUP,
            FlashCMD::HSEN, FlashCMD::HSDIS
        ];
        assert(cmds[code as int].spec_code() == code);
    }
}

/// The flash sizes of the size table grow strictly with the FSZ field,
/// from 4 KB to 2048 KB.
pub proof fn law_flash_size_table(i: int, j: int)
    requires
        0 <= i < j < 15,
    ensures
        flash_size_table()[i] < flash_size_table()[j],
        flash_size_table()[0] == 4,
        flash_size_table()[14] == 2048,
        flash_size_table().len() == 15,
{
    let t = flash_size_table();
    assert(t[0] == 4 && t[1] == 8 && t[2] == 16 && t[3] == 32 && t[4] == 48 && t[5] == 64);
    assert(t[6] == 96 && t[7] == 128 && t[8] == 192 && t[9] == 256 && t[10] == 384);
    assert(t[11] == 512 && t[12] == 768 && t[13] == 1024 && t[14] == 2048);
}

} // verus!
