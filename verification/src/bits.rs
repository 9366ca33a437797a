//! Register layout of the FLASHCALW controller: the fields of the command,
//! control and status registers and of the general-purpose fuse registers,
//! as functions on the 32-bit register words.
use vstd::prelude::*;

verus! {

/// Size of a flash page, in bytes.
pub const FLASH_PAGE_SIZE: u32 = 512;

/// Number of lock regions of the flash array.
pub const FLASH_NB_OF_REGIONS: u32 = 16;

/// Number of lock regions the controller manages.
pub const FLASHCALW_REGIONS: u32 = 16;

/// Key that must stand in bits 24..31 of a command for the controller to accept it.
pub const FLASHCALW_CMD_KEY: u32 = 0xA5;

/// Highest CPU frequency with power scaling 1, one wait state and fast wake-up.
pub const FLASH_FREQ_PS1_FWS_1_FWU_MAX_FREQ: u32 = 12000000;

/// Highest CPU frequency with power scaling 0 and no wait state.
pub const FLASH_FREQ_PS0_FWS_0_MAX_FREQ: u32 = 18000000;

/// Highest CPU frequency with power scaling 0 and one wait state, without high speed mode.
pub const FLASH_FREQ_PS0_FWS_1_MAX_FREQ: u32 = 36000000;

/// Highest CPU frequency with power scaling 1 and no wait state.
pub const FLASH_FREQ_PS1_FWS_0_MAX_FREQ: u32 = 8000000;

/// Highest CPU frequency with power scaling 2 (high speed read mode) and no wait state.
pub const FLASH_FREQ_PS2_FWS_0_MAX_FREQ: u32 = 24000000;

/// All 64 general-purpose fuses set.
pub const GP_ALL_FUSES_ONE: u64 = 0xFFFF_FFFF_FFFF_FFFF;

// ---------------------------------------------------------------------------
// Command register

/// The command code: bits 0..5 of the command register.
pub open spec fn command_field(word: u32) -> u32 {
    word & 0x3F
}

/// The page number: bits 8..23 of the command register.
pub open spec fn page_field(word: u32) -> u32 {
    (word & 0x00FF_FF00) >> 8
}

/// The key: bits 24..31 of the command register.
pub open spec fn key_field(word: u32) -> u32 {
    word >> 24
}

/// The word written to the command register to start command `code` on
/// `page_number`, the register holding `previous` before.
/// With a page number of at least 0, the word is made of the key, the page
/// number shifted to bit 8 and the code; with a negative page number, the
/// code field of `previous` is replaced by `code`, the key is or-ed in, and
/// the page field of `previous` is kept.
pub open spec fn command_word(previous: u32, code: u32, page_number: i32) -> u32 {
    if page_number >= 0 {
        (0xA5u32 << 24u32) | ((page_number as u32) << 8u32) | code
    } else {
        (previous & !0x3Fu32) | ((0xA5u32 << 24u32) | code)
    }
}

// ---------------------------------------------------------------------------
// Single bits of the control and status registers

/// Whether bit `position` of `value` is set.
pub open spec fn bit_is_set(value: u32, position: u32) -> bool {
    value & (1u32 << position) != 0
}

/// `value` with bit `position` set when `enable`, cleared otherwise.
pub open spec fn with_bit(value: u32, position: u32, enable: bool) -> u32 {
    if enable {
        (value & !(1u32 << position)) | (1u32 << position)
    } else {
        value & !(1u32 << position)
    }
}

/// Ready interrupt enable of the control register: bit 0.
pub open spec fn ready_int_flag(control: u32) -> bool {
    control & 0x1 != 0
}

/// Lock error interrupt enable: bit 2 of the register word.
pub open spec fn lock_error_int_flag(word: u32) -> bool {
    word & 0x4 != 0
}

/// Programming error interrupt enable: bit 3 of the register word.
pub open spec fn prog_error_int_flag(word: u32) -> bool {
    word & 0x8 != 0
}

/// The error flags of the status register: lock error (bit 2) and programming error (bit 3).
pub open spec fn error_bits(status: u32) -> u32 {
    status & 0xC
}

/// Ready flag of the status register: bit 0.
pub open spec fn ready_flag(status: u32) -> bool {
    status & 0x1 != 0
}

/// Lock error flag of the status register: bit 2.
pub open spec fn lock_error_flag(status: u32) -> bool {
    status & 0x4 != 0
}

/// Programming error flag of the status register: bit 3.
pub open spec fn programming_error_flag(status: u32) -> bool {
    status & 0x8 != 0
}

/// Security bit flag of the status register: bit 4.
pub open spec fn security_flag(status: u32) -> bool {
    status & 0x10 != 0
}

/// Page-erased flag of the status register: bit 5.
pub open spec fn page_erased_flag(status: u32) -> bool {
    status & 0x20 != 0
}

/// Lock flag of region `region` in the status register: bit `region + 16`.
pub open spec fn region_locked_flag(status: u32, region: u32) -> bool {
    bit_is_set(status, (region + 16) as u32)
}

/// The wait state (0 or 1) that the control register selects: bit 6.
pub open spec fn wait_state_field(control: u32) -> u32 {
    if control & 0x40 == 0 {
        0
    } else {
        1
    }
}

// ---------------------------------------------------------------------------
// General-purpose fuses

/// The 64 fuses, from the high and the low fuse register.
pub open spec fn fuses_of(hi: u32, lo: u32) -> u64 {
    (lo as u64) | ((hi as u64) << 32u64)
}

/// Fuse `bit` (taken modulo 64).
pub open spec fn fuse_bit(fuses: u64, bit: u32) -> bool {
    fuses & (1u64 << (bit & 0x3F)) != 0
}

/// A mask of the `width` low bits, for `width` below 64.
pub open spec fn low_mask(width: u32) -> u64 {
    ((1u64 << width) - 1) as u64
}

/// The smaller of two numbers.
pub open spec fn min_u32(a: u32, b: u32) -> u32 {
    if a <= b {
        a
    } else {
        b
    }
}

/// The `width` fuses from `pos` (taken modulo 64) upwards, as a number.
pub open spec fn fuse_bitfield(fuses: u64, pos: u32, width: u32) -> u64 {
    (fuses >> (pos & 0x3F)) & low_mask(min_u32(width, 64))
}

/// Fuse byte `byte` (taken modulo 8).
pub open spec fn fuse_byte(fuses: u64, byte: u32) -> u8 {
    (fuses >> ((byte & 7) << 3u32)) as u8
}

/// The argument of the command that programs fuse byte `byte` with `value`:
/// the byte index in bits 0..2, the value from bit 3.
pub open spec fn fuse_byte_arg(byte: u32, value: u8) -> i32 {
    ((byte & 7) | ((value as u32) << 3u32)) as i32
}

/// The argument of the commands that write or erase a single fuse bit.
pub open spec fn fuse_bit_arg(bit: u32) -> i32 {
    (bit as i32) & 0x3F
}

// ---------------------------------------------------------------------------
// Flash geometry

/// The flash sizes in KB that the FSZ field of the parameter register selects.
pub open spec fn flash_size_table() -> Seq<u32> {
    seq![4u32, 8, 16, 32, 48, 64, 96, 128, 192, 256, 384, 512, 768, 1024, 2048]
}

/// Whether the parameter register holds an FSZ value that the table knows.
pub open spec fn parameter_known(parameter: u32) -> bool {
    parameter & 0xf < 15
}

/// The flash size that the parameter register reports.
pub open spec fn flash_size_of(parameter: u32) -> u32 {
    flash_size_table()[(parameter & 0xf) as int]
}

/// The page count derived from the reported flash size.
pub open spec fn page_count_of(parameter: u32) -> u32 {
    (flash_size_of(parameter) / FLASH_PAGE_SIZE) as u32
}

/// The page count per lock region derived from the reported flash size.
pub open spec fn page_count_per_region_of(parameter: u32) -> u32 {
    (page_count_of(parameter) / FLASH_NB_OF_REGIONS) as u32
}

/// Walking through the fuses a byte at a time: the low byte of the fuses
/// shifted by `8 * c` is fuse byte `c`, and one more shift by 8 gives the
/// fuses shifted by `8 * (c + 1)`.
pub proof fn lemma_fuse_byte_walk(v: u64, c: u32)
    requires
        c < 8,
    ensures
        ((v >> (8 * c) as u64) & 0xFF) as u8 == fuse_byte(v, c),
        v >> 0u64 == v,
        c + 1 < 8 ==> (v >> (8 * c) as u64) >> 8u64 == v >> (8 * (c + 1)) as u64,
{
    let s: u64 = (8 * c) as u64;
    let t: u64 = (8 * (c + 1)) as u64;
    assert(((v >> s) & 0xFF) as u8 == (v >> ((c & 7) << 3u32)) as u8 && (c + 1 < 8 ==> (v >> s)
        >> 8u64 == v >> t) && v >> 0u64 == v) by (bit_vector)
        requires c < 8, s == 8 * c, t == 8 * (c + 1);
}

/// Walking through the fuses a bit at a time: one more shift by 1 of the
/// value shifted by `i` gives the value shifted by `i + 1`.
pub proof fn lemma_value_bit_walk(v: u64, i: u64)
    requires
        i < 63,
    ensures
        (v >> i) >> 1u64 == v >> (i + 1) as u64,
{
    let j: u64 = (i + 1) as u64;
    assert((v >> i) >> 1u64 == v >> j) by (bit_vector)
        requires i < 63, j == i + 1;
}

/// Bounds of the masked indices that the fuse functions use.
pub proof fn lemma_mask_bounds(x: u32)
    ensures
        x & 0x3F < 64,
        x & 7 < 8,
        (x & 7) << 3u32 < 64,
        (x & 7) << 3u32 == 8 * (x & 7),
        x & 0xf < 16,
{
    assert(x & 0x3F < 64 && x & 7 < 8 && (x & 7) << 3u32 < 64 && (x & 7) << 3u32 == 8 * (x & 7)
        && x & 0xf < 16) by (bit_vector);
}

/// A mask of fewer than 64 bits is at least 1 below `1 << width`.
pub proof fn lemma_low_mask(width: u32)
    requires
        width < 64,
    ensures
        1u64 << width >= 1,
{
    assert(1u64 << width >= 1) by (bit_vector)
        requires width < 64;
}

/// The reported flash size is at most 2048 KB, so there are at most 4 pages.
pub proof fn lemma_flash_size_bound(parameter: u32)
    requires
        parameter_known(parameter),
    ensures
        flash_size_of(parameter) <= 2048,
        page_count_of(parameter) <= 4,
{
    let t = flash_size_table();
    assert(forall|j: int| 0 <= j < 15 ==> #[trigger] t[j] <= 2048) by {
        assert(t[0] == 4 && t[1] == 8 && t[2] == 16 && t[3] == 32 && t[4] == 48 && t[5] == 64);
        assert(t[6] == 96 && t[7] == 128 && t[8] == 192 && t[9] == 256 && t[10] == 384);
        assert(t[11] == 512 && t[12] == 768 && t[13] == 1024 && t[14] == 2048);
    }
}

/// The lock region of page `page_number` (a negative one stands for the page
/// field of the command register `command`), as the parameter register
/// `parameter` divides the flash into regions.
pub open spec fn page_region_of(page_number: i32, command: u32, parameter: u32) -> u32 {
    ((if page_number >= 0 {
        page_number as u32
    } else {
        page_field(command)
    }) / page_count_per_region_of(parameter)) as u32
}

/// The smaller of two numbers.
pub fn min(v1: u32, v2: u32) -> (r: u32)
    ensures
        r == min_u32(v1, v2),
{
    if v1 <= v2 {
        v1
    } else {
        v2
    }
}

/// Whether `ready_flag` holds: bit 0 of a status register value.
pub fn status_ready(status: u32) -> (r: bool)
    ensures
        r == ready_flag(status),
{
    status & 0x1 != 0
}

/// The lock region of page `page`, `per_region` pages making one region.
pub fn page_region(page: u32, per_region: u32) -> (r: u32)
    requires
        per_region > 0,
    ensures
        r == page / per_region,
{
    page / per_region
}

/// The first page of lock region `region`, `per_region` pages making one region.
pub fn region_first_page(region: u32, per_region: u32) -> (r: u32)
    requires
        region * per_region <= u32::MAX,
    ensures
        r == region * per_region,
{
    region * per_region
}

} // verus!
