//! Properties that hold across the driver's operations: what a write to the
//! control register gives back on a read, how the fuse registers, bytes and
//! bits relate, how the fuse byte commands carry a value, and how regions
//! and pages relate.
use vstd::prelude::*;
use crate::bits::{
    FLASHCALW_CMD_KEY, GP_ALL_FUSES_ONE, bit_is_set, fuse_bit_arg, command_field, page_field, command_word, fuse_bit, fuse_bitfield, fuse_byte, fuse_byte_arg, fuses_of, key_field,
    lemma_flash_size_bound, lemma_mask_bounds, low_mask, page_count_of, page_count_per_region_of,
    parameter_known, min_u32, ready_int_flag, wait_state_field, with_bit,
};
use crate::bus::{Access, BusEvent, RegKey, commands_are, event_entries, is_command};
use crate::command::FlashCMD;
use crate::flashcalw::control_update;
use crate::fuses::{all_byte_args, cleared_bit_args, rewrite_args, set_bit_command, value_bit};
use crate::field_laws::{law_fuse_bitfield_digits, law_value_bit};

verus! {

/// The fields of a command word: the code of the command, the key, and the
/// page number for a page number that fits the 16-bit field; with a negative
/// page number, the page field of the register before.
pub proof fn law_command_word_fields(previous: u32, code: u32, page_number: i32)
    requires
        code < 64,
    ensures
        command_field(command_word(previous, code, page_number)) == code,
        0 <= page_number < 0x10000 ==> page_field(command_word(previous, code, page_number))
            == page_number as u32,
        0 <= page_number < 0x10000 ==> key_field(command_word(previous, code, page_number))
            == FLASHCALW_CMD_KEY,
        page_number < 0 ==> page_field(command_word(previous, code, page_number))
            == page_field(previous),
{
    let w: u32 = command_word(previous, code, page_number);
    if page_number >= 0 {
        let p: u32 = page_number as u32;
        assert(((0xA5u32 << 24u32) | (p << 8u32) | code) & 0x3F == code) by (bit_vector)
            requires code < 64;
        if page_number < 0x10000 {
            assert(((((0xA5u32 << 24u32) | (p << 8u32) | code) & 0x00FF_FF00) >> 8) == p
                && (((0xA5u32 << 24u32) | (p << 8u32) | code) >> 24) == 0xA5) by (bit_vector)
                requires code < 64, p < 0x10000;
        }
    } else {
        assert(((previous & !0x3Fu32) | ((0xA5u32 << 24u32) | code)) & 0x3F == code) by (bit_vector)
            requires code < 64;
        assert(((((previous & !0x3Fu32) | ((0xA5u32 << 24u32) | code)) & 0x00FF_FF00) >> 8)
            == (previous & 0x00FF_FF00) >> 8) by (bit_vector)
            requires code < 64;
    }
}

/// Bit `position` of `with_bit(value, position, enable)` is `enable`, and
/// every other bit is that of `value`.
pub proof fn law_with_bit(value: u32, position: u32, enable: bool)
    requires
        position < 32,
    ensures
        bit_is_set(with_bit(value, position, enable), position) == enable,
        forall|other: u32|
            other < 32 && other != position ==> bit_is_set(with_bit(value, position, enable), other)
                == #[trigger] bit_is_set(value, other),
{
    assert(((value & !(1u32 << position)) | (1u32 << position)) & (1u32 << position) != 0)
        by (bit_vector)
        requires position < 32;
    assert((value & !(1u32 << position)) & (1u32 << position) == 0) by (bit_vector)
        requires position < 32;
    assert forall|other: u32| other < 32 && other != position implies bit_is_set(
        with_bit(value, position, enable),
        other,
    ) == #[trigger] bit_is_set(value, other) by {
        assert(((value & !(1u32 << position)) | (1u32 << position)) & (1u32 << other)
            == value & (1u32 << other)) by (bit_vector)
            requires position < 32, other < 32, other != position;
        assert((value & !(1u32 << position)) & (1u32 << other) == value & (1u32 << other))
            by (bit_vector)
            requires position < 32, other < 32, other != position;
    }
}

/// Every command word carries the key bits 0xA5 in bits 24..31, whatever
/// the page number and the register held before.
pub proof fn law_command_word_keyed(previous: u32, code: u32, page_number: i32)
    requires
        code < 64,
    ensures
        key_field(command_word(previous, code, page_number)) & 0xA5 == 0xA5,
{
    let p: u32 = page_number as u32;
    assert((((0xA5u32 << 24u32) | (p << 8u32) | code) >> 24) & 0xA5 == 0xA5 && ((((previous
        & !0x3Fu32) | ((0xA5u32 << 24u32) | code)) >> 24) & 0xA5 == 0xA5)) by (bit_vector);
}

/// Selecting a wait state and reading it back: after `set_wait_state(ws)`
/// writes the control register, `get_wait_state` reads 1 for `ws == 1` and 0
/// for any other value.
pub proof fn law_wait_state_roundtrip(control: u32, wait_state: u32)
    ensures
        wait_state_field(with_bit(control, 6, wait_state == 1)) == (if wait_state == 1 {
            1u32
        } else {
            0u32
        }),
{
    assert(((control & !(1u32 << 6u32)) | (1u32 << 6u32)) & 0x40 != 0 && (control & !(1u32 << 6u32))
        & 0x40 == 0) by (bit_vector);
}

/// Enabling or disabling the ready interrupt and reading it back: after
/// `enable_ready_int(enable)` writes the control register,
/// `is_ready_int_enabled` reads `enable`.
pub proof fn law_ready_int_roundtrip(control: u32, enable: bool)
    ensures
        ready_int_flag(with_bit(control, 0, enable)) == enable,
{
    assert(((control & !(1u32 << 0u32)) | (1u32 << 0u32)) & 0x1 != 0 && (control & !(1u32 << 0u32))
        & 0x1 == 0) by (bit_vector);
}

/// The fuses are the two fuse registers side by side: bytes 0..3 are those
/// of the low register, bytes 4..7 those of the high one.
pub proof fn law_fuse_bytes_of_registers(hi: u32, lo: u32, byte: u32)
    requires
        byte < 8,
    ensures
        byte < 4 ==> fuse_byte(fuses_of(hi, lo), byte) == (lo >> (8 * byte) as u32) as u8,
        byte >= 4 ==> fuse_byte(fuses_of(hi, lo), byte) == (hi >> (8 * (byte - 4)) as u32) as u8,
{
    let s: u32 = (8 * byte) as u32;
    let t: u32 = (8 * (byte - 4)) as u32;
    assert((byte < 4 ==> ((((lo as u64) | ((hi as u64) << 32u64)) >> ((byte & 7) << 3u32)) as u8
        == (lo >> s) as u8)) && (byte >= 4 ==> ((((lo as u64) | ((hi as u64) << 32u64)) >> ((byte
        & 7) << 3u32)) as u8 == (hi >> t) as u8))) by (bit_vector)
        requires
            byte < 8,
            s == 8 * byte,
            byte >= 4 ==> t == 8 * (byte - 4),
    ;
}

/// A field of one fuse is that fuse: 1 when it is set, 0 when it is clear.
pub proof fn law_bitfield_of_one_fuse(fuses: u64, pos: u32)
    ensures
        fuse_bitfield(fuses, pos, 1) == (if fuse_bit(fuses, pos) {
            1u64
        } else {
            0u64
        }),
{
    assert(min_u32(1, 64) == 1);
    let p: u32 = pos & 0x3F;
    lemma_mask_bounds(pos);
    assert(((fuses >> p) & (((1u64 << 1u32) - 1) as u64)) == (if fuses & (1u64 << p) != 0 {
        1u64
    } else {
        0u64
    })) by (bit_vector)
        requires p < 64;
    assert(low_mask(1) == (((1u64 << 1u32) - 1) as u64));
}

/// The arguments of the commands of `write_all_gp_fuses(value)` carry the
/// byte index in bits 0..2 and the byte of `value` from bit 3, and the
/// bytes they carry make up `value` again.
pub proof fn law_fuse_byte_commands_carry_value(value: u64)
    ensures
        forall|j: int|
            0 <= j < 8 ==> #[trigger] all_byte_args(value)[j] & 7 == j && (all_byte_args(value)[j]
                >> 3) == fuse_byte(value, j as u32) as i32,
        value == ((fuse_byte(value, 0) as u64) | ((fuse_byte(value, 1) as u64) << 8u64) | ((
        fuse_byte(value, 2) as u64) << 16u64) | ((fuse_byte(value, 3) as u64) << 24u64) | ((
        fuse_byte(value, 4) as u64) << 32u64) | ((fuse_byte(value, 5) as u64) << 40u64) | ((
        fuse_byte(value, 6) as u64) << 48u64) | ((fuse_byte(value, 7) as u64) << 56u64)),
{
    assert forall|j: int| 0 <= j < 8 implies #[trigger] all_byte_args(value)[j] & 7 == j && (
    all_byte_args(value)[j] >> 3) == fuse_byte(value, j as u32) as i32 by {
        let b: u8 = fuse_byte(value, j as u32);
        let i: u32 = j as u32;
        assert(((((i & 7) | ((b as u32) << 3u32)) as i32) & 7) == i as i32 && ((((i & 7) | ((
        b as u32) << 3u32)) as i32) >> 3) == b as i32) by (bit_vector)
            requires i < 8;
        assert(all_byte_args(value)[j] == fuse_byte_arg(i, b));
    }
    assert(value == (((value >> ((0u32 & 7) << 3u32)) as u8 as u64) | (((value >> ((1u32 & 7)
        << 3u32)) as u8 as u64) << 8u64) | (((value >> ((2u32 & 7) << 3u32)) as u8 as u64)
        << 16u64) | (((value >> ((3u32 & 7) << 3u32)) as u8 as u64) << 24u64) | (((value >> ((
    4u32 & 7) << 3u32)) as u8 as u64) << 32u64) | (((value >> ((5u32 & 7) << 3u32)) as u8 as u64)
        << 40u64) | (((value >> ((6u32 & 7) << 3u32)) as u8 as u64) << 48u64) | (((value >> ((
    7u32 & 7) << 3u32)) as u8 as u64) << 56u64))) by (bit_vector);
}

/// Erasing one fuse byte programs every other byte again with the value it
/// had, in increasing order; for an index above 7 it programs every byte.
pub proof fn law_erase_byte_rewrites_others(fuses: u64, skip: u32)
    ensures
        skip < 8 ==> rewrite_args(fuses, skip, 8) == all_byte_args(fuses).remove(skip as int),
        skip >= 8 ==> rewrite_args(fuses, skip, 8) == all_byte_args(fuses),
{
    lemma_rewrite_prefix(fuses, skip, 8);
    assert(all_byte_args(fuses).subrange(0, 8) =~= all_byte_args(fuses));
}

/// `rewrite_args` over the first `n` bytes is the first `n` arguments of
/// `all_byte_args`, without the one of byte `skip`.
proof fn lemma_rewrite_prefix(fuses: u64, skip: u32, n: nat)
    requires
        n <= 8,
    ensures
        skip < n ==> rewrite_args(fuses, skip, n) == all_byte_args(fuses).subrange(0, n as int).remove(
            skip as int,
        ),
        skip >= n ==> rewrite_args(fuses, skip, n) == all_byte_args(fuses).subrange(0, n as int),
    decreases n,
{
    let all = all_byte_args(fuses);
    if n == 0 {
        assert(all.subrange(0, 0) =~= Seq::<i32>::empty());
    } else {
        lemma_rewrite_prefix(fuses, skip, (n - 1) as nat);
        let m: int = (n - 1) as int;
        assert(all[m] == fuse_byte_arg(m as u32, fuse_byte(fuses, m as u32)));
        if skip as int == m {
            assert(all.subrange(0, n as int).remove(skip as int) =~= all.subrange(0, m));
        } else if (skip as int) < m {
            assert(all.subrange(0, n as int).remove(skip as int) =~= all.subrange(0, m).remove(
                skip as int,
            ).push(all[m]));
        } else {
            assert(all.subrange(0, n as int) =~= all.subrange(0, m).push(all[m]));
        }
    }
}

/// With every flash size of the size table there is no whole page per lock
/// region: the sizes are in KB, at most 2048, a page is 512 bytes and there
/// are 16 regions, so the page count is at most 4.
pub proof fn law_no_page_per_region(parameter: u32)
    requires
        parameter_known(parameter),
    ensures
        page_count_of(parameter) <= 4,
        page_count_per_region_of(parameter) == 0,
{
    lemma_flash_size_bound(parameter);
}

/// Every page from the first page of a region up to the first page of the
/// next lies in that region.
pub proof fn law_pages_of_region(region: u32, per_region: u32, page: u32)
    requires
        per_region > 0,
        region * per_region <= page < (region + 1) * per_region,
    ensures
        page / per_region == region,
{
    assert(page / per_region == region) by (nonlinear_arith)
        requires
            per_region > 0,
            region * per_region <= page < (region + 1) * per_region,
    ;
}

/// The fuses after the controller runs the program-fuse-byte command with
/// argument `arg` on `fuses`, as the controller's documentation describes
/// that command: byte `arg & 7` keeps a fuse set only where the value
/// `arg >> 3` has a 1; programming only ever clears fuses.
pub open spec fn programmed(fuses: u64, arg: i32) -> u64 {
    let idx = (arg & 7) as u64;
    let value = ((arg >> 3u32) & 0xFF) as u64;
    fuses & !(((!value) & 0xFF) << (8 * idx) as u64)
}

/// The fuses after the program-fuse-byte commands with arguments `args`, in order.
pub open spec fn after_programs(fuses: u64, args: Seq<i32>) -> u64
    decreases args.len(),
{
    if args.len() == 0 {
        fuses
    } else {
        programmed(after_programs(fuses, args.drop_last()), args.last())
    }
}

/// The fuses that are still all ones after erasing all fuses and rewriting
/// bytes `0..n` except byte `skip`: the bytes from `n` upwards, and byte `skip`.
pub open spec fn ones_left(n: u64, skip: u64) -> u64 {
    (if n < 8 {
        !((((1u64 << (8 * n) as u64) - 1) as u64))
    } else {
        0u64
    }) | (if skip < 8 {
        0xFFu64 << (8 * skip) as u64
    } else {
        0u64
    })
}

/// One more rewrite of a byte in `erase_gp_fuse_byte`.
proof fn lemma_rewrite_step(fuses: u64, n: u64, skip: u64)
    requires
        n < 8,
    ensures
        n == skip ==> fuses | ones_left(n, skip) == fuses | ones_left((n + 1) as u64, skip),
        n != skip ==> programmed(
            fuses | ones_left(n, skip),
            fuse_byte_arg(n as u32, fuse_byte(fuses, n as u32)),
        ) == fuses | ones_left((n + 1) as u64, skip),
{
    let m: u64 = (n + 1) as u64;
    let nn: u32 = n as u32;
    let b: u8 = (fuses >> ((nn & 7) << 3u32)) as u8;
    let arg: i32 = ((nn & 7) | ((b as u32) << 3u32)) as i32;
    assert(n == skip ==> fuses | ones_left(n, skip) == fuses | ones_left(m, skip)) by (bit_vector)
        requires
            n < 8,
            m == n + 1,
    ;
    assert(n != skip ==> (fuses | ones_left(n, skip)) & !(((!(((arg >> 3u32) & 0xFF) as u64))
        & 0xFF) << (8 * ((arg & 7) as u64)) as u64) == fuses | ones_left(m, skip)) by (bit_vector)
        requires
            n < 8,
            m == n + 1,
            nn == n,
            b == (fuses >> ((nn & 7) << 3u32)) as u8,
            arg == ((nn & 7) | ((b as u32) << 3u32)) as i32,
    ;
}

/// Erasing all fuses, then rewriting bytes `0..n` but byte `skip` with the
/// bytes of `fuses`, leaves `fuses` with all ones in the bytes not yet rewritten.
proof fn lemma_rewrites_from_erased(fuses: u64, skip: u32, n: nat)
    requires
        n <= 8,
    ensures
        after_programs(GP_ALL_FUSES_ONE, rewrite_args(fuses, skip, n)) == fuses | ones_left(
            n as u64,
            skip as u64,
        ),
    decreases n,
{
    if n == 0 {
        let s = skip as u64;
        assert(GP_ALL_FUSES_ONE == fuses | ones_left(0, s)) by (bit_vector);
    } else {
        let m = (n - 1) as nat;
        lemma_rewrites_from_erased(fuses, skip, m);
        lemma_rewrite_step(fuses, m as u64, skip as u64);
        let prev = rewrite_args(fuses, skip, m);
        if m == skip as int {
            assert(rewrite_args(fuses, skip, n) == prev);
        } else {
            let arg = fuse_byte_arg(m as u32, fuse_byte(fuses, m as u32));
            assert(rewrite_args(fuses, skip, n) == prev.push(arg));
            assert(prev.push(arg).drop_last() =~= prev);
        }
    }
}

/// Erasing one fuse byte, on a controller that erases all fuses to ones and
/// programs a byte by clearing the fuses where the value has zeros: the
/// byte ends all ones and every other byte as it was; for an index above 7,
/// every byte ends as it was.
pub proof fn law_erase_byte_effect(fuses: u64, skip: u32)
    ensures
        skip < 8 ==> after_programs(GP_ALL_FUSES_ONE, rewrite_args(fuses, skip, 8)) == fuses | (
        0xFFu64 << (8 * skip) as u64),
        skip >= 8 ==> after_programs(GP_ALL_FUSES_ONE, rewrite_args(fuses, skip, 8)) == fuses,
{
    lemma_rewrites_from_erased(fuses, skip, 8);
    let s = skip as u64;
    assert(ones_left(8, s) == (if s < 8 {
        0xFFu64 << (8 * s) as u64
    } else {
        0u64
    })) by (bit_vector);
    assert(fuses | 0u64 == fuses) by (bit_vector);
}

/// Setting all fuses to `value` by erasing first (the path that
/// `set_all_gp_fuses` takes for a value neither all zeros nor all ones), on a
/// controller that erases all fuses to ones and programs a byte by clearing
/// the fuses where the value has zeros: erasing all, then programming the
/// eight bytes of `value`, leaves the fuses equal to `value`.
pub proof fn law_set_all_effect(value: u64)
    ensures
        after_programs(GP_ALL_FUSES_ONE, all_byte_args(value)) == value,
{
    law_erase_byte_rewrites_others(value, 8);
    law_erase_byte_effect(value, 8);
}

/// A mask of the bytes below byte `n` (all bytes from `n == 8` on).
pub open spec fn low_bytes(n: u64) -> u64 {
    if n < 8 {
        ((1u64 << (8 * n) as u64) - 1) as u64
    } else {
        0xFFFF_FFFF_FFFF_FFFFu64
    }
}

/// Programming byte `n` with 0 clears it, whatever the fuses held.
proof fn lemma_zero_step(fuses: u64, n: u64)
    requires
        n < 8,
    ensures
        programmed(fuses & !low_bytes(n), fuse_byte_arg(n as u32, fuse_byte(0, n as u32)))
            == fuses & !low_bytes((n + 1) as u64),
{
    let m: u64 = (n + 1) as u64;
    let nn: u32 = n as u32;
    let b: u8 = (0u64 >> ((nn & 7) << 3u32)) as u8;
    let arg: i32 = ((nn & 7) | ((b as u32) << 3u32)) as i32;
    assert((fuses & !low_bytes(n)) & !(((!(((arg >> 3u32) & 0xFF) as u64)) & 0xFF) << (8 * ((arg
        & 7) as u64)) as u64) == fuses & !low_bytes(m)) by (bit_vector)
        requires
            n < 8,
            m == n + 1,
            nn == n,
            b == (0u64 >> ((nn & 7) << 3u32)) as u8,
            arg == ((nn & 7) | ((b as u32) << 3u32)) as i32,
    ;
}

/// Programming bytes `0..n` of all fuses with 0 clears those bytes.
proof fn lemma_zero_programs(fuses: u64, n: nat)
    requires
        n <= 8,
    ensures
        after_programs(fuses, all_byte_args(0).subrange(0, n as int)) == fuses & !low_bytes(
            n as u64,
        ),
    decreases n,
{
    let args = all_byte_args(0);
    if n == 0 {
        assert(args.subrange(0, 0) =~= Seq::<i32>::empty());
        assert(fuses & !low_bytes(0) == fuses) by (bit_vector);
    } else {
        let m = (n - 1) as nat;
        lemma_zero_programs(fuses, m);
        lemma_zero_step(fuses, m as u64);
        assert(args.subrange(0, n as int).drop_last() =~= args.subrange(0, m as int));
        assert(args.subrange(0, n as int).last() == args[m as int]);
    }
}

/// Programming the eight fuse bytes with 0 (the path that
/// `set_all_gp_fuses(0)` takes, with no erase before it), on a controller
/// that programs a byte by clearing the fuses where the value has zeros:
/// whatever the fuses held, they all end cleared.
pub proof fn law_program_all_zero(fuses: u64)
    ensures
        after_programs(fuses, all_byte_args(0)) == 0,
{
    lemma_zero_programs(fuses, 8);
    assert(all_byte_args(0).subrange(0, 8) =~= all_byte_args(0));
    assert(fuses & !low_bytes(8) == 0) by (bit_vector);
}

/// Setting all fuses and reading them back, on a controller that erases all
/// fuses to ones and programs a byte by clearing the fuses where the value
/// has zeros: whatever the fuses held (`fuses`), `set_all_gp_fuses(value)`
/// leaves them equal to `value`. All ones only erases; zero only programs
/// the eight bytes with 0; any other value erases, then programs its bytes.
pub proof fn law_set_all_readback(fuses: u64, value: u64)
    ensures
        (if value == GP_ALL_FUSES_ONE {
            GP_ALL_FUSES_ONE
        } else if value == 0 {
            after_programs(fuses, all_byte_args(0))
        } else {
            after_programs(GP_ALL_FUSES_ONE, all_byte_args(value))
        }) == value,
{
    if value == 0 {
        law_program_all_zero(fuses);
    } else if value != GP_ALL_FUSES_ONE {
        law_set_all_effect(value);
    }
}

/// Setting one fuse byte, on a controller that programs a byte by clearing
/// the fuses where the value has zeros: `set_gp_fuse_byte(byte, value)`
/// with 0xFF erases the byte (by `law_erase_byte_effect`); with 0 it only
/// programs, which clears the byte whatever it held; with any other value
/// it erases the byte, then programs it, which leaves `value` in the byte.
/// Every other byte keeps its value.
pub proof fn law_set_byte_effect(fuses: u64, byte: u32, value: u8)
    requires
        byte < 8,
    ensures
        programmed(fuses, fuse_byte_arg(byte, 0)) == fuses & !(0xFFu64 << (8 * byte) as u64),
        programmed(fuses | (0xFFu64 << (8 * byte) as u64), fuse_byte_arg(byte, value)) == (fuses
            & !(0xFFu64 << (8 * byte) as u64)) | ((value as u64) << (8 * byte) as u64),
{
    let s: u64 = (8 * byte) as u64;
    let a0: i32 = fuse_byte_arg(byte, 0);
    let av: i32 = fuse_byte_arg(byte, value);
    assert(a0 == ((byte & 7) | ((0u8 as u32) << 3u32)) as i32);
    assert(av == ((byte & 7) | ((value as u32) << 3u32)) as i32);
    assert(fuses & !(((!(((a0 >> 3u32) & 0xFF) as u64)) & 0xFF) << (8 * ((a0 & 7) as u64)) as u64)
        == fuses & !(0xFFu64 << s) && (fuses | (0xFFu64 << s)) & !(((!(((av >> 3u32) & 0xFF)
        as u64)) & 0xFF) << (8 * ((av & 7) as u64)) as u64) == (fuses & !(0xFFu64 << s)) | ((
    value as u64) << s)) by (bit_vector)
        requires
            byte < 8,
            s == 8 * byte,
            a0 == ((byte & 7) | ((0u8 as u32) << 3u32)) as i32,
            av == ((byte & 7) | ((value as u32) << 3u32)) as i32,
    ;
}

/// The word an access wrote; 0 for a read or a wait.
pub open spec fn written(a: Access) -> u32 {
    match a {
        Access::Write(_, v) => v,
        _ => 0,
    }
}

/// Selecting a wait state and reading it back: when the control register
/// keeps the word `set_wait_state(ws)` wrote to it, the read of
/// `get_wait_state` gives 1 for `ws == 1` and 0 for any other value.
pub proof fn law_wait_state_readback(
    set: Seq<(Access, u32)>,
    get: Seq<(Access, u32)>,
    wait_state: u32,
    r: u32,
)
    requires
        control_update(set, 6, wait_state == 1),
        get.len() == 1,
        get[0].0 == Access::Read(RegKey::CONTROL),
        r == wait_state_field(get[0].1),
        get[0].1 == written(set[1].0),
    ensures
        r == (if wait_state == 1 {
            1u32
        } else {
            0u32
        }),
{
    law_wait_state_roundtrip(set[0].1, wait_state);
}

/// Enabling or disabling the ready interrupt and reading it back: when the
/// control register keeps the word `enable_ready_int(enable)` wrote to it,
/// `is_ready_int_enabled` gives `enable`.
pub proof fn law_ready_int_readback(
    set: Seq<(Access, u32)>,
    get: Seq<(Access, u32)>,
    enable: bool,
    r: bool,
)
    requires
        control_update(set, 0, enable),
        get.len() == 1,
        get[0].0 == Access::Read(RegKey::CONTROL),
        r == ready_int_flag(get[0].1),
        get[0].1 == written(set[1].0),
    ensures
        r == enable,
{
    law_ready_int_roundtrip(set[0].1, enable);
}

/// Issuing a command and reading the command register back: when the
/// register keeps the word the command wrote, `get_command` gives the
/// command's code and, for a page number that fits the 16-bit field,
/// `get_page_number` gives the page number.
pub proof fn law_command_readback(
    issue: Seq<(Access, u32)>,
    command: FlashCMD,
    page_number: i32,
    previous: u32,
    status: u32,
    read_back: u32,
)
    requires
        event_entries(BusEvent::Command { command, page_number, previous, status }, issue),
        read_back == written(issue[2].0),
    ensures
        command_field(read_back) == command.spec_code(),
        0 <= page_number < 0x10000 ==> page_field(read_back) == page_number as u32,
        page_number < 0 ==> page_field(read_back) == page_field(previous),
{
    law_command_word_fields(previous, command.spec_code(), page_number);
}


/// The fuses after the controller runs event `e` on `fuses`, for the
/// single-fuse commands as the controller's documentation describes them:
/// erase-bit sets fuse `arg % 64` to 1, write-bit clears it to 0; any other
/// event leaves the fuses as they are.
pub open spec fn bit_commanded(fuses: u64, e: BusEvent) -> u64 {
    match e {
        BusEvent::Command { command, page_number, .. } => {
            let m: u64 = 1u64 << ((page_number & 0x3F) as u64);
            if command == FlashCMD::EGPB {
                fuses | m
            } else if command == FlashCMD::WGPB {
                fuses & !m
            } else {
                fuses
            }
        },
        _ => fuses,
    }
}

/// The fuses after the single-fuse commands of `events`, in order.
pub open spec fn after_bit_commands(fuses: u64, events: Seq<BusEvent>) -> u64
    decreases events.len(),
{
    if events.len() == 0 {
        fuses
    } else {
        bit_commanded(after_bit_commands(fuses, events.drop_last()), events.last())
    }
}

/// Setting or clearing one fuse changes that binary digit of the fuses and no other.
proof fn lemma_one_fuse(x: u64, k: u64, j: u64)
    requires
        k < 64,
        j < 64,
    ensures
        ((x | (1u64 << k)) >> j) % 2 == (if j == k { 1 } else { (x >> j) % 2 }),
        ((x & !(1u64 << k)) >> j) % 2 == (if j == k { 0 } else { (x >> j) % 2 }),
{
    assert(((x | (1u64 << k)) >> j) % 2 == (if j == k { 1 } else { (x >> j) % 2 })
        && ((x & !(1u64 << k)) >> j) % 2 == (if j == k { 0 } else { (x >> j) % 2 })) by (bit_vector)
        requires k < 64, j < 64;
}

/// The argument of a single-fuse command on a fuse below 64 names that fuse.
proof fn lemma_small_fuse_arg(k: u64)
    requires
        k < 64,
    ensures
        (fuse_bit_arg(k as u32) & 0x3F) as u64 == k,
{
    assert((((k as u32) as i32) & 0x3F) & 0x3F == k as i32) by (bit_vector)
        requires k < 64;
}

/// After the first `n` commands of `set_gp_fuse_bitfield(pos, width, value)`,
/// fuses `p .. p + n` hold bits `0 .. n` of `value` and every other fuse
/// is as it was.
proof fn lemma_bit_commands_prefix(fuses: u64, events: Seq<BusEvent>, p: u64, width: u64, value: u64, n: nat)
    requires
        p + width <= 64,
        n <= width,
        events.len() == width,
        forall|i: int|
            0 <= i < width ==> is_command(
                #[trigger] events[i],
                set_bit_command(value_bit(value, i)),
                fuse_bit_arg((p + i) as u32),
            ),
    ensures
        forall|j: u64|
            j < 64 ==> #[trigger] ((after_bit_commands(fuses, events.subrange(0, n as int)) >> j) % 2)
                == (if p <= j < p + n {
                (value >> (j - p) as u64) % 2
            } else {
                (fuses >> j) % 2
            }),
    decreases n,
{
    if n == 0 {
        assert(events.subrange(0, 0) =~= Seq::<BusEvent>::empty());
    } else {
        let m: nat = (n - 1) as nat;
        lemma_bit_commands_prefix(fuses, events, p, width, value, m);
        let pre = events.subrange(0, m as int);
        let cur = events.subrange(0, n as int);
        assert(cur.drop_last() =~= pre);
        assert(cur.last() == events[m as int]);
        let a = after_bit_commands(fuses, pre);
        let e = events[m as int];
        let k: u64 = (p + m) as u64;
        let b: bool = value_bit(value, m as int);
        assert(is_command(e, set_bit_command(b), fuse_bit_arg(k as u32)));
        let arg: i32 = fuse_bit_arg(k as u32);
        lemma_small_fuse_arg(k);
        assert((arg & 0x3F) as u64 == k);
        law_value_bit(value, m as u64);
        assert forall|j: u64| j < 64 implies #[trigger] ((after_bit_commands(fuses, cur) >> j) % 2)
            == (if p <= j < p + n {
            (value >> (j - p) as u64) % 2
        } else {
            (fuses >> j) % 2
        }) by {
            lemma_one_fuse(a, k, j);
            assert(((a >> j) % 2) == (if p <= j < p + m {
                (value >> (j - p) as u64) % 2
            } else {
                (fuses >> j) % 2
            }));
            if j == k {
                assert((j - p) as u64 == m as u64);
            }
        }
    }
}

/// Setting a field of fuses and reading it back, on a controller that sets
/// a fuse on erase-bit and clears it on write-bit: whatever the fuses held,
/// after the commands that `set_gp_fuse_bitfield(pos, width, value)` issues
/// (for a field below 64 fuses that does not pass fuse 63), binary digit
/// `i` of the field read back is digit `i` of `value` for every `i` below
/// `width`, and 0 above.
pub proof fn law_set_bitfield_readback(fuses: u64, events: Seq<BusEvent>, pos: u32, width: u32, value: u64)
    requires
        width < 64,
        pos % 64 + width <= 64,
        events.len() == width,
        forall|i: int|
            0 <= i < width ==> is_command(
                #[trigger] events[i],
                set_bit_command(value_bit(value, i)),
                fuse_bit_arg(((pos & 0x3F) + i) as u32),
            ),
    ensures
        forall|i: u64|
            i < 64 ==> #[trigger] ((fuse_bitfield(after_bit_commands(fuses, events), pos, width) >> i)
                % 2) == (if i < width {
                (value >> i) % 2
            } else {
                0
            }),
{
    let p: u64 = (pos % 64) as u64;
    let w: u64 = width as u64;
    assert(pos & 0x3F == pos % 64) by (bit_vector);
    assert forall|i: int| 0 <= i < w implies is_command(
        #[trigger] events[i],
        set_bit_command(value_bit(value, i)),
        fuse_bit_arg((p + i) as u32),
    ) by {
        assert(((pos & 0x3F) + i) as u32 == (p + i) as u32);
    }
    lemma_bit_commands_prefix(fuses, events, p, w, value, width as nat);
    assert(events.subrange(0, width as int) =~= events);
    let a = after_bit_commands(fuses, events);
    law_fuse_bitfield_digits(a, pos, width);
    assert forall|i: u64| i < 64 implies #[trigger] ((fuse_bitfield(a, pos, width) >> i) % 2) == (
    if i < width {
        (value >> i) % 2
    } else {
        0
    }) by {
        assert(((fuse_bitfield(a, pos, width) >> i) % 2) == (if i < width && (pos % 64) + i < 64 {
            (a >> ((pos % 64) + i) as u64) % 2
        } else {
            0
        }));
        if i < width {
            let j: u64 = (p + i) as u64;
            assert(((a >> j) % 2) == (if p <= j < p + width {
                (value >> (j - p) as u64) % 2
            } else {
                (fuses >> j) % 2
            }));
        }
    }
}

/// After the write-bit commands of `write_gp_fuse_bitfield(pos, width,
/// value)` on the first `n` bits, a fuse `p + i` with `i < n` is cleared
/// where bit `i` of `value` is 0, and every other fuse is as it was.
proof fn lemma_cleared_prefix(fuses: u64, events: Seq<BusEvent>, p: u64, value: u64, n: nat)
    requires
        p + n <= 64,
        commands_are(events, FlashCMD::WGPB, cleared_bit_args(p as u32, value, n)),
    ensures
        forall|j: u64|
            j < 64 ==> #[trigger] ((after_bit_commands(fuses, events) >> j) % 2) == (if p <= j < p
                + n && (value >> (j - p) as u64) % 2 == 0 {
                0
            } else {
                (fuses >> j) % 2
            }),
    decreases n,
{
    if n == 0 {
        assert(events.len() == 0);
    } else {
        let m: nat = (n - 1) as nat;
        let prev = cleared_bit_args(p as u32, value, m);
        law_value_bit(value, m as u64);
        let k: u64 = (p + m) as u64;
        if value_bit(value, m as int) {
            assert(cleared_bit_args(p as u32, value, n) == prev);
            lemma_cleared_prefix(fuses, events, p, value, m);
        } else {
            let arg: i32 = fuse_bit_arg((p + m) as u32);
            assert(cleared_bit_args(p as u32, value, n) == prev.push(arg));
            let pre = events.drop_last();
            assert forall|i: int| 0 <= i < pre.len() implies is_command(#[trigger] pre[i], FlashCMD::WGPB, prev[i]) by {
                assert(pre[i] == events[i]);
                assert(prev.push(arg)[i] == prev[i]);
            }
            lemma_cleared_prefix(fuses, pre, p, value, m);
            let a = after_bit_commands(fuses, pre);
            assert(is_command(events.last(), FlashCMD::WGPB, arg));
            lemma_small_fuse_arg(k);
            assert((arg & 0x3F) as u64 == k);
            assert forall|j: u64| j < 64 implies #[trigger] ((after_bit_commands(fuses, events) >> j)
                % 2) == (if p <= j < p + n && (value >> (j - p) as u64) % 2 == 0 {
                0
            } else {
                (fuses >> j) % 2
            }) by {
                lemma_one_fuse(a, k, j);
                assert(((a >> j) % 2) == (if p <= j < p + m && (value >> (j - p) as u64) % 2 == 0 {
                    0
                } else {
                    (fuses >> j) % 2
                }));
                if j == k {
                    assert((j - p) as u64 == m as u64);
                }
            }
        }
    }
}

/// Writing a field of fuses and reading it back, on a controller that
/// clears a fuse on write-bit: whatever the fuses held, after the commands
/// that `write_gp_fuse_bitfield(pos, width, value)` issues (for a field
/// below 64 fuses that does not pass fuse 63), binary digit `i` of the field
/// read back is 0 where digit `i` of `value` is 0 and as it was where it is 1,
/// for every `i` below `width`; digits from `width` on are 0.
pub proof fn law_write_bitfield_readback(fuses: u64, events: Seq<BusEvent>, pos: u32, width: u32, value: u64)
    requires
        width < 64,
        pos % 64 + width <= 64,
        commands_are(events, FlashCMD::WGPB, cleared_bit_args(pos & 0x3F, value, width as nat)),
    ensures
        forall|i: u64|
            i < 64 ==> #[trigger] ((fuse_bitfield(after_bit_commands(fuses, events), pos, width) >> i)
                % 2) == (if i < width && (value >> i) % 2 == 1 {
                (fuse_bitfield(fuses, pos, width) >> i) % 2
            } else {
                0
            }),
{
    let p: u64 = (pos % 64) as u64;
    assert(pos & 0x3F == pos % 64) by (bit_vector);
    assert((pos & 0x3F) == p as u32);
    lemma_cleared_prefix(fuses, events, p, value, width as nat);
    let a = after_bit_commands(fuses, events);
    law_fuse_bitfield_digits(a, pos, width);
    law_fuse_bitfield_digits(fuses, pos, width);
    assert forall|i: u64| i < 64 implies #[trigger] ((fuse_bitfield(a, pos, width) >> i) % 2) == (
    if i < width && (value >> i) % 2 == 1 {
        (fuse_bitfield(fuses, pos, width) >> i) % 2
    } else {
        0
    }) by {
        assert(((fuse_bitfield(a, pos, width) >> i) % 2) == (if i < width && (pos % 64) + i < 64 {
            (a >> ((pos % 64) + i) as u64) % 2
        } else {
            0
        }));
        assert(((fuse_bitfield(fuses, pos, width) >> i) % 2) == (if i < width && (pos % 64) + i < 64 {
            (fuses >> ((pos % 64) + i) as u64) % 2
        } else {
            0
        }));
        if i < width {
            let j: u64 = (p + i) as u64;
            assert(((a >> j) % 2) == (if p <= j < p + width && (value >> (j - p) as u64) % 2 == 0 {
                0
            } else {
                (fuses >> j) % 2
            }));
            assert((j - p) as u64 == i);
        }
    }
}

} // verus!
