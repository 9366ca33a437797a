//! The 64 general-purpose fuses of the FLASHCALW controller: reading them,
//! and erasing, writing and setting them bit by bit, byte by byte or all at once.
use vstd::prelude::*;
use crate::bits::{
    GP_ALL_FUSES_ONE, fuse_bit, fuse_bit_arg, fuse_bitfield, fuse_byte, fuse_byte_arg, fuses_of,
    lemma_fuse_byte_walk, lemma_low_mask, min, lemma_mask_bounds, lemma_value_bit_walk, low_mask, min_u32,
};
use crate::bus::{
    Access, BusEvent, RegKey, RegisterBus, commands_are, errors, event_errors, is_command, is_read,
    lemma_errors_concat, lemma_errors_one, lemma_errors_push, lemma_errors_two, lemma_log_of_reads,
    lemma_or_laws, value_of,
};
use crate::command::FlashCMD;
use crate::flashcalw::FLASHCALW;

verus! {

/// `entries` read the high fuse register, then the low one.
pub open spec fn fuse_reads(entries: Seq<(Access, u32)>) -> bool {
    &&& entries.len() == 2
    &&& entries[0].0 == Access::Read(RegKey::GPFRHI)
    &&& entries[1].0 == Access::Read(RegKey::GPFRLO)
}

/// The fuses that the reads `entries` of `fuse_reads` give.
pub open spec fn fuses_in(entries: Seq<(Access, u32)>) -> u64 {
    fuses_of(entries[0].1, entries[1].1)
}

/// Events `i` and `i + 1` read the high and the low fuse register.
pub open spec fn fuses_read_at(events: Seq<BusEvent>, i: int) -> bool {
    &&& is_read(events[i], RegKey::GPFRHI)
    &&& is_read(events[i + 1], RegKey::GPFRLO)
}

/// The fuses that events `i` and `i + 1` read.
pub open spec fn fuses_at(events: Seq<BusEvent>, i: int) -> u64 {
    fuses_of(value_of(events[i]), value_of(events[i + 1]))
}

/// The arguments of the commands that program fuse bytes `0..n` of `fuses`
/// again, leaving out byte `skip`, in increasing order.
pub open spec fn rewrite_args(fuses: u64, skip: u32, n: nat) -> Seq<i32>
    decreases n,
{
    if n == 0 {
        Seq::empty()
    } else {
        let prev = rewrite_args(fuses, skip, (n - 1) as nat);
        if n - 1 == skip as int {
            prev
        } else {
            prev.push(fuse_byte_arg((n - 1) as u32, fuse_byte(fuses, (n - 1) as u32)))
        }
    }
}

/// The arguments of the eight commands that program the bytes of `value`, byte 0 first.
pub open spec fn all_byte_args(value: u64) -> Seq<i32> {
    Seq::new(8, |i: int| fuse_byte_arg(i as u32, fuse_byte(value, i as u32)))
}

/// Bit `i` of `value`.
pub open spec fn value_bit(value: u64, i: int) -> bool {
    (value >> (i as u64)) & 1 != 0
}

/// The arguments of the commands that clear the fuses `pos + i`, for the
/// bits `i < n` of `value` that are 0, in increasing order.
pub open spec fn cleared_bit_args(pos: u32, value: u64, n: nat) -> Seq<i32>
    decreases n,
{
    if n == 0 {
        Seq::empty()
    } else {
        let prev = cleared_bit_args(pos, value, (n - 1) as nat);
        if value_bit(value, n - 1) {
            prev
        } else {
            prev.push(fuse_bit_arg((pos + n - 1) as u32))
        }
    }
}

/// The arguments of the commands on fuses `pos .. pos + width`, in increasing order.
pub open spec fn bit_args(pos: u32, width: u32) -> Seq<i32> {
    Seq::new(width as nat, |i: int| fuse_bit_arg((pos + i) as u32))
}

/// The command that gives a fuse the value `value`: erase for 1, write for 0.
pub open spec fn set_bit_command(value: bool) -> FlashCMD {
    if value {
        FlashCMD::EGPB
    } else {
        FlashCMD::WGPB
    }
}

/// The events of `erase_gp_fuse_byte(byte, false)`: the fuses are read, all
/// are erased, and every byte but `byte` is programmed again with its value.
pub open spec fn erase_byte_events(events: Seq<BusEvent>, byte: u32) -> bool {
    &&& events.len() >= 3
    &&& fuses_read_at(events, 0)
    &&& is_command(events[2], FlashCMD::EAGPF, -1i32)
    &&& commands_are(
        events.subrange(3, events.len() as int),
        FlashCMD::PGPFB,
        rewrite_args(fuses_at(events, 0), byte, 8),
    )
}

/// How many events `erase_gp_fuse_byte(byte, false)` records.
pub open spec fn erase_byte_len(events: Seq<BusEvent>, byte: u32) -> int {
    3 + rewrite_args(fuses_at(events, 0), byte, 8).len() as int
}

/// A command run: `events` with one more command.
proof fn lemma_commands_push(
    events: Seq<BusEvent>,
    from: int,
    command: FlashCMD,
    args: Seq<i32>,
    e: BusEvent,
    arg: i32,
)
    requires
        0 <= from <= events.len(),
        commands_are(events.subrange(from, events.len() as int), command, args),
        is_command(e, command, arg),
    ensures
        commands_are(events.push(e).subrange(from, events.len() as int + 1), command, args.push(arg)),
{
    let a = events.subrange(from, events.len() as int);
    assert(events.push(e).subrange(from, events.len() as int + 1) =~= a.push(e));
}

impl FLASHCALW {
    /// All 64 fuses: the low fuse register in bits 0..31, the high one in
    /// bits 32..63, read high register first.
    pub fn read_all_gp_fuses<F: Fn(Access) -> u32>(&self, bus: &mut RegisterBus<F>) -> (r: u64)
        requires
            old(bus).ready(),
        ensures
            final(bus).extends(*old(bus)),
            fuse_reads(final(bus).new_entries(*old(bus))),
            r == fuses_in(final(bus).new_entries(*old(bus))),
    {
        let ghost b0 = *bus;
        let hi: u32 = self.read_register(bus, RegKey::GPFRHI);
        let ghost b1 = *bus;
        let lo: u32 = self.read_register(bus, RegKey::GPFRLO);
        proof {
            RegisterBus::lemma_extends_trans(b0, b1, *bus);
            assert(bus.new_entries(b0)[0] == b1.new_entries(b0)[0]);
            assert(bus.new_entries(b0)[1] == bus.new_entries(b1)[0]);
        }
        let gpfrhi: u64 = hi as u64;
        let gpfrlo: u64 = lo as u64;
        gpfrlo | (gpfrhi << 32u64)
    }

    /// Fuse `gp_fuse_bit` (taken modulo 64).
    pub fn read_gp_fuse_bit<F: Fn(Access) -> u32>(&self, bus: &mut RegisterBus<F>, gp_fuse_bit: u32) -> (r: bool)
        requires
            old(bus).ready(),
        ensures
            final(bus).extends(*old(bus)),
            fuse_reads(final(bus).new_entries(*old(bus))),
            r == fuse_bit(fuses_in(final(bus).new_entries(*old(bus))), gp_fuse_bit),
    {
        proof {
            lemma_mask_bounds(gp_fuse_bit);
        }
        (self.read_all_gp_fuses(bus) & (1u64 << (gp_fuse_bit & 0x3F))) != 0
    }

    /// The `width` fuses from `pos` (taken modulo 64) upwards, as a number.
    pub fn read_gp_fuse_bitfield<F: Fn(Access) -> u32>(
        &self,
        bus: &mut RegisterBus<F>,
        pos: u32,
        width: u32,
    ) -> (r: u64)
        requires
            old(bus).ready(),
            width < 64,
        ensures
            final(bus).extends(*old(bus)),
            fuse_reads(final(bus).new_entries(*old(bus))),
            r == fuse_bitfield(fuses_in(final(bus).new_entries(*old(bus))), pos, width),
    {
        let w: u32 = min(width, 64);
        proof {
            lemma_low_mask(w);
            lemma_mask_bounds(pos);
        }
        self.read_all_gp_fuses(bus) >> (pos & 0x3F) & ((1u64 << w) - 1)
    }

    /// Fuse byte `gp_fuse_byte` (taken modulo 8).
    pub fn read_gp_fuse_byte<F: Fn(Access) -> u32>(&self, bus: &mut RegisterBus<F>, gp_fuse_byte: u32) -> (r: u8)
        requires
            old(bus).ready(),
        ensures
            final(bus).extends(*old(bus)),
            fuse_reads(final(bus).new_entries(*old(bus))),
            r == fuse_byte(fuses_in(final(bus).new_entries(*old(bus))), gp_fuse_byte),
    {
        proof {
            lemma_mask_bounds(gp_fuse_byte);
        }
        #[verifier::truncate] ((self.read_all_gp_fuses(bus) >> ((gp_fuse_byte & 0x07) << 3u32)) as u8)
    }

    /// Erases fuse `gp_fuse_bit` (taken modulo 64), that is sets it to 1;
    /// with `check`, reads it back and reports it, else reports `true`.
    pub fn erase_gp_fuse_bit<F: Fn(Access) -> u32>(&mut self, bus: &mut RegisterBus<F>, gp_fuse_bit: u32, check: bool) -> (r: bool)
        requires
            old(bus).ready(),
        ensures
            final(self).did(*old(self), *final(bus), *old(bus)),
            ({
                let ne = final(self).new_events(*old(self));
                &&& ne.len() == (if check { 3int } else { 1int })
                &&& is_command(ne[0], FlashCMD::EGPB, fuse_bit_arg(gp_fuse_bit))
                &&& check ==> fuses_read_at(ne, 1) && r == fuse_bit(fuses_at(ne, 1), gp_fuse_bit)
                &&& !check ==> r
                &&& final(self).last_error() == event_errors(ne[0])
                &&& final(self).last_error() == errors(ne)
            }),
    {
        let arg: i32 = (#[verifier::truncate] (gp_fuse_bit as i32)) & 0x3F;
        self.issue_command(bus, FlashCMD::EGPB, arg);
        let ghost mid = *self;
        let ghost b_mid = *bus;
        proof {
            let ne = self.new_events(*old(self));
            assert(ne =~= seq![ne[0]]);
            lemma_errors_one(ne[0]);
        }
        if check {
            let r = self.read_gp_fuse_bit(bus, gp_fuse_bit);
            self.record_fuse_reads::<F>(Ghost(*bus), Ghost(b_mid));
            proof {
                FLASHCALW::lemma_did_trans(*old(self), mid, *self, *old(bus), b_mid, *bus);
                lemma_errors_concat(mid.new_events(*old(self)), self.new_events(mid));
                lemma_or_laws(errors(mid.new_events(*old(self))), 0, 0);
                let ne = self.new_events(*old(self));
                assert(ne[1] == self.new_events(mid)[0]);
                assert(ne[2] == self.new_events(mid)[1]);
            }
            r
        } else {
            true
        }
    }

    /// Erases all fuses, that is sets them to 1; with `check`, reads them back
    /// and reports whether they all are 1, else reports `true`.
    pub fn erase_all_gp_fuses<F: Fn(Access) -> u32>(&mut self, bus: &mut RegisterBus<F>, check: bool) -> (r: bool)
        requires
            old(bus).ready(),
        ensures
            final(self).did(*old(self), *final(bus), *old(bus)),
            ({
                let ne = final(self).new_events(*old(self));
                &&& ne.len() == (if check { 3int } else { 1int })
                &&& is_command(ne[0], FlashCMD::EAGPF, -1i32)
                &&& check ==> fuses_read_at(ne, 1) && r == (fuses_at(ne, 1) == GP_ALL_FUSES_ONE)
                &&& !check ==> r
                &&& final(self).last_error() == event_errors(ne[0])
                &&& final(self).last_error() == errors(ne)
            }),
    {
        self.issue_command(bus, FlashCMD::EAGPF, -1);
        let ghost mid = *self;
        let ghost b_mid = *bus;
        proof {
            let ne = self.new_events(*old(self));
            assert(ne =~= seq![ne[0]]);
            lemma_errors_one(ne[0]);
        }
        if check {
            let fuses: u64 = self.read_all_gp_fuses(bus);
            self.record_fuse_reads::<F>(Ghost(*bus), Ghost(b_mid));
            proof {
                FLASHCALW::lemma_did_trans(*old(self), mid, *self, *old(bus), b_mid, *bus);
                lemma_errors_concat(mid.new_events(*old(self)), self.new_events(mid));
                lemma_or_laws(errors(mid.new_events(*old(self))), 0, 0);
                let ne = self.new_events(*old(self));
                assert(ne[1] == self.new_events(mid)[0]);
                assert(ne[2] == self.new_events(mid)[1]);
            }
            fuses == GP_ALL_FUSES_ONE
        } else {
            true
        }
    }

    /// Writes fuse `gp_fuse_bit` (taken modulo 64): writing 0 clears it;
    /// writing 1 needs no command, since only an erase sets a fuse.
    pub fn write_gp_fuse_bit<F: Fn(Access) -> u32>(&mut self, bus: &mut RegisterBus<F>, gp_fuse_bit: u32, value: bool)
        requires
            old(bus).ready(),
        ensures
            final(self).did(*old(self), *final(bus), *old(bus)),
            !value ==> final(self).issued_one(*old(self), FlashCMD::WGPB, fuse_bit_arg(gp_fuse_bit)),
            value ==> final(self).extends(*old(self)) && final(self).new_events(*old(self)).len() == 0
                && final(self).last_error() == old(self).last_error(),
    {
        if !value {
            let arg: i32 = (#[verifier::truncate] (gp_fuse_bit as i32)) & 0x3F;
            self.issue_command(bus, FlashCMD::WGPB, arg)
        }
        proof {
            if value {
                FLASHCALW::lemma_did_refl(*self, *bus);
            }
        }
    }

    /// Programs fuse byte `gp_fuse_byte` (taken modulo 8) with `value`.
    pub fn write_gp_fuse_byte<F: Fn(Access) -> u32>(&mut self, bus: &mut RegisterBus<F>, gp_fuse_byte: u32, value: u8)
        requires
            old(bus).ready(),
        ensures
            final(self).did(*old(self), *final(bus), *old(bus)),
            final(self).issued_one(
                *old(self),
                FlashCMD::PGPFB,
                fuse_byte_arg(gp_fuse_byte, value),
            ),
    {
        let arg: i32 = #[verifier::truncate] (((gp_fuse_byte & 0x07) | (value as u32) << 3u32) as i32);
        self.issue_command(bus, FlashCMD::PGPFB, arg);
    }

    /// Gives fuse `gp_fuse_bit` (taken modulo 64) the value `value`: erases it
    /// for 1, writes it for 0.
    pub fn set_gp_fuse_bit<F: Fn(Access) -> u32>(&mut self, bus: &mut RegisterBus<F>, gp_fuse_bit: u32, value: bool)
        requires
            old(bus).ready(),
        ensures
            final(self).did(*old(self), *final(bus), *old(bus)),
            final(self).issued_one(*old(self), set_bit_command(value), fuse_bit_arg(gp_fuse_bit)),
    {
        if value {
            self.erase_gp_fuse_bit(bus, gp_fuse_bit, false);
        } else {
            self.write_gp_fuse_bit(bus, gp_fuse_bit, false);
        }
    }

    /// Programs every fuse byte with the matching byte of `value`, byte 0
    /// first; the error flags left are those of all eight commands.
    pub fn write_all_gp_fuses<F: Fn(Access) -> u32>(&mut self, bus: &mut RegisterBus<F>, value: u64)
        requires
            old(bus).ready(),
        ensures
            final(self).did(*old(self), *final(bus), *old(bus)),
            commands_are(final(self).new_events(*old(self)), FlashCMD::PGPFB, all_byte_args(value)),
            final(self).last_error() == errors(final(self).new_events(*old(self))),
    {
        let ghost start = *self;
        let ghost b_start = *bus;
        let ghost v: u64 = value;
        proof {
            FLASHCALW::lemma_did_refl(start, b_start);
            lemma_fuse_byte_walk(v, 0);
        }
        let mut value: u64 = value;
        let mut error_status: u32 = 0;
        let mut byte_val: u8;
        let mut gp_fuse_byte: u32 = 0;
        while gp_fuse_byte < 8
            invariant
                old(bus).ready(),
                gp_fuse_byte <= 8,
                gp_fuse_byte < 8 ==> value == v >> (8 * gp_fuse_byte) as u64,
                self.did(start, *bus, b_start),
                commands_are(
                    self.new_events(start),
                    FlashCMD::PGPFB,
                    all_byte_args(v).subrange(0, gp_fuse_byte as int),
                ),
                error_status == errors(self.new_events(start)),
            decreases 8 - gp_fuse_byte,
        {
            let ghost before = *self;
            let ghost b_before = *bus;
            proof {
                lemma_fuse_byte_walk(v, gp_fuse_byte);
            }
            // The low byte.
            byte_val = #[verifier::truncate] ((value & 0xFF) as u8);
            self.write_gp_fuse_byte(bus, gp_fuse_byte, byte_val);
            error_status |= self.error_status();
            proof {
                FLASHCALW::lemma_did_trans(start, before, *self, b_start, b_before, *bus);
                let step = self.new_events(before);
                assert(step =~= seq![step[0]]);
                assert(self.new_events(start) =~= before.new_events(start).push(step[0]));
                lemma_errors_push(before.new_events(start), step[0]);
                lemma_commands_push(
                    before.new_events(start),
                    0,
                    FlashCMD::PGPFB,
                    all_byte_args(v).subrange(0, gp_fuse_byte as int),
                    step[0],
                    fuse_byte_arg(gp_fuse_byte, byte_val),
                );
                assert(before.new_events(start).subrange(0, before.new_events(start).len() as int)
                    =~= before.new_events(start));
                assert(all_byte_args(v).subrange(0, gp_fuse_byte + 1) =~= all_byte_args(v).subrange(
                    0,
                    gp_fuse_byte as int,
                ).push(fuse_byte_arg(gp_fuse_byte, byte_val)));
                assert(self.new_events(start).subrange(0, self.new_events(start).len() as int)
                    =~= self.new_events(start));
            }
            value >>= 8u64;
            gp_fuse_byte += 1;
        }
        proof {
            assert(all_byte_args(v).subrange(0, 8) =~= all_byte_args(v));
        }
        let ghost before_end = *self;
        self.set_error_status(error_status);
        proof {
            FLASHCALW::lemma_extends_trans(start, before_end, *self);
            assert(self.new_events(start) =~= before_end.new_events(start));
        }
    }

    /// Erases the `width` (at most 64) fuses from `pos` (taken modulo 64)
    /// upwards, one by one; with `check`, reads them back and reports whether
    /// they all are 1, else reports `true`. The error flags left are those of
    /// all the commands.
    pub fn erase_gp_fuse_bitfield<F: Fn(Access) -> u32>(
        &mut self,
        bus: &mut RegisterBus<F>,
        pos: u32,
        width: u32,
        check: bool,
    ) -> (r: bool)
        requires
            old(bus).ready(),
            check ==> width < 64,
        ensures
            final(self).did(*old(self), *final(bus), *old(bus)),
            ({
                let ne = final(self).new_events(*old(self));
                let p: u32 = pos & 0x3F;
                let w: u32 = min_u32(width, 64);
                &&& ne.len() == w + (if check { 2int } else { 0int })
                &&& commands_are(ne.subrange(0, w as int), FlashCMD::EGPB, bit_args(p, w))
                &&& check ==> fuses_read_at(ne, w as int) && r == (fuse_bitfield(
                    fuses_at(ne, w as int),
                    p,
                    w,
                ) == low_mask(w))
                &&& !check ==> r
                &&& final(self).last_error() == errors(ne)
            }),
    {
        let ghost start = *self;
        let ghost b_start = *bus;
        proof {
            FLASHCALW::lemma_did_refl(start, b_start);
            lemma_mask_bounds(pos);
        }
        let mut error_status: u32 = 0;
        let pos: u32 = pos & 0x3F;
        let width: u32 = min(width, 64);
        let mut gp_fuse_bit: u32 = pos;
        while gp_fuse_bit < pos + width
            invariant
                old(bus).ready(),
                pos < 64,
                width <= 64,
                pos <= gp_fuse_bit <= pos + width,
                self.did(start, *bus, b_start),
                commands_are(
                    self.new_events(start),
                    FlashCMD::EGPB,
                    bit_args(pos, width).subrange(0, gp_fuse_bit - pos),
                ),
                error_status == errors(self.new_events(start)),
            decreases pos + width - gp_fuse_bit,
        {
            let ghost before = *self;
            let ghost b_before = *bus;
            self.erase_gp_fuse_bit(bus, gp_fuse_bit, false);
            error_status |= self.error_status();
            proof {
                FLASHCALW::lemma_did_trans(start, before, *self, b_start, b_before, *bus);
                let step = self.new_events(before);
                let old_ne = before.new_events(start);
                assert(step =~= seq![step[0]]);
                assert(self.new_events(start) =~= old_ne.push(step[0]));
                lemma_errors_push(old_ne, step[0]);
                assert(old_ne.subrange(0, old_ne.len() as int) =~= old_ne);
                lemma_commands_push(
                    old_ne,
                    0,
                    FlashCMD::EGPB,
                    bit_args(pos, width).subrange(0, gp_fuse_bit - pos),
                    step[0],
                    fuse_bit_arg(gp_fuse_bit),
                );
                assert(bit_args(pos, width).subrange(0, gp_fuse_bit + 1 - pos) =~= bit_args(
                    pos,
                    width,
                ).subrange(0, gp_fuse_bit - pos).push(fuse_bit_arg(gp_fuse_bit)));
                assert(self.new_events(start).subrange(0, self.new_events(start).len() as int)
                    =~= self.new_events(start));
            }
            gp_fuse_bit += 1;
        }
        let ghost before_end = *self;
        self.set_error_status(error_status);
        proof {
            FLASHCALW::lemma_extends_trans(start, before_end, *self);
            assert(self.new_events(start) =~= before_end.new_events(start));
            assert(bit_args(pos, width).subrange(0, width as int) =~= bit_args(pos, width));
            assert(self.new_events(start).subrange(0, width as int) =~= self.new_events(start));
        }
        if check {
            let ghost mid = *self;
            let ghost b_mid = *bus;
            proof {
                lemma_low_mask(width);
            }
            let field: u64 = self.read_gp_fuse_bitfield(bus, pos, width);
            self.record_fuse_reads::<F>(Ghost(*bus), Ghost(b_mid));
            proof {
                FLASHCALW::lemma_did_trans(start, mid, *self, b_start, b_mid, *bus);
                lemma_errors_concat(mid.new_events(start), self.new_events(mid));
                lemma_or_laws(errors(mid.new_events(start)), 0, 0);
                let ne = self.new_events(start);
                assert(ne.subrange(0, width as int) =~= mid.new_events(start));
                assert(ne[width as int] == self.new_events(mid)[0]);
                assert(ne[width + 1] == self.new_events(mid)[1]);
            }
            field == ((1u64 << width) - 1)
        } else {
            true
        }
    }

    /// Writes the `width` (at most 64) fuses from `pos` (taken modulo 64)
    /// upwards with the bits of `value`, bit 0 first: a fuse whose bit is 0 is
    /// cleared; a fuse whose bit is 1 needs no command. The error flags left
    /// are those of the commands issued, together with the error flags held
    /// before when the first bit of `value` is 1.
    pub fn write_gp_fuse_bitfield<F: Fn(Access) -> u32>(
        &mut self,
        bus: &mut RegisterBus<F>,
        pos: u32,
        width: u32,
        value: u64,
    )
        requires
            old(bus).ready(),
        ensures
            final(self).did(*old(self), *final(bus), *old(bus)),
            commands_are(
                final(self).new_events(*old(self)),
                FlashCMD::WGPB,
                cleared_bit_args(pos & 0x3F, value, min_u32(width, 64) as nat),
            ),
            final(self).last_error() == errors(final(self).new_events(*old(self))) | (if min_u32(
                width,
                64,
            ) > 0 && value_bit(value, 0) {
                old(self).last_error()
            } else {
                0
            }),
    {
        let ghost start = *self;
        let ghost b_start = *bus;
        let ghost v: u64 = value;
        let ghost init: u32 = self.last_error();
        proof {
            FLASHCALW::lemma_did_refl(start, b_start);
            assert(errors(start.new_events(start)) == 0);
            lemma_or_laws(0, 0, 0);
            lemma_mask_bounds(pos);
            lemma_fuse_byte_walk(v, 0);
        }
        let mut value: u64 = value;
        let mut error_status: u32 = 0;
        let pos: u32 = pos & 0x3F;
        let width: u32 = min(width, 64);
        let mut gp_fuse_bit: u32 = pos;
        while gp_fuse_bit < pos + width
            invariant
                old(bus).ready(),
                pos < 64,
                width <= 64,
                pos <= gp_fuse_bit <= pos + width,
                gp_fuse_bit - pos < 64 ==> value == v >> (gp_fuse_bit - pos) as u64,
                self.did(start, *bus, b_start),
                commands_are(
                    self.new_events(start),
                    FlashCMD::WGPB,
                    cleared_bit_args(pos, v, (gp_fuse_bit - pos) as nat),
                ),
                error_status == errors(self.new_events(start)) | (if gp_fuse_bit > pos && value_bit(
                    v,
                    0,
                ) {
                    init
                } else {
                    0
                }),
                self.last_error() == (if self.new_events(start).len() == 0 {
                    init
                } else {
                    event_errors(self.new_events(start).last())
                }),
                self.new_events(start).len() == 0 && gp_fuse_bit > pos ==> value_bit(v, 0),
            decreases pos + width - gp_fuse_bit,
        {
            let ghost before = *self;
            let ghost b_before = *bus;
            let ghost i: int = gp_fuse_bit - pos;
            let bit = value & 0x01 != 0;
            assert(bit == value_bit(v, i));
            self.write_gp_fuse_bit(bus, gp_fuse_bit, bit);
            error_status |= self.error_status();
            proof {
                FLASHCALW::lemma_did_trans(start, before, *self, b_start, b_before, *bus);
                let old_ne = before.new_events(start);
                let step = self.new_events(before);
                let e_old: u32 = errors(old_ne);
                let x: u32 = if i > 0 && value_bit(v, 0) {
                    init
                } else {
                    0
                };
                assert(cleared_bit_args(pos, v, (i + 1) as nat) == if value_bit(v, i) {
                    cleared_bit_args(pos, v, i as nat)
                } else {
                    cleared_bit_args(pos, v, i as nat).push(fuse_bit_arg((pos + i) as u32))
                });
                if bit {
                    assert(self.new_events(start) =~= old_ne);
                    if old_ne.len() == 0 {
                        lemma_or_laws(0, 0, init);
                        lemma_or_laws(0, init, init);
                    } else {
                        lemma_errors_push(old_ne.drop_last(), old_ne.last());
                        assert(old_ne.drop_last().push(old_ne.last()) =~= old_ne);
                        lemma_or_laws(errors(old_ne.drop_last()), event_errors(old_ne.last()), x);
                    }
                } else {
                    assert(step =~= seq![step[0]]);
                    assert(self.new_events(start) =~= old_ne.push(step[0]));
                    lemma_errors_push(old_ne, step[0]);
                    lemma_commands_push(
                        old_ne,
                        0,
                        FlashCMD::WGPB,
                        cleared_bit_args(pos, v, i as nat),
                        step[0],
                        fuse_bit_arg(gp_fuse_bit),
                    );
                    assert(old_ne.subrange(0, old_ne.len() as int) =~= old_ne);
                    assert(self.new_events(start).subrange(0, self.new_events(start).len() as int)
                        =~= self.new_events(start));
                    lemma_or_laws(e_old, x, event_errors(step[0]));
                    lemma_or_laws(e_old, 0, 0);
                    lemma_or_laws(errors(self.new_events(start)), 0, 0);
                }
                if i + 1 < 64 {
                    lemma_value_bit_walk(v, i as u64);
                }
            }
            value >>= 1u64;
            gp_fuse_bit += 1;
        }
        let ghost before_end = *self;
        self.set_error_status(error_status);
        proof {
            FLASHCALW::lemma_extends_trans(start, before_end, *self);
            assert(self.new_events(start) =~= before_end.new_events(start));
        }
    }

    /// Gives the `width` (at most 64) fuses from `pos` (taken modulo 64)
    /// upwards the bits of `value`, bit 0 first, each with `set_gp_fuse_bit`.
    /// The error flags left are those of all the commands.
    pub fn set_gp_fuse_bitfield<F: Fn(Access) -> u32>(
        &mut self,
        bus: &mut RegisterBus<F>,
        pos: u32,
        width: u32,
        value: u64,
    )
        requires
            old(bus).ready(),
        ensures
            final(self).did(*old(self), *final(bus), *old(bus)),
            final(self).new_events(*old(self)).len() == min_u32(width, 64),
            forall|i: int|
                0 <= i < min_u32(width, 64) ==> is_command(
                    #[trigger] final(self).new_events(*old(self))[i],
                    set_bit_command(value_bit(value, i)),
                    fuse_bit_arg(((pos & 0x3F) + i) as u32),
                ),
            final(self).last_error() == errors(final(self).new_events(*old(self))),
    {
        let ghost start = *self;
        let ghost b_start = *bus;
        let ghost v: u64 = value;
        proof {
            FLASHCALW::lemma_did_refl(start, b_start);
            lemma_mask_bounds(pos);
            lemma_fuse_byte_walk(v, 0);
        }
        let mut value: u64 = value;
        let mut error_status: u32 = 0;
        let pos: u32 = pos & 0x3F;
        let width: u32 = min(width, 64);
        let mut gp_fuse_bit: u32 = pos;
        while gp_fuse_bit < pos + width
            invariant
                old(bus).ready(),
                pos < 64,
                width <= 64,
                pos <= gp_fuse_bit <= pos + width,
                gp_fuse_bit - pos < 64 ==> value == v >> (gp_fuse_bit - pos) as u64,
                self.did(start, *bus, b_start),
                self.new_events(start).len() == gp_fuse_bit - pos,
                forall|i: int|
                    0 <= i < gp_fuse_bit - pos ==> is_command(
                        #[trigger] self.new_events(start)[i],
                        set_bit_command(value_bit(v, i)),
                        fuse_bit_arg((pos + i) as u32),
                    ),
                error_status == errors(self.new_events(start)),
            decreases pos + width - gp_fuse_bit,
        {
            let ghost before = *self;
            let ghost b_before = *bus;
            let ghost i: int = gp_fuse_bit - pos;
            let bit = value & 0x01 != 0;
            assert(bit == value_bit(v, i));
            self.set_gp_fuse_bit(bus, gp_fuse_bit, bit);
            error_status |= self.error_status();
            proof {
                FLASHCALW::lemma_did_trans(start, before, *self, b_start, b_before, *bus);
                let old_ne = before.new_events(start);
                let step = self.new_events(before);
                assert(step =~= seq![step[0]]);
                assert(self.new_events(start) =~= old_ne.push(step[0]));
                lemma_errors_push(old_ne, step[0]);
                if i + 1 < 64 {
                    lemma_value_bit_walk(v, i as u64);
                }
            }
            value >>= 1u64;
            gp_fuse_bit += 1;
        }
        let ghost before_end = *self;
        self.set_error_status(error_status);
        proof {
            FLASHCALW::lemma_extends_trans(start, before_end, *self);
            assert(self.new_events(start) =~= before_end.new_events(start));
        }
    }

    /// Erases fuse byte `gp_fuse_byte` (taken modulo 8), that is sets it to
    /// 0xFF: reads the fuses, erases them all, and programs every other byte
    /// with the value it had (every byte, for an index above 7). With
    /// `check`, reads the byte back and reports whether it is 0xFF, else
    /// reports `true`. The error flags left are those of all the commands.
    pub fn erase_gp_fuse_byte<F: Fn(Access) -> u32>(&mut self, bus: &mut RegisterBus<F>, gp_fuse_byte: u32, check: bool) -> (r: bool)
        requires
            old(bus).ready(),
        ensures
            final(self).did(*old(self), *final(bus), *old(bus)),
            ({
                let ne = final(self).new_events(*old(self));
                let k: int = erase_byte_len(ne, gp_fuse_byte);
                &&& ne.len() == k + (if check { 2int } else { 0int })
                &&& erase_byte_events(ne.subrange(0, k), gp_fuse_byte)
                &&& check ==> fuses_read_at(ne, k) && r == (fuse_byte(fuses_at(ne, k), gp_fuse_byte)
                    == 0xFF)
                &&& !check ==> r
                &&& final(self).last_error() == errors(ne)
            }),
    {
        let ghost start = *self;
        let ghost b_start = *bus;
        let mut value: u64 = self.read_all_gp_fuses(bus);
        let ghost v: u64 = value;
        self.record_fuse_reads::<F>(Ghost(*bus), Ghost(b_start));
        let ghost after_read = *self;
        let ghost b_after_read = *bus;
        let mut byte_val: u8;
        self.erase_all_gp_fuses(bus, false);
        let mut error_status: u32 = self.error_status();
        proof {
            FLASHCALW::lemma_did_trans(start, after_read, *self, b_start, b_after_read, *bus);
            lemma_errors_concat(after_read.new_events(start), self.new_events(after_read));
            lemma_or_laws(error_status, 0, 0);
            let ne = self.new_events(start);
            assert(ne[2] == self.new_events(after_read)[0]);
            assert(ne.subrange(3, ne.len() as int) =~= Seq::<BusEvent>::empty());
            lemma_fuse_byte_walk(v, 0);
        }
        let mut current_gp_fuse_byte: u32 = 0;
        while current_gp_fuse_byte < 8
            invariant
                old(bus).ready(),
                current_gp_fuse_byte <= 8,
                current_gp_fuse_byte < 8 ==> value == v >> (8 * current_gp_fuse_byte) as u64,
                self.did(start, *bus, b_start),
                self.new_events(start).len() == 3 + rewrite_args(
                    v,
                    gp_fuse_byte,
                    current_gp_fuse_byte as nat,
                ).len(),
                fuses_read_at(self.new_events(start), 0),
                fuses_at(self.new_events(start), 0) == v,
                is_command(self.new_events(start)[2], FlashCMD::EAGPF, -1i32),
                commands_are(
                    self.new_events(start).subrange(3, self.new_events(start).len() as int),
                    FlashCMD::PGPFB,
                    rewrite_args(v, gp_fuse_byte, current_gp_fuse_byte as nat),
                ),
                error_status == errors(self.new_events(start)),
            decreases 8 - current_gp_fuse_byte,
        {
            let ghost before = *self;
            let ghost b_before = *bus;
            let ghost c: u32 = current_gp_fuse_byte;
            proof {
                lemma_fuse_byte_walk(v, c);
            }
            if current_gp_fuse_byte != gp_fuse_byte {
                // The low byte.
                byte_val = #[verifier::truncate] ((value & 0xFF) as u8);
                self.write_gp_fuse_byte(bus, current_gp_fuse_byte, byte_val);
                error_status |= self.error_status();
                proof {
                    FLASHCALW::lemma_did_trans(start, before, *self, b_start, b_before, *bus);
                    let old_ne = before.new_events(start);
                    let step = self.new_events(before);
                    assert(step =~= seq![step[0]]);
                    assert(self.new_events(start) =~= old_ne.push(step[0]));
                    lemma_errors_push(old_ne, step[0]);
                    lemma_commands_push(
                        old_ne,
                        3,
                        FlashCMD::PGPFB,
                        rewrite_args(v, gp_fuse_byte, c as nat),
                        step[0],
                        fuse_byte_arg(c, byte_val),
                    );
                    assert(self.new_events(start)[0] == old_ne[0]);
                    assert(self.new_events(start)[1] == old_ne[1]);
                    assert(self.new_events(start)[2] == old_ne[2]);
                }
            }
            assert(rewrite_args(v, gp_fuse_byte, (c + 1) as nat) == if c == gp_fuse_byte {
                rewrite_args(v, gp_fuse_byte, c as nat)
            } else {
                rewrite_args(v, gp_fuse_byte, c as nat).push(fuse_byte_arg(c, fuse_byte(v, c)))
            });
            value >>= 8u64;
            current_gp_fuse_byte += 1;
        }
        let ghost before_end = *self;
        self.set_error_status(error_status);
        proof {
            FLASHCALW::lemma_extends_trans(start, before_end, *self);
            assert(self.new_events(start) =~= before_end.new_events(start));
            let ne = self.new_events(start);
            assert(ne.subrange(0, ne.len() as int) =~= ne);
            assert(ne.subrange(0, ne.len() as int).subrange(3, ne.len() as int) =~= ne.subrange(
                3,
                ne.len() as int,
            ));
        }
        if check {
            let ghost mid = *self;
            let ghost b_mid = *bus;
            let b: u8 = self.read_gp_fuse_byte(bus, gp_fuse_byte);
            self.record_fuse_reads::<F>(Ghost(*bus), Ghost(b_mid));
            proof {
                FLASHCALW::lemma_did_trans(start, mid, *self, b_start, b_mid, *bus);
                lemma_errors_concat(mid.new_events(start), self.new_events(mid));
                lemma_or_laws(errors(mid.new_events(start)), 0, 0);
                let ne = self.new_events(start);
                let k: int = mid.new_events(start).len() as int;
                assert(ne.subrange(0, k) =~= mid.new_events(start));
                assert(ne[0] == mid.new_events(start)[0]);
                assert(ne[1] == mid.new_events(start)[1]);
                assert(ne[k] == self.new_events(mid)[0]);
                assert(ne[k + 1] == self.new_events(mid)[1]);
            }
            b == 0xFF
        } else {
            true
        }
    }

    /// Gives fuse byte `gp_fuse_byte` the value `value`: 0xFF erases the
    /// byte, 0x00 programs it, and any other value erases it, then programs it.
    /// The error flags left are those of all the commands.
    pub fn set_gp_fuse_byte<F: Fn(Access) -> u32>(&mut self, bus: &mut RegisterBus<F>, gp_fuse_byte: u32, value: u8)
        requires
            old(bus).ready(),
        ensures
            final(self).did(*old(self), *final(bus), *old(bus)),
            ({
                let ne = final(self).new_events(*old(self));
                &&& value == 0xFF ==> ne.len() == erase_byte_len(ne, gp_fuse_byte) && erase_byte_events(
                    ne,
                    gp_fuse_byte,
                )
                &&& value == 0 ==> ne.len() == 1 && is_command(
                    ne[0],
                    FlashCMD::PGPFB,
                    fuse_byte_arg(gp_fuse_byte, 0),
                )
                &&& value != 0 && value != 0xFF ==> {
                    &&& ne.len() == erase_byte_len(ne, gp_fuse_byte) + 1
                    &&& erase_byte_events(ne.subrange(0, ne.len() - 1), gp_fuse_byte)
                    &&& is_command(ne.last(), FlashCMD::PGPFB, fuse_byte_arg(gp_fuse_byte, value))
                }
                &&& final(self).last_error() == errors(ne)
            }),
    {
        let ghost start = *self;
        let ghost b_start = *bus;
        match value {
            0xFF => {
                self.erase_gp_fuse_byte(bus, gp_fuse_byte, false);
                proof {
                    let ne = self.new_events(start);
                    assert(ne.subrange(0, ne.len() as int) =~= ne);
                }
            },
            0x00 => {
                self.write_gp_fuse_byte(bus, gp_fuse_byte, 0x00);
                proof {
                    let ne = self.new_events(start);
                    assert(ne =~= seq![ne[0]]);
                    lemma_errors_one(ne[0]);
                }
            },
            _ => {
                self.erase_gp_fuse_byte(bus, gp_fuse_byte, false);
                let error_status: u32 = self.error_status();
                let ghost mid = *self;
                let ghost b_mid = *bus;
                self.write_gp_fuse_byte(bus, gp_fuse_byte, value);
                let ghost mid2 = *self;
                let ghost b_mid2 = *bus;
                let combined: u32 = self.error_status() | error_status;
                self.set_error_status(combined);
                proof {
                    FLASHCALW::lemma_did_trans(start, mid, mid2, b_start, b_mid, b_mid2);
                    FLASHCALW::lemma_extends_trans(start, mid2, *self);
                    assert(self.new_events(start) =~= mid2.new_events(start));
                    let first = mid.new_events(start);
                    let step = mid2.new_events(mid);
                    assert(step =~= seq![step[0]]);
                    let ne = self.new_events(start);
                    assert(ne =~= first.push(step[0]));
                    lemma_errors_push(first, step[0]);
                    lemma_or_laws(event_errors(step[0]), error_status, 0);
                    assert(ne.subrange(0, ne.len() - 1) =~= first);
                    assert(ne[0] == first[0]);
                    assert(ne[1] == first[1]);
                    assert(first.subrange(0, first.len() as int) =~= first);
                }
            },
        }
    }

    /// Gives all fuses the bits of `value`: all ones erases them, zero
    /// programs every byte with 0, and any other value erases them all, then
    /// programs every byte. The error flags left are those of all the commands.
    pub fn set_all_gp_fuses<F: Fn(Access) -> u32>(&mut self, bus: &mut RegisterBus<F>, value: u64)
        requires
            old(bus).ready(),
        ensures
            final(self).did(*old(self), *final(bus), *old(bus)),
            ({
                let ne = final(self).new_events(*old(self));
                &&& value == GP_ALL_FUSES_ONE ==> ne.len() == 1 && is_command(
                    ne[0],
                    FlashCMD::EAGPF,
                    -1i32,
                )
                &&& value == 0 ==> commands_are(ne, FlashCMD::PGPFB, all_byte_args(0))
                &&& value != 0 && value != GP_ALL_FUSES_ONE ==> {
                    &&& ne.len() == 9
                    &&& is_command(ne[0], FlashCMD::EAGPF, -1i32)
                    &&& commands_are(ne.subrange(1, 9), FlashCMD::PGPFB, all_byte_args(value))
                }
                &&& final(self).last_error() == errors(ne)
            }),
    {
        let ghost start = *self;
        let ghost b_start = *bus;
        if value == GP_ALL_FUSES_ONE {
            self.erase_all_gp_fuses(bus, false);
        } else if value == 0u64 {
            self.write_all_gp_fuses(bus, 0u64);
        } else {
            self.erase_all_gp_fuses(bus, false);
            let error_status: u32 = self.error_status();
            let ghost mid = *self;
            let ghost b_mid = *bus;
            self.write_all_gp_fuses(bus, value);
            let ghost mid2 = *self;
            let ghost b_mid2 = *bus;
            let combined: u32 = self.error_status() | error_status;
            self.set_error_status(combined);
            proof {
                FLASHCALW::lemma_did_trans(start, mid, mid2, b_start, b_mid, b_mid2);
                FLASHCALW::lemma_extends_trans(start, mid2, *self);
                assert(self.new_events(start) =~= mid2.new_events(start));
                let first = mid.new_events(start);
                let rest = mid2.new_events(mid);
                let ne = self.new_events(start);
                assert(ne =~= first + rest);
                lemma_errors_concat(first, rest);
                lemma_or_laws(errors(rest), error_status, 0);
                assert(ne.subrange(1, 9) =~= rest);
                assert(ne[0] == first[0]);
            }
        }
    }

    /// Records the two reads of the fuse registers that the bus logged from
    /// `bus_before` to `bus`.
    fn record_fuse_reads<F: Fn(Access) -> u32>(
        &mut self,
        bus: Ghost<RegisterBus<F>>,
        bus_before: Ghost<RegisterBus<F>>,
    )
        requires
            bus@.extends(bus_before@),
            fuse_reads(bus@.new_entries(bus_before@)),
        ensures
            final(self).did(*old(self), bus@, bus_before@),
            final(self).new_events(*old(self)).len() == 2,
            fuses_read_at(final(self).new_events(*old(self)), 0),
            fuses_at(final(self).new_events(*old(self)), 0) == fuses_in(bus@.new_entries(bus_before@)),
            errors(final(self).new_events(*old(self))) == 0,
            final(self).last_error() == old(self).last_error(),
    {
        let ghost entries = bus@.new_entries(bus_before@);
        let ghost reads = seq![
            BusEvent::Read { key: RegKey::GPFRHI, value: entries[0].1 },
            BusEvent::Read { key: RegKey::GPFRLO, value: entries[1].1 },
        ];
        proof {
            lemma_log_of_reads(entries, RegKey::GPFRHI, RegKey::GPFRLO);
            lemma_errors_two(reads[0], reads[1]);
            lemma_or_laws(0, 0, 0);
        }
        self.record::<F>(Ghost(reads), bus, bus_before);
    }
}

} // verus!
