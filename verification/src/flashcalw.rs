//! The FLASHCALW controller driver: register access, commands, status,
//! protection and flash pages.
use vstd::prelude::*;
use crate::bits::{
    FLASHCALW_CMD_KEY, FLASHCALW_REGIONS, FLASH_FREQ_PS0_FWS_0_MAX_FREQ,
    FLASH_FREQ_PS0_FWS_1_MAX_FREQ, FLASH_FREQ_PS1_FWS_0_MAX_FREQ, FLASH_FREQ_PS1_FWS_1_FWU_MAX_FREQ,
    FLASH_FREQ_PS2_FWS_0_MAX_FREQ, FLASH_NB_OF_REGIONS, FLASH_PAGE_SIZE, command_field, command_word,
    error_bits, flash_size_of, flash_size_table, lemma_flash_size_bound, lock_error_flag,
    page_count_of, page_count_per_region_of, page_erased_flag, page_field, page_region,
    page_region_of, parameter_known, programming_error_flag, ready_flag, region_first_page,
    region_locked_flag, security_flag, ready_int_flag, lock_error_int_flag, prog_error_int_flag, status_ready, wait_state_field, with_bit,
};
use crate::bus::{
    Access, BusEvent, RegKey, RegisterBus, errors, event_entries, event_errors, is_command, is_read,
    lemma_errors_concat, lemma_errors_one, lemma_errors_three, lemma_errors_two, lemma_log_of_concat,
    lemma_log_of_one, lemma_log_of_two, lemma_or_laws, log_of, value_of,
};
use crate::command::{FlashCMD, Speed};

verus! {

/// The FLASHCALW controller.
///
/// Every access to the controller goes through the register bus handed to
/// each method. Besides the speed mode and the error flags of the last
/// command, the driver keeps, as ghost state, the record of the commands it
/// issued and of the registers its operations read and wrote; the contracts
/// tie that record to the log of the bus, access for access.
pub struct FLASHCALW {
    pub(crate) speed_mode: Speed,
    pub(crate) error_status: u32,
    pub(crate) history: Ghost<Seq<BusEvent>>,
}

/// Every value the bus may give for the parameter register has a flash size
/// field that the size table holds.
pub open spec fn parameter_readable<F: Fn(Access) -> u32>(bus: RegisterBus<F>) -> bool {
    forall|p: u32| #[trigger] bus.gives(Access::Read(RegKey::PARAMETER), p) ==> parameter_known(p)
}

/// `entries` read the control register and write it back with bit
/// `position` set (`enable`) or cleared, the other bits as read.
pub open spec fn control_update(entries: Seq<(Access, u32)>, position: u32, enable: bool) -> bool {
    &&& entries.len() == 2
    &&& entries[0].0 == Access::Read(RegKey::CONTROL)
    &&& entries[1].0 == Access::Write(RegKey::CONTROL, with_bit(entries[0].1, position, enable))
}

/// `entries` are the reads that find the region of page `page_number`: the
/// command register first for a negative page number, then the parameter register.
pub open spec fn page_region_entries(entries: Seq<(Access, u32)>, page_number: i32) -> bool {
    if page_number >= 0 {
        &&& entries.len() == 1
        &&& entries[0].0 == Access::Read(RegKey::PARAMETER)
    } else {
        &&& entries.len() == 2
        &&& entries[0].0 == Access::Read(RegKey::COMMAND)
        &&& entries[1].0 == Access::Read(RegKey::PARAMETER)
    }
}

/// The region that the reads `entries` of `page_region_entries` give.
pub open spec fn page_region_result(entries: Seq<(Access, u32)>, page_number: i32) -> u32 {
    if page_number >= 0 {
        page_region_of(page_number, 0, entries[0].1)
    } else {
        page_region_of(page_number, entries[0].1, entries[1].1)
    }
}

/// The wait state that `set_flash_waitstate_and_readmode` selects for CPU
/// frequency `cpu_freq`, power scaling `ps_val` and fast wake-up `is_fwu_enabled`.
pub open spec fn readmode_wait_state(cpu_freq: u32, ps_val: u32, is_fwu_enabled: bool) -> u32 {
    if ps_val == 0 {
        if cpu_freq > FLASH_FREQ_PS0_FWS_0_MAX_FREQ {
            1
        } else if is_fwu_enabled && cpu_freq <= FLASH_FREQ_PS1_FWS_1_FWU_MAX_FREQ {
            1
        } else {
            0
        }
    } else if cpu_freq > FLASH_FREQ_PS1_FWS_0_MAX_FREQ {
        1
    } else {
        0
    }
}

/// The read mode command that `set_flash_waitstate_and_readmode` issues:
/// high speed mode only with power scaling 0 above 36 MHz.
pub open spec fn readmode_command(cpu_freq: u32, ps_val: u32) -> FlashCMD {
    if ps_val == 0 && cpu_freq > FLASH_FREQ_PS0_FWS_1_MAX_FREQ {
        FlashCMD::HSEN
    } else {
        FlashCMD::HSDIS
    }
}

/// Events `2 * r` and `2 * r + 1` of `events` are the read of the parameter
/// register and the lock (`lock`) or unlock command on the first page of
/// region `r` that the parameter read gives.
pub open spec fn region_step(events: Seq<BusEvent>, r: int, lock: bool) -> bool {
    &&& is_read(events[2 * r], RegKey::PARAMETER)
    &&& is_command(
        events[2 * r + 1],
        lock_command(lock),
        (r * page_count_per_region_of(value_of(events[2 * r]))) as i32,
    )
}

/// Where the events of page `k` start, in the record of `erase_all_pages`:
/// after the parameter read, three events per page with `check`, one without.
pub open spec fn page_start(k: int, check: bool) -> int {
    if check {
        1 + 3 * k
    } else {
        1 + k
    }
}

/// The events of `erase_page(page_number, check)`: the erase command and,
/// with `check`, a quick page read of the current page and the status read.
pub open spec fn erase_page_events(events: Seq<BusEvent>, page_number: i32, check: bool) -> bool {
    &&& events.len() == (if check { 3int } else { 1int })
    &&& is_command(events[0], FlashCMD::EP, page_number)
    &&& check ==> is_command(events[1], FlashCMD::QPR, -1i32) && is_read(events[2], RegKey::STATUS)
}

/// Page `k` of the record of `erase_all_pages` was erased with page number
/// `page_number`, as `erase_page` does it.
pub open spec fn page_step(events: Seq<BusEvent>, k: int, page_number: i32, check: bool) -> bool {
    &&& is_command(events[page_start(k, check)], FlashCMD::EP, page_number)
    &&& check ==> is_command(events[page_start(k, check) + 1], FlashCMD::QPR, -1i32) && is_read(
        events[page_start(k, check) + 2],
        RegKey::STATUS,
    )
}

/// Page `k` of the record of `erase_all_pages` reads as erased, or was not checked.
pub open spec fn page_ok(events: Seq<BusEvent>, k: int, check: bool) -> bool {
    check ==> page_erased_flag(value_of(events[page_start(k, check) + 2]))
}

/// The command that locks (`LP`) or unlocks (`UP`) a region.
pub open spec fn lock_command(lock: bool) -> FlashCMD {
    if lock {
        FlashCMD::LP
    } else {
        FlashCMD::UP
    }
}

/// Erasing one more page in `erase_all_pages` extends the steps and the
/// checks of the earlier pages by those of the new page.
proof fn lemma_page_steps_grow(
    ne: Seq<BusEvent>,
    old_ne: Seq<BusEvent>,
    step: Seq<BusEvent>,
    done: int,
    n: int,
    check: bool,
    erased: bool,
)
    requires
        0 <= done < n,
        ne == old_ne + step,
        old_ne.len() == page_start(done, check),
        forall|k: int| 0 <= k < done ==> #[trigger] page_step(old_ne, k, (n - 1 - k) as i32, check),
        erase_page_events(step, (n - 1 - done) as i32, check),
        erased == (check ==> page_erased_flag(value_of(step[2]))),
    ensures
        ne.len() == page_start(done + 1, check),
        forall|k: int| 0 <= k < done + 1 ==> #[trigger] page_step(ne, k, (n - 1 - k) as i32, check),
        (forall|k: int| 0 <= k < done + 1 ==> #[trigger] page_ok(ne, k, check)) == ((forall|k: int|
            0 <= k < done ==> #[trigger] page_ok(old_ne, k, check)) && erased),
{
    assert forall|k: int| 0 <= k < done + 1 implies #[trigger] page_step(
        ne,
        k,
        (n - 1 - k) as i32,
        check,
    ) by {
        if k < done {
            assert(page_step(old_ne, k, (n - 1 - k) as i32, check));
        } else {
            assert(ne[page_start(k, check)] == step[0]);
            if check {
                assert(ne[page_start(k, check) + 1] == step[1]);
                assert(ne[page_start(k, check) + 2] == step[2]);
            }
        }
    }
    assert forall|k: int| 0 <= k < done implies #[trigger] page_ok(ne, k, check) == page_ok(
        old_ne,
        k,
        check,
    ) by {
        if check {
            assert(ne[page_start(k, check) + 2] == old_ne[page_start(k, check) + 2]);
        }
    }
    if check {
        assert(ne[page_start(done, check) + 2] == step[2]);
    }
    assert(page_ok(ne, done, check) == erased);
    if (forall|k: int| 0 <= k < done ==> #[trigger] page_ok(old_ne, k, check)) && erased {
        assert forall|k: int| 0 <= k < done + 1 implies #[trigger] page_ok(ne, k, check) by {
            if k < done {
                assert(page_ok(old_ne, k, check));
            }
        }
    }
    if forall|k: int| 0 <= k < done + 1 ==> #[trigger] page_ok(ne, k, check) {
        assert(page_ok(ne, done, check));
        assert forall|k: int| 0 <= k < done implies #[trigger] page_ok(old_ne, k, check) by {
            assert(page_ok(ne, k, check));
        }
    }
}

impl FLASHCALW {
    /// What the driver did on the bus, oldest first.
    pub closed spec fn history(&self) -> Seq<BusEvent> {
        self.history@
    }

    /// The error flags that the last command left.
    pub closed spec fn last_error(&self) -> u32 {
        self.error_status
    }

    /// The speed mode the driver was made with.
    pub closed spec fn speed(&self) -> Speed {
        self.speed_mode
    }

    /// `self` is `before` with events added to the record.
    pub open spec fn extends(self, before: FLASHCALW) -> bool {
        &&& before.history().len() <= self.history().len()
        &&& self.history().subrange(0, before.history().len() as int) == before.history()
        &&& self.speed() == before.speed()
    }

    /// The events added to the record since `before`.
    pub open spec fn new_events(self, before: FLASHCALW) -> Seq<BusEvent> {
        self.history().subrange(before.history().len() as int, self.history().len() as int)
    }

    /// From `before` to `self`, with the bus going from `bus_before` to
    /// `bus`: the record grew by events whose accesses are exactly the
    /// accesses the bus logged, in the same order.
    pub open spec fn did<F: Fn(Access) -> u32>(
        self,
        before: FLASHCALW,
        bus: RegisterBus<F>,
        bus_before: RegisterBus<F>,
    ) -> bool {
        &&& self.extends(before)
        &&& bus.extends(bus_before)
        &&& log_of(bus.new_entries(bus_before), self.new_events(before))
    }

    /// `self` is `before` after issuing exactly `command` on `page_number`,
    /// with the error flags of that command.
    pub open spec fn issued_one(self, before: FLASHCALW, command: FlashCMD, page_number: i32) -> bool {
        &&& self.extends(before)
        &&& self.new_events(before).len() == 1
        &&& is_command(self.new_events(before)[0], command, page_number)
        &&& self.last_error() == event_errors(self.new_events(before)[0])
    }

    /// Records made one after the other add up.
    pub proof fn lemma_extends_trans(a: FLASHCALW, b: FLASHCALW, c: FLASHCALW)
        requires
            b.extends(a),
            c.extends(b),
        ensures
            c.extends(a),
            c.new_events(a) == b.new_events(a) + c.new_events(b),
    {
        assert(c.history().subrange(0, a.history().len() as int) =~= a.history());
        assert(c.new_events(a) =~= b.new_events(a) + c.new_events(b));
    }

    /// Steps made one after the other add up, on the record and on the bus.
    pub proof fn lemma_did_trans<F: Fn(Access) -> u32>(
        a: FLASHCALW,
        b: FLASHCALW,
        c: FLASHCALW,
        ba: RegisterBus<F>,
        bb: RegisterBus<F>,
        bc: RegisterBus<F>,
    )
        requires
            b.did(a, bb, ba),
            c.did(b, bc, bb),
        ensures
            c.did(a, bc, ba),
            c.new_events(a) == b.new_events(a) + c.new_events(b),
    {
        FLASHCALW::lemma_extends_trans(a, b, c);
        RegisterBus::lemma_extends_trans(ba, bb, bc);
        lemma_log_of_concat(bb.new_entries(ba), b.new_events(a), bc.new_entries(bb), c.new_events(b));
    }

    /// Nothing done is a step.
    pub proof fn lemma_did_refl<F: Fn(Access) -> u32>(a: FLASHCALW, ba: RegisterBus<F>)
        requires
            ba.ready(),
        ensures
            a.did(a, ba, ba),
            a.new_events(a) =~= Seq::<BusEvent>::empty(),
    {
        assert(a.history().subrange(0, a.history().len() as int) =~= a.history());
        RegisterBus::lemma_extends_refl(ba);
    }

    /// A controller driver in speed mode `mode`, with no error flags and an empty record.
    pub fn new(mode: Speed) -> (r: FLASHCALW)
        ensures
            r.speed() == mode,
            r.last_error() == 0,
            r.history() == Seq::<BusEvent>::empty(),
    {
        FLASHCALW { speed_mode: mode, error_status: 0, history: Ghost(Seq::empty()) }
    }

    /// The error flags that the last command left.
    #[verifier::when_used_as_spec(last_error)]
    pub fn error_status(&self) -> (r: u32)
        ensures
            r == self.last_error(),
    {
        self.error_status
    }

    /// The speed mode the driver was made with.
    #[verifier::when_used_as_spec(speed)]
    pub fn speed_mode(&self) -> (r: Speed)
        ensures
            r == self.speed(),
    {
        self.speed_mode
    }

    /// Adds `events` to the record: they are the events of the accesses the
    /// bus logged from `bus_before` to `bus`.
    pub(crate) fn record<F: Fn(Access) -> u32>(
        &mut self,
        events: Ghost<Seq<BusEvent>>,
        bus: Ghost<RegisterBus<F>>,
        bus_before: Ghost<RegisterBus<F>>,
    )
        requires
            bus@.extends(bus_before@),
            log_of(bus@.new_entries(bus_before@), events@),
        ensures
            final(self).did(*old(self), bus@, bus_before@),
            final(self).new_events(*old(self)) == events@,
            final(self).last_error() == old(self).last_error(),
    {
        self.history = Ghost(self.history@ + events@);
        proof {
            assert(self.history().subrange(0, old(self).history().len() as int) =~= old(
                self,
            ).history());
            assert(self.new_events(*old(self)) =~= events@);
        }
    }

    /// Sets the error flags the driver keeps, adding nothing to the record.
    pub(crate) fn set_error_status(&mut self, error_status: u32)
        ensures
            final(self).extends(*old(self)),
            final(self).new_events(*old(self)) == Seq::<BusEvent>::empty(),
            final(self).last_error() == error_status,
    {
        self.error_status = error_status;
        proof {
            assert(self.history().subrange(0, old(self).history().len() as int) =~= old(
                self,
            ).history());
            assert(self.new_events(*old(self)) =~= Seq::<BusEvent>::empty());
        }
    }

    /// Reads register `key`, once.
    pub(crate) fn read_register<F: Fn(Access) -> u32>(&self, bus: &mut RegisterBus<F>, key: RegKey) -> (v: u32)
        requires
            old(bus).ready(),
        ensures
            final(bus).read_once(*old(bus), key),
            v == final(bus).first_value(*old(bus)),
            final(bus).log() == old(bus).log().push((Access::Read(key), v)),
    {
        bus.access(Access::Read(key))
    }

    /// Reads the status register; the controller clears it on the read.
    pub fn handle_interrupt<F: Fn(Access) -> u32>(&self, bus: &mut RegisterBus<F>)
        requires
            old(bus).ready(),
        ensures
            final(bus).read_once(*old(bus), RegKey::STATUS),
    {
        let _status: u32 = self.read_register(bus, RegKey::STATUS);
    }

    // -----------------------------------------------------------------------
    // Flash properties

    /// The flash size in KB, looked up from the FSZ field of the parameter register.
    pub fn get_flash_size<F: Fn(Access) -> u32>(&self, bus: &mut RegisterBus<F>) -> (r: u32)
        requires
            old(bus).ready(),
            parameter_readable(*old(bus)),
        ensures
            final(bus).read_once(*old(bus), RegKey::PARAMETER),
            r == flash_size_of(final(bus).first_value(*old(bus))),
    {
        let flash_sizes: [u32; 15] = [
            4,
            8,
            16,
            32,
            48,
            64,
            96,
            128,
            192,
            256,
            384,
            512,
            768,
            1024,
            2048,
        ];
        let p: u32 = self.read_register(bus, RegKey::PARAMETER);
        // The FSZ field, bits 0..3.
        let fsz: usize = (p & 0xf) as usize;
        assert(flash_sizes@ =~= flash_size_table());
        flash_sizes[fsz]
    }

    /// The number of pages: the flash size divided by the page size.
    pub fn get_page_count<F: Fn(Access) -> u32>(&self, bus: &mut RegisterBus<F>) -> (r: u32)
        requires
            old(bus).ready(),
            parameter_readable(*old(bus)),
        ensures
            final(bus).read_once(*old(bus), RegKey::PARAMETER),
            r == page_count_of(final(bus).first_value(*old(bus))),
    {
        self.get_flash_size(bus) / FLASH_PAGE_SIZE
    }

    /// The number of pages per lock region.
    pub fn get_page_count_per_region<F: Fn(Access) -> u32>(&self, bus: &mut RegisterBus<F>) -> (r: u32)
        requires
            old(bus).ready(),
            parameter_readable(*old(bus)),
        ensures
            final(bus).read_once(*old(bus), RegKey::PARAMETER),
            r == page_count_per_region_of(final(bus).first_value(*old(bus))),
    {
        self.get_page_count(bus) / FLASH_NB_OF_REGIONS
    }

    /// The lock region of page `page_number`; a negative page number stands
    /// for the page of the command register. The division by the page count
    /// per region needs that count to be nonzero; for every flash size of the
    /// size table it is 0 (see `law_no_page_per_region`).
    pub fn get_page_region<F: Fn(Access) -> u32>(&self, bus: &mut RegisterBus<F>, page_number: i32) -> (r: u32)
        requires
            old(bus).ready(),
            forall|p: u32|
                #[trigger] old(bus).gives(Access::Read(RegKey::PARAMETER), p) ==> parameter_known(p)
                    && page_count_per_region_of(p) > 0,
        ensures
            final(bus).extends(*old(bus)),
            page_region_entries(final(bus).new_entries(*old(bus)), page_number),
            r == page_region_result(final(bus).new_entries(*old(bus)), page_number),
    {
        let ghost b0 = *bus;
        let page: u32 = if page_number >= 0 {
            page_number as u32
        } else {
            self.get_page_number(bus)
        };
        let ghost b1 = *bus;
        let per_region: u32 = self.get_page_count_per_region(bus);
        proof {
            if page_number < 0 {
                RegisterBus::lemma_extends_trans(b0, b1, *bus);
                assert(bus.new_entries(b0)[0] == b1.new_entries(b0)[0]);
                assert(bus.new_entries(b0)[1] == bus.new_entries(b1)[0]);
            }
        }
        page_region(page, per_region)
    }

    /// The first page of lock region `region`.
    pub fn get_region_first_page_number<F: Fn(Access) -> u32>(
        &self,
        bus: &mut RegisterBus<F>,
        region: u32,
    ) -> (r: u32)
        requires
            old(bus).ready(),
            forall|p: u32|
                #[trigger] old(bus).gives(Access::Read(RegKey::PARAMETER), p) ==> parameter_known(p)
                    && region * page_count_per_region_of(p) <= u32::MAX,
        ensures
            final(bus).read_once(*old(bus), RegKey::PARAMETER),
            r == region * page_count_per_region_of(final(bus).first_value(*old(bus))),
    {
        let per_region: u32 = self.get_page_count_per_region(bus);
        region_first_page(region, per_region)
    }

    /// The size of a flash page, in bytes.
    pub fn get_page_size(&self) -> (r: u32)
        ensures
            r == FLASH_PAGE_SIZE,
    {
        FLASH_PAGE_SIZE
    }

    // -----------------------------------------------------------------------
    // Control register

    /// Sets (`enable`) or clears bit `position` of the control register,
    /// keeping the other bits.
    fn change_control_single_bit_val<F: Fn(Access) -> u32>(
        &self,
        bus: &mut RegisterBus<F>,
        position: u32,
        enable: bool,
    )
        requires
            old(bus).ready(),
            position < 32,
        ensures
            final(bus).extends(*old(bus)),
            control_update(final(bus).new_entries(*old(bus)), position, enable),
    {
        let ghost b0 = *bus;
        let mut reg_val: u32 = self.read_register(bus, RegKey::CONTROL) & !(1u32 << position);
        if enable {
            reg_val |= 1u32 << position;
        }
        let ghost b1 = *bus;
        let _ = bus.access(Access::Write(RegKey::CONTROL, reg_val));
        proof {
            RegisterBus::lemma_extends_trans(b0, b1, *bus);
            assert(bus.new_entries(b0)[0] == b1.new_entries(b0)[0]);
            assert(bus.new_entries(b0)[1] == bus.new_entries(b1)[0]);
        }
    }

    /// Selects one wait state (`wait_state == 1`) or none (any other value).
    pub fn set_wait_state<F: Fn(Access) -> u32>(&self, bus: &mut RegisterBus<F>, wait_state: u32)
        requires
            old(bus).ready(),
        ensures
            final(bus).extends(*old(bus)),
            control_update(final(bus).new_entries(*old(bus)), 6, wait_state == 1),
    {
        if wait_state == 1 {
            self.change_control_single_bit_val(bus, 6, true);
        } else {
            self.change_control_single_bit_val(bus, 6, false);
        }
    }

    /// Enables or disables the ready interrupt: bit 0 of the control register.
    pub fn enable_ready_int<F: Fn(Access) -> u32>(&self, bus: &mut RegisterBus<F>, enable: bool)
        requires
            old(bus).ready(),
        ensures
            final(bus).extends(*old(bus)),
            control_update(final(bus).new_entries(*old(bus)), 0, enable),
    {
        self.change_control_single_bit_val(bus, 0, enable);
    }

    /// Enables or disables the lock error interrupt: bit 2 of the control register.
    pub fn enable_lock_error_int<F: Fn(Access) -> u32>(&self, bus: &mut RegisterBus<F>, enable: bool)
        requires
            old(bus).ready(),
        ensures
            final(bus).extends(*old(bus)),
            control_update(final(bus).new_entries(*old(bus)), 2, enable),
    {
        self.change_control_single_bit_val(bus, 2, enable);
    }

    /// Enables or disables the programming error interrupt: bit 3 of the control register.
    pub fn enable_prog_error_int<F: Fn(Access) -> u32>(&self, bus: &mut RegisterBus<F>, enable: bool)
        requires
            old(bus).ready(),
        ensures
            final(bus).extends(*old(bus)),
            control_update(final(bus).new_entries(*old(bus)), 3, enable),
    {
        self.change_control_single_bit_val(bus, 3, enable);
    }

    /// The wait state the control register selects: 1 when bit 6 is set, else 0.
    pub fn get_wait_state<F: Fn(Access) -> u32>(&self, bus: &mut RegisterBus<F>) -> (r: u32)
        requires
            old(bus).ready(),
        ensures
            final(bus).read_once(*old(bus), RegKey::CONTROL),
            r == wait_state_field(final(bus).first_value(*old(bus))),
    {
        let v: u32 = self.read_register(bus, RegKey::CONTROL);
        // Bit 6 of the control register.
        if v & 0x40 == 0 {
            0
        } else {
            1
        }
    }

    /// Whether the ready interrupt is enabled: bit 0 of the control register.
    pub fn is_ready_int_enabled<F: Fn(Access) -> u32>(&self, bus: &mut RegisterBus<F>) -> (r: bool)
        requires
            old(bus).ready(),
        ensures
            final(bus).read_once(*old(bus), RegKey::CONTROL),
            r == ready_int_flag(final(bus).first_value(*old(bus))),
    {
        let v: u32 = self.read_register(bus, RegKey::CONTROL);
        (v & 0x1) != 0
    }

    /// Whether bit 2 of the command register is set.
    pub fn is_lock_error_int_enabled<F: Fn(Access) -> u32>(&self, bus: &mut RegisterBus<F>) -> (r: bool)
        requires
            old(bus).ready(),
        ensures
            final(bus).read_once(*old(bus), RegKey::COMMAND),
            r == lock_error_int_flag(final(bus).first_value(*old(bus))),
    {
        let v: u32 = self.read_register(bus, RegKey::COMMAND);
        (v & 0x4) != 0
    }

    /// Whether bit 3 of the command register is set.
    pub fn is_prog_error_int_enabled<F: Fn(Access) -> u32>(&self, bus: &mut RegisterBus<F>) -> (r: bool)
        requires
            old(bus).ready(),
        ensures
            final(bus).read_once(*old(bus), RegKey::COMMAND),
            r == prog_error_int_flag(final(bus).first_value(*old(bus))),
    {
        let v: u32 = self.read_register(bus, RegKey::COMMAND);
        (v & 0x8) != 0
    }

    /// Whether the controller is ready: bit 0 of the status register.
    pub fn is_ready<F: Fn(Access) -> u32>(&self, bus: &mut RegisterBus<F>) -> (r: bool)
        requires
            old(bus).ready(),
        ensures
            final(bus).read_once(*old(bus), RegKey::STATUS),
            r == ready_flag(final(bus).first_value(*old(bus))),
    {
        let v: u32 = self.read_register(bus, RegKey::STATUS);
        status_ready(v)
    }

    /// The error flags of the status register: bits 2 and 3.
    pub fn get_error_status<F: Fn(Access) -> u32>(&self, bus: &mut RegisterBus<F>) -> (r: u32)
        requires
            old(bus).ready(),
        ensures
            final(bus).read_once(*old(bus), RegKey::STATUS),
            r == error_bits(final(bus).first_value(*old(bus))),
    {
        let v: u32 = self.read_register(bus, RegKey::STATUS);
        v & 0xC
    }

    /// Whether the status register reports a lock error: bit 2.
    pub fn is_lock_error<F: Fn(Access) -> u32>(&self, bus: &mut RegisterBus<F>) -> (r: bool)
        requires
            old(bus).ready(),
        ensures
            final(bus).read_once(*old(bus), RegKey::STATUS),
            r == lock_error_flag(final(bus).first_value(*old(bus))),
    {
        let v: u32 = self.read_register(bus, RegKey::STATUS);
        v & 0x4 != 0
    }

    /// Whether the status register reports a programming error: bit 3.
    pub fn is_programming_error<F: Fn(Access) -> u32>(&self, bus: &mut RegisterBus<F>) -> (r: bool)
        requires
            old(bus).ready(),
        ensures
            final(bus).read_once(*old(bus), RegKey::STATUS),
            r == programming_error_flag(final(bus).first_value(*old(bus))),
    {
        let v: u32 = self.read_register(bus, RegKey::STATUS);
        v & 0x8 != 0
    }

    /// Whether the security bit is active: bit 4 of the status register.
    pub fn is_security_bit_active<F: Fn(Access) -> u32>(&self, bus: &mut RegisterBus<F>) -> (r: bool)
        requires
            old(bus).ready(),
        ensures
            final(bus).read_once(*old(bus), RegKey::STATUS),
            r == security_flag(final(bus).first_value(*old(bus))),
    {
        let v: u32 = self.read_register(bus, RegKey::STATUS);
        (v & 0x10) != 0
    }

    /// Whether the page last read by a quick page read is erased: bit 5 of the status register.
    pub fn is_page_erased<F: Fn(Access) -> u32>(&self, bus: &mut RegisterBus<F>) -> (r: bool)
        requires
            old(bus).ready(),
        ensures
            final(bus).read_once(*old(bus), RegKey::STATUS),
            r == page_erased_flag(final(bus).first_value(*old(bus))),
    {
        let v: u32 = self.read_register(bus, RegKey::STATUS);
        (v & 0x20) != 0
    }

    /// The code of the current command: bits 0..5 of the command register.
    pub fn get_command<F: Fn(Access) -> u32>(&self, bus: &mut RegisterBus<F>) -> (r: u32)
        requires
            old(bus).ready(),
        ensures
            final(bus).read_once(*old(bus), RegKey::COMMAND),
            r == command_field(final(bus).first_value(*old(bus))),
    {
        let v: u32 = self.read_register(bus, RegKey::COMMAND);
        v & 0x3F
    }

    /// The page number of the current command: bits 8..23 of the command register.
    pub fn get_page_number<F: Fn(Access) -> u32>(&self, bus: &mut RegisterBus<F>) -> (r: u32)
        requires
            old(bus).ready(),
        ensures
            final(bus).read_once(*old(bus), RegKey::COMMAND),
            r == page_field(final(bus).first_value(*old(bus))),
    {
        // Mask of the page field: neither the low byte nor the key byte.
        let mut page_mask: u32 = 0xFF;
        page_mask |= page_mask << 24u32;
        page_mask = !page_mask;
        let c: u32 = self.read_register(bus, RegKey::COMMAND);
        assert(page_mask == 0x00FF_FF00) by (bit_vector)
            requires page_mask == !(0xFFu32 | (0xFFu32 << 24u32));
        (c & page_mask) >> 8u32
    }

    /// Whether lock region `region` is locked: bit `region + 16` of the status register.
    pub fn is_region_locked<F: Fn(Access) -> u32>(&self, bus: &mut RegisterBus<F>, region: u32) -> (r: bool)
        requires
            old(bus).ready(),
            region < 16,
        ensures
            final(bus).read_once(*old(bus), RegKey::STATUS),
            r == region_locked_flag(final(bus).first_value(*old(bus)), region),
    {
        (self.read_register(bus, RegKey::STATUS) & (1u32 << (region + 16))) != 0
    }

    /// Whether the lock region of page `page_number` is locked. The region
    /// is found as `get_page_region` finds it, with the same need for a
    /// nonzero page count per region.
    pub fn is_page_region_locked<F: Fn(Access) -> u32>(&self, bus: &mut RegisterBus<F>, page_number: u32) -> (r: bool)
        requires
            old(bus).ready(),
            forall|p: u32|
                #[trigger] old(bus).gives(Access::Read(RegKey::PARAMETER), p) ==> {
                    &&& parameter_known(p)
                    &&& page_count_per_region_of(p) > 0
                    &&& (page_number as i32) >= 0 ==> page_region_of(page_number as i32, 0, p) < 16
                },
            (page_number as i32) < 0 ==> forall|c: u32, p: u32|
                #[trigger] old(bus).gives(Access::Read(RegKey::PARAMETER), p) && #[trigger] old(
                    bus,
                ).gives(Access::Read(RegKey::COMMAND), c) ==> page_region_of(page_number as i32, c, p)
                    < 16,
        ensures
            final(bus).extends(*old(bus)),
            ({
                let e = final(bus).new_entries(*old(bus));
                let n = e.len() - 1;
                &&& e.len() >= 1
                &&& page_region_entries(e.subrange(0, n), page_number as i32)
                &&& e[n].0 == Access::Read(RegKey::STATUS)
                &&& r == region_locked_flag(
                    e[n].1,
                    page_region_result(e.subrange(0, n), page_number as i32),
                )
            }),
    {
        let ghost b0 = *bus;
        let page: i32 = #[verifier::truncate] (page_number as i32);
        let region: u32 = self.get_page_region(bus, page);
        let ghost b1 = *bus;
        proof {
            let e = b1.new_entries(b0);
            if page >= 0 {
                assert(b0.gives(e[0].0, e[0].1));
            } else {
                assert(b0.gives(e[0].0, e[0].1));
                assert(b0.gives(e[1].0, e[1].1));
            }
        }
        let r = self.is_region_locked(bus, region);
        proof {
            RegisterBus::lemma_extends_trans(b0, b1, *bus);
            let e = bus.new_entries(b0);
            assert(e.subrange(0, e.len() - 1) =~= b1.new_entries(b0));
            assert(e[e.len() - 1] == bus.new_entries(b1)[0]);
        }
        r
    }

    // -----------------------------------------------------------------------
    // Commands

    /// Issues `command` on `page_number` (a negative page number keeps the
    /// page field of the command register): waits until the controller is
    /// ready, writes the command word, keeps the error flags of the status
    /// register read right after, and waits again.
    pub fn issue_command<F: Fn(Access) -> u32>(
        &mut self,
        bus: &mut RegisterBus<F>,
        command: FlashCMD,
        page_number: i32,
    )
        requires
            old(bus).ready(),
        ensures
            final(self).did(*old(self), *final(bus), *old(bus)),
            final(self).issued_one(*old(self), command, page_number),
    {
        let ghost b0 = *bus;
        let w0 = bus.access(Access::WaitUntilReady);
        let ghost b1 = *bus;
        let mut reg_val: u32 = self.read_register(bus, RegKey::COMMAND);
        let ghost b2 = *bus;
        let ghost previous: u32 = reg_val;
        // Clear the command field, bits 0..5.
        let clear_cmd_mask: u32 = !0x3Fu32;
        reg_val &= clear_cmd_mask;
        let code: u32 = command.code();
        if page_number >= 0 {
            reg_val = (FLASHCALW_CMD_KEY << 24u32) | ((page_number as u32) << 8u32) | code;
        } else {
            reg_val |= (FLASHCALW_CMD_KEY << 24u32) | code;
        }
        assert(reg_val == command_word(previous, code, page_number));
        let w1 = bus.access(Access::Write(RegKey::COMMAND, reg_val));
        let ghost b3 = *bus;
        // The lock error (bit 2) and programming error (bit 3) flags.
        let status: u32 = self.read_register(bus, RegKey::STATUS);
        let ghost b4 = *bus;
        self.error_status = status & 0xC;
        let w2 = bus.access(Access::WaitUntilReady);
        let ghost e = BusEvent::Command { command, page_number, previous, status };
        self.history = Ghost(self.history@.push(e));
        proof {
            assert(self.new_events(*old(self)) =~= seq![e]);
            assert(self.history().subrange(0, old(self).history().len() as int) =~= old(
                self,
            ).history());
            let entries = seq![
                (Access::WaitUntilReady, w0),
                (Access::Read(RegKey::COMMAND), previous),
                (Access::Write(RegKey::COMMAND, reg_val), w1),
                (Access::Read(RegKey::STATUS), status),
                (Access::WaitUntilReady, w2),
            ];
            RegisterBus::lemma_extends_trans(b0, b1, b2);
            RegisterBus::lemma_extends_trans(b0, b2, b3);
            RegisterBus::lemma_extends_trans(b0, b3, b4);
            RegisterBus::lemma_extends_trans(b0, b4, *bus);
            assert(bus.new_entries(b0) =~= entries);
            assert(event_entries(e, entries));
            lemma_log_of_one(entries, e);
        }
    }

    /// Issues the no-operation command.
    pub fn flashcalw_no_operation<F: Fn(Access) -> u32>(&mut self, bus: &mut RegisterBus<F>)
        requires
            old(bus).ready(),
        ensures
            final(self).did(*old(self), *final(bus), *old(bus)),
            final(self).issued_one(*old(self), FlashCMD::NOP, -1i32),
    {
        self.issue_command(bus, FlashCMD::NOP, -1);
    }

    /// Erases the whole flash array.
    pub fn erase_all<F: Fn(Access) -> u32>(&mut self, bus: &mut RegisterBus<F>)
        requires
            old(bus).ready(),
        ensures
            final(self).did(*old(self), *final(bus), *old(bus)),
            final(self).issued_one(*old(self), FlashCMD::EA, -1i32),
    {
        self.issue_command(bus, FlashCMD::EA, -1);
    }

    /// Sets the security bit.
    pub fn set_security_bit<F: Fn(Access) -> u32>(&mut self, bus: &mut RegisterBus<F>)
        requires
            old(bus).ready(),
        ensures
            final(self).did(*old(self), *final(bus), *old(bus)),
            final(self).issued_one(*old(self), FlashCMD::SSB, -1i32),
    {
        self.issue_command(bus, FlashCMD::SSB, -1);
    }

    /// Clears the page buffer.
    pub fn clear_page_buffer<F: Fn(Access) -> u32>(&mut self, bus: &mut RegisterBus<F>)
        requires
            old(bus).ready(),
        ensures
            final(self).did(*old(self), *final(bus), *old(bus)),
            final(self).issued_one(*old(self), FlashCMD::CPB, -1i32),
    {
        self.issue_command(bus, FlashCMD::CPB, -1);
    }

    /// Writes the page buffer to page `page_number`.
    pub fn write_page<F: Fn(Access) -> u32>(&mut self, bus: &mut RegisterBus<F>, page_number: i32)
        requires
            old(bus).ready(),
        ensures
            final(self).did(*old(self), *final(bus), *old(bus)),
            final(self).issued_one(*old(self), FlashCMD::WP, page_number),
    {
        self.issue_command(bus, FlashCMD::WP, page_number);
    }

    /// Writes the page buffer to the user page.
    pub fn write_user_page<F: Fn(Access) -> u32>(&mut self, bus: &mut RegisterBus<F>)
        requires
            old(bus).ready(),
        ensures
            final(self).did(*old(self), *final(bus), *old(bus)),
            final(self).issued_one(*old(self), FlashCMD::WUP, -1i32),
    {
        self.issue_command(bus, FlashCMD::WUP, -1);
    }

    /// Locks (`lock`) or unlocks the region of page `page_number`.
    pub fn lock_page_region<F: Fn(Access) -> u32>(&mut self, bus: &mut RegisterBus<F>, page_number: i32, lock: bool)
        requires
            old(bus).ready(),
        ensures
            final(self).did(*old(self), *final(bus), *old(bus)),
            final(self).issued_one(*old(self), lock_command(lock), page_number),
    {
        if lock {
            self.issue_command(bus, FlashCMD::LP, page_number);
        } else {
            self.issue_command(bus, FlashCMD::UP, page_number);
        }
    }

    // -----------------------------------------------------------------------
    // Wait state and read mode

    /// Selects the wait state as `set_wait_state` does, and records the read
    /// and the write of the control register.
    fn select_wait_state<F: Fn(Access) -> u32>(&mut self, bus: &mut RegisterBus<F>, wait_state: u32)
        requires
            old(bus).ready(),
        ensures
            final(self).did(*old(self), *final(bus), *old(bus)),
            final(self).new_events(*old(self)).len() == 2,
            is_read(final(self).new_events(*old(self))[0], RegKey::CONTROL),
            final(self).new_events(*old(self))[1] == (BusEvent::Write {
                key: RegKey::CONTROL,
                value: with_bit(value_of(final(self).new_events(*old(self))[0]), 6, wait_state == 1),
            }),
            final(self).last_error() == old(self).last_error(),
    {
        let ghost b0 = *bus;
        self.set_wait_state(bus, wait_state);
        let ghost entries = bus.new_entries(b0);
        let ghost events = seq![
            BusEvent::Read { key: RegKey::CONTROL, value: entries[0].1 },
            BusEvent::Write { key: RegKey::CONTROL, value: with_bit(entries[0].1, 6, wait_state == 1) },
        ];
        proof {
            assert(entries.subrange(0, 1) =~= seq![entries[0]]);
            assert(entries.subrange(1, 2) =~= seq![entries[1]]);
            lemma_log_of_two(entries, events[0], events[1]);
        }
        self.record::<F>(Ghost(events), Ghost(*bus), Ghost(b0));
    }

    /// Selects the wait state and the read mode for CPU frequency `cpu_freq`,
    /// power scaling `ps_val` and fast wake-up `is_fwu_enabled`: first the
    /// wait state in the control register, then the read mode command.
    pub fn set_flash_waitstate_and_readmode<F: Fn(Access) -> u32>(
        &mut self,
        bus: &mut RegisterBus<F>,
        cpu_freq: u32,
        ps_val: u32,
        is_fwu_enabled: bool,
    )
        requires
            old(bus).ready(),
        ensures
            final(self).did(*old(self), *final(bus), *old(bus)),
            ({
                let ne = final(self).new_events(*old(self));
                &&& ne.len() == 3
                &&& is_read(ne[0], RegKey::CONTROL)
                &&& ne[1] == (BusEvent::Write {
                    key: RegKey::CONTROL,
                    value: with_bit(
                        value_of(ne[0]),
                        6,
                        readmode_wait_state(cpu_freq, ps_val, is_fwu_enabled) == 1,
                    ),
                })
                &&& is_command(ne[2], readmode_command(cpu_freq, ps_val), -1i32)
                &&& final(self).last_error() == event_errors(ne[2])
            }),
    {
        let ghost s0 = *self;
        let ghost b0 = *bus;
        if ps_val == 0 {
            if cpu_freq > FLASH_FREQ_PS0_FWS_0_MAX_FREQ {
                self.select_wait_state(bus, 1);
            } else {
                if is_fwu_enabled && cpu_freq <= FLASH_FREQ_PS1_FWS_1_FWU_MAX_FREQ {
                    self.select_wait_state(bus, 1);
                } else {
                    self.select_wait_state(bus, 0);
                }
            }
        } else {
            // Power scaling 1.
            if cpu_freq > FLASH_FREQ_PS1_FWS_0_MAX_FREQ {
                self.select_wait_state(bus, 1);
            } else {
                self.select_wait_state(bus, 0);
            }
        }
        let ghost s1 = *self;
        let ghost b1 = *bus;
        if ps_val == 0 && cpu_freq > FLASH_FREQ_PS0_FWS_0_MAX_FREQ && cpu_freq > FLASH_FREQ_PS0_FWS_1_MAX_FREQ {
            self.issue_command(bus, FlashCMD::HSEN, -1);
        } else {
            self.issue_command(bus, FlashCMD::HSDIS, -1);
        }
        proof {
            FLASHCALW::lemma_did_trans(s0, s1, *self, b0, b1, *bus);
            let ne = self.new_events(s0);
            assert(ne[0] == s1.new_events(s0)[0]);
            assert(ne[1] == s1.new_events(s0)[1]);
            assert(ne[2] == self.new_events(s1)[0]);
        }
    }

    /// The variant of `set_flash_waitstate_and_readmode` for builds with the
    /// high speed read mode: one wait state above 24 MHz, none below, then
    /// high speed mode always; power scaling and fast wake-up play no part.
    pub fn set_flash_waitstate_and_readmode_high_speed<F: Fn(Access) -> u32>(
        &mut self,
        bus: &mut RegisterBus<F>,
        cpu_freq: u32,
        _ps_val: u32,
        _is_fwu_enabled: bool,
    )
        requires
            old(bus).ready(),
        ensures
            final(self).did(*old(self), *final(bus), *old(bus)),
            ({
                let ne = final(self).new_events(*old(self));
                &&& ne.len() == 3
                &&& is_read(ne[0], RegKey::CONTROL)
                &&& ne[1] == (BusEvent::Write {
                    key: RegKey::CONTROL,
                    value: with_bit(value_of(ne[0]), 6, cpu_freq > FLASH_FREQ_PS2_FWS_0_MAX_FREQ),
                })
                &&& is_command(ne[2], FlashCMD::HSEN, -1i32)
                &&& final(self).last_error() == event_errors(ne[2])
            }),
    {
        let ghost s0 = *self;
        let ghost b0 = *bus;
        if cpu_freq > FLASH_FREQ_PS2_FWS_0_MAX_FREQ {
            self.select_wait_state(bus, 1);
        } else {
            self.select_wait_state(bus, 0);
        }
        let ghost s1 = *self;
        let ghost b1 = *bus;
        self.issue_command(bus, FlashCMD::HSEN, -1);
        proof {
            FLASHCALW::lemma_did_trans(s0, s1, *self, b0, b1, *bus);
            let ne = self.new_events(s0);
            assert(ne[0] == s1.new_events(s0)[0]);
            assert(ne[1] == s1.new_events(s0)[1]);
            assert(ne[2] == self.new_events(s1)[0]);
        }
    }

    // -----------------------------------------------------------------------
    // Lock regions

    /// Locks (`lock`) or unlocks lock region `region`, through its first page.
    pub fn lock_region<F: Fn(Access) -> u32>(&mut self, bus: &mut RegisterBus<F>, region: u32, lock: bool)
        requires
            old(bus).ready(),
            forall|p: u32|
                #[trigger] old(bus).gives(Access::Read(RegKey::PARAMETER), p) ==> parameter_known(p)
                    && region * page_count_per_region_of(p) <= u32::MAX,
        ensures
            final(self).did(*old(self), *final(bus), *old(bus)),
            final(self).new_events(*old(self)).len() == 2,
            is_read(final(self).new_events(*old(self))[0], RegKey::PARAMETER),
            is_command(
                final(self).new_events(*old(self))[1],
                lock_command(lock),
                (region * page_count_per_region_of(value_of(final(self).new_events(*old(self))[0]))) as i32,
            ),
            final(self).last_error() == event_errors(final(self).new_events(*old(self))[1]),
            final(self).last_error() == errors(final(self).new_events(*old(self))),
    {
        let ghost s0 = *self;
        let ghost b0 = *bus;
        let first: u32 = self.get_region_first_page_number(bus, region);
        let ghost e0 = BusEvent::Read { key: RegKey::PARAMETER, value: bus.first_value(b0) };
        proof {
            assert(event_entries(e0, bus.new_entries(b0)));
            lemma_log_of_one(bus.new_entries(b0), e0);
        }
        let ghost evs = seq![e0];
        self.record::<F>(Ghost(evs), Ghost(*bus), Ghost(b0));
        let ghost s1 = *self;
        let ghost b1 = *bus;
        let first_page: i32 = #[verifier::truncate] (first as i32);
        self.lock_page_region(bus, first_page, lock);
        proof {
            FLASHCALW::lemma_did_trans(s0, s1, *self, b0, b1, *bus);
            let ne = self.new_events(s0);
            assert(ne =~= seq![e0, ne[1]]);
            lemma_errors_two(e0, ne[1]);
            lemma_or_laws(event_errors(ne[1]), 0, 0);
        }
    }

    /// Locks (`lock`) or unlocks every lock region, in order; the error flags
    /// left are those of all the commands.
    pub fn lock_all_regions<F: Fn(Access) -> u32>(&mut self, bus: &mut RegisterBus<F>, lock: bool)
        requires
            old(bus).ready(),
            forall|p: u32|
                #[trigger] old(bus).gives(Access::Read(RegKey::PARAMETER), p) ==> parameter_known(p)
                    && (FLASHCALW_REGIONS - 1) * page_count_per_region_of(p) <= u32::MAX,
        ensures
            final(self).did(*old(self), *final(bus), *old(bus)),
            final(self).new_events(*old(self)).len() == 2 * FLASHCALW_REGIONS,
            forall|r: int|
                0 <= r < FLASHCALW_REGIONS ==> #[trigger] region_step(
                    final(self).new_events(*old(self)),
                    r,
                    lock,
                ),
            final(self).last_error() == errors(final(self).new_events(*old(self))),
    {
        let ghost start = *self;
        let ghost bstart = *bus;
        proof {
            FLASHCALW::lemma_did_refl(start, bstart);
        }
        let mut error_status: u32 = 0;
        let mut num_regions: u32 = 0;
        while num_regions < FLASHCALW_REGIONS
            invariant
                bus.ready(),
                forall|p: u32|
                    #[trigger] bus.gives(Access::Read(RegKey::PARAMETER), p) ==> parameter_known(p)
                        && (FLASHCALW_REGIONS - 1) * page_count_per_region_of(p) <= u32::MAX,
                num_regions <= FLASHCALW_REGIONS,
                self.did(start, *bus, bstart),
                self.new_events(start).len() == 2 * num_regions,
                forall|r: int|
                    0 <= r < num_regions ==> #[trigger] region_step(self.new_events(start), r, lock),
                error_status == errors(self.new_events(start)),
            decreases FLASHCALW_REGIONS - num_regions,
        {
            let ghost before = *self;
            let ghost bbefore = *bus;
            assert forall|p: u32| #[trigger]
                bus.gives(Access::Read(RegKey::PARAMETER), p) implies parameter_known(p)
                && num_regions * page_count_per_region_of(p) <= u32::MAX by {
                let n: u32 = page_count_per_region_of(p);
                assert(num_regions * n <= (FLASHCALW_REGIONS - 1) * n) by (nonlinear_arith)
                    requires num_regions <= FLASHCALW_REGIONS - 1;
            }
            self.lock_region(bus, num_regions, lock);
            error_status |= self.error_status;
            proof {
                FLASHCALW::lemma_did_trans(start, before, *self, bstart, bbefore, *bus);
                lemma_errors_concat(before.new_events(start), self.new_events(before));
                let ne = self.new_events(start);
                let old_ne = before.new_events(start);
                let step = self.new_events(before);
                assert forall|r: int| 0 <= r < num_regions + 1 implies #[trigger] region_step(
                    ne,
                    r,
                    lock,
                ) by {
                    if r < num_regions {
                        assert(region_step(old_ne, r, lock));
                        assert(ne[2 * r] == old_ne[2 * r]);
                        assert(ne[2 * r + 1] == old_ne[2 * r + 1]);
                    } else {
                        assert(ne[2 * r] == step[0]);
                        assert(ne[2 * r + 1] == step[1]);
                    }
                }
            }
            num_regions += 1;
        }
        let ghost before_end = *self;
        self.error_status = error_status;
        proof {
            assert(self.history() == before_end.history());
        }
    }

    // -----------------------------------------------------------------------
    // Flash pages

    /// Reads the page-erased flag of the status register, recording the read.
    fn read_erased_flag<F: Fn(Access) -> u32>(&mut self, bus: &mut RegisterBus<F>) -> (r: bool)
        requires
            old(bus).ready(),
        ensures
            final(self).did(*old(self), *final(bus), *old(bus)),
            final(self).new_events(*old(self)).len() == 1,
            is_read(final(self).new_events(*old(self))[0], RegKey::STATUS),
            r == page_erased_flag(value_of(final(self).new_events(*old(self))[0])),
            final(self).last_error() == old(self).last_error(),
    {
        let ghost b0 = *bus;
        let r = self.is_page_erased(bus);
        let ghost e = BusEvent::Read { key: RegKey::STATUS, value: bus.first_value(b0) };
        proof {
            assert(event_entries(e, bus.new_entries(b0)));
            lemma_log_of_one(bus.new_entries(b0), e);
        }
        let ghost evs = seq![e];
        self.record::<F>(Ghost(evs), Ghost(*bus), Ghost(b0));
        r
    }

    /// Issues a quick page read of page `page_number`, then reads the status
    /// register and reports whether the page is erased.
    pub fn quick_page_read<F: Fn(Access) -> u32>(&mut self, bus: &mut RegisterBus<F>, page_number: i32) -> (r: bool)
        requires
            old(bus).ready(),
        ensures
            final(self).did(*old(self), *final(bus), *old(bus)),
            final(self).new_events(*old(self)).len() == 2,
            is_command(final(self).new_events(*old(self))[0], FlashCMD::QPR, page_number),
            is_read(final(self).new_events(*old(self))[1], RegKey::STATUS),
            r == page_erased_flag(value_of(final(self).new_events(*old(self))[1])),
            final(self).last_error() == event_errors(final(self).new_events(*old(self))[0]),
    {
        let ghost s0 = *self;
        let ghost b0 = *bus;
        self.issue_command(bus, FlashCMD::QPR, page_number);
        let ghost s1 = *self;
        let ghost b1 = *bus;
        let r = self.read_erased_flag(bus);
        proof {
            FLASHCALW::lemma_did_trans(s0, s1, *self, b0, b1, *bus);
        }
        r
    }

    /// Erases page `page_number`; with `check`, reads the page back with a
    /// quick page read and reports whether it is erased, else reports `true`.
    /// The error flags left are those of both commands.
    pub fn erase_page<F: Fn(Access) -> u32>(
        &mut self,
        bus: &mut RegisterBus<F>,
        page_number: i32,
        check: bool,
    ) -> (r: bool)
        requires
            old(bus).ready(),
        ensures
            final(self).did(*old(self), *final(bus), *old(bus)),
            erase_page_events(final(self).new_events(*old(self)), page_number, check),
            r == (check ==> page_erased_flag(value_of(final(self).new_events(*old(self))[2]))),
            final(self).last_error() == errors(final(self).new_events(*old(self))),
    {
        let ghost s0 = *self;
        let ghost b0 = *bus;
        let mut page_erased = true;
        self.issue_command(bus, FlashCMD::EP, page_number);
        let ghost s1 = *self;
        let ghost b1 = *bus;
        proof {
            let ne = self.new_events(s0);
            assert(ne =~= seq![ne[0]]);
            lemma_errors_one(ne[0]);
        }
        if check {
            let error_status: u32 = self.error_status;
            page_erased = self.quick_page_read(bus, -1);
            self.error_status |= error_status;
            proof {
                FLASHCALW::lemma_did_trans(s0, s1, *self, b0, b1, *bus);
                let ne = self.new_events(s0);
                assert(ne =~= seq![ne[0], ne[1], ne[2]]);
                lemma_errors_three(ne[0], ne[1], ne[2]);
                lemma_or_laws(event_errors(ne[0]), event_errors(ne[1]), 0);
                lemma_or_laws(event_errors(ne[1]), event_errors(ne[0]), 0);
            }
        }
        page_erased
    }

    /// Erases every page, from the last down to page 0, each with
    /// `erase_page(.., check)`; reports whether every checked page read as
    /// erased. The error flags left are those of all the commands.
    #[verifier::spinoff_prover]
    pub fn erase_all_pages<F: Fn(Access) -> u32>(&mut self, bus: &mut RegisterBus<F>, check: bool) -> (r: bool)
        requires
            old(bus).ready(),
            parameter_readable(*old(bus)),
        ensures
            final(self).did(*old(self), *final(bus), *old(bus)),
            ({
                let ne = final(self).new_events(*old(self));
                let n = page_count_of(value_of(ne[0]));
                &&& ne.len() >= 1
                &&& is_read(ne[0], RegKey::PARAMETER)
                &&& ne.len() == page_start(n as int, check)
                &&& forall|k: int| 0 <= k < n ==> #[trigger] page_step(ne, k, (n - 1 - k) as i32, check)
                &&& r == (forall|k: int| 0 <= k < n ==> #[trigger] page_ok(ne, k, check))
            }),
            final(self).last_error() == errors(final(self).new_events(*old(self))),
    {
        let ghost start = *self;
        let ghost bstart = *bus;
        let mut all_pages_erased = true;
        let mut error_status: u32 = 0;
        let count: u32 = self.get_page_count(bus);
        let ghost p: u32 = bus.first_value(bstart);
        let ghost e0 = BusEvent::Read { key: RegKey::PARAMETER, value: p };
        proof {
            lemma_flash_size_bound(p);
            assert(event_entries(e0, bus.new_entries(bstart)));
            lemma_log_of_one(bus.new_entries(bstart), e0);
            lemma_errors_one(e0);
        }
        let ghost evs = seq![e0];
        self.record::<F>(Ghost(evs), Ghost(*bus), Ghost(bstart));
        let ghost n: int = count as int;
        let mut page_number: i32 = (count as i32) - 1;
        while page_number >= 0
            invariant
                bus.ready(),
                0 <= n <= 4,
                n == page_count_of(p),
                -1 <= page_number < n,
                self.did(start, *bus, bstart),
                self.new_events(start).len() == page_start(n - 1 - page_number, check),
                self.new_events(start)[0] == e0,
                forall|k: int|
                    0 <= k < n - 1 - page_number ==> #[trigger] page_step(
                        self.new_events(start),
                        k,
                        (n - 1 - k) as i32,
                        check,
                    ),
                all_pages_erased == (forall|k: int|
                    0 <= k < n - 1 - page_number ==> #[trigger] page_ok(
                        self.new_events(start),
                        k,
                        check,
                    )),
                error_status == errors(self.new_events(start)),
            decreases page_number + 1,
        {
            let ghost before = *self;
            let ghost bbefore = *bus;
            let ghost done: int = n - 1 - page_number;
            let erased = self.erase_page(bus, page_number, check);
            all_pages_erased = all_pages_erased && erased;
            error_status |= self.error_status;
            proof {
                FLASHCALW::lemma_did_trans(start, before, *self, bstart, bbefore, *bus);
                lemma_errors_concat(before.new_events(start), self.new_events(before));
                lemma_page_steps_grow(
                    self.new_events(start),
                    before.new_events(start),
                    self.new_events(before),
                    done,
                    n,
                    check,
                    erased,
                );
                assert(self.new_events(start)[0] == before.new_events(start)[0]);
            }
            page_number -= 1;
        }
        let ghost before_end = *self;
        self.error_status = error_status;
        proof {
            assert(self.history() == before_end.history());
        }
        all_pages_erased
    }

    /// Issues a quick read of the user page, then reads the status register
    /// and reports whether the user page is erased.
    pub fn quick_user_page_read<F: Fn(Access) -> u32>(&mut self, bus: &mut RegisterBus<F>) -> (r: bool)
        requires
            old(bus).ready(),
        ensures
            final(self).did(*old(self), *final(bus), *old(bus)),
            final(self).new_events(*old(self)).len() == 2,
            is_command(final(self).new_events(*old(self))[0], FlashCMD::QPRUP, -1i32),
            is_read(final(self).new_events(*old(self))[1], RegKey::STATUS),
            r == page_erased_flag(value_of(final(self).new_events(*old(self))[1])),
            final(self).last_error() == event_errors(final(self).new_events(*old(self))[0]),
    {
        let ghost s0 = *self;
        let ghost b0 = *bus;
        self.issue_command(bus, FlashCMD::QPRUP, -1);
        let ghost s1 = *self;
        let ghost b1 = *bus;
        let r = self.read_erased_flag(bus);
        proof {
            FLASHCALW::lemma_did_trans(s0, s1, *self, b0, b1, *bus);
        }
        r
    }

    /// Erases the user page; with `check`, reads it back with a quick user
    /// page read and reports whether it is erased, else reports `true`. The
    /// error flags left are those of the last command.
    pub fn erase_user_page<F: Fn(Access) -> u32>(&mut self, bus: &mut RegisterBus<F>, check: bool) -> (r: bool)
        requires
            old(bus).ready(),
        ensures
            final(self).did(*old(self), *final(bus), *old(bus)),
            ({
                let ne = final(self).new_events(*old(self));
                &&& ne.len() == (if check { 3int } else { 1int })
                &&& is_command(ne[0], FlashCMD::EUP, -1i32)
                &&& check ==> is_command(ne[1], FlashCMD::QPRUP, -1i32) && is_read(ne[2], RegKey::STATUS)
                &&& r == (check ==> page_erased_flag(value_of(ne[2])))
                &&& final(self).last_error() == event_errors(ne[if check { 1int } else { 0int }])
            }),
    {
        let ghost s0 = *self;
        let ghost b0 = *bus;
        self.issue_command(bus, FlashCMD::EUP, -1);
        if check {
            let ghost s1 = *self;
            let ghost b1 = *bus;
            let r = self.quick_user_page_read(bus);
            proof {
                FLASHCALW::lemma_did_trans(s0, s1, *self, b0, b1, *bus);
            }
            r
        } else {
            true
        }
    }
}

} // verus!
