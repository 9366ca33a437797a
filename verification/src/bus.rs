//! The register bus through which the driver reaches the controller, and
//! the record of what the driver did on it.
//!
//! The bus is built over a port: a function from an [`Access`] to the 32-bit
//! word that the access returns. Reads return the register's value; writes
//! and waits return nothing of use. Every access goes through the bus, which
//! logs it, in order, with the word returned.
use vstd::prelude::*;
use crate::bits::command_word;
use crate::command::FlashCMD;

verus! {

/// The registers of the FLASHCALW memory map.
#[derive(Clone, Copy, Debug, PartialEq, Eq, Structural)]
pub enum RegKey {
    CONTROL,
    COMMAND,
    STATUS,
    PARAMETER,
    VERSION,
    GPFRHI,
    GPFRLO,
}

/// One access to the controller.
#[derive(Clone, Copy, Debug, PartialEq, Eq, Structural)]
pub enum Access {
    /// Wait until the controller reports that it is ready.
    WaitUntilReady,
    /// Read a register.
    Read(RegKey),
    /// Write a word to a register.
    Write(RegKey, u32),
}

/// One step of the driver's record of its work on the bus.
pub enum BusEvent {
    /// A command was issued: `previous` is what the command register held
    /// before, `status` what the status register held right after the
    /// command was written.
    Command { command: FlashCMD, page_number: i32, previous: u32, status: u32 },
    /// A register was read and gave `value`.
    Read { key: RegKey, value: u32 },
    /// `value` was written to a register.
    Write { key: RegKey, value: u32 },
}

/// The register bus: the port through which every access reaches the
/// controller, and the ghost log of the accesses made through it, in order,
/// each with the word the port returned.
pub struct RegisterBus<F: Fn(Access) -> u32> {
    port: F,
    log: Ghost<Seq<(Access, u32)>>,
}

impl<F: Fn(Access) -> u32> RegisterBus<F> {
    /// The accesses made through the bus, oldest first, each with the word returned.
    pub closed spec fn log(&self) -> Seq<(Access, u32)> {
        self.log@
    }

    /// The port may return `value` for access `a`.
    pub closed spec fn gives(&self, a: Access, value: u32) -> bool {
        call_ensures(self.port, (a,), value)
    }

    /// The port accepts every access, and every logged access returned a
    /// word that the port may return for it.
    pub closed spec fn ready(&self) -> bool {
        &&& forall|a: Access| call_requires(self.port, (a,))
        &&& forall|i: int|
            0 <= i < self.log@.len() ==> call_ensures(self.port, (#[trigger] self.log@[i].0,), self.log@[i].1)
    }

    /// The two buses have the same port.
    pub closed spec fn same_port(&self, other: RegisterBus<F>) -> bool {
        self.port == other.port
    }

    /// `self` is `before` with accesses added to its log.
    pub open spec fn extends(self, before: RegisterBus<F>) -> bool {
        &&& before.log().len() <= self.log().len()
        &&& self.log().subrange(0, before.log().len() as int) == before.log()
        &&& self.same_port(before)
        &&& forall|a: Access, v: u32| #[trigger] self.gives(a, v) == before.gives(a, v)
        &&& forall|i: int|
            0 <= i < self.new_entries(before).len() ==> before.gives(
                #[trigger] self.new_entries(before)[i].0,
                self.new_entries(before)[i].1,
            )
        &&& self.ready()
    }

    /// The accesses made since `before`, in order.
    pub open spec fn new_entries(self, before: RegisterBus<F>) -> Seq<(Access, u32)> {
        self.log().subrange(before.log().len() as int, self.log().len() as int)
    }

    /// Since `before`, exactly one access was made: a read of `key`.
    pub open spec fn read_once(self, before: RegisterBus<F>, key: RegKey) -> bool {
        &&& self.extends(before)
        &&& self.new_entries(before).len() == 1
        &&& self.new_entries(before)[0].0 == Access::Read(key)
    }

    /// The word the first access since `before` returned.
    pub open spec fn first_value(self, before: RegisterBus<F>) -> u32 {
        self.new_entries(before)[0].1
    }

    /// A bus over `port`, with an empty log.
    pub fn new(port: F) -> (r: RegisterBus<F>)
        requires
            forall|a: Access| call_requires(port, (a,)),
        ensures
            r.ready(),
            r.log() == Seq::<(Access, u32)>::empty(),
            forall|a: Access, v: u32| #[trigger] r.gives(a, v) == call_ensures(port, (a,), v),
    {
        RegisterBus { port, log: Ghost(Seq::empty()) }
    }

    /// Makes access `a` through the port and logs it with the word returned.
    pub fn access(&mut self, a: Access) -> (r: u32)
        requires
            old(self).ready(),
        ensures
            final(self).extends(*old(self)),
            final(self).new_entries(*old(self)) == seq![(a, r)],
            final(self).log() == old(self).log().push((a, r)),
            old(self).gives(a, r),
    {
        let r = (self.port)(a);
        self.log = Ghost(self.log@.push((a, r)));
        proof {
            assert(self.log().subrange(0, old(self).log().len() as int) =~= old(self).log());
            assert(self.new_entries(*old(self)) =~= seq![(a, r)]);
        }
        r
    }

    /// Logs made one after the other add up.
    pub proof fn lemma_extends_trans(a: RegisterBus<F>, b: RegisterBus<F>, c: RegisterBus<F>)
        requires
            b.extends(a),
            c.extends(b),
        ensures
            c.extends(a),
            c.new_entries(a) == b.new_entries(a) + c.new_entries(b),
    {
        assert(c.log().subrange(0, a.log().len() as int) =~= a.log());
        assert(c.new_entries(a) =~= b.new_entries(a) + c.new_entries(b));
        assert forall|i: int| 0 <= i < c.new_entries(a).len() implies a.gives(
            #[trigger] c.new_entries(a)[i].0,
            c.new_entries(a)[i].1,
        ) by {
            if i < b.new_entries(a).len() {
                assert(c.new_entries(a)[i] == b.new_entries(a)[i]);
            } else {
                assert(c.new_entries(a)[i] == c.new_entries(b)[i - b.new_entries(a).len()]);
            }
        }
    }

    /// A log is its own extension, with nothing added.
    pub proof fn lemma_extends_refl(a: RegisterBus<F>)
        requires
            a.ready(),
        ensures
            a.extends(a),
            a.new_entries(a) =~= Seq::<(Access, u32)>::empty(),
    {
        assert(a.log().subrange(0, a.log().len() as int) =~= a.log());
    }
}

/// How many accesses event `e` takes: five for a command, one for a read or a write.
pub open spec fn event_len(e: BusEvent) -> int {
    match e {
        BusEvent::Command { .. } => 5,
        _ => 1,
    }
}

/// `entries` are the accesses of event `e`. A command is: wait until the
/// controller is ready, read the command register (`previous`), write the
/// command word derived from it, read the status register (`status`), wait
/// again. A read is one read of the register giving the value; a write is
/// one write of the value.
pub open spec fn event_entries(e: BusEvent, entries: Seq<(Access, u32)>) -> bool {
    match e {
        BusEvent::Command { command, page_number, previous, status } => {
            &&& entries.len() == 5
            &&& entries[0].0 == Access::WaitUntilReady
            &&& entries[1] == (Access::Read(RegKey::COMMAND), previous)
            &&& entries[2].0 == Access::Write(
                RegKey::COMMAND,
                command_word(previous, command.spec_code(), page_number),
            )
            &&& entries[3] == (Access::Read(RegKey::STATUS), status)
            &&& entries[4].0 == Access::WaitUntilReady
        },
        BusEvent::Read { key, value } => entries.len() == 1 && entries[0] == (Access::Read(key), value),
        BusEvent::Write { key, value } => entries.len() == 1 && entries[0].0 == Access::Write(key, value),
    }
}

/// `entries` are the accesses of `events`, event after event, and nothing else.
pub open spec fn log_of(entries: Seq<(Access, u32)>, events: Seq<BusEvent>) -> bool
    decreases events.len(),
{
    if events.len() == 0 {
        entries.len() == 0
    } else {
        let n = event_len(events.last());
        &&& entries.len() >= n
        &&& log_of(entries.subrange(0, entries.len() - n), events.drop_last())
        &&& event_entries(events.last(), entries.subrange(entries.len() - n, entries.len() as int))
    }
}

/// The accesses of one event are its log.
pub proof fn lemma_log_of_one(entries: Seq<(Access, u32)>, e: BusEvent)
    requires
        event_entries(e, entries),
    ensures
        log_of(entries, seq![e]),
{
    let n = event_len(e);
    assert(entries.len() == n);
    assert(seq![e].drop_last() =~= Seq::<BusEvent>::empty());
    assert(entries.subrange(0, entries.len() - n) =~= Seq::<(Access, u32)>::empty());
    assert(entries.subrange(entries.len() - n, entries.len() as int) =~= entries);
    assert(seq![e].last() == e);
    assert(log_of(entries.subrange(0, entries.len() - n), seq![e].drop_last()));
}

/// Logs of runs of events, one after the other.
pub proof fn lemma_log_of_concat(
    s1: Seq<(Access, u32)>,
    e1: Seq<BusEvent>,
    s2: Seq<(Access, u32)>,
    e2: Seq<BusEvent>,
)
    requires
        log_of(s1, e1),
        log_of(s2, e2),
    ensures
        log_of(s1 + s2, e1 + e2),
    decreases e2.len(),
{
    if e2.len() == 0 {
        assert(s1 + s2 =~= s1);
        assert(e1 + e2 =~= e1);
    } else {
        let n = event_len(e2.last());
        let s2a = s2.subrange(0, s2.len() - n);
        lemma_log_of_concat(s1, e1, s2a, e2.drop_last());
        assert((e1 + e2).drop_last() =~= e1 + e2.drop_last());
        assert((e1 + e2).last() == e2.last());
        let s = s1 + s2;
        assert(s.subrange(0, s.len() - n) =~= s1 + s2a);
        assert(s.subrange(s.len() - n, s.len() as int) =~= s2.subrange(
            s2.len() - n,
            s2.len() as int,
        ));
    }
}

/// Two single-access events, logged one after the other.
pub proof fn lemma_log_of_two(entries: Seq<(Access, u32)>, e1: BusEvent, e2: BusEvent)
    requires
        entries.len() == 2,
        event_entries(e1, entries.subrange(0, 1)),
        event_entries(e2, entries.subrange(1, 2)),
    ensures
        log_of(entries, seq![e1, e2]),
{
    lemma_log_of_one(entries.subrange(0, 1), e1);
    lemma_log_of_one(entries.subrange(1, 2), e2);
    lemma_log_of_concat(entries.subrange(0, 1), seq![e1], entries.subrange(1, 2), seq![e2]);
    assert(entries.subrange(0, 1) + entries.subrange(1, 2) =~= entries);
    assert(seq![e1] + seq![e2] =~= seq![e1, e2]);
}

/// Two reads, logged one after the other, are the log of the two read events.
pub proof fn lemma_log_of_reads(entries: Seq<(Access, u32)>, k1: RegKey, k2: RegKey)
    requires
        entries.len() == 2,
        entries[0].0 == Access::Read(k1),
        entries[1].0 == Access::Read(k2),
    ensures
        log_of(
            entries,
            seq![
                BusEvent::Read { key: k1, value: entries[0].1 },
                BusEvent::Read { key: k2, value: entries[1].1 },
            ],
        ),
{
    let e1 = BusEvent::Read { key: k1, value: entries[0].1 };
    let e2 = BusEvent::Read { key: k2, value: entries[1].1 };
    lemma_log_of_one(entries.subrange(0, 1), e1);
    lemma_log_of_one(entries.subrange(1, 2), e2);
    lemma_log_of_concat(entries.subrange(0, 1), seq![e1], entries.subrange(1, 2), seq![e2]);
    assert(entries.subrange(0, 1) + entries.subrange(1, 2) =~= entries);
    assert(seq![e1] + seq![e2] =~= seq![e1, e2]);
}

/// `e` is the issue of `command` on `page_number`.
pub open spec fn is_command(e: BusEvent, command: FlashCMD, page_number: i32) -> bool {
    e matches BusEvent::Command { command: c, page_number: p, .. } && c == command && p == page_number
}

/// `e` is a read of register `key`.
pub open spec fn is_read(e: BusEvent, key: RegKey) -> bool {
    e matches BusEvent::Read { key: k, .. } && k == key
}

/// The value an event carries: the value read, or the status after a command.
pub open spec fn value_of(e: BusEvent) -> u32 {
    match e {
        BusEvent::Command { status, .. } => status,
        BusEvent::Read { value, .. } => value,
        BusEvent::Write { value, .. } => value,
    }
}

/// The error flags an event reports: those of the status after a command, none for a read.
pub open spec fn event_errors(e: BusEvent) -> u32 {
    match e {
        BusEvent::Command { status, .. } => status & 0xC,
        _ => 0,
    }
}

/// The error flags of all the commands of `events`, or-ed together.
pub open spec fn errors(events: Seq<BusEvent>) -> u32
    decreases events.len(),
{
    if events.len() == 0 {
        0
    } else {
        errors(events.drop_last()) | event_errors(events.last())
    }
}

/// `events` are commands `command`, one for each argument of `args`, in that order.
pub open spec fn commands_are(events: Seq<BusEvent>, command: FlashCMD, args: Seq<i32>) -> bool {
    &&& events.len() == args.len()
    &&& forall|i: int| 0 <= i < events.len() ==> is_command(#[trigger] events[i], command, args[i])
}

/// Facts of bitwise or that the error bookkeeping uses.
pub proof fn lemma_or_laws(x: u32, y: u32, z: u32)
    by (bit_vector)
    ensures
        0u32 | x == x,
        x | 0u32 == x,
        x | y == y | x,
        (x | y) | z == x | (y | z),
        (x | y) | y == x | y,
        (x | y) | z == (x | z) | y,
        ((x | y) | z) | y == (x | y) | z,
{
}

/// The errors of a single event.
pub proof fn lemma_errors_one(a: BusEvent)
    ensures
        errors(seq![a]) == event_errors(a),
{
    assert(seq![a].drop_last() =~= Seq::<BusEvent>::empty());
    assert(errors(Seq::<BusEvent>::empty()) == 0);
    assert(seq![a].last() == a);
    lemma_or_laws(event_errors(a), 0, 0);
}

/// The errors of two events.
pub proof fn lemma_errors_two(a: BusEvent, b: BusEvent)
    ensures
        errors(seq![a, b]) == event_errors(a) | event_errors(b),
{
    assert(seq![a, b].drop_last() =~= seq![a]);
    lemma_errors_one(a);
}

/// The errors of three events.
pub proof fn lemma_errors_three(a: BusEvent, b: BusEvent, c: BusEvent)
    ensures
        errors(seq![a, b, c]) == (event_errors(a) | event_errors(b)) | event_errors(c),
{
    assert(seq![a, b, c].drop_last() =~= seq![a, b]);
    lemma_errors_two(a, b);
}

/// The errors of two runs of events, one after the other.
pub proof fn lemma_errors_concat(a: Seq<BusEvent>, b: Seq<BusEvent>)
    ensures
        errors(a + b) == errors(a) | errors(b),
    decreases b.len(),
{
    if b.len() == 0 {
        assert(a + b =~= a);
        lemma_or_laws(errors(a), 0, 0);
    } else {
        lemma_errors_concat(a, b.drop_last());
        assert((a + b).drop_last() =~= a + b.drop_last());
        lemma_or_laws(errors(a), errors(b.drop_last()), event_errors(b.last()));
    }
}

/// The errors after one more event.
pub proof fn lemma_errors_push(a: Seq<BusEvent>, e: BusEvent)
    ensures
        errors(a.push(e)) == errors(a) | event_errors(e),
{
    assert(a.push(e).drop_last() =~= a);
}

} // verus!
