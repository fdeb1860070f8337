//! Host side of a keep: slots and threads, the commands a thread stops
//! with, and the decisions of the control loop that drives it.

use vstd::prelude::*;
use crate::channel::Message;

verus! {

/// Why a keep thread stopped, as the isolation backend reports it.
pub const TRAP_SYSCALL: u64 = 0;
pub const TRAP_CPUID: u64 = 1;
pub const TRAP_CONTINUE: u64 = 2;

/// System-call numbers that end the payload.
pub const SYS_EXIT: u64 = 60;
pub const SYS_EXIT_GROUP: u64 = 231;

/// What a thread asks of the host when it stops.
#[derive(Clone, Copy, Debug, PartialEq, Eq)]
pub enum Command {
    /// A system call to perform against host resources.
    SysCall(Message),
    /// A processor-feature query; the answer goes into the argument words.
    CpuId(Message),
    /// Nothing to do: resume.
    Continue,
    /// The payload is done, with this exit code.
    Exit(i32),
}

#[derive(Clone, Copy, Debug, PartialEq, Eq, Structural)]
pub enum HostError {
    /// The backend reported a stop reason that is not one of the defined
    /// ones: a possible breach of the isolation boundary.
    UnknownTrap(u64),
    /// Every hardware slot of the keep is in use.
    NoFreeSlot,
    /// The thread cannot be resumed in its present state.
    NotResumable,
    /// No system call or feature query of the thread waits for an answer.
    NothingPending,
}

/// The exit code carried by the first argument word (its low 32 bits).
pub open spec fn exit_code(m: Message) -> i32 {
    (m.argv@[0] % 0x1_0000_0000) as u32 as i32
}

pub open spec fn spec_decode(trap: u64, m: Message) -> Result<Command, HostError> {
    if trap == TRAP_SYSCALL {
        if m.num == SYS_EXIT || m.num == SYS_EXIT_GROUP {
            Ok(Command::Exit(exit_code(m)))
        } else {
            Ok(Command::SysCall(m))
        }
    } else if trap == TRAP_CPUID {
        Ok(Command::CpuId(m))
    } else if trap == TRAP_CONTINUE {
        Ok(Command::Continue)
    } else {
        Err(HostError::UnknownTrap(trap))
    }
}

/// Turns a stop reported by the backend into the one command it stands
/// for. An unknown reason is an error, never ignored.
pub fn decode_trap(trap: u64, m: Message) -> (r: Result<Command, HostError>)
    ensures
        r == spec_decode(trap, m),
{
    if trap == TRAP_SYSCALL {
        if m.num == SYS_EXIT || m.num == SYS_EXIT_GROUP {
            let w: u64 = m.argv[0];
            assert((w & 0xFFFF_FFFF) == w % 0x1_0000_0000) by (bit_vector);
            let code: i32 = (w & 0xFFFF_FFFF) as u32 as i32;
            Ok(Command::Exit(code))
        } else {
            Ok(Command::SysCall(m))
        }
    } else if trap == TRAP_CPUID {
        Ok(Command::CpuId(m))
    } else if trap == TRAP_CONTINUE {
        Ok(Command::Continue)
    } else {
        Err(HostError::UnknownTrap(trap))
    }
}

/// Every command that decoding gives is one of the four kinds, and every
/// unknown stop reason is an error.
pub proof fn lemma_decode_total(trap: u64, m: Message)
    ensures
        match spec_decode(trap, m) {
            Ok(c) => c is SysCall || c is CpuId || c is Continue || c is Exit,
            Err(e) => e == HostError::UnknownTrap(trap)
                && trap != TRAP_SYSCALL && trap != TRAP_CPUID && trap != TRAP_CONTINUE,
        },
{
}

/// What the control loop does with a command.
#[derive(Clone, Copy, Debug, PartialEq, Eq, Structural)]
pub enum Action {
    /// Perform the system call and write its result into the channel.
    ServiceSysCall,
    /// Answer the feature query in the argument words.
    ServiceCpuId,
    /// Resume the thread.
    Resume,
    /// Leave the loop; the process exits with this code.
    Finish(i32),
}

pub open spec fn spec_action(c: Command) -> Action {
    match c {
        Command::SysCall(_) => Action::ServiceSysCall,
        Command::CpuId(_) => Action::ServiceCpuId,
        Command::Continue => Action::Resume,
        Command::Exit(code) => Action::Finish(code),
    }
}

pub fn action(c: &Command) -> (a: Action)
    ensures
        a == spec_action(*c),
{
    match c {
        Command::SysCall(_) => Action::ServiceSysCall,
        Command::CpuId(_) => Action::ServiceCpuId,
        Command::Continue => Action::Resume,
        Command::Exit(code) => Action::Finish(*code),
    }
}

#[derive(Clone, Copy, Debug, PartialEq, Eq, Structural)]
pub enum ThreadState {
    Created,
    Running,
    /// Stopped with nothing pending: it may resume.
    Stopped,
    /// Stopped on a system call whose reply is not written yet.
    AwaitingSysCallReply,
    /// Stopped on a feature query whose answer is not written yet.
    AwaitingCpuIdAnswer,
    Terminated,
}

/// The state a running thread moves to when it stops with `r`.
pub open spec fn stopped_state(r: Result<Command, HostError>) -> ThreadState {
    match r {
        Ok(Command::SysCall(_)) => ThreadState::AwaitingSysCallReply,
        Ok(Command::CpuId(_)) => ThreadState::AwaitingCpuIdAnswer,
        Ok(Command::Continue) => ThreadState::Stopped,
        _ => ThreadState::Terminated,
    }
}

/// A thread of a keep, bound to one hardware slot.
pub struct Thread {
    slot: usize,
    state: ThreadState,
    channel: Message,
}

impl Thread {
    pub closed spec fn spec_slot(&self) -> usize {
        self.slot
    }

    pub closed spec fn spec_state(&self) -> ThreadState {
        self.state
    }

    /// The thread's syscall proxy channel.
    pub closed spec fn spec_channel(&self) -> Message {
        self.channel
    }

    pub fn channel(&self) -> (r: Message)
        ensures
            r == self.spec_channel(),
    {
        self.channel
    }

    pub fn slot(&self) -> (r: usize)
        ensures
            r == self.spec_slot(),
    {
        self.slot
    }

    pub fn state(&self) -> (r: ThreadState)
        ensures
            r == self.spec_state(),
    {
        self.state
    }

    /// Writes the reply of the pending system call into the channel.
    pub fn reply_syscall(&mut self, ret: u64) -> (r: Result<(), HostError>)
        ensures
            final(self).spec_slot() == old(self).spec_slot(),
            old(self).spec_state() == ThreadState::AwaitingSysCallReply ==> {
                &&& r is Ok
                &&& final(self).spec_state() == ThreadState::Stopped
                &&& final(self).spec_channel().ret == ret
                &&& final(self).spec_channel().num == old(self).spec_channel().num
                &&& final(self).spec_channel().argv@ == old(self).spec_channel().argv@
            },
            old(self).spec_state() != ThreadState::AwaitingSysCallReply ==> {
                &&& r == Err::<(), HostError>(HostError::NothingPending)
                &&& final(self).spec_state() == old(self).spec_state()
                &&& final(self).spec_channel() == old(self).spec_channel()
            },
    {
        if self.state != ThreadState::AwaitingSysCallReply {
            return Err(HostError::NothingPending);
        }
        self.channel.reply(ret);
        self.state = ThreadState::Stopped;
        Ok(())
    }

    /// Writes the answer of the pending feature query into the first four
    /// argument words.
    pub fn answer_cpuid(&mut self, eax: u64, ebx: u64, ecx: u64, edx: u64) -> (r: Result<(), HostError>)
        ensures
            final(self).spec_slot() == old(self).spec_slot(),
            old(self).spec_state() == ThreadState::AwaitingCpuIdAnswer ==> {
                &&& r is Ok
                &&& final(self).spec_state() == ThreadState::Stopped
                &&& final(self).spec_channel().argv@ == old(self).spec_channel().argv@.update(0, eax)
                    .update(1, ebx).update(2, ecx).update(3, edx)
                &&& final(self).spec_channel().num == old(self).spec_channel().num
            },
            old(self).spec_state() != ThreadState::AwaitingCpuIdAnswer ==> {
                &&& r == Err::<(), HostError>(HostError::NothingPending)
                &&& final(self).spec_state() == old(self).spec_state()
                &&& final(self).spec_channel() == old(self).spec_channel()
            },
    {
        if self.state != ThreadState::AwaitingCpuIdAnswer {
            return Err(HostError::NothingPending);
        }
        self.channel.set_arg(0, eax);
        self.channel.set_arg(1, ebx);
        self.channel.set_arg(2, ecx);
        self.channel.set_arg(3, edx);
        self.state = ThreadState::Stopped;
        Ok(())
    }

    /// Marks the thread running; only a created thread, or a stopped one
    /// with no reply pending, resumes.
    pub fn resume(&mut self) -> (r: Result<(), HostError>)
        ensures
            final(self).spec_slot() == old(self).spec_slot(),
            match old(self).spec_state() {
                ThreadState::Created | ThreadState::Stopped => r is Ok && final(self).spec_state() == ThreadState::Running,
                _ => r == Err::<(), HostError>(HostError::NotResumable) && final(self).spec_state() == old(self).spec_state(),
            },
    {
        match self.state {
            ThreadState::Created | ThreadState::Stopped => {
                self.state = ThreadState::Running;
                Ok(())
            },
            _ => Err(HostError::NotResumable),
        }
    }

    /// Records how a running thread stopped, with the channel contents `m`,
    /// and gives the command it stands for: exactly one per entry. A system
    /// call or feature query stays pending until answered; an exit, or an
    /// unknown reason, ends the thread.
    pub fn stop(&mut self, trap: u64, m: Message) -> (r: Result<Command, HostError>)
        requires
            old(self).spec_state() == ThreadState::Running,
        ensures
            r == spec_decode(trap, m),
            final(self).spec_slot() == old(self).spec_slot(),
            final(self).spec_state() == stopped_state(r),
            final(self).spec_channel() == m,
    {
        let r = decode_trap(trap, m);
        self.state = match r {
            Ok(Command::SysCall(_)) => ThreadState::AwaitingSysCallReply,
            Ok(Command::CpuId(_)) => ThreadState::AwaitingCpuIdAnswer,
            Ok(Command::Continue) => ThreadState::Stopped,
            _ => ThreadState::Terminated,
        };
        self.channel = m;
        r
    }
}

/// One isolated execution environment and its hardware slots.
pub struct Keep {
    slots: usize,
    spawned: usize,
}

impl Keep {
    pub closed spec fn spec_slots(&self) -> usize {
        self.slots
    }

    pub closed spec fn spec_spawned(&self) -> usize {
        self.spawned
    }

    pub open spec fn wf(&self) -> bool {
        self.spec_spawned() <= self.spec_slots()
    }

    pub fn new(slots: usize) -> (k: Keep)
        ensures
            k.wf(),
            k.spec_slots() == slots,
            k.spec_spawned() == 0,
    {
        Keep { slots, spawned: 0 }
    }

    /// Creates a thread on the next free slot.
    pub fn spawn(&mut self) -> (r: Result<Thread, HostError>)
        requires
            old(self).wf(),
        ensures
            final(self).wf(),
            final(self).spec_slots() == old(self).spec_slots(),
            old(self).spec_spawned() < old(self).spec_slots() ==> {
                &&& r is Ok
                &&& r->Ok_0.spec_slot() == old(self).spec_spawned()
                &&& r->Ok_0.spec_state() == ThreadState::Created
                &&& final(self).spec_spawned() == old(self).spec_spawned() + 1
            },
            old(self).spec_spawned() >= old(self).spec_slots() ==> {
                &&& r == Err::<Thread, HostError>(HostError::NoFreeSlot)
                &&& final(self).spec_spawned() == old(self).spec_spawned()
            },
    {
        if self.spawned < self.slots {
            let t = Thread { slot: self.spawned, state: ThreadState::Created, channel: Message::new(0, [0u64; 6]) };
            self.spawned = self.spawned + 1;
            Ok(t)
        } else {
            Err(HostError::NoFreeSlot)
        }
    }
}

} // verus!
