//! The privilege-transition state machine.
//!
//! Only one routine ever moves the CPU from ring 0 to ring 3: it saves the
//! kernel stack pointer into the single [`SavedKernelContext`] slot and
//! drops into user code, and it does not return along its own code path.
//! Control comes back through the syscall entry, which either resumes user
//! code with the dispatcher's result or — when the dispatcher yields the
//! exit sentinel — consumes the saved context and unwinds to the loader's
//! caller. [`Kernel`] keeps that state explicit: `KernelRunning` before the
//! transition, `UserRunning` while an excursion is outstanding, `Exited`
//! once it has come back for good. The register-level code behind these
//! transitions is the embedder's; every decision it acts on is taken here.
//!
//! The embedder (or a test) stands in for the CPU running user code: it
//! calls [`Kernel::syscall`] with each request the user program issues.
//! [`Kernel::run`] plays the loader's role end to end against such a
//! request script.

use vstd::prelude::*;
use crate::memory::BootInfoFrameAllocator;
use crate::paging::{align_down, PageInfo, PageMapper, user_readable, user_writable};
use crate::process::{
    binary_image_mapped, binary_page_addr, in_binary_range, lemma_in_binary_range_mapped,
    map_user_binary, map_user_stack, num_binary_pages, num_stack_pages, stack_page_addr,
    stack_pages_mapped, ProcessError,
};
use crate::syscall::{
    syscall_dispatch, write_output, write_result, lemma_write_never_returns_exit_sentinel,
    PROCESS_EXIT_SENTINEL, SYSCALL_ERROR, SYS_EXIT, SYS_WRITE,
};
use crate::userspace::{PAGE_SIZE, USER_CODE_START, USER_STACK_TOP};

verus! {

/// Where control currently sits with respect to the one user process.
#[derive(Debug, Clone, Copy, PartialEq, Eq, Structural)]
pub enum ProcessState {
    /// Boot code runs at ring 0; no privilege transition has happened.
    KernelRunning,
    /// A user-mode excursion is outstanding; the saved context slot is full.
    UserRunning,
    /// The user process exited with this code; control is back at the
    /// loader's caller for good.
    Exited {
        /// The code the process handed to `exit`.
        code: u64,
    },
}

/// The one process-wide slot holding the kernel stack pointer captured
/// right before the privilege transition. Written by the transition
/// routine, consumed by the syscall exit path; at most one valid saved
/// context exists at a time.
#[derive(Debug, Clone, Copy, PartialEq, Eq, Structural)]
pub struct SavedKernelContext {
    /// The kernel stack pointer to reload on the exit path.
    pub kernel_rsp: u64,
}

/// How one syscall left the machine: back in user code with a result in the
/// accumulator slot, or unwound to the kernel with the saved context
/// restored.
#[derive(Debug, Clone, Copy, PartialEq, Eq, Structural)]
pub enum SyscallStep {
    /// The handler rewrote the saved accumulator and returned to user code.
    ReturnedToUser(u64),
    /// The exit path ran: the saved kernel context was consumed and control
    /// resumed at the transition routine's call site.
    ExitedToKernel(SavedKernelContext),
}

/// One syscall as user code issues it: the request number and the three
/// argument registers.
#[derive(Debug, Clone, Copy, PartialEq, Eq, Structural)]
pub struct SyscallEvent {
    /// The syscall number.
    pub num: u64,
    /// The first argument register.
    pub arg1: u64,
    /// The second argument register.
    pub arg2: u64,
    /// The third argument register.
    pub arg3: u64,
}

/// Whether the request script ever exits.
pub open spec fn has_exit_event(events: Seq<SyscallEvent>) -> bool {
    exists|k: int| 0 <= k < events.len() && (#[trigger] events[k]).num == SYS_EXIT
}

/// Everything the output sink receives while the script runs up to its
/// first `exit`, under the fixed user address space `m`.
pub open spec fn session_output(m: Map<u64, PageInfo>, events: Seq<SyscallEvent>) -> Seq<u8>
    decreases events.len(),
{
    if events.len() == 0 {
        Seq::empty()
    } else if events[0].num == SYS_EXIT {
        Seq::empty()
    } else if events[0].num == SYS_WRITE {
        write_output(m, events[0].arg1, events[0].arg2) + session_output(m, events.skip(1))
    } else {
        session_output(m, events.skip(1))
    }
}

/// The code carried by the script's first `exit`.
pub open spec fn session_exit_code(events: Seq<SyscallEvent>) -> u64
    decreases events.len(),
{
    if events.len() == 0 {
        0
    } else if events[0].num == SYS_EXIT {
        events[0].arg1
    } else {
        session_exit_code(events.skip(1))
    }
}

/// The kernel's machine state: the one address space and frame allocator,
/// the user-visible output sink, and the privilege-transition state.
pub struct Kernel {
    /// The live page mapper — the single instance for the kernel's lifetime.
    pub mapper: PageMapper,
    /// The boot-time physical frame allocator.
    pub frame_allocator: BootInfoFrameAllocator,
    /// The character sink user `write`s reach.
    pub output: Vec<u8>,
    /// The privilege-transition state.
    pub state: ProcessState,
    /// The saved-context slot.
    pub saved_context: Option<SavedKernelContext>,
}

impl Kernel {
    /// The kernel's invariant: sound memory structures, and the saved
    /// context slot full exactly while a user excursion is outstanding —
    /// single tenancy.
    pub open spec fn wf(&self) -> bool {
        &&& self.mapper.wf()
        &&& self.frame_allocator.wf()
        &&& (self.state is UserRunning <==> self.saved_context is Some)
    }

    /// A kernel fresh out of boot: memory structures handed over, nothing
    /// in user mode yet, nothing written.
    pub fn new(mapper: PageMapper, frame_allocator: BootInfoFrameAllocator) -> (r: Kernel)
        requires
            mapper.wf(),
            frame_allocator.wf(),
        ensures
            r.wf(),
            r.state is KernelRunning,
            r.saved_context is None,
            r.mapper == mapper,
            r.frame_allocator == frame_allocator,
            r.output@ == Seq::<u8>::empty(),
    {
        Kernel {
            mapper,
            frame_allocator,
            output: Vec::new(),
            state: ProcessState::KernelRunning,
            saved_context: None,
        }
    }

    /// The current privilege-transition state, for callers outside proofs.
    pub fn current_state(&self) -> (r: ProcessState)
        ensures
            r == self.state,
    {
        self.state
    }

    /// The transition trampoline: save the kernel stack pointer into the
    /// single context slot and drop to ring 3 at `entry_point` on
    /// `user_stack`. The selectors must carry ring-3 privilege bits, and
    /// the entry point and stack must be mapped for user mode — the
    /// conditions the register-level routine's safety rests on. It never
    /// "returns" along its own path: the machine is left in `UserRunning`
    /// until the exit path of [`Kernel::syscall`] unwinds.
    pub fn switch_to_user_mode(
        &mut self,
        entry_point: u64,
        user_stack: u64,
        user_cs: u64,
        user_ds: u64,
        kernel_rsp: u64,
    )
        requires
            old(self).wf(),
            old(self).state is KernelRunning,
            user_readable(old(self).mapper@, entry_point as int),
            user_stack >= 1,
            user_writable(old(self).mapper@, user_stack - 1),
            user_cs as int % 4 == 3,
            user_ds as int % 4 == 3,
        ensures
            final(self).wf(),
            final(self).state is UserRunning,
            final(self).saved_context == Some(SavedKernelContext { kernel_rsp }),
            final(self).mapper == old(self).mapper,
            final(self).frame_allocator == old(self).frame_allocator,
            final(self).output == old(self).output,
    {
        self.saved_context = Some(SavedKernelContext { kernel_rsp });
        self.state = ProcessState::UserRunning;
    }

    /// The syscall entry: dispatch one request from user code. A `write` or
    /// an unknown number rewrites the saved accumulator with the result and
    /// returns to user code; `exit` records the code, consumes the saved
    /// kernel context and unwinds to the transition routine's call site.
    /// The exit path is selected by the reserved sentinel, which no other
    /// request can produce.
    pub fn syscall(&mut self, num: u64, arg1: u64, arg2: u64, arg3: u64) -> (r: SyscallStep)
        requires
            old(self).wf(),
            old(self).state is UserRunning,
        ensures
            final(self).wf(),
            final(self).mapper == old(self).mapper,
            final(self).frame_allocator == old(self).frame_allocator,
            num == SYS_EXIT ==> {
                &&& final(self).state == (ProcessState::Exited { code: arg1 })
                &&& final(self).saved_context is None
                &&& final(self).output@ == old(self).output@
                &&& (old(self).saved_context matches Some(ctx) ==> r
                    == SyscallStep::ExitedToKernel(ctx))
            },
            num == SYS_WRITE ==> {
                &&& final(self).state == old(self).state
                &&& final(self).saved_context == old(self).saved_context
                &&& r == SyscallStep::ReturnedToUser(write_result(old(self).mapper@, arg1, arg2))
                &&& final(self).output@ == old(self).output@ + write_output(
                    old(self).mapper@,
                    arg1,
                    arg2,
                )
            },
            num != SYS_EXIT && num != SYS_WRITE ==> {
                &&& final(self).state == old(self).state
                &&& final(self).saved_context == old(self).saved_context
                &&& r == SyscallStep::ReturnedToUser(SYSCALL_ERROR)
                &&& final(self).output@ == old(self).output@
            },
    {
        let result = syscall_dispatch(&self.mapper, &mut self.output, num, arg1, arg2, arg3);
        if result == PROCESS_EXIT_SENTINEL {
            proof {
                lemma_write_never_returns_exit_sentinel(self.mapper@, arg1, arg2);
            }
            let ctx = match self.saved_context {
                Some(c) => c,
                // Single tenancy: in `UserRunning` the slot is always full.
                None => vstd::pervasive::unreached(),
            };
            self.saved_context = None;
            self.state = ProcessState::Exited { code: arg1 };
            SyscallStep::ExitedToKernel(ctx)
        } else {
            SyscallStep::ReturnedToUser(result)
        }
    }

    /// Load a user process and run it to completion: map the binary and the
    /// stack window, drop to ring 3, and return once the process exits.
    ///
    /// User code itself runs on the CPU, not here; the request script
    /// `events` stands in for it, so the call "blocks" until the script's
    /// first `exit` — which the script must contain — unwinds the
    /// transition. Success is owed exactly when enough frames remain and no
    /// page of the binary or stack windows is already mapped. On success
    /// the caller regains control exactly once, with the process exited,
    /// the saved context consumed, and the output sink extended by
    /// precisely what the script wrote before exiting; a load failure
    /// reports its cause before any transition, leaving the kernel running
    /// and earlier mappings intact.
    #[verifier::loop_isolation(false)]
    #[verifier::rlimit(100)]
    #[verifier::spinoff_prover]
    pub fn run(
        &mut self,
        binary: &[u8],
        readonly_size: usize,
        user_cs: u64,
        user_ds: u64,
        kernel_rsp: u64,
        events: &[SyscallEvent],
    ) -> (r: Result<(), ProcessError>)
        requires
            old(self).wf(),
            old(self).state is KernelRunning,
            readonly_size as int % (PAGE_SIZE as int) == 0,
            1 <= binary@.len(),
            binary@.len() + PAGE_SIZE <= 0x8000_0000_0000,
            user_cs as int % 4 == 3,
            user_ds as int % 4 == 3,
            has_exit_event(events@),
        ensures
            final(self).wf(),
            r is Ok <==> {
                &&& num_binary_pages(binary@.len() as int) + num_stack_pages()
                    <= old(self).frame_allocator.frames_left()
                &&& forall|i: int|
                    #![trigger binary_page_addr(i)]
                    0 <= i < num_binary_pages(binary@.len() as int)
                        ==> !old(self).mapper@.contains_key(binary_page_addr(i) as u64)
                &&& forall|i: int|
                    #![trigger stack_page_addr(i)]
                    0 <= i < num_stack_pages() ==> !old(self).mapper@.contains_key(
                        stack_page_addr(i) as u64,
                    ) && !in_binary_range(
                        stack_page_addr(i) as u64,
                        num_binary_pages(binary@.len() as int),
                    )
            },
            r is Ok ==> {
                &&& binary_image_mapped(
                    final(self).mapper@,
                    binary@,
                    readonly_size as int / (PAGE_SIZE as int),
                )
                &&& stack_pages_mapped(final(self).mapper@)
                &&& final(self).state == (ProcessState::Exited {
                    code: session_exit_code(events@),
                })
                &&& final(self).saved_context is None
                &&& final(self).output@ == old(self).output@ + session_output(
                    final(self).mapper@,
                    events@,
                )
            },
            r is Err ==> {
                &&& final(self).state is KernelRunning
                &&& final(self).saved_context is None
                &&& final(self).output@ == old(self).output@
                &&& forall|va: u64|
                    #[trigger] old(self).mapper@.contains_key(va)
                        ==> final(self).mapper@.contains_key(va) && final(self).mapper@[va]
                        == old(self).mapper@[va]
            },
    {
        let ghost out0 = self.output@;
        let ghost m0 = self.mapper@;
        let ghost frames0 = self.frame_allocator.frames_left();
        let ghost nb = num_binary_pages(binary@.len() as int);
        let ghost ns = num_stack_pages();
        let ghost ro = readonly_size as int / (PAGE_SIZE as int);

        match map_user_binary(binary, readonly_size, &mut self.mapper, &mut self.frame_allocator) {
            Err(e) => {
                return Err(e);
            },
            Ok(_) => {},
        }
        let ghost m1 = self.mapper@;
        let ghost left1 = self.frame_allocator.frames_left();

        match map_user_stack(&mut self.mapper, &mut self.frame_allocator) {
            Err(e) => {
                proof {
                    if left1 >= ns {
                        assert(exists|i: int|
                            0 <= i < ns && #[trigger] m1.contains_key(stack_page_addr(i) as u64));
                        let i = choose|i: int|
                            0 <= i < ns && #[trigger] m1.contains_key(stack_page_addr(i) as u64);
                        if !in_binary_range(stack_page_addr(i) as u64, nb) {
                            assert(m0.contains_key(stack_page_addr(i) as u64));
                        }
                    } else {
                        assert(nb + ns > frames0);
                    }
                }
                return Err(e);
            },
            Ok(_) => {},
        }
        let ghost msess = self.mapper@;
        proof {
            assert forall|i: int|
                #![trigger stack_page_addr(i)]
                0 <= i < ns implies !m0.contains_key(stack_page_addr(i) as u64)
                && !in_binary_range(stack_page_addr(i) as u64, nb) by {
                assert(!m1.contains_key(stack_page_addr(i) as u64));
                if in_binary_range(stack_page_addr(i) as u64, nb) {
                    lemma_in_binary_range_mapped(m1, binary@, ro, stack_page_addr(i) as u64);
                }
            };
            assert(nb + ns <= frames0);
            assert(binary_page_addr(0) == USER_CODE_START);
            assert(msess.contains_key(USER_CODE_START));
            assert(align_down(USER_CODE_START as int) == USER_CODE_START);
            assert(user_readable(msess, USER_CODE_START as int));
            assert(stack_page_addr(ns - 1) == USER_STACK_TOP - PAGE_SIZE);
            assert(align_down((USER_STACK_TOP - 1) as int) == USER_STACK_TOP - PAGE_SIZE);
            assert(user_writable(msess, USER_STACK_TOP - 1));
        }
        self.switch_to_user_mode(USER_CODE_START, USER_STACK_TOP, user_cs, user_ds, kernel_rsp);

        let mut idx: usize = 0;
        proof {
            assert(events@.skip(0) =~= events@);
        }
        while idx < events.len()
            invariant
                self.wf(),
                self.state is UserRunning,
                self.saved_context == Some(SavedKernelContext { kernel_rsp }),
                self.mapper@ == msess,
                0 <= idx <= events@.len(),
                forall|k: int| 0 <= k < idx ==> (#[trigger] events@[k]).num != SYS_EXIT,
                out0 + session_output(msess, events@) == self.output@ + session_output(
                    msess,
                    events@.skip(idx as int),
                ),
                session_exit_code(events@) == session_exit_code(events@.skip(idx as int)),
                binary_image_mapped(self.mapper@, binary@, ro),
                stack_pages_mapped(self.mapper@),
            decreases events@.len() - idx,
        {
            let e = events[idx];
            proof {
                assert(events@.skip(idx as int)[0] == e);
                assert(events@.skip(idx as int).skip(1) =~= events@.skip(idx as int + 1));
            }
            if e.num == SYS_EXIT {
                let _step = self.syscall(e.num, e.arg1, e.arg2, e.arg3);
                proof {
                    assert(session_output(msess, events@.skip(idx as int)) == Seq::<u8>::empty());
                    assert(self.output@ + Seq::<u8>::empty() =~= self.output@);
                    assert(session_exit_code(events@.skip(idx as int)) == e.arg1);
                }
                return Ok(());
            }
            let ghost out_before = self.output@;
            let _step = self.syscall(e.num, e.arg1, e.arg2, e.arg3);
            proof {
                if e.num == SYS_WRITE {
                    assert(session_output(msess, events@.skip(idx as int)) == write_output(
                        msess,
                        e.arg1,
                        e.arg2,
                    ) + session_output(msess, events@.skip(idx as int + 1)));
                    assert(out_before + (write_output(msess, e.arg1, e.arg2) + session_output(
                        msess,
                        events@.skip(idx as int + 1),
                    )) =~= (out_before + write_output(msess, e.arg1, e.arg2)) + session_output(
                        msess,
                        events@.skip(idx as int + 1),
                    ));
                }
            }
            idx = idx + 1;
        }
        proof {
            let k = choose|k: int|
                0 <= k < events@.len() && (#[trigger] events@[k]).num == SYS_EXIT;
            assert(false);
        }
        Ok(())
    }
}

} // verus!
