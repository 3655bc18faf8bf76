//! The syscall interface and dispatcher.
//!
//! User programs request kernel services through a software interrupt with
//! the request number and three arguments in registers; the dispatcher is
//! pure request/response logic over the user address space and the output
//! sink. Two values are reserved: the exit sentinel, which tells the
//! interrupt exit path to unwind back to the loader instead of returning to
//! user code, and the error value handed back for malformed requests.

use vstd::prelude::*;
use crate::paging::{PageInfo, PageMapper, user_byte_at, user_readable};
use crate::userspace::{USER_CODE_START, USER_STACK_TOP};

verus! {

/// Syscall number of `exit`: terminates the current user process.
pub const SYS_EXIT: u64 = 0;

/// Syscall number of `write`: emits a user buffer on the output sink.
pub const SYS_WRITE: u64 = 1;

/// Dispatcher result that selects the process-exit path. Reserved: no
/// successful or failed `write` ever returns it.
pub const PROCESS_EXIT_SENTINEL: u64 = 0xffff_ffff_ffff_ffff;

/// Error value returned to the user program for malformed or unknown
/// requests.
pub const SYSCALL_ERROR: u64 = 0xffff_ffff_ffff_fffe;

/// A continuation byte of a multi-byte UTF-8 form.
pub open spec fn is_utf8_cont(b: u8) -> bool {
    0x80 <= b <= 0xbf
}

/// Whether `s` is a well-formed UTF-8 byte sequence: the shortest-form
/// encoding rules, with surrogates and code points past 0x10FFFF excluded.
pub open spec fn is_utf8(s: Seq<u8>) -> bool
    decreases s.len(),
{
    if s.len() == 0 {
        true
    } else {
        let b0 = s[0];
        if b0 < 0x80 {
            is_utf8(s.skip(1))
        } else if 0xc2 <= b0 <= 0xdf {
            s.len() >= 2 && is_utf8_cont(s[1]) && is_utf8(s.skip(2))
        } else if b0 == 0xe0 {
            s.len() >= 3 && 0xa0 <= s[1] <= 0xbf && is_utf8_cont(s[2]) && is_utf8(s.skip(3))
        } else if 0xe1 <= b0 <= 0xec {
            s.len() >= 3 && is_utf8_cont(s[1]) && is_utf8_cont(s[2]) && is_utf8(s.skip(3))
        } else if b0 == 0xed {
            s.len() >= 3 && 0x80 <= s[1] <= 0x9f && is_utf8_cont(s[2]) && is_utf8(s.skip(3))
        } else if 0xee <= b0 <= 0xef {
            s.len() >= 3 && is_utf8_cont(s[1]) && is_utf8_cont(s[2]) && is_utf8(s.skip(3))
        } else if b0 == 0xf0 {
            s.len() >= 4 && 0x90 <= s[1] <= 0xbf && is_utf8_cont(s[2]) && is_utf8_cont(s[3])
                && is_utf8(s.skip(4))
        } else if 0xf1 <= b0 <= 0xf3 {
            s.len() >= 4 && is_utf8_cont(s[1]) && is_utf8_cont(s[2]) && is_utf8_cont(s[3])
                && is_utf8(s.skip(4))
        } else if b0 == 0xf4 {
            s.len() >= 4 && 0x80 <= s[1] <= 0x8f && is_utf8_cont(s[2]) && is_utf8_cont(s[3])
                && is_utf8(s.skip(4))
        } else {
            false
        }
    }
}

/// How one byte of a non-UTF-8 buffer is rendered: printable ASCII and
/// newline pass through, everything else becomes a dot.
pub open spec fn printable_or_dot(b: u8) -> u8 {
    if 0x20 <= b <= 0x7e || b == 0x0a {
        b
    } else {
        0x2e
    }
}

/// What the output sink receives for a buffer: the bytes themselves when
/// they decode as UTF-8, otherwise the byte-by-byte printable rendering.
pub open spec fn rendered_output(bytes: Seq<u8>) -> Seq<u8> {
    if is_utf8(bytes) {
        bytes
    } else {
        bytes.map_values(|b: u8| printable_or_dot(b))
    }
}

/// Whether a `write` request's range lies inside the user-accessible
/// window without wrapping.
pub open spec fn write_args_ok(buf_ptr: u64, len: u64) -> bool {
    &&& USER_CODE_START <= buf_ptr
    &&& buf_ptr + len <= USER_STACK_TOP
}

/// Whether every byte of the range has a live user-accessible mapping.
pub open spec fn all_user_readable(m: Map<u64, PageInfo>, buf_ptr: u64, len: u64) -> bool {
    forall|k: int| 0 <= k < len ==> #[trigger] user_readable(m, buf_ptr + k)
}

/// The bytes a `write` request names, as user-mode loads would see them.
pub open spec fn user_bytes(m: Map<u64, PageInfo>, buf_ptr: u64, len: u64) -> Seq<u8> {
    Seq::new(len as nat, |k: int| user_byte_at(m, buf_ptr + k))
}

/// Whether a `write` request succeeds: a window-contained, non-wrapping
/// range, every byte of it readable from user mode.
pub open spec fn write_succeeds(m: Map<u64, PageInfo>, buf_ptr: u64, len: u64) -> bool {
    write_args_ok(buf_ptr, len) && all_user_readable(m, buf_ptr, len)
}

/// The value `write` returns: the byte count processed on success, the
/// error value otherwise.
pub open spec fn write_result(m: Map<u64, PageInfo>, buf_ptr: u64, len: u64) -> u64 {
    if write_succeeds(m, buf_ptr, len) {
        len
    } else {
        SYSCALL_ERROR
    }
}

/// What a `write` request appends to the output sink.
pub open spec fn write_output(m: Map<u64, PageInfo>, buf_ptr: u64, len: u64) -> Seq<u8> {
    if write_succeeds(m, buf_ptr, len) {
        rendered_output(user_bytes(m, buf_ptr, len))
    } else {
        Seq::empty()
    }
}

/// Law: `write` never returns the exit sentinel — a successful `write`
/// returns its length, which the user window bounds far below the sentinel,
/// and the error value is a different reserved constant.
pub proof fn lemma_write_never_returns_exit_sentinel(m: Map<u64, PageInfo>, buf_ptr: u64, len: u64)
    ensures
        write_result(m, buf_ptr, len) != PROCESS_EXIT_SENTINEL,
        SYSCALL_ERROR != PROCESS_EXIT_SENTINEL,
{
}

/// Exact copy of `is_utf8` as runtime code.
fn utf8_valid(v: &Vec<u8>) -> (r: bool)
    ensures
        r == is_utf8(v@),
{
    let n = v.len();
    let mut i: usize = 0;
    proof {
        assert(v@.skip(0) =~= v@);
    }
    while i < n
        invariant
            0 <= i <= n,
            n == v@.len(),
            is_utf8(v@) == is_utf8(v@.skip(i as int)),
        decreases n - i,
    {
        let ghost s = v@.skip(i as int);
        let rem = n - i;
        let b0 = v[i];
        assert(s[0] == b0);
        if b0 < 0x80 {
            proof {
                assert(s.skip(1) =~= v@.skip(i as int + 1));
            }
            i = i + 1;
        } else if 0xc2 <= b0 && b0 <= 0xdf {
            if rem < 2 || !is_cont_byte(v[i + 1]) {
                return false;
            }
            proof {
                assert(s[1] == v@[i as int + 1]);
                assert(s.skip(2) =~= v@.skip(i as int + 2));
            }
            i = i + 2;
        } else if b0 == 0xe0 {
            if rem < 3 || !(0xa0 <= v[i + 1] && v[i + 1] <= 0xbf) || !is_cont_byte(v[i + 2]) {
                return false;
            }
            proof {
                assert(s[1] == v@[i as int + 1] && s[2] == v@[i as int + 2]);
                assert(s.skip(3) =~= v@.skip(i as int + 3));
            }
            i = i + 3;
        } else if 0xe1 <= b0 && b0 <= 0xec {
            if rem < 3 || !is_cont_byte(v[i + 1]) || !is_cont_byte(v[i + 2]) {
                return false;
            }
            proof {
                assert(s[1] == v@[i as int + 1] && s[2] == v@[i as int + 2]);
                assert(s.skip(3) =~= v@.skip(i as int + 3));
            }
            i = i + 3;
        } else if b0 == 0xed {
            if rem < 3 || !(0x80 <= v[i + 1] && v[i + 1] <= 0x9f) || !is_cont_byte(v[i + 2]) {
                return false;
            }
            proof {
                assert(s[1] == v@[i as int + 1] && s[2] == v@[i as int + 2]);
                assert(s.skip(3) =~= v@.skip(i as int + 3));
            }
            i = i + 3;
        } else if 0xee <= b0 && b0 <= 0xef {
            if rem < 3 || !is_cont_byte(v[i + 1]) || !is_cont_byte(v[i + 2]) {
                return false;
            }
            proof {
                assert(s[1] == v@[i as int + 1] && s[2] == v@[i as int + 2]);
                assert(s.skip(3) =~= v@.skip(i as int + 3));
            }
            i = i + 3;
        } else if b0 == 0xf0 {
            if rem < 4 || !(0x90 <= v[i + 1] && v[i + 1] <= 0xbf) || !is_cont_byte(v[i + 2])
                || !is_cont_byte(v[i + 3]) {
                return false;
            }
            proof {
                assert(s[1] == v@[i as int + 1] && s[2] == v@[i as int + 2] && s[3] == v@[i as int
                    + 3]);
                assert(s.skip(4) =~= v@.skip(i as int + 4));
            }
            i = i + 4;
        } else if 0xf1 <= b0 && b0 <= 0xf3 {
            if rem < 4 || !is_cont_byte(v[i + 1]) || !is_cont_byte(v[i + 2]) || !is_cont_byte(
                v[i + 3],
            ) {
                return false;
            }
            proof {
                assert(s[1] == v@[i as int + 1] && s[2] == v@[i as int + 2] && s[3] == v@[i as int
                    + 3]);
                assert(s.skip(4) =~= v@.skip(i as int + 4));
            }
            i = i + 4;
        } else if b0 == 0xf4 {
            if rem < 4 || !(0x80 <= v[i + 1] && v[i + 1] <= 0x8f) || !is_cont_byte(v[i + 2])
                || !is_cont_byte(v[i + 3]) {
                return false;
            }
            proof {
                assert(s[1] == v@[i as int + 1] && s[2] == v@[i as int + 2] && s[3] == v@[i as int
                    + 3]);
                assert(s.skip(4) =~= v@.skip(i as int + 4));
            }
            i = i + 4;
        } else {
            return false;
        }
    }
    proof {
        assert(v@.skip(n as int) =~= Seq::<u8>::empty());
    }
    true
}

/// Whether a byte continues a multi-byte UTF-8 form.
fn is_cont_byte(b: u8) -> (r: bool)
    ensures
        r == is_utf8_cont(b),
{
    0x80 <= b && b <= 0xbf
}

/// `write`: emit the user buffer `[buf_ptr, buf_ptr + len)` on the output
/// sink. The range must lie inside the user window, not wrap, and be
/// readable from user mode; a malformed request changes nothing and earns
/// the error value.
pub fn sys_write(mapper: &PageMapper, output: &mut Vec<u8>, buf_ptr: u64, len: u64) -> (r: u64)
    requires
        mapper.wf(),
    ensures
        r == write_result(mapper@, buf_ptr, len),
        final(output)@ == old(output)@ + write_output(mapper@, buf_ptr, len),
{
    proof {
        assert(old(output)@ + Seq::<u8>::empty() =~= old(output)@);
    }
    if buf_ptr < USER_CODE_START {
        return SYSCALL_ERROR;
    }
    if len > u64::MAX - buf_ptr || buf_ptr + len > USER_STACK_TOP {
        return SYSCALL_ERROR;
    }
    let ghost m = mapper@;
    let mut bytes: Vec<u8> = Vec::new();
    let mut off: u64 = 0;
    while off < len
        invariant
            mapper.wf(),
            m == mapper@,
            write_args_ok(buf_ptr, len),
            0 <= off <= len,
            bytes@.len() == off,
            forall|k: int|
                0 <= k < off ==> #[trigger] user_readable(m, buf_ptr + k) && bytes@[k]
                    == user_byte_at(m, buf_ptr + k),
        decreases len - off,
    {
        match mapper.read_user_byte(buf_ptr + off) {
            None => {
                return SYSCALL_ERROR;
            },
            Some(b) => {
                bytes.push(b);
                proof {
                    assert(user_readable(m, buf_ptr + off));
                    assert(bytes@[off as int] == user_byte_at(m, buf_ptr + off));
                }
            },
        }
        off = off + 1;
    }
    assert forall|k: int| 0 <= k < len implies bytes@[k] == user_bytes(m, buf_ptr, len)[k] by {
        assert(user_readable(m, buf_ptr + k));
    };
    assert(bytes@ =~= user_bytes(m, buf_ptr, len));
    assert(write_succeeds(m, buf_ptr, len));
    let valid = utf8_valid(&bytes);
    let mut j: usize = 0;
    if valid {
        while j < bytes.len()
            invariant
                0 <= j <= bytes@.len(),
                output@ =~= old(output)@ + bytes@.take(j as int),
            decreases bytes@.len() - j,
        {
            output.push(bytes[j]);
            j = j + 1;
        }
        proof {
            assert(bytes@.take(bytes@.len() as int) =~= bytes@);
            assert(rendered_output(bytes@) == bytes@);
        }
    } else {
        while j < bytes.len()
            invariant
                0 <= j <= bytes@.len(),
                output@ =~= old(output)@ + bytes@.take(j as int).map_values(
                    |b: u8| printable_or_dot(b),
                ),
        decreases bytes@.len() - j,
        {
            let b = bytes[j];
            let rendered = if (0x20 <= b && b <= 0x7e) || b == 0x0a {
                b
            } else {
                0x2e
            };
            output.push(rendered);
            proof {
                assert(bytes@.take(j as int + 1).map_values(|x: u8| printable_or_dot(x)) =~= bytes@
                    .take(j as int).map_values(|x: u8| printable_or_dot(x)).push(
                    printable_or_dot(b),
                ));
            }
            j = j + 1;
        }
        proof {
            assert(bytes@.take(bytes@.len() as int) =~= bytes@);
            assert(rendered_output(bytes@) == bytes@.map_values(|b: u8| printable_or_dot(b)));
        }
    }
    len
}

/// Dispatch one syscall by number. `exit` yields the exit sentinel, `write`
/// runs [`sys_write`], and every unknown number earns the error value; only
/// `write` touches the output sink.
pub fn syscall_dispatch(
    mapper: &PageMapper,
    output: &mut Vec<u8>,
    num: u64,
    arg1: u64,
    arg2: u64,
    _arg3: u64,
) -> (r: u64)
    requires
        mapper.wf(),
    ensures
        num == SYS_EXIT ==> r == PROCESS_EXIT_SENTINEL && final(output)@ == old(output)@,
        num == SYS_WRITE ==> r == write_result(mapper@, arg1, arg2) && final(output)@ == old(
            output,
        )@ + write_output(mapper@, arg1, arg2),
        num != SYS_EXIT && num != SYS_WRITE ==> r == SYSCALL_ERROR && final(output)@ == old(
            output,
        )@,
{
    if num == SYS_EXIT {
        PROCESS_EXIT_SENTINEL
    } else if num == SYS_WRITE {
        sys_write(mapper, output, arg1, arg2)
    } else {
        SYSCALL_ERROR
    }
}

} // verus!
