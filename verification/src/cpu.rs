//! The execution engine: owns the register file and the memory, and runs
//! the architecture one instruction at a time.
//!
//! The engine is driven from outside. Each call of [`CPU::step`] executes
//! exactly one instruction; the caller hands in the outcome of one
//! non-blocking keyboard poll and receives the bytes the instruction wants
//! written to the terminal. When a trap needs a blocking keyboard read the
//! engine parks itself in a waiting mode and the caller resumes it with
//! [`CPU::supply_key`]. The full transition relation is stated by the spec
//! function [`step_spec`], and `step` is verified against it.

use vstd::prelude::*;

use vstd::arithmetic::div_mod::lemma_fundamental_div_mod;
use vstd::arithmetic::div_mod::lemma_mod_bound;
use vstd::arithmetic::div_mod::lemma_mod_multiples_vanish;
use vstd::arithmetic::div_mod::lemma_small_mod;

use crate::flag::flag_for;
use crate::memory::KBDR;
use crate::memory::KBSR;
use crate::memory::MEMORY_MAX;
use crate::memory::Memory;
use crate::memory::mem_after_read;
use crate::memory::read_value;
use crate::opcode::Opcode;
use crate::opcode::spec_opcode_from_u16;
use crate::register::Register;
use crate::register::Registers;
use crate::register::cond_idx;
use crate::register::lemma_register_num_matches;
use crate::register::pc_idx;
use crate::register::spec_register_num;
use crate::trap::TrapCode;
use crate::trap::spec_trap_from_u16;
use crate::utils::cond_field_of;
use crate::utils::dr_of;
use crate::utils::imm_flag_of;
use crate::utils::lemma_field_bounds;
use crate::utils::long_flag_of;
use crate::utils::opcode_of;
use crate::utils::sign_extend;
use crate::utils::spec_sign_extend;
use crate::utils::sr1_of;
use crate::utils::sr2_of;
use crate::utils::trapvect_of;
use crate::utils::wadd;

verus! {

/// The engine's control state. It runs until a halt trap, and parks in the
/// waiting mode while a trap's blocking keyboard read is outstanding
/// (`echo` records whether the arriving key must be echoed to the
/// terminal).
#[derive(Debug, PartialEq, Clone, Copy)]
pub enum Mode {
    Running,
    WaitingForKey { echo: bool },
    Halted,
}

/// A fatal condition: execution stops and the error is surfaced to the
/// caller. `MalformedInstruction` carries the offending instruction word;
/// `UnimplementedOpcode` carries the raw opcode (8 or 13) that the
/// architecture leaves undefined.
#[derive(Debug, PartialEq)]
pub enum ExecError {
    MalformedInstruction(u16),
    UnimplementedOpcode(u16),
}

/// What one successful step hands back to the driver: the bytes to write
/// to the terminal, and whether some memory read sampled the keyboard
/// status register (so that a key the driver offered was consumed).
#[derive(Debug)]
pub struct StepOutput {
    pub bytes: Vec<u8>,
    pub key_taken: bool,
}

/// The specification-level result of one step: the register file, memory,
/// output bytes, control mode and error after the instruction.
pub struct StepSpec {
    pub regs: Seq<u16>,
    pub mem: Seq<u16>,
    pub out: Seq<u8>,
    pub mode: Mode,
    pub err: Option<ExecError>,
    pub touched_kbsr: bool,
}

/// The low byte of a word.
pub open spec fn low_byte(w: u16) -> u8 {
    (w % 256) as u8
}

/// The high byte of a word.
pub open spec fn high_byte(w: u16) -> u8 {
    (w / 256) as u8
}

/// The bytes one word of a packed byte string contributes: the low byte,
/// then the high byte unless the high byte is zero.
pub open spec fn word_bytes(w: u16) -> Seq<u8> {
    if high_byte(w) == 0 {
        seq![low_byte(w)]
    } else {
        seq![low_byte(w), high_byte(w)]
    }
}

/// The address the `k`-th word of a string scan starting at `start` lives
/// at; the scan walks consecutive addresses and wraps around the top of
/// the address space.
pub open spec fn scan_addr(start: u16, k: int) -> int {
    (start + k) % 0x10000
}

/// How many increments, wrapping, lead from `start` to `addr`.
pub open spec fn scan_dist(start: u16, addr: u16) -> int {
    (addr - start) % 0x10000
}

/// The position of the first zero word of the scan from `start`, looking
/// from position `k` on; `None` if no zero word exists within one full
/// wrap of the address space.
pub open spec fn str_end_from(m: Seq<u16>, start: u16, k: nat) -> Option<nat>
    decreases 0x10000 - k,
{
    if k >= 0x10000 {
        None
    } else if m[scan_addr(start, k as int)] == 0 {
        Some(k)
    } else {
        str_end_from(m, start, (k + 1) as nat)
    }
}

/// The position of the terminating zero word of the string at `start`, if
/// one exists within one full wrap of the address space.
pub open spec fn str_end(m: Seq<u16>, start: u16) -> Option<nat> {
    str_end_from(m, start, 0)
}

/// The bytes a plain string trap emits: the low byte of each of the first
/// `n` words of the scan.
pub open spec fn puts_bytes(m: Seq<u16>, start: u16, n: nat) -> Seq<u8> {
    Seq::new(n, |j: int| low_byte(m[scan_addr(start, j)]))
}

/// The bytes a packed string trap emits from the first `n` words of the
/// scan: per word the low byte, then the high byte unless it is zero.
pub open spec fn putsp_bytes(m: Seq<u16>, start: u16, n: nat) -> Seq<u8>
    decreases n,
{
    if n == 0 {
        Seq::empty()
    } else {
        putsp_bytes(m, start, (n - 1) as nat) + word_bytes(m[scan_addr(start, n - 1)])
    }
}

/// The memory a string scan reads from: the keyboard-status side effect is
/// already applied, since a scan that reaches the status register observes
/// the refreshed keyboard registers.
pub open spec fn scan_mem(mem1: Seq<u16>, pending: Option<u8>) -> Seq<u16> {
    mem_after_read(mem1, KBSR, pending)
}

/// How many words a string scan prints: everything before the terminating
/// zero word, or the whole address space when no zero word exists.
pub open spec fn scan_count(mem1: Seq<u16>, start: u16, pending: Option<u8>) -> nat {
    match str_end(scan_mem(mem1, pending), start) {
        Some(n) => n,
        None => 0x10000,
    }
}

/// Whether a string scan reaches the keyboard status register: it does
/// exactly when the status register lies at or before the scan's last
/// visited address.
pub open spec fn scan_touched(mem1: Seq<u16>, start: u16, pending: Option<u8>) -> bool {
    scan_dist(start, KBSR) <= scan_count(mem1, start, pending)
}

/// The memory after a string scan: unchanged, unless the scan visited the
/// keyboard status register, which refreshes the keyboard registers.
pub open spec fn scan_result_mem(mem1: Seq<u16>, start: u16, pending: Option<u8>) -> Seq<u16> {
    if scan_touched(mem1, start, pending) {
        scan_mem(mem1, pending)
    } else {
        mem1
    }
}

/// The prompt the echoing input trap writes before it blocks for a key.
pub open spec fn prompt_bytes() -> Seq<u8> {
    seq![
        69u8,
        110u8,
        116u8,
        101u8,
        114u8,
        32u8,
        97u8,
        32u8,
        99u8,
        104u8,
        97u8,
        114u8,
        97u8,
        99u8,
        116u8,
        101u8,
        114u8,
        58u8,
        32u8,
    ]
}

/// The marker the halt trap writes.
pub open spec fn halt_bytes() -> Seq<u8> {
    seq![72u8, 65u8, 76u8, 84u8]
}

/// A destination-register write followed by the flag update every
/// flag-setting instruction performs on its just-written value.
pub open spec fn write_reg_flags(regs: Seq<u16>, dr: u16, v: u16) -> Seq<u16> {
    regs.update(dr as int, v).update(cond_idx(), flag_for(v))
}

/// A step that keeps running: no error, no mode change.
pub open spec fn step_ok(regs: Seq<u16>, mem: Seq<u16>, out: Seq<u8>, touched: bool) -> StepSpec {
    StepSpec { regs, mem, out, mode: Mode::Running, err: None, touched_kbsr: touched }
}

/// A step that stops with a fatal error: no output, mode left running.
pub open spec fn step_fault(regs: Seq<u16>, mem: Seq<u16>, err: ExecError, touched: bool) -> StepSpec {
    StepSpec { regs, mem, out: Seq::empty(), mode: Mode::Running, err: Some(err), touched_kbsr: touched }
}

/// The effect of one decoded instruction, after the fetch: `regs1` already
/// has the incremented program counter, `mem1` carries the fetch's
/// keyboard side effect if the fetch read the status register, and
/// `fetch_touch` records whether it did.
pub open spec fn step_op(
    op: Opcode,
    instr: u16,
    regs1: Seq<u16>,
    mem1: Seq<u16>,
    pending: Option<u8>,
    fetch_touch: bool,
) -> StepSpec {
    let pc1 = regs1[pc_idx()];
    match op {
        Opcode::BR => {
            let regs2 = if cond_field_of(instr) & regs1[cond_idx()] != 0 {
                regs1.update(pc_idx(), wadd(pc1, spec_sign_extend(instr & 0x1FF, 9)))
            } else {
                regs1
            };
            step_ok(regs2, mem1, Seq::empty(), fetch_touch)
        },
        Opcode::ADD => {
            let a = regs1[sr1_of(instr) as int];
            let b = if imm_flag_of(instr) == 1 {
                spec_sign_extend(instr & 0x1F, 5)
            } else {
                regs1[sr2_of(instr) as int]
            };
            step_ok(write_reg_flags(regs1, dr_of(instr), wadd(a, b)), mem1, Seq::empty(), fetch_touch)
        },
        Opcode::LD => {
            let addr = wadd(pc1, spec_sign_extend(instr & 0x1FF, 9));
            let v = read_value(mem1, addr, pending);
            step_ok(
                write_reg_flags(regs1, dr_of(instr), v),
                mem_after_read(mem1, addr, pending),
                Seq::empty(),
                fetch_touch || addr == KBSR,
            )
        },
        Opcode::ST => {
            let addr = wadd(pc1, spec_sign_extend(instr & 0x1FF, 9));
            step_ok(regs1, mem1.update(addr as int, regs1[dr_of(instr) as int]), Seq::empty(), fetch_touch)
        },
        Opcode::JSR => {
            let regs2 = regs1.update(7, pc1);
            let pc2 = if long_flag_of(instr) == 1 {
                wadd(pc1, spec_sign_extend(instr & 0x7FF, 11))
            } else {
                regs2[sr1_of(instr) as int]
            };
            step_ok(regs2.update(pc_idx(), pc2), mem1, Seq::empty(), fetch_touch)
        },
        Opcode::AND => {
            let a = regs1[sr1_of(instr) as int];
            let b = if imm_flag_of(instr) == 1 {
                spec_sign_extend(instr & 0x1F, 5)
            } else {
                regs1[sr2_of(instr) as int]
            };
            step_ok(write_reg_flags(regs1, dr_of(instr), a & b), mem1, Seq::empty(), fetch_touch)
        },
        Opcode::LDR => {
            let addr = wadd(regs1[sr1_of(instr) as int], spec_sign_extend(instr & 0x3F, 6));
            let v = read_value(mem1, addr, pending);
            step_ok(
                write_reg_flags(regs1, dr_of(instr), v),
                mem_after_read(mem1, addr, pending),
                Seq::empty(),
                fetch_touch || addr == KBSR,
            )
        },
        Opcode::STR => {
            let addr = wadd(regs1[sr1_of(instr) as int], spec_sign_extend(instr & 0x3F, 6));
            step_ok(regs1, mem1.update(addr as int, regs1[dr_of(instr) as int]), Seq::empty(), fetch_touch)
        },
        Opcode::RTI => step_fault(regs1, mem1, ExecError::UnimplementedOpcode(8), fetch_touch),
        Opcode::NOT => {
            step_ok(write_reg_flags(regs1, dr_of(instr), !regs1[sr1_of(instr) as int]), mem1, Seq::empty(), fetch_touch)
        },
        Opcode::LDI => {
            let addr1 = wadd(pc1, spec_sign_extend(instr & 0x1FF, 9));
            let mem2 = mem_after_read(mem1, addr1, pending);
            let addr2 = read_value(mem1, addr1, pending);
            let v = read_value(mem2, addr2, pending);
            step_ok(
                write_reg_flags(regs1, dr_of(instr), v),
                mem_after_read(mem2, addr2, pending),
                Seq::empty(),
                fetch_touch || addr1 == KBSR || addr2 == KBSR,
            )
        },
        Opcode::STI => {
            let addr1 = wadd(pc1, spec_sign_extend(instr & 0x1FF, 9));
            let mem2 = mem_after_read(mem1, addr1, pending);
            let target = read_value(mem1, addr1, pending);
            step_ok(
                regs1,
                mem2.update(target as int, regs1[dr_of(instr) as int]),
                Seq::empty(),
                fetch_touch || addr1 == KBSR,
            )
        },
        Opcode::JMP => {
            step_ok(regs1.update(pc_idx(), regs1[sr1_of(instr) as int]), mem1, Seq::empty(), fetch_touch)
        },
        Opcode::RES => step_fault(regs1, mem1, ExecError::UnimplementedOpcode(13), fetch_touch),
        Opcode::LEA => {
            let v = wadd(pc1, spec_sign_extend(instr & 0x1FF, 9));
            step_ok(write_reg_flags(regs1, dr_of(instr), v), mem1, Seq::empty(), fetch_touch)
        },
        Opcode::TRAP => {
            let regs2 = regs1.update(7, pc1);
            match spec_trap_from_u16(trapvect_of(instr)) {
                Err(_) => step_fault(regs2, mem1, ExecError::MalformedInstruction(instr), fetch_touch),
                Ok(TrapCode::GETC) => StepSpec {
                    regs: regs2,
                    mem: mem1,
                    out: Seq::empty(),
                    mode: Mode::WaitingForKey { echo: false },
                    err: None,
                    touched_kbsr: fetch_touch,
                },
                Ok(TrapCode::OUT) => step_ok(regs2, mem1, seq![low_byte(regs2[0])], fetch_touch),
                Ok(TrapCode::PUTS) => {
                    let start = regs2[0];
                    step_ok(
                        regs2,
                        scan_result_mem(mem1, start, pending),
                        puts_bytes(scan_mem(mem1, pending), start, scan_count(mem1, start, pending)),
                        fetch_touch || scan_touched(mem1, start, pending),
                    )
                },
                Ok(TrapCode::IN) => StepSpec {
                    regs: regs2,
                    mem: mem1,
                    out: prompt_bytes(),
                    mode: Mode::WaitingForKey { echo: true },
                    err: None,
                    touched_kbsr: fetch_touch,
                },
                Ok(TrapCode::PUTSP) => {
                    let start = regs2[0];
                    step_ok(
                        regs2,
                        scan_result_mem(mem1, start, pending),
                        putsp_bytes(scan_mem(mem1, pending), start, scan_count(mem1, start, pending)),
                        fetch_touch || scan_touched(mem1, start, pending),
                    )
                },
                Ok(TrapCode::HALT) => StepSpec {
                    regs: regs2,
                    mem: mem1,
                    out: halt_bytes(),
                    mode: Mode::Halted,
                    err: None,
                    touched_kbsr: fetch_touch,
                },
            }
        },
    }
}

/// The effect of one full step from a running state: fetch the instruction
/// at the program counter (a fetch is an ordinary memory read, keyboard
/// side effect included), increment the program counter with wraparound,
/// decode, and execute.
pub open spec fn step_spec(regs: Seq<u16>, mem: Seq<u16>, pending: Option<u8>) -> StepSpec {
    let pc = regs[pc_idx()];
    let instr = read_value(mem, pc, pending);
    let mem1 = mem_after_read(mem, pc, pending);
    let fetch_touch = pc == KBSR;
    let regs1 = regs.update(pc_idx(), wadd(pc, 1));
    match spec_opcode_from_u16(opcode_of(instr)) {
        Ok(op) => step_op(op, instr, regs1, mem1, pending, fetch_touch),
        Err(_) => step_fault(regs1, mem1, ExecError::MalformedInstruction(instr), fetch_touch),
    }
}

proof fn lemma_str_end_from_reaches(m: Seq<u16>, start: u16, k: int, i: nat)
    requires
        i <= k < 0x10000,
        forall|j: int| i <= j < k ==> m[scan_addr(start, j)] != 0,
        m[scan_addr(start, k)] == 0,
    ensures
        str_end_from(m, start, i) == Some(k as nat),
    decreases k - i,
{
    if i < k {
        lemma_str_end_from_reaches(m, start, k, (i + 1) as nat);
    }
}

/// A scan that saw only nonzero words before position `k` and a zero word
/// at `k` has found the string's end: `k` is the first zero position.
proof fn lemma_str_end_found(m: Seq<u16>, start: u16, k: int)
    requires
        0 <= k < 0x10000,
        forall|j: int| 0 <= j < k ==> m[scan_addr(start, j)] != 0,
        m[scan_addr(start, k)] == 0,
    ensures
        str_end(m, start) == Some(k as nat),
{
    lemma_str_end_from_reaches(m, start, k, 0);
}

proof fn lemma_str_end_from_none(m: Seq<u16>, start: u16, i: nat)
    requires
        forall|j: int| i <= j < 0x10000 ==> m[scan_addr(start, j)] != 0,
    ensures
        str_end_from(m, start, i) is None,
    decreases 0x10000 - i,
{
    if i < 0x10000 {
        lemma_str_end_from_none(m, start, (i + 1) as nat);
    }
}

/// A scan that saw no zero word over one full wrap of the address space
/// finds no string end.
proof fn lemma_str_end_none(m: Seq<u16>, start: u16)
    requires
        forall|j: int| 0 <= j < 0x10000 ==> m[scan_addr(start, j)] != 0,
    ensures
        str_end(m, start) is None,
{
    lemma_str_end_from_none(m, start, 0);
}

/// The distance from `start` to `addr` is a valid scan position, and the
/// scan's address at that position is `addr` itself.
proof fn lemma_scan_addr_dist(start: u16, addr: u16)
    ensures
        0 <= scan_dist(start, addr) < 0x10000,
        scan_addr(start, scan_dist(start, addr)) == addr,
{
    lemma_mod_bound(addr - start, 0x10000);
    lemma_fundamental_div_mod(addr - start, 0x10000);
    let q = (addr - start) / 0x10000;
    assert(start + (addr - start) % 0x10000 == 0x10000 * (-q) + addr);
    lemma_mod_multiples_vanish(-q, addr as int, 0x10000);
    lemma_small_mod(addr as nat, 0x10000);
}

/// Within one wrap, scan positions name addresses uniquely: a position
/// whose address is `addr` is the distance from `start` to `addr`.
proof fn lemma_scan_addr_unique(start: u16, k: int, addr: u16)
    requires
        0 <= k < 0x10000,
        scan_addr(start, k) == addr,
    ensures
        k == scan_dist(start, addr),
{
    lemma_fundamental_div_mod(start + k, 0x10000);
    let q = (start + k) / 0x10000;
    assert(start + k == 0x10000 * q + addr);
    assert(addr - start == 0x10000 * (-q) + k);
    lemma_mod_multiples_vanish(-q, k, 0x10000);
    lemma_small_mod(k as nat, 0x10000);
}

/// Each scan position's successor address follows by one wrapping
/// increment.
proof fn lemma_scan_step(start: u16, k: int)
    requires
        0 <= k,
    ensures
        scan_addr(start, k + 1) == (if scan_addr(start, k) == 0xFFFF {
            0int
        } else {
            scan_addr(start, k) + 1
        }),
{
    lemma_mod_bound(start + k, 0x10000);
    lemma_fundamental_div_mod(start + k, 0x10000);
    let q = (start + k) / 0x10000;
    let r = (start + k) % 0x10000;
    if r == 0xFFFF {
        assert(start + k + 1 == 0x10000 * (q + 1) + 0);
        lemma_mod_multiples_vanish(q + 1, 0, 0x10000);
        lemma_small_mod(0, 0x10000);
    } else {
        assert(start + k + 1 == 0x10000 * q + (r + 1));
        lemma_mod_multiples_vanish(q, r + 1, 0x10000);
        lemma_small_mod((r + 1) as nat, 0x10000);
    }
}

/// From any scan start outside the keyboard-register window, the status
/// register is reached strictly before the data register.
proof fn lemma_kbsr_before_kbdr(start: u16)
    requires
        start != 0xFE01,
        start != 0xFE02,
    ensures
        scan_dist(start, KBSR) < scan_dist(start, KBDR),
{
    if start <= 0xFE00 {
        lemma_small_mod((KBSR - start) as nat, 0x10000);
        lemma_small_mod((KBDR - start) as nat, 0x10000);
    } else {
        assert(KBSR - start == 0x10000 * (-1) + (0x10000 + KBSR - start));
        lemma_mod_multiples_vanish(-1, (0x10000 + KBSR - start) as int, 0x10000);
        lemma_small_mod((0x10000 + KBSR - start) as nat, 0x10000);
        assert(KBDR - start == 0x10000 * (-1) + (0x10000 + KBDR - start));
        lemma_mod_multiples_vanish(-1, (0x10000 + KBDR - start) as int, 0x10000);
        lemma_small_mod((0x10000 + KBDR - start) as nat, 0x10000);
    }
}

/// Whether `step_spec` pins the step down exactly. The one exception is a
/// string trap that starts its scan inside the keyboard-register window
/// (at 0xFE01 or 0xFE02) while a key is pending: such a scan reads the
/// keyboard data register before the status register has refreshed it, so
/// its output is not that of a scan over the refreshed memory. For those
/// steps the engine still promises everything but the memory words at the
/// two keyboard registers and the exact output.
pub open spec fn step_exact(regs: Seq<u16>, mem: Seq<u16>, pending: Option<u8>) -> bool {
    let instr = read_value(mem, regs[pc_idx()], pending);
    !(opcode_of(instr) == 15 && (trapvect_of(instr) == 0x22 || trapvect_of(instr) == 0x24)
        && pending is Some && (regs[0] == 0xFE01 || regs[0] == 0xFE02))
}

/// Runs a string trap's scan over memory: reads words from `start` on,
/// handing each one to the caller's byte encoding, until a zero word is
/// found or every address has been examined once. Returns the emitted
/// bytes and whether the scan visited the keyboard status register.
/// `packed` selects the packed two-bytes-per-word encoding.
fn scan_write(mem: &mut Memory, start: u16, pending: Option<u8>, packed: bool) -> (res: (
    Vec<u8>,
    bool,
))
    requires
        old(mem).wf(),
    ensures
        final(mem).wf(),
        forall|i: int|
            0 <= i < MEMORY_MAX && i != KBSR as int && i != KBDR as int
                ==> final(mem)@[i] == old(mem)@[i],
        !(pending is Some && (start == 0xFE01 || start == 0xFE02)) ==> ({
            let m_eff = scan_mem(old(mem)@, pending);
            let n = scan_count(old(mem)@, start, pending);
            &&& res.0@ == (if packed {
                putsp_bytes(m_eff, start, n)
            } else {
                puts_bytes(m_eff, start, n)
            })
            &&& final(mem)@ == scan_result_mem(old(mem)@, start, pending)
            &&& res.1 == scan_touched(old(mem)@, start, pending)
        }),
{
    let ghost mem0 = mem@;
    let ghost m_eff = scan_mem(mem0, pending);
    let ghost exact = !(pending is Some && (start == 0xFE01 || start == 0xFE02));
    let mut out: Vec<u8> = Vec::new();
    let mut touched: bool = false;
    let mut idx: u16 = start;
    let mut k: usize = 0;
    let mut done: bool = false;
    proof {
        lemma_scan_addr_dist(start, KBSR);
        lemma_small_mod(start as nat, 0x10000);
    }
    while k < MEMORY_MAX && !done
        invariant
            mem.wf(),
            k <= MEMORY_MAX,
            mem0.len() == MEMORY_MAX,
            m_eff == scan_mem(mem0, pending),
            exact == !(pending is Some && (start == 0xFE01 || start == 0xFE02)),
            mem@ == (if touched {
                m_eff
            } else {
                mem0
            }),
            touched == (scan_dist(start, KBSR) < k),
            !done ==> idx as int == scan_addr(start, k as int),
            exact && !done ==> (forall|j: int| 0 <= j < k ==> m_eff[scan_addr(start, j)] != 0),
            exact && !done ==> out@ == (if packed {
                putsp_bytes(m_eff, start, k as nat)
            } else {
                puts_bytes(m_eff, start, k as nat)
            }),
            exact && done ==> ({
                &&& k >= 1
                &&& m_eff[scan_addr(start, k - 1)] == 0
                &&& (forall|j: int| 0 <= j < k - 1 ==> m_eff[scan_addr(start, j)] != 0)
                &&& out@ == (if packed {
                    putsp_bytes(m_eff, start, (k - 1) as nat)
                } else {
                    puts_bytes(m_eff, start, (k - 1) as nat)
                })
            }),
        decreases MEMORY_MAX - k,
    {
        let was_touched: bool = touched;
        let v = mem.read(idx, pending);
        if idx == KBSR {
            touched = true;
        }
        proof {
            let kk = k as int;
            lemma_scan_addr_dist(start, KBSR);
            if idx == KBSR {
                lemma_scan_addr_unique(start, kk, KBSR);
                if was_touched {
                    assert(mem_after_read(m_eff, KBSR, pending) =~= m_eff);
                }
            } else {
                if scan_dist(start, KBSR) == kk {
                    assert(false);
                }
                if exact && !was_touched && pending is Some && idx == KBDR {
                    lemma_scan_addr_unique(start, kk, KBDR);
                    lemma_kbsr_before_kbdr(start);
                    assert(false);
                }
            }
            if exact {
                assert(v == m_eff[scan_addr(start, kk)]);
            }
        }
        if v == 0 {
            done = true;
        } else {
            out.push((v % 256) as u8);
            if packed {
                let high = v / 256;
                if high != 0 {
                    out.push(high as u8);
                }
            }
            proof {
                if exact {
                    if packed {
                        assert(out@ =~= putsp_bytes(m_eff, start, (k + 1) as nat));
                    } else {
                        assert(out@ =~= puts_bytes(m_eff, start, (k + 1) as nat));
                    }
                }
            }
            proof {
                lemma_scan_step(start, k as int);
            }
            idx = idx.wrapping_add(1);
        }
        k = k + 1;
    }
    proof {
        if exact {
            if done {
                lemma_str_end_found(m_eff, start, k - 1);
            } else {
                lemma_str_end_none(m_eff, start);
                lemma_scan_addr_dist(start, KBSR);
            }
        }
    }
    (out, touched)
}

/// The prompt the echoing input trap writes, as bytes.
fn prompt_vec() -> (v: Vec<u8>)
    ensures
        v@ == prompt_bytes(),
{
    let mut v: Vec<u8> = Vec::new();
    v.push(69);
    v.push(110);
    v.push(116);
    v.push(101);
    v.push(114);
    v.push(32);
    v.push(97);
    v.push(32);
    v.push(99);
    v.push(104);
    v.push(97);
    v.push(114);
    v.push(97);
    v.push(99);
    v.push(116);
    v.push(101);
    v.push(114);
    v.push(58);
    v.push(32);
    proof {
        assert(v@ =~= prompt_bytes());
    }
    v
}

/// The halt marker, as bytes.
fn halt_vec() -> (v: Vec<u8>)
    ensures
        v@ == halt_bytes(),
{
    let mut v: Vec<u8> = Vec::new();
    v.push(72);
    v.push(65);
    v.push(76);
    v.push(84);
    proof {
        assert(v@ =~= halt_bytes());
    }
    v
}

/// The execution engine: the exclusive owner of one register file and one
/// memory for its whole lifetime.
pub struct CPU {
    pub memory: Memory,
    pub registers: Registers,
    pub mode: Mode,
}

impl CPU {
    /// Both owned stores have their full size.
    pub open spec fn wf(self) -> bool {
        self.memory.wf() && self.registers.wf()
    }

    /// A fresh engine: all registers and all of memory zero, running. The
    /// driver is expected to load a program image, point the program
    /// counter at its start and give the condition register its initial
    /// zero flag before the first step.
    pub fn new() -> (cpu: CPU)
        ensures
            cpu.wf(),
            cpu.mode == Mode::Running,
            forall|i: int| 0 <= i < 10 ==> cpu.registers@[i] == 0u16,
            forall|i: int| 0 <= i < MEMORY_MAX ==> cpu.memory@[i] == 0u16,
    {
        CPU { memory: Memory::new(), registers: Registers::new(), mode: Mode::Running }
    }

    /// Executes exactly one instruction: fetch at the program counter,
    /// increment it with wraparound, decode, execute. `pending` is the
    /// outcome of one non-blocking keyboard poll, consulted whenever a
    /// memory read samples the keyboard status register during this step.
    /// The behaviour is the one `step_spec` states; for the one
    /// pathological scan start `step_exact` excludes, everything but the
    /// output bytes and the two keyboard words is still pinned down.
    #[verifier::rlimit(60)]
    pub fn step(&mut self, pending: Option<u8>) -> (r: Result<StepOutput, ExecError>)
        requires
            old(self).wf(),
            old(self).mode == Mode::Running,
        ensures
            final(self).wf(),
            step_exact(old(self).registers@, old(self).memory@, pending) ==> ({
                let s = step_spec(old(self).registers@, old(self).memory@, pending);
                &&& final(self).registers@ == s.regs
                &&& final(self).memory@ == s.mem
                &&& final(self).mode == s.mode
                &&& (match r {
                    Ok(o) => s.err is None && o.bytes@ == s.out && o.key_taken == s.touched_kbsr,
                    Err(e) => s.err == Some(e),
                })
            }),
            !step_exact(old(self).registers@, old(self).memory@, pending) ==> ({
                let s = step_spec(old(self).registers@, old(self).memory@, pending);
                &&& final(self).registers@ == s.regs
                &&& final(self).mode == s.mode
                &&& r is Ok
                &&& (forall|i: int|
                    0 <= i < MEMORY_MAX && i != KBSR as int && i != KBDR as int
                        ==> final(self).memory@[i] == s.mem[i])
            }),
    {
        let pc = self.registers.read(Register::PC);
        let mut touched: bool = pc == KBSR;
        let instr = self.memory.read(pc, pending);
        self.registers.write(Register::PC, pc.wrapping_add(1));
        proof {
            lemma_field_bounds(instr);
            lemma_register_num_matches(dr_of(instr));
            lemma_register_num_matches(sr1_of(instr));
            lemma_register_num_matches(sr2_of(instr));
        }
        let raw_opcode = instr >> 12;
        let opcode = match Opcode::from_u16(raw_opcode) {
            Ok(op) => op,
            Err(_) => {
                return Err(ExecError::MalformedInstruction(instr));
            },
        };
        match opcode {
            Opcode::BR => {
                let pc_offset = sign_extend(instr & 0x1FF, 9);
                let cond_flag = (instr >> 9) & 0x7;
                if cond_flag & self.registers.read(Register::COND) != 0 {
                    let cur = self.registers.read(Register::PC);
                    self.registers.write(Register::PC, cur.wrapping_add(pc_offset));
                }
                Ok(StepOutput { bytes: Vec::new(), key_taken: touched })
            },
            Opcode::ADD => {
                let imm_flag = (instr >> 5) & 0x1;
                let dr = match Register::from_u16((instr >> 9) & 0x7) {
                    Ok(reg) => reg,
                    Err(_) => {
                        return Err(ExecError::MalformedInstruction(instr));
                    },
                };
                let sr1 = match Register::from_u16((instr >> 6) & 0x7) {
                    Ok(reg) => reg,
                    Err(_) => {
                        return Err(ExecError::MalformedInstruction(instr));
                    },
                };
                let a = self.registers.read(sr1);
                let v = if imm_flag == 1 {
                    a.wrapping_add(sign_extend(instr & 0x1F, 5))
                } else {
                    let sr2 = match Register::from_u16(instr & 0x7) {
                        Ok(reg) => reg,
                        Err(_) => {
                            return Err(ExecError::MalformedInstruction(instr));
                        },
                    };
                    a.wrapping_add(self.registers.read(sr2))
                };
                self.registers.write(dr, v);
                self.registers.update_flags(dr);
                Ok(StepOutput { bytes: Vec::new(), key_taken: touched })
            },
            Opcode::LD => {
                let pc_offset = sign_extend(instr & 0x1FF, 9);
                let dr = match Register::from_u16((instr >> 9) & 0x7) {
                    Ok(reg) => reg,
                    Err(_) => {
                        return Err(ExecError::MalformedInstruction(instr));
                    },
                };
                let cur = self.registers.read(Register::PC);
                let addr = cur.wrapping_add(pc_offset);
                if addr == KBSR {
                    touched = true;
                }
                let v = self.memory.read(addr, pending);
                self.registers.write(dr, v);
                self.registers.update_flags(dr);
                Ok(StepOutput { bytes: Vec::new(), key_taken: touched })
            },
            Opcode::ST => {
                let pc_offset = sign_extend(instr & 0x1FF, 9);
                let sr = match Register::from_u16((instr >> 9) & 0x7) {
                    Ok(reg) => reg,
                    Err(_) => {
                        return Err(ExecError::MalformedInstruction(instr));
                    },
                };
                let cur = self.registers.read(Register::PC);
                let value = self.registers.read(sr);
                self.memory.write(cur.wrapping_add(pc_offset), value);
                Ok(StepOutput { bytes: Vec::new(), key_taken: touched })
            },
            Opcode::JSR => {
                let long_flag = (instr >> 11) & 1;
                let cur = self.registers.read(Register::PC);
                self.registers.write(Register::R7, cur);
                if long_flag == 1 {
                    let long_pc_offset = sign_extend(instr & 0x7FF, 11);
                    self.registers.write(Register::PC, cur.wrapping_add(long_pc_offset));
                } else {
                    let base_r = match Register::from_u16((instr >> 6) & 0x7) {
                        Ok(reg) => reg,
                        Err(_) => {
                            return Err(ExecError::MalformedInstruction(instr));
                        },
                    };
                    let target = self.registers.read(base_r);
                    self.registers.write(Register::PC, target);
                }
                Ok(StepOutput { bytes: Vec::new(), key_taken: touched })
            },
            Opcode::AND => {
                let imm_flag = (instr >> 5) & 0x1;
                let dr = match Register::from_u16((instr >> 9) & 0x7) {
                    Ok(reg) => reg,
                    Err(_) => {
                        return Err(ExecError::MalformedInstruction(instr));
                    },
                };
                let sr1 = match Register::from_u16((instr >> 6) & 0x7) {
                    Ok(reg) => reg,
                    Err(_) => {
                        return Err(ExecError::MalformedInstruction(instr));
                    },
                };
                let a = self.registers.read(sr1);
                let v = if imm_flag == 1 {
                    a & sign_extend(instr & 0x1F, 5)
                } else {
                    let sr2 = match Register::from_u16(instr & 0x7) {
                        Ok(reg) => reg,
                        Err(_) => {
                            return Err(ExecError::MalformedInstruction(instr));
                        },
                    };
                    a & self.registers.read(sr2)
                };
                self.registers.write(dr, v);
                self.registers.update_flags(dr);
                Ok(StepOutput { bytes: Vec::new(), key_taken: touched })
            },
            Opcode::LDR => {
                let offset = sign_extend(instr & 0x3F, 6);
                let dr = match Register::from_u16((instr >> 9) & 0x7) {
                    Ok(reg) => reg,
                    Err(_) => {
                        return Err(ExecError::MalformedInstruction(instr));
                    },
                };
                let base_r = match Register::from_u16((instr >> 6) & 0x7) {
                    Ok(reg) => reg,
                    Err(_) => {
                        return Err(ExecError::MalformedInstruction(instr));
                    },
                };
                let base = self.registers.read(base_r);
                let addr = base.wrapping_add(offset);
                if addr == KBSR {
                    touched = true;
                }
                let v = self.memory.read(addr, pending);
                self.registers.write(dr, v);
                self.registers.update_flags(dr);
                Ok(StepOutput { bytes: Vec::new(), key_taken: touched })
            },
            Opcode::STR => {
                let offset = sign_extend(instr & 0x3F, 6);
                let sr = match Register::from_u16((instr >> 9) & 0x7) {
                    Ok(reg) => reg,
                    Err(_) => {
                        return Err(ExecError::MalformedInstruction(instr));
                    },
                };
                let base_r = match Register::from_u16((instr >> 6) & 0x7) {
                    Ok(reg) => reg,
                    Err(_) => {
                        return Err(ExecError::MalformedInstruction(instr));
                    },
                };
                let base = self.registers.read(base_r);
                let value = self.registers.read(sr);
                self.memory.write(base.wrapping_add(offset), value);
                Ok(StepOutput { bytes: Vec::new(), key_taken: touched })
            },
            Opcode::RTI => Err(ExecError::UnimplementedOpcode(raw_opcode)),
            Opcode::NOT => {
                let dr = match Register::from_u16((instr >> 9) & 0x7) {
                    Ok(reg) => reg,
                    Err(_) => {
                        return Err(ExecError::MalformedInstruction(instr));
                    },
                };
                let sr = match Register::from_u16((instr >> 6) & 0x7) {
                    Ok(reg) => reg,
                    Err(_) => {
                        return Err(ExecError::MalformedInstruction(instr));
                    },
                };
                let v = !self.registers.read(sr);
                self.registers.write(dr, v);
                self.registers.update_flags(dr);
                Ok(StepOutput { bytes: Vec::new(), key_taken: touched })
            },
            Opcode::LDI => {
                let pc_offset = sign_extend(instr & 0x1FF, 9);
                let dr = match Register::from_u16((instr >> 9) & 0x7) {
                    Ok(reg) => reg,
                    Err(_) => {
                        return Err(ExecError::MalformedInstruction(instr));
                    },
                };
                let cur = self.registers.read(Register::PC);
                let addr = cur.wrapping_add(pc_offset);
                if addr == KBSR {
                    touched = true;
                }
                let target = self.memory.read(addr, pending);
                if target == KBSR {
                    touched = true;
                }
                let v = self.memory.read(target, pending);
                self.registers.write(dr, v);
                self.registers.update_flags(dr);
                Ok(StepOutput { bytes: Vec::new(), key_taken: touched })
            },
            Opcode::STI => {
                let pc_offset = sign_extend(instr & 0x1FF, 9);
                let sr = match Register::from_u16((instr >> 9) & 0x7) {
                    Ok(reg) => reg,
                    Err(_) => {
                        return Err(ExecError::MalformedInstruction(instr));
                    },
                };
                let cur = self.registers.read(Register::PC);
                let addr = cur.wrapping_add(pc_offset);
                if addr == KBSR {
                    touched = true;
                }
                let target = self.memory.read(addr, pending);
                let value = self.registers.read(sr);
                self.memory.write(target, value);
                Ok(StepOutput { bytes: Vec::new(), key_taken: touched })
            },
            Opcode::JMP => {
                let base_r = match Register::from_u16((instr >> 6) & 0x7) {
                    Ok(reg) => reg,
                    Err(_) => {
                        return Err(ExecError::MalformedInstruction(instr));
                    },
                };
                let target = self.registers.read(base_r);
                self.registers.write(Register::PC, target);
                Ok(StepOutput { bytes: Vec::new(), key_taken: touched })
            },
            Opcode::RES => Err(ExecError::UnimplementedOpcode(raw_opcode)),
            Opcode::LEA => {
                let pc_offset = sign_extend(instr & 0x1FF, 9);
                let dr = match Register::from_u16((instr >> 9) & 0x7) {
                    Ok(reg) => reg,
                    Err(_) => {
                        return Err(ExecError::MalformedInstruction(instr));
                    },
                };
                let cur = self.registers.read(Register::PC);
                self.registers.write(dr, cur.wrapping_add(pc_offset));
                self.registers.update_flags(dr);
                Ok(StepOutput { bytes: Vec::new(), key_taken: touched })
            },
            Opcode::TRAP => {
                let cur = self.registers.read(Register::PC);
                self.registers.write(Register::R7, cur);
                let raw_trap_code = instr & 0xFF;
                let trap_code = match TrapCode::from_u16(raw_trap_code) {
                    Ok(tc) => tc,
                    Err(_) => {
                        return Err(ExecError::MalformedInstruction(instr));
                    },
                };
                match trap_code {
                    TrapCode::GETC => {
                        self.mode = Mode::WaitingForKey { echo: false };
                        Ok(StepOutput { bytes: Vec::new(), key_taken: touched })
                    },
                    TrapCode::OUT => {
                        let v = self.registers.read(Register::R0);
                        let mut bytes: Vec<u8> = Vec::new();
                        bytes.push((v % 256) as u8);
                        Ok(StepOutput { bytes, key_taken: touched })
                    },
                    TrapCode::PUTS => {
                        let start = self.registers.read(Register::R0);
                        let (bytes, visited) = scan_write(&mut self.memory, start, pending, false);
                        Ok(StepOutput { bytes, key_taken: touched || visited })
                    },
                    TrapCode::IN => {
                        self.mode = Mode::WaitingForKey { echo: true };
                        Ok(StepOutput { bytes: prompt_vec(), key_taken: touched })
                    },
                    TrapCode::PUTSP => {
                        let start = self.registers.read(Register::R0);
                        let (bytes, visited) = scan_write(&mut self.memory, start, pending, true);
                        Ok(StepOutput { bytes, key_taken: touched || visited })
                    },
                    TrapCode::HALT => {
                        self.mode = Mode::Halted;
                        Ok(StepOutput { bytes: halt_vec(), key_taken: touched })
                    },
                }
            },
        }
    }

    /// Resumes a trap that blocked for keyboard input: stores the key's
    /// byte value, zero-extended, into R0, updates the condition flags
    /// from it, echoes the key when the trap asked for an echo, and runs
    /// on.
    pub fn supply_key(&mut self, key: u8) -> (out: Vec<u8>)
        requires
            old(self).wf(),
            old(self).mode matches Mode::WaitingForKey { .. },
        ensures
            final(self).wf(),
            final(self).registers@ == old(self).registers@.update(0, key as u16).update(
                cond_idx(),
                flag_for(key as u16),
            ),
            final(self).memory@ == old(self).memory@,
            final(self).mode == Mode::Running,
            out@ == (if old(self).mode == (Mode::WaitingForKey { echo: true }) {
                seq![key]
            } else {
                Seq::<u8>::empty()
            }),
    {
        let echo = match self.mode {
            Mode::WaitingForKey { echo } => echo,
            _ => false,
        };
        self.registers.write(Register::R0, key as u16);
        self.registers.update_flags(Register::R0);
        self.mode = Mode::Running;
        let mut out: Vec<u8> = Vec::new();
        if echo {
            out.push(key);
        }
        proof {
            if old(self).mode == (Mode::WaitingForKey { echo: true }) {
                assert(out@ =~= seq![key]);
            } else {
                assert(out@ =~= Seq::<u8>::empty());
            }
        }
        out
    }
}

/// Fetching an instruction whose opcode field holds 8 (RTI) or 13 (RES)
/// always faults the step with the unimplemented-opcode error, whatever
/// the rest of the machine state: execution never silently continues.
pub proof fn lemma_unimplemented_opcode_faults(regs: Seq<u16>, mem: Seq<u16>, pending: Option<u8>)
    requires
        opcode_of(read_value(mem, regs[pc_idx()], pending)) == 8 || opcode_of(
            read_value(mem, regs[pc_idx()], pending),
        ) == 13,
    ensures
        step_spec(regs, mem, pending).err == Some(
            ExecError::UnimplementedOpcode(opcode_of(read_value(mem, regs[pc_idx()], pending))),
        ),
{
}

} // verus!
