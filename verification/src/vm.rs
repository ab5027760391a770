//! The tick-driven interpreter. `VM::tick` decodes and executes one
//! instruction per call.
//!
//! Every machine value is a 32-bit float carried as its bit pattern. The
//! machine's meaning is given by spec functions over `VmModel`, the ghost
//! image of the state; `spec_step` is the whole tick protocol. The square
//! root, exponential and logarithm opcodes and the debug rendering go
//! through the caller's `HostFloat`, whose results the contracts leave
//! open.

use vstd::prelude::*;

use crate::argument::Argument;
use crate::assembly::Assembly;
use crate::assembly::spec_first_fault;
use crate::assembly::spec_shape_ok;
use crate::errors::AssemblyError;
use crate::errors::AssemblyErrorKind;
use crate::errors::RuntimeError;
use crate::errors::RuntimeErrorKind;
use crate::float_bits::HostFloat;
use crate::float_bits::ZERO_BITS;
use crate::float_bits::abs_bits;
use crate::float_bits::bits_of_i32;
use crate::float_bits::bits_of_u64;
use crate::float_bits::fadd_bits;
use crate::float_bits::fceil_bits;
use crate::float_bits::fdiv_bits;
use crate::float_bits::feq_bits;
use crate::float_bits::ffloor_bits;
use crate::float_bits::fle_bits;
use crate::float_bits::flt_bits;
use crate::float_bits::fmax_bits;
use crate::float_bits::fmin_bits;
use crate::float_bits::fmul_bits;
use crate::float_bits::frem_bits;
use crate::float_bits::fsub_bits;
use crate::float_bits::ftrunc_bits;
use crate::float_bits::i32_of_bits;
use crate::float_bits::is_inf_bits;
use crate::float_bits::is_nan_bits;
use crate::float_bits::u64_of_bits;
use crate::instruction::Instruction;
use crate::limits::Limits;
use crate::operation::Operation;
use crate::ram::Ram;
use crate::register_kind::RegisterKind;
use crate::register_kind::RegisterMode;
use crate::vm_status::VMStatus;

verus! {

/// The bit pattern of 1.0.
pub const ONE_BITS: u32 = 0x3f800000;

/// The ghost image of a loaded assembly: the lowered instructions and the
/// code section size.
pub struct AsmModel {
    pub instructions: Seq<(Operation, Seq<Argument>)>,
    pub code_section_size: int,
}

/// The ghost image of the whole machine state.
#[verifier::ext_equal]
pub struct VmModel {
    pub limits: Limits,
    pub registers: Seq<u32>,
    pub stack: Seq<u32>,
    pub assembly: Option<AsmModel>,
    pub pc: int,
    pub sp: int,
    pub dbg_enabled: bool,
    pub dbg: Seq<Seq<char>>,
    pub status: VMStatus,
    pub ram: Seq<u8>,
}

/// A 64-bit value clamped into the address range.
pub open spec fn sat_usize(v: u64) -> int {
    if v > usize::MAX {
        usize::MAX as int
    } else {
        v as int
    }
}

/// The integer a float bit pattern addresses: truncated toward zero,
/// clamped into the address range.
pub open spec fn addr_of_bits(b: u32) -> int {
    sat_usize(u64_of_bits(b))
}

/// `a` minus `b`, not below zero.
pub open spec fn sat_sub(a: int, b: int) -> int {
    if a >= b {
        a - b
    } else {
        0
    }
}


/// Reading a register operand: direct, indirect (through the integer value
/// of the named register), the program counter, or the stack pointer.
pub open spec fn spec_read_reg(m: VmModel, kind: RegisterKind) -> Result<u32, RuntimeErrorKind> {
    match kind {
        RegisterKind::Regular { id, mode } => {
            if id >= m.limits.regular_registers {
                Err(RuntimeErrorKind::InvalidRegister { register: kind })
            } else {
                match mode {
                    RegisterMode::Direct => Ok(m.registers[id as int]),
                    RegisterMode::Indirect => {
                        let t = addr_of_bits(m.registers[id as int]);
                        if t >= m.limits.regular_registers {
                            Err(
                                RuntimeErrorKind::InvalidRegister {
                                    register: RegisterKind::Regular {
                                        id: t as usize,
                                        mode: RegisterMode::Direct,
                                    },
                                },
                            )
                        } else {
                            Ok(m.registers[t])
                        }
                    },
                }
            }
        },
        RegisterKind::ProgramCounter => Ok(bits_of_u64(m.pc as u64)),
        RegisterKind::StackPointer => Ok(bits_of_u64(m.sp as u64)),
    }
}

/// Writing a register operand. An indirect write forwards to the register
/// the operand's integer value names; a write to the program counter sets
/// it to the value's address; the stack pointer is read-only.
pub open spec fn spec_write_reg(m: VmModel, kind: RegisterKind, bits: u32) -> Result<
    VmModel,
    RuntimeErrorKind,
> {
    match kind {
        RegisterKind::Regular { id, mode } => {
            if id >= m.limits.regular_registers {
                Err(RuntimeErrorKind::InvalidRegister { register: kind })
            } else {
                match mode {
                    RegisterMode::Direct => Ok(
                        VmModel { registers: m.registers.update(id as int, bits), ..m },
                    ),
                    RegisterMode::Indirect => {
                        let t = addr_of_bits(m.registers[id as int]);
                        if t >= m.limits.regular_registers {
                            Err(
                                RuntimeErrorKind::InvalidRegister {
                                    register: RegisterKind::Regular {
                                        id: t as usize,
                                        mode: RegisterMode::Direct,
                                    },
                                },
                            )
                        } else {
                            Ok(VmModel { registers: m.registers.update(t, bits), ..m })
                        }
                    },
                }
            }
        },
        RegisterKind::ProgramCounter => Ok(VmModel { pc: addr_of_bits(bits), ..m }),
        RegisterKind::StackPointer => Err(
            RuntimeErrorKind::RegisterIsReadOnly { register: kind },
        ),
    }
}

/// The float value of an argument: registers read through
/// `spec_read_reg`, integers convert, floats pass through; a pin carries
/// no value.
pub open spec fn spec_arg_value(m: VmModel, a: Argument) -> Result<u32, RuntimeErrorKind> {
    match a {
        Argument::Register { register } => spec_read_reg(m, register),
        Argument::Int { value } => Ok(bits_of_i32(value)),
        Argument::Float { bits } => Ok(bits),
        Argument::Pin { .. } => Err(RuntimeErrorKind::InvalidType),
    }
}

/// Pushing a value: fails with StackOverflow when the stack is full.
pub open spec fn spec_push(m: VmModel, bits: u32) -> Result<VmModel, RuntimeErrorKind> {
    if m.sp >= m.stack.len() {
        Err(RuntimeErrorKind::StackOverflow)
    } else {
        Ok(VmModel { stack: m.stack.update(m.sp, bits), sp: m.sp + 1, ..m })
    }
}

/// Popping a value: fails with StackOverflow when the stack is empty; the
/// vacated slot clears to 0.0.
pub open spec fn spec_pop(m: VmModel) -> Result<(u32, VmModel), RuntimeErrorKind> {
    if m.sp == 0 {
        Err(RuntimeErrorKind::StackOverflow)
    } else {
        Ok(
            (
                m.stack[m.sp - 1],
                VmModel { stack: m.stack.update(m.sp - 1, ZERO_BITS), sp: m.sp - 1, ..m },
            ),
        )
    }
}

/// Reading the top of the stack without popping it.
pub open spec fn spec_peek(m: VmModel) -> Result<u32, RuntimeErrorKind> {
    if m.sp == 0 {
        Err(RuntimeErrorKind::StackOverflow)
    } else {
        Ok(m.stack[m.sp - 1])
    }
}

/// The byte visible at a RAM offset: zero past the initialized region.
pub open spec fn spec_ram_byte(m: VmModel, off: int) -> u8 {
    if 0 <= off < m.ram.len() {
        m.ram[off]
    } else {
        0
    }
}

/// An address clamped into the address range, for reporting.
pub open spec fn sat_addr(off: int) -> usize {
    if off > usize::MAX {
        usize::MAX
    } else if off < 0 {
        0
    } else {
        off as usize
    }
}

/// Reading RAM: fails with InvalidAddress at or past the RAM length.
pub open spec fn spec_ram_read(m: VmModel, off: int) -> Result<u8, RuntimeErrorKind> {
    if off >= m.limits.ram_length {
        Err(RuntimeErrorKind::InvalidAddress { address: sat_addr(off) })
    } else {
        Ok(spec_ram_byte(m, off))
    }
}

/// Writing RAM: the store grows to reach the offset.
pub open spec fn spec_ram_write(m: VmModel, off: int, b: u8) -> Result<VmModel, RuntimeErrorKind> {
    if off >= m.limits.ram_length {
        Err(RuntimeErrorKind::InvalidAddress { address: sat_addr(off) })
    } else {
        Ok(
            VmModel {
                ram: Seq::new(
                    vstd::math::max(m.ram.len() as int, off + 1) as nat,
                    |i: int|
                        if i == off {
                            b
                        } else if 0 <= i < m.ram.len() {
                            m.ram[i]
                        } else {
                            0
                        },
                ),
                ..m
            },
        )
    }
}

/// The machine state.
#[derive(Debug)]
pub struct VM {
    pub limits: Limits,
    pub registers: Vec<u32>,
    pub stack: Vec<u32>,
    pub assembly: Option<Assembly>,
    pub pc: usize,
    pub sp: usize,
    pub dbg_enabled: bool,
    pub dbg_lines: Vec<String>,
    pub status: VMStatus,
    pub ram: Ram,
}

impl VM {
    /// The ghost image of this machine.
    pub open spec fn model(self) -> VmModel {
        VmModel {
            limits: self.limits,
            registers: self.registers@,
            stack: self.stack@,
            assembly: match self.assembly {
                Some(a) => Some(
                    AsmModel {
                        instructions: crate::compiler::abs_instrs(a.instructions@),
                        code_section_size: a.code_section_size as int,
                    },
                ),
                None => None,
            },
            pc: self.pc as int,
            sp: self.sp as int,
            dbg_enabled: self.dbg_enabled,
            dbg: self.dbg_lines@.map_values(|s: String| s@),
            status: self.status,
            ram: self.ram.data@,
        }
    }

    /// The machine's structural invariant: register and stack files sized
    /// by the limits, the stack pointer within the stack, and the RAM
    /// bounded by the same limits.
    pub open spec fn wf(self) -> bool {
        &&& self.registers@.len() == self.limits.regular_registers
        &&& self.stack@.len() == self.limits.stack_size
        &&& self.sp <= self.limits.stack_size
        &&& self.ram.limits == self.limits
        &&& self.ram.data@.len() <= self.limits.ram_length
    }

    /// A machine with all registers, stack slots and memory zeroed, no
    /// assembly loaded, in the Idle state.
    pub fn new(limits: Limits) -> (r: Self)
        ensures
            r.wf(),
            r.limits == limits,
            r.model().pc == 0,
            r.model().sp == 0,
            r.model().status == VMStatus::Idle,
            r.model().assembly is None,
            forall|i: int| 0 <= i < r.model().registers.len() ==> r.model().registers[i] == 0,
            forall|i: int| 0 <= i < r.model().stack.len() ==> r.model().stack[i] == 0,
            r.model().ram.len() == 0,
            r.model().dbg.len() == 0,
            !r.model().dbg_enabled,
    {
        let mut registers: Vec<u32> = Vec::new();
        let mut i: usize = 0;
        while i < limits.regular_registers
            invariant
                i <= limits.regular_registers,
                registers@.len() == i,
                forall|j: int| 0 <= j < i ==> registers@[j] == 0,
            decreases limits.regular_registers - i,
        {
            registers.push(0);
            i += 1;
        }
        let mut stack: Vec<u32> = Vec::new();
        let mut k: usize = 0;
        while k < limits.stack_size
            invariant
                k <= limits.stack_size,
                stack@.len() == k,
                forall|j: int| 0 <= j < k ==> stack@[j] == 0,
            decreases limits.stack_size - k,
        {
            stack.push(0);
            k += 1;
        }
        let ram = Ram::new(limits);
        VM {
            limits,
            registers,
            stack,
            assembly: None,
            pc: 0,
            sp: 0,
            dbg_enabled: false,
            dbg_lines: Vec::new(),
            status: VMStatus::Idle,
            ram,
        }
    }

    /// Validates an assembly against this machine's limits, copies its
    /// text section to the start of RAM, and installs it.
    pub fn load_assembly(&mut self, assembly: Assembly) -> (r: Result<(), AssemblyError>)
        requires
            old(self).wf(),
        ensures
            final(self).wf(),
            match r {
                Ok(()) => {
                    &&& spec_first_fault(assembly.instructions@, old(self).limits) is None
                    &&& assembly.text_section@.len() <= old(self).limits.ram_length
                    &&& final(self).assembly == Some(assembly)
                    &&& final(self).limits == old(self).limits
                    &&& final(self).registers@ == old(self).registers@
                    &&& final(self).stack@ == old(self).stack@
                    &&& final(self).pc == old(self).pc
                    &&& final(self).sp == old(self).sp
                    &&& final(self).status == old(self).status
                    &&& final(self).model().ram.len() == vstd::math::max(
                        old(self).model().ram.len() as int,
                        assembly.text_section@.len() as int,
                    )
                    &&& forall|i: int|
                        0 <= i < final(self).model().ram.len() ==> final(self).model().ram[i] == (
                        if i < assembly.text_section@.len() {
                            assembly.text_section@[i]
                        } else {
                            spec_ram_byte(old(self).model(), i)
                        })
                },
                Err(e) => {
                    &&& final(self).assembly == old(self).assembly
                    &&& spec_first_fault(assembly.instructions@, old(self).limits) is Some
                        || assembly.text_section@.len() > old(self).limits.ram_length
                },
            },
    {
        if let Err(e) = assembly.validate(&self.limits) {
            return Err(e);
        }
        if assembly.text_section.len() > 0 {
            if let Err(e) = self.ram.write_slice(0, assembly.text_section.as_slice()) {
                return Err(
                    AssemblyError::new(
                        e.message().to_owned(),
                        None,
                        AssemblyErrorKind::TooLarge,
                    ),
                );
            }
            proof {
                assert forall|i: int| 0 <= i < self.ram.data@.len() implies self.ram.data@[i] == (
                    if i < assembly.text_section@.len() {
                        assembly.text_section@[i]
                    } else {
                        spec_ram_byte(old(self).model(), i)
                    }
                ) by {
                    assert(self.ram.byte_at(i) == self.ram.data@[i]);
                }
            }
        }
        self.assembly = Some(assembly);
        Ok(())
    }

    /// Removes the loaded assembly; the next tick parks the machine Idle.
    pub fn unload_assembly(&mut self)
        ensures
            *final(self) == (VM { assembly: None, ..*old(self) }),
    {
        self.assembly = None;
    }

    pub fn assembly(&self) -> (r: Option<&Assembly>)
        ensures
            match r {
                Some(a) => self.assembly == Some(*a),
                None => self.assembly is None,
            },
    {
        self.assembly.as_ref()
    }

    pub fn ram(&self) -> (r: &Ram)
        ensures
            r == &self.ram,
    {
        &self.ram
    }

    pub fn ram_mut(&mut self) -> (r: &mut Ram)
        ensures
            *r == old(self).ram,
            *final(self) == (VM { ram: *final(r), ..*old(self) }),
    {
        &mut self.ram
    }

    /// Returns the machine to Idle: program counter, stack pointer,
    /// registers and stack clear; the assembly and RAM stay.
    pub fn reset(&mut self)
        requires
            old(self).wf(),
        ensures
            final(self).wf(),
            final(self).status == VMStatus::Idle,
            final(self).pc == 0,
            final(self).sp == 0,
            final(self).registers@.len() == old(self).registers@.len(),
            forall|i: int| 0 <= i < final(self).registers@.len() ==> final(self).registers@[i] == 0,
            final(self).stack@.len() == old(self).stack@.len(),
            forall|i: int| 0 <= i < final(self).stack@.len() ==> final(self).stack@[i] == 0,
            final(self).assembly == old(self).assembly,
            final(self).ram == old(self).ram,
            final(self).limits == old(self).limits,
            final(self).dbg_lines == old(self).dbg_lines,
            final(self).dbg_enabled == old(self).dbg_enabled,
    {
        self.status = VMStatus::Idle;
        self.pc = 0;
        self.sp = 0;
        let n = self.registers.len();
        let mut i: usize = 0;
        while i < n
            invariant
                i <= n == self.registers@.len(),
                forall|j: int| 0 <= j < i ==> self.registers@[j] == 0,
                self.limits == old(self).limits,
                self.stack == old(self).stack,
                self.assembly == old(self).assembly,
                self.ram == old(self).ram,
                self.dbg_lines == old(self).dbg_lines,
                self.dbg_enabled == old(self).dbg_enabled,
                self.pc == 0,
                self.sp == 0,
                self.status == VMStatus::Idle,
            decreases n - i,
        {
            self.registers[i] = 0;
            i += 1;
        }
        let k0 = self.stack.len();
        let mut k: usize = 0;
        while k < k0
            invariant
                k <= k0 == self.stack@.len(),
                forall|j: int| 0 <= j < k ==> self.stack@[j] == 0,
                self.limits == old(self).limits,
                self.registers@.len() == old(self).registers@.len(),
                forall|j: int| 0 <= j < self.registers@.len() ==> self.registers@[j] == 0,
                self.assembly == old(self).assembly,
                self.ram == old(self).ram,
                self.dbg_lines == old(self).dbg_lines,
                self.dbg_enabled == old(self).dbg_enabled,
                self.pc == 0,
                self.sp == 0,
                self.status == VMStatus::Idle,
            decreases k0 - k,
        {
            self.stack[k] = 0;
            k += 1;
        }
    }

    pub fn registers(&self) -> (r: &Vec<u32>)
        ensures
            r == &self.registers,
    {
        &self.registers
    }

    pub fn pc(&self) -> (r: usize)
        ensures
            r == self.pc,
    {
        self.pc
    }

    pub fn sp(&self) -> (r: usize)
        ensures
            r == self.sp,
    {
        self.sp
    }

    pub fn stack(&self) -> (r: &Vec<u32>)
        ensures
            r == &self.stack,
    {
        &self.stack
    }

    pub fn status(&self) -> (r: VMStatus)
        ensures
            r == self.status,
    {
        self.status
    }

    /// Turns collection of debug output on; `dbg`/`dbgs` append their text
    /// to the buffer only while enabled.
    pub fn enable_dbg_output(&mut self)
        ensures
            *final(self) == (VM { dbg_enabled: true, ..*old(self) }),
    {
        self.dbg_enabled = true;
    }

    /// The debug lines collected so far.
    pub fn dbg_output(&self) -> (r: &Vec<String>)
        ensures
            r == &self.dbg_lines,
    {
        &self.dbg_lines
    }

    /// Hands the collected debug lines out and clears the buffer.
    pub fn take_dbg_output(&mut self) -> (r: Vec<String>)
        ensures
            r == old(self).dbg_lines,
            final(self).dbg_lines@.len() == 0,
            final(self).limits == old(self).limits,
            final(self).registers == old(self).registers,
            final(self).stack == old(self).stack,
            final(self).assembly == old(self).assembly,
            final(self).pc == old(self).pc,
            final(self).sp == old(self).sp,
            final(self).dbg_enabled == old(self).dbg_enabled,
            final(self).status == old(self).status,
            final(self).ram == old(self).ram,
    {
        let mut out: Vec<String> = Vec::new();
        core::mem::swap(&mut out, &mut self.dbg_lines);
        out
    }
}


impl VM {
    /// Reads a register operand as `spec_read_reg` says.
    fn read_register(&self, kind: RegisterKind) -> (r: Result<u32, RuntimeError>)
        requires
            self.wf(),
        ensures
            match r {
                Ok(b) => spec_read_reg(self.model(), kind) == Ok::<u32, RuntimeErrorKind>(b),
                Err(e) => spec_read_reg(self.model(), kind) == Err::<u32, RuntimeErrorKind>(e.kind),
            },
    {
        match kind {
            RegisterKind::Regular { id, mode } => {
                if id >= self.limits.regular_registers {
                    return Err(
                        RuntimeError::new(
                            "Register is out of maximum registers".to_owned(),
                            RuntimeErrorKind::InvalidRegister { register: kind },
                        ),
                    );
                }
                match mode {
                    RegisterMode::Direct => Ok(self.registers[id]),
                    RegisterMode::Indirect => {
                        let t64 = crate::float_bits::float_to_u64(self.registers[id]);
                        let t: usize = if t64 > usize::MAX as u64 {
                            usize::MAX
                        } else {
                            t64 as usize
                        };
                        if t >= self.limits.regular_registers {
                            return Err(
                                RuntimeError::new(
                                    "Register is out of maximum registers".to_owned(),
                                    RuntimeErrorKind::InvalidRegister {
                                        register: RegisterKind::Regular {
                                            id: t,
                                            mode: RegisterMode::Direct,
                                        },
                                    },
                                ),
                            );
                        }
                        Ok(self.registers[t])
                    },
                }
            },
            RegisterKind::ProgramCounter => Ok(crate::float_bits::float_of_u64(self.pc as u64)),
            RegisterKind::StackPointer => Ok(crate::float_bits::float_of_u64(self.sp as u64)),
        }
    }

    /// Writes a register operand as `spec_write_reg` says; on failure the
    /// machine is unchanged.
    pub fn write_register(&mut self, register: RegisterKind, bits: u32) -> (r: Result<
        (),
        RuntimeError,
    >)
        requires
            old(self).wf(),
        ensures
            final(self).wf(),
            final(self).assembly == old(self).assembly,
            match r {
                Ok(()) => spec_write_reg(old(self).model(), register, bits) == Ok::<
                    VmModel,
                    RuntimeErrorKind,
                >(final(self).model()),
                Err(e) => spec_write_reg(old(self).model(), register, bits) == Err::<
                    VmModel,
                    RuntimeErrorKind,
                >(e.kind) && *final(self) == *old(self),
            },
    {
        match register {
            RegisterKind::Regular { id, mode } => {
                if id >= self.limits.regular_registers {
                    return Err(
                        RuntimeError::new(
                            "Register is out of maximum registers".to_owned(),
                            RuntimeErrorKind::InvalidRegister { register },
                        ),
                    );
                }
                match mode {
                    RegisterMode::Direct => {
                        self.registers[id] = bits;
                        proof {
                            assert(final(self).model() =~= (VmModel {
                                registers: old(self).model().registers.update(id as int, bits),
                                ..old(self).model()
                            }));
                        }
                        Ok(())
                    },
                    RegisterMode::Indirect => {
                        let t64 = crate::float_bits::float_to_u64(self.registers[id]);
                        let t: usize = if t64 > usize::MAX as u64 {
                            usize::MAX
                        } else {
                            t64 as usize
                        };
                        if t >= self.limits.regular_registers {
                            return Err(
                                RuntimeError::new(
                                    "Register is out of maximum registers".to_owned(),
                                    RuntimeErrorKind::InvalidRegister {
                                        register: RegisterKind::Regular {
                                            id: t,
                                            mode: RegisterMode::Direct,
                                        },
                                    },
                                ),
                            );
                        }
                        self.registers[t] = bits;
                        proof {
                            assert(final(self).model() =~= (VmModel {
                                registers: old(self).model().registers.update(t as int, bits),
                                ..old(self).model()
                            }));
                        }
                        Ok(())
                    },
                }
            },
            RegisterKind::ProgramCounter => {
                let t64 = crate::float_bits::float_to_u64(bits);
                let t: usize = if t64 > usize::MAX as u64 {
                    usize::MAX
                } else {
                    t64 as usize
                };
                self.pc = t;
                proof {
                    assert(final(self).model() =~= (VmModel {
                        pc: addr_of_bits(bits),
                        ..old(self).model()
                    }));
                }
                Ok(())
            },
            RegisterKind::StackPointer => Err(
                RuntimeError::new(
                    "sp is read-only".to_owned(),
                    RuntimeErrorKind::RegisterIsReadOnly { register },
                ),
            ),
        }
    }

    /// Pushes a value as `spec_push` says.
    pub fn push_stack(&mut self, bits: u32) -> (r: Result<(), RuntimeError>)
        requires
            old(self).wf(),
        ensures
            final(self).wf(),
            final(self).assembly == old(self).assembly,
            match r {
                Ok(()) => spec_push(old(self).model(), bits) == Ok::<VmModel, RuntimeErrorKind>(
                    final(self).model(),
                ),
                Err(e) => spec_push(old(self).model(), bits) == Err::<VmModel, RuntimeErrorKind>(
                    e.kind,
                ) && *final(self) == *old(self),
            },
    {
        if self.sp >= self.stack.len() {
            return Err(
                RuntimeError::new("Stack overflow".to_owned(), RuntimeErrorKind::StackOverflow),
            );
        }
        let at = self.sp;
        self.stack[at] = bits;
        self.sp = at + 1;
        proof {
            assert(final(self).model() =~= (VmModel {
                stack: old(self).model().stack.update(old(self).model().sp, bits),
                sp: old(self).model().sp + 1,
                ..old(self).model()
            }));
        }
        Ok(())
    }

    /// Pops a value as `spec_pop` says; the vacated slot clears to 0.0.
    pub fn pop_stack(&mut self) -> (r: Result<u32, RuntimeError>)
        requires
            old(self).wf(),
        ensures
            final(self).wf(),
            final(self).assembly == old(self).assembly,
            match r {
                Ok(b) => spec_pop(old(self).model()) == Ok::<(u32, VmModel), RuntimeErrorKind>(
                    (b, final(self).model()),
                ),
                Err(e) => spec_pop(old(self).model()) == Err::<(u32, VmModel), RuntimeErrorKind>(
                    e.kind,
                ) && *final(self) == *old(self),
            },
    {
        if self.sp == 0 {
            return Err(
                RuntimeError::new("Stack overflow".to_owned(), RuntimeErrorKind::StackOverflow),
            );
        }
        let at = self.sp - 1;
        let b = self.stack[at];
        self.stack[at] = ZERO_BITS;
        self.sp = at;
        proof {
            assert(final(self).model() =~= (VmModel {
                stack: old(self).model().stack.update(old(self).model().sp - 1, ZERO_BITS),
                sp: old(self).model().sp - 1,
                ..old(self).model()
            }));
        }
        Ok(b)
    }

    /// Reads the top of the stack as `spec_peek` says.
    pub fn peek_stack(&self) -> (r: Result<u32, RuntimeError>)
        requires
            self.wf(),
        ensures
            match r {
                Ok(b) => spec_peek(self.model()) == Ok::<u32, RuntimeErrorKind>(b),
                Err(e) => spec_peek(self.model()) == Err::<u32, RuntimeErrorKind>(e.kind),
            },
    {
        if self.sp == 0 {
            return Err(
                RuntimeError::new("Stack overflow".to_owned(), RuntimeErrorKind::StackOverflow),
            );
        }
        Ok(self.stack[self.sp - 1])
    }

    /// The float value of an argument, as `spec_arg_value` says.
    fn argument_value(&self, a: &Argument) -> (r: Result<u32, RuntimeError>)
        requires
            self.wf(),
        ensures
            match r {
                Ok(b) => spec_arg_value(self.model(), *a) == Ok::<u32, RuntimeErrorKind>(b),
                Err(e) => spec_arg_value(self.model(), *a) == Err::<u32, RuntimeErrorKind>(e.kind),
            },
    {
        match a {
            Argument::Register { register } => self.read_register(*register),
            Argument::Int { value } => Ok(crate::float_bits::float_of_i32(*value)),
            Argument::Float { bits } => Ok(*bits),
            Argument::Pin { .. } => Err(
                RuntimeError::new(
                    "Argument can't be used as value".to_owned(),
                    RuntimeErrorKind::InvalidType,
                ),
            ),
        }
    }

    /// Reads one RAM byte at an address that may lie past the address
    /// space, as `spec_ram_read` says.
    fn ram_read_at(&self, off: usize) -> (r: Result<u8, RuntimeError>)
        requires
            self.wf(),
        ensures
            match r {
                Ok(b) => spec_ram_read(self.model(), off as int) == Ok::<u8, RuntimeErrorKind>(b),
                Err(e) => spec_ram_read(self.model(), off as int) == Err::<u8, RuntimeErrorKind>(
                    e.kind,
                ),
            },
    {
        self.ram.read(off)
    }

    /// Writes one RAM byte, as `spec_ram_write` says.
    fn ram_write_at(&mut self, off: usize, b: u8) -> (r: Result<(), RuntimeError>)
        requires
            old(self).wf(),
        ensures
            final(self).wf(),
            final(self).assembly == old(self).assembly,
            match r {
                Ok(()) => spec_ram_write(old(self).model(), off as int, b) == Ok::<
                    VmModel,
                    RuntimeErrorKind,
                >(final(self).model()),
                Err(e) => spec_ram_write(old(self).model(), off as int, b) == Err::<
                    VmModel,
                    RuntimeErrorKind,
                >(e.kind) && *final(self) == *old(self),
            },
    {
        let r = self.ram.write(off, b);
        match r {
            Ok(()) => {
                proof {
                    let m2 = spec_ram_write(old(self).model(), off as int, b)->Ok_0;
                    assert forall|i: int|
                        0 <= i < final(self).model().ram.len() implies #[trigger] final(self).model().ram[i]
                        == m2.ram[i] by {
                        assert(final(self).ram.byte_at(i) == final(self).ram.data@[i]);
                    }
                    assert(final(self).model() =~= m2);
                }
                Ok(())
            },
            Err(e) => Err(e),
        }
    }
}


/// The comparison each branch or set opcode applies to its two values.
pub open spec fn spec_cmp(op: Operation, a: u32, b: u32) -> bool {
    match op {
        Operation::Beq | Operation::Beqz | Operation::SeqOp | Operation::Seqz => feq_bits(a, b),
        Operation::Bge | Operation::Bgez | Operation::Sge | Operation::Sgez => fle_bits(b, a),
        Operation::Bgt | Operation::Bgtz | Operation::Sgt | Operation::Sgtz => flt_bits(b, a),
        Operation::Ble | Operation::Blez | Operation::Sle | Operation::Slez => fle_bits(a, b),
        Operation::Blt | Operation::Bltz | Operation::Slt | Operation::Sltz => flt_bits(a, b),
        Operation::Bne | Operation::Bnez | Operation::Sne | Operation::Snez => !feq_bits(a, b),
        _ => false,
    }
}

/// The integer result of a bit or logic opcode.
pub open spec fn spec_bitop(op: Operation, ai: i32, bi: i32) -> i32 {
    match op {
        Operation::And => if ai != 0 && bi != 0 {
            1
        } else {
            0
        },
        Operation::Or => if ai != 0 || bi != 0 {
            1
        } else {
            0
        },
        Operation::Xor => if (ai != 0) != (bi != 0) {
            1
        } else {
            0
        },
        Operation::Nor => if ai == 0 && bi == 0 {
            1
        } else {
            0
        },
        Operation::Andi => ai & bi,
        Operation::Ori => ai | bi,
        Operation::Xori => ai ^ bi,
        Operation::Shr => ai >> ((bi as u32) & 31),
        Operation::Shl => ai << ((bi as u32) & 31),
        Operation::Ror => {
            let au = ai as u32;
            let sh = (bi as u32) & 31;
            if sh == 0 {
                au as i32
            } else {
                ((au >> sh) | (au << ((32 - sh) as u32))) as i32
            }
        },
        Operation::Rol => {
            let au = ai as u32;
            let sh = (bi as u32) & 31;
            if sh == 0 {
                au as i32
            } else {
                ((au << sh) | (au >> ((32 - sh) as u32))) as i32
            }
        },
        _ => 0,
    }
}

/// The null-terminated byte string in RAM from `off` on; it stops at the
/// first zero byte or at the end of the address space.
pub open spec fn spec_cstring(m: VmModel, off: int) -> Seq<u8>
    decreases m.limits.ram_length - off,
{
    if off < 0 || off >= m.limits.ram_length {
        Seq::empty()
    } else if spec_ram_byte(m, off) == 0 {
        Seq::empty()
    } else {
        seq![spec_ram_byte(m, off)] + spec_cstring(m, off + 1)
    }
}

/// The destination register of an instruction whose first operand must be
/// writable.
pub open spec fn spec_dst(args: Seq<Argument>) -> Option<RegisterKind> {
    match args[0] {
        Argument::Register { register } => Some(register),
        _ => None,
    }
}

/// Executing one decoded instruction on the model. `unary` stands for what
/// the host returned for a square root, exponential or logarithm; `fmt`
/// for the text a debug opcode rendered. Every other opcode ignores them.
/// The pair holds the next state and the explicit status or error.
pub open spec fn spec_exec_instr(
    m: VmModel,
    op: Operation,
    args: Seq<Argument>,
    unary: u32,
    fmt: Seq<char>,
) -> (VmModel, Result<Option<VMStatus>, RuntimeErrorKind>) {
    match op {
        Operation::Add | Operation::Sub | Operation::Mul | Operation::Div | Operation::Mod => {
            match spec_dst(args) {
                None => (m, Err(RuntimeErrorKind::InvalidType)),
                Some(d) => match spec_arg_value(m, args[1]) {
                    Err(k) => (m, Err(k)),
                    Ok(a) => match spec_arg_value(m, args[2]) {
                        Err(k) => (m, Err(k)),
                        Ok(b) => {
                            if (op == Operation::Div || op == Operation::Mod) && feq_bits(
                                b,
                                ZERO_BITS,
                            ) {
                                (m, Err(RuntimeErrorKind::DividedByZero))
                            } else {
                                let v = match op {
                                    Operation::Add => fadd_bits(a, b),
                                    Operation::Sub => fsub_bits(a, b),
                                    Operation::Mul => fmul_bits(a, b),
                                    Operation::Div => fdiv_bits(a, b),
                                    _ => frem_bits(a, b),
                                };
                                match spec_write_reg(m, d, v) {
                                    Ok(m2) => (m2, Ok(None)),
                                    Err(k) => (m, Err(k)),
                                }
                            }
                        },
                    },
                },
            }
        },
        Operation::Mov => match spec_dst(args) {
            None => (m, Err(RuntimeErrorKind::InvalidType)),
            Some(d) => match spec_arg_value(m, args[1]) {
                Err(k) => (m, Err(k)),
                Ok(a) => match spec_write_reg(m, d, a) {
                    Ok(m2) => (m2, Ok(None)),
                    Err(k) => (m, Err(k)),
                },
            },
        },
        Operation::Jmp => match spec_arg_value(m, args[0]) {
            Err(k) => (m, Err(k)),
            Ok(a) => match spec_write_reg(m, RegisterKind::ProgramCounter, a) {
                Ok(m2) => (m2, Ok(None)),
                Err(k) => (m, Err(k)),
            },
        },
        Operation::Dbg => {
            if !m.dbg_enabled {
                (m, Ok(None))
            } else {
                match spec_arg_value(m, args[0]) {
                    Err(k) => (m, Err(k)),
                    Ok(_) => (VmModel { dbg: m.dbg.push(fmt), ..m }, Ok(None)),
                }
            }
        },
        Operation::Dbgs => {
            if !m.dbg_enabled {
                (m, Ok(None))
            } else {
                match m.assembly {
                    None => (m, Err(RuntimeErrorKind::InvalidType)),
                    Some(am) => match spec_arg_value(m, args[0]) {
                        Err(k) => (m, Err(k)),
                        Ok(_) => (VmModel { dbg: m.dbg.push(fmt), ..m }, Ok(None)),
                    },
                }
            }
        },
        Operation::Yield => (m, Ok(Some(VMStatus::Yield))),
        Operation::Halt => (m, Ok(Some(VMStatus::Finished))),
        Operation::Beq | Operation::Bge | Operation::Bgt | Operation::Ble | Operation::Blt
            | Operation::Bne => match spec_arg_value(m, args[0]) {
            Err(k) => (m, Err(k)),
            Ok(a) => match spec_arg_value(m, args[1]) {
                Err(k) => (m, Err(k)),
                Ok(b) => {
                    if spec_cmp(op, a, b) {
                        match spec_arg_value(m, args[2]) {
                            Err(k) => (m, Err(k)),
                            Ok(t) => match spec_write_reg(m, RegisterKind::ProgramCounter, t) {
                                Ok(m2) => (m2, Ok(None)),
                                Err(k) => (m, Err(k)),
                            },
                        }
                    } else {
                        (m, Ok(None))
                    }
                },
            },
        },
        Operation::Beqz | Operation::Bgez | Operation::Bgtz | Operation::Blez | Operation::Bltz
            | Operation::Bnez => match spec_arg_value(m, args[0]) {
            Err(k) => (m, Err(k)),
            Ok(a) => {
                if spec_cmp(op, a, ZERO_BITS) {
                    match spec_arg_value(m, args[1]) {
                        Err(k) => (m, Err(k)),
                        Ok(t) => match spec_write_reg(m, RegisterKind::ProgramCounter, t) {
                            Ok(m2) => (m2, Ok(None)),
                            Err(k) => (m, Err(k)),
                        },
                    }
                } else {
                    (m, Ok(None))
                }
            },
        },
        Operation::SeqOp | Operation::Sge | Operation::Sgt | Operation::Sle | Operation::Slt
            | Operation::Sne => match spec_dst(args) {
            None => (m, Err(RuntimeErrorKind::InvalidType)),
            Some(d) => match spec_arg_value(m, args[1]) {
                Err(k) => (m, Err(k)),
                Ok(a) => match spec_arg_value(m, args[2]) {
                    Err(k) => (m, Err(k)),
                    Ok(b) => {
                        let v = if spec_cmp(op, a, b) {
                            ONE_BITS
                        } else {
                            ZERO_BITS
                        };
                        match spec_write_reg(m, d, v) {
                            Ok(m2) => (m2, Ok(None)),
                            Err(k) => (m, Err(k)),
                        }
                    },
                },
            },
        },
        Operation::Seqz | Operation::Sgez | Operation::Sgtz | Operation::Slez | Operation::Sltz
            | Operation::Snez => match spec_dst(args) {
            None => (m, Err(RuntimeErrorKind::InvalidType)),
            Some(d) => match spec_arg_value(m, args[1]) {
                Err(k) => (m, Err(k)),
                Ok(a) => {
                    let v = if spec_cmp(op, a, ZERO_BITS) {
                        ONE_BITS
                    } else {
                        ZERO_BITS
                    };
                    match spec_write_reg(m, d, v) {
                        Ok(m2) => (m2, Ok(None)),
                        Err(k) => (m, Err(k)),
                    }
                },
            },
        },
        Operation::Push => match spec_arg_value(m, args[0]) {
            Err(k) => (m, Err(k)),
            Ok(v) => match spec_push(m, v) {
                Ok(m2) => (m2, Ok(None)),
                Err(k) => (m, Err(k)),
            },
        },
        Operation::Pop => match spec_dst(args) {
            None => (m, Err(RuntimeErrorKind::InvalidType)),
            Some(d) => match spec_pop(m) {
                Err(k) => (m, Err(k)),
                Ok((v, m2)) => match spec_write_reg(m2, d, v) {
                    Ok(m3) => (m3, Ok(None)),
                    Err(k) => (m2, Err(k)),
                },
            },
        },
        Operation::Peek => match spec_dst(args) {
            None => (m, Err(RuntimeErrorKind::InvalidType)),
            Some(d) => match spec_peek(m) {
                Err(k) => (m, Err(k)),
                Ok(v) => match spec_write_reg(m, d, v) {
                    Ok(m2) => (m2, Ok(None)),
                    Err(k) => (m, Err(k)),
                },
            },
        },
        Operation::Ret => match spec_pop(m) {
            Err(k) => (m, Err(k)),
            Ok((v, m2)) => match spec_write_reg(m2, RegisterKind::ProgramCounter, v) {
                Ok(m3) => (m3, Ok(None)),
                Err(k) => (m2, Err(k)),
            },
        },
        Operation::Call => match spec_arg_value(m, args[0]) {
            Err(k) => (m, Err(k)),
            Ok(t) => {
                let ra = fadd_bits(bits_of_u64(m.pc as u64), ONE_BITS);
                match spec_push(m, ra) {
                    Err(k) => (m, Err(k)),
                    Ok(m2) => match spec_write_reg(m2, RegisterKind::ProgramCounter, t) {
                        Ok(m3) => (m3, Ok(None)),
                        Err(k) => (m2, Err(k)),
                    },
                }
            },
        },
        Operation::And | Operation::Or | Operation::Xor | Operation::Nor | Operation::Andi
            | Operation::Ori | Operation::Xori | Operation::Shr | Operation::Shl | Operation::Ror
            | Operation::Rol => match spec_dst(args) {
            None => (m, Err(RuntimeErrorKind::InvalidType)),
            Some(d) => match spec_arg_value(m, args[1]) {
                Err(k) => (m, Err(k)),
                Ok(a) => match spec_arg_value(m, args[2]) {
                    Err(k) => (m, Err(k)),
                    Ok(b) => {
                        let v = bits_of_i32(spec_bitop(op, i32_of_bits(a), i32_of_bits(b)));
                        match spec_write_reg(m, d, v) {
                            Ok(m2) => (m2, Ok(None)),
                            Err(k) => (m, Err(k)),
                        }
                    },
                },
            },
        },
        Operation::Sqrt | Operation::Trunc | Operation::Ceil | Operation::Floor | Operation::Abs
            | Operation::Exp | Operation::Inf | Operation::Nan => match spec_dst(args) {
            None => (m, Err(RuntimeErrorKind::InvalidType)),
            Some(d) => match spec_arg_value(m, args[1]) {
                Err(k) => (m, Err(k)),
                Ok(a) => {
                    let v = match op {
                        Operation::Sqrt => unary,
                        Operation::Exp => unary,
                        Operation::Trunc => ftrunc_bits(a),
                        Operation::Ceil => fceil_bits(a),
                        Operation::Floor => ffloor_bits(a),
                        Operation::Abs => abs_bits(a),
                        Operation::Inf => if is_inf_bits(a) {
                            ONE_BITS
                        } else {
                            ZERO_BITS
                        },
                        _ => if is_nan_bits(a) {
                            ONE_BITS
                        } else {
                            ZERO_BITS
                        },
                    };
                    match spec_write_reg(m, d, v) {
                        Ok(m2) => (m2, Ok(None)),
                        Err(k) => (m, Err(k)),
                    }
                },
            },
        },
        Operation::Max | Operation::Min | Operation::Log => match spec_dst(args) {
            None => (m, Err(RuntimeErrorKind::InvalidType)),
            Some(d) => match spec_arg_value(m, args[1]) {
                Err(k) => (m, Err(k)),
                Ok(a) => match spec_arg_value(m, args[2]) {
                    Err(k) => (m, Err(k)),
                    Ok(b) => {
                        let v = match op {
                            Operation::Max => fmax_bits(a, b),
                            Operation::Min => fmin_bits(a, b),
                            _ => unary,
                        };
                        match spec_write_reg(m, d, v) {
                            Ok(m2) => (m2, Ok(None)),
                            Err(k) => (m, Err(k)),
                        }
                    },
                },
            },
        },
        Operation::Lb | Operation::Lh | Operation::Lw => match m.assembly {
            None => (m, Err(RuntimeErrorKind::InvalidType)),
            Some(am) => match spec_dst(args) {
                None => (m, Err(RuntimeErrorKind::InvalidType)),
                Some(d) => match spec_arg_value(m, args[1]) {
                    Err(k) => (m, Err(k)),
                    Ok(av) => {
                        let base = sat_sub(addr_of_bits(av), am.code_section_size);
                        match spec_load_value(m, base, op) {
                            Err(k) => (m, Err(k)),
                            Ok(v) => match spec_write_reg(m, d, bits_of_i32(v)) {
                                Ok(m2) => (m2, Ok(None)),
                                Err(k) => (m, Err(k)),
                            },
                        }
                    },
                },
            },
        },
        Operation::Sb | Operation::Sh | Operation::Sw => match m.assembly {
            None => (m, Err(RuntimeErrorKind::InvalidType)),
            Some(am) => match spec_arg_value(m, args[0]) {
                Err(k) => (m, Err(k)),
                Ok(av) => match spec_arg_value(m, args[1]) {
                    Err(k) => (m, Err(k)),
                    Ok(vv) => {
                        let base = sat_sub(addr_of_bits(av), am.code_section_size);
                        spec_store_value(m, base, op, i32_of_bits(vv))
                    },
                },
            },
        },
    }
}

/// The little-endian integer a load opcode reads at `base`.
pub open spec fn spec_load_value(m: VmModel, base: int, op: Operation) -> Result<
    i32,
    RuntimeErrorKind,
> {
    match spec_ram_read(m, base) {
        Err(k) => Err(k),
        Ok(b0) => match op {
            Operation::Lb => Ok(b0 as i32),
            Operation::Lh => match spec_ram_read(m, base + 1) {
                Err(k) => Err(k),
                Ok(b1) => Ok(((b0 as u32) | ((b1 as u32) << 8)) as i32),
            },
            _ => match spec_ram_read(m, base + 1) {
                Err(k) => Err(k),
                Ok(b1) => match spec_ram_read(m, base + 2) {
                    Err(k) => Err(k),
                    Ok(b2) => match spec_ram_read(m, base + 3) {
                        Err(k) => Err(k),
                        Ok(b3) => Ok(
                            ((b0 as u32) | ((b1 as u32) << 8) | ((b2 as u32) << 16) | ((
                            b3 as u32) << 24)) as i32,
                        ),
                    },
                },
            },
        },
    }
}

/// A store opcode writing the low bytes of `v` at `base`, little endian.
/// The bytes go one at a time, so an address fault can leave the earlier
/// bytes written.
pub open spec fn spec_store_value(m: VmModel, base: int, op: Operation, v: i32) -> (
    VmModel,
    Result<Option<VMStatus>, RuntimeErrorKind>,
) {
    let u = v as u32;
    let b0 = (u & 0xff) as u8;
    let b1 = ((u >> 8) & 0xff) as u8;
    let b2 = ((u >> 16) & 0xff) as u8;
    let b3 = ((u >> 24) & 0xff) as u8;
    match spec_ram_write(m, base, b0) {
        Err(k) => (m, Err(k)),
        Ok(m1) => match op {
            Operation::Sb => (m1, Ok(None)),
            Operation::Sh => match spec_ram_write(m1, base + 1, b1) {
                Err(k) => (m1, Err(k)),
                Ok(m2) => (m2, Ok(None)),
            },
            _ => match spec_ram_write(m1, base + 1, b1) {
                Err(k) => (m1, Err(k)),
                Ok(m2) => match spec_ram_write(m2, base + 2, b2) {
                    Err(k) => (m2, Err(k)),
                    Ok(m3) => match spec_ram_write(m3, base + 3, b3) {
                        Err(k) => (m3, Err(k)),
                        Ok(m4) => (m4, Ok(None)),
                    },
                },
            },
        },
    }
}

/// One whole tick on the model: the terminal states are sticky, a missing
/// assembly parks the machine Idle, the instruction index one past the end
/// finishes it, a larger one is an address fault; otherwise the current
/// instruction executes, an error moves the machine to Error, and on a
/// fall-through the program counter advances by one through the register
/// write path.
pub open spec fn spec_step(m: VmModel, unary: u32, fmt: Seq<char>) -> (
    VmModel,
    Result<VMStatus, RuntimeErrorKind>,
) {
    if m.status == VMStatus::Finished || m.status == VMStatus::Error {
        (m, Ok(m.status))
    } else {
        match m.assembly {
            None => (VmModel { status: VMStatus::Idle, ..m }, Ok(VMStatus::Idle)),
            Some(am) => {
                if m.pc == am.instructions.len() {
                    (VmModel { status: VMStatus::Finished, ..m }, Ok(VMStatus::Finished))
                } else if m.pc > am.instructions.len() {
                    (
                        VmModel { status: VMStatus::Error, ..m },
                        Err(RuntimeErrorKind::InvalidAddress { address: m.pc as usize }),
                    )
                } else {
                    let (op, args) = am.instructions[m.pc];
                    let (m2, r) = spec_exec_instr(m, op, args, unary, fmt);
                    match r {
                        Err(k) => (VmModel { status: VMStatus::Error, ..m2 }, Err(k)),
                        Ok(os) => {
                            let st = match os {
                                Some(s) => s,
                                None => VMStatus::Running,
                            };
                            let m3 = VmModel { status: st, ..m2 };
                            if (st == VMStatus::Running || st == VMStatus::Yield) && m2.pc == m.pc {
                                match spec_write_reg(
                                    m3,
                                    RegisterKind::ProgramCounter,
                                    bits_of_u64((m.pc + 1) as u64),
                                ) {
                                    Ok(m4) => (m4, Ok(st)),
                                    Err(_) => (m3, Ok(st)),
                                }
                            } else {
                                (m3, Ok(st))
                            }
                        },
                    }
                }
            },
        }
    }
}

/// Whether an executed instruction's outcome is the specified one, for the
/// given host oracle values.
pub open spec fn exec_matches(
    pre: VmModel,
    post: VmModel,
    op: Operation,
    args: Seq<Argument>,
    r: Result<Option<VMStatus>, RuntimeError>,
    unary: u32,
    fmt: Seq<char>,
) -> bool {
    let (pm, pr) = spec_exec_instr(pre, op, args, unary, fmt);
    &&& post == pm
    &&& match (r, pr) {
        (Ok(a), Ok(b)) => a == b,
        (Err(e), Err(k)) => e.kind == k,
        _ => false,
    }
}

/// Whether a tick's outcome is the specified one, for the given host
/// oracle values.
pub open spec fn tick_matches(
    pre: VmModel,
    post: VmModel,
    r: Result<VMStatus, RuntimeError>,
    unary: u32,
    fmt: Seq<char>,
) -> bool {
    let (pm, pr) = spec_step(pre, unary, fmt);
    &&& post == pm
    &&& match (r, pr) {
        (Ok(a), Ok(b)) => a == b,
        (Err(e), Err(k)) => e.kind == k,
        _ => false,
    }
}


/// The comparison an opcode applies, on bit patterns.
fn cmp_values(op: Operation, a: u32, b: u32) -> (r: bool)
    ensures
        r == spec_cmp(op, a, b),
{
    match op {
        Operation::Beq | Operation::Beqz | Operation::SeqOp | Operation::Seqz => crate::float_bits::float_eq(a, b),
        Operation::Bge | Operation::Bgez | Operation::Sge | Operation::Sgez => crate::float_bits::float_le(b, a),
        Operation::Bgt | Operation::Bgtz | Operation::Sgt | Operation::Sgtz => crate::float_bits::float_lt(b, a),
        Operation::Ble | Operation::Blez | Operation::Sle | Operation::Slez => crate::float_bits::float_le(a, b),
        Operation::Blt | Operation::Bltz | Operation::Slt | Operation::Sltz => crate::float_bits::float_lt(a, b),
        Operation::Bne | Operation::Bnez | Operation::Sne | Operation::Snez => !crate::float_bits::float_eq(a, b),
        _ => false,
    }
}

/// The integer result of a bit or logic opcode.
fn bitop_values(op: Operation, ai: i32, bi: i32) -> (r: i32)
    ensures
        r == spec_bitop(op, ai, bi),
{
    match op {
        Operation::And => if ai != 0 && bi != 0 {
            1
        } else {
            0
        },
        Operation::Or => if ai != 0 || bi != 0 {
            1
        } else {
            0
        },
        Operation::Xor => if (ai != 0) != (bi != 0) {
            1
        } else {
            0
        },
        Operation::Nor => if ai == 0 && bi == 0 {
            1
        } else {
            0
        },
        Operation::Andi => ai & bi,
        Operation::Ori => ai | bi,
        Operation::Xori => ai ^ bi,
        Operation::Shr => {
            let sh = (#[verifier::truncate] (bi as u32)) & 31;
            proof {
                assert(sh < 32u32) by (bit_vector)
                    requires
                        sh == (bi as u32) & 31,
                ;
            }
            ai >> sh
        },
        Operation::Shl => {
            let sh = (#[verifier::truncate] (bi as u32)) & 31;
            proof {
                assert(sh < 32u32) by (bit_vector)
                    requires
                        sh == (bi as u32) & 31,
                ;
            }
            ai << sh
        },
        Operation::Ror => {
            let au = #[verifier::truncate] (ai as u32);
            let sh = (#[verifier::truncate] (bi as u32)) & 31;
            proof {
                assert(sh < 32u32) by (bit_vector)
                    requires
                        sh == (bi as u32) & 31,
                ;
            }
            if sh == 0 {
                au as i32
            } else {
                ((au >> sh) | (au << (32 - sh))) as i32
            }
        },
        Operation::Rol => {
            let au = #[verifier::truncate] (ai as u32);
            let sh = (#[verifier::truncate] (bi as u32)) & 31;
            proof {
                assert(sh < 32u32) by (bit_vector)
                    requires
                        sh == (bi as u32) & 31,
                ;
            }
            if sh == 0 {
                au as i32
            } else {
                ((au << sh) | (au >> (32 - sh))) as i32
            }
        },
        _ => 0,
    }
}

impl VM {
    /// The loaded assembly, if any, passed validation under this machine's
    /// limits.
    pub open spec fn loaded_ok(self) -> bool {
        match self.assembly {
            Some(a) => spec_first_fault(a.instructions@, self.limits) is None,
            None => true,
        }
    }

    /// Reads the RAM byte `k` past `base`.
    fn ram_read_off(&self, base: usize, k: usize) -> (r: Result<u8, RuntimeError>)
        requires
            self.wf(),
        ensures
            match r {
                Ok(b) => spec_ram_read(self.model(), base + k) == Ok::<u8, RuntimeErrorKind>(b),
                Err(e) => spec_ram_read(self.model(), base + k) == Err::<u8, RuntimeErrorKind>(
                    e.kind,
                ),
            },
    {
        if base <= usize::MAX - k {
            self.ram_read_at(base + k)
        } else {
            Err(
                RuntimeError::new(
                    "Address is out of bounds".to_owned(),
                    RuntimeErrorKind::InvalidAddress { address: usize::MAX },
                ),
            )
        }
    }

    /// Writes the RAM byte `k` past `base`.
    fn ram_write_off(&mut self, base: usize, k: usize, b: u8) -> (r: Result<(), RuntimeError>)
        requires
            old(self).wf(),
        ensures
            final(self).wf(),
            final(self).assembly == old(self).assembly,
            match r {
                Ok(()) => spec_ram_write(old(self).model(), base + k, b) == Ok::<
                    VmModel,
                    RuntimeErrorKind,
                >(final(self).model()),
                Err(e) => spec_ram_write(old(self).model(), base + k, b) == Err::<
                    VmModel,
                    RuntimeErrorKind,
                >(e.kind) && *final(self) == *old(self),
            },
    {
        if base <= usize::MAX - k {
            self.ram_write_at(base + k, b)
        } else {
            Err(
                RuntimeError::new(
                    "Address is out of bounds".to_owned(),
                    RuntimeErrorKind::InvalidAddress { address: usize::MAX },
                ),
            )
        }
    }

    /// Reads the little-endian integer a load opcode addresses.
    fn load_mem(&self, base: usize, op: Operation) -> (r: Result<i32, RuntimeError>)
        requires
            self.wf(),
            op == Operation::Lb || op == Operation::Lh || op == Operation::Lw,
        ensures
            match r {
                Ok(v) => spec_load_value(self.model(), base as int, op) == Ok::<
                    i32,
                    RuntimeErrorKind,
                >(v),
                Err(e) => spec_load_value(self.model(), base as int, op) == Err::<
                    i32,
                    RuntimeErrorKind,
                >(e.kind),
            },
    {
        let b0 = match self.ram_read_off(base, 0) {
            Ok(b) => b,
            Err(e) => {
                return Err(e);
            },
        };
        match op {
            Operation::Lb => Ok(b0 as i32),
            Operation::Lh => {
                let b1 = match self.ram_read_off(base, 1) {
                    Ok(b) => b,
                    Err(e) => {
                        return Err(e);
                    },
                };
                Ok(((b0 as u32) | ((b1 as u32) << 8u32)) as i32)
            },
            _ => {
                let b1 = match self.ram_read_off(base, 1) {
                    Ok(b) => b,
                    Err(e) => {
                        return Err(e);
                    },
                };
                let b2 = match self.ram_read_off(base, 2) {
                    Ok(b) => b,
                    Err(e) => {
                        return Err(e);
                    },
                };
                let b3 = match self.ram_read_off(base, 3) {
                    Ok(b) => b,
                    Err(e) => {
                        return Err(e);
                    },
                };
                Ok(
                    ((b0 as u32) | ((b1 as u32) << 8u32) | ((b2 as u32) << 16u32) | ((b3 as u32)
                        << 24u32)) as i32,
                )
            },
        }
    }

    /// Writes the low bytes of `v` where a store opcode addresses them,
    /// one byte at a time.
    fn store_mem(&mut self, base: usize, op: Operation, v: i32) -> (r: Result<
        Option<VMStatus>,
        RuntimeError,
    >)
        requires
            old(self).wf(),
            op == Operation::Sb || op == Operation::Sh || op == Operation::Sw,
        ensures
            final(self).wf(),
            final(self).assembly == old(self).assembly,
            ({
                let (pm, pr) = spec_store_value(old(self).model(), base as int, op, v);
                &&& final(self).model() == pm
                &&& match (r, pr) {
                    (Ok(a), Ok(b)) => a == b,
                    (Err(e), Err(k)) => e.kind == k,
                    _ => false,
                }
            }),
    {
        let u = v as u32;
        let b0 = (u & 0xff) as u8;
        let b1 = ((u >> 8u32) & 0xff) as u8;
        let b2 = ((u >> 16u32) & 0xff) as u8;
        let b3 = ((u >> 24u32) & 0xff) as u8;
        if let Err(e) = self.ram_write_off(base, 0, b0) {
            return Err(e);
        }
        match op {
            Operation::Sb => Ok(None),
            Operation::Sh => {
                if let Err(e) = self.ram_write_off(base, 1, b1) {
                    return Err(e);
                }
                Ok(None)
            },
            _ => {
                if let Err(e) = self.ram_write_off(base, 1, b1) {
                    return Err(e);
                }
                if let Err(e) = self.ram_write_off(base, 2, b2) {
                    return Err(e);
                }
                if let Err(e) = self.ram_write_off(base, 3, b3) {
                    return Err(e);
                }
                Ok(None)
            },
        }
    }

    /// Collects the null-terminated bytes starting at `base`.
    fn read_cstring(&self, base: usize) -> (r: Vec<u8>)
        requires
            self.wf(),
        ensures
            r@ == spec_cstring(self.model(), base as int),
    {
        let mut out: Vec<u8> = Vec::new();
        let mut off: usize = base;
        loop
            invariant
                self.wf(),
                base <= off,
                spec_cstring(self.model(), base as int) == out@ + spec_cstring(
                    self.model(),
                    off as int,
                ),
            ensures
                spec_cstring(self.model(), base as int) == out@,
            decreases self.limits.ram_length - off,
        {
            if off >= self.limits.ram_length {
                proof {
                    assert(spec_cstring(self.model(), off as int) =~= Seq::<u8>::empty());
                    assert(out@ + Seq::<u8>::empty() =~= out@);
                }
                break ;
            }
            let b = if off >= self.ram.data.len() {
                0
            } else {
                self.ram.data[off]
            };
            proof {
                assert(b == spec_ram_byte(self.model(), off as int));
            }
            if b == 0 {
                proof {
                    assert(spec_cstring(self.model(), off as int) =~= Seq::<u8>::empty());
                    assert(out@ + Seq::<u8>::empty() =~= out@);
                }
                break ;
            }
            let ghost outpre = out@;
            out.push(b);
            proof {
                assert(outpre + (seq![b] + spec_cstring(self.model(), off as int + 1)) =~= out@
                    + spec_cstring(self.model(), off as int + 1));
            }
            off += 1;
        }
        out
    }
}


fn type_error() -> (r: RuntimeError)
    ensures
        r.kind == RuntimeErrorKind::InvalidType,
{
    RuntimeError::new("Expected register".to_owned(), RuntimeErrorKind::InvalidType)
}

impl VM {
    /// Writes the destination register and reports the outcome.
    fn finish_write(&mut self, d: RegisterKind, v: u32) -> (r: Result<
        Option<VMStatus>,
        RuntimeError,
    >)
        requires
            old(self).wf(),
        ensures
            final(self).wf(),
            final(self).assembly == old(self).assembly,
            match spec_write_reg(old(self).model(), d, v) {
                Ok(m2) => (r matches Ok(os) && os is None) && final(self).model() == m2,
                Err(k) => (r matches Err(e) && e.kind == k) && *final(self) == *old(self),
            },
    {
        match self.write_register(d, v) {
            Ok(()) => Ok(None),
            Err(e) => Err(e),
        }
    }
    fn ex_arith(&mut self, op: Operation, args: &Vec<Argument>) -> (r: Result<
        Option<VMStatus>,
        RuntimeError,
    >)
        requires
            old(self).wf(),
            spec_shape_ok(op, args@),
            op == Operation::Add || op == Operation::Sub || op == Operation::Mul || op
                == Operation::Div || op == Operation::Mod,
        ensures
            final(self).wf(),
            final(self).assembly == old(self).assembly,
            exists|u: u32, f: Seq<char>|
                #[trigger] exec_matches(old(self).model(), final(self).model(), op, args@, r, u, f),
    {
        let d = match &args[0] {
            Argument::Register { register } => *register,
            _ => {
                let rr: Result<Option<VMStatus>, RuntimeError> = Err(type_error());
                proof {
                    assert(exec_matches(
                        old(self).model(),
                        self.model(),
                        op,
                        args@,
                        rr,
                        0u32,
                        Seq::<char>::empty(),
                    ));
                }
                return rr;
            },
        };
        let a = match self.argument_value(&args[1]) {
            Ok(v) => v,
            Err(e) => {
                let rr: Result<Option<VMStatus>, RuntimeError> = Err(e);
                proof {
                    assert(exec_matches(
                        old(self).model(),
                        self.model(),
                        op,
                        args@,
                        rr,
                        0u32,
                        Seq::<char>::empty(),
                    ));
                }
                return rr;
            },
        };
        let b = match self.argument_value(&args[2]) {
            Ok(v) => v,
            Err(e) => {
                let rr: Result<Option<VMStatus>, RuntimeError> = Err(e);
                proof {
                    assert(exec_matches(
                        old(self).model(),
                        self.model(),
                        op,
                        args@,
                        rr,
                        0u32,
                        Seq::<char>::empty(),
                    ));
                }
                return rr;
            },
        };
        if (matches!(op, Operation::Div) || matches!(op, Operation::Mod))
            && crate::float_bits::float_eq(b, ZERO_BITS) {
            let rr: Result<Option<VMStatus>, RuntimeError> = Err(
                RuntimeError::new("Divide by zero".to_owned(), RuntimeErrorKind::DividedByZero),
            );
                proof {
                    assert(exec_matches(
                        old(self).model(),
                        self.model(),
                        op,
                        args@,
                        rr,
                        0u32,
                        Seq::<char>::empty(),
                    ));
                }
            return rr;
        }
        let v = match op {
            Operation::Add => crate::float_bits::float_add(a, b),
            Operation::Sub => crate::float_bits::float_sub(a, b),
            Operation::Mul => crate::float_bits::float_mul(a, b),
            Operation::Div => crate::float_bits::float_div(a, b),
            _ => crate::float_bits::float_rem(a, b),
        };
        let rr = self.finish_write(d, v);
        proof {
            assert(exec_matches(
                old(self).model(),
                self.model(),
                op,
                args@,
                rr,
                0u32,
                Seq::<char>::empty(),
            ));
        }
        rr
    }
    fn ex_mov(&mut self, op: Operation, args: &Vec<Argument>) -> (r: Result<
        Option<VMStatus>,
        RuntimeError,
    >)
        requires
            old(self).wf(),
            spec_shape_ok(op, args@),
            op == Operation::Mov,
        ensures
            final(self).wf(),
            final(self).assembly == old(self).assembly,
            exists|u: u32, f: Seq<char>|
                #[trigger] exec_matches(old(self).model(), final(self).model(), op, args@, r, u, f),
    {
        let d = match &args[0] {
            Argument::Register { register } => *register,
            _ => {
                let rr: Result<Option<VMStatus>, RuntimeError> = Err(type_error());
                proof {
                    assert(exec_matches(
                        old(self).model(),
                        self.model(),
                        op,
                        args@,
                        rr,
                        0u32,
                        Seq::<char>::empty(),
                    ));
                }
                return rr;
            },
        };
        let v = match self.argument_value(&args[1]) {
            Ok(v) => v,
            Err(e) => {
                let rr: Result<Option<VMStatus>, RuntimeError> = Err(e);
                proof {
                    assert(exec_matches(
                        old(self).model(),
                        self.model(),
                        op,
                        args@,
                        rr,
                        0u32,
                        Seq::<char>::empty(),
                    ));
                }
                return rr;
            },
        };
        let rr = self.finish_write(d, v);
        proof {
            assert(exec_matches(
                old(self).model(),
                self.model(),
                op,
                args@,
                rr,
                0u32,
                Seq::<char>::empty(),
            ));
        }
        rr
    }
    fn ex_jmp(&mut self, op: Operation, args: &Vec<Argument>) -> (r: Result<
        Option<VMStatus>,
        RuntimeError,
    >)
        requires
            old(self).wf(),
            spec_shape_ok(op, args@),
            op == Operation::Jmp,
        ensures
            final(self).wf(),
            final(self).assembly == old(self).assembly,
            exists|u: u32, f: Seq<char>|
                #[trigger] exec_matches(old(self).model(), final(self).model(), op, args@, r, u, f),
    {
        let a = match self.argument_value(&args[0]) {
            Ok(v) => v,
            Err(e) => {
                let rr: Result<Option<VMStatus>, RuntimeError> = Err(e);
                proof {
                    assert(exec_matches(
                        old(self).model(),
                        self.model(),
                        op,
                        args@,
                        rr,
                        0u32,
                        Seq::<char>::empty(),
                    ));
                }
                return rr;
            },
        };
        let rr = match self.write_register(RegisterKind::ProgramCounter, a) {
            Ok(()) => Ok(None),
            Err(e) => Err(e),
        };
        proof {
            assert(exec_matches(
                old(self).model(),
                self.model(),
                op,
                args@,
                rr,
                0u32,
                Seq::<char>::empty(),
            ));
        }
        rr
    }
    fn ex_branch3(&mut self, op: Operation, args: &Vec<Argument>) -> (r: Result<
        Option<VMStatus>,
        RuntimeError,
    >)
        requires
            old(self).wf(),
            spec_shape_ok(op, args@),
            op == Operation::Beq || op == Operation::Bge || op == Operation::Bgt || op
                == Operation::Ble || op == Operation::Blt || op == Operation::Bne,
        ensures
            final(self).wf(),
            final(self).assembly == old(self).assembly,
            exists|u: u32, f: Seq<char>|
                #[trigger] exec_matches(old(self).model(), final(self).model(), op, args@, r, u, f),
    {
        let a = match self.argument_value(&args[0]) {
            Ok(v) => v,
            Err(e) => {
                let rr: Result<Option<VMStatus>, RuntimeError> = Err(e);
                proof {
                    assert(exec_matches(
                        old(self).model(),
                        self.model(),
                        op,
                        args@,
                        rr,
                        0u32,
                        Seq::<char>::empty(),
                    ));
                }
                return rr;
            },
        };
        let b = match self.argument_value(&args[1]) {
            Ok(v) => v,
            Err(e) => {
                let rr: Result<Option<VMStatus>, RuntimeError> = Err(e);
                proof {
                    assert(exec_matches(
                        old(self).model(),
                        self.model(),
                        op,
                        args@,
                        rr,
                        0u32,
                        Seq::<char>::empty(),
                    ));
                }
                return rr;
            },
        };
        if !cmp_values(op, a, b) {
            let rr: Result<Option<VMStatus>, RuntimeError> = Ok(None);
                proof {
                    assert(exec_matches(
                        old(self).model(),
                        self.model(),
                        op,
                        args@,
                        rr,
                        0u32,
                        Seq::<char>::empty(),
                    ));
                }
            return rr;
        }
        let t = match self.argument_value(&args[2]) {
            Ok(v) => v,
            Err(e) => {
                let rr: Result<Option<VMStatus>, RuntimeError> = Err(e);
                proof {
                    assert(exec_matches(
                        old(self).model(),
                        self.model(),
                        op,
                        args@,
                        rr,
                        0u32,
                        Seq::<char>::empty(),
                    ));
                }
                return rr;
            },
        };
        let rr = match self.write_register(RegisterKind::ProgramCounter, t) {
            Ok(()) => Ok(None),
            Err(e) => Err(e),
        };
        proof {
            assert(exec_matches(
                old(self).model(),
                self.model(),
                op,
                args@,
                rr,
                0u32,
                Seq::<char>::empty(),
            ));
        }
        rr
    }
    fn ex_branchz(&mut self, op: Operation, args: &Vec<Argument>) -> (r: Result<
        Option<VMStatus>,
        RuntimeError,
    >)
        requires
            old(self).wf(),
            spec_shape_ok(op, args@),
            op == Operation::Beqz || op == Operation::Bgez || op == Operation::Bgtz || op
                == Operation::Blez || op == Operation::Bltz || op == Operation::Bnez,
        ensures
            final(self).wf(),
            final(self).assembly == old(self).assembly,
            exists|u: u32, f: Seq<char>|
                #[trigger] exec_matches(old(self).model(), final(self).model(), op, args@, r, u, f),
    {
        let a = match self.argument_value(&args[0]) {
            Ok(v) => v,
            Err(e) => {
                let rr: Result<Option<VMStatus>, RuntimeError> = Err(e);
                proof {
                    assert(exec_matches(
                        old(self).model(),
                        self.model(),
                        op,
                        args@,
                        rr,
                        0u32,
                        Seq::<char>::empty(),
                    ));
                }
                return rr;
            },
        };
        if !cmp_values(op, a, ZERO_BITS) {
            let rr: Result<Option<VMStatus>, RuntimeError> = Ok(None);
                proof {
                    assert(exec_matches(
                        old(self).model(),
                        self.model(),
                        op,
                        args@,
                        rr,
                        0u32,
                        Seq::<char>::empty(),
                    ));
                }
            return rr;
        }
        let t = match self.argument_value(&args[1]) {
            Ok(v) => v,
            Err(e) => {
                let rr: Result<Option<VMStatus>, RuntimeError> = Err(e);
                proof {
                    assert(exec_matches(
                        old(self).model(),
                        self.model(),
                        op,
                        args@,
                        rr,
                        0u32,
                        Seq::<char>::empty(),
                    ));
                }
                return rr;
            },
        };
        let rr = match self.write_register(RegisterKind::ProgramCounter, t) {
            Ok(()) => Ok(None),
            Err(e) => Err(e),
        };
        proof {
            assert(exec_matches(
                old(self).model(),
                self.model(),
                op,
                args@,
                rr,
                0u32,
                Seq::<char>::empty(),
            ));
        }
        rr
    }
    fn ex_set3(&mut self, op: Operation, args: &Vec<Argument>) -> (r: Result<
        Option<VMStatus>,
        RuntimeError,
    >)
        requires
            old(self).wf(),
            spec_shape_ok(op, args@),
            op == Operation::SeqOp || op == Operation::Sge || op == Operation::Sgt || op
                == Operation::Sle || op == Operation::Slt || op == Operation::Sne,
        ensures
            final(self).wf(),
            final(self).assembly == old(self).assembly,
            exists|u: u32, f: Seq<char>|
                #[trigger] exec_matches(old(self).model(), final(self).model(), op, args@, r, u, f),
    {
        let d = match &args[0] {
            Argument::Register { register } => *register,
            _ => {
                let rr: Result<Option<VMStatus>, RuntimeError> = Err(type_error());
                proof {
                    assert(exec_matches(
                        old(self).model(),
                        self.model(),
                        op,
                        args@,
                        rr,
                        0u32,
                        Seq::<char>::empty(),
                    ));
                }
                return rr;
            },
        };
        let a = match self.argument_value(&args[1]) {
            Ok(v) => v,
            Err(e) => {
                let rr: Result<Option<VMStatus>, RuntimeError> = Err(e);
                proof {
                    assert(exec_matches(
                        old(self).model(),
                        self.model(),
                        op,
                        args@,
                        rr,
                        0u32,
                        Seq::<char>::empty(),
                    ));
                }
                return rr;
            },
        };
        let b = match self.argument_value(&args[2]) {
            Ok(v) => v,
            Err(e) => {
                let rr: Result<Option<VMStatus>, RuntimeError> = Err(e);
                proof {
                    assert(exec_matches(
                        old(self).model(),
                        self.model(),
                        op,
                        args@,
                        rr,
                        0u32,
                        Seq::<char>::empty(),
                    ));
                }
                return rr;
            },
        };
        let v = if cmp_values(op, a, b) {
            ONE_BITS
        } else {
            ZERO_BITS
        };
        let rr = self.finish_write(d, v);
        proof {
            assert(exec_matches(
                old(self).model(),
                self.model(),
                op,
                args@,
                rr,
                0u32,
                Seq::<char>::empty(),
            ));
        }
        rr
    }
    fn ex_setz(&mut self, op: Operation, args: &Vec<Argument>) -> (r: Result<
        Option<VMStatus>,
        RuntimeError,
    >)
        requires
            old(self).wf(),
            spec_shape_ok(op, args@),
            op == Operation::Seqz || op == Operation::Sgez || op == Operation::Sgtz || op
                == Operation::Slez || op == Operation::Sltz || op == Operation::Snez,
        ensures
            final(self).wf(),
            final(self).assembly == old(self).assembly,
            exists|u: u32, f: Seq<char>|
                #[trigger] exec_matches(old(self).model(), final(self).model(), op, args@, r, u, f),
    {
        let d = match &args[0] {
            Argument::Register { register } => *register,
            _ => {
                let rr: Result<Option<VMStatus>, RuntimeError> = Err(type_error());
                proof {
                    assert(exec_matches(
                        old(self).model(),
                        self.model(),
                        op,
                        args@,
                        rr,
                        0u32,
                        Seq::<char>::empty(),
                    ));
                }
                return rr;
            },
        };
        let a = match self.argument_value(&args[1]) {
            Ok(v) => v,
            Err(e) => {
                let rr: Result<Option<VMStatus>, RuntimeError> = Err(e);
                proof {
                    assert(exec_matches(
                        old(self).model(),
                        self.model(),
                        op,
                        args@,
                        rr,
                        0u32,
                        Seq::<char>::empty(),
                    ));
                }
                return rr;
            },
        };
        let v = if cmp_values(op, a, ZERO_BITS) {
            ONE_BITS
        } else {
            ZERO_BITS
        };
        let rr = self.finish_write(d, v);
        proof {
            assert(exec_matches(
                old(self).model(),
                self.model(),
                op,
                args@,
                rr,
                0u32,
                Seq::<char>::empty(),
            ));
        }
        rr
    }
    fn ex_push(&mut self, op: Operation, args: &Vec<Argument>) -> (r: Result<
        Option<VMStatus>,
        RuntimeError,
    >)
        requires
            old(self).wf(),
            spec_shape_ok(op, args@),
            op == Operation::Push,
        ensures
            final(self).wf(),
            final(self).assembly == old(self).assembly,
            exists|u: u32, f: Seq<char>|
                #[trigger] exec_matches(old(self).model(), final(self).model(), op, args@, r, u, f),
    {
        let v = match self.argument_value(&args[0]) {
            Ok(v) => v,
            Err(e) => {
                let rr: Result<Option<VMStatus>, RuntimeError> = Err(e);
                proof {
                    assert(exec_matches(
                        old(self).model(),
                        self.model(),
                        op,
                        args@,
                        rr,
                        0u32,
                        Seq::<char>::empty(),
                    ));
                }
                return rr;
            },
        };
        let rr = match self.push_stack(v) {
            Ok(()) => Ok(None),
            Err(e) => Err(e),
        };
        proof {
            assert(exec_matches(
                old(self).model(),
                self.model(),
                op,
                args@,
                rr,
                0u32,
                Seq::<char>::empty(),
            ));
        }
        rr
    }
    fn ex_pop(&mut self, op: Operation, args: &Vec<Argument>) -> (r: Result<
        Option<VMStatus>,
        RuntimeError,
    >)
        requires
            old(self).wf(),
            spec_shape_ok(op, args@),
            op == Operation::Pop,
        ensures
            final(self).wf(),
            final(self).assembly == old(self).assembly,
            exists|u: u32, f: Seq<char>|
                #[trigger] exec_matches(old(self).model(), final(self).model(), op, args@, r, u, f),
    {
        let d = match &args[0] {
            Argument::Register { register } => *register,
            _ => {
                let rr: Result<Option<VMStatus>, RuntimeError> = Err(type_error());
                proof {
                    assert(exec_matches(
                        old(self).model(),
                        self.model(),
                        op,
                        args@,
                        rr,
                        0u32,
                        Seq::<char>::empty(),
                    ));
                }
                return rr;
            },
        };
        let v = match self.pop_stack() {
            Ok(v) => v,
            Err(e) => {
                let rr: Result<Option<VMStatus>, RuntimeError> = Err(e);
                proof {
                    assert(exec_matches(
                        old(self).model(),
                        self.model(),
                        op,
                        args@,
                        rr,
                        0u32,
                        Seq::<char>::empty(),
                    ));
                }
                return rr;
            },
        };
        let rr = self.finish_write(d, v);
        proof {
            assert(exec_matches(
                old(self).model(),
                self.model(),
                op,
                args@,
                rr,
                0u32,
                Seq::<char>::empty(),
            ));
        }
        rr
    }
    fn ex_peek(&mut self, op: Operation, args: &Vec<Argument>) -> (r: Result<
        Option<VMStatus>,
        RuntimeError,
    >)
        requires
            old(self).wf(),
            spec_shape_ok(op, args@),
            op == Operation::Peek,
        ensures
            final(self).wf(),
            final(self).assembly == old(self).assembly,
            exists|u: u32, f: Seq<char>|
                #[trigger] exec_matches(old(self).model(), final(self).model(), op, args@, r, u, f),
    {
        let d = match &args[0] {
            Argument::Register { register } => *register,
            _ => {
                let rr: Result<Option<VMStatus>, RuntimeError> = Err(type_error());
                proof {
                    assert(exec_matches(
                        old(self).model(),
                        self.model(),
                        op,
                        args@,
                        rr,
                        0u32,
                        Seq::<char>::empty(),
                    ));
                }
                return rr;
            },
        };
        let v = match self.peek_stack() {
            Ok(v) => v,
            Err(e) => {
                let rr: Result<Option<VMStatus>, RuntimeError> = Err(e);
                proof {
                    assert(exec_matches(
                        old(self).model(),
                        self.model(),
                        op,
                        args@,
                        rr,
                        0u32,
                        Seq::<char>::empty(),
                    ));
                }
                return rr;
            },
        };
        let rr = self.finish_write(d, v);
        proof {
            assert(exec_matches(
                old(self).model(),
                self.model(),
                op,
                args@,
                rr,
                0u32,
                Seq::<char>::empty(),
            ));
        }
        rr
    }
    fn ex_ret(&mut self, op: Operation, args: &Vec<Argument>) -> (r: Result<
        Option<VMStatus>,
        RuntimeError,
    >)
        requires
            old(self).wf(),
            spec_shape_ok(op, args@),
            op == Operation::Ret,
        ensures
            final(self).wf(),
            final(self).assembly == old(self).assembly,
            exists|u: u32, f: Seq<char>|
                #[trigger] exec_matches(old(self).model(), final(self).model(), op, args@, r, u, f),
    {
        let v = match self.pop_stack() {
            Ok(v) => v,
            Err(e) => {
                let rr: Result<Option<VMStatus>, RuntimeError> = Err(e);
                proof {
                    assert(exec_matches(
                        old(self).model(),
                        self.model(),
                        op,
                        args@,
                        rr,
                        0u32,
                        Seq::<char>::empty(),
                    ));
                }
                return rr;
            },
        };
        let rr = match self.write_register(RegisterKind::ProgramCounter, v) {
            Ok(()) => Ok(None),
            Err(e) => Err(e),
        };
        proof {
            assert(exec_matches(
                old(self).model(),
                self.model(),
                op,
                args@,
                rr,
                0u32,
                Seq::<char>::empty(),
            ));
        }
        rr
    }
    fn ex_call(&mut self, op: Operation, args: &Vec<Argument>) -> (r: Result<
        Option<VMStatus>,
        RuntimeError,
    >)
        requires
            old(self).wf(),
            spec_shape_ok(op, args@),
            op == Operation::Call,
        ensures
            final(self).wf(),
            final(self).assembly == old(self).assembly,
            exists|u: u32, f: Seq<char>|
                #[trigger] exec_matches(old(self).model(), final(self).model(), op, args@, r, u, f),
    {
        let t = match self.argument_value(&args[0]) {
            Ok(v) => v,
            Err(e) => {
                let rr: Result<Option<VMStatus>, RuntimeError> = Err(e);
                proof {
                    assert(exec_matches(
                        old(self).model(),
                        self.model(),
                        op,
                        args@,
                        rr,
                        0u32,
                        Seq::<char>::empty(),
                    ));
                }
                return rr;
            },
        };
        let ra = crate::float_bits::float_add(
            crate::float_bits::float_of_u64(self.pc as u64),
            ONE_BITS,
        );
        if let Err(e) = self.push_stack(ra) {
            let rr: Result<Option<VMStatus>, RuntimeError> = Err(e);
                proof {
                    assert(exec_matches(
                        old(self).model(),
                        self.model(),
                        op,
                        args@,
                        rr,
                        0u32,
                        Seq::<char>::empty(),
                    ));
                }
            return rr;
        }
        let rr = match self.write_register(RegisterKind::ProgramCounter, t) {
            Ok(()) => Ok(None),
            Err(e) => Err(e),
        };
        proof {
            assert(exec_matches(
                old(self).model(),
                self.model(),
                op,
                args@,
                rr,
                0u32,
                Seq::<char>::empty(),
            ));
        }
        rr
    }
    fn ex_bits(&mut self, op: Operation, args: &Vec<Argument>) -> (r: Result<
        Option<VMStatus>,
        RuntimeError,
    >)
        requires
            old(self).wf(),
            spec_shape_ok(op, args@),
            op == Operation::And || op == Operation::Or || op == Operation::Xor || op
                == Operation::Nor || op == Operation::Andi || op == Operation::Ori || op
                == Operation::Xori || op == Operation::Shr || op == Operation::Shl || op
                == Operation::Ror || op == Operation::Rol,
        ensures
            final(self).wf(),
            final(self).assembly == old(self).assembly,
            exists|u: u32, f: Seq<char>|
                #[trigger] exec_matches(old(self).model(), final(self).model(), op, args@, r, u, f),
    {
        let d = match &args[0] {
            Argument::Register { register } => *register,
            _ => {
                let rr: Result<Option<VMStatus>, RuntimeError> = Err(type_error());
                proof {
                    assert(exec_matches(
                        old(self).model(),
                        self.model(),
                        op,
                        args@,
                        rr,
                        0u32,
                        Seq::<char>::empty(),
                    ));
                }
                return rr;
            },
        };
        let a = match self.argument_value(&args[1]) {
            Ok(v) => v,
            Err(e) => {
                let rr: Result<Option<VMStatus>, RuntimeError> = Err(e);
                proof {
                    assert(exec_matches(
                        old(self).model(),
                        self.model(),
                        op,
                        args@,
                        rr,
                        0u32,
                        Seq::<char>::empty(),
                    ));
                }
                return rr;
            },
        };
        let b = match self.argument_value(&args[2]) {
            Ok(v) => v,
            Err(e) => {
                let rr: Result<Option<VMStatus>, RuntimeError> = Err(e);
                proof {
                    assert(exec_matches(
                        old(self).model(),
                        self.model(),
                        op,
                        args@,
                        rr,
                        0u32,
                        Seq::<char>::empty(),
                    ));
                }
                return rr;
            },
        };
        let ai = crate::float_bits::float_to_i32(a);
        let bi = crate::float_bits::float_to_i32(b);
        let v = crate::float_bits::float_of_i32(bitop_values(op, ai, bi));
        let rr = self.finish_write(d, v);
        proof {
            assert(exec_matches(
                old(self).model(),
                self.model(),
                op,
                args@,
                rr,
                0u32,
                Seq::<char>::empty(),
            ));
        }
        rr
    }
    fn ex_unary<H: HostFloat>(&mut self, host: &mut H, op: Operation, args: &Vec<Argument>) -> (r: Result<
        Option<VMStatus>,
        RuntimeError,
    >)
        requires
            old(self).wf(),
            spec_shape_ok(op, args@),
            op == Operation::Sqrt || op == Operation::Trunc || op == Operation::Ceil || op
                == Operation::Floor || op == Operation::Abs || op == Operation::Exp || op
                == Operation::Inf || op == Operation::Nan,
        ensures
            final(self).wf(),
            final(self).assembly == old(self).assembly,
            exists|u: u32, f: Seq<char>|
                #[trigger] exec_matches(old(self).model(), final(self).model(), op, args@, r, u, f),
    {
        let d = match &args[0] {
            Argument::Register { register } => *register,
            _ => {
                let rr: Result<Option<VMStatus>, RuntimeError> = Err(type_error());
                proof {
                    assert(exec_matches(
                        old(self).model(),
                        self.model(),
                        op,
                        args@,
                        rr,
                        0u32,
                        Seq::<char>::empty(),
                    ));
                }
                return rr;
            },
        };
        let a = match self.argument_value(&args[1]) {
            Ok(v) => v,
            Err(e) => {
                let rr: Result<Option<VMStatus>, RuntimeError> = Err(e);
                proof {
                    assert(exec_matches(
                        old(self).model(),
                        self.model(),
                        op,
                        args@,
                        rr,
                        0u32,
                        Seq::<char>::empty(),
                    ));
                }
                return rr;
            },
        };
        let v = match op {
            Operation::Sqrt => host.sqrt(a),
            Operation::Exp => host.exp(a),
            Operation::Trunc => crate::float_bits::float_trunc(a),
            Operation::Ceil => crate::float_bits::float_ceil(a),
            Operation::Floor => crate::float_bits::float_floor(a),
            Operation::Abs => crate::float_bits::float_abs(a),
            Operation::Inf => if crate::float_bits::float_is_inf(a) {
                ONE_BITS
            } else {
                ZERO_BITS
            },
            _ => if crate::float_bits::float_is_nan(a) {
                ONE_BITS
            } else {
                ZERO_BITS
            },
        };
        let rr = self.finish_write(d, v);
        proof {
            assert(exec_matches(
                old(self).model(),
                self.model(),
                op,
                args@,
                rr,
                v,
                Seq::<char>::empty(),
            ));
        }
        rr
    }
    fn ex_mml<H: HostFloat>(&mut self, host: &mut H, op: Operation, args: &Vec<Argument>) -> (r: Result<
        Option<VMStatus>,
        RuntimeError,
    >)
        requires
            old(self).wf(),
            spec_shape_ok(op, args@),
            op == Operation::Max || op == Operation::Min || op == Operation::Log,
        ensures
            final(self).wf(),
            final(self).assembly == old(self).assembly,
            exists|u: u32, f: Seq<char>|
                #[trigger] exec_matches(old(self).model(), final(self).model(), op, args@, r, u, f),
    {
        let d = match &args[0] {
            Argument::Register { register } => *register,
            _ => {
                let rr: Result<Option<VMStatus>, RuntimeError> = Err(type_error());
                proof {
                    assert(exec_matches(
                        old(self).model(),
                        self.model(),
                        op,
                        args@,
                        rr,
                        0u32,
                        Seq::<char>::empty(),
                    ));
                }
                return rr;
            },
        };
        let a = match self.argument_value(&args[1]) {
            Ok(v) => v,
            Err(e) => {
                let rr: Result<Option<VMStatus>, RuntimeError> = Err(e);
                proof {
                    assert(exec_matches(
                        old(self).model(),
                        self.model(),
                        op,
                        args@,
                        rr,
                        0u32,
                        Seq::<char>::empty(),
                    ));
                }
                return rr;
            },
        };
        let b = match self.argument_value(&args[2]) {
            Ok(v) => v,
            Err(e) => {
                let rr: Result<Option<VMStatus>, RuntimeError> = Err(e);
                proof {
                    assert(exec_matches(
                        old(self).model(),
                        self.model(),
                        op,
                        args@,
                        rr,
                        0u32,
                        Seq::<char>::empty(),
                    ));
                }
                return rr;
            },
        };
        let v = match op {
            Operation::Max => crate::float_bits::float_max(a, b),
            Operation::Min => crate::float_bits::float_min(a, b),
            _ => host.log(b, a),
        };
        let rr = self.finish_write(d, v);
        proof {
            assert(exec_matches(
                old(self).model(),
                self.model(),
                op,
                args@,
                rr,
                v,
                Seq::<char>::empty(),
            ));
        }
        rr
    }
    fn ex_load(&mut self, op: Operation, args: &Vec<Argument>) -> (r: Result<
        Option<VMStatus>,
        RuntimeError,
    >)
        requires
            old(self).wf(),
            spec_shape_ok(op, args@),
            op == Operation::Lb || op == Operation::Lh || op == Operation::Lw,
            old(self).assembly is Some,
        ensures
            final(self).wf(),
            final(self).assembly == old(self).assembly,
            exists|u: u32, f: Seq<char>|
                #[trigger] exec_matches(old(self).model(), final(self).model(), op, args@, r, u, f),
    {
        let d = match &args[0] {
            Argument::Register { register } => *register,
            _ => {
                let rr: Result<Option<VMStatus>, RuntimeError> = Err(type_error());
                proof {
                    assert(exec_matches(
                        old(self).model(),
                        self.model(),
                        op,
                        args@,
                        rr,
                        0u32,
                        Seq::<char>::empty(),
                    ));
                }
                return rr;
            },
        };
        let av = match self.argument_value(&args[1]) {
            Ok(v) => v,
            Err(e) => {
                let rr: Result<Option<VMStatus>, RuntimeError> = Err(e);
                proof {
                    assert(exec_matches(
                        old(self).model(),
                        self.model(),
                        op,
                        args@,
                        rr,
                        0u32,
                        Seq::<char>::empty(),
                    ));
                }
                return rr;
            },
        };
        let css = match &self.assembly {
            Some(a) => a.code_section_size,
            None => vstd::pervasive::unreached(),
        };
        let a64 = crate::float_bits::float_to_u64(av);
        let addr: usize = if a64 > usize::MAX as u64 {
            usize::MAX
        } else {
            a64 as usize
        };
        let base: usize = if addr >= css {
            addr - css
        } else {
            0
        };
        let lv = match self.load_mem(base, op) {
            Ok(v) => v,
            Err(e) => {
                let rr: Result<Option<VMStatus>, RuntimeError> = Err(e);
                proof {
                    assert(exec_matches(
                        old(self).model(),
                        self.model(),
                        op,
                        args@,
                        rr,
                        0u32,
                        Seq::<char>::empty(),
                    ));
                }
                return rr;
            },
        };
        let v = crate::float_bits::float_of_i32(lv);
        let rr = self.finish_write(d, v);
        proof {
            assert(exec_matches(
                old(self).model(),
                self.model(),
                op,
                args@,
                rr,
                0u32,
                Seq::<char>::empty(),
            ));
        }
        rr
    }
    fn ex_store(&mut self, op: Operation, args: &Vec<Argument>) -> (r: Result<
        Option<VMStatus>,
        RuntimeError,
    >)
        requires
            old(self).wf(),
            spec_shape_ok(op, args@),
            op == Operation::Sb || op == Operation::Sh || op == Operation::Sw,
            old(self).assembly is Some,
        ensures
            final(self).wf(),
            final(self).assembly == old(self).assembly,
            exists|u: u32, f: Seq<char>|
                #[trigger] exec_matches(old(self).model(), final(self).model(), op, args@, r, u, f),
    {
        let av = match self.argument_value(&args[0]) {
            Ok(v) => v,
            Err(e) => {
                let rr: Result<Option<VMStatus>, RuntimeError> = Err(e);
                proof {
                    assert(exec_matches(
                        old(self).model(),
                        self.model(),
                        op,
                        args@,
                        rr,
                        0u32,
                        Seq::<char>::empty(),
                    ));
                }
                return rr;
            },
        };
        let vv = match self.argument_value(&args[1]) {
            Ok(v) => v,
            Err(e) => {
                let rr: Result<Option<VMStatus>, RuntimeError> = Err(e);
                proof {
                    assert(exec_matches(
                        old(self).model(),
                        self.model(),
                        op,
                        args@,
                        rr,
                        0u32,
                        Seq::<char>::empty(),
                    ));
                }
                return rr;
            },
        };
        let css = match &self.assembly {
            Some(a) => a.code_section_size,
            None => vstd::pervasive::unreached(),
        };
        let a64 = crate::float_bits::float_to_u64(av);
        let addr: usize = if a64 > usize::MAX as u64 {
            usize::MAX
        } else {
            a64 as usize
        };
        let base: usize = if addr >= css {
            addr - css
        } else {
            0
        };
        let vi = crate::float_bits::float_to_i32(vv);
        let rr = self.store_mem(base, op, vi);
        proof {
            assert(exec_matches(
                old(self).model(),
                self.model(),
                op,
                args@,
                rr,
                0u32,
                Seq::<char>::empty(),
            ));
        }
        rr
    }
    fn ex_dbg<H: HostFloat>(&mut self, host: &mut H, op: Operation, args: &Vec<Argument>) -> (r: Result<
        Option<VMStatus>,
        RuntimeError,
    >)
        requires
            old(self).wf(),
            spec_shape_ok(op, args@),
            op == Operation::Dbg,
        ensures
            final(self).wf(),
            final(self).assembly == old(self).assembly,
            exists|u: u32, f: Seq<char>|
                #[trigger] exec_matches(old(self).model(), final(self).model(), op, args@, r, u, f),
    {
        if !self.dbg_enabled {
            let rr: Result<Option<VMStatus>, RuntimeError> = Ok(None);
                proof {
                    assert(exec_matches(
                        old(self).model(),
                        self.model(),
                        op,
                        args@,
                        rr,
                        0u32,
                        Seq::<char>::empty(),
                    ));
                }
            return rr;
        }
        let v = match self.argument_value(&args[0]) {
            Ok(v) => v,
            Err(e) => {
                let rr: Result<Option<VMStatus>, RuntimeError> = Err(e);
                proof {
                    assert(exec_matches(
                        old(self).model(),
                        self.model(),
                        op,
                        args@,
                        rr,
                        0u32,
                        Seq::<char>::empty(),
                    ));
                }
                return rr;
            },
        };
        let text = host.format(v);
        let ghost f = text@;
        let ghost lines0 = self.dbg_lines@;
        self.dbg_lines.push(text);
        let rr: Result<Option<VMStatus>, RuntimeError> = Ok(None);
        proof {
            assert(self.dbg_lines@.map_values(|t: String| t@) =~= lines0.map_values(
                |t: String| t@,
            ).push(f));
            assert(self.model() =~= (VmModel {
                dbg: old(self).model().dbg.push(f),
                ..old(self).model()
            }));
            assert(exec_matches(old(self).model(), self.model(), op, args@, rr, 0u32, f));
        }
        rr
    }
    fn ex_dbgs<H: HostFloat>(&mut self, host: &mut H, op: Operation, args: &Vec<Argument>) -> (r: Result<
        Option<VMStatus>,
        RuntimeError,
    >)
        requires
            old(self).wf(),
            spec_shape_ok(op, args@),
            op == Operation::Dbgs,
            old(self).assembly is Some,
        ensures
            final(self).wf(),
            final(self).assembly == old(self).assembly,
            exists|u: u32, f: Seq<char>|
                #[trigger] exec_matches(old(self).model(), final(self).model(), op, args@, r, u, f),
    {
        if !self.dbg_enabled {
            let rr: Result<Option<VMStatus>, RuntimeError> = Ok(None);
                proof {
                    assert(exec_matches(
                        old(self).model(),
                        self.model(),
                        op,
                        args@,
                        rr,
                        0u32,
                        Seq::<char>::empty(),
                    ));
                }
            return rr;
        }
        let v = match self.argument_value(&args[0]) {
            Ok(v) => v,
            Err(e) => {
                let rr: Result<Option<VMStatus>, RuntimeError> = Err(e);
                proof {
                    assert(exec_matches(
                        old(self).model(),
                        self.model(),
                        op,
                        args@,
                        rr,
                        0u32,
                        Seq::<char>::empty(),
                    ));
                }
                return rr;
            },
        };
        let css = match &self.assembly {
            Some(a) => a.code_section_size,
            None => vstd::pervasive::unreached(),
        };
        let a64 = crate::float_bits::float_to_u64(v);
        let addr: usize = if a64 > usize::MAX as u64 {
            usize::MAX
        } else {
            a64 as usize
        };
        let base: usize = if addr >= css {
            addr - css
        } else {
            0
        };
        let bytes = self.read_cstring(base);
        let text = crate::text::string_from_utf8_lossy(bytes.as_slice());
        let ghost f = text@;
        let ghost lines0 = self.dbg_lines@;
        self.dbg_lines.push(text);
        let rr: Result<Option<VMStatus>, RuntimeError> = Ok(None);
        proof {
            assert(self.dbg_lines@.map_values(|t: String| t@) =~= lines0.map_values(
                |t: String| t@,
            ).push(f));
            assert(self.model() =~= (VmModel {
                dbg: old(self).model().dbg.push(f),
                ..old(self).model()
            }));
            assert(exec_matches(old(self).model(), self.model(), op, args@, rr, 0u32, f));
        }
        rr
    }

    /// Executes one decoded instruction, as `spec_exec_instr` says for
    /// some host oracle values.
    fn execute_instruction<H: HostFloat>(&mut self, host: &mut H, op: Operation, args: &Vec<
        Argument,
    >) -> (r: Result<Option<VMStatus>, RuntimeError>)
        requires
            old(self).wf(),
            spec_shape_ok(op, args@),
            old(self).assembly is Some,
        ensures
            final(self).wf(),
            final(self).assembly == old(self).assembly,
            exists|u: u32, f: Seq<char>|
                #[trigger] exec_matches(old(self).model(), final(self).model(), op, args@, r, u, f),
    {
        match op {
            Operation::Add | Operation::Sub | Operation::Mul | Operation::Div | Operation::Mod =>
                self.ex_arith(op, args),
            Operation::Mov => self.ex_mov(op, args),
            Operation::Jmp => self.ex_jmp(op, args),
            Operation::Dbg => self.ex_dbg(host, op, args),
            Operation::Dbgs => self.ex_dbgs(host, op, args),
            Operation::Yield => {
                let rr: Result<Option<VMStatus>, RuntimeError> = Ok(Some(VMStatus::Yield));
                proof {
                    assert(exec_matches(
                        old(self).model(),
                        self.model(),
                        op,
                        args@,
                        rr,
                        0u32,
                        Seq::<char>::empty(),
                    ));
                }
                rr
            },
            Operation::Halt => {
                let rr: Result<Option<VMStatus>, RuntimeError> = Ok(Some(VMStatus::Finished));
                proof {
                    assert(exec_matches(
                        old(self).model(),
                        self.model(),
                        op,
                        args@,
                        rr,
                        0u32,
                        Seq::<char>::empty(),
                    ));
                }
                rr
            },
            Operation::Beq | Operation::Bge | Operation::Bgt | Operation::Ble | Operation::Blt
                | Operation::Bne => self.ex_branch3(op, args),
            Operation::Beqz | Operation::Bgez | Operation::Bgtz | Operation::Blez
                | Operation::Bltz | Operation::Bnez => self.ex_branchz(op, args),
            Operation::SeqOp | Operation::Sge | Operation::Sgt | Operation::Sle | Operation::Slt
                | Operation::Sne => self.ex_set3(op, args),
            Operation::Seqz | Operation::Sgez | Operation::Sgtz | Operation::Slez
                | Operation::Sltz | Operation::Snez => self.ex_setz(op, args),
            Operation::Push => self.ex_push(op, args),
            Operation::Pop => self.ex_pop(op, args),
            Operation::Peek => self.ex_peek(op, args),
            Operation::Ret => self.ex_ret(op, args),
            Operation::Call => self.ex_call(op, args),
            Operation::And | Operation::Or | Operation::Xor | Operation::Nor | Operation::Andi
                | Operation::Ori | Operation::Xori | Operation::Shr | Operation::Shl
                | Operation::Ror | Operation::Rol => self.ex_bits(op, args),
            Operation::Sqrt | Operation::Trunc | Operation::Ceil | Operation::Floor
                | Operation::Abs | Operation::Exp | Operation::Inf | Operation::Nan => self
                .ex_unary(host, op, args),
            Operation::Max | Operation::Min | Operation::Log => self.ex_mml(host, op, args),
            Operation::Lb | Operation::Lh | Operation::Lw => self.ex_load(op, args),
            Operation::Sb | Operation::Sh | Operation::Sw => self.ex_store(op, args),
        }
    }

    /// The decoded instruction at `at`: its opcode and a copy of its
    /// arguments.
    fn fetch(&self, at: usize) -> (r: (Operation, Vec<Argument>))
        requires
            self.wf(),
            self.loaded_ok(),
            self.assembly is Some,
            at < self.assembly->0.instructions@.len(),
        ensures
            self.model().assembly->0.instructions[at as int] == (r.0, r.1@),
            spec_shape_ok(r.0, r.1@),
    {
        let instr = match &self.assembly {
            Some(a) => &a.instructions[at],
            None => vstd::pervasive::unreached(),
        };
        let mut args: Vec<Argument> = Vec::new();
        let n = instr.arguments.len();
        let mut i: usize = 0;
        while i < n
            invariant
                i <= n == instr.arguments@.len(),
                args@ =~= instr.arguments@.subrange(0, i as int),
            decreases n - i,
        {
            let a = instr.arguments[i];
            args.push(a);
            proof {
                assert(args@ =~= instr.arguments@.subrange(0, i as int + 1));
            }
            i += 1;
        }
        proof {
            assert(args@ =~= instr.arguments@);
            assert(crate::compiler::abs_instrs(self.assembly->0.instructions@)[at as int] == (
            instr.operation, instr.arguments@));
            lemma_first_fault_ok(self.assembly->0.instructions@, self.limits, at as int);
        }
        (instr.operation, args)
    }

    /// Executes at most one instruction and returns the machine's status,
    /// as `spec_step` says for some host oracle values: terminal states
    /// are sticky, a missing assembly parks the machine Idle, running off
    /// the end finishes it, an error is returned once and moves the
    /// machine to Error, and on a plain fall-through the program counter
    /// advances by one through the register write path.
    #[verifier::rlimit(100)]
    #[verifier::spinoff_prover]
    pub fn tick<H: HostFloat>(&mut self, host: &mut H) -> (r: Result<VMStatus, RuntimeError>)
        requires
            old(self).wf(),
            old(self).loaded_ok(),
        ensures
            final(self).wf(),
            final(self).loaded_ok(),
            final(self).assembly == old(self).assembly,
            exists|u: u32, f: Seq<char>|
                #[trigger] tick_matches(old(self).model(), final(self).model(), r, u, f),
    {
        match self.status {
            VMStatus::Finished | VMStatus::Error => {
                let rr: Result<VMStatus, RuntimeError> = Ok(self.status);
                proof {
                    assert(tick_matches(
                        old(self).model(),
                        self.model(),
                        rr,
                        0u32,
                        Seq::<char>::empty(),
                    ));
                }
                return rr;
            },
            _ => {},
        }
        let icount = match &self.assembly {
            Some(a) => a.instructions.len(),
            None => {
                self.status = VMStatus::Idle;
                let rr: Result<VMStatus, RuntimeError> = Ok(VMStatus::Idle);
                proof {
                    assert(self.model() =~= (VmModel {
                        status: VMStatus::Idle,
                        ..old(self).model()
                    }));
                    assert(tick_matches(
                        old(self).model(),
                        self.model(),
                        rr,
                        0u32,
                        Seq::<char>::empty(),
                    ));
                }
                return rr;
            },
        };
        if self.pc == icount {
            self.status = VMStatus::Finished;
            let rr: Result<VMStatus, RuntimeError> = Ok(VMStatus::Finished);
            proof {
                assert(self.model() =~= (VmModel {
                    status: VMStatus::Finished,
                    ..old(self).model()
                }));
                assert(tick_matches(
                    old(self).model(),
                    self.model(),
                    rr,
                    0u32,
                    Seq::<char>::empty(),
                ));
            }
            return rr;
        }
        if self.pc > icount {
            self.status = VMStatus::Error;
            let rr: Result<VMStatus, RuntimeError> = Err(
                RuntimeError::new(
                    "Address is out of bounds".to_owned(),
                    RuntimeErrorKind::InvalidAddress { address: self.pc },
                ),
            );
            proof {
                assert(self.model() =~= (VmModel {
                    status: VMStatus::Error,
                    ..old(self).model()
                }));
                assert(tick_matches(
                    old(self).model(),
                    self.model(),
                    rr,
                    0u32,
                    Seq::<char>::empty(),
                ));
            }
            return rr;
        }
        let old_pc = self.pc;
        let (op, args) = self.fetch(old_pc);
        let ghost pre = old(self).model();
        let er = self.execute_instruction(host, op, &args);
        let ghost mid = self.model();
        let ghost er0 = er;
        let ghost (wu, wf_): (u32, Seq<char>) = choose|u: u32, f: Seq<char>|
            #[trigger] exec_matches(pre, mid, op, args@, er0, u, f);
        match er {
            Err(e) => {
                self.status = VMStatus::Error;
                let rr: Result<VMStatus, RuntimeError> = Err(e);
                proof {
                    assert(exec_matches(pre, mid, op, args@, er0, wu, wf_));
                    assert(self.model() =~= (VmModel { status: VMStatus::Error, ..mid }));
                    assert(tick_matches(old(self).model(), self.model(), rr, wu, wf_));
                }
                return rr;
            },
            Ok(os) => {
                let st = match os {
                    Some(s) => s,
                    None => VMStatus::Running,
                };
                self.status = st;
                proof {
                    assert(exec_matches(pre, mid, op, args@, er0, wu, wf_));
                    assert(self.model() =~= (VmModel { status: st, ..mid }));
                }
                let advance = (matches!(st, VMStatus::Running) || matches!(st, VMStatus::Yield))
                    && old_pc == self.pc;
                if advance {
                    let target = crate::float_bits::float_of_u64(old_pc as u64 + 1);
                    match self.write_register(RegisterKind::ProgramCounter, target) {
                        Ok(()) => {},
                        Err(_) => {},
                    }
                }
                let rr: Result<VMStatus, RuntimeError> = Ok(st);
                proof {
                    assert(tick_matches(old(self).model(), self.model(), rr, wu, wf_));
                }
                return rr;
            },
        }
    }
}

/// A program the validator accepted has every instruction's shape in
/// order.
proof fn lemma_first_fault_ok(instrs: Seq<Instruction>, limits: Limits, i: int)
    requires
        spec_first_fault(instrs, limits) is None,
        0 <= i < instrs.len(),
    ensures
        crate::assembly::spec_instruction_ok(instrs[i], limits),
        spec_shape_ok(instrs[i].operation, instrs[i].arguments@),
    decreases instrs.len(),
{
    if i == 0 {
    } else {
        lemma_first_fault_ok(instrs.drop_first(), limits, i - 1);
        assert(instrs.drop_first()[i - 1] == instrs[i]);
    }
}

} // verus!
