//! The compiled program: instructions, the section layout, interned string
//! bytes, and a load-time validator that holds every instruction to the
//! configured limits and the per-opcode operand rules.

use vstd::prelude::*;

use crate::argument::Argument;
use crate::debug_info::DebugInfo;
use crate::errors::AssemblyError;
use crate::errors::AssemblyErrorKind;
use crate::instruction::Instruction;
use crate::limits::Limits;
use crate::location::Location;
use crate::operation::Operation;
use crate::register_kind::RegisterKind;
use crate::text::usize_to_string;
use vstd::string::StringExecFns;

verus! {

/// What the validator can find wrong with one instruction. The register and
/// pin faults carry the offending id; an instruction fault is named after
/// the opcode.
pub enum ValidationFault {
    BadRegister { id: usize },
    BadPin { id: usize },
    BadInstruction,
}

/// Whether an argument may stand where a writable register is required: a
/// regular register or the program counter.
pub open spec fn spec_writable_register(arg: Argument) -> bool {
    arg matches Argument::Register { register: RegisterKind::Regular { .. } }
        || arg matches Argument::Register { register: RegisterKind::ProgramCounter }
}

/// Whether an argument is a number or a register.
pub open spec fn spec_number_or_register(arg: Argument) -> bool {
    ||| arg matches Argument::Int { .. }
    ||| arg matches Argument::Register { .. }
}

/// The first out-of-bounds register or pin id among the arguments, if any.
pub open spec fn spec_argument_fault(args: Seq<Argument>, limits: Limits) -> Option<
    ValidationFault,
>
    decreases args.len(),
{
    if args.len() == 0 {
        None
    } else {
        match args[0] {
            Argument::Register {
                register: RegisterKind::Regular { id, .. },
            } => if id >= limits.regular_registers {
                Some(ValidationFault::BadRegister { id })
            } else {
                spec_argument_fault(args.drop_first(), limits)
            },
            Argument::Pin { id } => if id >= limits.pins {
                Some(ValidationFault::BadPin { id })
            } else {
                spec_argument_fault(args.drop_first(), limits)
            },
            _ => spec_argument_fault(args.drop_first(), limits),
        }
    }
}

/// The per-opcode operand rule: the required argument count, and whether the
/// first argument must be a writable register.
pub open spec fn spec_shape_ok(op: Operation, args: Seq<Argument>) -> bool {
    match op {
        Operation::Add | Operation::Sub | Operation::Mul | Operation::Div | Operation::Mod
            | Operation::SeqOp | Operation::Sge | Operation::Sgt | Operation::Sle | Operation::Slt
            | Operation::Sne | Operation::And | Operation::Or | Operation::Xor | Operation::Nor
            | Operation::Andi | Operation::Ori | Operation::Xori | Operation::Shr | Operation::Shl
            | Operation::Ror | Operation::Rol | Operation::Max | Operation::Min | Operation::Log =>
            args.len() == 3 && spec_writable_register(args[0]),
        Operation::Mov | Operation::Seqz | Operation::Sgez | Operation::Sgtz | Operation::Slez
            | Operation::Sltz | Operation::Snez | Operation::Sqrt | Operation::Trunc
            | Operation::Ceil | Operation::Floor | Operation::Abs | Operation::Exp
            | Operation::Inf | Operation::Nan | Operation::Lb | Operation::Lh | Operation::Lw =>
            args.len() == 2 && spec_writable_register(args[0]),
        Operation::Pop | Operation::Peek => args.len() == 1 && spec_writable_register(args[0]),
        Operation::Jmp => args.len() >= 1 && spec_number_or_register(args[0]),
        Operation::Dbg | Operation::Dbgs | Operation::Push | Operation::Call => args.len() == 1,
        Operation::Yield | Operation::Halt | Operation::Ret => args.len() == 0,
        Operation::Beq | Operation::Bge | Operation::Bgt | Operation::Ble | Operation::Blt
            | Operation::Bne => args.len() == 3,
        Operation::Beqz | Operation::Bgez | Operation::Bgtz | Operation::Blez | Operation::Bltz
            | Operation::Bnez => args.len() == 2,
        Operation::Sb | Operation::Sh | Operation::Sw => args.len() == 2,
    }
}

/// The validator's verdict on one instruction: the first argument-id fault,
/// else a shape fault, else nothing.
pub open spec fn spec_instruction_fault(instr: Instruction, limits: Limits) -> Option<
    ValidationFault,
> {
    match spec_argument_fault(instr.arguments@, limits) {
        Some(f) => Some(f),
        None => if spec_shape_ok(instr.operation, instr.arguments@) {
            None
        } else {
            Some(ValidationFault::BadInstruction)
        },
    }
}

/// An instruction the validator accepts.
pub open spec fn spec_instruction_ok(instr: Instruction, limits: Limits) -> bool {
    spec_instruction_fault(instr, limits) is None
}

/// The first invalid instruction of a program, with its fault.
pub open spec fn spec_first_fault(instrs: Seq<Instruction>, limits: Limits) -> Option<
    (int, ValidationFault),
>
    decreases instrs.len(),
{
    if instrs.len() == 0 {
        None
    } else {
        match spec_instruction_fault(instrs[0], limits) {
            Some(f) => Some((0int, f)),
            None => match spec_first_fault(instrs.drop_first(), limits) {
                Some((i, f)) => Some((i + 1, f)),
                None => None,
            },
        }
    }
}

/// Whether the reported error kind is the one `fault` calls for on an
/// instruction of opcode `op`.
pub open spec fn spec_fault_kind(kind: AssemblyErrorKind, fault: ValidationFault, op: Operation)
    -> bool {
    match fault {
        ValidationFault::BadRegister { id } => kind == (AssemblyErrorKind::InvalidRegister { id }),
        ValidationFault::BadPin { id } => kind == (AssemblyErrorKind::InvalidPin { id }),
        ValidationFault::BadInstruction => kind matches AssemblyErrorKind::InvalidInstruction {
            name,
        } && name@ == op.spec_name(),
    }
}

/// A compiled program. `code_section_size` is the instruction count rounded
/// up to a multiple of four; `text_section` holds the interned string
/// literals, each null-terminated, laid out directly after the code section.
#[derive(Debug, Clone, PartialEq)]
pub struct Assembly {
    pub debug_info: Option<DebugInfo>,
    pub instructions: Vec<Instruction>,
    pub code_section_size: usize,
    pub text_section: Vec<u8>,
}

impl Assembly {
    /// The source position recorded for instruction `address`, if debug
    /// information holds one.
    pub open spec fn spec_location_of(self, address: int) -> Option<Location> {
        match self.debug_info {
            Some(di) => if 0 <= address < di.source_loc@.len() {
                Some(di.source_loc@[address])
            } else {
                None
            },
            None => None,
        }
    }

    fn location_of(&self, address: usize) -> (r: Option<Location>)
        ensures
            r == self.spec_location_of(address as int),
    {
        match &self.debug_info {
            Some(di) => di.source_location(address),
            None => None,
        }
    }

    /// Checks every instruction against the limits and the operand rules;
    /// the first fault is reported with its instruction's source position.
    pub fn validate(&self, limits: &Limits) -> (r: Result<(), AssemblyError>)
        ensures
            match r {
                Ok(()) => spec_first_fault(self.instructions@, *limits) is None,
                Err(e) => {
                    &&& spec_first_fault(self.instructions@, *limits) matches Some((i, f)) && {
                        &&& spec_fault_kind(e.kind, f, self.instructions@[i].operation)
                        &&& e.location == self.spec_location_of(i)
                    }
                },
            },
    {
        let n = self.instructions.len();
        let mut address: usize = 0;
        proof {
            assert(self.instructions@.skip(0) =~= self.instructions@);
        }
        while address < n
            invariant
                address <= n == self.instructions@.len(),
                spec_first_fault(self.instructions@, *limits) == match spec_first_fault(
                    self.instructions@.skip(address as int),
                    *limits,
                ) {
                    Some((i, f)) => Some((i + address, f)),
                    None => None::<(int, ValidationFault)>,
                },
            decreases n - address,
        {
            proof {
                assert(self.instructions@.skip(address as int)[0] == self.instructions@[address as int]);
                assert(self.instructions@.skip(address as int).drop_first() =~= self.instructions@.skip(
                    address as int + 1,
                ));
            }
            let instr = &self.instructions[address];
            if let Err(e) = check_instruction(instr, limits, self.location_of(address)) {
                return Err(e);
            }
            address += 1;
        }
        Ok(())
    }
}

/// Checks one instruction's register and pin ids.
fn check_arguments(instr: &Instruction, limits: &Limits, loc: Option<Location>) -> (r: Result<
    (),
    AssemblyError,
>)
    ensures
        match r {
            Ok(()) => spec_argument_fault(instr.arguments@, *limits) is None,
            Err(e) => {
                &&& spec_argument_fault(instr.arguments@, *limits) matches Some(f)
                    && spec_fault_kind(e.kind, f, instr.operation)
                &&& e.location == loc
            },
        },
{
    let n = instr.arguments.len();
    let mut k: usize = 0;
    proof {
        assert(instr.arguments@.skip(0) =~= instr.arguments@);
    }
    while k < n
        invariant
            k <= n == instr.arguments@.len(),
            spec_argument_fault(instr.arguments@, *limits) == spec_argument_fault(
                instr.arguments@.skip(k as int),
                *limits,
            ),
        decreases n - k,
    {
        proof {
            assert(instr.arguments@.skip(k as int)[0] == instr.arguments@[k as int]);
            assert(instr.arguments@.skip(k as int).drop_first() =~= instr.arguments@.skip(
                k as int + 1,
            ));
        }
        match &instr.arguments[k] {
            Argument::Register { register: RegisterKind::Regular { id, .. } } => {
                if *id >= limits.regular_registers {
                    let mut m = "Register's id ".to_owned();
                    m.append(usize_to_string(*id).as_str());
                    m.append(" is out of bounds");
                    return Err(
                        AssemblyError::new(m, loc, AssemblyErrorKind::InvalidRegister { id: *id }),
                    );
                }
            },
            Argument::Pin { id } => {
                if *id >= limits.pins {
                    let mut m = "Pin's id ".to_owned();
                    m.append(usize_to_string(*id).as_str());
                    m.append(" is out of bounds");
                    return Err(
                        AssemblyError::new(m, loc, AssemblyErrorKind::InvalidPin { id: *id }),
                    );
                }
            },
            _ => {},
        }
        k += 1;
    }
    Ok(())
}

fn writable_register(arg: &Argument) -> (r: bool)
    ensures
        r == spec_writable_register(*arg),
{
    match arg {
        Argument::Register { register: RegisterKind::Regular { .. } } => true,
        Argument::Register { register: RegisterKind::ProgramCounter } => true,
        _ => false,
    }
}

fn shape_error(instr: &Instruction, loc: Option<Location>, what: &str) -> (r: AssemblyError)
    ensures
        spec_fault_kind(r.kind, ValidationFault::BadInstruction, instr.operation),
        r.location == loc,
{
    let name = instr.operation.name();
    let mut m = name.to_owned();
    m.append(what);
    AssemblyError::new(
        m,
        loc,
        AssemblyErrorKind::InvalidInstruction { name: name.to_owned() },
    )
}

/// Checks one instruction: argument ids first, then the operand rule of its
/// opcode.
fn check_instruction(instr: &Instruction, limits: &Limits, loc: Option<Location>) -> (r: Result<
    (),
    AssemblyError,
>)
    ensures
        match r {
            Ok(()) => spec_instruction_ok(*instr, *limits),
            Err(e) => {
                &&& spec_instruction_fault(*instr, *limits) matches Some(f) && spec_fault_kind(
                    e.kind,
                    f,
                    instr.operation,
                )
                &&& e.location == loc
            },
        },
{
    if let Err(e) = check_arguments(instr, limits, loc) {
        return Err(e);
    }
    let args = &instr.arguments;
    let ok = match instr.operation {
        Operation::Add | Operation::Sub | Operation::Mul | Operation::Div | Operation::Mod
            | Operation::SeqOp | Operation::Sge | Operation::Sgt | Operation::Sle | Operation::Slt
            | Operation::Sne | Operation::And | Operation::Or | Operation::Xor | Operation::Nor
            | Operation::Andi | Operation::Ori | Operation::Xori | Operation::Shr | Operation::Shl
            | Operation::Ror | Operation::Rol | Operation::Max | Operation::Min | Operation::Log
            => args.len() == 3 && writable_register(&args[0]),
        Operation::Mov | Operation::Seqz | Operation::Sgez | Operation::Sgtz | Operation::Slez
            | Operation::Sltz | Operation::Snez | Operation::Sqrt | Operation::Trunc
            | Operation::Ceil | Operation::Floor | Operation::Abs | Operation::Exp
            | Operation::Inf | Operation::Nan | Operation::Lb | Operation::Lh | Operation::Lw
            => args.len() == 2 && writable_register(&args[0]),
        Operation::Pop | Operation::Peek => args.len() == 1 && writable_register(&args[0]),
        Operation::Jmp => args.len() >= 1 && match &args[0] {
            Argument::Int { .. } => true,
            Argument::Register { .. } => true,
            _ => false,
        },
        Operation::Dbg | Operation::Dbgs | Operation::Push | Operation::Call => args.len() == 1,
        Operation::Yield | Operation::Halt | Operation::Ret => args.len() == 0,
        Operation::Beq | Operation::Bge | Operation::Bgt | Operation::Ble | Operation::Blt
            | Operation::Bne => args.len() == 3,
        Operation::Beqz | Operation::Bgez | Operation::Bgtz | Operation::Blez | Operation::Bltz
            | Operation::Bnez => args.len() == 2,
        Operation::Sb | Operation::Sh | Operation::Sw => args.len() == 2,
    };
    if ok {
        Ok(())
    } else {
        Err(shape_error(instr, loc, " rejects these arguments"))
    }
}

} // verus!
