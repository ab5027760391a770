//! The machine's general laws, stated over the model and proved from the
//! step specification: the fall-through behaviour of the program counter,
//! the stack discipline, the stickiness of terminal states, the
//! store-then-load round trip, string interning, and the range of label
//! targets.

use vstd::prelude::*;

use crate::argument::Argument;
use crate::compiler::CompileFault;
use crate::compiler::label_defined;
use crate::compiler::label_target;
use crate::compiler::spec_ast;
use crate::compiler::spec_build_ast;
use crate::compiler::spec_lower_arg;
use crate::errors::RuntimeErrorKind;
use crate::float_bits::ZERO_BITS;
use crate::float_bits::bits_of_u64;
use crate::float_bits::u64_of_bits;
use crate::location::Location;
use crate::operation::Operation;
use crate::register_kind::RegisterKind;
use crate::token::ArgumentToken;
use crate::token::Token;
use crate::vm::VmModel;
use crate::vm::spec_exec_instr;
use crate::vm::spec_load_value;
use crate::vm::spec_pop;
use crate::vm::spec_push;
use crate::vm::spec_step;
use crate::vm::spec_store_value;
use crate::vm::spec_write_reg;
use crate::vm_status::VMStatus;

verus! {

/// An opcode that branches, jumps, calls or returns: one whose ordinary
/// business is to set the program counter.
pub open spec fn is_control_op(op: Operation) -> bool {
    match op {
        Operation::Jmp | Operation::Call | Operation::Ret | Operation::Beq | Operation::Bge
            | Operation::Bgt | Operation::Ble | Operation::Blt | Operation::Bne | Operation::Beqz
            | Operation::Bgez | Operation::Bgtz | Operation::Blez | Operation::Bltz
            | Operation::Bnez => true,
        _ => false,
    }
}

/// An instruction whose destination operand is the program counter (a
/// pc-mov, or arithmetic into `$pc`).
pub open spec fn writes_pc_dst(args: Seq<Argument>) -> bool {
    args[0] == (Argument::Register { register: RegisterKind::ProgramCounter })
}

/// Monotone program counter on fall-through: for an instruction that is
/// not a branch, jump, call or return and does not name the program
/// counter as its destination, a tick either ends in a terminal or
/// yielding status or advances the program counter by exactly one.
///
/// The hypothesis on `u64_of_bits` is the conversion round trip for the
/// advanced counter; the trusted conversion wrappers state it for every
/// value up to 2^24, so it excludes only programs of more than 16777215
/// instructions.
pub proof fn lemma_monotone_pc_on_fall_through(m: VmModel, u: u32, f: Seq<char>)
    requires
        m.status != VMStatus::Finished && m.status != VMStatus::Error,
        m.assembly is Some,
        0 <= m.pc < m.assembly->0.instructions.len(),
        m.pc + 1 <= usize::MAX,
        !is_control_op(m.assembly->0.instructions[m.pc].0),
        !writes_pc_dst(m.assembly->0.instructions[m.pc].1),
        u64_of_bits(bits_of_u64((m.pc + 1) as u64)) == m.pc + 1,
    ensures
        ({
            let (m2, r) = spec_step(m, u, f);
            ||| m2.status == VMStatus::Finished
            ||| m2.status == VMStatus::Yield
            ||| m2.status == VMStatus::Error
            ||| m2.pc == m.pc + 1
        }),
{
    let (op, args) = m.assembly->0.instructions[m.pc];
    let (me, r) = spec_exec_instr(m, op, args, u, f);
    if r is Ok {
        match op {
            Operation::Push | Operation::Dbg | Operation::Dbgs | Operation::Yield
                | Operation::Halt => {
                assert(me.pc == m.pc);
            },
            Operation::Sb | Operation::Sh | Operation::Sw => {
                assert(me.pc == m.pc);
            },
            Operation::Pop | Operation::Peek => {
                assert(args[0] != (Argument::Register {
                    register: RegisterKind::ProgramCounter,
                }));
                assert(me.pc == m.pc);
            },
            _ => {
                assert(args[0] != (Argument::Register {
                    register: RegisterKind::ProgramCounter,
                }));
                assert(me.pc == m.pc);
            },
        }
    }
}

/// Stack discipline: a push follows the stack pointer up, the matching pop
/// brings it back, returns the pushed value, and clears the vacated slot
/// to the zero pattern.
pub proof fn lemma_push_then_pop(m: VmModel, bits: u32)
    requires
        0 <= m.sp < m.stack.len(),
    ensures
        ({
            let m1 = spec_push(m, bits)->Ok_0;
            &&& spec_push(m, bits) is Ok
            &&& m1.sp == m.sp + 1
            &&& spec_pop(m1) matches Ok((v, m2)) && v == bits && m2.sp == m.sp && m2.stack[m.sp]
                == ZERO_BITS
        }),
{
}

/// Terminal states are sticky: a tick in the Finished or Error status
/// returns that status and changes nothing.
pub proof fn lemma_terminal_states_sticky(m: VmModel, u: u32, f: Seq<char>)
    requires
        m.status == VMStatus::Finished || m.status == VMStatus::Error,
    ensures
        spec_step(m, u, f) == (m, Ok::<VMStatus, RuntimeErrorKind>(m.status)),
{
}

/// Store-then-load round trip: a word store at an in-range RAM offset
/// succeeds, and a word load at the same offset reads back exactly the
/// stored integer, so the loaded register holds that integer as a float.
pub proof fn lemma_store_then_load_word(m: VmModel, base: int, v: i32)
    requires
        0 <= base,
        base + 4 <= m.limits.ram_length,
    ensures
        ({
            let (m2, r) = spec_store_value(m, base, Operation::Sw, v);
            &&& r matches Ok(os) && os is None
            &&& spec_load_value(m2, base, Operation::Lw) == Ok::<i32, RuntimeErrorKind>(v)
        }),
{
    let u = v as u32;
    let b0 = (u & 0xff) as u8;
    let b1 = ((u >> 8) & 0xff) as u8;
    let b2 = ((u >> 16) & 0xff) as u8;
    let b3 = ((u >> 24) & 0xff) as u8;
    let (m2, r) = spec_store_value(m, base, Operation::Sw, v);
    assert(m2.ram[base] == b0 && m2.ram[base + 1] == b1 && m2.ram[base + 2] == b2 && m2.ram[base
        + 3] == b3);
    assert(((b0 as u32) | ((b1 as u32) << 8) | ((b2 as u32) << 16) | ((b3 as u32) << 24)) == u
        && ((u as i32) == v)) by (bit_vector)
        requires
            u == v as u32,
            b0 == (u & 0xff) as u8,
            b1 == ((u >> 8) & 0xff) as u8,
            b2 == ((u >> 16) & 0xff) as u8,
            b3 == ((u >> 24) & 0xff) as u8,
    ;
}

/// String interning: once a literal has been interned at an address,
/// lowering the same literal again adds nothing to the text section or the
/// intern table and produces the same integer address.
pub proof fn lemma_intern_reuse(
    value: String,
    oploc: Location,
    oploc2: Location,
    labels: Seq<(Seq<char>, int)>,
    css: int,
    ram_length: int,
    text: Seq<u8>,
    interns: Seq<(Seq<char>, int)>,
)
    requires
        !label_defined(interns, value@),
        spec_lower_arg(
            ArgumentToken::String { value },
            oploc,
            labels,
            css,
            ram_length,
            text,
            interns,
        ) is Ok,
    ensures
        ({
            let (a1, t1, i1) = spec_lower_arg(
                ArgumentToken::String { value },
                oploc,
                labels,
                css,
                ram_length,
                text,
                interns,
            )->Ok_0;
            spec_lower_arg(
                ArgumentToken::String { value },
                oploc2,
                labels,
                css,
                ram_length,
                t1,
                i1,
            ) == Ok::<(Argument, Seq<u8>, Seq<(Seq<char>, int)>), CompileFault>((a1, t1, i1))
        }),
{
    let position = css + text.len();
    let i1 = interns.push((value@, position));
    lemma_table_finds_pushed(interns, value@, position);
}

/// Looking up a name in a table that lacked it and then gained it at the
/// end finds the new entry.
proof fn lemma_table_finds_pushed(interns: Seq<(Seq<char>, int)>, name: Seq<char>, pos: int)
    requires
        !label_defined(interns, name),
    ensures
        label_defined(interns.push((name, pos)), name),
        label_target(interns.push((name, pos)), name) == pos,
    decreases interns.len(),
{
    let i1 = interns.push((name, pos));
    assert(i1[i1.len() - 1].0 == name);
    if interns.len() == 0 {
    } else {
        assert(interns[0].0 != name);
        lemma_table_finds_pushed(interns.drop_first(), name, pos);
        assert(interns.drop_first().push((name, pos)) =~= i1.drop_first());
    }
}

/// Label determinism: in a successfully folded program every label's
/// recorded address is the index of an instruction position, at most the
/// program's length; the address recorded is, by the folding rule, the
/// number of instructions committed before the label, that is the index
/// of the next instruction.
pub proof fn lemma_label_targets_in_range(tokens: Seq<Token>)
    requires
        spec_ast(tokens) is Ok,
    ensures
        ({
            let (labels, instrs) = spec_ast(tokens)->Ok_0;
            forall|j: int|
                0 <= j < labels.len() ==> 0 <= (#[trigger] labels[j]).1 <= instrs.len()
        }),
{
    lemma_build_targets(tokens, 0, Seq::empty(), Seq::empty(), None);
}

proof fn lemma_build_targets(
    tokens: Seq<Token>,
    i: int,
    labels: Seq<(Seq<char>, int)>,
    instrs: Seq<(Token, Seq<Token>)>,
    cur: Option<(Token, Seq<Token>)>,
)
    requires
        forall|j: int| 0 <= j < labels.len() ==> 0 <= (#[trigger] labels[j]).1 <= instrs.len(),
        spec_build_ast(tokens, i, labels, instrs, cur) is Ok,
    ensures
        ({
            let (lr, ir) = spec_build_ast(tokens, i, labels, instrs, cur)->Ok_0;
            forall|j: int| 0 <= j < lr.len() ==> 0 <= (#[trigger] lr[j]).1 <= ir.len()
        }),
    decreases tokens.len() - i,
{
    if i < 0 || i >= tokens.len() {
    } else {
        match tokens[i].kind {
            crate::token::TokenKind::Comment { .. } => {
                lemma_build_targets(
                    tokens,
                    i + 1,
                    labels,
                    crate::compiler::flushed(instrs, cur),
                    None,
                );
            },
            crate::token::TokenKind::Label { name } => {
                let fl = crate::compiler::flushed(instrs, cur);
                let l2 = labels.push((name@, fl.len() as int));
                assert(forall|j: int| 0 <= j < l2.len() ==> 0 <= (#[trigger] l2[j]).1 <= fl.len());
                lemma_build_targets(tokens, i + 1, l2, fl, None);
            },
            crate::token::TokenKind::Operation { .. } => {
                lemma_build_targets(
                    tokens,
                    i + 1,
                    labels,
                    crate::compiler::flushed(instrs, cur),
                    Some((tokens[i], Seq::empty())),
                );
            },
            crate::token::TokenKind::Argument { .. } => {
                if let Some((t, args)) = cur {
                    lemma_build_targets(
                        tokens,
                        i + 1,
                        labels,
                        instrs,
                        Some((t, args.push(tokens[i]))),
                    );
                }
            },
        }
    }
}

/// Writing a register other than the program counter leaves the program
/// counter alone.
pub proof fn lemma_non_pc_write_keeps_pc(m: VmModel, kind: RegisterKind, bits: u32)
    requires
        kind != RegisterKind::ProgramCounter,
        spec_write_reg(m, kind, bits) is Ok,
    ensures
        spec_write_reg(m, kind, bits)->Ok_0.pc == m.pc,
{
}

} // verus!
