use vstd::prelude::*;

use crate::text::str_eq;

verus! {

/// An opcode of the instruction set.
#[derive(Debug, Clone, Copy, PartialEq, Eq, Structural)]
pub enum Operation {
    Add,
    Sub,
    Mov,
    Mul,
    Div,
    Mod,
    Dbg,
    Dbgs,
    Yield,
    Halt,
    Jmp,
    Beq,
    Bge,
    Bgt,
    Ble,
    Blt,
    Bne,
    Beqz,
    Bgez,
    Bgtz,
    Blez,
    Bltz,
    Bnez,
    SeqOp,
    Sge,
    Sgt,
    Sle,
    Slt,
    Sne,
    Seqz,
    Sgez,
    Sgtz,
    Slez,
    Sltz,
    Snez,
    Push,
    Pop,
    Peek,
    Call,
    Ret,
    And,
    Or,
    Xor,
    Nor,
    Andi,
    Ori,
    Xori,
    Shr,
    Shl,
    Ror,
    Rol,
    Sqrt,
    Trunc,
    Ceil,
    Floor,
    Abs,
    Exp,
    Inf,
    Nan,
    Max,
    Min,
    Log,
    Lb,
    Lh,
    Lw,
    Sb,
    Sh,
    Sw,
}

/// Failure of reading an opcode from its mnemonic.
#[derive(Debug, Clone, Copy, PartialEq, Eq, Structural)]
pub enum OpeartionParseError {
    UnknownOperation,
}

impl Operation {
    /// The lower-case mnemonic of this opcode.
    pub open spec fn spec_name(self) -> Seq<char> {
        match self {
            Operation::Add => "add"@,
            Operation::Sub => "sub"@,
            Operation::Mov => "mov"@,
            Operation::Mul => "mul"@,
            Operation::Div => "div"@,
            Operation::Mod => "mod"@,
            Operation::Dbg => "dbg"@,
            Operation::Dbgs => "dbgs"@,
            Operation::Yield => "yield"@,
            Operation::Halt => "halt"@,
            Operation::Jmp => "jmp"@,
            Operation::Beq => "beq"@,
            Operation::Bge => "bge"@,
            Operation::Bgt => "bgt"@,
            Operation::Ble => "ble"@,
            Operation::Blt => "blt"@,
            Operation::Bne => "bne"@,
            Operation::Beqz => "beqz"@,
            Operation::Bgez => "bgez"@,
            Operation::Bgtz => "bgtz"@,
            Operation::Blez => "blez"@,
            Operation::Bltz => "bltz"@,
            Operation::Bnez => "bnez"@,
            Operation::SeqOp => "seq"@,
            Operation::Sge => "sge"@,
            Operation::Sgt => "sgt"@,
            Operation::Sle => "sle"@,
            Operation::Slt => "slt"@,
            Operation::Sne => "sne"@,
            Operation::Seqz => "seqz"@,
            Operation::Sgez => "sgez"@,
            Operation::Sgtz => "sgtz"@,
            Operation::Slez => "slez"@,
            Operation::Sltz => "sltz"@,
            Operation::Snez => "snez"@,
            Operation::Push => "push"@,
            Operation::Pop => "pop"@,
            Operation::Peek => "peek"@,
            Operation::Call => "call"@,
            Operation::Ret => "ret"@,
            Operation::And => "and"@,
            Operation::Or => "or"@,
            Operation::Xor => "xor"@,
            Operation::Nor => "nor"@,
            Operation::Andi => "andi"@,
            Operation::Ori => "ori"@,
            Operation::Xori => "xori"@,
            Operation::Shr => "shr"@,
            Operation::Shl => "shl"@,
            Operation::Ror => "ror"@,
            Operation::Rol => "rol"@,
            Operation::Sqrt => "sqrt"@,
            Operation::Trunc => "trunc"@,
            Operation::Ceil => "ceil"@,
            Operation::Floor => "floor"@,
            Operation::Abs => "abs"@,
            Operation::Exp => "exp"@,
            Operation::Inf => "inf"@,
            Operation::Nan => "nan"@,
            Operation::Max => "max"@,
            Operation::Min => "min"@,
            Operation::Log => "log"@,
            Operation::Lb => "lb"@,
            Operation::Lh => "lh"@,
            Operation::Lw => "lw"@,
            Operation::Sb => "sb"@,
            Operation::Sh => "sh"@,
            Operation::Sw => "sw"@,
        }
    }

    /// The opcode a mnemonic names, if any.
    pub open spec fn spec_of_name(name: Seq<char>) -> Option<Operation> {
        if name == "add"@ {
            Some(Operation::Add)
        } else if name == "sub"@ {
            Some(Operation::Sub)
        } else if name == "mov"@ {
            Some(Operation::Mov)
        } else if name == "mul"@ {
            Some(Operation::Mul)
        } else if name == "div"@ {
            Some(Operation::Div)
        } else if name == "mod"@ {
            Some(Operation::Mod)
        } else if name == "dbg"@ {
            Some(Operation::Dbg)
        } else if name == "dbgs"@ {
            Some(Operation::Dbgs)
        } else if name == "yield"@ {
            Some(Operation::Yield)
        } else if name == "halt"@ {
            Some(Operation::Halt)
        } else if name == "jmp"@ {
            Some(Operation::Jmp)
        } else if name == "beq"@ {
            Some(Operation::Beq)
        } else if name == "bge"@ {
            Some(Operation::Bge)
        } else if name == "bgt"@ {
            Some(Operation::Bgt)
        } else if name == "ble"@ {
            Some(Operation::Ble)
        } else if name == "blt"@ {
            Some(Operation::Blt)
        } else if name == "bne"@ {
            Some(Operation::Bne)
        } else if name == "beqz"@ {
            Some(Operation::Beqz)
        } else if name == "bgez"@ {
            Some(Operation::Bgez)
        } else if name == "bgtz"@ {
            Some(Operation::Bgtz)
        } else if name == "blez"@ {
            Some(Operation::Blez)
        } else if name == "bltz"@ {
            Some(Operation::Bltz)
        } else if name == "bnez"@ {
            Some(Operation::Bnez)
        } else if name == "seq"@ {
            Some(Operation::SeqOp)
        } else if name == "sge"@ {
            Some(Operation::Sge)
        } else if name == "sgt"@ {
            Some(Operation::Sgt)
        } else if name == "sle"@ {
            Some(Operation::Sle)
        } else if name == "slt"@ {
            Some(Operation::Slt)
        } else if name == "sne"@ {
            Some(Operation::Sne)
        } else if name == "seqz"@ {
            Some(Operation::Seqz)
        } else if name == "sgez"@ {
            Some(Operation::Sgez)
        } else if name == "sgtz"@ {
            Some(Operation::Sgtz)
        } else if name == "slez"@ {
            Some(Operation::Slez)
        } else if name == "sltz"@ {
            Some(Operation::Sltz)
        } else if name == "snez"@ {
            Some(Operation::Snez)
        } else if name == "push"@ {
            Some(Operation::Push)
        } else if name == "pop"@ {
            Some(Operation::Pop)
        } else if name == "peek"@ {
            Some(Operation::Peek)
        } else if name == "call"@ {
            Some(Operation::Call)
        } else if name == "ret"@ {
            Some(Operation::Ret)
        } else if name == "and"@ {
            Some(Operation::And)
        } else if name == "or"@ {
            Some(Operation::Or)
        } else if name == "xor"@ {
            Some(Operation::Xor)
        } else if name == "nor"@ {
            Some(Operation::Nor)
        } else if name == "andi"@ {
            Some(Operation::Andi)
        } else if name == "ori"@ {
            Some(Operation::Ori)
        } else if name == "xori"@ {
            Some(Operation::Xori)
        } else if name == "shr"@ {
            Some(Operation::Shr)
        } else if name == "shl"@ {
            Some(Operation::Shl)
        } else if name == "ror"@ {
            Some(Operation::Ror)
        } else if name == "rol"@ {
            Some(Operation::Rol)
        } else if name == "sqrt"@ {
            Some(Operation::Sqrt)
        } else if name == "trunc"@ {
            Some(Operation::Trunc)
        } else if name == "ceil"@ {
            Some(Operation::Ceil)
        } else if name == "floor"@ {
            Some(Operation::Floor)
        } else if name == "abs"@ {
            Some(Operation::Abs)
        } else if name == "exp"@ {
            Some(Operation::Exp)
        } else if name == "inf"@ {
            Some(Operation::Inf)
        } else if name == "nan"@ {
            Some(Operation::Nan)
        } else if name == "max"@ {
            Some(Operation::Max)
        } else if name == "min"@ {
            Some(Operation::Min)
        } else if name == "log"@ {
            Some(Operation::Log)
        } else if name == "lb"@ {
            Some(Operation::Lb)
        } else if name == "lh"@ {
            Some(Operation::Lh)
        } else if name == "lw"@ {
            Some(Operation::Lw)
        } else if name == "sb"@ {
            Some(Operation::Sb)
        } else if name == "sh"@ {
            Some(Operation::Sh)
        } else if name == "sw"@ {
            Some(Operation::Sw)
        } else {
            None
        }
    }

    pub fn name(&self) -> (r: &'static str)
        ensures
            r@ == self.spec_name(),
    {
        match self {
            Operation::Add => "add",
            Operation::Sub => "sub",
            Operation::Mov => "mov",
            Operation::Mul => "mul",
            Operation::Div => "div",
            Operation::Mod => "mod",
            Operation::Dbg => "dbg",
            Operation::Dbgs => "dbgs",
            Operation::Yield => "yield",
            Operation::Halt => "halt",
            Operation::Jmp => "jmp",
            Operation::Beq => "beq",
            Operation::Bge => "bge",
            Operation::Bgt => "bgt",
            Operation::Ble => "ble",
            Operation::Blt => "blt",
            Operation::Bne => "bne",
            Operation::Beqz => "beqz",
            Operation::Bgez => "bgez",
            Operation::Bgtz => "bgtz",
            Operation::Blez => "blez",
            Operation::Bltz => "bltz",
            Operation::Bnez => "bnez",
            Operation::SeqOp => "seq",
            Operation::Sge => "sge",
            Operation::Sgt => "sgt",
            Operation::Sle => "sle",
            Operation::Slt => "slt",
            Operation::Sne => "sne",
            Operation::Seqz => "seqz",
            Operation::Sgez => "sgez",
            Operation::Sgtz => "sgtz",
            Operation::Slez => "slez",
            Operation::Sltz => "sltz",
            Operation::Snez => "snez",
            Operation::Push => "push",
            Operation::Pop => "pop",
            Operation::Peek => "peek",
            Operation::Call => "call",
            Operation::Ret => "ret",
            Operation::And => "and",
            Operation::Or => "or",
            Operation::Xor => "xor",
            Operation::Nor => "nor",
            Operation::Andi => "andi",
            Operation::Ori => "ori",
            Operation::Xori => "xori",
            Operation::Shr => "shr",
            Operation::Shl => "shl",
            Operation::Ror => "ror",
            Operation::Rol => "rol",
            Operation::Sqrt => "sqrt",
            Operation::Trunc => "trunc",
            Operation::Ceil => "ceil",
            Operation::Floor => "floor",
            Operation::Abs => "abs",
            Operation::Exp => "exp",
            Operation::Inf => "inf",
            Operation::Nan => "nan",
            Operation::Max => "max",
            Operation::Min => "min",
            Operation::Log => "log",
            Operation::Lb => "lb",
            Operation::Lh => "lh",
            Operation::Lw => "lw",
            Operation::Sb => "sb",
            Operation::Sh => "sh",
            Operation::Sw => "sw",
        }
    }

    /// Reads an opcode from its lower-case mnemonic.
    #[verifier::rlimit(30)]
    pub fn from_str(s: &str) -> (r: Result<Operation, OpeartionParseError>)
        ensures
            match Operation::spec_of_name(s@) {
                Some(op) => r == Ok::<Operation, OpeartionParseError>(op),
                None => r == Err::<Operation, OpeartionParseError>(
                    OpeartionParseError::UnknownOperation,
                ),
            },
    {
        if str_eq(s, "add") {
            return Ok(Operation::Add);
        }
        if str_eq(s, "sub") {
            return Ok(Operation::Sub);
        }
        if str_eq(s, "mov") {
            return Ok(Operation::Mov);
        }
        if str_eq(s, "mul") {
            return Ok(Operation::Mul);
        }
        if str_eq(s, "div") {
            return Ok(Operation::Div);
        }
        if str_eq(s, "mod") {
            return Ok(Operation::Mod);
        }
        if str_eq(s, "dbg") {
            return Ok(Operation::Dbg);
        }
        if str_eq(s, "dbgs") {
            return Ok(Operation::Dbgs);
        }
        if str_eq(s, "yield") {
            return Ok(Operation::Yield);
        }
        if str_eq(s, "halt") {
            return Ok(Operation::Halt);
        }
        if str_eq(s, "jmp") {
            return Ok(Operation::Jmp);
        }
        if str_eq(s, "beq") {
            return Ok(Operation::Beq);
        }
        if str_eq(s, "bge") {
            return Ok(Operation::Bge);
        }
        if str_eq(s, "bgt") {
            return Ok(Operation::Bgt);
        }
        if str_eq(s, "ble") {
            return Ok(Operation::Ble);
        }
        if str_eq(s, "blt") {
            return Ok(Operation::Blt);
        }
        if str_eq(s, "bne") {
            return Ok(Operation::Bne);
        }
        if str_eq(s, "beqz") {
            return Ok(Operation::Beqz);
        }
        if str_eq(s, "bgez") {
            return Ok(Operation::Bgez);
        }
        if str_eq(s, "bgtz") {
            return Ok(Operation::Bgtz);
        }
        if str_eq(s, "blez") {
            return Ok(Operation::Blez);
        }
        if str_eq(s, "bltz") {
            return Ok(Operation::Bltz);
        }
        if str_eq(s, "bnez") {
            return Ok(Operation::Bnez);
        }
        if str_eq(s, "seq") {
            return Ok(Operation::SeqOp);
        }
        if str_eq(s, "sge") {
            return Ok(Operation::Sge);
        }
        if str_eq(s, "sgt") {
            return Ok(Operation::Sgt);
        }
        if str_eq(s, "sle") {
            return Ok(Operation::Sle);
        }
        if str_eq(s, "slt") {
            return Ok(Operation::Slt);
        }
        if str_eq(s, "sne") {
            return Ok(Operation::Sne);
        }
        if str_eq(s, "seqz") {
            return Ok(Operation::Seqz);
        }
        if str_eq(s, "sgez") {
            return Ok(Operation::Sgez);
        }
        if str_eq(s, "sgtz") {
            return Ok(Operation::Sgtz);
        }
        if str_eq(s, "slez") {
            return Ok(Operation::Slez);
        }
        if str_eq(s, "sltz") {
            return Ok(Operation::Sltz);
        }
        if str_eq(s, "snez") {
            return Ok(Operation::Snez);
        }
        if str_eq(s, "push") {
            return Ok(Operation::Push);
        }
        if str_eq(s, "pop") {
            return Ok(Operation::Pop);
        }
        if str_eq(s, "peek") {
            return Ok(Operation::Peek);
        }
        if str_eq(s, "call") {
            return Ok(Operation::Call);
        }
        if str_eq(s, "ret") {
            return Ok(Operation::Ret);
        }
        if str_eq(s, "and") {
            return Ok(Operation::And);
        }
        if str_eq(s, "or") {
            return Ok(Operation::Or);
        }
        if str_eq(s, "xor") {
            return Ok(Operation::Xor);
        }
        if str_eq(s, "nor") {
            return Ok(Operation::Nor);
        }
        if str_eq(s, "andi") {
            return Ok(Operation::Andi);
        }
        if str_eq(s, "ori") {
            return Ok(Operation::Ori);
        }
        if str_eq(s, "xori") {
            return Ok(Operation::Xori);
        }
        if str_eq(s, "shr") {
            return Ok(Operation::Shr);
        }
        if str_eq(s, "shl") {
            return Ok(Operation::Shl);
        }
        if str_eq(s, "ror") {
            return Ok(Operation::Ror);
        }
        if str_eq(s, "rol") {
            return Ok(Operation::Rol);
        }
        if str_eq(s, "sqrt") {
            return Ok(Operation::Sqrt);
        }
        if str_eq(s, "trunc") {
            return Ok(Operation::Trunc);
        }
        if str_eq(s, "ceil") {
            return Ok(Operation::Ceil);
        }
        if str_eq(s, "floor") {
            return Ok(Operation::Floor);
        }
        if str_eq(s, "abs") {
            return Ok(Operation::Abs);
        }
        if str_eq(s, "exp") {
            return Ok(Operation::Exp);
        }
        if str_eq(s, "inf") {
            return Ok(Operation::Inf);
        }
        if str_eq(s, "nan") {
            return Ok(Operation::Nan);
        }
        if str_eq(s, "max") {
            return Ok(Operation::Max);
        }
        if str_eq(s, "min") {
            return Ok(Operation::Min);
        }
        if str_eq(s, "log") {
            return Ok(Operation::Log);
        }
        if str_eq(s, "lb") {
            return Ok(Operation::Lb);
        }
        if str_eq(s, "lh") {
            return Ok(Operation::Lh);
        }
        if str_eq(s, "lw") {
            return Ok(Operation::Lw);
        }
        if str_eq(s, "sb") {
            return Ok(Operation::Sb);
        }
        if str_eq(s, "sh") {
            return Ok(Operation::Sh);
        }
        if str_eq(s, "sw") {
            return Ok(Operation::Sw);
        }
        Err(OpeartionParseError::UnknownOperation)
    }
}

} // verus!
