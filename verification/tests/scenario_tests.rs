use nano_risc::AssemblyErrorKind;
use nano_risc::CompilationErrorKind;
use nano_risc::Limits;
use nano_risc::ParsingErrorKind;
use nano_risc::RegisterKind;
use nano_risc::RuntimeErrorKind;
use nano_risc::SourceUnit;
use nano_risc::VMStatus;
use nano_risc::VM;

struct Host;

impl nano_risc::HostFloat for Host {
    fn sqrt(&mut self, a: u32) -> u32 {
        f32::from_bits(a).sqrt().to_bits()
    }
    fn exp(&mut self, a: u32) -> u32 {
        f32::from_bits(a).exp().to_bits()
    }
    fn log(&mut self, arg: u32, base: u32) -> u32 {
        f32::log(f32::from_bits(arg), f32::from_bits(base)).to_bits()
    }
    fn format(&mut self, a: u32) -> String {
        f32::from_bits(a).to_string()
    }
}

fn vm_from(source: &str) -> VM {
    let unit = SourceUnit::new_anonymous(source.as_bytes().to_vec());
    let tokens = nano_risc::parse(&unit).unwrap();
    let assembly = nano_risc::compile(unit, tokens, &Limits::default()).unwrap();
    let mut vm = VM::new(Limits::default());
    vm.load_assembly(assembly).unwrap();
    vm
}

fn r(vm: &VM, i: usize) -> f32 {
    f32::from_bits(vm.registers()[i])
}

#[test]
fn three_adds_then_finished() {
    let mut vm = vm_from("add $r0 0 1\nadd $r1 0 1\nadd $r2 $r0 $r1\n");
    let mut h = Host;
    assert_eq!(vm.tick(&mut h), Ok(VMStatus::Running));
    assert_eq!(vm.tick(&mut h), Ok(VMStatus::Running));
    assert_eq!(vm.tick(&mut h), Ok(VMStatus::Running));
    assert_eq!(vm.tick(&mut h), Ok(VMStatus::Finished));
    assert_eq!(r(&vm, 0), 1.0);
    assert_eq!(r(&vm, 1), 1.0);
    assert_eq!(r(&vm, 2), 2.0);
}

#[test]
fn mov_sub_then_finished() {
    let mut vm = vm_from("mov $r0 4\nmov $r1 2\nsub $r0 $r0 $r1\n");
    let mut h = Host;
    assert_eq!(vm.tick(&mut h), Ok(VMStatus::Running));
    assert_eq!(vm.tick(&mut h), Ok(VMStatus::Running));
    assert_eq!(vm.tick(&mut h), Ok(VMStatus::Running));
    assert_eq!(r(&vm, 0), 2.0);
    assert_eq!(r(&vm, 1), 2.0);
    assert_eq!(vm.tick(&mut h), Ok(VMStatus::Finished));
}

#[test]
fn pc_cycles_through_jump() {
    let mut vm = vm_from("start:\nadd $r0 0 1\njmp start\n");
    let mut h = Host;
    assert_eq!(vm.pc(), 0);
    assert_eq!(vm.tick(&mut h), Ok(VMStatus::Running));
    assert_eq!(vm.pc(), 1);
    assert_eq!(vm.tick(&mut h), Ok(VMStatus::Running));
    assert_eq!(vm.pc(), 0);
    assert_eq!(r(&vm, 0), 1.0);
    assert_eq!(vm.tick(&mut h), Ok(VMStatus::Running));
    assert_eq!(vm.pc(), 1);
    assert_eq!(r(&vm, 0), 1.0);
    assert_eq!(vm.tick(&mut h), Ok(VMStatus::Running));
    assert_eq!(vm.pc(), 0);
}

#[test]
fn division_by_zero_then_error_sticks() {
    let mut vm = vm_from("div $r0 10 0\n");
    let mut h = Host;
    assert_eq!(
        vm.tick(&mut h).map_err(|e| e.kind().clone()),
        Err(RuntimeErrorKind::DividedByZero)
    );
    assert_eq!(vm.status(), VMStatus::Error);
    assert_eq!(vm.tick(&mut h), Ok(VMStatus::Error));
    assert_eq!(vm.tick(&mut h), Ok(VMStatus::Error));
}

#[test]
fn call_ret_with_debug_output() {
    let mut vm = vm_from("main:\ncall sum\ndbg $r0\nhalt\n\nsum:\nadd $r0 2 2\nret\n");
    let mut h = Host;
    vm.enable_dbg_output();
    loop {
        match vm.tick(&mut h).unwrap() {
            VMStatus::Running | VMStatus::Yield => {},
            _ => break,
        }
    }
    assert_eq!(vm.status(), VMStatus::Finished);
    assert_eq!(r(&vm, 0), 4.0);
    assert_eq!(vm.dbg_output(), &vec![String::from("4")]);
}

#[test]
fn indirect_read_of_register() {
    let mut vm = vm_from("mov $r0 1\nmov $r1 100\nmov $r2 %r0\n");
    let mut h = Host;
    assert_eq!(vm.tick(&mut h), Ok(VMStatus::Running));
    assert_eq!(vm.tick(&mut h), Ok(VMStatus::Running));
    assert_eq!(vm.tick(&mut h), Ok(VMStatus::Running));
    assert_eq!(r(&vm, 2), 100.0);
}

#[test]
fn float_literal_value() {
    let mut vm = vm_from("mov $r0 12.66\nmov $r1 -4.12\n");
    let mut h = Host;
    while let VMStatus::Running = vm.tick(&mut h).unwrap() {}
    assert_eq!(r(&vm, 0), 12.66);
    assert_eq!(r(&vm, 1), -4.12);
}

#[test]
fn binary_literal_with_separator() {
    let mut vm = vm_from("andi $r0 0b1_01 7\n");
    let mut h = Host;
    assert_eq!(vm.tick(&mut h), Ok(VMStatus::Running));
    assert_eq!(r(&vm, 0), 5.0);
}

#[test]
fn negative_hex_literal() {
    let mut vm = vm_from("mov $r0 -0xDD\n");
    let mut h = Host;
    assert_eq!(vm.tick(&mut h), Ok(VMStatus::Running));
    assert_eq!(r(&vm, 0), -221.0);
}

#[test]
fn string_in_ram_and_dbgs() {
    let mut vm = vm_from("mov $r0 \"hi\"\ndbgs $r0\n");
    let mut h = Host;
    vm.enable_dbg_output();
    while let VMStatus::Running = vm.tick(&mut h).unwrap() {}
    assert_eq!(vm.dbg_output(), &vec![String::from("hi")]);
}

#[test]
fn interned_string_reused() {
    let source = "mov $r0 \"abc\"\nmov $r1 \"abc\"\nmov $r2 \"xy\"\n";
    let unit = SourceUnit::new_anonymous(source.as_bytes().to_vec());
    let tokens = nano_risc::parse(&unit).unwrap();
    let assembly = nano_risc::compile(unit, tokens, &Limits::default()).unwrap();
    assert_eq!(assembly.text_section, b"abc\0xy\0".to_vec());
    assert_eq!(assembly.code_section_size, 4);
    assert_eq!(assembly.instructions[0].arguments[1], assembly.instructions[1].arguments[1]);
}

#[test]
fn reset_clears_state_but_keeps_ram() {
    let mut vm = vm_from("mov $r0 .data\nsb $r0 7\npush 3\n");
    let mut h = Host;
    while let VMStatus::Running = vm.tick(&mut h).unwrap() {}
    assert_eq!(vm.ram().read(0).map_err(|e| e.kind().clone()), Ok(7));
    vm.reset();
    assert_eq!(vm.pc(), 0);
    assert_eq!(vm.sp(), 0);
    assert_eq!(vm.status(), VMStatus::Idle);
    for i in 0..vm.registers().len() {
        assert_eq!(vm.registers()[i], 0);
    }
    for i in 0..vm.stack().len() {
        assert_eq!(vm.stack()[i], 0);
    }
    assert_eq!(vm.ram().read(0).map_err(|e| e.kind().clone()), Ok(7));
    assert_eq!(vm.tick(&mut h), Ok(VMStatus::Running));
}

#[test]
fn ram_bounds() {
    let vm = vm_from("halt\n");
    let limit = Limits::default().ram_length;
    assert!(vm.ram().read(limit - 1).is_ok());
    assert_eq!(
        vm.ram().read(limit).map_err(|e| e.kind().clone()),
        Err(RuntimeErrorKind::InvalidAddress { address: limit })
    );
}

#[test]
fn unknown_label_is_rejected() {
    let unit = SourceUnit::new_anonymous(b"jmp nowhere\n".to_vec());
    let tokens = nano_risc::parse(&unit).unwrap();
    let res = nano_risc::compile(unit, tokens, &Limits::default());
    assert_eq!(
        res.map_err(|e| e.kind().clone()),
        Err(CompilationErrorKind::UnknownLabel { name: String::from("nowhere") })
    );
}

#[test]
fn unknown_constant_is_rejected() {
    let unit = SourceUnit::new_anonymous(b"mov $r0 .bogus\n".to_vec());
    let tokens = nano_risc::parse(&unit).unwrap();
    let res = nano_risc::compile(unit, tokens, &Limits::default());
    assert_eq!(
        res.map_err(|e| e.kind().clone()),
        Err(CompilationErrorKind::UnknownConstant { name: String::from("bogus") })
    );
}

#[test]
fn unknown_operation_is_rejected() {
    let unit = SourceUnit::new_anonymous(b"frobnicate 1\n".to_vec());
    let tokens = nano_risc::parse(&unit).unwrap();
    let res = nano_risc::compile(unit, tokens, &Limits::default());
    assert_eq!(
        res.map_err(|e| e.kind().clone()),
        Err(CompilationErrorKind::InvalidOperation)
    );
}

#[test]
fn unreadable_input_is_a_parse_error() {
    let unit = SourceUnit::new_anonymous(b"mov $r0 1\n!!!\n".to_vec());
    let res = nano_risc::parse(&unit);
    let err = res.unwrap_err();
    assert_eq!(err.kind(), ParsingErrorKind::Unknown);
    assert_eq!(err.location().offset, 10);
    assert_eq!(err.location().line, 2);
    assert_eq!(err.location().column, 1);
}

#[test]
fn bad_argument_is_a_parse_error() {
    let unit = SourceUnit::new_anonymous(b"mov $r0 $\n".to_vec());
    let res = nano_risc::parse(&unit);
    let err = res.unwrap_err();
    assert_eq!(err.kind(), ParsingErrorKind::Unknown);
    assert_eq!(err.location().offset, 8);
    assert!(err.inner.is_some());
}

#[test]
fn pop_on_empty_stack_overflows() {
    let mut vm = vm_from("pop $r0\n");
    let mut h = Host;
    assert_eq!(
        vm.tick(&mut h).map_err(|e| e.kind().clone()),
        Err(RuntimeErrorKind::StackOverflow)
    );
}

#[test]
fn stack_pointer_is_read_only() {
    let mut vm = VM::new(Limits::default());
    let res = vm.write_register(RegisterKind::StackPointer, 0);
    assert_eq!(
        res.map_err(|e| e.kind().clone()),
        Err(RuntimeErrorKind::RegisterIsReadOnly { register: RegisterKind::StackPointer })
    );
}

#[test]
fn out_of_range_register_fails_validation() {
    let unit = SourceUnit::new_anonymous(b"mov $r99 1\n".to_vec());
    let tokens = nano_risc::parse(&unit).unwrap();
    let assembly = nano_risc::compile(unit, tokens, &Limits::default()).unwrap();
    let mut vm = VM::new(Limits::default());
    let res = vm.load_assembly(assembly);
    assert_eq!(
        res.map_err(|e| e.kind().clone()),
        Err(AssemblyErrorKind::InvalidRegister { id: 99 })
    );
}

#[test]
fn out_of_range_pin_fails_validation() {
    let unit = SourceUnit::new_anonymous(b"dbg p9\n".to_vec());
    let tokens = nano_risc::parse(&unit).unwrap();
    let assembly = nano_risc::compile(unit, tokens, &Limits::default()).unwrap();
    let mut vm = VM::new(Limits::default());
    let res = vm.load_assembly(assembly);
    assert_eq!(
        res.map_err(|e| e.kind().clone()),
        Err(AssemblyErrorKind::InvalidPin { id: 9 })
    );
}

#[test]
fn misshapen_instruction_fails_validation() {
    let unit = SourceUnit::new_anonymous(b"mov $sp 1\n".to_vec());
    let tokens = nano_risc::parse(&unit).unwrap();
    let assembly = nano_risc::compile(unit, tokens, &Limits::default()).unwrap();
    let mut vm = VM::new(Limits::default());
    let res = vm.load_assembly(assembly);
    assert_eq!(
        res.map_err(|e| e.kind().clone()),
        Err(AssemblyErrorKind::InvalidInstruction { name: String::from("mov") })
    );
}

#[test]
fn indirect_write_out_of_range_register() {
    let mut vm = vm_from("mov $r0 200\nmov %r0 1\n");
    let mut h = Host;
    assert_eq!(vm.tick(&mut h), Ok(VMStatus::Running));
    let res = vm.tick(&mut h);
    assert!(matches!(
        res.map_err(|e| e.kind().clone()),
        Err(RuntimeErrorKind::InvalidRegister { .. })
    ));
    assert_eq!(vm.status(), VMStatus::Error);
}

#[test]
fn pin_operand_has_no_value_at_runtime() {
    let mut vm = vm_from("push p1\n");
    let mut h = Host;
    assert_eq!(
        vm.tick(&mut h).map_err(|e| e.kind().clone()),
        Err(RuntimeErrorKind::InvalidType)
    );
}

#[test]
fn tick_without_assembly_is_idle() {
    let mut vm = VM::new(Limits::default());
    let mut h = Host;
    assert_eq!(vm.tick(&mut h), Ok(VMStatus::Idle));
    assert_eq!(vm.status(), VMStatus::Idle);
}

#[test]
fn unload_parks_the_machine() {
    let mut vm = vm_from("halt\n");
    let mut h = Host;
    vm.unload_assembly();
    assert_eq!(vm.tick(&mut h), Ok(VMStatus::Idle));
}

#[test]
fn sqrt_of_nine() {
    let mut vm = vm_from("sqrt $r0 9\n");
    let mut h = Host;
    assert_eq!(vm.tick(&mut h), Ok(VMStatus::Running));
    assert_eq!(r(&vm, 0), 3.0);
}

#[test]
fn uppercase_mnemonics_lex_lowered() {
    let mut vm = vm_from("MOV $r0 2\nADD $r0 $r0 3\n");
    let mut h = Host;
    while let VMStatus::Running = vm.tick(&mut h).unwrap() {}
    assert_eq!(r(&vm, 0), 5.0);
}

#[test]
fn crlf_sources_lex_like_lf() {
    let mut vm = vm_from("mov $r0 1\r\nadd $r0 $r0 2\r\n");
    let mut h = Host;
    while let VMStatus::Running = vm.tick(&mut h).unwrap() {}
    assert_eq!(r(&vm, 0), 3.0);
}

#[test]
fn comments_and_labels_share_lines() {
    let mut vm = vm_from("# setup\nstart: mov $r0 7\nhalt\n");
    let mut h = Host;
    assert_eq!(vm.tick(&mut h), Ok(VMStatus::Running));
    assert_eq!(r(&vm, 0), 7.0);
}

#[test]
fn empty_program_finishes_at_once() {
    let unit = SourceUnit::new_anonymous(b"# nothing to do\n".to_vec());
    let tokens = nano_risc::parse(&unit).unwrap();
    let assembly = nano_risc::compile(unit, tokens, &Limits::default()).unwrap();
    assert_eq!(assembly.code_section_size, 0);
    let mut vm = VM::new(Limits::default());
    vm.load_assembly(assembly).unwrap();
    let mut h = Host;
    assert_eq!(vm.tick(&mut h), Ok(VMStatus::Finished));
    assert_eq!(vm.tick(&mut h), Ok(VMStatus::Finished));
}
