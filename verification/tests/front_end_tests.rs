use nano_risc::Argument;
use nano_risc::ArgumentToken;
use nano_risc::Ast;
use nano_risc::CompilationErrorKind;
use nano_risc::Instruction;
use nano_risc::Limits;
use nano_risc::Location;
use nano_risc::Operation;
use nano_risc::Ram;
use nano_risc::RegisterKind;
use nano_risc::RegisterMode;
use nano_risc::RuntimeErrorKind;
use nano_risc::SourceUnit;
use nano_risc::SyntaxToken;
use nano_risc::Token;
use nano_risc::TokenKind;

#[test]
fn n_line_endings() {
    let source = "line1\nline2\nline3\n\n";
    let unit = SourceUnit::new(String::from("<anonymous>"), source.as_bytes().to_vec());

    assert_eq!(unit.lines_count(), 5)
}

#[test]
fn rn_line_endings() {
    let source = "line1\r\nline2\r\nline3\r\n\r\n";
    let unit = SourceUnit::new(String::from("<anonymous>"), source.as_bytes().to_vec());

    assert_eq!(unit.lines_count(), 5)
}

#[test]
fn empty() {
    let source = "";
    let unit = SourceUnit::new(String::from("<anonymous>"), source.as_bytes().to_vec());

    assert_eq!(unit.lines_count(), 1)
}

#[test]
fn location() {
    let source = r#"
# A basic program
start:
add $r0 1 0
sub $r5 $r0 0

# Jump
jmp start

# Print stack pointer and program counter
dbg $sp
dbg $pc
        "#;
    let unit = SourceUnit::new(String::from("<anonymous>"), source.as_bytes().to_vec());

    assert_eq!(
        unit.find_location(1),
        Some(Location { line: 2, column: 1, offset: 1 })
    );
    assert_eq!(
        unit.find_location(9),
        Some(Location { line: 2, column: 9, offset: 9 })
    );
    assert_eq!(
        unit.find_location(19),
        Some(Location { line: 3, column: 1, offset: 19 })
    );

    let source = "# Test comment";
    let unit = SourceUnit::new(String::from("<anonymous>"), source.as_bytes().to_vec());

    assert_eq!(
        unit.find_location(0),
        Some(Location { line: 1, column: 1, offset: 0 })
    )
}

#[test]
fn comment_parse_comment() {
    let unit = SourceUnit::new_anonymous("# Test comment".as_bytes().to_vec());
    let tokens = nano_risc::parse(&unit);

    assert_eq!(
        tokens,
        Ok(vec![Token {
            location: Location { line: 1, column: 1, offset: 0 },
            kind: TokenKind::Comment { text: String::from(" Test comment") }
        }])
    )
}

#[test]
fn label_parse_label() {
    let unit = SourceUnit::new_anonymous("test:".as_bytes().to_vec());
    let tokens = nano_risc::parse(&unit);

    assert_eq!(
        tokens,
        Ok(vec![Token {
            location: Location { line: 1, column: 1, offset: 0 },
            kind: TokenKind::Label { name: String::from("test") }
        }])
    )
}

#[test]
fn instruction_parse_single_instruction() {
    let unit = SourceUnit::new_anonymous("add".as_bytes().to_vec());
    let tokens = nano_risc::parse(&unit);

    assert_eq!(
        tokens,
        Ok(vec![Token {
            location: Location { line: 1, column: 1, offset: 0 },
            kind: TokenKind::Operation { operation: String::from("add") }
        }])
    )
}

#[test]
fn instruction_parse_instruction_with_args() {
    let unit = SourceUnit::new_anonymous(
        "add $r1 p4 78 -99 0xFF -0xDD 0b0101 12.66 -4.12 \"Hello, world!\" start .data"
            .as_bytes()
            .to_vec(),
    );
    let tokens = nano_risc::parse(&unit);

    assert_eq!(
        tokens,
        Ok(vec![
            Token {
                location: Location { line: 1, column: 1, offset: 0 },
                kind: TokenKind::Operation { operation: String::from("add") }
            },
            Token {
                location: Location { line: 1, column: 5, offset: 4 },
                kind: TokenKind::Argument {
                    argument: ArgumentToken::Register {
                        register: RegisterKind::Regular { id: 1, mode: RegisterMode::Direct }
                    }
                }
            },
            Token {
                location: Location { line: 1, column: 9, offset: 8 },
                kind: TokenKind::Argument { argument: ArgumentToken::Pin { id: 4 } }
            },
            Token {
                location: Location { line: 1, column: 12, offset: 11 },
                kind: TokenKind::Argument { argument: ArgumentToken::Int { value: 78 } }
            },
            Token {
                location: Location { line: 1, column: 15, offset: 14 },
                kind: TokenKind::Argument { argument: ArgumentToken::Int { value: -99 } }
            },
            Token {
                location: Location { line: 1, column: 19, offset: 18 },
                kind: TokenKind::Argument { argument: ArgumentToken::Int { value: 0xFF } }
            },
            Token {
                location: Location { line: 1, column: 24, offset: 23 },
                kind: TokenKind::Argument { argument: ArgumentToken::Int { value: -0xDD } }
            },
            Token {
                location: Location { line: 1, column: 30, offset: 29 },
                kind: TokenKind::Argument { argument: ArgumentToken::Int { value: 0b0101 } }
            },
            Token {
                location: Location { line: 1, column: 37, offset: 36 },
                kind: TokenKind::Argument {
                    argument: ArgumentToken::Float { bits: 12.66f32.to_bits() }
                }
            },
            Token {
                location: Location { line: 1, column: 43, offset: 42 },
                kind: TokenKind::Argument {
                    argument: ArgumentToken::Float { bits: (-4.12f32).to_bits() }
                }
            },
            Token {
                location: Location { line: 1, column: 49, offset: 48 },
                kind: TokenKind::Argument {
                    argument: ArgumentToken::String { value: String::from("Hello, world!") }
                }
            },
            Token {
                location: Location { line: 1, column: 65, offset: 64 },
                kind: TokenKind::Argument {
                    argument: ArgumentToken::Label { name: String::from("start") }
                }
            },
            Token {
                location: Location { line: 1, column: 71, offset: 70 },
                kind: TokenKind::Argument {
                    argument: ArgumentToken::Constant { name: String::from("data") }
                }
            },
        ])
    );
}

#[test]
fn mod_parse() {
    let src = r#"
# A basic program
start:
add $r0 1 0
sub $r5 $r0

# Jump
jmp start

# Print stack pointer and program counter
dbg $sp
dbg $pc

mov $r0 %r1
"#;
    let tokens = nano_risc::parse(&SourceUnit::new_anonymous(src.as_bytes().to_vec()));

    assert_eq!(
        tokens,
        Ok(vec![
            Token {
                location: Location { line: 2, column: 1, offset: 1 },
                kind: TokenKind::Comment { text: String::from(" A basic program") }
            },
            Token {
                location: Location { line: 3, column: 1, offset: 19 },
                kind: TokenKind::Label { name: String::from("start") }
            },
            Token {
                location: Location { line: 4, column: 1, offset: 26 },
                kind: TokenKind::Operation { operation: String::from("add") }
            },
            Token {
                location: Location { line: 4, column: 5, offset: 30 },
                kind: TokenKind::Argument {
                    argument: ArgumentToken::Register {
                        register: RegisterKind::Regular { id: 0, mode: RegisterMode::Direct }
                    }
                }
            },
            Token {
                location: Location { line: 4, column: 9, offset: 34 },
                kind: TokenKind::Argument { argument: ArgumentToken::Int { value: 1 } }
            },
            Token {
                location: Location { line: 4, column: 11, offset: 36 },
                kind: TokenKind::Argument { argument: ArgumentToken::Int { value: 0 } }
            },
            Token {
                location: Location { line: 5, column: 1, offset: 38 },
                kind: TokenKind::Operation { operation: String::from("sub") }
            },
            Token {
                location: Location { line: 5, column: 5, offset: 42 },
                kind: TokenKind::Argument {
                    argument: ArgumentToken::Register {
                        register: RegisterKind::Regular { id: 5, mode: RegisterMode::Direct }
                    }
                }
            },
            Token {
                location: Location { line: 5, column: 9, offset: 46 },
                kind: TokenKind::Argument {
                    argument: ArgumentToken::Register {
                        register: RegisterKind::Regular { id: 0, mode: RegisterMode::Direct }
                    }
                }
            },
            Token {
                location: Location { line: 7, column: 1, offset: 51 },
                kind: TokenKind::Comment { text: String::from(" Jump") }
            },
            Token {
                location: Location { line: 8, column: 1, offset: 58 },
                kind: TokenKind::Operation { operation: String::from("jmp") }
            },
            Token {
                location: Location { line: 8, column: 5, offset: 62 },
                kind: TokenKind::Argument {
                    argument: ArgumentToken::Label { name: String::from("start") }
                }
            },
            Token {
                location: Location { line: 10, column: 1, offset: 69 },
                kind: TokenKind::Comment {
                    text: String::from(" Print stack pointer and program counter")
                }
            },
            Token {
                location: Location { line: 11, column: 1, offset: 111 },
                kind: TokenKind::Operation { operation: String::from("dbg") }
            },
            Token {
                location: Location { line: 11, column: 5, offset: 115 },
                kind: TokenKind::Argument {
                    argument: ArgumentToken::Register { register: RegisterKind::StackPointer }
                }
            },
            Token {
                location: Location { line: 12, column: 1, offset: 119 },
                kind: TokenKind::Operation { operation: String::from("dbg") }
            },
            Token {
                location: Location { line: 12, column: 5, offset: 123 },
                kind: TokenKind::Argument {
                    argument: ArgumentToken::Register { register: RegisterKind::ProgramCounter }
                }
            },
            Token {
                location: Location { line: 14, column: 1, offset: 128 },
                kind: TokenKind::Operation { operation: String::from("mov") }
            },
            Token {
                location: Location { line: 14, column: 5, offset: 132 },
                kind: TokenKind::Argument {
                    argument: ArgumentToken::Register {
                        register: RegisterKind::Regular { id: 0, mode: RegisterMode::Direct }
                    }
                }
            },
            Token {
                location: Location { line: 14, column: 9, offset: 136 },
                kind: TokenKind::Argument {
                    argument: ArgumentToken::Register {
                        register: RegisterKind::Regular { id: 1, mode: RegisterMode::Indirect }
                    }
                }
            },
        ])
    )
}

#[test]
fn ast() {
    let source = r#"
start:
add $r0 1 0
"#;

    let tokens = nano_risc::parse(&SourceUnit::new_anonymous(source.as_bytes().to_vec())).unwrap();
    let ast = Ast::new(&tokens);

    assert_eq!(
        ast,
        Ok(Ast {
            labels: vec![(String::from("start"), 0)],
            tokens: vec![SyntaxToken {
                token: Token {
                    location: Location { line: 3, column: 1, offset: 8 },
                    kind: TokenKind::Operation { operation: String::from("add") }
                },
                child: vec![
                    SyntaxToken {
                        token: Token {
                            location: Location { line: 3, column: 5, offset: 12 },
                            kind: TokenKind::Argument {
                                argument: ArgumentToken::Register {
                                    register: RegisterKind::Regular {
                                        id: 0,
                                        mode: RegisterMode::Direct
                                    }
                                }
                            }
                        },
                        child: Vec::new()
                    },
                    SyntaxToken {
                        token: Token {
                            location: Location { line: 3, column: 9, offset: 16 },
                            kind: TokenKind::Argument {
                                argument: ArgumentToken::Int { value: 1 }
                            }
                        },
                        child: Vec::new()
                    },
                    SyntaxToken {
                        token: Token {
                            location: Location { line: 3, column: 11, offset: 18 },
                            kind: TokenKind::Argument {
                                argument: ArgumentToken::Int { value: 0 }
                            }
                        },
                        child: Vec::new()
                    }
                ]
            }]
        })
    )
}

#[test]
fn compilation() {
    let source = r#"
            add $r0 1 0
            start:
            mov $r1 5
            jmp start
        "#;

    let unit = SourceUnit::new_anonymous(source.as_bytes().to_vec());
    let tokens = nano_risc::parse(&unit).unwrap();
    let assembly = nano_risc::compile(unit, tokens, &Limits::default()).unwrap();

    assert_eq!(
        assembly.instructions,
        vec![
            Instruction {
                operation: Operation::Add,
                arguments: vec![
                    Argument::Register {
                        register: RegisterKind::Regular { id: 0, mode: RegisterMode::Direct }
                    },
                    Argument::Int { value: 1 },
                    Argument::Int { value: 0 }
                ]
            },
            Instruction {
                operation: Operation::Mov,
                arguments: vec![
                    Argument::Register {
                        register: RegisterKind::Regular { id: 1, mode: RegisterMode::Direct }
                    },
                    Argument::Int { value: 5 },
                ]
            },
            Instruction {
                operation: Operation::Jmp,
                arguments: vec![Argument::Int { value: 1 }]
            }
        ]
    );
    assert_eq!(assembly.code_section_size, 4);
    assert_eq!(assembly.text_section, Vec::<u8>::new());
    let debug_info = assembly.debug_info.unwrap();
    assert_eq!(
        debug_info.source_loc,
        vec![Location::new(2, 13, 13), Location::new(4, 13, 56), Location::new(5, 13, 78)]
    );
    assert_eq!(debug_info.unit.name(), "<anonymous>");
}

#[test]
fn duplicate_labels() {
    let source = r#"
        start:
            halt
        start:
            jmp start
    "#;

    let unit = SourceUnit::new_anonymous(source.as_bytes().to_vec());
    let tokens = nano_risc::parse(&unit).unwrap();
    let assembly = nano_risc::compile(unit, tokens, &Limits::default());

    assert_eq!(
        assembly.map_err(|err| err.kind().clone()),
        Err(CompilationErrorKind::DuplicateLabel { name: String::from("start") })
    );
}

#[test]
fn constants() {
    let source = r#"
        mov $r0 .data
        mov $r1 .ram_end
    "#;

    let limits = Limits::default();
    let unit = SourceUnit::new_anonymous(source.as_bytes().to_vec());
    let tokens = nano_risc::parse(&unit).unwrap();
    let assembly = nano_risc::compile(unit, tokens, &limits).unwrap();

    assert_eq!(
        assembly.instructions,
        vec![
            Instruction {
                operation: Operation::Mov,
                arguments: vec![
                    Argument::Register {
                        register: RegisterKind::Regular { id: 0, mode: RegisterMode::Direct }
                    },
                    Argument::Int { value: 4 }
                ]
            },
            Instruction {
                operation: Operation::Mov,
                arguments: vec![
                    Argument::Register {
                        register: RegisterKind::Regular { id: 1, mode: RegisterMode::Direct }
                    },
                    Argument::Int { value: limits.ram_length as i32 }
                ]
            }
        ]
    )
}

#[test]
fn max_size() {
    let source = r#"
        mov $r1 1
        mov $r1 1
        mov $r1 1
        mov $r1 1
        mov $r1 1
        mov $r1 1
        mov $r1 1
        mov $r1 1
        mov $r1 1
        mov $r1 1
    "#;

    let unit = SourceUnit::new_anonymous(source.as_bytes().to_vec());
    let tokens = nano_risc::parse(&unit).unwrap();
    let assembly = nano_risc::compile(
        unit,
        tokens,
        &Limits { ram_length: 5, ..Limits::default() },
    );

    assert_eq!(
        assembly.map_err(|err| err.kind().clone()),
        Err(CompilationErrorKind::TooLargeAssembly { size: 5 })
    )
}

#[test]
fn write_slice() {
    let mut ram = Ram::new(Limits { ram_length: 10, ..Limits::default() });
    let data = [5, 5, 5, 5, 5];

    ram.write_slice(5, &data).unwrap();
    assert_eq!(ram.as_bytes().len(), 10);
    assert!(matches!(ram.as_bytes(), [0, 0, 0, 0, 0, 5, 5, 5, 5, 5]))
}

#[test]
fn write_slice_fail() {
    let mut ram = Ram::new(Limits { ram_length: 5, ..Limits::default() });
    let data = [5, 5, 5, 5, 5];

    assert_eq!(
        ram.write_slice(5, &data).map_err(|err| err.kind().clone()),
        Err(RuntimeErrorKind::InvalidAddress { address: 5 })
    );

    let data = [5, 5, 5, 5, 5, 5, 5, 5, 5];

    assert_eq!(
        ram.write_slice(0, &data).map_err(|err| err.kind().clone()),
        Err(RuntimeErrorKind::OutOfMemory)
    );
}

#[test]
fn write() {
    let mut ram = Ram::new(Limits { ram_length: 5, ..Limits::default() });

    ram.write(3, 5).unwrap();
    assert_eq!(ram.as_bytes().len(), 4)
}

#[test]
fn write_fail() {
    let mut ram = Ram::new(Limits { ram_length: 5, ..Limits::default() });

    assert_eq!(
        ram.write(5, 5).map_err(|err| err.kind().clone()),
        Err(RuntimeErrorKind::InvalidAddress { address: 5 })
    );
}

#[test]
fn read() {
    let mut ram = Ram::new(Limits { ram_length: 5, ..Limits::default() });

    ram.write(3, 12).unwrap();

    assert_eq!(ram.read(3).map_err(|err| err.kind().clone()), Ok(12));
}

#[test]
fn read_zero() {
    let ram = Ram::new(Limits { ram_length: 5, ..Limits::default() });

    assert_eq!(ram.read(4).map_err(|err| err.kind().clone()), Ok(0))
}

#[test]
fn read_fail() {
    let ram = Ram::new(Limits { ram_length: 5, ..Limits::default() });

    assert_eq!(
        ram.read(7).map_err(|err| err.kind().clone()),
        Err(RuntimeErrorKind::InvalidAddress { address: 7 })
    )
}

#[test]
fn location_past_end() {
    let unit = SourceUnit::new_anonymous(b"ab".to_vec());
    assert_eq!(unit.find_location(1), Some(Location { line: 1, column: 2, offset: 1 }));
    assert_eq!(unit.find_location(2), None);
    assert_eq!(unit.find_location(100), None);
}

#[test]
fn empty_source_lexes_to_nothing() {
    let unit = SourceUnit::new_anonymous(Vec::new());
    assert_eq!(nano_risc::parse(&unit), Ok(Vec::new()));
    let unit = SourceUnit::new_anonymous(b"  \n\t \r\n".to_vec());
    assert_eq!(nano_risc::parse(&unit), Ok(Vec::new()));
}

#[test]
fn oversized_integer_literal_is_rejected() {
    let unit = SourceUnit::new_anonymous(b"mov $r0 99999999999\n".to_vec());
    let res = nano_risc::parse(&unit);
    assert!(res.is_err());
}
