use langcraft::arith::IntPredicate;
use langcraft::cir::Command;
use langcraft::constants::{Constant, GlobalTable, eval_constant, int_bits_of, is_vector_const};
use langcraft::layout::{IrType, Types};
use langcraft::locals::LocalName;
use langcraft::memory::{MaybeConst, TempCounter};
use langcraft::render::command_to_text;

fn const_texts(cmds: &[Command]) -> Vec<String> {
    cmds.iter().map(command_to_text).collect()
}

fn const_int(bits: u32, value: u64) -> Constant {
    Constant::Int { bits, value }
}

fn const_globals() -> GlobalTable {
    GlobalTable {
        addrs: vec![
            (LocalName::Name("table".to_string()), 100),
            (LocalName::Name("callee".to_string()), u32::MAX),
        ],
    }
}

fn eval(c: &Constant, counter: &mut TempCounter) -> MaybeConst {
    eval_constant(c, &const_globals(), &Types::blank_for_testing(), counter)
}

fn words_of(m: MaybeConst) -> (Vec<String>, Vec<String>) {
    match m {
        MaybeConst::NonConst(cmds, holders) => {
            (const_texts(&cmds), holders.iter().map(|h| h.as_str().to_string()).collect())
        }
        MaybeConst::Const(c) => panic!("expected words, got the constant {}", c),
    }
}

#[test]
fn small_integers_are_sign_extended() {
    let mut counter = TempCounter { next: 0 };
    assert_eq!(eval(&const_int(1, 1), &mut counter), MaybeConst::Const(1));
    assert_eq!(eval(&const_int(8, 0xff), &mut counter), MaybeConst::Const(-1));
    assert_eq!(eval(&const_int(8, 0x7f), &mut counter), MaybeConst::Const(127));
    assert_eq!(eval(&const_int(16, 0xfffe), &mut counter), MaybeConst::Const(-2));
    assert_eq!(eval(&const_int(32, 0xffff_ffff), &mut counter), MaybeConst::Const(-1));
    assert_eq!(eval(&const_int(32, 1234), &mut counter), MaybeConst::Const(1234));
    assert_eq!(counter.next, 0);
}

#[test]
fn sixty_four_bit_integer_takes_two_temporaries() {
    let mut counter = TempCounter { next: 3 };
    let (cmds, holders) = words_of(eval(&const_int(64, 0x1_0000_0002), &mut counter));
    assert_eq!(
        cmds,
        vec!["scoreboard players set %temp3%0 rust 2", "scoreboard players set %temp3%1 rust 1"]
    );
    assert_eq!(holders, vec!["%temp3%0", "%temp3%1"]);
    assert_eq!(counter.next, 4);
}

#[test]
fn one_twenty_eight_bit_integer_keeps_low_words_zero() {
    let mut counter = TempCounter { next: 0 };
    let (cmds, holders) = words_of(eval(&const_int(128, 7), &mut counter));
    assert_eq!(
        cmds,
        vec![
            "scoreboard players set %temp0%0 rust 0",
            "scoreboard players set %temp0%1 rust 0",
            "scoreboard players set %temp0%2 rust 7",
            "scoreboard players set %temp0%3 rust 0",
        ]
    );
    assert_eq!(holders.len(), 4);
}

#[test]
fn global_reference_gives_its_address() {
    let mut counter = TempCounter { next: 0 };
    let c = Constant::GlobalReference {
        name: LocalName::Name("table".to_string()),
        ty: IrType::Integer { bits: 32 },
    };
    assert_eq!(eval(&c, &mut counter), MaybeConst::Const(100));
    let unknown = Constant::GlobalReference {
        name: LocalName::Name("nowhere".to_string()),
        ty: IrType::Integer { bits: 32 },
    };
    assert_eq!(eval(&unknown, &mut counter), MaybeConst::Const(0));
}

#[test]
fn function_reference_is_left_for_a_fixup() {
    let mut counter = TempCounter { next: 0 };
    let c = Constant::GlobalReference {
        name: LocalName::Name("callee".to_string()),
        ty: IrType::Other,
    };
    let (cmds, holders) = words_of(eval(&c, &mut counter));
    assert!(cmds.is_empty());
    assert_eq!(holders, vec!["callee%%fixup_func_ref"]);
}

#[test]
fn null_and_casts() {
    let mut counter = TempCounter { next: 0 };
    assert_eq!(eval(&Constant::Null, &mut counter), MaybeConst::Const(0));
    let cast = Constant::BitCast {
        operand: Box::new(const_int(32, 9)),
        to_type: IrType::Integer { bits: 32 },
    };
    assert_eq!(eval(&cast, &mut counter), MaybeConst::Const(9));
    let to_ptr = Constant::IntToPtr {
        operand: Box::new(const_int(32, 44)),
        to_type: IrType::Pointer { pointee: Box::new(IrType::Integer { bits: 8 }), addr_space: 0 },
    };
    assert_eq!(eval(&to_ptr, &mut counter), MaybeConst::Const(44));
}

#[test]
fn undef_is_zeroed_words() {
    let mut counter = TempCounter { next: 1 };
    let (cmds, holders) = words_of(eval(&Constant::Undef(IrType::Integer { bits: 64 }), &mut counter));
    assert_eq!(
        cmds,
        vec!["scoreboard players set %temp1%0 rust 0", "scoreboard players set %temp1%1 rust 0"]
    );
    assert_eq!(holders, vec!["%temp1%0", "%temp1%1"]);
}

#[test]
fn byte_vector_packs_into_one_word() {
    let mut counter = TempCounter { next: 0 };
    let v = Constant::Vector(vec![const_int(8, 1), const_int(8, 2), const_int(8, 3), const_int(8, 4)]);
    assert_eq!(eval(&v, &mut counter), MaybeConst::Const(0x0403_0201));
    assert!(is_vector_const(&v));
    assert_eq!(int_bits_of(&v), None);
}

#[test]
fn word_vector_takes_one_temporary_per_element() {
    let mut counter = TempCounter { next: 5 };
    let v = Constant::Vector(vec![const_int(32, 10), const_int(32, 20)]);
    let (cmds, holders) = words_of(eval(&v, &mut counter));
    assert_eq!(
        cmds,
        vec!["scoreboard players set %temp5%0 rust 10", "scoreboard players set %temp5%1 rust 20"]
    );
    assert_eq!(holders, vec!["%temp5%0", "%temp5%1"]);
}

#[test]
fn zero_word_vector() {
    let mut counter = TempCounter { next: 0 };
    let z = Constant::AggregateZero(IrType::Vector {
        element_type: Box::new(IrType::Integer { bits: 32 }),
        num_elements: 2,
    });
    let (cmds, _) = words_of(eval(&z, &mut counter));
    assert_eq!(
        cmds,
        vec!["scoreboard players set %temp0%0 rust 0", "scoreboard players set %temp0%1 rust 0"]
    );
}

#[test]
fn constant_comparison_not_equal() {
    let mut counter = TempCounter { next: 0 };
    let ne = Constant::ICmp {
        predicate: IntPredicate::NE,
        operand0: Box::new(const_int(32, 3)),
        operand1: Box::new(const_int(32, 4)),
    };
    assert_eq!(eval(&ne, &mut counter), MaybeConst::Const(1));
    let same = Constant::ICmp {
        predicate: IntPredicate::NE,
        operand0: Box::new(const_int(32, 4)),
        operand1: Box::new(const_int(32, 4)),
    };
    assert_eq!(eval(&same, &mut counter), MaybeConst::Const(0));
}

#[test]
fn select_on_a_global_address() {
    let mut counter = TempCounter { next: 0 };
    let cond = Constant::ICmp {
        predicate: IntPredicate::NE,
        operand0: Box::new(Constant::BitCast {
            operand: Box::new(Constant::GlobalReference {
                name: LocalName::Name("table".to_string()),
                ty: IrType::Integer { bits: 32 },
            }),
            to_type: IrType::Pointer { pointee: Box::new(IrType::Integer { bits: 8 }), addr_space: 0 },
        }),
        operand1: Box::new(Constant::Null),
    };
    let s = Constant::Select {
        condition: Box::new(cond),
        true_value: Box::new(const_int(32, 11)),
        false_value: Box::new(const_int(32, 22)),
    };
    assert_eq!(eval(&s, &mut counter), MaybeConst::Const(11));
}

#[test]
fn constant_element_address() {
    let mut counter = TempCounter { next: 0 };
    let array = IrType::Array { element_type: Box::new(IrType::Integer { bits: 32 }), num_elements: 4 };
    let gep = Constant::GetElementPtr {
        address: Box::new(Constant::GlobalReference {
            name: LocalName::Name("table".to_string()),
            ty: array,
        }),
        indices: vec![const_int(32, 0), const_int(32, 2)],
        in_bounds: true,
    };
    assert_eq!(eval(&gep, &mut counter), MaybeConst::Const(108));
    let as_int = Constant::PtrToInt { operand: Box::new(gep), to_type: IrType::Integer { bits: 32 } };
    assert_eq!(eval(&as_int, &mut counter), MaybeConst::Const(108));
}

#[test]
fn structure_of_words() {
    let mut counter = TempCounter { next: 0 };
    let s = Constant::Struct { values: vec![const_int(32, 1), const_int(32, 2)], is_packed: false };
    let (cmds, holders) = words_of(eval(&s, &mut counter));
    assert_eq!(
        cmds,
        vec!["scoreboard players set %temp0 rust 1", "scoreboard players set %temp1 rust 2"]
    );
    assert_eq!(holders, vec!["%temp0", "%temp1"]);
    assert_eq!(counter.next, 2);
}

#[test]
fn integer_width_of_constants() {
    assert_eq!(int_bits_of(&const_int(16, 3)), Some(16));
    assert_eq!(int_bits_of(&Constant::Null), None);
    assert!(!is_vector_const(&const_int(32, 0)));
}
