//! Calls: to the builtins that act on the game world, to the compiler's
//! intrinsics, and to other functions, statically or through a pointer.
use vstd::prelude::*;
use crate::arith::{add_32_with_carry, add_32_with_carry_v, if_v};
use crate::blockkinds::{McBlock, block_of, block_text, mc_blocks};
use crate::calls::{
    compile_memcpy, compile_memset, memcpy_ok, memcpy_v, memset_ok, memset_v, setup_args_ok,
    setup_args_v, setup_arguments, setup_var_args_ok, setup_var_args_v, setup_var_arguments,
};
use crate::cir::{
    Command, CommandV, CondV, Execute, ExecuteCondition, ExecuteStoreKind, ExecuteSubCmd, McRange,
    ScoreHolder, ScoreOpKind, Selector, SelectorArg, SelectorVariable, SetBlock, SetBlockKind,
    StoreKindV, SubCmdV, Target, TargetV, commands_view,
};
use crate::constants::GlobalTable;
use crate::layout::{IrType, Types, layout_fits, type_layout, type_layout_spec};
use crate::locals::{LocalName, LocalNameV};
use crate::memory::{MaybeConst, MaybeConstV, TempCounter, get_unique_holder, temp_name};
use crate::operands::{
    Argument, Operand, eval_maybe_const, eval_operand, eval_operand_ok, eval_operand_spec,
    eval_operand_v, local_words, operand_ok,
};
use crate::ops::{eval_operands, operands_ok, operands_v};
use crate::registers::{
    add_lit, add_v, argptr, assign, assign_lit, assign_v, call, call_v, comment_v,
    const_holder_name, fixup_return_holder, holder_v, make_op, make_op_lit, mark_assertion_matches,
    matches_v, objective, objective_string, op_v, param, param_name, pop, pop_v, ptr, push,
    push_v, return_holder, return_name, set_v, stackbaseptr, stackptr, uuid, write_ptr,
    write_ptr_v,
};
use crate::render::cond_text;
use vstd::std_specs::bits::u32_leading_zeros;

verus! {

/// What a call calls, as far as compiling it needs.
#[derive(Debug)]
pub enum CallTarget {
    /// Inline assembly.
    InlineAsm,
    /// A function named by a global reference, possibly cast to another
    /// function type: its name, the result type it is called with, and
    /// whether it takes variable arguments.
    Static { name: String, result_type: IrType, is_var_arg: bool },
    /// A function pointer in a local, with the result type and whether the
    /// function takes variable arguments.
    Dynamic { function: Operand, result_type: IrType, is_var_arg: bool },
    /// Anything else.
    Unsupported,
}

/// The commands before a call, the commands after it when control returns
/// to a separate block, and the counter after.
pub type CallOutV = (Seq<CommandV>, Option<Seq<CommandV>>, nat);

/// Whether the compiled call `r`, with the counter at `next`, is `v`.
pub open spec fn call_out_is(r: (Vec<Command>, Option<Vec<Command>>), next: nat, v: CallOutV) -> bool {
    &&& commands_view(r.0@) == v.0
    &&& match r.1 {
        Some(a) => v.1 == Some(commands_view(a@)),
        None => v.1 is None,
    }
    &&& next == v.2
}

// ----------------------------------------------------------------------
// The turtle
// ----------------------------------------------------------------------

/// The entity that the world builtins act at.
pub open spec fn turtle_v() -> TargetV {
    TargetV::Selector { var: SelectorVariable::AllEntities, args: seq!["tag=turtle"@] }
}

/// `at @e[tag=turtle]`
pub open spec fn at_turtle_v() -> SubCmdV {
    SubCmdV::At { target: turtle_v() }
}

/// The condition that the block at the turtle is `block`.
pub open spec fn block_here_v(block: Seq<char>) -> CondV {
    CondV::Block { pos: "~ ~ ~"@, block }
}

/// `setblock ~ ~ ~ <block> replace`
pub open spec fn set_block_v(block: Seq<char>) -> CommandV {
    CommandV::SetBlock { pos: "~ ~ ~"@, block, kind: SetBlockKind::Replace }
}

fn turtle() -> (r: Target)
    ensures
        r@ == turtle_v(),
{
    let args = vec![SelectorArg(String::from_str("tag=turtle"))];
    let r = Target::Selector(Selector { var: SelectorVariable::AllEntities, args });
    assert(args@.map_values(|a: SelectorArg| a@) =~= seq!["tag=turtle"@]);
    r
}

fn block_here(block: String) -> (r: ExecuteCondition)
    ensures
        r@ == block_here_v(block@),
{
    ExecuteCondition::Block { pos: String::from_str("~ ~ ~"), block }
}

fn set_block(block: String) -> (r: Command)
    ensures
        r@ == set_block_v(block@),
{
    Command::SetBlock(SetBlock { pos: String::from_str("~ ~ ~"), block, kind: SetBlockKind::Replace })
}

/// `execute at @e[tag=turtle] run setblock ~ ~ ~ <block> replace`
pub open spec fn place_v(block: Seq<char>) -> CommandV {
    CommandV::Execute { subcommands: seq![at_turtle_v()], run: Some(Box::new(set_block_v(block))) }
}

/// `execute if score <h> matches k..=k at @e[tag=turtle] run setblock ...`
pub open spec fn place_if_v(h: Seq<char>, k: int) -> CommandV {
    CommandV::Execute {
        subcommands: seq![if_v(matches_v(h, McRange::Between(k as i32, k as i32))), at_turtle_v()],
        run: Some(Box::new(set_block_v(block_text(block_of(k as i32).unwrap())))),
    }
}

/// `execute at @e[tag=turtle] if block ~ ~ ~ <block> run <run>`
pub open spec fn when_block_v(block: Seq<char>, run: CommandV) -> CommandV {
    CommandV::Execute {
        subcommands: seq![at_turtle_v(), if_v(block_here_v(block))],
        run: Some(Box::new(run)),
    }
}

fn when_block(block: String, run: Command) -> (r: Command)
    ensures
        r@ == when_block_v(block@, run@),
{
    let mut e = Execute::new();
    e.with_at(turtle());
    e.with_if(block_here(block));
    let ghost subs = e.subcommands@;
    e.with_run(run);
    assert(e.subcommands@.map_values(|s: ExecuteSubCmd| s@) =~= seq![at_turtle_v(), if_v(block_here_v(block@))]);
    Command::Execute(e)
}

/// The commands of `turtle_set(block)`: a constant block is placed
/// directly; a computed one is compared with each block kind in turn.
pub open spec fn turtle_set_v(arg: Operand, g: Seq<(LocalName, u32)>, tys: Types, n: nat) -> (Seq<CommandV>, nat) {
    let m = eval_operand_spec(arg, g, tys, n);
    (
        seq![comment_v("call to turtle_set"@)] + match m.0 {
            MaybeConstV::Const(c) => seq![place_v(block_text(block_of(c).unwrap()))],
            MaybeConstV::NonConst(tmp, h) => tmp + Seq::new(10, |k: int| place_if_v(h[0], k)),
        },
        m.1,
    )
}

/// Whether `turtle_set(block)` can be compiled: the argument evaluates,
/// to a block kind when it is constant and into a holder otherwise.
pub open spec fn turtle_set_ok(arg: Operand, g: Seq<(LocalName, u32)>, tys: Types, n: nat) -> bool {
    let m = eval_operand_spec(arg, g, tys, n);
    &&& operand_ok(arg, g, tys, n)
    &&& match m.0 {
        MaybeConstV::Const(c) => block_of(c) is Some,
        MaybeConstV::NonConst(_, h) => h.len() >= 1,
    }
}

fn turtle_set(arg: &Operand, globals: &GlobalTable, tys: &Types, counter: &mut TempCounter) -> (r: Vec<Command>)
    requires
        turtle_set_ok(*arg, globals.addrs@, *tys, old(counter).next as nat),
    ensures
        (commands_view(r@), final(counter).next as nat) == turtle_set_v(
            *arg,
            globals.addrs@,
            *tys,
            old(counter).next as nat,
        ),
{
    let mut cmds = vec![Command::Comment(String::from_str("call to turtle_set"))];
    let ghost head = commands_view(cmds@);
    assert(head =~= seq![comment_v("call to turtle_set"@)]);
    match eval_maybe_const(arg, globals, tys, counter) {
        MaybeConst::Const(c) => {
            let b = match McBlock::try_from(c) {
                Ok(b) => b,
                Err(_) => {
                    return cmds;
                },
            };
            let mut e = Execute::new();
            e.with_at(turtle());
            e.with_run(set_block(b.text()));
            assert(e.subcommands@.map_values(|s: ExecuteSubCmd| s@) =~= seq![at_turtle_v()]);
            let c0 = Command::Execute(e);
            cmds.push(c0);
            assert(commands_view(cmds@) =~= head + seq![c0@]);
        },
        MaybeConst::NonConst(mut tmp, h) => {
            let ghost tv = commands_view(tmp@);
            cmds.append(&mut tmp);
            let ghost mid = commands_view(cmds@);
            assert(mid =~= head + tv);
            let hb = h[0].clone();
            let blocks = mc_blocks();
            let mut k: usize = 0;
            while k < 10
                invariant
                    k <= 10,
                    blocks@.len() == 10,
                    forall|i: int| 0 <= i < 10 ==> block_of(i as i32) == Some(#[trigger] blocks@[i]),
                    commands_view(cmds@) == mid + Seq::new(k as nat, |i: int| place_if_v(hb@, i)),
                decreases 10 - k,
            {
                let pos = k as i32;
                let mut e = Execute::new();
                e.with_if(crate::arith::matches(hb.clone(), McRange::Between(pos, pos)));
                e.with_at(turtle());
                e.with_run(set_block(blocks[k].text()));
                assert(e.subcommands@.map_values(|s: ExecuteSubCmd| s@) =~= seq![
                    if_v(matches_v(hb@, McRange::Between(pos, pos))),
                    at_turtle_v(),
                ]);
                let c = Command::Execute(e);
                assert(block_of(k as i32) == Some(blocks@[k as int]));
                assert(c@ == place_if_v(hb@, k as int));
                let ghost before = commands_view(cmds@);
                cmds.push(c);
                assert(commands_view(cmds@) =~= before.push(c@));
                assert(Seq::new((k + 1) as nat, |i: int| place_if_v(hb@, i)) =~= Seq::new(
                    k as nat,
                    |i: int| place_if_v(hb@, i),
                ).push(c@));
                k = k + 1;
            }
        },
    }
    cmds
}

/// `execute store success score <d> rust at @e[tag=turtle] if block ~ ~ ~ <block>`
pub open spec fn check_block_v(d: Seq<char>, block: Seq<char>) -> CommandV {
    CommandV::Execute {
        subcommands: seq![
            SubCmdV::Store {
                is_success: true,
                kind: StoreKindV::Score { target: holder_v(d), objective: objective() },
            },
            at_turtle_v(),
            if_v(block_here_v(block)),
        ],
        run: None,
    }
}

fn check_block(d: ScoreHolder, block: String) -> (r: Command)
    ensures
        r@ == check_block_v(d@, block@),
{
    let ghost bv = block@;
    let mut e = Execute::new();
    e.with_subcmd(
        ExecuteSubCmd::Store {
            is_success: true,
            kind: ExecuteStoreKind::Score { target: uuid(d), objective: objective_string() },
        },
    );
    e.with_at(turtle());
    e.with_if(block_here(block));
    let r = Command::Execute(e);
    assert(e.subcommands@.map_values(|s: ExecuteSubCmd| s@) =~= seq![
        e.subcommands@[0]@,
        at_turtle_v(),
        if_v(block_here_v(bv)),
    ]);
    r
}

/// The commands of `turtle_get()`: 0, or the number of the block kind at
/// the turtle, for each kind other than air.
pub open spec fn turtle_get_v(d: Seq<char>) -> Seq<CommandV> {
    seq![comment_v("call to turtle_get"@), set_v(d, 0i32)] + Seq::new(
        9,
        |k: int| when_block_v(block_text(block_of((k + 1) as i32).unwrap()), set_v(d, (k + 1) as i32)),
    )
}

fn turtle_get(d: ScoreHolder) -> (r: Vec<Command>)
    ensures
        commands_view(r@) == turtle_get_v(d@),
{
    let mut cmds = vec![
        Command::Comment(String::from_str("call to turtle_get")),
        assign_lit(d.clone(), 0),
    ];
    let ghost head = commands_view(cmds@);
    assert(head =~= seq![comment_v("call to turtle_get"@), set_v(d@, 0i32)]);
    let blocks = mc_blocks();
    let mut k: usize = 1;
    while k < 10
        invariant
            1 <= k <= 10,
            blocks@.len() == 10,
            forall|i: int| 0 <= i < 10 ==> block_of(i as i32) == Some(#[trigger] blocks@[i]),
            commands_view(cmds@) == head + Seq::new(
                (k - 1) as nat,
                |i: int| when_block_v(block_text(block_of((i + 1) as i32).unwrap()), set_v(d@, (i + 1) as i32)),
            ),
        decreases 10 - k,
    {
        assert(block_of(k as i32) == Some(blocks@[k as int]));
        let c = when_block(blocks[k].text(), assign_lit(d.clone(), k as i32));
        let ghost before = commands_view(cmds@);
        cmds.push(c);
        assert(commands_view(cmds@) =~= before.push(c@));
        assert(Seq::new(
            k as nat,
            |i: int| when_block_v(block_text(block_of((i + 1) as i32).unwrap()), set_v(d@, (i + 1) as i32)),
        ) =~= Seq::new(
            (k - 1) as nat,
            |i: int| when_block_v(block_text(block_of((i + 1) as i32).unwrap()), set_v(d@, (i + 1) as i32)),
        ).push(c@));
        k = k + 1;
    }
    cmds
}

/// The characters that `turtle_get_char` recognises, in the order it
/// tests them.
pub open spec fn banner_chars() -> Seq<char> {
    "ABCDEFGHIJKLMNOPQRSTUVWXYZ0123456789[](){}=%+<"@
}

/// Whether the banner of a character is white rather than light blue.
pub open spec fn is_white_banner(c: char) -> bool {
    c == 'H' || c == 'Q' || c == 'S' || c == ')' || c == '(' || c == '='
}

/// The block of a wall banner named with the character `c`.
pub open spec fn banner_text(c: char) -> Seq<char> {
    (if is_white_banner(c) {
        "minecraft:white_wall_banner"@
    } else {
        "minecraft:light_blue_wall_banner"@
    }) + "{ CustomName: \"{\\\"text\\\":\\\""@ + seq![c] + "\\\"}\"}"@
}

/// The commands of `turtle_get_char()`: a space, or the character of the
/// banner at the turtle, for each character that a banner can show.
pub open spec fn turtle_get_char_v(d: Seq<char>) -> Seq<CommandV> {
    seq![set_v(d, 32i32)] + Seq::new(
        banner_chars().len(),
        |k: int| when_block_v(banner_text(banner_chars()[k]), set_v(d, banner_chars()[k] as i32)),
    )
}

fn turtle_get_char(d: ScoreHolder) -> (r: Vec<Command>)
    ensures
        commands_view(r@) == turtle_get_char_v(d@),
{
    let chars = "ABCDEFGHIJKLMNOPQRSTUVWXYZ0123456789[](){}=%+<";
    proof {
        reveal_strlit("ABCDEFGHIJKLMNOPQRSTUVWXYZ0123456789[](){}=%+<");
    }
    let mut cmds = vec![assign_lit(d.clone(), 32)];
    let ghost head = commands_view(cmds@);
    assert(head =~= seq![set_v(d@, 32i32)]);
    let n = chars.unicode_len();
    let mut k: usize = 0;
    while k < n
        invariant
            k <= n,
            n == banner_chars().len(),
            chars@ == banner_chars(),
            chars.is_ascii(),
            commands_view(cmds@) == head + Seq::new(
                k as nat,
                |i: int| when_block_v(banner_text(banner_chars()[i]), set_v(d@, banner_chars()[i] as i32)),
            ),
        decreases n - k,
    {
        let c = chars.get_char(k);
        let white = c == 'H' || c == 'Q' || c == 'S' || c == ')' || c == '(' || c == '=';
        let mut block = if white {
            String::from_str("minecraft:white_wall_banner")
        } else {
            String::from_str("minecraft:light_blue_wall_banner")
        };
        block.append("{ CustomName: \"{\\\"text\\\":\\\"");
        let one = chars.substring_ascii(k, k + 1);
        block.append(one);
        block.append("\\\"}\"}");
        proof {
            reveal_strlit("minecraft:white_wall_banner");
            reveal_strlit("minecraft:light_blue_wall_banner");
            reveal_strlit("{ CustomName: \"{\\\"text\\\":\\\"");
            reveal_strlit("\\\"}\"}");
            assert(one@ =~= seq![c]);
        }
        assert(block@ == banner_text(c));
        let cmd = when_block(block, assign_lit(d.clone(), c as i32));
        let ghost before = commands_view(cmds@);
        cmds.push(cmd);
        assert(commands_view(cmds@) =~= before.push(cmd@));
        assert(Seq::new(
            (k + 1) as nat,
            |i: int| when_block_v(banner_text(banner_chars()[i]), set_v(d@, banner_chars()[i] as i32)),
        ) =~= Seq::new(
            k as nat,
            |i: int| when_block_v(banner_text(banner_chars()[i]), set_v(d@, banner_chars()[i] as i32)),
        ).push(cmd@));
        k = k + 1;
    }
    cmds
}

// ----------------------------------------------------------------------
// Calls
// ----------------------------------------------------------------------

/// The holders of the result of a call: none when the call has no
/// destination.
pub open spec fn dest_words(dest: Option<LocalNameV>, result_type: IrType, tys: Types) -> Seq<Seq<char>> {
    match dest {
        Some(dv) => local_words(dv, type_layout_spec(result_type, tys).unwrap().size as nat),
        None => Seq::empty(),
    }
}

/// The commands that copy the returned words into the result's holders.
pub open spec fn take_result_v(d: Seq<Seq<char>>) -> Seq<CommandV> {
    Seq::new(d.len(), |i: int| assign_v(d[i], return_name(i as nat)))
}

/// The marking that the one-bit value in `h` is 1.
pub open spec fn assume_mark_v(h: Seq<char>) -> CommandV {
    comment_v("!INTERPRETER: ASSERT "@ + "if "@ + cond_text(matches_v(h, McRange::Between(1i32, 1i32))))
}

/// The commands of a call to the function `name` that is not a builtin
/// or an intrinsic, before and after the call: the arguments are set up
/// (on the stack as well when it takes variable arguments), the return
/// address is pushed and the call is marked for linking; afterwards the
/// result is taken from the returned words and, for variable arguments,
/// the stack pointer is reset from the frame pointer, the frame pointer is
/// popped, and the argument pointer is pushed (a push, not a pop, so the
/// argument pointer saved before the call stays on the stack).
pub open spec fn ordinary_call_v(
    name: Seq<char>,
    is_var_arg: bool,
    args: Seq<Argument>,
    d: Seq<Seq<char>>,
    g: Seq<(LocalName, u32)>,
    tys: Types,
    n: nat,
) -> CallOutV {
    let s = if is_var_arg {
        setup_var_args_v(args, args.len(), g, tys, n)
    } else {
        setup_args_v(args, args.len(), g, tys, n)
    };
    let before = seq![comment_v("Calling "@ + name)] + (if is_var_arg {
        push_v("%argptr"@) + push_v("%stackbaseptr"@) + seq![
            assign_v("%argptr"@, "%stackptr"@),
            assign_v("%stackbaseptr"@, "%stackptr"@),
        ]
    } else {
        Seq::empty()
    }) + s.0 + push_v("%%fixup_return_addr"@) + seq![comment_v("!FIXUPCALL "@ + name)];
    let after = take_result_v(d) + if is_var_arg {
        seq![assign_v("%stackptr"@, "%stackbaseptr"@)] + pop_v("%stackbaseptr"@) + push_v("%argptr"@)
    } else {
        Seq::empty()
    };
    (before, Some(after), s.1)
}

/// The builtins and intrinsics that calls are compiled specially for.
#[derive(Debug, Clone, Copy, PartialEq, Eq)]
pub enum Builtin {
    Assume,
    /// The builtins that print text or splice command text into the
    /// program.
    Text,
    TurtleSet,
    TurtleCheck,
    TurtleGetChar,
    TurtleGet,
    DebugInfo,
    CountLeadingZeros,
    SubWithOverflow32,
    FunnelShiftRight,
    Memset,
    Memcpy,
    SubWithOverflow8,
    AddWithOverflow8,
    Lifetime,
    VaStart,
    VaEnd,
    ByteCompare,
    /// Any other function.
    Other,
}

/// The builtin or intrinsic that a function name names.
pub open spec fn builtin_of(name: Seq<char>) -> Builtin {
    if name == "llvm.assume"@ {
        Builtin::Assume
    } else if name == "insert_asm"@ || name == "print_raw"@ || name == "print"@ {
        Builtin::Text
    } else if name == "turtle_set"@ {
        Builtin::TurtleSet
    } else if name == "turtle_check"@ {
        Builtin::TurtleCheck
    } else if name == "turtle_get_char"@ {
        Builtin::TurtleGetChar
    } else if name == "turtle_get"@ {
        Builtin::TurtleGet
    } else if name == "llvm.dbg.label"@ || name == "llvm.dbg.declare"@ || name == "llvm.dbg.value"@ {
        Builtin::DebugInfo
    } else if name == "llvm.ctlz.i32"@ {
        Builtin::CountLeadingZeros
    } else if name == "llvm.usub.with.overflow.i32"@ {
        Builtin::SubWithOverflow32
    } else if name == "llvm.fshr.i32"@ {
        Builtin::FunnelShiftRight
    } else if name == "llvm.memset.p0i8.i32"@ || name == "llvm.memset.p0i8.i64"@ {
        Builtin::Memset
    } else if name == "llvm.memcpy.p0i8.p0i8.i32"@ {
        Builtin::Memcpy
    } else if name == "llvm.usub.with.overflow.i8"@ {
        Builtin::SubWithOverflow8
    } else if name == "llvm.uadd.with.overflow.i8"@ {
        Builtin::AddWithOverflow8
    } else if name == "llvm.lifetime.start.p0i8"@ || name == "llvm.lifetime.end.p0i8"@ {
        Builtin::Lifetime
    } else if name == "llvm.va_start"@ {
        Builtin::VaStart
    } else if name == "llvm.va_end"@ {
        Builtin::VaEnd
    } else if name == "bcmp"@ {
        Builtin::ByteCompare
    } else {
        Builtin::Other
    }
}

/// The builtin or intrinsic that a function name names.
pub fn classify(name: &str) -> (r: Builtin)
    ensures
        r == builtin_of(name@),
{
    if crate::text::str_eq(name, "llvm.assume") {
        Builtin::Assume
    } else if crate::text::str_eq(name, "insert_asm") || crate::text::str_eq(name, "print_raw") || crate::text::str_eq(name, "print") {
        Builtin::Text
    } else if crate::text::str_eq(name, "turtle_set") {
        Builtin::TurtleSet
    } else if crate::text::str_eq(name, "turtle_check") {
        Builtin::TurtleCheck
    } else if crate::text::str_eq(name, "turtle_get_char") {
        Builtin::TurtleGetChar
    } else if crate::text::str_eq(name, "turtle_get") {
        Builtin::TurtleGet
    } else if crate::text::str_eq(name, "llvm.dbg.label") || crate::text::str_eq(name, "llvm.dbg.declare") || crate::text::str_eq(
        name,
        "llvm.dbg.value",
    ) {
        Builtin::DebugInfo
    } else if crate::text::str_eq(name, "llvm.ctlz.i32") {
        Builtin::CountLeadingZeros
    } else if crate::text::str_eq(name, "llvm.usub.with.overflow.i32") {
        Builtin::SubWithOverflow32
    } else if crate::text::str_eq(name, "llvm.fshr.i32") {
        Builtin::FunnelShiftRight
    } else if crate::text::str_eq(name, "llvm.memset.p0i8.i32") || crate::text::str_eq(name, "llvm.memset.p0i8.i64") {
        Builtin::Memset
    } else if crate::text::str_eq(name, "llvm.memcpy.p0i8.p0i8.i32") {
        Builtin::Memcpy
    } else if crate::text::str_eq(name, "llvm.usub.with.overflow.i8") {
        Builtin::SubWithOverflow8
    } else if crate::text::str_eq(name, "llvm.uadd.with.overflow.i8") {
        Builtin::AddWithOverflow8
    } else if crate::text::str_eq(name, "llvm.lifetime.start.p0i8") || crate::text::str_eq(name, "llvm.lifetime.end.p0i8") {
        Builtin::Lifetime
    } else if crate::text::str_eq(name, "llvm.va_start") {
        Builtin::VaStart
    } else if crate::text::str_eq(name, "llvm.va_end") {
        Builtin::VaEnd
    } else if crate::text::str_eq(name, "bcmp") {
        Builtin::ByteCompare
    } else {
        Builtin::Other
    }
}

/// The commands of a call to the byte comparison intrinsic.
pub open spec fn byte_compare_call_v(
    args: Seq<Argument>,
    d: Seq<Seq<char>>,
    g: Seq<(LocalName, u32)>,
    tys: Types,
    n: nat,
) -> CallOutV {
    returning_call_v("intrinsic:bcmp"@, args, d, g, tys, n)
}

/// The name of the byte comparison intrinsic.
fn byte_compare_name() -> (r: &'static str)
    ensures
        r@ == "intrinsic:bcmp"@,
{
    "intrinsic:bcmp"
}

/// The commands of a call to `llvm.assume`: the argument is marked as 1.
pub open spec fn assume_call_v(args: Seq<Argument>, g: Seq<(LocalName, u32)>, tys: Types, n: nat) -> CallOutV {
    let e = eval_operand_v(args[0].value, g, tys, n);
    (e.0.push(assume_mark_v(e.1[0])), None, e.2)
}

/// The commands of a call to `turtle_check`: whether the block at the
/// turtle is of the constant kind.
pub open spec fn turtle_check_call_v(args: Seq<Argument>, d: Seq<Seq<char>>, g: Seq<(LocalName, u32)>, tys: Types, n: nat) -> CallOutV {
    let m = eval_operand_spec(args[0].value, g, tys, n);
    (seq![check_block_v(d[0], block_text(block_of(m.0->Const_0).unwrap()))], None, m.1)
}

/// The commands of a call to `llvm.ctlz.i32`: a constant is counted here;
/// otherwise the intrinsic counts.
pub open spec fn ctlz_call_v(args: Seq<Argument>, d: Seq<Seq<char>>, g: Seq<(LocalName, u32)>, tys: Types, n: nat) -> CallOutV {
    let m = eval_operand_spec(args[0].value, g, tys, n);
    match m.0 {
        MaybeConstV::Const(c) => (seq![set_v(d[0], u32_leading_zeros(c as u32) as i32)], None, m.1),
        MaybeConstV::NonConst(tmp, op) => (
            tmp + seq![
                assign_v(param_name(0, 0), op[0]),
                call_v("intrinsic:llvm_ctlz_i32"@),
                assign_v(d[0], return_name(0)),
            ],
            None,
            m.1,
        ),
    }
}

/// The commands of a call to `llvm.usub.with.overflow.i32`: the second
/// argument is negated and added to the first, setting the flag on a
/// carry of that addition. The flag is thus the carry of `x + (-y)`, which
/// is set when no borrow occurs (and for `y == 0` is clear), the reverse
/// of an unsigned-subtraction overflow flag for most inputs.
pub open spec fn usub32_call_v(args: Seq<Argument>, d: Seq<Seq<char>>, g: Seq<(LocalName, u32)>, tys: Types, n: nat) -> CallOutV {
    let s = setup_args_v(args, args.len(), g, tys, n);
    (
        seq![set_v(d[1], 0i32)] + s.0 + seq![
            op_v(param_name(1, 0), ScoreOpKind::MulAssign, const_holder_name(-1i32)),
        ] + add_32_with_carry_v(param_name(0, 0), param_name(1, 0), d[0], set_v(d[1], 1i32)),
        None,
        s.1,
    )
}

/// The commands of a call to an intrinsic that takes its arguments in
/// the parameters and returns one word: `name` is called and its result
/// copied.
pub open spec fn returning_call_v(
    intrinsic: Seq<char>,
    args: Seq<Argument>,
    d: Seq<Seq<char>>,
    g: Seq<(LocalName, u32)>,
    tys: Types,
    n: nat,
) -> CallOutV {
    let s = setup_args_v(args, args.len(), g, tys, n);
    (s.0 + seq![call_v(intrinsic), assign_v(d[0], return_name(0))], None, s.1)
}

/// The commands of a call to `llvm.usub.with.overflow.i8`: the negated
/// second byte, moved up by 256, is added to the first.
pub open spec fn usub8_call_v(args: Seq<Argument>, d: Seq<Seq<char>>, g: Seq<(LocalName, u32)>, tys: Types, n: nat) -> CallOutV {
    let o = operands_v(args[0].value, args[1].value, g, tys, n);
    let t = temp_name(o.3);
    (
        o.0 + seq![
            assign_v(t, o.2[0]),
            op_v(t, ScoreOpKind::MulAssign, const_holder_name(-1i32)),
            add_v(t, 256i32),
            assign_v(d[0], o.1[0]),
            op_v(d[0], ScoreOpKind::AddAssign, t),
        ],
        None,
        o.3 + 1,
    )
}

/// The commands of a call to `llvm.uadd.with.overflow.i8`: the bytes are
/// added.
pub open spec fn uadd8_call_v(args: Seq<Argument>, d: Seq<Seq<char>>, g: Seq<(LocalName, u32)>, tys: Types, n: nat) -> CallOutV {
    let o = operands_v(args[0].value, args[1].value, g, tys, n);
    (o.0 + seq![assign_v(d[0], o.1[0]), op_v(d[0], ScoreOpKind::AddAssign, o.2[0])], None, o.3)
}

/// The commands of a call to `llvm.va_start`: the list pointer in the
/// first argument is set to the start of the variable arguments.
pub open spec fn va_start_call_v(args: Seq<Argument>, g: Seq<(LocalName, u32)>, tys: Types, n: nat) -> CallOutV {
    let s = setup_args_v(args, args.len(), g, tys, n);
    (
        s.0 + seq![
            assign_v("%ptr"@, param_name(0, 0)),
            call_v("intrinsic:setptr"@),
            write_ptr_v("%argptr"@),
        ],
        None,
        s.1,
    )
}

/// The commands of a call to the function `name` into the holders `d`
/// (`has_dest` says whether the call has a destination), and the counter
/// after.
pub open spec fn static_call_v(
    name: Seq<char>,
    is_var_arg: bool,
    args: Seq<Argument>,
    has_dest: bool,
    d: Seq<Seq<char>>,
    g: Seq<(LocalName, u32)>,
    tys: Types,
    n: nat,
) -> CallOutV {
    match builtin_of(name) {
        Builtin::Assume => assume_call_v(args, g, tys, n),
        Builtin::TurtleSet => {
            let t = turtle_set_v(args[0].value, g, tys, n);
            (t.0, None, t.1)
        },
        Builtin::TurtleCheck => turtle_check_call_v(args, d, g, tys, n),
        Builtin::TurtleGetChar => (turtle_get_char_v(d[0]), None, n),
        Builtin::TurtleGet => (turtle_get_v(d[0]), None, n),
        Builtin::CountLeadingZeros => ctlz_call_v(args, d, g, tys, n),
        Builtin::SubWithOverflow32 => usub32_call_v(args, d, g, tys, n),
        Builtin::FunnelShiftRight => returning_call_v("intrinsic:llvm_fshr_i32"@, args, d, g, tys, n),
        Builtin::Memset => {
            let m = memset_v(args, g, tys, n);
            (m.0, None, m.1)
        },
        Builtin::Memcpy => memcpy_v(args, g, tys, n),
        Builtin::SubWithOverflow8 => usub8_call_v(args, d, g, tys, n),
        Builtin::AddWithOverflow8 => uadd8_call_v(args, d, g, tys, n),
        Builtin::VaStart => va_start_call_v(args, g, tys, n),
        Builtin::ByteCompare => byte_compare_call_v(args, d, g, tys, n),
        Builtin::Other => ordinary_call_v(name, is_var_arg, args, d, g, tys, n),
        _ => (Seq::empty(), None, n),
    }
}

/// Whether a call to the function `name` can be compiled: it is not one of
/// the builtins that print text or splice command text, each builtin and
/// intrinsic gets the arguments and the destination it reads, and the
/// arguments evaluate.
pub open spec fn static_call_ok(
    name: Seq<char>,
    is_var_arg: bool,
    args: Seq<Argument>,
    has_dest: bool,
    d: Seq<Seq<char>>,
    g: Seq<(LocalName, u32)>,
    tys: Types,
    n: nat,
) -> bool {
    let setup = setup_args_ok(args, args.len(), g, tys, n);
    match builtin_of(name) {
        Builtin::Assume => {
            &&& args.len() == 1
            &&& !has_dest
            &&& eval_operand_ok(args[0].value, g, tys, n)
            &&& eval_operand_v(args[0].value, g, tys, n).1.len() >= 1
        },
        Builtin::Text => false,
        Builtin::TurtleSet => args.len() == 1 && !has_dest && turtle_set_ok(args[0].value, g, tys, n),
        Builtin::TurtleCheck => {
            let m = eval_operand_spec(args[0].value, g, tys, n);
            &&& args.len() == 1
            &&& has_dest
            &&& d.len() == 1
            &&& operand_ok(args[0].value, g, tys, n)
            &&& m.0 matches MaybeConstV::Const(c) && block_of(c) is Some
        },
        Builtin::TurtleGetChar | Builtin::TurtleGet => args.len() == 0 && has_dest && d.len() == 1,
        Builtin::DebugInfo | Builtin::VaEnd => true,
        Builtin::CountLeadingZeros => {
            let m = eval_operand_spec(args[0].value, g, tys, n);
            &&& args.len() >= 1
            &&& has_dest
            &&& d.len() >= 1
            &&& operand_ok(args[0].value, g, tys, n)
            &&& m.0 matches MaybeConstV::NonConst(_, op) ==> op.len() >= 1
        },
        Builtin::SubWithOverflow32 => has_dest && d.len() >= 2 && setup,
        Builtin::FunnelShiftRight => has_dest && d.len() >= 1 && setup,
        Builtin::Memset => !has_dest && memset_ok(args, g, tys, n),
        Builtin::Memcpy => !has_dest && memcpy_ok(args, g, tys, n),
        Builtin::SubWithOverflow8 | Builtin::AddWithOverflow8 => {
            let o = operands_v(args[0].value, args[1].value, g, tys, n);
            &&& has_dest
            &&& d.len() >= 1
            &&& args.len() == 2
            &&& operands_ok(args[0].value, args[1].value, g, tys, n)
            &&& o.1.len() >= 1
            &&& o.2.len() >= 1
            &&& o.3 < u32::MAX
        },
        Builtin::Lifetime => !has_dest,
        Builtin::VaStart => setup,
        Builtin::ByteCompare => args.len() == 3 && has_dest && d.len() == 1 && setup,
        Builtin::Other => if is_var_arg {
            setup_var_args_ok(args, args.len(), g, tys, n)
        } else {
            setup
        },
    }
}

/// The commands of a call through the function pointer `function`, before
/// and after it, and the counter after: the pointer is brought into a
/// holder, the return address is pushed, the arguments are set up, and
/// the call is marked with the pointer's holder.
pub open spec fn dynamic_call_v(
    function: Operand,
    args: Seq<Argument>,
    d: Seq<Seq<char>>,
    g: Seq<(LocalName, u32)>,
    tys: Types,
    n: nat,
) -> CallOutV {
    let e = eval_operand_v(function, g, tys, n);
    let s = setup_args_v(args, args.len(), g, tys, e.2);
    (
        e.0 + push_v("%%fixup_return_addr"@) + s.0 + seq![comment_v("!DYNCALL "@ + e.1[0])],
        Some(take_result_v(d)),
        s.1,
    )
}

/// The commands of a call to `target` with `args` into `dest`, and the
/// counter after. Inline assembly and unsupported callees give nothing.
pub open spec fn compiled_call_v(
    target: CallTarget,
    args: Seq<Argument>,
    dest: Option<LocalNameV>,
    g: Seq<(LocalName, u32)>,
    tys: Types,
    n: nat,
) -> CallOutV {
    match target {
        CallTarget::Static { name, result_type, is_var_arg } => static_call_v(
            name@,
            is_var_arg,
            args,
            dest is Some,
            dest_words(dest, result_type, tys),
            g,
            tys,
            n,
        ),
        CallTarget::Dynamic { function, result_type, .. } => dynamic_call_v(
            function,
            args,
            dest_words(dest, result_type, tys),
            g,
            tys,
            n,
        ),
        _ => (Seq::empty(), None, n),
    }
}

/// Whether a call can be compiled: the result type has a layout, a call
/// through a pointer is to a function without variable arguments whose
/// pointer is one word, and a static call satisfies [`static_call_ok`].
pub open spec fn compiled_call_ok(
    target: CallTarget,
    args: Seq<Argument>,
    dest: Option<LocalNameV>,
    g: Seq<(LocalName, u32)>,
    tys: Types,
    n: nat,
) -> bool {
    match target {
        CallTarget::Static { name, result_type, is_var_arg } => {
            &&& layout_fits(result_type, tys.named@, tys.named@.len())
            &&& static_call_ok(
                name@,
                is_var_arg,
                args,
                dest is Some,
                dest_words(dest, result_type, tys),
                g,
                tys,
                n,
            )
        },
        CallTarget::Dynamic { function, result_type, is_var_arg } => {
            let e = eval_operand_v(function, g, tys, n);
            &&& !is_var_arg
            &&& layout_fits(result_type, tys.named@, tys.named@.len())
            &&& eval_operand_ok(function, g, tys, n)
            &&& e.1.len() == 1
            &&& setup_args_ok(args, args.len(), g, tys, e.2)
        },
        _ => true,
    }
}

fn take_result(d: &Vec<ScoreHolder>) -> (r: Vec<Command>)
    ensures
        commands_view(r@) == take_result_v(d@.map_values(|x: ScoreHolder| x@)),
{
    let ghost vd = d@.map_values(|x: ScoreHolder| x@);
    let mut out: Vec<Command> = Vec::new();
    let mut i: usize = 0;
    while i < d.len()
        invariant
            i <= d@.len(),
            vd == d@.map_values(|x: ScoreHolder| x@),
            commands_view(out@) == take_result_v(vd).take(i as int),
        decreases d@.len() - i,
    {
        let c = assign(d[i].clone(), return_holder(i));
        assert(c@ == take_result_v(vd)[i as int]);
        let ghost before = commands_view(out@);
        out.push(c);
        assert(commands_view(out@) =~= before.push(c@));
        assert(take_result_v(vd).take(i + 1) =~= take_result_v(vd).take(i as int).push(c@));
        i = i + 1;
    }
    assert(take_result_v(vd).take(d@.len() as int) =~= take_result_v(vd));
    out
}

fn append_all(cmds: &mut Vec<Command>, more: Vec<Command>)
    ensures
        commands_view(final(cmds)@) == commands_view(old(cmds)@) + commands_view(more@),
{
    let mut m = more;
    let ghost mv = commands_view(m@);
    cmds.append(&mut m);
    assert(commands_view(cmds@) =~= commands_view(old(cmds)@) + mv);
}

fn push1(cmds: &mut Vec<Command>, c: Command)
    ensures
        commands_view(final(cmds)@) == commands_view(old(cmds)@).push(c@),
{
    cmds.push(c);
    assert(commands_view(cmds@) =~= commands_view(old(cmds)@).push(c@));
}

/// Compiles a call to a function that is not a builtin or an intrinsic.
fn ordinary_call(
    name: &str,
    is_var_arg: bool,
    arguments: &Vec<Argument>,
    d: &Vec<ScoreHolder>,
    globals: &GlobalTable,
    tys: &Types,
    counter: &mut TempCounter,
) -> (r: (Vec<Command>, Option<Vec<Command>>))
    requires
        if is_var_arg {
            setup_var_args_ok(arguments@, arguments@.len(), globals.addrs@, *tys, old(counter).next as nat)
        } else {
            setup_args_ok(arguments@, arguments@.len(), globals.addrs@, *tys, old(counter).next as nat)
        },
    ensures
        call_out_is(
            r,
            final(counter).next as nat,
            ordinary_call_v(
                name@,
                is_var_arg,
                arguments@,
                d@.map_values(|x: ScoreHolder| x@),
                globals.addrs@,
                *tys,
                old(counter).next as nat,
            ),
        ),
{
    let mut text = String::from_str("Calling ");
    text.append(name);
    proof {
        reveal_strlit("Calling ");
        reveal_strlit("!FIXUPCALL ");
    }
    let mut before = vec![Command::Comment(text)];
    let ghost head = commands_view(before@);
    if is_var_arg {
        append_all(&mut before, push(argptr()));
        append_all(&mut before, push(stackbaseptr()));
        push1(&mut before, assign(argptr(), stackptr()));
        push1(&mut before, assign(stackbaseptr(), stackptr()));
        append_all(&mut before, setup_var_arguments(arguments, globals, tys, counter));
    } else {
        append_all(&mut before, setup_arguments(arguments, globals, tys, counter));
    }
    append_all(&mut before, push(fixup_return_holder()));
    let mut mark = String::from_str("!FIXUPCALL ");
    mark.append(name);
    push1(&mut before, Command::Comment(mark));
    let mut after = take_result(d);
    if is_var_arg {
        push1(&mut after, assign(stackptr(), stackbaseptr()));
        append_all(&mut after, pop(stackbaseptr()));
        append_all(&mut after, push(argptr()));
    }
    let ghost v = ordinary_call_v(
        name@,
        is_var_arg,
        arguments@,
        d@.map_values(|x: ScoreHolder| x@),
        globals.addrs@,
        *tys,
        old(counter).next as nat,
    );
    assert(commands_view(before@) =~= v.0);
    assert(commands_view(after@) =~= v.1.unwrap());
    (before, Some(after))
}

fn one(c: Command) -> (r: Vec<Command>)
    ensures
        commands_view(r@) == seq![c@],
{
    let v = vec![c];
    assert(commands_view(v@) =~= seq![c@]);
    v
}

fn none_cmds() -> (r: Vec<Command>)
    ensures
        commands_view(r@) == Seq::<CommandV>::empty(),
{
    let v: Vec<Command> = Vec::new();
    assert(commands_view(v@) =~= Seq::<CommandV>::empty());
    v
}

/// Compiles a call to `turtle_check`.
fn turtle_check_call(
    arguments: &Vec<Argument>,
    d: &Vec<ScoreHolder>,
    globals: &GlobalTable,
    tys: &Types,
    counter: &mut TempCounter,
) -> (r: (Vec<Command>, Option<Vec<Command>>))
    requires
        arguments@.len() >= 1,
        d@.len() >= 1,
        operand_ok(arguments@[0].value, globals.addrs@, *tys, old(counter).next as nat),
    ensures
        call_out_is(
            r,
            final(counter).next as nat,
            turtle_check_call_v(arguments@, d@.map_values(|x: ScoreHolder| x@), globals.addrs@, *tys, old(counter).next as nat),
        ) || !(eval_operand_spec(arguments@[0].value, globals.addrs@, *tys, old(counter).next as nat).0 matches MaybeConstV::Const(c) && block_of(c) is Some),
{
    match eval_maybe_const(&arguments[0].value, globals, tys, counter) {
        MaybeConst::Const(c) => {
            match McBlock::try_from(c) {
                Ok(b) => (one(check_block(d[0].clone(), b.text())), None),
                Err(_) => (none_cmds(), None),
            }
        },
        MaybeConst::NonConst(_, _) => (none_cmds(), None),
    }
}

/// Compiles a call to `llvm.assume`.
fn assume_call(arguments: &Vec<Argument>, globals: &GlobalTable, tys: &Types, counter: &mut TempCounter) -> (r: (
    Vec<Command>,
    Option<Vec<Command>>,
))
    requires
        arguments@.len() >= 1,
        eval_operand_ok(arguments@[0].value, globals.addrs@, *tys, old(counter).next as nat),
        eval_operand_v(arguments@[0].value, globals.addrs@, *tys, old(counter).next as nat).1.len() >= 1,
    ensures
        call_out_is(r, final(counter).next as nat, assume_call_v(arguments@, globals.addrs@, *tys, old(counter).next as nat)),
{
    let (mut cmds, op) = eval_operand(&arguments[0].value, globals, tys, counter);
    push1(&mut cmds, mark_assertion_matches(false, op[0].clone(), McRange::Between(1, 1)));
    (cmds, None)
}

/// Compiles a call to `llvm.ctlz.i32`.
fn ctlz_call(
    arguments: &Vec<Argument>,
    d: &Vec<ScoreHolder>,
    globals: &GlobalTable,
    tys: &Types,
    counter: &mut TempCounter,
) -> (r: (Vec<Command>, Option<Vec<Command>>))
    requires
        arguments@.len() >= 1,
        d@.len() >= 1,
        operand_ok(arguments@[0].value, globals.addrs@, *tys, old(counter).next as nat),
        eval_operand_spec(arguments@[0].value, globals.addrs@, *tys, old(counter).next as nat).0 matches MaybeConstV::NonConst(_, op) ==> op.len() >= 1,
    ensures
        call_out_is(r, final(counter).next as nat, ctlz_call_v(arguments@, d@.map_values(|x: ScoreHolder| x@), globals.addrs@, *tys, old(counter).next as nat)),
{
    match eval_maybe_const(&arguments[0].value, globals, tys, counter) {
        MaybeConst::Const(c) => {
            let zeros = (c as u32).leading_zeros();
            assert(d@.map_values(|x: ScoreHolder| x@)[0] == d@[0]@);
            (one(assign_lit(d[0].clone(), zeros as i32)), None)
        },
        MaybeConst::NonConst(tmp, op) => {
            let mut cmds = tmp;
            let ghost start = commands_view(cmds@);
            push1(&mut cmds, assign(param(0, 0), op[0].clone()));
            push1(&mut cmds, call("intrinsic:llvm_ctlz_i32"));
            push1(&mut cmds, assign(d[0].clone(), return_holder(0)));
            assert(d@.map_values(|x: ScoreHolder| x@)[0] == d@[0]@);
            assert(op@.map_values(|x: ScoreHolder| x@)[0] == op@[0]@);
            assert(commands_view(cmds@) =~= start + seq![
                assign_v(param_name(0, 0), op@[0]@),
                call_v("intrinsic:llvm_ctlz_i32"@),
                assign_v(d@[0]@, return_name(0)),
            ]);
            (cmds, None)
        },
    }
}

/// Compiles a call to `llvm.usub.with.overflow.i32`.
fn usub32_call(
    arguments: &Vec<Argument>,
    d: &Vec<ScoreHolder>,
    globals: &GlobalTable,
    tys: &Types,
    counter: &mut TempCounter,
) -> (r: (Vec<Command>, Option<Vec<Command>>))
    requires
        d@.len() >= 2,
        setup_args_ok(arguments@, arguments@.len(), globals.addrs@, *tys, old(counter).next as nat),
    ensures
        call_out_is(r, final(counter).next as nat, usub32_call_v(arguments@, d@.map_values(|x: ScoreHolder| x@), globals.addrs@, *tys, old(counter).next as nat)),
{
    proof {
        crate::registers::lemma_op_symbols();
    }
    let mut cmds = one(assign_lit(d[1].clone(), 0));
    append_all(&mut cmds, setup_arguments(arguments, globals, tys, counter));
    push1(&mut cmds, make_op_lit(param(1, 0), "*=", -1));
    append_all(
        &mut cmds,
        add_32_with_carry(param(0, 0), param(1, 0), d[0].clone(), assign_lit(d[1].clone(), 1)),
    );
    let ghost vd = d@.map_values(|x: ScoreHolder| x@);
    assert(vd[0] == d@[0]@ && vd[1] == d@[1]@);
    assert(commands_view(cmds@) =~= usub32_call_v(arguments@, vd, globals.addrs@, *tys, old(counter).next as nat).0);
    (cmds, None)
}

/// Compiles a call to an intrinsic that returns one word.
fn returning_call(
    intrinsic: &str,
    arguments: &Vec<Argument>,
    d: &Vec<ScoreHolder>,
    globals: &GlobalTable,
    tys: &Types,
    counter: &mut TempCounter,
) -> (r: (Vec<Command>, Option<Vec<Command>>))
    requires
        d@.len() >= 1,
        setup_args_ok(arguments@, arguments@.len(), globals.addrs@, *tys, old(counter).next as nat),
    ensures
        call_out_is(r, final(counter).next as nat, returning_call_v(intrinsic@, arguments@, d@.map_values(|x: ScoreHolder| x@), globals.addrs@, *tys, old(counter).next as nat)),
{
    let mut cmds = setup_arguments(arguments, globals, tys, counter);
    push1(&mut cmds, call(intrinsic));
    push1(&mut cmds, assign(d[0].clone(), return_holder(0)));
    let ghost vd = d@.map_values(|x: ScoreHolder| x@);
    assert(vd[0] == d@[0]@);
    assert(commands_view(cmds@) =~= returning_call_v(intrinsic@, arguments@, vd, globals.addrs@, *tys, old(counter).next as nat).0);
    (cmds, None)
}

/// Compiles a call to `llvm.usub.with.overflow.i8` or, when `add`, to
/// `llvm.uadd.with.overflow.i8`.
fn byte_overflow_call(
    add: bool,
    arguments: &Vec<Argument>,
    d: &Vec<ScoreHolder>,
    globals: &GlobalTable,
    tys: &Types,
    counter: &mut TempCounter,
) -> (r: (Vec<Command>, Option<Vec<Command>>))
    requires
        d@.len() >= 1,
        arguments@.len() == 2,
        operands_ok(arguments@[0].value, arguments@[1].value, globals.addrs@, *tys, old(counter).next as nat),
        operands_v(arguments@[0].value, arguments@[1].value, globals.addrs@, *tys, old(counter).next as nat).1.len() >= 1,
        operands_v(arguments@[0].value, arguments@[1].value, globals.addrs@, *tys, old(counter).next as nat).2.len() >= 1,
        operands_v(arguments@[0].value, arguments@[1].value, globals.addrs@, *tys, old(counter).next as nat).3 < u32::MAX,
    ensures
        call_out_is(
            r,
            final(counter).next as nat,
            if add {
                uadd8_call_v(arguments@, d@.map_values(|x: ScoreHolder| x@), globals.addrs@, *tys, old(counter).next as nat)
            } else {
                usub8_call_v(arguments@, d@.map_values(|x: ScoreHolder| x@), globals.addrs@, *tys, old(counter).next as nat)
            },
        ),
{
    proof {
        crate::registers::lemma_op_symbols();
    }
    let (mut cmds, l, r) = eval_operands(&arguments[0].value, &arguments[1].value, globals, tys, counter);
    let ghost head = commands_view(cmds@);
    if add {
        push1(&mut cmds, assign(d[0].clone(), l[0].clone()));
        push1(&mut cmds, make_op(d[0].clone(), "+=", r[0].clone()));
    } else {
        let tmp = get_unique_holder(counter);
        push1(&mut cmds, assign(tmp.clone(), r[0].clone()));
        push1(&mut cmds, make_op_lit(tmp.clone(), "*=", -1));
        push1(&mut cmds, make_op_lit(tmp.clone(), "+=", 256));
        push1(&mut cmds, assign(d[0].clone(), l[0].clone()));
        push1(&mut cmds, make_op(d[0].clone(), "+=", tmp));
    }
    let ghost vd = d@.map_values(|x: ScoreHolder| x@);
    assert(vd[0] == d@[0]@);
    assert(l@.map_values(|x: ScoreHolder| x@)[0] == l@[0]@);
    assert(r@.map_values(|x: ScoreHolder| x@)[0] == r@[0]@);
    proof {
        let v = if add {
            uadd8_call_v(arguments@, vd, globals.addrs@, *tys, old(counter).next as nat)
        } else {
            usub8_call_v(arguments@, vd, globals.addrs@, *tys, old(counter).next as nat)
        };
        assert(commands_view(cmds@) =~= v.0);
    }
    (cmds, None)
}

/// Compiles a call to `llvm.va_start`.
fn va_start_call(arguments: &Vec<Argument>, globals: &GlobalTable, tys: &Types, counter: &mut TempCounter) -> (r: (
    Vec<Command>,
    Option<Vec<Command>>,
))
    requires
        setup_args_ok(arguments@, arguments@.len(), globals.addrs@, *tys, old(counter).next as nat),
    ensures
        call_out_is(r, final(counter).next as nat, va_start_call_v(arguments@, globals.addrs@, *tys, old(counter).next as nat)),
{
    let mut cmds = setup_arguments(arguments, globals, tys, counter);
    push1(&mut cmds, assign(ptr(), param(0, 0)));
    push1(&mut cmds, call("intrinsic:setptr"));
    push1(&mut cmds, write_ptr(argptr()));
    assert(commands_view(cmds@) =~= va_start_call_v(arguments@, globals.addrs@, *tys, old(counter).next as nat).0);
    (cmds, None)
}

/// Compiles a call to the function `name` into the holders `d`.
#[verifier::rlimit(60)]
fn static_call(
    name: &str,
    is_var_arg: bool,
    arguments: &Vec<Argument>,
    has_dest: bool,
    d: &Vec<ScoreHolder>,
    globals: &GlobalTable,
    tys: &Types,
    counter: &mut TempCounter,
) -> (r: (Vec<Command>, Option<Vec<Command>>))
    requires
        static_call_ok(
            name@,
            is_var_arg,
            arguments@,
            has_dest,
            d@.map_values(|x: ScoreHolder| x@),
            globals.addrs@,
            *tys,
            old(counter).next as nat,
        ),
    ensures
        call_out_is(
            r,
            final(counter).next as nat,
            static_call_v(
                name@,
                is_var_arg,
                arguments@,
                has_dest,
                d@.map_values(|x: ScoreHolder| x@),
                globals.addrs@,
                *tys,
                old(counter).next as nat,
            ),
        ),
{
    let which = classify(name);
    match which {
        Builtin::Assume => assume_call(arguments, globals, tys, counter),
        Builtin::TurtleSet => (turtle_set(&arguments[0].value, globals, tys, counter), None),
        Builtin::TurtleCheck => turtle_check_call(arguments, d, globals, tys, counter),
        Builtin::TurtleGetChar => (turtle_get_char(d[0].clone()), None),
        Builtin::TurtleGet => (turtle_get(d[0].clone()), None),
        Builtin::CountLeadingZeros => ctlz_call(arguments, d, globals, tys, counter),
        Builtin::SubWithOverflow32 => usub32_call(arguments, d, globals, tys, counter),
        Builtin::FunnelShiftRight => returning_call("intrinsic:llvm_fshr_i32", arguments, d, globals, tys, counter),
        Builtin::Memset => (compile_memset(arguments, globals, tys, counter), None),
        Builtin::Memcpy => compile_memcpy(arguments, globals, tys, counter),
        Builtin::SubWithOverflow8 => byte_overflow_call(false, arguments, d, globals, tys, counter),
        Builtin::AddWithOverflow8 => byte_overflow_call(true, arguments, d, globals, tys, counter),
        Builtin::VaStart => va_start_call(arguments, globals, tys, counter),
        Builtin::ByteCompare => returning_call(byte_compare_name(), arguments, d, globals, tys, counter),
        Builtin::Other => ordinary_call(name, is_var_arg, arguments, d, globals, tys, counter),
        _ => (none_cmds(), None),
    }
}

/// Compiles a call through the function pointer `function` into the
/// holders `d`.
fn dynamic_call(
    function: &Operand,
    arguments: &Vec<Argument>,
    d: &Vec<ScoreHolder>,
    globals: &GlobalTable,
    tys: &Types,
    counter: &mut TempCounter,
) -> (r: (Vec<Command>, Option<Vec<Command>>))
    requires
        eval_operand_ok(*function, globals.addrs@, *tys, old(counter).next as nat),
        eval_operand_v(*function, globals.addrs@, *tys, old(counter).next as nat).1.len() == 1,
        setup_args_ok(
            arguments@,
            arguments@.len(),
            globals.addrs@,
            *tys,
            eval_operand_v(*function, globals.addrs@, *tys, old(counter).next as nat).2,
        ),
    ensures
        call_out_is(
            r,
            final(counter).next as nat,
            dynamic_call_v(
                *function,
                arguments@,
                d@.map_values(|x: ScoreHolder| x@),
                globals.addrs@,
                *tys,
                old(counter).next as nat,
            ),
        ),
{
    let (mut before, fp) = eval_operand(function, globals, tys, counter);
    let fptr = fp[0].clone();
    append_all(&mut before, push(fixup_return_holder()));
    append_all(&mut before, setup_arguments(arguments, globals, tys, counter));
    let mut text = String::from_str("!DYNCALL ");
    text.append(fptr.as_str());
    proof {
        reveal_strlit("!DYNCALL ");
    }
    push1(&mut before, Command::Comment(text));
    let after = take_result(d);
    assert(fp@.map_values(|x: ScoreHolder| x@)[0] == fp@[0]@);
    assert(commands_view(before@) =~= dynamic_call_v(
        *function,
        arguments@,
        d@.map_values(|x: ScoreHolder| x@),
        globals.addrs@,
        *tys,
        old(counter).next as nat,
    ).0);
    (before, Some(after))
}

/// The view of the destination of a call.
pub open spec fn dest_view(dest: Option<LocalName>) -> Option<LocalNameV> {
    match dest {
        Some(d) => Some(d@),
        None => None,
    }
}

/// Compiles a call to `target` with `arguments` into `dest`: the commands
/// before the call, and the commands after it when control returns to a
/// separate block.
pub fn compile_call(
    target: &CallTarget,
    arguments: &Vec<Argument>,
    dest: Option<LocalName>,
    globals: &GlobalTable,
    tys: &Types,
    counter: &mut TempCounter,
) -> (r: (Vec<Command>, Option<Vec<Command>>))
    requires
        compiled_call_ok(*target, arguments@, dest_view(dest), globals.addrs@, *tys, old(counter).next as nat),
    ensures
        call_out_is(
            r,
            final(counter).next as nat,
            compiled_call_v(*target, arguments@, dest_view(dest), globals.addrs@, *tys, old(counter).next as nat),
        ),
{
    let ghost dv = dest_view(dest);
    match target {
        CallTarget::Static { name, result_type, is_var_arg } => {
            let size = type_layout(result_type, tys).size;
            let has_dest = dest.is_some();
            let d = match dest {
                Some(dn) => ScoreHolder::from_local_name(dn, size),
                None => Vec::new(),
            };
            assert(d@.map_values(|x: ScoreHolder| x@) =~= dest_words(dv, *result_type, *tys));
            static_call(name.as_str(), *is_var_arg, arguments, has_dest, &d, globals, tys, counter)
        },
        CallTarget::Dynamic { function, result_type, .. } => {
            let size = type_layout(result_type, tys).size;
            let d = match dest {
                Some(dn) => ScoreHolder::from_local_name(dn, size),
                None => Vec::new(),
            };
            assert(d@.map_values(|x: ScoreHolder| x@) =~= dest_words(dv, *result_type, *tys));
            dynamic_call(function, arguments, &d, globals, tys, counter)
        },
        _ => (none_cmds(), None),
    }
}

} // verus!
