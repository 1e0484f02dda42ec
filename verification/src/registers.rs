//! The score holders that act as registers, and the basic commands that
//! move values between registers, the stack and memory.
use vstd::prelude::*;
use crate::cir::{
    Command, CommandV, CondKindV, CondV, Data, DataKind, DataKindV, DataModifyKind,
    DataModifySource, DataTarget, DataTargetV, Execute, ExecuteCondKind, ExecuteCondition,
    ExecuteStoreKind, ExecuteSubCmd, FuncCall, FunctionId, FunctionIdV, McRange, ModifySourceV,
    OBJECTIVE, ScoreAdd, ScoreGet, ScoreHolder, ScoreOp, ScoreOpKind, ScoreSet, Selector,
    SelectorArg, SelectorVariable, StoreKindV, SubCmdV, Target, TargetV, Tellraw,
    commands_view, is_space, valid_holder,
};
use crate::render::{cond_text, id_text};
use crate::text::{
    i32_text, int_text, lemma_int_text_chars, lemma_nat_text_digits, lemma_nat_text_inj, nat_text, str_eq,
    u64_text,
};

verus! {

// ----------------------------------------------------------------------
// Views of the commands built here
// ----------------------------------------------------------------------

/// The objective's name.
pub open spec fn objective() -> Seq<char> {
    OBJECTIVE@
}

/// A target naming one holder.
pub open spec fn holder_v(h: Seq<char>) -> TargetV {
    TargetV::Uuid(h)
}

/// `scoreboard players operation target rust <kind> source rust`
pub open spec fn op_v(target: Seq<char>, kind: ScoreOpKind, source: Seq<char>) -> CommandV {
    CommandV::ScoreOp {
        target: holder_v(target),
        target_obj: objective(),
        kind: kind,
        source: holder_v(source),
        source_obj: objective(),
    }
}

/// Copy of one holder into another.
pub open spec fn assign_v(target: Seq<char>, source: Seq<char>) -> CommandV {
    op_v(target, ScoreOpKind::Assign, source)
}

/// `scoreboard players set target rust score`
pub open spec fn set_v(target: Seq<char>, score: i32) -> CommandV {
    CommandV::ScoreSet { target: holder_v(target), target_obj: objective(), score }
}

/// `scoreboard players add target rust score`
pub open spec fn add_v(target: Seq<char>, score: i32) -> CommandV {
    CommandV::ScoreAdd { target: holder_v(target), target_obj: objective(), score }
}

/// A call of the function named `name`.
pub open spec fn call_v(name: Seq<char>) -> CommandV {
    CommandV::FuncCall(FunctionIdV { name, sub: 0 })
}

/// The selector `@e[tag=ptr]` of the memory pointer entity.
pub open spec fn ptr_selector_v() -> TargetV {
    TargetV::Selector { var: SelectorVariable::AllEntities, args: seq!["tag=ptr"@] }
}

/// The path of the memory word in the block under the pointer.
pub open spec fn memory_path() -> Seq<char> {
    "RecordItem.tag.Memory"@
}

/// The block under the pointer.
pub open spec fn here_v() -> DataTargetV {
    DataTargetV::Block("~ ~ ~"@)
}

/// Reads the memory word under the pointer into `target`.
pub open spec fn read_ptr_v(target: Seq<char>) -> CommandV {
    CommandV::Execute {
        subcommands: seq![
            SubCmdV::At { target: ptr_selector_v() },
            SubCmdV::Store {
                is_success: false,
                kind: StoreKindV::Score { target: holder_v(target), objective: objective() },
            },
        ],
        run: Some(
            Box::new(
                CommandV::Data {
                    target: here_v(),
                    kind: DataKindV::Get { path: memory_path(), scale: 1 },
                },
            ),
        ),
    }
}

/// Writes the score of `target` into the memory word under the pointer.
pub open spec fn write_ptr_v(target: Seq<char>) -> CommandV {
    CommandV::Execute {
        subcommands: seq![
            SubCmdV::At { target: ptr_selector_v() },
            SubCmdV::Store {
                is_success: false,
                kind: StoreKindV::Data {
                    target: here_v(),
                    path: memory_path(),
                    ty: "int"@,
                    scale: 1,
                },
            },
        ],
        run: Some(Box::new(CommandV::ScoreGet { target: holder_v(target), target_obj: objective() })),
    }
}

/// Writes a constant into the memory word under the pointer.
pub open spec fn write_ptr_const_v(value: i32) -> CommandV {
    CommandV::Execute {
        subcommands: seq![SubCmdV::At { target: ptr_selector_v() }],
        run: Some(
            Box::new(
                CommandV::Data {
                    target: here_v(),
                    kind: DataKindV::Modify {
                        path: memory_path(),
                        kind: DataModifyKind::Overwrite,
                        source: ModifySourceV::Value(value),
                    },
                },
            ),
        ),
    }
}

/// Different parameter positions or words name different holders.
pub proof fn lemma_param_names_distinct(i: nat, w: nat, j: nat, v: nat)
    requires
        i != j || w != v,
    ensures
        param_name(i, w) != param_name(j, v),
{
    if param_name(i, w) == param_name(j, v) {
        reveal_strlit("%param");
        reveal_strlit("%");
        let p = "%param"@;
        let ti = nat_text(i);
        let tj = nat_text(j);
        let tw = nat_text(w);
        let tv = nat_text(v);
        lemma_nat_text_digits(i);
        lemma_nat_text_digits(j);
        lemma_nat_text_digits(w);
        lemma_nat_text_digits(v);
        let a = p + ti + "%"@ + tw;
        let b = p + tj + "%"@ + tv;
        assert(a == b);
        if ti.len() < tj.len() {
            assert(a[6 + ti.len() as int] == '%');
            assert(b[6 + ti.len() as int] == tj[ti.len() as int]);
        } else if tj.len() < ti.len() {
            assert(b[6 + tj.len() as int] == '%');
            assert(a[6 + tj.len() as int] == ti[tj.len() as int]);
        } else {
            assert(ti =~= a.subrange(6, 6 + ti.len() as int));
            assert(tj =~= b.subrange(6, 6 + tj.len() as int));
            lemma_nat_text_inj(i, j);
            assert(tw =~= a.subrange(7 + ti.len() as int, a.len() as int));
            assert(tv =~= b.subrange(7 + tj.len() as int, b.len() as int));
            lemma_nat_text_inj(w, v);
        }
    }
}

/// The name of the holder that carries a constant.
pub open spec fn const_holder_name(score: i32) -> Seq<char> {
    "%%"@ + int_text(score as int)
}

/// The name of word `word` of parameter `index`.
pub open spec fn param_name(index: nat, word: nat) -> Seq<char> {
    "%param"@ + nat_text(index) + "%"@ + nat_text(word)
}

/// The name of word `word` of the return value.
pub open spec fn return_name(word: nat) -> Seq<char> {
    "%return%"@ + nat_text(word)
}

/// The operation named by `op`, if it names one of the five arithmetic
/// assignments.
pub open spec fn op_kind_of(op: Seq<char>) -> Option<ScoreOpKind> {
    if op == "+="@ {
        Some(ScoreOpKind::AddAssign)
    } else if op == "-="@ {
        Some(ScoreOpKind::SubAssign)
    } else if op == "*="@ {
        Some(ScoreOpKind::MulAssign)
    } else if op == "/="@ {
        Some(ScoreOpKind::DivAssign)
    } else if op == "%="@ {
        Some(ScoreOpKind::ModAssign)
    } else {
        None
    }
}

/// The command of `make_op_lit(lhs, op, score)`.
pub open spec fn op_lit_v(lhs: Seq<char>, op: Seq<char>, score: i32) -> CommandV {
    if op == "+="@ {
        add_v(lhs, score)
    } else if op == "-="@ {
        add_v(lhs, (-score) as i32)
    } else {
        op_v(lhs, op_kind_of(op).unwrap(), const_holder_name(score))
    }
}

/// The five operation symbols are distinct texts.
pub proof fn lemma_op_symbols()
    ensures
        "+="@ != "-="@,
        "+="@ != "*="@,
        "+="@ != "/="@,
        "+="@ != "%="@,
        "-="@ != "*="@,
        "-="@ != "/="@,
        "-="@ != "%="@,
        "*="@ != "/="@,
        "*="@ != "%="@,
        "/="@ != "%="@,
{
    reveal_strlit("+=");
    reveal_strlit("-=");
    reveal_strlit("*=");
    reveal_strlit("/=");
    reveal_strlit("%=");
    assert("+="@[0] != "-="@[0]);
    assert("+="@[0] != "*="@[0]);
    assert("+="@[0] != "/="@[0]);
    assert("+="@[0] != "%="@[0]);
    assert("-="@[0] != "*="@[0]);
    assert("-="@[0] != "/="@[0]);
    assert("-="@[0] != "%="@[0]);
    assert("*="@[0] != "/="@[0]);
    assert("*="@[0] != "%="@[0]);
    assert("/="@[0] != "%="@[0]);
}

/// Whether `op` can be passed to `make_op_lit` with `score`.
pub open spec fn op_lit_ok(op: Seq<char>, score: i32) -> bool {
    op_kind_of(op) is Some && (op == "-="@ ==> score != i32::MIN)
}

/// A comment line.
pub open spec fn comment_v(text: Seq<char>) -> CommandV {
    CommandV::Comment(text)
}

/// A score condition on the objective.
pub open spec fn matches_v(holder: Seq<char>, range: McRange) -> CondV {
    CondV::Score { target: holder_v(holder), target_obj: objective(), kind: CondKindV::Matches(range) }
}

/// A relation between two holders.
pub open spec fn relation_cond_v(
    target: Seq<char>,
    relation: crate::cir::Relation,
    source: Seq<char>,
) -> CondV {
    CondV::Score {
        target: holder_v(target),
        target_obj: objective(),
        kind: CondKindV::Relation { relation, source: holder_v(source), source_obj: objective() },
    }
}

// ----------------------------------------------------------------------
// Building blocks
// ----------------------------------------------------------------------

fn fixed_holder(name: &str) -> (r: ScoreHolder)
    requires
        valid_holder(name@),
    ensures
        r@ == name@,
{
    ScoreHolder::from_valid(String::from_str(name))
}

/// A holder on the objective, as a target.
pub fn uuid(h: ScoreHolder) -> (r: Target)
    ensures
        r@ == holder_v(h@),
{
    Target::Uuid(h)
}

/// The objective's name, as an owned string.
pub fn objective_string() -> (r: String)
    ensures
        r@ == objective(),
{
    String::from_str(OBJECTIVE)
}

/// A call of the function `name`.
pub fn call(name: &str) -> (r: Command)
    ensures
        r@ == call_v(name@),
{
    Command::FuncCall(FuncCall { id: FunctionId::new(name) })
}

/// The selector of the memory pointer entity.
pub fn ptr_selector() -> (r: Target)
    ensures
        r@ == ptr_selector_v(),
{
    let args = vec![SelectorArg(String::from_str("tag=ptr"))];
    let r = Target::Selector(Selector { var: SelectorVariable::AllEntities, args });
    assert(r@ == ptr_selector_v()) by {
        assert(args@.map_values(|a: SelectorArg| a@) =~= seq!["tag=ptr"@]);
    }
    r
}

fn here() -> (r: DataTarget)
    ensures
        r@ == here_v(),
{
    DataTarget::Block(String::from_str("~ ~ ~"))
}

// ----------------------------------------------------------------------
// Registers
// ----------------------------------------------------------------------

/// Holds the index of the function to call through a function pointer.
pub fn temp_fn_ptr() -> (r: ScoreHolder)
    ensures
        r@ == "%%tempfuncptr"@,
{
    proof {
        reveal_strlit("%%tempfuncptr");
    }
    fixed_holder("%%tempfuncptr")
}

/// Counts the commands run in the current tick.
pub fn cmd_count() -> (r: ScoreHolder)
    ensures
        r@ == "%%cmdcount"@,
{
    proof {
        reveal_strlit("%%cmdcount");
    }
    fixed_holder("%%cmdcount")
}

/// The limit of commands run in one tick.
pub fn cmd_limit() -> (r: ScoreHolder)
    ensures
        r@ == "%%CMD_LIMIT"@,
{
    proof {
        reveal_strlit("%%CMD_LIMIT");
    }
    fixed_holder("%%CMD_LIMIT")
}

/// Scratch holder for conditions.
pub fn condtempholder() -> (r: ScoreHolder)
    ensures
        r@ == "%%condtempholder"@,
{
    proof {
        reveal_strlit("%%condtempholder");
    }
    fixed_holder("%%condtempholder")
}

/// The top of the condition stack.
pub fn condstackptr() -> (r: ScoreHolder)
    ensures
        r@ == "%condstackptr"@,
{
    proof {
        reveal_strlit("%condstackptr");
    }
    fixed_holder("%condstackptr")
}

/// The address of the exception being thrown.
pub fn except_ptr() -> (r: ScoreHolder)
    ensures
        r@ == "%except%ptr"@,
{
    proof {
        reveal_strlit("%except%ptr");
    }
    fixed_holder("%except%ptr")
}

/// The type of the exception being thrown.
pub fn except_type() -> (r: ScoreHolder)
    ensures
        r@ == "%except%type"@,
{
    proof {
        reveal_strlit("%except%type");
    }
    fixed_holder("%except%type")
}

/// The address of the variable arguments.
pub fn argptr() -> (r: ScoreHolder)
    ensures
        r@ == "%argptr"@,
{
    proof {
        reveal_strlit("%argptr");
    }
    fixed_holder("%argptr")
}

/// The top of the stack.
pub fn stackptr() -> (r: ScoreHolder)
    ensures
        r@ == "%stackptr"@,
{
    proof {
        reveal_strlit("%stackptr");
    }
    fixed_holder("%stackptr")
}

/// The base of the current stack frame.
pub fn stackbaseptr() -> (r: ScoreHolder)
    ensures
        r@ == "%stackbaseptr"@,
{
    proof {
        reveal_strlit("%stackbaseptr");
    }
    fixed_holder("%stackbaseptr")
}

/// The memory pointer register.
pub fn ptr() -> (r: ScoreHolder)
    ensures
        r@ == "%ptr"@,
{
    proof {
        reveal_strlit("%ptr");
    }
    fixed_holder("%ptr")
}

/// Holds the index of the block that control came from, for phi nodes.
pub fn phi_holder() -> (r: ScoreHolder)
    ensures
        r@ == "%phi"@,
{
    proof {
        reveal_strlit("%phi");
    }
    fixed_holder("%phi")
}

/// Stands for the return address until calls are linked.
pub fn fixup_return_holder() -> (r: ScoreHolder)
    ensures
        r@ == "%%fixup_return_addr"@,
{
    proof {
        reveal_strlit("%%fixup_return_addr");
    }
    fixed_holder("%%fixup_return_addr")
}

proof fn lemma_concat_valid(a: Seq<char>, b: Seq<char>)
    requires
        valid_holder(a),
        forall|i: int| 0 <= i < b.len() ==> !is_space(#[trigger] b[i]),
    ensures
        valid_holder(a + b),
{
    assert forall|i: int| 0 <= i < (a + b).len() implies !is_space(#[trigger] (a + b)[i]) by {
        if i < a.len() {
            assert((a + b)[i] == a[i]);
        } else {
            assert((a + b)[i] == b[i - a.len()]);
        }
    }
}

proof fn lemma_nat_text_no_space(n: nat)
    ensures
        forall|i: int| 0 <= i < nat_text(n).len() ==> !is_space(#[trigger] nat_text(n)[i]),
{
    lemma_nat_text_digits(n);
    assert forall|i: int| 0 <= i < nat_text(n).len() implies !is_space(
        #[trigger] nat_text(n)[i],
    ) by {
        assert('0' <= nat_text(n)[i] <= '9');
    }
}

/// Word `word_index` of parameter `index`.
pub fn param(index: usize, word_index: usize) -> (r: ScoreHolder)
    ensures
        r@ == param_name(index as nat, word_index as nat),
{
    let mut s = String::from_str("%param");
    let a = u64_text(index as u64);
    s.append(a.as_str());
    s.append("%");
    let b = u64_text(word_index as u64);
    s.append(b.as_str());
    proof {
        reveal_strlit("%param");
        reveal_strlit("%");
        lemma_nat_text_no_space(index as nat);
        lemma_nat_text_no_space(word_index as nat);
        lemma_concat_valid("%param"@, nat_text(index as nat));
        lemma_concat_valid("%param"@ + nat_text(index as nat), "%"@);
        lemma_concat_valid("%param"@ + nat_text(index as nat) + "%"@, nat_text(word_index as nat));
    }
    ScoreHolder::from_valid(s)
}

/// Word `word_index` of the return value.
pub fn return_holder(word_index: usize) -> (r: ScoreHolder)
    ensures
        r@ == return_name(word_index as nat),
{
    let mut s = String::from_str("%return%");
    let b = u64_text(word_index as u64);
    s.append(b.as_str());
    proof {
        reveal_strlit("%return%");
        lemma_nat_text_no_space(word_index as nat);
        lemma_concat_valid("%return%"@, nat_text(word_index as nat));
    }
    ScoreHolder::from_valid(s)
}

/// The holder that carries the constant `score`.
pub fn const_holder(score: i32) -> (r: ScoreHolder)
    ensures
        r@ == const_holder_name(score),
{
    let mut s = String::from_str("%%");
    let t = i32_text(score);
    s.append(t.as_str());
    proof {
        reveal_strlit("%%");
        reveal_strlit("-");
        lemma_int_text_chars(score as int);
        assert forall|i: int| 0 <= i < int_text(score as int).len() implies !is_space(
            #[trigger] int_text(score as int)[i],
        ) by {
            assert('0' <= int_text(score as int)[i] <= '9' || int_text(score as int)[i] == '-');
        }
        lemma_concat_valid("%%"@, int_text(score as int));
    }
    ScoreHolder::from_valid(s)
}

// ----------------------------------------------------------------------
// Score commands
// ----------------------------------------------------------------------

/// Copies `source` into `target`.
pub fn assign(target: ScoreHolder, source: ScoreHolder) -> (r: Command)
    ensures
        r@ == assign_v(target@, source@),
{
    Command::ScoreOp(
        ScoreOp {
            target: uuid(target),
            target_obj: objective_string(),
            kind: ScoreOpKind::Assign,
            source: uuid(source),
            source_obj: objective_string(),
        },
    )
}

/// Sets `target` to the constant `score`.
pub fn assign_lit(target: ScoreHolder, score: i32) -> (r: Command)
    ensures
        r@ == set_v(target@, score),
{
    Command::ScoreSet(ScoreSet { target: uuid(target), target_obj: objective_string(), score })
}

/// Adds the constant `score` to `target`.
pub fn add_lit(target: ScoreHolder, score: i32) -> (r: Command)
    ensures
        r@ == add_v(target@, score),
{
    Command::ScoreAdd(ScoreAdd { target: uuid(target), target_obj: objective_string(), score })
}

/// The operation that `op` names; `op` is one of `+=`, `-=`, `*=`, `/=`, `%=`.
pub fn op_kind(op: &str) -> (r: ScoreOpKind)
    requires
        op_kind_of(op@) is Some,
    ensures
        op_kind_of(op@) == Some(r),
{
    if str_eq(op, "+=") {
        ScoreOpKind::AddAssign
    } else if str_eq(op, "-=") {
        ScoreOpKind::SubAssign
    } else if str_eq(op, "*=") {
        ScoreOpKind::MulAssign
    } else if str_eq(op, "/=") {
        ScoreOpKind::DivAssign
    } else {
        ScoreOpKind::ModAssign
    }
}

/// `lhs <op> rhs` on the objective, where `op` is one of `+=`, `-=`,
/// `*=`, `/=`, `%=`.
pub fn make_op(lhs: ScoreHolder, op: &str, rhs: ScoreHolder) -> (r: Command)
    requires
        op_kind_of(op@) is Some,
    ensures
        r@ == op_v(lhs@, op_kind_of(op@).unwrap(), rhs@),
{
    let kind = op_kind(op);
    Command::ScoreOp(
        ScoreOp {
            target: uuid(lhs),
            target_obj: objective_string(),
            kind,
            source: uuid(rhs),
            source_obj: objective_string(),
        },
    )
}

/// `lhs <op> score` with a constant right-hand side: an add or a remove
/// for `+=` and `-=`, otherwise an operation with the holder that
/// carries the constant.
pub fn make_op_lit(lhs: ScoreHolder, kind: &str, score: i32) -> (r: Command)
    requires
        op_lit_ok(kind@, score),
    ensures
        r@ == op_lit_v(lhs@, kind@, score),
{
    if str_eq(kind, "+=") {
        add_lit(lhs, score)
    } else if str_eq(kind, "-=") {
        add_lit(lhs, -score)
    } else {
        let rhs = const_holder(score);
        make_op(lhs, kind, rhs)
    }
}

/// Replaces `target` by `-(target + 1)`, its bitwise complement.
pub fn invert(target: ScoreHolder) -> (r: Vec<Command>)
    ensures
        commands_view(r@) == seq![
            add_v(target@, 1),
            op_v(target@, ScoreOpKind::MulAssign, const_holder_name(-1i32)),
        ],
{
    proof {
        reveal_strlit("+=");
        reveal_strlit("-=");
        reveal_strlit("*=");
    }
    let c0 = make_op_lit(target.clone(), "+=", 1);
    let c1 = make_op_lit(target, "*=", -1);
    assert("*="@ != "+="@ && "*="@ != "-="@) by {
        assert("*="@[0] != "+="@[0]);
        assert("*="@[0] != "-="@[0]);
    }
    assert(c0@ == add_v(target@, 1));
    assert(c1@ == op_v(target@, ScoreOpKind::MulAssign, const_holder_name(-1i32)));
    let r = vec![c0, c1];
    assert(commands_view(r@) =~= seq![c0@, c1@]);
    r
}

// ----------------------------------------------------------------------
// Memory and stack commands
// ----------------------------------------------------------------------

/// Reads the memory word under the pointer into `target`.
pub fn read_ptr(target: ScoreHolder) -> (r: Command)
    ensures
        r@ == read_ptr_v(target@),
{
    let subs = vec![
        ExecuteSubCmd::At { target: ptr_selector() },
        ExecuteSubCmd::Store {
            is_success: false,
            kind: ExecuteStoreKind::Score { target: uuid(target), objective: objective_string() },
        },
    ];
    let run = Command::Data(
        Data { target: here(), kind: DataKind::Get { path: String::from_str("RecordItem.tag.Memory"), scale: 1 } },
    );
    let ghost rv = run@;
    let r = Command::Execute(Execute { subcommands: subs, run: Some(Box::new(run)) });
    assert(subs@.map_values(|s: ExecuteSubCmd| s@) =~= seq![subs@[0]@, subs@[1]@]);
    assert(r@ == CommandV::Execute {
        subcommands: seq![subs@[0]@, subs@[1]@],
        run: Some(Box::new(rv)),
    });
    r
}

/// Writes the score of `target` into the memory word under the pointer.
pub fn write_ptr(target: ScoreHolder) -> (r: Command)
    ensures
        r@ == write_ptr_v(target@),
{
    let subs = vec![
        ExecuteSubCmd::At { target: ptr_selector() },
        ExecuteSubCmd::Store {
            is_success: false,
            kind: ExecuteStoreKind::Data {
                target: here(),
                path: String::from_str("RecordItem.tag.Memory"),
                ty: String::from_str("int"),
                scale: 1,
            },
        },
    ];
    let run = Command::ScoreGet(ScoreGet { target: uuid(target), target_obj: objective_string() });
    let ghost rv = run@;
    let r = Command::Execute(Execute { subcommands: subs, run: Some(Box::new(run)) });
    assert(subs@.map_values(|s: ExecuteSubCmd| s@) =~= seq![subs@[0]@, subs@[1]@]);
    assert(r@ == CommandV::Execute {
        subcommands: seq![subs@[0]@, subs@[1]@],
        run: Some(Box::new(rv)),
    });
    r
}

/// Writes the constant `value` into the memory word under the pointer.
pub fn write_ptr_const(value: i32) -> (r: Command)
    ensures
        r@ == write_ptr_const_v(value),
{
    let subs = vec![ExecuteSubCmd::At { target: ptr_selector() }];
    let run = Command::Data(
        Data {
            target: here(),
            kind: DataKind::Modify {
                path: String::from_str("RecordItem.tag.Memory"),
                kind: DataModifyKind::Overwrite,
                source: DataModifySource::Value(value),
            },
        },
    );
    let ghost rv = run@;
    let r = Command::Execute(Execute { subcommands: subs, run: Some(Box::new(run)) });
    assert(subs@.map_values(|s: ExecuteSubCmd| s@) =~= seq![subs@[0]@]);
    assert(r@ == CommandV::Execute { subcommands: seq![subs@[0]@], run: Some(Box::new(rv)) });
    r
}

/// Loads a halfword (or a byte) from the address in `%ptr` into `dest`,
/// through the loading intrinsic, which leaves it in `%param0%0`.
pub fn read_ptr_small(dest: ScoreHolder, is_halfword: bool) -> (r: Vec<Command>)
    ensures
        commands_view(r@) == seq![
            call_v(if is_halfword { "intrinsic:load_halfword"@ } else { "intrinsic:load_byte"@ }),
            assign_v(dest@, param_name(0, 0)),
        ],
{
    let c0 = if is_halfword {
        call("intrinsic:load_halfword")
    } else {
        call("intrinsic:load_byte")
    };
    let c1 = assign(dest, param(0, 0));
    let r = vec![c0, c1];
    assert(commands_view(r@) =~= seq![c0@, c1@]);
    r
}

/// The commands of `push`.
pub open spec fn push_v(target: Seq<char>) -> Seq<CommandV> {
    seq![
        assign_v("%ptr"@, "%stackptr"@),
        call_v("intrinsic:setptr"@),
        write_ptr_v(target),
        add_v("%stackptr"@, 4),
    ]
}

/// The commands of `pop`.
pub open spec fn pop_v(target: Seq<char>) -> Seq<CommandV> {
    seq![
        add_v("%stackptr"@, -4i32),
        assign_v("%ptr"@, "%stackptr"@),
        call_v("intrinsic:setptr"@),
        read_ptr_v(target),
    ]
}

/// Pushes the score of `target` onto the stack.
pub fn push(target: ScoreHolder) -> (r: Vec<Command>)
    ensures
        commands_view(r@) == push_v(target@),
{
    let c0 = assign(ptr(), stackptr());
    let c1 = call("intrinsic:setptr");
    let c2 = write_ptr(target);
    let c3 = add_lit(stackptr(), 4);
    let r = vec![c0, c1, c2, c3];
    assert(commands_view(r@) =~= seq![c0@, c1@, c2@, c3@]);
    r
}

/// Pops the top of the stack into `target`.
pub fn pop(target: ScoreHolder) -> (r: Vec<Command>)
    ensures
        commands_view(r@) == pop_v(target@),
{
    let c0 = add_lit(stackptr(), -4);
    let c1 = assign(ptr(), stackptr());
    let c2 = call("intrinsic:setptr");
    let c3 = read_ptr(target);
    let r = vec![c0, c1, c2, c3];
    assert(commands_view(r@) =~= seq![c0@, c1@, c2@, c3@]);
    r
}

/// Pushes the score of `target` onto the condition stack.
pub fn push_cond_stack(target: ScoreHolder) -> (r: Vec<Command>)
    ensures
        commands_view(r@) == seq![
            assign_v("%ptr"@, "%condstackptr"@),
            call_v("intrinsic:setptr"@),
            write_ptr_v(target@),
            add_v("%condstackptr"@, 4),
        ],
{
    let c0 = assign(ptr(), condstackptr());
    let c1 = call("intrinsic:setptr");
    let c2 = write_ptr(target);
    let c3 = add_lit(condstackptr(), 4);
    let r = vec![c0, c1, c2, c3];
    assert(commands_view(r@) =~= seq![c0@, c1@, c2@, c3@]);
    r
}

/// Pops the top of the condition stack into `target`.
pub fn pop_cond_stack(target: ScoreHolder) -> (r: Vec<Command>)
    ensures
        commands_view(r@) == seq![
            add_v("%condstackptr"@, -4i32),
            assign_v("%ptr"@, "%condstackptr"@),
            call_v("intrinsic:setptr"@),
            read_ptr_v(target@),
        ],
{
    let c0 = add_lit(condstackptr(), -4);
    let c1 = assign(ptr(), condstackptr());
    let c2 = call("intrinsic:setptr");
    let c3 = read_ptr(target);
    let r = vec![c0, c1, c2, c3];
    assert(commands_view(r@) =~= seq![c0@, c1@, c2@, c3@]);
    r
}

// ----------------------------------------------------------------------
// Diagnostics
// ----------------------------------------------------------------------

/// The command that tells every player that `location` has been entered.
pub open spec fn print_entry_v(location: FunctionIdV) -> CommandV {
    CommandV::Tellraw {
        target: TargetV::Selector { var: SelectorVariable::AllPlayers, args: Seq::empty() },
        message: "entered block "@ + id_text(location),
    }
}

/// Tells every player which block has been entered.
pub fn print_entry(location: &FunctionId) -> (r: Command)
    ensures
        r@ == print_entry_v(location@),
{
    let mut message = String::from_str("entered block ");
    let t = crate::render::id_to_text(location);
    message.append(t.as_str());
    let target = Target::Selector(Selector { var: SelectorVariable::AllPlayers, args: Vec::new() });
    assert(target@ == TargetV::Selector { var: SelectorVariable::AllPlayers, args: Seq::empty() })
        by {
        if let Target::Selector(s) = target {
            assert(s.args@.map_values(|a: SelectorArg| a@) =~= Seq::<Seq<char>>::empty());
        }
    }
    Command::Tellraw(Tellraw { target, message })
}

/// Marks a place that the compiler does not handle yet.
pub fn mark_todo() -> (r: Command)
    ensures
        r@ == comment_v("!INTERPRETER: TODO"@),
{
    Command::Comment(String::from_str("!INTERPRETER: TODO"))
}

/// Marks a place that cannot be reached.
pub fn mark_unreachable() -> (r: Command)
    ensures
        r@ == comment_v("!INTERPRETER: UNREACHABLE"@),
{
    Command::Comment(String::from_str("!INTERPRETER: UNREACHABLE"))
}

/// Marks an assertion that `cond` holds (or, with `is_unless`, fails).
pub fn mark_assertion(is_unless: bool, cond: &ExecuteCondition) -> (r: Command)
    ensures
        r@ == comment_v(
            "!INTERPRETER: ASSERT "@ + (if is_unless { "unless "@ } else { "if "@ }) + cond_text(
                cond@,
            ),
        ),
{
    let mut text = String::from_str("!INTERPRETER: ASSERT ");
    if is_unless {
        text.append("unless ");
    } else {
        text.append("if ");
    }
    let c = crate::render::cond_to_text(cond);
    text.append(c.as_str());
    Command::Comment(text)
}

/// Marks an assertion that `score_holder` lies in `range` (or, with
/// `inverted`, does not).
pub fn mark_assertion_matches(inverted: bool, score_holder: ScoreHolder, range: McRange) -> (r:
    Command)
    ensures
        r@ == comment_v(
            "!INTERPRETER: ASSERT "@ + (if inverted { "unless "@ } else { "if "@ }) + cond_text(
                matches_v(score_holder@, range),
            ),
        ),
{
    let cond = ExecuteCondition::Score {
        target: uuid(score_holder),
        target_obj: objective_string(),
        kind: ExecuteCondKind::Matches(range),
    };
    mark_assertion(inverted, &cond)
}

} // verus!
