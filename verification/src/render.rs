//! The text of commands, as written into a function file.
use vstd::prelude::*;
use crate::cir::{
    Command, CommandV, Data, Execute, ScoreAdd, ScoreGet, ScoreOp, ScoreSet, command_view, CondKindV, CondV, DataKind, DataKindV, DataModifySource, DataTarget,
    DataTargetV, ExecuteCondKind, ExecuteCondition, ExecuteStoreKind, ExecuteSubCmd, FuncCall,
    FunctionId, FunctionIdV, McRange, ModifySourceV, Relation, ScoreOpKind, SelectorArg,
    SelectorVariable, SetBlockKind, StoreKindV, SubCmdV, Target, TargetV,
};
use crate::text::{i32_text, int_text, nat_text, u64_text};

verus! {

// ----------------------------------------------------------------------
// Specification of the text
// ----------------------------------------------------------------------

/// The text of a function identifier: its name, then `-sub` and the
/// sub-block number when that number is not zero.
pub open spec fn id_text(id: FunctionIdV) -> Seq<char> {
    if id.sub == 0 {
        id.name
    } else {
        id.name + "-sub"@ + nat_text(id.sub)
    }
}

/// The letter of a selector variable.
pub open spec fn selector_var_text(v: SelectorVariable) -> Seq<char> {
    match v {
        SelectorVariable::NearestPlayer => "@p"@,
        SelectorVariable::RandomPlayer => "@r"@,
        SelectorVariable::AllPlayers => "@a"@,
        SelectorVariable::AllEntities => "@e"@,
        SelectorVariable::ThisEntity => "@s"@,
    }
}

/// Selector arguments separated by commas.
pub open spec fn args_text(args: Seq<Seq<char>>) -> Seq<char>
    decreases args.len(),
{
    if args.len() == 0 {
        Seq::empty()
    } else if args.len() == 1 {
        args[0]
    } else {
        args_text(args.drop_last()) + ","@ + args.last()
    }
}

/// The text of a target.
pub open spec fn target_text(t: TargetV) -> Seq<char> {
    match t {
        TargetV::Uuid(h) => h,
        TargetV::Selector { var, args } => if args.len() == 0 {
            selector_var_text(var)
        } else {
            selector_var_text(var) + "["@ + args_text(args) + "]"@
        },
    }
}

/// The text of a range.
pub open spec fn range_text(r: McRange) -> Seq<char> {
    match r {
        McRange::Between(lo, hi) => if lo == hi {
            int_text(lo as int)
        } else {
            int_text(lo as int) + ".."@ + int_text(hi as int)
        },
        McRange::HalfLeft(hi) => ".."@ + int_text(hi as int),
        McRange::HalfRight(lo) => int_text(lo as int) + ".."@,
    }
}

/// The symbol of a relation.
pub open spec fn relation_text(r: Relation) -> Seq<char> {
    match r {
        Relation::LessThan => "<"@,
        Relation::LessThanEq => "<="@,
        Relation::Eq => "="@,
        Relation::GreaterThan => ">"@,
        Relation::GreaterThanEq => ">="@,
    }
}

/// The text of a condition.
pub open spec fn cond_text(c: CondV) -> Seq<char> {
    match c {
        CondV::Score { target, target_obj, kind } => "score "@ + target_text(target) + " "@
            + target_obj + " "@ + match kind {
            CondKindV::Matches(r) => "matches "@ + range_text(r),
            CondKindV::Relation { relation, source, source_obj } => relation_text(relation)
                + " "@ + target_text(source) + " "@ + source_obj,
        },
        CondV::Block { pos, block } => "block "@ + pos + " "@ + block,
    }
}

/// The text of a data target.
pub open spec fn data_target_text(t: DataTargetV) -> Seq<char> {
    match t {
        DataTargetV::Block(p) => "block "@ + p,
        DataTargetV::Entity(t) => "entity "@ + target_text(t),
    }
}

/// The text of where an `execute store` writes.
pub open spec fn store_kind_text(k: StoreKindV) -> Seq<char> {
    match k {
        StoreKindV::Score { target, objective } => "score "@ + target_text(target) + " "@
            + objective,
        StoreKindV::Data { target, path, ty, scale } => data_target_text(target) + " "@ + path
            + " "@ + ty + " "@ + int_text(scale as int),
    }
}

/// The text of one `execute` sub-command.
pub open spec fn subcmd_text(s: SubCmdV) -> Seq<char> {
    match s {
        SubCmdV::Condition { is_unless, cond } => if is_unless {
            "unless "@ + cond_text(cond)
        } else {
            "if "@ + cond_text(cond)
        },
        SubCmdV::Store { is_success, kind } => if is_success {
            "store success "@ + store_kind_text(kind)
        } else {
            "store result "@ + store_kind_text(kind)
        },
        SubCmdV::At { target } => "at "@ + target_text(target),
        SubCmdV::Positioned { pos } => "positioned "@ + pos,
    }
}

/// Sub-commands, each preceded by a space.
pub open spec fn subcmds_text(subs: Seq<SubCmdV>) -> Seq<char>
    decreases subs.len(),
{
    if subs.len() == 0 {
        Seq::empty()
    } else {
        subcmds_text(subs.drop_last()) + " "@ + subcmd_text(subs.last())
    }
}

/// The symbol of a score operation.
pub open spec fn op_text(k: ScoreOpKind) -> Seq<char> {
    match k {
        ScoreOpKind::Assign => "="@,
        ScoreOpKind::AddAssign => "+="@,
        ScoreOpKind::SubAssign => "-="@,
        ScoreOpKind::MulAssign => "*="@,
        ScoreOpKind::DivAssign => "/="@,
        ScoreOpKind::ModAssign => "%="@,
        ScoreOpKind::Min => "<"@,
        ScoreOpKind::Max => ">"@,
        ScoreOpKind::Swap => "><"@,
    }
}

/// The text of a `setblock` mode.
pub open spec fn setblock_kind_text(k: SetBlockKind) -> Seq<char> {
    match k {
        SetBlockKind::Destroy => "destroy"@,
        SetBlockKind::Keep => "keep"@,
        SetBlockKind::Replace => "replace"@,
    }
}

/// The text of a `data` command's operation.
pub open spec fn data_kind_text(k: DataKindV) -> Seq<char> {
    match k {
        DataKindV::Get { path, scale } => path + " "@ + int_text(scale as int),
        DataKindV::Modify { path, kind, source } => path + " set "@ + match source {
            ModifySourceV::Value(v) => "value "@ + int_text(v as int),
            ModifySourceV::ValueString(s) => "value \""@ + s + "\""@,
        },
    }
}

/// The text of a command.
pub open spec fn command_text(c: CommandV) -> Seq<char>
    decreases c,
{
    match c {
        CommandV::Comment(s) => "# "@ + s,
        CommandV::FuncCall(id) => "function "@ + id_text(id),
        CommandV::Execute { subcommands, run } => "execute"@ + subcmds_text(subcommands)
            + match run {
            Some(b) => " run "@ + command_text(*b),
            None => Seq::empty(),
        },
        CommandV::ScoreOp { target, target_obj, kind, source, source_obj } =>
            "scoreboard players operation "@ + target_text(target) + " "@ + target_obj + " "@
            + op_text(kind) + " "@ + target_text(source) + " "@ + source_obj,
        CommandV::ScoreSet { target, target_obj, score } => "scoreboard players set "@
            + target_text(target) + " "@ + target_obj + " "@ + int_text(score as int),
        CommandV::ScoreAdd { target, target_obj, score } => if score < 0 {
            "scoreboard players remove "@ + target_text(target) + " "@ + target_obj + " "@
                + nat_text((-score) as nat)
        } else {
            "scoreboard players add "@ + target_text(target) + " "@ + target_obj + " "@
                + nat_text(score as nat)
        },
        CommandV::ScoreGet { target, target_obj } => "scoreboard players get "@ + target_text(
            target,
        ) + " "@ + target_obj,
        CommandV::Data { target, kind } => match kind {
            DataKindV::Get { .. } => "data get "@ + data_target_text(target) + " "@
                + data_kind_text(kind),
            DataKindV::Modify { .. } => "data modify "@ + data_target_text(target) + " "@
                + data_kind_text(kind),
        },
        CommandV::SetBlock { pos, block, kind } => "setblock "@ + pos + " "@ + block + " "@
            + setblock_kind_text(kind),
        CommandV::Fill { start, end, block } => "fill "@ + start + " "@ + end + " "@ + block,
        CommandV::Tellraw { target, message } => "tellraw "@ + target_text(target)
            + " [{\"text\":\""@ + message + "\"}]"@,
        CommandV::Teleport { target, pos } => "tp "@ + target_text(target) + " "@ + pos,
    }
}

// ----------------------------------------------------------------------
// Rendering
// ----------------------------------------------------------------------

/// The text of a function identifier.
pub fn id_to_text(id: &FunctionId) -> (r: String)
    ensures
        r@ == id_text(id@),
{
    if id.sub == 0 {
        id.name.clone()
    } else {
        let mut s = id.name.clone();
        s.append("-sub");
        let n = u64_text(id.sub as u64);
        s.append(n.as_str());
        s
    }
}

/// The text of a function call.
pub fn call_to_text(call: &FuncCall) -> (r: String)
    ensures
        r@ == "function "@ + id_text(call.id@),
{
    let mut s = String::from_str("function ");
    let t = id_to_text(&call.id);
    s.append(t.as_str());
    s
}

fn push_target(out: &mut String, t: &Target)
    ensures
        final(out)@ == old(out)@ + target_text(t@),
{
    match t {
        Target::Uuid(h) => {
            out.append(h.as_str());
        },
        Target::Selector(sel) => {
            let v = match sel.var {
                SelectorVariable::NearestPlayer => "@p",
                SelectorVariable::RandomPlayer => "@r",
                SelectorVariable::AllPlayers => "@a",
                SelectorVariable::AllEntities => "@e",
                SelectorVariable::ThisEntity => "@s",
            };
            out.append(v);
            let ghost args = sel.args@.map_values(|a: SelectorArg| a@);
            if sel.args.len() > 0 {
                out.append("[");
                let ghost start = out@;
                let mut i: usize = 0;
                while i < sel.args.len()
                    invariant
                        i <= sel.args.len(),
                        args == sel.args@.map_values(|a: SelectorArg| a@),
                        out@ == start + args_text(args.take(i as int)),
                    decreases sel.args.len() - i,
                {
                    if i > 0 {
                        out.append(",");
                    }
                    out.append(sel.args[i].0.as_str());
                    assert(args.take(i + 1).drop_last() =~= args.take(i as int));
                    i = i + 1;
                }
                assert(args.take(sel.args.len() as int) =~= args);
                out.append("]");
            }
        },
    }
}

fn push_range(out: &mut String, r: McRange)
    ensures
        final(out)@ == old(out)@ + range_text(r),
{
    match r {
        McRange::Between(lo, hi) => {
            let a = i32_text(lo);
            out.append(a.as_str());
            if lo != hi {
                out.append("..");
                let b = i32_text(hi);
                out.append(b.as_str());
            }
        },
        McRange::HalfLeft(hi) => {
            out.append("..");
            let b = i32_text(hi);
            out.append(b.as_str());
        },
        McRange::HalfRight(lo) => {
            let a = i32_text(lo);
            out.append(a.as_str());
            out.append("..");
        },
    }
}

fn relation_str(r: Relation) -> (s: &'static str)
    ensures
        s@ == relation_text(r),
{
    match r {
        Relation::LessThan => "<",
        Relation::LessThanEq => "<=",
        Relation::Eq => "=",
        Relation::GreaterThan => ">",
        Relation::GreaterThanEq => ">=",
    }
}

fn push_cond(out: &mut String, c: &ExecuteCondition)
    ensures
        final(out)@ == old(out)@ + cond_text(c@),
{
    match c {
        ExecuteCondition::Score { target, target_obj, kind } => {
            out.append("score ");
            push_target(out, target);
            out.append(" ");
            out.append(target_obj.as_str());
            out.append(" ");
            match kind {
                ExecuteCondKind::Matches(r) => {
                    out.append("matches ");
                    push_range(out, *r);
                },
                ExecuteCondKind::Relation { relation, source, source_obj } => {
                    out.append(relation_str(*relation));
                    out.append(" ");
                    push_target(out, source);
                    out.append(" ");
                    out.append(source_obj.as_str());
                },
            }
        },
        ExecuteCondition::Block { pos, block } => {
            out.append("block ");
            out.append(pos.as_str());
            out.append(" ");
            out.append(block.as_str());
        },
    }
}

/// The text of a condition.
pub fn cond_to_text(c: &ExecuteCondition) -> (r: String)
    ensures
        r@ == cond_text(c@),
{
    let mut s = String::new();
    push_cond(&mut s, c);
    s
}

fn push_data_target(out: &mut String, t: &DataTarget)
    ensures
        final(out)@ == old(out)@ + data_target_text(t@),
{
    match t {
        DataTarget::Block(p) => {
            out.append("block ");
            out.append(p.as_str());
        },
        DataTarget::Entity(t) => {
            out.append("entity ");
            push_target(out, t);
        },
    }
}

fn push_subcmd(out: &mut String, s: &ExecuteSubCmd)
    ensures
        final(out)@ == old(out)@ + subcmd_text(s@),
{
    match s {
        ExecuteSubCmd::Condition { is_unless, cond } => {
            if *is_unless {
                out.append("unless ");
            } else {
                out.append("if ");
            }
            push_cond(out, cond);
        },
        ExecuteSubCmd::Store { is_success, kind } => {
            if *is_success {
                out.append("store success ");
            } else {
                out.append("store result ");
            }
            match kind {
                ExecuteStoreKind::Score { target, objective } => {
                    out.append("score ");
                    push_target(out, target);
                    out.append(" ");
                    out.append(objective.as_str());
                },
                ExecuteStoreKind::Data { target, path, ty, scale } => {
                    push_data_target(out, target);
                    out.append(" ");
                    out.append(path.as_str());
                    out.append(" ");
                    out.append(ty.as_str());
                    out.append(" ");
                    let t = i32_text(*scale);
                    out.append(t.as_str());
                },
            }
        },
        ExecuteSubCmd::At { target } => {
            out.append("at ");
            push_target(out, target);
        },
        ExecuteSubCmd::Positioned { pos } => {
            out.append("positioned ");
            out.append(pos.as_str());
        },
    }
}

fn op_str(k: ScoreOpKind) -> (s: &'static str)
    ensures
        s@ == op_text(k),
{
    match k {
        ScoreOpKind::Assign => "=",
        ScoreOpKind::AddAssign => "+=",
        ScoreOpKind::SubAssign => "-=",
        ScoreOpKind::MulAssign => "*=",
        ScoreOpKind::DivAssign => "/=",
        ScoreOpKind::ModAssign => "%=",
        ScoreOpKind::Min => "<",
        ScoreOpKind::Max => ">",
        ScoreOpKind::Swap => "><",
    }
}

fn push_score_prefix(out: &mut String, verb: &str, t: &Target, obj: &String)
    ensures
        final(out)@ == old(out)@ + verb@ + target_text(t@) + " "@ + obj@,
{
    out.append(verb);
    push_target(out, t);
    out.append(" ");
    out.append(obj.as_str());
}

fn push_execute(out: &mut String, e: &Execute)
    ensures
        final(out)@ == old(out)@ + command_text(command_view(Command::Execute(*e))),
    decreases e,
{
    let ghost o = out@;
    out.append("execute");
    let ghost subs = e.subcommands@.map_values(|s: ExecuteSubCmd| s@);
    let ghost start = out@;
    let mut i: usize = 0;
    while i < e.subcommands.len()
        invariant
            i <= e.subcommands.len(),
            subs == e.subcommands@.map_values(|s: ExecuteSubCmd| s@),
            out@ == start + subcmds_text(subs.take(i as int)),
        decreases e.subcommands.len() - i,
    {
        out.append(" ");
        push_subcmd(out, &e.subcommands[i]);
        assert(subs.take(i + 1).drop_last() =~= subs.take(i as int));
        i = i + 1;
    }
    assert(subs.take(e.subcommands.len() as int) =~= subs);
    let ghost mid = out@;
    match &e.run {
        Some(b) => {
            out.append(" run ");
            push_command(out, &**b);
            assert(out@ =~= mid + (" run "@ + command_text(command_view(**b))));
        },
        None => {
            assert(out@ =~= mid + Seq::<char>::empty());
        },
    }
}

fn push_data(out: &mut String, d: &Data)
    ensures
        final(out)@ == old(out)@ + command_text(command_view(Command::Data(*d))),
{
    match &d.kind {
        DataKind::Get { path, scale } => {
            out.append("data get ");
            push_data_target(out, &d.target);
            out.append(" ");
            out.append(path.as_str());
            out.append(" ");
            let t = i32_text(*scale);
            out.append(t.as_str());
        },
        DataKind::Modify { path, kind: _, source } => {
            out.append("data modify ");
            push_data_target(out, &d.target);
            out.append(" ");
            out.append(path.as_str());
            out.append(" set ");
            match source {
                DataModifySource::Value(v) => {
                    out.append("value ");
                    let t = i32_text(*v);
                    out.append(t.as_str());
                },
                DataModifySource::ValueString(s) => {
                    out.append("value \"");
                    out.append(s.as_str());
                    out.append("\"");
                },
            }
        },
    }
}

fn push_score_op(out: &mut String, o: &ScoreOp)
    ensures
        final(out)@ == old(out)@ + command_text(command_view(Command::ScoreOp(*o))),
{
    push_score_prefix(out, "scoreboard players operation ", &o.target, &o.target_obj);
    out.append(" ");
    out.append(op_str(o.kind));
    out.append(" ");
    push_target(out, &o.source);
    out.append(" ");
    out.append(o.source_obj.as_str());
}

fn push_score_set(out: &mut String, o: &ScoreSet)
    ensures
        final(out)@ == old(out)@ + command_text(command_view(Command::ScoreSet(*o))),
{
    push_score_prefix(out, "scoreboard players set ", &o.target, &o.target_obj);
    out.append(" ");
    let t = i32_text(o.score);
    out.append(t.as_str());
}

fn push_score_add(out: &mut String, o: &ScoreAdd)
    ensures
        final(out)@ == old(out)@ + command_text(command_view(Command::ScoreAdd(*o))),
{
    if o.score < 0 {
        push_score_prefix(out, "scoreboard players remove ", &o.target, &o.target_obj);
        out.append(" ");
        let m: i64 = -(o.score as i64);
        let t = u64_text(m as u64);
        assert((m as u64) as nat == (-o.score) as nat);
        out.append(t.as_str());
    } else {
        push_score_prefix(out, "scoreboard players add ", &o.target, &o.target_obj);
        out.append(" ");
        let t = u64_text(o.score as u64);
        out.append(t.as_str());
    }
}

fn push_score_get(out: &mut String, o: &ScoreGet)
    ensures
        final(out)@ == old(out)@ + command_text(command_view(Command::ScoreGet(*o))),
{
    push_score_prefix(out, "scoreboard players get ", &o.target, &o.target_obj);
}

fn push_other(out: &mut String, c: &Command)
    requires
        c is Comment || c is FuncCall || c is SetBlock || c is Fill || c is Tellraw || c is Teleport,
    ensures
        final(out)@ == old(out)@ + command_text(c@),
{
    match c {
        Command::Comment(s) => {
            out.append("# ");
            out.append(s.as_str());
        },
        Command::FuncCall(f) => {
            let t = call_to_text(f);
            out.append(t.as_str());
        },
        Command::SetBlock(s) => {
            out.append("setblock ");
            out.append(s.pos.as_str());
            out.append(" ");
            out.append(s.block.as_str());
            out.append(" ");
            let k = match s.kind {
                SetBlockKind::Destroy => "destroy",
                SetBlockKind::Keep => "keep",
                SetBlockKind::Replace => "replace",
            };
            out.append(k);
        },
        Command::Fill(f) => {
            out.append("fill ");
            out.append(f.start.as_str());
            out.append(" ");
            out.append(f.end.as_str());
            out.append(" ");
            out.append(f.block.as_str());
        },
        Command::Tellraw(t) => {
            out.append("tellraw ");
            push_target(out, &t.target);
            out.append(" [{\"text\":\"");
            out.append(t.message.as_str());
            out.append("\"}]");
        },
        Command::Teleport(t) => {
            out.append("tp ");
            push_target(out, &t.target);
            out.append(" ");
            out.append(t.pos.as_str());
        },
        _ => {},
    }
}

fn push_command(out: &mut String, c: &Command)
    ensures
        final(out)@ == old(out)@ + command_text(c@),
    decreases c,
{
    match c {
        Command::Execute(e) => push_execute(out, e),
        Command::Data(d) => push_data(out, d),
        Command::ScoreOp(o) => push_score_op(out, o),
        Command::ScoreSet(o) => push_score_set(out, o),
        Command::ScoreAdd(o) => push_score_add(out, o),
        Command::ScoreGet(o) => push_score_get(out, o),
        _ => push_other(out, c),
    }
}

/// The text of a command.
pub fn command_to_text(c: &Command) -> (r: String)
    ensures
        r@ == command_text(c@),
{
    let mut s = String::new();
    push_command(&mut s, c);
    s
}

} // verus!
