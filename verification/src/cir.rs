//! The command representation that the compiler emits: score holders,
//! function identifiers, and the commands themselves, each with a
//! mathematical view over sequences of characters.
use vstd::prelude::*;

verus! {


/// The scoreboard objective that every compiled score lives on.
pub const OBJECTIVE: &'static str = "rust";

/// Characters that may not appear inside a score holder's name.
pub open spec fn is_space(c: char) -> bool {
    c == ' ' || c == '\t' || c == '\n' || c == '\r'
}

/// A valid score holder name: non-empty and free of whitespace.
pub open spec fn valid_holder(s: Seq<char>) -> bool {
    s.len() > 0 && forall|i: int| 0 <= i < s.len() ==> !is_space(#[trigger] s[i])
}

/// The name of an entry on a scoreboard (a "fake player").
#[derive(Debug, PartialEq, Eq, Hash, PartialOrd, Ord)]
pub struct ScoreHolder {
    name: String,
}

impl View for ScoreHolder {
    type V = Seq<char>;

    closed spec fn view(&self) -> Seq<char> {
        self.name@
    }
}

impl ScoreHolder {
    #[verifier::type_invariant]
    spec fn well_formed(self) -> bool {
        valid_holder(self.name@)
    }

    /// Makes a score holder of `name`, or gives the name back when it is
    /// empty or holds whitespace.
    pub fn new(name: String) -> (r: Result<ScoreHolder, String>)
        ensures
            valid_holder(name@) ==> (r matches Ok(h) && h@ == name@),
            !valid_holder(name@) ==> (r matches Err(e) && e@ == name@),
    {
        let n = name.as_str().unicode_len();
        if n == 0 {
            return Err(name);
        }
        let mut i: usize = 0;
        while i < n
            invariant
                n == name@.len(),
                i <= n,
                forall|j: int| 0 <= j < i ==> !is_space(#[trigger] name@[j]),
            decreases n - i,
        {
            let c = name.as_str().get_char(i);
            if c == ' ' || c == '\t' || c == '\n' || c == '\r' {
                assert(is_space(name@[i as int]));
                return Err(name);
            }
            i = i + 1;
        }
        Ok(ScoreHolder { name })
    }

    /// Makes a score holder from a name known to be valid.
    pub fn from_valid(name: String) -> (r: ScoreHolder)
        requires
            valid_holder(name@),
        ensures
            r@ == name@,
    {
        ScoreHolder { name }
    }

    /// The holder's name.
    pub fn as_str(&self) -> (r: &str)
        ensures
            r@ == self@,
    {
        self.name.as_str()
    }

    /// Whether two holders name the same entry.
    pub fn same_as(&self, other: &ScoreHolder) -> (r: bool)
        ensures
            r == (self@ == other@),
    {
        self.name == other.name
    }

    /// Every holder's name is valid.
    pub fn check_valid(&self)
        ensures
            valid_holder(self@),
    {
        proof {
            use_type_invariant(self);
        }
    }
}

impl Clone for ScoreHolder {
    fn clone(&self) -> (r: Self)
        ensures
            r == *self,
    {
        proof {
            use_type_invariant(self);
        }
        ScoreHolder { name: self.name.clone() }
    }
}

/// The identifier of a generated function: a name and a sub-block number.
#[derive(Debug, PartialEq, Eq, Hash)]
pub struct FunctionId {
    pub name: String,
    pub sub: usize,
}

/// The view of a [`FunctionId`].
pub struct FunctionIdV {
    pub name: Seq<char>,
    pub sub: nat,
}

impl View for FunctionId {
    type V = FunctionIdV;

    open spec fn view(&self) -> FunctionIdV {
        FunctionIdV { name: self.name@, sub: self.sub as nat }
    }
}

impl FunctionId {
    /// The identifier of the function called `name`, at sub-block zero.
    pub fn new(name: &str) -> (r: FunctionId)
        ensures
            r@ == (FunctionIdV { name: name@, sub: 0 }),
    {
        FunctionId { name: String::from_str(name), sub: 0 }
    }

    /// The identifier of sub-block `sub` of the function called `name`.
    pub fn new_sub(name: &str, sub: usize) -> (r: FunctionId)
        ensures
            r@ == (FunctionIdV { name: name@, sub: sub as nat }),
    {
        FunctionId { name: String::from_str(name), sub }
    }
}

impl Clone for FunctionId {
    fn clone(&self) -> (r: Self)
        ensures
            r == *self,
    {
        FunctionId { name: self.name.clone(), sub: self.sub }
    }
}

/// A call of a generated function.
#[derive(Debug, PartialEq, Eq)]
pub struct FuncCall {
    pub id: FunctionId,
}

/// A generated function: its identifier and its commands.
#[derive(Debug, PartialEq)]
pub struct Function {
    pub id: FunctionId,
    pub cmds: Vec<Command>,
}

/// Which entities a selector ranges over.
#[derive(Debug, Clone, Copy, PartialEq, Eq)]
pub enum SelectorVariable {
    NearestPlayer,
    RandomPlayer,
    AllPlayers,
    AllEntities,
    ThisEntity,
}

/// One argument of a selector, such as `tag=ptr`.
#[derive(Debug, PartialEq, Eq)]
pub struct SelectorArg(pub String);

/// An entity selector such as `@e[tag=ptr]`.
#[derive(Debug, PartialEq, Eq)]
pub struct Selector {
    pub var: SelectorVariable,
    pub args: Vec<SelectorArg>,
}

/// The target of a score command: a named holder or a selector.
#[derive(Debug, PartialEq, Eq)]
pub enum Target {
    Uuid(ScoreHolder),
    Selector(Selector),
}

/// An integer range as used by `matches`.
#[derive(Debug, Clone, Copy, PartialEq, Eq)]
pub enum McRange {
    /// `lo..=hi`
    Between(i32, i32),
    /// `..=hi`
    HalfLeft(i32),
    /// `lo..`
    HalfRight(i32),
}

/// A comparison between two scores.
#[derive(Debug, Clone, Copy, PartialEq, Eq)]
pub enum Relation {
    LessThan,
    LessThanEq,
    Eq,
    GreaterThan,
    GreaterThanEq,
}

/// What a score condition tests.
#[derive(Debug, PartialEq, Eq)]
pub enum ExecuteCondKind {
    Relation { relation: Relation, source: Target, source_obj: String },
    Matches(McRange),
}

/// A condition of an `execute` command.
#[derive(Debug, PartialEq, Eq)]
pub enum ExecuteCondition {
    Score { target: Target, target_obj: String, kind: ExecuteCondKind },
    Block { pos: String, block: String },
}

/// Where the data accessed by a command lives.
#[derive(Debug, PartialEq, Eq)]
pub enum DataTarget {
    Block(String),
    Entity(Target),
}

/// Where an `execute store` puts the result.
#[derive(Debug, PartialEq, Eq)]
pub enum ExecuteStoreKind {
    Score { target: Target, objective: String },
    Data { target: DataTarget, path: String, ty: String, scale: i32 },
}

/// One sub-command of an `execute` command.
#[derive(Debug, PartialEq, Eq)]
pub enum ExecuteSubCmd {
    Condition { is_unless: bool, cond: ExecuteCondition },
    Store { is_success: bool, kind: ExecuteStoreKind },
    At { target: Target },
    Positioned { pos: String },
}

/// An `execute` command: its sub-commands and what it finally runs.
#[derive(Debug, PartialEq)]
pub struct Execute {
    pub subcommands: Vec<ExecuteSubCmd>,
    pub run: Option<Box<Command>>,
}

/// How a `data modify` command changes its path.
#[derive(Debug, Clone, Copy, PartialEq, Eq)]
pub enum DataModifyKind {
    /// `set`: overwrite the path with the source.
    Overwrite,
}

/// The value written by a `data modify` command.
#[derive(Debug, PartialEq, Eq)]
pub enum DataModifySource {
    Value(i32),
    ValueString(String),
}

/// What a `data` command does.
#[derive(Debug, PartialEq, Eq)]
pub enum DataKind {
    Get { path: String, scale: i32 },
    Modify { path: String, kind: DataModifyKind, source: DataModifySource },
}

/// A `data` command.
#[derive(Debug, PartialEq, Eq)]
pub struct Data {
    pub target: DataTarget,
    pub kind: DataKind,
}

/// The operation of a `scoreboard players operation` command.
#[derive(Debug, Clone, Copy, PartialEq, Eq)]
pub enum ScoreOpKind {
    Assign,
    AddAssign,
    SubAssign,
    MulAssign,
    DivAssign,
    ModAssign,
    Min,
    Max,
    Swap,
}

/// `scoreboard players operation`
#[derive(Debug, PartialEq, Eq)]
pub struct ScoreOp {
    pub target: Target,
    pub target_obj: String,
    pub kind: ScoreOpKind,
    pub source: Target,
    pub source_obj: String,
}

/// `scoreboard players set`
#[derive(Debug, PartialEq, Eq)]
pub struct ScoreSet {
    pub target: Target,
    pub target_obj: String,
    pub score: i32,
}

/// `scoreboard players add` (or `remove`, for a negative amount)
#[derive(Debug, PartialEq, Eq)]
pub struct ScoreAdd {
    pub target: Target,
    pub target_obj: String,
    pub score: i32,
}

/// `scoreboard players get`
#[derive(Debug, PartialEq, Eq)]
pub struct ScoreGet {
    pub target: Target,
    pub target_obj: String,
}

/// How `setblock` treats the block it replaces.
#[derive(Debug, Clone, Copy, PartialEq, Eq)]
pub enum SetBlockKind {
    Destroy,
    Keep,
    Replace,
}

/// `setblock`
#[derive(Debug, PartialEq, Eq)]
pub struct SetBlock {
    pub pos: String,
    pub block: String,
    pub kind: SetBlockKind,
}

/// `fill`
#[derive(Debug, PartialEq, Eq)]
pub struct Fill {
    pub start: String,
    pub end: String,
    pub block: String,
}

/// `tellraw` with a single plain-text component.
#[derive(Debug, PartialEq, Eq)]
pub struct Tellraw {
    pub target: Target,
    pub message: String,
}

/// `tp`: moves the targeted entities to a position.
#[derive(Debug, PartialEq, Eq)]
pub struct Teleport {
    pub target: Target,
    pub pos: String,
}

/// A command of the target game, or a comment line.
#[derive(Debug, PartialEq)]
pub enum Command {
    Comment(String),
    FuncCall(FuncCall),
    Execute(Execute),
    ScoreOp(ScoreOp),
    ScoreSet(ScoreSet),
    ScoreAdd(ScoreAdd),
    ScoreGet(ScoreGet),
    Data(Data),
    SetBlock(SetBlock),
    Fill(Fill),
    Tellraw(Tellraw),
    Teleport(Teleport),
}

// ----------------------------------------------------------------------
// Views
// ----------------------------------------------------------------------

/// View of a [`Target`].
pub enum TargetV {
    Uuid(Seq<char>),
    Selector { var: SelectorVariable, args: Seq<Seq<char>> },
}

/// View of an [`ExecuteCondKind`].
pub enum CondKindV {
    Relation { relation: Relation, source: TargetV, source_obj: Seq<char> },
    Matches(McRange),
}

/// View of an [`ExecuteCondition`].
pub enum CondV {
    Score { target: TargetV, target_obj: Seq<char>, kind: CondKindV },
    Block { pos: Seq<char>, block: Seq<char> },
}

/// View of a [`DataTarget`].
pub enum DataTargetV {
    Block(Seq<char>),
    Entity(TargetV),
}

/// View of an [`ExecuteStoreKind`].
pub enum StoreKindV {
    Score { target: TargetV, objective: Seq<char> },
    Data { target: DataTargetV, path: Seq<char>, ty: Seq<char>, scale: i32 },
}

/// View of an [`ExecuteSubCmd`].
pub enum SubCmdV {
    Condition { is_unless: bool, cond: CondV },
    Store { is_success: bool, kind: StoreKindV },
    At { target: TargetV },
    Positioned { pos: Seq<char> },
}

/// View of a [`DataModifySource`].
pub enum ModifySourceV {
    Value(i32),
    ValueString(Seq<char>),
}

/// View of a [`DataKind`].
pub enum DataKindV {
    Get { path: Seq<char>, scale: i32 },
    Modify { path: Seq<char>, kind: DataModifyKind, source: ModifySourceV },
}

/// View of a [`Command`].
pub enum CommandV {
    Comment(Seq<char>),
    FuncCall(FunctionIdV),
    Execute { subcommands: Seq<SubCmdV>, run: Option<Box<CommandV>> },
    ScoreOp {
        target: TargetV,
        target_obj: Seq<char>,
        kind: ScoreOpKind,
        source: TargetV,
        source_obj: Seq<char>,
    },
    ScoreSet { target: TargetV, target_obj: Seq<char>, score: i32 },
    ScoreAdd { target: TargetV, target_obj: Seq<char>, score: i32 },
    ScoreGet { target: TargetV, target_obj: Seq<char> },
    Data { target: DataTargetV, kind: DataKindV },
    SetBlock { pos: Seq<char>, block: Seq<char>, kind: SetBlockKind },
    Fill { start: Seq<char>, end: Seq<char>, block: Seq<char> },
    Tellraw { target: TargetV, message: Seq<char> },
    Teleport { target: TargetV, pos: Seq<char> },
}

/// View of a [`Function`].
pub struct FunctionV {
    pub id: FunctionIdV,
    pub cmds: Seq<CommandV>,
}

impl View for SelectorArg {
    type V = Seq<char>;

    open spec fn view(&self) -> Seq<char> {
        self.0@
    }
}

impl View for Target {
    type V = TargetV;

    open spec fn view(&self) -> TargetV {
        match self {
            Target::Uuid(h) => TargetV::Uuid(h@),
            Target::Selector(s) => TargetV::Selector {
                var: s.var,
                args: s.args@.map_values(|a: SelectorArg| a@),
            },
        }
    }
}

impl View for ExecuteCondKind {
    type V = CondKindV;

    open spec fn view(&self) -> CondKindV {
        match self {
            ExecuteCondKind::Relation { relation, source, source_obj } => CondKindV::Relation {
                relation: *relation,
                source: source@,
                source_obj: source_obj@,
            },
            ExecuteCondKind::Matches(r) => CondKindV::Matches(*r),
        }
    }
}

impl View for ExecuteCondition {
    type V = CondV;

    open spec fn view(&self) -> CondV {
        match self {
            ExecuteCondition::Score { target, target_obj, kind } => CondV::Score {
                target: target@,
                target_obj: target_obj@,
                kind: kind@,
            },
            ExecuteCondition::Block { pos, block } => CondV::Block { pos: pos@, block: block@ },
        }
    }
}

impl View for DataTarget {
    type V = DataTargetV;

    open spec fn view(&self) -> DataTargetV {
        match self {
            DataTarget::Block(p) => DataTargetV::Block(p@),
            DataTarget::Entity(t) => DataTargetV::Entity(t@),
        }
    }
}

impl View for ExecuteStoreKind {
    type V = StoreKindV;

    open spec fn view(&self) -> StoreKindV {
        match self {
            ExecuteStoreKind::Score { target, objective } => StoreKindV::Score {
                target: target@,
                objective: objective@,
            },
            ExecuteStoreKind::Data { target, path, ty, scale } => StoreKindV::Data {
                target: target@,
                path: path@,
                ty: ty@,
                scale: *scale,
            },
        }
    }
}

impl View for ExecuteSubCmd {
    type V = SubCmdV;

    open spec fn view(&self) -> SubCmdV {
        match self {
            ExecuteSubCmd::Condition { is_unless, cond } => SubCmdV::Condition {
                is_unless: *is_unless,
                cond: cond@,
            },
            ExecuteSubCmd::Store { is_success, kind } => SubCmdV::Store {
                is_success: *is_success,
                kind: kind@,
            },
            ExecuteSubCmd::At { target } => SubCmdV::At { target: target@ },
            ExecuteSubCmd::Positioned { pos } => SubCmdV::Positioned { pos: pos@ },
        }
    }
}

impl View for DataModifySource {
    type V = ModifySourceV;

    open spec fn view(&self) -> ModifySourceV {
        match self {
            DataModifySource::Value(v) => ModifySourceV::Value(*v),
            DataModifySource::ValueString(s) => ModifySourceV::ValueString(s@),
        }
    }
}

impl View for DataKind {
    type V = DataKindV;

    open spec fn view(&self) -> DataKindV {
        match self {
            DataKind::Get { path, scale } => DataKindV::Get { path: path@, scale: *scale },
            DataKind::Modify { path, kind, source } => DataKindV::Modify {
                path: path@,
                kind: *kind,
                source: source@,
            },
        }
    }
}

/// The view of a command.
pub open spec fn command_view(c: Command) -> CommandV
    decreases c,
{
    match c {
        Command::Comment(s) => CommandV::Comment(s@),
        Command::FuncCall(f) => CommandV::FuncCall(f.id@),
        Command::Execute(e) => CommandV::Execute {
            subcommands: e.subcommands@.map_values(|s: ExecuteSubCmd| s@),
            run: match e.run {
                Some(b) => Some(Box::new(command_view(*b))),
                None => None,
            },
        },
        Command::ScoreOp(o) => CommandV::ScoreOp {
            target: o.target@,
            target_obj: o.target_obj@,
            kind: o.kind,
            source: o.source@,
            source_obj: o.source_obj@,
        },
        Command::ScoreSet(o) => CommandV::ScoreSet {
            target: o.target@,
            target_obj: o.target_obj@,
            score: o.score,
        },
        Command::ScoreAdd(o) => CommandV::ScoreAdd {
            target: o.target@,
            target_obj: o.target_obj@,
            score: o.score,
        },
        Command::ScoreGet(o) => CommandV::ScoreGet { target: o.target@, target_obj: o.target_obj@ },
        Command::Data(d) => CommandV::Data { target: d.target@, kind: d.kind@ },
        Command::SetBlock(s) => CommandV::SetBlock { pos: s.pos@, block: s.block@, kind: s.kind },
        Command::Fill(f) => CommandV::Fill { start: f.start@, end: f.end@, block: f.block@ },
        Command::Tellraw(t) => CommandV::Tellraw { target: t.target@, message: t.message@ },
        Command::Teleport(t) => CommandV::Teleport { target: t.target@, pos: t.pos@ },
    }
}

impl View for Command {
    type V = CommandV;

    open spec fn view(&self) -> CommandV {
        command_view(*self)
    }
}

/// The views of a sequence of commands.
pub open spec fn commands_view(cmds: Seq<Command>) -> Seq<CommandV> {
    cmds.map_values(|c: Command| c@)
}

impl View for Function {
    type V = FunctionV;

    open spec fn view(&self) -> FunctionV {
        FunctionV { id: self.id@, cmds: commands_view(self.cmds@) }
    }
}

// ----------------------------------------------------------------------
// Copies and builders
// ----------------------------------------------------------------------

impl SelectorArg {
    /// A copy of the argument.
    pub fn duplicate(&self) -> (r: SelectorArg)
        ensures
            r@ == self@,
    {
        SelectorArg(self.0.clone())
    }
}

impl Target {
    /// A copy of the target.
    pub fn duplicate(&self) -> (r: Target)
        ensures
            r@ == self@,
    {
        match self {
            Target::Uuid(h) => Target::Uuid(h.clone()),
            Target::Selector(sel) => {
                let mut args: Vec<SelectorArg> = Vec::new();
                let mut i: usize = 0;
                while i < sel.args.len()
                    invariant
                        i <= sel.args.len(),
                        args@.len() == i,
                        forall|j: int| 0 <= j < i ==> #[trigger] args@[j]@ == sel.args@[j]@,
                    decreases sel.args.len() - i,
                {
                    args.push(sel.args[i].duplicate());
                    i = i + 1;
                }
                assert(args@.map_values(|a: SelectorArg| a@) =~= sel.args@.map_values(
                    |a: SelectorArg| a@,
                ));
                Target::Selector(Selector { var: sel.var, args })
            },
        }
    }
}

impl ExecuteCondition {
    /// A copy of the condition.
    pub fn duplicate(&self) -> (r: ExecuteCondition)
        ensures
            r@ == self@,
    {
        match self {
            ExecuteCondition::Score { target, target_obj, kind } => {
                let kind = match kind {
                    ExecuteCondKind::Relation { relation, source, source_obj } => {
                        ExecuteCondKind::Relation {
                            relation: *relation,
                            source: source.duplicate(),
                            source_obj: source_obj.clone(),
                        }
                    },
                    ExecuteCondKind::Matches(r) => ExecuteCondKind::Matches(*r),
                };
                ExecuteCondition::Score {
                    target: target.duplicate(),
                    target_obj: target_obj.clone(),
                    kind,
                }
            },
            ExecuteCondition::Block { pos, block } => ExecuteCondition::Block {
                pos: pos.clone(),
                block: block.clone(),
            },
        }
    }
}

impl DataTarget {
    /// A copy of the data target.
    pub fn duplicate(&self) -> (r: DataTarget)
        ensures
            r@ == self@,
    {
        match self {
            DataTarget::Block(p) => DataTarget::Block(p.clone()),
            DataTarget::Entity(t) => DataTarget::Entity(t.duplicate()),
        }
    }
}

impl ExecuteSubCmd {
    /// A copy of the sub-command.
    pub fn duplicate(&self) -> (r: ExecuteSubCmd)
        ensures
            r@ == self@,
    {
        match self {
            ExecuteSubCmd::Condition { is_unless, cond } => ExecuteSubCmd::Condition {
                is_unless: *is_unless,
                cond: cond.duplicate(),
            },
            ExecuteSubCmd::Store { is_success, kind } => {
                let kind = match kind {
                    ExecuteStoreKind::Score { target, objective } => ExecuteStoreKind::Score {
                        target: target.duplicate(),
                        objective: objective.clone(),
                    },
                    ExecuteStoreKind::Data { target, path, ty, scale } => ExecuteStoreKind::Data {
                        target: target.duplicate(),
                        path: path.clone(),
                        ty: ty.clone(),
                        scale: *scale,
                    },
                };
                ExecuteSubCmd::Store { is_success: *is_success, kind }
            },
            ExecuteSubCmd::At { target } => ExecuteSubCmd::At { target: target.duplicate() },
            ExecuteSubCmd::Positioned { pos } => ExecuteSubCmd::Positioned { pos: pos.clone() },
        }
    }
}

impl DataKind {
    /// A copy of the data operation.
    pub fn duplicate(&self) -> (r: DataKind)
        ensures
            r@ == self@,
    {
        match self {
            DataKind::Get { path, scale } => DataKind::Get { path: path.clone(), scale: *scale },
            DataKind::Modify { path, kind, source } => DataKind::Modify {
                path: path.clone(),
                kind: *kind,
                source: match source {
                    DataModifySource::Value(v) => DataModifySource::Value(*v),
                    DataModifySource::ValueString(s) => DataModifySource::ValueString(s.clone()),
                },
            },
        }
    }
}

impl Execute {
    /// An `execute` command with no sub-commands and nothing to run.
    pub fn new() -> (r: Execute)
        ensures
            r.subcommands@.len() == 0,
            r.run is None,
    {
        Execute { subcommands: Vec::new(), run: None }
    }

    /// Adds a sub-command.
    pub fn with_subcmd(&mut self, sub: ExecuteSubCmd)
        ensures
            final(self).subcommands@ == old(self).subcommands@.push(sub),
            final(self).run == old(self).run,
    {
        self.subcommands.push(sub);
    }

    /// Adds the condition that `cond` holds.
    pub fn with_if(&mut self, cond: ExecuteCondition)
        ensures
            final(self).subcommands@ == old(self).subcommands@.push(
                ExecuteSubCmd::Condition { is_unless: false, cond },
            ),
            final(self).run == old(self).run,
    {
        self.subcommands.push(ExecuteSubCmd::Condition { is_unless: false, cond });
    }

    /// Adds the condition that `cond` fails.
    pub fn with_unless(&mut self, cond: ExecuteCondition)
        ensures
            final(self).subcommands@ == old(self).subcommands@.push(
                ExecuteSubCmd::Condition { is_unless: true, cond },
            ),
            final(self).run == old(self).run,
    {
        self.subcommands.push(ExecuteSubCmd::Condition { is_unless: true, cond });
    }

    /// Runs the rest at the position of `target`.
    pub fn with_at(&mut self, target: Target)
        ensures
            final(self).subcommands@ == old(self).subcommands@.push(ExecuteSubCmd::At { target }),
            final(self).run == old(self).run,
    {
        self.subcommands.push(ExecuteSubCmd::At { target });
    }

    /// Sets the command to run.
    pub fn with_run(&mut self, cmd: Command)
        ensures
            final(self).subcommands == old(self).subcommands,
            final(self).run == Some(Box::new(cmd)),
    {
        self.run = Some(Box::new(cmd));
    }
}

impl Command {
    /// A copy of the command.
    pub fn duplicate(&self) -> (r: Command)
        ensures
            r@ == self@,
        decreases self,
    {
        match self {
            Command::Comment(s) => Command::Comment(s.clone()),
            Command::FuncCall(f) => Command::FuncCall(FuncCall { id: f.id.clone() }),
            Command::Execute(e) => {
                let mut subs: Vec<ExecuteSubCmd> = Vec::new();
                let mut i: usize = 0;
                while i < e.subcommands.len()
                    invariant
                        i <= e.subcommands.len(),
                        subs@.len() == i,
                        forall|j: int| 0 <= j < i ==> #[trigger] subs@[j]@ == e.subcommands@[j]@,
                    decreases e.subcommands.len() - i,
                {
                    subs.push(e.subcommands[i].duplicate());
                    i = i + 1;
                }
                let run = match &e.run {
                    Some(b) => Some(Box::new((**b).duplicate())),
                    None => None,
                };
                let r = Command::Execute(Execute { subcommands: subs, run });
                assert(subs@.map_values(|s: ExecuteSubCmd| s@) =~= e.subcommands@.map_values(
                    |s: ExecuteSubCmd| s@,
                ));
                r
            },
            Command::ScoreOp(o) => Command::ScoreOp(
                ScoreOp {
                    target: o.target.duplicate(),
                    target_obj: o.target_obj.clone(),
                    kind: o.kind,
                    source: o.source.duplicate(),
                    source_obj: o.source_obj.clone(),
                },
            ),
            Command::ScoreSet(o) => Command::ScoreSet(
                ScoreSet { target: o.target.duplicate(), target_obj: o.target_obj.clone(), score: o.score },
            ),
            Command::ScoreAdd(o) => Command::ScoreAdd(
                ScoreAdd { target: o.target.duplicate(), target_obj: o.target_obj.clone(), score: o.score },
            ),
            Command::ScoreGet(o) => Command::ScoreGet(
                ScoreGet { target: o.target.duplicate(), target_obj: o.target_obj.clone() },
            ),
            Command::Data(d) => Command::Data(
                Data { target: d.target.duplicate(), kind: d.kind.duplicate() },
            ),
            Command::SetBlock(b) => Command::SetBlock(
                SetBlock { pos: b.pos.clone(), block: b.block.clone(), kind: b.kind },
            ),
            Command::Fill(f) => Command::Fill(
                Fill { start: f.start.clone(), end: f.end.clone(), block: f.block.clone() },
            ),
            Command::Tellraw(t) => Command::Tellraw(
                Tellraw { target: t.target.duplicate(), message: t.message.clone() },
            ),
            Command::Teleport(t) => Command::Teleport(
                Teleport { target: t.target.duplicate(), pos: t.pos.clone() },
            ),
        }
    }
}

} // verus!
