//! The evaluation of a piece of code in a state of its own.
use crate::report::{error_line, report_error};
use crate::require::TextArgument;
use crate::text::text_opt;
use vstd::prelude::*;

verus! {

/// How far an evaluation has come.
#[verifier::ext_equal]
pub enum Eval<T> {
    /// A Luau state is being made.
    Creating { code: T },
    /// The state is being set up.
    SettingUp { l: usize, code: T },
    /// The code is being compiled.
    Loading { l: usize, code: T },
    /// The code is being run.
    Running { l: usize },
    /// The state is being closed.
    Closing { l: usize, report: Option<T> },
    /// There was an error before there was a state.
    Failed(T),
    /// The evaluation is over.
    Done,
}

/// What an evaluation asks of its host.
#[verifier::ext_equal]
#[derive(PartialEq, Eq, Debug)]
pub enum EvalAction<T> {
    /// To make a Luau state.
    Create,
    /// To open the libraries of the state and to install `runtime`.
    SetUp { l: usize, entry_file: T, entry_dir: T },
    /// To compile the code as a chunk of the given name.
    Load { l: usize, code: T, chunk: T },
    /// To run the chunk.
    Run { l: usize },
    /// To report an error if there is one, and to close the state.
    Close { l: usize, report: Option<T> },
    /// To report an error.
    Report(T),
    /// Nothing more.
    Nothing,
}

/// What the host of an evaluation answers.
#[verifier::ext_equal]
#[derive(PartialEq, Eq, Debug)]
pub enum EvalEvent<T> {
    /// The state under this handle is made.
    Created(usize),
    NotCreated,
    SetUp,
    /// The chunk is compiled, or it is not: the status, and the error message
    /// if there is one.
    Loaded { status: i32, error: Option<T> },
    /// The chunk has run: the status, and the error message if there is one.
    Ran { status: i32, error: Option<T> },
    Closed,
}

impl View for Eval<String> {
    type V = Eval<Seq<char>>;

    open spec fn view(&self) -> Eval<Seq<char>> {
        match *self {
            Eval::Creating { code } => Eval::Creating { code: code@ },
            Eval::SettingUp { l, code } => Eval::SettingUp { l, code: code@ },
            Eval::Loading { l, code } => Eval::Loading { l, code: code@ },
            Eval::Running { l } => Eval::Running { l },
            Eval::Closing { l, report } => Eval::Closing { l, report: text_opt(report) },
            Eval::Failed(m) => Eval::Failed(m@),
            Eval::Done => Eval::Done,
        }
    }
}

impl View for EvalAction<String> {
    type V = EvalAction<Seq<char>>;

    open spec fn view(&self) -> EvalAction<Seq<char>> {
        match *self {
            EvalAction::Create => EvalAction::Create,
            EvalAction::SetUp { l, entry_file, entry_dir } => EvalAction::SetUp {
                l,
                entry_file: entry_file@,
                entry_dir: entry_dir@,
            },
            EvalAction::Load { l, code, chunk } => EvalAction::Load {
                l,
                code: code@,
                chunk: chunk@,
            },
            EvalAction::Run { l } => EvalAction::Run { l },
            EvalAction::Close { l, report } => EvalAction::Close { l, report: text_opt(report) },
            EvalAction::Report(m) => EvalAction::Report(m@),
            EvalAction::Nothing => EvalAction::Nothing,
        }
    }
}

impl View for EvalEvent<String> {
    type V = EvalEvent<Seq<char>>;

    open spec fn view(&self) -> EvalEvent<Seq<char>> {
        match *self {
            EvalEvent::Created(l) => EvalEvent::Created(l),
            EvalEvent::NotCreated => EvalEvent::NotCreated,
            EvalEvent::SetUp => EvalEvent::SetUp,
            EvalEvent::Loaded { status, error } => EvalEvent::Loaded {
                status,
                error: text_opt(error),
            },
            EvalEvent::Ran { status, error } => EvalEvent::Ran { status, error: text_opt(error) },
            EvalEvent::Closed => EvalEvent::Closed,
        }
    }
}

/// An evaluation that begins.
pub open spec fn eval_of(code: TextArgument<Seq<char>>) -> Eval<Seq<char>> {
    match code {
        TextArgument::Missing => Eval::Failed("[nicyrtdyn] Error: code_ptr is null"@),
        TextArgument::NotUtf8 => Eval::Failed("[nicyrtdyn] Error: invalid code encoding"@),
        TextArgument::Text(code) => Eval::Creating { code },
    }
}

/// How an evaluation goes on when its host has answered `e`. An answer to
/// something else than was asked changes nothing.
pub open spec fn eval_step(c: Eval<Seq<char>>, e: EvalEvent<Seq<char>>) -> Eval<Seq<char>> {
    match (c, e) {
        (Eval::Creating { code }, EvalEvent::Created(l)) => Eval::SettingUp { l, code },
        (Eval::Creating { .. }, EvalEvent::NotCreated) => Eval::Failed(
            "[nicyrtdyn] Failed to create Luau state for eval"@,
        ),
        (Eval::SettingUp { l, code }, EvalEvent::SetUp) => Eval::Loading { l, code },
        (Eval::Loading { l, .. }, EvalEvent::Loaded { status, error }) => if status != 0 {
            Eval::Closing { l, report: Some(error_line("[LUAU EVAL COMPILE ERROR] "@, error)) }
        } else {
            Eval::Running { l }
        },
        (Eval::Running { l }, EvalEvent::Ran { status, error }) => if status != 0 {
            Eval::Closing { l, report: Some(error_line("[LUAU EVAL RUNTIME ERROR] "@, error)) }
        } else {
            Eval::Closing { l, report: None }
        },
        (Eval::Closing { .. }, EvalEvent::Closed) => Eval::Done,
        _ => c,
    }
}

/// What an evaluation asks of its host. The code counts as a file `eval`, whose
/// directory has no name.
pub open spec fn eval_action(c: Eval<Seq<char>>) -> EvalAction<Seq<char>> {
    match c {
        Eval::Creating { .. } => EvalAction::Create,
        Eval::SettingUp { l, .. } => EvalAction::SetUp {
            l,
            entry_file: "eval"@,
            entry_dir: Seq::empty(),
        },
        Eval::Loading { l, code } => EvalAction::Load { l, code, chunk: "eval"@.push('\0') },
        Eval::Running { l } => EvalAction::Run { l },
        Eval::Closing { l, report } => EvalAction::Close { l, report },
        Eval::Failed(m) => EvalAction::Report(m),
        Eval::Done => EvalAction::Nothing,
    }
}

impl Eval<String> {
    /// Begins to evaluate `code`.
    pub fn begin(code: TextArgument<String>) -> (r: Eval<String>)
        ensures
            r@ == eval_of(code@),
    {
        match code {
            TextArgument::Missing => Eval::Failed("[nicyrtdyn] Error: code_ptr is null".to_owned()),
            TextArgument::NotUtf8 => Eval::Failed(
                "[nicyrtdyn] Error: invalid code encoding".to_owned(),
            ),
            TextArgument::Text(code) => Eval::Creating { code },
        }
    }

    /// What the evaluation asks of its host.
    pub fn action(&self) -> (r: EvalAction<String>)
        ensures
            r@ == eval_action(self@),
    {
        match self {
            Eval::Creating { .. } => EvalAction::Create,
            Eval::SettingUp { l, .. } => EvalAction::SetUp {
                l: *l,
                entry_file: "eval".to_owned(),
                entry_dir: String::new(),
            },
            Eval::Loading { l, code } => {
                let mut chunk = "eval".to_owned();
                chunk.push('\0');
                EvalAction::Load { l: *l, code: code.clone(), chunk }
            },
            Eval::Running { l } => EvalAction::Run { l: *l },
            Eval::Closing { l, report } => {
                let report = match report {
                    Some(m) => Some(m.clone()),
                    None => None,
                };
                EvalAction::Close { l: *l, report }
            },
            Eval::Failed(m) => EvalAction::Report(m.clone()),
            Eval::Done => EvalAction::Nothing,
        }
    }

    /// Goes on with the answer `e` of the host.
    pub fn advance(self, e: EvalEvent<String>) -> (r: Eval<String>)
        ensures
            r@ == eval_step(self@, e@),
    {
        match (self, e) {
            (Eval::Creating { code }, EvalEvent::Created(l)) => Eval::SettingUp { l, code },
            (Eval::Creating { .. }, EvalEvent::NotCreated) => Eval::Failed(
                "[nicyrtdyn] Failed to create Luau state for eval".to_owned(),
            ),
            (Eval::SettingUp { l, code }, EvalEvent::SetUp) => Eval::Loading { l, code },
            (Eval::Loading { l, .. }, EvalEvent::Loaded { status, error }) => if status != 0 {
                Eval::Closing { l, report: Some(report_error("[LUAU EVAL COMPILE ERROR] ", error)) }
            } else {
                Eval::Running { l }
            },
            (Eval::Running { l }, EvalEvent::Ran { status, error }) => if status != 0 {
                Eval::Closing { l, report: Some(report_error("[LUAU EVAL RUNTIME ERROR] ", error)) }
            } else {
                Eval::Closing { l, report: None }
            },
            (Eval::Closing { .. }, EvalEvent::Closed) => Eval::Done,
            (c, _) => c,
        }
    }
}

/// The state that an evaluation has made and not closed yet.
pub open spec fn open_state(c: Eval<Seq<char>>) -> Option<usize> {
    match c {
        Eval::SettingUp { l, .. } => Some(l),
        Eval::Loading { l, .. } => Some(l),
        Eval::Running { l } => Some(l),
        Eval::Closing { l, .. } => Some(l),
        _ => None,
    }
}

/// A state that was made stays open until it has been closed: an evaluation
/// cannot end without closing it.
pub proof fn law_state_is_closed(c: Eval<Seq<char>>, e: EvalEvent<Seq<char>>, l: usize)
    requires
        open_state(c) == Some(l),
    ensures
        open_state(eval_step(c, e)) == Some(l) || (eval_action(c) matches EvalAction::Close {
            l: closed,
            ..
        } && closed == l && e is Closed && eval_step(c, e) is Done),
{
}

/// An evaluation after a number of answers.
pub open spec fn eval_after(c: Eval<Seq<char>>, answers: Seq<EvalEvent<Seq<char>>>) -> Eval<Seq<char>>
    decreases answers.len(),
{
    if answers.len() == 0 {
        c
    } else {
        eval_step(eval_after(c, answers.drop_last()), answers.last())
    }
}

/// The state that an action speaks of, if it does.
pub open spec fn state_of(a: EvalAction<Seq<char>>) -> Option<usize> {
    match a {
        EvalAction::SetUp { l, .. } => Some(l),
        EvalAction::Load { l, .. } => Some(l),
        EvalAction::Run { l } => Some(l),
        EvalAction::Close { l, .. } => Some(l),
        _ => None,
    }
}

/// The states that were made in the course of an evaluation, in order.
pub open spec fn made(c: Eval<Seq<char>>, answers: Seq<EvalEvent<Seq<char>>>) -> Seq<usize>
    decreases answers.len(),
{
    if answers.len() == 0 {
        Seq::empty()
    } else {
        let before = made(c, answers.drop_last());
        match (eval_action(eval_after(c, answers.drop_last())), answers.last()) {
            (EvalAction::Create, EvalEvent::Created(l)) => before.push(l),
            _ => before,
        }
    }
}

/// The states that were closed in the course of an evaluation, in order.
pub open spec fn closed(c: Eval<Seq<char>>, answers: Seq<EvalEvent<Seq<char>>>) -> Seq<usize>
    decreases answers.len(),
{
    if answers.len() == 0 {
        Seq::empty()
    } else {
        let before = closed(c, answers.drop_last());
        match (eval_action(eval_after(c, answers.drop_last())), answers.last()) {
            (EvalAction::Close { l, .. }, EvalEvent::Closed) => before.push(l),
            _ => before,
        }
    }
}

/// Over any answers an evaluation makes at most one state, speaks of that one
/// alone, asks for no other once it is made, and closes it, once: it is closed
/// when the evaluation is over, and not before. One that fails without a state
/// has made none.
pub proof fn law_one_state_is_made(
    code: TextArgument<Seq<char>>,
    answers: Seq<EvalEvent<Seq<char>>>,
)
    ensures
        ({
            let c = eval_of(code);
            let end = eval_after(c, answers);
            let states = made(c, answers);
            &&& states.len() <= 1
            &&& closed(c, answers) == (if end is Done {
                states
            } else {
                Seq::empty()
            })
            &&& states.len() == 1 ==> !(eval_action(end) is Create)
            &&& end is Done ==> states.len() == 1
            &&& end is Failed ==> states.len() == 0
            &&& open_state(end) == (if states.len() == 1 && !(end is Done) {
                Some(states[0])
            } else {
                None
            })
            &&& state_of(eval_action(end)) == open_state(end)
        }),
    decreases answers.len(),
{
    if answers.len() > 0 {
        law_one_state_is_made(code, answers.drop_last());
        let c = eval_of(code);
        let states = made(c, answers.drop_last());
        assert(states.len() == 1 ==> states =~= seq![states[0]]);
    }
}

/// What a host does with evaluations: it begins one, or answers.
#[verifier::ext_equal]
pub enum HostStep {
    Begin(TextArgument<Seq<char>>),
    Answer(EvalEvent<Seq<char>>),
}

/// The evaluation that a host has before it after a number of steps.
pub open spec fn session(c: Eval<Seq<char>>, steps: Seq<HostStep>) -> Eval<Seq<char>>
    decreases steps.len(),
{
    if steps.len() == 0 {
        c
    } else {
        match steps.last() {
            HostStep::Begin(code) => eval_of(code),
            HostStep::Answer(e) => eval_step(session(c, steps.drop_last()), e),
        }
    }
}

/// A number of answers as steps.
pub open spec fn answering(answers: Seq<EvalEvent<Seq<char>>>) -> Seq<HostStep> {
    answers.map_values(|e: EvalEvent<Seq<char>>| HostStep::Answer(e))
}

/// An evaluation depends on its code and the answers to it alone: whatever was
/// evaluated before, with whatever answers, it is as if it were the first, and
/// asks for the same.
pub proof fn law_evaluations_are_apart(
    first: Eval<Seq<char>>,
    before: Seq<HostStep>,
    code: TextArgument<Seq<char>>,
    answers: Seq<EvalEvent<Seq<char>>>,
)
    ensures
        session(first, before.push(HostStep::Begin(code)) + answering(answers)) == eval_after(
            eval_of(code),
            answers,
        ),
        eval_action(session(first, before.push(HostStep::Begin(code)) + answering(answers)))
            == eval_action(eval_after(eval_of(code), answers)),
    decreases answers.len(),
{
    let start = before.push(HostStep::Begin(code));
    let all = start + answering(answers);
    if answers.len() == 0 {
        assert(all =~= start);
    } else {
        law_evaluations_are_apart(first, before, code, answers.drop_last());
        assert(all.drop_last() =~= start + answering(answers.drop_last()));
        assert(all.last() == HostStep::Answer(answers.last()));
    }
}

} // verus!
