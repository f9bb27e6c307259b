//! The version of Luau: what a state says of itself, asked for once.
use crate::text::text_opt;
use vstd::prelude::*;

verus! {

/// How far the question for the version has come.
#[verifier::ext_equal]
pub enum LuauVersion<T> {
    /// A Luau state is being made.
    Creating,
    /// The state is being asked.
    Asking { l: usize },
    /// The state is being closed.
    Closing { l: usize, text: T },
    /// The version is known.
    Known(T),
}

/// What the question for the version asks of its host.
#[verifier::ext_equal]
#[derive(PartialEq, Eq, Debug)]
pub enum VersionAction<T> {
    /// To make a Luau state.
    Create,
    /// To open the libraries of the state and to read its global `_VERSION`.
    Ask { l: usize },
    /// To close the state.
    Close { l: usize },
    /// To answer with this text, which a NUL ends.
    Answer(T),
}

/// What the host answers.
#[verifier::ext_equal]
#[derive(PartialEq, Eq, Debug)]
pub enum VersionEvent<T> {
    /// The state under this handle is made.
    Created(usize),
    NotCreated,
    /// What the state says, if it is a text.
    Said(Option<T>),
    Closed,
}

impl View for LuauVersion<String> {
    type V = LuauVersion<Seq<char>>;

    open spec fn view(&self) -> LuauVersion<Seq<char>> {
        match *self {
            LuauVersion::Creating => LuauVersion::Creating,
            LuauVersion::Asking { l } => LuauVersion::Asking { l },
            LuauVersion::Closing { l, text } => LuauVersion::Closing { l, text: text@ },
            LuauVersion::Known(text) => LuauVersion::Known(text@),
        }
    }
}

impl View for VersionAction<String> {
    type V = VersionAction<Seq<char>>;

    open spec fn view(&self) -> VersionAction<Seq<char>> {
        match *self {
            VersionAction::Create => VersionAction::Create,
            VersionAction::Ask { l } => VersionAction::Ask { l },
            VersionAction::Close { l } => VersionAction::Close { l },
            VersionAction::Answer(text) => VersionAction::Answer(text@),
        }
    }
}

impl View for VersionEvent<String> {
    type V = VersionEvent<Seq<char>>;

    open spec fn view(&self) -> VersionEvent<Seq<char>> {
        match *self {
            VersionEvent::Created(l) => VersionEvent::Created(l),
            VersionEvent::NotCreated => VersionEvent::NotCreated,
            VersionEvent::Said(v) => VersionEvent::Said(text_opt(v)),
            VersionEvent::Closed => VersionEvent::Closed,
        }
    }
}

/// The version as hosts see it: what a state says of itself. Where no state
/// could be made, and where it says nothing, a text stands in for it.
pub open spec fn version_text(state_made: bool, said: Option<Seq<char>>) -> Seq<char> {
    if !state_made {
        "Luau (Fallback)"@
    } else {
        match said {
            Some(v) => v,
            None => "Luau (Unknown)"@,
        }
    }
}

/// The version as hosts see it.
pub fn luau_version(state_made: bool, said: Option<String>) -> (r: String)
    ensures
        r@ == version_text(state_made, text_opt(said)),
{
    if !state_made {
        return "Luau (Fallback)".to_owned();
    }
    match said {
        Some(v) => v,
        None => "Luau (Unknown)".to_owned(),
    }
}

/// How the question goes on when its host has answered `e`. An answer to
/// something else than was asked changes nothing, and nothing changes a
/// version that is known.
pub open spec fn version_step(c: LuauVersion<Seq<char>>, e: VersionEvent<Seq<char>>) -> LuauVersion<
    Seq<char>,
> {
    match (c, e) {
        (LuauVersion::Creating, VersionEvent::Created(l)) => LuauVersion::Asking { l },
        (LuauVersion::Creating, VersionEvent::NotCreated) => LuauVersion::Known(
            version_text(false, None).push('\0'),
        ),
        (LuauVersion::Asking { l }, VersionEvent::Said(v)) => LuauVersion::Closing {
            l,
            text: version_text(true, v).push('\0'),
        },
        (LuauVersion::Closing { text, .. }, VersionEvent::Closed) => LuauVersion::Known(text),
        _ => c,
    }
}

/// What the question asks of its host.
pub open spec fn version_action(c: LuauVersion<Seq<char>>) -> VersionAction<Seq<char>> {
    match c {
        LuauVersion::Creating => VersionAction::Create,
        LuauVersion::Asking { l } => VersionAction::Ask { l },
        LuauVersion::Closing { l, .. } => VersionAction::Close { l },
        LuauVersion::Known(text) => VersionAction::Answer(text),
    }
}

impl LuauVersion<String> {
    /// A version that was not asked for yet.
    pub fn new() -> (r: LuauVersion<String>)
        ensures
            r@ == LuauVersion::<Seq<char>>::Creating,
    {
        LuauVersion::Creating
    }

    /// What the question asks of its host.
    pub fn action(&self) -> (r: VersionAction<String>)
        ensures
            r@ == version_action(self@),
    {
        match self {
            LuauVersion::Creating => VersionAction::Create,
            LuauVersion::Asking { l } => VersionAction::Ask { l: *l },
            LuauVersion::Closing { l, .. } => VersionAction::Close { l: *l },
            LuauVersion::Known(text) => VersionAction::Answer(text.clone()),
        }
    }

    /// The version, if it is known.
    pub fn known(&self) -> (r: Option<&str>)
        ensures
            match r {
                Some(t) => self@ == LuauVersion::Known(t@),
                None => !(self@ is Known),
            },
    {
        match self {
            LuauVersion::Known(text) => Some(text.as_str()),
            _ => None,
        }
    }

    /// Goes on with the answer `e` of the host.
    pub fn advance(self, e: VersionEvent<String>) -> (r: LuauVersion<String>)
        ensures
            r@ == version_step(self@, e@),
    {
        match (self, e) {
            (LuauVersion::Creating, VersionEvent::Created(l)) => LuauVersion::Asking { l },
            (LuauVersion::Creating, VersionEvent::NotCreated) => {
                let mut text = luau_version(false, None);
                text.push('\0');
                LuauVersion::Known(text)
            },
            (LuauVersion::Asking { l }, VersionEvent::Said(v)) => {
                let mut text = luau_version(true, v);
                text.push('\0');
                LuauVersion::Closing { l, text }
            },
            (LuauVersion::Closing { text, .. }, VersionEvent::Closed) => LuauVersion::Known(text),
            (c, _) => c,
        }
    }
}

/// The question after a number of answers.
pub open spec fn version_after(
    c: LuauVersion<Seq<char>>,
    answers: Seq<VersionEvent<Seq<char>>>,
) -> LuauVersion<Seq<char>>
    decreases answers.len(),
{
    if answers.len() == 0 {
        c
    } else {
        version_step(version_after(c, answers.drop_last()), answers.last())
    }
}

/// The states that were made, in order.
pub open spec fn made(c: LuauVersion<Seq<char>>, answers: Seq<VersionEvent<Seq<char>>>) -> Seq<usize>
    decreases answers.len(),
{
    if answers.len() == 0 {
        Seq::empty()
    } else {
        let before = made(c, answers.drop_last());
        match (version_action(version_after(c, answers.drop_last())), answers.last()) {
            (VersionAction::Create, VersionEvent::Created(l)) => before.push(l),
            _ => before,
        }
    }
}

/// The states that were closed, in order.
pub open spec fn closed(c: LuauVersion<Seq<char>>, answers: Seq<VersionEvent<Seq<char>>>) -> Seq<
    usize,
>
    decreases answers.len(),
{
    if answers.len() == 0 {
        Seq::empty()
    } else {
        let before = closed(c, answers.drop_last());
        match (version_action(version_after(c, answers.drop_last())), answers.last()) {
            (VersionAction::Close { l }, VersionEvent::Closed) => before.push(l),
            _ => before,
        }
    }
}

/// What the state that was asked has said.
pub open spec fn said(c: LuauVersion<Seq<char>>, answers: Seq<VersionEvent<Seq<char>>>) -> Option<
    Seq<char>,
>
    decreases answers.len(),
{
    if answers.len() == 0 {
        None
    } else {
        match (version_action(version_after(c, answers.drop_last())), answers.last()) {
            (VersionAction::Ask { .. }, VersionEvent::Said(v)) => v,
            _ => said(c, answers.drop_last()),
        }
    }
}

/// The version is told alike every time: once it is known it stays as it is,
/// whatever the host answers later.
pub proof fn law_version_is_kept(
    c: LuauVersion<Seq<char>>,
    answers: Seq<VersionEvent<Seq<char>>>,
    text: Seq<char>,
)
    requires
        c == LuauVersion::Known(text),
    ensures
        version_after(c, answers) == c,
        version_action(version_after(c, answers)) == VersionAction::Answer(text),
        made(c, answers).len() == 0,
    decreases answers.len(),
{
    if answers.len() > 0 {
        law_version_is_kept(c, answers.drop_last(), text);
    }
}

/// Over any number of questions and answers at most one state is made, and it
/// is closed by the time the version is known. The version is then what that
/// state says, or what stands in for it, and a NUL.
pub proof fn law_version_takes_one_state(answers: Seq<VersionEvent<Seq<char>>>)
    ensures
        ({
            let c = LuauVersion::<Seq<char>>::Creating;
            let end = version_after(c, answers);
            let states = made(c, answers);
            &&& states.len() <= 1
            &&& closed(c, answers) == (if end is Known {
                states
            } else {
                Seq::empty()
            })
            &&& end is Creating ==> states.len() == 0
            &&& end matches LuauVersion::Asking { l } ==> states == seq![l]
            &&& end matches LuauVersion::Closing { l, text } ==> states == seq![l] && text
                == version_text(true, said(c, answers)).push('\0')
            &&& end matches LuauVersion::Known(text) ==> text == version_text(
                states.len() == 1,
                said(c, answers),
            ).push('\0')
        }),
    decreases answers.len(),
{
    if answers.len() > 0 {
        let c = LuauVersion::<Seq<char>>::Creating;
        let before = version_after(c, answers.drop_last());
        law_version_takes_one_state(answers.drop_last());
        match (before, answers.last()) {
            (LuauVersion::Creating, VersionEvent::Created(l)) => {
                assert(made(c, answers) =~= seq![l]);
            },
            (LuauVersion::Closing { l, .. }, VersionEvent::Closed) => {
                assert(closed(c, answers) =~= seq![l]);
            },
            _ => {},
        }
    }
}

} // verus!
