//! The compilation of a script to a file of bytecode.
use crate::path::{self, with_extension_of, Os};
use crate::report::marked;
use crate::require::TextArgument;
use crate::source::{code_of, strip_native_directive};
use vstd::prelude::*;

verus! {

/// How far a compilation has come.
#[verifier::ext_equal]
pub enum Compile<T, B> {
    /// The canonical path of the script is being asked for.
    Canonicalizing { path: T },
    /// The script is being read.
    Reading { entry: T },
    /// The code is being compiled.
    Compiling { entry: T, code: T },
    /// The bytecode is being written.
    Writing { out: T, bytes: B },
    /// The compilation is over, with this message.
    Finished(T),
    /// The compilation has failed, with this message.
    Failed(T),
}

/// What a compilation asks of its host.
#[verifier::ext_equal]
#[derive(PartialEq, Eq, Debug)]
pub enum CompileAction<T, B> {
    /// To ask for the canonical path of a file.
    Canonicalize(T),
    /// To read a file.
    Read(T),
    /// To compile the code.
    Compile(T),
    /// To write these bytes to a file.
    Write { path: T, bytes: B },
    /// To tell of success.
    Print(T),
    /// To report an error.
    Report(T),
}

/// What the host of a compilation answers.
#[verifier::ext_equal]
#[derive(PartialEq, Eq, Debug)]
pub enum CompileEvent<T, B> {
    Canonical(T),
    NotCanonical,
    Content(T),
    /// The file could not be read, and this is why.
    Unreadable(T),
    /// What the compiler gave.
    Compiled(B),
    Written,
    /// The file could not be written, and this is why.
    Unwritable(T),
}

/// The compilation of a script.
pub type Compilation = Compile<String, Vec<u8>>;

/// What a compilation stands for.
pub type CompileView = Compile<Seq<char>, Seq<u8>>;

impl View for Compile<String, Vec<u8>> {
    type V = CompileView;

    open spec fn view(&self) -> CompileView {
        match *self {
            Compile::Canonicalizing { path } => Compile::Canonicalizing { path: path@ },
            Compile::Reading { entry } => Compile::Reading { entry: entry@ },
            Compile::Compiling { entry, code } => Compile::Compiling { entry: entry@, code: code@ },
            Compile::Writing { out, bytes } => Compile::Writing { out: out@, bytes: bytes@ },
            Compile::Finished(m) => Compile::Finished(m@),
            Compile::Failed(m) => Compile::Failed(m@),
        }
    }
}

impl View for CompileAction<String, Vec<u8>> {
    type V = CompileAction<Seq<char>, Seq<u8>>;

    open spec fn view(&self) -> CompileAction<Seq<char>, Seq<u8>> {
        match *self {
            CompileAction::Canonicalize(p) => CompileAction::Canonicalize(p@),
            CompileAction::Read(p) => CompileAction::Read(p@),
            CompileAction::Compile(c) => CompileAction::Compile(c@),
            CompileAction::Write { path, bytes } => CompileAction::Write {
                path: path@,
                bytes: bytes@,
            },
            CompileAction::Print(m) => CompileAction::Print(m@),
            CompileAction::Report(m) => CompileAction::Report(m@),
        }
    }
}

impl View for CompileEvent<String, Vec<u8>> {
    type V = CompileEvent<Seq<char>, Seq<u8>>;

    open spec fn view(&self) -> CompileEvent<Seq<char>, Seq<u8>> {
        match *self {
            CompileEvent::Canonical(p) => CompileEvent::Canonical(p@),
            CompileEvent::NotCanonical => CompileEvent::NotCanonical,
            CompileEvent::Content(c) => CompileEvent::Content(c@),
            CompileEvent::Unreadable(why) => CompileEvent::Unreadable(why@),
            CompileEvent::Compiled(bytes) => CompileEvent::Compiled(bytes@),
            CompileEvent::Written => CompileEvent::Written,
            CompileEvent::Unwritable(why) => CompileEvent::Unwritable(why@),
        }
    }
}

/// The file that the bytecode of a script is written to.
pub open spec fn bytecode_file(os: Os, entry: Seq<char>) -> Seq<char> {
    with_extension_of(os, entry, "luauc"@)
}

/// Whether what the compiler gave is bytecode: in place of bytecode it gives
/// a message behind a zero, or nothing.
pub open spec fn is_bytecode(bytes: Seq<u8>) -> bool {
    bytes.len() > 0 && bytes[0] != 0
}

/// A compilation that begins.
pub open spec fn compile_of(path: TextArgument<Seq<char>>) -> CompileView {
    match path {
        TextArgument::Missing => Compile::Failed("[nicyrtdyn] Error: path_ptr is null"@),
        TextArgument::NotUtf8 => Compile::Failed("[nicyrtdyn] Error: invalid path encoding"@),
        TextArgument::Text(path) => Compile::Canonicalizing { path },
    }
}

/// How a compilation goes on when its host has answered `e`. An answer to
/// something else than was asked changes nothing.
pub open spec fn compile_step(
    os: Os,
    c: CompileView,
    e: CompileEvent<Seq<char>, Seq<u8>>,
) -> CompileView {
    match (c, e) {
        (Compile::Canonicalizing { .. }, CompileEvent::Canonical(entry)) => Compile::Reading {
            entry,
        },
        (Compile::Canonicalizing { path }, CompileEvent::NotCanonical) => Compile::Reading {
            entry: path,
        },
        (Compile::Reading { entry }, CompileEvent::Content(source)) => Compile::Compiling {
            entry,
            code: code_of(source),
        },
        (Compile::Reading { .. }, CompileEvent::Unreadable(why)) => Compile::Failed(
            "[nicyrtdyn] Compile Error reading file: "@ + why,
        ),
        (Compile::Compiling { entry, .. }, CompileEvent::Compiled(bytes)) => if !is_bytecode(bytes) {
            Compile::Failed(
                "[LUAU COMPILE ERROR] Failed to generate bytecode (syntax error?)"@,
            )
        } else {
            Compile::Writing { out: bytecode_file(os, entry), bytes }
        },
        (Compile::Writing { out, .. }, CompileEvent::Written) => Compile::Finished(
            "[NICY] Bytecode successfully compiled to "@ + out,
        ),
        (Compile::Writing { out, .. }, CompileEvent::Unwritable(why)) => Compile::Failed(
            "[LUAU COMPILE ERROR] Failed to save bytecode to "@ + out + ": "@ + why,
        ),
        _ => c,
    }
}

/// What a compilation asks of its host.
pub open spec fn compile_action(c: CompileView) -> CompileAction<Seq<char>, Seq<u8>> {
    match c {
        Compile::Canonicalizing { path } => CompileAction::Canonicalize(path),
        Compile::Reading { entry } => CompileAction::Read(entry),
        Compile::Compiling { code, .. } => CompileAction::Compile(code),
        Compile::Writing { out, bytes } => CompileAction::Write { path: out, bytes },
        Compile::Finished(m) => CompileAction::Print(m),
        Compile::Failed(m) => CompileAction::Report(m),
    }
}

impl Compile<String, Vec<u8>> {
    /// Begins to compile the script at `path`.
    pub fn begin(path: TextArgument<String>) -> (r: Compilation)
        ensures
            r@ == compile_of(path@),
    {
        match path {
            TextArgument::Missing => Compile::Failed(
                "[nicyrtdyn] Error: path_ptr is null".to_owned(),
            ),
            TextArgument::NotUtf8 => Compile::Failed(
                "[nicyrtdyn] Error: invalid path encoding".to_owned(),
            ),
            TextArgument::Text(path) => Compile::Canonicalizing { path },
        }
    }

    /// What the compilation asks of its host.
    pub fn action(&self) -> (r: CompileAction<String, Vec<u8>>)
        ensures
            r@ == compile_action(self@),
    {
        match self {
            Compile::Canonicalizing { path } => CompileAction::Canonicalize(path.clone()),
            Compile::Reading { entry } => CompileAction::Read(entry.clone()),
            Compile::Compiling { code, .. } => CompileAction::Compile(code.clone()),
            Compile::Writing { out, bytes } => {
                let bytes = bytes.clone();
                CompileAction::Write { path: out.clone(), bytes }
            },
            Compile::Finished(m) => CompileAction::Print(m.clone()),
            Compile::Failed(m) => CompileAction::Report(m.clone()),
        }
    }

    /// Goes on with the answer `e` of the host.
    pub fn advance(self, os: Os, e: CompileEvent<String, Vec<u8>>) -> (r: Compilation)
        ensures
            r@ == compile_step(os, self@, e@),
    {
        match (self, e) {
            (Compile::Canonicalizing { .. }, CompileEvent::Canonical(entry)) => Compile::Reading {
                entry,
            },
            (Compile::Canonicalizing { path }, CompileEvent::NotCanonical) => Compile::Reading {
                entry: path,
            },
            (Compile::Reading { entry }, CompileEvent::Content(source)) => {
                let (_, code) = strip_native_directive(source.as_str());
                Compile::Compiling { entry, code }
            },
            (Compile::Reading { .. }, CompileEvent::Unreadable(why)) => Compile::Failed(
                marked("[nicyrtdyn] Compile Error reading file: ", why.as_str()),
            ),
            (Compile::Compiling { entry, .. }, CompileEvent::Compiled(bytes)) => if bytes.len() == 0
                || bytes[0] == 0 {
                Compile::Failed(
                    "[LUAU COMPILE ERROR] Failed to generate bytecode (syntax error?)".to_owned(),
                )
            } else {
                Compile::Writing { out: path::with_extension(os, entry.as_str(), "luauc"), bytes }
            },
            (Compile::Writing { out, .. }, CompileEvent::Written) => Compile::Finished(
                marked("[NICY] Bytecode successfully compiled to ", out.as_str()),
            ),
            (Compile::Writing { out, .. }, CompileEvent::Unwritable(why)) => {
                let mut m = marked(
                    "[LUAU COMPILE ERROR] Failed to save bytecode to ",
                    out.as_str(),
                );
                m.append(": ");
                m.append(why.as_str());
                Compile::Failed(m)
            },
            (c, _) => c,
        }
    }
}

/// Nothing is written but the bytecode that the compiler gave for the code of
/// the script, to the path of the script with another extension; a script
/// that does not compile writes nothing.
pub proof fn law_only_bytecode_is_written(
    os: Os,
    c: CompileView,
    e: CompileEvent<Seq<char>, Seq<u8>>,
    entry: Seq<char>,
    source: Seq<char>,
    bytes: Seq<u8>,
)
    ensures
        ({
            let compiling = compile_step(
                os,
                Compile::Reading { entry },
                CompileEvent::Content(source),
            );
            let compiled = compile_step(os, compiling, CompileEvent::Compiled(bytes));
            &&& compile_action(compiling) == CompileAction::<Seq<char>, Seq<u8>>::Compile(
                code_of(source),
            )
            &&& is_bytecode(bytes) ==> compile_action(compiled) == (CompileAction::Write {
                path: bytecode_file(os, entry),
                bytes,
            })
            &&& !is_bytecode(bytes) ==> compiled is Failed
        }),
        compile_step(os, c, e) is Writing && !(c is Writing) ==> c is Compiling && e is Compiled
            && is_bytecode(e->Compiled_0) && compile_step(os, c, e)->bytes == e->Compiled_0,
{
}

} // verus!
