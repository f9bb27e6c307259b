//! What the runtime reports: panics, warnings, errors and versions.
use crate::luau;
use crate::text::{join, joined, text_opt, texts};
use vstd::prelude::*;

verus! {

/// What a panic carries.
#[verifier::ext_equal]
#[derive(PartialEq, Eq, Debug)]
pub enum PanicPayload<T> {
    /// A text that lives as long as the program.
    Static(T),
    /// A text made for the panic.
    Owned(T),
    /// Something else.
    Other,
}

impl View for PanicPayload<String> {
    type V = PanicPayload<Seq<char>>;

    open spec fn view(&self) -> PanicPayload<Seq<char>> {
        match *self {
            PanicPayload::Static(t) => PanicPayload::Static(t@),
            PanicPayload::Owned(t) => PanicPayload::Owned(t@),
            PanicPayload::Other => PanicPayload::Other,
        }
    }
}

/// The text of a panic.
pub open spec fn panic_text(p: PanicPayload<Seq<char>>) -> Seq<char> {
    match p {
        PanicPayload::Static(t) => t,
        PanicPayload::Owned(t) => t,
        PanicPayload::Other => "non-string panic payload"@,
    }
}

/// The text of a panic.
pub fn panic_payload_to_string(p: PanicPayload<String>) -> (r: String)
    ensures
        r@ == panic_text(p@),
{
    match p {
        PanicPayload::Static(t) => t,
        PanicPayload::Owned(t) => t,
        PanicPayload::Other => "non-string panic payload".to_owned(),
    }
}

/// What is reported of a panic in `context`.
pub open spec fn panic_line(context: Seq<char>, p: PanicPayload<Seq<char>>) -> Seq<char> {
    "[NICY PANIC] "@ + context + ": "@ + panic_text(p)
}

/// What is reported of a panic in `context`.
pub fn log_panic(context: &str, p: PanicPayload<String>) -> (r: String)
    ensures
        r@ == "[NICY PANIC] "@ + context@ + ": "@ + panic_text(p@),
        r@ == panic_line(context@, p@),
{
    let mut line = "[NICY PANIC] ".to_owned();
    line.append(context);
    line.append(": ");
    line.append(panic_payload_to_string(p).as_str());
    line
}

/// How a value is shown that has a text, or none.
pub open spec fn shown(v: Option<Seq<char>>) -> Seq<char> {
    match v {
        Some(t) => t,
        None => "nil"@,
    }
}

/// What `warn` reports of its arguments.
pub open spec fn warning(arguments: Seq<Option<Seq<char>>>) -> Seq<char> {
    if arguments.len() == 0 {
        "[NICY WARN]"@
    } else {
        "[NICY WARN] "@ + joined(arguments.map_values(|v: Option<Seq<char>>| shown(v)), " "@)
    }
}

/// What `warn` reports of its arguments: their texts, with a space between
/// each two; a value without a text is shown as `nil`.
pub fn warn_line(arguments: Vec<Option<String>>) -> (r: String)
    ensures
        r@ == warning(arguments@.map_values(|v: Option<String>| text_opt(v))),
{
    let ghost all = arguments@.map_values(|v: Option<String>| text_opt(v));
    if arguments.len() == 0 {
        return "[NICY WARN]".to_owned();
    }
    let mut parts: Vec<String> = Vec::new();
    let mut i: usize = 0;
    while i < arguments.len()
        invariant
            i <= arguments@.len(),
            parts@.len() == i,
            forall|j: int| 0 <= j < i ==> (#[trigger] parts@[j])@ == shown(text_opt(arguments@[j])),
        decreases arguments@.len() - i,
    {
        match &arguments[i] {
            Some(t) => parts.push(t.clone()),
            None => parts.push("nil".to_owned()),
        }
        i += 1;
    }
    assert(texts(parts@) =~= all.map_values(|v: Option<Seq<char>>| shown(v)));
    let mut line = "[NICY WARN] ".to_owned();
    line.append(join(parts.as_slice(), " ").as_str());
    line
}

/// Whether `warn` has to be installed, by the type tag of what stands in its
/// place.
pub open spec fn lacks_warn(tag: i32) -> bool {
    tag == luau::nil_tag_value()
}

/// Whether `warn` has to be installed, by the type tag of what stands in its
/// place.
pub fn warn_is_missing(tag: i32) -> (r: bool)
    ensures
        r == (tag == luau::nil_tag_value()),
        r == lacks_warn(tag),
{
    tag == luau::nil_tag()
}

/// What is reported of an error: a mark, and its message if it has one.
pub open spec fn error_line(mark: Seq<char>, error: Option<Seq<char>>) -> Seq<char> {
    mark + (match error {
        Some(m) => m,
        None => "unknown"@,
    })
}

/// What is reported of an error: a mark, and its message if it has one.
pub(crate) fn report_error(mark: &str, error: Option<String>) -> (r: String)
    ensures
        r@ == error_line(mark@, text_opt(error)),
{
    let mut line = mark.to_owned();
    match error {
        Some(m) => line.append(m.as_str()),
        None => line.append("unknown"),
    }
    line
}

/// `mark` followed by `message`.
pub(crate) fn marked(mark: &str, message: &str) -> (r: String)
    ensures
        r@ == mark@ + message@,
{
    let mut line = mark.to_owned();
    line.append(message);
    line
}

/// The version of the runtime.
pub open spec fn version_number() -> Seq<char> {
    "0.1.0"@
}

/// The version of the runtime as hosts see it, with the NUL that ends it.
pub open spec fn label_text() -> Seq<char> {
    ("Nicy Runtime "@ + version_number()).push('\0')
}

/// The version of the runtime.
pub fn runtime_version() -> (r: &'static str)
    ensures
        r@ == "0.1.0"@,
        r@ == version_number(),
{
    "0.1.0"
}

/// The version of the runtime as hosts see it, with the NUL that ends it.
pub fn version_label() -> (r: String)
    ensures
        r@ == ("Nicy Runtime "@ + "0.1.0"@).push('\0'),
        r@ == label_text(),
{
    let mut label = marked("Nicy Runtime ", runtime_version());
    label.push('\0');
    label
}

} // verus!
