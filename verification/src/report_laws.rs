//! What holds of what the runtime reports and tells of itself.
use crate::hires_timer::{asks_for_timer, period_of};
use crate::report::{
    error_line, label_text, lacks_warn, panic_line, panic_text, version_number, warning,
    PanicPayload,
};
use crate::require_resolver::{codegen_of, flag_is_set, Codegen};
use crate::runtime_data::{fingerprint_of, FileFingerprint};
use crate::text::joined;
use crate::version::{
    version_action, version_step, version_text, LuauVersion, VersionAction, VersionEvent,
};
use vstd::prelude::*;

verus! {

/// A panic is reported with its context and its text, and one without a text
/// in these words.
pub proof fn law_panic_is_reported(context: Seq<char>, text: Seq<char>)
    ensures
        panic_line(context, PanicPayload::Static(text)) == "[NICY PANIC] "@ + context + ": "@ + text,
        panic_line(context, PanicPayload::Owned(text)) == "[NICY PANIC] "@ + context + ": "@ + text,
        panic_line(context, PanicPayload::Other) == "[NICY PANIC] "@ + context + ": "@
            + "non-string panic payload"@,
        panic_text(PanicPayload::Static(text)) == text,
        panic_text(PanicPayload::Owned(text)) == text,
        panic_text(PanicPayload::<Seq<char>>::Other) == "non-string panic payload"@,
{
}

/// How a value is written in a warning.
pub open spec fn in_warning(v: Option<Seq<char>>) -> Seq<char> {
    match v {
        Some(t) => t,
        None => "nil"@,
    }
}

/// A warning without arguments is its mark alone. With one it is the mark, a
/// space and the argument, and each argument more follows behind a space; a
/// value without a text is written `nil`.
pub proof fn law_warning(
    first: Option<Seq<char>>,
    more: Seq<Option<Seq<char>>>,
    last: Option<Seq<char>>,
)
    ensures
        warning(Seq::empty()) == "[NICY WARN]"@,
        warning(seq![first]) == "[NICY WARN] "@ + in_warning(first),
        more.len() > 0 ==> warning(more.push(last)) == warning(more) + " "@ + in_warning(last),
{
    let shown = |v: Option<Seq<char>>| crate::report::shown(v);
    assert(seq![first].map_values(shown) =~= seq![in_warning(first)]);
    if more.len() > 0 {
        let texts = more.map_values(shown);
        let all = more.push(last).map_values(shown);
        assert(all.drop_last() =~= texts);
        assert(all.last() == in_warning(last));
        assert(joined(all, " "@) == joined(texts, " "@) + " "@ + in_warning(last));
        assert(warning(more.push(last)) =~= warning(more) + " "@ + in_warning(last));
    }
}

/// `warn` is put in place exactly if there is nothing.
pub proof fn law_warn_is_put_in_place(tag: i32)
    ensures
        lacks_warn(tag) <==> tag == 0,
{
}

/// An error is reported with its mark and its message, or the word `unknown`.
pub proof fn law_error_is_reported(mark: Seq<char>, message: Seq<char>)
    ensures
        error_line(mark, Some(message)) == mark + message,
        error_line(mark, None) == mark + "unknown"@,
{
}

/// The runtime tells its version, and hosts see it with its name and a NUL at
/// its end.
pub proof fn law_runtime_version()
    ensures
        version_number() == "0.1.0"@,
        label_text() == "Nicy Runtime 0.1.0\0"@,
{
    reveal_strlit("0.1.0");
    reveal_strlit("Nicy Runtime ");
    reveal_strlit("Nicy Runtime 0.1.0\0");
    assert(label_text() =~= "Nicy Runtime 0.1.0\0"@);
}

/// The version of Luau is what the state says of itself, with a NUL behind it;
/// where it says nothing, or could not be made, these words stand in for it.
pub proof fn law_luau_version(l: usize, text: Seq<char>)
    ensures
        version_text(true, Some(text)) == text,
        version_text(true, None) == "Luau (Unknown)"@,
        version_text(false, None) == "Luau (Fallback)"@,
        version_text(false, Some(text)) == "Luau (Fallback)"@,
        ({
            let c0 = LuauVersion::<Seq<char>>::Creating;
            let c1 = version_step(c0, VersionEvent::Created(l));
            let said = version_step(c1, VersionEvent::Said(Some(text)));
            let unsaid = version_step(c1, VersionEvent::Said(None));
            &&& version_action(c0) == VersionAction::<Seq<char>>::Create
            &&& version_action(c1) == (VersionAction::<Seq<char>>::Ask { l })
            &&& version_action(said) == (VersionAction::<Seq<char>>::Close { l })
            &&& version_action(version_step(said, VersionEvent::Closed)) == VersionAction::Answer(
                text.push('\0'),
            )
            &&& version_action(version_step(unsaid, VersionEvent::Closed))
                == VersionAction::Answer("Luau (Unknown)\0"@)
            &&& version_action(version_step(c0, VersionEvent::NotCreated))
                == VersionAction::Answer("Luau (Fallback)\0"@)
        }),
{
    reveal_strlit("Luau (Unknown)");
    reveal_strlit("Luau (Unknown)\0");
    reveal_strlit("Luau (Fallback)");
    reveal_strlit("Luau (Fallback)\0");
    assert("Luau (Unknown)"@.push('\0') =~= "Luau (Unknown)\0"@);
    assert("Luau (Fallback)"@.push('\0') =~= "Luau (Fallback)\0"@);
}

/// The question for the version of Luau goes on exactly when it is answered
/// what it asks for.
pub proof fn law_version_goes_on_when_answered(
    c: LuauVersion<Seq<char>>,
    e: VersionEvent<Seq<char>>,
)
    ensures
        ({
            let answered = match version_action(c) {
                VersionAction::Create => e is Created || e is NotCreated,
                VersionAction::Ask { .. } => e is Said,
                VersionAction::Close { .. } => e is Closed,
                VersionAction::Answer(_) => false,
            };
            answered <==> version_step(c, e) != c
        }),
{
}

/// Native code generation is set up once for a state, and only where it is
/// supported; that it is set up is told by a flag that is there and true.
pub proof fn law_codegen_is_set_up_once(supported: bool, created: bool, tag: i32, truth: i32)
    ensures
        codegen_of(supported, created) == Codegen::Create <==> supported && !created,
        codegen_of(supported, created) == Codegen::Ready <==> supported && created,
        codegen_of(supported, created) == Codegen::Unavailable <==> !supported,
        flag_is_set(tag, truth) <==> tag != 0 && truth != 0,
{
}

/// Two versions of a file are told apart exactly by their sizes and by their
/// modification times, where these can be told.
pub proof fn law_versions_of_file(size: u64, time: u128, other_size: u64, other_time: u128)
    ensures
        fingerprint_of(size, Some(time)) == fingerprint_of(other_size, Some(other_time)) <==> size
            == other_size && time == other_time,
        fingerprint_of(size, None) == (FileFingerprint { modified_ns: 0, size }),
        fingerprint_of(size, Some(time)) == (FileFingerprint { modified_ns: time, size }),
{
}

/// The high resolution timer is turned on by any value but `0`, and then set
/// to one millisecond.
pub proof fn law_timer_on_request(value: Seq<char>)
    ensures
        asks_for_timer(Some(value)) <==> value != "0"@,
        !asks_for_timer(None),
        period_of(true) == Some(1u32),
        period_of(false) is None,
{
}

} // verus!
