use nicyrtdyn::hires_timer::Guard;
use nicyrtdyn::report::{
    log_panic, panic_payload_to_string, runtime_version, version_label, warn_is_missing,
    warn_line, PanicPayload,
};
use nicyrtdyn::version::{luau_version, LuauVersion, VersionAction, VersionEvent};

fn t(s: &str) -> String {
    s.to_string()
}

#[test]
fn panics_are_told_by_their_text() {
    assert_eq!(panic_payload_to_string(PanicPayload::Static(t("a"))), "a");
    assert_eq!(panic_payload_to_string(PanicPayload::Owned(t("b"))), "b");
    assert_eq!(panic_payload_to_string(PanicPayload::Other), "non-string panic payload");
    assert_eq!(log_panic("nicy_start", PanicPayload::Owned(t("boom"))), "[NICY PANIC] nicy_start: boom");
}

#[test]
fn warnings_list_their_arguments() {
    assert_eq!(warn_line(vec![]), "[NICY WARN]");
    assert_eq!(warn_line(vec![Some(t("a"))]), "[NICY WARN] a");
    assert_eq!(warn_line(vec![Some(t("a")), None, Some(t("b c"))]), "[NICY WARN] a nil b c");
}

#[test]
fn warn_is_installed_in_place_of_nil() {
    assert!(warn_is_missing(mlua_sys::luau::lua::LUA_TNIL));
    assert!(!warn_is_missing(mlua_sys::luau::lua::LUA_TFUNCTION));
}

#[test]
fn versions_are_told() {
    assert_eq!(runtime_version(), "0.1.0");
    assert_eq!(version_label(), "Nicy Runtime 0.1.0\0");
}

#[test]
fn the_timer_is_on_for_any_value_but_zero() {
    assert_eq!(Guard::maybe_enable(None).period(), None);
    assert_eq!(Guard::maybe_enable(Some("0")).period(), None);
    assert_eq!(Guard::maybe_enable(Some("1")).period(), Some(1));
    assert_eq!(Guard::maybe_enable(Some("")).period(), Some(1));
    assert_eq!(Guard::maybe_enable(Some("00")).period(), Some(1));
}

fn told(events: Vec<VersionEvent<String>>) -> (Vec<VersionAction<String>>, Option<String>) {
    let mut version = LuauVersion::new();
    let mut asked = vec![];
    for e in events {
        asked.push(version.action());
        version = version.advance(e);
    }
    (asked, version.known().map(t))
}

#[test]
fn the_version_of_luau_is_asked_for_once() {
    let (asked, text) = told(vec![
        VersionEvent::Created(16),
        VersionEvent::Said(Some(t("Luau"))),
        VersionEvent::Closed,
        VersionEvent::Created(32),
        VersionEvent::Said(Some(t("other"))),
    ]);
    assert_eq!(
        asked,
        vec![
            VersionAction::Create,
            VersionAction::Ask { l: 16 },
            VersionAction::Close { l: 16 },
            VersionAction::Answer(t("Luau\0")),
            VersionAction::Answer(t("Luau\0")),
        ]
    );
    assert_eq!(text, Some(t("Luau\0")));
}

#[test]
fn a_text_stands_in_for_the_version_of_luau() {
    let (_, text) = told(vec![VersionEvent::NotCreated, VersionEvent::Created(16)]);
    assert_eq!(text, Some(t("Luau (Fallback)\0")));
    let (_, text) = told(vec![VersionEvent::Created(16), VersionEvent::Said(None)]);
    assert_eq!(text, None);
    let (_, text) = told(vec![VersionEvent::Created(16), VersionEvent::Said(None), VersionEvent::Closed]);
    assert_eq!(text, Some(t("Luau (Unknown)\0")));
    assert_eq!(luau_version(true, Some(t("Luau"))), "Luau");
    assert_eq!(luau_version(false, Some(t("Luau"))), "Luau (Fallback)");
}
