//! Constants of the Luau C API.
use mlua_sys::luau::lua;
use vstd::prelude::*;

verus! {

/// The type tag of nil.
pub open spec fn nil_tag_value() -> i32 {
    0
}

/// The type tag of a number.
pub open spec fn number_tag_value() -> i32 {
    3
}

/// The type tag of a table.
pub open spec fn table_tag_value() -> i32 {
    7
}

/// The type tag of a thread.
pub open spec fn thread_tag_value() -> i32 {
    10
}

/// The status of a thread that has yielded.
pub open spec fn yield_status_value() -> i32 {
    1
}

/// The constant `LUA_TNIL` of mlua-sys is 0.
#[verifier::external_body]
pub(crate) fn nil_tag() -> (r: i32)
    ensures
        r == nil_tag_value(),
{
    lua::LUA_TNIL
}

/// The constant `LUA_TNUMBER` of mlua-sys is 3.
#[verifier::external_body]
pub(crate) fn number_tag() -> (r: i32)
    ensures
        r == number_tag_value(),
{
    lua::LUA_TNUMBER
}

/// The constant `LUA_TTABLE` of mlua-sys is 7.
#[verifier::external_body]
pub(crate) fn table_tag() -> (r: i32)
    ensures
        r == table_tag_value(),
{
    lua::LUA_TTABLE
}

/// The constant `LUA_TTHREAD` of mlua-sys is 10.
#[verifier::external_body]
pub(crate) fn thread_tag() -> (r: i32)
    ensures
        r == thread_tag_value(),
{
    lua::LUA_TTHREAD
}

/// The constant `LUA_YIELD` of mlua-sys is 1.
#[verifier::external_body]
pub(crate) fn yield_status() -> (r: i32)
    ensures
        r == yield_status_value(),
{
    lua::LUA_YIELD
}

} // verus!
