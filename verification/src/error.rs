//! The errors of a storage.

use vstd::prelude::*;
use vstd::string::to_string_from_display_ensures;

verus! {

/// What went wrong, with a text that says so.
#[derive(Debug)]
pub enum ErrStorage {
    Empty(String),
    LenFunc(String),
    Read(String),
    GetIndex(String),
    Modify(String),
    SetComponent(String),
    Insert(String),
}

/// The text of an error that comes of something absent: what `Debug` prints of an opaque payload.
pub const ABSENT: &'static str = "Any { .. }";

/// The text of an error that comes of the test of an absent slot.
pub const ABSENT_ON_IS_EMPTY: &'static str = "Panic on is_empty: Any { .. }";

/// The text of an error that comes of a component that was expected and is not there.
pub const COMPONENT_EMPTY_ERROR_MSG: &'static str =
    "Expected non-empty component, but found empty. ->";

/// How the text of an error starts that comes of a component that could not be inserted.
pub const ECINSERT_FAILED_ERROR_MSG: &'static str = "Failed to insert component. ->";

/// How the text of an error starts that comes of an id that owns no component.
pub const INDEX_NOT_FOUND_ERROR_MSG: &'static str =
    "Failed locate component index for the given id. ->";

/// A text with an id at its end, as `Display` prints it.
pub(crate) fn with_id(start: &str, id: u64) -> (text: String)
    ensures
        exists|number: String|
            text@ == start@ + " id: "@ + number@ && #[trigger] to_string_from_display_ensures::<
                u64,
            >(&id, number),
{
    let mut text = start.to_owned();
    text.append(" id: ");
    let number = id.to_string();
    text.append(number.as_str());
    text
}

} // verus!
