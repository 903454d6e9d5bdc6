//! Which file-system events mean that the skills changed.
use crate::text::owned;
use vstd::prelude::*;

verus! {

/// The kind of a file-system event.
#[derive(Debug, Clone, Copy, PartialEq, Eq, Structural)]
pub enum EventClass {
    Create,
    Modify,
    Remove,
    Other,
}

/// The extension of a skill file: `alisp` or `json`.
pub open spec fn skill_extension(ext: Seq<char>) -> bool {
    ext == "alisp"@ || ext == "json"@
}

pub fn is_skill_extension(ext: &str) -> (r: bool)
    ensures
        r == skill_extension(ext@),
{
    let e = owned(ext);
    e == owned("alisp") || e == owned("json")
}

/// An event that creates, changes or removes a skill file, given the
/// extensions of the paths it concerns (where they are valid UTF-8).
pub open spec fn skill_event(kind: EventClass, extensions: Seq<Option<String>>) -> bool {
    kind != EventClass::Other && exists|i: int|
        0 <= i < extensions.len() && skill_path(#[trigger] extensions[i])
}

/// A path whose extension is a skill file's.
pub open spec fn skill_path(ext: Option<String>) -> bool {
    match ext {
        Some(e) => skill_extension(e@),
        None => false,
    }
}

pub fn is_skill_event(kind: EventClass, extensions: &Vec<Option<String>>) -> (r: bool)
    ensures
        r == skill_event(kind, extensions@),
{
    if kind == EventClass::Other {
        return false;
    }
    let mut i: usize = 0;
    while i < extensions.len()
        invariant
            kind != EventClass::Other,
            i <= extensions@.len(),
            forall|j: int|
                0 <= j < i ==> !skill_path(#[trigger] extensions@[j]),
        decreases extensions.len() - i,
    {
        match &extensions[i] {
            Some(e) => {
                if is_skill_extension(e.as_str()) {
                    assert(skill_path(extensions@[i as int]));
                    return true;
                }
            },
            None => {},
        }
        i = i + 1;
    }
    false
}

} // verus!
