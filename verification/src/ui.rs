//! Plain values of the user interface that a style can hold.
use vstd::prelude::*;

verus! {

/// Whether an element keeps pointer events from what lies behind it.
#[derive(Debug, Clone, Copy, PartialEq, Eq, Structural)]
pub enum SetFocusPolicy {
    Block,
    Pass,
}

impl Default for SetFocusPolicy {
    fn default() -> (r: Self)
        ensures
            r == SetFocusPolicy::Pass,
    {
        SetFocusPolicy::Pass
    }
}

/// The place of an element in the drawing order: among its siblings, or
/// among all elements.
#[derive(Debug, Clone, Copy, PartialEq, Eq, Structural)]
pub enum SetZIndex {
    Local(i32),
    Global(i32),
}

impl Default for SetZIndex {
    fn default() -> (r: Self)
        ensures
            r == SetZIndex::Local(0),
    {
        SetZIndex::Local(0)
    }
}

/// The style that a change is applied to.
#[derive(Debug, Clone, Copy, PartialEq, Eq, Structural)]
pub enum StyleTarget {
    /// Nothing is changed.
    Nothing,
    /// The absolute style that the entity has.
    Absolute,
    /// The flex style that the entity has.
    Flex,
    /// A new absolute style, which is inserted.
    InsertAbsolute,
    /// A new flex style, which is inserted.
    InsertFlex,
}

/// Where an absolute style is initialized: it is inserted on an entity
/// that has neither style. An entity with a flex style keeps it.
pub fn initialize_absolute_style(has_absolute: bool, has_flex: bool) -> (r: StyleTarget)
    ensures
        r == if !has_absolute && !has_flex {
            StyleTarget::InsertAbsolute
        } else {
            StyleTarget::Nothing
        },
{
    // Check absolute style.
    if has_absolute {
        return StyleTarget::Nothing;
    }
    // Check flex style.
    if has_flex {
        return StyleTarget::Nothing;
    }
    // Insert absolute style.
    StyleTarget::InsertAbsolute
}

/// Where a flex style is initialized: it is inserted on an entity that has
/// neither style. An entity with an absolute style keeps it.
pub fn initialize_flex_style(has_absolute: bool, has_flex: bool) -> (r: StyleTarget)
    ensures
        r == if !has_absolute && !has_flex {
            StyleTarget::InsertFlex
        } else {
            StyleTarget::Nothing
        },
{
    // Check flex style.
    if has_flex {
        return StyleTarget::Nothing;
    }
    // Check absolute style.
    if has_absolute {
        return StyleTarget::Nothing;
    }
    // Insert flex style.
    StyleTarget::InsertFlex
}

/// Where a change of the dimensions goes: to the absolute style first, then
/// to the flex style, else to a new absolute style.
pub fn apply_to_dims(has_absolute: bool, has_flex: bool) -> (r: StyleTarget)
    ensures
        r == if has_absolute {
            StyleTarget::Absolute
        } else if has_flex {
            StyleTarget::Flex
        } else {
            StyleTarget::InsertAbsolute
        },
{
    // Prioritize absolute style.
    if has_absolute {
        return StyleTarget::Absolute;
    }
    // Check flex style.
    if has_flex {
        return StyleTarget::Flex;
    }
    // Fall back to inserting absolute style.
    StyleTarget::InsertAbsolute
}

/// Where a change of how the content flexes goes: as for the dimensions.
pub fn apply_to_content_flex(has_absolute: bool, has_flex: bool) -> (r: StyleTarget)
    ensures
        r == if has_absolute {
            StyleTarget::Absolute
        } else if has_flex {
            StyleTarget::Flex
        } else {
            StyleTarget::InsertAbsolute
        },
{
    apply_to_dims(has_absolute, has_flex)
}

/// Where a change of how the element itself flexes goes: nowhere on an
/// entity with an absolute style, else to the flex style, else to a new one.
pub fn apply_to_self_flex(has_absolute: bool, has_flex: bool) -> (r: StyleTarget)
    ensures
        r == if has_absolute {
            StyleTarget::Nothing
        } else if has_flex {
            StyleTarget::Flex
        } else {
            StyleTarget::InsertFlex
        },
{
    // Check absolute style.
    if has_absolute {
        return StyleTarget::Nothing;
    }
    // Check flex style.
    if has_flex {
        return StyleTarget::Flex;
    }
    // Fall back to inserting flex style.
    StyleTarget::InsertFlex
}

} // verus!
