//! Which cursor is shown: the one that an entity asks for while it is
//! hovered or pressed, else the primary one.
use vstd::prelude::*;

verus! {

/// The X and Y coordinates of the hotspot of a cursor image, in pixels.
#[derive(Debug, Clone, Copy, PartialEq, Eq, Structural)]
pub struct Hotspot {
    pub x: u16,
    pub y: u16,
}

/// A cursor that can be loaded.
#[derive(Debug, Clone, PartialEq, Eq)]
pub enum LoadableCursor {
    /// The loadable cursor should be ignored.
    Ignored,
    /// An image at a path, with the hotspot in pixels.
    Custom { image: String, hotspot: Hotspot },
    /// An image at a URL, with the hotspot in pixels. Only usable on web targets.
    Url { url: String, hotspot: Hotspot },
    /// A cursor of the system, by its number.
    System(u16),
}

impl Default for LoadableCursor {
    fn default() -> (r: Self)
        ensures
            r == LoadableCursor::Ignored,
    {
        LoadableCursor::Ignored
    }
}

/// What has to be done to show a cursor.
#[derive(Debug, Clone, PartialEq, Eq)]
pub enum CursorRequest {
    /// Load the image and show it.
    Image { image: String, hotspot: Hotspot },
    /// Show the image at the URL.
    Url { url: String, hotspot: Hotspot },
    /// Show a cursor of the system.
    System(u16),
}

/// What showing `cursor` asks for. A URL asks for nothing off the web.
pub open spec fn cursor_request(cursor: LoadableCursor, web: bool) -> Option<CursorRequest> {
    match cursor {
        LoadableCursor::Ignored => None,
        LoadableCursor::Custom { image, hotspot } => Some(CursorRequest::Image { image, hotspot }),
        LoadableCursor::Url { url, hotspot } => if web {
            Some(CursorRequest::Url { url, hotspot })
        } else {
            None
        },
        LoadableCursor::System(icon) => Some(CursorRequest::System(icon)),
    }
}

impl LoadableCursor {
    /// A copy of the cursor.
    pub fn duplicate(&self) -> (r: Self)
        ensures
            r == *self,
    {
        match self {
            LoadableCursor::Ignored => LoadableCursor::Ignored,
            LoadableCursor::Custom { image, hotspot } => LoadableCursor::Custom {
                image: image.clone(),
                hotspot: *hotspot,
            },
            LoadableCursor::Url { url, hotspot } => LoadableCursor::Url {
                url: url.clone(),
                hotspot: *hotspot,
            },
            LoadableCursor::System(icon) => LoadableCursor::System(*icon),
        }
    }

    /// What showing the cursor asks for, on the web or off it.
    pub fn into_cursor_icon(self, web: bool) -> (r: Option<CursorRequest>)
        ensures
            r == cursor_request(self, web),
    {
        match self {
            LoadableCursor::Ignored => None,
            LoadableCursor::Custom { image, hotspot } => Some(
                CursorRequest::Image { image, hotspot },
            ),
            LoadableCursor::Url { url, hotspot } => {
                if web {
                    Some(CursorRequest::Url { url, hotspot })
                } else {
                    None
                }
            },
            LoadableCursor::System(icon) => Some(CursorRequest::System(icon)),
        }
    }
}

/// The cursors of an element for each state of the pointer over it.
#[derive(Debug, Clone, PartialEq, Eq)]
pub struct InteractiveCursors {
    pub idle: LoadableCursor,
    pub hover: Option<LoadableCursor>,
    pub press: Option<LoadableCursor>,
    pub cancel: Option<LoadableCursor>,
}

/// The cursors of an element that shows `cursor` while it is hovered.
pub fn hover_cursor(cursor: LoadableCursor) -> (r: InteractiveCursors)
    ensures
        r == (InteractiveCursors {
            idle: LoadableCursor::Ignored,
            hover: Some(cursor),
            press: None,
            cancel: None,
        }),
{
    InteractiveCursors {
        idle: LoadableCursor::Ignored,
        hover: Some(cursor),
        press: None,
        cancel: None,
    }
}

/// The cursors of an element that shows `cursor` while it is pressed.
pub fn press_cursor(cursor: LoadableCursor) -> (r: InteractiveCursors)
    ensures
        r == (InteractiveCursors {
            idle: LoadableCursor::Ignored,
            hover: None,
            press: Some(cursor),
            cancel: None,
        }),
{
    InteractiveCursors {
        idle: LoadableCursor::Ignored,
        hover: None,
        press: Some(cursor),
        cancel: None,
    }
}

/// Whether two requests ask for the same: the same text and hotspot, or the
/// same cursor of the system.
pub open spec fn requests_same(a: CursorRequest, b: CursorRequest) -> bool {
    match (a, b) {
        (
            CursorRequest::Image { image: x, hotspot: h },
            CursorRequest::Image { image: y, hotspot: k },
        ) => x@ == y@ && h == k,
        (CursorRequest::Url { url: x, hotspot: h }, CursorRequest::Url { url: y, hotspot: k }) => {
            x@ == y@ && h == k
        },
        (CursorRequest::System(x), CursorRequest::System(y)) => x == y,
        _ => false,
    }
}

/// Whether two requests ask for the same.
pub fn same_request(a: &CursorRequest, b: &CursorRequest) -> (r: bool)
    ensures
        r == requests_same(*a, *b),
{
    match (a, b) {
        (
            CursorRequest::Image { image: x, hotspot: h },
            CursorRequest::Image { image: y, hotspot: k },
        ) => *x == *y && *h == *k,
        (CursorRequest::Url { url: x, hotspot: h }, CursorRequest::Url { url: y, hotspot: k }) => {
            *x == *y && *h == *k
        },
        (CursorRequest::System(x), CursorRequest::System(y)) => *x == *y,
        _ => false,
    }
}

/// What is to be shown in the place of `current`: the next cursor, where
/// there is one and it differs from what is shown.
pub fn refresh_cursor_icon(current: Option<&CursorRequest>, next: Option<CursorRequest>) -> (r:
    Option<CursorRequest>)
    ensures
        r == match (current, next) {
            (_, None) => None,
            (Some(shown), Some(wanted)) => if requests_same(*shown, wanted) {
                None
            } else {
                Some(wanted)
            },
            (None, Some(wanted)) => Some(wanted),
        },
{
    match (current, next) {
        (_, None) => None,
        (Some(shown), Some(wanted)) => {
            if same_request(shown, &wanted) {
                None
            } else {
                Some(wanted)
            }
        },
        (None, Some(wanted)) => Some(wanted),
    }
}

/// The cursors that are set.
#[derive(Debug, Clone, PartialEq, Eq)]
pub struct CursorSource {
    pub primary: Option<LoadableCursor>,
    pub temporary: Option<LoadableCursor>,
}

/// The index of the first cursor at or after `from` that is not to be ignored.
pub open spec fn first_shown(temps: Seq<LoadableCursor>, from: int) -> Option<int>
    decreases temps.len() - from,
{
    if from < 0 || from >= temps.len() {
        None
    } else if !(temps[from] is Ignored) {
        Some(from)
    } else {
        first_shown(temps, from + 1)
    }
}

impl CursorSource {
    pub fn new() -> (r: Self)
        ensures
            r.primary is None,
            r.temporary is None,
    {
        CursorSource { primary: None, temporary: None }
    }

    /// Returns a cursor if either the primary or temporary is set.
    ///
    /// Clears the temporary.
    pub fn get_next_cursor(&mut self) -> (r: Option<LoadableCursor>)
        ensures
            final(self).temporary is None,
            final(self).primary == old(self).primary,
            r == match old(self).temporary {
                Some(cursor) => Some(cursor),
                None => old(self).primary,
            },
    {
        let mut taken: Option<LoadableCursor> = None;
        core::mem::swap(&mut self.temporary, &mut taken);
        match taken {
            Some(cursor) => Some(cursor),
            None => match &self.primary {
                Some(cursor) => Some(cursor.duplicate()),
                None => None,
            },
        }
    }

    /// Sets the temporary cursor to the first of `temps` that is not to be
    /// ignored. Where all of them are, the temporary cursor stays as it is.
    pub fn get_temp_cursor(&mut self, temps: &Vec<LoadableCursor>)
        ensures
            final(self).primary == old(self).primary,
            final(self).temporary == match first_shown(temps@, 0) {
                Some(i) => Some(temps@[i]),
                None => old(self).temporary,
            },
    {
        let mut i: usize = 0;
        while i < temps.len()
            invariant
                0 <= i <= temps@.len(),
                *self == *old(self),
                first_shown(temps@, 0) == first_shown(temps@, i as int),
            decreases temps@.len() - i,
        {
            match &temps[i] {
                LoadableCursor::Ignored => {},
                shown => {
                    self.temporary = Some(shown.duplicate());
                    return ;
                },
            }
            i += 1;
        }
    }
}

} // verus!
