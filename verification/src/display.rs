//! What the screen shows of the state: the look of each list row, the preview
//! panel's text and the status line.
use vstd::prelude::*;

use crate::app::{App, ItemKind, ItemView};
use crate::text::{append_chars, string_of};

verus! {

/// How a row of the window list is drawn.
#[derive(Debug, Clone, Copy, PartialEq, Eq, Structural)]
pub enum RowStyle {
    /// A session header (bold yellow).
    Header,
    /// The selected window (black on cyan).
    Selected,
    /// Any other window (white).
    Plain,
}

/// The style of row `i` when row `sel` is selected: headers are always drawn as
/// headers, even when selected.
pub open spec fn row_style_spec(list: Seq<ItemView>, sel: int, i: int) -> RowStyle {
    if list[i].kind == ItemKind::SessionHeader {
        RowStyle::Header
    } else if i == sel {
        RowStyle::Selected
    } else {
        RowStyle::Plain
    }
}

/// The preview panel's text: the preview, or a hint when it is empty.
pub open spec fn preview_text_spec(preview: Seq<char>) -> Seq<char> {
    if preview.len() == 0 {
        "Select a window to preview"@
    } else {
        preview
    }
}

/// The status line for time of day `clock`: `Updated: {clock}`, followed by
/// ` | {error}` when there is an error.
pub open spec fn status_text_spec(clock: Seq<char>, error: Option<Seq<char>>) -> Seq<char> {
    match error {
        Some(e) => "Updated: "@ + clock + " | "@ + e,
        None => "Updated: "@ + clock,
    }
}

impl App {
    /// The style of row `i` of the window list.
    pub fn row_style(&self, i: usize) -> (r: RowStyle)
        requires
            i < self.window_list.len(),
        ensures
            r == row_style_spec(self@.window_list, self.selected_index as int, i as int),
    {
        if self.window_list[i].kind == ItemKind::SessionHeader {
            RowStyle::Header
        } else if i == self.selected_index {
            RowStyle::Selected
        } else {
            RowStyle::Plain
        }
    }

    /// The text of the preview panel.
    pub fn preview_text(&self) -> (r: String)
        ensures
            r@ == preview_text_spec(self.preview_content@),
    {
        if self.preview_content.as_str().is_empty() {
            "Select a window to preview".to_owned()
        } else {
            self.preview_content.clone()
        }
    }

    /// Whether the status line reports an error (and is drawn in red).
    pub fn status_is_error(&self) -> (r: bool)
        ensures
            r == (self.error_message is Some),
    {
        self.error_message.is_some()
    }

    /// The status line when the local time of day reads `clock`.
    pub fn status_text(&self, clock: &str) -> (r: String)
        ensures
            r@ == status_text_spec(clock@, self@.error_message),
    {
        let mut out: Vec<char> = Vec::new();
        append_chars(&mut out, "Updated: ");
        append_chars(&mut out, clock);
        match &self.error_message {
            Some(e) => {
                append_chars(&mut out, " | ");
                append_chars(&mut out, e.as_str());
            },
            None => {},
        }
        assert(out@ =~= status_text_spec(clock@, self@.error_message));
        string_of(&out)
    }
}

/// Only the selected row is highlighted: a window row is drawn as selected exactly
/// when it is the selected row (whether or not its window is active in tmux),
/// every other window row is plain, and a header row is always a header.
pub proof fn only_the_selected_row_is_highlighted(list: Seq<ItemView>, sel: int, i: int)
    requires
        0 <= i < list.len(),
    ensures
        list[i].kind == ItemKind::SessionHeader ==> row_style_spec(list, sel, i) == RowStyle::Header,
        list[i].kind == ItemKind::Window ==> (row_style_spec(list, sel, i) == RowStyle::Selected
            <==> i == sel),
        list[i].kind == ItemKind::Window && i != sel ==> row_style_spec(list, sel, i)
            == RowStyle::Plain,
{
}

/// A preview that is not empty is shown as it is.
pub proof fn preview_shown_verbatim(preview: Seq<char>)
    requires
        preview.len() > 0,
    ensures
        preview_text_spec(preview) == preview,
{
}

} // verus!
