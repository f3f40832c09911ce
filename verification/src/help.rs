//! The help text, and how far it can be scrolled.

use vstd::prelude::*;
use vstd::string::*;
use crate::text::{split, split_on, texts};

verus! {

/// The help text, one key a line.
pub const HELP_TEXT: &'static str = "\nGlobal:\n?           Toggle help popup\nq           Quit the application\nEsc         Dismiss popup / Exit insert mode\n\nFocus Navigation:\nCtrl+l      Focus → Filter/Sort\nCtrl+j      Focus → Documents\nCtrl+k      Focus → Filter/Sort\nCtrl+h      Focus → Connections\n\nList Navigation:\nj / ↓       Move down\nk / ↑       Move up\nEnter       Expand item / Load collection / Confirm\n\nConnections & Collections:\no           Add new MongoDB connection\ne           Edit selected URI or collection name\nx           Export selected collection or database\nd+d       Delete hovered item\n              • In Filter: deletes matched documents\n              • In Documents: deletes selected document\n              • In Connections: deletes collection or database\n\nFilter & Sort:\na           Edit filter or sort input\nTab         Toggle between filter and sort input\nEnter       Apply filter & sort\n\nDocuments:\nn / N       Navigate fields in document\ne           Edit selected field\nD           Delete selected field (except _id)\nr           Replace the value of the selected field\nE           Edit selected document in the document editor\n\nInsert Mode:\nEnter       Submit input\nEsc         Cancel editing\n← / →       Move cursor\nBackspace   Delete character\n\nFile Picker (import/export/script):\ni           Import a collection (.json)\nI           Import a database (from folder)\nf           Run a shell script (.sh)\nj / k       Navigate entries\nSpace       Select/Deselect file\nEnter       Enter directory\nc           Confirm action (import/run)\nEsc         Exit file picker\n\nEditor Mode (Full-screen document editor):\nEsc     Exit editor without saving\nEnter       Parse and save document (must include valid _id)\n← / →       Move cursor left/right\n↑ / ↓       Move cursor up/down\nBackspace   Delete character\n\n\n";

/// The number of lines of the help text that are on show at once.
pub const HELP_VISIBLE_LINES: usize = 20;

/// The number of lines of `s`: its pieces between line feeds, not counting an
/// empty piece after the last line feed.
pub open spec fn line_count(s: Seq<char>) -> nat {
    let pieces = split_on(s, '\n');
    if pieces.len() > 0 && pieces.last().len() == 0 {
        (pieces.len() - 1) as nat
    } else {
        pieces.len()
    }
}

/// The number of lines of `s`.
pub fn count_lines(s: &str) -> (n: usize)
    ensures
        n == line_count(s@),
{
    let pieces = split(s, '\n');
    proof {
        assert(texts(pieces@).len() == pieces.len());
    }
    let n = pieces.len();
    if n > 0 {
        proof {
            assert(texts(pieces@)[n - 1] == pieces@[n - 1]@);
        }
        if pieces[n - 1].as_str().is_empty() {
            return n - 1;
        }
    }
    n
}

/// How far the help text can be scrolled: its lines beyond those on show.
pub open spec fn help_scroll_limit() -> nat {
    let lines = line_count(HELP_TEXT@);
    if lines >= HELP_VISIBLE_LINES {
        (lines - HELP_VISIBLE_LINES) as nat
    } else {
        0
    }
}

/// How far the help text can be scrolled.
pub fn scroll_limit() -> (n: usize)
    ensures
        n == help_scroll_limit(),
{
    let lines = count_lines(HELP_TEXT);
    if lines >= HELP_VISIBLE_LINES {
        lines - HELP_VISIBLE_LINES
    } else {
        0
    }
}

} // verus!
