//! What is shown of the session, as far as it is computed: the columns that
//! a text takes up on the screen, the place of the cursor and the lines of
//! the navigation list and the status bar.

use vstd::prelude::*;
use vstd::string::*;
use crate::app::{AppMode, AppState, ItemModel, SelectableItem, StateModel};
use crate::connections::lemma_split_has_a_piece;
use crate::text::{decimal, decimal_text, join, split, split_on, texts};

verus! {

/// The grapheme clusters that `unicode_segmentation` cuts a text into, by the
/// extended rules.
pub uninterp spec fn graphemes_of(text: Seq<char>) -> Seq<Seq<char>>;

/// The number of columns that `unicode_width` gives a text.
pub uninterp spec fn display_width(text: Seq<char>) -> usize;

/// Trusted: `UnicodeSegmentation::graphemes` with extended clusters. The
/// clusters depend on the text alone; they are the value that the name
/// `graphemes_of` stands for.
#[verifier::external_body]
pub(crate) fn graphemes(text: &str) -> (r: Vec<String>)
    ensures
        r.deep_view() == graphemes_of(text@),
{
    unicode_segmentation::UnicodeSegmentation::graphemes(text, true).map(|g| g.to_string()).collect()
}

/// Trusted: `UnicodeWidthStr::width`. The width depends on the text alone; it
/// is the value that the name `display_width` stands for.
#[verifier::external_body]
pub(crate) fn width(text: &str) -> (w: usize)
    ensures
        w == display_width(text@),
{
    unicode_width::UnicodeWidthStr::width(text)
}

/// The columns that the first `n` of `clusters` take up together.
pub open spec fn width_sum(clusters: Seq<Seq<char>>, n: nat) -> nat
    decreases n,
{
    if n == 0 || n > clusters.len() {
        0
    } else {
        width_sum(clusters, (n - 1) as nat) + display_width(clusters[n - 1]) as nat
    }
}

/// The column of a cursor that stands behind `cursor` of `clusters`, or
/// behind all of them where there are fewer; the greatest `usize` where the
/// column does not fit.
pub open spec fn column_of(clusters: Seq<Seq<char>>, cursor: usize) -> usize {
    let n = if cursor <= clusters.len() {
        cursor as nat
    } else {
        clusters.len()
    };
    if width_sum(clusters, n) <= usize::MAX {
        width_sum(clusters, n) as usize
    } else {
        usize::MAX
    }
}

/// The column of a cursor that stands behind `cursor` of `clusters`.
pub fn cursor_column(clusters: &Vec<String>, cursor: usize) -> (col: usize)
    ensures
        col == column_of(clusters.deep_view(), cursor),
{
    let n = if cursor <= clusters.len() {
        cursor
    } else {
        clusters.len()
    };
    let mut col: usize = 0;
    let mut i: usize = 0;
    while i < n
        invariant
            0 <= i <= n <= clusters.len(),
            col == if width_sum(clusters.deep_view(), i as nat) <= usize::MAX {
                width_sum(clusters.deep_view(), i as nat) as usize
            } else {
                usize::MAX
            },
        decreases n - i,
    {
        proof {
            assert(clusters.deep_view()[i as int] == clusters@[i as int]@);
        }
        col = col.saturating_add(width(clusters[i].as_str()));
        i += 1;
    }
    col
}

/// The column of a cursor that stands behind `cursor` grapheme clusters of
/// `text`.
pub fn text_cursor_column(text: &str, cursor: usize) -> (col: usize)
    ensures
        col == column_of(graphemes_of(text@), cursor),
{
    let clusters = graphemes(text);
    cursor_column(&clusters, cursor)
}

/// The line and the column of a cursor that stands behind `cursor`
/// characters of `text`, both counted from 0.
pub open spec fn cursor_place(text: Seq<char>, cursor: usize) -> (nat, nat) {
    let upto = if cursor <= text.len() {
        cursor as int
    } else {
        text.len() as int
    };
    let lines = split_on(text.subrange(0, upto), '\n');
    ((lines.len() - 1) as nat, lines.last().len())
}

/// The line and the column of a cursor that stands behind `cursor`
/// characters of `text`.
pub fn editor_cursor(text: &str, cursor: usize) -> (place: (usize, usize))
    ensures
        place.0 == cursor_place(text@, cursor).0,
        place.1 == cursor_place(text@, cursor).1,
{
    let len = text.unicode_len();
    let upto = if cursor <= len {
        cursor
    } else {
        len
    };
    let head = text.substring_char(0, upto);
    let lines = split(head, '\n');
    proof {
        assert(texts(lines@).len() == lines.len());
        lemma_split_has_a_piece(head@, '\n');
        assert(texts(lines@)[lines.len() - 1] == lines@[lines.len() - 1]@);
    }
    let row = lines.len() - 1;
    let col = lines[row].as_str().unicode_len();
    (row, col)
}

/// The text that a line of the navigation list is shown with.
pub open spec fn label_of(item: ItemModel) -> Seq<char> {
    match item {
        ItemModel::Uri { name, connected, .. } => if connected {
            "✔ "@ + name
        } else {
            name
        },
        ItemModel::Database { name, .. } => "  └ "@ + name,
        ItemModel::Collection { name, .. } => "      • "@ + name,
    }
}

/// The text that a line of the navigation list is shown with.
pub fn item_label(item: &SelectableItem) -> (label: String)
    ensures
        label@ == label_of(item.deep_view()),
{
    match item {
        SelectableItem::Uri { name, connected, .. } => if *connected {
            join("✔ ", name.as_str())
        } else {
            name.clone()
        },
        SelectableItem::Database { name, .. } => join("  └ ", name.as_str()),
        SelectableItem::Collection { name, .. } => join("      • ", name.as_str()),
    }
}

pub open spec fn mode_label(mode: AppMode) -> Seq<char> {
    match mode {
        AppMode::Normal => "[NORMAL]"@,
        AppMode::Insert => "[INSERT]"@,
        AppMode::Editor => "[EDITOR]"@,
    }
}

/// The text of the status bar: the mode, and the selected collection with
/// its number of documents where that is known.
pub open spec fn status_of(s: StateModel) -> Seq<char> {
    match s.selected_collection {
        Some(key) => if s.document_counts.dom().contains(key) {
            mode_label(s.mode) + " | "@ + key.1 + "."@ + key.2 + " ("@ + decimal(
                s.document_counts[key] as nat,
            ) + " docs)"@
        } else {
            mode_label(s.mode)
        },
        None => mode_label(s.mode),
    }
}

impl AppState {
    /// Cuts the one-line text into its grapheme clusters anew.
    pub fn update_graphemes(&mut self)
        ensures
            final(self)@ == (StateModel {
                input_graphemes: graphemes_of(old(self)@.input_text),
                ..old(self)@
            }),
    {
        self.input_graphemes = graphemes(self.input_text.as_str());
    }

    /// The text of the status bar.
    pub fn status_line(&self) -> (line: String)
        ensures
            line@ == status_of(self@),
    {
        let mut line = match self.mode {
            AppMode::Normal => "[NORMAL]".to_owned(),
            AppMode::Insert => "[INSERT]".to_owned(),
            AppMode::Editor => "[EDITOR]".to_owned(),
        };
        match &self.selected_collection {
            Some(key) => match self.document_counts.get(key) {
                Some(count) => {
                    line.append(" | ");
                    line.append(key.1.as_str());
                    line.append(".");
                    line.append(key.2.as_str());
                    line.append(" (");
                    line.append(decimal_text(*count).as_str());
                    line.append(" docs)");
                },
                None => {},
            },
            None => {},
        }
        line
    }
}

} // verus!
