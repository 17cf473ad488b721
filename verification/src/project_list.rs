//! The project side panel: the small buttons beside each project's name, what
//! a row reports after a frame, and what the panel does with that report.
use vstd::prelude::*;

verus! {

/// The file-with-lines symbol.
pub const FILE_SYMBOL: &'static str = "\u{1f5cb}";

/// The cross symbol.
pub const CROSS_SYMBOL: &'static str = "\u{1f5d9}";

/// The waste-basket symbol.
pub const TRASH_CAN_SYMBOL: &'static str = "\u{1f5d1}";

/// A button beside a project's name.
#[derive(Debug, Clone, Copy, PartialEq, Eq, Structural)]
pub enum LabelButton {
    Save,
    Close,
    Delete,
}

impl LabelButton {
    /// The symbol drawn on the button.
    pub fn symbol(&self) -> (s: &'static str)
        ensures
            s@ == match *self {
                LabelButton::Save => FILE_SYMBOL@,
                LabelButton::Close => CROSS_SYMBOL@,
                LabelButton::Delete => TRASH_CAN_SYMBOL@,
            },
    {
        match self {
            LabelButton::Save => FILE_SYMBOL,
            LabelButton::Close => CROSS_SYMBOL,
            LabelButton::Delete => TRASH_CAN_SYMBOL,
        }
    }

    /// The button's name (shown when hovering over it).
    pub fn name(&self) -> (s: &'static str)
        ensures
            s@ == match *self {
                LabelButton::Save => "Save"@,
                LabelButton::Close => "Close"@,
                LabelButton::Delete => "Delete"@,
            },
    {
        match self {
            LabelButton::Save => "Save",
            LabelButton::Close => "Close",
            LabelButton::Delete => "Delete",
        }
    }
}

/// What a project row reported in one frame: whether its name was clicked,
/// and for each of its buttons whether it was clicked.
pub struct LabelResponse<H, const N: usize> {
    pub project_handle: H,
    pub selected: bool,
    pub buttons: [(LabelButton, bool); N],
}

/// Whether the first entry for `button` in `buttons` (from index `from` on)
/// was clicked; false if there is none.
pub open spec fn clicked_from(buttons: Seq<(LabelButton, bool)>, button: LabelButton, from: int) -> bool
    decreases buttons.len() - from,
{
    if from >= buttons.len() || from < 0 {
        false
    } else if buttons[from].0 == button {
        buttons[from].1
    } else {
        clicked_from(buttons, button, from + 1)
    }
}

impl<H, const N: usize> LabelResponse<H, N> {
    /// The row asks for something: its name or one of its buttons was clicked.
    pub fn has_some_value(&self) -> (b: bool)
        ensures
            b == (self.selected || exists|i: int| 0 <= i < N && #[trigger] self.buttons@[i].1),
    {
        if self.selected {
            return true;
        }
        let mut i: usize = 0;
        while i < N
            invariant
                i <= N,
                self.buttons@.len() == N,
                forall|j: int| 0 <= j < i ==> !(#[trigger] self.buttons@[j].1),
            decreases N - i,
        {
            if self.buttons[i].1 {
                return true;
            }
            i = i + 1;
        }
        false
    }

    /// Whether `button` was clicked (going by the first entry for it; false
    /// when the row has no such button).
    pub fn is_button_clicked(&self, button: LabelButton) -> (b: bool)
        ensures
            b == clicked_from(self.buttons@, button, 0),
    {
        let mut i: usize = 0;
        while i < N
            invariant
                i <= N,
                self.buttons@.len() == N,
                clicked_from(self.buttons@, button, 0) == clicked_from(
                    self.buttons@,
                    button,
                    i as int,
                ),
            decreases N - i,
        {
            let (b, c) = self.buttons[i];
            if b == button {
                return c;
            }
            i = i + 1;
        }
        false
    }
}

/// What the panel does for a row of an untitled, open or closed project.
#[derive(Debug, Clone, Copy, PartialEq, Eq, Structural)]
pub enum RowAction {
    Nothing,
    /// Ask whether to save before closing.
    AskClose,
    /// Ask whether to delete.
    AskDelete,
    Save,
    /// Open the (closed) project.
    Open,
}

/// For an untitled project's row: select it if its name was clicked, and
/// close (asking first) or else save it if those buttons were clicked.
pub fn untitled_row_action<H, const N: usize>(r: &LabelResponse<H, N>) -> (a: (bool, RowAction))
    ensures
        a.0 == r.selected,
        a.1 == if clicked_from(r.buttons@, LabelButton::Close, 0) {
            RowAction::AskClose
        } else if clicked_from(r.buttons@, LabelButton::Save, 0) {
            RowAction::Save
        } else {
            RowAction::Nothing
        },
{
    let action = if r.is_button_clicked(LabelButton::Close) {
        RowAction::AskClose
    } else if r.is_button_clicked(LabelButton::Save) {
        RowAction::Save
    } else {
        RowAction::Nothing
    };
    (r.selected, action)
}

/// For an open project's row: select it if its name was clicked, and delete,
/// close (both asking first) or save it, the first of these whose button was
/// clicked.
pub fn open_row_action<H, const N: usize>(r: &LabelResponse<H, N>) -> (a: (bool, RowAction))
    ensures
        a.0 == r.selected,
        a.1 == if clicked_from(r.buttons@, LabelButton::Delete, 0) {
            RowAction::AskDelete
        } else if clicked_from(r.buttons@, LabelButton::Close, 0) {
            RowAction::AskClose
        } else if clicked_from(r.buttons@, LabelButton::Save, 0) {
            RowAction::Save
        } else {
            RowAction::Nothing
        },
{
    let action = if r.is_button_clicked(LabelButton::Delete) {
        RowAction::AskDelete
    } else if r.is_button_clicked(LabelButton::Close) {
        RowAction::AskClose
    } else if r.is_button_clicked(LabelButton::Save) {
        RowAction::Save
    } else {
        RowAction::Nothing
    };
    (r.selected, action)
}

/// For a closed project's row: delete it (asking first) if that button was
/// clicked, else open it if its name was clicked.
pub fn closed_row_action<H, const N: usize>(r: &LabelResponse<H, N>) -> (a: RowAction)
    ensures
        a == if clicked_from(r.buttons@, LabelButton::Delete, 0) {
            RowAction::AskDelete
        } else if r.selected {
            RowAction::Open
        } else {
            RowAction::Nothing
        },
{
    if r.is_button_clicked(LabelButton::Delete) {
        RowAction::AskDelete
    } else if r.selected {
        RowAction::Open
    } else {
        RowAction::Nothing
    }
}

/// The row asks for something: its name or one of its buttons was clicked.
pub open spec fn is_active<H, const N: usize>(r: LabelResponse<H, N>) -> bool {
    r.selected || exists|i: int| 0 <= i < N && #[trigger] r.buttons@[i].1
}

/// The first of the rows drawn in a frame that asks for something, if any:
/// the one row the panel acts on.
#[verifier::loop_isolation(false)]
pub fn first_active_row<H, const N: usize>(rows: Vec<LabelResponse<H, N>>) -> (r: Option<LabelResponse<H, N>>)
    ensures
        r is None <==> forall|k: int| 0 <= k < rows@.len() ==> !is_active(#[trigger] rows@[k]),
        r is Some ==> exists|k: int|
            0 <= k < rows@.len() && r == Some(rows@[k]) && is_active(#[trigger] rows@[k]) && forall|j: int|
                0 <= j < k ==> !is_active(#[trigger] rows@[j]),
{
    let mut rows = rows;
    let ghost all = rows@;
    let mut k: usize = 0;
    while k < rows.len()
        invariant
            rows@ == all,
            k <= all.len(),
            forall|j: int| 0 <= j < k ==> !is_active(#[trigger] all[j]),
        decreases all.len() - k,
    {
        if rows[k].has_some_value() {
            assert(is_active(all[k as int]));
            let row = rows.remove(k);
            assert(row == all[k as int]);
            return Some(row);
        }
        k = k + 1;
    }
    None
}

/// A row that reports nothing asks for nothing.
pub proof fn law_quiet_row_does_nothing<H, const N: usize>(r: LabelResponse<H, N>, b: LabelButton)
    requires
        r.buttons@.len() == N,
        forall|i: int| 0 <= i < N ==> !(#[trigger] r.buttons@[i].1),
    ensures
        !clicked_from(r.buttons@, b, 0),
{
    lemma_unclicked(r.buttons@, b, 0);
}

proof fn lemma_unclicked(buttons: Seq<(LabelButton, bool)>, b: LabelButton, from: int)
    requires
        forall|i: int| 0 <= i < buttons.len() ==> !(#[trigger] buttons[i].1),
    ensures
        !clicked_from(buttons, b, from),
    decreases buttons.len() - from,
{
    if 0 <= from < buttons.len() {
        lemma_unclicked(buttons, b, from + 1);
    }
}

} // verus!
