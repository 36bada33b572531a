//! Selection state of the integrated library: a folder pane (a ".." row,
//! the current folder itself, then its subfolders) and a file pane (audio
//! files of the selected folder). The same intents come from every input —
//! encoder, keyboard, mouse — and land here; listing directories and
//! reading files is done by the caller, which reports the row counts.

use vstd::prelude::*;

verus! {

/// Abstract state of the library selection.
pub struct BrowserModel {
    pub focused: bool,
    pub dir_count: int,
    pub file_count: int,
    pub dir_selected: int,
    pub file_selected: int,
    pub dir_scroll: int,
    pub file_scroll: int,
    /// Row of the current folder itself in the folder pane.
    pub current_row: int,
    /// The folder pane must be listed again.
    pub dirty: bool,
    /// The file pane must be listed again.
    pub files_dirty: bool,
}

/// `sel + delta` kept inside `0..=last`.
pub open spec fn moved(sel: int, delta: int, last: int) -> int {
    if sel + delta < 0 {
        0
    } else if sel + delta > last {
        last
    } else {
        sel + delta
    }
}

/// First visible row after making row `sel` visible in a window of
/// `visible` rows that started at `scroll`.
pub open spec fn followed(sel: int, scroll: int, visible: int) -> int {
    if sel < scroll {
        sel
    } else if sel >= scroll + visible {
        sel - (visible - 1)
    } else {
        scroll
    }
}

/// Model after the folder pane was listed with `count` rows, the current
/// folder's row at `current_row`.
pub open spec fn after_dir_listing(m: BrowserModel, count: int, current_row: int) -> BrowserModel {
    BrowserModel {
        dir_count: count,
        dir_selected: current_row,
        current_row: current_row,
        dir_scroll: 0,
        dirty: false,
        files_dirty: true,
        ..m
    }
}

/// Model after the file pane was listed with `count` rows.
pub open spec fn after_file_listing(m: BrowserModel, count: int) -> BrowserModel {
    BrowserModel { file_count: count, file_selected: 0, file_scroll: 0, files_dirty: false, ..m }
}

/// Height of the row windows: `rows_visible`, at least one row.
pub open spec fn window(rows_visible: int) -> int {
    if rows_visible >= 1 {
        rows_visible
    } else {
        1
    }
}

/// Model after both panes scrolled to show their selections.
pub open spec fn after_follow(m: BrowserModel, rows_visible: int) -> BrowserModel {
    BrowserModel {
        dir_scroll: followed(m.dir_selected, m.dir_scroll, window(rows_visible)),
        file_scroll: followed(m.file_selected, m.file_scroll, window(rows_visible)),
        ..m
    }
}

/// Distance between two rows.
pub open spec fn distance(a: int, b: int) -> int {
    if a >= b {
        a - b
    } else {
        b - a
    }
}

/// Selection of the library panes.
pub struct Browser {
    /// Keyboard focus only — the panel itself is always visible.
    pub focused: bool,
    dir_count: usize,
    file_count: usize,
    dir_selected: usize,
    file_selected: usize,
    dir_scroll: usize,
    file_scroll: usize,
    current_row: usize,
    dirty: bool,
    files_dirty: bool,
}

impl View for Browser {
    type V = BrowserModel;

    closed spec fn view(&self) -> BrowserModel {
        BrowserModel {
            focused: self.focused,
            dir_count: self.dir_count as int,
            file_count: self.file_count as int,
            dir_selected: self.dir_selected as int,
            file_selected: self.file_selected as int,
            dir_scroll: self.dir_scroll as int,
            file_scroll: self.file_scroll as int,
            current_row: self.current_row as int,
            dirty: self.dirty,
            files_dirty: self.files_dirty,
        }
    }
}

/// Selections point at an existing row (or at row 0 of an empty pane).
pub open spec fn selection_ok(m: BrowserModel) -> bool {
    &&& if m.dir_count == 0 { m.dir_selected == 0 } else { 0 <= m.dir_selected < m.dir_count }
    &&& if m.file_count == 0 { m.file_selected == 0 } else { 0 <= m.file_selected < m.file_count }
}

/// Model after moving the folder selection by `delta`.
pub open spec fn spec_scroll_dirs_by(m: BrowserModel, delta: int) -> BrowserModel {
    if m.dir_count == 0 {
        m
    } else {
        let next = moved(m.dir_selected, delta, m.dir_count - 1);
        if next != m.dir_selected {
            BrowserModel { dir_selected: next, files_dirty: true, ..m }
        } else {
            m
        }
    }
}

/// Model after moving the file selection by `delta`; an empty file pane
/// hands the motion to the folder pane.
pub open spec fn spec_scroll_by(m: BrowserModel, delta: int) -> BrowserModel {
    if m.file_count == 0 {
        spec_scroll_dirs_by(m, delta)
    } else {
        BrowserModel { file_selected: moved(m.file_selected, delta, m.file_count - 1), ..m }
    }
}

/// `sel` moved by `delta` within `0..=last`.
fn move_selection(sel: usize, delta: i32, last: usize) -> (r: usize)
    requires
        sel <= last,
    ensures
        r == moved(sel as int, delta as int, last as int),
{
    let shifted = if delta >= 0 {
        sel.saturating_add(delta as usize)
    } else {
        let back = (0i64 - (delta as i64)) as usize;
        sel.saturating_sub(back)
    };
    if shifted < last {
        shifted
    } else {
        last
    }
}

/// First visible row once `sel` is made visible (window of `visible` rows).
fn follow(sel: usize, scroll: usize, visible: usize) -> (r: usize)
    requires
        visible >= 1,
    ensures
        r == followed(sel as int, scroll as int, visible as int),
        r <= sel < r + visible,
{
    if sel < scroll {
        sel
    } else if sel - scroll >= visible {
        sel - (visible - 1)
    } else {
        scroll
    }
}

impl Browser {
    pub open spec fn wf(&self) -> bool {
        selection_ok(self@)
    }

    /// Empty panes waiting for their first listing, no focus.
    pub fn new() -> (r: Self)
        ensures
            r.wf(),
            r@ == (BrowserModel {
                focused: false,
                dir_count: 0,
                file_count: 0,
                dir_selected: 0,
                file_selected: 0,
                dir_scroll: 0,
                file_scroll: 0,
                current_row: 0,
                dirty: true,
                files_dirty: true,
            }),
    {
        Browser {
            focused: false,
            dir_count: 0,
            file_count: 0,
            dir_selected: 0,
            file_selected: 0,
            dir_scroll: 0,
            file_scroll: 0,
            current_row: 0,
            dirty: true,
            files_dirty: true,
        }
    }

    /// Moves the file-list selection (encoder, arrows, wheel). With an
    /// empty file list (a folder without direct audio files), the motion
    /// goes to the folder pane, so the encoder walks down the tree.
    pub fn scroll_by(&mut self, delta: i32)
        requires
            old(self).wf(),
        ensures
            final(self).wf(),
            final(self)@ == spec_scroll_by(old(self)@, delta as int),
    {
        if self.file_count == 0 {
            self.scroll_dirs_by(delta);
            return;
        }
        let last = self.file_count - 1;
        self.file_selected = move_selection(self.file_selected, delta, last);
    }

    /// Moves the folder-pane selection (Shift + encoder, Shift + arrows);
    /// a new folder selection asks for the file pane to be listed again.
    pub fn scroll_dirs_by(&mut self, delta: i32)
        requires
            old(self).wf(),
        ensures
            final(self).wf(),
            final(self)@ == spec_scroll_dirs_by(old(self)@, delta as int),
    {
        if self.dir_count == 0 {
            return;
        }
        let last = self.dir_count - 1;
        let next = move_selection(self.dir_selected, delta, last);
        if next != self.dir_selected {
            self.dir_selected = next;
            self.files_dirty = true;
        }
    }

    /// The current folder changed: the folder pane must be listed again.
    pub fn navigate(&mut self)
        ensures
            final(self)@ == (BrowserModel { dirty: true, ..old(self)@ }),
    {
        self.dirty = true;
    }

    /// The folder pane was listed: `count` rows, the current folder's own
    /// row at `current_row` is selected, the view goes back to the top and
    /// the file pane must follow.
    pub fn listed_dirs(&mut self, count: usize, current_row: usize)
        requires
            old(self).wf(),
            current_row < count,
        ensures
            final(self).wf(),
            final(self)@ == after_dir_listing(old(self)@, count as int, current_row as int),
    {
        self.dir_count = count;
        self.dir_selected = current_row;
        self.current_row = current_row;
        self.dir_scroll = 0;
        self.dirty = false;
        self.files_dirty = true;
    }

    /// The folder pane was listed as the library shows it: a ".." row
    /// when the current folder has a parent, the current folder itself
    /// (selected, so that its own files show at once), then `subfolders`
    /// rows.
    pub fn listed_folder(&mut self, has_parent: bool, subfolders: usize)
        requires
            old(self).wf(),
            subfolders < usize::MAX - 1,
        ensures
            final(self).wf(),
            final(self)@ == (BrowserModel {
                dir_count: (if has_parent { 2int } else { 1int }) + subfolders,
                dir_selected: if has_parent { 1int } else { 0int },
                current_row: if has_parent { 1int } else { 0int },
                dir_scroll: 0,
                dirty: false,
                files_dirty: true,
                ..old(self)@
            }),
    {
        let current_row: usize = if has_parent {
            1
        } else {
            0
        };
        self.listed_dirs(current_row + 1 + subfolders, current_row);
    }

    /// Enters the selected folder row (encoder push, right arrow, re-click):
    /// returns it and asks for a new listing, unless it is the current
    /// folder's own row.
    pub fn enter(&mut self) -> (r: Option<usize>)
        requires
            old(self).wf(),
        ensures
            final(self).wf(),
            ({
                let m = old(self)@;
                if m.dir_count > 0 && m.dir_selected != m.current_row {
                    &&& r == Some(m.dir_selected as usize)
                    &&& final(self)@ == (BrowserModel { dirty: true, ..m })
                } else {
                    &&& r is None
                    &&& final(self)@ == m
                }
            }),
    {
        if self.dir_count > 0 && self.dir_selected != self.current_row {
            self.dirty = true;
            return Some(self.dir_selected);
        }
        None
    }

    /// The file pane was listed: `count` rows, selection and view at the
    /// top.
    pub fn listed_files(&mut self, count: usize)
        requires
            old(self).wf(),
        ensures
            final(self).wf(),
            final(self)@ == after_file_listing(old(self)@, count as int),
    {
        self.file_count = count;
        self.file_selected = 0;
        self.file_scroll = 0;
        self.files_dirty = false;
    }

    /// Click on folder row `target`: a click on the selected row asks to
    /// enter it (returns true), a click on another existing row selects it.
    pub fn click_dir_row(&mut self, target: usize) -> (enter: bool)
        requires
            old(self).wf(),
        ensures
            final(self).wf(),
            enter == (target < old(self)@.dir_count && target == old(self)@.dir_selected),
            final(self)@ == if target < old(self)@.dir_count && target != old(self)@.dir_selected {
                BrowserModel { dir_selected: target as int, files_dirty: true, ..old(self)@ }
            } else {
                old(self)@
            },
    {
        if target < self.dir_count {
            if self.dir_selected == target {
                return true;
            }
            self.dir_selected = target;
            self.files_dirty = true;
        }
        false
    }

    /// Click on file row `target`: selects it when it exists.
    pub fn click_file_row(&mut self, target: usize)
        requires
            old(self).wf(),
        ensures
            final(self).wf(),
            final(self)@ == if target < old(self)@.file_count {
                BrowserModel { file_selected: target as int, ..old(self)@ }
            } else {
                old(self)@
            },
    {
        if target < self.file_count {
            self.file_selected = target;
        }
    }

    /// Scrolls both panes so that their selections are visible in windows
    /// of `rows_visible` rows (at least one).
    pub fn follow_selection(&mut self, rows_visible: usize)
        requires
            old(self).wf(),
        ensures
            final(self).wf(),
            final(self)@ == after_follow(old(self)@, rows_visible as int),
            final(self)@.dir_scroll <= old(self)@.dir_selected < final(self)@.dir_scroll + window(rows_visible as int),
            final(self)@.file_scroll <= old(self)@.file_selected < final(self)@.file_scroll + window(rows_visible as int),
    {
        let visible = if rows_visible >= 1 {
            rows_visible
        } else {
            1
        };
        self.dir_scroll = follow(self.dir_selected, self.dir_scroll, visible);
        self.file_scroll = follow(self.file_selected, self.file_scroll, visible);
    }

    /// Selected folder row.
    pub fn dir_selected(&self) -> (r: usize)
        ensures
            r == self@.dir_selected,
    {
        self.dir_selected
    }

    /// Selected file row (meaningful when the file pane is not empty).
    pub fn file_selected(&self) -> (r: usize)
        ensures
            r == self@.file_selected,
    {
        self.file_selected
    }

    /// First visible folder row.
    pub fn dir_scroll(&self) -> (r: usize)
        ensures
            r == self@.dir_scroll,
    {
        self.dir_scroll
    }

    /// First visible file row.
    pub fn file_scroll(&self) -> (r: usize)
        ensures
            r == self@.file_scroll,
    {
        self.file_scroll
    }

    /// The folder pane must be listed again.
    pub fn needs_dir_listing(&self) -> (r: bool)
        ensures
            r == self@.dirty,
    {
        self.dirty
    }

    /// The file pane must be listed again.
    pub fn needs_file_listing(&self) -> (r: bool)
        ensures
            r == self@.files_dirty,
    {
        self.files_dirty
    }
}

/// Moving a selection never leaves its pane, and moving back by the same
/// amount from a position reached without clamping returns to the start.
pub proof fn lemma_moved_in_range(sel: int, delta: int, last: int)
    requires
        0 <= sel <= last,
    ensures
        0 <= moved(sel, delta, last) <= last,
        0 <= sel + delta <= last ==> moved(moved(sel, delta, last), -delta, last) == sel,
{
}


/// Model after one render of the library: the folder pane is listed when
/// asked (`dir_count` rows, the current folder's at `current_row`), then
/// the file pane when asked (`file_count` rows), then both panes scroll to
/// their selections in windows of `rows_visible` rows.
pub open spec fn rendered(
    m: BrowserModel,
    dir_count: int,
    current_row: int,
    file_count: int,
    rows_visible: int,
) -> BrowserModel {
    let m1 = if m.dirty {
        after_dir_listing(m, dir_count, current_row)
    } else {
        m
    };
    let m2 = if m1.files_dirty {
        after_file_listing(m1, file_count)
    } else {
        m1
    };
    after_follow(m2, rows_visible)
}

/// After a render nothing is left to list, both selections stay valid and
/// visible, and each pane scrolled by the least amount that shows its
/// selection (not at all when it was already visible).
pub proof fn lemma_render_settles(
    m: BrowserModel,
    dir_count: int,
    current_row: int,
    file_count: int,
    rows_visible: int,
)
    requires
        selection_ok(m),
        0 <= current_row < dir_count,
        0 <= file_count,
    ensures
        ({
            let m1 = if m.dirty {
                after_dir_listing(m, dir_count, current_row)
            } else {
                m
            };
            let before = if m1.files_dirty {
                after_file_listing(m1, file_count)
            } else {
                m1
            };
            let r = rendered(m, dir_count, current_row, file_count, rows_visible);
            let v = window(rows_visible);
            &&& !r.dirty
            &&& !r.files_dirty
            &&& selection_ok(r)
            &&& r.dir_scroll <= r.dir_selected < r.dir_scroll + v
            &&& r.file_scroll <= r.file_selected < r.file_scroll + v
            &&& forall|s: int|
                s <= r.dir_selected < s + v ==> distance(r.dir_scroll, before.dir_scroll) <= #[trigger] distance(
                    s,
                    before.dir_scroll,
                )
            &&& forall|s: int|
                s <= r.file_selected < s + v ==> distance(r.file_scroll, before.file_scroll) <= #[trigger] distance(
                    s,
                    before.file_scroll,
                )
            &&& (before.dir_scroll <= before.dir_selected < before.dir_scroll + v ==> r.dir_scroll
                == before.dir_scroll)
            &&& (before.file_scroll <= before.file_selected < before.file_scroll + v ==> r.file_scroll
                == before.file_scroll)
        }),
{
}

} // verus!
