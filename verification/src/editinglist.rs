//! A cursor over the lines of one loaded buffer that only ever stops on
//! addressable `key=value` lines.
//!
//! Navigation scans past blank lines, comments and section headers, so
//! the selection invariant holds after every move and after every
//! committed edit: the cursor, when present, names an addressable line,
//! and it is absent exactly when the buffer has no addressable line.

use vstd::prelude::*;

use crate::lines::is_addressable_line;
use crate::lines::lemma_rewrite_keeps_key;
use crate::lines::line_is_addressable;
use crate::lines::rewrite_value;
use crate::lines::spec_key;
use crate::lines::spec_rewrite;
use crate::lines::spec_value;
use crate::lines::split_key_value;
use crate::statefullist::NoSelection;
use crate::text::lines_view;

verus! {

/// The buffer of one editing session and the line the user is on.
pub struct EditingList {
    pub editing_text: Vec<String>,
    pub cursor: Option<usize>,
}

/// Index of the first addressable line at or after `i`; `lines.len()`
/// if there is none.
pub open spec fn first_addressable_from(lines: Seq<Seq<char>>, i: int) -> int
    recommends
        0 <= i <= lines.len(),
    decreases lines.len() - i when 0 <= i <= lines.len()
{
    if i >= lines.len() {
        lines.len() as int
    } else if line_is_addressable(lines[i]) {
        i
    } else {
        first_addressable_from(lines, i + 1)
    }
}

/// Index of the last addressable line at or before `i`; `-1` if there
/// is none.
pub open spec fn last_addressable_upto(lines: Seq<Seq<char>>, i: int) -> int
    recommends
        i < lines.len(),
    decreases i + 1 when -1 <= i
{
    if i < 0 {
        -1
    } else if line_is_addressable(lines[i]) {
        i
    } else {
        last_addressable_upto(lines, i - 1)
    }
}

/// Where a downward move from line `i` lands: the next addressable
/// line, or `i` itself when none follows.
pub open spec fn next_cursor(lines: Seq<Seq<char>>, i: int) -> int {
    let f = first_addressable_from(lines, i + 1);
    if f < lines.len() {
        f
    } else {
        i
    }
}

/// Where an upward move from line `i` lands: the previous addressable
/// line, or `i` itself when none precedes.
pub open spec fn previous_cursor(lines: Seq<Seq<char>>, i: int) -> int {
    let p = last_addressable_upto(lines, i - 1);
    if p >= 0 {
        p
    } else {
        i
    }
}

/// Where a jump to the top lands: the first addressable line, or the
/// old cursor when the buffer has none.
pub open spec fn first_cursor(lines: Seq<Seq<char>>, c: Option<int>) -> Option<int> {
    let f = first_addressable_from(lines, 0);
    if f < lines.len() {
        Some(f)
    } else {
        c
    }
}

/// Where a jump to the bottom lands: the last addressable line, or the
/// old cursor when the buffer has none.
pub open spec fn last_cursor(lines: Seq<Seq<char>>, c: Option<int>) -> Option<int> {
    let p = last_addressable_upto(lines, lines.len() as int - 1);
    if p >= 0 {
        Some(p)
    } else {
        c
    }
}

/// `first_addressable_from` lands exactly on the first addressable
/// line.
pub proof fn lemma_first_addressable_from_is(lines: Seq<Seq<char>>, i: int, j: int)
    requires
        0 <= i <= j <= lines.len(),
        forall|k: int| i <= k < j ==> !line_is_addressable(lines[k]),
        j < lines.len() ==> line_is_addressable(lines[j]),
    ensures
        first_addressable_from(lines, i) == j,
    decreases j - i,
{
    if i < j {
        lemma_first_addressable_from_is(lines, i + 1, j);
    }
}

/// Nothing before `first_addressable_from` is addressable, and the
/// line there (if any) is.
pub proof fn lemma_first_addressable_from_props(lines: Seq<Seq<char>>, i: int)
    requires
        0 <= i <= lines.len(),
    ensures
        i <= first_addressable_from(lines, i) <= lines.len(),
        forall|k: int| i <= k < first_addressable_from(lines, i) ==> !line_is_addressable(lines[k]),
        first_addressable_from(lines, i) < lines.len() ==> line_is_addressable(
            lines[first_addressable_from(lines, i)],
        ),
    decreases lines.len() - i,
{
    if i < lines.len() && !line_is_addressable(lines[i]) {
        lemma_first_addressable_from_props(lines, i + 1);
    }
}

/// `last_addressable_upto` lands exactly on the last addressable line.
pub proof fn lemma_last_addressable_upto_is(lines: Seq<Seq<char>>, i: int, j: int)
    requires
        -1 <= j <= i < lines.len(),
        forall|k: int| j < k <= i ==> !line_is_addressable(lines[k]),
        j >= 0 ==> line_is_addressable(lines[j]),
    ensures
        last_addressable_upto(lines, i) == j,
    decreases i - j,
{
    if j < i {
        lemma_last_addressable_upto_is(lines, i - 1, j);
    }
}

/// Nothing after `last_addressable_upto` (up to `i`) is addressable,
/// and the line there (if any) is.
pub proof fn lemma_last_addressable_upto_props(lines: Seq<Seq<char>>, i: int)
    requires
        -1 <= i < lines.len(),
    ensures
        -1 <= last_addressable_upto(lines, i) <= i,
        forall|k: int| last_addressable_upto(lines, i) < k <= i ==> !line_is_addressable(lines[k]),
        last_addressable_upto(lines, i) >= 0 ==> line_is_addressable(
            lines[last_addressable_upto(lines, i)],
        ),
    decreases i + 1,
{
    if i >= 0 && !line_is_addressable(lines[i]) {
        lemma_last_addressable_upto_props(lines, i - 1);
    }
}

/// Moving down from an addressable line lands on an addressable line,
/// never before the old one and never outside the buffer.
pub proof fn lemma_next_selects_addressable(lines: Seq<Seq<char>>, i: int)
    requires
        0 <= i < lines.len(),
        line_is_addressable(lines[i]),
    ensures
        i <= next_cursor(lines, i) < lines.len(),
        line_is_addressable(lines[next_cursor(lines, i)]),
{
    lemma_first_addressable_from_props(lines, i + 1);
}

/// Moving up from an addressable line lands on an addressable line,
/// never past the old one and never before line zero.
pub proof fn lemma_previous_selects_addressable(lines: Seq<Seq<char>>, i: int)
    requires
        0 <= i < lines.len(),
        line_is_addressable(lines[i]),
    ensures
        0 <= previous_cursor(lines, i) <= i,
        line_is_addressable(lines[previous_cursor(lines, i)]),
{
    lemma_last_addressable_upto_props(lines, i - 1);
}

/// One navigation request: the four cursor movements the buffer view
/// offers.
pub enum NavMove {
    Next,
    Previous,
    First,
    Last,
}

/// The cursor names an addressable line of the buffer whenever it is
/// present.
pub open spec fn cursor_ok(lines: Seq<Seq<char>>, c: Option<int>) -> bool {
    match c {
        Some(i) => 0 <= i < lines.len() && line_is_addressable(lines[i]),
        None => true,
    }
}

/// Where one navigation request takes the cursor.
pub open spec fn nav_move(lines: Seq<Seq<char>>, c: Option<int>, mv: NavMove) -> Option<int> {
    match c {
        Some(i) => match mv {
            NavMove::Next => Some(next_cursor(lines, i)),
            NavMove::Previous => Some(previous_cursor(lines, i)),
            NavMove::First => first_cursor(lines, Some(i)),
            NavMove::Last => last_cursor(lines, Some(i)),
        },
        None => match mv {
            NavMove::First => first_cursor(lines, None),
            NavMove::Last => last_cursor(lines, None),
            _ => None,
        },
    }
}

/// The cursor after a whole run of navigation requests.
pub open spec fn nav_apply_moves(lines: Seq<Seq<char>>, c: Option<int>, moves: Seq<NavMove>) -> Option<int>
    decreases moves.len(),
{
    if moves.len() == 0 {
        c
    } else {
        nav_apply_moves(lines, nav_move(lines, c, moves[0]), moves.drop_first())
    }
}

/// One navigation request never leaves the cursor on a non-addressable
/// line.
pub proof fn lemma_nav_move_stays_addressable(lines: Seq<Seq<char>>, c: Option<int>, mv: NavMove)
    requires
        cursor_ok(lines, c),
    ensures
        cursor_ok(lines, nav_move(lines, c, mv)),
{
    match c {
        Some(i) => match mv {
            NavMove::Next => lemma_next_selects_addressable(lines, i),
            NavMove::Previous => lemma_previous_selects_addressable(lines, i),
            NavMove::First => lemma_first_addressable_from_props(lines, 0),
            NavMove::Last => lemma_last_addressable_upto_props(lines, lines.len() as int - 1),
        },
        None => match mv {
            NavMove::First => lemma_first_addressable_from_props(lines, 0),
            NavMove::Last => {
                if lines.len() > 0 {
                    lemma_last_addressable_upto_props(lines, lines.len() as int - 1);
                }
            },
            _ => {},
        },
    }
}

/// However the buffer's lines interleave declarations, comments and
/// blanks, every cursor position reachable by any run of navigation
/// requests is an addressable line.
pub proof fn lemma_navigation_stays_addressable(
    lines: Seq<Seq<char>>,
    c: Option<int>,
    moves: Seq<NavMove>,
)
    requires
        cursor_ok(lines, c),
    ensures
        cursor_ok(lines, nav_apply_moves(lines, c, moves)),
    decreases moves.len(),
{
    if moves.len() > 0 {
        lemma_nav_move_stays_addressable(lines, c, moves[0]);
        lemma_navigation_stays_addressable(lines, nav_move(lines, c, moves[0]), moves.drop_first());
    }
}

/// Jumping to the top twice in a row yields the same cursor as jumping
/// once.
pub proof fn lemma_first_idempotent(lines: Seq<Seq<char>>, c: Option<int>)
    ensures
        first_cursor(lines, first_cursor(lines, c)) == first_cursor(lines, c),
{
}

/// Jumping to the bottom twice in a row yields the same cursor as
/// jumping once.
pub proof fn lemma_last_idempotent(lines: Seq<Seq<char>>, c: Option<int>)
    ensures
        last_cursor(lines, last_cursor(lines, c)) == last_cursor(lines, c),
{
}

/// Committing an edited value `v` on line `i` of a buffer keeps every
/// other line byte-identical, while line `i` keeps its key and
/// trailing comment and carries exactly `v` as its value.  `v` must be
/// free of comment markers, or its tail would be read back as a
/// comment.
pub proof fn lemma_buffer_commit_round_trip(text: Seq<Seq<char>>, i: int, v: Seq<char>)
    requires
        0 <= i < text.len(),
        line_is_addressable(text[i]),
        forall|k: int| 0 <= k < v.len() ==> !crate::lines::is_comment_char(v[k]),
    ensures
        ({
            let committed = text.update(i, spec_rewrite(text[i], v));
            &&& committed.len() == text.len()
            &&& forall|j: int| 0 <= j < text.len() && j != i ==> committed[j] == text[j]
            &&& spec_key(committed[i]) == spec_key(text[i])
            &&& spec_value(committed[i]) == v
            &&& crate::lines::spec_comment(committed[i]) == crate::lines::spec_comment(text[i])
        }),
{
    crate::lines::lemma_commit_round_trip(text[i], v);
}

/// The first addressable line at or after `from`, by a linear scan.
fn scan_forward(text: &Vec<String>, from: usize) -> (r: Option<usize>)
    requires
        from <= text.len(),
    ensures
        match r {
            Some(j) => j as int == first_addressable_from(lines_view(text@), from as int) && j
                < text.len(),
            None => first_addressable_from(lines_view(text@), from as int) == text.len(),
        },
{
    let mut j: usize = from;
    while j < text.len()
        invariant
            from <= j <= text.len(),
            forall|k: int|
                from <= k < j ==> !line_is_addressable(#[trigger] lines_view(text@)[k]),
        decreases text.len() - j,
    {
        if is_addressable_line(text[j].as_str()) {
            proof {
                lemma_first_addressable_from_is(lines_view(text@), from as int, j as int);
            }
            return Some(j);
        }
        j = j + 1;
    }
    proof {
        lemma_first_addressable_from_is(lines_view(text@), from as int, text.len() as int);
    }
    None
}

/// The last addressable line at or before `upto`, by a linear scan.
fn scan_backward(text: &Vec<String>, upto: usize) -> (r: Option<usize>)
    requires
        upto < text.len(),
    ensures
        match r {
            Some(j) => j as int == last_addressable_upto(lines_view(text@), upto as int) && j
                <= upto,
            None => last_addressable_upto(lines_view(text@), upto as int) == -1,
        },
{
    let mut j: usize = upto + 1;
    while j > 0
        invariant
            upto < text.len(),
            j <= upto + 1,
            forall|k: int| j <= k <= upto ==> !line_is_addressable(#[trigger] lines_view(text@)[k]),
        decreases j,
    {
        j = j - 1;
        if is_addressable_line(text[j].as_str()) {
            proof {
                lemma_last_addressable_upto_is(lines_view(text@), upto as int, j as int);
            }
            return Some(j);
        }
    }
    proof {
        lemma_last_addressable_upto_is(lines_view(text@), upto as int, -1);
    }
    None
}

impl EditingList {
    /// The buffer as a sequence of character sequences.
    pub open spec fn text(&self) -> Seq<Seq<char>> {
        lines_view(self.editing_text@)
    }

    /// The cursor names an addressable line, and it is absent exactly
    /// when the buffer has no addressable line.
    pub open spec fn wf(&self) -> bool {
        match self.cursor {
            Some(i) => i < self.editing_text.len() && line_is_addressable(self.text()[i as int]),
            None => forall|j: int| 0 <= j < self.text().len() ==> !line_is_addressable(
                #[trigger] self.text()[j],
            ),
        }
    }

    /// A navigator over `editing_text`, on the first addressable line
    /// when there is one.
    pub fn with_lines(editing_text: Vec<String>) -> (r: Self)
        ensures
            r.wf(),
            r.editing_text == editing_text,
            r.cursor_view() == first_cursor(lines_view(editing_text@), None),
    {
        let cursor = scan_forward(&editing_text, 0);
        proof {
            lemma_first_addressable_from_props(lines_view(editing_text@), 0);
        }
        EditingList { editing_text, cursor }
    }

    /// The cursor as a mathematical index.
    pub open spec fn cursor_view(&self) -> Option<int> {
        match self.cursor {
            Some(i) => Some(i as int),
            None => None,
        }
    }

    /// Move down to the next addressable line; a no-op at the last one
    /// or when nothing is selected.
    pub fn next(&mut self)
        requires
            old(self).wf(),
        ensures
            final(self).wf(),
            final(self).editing_text == old(self).editing_text,
            match old(self).cursor {
                Some(i) => final(self).cursor_view() == Some(
                    next_cursor(old(self).text(), i as int),
                ),
                None => final(self).cursor is None,
            },
    {
        match self.cursor {
            Some(i) => {
                match scan_forward(&self.editing_text, i + 1) {
                    Some(j) => {
                        self.cursor = Some(j);
                        proof {
                            lemma_first_addressable_from_props(self.text(), i as int + 1);
                        }
                    },
                    None => {},
                }
            },
            None => {},
        }
    }

    /// Move up to the previous addressable line; a no-op at the first
    /// one or when nothing is selected.
    pub fn previous(&mut self)
        requires
            old(self).wf(),
        ensures
            final(self).wf(),
            final(self).editing_text == old(self).editing_text,
            match old(self).cursor {
                Some(i) => final(self).cursor_view() == Some(
                    previous_cursor(old(self).text(), i as int),
                ),
                None => final(self).cursor is None,
            },
    {
        match self.cursor {
            Some(i) => {
                if i > 0 {
                    match scan_backward(&self.editing_text, i - 1) {
                        Some(j) => {
                            self.cursor = Some(j);
                            proof {
                                lemma_last_addressable_upto_props(self.text(), i as int - 1);
                            }
                        },
                        None => {},
                    }
                }
            },
            None => {},
        }
    }

    /// Jump to the first addressable line of the buffer.
    pub fn first(&mut self)
        requires
            old(self).wf(),
        ensures
            final(self).wf(),
            final(self).editing_text == old(self).editing_text,
            final(self).cursor_view() == first_cursor(old(self).text(), old(self).cursor_view()),
    {
        match scan_forward(&self.editing_text, 0) {
            Some(j) => {
                self.cursor = Some(j);
                proof {
                    lemma_first_addressable_from_props(self.text(), 0);
                }
            },
            None => {},
        }
    }

    /// Jump to the last addressable line of the buffer.
    pub fn last(&mut self)
        requires
            old(self).wf(),
        ensures
            final(self).wf(),
            final(self).editing_text == old(self).editing_text,
            final(self).cursor_view() == last_cursor(old(self).text(), old(self).cursor_view()),
    {
        if self.editing_text.len() > 0 {
            match scan_backward(&self.editing_text, self.editing_text.len() - 1) {
                Some(j) => {
                    self.cursor = Some(j);
                    proof {
                        lemma_last_addressable_upto_props(
                            self.text(),
                            self.text().len() as int - 1,
                        );
                    }
                },
                None => {},
            }
        }
    }

    /// The key and value of the selected line, or `NoSelection` when no
    /// line is selected.
    pub fn get_selected_key_value(&self) -> (r: Result<(String, String), NoSelection>)
        requires
            self.wf(),
        ensures
            match (self.cursor, r) {
                (Some(i), Ok(kv)) => kv.0@ == spec_key(self.text()[i as int]) && kv.1@
                    == spec_value(self.text()[i as int]),
                (None, Err(e)) => e == NoSelection,
                _ => false,
            },
    {
        match self.cursor {
            Some(i) => Ok(split_key_value(self.editing_text[i].as_str())),
            None => Err(NoSelection),
        }
    }

    /// Replace the value of the selected line with `new_value`, keeping
    /// its key and trailing comment; every other line is untouched.
    pub fn rewrite_selected(&mut self, new_value: &str) -> (r: Result<(), NoSelection>)
        requires
            old(self).wf(),
        ensures
            final(self).wf(),
            final(self).cursor == old(self).cursor,
            match (old(self).cursor, r) {
                (Some(i), Ok(u)) => final(self).text() == old(self).text().update(
                    i as int,
                    spec_rewrite(old(self).text()[i as int], new_value@),
                ),
                (None, Err(e)) => e == NoSelection && final(self).editing_text == old(
                    self,
                ).editing_text,
                _ => false,
            },
    {
        match self.cursor {
            Some(i) => {
                let ghost pre = self.text();
                let new_line = rewrite_value(self.editing_text[i].as_str(), new_value);
                self.editing_text[i] = new_line;
                proof {
                    lemma_rewrite_keeps_key(pre[i as int], new_value@);
                    assert(self.text() =~= pre.update(
                        i as int,
                        spec_rewrite(pre[i as int], new_value@),
                    ));
                }
                Ok(())
            },
            None => Err(NoSelection),
        }
    }
}

impl Default for EditingList {
    /// An empty buffer with nothing selected.
    fn default() -> (r: Self)
        ensures
            r.wf(),
            r.editing_text@.len() == 0,
            r.cursor is None,
    {
        EditingList { editing_text: Vec::new(), cursor: None }
    }
}

} // verus!
