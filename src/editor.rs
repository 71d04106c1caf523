//! A small line-oriented text editor: a list of lines, a cursor and a scroll offset.
//! Cursor columns count characters.

use vstd::prelude::*;
use crate::text::{chars_of, string_of};

verus! {

/// Rows kept in view by the cursor movements that scroll on their own.
pub const DEFAULT_VISIBLE_HEIGHT: usize = 20;

/// A piece ended by a line feed loses one trailing carriage return.
pub open spec fn strip_cr(l: Seq<char>) -> Seq<char> {
    if l.len() > 0 && l.last() == '\r' {
        l.drop_last()
    } else {
        l
    }
}

/// Left-to-right scan of `s` into the lines ended so far and the line being read.
pub open spec fn scan_lines(s: Seq<char>) -> (Seq<Seq<char>>, Seq<char>)
    decreases s.len(),
{
    if s.len() == 0 {
        (Seq::empty(), Seq::empty())
    } else {
        let prev = scan_lines(s.drop_last());
        if s.last() == '\n' {
            (prev.0.push(strip_cr(prev.1)), Seq::empty())
        } else {
            (prev.0, prev.1.push(s.last()))
        }
    }
}

/// The lines of a text: split at line feeds, with "\r\n" counting as one line ending and the
/// final line ending optional.
pub open spec fn lines_of(s: Seq<char>) -> Seq<Seq<char>> {
    let st = scan_lines(s);
    if st.1.len() > 0 {
        st.0.push(st.1)
    } else {
        st.0
    }
}

/// Lines joined with line feeds between them.
pub open spec fn join_lines(ls: Seq<Seq<char>>) -> Seq<char>
    decreases ls.len(),
{
    if ls.len() == 0 {
        Seq::empty()
    } else if ls.len() == 1 {
        ls[0]
    } else {
        join_lines(ls.drop_last()) + seq!['\n'] + ls.last()
    }
}

/// Scroll offset that keeps `row` within a window of `h` rows starting at `scroll`.
pub open spec fn scrolled(row: int, scroll: int, h: int) -> int {
    if row < scroll {
        row
    } else if row >= scroll + h {
        row - h + 1
    } else {
        scroll
    }
}

pub open spec fn min(a: int, b: int) -> int {
    if a <= b {
        a
    } else {
        b
    }
}

#[derive(Debug)]
pub struct TextEditor {
    pub content: Vec<String>,
    pub cursor_row: usize,
    pub cursor_col: usize,
    pub scroll_offset: usize,
    pub title: String,
    pub is_dirty: bool,
}

/// Splits a text into lines.
pub fn split_lines(text: &str) -> (r: Vec<String>)
    ensures
        r.deep_view() == lines_of(text@),
{
    let cs = chars_of(text);
    let mut done: Vec<String> = Vec::new();
    let mut cur: Vec<char> = Vec::new();
    let mut i: usize = 0;
    while i < cs.len()
        invariant
            cs@ == text@,
            i <= cs.len(),
            (done.deep_view(), cur@) == scan_lines(cs@.take(i as int)),
        decreases cs.len() - i,
    {
        proof {
            assert(cs@.take(i + 1).drop_last() == cs@.take(i as int));
        }
        if cs[i] == '\n' {
            if cur.len() > 0 && cur[cur.len() - 1] == '\r' {
                cur.pop();
            }
            done.push(string_of(&cur));
            assert(done.deep_view() =~= scan_lines(cs@.take(i + 1)).0);
            cur = Vec::new();
        } else {
            cur.push(cs[i]);
        }
        i = i + 1;
    }
    if cur.len() > 0 {
        done.push(string_of(&cur));
    }
    assert(cs@.take(cs.len() as int) == cs@);
    assert(done.deep_view() =~= lines_of(text@));
    done
}

impl TextEditor {
    pub open spec fn lines(&self) -> Seq<Seq<char>> {
        self.content.deep_view()
    }

    /// At least one line; the cursor on an existing line, at most at its end.
    pub open spec fn wf(&self) -> bool {
        &&& self.content.len() >= 1
        &&& self.cursor_row < self.content.len()
        &&& self.cursor_col <= self.lines()[self.cursor_row as int].len()
    }

    /// The editor state with only the cursor and scroll offset changed.
    pub open spec fn same_text(&self, other: &TextEditor) -> bool {
        &&& self.lines() == other.lines()
        &&& self.title@ == other.title@
        &&& self.is_dirty == other.is_dirty
    }

    fn line_len(&self, row: usize) -> (r: usize)
        requires
            row < self.content.len(),
        ensures
            r == self.lines()[row as int].len(),
    {
        let cs = chars_of(self.content[row].as_str());
        cs.len()
    }

    /// An editor over the lines of `content` (one empty line for empty content), cursor at
    /// the start, unmodified.
    pub fn new(title: String, content: String) -> (r: Self)
        ensures
            r.wf(),
            content@.len() == 0 ==> r.lines() == seq![Seq::<char>::empty()],
            content@.len() > 0 ==> r.lines() == lines_of(content@),
            r.cursor_row == 0 && r.cursor_col == 0 && r.scroll_offset == 0,
            r.title@ == title@,
            !r.is_dirty,
    {
        let lines = if content.as_str().unicode_len() == 0 {
            let mut v: Vec<String> = Vec::new();
            v.push(String::new());
            assert(v.deep_view() =~= seq![Seq::<char>::empty()]);
            v
        } else {
            let v = split_lines(content.as_str());
            proof {
                lemma_lines_nonempty(content@);
            }
            v
        };
        TextEditor { content: lines, cursor_row: 0, cursor_col: 0, scroll_offset: 0, title, is_dirty: false }
    }

    /// Inserts `c` at the cursor and moves past it.
    pub fn insert_char(&mut self, c: char)
        requires
            old(self).wf(),
        ensures
            final(self).wf(),
            final(self).lines() == old(self).lines().update(
                old(self).cursor_row as int,
                old(self).lines()[old(self).cursor_row as int].insert(old(self).cursor_col as int, c),
            ),
            final(self).cursor_row == old(self).cursor_row,
            final(self).cursor_col == old(self).cursor_col + 1,
            final(self).scroll_offset == old(self).scroll_offset,
            final(self).title@ == old(self).title@,
            final(self).is_dirty,
    {
        if self.cursor_row >= self.content.len() {
            self.content.push(String::new());
        }
        let row = self.cursor_row;
        let mut cs = chars_of(self.content[row].as_str());
        if self.cursor_col > cs.len() {
            self.cursor_col = cs.len();
        }
        cs.insert(self.cursor_col, c);
        let n = cs.len();
        assert(self.cursor_col < n);
        let line = string_of(&cs);
        self.content.set(row, line);
        self.cursor_col = self.cursor_col + 1;
        self.is_dirty = true;
        assert(self.lines() =~= old(self).lines().update(
            row as int,
            old(self).lines()[row as int].insert(old(self).cursor_col as int, c),
        ));
    }

    /// Splits the line at the cursor; the cursor moves to the start of the new line.
    pub fn insert_newline(&mut self)
        requires
            old(self).wf(),
        ensures
            final(self).wf(),
            final(self).lines() == old(self).lines().update(
                old(self).cursor_row as int,
                old(self).lines()[old(self).cursor_row as int].take(old(self).cursor_col as int),
            ).insert(
                old(self).cursor_row + 1,
                old(self).lines()[old(self).cursor_row as int].skip(old(self).cursor_col as int),
            ),
            final(self).cursor_row == old(self).cursor_row + 1,
            final(self).cursor_col == 0,
            final(self).scroll_offset == old(self).scroll_offset,
            final(self).title@ == old(self).title@,
            final(self).is_dirty,
    {
        if self.cursor_row >= self.content.len() {
            self.content.push(String::new());
        }
        let row = self.cursor_row;
        let mut cs = chars_of(self.content[row].as_str());
        let rest = cs.split_off(self.cursor_col);
        self.content.set(row, string_of(&cs));
        self.cursor_row = row + 1;
        self.cursor_col = 0;
        self.content.insert(self.cursor_row, string_of(&rest));
        self.is_dirty = true;
        assert(self.lines() =~= old(self).lines().update(
            row as int,
            old(self).lines()[row as int].take(old(self).cursor_col as int),
        ).insert(row + 1, old(self).lines()[row as int].skip(old(self).cursor_col as int)));
    }

    /// Deletes the character before the cursor; at the start of a line, joins the line to
    /// the previous one.
    pub fn delete_char(&mut self)
        requires
            old(self).wf(),
        ensures
            final(self).wf(),
            final(self).scroll_offset == old(self).scroll_offset,
            final(self).title@ == old(self).title@,
            ({
                let row = old(self).cursor_row as int;
                let col = old(self).cursor_col as int;
                let ls = old(self).lines();
                if col > 0 {
                    &&& final(self).lines() == ls.update(row, ls[row].remove(col - 1))
                    &&& final(self).cursor_row == row
                    &&& final(self).cursor_col == col - 1
                    &&& final(self).is_dirty
                } else if row > 0 {
                    &&& final(self).lines() == ls.update(row - 1, ls[row - 1] + ls[row]).remove(row)
                    &&& final(self).cursor_row == row - 1
                    &&& final(self).cursor_col == ls[row - 1].len()
                    &&& final(self).is_dirty
                } else {
                    &&& final(self).lines() == ls
                    &&& final(self).cursor_row == row
                    &&& final(self).cursor_col == col
                    &&& final(self).is_dirty == old(self).is_dirty
                }
            }),
    {
        if self.cursor_row >= self.content.len() {
            return;
        }
        let row = self.cursor_row;
        let mut cs = chars_of(self.content[row].as_str());
        if self.cursor_col > 0 && self.cursor_col <= cs.len() {
            cs.remove(self.cursor_col - 1);
            self.content.set(row, string_of(&cs));
            self.cursor_col = self.cursor_col - 1;
            self.is_dirty = true;
            assert(self.lines() =~= old(self).lines().update(
                row as int,
                old(self).lines()[row as int].remove(old(self).cursor_col - 1),
            ));
        } else if self.cursor_col == 0 && row > 0 {
            let current_line = self.content.remove(row);
            self.cursor_row = row - 1;
            let mut prev = chars_of(self.content[row - 1].as_str());
            self.cursor_col = prev.len();
            let mut cur = chars_of(current_line.as_str());
            prev.append(&mut cur);
            self.content.set(row - 1, string_of(&prev));
            self.is_dirty = true;
            let ghost ls = old(self).lines();
            assert(self.lines() =~= ls.update(row - 1, ls[row - 1] + ls[row as int]).remove(row as int));
        }
    }

    /// Moves one character left, onto the end of the previous line from a line start.
    pub fn move_cursor_left(&mut self)
        requires
            old(self).wf(),
        ensures
            final(self).wf(),
            final(self).same_text(old(self)),
            final(self).scroll_offset == old(self).scroll_offset,
            old(self).cursor_col > 0 ==> final(self).cursor_row == old(self).cursor_row && final(self).cursor_col
                == old(self).cursor_col - 1,
            old(self).cursor_col == 0 && old(self).cursor_row > 0 ==> final(self).cursor_row == old(self).cursor_row
                - 1 && final(self).cursor_col == old(self).lines()[old(self).cursor_row - 1].len(),
            old(self).cursor_col == 0 && old(self).cursor_row == 0 ==> final(self).cursor_row == 0
                && final(self).cursor_col == 0,
    {
        if self.cursor_col > 0 {
            self.cursor_col = self.cursor_col - 1;
        } else if self.cursor_row > 0 {
            self.cursor_row = self.cursor_row - 1;
            self.cursor_col = self.line_len(self.cursor_row);
        }
    }

    /// Moves one character right, onto the start of the next line from a line end.
    pub fn move_cursor_right(&mut self)
        requires
            old(self).wf(),
        ensures
            final(self).wf(),
            final(self).same_text(old(self)),
            final(self).scroll_offset == old(self).scroll_offset,
            ({
                let row = old(self).cursor_row as int;
                let col = old(self).cursor_col as int;
                if col < old(self).lines()[row].len() {
                    final(self).cursor_row == row && final(self).cursor_col == col + 1
                } else if row < old(self).lines().len() - 1 {
                    final(self).cursor_row == row + 1 && final(self).cursor_col == 0
                } else {
                    final(self).cursor_row == row && final(self).cursor_col == col
                }
            }),
    {
        if self.cursor_row < self.content.len() {
            let line_len = self.line_len(self.cursor_row);
            if self.cursor_col < line_len {
                self.cursor_col = self.cursor_col + 1;
            } else if self.cursor_row < self.content.len() - 1 {
                self.cursor_row = self.cursor_row + 1;
                self.cursor_col = 0;
            }
        }
    }

    /// Moves one line up, keeping the column within the line, and scrolls it into view.
    pub fn move_cursor_up(&mut self)
        requires
            old(self).wf(),
        ensures
            final(self).wf(),
            final(self).same_text(old(self)),
            old(self).cursor_row > 0 ==> {
                &&& final(self).cursor_row == old(self).cursor_row - 1
                &&& final(self).cursor_col == min(
                    old(self).cursor_col as int,
                    old(self).lines()[old(self).cursor_row - 1].len() as int,
                )
                &&& final(self).scroll_offset == scrolled(
                    final(self).cursor_row as int,
                    old(self).scroll_offset as int,
                    DEFAULT_VISIBLE_HEIGHT as int,
                )
            },
            old(self).cursor_row == 0 ==> *final(self) == *old(self),
    {
        if self.cursor_row > 0 {
            self.cursor_row = self.cursor_row - 1;
            let line_len = self.line_len(self.cursor_row);
            if self.cursor_col > line_len {
                self.cursor_col = line_len;
            }
            self.adjust_scroll();
        }
    }

    /// Moves one line down, keeping the column within the line, and scrolls it into view.
    pub fn move_cursor_down(&mut self)
        requires
            old(self).wf(),
        ensures
            final(self).wf(),
            final(self).same_text(old(self)),
            old(self).cursor_row < old(self).lines().len() - 1 ==> {
                &&& final(self).cursor_row == old(self).cursor_row + 1
                &&& final(self).cursor_col == min(
                    old(self).cursor_col as int,
                    old(self).lines()[old(self).cursor_row + 1].len() as int,
                )
                &&& final(self).scroll_offset == scrolled(
                    final(self).cursor_row as int,
                    old(self).scroll_offset as int,
                    DEFAULT_VISIBLE_HEIGHT as int,
                )
            },
            old(self).cursor_row == old(self).lines().len() - 1 ==> *final(self) == *old(self),
    {
        if self.cursor_row < self.content.len() - 1 {
            self.cursor_row = self.cursor_row + 1;
            let line_len = self.line_len(self.cursor_row);
            if self.cursor_col > line_len {
                self.cursor_col = line_len;
            }
            self.adjust_scroll();
        }
    }

    /// Scrolls up one line, if not at the top.
    pub fn scroll_up(&mut self)
        ensures
            final(self).same_text(old(self)),
            final(self).cursor_row == old(self).cursor_row,
            final(self).cursor_col == old(self).cursor_col,
            final(self).scroll_offset == if old(self).scroll_offset > 0 {
                old(self).scroll_offset - 1
            } else {
                0
            },
    {
        if self.scroll_offset > 0 {
            self.scroll_offset = self.scroll_offset - 1;
        }
    }

    /// Scrolls down one line, while lines remain below a window of `visible_height` rows.
    pub fn scroll_down(&mut self, visible_height: usize)
        ensures
            final(self).same_text(old(self)),
            final(self).cursor_row == old(self).cursor_row,
            final(self).cursor_col == old(self).cursor_col,
            ({
                let max_scroll = if old(self).content.len() > visible_height {
                    old(self).content.len() - visible_height
                } else {
                    0
                };
                final(self).scroll_offset == if old(self).scroll_offset < max_scroll {
                    old(self).scroll_offset + 1
                } else {
                    old(self).scroll_offset as int
                }
            }),
    {
        let max_scroll = if self.content.len() > visible_height {
            self.content.len() - visible_height
        } else {
            0
        };
        if self.scroll_offset < max_scroll {
            self.scroll_offset = self.scroll_offset + 1;
        }
    }

    /// Moves up a page of `visible_height` rows (to the first line at most).
    pub fn page_up(&mut self, visible_height: usize)
        requires
            old(self).wf(),
        ensures
            final(self).wf(),
            final(self).same_text(old(self)),
            final(self).cursor_row == if old(self).cursor_row >= visible_height {
                old(self).cursor_row - visible_height
            } else {
                0
            },
            final(self).cursor_col == min(
                old(self).cursor_col as int,
                old(self).lines()[final(self).cursor_row as int].len() as int,
            ),
            final(self).scroll_offset == scrolled(
                final(self).cursor_row as int,
                old(self).scroll_offset as int,
                DEFAULT_VISIBLE_HEIGHT as int,
            ),
    {
        if self.cursor_row >= visible_height {
            self.cursor_row = self.cursor_row - visible_height;
        } else {
            self.cursor_row = 0;
        }
        let line_len = self.line_len(self.cursor_row);
        if self.cursor_col > line_len {
            self.cursor_col = line_len;
        }
        self.adjust_scroll();
    }

    /// Moves down a page of `visible_height` rows (to the last line at most).
    pub fn page_down(&mut self, visible_height: usize)
        requires
            old(self).wf(),
        ensures
            final(self).wf(),
            final(self).same_text(old(self)),
            final(self).cursor_row == if old(self).cursor_row + visible_height < old(self).content.len() {
                old(self).cursor_row + visible_height
            } else {
                old(self).content.len() - 1
            },
            final(self).cursor_col == min(
                old(self).cursor_col as int,
                old(self).lines()[final(self).cursor_row as int].len() as int,
            ),
            final(self).scroll_offset == scrolled(
                final(self).cursor_row as int,
                old(self).scroll_offset as int,
                DEFAULT_VISIBLE_HEIGHT as int,
            ),
    {
        if visible_height < self.content.len() - self.cursor_row {
            self.cursor_row = self.cursor_row + visible_height;
        } else {
            self.cursor_row = self.content.len() - 1;
        }
        let line_len = self.line_len(self.cursor_row);
        if self.cursor_col > line_len {
            self.cursor_col = line_len;
        }
        self.adjust_scroll();
    }

    /// Moves to the start of the line.
    pub fn move_to_start_of_line(&mut self)
        ensures
            final(self).same_text(old(self)),
            final(self).cursor_row == old(self).cursor_row,
            final(self).cursor_col == 0,
            final(self).scroll_offset == old(self).scroll_offset,
    {
        self.cursor_col = 0;
    }

    /// Moves to the end of the line.
    pub fn move_to_end_of_line(&mut self)
        requires
            old(self).wf(),
        ensures
            final(self).wf(),
            final(self).same_text(old(self)),
            final(self).cursor_row == old(self).cursor_row,
            final(self).cursor_col == old(self).lines()[old(self).cursor_row as int].len(),
            final(self).scroll_offset == old(self).scroll_offset,
    {
        if self.cursor_row < self.content.len() {
            self.cursor_col = self.line_len(self.cursor_row);
        }
    }

    /// Keeps the cursor row within the default window.
    fn adjust_scroll(&mut self)
        requires
            old(self).wf(),
        ensures
            final(self).wf(),
            final(self).same_text(old(self)),
            final(self).cursor_row == old(self).cursor_row,
            final(self).cursor_col == old(self).cursor_col,
            final(self).scroll_offset == scrolled(
                old(self).cursor_row as int,
                old(self).scroll_offset as int,
                DEFAULT_VISIBLE_HEIGHT as int,
            ),
    {
        self.adjust_scroll_with_height(DEFAULT_VISIBLE_HEIGHT);
    }

    /// Keeps the cursor row within a window of `visible_height` rows.
    pub fn adjust_scroll_with_height(&mut self, visible_height: usize)
        requires
            old(self).wf(),
        ensures
            final(self).wf(),
            final(self).same_text(old(self)),
            final(self).cursor_row == old(self).cursor_row,
            final(self).cursor_col == old(self).cursor_col,
            final(self).scroll_offset == scrolled(
                old(self).cursor_row as int,
                old(self).scroll_offset as int,
                visible_height as int,
            ),
    {
        if self.cursor_row < self.scroll_offset {
            self.scroll_offset = self.cursor_row;
        } else if self.cursor_row - self.scroll_offset >= visible_height {
            self.scroll_offset = self.cursor_row - visible_height + 1;
        }
    }

    /// The text: the lines joined with line feeds.
    pub fn get_content(&self) -> (r: String)
        ensures
            r@ == join_lines(self.lines()),
    {
        let mut out: Vec<char> = Vec::new();
        let mut i: usize = 0;
        while i < self.content.len()
            invariant
                i <= self.content.len(),
                out@ == join_lines(self.lines().take(i as int)),
            decreases self.content.len() - i,
        {
            proof {
                assert(self.lines().take(i + 1).drop_last() =~= self.lines().take(i as int));
            }
            if i > 0 {
                out.push('\n');
            }
            let mut line = chars_of(self.content[i].as_str());
            out.append(&mut line);
            assert(out@ =~= join_lines(self.lines().take(i + 1)));
            i = i + 1;
        }
        assert(self.lines().take(self.content.len() as int) =~= self.lines());
        string_of(&out)
    }
}

proof fn lemma_lines_nonempty(s: Seq<char>)
    requires
        s.len() > 0,
    ensures
        lines_of(s).len() >= 1,
{
    let st = scan_lines(s);
    if s.last() == '\n' {
        assert(st.0.len() >= 1);
    } else {
        assert(st.1.len() >= 1);
    }
}

} // verus!
