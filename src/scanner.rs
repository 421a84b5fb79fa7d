use vstd::prelude::*;
use crate::token::{CARRIAGE_RETURN_BYTE, NEWLINE_BYTE, SLASH_BYTE, SPACE_BYTE, TAB_BYTE};

verus! {

/// Space, tab, carriage return and newline: text between lexemes.
pub open spec fn is_blank(c: u8) -> bool {
    c == SPACE_BYTE || c == TAB_BYTE || c == CARRIAGE_RETURN_BYTE || c == NEWLINE_BYTE
}

/// Whether a line comment (two slashes) starts at `pos`.
pub open spec fn comment_starts_at(buf: Seq<u8>, pos: int) -> bool {
    0 <= pos && pos + 1 < buf.len() && buf[pos] == SLASH_BYTE && buf[pos + 1] == SLASH_BYTE
}

/// The number of newline characters among the first `k` bytes of `buf`.
pub open spec fn newlines_before(buf: Seq<u8>, k: int) -> nat
    decreases k,
{
    if k <= 0 {
        0
    } else {
        newlines_before(buf, k - 1) + if buf[k - 1] == NEWLINE_BYTE {
            1nat
        } else {
            0nat
        }
    }
}

/// The 1-based line on which the byte at offset `k` stands.
pub open spec fn line_at(buf: Seq<u8>, k: int) -> nat {
    1 + newlines_before(buf, k)
}

/// Where the insignificant text (blanks and line comments) that begins at
/// `pos` ends; `in_comment` says that `pos` lies inside a line comment.
pub open spec fn skip_from(buf: Seq<u8>, pos: int, in_comment: bool) -> int
    decreases buf.len() - pos,
{
    if pos < 0 || pos >= buf.len() {
        pos
    } else if in_comment {
        skip_from(buf, pos + 1, buf[pos] != NEWLINE_BYTE)
    } else if is_blank(buf[pos]) {
        skip_from(buf, pos + 1, false)
    } else if comment_starts_at(buf, pos) {
        skip_from(buf, pos + 2, true)
    } else {
        pos
    }
}

/// The first offset at or after `pos` that is neither blank nor inside a
/// line comment (the length of `buf` where there is none).
pub open spec fn skip_end(buf: Seq<u8>, pos: int) -> int {
    skip_from(buf, pos, false)
}

/// Skipping ends between `pos` and the end of the buffer, on a byte that is
/// neither blank nor the start of a comment.
pub proof fn lemma_skip_from(buf: Seq<u8>, pos: int, in_comment: bool)
    requires
        0 <= pos <= buf.len(),
    ensures
        pos <= skip_from(buf, pos, in_comment) <= buf.len(),
        skip_from(buf, pos, in_comment) < buf.len() ==> {
            let s = skip_from(buf, pos, in_comment);
            !is_blank(buf[s]) && !comment_starts_at(buf, s)
        },
    decreases buf.len() - pos,
{
    if pos < buf.len() {
        if in_comment {
            lemma_skip_from(buf, pos + 1, buf[pos] != NEWLINE_BYTE);
        } else if is_blank(buf[pos]) {
            lemma_skip_from(buf, pos + 1, false);
        } else if comment_starts_at(buf, pos) {
            lemma_skip_from(buf, pos + 2, true);
        }
    }
}

/// The cursor state over one immutable source buffer.
pub struct Scanner {
    /// Offset where the lexeme being recognized began.
    pub start: usize,
    /// Offset of the next unread byte.
    pub current: usize,
    /// Current 1-based line.
    pub line: usize,
    /// The source text, as bytes.
    pub buffer: Vec<u8>,
}

impl Scanner {
    /// The cursors lie within the buffer, and the line counter is at least 1
    /// and at most one more than the bytes read.
    pub open spec fn wf(&self) -> bool {
        &&& self.buffer@.len() < usize::MAX
        &&& self.start <= self.current <= self.buffer@.len()
        &&& 1 <= self.line <= self.current + 1
    }

    /// No byte is left to read.
    pub open spec fn at_end(&self) -> bool {
        self.current >= self.buffer@.len()
    }

    /// Reads the byte at the cursor and moves past it.
    pub fn advance(&mut self) -> (c: u8)
        requires
            old(self).wf(),
            !old(self).at_end(),
        ensures
            c == old(self).buffer@[old(self).current as int],
            final(self).current == old(self).current + 1,
            final(self).start == old(self).start,
            final(self).line == old(self).line,
            final(self).buffer@ == old(self).buffer@,
            final(self).wf(),
    {
        let c = self.buffer[self.current];
        self.current = self.current + 1;
        c
    }

    /// Whether the whole buffer has been read (true for an empty buffer).
    pub fn is_at_end(&self) -> (r: bool)
        ensures
            r == self.at_end(),
    {
        self.current >= self.buffer.len()
    }

    /// Consumes the byte at the cursor when it is `expected`, and says so.
    pub fn match_next(&mut self, expected: u8) -> (r: bool)
        requires
            old(self).wf(),
        ensures
            r == (!old(self).at_end() && old(self).buffer@[old(self).current as int] == expected),
            final(self).current == if r {
                old(self).current + 1
            } else {
                old(self).current as int
            },
            final(self).start == old(self).start,
            final(self).line == old(self).line,
            final(self).buffer@ == old(self).buffer@,
            final(self).wf(),
    {
        if self.is_at_end() {
            return false;
        }
        if self.buffer[self.current] != expected {
            return false;
        }
        self.current = self.current + 1;
        true
    }

    /// The byte at the cursor, left unread.
    pub fn peek(&self) -> (c: u8)
        requires
            self.wf(),
            !self.at_end(),
        ensures
            c == self.buffer@[self.current as int],
    {
        self.buffer[self.current]
    }

    /// The byte after the one at the cursor, or `None` where that offset is
    /// past the end of the buffer.
    pub fn peek_next(&self) -> (c: Option<u8>)
        requires
            self.wf(),
        ensures
            c == if self.current + 1 < self.buffer@.len() {
                Some(self.buffer@[self.current + 1])
            } else {
                None::<u8>
            },
    {
        if self.current + 1 >= self.buffer.len() {
            return None;
        }
        Some(self.buffer[self.current + 1])
    }

    /// Moves the cursor past blanks and line comments, counting the newlines
    /// it passes. A comment ends before its newline, or at the end of input.
    pub fn skip_whitespaces(&mut self)
        requires
            old(self).wf(),
        ensures
            final(self).wf(),
            final(self).buffer@ == old(self).buffer@,
            final(self).start == old(self).start,
            final(self).current == skip_end(old(self).buffer@, old(self).current as int),
            final(self).line == old(self).line + newlines_before(old(self).buffer@, final(self).current as int)
                - newlines_before(old(self).buffer@, old(self).current as int),
    {
        let ghost buf = self.buffer@;
        let ghost cur0 = self.current as int;
        let ghost line0 = self.line as int;
        let ghost start0 = self.start;
        let ghost target = skip_end(buf, cur0);
        loop
            invariant
                self.wf(),
                self.buffer@ == buf,
                self.start == start0,
                cur0 <= self.current,
                skip_end(buf, self.current as int) == target,
                self.line == line0 + newlines_before(buf, self.current as int) - newlines_before(buf, cur0),
            ensures
                self.wf(),
                self.buffer@ == buf,
                self.start == start0,
                self.current == target,
                self.line == line0 + newlines_before(buf, self.current as int) - newlines_before(buf, cur0),
            decreases buf.len() - self.current,
        {
            if self.is_at_end() {
                break;
            }
            let ghost before = self.current;
            let c = self.peek();
            if c == NEWLINE_BYTE {
                self.advance();
                self.line = self.line + 1;
            } else if c == SPACE_BYTE || c == TAB_BYTE || c == CARRIAGE_RETURN_BYTE {
                self.advance();
            } else if c == SLASH_BYTE && self.peek_next() == Some(SLASH_BYTE) {
                self.advance();
                assert(newlines_before(buf, self.current as int) == newlines_before(buf, self.current - 1));
                self.advance();
                assert(newlines_before(buf, self.current as int) == newlines_before(buf, self.current - 1));
                while !self.is_at_end() && self.peek() != NEWLINE_BYTE
                    invariant
                        self.wf(),
                        self.buffer@ == buf,
                        self.start == start0,
                        cur0 <= self.current,
                        before < self.current,
                        skip_from(buf, self.current as int, true) == target,
                        self.line == line0 + newlines_before(buf, self.current as int) - newlines_before(buf, cur0),
                    decreases buf.len() - self.current,
                {
                    self.advance();
                }
            } else {
                break;
            }
        }
    }
}

} // verus!
