//! Repair of text that is nearly JSON, so that a strict parser can take it.

use vstd::prelude::*;
use crate::pattern::{replace_all, replaced};
use crate::text::push_char;

verus! {

/// The byte-order mark.
pub const BOM: char = '\u{feff}';

/// Control characters other than tab, line feed and carriage return.
pub const CONTROL_CHARS: &'static str = r"[\x00-\x08\x0B\x0C\x0E-\x1F\x7F]";

/// A comment that runs from `//` to the end of its line.
pub const LINE_COMMENT: &'static str = r"//[^\n\r]*";

/// A comment between `/*` and the next `*/`, over any number of lines.
pub const BLOCK_COMMENT: &'static str = r"(?s)/\*.*?\*/";

/// A comma that only white space parts from a closing brace or bracket.
pub const TRAILING_COMMA: &'static str = r",\s*([}\]])";

/// What replaces a trailing comma: the closing brace or bracket alone.
pub const CLOSER_ONLY: &'static str = "$1";

/// Where the scan of a text stands with respect to string literals.
#[derive(Debug, Clone, Copy, PartialEq, Eq, Structural)]
pub enum ScanState {
    /// Not in a string literal.
    Outside,
    /// In a string literal, the last character was no unfinished backslash.
    InsideString,
    /// In a string literal, right behind a backslash.
    Escaped,
}

/// The state after reading `c` in state `state`.
pub open spec fn next_state(state: ScanState, c: char) -> ScanState {
    match state {
        ScanState::Outside => if c == '"' {
            ScanState::InsideString
        } else {
            ScanState::Outside
        },
        ScanState::InsideString => if c == '\\' {
            ScanState::Escaped
        } else if c == '"' {
            ScanState::Outside
        } else {
            ScanState::InsideString
        },
        ScanState::Escaped => ScanState::InsideString,
    }
}

/// What is written for `c` read in state `state`: in a string literal a line
/// feed becomes a backslash and `n` and a carriage return is dropped; every
/// other character is written as it is.
pub open spec fn emitted(state: ScanState, c: char) -> Seq<char> {
    if state == ScanState::InsideString && c == '\n' {
        seq!['\\', 'n']
    } else if state == ScanState::InsideString && c == '\r' {
        Seq::empty()
    } else {
        seq![c]
    }
}

/// What is written for the whole of `s`, read from state `state`.
pub open spec fn escaped_from(state: ScanState, s: Seq<char>) -> Seq<char>
    decreases s.len(),
{
    if s.len() == 0 {
        Seq::empty()
    } else {
        emitted(state, s[0]) + escaped_from(next_state(state, s[0]), s.drop_first())
    }
}

/// `s` with the raw line breaks inside its string literals escaped.
pub open spec fn escaped(s: Seq<char>) -> Seq<char> {
    escaped_from(ScanState::Outside, s)
}

/// One step of the scan: the state after `c`.
pub fn advance(state: ScanState, c: char) -> (out: ScanState)
    ensures
        out == next_state(state, c),
{
    match state {
        ScanState::Outside => if c == '"' {
            ScanState::InsideString
        } else {
            ScanState::Outside
        },
        ScanState::InsideString => if c == '\\' {
            ScanState::Escaped
        } else if c == '"' {
            ScanState::Outside
        } else {
            ScanState::InsideString
        },
        ScanState::Escaped => ScanState::InsideString,
    }
}

/// Escapes the raw line breaks inside the string literals of `s`.
pub fn escape_raw_newlines(s: &str) -> (out: String)
    ensures
        out@ == escaped(s@),
{
    let mut out = String::new();
    let mut state = ScanState::Outside;
    assert(s@.skip(0) =~= s@);
    assert(out@ + escaped(s@) =~= escaped(s@));
    for c in it: s.chars()
        invariant
            it.seq() == s@,
            escaped(s@) == out@ + escaped_from(state, s@.skip(it.index() as int)),
    {
        proof {
            let rest = s@.skip(it.index() as int);
            assert(rest[0] == c);
            assert(rest.drop_first() =~= s@.skip(it.index() + 1));
        }
        let ghost before = out@;
        let ghost was = state;
        match state {
            ScanState::InsideString => {
                if c == '\n' {
                    push_char(&mut out, '\\');
                    push_char(&mut out, 'n');
                } else if c != '\r' {
                    push_char(&mut out, c);
                }
            },
            _ => {
                push_char(&mut out, c);
            },
        }
        assert(out@ =~= before + emitted(was, c));
        state = advance(state, c);
        assert(out@ + escaped_from(state, s@.skip(it.index() + 1)) =~= before + (emitted(was, c)
            + escaped_from(state, s@.skip(it.index() + 1))));
    }
    assert(s@.skip(s@.len() as int) =~= Seq::<char>::empty());
    out
}

/// `s` without one leading byte-order mark.
pub open spec fn without_bom(s: Seq<char>) -> Seq<char> {
    if s.len() > 0 && s[0] == BOM {
        s.drop_first()
    } else {
        s
    }
}

/// Drops one leading byte-order mark.
pub fn strip_bom(s: &str) -> (out: String)
    ensures
        out@ == without_bom(s@),
{
    let mut out = String::new();
    let ghost start: int = if s@.len() > 0 && s@[0] == BOM {
        1
    } else {
        0
    };
    let mut at_start = true;
    assert(out@ =~= s@.subrange(0, 0));
    for c in it: s.chars()
        invariant
            it.seq() == s@,
            at_start == (it.index() == 0),
            0 <= start <= 1,
            start == 1 <==> s@.len() > 0 && s@[0] == BOM,
            out@ == s@.subrange(
                if it.index() < start {
                    it.index() as int
                } else {
                    start
                },
                it.index() as int,
            ),
    {
        let ghost before = out@;
        if !(at_start && c == BOM) {
            push_char(&mut out, c);
            assert(out@ =~= s@.subrange(start, it.index() + 1));
        } else {
            assert(out@ =~= s@.subrange(1, 1));
        }
        at_start = false;
    }
    assert(out@ =~= without_bom(s@));
    out
}

/// The repaired text, step by step: the byte-order mark, control characters,
/// line comments, block comments and trailing commas go, in this order, and
/// then the raw line breaks inside string literals are escaped. Only the last
/// step knows of string literals.
pub open spec fn sanitized(s: Seq<char>) -> Seq<char> {
    let plain = replaced(CONTROL_CHARS@, without_bom(s), ""@);
    let no_line_comments = replaced(LINE_COMMENT@, plain, ""@);
    let no_comments = replaced(BLOCK_COMMENT@, no_line_comments, ""@);
    let no_trailing_commas = replaced(TRAILING_COMMA@, no_comments, CLOSER_ONLY@);
    escaped(no_trailing_commas)
}

/// Repairs text that is nearly JSON.
pub fn sanitize_json(txt: &str) -> (out: String)
    ensures
        out@ == sanitized(txt@),
{
    let txt = strip_bom(txt);
    let txt = replace_all(CONTROL_CHARS, txt.as_str(), "");
    let txt = replace_all(LINE_COMMENT, txt.as_str(), "");
    let txt = replace_all(BLOCK_COMMENT, txt.as_str(), "");
    let txt = replace_all(TRAILING_COMMA, txt.as_str(), CLOSER_ONLY);
    escape_raw_newlines(txt.as_str())
}

} // verus!
