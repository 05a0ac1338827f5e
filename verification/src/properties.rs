//! The version of a pack, as a file of properties states it under the key
//! `packVersion`.

use vstd::prelude::*;
use crate::text::{
    chars_of, contains, contains_text, has_prefix, is_whitespace, join_lines, joined,
    lemma_leading_space, replace_text, starts_with, string_of, substituted, text_views,
    trim_chars, trimmed, white_space, without_leading_space,
};

verus! {

/// The key and the sign that parts it from the value.
pub const VERSION_KEY: &'static str = "packVersion=";

/// The mark of a comment.
pub const COMMENT: char = '#';

/// Index of the first line feed of `s`, or its length where it has none.
pub open spec fn line_end(s: Seq<char>) -> int
    decreases s.len(),
{
    if s.len() == 0 || s[0] == '\n' {
        0
    } else {
        1 + line_end(s.drop_first())
    }
}

/// `s` without one trailing carriage return.
pub open spec fn without_cr(s: Seq<char>) -> Seq<char> {
    if s.len() > 0 && s.last() == '\r' {
        s.drop_last()
    } else {
        s
    }
}

/// The lines of `s`: it is split at each line feed, a carriage return before
/// the line feed goes with it, and what follows the last line feed is a line
/// only where it is not empty.
pub open spec fn lines(s: Seq<char>) -> Seq<Seq<char>>
    decreases s.len(),
{
    if s.len() == 0 {
        Seq::empty()
    } else if line_end(s) < 0 || line_end(s) >= s.len() {
        seq![s]
    } else {
        seq![without_cr(s.take(line_end(s)))] + lines(s.skip(line_end(s) + 1))
    }
}

/// The end of the first line lies within the text, at a line feed if at all.
pub proof fn lemma_line_end(s: Seq<char>)
    ensures
        0 <= line_end(s) <= s.len(),
        line_end(s) < s.len() ==> s[line_end(s)] == '\n',
        forall|i: int| 0 <= i < line_end(s) ==> s[i] != '\n',
    decreases s.len(),
{
    if s.len() > 0 && s[0] != '\n' {
        let rest = s.drop_first();
        lemma_line_end(rest);
        assert forall|i: int| 0 <= i < line_end(s) implies s[i] != '\n' by {
            if i > 0 {
                assert(rest[i - 1] == s[i]);
            }
        }
    }
}

/// Where no line feed stands before `end`, the first line ends there or later.
proof fn lemma_line_end_at(s: Seq<char>, end: int)
    requires
        0 <= end <= s.len(),
        forall|i: int| 0 <= i < end ==> s[i] != '\n',
        end == s.len() || s[end] == '\n',
    ensures
        line_end(s) == end,
    decreases end,
{
    if end > 0 {
        let rest = s.drop_first();
        assert forall|i: int| 0 <= i < end - 1 implies rest[i] != '\n' by {
            assert(rest[i] == s[i + 1]);
        }
        lemma_line_end_at(rest, end - 1);
    }
}

/// The views of a sequence of lines held as characters.
pub open spec fn line_views(v: Seq<Vec<char>>) -> Seq<Seq<char>> {
    v.map_values(|l: Vec<char>| l@)
}

/// Splits a text into its lines.
pub fn split_lines(text: &Vec<char>) -> (out: Vec<Vec<char>>)
    ensures
        line_views(out@) == lines(text@),
{
    let mut out: Vec<Vec<char>> = Vec::new();
    let mut start: usize = 0;
    assert(text@.skip(0) =~= text@);
    assert(line_views(out@) + lines(text@) =~= lines(text@));
    while start < text.len()
        invariant
            start <= text.len(),
            lines(text@) == line_views(out@) + lines(text@.skip(start as int)),
        decreases text.len() - start,
    {
        let ghost rest = text@.skip(start as int);
        let ghost before = line_views(out@);
        let mut end: usize = start;
        while end < text.len() && text[end] != '\n'
            invariant
                start <= end <= text.len(),
                forall|i: int| start <= i < end ==> text@[i] != '\n',
            decreases text.len() - end,
        {
            end += 1;
        }
        proof {
            assert forall|i: int| 0 <= i < end - start implies rest[i] != '\n' by {
                assert(rest[i] == text@[start + i]);
            }
            if end < text.len() {
                assert(rest[end - start] == text@[end as int]);
            }
            lemma_line_end_at(rest, end - start);
        }
        let mut stop: usize = end;
        if end < text.len() && end > start && text[end - 1] == '\r' {
            stop = end - 1;
        }
        let mut line: Vec<char> = Vec::new();
        let mut i: usize = start;
        while i < stop
            invariant
                start <= i <= stop,
                stop <= text.len(),
                line@ == text@.subrange(start as int, i as int),
            decreases stop - i,
        {
            line.push(text[i]);
            assert(text@.subrange(start as int, i + 1) =~= text@.subrange(
                start as int,
                i as int,
            ).push(text@[i as int]));
            i += 1;
        }
        proof {
            lemma_line_end(rest);
            let first = rest.take(end - start);
            assert(first =~= text@.subrange(start as int, end as int));
            if end < text.len() {
                if end > start {
                    assert(first.last() == text@[end - 1]);
                }
                assert(line@ =~= without_cr(first));
                assert(rest.skip(end - start + 1) =~= text@.skip(end + 1));
            } else {
                assert(line@ =~= rest);
                assert(text@.skip(text@.len() as int) =~= Seq::<char>::empty());
            }
        }
        out.push(line);
        proof {
            assert(line_views(out@) =~= before.push(line@));
            if end < text.len() {
                assert(before.push(line@) + lines(text@.skip(end + 1)) =~= before + (seq![line@]
                    + lines(text@.skip(end + 1))));
            } else {
                assert(before.push(line@) + lines(text@.skip(text@.len() as int)) =~= before
                    + seq![line@]);
            }
        }
        if end < text.len() {
            start = end + 1;
        } else {
            start = end;
        }
    }
    assert(text@.skip(text@.len() as int) =~= Seq::<char>::empty());
    assert(line_views(out@) + Seq::<Seq<char>>::empty() =~= line_views(out@));
    out
}

/// Whether a trimmed line is a comment.
pub open spec fn is_comment(t: Seq<char>) -> bool {
    t.len() > 0 && t[0] == COMMENT
}

/// Whether a line, its leading white space aside, states the version.
pub open spec fn states_version(t: Seq<char>) -> bool {
    !is_comment(t) && starts_with(t, VERSION_KEY@)
}

/// The version that one line states: what follows the key, trimmed.
pub open spec fn stated_version(line: Seq<char>) -> Option<Seq<char>> {
    if states_version(trimmed(line)) {
        Some(trimmed(trimmed(line).skip(VERSION_KEY@.len() as int)))
    } else {
        None
    }
}

/// The version that the first line to state one states.
pub open spec fn first_stated(ls: Seq<Seq<char>>) -> Option<Seq<char>>
    decreases ls.len(),
{
    if ls.len() == 0 {
        None
    } else {
        match stated_version(ls[0]) {
            Some(v) => Some(v),
            None => first_stated(ls.drop_first()),
        }
    }
}

/// The version of the pack that a file of properties states.
pub open spec fn pack_version(text: Seq<char>) -> Option<Seq<char>> {
    first_stated(lines(text))
}

/// The characters from `from` on.
fn tail_of(chars: &Vec<char>, from: usize) -> (out: Vec<char>)
    requires
        from <= chars.len(),
    ensures
        out@ == chars@.skip(from as int),
{
    let mut out: Vec<char> = Vec::new();
    let mut i: usize = from;
    while i < chars.len()
        invariant
            from <= i <= chars.len(),
            out@ == chars@.subrange(from as int, i as int),
        decreases chars.len() - i,
    {
        out.push(chars[i]);
        assert(chars@.subrange(from as int, i + 1) =~= chars@.subrange(
            from as int,
            i as int,
        ).push(chars@[i as int]));
        i += 1;
    }
    assert(chars@.subrange(from as int, chars@.len() as int) =~= chars@.skip(from as int));
    out
}

/// Whether a line, its leading white space aside, states the version.
fn line_states_version(t: &Vec<char>, key: &Vec<char>) -> (out: bool)
    requires
        key@ == VERSION_KEY@,
    ensures
        out == states_version(t@),
{
    if t.len() > 0 && t[0] == COMMENT {
        return false;
    }
    has_prefix(t, key)
}

/// Reads the version of the pack out of the text of a file of properties.
pub fn pack_version_in(text: &str) -> (out: Option<String>)
    ensures
        match out {
            Some(v) => pack_version(text@) == Some(v@),
            None => pack_version(text@) is None,
        },
{
    let all = split_lines(&chars_of(text));
    let key = chars_of(VERSION_KEY);
    let ghost ls = lines(text@);
    let mut i: usize = 0;
    assert(ls.skip(0) =~= ls);
    while i < all.len()
        invariant
            i <= all.len(),
            ls == line_views(all@),
            ls == lines(text@),
            key@ == VERSION_KEY@,
            first_stated(ls) == first_stated(ls.skip(i as int)),
        decreases all.len() - i,
    {
        proof {
            assert(ls.skip(i as int)[0] == all@[i as int]@);
            assert(ls.skip(i as int).drop_first() =~= ls.skip(i + 1));
        }
        let t = trim_chars(&all[i]);
        if line_states_version(&t, &key) {
            let value = trim_chars(&tail_of(&t, key.len()));
            return Some(string_of(&value));
        }
        i += 1;
    }
    assert(ls.skip(all@.len() as int) =~= Seq::<Seq<char>>::empty());
    None
}

/// The leading white space of a line.
pub open spec fn indent(line: Seq<char>) -> Seq<char> {
    line.take(line.len() - without_leading_space(line).len())
}

/// The line that states `version` under the indentation of `line`.
pub open spec fn restated(line: Seq<char>, version: Seq<char>) -> Seq<char> {
    indent(line) + VERSION_KEY@ + trimmed(version)
}

/// Index of the first line that states the version, or -1 where none does.
pub open spec fn first_version_line(ls: Seq<Seq<char>>) -> int
    decreases ls.len(),
{
    if ls.len() == 0 {
        -1
    } else if states_version(without_leading_space(ls.last())) && first_version_line(
        ls.drop_last(),
    ) < 0 {
        ls.len() - 1
    } else {
        first_version_line(ls.drop_last())
    }
}

/// The text of a file of properties with the version `version` in place of
/// the one stated: the first line that states a version is written anew under
/// its own indentation, the lines are joined by line feeds, and where the
/// text had a carriage return before a line feed every line feed gets one.
/// There is none where no line states a version.
pub open spec fn with_version(text: Seq<char>, version: Seq<char>) -> Option<Seq<char>> {
    let ls = lines(text);
    let at = first_version_line(ls);
    if at < 0 || at >= ls.len() {
        None
    } else {
        let merged = joined(ls.update(at, restated(ls[at], version)));
        Some(
            if contains_text(text, "\r\n"@) {
                substituted(merged, "\n"@, "\r\n"@)
            } else {
                merged
            },
        )
    }
}

/// Where the first line that states a version stands.
pub proof fn lemma_first_version_line(ls: Seq<Seq<char>>)
    ensures
        -1 <= first_version_line(ls) < ls.len(),
        first_version_line(ls) >= 0 ==> states_version(
            without_leading_space(ls[first_version_line(ls)]),
        ),
        forall|i: int|
            0 <= i < ls.len() && (first_version_line(ls) < 0 || i < first_version_line(ls))
                ==> !states_version(without_leading_space(#[trigger] ls[i])),
    decreases ls.len(),
{
    if ls.len() > 0 {
        let front = ls.drop_last();
        lemma_first_version_line(front);
        assert forall|i: int|
            0 <= i < ls.len() && (first_version_line(ls) < 0 || i < first_version_line(ls))
                implies !states_version(without_leading_space(#[trigger] ls[i])) by {
            if i < front.len() {
                assert(front[i] == ls[i]);
            }
        }
        if first_version_line(front) >= 0 {
            assert(front[first_version_line(front)] == ls[first_version_line(front)]);
        }
    }
}

/// Writes a line anew with the version `version`.
fn restate(line: &Vec<char>, key: &Vec<char>, version: &Vec<char>) -> (out: Option<Vec<char>>)
    requires
        key@ == VERSION_KEY@,
    ensures
        match out {
            Some(l) => states_version(without_leading_space(line@)) && l@ == indent(line@)
                + VERSION_KEY@ + version@,
            None => !states_version(without_leading_space(line@)),
        },
{
    let mut start: usize = 0;
    while start < line.len() && is_whitespace(line[start])
        invariant
            start <= line.len(),
            forall|i: int| 0 <= i < start ==> white_space(#[trigger] line@[i]),
        decreases line.len() - start,
    {
        start += 1;
    }
    proof {
        lemma_leading_space(line@, start as int);
    }
    let rest = tail_of(line, start);
    if !line_states_version(&rest, key) {
        return None;
    }
    let mut out: Vec<char> = Vec::new();
    let mut i: usize = 0;
    while i < start
        invariant
            i <= start <= line.len(),
            out@ == line@.take(i as int),
        decreases start - i,
    {
        out.push(line[i]);
        assert(line@.take(i + 1) =~= line@.take(i as int).push(line@[i as int]));
        i += 1;
    }
    let ghost lead = out@;
    let mut j: usize = 0;
    while j < key.len()
        invariant
            j <= key.len(),
            out@ == lead + key@.take(j as int),
        decreases key.len() - j,
    {
        out.push(key[j]);
        assert(lead + key@.take(j + 1) =~= (lead + key@.take(j as int)).push(key@[j as int]));
        j += 1;
    }
    assert(key@.take(key@.len() as int) =~= key@);
    let mut k: usize = 0;
    while k < version.len()
        invariant
            k <= version.len(),
            out@ == lead + key@ + version@.take(k as int),
        decreases version.len() - k,
    {
        out.push(version[k]);
        assert(lead + key@ + version@.take(k + 1) =~= (lead + key@ + version@.take(
            k as int,
        )).push(version@[k as int]));
        k += 1;
    }
    assert(version@.take(version@.len() as int) =~= version@);
    Some(out)
}

/// Writes the version `new_version` into the text of a file of properties,
/// in place of the one it states.
pub fn with_pack_version(text: &str, new_version: &str) -> (out: Option<String>)
    ensures
        match out {
            Some(t) => with_version(text@, new_version@) == Some(t@),
            None => with_version(text@, new_version@) is None,
        },
{
    let chars = chars_of(text);
    let all = split_lines(&chars);
    let key = chars_of(VERSION_KEY);
    let version = trim_chars(&chars_of(new_version));
    let ghost ls = lines(text@);
    let mut written: Vec<String> = Vec::new();
    let mut replaced = false;
    let mut i: usize = 0;
    assert(ls.take(0) =~= Seq::<Seq<char>>::empty());
    assert(text_views(written@) =~= ls.take(0));
    while i < all.len()
        invariant
            i <= all.len(),
            ls == line_views(all@),
            ls == lines(text@),
            key@ == VERSION_KEY@,
            version@ == trimmed(new_version@),
            replaced == (first_version_line(ls.take(i as int)) >= 0),
            first_version_line(ls.take(i as int)) < i,
            text_views(written@) == if replaced {
                ls.take(i as int).update(
                    first_version_line(ls.take(i as int)),
                    restated(ls[first_version_line(ls.take(i as int))], new_version@),
                )
            } else {
                ls.take(i as int)
            },
        decreases all.len() - i,
    {
        let ghost done = ls.take(i as int);
        let ghost at = first_version_line(done);
        let ghost before = text_views(written@);
        proof {
            assert(ls.take(i + 1).drop_last() =~= done);
            assert(ls.take(i + 1).last() == all@[i as int]@);
            lemma_first_version_line(done);
        }
        let restated_line = if replaced {
            None
        } else {
            restate(&all[i], &key, &version)
        };
        match restated_line {
            Some(l) => {
                written.push(string_of(&l));
                replaced = true;
                assert(text_views(written@) =~= before.push(l@));
                assert(before.push(l@) =~= ls.take(i + 1).update(
                    i as int,
                    restated(ls[i as int], new_version@),
                ));
            },
            None => {
                written.push(string_of(&all[i]));
                assert(text_views(written@) =~= before.push(ls[i as int]));
                if replaced {
                    assert(before.push(ls[i as int]) =~= ls.take(i + 1).update(
                        at,
                        restated(ls[at], new_version@),
                    ));
                } else {
                    assert(before.push(ls[i as int]) =~= ls.take(i + 1));
                }
            },
        }
        i += 1;
    }
    assert(ls.take(all@.len() as int) =~= ls);
    if !replaced {
        return None;
    }
    let merged = join_lines(&written);
    if contains(&chars, &chars_of("\r\n")) {
        Some(replace_text(merged.as_str(), "\n", "\r\n"))
    } else {
        Some(merged)
    }
}

} // verus!
