//! The YAML front matter of a `SKILL.md` file: the lines between a leading
//! `---` line and the next `---` line.
use crate::text::{
    join, lemma_join_push,
    chars_of, find_char_from, find_char_starting_at, lemma_find_char_from_bounds, push_char,
    push_chars, slice_chars, trim, trim_bounds,
};
use vstd::prelude::*;

verus! {

/// A line without the `\r` of a `\r\n` ending.
pub open spec fn strip_carriage_return(line: Seq<char>) -> Seq<char> {
    if line.len() > 0 && line.last() == '\r' {
        line.drop_last()
    } else {
        line
    }
}

/// `str::lines` of the text from position `pos` on: lines end at `\n` or
/// `\r\n`, which are not part of them, and the last line's ending is
/// optional.
pub open spec fn lines_from(s: Seq<char>, pos: int) -> Seq<Seq<char>>
    decreases s.len() - pos,
{
    if pos < 0 || pos >= s.len() {
        Seq::empty()
    } else {
        proof {
            lemma_find_char_from_bounds(s, '\n', pos);
        }
        match find_char_from(s, '\n', pos) {
            Some(k) => seq![strip_carriage_return(s.subrange(pos, k))] + lines_from(s, k + 1),
            None => seq![s.subrange(pos, s.len() as int)],
        }
    }
}

pub open spec fn lines(s: Seq<char>) -> Seq<Seq<char>> {
    lines_from(s, 0)
}

/// A front-matter delimiter line.
pub open spec fn is_delimiter(line: Seq<char>) -> bool {
    trim(line) == "---"@
}

/// Index of the first delimiter line at or after `i`.
pub open spec fn delimiter_from(lines: Seq<Seq<char>>, i: int) -> Option<int>
    decreases lines.len() - i,
{
    if i < 0 || i >= lines.len() {
        None
    } else if is_delimiter(lines[i]) {
        Some(i)
    } else {
        delimiter_from(lines, i + 1)
    }
}

/// The front matter of `contents`: present when the first line is a
/// delimiter, a later line is one too, and at least one line stands between
/// them; those lines joined with `\n`.
pub open spec fn frontmatter(contents: Seq<char>) -> Option<Seq<char>> {
    let ls = lines(contents);
    if ls.len() == 0 || !is_delimiter(ls[0]) {
        None
    } else {
        match delimiter_from(ls, 1) {
            Some(k) => if k == 1 {
                None
            } else {
                Some(join(ls.subrange(1, k), "\n"@))
            },
            None => None,
        }
    }
}

/// The line of `s` that starts at `pos`, and where the next line starts.
fn next_line(s: &Vec<char>, pos: usize) -> (r: (Vec<char>, usize))
    requires
        pos < s@.len(),
    ensures
        pos < r.1 <= s@.len(),
        lines_from(s@, pos as int) == seq![r.0@] + lines_from(s@, r.1 as int),
{
    proof {
        lemma_find_char_from_bounds(s@, '\n', pos as int);
    }
    match find_char_starting_at(s, '\n', pos) {
        Some(k) => {
            let line = if k > pos && s[k - 1] == '\r' {
                slice_chars(s, pos, k - 1)
            } else {
                slice_chars(s, pos, k)
            };
            assert(line@ == strip_carriage_return(s@.subrange(pos as int, k as int)));
            assert(k < s.len());
            (line, k + 1)
        },
        None => {
            assert(lines_from(s@, s@.len() as int) == Seq::<Seq<char>>::empty());
            (slice_chars(s, pos, s.len()), s.len())
        },
    }
}

fn is_delimiter_line(line: &Vec<char>) -> (r: bool)
    ensures
        r == is_delimiter(line@),
{
    let (lo, hi) = trim_bounds(line);
    let dashes = chars_of("---");
    if hi - lo != dashes.len() {
        assert(trim(line@).len() != dashes@.len());
        return false;
    }
    let mut k: usize = 0;
    while k < dashes.len()
        invariant
            lo <= hi <= line@.len(),
            hi - lo == dashes@.len(),
            dashes@ == "---"@,
            k <= dashes@.len(),
            trim(line@) == line@.subrange(lo as int, hi as int),
            forall|m: int| 0 <= m < k ==> line@[lo + m] == dashes@[m],
        decreases dashes@.len() - k,
    {
        if line[lo + k] != dashes[k] {
            assert(trim(line@)[k as int] == line@[lo + k]);
            assert(trim(line@)[k as int] != dashes@[k as int]);
            assert(trim(line@) != dashes@);
            return false;
        }
        k = k + 1;
    }
    assert(trim(line@) =~= dashes@);
    true
}

/// The front matter of a skill file's contents, if it has one.
pub fn extract_skill_frontmatter(contents: &str) -> (r: Option<String>)
    ensures
        match r {
            Some(text) => frontmatter(contents@) == Some(text@),
            None => frontmatter(contents@) is None,
        },
{
    let s = chars_of(contents);
    let ghost ls = lines(s@);
    if s.len() == 0 {
        return None;
    }
    let (first, mut pos) = next_line(&s, 0);
    if !is_delimiter_line(&first) {
        return None;
    }
    let mut joined = String::new();
    let mut count: usize = 0;
    let mut found_closing = false;
    let ghost mut idx: int = 1;
    while pos < s.len()
        invariant_except_break
            0 < pos <= s@.len(),
            ls == lines(s@),
            ls == ls.take(idx) + lines_from(s@, pos as int),
            1 <= idx <= ls.len(),
            count == idx - 1,
            count < pos,
            ls.len() > 0 && is_delimiter(ls[0]),
            delimiter_from(ls, idx) == delimiter_from(ls, 1),
            joined@ == join(ls.subrange(1, idx), "\n"@),
            !found_closing,
        ensures
            pos >= s@.len() ==> lines_from(s@, pos as int) == Seq::<Seq<char>>::empty(),
            ls == lines(s@),
            ls.len() > 0 && is_delimiter(ls[0]),
            1 <= idx,
            count == idx - 1,
            joined@ == join(ls.subrange(1, idx), "\n"@),
            found_closing ==> delimiter_from(ls, 1) == Some(idx),
            !found_closing ==> delimiter_from(ls, 1) is None,
        decreases s@.len() - pos,
    {
        let (line, next) = next_line(&s, pos);
        assert(ls[idx] == line@) by {
            assert((ls.take(idx) + lines_from(s@, pos as int))[idx] == lines_from(s@, pos as int)[0]);
        }
        if is_delimiter_line(&line) {
            found_closing = true;
            break;
        }
        proof {
            assert(ls.subrange(1, idx + 1) == ls.subrange(1, idx).push(line@));
            lemma_join_push(ls.subrange(1, idx), line@, "\n"@);
        }
        if count > 0 {
            push_char(&mut joined, '\n');
        }
        push_chars(&mut joined, &line);
        proof {
            assert(seq!['\n'] == "\n"@) by {
                reveal_strlit("\n");
            }
            assert(ls.take(idx + 1) == ls.take(idx).push(line@));
            assert(ls == ls.take(idx + 1) + lines_from(s@, next as int));
            idx = idx + 1;
        }
        count = count + 1;
        pos = next;
    }
    if count == 0 || !found_closing {
        return None;
    }
    Some(joined)
}

} // verus!
