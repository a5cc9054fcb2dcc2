//! Trimming and splitting of the text that a command printed.

use crate::text::{string_of, texts};
use vstd::prelude::*;

verus! {

/// `c` is white space: one of the characters with the Unicode property
/// `White_Space`.
pub open spec fn is_whitespace(c: char) -> bool {
    let v = c as u32;
    ||| 0x09 <= v <= 0x0d
    ||| v == 0x20
    ||| v == 0x85
    ||| v == 0xa0
    ||| v == 0x1680
    ||| 0x2000 <= v <= 0x200a
    ||| v == 0x2028
    ||| v == 0x2029
    ||| v == 0x202f
    ||| v == 0x205f
    ||| v == 0x3000
}

/// `s` without the white space it begins with.
pub open spec fn trim_start(s: Seq<char>) -> Seq<char>
    decreases s.len(),
{
    if s.len() > 0 && is_whitespace(s[0]) {
        trim_start(s.skip(1))
    } else {
        s
    }
}

/// `s` without the white space it ends with.
pub open spec fn trim_end(s: Seq<char>) -> Seq<char>
    decreases s.len(),
{
    if s.len() > 0 && is_whitespace(s.last()) {
        trim_end(s.drop_last())
    } else {
        s
    }
}

/// `s` without the white space at either end.
pub open spec fn trim(s: Seq<char>) -> Seq<char> {
    trim_end(trim_start(s))
}

/// The unfinished line at the end of `s`: what follows its last line feed.
pub open spec fn current_line(s: Seq<char>) -> Seq<char>
    decreases s.len(),
{
    if s.len() == 0 || s.last() == '\n' {
        Seq::empty()
    } else {
        current_line(s.drop_last()).push(s.last())
    }
}

/// `line` without the carriage return that it ends with, if it ends with one.
pub open spec fn strip_cr(line: Seq<char>) -> Seq<char> {
    if line.len() > 0 && line.last() == '\r' {
        line.drop_last()
    } else {
        line
    }
}

/// The lines of `s` that a line feed ends, each without its line ending
/// (a line feed, or a carriage return and a line feed).
pub open spec fn complete_lines(s: Seq<char>) -> Seq<Seq<char>>
    decreases s.len(),
{
    if s.len() == 0 {
        Seq::empty()
    } else if s.last() == '\n' {
        complete_lines(s.drop_last()).push(strip_cr(current_line(s.drop_last())))
    } else {
        complete_lines(s.drop_last())
    }
}

/// The lines of `s`. The last line needs no line ending; an empty rest
/// after the last line feed is no line.
pub open spec fn lines(s: Seq<char>) -> Seq<Seq<char>> {
    if current_line(s).len() > 0 {
        complete_lines(s).push(current_line(s))
    } else {
        complete_lines(s)
    }
}

/// `s` holds a character that is not white space.
pub open spec fn has_text(s: Seq<char>) -> bool {
    exists|i: int| 0 <= i < s.len() && !is_whitespace(#[trigger] s[i])
}

/// The test that a line is not blank: that it holds a character that is
/// not white space.
pub open spec fn nonblank() -> spec_fn(Seq<char>) -> bool {
    |line: Seq<char>| has_text(line)
}

/// The lines of `s` that are not blank, each as it stands in `s`.
pub open spec fn nonblank_lines(s: Seq<char>) -> Seq<Seq<char>> {
    lines(s).filter(nonblank())
}

/// Filtering a list with one more line keeps that line if it is not blank.
pub proof fn lemma_nonblank_push(list: Seq<Seq<char>>, line: Seq<char>)
    ensures
        list.push(line).filter(nonblank()) == if has_text(line) {
            list.filter(nonblank()).push(line)
        } else {
            list.filter(nonblank())
        },
{
    reveal(Seq::filter);
    assert(list.push(line).drop_last() =~= list);
}

/// Some line of `list` is not blank.
pub open spec fn has_nonblank(list: Seq<Seq<char>>) -> bool {
    exists|i: int| 0 <= i < list.len() && has_text(#[trigger] list[i])
}

/// A list keeps a line when the blank ones are taken out exactly if it
/// has a line that is not blank.
pub proof fn lemma_nonblank_survives(list: Seq<Seq<char>>)
    ensures
        (list.filter(nonblank()).len() > 0) == has_nonblank(list),
    decreases list.len(),
{
    if list.len() == 0 {
        reveal(Seq::filter);
    } else {
        let front = list.drop_last();
        assert(front.push(list.last()) =~= list);
        lemma_nonblank_push(front, list.last());
        lemma_nonblank_survives(front);
        if has_nonblank(front) {
            let i = choose|i: int| 0 <= i < front.len() && has_text(#[trigger] front[i]);
            assert(list[i] == front[i]);
        }
        if has_nonblank(list) && !has_text(list.last()) {
            let i = choose|i: int| 0 <= i < list.len() && has_text(#[trigger] list[i]);
            assert(front[i] == list[i]);
        }
        if has_text(list.last()) {
            assert(has_text(list[list.len() - 1]));
        }
    }
}

/// A line without its carriage return holds text exactly if the line does.
proof fn lemma_strip_cr_keeps_text(line: Seq<char>)
    ensures
        has_text(strip_cr(line)) == has_text(line),
{
    let stripped = strip_cr(line);
    if has_text(line) {
        let i = choose|i: int| 0 <= i < line.len() && !is_whitespace(#[trigger] line[i]);
        assert(!is_whitespace(stripped[i]));
    }
    if has_text(stripped) {
        let i = choose|i: int| 0 <= i < stripped.len() && !is_whitespace(#[trigger] stripped[i]);
        assert(!is_whitespace(line[i]));
    }
}

/// The text of `s` is the text of its lines: `s` holds a character that
/// is not white space exactly if one of its finished lines or its
/// unfinished line does.
proof fn lemma_text_is_in_lines(s: Seq<char>)
    ensures
        has_text(s) == (has_nonblank(complete_lines(s)) || has_text(current_line(s))),
    decreases s.len(),
{
    if s.len() > 0 {
        let front = s.drop_last();
        let c = s.last();
        lemma_text_is_in_lines(front);
        lemma_strip_cr_keeps_text(current_line(front));
        let done = complete_lines(s);
        let before = complete_lines(front);
        assert(has_text(s) == (has_text(front) || !is_whitespace(c))) by {
            if has_text(s) {
                let i = choose|i: int| 0 <= i < s.len() && !is_whitespace(#[trigger] s[i]);
                if i < front.len() {
                    assert(!is_whitespace(front[i]));
                }
            }
            if has_text(front) {
                let i = choose|i: int| 0 <= i < front.len() && !is_whitespace(#[trigger] front[i]);
                assert(!is_whitespace(s[i]));
            }
            if !is_whitespace(c) {
                assert(!is_whitespace(s[s.len() - 1]));
            }
        }
        if c == '\n' {
            let line = strip_cr(current_line(front));
            assert(has_nonblank(done) == (has_nonblank(before) || has_text(line))) by {
                if has_nonblank(done) {
                    let i = choose|i: int| 0 <= i < done.len() && has_text(#[trigger] done[i]);
                    if i < before.len() {
                        assert(has_text(before[i]));
                    }
                }
                if has_nonblank(before) {
                    let i = choose|i: int| 0 <= i < before.len() && has_text(#[trigger] before[i]);
                    assert(has_text(done[i]));
                }
                if has_text(line) {
                    assert(has_text(done[done.len() - 1]));
                }
            }
            assert(!has_text(current_line(s)));
        } else {
            let cur = current_line(s);
            let old_cur = current_line(front);
            assert(has_text(cur) == (has_text(old_cur) || !is_whitespace(c))) by {
                if has_text(cur) {
                    let i = choose|i: int| 0 <= i < cur.len() && !is_whitespace(#[trigger] cur[i]);
                    if i < old_cur.len() {
                        assert(!is_whitespace(old_cur[i]));
                    }
                }
                if has_text(old_cur) {
                    let i = choose|i: int|
                        0 <= i < old_cur.len() && !is_whitespace(#[trigger] old_cur[i]);
                    assert(!is_whitespace(cur[i]));
                }
                if !is_whitespace(c) {
                    assert(!is_whitespace(cur[cur.len() - 1]));
                }
            }
        }
    }
}

/// A text has a line that is not blank exactly if it holds a character
/// that is not white space.
pub proof fn lemma_nonblank_lines_iff_text(s: Seq<char>)
    ensures
        (nonblank_lines(s).len() > 0) == has_text(s),
{
    lemma_text_is_in_lines(s);
    lemma_nonblank_survives(lines(s));
    let done = complete_lines(s);
    let all = lines(s);
    if has_nonblank(done) {
        let i = choose|i: int| 0 <= i < done.len() && has_text(#[trigger] done[i]);
        assert(has_text(all[i]));
    }
    if has_text(current_line(s)) {
        assert(has_text(all[all.len() - 1]));
    }
    if has_nonblank(all) {
        let i = choose|i: int| 0 <= i < all.len() && has_text(#[trigger] all[i]);
        if i < done.len() {
            assert(has_text(done[i]));
        }
    }
}

/// Every line that is kept holds a character that is not white space, so
/// none is empty.
pub proof fn lemma_nonblank_lines_hold_text(s: Seq<char>)
    ensures
        forall|i: int|
            0 <= i < nonblank_lines(s).len() ==> has_text(#[trigger] nonblank_lines(s)[i])
                && nonblank_lines(s)[i].len() > 0,
{
    assert forall|i: int| 0 <= i < nonblank_lines(s).len() implies has_text(
        #[trigger] nonblank_lines(s)[i],
    ) && nonblank_lines(s)[i].len() > 0 by {
        lines(s).lemma_filter_pred(nonblank(), i);
    }
}

/// Whether `c` is white space.
pub fn is_space(c: char) -> (out: bool)
    ensures
        out == is_whitespace(c),
{
    let v: u32 = c as u32;
    (0x09 <= v && v <= 0x0d) || v == 0x20 || v == 0x85 || v == 0xa0 || v == 0x1680 || (0x2000 <= v
        && v <= 0x200a) || v == 0x2028 || v == 0x2029 || v == 0x202f || v == 0x205f || v == 0x3000
}

/// Whether `chars` holds a character that is not white space.
pub fn holds_text(chars: &Vec<char>) -> (out: bool)
    ensures
        out == has_text(chars@),
{
    let mut i: usize = 0;
    while i < chars.len()
        invariant
            i <= chars.len(),
            forall|j: int| 0 <= j < i ==> is_whitespace(#[trigger] chars@[j]),
        decreases chars.len() - i,
    {
        if !is_space(chars[i]) {
            return true;
        }
        i += 1;
    }
    false
}

/// `chars` without the white space at either end.
pub fn trim_chars(chars: &Vec<char>) -> (out: Vec<char>)
    ensures
        out@ == trim(chars@),
{
    let n: usize = chars.len();
    let mut a: usize = 0;
    assert(chars@.skip(0) =~= chars@);
    while a < n && is_space(chars[a])
        invariant
            a <= n,
            n == chars.len(),
            trim_start(chars@) == trim_start(chars@.skip(a as int)),
        decreases n - a,
    {
        assert(chars@.skip(a as int).skip(1) =~= chars@.skip(a + 1));
        a += 1;
    }
    let mut b: usize = n;
    assert(chars@.subrange(a as int, n as int) =~= chars@.skip(a as int));
    while b > a && is_space(chars[b - 1])
        invariant
            a <= b <= n,
            n == chars.len(),
            trim(chars@) == trim_end(chars@.subrange(a as int, b as int)),
        decreases b,
    {
        assert(chars@.subrange(a as int, b as int).drop_last() =~= chars@.subrange(
            a as int,
            b - 1,
        ));
        b -= 1;
    }
    let mut out: Vec<char> = Vec::new();
    let mut i: usize = a;
    while i < b
        invariant
            a <= i <= b <= n,
            n == chars.len(),
            out@ == chars@.subrange(a as int, i as int),
        decreases b - i,
    {
        out.push(chars[i]);
        assert(chars@.subrange(a as int, i + 1) =~= chars@.subrange(a as int, i as int).push(
            chars@[i as int],
        ));
        i += 1;
    }
    out
}

/// The lines of `chars` that are not blank, in order and each as it
/// stands in `chars`.
pub fn split_nonblank_lines(chars: &Vec<char>) -> (out: Vec<String>)
    ensures
        texts(out@) == nonblank_lines(chars@),
{
    let mut done: Vec<String> = Vec::new();
    let mut cur: Vec<char> = Vec::new();
    let mut i: usize = 0;
    assert(texts(done@) =~= Seq::<Seq<char>>::empty());
    proof {
        reveal(Seq::filter);
    }
    while i < chars.len()
        invariant
            i <= chars.len(),
            texts(done@) == complete_lines(chars@.take(i as int)).filter(nonblank()),
            cur@ == current_line(chars@.take(i as int)),
        decreases chars.len() - i,
    {
        let ghost before = chars@.take(i as int);
        assert(chars@.take(i + 1).drop_last() =~= before);
        let c = chars[i];
        if c == '\n' {
            let ghost line = strip_cr(cur@);
            let n = cur.len();
            if n > 0 && cur[n - 1] == '\r' {
                cur.pop();
            }
            assert(cur@ =~= line);
            proof {
                lemma_nonblank_push(complete_lines(before), line);
            }
            if holds_text(&cur) {
                let text = string_of(&cur);
                done.push(text);
                assert(texts(done@) =~= complete_lines(before).filter(nonblank()).push(line));
            }
            cur = Vec::new();
        } else {
            cur.push(c);
        }
        i += 1;
    }
    assert(chars@.take(chars.len() as int) =~= chars@);
    proof {
        lemma_nonblank_push(complete_lines(chars@), cur@);
    }
    if holds_text(&cur) {
        let ghost earlier = texts(done@);
        let text = string_of(&cur);
        done.push(text);
        assert(texts(done@) =~= earlier.push(cur@));
    }
    done
}

} // verus!
