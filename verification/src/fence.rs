//! Unwrapping of Markdown code fences around generated code.

use vstd::prelude::*;

use crate::text::{
    chars_of, contains, occurs_at, position, position_behind, position_bound, position_is_first,
    trim, trim_bounds, trim_cuts_space, trim_is_piece, trim_takes_space_off, white_space,
};

verus! {

/// The three backticks that open and close a fence.
pub open spec fn ticks() -> Seq<char> {
    seq!['`', '`', '`']
}

/// The body of `text`, if `text` is exactly one fenced code block: the
/// trimmed text opens and closes with the backticks, the first line is the
/// info string, and no further three backticks stand between the two fences.
pub open spec fn fence_body(text: Seq<char>) -> Option<Seq<char>> {
    let t = trim(text);
    let n = t.len() as int;
    if n >= 6 && occurs_at(t, ticks(), 0) && occurs_at(t, ticks(), n - 3) {
        let rest = t.subrange(3, n - 3);
        let line = position(rest, '\n');
        if line < rest.len() && !contains(rest, ticks()) {
            Some(rest.skip(line + 1))
        } else {
            None
        }
    } else {
        None
    }
}

/// What is executed of `text`: the body of a single fence, or all of it.
pub open spec fn stripped(text: Seq<char>) -> Seq<char> {
    match fence_body(text) {
        Some(body) => body,
        None => text,
    }
}

/// Whether the backticks stand in `v` at `at`.
fn ticks_at(v: &Vec<char>, at: usize) -> (r: bool)
    requires
        at + 3 <= v.len(),
    ensures
        r == occurs_at(v@, ticks(), at as int),
{
    let r = v[at] == '`' && v[at + 1] == '`' && v[at + 2] == '`';
    proof {
        let piece = v@.subrange(at as int, at + 3);
        assert(piece[0] == v@[at as int] && piece[1] == v@[at + 1] && piece[2] == v@[at + 2]);
        if r {
            assert(piece =~= ticks());
        } else {
            assert(piece[0] != ticks()[0] || piece[1] != ticks()[1] || piece[2] != ticks()[2]);
        }
    }
    r
}

/// Unwraps text that is exactly one fenced code block; anything else (prose
/// around a fence, several fences, no fence) is returned unchanged.
pub fn strip_code_fence(text: &str) -> (r: &str)
    ensures
        r@ == stripped(text@),
{
    let v = chars_of(text);
    let (start, end) = trim_bounds(&v);
    let ghost t = trim(text@);
    let ghost n = t.len() as int;
    if end - start < 6 {
        return text;
    }
    let opens = ticks_at(&v, start);
    let closes = ticks_at(&v, end - 3);
    proof {
        assert(t.subrange(0, 3) =~= v@.subrange(start as int, start + 3));
        assert(t.subrange(n - 3, n) =~= v@.subrange(end - 3, end as int));
    }
    if !opens || !closes {
        return text;
    }
    let ghost rest = t.subrange(3, n - 3);
    let last: usize = end - 3;
    let mut line: usize = start + 3;
    assert(rest.skip(0) =~= rest);
    while line < last && v[line] != '\n'
        invariant
            start + 3 <= line <= last < v.len(),
            v@ == text@,
            rest == v@.subrange(start + 3, last as int),
            position(rest, '\n') == (line - start - 3) + position(
                rest.skip(line - start - 3),
                '\n',
            ),
        decreases last - line,
    {
        assert(rest.skip(line - start - 3).drop_first() =~= rest.skip(line - start - 2));
        line = line + 1;
    }
    if line == last {
        return text;
    }
    let ghost body = rest.skip(line - start - 2);
    let mut at: usize = start + 3;
    while last - at >= 3
        invariant
            start + 3 <= at <= last < v.len(),
            v@ == text@,
            rest == v@.subrange(start + 3, last as int),
            !contains(rest, ticks()) ==> fence_body(text@) == Some(body),
            contains(rest, ticks()) ==> fence_body(text@) is None,
            forall|k: int| 0 <= k < at - start - 3 ==> !occurs_at(rest, ticks(), k),
        decreases last - at,
    {
        assert(rest.subrange(at - start - 3, at - start) =~= v@.subrange(at as int, at + 3));
        if ticks_at(&v, at) {
            assert(occurs_at(rest, ticks(), at - start - 3));
            return text;
        }
        at = at + 1;
    }
    assert(!contains(rest, ticks()));
    assert(body =~= text@.subrange(line + 1, last as int));
    text.substring_char(line + 1, last)
}

/// A body holds no three backticks.
proof fn body_is_free_of_ticks(text: Seq<char>)
    ensures
        fence_body(text) matches Some(body) ==> !contains(body, ticks()),
{
    if let Some(body) = fence_body(text) {
        let t = trim(text);
        let rest = t.subrange(3, t.len() - 3);
        let skipped = position(rest, '\n') + 1;
        position_bound(rest, '\n');
        if contains(body, ticks()) {
            let at = choose|at: int| occurs_at(body, ticks(), at);
            assert(rest.subrange(skipped + at, skipped + at + 3) =~= body.subrange(at, at + 3));
            assert(occurs_at(rest, ticks(), skipped + at));
        }
    }
}

/// A fence is three backticks, and nothing shorter.
pub proof fn fences_are_three_backticks(text: Seq<char>)
    ensures
        ticks().len() == 3,
        forall|i: int| 0 <= i < 3 ==> #[trigger] ticks()[i] == '`',
        trim(text).len() < 6 ==> stripped(text) == text,
{
}

/// Unwrapping twice is unwrapping once: what was taken out of a fence holds
/// no fence itself.
pub proof fn stripping_is_idempotent(text: Seq<char>)
    ensures
        stripped(stripped(text)) == stripped(text),
{
    body_is_free_of_ticks(text);
    if let Some(body) = fence_body(text) {
        let t = trim(body);
        if t.len() >= 6 && occurs_at(t, ticks(), 0) {
            let (a, b) = trim_is_piece(body);
            assert(body.subrange(a, a + 3) =~= t.subrange(0, 3));
            assert(occurs_at(body, ticks(), a));
        }
    }
}

/// What a fence is unwrapped to holds no backtick fence, and text that holds
/// none is left as it is.
pub proof fn only_fences_are_unwrapped(text: Seq<char>)
    ensures
        stripped(text) == text || !contains(stripped(text), ticks()),
        !contains(text, ticks()) ==> stripped(text) == text,
{
    body_is_free_of_ticks(text);
    if let Some(body) = fence_body(text) {
        let (a, b) = trim_is_piece(text);
        assert(text.subrange(a, a + 3) =~= trim(text).subrange(0, 3));
        assert(occurs_at(text, ticks(), a));
    }
}

/// Code in a single fence comes out as it went in: whatever the info string
/// is, as long as it holds no fence itself, and whatever space is around the
/// fence.
pub proof fn fenced_code_comes_out(
    before: Seq<char>,
    info: Seq<char>,
    body: Seq<char>,
    after: Seq<char>,
)
    requires
        forall|i: int| 0 <= i < before.len() ==> white_space(#[trigger] before[i]),
        forall|i: int| 0 <= i < after.len() ==> white_space(#[trigger] after[i]),
        !info.contains('\n'),
        !contains(info, ticks()),
        !contains(body, ticks()),
    ensures
        stripped(before + (ticks() + info + seq!['\n'] + body + ticks()) + after) == body,
{
    let t = ticks() + info + seq!['\n'] + body + ticks();
    let n = t.len() as int;
    trim_takes_space_off(before, t, after);
    assert(t.subrange(0, 3) =~= ticks());
    assert(t.subrange(n - 3, n) =~= ticks());
    let rest = t.subrange(3, n - 3);
    assert(rest =~= info + seq!['\n'] + body);
    position_behind(info, '\n', body);
    assert(rest.skip(info.len() as int + 1) =~= body);
    if contains(rest, ticks()) {
        let at = choose|at: int| occurs_at(rest, ticks(), at);
        let m = info.len() as int;
        let piece = rest.subrange(at, at + 3);
        assert(piece[0] == '`' && piece[1] == '`' && piece[2] == '`');
        if at + 3 <= m {
            assert(info.subrange(at, at + 3) =~= piece);
            assert(occurs_at(info, ticks(), at));
        } else if at > m {
            assert(body.subrange(at - m - 1, at - m + 2) =~= piece);
            assert(occurs_at(body, ticks(), at - m - 1));
        } else {
            assert(rest[m] == '\n');
            assert(piece[m - at] == rest[m]);
        }
    }
}

/// Text is unwrapped only if it is a single fence with nothing but space
/// around it: three backticks, an info string up to the end of its line, what
/// comes out, and three backticks, with no further three backticks in between.
pub proof fn only_a_single_fence_is_unwrapped(text: Seq<char>)
    requires
        stripped(text) != text,
    ensures
        exists|before: Seq<char>, info: Seq<char>, after: Seq<char>|
            text == #[trigger] wrapped(before, info, stripped(text), after) && (forall|i: int|
                0 <= i < before.len() ==> white_space(#[trigger] before[i])) && (forall|i: int|
                0 <= i < after.len() ==> white_space(#[trigger] after[i])) && !info.contains('\n')
                && !contains(info, ticks()) && !contains(stripped(text), ticks()),
{
    let t = trim(text);
    let n = t.len() as int;
    let rest = t.subrange(3, n - 3);
    let line = position(rest, '\n');
    let body = stripped(text);
    body_is_free_of_ticks(text);
    position_bound(rest, '\n');
    let info = rest.take(line);
    position_is_first(rest, '\n');
    if contains(info, ticks()) {
        let at = choose|at: int| occurs_at(info, ticks(), at);
        assert(rest.subrange(at, at + 3) =~= info.subrange(at, at + 3));
        assert(occurs_at(rest, ticks(), at));
    }
    let (a, b) = trim_cuts_space(text);
    let before = text.take(a);
    let after = text.skip(b);
    assert(t.subrange(0, 3) == ticks());
    assert(t.subrange(n - 3, n) == ticks());
    assert(t =~= t.subrange(0, 3) + rest + t.subrange(n - 3, n));
    assert(rest =~= info + seq!['\n'] + body);
    assert(t =~= ticks() + info + seq!['\n'] + body + ticks());
    assert(text =~= before + t + after);
    assert(text == wrapped(before, info, body, after));
}

/// A fence around a body, with its info string and what is around it.
pub open spec fn wrapped(
    before: Seq<char>,
    info: Seq<char>,
    body: Seq<char>,
    after: Seq<char>,
) -> Seq<char> {
    before + (ticks() + info + seq!['\n'] + body + ticks()) + after
}

/// Taking the fence off code in a single fence gives the code.
pub proof fn code_comes_out_of_its_fence(
    text: &str,
    before: Seq<char>,
    info: Seq<char>,
    body: Seq<char>,
    after: Seq<char>,
    r: &str,
)
    requires
        call_ensures(strip_code_fence, (text,), r),
        text@ == wrapped(before, info, body, after),
        forall|i: int| 0 <= i < before.len() ==> white_space(#[trigger] before[i]),
        forall|i: int| 0 <= i < after.len() ==> white_space(#[trigger] after[i]),
        !info.contains('\n'),
        !contains(info, ticks()),
        !contains(body, ticks()),
    ensures
        r@ == body,
{
    fenced_code_comes_out(before, info, body, after);
}

} // verus!
