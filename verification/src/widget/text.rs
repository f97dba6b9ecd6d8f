//! Building blocks for rendered text: repetition, decimal numbers and lines.

use vstd::prelude::*;
use vstd::std_specs::iter::IteratorSpec;
use vstd::string::{StrSliceExecFns, StringExecFns};

verus! {

/// The sequence `unit` written `n` times in a row.
pub open spec fn repeat(unit: Seq<char>, n: nat) -> Seq<char>
    decreases n,
{
    if n == 0 {
        Seq::empty()
    } else {
        repeat(unit, (n - 1) as nat) + unit
    }
}

/// An indentation of `indent` blanks.
pub open spec fn spaces(indent: nat) -> Seq<char> {
    repeat(" "@, indent)
}

/// The number of bytes that `text` takes when encoded as UTF-8.
pub open spec fn byte_len(text: Seq<char>) -> nat {
    vstd::utf8::encode_utf8(text).len()
}

/// The decimal digit for `d`, where `d` is below ten.
pub open spec fn digit_char(d: nat) -> char {
    ((48 + d) as u8) as char
}

/// The decimal digits of `n`, most significant first, without leading zeros.
pub open spec fn digits(n: nat) -> Seq<char>
    decreases n,
{
    if n < 10 {
        seq![digit_char(n)]
    } else {
        digits(n / 10).push(digit_char(n % 10))
    }
}

/// The decimal form of `v`, with a leading minus sign when it is negative.
pub open spec fn decimal(v: int) -> Seq<char> {
    if v < 0 {
        seq!['-'] + digits((-v) as nat)
    } else {
        digits(v as nat)
    }
}

/// The lines joined into one text, with a line feed between neighbours.
pub open spec fn join_lines(lines: Seq<Seq<char>>) -> Seq<char>
    decreases lines.len(),
{
    if lines.len() == 0 {
        Seq::empty()
    } else if lines.len() == 1 {
        lines[0]
    } else {
        join_lines(lines.drop_last()) + seq!['\n'] + lines.last()
    }
}

/// There is at least one line, and no line holds a line feed.
pub open spec fn are_lines(lines: Seq<Seq<char>>) -> bool {
    lines.len() >= 1 && forall|i: int| 0 <= i < lines.len() ==> !(#[trigger] lines[i]).contains('\n')
}

/// The texts of `lines`.
pub open spec fn line_views(lines: Seq<String>) -> Seq<Seq<char>> {
    Seq::new(lines.len(), |i: int| lines[i]@)
}

/// Two blanks behind an indentation make the indentation two columns deeper.
pub proof fn spaces_deeper(indent: nat)
    ensures
        spaces(indent) + "  "@ == spaces(indent + 2),
{
    reveal_strlit("  ");
    reveal_strlit(" ");
    assert("  "@ =~= " "@ + " "@);
    assert(spaces(indent + 2) == spaces(indent + 1) + " "@);
    assert(spaces(indent + 1) == spaces(indent) + " "@);
    assert(spaces(indent) + "  "@ =~= spaces(indent + 2));
}

/// In the joined text of more than one line, the last line feed stands just
/// before the last line.
proof fn join_ends_with_last(lines: Seq<Seq<char>>)
    requires
        are_lines(lines),
        lines.len() >= 2,
    ensures
        join_lines(lines).len() == join_lines(lines.drop_last()).len() + 1 + lines.last().len(),
        join_lines(lines)[join_lines(lines.drop_last()).len() as int] == '\n',
        forall|k: int|
            join_lines(lines.drop_last()).len() < k < join_lines(lines).len() ==> join_lines(
                lines,
            )[k] != '\n',
{
    let head = join_lines(lines.drop_last());
    let last = lines.last();
    assert(join_lines(lines) == head + seq!['\n'] + last);
    assert forall|k: int| head.len() < k < join_lines(lines).len() implies join_lines(lines)[k]
        != '\n' by {
        assert(join_lines(lines)[k] == last[k - head.len() - 1]);
        assert(last.contains(last[k - head.len() - 1]));
    }
}

/// A text is the join of only one sequence of lines: two such sequences
/// with the same joined text are the same.
pub proof fn lines_are_unique(first: Seq<Seq<char>>, second: Seq<Seq<char>>)
    requires
        are_lines(first),
        are_lines(second),
        join_lines(first) == join_lines(second),
    ensures
        first == second,
    decreases first.len(),
{
    let text = join_lines(first);
    if first.len() == 1 || second.len() == 1 {
        if first.len() >= 2 {
            join_ends_with_last(first);
            assert(second[0].contains(text[join_lines(first.drop_last()).len() as int]));
        }
        if second.len() >= 2 {
            join_ends_with_last(second);
            assert(first[0].contains(text[join_lines(second.drop_last()).len() as int]));
        }
        assert(first =~= second);
    } else {
        join_ends_with_last(first);
        join_ends_with_last(second);
        let p = join_lines(first.drop_last()).len() as int;
        let q = join_lines(second.drop_last()).len() as int;
        assert(p == q);
        assert(first.last() =~= text.subrange(p + 1, text.len() as int));
        assert(second.last() =~= text.subrange(p + 1, text.len() as int));
        assert(join_lines(first.drop_last()) =~= text.subrange(0, p));
        assert(join_lines(second.drop_last()) =~= text.subrange(0, p));
        assert(are_lines(first.drop_last())) by {
            assert forall|i: int| 0 <= i < first.drop_last().len() implies !(
            #[trigger] first.drop_last()[i]).contains('\n') by {
                assert(first.drop_last()[i] == first[i]);
            }
        }
        assert(are_lines(second.drop_last())) by {
            assert forall|i: int| 0 <= i < second.drop_last().len() implies !(
            #[trigger] second.drop_last()[i]).contains('\n') by {
                assert(second.drop_last()[i] == second[i]);
            }
        }
        lines_are_unique(first.drop_last(), second.drop_last());
        assert(first =~= first.drop_last().push(first.last()));
        assert(second =~= second.drop_last().push(second.last()));
    }
}

/// Appends one character to a string.
///
/// Trusted: the body calls `String::push` of the standard library, which is
/// documented to append the given character to the end of the string.
#[verifier::external_body]
pub(crate) fn push_char(out: &mut String, c: char)
    ensures
        final(out)@ == old(out)@.push(c),
{
    out.push(c);
}

/// Appends `unit` to `out`, `n` times.
pub fn push_repeated(out: &mut String, unit: &str, n: usize)
    ensures
        final(out)@ == old(out)@ + repeat(unit@, n as nat),
{
    let mut i: usize = 0;
    while i < n
        invariant
            i <= n,
            out@ == old(out)@ + repeat(unit@, i as nat),
        decreases n - i,
    {
        out.append(unit);
        i += 1;
    }
}

/// The number of bytes of `text` in UTF-8.
pub fn utf8_len(text: &str) -> (n: usize)
    ensures
        n == byte_len(text@),
{
    text.as_bytes().len()
}

fn push_digits(out: &mut String, n: u32)
    ensures
        final(out)@ == old(out)@ + digits(n as nat),
    decreases n,
{
    if n >= 10 {
        push_digits(out, n / 10);
    }
    let d: u8 = (n % 10) as u8;
    push_char(out, (48u8 + d) as char);
}

/// Appends the decimal form of `v` to `out`.
pub fn push_decimal(out: &mut String, v: i32)
    ensures
        final(out)@ == old(out)@ + decimal(v as int),
{
    if v < 0 {
        push_char(out, '-');
        let magnitude: u32 = (-(v as i64)) as u32;
        push_digits(out, magnitude);
    } else {
        push_digits(out, v as u32);
    }
}

/// `text` with `c` put in before the character number `pos`, together with
/// the position just behind the new character.
pub(crate) fn insert_at(text: &str, pos: usize, c: char) -> (res: (String, usize))
    requires
        pos <= text@.len(),
    ensures
        res.0@ == text@.insert(pos as int, c),
        res.1 == pos + 1,
{
    let n = text.unicode_len();
    let mut out = String::new();
    out.append(text.substring_char(0, pos));
    push_char(&mut out, c);
    let behind = out.as_str().unicode_len();
    out.append(text.substring_char(pos, n));
    proof {
        assert(out@ =~= text@.insert(pos as int, c));
    }
    (out, behind)
}

/// `text` without the character number `pos`.
pub(crate) fn remove_at(text: &str, pos: usize) -> (out: String)
    requires
        pos < text@.len(),
    ensures
        out@ == text@.remove(pos as int),
{
    let n = text.unicode_len();
    let mut out = String::new();
    out.append(text.substring_char(0, pos));
    out.append(text.substring_char(pos + 1, n));
    proof {
        assert(out@ =~= text@.remove(pos as int));
    }
    out
}

/// Cuts `text` at its line feeds. The lines, joined again with line feeds,
/// give `text` back, and none of them holds a line feed; a text without one
/// is a single line. No other sequence of lines does that.
pub fn split_lines(text: &str) -> (lines: Vec<String>)
    ensures
        are_lines(line_views(lines@)),
        join_lines(line_views(lines@)) == text@,
{
    broadcast use vstd::string::group_string_axioms;
    let mut lines: Vec<String> = Vec::new();
    let mut current = String::new();
    let mut chars = text.chars();
    let ghost mut done: int = 0;
    loop
        invariant
            0 <= done <= text@.len(),
            chars.remaining() == text@.subrange(done, text@.len() as int),
            chars.obeys_prophetic_iter_laws(),
            join_lines(line_views(lines@).push(current@)) == text@.subrange(0, done),
            forall|i: int| 0 <= i < lines@.len() ==> !(#[trigger] lines@[i])@.contains('\n'),
            !current@.contains('\n'),
        ensures
            done == text@.len(),
        decreases text@.len() - done,
    {
        let ghost joined = join_lines(line_views(lines@).push(current@));
        let ghost earlier = line_views(lines@);
        let ghost line = current@;
        match chars.next() {
            None => {
                proof {
                    assert(text@.subrange(done, text@.len() as int).len() == 0);
                }
                break ;
            },
            Some(c) => {
                proof {
                    assert(c == text@[done]);
                    assert(text@.subrange(0, done + 1) =~= text@.subrange(0, done).push(c));
                    assert(text@.subrange(done, text@.len() as int).drop_first() =~= text@.subrange(
                        done + 1,
                        text@.len() as int,
                    ));
                    assert(earlier.push(line).drop_last() =~= earlier);
                }
                if c == '\n' {
                    lines.push(current);
                    current = String::new();
                    proof {
                        assert(line_views(lines@) =~= earlier.push(line));
                        let all = line_views(lines@).push(current@);
                        assert(all.drop_last() =~= line_views(lines@));
                        assert(join_lines(all) =~= joined.push(c));
                    }
                } else {
                    push_char(&mut current, c);
                    proof {
                        let all = earlier.push(current@);
                        assert(all.drop_last() =~= earlier);
                        assert(join_lines(all) =~= joined.push(c));
                        assert forall|j: int| 0 <= j < current@.len() implies current@[j]
                            != '\n' by {
                            if j < line.len() {
                                assert(line.contains(line[j]));
                            }
                        }
                    }
                }
                proof {
                    done = done + 1;
                }
            },
        }
    }
    proof {
        assert(text@.subrange(0, done) =~= text@);
    }
    let ghost earlier = line_views(lines@);
    lines.push(current);
    proof {
        assert(line_views(lines@) =~= earlier.push(current@));
        assert forall|i: int| 0 <= i < line_views(lines@).len() implies !(
        #[trigger] line_views(lines@)[i]).contains('\n') by {
            assert(line_views(lines@)[i] == lines@[i]@);
        }
    }
    lines
}

} // verus!
