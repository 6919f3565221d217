//! Startup-file text as a sequence of characters, and the `export` lines in it.

use vstd::prelude::*;
use vstd::string::{StrSliceExecFns, StringExecFns};

verus! {

/// The keyword that opens an assignment, with the blank after it.
pub open spec fn export_word() -> Seq<char> {
    seq!['e', 'x', 'p', 'o', 'r', 't', ' ']
}

/// `export NAME=`: what every assignment to `var` begins with.
pub open spec fn export_prefix(var: Seq<char>) -> Seq<char> {
    export_word() + var + seq!['=']
}

/// `export NAME=VALUE` followed by a line feed: the assignment as it is stored.
pub open spec fn export_line(var: Seq<char>, value: Seq<char>) -> Seq<char> {
    export_prefix(var) + value + seq!['\n']
}

/// `piece` stands in `text` from position `at` on.
pub open spec fn found_at(text: Seq<char>, at: int, piece: Seq<char>) -> bool {
    &&& 0 <= at
    &&& at + piece.len() <= text.len()
    &&& text.subrange(at, at + piece.len()) == piece
}

/// `s` begins with `piece`.
pub open spec fn begins_with(s: Seq<char>, piece: Seq<char>) -> bool {
    found_at(s, 0, piece)
}

/// `text` holds `piece` somewhere.
pub open spec fn holds(text: Seq<char>, piece: Seq<char>) -> bool {
    exists|at: int| found_at(text, at, piece)
}

/// A line of `text` begins at position `at`: at the very start or right after a line feed.
pub open spec fn line_start(text: Seq<char>, at: int) -> bool {
    at == 0 || (0 < at <= text.len() && text[at - 1] == '\n')
}

/// `text` holds `piece` at the start of one of its lines.
pub open spec fn holds_line(text: Seq<char>, piece: Seq<char>) -> bool {
    exists|at: int| line_start(text, at) && found_at(text, at, piece)
}

/// `text` assigns `value` to `var`: it holds the characters of that very
/// `export` line, line feed included, wherever they stand.
pub open spec fn declares(text: Seq<char>, var: Seq<char>, value: Seq<char>) -> bool {
    holds(text, export_line(var, value))
}

/// Where the first line of `s` ends: the position of its first line feed, or
/// the length of `s` where it has none.
pub open spec fn first_break(s: Seq<char>) -> int
    decreases s.len(),
{
    if s.len() == 0 || s[0] == '\n' {
        0
    } else {
        1 + first_break(s.drop_first())
    }
}

/// `line` without the carriage return that ends it, if one does.
pub open spec fn trim_cr(line: Seq<char>) -> Seq<char> {
    if line.len() > 0 && line.last() == '\r' {
        line.drop_last()
    } else {
        line
    }
}

/// The lines of `text`. A line ends at a line feed, or at a carriage return
/// followed by one; neither belongs to the line. After the last line feed
/// whatever is left, if anything, is a line as it stands.
pub open spec fn lines(text: Seq<char>) -> Seq<Seq<char>>
    decreases text.len(),
{
    if text.len() == 0 {
        Seq::empty()
    } else {
        let n = first_break(text);
        if 0 <= n < text.len() {
            seq![trim_cr(text.take(n))] + lines(text.skip(n + 1))
        } else {
            seq![text]
        }
    }
}

/// The text made of `ls`, each followed by a line feed.
pub open spec fn join_lines(ls: Seq<Seq<char>>) -> Seq<char>
    decreases ls.len(),
{
    if ls.len() == 0 {
        Seq::empty()
    } else {
        join_lines(ls.drop_last()) + ls.last() + seq!['\n']
    }
}

/// `line` is an assignment to `var`: it begins with `export NAME=`. A line
/// that names the variable anywhere else is none.
pub open spec fn assigns(line: Seq<char>, var: Seq<char>) -> bool {
    begins_with(line, export_prefix(var))
}

/// The test that a line passes when it is no assignment to `var`.
pub open spec fn spares(var: Seq<char>) -> spec_fn(Seq<char>) -> bool {
    |line: Seq<char>| !assigns(line, var)
}

/// Some line of `text` is an assignment to `var`.
pub open spec fn mentions(text: Seq<char>, var: Seq<char>) -> bool {
    exists|k: int| 0 <= k < lines(text).len() && assigns(#[trigger] lines(text)[k], var)
}

/// `text` rewritten without its assignments to `var`: the other lines in
/// their order, each ended by a single line feed.
pub open spec fn without(text: Seq<char>, var: Seq<char>) -> Seq<char> {
    join_lines(lines(text).filter(spares(var)))
}

/// `first_break` is the one position before which no line feed stands and at
/// which one does, unless it is the end.
pub proof fn lemma_first_break(s: Seq<char>, n: int)
    requires
        0 <= n <= s.len(),
        forall|j: int| 0 <= j < n ==> s[j] != '\n',
        n < s.len() ==> s[n] == '\n',
    ensures
        first_break(s) == n,
    decreases s.len(),
{
    if s.len() == 0 || s[0] == '\n' {
    } else {
        let rest = s.drop_first();
        assert forall|j: int| 0 <= j < n - 1 implies rest[j] != '\n' by {
            assert(rest[j] == s[j + 1]);
        }
        lemma_first_break(rest, n - 1);
    }
}

/// The characters of `s`, one vector slot each.
pub fn to_chars(s: &str) -> (chars: Vec<char>)
    ensures
        chars@ == s@,
{
    let mut chars: Vec<char> = Vec::new();
    for c in it: s.chars()
        invariant
            chars@ == s@.take(it.index()),
            it.seq() == s@,
    {
        chars.push(c);
    }
    chars
}

/// Whether `a` and `b` hold the same characters.
pub fn same_text(a: &str, b: &str) -> (same: bool)
    ensures
        same == (a@ == b@),
{
    let left = to_chars(a);
    let right = to_chars(b);
    let same = left.len() == right.len() && is_found_at(&left, 0, &right);
    proof {
        if same {
            assert(a@.subrange(0, a@.len() as int) =~= a@);
        }
        if a@ == b@ {
            assert(a@.subrange(0, b@.len() as int) =~= b@);
        }
    }
    same
}

/// The stored form of the assignment of `value` to `var`.
pub fn make_export_line(var: &str, value: &str) -> (line: String)
    ensures
        line@ == export_line(var@, value@),
{
    proof {
        reveal_strlit("export ");
        reveal_strlit("=");
        reveal_strlit("\n");
        assert("export "@ =~= export_word());
        assert("="@ =~= seq!['=']);
        assert("\n"@ =~= seq!['\n']);
    }
    let mut line = String::from_str("export ");
    line.append(var);
    line.append("=");
    line.append(value);
    line.append("\n");
    line
}

/// Whether `piece` stands in `text` from position `at` on.
pub fn is_found_at(text: &Vec<char>, at: usize, piece: &Vec<char>) -> (found: bool)
    ensures
        found == found_at(text@, at as int, piece@),
{
    if at > text.len() || piece.len() > text.len() - at {
        return false;
    }
    let mut k: usize = 0;
    while k < piece.len()
        invariant
            at + piece.len() <= text.len(),
            k <= piece.len(),
            forall|j: int| 0 <= j < k ==> text@[at + j] == piece@[j],
        decreases piece.len() - k,
    {
        if text[at + k] != piece[k] {
            assert(text@.subrange(at as int, at + piece.len())[k as int] != piece@[k as int]);
            return false;
        }
        k += 1;
    }
    assert(text@.subrange(at as int, at + piece.len()) =~= piece@);
    true
}

/// Whether `text` holds `piece` somewhere.
pub fn has_text(text: &Vec<char>, piece: &Vec<char>) -> (held: bool)
    ensures
        held == holds(text@, piece@),
{
    if piece.len() > text.len() {
        return false;
    }
    let last = text.len() - piece.len();
    let mut at: usize = 0;
    loop
        invariant
            last == text.len() - piece.len(),
            at <= last,
            forall|p: int| 0 <= p < at ==> !found_at(text@, p, piece@),
        decreases last - at,
    {
        if is_found_at(text, at, piece) {
            return true;
        }
        if at == last {
            return false;
        }
        at += 1;
    }
}

/// The line to add to `text` so that it assigns `value` to `var`, or `None`
/// where `text` holds that line already.
pub fn missing_assignment(text: &str, var: &str, value: &str) -> (line: Option<String>)
    ensures
        line is None <==> declares(text@, var@, value@),
        line matches Some(l) ==> l@ == export_line(var@, value@),
{
    let line = make_export_line(var, value);
    let held = has_text(&to_chars(text), &to_chars(line.as_str()));
    if held {
        None
    } else {
        Some(line)
    }
}

/// The characters of `export NAME=` for the variable `var`.
pub fn make_export_prefix(var: &str) -> (prefix: Vec<char>)
    ensures
        prefix@ == export_prefix(var@),
{
    let mut prefix: Vec<char> = vec!['e', 'x', 'p', 'o', 'r', 't', ' '];
    assert(prefix@ =~= export_word());
    let mut name = to_chars(var);
    prefix.append(&mut name);
    prefix.push('=');
    assert(prefix@ =~= export_prefix(var@));
    prefix
}

/// `text` without its assignments to `var`, or `None` where it has none and
/// stays as it is. Each line that is kept is cut out of `text` by counting
/// characters from its start.
pub fn strip_assignments(text: &str, var: &str) -> (rewritten: Option<String>)
    ensures
        rewritten is Some <==> mentions(text@, var@),
        rewritten matches Some(t) ==> t@ == without(text@, var@),
{
    let chars = to_chars(text);
    let prefix = make_export_prefix(var);
    let mut out = String::new();
    let mut hit = false;
    let mut at: usize = 0;
    let ghost mut done: Seq<Seq<char>> = Seq::empty();
    proof {
        reveal_strlit("\n");
        assert("\n"@ =~= seq!['\n']);
        assert(text@.skip(0) =~= text@);
    }
    while at < chars.len()
        invariant
            chars@ == text@,
            prefix@ == export_prefix(var@),
            "\n"@ == seq!['\n'],
            at <= chars.len(),
            lines(text@) == done + lines(text@.skip(at as int)),
            out@ == join_lines(done.filter(spares(var@))),
            hit <==> exists|k: int| 0 <= k < done.len() && assigns(#[trigger] done[k], var@),
        decreases chars.len() - at,
    {
        let mut end: usize = at;
        while end < chars.len() && chars[end] != '\n'
            invariant
                at <= end <= chars.len(),
                forall|j: int| at <= j < end ==> chars@[j] != '\n',
            decreases chars.len() - end,
        {
            end += 1;
        }
        let ended = end < chars.len();
        let stop: usize = if ended && end > at && chars[end - 1] == '\r' {
            (end - 1) as usize
        } else {
            end
        };
        let next: usize = if ended {
            (end + 1) as usize
        } else {
            end
        };
        let ghost rest = text@.skip(at as int);
        let ghost line = text@.subrange(at as int, stop as int);
        proof {
            lemma_first_break(rest, end - at);
            if ended {
                assert(rest.take(end - at) =~= text@.subrange(at as int, end as int));
                assert(trim_cr(text@.subrange(at as int, end as int)) =~= line);
                assert(rest.skip(end - at + 1) =~= text@.skip(next as int));
            } else {
                assert(rest =~= line);
                assert(text@.skip(next as int).len() == 0);
            }
            assert(lines(rest) =~= seq![line] + lines(text@.skip(next as int)));
            assert(lines(text@) =~= done.push(line) + lines(text@.skip(next as int)));
        }
        let found = prefix.len() <= stop - at && is_found_at(&chars, at, &prefix);
        proof {
            if prefix.len() <= stop - at {
                assert(line.subrange(0, prefix@.len() as int) =~= text@.subrange(
                    at as int,
                    at + prefix@.len(),
                ));
            }
            assert(found == assigns(line, var@));
            done.lemma_filter_push(line, spares(var@));
            assert(done.push(line).drop_last() =~= done);
        }
        if found {
            hit = true;
        } else {
            let kept = text.substring_char(at, stop);
            out.append(kept);
            out.append("\n");
            proof {
                let after = done.filter(spares(var@)).push(line);
                assert(after.drop_last() =~= done.filter(spares(var@)));
                assert(after.last() == line);
            }
        }
        proof {
            let ghost before = done;
            done = done.push(line);
            assert forall|k: int| 0 <= k < before.len() implies done[k] == before[k] by {}
            assert(done[before.len() as int] == line);
        }
        at = next;
    }
    proof {
        assert(lines(text@.skip(at as int)) =~= Seq::<Seq<char>>::empty());
        assert(lines(text@) =~= done);
    }
    if hit {
        Some(out)
    } else {
        None
    }
}

} // verus!
