//! What holds of a startup file across the two operations.

use vstd::prelude::*;

use crate::text::{
    assigns, declares, export_line, export_prefix, export_word, first_break, found_at, holds_line,
    join_lines, lemma_first_break, line_start, lines, mentions, spares, trim_cr, without,
};

verus! {

/// `s` holds no line feed.
pub open spec fn unbroken(s: Seq<char>) -> bool {
    forall|i: int| 0 <= i < s.len() ==> s[i] != '\n'
}

/// `s` can stand as one line: it holds neither a line feed nor a carriage return.
pub open spec fn single_line(s: Seq<char>) -> bool {
    forall|i: int| 0 <= i < s.len() ==> s[i] != '\n' && s[i] != '\r'
}

/// `text` is empty or ends with a line feed, as a startup file does.
pub open spec fn terminated(text: Seq<char>) -> bool {
    text.len() == 0 || text.last() == '\n'
}

/// The content of a startup file that held `text`, once `var` was set to `value`.
pub open spec fn after_set(text: Seq<char>, var: Seq<char>, value: Seq<char>) -> Seq<char> {
    if declares(text, var, value) {
        text
    } else {
        text + export_line(var, value)
    }
}

/// The content of a startup file that held `text`, once `var` was unset.
pub open spec fn after_unset(text: Seq<char>, var: Seq<char>) -> Seq<char> {
    if mentions(text, var) {
        without(text, var)
    } else {
        text
    }
}

/// The line that begins at position `at` of `text`.
spec fn line_at(text: Seq<char>, at: int) -> Seq<char> {
    let rest = text.skip(at);
    let n = first_break(rest);
    if 0 <= n < rest.len() {
        trim_cr(rest.take(n))
    } else {
        rest
    }
}

proof fn lemma_first_break_bounds(s: Seq<char>)
    ensures
        0 <= first_break(s) <= s.len(),
        forall|j: int| 0 <= j < first_break(s) ==> s[j] != '\n',
        first_break(s) < s.len() ==> s[first_break(s)] == '\n',
    decreases s.len(),
{
    if s.len() == 0 || s[0] == '\n' {
    } else {
        let rest = s.drop_first();
        lemma_first_break_bounds(rest);
        assert forall|j: int| 0 <= j < first_break(s) implies s[j] != '\n' by {
            if j > 0 {
                assert(rest[j - 1] == s[j]);
            }
        }
    }
}

/// A line that begins in `text` is one of its lines.
proof fn lemma_line_at_is_a_line(text: Seq<char>, at: int)
    requires
        line_start(text, at),
        0 <= at < text.len(),
    ensures
        lines(text).contains(line_at(text, at)),
    decreases text.len(),
{
    lemma_first_break_bounds(text);
    let n = first_break(text);
    if at == 0 {
        assert(text.skip(0) =~= text);
        assert(lines(text)[0] == line_at(text, 0));
    } else {
        assert(n <= at - 1);
        let rest = text.skip(n + 1);
        let shifted = at - n - 1;
        assert(rest.skip(shifted) =~= text.skip(at));
        if shifted > 0 {
            assert(rest[shifted - 1] == text[at - 1]);
        }
        lemma_line_at_is_a_line(rest, shifted);
        let k = choose|k: int|
            0 <= k < lines(rest).len() && lines(rest)[k] == line_at(rest, shifted);
        assert(lines(text)[k + 1] == line_at(text, at));
    }
}

/// The prefix of an assignment holds no line feed where the name holds none.
proof fn lemma_prefix_unbroken(var: Seq<char>)
    requires
        unbroken(var),
    ensures
        unbroken(export_prefix(var)),
        export_prefix(var).len() == var.len() + 8,
        export_prefix(var).last() == '=',
{
    let p = export_prefix(var);
    assert forall|i: int| 0 <= i < p.len() implies p[i] != '\n' by {
        if i < 7 {
            assert(p[i] == export_word()[i]);
        } else if i < 7 + var.len() {
            assert(p[i] == var[i - 7]);
        }
    }
}

/// Joining begins with the first line and its line feed.
proof fn lemma_join_first(first: Seq<char>, rest: Seq<Seq<char>>)
    ensures
        join_lines(seq![first] + rest) == first + seq!['\n'] + join_lines(rest),
    decreases rest.len(),
{
    let all = seq![first] + rest;
    if rest.len() == 0 {
        assert(all.drop_last() =~= Seq::<Seq<char>>::empty());
        assert(all.last() == first);
        assert(join_lines(all.drop_last()) =~= Seq::<char>::empty());
        assert(join_lines(rest) =~= Seq::<char>::empty());
        assert(join_lines(all) =~= first + seq!['\n'] + join_lines(rest));
    } else {
        assert(all.drop_last() =~= seq![first] + rest.drop_last());
        assert(all.last() == rest.last());
        lemma_join_first(first, rest.drop_last());
        assert(join_lines(all) =~= first + seq!['\n'] + join_lines(rest));
    }
}

/// The lines of a joined text are the lines that were joined, each without a
/// carriage return at its end.
proof fn lemma_lines_of_join(ls: Seq<Seq<char>>)
    requires
        forall|k: int| 0 <= k < ls.len() ==> unbroken(#[trigger] ls[k]),
    ensures
        lines(join_lines(ls)).len() == ls.len(),
        forall|k: int| 0 <= k < ls.len() ==> #[trigger] lines(join_lines(ls))[k] == trim_cr(ls[k]),
    decreases ls.len(),
{
    if ls.len() > 0 {
        let first = ls[0];
        let rest = ls.drop_first();
        assert(ls =~= seq![first] + rest);
        lemma_join_first(first, rest);
        let text = join_lines(ls);
        assert(unbroken(first));
        lemma_first_break(text, first.len() as int);
        assert(text.take(first.len() as int) =~= first);
        assert(text.skip(first.len() as int + 1) =~= join_lines(rest));
        assert forall|k: int| 0 <= k < rest.len() implies unbroken(#[trigger] rest[k]) by {
            assert(rest[k] == ls[k + 1]);
        }
        lemma_lines_of_join(rest);
        assert(lines(text) =~= seq![trim_cr(first)] + lines(join_lines(rest)));
        assert forall|k: int| 0 <= k < ls.len() implies #[trigger] lines(text)[k] == trim_cr(
            ls[k],
        ) by {
            if k > 0 {
                assert(lines(text)[k] == lines(join_lines(rest))[k - 1]);
                assert(rest[k - 1] == ls[k]);
            }
        }
    }
}

/// No line holds a line feed.
proof fn lemma_lines_unbroken(text: Seq<char>)
    ensures
        forall|k: int| 0 <= k < lines(text).len() ==> unbroken(#[trigger] lines(text)[k]),
    decreases text.len(),
{
    if text.len() > 0 {
        lemma_first_break_bounds(text);
        let n = first_break(text);
        if n < text.len() {
            let rest = text.skip(n + 1);
            lemma_lines_unbroken(rest);
            assert forall|k: int| 0 <= k < lines(text).len() implies unbroken(
                #[trigger] lines(text)[k],
            ) by {
                if k > 0 {
                    assert(lines(text)[k] == lines(rest)[k - 1]);
                }
            }
        }
    }
}

/// A joined text is empty or ends with a line feed.
proof fn lemma_join_terminated(ls: Seq<Seq<char>>)
    ensures
        terminated(join_lines(ls)),
{
}

/// A joined text holds each of the lines that were joined, with its line feed.
proof fn lemma_join_holds(ls: Seq<Seq<char>>, line: Seq<char>)
    requires
        ls.contains(line),
    ensures
        holds_line(join_lines(ls), line + seq!['\n']),
    decreases ls.len(),
{
    let whole = line + seq!['\n'];
    let before = join_lines(ls.drop_last());
    let text = join_lines(ls);
    assert(text =~= before + (ls.last() + seq!['\n']));
    if ls.last() == line {
        lemma_join_terminated(ls.drop_last());
        let at = before.len() as int;
        assert(text.subrange(at, at + whole.len()) =~= whole);
        assert(line_start(text, at) && found_at(text, at, whole));
    } else {
        let k = choose|k: int| 0 <= k < ls.len() && ls[k] == line;
        assert(ls.drop_last()[k] == line);
        lemma_join_holds(ls.drop_last(), line);
        let at = choose|at: int| line_start(before, at) && found_at(before, at, whole);
        assert(text.subrange(at, at + whole.len()) =~= before.subrange(at, at + whole.len()));
        if at > 0 {
            assert(text[at - 1] == before[at - 1]);
        }
        assert(line_start(text, at) && found_at(text, at, whole));
    }
}

/// A line that begins with a piece still begins with it when a carriage
/// return at the line's end comes back.
proof fn lemma_trimmed_assigns(line: Seq<char>, var: Seq<char>)
    requires
        assigns(trim_cr(line), var),
    ensures
        assigns(line, var),
{
    let p = export_prefix(var);
    assert(line.subrange(0, p.len() as int) =~= trim_cr(line).subrange(0, p.len() as int));
}

/// After `var` was unset, no line of the startup file assigns to it.
pub proof fn unset_leaves_no_assignment(text: Seq<char>, var: Seq<char>)
    ensures
        !mentions(after_unset(text, var), var),
{
    let after = after_unset(text, var);
    if mentions(text, var) {
        let kept = lines(text).filter(spares(var));
        lemma_lines_unbroken(text);
        assert forall|k: int| 0 <= k < kept.len() implies unbroken(#[trigger] kept[k]) by {
            assert(kept.contains(kept[k]));
            lines(text).lemma_filter_contains_rev(spares(var), kept[k]);
        }
        lemma_lines_of_join(kept);
        if mentions(after, var) {
            let k = choose|k: int| 0 <= k < lines(after).len() && assigns(lines(after)[k], var);
            lemma_trimmed_assigns(kept[k], var);
            lines(text).lemma_filter_pred(spares(var), k);
        }
    }
}

/// A startup file that was empty or ended with a line feed is so again after
/// a variable was set, and after one was unset.
pub proof fn operations_keep_the_last_line_feed(text: Seq<char>, var: Seq<char>, value: Seq<char>)
    requires
        terminated(text),
    ensures
        terminated(after_set(text, var, value)),
        terminated(after_unset(text, var)),
{
    lemma_join_terminated(lines(text).filter(spares(var)));
}

/// After `var` was set to `value`, the startup file declares that value.
pub proof fn set_declares(text: Seq<char>, var: Seq<char>, value: Seq<char>)
    ensures
        declares(after_set(text, var, value), var, value),
{
    if !declares(text, var, value) {
        let whole = export_line(var, value);
        let after = text + whole;
        let at = text.len() as int;
        assert(after.subrange(at, at + whole.len()) =~= whole);
        assert(found_at(after, at, whole));
    }
}

/// Setting `var` to `value` a second time changes nothing in a startup file.
pub proof fn set_is_idempotent(text: Seq<char>, var: Seq<char>, value: Seq<char>)
    ensures
        after_set(after_set(text, var, value), var, value) == after_set(text, var, value),
{
    set_declares(text, var, value);
}

/// Setting `var` to `value` writes the line once: where the startup file did
/// not hold it, it then holds it at its end and nowhere else. This is said of
/// a name and a value without a line feed.
pub proof fn set_adds_no_duplicate(text: Seq<char>, var: Seq<char>, value: Seq<char>, at: int)
    requires
        unbroken(var),
        unbroken(value),
        !declares(text, var, value),
        found_at(after_set(text, var, value), at, export_line(var, value)),
    ensures
        at == text.len(),
{
    let whole = export_line(var, value);
    let after = text + whole;
    lemma_prefix_unbroken(var);
    let p = export_prefix(var);
    if at < text.len() {
        if at + whole.len() <= text.len() {
            assert(text.subrange(at, at + whole.len()) =~= after.subrange(at, at + whole.len()));
            assert(found_at(text, at, whole));
        } else {
            let j = at + whole.len() - 1 - text.len();
            assert(after.subrange(at, at + whole.len())[whole.len() - 1] == whole[whole.len() - 1]);
            assert(after[at + whole.len() - 1] == whole[j]);
            if j < p.len() {
                assert(whole[j] == p[j]);
            } else {
                assert(whole[j] == value[j - p.len()]);
            }
        }
    }
}

/// A line that is appended to a startup file which ended with a line feed, or
/// was empty, stands at the start of a line.
pub proof fn appended_line_starts_a_line(text: Seq<char>, var: Seq<char>, value: Seq<char>)
    requires
        terminated(text),
        !declares(text, var, value),
    ensures
        holds_line(after_set(text, var, value), export_line(var, value)),
{
    let whole = export_line(var, value);
    let after = text + whole;
    let at = text.len() as int;
    assert(after.subrange(at, at + whole.len()) =~= whole);
    assert(line_start(after, at) && found_at(after, at, whole));
}

/// Unsetting `a` keeps the assignment of `value` to `b` that stands at the
/// start of a line, unless that line is itself an assignment to `a`.
pub proof fn unset_keeps_other_assignments(
    text: Seq<char>,
    a: Seq<char>,
    b: Seq<char>,
    value: Seq<char>,
)
    requires
        single_line(b),
        single_line(value),
        holds_line(text, export_line(b, value)),
        !assigns(export_prefix(b) + value, a),
    ensures
        holds_line(after_unset(text, a), export_line(b, value)),
        declares(after_unset(text, a), b, value),
{
    if mentions(text, a) {
        let line = export_prefix(b) + value;
        let whole = export_line(b, value);
        let at = choose|at: int| line_start(text, at) && found_at(text, at, whole);
        lemma_prefix_unbroken(b);
        let rest = text.skip(at);
        assert forall|j: int| 0 <= j < whole.len() implies rest[j] == whole[j] by {
            assert(text.subrange(at, at + whole.len())[j] == whole[j]);
        }
        assert forall|j: int| 0 <= j < line.len() implies rest[j] != '\n' by {
            assert(rest[j] == whole[j]);
            if j >= export_prefix(b).len() {
                assert(whole[j] == value[j - export_prefix(b).len()]);
            } else {
                assert(whole[j] == export_prefix(b)[j]);
            }
        }
        assert(rest[line.len() as int] == '\n') by {
            assert(whole[line.len() as int] == '\n');
        }
        lemma_first_break(rest, line.len() as int);
        assert(rest.take(line.len() as int) =~= line);
        assert(line.last() != '\r') by {
            if value.len() > 0 {
                assert(line.last() == value.last());
            } else {
                assert(line.last() == export_prefix(b).last());
            }
        }
        assert(line_at(text, at) == line);
        lemma_line_at_is_a_line(text, at);
        let k = choose|k: int| 0 <= k < lines(text).len() && lines(text)[k] == line;
        assert(spares(a)(line));
        lines(text).lemma_filter_contains(spares(a), k);
        lemma_join_holds(lines(text).filter(spares(a)), line);
        assert(line + seq!['\n'] =~= whole);
    }
    let after = after_unset(text, a);
    let kept_at = choose|at: int|
        line_start(after, at) && found_at(after, at, export_line(b, value));
    assert(found_at(after, kept_at, export_line(b, value)));
}

/// The assignment to one name is no assignment to another, where neither
/// name holds an equals sign.
pub proof fn distinct_names_stay_apart(a: Seq<char>, b: Seq<char>, value: Seq<char>)
    requires
        a != b,
        !a.contains('='),
        !b.contains('='),
    ensures
        !assigns(export_prefix(b) + value, a),
{
    let line = export_prefix(b) + value;
    let p = export_prefix(a);
    if assigns(line, a) {
        assert forall|j: int| 0 <= j < p.len() implies line[j] == p[j] by {
            assert(line.subrange(0, p.len() as int)[j] == p[j]);
        }
        let m = a.len() as int;
        let n = b.len() as int;
        if m < n {
            assert(line[7 + m] == b[m]);
            assert(p[7 + m] == '=');
            assert(b.contains(b[m]));
        } else if n < m {
            assert(line[7 + n] == '=');
            assert(p[7 + n] == a[n]);
            assert(a.contains(a[n]));
        } else {
            assert forall|i: int| 0 <= i < a.len() implies a[i] == b[i] by {
                assert(line[7 + i] == b[i]);
                assert(p[7 + i] == a[i]);
            }
            assert(a =~= b);
        }
    }
}

/// Set `a`, set `b`, unset `a`: the startup file then declares the value of
/// `b` and has no line left that assigns to `a`.
///
/// This is said of an assignment to `b` that fits one line, is not itself an
/// assignment to `a`, and is written by the second call to a file that ends
/// with a line feed. A file that held the characters of that assignment
/// before, inside a longer line, may lose them with that line.
pub proof fn round_trip(
    text: Seq<char>,
    a: Seq<char>,
    value_a: Seq<char>,
    b: Seq<char>,
    value_b: Seq<char>,
)
    requires
        single_line(b),
        single_line(value_b),
        !assigns(export_prefix(b) + value_b, a),
        terminated(after_set(text, a, value_a)),
        !declares(after_set(text, a, value_a), b, value_b),
    ensures
        ({
            let last = after_unset(after_set(after_set(text, a, value_a), b, value_b), a);
            &&& declares(last, b, value_b)
            &&& !mentions(last, a)
        }),
{
    let first = after_set(text, a, value_a);
    let second = after_set(first, b, value_b);
    appended_line_starts_a_line(first, b, value_b);
    unset_keeps_other_assignments(second, a, b, value_b);
    unset_leaves_no_assignment(second, a);
}

/// The lines of a text that ended with a line feed, or was empty, with one
/// more line after it.
proof fn lemma_lines_of_appended(text: Seq<char>, line: Seq<char>)
    requires
        terminated(text),
        unbroken(line),
    ensures
        lines(text + line + seq!['\n']) == lines(text).push(trim_cr(line)),
    decreases text.len(),
{
    let whole = text + line + seq!['\n'];
    if text.len() == 0 {
        lemma_first_break(whole, line.len() as int);
        assert(whole.take(line.len() as int) =~= line);
        let tail = whole.skip(line.len() as int + 1);
        assert(tail.len() == 0);
        assert(lines(tail) =~= Seq::<Seq<char>>::empty());
        assert(lines(whole) =~= seq![trim_cr(whole.take(line.len() as int))] + lines(tail));
        assert(lines(whole) =~= seq![trim_cr(line)]);
        assert(lines(text) =~= Seq::<Seq<char>>::empty());
        assert(lines(text).push(trim_cr(line)) =~= seq![trim_cr(line)]);
    } else {
        lemma_first_break_bounds(text);
        let n = first_break(text);
        if n == text.len() {
            assert(text[n - 1] != '\n');
        }
        lemma_first_break(whole, n);
        let rest = text.skip(n + 1);
        if rest.len() > 0 {
            assert(rest.last() == text.last());
        }
        assert(whole.take(n) =~= text.take(n));
        assert(whole.skip(n + 1) =~= rest + line + seq!['\n']);
        lemma_lines_of_appended(rest, line);
        assert(lines(whole) =~= lines(text).push(trim_cr(line)));
    }
}

/// Filtering keeps a sequence whose elements all pass.
proof fn lemma_filter_keeps_all(ls: Seq<Seq<char>>, var: Seq<char>)
    requires
        forall|k: int| 0 <= k < ls.len() ==> !assigns(#[trigger] ls[k], var),
    ensures
        ls.filter(spares(var)) == ls,
    decreases ls.len(),
{
    if ls.len() > 0 {
        lemma_filter_keeps_all(ls.drop_last(), var);
        ls.drop_last().lemma_filter_push(ls.last(), spares(var));
        assert(ls.drop_last().push(ls.last()) =~= ls);
        assert(spares(var)(ls.last()));
    }
}

/// `text` is made of whole lines, each ended by a single line feed: joining
/// its lines gives it back.
pub open spec fn canonical(text: Seq<char>) -> bool {
    join_lines(lines(text)) == text
}

/// Unsetting `var` after it was set gives the startup file back as it was,
/// character for character.
///
/// This is said of a file of whole lines without carriage returns before
/// their line feeds, none of which assigned to `var`, and of a name and a
/// value without a line feed.
pub proof fn unset_restores_the_text(text: Seq<char>, var: Seq<char>, value: Seq<char>)
    requires
        canonical(text),
        !mentions(text, var),
        unbroken(var),
        unbroken(value),
    ensures
        after_unset(after_set(text, var, value), var) == text,
{
    if !declares(text, var, value) {
        let p = export_prefix(var);
        let line = p + value;
        let set = text + export_line(var, value);
        lemma_join_terminated(lines(text));
        lemma_prefix_unbroken(var);
        assert(unbroken(line)) by {
            assert forall|i: int| 0 <= i < line.len() implies line[i] != '\n' by {
                if i < p.len() {
                    assert(line[i] == p[i]);
                } else {
                    assert(line[i] == value[i - p.len()]);
                }
            }
        }
        assert(set =~= text + line + seq!['\n']);
        lemma_lines_of_appended(text, line);
        let short = trim_cr(line);
        assert(assigns(short, var)) by {
            if value.len() == 0 {
                assert(line.last() == p.last());
            }
            assert(short.subrange(0, p.len() as int) =~= p);
        }
        let k = lines(text).len() as int;
        assert(lines(set)[k] == short);
        assert(mentions(set, var));
        lines(text).lemma_filter_push(short, spares(var));
        lemma_filter_keeps_all(lines(text), var);
    }
}

} // verus!
