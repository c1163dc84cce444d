//! The mathematical model of a document: a sequence of characters cut into
//! lines at every line feed.

use vstd::prelude::*;

verus! {

/// How many line feeds `s` holds.
pub open spec fn newline_count(s: Seq<char>) -> nat
    decreases s.len(),
{
    if s.len() == 0 {
        0
    } else {
        newline_count(s.skip(1)) + if s[0] == '\n' { 1nat } else { 0nat }
    }
}

/// The number of lines: one more than the number of line feeds, so the empty
/// document has one (empty) line.
pub open spec fn line_count(s: Seq<char>) -> nat {
    newline_count(s) + 1
}

/// What is left of `s` once its first `k` lines, line feeds included, are cut
/// off; empty when `s` has fewer than `k` line feeds.
pub open spec fn after_lines(s: Seq<char>, k: nat) -> Seq<char>
    decreases s.len(),
{
    if k == 0 || s.len() == 0 {
        s
    } else if s[0] == '\n' {
        after_lines(s.skip(1), (k - 1) as nat)
    } else {
        after_lines(s.skip(1), k)
    }
}

/// The number of characters before the first line feed of `s`.
pub open spec fn first_line_len(s: Seq<char>) -> nat
    decreases s.len(),
{
    if s.len() == 0 || s[0] == '\n' {
        0
    } else {
        1 + first_line_len(s.skip(1))
    }
}

/// The character index at which line `k` begins; the length of `s` when `s`
/// has fewer than `k` line feeds.
pub open spec fn line_start(s: Seq<char>, k: nat) -> nat {
    (s.len() - after_lines(s, k).len()) as nat
}

/// The length of line `k` in characters, its line feed not counted.
pub open spec fn line_len(s: Seq<char>, k: nat) -> nat {
    first_line_len(after_lines(s, k))
}

/// The characters of line `k`, its line feed not included.
pub open spec fn line_chars(s: Seq<char>, k: nat) -> Seq<char> {
    after_lines(s, k).take(line_len(s, k) as int)
}

/// Cutting lines off leaves no more than there was.
pub proof fn lemma_after_lines_len(s: Seq<char>, k: nat)
    ensures
        after_lines(s, k).len() <= s.len(),
    decreases s.len(),
{
    if k == 0 || s.len() == 0 {
    } else if s[0] == '\n' {
        lemma_after_lines_len(s.skip(1), (k - 1) as nat);
    } else {
        lemma_after_lines_len(s.skip(1), k);
    }
}

/// A text holds no more line feeds than characters.
pub proof fn lemma_newline_count_bound(s: Seq<char>)
    ensures
        newline_count(s) <= s.len(),
    decreases s.len(),
{
    if s.len() > 0 {
        lemma_newline_count_bound(s.skip(1));
    }
}

/// Line feeds add up over concatenation.
pub proof fn lemma_newline_count_concat(a: Seq<char>, b: Seq<char>)
    ensures
        newline_count(a + b) == newline_count(a) + newline_count(b),
    decreases a.len(),
{
    if a.len() == 0 {
        assert(a + b =~= b);
    } else {
        assert((a + b).skip(1) =~= a.skip(1) + b);
        lemma_newline_count_concat(a.skip(1), b);
    }
}

/// The first line holds no line feed, and ends at a line feed or at the end.
pub proof fn lemma_first_line(s: Seq<char>)
    ensures
        first_line_len(s) <= s.len(),
        forall|j: int| 0 <= j < first_line_len(s) ==> s[j] != '\n',
        first_line_len(s) < s.len() ==> s[first_line_len(s) as int] == '\n',
    decreases s.len(),
{
    if s.len() == 0 || s[0] == '\n' {
    } else {
        lemma_first_line(s.skip(1));
        let t = s.skip(1);
        assert forall|j: int| 0 <= j < first_line_len(s) implies s[j] != '\n' by {
            if j > 0 {
                assert(s[j] == t[j - 1]);
            }
        }
        if first_line_len(s) < s.len() {
            assert(s[first_line_len(s) as int] == t[first_line_len(t) as int]);
        }
    }
}

/// A prefix without line feeds lies inside the first line.
pub proof fn lemma_first_line_at_least(s: Seq<char>, n: nat)
    requires
        n <= s.len(),
        forall|j: int| 0 <= j < n ==> s[j] != '\n',
    ensures
        first_line_len(s) >= n,
    decreases n,
{
    if n > 0 {
        let t = s.skip(1);
        assert forall|j: int| 0 <= j < n - 1 implies t[j] != '\n' by {
            assert(t[j] == s[j + 1]);
        }
        lemma_first_line_at_least(t, (n - 1) as nat);
    }
}

/// The first line ends exactly where the first line feed stands.
pub proof fn lemma_first_line_is(s: Seq<char>, n: nat)
    requires
        n <= s.len(),
        forall|j: int| 0 <= j < n ==> s[j] != '\n',
        n < s.len() ==> s[n as int] == '\n',
    ensures
        first_line_len(s) == n,
{
    lemma_first_line_at_least(s, n);
    lemma_first_line(s);
}

/// For a line that exists, the text before it holds exactly `k` line feeds
/// and, unless `k` is 0, ends in one.
pub proof fn lemma_line_prefix(s: Seq<char>, k: nat)
    requires
        k <= newline_count(s),
    ensures
        line_start(s, k) <= s.len(),
        newline_count(s.take(line_start(s, k) as int)) == k,
        newline_count(after_lines(s, k)) + k == newline_count(s),
        k == 0 ==> line_start(s, k) == 0,
        k > 0 ==> line_start(s, k) > 0 && s[line_start(s, k) - 1] == '\n',
        s.skip(line_start(s, k) as int) == after_lines(s, k),
    decreases s.len(),
{
    lemma_after_lines_len(s, k);
    if k == 0 {
        assert(s.take(0) =~= Seq::<char>::empty());
        assert(s.skip(0) =~= s);
    } else if s.len() == 0 {
    } else {
        let t = s.skip(1);
        let k2: nat = if s[0] == '\n' { (k - 1) as nat } else { k };
        lemma_line_prefix(t, k2);
        lemma_after_lines_len(t, k2);
        let p = line_start(t, k2);
        assert(line_start(s, k) == p + 1);
        assert(s.take(p as int + 1).skip(1) =~= t.take(p as int));
        assert(s.skip(p as int + 1) =~= t.skip(p as int));
        if k2 > 0 {
            assert(s[p + 1 - 1] == t[p - 1]);
        }
    }
}

/// Cutting `k` lines off a text whose head holds exactly `k` line feeds, the
/// last of them at its end, leaves the tail.
pub proof fn lemma_after_lines_of_concat(pre: Seq<char>, tail: Seq<char>, k: nat)
    requires
        newline_count(pre) == k,
        k == 0 ==> pre.len() == 0,
        k > 0 ==> pre.len() > 0 && pre.last() == '\n',
    ensures
        after_lines(pre + tail, k) == tail,
        line_start(pre + tail, k) == pre.len(),
    decreases pre.len(),
{
    let s = pre + tail;
    if k == 0 {
        assert(s =~= tail);
    } else {
        let p2 = pre.skip(1);
        assert(s.skip(1) =~= p2 + tail);
        let k2: nat = if pre[0] == '\n' { (k - 1) as nat } else { k };
        if p2.len() == 0 {
            assert(newline_count(p2) == 0);
            assert(pre[0] == pre.last());
            assert(k2 == 0);
        } else {
            assert(p2.last() == pre.last());
            if k2 == 0 {
                lemma_newline_count_concat(p2.drop_last(), seq![p2.last()]);
                assert(p2.drop_last() + seq![p2.last()] =~= p2);
                assert(seq![p2.last()].skip(1) =~= Seq::<char>::empty());
                assert(newline_count(seq![p2.last()]) == 1);
            }
        }
        lemma_after_lines_of_concat(p2, tail, k2);
    }
}

/// The line after line `k` begins behind the line feed that ends line `k`,
/// or at the end of the text when line `k` is the last.
pub proof fn lemma_next_line_start(s: Seq<char>, k: nat)
    requires
        k <= newline_count(s),
    ensures
        line_start(s, k) + line_len(s, k) <= s.len(),
        k < newline_count(s) ==> line_start(s, k + 1) == line_start(s, k) + line_len(s, k) + 1,
        k == newline_count(s) ==> line_start(s, k + 1) == s.len() && line_start(s, k)
            + line_len(s, k) == s.len(),
        k < newline_count(s) ==> s[(line_start(s, k) + line_len(s, k)) as int] == '\n',
    decreases s.len(),
{
    lemma_after_lines_len(s, k);
    lemma_after_lines_len(s, k + 1);
    if s.len() == 0 {
    } else if k == 0 {
        lemma_first_line(s);
        lemma_skip_first_line(s);
    } else {
        let t = s.skip(1);
        let k2: nat = if s[0] == '\n' { (k - 1) as nat } else { k };
        lemma_next_line_start(t, k2);
        lemma_after_lines_len(t, k2);
        lemma_after_lines_len(t, k2 + 1);
        assert(after_lines(s, k) == after_lines(t, k2));
        assert(after_lines(s, k + 1) == after_lines(t, k2 + 1));
        if k2 < newline_count(t) {
            assert(s[(line_start(s, k) + line_len(s, k)) as int] == t[(line_start(t, k2)
                + line_len(t, k2)) as int]);
        }
    }
}

/// Cutting one line off: what follows the first line feed, or nothing.
pub proof fn lemma_skip_first_line(s: Seq<char>)
    ensures
        newline_count(s) == 0 ==> first_line_len(s) == s.len() && after_lines(s, 1).len() == 0,
        newline_count(s) > 0 ==> first_line_len(s) < s.len() && after_lines(s, 1) == s.skip(
            first_line_len(s) as int + 1,
        ),
    decreases s.len(),
{
    if s.len() == 0 {
    } else if s[0] == '\n' {
        assert(after_lines(s.skip(1), 0) == s.skip(1));
    } else {
        let t = s.skip(1);
        lemma_skip_first_line(t);
        if newline_count(s) > 0 {
            assert(t.skip(first_line_len(t) as int + 1) =~= s.skip(first_line_len(s) as int + 1));
        }
    }
}

/// The line that the character index `i` lies on: the number of line feeds
/// in front of it.
pub open spec fn line_of_index(s: Seq<char>, i: int) -> nat {
    newline_count(s.take(i))
}

/// A text without line feeds counts none.
pub proof fn lemma_no_newlines(s: Seq<char>)
    requires
        forall|j: int| 0 <= j < s.len() ==> s[j] != '\n',
    ensures
        newline_count(s) == 0,
    decreases s.len(),
{
    if s.len() > 0 {
        let t = s.skip(1);
        assert forall|j: int| 0 <= j < t.len() implies t[j] != '\n' by {
            assert(t[j] == s[j + 1]);
        }
        lemma_no_newlines(t);
    }
}

/// One more character adds one line feed if it is one.
pub proof fn lemma_newline_count_insert(s: Seq<char>, i: int, ch: char)
    requires
        0 <= i <= s.len(),
    ensures
        newline_count(s.insert(i, ch)) == newline_count(s) + if ch == '\n' { 1nat } else { 0nat },
{
    let one = seq![ch];
    assert(one.skip(1) =~= Seq::<char>::empty());
    assert(newline_count(one.skip(1)) == 0);
    assert(newline_count(one) == if ch == '\n' { 1nat } else { 0nat });
    assert(s.insert(i, ch) =~= s.take(i) + one + s.skip(i));
    assert(s =~= s.take(i) + s.skip(i));
    lemma_newline_count_concat(s.take(i), s.skip(i));
    lemma_newline_count_concat(s.take(i), one);
    lemma_newline_count_concat(s.take(i) + one, s.skip(i));
}

/// Taking a range out takes out the line feeds that it holds.
pub proof fn lemma_newline_count_cut(s: Seq<char>, a: int, b: int)
    requires
        0 <= a <= b <= s.len(),
    ensures
        newline_count(s.take(a) + s.skip(b)) + newline_count(s.subrange(a, b)) == newline_count(s),
{
    assert(s =~= s.take(a) + s.subrange(a, b) + s.skip(b));
    lemma_newline_count_concat(s.take(a), s.subrange(a, b));
    lemma_newline_count_concat(s.take(a) + s.subrange(a, b), s.skip(b));
    lemma_newline_count_concat(s.take(a), s.skip(b));
}

/// Writing another tail behind the start of a line that exists leaves the
/// line where it began, and the new tail is what follows.
pub proof fn lemma_replace_tail(s: Seq<char>, k: nat, tail: Seq<char>)
    requires
        k <= newline_count(s),
    ensures
        after_lines(s.take(line_start(s, k) as int) + tail, k) == tail,
        line_start(s.take(line_start(s, k) as int) + tail, k) == line_start(s, k),
        newline_count(s.take(line_start(s, k) as int) + tail) == k + newline_count(tail),
        s == s.take(line_start(s, k) as int) + after_lines(s, k),
{
    lemma_line_prefix(s, k);
    let p = line_start(s, k) as int;
    let pre = s.take(p);
    if k > 0 {
        assert(pre.last() == s[p - 1]);
    }
    lemma_after_lines_of_concat(pre, tail, k);
    lemma_newline_count_concat(pre, tail);
    assert(s =~= pre + s.skip(p));
}

/// A position inside a line lies on that line, and as far behind the line's
/// start as its column says.
pub proof fn lemma_position_round_trip(s: Seq<char>, k: nat, col: nat)
    requires
        k < line_count(s),
        col <= line_len(s, k),
    ensures
        line_start(s, k) + col <= s.len(),
        line_of_index(s, (line_start(s, k) + col) as int) == k,
        line_start(s, k) + col - line_start(s, line_of_index(s, (line_start(s, k) + col) as int))
            == col,
{
    lemma_replace_tail(s, k, after_lines(s, k));
    lemma_next_line_start(s, k);
    let p = line_start(s, k) as int;
    let t = after_lines(s, k);
    lemma_first_line(t);
    let head = t.take(col as int);
    lemma_no_newlines(head);
    assert(s.take(p + col) =~= s.take(p) + head);
    lemma_newline_count_concat(s.take(p), head);
    lemma_line_prefix(s, k);
}

/// The length of the longest of the first `n` lines.
pub open spec fn widest_upto(s: Seq<char>, n: nat) -> nat
    decreases n,
{
    if n == 0 {
        0
    } else {
        let rest = widest_upto(s, (n - 1) as nat);
        let here = line_len(s, (n - 1) as nat);
        if here > rest {
            here
        } else {
            rest
        }
    }
}

/// The length of the longest line.
pub open spec fn widest_line(s: Seq<char>) -> nat {
    widest_upto(s, line_count(s))
}

/// What one more character at the end does to line `k` of a text.
pub proof fn lemma_push_char_line(u: Seq<char>, c: char, k: nat)
    requires
        k <= newline_count(u),
    ensures
        line_start(u.push(c), k) == line_start(u, k),
        k < newline_count(u) ==> line_len(u.push(c), k) == line_len(u, k),
        k == newline_count(u) ==> line_len(u.push(c), k) == line_len(u, k) + if c == '\n' {
            0nat
        } else {
            1nat
        },
        k == newline_count(u) ==> line_start(u, k) + line_len(u, k) == u.len(),
{
    let t = after_lines(u, k);
    let p = line_start(u, k) as int;
    lemma_replace_tail(u, k, t.push(c));
    lemma_replace_tail(u, k, t);
    lemma_after_lines_len(u, k);
    assert(u.push(c) =~= u.take(p) + t.push(c));
    lemma_first_line(t);
    lemma_line_prefix(u, k);
    lemma_skip_first_line(t);
    let n = first_line_len(t);
    let t2 = t.push(c);
    if k < newline_count(u) {
        assert forall|j: int| 0 <= j < n implies t2[j] != '\n' by {
            assert(t2[j] == t[j]);
        }
        assert(t2[n as int] == t[n as int]);
        lemma_first_line_is(t2, n);
    } else {
        assert forall|j: int| 0 <= j < n implies t2[j] != '\n' by {
            assert(t2[j] == t[j]);
        }
        if c == '\n' {
            lemma_first_line_is(t2, n);
        } else {
            lemma_first_line_is(t2, n + 1);
        }
    }
}

/// One more character at the end leaves the lengths of the lines that were
/// closed, and so the longest of them.
pub proof fn lemma_push_char_widest(u: Seq<char>, c: char, n: nat)
    requires
        n <= newline_count(u),
    ensures
        widest_upto(u.push(c), n) == widest_upto(u, n),
    decreases n,
{
    if n > 0 {
        lemma_push_char_widest(u, c, (n - 1) as nat);
        lemma_push_char_line(u, c, (n - 1) as nat);
    }
}

/// A line feed at the end opens an empty line behind it.
pub proof fn lemma_push_newline(u: Seq<char>)
    ensures
        newline_count(u.push('\n')) == newline_count(u) + 1,
        line_start(u.push('\n'), newline_count(u) + 1) == u.len() + 1,
        line_len(u.push('\n'), newline_count(u) + 1) == 0,
{
    let s = u.push('\n');
    let k = newline_count(u);
    assert(s =~= u.insert(u.len() as int, '\n'));
    lemma_newline_count_insert(u, u.len() as int, '\n');
    lemma_push_char_line(u, '\n', k);
    lemma_next_line_start(s, k);
    lemma_after_lines_len(s, k + 1);
    lemma_first_line(after_lines(s, k + 1));
}

/// Any other character at the end opens no line.
pub proof fn lemma_push_plain(u: Seq<char>, c: char)
    requires
        c != '\n',
    ensures
        newline_count(u.push(c)) == newline_count(u),
{
    assert(u.push(c) =~= u.insert(u.len() as int, c));
    lemma_newline_count_insert(u, u.len() as int, c);
}

} // verus!
