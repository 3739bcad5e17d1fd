//! Splitting text into lines, fields, blocks and words, and joining it again.

use vstd::prelude::*;
use crate::text::{
    find, find_from, is_space, is_whitespace, lemma_find, lemma_find_is, pieces, push_chars,
    starts_with,
};

verus! {

/// The pieces of `s` between the occurrences of `sep`, taken from the left and
/// without overlap. There is always at least one piece; an empty `sep` splits
/// nothing.
pub open spec fn parts(s: Seq<char>, sep: Seq<char>) -> Seq<Seq<char>>
    decreases s.len(),
{
    let k = find(s, sep);
    if sep.len() > 0 && 0 <= k && k + sep.len() <= s.len() {
        seq![s.take(k)] + parts(s.skip(k + sep.len()), sep)
    } else {
        seq![s]
    }
}

/// `l` without one carriage return at its end.
pub open spec fn chomped(l: Seq<char>) -> Seq<char> {
    if l.len() > 0 && l.last() == '\r' {
        l.drop_last()
    } else {
        l
    }
}

/// The lines of `s`. A line ends at a line feed, or at a carriage return
/// directly before one; neither belongs to the line. What follows the last
/// line feed is a line unless it is empty.
pub open spec fn lines(s: Seq<char>) -> Seq<Seq<char>>
    decreases s.len(),
{
    if s.len() == 0 {
        seq![]
    } else {
        let k = find(s, seq!['\n']);
        if 0 <= k < s.len() {
            seq![chomped(s.take(k))] + lines(s.skip(k + 1))
        } else {
            seq![s]
        }
    }
}

/// The number of characters at the start of `s` that are not white space.
pub open spec fn word_len(s: Seq<char>) -> nat
    decreases s.len(),
{
    if s.len() == 0 || is_space(s[0]) {
        0
    } else {
        1 + word_len(s.drop_first())
    }
}

/// The maximal runs of characters of `s` that are not white space.
pub open spec fn words(s: Seq<char>) -> Seq<Seq<char>>
    decreases s.len(),
{
    if s.len() == 0 {
        seq![]
    } else if is_space(s[0]) {
        words(s.drop_first())
    } else {
        let k = 1 + word_len(s.drop_first());
        if k <= s.len() {
            seq![s.take(k as int)] + words(s.skip(k as int))
        } else {
            seq![s]
        }
    }
}

/// The texts of `items` with `sep` between each two.
pub open spec fn joined(items: Seq<Seq<char>>, sep: Seq<char>) -> Seq<char>
    decreases items.len(),
{
    if items.len() == 0 {
        seq![]
    } else if items.len() == 1 {
        items[0]
    } else {
        items[0] + sep + joined(items.drop_first(), sep)
    }
}

/// `s` with every occurrence of `p`, taken from the left and without overlap,
/// replaced by `q`.
pub open spec fn replaced(s: Seq<char>, p: Seq<char>, q: Seq<char>) -> Seq<char>
    decreases s.len(),
{
    let k = find(s, p);
    if p.len() > 0 && 0 <= k && k + p.len() <= s.len() {
        s.take(k) + q + replaced(s.skip(k + p.len()), p, q)
    } else {
        s
    }
}

/// The pieces of `s` between the occurrences of `sep`.
pub fn split_on<'a>(s: &'a [char], sep: &[char]) -> (v: Vec<&'a [char]>)
    ensures
        pieces(v@) == parts(s@, sep@),
{
    let mut v: Vec<&'a [char]> = Vec::new();
    if sep.len() == 0 {
        v.push(s);
        assert(pieces(v@) == seq![s@]);
        return v;
    }
    let mut pos: usize = 0;
    assert(s@.skip(0) == s@);
    loop
        invariant_except_break
            pos <= s.len(),
            pieces(v@) + parts(s@.skip(pos as int), sep@) == parts(s@, sep@),
        invariant
            sep.len() > 0,
        ensures
            pieces(v@) == parts(s@, sep@),
        decreases s.len() - pos,
    {
        let k = find_from(s, pos, sep);
        let ghost r = s@.skip(pos as int);
        let ghost before = pieces(v@);
        let ghost piece = s@.subrange(pos as int, k as int);
        proof {
            lemma_find(r, sep@);
            assert(r.take(k - pos) == piece);
        }
        v.push(&s[pos..k]);
        assert(pieces(v@) == before.push(piece));
        if k < s.len() {
            let next = k + sep.len();
            proof {
                assert(r.skip(k - pos + sep@.len()) == s@.skip(next as int));
                assert(parts(r, sep@) == seq![piece] + parts(s@.skip(next as int), sep@));
                assert(before.push(piece) + parts(s@.skip(next as int), sep@) == before + parts(
                    r,
                    sep@,
                ));
            }
            pos = next;
        } else {
            proof {
                assert(piece == r);
                assert(parts(r, sep@) == seq![r]);
                assert(before.push(r) == before + seq![r]);
            }
            break;
        }
    }
    v
}

/// The lines of `s`.
pub fn split_lines<'a>(s: &'a [char]) -> (v: Vec<&'a [char]>)
    ensures
        pieces(v@) == lines(s@),
{
    let mut v: Vec<&'a [char]> = Vec::new();
    let mut pos: usize = 0;
    let nl: Vec<char> = vec!['\n'];
    assert(nl@ == seq!['\n']);
    assert(s@.skip(0) == s@);
    while pos < s.len()
        invariant
            pos <= s.len(),
            nl@ == seq!['\n'],
            pieces(v@) + lines(s@.skip(pos as int)) == lines(s@),
        decreases s.len() - pos,
    {
        let k = find_from(s, pos, nl.as_slice());
        let ghost r = s@.skip(pos as int);
        let ghost before = pieces(v@);
        proof {
            lemma_find(r, nl@);
            assert(r.take(k - pos) == s@.subrange(pos as int, k as int));
        }
        if k < s.len() {
            let end = if k > pos && s[k - 1] == '\r' {
                k - 1
            } else {
                k
            };
            let ghost piece = s@.subrange(pos as int, end as int);
            proof {
                let l = r.take(k - pos);
                if k > pos {
                    assert(l.last() == s@[k - 1]);
                }
                assert(chomped(l) == piece);
                assert(r.skip(k - pos + 1) == s@.skip(k + 1));
                assert(lines(r) == seq![piece] + lines(s@.skip(k + 1)));
            }
            v.push(&s[pos..end]);
            proof {
                assert(pieces(v@) == before.push(piece));
                assert(before.push(piece) + lines(s@.skip(k + 1)) == before + lines(r));
            }
            pos = k + 1;
        } else {
            v.push(&s[pos..k]);
            proof {
                assert(r.take(k - pos) == r);
                assert(lines(r) == seq![r]);
                assert(pieces(v@) == before.push(r));
                assert(lines(s@.skip(k as int)) == Seq::<Seq<char>>::empty());
                assert(before.push(r) + Seq::<Seq<char>>::empty() == before + seq![r]);
            }
            pos = k;
        }
    }
    assert(pieces(v@) + Seq::<Seq<char>>::empty() == pieces(v@));
    v
}

/// In exec code, the length of the word at the start of `s[from..]`.
fn word_end(s: &[char], from: usize) -> (k: usize)
    requires
        from <= s.len(),
    ensures
        from <= k <= s.len(),
        k == from + word_len(s@.skip(from as int)),
{
    let mut k: usize = from;
    while k < s.len() && !is_whitespace(s[k])
        invariant
            from <= k <= s.len(),
            word_len(s@.skip(from as int)) == (k - from) + word_len(s@.skip(k as int)),
        decreases s.len() - k,
    {
        proof {
            let r = s@.skip(k as int);
            assert(r[0] == s@[k as int]);
            assert(r.drop_first() == s@.skip(k + 1));
        }
        k += 1;
    }
    proof {
        let r = s@.skip(k as int);
        if k < s.len() {
            assert(r[0] == s@[k as int]);
        }
    }
    k
}

/// The words of `s`.
pub fn split_words<'a>(s: &'a [char]) -> (v: Vec<&'a [char]>)
    ensures
        pieces(v@) == words(s@),
{
    let mut v: Vec<&'a [char]> = Vec::new();
    let mut pos: usize = 0;
    assert(s@.skip(0) == s@);
    while pos < s.len()
        invariant
            pos <= s.len(),
            pieces(v@) + words(s@.skip(pos as int)) == words(s@),
        decreases s.len() - pos,
    {
        let ghost r = s@.skip(pos as int);
        assert(r[0] == s@[pos as int]);
        assert(r.drop_first() == s@.skip(pos + 1));
        if is_whitespace(s[pos]) {
            pos += 1;
        } else {
            let k = word_end(s, pos + 1);
            let ghost before = pieces(v@);
            let ghost piece = s@.subrange(pos as int, k as int);
            proof {
                assert(r.take(k - pos) == piece);
                assert(r.skip(k - pos) == s@.skip(k as int));
                assert(words(r) == seq![piece] + words(s@.skip(k as int)));
            }
            v.push(&s[pos..k]);
            proof {
                assert(pieces(v@) == before.push(piece));
                assert(before.push(piece) + words(s@.skip(k as int)) == before + words(r));
            }
            pos = k;
        }
    }
    assert(pieces(v@) + Seq::<Seq<char>>::empty() == pieces(v@));
    v
}

/// Joining one item more appends the separator and the item.
pub proof fn lemma_joined_push(items: Seq<Seq<char>>, sep: Seq<char>, last: Seq<char>)
    ensures
        joined(items.push(last), sep) == if items.len() == 0 {
            last
        } else {
            joined(items, sep) + sep + last
        },
    decreases items.len(),
{
    let all = items.push(last);
    if items.len() == 0 {
    } else {
        assert(all.drop_first() == items.drop_first().push(last));
        lemma_joined_push(items.drop_first(), sep, last);
        if items.len() == 1 {
            assert(items.drop_first().len() == 0);
            assert(joined(all, sep) == items[0] + sep + last);
        } else {
            assert(joined(all, sep) == items[0] + sep + (joined(items.drop_first(), sep) + sep
                + last));
            assert(items[0] + sep + (joined(items.drop_first(), sep) + sep + last) == (items[0]
                + sep + joined(items.drop_first(), sep)) + sep + last);
        }
    }
}

/// The texts `items[from..to]` with `sep` between each two.
pub fn join(items: &Vec<&[char]>, from: usize, to: usize, sep: &[char]) -> (s: String)
    requires
        from <= to <= items.len(),
    ensures
        s@ == joined(pieces(items@).subrange(from as int, to as int), sep@),
{
    let mut s = String::new();
    let mut i: usize = from;
    while i < to
        invariant
            from <= i <= to <= items.len(),
            s@ == joined(pieces(items@).subrange(from as int, i as int), sep@),
        decreases to - i,
    {
        proof {
            let done = pieces(items@).subrange(from as int, i as int);
            assert(pieces(items@).subrange(from as int, i + 1) == done.push(items@[i as int]@));
            lemma_joined_push(done, sep@, items@[i as int]@);
        }
        if i > from {
            push_chars(&mut s, sep);
        }
        push_chars(&mut s, items[i]);
        proof {
            if i == from {
                assert(Seq::<char>::empty() + items@[i as int]@ == items@[i as int]@);
            }
        }
        i += 1;
    }
    s
}

/// `s` with every occurrence of `p` replaced by `q`.
pub fn replace(s: &[char], p: &[char], q: &[char]) -> (out: Vec<char>)
    ensures
        out@ == replaced(s@, p@, q@),
{
    let mut out: Vec<char> = Vec::new();
    if p.len() == 0 {
        push_all(&mut out, s);
        return out;
    }
    let mut pos: usize = 0;
    assert(s@.skip(0) == s@);
    loop
        invariant_except_break
            pos <= s.len(),
            out@ + replaced(s@.skip(pos as int), p@, q@) == replaced(s@, p@, q@),
        invariant
            p.len() > 0,
        ensures
            out@ == replaced(s@, p@, q@),
        decreases s.len() - pos,
    {
        let k = find_from(s, pos, p);
        let ghost r = s@.skip(pos as int);
        let ghost before = out@;
        proof {
            lemma_find(r, p@);
            assert(r.take(k - pos) == s@.subrange(pos as int, k as int));
        }
        push_all(&mut out, &s[pos..k]);
        if k < s.len() {
            push_all(&mut out, q);
            let next = k + p.len();
            proof {
                assert(r.skip(k - pos + p@.len()) == s@.skip(next as int));
                assert(before + r.take(k - pos) + q@ + replaced(s@.skip(next as int), p@, q@)
                    == before + replaced(r, p@, q@));
            }
            pos = next;
        } else {
            proof {
                assert(r.take(k - pos) == r);
                assert(replaced(r, p@, q@) == r);
            }
            break;
        }
    }
    out
}

/// Appends the characters of `t` to `out`.
pub fn push_all(out: &mut Vec<char>, t: &[char])
    ensures
        final(out)@ == old(out)@ + t@,
{
    let mut i: usize = 0;
    while i < t.len()
        invariant
            i <= t.len(),
            out@ == old(out)@ + t@.take(i as int),
        decreases t.len() - i,
    {
        out.push(t[i]);
        i += 1;
    }
}

/// A one-character pattern occurs where the character stands.
pub proof fn lemma_starts_with_char(s: Seq<char>, c: char)
    ensures
        starts_with(s, seq![c]) <==> (s.len() > 0 && s[0] == c),
{
    if s.len() > 0 {
        assert(s.take(1) == seq![s[0]]);
        if s[0] == c {
        } else {
            assert(s.take(1)[0] != seq![c][0]);
        }
    }
}

/// Where `c` stands at `k` and nowhere before, `find` gives `k`; where it
/// stands nowhere, the length.
pub proof fn lemma_find_char(s: Seq<char>, c: char, k: int)
    requires
        0 <= k <= s.len(),
        forall|j: int| 0 <= j < k ==> s[j] != c,
        k < s.len() ==> s[k] == c,
    ensures
        find(s, seq![c]) == k,
{
    assert forall|j: int| 0 <= j < k implies !starts_with(#[trigger] s.skip(j), seq![c]) by {
        lemma_starts_with_char(s.skip(j), c);
    }
    if k < s.len() {
        lemma_starts_with_char(s.skip(k), c);
    }
    lemma_find_is(s, seq![c], k);
}

/// The character `c` stands at the place that `find` gives, where that is
/// inside `s`, and nowhere before it.
pub proof fn lemma_find_char_is(s: Seq<char>, c: char)
    ensures
        0 <= find(s, seq![c]) <= s.len(),
        find(s, seq![c]) < s.len() ==> s[find(s, seq![c])] == c,
        forall|j: int| 0 <= j < find(s, seq![c]) ==> s[j] != c,
{
    lemma_find(s, seq![c]);
    let k = find(s, seq![c]);
    if k < s.len() {
        lemma_starts_with_char(s.skip(k), c);
    }
    assert forall|j: int| 0 <= j < k implies s[j] != c by {
        lemma_starts_with_char(s.skip(j), c);
    }
}

/// A text without line breaks, followed by a line feed, is one line.
pub proof fn lemma_lines_single(line: Seq<char>)
    requires
        !line.contains('\n'),
        line.len() > 0 ==> line.last() != '\r',
    ensures
        lines(line + seq!['\n']) == seq![line],
{
    let s = line + seq!['\n'];
    assert forall|j: int| 0 <= j < line.len() implies s[j] != '\n' by {
        assert(line.contains(s[j]));
    }
    let n = line.len() as int;
    lemma_find_char(s, '\n', n);
    assert(s.take(n) == line);
    assert(s.skip(n + 1) == Seq::<char>::empty());
    assert(lines(s.skip(n + 1)) == Seq::<Seq<char>>::empty());
    assert(seq![line] + Seq::<Seq<char>>::empty() == seq![line]);
}

/// The lines of a text that follows complete lines follow their lines.
pub proof fn lemma_lines_concat(a: Seq<char>, b: Seq<char>)
    requires
        a.len() > 0 ==> a.last() == '\n',
    ensures
        lines(a + b) == lines(a) + lines(b),
    decreases a.len(),
{
    if a.len() == 0 {
        assert(a + b == b);
        assert(lines(a) + lines(b) == lines(b));
    } else {
        let s = a + b;
        lemma_find_char_is(a, '\n');
        let k = find(a, seq!['\n']);
        assert(k < a.len()) by {
            if k >= a.len() {
                assert(a[a.len() - 1] != '\n');
            }
        }
        assert forall|j: int| 0 <= j < k implies s[j] != '\n' by {
            assert(s[j] == a[j]);
        }
        assert(s[k] == a[k]);
        lemma_find_char(s, '\n', k);
        assert(s.take(k) == a.take(k));
        let rest = a.skip(k + 1);
        assert(s.skip(k + 1) == rest + b);
        if rest.len() > 0 {
            assert(rest.last() == a.last());
        }
        lemma_lines_concat(rest, b);
        assert(lines(s) == seq![chomped(a.take(k))] + (lines(rest) + lines(b)));
        assert(seq![chomped(a.take(k))] + (lines(rest) + lines(b)) == (seq![chomped(a.take(k))]
            + lines(rest)) + lines(b));
    }
}

/// Splitting at a character splits each side of one such character by itself.
pub proof fn lemma_parts_concat(a: Seq<char>, b: Seq<char>, c: char)
    ensures
        parts(a + seq![c] + b, seq![c]) == parts(a, seq![c]) + parts(b, seq![c]),
    decreases a.len(),
{
    let sep = seq![c];
    let s = a + sep + b;
    lemma_find_char_is(a, c);
    let k = find(a, sep);
    assert forall|j: int| 0 <= j < k implies s[j] != c by {
        assert(s[j] == a[j]);
    }
    if k < a.len() {
        assert(s[k] == a[k]);
        lemma_find_char(s, c, k);
        assert(s.take(k) == a.take(k));
        let rest = a.skip(k + 1);
        assert(s.skip(k + 1) == rest + sep + b);
        lemma_parts_concat(rest, b, c);
        assert(parts(s, sep) == seq![a.take(k)] + (parts(rest, sep) + parts(b, sep)));
        assert(seq![a.take(k)] + (parts(rest, sep) + parts(b, sep)) == (seq![a.take(k)] + parts(
            rest,
            sep,
        )) + parts(b, sep));
    } else {
        assert(s[k] == c);
        lemma_find_char(s, c, k);
        assert(s.take(k) == a);
        assert(s.skip(k + 1) == b);
        assert(parts(a, sep) == seq![a]);
    }
}

/// A text without the character `c` is one piece.
pub proof fn lemma_parts_one(a: Seq<char>, c: char)
    requires
        !a.contains(c),
    ensures
        parts(a, seq![c]) == seq![a],
{
    assert forall|j: int| 0 <= j < a.len() implies a[j] != c by {
        assert(a.contains(a[j]));
    }
    lemma_find_char(a, c, a.len() as int);
}

/// Joining the pieces of a split with the separator gives the text back.
pub proof fn lemma_joined_parts(s: Seq<char>, c: char)
    ensures
        parts(s, seq![c]).len() >= 1,
        joined(parts(s, seq![c]), seq![c]) == s,
    decreases s.len(),
{
    let sep = seq![c];
    lemma_find_char_is(s, c);
    let k = find(s, sep);
    if k < s.len() {
        let rest = s.skip(k + 1);
        lemma_joined_parts(rest, c);
        let ps = parts(rest, sep);
        let all = seq![s.take(k)] + ps;
        assert(parts(s, sep) == all);
        assert(all[0] == s.take(k));
        assert(all.drop_first() == ps);
        assert(joined(all, sep) == s.take(k) + sep + joined(ps, sep));
        assert(s.take(k) + sep + rest == s);
    } else {
        assert(parts(s, sep) == seq![s]);
    }
}

} // verus!
