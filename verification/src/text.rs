use vstd::prelude::*;
use vstd::std_specs::iter::IteratorSpec;

verus! {

/// Appends `c` to `s` (`String::push`).
#[verifier::external_body]
pub(crate) fn push_char(s: &mut String, c: char)
    ensures
        final(s)@ == old(s)@.push(c),
{
    s.push(c);
}

/// Removes the last character of `s` and returns it, or returns `None` when `s` is empty
/// (`String::pop`).
#[verifier::external_body]
pub(crate) fn pop_char(s: &mut String) -> (r: Option<char>)
    ensures
        old(s)@.len() == 0 ==> r is None && final(s)@ == old(s)@,
        old(s)@.len() > 0 ==> r == Some(old(s)@.last()) && final(s)@ == old(s)@.drop_last(),
{
    s.pop()
}

/// The characters of `s`, in order.
pub fn chars_of(s: &str) -> (v: Vec<char>)
    ensures
        v@ == s@,
{
    let mut v: Vec<char> = Vec::new();
    for c in it: s.chars()
        invariant
            it.seq() == s@,
            v@ == it.seq().take(it.index() as int),
            it.index() == it.seq().len() ==> v@ == s@,
    {
        proof {
            assert(it.seq().take(it.index() + 1) =~= it.seq().take(it.index() as int).push(c));
            assert(it.seq().take(it.seq().len() as int) =~= it.seq());
        }
        v.push(c);
    }
    v
}

/// The string made of `cs[from..to]`.
pub fn string_of(cs: &Vec<char>, from: usize, to: usize) -> (s: String)
    requires
        from <= to <= cs@.len(),
    ensures
        s@ == cs@.subrange(from as int, to as int),
{
    let mut s = String::new();
    let mut i = from;
    while i < to
        invariant
            from <= i <= to <= cs@.len(),
            s@ == cs@.subrange(from as int, i as int),
        decreases to - i,
    {
        push_char(&mut s, cs[i]);
        assert(cs@.subrange(from as int, i + 1) =~= cs@.subrange(from as int, i as int).push(
            cs@[i as int],
        ));
        i = i + 1;
    }
    s
}

/// The text cut at every `'\n'` (the newlines themselves dropped); there is always at least
/// one piece, and the last one is what follows the last newline.
pub open spec fn pieces(s: Seq<char>) -> Seq<Seq<char>>
    decreases s.len(),
{
    if s.len() == 0 {
        seq![Seq::empty()]
    } else {
        let p = pieces(s.drop_last());
        if s.last() == '\n' {
            p.push(Seq::empty())
        } else {
            p.update(p.len() - 1, p.last().push(s.last()))
        }
    }
}

/// A line without the `'\r'` that ends it, if any.
pub open spec fn strip_cr(l: Seq<char>) -> Seq<char> {
    if l.len() > 0 && l.last() == '\r' {
        l.drop_last()
    } else {
        l
    }
}

/// The lines of a text as `str::lines` gives them: a line ends at `'\n'` or at `"\r\n"`,
/// the final line ending is optional, and an empty text has no lines.
pub open spec fn lines_of(s: Seq<char>) -> Seq<Seq<char>> {
    let p = pieces(s);
    let n = if p.last().len() == 0 {
        p.len() - 1
    } else {
        p.len() as int
    };
    Seq::new(n as nat, |i: int| if i < p.len() - 1 { strip_cr(p[i]) } else { p[i] })
}

/// The lines a text area shows before wrapping: the text's lines, an empty line after a
/// final newline, and a single empty line for an empty text.
pub open spec fn text_lines(s: Seq<char>) -> Seq<Seq<char>> {
    let l = lines_of(s);
    let l2 = if s.len() > 0 && s.last() == '\n' {
        l.push(Seq::empty())
    } else {
        l
    };
    if l2.len() == 0 {
        seq![Seq::empty()]
    } else {
        l2
    }
}

/// A line cut into pieces of `m` characters (the last one possibly shorter); a line that
/// fits is kept whole.
pub open spec fn chunks(l: Seq<char>, m: nat) -> Seq<Seq<char>>
    decreases l.len(),
{
    if l.len() <= m || m == 0 {
        seq![l]
    } else {
        seq![l.take(m as int)] + chunks(l.skip(m as int), m)
    }
}

/// Every line of `ls` cut into pieces of `m` characters, in order.
pub open spec fn wrap_all(ls: Seq<Seq<char>>, m: nat) -> Seq<Seq<char>>
    decreases ls.len(),
{
    if ls.len() == 0 {
        Seq::empty()
    } else {
        wrap_all(ls.drop_last(), m) + chunks(ls.last(), m)
    }
}

/// The lines a text area shows: its text lines, each cut at `m` characters.
pub open spec fn wrapped(s: Seq<char>, m: nat) -> Seq<Seq<char>> {
    wrap_all(text_lines(s), m)
}

/// The views of a list of strings.
pub open spec fn views(v: Seq<String>) -> Seq<Seq<char>> {
    v.map_values(|x: String| x@)
}

/// A text has at least one piece.
pub proof fn lemma_pieces_len(s: Seq<char>)
    ensures
        pieces(s).len() >= 1,
    decreases s.len(),
{
    if s.len() > 0 {
        lemma_pieces_len(s.drop_last());
    }
}

/// The views of a list of character vectors.
pub open spec fn char_views(v: Seq<Vec<char>>) -> Seq<Seq<char>> {
    v.map_values(|x: Vec<char>| x@)
}

/// The pieces of `cs` between newlines.
fn split_pieces(cs: &Vec<char>) -> (r: Vec<Vec<char>>)
    ensures
        char_views(r@) == pieces(cs@),
{
    let mut done: Vec<Vec<char>> = Vec::new();
    let mut cur: Vec<char> = Vec::new();
    let n = cs.len();
    let mut i: usize = 0;
    assert(cs@.take(0) =~= Seq::<char>::empty());
    assert(pieces(Seq::<char>::empty()) =~= char_views(done@).push(cur@));
    while i < n
        invariant
            n == cs@.len(),
            i <= n,
            pieces(cs@.take(i as int)) == char_views(done@).push(cur@),
        decreases n - i,
    {
        let ghost t = cs@.take(i + 1);
        let ghost pi = pieces(cs@.take(i as int));
        assert(t.drop_last() =~= cs@.take(i as int));
        assert(t.last() == cs@[i as int]);
        let c = cs[i];
        if c == '\n' {
            let finished = cur;
            cur = Vec::new();
            done.push(finished);
            assert(pieces(t) =~= char_views(done@).push(cur@));
        } else {
            cur.push(c);
            assert(pieces(t) =~= char_views(done@).push(cur@));
        }
        i = i + 1;
        assert(cs@.take(i as int) == t);
    }
    assert(cs@.take(n as int) =~= cs@);
    done.push(cur);
    done
}

/// The characters of `l` without the `'\r'` that ends it, if any.
fn without_cr(l: Vec<char>) -> (r: Vec<char>)
    ensures
        r@ == strip_cr(l@),
{
    let mut l = l;
    let n = l.len();
    if n > 0 && l[n - 1] == '\r' {
        l.pop();
    }
    l
}

/// Appends the pieces of `cs[from..]`, cut every `m` characters, to `out`.
fn push_chunks(cs: &Vec<char>, from: usize, m: usize, out: &mut Vec<String>)
    requires
        from <= cs@.len(),
        m >= 1,
    ensures
        views(final(out)@) == views(old(out)@) + chunks(cs@.skip(from as int), m as nat),
    decreases cs@.len() - from,
{
    let to = cs.len();
    let ghost l = cs@.skip(from as int);
    if to - from <= m {
        let s = string_of(cs, from, to);
        out.push(s);
        assert(cs@.subrange(from as int, to as int) =~= l);
        assert(views(final(out)@) =~= views(old(out)@) + seq![l]);
    } else {
        let s = string_of(cs, from, from + m);
        out.push(s);
        let ghost mid = views(out@);
        push_chunks(cs, from + m, m, out);
        assert(l.take(m as int) =~= cs@.subrange(from as int, from + m));
        assert(l.skip(m as int) =~= cs@.skip(from + m));
        assert(mid =~= views(old(out)@) + seq![l.take(m as int)]);
        assert(views(final(out)@) =~= views(old(out)@) + chunks(l, m as nat));
    }
}

/// The lines a text area `max_chars` characters wide shows for `text`: the text's lines
/// (with an empty line after a final newline, and one empty line for an empty text), each
/// cut into pieces of at most `max_chars` characters.
pub fn wrap_lines(text: &str, max_chars: usize) -> (r: Vec<String>)
    requires
        max_chars >= 1,
    ensures
        views(r@) == wrapped(text@, max_chars as nat),
{
    let cs = chars_of(text);
    let ps = split_pieces(&cs);
    let ghost p = pieces(cs@);
    proof {
        lemma_pieces_len(cs@);
    }
    let np = ps.len();
    let last_empty = ps[np - 1].len() == 0;
    assert(last_empty == (p.last().len() == 0));
    // the pieces that are lines: all but a final empty one
    let nl = if last_empty {
        np - 1
    } else {
        np
    };
    let ghost lines = lines_of(cs@);
    assert(lines.len() == nl);
    let mut out: Vec<String> = Vec::new();
    let mut k: usize = 0;
    while k < nl
        invariant
            np == ps@.len() == p.len(),
            nl <= np,
            char_views(ps@) == p,
            p == pieces(cs@),
            lines == lines_of(cs@),
            cs@ == text@,
            k <= nl,
            nl == lines.len(),
            max_chars >= 1,
            views(out@) == wrap_all(lines.take(k as int), max_chars as nat),
        decreases nl - k,
    {
        let piece = ps[k].clone();
        assert(piece@ =~= p[k as int]);
        let line = if k + 1 < np {
            without_cr(piece)
        } else {
            piece
        };
        assert(line@ == lines[k as int]);
        push_chunks(&line, 0, max_chars, &mut out);
        assert(line@.skip(0) =~= line@);
        assert(lines.take(k + 1).drop_last() =~= lines.take(k as int));
        k = k + 1;
    }
    assert(lines.take(nl as int) =~= lines);
    let ends_nl = cs.len() > 0 && cs[cs.len() - 1] == '\n';
    if ends_nl {
        let s = String::new();
        out.push(s);
        assert(lines.push(Seq::empty()).drop_last() =~= lines);
        assert(chunks(Seq::<char>::empty(), max_chars as nat) =~= seq![Seq::<char>::empty()]);
        assert(views(out@) =~= wrap_all(lines.push(Seq::empty()), max_chars as nat));
    }
    proof {
        let l2 = if cs@.len() > 0 && cs@.last() == '\n' { lines.push(Seq::empty()) } else { lines };
        lemma_wrap_all_len(l2, max_chars as nat);
    }
    if out.len() == 0 {
        let s = String::new();
        out.push(s);
        proof {
            let one = seq![Seq::<char>::empty()];
            assert(one.drop_last() =~= Seq::<Seq<char>>::empty());
            assert(chunks(Seq::<char>::empty(), max_chars as nat) =~= one);
            assert(wrap_all(one, max_chars as nat) == wrap_all(Seq::<Seq<char>>::empty(), max_chars as nat) + one);
            assert(wrap_all(one, max_chars as nat) =~= one);
            assert(views(out@) =~= one);
        }
    }
    out
}

/// The decimal digit for `d` (below ten).
pub open spec fn digit(d: nat) -> char {
    seq!['0', '1', '2', '3', '4', '5', '6', '7', '8', '9'][d as int]
}

/// The decimal writing of `n`, without leading zeros.
pub open spec fn decimal(n: nat) -> Seq<char>
    decreases n,
{
    if n < 10 {
        seq![digit(n)]
    } else {
        decimal(n / 10).push(digit(n % 10))
    }
}

/// Appends the decimal writing of `n` to `s`.
pub fn push_decimal(s: &mut String, n: u64)
    ensures
        final(s)@ == old(s)@ + decimal(n as nat),
    decreases n,
{
    let digits = ['0', '1', '2', '3', '4', '5', '6', '7', '8', '9'];
    if n >= 10 {
        push_decimal(s, n / 10);
    }
    let d = (n % 10) as usize;
    assert(digits@ == seq!['0', '1', '2', '3', '4', '5', '6', '7', '8', '9']);
    push_char(s, digits[d]);
    proof {
        if n >= 10 {
            assert(old(s)@ + decimal(n as nat) =~= old(s)@ + decimal((n / 10) as nat) + seq![digit((n % 10) as nat)]);
        } else {
            assert(old(s)@ + decimal(n as nat) =~= old(s)@.push(digit(n as nat)));
        }
    }
}

/// Appends the characters of `t` to `s`.
pub fn push_str(s: &mut String, t: &str)
    ensures
        final(s)@ == old(s)@ + t@,
{
    let cs = chars_of(t);
    let n = cs.len();
    for i in 0..n
        invariant
            n == cs@.len(),
            cs@ == t@,
            s@ == old(s)@ + cs@.take(i as int),
    {
        push_char(s, cs[i]);
        assert(cs@.take(i + 1) =~= cs@.take(i as int).push(cs@[i as int]));
    }
    assert(cs@.take(n as int) =~= cs@);
}

/// Wrapping yields at least as many lines as it is given.
pub proof fn lemma_wrap_all_len(ls: Seq<Seq<char>>, m: nat)
    ensures
        wrap_all(ls, m).len() >= ls.len(),
        ls.len() == 0 ==> wrap_all(ls, m).len() == 0,
    decreases ls.len(),
{
    if ls.len() > 0 {
        lemma_wrap_all_len(ls.drop_last(), m);
    }
}

} // verus!
