//! Text plumbing shared by loading, saving and the status line: trimming the
//! outer whitespace of a file, splitting it into lines, joining lines back
//! with `'\n'`, and printing a byte count in decimal.
//!
//! Loading a file is `split_lines(trim(text))`; saving is `join_lines(lines)`.

use vstd::prelude::*;

verus! {

/// The whitespace characters trimmed from the outside of a loaded file.
pub open spec fn is_ws(c: char) -> bool {
    c == ' ' || c == '\t' || c == '\n' || c == '\r'
}

/// `s` without its leading whitespace.
pub open spec fn trim_start(s: Seq<char>) -> Seq<char>
    decreases s.len(),
{
    if s.len() > 0 && is_ws(s[0]) {
        trim_start(s.drop_first())
    } else {
        s
    }
}

/// `s` without its trailing whitespace.
pub open spec fn trim_end(s: Seq<char>) -> Seq<char>
    decreases s.len(),
{
    if s.len() > 0 && is_ws(s.last()) {
        trim_end(s.drop_last())
    } else {
        s
    }
}

/// `s` without its leading and trailing whitespace.
pub open spec fn trim(s: Seq<char>) -> Seq<char> {
    trim_end(trim_start(s))
}

/// `s` cut at every `'\n'`. The separators are consumed; the result always
/// holds at least one line, and an empty text yields one empty line.
pub open spec fn split_lines(s: Seq<char>) -> Seq<Seq<char>>
    decreases s.len(),
{
    if s.len() == 0 {
        seq![Seq::<char>::empty()]
    } else if s[0] == '\n' {
        seq![Seq::<char>::empty()] + split_lines(s.drop_first())
    } else {
        let rest = split_lines(s.drop_first());
        rest.update(0, seq![s[0]] + rest[0])
    }
}

/// The lines joined with a single `'\n'` between neighbours; no terminator is
/// added after the last line.
pub open spec fn join_lines(ls: Seq<Seq<char>>) -> Seq<char>
    decreases ls.len(),
{
    if ls.len() == 0 {
        Seq::<char>::empty()
    } else if ls.len() == 1 {
        ls[0]
    } else {
        ls[0] + seq!['\n'] + join_lines(ls.drop_first())
    }
}

/// The views of a vector of lines, line by line.
pub open spec fn lines_view(ls: Seq<Vec<char>>) -> Seq<Seq<char>> {
    ls.map_values(|l: Vec<char>| l@)
}

pub proof fn lemma_split_lines_len(s: Seq<char>)
    ensures
        split_lines(s).len() >= 1,
    decreases s.len(),
{
    if s.len() > 0 {
        lemma_split_lines_len(s.drop_first());
    }
}

/// Joining what splitting produced restores the text exactly.
pub proof fn lemma_join_split(s: Seq<char>)
    ensures
        join_lines(split_lines(s)) == s,
    decreases s.len(),
{
    if s.len() == 0 {
        assert(join_lines(split_lines(s)) =~= s);
    } else {
        let rest = s.drop_first();
        lemma_join_split(rest);
        lemma_split_lines_len(rest);
        if s[0] == '\n' {
            let sp = seq![Seq::<char>::empty()] + split_lines(rest);
            assert(sp.drop_first() =~= split_lines(rest));
            if split_lines(rest).len() == 1 {
                assert(join_lines(sp) =~= s);
            } else {
                assert(join_lines(sp) =~= s);
            }
        } else {
            let r = split_lines(rest);
            let sp = r.update(0, seq![s[0]] + r[0]);
            if r.len() == 1 {
                assert(join_lines(sp) == sp[0]);
                assert(sp[0] =~= s);
            } else {
                assert(sp.drop_first() =~= r.drop_first());
                assert(join_lines(sp) == sp[0] + seq!['\n'] + join_lines(r.drop_first()));
                assert(join_lines(r) == r[0] + seq!['\n'] + join_lines(r.drop_first()));
                assert(sp[0] + seq!['\n'] + join_lines(r.drop_first()) =~= seq![s[0]] + (r[0]
                    + seq!['\n'] + join_lines(r.drop_first())));
                assert(seq![s[0]] + rest =~= s);
            }
        }
    }
}

pub proof fn lemma_trim_start_first(s: Seq<char>)
    ensures
        trim_start(s).len() > 0 ==> !is_ws(trim_start(s)[0]),
        trim_start(trim_start(s)) == trim_start(s),
    decreases s.len(),
{
    if s.len() > 0 && is_ws(s[0]) {
        lemma_trim_start_first(s.drop_first());
    }
}

pub proof fn lemma_trim_end_last(s: Seq<char>)
    ensures
        trim_end(s).len() > 0 ==> !is_ws(trim_end(s).last()),
        trim_end(trim_end(s)) == trim_end(s),
        trim_end(s).len() > 0 ==> trim_end(s)[0] == s[0],
        trim_end(s).len() <= s.len(),
    decreases s.len(),
{
    if s.len() > 0 && is_ws(s.last()) {
        lemma_trim_end_last(s.drop_last());
    }
}

fn is_ws_char(c: char) -> (r: bool)
    ensures
        r == is_ws(c),
{
    c == ' ' || c == '\t' || c == '\n' || c == '\r'
}

/// Appends every character of `src` to `dst`.
pub fn extend_chars(dst: &mut Vec<char>, src: &Vec<char>)
    ensures
        final(dst)@ == old(dst)@ + src@,
{
    let mut i: usize = 0;
    while i < src.len()
        invariant
            i <= src@.len(),
            dst@ == old(dst)@ + src@.take(i as int),
        decreases src@.len() - i,
    {
        dst.push(src[i]);
        proof {
            assert(old(dst)@ + src@.take(i as int) + seq![src@[i as int]] =~= old(dst)@
                + src@.take(i + 1));
        }
        i += 1;
    }
    proof {
        assert(old(dst)@ + src@.take(src@.len() as int) =~= old(dst)@ + src@);
    }
}

/// The text without its outer whitespace.
pub fn trim_chars(text: &Vec<char>) -> (out: Vec<char>)
    ensures
        out@ == trim(text@),
{
    let mut start: usize = 0;
    proof {
        assert(text@.skip(0) =~= text@);
    }
    while start < text.len() && is_ws_char(text[start])
        invariant
            start <= text@.len(),
            trim_start(text@) == trim_start(text@.skip(start as int)),
        decreases text@.len() - start,
    {
        proof {
            assert(text@.skip(start as int).drop_first() =~= text@.skip(start + 1));
        }
        start += 1;
    }
    proof {
        if start < text@.len() {
            assert(trim_start(text@) == text@.skip(start as int));
        } else {
            assert(text@.skip(start as int) =~= Seq::<char>::empty());
        }
    }
    let ghost u = text@.skip(start as int);
    let mut end: usize = text.len();
    proof {
        assert(u.take(end - start as int) =~= u);
    }
    while end > start && is_ws_char(text[end - 1])
        invariant
            start <= end <= text@.len(),
            u == text@.skip(start as int),
            trim_start(text@) == u,
            trim_end(u) == trim_end(u.take(end - start as int)),
        decreases end,
    {
        proof {
            let k = end - start as int;
            assert(u.take(k).last() == text@[end - 1]);
            assert(u.take(k).drop_last() =~= u.take(k - 1));
        }
        end -= 1;
    }
    proof {
        if end > start {
            assert(trim_end(u.take(end - start as int)) == u.take(end - start as int));
        } else {
            assert(u.take(end - start as int) =~= Seq::<char>::empty());
        }
    }
    let mut out: Vec<char> = Vec::new();
    let mut i: usize = start;
    while i < end
        invariant
            start <= i <= end <= text@.len(),
            out@ == text@.skip(start as int).take(i - start as int),
        decreases end - i,
    {
        out.push(text[i]);
        proof {
            assert(text@.skip(start as int).take(i - start as int).push(text@[i as int])
                =~= text@.skip(start as int).take(i + 1 - start as int));
        }
        i += 1;
    }
    out
}

/// The text cut at every `'\n'`; always at least one line.
pub fn split_text(text: &Vec<char>) -> (lines: Vec<Vec<char>>)
    ensures
        lines_view(lines@) == split_lines(text@),
        lines@.len() >= 1,
{
    let mut lines: Vec<Vec<char>> = Vec::new();
    let mut cur: Vec<char> = Vec::new();
    let mut i: usize = 0;
    proof {
        assert(text@.skip(0) =~= text@);
        lemma_split_lines_len(text@);
        assert(lines_view(lines@) =~= Seq::<Seq<char>>::empty());
        assert(split_lines(text@).update(0, cur@ + split_lines(text@)[0]) =~= split_lines(
            text@,
        ));
        assert(lines_view(lines@) + split_lines(text@).update(
            0,
            cur@ + split_lines(text@)[0],
        ) =~= split_lines(text@));
    }
    while i < text.len()
        invariant
            i <= text@.len(),
            split_lines(text@) == lines_view(lines@) + split_lines(text@.skip(i as int)).update(
                0,
                cur@ + split_lines(text@.skip(i as int))[0],
            ),
        decreases text@.len() - i,
    {
        let ghost rem = text@.skip(i as int);
        let ghost rem1 = text@.skip(i + 1);
        proof {
            assert(rem.drop_first() =~= rem1);
            lemma_split_lines_len(rem1);
        }
        let c = text[i];
        if c == '\n' {
            proof {
                let r = split_lines(rem1);
                assert(split_lines(rem) == seq![Seq::<char>::empty()] + r);
                assert((seq![Seq::<char>::empty()] + r).update(0, cur@ + (seq![
                    Seq::<char>::empty(),
                ] + r)[0]) =~= seq![cur@] + r);
                assert(lines_view(lines@.push(cur)) =~= lines_view(lines@) + seq![cur@]);
                assert(r.update(0, Seq::<char>::empty() + r[0]) =~= r);
                assert(lines_view(lines@) + (seq![cur@] + r) =~= (lines_view(lines@) + seq![cur@])
                    + r.update(0, Seq::<char>::empty() + r[0]));
            }
            lines.push(cur);
            cur = Vec::new();
        } else {
            proof {
                let r = split_lines(rem1);
                assert(split_lines(rem) == r.update(0, seq![rem[0]] + r[0]));
                assert(cur@ + (seq![c] + r[0]) =~= cur@.push(c) + r[0]);
                assert(split_lines(rem).update(0, cur@ + split_lines(rem)[0]) =~= r.update(
                    0,
                    cur@.push(c) + r[0],
                ));
            }
            cur.push(c);
        }
        i += 1;
    }
    proof {
        assert(text@.skip(i as int) =~= Seq::<char>::empty());
        let r = split_lines(text@.skip(i as int));
        assert(r.update(0, cur@ + r[0]) =~= seq![cur@]);
        assert(lines_view(lines@.push(cur)) =~= lines_view(lines@) + seq![cur@]);
    }
    lines.push(cur);
    lines
}

/// The lines a loaded file yields: the text trimmed, then split on `'\n'`.
pub fn lines_from_text(text: &Vec<char>) -> (lines: Vec<Vec<char>>)
    ensures
        lines_view(lines@) == split_lines(trim(text@)),
        lines@.len() >= 1,
{
    let trimmed = trim_chars(text);
    split_text(&trimmed)
}

/// The text a save writes: the lines joined with `'\n'`.
pub fn text_from_lines(lines: &Vec<Vec<char>>) -> (text: Vec<char>)
    ensures
        text@ == join_lines(lines_view(lines@)),
{
    let mut text: Vec<char> = Vec::new();
    let mut i: usize = 0;
    let ghost lv = lines_view(lines@);
    proof {
        assert(lv.take(0) =~= Seq::<Seq<char>>::empty());
    }
    while i < lines.len()
        invariant
            i <= lines@.len(),
            lv == lines_view(lines@),
            text@ == join_lines(lv.take(i as int)),
        decreases lines@.len() - i,
    {
        if i > 0 {
            text.push('\n');
        }
        extend_chars(&mut text, &lines[i]);
        proof {
            assert(lv.take(i + 1) =~= lv.take(i as int).push(lv[i as int]));
            assert(lv[i as int] == lines@[i as int]@);
            if i == 0 {
                assert(join_lines(lv.take(1)) == lv[0]);
                assert(Seq::<char>::empty() + lv[0] =~= lv[0]);
            } else {
                lemma_join_push(lv.take(i as int), lv[i as int]);
                assert(join_lines(lv.take(i as int)) + seq!['\n'] + lv[i as int] =~= (join_lines(
                    lv.take(i as int),
                ).push('\n')) + lv[i as int]);
            }
        }
        i += 1;
    }
    proof {
        assert(lv.take(lines@.len() as int) =~= lv);
    }
    text
}

pub proof fn lemma_join_push(ls: Seq<Seq<char>>, x: Seq<char>)
    requires
        ls.len() >= 1,
    ensures
        join_lines(ls.push(x)) == join_lines(ls) + seq!['\n'] + x,
    decreases ls.len(),
{
    if ls.len() == 1 {
        assert(ls.push(x).drop_first() =~= seq![x]);
        assert(join_lines(ls.push(x)) == ls.push(x)[0] + seq!['\n'] + join_lines(seq![x]));
        assert(ls.push(x)[0] == ls[0]);
    } else {
        assert(ls.push(x).drop_first() =~= ls.drop_first().push(x));
        lemma_join_push(ls.drop_first(), x);
        assert(ls[0] + seq!['\n'] + (join_lines(ls.drop_first()) + seq!['\n'] + x) =~= (ls[0]
            + seq!['\n'] + join_lines(ls.drop_first())) + seq!['\n'] + x);
    }
}

/// The character for one decimal digit.
pub open spec fn digit_char(d: int) -> char {
    if d == 0 {
        '0'
    } else if d == 1 {
        '1'
    } else if d == 2 {
        '2'
    } else if d == 3 {
        '3'
    } else if d == 4 {
        '4'
    } else if d == 5 {
        '5'
    } else if d == 6 {
        '6'
    } else if d == 7 {
        '7'
    } else if d == 8 {
        '8'
    } else {
        '9'
    }
}

/// `n` written in decimal, most significant digit first, no leading zeros
/// (except for `n == 0` itself).
pub open spec fn decimal_digits(n: nat) -> Seq<char>
    decreases n,
{
    if n < 10 {
        seq![digit_char(n as int)]
    } else {
        decimal_digits(n / 10).push(digit_char((n % 10) as int))
    }
}

fn digit_char_of(d: u64) -> (c: char)
    requires
        d < 10,
    ensures
        c == digit_char(d as int),
{
    if d == 0 {
        '0'
    } else if d == 1 {
        '1'
    } else if d == 2 {
        '2'
    } else if d == 3 {
        '3'
    } else if d == 4 {
        '4'
    } else if d == 5 {
        '5'
    } else if d == 6 {
        '6'
    } else if d == 7 {
        '7'
    } else if d == 8 {
        '8'
    } else {
        '9'
    }
}

/// Appends `n` in decimal to `out`.
pub fn push_decimal(out: &mut Vec<char>, n: u64)
    ensures
        final(out)@ == old(out)@ + decimal_digits(n as nat),
    decreases n,
{
    if n >= 10 {
        push_decimal(out, n / 10);
    }
    out.push(digit_char_of(n % 10));
    proof {
        if n >= 10 {
            assert((old(out)@ + decimal_digits((n / 10) as nat)).push(digit_char((n % 10) as int))
                =~= old(out)@ + decimal_digits(n as nat));
        } else {
            assert(old(out)@.push(digit_char(n as int)) =~= old(out)@ + decimal_digits(n as nat));
        }
    }
}

/// Trimming is idempotent.
pub proof fn lemma_trim_idempotent(s: Seq<char>)
    ensures
        trim(trim(s)) == trim(s),
{
    let t = trim_start(s);
    lemma_trim_start_first(s);
    lemma_trim_end_last(t);
    // trim(s) == trim_end(t); its first character, if any, is t's, so it is
    // not whitespace, and trim_start leaves it alone.
    assert(trim_start(trim_end(t)) == trim_end(t));
    lemma_trim_end_last(trim_end(t));
}

} // verus!
