use vstd::prelude::*;

verus! {

/// Unicode `White_Space`: the characters that separate columns of a route row.
pub open spec fn is_space(c: char) -> bool {
    let u = c as u32;
    ||| 0x09 <= u <= 0x0D
    ||| u == 0x20
    ||| u == 0x85
    ||| u == 0xA0
    ||| u == 0x1680
    ||| 0x2000 <= u <= 0x200A
    ||| u == 0x2028
    ||| u == 0x2029
    ||| u == 0x202F
    ||| u == 0x205F
    ||| u == 0x3000
}

/// The line being built gains `tok` as its next column, unless `tok` is empty.
pub open spec fn close_token(line: Seq<Seq<char>>, tok: Seq<char>) -> Seq<Seq<char>> {
    if tok.len() > 0 {
        line.push(tok)
    } else {
        line
    }
}

/// Splits `s[i..]` into lines at `'\n'` and each line into its whitespace-separated
/// columns, where `tok` is the column and `line` the columns of the line read so far.
pub open spec fn lines_from(
    s: Seq<char>,
    i: int,
    tok: Seq<char>,
    line: Seq<Seq<char>>,
) -> Seq<Seq<Seq<char>>>
    decreases s.len() - i,
{
    if i >= s.len() || i < 0 {
        seq![close_token(line, tok)]
    } else if s[i] == '\n' {
        seq![close_token(line, tok)] + lines_from(s, i + 1, Seq::empty(), Seq::empty())
    } else if is_space(s[i]) {
        lines_from(s, i + 1, Seq::empty(), close_token(line, tok))
    } else {
        lines_from(s, i + 1, tok.push(s[i]), line)
    }
}

/// The text as a sequence of lines, each given by its whitespace-separated columns.
pub open spec fn token_lines(s: Seq<char>) -> Seq<Seq<Seq<char>>> {
    lines_from(s, 0, Seq::empty(), Seq::empty())
}

/// Whether `p` is a prefix of `s`.
pub open spec fn starts_with(s: Seq<char>, p: Seq<char>) -> bool {
    p.len() <= s.len() && s.subrange(0, p.len() as int) == p
}

/// Whether the first column of a line starts with `p`.
pub open spec fn line_starts_with(toks: Seq<Seq<char>>, p: Seq<char>) -> bool {
    toks.len() > 0 && starts_with(toks[0], p)
}

pub fn is_space_char(c: char) -> (r: bool)
    ensures
        r == is_space(c),
{
    let u = c as u32;
    (0x09 <= u && u <= 0x0D) || u == 0x20 || u == 0x85 || u == 0xA0 || u == 0x1680 || (0x2000
        <= u && u <= 0x200A) || u == 0x2028 || u == 0x2029 || u == 0x202F || u == 0x205F || u
        == 0x3000
}

/// The characters of `s`, in order.
pub fn chars_of(s: &str) -> (r: Vec<char>)
    ensures
        r@ == s@,
{
    let mut v: Vec<char> = Vec::new();
    for c in it: s.chars()
        invariant
            it.seq() == s@,
            v@ == it.seq().take(it.index() as int),
    {
        v.push(c);
    }
    v
}

/// Whether the text `s` starts with the text `p`.
pub fn has_prefix(s: &str, p: &str) -> (r: bool)
    ensures
        r == starts_with(s@, p@),
{
    let sv = chars_of(s);
    let pv = chars_of(p);
    if pv.len() > sv.len() {
        return false;
    }
    let mut i: usize = 0;
    while i < pv.len()
        invariant
            i <= pv.len() <= sv.len(),
            sv@ == s@,
            pv@ == p@,
            forall|k: int| 0 <= k < i ==> sv@[k] == pv@[k],
        decreases pv.len() - i,
    {
        if sv[i] != pv[i] {
            assert(s@.subrange(0, p@.len() as int)[i as int] != p@[i as int]);
            return false;
        }
        i = i + 1;
    }
    assert(s@.subrange(0, p@.len() as int) =~= p@);
    true
}

/// Whether the texts `a` and `b` hold the same characters.
pub fn same_text(a: &str, b: &str) -> (r: bool)
    ensures
        r == (a@ == b@),
{
    let av = chars_of(a);
    let bv = chars_of(b);
    if av.len() != bv.len() {
        return false;
    }
    let mut i: usize = 0;
    while i < av.len()
        invariant
            i <= av.len() == bv.len(),
            av@ == a@,
            bv@ == b@,
            forall|k: int| 0 <= k < i ==> av@[k] == bv@[k],
        decreases av.len() - i,
    {
        if av[i] != bv[i] {
            return false;
        }
        i = i + 1;
    }
    assert(a@ =~= b@);
    true
}


/// Splits `s` into lines at `'\n'`, and each line into its whitespace-separated columns.
pub fn split_token_lines(s: &str) -> (r: Vec<Vec<String>>)
    ensures
        r.deep_view() == token_lines(s@),
{
    let cs = chars_of(s);
    let n = cs.len();
    let mut out: Vec<Vec<String>> = Vec::new();
    let mut line: Vec<String> = Vec::new();
    let mut start: usize = 0;
    let mut i: usize = 0;
    proof {
        assert(out.deep_view() =~= Seq::<Seq<Seq<char>>>::empty());
        assert(line.deep_view() =~= Seq::<Seq<char>>::empty());
        assert(s@.subrange(0, 0) =~= Seq::<char>::empty());
        assert(out.deep_view() + token_lines(s@) =~= token_lines(s@));
    }
    while i < n
        invariant
            cs@ == s@,
            n == cs@.len(),
            start <= i <= n,
            out.deep_view() + lines_from(
                s@,
                i as int,
                s@.subrange(start as int, i as int),
                line.deep_view(),
            ) == token_lines(s@),
        decreases n - i,
    {
        let c = cs[i];
        let ghost tok = s@.subrange(start as int, i as int);
        let ghost line0 = line.deep_view();
        let ghost out0 = out.deep_view();
        if c == '\n' || is_space_char(c) {
            if start < i {
                let t = s.substring_char(start, i).to_owned();
                line.push(t);
            }
            assert(line.deep_view() =~= close_token(line0, tok));
            if c == '\n' {
                out.push(line);
                line = Vec::new();
                assert(out.deep_view() =~= out0 + seq![close_token(line0, tok)]);
                assert(line.deep_view() =~= Seq::<Seq<char>>::empty());
            }
            start = i + 1;
            i = i + 1;
            assert(s@.subrange(start as int, i as int) =~= Seq::<char>::empty());
            assert(out.deep_view() + lines_from(
                s@,
                i as int,
                s@.subrange(start as int, i as int),
                line.deep_view(),
            ) =~= token_lines(s@));
        } else {
            i = i + 1;
            assert(s@.subrange(start as int, i as int) =~= tok.push(c));
        }
    }
    let ghost tok = s@.subrange(start as int, i as int);
    let ghost line0 = line.deep_view();
    let ghost out0 = out.deep_view();
    if start < i {
        let t = s.substring_char(start, i).to_owned();
        line.push(t);
    }
    assert(line.deep_view() =~= close_token(line0, tok));
    out.push(line);
    assert(out.deep_view() =~= out0 + seq![close_token(line0, tok)]);
    out
}

} // verus!
