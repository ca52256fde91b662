use vstd::prelude::*;
use vstd::string::StrSliceExecFns;

verus! {

broadcast use vstd::string::group_string_axioms;

/// Appends one character to a `String` (std's `String::push`, which appends
/// the given char to the end of the string).
#[verifier::external_body]
pub(crate) fn push_char(s: &mut String, c: char)
    ensures
        final(s)@ == old(s)@.push(c),
{
    s.push(c);
}

/// The text of `s` split at every `'\n'`, keeping empty pieces; a text
/// without any `'\n'` is one piece, and the empty text is one empty piece.
pub open spec fn split_lines(s: Seq<char>) -> Seq<Seq<char>>
    decreases s.len(),
{
    if s.len() == 0 {
        seq![Seq::<char>::empty()]
    } else {
        let prev = split_lines(s.drop_last());
        if s.last() == '\n' {
            prev.push(Seq::<char>::empty())
        } else {
            prev.update(prev.len() - 1, prev.last().push(s.last()))
        }
    }
}

/// The pieces of `lines` joined with `'\n'` between consecutive pieces.
pub open spec fn join_lines(lines: Seq<Seq<char>>) -> Seq<char>
    decreases lines.len(),
{
    if lines.len() == 0 {
        Seq::<char>::empty()
    } else if lines.len() == 1 {
        lines[0]
    } else {
        join_lines(lines.drop_last()) + seq!['\n'] + lines.last()
    }
}

/// Views of a sequence of strings.
pub open spec fn views(v: Seq<String>) -> Seq<Seq<char>> {
    v.map_values(|l: String| l@)
}

pub proof fn lemma_split_lines_nonempty(s: Seq<char>)
    ensures
        split_lines(s).len() >= 1,
        split_lines(s).len() == 1 + count_char(s, '\n'),
    decreases s.len(),
{
    if s.len() > 0 {
        lemma_split_lines_nonempty(s.drop_last());
    }
}

/// How many times `c` occurs in `s`.
pub open spec fn count_char(s: Seq<char>, c: char) -> nat
    decreases s.len(),
{
    if s.len() == 0 {
        0
    } else {
        count_char(s.drop_last(), c) + if s.last() == c { 1nat } else { 0nat }
    }
}

/// Splitting a text into lines and joining them again gives the text back.
pub proof fn lemma_join_split(s: Seq<char>)
    ensures
        join_lines(split_lines(s)) == s,
    decreases s.len(),
{
    if s.len() > 0 {
        let p = s.drop_last();
        lemma_join_split(p);
        lemma_split_lines_nonempty(p);
        let prev = split_lines(p);
        if s.last() == '\n' {
            let cur = prev.push(Seq::<char>::empty());
            assert(cur.drop_last() =~= prev);
            assert(s =~= p + seq!['\n'] + Seq::<char>::empty());
        } else {
            let cur = prev.update(prev.len() - 1, prev.last().push(s.last()));
            if prev.len() == 1 {
                assert(s =~= prev[0].push(s.last()));
            } else {
                assert(cur.drop_last() =~= prev.drop_last());
                assert(join_lines(prev) == join_lines(prev.drop_last()) + seq!['\n'] + prev.last());
                assert(s =~= p.push(s.last()));
                assert(p == join_lines(prev));
                assert(s =~= join_lines(prev.drop_last()) + seq!['\n'] + prev.last().push(s.last()));
            }
        }
    }
}

/// The characters of `s`, in order.
pub fn chars_of(s: &str) -> (r: Vec<char>)
    ensures
        r@ == s@,
{
    let mut out: Vec<char> = Vec::new();
    for c in it: s.chars()
        invariant
            out@ == it.seq().take(it.index() as int),
            it.seq() == s@,
    {
        out.push(c);
    }
    out
}

/// A `String` holding the first `n` characters of `cs`.
pub fn string_of_take(cs: &[char], n: usize) -> (r: String)
    requires
        n <= cs@.len(),
    ensures
        r@ == cs@.take(n as int),
{
    let mut out = String::new();
    let mut i: usize = 0;
    while i < n
        invariant
            n <= cs@.len(),
            i <= n,
            out@ == cs@.take(i as int),
        decreases n - i,
    {
        push_char(&mut out, cs[i]);
        assert(cs@.take(i as int).push(cs@[i as int]) =~= cs@.take(i + 1));
        i += 1;
    }
    out
}

/// A `String` holding exactly the characters `cs`.
pub fn string_of(cs: &[char]) -> (r: String)
    ensures
        r@ == cs@,
{
    let r = string_of_take(cs, cs.len());
    assert(cs@.take(cs@.len() as int) =~= cs@);
    r
}

/// Appends the characters of `tail` to `s`.
pub fn push_str(s: &mut String, tail: &str)
    ensures
        final(s)@ == old(s)@ + tail@,
{
    let ghost start = s@;
    for c in it: tail.chars()
        invariant
            s@ == start + it.seq().take(it.index() as int),
            it.seq() == tail@,
    {
        push_char(s, c);
        proof {
            assert(it.seq().take(it.index() as int).push(c) =~= it.seq().take(it.index() + 1));
        }
    }
    assert(tail@.take(tail@.len() as int) =~= tail@);
}

/// Splits `s` at every `'\n'`, keeping empty lines (so the result is never
/// empty and joining it with `'\n'` gives `s` back).
pub fn input_lines_preserve(s: &str) -> (r: Vec<String>)
    ensures
        views(r@) == split_lines(s@),
        r@.len() >= 1,
{
    let mut out: Vec<String> = Vec::new();
    let mut cur = String::new();
    let ghost mut prefix: Seq<char> = Seq::empty();
    for c in it: s.chars()
        invariant
            it.seq() == s@,
            views(out@).push(cur@) == split_lines(s@.take(it.index() as int)),
    {
        let ghost before = s@.take(it.index() as int);
        proof {
            assert(s@.take(it.index() + 1).drop_last() =~= before);
            assert(s@.take(it.index() + 1).last() == c);
            lemma_split_lines_nonempty(before);
        }
        if c == '\n' {
            let done = cur;
            cur = String::new();
            out.push(done);
            proof {
                assert(views(out@).push(cur@) =~= split_lines(before).push(Seq::<char>::empty()));
            }
        } else {
            let ghost old_out = views(out@);
            push_char(&mut cur, c);
            proof {
                let prev = split_lines(before);
                assert(views(out@).push(cur@) =~= prev.update(prev.len() - 1, prev.last().push(c)));
            }
        }
    }
    assert(s@.take(s@.len() as int) =~= s@);
    out.push(cur);
    proof {
        lemma_split_lines_nonempty(s@);
        assert(views(out@) =~= split_lines(s@));
    }
    out
}

/// `l` without one trailing carriage return.
pub open spec fn strip_cr(l: Seq<char>) -> Seq<char> {
    if l.len() > 0 && l.last() == '\r' { l.drop_last() } else { l }
}

/// The lines of `s` as `str::lines` yields them: split at `'\n'`, a line
/// ending `"\r\n"` counting as one, and no empty line after a final line
/// ending (so the empty text has no lines).
pub open spec fn text_lines(s: Seq<char>) -> Seq<Seq<char>> {
    let parts = split_lines(s);
    let body = parts.drop_last().map_values(|p: Seq<char>| strip_cr(p));
    if parts.last().len() == 0 { body } else { body.push(parts.last()) }
}

fn strip_cr_string(l: &String) -> (r: String)
    ensures
        r@ == strip_cr(l@),
{
    let cs = chars_of(l.as_str());
    let n = cs.len();
    if n > 0 && cs[n - 1] == '\r' {
        string_of_take(cs.as_slice(), n - 1)
    } else {
        string_of(cs.as_slice())
    }
}

/// The lines of `s` (see `text_lines`).
pub fn text_lines_of(s: &str) -> (r: Vec<String>)
    ensures
        views(r@) == text_lines(s@),
{
    let parts = input_lines_preserve(s);
    let ghost ps = split_lines(s@);
    let n = parts.len();
    let mut out: Vec<String> = Vec::new();
    let mut i: usize = 0;
    while i + 1 < n
        invariant
            n == parts@.len(),
            n >= 1,
            views(parts@) == ps,
            i + 1 <= n,
            views(out@) == ps.take(i as int).map_values(|p: Seq<char>| strip_cr(p)),
        decreases n - i,
    {
        let l = strip_cr_string(&parts[i]);
        let ghost prev = views(out@);
        let ghost lv = l@;
        out.push(l);
        proof {
            assert(ps[i as int] == parts@[i as int]@);
            assert(views(out@) =~= prev.push(lv));
            assert(ps.take(i + 1).map_values(|p: Seq<char>| strip_cr(p))
                =~= ps.take(i as int).map_values(|p: Seq<char>| strip_cr(p)).push(strip_cr(ps[i as int])));
        }
        i += 1;
    }
    proof {
        assert(ps.take(i as int) =~= ps.drop_last());
        assert(ps.last() == parts@[n - 1]@);
    }
    let last_len = parts[n - 1].as_str().unicode_len();
    if last_len > 0 {
        let last = parts[n - 1].clone();
        out.push(last);
        assert(views(out@) =~= text_lines(s@));
    } else {
        assert(views(out@) =~= text_lines(s@));
    }
    out
}

/// The strings of `lines` joined with `'\n'`.
pub fn join_newlines(lines: &Vec<String>) -> (r: String)
    ensures
        r@ == join_lines(views(lines@)),
{
    let mut out = String::new();
    let mut i: usize = 0;
    while i < lines.len()
        invariant
            i <= lines@.len(),
            out@ == join_lines(views(lines@).take(i as int)),
        decreases lines@.len() - i,
    {
        proof {
            let t = views(lines@).take(i + 1);
            assert(t.drop_last() =~= views(lines@).take(i as int));
        }
        if i > 0 {
            push_char(&mut out, '\n');
        }
        push_str(&mut out, lines[i].as_str());
        proof {
            let t = views(lines@).take(i + 1);
            if i == 0 {
                assert(out@ =~= t[0]);
            } else {
                assert(out@ =~= join_lines(t.drop_last()) + seq!['\n'] + t.last());
            }
        }
        i += 1;
    }
    assert(views(lines@).take(lines@.len() as int) =~= views(lines@));
    out
}

} // verus!

verus! {

/// `s` holds no `'\n'`.
pub open spec fn no_newline(s: Seq<char>) -> bool {
    forall|i: int| 0 <= i < s.len() ==> s[i] != '\n'
}

/// Every line that `split_lines` gives is free of `'\n'`.
pub proof fn lemma_split_lines_no_newline(s: Seq<char>)
    ensures
        forall|i: int| 0 <= i < split_lines(s).len() ==> no_newline(#[trigger] split_lines(s)[i]),
    decreases s.len(),
{
    if s.len() > 0 {
        let p = s.drop_last();
        lemma_split_lines_no_newline(p);
        lemma_split_lines_nonempty(p);
        let prev = split_lines(p);
        if s.last() != '\n' {
            let cur = split_lines(s);
            assert forall|i: int| 0 <= i < cur.len() implies no_newline(#[trigger] cur[i]) by {
                if i == prev.len() - 1 {
                    assert(no_newline(prev[i]));
                    assert(cur[i] == prev[i].push(s.last()));
                } else {
                    assert(cur[i] == prev[i]);
                }
            }
        } else {
            let cur = split_lines(s);
            assert forall|i: int| 0 <= i < cur.len() implies no_newline(#[trigger] cur[i]) by {
                if i < prev.len() {
                    assert(cur[i] == prev[i]);
                }
            }
        }
    }
}

pub proof fn lemma_count_char_concat(a: Seq<char>, b: Seq<char>, c: char)
    ensures
        count_char(a + b, c) == count_char(a, c) + count_char(b, c),
    decreases b.len(),
{
    if b.len() == 0 {
        assert(a + b =~= a);
    } else {
        lemma_count_char_concat(a, b.drop_last(), c);
        assert((a + b).drop_last() =~= a + b.drop_last());
    }
}

pub proof fn lemma_count_char_absent(s: Seq<char>, c: char)
    requires
        forall|i: int| 0 <= i < s.len() ==> s[i] != c,
    ensures
        count_char(s, c) == 0,
    decreases s.len(),
{
    if s.len() > 0 {
        lemma_count_char_absent(s.drop_last(), c);
    }
}

/// The number of characters after the last `'\n'` of `s` (all of `s` when
/// it holds none).
pub open spec fn col_in(s: Seq<char>) -> nat
    decreases s.len(),
{
    if s.len() == 0 {
        0
    } else if s.last() == '\n' {
        0
    } else {
        col_in(s.drop_last()) + 1
    }
}

pub proof fn lemma_col_in_concat(a: Seq<char>, b: Seq<char>)
    requires
        no_newline(b),
    ensures
        col_in(a + b) == col_in(a) + b.len(),
    decreases b.len(),
{
    if b.len() == 0 {
        assert(a + b =~= a);
    } else {
        lemma_col_in_concat(a, b.drop_last());
        assert((a + b).drop_last() =~= a + b.drop_last());
    }
}

/// Start offset of line `r` when `lines` are joined with `'\n'`.
pub open spec fn line_offset(lines: Seq<Seq<char>>, r: int) -> int
    decreases r,
{
    if r <= 0 {
        0
    } else {
        line_offset(lines, r - 1) + lines[r - 1].len() + 1
    }
}

pub proof fn lemma_line_offset_monotonic(lines: Seq<Seq<char>>, a: int, b: int)
    requires
        0 <= a <= b,
    ensures
        line_offset(lines, a) <= line_offset(lines, b),
    decreases b - a,
{
    if a < b {
        lemma_line_offset_monotonic(lines, a, b - 1);
    }
}

/// Joining the first `k` lines, then the rest, gives the whole join.
pub proof fn lemma_join_take(lines: Seq<Seq<char>>, k: int)
    requires
        1 <= k <= lines.len(),
    ensures
        k < lines.len() ==> join_lines(lines) == join_lines(lines.take(k)) + seq!['\n'] + join_lines(lines.skip(k)),
        k == lines.len() ==> join_lines(lines) == join_lines(lines.take(k)),
    decreases lines.len(),
{
    if k == lines.len() {
        assert(lines.take(k) =~= lines);
    } else {
        let dl = lines.drop_last();
        lemma_join_take(dl, k);
        assert(dl.take(k) =~= lines.take(k));
        if k == lines.len() - 1 {
            assert(lines.skip(k) =~= seq![lines.last()]);
            assert(dl.take(k) =~= dl);
        } else {
            assert(lines.skip(k).drop_last() =~= dl.skip(k));
            assert(lines.skip(k).last() == lines.last());
        }
    }
}

pub proof fn lemma_join_take_facts(lines: Seq<Seq<char>>, r: int)
    requires
        1 <= r <= lines.len(),
        forall|i: int| 0 <= i < lines.len() ==> no_newline(#[trigger] lines[i]),
    ensures
        join_lines(lines.take(r)).len() == line_offset(lines, r) - 1,
        count_char(join_lines(lines.take(r)), '\n') == r - 1,
    decreases r,
{
    if r == 1 {
        assert(lines.take(1) =~= seq![lines[0]]);
        assert(join_lines(lines.take(1)) == lines[0]);
        assert(line_offset(lines, 1) == line_offset(lines, 0) + lines[0].len() + 1);
        lemma_count_char_absent(lines[0], '\n');
    } else {
        lemma_join_take_facts(lines, r - 1);
        let t = lines.take(r);
        assert(t.drop_last() =~= lines.take(r - 1));
        assert(join_lines(t) == join_lines(lines.take(r - 1)) + seq!['\n'] + lines[r - 1]);
        lemma_count_char_concat(join_lines(lines.take(r - 1)) + seq!['\n'], lines[r - 1], '\n');
        lemma_count_char_concat(join_lines(lines.take(r - 1)), seq!['\n'], '\n');
        assert(seq!['\n'].drop_last() =~= Seq::<char>::empty());
        lemma_count_char_absent(lines[r - 1], '\n');
        assert(count_char(seq!['\n'], '\n') == 1) by {
            assert(seq!['\n'].drop_last() =~= Seq::<char>::empty());
            assert(count_char(Seq::<char>::empty(), '\n') == 0);
            assert(seq!['\n'].last() == '\n');
        }
        assert(line_offset(lines, r) == line_offset(lines, r - 1) + lines[r - 1].len() + 1);
    }
}

/// The prefix of the joined text that ends `c` characters into line `r`.
pub proof fn lemma_join_prefix(lines: Seq<Seq<char>>, r: int, c: int)
    requires
        0 <= r < lines.len(),
        0 <= c <= lines[r].len(),
        forall|i: int| 0 <= i < lines.len() ==> no_newline(#[trigger] lines[i]),
    ensures
        line_offset(lines, r) + c <= join_lines(lines).len(),
        count_char(join_lines(lines).take(line_offset(lines, r) + c), '\n') == r,
        col_in(join_lines(lines).take(line_offset(lines, r) + c)) == c,
{
    let j = join_lines(lines);
    let head = join_lines(lines.take(r + 1));
    lemma_join_take(lines, r + 1);
    assert(j.take(head.len() as int) =~= head);
    let p = line_offset(lines, r) + c;
    lemma_join_take_facts(lines, r + 1);
    if r == 0 {
        assert(lines.take(1) =~= seq![lines[0]]);
        assert(head == lines[0]);
        assert(j.take(p) =~= lines[0].take(c));
        assert(no_newline(lines[0].take(c)));
        lemma_count_char_absent(lines[0].take(c), '\n');
        lemma_col_in_concat(Seq::<char>::empty(), lines[0].take(c));
        assert(Seq::<char>::empty() + lines[0].take(c) =~= lines[0].take(c));
    } else {
        let t = lines.take(r + 1);
        assert(t.drop_last() =~= lines.take(r));
        let a = join_lines(lines.take(r));
        assert(head == a + seq!['\n'] + lines[r]);
        lemma_join_take_facts(lines, r);
        let q = a + seq!['\n'] + lines[r].take(c);
        assert(j.take(p) =~= q);
        assert(no_newline(lines[r].take(c)));
        lemma_count_char_concat(a + seq!['\n'], lines[r].take(c), '\n');
        lemma_count_char_concat(a, seq!['\n'], '\n');
        assert(seq!['\n'].drop_last() =~= Seq::<char>::empty());
        lemma_count_char_absent(lines[r].take(c), '\n');
        lemma_col_in_concat(a + seq!['\n'], lines[r].take(c));
        assert((a + seq!['\n']).drop_last() =~= a);
    }
}

/// Decimal digit character for `d < 10`.
pub open spec fn digit_char(d: nat) -> char {
    if d == 0 { '0' }
    else if d == 1 { '1' }
    else if d == 2 { '2' }
    else if d == 3 { '3' }
    else if d == 4 { '4' }
    else if d == 5 { '5' }
    else if d == 6 { '6' }
    else if d == 7 { '7' }
    else if d == 8 { '8' }
    else { '9' }
}

/// The decimal writing of `n`, as `format!("{}", n)` renders an unsigned integer.
pub open spec fn decimal(n: nat) -> Seq<char>
    decreases n,
{
    if n < 10 {
        seq![digit_char(n)]
    } else {
        decimal(n / 10).push(digit_char(n % 10))
    }
}

fn digit(d: usize) -> (c: char)
    requires
        d < 10,
    ensures
        c == digit_char(d as nat),
{
    if d == 0 { '0' }
    else if d == 1 { '1' }
    else if d == 2 { '2' }
    else if d == 3 { '3' }
    else if d == 4 { '4' }
    else if d == 5 { '5' }
    else if d == 6 { '6' }
    else if d == 7 { '7' }
    else if d == 8 { '8' }
    else { '9' }
}

/// Appends the decimal writing of `n` to `s`.
pub fn push_decimal(s: &mut String, n: usize)
    ensures
        final(s)@ == old(s)@ + decimal(n as nat),
    decreases n,
{
    if n < 10 {
        push_char(s, digit(n));
        assert(old(s)@.push(digit_char(n as nat)) =~= old(s)@ + decimal(n as nat));
    } else {
        push_decimal(s, n / 10);
        push_char(s, digit(n % 10));
        assert(old(s)@ + decimal(n as nat) =~= old(s)@ + decimal((n / 10) as nat) + seq![digit_char((n % 10) as nat)]);
    }
}

fn digit_u64(d: u64) -> (c: char)
    requires
        d < 10,
    ensures
        c == digit_char(d as nat),
{
    digit(d as usize)
}

/// Appends the decimal writing of `n` to `s`.
pub fn push_decimal_u64(s: &mut String, n: u64)
    ensures
        final(s)@ == old(s)@ + decimal(n as nat),
    decreases n,
{
    if n < 10 {
        push_char(s, digit_u64(n));
        assert(old(s)@.push(digit_char(n as nat)) =~= old(s)@ + decimal(n as nat));
    } else {
        push_decimal_u64(s, n / 10);
        push_char(s, digit_u64(n % 10));
        assert(old(s)@ + decimal(n as nat) =~= old(s)@ + decimal((n / 10) as nat) + seq![digit_char((n % 10) as nat)]);
    }
}

/// `n` copies of `c`.
pub open spec fn repeat(c: char, n: nat) -> Seq<char> {
    Seq::new(n, |_i: int| c)
}

/// Appends `n` copies of `c` to `s`.
pub fn push_repeat(s: &mut String, c: char, n: usize)
    ensures
        final(s)@ == old(s)@ + repeat(c, n as nat),
{
    let mut i: usize = 0;
    while i < n
        invariant
            i <= n,
            s@ == old(s)@ + repeat(c, i as nat),
        decreases n - i,
    {
        push_char(s, c);
        assert(old(s)@ + repeat(c, i as nat) + seq![c] =~= old(s)@ + repeat(c, (i + 1) as nat));
        i += 1;
    }
}


pub proof fn lemma_count_char_le_len(s: Seq<char>, c: char)
    ensures
        count_char(s, c) <= s.len(),
    decreases s.len(),
{
    if s.len() > 0 {
        lemma_count_char_le_len(s.drop_last(), c);
    }
}


/// `v` cut to at most `max` characters; a cut text longer than three
/// characters ends in `"..."`.
pub open spec fn truncated(v: Seq<char>, max: nat) -> Seq<char> {
    if v.len() <= max {
        v
    } else if max <= 3 {
        v.take(max as int)
    } else {
        v.take(max - 3) + seq!['.', '.', '.']
    }
}

/// `v` truncated to `width` characters and padded with spaces to exactly
/// `width` characters.
pub open spec fn fitted(v: Seq<char>, width: nat) -> Seq<char> {
    truncated(v, width) + repeat(' ', (width - truncated(v, width).len()) as nat)
}

/// `value` cut to `max_chars` characters, the last three of a cut text
/// replaced by `"..."` when there is room for them.
pub fn truncate_ascii(value: &str, max_chars: usize) -> (r: String)
    ensures
        r@ == truncated(value@, max_chars as nat),
        r@.len() <= max_chars || r@ == value@,
{
    let chars = chars_of(value);
    if chars.len() <= max_chars {
        return string_of(chars.as_slice());
    }
    if max_chars <= 3 {
        return string_of_take(chars.as_slice(), max_chars);
    }
    let mut out = string_of_take(chars.as_slice(), max_chars - 3);
    push_char(&mut out, '.');
    push_char(&mut out, '.');
    push_char(&mut out, '.');
    assert(out@ =~= value@.take(max_chars - 3) + seq!['.', '.', '.']);
    out
}

/// `value` truncated (see `truncate_ascii`) and left-aligned in a cell of
/// exactly `width` characters.
pub fn fit_ascii_cell(value: &str, width: usize) -> (r: String)
    ensures
        r@ == fitted(value@, width as nat),
        r@.len() == width,
{
    let mut out = truncate_ascii(value, width);
    let n = out.as_str().unicode_len();
    push_repeat(&mut out, ' ', width - n);
    out
}


/// Unicode `White_Space` (what `char::is_whitespace` tests).
pub open spec fn is_space(c: char) -> bool {
    let u = c as u32;
    (0x9 <= u && u <= 0xD) || u == 0x20 || u == 0x85 || u == 0xA0 || u == 0x1680
        || (0x2000 <= u && u <= 0x200A) || u == 0x2028 || u == 0x2029 || u == 0x202F
        || u == 0x205F || u == 0x3000
}

/// Whether `c` has the Unicode `White_Space` property.
pub fn is_whitespace(c: char) -> (r: bool)
    ensures
        r == is_space(c),
{
    let u = c as u32;
    (0x9 <= u && u <= 0xD) || u == 0x20 || u == 0x85 || u == 0xA0 || u == 0x1680
        || (0x2000 <= u && u <= 0x200A) || u == 0x2028 || u == 0x2029 || u == 0x202F
        || u == 0x205F || u == 0x3000
}

/// The maximal runs of non-whitespace characters of `s`, in order (what
/// `str::split_whitespace` yields).
pub open spec fn words(s: Seq<char>) -> Seq<Seq<char>>
    decreases s.len(),
{
    if s.len() == 0 {
        Seq::empty()
    } else {
        let prev = words(s.drop_last());
        if is_space(s.last()) {
            prev
        } else if s.len() >= 2 && !is_space(s.drop_last().last()) && prev.len() > 0 {
            prev.update(prev.len() - 1, prev.last().push(s.last()))
        } else {
            prev.push(seq![s.last()])
        }
    }
}

/// The whitespace-separated words of `s`.
pub fn split_whitespace(s: &str) -> (r: Vec<Vec<char>>)
    ensures
        r@.map_values(|w: Vec<char>| w@) == words(s@),
{
    let cs = chars_of(s);
    let mut out: Vec<Vec<char>> = Vec::new();
    let mut i: usize = 0;
    while i < cs.len()
        invariant
            cs@ == s@,
            i <= cs@.len(),
            out@.map_values(|w: Vec<char>| w@) == words(cs@.take(i as int)),
            i > 0 && !is_space(cs@[i - 1]) ==> out@.len() > 0,
        decreases cs@.len() - i,
    {
        let c = cs[i];
        let ghost before = out@.map_values(|w: Vec<char>| w@);
        assert(cs@.take(i + 1).drop_last() =~= cs@.take(i as int));
        if is_whitespace(c) {
        } else if i >= 1 && !is_whitespace(cs[i - 1]) {
            let last = out.len() - 1;
            let mut w = out.pop().unwrap();
            w.push(c);
            out.push(w);
            assert(cs@.take(i as int).last() == cs@[i - 1]);
            assert(out@.map_values(|w: Vec<char>| w@) =~= before.update(before.len() - 1, before.last().push(c)));
        } else {
            let mut w: Vec<char> = Vec::new();
            w.push(c);
            out.push(w);
            assert(out@.map_values(|w: Vec<char>| w@) =~= before.push(seq![c]));
        }
        i += 1;
    }
    assert(cs@.take(cs@.len() as int) =~= cs@);
    out
}

/// The pieces of `s` between occurrences of `sep`, keeping empty pieces
/// (what `str::split` with a char separator yields).
pub open spec fn split_on(s: Seq<char>, sep: char) -> Seq<Seq<char>>
    decreases s.len(),
{
    if s.len() == 0 {
        seq![Seq::<char>::empty()]
    } else {
        let prev = split_on(s.drop_last(), sep);
        if s.last() == sep {
            prev.push(Seq::<char>::empty())
        } else {
            prev.update(prev.len() - 1, prev.last().push(s.last()))
        }
    }
}

pub proof fn lemma_split_on_nonempty(s: Seq<char>, sep: char)
    ensures
        split_on(s, sep).len() >= 1,
    decreases s.len(),
{
    if s.len() > 0 {
        lemma_split_on_nonempty(s.drop_last(), sep);
    }
}

/// The pieces of `s` between occurrences of `sep`.
pub fn split_chars(s: &[char], sep: char) -> (r: Vec<Vec<char>>)
    ensures
        r@.map_values(|w: Vec<char>| w@) == split_on(s@, sep),
{
    let mut out: Vec<Vec<char>> = Vec::new();
    let mut cur: Vec<char> = Vec::new();
    let mut i: usize = 0;
    while i < s.len()
        invariant
            i <= s@.len(),
            out@.map_values(|w: Vec<char>| w@).push(cur@) == split_on(s@.take(i as int), sep),
        decreases s@.len() - i,
    {
        let c = s[i];
        let ghost before = s@.take(i as int);
        assert(s@.take(i + 1).drop_last() =~= before);
        proof {
            lemma_split_on_nonempty(before, sep);
        }
        if c == sep {
            let done = cur;
            cur = Vec::new();
            out.push(done);
            assert(out@.map_values(|w: Vec<char>| w@).push(cur@) =~= split_on(before, sep).push(Seq::<char>::empty()));
        } else {
            cur.push(c);
            proof {
                let prev = split_on(before, sep);
                assert(out@.map_values(|w: Vec<char>| w@).push(cur@) =~= prev.update(prev.len() - 1, prev.last().push(c)));
            }
        }
        i += 1;
    }
    assert(s@.take(s@.len() as int) =~= s@);
    out.push(cur);
    assert(out@.map_values(|w: Vec<char>| w@) =~= split_on(s@, sep));
    out
}

/// Whether `c` is an ASCII decimal digit.
pub open spec fn is_digit(c: char) -> bool {
    '0' <= c && c <= '9'
}

/// The number that the decimal digits `d` write.
pub open spec fn digits_value(d: Seq<char>) -> nat
    decreases d.len(),
{
    if d.len() == 0 {
        0
    } else {
        digits_value(d.drop_last()) * 10 + (d.last() as nat - '0' as nat) as nat
    }
}

/// What `str::parse::<usize>` gives for `s`: an optional leading `'+'`, then
/// one or more ASCII digits whose value fits in `usize`.
pub open spec fn parsed_usize(s: Seq<char>) -> Option<nat> {
    let d = unsigned_digits(s);
    if d.len() > 0 && all_digits(d) && digits_value(d) <= usize::MAX {
        Some(digits_value(d))
    } else {
        None
    }
}

/// `s` without one leading `'+'`.
pub open spec fn unsigned_digits(s: Seq<char>) -> Seq<char> {
    if s.len() > 0 && s[0] == '+' { s.skip(1) } else { s }
}

/// Every character of `d` is an ASCII digit.
pub open spec fn all_digits(d: Seq<char>) -> bool {
    forall|i: int| 0 <= i < d.len() ==> is_digit(#[trigger] d[i])
}

proof fn lemma_digits_value_monotonic(d: Seq<char>, k: int)
    requires
        0 <= k <= d.len(),
        forall|i: int| 0 <= i < d.len() ==> is_digit(#[trigger] d[i]),
    ensures
        digits_value(d.take(k)) <= digits_value(d),
    decreases d.len(),
{
    if k < d.len() {
        lemma_digits_value_monotonic(d.drop_last(), k);
        assert(d.drop_last().take(k) =~= d.take(k));
    } else {
        assert(d.take(k) =~= d);
    }
}

/// Parses `s` as `str::parse::<usize>` does.
pub fn parse_usize(s: &[char]) -> (r: Option<usize>)
    ensures
        match parsed_usize(s@) {
            Some(n) => r == Some(n as usize),
            None => r is None,
        },
{
    let start: usize = if s.len() > 0 && s[0] == '+' { 1 } else { 0 };
    let ghost d = unsigned_digits(s@);
    assert(d =~= s@.skip(start as int));
    if start >= s.len() {
        return None;
    }
    let mut acc: u128 = 0;
    let mut i = start;
    while i < s.len()
        invariant
            start <= i <= s@.len(),
            d == s@.skip(start as int),
            d == unsigned_digits(s@),
            acc == digits_value(d.take(i - start)),
            acc <= usize::MAX,
            forall|j: int| 0 <= j < i - start ==> is_digit(#[trigger] d[j]),
        decreases s@.len() - i,
    {
        let c = s[i];
        if !('0' <= c && c <= '9') {
            assert(!is_digit(d[i - start]));
            assert(!all_digits(d));
            assert(parsed_usize(s@) is None);
            return None;
        }
        proof {
            assert(d.take(i - start + 1).drop_last() =~= d.take(i - start));
            assert(d.take(i - start + 1).last() == c);
        }
        let dv = (c as u32) - ('0' as u32);
        assert(dv as nat == (c as nat - '0' as nat) as nat);
        acc = acc * 10 + dv as u128;
        i += 1;
        assert(acc == digits_value(d.take(i - start)));
        if acc > usize::MAX as u128 {
            proof {
                if all_digits(d) {
                    lemma_digits_value_monotonic(d, i - start);
                    assert(digits_value(d) > usize::MAX);
                }
            }
            assert(parsed_usize(s@) is None);
            return None;
        }
    }
    assert(d.take(d.len() as int) =~= d);
    Some(acc as usize)
}


/// `s` without its leading whitespace.
pub open spec fn trim_start(s: Seq<char>) -> Seq<char>
    decreases s.len(),
{
    if s.len() > 0 && is_space(s[0]) { trim_start(s.skip(1)) } else { s }
}

/// `s` without its trailing whitespace.
pub open spec fn trim_end(s: Seq<char>) -> Seq<char>
    decreases s.len(),
{
    if s.len() > 0 && is_space(s.last()) { trim_end(s.drop_last()) } else { s }
}

/// `s` without leading and trailing whitespace (what `str::trim` gives).
pub open spec fn trimmed(s: Seq<char>) -> Seq<char> {
    trim_end(trim_start(s))
}

proof fn lemma_trim_start_at(s: Seq<char>, i: int)
    requires
        0 <= i <= s.len(),
        forall|k: int| 0 <= k < i ==> is_space(#[trigger] s[k]),
        i == s.len() || !is_space(s[i]),
    ensures
        trim_start(s) == s.skip(i),
    decreases i,
{
    if i == 0 {
        assert(s.skip(0) =~= s);
    } else {
        let t = s.skip(1);
        assert forall|k: int| 0 <= k < i - 1 implies is_space(#[trigger] t[k]) by {
            assert(t[k] == s[k + 1]);
        }
        if i - 1 < t.len() {
            assert(t[i - 1] == s[i]);
        }
        lemma_trim_start_at(t, i - 1);
        assert(t.skip(i - 1) =~= s.skip(i));
    }
}

proof fn lemma_trim_end_at(s: Seq<char>, j: int)
    requires
        0 <= j <= s.len(),
        forall|k: int| j <= k < s.len() ==> is_space(#[trigger] s[k]),
        j == 0 || !is_space(s[j - 1]),
    ensures
        trim_end(s) == s.take(j),
    decreases s.len() - j,
{
    if j == s.len() {
        assert(s.take(j) =~= s);
    } else {
        let t = s.drop_last();
        assert forall|k: int| j <= k < t.len() implies is_space(#[trigger] t[k]) by {
            assert(t[k] == s[k]);
        }
        if j > 0 {
            assert(t[j - 1] == s[j - 1]);
        }
        lemma_trim_end_at(t, j);
        assert(t.take(j) =~= s.take(j));
    }
}

/// The characters of `s` without leading and trailing whitespace.
pub fn trim_chars(s: &[char]) -> (r: Vec<char>)
    ensures
        r@ == trimmed(s@),
        r@.len() <= s@.len(),
{
    let mut i: usize = 0;
    while i < s.len() && is_whitespace(s[i])
        invariant
            i <= s@.len(),
            forall|k: int| 0 <= k < i ==> is_space(#[trigger] s@[k]),
        decreases s@.len() - i,
    {
        i += 1;
    }
    proof {
        lemma_trim_start_at(s@, i as int);
    }
    let ghost t = s@.skip(i as int);
    let mut j: usize = s.len();
    while j > i && is_whitespace(s[j - 1])
        invariant
            i <= j <= s@.len(),
            t == s@.skip(i as int),
            forall|k: int| j <= k < s@.len() ==> is_space(#[trigger] s@[k]),
        decreases j,
    {
        j -= 1;
    }
    proof {
        assert forall|k: int| j - i <= k < t.len() implies is_space(#[trigger] t[k]) by {
            assert(t[k] == s@[k + i]);
        }
        if j > i {
            assert(t[j - i - 1] == s@[j - 1]);
        }
        lemma_trim_end_at(t, j - i);
    }
    let mut out: Vec<char> = Vec::new();
    let mut k = i;
    while k < j
        invariant
            i <= k <= j,
            j <= s@.len(),
            out@ == s@.subrange(i as int, k as int),
        decreases j - k,
    {
        out.push(s[k]);
        assert(out@ =~= s@.subrange(i as int, k + 1));
        k += 1;
    }
    assert(out@ =~= t.take(j - i));
    out
}

/// ASCII upper-case letters mapped to lower case, other characters kept.
pub open spec fn ascii_lower_char(c: char) -> char {
    if 'A' <= c && c <= 'Z' { ((c as u32) + 32) as char } else { c }
}

/// `s` with ASCII letters in lower case (what `to_ascii_lowercase` gives).
pub open spec fn ascii_lower(s: Seq<char>) -> Seq<char> {
    s.map_values(|c: char| ascii_lower_char(c))
}

/// `c` with an ASCII upper-case letter made lower case.
pub fn to_ascii_lower(c: char) -> (r: char)
    ensures
        r == ascii_lower_char(c),
{
    if 'A' <= c && c <= 'Z' {
        let u = c as u32;
        let b = (u + 32) as u8;
        b as char
    } else {
        c
    }
}

/// The characters of `s` with ASCII letters lower-cased.
pub fn ascii_lowercase_chars(s: &[char]) -> (r: Vec<char>)
    ensures
        r@ == ascii_lower(s@),
{
    let mut out: Vec<char> = Vec::new();
    let mut i: usize = 0;
    while i < s.len()
        invariant
            i <= s@.len(),
            out@ == ascii_lower(s@.take(i as int)),
        decreases s@.len() - i,
    {
        out.push(to_ascii_lower(s[i]));
        assert(out@ =~= ascii_lower(s@.take(i + 1)));
        i += 1;
    }
    assert(s@.take(s@.len() as int) =~= s@);
    out
}


/// Whether `a` and `b` hold the same characters.
pub fn chars_eq(a: &Vec<char>, b: &[char]) -> (r: bool)
    ensures
        r == (a@ == b@),
{
    if a.len() != b.len() {
        return false;
    }
    let mut i: usize = 0;
    while i < a.len()
        invariant
            a@.len() == b@.len(),
            i <= a@.len(),
            forall|j: int| 0 <= j < i ==> a@[j] == b@[j],
        decreases a@.len() - i,
    {
        if a[i] != b[i] {
            return false;
        }
        i += 1;
    }
    assert(a@ =~= b@);
    true
}


proof fn lemma_decimal_len(n: nat)
    ensures
        decimal(n).len() >= 1,
        n >= 10 ==> decimal(n).len() >= 2,
    decreases n,
{
    if n >= 10 {
        lemma_decimal_len(n / 10);
    }
}

proof fn lemma_digit_char_injective(a: nat, b: nat)
    requires
        a < 10,
        b < 10,
        digit_char(a) == digit_char(b),
    ensures
        a == b,
{
}

/// Different numbers are written differently.
pub proof fn lemma_decimal_injective(a: nat, b: nat)
    requires
        decimal(a) == decimal(b),
    ensures
        a == b,
    decreases a,
{
    lemma_decimal_len(a);
    lemma_decimal_len(b);
    if a < 10 && b < 10 {
        assert(decimal(a)[0] == digit_char(a));
        assert(decimal(b)[0] == digit_char(b));
        lemma_digit_char_injective(a, b);
    } else if a >= 10 && b >= 10 {
        let da = decimal(a);
        let db = decimal(b);
        assert(da.last() == digit_char(a % 10));
        assert(db.last() == digit_char(b % 10));
        lemma_digit_char_injective(a % 10, b % 10);
        assert(da.drop_last() =~= decimal(a / 10));
        assert(db.drop_last() =~= decimal(b / 10));
        lemma_decimal_injective(a / 10, b / 10);
    } else {
        assert(decimal(a).len() != decimal(b).len());
    }
}


/// Every character of a decimal writing is a digit.
pub proof fn lemma_decimal_digits(n: nat)
    ensures
        decimal(n).len() >= 1,
        forall|i: int| 0 <= i < decimal(n).len() ==> is_digit(#[trigger] decimal(n)[i]),
    decreases n,
{
    lemma_decimal_len(n);
    if n >= 10 {
        lemma_decimal_digits(n / 10);
        let d = decimal(n);
        assert forall|i: int| 0 <= i < d.len() implies is_digit(#[trigger] d[i]) by {
            if i < d.len() - 1 {
                assert(d[i] == decimal(n / 10)[i]);
            }
        }
    }
}

} // verus!
