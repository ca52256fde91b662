//! Finding things by typing: fuzzy scoring of component kinds in the
//! picker, and substring filters for file and page pickers.
use vstd::prelude::*;
use vstd::string::StrSliceExecFns;
use crate::components::{all_kinds, kind_label, ComponentKind};
use crate::text::{
    ascii_lower, ascii_lowercase_chars, chars_of, push_char, push_str, string_of, trim_chars,
    trimmed,
};

verus! {

broadcast use vstd::string::group_string_axioms;

/// `q` occurs in `t` starting at index `i`.
pub open spec fn matches_at(t: Seq<char>, q: Seq<char>, i: int) -> bool {
    0 <= i && i + q.len() <= t.len() && t.subrange(i, i + q.len()) == q
}

/// Index of the first occurrence of `q` in `t` at or after `i`.
pub open spec fn first_match(t: Seq<char>, q: Seq<char>, i: int) -> Option<int>
    decreases t.len() - i,
{
    if i < 0 || i + q.len() > t.len() {
        None
    } else if matches_at(t, q, i) {
        Some(i)
    } else if i >= t.len() {
        None
    } else {
        first_match(t, q, i + 1)
    }
}

/// Bytes `c` takes in UTF-8.
pub open spec fn utf8_width(c: char) -> nat {
    let u = c as u32;
    if u < 0x80 { 1 } else if u < 0x800 { 2 } else if u < 0x10000 { 3 } else { 4 }
}

/// Bytes `s` takes in UTF-8.
pub open spec fn utf8_bytes(s: Seq<char>) -> nat
    decreases s.len(),
{
    if s.len() == 0 { 0 } else { utf8_bytes(s.drop_last()) + utf8_width(s.last()) }
}

/// Index of the first `c` in `t` at or after `from`.
pub open spec fn next_index_of(t: Seq<char>, c: char, from: int) -> Option<int>
    decreases t.len() - from,
{
    if from < 0 || from >= t.len() {
        None
    } else if t[from] == c {
        Some(from)
    } else {
        next_index_of(t, c, from + 1)
    }
}

/// Score of matching the characters of `q` in order against `t`, each at
/// the first place after the previous match: 10 per character, 8 more when
/// it directly follows the previous match, 6 more when it is `t`'s first
/// character; `None` when some character is not found.
pub open spec fn subseq_score(q: Seq<char>, t: Seq<char>, from: int, last: Option<int>) -> Option<int>
    decreases q.len(),
{
    if q.len() == 0 {
        Some(0)
    } else {
        match next_index_of(t, q[0], from) {
            None => None,
            Some(i) => match subseq_score(q.skip(1), t, i + 1, Some(i)) {
                None => None,
                Some(rest) => Some(rest + 10 + (if last == Some(i - 1) { 8int } else { 0int }) + (if i == 0 { 6int } else { 0int })),
            },
        }
    }
}

/// Fuzzy score of `query` against `text`, ASCII case ignored: 0 for an
/// empty query; 1000 minus the byte offset of the first occurrence when the
/// query occurs in the text; otherwise the in-order character match score.
pub open spec fn fuzzy(query: Seq<char>, text: Seq<char>) -> Option<int> {
    let q = ascii_lower(query);
    let t = ascii_lower(text);
    if q.len() == 0 {
        Some(0)
    } else {
        match first_match(t, q, 0) {
            Some(i) => Some(1000 - utf8_bytes(t.take(i))),
            None => subseq_score(q, t, 0, None),
        }
    }
}

fn matches_at_exec(t: &Vec<char>, q: &Vec<char>, i: usize) -> (r: bool)
    requires
        i + q@.len() <= t@.len(),
    ensures
        r == matches_at(t@, q@, i as int),
{
    let tl = t.len();
    let mut k: usize = 0;
    while k < q.len()
        invariant
            tl == t@.len(),
            i + q@.len() <= t@.len(),
            k <= q@.len(),
            forall|j: int| 0 <= j < k ==> t@[i + j] == q@[j],
        decreases q@.len() - k,
    {
        assert(k < q@.len());
        let at = i + k;
        if t[at] != q[k] {
            assert(t@.subrange(i as int, i + q@.len())[k as int] != q@[k as int]);
            return false;
        }
        k += 1;
    }
    assert(t@.subrange(i as int, i + q@.len()) =~= q@);
    true
}

proof fn lemma_first_match_range(t: Seq<char>, q: Seq<char>, i: int)
    ensures
        first_match(t, q, i) matches Some(k) ==> i <= k && k + q.len() <= t.len() && matches_at(t, q, k),
    decreases t.len() - i,
{
    if !(i < 0 || i + q.len() > t.len()) && !matches_at(t, q, i) && i < t.len() {
        lemma_first_match_range(t, q, i + 1);
    }
}

pub(crate) fn find_chars(t: &Vec<char>, q: &Vec<char>) -> (r: Option<usize>)
    ensures
        match first_match(t@, q@, 0) {
            Some(i) => r == Some(i as usize),
            None => r is None,
        },
{
    if q.len() > t.len() {
        return None;
    }
    if q.len() == 0 {
        assert(t@.subrange(0, 0) =~= q@);
        return Some(0);
    }
    let last_start = t.len() - q.len();
    assert(last_start < usize::MAX);
    let mut i: usize = 0;
    while i <= last_start
        invariant
            q@.len() <= t@.len(),
            last_start == t@.len() - q@.len(),
            last_start < usize::MAX,
            i <= last_start + 1,
            first_match(t@, q@, 0) == first_match(t@, q@, i as int),
        decreases last_start + 1 - i,
    {
        if matches_at_exec(t, q, i) {
            return Some(i);
        }
        proof {
            if q@.len() == 0 {
                assert(t@.subrange(i as int, i as int) =~= q@);
            }
        }
        i += 1;
    }
    None
}

pub(crate) fn utf8_width_exec(c: char) -> (r: usize)
    ensures
        r == utf8_width(c),
{
    let u = c as u32;
    if u < 0x80 { 1 } else if u < 0x800 { 2 } else if u < 0x10000 { 3 } else { 4 }
}

/// The bytes of a prefix grow by at least one per character.
pub(crate) proof fn lemma_bytes_grow(v: Seq<char>, i: int, j: int)
    requires
        0 <= i <= j <= v.len(),
    ensures
        utf8_bytes(v.take(i)) + (j - i) <= utf8_bytes(v.take(j)),
        utf8_bytes(v.take(j)) <= utf8_bytes(v.take(i)) + 4 * (j - i),
    decreases j - i,
{
    if i < j {
        lemma_bytes_grow(v, i, j - 1);
        assert(v.take(j).drop_last() =~= v.take(j - 1));
    }
}

fn utf8_prefix_bytes(t: &Vec<char>, n: usize) -> (r: usize)
    requires
        n <= t@.len(),
        utf8_bytes(t@.take(n as int)) <= i32::MAX,
    ensures
        r == utf8_bytes(t@.take(n as int)),
{
    let mut total: usize = 0;
    let mut i: usize = 0;
    while i < n
        invariant
            n <= t@.len(),
            utf8_bytes(t@.take(n as int)) <= i32::MAX,
            i <= n,
            total == utf8_bytes(t@.take(i as int)),
        decreases n - i,
    {
        proof {
            lemma_bytes_grow(t@, i + 1, n as int);
            assert(t@.take(i + 1).drop_last() =~= t@.take(i as int));
        }
        total = total + utf8_width_exec(t[i]);
        i += 1;
    }
    total
}

/// The score the in-order matching of `q` against `t` has gathered when
/// it stops: at the end of `q`, or at the first character not found.
pub open spec fn walk_score(q: Seq<char>, t: Seq<char>, from: int, last: Option<int>) -> int
    decreases q.len(),
{
    if q.len() == 0 {
        0
    } else {
        match next_index_of(t, q[0], from) {
            None => 0,
            Some(i) => walk_score(q.skip(1), t, i + 1, Some(i)) + 10 + (if last == Some(i - 1) { 8int } else { 0int })
                + (if i == 0 { 6int } else { 0int }),
        }
    }
}

/// The score of `query` against `text` stays within `i32`, as the
/// original arithmetic needs: the byte offset of the first occurrence fits
/// an `i32`, or the in-order matching gathers at most `i32::MAX`.
pub open spec fn fuzzy_fits(query: Seq<char>, text: Seq<char>) -> bool {
    let q = ascii_lower(query);
    let t = ascii_lower(text);
    q.len() == 0 || match first_match(t, q, 0) {
        Some(i) => utf8_bytes(t.take(i)) <= i32::MAX,
        None => walk_score(q, t, 0, None) <= i32::MAX,
    }
}

proof fn lemma_walk_bounds(q: Seq<char>, t: Seq<char>, from: int, last: Option<int>)
    requires
        0 <= from,
    ensures
        0 <= walk_score(q, t, from, last),
        walk_score(q, t, from, last) <= 24 * (if from <= t.len() { t.len() - from } else { 0 }),
    decreases q.len(),
{
    if q.len() > 0 {
        match next_index_of(t, q[0], from) {
            None => {},
            Some(i) => {
                lemma_next_index_range(t, q[0], from);
                lemma_walk_bounds(q.skip(1), t, i + 1, Some(i));
            },
        }
    }
}

proof fn lemma_next_index_range(t: Seq<char>, c: char, from: int)
    ensures
        next_index_of(t, c, from) matches Some(i) ==> from <= i < t.len() && t[i] == c,
    decreases t.len() - from,
{
    if !(from < 0 || from >= t.len()) && t[from] != c {
        lemma_next_index_range(t, c, from + 1);
    }
}

/// Every query fits against a text of at most 2^24 characters.
pub proof fn lemma_fuzzy_fits_short(query: Seq<char>, text: Seq<char>)
    requires
        text.len() <= 0x100_0000,
    ensures
        fuzzy_fits(query, text),
{
    let q = ascii_lower(query);
    let t = ascii_lower(text);
    assert(t.len() == text.len());
    lemma_walk_bounds(q, t, 0, None);
    if q.len() > 0 {
        lemma_first_match_range(t, q, 0);
        match first_match(t, q, 0) {
            Some(i) => {
                lemma_bytes_grow(t, 0, i);
                assert(t.take(0) =~= Seq::<char>::empty());
            },
            None => {},
        }
    }
}

/// Fuzzy score of `query` against `text` (see `fuzzy`).
pub fn fuzzy_score(query: &str, text: &str) -> (r: Option<i32>)
    requires
        fuzzy_fits(query@, text@),
    ensures
        match r {
            Some(x) => fuzzy(query@, text@) == Some(x as int),
            None => fuzzy(query@, text@) is None,
        },
{
    let qc = chars_of(query);
    let tc = chars_of(text);
    let q = ascii_lowercase_chars(qc.as_slice());
    let t = ascii_lowercase_chars(tc.as_slice());
    if q.len() == 0 {
        return Some(0);
    }
    proof {
        lemma_first_match_range(t@, q@, 0);
    }
    match find_chars(&t, &q) {
        Some(i) => {
            let bytes = utf8_prefix_bytes(&t, i);
            return Some(1000 - bytes as i32);
        },
        None => {},
    }
    let mut score: i32 = 0;
    let mut pos: usize = 0;
    let mut last: Option<usize> = None;
    let mut j: usize = 0;
    let ghost total = subseq_score(q@, t@, 0, None);
    let ghost walked = walk_score(q@, t@, 0, None);
    assert(q@.skip(0) =~= q@);
    while j < q.len()
        invariant
            j <= q@.len(),
            total == fuzzy(query@, text@),
            pos <= t@.len(),
            walked <= i32::MAX,
            walked == score + walk_score(q@.skip(j as int), t@, pos as int, match last { Some(l) => Some(l as int), None => None }),
            score >= 0,
            total == subseq_score(q@, t@, 0, None),
            total == match subseq_score(q@.skip(j as int), t@, pos as int, match last { Some(l) => Some(l as int), None => None }) {
                Some(rest) => Some(rest + score),
                None => None,
            },
            last is Some ==> last->0 < pos,
            last is None ==> pos == 0,
        decreases q@.len() - j,
    {
        let c = q[j];
        let ghost rest_q = q@.skip(j as int);
        assert(rest_q[0] == c);
        assert(rest_q.skip(1) =~= q@.skip(j + 1));
        let ghost from = pos as int;
        while pos < t.len() && t[pos] != c
            invariant
                from <= pos <= t@.len(),
                next_index_of(t@, c, from) == next_index_of(t@, c, pos as int),
            decreases t@.len() - pos,
        {
            pos += 1;
        }
        if pos >= t.len() {
            assert(next_index_of(t@, c, pos as int) is None);
            assert(subseq_score(rest_q, t@, from, match last { Some(l) => Some(l as int), None => None }) is None);
            return None;
        }
        let idx = pos;
        proof {
            lemma_walk_bounds(q@.skip(j + 1), t@, idx + 1, Some(idx as int));
        }
        score = score + 10;
        match last {
            Some(prev) => {
                if idx == prev + 1 {
                    score = score + 8;
                }
            },
            None => {},
        }
        if idx == 0 {
            score = score + 6;
        }
        last = Some(idx);
        pos = idx + 1;
        j += 1;
    }
    assert(q@.skip(q@.len() as int) =~= Seq::<char>::empty());
    Some(score)
}


/// `s` with every `'-'` replaced by `'_'`.
pub open spec fn dash_to_underscore(s: Seq<char>) -> Seq<char> {
    s.map_values(|c: char| if c == '-' { '_' } else { c })
}

/// `s` without any leading repetitions of `dd-`.
pub open spec fn strip_dd(s: Seq<char>) -> Seq<char>
    decreases s.len(),
{
    if s.len() >= 3 && s.take(3) == seq!['d', 'd', '-'] { strip_dd(s.skip(3)) } else { s }
}

/// The text a kind is searched by: its label, the label with `_` for `-`,
/// and the label without `dd-` with `_` for `-`, separated by spaces.
pub open spec fn haystack(k: ComponentKind) -> Seq<char> {
    let l = kind_label(k);
    l + seq![' '] + dash_to_underscore(l) + seq![' '] + dash_to_underscore(strip_dd(l))
}

fn push_dash_to_underscore(out: &mut String, s: &[char])
    ensures
        final(out)@ == old(out)@ + dash_to_underscore(s@),
{
    let mut i: usize = 0;
    while i < s.len()
        invariant
            i <= s@.len(),
            out@ == old(out)@ + dash_to_underscore(s@.take(i as int)),
        decreases s@.len() - i,
    {
        let c = s[i];
        push_char(out, if c == '-' { '_' } else { c });
        assert(dash_to_underscore(s@.take(i + 1)) =~= dash_to_underscore(s@.take(i as int)).push(if c == '-' { '_' } else { c }));
        i += 1;
    }
    assert(s@.take(s@.len() as int) =~= s@);
}

fn strip_dd_chars(s: &Vec<char>) -> (r: Vec<char>)
    ensures
        r@ == strip_dd(s@),
{
    let mut start: usize = 0;
    assert(s@.skip(0) =~= s@);
    while start < s.len() && s.len() - start >= 3 && s[start] == 'd' && s[start + 1] == 'd' && s[start + 2] == '-'
        invariant
            start <= s@.len(),
            strip_dd(s@) == strip_dd(s@.skip(start as int)),
        decreases s@.len() - start,
    {
        proof {
            let t = s@.skip(start as int);
            assert(t.take(3) =~= seq!['d', 'd', '-']);
            assert(t.skip(3) =~= s@.skip(start + 3));
        }
        start += 3;
    }
    proof {
        let t = s@.skip(start as int);
        if t.len() >= 3 {
            assert(t[0] == s@[start as int] && t[1] == s@[start + 1] && t[2] == s@[start + 2]);
            if t.take(3) == seq!['d', 'd', '-'] {
                assert(t.take(3)[0] == 'd' && t.take(3)[1] == 'd' && t.take(3)[2] == '-');
            }
        }
    }
    let mut out: Vec<char> = Vec::new();
    let mut i = start;
    while i < s.len()
        invariant
            start <= i <= s@.len(),
            out@ == s@.subrange(start as int, i as int),
        decreases s@.len() - i,
    {
        out.push(s[i]);
        assert(out@ =~= s@.subrange(start as int, i + 1));
        i += 1;
    }
    assert(out@ =~= s@.skip(start as int));
    out
}

/// The search text of a component kind (see `haystack`).
pub fn component_search_haystack(kind: ComponentKind) -> (r: String)
    ensures
        r@ == haystack(kind),
{
    let label = kind.label();
    let chars = chars_of(label);
    let mut out = String::new();
    push_str(&mut out, label);
    push_char(&mut out, ' ');
    push_dash_to_underscore(&mut out, chars.as_slice());
    push_char(&mut out, ' ');
    let short = strip_dd_chars(&chars);
    push_dash_to_underscore(&mut out, short.as_slice());
    out
}

/// `a` sorts strictly before `b`, comparing characters by code point.
pub open spec fn lex_lt(a: Seq<char>, b: Seq<char>) -> bool
    decreases a.len(),
{
    if a.len() == 0 {
        b.len() > 0
    } else if b.len() == 0 {
        false
    } else if a[0] != b[0] {
        a[0] < b[0]
    } else {
        lex_lt(a.skip(1), b.skip(1))
    }
}

pub proof fn lemma_lex_transitive(a: Seq<char>, b: Seq<char>, c: Seq<char>)
    requires
        lex_lt(a, b),
        lex_lt(b, c),
    ensures
        lex_lt(a, c),
    decreases a.len(),
{
    if a.len() > 0 && b.len() > 0 && c.len() > 0 && a[0] == b[0] && b[0] == c[0] {
        lemma_lex_transitive(a.skip(1), b.skip(1), c.skip(1));
    }
}

pub proof fn lemma_lex_total(a: Seq<char>, b: Seq<char>)
    requires
        a != b,
    ensures
        lex_lt(a, b) || lex_lt(b, a),
        !(lex_lt(a, b) && lex_lt(b, a)),
    decreases a.len(),
{
    if a.len() > 0 && b.len() > 0 {
        if a[0] == b[0] {
            if a.skip(1) == b.skip(1) {
                assert(a =~= seq![a[0]] + a.skip(1));
                assert(b =~= seq![b[0]] + b.skip(1));
            }
            lemma_lex_total(a.skip(1), b.skip(1));
        }
    } else if a.len() == 0 && b.len() == 0 {
        assert(a =~= b);
    }
}

pub proof fn lemma_lex_irreflexive(a: Seq<char>)
    ensures
        !lex_lt(a, a),
    decreases a.len(),
{
    if a.len() > 0 {
        lemma_lex_irreflexive(a.skip(1));
    }
}

pub(crate) fn lex_lt_exec(a: &[char], b: &[char]) -> (r: bool)
    ensures
        r == lex_lt(a@, b@),
{
    let mut i: usize = 0;
    assert(a@.skip(0) =~= a@);
    assert(b@.skip(0) =~= b@);
    while i < a.len() && i < b.len() && a[i] == b[i]
        invariant
            i <= a@.len(),
            i <= b@.len(),
            lex_lt(a@, b@) == lex_lt(a@.skip(i as int), b@.skip(i as int)),
        decreases a@.len() - i,
    {
        proof {
            assert(a@.skip(i as int)[0] == a@[i as int]);
            assert(b@.skip(i as int)[0] == b@[i as int]);
            assert(a@.skip(i as int).skip(1) =~= a@.skip(i + 1));
            assert(b@.skip(i as int).skip(1) =~= b@.skip(i + 1));
        }
        i += 1;
    }
    proof {
        if i < a@.len() {
            assert(a@.skip(i as int)[0] == a@[i as int]);
        }
        if i < b@.len() {
            assert(b@.skip(i as int)[0] == b@[i as int]);
        }
    }
    if i == a.len() {
        i < b.len()
    } else if i == b.len() {
        false
    } else {
        a[i] < b[i]
    }
}

/// Distinct kinds have distinct labels.
pub proof fn lemma_kind_labels_distinct(a: ComponentKind, b: ComponentKind)
    requires
        a != b,
    ensures
        kind_label(a) != kind_label(b),
{
    reveal_strlit("dd-hero");
    reveal_strlit("dd-section");
    reveal_strlit("dd-cta");
    reveal_strlit("dd-banner");
    reveal_strlit("dd-blockquote");
    reveal_strlit("dd-accordion");
    reveal_strlit("dd-alternating");
    reveal_strlit("dd-card");
    reveal_strlit("dd-filmstrip");
    reveal_strlit("dd-milestones");
    reveal_strlit("dd-modal");
    reveal_strlit("dd-slider");
    reveal_strlit("dd-alert");
    reveal_strlit("dd-image");
    reveal_strlit("dd-rich_text");
    reveal_strlit("dd-navigation");
    reveal_strlit("dd-header-search");
    reveal_strlit("dd-header-menu");
    if kind_label(a) == kind_label(b) {
        let x = kind_label(a);
        let y = kind_label(b);
        assert(x.len() == y.len());
        assert(x[3] == y[3]);
        assert(x[4] == y[4]);
        assert(x[5] == y[5]);
        assert(x[x.len() - 1] == y[x.len() - 1]);
        assert(x[x.len() - 2] == y[x.len() - 2]);
    }
}

/// The picker may offer `k`: the header-only kinds only in the header.
pub open spec fn kind_allowed(k: ComponentKind, in_header: bool) -> bool {
    (k == ComponentKind::HeaderSearch || k == ComponentKind::HeaderMenu) ==> in_header
}

/// The allowed kinds of `ks`, in order.
pub open spec fn allowed_kinds(ks: Seq<ComponentKind>, in_header: bool) -> Seq<ComponentKind>
    decreases ks.len(),
{
    if ks.len() == 0 {
        Seq::empty()
    } else if kind_allowed(ks.last(), in_header) {
        allowed_kinds(ks.drop_last(), in_header).push(ks.last())
    } else {
        allowed_kinds(ks.drop_last(), in_header)
    }
}

/// The query a picker search uses: trimmed, ASCII lower case.
pub open spec fn picker_query(query: Seq<char>) -> Seq<char> {
    ascii_lower(trimmed(query))
}

/// Ordering of scored kinds: higher score first, then label order.
pub open spec fn ranks_before(a: ComponentKind, b: ComponentKind, q: Seq<char>) -> bool {
    let sa = fuzzy(q, haystack(a))->0;
    let sb = fuzzy(q, haystack(b))->0;
    sa > sb || (sa == sb && lex_lt(kind_label(a), kind_label(b)))
}

/// The kinds the component picker lists for `query`: with an empty query
/// every allowed kind in picker order; otherwise exactly the allowed kinds
/// that the query fuzzily matches, each once, best score first and label
/// order among equal scores.
pub open spec fn picker_result(in_header: bool, query: Seq<char>, r: Seq<ComponentKind>) -> bool {
    let q = picker_query(query);
    if q.len() == 0 {
        r == allowed_kinds(all_kinds(), in_header)
    } else {
        &&& r.no_duplicates()
        &&& forall|k: ComponentKind| #[trigger] r.contains(k) <==> (kind_allowed(k, in_header) && fuzzy(q, haystack(k)) is Some)
        &&& forall|i: int, j: int| 0 <= i < j < r.len() ==> ranks_before(#[trigger] r[i], #[trigger] r[j], q)
    }
}

proof fn lemma_ranks_asymmetric(a: ComponentKind, b: ComponentKind, q: Seq<char>)
    requires
        ranks_before(a, b, q),
    ensures
        !ranks_before(b, a, q),
{
    if a == b {
        lemma_lex_irreflexive(kind_label(a));
    } else {
        lemma_kind_labels_distinct(a, b);
        lemma_lex_total(kind_label(a), kind_label(b));
    }
}

proof fn lemma_sorted_unique(r1: Seq<ComponentKind>, r2: Seq<ComponentKind>, q: Seq<char>)
    requires
        r1.no_duplicates(),
        r2.no_duplicates(),
        forall|k: ComponentKind| r1.contains(k) <==> r2.contains(k),
        forall|i: int, j: int| 0 <= i < j < r1.len() ==> ranks_before(#[trigger] r1[i], #[trigger] r1[j], q),
        forall|i: int, j: int| 0 <= i < j < r2.len() ==> ranks_before(#[trigger] r2[i], #[trigger] r2[j], q),
    ensures
        r1 == r2,
    decreases r1.len(),
{
    if r1.len() == 0 {
        if r2.len() > 0 {
            assert(r2.contains(r2[0]));
        }
        assert(r1 =~= r2);
    } else {
        assert(r1.contains(r1[0]));
        let j = choose|j: int| 0 <= j < r2.len() && r2[j] == r1[0];
        if j > 0 {
            assert(r2.contains(r2[0]));
            let i = choose|i: int| 0 <= i < r1.len() && r1[i] == r2[0];
            assert(i != 0);
            assert(ranks_before(r1[0], r1[i], q));
            assert(ranks_before(r2[0], r2[j], q));
            lemma_ranks_asymmetric(r2[0], r1[0], q);
        }
        let t1 = r1.skip(1);
        let t2 = r2.skip(1);
        assert forall|k: ComponentKind| t1.contains(k) <==> t2.contains(k) by {
            if t1.contains(k) {
                let a = choose|a: int| 0 <= a < t1.len() && t1[a] == k;
                assert(r1[a + 1] == k);
                assert(r1.contains(k));
                let b = choose|b: int| 0 <= b < r2.len() && r2[b] == k;
                assert(b != 0);
                assert(t2[b - 1] == k);
            }
            if t2.contains(k) {
                let a = choose|a: int| 0 <= a < t2.len() && t2[a] == k;
                assert(r2[a + 1] == k);
                assert(r2.contains(k));
                let b = choose|b: int| 0 <= b < r1.len() && r1[b] == k;
                assert(b != 0);
                assert(t1[b - 1] == k);
            }
        }
        assert forall|a: int, b: int| 0 <= a < b < t1.len() implies ranks_before(#[trigger] t1[a], #[trigger] t1[b], q) by {
            assert(t1[a] == r1[a + 1] && t1[b] == r1[b + 1]);
        }
        assert forall|a: int, b: int| 0 <= a < b < t2.len() implies ranks_before(#[trigger] t2[a], #[trigger] t2[b], q) by {
            assert(t2[a] == r2[a + 1] && t2[b] == r2[b + 1]);
        }
        lemma_sorted_unique(t1, t2, q);
        assert(r1 =~= seq![r1[0]] + t1);
        assert(r2 =~= seq![r2[0]] + t2);
    }
}

/// The kinds the component picker lists for `query` (see `picker_result`,
/// which at most one list meets).
pub open spec fn picker_kinds(in_header: bool, query: Seq<char>) -> Seq<ComponentKind> {
    choose|r: Seq<ComponentKind>| picker_result(in_header, query, r)
}

/// Only one list meets `picker_result`: it is `picker_kinds`.
pub proof fn lemma_picker_result_unique(in_header: bool, query: Seq<char>, r: Seq<ComponentKind>)
    requires
        picker_result(in_header, query, r),
    ensures
        r == picker_kinds(in_header, query),
{
    let p = picker_kinds(in_header, query);
    assert(picker_result(in_header, query, p));
    if picker_query(query).len() > 0 {
        let q = picker_query(query);
        assert forall|k: ComponentKind| r.contains(k) <==> p.contains(k) by {}
        lemma_sorted_unique(r, p, q);
    }
}


proof fn lemma_all_kinds_distinct()
    ensures
        all_kinds().no_duplicates(),
{
    let ks = all_kinds();
    assert forall|i: int, j: int| 0 <= i < ks.len() && 0 <= j < ks.len() && i != j implies ks[i] != ks[j] by {
    }
}

/// The kinds the component picker lists for `query` (see `picker_result`).
pub fn filtered_component_kinds(in_header: bool, query: &str) -> (r: Vec<ComponentKind>)
    ensures
        picker_result(in_header, query@, r@),
{
    let all = ComponentKind::all();
    let mut allowed: Vec<ComponentKind> = Vec::new();
    let mut i: usize = 0;
    while i < all.len()
        invariant
            all@ == all_kinds(),
            i <= all@.len(),
            allowed@ == allowed_kinds(all@.take(i as int), in_header),
        decreases all@.len() - i,
    {
        let k = all[i];
        assert(all@.take(i + 1).drop_last() =~= all@.take(i as int));
        let ok = match k {
            ComponentKind::HeaderSearch | ComponentKind::HeaderMenu => in_header,
            _ => true,
        };
        if ok {
            allowed.push(k);
        }
        i += 1;
    }
    assert(all@.take(all@.len() as int) =~= all@);
    let qc = chars_of(query);
    let tq = trim_chars(qc.as_slice());
    let lq = ascii_lowercase_chars(tq.as_slice());
    let q = string_of(lq.as_slice());
    if lq.len() == 0 {
        return allowed;
    }
    proof {
        lemma_allowed_kinds_facts(all_kinds(), in_header);
        lemma_all_kinds_distinct();
    }
    let ghost qv = picker_query(query@);
    let mut out: Vec<(ComponentKind, i32)> = Vec::new();
    let mut n: usize = 0;
    while n < allowed.len()
        invariant
            q@ == qv,
            qv == picker_query(query@),
            n <= allowed@.len(),
            allowed@ == allowed_kinds(all_kinds(), in_header),
            allowed@.no_duplicates(),
            forall|k: ComponentKind| #[trigger] allowed@.contains(k) <==> kind_allowed(k, in_header),
            forall|m: int| 0 <= m < out@.len() ==> fuzzy(qv, haystack(#[trigger] out@[m].0)) == Some(out@[m].1 as int),
            forall|k: ComponentKind| #[trigger] kinds_of(out@).contains(k) <==> (allowed@.take(n as int).contains(k) && fuzzy(qv, haystack(k)) is Some),
            forall|a: int, b: int| 0 <= a < b < out@.len() ==> #[trigger] out@[a].0 != #[trigger] out@[b].0,
            forall|a: int, b: int| 0 <= a < b < out@.len() ==> ranks_before(#[trigger] out@[a].0, #[trigger] out@[b].0, qv),
        decreases allowed@.len() - n,
    {
        let kind = allowed[n];
        let hay = component_search_haystack(kind);
        proof {
            lemma_haystack_short(kind);
            lemma_fuzzy_fits_short(q@, hay@);
        }
        let scored = fuzzy_score(q.as_str(), hay.as_str());
        assert(allowed@.take(n + 1) =~= allowed@.take(n as int).push(kind));
        proof {
            let t = allowed@.take(n as int);
            let t1 = allowed@.take(n + 1);
            assert forall|k: ComponentKind| #[trigger] t1.contains(k) <==> (t.contains(k) || k == kind) by {
                if t1.contains(k) {
                    let j = choose|j: int| 0 <= j < t1.len() && t1[j] == k;
                    if j < t.len() {
                        assert(t[j] == k);
                    }
                }
                if t.contains(k) {
                    let j = choose|j: int| 0 <= j < t.len() && t[j] == k;
                    assert(t1[j] == k);
                }
                if k == kind {
                    assert(t1[n as int] == k);
                }
            }
        }
        match scored {
            Some(score) => {
                let label = chars_of(kind.label());
                let mut p: usize = 0;
                while p < out.len()
                    invariant
                        p <= out@.len(),
                        forall|m: int| 0 <= m < p ==> !ranks_before(kind, #[trigger] out@[m].0, qv),
                        forall|m: int| 0 <= m < out@.len() ==> fuzzy(qv, haystack(#[trigger] out@[m].0)) == Some(out@[m].1 as int),
                        fuzzy(qv, haystack(kind)) == Some(score as int),
                        label@ == kind_label(kind),
                    ensures
                        p <= out@.len(),
                        forall|m: int| 0 <= m < p ==> !ranks_before(kind, #[trigger] out@[m].0, qv),
                        p < out@.len() ==> ranks_before(kind, out@[p as int].0, qv),
                    decreases out@.len() - p,
                {
                    let (other, other_score) = out[p];
                    let other_label = chars_of(other.label());
                    let before = score > other_score || (score == other_score && lex_lt_exec(label.as_slice(), other_label.as_slice()));
                    if before {
                        break;
                    }
                    p += 1;
                }
                proof {
                    assert forall|m: int| 0 <= m < out@.len() implies #[trigger] out@[m].0 != kind by {
                        if out@[m].0 == kind {
                            assert(kinds_of(out@)[m] == kind);
                            assert(kinds_of(out@).contains(kind));
                            assert(allowed@.take(n as int).contains(kind));
                            let j = choose|j: int| 0 <= j < n && allowed@.take(n as int)[j] == kind;
                            assert(allowed@[j] == allowed@[n as int]);
                        }
                    }
                    lemma_insert_sorted(out@, kind, p as int, qv, score);
                }
                let ghost old_out = out@;
                out.insert(p, (kind, score));
                proof {
                    lemma_kinds_of_insert(old_out, p as int, (kind, score));
                }
            },
            None => {},
        }
        n += 1;
    }
    assert(allowed@.take(allowed@.len() as int) =~= allowed@);
    let mut r: Vec<ComponentKind> = Vec::new();
    let mut m: usize = 0;
    while m < out.len()
        invariant
            m <= out@.len(),
            r@.len() == m,
            forall|j: int| 0 <= j < m ==> #[trigger] r@[j] == out@[j].0,
        decreases out@.len() - m,
    {
        r.push(out[m].0);
        m += 1;
    }
    proof {
        assert(r@ =~= kinds_of(out@));
        assert forall|k: ComponentKind| #[trigger] r@.contains(k) <==> (kind_allowed(k, in_header) && fuzzy(qv, haystack(k)) is Some) by {
            if kind_allowed(k, in_header) && fuzzy(qv, haystack(k)) is Some {
                assert(allowed@.contains(k));
            }
        }
        assert forall|i: int, j: int| 0 <= i < j < r@.len() implies ranks_before(#[trigger] r@[i], #[trigger] r@[j], qv) by {
            assert(r@[i] == out@[i].0 && r@[j] == out@[j].0);
        }
        assert forall|i: int, j: int| 0 <= i < r@.len() && 0 <= j < r@.len() && i != j implies r@[i] != r@[j] by {
            assert(r@[i] == out@[i].0 && r@[j] == out@[j].0);
        }
    }
    r
}

/// The kinds of scored pairs, in order.
pub open spec fn kinds_of(out: Seq<(ComponentKind, i32)>) -> Seq<ComponentKind> {
    out.map_values(|p: (ComponentKind, i32)| p.0)
}

proof fn lemma_kinds_of_insert(out: Seq<(ComponentKind, i32)>, p: int, x: (ComponentKind, i32))
    requires
        0 <= p <= out.len(),
    ensures
        forall|k: ComponentKind| #[trigger] kinds_of(out.insert(p, x)).contains(k) <==> (kinds_of(out).contains(k) || k == x.0),
{
    let a = kinds_of(out);
    let b = kinds_of(out.insert(p, x));
    assert(b =~= a.insert(p, x.0));
    assert forall|k: ComponentKind| #[trigger] b.contains(k) <==> (a.contains(k) || k == x.0) by {
        if b.contains(k) {
            let j = choose|j: int| 0 <= j < b.len() && b[j] == k;
            if j < p {
                assert(a[j] == k);
            } else if j > p {
                assert(a[j - 1] == k);
            }
        }
        if a.contains(k) {
            let j = choose|j: int| 0 <= j < a.len() && a[j] == k;
            if j < p {
                assert(b[j] == k);
            } else {
                assert(b[j + 1] == k);
            }
        }
        if k == x.0 {
            assert(b[p] == k);
        }
    }
}

proof fn lemma_haystack_short(k: ComponentKind)
    ensures
        haystack(k).len() <= 0x100_0000,
{
    assert(kind_label(k).len() <= 64) by {
        reveal_strlit("dd-hero");
        reveal_strlit("dd-section");
        reveal_strlit("dd-cta");
        reveal_strlit("dd-banner");
        reveal_strlit("dd-blockquote");
        reveal_strlit("dd-accordion");
        reveal_strlit("dd-alternating");
        reveal_strlit("dd-card");
        reveal_strlit("dd-filmstrip");
        reveal_strlit("dd-milestones");
        reveal_strlit("dd-modal");
        reveal_strlit("dd-slider");
        reveal_strlit("dd-alert");
        reveal_strlit("dd-image");
        reveal_strlit("dd-rich_text");
        reveal_strlit("dd-navigation");
        reveal_strlit("dd-header-search");
        reveal_strlit("dd-header-menu");
    }
    lemma_strip_dd_len(kind_label(k));
}

proof fn lemma_strip_dd_len(s: Seq<char>)
    ensures
        strip_dd(s).len() <= s.len(),
    decreases s.len(),
{
    if s.len() >= 3 && s.take(3) == seq!['d', 'd', '-'] {
        lemma_strip_dd_len(s.skip(3));
    }
}

proof fn lemma_allowed_kinds_facts(ks: Seq<ComponentKind>, in_header: bool)
    requires
        ks.no_duplicates(),
    ensures
        allowed_kinds(ks, in_header).no_duplicates(),
        forall|k: ComponentKind| #[trigger] allowed_kinds(ks, in_header).contains(k) <==> (ks.contains(k) && kind_allowed(k, in_header)),
    decreases ks.len(),
{
    if ks.len() > 0 {
        let dl = ks.drop_last();
        assert(dl.no_duplicates());
        lemma_allowed_kinds_facts(dl, in_header);
        let prev = allowed_kinds(dl, in_header);
        assert forall|k: ComponentKind| ks.contains(k) <==> (dl.contains(k) || k == ks.last()) by {
            if ks.contains(k) {
                let j = choose|j: int| 0 <= j < ks.len() && ks[j] == k;
                if j < ks.len() - 1 {
                    assert(dl[j] == k);
                }
            }
            if dl.contains(k) {
                let j = choose|j: int| 0 <= j < dl.len() && dl[j] == k;
                assert(ks[j] == k);
            }
            if k == ks.last() {
                assert(ks[ks.len() - 1] == k);
            }
        }
        if kind_allowed(ks.last(), in_header) {
            let cur = prev.push(ks.last());
            assert(!dl.contains(ks.last())) by {
                if dl.contains(ks.last()) {
                    let j = choose|j: int| 0 <= j < dl.len() && dl[j] == ks.last();
                    assert(ks[j] == ks[ks.len() - 1]);
                }
            }
            assert forall|k: ComponentKind| #[trigger] cur.contains(k) <==> (prev.contains(k) || k == ks.last()) by {
                if cur.contains(k) {
                    let j = choose|j: int| 0 <= j < cur.len() && cur[j] == k;
                    if j < prev.len() {
                        assert(prev[j] == k);
                    }
                }
                if prev.contains(k) {
                    let j = choose|j: int| 0 <= j < prev.len() && prev[j] == k;
                    assert(cur[j] == k);
                }
                if k == ks.last() {
                    assert(cur[prev.len() as int] == k);
                }
            }
            assert forall|i: int, j: int| 0 <= i < cur.len() && 0 <= j < cur.len() && i != j implies cur[i] != cur[j] by {
                if i < prev.len() && j < prev.len() {
                } else if i < prev.len() {
                    assert(prev.contains(cur[i]));
                } else if j < prev.len() {
                    assert(prev.contains(cur[j]));
                }
            }
        }
    }
}

proof fn lemma_insert_sorted(out: Seq<(ComponentKind, i32)>, kind: ComponentKind, p: int, q: Seq<char>, score: i32)
    requires
        0 <= p <= out.len(),
        forall|m: int| 0 <= m < p ==> !ranks_before(kind, #[trigger] out[m].0, q),
        p < out.len() ==> ranks_before(kind, out[p].0, q),
        forall|m: int| 0 <= m < out.len() ==> fuzzy(q, haystack(#[trigger] out[m].0)) == Some(out[m].1 as int),
        fuzzy(q, haystack(kind)) == Some(score as int),
        forall|a: int, b: int| 0 <= a < b < out.len() ==> #[trigger] out[a].0 != #[trigger] out[b].0,
        forall|a: int, b: int| 0 <= a < b < out.len() ==> ranks_before(#[trigger] out[a].0, #[trigger] out[b].0, q),
        forall|m: int| 0 <= m < out.len() ==> #[trigger] out[m].0 != kind,
    ensures
        ({
            let r = out.insert(p, (kind, score));
            &&& forall|a: int, b: int| 0 <= a < b < r.len() ==> ranks_before(#[trigger] r[a].0, #[trigger] r[b].0, q)
            &&& forall|a: int, b: int| 0 <= a < b < r.len() ==> #[trigger] r[a].0 != #[trigger] r[b].0
        }),
{
    let r = out.insert(p, (kind, score));
    assert forall|a: int, b: int| 0 <= a < b < r.len() implies ranks_before(#[trigger] r[a].0, #[trigger] r[b].0, q) by {
        let ka = r[a].0;
        let kb = r[b].0;
        if a < p && b < p {
            assert(r[a] == out[a] && r[b] == out[b]);
        } else if a < p && b == p {
            assert(r[a] == out[a]);
            assert(!ranks_before(kind, out[a].0, q));
            lemma_kind_labels_distinct(kind, out[a].0);
            lemma_lex_total(kind_label(kind), kind_label(out[a].0));
        } else if a < p && b > p {
            assert(r[a] == out[a] && r[b] == out[b - 1]);
            if a < b - 1 {
            }
        } else if a == p {
            assert(r[b] == out[b - 1]);
            if b - 1 > p {
                assert(ranks_before(out[p].0, out[b - 1].0, q));
                lemma_rank_transitive(kind, out[p].0, out[b - 1].0, q);
            }
        } else {
            assert(r[a] == out[a - 1] && r[b] == out[b - 1]);
        }
    }
    assert forall|a: int, b: int| 0 <= a < b < r.len() implies #[trigger] r[a].0 != #[trigger] r[b].0 by {
        if a < p && b < p {
            assert(r[a] == out[a] && r[b] == out[b]);
        } else if a < p && b == p {
            assert(r[a] == out[a]);
        } else if a < p && b > p {
            assert(r[a] == out[a] && r[b] == out[b - 1]);
        } else if a == p {
            assert(r[b] == out[b - 1]);
        } else {
            assert(r[a] == out[a - 1] && r[b] == out[b - 1]);
        }
    }
}

proof fn lemma_rank_transitive(a: ComponentKind, b: ComponentKind, c: ComponentKind, q: Seq<char>)
    requires
        ranks_before(a, b, q),
        ranks_before(b, c, q),
    ensures
        ranks_before(a, c, q),
{
    let la = kind_label(a);
    let lb = kind_label(b);
    let lc = kind_label(c);
    if lex_lt(la, lb) && lex_lt(lb, lc) {
        lemma_lex_transitive(la, lb, lc);
    }
}


/// What `str::to_lowercase` gives for a text: its Unicode lower-case mapping.
pub uninterp spec fn unicode_lowercase(s: Seq<char>) -> Seq<char>;

/// `str::to_lowercase`: the text in Unicode lower case. The mapping table
/// is std's and is not restated; the contract only names the result.
#[verifier::external_body]
pub(crate) fn to_lowercase(s: &str) -> (r: String)
    ensures
        r@ == unicode_lowercase(s@),
{
    s.to_lowercase()
}

/// `q` occurs somewhere in `t` (the empty text occurs everywhere).
pub open spec fn contains_seq(t: Seq<char>, q: Seq<char>) -> bool {
    first_match(t, q, 0) is Some
}

pub(crate) fn contains_str(t: &str, q: &str) -> (r: bool)
    ensures
        r == contains_seq(t@, q@),
{
    let tc = chars_of(t);
    let qc = chars_of(q);
    find_chars(&tc, &qc).is_some()
}

/// A directory entry of the image picker: its name and whether it is a folder.
pub struct DirEntryRow {
    pub name: String,
    pub is_dir: bool,
}

impl Clone for DirEntryRow {
    fn clone(&self) -> (r: Self)
        ensures
            r.name@ == self.name@,
            r.is_dir == self.is_dir,
    {
        DirEntryRow { name: self.name.clone(), is_dir: self.is_dir }
    }
}

/// Name and folder flag of an entry.
pub open spec fn entry_view(e: DirEntryRow) -> (Seq<char>, bool) {
    (e.name@, e.is_dir)
}

/// The entries whose lower-cased name contains `needle`, in order.
pub open spec fn entries_matching(es: Seq<DirEntryRow>, needle: Seq<char>) -> Seq<(Seq<char>, bool)>
    decreases es.len(),
{
    if es.len() == 0 {
        Seq::empty()
    } else if contains_seq(unicode_lowercase(es.last().name@), needle) {
        entries_matching(es.drop_last(), needle).push(entry_view(es.last()))
    } else {
        entries_matching(es.drop_last(), needle)
    }
}

/// The entries whose name contains `filter`, Unicode case ignored (all of
/// them for an empty filter), in their order.
pub fn filter_entries(entries: &[DirEntryRow], filter: &str) -> (r: Vec<DirEntryRow>)
    ensures
        r@.map_values(|e: DirEntryRow| entry_view(e)) == if filter@.len() == 0 {
            entries@.map_values(|e: DirEntryRow| entry_view(e))
        } else {
            entries_matching(entries@, unicode_lowercase(filter@))
        },
{
    let empty = filter.unicode_len() == 0;
    let needle = to_lowercase(filter);
    let mut out: Vec<DirEntryRow> = Vec::new();
    let mut i: usize = 0;
    while i < entries.len()
        invariant
            i <= entries@.len(),
            needle@ == unicode_lowercase(filter@),
            out@.map_values(|e: DirEntryRow| entry_view(e)) == if empty {
                entries@.take(i as int).map_values(|e: DirEntryRow| entry_view(e))
            } else {
                entries_matching(entries@.take(i as int), needle@)
            },
        decreases entries@.len() - i,
    {
        let e = &entries[i];
        assert(entries@.take(i + 1).drop_last() =~= entries@.take(i as int));
        let keep = if empty {
            true
        } else {
            let name = to_lowercase(e.name.as_str());
            contains_str(name.as_str(), needle.as_str())
        };
        let ghost before = out@;
        if keep {
            let c = e.clone();
            assert(entry_view(c) == entry_view(*e));
            out.push(c);
            assert(out@.map_values(|e: DirEntryRow| entry_view(e)) =~= before.map_values(|e: DirEntryRow| entry_view(e)).push(entry_view(*e)));
        }
        assert(entries@.take(i + 1).last() == *e);
        assert(entries@.take(i + 1).map_values(|e: DirEntryRow| entry_view(e)) =~= entries@.take(i as int).map_values(|e: DirEntryRow| entry_view(e)).push(entry_view(*e)));
        assert(out@.map_values(|e: DirEntryRow| entry_view(e)) =~= if empty {
            entries@.take(i + 1).map_values(|e: DirEntryRow| entry_view(e))
        } else {
            entries_matching(entries@.take(i + 1), needle@)
        });
        i += 1;
    }
    assert(entries@.take(entries@.len() as int) =~= entries@);
    out
}

/// Slug and title of a page entry, as texts.
pub open spec fn page_view(p: (String, String)) -> (Seq<char>, Seq<char>) {
    (p.0@, p.1@)
}

/// The (slug, title) pairs whose lower-cased title or slug contains `needle`.
pub open spec fn pages_matching(ps: Seq<(String, String)>, needle: Seq<char>) -> Seq<(Seq<char>, Seq<char>)>
    decreases ps.len(),
{
    if ps.len() == 0 {
        Seq::empty()
    } else if contains_seq(unicode_lowercase(ps.last().1@), needle) || contains_seq(unicode_lowercase(ps.last().0@), needle) {
        pages_matching(ps.drop_last(), needle).push(page_view(ps.last()))
    } else {
        pages_matching(ps.drop_last(), needle)
    }
}

/// The (slug, title) pairs whose title or slug contains `filter`, Unicode
/// case ignored (all of them for an empty filter), in their order.
pub fn filter_pages(pages: &[(String, String)], filter: &str) -> (r: Vec<(String, String)>)
    ensures
        r@.map_values(|p: (String, String)| page_view(p)) == if filter@.len() == 0 {
            pages@.map_values(|p: (String, String)| page_view(p))
        } else {
            pages_matching(pages@, unicode_lowercase(filter@))
        },
{
    let empty = filter.unicode_len() == 0;
    let needle = to_lowercase(filter);
    let mut out: Vec<(String, String)> = Vec::new();
    let mut i: usize = 0;
    while i < pages.len()
        invariant
            i <= pages@.len(),
            needle@ == unicode_lowercase(filter@),
            out@.map_values(|p: (String, String)| page_view(p)) == if empty {
                pages@.take(i as int).map_values(|p: (String, String)| page_view(p))
            } else {
                pages_matching(pages@.take(i as int), needle@)
            },
        decreases pages@.len() - i,
    {
        let slug = &pages[i].0;
        let title = &pages[i].1;
        assert(pages@.take(i + 1).drop_last() =~= pages@.take(i as int));
        let keep = if empty {
            true
        } else {
            let t = to_lowercase(title.as_str());
            let sl = to_lowercase(slug.as_str());
            contains_str(t.as_str(), needle.as_str()) || contains_str(sl.as_str(), needle.as_str())
        };
        let ghost before = out@;
        if keep {
            let c = (slug.clone(), title.clone());
            assert(page_view(c) == page_view(pages@[i as int]));
            out.push(c);
            assert(out@.map_values(|p: (String, String)| page_view(p)) =~= before.map_values(|p: (String, String)| page_view(p)).push(page_view(pages@[i as int])));
        }
        assert(pages@.take(i + 1).last() == pages@[i as int]);
        assert(pages@.take(i + 1).map_values(|p: (String, String)| page_view(p)) =~= pages@.take(i as int).map_values(|p: (String, String)| page_view(p)).push(page_view(pages@[i as int])));
        assert(out@.map_values(|p: (String, String)| page_view(p)) =~= if empty {
            pages@.take(i + 1).map_values(|p: (String, String)| page_view(p))
        } else {
            pages_matching(pages@.take(i + 1), needle@)
        });
        i += 1;
    }
    assert(pages@.take(pages@.len() as int) =~= pages@);
    out
}

} // verus!
