//! Paths and labels shown to the user: backup file names, relative export
//! paths, and save times.
use vstd::prelude::*;
use crate::text::{chars_of, decimal, push_decimal_u64, push_str, string_of, trim_chars, trimmed};

verus! {

broadcast use vstd::string::group_string_axioms;

/// The backup written next to a file before it is overwritten: the same
/// path with `.backup` appended.
pub fn backup_path_for(path: &str) -> (r: String)
    ensures
        r@ == path@ + ".backup"@,
{
    let mut s = String::new();
    push_str(&mut s, path);
    push_str(&mut s, ".backup");
    assert(s@ =~= path@ + ".backup"@);
    s
}

/// `s` without the copies of `c` it starts with.
pub open spec fn drop_leading(s: Seq<char>, c: char) -> Seq<char>
    decreases s.len(),
{
    if s.len() > 0 && s[0] == c { drop_leading(s.skip(1), c) } else { s }
}

/// `s` without the copies of `c` it ends with.
pub open spec fn drop_trailing(s: Seq<char>, c: char) -> Seq<char>
    decreases s.len(),
{
    if s.len() > 0 && s.last() == c { drop_trailing(s.drop_last(), c) } else { s }
}

pub proof fn lemma_drop_leading_len(s: Seq<char>, c: char)
    ensures
        drop_leading(s, c).len() <= s.len(),
    decreases s.len(),
{
    if s.len() > 0 && s[0] == c {
        lemma_drop_leading_len(s.skip(1), c);
    }
}

/// Whether `s` starts with `./`.
pub open spec fn starts_dot_slash(s: Seq<char>) -> bool {
    s.len() >= 2 && s[0] == '.' && s[1] == '/'
}

/// `s` without leading `./` segments, each with the slashes that follow it.
pub open spec fn strip_dot_slash(s: Seq<char>) -> Seq<char>
    decreases s.len(),
{
    if starts_dot_slash(s) {
        proof {
            lemma_drop_leading_len(s.skip(2), '/');
        }
        strip_dot_slash(drop_leading(s.skip(2), '/'))
    } else {
        s
    }
}

/// A user-typed relative path cleaned for display and joining: trimmed,
/// leading `./` segments (and the slashes after them) removed, trailing
/// slashes removed.
pub open spec fn normalized_relative(raw: Seq<char>) -> Seq<char> {
    drop_trailing(strip_dot_slash(trimmed(raw)), '/')
}

proof fn lemma_drop_leading_skip(s: Seq<char>, c: char, i: int)
    requires
        0 <= i <= s.len(),
        forall|k: int| 0 <= k < i ==> s[k] == c,
    ensures
        drop_leading(s, c) == drop_leading(s.skip(i), c),
    decreases i,
{
    if i > 0 {
        assert(s[0] == c);
        let t = s.skip(1);
        assert forall|k: int| 0 <= k < i - 1 implies t[k] == c by {
            assert(t[k] == s[k + 1]);
        }
        lemma_drop_leading_skip(t, c, i - 1);
        assert(t.skip(i - 1) =~= s.skip(i));
    } else {
        assert(s.skip(0) =~= s);
    }
}

proof fn lemma_drop_trailing_take(s: Seq<char>, c: char, j: int)
    requires
        0 <= j <= s.len(),
        forall|k: int| j <= k < s.len() ==> s[k] == c,
    ensures
        drop_trailing(s, c) == drop_trailing(s.take(j), c),
    decreases s.len() - j,
{
    if j < s.len() {
        let t = s.drop_last();
        assert forall|k: int| j <= k < t.len() implies t[k] == c by {
            assert(t[k] == s[k]);
        }
        lemma_drop_trailing_take(t, c, j);
        assert(t.take(j) =~= s.take(j));
    } else {
        assert(s.take(j) =~= s);
    }
}

/// Cleans a user-typed relative path (see `normalized_relative`); the
/// result neither starts with `./` nor ends with `/`.
pub fn normalize_relative_path(raw: &str) -> (r: String)
    ensures
        r@ == normalized_relative(raw@),
        !starts_dot_slash(r@),
        r@.len() == 0 || r@.last() != '/',
{
    let chars = chars_of(raw);
    let t = trim_chars(chars.as_slice());
    let ghost ts = t@;
    let mut i: usize = 0;
    assert(ts.skip(0) =~= ts);
    while t.len() - i >= 2 && t[i] == '.' && t[i + 1] == '/'
        invariant
            i <= t@.len(),
            ts == t@,
            strip_dot_slash(ts) == strip_dot_slash(ts.skip(i as int)),
        decreases t@.len() - i,
    {
        let ghost i0 = i as int;
        proof {
            let before = ts.skip(i0);
            assert(starts_dot_slash(before));
            assert(before.skip(2) =~= ts.skip(i0 + 2));
        }
        i += 2;
        while i < t.len() && t[i] == '/'
            invariant
                i0 + 2 <= i <= t@.len(),
                ts == t@,
                drop_leading(ts.skip(i0 + 2), '/') == drop_leading(ts.skip(i as int), '/'),
            decreases t@.len() - i,
        {
            proof {
                let u = ts.skip(i as int);
                assert(u[0] == '/');
                assert(u.skip(1) =~= ts.skip(i + 1));
            }
            i += 1;
        }
        proof {
            let u = ts.skip(i as int);
            assert(drop_leading(u, '/') == u);
        }
    }
    proof {
        let u = ts.skip(i as int);
        assert(!starts_dot_slash(u));
    }
    let ghost stripped = ts.skip(i as int);
    let mut j: usize = t.len();
    proof {
        assert(stripped.take(j - i) =~= stripped);
    }
    while j > i && t[j - 1] == '/'
        invariant
            i <= j <= t@.len(),
            ts == t@,
            stripped == ts.skip(i as int),
            drop_trailing(stripped, '/') == drop_trailing(stripped.take(j - i), '/'),
        decreases j,
    {
        proof {
            let u = stripped.take(j - i);
            assert(u.last() == '/');
            assert(u.drop_last() =~= stripped.take(j - i - 1));
        }
        j -= 1;
    }
    let ghost out = stripped.take(j - i);
    let mut kept: Vec<char> = Vec::new();
    let mut k = i;
    while k < j
        invariant
            i <= k <= j,
            j <= t@.len(),
            ts == t@,
            kept@ == ts.subrange(i as int, k as int),
        decreases j - k,
    {
        kept.push(t[k]);
        assert(kept@ =~= ts.subrange(i as int, k + 1));
        k += 1;
    }
    proof {
        assert(drop_trailing(out, '/') == out);
        assert(ts.subrange(i as int, j as int) =~= out);
        if out.len() >= 2 {
            assert(out[0] == stripped[0] && out[1] == stripped[1]);
        }
    }
    string_of(kept.as_slice())
}

/// The path shown for an export target: `./<normalized>/` for a relative
/// path, else the target as displayed (`out_display`).
pub fn display_relative_path(out_display: &str, normalized: &str) -> (r: String)
    ensures
        r@ == if normalized@.len() == 0 { out_display@ } else { "./"@ + normalized@ + "/"@ },
{
    let mut s = String::new();
    if normalized.unicode_len() == 0 {
        push_str(&mut s, out_display);
        assert(s@ =~= out_display@);
    } else {
        push_str(&mut s, "./");
        push_str(&mut s, normalized);
        push_str(&mut s, "/");
        assert(s@ =~= "./"@ + normalized@ + "/"@);
    }
    s
}

/// The save-time label: `<secs>s since epoch`, or nothing for a time
/// before the epoch (`None` seconds).
pub fn chrono_like_format(secs_since_epoch: Option<u64>) -> (r: Option<String>)
    ensures
        match secs_since_epoch {
            None => r is None,
            Some(secs) => r is Some && r->0@ == decimal(secs as nat) + "s since epoch"@,
        },
{
    match secs_since_epoch {
        None => None,
        Some(secs) => {
            let mut s = String::new();
            push_decimal_u64(&mut s, secs);
            push_str(&mut s, "s since epoch");
            assert(s@ =~= decimal(secs as nat) + "s since epoch"@);
            Some(s)
        },
    }
}

} // verus!
