//! The page and image pickers: filtering, moving the highlight, walking
//! directories, and the value a pick writes into the form.
use vstd::prelude::*;
use crate::modal::{ImagePickerState, Key, KeyPress, PagePickerState};
use crate::modal::pop_char;
use crate::search::{
    entries_matching, entry_view, filter_entries, filter_pages, lemma_lex_irreflexive, lemma_lex_total, lemma_lex_transitive,
    lex_lt, lex_lt_exec, page_view, pages_matching, to_lowercase, unicode_lowercase, DirEntryRow,
};
use crate::text::{chars_of, push_char, push_str};

verus! {

broadcast use vstd::string::group_string_axioms;

/// Whether `c` is alphabetic or numeric in Unicode.
pub uninterp spec fn unicode_alphanumeric(c: char) -> bool;

/// `char::is_alphanumeric`: whether `c` is Unicode `Alphabetic` or
/// numeric. Among ASCII characters exactly the letters and digits are.
#[verifier::external_body]
fn is_alphanumeric(c: char) -> (r: bool)
    ensures
        r == unicode_alphanumeric(c),
        (c as u32) < 128 ==> (r <==> ('a' <= c <= 'z' || 'A' <= c <= 'Z' || '0' <= c <= '9')),
{
    c.is_alphanumeric()
}

/// The pages a page picker lists for `filter`: all of them for an empty
/// filter, else those whose lower-cased title or slug contains the
/// lower-cased filter.
pub open spec fn listed_pages(pages: Seq<(String, String)>, filter: Seq<char>) -> Seq<(Seq<char>, Seq<char>)> {
    if filter.len() == 0 {
        pages.map_values(|p: (String, String)| page_view(p))
    } else {
        pages_matching(pages, unicode_lowercase(filter))
    }
}

/// The entries an image picker lists for `filter` (as `listed_pages`, by
/// name).
pub open spec fn listed_entries(entries: Seq<DirEntryRow>, filter: Seq<char>) -> Seq<(Seq<char>, bool)> {
    if filter.len() == 0 {
        entries.map_values(|e: DirEntryRow| entry_view(e))
    } else {
        entries_matching(entries, unicode_lowercase(filter))
    }
}

/// What a picker asks for after a key.
#[derive(Clone, Copy, Debug, PartialEq, Eq, Structural)]
pub enum PickAction {
    Cancel,
    Continue,
    /// Take the highlighted entry (a page, or for the image picker a file
    /// or a directory to open).
    Take,
}

/// A highlight moved down one entry within a list of `n`.
pub open spec fn moved_down(selected: nat, n: nat) -> nat {
    if n == 0 { selected } else if selected + 1 < n { selected + 1 } else { (n - 1) as nat }
}

/// The characters a page filter accepts.
pub open spec fn page_filter_char(c: char) -> bool {
    unicode_alphanumeric(c) || c == '-' || c == '_' || c == ' '
}

/// The page picker after a key: filter, highlight and action. Up and Down
/// (without Control) move the highlight within the listed pages; editing
/// the filter puts the highlight back on the first page.
pub open spec fn page_picker_next(pages: Seq<(String, String)>, filter: Seq<char>, selected: nat, k: KeyPress) -> (Seq<char>, nat, PickAction) {
    match k.key {
        Key::Esc => (filter, selected, PickAction::Cancel),
        Key::Up if !k.ctrl => (filter, if selected > 0 { (selected - 1) as nat } else { 0 }, PickAction::Continue),
        Key::Down if !k.ctrl => (filter, moved_down(selected, listed_pages(pages, filter).len()), PickAction::Continue),
        Key::Enter => (filter, selected, PickAction::Take),
        Key::Backspace => (if filter.len() > 0 { filter.drop_last() } else { filter }, 0, PickAction::Continue),
        Key::Char(c) if !k.ctrl && page_filter_char(c) => (filter.push(c), 0, PickAction::Continue),
        _ => (filter, selected, PickAction::Continue),
    }
}

/// Applies a key to a page picker (see `page_picker_next`).
pub fn page_picker_step(state: &mut PagePickerState, k: KeyPress) -> (r: PickAction)
    requires
        old(state).selected < usize::MAX,
    ensures
        (final(state).filter@, final(state).selected as nat, r)
            == page_picker_next(old(state).pages@, old(state).filter@, old(state).selected as nat, k),
        final(state).pages == old(state).pages,
        final(state).field_id == old(state).field_id,
{
    match k.key {
        Key::Esc => PickAction::Cancel,
        Key::Up if !k.ctrl => {
            if state.selected > 0 {
                state.selected = state.selected - 1;
            }
            PickAction::Continue
        },
        Key::Down if !k.ctrl => {
            let listed = filter_pages(state.pages.as_slice(), state.filter.as_str());
            let n = listed.len();
            assert(n == listed_pages(state.pages@, state.filter@).len());
            if n > 0 {
                state.selected = if state.selected + 1 < n { state.selected + 1 } else { n - 1 };
            }
            PickAction::Continue
        },
        Key::Enter => PickAction::Take,
        Key::Backspace => {
            pop_char(&mut state.filter);
            state.selected = 0;
            PickAction::Continue
        },
        Key::Char(c) => {
            if !k.ctrl && (is_alphanumeric(c) || c == '-' || c == '_' || c == ' ') {
                push_char(&mut state.filter, c);
                state.selected = 0;
            }
            PickAction::Continue
        },
        _ => PickAction::Continue,
    }
}

/// The slug of the highlighted page, if the highlight is on a listed page.
pub fn picked_page_slug(state: &PagePickerState) -> (r: Option<String>)
    ensures
        match r {
            Some(s) => state.selected < listed_pages(state.pages@, state.filter@).len()
                && s@ == listed_pages(state.pages@, state.filter@)[state.selected as int].0,
            None => state.selected >= listed_pages(state.pages@, state.filter@).len(),
        },
{
    let listed = filter_pages(state.pages.as_slice(), state.filter.as_str());
    if state.selected < listed.len() {
        let mut s = String::new();
        push_str(&mut s, listed[state.selected].0.as_str());
        assert(s@ =~= listed@[state.selected as int].0@);
        assert(listed@.map_values(|p: (String, String)| page_view(p))[state.selected as int] == page_view(listed@[state.selected as int]));
        Some(s)
    } else {
        None
    }
}

/// The characters an image filter accepts.
pub open spec fn image_filter_char(c: char) -> bool {
    unicode_alphanumeric(c) || c == '-' || c == '_' || c == '.'
}

/// The image picker after a key, given the entries of the directory it
/// shows: directories below the root, filter, highlight and action. Left
/// goes up one directory (never above the root) and clears the filter;
/// Right or Enter takes the highlighted entry.
pub open spec fn image_picker_next(
    entries: Seq<DirEntryRow>,
    dirs: Seq<Seq<char>>,
    filter: Seq<char>,
    selected: nat,
    k: KeyPress,
) -> (Seq<Seq<char>>, Seq<char>, nat, PickAction) {
    match k.key {
        Key::Esc => (dirs, filter, selected, PickAction::Cancel),
        Key::Up if !k.ctrl => (dirs, filter, if selected > 0 { (selected - 1) as nat } else { 0 }, PickAction::Continue),
        Key::Down if !k.ctrl => (dirs, filter, moved_down(selected, listed_entries(entries, filter).len()), PickAction::Continue),
        Key::Left if !k.ctrl => if dirs.len() > 0 {
            (dirs.drop_last(), Seq::empty(), 0, PickAction::Continue)
        } else {
            (dirs, filter, selected, PickAction::Continue)
        },
        Key::Right if !k.ctrl => (dirs, filter, selected, PickAction::Take),
        Key::Enter => (dirs, filter, selected, PickAction::Take),
        Key::Backspace => (dirs, if filter.len() > 0 { filter.drop_last() } else { filter }, 0, PickAction::Continue),
        Key::Char(c) if !k.ctrl && image_filter_char(c) => (dirs, filter.push(c), 0, PickAction::Continue),
        _ => (dirs, filter, selected, PickAction::Continue),
    }
}

/// Views of a list of names.
pub open spec fn name_views(v: Seq<String>) -> Seq<Seq<char>> {
    v.map_values(|s: String| s@)
}

/// Applies a key to an image picker showing `entries` (see
/// `image_picker_next`).
pub fn image_picker_step(state: &mut ImagePickerState, k: KeyPress, entries: &Vec<DirEntryRow>) -> (r: PickAction)
    requires
        old(state).selected < usize::MAX,
    ensures
        (name_views(final(state).dirs@), final(state).filter@, final(state).selected as nat, r)
            == image_picker_next(entries@, name_views(old(state).dirs@), old(state).filter@, old(state).selected as nat, k),
        final(state).root == old(state).root,
        final(state).field_id == old(state).field_id,
{
    match k.key {
        Key::Esc => PickAction::Cancel,
        Key::Up if !k.ctrl => {
            if state.selected > 0 {
                state.selected = state.selected - 1;
            }
            PickAction::Continue
        },
        Key::Down if !k.ctrl => {
            let listed = filter_entries(entries.as_slice(), state.filter.as_str());
            let n = listed.len();
            assert(n == listed_entries(entries@, state.filter@).len());
            if n > 0 {
                state.selected = if state.selected + 1 < n { state.selected + 1 } else { n - 1 };
            }
            PickAction::Continue
        },
        Key::Left if !k.ctrl => {
            if state.dirs.len() > 0 {
                let ghost before = name_views(state.dirs@);
                state.dirs.pop();
                assert(name_views(state.dirs@) =~= before.drop_last());
                state.filter = String::new();
                state.selected = 0;
            }
            PickAction::Continue
        },
        Key::Right if !k.ctrl => PickAction::Take,
        Key::Enter => PickAction::Take,
        Key::Backspace => {
            pop_char(&mut state.filter);
            state.selected = 0;
            PickAction::Continue
        },
        Key::Char(c) => {
            if !k.ctrl && (is_alphanumeric(c) || c == '-' || c == '_' || c == '.') {
                push_char(&mut state.filter, c);
                state.selected = 0;
            }
            PickAction::Continue
        },
        _ => PickAction::Continue,
    }
}

/// `parts` joined with `/`.
pub open spec fn slash_joined(parts: Seq<Seq<char>>) -> Seq<char>
    decreases parts.len(),
{
    if parts.len() == 0 {
        Seq::empty()
    } else if parts.len() == 1 {
        parts[0]
    } else {
        slash_joined(parts.drop_last()) + seq!['/'] + parts.last()
    }
}

/// `s` with every backslash turned into a slash.
pub open spec fn forward_slashes(s: Seq<char>) -> Seq<char> {
    s.map_values(|c: char| if c == '\\' { '/' } else { c })
}

/// The value an image pick writes into the form: the file's path below
/// the images root, under `assets/images/`.
pub open spec fn stored_image_path(dirs: Seq<Seq<char>>, name: Seq<char>) -> Seq<char> {
    "assets/images/"@ + forward_slashes(slash_joined(dirs.push(name)))
}

fn push_forward_slashes(out: &mut String, s: &str)
    ensures
        final(out)@ == old(out)@ + forward_slashes(s@),
{
    let cs = crate::text::chars_of(s);
    let mut i: usize = 0;
    while i < cs.len()
        invariant
            i <= cs@.len(),
            cs@ == s@,
            out@ == old(out)@ + forward_slashes(s@.take(i as int)),
        decreases cs@.len() - i,
    {
        let c = cs[i];
        push_char(out, if c == '\\' { '/' } else { c });
        assert(forward_slashes(s@.take(i + 1)) =~= forward_slashes(s@.take(i as int)).push(if c == '\\' { '/' } else { c }));
        i += 1;
    }
    assert(s@.take(s@.len() as int) =~= s@);
}

proof fn lemma_forward_slashes_concat(a: Seq<char>, b: Seq<char>)
    ensures
        forward_slashes(a + b) == forward_slashes(a) + forward_slashes(b),
{
    assert(forward_slashes(a + b) =~= forward_slashes(a) + forward_slashes(b));
}

/// What taking the highlighted entry did.
#[derive(Clone, Copy, Debug, PartialEq, Eq, Structural)]
pub enum OpenOutcome {
    /// No entry is highlighted: nothing changes.
    Nothing,
    /// The picker now shows the highlighted directory.
    Descended,
    /// A file was picked.
    Picked,
}

/// Takes the highlighted entry of an image picker showing `entries`: a
/// directory is opened (filter cleared, highlight on its first entry); a
/// file is picked, and the value for the form is returned.
pub fn image_picker_open(state: &mut ImagePickerState, entries: &Vec<DirEntryRow>) -> (r: (OpenOutcome, Option<String>))
    ensures
        ({
            let listed = listed_entries(entries@, old(state).filter@);
            let sel = old(state).selected as int;
            &&& final(state).root == old(state).root
            &&& final(state).field_id == old(state).field_id
            &&& if sel >= listed.len() {
                r == (OpenOutcome::Nothing, None::<String>) && name_views(final(state).dirs@) == name_views(old(state).dirs@)
                    && final(state).filter@ == old(state).filter@ && final(state).selected == old(state).selected
            } else if listed[sel].1 {
                &&& r.0 == OpenOutcome::Descended && r.1 is None
                &&& name_views(final(state).dirs@) == name_views(old(state).dirs@).push(listed[sel].0)
                &&& final(state).filter@.len() == 0
                &&& final(state).selected == 0
            } else {
                &&& r.0 == OpenOutcome::Picked
                &&& r.1 is Some && r.1->0@ == stored_image_path(name_views(old(state).dirs@), listed[sel].0)
                &&& name_views(final(state).dirs@) == name_views(old(state).dirs@)
                &&& final(state).filter@ == old(state).filter@
                &&& final(state).selected == old(state).selected
            }
        }),
{
    let listed = filter_entries(entries.as_slice(), state.filter.as_str());
    let ghost lv = listed_entries(entries@, state.filter@);
    if state.selected >= listed.len() {
        return (OpenOutcome::Nothing, None);
    }
    let entry = &listed[state.selected];
    assert(entry_view(*entry) == lv[state.selected as int]);
    if entry.is_dir {
        let mut name = String::new();
        push_str(&mut name, entry.name.as_str());
        let ghost before = name_views(state.dirs@);
        state.dirs.push(name);
        assert(name_views(state.dirs@) =~= before.push(lv[state.selected as int].0));
        state.filter = String::new();
        state.selected = 0;
        return (OpenOutcome::Descended, None);
    }
    let ghost parts = name_views(state.dirs@).push(entry.name@);
    let mut out = String::new();
    push_str(&mut out, "assets/images/");
    let mut i: usize = 0;
    while i < state.dirs.len()
        invariant
            i <= state.dirs@.len(),
            parts == name_views(state.dirs@).push(entry.name@),
            out@ == "assets/images/"@ + forward_slashes(slash_joined(parts.take(i as int)) + if i > 0 { seq!['/'] } else { Seq::<char>::empty() }),
        decreases state.dirs@.len() - i,
    {
        let ghost before = out@;
        push_forward_slashes(&mut out, state.dirs[i].as_str());
        push_char(&mut out, '/');
        proof {
            let t = parts.take(i + 1);
            assert(t.drop_last() =~= parts.take(i as int));
            assert(t.last() == state.dirs@[i as int]@);
            let pre = slash_joined(parts.take(i as int)) + if i > 0 { seq!['/'] } else { Seq::<char>::empty() };
            assert(slash_joined(t) + seq!['/'] =~= pre + state.dirs@[i as int]@ + seq!['/']);
            lemma_forward_slashes_concat(pre, state.dirs@[i as int]@);
            lemma_forward_slashes_concat(pre + state.dirs@[i as int]@, seq!['/']);
            assert(forward_slashes(seq!['/']) =~= seq!['/']);
            assert(out@ =~= "assets/images/"@ + forward_slashes(slash_joined(t) + seq!['/']));
        }
        i += 1;
    }
    push_forward_slashes(&mut out, entry.name.as_str());
    proof {
        let n = state.dirs@.len() as int;
        let pre = slash_joined(parts.take(n)) + if n > 0 { seq!['/'] } else { Seq::<char>::empty() };
        assert(parts.take(n + 1) =~= parts);
        assert(parts.take(n + 1).drop_last() =~= parts.take(n));
        lemma_forward_slashes_concat(pre, entry.name@);
        if n > 0 {
            assert(slash_joined(parts) =~= pre + entry.name@);
        } else {
            assert(slash_joined(parts) =~= pre + entry.name@);
        }
        assert(out@ =~= stored_image_path(name_views(state.dirs@), lv[state.selected as int].0));
    }
    (OpenOutcome::Picked, Some(out))
}

/// The key a listing sorts an entry by: its name in lower case.
pub open spec fn sort_key(e: (Seq<char>, bool)) -> Seq<char> {
    unicode_lowercase(e.0)
}

/// `e` put into the sorted `s` after every entry whose key is not greater
/// (so entries with equal keys keep their order).
pub open spec fn insert_by_key(s: Seq<(Seq<char>, bool)>, e: (Seq<char>, bool)) -> Seq<(Seq<char>, bool)>
    decreases s.len(),
{
    if s.len() == 0 {
        seq![e]
    } else if lex_lt(sort_key(e), sort_key(s.last())) {
        insert_by_key(s.drop_last(), e).push(s.last())
    } else {
        s.push(e)
    }
}

/// `es` sorted by key, stably.
pub open spec fn sorted_by_key(es: Seq<(Seq<char>, bool)>) -> Seq<(Seq<char>, bool)>
    decreases es.len(),
{
    if es.len() == 0 {
        Seq::empty()
    } else {
        insert_by_key(sorted_by_key(es.drop_last()), es.last())
    }
}

/// The entries of `es` that are directories (`dirs`) or files (`!dirs`)
/// and not hidden (their name does not start with `.`), in order.
pub open spec fn shown_of(es: Seq<(Seq<char>, bool)>, dirs: bool) -> Seq<(Seq<char>, bool)>
    decreases es.len(),
{
    if es.len() == 0 {
        Seq::empty()
    } else {
        let e = es.last();
        let keep = e.1 == dirs && !(e.0.len() > 0 && e.0[0] == '.');
        if keep { shown_of(es.drop_last(), dirs).push(e) } else { shown_of(es.drop_last(), dirs) }
    }
}

/// A directory listing as the image picker shows it: hidden entries left
/// out, directories first, each group sorted by lower-cased name.
pub open spec fn arranged(es: Seq<(Seq<char>, bool)>) -> Seq<(Seq<char>, bool)> {
    sorted_by_key(shown_of(es, true)) + sorted_by_key(shown_of(es, false))
}

proof fn lemma_insert_at(s: Seq<(Seq<char>, bool)>, e: (Seq<char>, bool), j: int)
    requires
        0 <= j <= s.len(),
        forall|k: int| j <= k < s.len() ==> lex_lt(sort_key(e), sort_key(#[trigger] s[k])),
        j == 0 || !lex_lt(sort_key(e), sort_key(s[j - 1])),
    ensures
        insert_by_key(s, e) == s.take(j).push(e) + s.skip(j),
    decreases s.len(),
{
    if s.len() == 0 {
        assert(s.take(j).push(e) + s.skip(j) =~= seq![e]);
    } else if j == s.len() {
        assert(s.take(j) =~= s);
        assert(s.take(j).push(e) + s.skip(j) =~= s.push(e));
    } else {
        let dl = s.drop_last();
        assert(lex_lt(sort_key(e), sort_key(s[s.len() - 1])));
        assert forall|k: int| j <= k < dl.len() implies lex_lt(sort_key(e), sort_key(#[trigger] dl[k])) by {
            assert(dl[k] == s[k]);
        }
        if j > 0 {
            assert(dl[j - 1] == s[j - 1]);
        }
        lemma_insert_at(dl, e, j);
        assert(dl.take(j) =~= s.take(j));
        assert((dl.take(j).push(e) + dl.skip(j)).push(s.last()) =~= s.take(j).push(e) + s.skip(j));
    }
}

/// Views of a list of entries.
pub open spec fn entry_views(es: Seq<DirEntryRow>) -> Seq<(Seq<char>, bool)> {
    es.map_values(|e: DirEntryRow| entry_view(e))
}

fn insert_sorted_entry(out: &mut Vec<DirEntryRow>, keys: &mut Vec<Vec<char>>, e: DirEntryRow)
    requires
        old(keys)@.len() == old(out)@.len(),
        forall|k: int| 0 <= k < old(out)@.len() ==> (#[trigger] old(keys)@[k])@ == sort_key(entry_view(old(out)@[k])),
    ensures
        final(keys)@.len() == final(out)@.len(),
        forall|k: int| 0 <= k < final(out)@.len() ==> (#[trigger] final(keys)@[k])@ == sort_key(entry_view(final(out)@[k])),
        entry_views(final(out)@) == insert_by_key(entry_views(old(out)@), entry_view(e)),
{
    let key = chars_of(to_lowercase(e.name.as_str()).as_str());
    let ghost ev = entry_views(out@);
    let mut j = out.len();
    while j > 0 && lex_lt_exec(key.as_slice(), keys[j - 1].as_slice())
        invariant
            j <= out@.len(),
            keys@.len() == out@.len(),
            ev == entry_views(out@),
            key@ == sort_key(entry_view(e)),
            forall|k: int| 0 <= k < out@.len() ==> (#[trigger] keys@[k])@ == sort_key(entry_view(out@[k])),
            forall|k: int| j <= k < ev.len() ==> lex_lt(sort_key(entry_view(e)), sort_key(#[trigger] ev[k])),
        decreases j,
    {
        assert(keys@[j - 1]@ == sort_key(ev[j - 1]));
        j -= 1;
    }
    proof {
        if j > 0 {
            assert(keys@[j - 1]@ == sort_key(ev[j - 1]));
        }
        lemma_insert_at(ev, entry_view(e), j as int);
    }
    let ghost ok = keys@;
    let ghost oo = out@;
    out.insert(j, e);
    keys.insert(j, key);
    proof {
        assert(entry_views(out@) =~= ev.take(j as int).push(entry_view(e)) + ev.skip(j as int));
        assert forall|k: int| 0 <= k < out@.len() implies (#[trigger] keys@[k])@ == sort_key(entry_view(out@[k])) by {
            if k < j {
                assert(keys@[k] == ok[k] && out@[k] == oo[k]);
            } else if k > j {
                assert(keys@[k] == ok[k - 1] && out@[k] == oo[k - 1]);
            }
        }
    }
}

/// Arranges a raw directory listing as the image picker shows it (see
/// `arranged`).
pub fn arrange_dir_entries(raw: Vec<DirEntryRow>) -> (r: Vec<DirEntryRow>)
    ensures
        entry_views(r@) == arranged(entry_views(raw@)),
{
    let ghost rv = entry_views(raw@);
    let mut dirs: Vec<DirEntryRow> = Vec::new();
    let mut dir_keys: Vec<Vec<char>> = Vec::new();
    let mut files: Vec<DirEntryRow> = Vec::new();
    let mut file_keys: Vec<Vec<char>> = Vec::new();
    let mut raw = raw;
    let n = raw.len();
    let mut i: usize = 0;
    assert(rv.skip(0) =~= rv);
    assert(rv.take(0) =~= Seq::<(Seq<char>, bool)>::empty());
    while i < n
        invariant
            i <= n,
            n == rv.len(),
            entry_views(raw@) == rv.skip(i as int),
            dir_keys@.len() == dirs@.len(),
            file_keys@.len() == files@.len(),
            forall|k: int| 0 <= k < dirs@.len() ==> (#[trigger] dir_keys@[k])@ == sort_key(entry_view(dirs@[k])),
            forall|k: int| 0 <= k < files@.len() ==> (#[trigger] file_keys@[k])@ == sort_key(entry_view(files@[k])),
            entry_views(dirs@) == sorted_by_key(shown_of(rv.take(i as int), true)),
            entry_views(files@) == sorted_by_key(shown_of(rv.take(i as int), false)),
        decreases n - i,
    {
        let ghost before = entry_views(raw@);
        assert(raw@.len() == before.len());
        let ghost first = raw@[0];
        let e = raw.remove(0);
        assert(e == first);
        proof {
            assert(entry_view(e) == before[0]);
            assert(entry_views(raw@) =~= before.skip(1));
            assert(before.skip(1) =~= rv.skip(i + 1));
            assert(rv.take(i + 1).drop_last() =~= rv.take(i as int));
            assert(rv.take(i + 1).last() == rv[i as int]);
            assert(rv[i as int] == before[0]);
        }
        let name = chars_of(e.name.as_str());
        let hidden = name.len() > 0 && name[0] == '.';
        let ghost ev = entry_view(e);
        let ghost t0 = rv.take(i as int);
        let ghost sd = shown_of(t0, true);
        let ghost sf = shown_of(t0, false);
        proof {
            assert(rv.take(i + 1).drop_last() =~= t0);
            assert(rv.take(i + 1).last() == ev);
            assert(sd.push(ev).drop_last() =~= sd);
            assert(sf.push(ev).drop_last() =~= sf);
        }
        if hidden {
        } else if e.is_dir {
            insert_sorted_entry(&mut dirs, &mut dir_keys, e);
        } else {
            insert_sorted_entry(&mut files, &mut file_keys, e);
        }
        i += 1;
    }
    assert(rv.take(n as int) =~= rv);
    let ghost dv = entry_views(dirs@);
    let ghost fv = entry_views(files@);
    dirs.append(&mut files);
    assert(entry_views(dirs@) =~= dv + fv);
    dirs
}

/// Entries in order of their keys (never a greater key before a smaller).
pub open spec fn keys_ordered(s: Seq<(Seq<char>, bool)>) -> bool {
    forall|i: int, j: int| 0 <= i < j < s.len() ==> !lex_lt(sort_key(#[trigger] s[j]), sort_key(#[trigger] s[i]))
}

proof fn lemma_insert_members(s: Seq<(Seq<char>, bool)>, e: (Seq<char>, bool))
    ensures
        insert_by_key(s, e).len() == s.len() + 1,
        forall|k: int| 0 <= k < s.len() + 1 ==> (#[trigger] insert_by_key(s, e)[k] == e || s.contains(insert_by_key(s, e)[k])),
    decreases s.len(),
{
    if s.len() > 0 && lex_lt(sort_key(e), sort_key(s.last())) {
        let dl = s.drop_last();
        lemma_insert_members(dl, e);
        let r = insert_by_key(s, e);
        assert forall|k: int| 0 <= k < s.len() + 1 implies (#[trigger] r[k] == e || s.contains(r[k])) by {
            if k < s.len() {
                let x = insert_by_key(dl, e)[k];
                assert(r[k] == x);
                if x != e {
                    let w = choose|w: int| 0 <= w < dl.len() && dl[w] == x;
                    assert(s[w] == x);
                }
            } else {
                assert(r[k] == s[s.len() - 1]);
            }
        }
    } else if s.len() > 0 {
        let r = insert_by_key(s, e);
        assert forall|k: int| 0 <= k < s.len() + 1 implies (#[trigger] r[k] == e || s.contains(r[k])) by {
            if k < s.len() {
                assert(r[k] == s[k]);
            }
        }
    }
}

proof fn lemma_insert_keeps_order(s: Seq<(Seq<char>, bool)>, e: (Seq<char>, bool))
    requires
        keys_ordered(s),
    ensures
        keys_ordered(insert_by_key(s, e)),
    decreases s.len(),
{
    if s.len() > 0 {
        let last = s.last();
        let r = insert_by_key(s, e);
        if lex_lt(sort_key(e), sort_key(last)) {
            let dl = s.drop_last();
            assert(keys_ordered(dl)) by {
                assert forall|i: int, j: int| 0 <= i < j < dl.len() implies !lex_lt(sort_key(#[trigger] dl[j]), sort_key(#[trigger] dl[i])) by {
                    assert(dl[i] == s[i] && dl[j] == s[j]);
                }
            }
            lemma_insert_keeps_order(dl, e);
            lemma_insert_members(dl, e);
            let m = insert_by_key(dl, e);
            assert forall|i: int, j: int| 0 <= i < j < r.len() implies !lex_lt(sort_key(#[trigger] r[j]), sort_key(#[trigger] r[i])) by {
                if j < r.len() - 1 {
                    assert(r[i] == m[i] && r[j] == m[j]);
                } else {
                    assert(r[j] == last);
                    assert(r[i] == m[i]);
                    let x = m[i];
                    if x == e {
                        if sort_key(last) == sort_key(e) {
                            lemma_lex_irreflexive(sort_key(e));
                        } else {
                            lemma_lex_total(sort_key(last), sort_key(e));
                        }
                    } else {
                        let w = choose|w: int| 0 <= w < dl.len() && dl[w] == x;
                        assert(s[w] == x);
                        assert(!lex_lt(sort_key(s[s.len() - 1]), sort_key(s[w])));
                    }
                }
            }
        } else {
            assert forall|i: int, j: int| 0 <= i < j < r.len() implies !lex_lt(sort_key(#[trigger] r[j]), sort_key(#[trigger] r[i])) by {
                if j < s.len() {
                    assert(r[i] == s[i] && r[j] == s[j]);
                } else {
                    assert(r[j] == e);
                    assert(r[i] == s[i]);
                    if i < s.len() - 1 {
                        assert(!lex_lt(sort_key(s[s.len() - 1]), sort_key(s[i])));
                        if lex_lt(sort_key(e), sort_key(s[i])) {
                            if sort_key(s[i]) == sort_key(last) {
                            } else {
                                lemma_lex_total(sort_key(s[i]), sort_key(last));
                                lemma_lex_transitive(sort_key(e), sort_key(s[i]), sort_key(last));
                            }
                        }
                    }
                }
            }
        }
    }
}

/// A listing keeps directories before files and each group in order of
/// lower-cased name.
pub proof fn law_arranged_listing_is_ordered(es: Seq<(Seq<char>, bool)>)
    ensures
        keys_ordered(sorted_by_key(shown_of(es, true))),
        keys_ordered(sorted_by_key(shown_of(es, false))),
{
    lemma_sorted_ordered(shown_of(es, true));
    lemma_sorted_ordered(shown_of(es, false));
}

proof fn lemma_sorted_ordered(es: Seq<(Seq<char>, bool)>)
    ensures
        keys_ordered(sorted_by_key(es)),
    decreases es.len(),
{
    if es.len() > 0 {
        lemma_sorted_ordered(es.drop_last());
        lemma_insert_keeps_order(sorted_by_key(es.drop_last()), es.last());
    }
}

} // verus!
