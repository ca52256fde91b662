//! The key hints of the status line.
use vstd::prelude::*;
use crate::text::push_str;

verus! {

broadcast use vstd::string::group_string_axioms;

/// The three parts of the sidebar.
#[derive(Clone, Copy, Debug, PartialEq, Eq, Structural)]
pub enum SidebarSection {
    Regions,
    Pages,
    Layouts,
}

/// The hints shown, one text per key, for an open overlay (a dialog, the
/// help or the theme screen) or else for the focused sidebar part at the
/// given terminal width.
pub open spec fn hint_parts(overlay_open: bool, section: SidebarSection, width: u16) -> Seq<Seq<char>> {
    if overlay_open {
        seq!["F1:Help"@, "Esc:Close"@, "Ctrl+Q:Quit"@]
    } else {
        match section {
            SidebarSection::Pages => if width < 80 {
                seq!["F1:Help"@, "Shift+A:Add"@, "r:Rename"@, "Ctrl+Q:Quit"@]
            } else {
                seq![
                    "F1:Help"@,
                    "Shift+A:Add"@,
                    "Shift+X:Del"@,
                    "u:Undo"@,
                    "r:Rename"@,
                    "Shift+J/K:Move"@,
                    "Ctrl+Q:Quit"@,
                ]
            },
            SidebarSection::Regions => seq!["F1:Help"@, "j/k:Header/Footer"@, "Enter:Edit"@, "Ctrl+Q:Quit"@],
            SidebarSection::Layouts => if width < 80 {
                seq!["F1:Help"@, "Enter:Edit"@, "d:Del"@, "y:Dup"@, "Ctrl+Q:Quit"@]
            } else if width < 110 {
                seq!["F1:Help"@, "/:Insert"@, "d:Del"@, "y:Dup"@, "u:Undo"@, "J/K:Move"@, "Ctrl+Q:Quit"@]
            } else {
                seq![
                    "F1:Help"@,
                    "/:Insert"@,
                    "Enter:Edit"@,
                    "d:Del"@,
                    "y:Dup"@,
                    "u:Undo"@,
                    "J/K:Move"@,
                    "p:Preview"@,
                    "Ctrl+Q:Quit"@,
                ]
            },
        }
    }
}

/// `parts` joined with `sep` between neighbours.
pub open spec fn joined_with(parts: Seq<Seq<char>>, sep: Seq<char>) -> Seq<char>
    decreases parts.len(),
{
    if parts.len() == 0 {
        Seq::empty()
    } else if parts.len() == 1 {
        parts[0]
    } else {
        joined_with(parts.drop_last(), sep) + sep + parts.last()
    }
}

/// The status line: the hints joined by two spaces, after `"*  "` when
/// there are unsaved changes, cut to the first `width` characters.
pub open spec fn footer_hint_text(overlay_open: bool, section: SidebarSection, dirty: bool, width: u16) -> Seq<char> {
    let line = joined_with(hint_parts(overlay_open, section, width), "  "@);
    let line = if dirty { "*  "@ + line } else { line };
    line.take(if line.len() < width { line.len() as int } else { width as int })
}

/// Appends `part` to `s`, after two spaces unless `first`.
fn push_part(s: &mut String, part: &str, first: bool)
    ensures
        final(s)@ == if first { old(s)@ + part@ } else { old(s)@ + "  "@ + part@ },
{
    if !first {
        push_str(s, "  ");
    }
    push_str(s, part);
}

/// The hint texts, as `hint_parts` lists them.
fn hint_list(overlay_open: bool, section: SidebarSection, width: u16) -> (r: Vec<&'static str>)
    ensures
        r@.map_values(|p: &'static str| p@) == hint_parts(overlay_open, section, width),
{
    let r: Vec<&'static str> = if overlay_open {
        vec!["F1:Help", "Esc:Close", "Ctrl+Q:Quit"]
    } else {
        match section {
            SidebarSection::Pages => if width < 80 {
                vec!["F1:Help", "Shift+A:Add", "r:Rename", "Ctrl+Q:Quit"]
            } else {
                vec!["F1:Help", "Shift+A:Add", "Shift+X:Del", "u:Undo", "r:Rename", "Shift+J/K:Move", "Ctrl+Q:Quit"]
            },
            SidebarSection::Regions => vec!["F1:Help", "j/k:Header/Footer", "Enter:Edit", "Ctrl+Q:Quit"],
            SidebarSection::Layouts => if width < 80 {
                vec!["F1:Help", "Enter:Edit", "d:Del", "y:Dup", "Ctrl+Q:Quit"]
            } else if width < 110 {
                vec!["F1:Help", "/:Insert", "d:Del", "y:Dup", "u:Undo", "J/K:Move", "Ctrl+Q:Quit"]
            } else {
                vec!["F1:Help", "/:Insert", "Enter:Edit", "d:Del", "y:Dup", "u:Undo", "J/K:Move", "p:Preview", "Ctrl+Q:Quit"]
            },
        }
    };
    assert(r@.map_values(|p: &'static str| p@) =~= hint_parts(overlay_open, section, width));
    r
}

/// The status line's text: the key hints for what has focus (those of a
/// dialog when `overlay_open`), marked `*` when `dirty`, at most `width`
/// characters.
pub fn footer_hint(overlay_open: bool, section: SidebarSection, dirty: bool, width: u16) -> (r: String)
    ensures
        r@ == footer_hint_text(overlay_open, section, dirty, width),
{
    let parts = hint_list(overlay_open, section, width);
    let ghost ps = hint_parts(overlay_open, section, width);
    let mut line = String::new();
    if dirty {
        push_str(&mut line, "*  ");
    }
    let ghost prefix = line@;
    let mut i: usize = 0;
    while i < parts.len()
        invariant
            i <= parts.len(),
            parts@.map_values(|p: &'static str| p@) == ps,
            line@ == prefix + joined_with(ps.take(i as int), "  "@),
        decreases parts.len() - i,
    {
        let ghost before = line@;
        push_part(&mut line, parts[i], i == 0);
        proof {
            assert(ps[i as int] == parts@[i as int]@);
            assert(ps.take(i + 1).drop_last() =~= ps.take(i as int));
            if i == 0 {
                assert(ps.take(1) =~= seq![ps[0]]);
            }
        }
        i += 1;
    }
    proof {
        assert(ps.take(ps.len() as int) =~= ps);
    }
    if width == 0 {
        return String::new();
    }
    let chars = crate::text::chars_of(line.as_str());
    let n: usize = if chars.len() < width as usize { chars.len() } else { width as usize };
    crate::text::string_of_take(chars.as_slice(), n)
}

} // verus!
