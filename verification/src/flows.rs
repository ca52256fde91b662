//! Exporting, previewing and renaming pages, and the check of a loaded
//! file against its backup: what each step decides and the notices it
//! shows. Writing files, serving and opening the browser are the caller's.
use vstd::prelude::*;
use crate::modal::{submitted, submitted_text, Modal};
use crate::text::{chars_of, push_decimal, push_str, trimmed, decimal};
use crate::toasts::ToastLevel;

verus! {

broadcast use vstd::string::group_string_axioms;

/// How exporting (or previewing) starts.
pub enum OutputStart {
    /// The site has validation errors: this dialog lists them.
    Errors(Modal),
    /// Write to the saved output folder at once.
    WriteTo(String),
    /// Ask for the output folder with this dialog.
    AskPath(Modal),
}

/// Starts an export (`preview == false`) or a preview: a site with
/// validation errors shows them; a saved output folder that is not blank
/// is written to at once; otherwise a prompt asks for the folder, filled
/// with `./web/`.
pub fn begin_output_flow(errors: Vec<String>, export_dir: Option<&str>, preview: bool) -> (r: OutputStart)
    ensures
        errors@.len() > 0 ==> (r matches OutputStart::Errors(Modal::ValidationErrors { errors: e, scroll_offset })
            && e@ == errors@ && scroll_offset == 0),
        errors@.len() == 0 && (export_dir matches Some(d) && trimmed(d@).len() > 0)
            ==> (r matches OutputStart::WriteTo(d) && d@ == export_dir->0@),
        errors@.len() == 0 && !(export_dir matches Some(d) && trimmed(d@).len() > 0) ==> (
            if preview {
                r matches OutputStart::AskPath(Modal::PreviewPathPrompt { path }) && path@ == "./web/"@
            } else {
                r matches OutputStart::AskPath(Modal::ExportPathPrompt { path }) && path@ == "./web/"@
            }),
{
    if errors.len() > 0 {
        return OutputStart::Errors(Modal::ValidationErrors { errors, scroll_offset: 0 });
    }
    match export_dir {
        Some(d) => {
            if submitted_text(d).is_some() {
                return OutputStart::WriteTo(d.to_string());
            }
        },
        None => {},
    }
    if preview {
        OutputStart::AskPath(Modal::PreviewPathPrompt { path: "./web/".to_string() })
    } else {
        OutputStart::AskPath(Modal::ExportPathPrompt { path: "./web/".to_string() })
    }
}

/// The folder a path prompt submits (trimmed), or the warning that keeps
/// the prompt open when it is blank: `Export path required.` or
/// `Preview path required.`.
pub fn submit_output_path(path: &str, preview: bool) -> (r: Result<String, (ToastLevel, String)>)
    ensures
        submitted(path@) matches Some(t) ==> (r matches Ok(s) && s@ == t),
        submitted(path@) is None ==> (r matches Err((level, msg)) && level == ToastLevel::Warning
            && msg@ == if preview { "Preview path required."@ } else { "Export path required."@ }),
{
    match submitted_text(path) {
        Some(s) => Ok(s),
        None => Err((ToastLevel::Warning, if preview {
            "Preview path required.".to_string()
        } else {
            "Export path required.".to_string()
        })),
    }
}

/// The notice after writing the site out: `Exported <n> page(s) to
/// <folder>`, or the failure, `Export failed: <error>` (for a preview
/// `Preview failed: <error>`).
pub fn output_notice(outcome: Result<(usize, &str), &str>, preview: bool) -> (r: (ToastLevel, String))
    ensures
        outcome matches Ok((n, shown)) ==> r.0 == ToastLevel::Success
            && r.1@ == "Exported "@ + decimal(n as nat) + " page(s) to "@ + shown@,
        outcome matches Err(e) ==> r.0 == ToastLevel::Warning
            && r.1@ == (if preview { "Preview failed: "@ } else { "Export failed: "@ }) + e@,
{
    let mut s = String::new();
    match outcome {
        Ok((n, shown)) => {
            push_str(&mut s, "Exported ");
            push_decimal(&mut s, n);
            push_str(&mut s, " page(s) to ");
            push_str(&mut s, shown);
            (ToastLevel::Success, s)
        },
        Err(e) => {
            push_str(&mut s, if preview { "Preview failed: " } else { "Export failed: " });
            push_str(&mut s, e);
            (ToastLevel::Warning, s)
        },
    }
}

/// The notice after starting the preview server and opening the browser:
/// the server's failure, the browser's failure, or `Opening <url> in
/// browser…`.
pub fn preview_open_notice(server: Result<&str, &str>, browser: Result<(), &str>) -> (r: (ToastLevel, String))
    ensures
        server matches Err(e) ==> r.0 == ToastLevel::Warning && r.1@ == "Preview server failed: "@ + e@,
        server matches Ok(url) ==> (browser matches Ok(()) ==> r.0 == ToastLevel::Info
            && r.1@ == "Opening "@ + url@ + " in browser\u{2026}"@),
        server is Ok ==> (browser matches Err(e) ==> r.0 == ToastLevel::Warning
            && r.1@ == "Browser open failed: "@ + e@),
{
    let mut s = String::new();
    match server {
        Err(e) => {
            push_str(&mut s, "Preview server failed: ");
            push_str(&mut s, e);
            (ToastLevel::Warning, s)
        },
        Ok(url) => match browser {
            Ok(()) => {
                push_str(&mut s, "Opening ");
                push_str(&mut s, url);
                push_str(&mut s, " in browser\u{2026}");
                (ToastLevel::Info, s)
            },
            Err(e) => {
                push_str(&mut s, "Browser open failed: ");
                push_str(&mut s, e);
                (ToastLevel::Warning, s)
            },
        },
    }
}

/// The page a preview opens: the slug of the selected page (clamped to
/// the last), `index` when there are no pages.
pub fn current_page_slug_for_preview(slugs: &Vec<String>, selected: usize) -> (r: String)
    ensures
        slugs@.len() == 0 ==> r@ == "index"@,
        slugs@.len() > 0 ==> r@ == slugs@[if selected < slugs@.len() { selected as int } else { slugs@.len() - 1 }]@,
{
    if slugs.len() == 0 {
        return "index".to_string();
    }
    let i = if selected < slugs.len() { selected } else { slugs.len() - 1 };
    slugs[i].clone()
}

/// What confirming a page rename does.
pub enum RenameOutcome {
    /// The title is blank: the prompt stays open.
    TitleRequired,
    /// The page takes this (trimmed) title; its slug follows the title
    /// when `regenerate_slug` (the slug is not locked).
    Renamed { title: String, regenerate_slug: bool },
    /// The page is gone.
    PageGone,
}

/// Confirms renaming page `page_idx` of `page_count` to `title`.
pub fn commit_rename_page(title: &str, page_idx: usize, page_count: usize, slug_locked: bool) -> (r: RenameOutcome)
    ensures
        submitted(title@) is None ==> r is TitleRequired,
        submitted(title@) matches Some(t) ==> (if page_idx < page_count {
            r matches RenameOutcome::Renamed { title: n, regenerate_slug } && n@ == t && regenerate_slug == !slug_locked
        } else {
            r is PageGone
        }),
{
    match submitted_text(title) {
        None => RenameOutcome::TitleRequired,
        Some(t) => {
            if page_idx < page_count {
                RenameOutcome::Renamed { title: t, regenerate_slug: !slug_locked }
            } else {
                RenameOutcome::PageGone
            }
        },
    }
}

/// The notice after a rename: `Title required.` (a warning), `Renamed
/// page: <title>`, or `Page no longer exists.` (a warning).
pub fn rename_notice(outcome: &RenameOutcome) -> (r: (ToastLevel, String))
    ensures
        *outcome is TitleRequired ==> r.0 == ToastLevel::Warning && r.1@ == "Title required."@,
        *outcome is PageGone ==> r.0 == ToastLevel::Warning && r.1@ == "Page no longer exists."@,
        *outcome matches RenameOutcome::Renamed { title, .. } ==> r.0 == ToastLevel::Success
            && r.1@ == "Renamed page: "@ + title@,
{
    match outcome {
        RenameOutcome::TitleRequired => (ToastLevel::Warning, "Title required.".to_string()),
        RenameOutcome::PageGone => (ToastLevel::Warning, "Page no longer exists.".to_string()),
        RenameOutcome::Renamed { title, .. } => {
            let mut s = String::new();
            push_str(&mut s, "Renamed page: ");
            push_str(&mut s, title.as_str());
            (ToastLevel::Success, s)
        },
    }
}

fn same_text(a: &str, b: &str) -> (r: bool)
    ensures
        r == (a@ == b@),
{
    let x = chars_of(a);
    let y = chars_of(b);
    if x.len() != y.len() {
        return false;
    }
    let mut i: usize = 0;
    while i < x.len()
        invariant
            x@ == a@,
            y@ == b@,
            x@.len() == y@.len(),
            i <= x@.len(),
            forall|k: int| 0 <= k < i ==> x@[k] == y@[k],
        decreases x@.len() - i,
    {
        if x[i] != y[i] {
            return false;
        }
        i += 1;
    }
    assert(x@ =~= y@);
    true
}

/// The notice when a site file is loaded next to its backup (both read
/// as text): when they differ, `Loaded state differs from last manual
/// save (<when>).`, `<when>` being the backup's time or `unknown`; none
/// when either is missing or they match.
pub fn backup_notice(main: Option<&str>, backup: Option<&str>, backup_time: Option<&str>) -> (r: Option<(ToastLevel, String)>)
    ensures
        (main matches Some(m) && backup matches Some(b) && m@ != b@) ==> (r matches Some((level, msg))
            && level == ToastLevel::Info
            && msg@ == "Loaded state differs from last manual save ("@
                + (match backup_time { Some(t) => t@, None => "unknown"@ }) + ")."@),
        !(main matches Some(m) && backup matches Some(b) && m@ != b@) ==> r is None,
{
    match (main, backup) {
        (Some(m), Some(b)) => {
            if same_text(m, b) {
                None
            } else {
                let mut s = String::new();
                push_str(&mut s, "Loaded state differs from last manual save (");
                push_str(&mut s, match backup_time { Some(t) => t, None => "unknown" });
                push_str(&mut s, ").");
                Some((ToastLevel::Info, s))
            }
        },
        _ => None,
    }
}

} // verus!
