//! The change filter of the file watcher: which raw filesystem events become
//! a change notification, and for which path.
use vstd::prelude::*;

verus! {

/// The kind of a raw filesystem event.
#[derive(Clone, Copy, Debug, PartialEq, Eq, Structural)]
pub enum ChangeKind {
    Create,
    Modify,
    Remove,
    /// Access, metadata-free or unknown events.
    Other,
}

/// The extension of a path: what follows the last `.` of its file name.
pub uninterp spec fn extension_of(path: Seq<char>) -> Option<Seq<char>>;

/// Relies on `std::path::Path::extension`: the extension of the file name of
/// `path`, if it has one.
#[verifier::external_body]
fn path_extension(path: &str) -> (r: Option<String>)
    ensures
        match r {
            Some(e) => extension_of(path@) == Some(e@),
            None => extension_of(path@) is None,
        },
{
    std::path::Path::new(path).extension().and_then(|e| e.to_str()).map(String::from)
}

/// Created, modified and removed files count as changes.
pub open spec fn relevant(kind: ChangeKind) -> bool {
    kind == ChangeKind::Create || kind == ChangeKind::Modify || kind == ChangeKind::Remove
}

/// A markdown extension, matched case-sensitively.
pub open spec fn markdown_extension(ext: Seq<char>) -> bool {
    ext == "md"@ || ext == "markdown"@
}

pub open spec fn is_markdown(path: Seq<char>) -> bool {
    match extension_of(path) {
        Some(e) => markdown_extension(e),
        None => false,
    }
}

/// Whether `ext` is `md` or `markdown`.
pub fn is_markdown_extension(ext: &str) -> (r: bool)
    ensures
        r == markdown_extension(ext@),
{
    let e = String::from_str(ext);
    e == String::from_str("md") || e == String::from_str("markdown")
}

/// Whether `path` names a markdown file.
pub fn is_markdown_path(path: &str) -> (r: bool)
    ensures
        r == is_markdown(path@),
{
    match path_extension(path) {
        Some(e) => is_markdown_extension(e.as_str()),
        None => false,
    }
}

/// The notification for one raw event: the first markdown path it names, if
/// the event is relevant. Later markdown paths of the same event are dropped,
/// so one event gives at most one notification.
pub fn change_notification(kind: ChangeKind, paths: &Vec<String>) -> (r: Option<String>)
    ensures
        match r {
            None => !relevant(kind) || forall|j: int| 0 <= j < paths@.len() ==> !is_markdown(#[trigger] paths@[j]@),
            Some(p) => relevant(kind) && exists|i: int|
                0 <= i < paths@.len() && p@ == paths@[i]@ && is_markdown(p@)
                && forall|j: int| 0 <= j < i ==> !is_markdown(#[trigger] paths@[j]@),
        },
{
    if kind == ChangeKind::Other {
        return None;
    }
    let mut i: usize = 0;
    while i < paths.len()
        invariant
            relevant(kind),
            i <= paths@.len(),
            forall|j: int| 0 <= j < i ==> !is_markdown(#[trigger] paths@[j]@),
        decreases paths.len() - i,
    {
        if is_markdown_path(paths[i].as_str()) {
            let p = paths[i].clone();
            assert(p@ == paths@[i as int]@);
            return Some(p);
        }
        i = i + 1;
    }
    None
}

} // verus!
