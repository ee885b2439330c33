use vstd::prelude::*;

verus! {

/// The delay the rebuild worker waits after a change signal, so that a
/// burst of related events coalesces into one rebuild.
pub const DEBOUNCE_DELAY_MS: u64 = 100;

/// An abstract change signal, as the build engine consumes it.
#[derive(Debug)]
pub enum FileChange {
    /// Creation, move inside, edition, etc.
    Write(String),
    /// Removal, move outside, etc., but also the first half of a move.
    Removal(String),
    /// Anything else looking relevant, e.g. several files at once; a
    /// full rebuild is probably needed.
    Other,
}

/// The kind of a raw filesystem notification, reduced to what the
/// classifier reads of it.
#[derive(Debug, Clone, Copy, PartialEq, Eq, Structural)]
pub enum RawEventKind {
    /// Only metadata changed.
    MetadataModify,
    /// File content changed.
    ContentModify,
    /// A data change with nothing known about the content.
    AnyDataModify,
    /// A file was renamed away: the source half of a rename.
    RenameFrom,
    /// A file was renamed into place: the target half of a rename.
    RenameTo,
    /// A file opened for writing was closed.
    CloseWrite,
    /// Any other access.
    OtherAccess,
    /// Anything else.
    Other,
}

/// Whether a raw event is relevant for a rebuild at all; metadata-only
/// and unclassified events are filtered out as semantically void.
pub open spec fn event_relevant(kind: RawEventKind) -> bool {
    kind == RawEventKind::ContentModify || kind == RawEventKind::RenameFrom || kind
        == RawEventKind::RenameTo || kind == RawEventKind::CloseWrite
}

/// Turn a raw filesystem notification into an abstract change signal:
/// irrelevant events give nothing; a rename-away is a removal; any
/// other relevant event on one path is a write of it; a relevant event
/// on several paths, or on none, asks for a full rebuild.
pub fn classify_raw_event(kind: RawEventKind, mut paths: Vec<String>) -> (r: Option<FileChange>)
    ensures
        !event_relevant(kind) ==> r is None,
        event_relevant(kind) && paths@.len() == 1 && kind == RawEventKind::RenameFrom ==> (r
            matches Some(FileChange::Removal(p)) && p@ == paths@[0]@),
        event_relevant(kind) && paths@.len() == 1 && kind != RawEventKind::RenameFrom ==> (r
            matches Some(FileChange::Write(p)) && p@ == paths@[0]@),
        event_relevant(kind) && paths@.len() != 1 ==> r == Some(FileChange::Other),
{
    let relevant = match kind {
        RawEventKind::ContentModify => true,
        RawEventKind::RenameFrom => true,
        RawEventKind::RenameTo => true,
        RawEventKind::CloseWrite => true,
        _ => false,
    };
    if !relevant {
        return None;
    }
    let is_removal = matches!(kind, RawEventKind::RenameFrom);
    if paths.len() == 1 {
        let p = paths.remove(0);
        if is_removal {
            Some(FileChange::Removal(p))
        } else {
            Some(FileChange::Write(p))
        }
    } else {
        Some(FileChange::Other)
    }
}

} // verus!
