//! The pure decision part of the server: converting decoded payload
//! records and raw editor positions into the core's inputs. The
//! surrounding RPC plumbing only ferries plain values in and out.

use vstd::prelude::*;
use crate::highlighter::{Change, Diagnostic, DiagnosticLevel};
use crate::message::{Hunk, Location, LocationType};
use crate::picomap::{Frame, Modifier};

verus! {

/// The diagnostic level a location type maps to.
pub open spec fn level_of_type(t: LocationType) -> DiagnosticLevel {
    match t {
        LocationType::Warning => DiagnosticLevel::Warning,
        LocationType::Error => DiagnosticLevel::Danger,
        LocationType::Unknown => DiagnosticLevel::Clear,
    }
}

/// Turns one location entry into a diagnostic on the same 0-based line.
pub fn to_diagnostic(loc: &Location) -> (d: Diagnostic)
    requires
        loc.lnum <= usize::MAX as u64,
    ensures
        d.i == loc.lnum,
        d.text == loc.text,
        d.level == level_of_type(loc.typ),
{
    Diagnostic {
        i: loc.lnum as usize,
        text: loc.text.clone(),
        level: match loc.typ {
            LocationType::Warning => DiagnosticLevel::Warning,
            LocationType::Error => DiagnosticLevel::Danger,
            LocationType::Unknown => DiagnosticLevel::Clear,
        },
    }
}

/// Turns one diff hunk into a change run, shifting its 1-based first
/// line down to the 0-based indexing of the highlighter.
pub fn to_change(hunk: &Hunk) -> (c: Change)
    requires
        1 <= hunk.lnum,
        hunk.lnum - 1 <= usize::MAX as u64,
    ensures
        c.i == hunk.lnum - 1,
        c.len == hunk.len,
{
    Change { i: (hunk.lnum - 1) as usize, len: hunk.len }
}

/// All locations of a payload as diagnostics, in input order.
pub fn to_diagnostics(locations: &Vec<Location>) -> (ds: Vec<Diagnostic>)
    requires
        forall|k: int|
            0 <= k < locations@.len() ==> (#[trigger] locations@[k]).lnum <= usize::MAX as u64,
    ensures
        ds@.len() == locations@.len(),
        forall|k: int|
            0 <= k < ds@.len() ==> (#[trigger] ds@[k]).i == locations@[k].lnum && ds@[k].text
                == locations@[k].text && ds@[k].level == level_of_type(locations@[k].typ),
{
    let mut ds: Vec<Diagnostic> = Vec::with_capacity(locations.len());
    let mut k: usize = 0;
    while k < locations.len()
        invariant
            k <= locations@.len(),
            ds@.len() == k,
            forall|j: int|
                0 <= j < locations@.len() ==> (#[trigger] locations@[j]).lnum <= usize::MAX
                    as u64,
            forall|j: int|
                0 <= j < k ==> (#[trigger] ds@[j]).i == locations@[j].lnum && ds@[j].text
                    == locations@[j].text && ds@[j].level == level_of_type(locations@[j].typ),
        decreases locations@.len() - k,
    {
        ds.push(to_diagnostic(&locations[k]));
        k += 1;
    }
    ds
}

/// All hunks of a payload as change runs, in input order.
pub fn to_changes(hunks: &Vec<Hunk>) -> (cs: Vec<Change>)
    requires
        forall|k: int|
            0 <= k < hunks@.len() ==> 1 <= (#[trigger] hunks@[k]).lnum && hunks@[k].lnum - 1
                <= usize::MAX as u64,
    ensures
        cs@.len() == hunks@.len(),
        forall|k: int|
            0 <= k < cs@.len() ==> (#[trigger] cs@[k]).i == hunks@[k].lnum - 1 && cs@[k].len
                == hunks@[k].len,
{
    let mut cs: Vec<Change> = Vec::with_capacity(hunks.len());
    let mut k: usize = 0;
    while k < hunks.len()
        invariant
            k <= hunks@.len(),
            cs@.len() == k,
            forall|j: int|
                0 <= j < hunks@.len() ==> 1 <= (#[trigger] hunks@[j]).lnum && hunks@[j].lnum - 1
                    <= usize::MAX as u64,
            forall|j: int|
                0 <= j < k ==> (#[trigger] cs@[j]).i == hunks@[j].lnum - 1 && cs@[j].len
                    == hunks@[j].len,
        decreases hunks@.len() - k,
    {
        cs.push(to_change(&hunks[k]));
        k += 1;
    }
    cs
}

/// Whether an editor mode string names one of the visual modes that keep
/// a selection active.
pub open spec fn is_visual_mode(mode: String) -> bool {
    mode@ == "v"@ || mode@ == "V"@ || mode@ == "CTRL-V"@
}

/// Builds the overlay state from raw editor positions: the 1-based
/// cursor and scroll lines become 0-based, the visible frame spans the
/// window height starting at the scroll line, and in a visual mode a
/// selection frame runs from the 1-based selection start to the cursor.
pub fn build_modifier(
    cursor: u64,
    scroll: u64,
    win_height: u64,
    mode: String,
    select_start: u64,
) -> (m: Modifier)
    requires
        1 <= cursor,
        1 <= scroll,
        1 <= select_start,
        scroll - 1 + win_height <= u64::MAX,
    ensures
        m.cursor == cursor - 1,
        m.visible_frame.top == scroll - 1,
        m.visible_frame.bottom == scroll - 1 + win_height,
        is_visual_mode(mode) ==> (m.select_frame matches Some(f) && f.top == select_start - 1
            && f.bottom == cursor - 1),
        !is_visual_mode(mode) ==> m.select_frame is None,
{
    let visible_frame = Frame { top: scroll - 1, bottom: scroll - 1 + win_height };
    let mut modifier = Modifier::new(cursor - 1, visible_frame);
    let is_visual = mode == "v".to_owned() || mode == "V".to_owned() || mode
        == "CTRL-V".to_owned();
    if is_visual {
        modifier.select_frame = Some(Frame { top: select_start - 1, bottom: cursor - 1 });
    }
    modifier
}

} // verus!
