//! What came back from `$EDITOR`.
//!
//! The same mechanism as `git commit`: write a file, run the editor on it,
//! read it back. Running it is the terminal's business; what the outcome means
//! is decided here.

use crate::ids::TabId;
use crate::text::{
    copy_of, decimal, numbers_are_told_apart, push_all, push_decimal, same_text,
};
use vstd::prelude::*;

verus! {

/// Under which an exit is a return rather than an edit, in milliseconds.
///
/// A GUI editor with no `--wait` forks and exits at once, and the client takes
/// the terminal back before anything has been typed. That is not detectable
/// with certainty — somebody can genuinely quit vim in a fifth of a second —
/// so it is reported rather than acted on.
pub const TOO_QUICK: u64 = 200;

/// How an edit ended.
#[derive(Debug, PartialEq, Eq)]
pub enum Edited {
    /// The file came back different. Carries the new text.
    Changed(String),
    /// The editor was opened and the file is as it was. Not an error: closing
    /// without saving is a way of saying no.
    Unchanged,
    /// The editor exited immediately with the file untouched, which is what a
    /// GUI editor missing its `--wait` looks like.
    Returned,
    /// The editor could not be run, or the file could not be read back.
    Failed(String),
}

/// How an edit ended, from what was handed over, what came back and how long
/// that took. A text that changed is taken however quickly it came back.
pub fn outcome(text: &str, back: String, elapsed_ms: u64) -> (r: Edited)
    ensures
        match r {
            Edited::Changed(s) => back@ != text@ && s == back,
            Edited::Returned => back@ == text@ && elapsed_ms < TOO_QUICK,
            Edited::Unchanged => back@ == text@ && elapsed_ms >= TOO_QUICK,
            Edited::Failed(_) => false,
        },
{
    if !same_text(back.as_str(), text) {
        Edited::Changed(back)
    } else if elapsed_ms < TOO_QUICK {
        Edited::Returned
    } else {
        Edited::Unchanged
    }
}

/// The file a tab is edited through.
pub open spec fn file_of(tab: TabId) -> Seq<char> {
    decimal(tab.0 as nat) + ".sql"@
}

/// The name of the file a tab is edited through.
///
/// `.sql`, so the editor's own filetype detection does the rest: that is the
/// whole of what makes highlighting and an LSP work without this crate knowing
/// they exist.
pub fn file_name(tab: TabId) -> (r: String)
    ensures
        r@ == file_of(tab),
{
    let mut out: String = String::new();
    push_decimal(&mut out, tab.0 as u128);
    push_all(&mut out, ".sql");
    out
}

/// Two tabs are never edited through one file.
pub proof fn a_tab_has_a_file_of_its_own(a: TabId, b: TabId)
    requires
        a != b,
    ensures
        file_of(a) != file_of(b),
{
    if file_of(a) == file_of(b) {
        let n = decimal(a.0 as nat).len() as int;
        assert(file_of(a).len() == file_of(b).len());
        assert(decimal(a.0 as nat) =~= file_of(a).take(n));
        assert(decimal(b.0 as nat) =~= file_of(b).take(n));
        numbers_are_told_apart(a.0 as nat, b.0 as nat);
    }
}

/// The message for an editor that exited straight away, which names the
/// setting that fixes it. `program` is as it would be quoted.
pub fn hurried(program: &str) -> (r: String)
    ensures
        r@ == program@
            + " exited straight away and the file is unchanged — a GUI editor needs its wait flag in `editor_args`"@,
{
    let mut out: String = copy_of(program);
    push_all(
        &mut out,
        " exited straight away and the file is unchanged — a GUI editor needs its wait flag in `editor_args`",
    );
    out
}

/// How an edit that could not be made ended: what could not be done, to what,
/// and why.
pub fn failed(verb: &str, what: &str, why: &str) -> (r: Edited)
    ensures
        r matches Edited::Failed(said) && said@ == "could not "@ + verb@ + " "@ + what@ + ": "@
            + why@,
{
    let mut out: String = copy_of("could not ");
    push_all(&mut out, verb);
    push_all(&mut out, " ");
    push_all(&mut out, what);
    push_all(&mut out, ": ");
    push_all(&mut out, why);
    Edited::Failed(out)
}

} // verus!
