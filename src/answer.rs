//! The operator's answer to the confirmation prompt, and whether a run may
//! delete anything.
use vstd::prelude::*;

verus! {

/// What `str::trim` leaves of a string.
pub uninterp spec fn trimmed_of(s: Seq<char>) -> Seq<char>;

/// What `str::to_lowercase` makes of a string.
pub uninterp spec fn lower_of(s: Seq<char>) -> Seq<char>;

/// Relies on `str::trim`: the string without leading and trailing white
/// space, which depends on the characters alone.
#[verifier::external_body]
fn trim_text(s: &str) -> (r: &str)
    ensures
        r@ == trimmed_of(s@),
{
    s.trim()
}

/// Relies on `str::to_lowercase`: the lower-case form of the string, which
/// depends on the characters alone.
#[verifier::external_body]
fn lowercase(s: &str) -> (r: String)
    ensures
        r@ == lower_of(s@),
{
    s.to_lowercase()
}

pub open spec fn spec_yes() -> Seq<char> {
    seq!['y', 'e', 's']
}

/// Whether an answer, already trimmed and lower-cased, is `yes`.
pub fn is_yes_answer(folded: &str) -> (r: bool)
    ensures
        r == (folded@ == spec_yes()),
{
    if folded.unicode_len() != 3 {
        return false;
    }
    let a = folded.get_char(0);
    let b = folded.get_char(1);
    let c = folded.get_char(2);
    let r = a == 'y' && b == 'e' && c == 's';
    if r {
        assert(folded@ =~= spec_yes());
    } else {
        assert(folded@ != spec_yes()) by {
            if folded@ == spec_yes() {
                assert(folded@[0] == 'y' && folded@[1] == 'e' && folded@[2] == 's');
            }
        }
    }
    r
}

/// Whether a line typed at the confirmation prompt agrees to the deletion:
/// trimmed and lower-cased, it must read `yes`.
pub fn confirms_deletion(input: &str) -> (r: bool)
    ensures
        r == (lower_of(trimmed_of(input@)) == spec_yes()),
{
    let t = trim_text(input);
    let l = lowercase(t);
    is_yes_answer(l.as_str())
}

/// Whether a run deletes anything: never in a dry run, and otherwise only
/// after the operator confirmed.
pub fn deletion_allowed(dry_run: bool, confirmed: bool) -> (r: bool)
    ensures
        r == (!dry_run && confirmed),
        dry_run ==> !r,
        !confirmed ==> !r,
{
    !dry_run && confirmed
}

/// What a run does once the scan is over.
#[derive(Clone, Copy, Debug, PartialEq, Eq, Structural)]
pub enum NextStep {
    /// Nothing was found: the run ends here.
    NothingFound,
    /// A dry run: the report was the whole of it.
    DryRunDone,
    /// Ask the operator before deleting.
    Confirm,
}

/// The step after a scan that found `found` directories.
pub fn next_after_scan(found: usize, dry_run: bool) -> (r: NextStep)
    ensures
        r == if found == 0 {
            NextStep::NothingFound
        } else if dry_run {
            NextStep::DryRunDone
        } else {
            NextStep::Confirm
        },
{
    if found == 0 {
        NextStep::NothingFound
    } else if dry_run {
        NextStep::DryRunDone
    } else {
        NextStep::Confirm
    }
}

} // verus!
