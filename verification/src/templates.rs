//! Looking a template up across several template roots: the roots are
//! searched in the order given and the first one that has the file wins; a
//! missing file moves on to the next root, any other read error stops the
//! search.
use vstd::prelude::*;
use vstd::string::*;

verus! {

/// What reading a template file under one root gave.
pub enum ReadOutcome {
    /// The file exists; its contents.
    Found(String),
    /// There is no such file under this root.
    Missing,
    /// Reading failed for another reason; the error's message.
    Failed(String),
}

/// The result of a lookup over all roots.
pub enum Lookup {
    /// The source of the template.
    Source(String),
    /// No root has the template.
    NotFound,
    /// A read failed; the message to report.
    Error(String),
}

/// The message reported when reading template `name` failed with `msg`.
pub open spec fn read_error_text(name: Seq<char>, msg: Seq<char>) -> Seq<char> {
    "failed to read template '"@ + name + "': "@ + msg
}

/// `r` is what a read outcome decides: `None` to go on with the next root.
pub open spec fn decides(name: Seq<char>, outcome: ReadOutcome, r: Option<Lookup>) -> bool {
    match outcome {
        ReadOutcome::Found(src) => r matches Some(Lookup::Source(s)) && s@ == src@,
        ReadOutcome::Missing => r is None,
        ReadOutcome::Failed(m) => r matches Some(Lookup::Error(e)) && e@ == read_error_text(name, m@),
    }
}

/// The outcome of looking `name` up through roots that gave `outcomes`, in
/// order: the first outcome that is not `Missing` decides.
pub open spec fn lookup_result(name: Seq<char>, outcomes: Seq<ReadOutcome>, r: Lookup) -> bool
    decreases outcomes.len(),
{
    if outcomes.len() == 0 {
        r is NotFound
    } else {
        match outcomes[0] {
            ReadOutcome::Found(src) => r matches Lookup::Source(s) && s@ == src@,
            ReadOutcome::Missing => lookup_result(name, outcomes.skip(1), r),
            ReadOutcome::Failed(m) => r matches Lookup::Error(e) && e@ == read_error_text(name, m@),
        }
    }
}

/// Decides, from what reading template `name` under one root gave, whether
/// the lookup ends here and with what.
pub fn lookup_step(name: &str, outcome: ReadOutcome) -> (r: Option<Lookup>)
    ensures
        decides(name@, outcome, r),
{
    match outcome {
        ReadOutcome::Found(src) => Some(Lookup::Source(src)),
        ReadOutcome::Missing => None,
        ReadOutcome::Failed(m) => {
            let mut e = String::new();
            e.append("failed to read template '");
            e.append(name);
            e.append("': ");
            e.append(m.as_str());
            proof {
                assert(e@ =~= read_error_text(name@, m@));
            }
            Some(Lookup::Error(e))
        },
    }
}

/// Looking up roots one `lookup_step` at a time, stopping at the first
/// decision and answering `NotFound` when no root decides, gives the
/// result of `lookup_result`.
pub proof fn law_steps_give_lookup(name: Seq<char>, outcomes: Seq<ReadOutcome>, i: int, r: Lookup)
    requires
        0 <= i < outcomes.len(),
        forall|j: int| 0 <= j < i ==> outcomes[j] is Missing,
        !(outcomes[i] is Missing),
        decides(name, outcomes[i], Some(r)),
    ensures
        lookup_result(name, outcomes, r),
    decreases i,
{
    if i > 0 {
        assert forall|j: int| 0 <= j < i - 1 implies outcomes.skip(1)[j] is Missing by {
            assert(outcomes.skip(1)[j] == outcomes[j + 1]);
        }
        law_steps_give_lookup(name, outcomes.skip(1), i - 1, r);
        assert(outcomes[0] is Missing);
    }
}

/// With several roots, the first root that has the template wins, and a
/// template that only a later root has is still found.
pub proof fn law_first_root_wins(name: Seq<char>, outcomes: Seq<ReadOutcome>, i: int, r: Lookup)
    requires
        0 <= i < outcomes.len(),
        forall|j: int| 0 <= j < i ==> outcomes[j] is Missing,
        outcomes[i] is Found,
        lookup_result(name, outcomes, r),
    ensures
        r matches Lookup::Source(s) && s@ == outcomes[i]->Found_0@,
    decreases i,
{
    if i > 0 {
        assert(outcomes[0] is Missing);
        assert forall|j: int| 0 <= j < i - 1 implies outcomes.skip(1)[j] is Missing by {
            assert(outcomes.skip(1)[j] == outcomes[j + 1]);
        }
        law_first_root_wins(name, outcomes.skip(1), i - 1, r);
    }
}

/// When no root has the template, the lookup answers `NotFound`.
pub proof fn law_all_missing_is_not_found(name: Seq<char>, outcomes: Seq<ReadOutcome>, r: Lookup)
    requires
        forall|j: int| 0 <= j < outcomes.len() ==> outcomes[j] is Missing,
        lookup_result(name, outcomes, r),
    ensures
        r is NotFound,
    decreases outcomes.len(),
{
    if outcomes.len() > 0 {
        assert(outcomes[0] is Missing);
        assert forall|j: int| 0 <= j < outcomes.len() - 1 implies outcomes.skip(1)[j] is Missing by {
            assert(outcomes.skip(1)[j] == outcomes[j + 1]);
        }
        law_all_missing_is_not_found(name, outcomes.skip(1), r);
    }
}

} // verus!
