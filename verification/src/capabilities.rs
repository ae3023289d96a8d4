//! Dropping the capabilities of the sandboxed process.
use crate::error::JarError;
use crate::text::concat_text;
use vstd::prelude::*;

verus! {

/// An error of the `caps` crate.
#[verifier::external_type_specification]
#[verifier::external_body]
pub struct ExCapsError(caps::errors::CapsError);

/// Drops capabilities.
pub struct CapabilityManager;

/// A capability set of a thread.
#[derive(Debug, Clone, Copy, PartialEq, Eq, Structural)]
pub enum CapabilitySet {
    Effective,
    Permitted,
    Inheritable,
    Ambient,
}

/// The name a capability set goes by in error messages.
pub open spec fn set_name(set: CapabilitySet) -> Seq<char> {
    match set {
        CapabilitySet::Effective => "effective"@,
        CapabilitySet::Permitted => "permitted"@,
        CapabilitySet::Inheritable => "inheritable"@,
        CapabilitySet::Ambient => "ambient"@,
    }
}

/// The message of a capability set that could not be cleared.
pub open spec fn clear_failure_text(set: CapabilitySet, detail: Seq<char>) -> Seq<char> {
    "Failed to clear "@ + set_name(set) + " caps: "@ + detail
}

/// The sets that dropping capabilities clears, in this order: the effective,
/// permitted and inheritable sets, then the ambient set.
pub open spec fn clear_order() -> Seq<CapabilitySet> {
    seq![
        CapabilitySet::Effective,
        CapabilitySet::Permitted,
        CapabilitySet::Inheritable,
        CapabilitySet::Ambient,
    ]
}

/// A set whose clearing must succeed: failing to clear it ends the work with
/// an error. Failing to clear the ambient set is ignored.
pub open spec fn must_clear(set: CapabilitySet) -> bool {
    set is Effective || set is Permitted || set is Inheritable
}

/// How clearing one set went: done, or failed with this text.
pub open spec fn outcome_view(o: Result<(), String>) -> Result<(), Seq<char>> {
    match o {
        Ok(()) => Ok(()),
        Err(d) => Err(d@),
    }
}

/// The texts of outcomes.
pub open spec fn outcome_views(v: Seq<Result<(), String>>) -> Seq<Result<(), Seq<char>>> {
    v.map_values(|o: Result<(), String>| outcome_view(o))
}

/// From the `i`th on, the first set of `clear_order()` that must be cleared
/// and whose outcome in `outcomes` failed, with its message; else success.
pub open spec fn first_failure(outcomes: Seq<Result<(), Seq<char>>>, i: int) -> Result<(), Seq<char>>
    decreases outcomes.len() - i,
{
    if i < 0 || i >= outcomes.len() || i >= clear_order().len() {
        Ok(())
    } else {
        match outcomes[i] {
            Err(d) => if must_clear(clear_order()[i]) {
                Err(clear_failure_text(clear_order()[i], d))
            } else {
                first_failure(outcomes, i + 1)
            },
            Ok(()) => first_failure(outcomes, i + 1),
        }
    }
}

/// What dropping capabilities gives when clearing the sets of `clear_order()`
/// in turn went as `outcomes` says: the message of the first set that must be
/// cleared and was not, else success, whatever came of the other sets.
pub open spec fn drop_outcome(outcomes: Seq<Result<(), Seq<char>>>) -> Result<(), Seq<char>> {
    first_failure(outcomes, 0)
}

/// A failure text of the `caps` crate: `"caps error: "` and a message.
pub open spec fn is_caps_text(d: Seq<char>) -> bool {
    exists|t: Seq<char>| d == "caps error: "@ + t
}

/// `outcomes` are those of clearing the sets of `clear_order()` in turn, with
/// `caps` failure texts, up to and with the first set that must be cleared
/// and was not, or all of them.
pub open spec fn cleared_in_turn(outcomes: Seq<Result<(), Seq<char>>>) -> bool {
    let n = outcomes.len();
    &&& n <= clear_order().len()
    &&& forall|k: int|
        0 <= k < n ==> (#[trigger] outcomes[k] matches Err(d) ==> is_caps_text(d))
    &&& forall|k: int|
        0 <= k < n - 1 ==> !(must_clear(clear_order()[k]) && #[trigger] outcomes[k] is Err)
    &&& n == clear_order().len() || (n > 0 && must_clear(clear_order()[n - 1]) && outcomes[n
        - 1] is Err)
}

/// `sets` are the sets that `clear_set` was called with, one call each, in
/// turn, and `outcomes` what came of those calls: the first sets of
/// `clear_order()`, up to and with the first set that must be cleared and was
/// not, or all of them.
pub open spec fn calls_in_turn(sets: Seq<CapabilitySet>, outcomes: Seq<Result<(), Seq<char>>>) -> bool {
    &&& sets.len() == outcomes.len()
    &&& sets == clear_order().take(sets.len() as int)
    &&& cleared_in_turn(outcomes)
}

/// `r` is what dropping capabilities gives for `outcome`.
pub open spec fn gives(r: Result<(), JarError>, outcome: Result<(), Seq<char>>) -> bool {
    match outcome {
        Ok(()) => r is Ok,
        Err(m) => r matches Err(JarError::Execution(x)) && x@ == m,
    }
}

/// Clears a capability set of the calling thread, and gives back the set it
/// was asked to clear, with the outcome.
///
/// Calls `caps::clear(None, set)` with the `caps::CapSet` of the same name.
/// Nothing is stated of the outcome: it is the kernel's answer.
#[verifier::external_body]
fn clear_set(set: CapabilitySet) -> (r: (CapabilitySet, Result<(), caps::errors::CapsError>))
    ensures
        r.0 == set,
{
    let cset = match set {
        CapabilitySet::Effective => caps::CapSet::Effective,
        CapabilitySet::Permitted => caps::CapSet::Permitted,
        CapabilitySet::Inheritable => caps::CapSet::Inheritable,
        CapabilitySet::Ambient => caps::CapSet::Ambient,
    };
    (set, caps::clear(None, cset))
}

/// The text of an error of the `caps` crate.
///
/// Calls `<caps::errors::CapsError as Display>::fmt`, which writes
/// `"caps error: "` and the error's own message; the message is not stated.
#[verifier::external_body]
fn caps_error_text(e: &caps::errors::CapsError) -> (r: String)
    ensures
        exists|t: Seq<char>| r@ == "caps error: "@ + t,
{
    format!("{}", e)
}

impl CapabilityManager {
    /// The error of a capability set that could not be cleared.
    pub fn clear_failure(set: CapabilitySet, detail: &str) -> (r: JarError)
        ensures
            r matches JarError::Execution(m) && m@ == clear_failure_text(set, detail@),
    {
        let name = match set {
            CapabilitySet::Effective => "effective",
            CapabilitySet::Permitted => "permitted",
            CapabilitySet::Inheritable => "inheritable",
            CapabilitySet::Ambient => "ambient",
        };
        let mut m = concat_text("Failed to clear ", name);
        m.append(" caps: ");
        m.append(detail);
        JarError::Execution(m)
    }

    /// The sets to clear, in the order to clear them.
    pub fn clear_plan() -> (r: Vec<CapabilitySet>)
        ensures
            r@ == clear_order(),
    {
        let r = vec![
            CapabilitySet::Effective,
            CapabilitySet::Permitted,
            CapabilitySet::Inheritable,
            CapabilitySet::Ambient,
        ];
        assert(r@ =~= clear_order());
        r
    }

    /// Whether failing to clear `set` is an error.
    pub fn must_clear(set: CapabilitySet) -> (r: bool)
        ensures
            r == must_clear(set),
    {
        match set {
            CapabilitySet::Effective | CapabilitySet::Permitted | CapabilitySet::Inheritable => true,
            _ => false,
        }
    }

    /// What dropping capabilities gives when clearing the sets of
    /// `clear_plan()` in turn went as `outcomes` says.
    pub fn drop_result(outcomes: &Vec<Result<(), String>>) -> (r: Result<(), JarError>)
        ensures
            gives(r, drop_outcome(outcome_views(outcomes@))),
    {
        let ghost views = outcome_views(outcomes@);
        let plan = Self::clear_plan();
        let n = outcomes.len();
        let mut i: usize = 0;
        while i < n && i < plan.len()
            invariant
                i <= n,
                n == outcomes@.len(),
                views == outcome_views(outcomes@),
                plan@ == clear_order(),
                first_failure(views, 0) == first_failure(views, i as int),
            decreases n - i,
        {
            let set = plan[i];
            assert(views[i as int] == outcome_view(outcomes@[i as int]));
            match &outcomes[i] {
                Err(d) => {
                    if Self::must_clear(set) {
                        return Err(Self::clear_failure(set, d.as_str()));
                    }
                },
                Ok(()) => {},
            }
            i = i + 1;
        }
        Ok(())
    }

    /// Clears the sets of `clear_plan()` in turn, stopping at the first set
    /// that must be cleared and could not be; its failure is the result.
    pub fn drop_all_capabilities() -> (r: Result<(), JarError>)
        ensures
            exists|outcomes: Seq<Result<(), Seq<char>>>|
                #[trigger] cleared_in_turn(outcomes) && gives(r, drop_outcome(outcomes)),
            exists|sets: Seq<CapabilitySet>, outcomes: Seq<Result<(), Seq<char>>>|
                #[trigger] calls_in_turn(sets, outcomes) && gives(r, drop_outcome(outcomes)),
    {
        let plan = Self::clear_plan();
        let mut outcomes: Vec<Result<(), String>> = Vec::new();
        let mut i: usize = 0;
        let mut stopped = false;
        let ghost mut sets: Seq<CapabilitySet> = Seq::empty();
        while i < plan.len() && !stopped
            invariant
                plan@ == clear_order(),
                sets.len() == outcomes@.len(),
                sets == clear_order().take(sets.len() as int),
                i <= 4,
                stopped ==> i < 4,
                outcomes@.len() == i + (if stopped { 1int } else { 0int }),
                forall|k: int|
                    0 <= k < outcomes@.len() ==> (#[trigger] outcome_views(outcomes@)[k] matches Err(
                        d,
                    ) ==> is_caps_text(d)),
                forall|k: int|
                    0 <= k < i ==> !(must_clear(clear_order()[k]) && #[trigger] outcome_views(
                        outcomes@,
                    )[k] is Err),
                stopped ==> (must_clear(clear_order()[i as int]) && outcome_views(outcomes@)[i as int] is Err),
            decreases 4 - i + (if stopped { 0int } else { 1int }),
        {
            let set = plan[i];
            let (cleared, outcome) = clear_set(set);
            proof {
                sets = sets.push(cleared);
            }
            let o = match outcome {
                Ok(()) => Ok(()),
                Err(e) => {
                    let d = caps_error_text(&e);
                    assert(is_caps_text(d@));
                    Err(d)
                },
            };
            let failed = o.is_err();
            let ghost before = outcomes@;
            outcomes.push(o);
            assert(outcome_views(outcomes@) =~= outcome_views(before).push(outcome_view(o)));
            if failed && Self::must_clear(set) {
                stopped = true;
            } else {
                i = i + 1;
            }
        }
        let r = Self::drop_result(&outcomes);
        assert(cleared_in_turn(outcome_views(outcomes@)));
        assert(calls_in_turn(sets, outcome_views(outcomes@)));
        r
    }
}

proof fn lemma_first_failure_from(outcomes: Seq<Result<(), Seq<char>>>, i: int)
    requires
        cleared_in_turn(outcomes),
        0 <= i <= outcomes.len(),
    ensures
        outcomes.len() == clear_order().len() ==> first_failure(outcomes, i) == Ok::<(), Seq<char>>(()),
        outcomes.len() < clear_order().len() && i < outcomes.len() ==> (outcomes.last() matches Err(d)
            && first_failure(outcomes, i) == Err::<(), Seq<char>>(
            clear_failure_text(clear_order()[outcomes.len() - 1], d),
        )),
    decreases outcomes.len() - i,
{
    if i < outcomes.len() {
        lemma_first_failure_from(outcomes, i + 1);
        if i < outcomes.len() - 1 {
            assert(!(must_clear(clear_order()[i]) && outcomes[i] is Err));
        }
    }
}

/// Dropping capabilities succeeds only when `clear_set` was called with each
/// set of `clear_order()` (effective, permitted, inheritable, ambient), in
/// that order, and the effective, permitted and inheritable sets were cleared.
pub proof fn lemma_drop_success_cleared_every_set(
    sets: Seq<CapabilitySet>,
    outcomes: Seq<Result<(), Seq<char>>>,
)
    requires
        calls_in_turn(sets, outcomes),
        drop_outcome(outcomes) is Ok,
    ensures
        sets == clear_order(),
        outcomes[0] is Ok,
        outcomes[1] is Ok,
        outcomes[2] is Ok,
{
    lemma_first_failure_from(outcomes, 0);
    assert(outcomes.len() == clear_order().len());
    assert(sets =~= clear_order());
    assert(!(must_clear(clear_order()[0]) && outcomes[0] is Err));
    assert(!(must_clear(clear_order()[1]) && outcomes[1] is Err));
    assert(!(must_clear(clear_order()[2]) && outcomes[2] is Err));
}

/// When dropping capabilities fails, the last call of `clear_set` was for a
/// set that must be cleared, it failed, no set after it was touched, and the
/// error is that set's message with the failure's text.
pub proof fn lemma_drop_failure_names_last_set(
    sets: Seq<CapabilitySet>,
    outcomes: Seq<Result<(), Seq<char>>>,
)
    requires
        calls_in_turn(sets, outcomes),
        drop_outcome(outcomes) is Err,
    ensures
        0 < sets.len() < clear_order().len(),
        must_clear(sets.last()),
        outcomes.last() matches Err(d) && drop_outcome(outcomes) == Err::<(), Seq<char>>(
            clear_failure_text(sets.last(), d),
        ),
{
    lemma_first_failure_from(outcomes, 0);
    assert(outcomes.len() != clear_order().len());
    assert(sets[sets.len() - 1] == clear_order()[sets.len() - 1]);
}

} // verus!
