//! What holds of the checkpoints of a thread whatever is recorded.

use crate::checkpoint::file_map::FileKey;
use crate::checkpoint::model::{
    self, BeforeImage, Identity, ImageIdentity, JournalEntry, StateModel, TurnModel,
};
use crate::checkpoint::plan::{self, PlannedRestore};
use crate::checkpoint::restore::{self, FileProbe, RestoreAttempt};
use crate::checkpoint::store;
use vstd::prelude::*;

verus! {

/// No two turns have the same id.
pub open spec fn distinct_turns(turns: Seq<TurnModel>) -> bool {
    forall|t: int, u: int|
        0 <= t < u < turns.len() ==> (#[trigger] turns[t]).id != (#[trigger] turns[u]).id
}

/// Of every captured file it is known what it should hold.
pub open spec fn captures_expected(state: StateModel) -> bool {
    forall|t: int, file: (Seq<char>, Seq<char>)|
        0 <= t < state.turns.len() && #[trigger] state.turns[t].before.contains_key(file)
            ==> state.expected.contains_key(file)
}

/// What holds of every state that a journal describes.
pub open spec fn consistent(state: StateModel) -> bool {
    distinct_turns(state.turns) && captures_expected(state)
}

proof fn lemma_without_turn(turns: Seq<TurnModel>, id: Seq<char>)
    ensures
        model::without_turn(turns, id).len() <= turns.len(),
        forall|t: int|
            0 <= t < model::without_turn(turns, id).len() ==> (#[trigger] model::without_turn(
                turns,
                id,
            )[t]).id != id,
        forall|t: int|
            0 <= t < model::without_turn(turns, id).len() ==> exists|u: int|
                0 <= u < turns.len() && #[trigger] turns[u] == #[trigger] model::without_turn(
                    turns,
                    id,
                )[t],
        distinct_turns(turns) ==> distinct_turns(model::without_turn(turns, id)),
        distinct_turns(turns) && model::has_turn(turns, id) ==> model::without_turn(
            turns,
            id,
        ).len() == turns.len() - 1,
        !model::has_turn(turns, id) ==> model::without_turn(turns, id) == turns,
    decreases turns.len(),
{
    if turns.len() > 0 {
        let before = turns.drop_last();
        lemma_without_turn(before, id);
        let kept = model::without_turn(before, id);
        let all = model::without_turn(turns, id);
        if distinct_turns(turns) {
            assert forall|t: int, u: int| 0 <= t < u < before.len() implies (
            #[trigger] before[t]).id != (#[trigger] before[u]).id by {
                assert(turns[t].id != turns[u].id);
            }
        }
        assert forall|t: int| 0 <= t < all.len() implies (#[trigger] all[t]).id != id by {
            if t < kept.len() {
                assert(all[t] == kept[t]);
            }
        }
        assert forall|t: int| 0 <= t < all.len() implies exists|u: int|
            0 <= u < turns.len() && #[trigger] turns[u] == #[trigger] all[t] by {
            if t < kept.len() {
                assert(all[t] == kept[t]);
                let u = choose|u: int| 0 <= u < before.len() && #[trigger] before[u] == kept[t];
                assert(turns[u] == all[t]);
            } else {
                assert(turns[turns.len() - 1] == all[t]);
            }
        }
        if distinct_turns(turns) && turns.last().id != id {
            assert forall|t: int, u: int| 0 <= t < u < all.len() implies (
            #[trigger] all[t]).id != (#[trigger] all[u]).id by {
                assert(all[t] == kept[t]);
                if u < kept.len() {
                    assert(all[u] == kept[u]);
                } else {
                    let v = choose|v: int|
                        0 <= v < before.len() && #[trigger] before[v] == kept[t];
                    assert(turns[v].id != turns[turns.len() - 1].id);
                }
            }
        }
        if model::has_turn(turns, id) {
            let u = choose|u: int| 0 <= u < turns.len() && (#[trigger] turns[u]).id == id;
            if turns.last().id == id {
                if distinct_turns(turns) && model::has_turn(before, id) {
                    let v = choose|v: int|
                        0 <= v < before.len() && (#[trigger] before[v]).id == id;
                    assert(turns[v].id != turns[turns.len() - 1].id);
                }
            } else {
                assert(before[u].id == id);
            }
        } else {
            if model::has_turn(before, id) {
                let v = choose|v: int| 0 <= v < before.len() && (#[trigger] before[v]).id == id;
                assert(turns[v].id == id);
            }
            assert(turns[turns.len() - 1].id != id);
            assert(all =~= turns);
        }
    }
}

proof fn lemma_with_restored_keeps(
    expected: Map<(Seq<char>, Seq<char>), Identity>,
    restored: Seq<model::RestoredIdentity>,
)
    ensures
        forall|file: (Seq<char>, Seq<char>)| #[trigger]
            expected.contains_key(file) ==> model::with_restored(
                expected,
                restored,
            ).contains_key(file),
    decreases restored.len(),
{
    if restored.len() > 0 {
        lemma_with_restored_keeps(expected, restored.drop_last());
    }
}

/// Every step keeps what holds of the states: no two turns share an id, and of every captured
/// file it is known what it should hold.
pub proof fn steps_keep_states_consistent(state: StateModel, entry: JournalEntry)
    requires
        consistent(state),
    ensures
        consistent(model::applied(state, entry)),
{
    let after = model::applied(state, entry);
    match entry {
        JournalEntry::BeginTurn { turn_id } => {
            if !model::has_turn(state.turns, turn_id@) {
                assert forall|t: int, u: int| 0 <= t < u < after.turns.len() implies (
                #[trigger] after.turns[t]).id != (#[trigger] after.turns[u]).id by {
                    assert(after.turns[t] == state.turns[t]);
                    if u < state.turns.len() {
                        assert(after.turns[u] == state.turns[u]);
                    }
                }
                assert forall|t: int, file: (Seq<char>, Seq<char>)|
                    0 <= t < after.turns.len() && #[trigger] after.turns[t].before.contains_key(
                        file,
                    ) implies after.expected.contains_key(file) by {
                    assert(after.turns[t] == state.turns[t]);
                    assert(state.turns[t].before.contains_key(file));
                }
            }
        },
        JournalEntry::BeforeImage { turn_id, file, before } => {
            model::lemma_turn_position(state.turns, turn_id@);
            let p = model::turn_position(state.turns, turn_id@);
            if p < state.turns.len() {
                assert forall|t: int, u: int| 0 <= t < u < after.turns.len() implies (
                #[trigger] after.turns[t]).id != (#[trigger] after.turns[u]).id by {
                    assert(state.turns[t].id != state.turns[u].id);
                }
                assert forall|t: int, f: (Seq<char>, Seq<char>)|
                    0 <= t < after.turns.len() && #[trigger] after.turns[t].before.contains_key(
                        f,
                    ) implies after.expected.contains_key(f) by {
                    if f != file.deep_view() {
                        assert(state.turns[t].before.contains_key(f));
                    }
                }
            }
        },
        JournalEntry::AfterImage { file, after: image } => {
            assert forall|t: int, f: (Seq<char>, Seq<char>)|
                0 <= t < after.turns.len() && #[trigger] after.turns[t].before.contains_key(
                    f,
                ) implies after.expected.contains_key(f) by {
                assert(state.turns[t].before.contains_key(f));
            }
        },
        JournalEntry::Restore { restored } => {
            lemma_with_restored_keeps(state.expected, restored@);
            assert forall|t: int, f: (Seq<char>, Seq<char>)|
                0 <= t < after.turns.len() && #[trigger] after.turns[t].before.contains_key(
                    f,
                ) implies after.expected.contains_key(f) by {
                assert(state.turns[t].before.contains_key(f));
                assert(state.expected.contains_key(f));
            }
        },
        JournalEntry::DiscardFromTurn { turn_id } => {
            model::lemma_turn_position(state.turns, turn_id@);
            let p = model::turn_position(state.turns, turn_id@);
            if p < state.turns.len() {
                assert forall|t: int, u: int| 0 <= t < u < after.turns.len() implies (
                #[trigger] after.turns[t]).id != (#[trigger] after.turns[u]).id by {
                    assert(state.turns[t].id != state.turns[u].id);
                }
                assert forall|t: int, f: (Seq<char>, Seq<char>)|
                    0 <= t < after.turns.len() && #[trigger] after.turns[t].before.contains_key(
                        f,
                    ) implies after.expected.contains_key(f) by {
                    assert(state.turns[t].before.contains_key(f));
                    assert(model::captured(after.turns, f));
                }
            }
        },
        JournalEntry::PruneTurn { turn_id } => {
            lemma_without_turn(state.turns, turn_id@);
            assert forall|t: int, f: (Seq<char>, Seq<char>)|
                0 <= t < after.turns.len() && #[trigger] after.turns[t].before.contains_key(
                    f,
                ) implies after.expected.contains_key(f) by {
                assert(after.turns[t] == model::without_turn(state.turns, turn_id@)[t]);
                let u = choose|u: int|
                    0 <= u < state.turns.len() && #[trigger] state.turns[u] == after.turns[t];
                assert(state.turns[u].before.contains_key(f));
                assert(model::captured(after.turns, f));
            }
        },
    }
}

/// Every state that a history of steps leads to is consistent.
pub proof fn histories_are_consistent(history: Seq<JournalEntry>)
    ensures
        consistent(model::replayed(model::initial_state(), history)),
    decreases history.len(),
{
    if history.len() > 0 {
        histories_are_consistent(history.drop_last());
        steps_keep_states_consistent(
            model::replayed(model::initial_state(), history.drop_last()),
            history.last(),
        );
    }
}

/// Reading a journal again from its beginning leads to the state that the steps led to one by
/// one: the steps of a later session go on from the state of an earlier one.
pub proof fn replay_goes_on(
    state: StateModel,
    earlier: Seq<JournalEntry>,
    later: Seq<JournalEntry>,
)
    ensures
        model::replayed(state, earlier + later) == model::replayed(
            model::replayed(state, earlier),
            later,
        ),
    decreases later.len(),
{
    if later.len() == 0 {
        assert(earlier + later =~= earlier);
    } else {
        replay_goes_on(state, earlier, later.drop_last());
        assert((earlier + later).drop_last() =~= earlier + later.drop_last());
    }
}

/// A turn that has begun does not begin again.
pub proof fn beginning_twice_is_beginning_once(state: StateModel, turn_id: String)
    ensures
        ({
            let entry = JournalEntry::BeginTurn { turn_id };
            let once = model::applied(state, entry);
            model::applied(once, entry) == once
        }),
{
    let entry = JournalEntry::BeginTurn { turn_id };
    let once = model::applied(state, entry);
    if !model::has_turn(state.turns, turn_id@) {
        assert(once.turns[state.turns.len() as int].id == turn_id@);
    }
}

/// The image that a turn captured of a file first stays, whatever else is recorded while the
/// turn is kept.
pub proof fn first_image_of_a_turn_stays(
    state: StateModel,
    entry: JournalEntry,
    t: int,
    file: (Seq<char>, Seq<char>),
)
    requires
        0 <= t < state.turns.len(),
        state.turns[t].before.contains_key(file),
        !(entry is DiscardFromTurn),
        !(entry is PruneTurn),
    ensures
        model::applied(state, entry).turns[t].before.contains_key(file),
        model::applied(state, entry).turns[t].before[file] == state.turns[t].before[file],
        model::applied(state, entry).turns[t].id == state.turns[t].id,
{
    if let JournalEntry::BeforeImage { turn_id, .. } = entry {
        model::lemma_turn_position(state.turns, turn_id@);
    }
}

/// Beginning a turn keeps the number of turns within the limit, and the new turn is kept.
pub proof fn kept_turns_are_limited(state: StateModel, id: Seq<char>, steps: Seq<JournalEntry>)
    requires
        distinct_turns(state.turns),
        state.turns.len() <= store::MAX_RETAINED_TURNS,
        store::begin_steps(state, id, steps),
    ensures
        model::replayed(state, steps).turns.len() <= store::MAX_RETAINED_TURNS,
        model::has_turn(model::replayed(state, steps).turns, id),
{
    reveal_with_fuel(model::replayed, 3);
    if !model::has_turn(state.turns, id) {
        let one = model::applied(state, steps[0]);
        assert(steps.take(1).drop_last() =~= Seq::empty());
        assert forall|t: int, u: int| 0 <= t < u < one.turns.len() implies (
        #[trigger] one.turns[t]).id != (#[trigger] one.turns[u]).id by {
            assert(one.turns[t] == state.turns[t]);
            if u < state.turns.len() {
                assert(one.turns[u] == state.turns[u]);
            }
        }
        assert(one.turns[state.turns.len() as int].id == id);
        if state.turns.len() >= store::MAX_RETAINED_TURNS {
            assert(steps.drop_last() =~= seq![steps[0]]);
            assert(seq![steps[0]].drop_last() =~= Seq::empty());
            assert(model::replayed(state, steps.drop_last()) == one);
            let oldest = state.turns[0].id;
            assert(one.turns[0].id == oldest);
            lemma_without_turn(one.turns, oldest);
            let last = one.turns.last();
            assert(last.id != oldest);
            assert(model::without_turn(one.turns, oldest).last() == last);
            let after = model::without_turn(one.turns, oldest);
            assert(after[after.len() - 1].id == id);
        } else {
            assert(steps.drop_last() =~= Seq::empty());
            assert(model::replayed(state, steps) == one);
        }
    }
}

/// A turn that is discarded is gone, together with all after it; those before it stay as they
/// were; and nothing is expected any more of files that no kept turn captured.
pub proof fn discarding_keeps_earlier_turns(state: StateModel, turn_id: String)
    requires
        distinct_turns(state.turns),
        model::has_turn(state.turns, turn_id@),
    ensures
        ({
            let after = model::applied(state, JournalEntry::DiscardFromTurn { turn_id });
            let t = model::turn_position(state.turns, turn_id@);
            &&& after.turns == state.turns.take(t)
            &&& !model::has_turn(after.turns, turn_id@)
            &&& forall|file: (Seq<char>, Seq<char>)| #[trigger]
                after.expected.contains_key(file) ==> model::captured(after.turns, file)
        }),
{
    model::lemma_turn_position(state.turns, turn_id@);
    let t = model::turn_position(state.turns, turn_id@);
    let kept = state.turns.take(t);
    if model::has_turn(kept, turn_id@) {
        let u = choose|u: int| 0 <= u < kept.len() && (#[trigger] kept[u]).id == turn_id@;
        assert(state.turns[u].id == turn_id@);
    }
}

/// There is nothing to restore before a turn that has not begun, or that was discarded.
pub proof fn nothing_to_restore_before_an_unknown_turn(
    state: StateModel,
    id: Seq<char>,
    plan: Seq<PlannedRestore>,
)
    requires
        !model::has_turn(state.turns, id),
        plan::is_restore_plan(plan, state, id),
    ensures
        plan.len() == 0,
{
    model::lemma_turn_position(state.turns, id);
    assert(plan::turns_from(state, id) =~= Seq::empty());
    if plan.len() > 0 {
        assert(plan::earliest(plan::turns_from(state, id), plan[0].file.deep_view()) == Some(
            plan[0].target.deep_view(),
        ));
    }
}

/// A restore plan is determined by the state and the turn: two plans for them list the same
/// files in the same order, with the same contents.
pub proof fn restore_plan_is_unique(
    state: StateModel,
    id: Seq<char>,
    a: Seq<PlannedRestore>,
    b: Seq<PlannedRestore>,
)
    requires
        plan::is_restore_plan(a, state, id),
        plan::is_restore_plan(b, state, id),
    ensures
        a.len() == b.len(),
        forall|i: int|
            0 <= i < a.len() ==> (#[trigger] a[i]).file.deep_view() == b[i].file.deep_view()
                && a[i].target.deep_view() == b[i].target.deep_view()
                && a[i].expected_current.deep_view() == b[i].expected_current.deep_view(),
{
    lemma_plan_prefix(state, id, a, b, a.len() as int);
    lemma_plan_prefix(state, id, b, a, b.len() as int);
}

/// Plan `a` agrees with plan `b` in its first `n` files.
proof fn lemma_plan_prefix(
    state: StateModel,
    id: Seq<char>,
    a: Seq<PlannedRestore>,
    b: Seq<PlannedRestore>,
    n: int,
)
    requires
        plan::is_restore_plan(a, state, id),
        plan::is_restore_plan(b, state, id),
        0 <= n <= a.len(),
    ensures
        n <= b.len(),
        forall|i: int|
            0 <= i < n ==> (#[trigger] a[i]).file.deep_view() == b[i].file.deep_view()
                && a[i].target.deep_view() == b[i].target.deep_view()
                && a[i].expected_current.deep_view() == b[i].expected_current.deep_view(),
    decreases n,
{
    if n > 0 {
        lemma_plan_prefix(state, id, a, b, n - 1);
        let turns = plan::turns_from(state, id);
        let key = a[n - 1].file.deep_view();
        assert(plan::earliest(turns, key) is Some);
        let j = choose|j: int| 0 <= j < b.len() && (#[trigger] b[j]).file.deep_view() == key;
        // The file stands in `b` at the same place.
        if j < n - 1 {
            assert(a[j].file.deep_view() == key);
            plan::file_order_total(key, key);
            assert(plan::file_before(a[j].file.deep_view(), a[n - 1].file.deep_view()));
        } else if j > n - 1 {
            let other = b[n - 1].file.deep_view();
            assert(plan::file_before(other, key));
            assert(plan::earliest(turns, other) is Some);
            let k = choose|k: int| 0 <= k < a.len() && (#[trigger] a[k]).file.deep_view() == other;
            plan::file_order_total(other, key);
            if k < n - 1 {
                assert(b[k].file.deep_view() == other);
                assert(plan::file_before(b[k].file.deep_view(), b[n - 1].file.deep_view()));
                plan::file_order_total(other, other);
            } else if k > n - 1 {
                assert(plan::file_before(a[n - 1].file.deep_view(), a[k].file.deep_view()));
            }
        }
        assert(plan::earliest(turns, b[n - 1].file.deep_view()) == Some(
            b[n - 1].target.deep_view(),
        ));
    }
}

/// Of every file of a restore plan it is known what it should hold by now.
pub proof fn planned_files_are_expected(
    state: StateModel,
    id: Seq<char>,
    plan: Seq<PlannedRestore>,
    i: int,
)
    requires
        consistent(state),
        plan::is_restore_plan(plan, state, id),
        0 <= i < plan.len(),
    ensures
        plan[i].expected_current is Some,
{
    let turns = plan::turns_from(state, id);
    let file = plan[i].file.deep_view();
    model::lemma_turn_position(state.turns, id);
    assert(plan::earliest(turns, file) is Some);
    plan::earliest_is_from_the_first_capture(turns, file);
    let t = choose|t: int| 0 <= t < turns.len() && (#[trigger] turns[t]).before.contains_key(file);
    let u = t + model::turn_position(state.turns, id);
    assert(state.turns[u] == turns[t]);
    assert(state.turns[u].before.contains_key(file));
    assert(plan[i].expected_current.deep_view() == plan::expectation(state, file));
}

/// After a restore that was recorded, a restored file is expected to hold what it was restored
/// to.
pub proof fn restored_contents_are_expected(
    expected: Map<(Seq<char>, Seq<char>), Identity>,
    identities: Seq<((Seq<char>, Seq<char>), Identity)>,
    i: int,
)
    requires
        0 <= i < identities.len(),
        forall|j: int, k: int|
            0 <= j < k < identities.len() ==> (#[trigger] identities[j]).0 != (
            #[trigger] identities[k]).0,
    ensures
        store::with_identities(expected, identities).contains_key(identities[i].0),
        store::with_identities(expected, identities)[identities[i].0] == identities[i].1,
    decreases identities.len(),
{
    let before = identities.drop_last();
    if i < before.len() {
        assert forall|j: int, k: int| 0 <= j < k < before.len() implies (
        #[trigger] before[j]).0 != (#[trigger] before[k]).0 by {
            assert(identities[j].0 != identities[k].0);
        }
        restored_contents_are_expected(expected, before, i);
        assert(before[i] == identities[i]);
        assert(identities[i].0 != identities[identities.len() - 1].0);
    }
}

/// Removing the blobs that no turn needs leaves every blob that a restore could read.
pub proof fn needed_blobs_stay(turns: Seq<TurnModel>, names: Seq<Seq<char>>, name: Seq<char>)
    requires
        store::unneeded(turns, names).contains(name),
    ensures
        !store::referenced(turns, name),
        names.contains(name),
    decreases names.len(),
{
    if names.len() > 0 {
        let before = store::unneeded(turns, names.drop_last());
        let k = choose|k: int|
            0 <= k < store::unneeded(turns, names).len() && store::unneeded(turns, names)[k]
                == name;
        if k < before.len() {
            assert(before[k] == name);
            needed_blobs_stay(turns, names.drop_last(), name);
            let j = choose|j: int| 0 <= j < names.drop_last().len() && names.drop_last()[j] == name;
            assert(names[j] == name);
        } else {
            assert(names[names.len() - 1] == name);
        }
    }
}

/// What a planned file holds after a restore: what it was restored to, or else what it held.
pub open spec fn held_after(
    planned: PlannedRestore,
    current: ImageIdentity,
    attempt: RestoreAttempt,
) -> Identity {
    match restore::inspected(planned, FileProbe::Current(current)) {
        Some(file) if restore::result_of(file, attempt) is Restored => file.target,
        _ => current.deep_view(),
    }
}

/// Whether nothing got in the way of an attempt to bring a file back.
pub open spec fn undisturbed(current: ImageIdentity, attempt: RestoreAttempt) -> bool {
    &&& attempt.probe matches FileProbe::Current(again) && again.deep_view() == current.deep_view()
    &&& attempt.write_error is None
}

/// A restore brings a file that only managed tools changed back to what it held before the turn:
/// whatever file the turn or a later one captured, where it holds what is expected of it and
/// nothing gets in the way, it holds afterwards the first image that these turns captured of it.
pub proof fn managed_changes_are_undone(
    state: StateModel,
    id: Seq<char>,
    plan: Seq<PlannedRestore>,
    file: (Seq<char>, Seq<char>),
    current: ImageIdentity,
    attempt: RestoreAttempt,
)
    requires
        plan::is_restore_plan(plan, state, id),
        model::captured(plan::turns_from(state, id), file),
        plan::expectation(state, file) == Some(current.deep_view()),
        undisturbed(current, attempt),
    ensures
        exists|i: int|
            0 <= i < plan.len() && (#[trigger] plan[i]).file.deep_view() == file && Some(
                held_after(plan[i], current, attempt),
            ) == plan::earliest(plan::turns_from(state, id), file),
{
    let turns = plan::turns_from(state, id);
    plan::earliest_is_from_the_first_capture(turns, file);
    let i = choose|i: int| 0 <= i < plan.len() && (#[trigger] plan[i]).file.deep_view() == file;
    assert(plan::earliest(turns, plan[i].file.deep_view()) == Some(plan[i].target.deep_view()));
    assert(plan[i].expected_current.deep_view() == Some(current.deep_view()));
}

/// A restore leaves a file alone that was edited by hand since, unless the file was not there
/// before the turn.
pub proof fn edits_by_hand_are_kept(
    planned: PlannedRestore,
    current: ImageIdentity,
    attempt: RestoreAttempt,
)
    requires
        planned.expected_current.deep_view() != Some(current.deep_view()),
        !(planned.target.deep_view() is Absent),
    ensures
        held_after(planned, current, attempt) == current.deep_view(),
{
}

/// The state after a restore was recorded; the same state where there was nothing to record.
pub open spec fn after_restore(
    state: StateModel,
    identities: Seq<((Seq<char>, Seq<char>), Identity)>,
) -> StateModel {
    StateModel {
        turns: state.turns,
        expected: store::with_identities(state.expected, identities),
    }
}

/// Whether the files of a plan hold what a restore left in them: a restored file what it was
/// restored to, and every other one what it was found to hold.
pub open spec fn left_by_restore(
    held: Map<(Seq<char>, Seq<char>), Identity>,
    plan: Seq<PlannedRestore>,
    probes: Seq<FileProbe>,
    identities: Seq<((Seq<char>, Seq<char>), Identity)>,
) -> bool {
    &&& forall|k: int|
        0 <= k < identities.len() ==> held[(#[trigger] identities[k]).0] == identities[k].1
    &&& forall|i: int|
        0 <= i < plan.len() && probes[i] is Current && !is_restored(
            identities,
            (#[trigger] plan[i]).file.deep_view(),
        ) ==> held[plan[i].file.deep_view()] == probes[i]->Current_0.deep_view()
}

/// Whether a file was restored.
pub open spec fn is_restored(
    identities: Seq<((Seq<char>, Seq<char>), Identity)>,
    file: (Seq<char>, Seq<char>),
) -> bool {
    exists|k: int| 0 <= k < identities.len() && (#[trigger] identities[k]).0 == file
}

/// Whether every file of a plan was found to hold what it holds.
pub open spec fn finds(
    probes: Seq<FileProbe>,
    plan: Seq<PlannedRestore>,
    held: Map<(Seq<char>, Seq<char>), Identity>,
) -> bool {
    &&& probes.len() == plan.len()
    &&& forall|i: int|
        0 <= i < plan.len() ==> (#[trigger] probes[i]) is Current
            && probes[i]->Current_0.deep_view() == held[plan[i].file.deep_view()]
}

/// Where nothing is skipped and nothing fails, every file is restored.
proof fn lemma_all_restored(
    files: Seq<restore::InspectedModel>,
    attempts: Seq<RestoreAttempt>,
    n: int,
)
    requires
        0 <= n <= files.len(),
        restore::skipped_of(files, attempts, n).len() == 0,
        restore::failed_of(files, attempts, n).len() == 0,
    ensures
        restore::identities_of(files, attempts, n).len() == n,
        forall|k: int|
            0 <= k < n ==> restore::result_of(#[trigger] files[k], attempts[k]) is Restored
                && restore::identities_of(files, attempts, n)[k] == (files[k].file, files[k].target),
    decreases n,
{
    if n > 0 {
        lemma_all_restored(files, attempts, n - 1);
    }
}

/// A planned file that does not drop out is among the inspected ones.
proof fn lemma_is_inspected(
    plan: Seq<PlannedRestore>,
    probes: Seq<FileProbe>,
    n: int,
    i: int,
) -> (k: int)
    requires
        0 <= i < n <= plan.len(),
        restore::inspected(plan[i], probes[i]) is Some,
    ensures
        0 <= k < restore::all_inspected(plan, probes, n).len(),
        restore::inspected(plan[i], probes[i]) == Some(
            restore::all_inspected(plan, probes, n)[k],
        ),
    decreases n,
{
    if i < n - 1 {
        lemma_is_inspected(plan, probes, n - 1, i)
    } else {
        restore::all_inspected(plan, probes, n).len() - 1
    }
}

/// An inspected file is a planned one that does not drop out.
proof fn lemma_is_planned(
    plan: Seq<PlannedRestore>,
    probes: Seq<FileProbe>,
    n: int,
    k: int,
) -> (i: int)
    requires
        0 <= n <= plan.len(),
        0 <= k < restore::all_inspected(plan, probes, n).len(),
    ensures
        0 <= i < n,
        restore::inspected(plan[i], probes[i]) == Some(
            restore::all_inspected(plan, probes, n)[k],
        ),
    decreases n,
{
    if k < restore::all_inspected(plan, probes, n - 1).len() {
        lemma_is_planned(plan, probes, n - 1, k)
    } else {
        n - 1
    }
}

/// Where every planned file drops out, no file is left.
proof fn lemma_nothing_inspected(plan: Seq<PlannedRestore>, probes: Seq<FileProbe>, n: int)
    requires
        0 <= n <= plan.len(),
        forall|i: int|
            0 <= i < n ==> restore::inspected(#[trigger] plan[i], probes[i]) is None,
    ensures
        restore::all_inspected(plan, probes, n) == Seq::<restore::InspectedModel>::empty(),
    decreases n,
{
    if n > 0 {
        lemma_nothing_inspected(plan, probes, n - 1);
        assert(restore::inspected(plan[n - 1], probes[n - 1]) is None);
    }
}

/// A file that was not restored is expected to hold what it was expected to hold before.
proof fn lemma_other_expectations_stay(
    expected: Map<(Seq<char>, Seq<char>), Identity>,
    identities: Seq<((Seq<char>, Seq<char>), Identity)>,
    file: (Seq<char>, Seq<char>),
)
    requires
        !is_restored(identities, file),
    ensures
        store::with_identities(expected, identities).contains_key(file) == expected.contains_key(
            file,
        ),
        expected.contains_key(file) ==> store::with_identities(expected, identities)[file]
            == expected[file],
    decreases identities.len(),
{
    if identities.len() > 0 {
        let before = identities.drop_last();
        assert(identities[identities.len() - 1].0 != file);
        if is_restored(before, file) {
            let k = choose|k: int| 0 <= k < before.len() && (#[trigger] before[k]).0 == file;
            assert(identities[k].0 == file);
        }
        lemma_other_expectations_stay(expected, before, file);
    }
}

/// Whether a restore of a plan skipped nothing and nothing failed in it, and its files hold what it
/// left in them. `identities` are the restored files and what they were restored to.
pub open spec fn completed_restore(
    plan: Seq<PlannedRestore>,
    probes: Seq<FileProbe>,
    attempts: Seq<RestoreAttempt>,
    identities: Seq<((Seq<char>, Seq<char>), Identity)>,
    held: Map<(Seq<char>, Seq<char>), Identity>,
) -> bool {
    let files = restore::all_inspected(plan, probes, plan.len() as int);
    &&& probes.len() == plan.len()
    &&& attempts.len() == files.len()
    &&& restore::skipped_of(files, attempts, files.len() as int).len() == 0
    &&& restore::failed_of(files, attempts, files.len() as int).len() == 0
    &&& identities == restore::identities_of(files, attempts, files.len() as int)
    &&& left_by_restore(held, plan, probes, identities)
}

/// After a complete restore a planned file holds what it should hold, or managed tools had left it
/// as it was.
proof fn lemma_completed_file(
    state: StateModel,
    id: Seq<char>,
    plan: Seq<PlannedRestore>,
    probes: Seq<FileProbe>,
    attempts: Seq<RestoreAttempt>,
    identities: Seq<((Seq<char>, Seq<char>), Identity)>,
    held: Map<(Seq<char>, Seq<char>), Identity>,
    i: int,
)
    requires
        plan::is_restore_plan(plan, state, id),
        completed_restore(plan, probes, attempts, identities, held),
        0 <= i < plan.len(),
    ensures
        ({
            let file = plan[i].file.deep_view();
            let target = plan[i].target.deep_view();
            held[file] == target || plan::expectation(after_restore(state, identities), file)
                == Some(target)
        }),
{
    let files = restore::all_inspected(plan, probes, plan.len() as int);
    let file = plan[i].file.deep_view();
    lemma_all_restored(files, attempts, files.len() as int);
    if restore::inspected(plan[i], probes[i]) is Some {
        let found = restore::inspected(plan[i], probes[i])->0;
        assert(found.file == file && found.target == plan[i].target.deep_view());
        let k = lemma_is_inspected(plan, probes, plan.len() as int, i);
        assert(restore::result_of(files[k], attempts[k]) is Restored);
        assert(held[identities[k].0] == identities[k].1);
    } else {
        if is_restored(identities, file) {
            let k = choose|k: int| 0 <= k < identities.len() && (#[trigger] identities[k]).0 == file;
            assert(restore::result_of(files[k], attempts[k]) is Restored);
            let other = lemma_is_planned(plan, probes, plan.len() as int, k);
            assert(plan[other].file.deep_view() == plan[i].file.deep_view());
            lemma_planned_once(plan, other, i);
        }
        lemma_other_expectations_stay(state.expected, identities, file);
        assert(plan[i].expected_current.deep_view() == plan::expectation(state, file));
    }
}

/// No file is planned twice.
proof fn lemma_planned_once(plan: Seq<PlannedRestore>, a: int, b: int)
    requires
        plan::sorted_plan(plan),
        0 <= a < plan.len(),
        0 <= b < plan.len(),
        plan[a].file.deep_view() == plan[b].file.deep_view(),
    ensures
        a == b,
{
    let file = plan[a].file.deep_view();
    plan::file_order_total(file, file);
    if a < b {
        assert(plan::file_before(plan[a].file.deep_view(), plan[b].file.deep_view()));
    } else if b < a {
        assert(plan::file_before(plan[b].file.deep_view(), plan[a].file.deep_view()));
    }
}

/// After a restore that skipped nothing and in which nothing failed, and with no file or turn
/// changed since, a second restore to the same turn has nothing to do: of the files that it looks
/// at none is left, so that it reports none, writes none and records nothing.
pub proof fn second_restore_changes_nothing(
    state: StateModel,
    id: Seq<char>,
    plan: Seq<PlannedRestore>,
    probes: Seq<FileProbe>,
    attempts: Seq<RestoreAttempt>,
    identities: Seq<((Seq<char>, Seq<char>), Identity)>,
    held: Map<(Seq<char>, Seq<char>), Identity>,
    again: Seq<PlannedRestore>,
    probes_again: Seq<FileProbe>,
)
    requires
        plan::is_restore_plan(plan, state, id),
        completed_restore(plan, probes, attempts, identities, held),
        plan::is_restore_plan(again, after_restore(state, identities), id),
        finds(probes_again, again, held),
    ensures
        ({
            let files = restore::all_inspected(again, probes_again, again.len() as int);
            let none = Seq::<RestoreAttempt>::empty();
            &&& files.len() == 0
            &&& restore::restored_of(files, none, 0).len() == 0
            &&& restore::skipped_of(files, none, 0).len() == 0
            &&& restore::failed_of(files, none, 0).len() == 0
            &&& restore::identities_of(files, none, 0).len() == 0
        }),
{
    let turns = plan::turns_from(state, id);
    let after = after_restore(state, identities);
    assert(plan::turns_from(after, id) == turns);
    assert forall|j: int| 0 <= j < again.len() implies restore::inspected(
        #[trigger] again[j],
        probes_again[j],
    ) is None by {
        let file = again[j].file.deep_view();
        assert(probes_again[j] is Current);
        assert(plan::earliest(turns, file) == Some(again[j].target.deep_view()));
        let i = choose|i: int| 0 <= i < plan.len() && (#[trigger] plan[i]).file.deep_view() == file;
        assert(plan::earliest(turns, plan[i].file.deep_view()) == Some(plan[i].target.deep_view()));
        lemma_completed_file(state, id, plan, probes, attempts, identities, held, i);
        assert(again[j].expected_current.deep_view() == plan::expectation(after, file));
    }
    lemma_nothing_inspected(again, probes_again, again.len() as int);
}

/// An image that a turn captures is that turn's image of the file, unless the turn has one, and the
/// file is expected to hold it. Nothing else changes.
pub proof fn captured_images_belong_to_their_turn(
    state: StateModel,
    turn_id: String,
    file: FileKey,
    before: BeforeImage,
    t: int,
    other: (Seq<char>, Seq<char>),
)
    requires
        distinct_turns(state.turns),
        0 <= t < state.turns.len(),
        state.turns[t].id == turn_id@,
    ensures
        ({
            let after = model::applied(state, JournalEntry::BeforeImage { turn_id, file, before });
            let key = file.deep_view();
            &&& after.turns.len() == state.turns.len()
            &&& after.turns[t].before.contains_key(key)
            &&& !state.turns[t].before.contains_key(key) ==> after.turns[t].before[key]
                == before.deep_view()
            &&& other != key ==> (after.turns[t].before.contains_key(other)
                <==> state.turns[t].before.contains_key(other))
            &&& after.expected.contains_key(key)
            &&& after.expected[key] == before.deep_view()
            &&& other != key && state.expected.contains_key(other) ==> after.expected.contains_key(
                other,
            ) && after.expected[other] == state.expected[other]
            &&& forall|u: int|
                0 <= u < state.turns.len() && u != t ==> (#[trigger] after.turns[u])
                    == state.turns[u]
        }),
{
    model::lemma_turn_position(state.turns, turn_id@);
    let p = model::turn_position(state.turns, turn_id@);
    if p < t {
        assert(state.turns[p].id != state.turns[t].id);
    }
}

/// What a managed tool left in a file is what the file is expected to hold, and captures stay as
/// they are; so it is after a restore with what the files were restored to.
pub proof fn written_contents_are_expected(
    state: StateModel,
    file: FileKey,
    after: ImageIdentity,
    other: (Seq<char>, Seq<char>),
)
    ensures
        ({
            let next = model::applied(state, JournalEntry::AfterImage { file, after });
            &&& next.turns == state.turns
            &&& next.expected.contains_key(file.deep_view())
            &&& next.expected[file.deep_view()] == after.deep_view()
            &&& other != file.deep_view() ==> (next.expected.contains_key(other)
                <==> state.expected.contains_key(other)) && (state.expected.contains_key(other)
                ==> next.expected[other] == state.expected[other])
        }),
{
}

/// A turn begins without images, behind the turns before it.
pub proof fn turns_begin_without_images(state: StateModel, turn_id: String)
    requires
        !model::has_turn(state.turns, turn_id@),
    ensures
        ({
            let after = model::applied(state, JournalEntry::BeginTurn { turn_id });
            &&& after.turns.len() == state.turns.len() + 1
            &&& after.turns.drop_last() == state.turns
            &&& after.turns.last().id == turn_id@
            &&& after.turns.last().before.dom() == Set::<(Seq<char>, Seq<char>)>::empty()
            &&& after.expected == state.expected
        }),
{
    let after = model::applied(state, JournalEntry::BeginTurn { turn_id });
    assert(after.turns.drop_last() =~= state.turns);
}

/// A file that a turn captures and then writes is brought back by a restore to the state before
/// that turn: to what it held when it was captured, where it holds what was written.
pub proof fn written_files_are_brought_back(
    state: StateModel,
    turn_id: String,
    file: FileKey,
    before: BeforeImage,
    after: ImageIdentity,
    plan: Seq<PlannedRestore>,
) -> (i: int)
    requires
        !model::has_turn(state.turns, turn_id@),
        ({
            let begun = model::applied(state, JournalEntry::BeginTurn { turn_id });
            let caught = model::applied(
                begun,
                JournalEntry::BeforeImage { turn_id, file, before },
            );
            let written = model::applied(caught, JournalEntry::AfterImage { file, after });
            plan::is_restore_plan(plan, written, turn_id@)
        }),
    ensures
        plan.len() == 1,
        0 <= i < plan.len(),
        plan[i].file.deep_view() == file.deep_view(),
        plan[i].target.deep_view() == before.deep_view(),
        plan[i].expected_current.deep_view() == Some(after.deep_view()),
{
    let begun = model::applied(state, JournalEntry::BeginTurn { turn_id });
    let caught = model::applied(begun, JournalEntry::BeforeImage { turn_id, file, before });
    let written = model::applied(caught, JournalEntry::AfterImage { file, after });
    let rest = plan::turns_from(written, turn_id@);
    let key = file.deep_view();
    lemma_captured_and_written(state, turn_id, file, before, after);
    assert(plan::earliest(rest, key) is Some);
    let i = choose|i: int| 0 <= i < plan.len() && (#[trigger] plan[i]).file.deep_view() == key;
    if plan.len() > 1 {
        let j = if i == 0 {
            1int
        } else {
            0
        };
        assert(plan::earliest(rest, plan[j].file.deep_view()) is Some);
        plan::file_order_total(key, key);
        if j < i {
            assert(plan::file_before(plan[j].file.deep_view(), plan[i].file.deep_view()));
        } else {
            assert(plan::file_before(plan[i].file.deep_view(), plan[j].file.deep_view()));
        }
    }
    i
}

proof fn lemma_captured_and_written(
    state: StateModel,
    turn_id: String,
    file: FileKey,
    before: BeforeImage,
    after: ImageIdentity,
)
    requires
        !model::has_turn(state.turns, turn_id@),
    ensures
        ({
            let begun = model::applied(state, JournalEntry::BeginTurn { turn_id });
            let caught = model::applied(
                begun,
                JournalEntry::BeforeImage { turn_id, file, before },
            );
            let written = model::applied(caught, JournalEntry::AfterImage { file, after });
            let rest = plan::turns_from(written, turn_id@);
            &&& plan::expectation(written, file.deep_view()) == Some(after.deep_view())
            &&& forall|f: (Seq<char>, Seq<char>)| #[trigger]
                plan::earliest(rest, f) == (if f == file.deep_view() {
                    Some(before.deep_view())
                } else {
                    None::<Identity>
                })
        }),
{
    let begun = model::applied(state, JournalEntry::BeginTurn { turn_id });
    let caught = model::applied(begun, JournalEntry::BeforeImage { turn_id, file, before });
    let written = model::applied(caught, JournalEntry::AfterImage { file, after });
    let n = state.turns.len() as int;
    let key = file.deep_view();
    assert(begun.turns[n].id == turn_id@);
    assert(model::has_turn(begun.turns, turn_id@));
    model::lemma_turn_position(begun.turns, turn_id@);
    let p = model::turn_position(begun.turns, turn_id@);
    if p < n {
        assert(state.turns[p].id == turn_id@);
    }
    assert(caught.turns[n].id == turn_id@);
    assert(model::has_turn(caught.turns, turn_id@));
    model::lemma_turn_position(caught.turns, turn_id@);
    let q = model::turn_position(caught.turns, turn_id@);
    if q < n {
        assert(caught.turns[q] == begun.turns[q]);
        assert(state.turns[q].id == turn_id@);
    }
    let rest = plan::turns_from(written, turn_id@);
    assert(rest.len() == 1);
    assert(rest.last() == caught.turns[n]);
    assert forall|f: (Seq<char>, Seq<char>)| #[trigger]
        plan::earliest(rest, f) == (if f == key {
            Some(before.deep_view())
        } else {
            None::<Identity>
        }) by {
        assert(plan::earliest(rest.drop_last(), f) is None);
    }
}

/// A turn that is pruned is gone, and the others stay in their order.
pub proof fn pruning_removes_one_turn(state: StateModel, turn_id: String, t: int)
    requires
        distinct_turns(state.turns),
        0 <= t < state.turns.len(),
        state.turns[t].id == turn_id@,
    ensures
        model::applied(state, JournalEntry::PruneTurn { turn_id }).turns == state.turns.take(t)
            + state.turns.skip(t + 1),
{
    lemma_pruned(state.turns, turn_id@, t);
}

proof fn lemma_pruned(turns: Seq<TurnModel>, id: Seq<char>, t: int)
    requires
        distinct_turns(turns),
        0 <= t < turns.len(),
        turns[t].id == id,
    ensures
        model::without_turn(turns, id) == turns.take(t) + turns.skip(t + 1),
    decreases turns.len(),
{
    let front = turns.drop_last();
    if t < turns.len() - 1 {
        assert(turns[t].id != turns[turns.len() - 1].id);
        assert forall|a: int, b: int| 0 <= a < b < front.len() implies (#[trigger] front[a]).id != (
        #[trigger] front[b]).id by {
            assert(turns[a].id != turns[b].id);
        }
        lemma_pruned(front, id, t);
        assert((front.take(t) + front.skip(t + 1)).push(turns.last()) =~= turns.take(t)
            + turns.skip(t + 1));
    } else {
        lemma_none_pruned(front, id, turns);
        assert(turns.take(t) + turns.skip(t + 1) =~= front);
    }
}

proof fn lemma_none_pruned(front: Seq<TurnModel>, id: Seq<char>, turns: Seq<TurnModel>)
    requires
        distinct_turns(turns),
        turns.len() > 0,
        turns.last().id == id,
        front.len() < turns.len(),
        front == turns.take(front.len() as int),
    ensures
        model::without_turn(front, id) == front,
    decreases front.len(),
{
    if front.len() > 0 {
        let last = front.len() - 1;
        assert(turns[last].id != turns[turns.len() - 1].id);
        assert(front.drop_last() =~= turns.take(last));
        lemma_none_pruned(front.drop_last(), id, turns);
        assert(front.drop_last().push(front.last()) =~= front);
    }
}

/// Every blob that no turn needs is found among the names, so nothing that is not needed stays.
pub proof fn unneeded_blobs_are_found(turns: Seq<TurnModel>, names: Seq<Seq<char>>, name: Seq<char>)
    requires
        names.contains(name),
        crate::checkpoint::digest::digest_name(name),
        !store::referenced(turns, name),
    ensures
        store::unneeded(turns, names).contains(name),
    decreases names.len(),
{
    let k = choose|k: int| 0 <= k < names.len() && names[k] == name;
    let before = store::unneeded(turns, names.drop_last());
    let all = store::unneeded(turns, names);
    if k < names.len() - 1 {
        assert(names.drop_last()[k] == name);
        unneeded_blobs_are_found(turns, names.drop_last(), name);
        let j = choose|j: int| 0 <= j < before.len() && before[j] == name;
        assert(all[j] == name);
    } else {
        assert(all[before.len() as int] == name);
    }
}

/// After a step that takes turns away, a file that some turn left captured is expected to hold what
/// it was expected to hold before; nothing is expected of any other.
pub proof fn expectations_of_captured_files_stay(
    state: StateModel,
    turn_id: String,
    file: (Seq<char>, Seq<char>),
    t: int,
)
    requires
        distinct_turns(state.turns),
        0 <= t < state.turns.len(),
        state.turns[t].id == turn_id@,
    ensures
        ({
            let cut = model::applied(state, JournalEntry::DiscardFromTurn { turn_id });
            let pruned = model::applied(state, JournalEntry::PruneTurn { turn_id });
            let earlier = exists|u: int|
                0 <= u < t && (#[trigger] state.turns[u]).before.contains_key(file);
            let others = exists|u: int|
                0 <= u < state.turns.len() && u != t
                    && (#[trigger] state.turns[u]).before.contains_key(file);
            &&& cut.turns == state.turns.take(t)
            &&& cut.expected.contains_key(file) <==> earlier && state.expected.contains_key(file)
            &&& cut.expected.contains_key(file) ==> cut.expected[file] == state.expected[file]
            &&& pruned.expected.contains_key(file) <==> others && state.expected.contains_key(file)
            &&& pruned.expected.contains_key(file) ==> pruned.expected[file]
                == state.expected[file]
        }),
{
    model::lemma_turn_position(state.turns, turn_id@);
    assert(model::has_turn(state.turns, turn_id@));
    let p = model::turn_position(state.turns, turn_id@);
    if p < t {
        assert(state.turns[p].id != state.turns[t].id);
    }
    pruning_removes_one_turn(state, turn_id, t);
    let kept = state.turns.take(t);
    let left = state.turns.take(t) + state.turns.skip(t + 1);
    if model::captured(kept, file) {
        let u = choose|u: int| 0 <= u < kept.len() && (#[trigger] kept[u]).before.contains_key(file);
        assert(state.turns[u].before.contains_key(file));
    }
    if exists|u: int| 0 <= u < t && (#[trigger] state.turns[u]).before.contains_key(file) {
        let u = choose|u: int|
            0 <= u < t && (#[trigger] state.turns[u]).before.contains_key(file);
        assert(kept[u].before.contains_key(file));
    }
    if model::captured(left, file) {
        let u = choose|u: int| 0 <= u < left.len() && (#[trigger] left[u]).before.contains_key(file);
        if u < t {
            assert(state.turns[u].before.contains_key(file));
        } else {
            assert(state.turns[u + 1].before.contains_key(file));
        }
    }
    if exists|u: int|
        0 <= u < state.turns.len() && u != t
            && (#[trigger] state.turns[u]).before.contains_key(file) {
        let u = choose|u: int|
            0 <= u < state.turns.len() && u != t
                && (#[trigger] state.turns[u]).before.contains_key(file);
        if u < t {
            assert(left[u].before.contains_key(file));
        } else {
            assert(left[u - 1].before.contains_key(file));
        }
    }
}

/// Of a recorded restore the last entry for a file says what is expected of it, and of files
/// without an entry the expectation stays.
pub proof fn last_restore_of_a_file_counts(
    expected: Map<(Seq<char>, Seq<char>), Identity>,
    restored: Seq<model::RestoredIdentity>,
    i: int,
    other: (Seq<char>, Seq<char>),
)
    requires
        0 <= i < restored.len(),
        forall|k: int|
            i < k < restored.len() ==> (#[trigger] restored[k]).file.deep_view()
                != restored[i].file.deep_view(),
        forall|k: int|
            0 <= k < restored.len() ==> (#[trigger] restored[k]).file.deep_view() != other,
    ensures
        model::with_restored(expected, restored).contains_key(restored[i].file.deep_view()),
        model::with_restored(expected, restored)[restored[i].file.deep_view()]
            == restored[i].image.deep_view(),
        model::with_restored(expected, restored).contains_key(other) <==> expected.contains_key(
            other,
        ),
        expected.contains_key(other) ==> model::with_restored(expected, restored)[other]
            == expected[other],
{
    lemma_not_restored(expected, restored, other);
    lemma_last_restore(expected, restored, i);
}

proof fn lemma_not_restored(
    expected: Map<(Seq<char>, Seq<char>), Identity>,
    restored: Seq<model::RestoredIdentity>,
    other: (Seq<char>, Seq<char>),
)
    requires
        forall|k: int|
            0 <= k < restored.len() ==> (#[trigger] restored[k]).file.deep_view() != other,
    ensures
        model::with_restored(expected, restored).contains_key(other) <==> expected.contains_key(
            other,
        ),
        expected.contains_key(other) ==> model::with_restored(expected, restored)[other]
            == expected[other],
    decreases restored.len(),
{
    if restored.len() > 0 {
        let front = restored.drop_last();
        assert forall|k: int| 0 <= k < front.len() implies (#[trigger] front[k]).file.deep_view()
            != other by {
            assert(restored[k] == front[k]);
        }
        lemma_not_restored(expected, front, other);
        assert(restored[restored.len() - 1].file.deep_view() != other);
    }
}

proof fn lemma_last_restore(
    expected: Map<(Seq<char>, Seq<char>), Identity>,
    restored: Seq<model::RestoredIdentity>,
    i: int,
)
    requires
        0 <= i < restored.len(),
        forall|k: int|
            i < k < restored.len() ==> (#[trigger] restored[k]).file.deep_view()
                != restored[i].file.deep_view(),
    ensures
        model::with_restored(expected, restored).contains_key(restored[i].file.deep_view()),
        model::with_restored(expected, restored)[restored[i].file.deep_view()]
            == restored[i].image.deep_view(),
    decreases restored.len(),
{
    let front = restored.drop_last();
    if i < front.len() {
        assert forall|k: int| i < k < front.len() implies (#[trigger] front[k]).file.deep_view()
            != front[i].file.deep_view() by {
            assert(restored[k] == front[k]);
        }
        lemma_last_restore(expected, front, i);
        assert(restored[restored.len() - 1].file.deep_view() != restored[i].file.deep_view());
    }
}

/// Where as many turns are kept as may be, it is the oldest that goes when another one begins.
pub proof fn oldest_turns_go_first(state: StateModel, id: Seq<char>, steps: Seq<JournalEntry>)
    requires
        distinct_turns(state.turns),
        state.turns.len() == store::MAX_RETAINED_TURNS,
        !model::has_turn(state.turns, id),
        store::begin_steps(state, id, steps),
    ensures
        model::replayed(state, steps).turns.len() == state.turns.len(),
        model::replayed(state, steps).turns.drop_last() == state.turns.skip(1),
        model::replayed(state, steps).turns.last().id == id,
{
    reveal_with_fuel(model::replayed, 3);
    let one = model::applied(state, steps[0]);
    assert forall|t: int, u: int| 0 <= t < u < one.turns.len() implies (#[trigger] one.turns[t]).id
        != (#[trigger] one.turns[u]).id by {
        assert(one.turns[t] == state.turns[t]);
        if u < state.turns.len() {
            assert(one.turns[u] == state.turns[u]);
        }
    }
    assert(one.turns[0] == state.turns[0]);
    assert(steps.drop_last() =~= seq![steps[0]]);
    assert(seq![steps[0]].drop_last() =~= Seq::empty());
    assert(model::replayed(state, steps.drop_last()) == one);
    if let JournalEntry::PruneTurn { turn_id } = steps[1] {
        pruning_removes_one_turn(one, turn_id, 0);
        assert(one.turns.take(0) + one.turns.skip(1) =~= one.turns.skip(1));
        assert(one.turns.skip(1).drop_last() =~= state.turns.skip(1));
    }
}

} // verus!
