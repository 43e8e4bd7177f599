//! Which files a restore has to bring back, and to what.

use crate::checkpoint::file_map::FileKey;
use crate::checkpoint::model::{BeforeImage, CheckpointState, ImageIdentity, TurnCheckpoint};
use crate::checkpoint::model::{self, Identity, StateModel, TurnModel};
use crate::data::Data;
use crate::order::{self, comes_before};
use vstd::prelude::*;

verus! {

/// A file to restore: what it should hold again, and what it should hold by now.
pub struct PlannedRestore {
    pub file: FileKey,
    pub target: BeforeImage,
    pub expected_current: Option<ImageIdentity>,
}

/// Files are ordered by environment, then by path.
pub open spec fn file_before(a: (Seq<char>, Seq<char>), b: (Seq<char>, Seq<char>)) -> bool {
    order::text_before(a.0, b.0) || (a.0 == b.0 && order::text_before(a.1, b.1))
}

/// The order of files is transitive.
pub proof fn file_order_transitive(
    a: (Seq<char>, Seq<char>),
    b: (Seq<char>, Seq<char>),
    c: (Seq<char>, Seq<char>),
)
    requires
        file_before(a, b),
        file_before(b, c),
    ensures
        file_before(a, c),
{
    if order::text_before(a.0, b.0) && order::text_before(b.0, c.0) {
        order::text_order_transitive(a.0, b.0, c.0);
    } else if a.0 == b.0 && b.0 == c.0 {
        order::text_order_transitive(a.1, b.1, c.1);
    }
}

/// Of two different files exactly one comes before the other.
pub proof fn file_order_total(a: (Seq<char>, Seq<char>), b: (Seq<char>, Seq<char>))
    ensures
        a == b || file_before(a, b) || file_before(b, a),
        !(a == b && file_before(a, b)),
        !(file_before(a, b) && file_before(b, a)),
{
    order::text_order_total(a.0, b.0);
    order::text_order_total(a.1, b.1);
    order::text_order_irreflexive(a.0);
    order::text_order_irreflexive(a.1);
    if order::text_before(a.0, b.0) && order::text_before(b.0, a.0) {
        order::text_order_transitive(a.0, b.0, a.0);
    }
    if order::text_before(a.1, b.1) && order::text_before(b.1, a.1) {
        order::text_order_transitive(a.1, b.1, a.1);
    }
}

fn key_before(a: &FileKey, b: &FileKey) -> (r: bool)
    ensures
        r == file_before(a.deep_view(), b.deep_view()),
{
    comes_before(a.environment_id.as_str(), b.environment_id.as_str()) || (a.environment_id
        == b.environment_id && comes_before(a.path.as_str(), b.path.as_str()))
}

/// The earliest image of a file that the turns captured.
pub open spec fn earliest(turns: Seq<TurnModel>, file: (Seq<char>, Seq<char>)) -> Option<Identity>
    decreases turns.len(),
{
    if turns.len() == 0 {
        None
    } else {
        match earliest(turns.drop_last(), file) {
            Some(image) => Some(image),
            None => if turns.last().before.contains_key(file) {
                Some(turns.last().before[file])
            } else {
                None
            },
        }
    }
}

/// The earliest image is that of the first turn that captured the file.
pub proof fn earliest_is_from_the_first_capture(
    turns: Seq<TurnModel>,
    file: (Seq<char>, Seq<char>),
)
    ensures
        earliest(turns, file) is Some <==> model::captured(turns, file),
        earliest(turns, file) matches Some(image) ==> exists|t: int|
            0 <= t < turns.len() && (#[trigger] turns[t]).before.contains_key(file)
                && turns[t].before[file] == image && forall|u: int|
                0 <= u < t ==> !(#[trigger] turns[u]).before.contains_key(file),
    decreases turns.len(),
{
    if turns.len() > 0 {
        let before = turns.drop_last();
        earliest_is_from_the_first_capture(before, file);
        if earliest(before, file) is Some {
            let image = earliest(before, file)->0;
            let t = choose|t: int|
                0 <= t < before.len() && (#[trigger] before[t]).before.contains_key(file)
                    && before[t].before[file] == image && forall|u: int|
                    0 <= u < t ==> !(#[trigger] before[u]).before.contains_key(file);
            assert(turns[t] == before[t]);
            assert forall|u: int| 0 <= u < t implies !(
            #[trigger] turns[u]).before.contains_key(file) by {
                assert(before[u] == turns[u]);
            }
        } else {
            assert forall|u: int| 0 <= u < turns.len() - 1 implies !(
            #[trigger] turns[u]).before.contains_key(file) by {
                assert(before[u] == turns[u]);
            }
            if turns.last().before.contains_key(file) {
                assert(turns[turns.len() - 1].before.contains_key(file));
            }
        }
    }
}

/// Whether a list is sorted by file, with no file twice.
pub open spec fn sorted_plan(plan: Seq<PlannedRestore>) -> bool {
    forall|i: int, j: int|
        0 <= i < j < plan.len() ==> file_before(
            (#[trigger] plan[i]).file.deep_view(),
            (#[trigger] plan[j]).file.deep_view(),
        )
}

/// Whether a list holds exactly the files that the turns captured, each with its earliest image.
pub open spec fn plan_covers(plan: Seq<PlannedRestore>, turns: Seq<TurnModel>) -> bool {
    &&& forall|i: int|
        0 <= i < plan.len() ==> earliest(turns, (#[trigger] plan[i]).file.deep_view()) == Some(
            plan[i].target.deep_view(),
        )
    &&& forall|file: (Seq<char>, Seq<char>)| #[trigger]
        earliest(turns, file) is Some ==> exists|i: int|
            0 <= i < plan.len() && (#[trigger] plan[i]).file.deep_view() == file
}

/// The expectation for a file.
pub open spec fn expectation(state: StateModel, file: (Seq<char>, Seq<char>)) -> Option<Identity> {
    if state.expected.contains_key(file) {
        Some(state.expected[file])
    } else {
        None
    }
}

/// The turns from the one with the id on; none where no turn has it.
pub open spec fn turns_from(state: StateModel, id: Seq<char>) -> Seq<TurnModel> {
    state.turns.skip(model::turn_position(state.turns, id))
}

/// Whether a list is what a restore to the state before a turn has to bring back: each file
/// that this turn or a later one captured, as it was when the first of them captured it, in the
/// order of the files.
pub open spec fn is_restore_plan(
    plan: Seq<PlannedRestore>,
    state: StateModel,
    before_turn_id: Seq<char>,
) -> bool {
    &&& sorted_plan(plan)
    &&& plan_covers(plan, turns_from(state, before_turn_id))
    &&& forall|i: int|
        0 <= i < plan.len() ==> (#[trigger] plan[i]).expected_current.deep_view() == expectation(
            state,
            plan[i].file.deep_view(),
        )
}

/// What the plan holds after the first `i` files of a turn that follows `turns`.
spec fn covers_with(
    plan: Seq<PlannedRestore>,
    turns: Seq<TurnModel>,
    turn: TurnCheckpoint,
    i: int,
) -> bool {
    &&& forall|p: int|
        0 <= p < plan.len() ==> with_turn(turns, turn, i, (#[trigger] plan[p]).file.deep_view())
            == Some(plan[p].target.deep_view())
    &&& forall|file: (Seq<char>, Seq<char>)| #[trigger]
        with_turn(turns, turn, i, file) is Some ==> exists|p: int|
            0 <= p < plan.len() && (#[trigger] plan[p]).file.deep_view() == file
}

spec fn with_turn(
    turns: Seq<TurnModel>,
    turn: TurnCheckpoint,
    i: int,
    file: (Seq<char>, Seq<char>),
) -> Option<Identity> {
    match earliest(turns, file) {
        Some(image) => Some(image),
        None => if exists|k: int|
            0 <= k < i && (#[trigger] turn.before_by_file.at(k)).0.deep_view() == file {
            Some(turn@.before[file])
        } else {
            None
        },
    }
}

impl CheckpointState {
    /// The files that a restore to the state before a turn has to bring back.
    pub fn restore_plan(&self, before_turn_id: &str) -> (plan: Vec<PlannedRestore>)
        ensures
            is_restore_plan(plan@, self@, before_turn_id@),
    {
        let mut plan: Vec<PlannedRestore> = Vec::new();
        let start: usize = match self.turn_index(before_turn_id) {
            Some(start) => start,
            None => self.turns.len(),
        };
        let ghost rest = turns_from(self@, before_turn_id@);
        let mut t: usize = start;
        assert(rest.take(0) =~= Seq::empty());
        while t < self.turns.len()
            invariant
                start <= t <= self.turns@.len(),
                rest == self@.turns.skip(start as int),
                sorted_plan(plan@),
                plan_covers(plan@, rest.take(t - start)),
                forall|i: int|
                    0 <= i < plan@.len() ==> (#[trigger] plan@[i]).expected_current.deep_view()
                        == expectation(self@, plan@[i].file.deep_view()),
            decreases self.turns@.len() - t,
        {
            let turn = &self.turns[t];
            let ghost done = rest.take(t - start);
            let count: usize = turn.before_by_file.len();
            let mut i: usize = 0;
            assert(covers_with(plan@, done, *turn, 0));
            while i < count
                invariant
                    i <= count == turn.before_by_file.size(),
                    sorted_plan(plan@),
                    covers_with(plan@, done, *turn, i as int),
                    forall|i: int|
                        0 <= i < plan@.len() ==> (
                        #[trigger] plan@[i]).expected_current.deep_view() == expectation(
                            self@,
                            plan@[i].file.deep_view(),
                        ),
                decreases count - i,
            {
                let entry = turn.before_by_file.entry_at(i);
                self.plan_file(&mut plan, &entry.0, &entry.1, Ghost(done), Ghost(*turn), Ghost(i as int));
                i += 1;
            }
            proof {
                let next = rest.take(t + 1 - start);
                assert(next.drop_last() =~= done);
                assert(next.last() == turn@);
                assert forall|file: (Seq<char>, Seq<char>)| #[trigger]
                    earliest(next, file) == with_turn(done, *turn, count as int, file) by {
                    if turn@.before.contains_key(file) {
                        let k = choose|k: int|
                            0 <= k < turn.before_by_file.size() && (
                            #[trigger] turn.before_by_file.at(k)).0.deep_view() == file;
                        assert(turn.before_by_file.at(k).0.deep_view() == file);
                    }
                }
                assert forall|file: (Seq<char>, Seq<char>)| #[trigger]
                    earliest(next, file) is Some implies exists|i: int|
                    0 <= i < plan@.len() && (#[trigger] plan@[i]).file.deep_view() == file by {
                    assert(with_turn(done, *turn, count as int, file) is Some);
                }
                assert(plan_covers(plan@, next));
            }
            t += 1;
        }
        assert(rest.take(t - start) =~= rest);
        plan
    }

    /// Adds a file of a turn to the plan, unless an earlier turn captured it.
    fn plan_file(
        &self,
        plan: &mut Vec<PlannedRestore>,
        file: &FileKey,
        before: &BeforeImage,
        Ghost(done): Ghost<Seq<TurnModel>>,
        Ghost(turn): Ghost<TurnCheckpoint>,
        Ghost(i): Ghost<int>,
    )
        requires
            0 <= i < turn.before_by_file.size(),
            turn.before_by_file.at(i).0.deep_view() == file.deep_view(),
            turn@.before[file.deep_view()] == before.deep_view(),
            sorted_plan(old(plan)@),
            covers_with(old(plan)@, done, turn, i),
            forall|i: int|
                0 <= i < old(plan)@.len() ==> (
                #[trigger] old(plan)@[i]).expected_current.deep_view() == expectation(
                    self@,
                    old(plan)@[i].file.deep_view(),
                ),
        ensures
            sorted_plan(final(plan)@),
            covers_with(final(plan)@, done, turn, i + 1),
            forall|i: int|
                0 <= i < final(plan)@.len() ==> (
                #[trigger] final(plan)@[i]).expected_current.deep_view() == expectation(
                    self@,
                    final(plan)@[i].file.deep_view(),
                ),
    {
        let ghost key = file.deep_view();
        let ghost was = plan@;
        let mut p: usize = 0;
        while p < plan.len() && key_before(&plan[p].file, file)
            invariant
                p <= plan@.len(),
                forall|q: int|
                    0 <= q < p ==> file_before(
                        (#[trigger] plan@[q]).file.deep_view(),
                        file.deep_view(),
                    ),
                plan@ == was,
            ensures
                p <= plan@.len(),
                plan@ == was,
                forall|q: int|
                    0 <= q < p ==> file_before(
                        (#[trigger] plan@[q]).file.deep_view(),
                        file.deep_view(),
                    ),
                p < plan@.len() ==> !file_before(
                    plan@[p as int].file.deep_view(),
                    file.deep_view(),
                ),
            decreases plan@.len() - p,
        {
            p += 1;
        }
        proof {
            assert forall|other: (Seq<char>, Seq<char>)|
                other != key implies #[trigger] with_turn(done, turn, i + 1, other) == with_turn(
                done,
                turn,
                i,
                other,
            ) by {
                if exists|k: int|
                    0 <= k < i + 1 && (#[trigger] turn.before_by_file.at(k)).0.deep_view()
                        == other {
                    let k = choose|k: int|
                        0 <= k < i + 1 && (#[trigger] turn.before_by_file.at(k)).0.deep_view()
                            == other;
                    assert(k < i);
                }
            }
            assert(turn.before_by_file.at(i).0.deep_view() == key);
            assert(with_turn(done, turn, i + 1, key) is Some);
        }
        if p < plan.len() && plan[p].file.same(file) {
            proof {
                assert(with_turn(done, turn, i, key) is Some);
                assert(with_turn(done, turn, i + 1, key) == with_turn(done, turn, i, key));
                assert forall|other: (Seq<char>, Seq<char>)| #[trigger]
                    with_turn(done, turn, i + 1, other) is Some implies exists|q: int|
                    0 <= q < plan@.len() && (#[trigger] plan@[q]).file.deep_view() == other by {
                    assert(with_turn(done, turn, i, other) is Some);
                }
                assert forall|q: int| 0 <= q < plan@.len() implies with_turn(
                    done,
                    turn,
                    i + 1,
                    (#[trigger] plan@[q]).file.deep_view(),
                ) == Some(plan@[q].target.deep_view()) by {
                    assert(with_turn(done, turn, i, plan@[q].file.deep_view()) == Some(
                        plan@[q].target.deep_view(),
                    ));
                }
            }
        } else {
            proof {
                // No place of the plan holds the file.
                assert forall|q: int| 0 <= q < was.len() implies (
                #[trigger] was[q]).file.deep_view() != key && (q >= p ==> file_before(
                    key,
                    was[q].file.deep_view(),
                )) by {
                    file_order_total(was[q].file.deep_view(), key);
                    if q >= p {
                        let at = was[p as int].file.deep_view();
                        file_order_total(at, key);
                        if q > p {
                            file_order_transitive(key, at, was[q].file.deep_view());
                            file_order_total(was[q].file.deep_view(), key);
                        }
                    }
                }
                if earliest(done, key) is Some {
                    assert(with_turn(done, turn, i, key) is Some);
                }
            }
            let planned = PlannedRestore {
                file: file.duplicate(),
                target: before.duplicate(),
                expected_current: self.expected_by_file.get(file),
            };
            assert(planned.expected_current.deep_view() == expectation(self@, key));
            plan.insert(p, planned);
            proof {
                assert(plan@ == was.insert(p as int, planned));
                assert forall|a: int, b: int| 0 <= a < b < plan@.len() implies file_before(
                    (#[trigger] plan@[a]).file.deep_view(),
                    (#[trigger] plan@[b]).file.deep_view(),
                ) by {
                    let a1 = if a < p {
                        a
                    } else {
                        a - 1
                    };
                    let b1 = if b < p {
                        b
                    } else {
                        b - 1
                    };
                    if a != p && b != p {
                        assert(plan@[a] == was[a1] && plan@[b] == was[b1]);
                    } else if a == p {
                        assert(plan@[b] == was[b1]);
                    } else {
                        assert(plan@[a] == was[a1]);
                    }
                }
                assert forall|q: int| 0 <= q < plan@.len() implies with_turn(
                    done,
                    turn,
                    i + 1,
                    (#[trigger] plan@[q]).file.deep_view(),
                ) == Some(plan@[q].target.deep_view()) && plan@[q].expected_current.deep_view()
                    == expectation(self@, plan@[q].file.deep_view()) by {
                    if q != p {
                        let q1 = if q < p {
                            q
                        } else {
                            q - 1
                        };
                        assert(plan@[q] == was[q1]);
                    }
                }
                assert forall|other: (Seq<char>, Seq<char>)| #[trigger]
                    with_turn(done, turn, i + 1, other) is Some implies exists|q: int|
                    0 <= q < plan@.len() && (#[trigger] plan@[q]).file.deep_view() == other by {
                    if other == key {
                        assert(plan@[p as int].file.deep_view() == other);
                    } else {
                        assert(with_turn(done, turn, i, other) is Some);
                        let q = choose|q: int|
                            0 <= q < was.len() && (#[trigger] was[q]).file.deep_view() == other;
                        let q1 = if q < p {
                            q
                        } else {
                            q + 1
                        };
                        assert(plan@[q1] == was[q]);
                    }
                }
            }
        }
    }
}

} // verus!
