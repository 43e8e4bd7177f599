//! Shortcuts that go from one permission mode to the next one.

use crate::data::Data;
use crate::text::{concat2, same_text};
use vstd::prelude::*;

verus! {

/// What is shown where there is nothing to switch to.
pub const NO_OTHER_PERMISSION_MODES: &'static str = "No other permission modes are available.";

/// Who reviews requests for approval.
#[derive(Clone, Copy, Debug, PartialEq, Eq, Structural)]
pub enum ApprovalsReviewer {
    User,
    AutoReview,
}

/// A built-in permission mode. `approval` names the policy on which approval is asked for.
#[derive(Debug)]
pub struct ApprovalPreset {
    pub id: String,
    pub label: String,
    pub profile_id: String,
    pub approval: String,
    /// Whether requirements forbid the mode.
    pub disabled: bool,
    /// Whether the permissions of the session are those of the mode.
    pub matches_current: bool,
}

/// The model of a permission mode.
pub ghost struct PresetModel {
    pub id: Seq<char>,
    pub label: Seq<char>,
    pub profile_id: Seq<char>,
    pub approval: Seq<char>,
    pub disabled: bool,
    pub matches_current: bool,
}

impl DeepView for ApprovalPreset {
    type V = PresetModel;

    open spec fn deep_view(&self) -> Self::V {
        PresetModel {
            id: self.id@,
            label: self.label@,
            profile_id: self.profile_id@,
            approval: self.approval@,
            disabled: self.disabled,
            matches_current: self.matches_current,
        }
    }
}

/// A permission mode with its approver.
#[derive(Debug, PartialEq, Eq)]
pub struct PermissionProfileSelection {
    pub profile_id: String,
    pub approval_policy: Option<String>,
    pub approvals_reviewer: Option<ApprovalsReviewer>,
    pub display_label: String,
}

/// The model of a permission mode with its approver.
pub ghost struct SelectionModel {
    pub profile_id: Seq<char>,
    pub approval_policy: Option<Seq<char>>,
    pub approvals_reviewer: Option<ApprovalsReviewer>,
    pub display_label: Seq<char>,
}

impl DeepView for PermissionProfileSelection {
    type V = SelectionModel;

    open spec fn deep_view(&self) -> Self::V {
        SelectionModel {
            profile_id: self.profile_id@,
            approval_policy: self.approval_policy.deep_view(),
            approvals_reviewer: self.approvals_reviewer,
            display_label: self.display_label@,
        }
    }
}

impl Data for PermissionProfileSelection {
    fn same(&self, other: &Self) -> (r: bool) {
        let same_reviewer = match (self.approvals_reviewer, other.approvals_reviewer) {
            (Some(a), Some(b)) => a == b,
            (None, None) => true,
            _ => false,
        };
        self.profile_id.same(&other.profile_id) && self.approval_policy.same(
            &other.approval_policy,
        ) && same_reviewer && self.display_label.same(&other.display_label)
    }

    fn duplicate(&self) -> (r: Self) {
        PermissionProfileSelection {
            profile_id: self.profile_id.duplicate(),
            approval_policy: self.approval_policy.duplicate(),
            approvals_reviewer: self.approvals_reviewer,
            display_label: self.display_label.duplicate(),
        }
    }
}

/// A permission mode to switch to, and whether it is the one of the session.
#[derive(Debug)]
pub struct PermissionChoice {
    pub current: bool,
    pub selection: PermissionProfileSelection,
}

impl DeepView for PermissionChoice {
    type V = (bool, SelectionModel);

    open spec fn deep_view(&self) -> Self::V {
        (self.current, self.selection.deep_view())
    }
}

/// What decides which permission modes there are, and which one is that of the session.
#[derive(Debug)]
pub struct PermissionContext {
    pub current_approval: String,
    pub current_reviewer: ApprovalsReviewer,
    /// The profile that is active in the session.
    pub active_profile: Option<String>,
    /// Whether automatic reviews are enabled.
    pub guardian_approval: bool,
    /// Whether requirements allow reviews by the user.
    pub user_review_allowed: bool,
    /// Whether requirements allow automatic reviews.
    pub auto_review_allowed: bool,
    /// Whether requirements demand automatic reviews for the model.
    pub auto_review_required: bool,
    pub windows: bool,
    /// Whether the mode in which the user is asked cannot be used on Windows.
    pub windows_auto_blocked: bool,
    pub ask_for_approval_label: String,
    pub approve_for_me_label: String,
}

/// Whether a mode with an approver is one to switch to.
pub open spec fn offered(
    preset: PresetModel,
    reviewer: ApprovalsReviewer,
    context: PermissionContext,
) -> bool {
    let auto_review = reviewer == ApprovalsReviewer::AutoReview;
    &&& preset.id == "auto"@ || preset.id == "full-access"@ || preset.id == "read-only"@
        && context.windows
    &&& auto_review ==> preset.id == "auto"@ && context.guardian_approval
        && context.auto_review_allowed
    &&& !auto_review ==> context.user_review_allowed && !context.auto_review_required
    &&& !preset.disabled
    &&& !(context.windows && context.windows_auto_blocked && preset.id == "auto"@ && !auto_review)
}

/// Whether a mode with an approver is the one of the session.
pub open spec fn is_current(
    preset: PresetModel,
    reviewer: ApprovalsReviewer,
    context: PermissionContext,
) -> bool {
    &&& context.current_approval@ == preset.approval
    &&& context.current_reviewer == reviewer
    &&& match context.active_profile {
        Some(active) => active@ == preset.profile_id,
        None => preset.matches_current,
    }
}

/// A mode with an approver as one to switch to.
pub open spec fn choice_of(
    preset: PresetModel,
    reviewer: ApprovalsReviewer,
    context: PermissionContext,
) -> (bool, SelectionModel) {
    (
        is_current(preset, reviewer, context),
        SelectionModel {
            profile_id: preset.profile_id,
            approval_policy: Some(preset.approval),
            approvals_reviewer: Some(reviewer),
            display_label: if preset.id != "auto"@ {
                preset.label
            } else if reviewer == ApprovalsReviewer::User {
                context.ask_for_approval_label@
            } else {
                context.approve_for_me_label@
            },
        },
    )
}

/// The choices of a mode: at most one for each approver.
pub open spec fn choice_if_offered(
    preset: PresetModel,
    reviewer: ApprovalsReviewer,
    context: PermissionContext,
) -> Seq<(bool, SelectionModel)> {
    if offered(preset, reviewer, context) {
        seq![choice_of(preset, reviewer, context)]
    } else {
        Seq::empty()
    }
}

/// The modes to switch to, in the order of the built-in ones, each first with reviews by the user.
pub open spec fn choices_of(presets: Seq<PresetModel>, context: PermissionContext) -> Seq<
    (bool, SelectionModel),
>
    decreases presets.len(),
{
    if presets.len() == 0 {
        Seq::empty()
    } else {
        choices_of(presets.drop_last(), context) + choice_if_offered(
            presets.last(),
            ApprovalsReviewer::User,
            context,
        ) + choice_if_offered(presets.last(), ApprovalsReviewer::AutoReview, context)
    }
}

impl PermissionContext {
    fn offers(&self, preset: &ApprovalPreset, reviewer: ApprovalsReviewer) -> (r: bool)
        ensures
            r == offered(preset.deep_view(), reviewer, *self),
    {
        let auto = same_text(preset.id.as_str(), "auto");
        let known = auto || same_text(preset.id.as_str(), "full-access") || (same_text(
            preset.id.as_str(),
            "read-only",
        ) && self.windows);
        if !known || preset.disabled {
            return false;
        }
        match reviewer {
            ApprovalsReviewer::AutoReview => auto && self.guardian_approval
                && self.auto_review_allowed,
            ApprovalsReviewer::User => self.user_review_allowed && !self.auto_review_required && !(
            self.windows && self.windows_auto_blocked && auto),
        }
    }

    fn choice(&self, preset: &ApprovalPreset, reviewer: ApprovalsReviewer) -> (r: PermissionChoice)
        ensures
            r.deep_view() == choice_of(preset.deep_view(), reviewer, *self),
    {
        let current = same_text(self.current_approval.as_str(), preset.approval.as_str())
            && self.current_reviewer == reviewer && match &self.active_profile {
            Some(active) => same_text(active.as_str(), preset.profile_id.as_str()),
            None => preset.matches_current,
        };
        let display_label = if !same_text(preset.id.as_str(), "auto") {
            preset.label.clone()
        } else {
            match reviewer {
                ApprovalsReviewer::User => self.ask_for_approval_label.clone(),
                ApprovalsReviewer::AutoReview => self.approve_for_me_label.clone(),
            }
        };
        PermissionChoice {
            current,
            selection: PermissionProfileSelection {
                profile_id: preset.profile_id.clone(),
                approval_policy: Some(preset.approval.clone()),
                approvals_reviewer: Some(reviewer),
                display_label,
            },
        }
    }

    fn push_if_offered(
        &self,
        choices: &mut Vec<PermissionChoice>,
        preset: &ApprovalPreset,
        reviewer: ApprovalsReviewer,
    )
        ensures
            final(choices).deep_view() == old(choices).deep_view() + choice_if_offered(
                preset.deep_view(),
                reviewer,
                *self,
            ),
    {
        let ghost before = choices.deep_view();
        if self.offers(preset, reviewer) {
            let choice = self.choice(preset, reviewer);
            choices.push(choice);
            assert(choices.deep_view() =~= before + seq![choice.deep_view()]);
        } else {
            assert(before + Seq::<(bool, SelectionModel)>::empty() =~= before);
        }
    }

    /// The modes to switch to.
    pub fn permission_shortcut_choices(&self, presets: &Vec<ApprovalPreset>) -> (r: Vec<
        PermissionChoice,
    >)
        ensures
            r.deep_view() == choices_of(presets.deep_view(), *self),
    {
        let ghost all = presets.deep_view();
        let mut r: Vec<PermissionChoice> = Vec::new();
        let mut i: usize = 0;
        assert(all.take(0) =~= Seq::empty());
        assert(r.deep_view() =~= Seq::empty());
        while i < presets.len()
            invariant
                i <= presets@.len(),
                all == presets.deep_view(),
                r.deep_view() == choices_of(all.take(i as int), *self),
            decreases presets@.len() - i,
        {
            assert(all.take(i + 1).drop_last() =~= all.take(i as int));
            assert(all.take(i + 1).last() == presets@[i as int].deep_view());
            self.push_if_offered(&mut r, &presets[i], ApprovalsReviewer::User);
            self.push_if_offered(&mut r, &presets[i], ApprovalsReviewer::AutoReview);
            i += 1;
        }
        assert(all.take(i as int) =~= all);
        r
    }
}

/// The place of the first choice that is the one of the session.
pub open spec fn current_at(choices: Seq<(bool, SelectionModel)>) -> Option<int>
    decreases choices.len(),
{
    if choices.len() == 0 {
        None
    } else if choices[0].0 {
        Some(0)
    } else {
        match current_at(choices.subrange(1, choices.len() as int)) {
            Some(i) => Some(i + 1),
            None => None,
        }
    }
}

/// The choices from the one behind that of the session round to that of the session; where none
/// is that of the session, as they are.
pub open spec fn turned(choices: Seq<(bool, SelectionModel)>) -> Seq<(bool, SelectionModel)> {
    match current_at(choices) {
        Some(i) => choices.subrange(i + 1, choices.len() as int) + choices.take(i + 1),
        None => choices,
    }
}

/// The first choice that is not the one of the session.
pub open spec fn first_other(choices: Seq<(bool, SelectionModel)>) -> Option<SelectionModel>
    decreases choices.len(),
{
    if choices.len() == 0 {
        None
    } else if !choices[0].0 {
        Some(choices[0].1)
    } else {
        first_other(choices.subrange(1, choices.len() as int))
    }
}

/// The next mode, or the previous one.
pub open spec fn next_mode(choices: Seq<(bool, SelectionModel)>, forward: bool) -> Option<
    SelectionModel,
> {
    first_other(
        turned(
            if forward {
                choices
            } else {
                choices.reverse()
            },
        ),
    )
}

fn position_of_current(choices: &Vec<PermissionChoice>) -> (r: Option<usize>)
    ensures
        match r {
            Some(i) => i < choices@.len() && current_at(choices.deep_view()) == Some(i as int),
            None => current_at(choices.deep_view()) is None,
        },
{
    let ghost all = choices.deep_view();
    let mut i: usize = 0;
    assert(all.subrange(0, all.len() as int) =~= all);
    while i < choices.len()
        invariant
            i <= choices@.len(),
            all == choices.deep_view(),
            current_at(all) == (match current_at(all.subrange(i as int, all.len() as int)) {
                Some(k) => Some(k + i),
                None => None,
            }),
        decreases choices@.len() - i,
    {
        let ghost rest = all.subrange(i as int, all.len() as int);
        assert(rest[0] == choices@[i as int].deep_view());
        if choices[i].current {
            return Some(i);
        }
        assert(rest.subrange(1, rest.len() as int) =~= all.subrange(i + 1, all.len() as int));
        i += 1;
    }
    None
}

/// The modes in the other direction.
fn reversed(choices: Vec<PermissionChoice>) -> (r: Vec<PermissionChoice>)
    ensures
        r.deep_view() == choices.deep_view().reverse(),
{
    let ghost all = choices.deep_view();
    let mut from = choices;
    let mut r: Vec<PermissionChoice> = Vec::new();
    assert(all.take(all.len() as int) =~= all);
    while from.len() > 0
        invariant
            from.deep_view() == all.take(from@.len() as int),
            from@.len() + r@.len() == all.len(),
            forall|k: int|
                0 <= k < r@.len() ==> (#[trigger] r@[k]).deep_view() == all[all.len() - 1 - k],
        decreases from@.len(),
    {
        let ghost before = from@;
        let choice = from.pop().unwrap();
        proof {
            assert(before[before.len() - 1].deep_view() == all.take(before.len() as int)[before.len()
                - 1]) by {
                assert(from@.push(choice) =~= before);
            }
            assert(from.deep_view() =~= all.take(from@.len() as int)) by {
                assert forall|k: int| 0 <= k < from@.len() implies (
                #[trigger] from.deep_view()[k]) == all.take(from@.len() as int)[k] by {
                    assert(before[k].deep_view() == all.take(before.len() as int)[k]);
                }
            }
        }
        r.push(choice);
    }
    assert(r.deep_view() =~= all.reverse());
    r
}

fn find_other(choices: &Vec<PermissionChoice>) -> (r: Option<PermissionProfileSelection>)
    ensures
        r.deep_view() == first_other(turned(choices.deep_view())),
{
    let ghost all = choices.deep_view();
    let ghost round = turned(all);
    let len: usize = choices.len();
    let start: usize = match position_of_current(choices) {
        Some(i) => i + 1,
        None => 0,
    };
    let mut k: usize = 0;
    assert(round.subrange(0, round.len() as int) =~= round);
    assert(round.len() == len);
    assert(forall|j: int|
        0 <= j < len ==> (#[trigger] round[j]) == all[if start + j < len {
            start + j
        } else {
            start + j - len
        }]);
    while k < len
        invariant
            k <= len,
            start <= len,
            len == choices@.len(),
            all == choices.deep_view(),
            round == turned(all),
            round.len() == len,
            forall|j: int|
                0 <= j < len ==> (#[trigger] round[j]) == all[if start + j < len {
                    start + j
                } else {
                    start + j - len
                }],
            first_other(round) == first_other(round.subrange(k as int, len as int)),
        decreases len - k,
    {
        let at: usize = if k < len - start {
            start + k
        } else {
            k - (len - start)
        };
        let ghost rest = round.subrange(k as int, len as int);
        assert(rest[0] == round[k as int]);
        assert(round[k as int] == choices@[at as int].deep_view());
        if !choices[at].current {
            return Some(choices[at].selection.duplicate());
        }
        assert(rest.subrange(1, rest.len() as int) =~= round.subrange(k + 1, len as int));
        k += 1;
    }
    None
}

/// A key as far as permission modes are concerned.
#[derive(Clone, Copy, Debug, PartialEq, Eq, Structural)]
pub struct PermissionKey {
    /// Whether Shift-Tab was pressed.
    pub backtab: bool,
    /// Whether it is bound to the next mode.
    pub next: bool,
    /// Whether it is bound to the previous mode.
    pub previous: bool,
}

/// What decides about a shortcut besides the key.
#[derive(Clone, Copy, Debug, PartialEq, Eq, Structural)]
pub struct ShortcutContext {
    pub collaboration_modes_enabled: bool,
    pub modal_or_popup_active: bool,
    /// Whether input goes through the parent of the thread.
    pub blocks_direct_input: bool,
    pub thread_known: bool,
    pub plan_mode: bool,
}

/// What a shortcut does.
#[derive(Debug, PartialEq, Eq)]
pub enum ShortcutStep {
    /// The key is not for permission modes.
    NotHandled,
    /// An error: input goes through the parent of the thread.
    ParentOwned,
    /// The collaboration mode changes, and then perhaps the permission mode.
    CycleMode(Option<PermissionProfileSelection>),
    /// The permission mode changes.
    Apply(PermissionProfileSelection),
    /// A notice: there is no other mode.
    NoOtherMode,
}

/// The model of what a shortcut does.
pub ghost enum ShortcutModel {
    NotHandled,
    ParentOwned,
    CycleMode(Option<SelectionModel>),
    Apply(SelectionModel),
    NoOtherMode,
}

impl DeepView for ShortcutStep {
    type V = ShortcutModel;

    open spec fn deep_view(&self) -> Self::V {
        match *self {
            ShortcutStep::NotHandled => ShortcutModel::NotHandled,
            ShortcutStep::ParentOwned => ShortcutModel::ParentOwned,
            ShortcutStep::CycleMode(selection) => ShortcutModel::CycleMode(selection.deep_view()),
            ShortcutStep::Apply(selection) => ShortcutModel::Apply(selection.deep_view()),
            ShortcutStep::NoOtherMode => ShortcutModel::NoOtherMode,
        }
    }
}

/// What Shift-Tab does where there are collaboration modes: it goes through the permission modes
/// of the default mode, then to the plan mode, and from there to the first permission mode.
pub open spec fn shift_tab_step(
    context: ShortcutContext,
    choices: Seq<(bool, SelectionModel)>,
) -> ShortcutModel {
    if context.modal_or_popup_active {
        ShortcutModel::NotHandled
    } else if context.blocks_direct_input {
        ShortcutModel::ParentOwned
    } else if !context.thread_known {
        ShortcutModel::CycleMode(None)
    } else if context.plan_mode {
        ShortcutModel::CycleMode(
            if choices.len() > 0 {
                Some(choices[0].1)
            } else {
                None
            },
        )
    } else {
        match current_at(choices) {
            Some(i) => if i + 1 < choices.len() {
                ShortcutModel::Apply(choices[i + 1].1)
            } else {
                ShortcutModel::CycleMode(None)
            },
            None => ShortcutModel::CycleMode(None),
        }
    }
}

/// What a key does.
pub open spec fn shortcut_step(
    key: PermissionKey,
    context: ShortcutContext,
    choices: Seq<(bool, SelectionModel)>,
) -> ShortcutModel {
    if key.backtab && context.collaboration_modes_enabled {
        shift_tab_step(context, choices)
    } else if !key.next && !key.backtab && !key.previous {
        ShortcutModel::NotHandled
    } else if context.modal_or_popup_active {
        ShortcutModel::NotHandled
    } else if context.blocks_direct_input {
        ShortcutModel::ParentOwned
    } else {
        match next_mode(choices, key.next || key.backtab) {
            Some(selection) => ShortcutModel::Apply(selection),
            None => ShortcutModel::NoOtherMode,
        }
    }
}

/// What Shift-Tab does where there are collaboration modes.
pub fn handle_collaboration_mode_shift_tab(
    context: ShortcutContext,
    choices: &Vec<PermissionChoice>,
) -> (r: ShortcutStep)
    ensures
        r.deep_view() == shift_tab_step(context, choices.deep_view()),
{
    if context.modal_or_popup_active {
        return ShortcutStep::NotHandled;
    }
    if context.blocks_direct_input {
        return ShortcutStep::ParentOwned;
    }
    if !context.thread_known {
        return ShortcutStep::CycleMode(None);
    }
    assert(choices.deep_view().len() == choices@.len());
    if context.plan_mode {
        if choices.len() > 0 {
            return ShortcutStep::CycleMode(Some(choices[0].selection.duplicate()));
        }
        return ShortcutStep::CycleMode(None);
    }
    match position_of_current(choices) {
        Some(i) => if i < choices.len() - 1 {
            ShortcutStep::Apply(choices[i + 1].selection.duplicate())
        } else {
            ShortcutStep::CycleMode(None)
        },
        None => ShortcutStep::CycleMode(None),
    }
}

/// What a key does.
pub fn handle_permission_shortcut(
    key: PermissionKey,
    context: ShortcutContext,
    choices: Vec<PermissionChoice>,
) -> (r: ShortcutStep)
    ensures
        r.deep_view() == shortcut_step(key, context, choices.deep_view()),
{
    if key.backtab && context.collaboration_modes_enabled {
        return handle_collaboration_mode_shift_tab(context, &choices);
    }
    let forward = key.next || key.backtab;
    if !forward && !key.previous {
        return ShortcutStep::NotHandled;
    }
    if context.modal_or_popup_active {
        return ShortcutStep::NotHandled;
    }
    if context.blocks_direct_input {
        return ShortcutStep::ParentOwned;
    }
    let choices = if forward {
        choices
    } else {
        reversed(choices)
    };
    match find_other(&choices) {
        Some(selection) => ShortcutStep::Apply(selection),
        None => ShortcutStep::NoOtherMode,
    }
}

/// A change of the permission mode that is about to be made.
#[derive(Debug, PartialEq, Eq)]
pub struct PermissionChange {
    /// The place of the mode among the built-in ones.
    pub preset: usize,
    pub approval: String,
    pub reviewer: ApprovalsReviewer,
    pub profile_id: String,
}

/// The model of a change of the permission mode.
pub ghost struct ChangeModel {
    pub preset: int,
    pub approval: Seq<char>,
    pub reviewer: ApprovalsReviewer,
    pub profile_id: Seq<char>,
}

impl DeepView for PermissionChange {
    type V = ChangeModel;

    open spec fn deep_view(&self) -> Self::V {
        ChangeModel {
            preset: self.preset as int,
            approval: self.approval@,
            reviewer: self.reviewer,
            profile_id: self.profile_id@,
        }
    }
}

/// The place of the first mode with a profile; the number of modes where there is none.
pub open spec fn preset_at(presets: Seq<PresetModel>, profile_id: Seq<char>) -> int
    decreases presets.len(),
{
    if presets.len() == 0 {
        0
    } else if presets[0].profile_id == profile_id {
        0
    } else {
        1 + preset_at(presets.subrange(1, presets.len() as int), profile_id)
    }
}

fn find_preset(presets: &Vec<ApprovalPreset>, profile_id: &str) -> (r: usize)
    ensures
        r == preset_at(presets.deep_view(), profile_id@),
        r <= presets@.len(),
{
    let ghost all = presets.deep_view();
    let mut i: usize = 0;
    assert(all.subrange(0, all.len() as int) =~= all);
    while i < presets.len()
        invariant
            i <= presets@.len(),
            all == presets.deep_view(),
            preset_at(all, profile_id@) == i + preset_at(
                all.subrange(i as int, all.len() as int),
                profile_id@,
            ),
        decreases presets@.len() - i,
    {
        let ghost rest = all.subrange(i as int, all.len() as int);
        assert(rest[0] == presets@[i as int].deep_view());
        if same_text(presets[i].profile_id.as_str(), profile_id) {
            return i;
        }
        assert(rest.subrange(1, rest.len() as int) =~= all.subrange(i + 1, all.len() as int));
        i += 1;
    }
    i
}

/// The change that a selection asks for; an error message where no built-in mode has its profile.
pub open spec fn change_for(presets: Seq<PresetModel>, selection: SelectionModel) -> Result<
    ChangeModel,
    Seq<char>,
> {
    let at = preset_at(presets, selection.profile_id);
    if at < presets.len() {
        Ok(
            ChangeModel {
                preset: at,
                approval: match selection.approval_policy {
                    Some(approval) => approval,
                    None => presets[at].approval,
                },
                reviewer: match selection.approvals_reviewer {
                    Some(reviewer) => reviewer,
                    None => ApprovalsReviewer::User,
                },
                profile_id: selection.profile_id,
            },
        )
    } else {
        Err("Unknown built-in permission profile: "@ + selection.profile_id)
    }
}

/// The change that a selection asks for.
pub fn permission_change(
    presets: &Vec<ApprovalPreset>,
    selection: &PermissionProfileSelection,
) -> (r: Result<PermissionChange, String>)
    ensures
        match r {
            Ok(change) => change_for(presets.deep_view(), selection.deep_view()) == Ok::<
                ChangeModel,
                Seq<char>,
            >(change.deep_view()),
            Err(message) => change_for(presets.deep_view(), selection.deep_view()) == Err::<
                ChangeModel,
                Seq<char>,
            >(message@),
        },
{
    let at = find_preset(presets, selection.profile_id.as_str());
    assert(presets.deep_view().len() == presets@.len());
    if at >= presets.len() {
        return Err(
            concat2("Unknown built-in permission profile: ", selection.profile_id.as_str()),
        );
    }
    let approval = match &selection.approval_policy {
        Some(approval) => approval.clone(),
        None => presets[at].approval.clone(),
    };
    let reviewer = match selection.approvals_reviewer {
        Some(reviewer) => reviewer,
        None => ApprovalsReviewer::User,
    };
    Ok(
        PermissionChange {
            preset: at,
            approval,
            reviewer,
            profile_id: selection.profile_id.clone(),
        },
    )
}

/// What is told to the rest of the program after the permission mode changed.
#[derive(Debug, PartialEq, Eq)]
pub enum PermissionEvent {
    OverrideTurnContext { approval: String, reviewer: ApprovalsReviewer, preset: usize },
    UpdateAskForApprovalPolicy(String),
    UpdateActivePermissionProfile(String),
    UpdateApprovalsReviewer(ApprovalsReviewer),
}

/// The model of what is told.
pub ghost enum PermissionEventModel {
    OverrideTurnContext { approval: Seq<char>, reviewer: ApprovalsReviewer, preset: int },
    UpdateAskForApprovalPolicy(Seq<char>),
    UpdateActivePermissionProfile(Seq<char>),
    UpdateApprovalsReviewer(ApprovalsReviewer),
}

impl DeepView for PermissionEvent {
    type V = PermissionEventModel;

    open spec fn deep_view(&self) -> Self::V {
        match *self {
            PermissionEvent::OverrideTurnContext { approval, reviewer, preset } =>
            PermissionEventModel::OverrideTurnContext {
                approval: approval@,
                reviewer,
                preset: preset as int,
            },
            PermissionEvent::UpdateAskForApprovalPolicy(approval) =>
            PermissionEventModel::UpdateAskForApprovalPolicy(approval@),
            PermissionEvent::UpdateActivePermissionProfile(id) =>
            PermissionEventModel::UpdateActivePermissionProfile(id@),
            PermissionEvent::UpdateApprovalsReviewer(reviewer) =>
            PermissionEventModel::UpdateApprovalsReviewer(reviewer),
        }
    }
}

/// What is told after a change, in this order.
pub open spec fn events_of(change: ChangeModel) -> Seq<PermissionEventModel> {
    seq![
        PermissionEventModel::OverrideTurnContext {
            approval: change.approval,
            reviewer: change.reviewer,
            preset: change.preset,
        },
        PermissionEventModel::UpdateAskForApprovalPolicy(change.approval),
        PermissionEventModel::UpdateActivePermissionProfile(change.profile_id),
        PermissionEventModel::UpdateApprovalsReviewer(change.reviewer),
    ]
}

/// What is told after the profile was set. `error` says why it could not be set; nothing is told
/// then but the error message.
pub fn apply_permission_change(change: &PermissionChange, error: Option<String>) -> (r: Result<
    Vec<PermissionEvent>,
    String,
>)
    ensures
        match (r, error) {
            (Ok(events), None) => events.deep_view() == events_of(change.deep_view()),
            (Err(message), Some(error)) => message@ == "Failed to set permission profile: "@
                + error@,
            _ => false,
        },
{
    if let Some(error) = error {
        return Err(concat2("Failed to set permission profile: ", error.as_str()));
    }
    let mut events: Vec<PermissionEvent> = Vec::new();
    events.push(
        PermissionEvent::OverrideTurnContext {
            approval: change.approval.clone(),
            reviewer: change.reviewer,
            preset: change.preset,
        },
    );
    events.push(PermissionEvent::UpdateAskForApprovalPolicy(change.approval.clone()));
    events.push(PermissionEvent::UpdateActivePermissionProfile(change.profile_id.clone()));
    events.push(PermissionEvent::UpdateApprovalsReviewer(change.reviewer));
    assert(events.deep_view() =~= events_of(change.deep_view()));
    Ok(events)
}

proof fn lemma_first_other(choices: Seq<(bool, SelectionModel)>)
    ensures
        match first_other(choices) {
            Some(selection) => choices.contains((false, selection)),
            None => forall|i: int| 0 <= i < choices.len() ==> (#[trigger] choices[i]).0,
        },
    decreases choices.len(),
{
    if choices.len() > 0 {
        let rest = choices.subrange(1, choices.len() as int);
        lemma_first_other(rest);
        if choices[0].0 {
            match first_other(rest) {
                Some(selection) => {
                    let k = choose|k: int| 0 <= k < rest.len() && rest[k] == (false, selection);
                    assert(choices[k + 1] == (false, selection));
                },
                None => {
                    assert forall|i: int| 0 <= i < choices.len() implies (
                    #[trigger] choices[i]).0 by {
                        if i > 0 {
                            assert(choices[i] == rest[i - 1]);
                        }
                    }
                },
            }
        } else {
            assert(choices[0] == (false, choices[0].1));
        }
    }
}

proof fn lemma_current_at(choices: Seq<(bool, SelectionModel)>)
    ensures
        match current_at(choices) {
            Some(i) => 0 <= i < choices.len() && choices[i].0,
            None => forall|i: int| 0 <= i < choices.len() ==> !(#[trigger] choices[i]).0,
        },
    decreases choices.len(),
{
    if choices.len() > 0 {
        let rest = choices.subrange(1, choices.len() as int);
        lemma_current_at(rest);
        assert forall|i: int| 1 <= i < choices.len() implies (#[trigger] choices[i]) == rest[i
            - 1] by {}
    }
}

/// A shortcut to another mode leads to an offered mode that is not the one of the session, and
/// finds none only where there is none.
pub proof fn shortcuts_lead_to_another_mode(
    choices: Seq<(bool, SelectionModel)>,
    forward: bool,
)
    ensures
        match next_mode(choices, forward) {
            Some(selection) => choices.contains((false, selection)),
            None => forall|i: int| 0 <= i < choices.len() ==> (#[trigger] choices[i]).0,
        },
{
    let list = if forward {
        choices
    } else {
        choices.reverse()
    };
    let round = turned(list);
    lemma_first_other(round);
    lemma_current_at(list);
    let n = list.len() as int;
    let start = match current_at(list) {
        Some(i) => i + 1,
        None => 0int,
    };
    assert(round.len() == n);
    assert forall|j: int| 0 <= j < n implies list.contains(#[trigger] round[j]) by {
        if start + j < n {
            assert(round[j] == list[start + j]);
        } else {
            assert(round[j] == list[start + j - n]);
        }
    }
    match first_other(round) {
        Some(selection) => {
            let j = choose|j: int| 0 <= j < round.len() && round[j] == (false, selection);
            assert(list.contains(round[j]));
            let k = choose|k: int| 0 <= k < n && list[k] == (false, selection);
            if !forward {
                assert(choices[n - 1 - k] == (false, selection));
            }
        },
        None => {
            assert forall|i: int| 0 <= i < choices.len() implies (#[trigger] choices[i]).0 by {
                let k = if forward {
                    i
                } else {
                    n - 1 - i
                };
                assert(list[k] == choices[i]);
                if k >= start {
                    assert(round[k - start] == list[k]);
                } else {
                    assert(round[n - start + k] == list[k]);
                }
            }
        },
    }
}

proof fn lemma_choices_are_offered(presets: Seq<PresetModel>, context: PermissionContext, i: int)
    requires
        0 <= i < choices_of(presets, context).len(),
    ensures
        exists|p: int, reviewer: ApprovalsReviewer|
            0 <= p < presets.len() && #[trigger] offered(presets[p], reviewer, context)
                && choices_of(presets, context)[i] == choice_of(presets[p], reviewer, context),
    decreases presets.len(),
{
    let front = choices_of(presets.drop_last(), context);
    let last = presets.len() - 1;
    if i < front.len() {
        lemma_choices_are_offered(presets.drop_last(), context, i);
        let (p, reviewer) = choose|p: int, reviewer: ApprovalsReviewer|
            0 <= p < presets.drop_last().len() && #[trigger] offered(
                presets.drop_last()[p],
                reviewer,
                context,
            ) && front[i] == choice_of(presets.drop_last()[p], reviewer, context);
        assert(offered(presets[p], reviewer, context));
    } else {
        let by_user = choice_if_offered(presets[last], ApprovalsReviewer::User, context);
        if i < front.len() + by_user.len() {
            assert(offered(presets[last], ApprovalsReviewer::User, context));
        } else {
            assert(offered(presets[last], ApprovalsReviewer::AutoReview, context));
        }
    }
}

/// No mode is offered that requirements forbid: neither a disabled one nor one with an approver
/// that is not allowed.
pub proof fn requirements_are_respected(
    presets: Seq<PresetModel>,
    context: PermissionContext,
    i: int,
)
    requires
        0 <= i < choices_of(presets, context).len(),
    ensures
        ({
            let selection = choices_of(presets, context)[i].1;
            &&& selection.approvals_reviewer == Some(ApprovalsReviewer::User)
                ==> context.user_review_allowed && !context.auto_review_required
            &&& selection.approvals_reviewer == Some(ApprovalsReviewer::AutoReview)
                ==> context.auto_review_allowed && context.guardian_approval
            &&& exists|p: int|
                0 <= p < presets.len() && !(#[trigger] presets[p]).disabled
                    && presets[p].profile_id == selection.profile_id
        }),
{
    lemma_choices_are_offered(presets, context, i);
}

/// Shift-Tab goes from the plan mode to the first permission mode, from a permission mode to the
/// next one, and from the last one back to the plan mode. Where no mode is that of the session it
/// goes to the plan mode, too.
pub proof fn shift_tab_goes_to_the_next_mode(
    context: ShortcutContext,
    choices: Seq<(bool, SelectionModel)>,
    i: int,
)
    requires
        !context.modal_or_popup_active,
        !context.blocks_direct_input,
        context.thread_known,
    ensures
        context.plan_mode && choices.len() > 0 ==> shift_tab_step(context, choices)
            == ShortcutModel::CycleMode(Some(choices[0].1)),
        context.plan_mode && choices.len() == 0 ==> shift_tab_step(context, choices)
            == ShortcutModel::CycleMode(None),
        !context.plan_mode && 0 <= i < choices.len() && choices[i].0 && (forall|j: int|
            0 <= j < i ==> !(#[trigger] choices[j]).0) ==> shift_tab_step(context, choices) == (
        if i + 1 < choices.len() {
            ShortcutModel::Apply(choices[i + 1].1)
        } else {
            ShortcutModel::CycleMode(None)
        }),
        !context.plan_mode && (forall|j: int| 0 <= j < choices.len() ==> !(#[trigger] choices[j]).0)
            ==> shift_tab_step(context, choices) == ShortcutModel::CycleMode(None),
{
    lemma_current_at(choices);
    if 0 <= i < choices.len() && choices[i].0 && (forall|j: int|
        0 <= j < i ==> !(#[trigger] choices[j]).0) {
        lemma_first_current(choices, i);
    }
}

/// Where input is blocked, or something else is open, neither key changes a mode.
pub proof fn blocked_keys_change_no_mode(
    key: PermissionKey,
    context: ShortcutContext,
    choices: Seq<(bool, SelectionModel)>,
)
    ensures
        context.modal_or_popup_active ==> shortcut_step(key, context, choices)
            == ShortcutModel::NotHandled,
        !key.backtab && !key.next && !key.previous ==> shortcut_step(key, context, choices)
            == ShortcutModel::NotHandled,
        !context.modal_or_popup_active && context.blocks_direct_input && (key.backtab || key.next
            || key.previous) ==> shortcut_step(key, context, choices)
            == ShortcutModel::ParentOwned,
        !context.modal_or_popup_active && !context.blocks_direct_input && (key.backtab || key.next
            || key.previous) ==> shortcut_step(key, context, choices) is CycleMode
            || shortcut_step(key, context, choices) is Apply || shortcut_step(
            key,
            context,
            choices,
        ) is NoOtherMode,
{
}

proof fn lemma_first_current(choices: Seq<(bool, SelectionModel)>, i: int)
    requires
        0 <= i < choices.len(),
        choices[i].0,
        forall|j: int| 0 <= j < i ==> !(#[trigger] choices[j]).0,
    ensures
        current_at(choices) == Some(i),
    decreases choices.len(),
{
    if i > 0 {
        let rest = choices.subrange(1, choices.len() as int);
        assert forall|j: int| 0 <= j < i - 1 implies !(#[trigger] rest[j]).0 by {
            assert(!choices[j + 1].0);
        }
        lemma_first_current(rest, i - 1);
    }
}

/// Where the session stands among the modes: whether it is in the plan mode, and which
/// permission mode it has.
pub ghost struct StandingModel {
    pub plan_mode: bool,
    pub current: Option<SelectionModel>,
}

/// The modes to switch to, with the one of the session marked.
pub open spec fn with_current(selections: Seq<SelectionModel>, current: Option<SelectionModel>) -> Seq<
    (bool, SelectionModel),
> {
    Seq::new(selections.len(), |k: int| (current == Some(selections[k]), selections[k]))
}

/// Where the session stands after what a key does was done.
pub open spec fn standing_after(standing: StandingModel, step: ShortcutModel) -> StandingModel {
    match step {
        ShortcutModel::CycleMode(selection) => StandingModel {
            plan_mode: !standing.plan_mode,
            current: match selection {
                Some(selection) => Some(selection),
                None => standing.current,
            },
        },
        ShortcutModel::Apply(selection) => StandingModel { current: Some(selection), ..standing },
        _ => standing,
    }
}

/// Where the session stands after Shift-Tab was pressed some times.
pub open spec fn after_presses(
    context: ShortcutContext,
    selections: Seq<SelectionModel>,
    standing: StandingModel,
    presses: nat,
) -> StandingModel
    decreases presses,
{
    if presses == 0 {
        standing
    } else {
        let before = after_presses(context, selections, standing, (presses - 1) as nat);
        standing_after(
            before,
            shift_tab_step(
                (ShortcutContext { plan_mode: before.plan_mode, ..context }),
                with_current(selections, before.current),
            ),
        )
    }
}

/// Shift-Tab goes round: from the plan mode, as many presses as there are modes lead through each
/// of them once and in their order, and the next press leads back to the plan mode.
pub proof fn shift_tab_goes_round(
    context: ShortcutContext,
    selections: Seq<SelectionModel>,
    standing: StandingModel,
    presses: nat,
)
    requires
        !context.modal_or_popup_active,
        !context.blocks_direct_input,
        context.thread_known,
        selections.len() > 0,
        selections.no_duplicates(),
        standing.plan_mode,
        1 <= presses <= selections.len() + 1,
    ensures
        after_presses(context, selections, standing, presses) == (StandingModel {
            plan_mode: presses == selections.len() + 1,
            current: Some(
                if presses <= selections.len() {
                    selections[presses - 1]
                } else {
                    selections.last()
                },
            ),
        }),
    decreases presses,
{
    let before = after_presses(context, selections, standing, (presses - 1) as nat);
    let here = ShortcutContext { plan_mode: before.plan_mode, ..context };
    let choices = with_current(selections, before.current);
    if presses > 1 {
        shift_tab_goes_round(context, selections, standing, (presses - 1) as nat);
        let i = presses - 2;
        assert(choices[i].0);
        assert forall|j: int| 0 <= j < i implies !(#[trigger] choices[j]).0 by {
            assert(selections[j] != selections[i]);
        }
        shift_tab_goes_to_the_next_mode(here, choices, i);
    } else {
        assert(before == standing);
        shift_tab_goes_to_the_next_mode(here, choices, 0);
    }
}

/// The keys for the next and the previous mode lead to the neighbours of the mode of the session,
/// round from the last to the first and back. Where no mode is that of the session they lead to
/// the first and the last one. Shift-Tab is the key for the next mode where there are no
/// collaboration modes.
pub proof fn keys_lead_to_the_neighbours(
    key: PermissionKey,
    context: ShortcutContext,
    selections: Seq<SelectionModel>,
    current: Option<SelectionModel>,
    i: int,
)
    requires
        !context.modal_or_popup_active,
        !context.blocks_direct_input,
        !context.collaboration_modes_enabled || !key.backtab,
        key.backtab || key.next || key.previous,
        selections.no_duplicates(),
        0 <= i < selections.len(),
    ensures
        ({
            let n = selections.len() as int;
            let forward = key.next || key.backtab;
            let step = shortcut_step(key, context, with_current(selections, current));
            if current == Some(selections[i]) {
                step == (if n == 1 {
                    ShortcutModel::NoOtherMode
                } else if forward {
                    ShortcutModel::Apply(
                        selections[if i + 1 < n {
                            i + 1
                        } else {
                            0
                        }],
                    )
                } else {
                    ShortcutModel::Apply(
                        selections[if i > 0 {
                            i - 1
                        } else {
                            n - 1
                        }],
                    )
                })
            } else if (forall|k: int| 0 <= k < n ==> current != Some(#[trigger] selections[k])) {
                step == ShortcutModel::Apply(
                    selections[if forward {
                        0
                    } else {
                        n - 1
                    }],
                )
            } else {
                true
            }
        }),
{
    let n = selections.len() as int;
    let forward = key.next || key.backtab;
    let choices = with_current(selections, current);
    let list = if forward {
        choices
    } else {
        choices.reverse()
    };
    let round = turned(list);
    if current == Some(selections[i]) {
        let at = if forward {
            i
        } else {
            n - 1 - i
        };
        assert(list[at].0);
        assert forall|j: int| 0 <= j < n && j != at implies !(#[trigger] list[j]).0 by {
            let k = if forward {
                j
            } else {
                n - 1 - j
            };
            assert(list[j] == choices[k]);
            assert(selections[k] != selections[i]);
        }
        lemma_first_current(list, at);
        if n == 1 {
            assert(round =~= list);
            assert(round.subrange(1, 1) =~= Seq::empty());
            reveal_with_fuel(first_other, 2);
        } else if at + 1 < n {
            assert(round[0] == list[at + 1]);
        } else {
            assert(round[0] == list[0]);
        }
    } else if (forall|k: int| 0 <= k < n ==> current != Some(#[trigger] selections[k])) {
        assert forall|j: int| 0 <= j < n implies !(#[trigger] list[j]).0 by {
            let k = if forward {
                j
            } else {
                n - 1 - j
            };
            assert(list[j] == choices[k]);
        }
        lemma_current_at(list);
        assert(round == list);
    }
}

/// A mode that the built-in ones and the requirements allow is offered, with its profile and its
/// approval policy, under its own label, and marked where it is the one of the session.
pub proof fn allowed_modes_are_offered(
    presets: Seq<PresetModel>,
    context: PermissionContext,
    p: int,
    reviewer: ApprovalsReviewer,
) -> (i: int)
    requires
        0 <= p < presets.len(),
        !presets[p].disabled,
        reviewer == ApprovalsReviewer::User ==> context.user_review_allowed
            && !context.auto_review_required && (presets[p].id == "full-access"@ || presets[p].id
            == "auto"@ && !(context.windows && context.windows_auto_blocked) || presets[p].id
            == "read-only"@ && context.windows),
        reviewer == ApprovalsReviewer::AutoReview ==> context.guardian_approval
            && context.auto_review_allowed && presets[p].id == "auto"@,
    ensures
        0 <= i < choices_of(presets, context).len(),
        ({
            let (current, selection) = choices_of(presets, context)[i];
            &&& selection.profile_id == presets[p].profile_id
            &&& selection.approval_policy == Some(presets[p].approval)
            &&& selection.approvals_reviewer == Some(reviewer)
            &&& presets[p].id != "auto"@ ==> selection.display_label == presets[p].label
            &&& presets[p].id == "auto"@ && reviewer == ApprovalsReviewer::User
                ==> selection.display_label == context.ask_for_approval_label@
            &&& presets[p].id == "auto"@ && reviewer == ApprovalsReviewer::AutoReview
                ==> selection.display_label == context.approve_for_me_label@
            &&& current <==> context.current_approval@ == presets[p].approval
                && context.current_reviewer == reviewer && (match context.active_profile {
                Some(active) => active@ == presets[p].profile_id,
                None => presets[p].matches_current,
            })
        }),
    decreases presets.len(),
{
    reveal_strlit("auto");
    reveal_strlit("full-access");
    reveal_strlit("read-only");
    let last = presets.len() - 1;
    let front = choices_of(presets.drop_last(), context);
    let by_user = choice_if_offered(presets[last], ApprovalsReviewer::User, context);
    let all = choices_of(presets, context);
    if p < last {
        assert(presets.drop_last()[p] == presets[p]);
        let i = allowed_modes_are_offered(presets.drop_last(), context, p, reviewer);
        assert(all[i] == front[i]);
        i
    } else {
        assert(presets[p].id == "full-access"@ ==> presets[p].id != "auto"@) by {
            if presets[p].id == "full-access"@ {
                assert(presets[p].id[0] == 'f');
            }
        }
        assert(presets[p].id == "read-only"@ ==> presets[p].id != "auto"@) by {
            if presets[p].id == "read-only"@ {
                assert(presets[p].id[0] == 'r');
            }
        }
        if reviewer == ApprovalsReviewer::User {
            let i = front.len() as int;
            assert(offered(presets[p], reviewer, context));
            assert(all[i] == by_user[0]);
            i
        } else {
            let i = (front.len() + by_user.len()) as int;
            assert(offered(presets[p], reviewer, context));
            i
        }
    }
}

/// A selection is turned into the change of the first mode with its profile. It keeps its own
/// approval policy and approver, and has those of the mode and the user where it names none.
pub proof fn changes_follow_the_selection(
    presets: Seq<PresetModel>,
    selection: SelectionModel,
    at: int,
)
    ensures
        0 <= at < presets.len() && presets[at].profile_id == selection.profile_id && (forall|k: int|
            0 <= k < at ==> (#[trigger] presets[k]).profile_id != selection.profile_id) ==> ({
            &&& change_for(presets, selection) matches Ok(change)
            &&& change.preset == at
            &&& change.profile_id == selection.profile_id
            &&& selection.approval_policy is Some ==> Some(change.approval)
                == selection.approval_policy
            &&& selection.approval_policy is None ==> change.approval == presets[at].approval
            &&& selection.approvals_reviewer is Some ==> Some(change.reviewer)
                == selection.approvals_reviewer
            &&& selection.approvals_reviewer is None ==> change.reviewer == ApprovalsReviewer::User
        }),
        (forall|k: int|
            0 <= k < presets.len() ==> (#[trigger] presets[k]).profile_id != selection.profile_id)
            ==> change_for(presets, selection) is Err,
{
    if 0 <= at < presets.len() && presets[at].profile_id == selection.profile_id && (forall|k: int|
        0 <= k < at ==> (#[trigger] presets[k]).profile_id != selection.profile_id) {
        lemma_preset_at(presets, selection.profile_id, at);
    }
    if (forall|k: int|
        0 <= k < presets.len() ==> (#[trigger] presets[k]).profile_id != selection.profile_id) {
        lemma_preset_at(presets, selection.profile_id, presets.len() as int);
    }
}

proof fn lemma_preset_at(presets: Seq<PresetModel>, profile_id: Seq<char>, at: int)
    requires
        0 <= at <= presets.len(),
        at < presets.len() ==> presets[at].profile_id == profile_id,
        forall|k: int| 0 <= k < at ==> (#[trigger] presets[k]).profile_id != profile_id,
    ensures
        preset_at(presets, profile_id) == at,
    decreases presets.len(),
{
    if at > 0 {
        let rest = presets.subrange(1, presets.len() as int);
        assert forall|k: int| 0 <= k < at - 1 implies (#[trigger] rest[k]).profile_id
            != profile_id by {
            assert(presets[k + 1].profile_id != profile_id);
        }
        lemma_preset_at(rest, profile_id, at - 1);
    }
}

/// A mode that was offered and is not that of the session becomes that of the session: the change
/// that its selection asks for is told with the policy, the approver and the profile of the mode.
pub proof fn chosen_modes_are_told(
    presets: Seq<PresetModel>,
    context: PermissionContext,
    i: int,
)
    requires
        0 <= i < choices_of(presets, context).len(),
    ensures
        ({
            let selection = choices_of(presets, context)[i].1;
            &&& change_for(presets, selection) matches Ok(change)
            &&& events_of(change).len() == 4
            &&& 0 <= change.preset < presets.len()
            &&& presets[change.preset].profile_id == selection.profile_id
            &&& events_of(change)[0] == (PermissionEventModel::OverrideTurnContext {
                approval: selection.approval_policy->0,
                reviewer: selection.approvals_reviewer->0,
                preset: change.preset,
            })
            &&& events_of(change)[1] == PermissionEventModel::UpdateAskForApprovalPolicy(
                selection.approval_policy->0,
            )
            &&& events_of(change)[2] == PermissionEventModel::UpdateActivePermissionProfile(
                selection.profile_id,
            )
            &&& events_of(change)[3] == PermissionEventModel::UpdateApprovalsReviewer(
                selection.approvals_reviewer->0,
            )
        }),
{
    lemma_choices_are_offered(presets, context, i);
    let (p, reviewer) = choose|p: int, reviewer: ApprovalsReviewer|
        0 <= p < presets.len() && #[trigger] offered(presets[p], reviewer, context) && choices_of(
            presets,
            context,
        )[i] == choice_of(presets[p], reviewer, context);
    lemma_preset_found(presets, presets[p].profile_id, p);
}

proof fn lemma_preset_found(presets: Seq<PresetModel>, profile_id: Seq<char>, p: int)
    requires
        0 <= p < presets.len(),
        presets[p].profile_id == profile_id,
    ensures
        0 <= preset_at(presets, profile_id) <= p,
        presets[preset_at(presets, profile_id)].profile_id == profile_id,
    decreases presets.len(),
{
    if presets[0].profile_id != profile_id {
        let rest = presets.subrange(1, presets.len() as int);
        assert(rest[p - 1] == presets[p]);
        lemma_preset_found(rest, profile_id, p - 1);
        let at = preset_at(rest, profile_id);
        assert(rest[at] == presets[at + 1]);
    }
}

} // verus!
