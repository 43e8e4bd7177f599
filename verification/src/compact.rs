//! Which way a manual compaction goes.

use vstd::prelude::*;

verus! {

/// A way to compact that a user or a provider asks for.
#[derive(Clone, Copy, Debug, PartialEq, Eq, Structural)]
pub enum CompactionMode {
    Local,
    RemoteV1,
    RemoteV2,
}

/// What a provider can do about compaction.
#[derive(Clone, Copy, Debug, PartialEq, Eq, Structural)]
pub enum RemoteCompactionSupport {
    Unsupported,
    V1,
    V2,
}

/// A manual compaction, with the way that the user asked for.
#[derive(Clone, Copy, Debug, PartialEq, Eq, Structural)]
pub struct CompactTask {
    pub mode: Option<CompactionMode>,
}

/// What decides about a compaction besides the task.
#[derive(Clone, Copy, Debug, PartialEq, Eq, Structural)]
pub struct CompactContext {
    /// The way that the provider is configured for.
    pub provider_mode: Option<CompactionMode>,
    /// What the provider can do.
    pub provider_support: RemoteCompactionSupport,
    /// Whether compaction by token budget is enabled.
    pub token_budget: bool,
    /// Whether the second version of remote compaction is enabled.
    pub remote_v2: bool,
}

/// The way that a compaction goes.
#[derive(Clone, Copy, Debug, PartialEq, Eq, Structural)]
pub enum CompactRoute {
    TokenBudget,
    RemoteV2,
    Remote,
    Local,
}

/// The way that counts: that of the user, else that of the provider.
pub open spec fn effective_mode(task: CompactTask, context: CompactContext) -> Option<
    CompactionMode,
> {
    if task.mode is Some {
        task.mode
    } else {
        context.provider_mode
    }
}

/// Whether a way was asked for that only a provider can go.
pub open spec fn explicitly_remote(mode: Option<CompactionMode>) -> bool {
    mode == Some(CompactionMode::RemoteV1) || mode == Some(CompactionMode::RemoteV2)
}

/// The way that a compaction goes.
pub open spec fn route_of(task: CompactTask, context: CompactContext) -> CompactRoute {
    let mode = effective_mode(task, context);
    if context.token_budget && !explicitly_remote(mode) {
        CompactRoute::TokenBudget
    } else {
        match mode {
            Some(CompactionMode::Local) => CompactRoute::Local,
            Some(CompactionMode::RemoteV1) => CompactRoute::Remote,
            Some(CompactionMode::RemoteV2) => CompactRoute::RemoteV2,
            None => match context.provider_support {
                RemoteCompactionSupport::Unsupported => CompactRoute::Local,
                RemoteCompactionSupport::V1 => CompactRoute::Remote,
                RemoteCompactionSupport::V2 => if context.remote_v2 {
                    CompactRoute::RemoteV2
                } else {
                    CompactRoute::Remote
                },
            },
        }
    }
}

/// The command that the thread records.
pub open spec fn command_of(task: CompactTask) -> Seq<char> {
    match task.mode {
        Some(CompactionMode::Local) => "/compact local"@,
        Some(CompactionMode::RemoteV1) => "/compact remotev1"@,
        Some(CompactionMode::RemoteV2) => "/compact remotev2"@,
        None => "/compact"@,
    }
}

/// The name under which a compaction is counted.
pub open spec fn label_of(route: CompactRoute) -> Option<Seq<char>> {
    match route {
        CompactRoute::TokenBudget => None,
        CompactRoute::RemoteV2 => Some("remote_v2"@),
        CompactRoute::Remote => Some("remote"@),
        CompactRoute::Local => Some("local"@),
    }
}

impl CompactTask {
    /// The command that the thread records.
    pub fn command(&self) -> (r: String)
        ensures
            r@ == command_of(*self),
    {
        match self.mode {
            Some(CompactionMode::Local) => "/compact local".to_owned(),
            Some(CompactionMode::RemoteV1) => "/compact remotev1".to_owned(),
            Some(CompactionMode::RemoteV2) => "/compact remotev2".to_owned(),
            None => "/compact".to_owned(),
        }
    }

    /// The way that the compaction goes.
    pub fn route(&self, context: &CompactContext) -> (r: CompactRoute)
        ensures
            r == route_of(*self, *context),
    {
        let mode = match self.mode {
            Some(mode) => Some(mode),
            None => context.provider_mode,
        };
        let support = match mode {
            Some(CompactionMode::Local) => RemoteCompactionSupport::Unsupported,
            Some(CompactionMode::RemoteV1) => RemoteCompactionSupport::V1,
            Some(CompactionMode::RemoteV2) => RemoteCompactionSupport::V2,
            None => context.provider_support,
        };
        let asked_remote = match mode {
            Some(CompactionMode::RemoteV1) => true,
            Some(CompactionMode::RemoteV2) => true,
            _ => false,
        };
        if context.token_budget && !asked_remote {
            return CompactRoute::TokenBudget;
        }
        let asked_v2 = match mode {
            Some(CompactionMode::RemoteV2) => true,
            _ => false,
        };
        match support {
            RemoteCompactionSupport::V2 => if context.remote_v2 || asked_v2 {
                CompactRoute::RemoteV2
            } else {
                CompactRoute::Remote
            },
            RemoteCompactionSupport::V1 => CompactRoute::Remote,
            RemoteCompactionSupport::Unsupported => CompactRoute::Local,
        }
    }
}

/// The name under which a compaction is counted; that by token budget is not counted here.
pub fn metric_label(route: CompactRoute) -> (r: Option<String>)
    ensures
        r.deep_view() == label_of(route),
{
    match route {
        CompactRoute::TokenBudget => None,
        CompactRoute::RemoteV2 => Some("remote_v2".to_owned()),
        CompactRoute::Remote => Some("remote".to_owned()),
        CompactRoute::Local => Some("local".to_owned()),
    }
}

/// The prompt of a local compaction: the configured one, else the default.
pub fn local_prompt(configured: &Option<String>, default_prompt: &str) -> (r: String)
    ensures
        r@ == match *configured {
            Some(prompt) => prompt@,
            None => default_prompt@,
        },
{
    match configured {
        Some(prompt) => prompt.clone(),
        None => default_prompt.to_owned(),
    }
}

/// Why a compaction failed.
#[derive(Clone, Copy, Debug, PartialEq, Eq, Structural)]
pub enum CompactFailure {
    /// The turn was aborted.
    TurnAborted,
    Other,
}

/// Whether the failure of a compaction is the failure of its task: that by token budget always,
/// another one only where the turn was aborted.
pub fn fails_task(route: CompactRoute, failure: CompactFailure) -> (r: bool)
    ensures
        r == (route == CompactRoute::TokenBudget || failure == CompactFailure::TurnAborted),
{
    match route {
        CompactRoute::TokenBudget => true,
        _ => match failure {
            CompactFailure::TurnAborted => true,
            CompactFailure::Other => false,
        },
    }
}

/// What a compaction does: the command that the thread records first, the way it then goes, the
/// name under which it is counted, and the prompt where it needs one.
pub struct CompactPlan {
    pub command: String,
    pub route: CompactRoute,
    pub metric: Option<String>,
    pub prompt: Option<String>,
}

impl CompactTask {
    /// What the compaction does. Only a local one needs a prompt: the configured one, else the
    /// default.
    pub fn plan(
        &self,
        context: &CompactContext,
        configured: &Option<String>,
        default_prompt: &str,
    ) -> (r: CompactPlan)
        ensures
            r.command@ == command_of(*self),
            r.route == route_of(*self, *context),
            r.metric.deep_view() == label_of(r.route),
            r.prompt.deep_view() == if r.route == CompactRoute::Local {
                Some(
                    match *configured {
                        Some(prompt) => prompt@,
                        None => default_prompt@,
                    },
                )
            } else {
                None::<Seq<char>>
            },
    {
        let route = self.route(context);
        let prompt = match route {
            CompactRoute::Local => Some(local_prompt(configured, default_prompt)),
            _ => None,
        };
        CompactPlan { command: self.command(), route, metric: metric_label(route), prompt }
    }
}

/// How the task ends once the compaction has: only some failures of the compaction are failures
/// of the task.
pub fn finish(route: CompactRoute, result: Result<(), CompactFailure>) -> (r: Result<
    (),
    CompactFailure,
>)
    ensures
        r == match result {
            Err(failure) if route == CompactRoute::TokenBudget || failure
                == CompactFailure::TurnAborted => Err::<(), CompactFailure>(failure),
            _ => Ok::<(), CompactFailure>(()),
        },
{
    match result {
        Err(failure) => if fails_task(route, failure) {
            Err(failure)
        } else {
            Ok(())
        },
        Ok(()) => Ok(()),
    }
}

/// A way that the user asks for counts over everything that the provider is or can do; only a
/// token budget takes the place of a local compaction.
pub proof fn explicit_mode_counts(mode: CompactionMode, context: CompactContext)
    ensures
        ({
            let route = route_of((CompactTask { mode: Some(mode) }), context);
            match mode {
                CompactionMode::RemoteV1 => route == CompactRoute::Remote,
                CompactionMode::RemoteV2 => route == CompactRoute::RemoteV2,
                CompactionMode::Local => route == if context.token_budget {
                    CompactRoute::TokenBudget
                } else {
                    CompactRoute::Local
                },
            }
        }),
{
}

/// Where the user asks for no way, that of the provider counts as if the user had asked for it.
/// Where neither asks for one, a token budget comes first, then what the provider can do, and a
/// provider of the second version goes the first way as long as the second one is not enabled.
pub proof fn other_modes_count_in_their_order(mode: CompactionMode, context: CompactContext)
    ensures
        context.provider_mode == Some(mode) ==> route_of((CompactTask { mode: None }), context)
            == route_of((CompactTask { mode: Some(mode) }), context),
        context.provider_mode is None && context.token_budget ==> route_of(
            (CompactTask { mode: None }),
            context,
        ) == CompactRoute::TokenBudget,
        context.provider_mode is None && !context.token_budget ==> {
            let route = route_of((CompactTask { mode: None }), context);
            &&& route == CompactRoute::Local <==> context.provider_support
                == RemoteCompactionSupport::Unsupported
            &&& route == CompactRoute::RemoteV2 <==> context.provider_support
                == RemoteCompactionSupport::V2 && context.remote_v2
            &&& route == CompactRoute::Remote <==> context.provider_support
                == RemoteCompactionSupport::V1 || context.provider_support
                == RemoteCompactionSupport::V2 && !context.remote_v2
        },
{
}

/// The recorded command and the counted name tell the ways apart.
pub proof fn ways_are_told_apart(a: CompactTask, b: CompactTask, c: CompactRoute, d: CompactRoute)
    ensures
        a.mode is None ==> command_of(a) == "/compact"@,
        a.mode is Some ==> command_of(a).take(9) == "/compact "@,
        command_of(a) == command_of(b) ==> a == b,
        label_of(c) == label_of(d) ==> c == d,
        label_of(c) is None <==> c == CompactRoute::TokenBudget,
{
    reveal_strlit("/compact");
    reveal_strlit("/compact ");
    reveal_strlit("/compact local");
    reveal_strlit("/compact remotev1");
    reveal_strlit("/compact remotev2");
    reveal_strlit("remote_v2");
    reveal_strlit("remote");
    reveal_strlit("local");
    assert("/compact remotev1"@[16] == '1');
    assert("/compact remotev2"@[16] == '2');
    assert("/compact remotev1"@ != "/compact remotev2"@);
    assert(command_of(a).len() == (match a.mode {
        None => 8int,
        Some(CompactionMode::Local) => 14,
        Some(_) => 17,
    }));
    assert(command_of(b).len() == (match b.mode {
        None => 8int,
        Some(CompactionMode::Local) => 14,
        Some(_) => 17,
    }));
    assert("remote_v2"@.len() == 9 && "remote"@.len() == 6 && "local"@.len() == 5);
    assert(a.mode is Some ==> command_of(a).take(9) =~= "/compact "@);
}

} // verus!
