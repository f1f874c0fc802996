//! What a creation executes, and which Run a key stands for.

use vstd::prelude::*;

use crate::daemon::creation::{materialize_creation, CreationStep, MaterializedCreation};
use crate::daemon::manager::RunManager;
use crate::daemon::registry::{key_view, lemma_place_of, Residency};
use crate::daemon::run::{OwnerCursors, Run, RunControl};
use crate::identity::RunId;
use crate::order::texts_of;
use crate::protocol::{
    ErrorCode, ForkFidelity, ForkPlan, OperationKey, ProtocolError, RunInfo, RunLineage, RunSpec,
    TerminalSize,
};
use crate::run_spec::{
    lemma_environment_names, lemma_last_value_counts, matches_run, pairs_view, validate_run_spec,
    validate_terminal_size, CreationRequest, RunSpecView,
};

verus! {

/// Whether two lists hold the same texts in the same order.
pub open spec fn same_words(texts: Seq<String>, content: Seq<Seq<char>>) -> bool {
    &&& texts.len() == content.len()
    &&& forall|i: int| 0 <= i < texts.len() ==> (#[trigger] texts[i])@ == content[i]
}

/// Whether some variables make up an environment: each name has the last value
/// that was given for it, and there are no other names.
pub open spec fn makes_environment(
    variables: Seq<(String, String)>,
    env: Map<Seq<char>, Seq<char>>,
) -> bool {
    &&& forall|i: int|
        0 <= i < variables.len() && (forall|k: int|
            i < k < variables.len() ==> (#[trigger] variables[k]).0@ != variables[i].0@)
            ==> env.contains_key((#[trigger] variables[i]).0@) && env[variables[i].0@]
            == variables[i].1@
    &&& forall|name: Seq<char>| #[trigger]
        env.contains_key(name) ==> exists|i: int|
            0 <= i < variables.len() && (#[trigger] variables[i]).0@ == name
}

/// Whether a specification has exactly this program, these arguments, this
/// directory, these variables, this size and these declared inputs.
pub open spec fn executes(spec: RunSpec, content: RunSpecView) -> bool {
    &&& spec.program@ == content.program
    &&& same_words(spec.args@, content.args)
    &&& match (spec.cwd, content.cwd) {
        (Some(cwd), Some(directory)) => cwd@ == directory,
        (None, None) => true,
        _ => false,
    }
    &&& makes_environment(spec.env@, content.env)
    &&& spec.size.cols == content.size.cols
    &&& spec.size.rows == content.size.rows
    &&& same_words(spec.declared_inputs@, content.declared_inputs)
}

/// The content of a specification is all that it executes: nothing is left out.
pub proof fn law_the_content_is_the_whole_specification(spec: RunSpec)
    ensures
        executes(spec, spec@),
{
    let pairs = pairs_view(spec.env@);
    assert forall|i: int|
        0 <= i < spec.env@.len() && (forall|k: int|
            i < k < spec.env@.len() ==> (#[trigger] spec.env@[k]).0@
                != spec.env@[i].0@) implies spec@.env.contains_key((#[trigger] spec.env@[i]).0@)
        && spec@.env[spec.env@[i].0@] == spec.env@[i].1@ by {
        assert(pairs[i].0 == spec.env@[i].0@);
        assert forall|k: int| i < k < pairs.len() implies (#[trigger] pairs[k]).0
            != pairs[i].0 by {
            assert(pairs[k].0 == spec.env@[k].0@);
        }
        lemma_last_value_counts(pairs, i);
    }
    assert forall|name: Seq<char>| #[trigger] spec@.env.contains_key(name) implies exists|i: int|
        0 <= i < spec.env@.len() && (#[trigger] spec.env@[i]).0@ == name by {
        lemma_environment_names(pairs, name);
        let i = choose|i: int| 0 <= i < pairs.len() && (#[trigger] pairs[i]).0 == name;
        assert(spec.env@[i].0@ == name);
    }
}

/// Two specifications are the same exactly where they have the same program,
/// arguments, directory, environment, size and declared inputs.
pub proof fn law_same_means_the_same_in_every_part(a: RunSpec, b: RunSpec, r: bool)
    requires
        call_ensures(RunSpec::same, (&a, &b), r),
    ensures
        r ==> executes(a, b@) && executes(b, a@),
        !r ==> {
            ||| a.program@ != b.program@
            ||| !same_words(a.args@, texts_of(b.args@))
            ||| a.cwd is Some != b.cwd is Some
            ||| a.cwd is Some && a.cwd->Some_0@ != b.cwd->Some_0@
            ||| a.size.cols != b.size.cols
            ||| a.size.rows != b.size.rows
            ||| !same_words(a.declared_inputs@, texts_of(b.declared_inputs@))
            ||| a@.env != b@.env
        },
{
    law_the_content_is_the_whole_specification(a);
    law_the_content_is_the_whole_specification(b);
    if !r {
        if same_words(a.args@, texts_of(b.args@)) {
            assert(texts_of(a.args@) =~= texts_of(b.args@));
        }
        if same_words(a.declared_inputs@, texts_of(b.declared_inputs@)) {
            assert(texts_of(a.declared_inputs@) =~= texts_of(b.declared_inputs@));
        }
    }
}

/// A copy executes what the specification executes.
pub proof fn law_a_copy_executes_the_same(spec: RunSpec, copy: RunSpec)
    requires
        call_ensures(RunSpec::copied, (&spec,), copy),
    ensures
        executes(copy, spec@),
        executes(spec, spec@),
        copy@ == spec@,
{
    law_the_content_is_the_whole_specification(spec);
    law_the_content_is_the_whole_specification(copy);
}

/// A specification is refused exactly where its program is empty or its
/// terminal has no columns or no rows.
pub proof fn law_only_an_empty_program_or_terminal_is_refused(
    spec: RunSpec,
    size: TerminalSize,
    judged: Result<(), String>,
    sized: Result<(), String>,
)
    requires
        call_ensures(validate_run_spec, (&spec,), judged),
        call_ensures(validate_terminal_size, (size,), sized),
    ensures
        judged is Ok <==> spec.program@.len() > 0 && spec.size.cols > 0 && spec.size.rows > 0,
        sized is Ok <==> size.cols > 0 && size.rows > 0,
{
}

/// A Level A fork that is accepted executes exactly what its parent executes:
/// the program, the arguments, the directory, the environment, the size and
/// the declared inputs. It is accepted exactly where the parent can be forked
/// so and has a specification.
pub proof fn law_a_level_a_fork_executes_its_parents_specification(
    id: RunId,
    parent: Run,
    continues: bool,
    r: Result<MaterializedCreation, ProtocolError>,
)
    requires
        call_ensures(
            materialize_creation,
            (CreationRequest::Fork { parent: id, plan: ForkPlan::LevelA }, Some(&parent), continues),
            r,
        ),
    ensures
        r is Ok <==> parent@.capabilities.fork_level_a && parent@.spec is Some,
        r matches Ok(made) ==> executes(made.spec, parent@.spec->Some_0) && made.lineage == Some(
            RunLineage { parent: id, fidelity: ForkFidelity::LevelA },
        ) && made.request == (CreationRequest::Fork { parent: id, plan: ForkPlan::LevelA }),
        r matches Err(error) ==> error.code == ErrorCode::UnsupportedCapability,
{
    if let Ok(made) = r {
        law_the_content_is_the_whole_specification(made.spec);
    }
}

/// What a Level A fork executes is what its parent's own description shows.
pub proof fn law_a_level_a_fork_executes_what_its_parent_shows(
    id: RunId,
    parent: Run,
    cursors: OwnerCursors,
    shown: RunInfo,
    continues: bool,
    made: MaterializedCreation,
)
    requires
        call_ensures(Run::info, (&parent, cursors), shown),
        call_ensures(
            materialize_creation,
            (CreationRequest::Fork { parent: id, plan: ForkPlan::LevelA }, Some(&parent), continues),
            Ok(made),
        ),
    ensures
        shown.spec matches Some(spec) && {
            &&& made.spec.program@ == spec.program@
            &&& made.spec.args@.len() == spec.args@.len()
            &&& forall|i: int|
                0 <= i < spec.args@.len() ==> (#[trigger] made.spec.args@[i])@ == spec.args@[i]@
            &&& made.spec.cwd is Some == spec.cwd is Some
            &&& spec.cwd is Some ==> made.spec.cwd->Some_0@ == spec.cwd->Some_0@
            &&& made.spec.size == spec.size
            &&& made.spec.declared_inputs@.len() == spec.declared_inputs@.len()
            &&& forall|i: int|
                0 <= i < spec.declared_inputs@.len() ==> (
                #[trigger] made.spec.declared_inputs@[i])@ == spec.declared_inputs@[i]@
            &&& makes_environment(made.spec.env@, spec@.env)
            &&& makes_environment(spec.env@, spec@.env)
        },
{
    law_the_content_is_the_whole_specification(made.spec);
    if let Some(spec) = shown.spec {
        law_the_content_is_the_whole_specification(spec);
        assert(texts_of(spec.args@) == texts_of(made.spec.args@));
        assert forall|i: int| 0 <= i < spec.args@.len() implies (#[trigger] made.spec.args@[i])@
            == spec.args@[i]@ by {
            assert(texts_of(spec.args@)[i] == spec.args@[i]@);
        }
        assert forall|i: int| 0 <= i < spec.declared_inputs@.len() implies (
        #[trigger] made.spec.declared_inputs@[i])@ == spec.declared_inputs@[i]@ by {
            assert(texts_of(spec.declared_inputs@)[i] == spec.declared_inputs@[i]@);
        }
    }
}

/// A Level B fork executes exactly what its caller gave, and is accepted
/// exactly where the parent can be forked so, has native control and its
/// continuation goes on.
pub proof fn law_a_level_b_fork_executes_what_was_given(
    id: RunId,
    spec: RunSpec,
    parent: Run,
    continues: bool,
    r: Result<MaterializedCreation, ProtocolError>,
)
    requires
        call_ensures(
            materialize_creation,
            (
                CreationRequest::Fork { parent: id, plan: ForkPlan::LevelB { spec } },
                Some(&parent),
                continues,
            ),
            r,
        ),
    ensures
        r is Ok <==> parent@.capabilities.fork_level_b && parent@.control == Some(
            RunControl::Native,
        ) && continues,
        r matches Ok(made) ==> executes(made.spec, spec@) && executes(spec, spec@)
            && made.lineage == Some(RunLineage { parent: id, fidelity: ForkFidelity::LevelB })
            && made.request == (CreationRequest::Fork {
            parent: id,
            plan: ForkPlan::LevelB { spec },
        }),
        r matches Err(error) ==> error.code == (if parent@.capabilities.fork_level_b {
            ErrorCode::InvalidRunState
        } else {
            ErrorCode::UnsupportedCapability
        }),
{
    law_the_content_is_the_whole_specification(spec);
    if let Ok(made) = r {
        law_the_content_is_the_whole_specification(made.spec);
    }
}

/// A Start executes exactly what its caller gave and comes from no Run.
pub proof fn law_a_start_executes_what_was_given(
    spec: RunSpec,
    parent: Option<&Run>,
    continues: bool,
    r: Result<MaterializedCreation, ProtocolError>,
)
    requires
        call_ensures(materialize_creation, (CreationRequest::Start { spec }, parent, continues), r),
    ensures
        r matches Ok(made) && executes(made.spec, spec@) && executes(spec, spec@)
            && made.lineage is None && made.request == (CreationRequest::Start { spec }),
{
    law_the_content_is_the_whole_specification(spec);
    law_the_content_is_the_whole_specification(r->Ok_0.spec);
}

/// What was made for a creation goes on unchanged where it can be executed, and
/// is refused otherwise.
pub proof fn law_a_checked_creation_is_unchanged(
    made: MaterializedCreation,
    r: Result<MaterializedCreation, ProtocolError>,
)
    requires
        call_ensures(MaterializedCreation::checked, (made,), r),
    ensures
        r is Ok <==> made.spec.program@.len() > 0 && made.spec.size.cols > 0
            && made.spec.size.rows > 0,
        r matches Ok(same) ==> same == made,
        r matches Err(error) ==> error.code == ErrorCode::InvalidRequest,
{
}

/// A durable record begins as a running native Run without output that has
/// this identity, this lineage and executes this specification.
pub proof fn law_a_durable_record_begins_with_what_is_executed(
    made: MaterializedCreation,
    id: RunId,
    info: RunInfo,
)
    requires
        call_ensures(MaterializedCreation::persistence_start_info, (&made, id), info),
    ensures
        info.id == id,
        info.spec matches Some(spec) && executes(spec, made.spec@),
        info.lineage == made.lineage,
        info.backend is Native,
        info.state is Running,
        info.pid is None,
        info.latest_output_bytes == 0 && info.first_available_byte == 0
            && info.durable_output_bytes == Some(0u64),
{
    law_the_content_is_the_whole_specification(info.spec->Some_0);
}

/// A creation that begins executes what its request says: a Start its own
/// specification, a Level A fork its parent's, a Level B fork the one given.
/// It can be executed, and a fork's parent is retained.
pub proof fn law_a_creation_executes_what_it_asks_for(
    manager: &mut RunManager,
    key: OperationKey,
    request: CreationRequest,
    parent: Option<&Run>,
    continues: bool,
    made: MaterializedCreation,
)
    requires
        request is Fork ==> parent is Some,
        call_ensures(
            RunManager::create,
            (manager, &key, request, parent, continues),
            CreationStep::Execute(made),
        ),
    ensures
        key.defect is None,
        made.request == request,
        made.spec.program@.len() > 0 && made.spec.size.cols > 0 && made.spec.size.rows > 0,
        match request {
            CreationRequest::Start { spec } => executes(made.spec, spec@) && made.lineage is None,
            CreationRequest::Fork { parent: id, plan: ForkPlan::LevelA } => {
                &&& parent matches Some(parent) && parent@.capabilities.fork_level_a && (
                parent@.spec matches Some(content) && executes(made.spec, content))
                &&& made.lineage == Some(RunLineage { parent: id, fidelity: ForkFidelity::LevelA })
                &&& exists|i: int|
                    0 <= i < old(manager)@.registry.runs.len() && (
                    #[trigger] old(manager)@.registry.runs[i]).facts.id == id && old(
                        manager,
                    )@.registry.runs[i].residency == Residency::Retained
            },
            CreationRequest::Fork { parent: id, plan: ForkPlan::LevelB { spec } } => {
                &&& executes(made.spec, spec@)
                &&& made.lineage == Some(RunLineage { parent: id, fidelity: ForkFidelity::LevelB })
                &&& parent matches Some(parent) && parent@.capabilities.fork_level_b
                    && parent@.control == Some(RunControl::Native) && continues
                &&& exists|i: int|
                    0 <= i < old(manager)@.registry.runs.len() && (
                    #[trigger] old(manager)@.registry.runs[i]).facts.id == id && old(
                        manager,
                    )@.registry.runs[i].residency == Residency::Retained
            },
        },
{
    law_the_content_is_the_whole_specification(made.spec);
    if let CreationRequest::Fork { parent: id, plan } = request {
        let runs = old(manager)@.registry.runs;
        assert(crate::daemon::registry::has_run(runs, id));
        let i = choose|i: int| 0 <= i < runs.len() && (#[trigger] runs[i]).facts.id == id;
        if old(manager)@.registry.valid() {
            lemma_place_of(old(manager)@.registry, id, i);
        }
    }
}

/// A retry of a request is recognised by what it asks for: a Start and a
/// Level B fork by every part of the specification, a fork by its parent.
pub proof fn law_a_request_is_recognised_by_what_it_asks_for(
    request: CreationRequest,
    spec: RunSpec,
    lineage: Option<RunLineage>,
    r: bool,
)
    requires
        call_ensures(matches_run, (&request, &Some(spec), &lineage), r),
    ensures
        r ==> match request {
            CreationRequest::Start { spec: asked } => lineage is None && executes(asked, spec@)
                && executes(spec, spec@),
            CreationRequest::Fork { parent, plan: ForkPlan::LevelA } => lineage == Some(
                RunLineage { parent, fidelity: ForkFidelity::LevelA },
            ),
            CreationRequest::Fork { parent, plan: ForkPlan::LevelB { spec: asked } } => lineage
                == Some(RunLineage { parent, fidelity: ForkFidelity::LevelB }) && executes(
                asked,
                spec@,
            ) && executes(spec, spec@),
        },
        request == (CreationRequest::Start { spec }) && lineage is None ==> r,
        forall|parent: RunId|
            request == (CreationRequest::Fork { parent, plan: ForkPlan::LevelA }) && lineage
                == Some(RunLineage { parent, fidelity: ForkFidelity::LevelA }) ==> r,
        forall|parent: RunId|
            request == (CreationRequest::Fork { parent, plan: ForkPlan::LevelB { spec } })
                && lineage == Some(RunLineage { parent, fidelity: ForkFidelity::LevelB }) ==> r,
{
    law_the_content_is_the_whole_specification(spec);
    match request {
        CreationRequest::Start { spec: asked } => law_the_content_is_the_whole_specification(asked),
        CreationRequest::Fork { plan: ForkPlan::LevelB { spec: asked }, .. } =>
            law_the_content_is_the_whole_specification(asked),
        _ => {},
    }
}

/// A Run without a specification was created by no request.
pub proof fn law_a_run_without_specification_matches_no_request(
    request: CreationRequest,
    lineage: Option<RunLineage>,
    r: bool,
)
    requires
        call_ensures(matches_run, (&request, &None, &lineage), r),
    ensures
        !r,
{
}

/// Two requests are the same only where they ask for the same: of the same
/// kind, from the same parent, with the same specification.
pub proof fn law_same_requests_ask_for_the_same(a: CreationRequest, b: CreationRequest, r: bool)
    requires
        call_ensures(CreationRequest::same, (&a, &b), r),
    ensures
        r ==> match (a, b) {
            (CreationRequest::Start { spec: x }, CreationRequest::Start { spec: y }) => executes(
                x,
                y@,
            ) && executes(y, y@),
            (
                CreationRequest::Fork { parent: p, plan: ForkPlan::LevelA },
                CreationRequest::Fork { parent: q, plan: ForkPlan::LevelA },
            ) => p == q,
            (
                CreationRequest::Fork { parent: p, plan: ForkPlan::LevelB { spec: x } },
                CreationRequest::Fork { parent: q, plan: ForkPlan::LevelB { spec: y } },
            ) => p == q && executes(x, y@) && executes(y, y@),
            _ => false,
        },
        a == b ==> r,
{
    match (a, b) {
        (CreationRequest::Start { spec: x }, CreationRequest::Start { spec: y }) => {
            law_the_content_is_the_whole_specification(x);
            law_the_content_is_the_whole_specification(y);
        },
        (
            CreationRequest::Fork { plan: ForkPlan::LevelB { spec: x }, .. },
            CreationRequest::Fork { plan: ForkPlan::LevelB { spec: y }, .. },
        ) => {
            law_the_content_is_the_whole_specification(x);
            law_the_content_is_the_whole_specification(y);
        },
        _ => {},
    }
}

/// A creation is resolved to the Run that its key made, to a new Run where nobody
/// has the key, or refused; a key with a defect is refused at once.
pub proof fn law_a_creation_is_resolved_by_its_key(
    manager: &mut RunManager,
    key: OperationKey,
    request: CreationRequest,
    r: Result<Option<RunId>, ProtocolError>,
)
    requires
        old(manager)@.registry.valid(),
        call_ensures(RunManager::resolve_creation, (manager, &key, &request), r),
    ensures
        key.defect is Some ==> (r matches Err(error) && error.code == ErrorCode::InvalidRequest)
            && final(manager)@ == old(manager)@,
        r matches Ok(Some(id)) ==> exists|i: int|
            0 <= i < old(manager)@.registry.runs.len() && (
            #[trigger] old(manager)@.registry.runs[i]).facts.id == id && old(
                manager,
            )@.registry.runs[i].residency == Residency::Retained && (old(
                manager,
            )@.registry.runs[i].operation_key matches Some(taken) && taken@ == key@),
        r matches Ok(None) ==> forall|i: int|
            0 <= i < old(manager)@.registry.runs.len() ==> ((
            #[trigger] old(manager)@.registry.runs[i]).operation_key matches Some(taken) ==> taken@
                != key@),
        final(manager)@.registry == old(manager)@.registry,
        final(manager)@.flights == old(manager)@.flights,
{
    if key.defect is None {
        let runs = old(manager)@.registry.runs;
        if let Ok(Some(id)) = r {
            let i = choose|i: int|
                0 <= i < runs.len() && key_view((#[trigger] runs[i]).operation_key) == Some(key@)
                    && runs[i].residency == Residency::Retained && runs[i].facts.id == id;
            assert(runs[i].facts.id == id);
        }
        if let Ok(None) = r {
            assert forall|i: int| 0 <= i < runs.len() implies ((
            #[trigger] runs[i]).operation_key matches Some(taken) ==> taken@ != key@) by {
                assert(key_view(runs[i].operation_key) != Some(key@));
            }
        }
    }
}

/// A creation that finds a Run finds one that is retained under its key.
pub proof fn law_a_creation_finds_the_run_of_its_key(
    manager: &mut RunManager,
    key: OperationKey,
    request: CreationRequest,
    parent: Option<&Run>,
    continues: bool,
    id: RunId,
)
    requires
        call_ensures(
            RunManager::create,
            (manager, &key, request, parent, continues),
            CreationStep::Existing(id),
        ),
    ensures
        key.defect is None,
        exists|i: int|
            0 <= i < old(manager)@.registry.runs.len() && (
            #[trigger] old(manager)@.registry.runs[i]).facts.id == id && old(
                manager,
            )@.registry.runs[i].residency == Residency::Retained && (old(
                manager,
            )@.registry.runs[i].operation_key matches Some(taken) && taken@ == key@),
        final(manager)@ == old(manager)@,
{
    let runs = old(manager)@.registry.runs;
    let i = choose|i: int|
        0 <= i < runs.len() && key_view((#[trigger] runs[i]).operation_key) == Some(key@)
            && runs[i].residency == Residency::Retained && runs[i].facts.id == id;
    assert(runs[i].facts.id == id);
}

} // verus!
