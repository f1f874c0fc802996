//! Specifications of Runs and requests to create them, compared by content.

use vstd::prelude::*;

use crate::identity::RunId;
use crate::order::texts_of;
use crate::protocol::{ForkFidelity, ForkPlan, RunLineage, RunSpec, TerminalSize};
use crate::text::{owned, same_text};

verus! {

/// The characters of some names and values.
pub open spec fn pairs_view(pairs: Seq<(String, String)>) -> Seq<(Seq<char>, Seq<char>)> {
    pairs.map_values(|pair: (String, String)| (pair.0@, pair.1@))
}

/// The environment that some names and values make: of two values for one name
/// the later counts.
pub open spec fn environment(pairs: Seq<(Seq<char>, Seq<char>)>) -> Map<Seq<char>, Seq<char>>
    decreases pairs.len(),
{
    if pairs.len() == 0 {
        Map::empty()
    } else {
        environment(pairs.drop_last()).insert(pairs.last().0, pairs.last().1)
    }
}

/// A specification by its content.
pub struct RunSpecView {
    pub program: Seq<char>,
    pub args: Seq<Seq<char>>,
    pub cwd: Option<Seq<char>>,
    pub env: Map<Seq<char>, Seq<char>>,
    pub size: TerminalSize,
    pub declared_inputs: Seq<Seq<char>>,
}

fn same_texts(a: &Vec<String>, b: &Vec<String>) -> (r: bool)
    ensures
        r == (texts_of(a@) == texts_of(b@)),
{
    if a.len() != b.len() {
        assert(texts_of(a@).len() != texts_of(b@).len());
        return false;
    }
    let mut i: usize = 0;
    while i < a.len()
        invariant
            i <= a@.len(),
            a@.len() == b@.len(),
            forall|k: int| 0 <= k < i ==> (#[trigger] a@[k])@ == b@[k]@,
        decreases a@.len() - i,
    {
        if !same_text(&a[i], &b[i]) {
            assert(texts_of(a@)[i as int] != texts_of(b@)[i as int]);
            return false;
        }
        i = i + 1;
    }
    assert(texts_of(a@) =~= texts_of(b@));
    true
}

/// The names of an environment are those that were given.
pub proof fn lemma_environment_names(pairs: Seq<(Seq<char>, Seq<char>)>, name: Seq<char>)
    ensures
        environment(pairs).contains_key(name) <==> exists|i: int|
            0 <= i < pairs.len() && (#[trigger] pairs[i]).0 == name,
    decreases pairs.len(),
{
    if pairs.len() > 0 {
        let shorter = pairs.drop_last();
        lemma_environment_names(shorter, name);
        if environment(pairs).contains_key(name) {
            if pairs.last().0 == name {
                assert(pairs[pairs.len() - 1].0 == name);
            } else {
                let i = choose|i: int| 0 <= i < shorter.len() && (#[trigger] shorter[i]).0 == name;
                assert(pairs[i].0 == name);
            }
        }
        if exists|i: int| 0 <= i < pairs.len() && (#[trigger] pairs[i]).0 == name {
            let i = choose|i: int| 0 <= i < pairs.len() && (#[trigger] pairs[i]).0 == name;
            if i < shorter.len() {
                assert(shorter[i].0 == name);
            }
        }
    }
}

/// A variable has the last value that was given for its name.
pub proof fn lemma_last_value_counts(pairs: Seq<(Seq<char>, Seq<char>)>, place: int)
    requires
        0 <= place < pairs.len(),
        forall|k: int| place < k < pairs.len() ==> (#[trigger] pairs[k]).0 != pairs[place].0,
    ensures
        environment(pairs).contains_key(pairs[place].0),
        environment(pairs)[pairs[place].0] == pairs[place].1,
    decreases pairs.len(),
{
    if place < pairs.len() - 1 {
        let shorter = pairs.drop_last();
        assert forall|k: int| place < k < shorter.len() implies (#[trigger] shorter[k]).0
            != shorter[place].0 by {
            assert(pairs[k].0 != pairs[place].0);
        }
        lemma_last_value_counts(shorter, place);
        assert(pairs[pairs.len() - 1].0 != pairs[place].0);
    }
}

/// Whether no name occurs twice.
pub open spec fn names_are_distinct(pairs: Seq<(Seq<char>, Seq<char>)>) -> bool {
    forall|i: int, j: int|
        0 <= i < pairs.len() && 0 <= j < pairs.len() && i != j ==> (#[trigger] pairs[i]).0 != (
        #[trigger] pairs[j]).0
}

/// The order in which variables are given does not matter: the same names and
/// values make the same environment.
pub proof fn law_the_order_of_variables_does_not_matter(
    a: Seq<(Seq<char>, Seq<char>)>,
    b: Seq<(Seq<char>, Seq<char>)>,
)
    requires
        names_are_distinct(a),
        names_are_distinct(b),
        a.to_multiset() == b.to_multiset(),
    ensures
        environment(a) == environment(b),
{
    assert forall|name: Seq<char>| #[trigger] environment(a).contains_key(name) implies environment(
        b,
    ).contains_key(name) && environment(a)[name] == environment(b)[name] by {
        lemma_variable_stays(a, b, name);
    }
    assert forall|name: Seq<char>| #[trigger] environment(b).contains_key(name) implies environment(
        a,
    ).contains_key(name) by {
        lemma_variable_stays(b, a, name);
    }
    assert(environment(a) =~= environment(b));
}

proof fn lemma_variable_stays(
    a: Seq<(Seq<char>, Seq<char>)>,
    b: Seq<(Seq<char>, Seq<char>)>,
    name: Seq<char>,
)
    requires
        names_are_distinct(a),
        names_are_distinct(b),
        a.to_multiset() == b.to_multiset(),
        environment(a).contains_key(name),
    ensures
        environment(b).contains_key(name),
        environment(a)[name] == environment(b)[name],
{
    broadcast use vstd::seq_lib::group_to_multiset_ensures;

    lemma_environment_names(a, name);
    let i = choose|i: int| 0 <= i < a.len() && (#[trigger] a[i]).0 == name;
    lemma_last_value_counts(a, i);
    assert(a.to_multiset().count(a[i]) > 0);
    assert(b.contains(a[i]));
    let j = choose|j: int| 0 <= j < b.len() && b[j] == a[i];
    lemma_last_value_counts(b, j);
}

/// The value of a variable, where there is one.
fn variable<'a>(env: &'a Vec<(String, String)>, name: &String) -> (r: Option<&'a String>)
    ensures
        match r {
            Some(value) => environment(pairs_view(env@)).contains_key(name@) && environment(
                pairs_view(env@),
            )[name@] == value@,
            None => !environment(pairs_view(env@)).contains_key(name@),
        },
{
    let ghost pairs = pairs_view(env@);
    let mut left: usize = env.len();
    while left > 0
        invariant
            left <= env@.len(),
            pairs == pairs_view(env@),
            forall|k: int| left <= k < pairs.len() ==> (#[trigger] pairs[k]).0 != name@,
        decreases left,
    {
        left = left - 1;
        if same_text(&env[left].0, name) {
            proof {
                assert(pairs[left as int].0 == name@);
                lemma_last_value_counts(pairs, left as int);
            }
            return Some(&env[left].1);
        }
        assert(pairs[left as int].0 != name@);
    }
    proof {
        lemma_environment_names(pairs, name@);
    }
    None
}

/// Whether every variable of `a` has the same value in `b`.
fn environment_within(a: &Vec<(String, String)>, b: &Vec<(String, String)>) -> (r: bool)
    ensures
        r == forall|name: Seq<char>| #[trigger]
            environment(pairs_view(a@)).contains_key(name) ==> environment(
                pairs_view(b@),
            ).contains_key(name) && environment(pairs_view(a@))[name] == environment(
                pairs_view(b@),
            )[name],
{
    let ghost left = environment(pairs_view(a@));
    let ghost right = environment(pairs_view(b@));
    let mut i: usize = 0;
    while i < a.len()
        invariant
            i <= a@.len(),
            left == environment(pairs_view(a@)),
            right == environment(pairs_view(b@)),
            forall|k: int|
                0 <= k < i ==> right.contains_key((#[trigger] a@[k]).0@) && left[a@[k].0@]
                    == right[a@[k].0@],
        decreases a@.len() - i,
    {
        proof {
            assert(pairs_view(a@)[i as int].0 == a@[i as int].0@);
            lemma_environment_names(pairs_view(a@), a@[i as int].0@);
        }
        let same = match (variable(a, &a[i].0), variable(b, &a[i].0)) {
            (Some(x), Some(y)) => same_text(x, y),
            _ => false,
        };
        if !same {
            assert(left.contains_key(a@[i as int].0@));
            return false;
        }
        i = i + 1;
    }
    assert forall|name: Seq<char>| #[trigger] left.contains_key(name) implies right.contains_key(
        name,
    ) && left[name] == right[name] by {
        lemma_environment_names(pairs_view(a@), name);
        let k = choose|k: int|
            0 <= k < pairs_view(a@).len() && (#[trigger] pairs_view(a@)[k]).0 == name;
        assert(a@[k].0@ == name);
    }
    true
}

fn same_environment(a: &Vec<(String, String)>, b: &Vec<(String, String)>) -> (r: bool)
    ensures
        r == (environment(pairs_view(a@)) == environment(pairs_view(b@))),
{
    let r = environment_within(a, b) && environment_within(b, a);
    proof {
        if r {
            assert(environment(pairs_view(a@)) =~= environment(pairs_view(b@)));
        }
    }
    r
}

fn copied_texts(texts: &Vec<String>) -> (r: Vec<String>)
    ensures
        texts_of(r@) == texts_of(texts@),
{
    let mut r: Vec<String> = Vec::new();
    let mut i: usize = 0;
    while i < texts.len()
        invariant
            i <= texts@.len(),
            r@.len() == i,
            forall|k: int| 0 <= k < i ==> #[trigger] r@[k] == texts@[k],
        decreases texts@.len() - i,
    {
        r.push(texts[i].clone());
        i = i + 1;
    }
    assert(texts_of(r@) =~= texts_of(texts@));
    r
}

impl RunSpec {
    /// This specification by its content.
    pub open spec fn view(&self) -> RunSpecView {
        RunSpecView {
            program: self.program@,
            args: texts_of(self.args@),
            cwd: match self.cwd {
                Some(cwd) => Some(cwd@),
                None => None,
            },
            env: environment(pairs_view(self.env@)),
            size: self.size,
            declared_inputs: texts_of(self.declared_inputs@),
        }
    }

    /// Whether both specifications have the same content.
    pub fn same(&self, other: &RunSpec) -> (r: bool)
        ensures
            r == (self@ == other@),
    {
        let same_cwd = match (&self.cwd, &other.cwd) {
            (Some(a), Some(b)) => same_text(a, b),
            (None, None) => true,
            _ => false,
        };
        same_text(&self.program, &other.program) && same_cwd && self.size.cols == other.size.cols
            && self.size.rows == other.size.rows && same_texts(&self.args, &other.args)
            && same_environment(&self.env, &other.env) && same_texts(
            &self.declared_inputs,
            &other.declared_inputs,
        )
    }

    /// A copy of this specification.
    pub fn copied(&self) -> (r: RunSpec)
        ensures
            r@ == self@,
    {
        let mut env: Vec<(String, String)> = Vec::new();
        let mut i: usize = 0;
        while i < self.env.len()
            invariant
                i <= self.env@.len(),
                env@.len() == i,
                forall|k: int|
                    0 <= k < i ==> (#[trigger] env@[k]).0 == self.env@[k].0 && env@[k].1
                        == self.env@[k].1,
            decreases self.env@.len() - i,
        {
            env.push((self.env[i].0.clone(), self.env[i].1.clone()));
            i = i + 1;
        }
        assert(pairs_view(env@) =~= pairs_view(self.env@));
        let cwd = match &self.cwd {
            Some(cwd) => Some(cwd.clone()),
            None => None,
        };
        RunSpec {
            program: self.program.clone(),
            args: copied_texts(&self.args),
            cwd,
            env,
            size: self.size,
            declared_inputs: copied_texts(&self.declared_inputs),
        }
    }
}

/// The content of an optional specification.
pub open spec fn spec_view(spec: Option<RunSpec>) -> Option<RunSpecView> {
    match spec {
        Some(spec) => Some(spec@),
        None => None,
    }
}

/// A copy of an optional specification.
pub fn copied_spec(spec: &Option<RunSpec>) -> (r: Option<RunSpec>)
    ensures
        spec_view(r) == spec_view(*spec),
{
    match spec {
        Some(spec) => Some(spec.copied()),
        None => None,
    }
}

/// Why a terminal cannot have a size, where it cannot.
pub open spec fn size_defect(size: TerminalSize) -> Option<Seq<char>> {
    if size.cols == 0 || size.rows == 0 {
        Some("terminal rows and columns must be greater than zero"@)
    } else {
        None
    }
}

/// Why a specification cannot be executed, where it cannot.
pub open spec fn spec_defect(spec: RunSpecView) -> Option<Seq<char>> {
    if spec.program.len() == 0 {
        Some("Run program must not be empty"@)
    } else {
        size_defect(spec.size)
    }
}

/// Check the size of a terminal.
pub fn validate_terminal_size(size: TerminalSize) -> (r: Result<(), String>)
    ensures
        match size_defect(size) {
            Some(defect) => r matches Err(message) && message@ == defect,
            None => r == Ok::<(), String>(()),
        },
{
    if size.cols == 0 || size.rows == 0 {
        return Err(owned("terminal rows and columns must be greater than zero"));
    }
    Ok(())
}

/// Check a specification before anything is started for it.
pub fn validate_run_spec(spec: &RunSpec) -> (r: Result<(), String>)
    ensures
        match spec_defect(spec@) {
            Some(defect) => r matches Err(message) && message@ == defect,
            None => r == Ok::<(), String>(()),
        },
{
    if spec.program.as_str().unicode_len() == 0 {
        return Err(owned("Run program must not be empty"));
    }
    validate_terminal_size(spec.size)
}

/// What one Start or Fork asks for, whatever key it came with.
#[derive(Debug, PartialEq, Eq)]
pub enum CreationRequest {
    Start { spec: RunSpec },
    Fork { parent: RunId, plan: ForkPlan },
}

/// A request by its content.
pub enum CreationRequestView {
    Start { spec: RunSpecView },
    ForkLevelA { parent: RunId },
    ForkLevelB { parent: RunId, spec: RunSpecView },
}

impl CreationRequest {
    /// This request by its content.
    pub open spec fn view(&self) -> CreationRequestView {
        match self {
            CreationRequest::Start { spec } => CreationRequestView::Start { spec: spec@ },
            CreationRequest::Fork { parent, plan: ForkPlan::LevelA } =>
                CreationRequestView::ForkLevelA { parent: *parent },
            CreationRequest::Fork { parent, plan: ForkPlan::LevelB { spec } } =>
                CreationRequestView::ForkLevelB { parent: *parent, spec: spec@ },
        }
    }

    /// Whether both requests ask for the same.
    pub fn same(&self, other: &CreationRequest) -> (r: bool)
        ensures
            r == (self@ == other@),
    {
        match (self, other) {
            (CreationRequest::Start { spec: a }, CreationRequest::Start { spec: b }) => a.same(b),
            (
                CreationRequest::Fork { parent: a, plan: ForkPlan::LevelA },
                CreationRequest::Fork { parent: b, plan: ForkPlan::LevelA },
            ) => *a == *b,
            (
                CreationRequest::Fork { parent: a, plan: ForkPlan::LevelB { spec: c } },
                CreationRequest::Fork { parent: b, plan: ForkPlan::LevelB { spec: d } },
            ) => *a == *b && c.same(d),
            _ => false,
        }
    }

    /// A copy of this request.
    pub fn copied(&self) -> (r: CreationRequest)
        ensures
            r@ == self@,
    {
        match self {
            CreationRequest::Start { spec } => CreationRequest::Start { spec: spec.copied() },
            CreationRequest::Fork { parent, plan: ForkPlan::LevelA } => CreationRequest::Fork {
                parent: *parent,
                plan: ForkPlan::LevelA,
            },
            CreationRequest::Fork { parent, plan: ForkPlan::LevelB { spec } } =>
                CreationRequest::Fork {
                    parent: *parent,
                    plan: ForkPlan::LevelB { spec: spec.copied() },
                },
        }
    }
}

/// Whether a request is the one that created a Run with this specification and
/// lineage.
pub open spec fn request_created(
    request: CreationRequestView,
    spec: Option<RunSpecView>,
    lineage: Option<RunLineage>,
) -> bool {
    match (request, spec, lineage) {
        (CreationRequestView::Start { spec: asked }, Some(spec), None) => asked == spec,
        (CreationRequestView::ForkLevelA { parent }, Some(_), Some(lineage)) => lineage.parent
            == parent && lineage.fidelity == ForkFidelity::LevelA,
        (
            CreationRequestView::ForkLevelB { parent, spec: asked },
            Some(spec),
            Some(lineage),
        ) => lineage.parent == parent && lineage.fidelity == ForkFidelity::LevelB && asked == spec,
        _ => false,
    }
}

/// Decide whether a request is the one that created a Run.
pub fn matches_run(
    request: &CreationRequest,
    spec: &Option<RunSpec>,
    lineage: &Option<RunLineage>,
) -> (r: bool)
    ensures
        r == request_created(request@, spec_view(*spec), *lineage),
{
    match (request, spec, lineage) {
        (CreationRequest::Start { spec: asked }, Some(spec), None) => asked.same(spec),
        (
            CreationRequest::Fork { parent, plan: ForkPlan::LevelA },
            Some(_),
            Some(lineage),
        ) => lineage.parent == *parent && matches!(lineage.fidelity, ForkFidelity::LevelA),
        (
            CreationRequest::Fork { parent, plan: ForkPlan::LevelB { spec: asked } },
            Some(spec),
            Some(lineage),
        ) => lineage.parent == *parent && matches!(lineage.fidelity, ForkFidelity::LevelB)
            && asked.same(spec),
        _ => false,
    }
}

} // verus!
