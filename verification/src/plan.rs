//! Transaction planning for infrastructure (RMM) intents.
//!
//! An intent such as "restart this node", "run this command" or "provision this
//! role" is resolved into an ordered [`TransactionPlan`] of canonical
//! [`PlanStep`]s that an agent knows how to execute. The step vocabulary in
//! [`action`] is the contract the agent implements.

pub mod action;

use vstd::prelude::*;
use crate::params::Params;
use crate::text::{
    has_prefix, lemma_text_lt_trichotomy, str_eq, strip_prefix, text_lt,
};
use self::action::{
    COMMAND_RUN, FILE_WRITE, INTENT_CUSTOM, PACKAGE_ENSURE, ROLE_PROVISION, SERVICE_ENSURE,
    SYSTEM_POWER_OFF, SYSTEM_POWER_ON, SYSTEM_REBOOT,
};

verus! {

/// What a compensation denotes: an action and its parameters.
pub struct CompensationView {
    pub action: Seq<char>,
    pub params: Map<Seq<char>, Seq<char>>,
}

/// What a step denotes, leaving out its generated id.
pub struct StepShape {
    pub action: Seq<char>,
    pub params: Map<Seq<char>, Seq<char>>,
    pub compensation: Option<CompensationView>,
    pub critical: bool,
}

/// What the caller forwards to the planner.
#[derive(Debug, Clone)]
pub struct PlanRequest {
    pub intent: String,
    pub targets: Vec<String>,
    pub requester_id: String,
    pub auto_rollback: bool,
    pub params: Params,
    /// Optional caller-supplied task id, so that caller and planner agree on one
    /// correlation id. Generated if absent.
    pub task_id: Option<String>,
}

/// One executable step. `compensation`, when present, is the action an agent
/// runs to undo this step during rollback.
#[derive(Debug, Clone)]
pub struct PlanStep {
    pub id: String,
    pub action: String,
    pub params: Params,
    pub compensation: Option<Compensation>,
    /// Whether this step, if it fails, should abort the whole plan.
    pub critical: bool,
}

/// A minimal inverse action for rollback.
#[derive(Debug, Clone)]
pub struct Compensation {
    pub action: String,
    pub params: Params,
}

/// An ordered, targeted plan derived from one intent.
#[derive(Debug, Clone)]
pub struct TransactionPlan {
    pub task_id: String,
    pub intent: String,
    pub targets: Vec<String>,
    pub auto_rollback: bool,
    pub steps: Vec<PlanStep>,
}

/// The orchestrator's answer to a plan request.
#[derive(Debug, Clone)]
pub struct PlanResponse {
    pub task_id: String,
    pub status: String,
    pub plan: TransactionPlan,
}

impl View for Compensation {
    type V = CompensationView;

    open spec fn view(&self) -> CompensationView {
        CompensationView { action: self.action@, params: self.params@ }
    }
}

impl PlanStep {
    /// The step without its id.
    pub open spec fn shape(&self) -> StepShape {
        StepShape {
            action: self.action@,
            params: self.params@,
            compensation: match self.compensation {
                Some(c) => Some(c@),
                None => None,
            },
            critical: self.critical,
        }
    }
}

/// The shapes of a list of steps.
pub open spec fn step_shapes(steps: Seq<PlanStep>) -> Seq<StepShape> {
    steps.map_values(|s: PlanStep| s.shape())
}

/// A lower-case hexadecimal digit.
pub open spec fn is_lower_hex(c: char) -> bool {
    ('0' <= c && c <= '9') || ('a' <= c && c <= 'f')
}

/// The hyphenated lower-case text of a version 7 UUID: 8-4-4-4-12 hexadecimal
/// digits, version digit `7`, variant digit one of `8`, `9`, `a`, `b`.
pub open spec fn is_uuid_v7_text(s: Seq<char>) -> bool {
    &&& s.len() == 36
    &&& forall|i: int|
        0 <= i < 36 ==> if i == 8 || i == 13 || i == 18 || i == 23 {
            #[trigger] s[i] == '-'
        } else {
            is_lower_hex(s[i])
        }
    &&& s[14] == '7'
    &&& (s[19] == '8' || s[19] == '9' || s[19] == 'a' || s[19] == 'b')
}

/// Every step's id is the text of a version 7 UUID.
pub open spec fn ids_are_v7_uuids(steps: Seq<PlanStep>) -> bool {
    forall|i: int| 0 <= i < steps.len() ==> is_uuid_v7_text(#[trigger] steps[i].id@)
}

/// The steps' ids increase in the order of the steps, as ids made one after the
/// other do.
pub open spec fn ids_increase(steps: Seq<PlanStep>) -> bool {
    forall|i: int, j: int| #![trigger steps[i], steps[j]] 0 <= i < j < steps.len() ==> text_lt(steps[i].id@, steps[j].id@)
}

/// The value stored under `key`, or the empty string.
pub open spec fn lookup(p: Map<Seq<char>, Seq<char>>, key: Seq<char>) -> Seq<char> {
    if p.contains_key(key) {
        p[key]
    } else {
        Seq::empty()
    }
}

/// The map built from key/value pairs in order, skipping empty values; a later
/// pair overrides an earlier one with the same key.
pub open spec fn pairs_map(pairs: Seq<(Seq<char>, Seq<char>)>) -> Map<Seq<char>, Seq<char>>
    decreases pairs.len(),
{
    if pairs.len() == 0 {
        Map::empty()
    } else {
        let rest = pairs_map(pairs.drop_last());
        let (k, v) = pairs.last();
        if v.len() == 0 {
            rest
        } else {
            rest.insert(k, v)
        }
    }
}

/// The pairs of string slices, taken by their characters.
pub open spec fn pair_views(pairs: Seq<(&str, &str)>) -> Seq<(Seq<char>, Seq<char>)> {
    pairs.map_values(|p: (&str, &str)| (p.0@, p.1@))
}

/// A step without compensation.
pub open spec fn plain_shape(action: Seq<char>, params: Map<Seq<char>, Seq<char>>, critical: bool) -> StepShape {
    StepShape { action, params, compensation: None, critical }
}

/// Returns the hyphenated texts of `n` version 7 UUIDs, made one after the other.
///
/// Calls `uuid::Uuid::now_v7` `n` times and renders each result with the
/// crate's `Display` impl (lower-case hyphenated hexadecimal). The crate
/// documents that the UUIDs this method makes in one process are ordered by
/// their creation; in lower-case hyphenated text that order is the order of
/// [`text_lt`]. The contract claims that order and the format that every such
/// UUID has; the timestamp and random bits are left unsaid, since they depend on
/// the clock and on chance. The call panics only where the system clock reads a
/// time before 1970 or the operating system's random source fails, which no
/// argument decides.
#[verifier::external_body]
fn new_v7_uuid_texts(n: usize) -> (r: Vec<String>)
    ensures
        r@.len() == n,
        forall|i: int| 0 <= i < n ==> is_uuid_v7_text(#[trigger] r@[i]@),
        forall|i: int, j: int| #![trigger r@[i], r@[j]] 0 <= i < j < n ==> text_lt(r@[i]@, r@[j]@),
{
    (0..n).map(|_| uuid::Uuid::now_v7().to_string()).collect()
}

/// A step without compensation, its id still to be given.
fn draft_step(action: &str, params: Params, critical: bool) -> (s: PlanStep)
    ensures
        s.shape() == plain_shape(action@, params@, critical),
{
    PlanStep {
        id: String::new(),
        action: action.to_owned(),
        params,
        compensation: None,
        critical,
    }
}

/// The steps `drafts`, given the ids `ids` in order.
fn with_ids(drafts: Vec<PlanStep>, ids: Vec<String>) -> (r: Vec<PlanStep>)
    requires
        ids@.len() == drafts@.len(),
    ensures
        step_shapes(r@) == step_shapes(drafts@),
        r@.len() == ids@.len(),
        forall|i: int| 0 <= i < r@.len() ==> #[trigger] r@[i].id@ == ids@[i]@,
{
    let ghost d0 = drafts@;
    let ghost i0 = ids@;
    let n = drafts.len();
    let mut drafts = drafts;
    let mut ids = ids;
    let mut r: Vec<PlanStep> = Vec::new();
    let mut i: usize = 0;
    while i < n
        invariant
            n == d0.len(),
            n == i0.len(),
            i <= n,
            drafts@ == d0.skip(i as int),
            ids@ == i0.skip(i as int),
            r@.len() == i,
            forall|j: int| 0 <= j < i ==> (#[trigger] r@[j]).shape() == d0[j].shape() && r@[j].id@ == i0[j]@,
        decreases n - i,
    {
        let mut s = drafts.remove(0);
        let id = ids.remove(0);
        assert(s == d0[i as int] && id == i0[i as int]);
        s.id = id;
        r.push(s);
        assert(drafts@ =~= d0.skip(i + 1));
        assert(ids@ =~= i0.skip(i + 1));
        i = i + 1;
    }
    assert(step_shapes(r@) =~= step_shapes(d0));
    r
}

/// The one step `draft`, given a generated id.
fn with_new_id(draft: PlanStep) -> (s: PlanStep)
    ensures
        s.shape() == draft.shape(),
        is_uuid_v7_text(s.id@),
{
    let mut ids = new_v7_uuid_texts(1);
    let mut s = draft;
    s.id = ids.remove(0);
    s
}

/// Builds a params map from key/value pairs, skipping empty values.
pub fn params_of(pairs: &[(&str, &str)]) -> (r: Params)
    ensures
        r@ == pairs_map(pair_views(pairs@)),
{
    let ghost views = pair_views(pairs@);
    let n = pairs.len();
    let mut r = Params::new();
    let mut i: usize = 0;
    assert(views.take(0) =~= Seq::<(Seq<char>, Seq<char>)>::empty());
    while i < n
        invariant
            n == pairs@.len(),
            views == pair_views(pairs@),
            i <= n,
            r@ == pairs_map(views.take(i as int)),
        decreases n - i,
    {
        let (k, v) = pairs[i];
        assert(views.take(i + 1).drop_last() =~= views.take(i as int));
        assert(views.take(i + 1).last() == (k@, v@));
        if !v.is_empty() {
            r.insert(k.to_owned(), v.to_owned());
        }
        i = i + 1;
    }
    assert(views.take(n as int) =~= views);
    r
}

/// The value stored under `key`, or `""` where there is none.
pub fn get<'a>(p: &'a Params, key: &str) -> (r: &'a str)
    ensures
        r@ == lookup(p@, key@),
{
    match p.get(key) {
        Some(v) => v.as_str(),
        None => {
            proof {
                reveal_strlit("");
            }
            ""
        },
    }
}

/// A `package.ensure` step: installing (`state` "present") is compensated by
/// removing the same package; removing is not compensated.
pub open spec fn package_shape(name: Seq<char>, state: Seq<char>, version: Seq<char>) -> StepShape {
    StepShape {
        action: PACKAGE_ENSURE@,
        params: pairs_map(seq![("name"@, name), ("state"@, state), ("version"@, version)]),
        compensation: if state == "present"@ {
            Some(
                CompensationView {
                    action: PACKAGE_ENSURE@,
                    params: pairs_map(seq![("name"@, name), ("state"@, "absent"@)]),
                },
            )
        } else {
            None
        },
        critical: true,
    }
}

/// A `service.ensure` step.
pub open spec fn service_shape(name: Seq<char>, run_state: Seq<char>, enabled: Seq<char>) -> StepShape {
    plain_shape(
        SERVICE_ENSURE@,
        pairs_map(seq![("name"@, name), ("state"@, run_state), ("enabled"@, enabled)]),
        true,
    )
}

/// The steps that provision a role: the built-in expansions of `webserver`
/// and `database`, and a single `role.provision` marker step for any other role.
pub open spec fn provision_shapes(role: Seq<char>) -> Seq<StepShape> {
    if role == "webserver"@ {
        seq![
            package_shape("nginx"@, "present"@, Seq::empty()),
            service_shape("nginx"@, "started"@, "true"@),
        ]
    } else if role == "database"@ {
        seq![
            package_shape("postgresql"@, "present"@, Seq::empty()),
            service_shape("postgresql"@, "started"@, "true"@),
        ]
    } else {
        seq![plain_shape(ROLE_PROVISION@, pairs_map(seq![("role"@, role)]), true)]
    }
}

/// A `package.ensure` step without its id.
fn draft_package_step(name: &str, state: &str, version: &str) -> (s: PlanStep)
    ensures
        s.shape() == package_shape(name@, state@, version@),
{
    let pairs = [("name", name), ("state", state), ("version", version)];
    let params = params_of(&pairs);
    assert(pair_views(pairs@) =~= seq![("name"@, name@), ("state"@, state@), ("version"@, version@)]);
    let mut s = draft_step(PACKAGE_ENSURE, params, true);
    // Installing is reversible by removing; removing is not auto-compensated.
    if str_eq(state, "present") {
        let undo = [("name", name), ("state", "absent")];
        let undo_params = params_of(&undo);
        assert(pair_views(undo@) =~= seq![("name"@, name@), ("state"@, "absent"@)]);
        s.compensation = Some(Compensation { action: PACKAGE_ENSURE.to_owned(), params: undo_params });
    }
    s
}

/// A `package.ensure` step, with a compensation that removes what it installs.
pub fn package_step(name: &str, state: &str, version: &str) -> (s: PlanStep)
    ensures
        s.shape() == package_shape(name@, state@, version@),
        is_uuid_v7_text(s.id@),
{
    with_new_id(draft_package_step(name, state, version))
}

/// A `service.ensure` step without its id.
fn draft_service_step(name: &str, run_state: &str, enabled: &str) -> (s: PlanStep)
    ensures
        s.shape() == service_shape(name@, run_state@, enabled@),
{
    let pairs = [("name", name), ("state", run_state), ("enabled", enabled)];
    let params = params_of(&pairs);
    assert(pair_views(pairs@) =~= seq![("name"@, name@), ("state"@, run_state@), ("enabled"@, enabled@)]);
    draft_step(SERVICE_ENSURE, params, true)
}

/// A `service.ensure` step.
pub fn service_step(name: &str, run_state: &str, enabled: &str) -> (s: PlanStep)
    ensures
        s.shape() == service_shape(name@, run_state@, enabled@),
        is_uuid_v7_text(s.id@),
{
    with_new_id(draft_service_step(name, run_state, enabled))
}

/// The steps that provision a role, without their ids.
fn draft_provision_steps(role: &str) -> (r: Vec<PlanStep>)
    ensures
        step_shapes(r@) == provision_shapes(role@),
{
    proof {
        reveal_strlit("");
        assert(""@ =~= Seq::<char>::empty());
    }
    let mut r: Vec<PlanStep> = Vec::new();
    if str_eq(role, "webserver") {
        r.push(draft_package_step("nginx", "present", ""));
        r.push(draft_service_step("nginx", "started", "true"));
    } else if str_eq(role, "database") {
        r.push(draft_package_step("postgresql", "present", ""));
        r.push(draft_service_step("postgresql", "started", "true"));
    } else {
        let pairs = [("role", role)];
        let params = params_of(&pairs);
        assert(pair_views(pairs@) =~= seq![("role"@, role@)]);
        r.push(draft_step(ROLE_PROVISION, params, true));
    }
    assert(step_shapes(r@) =~= provision_shapes(role@));
    r
}

/// Steps to provision a known role. Unknown roles fall back to a single
/// `role.provision` marker step so nothing is silently dropped.
pub fn provision_steps(role: &str) -> (r: Vec<PlanStep>)
    ensures
        step_shapes(r@) == provision_shapes(role@),
        ids_are_v7_uuids(r@),
        ids_increase(r@),
{
    let drafts = draft_provision_steps(role);
    let ids = new_v7_uuid_texts(drafts.len());
    with_ids(drafts, ids)
}

/// `value`, or `default` where `value` is empty.
pub open spec fn or_default(value: Seq<char>, default: Seq<char>) -> Seq<char> {
    if value.len() == 0 {
        default
    } else {
        value
    }
}

/// The package a package intent names: `name`, or `package` where `name` is empty.
pub open spec fn package_name(p: Map<Seq<char>, Seq<char>>) -> Seq<char> {
    or_default(lookup(p, "name"@), lookup(p, "package"@))
}

/// The `command` and `cwd` entries of a request's parameters, empty values kept.
pub open spec fn command_params(p: Map<Seq<char>, Seq<char>>) -> Map<Seq<char>, Seq<char>> {
    let with_command = if p.contains_key("command"@) {
        Map::empty().insert("command"@, p["command"@])
    } else {
        Map::empty()
    };
    if p.contains_key("cwd"@) {
        with_command.insert("cwd"@, p["cwd"@])
    } else {
        with_command
    }
}

/// The parameters of a `file.write` step.
pub open spec fn file_params(p: Map<Seq<char>, Seq<char>>) -> Map<Seq<char>, Seq<char>> {
    pairs_map(
        seq![
            ("path"@, lookup(p, "path"@)),
            ("content"@, lookup(p, "content"@)),
            ("mode"@, lookup(p, "mode"@)),
            ("owner"@, lookup(p, "owner"@)),
            ("group"@, lookup(p, "group"@)),
        ],
    )
}

/// The steps that an intent with parameters `p` resolves into.
///
/// Recognized intents are the node actions (`restart_node`, `power_off_node`,
/// `power_on_node`, `run_command`), the package, service and file intents, and the
/// `provision_<role>` family. Anything else is planned as a single passthrough
/// `intent.custom` step, so that unknown intents degrade safely rather than being
/// dropped.
pub open spec fn intent_steps(intent: Seq<char>, p: Map<Seq<char>, Seq<char>>) -> Seq<StepShape> {
    if intent == "restart_node"@ {
        seq![plain_shape(SYSTEM_REBOOT@, Map::empty(), true)]
    } else if intent == "power_off_node"@ {
        seq![plain_shape(SYSTEM_POWER_OFF@, Map::empty(), true)]
    } else if intent == "power_on_node"@ {
        seq![plain_shape(SYSTEM_POWER_ON@, Map::empty(), true)]
    } else if intent == "run_command"@ {
        seq![plain_shape(COMMAND_RUN@, command_params(p), true)]
    } else if intent == "install_package"@ {
        seq![package_shape(package_name(p), "present"@, lookup(p, "version"@))]
    } else if intent == "remove_package"@ {
        seq![package_shape(package_name(p), "absent"@, Seq::empty())]
    } else if intent == "manage_service"@ {
        seq![
            service_shape(
                lookup(p, "name"@),
                or_default(lookup(p, "state"@), "started"@),
                or_default(lookup(p, "enabled"@), "true"@),
            ),
        ]
    } else if intent == "deploy_file"@ {
        seq![plain_shape(FILE_WRITE@, file_params(p), true)]
    } else if has_prefix(intent, "provision_"@) {
        provision_shapes(intent.skip("provision_"@.len() as int))
    } else {
        seq![plain_shape(INTENT_CUSTOM@, p.insert("intent"@, intent), false)]
    }
}

/// `plan` is a plan for `req`: it keeps the request's intent, targets, rollback
/// flag and task id, and its steps are those of the intent. Where the request
/// has no task id, the plan's is a generated version 7 UUID made before the
/// steps' ids; the steps' ids are version 7 UUIDs made one after the other.
pub open spec fn is_plan_for(plan: TransactionPlan, req: PlanRequest) -> bool {
    &&& plan.intent@ == req.intent@
    &&& plan.targets@ == req.targets@
    &&& plan.auto_rollback == req.auto_rollback
    &&& match req.task_id {
        Some(t) => plan.task_id@ == t@,
        None => {
            &&& is_uuid_v7_text(plan.task_id@)
            &&& forall|i: int| 0 <= i < plan.steps@.len() ==> text_lt(plan.task_id@, #[trigger] plan.steps@[i].id@)
        },
    }
    &&& step_shapes(plan.steps@) == intent_steps(req.intent@, req.params@)
    &&& ids_are_v7_uuids(plan.steps@)
    &&& ids_increase(plan.steps@)
}

/// A vector holding the one step `s`.
fn single(s: PlanStep) -> (r: Vec<PlanStep>)
    ensures
        r@ == seq![s],
{
    let mut r: Vec<PlanStep> = Vec::new();
    r.push(s);
    assert(r@ =~= seq![s]);
    r
}

/// Resolves an intent into a concrete plan.
pub fn plan_intent(req: &PlanRequest) -> (plan: TransactionPlan)
    ensures
        is_plan_for(plan, *req),
{
    proof {
        reveal_strlit("");
        assert(""@ =~= Seq::<char>::empty());
    }
    let intent = req.intent.as_str();
    let p = &req.params;
    let steps = if str_eq(intent, "restart_node") {
        single(draft_step(SYSTEM_REBOOT, Params::new(), true))
    } else if str_eq(intent, "power_off_node") {
        single(draft_step(SYSTEM_POWER_OFF, Params::new(), true))
    } else if str_eq(intent, "power_on_node") {
        single(draft_step(SYSTEM_POWER_ON, Params::new(), true))
    } else if str_eq(intent, "run_command") {
        let mut cp = Params::new();
        if let Some(cmd) = p.get("command") {
            cp.insert("command".to_owned(), cmd.clone());
        }
        if let Some(cwd) = p.get("cwd") {
            cp.insert("cwd".to_owned(), cwd.clone());
        }
        proof {
            assert(cp@ =~= command_params(p@));
        }
        single(draft_step(COMMAND_RUN, cp, true))
    } else if str_eq(intent, "install_package") {
        let name = get(p, "name");
        let name = if name.is_empty() {
            get(p, "package")
        } else {
            name
        };
        single(draft_package_step(name, "present", get(p, "version")))
    } else if str_eq(intent, "remove_package") {
        let name = get(p, "name");
        let name = if name.is_empty() {
            get(p, "package")
        } else {
            name
        };
        single(draft_package_step(name, "absent", ""))
    } else if str_eq(intent, "manage_service") {
        let enabled = get(p, "enabled");
        let enabled = if enabled.is_empty() {
            "true"
        } else {
            enabled
        };
        let run_state = get(p, "state");
        let run_state = if run_state.is_empty() {
            "started"
        } else {
            run_state
        };
        single(draft_service_step(get(p, "name"), run_state, enabled))
    } else if str_eq(intent, "deploy_file") {
        let pairs = [
            ("path", get(p, "path")),
            ("content", get(p, "content")),
            ("mode", get(p, "mode")),
            ("owner", get(p, "owner")),
            ("group", get(p, "group")),
        ];
        let fp = params_of(&pairs);
        assert(pair_views(pairs@) =~= seq![
            ("path"@, lookup(p@, "path"@)),
            ("content"@, lookup(p@, "content"@)),
            ("mode"@, lookup(p@, "mode"@)),
            ("owner"@, lookup(p@, "owner"@)),
            ("group"@, lookup(p@, "group"@)),
        ]);
        single(draft_step(FILE_WRITE, fp, true))
    } else if let Some(role) = strip_prefix(intent, "provision_") {
        draft_provision_steps(role)
    } else {
        let mut cp = p.clone();
        cp.insert("intent".to_owned(), req.intent.clone());
        single(draft_step(INTENT_CUSTOM, cp, false))
    };
    assert(step_shapes(steps@) =~= intent_steps(req.intent@, req.params@));
    assert(steps@.len() <= 2);
    let (task_id, steps) = match &req.task_id {
        Some(t) => {
            let ids = new_v7_uuid_texts(steps.len());
            (t.clone(), with_ids(steps, ids))
        },
        None => {
            // The task id is made first, then the steps' ids.
            let mut ids = new_v7_uuid_texts(steps.len() + 1);
            let ghost all = ids@;
            let task_id = ids.remove(0);
            assert(ids@ =~= all.skip(1));
            let steps = with_ids(steps, ids);
            proof {
                assert forall|i: int| 0 <= i < steps@.len() implies text_lt(task_id@, #[trigger] steps@[i].id@) by {
                    assert(all[0] == task_id && all[i + 1] == ids@[i]);
                }
            }
            (task_id, steps)
        },
    };
    TransactionPlan {
        task_id,
        intent: req.intent.clone(),
        targets: req.targets.clone(),
        auto_rollback: req.auto_rollback,
        steps,
    }
}

/// One of the canonical step actions of [`action`].
pub open spec fn is_canonical_action(a: Seq<char>) -> bool {
    ||| a == SYSTEM_REBOOT@
    ||| a == SYSTEM_POWER_OFF@
    ||| a == SYSTEM_POWER_ON@
    ||| a == COMMAND_RUN@
    ||| a == PACKAGE_ENSURE@
    ||| a == SERVICE_ENSURE@
    ||| a == FILE_WRITE@
    ||| a == ROLE_PROVISION@
    ||| a == INTENT_CUSTOM@
}

/// No intent is dropped: every intent, known or not, is planned as at least one step.
pub proof fn lemma_every_intent_yields_a_step(intent: Seq<char>, p: Map<Seq<char>, Seq<char>>)
    ensures
        intent_steps(intent, p).len() >= 1,
{
}

/// Every step of every plan uses one of the canonical actions that agents implement.
pub proof fn lemma_steps_use_canonical_actions(intent: Seq<char>, p: Map<Seq<char>, Seq<char>>)
    ensures
        forall|i: int|
            0 <= i < intent_steps(intent, p).len() ==> is_canonical_action(
                #[trigger] intent_steps(intent, p)[i].action,
            ),
{
}

/// The distinct action names.
proof fn lemma_actions_distinct()
    ensures
        SYSTEM_REBOOT@ != INTENT_CUSTOM@,
        SYSTEM_POWER_OFF@ != INTENT_CUSTOM@,
        SYSTEM_POWER_ON@ != INTENT_CUSTOM@,
        COMMAND_RUN@ != INTENT_CUSTOM@,
        PACKAGE_ENSURE@ != INTENT_CUSTOM@,
        SERVICE_ENSURE@ != INTENT_CUSTOM@,
        FILE_WRITE@ != INTENT_CUSTOM@,
        ROLE_PROVISION@ != INTENT_CUSTOM@,
        SYSTEM_REBOOT@ != PACKAGE_ENSURE@,
        SYSTEM_POWER_OFF@ != PACKAGE_ENSURE@,
        SYSTEM_POWER_ON@ != PACKAGE_ENSURE@,
        COMMAND_RUN@ != PACKAGE_ENSURE@,
        SERVICE_ENSURE@ != PACKAGE_ENSURE@,
        FILE_WRITE@ != PACKAGE_ENSURE@,
        ROLE_PROVISION@ != PACKAGE_ENSURE@,
{
    reveal_strlit("system.reboot");
    reveal_strlit("system.power_off");
    reveal_strlit("system.power_on");
    reveal_strlit("command.run");
    reveal_strlit("package.ensure");
    reveal_strlit("service.ensure");
    reveal_strlit("file.write");
    reveal_strlit("role.provision");
    reveal_strlit("intent.custom");
    assert(SYSTEM_REBOOT@[0] != INTENT_CUSTOM@[0]);
    assert(SYSTEM_POWER_OFF@[0] != INTENT_CUSTOM@[0]);
    assert(SYSTEM_POWER_ON@[0] != INTENT_CUSTOM@[0]);
    assert(COMMAND_RUN@[0] != INTENT_CUSTOM@[0]);
    assert(PACKAGE_ENSURE@[0] != INTENT_CUSTOM@[0]);
    assert(SERVICE_ENSURE@[0] != INTENT_CUSTOM@[0]);
    assert(FILE_WRITE@[0] != INTENT_CUSTOM@[0]);
    assert(ROLE_PROVISION@[0] != INTENT_CUSTOM@[0]);
    assert(SYSTEM_REBOOT@[0] != PACKAGE_ENSURE@[0]);
    assert(SYSTEM_POWER_OFF@[0] != PACKAGE_ENSURE@[0]);
    assert(SYSTEM_POWER_ON@[0] != PACKAGE_ENSURE@[0]);
    assert(COMMAND_RUN@[0] != PACKAGE_ENSURE@[0]);
    assert(SERVICE_ENSURE@[0] != PACKAGE_ENSURE@[0]);
    assert(FILE_WRITE@[0] != PACKAGE_ENSURE@[0]);
    assert(ROLE_PROVISION@[0] != PACKAGE_ENSURE@[0]);
}

/// Only the passthrough step of an unknown intent is optional: every other step
/// aborts the plan when it fails.
pub proof fn lemma_only_custom_steps_are_optional(intent: Seq<char>, p: Map<Seq<char>, Seq<char>>)
    ensures
        forall|i: int|
            0 <= i < intent_steps(intent, p).len() ==> (#[trigger] intent_steps(intent, p)[i].critical
                <==> intent_steps(intent, p)[i].action != INTENT_CUSTOM@),
{
    lemma_actions_distinct();
}

/// The parameters of a two-pair and a three-pair list.
proof fn lemma_pairs_map_small(a: (Seq<char>, Seq<char>), b: (Seq<char>, Seq<char>), c: (Seq<char>, Seq<char>))
    ensures
        pairs_map(seq![a]) == (if a.1.len() == 0 { Map::empty() } else { Map::empty().insert(a.0, a.1) }),
        pairs_map(seq![a, b]) == (if b.1.len() == 0 { pairs_map(seq![a]) } else { pairs_map(seq![a]).insert(b.0, b.1) }),
        pairs_map(seq![a, b, c]) == (if c.1.len() == 0 { pairs_map(seq![a, b]) } else { pairs_map(seq![a, b]).insert(c.0, c.1) }),
{
    assert(seq![a].drop_last() =~= Seq::<(Seq<char>, Seq<char>)>::empty());
    assert(pairs_map(Seq::<(Seq<char>, Seq<char>)>::empty()) == Map::<Seq<char>, Seq<char>>::empty());
    assert(seq![a, b].drop_last() =~= seq![a]);
    assert(seq![a, b, c].drop_last() =~= seq![a, b]);
}

/// The `state` of a package step is the state it was made with, and its
/// compensation, where there is one, carries the step's parameters with the
/// version left out and the state set to `absent`.
proof fn lemma_package_shape_compensation(name: Seq<char>, state: Seq<char>, version: Seq<char>)
    ensures
        lookup(package_shape(name, state, version).params, "state"@) == state,
        package_shape(name, state, version).compensation matches Some(c) ==> c.params
            == package_shape(name, state, version).params.remove("version"@).insert("state"@, "absent"@),
{
    reveal_strlit("name");
    reveal_strlit("state");
    reveal_strlit("version");
    reveal_strlit("absent");
    let na = ("name"@, name);
    let st = ("state"@, state);
    let ve = ("version"@, version);
    let ab = ("state"@, "absent"@);
    lemma_pairs_map_small(na, st, ve);
    lemma_pairs_map_small(na, ab, ve);
    assert("name"@[0] != "state"@[0]);
    assert("version"@[0] != "state"@[0]);
    assert("version"@[0] != "name"@[0]);
    let m = package_shape(name, state, version).params;
    if state.len() == 0 {
        assert(!m.contains_key("state"@));
    }
    assert(pairs_map(seq![na, ab]) =~= m.remove("version"@).insert("state"@, "absent"@));
}

/// Installing a package is reversible by removing it: a step is compensated
/// exactly when it ensures a package `present`, and its compensation ensures the
/// same package `absent`. Removing is not compensated.
pub proof fn lemma_installs_are_compensated_by_removal(intent: Seq<char>, p: Map<Seq<char>, Seq<char>>)
    ensures
        forall|i: int|
            0 <= i < intent_steps(intent, p).len() ==> {
                let s = #[trigger] intent_steps(intent, p)[i];
                &&& (s.compensation is Some <==> (s.action == PACKAGE_ENSURE@ && lookup(s.params, "state"@)
                    == "present"@))
                &&& s.compensation matches Some(c) ==> {
                    &&& c.action == PACKAGE_ENSURE@
                    &&& c.params == s.params.remove("version"@).insert("state"@, "absent"@)
                }
            },
{
    lemma_actions_distinct();
    reveal_strlit("");
    assert(""@ =~= Seq::<char>::empty());
    lemma_package_shape_compensation(package_name(p), "present"@, lookup(p, "version"@));
    lemma_package_shape_compensation(package_name(p), "absent"@, Seq::empty());
    lemma_package_shape_compensation("nginx"@, "present"@, Seq::empty());
    lemma_package_shape_compensation("postgresql"@, "present"@, Seq::empty());
}

/// `params_of` keeps no empty value: a key is in the map exactly when some pair
/// carries it with a non-empty value, and every value in the map is non-empty.
pub proof fn lemma_params_of_skips_empty_values(pairs: Seq<(Seq<char>, Seq<char>)>)
    ensures
        forall|k: Seq<char>|
            #[trigger] pairs_map(pairs).contains_key(k) <==> exists|i: int|
                0 <= i < pairs.len() && #[trigger] pairs[i].0 == k && pairs[i].1.len() > 0,
        forall|k: Seq<char>| #[trigger] pairs_map(pairs).contains_key(k) ==> pairs_map(pairs)[k].len() > 0,
    decreases pairs.len(),
{
    if pairs.len() > 0 {
        let rest = pairs.drop_last();
        let last = pairs[pairs.len() - 1];
        lemma_params_of_skips_empty_values(rest);
        assert(pairs_map(pairs) == if last.1.len() == 0 {
            pairs_map(rest)
        } else {
            pairs_map(rest).insert(last.0, last.1)
        });
        assert forall|k: Seq<char>|
            #[trigger] pairs_map(pairs).contains_key(k) <==> exists|i: int|
                0 <= i < pairs.len() && #[trigger] pairs[i].0 == k && pairs[i].1.len() > 0 by {
            if pairs_map(pairs).contains_key(k) {
                if pairs_map(rest).contains_key(k) {
                    let i = choose|i: int| 0 <= i < rest.len() && #[trigger] rest[i].0 == k && rest[i].1.len() > 0;
                    assert(pairs[i] == rest[i]);
                } else {
                    assert(last.0 == k && last.1.len() > 0);
                }
            }
            if exists|i: int| 0 <= i < pairs.len() && #[trigger] pairs[i].0 == k && pairs[i].1.len() > 0 {
                let i = choose|i: int| 0 <= i < pairs.len() && #[trigger] pairs[i].0 == k && pairs[i].1.len() > 0;
                if i < pairs.len() - 1 {
                    assert(rest[i] == pairs[i]);
                }
            }
        }
    }
}

/// No two ids of a plan coincide: the steps' ids differ from one another, and a
/// generated task id differs from every step's id.
pub proof fn lemma_plan_ids_are_distinct(plan: TransactionPlan, req: PlanRequest)
    requires
        is_plan_for(plan, req),
    ensures
        forall|i: int, j: int|
            #![trigger plan.steps@[i], plan.steps@[j]]
            0 <= i < plan.steps@.len() && 0 <= j < plan.steps@.len() && i != j ==> plan.steps@[i].id@
                != plan.steps@[j].id@,
        req.task_id is None ==> forall|i: int|
            0 <= i < plan.steps@.len() ==> plan.task_id@ != #[trigger] plan.steps@[i].id@,
{
    let steps = plan.steps@;
    assert forall|i: int, j: int|
        #![trigger steps[i], steps[j]]
        0 <= i < steps.len() && 0 <= j < steps.len() && i != j implies steps[i].id@ != steps[j].id@ by {
        if i < j {
            lemma_text_lt_trichotomy(steps[i].id@, steps[j].id@);
        } else {
            lemma_text_lt_trichotomy(steps[j].id@, steps[i].id@);
        }
    }
    if req.task_id is None {
        assert forall|i: int| 0 <= i < steps.len() implies plan.task_id@ != #[trigger] steps[i].id@ by {
            lemma_text_lt_trichotomy(plan.task_id@, steps[i].id@);
        }
    }
}

/// The `provision_<role>` family: an intent made of `provision_` and a role is
/// planned as the steps that provision that role, the prefix taken off once.
pub proof fn lemma_provision_intents_plan_their_role(role: Seq<char>, p: Map<Seq<char>, Seq<char>>)
    ensures
        intent_steps("provision_"@ + role, p) == provision_shapes(role),
{
    let pre = "provision_"@;
    let intent = pre + role;
    reveal_strlit("provision_");
    reveal_strlit("restart_node");
    reveal_strlit("power_off_node");
    reveal_strlit("power_on_node");
    reveal_strlit("run_command");
    reveal_strlit("install_package");
    reveal_strlit("remove_package");
    reveal_strlit("manage_service");
    reveal_strlit("deploy_file");
    assert(intent[1] == 'r');
    assert(intent[0] == 'p');
    assert(intent != "restart_node"@ && intent != "run_command"@ && intent != "install_package"@
        && intent != "remove_package"@ && intent != "manage_service"@ && intent != "deploy_file"@) by {
        assert("restart_node"@[0] != 'p' && "run_command"@[0] != 'p' && "install_package"@[0] != 'p');
        assert("remove_package"@[0] != 'p' && "manage_service"@[0] != 'p' && "deploy_file"@[0] != 'p');
    }
    assert(intent != "power_off_node"@ && intent != "power_on_node"@) by {
        assert("power_off_node"@[1] != 'r' && "power_on_node"@[1] != 'r');
    }
    assert(intent.subrange(0, pre.len() as int) =~= pre);
    assert(intent.skip(pre.len() as int) =~= role);
}

/// `p` holds a non-empty value under `k`.
pub open spec fn has_value(p: Map<Seq<char>, Seq<char>>, k: Seq<char>) -> bool {
    p.contains_key(k) && p[k].len() > 0
}

/// The parameter names, values and intents that plans are made of: which are
/// distinct, and which are non-empty.
proof fn lemma_plan_literals()
    ensures
        "name"@ != "state"@,
        "name"@ != "version"@,
        "state"@ != "version"@,
        "name"@ != "enabled"@,
        "state"@ != "enabled"@,
        "path"@ != "content"@,
        "path"@ != "mode"@,
        "path"@ != "owner"@,
        "path"@ != "group"@,
        "content"@ != "mode"@,
        "content"@ != "owner"@,
        "content"@ != "group"@,
        "mode"@ != "owner"@,
        "mode"@ != "group"@,
        "owner"@ != "group"@,
        "command"@ != "cwd"@,
        "present"@.len() > 0,
        "absent"@.len() > 0,
        "started"@.len() > 0,
        "true"@.len() > 0,
        "nginx"@.len() > 0,
        "postgresql"@.len() > 0,
        "run_command"@ != "restart_node"@,
        "run_command"@ != "power_off_node"@,
        "run_command"@ != "power_on_node"@,
        "install_package"@ != "restart_node"@,
        "install_package"@ != "power_off_node"@,
        "install_package"@ != "power_on_node"@,
        "install_package"@ != "run_command"@,
        "remove_package"@ != "restart_node"@,
        "remove_package"@ != "power_off_node"@,
        "remove_package"@ != "power_on_node"@,
        "remove_package"@ != "run_command"@,
        "remove_package"@ != "install_package"@,
        "manage_service"@ != "restart_node"@,
        "manage_service"@ != "power_off_node"@,
        "manage_service"@ != "power_on_node"@,
        "manage_service"@ != "run_command"@,
        "manage_service"@ != "install_package"@,
        "manage_service"@ != "remove_package"@,
        "deploy_file"@ != "restart_node"@,
        "deploy_file"@ != "power_off_node"@,
        "deploy_file"@ != "power_on_node"@,
        "deploy_file"@ != "run_command"@,
        "deploy_file"@ != "install_package"@,
        "deploy_file"@ != "remove_package"@,
        "deploy_file"@ != "manage_service"@,
        SERVICE_ENSURE@ != PACKAGE_ENSURE@,
        SERVICE_ENSURE@ != ROLE_PROVISION@,
{
    reveal_strlit("name");
    reveal_strlit("state");
    reveal_strlit("version");
    reveal_strlit("enabled");
    reveal_strlit("path");
    reveal_strlit("content");
    reveal_strlit("mode");
    reveal_strlit("owner");
    reveal_strlit("group");
    reveal_strlit("command");
    reveal_strlit("cwd");
    reveal_strlit("present");
    reveal_strlit("absent");
    reveal_strlit("started");
    reveal_strlit("true");
    reveal_strlit("nginx");
    reveal_strlit("postgresql");
    reveal_strlit("restart_node");
    reveal_strlit("power_off_node");
    reveal_strlit("power_on_node");
    reveal_strlit("run_command");
    reveal_strlit("install_package");
    reveal_strlit("remove_package");
    reveal_strlit("manage_service");
    reveal_strlit("deploy_file");
    reveal_strlit("service.ensure");
    reveal_strlit("package.ensure");
    reveal_strlit("role.provision");
    assert("name"@[0] != "state"@[0] && "name"@[0] != "version"@[0] && "state"@[0] != "version"@[0]);
    assert("name"@[0] != "enabled"@[0] && "state"@[0] != "enabled"@[0]);
    assert("path"@[0] != "content"@[0] && "path"@[0] != "mode"@[0] && "path"@[0] != "owner"@[0]);
    assert("path"@[0] != "group"@[0] && "content"@[0] != "mode"@[0] && "content"@[0] != "owner"@[0]);
    assert("content"@[0] != "group"@[0] && "mode"@[0] != "owner"@[0] && "mode"@[0] != "group"@[0]);
    assert("owner"@[0] != "group"@[0]);
    assert("command"@.len() != "cwd"@.len());
    assert("run_command"@[1] != "restart_node"@[1] && "run_command"@[0] != "power_off_node"@[0]);
    assert("install_package"@[0] != "restart_node"@[0]);
    assert("remove_package"@[2] != "restart_node"@[2] && "remove_package"@[0] != "power_off_node"@[0]);
    assert("remove_package"@[1] != "run_command"@[1] && "remove_package"@[0] != "install_package"@[0]);
    assert("manage_service"@[0] != "restart_node"@[0] && "manage_service"@[0] != "power_off_node"@[0]);
    assert("manage_service"@[0] != "remove_package"@[0]);
    assert("deploy_file"@[0] != "restart_node"@[0] && "deploy_file"@[0] != "run_command"@[0]);
    assert(SERVICE_ENSURE@[0] != PACKAGE_ENSURE@[0] && SERVICE_ENSURE@[0] != ROLE_PROVISION@[0]);
}

/// Appending a pair to a list adds it to the map, unless its value is empty.
proof fn lemma_pairs_map_push(s: Seq<(Seq<char>, Seq<char>)>, x: (Seq<char>, Seq<char>))
    ensures
        pairs_map(s.push(x)) == (if x.1.len() == 0 { pairs_map(s) } else { pairs_map(s).insert(x.0, x.1) }),
{
    assert(s.push(x).drop_last() =~= s);
}

/// A `run_command` intent is planned as one `command.run` step whose
/// parameters are exactly the request's `command` and `cwd` entries, with
/// their values, empty ones included.
pub proof fn lemma_run_command_carries_command_and_cwd(p: Map<Seq<char>, Seq<char>>)
    ensures
        intent_steps("run_command"@, p).len() == 1,
        intent_steps("run_command"@, p)[0].action == COMMAND_RUN@,
        intent_steps("run_command"@, p)[0].critical,
        intent_steps("run_command"@, p)[0].compensation is None,
        forall|k: Seq<char>|
            #[trigger] intent_steps("run_command"@, p)[0].params.contains_key(k) <==> ((k == "command"@ || k
                == "cwd"@) && p.contains_key(k)),
        forall|k: Seq<char>|
            #[trigger] intent_steps("run_command"@, p)[0].params.contains_key(k) ==> intent_steps(
                "run_command"@,
                p,
            )[0].params[k] == p[k],
{
    lemma_plan_literals();
}

/// The package a package step names: the request's `name` where that is
/// non-empty, the request's `package` otherwise, and no `name` entry where both
/// are missing or empty.
pub open spec fn names_package(params: Map<Seq<char>, Seq<char>>, p: Map<Seq<char>, Seq<char>>) -> bool {
    &&& has_value(p, "name"@) ==> params.contains_key("name"@) && params["name"@] == p["name"@]
    &&& !has_value(p, "name"@) ==> (params.contains_key("name"@) <==> has_value(p, "package"@))
    &&& !has_value(p, "name"@) && has_value(p, "package"@) ==> params["name"@] == p["package"@]
}

/// An `install_package` intent is planned as one critical `package.ensure` step
/// for the package the request names, with state `present` and the request's
/// non-empty `version`, and no other parameter; it is compensated by a
/// `package.ensure` step for the same package with state `absent` and no version.
pub proof fn lemma_install_package_names_the_package(p: Map<Seq<char>, Seq<char>>)
    ensures
        intent_steps("install_package"@, p).len() == 1,
        ({
            let s = intent_steps("install_package"@, p)[0];
            &&& s.action == PACKAGE_ENSURE@
            &&& s.critical
            &&& names_package(s.params, p)
            &&& s.params.contains_key("state"@) && s.params["state"@] == "present"@
            &&& s.params.contains_key("version"@) <==> has_value(p, "version"@)
            &&& has_value(p, "version"@) ==> s.params["version"@] == p["version"@]
            &&& forall|k: Seq<char>|
                #[trigger] s.params.contains_key(k) ==> k == "name"@ || k == "state"@ || k == "version"@
            &&& s.compensation matches Some(c) && {
                &&& c.action == PACKAGE_ENSURE@
                &&& names_package(c.params, p)
                &&& c.params.contains_key("state"@) && c.params["state"@] == "absent"@
                &&& forall|k: Seq<char>| #[trigger] c.params.contains_key(k) ==> k == "name"@ || k == "state"@
            }
        }),
{
    lemma_plan_literals();
    let n = package_name(p);
    let v = lookup(p, "version"@);
    lemma_pairs_map_small(("name"@, n), ("state"@, "present"@), ("version"@, v));
    lemma_pairs_map_small(("name"@, n), ("state"@, "absent"@), ("version"@, v));
}

/// A `remove_package` intent is planned as one critical `package.ensure` step
/// for the package the request names, with state `absent`, no version and no
/// other parameter, and no compensation.
pub proof fn lemma_remove_package_names_the_package(p: Map<Seq<char>, Seq<char>>)
    ensures
        intent_steps("remove_package"@, p).len() == 1,
        ({
            let s = intent_steps("remove_package"@, p)[0];
            &&& s.action == PACKAGE_ENSURE@
            &&& s.critical
            &&& names_package(s.params, p)
            &&& s.params.contains_key("state"@) && s.params["state"@] == "absent"@
            &&& forall|k: Seq<char>| #[trigger] s.params.contains_key(k) ==> k == "name"@ || k == "state"@
            &&& s.compensation is None
        }),
{
    lemma_plan_literals();
    reveal_strlit("present");
    reveal_strlit("absent");
    assert("present"@[0] != "absent"@[0]);
    let n = package_name(p);
    lemma_pairs_map_small(("name"@, n), ("state"@, "absent"@), ("version"@, Seq::empty()));
}

/// A `manage_service` intent is planned as one critical `service.ensure` step:
/// its `state` is the request's non-empty `state` whatever else the request
/// holds, `started` otherwise; its `enabled` is the request's non-empty
/// `enabled`, `true` otherwise; its `name` is the request's non-empty `name`,
/// left out otherwise; and it has no other parameter.
pub proof fn lemma_manage_service_keeps_requested_state(p: Map<Seq<char>, Seq<char>>)
    ensures
        intent_steps("manage_service"@, p).len() == 1,
        ({
            let s = intent_steps("manage_service"@, p)[0];
            &&& s.action == SERVICE_ENSURE@
            &&& s.critical
            &&& s.compensation is None
            &&& s.params.contains_key("state"@)
            &&& s.params["state"@] == (if has_value(p, "state"@) { p["state"@] } else { "started"@ })
            &&& s.params.contains_key("enabled"@)
            &&& s.params["enabled"@] == (if has_value(p, "enabled"@) { p["enabled"@] } else { "true"@ })
            &&& s.params.contains_key("name"@) <==> has_value(p, "name"@)
            &&& has_value(p, "name"@) ==> s.params["name"@] == p["name"@]
            &&& forall|k: Seq<char>|
                #[trigger] s.params.contains_key(k) ==> k == "name"@ || k == "state"@ || k == "enabled"@
        }),
{
    lemma_plan_literals();
    lemma_pairs_map_small(
        ("name"@, lookup(p, "name"@)),
        ("state"@, or_default(lookup(p, "state"@), "started"@)),
        ("enabled"@, or_default(lookup(p, "enabled"@), "true"@)),
    );
}

/// A `deploy_file` intent is planned as one critical `file.write` step whose
/// parameters are exactly those of `path`, `content`, `mode`, `owner` and
/// `group` that the request holds non-empty, with the request's values.
pub proof fn lemma_deploy_file_carries_file_fields(p: Map<Seq<char>, Seq<char>>)
    ensures
        intent_steps("deploy_file"@, p).len() == 1,
        ({
            let s = intent_steps("deploy_file"@, p)[0];
            &&& s.action == FILE_WRITE@
            &&& s.critical
            &&& s.compensation is None
            &&& forall|k: Seq<char>|
                #[trigger] s.params.contains_key(k) <==> ((k == "path"@ || k == "content"@ || k == "mode"@
                    || k == "owner"@ || k == "group"@) && has_value(p, k))
            &&& forall|k: Seq<char>| #[trigger] s.params.contains_key(k) ==> s.params[k] == p[k]
        }),
{
    lemma_plan_literals();
    let a = ("path"@, lookup(p, "path"@));
    let b = ("content"@, lookup(p, "content"@));
    let c = ("mode"@, lookup(p, "mode"@));
    let d = ("owner"@, lookup(p, "owner"@));
    let e = ("group"@, lookup(p, "group"@));
    lemma_pairs_map_small(a, b, c);
    lemma_pairs_map_push(seq![a, b, c], d);
    lemma_pairs_map_push(seq![a, b, c, d], e);
    assert(seq![a, b, c].push(d) =~= seq![a, b, c, d]);
    assert(seq![a, b, c, d].push(e) =~= seq![a, b, c, d, e]);
}

/// Provisioning a role leaves its services running: every `service.ensure`
/// step that a role's expansion makes has state `started` and is enabled. The
/// `database` role installs `postgresql` (undone by removing it) and starts it,
/// and the `webserver` role does the same with `nginx`.
pub proof fn lemma_provisioned_services_are_started(role: Seq<char>)
    ensures
        forall|i: int|
            0 <= i < provision_shapes(role).len() && #[trigger] provision_shapes(role)[i].action
                == SERVICE_ENSURE@ ==> {
                &&& provision_shapes(role)[i].params.contains_key("state"@)
                &&& provision_shapes(role)[i].params["state"@] == "started"@
                &&& provision_shapes(role)[i].params.contains_key("enabled"@)
                &&& provision_shapes(role)[i].params["enabled"@] == "true"@
            },
        role == "database"@ ==> provision_shapes(role) == seq![
            StepShape {
                action: PACKAGE_ENSURE@,
                params: Map::empty().insert("name"@, "postgresql"@).insert("state"@, "present"@),
                compensation: Some(
                    CompensationView {
                        action: PACKAGE_ENSURE@,
                        params: Map::empty().insert("name"@, "postgresql"@).insert("state"@, "absent"@),
                    },
                ),
                critical: true,
            },
            StepShape {
                action: SERVICE_ENSURE@,
                params: Map::empty().insert("name"@, "postgresql"@).insert("state"@, "started"@).insert(
                    "enabled"@,
                    "true"@,
                ),
                compensation: None,
                critical: true,
            },
        ],
        role == "webserver"@ ==> provision_shapes(role) == seq![
            StepShape {
                action: PACKAGE_ENSURE@,
                params: Map::empty().insert("name"@, "nginx"@).insert("state"@, "present"@),
                compensation: Some(
                    CompensationView {
                        action: PACKAGE_ENSURE@,
                        params: Map::empty().insert("name"@, "nginx"@).insert("state"@, "absent"@),
                    },
                ),
                critical: true,
            },
            StepShape {
                action: SERVICE_ENSURE@,
                params: Map::empty().insert("name"@, "nginx"@).insert("state"@, "started"@).insert(
                    "enabled"@,
                    "true"@,
                ),
                compensation: None,
                critical: true,
            },
        ],
{
    lemma_plan_literals();
    reveal_strlit("");
    assert(""@ =~= Seq::<char>::empty());
    reveal_strlit("database");
    reveal_strlit("webserver");
    assert("database"@[0] != "webserver"@[0]);
    lemma_pairs_map_small(("name"@, "nginx"@), ("state"@, "present"@), ("version"@, Seq::empty()));
    lemma_pairs_map_small(("name"@, "nginx"@), ("state"@, "absent"@), ("version"@, Seq::empty()));
    lemma_pairs_map_small(("name"@, "nginx"@), ("state"@, "started"@), ("enabled"@, "true"@));
    lemma_pairs_map_small(("name"@, "postgresql"@), ("state"@, "present"@), ("version"@, Seq::empty()));
    lemma_pairs_map_small(("name"@, "postgresql"@), ("state"@, "absent"@), ("version"@, Seq::empty()));
    lemma_pairs_map_small(("name"@, "postgresql"@), ("state"@, "started"@), ("enabled"@, "true"@));
}

} // verus!
