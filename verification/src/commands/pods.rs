//! The pod list: status, age and summary of a pod; and the exec session of
//! the pod view, which holds a writer and a process and has a fixed
//! terminal geometry.
//!
//! Pods arrive here as [`Pod`] values that hold what the rules below read.

use vstd::prelude::*;
use vstd::string::*;
use crate::commands::exec::{
    build_exec_args, exec_args, kubectl_program, program_or_default, EnvVar, InputAction, PtySize,
    SpawnPlan, DEFAULT_COLS, DEFAULT_ROWS,
};
use crate::models::k8s::{label_views, Label, LabelView, PodSummary, PodSummaryView};
use crate::text::{
    ascending, join_two, decimal, opt_view, push_char, push_decimal, sort_strings, str_eq, views,
};
use crate::{PtySession, PtyState};

verus! {

/// The event that carries one chunk of the session's output.
pub const OUTPUT_EVENT: &'static str = "exec-output";

/// The event that says that the session's output has ended.
pub const DONE_EVENT: &'static str = "exec-done";

/// The size of the buffer that the relay reads into.
pub const READ_BUFFER_SIZE: usize = 1024;

/// The status of one container of a pod.
#[derive(Clone, Debug, PartialEq, Eq)]
pub struct ContainerStatus {
    pub ready: bool,
    pub restart_count: i32,
    /// Why the container is waiting, where it is and a reason is given.
    pub waiting_reason: Option<String>,
    /// Why the container terminated, where it did and a reason is given.
    pub terminated_reason: Option<String>,
}

/// What the pod list reads of a pod.
#[derive(Clone, Debug, PartialEq, Eq)]
pub struct Pod {
    pub name: Option<String>,
    pub namespace: Option<String>,
    /// Whether the pod carries a deletion timestamp.
    pub deleting: bool,
    /// The time since the pod was created, in whole seconds, where the pod
    /// has a creation timestamp. A timestamp in the future gives a negative
    /// number.
    pub age_seconds: Option<i64>,
    /// The labels, sorted by key, where the pod has any.
    pub labels: Option<Vec<Label>>,
    /// The number of containers in the pod's specification, where there is
    /// one.
    pub containers: Option<usize>,
    /// The node that the pod is scheduled on.
    pub node_name: Option<String>,
    /// The container statuses, where the pod's status lists them.
    pub container_statuses: Option<Vec<ContainerStatus>>,
    /// The phase, where the pod's status gives one.
    pub phase: Option<String>,
}

/// A container status as the contracts see it.
pub struct ContainerStatusView {
    pub ready: bool,
    pub restart_count: i32,
    pub waiting_reason: Option<Seq<char>>,
    pub terminated_reason: Option<Seq<char>>,
}

/// A pod as the contracts see it.
pub struct PodView {
    pub name: Option<Seq<char>>,
    pub namespace: Option<Seq<char>>,
    pub deleting: bool,
    pub age_seconds: Option<i64>,
    pub labels: Option<Seq<LabelView>>,
    pub containers: Option<usize>,
    pub node_name: Option<Seq<char>>,
    pub container_statuses: Option<Seq<ContainerStatusView>>,
    pub phase: Option<Seq<char>>,
}

impl ContainerStatus {
    pub open spec fn view(&self) -> ContainerStatusView {
        ContainerStatusView {
            ready: self.ready,
            restart_count: self.restart_count,
            waiting_reason: opt_view(self.waiting_reason),
            terminated_reason: opt_view(self.terminated_reason),
        }
    }
}

/// The views of a list of container statuses, element by element.
pub open spec fn status_views(statuses: Seq<ContainerStatus>) -> Seq<ContainerStatusView> {
    statuses.map_values(|s: ContainerStatus| s@)
}

impl Pod {
    pub open spec fn view(&self) -> PodView {
        PodView {
            name: opt_view(self.name),
            namespace: opt_view(self.namespace),
            deleting: self.deleting,
            age_seconds: self.age_seconds,
            labels: match self.labels {
                Some(labels) => Some(label_views(labels@)),
                None => None,
            },
            containers: self.containers,
            node_name: opt_view(self.node_name),
            container_statuses: match self.container_statuses {
                Some(statuses) => Some(status_views(statuses@)),
                None => None,
            },
            phase: opt_view(self.phase),
        }
    }
}

/// The reasons for waiting that are shown as the pod's status.
pub open spec fn is_waiting_failure(reason: Seq<char>) -> bool {
    ||| reason == "CrashLoopBackOff"@
    ||| reason == "ImagePullBackOff"@
    ||| reason == "ErrImagePull"@
    ||| reason == "CreateContainerConfigError"@
    ||| reason == "InvalidImageName"@
}

/// The reasons for termination that are shown as the pod's status.
pub open spec fn is_shown_termination(reason: Seq<char>) -> bool {
    ||| reason == "OOMKilled"@
    ||| reason == "Error"@
    ||| reason == "Completed"@
}

/// The reason that one container contributes to the pod's status, if any:
/// a waiting reason that is shown comes before a termination reason.
pub open spec fn shown_reason(status: ContainerStatusView) -> Option<Seq<char>> {
    if status.waiting_reason is Some && is_waiting_failure(status.waiting_reason->0) {
        status.waiting_reason
    } else if status.terminated_reason is Some && is_shown_termination(
        status.terminated_reason->0,
    ) {
        status.terminated_reason
    } else {
        None
    }
}

/// The reason of the first container from `from` on that contributes one.
pub open spec fn first_shown_reason(statuses: Seq<ContainerStatusView>, from: int) -> Option<
    Seq<char>,
>
    decreases statuses.len() - from,
{
    if from < 0 || from >= statuses.len() {
        None
    } else if shown_reason(statuses[from]) is Some {
        shown_reason(statuses[from])
    } else {
        first_shown_reason(statuses, from + 1)
    }
}

/// The status shown for a pod: `Terminating` while it is being deleted;
/// else the first reason that a container contributes; else the phase; else
/// `Unknown`.
pub open spec fn pod_status(pod: PodView) -> Seq<char> {
    if pod.deleting {
        "Terminating"@
    } else {
        let reason = match pod.container_statuses {
            Some(statuses) => first_shown_reason(statuses, 0),
            None => None,
        };
        match reason {
            Some(r) => r,
            None => match pod.phase {
                Some(phase) => phase,
                None => "Unknown"@,
            },
        }
    }
}

/// `first_shown_reason` gives the reason of the least container at or after
/// `from` that contributes one, and none only where no container does.
pub proof fn lemma_first_shown_reason(statuses: Seq<ContainerStatusView>, from: int)
    requires
        0 <= from <= statuses.len(),
    ensures
        match first_shown_reason(statuses, from) {
            Some(r) => exists|i: int|
                from <= i < statuses.len() && shown_reason(#[trigger] statuses[i]) == Some(r)
                    && forall|j: int| from <= j < i ==> shown_reason(#[trigger] statuses[j]) is None,
            None => forall|j: int|
                from <= j < statuses.len() ==> shown_reason(#[trigger] statuses[j]) is None,
        },
    decreases statuses.len() - from,
{
    if from < statuses.len() {
        if shown_reason(statuses[from]) is Some {
            assert(shown_reason(statuses[from]) == Some(first_shown_reason(statuses, from)->0));
        } else {
            lemma_first_shown_reason(statuses, from + 1);
            if first_shown_reason(statuses, from + 1) is Some {
                let r = first_shown_reason(statuses, from + 1)->0;
                let i = choose|i: int|
                    from + 1 <= i < statuses.len() && shown_reason(#[trigger] statuses[i]) == Some(
                        r,
                    ) && forall|j: int|
                        from + 1 <= j < i ==> shown_reason(#[trigger] statuses[j]) is None;
                assert(from <= i < statuses.len() && shown_reason(statuses[i]) == Some(r));
                assert forall|j: int| from <= j < i implies shown_reason(
                    #[trigger] statuses[j],
                ) is None by {
                }
            }
        }
    }
}

/// Decides whether a waiting reason is shown.
fn waiting_failure(reason: &str) -> (shown: bool)
    ensures
        shown == is_waiting_failure(reason@),
{
    str_eq(reason, "CrashLoopBackOff") || str_eq(reason, "ImagePullBackOff") || str_eq(
        reason,
        "ErrImagePull",
    ) || str_eq(reason, "CreateContainerConfigError") || str_eq(reason, "InvalidImageName")
}

/// Decides whether a termination reason is shown.
fn shown_termination(reason: &str) -> (shown: bool)
    ensures
        shown == is_shown_termination(reason@),
{
    str_eq(reason, "OOMKilled") || str_eq(reason, "Error") || str_eq(reason, "Completed")
}

/// The reason that one container contributes to the pod's status.
fn container_reason(status: &ContainerStatus) -> (reason: Option<String>)
    ensures
        opt_view(reason) == shown_reason(status@),
{
    match &status.waiting_reason {
        Some(r) => {
            if waiting_failure(r.as_str()) {
                return Some(r.clone());
            }
        },
        None => {},
    }
    match &status.terminated_reason {
        Some(r) => {
            if shown_termination(r.as_str()) {
                return Some(r.clone());
            }
        },
        None => {},
    }
    None
}

/// The status shown for a pod.
pub fn compute_pod_status(pod: &Pod) -> (status: String)
    ensures
        status@ == pod_status(pod@),
        pod.deleting ==> status@ == "Terminating"@,
        !pod.deleting && (forall|j: int|
            0 <= j < statuses_of(pod@).len() ==> shown_reason(#[trigger] statuses_of(pod@)[j])
                is None) ==> status@ == match pod@.phase {
            Some(phase) => phase,
            None => "Unknown"@,
        },
        !pod.deleting && (exists|j: int|
            0 <= j < statuses_of(pod@).len() && shown_reason(#[trigger] statuses_of(pod@)[j])
                is Some) ==> exists|i: int|
            0 <= i < statuses_of(pod@).len() && shown_reason(#[trigger] statuses_of(pod@)[i])
                == Some(status@) && forall|j: int|
                0 <= j < i ==> shown_reason(#[trigger] statuses_of(pod@)[j]) is None,
{
    let status = status_by_rule(pod);
    proof {
        lemma_first_shown_reason(statuses_of(pod@), 0);
    }
    status
}

/// The rule itself, container by container.
fn status_by_rule(pod: &Pod) -> (status: String)
    ensures
        status@ == pod_status(pod@),
{
    if pod.deleting {
        return String::from_str("Terminating");
    }
    match &pod.container_statuses {
        Some(statuses) => {
            let mut i: usize = 0;
            while i < statuses.len()
                invariant
                    i <= statuses.len(),
                    !pod.deleting,
                    pod@.container_statuses == Some(status_views(statuses@)),
                    first_shown_reason(status_views(statuses@), 0) == first_shown_reason(
                        status_views(statuses@),
                        i as int,
                    ),
                decreases statuses.len() - i,
            {
                assert(status_views(statuses@)[i as int] == statuses@[i as int]@);
                match container_reason(&statuses[i]) {
                    Some(reason) => {
                        assert(first_shown_reason(status_views(statuses@), i as int) == Some(
                            reason@,
                        ));
                        return reason;
                    },
                    None => {},
                }
                i += 1;
            }
        },
        None => {},
    }
    assert(match pod@.container_statuses {
        Some(statuses) => first_shown_reason(statuses, 0),
        None => None,
    } is None);
    match &pod.phase {
        Some(phase) => phase.clone(),
        None => String::from_str("Unknown"),
    }
}

/// Seconds in a minute, an hour, a day and a year of 365 days.
pub const MINUTE: u64 = 60;

pub const HOUR: u64 = 3_600;

pub const DAY: u64 = 86_400;

pub const YEAR: u64 = 31_536_000;

/// The age shown for a pod that was created `elapsed` seconds ago: seconds
/// below a minute, whole minutes below an hour, whole hours below a day,
/// whole days below a year of 365 days, whole years from there on. A negative
/// time counts as zero.
pub open spec fn age_text(elapsed: i64) -> Seq<char> {
    let secs: nat = if elapsed < 0 {
        0
    } else {
        elapsed as nat
    };
    if secs < MINUTE {
        decimal(secs).push('s')
    } else if secs < HOUR {
        decimal(secs / (MINUTE as nat)).push('m')
    } else if secs < DAY {
        decimal(secs / (HOUR as nat)).push('h')
    } else if secs < YEAR {
        decimal(secs / (DAY as nat)).push('d')
    } else {
        decimal(secs / (YEAR as nat)).push('y')
    }
}

/// The age shown for a pod that was created `elapsed` seconds ago.
pub fn format_age(elapsed: i64) -> (age: String)
    ensures
        age@ == age_text(elapsed),
{
    let secs: u64 = if elapsed < 0 {
        0
    } else {
        elapsed as u64
    };
    let mut age = String::new();
    assert(Seq::<char>::empty() + decimal(secs as nat) =~= decimal(secs as nat));
    if secs < MINUTE {
        push_decimal(&mut age, secs);
        push_char(&mut age, 's');
    } else if secs < HOUR {
        assert(Seq::<char>::empty() + decimal((secs / MINUTE) as nat) =~= decimal(
            (secs / MINUTE) as nat,
        ));
        push_decimal(&mut age, secs / MINUTE);
        push_char(&mut age, 'm');
    } else if secs < DAY {
        assert(Seq::<char>::empty() + decimal((secs / HOUR) as nat) =~= decimal(
            (secs / HOUR) as nat,
        ));
        push_decimal(&mut age, secs / HOUR);
        push_char(&mut age, 'h');
    } else if secs < YEAR {
        assert(Seq::<char>::empty() + decimal((secs / DAY) as nat) =~= decimal(
            (secs / DAY) as nat,
        ));
        push_decimal(&mut age, secs / DAY);
        push_char(&mut age, 'd');
    } else {
        assert(Seq::<char>::empty() + decimal((secs / YEAR) as nat) =~= decimal(
            (secs / YEAR) as nat,
        ));
        push_decimal(&mut age, secs / YEAR);
        push_char(&mut age, 'y');
    }
    age
}

/// The number of containers among the first `upto` that are ready.
pub open spec fn ready_count(statuses: Seq<ContainerStatusView>, upto: int) -> nat
    decreases upto,
{
    if upto <= 0 {
        0
    } else {
        ready_count(statuses, upto - 1) + if statuses[upto - 1].ready {
            1nat
        } else {
            0nat
        }
    }
}

/// The restarts of the first `upto` containers, summed; a negative count
/// adds nothing.
pub open spec fn restart_sum(statuses: Seq<ContainerStatusView>, upto: int) -> nat
    decreases upto,
{
    if upto <= 0 {
        0
    } else {
        restart_sum(statuses, upto - 1) + if statuses[upto - 1].restart_count > 0 {
            statuses[upto - 1].restart_count as nat
        } else {
            0nat
        }
    }
}

/// The container statuses of a pod, none where the pod lists none.
pub open spec fn statuses_of(pod: PodView) -> Seq<ContainerStatusView> {
    match pod.container_statuses {
        Some(statuses) => statuses,
        None => Seq::empty(),
    }
}

/// The text of an optional field, empty where the field is absent.
pub open spec fn or_empty(field: Option<Seq<char>>) -> Seq<char> {
    match field {
        Some(text) => text,
        None => Seq::empty(),
    }
}

/// The `ready/total` column of a pod.
pub open spec fn ready_text(pod: PodView) -> Seq<char> {
    let total: nat = match pod.containers {
        Some(n) => n as nat,
        None => 0,
    };
    decimal(ready_count(statuses_of(pod), statuses_of(pod).len() as int)).push('/') + decimal(
        total,
    )
}

/// The restarts column of a pod: the sum over its containers, held at the
/// largest number that the column can show.
pub open spec fn restarts_of(pod: PodView) -> u32 {
    let sum = restart_sum(statuses_of(pod), statuses_of(pod).len() as int);
    if sum > u32::MAX {
        u32::MAX
    } else {
        sum as u32
    }
}

/// The summary of a pod.
pub open spec fn summary_of(pod: PodView) -> PodSummaryView {
    PodSummaryView {
        name: or_empty(pod.name),
        namespace: or_empty(pod.namespace),
        status: pod_status(pod),
        ready: ready_text(pod),
        restarts: restarts_of(pod),
        age: match pod.age_seconds {
            Some(elapsed) => age_text(elapsed),
            None => "unknown"@,
        },
        cpu: "N/A"@,
        memory: "N/A"@,
        node: or_empty(pod.node_name),
        labels: match pod.labels {
            Some(labels) => labels,
            None => Seq::empty(),
        },
    }
}

/// A copy of an optional string, empty where there is none.
fn clone_or_empty(field: &Option<String>) -> (text: String)
    ensures
        text@ == or_empty(opt_view(*field)),
{
    match field {
        Some(text) => text.clone(),
        None => String::new(),
    }
}

/// Counts the ready containers and sums the restarts.
fn count_containers(pod: &Pod) -> (counts: (usize, u32))
    ensures
        counts.0 == ready_count(statuses_of(pod@), statuses_of(pod@).len() as int),
        counts.1 == restarts_of(pod@),
{
    match &pod.container_statuses {
        None => (0, 0),
        Some(statuses) => {
            let ghost all = status_views(statuses@);
            let mut ready: usize = 0;
            let mut restarts: u32 = 0;
            let mut i: usize = 0;
            while i < statuses.len()
                invariant
                    i <= statuses.len(),
                    all == status_views(statuses@),
                    ready == ready_count(all, i as int),
                    ready <= i,
                    restarts == if restart_sum(all, i as int) > u32::MAX {
                        u32::MAX as int
                    } else {
                        restart_sum(all, i as int) as int
                    },
                decreases statuses.len() - i,
            {
                assert(all[i as int] == statuses@[i as int]@);
                if statuses[i].ready {
                    ready += 1;
                }
                if statuses[i].restart_count > 0 {
                    let more: u32 = statuses[i].restart_count as u32;
                    restarts = if more > u32::MAX - restarts {
                        u32::MAX
                    } else {
                        restarts + more
                    };
                }
                i += 1;
            }
            (ready, restarts)
        },
    }
}

/// A copy of a list of labels.
fn clone_labels(labels: &Vec<Label>) -> (copy: Vec<Label>)
    ensures
        label_views(copy@) == label_views(labels@),
{
    let mut copy: Vec<Label> = Vec::new();
    let mut i: usize = 0;
    while i < labels.len()
        invariant
            i <= labels.len(),
            copy.len() == i,
            forall|j: int| 0 <= j < i ==> copy@[j]@ == labels@[j]@,
        decreases labels.len() - i,
    {
        copy.push(Label { key: labels[i].key.clone(), value: labels[i].value.clone() });
        i += 1;
    }
    assert(label_views(copy@) =~= label_views(labels@));
    copy
}

/// The summary of a pod: one row of the pod list.
pub fn pod_to_summary(pod: Pod) -> (summary: PodSummary)
    ensures
        summary@ == summary_of(pod@),
{
    let status = compute_pod_status(&pod);
    let name = clone_or_empty(&pod.name);
    let namespace = clone_or_empty(&pod.namespace);
    let total: usize = match pod.containers {
        Some(n) => n,
        None => 0,
    };
    let counts = count_containers(&pod);
    let mut ready = String::new();
    push_decimal(&mut ready, counts.0 as u64);
    push_char(&mut ready, '/');
    push_decimal(&mut ready, total as u64);
    assert(ready@ =~= ready_text(pod@));
    let age = match pod.age_seconds {
        Some(elapsed) => format_age(elapsed),
        None => String::from_str("unknown"),
    };
    let node = clone_or_empty(&pod.node_name);
    let labels: Vec<Label> = match &pod.labels {
        Some(labels) => clone_labels(labels),
        None => Vec::new(),
    };
    assert(label_views(labels@) =~= summary_of(pod@).labels);
    PodSummary {
        status,
        name,
        namespace,
        ready,
        restarts: counts.1,
        age,
        cpu: String::from_str("N/A"),
        memory: String::from_str("N/A"),
        node,
        labels,
    }
}

/// The summaries of a list of pods, in the same order.
pub fn list_pods(pods: Vec<Pod>) -> (summaries: Vec<PodSummary>)
    ensures
        summaries@.len() == pods@.len(),
        forall|i: int| 0 <= i < pods@.len() ==> (#[trigger] summaries@[i])@ == summary_of(pods@[i]@),
{
    let mut pods = pods;
    let ghost all = pods@;
    let mut reversed: Vec<PodSummary> = Vec::new();
    while pods.len() > 0
        invariant
            pods@.len() + reversed@.len() == all.len(),
            pods@ == all.take(pods@.len() as int),
            forall|k: int|
                0 <= k < reversed@.len() ==> (#[trigger] reversed@[k])@ == summary_of(
                    all[all.len() - 1 - k]@,
                ),
        decreases pods.len(),
    {
        let ghost before = pods@;
        let pod = pods.pop().unwrap();
        assert(pod == all[before.len() - 1]);
        assert(pods@ =~= all.take(pods@.len() as int));
        reversed.push(pod_to_summary(pod));
    }
    let mut summaries: Vec<PodSummary> = Vec::new();
    while reversed.len() > 0
        invariant
            summaries@.len() + reversed@.len() == all.len(),
            forall|k: int|
                0 <= k < reversed@.len() ==> (#[trigger] reversed@[k])@ == summary_of(
                    all[all.len() - 1 - k]@,
                ),
            forall|i: int|
                0 <= i < summaries@.len() ==> (#[trigger] summaries@[i])@ == summary_of(all[i]@),
        decreases reversed.len(),
    {
        let ghost at = reversed@.len() - 1;
        let summary = reversed.pop().unwrap();
        assert(summary@ == summary_of(all[all.len() - 1 - at]@));
        summaries.push(summary);
    }
    summaries
}

/// The namespace to list pods in: the one that is named, or none, which
/// means all namespaces, where no name or an empty one is given.
pub open spec fn namespace_scope(namespace: Option<Seq<char>>) -> Option<Seq<char>> {
    match namespace {
        Some(ns) => if ns.len() > 0 {
            Some(ns)
        } else {
            None
        },
        None => None,
    }
}

/// The namespace to list pods in.
pub fn pod_scope(namespace: Option<String>) -> (scope: Option<String>)
    ensures
        opt_view(scope) == namespace_scope(opt_view(namespace)),
{
    match namespace {
        Some(ns) => if ns.as_str().unicode_len() > 0 {
            Some(ns)
        } else {
            None
        },
        None => None,
    }
}

/// The names that are present among the first `upto` of `names`, in order.
pub open spec fn present_names(names: Seq<Option<String>>, upto: int) -> Seq<Seq<char>>
    decreases upto,
{
    if upto <= 0 {
        Seq::empty()
    } else {
        match names[upto - 1] {
            Some(name) => present_names(names, upto - 1).push(name@),
            None => present_names(names, upto - 1),
        }
    }
}

/// The names of the namespaces, in ascending order. `names` holds the name
/// of each namespace of the cluster, where it has one.
pub fn list_namespaces(names: Vec<Option<String>>) -> (sorted: Vec<String>)
    ensures
        ascending(views(sorted@)),
        views(sorted@).to_multiset() == present_names(names@, names@.len() as int).to_multiset(),
{
    let mut names = names;
    let ghost all = names@;
    let mut present: Vec<String> = Vec::new();
    proof {
        broadcast use vstd::multiset::group_multiset_axioms;
        broadcast use vstd::seq_lib::group_to_multiset_ensures;

        assert(views(present@) =~= Seq::<Seq<char>>::empty());
    }
    while names.len() > 0
        invariant
            names@ == all.take(names@.len() as int),
            names@.len() <= all.len(),
            present_names(all, all.len() as int).to_multiset() == present_names(
                all,
                names@.len() as int,
            ).to_multiset().add(views(present@).to_multiset()),
        decreases names.len(),
    {
        let ghost n = names@.len() as int;
        let ghost before = views(present@);
        let last = names.pop().unwrap();
        proof {
            assert(last == all[n - 1]);
            assert(names@ =~= all.take(n - 1));
        }
        match last {
            Some(name) => {
                present.push(name);
                proof {
                    broadcast use vstd::multiset::group_multiset_axioms;
                    broadcast use vstd::seq_lib::group_to_multiset_ensures;

                    assert(views(present@) =~= before.push(name@));
                    assert(views(present@).to_multiset() =~= before.to_multiset().insert(name@));
                    assert(present_names(all, n).to_multiset() =~= present_names(
                        all,
                        n - 1,
                    ).to_multiset().insert(name@));
                    assert(present_names(all, n).to_multiset().add(before.to_multiset())
                        =~= present_names(all, n - 1).to_multiset().add(
                        views(present@).to_multiset(),
                    ));
                }
            },
            None => {},
        }
    }
    proof {
        broadcast use vstd::multiset::group_multiset_axioms;
        broadcast use vstd::seq_lib::group_to_multiset_ensures;

        assert(present_names(all, 0) =~= Seq::<Seq<char>>::empty());
        assert(present_names(all, 0).to_multiset().add(views(present@).to_multiset()) =~= views(
            present@,
        ).to_multiset());
    }
    sort_strings(present)
}

/// The step of the pod view's exec start that failed.
#[derive(Clone, Copy, Debug, PartialEq, Eq, Structural)]
pub enum ExecFault {
    /// The pseudo-terminal could not be allocated.
    OpenPty,
    /// The remote-shell command could not be spawned.
    Spawn,
    /// The terminal's reader or writer could not be obtained.
    Handle,
}

/// The message that reports a failed step of the pod view's exec start: a
/// failed spawn is introduced as such, the others are reported as they are.
pub open spec fn exec_fault_text(fault: ExecFault, detail: Seq<char>) -> Seq<char> {
    match fault {
        ExecFault::Spawn => "spawn failed: "@ + detail,
        _ => detail,
    }
}

/// The message that reports a failed step of the pod view's exec start.
pub fn exec_fault_message(fault: ExecFault, detail: &str) -> (message: String)
    ensures
        message@ == exec_fault_text(fault, detail@),
{
    match fault {
        ExecFault::Spawn => join_two("spawn failed: ", detail),
        _ => String::from_str(detail),
    }
}

/// The answer to a request to open a shell in a pod: first release, then
/// spawn.
pub struct PodExecOrder<W, C> {
    /// The session that was registered. Release it before anything is
    /// spawned: dropping its process handle ends the process.
    pub release: Option<PtySession<W, C>>,
    /// What to spawn next.
    pub plan: SpawnPlan,
}

/// The geometry that the pod view's terminal is opened with.
pub open spec fn fixed_size() -> PtySize {
    PtySize { rows: DEFAULT_ROWS, cols: DEFAULT_COLS, pixel_width: 0, pixel_height: 0 }
}

/// Begins a shell in a pod: clears the registered session and plans the
/// spawn, with a terminal of 80 by 24 and `TERM` set for 256 colours. On
/// success the caller hands the new session to [`store_session`]; on failure
/// it reports [`exec_fault_message`] and registers nothing.
pub fn exec_into_pod<W, C>(
    name: &str,
    namespace: &str,
    source_file: &str,
    context_name: &str,
    located: Option<String>,
    state: &mut PtyState<W, C>,
) -> (order: PodExecOrder<W, C>)
    ensures
        final(state).current() is None,
        order.release == old(state).current(),
        order.plan.program@ == program_or_default(opt_view(located)),
        views(order.plan.args@) == exec_args(name@, namespace@, source_file@, context_name@),
        order.plan.size == fixed_size(),
        order.plan.env@.len() == 1,
        order.plan.env@[0].name@ == "TERM"@,
        order.plan.env@[0].value@ == "xterm-256color"@,
{
    let release = state.0.take();
    let mut env: Vec<EnvVar> = Vec::new();
    env.push(EnvVar { name: String::from_str("TERM"), value: String::from_str("xterm-256color") });
    let plan = SpawnPlan {
        program: kubectl_program(located),
        args: build_exec_args(name, namespace, source_file, context_name),
        env,
        size: PtySize { rows: DEFAULT_ROWS, cols: DEFAULT_COLS, pixel_width: 0, pixel_height: 0 },
    };
    PodExecOrder { release, plan }
}

/// Registers the session that was spawned for the pod view. Should another
/// have been registered in the meantime, it is handed out to be released.
pub fn store_session<W, C>(state: &mut PtyState<W, C>, session: PtySession<W, C>) -> (displaced:
    Option<PtySession<W, C>>)
    ensures
        final(state).current() == Some(session),
        displaced == old(state).current(),
{
    state.0.replace(session)
}

/// Input for the pod view's session: the bytes of `input`, to be written and
/// flushed. Without a session the input is dropped, which is no error.
pub fn send_exec_input<W, C>(input: &str, state: &PtyState<W, C>) -> (action: InputAction)
    ensures
        state.current() is None <==> action is Ignore,
        action matches InputAction::WriteAndFlush(bytes) ==> bytes@ == vstd::utf8::encode_utf8(input@),
{
    if state.0.is_empty() {
        InputAction::Ignore
    } else {
        InputAction::WriteAndFlush(input.as_bytes_vec())
    }
}

} // verus!
