//! Cluster contexts and pod summaries, as the user interface receives them.

use vstd::prelude::*;

verus! {

/// One context of a kubeconfig file.
#[derive(Clone, Debug, PartialEq, Eq)]
pub struct KubeContext {
    /// The name shown to the user. It is taken from the name of the
    /// kubeconfig file (`config.staging` gives `staging`) and falls back to
    /// the context name where the file is plain `config`.
    pub display_name: String,
    /// The name of the context inside the kubeconfig file: what `--context`
    /// gets.
    pub context_name: String,
    /// The path of the kubeconfig file that holds the context: what
    /// `--kubeconfig` gets.
    pub source_file: String,
    pub cluster: String,
    pub user: String,
    pub is_active: bool,
    /// The URL of the API server, used for health checks.
    pub server_url: Option<String>,
}

/// One label of a pod.
#[derive(Clone, Debug, PartialEq, Eq)]
pub struct Label {
    pub key: String,
    pub value: String,
}

/// One row of the pod list.
#[derive(Clone, Debug, PartialEq, Eq)]
pub struct PodSummary {
    pub name: String,
    pub namespace: String,
    pub status: String,
    pub ready: String,
    pub restarts: u32,
    pub age: String,
    pub cpu: String,
    pub memory: String,
    pub node: String,
    /// The labels, sorted by key; no key occurs twice.
    pub labels: Vec<Label>,
}

/// A context as the contracts see it.
pub struct KubeContextView {
    pub display_name: Seq<char>,
    pub context_name: Seq<char>,
    pub source_file: Seq<char>,
    pub cluster: Seq<char>,
    pub user: Seq<char>,
    pub is_active: bool,
    pub server_url: Option<Seq<char>>,
}

/// A label as the contracts see it.
pub struct LabelView {
    pub key: Seq<char>,
    pub value: Seq<char>,
}

/// A pod summary as the contracts see it.
pub struct PodSummaryView {
    pub name: Seq<char>,
    pub namespace: Seq<char>,
    pub status: Seq<char>,
    pub ready: Seq<char>,
    pub restarts: u32,
    pub age: Seq<char>,
    pub cpu: Seq<char>,
    pub memory: Seq<char>,
    pub node: Seq<char>,
    pub labels: Seq<LabelView>,
}

impl KubeContext {
    pub open spec fn view(&self) -> KubeContextView {
        KubeContextView {
            display_name: self.display_name@,
            context_name: self.context_name@,
            source_file: self.source_file@,
            cluster: self.cluster@,
            user: self.user@,
            is_active: self.is_active,
            server_url: crate::text::opt_view(self.server_url),
        }
    }
}

impl Label {
    pub open spec fn view(&self) -> LabelView {
        LabelView { key: self.key@, value: self.value@ }
    }
}

/// The views of a list of labels, element by element.
pub open spec fn label_views(labels: Seq<Label>) -> Seq<LabelView> {
    labels.map_values(|l: Label| l@)
}

impl PodSummary {
    pub open spec fn view(&self) -> PodSummaryView {
        PodSummaryView {
            name: self.name@,
            namespace: self.namespace@,
            status: self.status@,
            ready: self.ready@,
            restarts: self.restarts,
            age: self.age@,
            cpu: self.cpu@,
            memory: self.memory@,
            node: self.node@,
            labels: label_views(self.labels@),
        }
    }
}

} // verus!
