//! Kubeconfig files: which files to read, and the contexts that they hold.
//!
//! Reading and parsing are the caller's part. What was parsed arrives here as
//! [`KubeconfigFile`] values.

use vstd::prelude::*;
use vstd::string::*;
use crate::models::k8s::{KubeContext, KubeContextView};
use crate::text::{
    ascending, blank, chars_of, has_prefix, is_blank, opt_view, skip_char_back, sort_strings,
    split, split_chars, string_of_range, strip_trailing_char, text_result_view, trim, trimmed,
    views,
};

verus! {

/// A named cluster of a kubeconfig file.
#[derive(Clone, Debug, PartialEq, Eq)]
pub struct ClusterEntry {
    pub name: String,
    /// The server URL, where the entry has cluster data that names one.
    pub server: Option<String>,
}

/// What a context refers to.
#[derive(Clone, Debug, PartialEq, Eq)]
pub struct ContextTarget {
    pub cluster: String,
    pub user: Option<String>,
    pub namespace: Option<String>,
}

/// A named context of a kubeconfig file.
#[derive(Clone, Debug, PartialEq, Eq)]
pub struct ContextEntry {
    pub name: String,
    /// The context's data; a file may name a context without any.
    pub context: Option<ContextTarget>,
}

/// One kubeconfig file that was read and parsed.
#[derive(Clone, Debug, PartialEq, Eq)]
pub struct KubeconfigFile {
    /// Where the file was read from.
    pub path: String,
    pub current_context: Option<String>,
    pub clusters: Vec<ClusterEntry>,
    pub contexts: Vec<ContextEntry>,
}

/// A cluster entry as the contracts see it.
pub struct ClusterEntryView {
    pub name: Seq<char>,
    pub server: Option<Seq<char>>,
}

/// A context's data as the contracts see it.
pub struct ContextTargetView {
    pub cluster: Seq<char>,
    pub user: Option<Seq<char>>,
    pub namespace: Option<Seq<char>>,
}

/// A context entry as the contracts see it.
pub struct ContextEntryView {
    pub name: Seq<char>,
    pub context: Option<ContextTargetView>,
}

/// A kubeconfig file as the contracts see it.
pub struct KubeconfigFileView {
    pub path: Seq<char>,
    pub current_context: Option<Seq<char>>,
    pub clusters: Seq<ClusterEntryView>,
    pub contexts: Seq<ContextEntryView>,
}

impl ClusterEntry {
    pub open spec fn view(&self) -> ClusterEntryView {
        ClusterEntryView { name: self.name@, server: opt_view(self.server) }
    }
}

impl ContextTarget {
    pub open spec fn view(&self) -> ContextTargetView {
        ContextTargetView {
            cluster: self.cluster@,
            user: opt_view(self.user),
            namespace: opt_view(self.namespace),
        }
    }
}

impl ContextEntry {
    pub open spec fn view(&self) -> ContextEntryView {
        ContextEntryView {
            name: self.name@,
            context: match self.context {
                Some(target) => Some(target@),
                None => None,
            },
        }
    }
}

impl KubeconfigFile {
    pub open spec fn view(&self) -> KubeconfigFileView {
        KubeconfigFileView {
            path: self.path@,
            current_context: opt_view(self.current_context),
            clusters: self.clusters@.map_values(|c: ClusterEntry| c@),
            contexts: self.contexts@.map_values(|c: ContextEntry| c@),
        }
    }
}

/// The views of a list of files, element by element.
pub open spec fn file_views(files: Seq<KubeconfigFile>) -> Seq<KubeconfigFileView> {
    files.map_values(|f: KubeconfigFile| f@)
}

/// Whether a file names the context `name`.
pub open spec fn names_context(file: KubeconfigFileView, name: Seq<char>) -> bool {
    exists|i: int| 0 <= i < file.contexts.len() && (#[trigger] file.contexts[i]).name == name
}

/// Decides whether a file names the context `name`.
pub fn has_context(file: &KubeconfigFile, name: &str) -> (found: bool)
    ensures
        found == names_context(file@, name@),
{
    let wanted = String::from_str(name);
    let mut i: usize = 0;
    while i < file.contexts.len()
        invariant
            i <= file.contexts.len(),
            wanted@ == name@,
            forall|j: int| 0 <= j < i ==> (#[trigger] file@.contexts[j]).name != name@,
        decreases file.contexts.len() - i,
    {
        if file.contexts[i].name == wanted {
            assert(file@.contexts[i as int].name == name@);
            return true;
        }
        i += 1;
    }
    false
}

/// The character that separates the paths of a kubeconfig path list.
pub open spec fn list_separator(windows: bool) -> char {
    if windows {
        ';'
    } else {
        ':'
    }
}

/// Whether a piece of a path list names a path: it is not blank.
pub open spec fn names_path() -> spec_fn(Seq<char>) -> bool {
    |piece: Seq<char>| !is_blank(piece)
}

/// A piece of a path list, trimmed.
pub open spec fn trimmer() -> spec_fn(Seq<char>) -> Seq<char> {
    |piece: Seq<char>| trim(piece)
}

/// The paths that a kubeconfig path list names: its pieces, without the
/// blank ones, each trimmed.
pub open spec fn env_paths(value: Seq<char>, windows: bool) -> Seq<Seq<char>> {
    split(value, list_separator(windows)).filter(names_path()).map_values(trimmer())
}

/// The paths that a kubeconfig path list names, in order.
pub fn kubeconfig_env_paths(value: &str, windows: bool) -> (paths: Vec<String>)
    ensures
        views(paths@) == env_paths(value@, windows),
{
    let sep: char = if windows {
        ';'
    } else {
        ':'
    };
    let v = chars_of(value);
    let pieces = split_chars(&v, sep);
    let ghost all = views(pieces@);
    let mut paths: Vec<String> = Vec::new();
    let mut i: usize = 0;
    proof {
        reveal(Seq::filter);
        assert(all.take(0) =~= Seq::<Seq<char>>::empty());
        assert(views(paths@) =~= all.take(0).filter(names_path()).map_values(trimmer()));
    }
    while i < pieces.len()
        invariant
            i <= pieces.len(),
            all == views(pieces@),
            views(paths@) == all.take(i as int).filter(names_path()).map_values(trimmer()),
        decreases pieces.len() - i,
    {
        let ghost before = views(paths@);
        let ghost kept = all.take(i as int).filter(names_path());
        proof {
            assert(all.take(i as int + 1) =~= all.take(i as int).push(all[i as int]));
            all.take(i as int).lemma_filter_push(all[i as int], names_path());
            assert(all[i as int] == pieces@[i as int]@);
        }
        if !blank(pieces[i].as_str()) {
            paths.push(trimmed(pieces[i].as_str()));
            proof {
                assert(names_path()(all[i as int]));
                assert(views(paths@) =~= before.push(trim(all[i as int])));
                assert(kept.push(all[i as int]).map_values(trimmer()) =~= kept.map_values(
                    trimmer(),
                ).push(trim(all[i as int])));
            }
        } else {
            assert(!names_path()(all[i as int]));
        }
        i += 1;
    }
    assert(all.take(pieces.len() as int) =~= all);
    paths
}

/// The kubeconfig file that changes are written to: the first path of the
/// path list, trimmed, where a path list is set; else the default file
/// under the home directory, where there is a home directory.
pub open spec fn primary_path(
    kube_env: Option<Seq<char>>,
    windows: bool,
    home_config: Option<Seq<char>>,
) -> Option<Seq<char>> {
    match kube_env {
        Some(value) => Some(trim(split(value, list_separator(windows))[0])),
        None => home_config,
    }
}

/// The kubeconfig file that changes are written to. `kube_env` is the path
/// list of the environment, where it is set; `home_config` is the default
/// file under the home directory, where there is a home directory.
pub fn primary_kubeconfig_path(
    kube_env: Option<String>,
    windows: bool,
    home_config: Option<String>,
) -> (path: Option<String>)
    ensures
        opt_view(path) == primary_path(opt_view(kube_env), windows, opt_view(home_config)),
{
    match kube_env {
        Some(value) => {
            let sep: char = if windows {
                ';'
            } else {
                ':'
            };
            let v = chars_of(value.as_str());
            let pieces = split_chars(&v, sep);
            assert(views(pieces@)[0] == pieces@[0]@);
            Some(trimmed(pieces[0].as_str()))
        },
        None => home_config,
    }
}

/// A `.kube` directory that may be scanned, and whether it exists.
#[derive(Clone, Debug, PartialEq, Eq)]
pub struct DirProbe {
    pub path: String,
    pub is_dir: bool,
}

/// The directories to scan: the `.kube` directory under the home directory
/// and the one under the Windows profile, in this order, each only where it
/// is known and exists.
pub open spec fn dirs_to_scan(home: Option<DirProbe>, windows_home: Option<DirProbe>) -> Seq<
    Seq<char>,
> {
    let first = match home {
        Some(probe) => if probe.is_dir {
            seq![probe.path@]
        } else {
            Seq::empty()
        },
        None => Seq::empty(),
    };
    let second = match windows_home {
        Some(probe) => if probe.is_dir {
            seq![probe.path@]
        } else {
            Seq::empty()
        },
        None => Seq::empty(),
    };
    first + second
}

/// The directories to scan for kubeconfig files.
pub fn kube_dirs_to_scan(home: Option<DirProbe>, windows_home: Option<DirProbe>) -> (dirs: Vec<
    String,
>)
    ensures
        views(dirs@) == dirs_to_scan(home, windows_home),
{
    let mut dirs: Vec<String> = Vec::new();
    match home {
        Some(probe) => {
            if probe.is_dir {
                dirs.push(probe.path);
            }
        },
        None => {},
    }
    match windows_home {
        Some(probe) => {
            if probe.is_dir {
                dirs.push(probe.path);
            }
        },
        None => {},
    }
    assert(views(dirs@) =~= dirs_to_scan(home, windows_home));
    dirs
}

/// One entry of a directory listing.
#[derive(Clone, Debug, PartialEq, Eq)]
pub struct DirEntry {
    /// The path of the entry.
    pub path: String,
    /// The entry's file name; empty where the name is not valid text.
    pub name: String,
    pub is_dir: bool,
}

/// Whether a directory entry is a candidate kubeconfig file: a file, not a
/// directory, whose name begins with `config`.
pub open spec fn is_candidate(entry: DirEntry) -> bool {
    !entry.is_dir && "config"@.is_prefix_of(entry.name@)
}

/// The paths of the candidates among the first `upto` entries, in listing
/// order.
pub open spec fn candidate_paths(entries: Seq<DirEntry>, upto: int) -> Seq<Seq<char>>
    decreases upto,
{
    if upto <= 0 {
        Seq::empty()
    } else if is_candidate(entries[upto - 1]) {
        candidate_paths(entries, upto - 1).push(entries[upto - 1].path@)
    } else {
        candidate_paths(entries, upto - 1)
    }
}

/// The candidate kubeconfig files of one directory listing: the paths of
/// the entries that are files whose name begins with `config`, in ascending
/// order.
pub fn scan_kube_dir(entries: Vec<DirEntry>) -> (paths: Vec<String>)
    ensures
        ascending(views(paths@)),
        views(paths@).to_multiset() == candidate_paths(
            entries@,
            entries@.len() as int,
        ).to_multiset(),
{
    let config = chars_of("config");
    let mut found: Vec<String> = Vec::new();
    let mut i: usize = 0;
    assert(views(found@) =~= candidate_paths(entries@, 0));
    while i < entries.len()
        invariant
            i <= entries.len(),
            config@ == "config"@,
            views(found@) == candidate_paths(entries@, i as int),
        decreases entries.len() - i,
    {
        let ghost before = views(found@);
        let name = chars_of(entries[i].name.as_str());
        if !entries[i].is_dir && has_prefix(&name, &config) {
            found.push(entries[i].path.clone());
            assert(views(found@) =~= before.push(entries@[i as int].path@));
        }
        i += 1;
    }
    sort_strings(found)
}

/// The files that could be read and parsed, in the order of their paths.
pub open spec fn parsed_files(results: Seq<Option<KubeconfigFile>>, upto: int) -> Seq<
    KubeconfigFile,
>
    decreases upto,
{
    if upto <= 0 {
        Seq::empty()
    } else {
        match results[upto - 1] {
            Some(file) => parsed_files(results, upto - 1).push(file),
            None => parsed_files(results, upto - 1),
        }
    }
}

/// Keeps the files that could be read and parsed; a path that could not is
/// skipped. `results` holds, for each path in order, what reading it gave.
pub fn load_files_from_paths(results: Vec<Option<KubeconfigFile>>) -> (files: Vec<KubeconfigFile>)
    ensures
        files@ == parsed_files(results@, results@.len() as int),
{
    let mut results = results;
    let ghost all = results@;
    // The results are taken from the back, so the files are turned round
    // at the end.
    let mut reversed: Vec<KubeconfigFile> = Vec::new();
    let mut files: Vec<KubeconfigFile> = Vec::new();
    while results.len() > 0
        invariant
            results@ == all.take(results@.len() as int),
            results@.len() <= all.len(),
            parsed_files(all, all.len() as int) == parsed_files(all, results@.len() as int)
                + reversed@.reverse(),
        decreases results.len(),
    {
        let ghost n = results@.len() as int;
        let ghost rev_before = reversed@;
        let last = results.pop().unwrap();
        proof {
            assert(last == all[n - 1]);
            assert(results@ =~= all.take(n - 1));
        }
        match last {
            Some(file) => {
                reversed.push(file);
                proof {
                    assert(reversed@.reverse() =~= seq![file] + rev_before.reverse());
                    assert(parsed_files(all, n) + rev_before.reverse() =~= parsed_files(all, n - 1)
                        + reversed@.reverse());
                }
            },
            None => {},
        }
    }
    proof {
        assert(parsed_files(all, 0) + reversed@.reverse() =~= reversed@.reverse());
    }
    let ghost target = reversed@.reverse();
    while reversed.len() > 0
        invariant
            files@ + reversed@.reverse() == target,
        decreases reversed.len(),
    {
        let ghost rev_before = reversed@;
        let ghost files_before = files@;
        let file = reversed.pop().unwrap();
        files.push(file);
        proof {
            assert(rev_before.reverse() =~= seq![file] + reversed@.reverse());
            assert(files@ + reversed@.reverse() =~= files_before + rev_before.reverse());
        }
    }
    proof {
        assert(files@ + reversed@.reverse() =~= files@);
    }
    files
}

/// The context that is current: the one that the first file with a current
/// context declares; the empty name where no file declares one.
pub open spec fn current_context_of(files: Seq<KubeconfigFileView>, from: int) -> Seq<char>
    decreases files.len() - from,
{
    if from < 0 || from >= files.len() {
        Seq::empty()
    } else {
        match files[from].current_context {
            Some(name) => name,
            None => current_context_of(files, from + 1),
        }
    }
}

/// The cluster entries of all files, in file order.
pub open spec fn all_clusters(files: Seq<KubeconfigFileView>) -> Seq<ClusterEntryView>
    decreases files.len(),
{
    if files.len() == 0 {
        Seq::empty()
    } else {
        all_clusters(files.drop_last()) + files.last().clusters
    }
}

/// The server of the cluster `name`: that of the last entry of this name
/// that gives a server.
pub open spec fn server_of(clusters: Seq<ClusterEntryView>, name: Seq<char>) -> Option<Seq<char>>
    decreases clusters.len(),
{
    if clusters.len() == 0 {
        None
    } else if clusters.last().name == name && clusters.last().server is Some {
        clusters.last().server
    } else {
        server_of(clusters.drop_last(), name)
    }
}

/// A context entry together with the path of the file that holds it.
pub struct Located {
    pub path: Seq<char>,
    pub entry: ContextEntryView,
}

/// The context entries of one file, each with the file's path.
pub open spec fn located_in(file: KubeconfigFileView) -> Seq<Located> {
    file.contexts.map_values(|entry: ContextEntryView| Located { path: file.path, entry })
}

/// The context entries of all files, in file order.
pub open spec fn located_contexts(files: Seq<KubeconfigFileView>) -> Seq<Located>
    decreases files.len(),
{
    if files.len() == 0 {
        Seq::empty()
    } else {
        located_contexts(files.drop_last()) + located_in(files.last())
    }
}

/// Whether one of `entries` has the name `name`.
pub open spec fn name_occurs(entries: Seq<Located>, name: Seq<char>) -> bool {
    exists|i: int| 0 <= i < entries.len() && (#[trigger] entries[i]).entry.name == name
}

/// Whether a character separates the parts of a path.
pub open spec fn is_path_separator(c: char) -> bool {
    c == '/' || c == '\\'
}

/// The last part of a path: what follows its last separator.
pub open spec fn file_name(path: Seq<char>) -> Seq<char>
    decreases path.len(),
{
    if path.len() == 0 || is_path_separator(path.last()) {
        Seq::empty()
    } else {
        file_name(path.drop_last()).push(path.last())
    }
}

/// The name shown for a context: what follows `config.` in the name of its
/// file; the context's own name where the file is named otherwise, or
/// nothing follows.
pub open spec fn display_name_of(path: Seq<char>, context_name: Seq<char>) -> Seq<char> {
    let name = file_name(path);
    if "config."@.is_prefix_of(name) && name.len() > "config."@.len() {
        name.skip("config."@.len() as int)
    } else {
        context_name
    }
}

/// The context record for an entry that has context data.
pub open spec fn context_record(
    located: Located,
    current: Seq<char>,
    clusters: Seq<ClusterEntryView>,
) -> KubeContextView
    recommends
        located.entry.context is Some,
{
    let target = located.entry.context->0;
    KubeContextView {
        display_name: display_name_of(located.path, located.entry.name),
        context_name: located.entry.name,
        source_file: located.path,
        cluster: target.cluster,
        user: match target.user {
            Some(user) => user,
            None => Seq::empty(),
        },
        is_active: located.entry.name == current,
        server_url: server_of(clusters, target.cluster),
    }
}

/// The context records for `entries`: one for each entry that has context
/// data and whose name no earlier entry bears. An entry without context
/// data gives no record, and still takes its name.
pub open spec fn records_of(
    entries: Seq<Located>,
    current: Seq<char>,
    clusters: Seq<ClusterEntryView>,
) -> Seq<KubeContextView>
    decreases entries.len(),
{
    if entries.len() == 0 {
        Seq::empty()
    } else {
        let earlier = records_of(entries.drop_last(), current, clusters);
        let last = entries.last();
        if name_occurs(entries.drop_last(), last.entry.name) || last.entry.context is None {
            earlier
        } else {
            earlier.push(context_record(last, current, clusters))
        }
    }
}

/// The context records of a list of kubeconfig files. The current context
/// is the one that the first file with a current context declares; servers
/// are looked up among the clusters of all files; each record names the file
/// that holds its context; of contexts with the same name the first counts.
pub open spec fn contexts_of(files: Seq<KubeconfigFileView>) -> Seq<KubeContextView> {
    records_of(located_contexts(files), current_context_of(files, 0), all_clusters(files))
}

/// The views of a list of context records, element by element.
pub open spec fn context_views(contexts: Seq<KubeContext>) -> Seq<KubeContextView> {
    contexts.map_values(|c: KubeContext| c@)
}

/// The file name of a path is its longest ending without a separator.
pub proof fn lemma_file_name(path: Seq<char>, k: int)
    requires
        0 <= k <= path.len(),
        forall|i: int| k <= i < path.len() ==> !is_path_separator(#[trigger] path[i]),
        k > 0 ==> is_path_separator(path[k - 1]),
    ensures
        file_name(path) == path.skip(k),
    decreases path.len() - k,
{
    if k == path.len() {
        assert(path.skip(k) =~= Seq::<char>::empty());
    } else {
        let init = path.drop_last();
        assert forall|i: int| k <= i < init.len() implies !is_path_separator(
            #[trigger] init[i],
        ) by {
            assert(init[i] == path[i]);
        }
        lemma_file_name(init, k);
        assert(init.skip(k).push(path.last()) =~= path.skip(k));
    }
}

/// The name shown for a context.
pub fn display_name(path: &str, context_name: &str) -> (name: String)
    ensures
        name@ == display_name_of(path@, context_name@),
{
    let v = chars_of(path);
    let mut k: usize = v.len();
    while k > 0 && v[k - 1] != '/' && v[k - 1] != '\\'
        invariant
            k <= v.len(),
            forall|i: int| k <= i < v.len() ==> !is_path_separator(#[trigger] v@[i]),
        decreases k,
    {
        k -= 1;
    }
    proof {
        lemma_file_name(v@, k as int);
    }
    let prefix = chars_of("config.");
    proof {
        reveal_strlit("config.");
        assert("config."@.len() == 7);
    }
    let mut same: bool = v.len() - k > prefix.len();
    let mut i: usize = 0;
    while same && i < prefix.len()
        invariant
            i <= prefix.len(),
            prefix.len() == 7,
            same ==> k + prefix.len() < v.len(),
            same ==> forall|j: int| 0 <= j < i ==> prefix@[j] == v@[k + j],
            !same ==> !(prefix@.is_prefix_of(v@.skip(k as int)) && v@.skip(k as int).len()
                > prefix@.len()),
        decreases prefix.len() - i + if same { 1int } else { 0int },
    {
        if prefix[i] != v[k + i] {
            same = false;
            proof {
                let name = v@.skip(k as int);
                if prefix@.is_prefix_of(name) {
                    assert(name.subrange(0, prefix@.len() as int)[i as int] == prefix@[i as int]);
                }
            }
        } else {
            i += 1;
        }
    }
    if same {
        proof {
            let name = v@.skip(k as int);
            assert(prefix@ =~= name.subrange(0, prefix@.len() as int));
            assert(name.skip(7) =~= v@.subrange(k + 7, v.len() as int));
        }
        string_of_range(&v, k + prefix.len(), v.len())
    } else {
        String::from_str(context_name)
    }
}

/// The context that is current among `files`.
fn current_context(files: &Vec<KubeconfigFile>) -> (current: String)
    ensures
        current@ == current_context_of(file_views(files@), 0),
{
    let mut i: usize = 0;
    while i < files.len()
        invariant
            i <= files.len(),
            current_context_of(file_views(files@), 0) == current_context_of(
                file_views(files@),
                i as int,
            ),
        decreases files.len() - i,
    {
        assert(file_views(files@)[i as int] == files@[i as int]@);
        match &files[i].current_context {
            Some(name) => {
                return name.clone();
            },
            None => {},
        }
        i += 1;
    }
    String::new()
}

/// The server of the cluster `name`, looked up among the clusters of all
/// files.
fn lookup_server(files: &Vec<KubeconfigFile>, name: &String) -> (server: Option<String>)
    ensures
        opt_view(server) == server_of(all_clusters(file_views(files@)), name@),
{
    let ghost all = file_views(files@);
    let mut fi: usize = files.len();
    assert(all.take(fi as int) =~= all);
    while fi > 0
        invariant
            fi <= files.len(),
            all == file_views(files@),
            server_of(all_clusters(all), name@) == server_of(
                all_clusters(all.take(fi as int)),
                name@,
            ),
        decreases fi,
    {
        let file = &files[fi - 1];
        let ghost upto = all.take(fi as int);
        let ghost before = all_clusters(all.take(fi as int - 1));
        let ghost own = file@.clusters;
        proof {
            assert(upto.last() == file@);
            assert(upto.drop_last() =~= all.take(fi as int - 1));
            assert(all_clusters(upto) == before + own);
        }
        let mut ci: usize = file.clusters.len();
        assert(own.take(ci as int) =~= own);
        while ci > 0
            invariant
                ci <= file.clusters.len(),
                own == file@.clusters,
                server_of(all_clusters(file_views(files@)), name@) == server_of(
                    before + own.take(ci as int),
                    name@,
                ),
            decreases ci,
        {
            let entry = &file.clusters[ci - 1];
            proof {
                let joined = before + own.take(ci as int);
                assert(joined.last() == entry@);
                assert(joined.drop_last() =~= before + own.take(ci as int - 1));
            }
            if entry.name == *name {
                match &entry.server {
                    Some(server) => {
                        return Some(server.clone());
                    },
                    None => {},
                }
            }
            ci -= 1;
        }
        proof {
            assert(before + own.take(0) =~= before);
        }
        fi -= 1;
    }
    proof {
        assert(all.take(0) =~= Seq::<KubeconfigFileView>::empty());
    }
    None
}

/// Whether `name` is among `seen`.
fn seen_before(seen: &Vec<String>, name: &String) -> (found: bool)
    ensures
        found == exists|i: int| 0 <= i < seen@.len() && (#[trigger] seen@[i])@ == name@,
{
    let mut i: usize = 0;
    while i < seen.len()
        invariant
            i <= seen.len(),
            forall|j: int| 0 <= j < i ==> (#[trigger] seen@[j])@ != name@,
        decreases seen.len() - i,
    {
        if seen[i] == *name {
            return true;
        }
        i += 1;
    }
    false
}

/// The context records of a list of kubeconfig files, each with the file
/// that it came from.
pub fn build_contexts_from_files(files: &Vec<KubeconfigFile>) -> (contexts: Vec<KubeContext>)
    ensures
        context_views(contexts@) == contexts_of(file_views(files@)),
{
    let current = current_context(files);
    let ghost all = file_views(files@);
    let ghost clusters = all_clusters(all);
    let mut seen: Vec<String> = Vec::new();
    let mut contexts: Vec<KubeContext> = Vec::new();
    let mut fi: usize = 0;
    proof {
        assert(all.take(0) =~= Seq::<KubeconfigFileView>::empty());
        assert(context_views(contexts@) =~= records_of(
            located_contexts(all.take(0)),
            current@,
            clusters,
        ));
    }
    while fi < files.len()
        invariant
            fi <= files.len(),
            all == file_views(files@),
            clusters == all_clusters(all),
            current@ == current_context_of(all, 0),
            context_views(contexts@) == records_of(
                located_contexts(all.take(fi as int)),
                current@,
                clusters,
            ),
            forall|name: Seq<char>|
                name_occurs(located_contexts(all.take(fi as int)), name) <==> exists|k: int|
                    0 <= k < seen@.len() && (#[trigger] seen@[k])@ == name,
        decreases files.len() - fi,
    {
        let file = &files[fi];
        let ghost before = located_contexts(all.take(fi as int));
        let ghost own = located_in(file@);
        proof {
            let upto = all.take(fi as int + 1);
            assert(upto.last() == file@);
            assert(upto.drop_last() =~= all.take(fi as int));
            assert(located_contexts(upto) == before + own);
            assert(before + own.take(0) =~= before);
        }
        let mut ci: usize = 0;
        while ci < file.contexts.len()
            invariant
                ci <= file.contexts.len(),
                own == located_in(file@),
                own.len() == file.contexts.len(),
                all == file_views(files@),
                clusters == all_clusters(all),
                context_views(contexts@) == records_of(
                    before + own.take(ci as int),
                    current@,
                    clusters,
                ),
                forall|name: Seq<char>|
                    name_occurs(before + own.take(ci as int), name) <==> exists|k: int|
                        0 <= k < seen@.len() && (#[trigger] seen@[k])@ == name,
            decreases file.contexts.len() - ci,
        {
            let entry = &file.contexts[ci];
            let ghost done = before + own.take(ci as int);
            let ghost next = before + own.take(ci as int + 1);
            let ghost located = own[ci as int];
            let ghost records_before = context_views(contexts@);
            let ghost seen_before_step = seen@;
            proof {
                assert(located.entry == entry@);
                assert(located.path == file.path@);
                assert(next =~= done.push(located));
                assert(next.drop_last() =~= done);
                assert(next.last() == located);
            }
            let known = seen_before(&seen, &entry.name);
            assert(known == name_occurs(done, entry.name@));
            if !known {
                seen.push(entry.name.clone());
            }
            proof {
                assert forall|name: Seq<char>| name_occurs(next, name) <==> exists|k: int|
                    0 <= k < seen@.len() && (#[trigger] seen@[k])@ == name by {
                    if name_occurs(next, name) {
                        let i = choose|i: int|
                            0 <= i < next.len() && (#[trigger] next[i]).entry.name == name;
                        if i < done.len() {
                            assert(done[i].entry.name == name);
                            assert(name_occurs(done, name));
                            let k = choose|k: int|
                                0 <= k < seen_before_step.len() && (
                                #[trigger] seen_before_step[k])@ == name;
                            assert(seen@[k]@ == name);
                        } else {
                            assert(name == entry.name@);
                            if known {
                                let k = choose|k: int|
                                    0 <= k < seen_before_step.len() && (
                                    #[trigger] seen_before_step[k])@ == name;
                                assert(seen@[k]@ == name);
                            } else {
                                assert(seen@[seen@.len() - 1]@ == name);
                            }
                        }
                    }
                    if exists|k: int| 0 <= k < seen@.len() && (#[trigger] seen@[k])@ == name {
                        let k = choose|k: int| 0 <= k < seen@.len() && (#[trigger] seen@[k])@ == name;
                        if k < seen_before_step.len() {
                            assert(seen_before_step[k]@ == name);
                            assert(name_occurs(done, name));
                            let i = choose|i: int|
                                0 <= i < done.len() && (#[trigger] done[i]).entry.name == name;
                            assert(next[i].entry.name == name);
                        } else {
                            assert(next[next.len() - 1].entry.name == name);
                        }
                    }
                }
            }
            if !known {
                match &entry.context {
                    Some(target) => {
                        let server_url = lookup_server(files, &target.cluster);
                        let user = match &target.user {
                            Some(user) => user.clone(),
                            None => String::new(),
                        };
                        let is_active = entry.name == current;
                        let record = KubeContext {
                            display_name: display_name(file.path.as_str(), entry.name.as_str()),
                            context_name: entry.name.clone(),
                            source_file: file.path.clone(),
                            cluster: target.cluster.clone(),
                            user,
                            is_active,
                            server_url,
                        };
                        proof {
                            assert(located.entry.context->0 == target@);
                            assert(record@ == context_record(located, current@, clusters));
                        }
                        contexts.push(record);
                        proof {
                            assert(context_views(contexts@) =~= records_before.push(record@));
                        }
                    },
                    None => {},
                }
            }
            ci += 1;
        }
        proof {
            assert(own.take(file.contexts.len() as int) =~= own);
        }
        fi += 1;
    }
    proof {
        assert(all.take(files.len() as int) =~= all);
    }
    contexts
}

/// The number of context entries in `files`.
pub open spec fn context_count(files: Seq<KubeconfigFileView>) -> nat
    decreases files.len(),
{
    if files.len() == 0 {
        0
    } else {
        context_count(files.drop_last()) + files.last().contexts.len()
    }
}

/// Whether the files of the path list settle the answer: they hold at least
/// one context entry. Where they do not, the `.kube` directories are
/// scanned.
pub fn env_suffices(env_files: &Vec<KubeconfigFile>) -> (enough: bool)
    ensures
        enough == (context_count(file_views(env_files@)) > 0),
{
    let ghost all = file_views(env_files@);
    let mut i: usize = 0;
    assert(all.take(0) =~= Seq::<KubeconfigFileView>::empty());
    while i < env_files.len()
        invariant
            i <= env_files.len(),
            all == file_views(env_files@),
            context_count(all.take(i as int)) == 0,
        decreases env_files.len() - i,
    {
        proof {
            let upto = all.take(i as int + 1);
            assert(upto.drop_last() =~= all.take(i as int));
            assert(upto.last() == env_files@[i as int]@);
            assert(all.take(env_files.len() as int) =~= all);
        }
        if env_files[i].contexts.len() > 0 {
            proof {
                lemma_context_count_grows(all, i as int + 1);
            }
            return true;
        }
        i += 1;
    }
    assert(all.take(env_files.len() as int) =~= all);
    false
}

/// Files add context entries, they take none away.
pub proof fn lemma_context_count_grows(files: Seq<KubeconfigFileView>, upto: int)
    requires
        0 <= upto <= files.len(),
    ensures
        context_count(files.take(upto)) <= context_count(files),
    decreases files.len() - upto,
{
    if upto == files.len() {
        assert(files.take(upto) =~= files);
    } else {
        lemma_context_count_grows(files, upto + 1);
        let next = files.take(upto + 1);
        assert(next.drop_last() =~= files.take(upto));
    }
}

/// The contexts to list: those of the files that the path list names, where
/// these hold any context entry; else those of the files found in the
/// `.kube` directories.
pub open spec fn listed_contexts(
    env_files: Seq<KubeconfigFileView>,
    dir_files: Seq<KubeconfigFileView>,
) -> Seq<KubeContextView> {
    if context_count(env_files) > 0 {
        contexts_of(env_files)
    } else {
        contexts_of(dir_files)
    }
}

/// Lists the contexts. `env_files` are the parsed files of the path list
/// (none where the path list is unset or empty); `dir_files` are the parsed
/// candidates of the `.kube` directories, which are read only where
/// [`env_suffices`] says no.
pub fn get_kubeconfig_contexts(env_files: &Vec<KubeconfigFile>, dir_files: &Vec<KubeconfigFile>)
    -> (contexts: Vec<KubeContext>)
    ensures
        context_views(contexts@) == listed_contexts(
            file_views(env_files@),
            file_views(dir_files@),
        ),
{
    if env_suffices(env_files) {
        build_contexts_from_files(env_files)
    } else {
        build_contexts_from_files(dir_files)
    }
}

/// The key of a kubeconfig file that names the current context.
pub const CURRENT_CONTEXT_KEY: &'static str = "current-context";

/// The step of a change of the current context that failed.
#[derive(Clone, Copy, Debug, PartialEq, Eq, Structural)]
pub enum ContextFault {
    /// The kubeconfig file could not be read.
    Read,
    /// The kubeconfig file could not be parsed.
    Parse,
    /// The changed document could not be serialised.
    Serialize,
    /// The kubeconfig file could not be written.
    Write,
}

/// What introduces the message for a failed step.
pub open spec fn context_fault_prefix(fault: ContextFault) -> Seq<char> {
    match fault {
        ContextFault::Read => "Failed to read kubeconfig: "@,
        ContextFault::Parse => "Failed to parse kubeconfig: "@,
        ContextFault::Serialize => "Failed to serialize kubeconfig: "@,
        ContextFault::Write => "Failed to write kubeconfig: "@,
    }
}

/// The message that reports a failed step of a change of the current
/// context, with the detail that was given.
pub fn context_fault_message(fault: ContextFault, detail: &str) -> (message: String)
    ensures
        message@ == context_fault_prefix(fault) + detail@,
{
    let prefix = match fault {
        ContextFault::Read => "Failed to read kubeconfig: ",
        ContextFault::Parse => "Failed to parse kubeconfig: ",
        ContextFault::Serialize => "Failed to serialize kubeconfig: ",
        ContextFault::Write => "Failed to write kubeconfig: ",
    };
    crate::text::join_two(prefix, detail)
}

/// The report of a kubeconfig file whose place is not known.
pub fn no_path_message() -> (message: String)
    ensures
        message@ == "Cannot determine kubeconfig path"@,
{
    String::from_str("Cannot determine kubeconfig path")
}

/// The text of the error that parsing `raw` as YAML gives; there is none
/// where `raw` parses. It names what `serde_yaml::from_str` makes of `raw`.
pub uninterp spec fn yaml_parse_error(raw: Seq<char>) -> Option<Seq<char>>;

/// Whether the root of the YAML document `raw` takes keys: it is null, or
/// it is a mapping, with or without tags. It is of no account where `raw`
/// does not parse.
pub uninterp spec fn yaml_root_takes_keys(raw: Seq<char>) -> bool;

/// The YAML document `raw` with the text `text` under the key `key` of its
/// root, serialised again; or the text of the error that serialising gives.
/// It names what `serde_yaml` makes of the three, and is of no account where
/// `raw` does not parse or its root takes no keys.
pub uninterp spec fn yaml_with_text(raw: Seq<char>, key: Seq<char>, text: Seq<char>) -> Result<
    Seq<char>,
    Seq<char>,
>;

/// Parses a YAML document and says whether its root takes keys. Trusted:
/// `serde_yaml::from_str` into a `serde_yaml::Value`, and `Value::is_mapping`,
/// which looks through tags; an error is handed on as its text. The contract
/// names the results, which depend on the document alone.
#[verifier::external_body]
fn inspect_yaml(raw: &str) -> (r: Result<bool, String>)
    ensures
        match r {
            Ok(keyed) => yaml_parse_error(raw@) is None && keyed == yaml_root_takes_keys(raw@),
            Err(text) => yaml_parse_error(raw@) == Some(text@),
        },
{
    match serde_yaml::from_str::<serde_yaml::Value>(raw) {
        Ok(serde_yaml::Value::Null) => Ok(true),
        Ok(doc) => Ok(doc.is_mapping()),
        Err(e) => Err(e.to_string()),
    }
}

/// Sets one key of a YAML document to a text and serialises the document.
/// Trusted: `serde_yaml::from_str`, the assignment through the index of a
/// `serde_yaml::Value`, which inserts the key where it is missing and keeps
/// every other entry in its place, and `serde_yaml::to_string`. The
/// assignment panics on a root that takes no keys: `requires` leaves such
/// documents out. The contract names the result.
#[verifier::external_body]
fn edit_yaml(raw: &str, key: &str, text: &str) -> (r: Result<String, String>)
    requires
        yaml_parse_error(raw@) is None,
        yaml_root_takes_keys(raw@),
    ensures
        text_result_view(r) == yaml_with_text(raw@, key@, text@),
{
    let mut doc: serde_yaml::Value = match serde_yaml::from_str(raw) {
        Ok(doc) => doc,
        Err(e) => return Err(e.to_string()),
    };
    doc[key] = serde_yaml::Value::String(text.to_string());
    serde_yaml::to_string(&doc).map_err(|e| e.to_string())
}

/// What is reported of a document whose root is neither null nor a mapping.
pub const NOT_A_MAPPING: &'static str = "the document is not a mapping";

/// The kubeconfig document `raw` with `context_name` as its current
/// context: every other entry is kept as the YAML library keeps it. A
/// document that does not parse, or whose root takes no keys, is reported
/// as a failure to parse; an error of serialising is reported as such.
pub open spec fn with_current_context(raw: Seq<char>, context_name: Seq<char>) -> Result<
    Seq<char>,
    Seq<char>,
> {
    match yaml_parse_error(raw) {
        Some(error) => Err(context_fault_prefix(ContextFault::Parse) + error),
        None => if !yaml_root_takes_keys(raw) {
            Err(context_fault_prefix(ContextFault::Parse) + NOT_A_MAPPING@)
        } else {
            match yaml_with_text(raw, CURRENT_CONTEXT_KEY@, context_name) {
                Ok(text) => Ok(text),
                Err(error) => Err(context_fault_prefix(ContextFault::Serialize) + error),
            }
        },
    }
}

/// Makes `context_name` the current context of the kubeconfig document
/// `raw` and gives the new text of the document.
pub fn set_active_context(raw: &str, context_name: &str) -> (result: Result<String, String>)
    ensures
        text_result_view(result) == with_current_context(
            raw@,
            context_name@,
        ),
{
    match inspect_yaml(raw) {
        Err(error) => Err(context_fault_message(ContextFault::Parse, error.as_str())),
        Ok(keyed) => {
            if !keyed {
                return Err(context_fault_message(ContextFault::Parse, NOT_A_MAPPING));
            }
            match edit_yaml(raw, CURRENT_CONTEXT_KEY, context_name) {
                Ok(text) => Ok(text),
                Err(error) => Err(context_fault_message(ContextFault::Serialize, error.as_str())),
            }
        },
    }
}

/// The answers of a cluster health check.
pub open spec fn health_text(elapsed_nanos: Option<u128>) -> Seq<char> {
    match elapsed_nanos {
        None => "unreachable"@,
        Some(nanos) => if nanos > SLOW_AFTER_NANOS {
            "slow"@
        } else {
            "healthy"@
        },
    }
}

/// The time after which an answer counts as slow: one and a half seconds,
/// in nanoseconds.
pub const SLOW_AFTER_NANOS: u128 = 1_500_000_000;

/// The time that a health probe may take, in seconds.
pub const HEALTH_TIMEOUT_SECS: u64 = 5;

/// The URL of a server's health endpoint: the server URL without trailing
/// slashes, then `/healthz`.
pub open spec fn health_url_of(server_url: Seq<char>) -> Seq<char> {
    strip_trailing_char(server_url, '/') + "/healthz"@
}

/// The URL of a server's health endpoint.
pub fn health_url(server_url: &str) -> (url: String)
    ensures
        url@ == health_url_of(server_url@),
{
    let v = chars_of(server_url);
    let k = skip_char_back(&v, '/');
    let base = string_of_range(&v, 0, k);
    assert(v@.subrange(0, k as int) =~= v@.take(k as int));
    base.concat("/healthz")
}

/// The health of a cluster, given how long its server took to answer, in
/// nanoseconds, or that it did not answer: `healthy` up to one and a half
/// seconds, `slow` beyond, `unreachable` without an answer.
pub fn check_cluster_health(elapsed_nanos: Option<u128>) -> (health: String)
    ensures
        health@ == health_text(elapsed_nanos),
{
    match elapsed_nanos {
        None => String::from_str("unreachable"),
        Some(nanos) => if nanos > SLOW_AFTER_NANOS {
            String::from_str("slow")
        } else {
            String::from_str("healthy")
        },
    }
}

} // verus!
