//! The current cluster context: its name, user, namespace and cluster, read
//! from one or more cluster configuration files and renamed through the
//! caller's alias tables.

use crate::alias::alias_or_self;
use crate::alias::get_alias;
use crate::alias::AliasMap;
use crate::cache::cache_key;
use crate::cache::found;
use crate::cache::info_view;
use crate::cache::memo_order;
use crate::cache::memo_value;
use crate::cache::touched;
use crate::cache::KubeInfoCache;
use crate::cache::CACHE_SIZE;
use crate::text::non_empty;
use crate::text::opt_text;
use crate::text::or_empty;
use crate::text::push_decimal;
use crate::text::texts;
use crate::text::str_eq;
use crate::yaml::as_str;
use crate::yaml::as_vec;
use crate::yaml::load_from_str;
use crate::yaml::member;
use crate::yaml::yaml_array;
use crate::yaml::yaml_documents;
use crate::yaml::yaml_member;
use crate::yaml::yaml_string;
use std::borrow::Cow;
use vstd::prelude::*;
use yaml_rust::Yaml;

verus! {

/// The environment variable that lists the configuration files.
pub const CONFIG_PATHS_VAR: &'static str = "KUBECONFIG";

/// The directory below the home directory that holds the configuration file
/// where the environment lists none.
pub const CONFIG_DIR_IN_HOME: &'static str = ".kube";

/// The name of the configuration file in that directory.
pub const CONFIG_FILE_IN_DIR: &'static str = "config";

/// The active context that a loaded configuration names: the non-empty
/// string under `current-context` in its first document.
pub open spec fn current_context(docs: Option<Seq<Yaml>>) -> Option<Seq<char>> {
    match docs {
        Some(ds) => if ds.len() == 0 {
            None
        } else {
            non_empty(yaml_string(yaml_member(ds[0], "current-context"@)))
        },
        None => None,
    }
}

/// The first entry at or after `from` whose `name` is the string `name`.
pub open spec fn find_context_from(items: Seq<Yaml>, name: Seq<char>, from: int) -> Option<Yaml>
    decreases items.len() - from,
{
    if from < 0 || from >= items.len() {
        None
    } else if yaml_string(yaml_member(items[from], "name"@)) == Some(name) {
        Some(items[from])
    } else {
        find_context_from(items, name, from + 1)
    }
}

/// The entry of the document's `contexts` list that is named `name`.
pub open spec fn find_context(doc: Yaml, name: Seq<char>) -> Option<Yaml> {
    match yaml_array(yaml_member(doc, "contexts"@)) {
        Some(items) => find_context_from(items, name, 0),
        None => None,
    }
}

/// One of the three things a context entry names.
#[derive(Clone, Copy, Debug, PartialEq, Eq, Structural)]
pub enum Component {
    User,
    Namespace,
    Cluster,
}

impl Component {
    /// The key under which a context entry holds this component.
    pub open spec fn spec_key(self) -> Seq<char> {
        match self {
            Component::User => "user"@,
            Component::Namespace => "namespace"@,
            Component::Cluster => "cluster"@,
        }
    }

    /// The key under which a context entry holds this component.
    pub fn key(self) -> (k: &'static str)
        ensures
            k@ == self.spec_key(),
    {
        match self {
            Component::User => "user",
            Component::Namespace => "namespace",
            Component::Cluster => "cluster",
        }
    }
}

/// The user, namespace and cluster that one configuration file gives for a
/// context. An empty string in the file counts as absent.
#[derive(Debug, PartialEq, Eq)]
pub struct KubeCtxComponents {
    pub user: Option<String>,
    pub namespace: Option<String>,
    pub cluster: Option<String>,
}

/// The mathematical value of a `KubeCtxComponents`.
pub struct ComponentsView {
    pub user: Option<Seq<char>>,
    pub namespace: Option<Seq<char>>,
    pub cluster: Option<Seq<char>>,
}

impl ComponentsView {
    /// The chosen component.
    pub open spec fn get(self, which: Component) -> Option<Seq<char>> {
        match which {
            Component::User => self.user,
            Component::Namespace => self.namespace,
            Component::Cluster => self.cluster,
        }
    }
}

impl View for KubeCtxComponents {
    type V = ComponentsView;

    open spec fn view(&self) -> ComponentsView {
        ComponentsView {
            user: opt_text(self.user),
            namespace: opt_text(self.namespace),
            cluster: opt_text(self.cluster),
        }
    }
}

impl Clone for KubeCtxComponents {
    fn clone(&self) -> (components: KubeCtxComponents)
        ensures
            components@ == self@,
    {
        KubeCtxComponents {
            user: clone_opt(&self.user),
            namespace: clone_opt(&self.namespace),
            cluster: clone_opt(&self.cluster),
        }
    }
}

fn clone_opt(s: &Option<String>) -> (copy: Option<String>)
    ensures
        opt_text(copy) == opt_text(*s),
{
    match s {
        Some(t) => Some(t.clone()),
        None => None,
    }
}

impl KubeCtxComponents {
    /// The chosen component.
    pub fn get(&self, which: Component) -> (value: Option<&str>)
        ensures
            match value {
                Some(s) => self@.get(which) == Some(s@),
                None => self@.get(which) is None,
            },
    {
        let field = match which {
            Component::User => &self.user,
            Component::Namespace => &self.namespace,
            Component::Cluster => &self.cluster,
        };
        match field {
            Some(s) => Some(s.as_str()),
            None => None,
        }
    }
}

/// The component `which` of a context entry: the non-empty string under that
/// key inside the entry's `context` mapping.
pub open spec fn context_field(entry: Option<Yaml>, which: Component) -> Option<Seq<char>> {
    match entry {
        Some(e) => non_empty(yaml_string(yaml_member(yaml_member(e, "context"@), which.spec_key()))),
        None => None,
    }
}

/// What a loaded configuration gives for the context `name`: nothing where
/// it holds no document, else the three components of the entry so named in
/// its first document, each absent where the entry is missing or lacks it.
pub open spec fn components_of(docs: Option<Seq<Yaml>>, name: Seq<char>) -> Option<ComponentsView> {
    match docs {
        Some(ds) => if ds.len() == 0 {
            None
        } else {
            let entry = find_context(ds[0], name);
            Some(
                ComponentsView {
                    user: context_field(entry, Component::User),
                    namespace: context_field(entry, Component::Namespace),
                    cluster: context_field(entry, Component::Cluster),
                },
            )
        },
        None => None,
    }
}

/// The active context that loaded documents name.
pub fn current_context_in(docs: &Vec<Yaml>) -> (name: Option<String>)
    ensures
        opt_text(name) == current_context(Some(docs@)),
{
    if docs.len() == 0 {
        return None;
    }
    match as_str(member(&docs[0], "current-context")) {
        Some(current_ctx) => if current_ctx.is_empty() {
            None
        } else {
            Some(current_ctx.to_owned())
        },
        None => None,
    }
}

/// The active context that a configuration file names, given the file's text.
pub fn get_kube_ctx(contents: &str) -> (name: Option<String>)
    ensures
        opt_text(name) == current_context(yaml_documents(contents@)),
{
    match load_from_str(contents) {
        Some(docs) => current_context_in(&docs),
        None => None,
    }
}

fn find_entry<'a>(doc: &'a Yaml, name: &str) -> (entry: Option<&'a Yaml>)
    ensures
        match entry {
            Some(e) => find_context(*doc, name@) == Some(*e),
            None => find_context(*doc, name@) is None,
        },
{
    match as_vec(member(doc, "contexts")) {
        Some(items) => {
            let mut i: usize = 0;
            while i < items.len()
                invariant
                    i <= items@.len(),
                    yaml_array(yaml_member(*doc, "contexts"@)) == Some(items@),
                    find_context_from(items@, name@, 0) == find_context_from(items@, name@, i as int),
                decreases items@.len() - i,
            {
                match as_str(member(&items[i], "name")) {
                    Some(n) => {
                        if str_eq(n, name) {
                            return Some(&items[i]);
                        }
                    },
                    None => {},
                }
                i += 1;
            }
            None
        },
        None => None,
    }
}

fn entry_field(entry: Option<&Yaml>, which: Component) -> (value: Option<String>)
    ensures
        opt_text(value) == context_field(
            match entry {
                Some(e) => Some(*e),
                None => None,
            },
            which,
        ),
{
    match entry {
        Some(e) => match as_str(member(member(e, "context"), which.key())) {
            Some(s) => if s.is_empty() {
                None
            } else {
                Some(s.to_owned())
            },
            None => None,
        },
        None => None,
    }
}

/// What loaded documents give for the context `current_ctx`.
pub fn components_in(docs: &Vec<Yaml>, current_ctx: &str) -> (components: Option<KubeCtxComponents>)
    ensures
        match components {
            Some(c) => components_of(Some(docs@), current_ctx@) == Some(c@),
            None => components_of(Some(docs@), current_ctx@) is None,
        },
{
    if docs.len() == 0 {
        return None;
    }
    let ctx_yaml = find_entry(&docs[0], current_ctx);
    Some(
        KubeCtxComponents {
            user: entry_field(ctx_yaml, Component::User),
            namespace: entry_field(ctx_yaml, Component::Namespace),
            cluster: entry_field(ctx_yaml, Component::Cluster),
        },
    )
}

/// What a configuration file gives for the context `current_ctx`, given the
/// file's text.
pub fn get_kube_ctx_component(
    contents: &str,
    current_ctx: &str,
) -> (components: Option<KubeCtxComponents>)
    ensures
        match components {
            Some(c) => components_of(yaml_documents(contents@), current_ctx@) == Some(c@),
            None => components_of(yaml_documents(contents@), current_ctx@) is None,
        },
{
    match load_from_str(contents) {
        Some(docs) => components_in(&docs, current_ctx),
        None => None,
    }
}

/// The display name of a user: its alias, or the name itself.
pub fn get_kube_user<'a>(aliases: &'a AliasMap, kube_user: &'a str) -> (name: Cow<'a, str>)
    ensures
        name@ == alias_or_self(aliases@, kube_user@),
{
    match get_alias(aliases, kube_user) {
        Some(alias) => alias,
        None => Cow::Borrowed(kube_user),
    }
}

/// The display name of a context: its alias, or the name itself.
pub fn get_kube_ctx_name<'a>(aliases: &'a AliasMap, kube_ctx: &'a str) -> (name: Cow<'a, str>)
    ensures
        name@ == alias_or_self(aliases@, kube_ctx@),
{
    match get_alias(aliases, kube_ctx) {
        Some(alias) => alias,
        None => Cow::Borrowed(kube_ctx),
    }
}

/// The current cluster context, as it is shown. A field that could not be
/// resolved is the empty string.
#[derive(Debug, PartialEq, Eq)]
pub struct KubernetesInfo {
    /// The latest modification time among the configuration files, in
    /// seconds since the epoch.
    pub time: u64,
    pub context: String,
    pub user: String,
    pub namespace: String,
    pub cluster: String,
}

/// The mathematical value of a `KubernetesInfo`.
pub struct KubernetesInfoView {
    pub time: u64,
    pub context: Seq<char>,
    pub user: Seq<char>,
    pub namespace: Seq<char>,
    pub cluster: Seq<char>,
}

impl KubernetesInfoView {
    /// Nothing resolved: time zero and every field empty.
    pub open spec fn empty() -> KubernetesInfoView {
        KubernetesInfoView {
            time: 0,
            context: Seq::empty(),
            user: Seq::empty(),
            namespace: Seq::empty(),
            cluster: Seq::empty(),
        }
    }

    /// The same context, stamped with `time`.
    pub open spec fn at(self, time: u64) -> KubernetesInfoView {
        KubernetesInfoView {
            time: time,
            context: self.context,
            user: self.user,
            namespace: self.namespace,
            cluster: self.cluster,
        }
    }
}

impl View for KubernetesInfo {
    type V = KubernetesInfoView;

    open spec fn view(&self) -> KubernetesInfoView {
        KubernetesInfoView {
            time: self.time,
            context: self.context@,
            user: self.user@,
            namespace: self.namespace@,
            cluster: self.cluster@,
        }
    }
}

impl Default for KubernetesInfo {
    fn default() -> (info: KubernetesInfo)
        ensures
            info@ == KubernetesInfoView::empty(),
    {
        KubernetesInfo {
            time: 0,
            context: String::new(),
            user: String::new(),
            namespace: String::new(),
            cluster: String::new(),
        }
    }
}

impl Clone for KubernetesInfo {
    fn clone(&self) -> (info: KubernetesInfo)
        ensures
            info@ == self@,
    {
        KubernetesInfo {
            time: self.time,
            context: self.context.clone(),
            user: self.user.clone(),
            namespace: self.namespace.clone(),
            cluster: self.cluster.clone(),
        }
    }
}

impl KubernetesInfo {
    /// The same context, stamped with `time`.
    pub fn at(self, time: u64) -> (info: KubernetesInfo)
        ensures
            info@ == self@.at(time),
    {
        KubernetesInfo {
            time,
            context: self.context,
            user: self.user,
            namespace: self.namespace,
            cluster: self.cluster,
        }
    }

    /// Nothing resolved at `time`: every field empty.
    pub fn unresolved(time: u64) -> (info: KubernetesInfo)
        ensures
            info@ == KubernetesInfoView::empty().at(time),
    {
        KubernetesInfo {
            time,
            context: String::new(),
            user: String::new(),
            namespace: String::new(),
            cluster: String::new(),
        }
    }
}

/// The caller's alias tables: one for context names, one for user names.
pub struct Aliases {
    pub context: AliasMap,
    pub user: AliasMap,
}

/// The value of what one file gives.
pub open spec fn opt_components(c: Option<KubeCtxComponents>) -> Option<ComponentsView> {
    match c {
        Some(c) => Some(c@),
        None => None,
    }
}

/// The values of a list of per-file components.
pub open spec fn components_views(cs: Seq<Option<KubeCtxComponents>>) -> Seq<Option<ComponentsView>> {
    Seq::new(cs.len(), |i: int| opt_components(cs[i]))
}

/// The component `which` as the first file at or after `from` that has it
/// gives it.
pub open spec fn first_component_from(
    cs: Seq<Option<ComponentsView>>,
    which: Component,
    from: int,
) -> Option<Seq<char>>
    decreases cs.len() - from,
{
    if from < 0 || from >= cs.len() {
        None
    } else if cs[from] is Some && cs[from]->0.get(which) is Some {
        cs[from]->0.get(which)
    } else {
        first_component_from(cs, which, from + 1)
    }
}

/// The component `which`, merged over the files: each file is asked in
/// order, and the first that has the component gives it.
pub open spec fn first_component(cs: Seq<Option<ComponentsView>>, which: Component) -> Option<Seq<char>> {
    first_component_from(cs, which, 0)
}

/// The shown context, put together from the active context's name and what
/// each file gives for it: the name and the user go through their alias
/// tables, the namespace and the cluster are shown as found.
pub open spec fn assembled(
    context_aliases: Seq<(Seq<char>, Seq<char>)>,
    user_aliases: Seq<(Seq<char>, Seq<char>)>,
    kube_ctx: Seq<char>,
    cs: Seq<Option<ComponentsView>>,
    time: u64,
) -> KubernetesInfoView {
    KubernetesInfoView {
        time: time,
        context: alias_or_self(context_aliases, kube_ctx),
        user: match first_component(cs, Component::User) {
            Some(u) => alias_or_self(user_aliases, u),
            None => Seq::empty(),
        },
        namespace: or_empty(first_component(cs, Component::Namespace)),
        cluster: or_empty(first_component(cs, Component::Cluster)),
    }
}

/// The active context that one file names.
pub open spec fn file_context(text: Option<Seq<char>>) -> Option<Seq<char>> {
    match text {
        Some(t) => current_context(yaml_documents(t)),
        None => None,
    }
}

/// The active context as the first file at or after `from` that names one
/// gives it.
pub open spec fn first_context_from(files: Seq<Option<Seq<char>>>, from: int) -> Option<Seq<char>>
    decreases files.len() - from,
{
    if from < 0 || from >= files.len() {
        None
    } else if file_context(files[from]) is Some {
        file_context(files[from])
    } else {
        first_context_from(files, from + 1)
    }
}

/// The active context: the files are asked in order, and the first that
/// names one gives it.
pub open spec fn first_context(files: Seq<Option<Seq<char>>>) -> Option<Seq<char>> {
    first_context_from(files, 0)
}

/// What one file gives for the context `name`.
pub open spec fn file_components(text: Option<Seq<char>>, name: Seq<char>) -> Option<ComponentsView> {
    match text {
        Some(t) => components_of(yaml_documents(t), name),
        None => None,
    }
}

/// What each file gives for the context `name`, in the order of the files.
pub open spec fn all_components(files: Seq<Option<Seq<char>>>, name: Seq<char>) -> Seq<Option<ComponentsView>> {
    Seq::new(files.len(), |i: int| file_components(files[i], name))
}

/// The cluster context that a list of configuration files describes: none
/// where no file names an active context, else the context put together from
/// what the files give for it.
pub open spec fn resolved(
    context_aliases: Seq<(Seq<char>, Seq<char>)>,
    user_aliases: Seq<(Seq<char>, Seq<char>)>,
    files: Seq<Option<Seq<char>>>,
    time: u64,
) -> Option<KubernetesInfoView> {
    match first_context(files) {
        Some(name) => Some(
            assembled(context_aliases, user_aliases, name, all_components(files, name), time),
        ),
        None => None,
    }
}

fn into_string(text: Cow<'_, str>) -> (s: String)
    ensures
        s@ == text@,
{
    match text {
        Cow::Borrowed(b) => b.to_owned(),
        Cow::Owned(o) => o,
    }
}

/// The component `which`, merged over what each file gives.
pub fn first_component_in(
    ctx_components: &Vec<Option<KubeCtxComponents>>,
    which: Component,
) -> (value: Option<&str>)
    ensures
        match value {
            Some(s) => first_component(components_views(ctx_components@), which) == Some(s@),
            None => first_component(components_views(ctx_components@), which) is None,
        },
{
    let mut i: usize = 0;
    while i < ctx_components.len()
        invariant
            i <= ctx_components@.len(),
            first_component(components_views(ctx_components@), which) == first_component_from(
                components_views(ctx_components@),
                which,
                i as int,
            ),
        decreases ctx_components@.len() - i,
    {
        match &ctx_components[i] {
            Some(kube) => match kube.get(which) {
                Some(s) => {
                    return Some(s);
                },
                None => {},
            },
            None => {},
        }
        i += 1;
    }
    None
}

/// Puts the shown context together from the active context's name and what
/// each file gives for it.
pub fn assemble_kube_info(
    aliases: &Aliases,
    kube_ctx: &str,
    ctx_components: &Vec<Option<KubeCtxComponents>>,
    time: u64,
) -> (info: KubernetesInfo)
    ensures
        info@ == assembled(
            aliases.context@,
            aliases.user@,
            kube_ctx@,
            components_views(ctx_components@),
            time,
        ),
{
    KubernetesInfo {
        time,
        user: match first_component_in(ctx_components, Component::User) {
            Some(u) => into_string(get_kube_user(&aliases.user, u)),
            None => String::new(),
        },
        namespace: match first_component_in(ctx_components, Component::Namespace) {
            Some(n) => n.to_owned(),
            None => String::new(),
        },
        cluster: match first_component_in(ctx_components, Component::Cluster) {
            Some(c) => c.to_owned(),
            None => String::new(),
        },
        context: into_string(get_kube_ctx_name(&aliases.context, kube_ctx)),
    }
}

/// The active context that a list of files names.
pub fn first_context_in(files: &Vec<Option<String>>) -> (name: Option<String>)
    ensures
        opt_text(name) == first_context(texts(files@)),
{
    let mut i: usize = 0;
    while i < files.len()
        invariant
            i <= files@.len(),
            first_context(texts(files@)) == first_context_from(texts(files@), i as int),
        decreases files@.len() - i,
    {
        match &files[i] {
            Some(contents) => match get_kube_ctx(contents.as_str()) {
                Some(name) => {
                    return Some(name);
                },
                None => {},
            },
            None => {},
        }
        i += 1;
    }
    None
}

/// The cluster context that a list of configuration files describes. The
/// files come in the order of their paths; a file that could not be read is
/// `None`.
pub fn resolve_kube_info(
    aliases: &Aliases,
    files: &Vec<Option<String>>,
    time: u64,
) -> (info: Option<KubernetesInfo>)
    ensures
        match info {
            Some(i) => resolved(aliases.context@, aliases.user@, texts(files@), time) == Some(i@),
            None => resolved(aliases.context@, aliases.user@, texts(files@), time) is None,
        },
{
    let kube_ctx = match first_context_in(files) {
        Some(name) => name,
        None => {
            return None;
        },
    };
    let mut ctx_components: Vec<Option<KubeCtxComponents>> = Vec::new();
    let mut i: usize = 0;
    while i < files.len()
        invariant
            i <= files@.len(),
            ctx_components@.len() == i,
            forall|j: int|
                0 <= j < i ==> opt_components(#[trigger] ctx_components@[j]) == file_components(
                    opt_text(files@[j]),
                    kube_ctx@,
                ),
        decreases files@.len() - i,
    {
        let components = match &files[i] {
            Some(contents) => get_kube_ctx_component(contents.as_str(), kube_ctx.as_str()),
            None => None,
        };
        ctx_components.push(components);
        i += 1;
    }
    assert(components_views(ctx_components@) =~= all_components(texts(files@), kube_ctx@));
    Some(assemble_kube_info(aliases, kube_ctx.as_str(), &ctx_components, time))
}

/// The latest of the modification times; a file without one counts as zero.
pub open spec fn latest(mtimes: Seq<Option<u64>>) -> u64
    decreases mtimes.len(),
{
    if mtimes.len() == 0 {
        0
    } else {
        let rest = latest(mtimes.drop_last());
        match mtimes.last() {
            Some(t) => if t > rest {
                t
            } else {
                rest
            },
            None => rest,
        }
    }
}

/// `time` is the latest of the modification times: none is later, and it is
/// one of them, or zero where there is none to speak of.
pub open spec fn is_latest(mtimes: Seq<Option<u64>>, time: u64) -> bool {
    &&& forall|i: int| 0 <= i < mtimes.len() && mtimes[i] is Some ==> mtimes[i]->0 <= time
    &&& (time == 0 || exists|i: int| 0 <= i < mtimes.len() && mtimes[i] == Some(time))
}

/// `latest` gives the latest of the modification times.
pub proof fn lemma_latest(mtimes: Seq<Option<u64>>)
    ensures
        is_latest(mtimes, latest(mtimes)),
    decreases mtimes.len(),
{
    if mtimes.len() > 0 {
        let front = mtimes.drop_last();
        lemma_latest(front);
        assert forall|i: int| 0 <= i < mtimes.len() && mtimes[i] is Some implies mtimes[i]->0
            <= latest(mtimes) by {
            if i < front.len() {
                assert(front[i] == mtimes[i]);
            }
        }
        if latest(mtimes) != 0 {
            if mtimes.last() == Some(latest(mtimes)) {
                assert(mtimes[mtimes.len() - 1] == Some(latest(mtimes)));
            } else {
                let i = choose|i: int| 0 <= i < front.len() && front[i] == Some(latest(front));
                assert(mtimes[i] == Some(latest(mtimes)));
            }
        }
    }
}

/// The time a lookup is stamped with: the latest modification time, in
/// seconds since the epoch, among the files that have one, and zero where
/// none has.
pub fn latest_mtime(mtimes: &Vec<Option<u64>>) -> (time: u64)
    ensures
        time == latest(mtimes@),
        is_latest(mtimes@, time),
{
    let mut time: u64 = 0;
    let mut i: usize = 0;
    while i < mtimes.len()
        invariant
            i <= mtimes@.len(),
            time == latest(mtimes@.subrange(0, i as int)),
            forall|j: int| 0 <= j < i && mtimes@[j] is Some ==> mtimes@[j]->0 <= time,
            time == 0 || exists|j: int| 0 <= j < i && mtimes@[j] == Some(time),
        decreases mtimes@.len() - i,
    {
        assert(mtimes@.subrange(0, i + 1).drop_last() =~= mtimes@.subrange(0, i as int));
        match mtimes[i] {
            Some(t) => {
                if t > time {
                    time = t;
                }
            },
            None => {},
        }
        i += 1;
    }
    assert(mtimes@.subrange(0, i as int) =~= mtimes@);
    time
}

/// The key under which a lookup is remembered.
pub fn kube_cache_key(kube_cfg: &str, time: u64) -> (key: String)
    ensures
        key@ == cache_key(kube_cfg@, time),
{
    proof {
        reveal_strlit("-");
    }
    let mut key = String::from_str(kube_cfg).concat("-");
    push_decimal(&mut key, time);
    key
}

/// A resolved context, stamped with the time of the lookup that gives it.
pub open spec fn stamped(info: Option<KubernetesInfoView>, time: u64) -> Option<KubernetesInfoView> {
    match info {
        Some(i) => Some(i.at(time)),
        None => None,
    }
}

/// The cluster context that a list of configuration files describes,
/// remembered under the list of paths and the time stamp: a lookup under a
/// key that is held gives what is held and reads no file's text; any other
/// resolves the context from the files and stores it. Either way the context
/// carries the time stamp of this lookup.
pub fn get_kube_info(
    cache: &mut KubeInfoCache,
    aliases: &Aliases,
    kube_cfg: &str,
    time: u64,
    files: &Vec<Option<String>>,
) -> (info: Option<KubernetesInfo>)
    requires
        old(cache).wf(),
    ensures
        final(cache).wf(),
        info_view(info) == stamped(
            memo_value(
                old(cache)@,
                cache_key(kube_cfg@, time),
                resolved(aliases.context@, aliases.user@, texts(files@), time),
            ),
            time,
        ),
        info is Some ==> info->0@.time == time,
        final(cache)@ == memo_order(
            old(cache)@,
            cache_key(kube_cfg@, time),
            resolved(aliases.context@, aliases.user@, texts(files@), time),
            CACHE_SIZE as nat,
        ),
{
    let key = kube_cache_key(kube_cfg, time);
    match cache.get(&key) {
        Some(held) => {
            return match held {
                Some(info) => Some(info.at(time)),
                None => None,
            };
        },
        None => {},
    }
    let info = resolve_kube_info(aliases, files, time);
    let copy = match &info {
        Some(i) => Some(i.clone()),
        None => None,
    };
    cache.set(key, copy);
    info
}

/// A resolved context as a lookup at `time` shows it: it carries that time,
/// and one that is absent shows with every field empty.
pub open spec fn shown(info: Option<KubernetesInfoView>, time: u64) -> KubernetesInfoView {
    match info {
        Some(i) => i.at(time),
        None => KubernetesInfoView::empty().at(time),
    }
}

/// The shown cluster context where the lookup is remembered, `None` where
/// the files have to be read. `mtimes` holds, for each configuration path in
/// order, its modification time where it has one; the latest of them is the
/// time that the context carries.
pub fn cached_kube_info(
    cache: &mut KubeInfoCache,
    kube_cfg: &str,
    mtimes: &Vec<Option<u64>>,
) -> (info: Option<KubernetesInfo>)
    requires
        old(cache).wf(),
    ensures
        final(cache).wf(),
        final(cache)@ == touched(old(cache)@, cache_key(kube_cfg@, latest(mtimes@))),
        match found(old(cache)@, cache_key(kube_cfg@, latest(mtimes@))) {
            Some(held) => info is Some && info->0@ == shown(held, latest(mtimes@)),
            None => info is None && final(cache)@ == old(cache)@,
        },
        info is Some ==> info->0@.time == latest(mtimes@) && is_latest(mtimes@, info->0@.time),
{
    let time = latest_mtime(mtimes);
    let key = kube_cache_key(kube_cfg, time);
    match cache.get(&key) {
        Some(Some(held)) => Some(held.at(time)),
        Some(None) => Some(KubernetesInfo::unresolved(time)),
        None => None,
    }
}

/// The shown cluster context. `kube_cfg` is the list of configuration paths
/// as it was given; `mtimes` and `files` hold, for each path in order, its
/// modification time and its text, each `None` where it could not be had.
/// The context carries the latest of the modification times, whether or not
/// anything was resolved and whether or not the lookup was remembered.
pub fn kube_info(
    cache: &mut KubeInfoCache,
    aliases: &Aliases,
    kube_cfg: &str,
    mtimes: &Vec<Option<u64>>,
    files: &Vec<Option<String>>,
) -> (info: KubernetesInfo)
    requires
        old(cache).wf(),
    ensures
        final(cache).wf(),
        info@ == shown(
            memo_value(
                old(cache)@,
                cache_key(kube_cfg@, latest(mtimes@)),
                resolved(aliases.context@, aliases.user@, texts(files@), latest(mtimes@)),
            ),
            latest(mtimes@),
        ),
        info@.time == latest(mtimes@),
        is_latest(mtimes@, info@.time),
        final(cache)@ == memo_order(
            old(cache)@,
            cache_key(kube_cfg@, latest(mtimes@)),
            resolved(aliases.context@, aliases.user@, texts(files@), latest(mtimes@)),
            CACHE_SIZE as nat,
        ),
{
    let time = latest_mtime(mtimes);
    match get_kube_info(cache, aliases, kube_cfg, time, files) {
        Some(info) => info,
        None => KubernetesInfo::unresolved(time),
    }
}

/// Where no file names an active context, the shown context has every field
/// empty and still carries the time of the lookup.
pub proof fn lemma_no_context(
    context_aliases: Seq<(Seq<char>, Seq<char>)>,
    user_aliases: Seq<(Seq<char>, Seq<char>)>,
    files: Seq<Option<Seq<char>>>,
    time: u64,
)
    requires
        first_context(files) is None,
    ensures
        shown(resolved(context_aliases, user_aliases, files, time), time)
            == KubernetesInfoView::empty().at(time),
{
}

/// What is resolved afresh carries the time it was resolved at, so stamping
/// it with that time changes nothing.
pub proof fn lemma_resolved_time(
    context_aliases: Seq<(Seq<char>, Seq<char>)>,
    user_aliases: Seq<(Seq<char>, Seq<char>)>,
    files: Seq<Option<Seq<char>>>,
    time: u64,
)
    ensures
        stamped(resolved(context_aliases, user_aliases, files, time), time) == resolved(
            context_aliases,
            user_aliases,
            files,
            time,
        ),
{
}

/// Where no file can be read, no context is resolved.
pub proof fn lemma_nothing_readable(
    context_aliases: Seq<(Seq<char>, Seq<char>)>,
    user_aliases: Seq<(Seq<char>, Seq<char>)>,
    files: Seq<Option<Seq<char>>>,
    time: u64,
)
    requires
        forall|i: int| 0 <= i < files.len() ==> files[i] is None,
    ensures
        resolved(context_aliases, user_aliases, files, time) is None,
        shown(resolved(context_aliases, user_aliases, files, time), time)
            == KubernetesInfoView::empty().at(time),
{
    lemma_no_context_from(files, 0);
}

proof fn lemma_no_context_from(files: Seq<Option<Seq<char>>>, from: int)
    requires
        0 <= from,
        forall|i: int| 0 <= i < files.len() ==> files[i] is None,
    ensures
        first_context_from(files, from) is None,
    decreases files.len() - from,
{
    if from < files.len() {
        lemma_no_context_from(files, from + 1);
    }
}

/// A component comes from the first file that has it, whatever the files
/// after it hold and whichever files give the other components.
pub proof fn lemma_first_file_wins(cs: Seq<Option<ComponentsView>>, which: Component, i: int)
    requires
        0 <= i < cs.len(),
        cs[i] is Some,
        cs[i]->0.get(which) is Some,
        forall|j: int| 0 <= j < i ==> cs[j] is None || cs[j]->0.get(which) is None,
    ensures
        first_component(cs, which) == cs[i]->0.get(which),
{
    lemma_first_file_from(cs, which, i, 0);
}

proof fn lemma_first_file_from(cs: Seq<Option<ComponentsView>>, which: Component, i: int, from: int)
    requires
        0 <= from <= i < cs.len(),
        cs[i] is Some,
        cs[i]->0.get(which) is Some,
        forall|j: int| 0 <= j < i ==> cs[j] is None || cs[j]->0.get(which) is None,
    ensures
        first_component_from(cs, which, from) == cs[i]->0.get(which),
    decreases i - from,
{
    if from < i {
        lemma_first_file_from(cs, which, i, from + 1);
    }
}

/// Where no file has a modification time, the time stamp is zero.
pub proof fn lemma_no_mtime(mtimes: Seq<Option<u64>>)
    requires
        forall|i: int| 0 <= i < mtimes.len() ==> mtimes[i] is None,
    ensures
        latest(mtimes) == 0,
    decreases mtimes.len(),
{
    if mtimes.len() > 0 {
        lemma_no_mtime(mtimes.drop_last());
    }
}

/// With nothing remembered, no file that has a modification time and no
/// file that can be read, the shown context has time zero and empty fields.
pub proof fn lemma_nothing_found(
    context_aliases: Seq<(Seq<char>, Seq<char>)>,
    user_aliases: Seq<(Seq<char>, Seq<char>)>,
    kube_cfg: Seq<char>,
    mtimes: Seq<Option<u64>>,
    files: Seq<Option<Seq<char>>>,
)
    requires
        forall|i: int| 0 <= i < mtimes.len() ==> mtimes[i] is None,
        forall|i: int| 0 <= i < files.len() ==> files[i] is None,
    ensures
        latest(mtimes) == 0,
        shown(
            memo_value(
                Seq::empty(),
                cache_key(kube_cfg, latest(mtimes)),
                resolved(context_aliases, user_aliases, files, latest(mtimes)),
            ),
            latest(mtimes),
        ) == KubernetesInfoView::empty(),
{
    lemma_no_mtime(mtimes);
    lemma_nothing_readable(context_aliases, user_aliases, files, latest(mtimes));
}

} // verus!
