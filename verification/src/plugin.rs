//! Format plugins: executables named `triplewrapper-<id>` that speak the
//! CLI + JSON protocol. Finding, identifying and invoking them.

use vstd::prelude::*;
use crate::text::{
    chars_of, lowercase_of, owned, push_arg, starts_with, starts_with_exec, str_eq, string_from,
    string_views, to_lowercase,
};

verus! {

/// Prefix every plugin executable carries.
pub const PLUGIN_PREFIX: &'static str = "triplewrapper-";

/// Environment variable through which a plugin receives the password.
pub const PASSWORD_ENV: &'static str = "TRIPLEWRAPPER_PASSWORD";

/// What a plugin reports about itself (`plugin-info --json`), and where it
/// lives.
pub struct PluginInfo {
    pub id: String,
    pub extensions: Vec<String>,
    pub description: String,
    pub path: String,
}

/// The plugin's identity as plain values: id, claimed extensions, path.
pub struct PluginModel {
    pub id: Seq<char>,
    pub extensions: Seq<Seq<char>>,
    pub description: Seq<char>,
    pub path: Seq<char>,
}

impl View for PluginInfo {
    type V = PluginModel;

    open spec fn view(&self) -> PluginModel {
        PluginModel {
            id: self.id@,
            extensions: string_views(self.extensions@),
            description: self.description@,
            path: self.path@,
        }
    }
}

/// Whether `p` claims extension `ext`, compared after lower-casing both.
pub open spec fn claims(p: PluginModel, ext: Seq<char>) -> bool {
    exists|i: int| 0 <= i < p.extensions.len() && #[trigger] lowercase_of(p.extensions[i]) == lowercase_of(ext)
}

/// Index of the first plugin of `ps` satisfying `pred`.
pub open spec fn first_match(ps: Seq<PluginModel>, pred: spec_fn(PluginModel) -> bool) -> Option<int> {
    if exists|i: int| 0 <= i < ps.len() && pred(ps[i]) {
        let k = choose|k: int|
            0 <= k < ps.len() && pred(ps[k]) && forall|j: int| 0 <= j < k ==> !pred(ps[j]);
        Some(k)
    } else {
        None
    }
}

pub open spec fn plugin_views(ps: Seq<PluginInfo>) -> Seq<PluginModel> {
    ps.map_values(|p: PluginInfo| p@)
}

impl PluginInfo {
    /// Does this plugin claim `ext` (case-insensitive, no dot)?
    pub fn handles(&self, ext: &str) -> (r: bool)
        ensures
            r == claims(self@, ext@),
    {
        let want = to_lowercase(ext);
        let mut i: usize = 0;
        while i < self.extensions.len()
            invariant
                i <= self.extensions@.len(),
                want@ == lowercase_of(ext@),
                forall|j: int| 0 <= j < i ==> lowercase_of(#[trigger] self@.extensions[j]) != lowercase_of(ext@),
            decreases self.extensions.len() - i,
        {
            let e = to_lowercase(self.extensions[i].as_str());
            if str_eq(e.as_str(), want.as_str()) {
                assert(lowercase_of(self@.extensions[i as int]) == lowercase_of(ext@));
                return true;
            }
            i = i + 1;
        }
        false
    }

    /// A copy of this value.
    pub fn duplicate(&self) -> (r: Self)
        ensures
            r@ == self@,
    {
        PluginInfo {
            id: owned(self.id.as_str()),
            extensions: crate::types::clone_strings(&self.extensions),
            description: owned(self.description.as_str()),
            path: owned(self.path.as_str()),
        }
    }
}

/// The first plugin of `plugins` (discovery order) claiming `ext`.
pub fn find_for_extension(plugins: &Vec<PluginInfo>, ext: &str) -> (r: Option<PluginInfo>)
    ensures
        match first_match(plugin_views(plugins@), |p: PluginModel| claims(p, ext@)) {
            Some(k) => r is Some && r->Some_0@ == plugins@[k]@,
            None => r is None,
        },
{
    let ghost pred = |p: PluginModel| claims(p, ext@);
    let ghost ps = plugin_views(plugins@);
    let mut i: usize = 0;
    while i < plugins.len()
        invariant
            i <= plugins@.len(),
            ps == plugin_views(plugins@),
            pred == (|p: PluginModel| claims(p, ext@)),
            forall|j: int| 0 <= j < i ==> !pred(#[trigger] ps[j]),
        decreases plugins.len() - i,
    {
        if plugins[i].handles(ext) {
            assert(pred(ps[i as int]));
            let ghost k = choose|k: int|
                0 <= k < ps.len() && pred(ps[k]) && forall|j: int| 0 <= j < k ==> !pred(ps[j]);
            assert(k == i) by {
                if k < i {
                    assert(!pred(ps[k]));
                }
                if k > i {
                    assert(!pred(ps[i as int]));
                }
            }
            return Some(plugins[i].duplicate());
        }
        i = i + 1;
    }
    assert(!(exists|j: int| 0 <= j < ps.len() && pred(ps[j])));
    None
}

/// The first plugin of `plugins` (discovery order) whose id is `id`.
pub fn find_for_id(plugins: &Vec<PluginInfo>, id: &str) -> (r: Option<PluginInfo>)
    ensures
        match first_match(plugin_views(plugins@), |p: PluginModel| p.id == id@) {
            Some(k) => r is Some && r->Some_0@ == plugins@[k]@,
            None => r is None,
        },
{
    let ghost pred = |p: PluginModel| p.id == id@;
    let ghost ps = plugin_views(plugins@);
    let mut i: usize = 0;
    while i < plugins.len()
        invariant
            i <= plugins@.len(),
            ps == plugin_views(plugins@),
            pred == (|p: PluginModel| p.id == id@),
            forall|j: int| 0 <= j < i ==> !pred(#[trigger] ps[j]),
        decreases plugins.len() - i,
    {
        if str_eq(plugins[i].id.as_str(), id) {
            assert(pred(ps[i as int]));
            let ghost k = choose|k: int|
                0 <= k < ps.len() && pred(ps[k]) && forall|j: int| 0 <= j < k ==> !pred(ps[j]);
            assert(k == i) by {
                if k < i {
                    assert(!pred(ps[k]));
                }
                if k > i {
                    assert(!pred(ps[i as int]));
                }
            }
            return Some(plugins[i].duplicate());
        }
        i = i + 1;
    }
    assert(!(exists|j: int| 0 <= j < ps.len() && pred(ps[j])));
    None
}

// ---------------------------------------------------------------------------
// Discovery
// ---------------------------------------------------------------------------

/// A directory entry met while scanning the plugin directories.
pub struct DirEntryInfo {
    /// File name, when it is valid UTF-8.
    pub file_name: Option<String>,
    pub path: String,
    /// A regular file with an execute bit.
    pub executable: bool,
}

pub open spec fn prefix_seq() -> Seq<char> {
    "triplewrapper-"@
}

/// Whether entry `e` is a plugin executable.
pub open spec fn is_plugin_file(e: DirEntryInfo) -> bool {
    match e.file_name {
        Some(n) => starts_with(n@, prefix_seq()) && e.executable,
        None => false,
    }
}

/// The plugin executables among `entries` (all directories, in search
/// order), each file name taken once: the first executable one wins.
pub open spec fn plugin_files(entries: Seq<DirEntryInfo>) -> Seq<int>
    decreases entries.len(),
{
    if entries.len() == 0 {
        Seq::empty()
    } else {
        let before = plugin_files(entries.drop_last());
        let e = entries.last();
        let dup = exists|j: int|
            0 <= j < before.len() && #[trigger] opt_view(entries[before[j]].file_name) == opt_view(e.file_name);
        if is_plugin_file(e) && !dup {
            before.push(entries.len() - 1)
        } else {
            before
        }
    }
}

fn option_str_eq(a: &Option<String>, b: &Option<String>) -> (r: bool)
    ensures
        r == (opt_view(*a) == opt_view(*b)),
{
    match (a, b) {
        (Some(x), Some(y)) => str_eq(x.as_str(), y.as_str()),
        (None, None) => true,
        _ => false,
    }
}

pub open spec fn opt_view(o: Option<String>) -> Option<Seq<char>> {
    match o {
        Some(s) => Some(s@),
        None => None,
    }
}

/// Indices of the entries that are plugins to query, in order.
pub fn select_plugin_files(entries: &Vec<DirEntryInfo>) -> (r: Vec<usize>)
    ensures
        r@.len() == plugin_files(entries@).len(),
        forall|k: int| 0 <= k < r@.len() ==> r@[k] as int == #[trigger] plugin_files(entries@)[k],
{
    let mut r: Vec<usize> = Vec::new();
    let mut i: usize = 0;
    while i < entries.len()
        invariant
            i <= entries@.len(),
            r@.len() == plugin_files(entries@.take(i as int)).len(),
            forall|k: int| 0 <= k < r@.len() ==> r@[k] as int == #[trigger] plugin_files(entries@.take(i as int))[k],
            forall|k: int| 0 <= k < r@.len() ==> 0 <= #[trigger] r@[k] < i,
        decreases entries.len() - i,
    {
        let ghost t = entries@.take(i + 1);
        assert(t.drop_last() =~= entries@.take(i as int));
        let ghost before = plugin_files(entries@.take(i as int));
        assert forall|k: int| 0 <= k < before.len() implies t[before[k]] == entries@[before[k]] by {
            assert(r@[k] as int == before[k]);
        }
        let e = &entries[i];
        let is_plugin = match &e.file_name {
            Some(n) => {
                let v = chars_of(n.as_str());
                let p = chars_of(PLUGIN_PREFIX);
                proof {
                    reveal_strlit("triplewrapper-");
                }
                starts_with_exec(&v, &p) && e.executable
            },
            None => false,
        };
        let mut dup = false;
        let mut j: usize = 0;
        while j < r.len()
            invariant
                j <= r@.len(),
                i < entries@.len(),
                forall|k: int| 0 <= k < r@.len() ==> 0 <= #[trigger] r@[k] < i,
                forall|k: int| 0 <= k < r@.len() ==> r@[k] as int == #[trigger] before[k],
                r@.len() == before.len(),
                dup == exists|k: int| 0 <= k < j && #[trigger] opt_view(entries@[before[k]].file_name) == opt_view(entries@[i as int].file_name),
            decreases r.len() - j,
        {
            let idx = r[j];
            if option_str_eq(&entries[idx].file_name, &entries[i].file_name) {
                dup = true;
            }
            assert(r@[j as int] as int == before[j as int]);
            j = j + 1;
        }
        assert(dup == exists|k: int| 0 <= k < before.len() && #[trigger] opt_view(t[before[k]].file_name) == opt_view(t.last().file_name));
        if is_plugin && !dup {
            r.push(i);
        }
        assert(plugin_files(t) == if is_plugin_file(t.last()) && !dup { before.push(i as int) } else { before });
        i = i + 1;
    }
    assert(entries@.take(entries@.len() as int) =~= entries@);
    r
}

/// Identity of a plugin taken from its file name: `triplewrapper-rar` is
/// `rar`, claiming the extension `rar`.
pub open spec fn fallback_model(file_name: Seq<char>, path: Seq<char>) -> PluginModel {
    let id = if starts_with(file_name, prefix_seq()) {
        file_name.subrange(prefix_seq().len() as int, file_name.len() as int)
    } else {
        file_name
    };
    PluginModel { id, extensions: seq![id], description: Seq::empty(), path }
}

/// The identity of the plugin at `path`, given what its `plugin-info`
/// answered (`None` when it failed or its reply did not parse): the reply
/// when it names an id (its extensions defaulting to that id), else the
/// identity from the file name.
pub open spec fn plugin_identity(
    file_name: Seq<char>,
    path: Seq<char>,
    reply: Option<PluginModel>,
) -> PluginModel {
    match reply {
        Some(info) => if info.id.len() == 0 {
            fallback_model(file_name, path)
        } else if info.extensions.len() == 0 {
            PluginModel { extensions: seq![info.id], path, ..info }
        } else {
            PluginModel { path, ..info }
        },
        None => fallback_model(file_name, path),
    }
}

fn suffix_after_prefix(name: &str) -> (r: String)
    ensures
        r@ == (if starts_with(name@, prefix_seq()) {
            name@.subrange(prefix_seq().len() as int, name@.len() as int)
        } else {
            name@
        }),
{
    let v = chars_of(name);
    let p = chars_of(PLUGIN_PREFIX);
    proof {
        reveal_strlit("triplewrapper-");
    }
    if starts_with_exec(&v, &p) {
        let s = crate::text::slice_of(&v, p.len(), v.len());
        string_from(&s)
    } else {
        string_from(&v)
    }
}

/// Builds the identity of the plugin at `path` from its `plugin-info` reply.
pub fn plugin_info_from_reply(file_name: &str, path: &str, reply: Option<PluginInfo>) -> (r: PluginInfo)
    ensures
        r@ == plugin_identity(file_name@, path@, match reply {
            Some(i) => Some(i@),
            None => None,
        }),
{
    match reply {
        Some(info) => {
            if chars_of(info.id.as_str()).len() == 0 {
                proof {
                    assert(info@.id.len() == 0);
                }
                fallback_info(file_name, path)
            } else if info.extensions.len() == 0 {
                let mut ext: Vec<String> = Vec::new();
                ext.push(owned(info.id.as_str()));
                let r = PluginInfo { id: info.id, extensions: ext, description: info.description, path: owned(path) };
                assert(r@.extensions =~= seq![r@.id]);
                r
            } else {
                PluginInfo { path: owned(path), ..info }
            }
        },
        None => fallback_info(file_name, path),
    }
}

fn fallback_info(file_name: &str, path: &str) -> (r: PluginInfo)
    ensures
        r@ == fallback_model(file_name@, path@),
{
    let id = suffix_after_prefix(file_name);
    let mut ext: Vec<String> = Vec::new();
    ext.push(owned(id.as_str()));
    let r = PluginInfo { id, extensions: ext, description: String::new(), path: owned(path) };
    assert(r@.extensions =~= seq![r@.id]);
    r
}

// ---------------------------------------------------------------------------
// Invocation
// ---------------------------------------------------------------------------

/// Environment for a plugin child: the password travels in the environment,
/// never in argv; an empty password is not passed.
pub fn plugin_env(password: Option<&str>) -> (r: Vec<(String, String)>)
    ensures
        match password {
            Some(p) if p@.len() > 0 => r@.len() == 1 && r@[0].0@ == PASSWORD_ENV@ && r@[0].1@ == p@,
            _ => r@.len() == 0,
        },
{
    let mut r: Vec<(String, String)> = Vec::new();
    match password {
        Some(p) => {
            if chars_of(p).len() > 0 {
                r.push((owned(PASSWORD_ENV), owned(p)));
            }
        },
        None => {},
    }
    r
}

/// Arguments of `list -a FILE --json`.
pub fn plugin_list_args(archive: &str) -> (r: Vec<String>)
    ensures
        string_views(r@) == seq!["list"@, "-a"@, archive@, "--json"@],
{
    let mut r: Vec<String> = Vec::new();
    push_arg(&mut r, "list");
    push_arg(&mut r, "-a");
    push_arg(&mut r, archive);
    push_arg(&mut r, "--json");
    assert(string_views(r@) =~= seq!["list"@, "-a"@, archive@, "--json"@]);
    r
}

/// `-f FILE` for each requested file.
pub open spec fn file_selection_args(files: Seq<Seq<char>>) -> Seq<Seq<char>>
    decreases files.len(),
{
    if files.len() == 0 {
        Seq::empty()
    } else {
        file_selection_args(files.drop_last()) + seq!["-f"@, files.last()]
    }
}

/// Arguments of `extract -a FILE -o DIR [-f NAME]...`.
pub fn plugin_extract_args(archive: &str, output_dir: &str, files: Option<&Vec<String>>) -> (r: Vec<String>)
    ensures
        string_views(r@) == seq!["extract"@, "-a"@, archive@, "-o"@, output_dir@] + match files {
            Some(f) => file_selection_args(string_views(f@)),
            None => Seq::empty(),
        },
{
    let mut r: Vec<String> = Vec::new();
    push_arg(&mut r, "extract");
    push_arg(&mut r, "-a");
    push_arg(&mut r, archive);
    push_arg(&mut r, "-o");
    push_arg(&mut r, output_dir);
    let ghost head = seq!["extract"@, "-a"@, archive@, "-o"@, output_dir@];
    assert(string_views(r@) =~= head);
    match files {
        Some(f) => {
            let mut i: usize = 0;
            while i < f.len()
                invariant
                    i <= f@.len(),
                    string_views(r@) == head + file_selection_args(string_views(f@.take(i as int))),
                decreases f.len() - i,
            {
                push_arg(&mut r, "-f");
                push_arg(&mut r, f[i].as_str());
                assert(string_views(f@.take(i + 1)).drop_last() =~= string_views(f@.take(i as int)));
                assert(string_views(r@) =~= head + file_selection_args(string_views(f@.take(i + 1))));
                i = i + 1;
            }
            assert(f@.take(f@.len() as int) =~= f@);
        },
        None => {
            assert(head + Seq::<Seq<char>>::empty() =~= head);
        },
    }
    r
}

/// Arguments of `test -a FILE`.
pub fn plugin_test_args(archive: &str) -> (r: Vec<String>)
    ensures
        string_views(r@) == seq!["test"@, "-a"@, archive@],
{
    let mut r: Vec<String> = Vec::new();
    push_arg(&mut r, "test");
    push_arg(&mut r, "-a");
    push_arg(&mut r, archive);
    assert(string_views(r@) =~= seq!["test"@, "-a"@, archive@]);
    r
}

} // verus!
