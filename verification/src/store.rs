//! Persistence logic over a modelled file store. The application keeps every
//! durable entity as a plain text file under one private directory tree; this
//! module models that tree as a map from path to contents and carries the
//! whole persistence logic — key file naming, shadowing on rewrite, the
//! missing-file conventions — against that model. The application performs
//! the actual reads and writes with the same paths and contents.
use vstd::prelude::*;

use crate::json::Json;
use crate::json::opt_str;
use crate::json::parse_json;
use crate::json::parsed_json;
use crate::json::spec_get;
use crate::textutil::chars_to_string;
use crate::textutil::has_prefix;
use crate::textutil::has_suffix;
use crate::textutil::hex_rep;
use crate::textutil::hex_string;
use crate::textutil::str_eq;
use crate::textutil::text_hash;
use crate::textutil::text_hash_exec;
use crate::textutil::to_lower;
use crate::textutil::lower_of;
use crate::textutil::underscore_spaces;
use crate::textutil::underscore_spaces_exec;

verus! {

/// One directory tree of text files, as the persistence logic sees it: a
/// write history, later writes of a path shadowing earlier ones. Its view is
/// the mapping from each path to the contents last written there.
#[derive(Debug)]
pub struct FileStore {
    pub entries: Vec<(String, String)>,
}

/// The mapping a write history denotes.
pub open spec fn entries_map(s: Seq<(String, String)>) -> Map<Seq<char>, Seq<char>>
    decreases s.len(),
{
    if s.len() == 0 {
        Map::empty()
    } else {
        entries_map(s.drop_last()).insert(s.last().0@, s.last().1@)
    }
}

impl View for FileStore {
    type V = Map<Seq<char>, Seq<char>>;

    open spec fn view(&self) -> Map<Seq<char>, Seq<char>> {
        entries_map(self.entries@)
    }
}

impl FileStore {
    /// An empty tree.
    pub fn new() -> (r: FileStore)
        ensures
            r@ == Map::<Seq<char>, Seq<char>>::empty(),
            r.entries@.len() == 0,
    {
        FileStore { entries: Vec::new() }
    }

    /// The contents at `path`, where a file stands there.
    pub fn read_file<'a>(&'a self, path: &str) -> (r: Option<&'a String>)
        ensures
            match r {
                Some(c) => self@.contains_key(path@) && self@[path@] == c@,
                None => !self@.contains_key(path@),
            },
    {
        let n = self.entries.len();
        let mut i: usize = n;
        proof {
            assert(self.entries@.take(n as int) =~= self.entries@);
        }
        while i > 0
            invariant
                n == self.entries@.len(),
                i <= n,
                entries_map(self.entries@).contains_key(path@) == entries_map(
                    self.entries@.take(i as int),
                ).contains_key(path@),
                entries_map(self.entries@).contains_key(path@) ==> entries_map(
                    self.entries@.take(i as int),
                )[path@] == entries_map(self.entries@)[path@],
            decreases i,
        {
            i = i - 1;
            proof {
                assert(self.entries@.take(i + 1 as int).drop_last() =~= self.entries@.take(
                    i as int,
                ));
                assert(self.entries@.take(i + 1 as int).last() == self.entries@[i as int]);
            }
            if str_eq(self.entries[i].0.as_str(), path) {
                return Some(&self.entries[i].1);
            }
        }
        proof {
            assert(self.entries@.take(0) =~= Seq::<(String, String)>::empty());
        }
        None
    }

    /// Takes every entry at `path` out of the history.
    pub fn remove_file(&mut self, path: &str)
        ensures
            final(self)@ == old(self)@.remove(path@),
            final(self).entries@ == old(self).entries@.filter(
                |e: (String, String)| e.0@ != path@,
            ),
    {
        let ghost pred = |e: (String, String)| e.0@ != path@;
        let n = self.entries.len();
        let mut out: Vec<(String, String)> = Vec::new();
        let mut i: usize = 0;
        proof {
            reveal(Seq::filter);
            assert(self.entries@.take(0) =~= Seq::<(String, String)>::empty());
            assert(entries_map(out@) =~= entries_map(self.entries@.take(0)).remove(path@));
            assert(out@ =~= self.entries@.take(0).filter(pred));
        }
        while i < n
            invariant
                *self == *old(self),
                n == self.entries@.len(),
                i <= n,
                entries_map(out@) == entries_map(self.entries@.take(i as int)).remove(path@),
                out@ == self.entries@.take(i as int).filter(
                    |e: (String, String)| e.0@ != path@,
                ),
            decreases n - i,
        {
            proof {
                reveal(Seq::filter);
                assert(self.entries@.take(i + 1 as int).drop_last() =~= self.entries@.take(
                    i as int,
                ));
                assert(self.entries@.take(i + 1 as int).last() == self.entries@[i as int]);
            }
            let ghost prev = entries_map(self.entries@.take(i as int));
            if !str_eq(self.entries[i].0.as_str(), path) {
                let name = self.entries[i].0.clone();
                let contents = self.entries[i].1.clone();
                let ghost prev_out = out@;
                out.push((name, contents));
                proof {
                    assert(out@.drop_last() =~= prev_out);
                    assert(out@.last() == self.entries@[i as int]);
                    assert(entries_map(out@) =~= prev.insert(
                        self.entries@[i as int].0@,
                        self.entries@[i as int].1@,
                    ).remove(path@));
                }
            } else {
                proof {
                    assert(prev.remove(path@) =~= prev.insert(
                        self.entries@[i as int].0@,
                        self.entries@[i as int].1@,
                    ).remove(path@));
                }
            }
            i = i + 1;
        }
        proof {
            assert(self.entries@.take(n as int) =~= self.entries@);
        }
        self.entries = out;
    }

    /// Writes `contents` at `path`, creating the file or overwriting what
    /// stood there: the history keeps one entry for the path, the new one.
    pub fn write_file(&mut self, path: String, contents: String)
        ensures
            final(self)@ == old(self)@.insert(path@, contents@),
            final(self).entries@ == old(self).entries@.filter(
                (|e: (String, String)| e.0@ != path@),
            ).push((path, contents)),
    {
        self.remove_file(path.as_str());
        let ghost mid = self.entries@;
        self.entries.push((path, contents));
        proof {
            assert(self.entries@.drop_last() =~= mid);
            assert(entries_map(self.entries@) =~= old(self)@.insert(path@, contents@));
        }
    }
}

proof fn lemma_filter_none<A>(s: Seq<A>, pred: spec_fn(A) -> bool)
    requires
        forall|i: int| 0 <= i < s.len() ==> !pred(#[trigger] s[i]),
    ensures
        s.filter(pred) =~= Seq::<A>::empty(),
    decreases s.len(),
{
    reveal(Seq::filter);
    if s.len() > 0 {
        lemma_filter_none(s.drop_last(), pred);
    }
}

/// After a write, the history holds exactly one entry at the written path —
/// the new one — whatever stood there before; so a listing drawn from the
/// history never shows a stale copy beside the fresh contents.
pub proof fn lemma_write_leaves_one_entry(
    s: Seq<(String, String)>,
    path: String,
    contents: String,
)
    ensures
        s.filter((|e: (String, String)| e.0@ != path@)).push((path, contents)).filter(
            (|e: (String, String)| e.0@ == path@),
        ) =~= seq![(path, contents)],
{
    reveal(Seq::filter);
    let ne = (|e: (String, String)| e.0@ != path@);
    let eq = (|e: (String, String)| e.0@ == path@);
    let kept = s.filter(ne);
    s.filter_lemma(ne);
    assert forall|i: int| 0 <= i < kept.len() implies !eq(#[trigger] kept[i]) by {
        assert(ne(kept[i]));
    }
    lemma_filter_none(kept, eq);
    let written = kept.push((path, contents));
    assert(written.drop_last() =~= kept);
    assert(written.filter(eq) =~= kept.filter(eq).push((path, contents)));
    assert(kept.filter(eq).push((path, contents)) =~= seq![(path, contents)]);
}

/// The file a provider's credential is kept in.
pub open spec fn api_key_file_name(provider: Seq<char>) -> Seq<char> {
    provider + "_api_key.txt"@
}

/// Derives the credential file's name for a provider.
pub fn api_key_file(provider: &str) -> (r: String)
    ensures
        r@ == api_key_file_name(provider@),
{
    let mut s = provider.to_owned();
    s.append("_api_key.txt");
    s
}

/// Saves a provider's credential: one whole-file write, overwriting any
/// credential saved for that provider before.
pub fn save_api_key(store: &mut FileStore, provider: &str, key: &str)
    ensures
        final(store)@ == old(store)@.insert(api_key_file_name(provider@), key@),
{
    let name = api_key_file(provider);
    store.write_file(name, key.to_owned());
}

/// Loads a provider's credential. A provider never saved reads as the empty
/// string rather than as an error.
pub fn load_api_key(store: &FileStore, provider: &str) -> (r: String)
    ensures
        store@.contains_key(api_key_file_name(provider@)) ==> r@ == store@[api_key_file_name(
            provider@,
        )],
        !store@.contains_key(api_key_file_name(provider@)) ==> r@ == Seq::<char>::empty(),
{
    let name = api_key_file(provider);
    match store.read_file(name.as_str()) {
        Some(c) => c.clone(),
        None => String::new(),
    }
}

/// Saving a credential and then loading it yields exactly that credential,
/// whatever the tree held before; and credentials of distinct providers live
/// in distinct files, so one save never shadows another provider's secret.
pub proof fn lemma_credential_round_trip(
    m: Map<Seq<char>, Seq<char>>,
    provider: Seq<char>,
    key: Seq<char>,
    other: Seq<char>,
)
    ensures
        m.insert(api_key_file_name(provider), key).contains_key(api_key_file_name(provider)),
        m.insert(api_key_file_name(provider), key)[api_key_file_name(provider)] == key,
        provider != other ==> api_key_file_name(provider) != api_key_file_name(other),
{
    if api_key_file_name(provider) == api_key_file_name(other) {
        assert((provider + "_api_key.txt"@).len() == provider.len() + "_api_key.txt"@.len());
        assert((other + "_api_key.txt"@).len() == other.len() + "_api_key.txt"@.len());
        assert(provider.len() == other.len());
        assert(provider =~= api_key_file_name(provider).take(provider.len() as int));
        assert(other =~= api_key_file_name(other).take(other.len() as int));
    }
}

/// The file the shared system prompt is kept in.
pub fn system_prompt_file() -> (r: String)
    ensures
        r@ == "prompts/system_prompt.txt"@,
{
    String::from_str("prompts/system_prompt.txt")
}

/// Saves the shared system prompt, overwriting.
pub fn save_system_prompt(store: &mut FileStore, prompt: String)
    ensures
        final(store)@ == old(store)@.insert("prompts/system_prompt.txt"@, prompt@),
{
    store.write_file(system_prompt_file(), prompt);
}

/// Loads the shared system prompt; never saved reads as the empty string.
pub fn load_system_prompt(store: &FileStore) -> (r: String)
    ensures
        store@.contains_key("prompts/system_prompt.txt"@) ==> r@ == store@[
            "prompts/system_prompt.txt"@
        ],
        !store@.contains_key("prompts/system_prompt.txt"@) ==> r@ == Seq::<char>::empty(),
{
    let name = system_prompt_file();
    match store.read_file(name.as_str()) {
        Some(c) => c.clone(),
        None => String::new(),
    }
}

/// The file a project's workspace prompt is kept in: the project path is
/// filed under its hash, so any path makes a sound file name.
pub open spec fn workspace_prompt_file_name(project: Seq<char>) -> Seq<char> {
    "workspaces/"@ + hex_rep(text_hash(project)) + "/prompt.txt"@
}

/// The file that records which project path a workspace directory is for.
pub open spec fn workspace_path_file_name(project: Seq<char>) -> Seq<char> {
    "workspaces/"@ + hex_rep(text_hash(project)) + "/path.txt"@
}

/// The full relative path of a project's workspace prompt file.
pub fn workspace_prompt_file(project_path: &str) -> (r: String)
    ensures
        r@ == workspace_prompt_file_name(project_path@),
{
    workspace_file(project_path, "/prompt.txt")
}

/// The full relative path of a project's recorded-path file.
pub fn workspace_path_file(project_path: &str) -> (r: String)
    ensures
        r@ == workspace_path_file_name(project_path@),
{
    workspace_file(project_path, "/path.txt")
}

fn workspace_file(project_path: &str, leaf: &str) -> (r: String)
    ensures
        r@ == "workspaces/"@ + hex_rep(text_hash(project_path@)) + leaf@,
{
    let mut s = String::from_str("workspaces/");
    let key = hex_string(text_hash_exec(project_path));
    s.append(key.as_str());
    s.append(leaf);
    s
}

/// Saves a project's workspace prompt, and beside it the project path itself
/// for reference.
pub fn save_workspace_prompt(store: &mut FileStore, project_path: &str, prompt: &str)
    ensures
        final(store)@ == old(store)@.insert(
            workspace_prompt_file_name(project_path@),
            prompt@,
        ).insert(workspace_path_file_name(project_path@), project_path@),
{
    let prompt_file = workspace_file(project_path, "/prompt.txt");
    store.write_file(prompt_file, prompt.to_owned());
    let path_file = workspace_file(project_path, "/path.txt");
    store.write_file(path_file, project_path.to_owned());
}

/// Loads a project's workspace prompt; never saved reads as the empty string.
pub fn load_workspace_prompt(store: &FileStore, project_path: &str) -> (r: String)
    ensures
        store@.contains_key(workspace_prompt_file_name(project_path@)) ==> r@ == store@[
            workspace_prompt_file_name(project_path@)
        ],
        !store@.contains_key(workspace_prompt_file_name(project_path@)) ==> r@ == Seq::<
            char,
        >::empty(),
{
    let name = workspace_file(project_path, "/prompt.txt");
    match store.read_file(name.as_str()) {
        Some(c) => c.clone(),
        None => String::new(),
    }
}

/// A named prompt of the preset collection.
#[derive(Debug, Clone)]
pub struct PromptPreset {
    pub name: String,
    pub prompt: String,
}

/// The file the preset collection is kept in, as one JSON document.
pub fn presets_file() -> (r: String)
    ensures
        r@ == "prompts/presets.json"@,
{
    String::from_str("prompts/presets.json")
}

/// Replaces any preset named `name` and appends the new one at the end: the
/// name is a unique key and the last write wins on it.
pub fn upsert_preset(presets: &mut Vec<PromptPreset>, name: String, prompt: String)
    ensures
        final(presets)@.len() > 0,
        final(presets)@.drop_last() == old(presets)@.filter(
            |p: PromptPreset| p.name@ != name@,
        ),
        final(presets)@.last().name@ == name@,
        final(presets)@.last().prompt@ == prompt@,
{
    retain_other_names(presets, name.as_str());
    presets.push(PromptPreset { name, prompt });
    proof {
        assert(presets@.drop_last() =~= old(presets)@.filter(
            |p: PromptPreset| p.name@ != name@,
        ));
    }
}

/// Drops every preset named `name`, keeping the order of the rest.
pub fn remove_preset(presets: &mut Vec<PromptPreset>, name: &str)
    ensures
        final(presets)@ == old(presets)@.filter(|p: PromptPreset| p.name@ != name@),
{
    retain_other_names(presets, name);
}

fn retain_other_names(presets: &mut Vec<PromptPreset>, name: &str)
    ensures
        final(presets)@ == old(presets)@.filter(|p: PromptPreset| p.name@ != name@),
{
    let ghost pred = |p: PromptPreset| p.name@ != name@;
    let n = presets.len();
    let mut out: Vec<PromptPreset> = Vec::new();
    let mut i: usize = 0;
    proof {
        reveal(Seq::filter);
        assert(presets@.take(0) =~= Seq::<PromptPreset>::empty());
        assert(out@ =~= presets@.take(0).filter(pred));
    }
    while i < n
        invariant
            *presets == *old(presets),
            n == presets@.len(),
            i <= n,
            out@ == presets@.take(i as int).filter(|p: PromptPreset| p.name@ != name@),
        decreases n - i,
    {
        proof {
            reveal(Seq::filter);
            assert(presets@.take(i + 1 as int).drop_last() =~= presets@.take(i as int));
            assert(presets@.take(i + 1 as int).last() == presets@[i as int]);
        }
        if !str_eq(presets[i].name.as_str(), name) {
            out.push(
                PromptPreset {
                    name: presets[i].name.clone(),
                    prompt: presets[i].prompt.clone(),
                },
            );
            proof {
                assert(presets@[i as int] == (PromptPreset {
                    name: presets@[i as int].name,
                    prompt: presets@[i as int].prompt,
                }));
            }
        }
        i = i + 1;
    }
    proof {
        assert(presets@.take(n as int) =~= presets@);
    }
    *presets = out;
}

/// `p` reads out of `j` as a stored preset: `j`'s `name` and `prompt`
/// members are strings holding `p`'s fields; any other members are passed
/// over, as the stored form tolerates extra fields.
pub open spec fn preset_read(p: PromptPreset, j: Json) -> bool {
    &&& opt_str(spec_get(j, "name"@)) == Some(p.name@)
    &&& opt_str(spec_get(j, "prompt"@)) == Some(p.prompt@)
}

/// The presets `ps` read out of the stored document `j`, in order.
pub open spec fn presets_read(ps: Seq<PromptPreset>, j: Json) -> bool {
    &&& j matches Json::Arr(items)
    &&& items@.len() == ps.len()
    &&& forall|i: int| 0 <= i < ps.len() ==> preset_read(ps[i], #[trigger] items@[i])
}

/// Whether `j` has the stored preset-collection shape: an array whose every
/// element carries a string `name` and a string `prompt`.
pub open spec fn presets_shaped(j: Json) -> bool {
    &&& j matches Json::Arr(items)
    &&& forall|i: int|
        0 <= i < items@.len() ==> {
            &&& opt_str(spec_get(#[trigger] items@[i], "name"@)) is Some
            &&& opt_str(spec_get(items@[i], "prompt"@)) is Some
        }
}

/// Reads the preset collection out of its stored JSON document: `None`
/// exactly where the document does not have the stored shape, as when the
/// file was edited by hand and broke.
pub fn presets_from_json(doc: &Json) -> (r: Option<Vec<PromptPreset>>)
    ensures
        match r {
            Some(v) => presets_read(v@, *doc) && presets_shaped(*doc),
            None => !presets_shaped(*doc),
        },
{
    let items = match doc {
        Json::Arr(items) => items,
        _ => { return None; },
    };
    let n = items.len();
    let mut out: Vec<PromptPreset> = Vec::new();
    let mut i: usize = 0;
    while i < n
        invariant
            *doc == Json::Arr(*items),
            n == items@.len(),
            i <= n,
            out@.len() == i,
            forall|k: int| 0 <= k < i ==> preset_read(#[trigger] out@[k], items@[k]),
        decreases n - i,
    {
        let entry = &items[i];
        let nm = match entry.get("name") {
            Some(v) => match v.as_text() {
                Some(s) => s.clone(),
                None => { return None; },
            },
            None => { return None; },
        };
        let pr = match entry.get("prompt") {
            Some(v) => match v.as_text() {
                Some(s) => s.clone(),
                None => { return None; },
            },
            None => { return None; },
        };
        out.push(PromptPreset { name: nm, prompt: pr });
        i = i + 1;
    }
    proof {
        assert forall|k: int|
            0 <= k < items@.len() implies opt_str(
            spec_get(#[trigger] items@[k], "name"@),
        ) is Some && opt_str(spec_get(items@[k], "prompt"@)) is Some by {
            assert(preset_read(out@[k], items@[k]));
        }
    }
    Some(out)
}

/// The file a scenario of a given name is kept in: spaces turned to
/// underscores, then the whole name lower-cased, so names differing only
/// there collide and the later save silently overwrites the earlier.
pub open spec fn scenario_file_name_spec(name: Seq<char>) -> Seq<char> {
    lower_of(underscore_spaces(name)) + ".json"@
}

/// Derives the file name a scenario's declared name maps to.
pub fn scenario_file_name(name: &str) -> (r: String)
    ensures
        r@ == scenario_file_name_spec(name@),
{
    let replaced = underscore_spaces_exec(name);
    let replaced_text = chars_to_string(&replaced);
    let mut s = to_lower(replaced_text.as_str());
    s.append(".json");
    s
}

/// The scenario file's path under the application tree.
pub open spec fn scenario_path_spec(name: Seq<char>) -> Seq<char> {
    "moa_scenarios/"@ + scenario_file_name_spec(name)
}

/// The scenario file's full relative path for a scenario name.
pub fn scenario_path(name: &str) -> (r: String)
    ensures
        r@ == scenario_path_spec(name@),
{
    let mut s = String::from_str("moa_scenarios/");
    let leaf = scenario_file_name(name);
    s.append(leaf.as_str());
    s
}

/// The name a scenario document declares, where it declares one as a string.
pub open spec fn scenario_name_of(j: Json) -> Option<Seq<char>> {
    opt_str(spec_get(j, "name"@))
}

/// Why a scenario could not be saved.
#[derive(Debug, PartialEq, Eq, Structural)]
pub enum ScenarioError {
    /// The handed text is not valid JSON.
    InvalidJson,
    /// The document declares no string `name`.
    NameMissing,
}

/// Saves a scenario document under the file its declared name derives; a
/// name that folds to the same file as an earlier scenario's overwrites it.
pub fn save_scenario(store: &mut FileStore, scenario: String) -> (r: Result<(), ScenarioError>)
    ensures
        match parsed_json(scenario@) {
            None => r == Err::<(), ScenarioError>(ScenarioError::InvalidJson) && final(store)@
                == old(store)@,
            Some(doc) => match scenario_name_of(doc) {
                None => r == Err::<(), ScenarioError>(ScenarioError::NameMissing)
                    && final(store)@ == old(store)@,
                Some(nm) => r == Ok::<(), ScenarioError>(())
                    && final(store)@ == old(store)@.insert(scenario_path_spec(nm), scenario@),
            },
        },
{
    let doc = match parse_json(scenario.as_str()) {
        Some(d) => d,
        None => { return Err(ScenarioError::InvalidJson); },
    };
    let name = match doc.get("name") {
        Some(v) => match v.as_text() {
            Some(s) => s.clone(),
            None => { return Err(ScenarioError::NameMissing); },
        },
        None => { return Err(ScenarioError::NameMissing); },
    };
    let path = scenario_path(name.as_str());
    store.write_file(path, scenario);
    Ok(())
}

/// Deletes the scenario of a given name; a scenario never saved deletes
/// without complaint.
pub fn delete_scenario(store: &mut FileStore, name: &str)
    ensures
        final(store)@ == old(store)@.remove(scenario_path_spec(name@)),
{
    let path = scenario_path(name);
    store.remove_file(path.as_str());
}

/// Whether `p` is a scenario file's path.
pub open spec fn is_scenario_path(p: Seq<char>) -> bool {
    "moa_scenarios/"@.is_prefix_of(p) && ".json"@.is_suffix_of(p)
}

/// Lists the stored scenario documents: the contents of every file under the
/// scenario directory with the scenario extension, in the tree's order.
pub fn list_scenarios(store: &FileStore) -> (r: Vec<String>)
    ensures
        r@ == store.entries@.filter(
            |e: (String, String)| is_scenario_path(e.0@),
        ).map_values(|e: (String, String)| e.1),
{
    let ghost pred = |e: (String, String)| is_scenario_path(e.0@);
    let n = store.entries.len();
    let mut out: Vec<String> = Vec::new();
    let mut i: usize = 0;
    proof {
        reveal(Seq::filter);
        assert(store.entries@.take(0) =~= Seq::<(String, String)>::empty());
        assert(out@ =~= store.entries@.take(0).filter(pred).map_values(
            |e: (String, String)| e.1,
        ));
    }
    while i < n
        invariant
            n == store.entries@.len(),
            i <= n,
            out@ == store.entries@.take(i as int).filter(
                |e: (String, String)| is_scenario_path(e.0@),
            ).map_values(|e: (String, String)| e.1),
        decreases n - i,
    {
        proof {
            reveal(Seq::filter);
            assert(store.entries@.take(i + 1 as int).drop_last() =~= store.entries@.take(
                i as int,
            ));
            assert(store.entries@.take(i + 1 as int).last() == store.entries@[i as int]);
        }
        let keep = has_prefix(store.entries[i].0.as_str(), "moa_scenarios/") && has_suffix(
            store.entries[i].0.as_str(),
            ".json",
        );
        if keep {
            out.push(store.entries[i].1.clone());
        }
        proof {
            let taken = store.entries@.take(i + 1 as int).filter(
                |e: (String, String)| is_scenario_path(e.0@),
            );
            assert(out@ =~= taken.map_values(|e: (String, String)| e.1));
        }
        i = i + 1;
    }
    proof {
        assert(store.entries@.take(n as int) =~= store.entries@);
    }
    out
}

} // verus!
