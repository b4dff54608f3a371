use crate::target_version::{parse_target_version, version_name, version_named, TargetVersion};
use crate::toggles::{
    entries_from, entries_of, has_unique_keys, insert_toggle, lemma_entries_from_has_unique_keys,
    lemma_entries_from_unique, lemma_with_entry_keys, lemma_with_entry_twice,
    lemma_with_entry_unique, holds_once, lookup, new_toggles, toggle_entries, toggle_list, with_entry,
};
use indexmap::IndexMap;
use vstd::prelude::*;
use vstd::string::StringExecFns;

verus! {

/// Why a manifest could not be loaded, written or used.
#[derive(Debug, PartialEq, Eq)]
pub enum ConfigError {
    /// The file could not be read or written.
    Io(String),
    /// The content does not have the shape of a manifest.
    Format(String),
    /// A required field was needed, and neither an override nor a stored value was there.
    MissingField(String),
}

/// `e` reports that the field `field` is missing.
pub open spec fn is_missing_field(e: ConfigError, field: Seq<char>) -> bool {
    match e {
        ConfigError::MissingField(f) => f@ == field,
        _ => false,
    }
}

/// `e` reports a document whose target version is `name`, a name of no dialect.
pub open spec fn is_unknown_version(e: ConfigError, name: Seq<char>) -> bool {
    match e {
        ConfigError::Format(msg) => msg@ == "unknown target version: "@ + name,
        _ => false,
    }
}

/// An optional string as an optional character sequence.
pub open spec fn opt_view(o: Option<String>) -> Option<Seq<char>> {
    match o {
        Some(s) => Some(s@),
        None => None,
    }
}

/// The path a caller gets: the override when there is one, else the stored value.
pub open spec fn chosen_path(replacement: Option<Seq<char>>, stored: Option<Seq<char>>) -> Option<
    Seq<char>,
> {
    match replacement {
        Some(p) => Some(p),
        None => stored,
    }
}

/// The configuration of one run of the transformer.
pub struct Manifest {
    output: Option<String>,
    input: Option<String>,
    file_extension: Option<String>,
    target_version: TargetVersion,
    pub minify: bool,
    modifiers: IndexMap<String, bool>,
    globals: IndexMap<String, bool>,
}

/// What a manifest holds, as mathematical values.
pub struct ManifestView {
    pub output: Option<Seq<char>>,
    pub input: Option<Seq<char>>,
    pub file_extension: Option<Seq<char>>,
    pub target_version: TargetVersion,
    pub minify: bool,
    pub modifiers: Seq<(Seq<char>, bool)>,
    pub globals: Seq<(Seq<char>, bool)>,
}

impl View for Manifest {
    type V = ManifestView;

    closed spec fn view(&self) -> ManifestView {
        ManifestView {
            output: opt_view(self.output),
            input: opt_view(self.input),
            file_extension: opt_view(self.file_extension),
            target_version: self.target_version,
            minify: self.minify,
            modifiers: toggle_entries(self.modifiers),
            globals: toggle_entries(self.globals),
        }
    }
}

/// The manifest that a run uses when no file configures it.
pub open spec fn default_view() -> ManifestView {
    ManifestView {
        output: None,
        input: None,
        file_extension: Some("lua"@),
        target_version: TargetVersion::spec_default(),
        minify: true,
        modifiers: Seq::empty(),
        globals: Seq::empty(),
    }
}

/// The fields of a manifest file as they were read: each one may be absent,
/// the maps as their entries in file order.
pub struct ManifestDocument {
    pub output: Option<String>,
    pub input: Option<String>,
    pub file_extension: Option<String>,
    pub target_version: Option<String>,
    pub minify: Option<bool>,
    pub modifiers: Vec<(String, bool)>,
    pub globals: Vec<(String, bool)>,
}

/// What a manifest document holds, as mathematical values.
pub struct DocumentView {
    pub output: Option<Seq<char>>,
    pub input: Option<Seq<char>>,
    pub file_extension: Option<Seq<char>>,
    pub target_version: Option<Seq<char>>,
    pub minify: Option<bool>,
    pub modifiers: Seq<(Seq<char>, bool)>,
    pub globals: Seq<(Seq<char>, bool)>,
}

impl View for ManifestDocument {
    type V = DocumentView;

    open spec fn view(&self) -> DocumentView {
        DocumentView {
            output: opt_view(self.output),
            input: opt_view(self.input),
            file_extension: opt_view(self.file_extension),
            target_version: opt_view(self.target_version),
            minify: self.minify,
            modifiers: entries_of(self.modifiers@),
            globals: entries_of(self.globals@),
        }
    }
}

/// The document with no field at all.
pub open spec fn empty_document() -> DocumentView {
    DocumentView {
        output: None,
        input: None,
        file_extension: None,
        target_version: None,
        minify: None,
        modifiers: Seq::empty(),
        globals: Seq::empty(),
    }
}

/// The dialect a document selects: the default when it names none, nothing
/// when the name it gives is no dialect's.
pub open spec fn document_target(name: Option<Seq<char>>) -> Option<TargetVersion> {
    match name {
        Some(n) => version_named(n),
        None => Some(TargetVersion::spec_default()),
    }
}

/// The manifest a document describes: each absent field at its default, each
/// map with one entry per name. Nothing when the target version is unknown.
pub open spec fn loaded(d: DocumentView) -> Option<ManifestView> {
    match document_target(d.target_version) {
        Some(v) => Some(
            ManifestView {
                output: d.output,
                input: d.input,
                file_extension: match d.file_extension {
                    Some(e) => Some(e),
                    None => default_view().file_extension,
                },
                target_version: v,
                minify: match d.minify {
                    Some(b) => b,
                    None => default_view().minify,
                },
                modifiers: entries_from(d.modifiers),
                globals: entries_from(d.globals),
            },
        ),
        None => None,
    }
}

/// The document that stores a manifest: every field it has, the dialect by its identifier.
pub open spec fn stored(m: ManifestView) -> DocumentView {
    DocumentView {
        output: m.output,
        input: m.input,
        file_extension: m.file_extension,
        target_version: Some(version_name(m.target_version)),
        minify: Some(m.minify),
        modifiers: m.modifiers,
        globals: m.globals,
    }
}

fn clone_text(o: &Option<String>) -> (r: Option<String>)
    ensures
        opt_view(r) == opt_view(*o),
{
    match o {
        Some(s) => Some(s.clone()),
        None => None,
    }
}

/// Builds a map by setting each pair of `items` in turn.
fn toggles_from(items: &Vec<(String, bool)>) -> (r: IndexMap<String, bool>)
    ensures
        toggle_entries(r) == entries_from(entries_of(items@)),
{
    let mut m = new_toggles();
    let ghost all = entries_of(items@);
    let mut i: usize = 0;
    assert(all.take(0) =~= Seq::<(Seq<char>, bool)>::empty());
    while i < items.len()
        invariant
            i <= items.len(),
            all == entries_of(items@),
            toggle_entries(m) == entries_from(all.take(i as int)),
        decreases items.len() - i,
    {
        let k = items[i].0.clone();
        let v = items[i].1;
        proof {
            let next = all.take(i + 1);
            assert(next.drop_last() =~= all.take(i as int));
            assert(next.last() == (k@, v));
        }
        insert_toggle(&mut m, k, v);
        i = i + 1;
    }
    assert(all.take(items.len() as int) =~= all);
    m
}

impl Manifest {
    /// The maps hold each name at most once.
    pub open spec fn wf(&self) -> bool {
        has_unique_keys(self@.modifiers) && has_unique_keys(self@.globals)
    }

    /// The manifest that a document describes (absent fields take their
    /// defaults, a repeated map name keeps its first place and its last flag);
    /// a `Format` error when the document names an unknown target version.
    pub fn from_document(doc: &ManifestDocument) -> (r: Result<Manifest, ConfigError>)
        ensures
            match r {
                Ok(m) => loaded(doc@) == Some(m@) && m.wf(),
                Err(e) => loaded(doc@) is None && is_unknown_version(e, doc@.target_version->0),
            },
    {
        let target_version = match &doc.target_version {
            Some(name) => match parse_target_version(name) {
                Some(v) => v,
                None => {
                    return Err(
                        ConfigError::Format(
                            "unknown target version: ".to_owned().concat(name.as_str()),
                        ),
                    );
                },
            },
            None => TargetVersion::default(),
        };
        let file_extension = match &doc.file_extension {
            Some(e) => Some(e.clone()),
            None => Some("lua".to_owned()),
        };
        let minify = match doc.minify {
            Some(b) => b,
            None => true,
        };
        let modifiers = toggles_from(&doc.modifiers);
        let globals = toggles_from(&doc.globals);
        proof {
            reveal_strlit("lua");
            lemma_entries_from_has_unique_keys(entries_of(doc.modifiers@));
            lemma_entries_from_has_unique_keys(entries_of(doc.globals@));
        }
        Ok(
            Manifest {
                output: clone_text(&doc.output),
                input: clone_text(&doc.input),
                file_extension,
                target_version,
                minify,
                modifiers,
                globals,
            },
        )
    }

    /// The document that stores this manifest, every field present.
    pub fn to_document(&self) -> (r: ManifestDocument)
        ensures
            r@ == stored(self@),
    {
        ManifestDocument {
            output: clone_text(&self.output),
            input: clone_text(&self.input),
            file_extension: clone_text(&self.file_extension),
            target_version: Some(self.target_version.name()),
            minify: Some(self.minify),
            modifiers: toggle_list(&self.modifiers),
            globals: toggle_list(&self.globals),
        }
    }

    /// The modifier flags, in the order their names were first set.
    pub fn modifiers(&self) -> (r: &IndexMap<String, bool>)
        ensures
            toggle_entries(*r) == self@.modifiers,
    {
        &self.modifiers
    }

    /// The dialect that output is emitted for.
    pub fn target_version(&self) -> (r: &TargetVersion)
        ensures
            *r == self@.target_version,
    {
        &self.target_version
    }

    /// The suffix of output files, when one is configured.
    pub fn extension(&self) -> (r: &Option<String>)
        ensures
            opt_view(*r) == self@.file_extension,
    {
        &self.file_extension
    }

    /// The input path: `replacement` when given, else the stored input;
    /// `MissingField("input")` when there is neither.
    pub fn require_input(&self, replacement: Option<String>) -> (r: Result<String, ConfigError>)
        ensures
            match r {
                Ok(p) => chosen_path(opt_view(replacement), self@.input) == Some(p@),
                Err(e) => chosen_path(opt_view(replacement), self@.input) is None
                    && is_missing_field(e, "input"@),
            },
    {
        match replacement {
            Some(p) => Ok(p),
            None => match &self.input {
                Some(p) => Ok(p.clone()),
                None => Err(ConfigError::MissingField("input".to_owned())),
            },
        }
    }

    /// The output path: `replacement` when given, else the stored output;
    /// `MissingField("output")` when there is neither.
    pub fn require_output(&self, replacement: Option<String>) -> (r: Result<String, ConfigError>)
        ensures
            match r {
                Ok(p) => chosen_path(opt_view(replacement), self@.output) == Some(p@),
                Err(e) => chosen_path(opt_view(replacement), self@.output) is None
                    && is_missing_field(e, "output"@),
            },
    {
        match replacement {
            Some(p) => Ok(p),
            None => match &self.output {
                Some(p) => Ok(p.clone()),
                None => Err(ConfigError::MissingField("output".to_owned())),
            },
        }
    }

    /// Sets the flag of modifier `name`: an existing entry keeps its place
    /// and takes `enabled`, a new name goes last.
    pub fn insert_modifier(&mut self, name: String, enabled: bool)
        requires
            old(self).wf(),
        ensures
            final(self).wf(),
            final(self)@ == (ManifestView {
                modifiers: with_entry(old(self)@.modifiers, name@, enabled),
                ..old(self)@
            }),
    {
        proof {
            lemma_with_entry_unique(self@.modifiers, name@, enabled);
        }
        insert_toggle(&mut self.modifiers, name, enabled);
    }
}

impl Default for Manifest {
    fn default() -> (r: Manifest)
        ensures
            r@ == default_view(),
            r.wf(),
    {
        proof {
            reveal_strlit("lua");
        }
        Manifest {
            output: None,
            input: None,
            file_extension: Some("lua".to_owned()),
            target_version: TargetVersion::default(),
            minify: true,
            modifiers: new_toggles(),
            globals: new_toggles(),
        }
    }
}

/// Storing a manifest and loading what was stored gives the same manifest,
/// provided it has an output extension (a file cannot record its absence,
/// which loads as the default extension).
pub proof fn lemma_store_then_load(m: ManifestView)
    requires
        has_unique_keys(m.modifiers),
        has_unique_keys(m.globals),
        m.file_extension is Some,
    ensures
        loaded(stored(m)) == Some(m),
{
    crate::target_version::lemma_version_name_round_trip(m.target_version);
    lemma_entries_from_unique(m.modifiers);
    lemma_entries_from_unique(m.globals);
}

/// A document with no field loads as the default manifest.
pub proof fn lemma_empty_document_is_default()
    ensures
        loaded(empty_document()) == Some(default_view()),
{
    assert(entries_from(Seq::<(Seq<char>, bool)>::empty()) =~= Seq::<(Seq<char>, bool)>::empty());
}

/// Setting the same modifier twice leaves one entry for it, holding the later
/// flag, and the same entries as setting it once to that flag.
pub proof fn lemma_modifier_set_twice(m: ManifestView, name: Seq<char>, first: bool, second: bool)
    requires
        has_unique_keys(m.modifiers),
    ensures
        with_entry(with_entry(m.modifiers, name, first), name, second) == with_entry(
            m.modifiers,
            name,
            second,
        ),
        has_unique_keys(with_entry(with_entry(m.modifiers, name, first), name, second)),
        lookup(with_entry(with_entry(m.modifiers, name, first), name, second), name) == Some(second),
        holds_once(with_entry(with_entry(m.modifiers, name, first), name, second), name, second),
{
    let r = with_entry(m.modifiers, name, second);
    lemma_with_entry_twice(m.modifiers, name, first, second);
    lemma_with_entry_unique(m.modifiers, name, second);
    lemma_with_entry_keys(m.modifiers, name, second);
    let i = choose|i: int| 0 <= i < r.len() && r[i] == (name, second);
    assert forall|j: int| 0 <= j < r.len() && #[trigger] r[j].0 == name implies j == i by {
        if j != i {
            assert(r[i].0 != r[j].0);
        }
    }
    assert(r[i] == (name, second));
}

} // verus!
