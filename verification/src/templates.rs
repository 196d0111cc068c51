//! The script templates: those that come with the program and those that the
//! user keeps, and the commands that list, print and change them.

use vstd::prelude::*;
use crate::opt::{TemplatesCommand, TemplatesCommandView};
use crate::paths::{extension_of_name, file_name_of, joined_path, stem_of_name};
use crate::text::{
    lemma_lex_irreflexive, lemma_lex_total, lemma_lex_transitive, lex_less, lex_lt, opt_view,
    str_eq, views,
};

verus! {

/// Where a template comes from.
#[derive(Debug, Clone, Copy, PartialEq, Eq)]
pub enum Source {
    /// It comes with the program.
    BuiltIn,
    /// The user keeps it in the templates directory.
    Custom,
}

/// A starting point for a new script.
#[derive(Debug, PartialEq, Eq)]
pub struct Template {
    pub source: Source,
    /// The name of the file that holds it, extension included.
    pub filename: String,
    /// The text of the script.
    pub contents: String,
}

/// The mathematical value of a [`Template`].
pub struct TemplateView {
    pub source: Source,
    pub filename: Seq<char>,
    pub contents: Seq<char>,
}

impl View for Template {
    type V = TemplateView;

    open spec fn view(&self) -> TemplateView {
        TemplateView { source: self.source, filename: self.filename@, contents: self.contents@ }
    }
}

/// A template under its name.
#[derive(Debug, PartialEq, Eq)]
pub struct Entry {
    pub name: String,
    pub template: Template,
}

/// The mathematical value of an [`Entry`].
pub struct EntryView {
    pub name: Seq<char>,
    pub template: TemplateView,
}

impl View for Entry {
    type V = EntryView;

    open spec fn view(&self) -> EntryView {
        EntryView { name: self.name@, template: self.template@ }
    }
}

/// The views of a sequence of entries, element by element.
pub open spec fn entry_views(entries: Seq<Entry>) -> Seq<EntryView> {
    Seq::new(entries.len(), |i: int| entries[i]@)
}

/// The entries are in the order of their names, each name once.
pub open spec fn sorted(entries: Seq<EntryView>) -> bool {
    forall|i: int, j: int|
        0 <= i < j < entries.len() ==> lex_less(
            (#[trigger] entries[i]).name,
            (#[trigger] entries[j]).name,
        )
}

/// The template of the first entry with the given name.
pub open spec fn lookup(entries: Seq<EntryView>, name: Seq<char>) -> Option<TemplateView>
    decreases entries.len(),
{
    if entries.len() == 0 {
        None
    } else if entries[0].name == name {
        Some(entries[0].template)
    } else {
        lookup(entries.drop_first(), name)
    }
}

/// Looking a name up in two lists, one after the other, finds what the
/// first list has under the name, and else what the second has.
pub proof fn lemma_lookup_concat(a: Seq<EntryView>, b: Seq<EntryView>, name: Seq<char>)
    ensures
        lookup(a + b, name) == (match lookup(a, name) {
            Some(t) => Some(t),
            None => lookup(b, name),
        }),
    decreases a.len(),
{
    if a.len() == 0 {
        assert(a + b =~= b);
    } else {
        assert((a + b).drop_first() =~= a.drop_first() + b);
        lemma_lookup_concat(a.drop_first(), b, name);
    }
}

/// A name is found exactly when some entry has it; what is found is the
/// template of an entry with that name.
pub proof fn lemma_lookup(entries: Seq<EntryView>, name: Seq<char>)
    ensures
        match lookup(entries, name) {
            Some(t) => exists|i: int|
                0 <= i < entries.len() && #[trigger] entries[i] == (EntryView { name, template: t }),
            None => forall|i: int| 0 <= i < entries.len() ==> (#[trigger] entries[i]).name != name,
        },
    decreases entries.len(),
{
    if entries.len() == 0 {
    } else if entries[0].name == name {
        assert(entries[0] == EntryView { name, template: entries[0].template });
    } else {
        let rest = entries.drop_first();
        lemma_lookup(rest, name);
        match lookup(rest, name) {
            Some(t) => {
                let i = choose|i: int|
                    0 <= i < rest.len() && #[trigger] rest[i] == (EntryView { name, template: t });
                assert(entries[i + 1] == rest[i]);
            },
            None => {
                assert forall|i: int| 0 <= i < entries.len() implies (#[trigger] entries[i]).name
                    != name by {
                    if i > 0 {
                        assert(entries[i] == rest[i - 1]);
                    }
                }
            },
        }
    }
}

/// In a sorted list, each entry is what its name looks up.
pub proof fn lemma_lookup_sorted(entries: Seq<EntryView>, i: int)
    requires
        sorted(entries),
        0 <= i < entries.len(),
    ensures
        lookup(entries, entries[i].name) == Some(entries[i].template),
{
    let name = entries[i].name;
    lemma_lookup(entries, name);
    match lookup(entries, name) {
        Some(t) => {
            let k = choose|k: int|
                0 <= k < entries.len() && #[trigger] entries[k] == (EntryView { name, template: t });
            lemma_lex_irreflexive(name);
            if k < i {
                assert(lex_less(entries[k].name, entries[i].name));
            } else if i < k {
                assert(lex_less(entries[i].name, entries[k].name));
            }
        },
        None => {},
    }
}

/// The list with one entry put in at place `p`: in place of the entry there
/// if `replace` says so, before it if not.
pub open spec fn placed(before: Seq<EntryView>, p: int, added: EntryView, replace: bool) -> Seq<
    EntryView,
> {
    before.take(p) + seq![added] + (if replace {
        before.skip(p + 1)
    } else {
        before.skip(p)
    })
}

/// Putting an entry in at its place keeps the list in order.
pub proof fn lemma_placed_sorted(before: Seq<EntryView>, p: int, added: EntryView, replace: bool)
    requires
        sorted(before),
        0 <= p <= before.len(),
        forall|k: int| 0 <= k < p ==> lex_less((#[trigger] before[k]).name, added.name),
        replace ==> p < before.len() && before[p].name == added.name,
        !replace && p < before.len() ==> lex_less(added.name, before[p].name),
    ensures
        sorted(placed(before, p, added, replace)),
{
    let after = placed(before, p, added, replace);
    let shift = if replace {
        0int
    } else {
        1int
    };
    assert forall|i: int, j: int| 0 <= i < j < after.len() implies lex_less(
        (#[trigger] after[i]).name,
        (#[trigger] after[j]).name,
    ) by {
        if i < p {
            assert(after[i] == before[i]);
        } else if i > p {
            assert(after[i] == before[i - shift]);
        }
        if j < p {
            assert(after[j] == before[j]);
        } else if j > p {
            assert(after[j] == before[j - shift]);
        }
        if i == p {
            if replace {
                assert(lex_less(before[p].name, before[j].name));
            } else if j - 1 > p {
                assert(lex_less(before[p].name, before[j - 1].name));
                lemma_lex_transitive(added.name, before[p].name, before[j - 1].name);
            }
        } else if j == p {
        } else {
            let was_i = if i < p {
                i
            } else {
                i - shift
            };
            let was_j = if j < p {
                j
            } else {
                j - shift
            };
            assert(lex_less(before[was_i].name, before[was_j].name));
        }
    }
}

/// After an entry is put in at its place, its name finds it, and every
/// other name finds what it found before.
pub proof fn lemma_placed_lookup(
    before: Seq<EntryView>,
    p: int,
    added: EntryView,
    replace: bool,
    other: Seq<char>,
)
    requires
        0 <= p <= before.len(),
        forall|k: int| 0 <= k < p ==> (#[trigger] before[k]).name != added.name,
        replace ==> p < before.len() && before[p].name == added.name,
    ensures
        lookup(placed(before, p, added, replace), other) == (if other == added.name {
            Some(added.template)
        } else {
            lookup(before, other)
        }),
{
    let head = before.take(p);
    let tail = if replace {
        before.skip(p + 1)
    } else {
        before.skip(p)
    };
    assert(before =~= head + before.skip(p));
    lemma_lookup_concat(head + seq![added], tail, other);
    lemma_lookup_concat(head, seq![added], other);
    lemma_lookup_concat(head, before.skip(p), other);
    lemma_lookup(head, other);
    assert(lookup(seq![added].drop_first(), other) is None);
    if other == added.name {
        assert forall|k: int| 0 <= k < head.len() implies (#[trigger] head[k]).name != other by {
            assert(head[k] == before[k]);
        }
    } else if replace {
        assert(before.skip(p) =~= seq![before[p]] + before.skip(p + 1));
        lemma_lookup_concat(seq![before[p]], before.skip(p + 1), other);
        assert(lookup(seq![before[p]].drop_first(), other) is None);
    }
}

/// The templates by name, listed in the order of their names.
#[derive(Debug, PartialEq, Eq)]
pub struct TemplateMap {
    entries: Vec<Entry>,
}

impl View for TemplateMap {
    type V = Seq<EntryView>;

    closed spec fn view(&self) -> Seq<EntryView> {
        entry_views(self.entries@)
    }
}

impl TemplateMap {
    #[verifier::type_invariant]
    spec fn ordered(&self) -> bool {
        sorted(entry_views(self.entries@))
    }

    /// The map without entries.
    pub fn new() -> (map: TemplateMap)
        ensures
            map@ == Seq::<EntryView>::empty(),
    {
        let map = TemplateMap { entries: Vec::new() };
        assert(map@ =~= Seq::<EntryView>::empty());
        map
    }

    /// The number of templates.
    pub fn len(&self) -> (n: usize)
        ensures
            n == self@.len(),
    {
        self.entries.len()
    }

    /// The entries, in the order of their names.
    pub fn entries(&self) -> (entries: &Vec<Entry>)
        ensures
            entry_views(entries@) == self@,
            sorted(self@),
    {
        proof {
            use_type_invariant(self);
        }
        &self.entries
    }

    /// The template with the given name.
    pub fn get(&self, name: &str) -> (r: Option<&Template>)
        ensures
            match r {
                Some(t) => lookup(self@, name@) == Some(t@),
                None => lookup(self@, name@) is None,
            },
    {
        let mut i: usize = 0;
        while i < self.entries.len()
            invariant
                i <= self.entries.len(),
                forall|k: int| 0 <= k < i ==> (#[trigger] self@[k]).name != name@,
            decreases self.entries.len() - i,
        {
            assert(self@[i as int] == self.entries[i as int]@);
            if str_eq(self.entries[i].name.as_str(), name) {
                proof {
                    use_type_invariant(self);
                    lemma_lookup_sorted(self@, i as int);
                }
                return Some(&self.entries[i].template);
            }
            i += 1;
        }
        proof {
            lemma_lookup(self@, name@);
        }
        None
    }

    /// Puts a template under a name, in place of the one that the name had,
    /// if it had one.
    pub fn insert(self, name: String, template: Template) -> (map: TemplateMap)
        ensures
            forall|other: Seq<char>|
                #[trigger] lookup(map@, other) == (if other == name@ {
                    Some(template@)
                } else {
                    lookup(self@, other)
                }),
            sorted(map@),
    {
        proof {
            use_type_invariant(&self);
        }
        let ghost before = self@;
        let TemplateMap { entries } = self;
        let mut entries = entries;
        let mut p: usize = 0;
        while p < entries.len() && lex_lt(entries[p].name.as_str(), name.as_str())
            invariant
                p <= entries.len(),
                entry_views(entries@) == before,
                forall|k: int| 0 <= k < p ==> lex_less((#[trigger] before[k]).name, name@),
            decreases entries.len() - p,
        {
            assert(before[p as int] == entries[p as int]@);
            p += 1;
        }
        let entry = Entry { name, template };
        let ghost added = entry@;
        let replace = p < entries.len() && str_eq(entries[p].name.as_str(), entry.name.as_str());
        proof {
            if p < before.len() {
                assert(before[p as int] == entries[p as int]@);
            }
        }
        if replace {
            entries.set(p, entry);
        } else {
            entries.insert(p, entry);
        }
        proof {
            let after = entry_views(entries@);
            assert(after =~= placed(before, p as int, added, replace));
            if p < before.len() {
                lemma_lex_total(before[p as int].name, added.name);
            }
            assert forall|k: int| 0 <= k < p implies (#[trigger] before[k]).name != added.name by {
                lemma_lex_irreflexive(added.name);
            }
            lemma_placed_sorted(before, p as int, added, replace);
            assert forall|other: Seq<char>| #[trigger] lookup(after, other) == (if other
                == added.name {
                Some(added.template)
            } else {
                lookup(before, other)
            }) by {
                lemma_placed_lookup(before, p as int, added, replace, other);
            }
        }
        TemplateMap { entries }
    }
}

/// The part of the user's configuration directory that holds the custom
/// templates.
pub const TEMPLATES_NAMESPACE: &'static str = "scriptisto/templates";

/// Why the templates cannot be had or changed.
#[derive(Debug, Clone, Copy, PartialEq, Eq)]
pub enum TemplateError {
    /// The path of the file with this number has no file name.
    NoFileName { index: usize },
    /// The file with this number is not UTF-8.
    NotUtf8 { index: usize },
}

/// A path has no file name.
#[derive(Debug, Clone, Copy, PartialEq, Eq)]
pub struct NoFileName;

/// The user has no configuration directory.
#[derive(Debug, Clone, Copy, PartialEq, Eq)]
pub struct NoConfigDir;

/// A file that holds a template.
#[derive(Debug, PartialEq, Eq)]
pub struct TemplateFile {
    /// The path of the file.
    pub path: String,
    /// The text in it, or `None` if what is in it is not UTF-8.
    pub contents: Option<String>,
}

/// The mathematical value of a [`TemplateFile`].
pub struct TemplateFileView {
    pub path: Seq<char>,
    pub contents: Option<Seq<char>>,
}

impl View for TemplateFile {
    type V = TemplateFileView;

    open spec fn view(&self) -> TemplateFileView {
        TemplateFileView { path: self.path@, contents: opt_view(self.contents) }
    }
}

/// The views of a sequence of files, element by element.
pub open spec fn template_file_views(files: Seq<TemplateFile>) -> Seq<TemplateFileView> {
    Seq::new(files.len(), |i: int| files[i]@)
}

/// The name of the template that a file holds: its file name without the
/// extension.
pub open spec fn template_name_of(path: Seq<char>) -> Option<Seq<char>> {
    match file_name_of(path) {
        Some(name) => Some(stem_of_name(name)),
        None => None,
    }
}

/// What is wrong with a template file, if anything is.
pub open spec fn file_problem(file: TemplateFileView, index: usize) -> Option<TemplateError> {
    if file_name_of(file.path) is None {
        Some(TemplateError::NoFileName { index })
    } else if file.contents is None {
        Some(TemplateError::NotUtf8 { index })
    } else {
        None
    }
}

/// The entry that a sound template file makes.
pub open spec fn entry_of(file: TemplateFileView, source: Source) -> EntryView {
    EntryView {
        name: template_name_of(file.path)->0,
        template: TemplateView {
            source,
            filename: file_name_of(file.path)->0,
            contents: file.contents->0,
        },
    }
}

/// What the files have under a name: the template of the last file with
/// that template name.
pub open spec fn template_from(files: Seq<TemplateFileView>, source: Source, name: Seq<char>) -> Option<
    TemplateView,
>
    decreases files.len(),
{
    if files.len() == 0 {
        None
    } else if entry_of(files.last(), source).name == name {
        Some(entry_of(files.last(), source).template)
    } else {
        template_from(files.drop_last(), source, name)
    }
}

/// What two sets of templates have under a name when the second goes over
/// the first.
pub open spec fn overlaid(under: Seq<EntryView>, over: Seq<EntryView>, name: Seq<char>) -> Option<
    TemplateView,
> {
    match lookup(over, name) {
        Some(t) => Some(t),
        None => lookup(under, name),
    }
}

/// `dirs::config_dir`: the user's configuration directory, if the
/// environment names one and its path is Unicode. Nothing is claimed of it.
#[verifier::external_body]
fn user_config_dir() -> Option<String> {
    match dirs::config_dir() {
        Some(dir) => dir.into_os_string().into_string().ok(),
        None => None,
    }
}

/// The file name of a path.
pub fn path_to_file_name(p: &str) -> (r: Result<String, NoFileName>)
    ensures
        match file_name_of(p@) {
            Some(name) => r matches Ok(found) && found@ == name,
            None => r is Err,
        },
{
    match crate::paths::file_name(p) {
        Some(name) => Ok(name),
        None => Err(NoFileName),
    }
}

/// The name of the template that a file holds.
pub fn filename_to_template_name(p: &str) -> (r: Result<String, NoFileName>)
    ensures
        match template_name_of(p@) {
            Some(name) => r matches Ok(found) && found@ == name,
            None => r is Err,
        },
{
    match path_to_file_name(p) {
        Ok(file_name) => Ok(crate::paths::stem(file_name.as_str())),
        Err(e) => Err(e),
    }
}

/// The directory of the custom templates under a configuration directory.
pub fn templates_directory_under(config_dir: Option<String>) -> (r: Result<String, NoConfigDir>)
    ensures
        match config_dir {
            Some(dir) => r matches Ok(path) && path@ == joined_path(dir@, TEMPLATES_NAMESPACE@),
            None => r is Err,
        },
{
    match config_dir {
        Some(dir) => Ok(crate::paths::join(dir.as_str(), TEMPLATES_NAMESPACE)),
        None => Err(NoConfigDir),
    }
}

/// The directory of the custom templates of the user who runs this process:
/// that of `templates_directory_under` for whatever the user's
/// configuration directory is found to be.
pub fn get_templates_directory() -> (r: Result<String, NoConfigDir>)
    ensures
        r matches Ok(path) ==> exists|dir: Seq<char>|
            path@ == #[trigger] joined_path(dir, TEMPLATES_NAMESPACE@),
{
    let config_dir = user_config_dir();
    let ghost found = config_dir;
    let r = templates_directory_under(config_dir);
    proof {
        if r is Ok {
            assert(r->Ok_0@ == joined_path(found->0@, TEMPLATES_NAMESPACE@));
        }
    }
    r
}

/// Where in the templates directory the file of a template goes.
pub fn filename_to_template_path(p: &str, templates_directory: &str) -> (r: Result<String, NoFileName>)
    ensures
        match file_name_of(p@) {
            Some(name) => r matches Ok(path) && path@ == joined_path(templates_directory@, name),
            None => r is Err,
        },
{
    match path_to_file_name(p) {
        Ok(file_name) => Ok(crate::paths::join(templates_directory, file_name.as_str())),
        Err(e) => Err(e),
    }
}

/// The first file with a problem has the given number and problem, or no
/// file has one.
pub open spec fn first_problem(files: Seq<TemplateFileView>, found: Option<TemplateError>) -> bool {
    match found {
        Some(e) => exists|i: int|
            0 <= i < files.len() && i <= usize::MAX && #[trigger] file_problem(files[i], i as usize)
                == Some(e) && forall|k: int|
                0 <= k < i ==> (#[trigger] file_problem(files[k], k as usize)) is None,
        None => forall|k: int|
            0 <= k < files.len() ==> (#[trigger] file_problem(files[k], k as usize)) is None,
    }
}

fn collect_templates(files: &Vec<TemplateFile>, source: Source) -> (r: Result<TemplateMap, TemplateError>)
    ensures
        match r {
            Ok(map) => first_problem(template_file_views(files@), None) && sorted(map@) && forall|
                name: Seq<char>,
            |
                #[trigger] lookup(map@, name) == template_from(
                    template_file_views(files@),
                    source,
                    name,
                ),
            Err(e) => first_problem(template_file_views(files@), Some(e)),
        },
{
    let ghost all = template_file_views(files@);
    let mut map = TemplateMap::new();
    let mut i: usize = 0;
    assert(all.take(0) =~= Seq::<TemplateFileView>::empty());
    while i < files.len()
        invariant
            i <= files.len(),
            all == template_file_views(files@),
            sorted(map@),
            forall|k: int| 0 <= k < i ==> (#[trigger] file_problem(all[k], k as usize)) is None,
            forall|name: Seq<char>| #[trigger]
                lookup(map@, name) == template_from(all.take(i as int), source, name),
        decreases files.len() - i,
    {
        let file = &files[i];
        assert(all[i as int] == file@);
        let name = match filename_to_template_name(file.path.as_str()) {
            Ok(name) => name,
            Err(_) => {
                proof {
                    let k = i as int;
                    assert(file_problem(all[k], k as usize) == Some(
                        TemplateError::NoFileName { index: i },
                    ));
                }
                return Err(TemplateError::NoFileName { index: i });
            },
        };
        let filename = match path_to_file_name(file.path.as_str()) {
            Ok(filename) => filename,
            Err(_) => {
                return Err(TemplateError::NoFileName { index: i });
            },
        };
        let contents = match &file.contents {
            Some(contents) => contents.clone(),
            None => {
                proof {
                    let k = i as int;
                    assert(file_problem(all[k], k as usize) == Some(
                        TemplateError::NotUtf8 { index: i },
                    ));
                }
                return Err(TemplateError::NotUtf8 { index: i });
            },
        };
        let ghost before = map@;
        let ghost entry = entry_of(file@, source);
        map = map.insert(name, Template { source, filename, contents });
        proof {
            assert(all.take(i + 1).drop_last() =~= all.take(i as int));
            assert(all.take(i + 1).last() == file@);
            assert forall|other: Seq<char>| #[trigger]
                lookup(map@, other) == template_from(all.take(i + 1), source, other) by {
                assert(lookup(before, other) == template_from(all.take(i as int), source, other));
            }
        }
        i += 1;
    }
    assert(all.take(i as int) =~= all);
    Ok(map)
}

/// The templates that come with the program, from the files that hold them.
/// A later file goes over an earlier one with the same template name.
pub fn get_built_in_templates(files: &Vec<TemplateFile>) -> (r: Result<TemplateMap, TemplateError>)
    ensures
        match r {
            Ok(map) => first_problem(template_file_views(files@), None) && sorted(map@) && forall|
                name: Seq<char>,
            |
                #[trigger] lookup(map@, name) == template_from(
                    template_file_views(files@),
                    Source::BuiltIn,
                    name,
                ),
            Err(e) => first_problem(template_file_views(files@), Some(e)),
        },
{
    collect_templates(files, Source::BuiltIn)
}

/// The templates that the user keeps, from the files found in the templates
/// directory.
pub fn get_custom_templates(files: &Vec<TemplateFile>) -> (r: Result<TemplateMap, TemplateError>)
    ensures
        match r {
            Ok(map) => first_problem(template_file_views(files@), None) && sorted(map@) && forall|
                name: Seq<char>,
            |
                #[trigger] lookup(map@, name) == template_from(
                    template_file_views(files@),
                    Source::Custom,
                    name,
                ),
            Err(e) => first_problem(template_file_views(files@), Some(e)),
        },
{
    collect_templates(files, Source::Custom)
}

fn clone_template(template: &Template) -> (copy: Template)
    ensures
        copy@ == template@,
{
    Template {
        source: template.source,
        filename: template.filename.clone(),
        contents: template.contents.clone(),
    }
}

/// All templates: the built-in ones, with the custom ones over them.
pub fn get_templates(built_in: TemplateMap, custom: &TemplateMap) -> (all: TemplateMap)
    ensures
        sorted(all@),
        forall|name: Seq<char>| #[trigger] lookup(all@, name) == overlaid(built_in@, custom@, name),
{
    let ghost under = built_in@;
    let over = custom.entries();
    let mut all = built_in;
    let mut i: usize = 0;
    proof {
        use_type_invariant(&all);
        assert(custom@.take(0) =~= Seq::<EntryView>::empty());
    }
    while i < over.len()
        invariant
            i <= over.len(),
            entry_views(over@) == custom@,
            sorted(custom@),
            sorted(all@),
            forall|name: Seq<char>| #[trigger]
                lookup(all@, name) == overlaid(under, custom@.take(i as int), name),
        decreases over.len() - i,
    {
        let entry = &over[i];
        assert(custom@[i as int] == entry@);
        let ghost before = all@;
        all = all.insert(entry.name.clone(), clone_template(&entry.template));
        proof {
            let done = custom@.take(i as int);
            let next = custom@.take(i + 1);
            assert(next =~= done + seq![entry@]);
            assert forall|name: Seq<char>| #[trigger]
                lookup(all@, name) == overlaid(under, next, name) by {
                assert(lookup(before, name) == overlaid(under, done, name));
                lemma_lookup_concat(done, seq![entry@], name);
                assert(lookup(seq![entry@].drop_first(), name) is None);
                if name == entry@.name {
                    lemma_lookup(done, name);
                    lemma_lex_irreflexive(name);
                    assert forall|k: int| 0 <= k < done.len() implies (#[trigger] done[k]).name
                        != name by {
                        assert(done[k] == custom@[k]);
                        assert(lex_less(custom@[k].name, custom@[i as int].name));
                    }
                }
            }
        }
        i += 1;
    }
    assert(custom@.take(i as int) =~= custom@);
    all
}

/// The extension of a file name with its dot, or the empty text if it has
/// no extension.
pub open spec fn extension_text(filename: Seq<char>) -> Seq<char> {
    match file_name_of(filename) {
        Some(name) => match extension_of_name(name) {
            Some(ext) => seq!['.'] + ext,
            None => Seq::empty(),
        },
        None => Seq::empty(),
    }
}

/// The extension of a file name with its dot, or the empty text.
pub fn filename_extension(filename: &str) -> (r: String)
    ensures
        r@ == extension_text(filename@),
{
    match crate::paths::file_name(filename) {
        Some(name) => match crate::paths::extension(name.as_str()) {
            Some(ext) => {
                proof {
                    reveal_strlit(".");
                    assert("."@ =~= seq!['.']);
                }
                let mut r = String::from_str(".");
                r.append(ext.as_str());
                r
            },
            None => String::new(),
        },
        None => String::new(),
    }
}

/// The row of the listing for one template: its name, whether it is
/// custom, and the extension of its file.
pub open spec fn row_of(entry: EntryView) -> Seq<Seq<char>> {
    seq![
        entry.name,
        match entry.template.source {
            Source::BuiltIn => Seq::empty(),
            Source::Custom => "yes"@,
        },
        extension_text(entry.template.filename),
    ]
}

/// The rows of the listing, one per template in the order of the names.
pub open spec fn rows_of(entries: Seq<EntryView>) -> Seq<Seq<Seq<char>>> {
    Seq::new(entries.len(), |i: int| row_of(entries[i]))
}

/// The views of the rows of a table.
pub open spec fn row_views(rows: Seq<Vec<String>>) -> Seq<Seq<Seq<char>>> {
    Seq::new(rows.len(), |i: int| views(rows[i]@))
}

/// The rows of the listing of the templates.
pub fn print_templates(templates: &TemplateMap) -> (rows: Vec<Vec<String>>)
    ensures
        row_views(rows@) == rows_of(templates@),
{
    let entries = templates.entries();
    let mut rows: Vec<Vec<String>> = Vec::new();
    let mut i: usize = 0;
    while i < entries.len()
        invariant
            i <= entries.len(),
            entry_views(entries@) == templates@,
            row_views(rows@) == rows_of(templates@).take(i as int),
        decreases entries.len() - i,
    {
        let entry = &entries[i];
        assert(templates@[i as int] == entry@);
        let mut row: Vec<String> = Vec::new();
        row.push(entry.name.clone());
        row.push(
            match entry.template.source {
                Source::BuiltIn => String::new(),
                Source::Custom => String::from_str("yes"),
            },
        );
        row.push(filename_extension(entry.template.filename.as_str()));
        assert(views(row@) =~= row_of(entry@));
        let ghost before = row_views(rows@);
        rows.push(row);
        assert(row_views(rows@) =~= before.push(views(row@)));
        assert(rows_of(templates@).take(i + 1) =~= rows_of(templates@).take(i as int).push(
            row_of(entry@),
        ));
        i += 1;
    }
    assert(rows_of(templates@).take(i as int) =~= rows_of(templates@));
    rows
}

/// What to tell the user above the listing of the templates.
pub const AVAILABLE_MESSAGE: &'static str = "Available templates in the table below:";

/// How to use `new`.
pub const USAGE_MESSAGE: &'static str = "Usage:\n$ scriptisto new <template> | tee ./new-script";

/// What to tell the user when an edit changed the template.
pub const EDITED_MESSAGE: &'static str = "NEW";

/// What to tell the user when an edit changed nothing.
pub const UNCHANGED_MESSAGE: &'static str = "No changes were made during editing.";

/// The message that no template has the given name.
pub fn not_found_message(name: &str) -> (message: String)
    ensures
        message@ == "Template '"@ + name@ + "' is not found!"@,
{
    let mut message = String::from_str("Template '");
    message.append(name);
    message.append("' is not found!");
    message
}

/// The message that a template is built in and cannot be removed.
pub fn cannot_remove_message(name: &str) -> (message: String)
    ensures
        message@ == "Cannot remove custom '"@ + name@
            + "' script. It is already reset to the built-in content."@,
{
    let mut message = String::from_str("Cannot remove custom '");
    message.append(name);
    message.append("' script. It is already reset to the built-in content.");
    message
}

/// No template has the name that was asked for.
#[derive(Debug, PartialEq, Eq)]
pub struct TemplateNotFound {
    /// The name that was asked for.
    pub name: String,
    /// The listing of the templates that there are.
    pub rows: Vec<Vec<String>>,
}

impl TemplateNotFound {
    /// This is the failure to find `name` among `templates`.
    pub open spec fn is_for(self, name: Seq<char>, templates: Seq<EntryView>) -> bool {
        self.name@ == name && row_views(self.rows@) == rows_of(templates)
    }
}

fn template_not_found(name: &str, templates: &TemplateMap) -> (e: TemplateNotFound)
    ensures
        e.is_for(name@, templates@),
{
    TemplateNotFound { name: String::from_str(name), rows: print_templates(templates) }
}

/// What `new` comes to.
#[derive(Debug, PartialEq, Eq)]
pub enum NewOutcome {
    /// Print the text of the template.
    Print { contents: String },
    /// Tell the user that there is no such template, and fail.
    NotFound(TemplateNotFound),
    /// Tell the user how `new` is used, with the listing of the templates.
    Usage { rows: Vec<Vec<String>> },
}

/// Prints the template of the given name, or says how to ask for one if
/// no name is given.
pub fn command_new(name: Option<String>, templates: &TemplateMap) -> (r: NewOutcome)
    ensures
        match name {
            Some(name) => match lookup(templates@, name@) {
                Some(t) => r matches NewOutcome::Print { contents } && contents@ == t.contents,
                None => r matches NewOutcome::NotFound(e) && e.is_for(name@, templates@),
            },
            None => r matches NewOutcome::Usage { rows } && row_views(rows@) == rows_of(templates@),
        },
{
    match name {
        Some(name) => match templates.get(name.as_str()) {
            Some(template) => NewOutcome::Print { contents: template.contents.clone() },
            None => NewOutcome::NotFound(template_not_found(name.as_str(), templates)),
        },
        None => NewOutcome::Usage { rows: print_templates(templates) },
    }
}

/// A template to open in an editor.
#[derive(Debug, PartialEq, Eq)]
pub struct EditRequest {
    /// The text to begin with.
    pub initial_value: String,
    /// The name of the template's file.
    pub filename: String,
}

/// What an edit comes to.
#[derive(Debug, PartialEq, Eq)]
pub enum EditOutcome {
    /// Write the new text to the template's file in the templates directory.
    Write { filename: String, content: String },
    /// Nothing was changed; nothing is written.
    NoChanges,
}

/// What to do after the editor is closed: `new_content` is the text that
/// the editor left if it differs from the one it started with.
pub fn edit(filename: &str, new_content: Option<String>) -> (r: EditOutcome)
    ensures
        match new_content {
            Some(text) => r matches EditOutcome::Write { filename: f, content } && f@ == filename@
                && content@ == text@,
            None => r is NoChanges,
        },
{
    match new_content {
        Some(content) => EditOutcome::Write { filename: String::from_str(filename), content },
        None => EditOutcome::NoChanges,
    }
}

/// The template to open in an editor for `template edit`.
pub fn command_template_edit(template_name: String, templates: &TemplateMap) -> (r: Result<
    EditRequest,
    TemplateNotFound,
>)
    ensures
        match lookup(templates@, template_name@) {
            Some(t) => r matches Ok(request) && request.initial_value@ == t.contents
                && request.filename@ == t.filename,
            None => r matches Err(e) && e.is_for(template_name@, templates@),
        },
{
    match templates.get(template_name.as_str()) {
        Some(template) => Ok(
            EditRequest {
                initial_value: template.contents.clone(),
                filename: template.filename.clone(),
            },
        ),
        None => Err(template_not_found(template_name.as_str(), templates)),
    }
}

/// What `template rm` comes to.
#[derive(Debug, PartialEq, Eq)]
pub enum RemoveOutcome {
    /// Remove this file from the templates directory.
    Remove { filename: String },
    /// The template is built in: tell the user so, and fail.
    BuiltIn { name: String },
    /// Tell the user that there is no such template, and fail.
    NotFound(TemplateNotFound),
}

/// Removes a custom template; a built-in one cannot be removed.
pub fn command_template_rm(template_name: String, templates: &TemplateMap) -> (r: RemoveOutcome)
    ensures
        match lookup(templates@, template_name@) {
            Some(t) => match t.source {
                Source::BuiltIn => r matches RemoveOutcome::BuiltIn { name } && name@
                    == template_name@,
                Source::Custom => r matches RemoveOutcome::Remove { filename } && filename@
                    == t.filename,
            },
            None => r matches RemoveOutcome::NotFound(e) && e.is_for(template_name@, templates@),
        },
{
    match templates.get(template_name.as_str()) {
        Some(template) => match template.source {
            Source::BuiltIn => RemoveOutcome::BuiltIn { name: template_name },
            Source::Custom => RemoveOutcome::Remove { filename: template.filename.clone() },
        },
        None => RemoveOutcome::NotFound(template_not_found(template_name.as_str(), templates)),
    }
}

/// What taking a file in as a template takes.
#[derive(Debug, PartialEq, Eq)]
pub struct ImportPlan {
    /// The name under which the file is copied into the templates directory.
    pub file_name: String,
    /// The file to remove from the templates directory once the copy is
    /// made: that of the template which had the name before, if its file is
    /// called otherwise.
    pub old_file_to_remove: Option<String>,
}

/// The file that an import leaves behind: that of the template which has
/// the name already, unless it is called like the imported file.
pub open spec fn old_file_of(templates: Seq<EntryView>, name: Seq<char>, file_name: Seq<char>) -> Option<
    Seq<char>,
> {
    match lookup(templates, name) {
        Some(t) if t.filename != file_name => Some(t.filename),
        _ => None,
    }
}

/// Plans the import of a file as a template.
pub fn command_template_import(path: &str, templates: &TemplateMap) -> (r: Result<ImportPlan, NoFileName>)
    ensures
        match file_name_of(path@) {
            Some(file_name) => r matches Ok(plan) && plan.file_name@ == file_name && opt_view(
                plan.old_file_to_remove,
            ) == old_file_of(templates@, stem_of_name(file_name), file_name),
            None => r is Err,
        },
{
    let file_name = match path_to_file_name(path) {
        Ok(file_name) => file_name,
        Err(e) => {
            return Err(e);
        },
    };
    let template_name = match filename_to_template_name(path) {
        Ok(name) => name,
        Err(e) => {
            return Err(e);
        },
    };
    let old_file_to_remove = match templates.get(template_name.as_str()) {
        Some(template) => {
            if str_eq(file_name.as_str(), template.filename.as_str()) {
                None
            } else {
                Some(template.filename.clone())
            }
        },
        None => None,
    };
    Ok(ImportPlan { file_name, old_file_to_remove })
}

/// What a templates command comes to.
#[derive(Debug, PartialEq, Eq)]
pub enum TemplateAction {
    /// Show the listing of the templates.
    List { rows: Vec<Vec<String>> },
    /// Take a file in, or fail because its path has no file name.
    Import(Result<ImportPlan, NoFileName>),
    /// Open a template in an editor, or fail because there is none.
    Edit(Result<EditRequest, TemplateNotFound>),
    /// Remove a template, or fail.
    Remove(RemoveOutcome),
}

/// Carries out a templates command on the templates that there are: what
/// it comes to is what the command for its kind comes to.
pub fn command_template(cmd: TemplatesCommand, templates: &TemplateMap) -> (r: TemplateAction)
    ensures
        match cmd@ {
            TemplatesCommandView::List => r matches TemplateAction::List { rows } && row_views(rows@)
                == rows_of(templates@),
            TemplatesCommandView::Import { file } => r matches TemplateAction::Import(done)
                && match file_name_of(file) {
                Some(file_name) => done matches Ok(plan) && plan.file_name@ == file_name
                    && opt_view(plan.old_file_to_remove) == old_file_of(
                    templates@,
                    stem_of_name(file_name),
                    file_name,
                ),
                None => done is Err,
            },
            TemplatesCommandView::Edit { template_name } => r matches TemplateAction::Edit(done)
                && match lookup(templates@, template_name) {
                Some(t) => done matches Ok(request) && request.initial_value@ == t.contents
                    && request.filename@ == t.filename,
                None => done matches Err(e) && e.is_for(template_name, templates@),
            },
            TemplatesCommandView::Remove { template_name } => r matches TemplateAction::Remove(done)
                && match lookup(templates@, template_name) {
                Some(t) => match t.source {
                    Source::BuiltIn => done matches RemoveOutcome::BuiltIn { name } && name@
                        == template_name,
                    Source::Custom => done matches RemoveOutcome::Remove { filename } && filename@
                        == t.filename,
                },
                None => done matches RemoveOutcome::NotFound(e) && e.is_for(
                    template_name,
                    templates@,
                ),
            },
        },
{
    match cmd {
        TemplatesCommand::List {  } => TemplateAction::List { rows: print_templates(templates) },
        TemplatesCommand::Import { file } => TemplateAction::Import(
            command_template_import(file.as_str(), templates),
        ),
        TemplatesCommand::Edit { template_name } => TemplateAction::Edit(
            command_template_edit(template_name, templates),
        ),
        TemplatesCommand::Remove { template_name } => TemplateAction::Remove(
            command_template_rm(template_name, templates),
        ),
    }
}

} // verus!
