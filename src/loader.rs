//! Collecting template definitions: which files hold templates, under
//! which names, and when loading fails as a whole.
use vstd::prelude::*;
use crate::environment::{
    assoc, lemma_assoc_domain, lemma_assoc_index, lemma_assoc_push, lemma_assoc_update, texts,
};
use crate::template::{validate_template, variable_valid, Template};
use crate::text::{chars_of, contains_text, has_infix, text_of};

verus! {

/// The name of the template a file holds: the file name without its
/// `.yml` extension, when it has that extension and something before it.
pub open spec fn template_stem(file_name: Seq<char>) -> Option<Seq<char>> {
    let n = file_name.len();
    if n > 4 && file_name[n - 4] == '.' && file_name[n - 3] == 'y' && file_name[n - 2] == 'm'
        && file_name[n - 1] == 'l' {
        Some(file_name.subrange(0, n - 4))
    } else {
        None
    }
}

/// The template name of a file, or `None` when it holds no template.
pub fn template_name_of(file_name: &str) -> (r: Option<String>)
    ensures
        match r {
            Some(s) => template_stem(file_name@) == Some(s@),
            None => template_stem(file_name@) is None,
        },
{
    let v = chars_of(file_name);
    let n = v.len();
    if n > 4 && v[n - 4] == '.' && v[n - 3] == 'y' && v[n - 2] == 'm' && v[n - 1] == 'l' {
        Some(text_of(&v, 0, n - 4))
    } else {
        None
    }
}

/// The text by which a parse error shows that a definition still lists
/// its variables as a mapping keyed by name rather than as a sequence.
pub open spec fn legacy_signature() -> Seq<char> {
    "variables: invalid type: map"@
}

/// Whether a parse error shows the old layout of variables, as a mapping
/// keyed by name; such definitions have to be rewritten as a sequence.
pub fn mentions_legacy_variables(message: &str) -> (r: bool)
    ensures
        r == has_infix(message@, legacy_signature()),
{
    contains_text(message, "variables: invalid type: map")
}

/// One directory entry as read: its file name, and the template parsed
/// from it or why it could not be read or parsed.
#[derive(Debug)]
pub struct TemplateSource {
    pub file_name: String,
    pub parsed: Result<Template, String>,
}

/// Why no templates could be loaded.
#[derive(Debug)]
pub enum LoadError {
    /// The template directory could not be read.
    Unreadable { reason: String },
    /// No template files were found.
    NoTemplates,
    /// Template files were found, but none was usable; `legacy_variables`
    /// tells whether one of them still used the old layout of variables.
    NoValidTemplates { legacy_variables: bool },
}

/// Whether every variable of a template is well-formed.
pub open spec fn template_valid(t: Template) -> bool {
    forall|i: int| 0 <= i < t.variables.len() ==> variable_valid(#[trigger] t.variables@[i])
}

/// A source that yields a template: a template file, parsed, well-formed.
pub open spec fn accepted(s: TemplateSource) -> bool {
    &&& template_stem(s.file_name@) is Some
    &&& s.parsed matches Ok(t) && template_valid(t)
}

/// A template file that could not be used.
pub open spec fn rejected(s: TemplateSource) -> bool {
    template_stem(s.file_name@) is Some && !accepted(s)
}

/// A template file whose parse error shows the old layout of variables.
pub open spec fn legacy_failure(s: TemplateSource) -> bool {
    &&& template_stem(s.file_name@) is Some
    &&& s.parsed matches Err(m) && has_infix(m@, legacy_signature())
}

/// The templates of `sources` by name; a later file of the same name
/// replaces an earlier one.
pub open spec fn loaded(sources: Seq<TemplateSource>) -> Map<Seq<char>, Template>
    decreases sources.len(),
{
    if sources.len() == 0 {
        Map::empty()
    } else {
        let before = loaded(sources.drop_last());
        let s = sources.last();
        if accepted(s) {
            before.insert(template_stem(s.file_name@)->0, s.parsed->Ok_0)
        } else {
            before
        }
    }
}

/// Whether some template file of `sources` could not be used.
pub open spec fn any_rejected(sources: Seq<TemplateSource>) -> bool {
    exists|i: int| 0 <= i < sources.len() && rejected(#[trigger] sources[i])
}

/// Whether some template file of `sources` used the old layout.
pub open spec fn any_legacy(sources: Seq<TemplateSource>) -> bool {
    exists|i: int| 0 <= i < sources.len() && legacy_failure(#[trigger] sources[i])
}

/// Templates by name, in the order their names were first given.
#[derive(Debug)]
pub struct TemplateSet {
    names: Vec<String>,
    templates: Vec<Template>,
}

impl View for TemplateSet {
    type V = Map<Seq<char>, Template>;

    closed spec fn view(&self) -> Map<Seq<char>, Template> {
        assoc(texts(self.names@), self.templates@)
    }
}

/// The line that offers a template for choice: emoji, name, description.
pub open spec fn label(name: Seq<char>, t: Template) -> Seq<char> {
    t.emoji@ + seq![' '] + name + seq![' '] + t.description@
}

impl TemplateSet {
    #[verifier::type_invariant]
    spec fn well_formed(&self) -> bool {
        &&& self.names.len() == self.templates.len()
        &&& texts(self.names@).no_duplicates()
    }

    /// The names, in the order they were first given.
    pub closed spec fn order(&self) -> Seq<Seq<char>> {
        texts(self.names@)
    }

    /// A set with no templates.
    pub fn new() -> (r: TemplateSet)
        ensures
            r@ == Map::<Seq<char>, Template>::empty(),
            r.order().len() == 0,
    {
        let r = TemplateSet { names: Vec::new(), templates: Vec::new() };
        assert(r@ =~= Map::<Seq<char>, Template>::empty());
        r
    }

    /// The number of templates.
    pub fn len(&self) -> (r: usize)
        ensures
            r == self.order().len(),
            r == self@.dom().len(),
            self@.dom().finite(),
            self.order().no_duplicates(),
            forall|k: Seq<char>| self@.contains_key(k) <==> self.order().contains(k),
    {
        proof {
            use_type_invariant(self);
            let keys = texts(self.names@);
            assert forall|k: Seq<char>| self@.dom().contains(k) <==> keys.to_set().contains(k) by {
                lemma_assoc_domain(keys, self.templates@, k);
            }
            assert(self@.dom() =~= keys.to_set());
            keys.unique_seq_to_set();
        }
        self.names.len()
    }

    /// The position at which `name` is given, if it is.
    pub fn find(&self, name: &String) -> (r: Option<usize>)
        ensures
            match r {
                Some(i) => i < self.order().len() && self.order()[i as int] == name@,
                None => !self@.contains_key(name@),
            },
    {
        proof {
            use_type_invariant(self);
            lemma_assoc_domain(texts(self.names@), self.templates@, name@);
        }
        let mut i: usize = 0;
        while i < self.names.len()
            invariant
                i <= self.names.len(),
                forall|j: int| 0 <= j < i ==> self.names@[j]@ != name@,
            decreases self.names.len() - i,
        {
            if self.names[i] == *name {
                return Some(i);
            }
            i = i + 1;
        }
        proof {
            if texts(self.names@).contains(name@) {
                let j = choose|j: int|
                    0 <= j < texts(self.names@).len() && texts(self.names@)[j] == name@;
                assert(self.names@[j]@ == name@);
            }
        }
        None
    }

    /// Gives `template` the name `name`, replacing any template of that name.
    pub fn insert(&mut self, name: String, template: Template)
        ensures
            final(self)@ == old(self)@.insert(name@, template),
    {
        proof {
            use_type_invariant(&*self);
            lemma_assoc_domain(texts(self.names@), self.templates@, name@);
        }
        let ghost keys = texts(self.names@);
        let ghost vals = self.templates@;
        let found = self.find(&name);
        let mut taken = TemplateSet::new();
        std::mem::swap(self, &mut taken);
        let TemplateSet { mut names, mut templates } = taken;
        match found {
            Some(i) => {
                proof {
                    lemma_assoc_update(keys, vals, i as int, template);
                }
                templates.set(i, template);
            },
            None => {
                proof {
                    lemma_assoc_push(keys, vals, name@, template);
                }
                names.push(name);
                templates.push(template);
                proof {
                    assert(texts(names@) =~= keys.push(name@));
                    assert(keys.push(name@).no_duplicates());
                }
            },
        }
        *self = TemplateSet { names, templates };
    }

    /// The `i`-th name.
    pub fn name_at(&self, i: usize) -> (r: &String)
        requires
            i < self.order().len(),
        ensures
            r@ == self.order()[i as int],
    {
        &self.names[i]
    }

    /// The template of the `i`-th name.
    pub fn get(&self, i: usize) -> (r: &Template)
        requires
            i < self.order().len(),
        ensures
            self@.contains_key(self.order()[i as int]),
            *r == self@[self.order()[i as int]],
    {
        proof {
            use_type_invariant(self);
            lemma_assoc_index(texts(self.names@), self.templates@, i as int);
        }
        &self.templates[i]
    }

    /// One line per template, in order, to choose a template from.
    pub fn labels(&self) -> (r: Vec<String>)
        ensures
            r.len() == self.order().len(),
            forall|i: int|
                0 <= i < r.len() ==> (#[trigger] r@[i])@ == label(
                    self.order()[i],
                    self@[self.order()[i]],
                ),
    {
        let n = self.len();
        let mut r: Vec<String> = Vec::new();
        let mut i: usize = 0;
        while i < n
            invariant
                n == self.order().len(),
                i <= n,
                r.len() == i,
                forall|j: int|
                    0 <= j < i ==> (#[trigger] r@[j])@ == label(
                        self.order()[j],
                        self@[self.order()[j]],
                    ),
            decreases n - i,
        {
            let t = self.get(i);
            let mut line = t.emoji.clone();
            line.push(' ');
            line.append(self.name_at(i).as_str());
            line.push(' ');
            line.append(t.description.as_str());
            r.push(line);
            i = i + 1;
        }
        r
    }
}

/// Collects the templates of a directory's entries. Entries that are not
/// template files are ignored; a template file that could not be read or
/// parsed, or whose variables are ill-formed, is skipped. Loading fails
/// only when no template is left, telling apart a directory without
/// template files from one whose template files were all unusable.
pub fn load_templates(sources: Vec<TemplateSource>) -> (r: Result<TemplateSet, LoadError>)
    ensures
        match r {
            Ok(set) => set@ == loaded(sources@) && set@.dom().len() > 0,
            Err(LoadError::NoTemplates) => loaded(sources@).dom().len() == 0 && !any_rejected(
                sources@,
            ),
            Err(LoadError::NoValidTemplates { legacy_variables }) => loaded(sources@).dom().len()
                == 0 && any_rejected(sources@) && legacy_variables == any_legacy(sources@),
            Err(LoadError::Unreadable { .. }) => false,
        },
{
    let ghost all = sources@;
    let mut rest = sources;
    let mut set = TemplateSet::new();
    let mut had_errors = false;
    let mut legacy = false;
    let ghost mut i: int = 0;
    assert(all.skip(0) =~= all);
    assert(set@ =~= loaded(all.take(0)));
    while rest.len() > 0
        invariant
            0 <= i <= all.len(),
            rest@ == all.skip(i),
            set@ == loaded(all.take(i)),
            had_errors == exists|j: int| 0 <= j < i && rejected(#[trigger] all[j]),
            legacy == exists|j: int| 0 <= j < i && legacy_failure(#[trigger] all[j]),
        decreases rest.len(),
    {
        let source = rest.remove(0);
        proof {
            assert(source == all[i]);
            assert(rest@ =~= all.skip(i + 1));
            assert(all.take(i + 1).drop_last() =~= all.take(i));
            assert(all.take(i + 1).last() == all[i]);
        }
        let TemplateSource { file_name, parsed } = source;
        match template_name_of(file_name.as_str()) {
            None => {},
            Some(name) => {
                match parsed {
                    Ok(template) => {
                        match validate_template(&template) {
                            Ok(()) => {
                                set.insert(name, template);
                            },
                            Err(_) => {
                                had_errors = true;
                            },
                        }
                    },
                    Err(message) => {
                        had_errors = true;
                        if mentions_legacy_variables(message.as_str()) {
                            legacy = true;
                        }
                    },
                }
            },
        }
        proof {
            i = i + 1;
        }
    }
    assert(all.take(i) =~= all);
    let n = set.len();
    if n > 0 {
        Ok(set)
    } else if had_errors {
        Err(LoadError::NoValidTemplates { legacy_variables: legacy })
    } else {
        Err(LoadError::NoTemplates)
    }
}

} // verus!
