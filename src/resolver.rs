//! Resolving a template's variables: one prompt at a time, in declaration
//! order, skipping the variables whose conditions do not pass.
use vstd::prelude::*;
use crate::environment::{texts, Environment};
use crate::template::{gate_open, kind_of, Template, TemplateVariable, VariableKind};
use crate::text::{bool_text, bool_to_text};

verus! {

/// A request for one value.
#[derive(Debug)]
pub enum Prompt {
    /// A line of text; an empty answer takes the variable's default.
    Text { prompt: String },
    /// Yes or no.
    Confirm { prompt: String, default: bool },
    /// One of the options.
    Select { prompt: String, options: Vec<String> },
    /// Any of the options.
    MultiSelect { prompt: String, options: Vec<String> },
}

/// What a prompt holds, as text.
pub enum PromptView {
    Text { prompt: Seq<char> },
    Confirm { prompt: Seq<char>, default: bool },
    Select { prompt: Seq<char>, options: Seq<Seq<char>> },
    MultiSelect { prompt: Seq<char>, options: Seq<Seq<char>> },
}

impl View for Prompt {
    type V = PromptView;

    open spec fn view(&self) -> PromptView {
        match self {
            Prompt::Text { prompt } => PromptView::Text { prompt: prompt@ },
            Prompt::Confirm { prompt, default } => PromptView::Confirm {
                prompt: prompt@,
                default: *default,
            },
            Prompt::Select { prompt, options } => PromptView::Select {
                prompt: prompt@,
                options: texts(options@),
            },
            Prompt::MultiSelect { prompt, options } => PromptView::MultiSelect {
                prompt: prompt@,
                options: texts(options@),
            },
        }
    }
}

/// The user's answer to a prompt.
#[derive(Debug)]
pub enum Reply {
    Text(String),
    Confirm(bool),
    /// The position of the chosen option.
    Choice(usize),
    /// The positions of the chosen options, in the order chosen.
    Choices(Vec<usize>),
}

/// Why an answer was refused.
#[derive(Clone, Copy, Debug, PartialEq, Eq, Structural)]
pub enum ReplyError {
    /// No prompt is waiting for an answer.
    NothingAsked,
    /// The answer is not of the kind the prompt asks for.
    WrongKind,
    /// A chosen position is not one of the options.
    NoSuchOption,
}

/// A variable's default, empty when it has none.
pub open spec fn default_text(v: TemplateVariable) -> Seq<char> {
    match v.default {
        Some(d) => d@,
        None => seq![],
    }
}

/// A variable's options, empty when it has none.
pub open spec fn options_of(v: TemplateVariable) -> Seq<String> {
    match v.options {
        Some(o) => o@,
        None => seq![],
    }
}

/// The prompt for a variable. A text prompt names its default, if any.
pub open spec fn prompt_for(v: TemplateVariable) -> PromptView {
    match kind_of(v) {
        VariableKind::Boolean => PromptView::Confirm {
            prompt: v.prompt@,
            default: default_text(v) == "true"@,
        },
        VariableKind::Select => PromptView::Select {
            prompt: v.prompt@,
            options: texts(options_of(v)),
        },
        VariableKind::MultiSelect => PromptView::MultiSelect {
            prompt: v.prompt@,
            options: texts(options_of(v)),
        },
        VariableKind::Text => PromptView::Text {
            prompt: if default_text(v).len() == 0 {
                v.prompt@
            } else {
                v.prompt@ + " (default: "@ + default_text(v) + ")"@
            },
        },
    }
}

/// Items joined by commas.
pub open spec fn comma_joined(items: Seq<Seq<char>>) -> Seq<char>
    decreases items.len(),
{
    if items.len() == 0 {
        seq![]
    } else if items.len() == 1 {
        items[0]
    } else {
        comma_joined(items.drop_last()) + seq![','] + items.last()
    }
}

/// Whether an answer is of the kind a prompt of `kind` asks for.
pub open spec fn kind_answers(kind: VariableKind, reply: Reply) -> bool {
    match reply {
        Reply::Text(_) => kind == VariableKind::Text,
        Reply::Confirm(_) => kind == VariableKind::Boolean,
        Reply::Choice(_) => kind == VariableKind::Select,
        Reply::Choices(_) => kind == VariableKind::MultiSelect,
    }
}

/// Whether every position in `ix` is below `n`.
pub open spec fn all_below(ix: Seq<usize>, n: int) -> bool {
    forall|k: int| 0 <= k < ix.len() ==> #[trigger] ix[k] < n
}

/// Whether every chosen position is one of the options.
pub open spec fn choices_exist(v: TemplateVariable, reply: Reply) -> bool {
    match reply {
        Reply::Choice(i) => i < options_of(v).len(),
        Reply::Choices(ix) => all_below(ix@, options_of(v).len() as int),
        _ => true,
    }
}

/// The value that an answer gives a variable: `true` or `false` for a
/// confirmation; the chosen option; the chosen options joined by commas;
/// or the text, an empty text taking the default.
pub open spec fn reply_value(v: TemplateVariable, reply: Reply) -> Seq<char> {
    match reply {
        Reply::Text(s) => if s@.len() == 0 {
            default_text(v)
        } else {
            s@
        },
        Reply::Confirm(b) => bool_text(b),
        Reply::Choice(i) => options_of(v)[i as int]@,
        Reply::Choices(ix) => comma_joined(
            ix@.map_values(|i: usize| options_of(v)[i as int]@),
        ),
    }
}

/// The first variable at or after `from` whose conditions pass in `env`,
/// or the number of variables when there is none.
pub open spec fn next_enabled(
    vars: Seq<TemplateVariable>,
    from: int,
    env: Map<Seq<char>, Seq<char>>,
) -> int
    decreases vars.len() - from,
{
    if from < 0 || from >= vars.len() {
        vars.len() as int
    } else if gate_open(vars[from].if_condition, vars[from].if_not, env) {
        from
    } else {
        next_enabled(vars, from + 1, env)
    }
}

/// A copy of a list of strings.
pub fn copy_texts(v: &Vec<String>) -> (r: Vec<String>)
    ensures
        texts(r@) == texts(v@),
{
    let mut r: Vec<String> = Vec::new();
    let mut i: usize = 0;
    while i < v.len()
        invariant
            i <= v.len(),
            texts(r@) == texts(v@).take(i as int),
        decreases v.len() - i,
    {
        let ghost before = texts(r@);
        r.push(v[i].clone());
        assert(texts(r@) =~= before.push(v@[i as int]@));
        assert(texts(v@).take(i + 1) =~= texts(v@).take(i as int).push(v@[i as int]@));
        i = i + 1;
    }
    assert(texts(v@).take(v.len() as int) =~= texts(v@));
    r
}

/// The prompt for a variable.
pub fn prompt_of(v: &TemplateVariable) -> (r: Prompt)
    ensures
        r@ == prompt_for(*v),
{
    let kind = v.kind();
    match kind {
        VariableKind::Boolean => {
            let default = match &v.default {
                Some(d) => crate::text::same_text(d, "true"),
                None => {
                    proof {
                        reveal_strlit("true");
                        assert("true"@.len() == 4);
                    }
                    false
                },
            };
            Prompt::Confirm { prompt: v.prompt.clone(), default }
        },
        VariableKind::Select => {
            let options = match &v.options {
                Some(o) => copy_texts(o),
                None => Vec::new(),
            };
            Prompt::Select { prompt: v.prompt.clone(), options }
        },
        VariableKind::MultiSelect => {
            let options = match &v.options {
                Some(o) => copy_texts(o),
                None => Vec::new(),
            };
            Prompt::MultiSelect { prompt: v.prompt.clone(), options }
        },
        VariableKind::Text => {
            let prompt = match &v.default {
                Some(d) => {
                    if d.as_str().is_empty() {
                        v.prompt.clone()
                    } else {
                        let mut p = v.prompt.clone();
                        p.append(" (default: ");
                        p.append(d.as_str());
                        p.append(")");
                        p
                    }
                },
                None => v.prompt.clone(),
            };
            Prompt::Text { prompt }
        },
    }
}

/// The chosen options, joined by commas.
fn join_choices(options: &Vec<String>, chosen: &Vec<usize>) -> (r: String)
    requires
        forall|k: int| 0 <= k < chosen.len() ==> #[trigger] chosen@[k] < options.len(),
    ensures
        r@ == comma_joined(chosen@.map_values(|i: usize| options@[i as int]@)),
{
    let ghost items = chosen@.map_values(|i: usize| options@[i as int]@);
    let mut r = String::new();
    let mut k: usize = 0;
    while k < chosen.len()
        invariant
            k <= chosen.len(),
            forall|m: int| 0 <= m < chosen.len() ==> #[trigger] chosen@[m] < options.len(),
            items == chosen@.map_values(|i: usize| options@[i as int]@),
            r@ == comma_joined(items.take(k as int)),
        decreases chosen.len() - k,
    {
        proof {
            assert(items.take(k + 1).drop_last() =~= items.take(k as int));
            assert(items.take(k + 1).last() == items[k as int]);
        }
        if k > 0 {
            r.push(',');
        } else {
            assert(items.take(1) =~= seq![items[0]]);
            assert(r@ =~= Seq::<char>::empty());
        }
        r.append(options[chosen[k]].as_str());
        k = k + 1;
    }
    assert(items.take(chosen.len() as int) =~= items);
    r
}

/// The value of an answer, or why it does not fit the variable.
fn value_of(v: &TemplateVariable, reply: Reply) -> (r: Result<String, ReplyError>)
    ensures
        match r {
            Ok(s) => kind_answers(kind_of(*v), reply) && choices_exist(*v, reply) && s@
                == reply_value(*v, reply),
            Err(e) => if !kind_answers(kind_of(*v), reply) {
                e == ReplyError::WrongKind
            } else {
                !choices_exist(*v, reply) && e == ReplyError::NoSuchOption
            },
        },
{
    let kind = v.kind();
    let empty: Vec<String> = Vec::new();
    let options = match &v.options {
        Some(o) => o,
        None => &empty,
    };
    assert(options@ == options_of(*v));
    match reply {
        Reply::Text(s) => {
            if kind != VariableKind::Text {
                return Err(ReplyError::WrongKind);
            }
            if s.as_str().is_empty() {
                match &v.default {
                    Some(d) => Ok(d.clone()),
                    None => Ok(String::new()),
                }
            } else {
                Ok(s)
            }
        },
        Reply::Confirm(b) => {
            if kind != VariableKind::Boolean {
                return Err(ReplyError::WrongKind);
            }
            Ok(bool_to_text(b))
        },
        Reply::Choice(i) => {
            if kind != VariableKind::Select {
                return Err(ReplyError::WrongKind);
            }
            if i >= options.len() {
                return Err(ReplyError::NoSuchOption);
            }
            Ok(options[i].clone())
        },
        Reply::Choices(ix) => {
            if kind != VariableKind::MultiSelect {
                return Err(ReplyError::WrongKind);
            }
            let mut k: usize = 0;
            while k < ix.len()
                invariant
                    k <= ix.len(),
                    options@ == options_of(*v),
                    reply == Reply::Choices(ix),
                    kind_of(*v) == VariableKind::MultiSelect,
                    forall|m: int| 0 <= m < k ==> #[trigger] ix@[m] < options.len(),
                decreases ix.len() - k,
            {
                if ix[k] >= options.len() {
                    assert(!(ix@[k as int] < options_of(*v).len()));
                    assert(!all_below(ix@, options_of(*v).len() as int));

                    return Err(ReplyError::NoSuchOption);
                }
                k = k + 1;
            }
            let r = join_choices(options, &ix);
            Ok(r)
        },
    }
}

/// Walks a template's variables in order, asking for each whose
/// conditions pass and binding its value at once, so that later
/// conditions see it.
#[derive(Debug)]
pub struct Resolver {
    variables: Vec<TemplateVariable>,
    position: usize,
    asking: bool,
    env: Environment,
}

impl Resolver {
    /// The variables being resolved.
    pub closed spec fn variables(&self) -> Seq<TemplateVariable> {
        self.variables@
    }

    /// The position of the variable being asked for, or of the next one
    /// to consider.
    pub closed spec fn position(&self) -> int {
        self.position as int
    }

    /// Whether a prompt waits for its answer.
    pub closed spec fn asking(&self) -> bool {
        self.asking
    }

    /// The bindings made so far.
    pub closed spec fn environment(&self) -> Map<Seq<char>, Seq<char>> {
        self.env@
    }

    /// Starts resolving `variables` on top of the bindings in `env`.
    pub fn new(variables: Vec<TemplateVariable>, env: Environment) -> (r: Resolver)
        ensures
            r.variables() == variables@,
            r.position() == 0,
            !r.asking(),
            r.environment() == env@,
    {
        Resolver { variables, position: 0, asking: false, env }
    }

    /// The prompt for the next variable whose conditions pass, skipping
    /// the others; `None` once every variable has been considered.
    pub fn next_prompt(&mut self) -> (r: Option<Prompt>)
        ensures
            final(self).variables() == old(self).variables(),
            final(self).environment() == old(self).environment(),
            final(self).position() == next_enabled(
                old(self).variables(),
                old(self).position(),
                old(self).environment(),
            ),
            final(self).asking() == r is Some,
            match r {
                Some(p) => final(self).position() < final(self).variables().len() && p@
                    == prompt_for(final(self).variables()[final(self).position()]),
                None => final(self).position() == final(self).variables().len(),
            },
    {
        let ghost start = self.position as int;
        let ghost vars = self.variables@;
        let ghost env = self.env@;
        while self.position < self.variables.len() && !self.variables[self.position].is_enabled(
            &self.env,
        )
            invariant
                self.variables@ == vars,
                self.env@ == env,
                next_enabled(self.variables@, self.position as int, self.env@) == next_enabled(
                    self.variables@,
                    start,
                    self.env@,
                ),
            decreases self.variables.len() - self.position,
        {
            self.position = self.position + 1;
        }
        if self.position < self.variables.len() {
            self.asking = true;
            Some(prompt_of(&self.variables[self.position]))
        } else {
            self.position = self.variables.len();
            self.asking = false;
            None
        }
    }

    /// Binds the variable being asked for to the value of `reply`, and
    /// moves past it. Refused, with nothing changed, when no prompt waits,
    /// when the answer is of another kind than the prompt, or when it
    /// chooses a position that is not an option.
    pub fn answer(&mut self, reply: Reply) -> (r: Result<(), ReplyError>)
        ensures
            final(self).variables() == old(self).variables(),
            ({
                let asked = old(self).asking() && old(self).position() < old(self).variables().len();
                let v = old(self).variables()[old(self).position()];
                match r {
                    Ok(()) => {
                        &&& asked
                        &&& kind_answers(kind_of(v), reply)
                        &&& choices_exist(v, reply)
                        &&& final(self).environment() == old(self).environment().insert(
                            v.name@,
                            reply_value(v, reply),
                        )
                        &&& final(self).position() == old(self).position() + 1
                        &&& !final(self).asking()
                    },
                    Err(e) => {
                        &&& final(self).environment() == old(self).environment()
                        &&& final(self).position() == old(self).position()
                        &&& final(self).asking() == old(self).asking()
                        &&& e == if !asked {
                            ReplyError::NothingAsked
                        } else if !kind_answers(kind_of(v), reply) {
                            ReplyError::WrongKind
                        } else {
                            ReplyError::NoSuchOption
                        }
                        &&& asked && kind_answers(kind_of(v), reply) ==> !choices_exist(v, reply)
                    },
                }
            }),
    {
        if !self.asking || self.position >= self.variables.len() {
            return Err(ReplyError::NothingAsked);
        }
        let value = value_of(&self.variables[self.position], reply);
        match value {
            Ok(s) => {
                let name = self.variables[self.position].name.clone();
                self.env.insert(name, s);
                self.position = self.position + 1;
                self.asking = false;
                Ok(())
            },
            Err(e) => Err(e),
        }
    }

    /// The bindings once resolution is over.
    pub fn finish(self) -> (r: Environment)
        ensures
            r@ == self.environment(),
    {
        self.env
    }
}

/// The bindings every project starts with: `project_name`.
pub fn initial_environment(project_name: &str) -> (r: Environment)
    ensures
        r@ == Map::<Seq<char>, Seq<char>>::empty().insert("project_name"@, project_name@),
{
    let mut r = Environment::new();
    r.insert(String::from_str("project_name"), String::from_str(project_name));
    r
}

/// Everything needed to materialize a project: its name, the chosen
/// template, where projects are created, and the resolved variables.
#[derive(Debug)]
pub struct ProjectConfig {
    pub name: String,
    pub template_name: String,
    pub template: Template,
    pub base_path: String,
    pub variables: Environment,
}

} // verus!
