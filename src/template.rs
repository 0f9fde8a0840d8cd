//! The template model: variables to ask for and steps to carry out.
use vstd::prelude::*;
use crate::environment::{condition_holds, evaluate_condition, Environment};
use crate::text::same_text;

verus! {

/// A template: the variables it asks for and the steps it runs, in order.
#[derive(Clone, Debug)]
pub struct Template {
    pub name: String,
    pub description: String,
    pub emoji: String,
    pub variables: Vec<TemplateVariable>,
    pub steps: Vec<Step>,
}

/// A variable that a template asks the user for.
#[derive(Clone, Debug)]
pub struct TemplateVariable {
    pub name: String,
    pub prompt: String,
    /// `string` (also when absent), `boolean`, `select` or `multiselect`.
    pub type_: Option<String>,
    pub default: Option<String>,
    /// Asked only when this condition holds.
    pub if_condition: Option<String>,
    /// Asked only when this condition does not hold.
    pub if_not: Option<String>,
    /// The choices of a `select` or `multiselect` variable.
    pub options: Option<Vec<String>>,
}

/// One unit of scaffolding work.
#[derive(Clone, Debug)]
pub struct Step {
    pub name: String,
    /// Run only when this condition holds.
    pub if_condition: Option<String>,
    /// Run only when this condition does not hold.
    pub if_not: Option<String>,
    /// Command lines, one per line.
    pub run: Option<String>,
    /// A command that must be installed before anything else is done.
    pub check: Option<String>,
    /// The message given when the checked command is missing.
    pub error: Option<String>,
    pub copy: Option<CopyStep>,
}

/// A file copied from the template directory into the project, with its
/// placeholders substituted.
#[derive(Clone, Debug)]
pub struct CopyStep {
    pub from: String,
    pub to: String,
}

/// How a variable is asked for.
#[derive(Clone, Copy, Debug, PartialEq, Eq, Structural)]
pub enum VariableKind {
    Text,
    Boolean,
    Select,
    MultiSelect,
}

/// Both conditions of a variable or step pass: the `if` condition holds
/// (or is absent) and the `if-not` condition does not hold (or is absent).
pub open spec fn gate_open(
    if_condition: Option<String>,
    if_not: Option<String>,
    env: Map<Seq<char>, Seq<char>>,
) -> bool {
    &&& (if_condition matches Some(c) ==> condition_holds(c@, env))
    &&& (if_not matches Some(c) ==> !condition_holds(c@, env))
}

/// Evaluates the pair of conditions of a variable or step.
pub fn gate(if_condition: &Option<String>, if_not: &Option<String>, variables: &Environment) -> (r:
    bool)
    ensures
        r == gate_open(*if_condition, *if_not, variables@),
{
    let first = match if_condition {
        Some(c) => evaluate_condition(c.as_str(), variables),
        None => true,
    };
    let second = match if_not {
        Some(c) => !evaluate_condition(c.as_str(), variables),
        None => true,
    };
    first && second
}

/// The kind of a variable: a `select` or `multiselect` without options is
/// asked as text, as is any type other than `boolean`.
pub open spec fn kind_of(v: TemplateVariable) -> VariableKind {
    match v.type_ {
        Some(t) => if t@ == "boolean"@ {
            VariableKind::Boolean
        } else if t@ == "select"@ && v.options is Some {
            VariableKind::Select
        } else if t@ == "multiselect"@ && v.options is Some {
            VariableKind::MultiSelect
        } else {
            VariableKind::Text
        },
        None => VariableKind::Text,
    }
}

/// Whether a variable's type is one of the four known ones.
pub open spec fn kind_known(v: TemplateVariable) -> bool {
    match v.type_ {
        Some(t) => t@ == "string"@ || t@ == "boolean"@ || t@ == "select"@ || t@
            == "multiselect"@,
        None => true,
    }
}

/// Whether a variable's type asks for a choice among options.
pub open spec fn asks_choice(v: TemplateVariable) -> bool {
    v.type_ matches Some(t) && (t@ == "select"@ || t@ == "multiselect"@)
}

/// A variable is well-formed: its type is known, and a choice has options.
pub open spec fn variable_valid(v: TemplateVariable) -> bool {
    &&& kind_known(v)
    &&& asks_choice(v) ==> (v.options matches Some(o) && o.len() > 0)
}

/// Why a template definition was refused.
#[derive(Clone, Debug)]
pub enum TemplateError {
    /// The named variable has a type that is not one of the four known.
    UnknownKind { variable: String },
    /// The named `select` or `multiselect` variable has no options.
    MissingOptions { variable: String },
}

/// `e` is the error reported for the variable `v`.
pub open spec fn reports(e: TemplateError, v: TemplateVariable) -> bool {
    match e {
        TemplateError::UnknownKind { variable } => variable@ == v.name@ && !kind_known(v),
        TemplateError::MissingOptions { variable } => variable@ == v.name@ && kind_known(v)
            && asks_choice(v) && !(v.options matches Some(o) && o.len() > 0),
    }
}

impl TemplateVariable {
    /// How this variable is asked for.
    pub fn kind(&self) -> (r: VariableKind)
        ensures
            r == kind_of(*self),
    {
        match &self.type_ {
            Some(t) => {
                if same_text(t, "boolean") {
                    VariableKind::Boolean
                } else if same_text(t, "select") && self.options.is_some() {
                    VariableKind::Select
                } else if same_text(t, "multiselect") && self.options.is_some() {
                    VariableKind::MultiSelect
                } else {
                    VariableKind::Text
                }
            },
            None => VariableKind::Text,
        }
    }

    /// Whether this variable is asked for in the given environment.
    pub fn is_enabled(&self, variables: &Environment) -> (r: bool)
        ensures
            r == gate_open(self.if_condition, self.if_not, variables@),
    {
        gate(&self.if_condition, &self.if_not, variables)
    }

    /// Checks that the type is known and that a choice has options.
    pub fn validate(&self) -> (r: Result<(), TemplateError>)
        ensures
            r is Ok <==> variable_valid(*self),
            r matches Err(e) ==> reports(e, *self),
    {
        let known = match &self.type_ {
            Some(t) => same_text(t, "string") || same_text(t, "boolean") || same_text(t, "select")
                || same_text(t, "multiselect"),
            None => true,
        };
        if !known {
            return Err(TemplateError::UnknownKind { variable: self.name.clone() });
        }
        let choice = match &self.type_ {
            Some(t) => same_text(t, "select") || same_text(t, "multiselect"),
            None => false,
        };
        let has_options = match &self.options {
            Some(o) => o.len() > 0,
            None => false,
        };
        if choice && !has_options {
            return Err(TemplateError::MissingOptions { variable: self.name.clone() });
        }
        Ok(())
    }
}

impl Step {
    /// Whether this step runs in the given environment.
    pub fn is_enabled(&self, variables: &Environment) -> (r: bool)
        ensures
            r == gate_open(self.if_condition, self.if_not, variables@),
    {
        gate(&self.if_condition, &self.if_not, variables)
    }
}

/// Checks every variable of a template; the first ill-formed one is
/// reported.
pub fn validate_template(template: &Template) -> (r: Result<(), TemplateError>)
    ensures
        r is Ok <==> forall|i: int|
            0 <= i < template.variables.len() ==> variable_valid(#[trigger] template.variables@[i]),
        r matches Err(e) ==> exists|i: int|
            0 <= i < template.variables.len() && reports(e, #[trigger] template.variables@[i])
                && forall|j: int| 0 <= j < i ==> variable_valid(#[trigger] template.variables@[j]),
{
    let mut i: usize = 0;
    while i < template.variables.len()
        invariant
            i <= template.variables.len(),
            forall|j: int| 0 <= j < i ==> variable_valid(#[trigger] template.variables@[j]),
        decreases template.variables.len() - i,
    {
        match template.variables[i].validate() {
            Ok(()) => {},
            Err(e) => {
                assert(reports(e, template.variables@[i as int]));
                return Err(e);
            },
        }
        i = i + 1;
    }
    Ok(())
}

} // verus!
