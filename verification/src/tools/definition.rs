//! How a tool presents itself: its name, what it does and what it takes.
use vstd::prelude::*;

verus! {

/// The kind of a plain value.
#[derive(Debug, Clone, Copy, PartialEq, Eq, Structural)]
pub enum ValueKind {
    Text,
    Integer,
}

/// A field of a row, in a parameter that is a list of rows.
#[derive(Debug)]
pub struct Field {
    pub name: String,
    pub description: String,
    pub kind: ValueKind,
}

/// What a parameter holds.
#[derive(Debug)]
pub enum ParameterKind {
    Value(ValueKind),
    /// A list of rows, each with all these fields.
    Rows(Vec<Field>),
}

/// A parameter of a tool.
#[derive(Debug)]
pub struct Parameter {
    pub name: String,
    pub description: String,
    pub kind: ParameterKind,
    pub required: bool,
}

/// The definition of a tool.
#[derive(Debug)]
pub struct ToolDefinition {
    pub name: String,
    pub description: String,
    pub parameters: Vec<Parameter>,
}

pub struct FieldView {
    pub name: Seq<char>,
    pub description: Seq<char>,
    pub kind: ValueKind,
}

pub enum ParameterKindView {
    Value(ValueKind),
    Rows(Seq<FieldView>),
}

pub struct ParameterView {
    pub name: Seq<char>,
    pub description: Seq<char>,
    pub kind: ParameterKindView,
    pub required: bool,
}

pub struct ToolDefinitionView {
    pub name: Seq<char>,
    pub description: Seq<char>,
    pub parameters: Seq<ParameterView>,
}

impl View for Field {
    type V = FieldView;

    open spec fn view(&self) -> FieldView {
        FieldView { name: self.name@, description: self.description@, kind: self.kind }
    }
}

impl View for ParameterKind {
    type V = ParameterKindView;

    open spec fn view(&self) -> ParameterKindView {
        match self {
            ParameterKind::Value(kind) => ParameterKindView::Value(*kind),
            ParameterKind::Rows(fields) => ParameterKindView::Rows(
                fields@.map_values(|f: Field| f@),
            ),
        }
    }
}

impl View for Parameter {
    type V = ParameterView;

    open spec fn view(&self) -> ParameterView {
        ParameterView {
            name: self.name@,
            description: self.description@,
            kind: self.kind@,
            required: self.required,
        }
    }
}

impl View for ToolDefinition {
    type V = ToolDefinitionView;

    open spec fn view(&self) -> ToolDefinitionView {
        ToolDefinitionView {
            name: self.name@,
            description: self.description@,
            parameters: self.parameters@.map_values(|p: Parameter| p@),
        }
    }
}

/// A parameter that holds a text.
pub open spec fn text_parameter(
    name: Seq<char>,
    description: Seq<char>,
    required: bool,
) -> ParameterView {
    ParameterView {
        name,
        description,
        kind: ParameterKindView::Value(ValueKind::Text),
        required,
    }
}

impl Parameter {
    /// A parameter that holds a text.
    pub fn text(name: &str, description: &str, required: bool) -> (parameter: Parameter)
        ensures
            parameter@ == text_parameter(name@, description@, required),
            parameter.name@ == name@,
            parameter.description@ == description@,
            parameter.kind == ParameterKind::Value(ValueKind::Text),
            parameter.required == required,
    {
        Parameter {
            name: name.to_string(),
            description: description.to_string(),
            kind: ParameterKind::Value(ValueKind::Text),
            required,
        }
    }
}

impl Field {
    pub fn new(name: &str, description: &str, kind: ValueKind) -> (field: Field)
        ensures
            field@ == (FieldView { name: name@, description: description@, kind }),
            field.name@ == name@,
            field.description@ == description@,
            field.kind == kind,
    {
        Field { name: name.to_string(), description: description.to_string(), kind }
    }
}

/// The view of a tool's definition holds its name, its description and every
/// parameter, in order, each with its name, its description, what it holds and
/// whether it is required.
pub proof fn law_definition_view(definition: ToolDefinition, parameter: Parameter, field: Field)
    ensures
        definition@.name == definition.name@,
        definition@.description == definition.description@,
        definition@.parameters.len() == definition.parameters@.len(),
        forall|i: int|
            #![trigger definition@.parameters[i]]
            0 <= i < definition.parameters@.len() ==> definition@.parameters[i]
                == definition.parameters@[i]@,
        parameter@.name == parameter.name@,
        parameter@.description == parameter.description@,
        parameter@.required == parameter.required,
        match parameter.kind {
            ParameterKind::Value(kind) => parameter@.kind == ParameterKindView::Value(kind),
            ParameterKind::Rows(fields) => parameter@.kind matches ParameterKindView::Rows(views)
                && views.len() == fields@.len() && (forall|i: int|
                #![trigger views[i]]
                0 <= i < fields@.len() ==> views[i] == fields@[i]@),
        },
        field@.name == field.name@,
        field@.description == field.description@,
        field@.kind == field.kind,
{
}

/// A text parameter has the name, the description and the necessity it is given.
pub proof fn law_text_parameter(name: Seq<char>, description: Seq<char>, required: bool)
    ensures
        text_parameter(name, description, required).name == name,
        text_parameter(name, description, required).description == description,
        text_parameter(name, description, required).required == required,
        text_parameter(name, description, required).kind == ParameterKindView::Value(
            ValueKind::Text,
        ),
{
}

} // verus!
