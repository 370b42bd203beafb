//! The binary DDL format: the declarations of classes, datasets and
//! protocols that a game ships. Integers and lengths are big endian;
//! strings are a `u32` length and UTF-8 bytes; lists are a count and the
//! items; the kind of an element or a subtype is a tag byte.

use crate::rmc::basic::{lemma_skip_skip, slice_vec, string_from_utf8};
use crate::text::{chars_of, push_chars, string_push};
use vstd::prelude::*;

verus! {

/// Why DDL data could not be read.
#[derive(Debug, Clone, Copy, PartialEq, Eq, Structural)]
pub enum DdlError {
    /// The data ends before the value does.
    Incomplete,
    /// A tag byte names no kind of element, subtype or parameter.
    InvalidTag(u8),
    /// A string is not UTF-8.
    InvalidUtf8,
    /// Elements are nested deeper than the reading allows.
    TooDeep,
}

/// The `u32` in the first four bytes of `b`, big endian.
pub open spec fn be_u32(b: Seq<u8>) -> u32 {
    (b[0] as int * 0x100_0000 + b[1] as int * 0x1_0000 + b[2] as int * 0x100 + b[3] as int) as u32
}

/// A `u32` at the start of `data`.
#[verifier::opaque]
pub open spec fn ddl_u32(data: Seq<u8>) -> Result<(u32, nat), DdlError> {
    if data.len() < 4 {
        Err(DdlError::Incomplete)
    } else {
        Ok((be_u32(data), 4))
    }
}

/// A byte at the start of `data`.
pub open spec fn ddl_u8(data: Seq<u8>) -> Result<(u8, nat), DdlError> {
    if data.len() < 1 {
        Err(DdlError::Incomplete)
    } else {
        Ok((data[0], 1))
    }
}

/// A string at the start of `data`: a `u32` length, then as many bytes of
/// UTF-8.
#[verifier::opaque]
pub open spec fn ddl_string(data: Seq<u8>) -> Result<(Seq<char>, nat), DdlError> {
    if data.len() < 4 {
        Err(DdlError::Incomplete)
    } else if data.len() - 4 < be_u32(data) {
        Err(DdlError::Incomplete)
    } else {
        let bytes = data.subrange(4, 4 + be_u32(data));
        if vstd::utf8::valid_utf8(bytes) {
            Ok((vstd::utf8::decode_utf8(bytes), 4 + be_u32(data) as nat))
        } else {
            Err(DdlError::InvalidUtf8)
        }
    }
}

/// `count` strings at the start of `data`.
pub open spec fn spec_strings(data: Seq<u8>, count: nat) -> Result<(Seq<Seq<char>>, nat), DdlError>
    decreases count,
{
    if count == 0 {
        Ok((Seq::empty(), 0))
    } else {
        match ddl_string(data) {
            Err(e) => Err(e),
            Ok((s, n)) => match spec_strings(data.skip(n as int), (count - 1) as nat) {
                Err(e) => Err(e),
                Ok((rest, m)) => Ok((seq![s] + rest, n + m)),
            },
        }
    }
}

/// A list of strings: a `u32` count, then the strings.
pub open spec fn spec_strings_list(data: Seq<u8>) -> Result<(Seq<Seq<char>>, nat), DdlError> {
    match ddl_u32(data) {
        Err(e) => Err(e),
        Ok((c, n)) => match spec_strings(data.skip(4), c as nat) {
            Err(e) => Err(e),
            Ok((s, m)) => Ok((s, 4 + m)),
        },
    }
}

/// The direction of a method parameter.
#[derive(Debug, Clone, Copy, PartialEq, Eq, Structural)]
pub enum ParameterType {
    Request,
    Response,
    Unknown,
    Unknown2,
}

/// A parameter direction at the start of `data`: tag 1, 2, 3 or 0.
pub open spec fn spec_parameter_type(data: Seq<u8>) -> Result<(ParameterType, nat), DdlError> {
    if data.len() < 1 {
        Err(DdlError::Incomplete)
    } else if data[0] == 1 {
        Ok((ParameterType::Request, 1))
    } else if data[0] == 2 {
        Ok((ParameterType::Response, 1))
    } else if data[0] == 3 {
        Ok((ParameterType::Unknown, 1))
    } else if data[0] == 0 {
        Ok((ParameterType::Unknown2, 1))
    } else {
        Err(DdlError::InvalidTag(data[0]))
    }
}

/// A template type: its name, the template's name and its parameters.
#[derive(Debug)]
pub struct TemplateType {
    pub name: String,
    pub template_name: String,
    pub parameters: Vec<SubType>,
}

/// The view of a `TemplateType`.
pub struct TemplateTypeView {
    pub name: Seq<char>,
    pub template_name: Seq<char>,
    pub parameters: Seq<SubTypeView>,
}

/// The type of a variable.
#[derive(Debug)]
pub enum SubType {
    DOClass(String),
    Dataset(String),
    Class(String),
    Simple(String),
    Template(TemplateType),
}

/// The view of a `SubType`.
pub enum SubTypeView {
    DOClass(Seq<char>),
    Dataset(Seq<char>),
    Class(Seq<char>),
    Simple(Seq<char>),
    Template(TemplateTypeView),
}

/// A variable type: the subtype and a number.
#[derive(Debug)]
pub struct VariableType {
    pub ty: SubType,
    pub unknown: u32,
}

/// The view of a `VariableType`.
pub struct VariableTypeView {
    pub ty: SubTypeView,
    pub unknown: u32,
}

/// The elements of a namespace.
#[derive(Debug)]
pub struct Namespace {
    pub elements: Vec<Element>,
}

/// The view of a `Namespace`.
pub struct NamespaceView {
    pub elements: Seq<ElementView>,
}

/// The fixed header of a DDL file.
#[derive(Debug, Clone, Copy, PartialEq, Eq, Structural)]
pub struct DDLHeader {
    pub magic: u32,
    pub unknown: u8,
    pub major: u32,
    pub minor: u32,
    pub micro: u32,
    pub build: u32,
}

/// The views of a list of strings.
pub open spec fn view_strings(s: Seq<String>) -> Seq<Seq<char>> {
    s.map_values(|x: String| x@)
}

/// The view of a subtype read at depth `d`.
pub open spec fn view_subtype(x: SubType, d: nat) -> SubTypeView
    decreases d, 0nat, 0nat,
{
    match x {
        SubType::DOClass(s) => SubTypeView::DOClass(s@),
        SubType::Dataset(s) => SubTypeView::Dataset(s@),
        SubType::Class(s) => SubTypeView::Class(s@),
        SubType::Simple(s) => SubTypeView::Simple(s@),
        SubType::Template(t) => if d == 0 {
            arbitrary()
        } else {
            SubTypeView::Template(view_template_type(t, (d - 1) as nat))
        },
    }
}

/// The views of a list of subtypes read at depth `d`.
pub open spec fn view_subtypes(s: Seq<SubType>, d: nat) -> Seq<SubTypeView>
    decreases d, 1nat, s.len(),
{
    if s.len() == 0 {
        Seq::empty()
    } else {
        view_subtypes(s.drop_last(), d).push(view_subtype(s.last(), d))
    }
}

/// The view of a template type read at depth `d`.
pub open spec fn view_template_type(x: TemplateType, d: nat) -> TemplateTypeView
    decreases d, 2nat, 0nat,
{
    TemplateTypeView { name: x.name@, template_name: x.template_name@, parameters: view_subtypes(x.parameters@, d) }
}

/// The view of a variable type read at depth `d`.
pub open spec fn view_variable_type(x: VariableType, d: nat) -> VariableTypeView
{
    VariableTypeView { ty: view_subtype(x.ty, d), unknown: x.unknown }
}

/// The views of a list of elements read at depth `d`.
pub open spec fn view_elements(s: Seq<Element>, d: nat) -> Seq<ElementView>
    decreases d, 1nat, s.len(),
{
    if s.len() == 0 {
        Seq::empty()
    } else {
        view_elements(s.drop_last(), d).push(view_element(s.last(), d))
    }
}

/// The view of a namespace read at depth `d`.
pub open spec fn view_namespace(x: Namespace, d: nat) -> NamespaceView {
    NamespaceView { elements: view_elements(x.elements@, d) }
}

// ---------------------------------------------------------------------------
// Reading, as specified
// ---------------------------------------------------------------------------

/// A subtype at the start of `data`, read at depth `d`: a tag byte, then
/// a string, or a template type for tag `0x12`.
pub open spec fn spec_subtype(data: Seq<u8>, d: nat) -> Result<(SubTypeView, nat), DdlError>
    decreases d, 0nat, 0nat,
{
    if data.len() < 1 {
        Err(DdlError::Incomplete)
    } else {
        let tag = data[0];
        let rest = data.skip(1);
        if tag == 0x03 || tag == 0x04 || tag == 0x0f || tag == 0x11 {
            match ddl_string(rest) {
                Err(e) => Err(e),
                Ok((s, n)) => Ok((
                    if tag == 0x03 {
                        SubTypeView::DOClass(s)
                    } else if tag == 0x04 {
                        SubTypeView::Dataset(s)
                    } else if tag == 0x0f {
                        SubTypeView::Class(s)
                    } else {
                        SubTypeView::Simple(s)
                    },
                    1 + n,
                )),
            }
        } else if tag == 0x12 {
            if d == 0 {
                Err(DdlError::TooDeep)
            } else {
                match spec_template_type(rest, (d - 1) as nat) {
                    Err(e) => Err(e),
                    Ok((t, n)) => Ok((SubTypeView::Template(t), 1 + n)),
                }
            }
        } else {
            Err(DdlError::InvalidTag(tag))
        }
    }
}

/// `count` subtypes at the start of `data`.
pub open spec fn spec_subtypes(data: Seq<u8>, count: nat, d: nat) -> Result<(Seq<SubTypeView>, nat), DdlError>
    decreases d, 1nat, count,
{
    if count == 0 {
        Ok((Seq::empty(), 0))
    } else {
        match spec_subtype(data, d) {
            Err(e) => Err(e),
            Ok((x, n)) => match spec_subtypes(data.skip(n as int), (count - 1) as nat, d) {
                Err(e) => Err(e),
                Ok((rest, m)) => Ok((seq![x] + rest, n + m)),
            },
        }
    }
}

/// A list of subtypes: a one-byte count, then the subtypes.
pub open spec fn spec_subtypes_list(data: Seq<u8>, d: nat) -> Result<(Seq<SubTypeView>, nat), DdlError>
    decreases d, 1nat, 256nat,
{
    match ddl_u8(data) {
        Err(e) => Err(e),
        Ok((c, n)) => match spec_subtypes(data.skip(1), c as nat, d) {
            Err(e) => Err(e),
            Ok((s, m)) => Ok((s, 1 + m)),
        },
    }
}

/// A template type at the start of `data`.
pub open spec fn spec_template_type(data: Seq<u8>, d: nat) -> Result<(TemplateTypeView, nat), DdlError>
    decreases d, 2nat, 0nat,
{
    match ddl_string(data) {
        Err(e) => Err(e),
        Ok((name, n0)) => match ddl_string(data.skip(n0 as int)) {
            Err(e) => Err(e),
            Ok((template_name, n1)) => match spec_subtypes_list(data.skip((n0 + n1) as int), d) {
                Err(e) => Err(e),
                Ok((parameters, n2)) => Ok((TemplateTypeView { name, template_name, parameters }, n0 + n1 + n2)),
            },
        },
    }
}

/// A variable type at the start of `data`: a subtype, then a `u32`.
pub open spec fn spec_variable_type(data: Seq<u8>, d: nat) -> Result<(VariableTypeView, nat), DdlError>
{
    match spec_subtype(data, d) {
        Err(e) => Err(e),
        Ok((ty, n)) => match ddl_u32(data.skip(n as int)) {
            Err(e) => Err(e),
            Ok((unknown, m)) => Ok((VariableTypeView { ty, unknown }, n + m)),
        },
    }
}

/// `count` elements at the start of `data`.
pub open spec fn spec_elements(data: Seq<u8>, count: nat, d: nat) -> Result<(Seq<ElementView>, nat), DdlError>
    decreases d, 1nat, count,
{
    if count == 0 {
        Ok((Seq::empty(), 0))
    } else {
        match spec_element(data, d) {
            Err(e) => Err(e),
            Ok((x, n)) => match spec_elements(data.skip(n as int), (count - 1) as nat, d) {
                Err(e) => Err(e),
                Ok((rest, m)) => Ok((seq![x] + rest, n + m)),
            },
        }
    }
}

/// A list of elements: a `u32` count, then the elements.
pub open spec fn spec_elements_list(data: Seq<u8>, d: nat) -> Result<(Seq<ElementView>, nat), DdlError>
    decreases d, 1nat, 0x1_0000_0000nat,
{
    match ddl_u32(data) {
        Err(e) => Err(e),
        Ok((c, n)) => match spec_elements(data.skip(4), c as nat, d) {
            Err(e) => Err(e),
            Ok((s, m)) => Ok((s, 4 + m)),
        },
    }
}

/// A namespace: a list of elements.
pub open spec fn spec_namespace(data: Seq<u8>, d: nat) -> Result<(NamespaceView, nat), DdlError> {
    match spec_elements_list(data, d) {
        Err(e) => Err(e),
        Ok((elements, n)) => Ok((NamespaceView { elements }, n)),
    }
}

/// A unit declaration: names, elements and location.
#[derive(Debug)]
pub struct DDLUnitDeclaration {
    pub name1: String,
    pub name2: String,
    pub name3: String,
    pub elements: Vec<Element>,
    pub name4: String,
    pub location: String,
}

/// The view of a `DDLUnitDeclaration`.
pub struct DDLUnitDeclarationView {
    pub name1: Seq<char>,
    pub name2: Seq<char>,
    pub name3: Seq<char>,
    pub elements: Seq<ElementView>,
    pub name4: Seq<char>,
    pub location: Seq<char>,
}

/// A class: names, namespace, properties, base and variables.
#[derive(Debug)]
pub struct ClassDeclaration {
    pub name1: String,
    pub name2: String,
    pub namespace: String,
    pub properties: Vec<Element>,
    pub maybe_base: String,
    pub variables: Vec<Element>,
}

/// The view of a `ClassDeclaration`.
pub struct ClassDeclarationView {
    pub name1: Seq<char>,
    pub name2: Seq<char>,
    pub namespace: Seq<char>,
    pub properties: Seq<ElementView>,
    pub maybe_base: Seq<char>,
    pub variables: Seq<ElementView>,
}

/// A property declaration.
#[derive(Debug)]
pub struct PropertyDeclaration {
    pub name1: String,
    pub name2: String,
    pub name3: String,
    pub u1: u32,
    pub u2: u32,
    pub u3: u32,
}

/// The view of a `PropertyDeclaration`.
pub struct PropertyDeclarationView {
    pub name1: Seq<char>,
    pub name2: Seq<char>,
    pub name3: Seq<char>,
    pub u1: u32,
    pub u2: u32,
    pub u3: u32,
}

/// A variable: names and type.
#[derive(Debug)]
pub struct Variable {
    pub name1: String,
    pub name2: String,
    pub ty: VariableType,
}

/// The view of a `Variable`.
pub struct VariableView {
    pub name1: Seq<char>,
    pub name2: Seq<char>,
    pub ty: VariableTypeView,
}

/// An instance of a template with its parameters.
#[derive(Debug)]
pub struct TemplateInstance {
    pub name1: String,
    pub name2: String,
    pub u1: u32,
    pub u2: u32,
    pub templ_name: String,
    pub parameters: Vec<String>,
}

/// The view of a `TemplateInstance`.
pub struct TemplateInstanceView {
    pub name1: Seq<char>,
    pub name2: Seq<char>,
    pub u1: u32,
    pub u2: u32,
    pub templ_name: Seq<char>,
    pub parameters: Seq<Seq<char>>,
}

/// A protocol and its methods; its id is not in the data.
#[derive(Debug)]
pub struct ProtocolDeclaration {
    pub name1: String,
    pub name2: String,
    pub namespace: String,
    pub u1: u32,
    pub methods: Vec<Element>,
    pub id: Option<u16>,
}

/// The view of a `ProtocolDeclaration`.
pub struct ProtocolDeclarationView {
    pub name1: Seq<char>,
    pub name2: Seq<char>,
    pub namespace: Seq<char>,
    pub u1: u32,
    pub methods: Seq<ElementView>,
    pub id: Option<u16>,
}

/// A method with two element lists.
#[derive(Debug)]
pub struct Method {
    pub name1: String,
    pub name2: String,
    pub u1: u32,
    pub u2: u32,
    pub elements1: Vec<Element>,
    pub elements2: Vec<Element>,
}

/// The view of a `Method`.
pub struct MethodView {
    pub name1: Seq<char>,
    pub name2: Seq<char>,
    pub u1: u32,
    pub u2: u32,
    pub elements1: Seq<ElementView>,
    pub elements2: Seq<ElementView>,
}

/// A method parameter: names, two types and direction.
#[derive(Debug)]
pub struct Parameter {
    pub name1: String,
    pub name2: String,
    pub dtype1: VariableType,
    pub dtype2: VariableType,
    pub ty: ParameterType,
}

/// The view of a `Parameter`.
pub struct ParameterView {
    pub name1: Seq<char>,
    pub name2: Seq<char>,
    pub dtype1: VariableTypeView,
    pub dtype2: VariableTypeView,
    pub ty: ParameterType,
}

/// A simple type declaration.
#[derive(Debug)]
pub struct SimpleDeclaration {
    pub name1: String,
    pub name2: String,
    pub namespace: String,
    pub u1: u32,
}

/// The view of a `SimpleDeclaration`.
pub struct SimpleDeclarationView {
    pub name1: Seq<char>,
    pub name2: Seq<char>,
    pub namespace: Seq<char>,
    pub u1: u32,
}

/// A template declaration.
#[derive(Debug)]
pub struct TemplateDeclaration {
    pub name1: String,
    pub name2: String,
    pub namespace: String,
    pub u1: u32,
    pub u2: u32,
}

/// The view of a `TemplateDeclaration`.
pub struct TemplateDeclarationView {
    pub name1: Seq<char>,
    pub name2: Seq<char>,
    pub namespace: Seq<char>,
    pub u1: u32,
    pub u2: u32,
}

/// A method's return value: names and two types.
#[derive(Debug)]
pub struct ReturnValue {
    pub name1: String,
    pub name2: String,
    pub dtype1: VariableType,
    pub dtype2: VariableType,
}

/// The view of a `ReturnValue`.
pub struct ReturnValueView {
    pub name1: Seq<char>,
    pub name2: Seq<char>,
    pub dtype1: VariableTypeView,
    pub dtype2: VariableTypeView,
}

/// A dataset: names, properties and variables.
#[derive(Debug)]
pub struct DatasetDeclaration {
    pub name1: String,
    pub name2: String,
    pub s1: String,
    pub properties: Vec<Element>,
    pub variables: Vec<Element>,
}

/// The view of a `DatasetDeclaration`.
pub struct DatasetDeclarationView {
    pub name1: Seq<char>,
    pub name2: Seq<char>,
    pub s1: Seq<char>,
    pub properties: Seq<ElementView>,
    pub variables: Seq<ElementView>,
}

/// A duplicated-object class.
#[derive(Debug)]
pub struct DOClassDeclaration {
    pub name1: String,
    pub name2: String,
    pub s1: String,
    pub properties: Vec<Element>,
    pub s2: String,
    pub u1: u32,
    pub elements: Vec<Element>,
}

/// The view of a `DOClassDeclaration`.
pub struct DOClassDeclarationView {
    pub name1: Seq<char>,
    pub name2: Seq<char>,
    pub s1: Seq<char>,
    pub properties: Seq<ElementView>,
    pub s2: Seq<char>,
    pub u1: u32,
    pub elements: Seq<ElementView>,
}

/// An action with its elements.
#[derive(Debug)]
pub struct Action {
    pub name1: String,
    pub name2: String,
    pub u1: u32,
    pub u2: u32,
    pub elements: Vec<Element>,
    pub u3: u32,
}

/// The view of a `Action`.
pub struct ActionView {
    pub name1: Seq<char>,
    pub name2: Seq<char>,
    pub u1: u32,
    pub u2: u32,
    pub elements: Seq<ElementView>,
    pub u3: u32,
}

/// A duplication space and its elements.
#[derive(Debug)]
pub struct DupSpaceDeclaration {
    pub name1: String,
    pub name2: String,
    pub namespace: String,
    pub elements: Vec<Element>,
}

/// The view of a `DupSpaceDeclaration`.
pub struct DupSpaceDeclarationView {
    pub name1: Seq<char>,
    pub name2: Seq<char>,
    pub namespace: Seq<char>,
    pub elements: Seq<ElementView>,
}

/// An element of a DDL namespace.
#[derive(Debug)]
pub enum Element {
    DOClassDeclaration(DOClassDeclaration),
    DatasetDeclaration(DatasetDeclaration),
    Variable(Variable),
    Method(Method),
    Action(Action),
    PropertyDeclaration(PropertyDeclaration),
    ProtocolDeclaration(ProtocolDeclaration),
    Parameter(Parameter),
    ReturnValue(ReturnValue),
    ClassDeclaration(ClassDeclaration),
    TemplateDeclaration(TemplateDeclaration),
    SimpleDeclaration(SimpleDeclaration),
    TemplateInstance(TemplateInstance),
    DDLUnitDeclaration(DDLUnitDeclaration),
    DupSpaceDeclaration(DupSpaceDeclaration),
}

/// The view of an `Element`.
pub enum ElementView {
    DOClassDeclaration(DOClassDeclarationView),
    DatasetDeclaration(DatasetDeclarationView),
    Variable(VariableView),
    Method(MethodView),
    Action(ActionView),
    PropertyDeclaration(PropertyDeclarationView),
    ProtocolDeclaration(ProtocolDeclarationView),
    Parameter(ParameterView),
    ReturnValue(ReturnValueView),
    ClassDeclaration(ClassDeclarationView),
    TemplateDeclaration(TemplateDeclarationView),
    SimpleDeclaration(SimpleDeclarationView),
    TemplateInstance(TemplateInstanceView),
    DDLUnitDeclaration(DDLUnitDeclarationView),
    DupSpaceDeclaration(DupSpaceDeclarationView),
}

/// The view of a `DDLUnitDeclaration` read at depth `d`.
pub open spec fn view_ddl_unit_declaration(x: DDLUnitDeclaration, d: nat) -> DDLUnitDeclarationView
    decreases d, 2nat, 0nat,
{
    DDLUnitDeclarationView {
        name1: x.name1@,
        name2: x.name2@,
        name3: x.name3@,
        elements: view_elements(x.elements@, d),
        name4: x.name4@,
        location: x.location@,
    }
}

/// The view of a `ClassDeclaration` read at depth `d`.
pub open spec fn view_class_declaration(x: ClassDeclaration, d: nat) -> ClassDeclarationView
    decreases d, 2nat, 0nat,
{
    ClassDeclarationView {
        name1: x.name1@,
        name2: x.name2@,
        namespace: x.namespace@,
        properties: view_elements(x.properties@, d),
        maybe_base: x.maybe_base@,
        variables: view_elements(x.variables@, d),
    }
}

/// The view of a `PropertyDeclaration` read at depth `d`.
#[verifier::opaque]
pub open spec fn view_property_declaration(x: PropertyDeclaration, d: nat) -> PropertyDeclarationView
{
    PropertyDeclarationView {
        name1: x.name1@,
        name2: x.name2@,
        name3: x.name3@,
        u1: x.u1,
        u2: x.u2,
        u3: x.u3,
    }
}

/// The view of a `Variable` read at depth `d`.
#[verifier::opaque]
pub open spec fn view_variable(x: Variable, d: nat) -> VariableView
{
    VariableView {
        name1: x.name1@,
        name2: x.name2@,
        ty: view_variable_type(x.ty, d),
    }
}

/// The view of a `TemplateInstance` read at depth `d`.
#[verifier::opaque]
pub open spec fn view_template_instance(x: TemplateInstance, d: nat) -> TemplateInstanceView
{
    TemplateInstanceView {
        name1: x.name1@,
        name2: x.name2@,
        u1: x.u1,
        u2: x.u2,
        templ_name: x.templ_name@,
        parameters: view_strings(x.parameters@),
    }
}

/// The view of a `ProtocolDeclaration` read at depth `d`.
pub open spec fn view_protocol_declaration(x: ProtocolDeclaration, d: nat) -> ProtocolDeclarationView
    decreases d, 2nat, 0nat,
{
    ProtocolDeclarationView {
        name1: x.name1@,
        name2: x.name2@,
        namespace: x.namespace@,
        u1: x.u1,
        methods: view_elements(x.methods@, d),
        id: x.id,
    }
}

/// The view of a `Method` read at depth `d`.
pub open spec fn view_method(x: Method, d: nat) -> MethodView
    decreases d, 2nat, 0nat,
{
    MethodView {
        name1: x.name1@,
        name2: x.name2@,
        u1: x.u1,
        u2: x.u2,
        elements1: view_elements(x.elements1@, d),
        elements2: view_elements(x.elements2@, d),
    }
}

/// The view of a `Parameter` read at depth `d`.
#[verifier::opaque]
pub open spec fn view_parameter(x: Parameter, d: nat) -> ParameterView
{
    ParameterView {
        name1: x.name1@,
        name2: x.name2@,
        dtype1: view_variable_type(x.dtype1, d),
        dtype2: view_variable_type(x.dtype2, d),
        ty: x.ty,
    }
}

/// The view of a `SimpleDeclaration` read at depth `d`.
#[verifier::opaque]
pub open spec fn view_simple_declaration(x: SimpleDeclaration, d: nat) -> SimpleDeclarationView
{
    SimpleDeclarationView {
        name1: x.name1@,
        name2: x.name2@,
        namespace: x.namespace@,
        u1: x.u1,
    }
}

/// The view of a `TemplateDeclaration` read at depth `d`.
#[verifier::opaque]
pub open spec fn view_template_declaration(x: TemplateDeclaration, d: nat) -> TemplateDeclarationView
{
    TemplateDeclarationView {
        name1: x.name1@,
        name2: x.name2@,
        namespace: x.namespace@,
        u1: x.u1,
        u2: x.u2,
    }
}

/// The view of a `ReturnValue` read at depth `d`.
#[verifier::opaque]
pub open spec fn view_return_value(x: ReturnValue, d: nat) -> ReturnValueView
{
    ReturnValueView {
        name1: x.name1@,
        name2: x.name2@,
        dtype1: view_variable_type(x.dtype1, d),
        dtype2: view_variable_type(x.dtype2, d),
    }
}

/// The view of a `DatasetDeclaration` read at depth `d`.
pub open spec fn view_dataset_declaration(x: DatasetDeclaration, d: nat) -> DatasetDeclarationView
    decreases d, 2nat, 0nat,
{
    DatasetDeclarationView {
        name1: x.name1@,
        name2: x.name2@,
        s1: x.s1@,
        properties: view_elements(x.properties@, d),
        variables: view_elements(x.variables@, d),
    }
}

/// The view of a `DOClassDeclaration` read at depth `d`.
pub open spec fn view_do_class_declaration(x: DOClassDeclaration, d: nat) -> DOClassDeclarationView
    decreases d, 2nat, 0nat,
{
    DOClassDeclarationView {
        name1: x.name1@,
        name2: x.name2@,
        s1: x.s1@,
        properties: view_elements(x.properties@, d),
        s2: x.s2@,
        u1: x.u1,
        elements: view_elements(x.elements@, d),
    }
}

/// The view of a `Action` read at depth `d`.
pub open spec fn view_action(x: Action, d: nat) -> ActionView
    decreases d, 2nat, 0nat,
{
    ActionView {
        name1: x.name1@,
        name2: x.name2@,
        u1: x.u1,
        u2: x.u2,
        elements: view_elements(x.elements@, d),
        u3: x.u3,
    }
}

/// The view of a `DupSpaceDeclaration` read at depth `d`.
pub open spec fn view_dup_space_declaration(x: DupSpaceDeclaration, d: nat) -> DupSpaceDeclarationView
    decreases d, 2nat, 0nat,
{
    DupSpaceDeclarationView {
        name1: x.name1@,
        name2: x.name2@,
        namespace: x.namespace@,
        elements: view_elements(x.elements@, d),
    }
}

/// The view of an element read at depth `d`.
pub open spec fn view_element(e: Element, d: nat) -> ElementView
    decreases d, 0nat, 0nat,
{
    if d == 0 {
        arbitrary()
    } else {
        match e {
            Element::DOClassDeclaration(x) => ElementView::DOClassDeclaration(view_do_class_declaration(x, (d - 1) as nat)),
            Element::DatasetDeclaration(x) => ElementView::DatasetDeclaration(view_dataset_declaration(x, (d - 1) as nat)),
            Element::Variable(x) => ElementView::Variable(view_variable(x, (d - 1) as nat)),
            Element::Method(x) => ElementView::Method(view_method(x, (d - 1) as nat)),
            Element::Action(x) => ElementView::Action(view_action(x, (d - 1) as nat)),
            Element::PropertyDeclaration(x) => ElementView::PropertyDeclaration(view_property_declaration(x, (d - 1) as nat)),
            Element::ProtocolDeclaration(x) => ElementView::ProtocolDeclaration(view_protocol_declaration(x, (d - 1) as nat)),
            Element::Parameter(x) => ElementView::Parameter(view_parameter(x, (d - 1) as nat)),
            Element::ReturnValue(x) => ElementView::ReturnValue(view_return_value(x, (d - 1) as nat)),
            Element::ClassDeclaration(x) => ElementView::ClassDeclaration(view_class_declaration(x, (d - 1) as nat)),
            Element::TemplateDeclaration(x) => ElementView::TemplateDeclaration(view_template_declaration(x, (d - 1) as nat)),
            Element::SimpleDeclaration(x) => ElementView::SimpleDeclaration(view_simple_declaration(x, (d - 1) as nat)),
            Element::TemplateInstance(x) => ElementView::TemplateInstance(view_template_instance(x, (d - 1) as nat)),
            Element::DDLUnitDeclaration(x) => ElementView::DDLUnitDeclaration(view_ddl_unit_declaration(x, (d - 1) as nat)),
            Element::DupSpaceDeclaration(x) => ElementView::DupSpaceDeclaration(view_dup_space_declaration(x, (d - 1) as nat)),
        }
    }
}

/// Whether `tag` names a kind of element.
pub open spec fn is_element_tag(tag: u8) -> bool {
    tag == 0x03 || tag == 0x04 || tag == 0x06 || tag == 0x08 || tag == 0x09 || tag == 0x0b || tag == 0x0c || tag == 0x0d || tag == 0x0e || tag == 0x0f || tag == 0x10 || tag == 0x11 || tag == 0x12 || tag == 0x13 || tag == 0x14
}

/// An element at the start of `data`, read at depth `d`: a tag byte, then
/// the declaration that the tag names.
pub open spec fn spec_element(data: Seq<u8>, d: nat) -> Result<(ElementView, nat), DdlError>
    decreases d, 0nat, 0nat,
{
    if data.len() < 1 {
        Err(DdlError::Incomplete)
    } else if !is_element_tag(data[0]) {
        Err(DdlError::InvalidTag(data[0]))
    } else if d == 0 {
        Err(DdlError::TooDeep)
    } else {
        let rest = data.skip(1);
        let e = (d - 1) as nat;
        if data[0] == 0x03 {
            match spec_do_class_declaration(rest, e) {
                Err(err) => Err(err),
                Ok((x, k)) => Ok((ElementView::DOClassDeclaration(x), 1 + k)),
            }
        } else if data[0] == 0x04 {
            match spec_dataset_declaration(rest, e) {
                Err(err) => Err(err),
                Ok((x, k)) => Ok((ElementView::DatasetDeclaration(x), 1 + k)),
            }
        } else if data[0] == 0x06 {
            match spec_variable(rest, e) {
                Err(err) => Err(err),
                Ok((x, k)) => Ok((ElementView::Variable(x), 1 + k)),
            }
        } else if data[0] == 0x08 {
            match spec_method(rest, e) {
                Err(err) => Err(err),
                Ok((x, k)) => Ok((ElementView::Method(x), 1 + k)),
            }
        } else if data[0] == 0x09 {
            match spec_action(rest, e) {
                Err(err) => Err(err),
                Ok((x, k)) => Ok((ElementView::Action(x), 1 + k)),
            }
        } else if data[0] == 0x0b {
            match spec_property_declaration(rest, e) {
                Err(err) => Err(err),
                Ok((x, k)) => Ok((ElementView::PropertyDeclaration(x), 1 + k)),
            }
        } else if data[0] == 0x0c {
            match spec_protocol_declaration(rest, e) {
                Err(err) => Err(err),
                Ok((x, k)) => Ok((ElementView::ProtocolDeclaration(x), 1 + k)),
            }
        } else if data[0] == 0x0d {
            match spec_parameter(rest, e) {
                Err(err) => Err(err),
                Ok((x, k)) => Ok((ElementView::Parameter(x), 1 + k)),
            }
        } else if data[0] == 0x0e {
            match spec_return_value(rest, e) {
                Err(err) => Err(err),
                Ok((x, k)) => Ok((ElementView::ReturnValue(x), 1 + k)),
            }
        } else if data[0] == 0x0f {
            match spec_class_declaration(rest, e) {
                Err(err) => Err(err),
                Ok((x, k)) => Ok((ElementView::ClassDeclaration(x), 1 + k)),
            }
        } else if data[0] == 0x10 {
            match spec_template_declaration(rest, e) {
                Err(err) => Err(err),
                Ok((x, k)) => Ok((ElementView::TemplateDeclaration(x), 1 + k)),
            }
        } else if data[0] == 0x11 {
            match spec_simple_declaration(rest, e) {
                Err(err) => Err(err),
                Ok((x, k)) => Ok((ElementView::SimpleDeclaration(x), 1 + k)),
            }
        } else if data[0] == 0x12 {
            match spec_template_instance(rest, e) {
                Err(err) => Err(err),
                Ok((x, k)) => Ok((ElementView::TemplateInstance(x), 1 + k)),
            }
        } else if data[0] == 0x13 {
            match spec_ddl_unit_declaration(rest, e) {
                Err(err) => Err(err),
                Ok((x, k)) => Ok((ElementView::DDLUnitDeclaration(x), 1 + k)),
            }
        } else if data[0] == 0x14 {
            match spec_dup_space_declaration(rest, e) {
                Err(err) => Err(err),
                Ok((x, k)) => Ok((ElementView::DupSpaceDeclaration(x), 1 + k)),
            }
        } else {
            Err(DdlError::InvalidTag(data[0]))
        }
    }
}


/// The `DDLUnitDeclaration` at the start of `data`, read at depth `d`.
pub open spec fn spec_ddl_unit_declaration(data: Seq<u8>, d: nat) -> Result<(DDLUnitDeclarationView, nat), DdlError>
    decreases d, 2nat, 0nat,
{
    match ddl_string(data) {
        Err(e) => Err(e),
        Ok((name1, n0)) => {
            let p0 = 0nat + n0;
            match ddl_string(data.skip(p0 as int)) {
                Err(e) => Err(e),
                Ok((name2, n1)) => {
                    let p1 = p0 + n1;
                    match ddl_string(data.skip(p1 as int)) {
                        Err(e) => Err(e),
                        Ok((name3, n2)) => {
                            let p2 = p1 + n2;
                            match spec_elements_list(data.skip(p2 as int), d) {
                                Err(e) => Err(e),
                                Ok((elements, n3)) => {
                                    let p3 = p2 + n3;
                                    match ddl_string(data.skip(p3 as int)) {
                                        Err(e) => Err(e),
                                        Ok((name4, n4)) => {
                                            let p4 = p3 + n4;
                                            match ddl_string(data.skip(p4 as int)) {
                                                Err(e) => Err(e),
                                                Ok((location, n5)) => {
                                                    let p5 = p4 + n5;
                                                    Ok((DDLUnitDeclarationView {
                                                        name1,
                                                        name2,
                                                        name3,
                                                        elements,
                                                        name4,
                                                        location,
                                                    }, p5))
                                                },
                                            }
                                        },
                                    }
                                },
                            }
                        },
                    }
                },
            }
        },
    }
}

/// The `ClassDeclaration` at the start of `data`, read at depth `d`.
pub open spec fn spec_class_declaration(data: Seq<u8>, d: nat) -> Result<(ClassDeclarationView, nat), DdlError>
    decreases d, 2nat, 0nat,
{
    match ddl_string(data) {
        Err(e) => Err(e),
        Ok((name1, n0)) => {
            let p0 = 0nat + n0;
            match ddl_string(data.skip(p0 as int)) {
                Err(e) => Err(e),
                Ok((name2, n1)) => {
                    let p1 = p0 + n1;
                    match ddl_string(data.skip(p1 as int)) {
                        Err(e) => Err(e),
                        Ok((namespace, n2)) => {
                            let p2 = p1 + n2;
                            match spec_elements_list(data.skip(p2 as int), d) {
                                Err(e) => Err(e),
                                Ok((properties, n3)) => {
                                    let p3 = p2 + n3;
                                    match ddl_string(data.skip(p3 as int)) {
                                        Err(e) => Err(e),
                                        Ok((maybe_base, n4)) => {
                                            let p4 = p3 + n4;
                                            match spec_elements_list(data.skip(p4 as int), d) {
                                                Err(e) => Err(e),
                                                Ok((variables, n5)) => {
                                                    let p5 = p4 + n5;
                                                    Ok((ClassDeclarationView {
                                                        name1,
                                                        name2,
                                                        namespace,
                                                        properties,
                                                        maybe_base,
                                                        variables,
                                                    }, p5))
                                                },
                                            }
                                        },
                                    }
                                },
                            }
                        },
                    }
                },
            }
        },
    }
}

/// The `PropertyDeclaration` at the start of `data`, read at depth `d`.
#[verifier::opaque]
pub open spec fn spec_property_declaration(data: Seq<u8>, d: nat) -> Result<(PropertyDeclarationView, nat), DdlError>
{
    match ddl_string(data) {
        Err(e) => Err(e),
        Ok((name1, n0)) => {
            let p0 = 0nat + n0;
            match ddl_string(data.skip(p0 as int)) {
                Err(e) => Err(e),
                Ok((name2, n1)) => {
                    let p1 = p0 + n1;
                    match ddl_string(data.skip(p1 as int)) {
                        Err(e) => Err(e),
                        Ok((name3, n2)) => {
                            let p2 = p1 + n2;
                            match ddl_u32(data.skip(p2 as int)) {
                                Err(e) => Err(e),
                                Ok((u1, n3)) => {
                                    let p3 = p2 + n3;
                                    match ddl_u32(data.skip(p3 as int)) {
                                        Err(e) => Err(e),
                                        Ok((u2, n4)) => {
                                            let p4 = p3 + n4;
                                            match ddl_u32(data.skip(p4 as int)) {
                                                Err(e) => Err(e),
                                                Ok((u3, n5)) => {
                                                    let p5 = p4 + n5;
                                                    Ok((PropertyDeclarationView {
                                                        name1,
                                                        name2,
                                                        name3,
                                                        u1,
                                                        u2,
                                                        u3,
                                                    }, p5))
                                                },
                                            }
                                        },
                                    }
                                },
                            }
                        },
                    }
                },
            }
        },
    }
}

/// The `Variable` at the start of `data`, read at depth `d`.
#[verifier::opaque]
pub open spec fn spec_variable(data: Seq<u8>, d: nat) -> Result<(VariableView, nat), DdlError>
{
    match ddl_string(data) {
        Err(e) => Err(e),
        Ok((name1, n0)) => {
            let p0 = 0nat + n0;
            match ddl_string(data.skip(p0 as int)) {
                Err(e) => Err(e),
                Ok((name2, n1)) => {
                    let p1 = p0 + n1;
                    match spec_variable_type(data.skip(p1 as int), d) {
                        Err(e) => Err(e),
                        Ok((ty, n2)) => {
                            let p2 = p1 + n2;
                            Ok((VariableView {
                                name1,
                                name2,
                                ty,
                            }, p2))
                        },
                    }
                },
            }
        },
    }
}

/// The `TemplateInstance` at the start of `data`, read at depth `d`.
#[verifier::opaque]
pub open spec fn spec_template_instance(data: Seq<u8>, d: nat) -> Result<(TemplateInstanceView, nat), DdlError>
{
    match ddl_string(data) {
        Err(e) => Err(e),
        Ok((name1, n0)) => {
            let p0 = 0nat + n0;
            match ddl_string(data.skip(p0 as int)) {
                Err(e) => Err(e),
                Ok((name2, n1)) => {
                    let p1 = p0 + n1;
                    match ddl_u32(data.skip(p1 as int)) {
                        Err(e) => Err(e),
                        Ok((u1, n2)) => {
                            let p2 = p1 + n2;
                            match ddl_u32(data.skip(p2 as int)) {
                                Err(e) => Err(e),
                                Ok((u2, n3)) => {
                                    let p3 = p2 + n3;
                                    match ddl_string(data.skip(p3 as int)) {
                                        Err(e) => Err(e),
                                        Ok((templ_name, n4)) => {
                                            let p4 = p3 + n4;
                                            match spec_strings_list(data.skip(p4 as int)) {
                                                Err(e) => Err(e),
                                                Ok((parameters, n5)) => {
                                                    let p5 = p4 + n5;
                                                    Ok((TemplateInstanceView {
                                                        name1,
                                                        name2,
                                                        u1,
                                                        u2,
                                                        templ_name,
                                                        parameters,
                                                    }, p5))
                                                },
                                            }
                                        },
                                    }
                                },
                            }
                        },
                    }
                },
            }
        },
    }
}

/// The `ProtocolDeclaration` at the start of `data`, read at depth `d`.
pub open spec fn spec_protocol_declaration(data: Seq<u8>, d: nat) -> Result<(ProtocolDeclarationView, nat), DdlError>
    decreases d, 2nat, 0nat,
{
    match ddl_string(data) {
        Err(e) => Err(e),
        Ok((name1, n0)) => {
            let p0 = 0nat + n0;
            match ddl_string(data.skip(p0 as int)) {
                Err(e) => Err(e),
                Ok((name2, n1)) => {
                    let p1 = p0 + n1;
                    match ddl_string(data.skip(p1 as int)) {
                        Err(e) => Err(e),
                        Ok((namespace, n2)) => {
                            let p2 = p1 + n2;
                            match ddl_u32(data.skip(p2 as int)) {
                                Err(e) => Err(e),
                                Ok((u1, n3)) => {
                                    let p3 = p2 + n3;
                                    match spec_elements_list(data.skip(p3 as int), d) {
                                        Err(e) => Err(e),
                                        Ok((methods, n4)) => {
                                            let p4 = p3 + n4;
                                            Ok((ProtocolDeclarationView {
                                                name1,
                                                name2,
                                                namespace,
                                                u1,
                                                methods,
                                                id: None,
                                            }, p4))
                                        },
                                    }
                                },
                            }
                        },
                    }
                },
            }
        },
    }
}

/// The `Method` at the start of `data`, read at depth `d`.
pub open spec fn spec_method(data: Seq<u8>, d: nat) -> Result<(MethodView, nat), DdlError>
    decreases d, 2nat, 0nat,
{
    match ddl_string(data) {
        Err(e) => Err(e),
        Ok((name1, n0)) => {
            let p0 = 0nat + n0;
            match ddl_string(data.skip(p0 as int)) {
                Err(e) => Err(e),
                Ok((name2, n1)) => {
                    let p1 = p0 + n1;
                    match ddl_u32(data.skip(p1 as int)) {
                        Err(e) => Err(e),
                        Ok((u1, n2)) => {
                            let p2 = p1 + n2;
                            match ddl_u32(data.skip(p2 as int)) {
                                Err(e) => Err(e),
                                Ok((u2, n3)) => {
                                    let p3 = p2 + n3;
                                    match spec_elements_list(data.skip(p3 as int), d) {
                                        Err(e) => Err(e),
                                        Ok((elements1, n4)) => {
                                            let p4 = p3 + n4;
                                            match spec_elements_list(data.skip(p4 as int), d) {
                                                Err(e) => Err(e),
                                                Ok((elements2, n5)) => {
                                                    let p5 = p4 + n5;
                                                    Ok((MethodView {
                                                        name1,
                                                        name2,
                                                        u1,
                                                        u2,
                                                        elements1,
                                                        elements2,
                                                    }, p5))
                                                },
                                            }
                                        },
                                    }
                                },
                            }
                        },
                    }
                },
            }
        },
    }
}

/// The `Parameter` at the start of `data`, read at depth `d`.
#[verifier::opaque]
pub open spec fn spec_parameter(data: Seq<u8>, d: nat) -> Result<(ParameterView, nat), DdlError>
{
    match ddl_string(data) {
        Err(e) => Err(e),
        Ok((name1, n0)) => {
            let p0 = 0nat + n0;
            match ddl_string(data.skip(p0 as int)) {
                Err(e) => Err(e),
                Ok((name2, n1)) => {
                    let p1 = p0 + n1;
                    match spec_variable_type(data.skip(p1 as int), d) {
                        Err(e) => Err(e),
                        Ok((dtype1, n2)) => {
                            let p2 = p1 + n2;
                            match spec_variable_type(data.skip(p2 as int), d) {
                                Err(e) => Err(e),
                                Ok((dtype2, n3)) => {
                                    let p3 = p2 + n3;
                                    match spec_parameter_type(data.skip(p3 as int)) {
                                        Err(e) => Err(e),
                                        Ok((ty, n4)) => {
                                            let p4 = p3 + n4;
                                            Ok((ParameterView {
                                                name1,
                                                name2,
                                                dtype1,
                                                dtype2,
                                                ty,
                                            }, p4))
                                        },
                                    }
                                },
                            }
                        },
                    }
                },
            }
        },
    }
}

/// The `SimpleDeclaration` at the start of `data`, read at depth `d`.
#[verifier::opaque]
pub open spec fn spec_simple_declaration(data: Seq<u8>, d: nat) -> Result<(SimpleDeclarationView, nat), DdlError>
{
    match ddl_string(data) {
        Err(e) => Err(e),
        Ok((name1, n0)) => {
            let p0 = 0nat + n0;
            match ddl_string(data.skip(p0 as int)) {
                Err(e) => Err(e),
                Ok((name2, n1)) => {
                    let p1 = p0 + n1;
                    match ddl_string(data.skip(p1 as int)) {
                        Err(e) => Err(e),
                        Ok((namespace, n2)) => {
                            let p2 = p1 + n2;
                            match ddl_u32(data.skip(p2 as int)) {
                                Err(e) => Err(e),
                                Ok((u1, n3)) => {
                                    let p3 = p2 + n3;
                                    Ok((SimpleDeclarationView {
                                        name1,
                                        name2,
                                        namespace,
                                        u1,
                                    }, p3))
                                },
                            }
                        },
                    }
                },
            }
        },
    }
}

/// The `TemplateDeclaration` at the start of `data`, read at depth `d`.
#[verifier::opaque]
pub open spec fn spec_template_declaration(data: Seq<u8>, d: nat) -> Result<(TemplateDeclarationView, nat), DdlError>
{
    match ddl_string(data) {
        Err(e) => Err(e),
        Ok((name1, n0)) => {
            let p0 = 0nat + n0;
            match ddl_string(data.skip(p0 as int)) {
                Err(e) => Err(e),
                Ok((name2, n1)) => {
                    let p1 = p0 + n1;
                    match ddl_string(data.skip(p1 as int)) {
                        Err(e) => Err(e),
                        Ok((namespace, n2)) => {
                            let p2 = p1 + n2;
                            match ddl_u32(data.skip(p2 as int)) {
                                Err(e) => Err(e),
                                Ok((u1, n3)) => {
                                    let p3 = p2 + n3;
                                    match ddl_u32(data.skip(p3 as int)) {
                                        Err(e) => Err(e),
                                        Ok((u2, n4)) => {
                                            let p4 = p3 + n4;
                                            Ok((TemplateDeclarationView {
                                                name1,
                                                name2,
                                                namespace,
                                                u1,
                                                u2,
                                            }, p4))
                                        },
                                    }
                                },
                            }
                        },
                    }
                },
            }
        },
    }
}

/// The `ReturnValue` at the start of `data`, read at depth `d`.
#[verifier::opaque]
pub open spec fn spec_return_value(data: Seq<u8>, d: nat) -> Result<(ReturnValueView, nat), DdlError>
{
    match ddl_string(data) {
        Err(e) => Err(e),
        Ok((name1, n0)) => {
            let p0 = 0nat + n0;
            match ddl_string(data.skip(p0 as int)) {
                Err(e) => Err(e),
                Ok((name2, n1)) => {
                    let p1 = p0 + n1;
                    match spec_variable_type(data.skip(p1 as int), d) {
                        Err(e) => Err(e),
                        Ok((dtype1, n2)) => {
                            let p2 = p1 + n2;
                            match spec_variable_type(data.skip(p2 as int), d) {
                                Err(e) => Err(e),
                                Ok((dtype2, n3)) => {
                                    let p3 = p2 + n3;
                                    Ok((ReturnValueView {
                                        name1,
                                        name2,
                                        dtype1,
                                        dtype2,
                                    }, p3))
                                },
                            }
                        },
                    }
                },
            }
        },
    }
}

/// The `DatasetDeclaration` at the start of `data`, read at depth `d`.
pub open spec fn spec_dataset_declaration(data: Seq<u8>, d: nat) -> Result<(DatasetDeclarationView, nat), DdlError>
    decreases d, 2nat, 0nat,
{
    match ddl_string(data) {
        Err(e) => Err(e),
        Ok((name1, n0)) => {
            let p0 = 0nat + n0;
            match ddl_string(data.skip(p0 as int)) {
                Err(e) => Err(e),
                Ok((name2, n1)) => {
                    let p1 = p0 + n1;
                    match ddl_string(data.skip(p1 as int)) {
                        Err(e) => Err(e),
                        Ok((s1, n2)) => {
                            let p2 = p1 + n2;
                            match spec_elements_list(data.skip(p2 as int), d) {
                                Err(e) => Err(e),
                                Ok((properties, n3)) => {
                                    let p3 = p2 + n3;
                                    match spec_elements_list(data.skip(p3 as int), d) {
                                        Err(e) => Err(e),
                                        Ok((variables, n4)) => {
                                            let p4 = p3 + n4;
                                            Ok((DatasetDeclarationView {
                                                name1,
                                                name2,
                                                s1,
                                                properties,
                                                variables,
                                            }, p4))
                                        },
                                    }
                                },
                            }
                        },
                    }
                },
            }
        },
    }
}

/// The `DOClassDeclaration` at the start of `data`, read at depth `d`.
pub open spec fn spec_do_class_declaration(data: Seq<u8>, d: nat) -> Result<(DOClassDeclarationView, nat), DdlError>
    decreases d, 2nat, 0nat,
{
    match ddl_string(data) {
        Err(e) => Err(e),
        Ok((name1, n0)) => {
            let p0 = 0nat + n0;
            match ddl_string(data.skip(p0 as int)) {
                Err(e) => Err(e),
                Ok((name2, n1)) => {
                    let p1 = p0 + n1;
                    match ddl_string(data.skip(p1 as int)) {
                        Err(e) => Err(e),
                        Ok((s1, n2)) => {
                            let p2 = p1 + n2;
                            match spec_elements_list(data.skip(p2 as int), d) {
                                Err(e) => Err(e),
                                Ok((properties, n3)) => {
                                    let p3 = p2 + n3;
                                    match ddl_string(data.skip(p3 as int)) {
                                        Err(e) => Err(e),
                                        Ok((s2, n4)) => {
                                            let p4 = p3 + n4;
                                            match ddl_u32(data.skip(p4 as int)) {
                                                Err(e) => Err(e),
                                                Ok((u1, n5)) => {
                                                    let p5 = p4 + n5;
                                                    match spec_elements_list(data.skip(p5 as int), d) {
                                                        Err(e) => Err(e),
                                                        Ok((elements, n6)) => {
                                                            let p6 = p5 + n6;
                                                            Ok((DOClassDeclarationView {
                                                                name1,
                                                                name2,
                                                                s1,
                                                                properties,
                                                                s2,
                                                                u1,
                                                                elements,
                                                            }, p6))
                                                        },
                                                    }
                                                },
                                            }
                                        },
                                    }
                                },
                            }
                        },
                    }
                },
            }
        },
    }
}

/// The `Action` at the start of `data`, read at depth `d`.
pub open spec fn spec_action(data: Seq<u8>, d: nat) -> Result<(ActionView, nat), DdlError>
    decreases d, 2nat, 0nat,
{
    match ddl_string(data) {
        Err(e) => Err(e),
        Ok((name1, n0)) => {
            let p0 = 0nat + n0;
            match ddl_string(data.skip(p0 as int)) {
                Err(e) => Err(e),
                Ok((name2, n1)) => {
                    let p1 = p0 + n1;
                    match ddl_u32(data.skip(p1 as int)) {
                        Err(e) => Err(e),
                        Ok((u1, n2)) => {
                            let p2 = p1 + n2;
                            match ddl_u32(data.skip(p2 as int)) {
                                Err(e) => Err(e),
                                Ok((u2, n3)) => {
                                    let p3 = p2 + n3;
                                    match spec_elements_list(data.skip(p3 as int), d) {
                                        Err(e) => Err(e),
                                        Ok((elements, n4)) => {
                                            let p4 = p3 + n4;
                                            match ddl_u32(data.skip(p4 as int)) {
                                                Err(e) => Err(e),
                                                Ok((u3, n5)) => {
                                                    let p5 = p4 + n5;
                                                    Ok((ActionView {
                                                        name1,
                                                        name2,
                                                        u1,
                                                        u2,
                                                        elements,
                                                        u3,
                                                    }, p5))
                                                },
                                            }
                                        },
                                    }
                                },
                            }
                        },
                    }
                },
            }
        },
    }
}

/// The `DupSpaceDeclaration` at the start of `data`, read at depth `d`.
pub open spec fn spec_dup_space_declaration(data: Seq<u8>, d: nat) -> Result<(DupSpaceDeclarationView, nat), DdlError>
    decreases d, 2nat, 0nat,
{
    match ddl_string(data) {
        Err(e) => Err(e),
        Ok((name1, n0)) => {
            let p0 = 0nat + n0;
            match ddl_string(data.skip(p0 as int)) {
                Err(e) => Err(e),
                Ok((name2, n1)) => {
                    let p1 = p0 + n1;
                    match ddl_string(data.skip(p1 as int)) {
                        Err(e) => Err(e),
                        Ok((namespace, n2)) => {
                            let p2 = p1 + n2;
                            match spec_elements_list(data.skip(p2 as int), d) {
                                Err(e) => Err(e),
                                Ok((elements, n3)) => {
                                    let p3 = p2 + n3;
                                    Ok((DupSpaceDeclarationView {
                                        name1,
                                        name2,
                                        namespace,
                                        elements,
                                    }, p3))
                                },
                            }
                        },
                    }
                },
            }
        },
    }
}

/// Reads a `DDLUnitDeclaration` at `pos`, at depth `d`.
pub fn parse_ddl_unit_declaration(data: &[u8], pos: usize, d: usize) -> (r: Result<(DDLUnitDeclaration, usize), DdlError>)
    requires
        pos <= data@.len(),
    ensures
        match spec_ddl_unit_declaration(data@.skip(pos as int), d as nat) {
            Ok((v, n)) => r matches Ok((x, p)) && view_ddl_unit_declaration(x, d as nat) == v && p == pos + n && p <= data@.len(),
            Err(e) => r == Err::<(DDLUnitDeclaration, usize), DdlError>(e),
        },
    decreases d, 2int, 0int,
{
    reveal_with_fuel(spec_ddl_unit_declaration, 1);
    reveal_with_fuel(view_ddl_unit_declaration, 1);
    let ghost s = data@.skip(pos as int);
    let (name1, q0) = match read_string(data, pos) {
        Ok(v) => v,
        Err(e) => return Err(e),
    };
    proof {
        lemma_skip_skip(data@, pos as int, q0 - pos);
    }
    let (name2, q1) = match read_string(data, q0) {
        Ok(v) => v,
        Err(e) => return Err(e),
    };
    proof {
        lemma_skip_skip(data@, pos as int, q1 - pos);
    }
    let (name3, q2) = match read_string(data, q1) {
        Ok(v) => v,
        Err(e) => return Err(e),
    };
    proof {
        lemma_skip_skip(data@, pos as int, q2 - pos);
    }
    let (elements, q3) = match parse_element_list(data, q2, d) {
        Ok(v) => v,
        Err(e) => return Err(e),
    };
    proof {
        lemma_skip_skip(data@, pos as int, q3 - pos);
    }
    let (name4, q4) = match read_string(data, q3) {
        Ok(v) => v,
        Err(e) => return Err(e),
    };
    proof {
        lemma_skip_skip(data@, pos as int, q4 - pos);
    }
    let (location, q5) = match read_string(data, q4) {
        Ok(v) => v,
        Err(e) => return Err(e),
    };
    proof {
        lemma_skip_skip(data@, pos as int, q5 - pos);
    }
    let x = DDLUnitDeclaration {
        name1,
        name2,
        name3,
        elements,
        name4,
        location,
    };
    Ok((x, q5))
}

/// Reads a `ClassDeclaration` at `pos`, at depth `d`.
pub fn parse_class_declaration(data: &[u8], pos: usize, d: usize) -> (r: Result<(ClassDeclaration, usize), DdlError>)
    requires
        pos <= data@.len(),
    ensures
        match spec_class_declaration(data@.skip(pos as int), d as nat) {
            Ok((v, n)) => r matches Ok((x, p)) && view_class_declaration(x, d as nat) == v && p == pos + n && p <= data@.len(),
            Err(e) => r == Err::<(ClassDeclaration, usize), DdlError>(e),
        },
    decreases d, 2int, 0int,
{
    reveal_with_fuel(spec_class_declaration, 1);
    reveal_with_fuel(view_class_declaration, 1);
    let ghost s = data@.skip(pos as int);
    let (name1, q0) = match read_string(data, pos) {
        Ok(v) => v,
        Err(e) => return Err(e),
    };
    proof {
        lemma_skip_skip(data@, pos as int, q0 - pos);
    }
    let (name2, q1) = match read_string(data, q0) {
        Ok(v) => v,
        Err(e) => return Err(e),
    };
    proof {
        lemma_skip_skip(data@, pos as int, q1 - pos);
    }
    let (namespace, q2) = match read_string(data, q1) {
        Ok(v) => v,
        Err(e) => return Err(e),
    };
    proof {
        lemma_skip_skip(data@, pos as int, q2 - pos);
    }
    let (properties, q3) = match parse_element_list(data, q2, d) {
        Ok(v) => v,
        Err(e) => return Err(e),
    };
    proof {
        lemma_skip_skip(data@, pos as int, q3 - pos);
    }
    let (maybe_base, q4) = match read_string(data, q3) {
        Ok(v) => v,
        Err(e) => return Err(e),
    };
    proof {
        lemma_skip_skip(data@, pos as int, q4 - pos);
    }
    let (variables, q5) = match parse_element_list(data, q4, d) {
        Ok(v) => v,
        Err(e) => return Err(e),
    };
    proof {
        lemma_skip_skip(data@, pos as int, q5 - pos);
    }
    let x = ClassDeclaration {
        name1,
        name2,
        namespace,
        properties,
        maybe_base,
        variables,
    };
    Ok((x, q5))
}

/// Reads a `PropertyDeclaration` at `pos`, at depth `d`.
pub fn parse_property_declaration(data: &[u8], pos: usize, d: usize) -> (r: Result<(PropertyDeclaration, usize), DdlError>)
    requires
        pos <= data@.len(),
    ensures
        match spec_property_declaration(data@.skip(pos as int), d as nat) {
            Ok((v, n)) => r matches Ok((x, p)) && view_property_declaration(x, d as nat) == v && p == pos + n && p <= data@.len(),
            Err(e) => r == Err::<(PropertyDeclaration, usize), DdlError>(e),
        },
    decreases d, 2int, 0int,
{
    reveal(spec_property_declaration);
    reveal(view_property_declaration);
    let ghost s = data@.skip(pos as int);
    let (name1, q0) = match read_string(data, pos) {
        Ok(v) => v,
        Err(e) => return Err(e),
    };
    proof {
        lemma_skip_skip(data@, pos as int, q0 - pos);
    }
    let (name2, q1) = match read_string(data, q0) {
        Ok(v) => v,
        Err(e) => return Err(e),
    };
    proof {
        lemma_skip_skip(data@, pos as int, q1 - pos);
    }
    let (name3, q2) = match read_string(data, q1) {
        Ok(v) => v,
        Err(e) => return Err(e),
    };
    proof {
        lemma_skip_skip(data@, pos as int, q2 - pos);
    }
    let (u1, q3) = match read_u32(data, q2) {
        Ok(v) => v,
        Err(e) => return Err(e),
    };
    proof {
        lemma_skip_skip(data@, pos as int, q3 - pos);
    }
    let (u2, q4) = match read_u32(data, q3) {
        Ok(v) => v,
        Err(e) => return Err(e),
    };
    proof {
        lemma_skip_skip(data@, pos as int, q4 - pos);
    }
    let (u3, q5) = match read_u32(data, q4) {
        Ok(v) => v,
        Err(e) => return Err(e),
    };
    proof {
        lemma_skip_skip(data@, pos as int, q5 - pos);
    }
    let x = PropertyDeclaration {
        name1,
        name2,
        name3,
        u1,
        u2,
        u3,
    };
    Ok((x, q5))
}

/// Reads a `Variable` at `pos`, at depth `d`.
pub fn parse_variable(data: &[u8], pos: usize, d: usize) -> (r: Result<(Variable, usize), DdlError>)
    requires
        pos <= data@.len(),
    ensures
        match spec_variable(data@.skip(pos as int), d as nat) {
            Ok((v, n)) => r matches Ok((x, p)) && view_variable(x, d as nat) == v && p == pos + n && p <= data@.len(),
            Err(e) => r == Err::<(Variable, usize), DdlError>(e),
        },
    decreases d, 2int, 0int,
{
    reveal(spec_variable);
    reveal(view_variable);
    let ghost s = data@.skip(pos as int);
    let (name1, q0) = match read_string(data, pos) {
        Ok(v) => v,
        Err(e) => return Err(e),
    };
    proof {
        lemma_skip_skip(data@, pos as int, q0 - pos);
    }
    let (name2, q1) = match read_string(data, q0) {
        Ok(v) => v,
        Err(e) => return Err(e),
    };
    proof {
        lemma_skip_skip(data@, pos as int, q1 - pos);
    }
    let (ty, q2) = match parse_variable_type(data, q1, d) {
        Ok(v) => v,
        Err(e) => return Err(e),
    };
    proof {
        lemma_skip_skip(data@, pos as int, q2 - pos);
    }
    let x = Variable {
        name1,
        name2,
        ty,
    };
    Ok((x, q2))
}

/// Reads a `TemplateInstance` at `pos`, at depth `d`.
pub fn parse_template_instance(data: &[u8], pos: usize, d: usize) -> (r: Result<(TemplateInstance, usize), DdlError>)
    requires
        pos <= data@.len(),
    ensures
        match spec_template_instance(data@.skip(pos as int), d as nat) {
            Ok((v, n)) => r matches Ok((x, p)) && view_template_instance(x, d as nat) == v && p == pos + n && p <= data@.len(),
            Err(e) => r == Err::<(TemplateInstance, usize), DdlError>(e),
        },
    decreases d, 2int, 0int,
{
    reveal(spec_template_instance);
    reveal(view_template_instance);
    let ghost s = data@.skip(pos as int);
    let (name1, q0) = match read_string(data, pos) {
        Ok(v) => v,
        Err(e) => return Err(e),
    };
    proof {
        lemma_skip_skip(data@, pos as int, q0 - pos);
    }
    let (name2, q1) = match read_string(data, q0) {
        Ok(v) => v,
        Err(e) => return Err(e),
    };
    proof {
        lemma_skip_skip(data@, pos as int, q1 - pos);
    }
    let (u1, q2) = match read_u32(data, q1) {
        Ok(v) => v,
        Err(e) => return Err(e),
    };
    proof {
        lemma_skip_skip(data@, pos as int, q2 - pos);
    }
    let (u2, q3) = match read_u32(data, q2) {
        Ok(v) => v,
        Err(e) => return Err(e),
    };
    proof {
        lemma_skip_skip(data@, pos as int, q3 - pos);
    }
    let (templ_name, q4) = match read_string(data, q3) {
        Ok(v) => v,
        Err(e) => return Err(e),
    };
    proof {
        lemma_skip_skip(data@, pos as int, q4 - pos);
    }
    let (parameters, q5) = match read_string_list(data, q4) {
        Ok(v) => v,
        Err(e) => return Err(e),
    };
    proof {
        lemma_skip_skip(data@, pos as int, q5 - pos);
    }
    let x = TemplateInstance {
        name1,
        name2,
        u1,
        u2,
        templ_name,
        parameters,
    };
    Ok((x, q5))
}

/// Reads a `ProtocolDeclaration` at `pos`, at depth `d`.
pub fn parse_protocol_declaration(data: &[u8], pos: usize, d: usize) -> (r: Result<(ProtocolDeclaration, usize), DdlError>)
    requires
        pos <= data@.len(),
    ensures
        match spec_protocol_declaration(data@.skip(pos as int), d as nat) {
            Ok((v, n)) => r matches Ok((x, p)) && view_protocol_declaration(x, d as nat) == v && p == pos + n && p <= data@.len(),
            Err(e) => r == Err::<(ProtocolDeclaration, usize), DdlError>(e),
        },
    decreases d, 2int, 0int,
{
    reveal_with_fuel(spec_protocol_declaration, 1);
    reveal_with_fuel(view_protocol_declaration, 1);
    let ghost s = data@.skip(pos as int);
    let (name1, q0) = match read_string(data, pos) {
        Ok(v) => v,
        Err(e) => return Err(e),
    };
    proof {
        lemma_skip_skip(data@, pos as int, q0 - pos);
    }
    let (name2, q1) = match read_string(data, q0) {
        Ok(v) => v,
        Err(e) => return Err(e),
    };
    proof {
        lemma_skip_skip(data@, pos as int, q1 - pos);
    }
    let (namespace, q2) = match read_string(data, q1) {
        Ok(v) => v,
        Err(e) => return Err(e),
    };
    proof {
        lemma_skip_skip(data@, pos as int, q2 - pos);
    }
    let (u1, q3) = match read_u32(data, q2) {
        Ok(v) => v,
        Err(e) => return Err(e),
    };
    proof {
        lemma_skip_skip(data@, pos as int, q3 - pos);
    }
    let (methods, q4) = match parse_element_list(data, q3, d) {
        Ok(v) => v,
        Err(e) => return Err(e),
    };
    proof {
        lemma_skip_skip(data@, pos as int, q4 - pos);
    }
    let x = ProtocolDeclaration {
        name1,
        name2,
        namespace,
        u1,
        methods,
        id: None,
    };
    Ok((x, q4))
}

/// Reads a `Method` at `pos`, at depth `d`.
pub fn parse_method(data: &[u8], pos: usize, d: usize) -> (r: Result<(Method, usize), DdlError>)
    requires
        pos <= data@.len(),
    ensures
        match spec_method(data@.skip(pos as int), d as nat) {
            Ok((v, n)) => r matches Ok((x, p)) && view_method(x, d as nat) == v && p == pos + n && p <= data@.len(),
            Err(e) => r == Err::<(Method, usize), DdlError>(e),
        },
    decreases d, 2int, 0int,
{
    reveal_with_fuel(spec_method, 1);
    reveal_with_fuel(view_method, 1);
    let ghost s = data@.skip(pos as int);
    let (name1, q0) = match read_string(data, pos) {
        Ok(v) => v,
        Err(e) => return Err(e),
    };
    proof {
        lemma_skip_skip(data@, pos as int, q0 - pos);
    }
    let (name2, q1) = match read_string(data, q0) {
        Ok(v) => v,
        Err(e) => return Err(e),
    };
    proof {
        lemma_skip_skip(data@, pos as int, q1 - pos);
    }
    let (u1, q2) = match read_u32(data, q1) {
        Ok(v) => v,
        Err(e) => return Err(e),
    };
    proof {
        lemma_skip_skip(data@, pos as int, q2 - pos);
    }
    let (u2, q3) = match read_u32(data, q2) {
        Ok(v) => v,
        Err(e) => return Err(e),
    };
    proof {
        lemma_skip_skip(data@, pos as int, q3 - pos);
    }
    let (elements1, q4) = match parse_element_list(data, q3, d) {
        Ok(v) => v,
        Err(e) => return Err(e),
    };
    proof {
        lemma_skip_skip(data@, pos as int, q4 - pos);
    }
    let (elements2, q5) = match parse_element_list(data, q4, d) {
        Ok(v) => v,
        Err(e) => return Err(e),
    };
    proof {
        lemma_skip_skip(data@, pos as int, q5 - pos);
    }
    let x = Method {
        name1,
        name2,
        u1,
        u2,
        elements1,
        elements2,
    };
    Ok((x, q5))
}

/// Reads a `Parameter` at `pos`, at depth `d`.
pub fn parse_parameter(data: &[u8], pos: usize, d: usize) -> (r: Result<(Parameter, usize), DdlError>)
    requires
        pos <= data@.len(),
    ensures
        match spec_parameter(data@.skip(pos as int), d as nat) {
            Ok((v, n)) => r matches Ok((x, p)) && view_parameter(x, d as nat) == v && p == pos + n && p <= data@.len(),
            Err(e) => r == Err::<(Parameter, usize), DdlError>(e),
        },
    decreases d, 2int, 0int,
{
    reveal(spec_parameter);
    reveal(view_parameter);
    let ghost s = data@.skip(pos as int);
    let (name1, q0) = match read_string(data, pos) {
        Ok(v) => v,
        Err(e) => return Err(e),
    };
    proof {
        lemma_skip_skip(data@, pos as int, q0 - pos);
    }
    let (name2, q1) = match read_string(data, q0) {
        Ok(v) => v,
        Err(e) => return Err(e),
    };
    proof {
        lemma_skip_skip(data@, pos as int, q1 - pos);
    }
    let (dtype1, q2) = match parse_variable_type(data, q1, d) {
        Ok(v) => v,
        Err(e) => return Err(e),
    };
    proof {
        lemma_skip_skip(data@, pos as int, q2 - pos);
    }
    let (dtype2, q3) = match parse_variable_type(data, q2, d) {
        Ok(v) => v,
        Err(e) => return Err(e),
    };
    proof {
        lemma_skip_skip(data@, pos as int, q3 - pos);
    }
    let (ty, q4) = match parse_parameter_type(data, q3) {
        Ok(v) => v,
        Err(e) => return Err(e),
    };
    proof {
        lemma_skip_skip(data@, pos as int, q4 - pos);
    }
    let x = Parameter {
        name1,
        name2,
        dtype1,
        dtype2,
        ty,
    };
    Ok((x, q4))
}

/// Reads a `SimpleDeclaration` at `pos`, at depth `d`.
pub fn parse_simple_declaration(data: &[u8], pos: usize, d: usize) -> (r: Result<(SimpleDeclaration, usize), DdlError>)
    requires
        pos <= data@.len(),
    ensures
        match spec_simple_declaration(data@.skip(pos as int), d as nat) {
            Ok((v, n)) => r matches Ok((x, p)) && view_simple_declaration(x, d as nat) == v && p == pos + n && p <= data@.len(),
            Err(e) => r == Err::<(SimpleDeclaration, usize), DdlError>(e),
        },
    decreases d, 2int, 0int,
{
    reveal(spec_simple_declaration);
    reveal(view_simple_declaration);
    let ghost s = data@.skip(pos as int);
    let (name1, q0) = match read_string(data, pos) {
        Ok(v) => v,
        Err(e) => return Err(e),
    };
    proof {
        lemma_skip_skip(data@, pos as int, q0 - pos);
    }
    let (name2, q1) = match read_string(data, q0) {
        Ok(v) => v,
        Err(e) => return Err(e),
    };
    proof {
        lemma_skip_skip(data@, pos as int, q1 - pos);
    }
    let (namespace, q2) = match read_string(data, q1) {
        Ok(v) => v,
        Err(e) => return Err(e),
    };
    proof {
        lemma_skip_skip(data@, pos as int, q2 - pos);
    }
    let (u1, q3) = match read_u32(data, q2) {
        Ok(v) => v,
        Err(e) => return Err(e),
    };
    proof {
        lemma_skip_skip(data@, pos as int, q3 - pos);
    }
    let x = SimpleDeclaration {
        name1,
        name2,
        namespace,
        u1,
    };
    Ok((x, q3))
}

/// Reads a `TemplateDeclaration` at `pos`, at depth `d`.
pub fn parse_template_declaration(data: &[u8], pos: usize, d: usize) -> (r: Result<(TemplateDeclaration, usize), DdlError>)
    requires
        pos <= data@.len(),
    ensures
        match spec_template_declaration(data@.skip(pos as int), d as nat) {
            Ok((v, n)) => r matches Ok((x, p)) && view_template_declaration(x, d as nat) == v && p == pos + n && p <= data@.len(),
            Err(e) => r == Err::<(TemplateDeclaration, usize), DdlError>(e),
        },
    decreases d, 2int, 0int,
{
    reveal(spec_template_declaration);
    reveal(view_template_declaration);
    let ghost s = data@.skip(pos as int);
    let (name1, q0) = match read_string(data, pos) {
        Ok(v) => v,
        Err(e) => return Err(e),
    };
    proof {
        lemma_skip_skip(data@, pos as int, q0 - pos);
    }
    let (name2, q1) = match read_string(data, q0) {
        Ok(v) => v,
        Err(e) => return Err(e),
    };
    proof {
        lemma_skip_skip(data@, pos as int, q1 - pos);
    }
    let (namespace, q2) = match read_string(data, q1) {
        Ok(v) => v,
        Err(e) => return Err(e),
    };
    proof {
        lemma_skip_skip(data@, pos as int, q2 - pos);
    }
    let (u1, q3) = match read_u32(data, q2) {
        Ok(v) => v,
        Err(e) => return Err(e),
    };
    proof {
        lemma_skip_skip(data@, pos as int, q3 - pos);
    }
    let (u2, q4) = match read_u32(data, q3) {
        Ok(v) => v,
        Err(e) => return Err(e),
    };
    proof {
        lemma_skip_skip(data@, pos as int, q4 - pos);
    }
    let x = TemplateDeclaration {
        name1,
        name2,
        namespace,
        u1,
        u2,
    };
    Ok((x, q4))
}

/// Reads a `ReturnValue` at `pos`, at depth `d`.
pub fn parse_return_value(data: &[u8], pos: usize, d: usize) -> (r: Result<(ReturnValue, usize), DdlError>)
    requires
        pos <= data@.len(),
    ensures
        match spec_return_value(data@.skip(pos as int), d as nat) {
            Ok((v, n)) => r matches Ok((x, p)) && view_return_value(x, d as nat) == v && p == pos + n && p <= data@.len(),
            Err(e) => r == Err::<(ReturnValue, usize), DdlError>(e),
        },
    decreases d, 2int, 0int,
{
    reveal(spec_return_value);
    reveal(view_return_value);
    let ghost s = data@.skip(pos as int);
    let (name1, q0) = match read_string(data, pos) {
        Ok(v) => v,
        Err(e) => return Err(e),
    };
    proof {
        lemma_skip_skip(data@, pos as int, q0 - pos);
    }
    let (name2, q1) = match read_string(data, q0) {
        Ok(v) => v,
        Err(e) => return Err(e),
    };
    proof {
        lemma_skip_skip(data@, pos as int, q1 - pos);
    }
    let (dtype1, q2) = match parse_variable_type(data, q1, d) {
        Ok(v) => v,
        Err(e) => return Err(e),
    };
    proof {
        lemma_skip_skip(data@, pos as int, q2 - pos);
    }
    let (dtype2, q3) = match parse_variable_type(data, q2, d) {
        Ok(v) => v,
        Err(e) => return Err(e),
    };
    proof {
        lemma_skip_skip(data@, pos as int, q3 - pos);
    }
    let x = ReturnValue {
        name1,
        name2,
        dtype1,
        dtype2,
    };
    Ok((x, q3))
}

/// Reads a `DatasetDeclaration` at `pos`, at depth `d`.
pub fn parse_dataset_declaration(data: &[u8], pos: usize, d: usize) -> (r: Result<(DatasetDeclaration, usize), DdlError>)
    requires
        pos <= data@.len(),
    ensures
        match spec_dataset_declaration(data@.skip(pos as int), d as nat) {
            Ok((v, n)) => r matches Ok((x, p)) && view_dataset_declaration(x, d as nat) == v && p == pos + n && p <= data@.len(),
            Err(e) => r == Err::<(DatasetDeclaration, usize), DdlError>(e),
        },
    decreases d, 2int, 0int,
{
    reveal_with_fuel(spec_dataset_declaration, 1);
    reveal_with_fuel(view_dataset_declaration, 1);
    let ghost s = data@.skip(pos as int);
    let (name1, q0) = match read_string(data, pos) {
        Ok(v) => v,
        Err(e) => return Err(e),
    };
    proof {
        lemma_skip_skip(data@, pos as int, q0 - pos);
    }
    let (name2, q1) = match read_string(data, q0) {
        Ok(v) => v,
        Err(e) => return Err(e),
    };
    proof {
        lemma_skip_skip(data@, pos as int, q1 - pos);
    }
    let (s1, q2) = match read_string(data, q1) {
        Ok(v) => v,
        Err(e) => return Err(e),
    };
    proof {
        lemma_skip_skip(data@, pos as int, q2 - pos);
    }
    let (properties, q3) = match parse_element_list(data, q2, d) {
        Ok(v) => v,
        Err(e) => return Err(e),
    };
    proof {
        lemma_skip_skip(data@, pos as int, q3 - pos);
    }
    let (variables, q4) = match parse_element_list(data, q3, d) {
        Ok(v) => v,
        Err(e) => return Err(e),
    };
    proof {
        lemma_skip_skip(data@, pos as int, q4 - pos);
    }
    let x = DatasetDeclaration {
        name1,
        name2,
        s1,
        properties,
        variables,
    };
    Ok((x, q4))
}

/// Reads a `DOClassDeclaration` at `pos`, at depth `d`.
pub fn parse_do_class_declaration(data: &[u8], pos: usize, d: usize) -> (r: Result<(DOClassDeclaration, usize), DdlError>)
    requires
        pos <= data@.len(),
    ensures
        match spec_do_class_declaration(data@.skip(pos as int), d as nat) {
            Ok((v, n)) => r matches Ok((x, p)) && view_do_class_declaration(x, d as nat) == v && p == pos + n && p <= data@.len(),
            Err(e) => r == Err::<(DOClassDeclaration, usize), DdlError>(e),
        },
    decreases d, 2int, 0int,
{
    reveal_with_fuel(spec_do_class_declaration, 1);
    reveal_with_fuel(view_do_class_declaration, 1);
    let ghost s = data@.skip(pos as int);
    let (name1, q0) = match read_string(data, pos) {
        Ok(v) => v,
        Err(e) => return Err(e),
    };
    proof {
        lemma_skip_skip(data@, pos as int, q0 - pos);
    }
    let (name2, q1) = match read_string(data, q0) {
        Ok(v) => v,
        Err(e) => return Err(e),
    };
    proof {
        lemma_skip_skip(data@, pos as int, q1 - pos);
    }
    let (s1, q2) = match read_string(data, q1) {
        Ok(v) => v,
        Err(e) => return Err(e),
    };
    proof {
        lemma_skip_skip(data@, pos as int, q2 - pos);
    }
    let (properties, q3) = match parse_element_list(data, q2, d) {
        Ok(v) => v,
        Err(e) => return Err(e),
    };
    proof {
        lemma_skip_skip(data@, pos as int, q3 - pos);
    }
    let (s2, q4) = match read_string(data, q3) {
        Ok(v) => v,
        Err(e) => return Err(e),
    };
    proof {
        lemma_skip_skip(data@, pos as int, q4 - pos);
    }
    let (u1, q5) = match read_u32(data, q4) {
        Ok(v) => v,
        Err(e) => return Err(e),
    };
    proof {
        lemma_skip_skip(data@, pos as int, q5 - pos);
    }
    let (elements, q6) = match parse_element_list(data, q5, d) {
        Ok(v) => v,
        Err(e) => return Err(e),
    };
    proof {
        lemma_skip_skip(data@, pos as int, q6 - pos);
    }
    let x = DOClassDeclaration {
        name1,
        name2,
        s1,
        properties,
        s2,
        u1,
        elements,
    };
    Ok((x, q6))
}

/// Reads a `Action` at `pos`, at depth `d`.
pub fn parse_action(data: &[u8], pos: usize, d: usize) -> (r: Result<(Action, usize), DdlError>)
    requires
        pos <= data@.len(),
    ensures
        match spec_action(data@.skip(pos as int), d as nat) {
            Ok((v, n)) => r matches Ok((x, p)) && view_action(x, d as nat) == v && p == pos + n && p <= data@.len(),
            Err(e) => r == Err::<(Action, usize), DdlError>(e),
        },
    decreases d, 2int, 0int,
{
    reveal_with_fuel(spec_action, 1);
    reveal_with_fuel(view_action, 1);
    let ghost s = data@.skip(pos as int);
    let (name1, q0) = match read_string(data, pos) {
        Ok(v) => v,
        Err(e) => return Err(e),
    };
    proof {
        lemma_skip_skip(data@, pos as int, q0 - pos);
    }
    let (name2, q1) = match read_string(data, q0) {
        Ok(v) => v,
        Err(e) => return Err(e),
    };
    proof {
        lemma_skip_skip(data@, pos as int, q1 - pos);
    }
    let (u1, q2) = match read_u32(data, q1) {
        Ok(v) => v,
        Err(e) => return Err(e),
    };
    proof {
        lemma_skip_skip(data@, pos as int, q2 - pos);
    }
    let (u2, q3) = match read_u32(data, q2) {
        Ok(v) => v,
        Err(e) => return Err(e),
    };
    proof {
        lemma_skip_skip(data@, pos as int, q3 - pos);
    }
    let (elements, q4) = match parse_element_list(data, q3, d) {
        Ok(v) => v,
        Err(e) => return Err(e),
    };
    proof {
        lemma_skip_skip(data@, pos as int, q4 - pos);
    }
    let (u3, q5) = match read_u32(data, q4) {
        Ok(v) => v,
        Err(e) => return Err(e),
    };
    proof {
        lemma_skip_skip(data@, pos as int, q5 - pos);
    }
    let x = Action {
        name1,
        name2,
        u1,
        u2,
        elements,
        u3,
    };
    Ok((x, q5))
}

/// Reads a `DupSpaceDeclaration` at `pos`, at depth `d`.
pub fn parse_dup_space_declaration(data: &[u8], pos: usize, d: usize) -> (r: Result<(DupSpaceDeclaration, usize), DdlError>)
    requires
        pos <= data@.len(),
    ensures
        match spec_dup_space_declaration(data@.skip(pos as int), d as nat) {
            Ok((v, n)) => r matches Ok((x, p)) && view_dup_space_declaration(x, d as nat) == v && p == pos + n && p <= data@.len(),
            Err(e) => r == Err::<(DupSpaceDeclaration, usize), DdlError>(e),
        },
    decreases d, 2int, 0int,
{
    reveal_with_fuel(spec_dup_space_declaration, 1);
    reveal_with_fuel(view_dup_space_declaration, 1);
    let ghost s = data@.skip(pos as int);
    let (name1, q0) = match read_string(data, pos) {
        Ok(v) => v,
        Err(e) => return Err(e),
    };
    proof {
        lemma_skip_skip(data@, pos as int, q0 - pos);
    }
    let (name2, q1) = match read_string(data, q0) {
        Ok(v) => v,
        Err(e) => return Err(e),
    };
    proof {
        lemma_skip_skip(data@, pos as int, q1 - pos);
    }
    let (namespace, q2) = match read_string(data, q1) {
        Ok(v) => v,
        Err(e) => return Err(e),
    };
    proof {
        lemma_skip_skip(data@, pos as int, q2 - pos);
    }
    let (elements, q3) = match parse_element_list(data, q2, d) {
        Ok(v) => v,
        Err(e) => return Err(e),
    };
    proof {
        lemma_skip_skip(data@, pos as int, q3 - pos);
    }
    let x = DupSpaceDeclaration {
        name1,
        name2,
        namespace,
        elements,
    };
    Ok((x, q3))
}

/// Reads an element at `pos`, at depth `d`.
pub fn parse_element(data: &[u8], pos: usize, d: usize) -> (r: Result<(Element, usize), DdlError>)
    requires
        pos <= data@.len(),
    ensures
        match spec_element(data@.skip(pos as int), d as nat) {
            Ok((v, n)) => r matches Ok((x, p)) && view_element(x, d as nat) == v && p == pos + n && p <= data@.len(),
            Err(e) => r == Err::<(Element, usize), DdlError>(e),
        },
    decreases d, 0int, 0int,
{
    reveal_with_fuel(spec_element, 1);
    reveal_with_fuel(view_element, 1);
    if data.len() - pos < 1 {
        return Err(DdlError::Incomplete);
    }
    let tag = data[pos];
    assert(data@.skip(pos as int)[0] == tag);
    let known = tag == 0x03 || tag == 0x04 || tag == 0x06 || tag == 0x08 || tag == 0x09 || tag == 0x0b || tag == 0x0c || tag == 0x0d || tag == 0x0e || tag == 0x0f || tag == 0x10 || tag == 0x11 || tag == 0x12 || tag == 0x13 || tag == 0x14;
    if !known {
        return Err(DdlError::InvalidTag(tag));
    }
    if d == 0 {
        return Err(DdlError::TooDeep);
    }
    proof {
        lemma_skip_skip(data@, pos as int, 1);
    }
    if tag == 0x03 {
        match parse_do_class_declaration(data, pos + 1, d - 1) {
            Ok((x, p)) => Ok((Element::DOClassDeclaration(x), p)),
            Err(e) => Err(e),
        }
    } else if tag == 0x04 {
        match parse_dataset_declaration(data, pos + 1, d - 1) {
            Ok((x, p)) => Ok((Element::DatasetDeclaration(x), p)),
            Err(e) => Err(e),
        }
    } else if tag == 0x06 {
        match parse_variable(data, pos + 1, d - 1) {
            Ok((x, p)) => Ok((Element::Variable(x), p)),
            Err(e) => Err(e),
        }
    } else if tag == 0x08 {
        match parse_method(data, pos + 1, d - 1) {
            Ok((x, p)) => Ok((Element::Method(x), p)),
            Err(e) => Err(e),
        }
    } else if tag == 0x09 {
        match parse_action(data, pos + 1, d - 1) {
            Ok((x, p)) => Ok((Element::Action(x), p)),
            Err(e) => Err(e),
        }
    } else if tag == 0x0b {
        match parse_property_declaration(data, pos + 1, d - 1) {
            Ok((x, p)) => Ok((Element::PropertyDeclaration(x), p)),
            Err(e) => Err(e),
        }
    } else if tag == 0x0c {
        match parse_protocol_declaration(data, pos + 1, d - 1) {
            Ok((x, p)) => Ok((Element::ProtocolDeclaration(x), p)),
            Err(e) => Err(e),
        }
    } else if tag == 0x0d {
        match parse_parameter(data, pos + 1, d - 1) {
            Ok((x, p)) => Ok((Element::Parameter(x), p)),
            Err(e) => Err(e),
        }
    } else if tag == 0x0e {
        match parse_return_value(data, pos + 1, d - 1) {
            Ok((x, p)) => Ok((Element::ReturnValue(x), p)),
            Err(e) => Err(e),
        }
    } else if tag == 0x0f {
        match parse_class_declaration(data, pos + 1, d - 1) {
            Ok((x, p)) => Ok((Element::ClassDeclaration(x), p)),
            Err(e) => Err(e),
        }
    } else if tag == 0x10 {
        match parse_template_declaration(data, pos + 1, d - 1) {
            Ok((x, p)) => Ok((Element::TemplateDeclaration(x), p)),
            Err(e) => Err(e),
        }
    } else if tag == 0x11 {
        match parse_simple_declaration(data, pos + 1, d - 1) {
            Ok((x, p)) => Ok((Element::SimpleDeclaration(x), p)),
            Err(e) => Err(e),
        }
    } else if tag == 0x12 {
        match parse_template_instance(data, pos + 1, d - 1) {
            Ok((x, p)) => Ok((Element::TemplateInstance(x), p)),
            Err(e) => Err(e),
        }
    } else if tag == 0x13 {
        match parse_ddl_unit_declaration(data, pos + 1, d - 1) {
            Ok((x, p)) => Ok((Element::DDLUnitDeclaration(x), p)),
            Err(e) => Err(e),
        }
    } else if tag == 0x14 {
        match parse_dup_space_declaration(data, pos + 1, d - 1) {
            Ok((x, p)) => Ok((Element::DupSpaceDeclaration(x), p)),
            Err(e) => Err(e),
        }
    } else {
        Err(DdlError::InvalidTag(tag))
    }
}

// ---------------------------------------------------------------------------
// Reading
// ---------------------------------------------------------------------------

/// Reads a big-endian `u32` at `pos`.
pub fn read_u32(data: &[u8], pos: usize) -> (r: Result<(u32, usize), DdlError>)
    requires
        pos <= data@.len(),
    ensures
        match ddl_u32(data@.skip(pos as int)) {
            Ok((v, n)) => r matches Ok((x, p)) && x == v && p == pos + n && p <= data@.len(),
            Err(e) => r == Err::<(u32, usize), DdlError>(e),
        },
{
    reveal(ddl_u32);
    if data.len() - pos < 4 {
        return Err(DdlError::Incomplete);
    }
    let ghost s = data@.skip(pos as int);
    assert(s[0] == data[pos as int] && s[1] == data[pos + 1] && s[2] == data[pos + 2] && s[3] == data[pos + 3]);
    let v = data[pos] as u32 * 0x100_0000 + data[pos + 1] as u32 * 0x1_0000 + data[pos + 2] as u32 * 0x100
        + data[pos + 3] as u32;
    Ok((v, pos + 4))
}

/// Reads a string at `pos`.
pub fn read_string(data: &[u8], pos: usize) -> (r: Result<(String, usize), DdlError>)
    requires
        pos <= data@.len(),
    ensures
        match ddl_string(data@.skip(pos as int)) {
            Ok((v, n)) => r matches Ok((x, p)) && x@ == v && p == pos + n && p <= data@.len(),
            Err(e) => r == Err::<(String, usize), DdlError>(e),
        },
{
    reveal(ddl_string);
    reveal(ddl_u32);
    let (len, p) = match read_u32(data, pos) {
        Ok(v) => v,
        Err(e) => return Err(e),
    };
    if data.len() - p < len as usize {
        return Err(DdlError::Incomplete);
    }
    let end = p + len as usize;
    let bytes = slice_vec(data, p, end);
    assert(bytes@ =~= data@.skip(pos as int).subrange(4, 4 + len));
    match string_from_utf8(bytes) {
        Some(s) => Ok((s, end)),
        None => Err(DdlError::InvalidUtf8),
    }
}

/// Reads a list of strings at `pos`.
pub fn read_string_list(data: &[u8], pos: usize) -> (r: Result<(Vec<String>, usize), DdlError>)
    requires
        pos <= data@.len(),
    ensures
        match spec_strings_list(data@.skip(pos as int)) {
            Ok((v, n)) => r matches Ok((x, p)) && view_strings(x@) == v && p == pos + n && p <= data@.len(),
            Err(e) => r == Err::<(Vec<String>, usize), DdlError>(e),
        },
{
    reveal(ddl_u32);
    let (count, start) = match read_u32(data, pos) {
        Ok(v) => v,
        Err(e) => return Err(e),
    };
    proof {
        lemma_skip_skip(data@, pos as int, 4);
    }
    let ghost s0 = data@.skip(start as int);
    let mut out: Vec<String> = Vec::new();
    let mut p = start;
    let mut i: u32 = 0;
    assert(view_strings(out@) =~= Seq::<Seq<char>>::empty());
    proof {
        let t = spec_strings(s0, count as nat);
        if t is Ok {
            assert(Seq::<Seq<char>>::empty() + t->Ok_0.0 =~= t->Ok_0.0);
        }
        assert(data@.skip(pos as int).skip(4) =~= s0);
    }
    while i < count
        invariant
            start == pos + 4,
            start <= p <= data@.len(),
            i <= count,
            s0 == data@.skip(start as int),
            spec_strings_list(data@.skip(pos as int)) == match spec_strings(s0, count as nat) {
                Ok((v, m)) => Ok((v, 4 + m)),
                Err(e) => Err::<(Seq<Seq<char>>, nat), DdlError>(e),
            },
            spec_strings(s0, count as nat) == match spec_strings(data@.skip(p as int), (count - i) as nat) {
                Ok((rest, m)) => Ok((view_strings(out@) + rest, ((p - start) + m) as nat)),
                Err(e) => Err::<(Seq<Seq<char>>, nat), DdlError>(e),
            },
        decreases count - i,
    {
        let ghost before = out@;
        let (x, q) = match read_string(data, p) {
            Ok(v) => v,
            Err(e) => return Err(e),
        };
        proof {
            lemma_skip_skip(data@, p as int, q - p);
        }
        out.push(x);
        assert(view_strings(out@) =~= view_strings(before) + seq![x@]);
        proof {
            let t = spec_strings(data@.skip(q as int), (count - i - 1) as nat);
            if t is Ok {
                assert(view_strings(before) + (seq![x@] + t->Ok_0.0) =~= view_strings(out@) + t->Ok_0.0);
            }
        }
        p = q;
        i = i + 1;
    }
    assert(view_strings(out@) + Seq::<Seq<char>>::empty() =~= view_strings(out@));
    Ok((out, p))
}

/// Reads a parameter direction at `pos`.
pub fn parse_parameter_type(data: &[u8], pos: usize) -> (r: Result<(ParameterType, usize), DdlError>)
    requires
        pos <= data@.len(),
    ensures
        match spec_parameter_type(data@.skip(pos as int)) {
            Ok((v, n)) => r matches Ok((x, p)) && x == v && p == pos + n && p <= data@.len(),
            Err(e) => r == Err::<(ParameterType, usize), DdlError>(e),
        },
{
    if data.len() - pos < 1 {
        return Err(DdlError::Incomplete);
    }
    let tag = data[pos];
    assert(data@.skip(pos as int)[0] == tag);
    if tag == 1 {
        Ok((ParameterType::Request, pos + 1))
    } else if tag == 2 {
        Ok((ParameterType::Response, pos + 1))
    } else if tag == 3 {
        Ok((ParameterType::Unknown, pos + 1))
    } else if tag == 0 {
        Ok((ParameterType::Unknown2, pos + 1))
    } else {
        Err(DdlError::InvalidTag(tag))
    }
}

/// Reads a subtype at `pos`, at depth `d`.
pub fn parse_subtype(data: &[u8], pos: usize, d: usize) -> (r: Result<(SubType, usize), DdlError>)
    requires
        pos <= data@.len(),
    ensures
        match spec_subtype(data@.skip(pos as int), d as nat) {
            Ok((v, n)) => r matches Ok((x, p)) && view_subtype(x, d as nat) == v && p == pos + n && p <= data@.len(),
            Err(e) => r == Err::<(SubType, usize), DdlError>(e),
        },
    decreases d, 0int, 0int,
{
    reveal_with_fuel(spec_subtype, 1);
    reveal_with_fuel(view_subtype, 1);
    if data.len() - pos < 1 {
        return Err(DdlError::Incomplete);
    }
    let tag = data[pos];
    assert(data@.skip(pos as int)[0] == tag);
    proof {
        lemma_skip_skip(data@, pos as int, 1);
    }
    if tag == 0x03 || tag == 0x04 || tag == 0x0f || tag == 0x11 {
        let (s, p) = match read_string(data, pos + 1) {
            Ok(v) => v,
            Err(e) => return Err(e),
        };
        let x = if tag == 0x03 {
            SubType::DOClass(s)
        } else if tag == 0x04 {
            SubType::Dataset(s)
        } else if tag == 0x0f {
            SubType::Class(s)
        } else {
            SubType::Simple(s)
        };
        Ok((x, p))
    } else if tag == 0x12 {
        if d == 0 {
            return Err(DdlError::TooDeep);
        }
        match parse_template_type(data, pos + 1, d - 1) {
            Ok((t, p)) => Ok((SubType::Template(t), p)),
            Err(e) => Err(e),
        }
    } else {
        Err(DdlError::InvalidTag(tag))
    }
}

/// Reads a list of subtypes at `pos`, at depth `d`.
pub fn parse_subtype_list(data: &[u8], pos: usize, d: usize) -> (r: Result<(Vec<SubType>, usize), DdlError>)
    requires
        pos <= data@.len(),
    ensures
        match spec_subtypes_list(data@.skip(pos as int), d as nat) {
            Ok((v, n)) => r matches Ok((x, p)) && view_subtypes(x@, d as nat) == v && p == pos + n && p <= data@.len(),
            Err(e) => r == Err::<(Vec<SubType>, usize), DdlError>(e),
        },
    decreases d, 1int, 256int,
{
    reveal_with_fuel(spec_subtypes_list, 1);
    if data.len() - pos < 1 {
        return Err(DdlError::Incomplete);
    }
    let count = data[pos];
    assert(data@.skip(pos as int)[0] == count);
    let start = pos + 1;
    proof {
        lemma_skip_skip(data@, pos as int, 1);
    }
    let ghost s0 = data@.skip(start as int);
    let mut out: Vec<SubType> = Vec::new();
    let mut p = start;
    let mut i: u8 = 0;
    reveal_with_fuel(view_subtypes, 1);
    assert(view_subtypes(out@, d as nat) =~= Seq::<SubTypeView>::empty());
    assert(ddl_u8(data@.skip(pos as int)) == Ok::<(u8, nat), DdlError>((count, 1)));
    assert(spec_subtypes_list(data@.skip(pos as int), d as nat) == match spec_subtypes(data@.skip(pos as int).skip(1), count as nat, d as nat) {
        Ok((v, m)) => Ok((v, 1 + m)),
        Err(e) => Err::<(Seq<SubTypeView>, nat), DdlError>(e),
    });
    proof {
        let t = spec_subtypes(s0, count as nat, d as nat);
        if t is Ok {
            assert(Seq::<SubTypeView>::empty() + t->Ok_0.0 =~= t->Ok_0.0);
        }
        assert(data@.skip(pos as int).skip(1) =~= s0);
    }
    while i < count
        invariant
            start == pos + 1,
            start <= p <= data@.len(),
            i <= count,
            s0 == data@.skip(start as int),
            spec_subtypes_list(data@.skip(pos as int), d as nat) == match spec_subtypes(s0, count as nat, d as nat) {
                Ok((v, m)) => Ok((v, 1 + m)),
                Err(e) => Err::<(Seq<SubTypeView>, nat), DdlError>(e),
            },
            spec_subtypes(s0, count as nat, d as nat) == match spec_subtypes(
                data@.skip(p as int),
                (count - i) as nat,
                d as nat,
            ) {
                Ok((rest, m)) => Ok((view_subtypes(out@, d as nat) + rest, ((p - start) + m) as nat)),
                Err(e) => Err::<(Seq<SubTypeView>, nat), DdlError>(e),
            },
        decreases count - i,
    {
        let ghost before = out@;
        reveal_with_fuel(spec_subtypes, 1);
        reveal_with_fuel(view_subtypes, 1);
        let (x, q) = match parse_subtype(data, p, d) {
            Ok(v) => v,
            Err(e) => return Err(e),
        };
        proof {
            lemma_skip_skip(data@, p as int, q - p);
        }
        out.push(x);
        assert(out@.drop_last() =~= before);
        assert(view_subtypes(out@, d as nat) == view_subtypes(before, d as nat).push(view_subtype(x, d as nat)));
        proof {
            let t = spec_subtypes(data@.skip(q as int), (count - i - 1) as nat, d as nat);
            if t is Ok {
                assert(view_subtypes(before, d as nat) + (seq![view_subtype(x, d as nat)] + t->Ok_0.0)
                    =~= view_subtypes(out@, d as nat) + t->Ok_0.0);
            }
        }
        p = q;
        i = i + 1;
    }
    reveal_with_fuel(spec_subtypes, 1);
    assert(view_subtypes(out@, d as nat) + Seq::<SubTypeView>::empty() =~= view_subtypes(out@, d as nat));
    Ok((out, p))
}

/// Reads a template type at `pos`, at depth `d`.
pub fn parse_template_type(data: &[u8], pos: usize, d: usize) -> (r: Result<(TemplateType, usize), DdlError>)
    requires
        pos <= data@.len(),
    ensures
        match spec_template_type(data@.skip(pos as int), d as nat) {
            Ok((v, n)) => r matches Ok((x, p)) && view_template_type(x, d as nat) == v && p == pos + n && p <= data@.len(),
            Err(e) => r == Err::<(TemplateType, usize), DdlError>(e),
        },
    decreases d, 2int, 0int,
{
    reveal_with_fuel(spec_template_type, 1);
    reveal_with_fuel(view_template_type, 1);
    let ghost s = data@.skip(pos as int);
    let (name, q0) = match read_string(data, pos) {
        Ok(v) => v,
        Err(e) => return Err(e),
    };
    assert(s.skip((q0 - pos) as int) =~= data@.skip(q0 as int));
    let (template_name, q1) = match read_string(data, q0) {
        Ok(v) => v,
        Err(e) => return Err(e),
    };
    assert(s.skip((q1 - pos) as int) =~= data@.skip(q1 as int));
    assert(ddl_string(s) == Ok::<(Seq<char>, nat), DdlError>((name@, (q0 - pos) as nat)));
    assert(ddl_string(s.skip((q0 - pos) as int)) == Ok::<(Seq<char>, nat), DdlError>((template_name@, (q1 - q0) as nat)));
    assert(spec_template_type(s, d as nat) == match spec_subtypes_list(data@.skip(q1 as int), d as nat) {
        Err(e) => Err(e),
        Ok((parameters, n2)) => Ok((TemplateTypeView { name: name@, template_name: template_name@, parameters }, ((q1 - pos) + n2) as nat)),
    });
    let (parameters, q2) = match parse_subtype_list(data, q1, d) {
        Ok(v) => v,
        Err(e) => return Err(e),
    };
    Ok((TemplateType { name, template_name, parameters }, q2))
}

/// Reads a variable type at `pos`, at depth `d`.
pub fn parse_variable_type(data: &[u8], pos: usize, d: usize) -> (r: Result<(VariableType, usize), DdlError>)
    requires
        pos <= data@.len(),
    ensures
        match spec_variable_type(data@.skip(pos as int), d as nat) {
            Ok((v, n)) => r matches Ok((x, p)) && view_variable_type(x, d as nat) == v && p == pos + n && p <= data@.len(),
            Err(e) => r == Err::<(VariableType, usize), DdlError>(e),
        },
    decreases d, 1int, 0int,
{
    reveal(spec_variable_type);
    reveal(view_variable_type);
    let ghost s = data@.skip(pos as int);
    let (ty, q0) = match parse_subtype(data, pos, d) {
        Ok(v) => v,
        Err(e) => {
            assert(spec_subtype(s, d as nat) == Err::<(SubTypeView, nat), DdlError>(e));
            return Err(e);
        },
    };
    assert(spec_subtype(s, d as nat) is Ok);
    assert(s.skip((q0 - pos) as int) =~= data@.skip(q0 as int));
    let (unknown, q1) = match read_u32(data, q0) {
        Ok(v) => v,
        Err(e) => return Err(e),
    };
    Ok((VariableType { ty, unknown }, q1))
}

/// Reads a list of elements at `pos`, at depth `d`.
pub fn parse_element_list(data: &[u8], pos: usize, d: usize) -> (r: Result<(Vec<Element>, usize), DdlError>)
    requires
        pos <= data@.len(),
    ensures
        match spec_elements_list(data@.skip(pos as int), d as nat) {
            Ok((v, n)) => r matches Ok((x, p)) && view_elements(x@, d as nat) == v && p == pos + n && p <= data@.len(),
            Err(e) => r == Err::<(Vec<Element>, usize), DdlError>(e),
        },
    decreases d, 1int, 0x1_0000_0000int,
{
    reveal_with_fuel(spec_elements_list, 1);
    reveal(ddl_u32);
    let (count, start) = match read_u32(data, pos) {
        Ok(v) => v,
        Err(e) => return Err(e),
    };
    proof {
        lemma_skip_skip(data@, pos as int, 4);
    }
    let ghost s0 = data@.skip(start as int);
    let mut out: Vec<Element> = Vec::new();
    let mut p = start;
    let mut i: u32 = 0;
    reveal_with_fuel(view_elements, 1);
    assert(view_elements(out@, d as nat) =~= Seq::<ElementView>::empty());
    proof {
        let t = spec_elements(s0, count as nat, d as nat);
        if t is Ok {
            assert(Seq::<ElementView>::empty() + t->Ok_0.0 =~= t->Ok_0.0);
        }
        assert(data@.skip(pos as int).skip(4) =~= s0);
    }
    while i < count
        invariant
            start == pos + 4,
            start <= p <= data@.len(),
            i <= count,
            s0 == data@.skip(start as int),
            spec_elements_list(data@.skip(pos as int), d as nat) == match spec_elements(s0, count as nat, d as nat) {
                Ok((v, m)) => Ok((v, 4 + m)),
                Err(e) => Err::<(Seq<ElementView>, nat), DdlError>(e),
            },
            spec_elements(s0, count as nat, d as nat) == match spec_elements(
                data@.skip(p as int),
                (count - i) as nat,
                d as nat,
            ) {
                Ok((rest, m)) => Ok((view_elements(out@, d as nat) + rest, ((p - start) + m) as nat)),
                Err(e) => Err::<(Seq<ElementView>, nat), DdlError>(e),
            },
        decreases count - i,
    {
        let ghost before = out@;
        reveal_with_fuel(spec_elements, 1);
        reveal_with_fuel(view_elements, 1);
        let (x, q) = match parse_element(data, p, d) {
            Ok(v) => v,
            Err(e) => return Err(e),
        };
        proof {
            lemma_skip_skip(data@, p as int, q - p);
        }
        out.push(x);
        assert(out@.drop_last() =~= before);
        assert(view_elements(out@, d as nat) == view_elements(before, d as nat).push(view_element(x, d as nat)));
        proof {
            let t = spec_elements(data@.skip(q as int), (count - i - 1) as nat, d as nat);
            if t is Ok {
                assert(view_elements(before, d as nat) + (seq![view_element(x, d as nat)] + t->Ok_0.0)
                    =~= view_elements(out@, d as nat) + t->Ok_0.0);
            }
        }
        p = q;
        i = i + 1;
    }
    reveal_with_fuel(spec_elements, 1);
    assert(view_elements(out@, d as nat) + Seq::<ElementView>::empty() =~= view_elements(out@, d as nat));
    Ok((out, p))
}

/// The size of the header.
pub const HEADER_SIZE: usize = 21;

/// The header at the start of `data`: a magic `u32`, a byte and four
/// version numbers, all big endian.
pub open spec fn spec_header(data: Seq<u8>) -> Option<DDLHeader> {
    if data.len() < 21 {
        None
    } else {
        Some(
            DDLHeader {
                magic: be_u32(data),
                unknown: data[4],
                major: be_u32(data.skip(5)),
                minor: be_u32(data.skip(9)),
                micro: be_u32(data.skip(13)),
                build: be_u32(data.skip(17)),
            },
        )
    }
}

impl DDLHeader {
    /// Reads the header; `None` when the data is shorter than the header.
    pub fn parse(data: &[u8]) -> (r: Option<DDLHeader>)
        ensures
            r == spec_header(data@),
    {
        reveal(ddl_u32);
        if data.len() < 21 {
            return None;
        }
        let (magic, _) = match read_u32(data, 0) {
            Ok(v) => v,
            Err(_) => return None,
        };
        let unknown = data[4];
        let (major, _) = match read_u32(data, 5) {
            Ok(v) => v,
            Err(_) => return None,
        };
        let (minor, _) = match read_u32(data, 9) {
            Ok(v) => v,
            Err(_) => return None,
        };
        let (micro, _) = match read_u32(data, 13) {
            Ok(v) => v,
            Err(_) => return None,
        };
        let (build, _) = match read_u32(data, 17) {
            Ok(v) => v,
            Err(_) => return None,
        };
        assert(data@.skip(0) =~= data@);
        Some(DDLHeader { magic, unknown, major, minor, micro, build })
    }
}

/// Reads a namespace at the start of `data`; elements may nest as deep as
/// the data is long.
pub fn parse_namespace(data: &[u8]) -> (r: Result<(Namespace, usize), DdlError>)
    ensures
        match spec_namespace(data@, data@.len()) {
            Ok((v, n)) => r matches Ok((x, p)) && view_namespace(x, data@.len()) == v && p == n && p <= data@.len(),
            Err(e) => r == Err::<(Namespace, usize), DdlError>(e),
        },
{
    assert(data@.skip(0) =~= data@);
    reveal_with_fuel(spec_elements_list, 1);
    match parse_element_list(data, 0, data.len()) {
        Ok((elements, p)) => Ok((Namespace { elements }, p)),
        Err(e) => Err(e),
    }
}

/// Reads a DDL file at `offset` of a larger buffer: the header, then the
/// namespace; returns the bytes after the namespace. Data shorter than the
/// header fails with `UnexpectedEof`.
pub fn parse_ddl(data: &[u8], offset: usize) -> (r: Result<(&[u8], Namespace), crate::rmc::basic::IoErrorKind>)
    requires
        data@.len() >= 21 ==> spec_namespace(data@.skip(21), (data@.len() - 21) as nat) is Ok,
    ensures
        data@.len() < 21 ==> r == Err::<(&[u8], Namespace), crate::rmc::basic::IoErrorKind>(
            crate::rmc::basic::IoErrorKind::UnexpectedEof,
        ),
        data@.len() >= 21 ==> ({
            let (v, n) = spec_namespace(data@.skip(21), (data@.len() - 21) as nat)->Ok_0;
            r matches Ok((rest, x)) && view_namespace(x, (data@.len() - 21) as nat) == v && rest@ == data@.skip(21 + n as int)
        }),
{
    if DDLHeader::parse(data).is_none() {
        return Err(crate::rmc::basic::IoErrorKind::UnexpectedEof);
    }
    let (_, body) = data.split_at(21);
    assert(body@ =~= data@.skip(21));
    match parse_namespace(body) {
        Ok((ns, n)) => {
            let (_, rest) = body.split_at(n);
            assert(rest@ =~= data@.skip(21 + n));
            Ok((rest, ns))
        },
        Err(_) => Err(crate::rmc::basic::IoErrorKind::InvalidData),
    }
}


/// Each kind of element is named by its own tag byte: DOClass 0x03,
/// Dataset 0x04, Variable 0x06, Method 0x08, Action 0x09, Property 0x0b,
/// Protocol 0x0c, Parameter 0x0d, ReturnValue 0x0e, Class 0x0f, Template
/// 0x10, Simple 0x11, TemplateInstance 0x12, DDLUnit 0x13, DupSpace 0x14;
/// and each kind of subtype likewise: DOClass 0x03, Dataset 0x04, Class
/// 0x0f, Simple 0x11, Template 0x12; and parameter directions Request 1,
/// Response 2, Unknown 3, Unknown2 0. What is read from data is of the
/// kind that its first byte names.
pub proof fn lemma_ddl_tags(data: Seq<u8>, d: nat)
    ensures
        spec_element(data, d) matches Ok((v, k)) ==> data[0] == match v {
            ElementView::DOClassDeclaration(_) => 0x03u8,
            ElementView::DatasetDeclaration(_) => 0x04u8,
            ElementView::Variable(_) => 0x06u8,
            ElementView::Method(_) => 0x08u8,
            ElementView::Action(_) => 0x09u8,
            ElementView::PropertyDeclaration(_) => 0x0bu8,
            ElementView::ProtocolDeclaration(_) => 0x0cu8,
            ElementView::Parameter(_) => 0x0du8,
            ElementView::ReturnValue(_) => 0x0eu8,
            ElementView::ClassDeclaration(_) => 0x0fu8,
            ElementView::TemplateDeclaration(_) => 0x10u8,
            ElementView::SimpleDeclaration(_) => 0x11u8,
            ElementView::TemplateInstance(_) => 0x12u8,
            ElementView::DDLUnitDeclaration(_) => 0x13u8,
            ElementView::DupSpaceDeclaration(_) => 0x14u8,
        },
        spec_parameter_type(data) matches Ok((p, k)) ==> data[0] == match p {
            ParameterType::Request => 1u8,
            ParameterType::Response => 2u8,
            ParameterType::Unknown => 3u8,
            ParameterType::Unknown2 => 0u8,
        },
        spec_subtype(data, d) matches Ok((t, k)) ==> data[0] == match t {
            SubTypeView::DOClass(_) => 0x03u8,
            SubTypeView::Dataset(_) => 0x04u8,
            SubTypeView::Class(_) => 0x0fu8,
            SubTypeView::Simple(_) => 0x11u8,
            SubTypeView::Template(_) => 0x12u8,
        },
{
}

// ---------------------------------------------------------------------------
// Scanning a binary for DDL files
// ---------------------------------------------------------------------------

/// The big-endian `u32` that a DDL file starts with.
pub const DDL_MAGIC: u32 = 0xCD65_2312;

/// Whether `data` starts with the DDL magic.
pub open spec fn starts_with_magic(data: Seq<u8>) -> bool {
    data.len() >= 4 && be_u32(data) == DDL_MAGIC
}

/// The namespaces of the DDL files in `file` from `pos` on, each with the
/// depth it was read at; or the position of the first DDL magic that is
/// not followed by a header and a namespace. At a magic the scan reads the
/// header and the namespace and goes on after them; anywhere else it moves
/// one byte on.
pub open spec fn spec_scan_at(file: Seq<u8>, pos: nat) -> Result<Seq<(NamespaceView, nat)>, nat>
    decreases file.len() - pos,
{
    if pos >= file.len() {
        Ok(Seq::empty())
    } else {
        let data = file.skip(pos as int);
        if starts_with_magic(data) {
            if data.len() < 21 {
                Err(pos)
            } else {
                let d = (data.len() - 21) as nat;
                match spec_namespace(data.skip(21), d) {
                    Ok((v, n)) => {
                        let rest = if pos + 21 + n < file.len() {
                            spec_scan_at(file, pos + 21 + n)
                        } else {
                            Ok(Seq::empty())
                        };
                        match rest {
                            Ok(t) => Ok(seq![(v, d)] + t),
                            Err(e) => Err(e),
                        }
                    },
                    Err(_) => Err(pos),
                }
            }
        } else {
            spec_scan_at(file, pos + 1)
        }
    }
}

/// The namespaces of the DDL files in `file`, or the position of the
/// first DDL magic that does not start one.
pub open spec fn spec_scan(file: Seq<u8>) -> Result<Seq<(NamespaceView, nat)>, nat> {
    spec_scan_at(file, 0)
}

/// Reads the namespaces of the DDL files found in `file`, in order: each
/// starts at a DDL magic. `Err` holds the position of the first magic
/// that is not followed by a header and a namespace.
#[verifier::rlimit(50)]
#[verifier::spinoff_prover]
pub fn scan_namespaces(file: &[u8]) -> (r: Result<Vec<Namespace>, usize>)
    ensures
        match spec_scan(file@) {
            Ok(s) => r matches Ok(v) && v@.len() == s.len() && (forall|i: int|
                0 <= i < s.len() ==> view_namespace(#[trigger] v@[i], s[i].1) == s[i].0) && (forall|i: int|
                0 <= i < s.len() ==> #[trigger] s[i].1 > 0),
            Err(p) => r matches Err(q) && q == p,
        },
{
    let len = file.len();
    let mut out: Vec<Namespace> = Vec::new();
    let ghost mut acc: Seq<(NamespaceView, nat)> = Seq::empty();
    let mut pos: usize = 0;
    while pos < len
        invariant
            len == file@.len(),
            pos <= len,
            out@.len() == acc.len(),
            forall|i: int| 0 <= i < acc.len() ==> view_namespace(#[trigger] out@[i], acc[i].1) == acc[i].0,
            forall|i: int| 0 <= i < acc.len() ==> #[trigger] acc[i].1 > 0,
            spec_scan(file@) == match spec_scan_at(file@, pos as nat) {
                Ok(t) => Ok(acc + t),
                Err(e) => Err::<Seq<(NamespaceView, nat)>, nat>(e),
            },
        decreases len - pos,
    {
        let ghost data = file@.skip(pos as int);
        let magic = match read_u32(file, pos) {
            Ok((v, _)) => v == DDL_MAGIC,
            Err(_) => false,
        };
        proof {
            reveal(ddl_u32);
        }
        assert(magic == starts_with_magic(data));
        if magic {
            if len - pos < 21 {
                return Err(pos);
            }
            let (_, body) = file.split_at(pos + 21);
            assert(body@ =~= data.skip(21));
            match parse_namespace(body) {
                Ok((ns, n)) => {
                    let ghost d = (data.len() - 21) as nat;
                    assert(d > 0) by {
                        reveal(ddl_u32);
                        reveal_with_fuel(spec_elements_list, 1);
                    }
                    let ghost v = view_namespace(ns, d);
                    proof {
                        let ghost t0 = acc;
                        acc = acc.push((v, d));
                        assert(acc == t0 + seq![(v, d)]);
                        if pos + 21 + n >= len {
                            assert(spec_scan_at(file@, (pos + 21 + n) as nat) == Ok::<Seq<(NamespaceView, nat)>, nat>(Seq::empty()));
                        }
                        match spec_scan_at(file@, (pos + 21 + n) as nat) {
                            Ok(t) => {
                                assert(t0 + (seq![(v, d)] + t) =~= acc + t);
                            },
                            Err(_) => {},
                        }
                    }
                    out.push(ns);
                    pos = pos + 21 + n;
                },
                Err(_) => {
                    return Err(pos);
                },
            }
        } else {
            pos = pos + 1;
        }
    }
    assert(acc + Seq::<(NamespaceView, nat)>::empty() =~= acc);
    Ok(out)
}

/// The id of the first entry of `ids` named `key`.
pub open spec fn lookup_id(ids: Seq<(Seq<char>, u16)>, key: Seq<char>) -> Option<u16>
    decreases ids.len(),
{
    if ids.len() == 0 {
        None
    } else if ids[0].0 == key {
        Some(ids[0].1)
    } else {
        lookup_id(ids.skip(1), key)
    }
}

/// The id of a protocol: looked up by `namespace::name`, else by `name`.
pub open spec fn protocol_id(ids: Seq<(Seq<char>, u16)>, namespace: Seq<char>, name: Seq<char>) -> Option<u16> {
    match lookup_id(ids, namespace + seq![':', ':'] + name) {
        Some(i) => Some(i),
        None => lookup_id(ids, name),
    }
}

/// The names and ids of an id mapping.
pub open spec fn id_views(ids: Seq<(String, u16)>) -> Seq<(Seq<char>, u16)> {
    ids.map_values(|e: (String, u16)| (e.0@, e.1))
}

/// An element with the id of a protocol declaration looked up in `ids`;
/// any other element as it is.
pub open spec fn with_protocol_id(e: Element, ids: Seq<(Seq<char>, u16)>) -> Element {
    match e {
        Element::ProtocolDeclaration(p) => Element::ProtocolDeclaration(
            ProtocolDeclaration { id: protocol_id(ids, p.namespace@, p.name1@), ..p },
        ),
        _ => e,
    }
}

/// The view of `with_protocol_id`.
pub open spec fn view_with_protocol_id(e: ElementView, ids: Seq<(Seq<char>, u16)>) -> ElementView {
    match e {
        ElementView::ProtocolDeclaration(p) => ElementView::ProtocolDeclaration(
            ProtocolDeclarationView { id: protocol_id(ids, p.namespace, p.name1), ..p },
        ),
        _ => e,
    }
}

/// A namespace whose protocol declarations have their ids from `ids`.
pub open spec fn namespace_with_ids(v: NamespaceView, ids: Seq<(Seq<char>, u16)>) -> NamespaceView {
    NamespaceView { elements: v.elements.map_values(|e: ElementView| view_with_protocol_id(e, ids)) }
}

/// Looking up ids changes the views of elements as it changes the
/// elements.
proof fn lemma_view_with_ids(s: Seq<Element>, d: nat, ids: Seq<(Seq<char>, u16)>)
    requires
        d > 0,
    ensures
        view_elements(s.map_values(|e: Element| with_protocol_id(e, ids)), d) == view_elements(s, d).map_values(
            |v: ElementView| view_with_protocol_id(v, ids),
        ),
    decreases s.len(),
{
    let t = s.map_values(|e: Element| with_protocol_id(e, ids));
    if s.len() == 0 {
        assert(view_elements(t, d) =~= view_elements(s, d).map_values(|v: ElementView| view_with_protocol_id(v, ids)));
    } else {
        lemma_view_with_ids(s.drop_last(), d, ids);
        assert(t.drop_last() =~= s.drop_last().map_values(|e: Element| with_protocol_id(e, ids)));
        assert(t.last() == with_protocol_id(s.last(), ids));
        assert(view_element(t.last(), d) == view_with_protocol_id(view_element(s.last(), d), ids));
        assert(view_elements(t, d) =~= view_elements(s, d).map_values(|v: ElementView| view_with_protocol_id(v, ids)));
    }
}

/// The id of the first entry of `ids` named `key`.
fn find_id(ids: &Vec<(String, u16)>, key: &String) -> (r: Option<u16>)
    ensures
        r == lookup_id(id_views(ids@), key@),
{
    let mut i: usize = 0;
    assert(id_views(ids@).skip(0) =~= id_views(ids@));
    while i < ids.len()
        invariant
            i <= ids@.len(),
            lookup_id(id_views(ids@), key@) == lookup_id(id_views(ids@).skip(i as int), key@),
        decreases ids@.len() - i,
    {
        let ghost rest = id_views(ids@).skip(i as int);
        assert(rest[0] == (ids@[i as int].0@, ids@[i as int].1));
        if ids[i].0 == *key {
            return Some(ids[i].1);
        }
        assert(rest.skip(1) =~= id_views(ids@).skip(i + 1));
        i = i + 1;
    }
    None
}

/// Gives each protocol declaration of the namespace the id that `ids`
/// has for `namespace::name1`, else for `name1`, else none; nothing else
/// changes.
pub fn assign_protocol_ids(ns: &mut Namespace, ids: &Vec<(String, u16)>)
    ensures
        final(ns).elements@ == old(ns).elements@.map_values(|e: Element| with_protocol_id(e, id_views(ids@))),
{
    let ghost m = id_views(ids@);
    let mut elems: Vec<Element> = Vec::new();
    std::mem::swap(&mut elems, &mut ns.elements);
    let ghost all = elems@;
    let mut out: Vec<Element> = Vec::new();
    let ghost mut k: int = 0;
    while elems.len() > 0
        invariant
            0 <= k <= all.len(),
            elems@ == all.skip(k),
            out@ == all.take(k).map_values(|e: Element| with_protocol_id(e, m)),
            m == id_views(ids@),
        decreases elems@.len(),
    {
        let e = elems.remove(0);
        assert(e == all[k]);
        let e2 = match e {
            Element::ProtocolDeclaration(p) => {
                let mut p = p;
                let mut key = String::new();
                push_chars(&mut key, chars_of(p.namespace.as_str()).as_slice());
                string_push(&mut key, ':');
                string_push(&mut key, ':');
                push_chars(&mut key, chars_of(p.name1.as_str()).as_slice());
                assert(key@ =~= p.namespace@ + seq![':', ':'] + p.name1@);
                let id = match find_id(ids, &key) {
                    Some(i) => Some(i),
                    None => find_id(ids, &p.name1),
                };
                p.id = id;
                Element::ProtocolDeclaration(p)
            },
            other => other,
        };
        assert(e2 == with_protocol_id(all[k], m));
        out.push(e2);
        proof {
            assert(all.take(k + 1) =~= all.take(k).push(all[k]));
            assert(all.skip(k).skip(1) =~= all.skip(k + 1));
            k = k + 1;
        }
        assert(out@ =~= all.take(k).map_values(|e: Element| with_protocol_id(e, m)));
    }
    assert(all.take(k) =~= all);
    ns.elements = out;
}

/// What `serde_json` reads from the bytes of an id mapping, a JSON object
/// of protocol ids by name: its entries in the order of their names, the
/// last of equal names kept; `None` when the bytes are not such an
/// object.
pub uninterp spec fn json_id_map(json: Seq<u8>) -> Option<Seq<(Seq<char>, u16)>>;

/// `serde_json::from_slice` into a `BTreeMap<String, u16>`, whose entries
/// are then listed in order: the named `json_id_map` of the bytes.
#[verifier::external_body]
fn id_mapping(json: &[u8]) -> (r: Option<Vec<(String, u16)>>)
    ensures
        match json_id_map(json@) {
            Some(m) => r matches Some(v) && id_views(v@) == m,
            None => r is None,
        },
{
    serde_json::from_slice::<std::collections::BTreeMap<String, u16>>(json).ok().map(|m| m.into_iter().collect())
}

/// Why the DDL files of a binary could not be read.
#[derive(Debug, Clone, Copy, PartialEq, Eq, Structural)]
pub enum DdlScanError {
    /// The id mapping is not a JSON object of protocol ids by name.
    InvalidIdMapping,
    /// The DDL magic at this position does not start a header and a
    /// namespace.
    InvalidNamespace(usize),
}

/// The namespaces of the DDL files in `file`, with the protocol ids of
/// the id mapping `id_json` when there is one.
pub fn parse_ddl_binary(file: &[u8], id_json: Option<&[u8]>) -> (r: Result<Vec<Namespace>, DdlScanError>)
    ensures
        (id_json matches Some(j) && json_id_map(j@) is None) ==> r == Err::<Vec<Namespace>, DdlScanError>(
            DdlScanError::InvalidIdMapping,
        ),
        !(id_json matches Some(j) && json_id_map(j@) is None) ==> match spec_scan(file@) {
            Err(p) => r matches Err(DdlScanError::InvalidNamespace(q)) && q == p,
            Ok(s) => r matches Ok(v) && v@.len() == s.len() && forall|i: int|
                0 <= i < s.len() ==> view_namespace(#[trigger] v@[i], s[i].1) == match id_json {
                    Some(j) => namespace_with_ids(s[i].0, json_id_map(j@)->Some_0),
                    None => s[i].0,
                },
        },
{
    let ids = match id_json {
        Some(j) => match id_mapping(j) {
            Some(m) => Some(m),
            None => return Err(DdlScanError::InvalidIdMapping),
        },
        None => None,
    };
    let mut namespaces = match scan_namespaces(file) {
        Ok(v) => v,
        Err(p) => return Err(DdlScanError::InvalidNamespace(p)),
    };
    match ids {
        None => Ok(namespaces),
        Some(m) => {
            let ghost s = spec_scan(file@)->Ok_0;
            let ghost mv = id_views(m@);
            let mut out: Vec<Namespace> = Vec::new();
            let ghost all = namespaces@;
            let ghost mut k: int = 0;
            while namespaces.len() > 0
                invariant
                    0 <= k <= all.len(),
                    all.len() == s.len(),
                    mv == id_views(m@),
                    namespaces@ == all.skip(k),
                    out@.len() == k,
                    forall|i: int| 0 <= i < s.len() ==> view_namespace(#[trigger] all[i], s[i].1) == s[i].0,
                    forall|i: int| 0 <= i < s.len() ==> s[i].1 > 0,
                    forall|i: int|
                        0 <= i < k ==> view_namespace(#[trigger] out@[i], s[i].1) == namespace_with_ids(s[i].0, mv),
                decreases namespaces@.len(),
            {
                let mut ns = namespaces.remove(0);
                assert(ns == all[k]);
                assign_protocol_ids(&mut ns, &m);
                proof {
                    lemma_view_with_ids(all[k].elements@, s[k].1, mv);
                    assert(ns.elements@ =~= all[k].elements@.map_values(|e: Element| with_protocol_id(e, mv)));
                    assert(view_namespace(ns, s[k].1).elements =~= namespace_with_ids(s[k].0, mv).elements);
                }
                let ghost before = out@;
                out.push(ns);
                proof {
                    assert forall|i: int| 0 <= i < k + 1 implies view_namespace(#[trigger] out@[i], s[i].1)
                        == namespace_with_ids(s[i].0, mv) by {
                        if i < k {
                            assert(out@[i] == before[i]);
                        }
                    }
                    assert(all.skip(k).skip(1) =~= all.skip(k + 1));
                    k = k + 1;
                }
            }
            Ok(out)
        },
    }
}

} // verus!
