//! Parameters: typed values used as inputs, outputs or scope of steps.

use vstd::prelude::*;
use vstd::string::StrSliceExecFns;
use vstd::string::StringExecFns;
use vstd::std_specs::cmp::PartialOrdSpec;

use crate::jsonval::clone_opt_value;
use crate::strutil::{
    clone_opt_string, count_char, count_char_in, lemma_count_char_le_len, opt_view,
    spec_starts_with, str_starts_with,
};

verus! {

/// Data type of a parameter value.
#[derive(Debug, Clone, Copy, PartialEq, Eq, Structural)]
pub enum DataType {
    /// String value.
    Str,
    /// Integer number.
    Int,
    /// Decimal number.
    Dec,
    /// Boolean value.
    Bool,
    /// ISO date.
    Date,
    /// Integer range [min, max].
    RangeInt,
    /// Date range [start, end].
    RangeDate,
    /// Decimal range [min, max].
    RangeDec,
    /// Hierarchical coded set (tree structure).
    CodedSet,
    /// Link to artifact file with mime type.
    Content,
    /// Templated string with parameter references.
    Template,
}

impl DataType {
    /// The display label of this data type.
    pub open spec fn spec_label(self) -> Seq<char> {
        match self {
            DataType::Str => "STR"@,
            DataType::Int => "INT"@,
            DataType::Dec => "DEC"@,
            DataType::Bool => "BOOL"@,
            DataType::Date => "DATE"@,
            DataType::RangeInt => "RANGE_INT"@,
            DataType::RangeDec => "RANGE_DEC"@,
            DataType::RangeDate => "RANGE_DATE"@,
            DataType::CodedSet => "SET"@,
            DataType::Content => "CONTENT"@,
            DataType::Template => "TEMPLATE"@,
        }
    }

    /// Render this data type as its display label.
    pub fn as_str(&self) -> (r: &'static str)
        ensures
            r@ == self.spec_label(),
    {
        match self {
            DataType::Str => "STR",
            DataType::Int => "INT",
            DataType::Dec => "DEC",
            DataType::Bool => "BOOL",
            DataType::Date => "DATE",
            DataType::RangeInt => "RANGE_INT",
            DataType::RangeDec => "RANGE_DEC",
            DataType::RangeDate => "RANGE_DATE",
            DataType::CodedSet => "SET",
            DataType::Content => "CONTENT",
            DataType::Template => "TEMPLATE",
        }
    }
}

impl Default for DataType {
    /// Parameters hold strings unless declared otherwise.
    fn default() -> (r: Self)
        ensures
            r == DataType::Str,
    {
        DataType::Str
    }
}

/// Parameter type definition.
#[derive(Debug)]
pub struct ParameterType {
    /// Unique identifier for this parameter type.
    pub id: String,
    /// Description of what this parameter represents.
    pub purpose: Option<String>,
    /// Data type of the parameter value.
    pub data_type: DataType,
    /// Optional prefix to prepend when rendering.
    pub prefix: Option<String>,
    /// Whether this parameter must have a value.
    pub is_required: bool,
    /// Default value if not provided.
    pub default_value: Option<serde_json::Value>,
}

/// The mathematical model of a parameter type.
pub struct ParameterTypeView {
    pub id: Seq<char>,
    pub purpose: Option<Seq<char>>,
    pub data_type: DataType,
    pub prefix: Option<Seq<char>>,
    pub is_required: bool,
    pub default_value: Option<serde_json::Value>,
}

impl View for ParameterType {
    type V = ParameterTypeView;

    open spec fn view(&self) -> ParameterTypeView {
        ParameterTypeView {
            id: self.id@,
            purpose: opt_view(self.purpose),
            data_type: self.data_type,
            prefix: opt_view(self.prefix),
            is_required: self.is_required,
            default_value: self.default_value,
        }
    }
}

impl Clone for ParameterType {
    fn clone(&self) -> (r: Self)
        ensures
            r@ == self@,
    {
        ParameterType {
            id: self.id.clone(),
            purpose: clone_opt_string(&self.purpose),
            data_type: self.data_type,
            prefix: clone_opt_string(&self.prefix),
            is_required: self.is_required,
            default_value: clone_opt_value(&self.default_value),
        }
    }
}

/// Reference to a parameter type with optional overrides, as declared by a
/// step definition for one of its inputs, outputs or scope parameters.
#[derive(Debug)]
pub struct ParameterRef {
    /// Parameter identifier in step scope.
    pub id: String,
    /// Reference to a declared parameter type.
    pub type_ref: Option<String>,
    /// Override purpose for this usage.
    pub purpose: Option<String>,
    /// Override required flag.
    pub is_required: Option<bool>,
    /// Override default value.
    pub default_value: Option<serde_json::Value>,
    /// Template expression for deriving the value from context.
    pub mapping: Option<String>,
}

/// The mathematical model of a parameter reference.
pub struct ParameterRefView {
    pub id: Seq<char>,
    pub type_ref: Option<Seq<char>>,
    pub purpose: Option<Seq<char>>,
    pub is_required: Option<bool>,
    pub default_value: Option<serde_json::Value>,
    pub mapping: Option<Seq<char>>,
}

impl View for ParameterRef {
    type V = ParameterRefView;

    open spec fn view(&self) -> ParameterRefView {
        ParameterRefView {
            id: self.id@,
            type_ref: opt_view(self.type_ref),
            purpose: opt_view(self.purpose),
            is_required: self.is_required,
            default_value: self.default_value,
            mapping: opt_view(self.mapping),
        }
    }
}

impl Clone for ParameterRef {
    fn clone(&self) -> (r: Self)
        ensures
            r@ == self@,
    {
        ParameterRef {
            id: self.id.clone(),
            type_ref: clone_opt_string(&self.type_ref),
            purpose: clone_opt_string(&self.purpose),
            is_required: self.is_required,
            default_value: clone_opt_value(&self.default_value),
            mapping: clone_opt_string(&self.mapping),
        }
    }
}

/// Whether a parameter reference demands a value.
pub open spec fn spec_ref_required(r: ParameterRefView) -> bool {
    r.is_required == Some(true)
}

/// Parameter value in step data.
#[derive(Debug)]
pub struct ParameterValue {
    /// Parameter identifier.
    pub id: String,
    /// Parameter value; its shape depends on the parameter's data type.
    pub value: Option<serde_json::Value>,
}

/// The mathematical model of a parameter value.
pub struct ParameterValueView {
    pub id: Seq<char>,
    pub value: Option<serde_json::Value>,
}

impl View for ParameterValue {
    type V = ParameterValueView;

    open spec fn view(&self) -> ParameterValueView {
        ParameterValueView { id: self.id@, value: self.value }
    }
}

impl Clone for ParameterValue {
    fn clone(&self) -> (r: Self)
        ensures
            r@ == self@,
    {
        ParameterValue { id: self.id.clone(), value: clone_opt_value(&self.value) }
    }
}

impl ParameterValue {
    /// Create a new parameter value.
    pub fn new(id: &str, value: serde_json::Value) -> (r: Self)
        ensures
            r@.id == id@,
            r@.value == Some(value),
    {
        ParameterValue { id: String::from_str(id), value: Some(value) }
    }

    /// Create an empty parameter value.
    pub fn empty(id: &str) -> (r: Self)
        ensures
            r@.id == id@,
            r@.value is None,
    {
        ParameterValue { id: String::from_str(id), value: None }
    }

    /// Whether this parameter holds a value.
    pub fn has_value(&self) -> (r: bool)
        ensures
            r == (self@.value is Some),
    {
        self.value.is_some()
    }
}

/// Runtime parameter: a type definition together with an optional value.
#[derive(Debug)]
pub struct Parameter {
    /// Parameter definition.
    pub definition: ParameterType,
    /// Current value.
    pub value: Option<ParameterValue>,
}

impl Clone for Parameter {
    fn clone(&self) -> (r: Self)
        ensures
            r.definition@ == self.definition@,
            match (self.value, r.value) {
                (Some(v), Some(rv)) => rv@ == v@,
                (None, None) => true,
                _ => false,
            },
    {
        Parameter {
            definition: self.definition.clone(),
            value: match &self.value {
                Some(v) => Some(v.clone()),
                None => None,
            },
        }
    }
}

impl Parameter {
    /// Check if this parameter has a value.
    pub fn has_value(&self) -> (r: bool)
        ensures
            r == (self.value is Some),
    {
        self.value.is_some()
    }

    /// Check if this parameter is required and missing.
    pub fn is_missing_required(&self) -> (r: bool)
        ensures
            r == (self.definition.is_required && self.value is None),
    {
        self.definition.is_required && self.value.is_none()
    }
}

/// CONTENT type parameter value: a link to an artifact.
#[derive(Debug)]
pub struct ContentValue {
    /// Relative path or absolute URL to the artifact.
    pub uri: String,
    /// MIME type of the content.
    pub mime: Option<String>,
    /// Display title for links.
    pub title: Option<String>,
}

/// The mathematical model of a content value.
pub struct ContentValueView {
    pub uri: Seq<char>,
    pub mime: Option<Seq<char>>,
    pub title: Option<Seq<char>>,
}

impl View for ContentValue {
    type V = ContentValueView;

    open spec fn view(&self) -> ContentValueView {
        ContentValueView {
            uri: self.uri@,
            mime: opt_view(self.mime),
            title: opt_view(self.title),
        }
    }
}

impl Clone for ContentValue {
    fn clone(&self) -> (r: Self)
        ensures
            r@ == self@,
    {
        ContentValue {
            uri: self.uri.clone(),
            mime: clone_opt_string(&self.mime),
            title: clone_opt_string(&self.title),
        }
    }
}

/// The markdown link text for a content value: the title, or the URI where
/// no title is set, linking to the URI.
pub open spec fn spec_markdown_link(v: ContentValueView) -> Seq<char> {
    let label = match v.title {
        Some(t) => t,
        None => v.uri,
    };
    "["@ + label + "]("@ + v.uri + ")"@
}

impl ContentValue {
    /// Create a new content value.
    pub fn new(uri: &str) -> (r: Self)
        ensures
            r@ == (ContentValueView { uri: uri@, mime: None, title: None }),
    {
        ContentValue { uri: String::from_str(uri), mime: None, title: None }
    }

    /// Attach a MIME type.
    pub fn with_mime(self, mime: &str) -> (r: Self)
        ensures
            r@ == (ContentValueView { mime: Some(mime@), ..self@ }),
    {
        ContentValue { mime: Some(String::from_str(mime)), ..self }
    }

    /// Attach a display title.
    pub fn with_title(self, title: &str) -> (r: Self)
        ensures
            r@ == (ContentValueView { title: Some(title@), ..self@ }),
    {
        ContentValue { title: Some(String::from_str(title)), ..self }
    }

    /// Render as a markdown link.
    pub fn to_markdown_link(&self) -> (r: String)
        ensures
            r@ == spec_markdown_link(self@),
    {
        let mut s = String::from_str("[");
        match &self.title {
            Some(t) => s.append(t.as_str()),
            None => s.append(self.uri.as_str()),
        }
        s.append("](");
        s.append(self.uri.as_str());
        s.append(")");
        s
    }
}

/// SET type parameter value: one entry of a hierarchical coded list, where
/// dots in the code separate the levels.
#[derive(Debug)]
pub struct SetValue {
    /// Hierarchical code (dot-separated).
    pub code: String,
    /// Human-readable value.
    pub value: String,
}

/// The mathematical model of a set value.
pub struct SetValueView {
    pub code: Seq<char>,
    pub value: Seq<char>,
}

impl View for SetValue {
    type V = SetValueView;

    open spec fn view(&self) -> SetValueView {
        SetValueView { code: self.code@, value: self.value@ }
    }
}

impl Clone for SetValue {
    fn clone(&self) -> (r: Self)
        ensures
            r@ == self@,
    {
        SetValue { code: self.code.clone(), value: self.value.clone() }
    }
}

impl SetValue {
    /// Create a new set value.
    pub fn new(code: &str, value: &str) -> (r: Self)
        ensures
            r@ == (SetValueView { code: code@, value: value@ }),
    {
        SetValue { code: String::from_str(code), value: String::from_str(value) }
    }

    /// The depth level of this code: one more than the number of dots.
    pub fn depth(&self) -> (r: usize)
        requires
            self@.code.len() < usize::MAX,
        ensures
            r == count_char(self@.code, '.') + 1,
    {
        proof {
            lemma_count_char_le_len(self@.code, '.');
        }
        let dots = count_char_in(self.code.as_str(), '.');
        dots + 1
    }

    /// Check if this code is a strict ancestor of another code.
    pub fn is_parent_of(&self, other: &str) -> (r: bool)
        ensures
            r == (spec_starts_with(other@, self@.code) && other@.len() > self@.code.len()),
    {
        str_starts_with(other, self.code.as_str()) && other.unicode_len()
            > self.code.as_str().unicode_len()
    }

    /// Check if this code is a strict descendant of another code.
    pub fn is_child_of(&self, other: &str) -> (r: bool)
        ensures
            r == (spec_starts_with(self@.code, other@) && self@.code.len() > other@.len()),
    {
        str_starts_with(self.code.as_str(), other) && self.code.as_str().unicode_len()
            > other.unicode_len()
    }
}

/// Range type parameter value: an inclusive [min, max] span.
#[derive(Debug)]
pub struct RangeValue<T> {
    /// Minimum value.
    pub min: T,
    /// Maximum value.
    pub max: T,
}

/// Whether an ordering outcome says "at least as large".
pub open spec fn spec_cmp_ge(o: Option<core::cmp::Ordering>) -> bool {
    o == Some(core::cmp::Ordering::Greater) || o == Some(core::cmp::Ordering::Equal)
}

/// Whether an ordering outcome says "at most as large".
pub open spec fn spec_cmp_le(o: Option<core::cmp::Ordering>) -> bool {
    o == Some(core::cmp::Ordering::Less) || o == Some(core::cmp::Ordering::Equal)
}

impl<T: PartialOrd> RangeValue<T> {
    /// Create a new range value.
    pub fn new(min: T, max: T) -> (r: Self)
        ensures
            r.min == min,
            r.max == max,
    {
        RangeValue { min, max }
    }

    /// Check if a value is within this range, by the type's own ordering.
    pub fn contains(&self, value: &T) -> (r: bool)
        ensures
            T::obeys_partial_cmp_spec() ==> r == (spec_cmp_ge(
                value.partial_cmp_spec(&self.min),
            ) && spec_cmp_le(value.partial_cmp_spec(&self.max))),
    {
        value.ge(&self.min) && value.le(&self.max)
    }
}

} // verus!
