//! The output model: what one generation run produces.
//!
//! A run yields one response unit and one request unit per service, the
//! global list of action names feeding the shared envelope unit, and two
//! manifests of module names. The manifests and the envelope alias list are
//! deduplicated and sorted ascending, so the aggregate is deterministic
//! however many services collide on a normalized name.

use vstd::prelude::*;
use vstd::string::*;
use crate::helper::rustify_spec;
use crate::helper::rustify_string;
use crate::text::{has_str, sort_dedup_strings, strings_strictly_sorted};

verus! {

/// One response-record field: the raw name the wire uses, the normalized
/// target-language name, and the rendered type name.
#[derive(Debug)]
pub struct Field {
    pub name: String,
    pub xml_name: String,
    pub target_type: String,
}

/// The abstract value of a `Field`.
#[verifier::ext_equal]
pub struct FieldView {
    pub name: Seq<char>,
    pub xml_name: Seq<char>,
    pub target_type: Seq<char>,
}

impl View for Field {
    type V = FieldView;

    open spec fn view(&self) -> FieldView {
        FieldView { name: self.name@, xml_name: self.xml_name@, target_type: self.target_type@ }
    }
}

/// One action's response-record model: the record's type name and its fields,
/// in the order the out-arguments stand in the schema.
#[derive(Debug)]
pub struct TemplateAction {
    pub name: String,
    pub fields: Vec<Field>,
}

/// The abstract value of a `TemplateAction`.
#[verifier::ext_equal]
pub struct TemplateActionView {
    pub name: Seq<char>,
    pub fields: Seq<FieldView>,
}

impl View for TemplateAction {
    type V = TemplateActionView;

    open spec fn view(&self) -> TemplateActionView {
        TemplateActionView {
            name: self.name@,
            fields: views_of_fields(self.fields@),
        }
    }
}

/// One request parameter: the raw wire name, the normalized name, and the
/// rendered type name.
#[derive(Debug, Clone)]
pub struct ParameterAndType {
    pub parameter_name: String,
    pub parameter_name_rusty: String,
    pub target_type: String,
}

/// The abstract value of a `ParameterAndType`.
#[verifier::ext_equal]
pub struct ParameterAndTypeView {
    pub parameter_name: Seq<char>,
    pub parameter_name_rusty: Seq<char>,
    pub target_type: Seq<char>,
}

impl View for ParameterAndType {
    type V = ParameterAndTypeView;

    open spec fn view(&self) -> ParameterAndTypeView {
        ParameterAndTypeView {
            parameter_name: self.parameter_name@,
            parameter_name_rusty: self.parameter_name_rusty@,
            target_type: self.target_type@,
        }
    }
}

impl ParameterAndType {
    /// An empty parameter, to be filled in field by field.
    pub fn new() -> (r: Self)
        ensures
            r@.parameter_name.len() == 0,
            r@.parameter_name_rusty.len() == 0,
            r@.target_type.len() == 0,
    {
        ParameterAndType {
            parameter_name: String::new(),
            parameter_name_rusty: String::new(),
            target_type: String::new(),
        }
    }
}

/// One request constructor: the action it invokes, the normalized function
/// name, its parameters in schema order, and the endpoint it posts to.
#[derive(Debug, Clone)]
pub struct RequestFunction {
    pub name: String,
    pub name_rusty: String,
    pub parameter: Vec<ParameterAndType>,
    pub service_type: String,
    pub action_name: String,
    pub control_url: String,
}

/// The abstract value of a `RequestFunction`.
#[verifier::ext_equal]
pub struct RequestFunctionView {
    pub name: Seq<char>,
    pub name_rusty: Seq<char>,
    pub parameter: Seq<ParameterAndTypeView>,
    pub service_type: Seq<char>,
    pub action_name: Seq<char>,
    pub control_url: Seq<char>,
}

impl View for RequestFunction {
    type V = RequestFunctionView;

    open spec fn view(&self) -> RequestFunctionView {
        RequestFunctionView {
            name: self.name@,
            name_rusty: self.name_rusty@,
            parameter: views_of_parameters(self.parameter@),
            service_type: self.service_type@,
            action_name: self.action_name@,
            control_url: self.control_url@,
        }
    }
}

impl RequestFunction {
    /// A request constructor for the named action, with no parameters yet.
    /// The function name is the normalized action name.
    pub fn new(name: String, service_type: String, control_url: String) -> (r: Self)
        ensures
            r@.name == name@,
            r@.name_rusty == rustify_spec(name@),
            r@.parameter.len() == 0,
            r@.service_type == service_type@,
            r@.action_name == name@,
            r@.control_url == control_url@,
    {
        let name_rusty = rustify_string(name.as_str());
        let action_name = name.clone();
        RequestFunction {
            name,
            name_rusty,
            parameter: Vec::new(),
            service_type,
            action_name,
            control_url,
        }
    }
}

/// One service's response unit: the normalized module name and the response
/// records of every action of the service.
#[derive(Debug)]
pub struct ResponseFile {
    pub name: String,
    pub actions: Vec<TemplateAction>,
}

/// The abstract value of a `ResponseFile`.
#[verifier::ext_equal]
pub struct ResponseFileView {
    pub name: Seq<char>,
    pub actions: Seq<TemplateActionView>,
}

impl View for ResponseFile {
    type V = ResponseFileView;

    open spec fn view(&self) -> ResponseFileView {
        ResponseFileView {
            name: self.name@,
            actions: views_of_template_actions(self.actions@),
        }
    }
}

impl ResponseFile {
    /// An empty response unit, to be filled in field by field.
    pub fn new() -> (r: Self)
        ensures
            r@.name.len() == 0,
            r@.actions.len() == 0,
    {
        ResponseFile { name: String::new(), actions: Vec::new() }
    }
}

/// One service's request unit: the normalized module name and one request
/// constructor per action.
#[derive(Debug)]
pub struct RequestFile {
    pub name: String,
    pub request_functions: Vec<RequestFunction>,
}

/// The abstract value of a `RequestFile`.
#[verifier::ext_equal]
pub struct RequestFileView {
    pub name: Seq<char>,
    pub request_functions: Seq<RequestFunctionView>,
}

impl View for RequestFile {
    type V = RequestFileView;

    open spec fn view(&self) -> RequestFileView {
        RequestFileView {
            name: self.name@,
            request_functions: views_of_request_functions(self.request_functions@),
        }
    }
}

impl RequestFile {
    /// An empty request unit, to be filled in field by field.
    pub fn new() -> (r: Self)
        ensures
            r@.name.len() == 0,
            r@.request_functions.len() == 0,
    {
        RequestFile { name: String::new(), request_functions: Vec::new() }
    }
}

/// The whole run's aggregate: every service's units, the global action-name
/// list for the shared envelope, the two output folders and the common
/// module-name prefix.
#[derive(Debug)]
pub struct OutputFiles {
    pub annotation_string: Vec<String>,
    pub response_files: Vec<ResponseFile>,
    pub request_files: Vec<RequestFile>,
    pub response_output_folder: String,
    pub request_output_folder: String,
    pub prefix: String,
}

/// The abstract value of an `OutputFiles`.
#[verifier::ext_equal]
pub struct OutputFilesView {
    pub annotation_string: Seq<Seq<char>>,
    pub response_files: Seq<ResponseFileView>,
    pub request_files: Seq<RequestFileView>,
    pub response_output_folder: Seq<char>,
    pub request_output_folder: Seq<char>,
    pub prefix: Seq<char>,
}

impl View for OutputFiles {
    type V = OutputFilesView;

    open spec fn view(&self) -> OutputFilesView {
        OutputFilesView {
            annotation_string: views_of_strings(self.annotation_string@),
            response_files: views_of_response_files(self.response_files@),
            request_files: views_of_request_files(self.request_files@),
            response_output_folder: self.response_output_folder@,
            request_output_folder: self.request_output_folder@,
            prefix: self.prefix@,
        }
    }
}

impl OutputFiles {
    /// An empty aggregate with the default folder names and no prefix.
    pub fn new() -> (r: Self)
        ensures
            r@.annotation_string.len() == 0,
            r@.response_files.len() == 0,
            r@.request_files.len() == 0,
            r@.response_output_folder == "response_output"@,
            r@.request_output_folder == "request_output"@,
            r@.prefix.len() == 0,
    {
        OutputFiles {
            annotation_string: Vec::new(),
            response_files: Vec::new(),
            request_files: Vec::new(),
            response_output_folder: String::from_str("response_output"),
            request_output_folder: String::from_str("request_output"),
            prefix: String::new(),
        }
    }

    /// The response-module manifest: the shared envelope module plus one
    /// prefixed module name per response unit, each name once, sorted
    /// ascending.
    pub fn response_manifest(&self) -> (r: Vec<String>)
        ensures
            strings_strictly_sorted(r@),
            forall|y: Seq<char>|
                #![trigger has_str(r@, y)]
                has_str(r@, y) == (y == self@.prefix + "multi_use"@ || exists|i: int|
                    0 <= i < self@.response_files.len() && y == self@.prefix
                        + #[trigger] self@.response_files[i].name),
    {
        let mut names: Vec<String> = Vec::new();
        names.push(self.prefix.clone().concat("multi_use"));
        let mut i: usize = 0;
        while i < self.response_files.len()
            invariant
                i <= self.response_files@.len(),
                names@.len() == i + 1,
                names@[0]@ == self@.prefix + "multi_use"@,
                forall|k: int|
                    0 <= k < i ==> names@[k + 1]@ == self@.prefix
                        + #[trigger] self@.response_files[k].name,
            decreases self.response_files@.len() - i,
        {
            names.push(self.prefix.clone().concat(self.response_files[i].name.as_str()));
            i = i + 1;
        }
        let r = sort_dedup_strings(&names);
        proof {
            assert forall|y: Seq<char>| #![trigger has_str(r@, y)]
                has_str(r@, y) == (y == self@.prefix + "multi_use"@ || exists|i: int|
                    0 <= i < self@.response_files.len() && y == self@.prefix
                        + #[trigger] self@.response_files[i].name) by {
                if has_str(names@, y) {
                    let k = choose|k: int| 0 <= k < names@.len() && names@[k]@ == y;
                    if k > 0 {
                        assert(names@[(k - 1) + 1]@ == self@.prefix
                            + self@.response_files[k - 1].name);
                    }
                }
                if y == self@.prefix + "multi_use"@ {
                    assert(names@[0]@ == y);
                    assert(has_str(names@, y));
                }
                if exists|i: int|
                    0 <= i < self@.response_files.len() && y == self@.prefix
                        + #[trigger] self@.response_files[i].name {
                    let i = choose|i: int|
                        0 <= i < self@.response_files.len() && y == self@.prefix
                            + #[trigger] self@.response_files[i].name;
                    assert(names@[i + 1]@ == y);
                    assert(has_str(names@, y));
                }
            }
        }
        r
    }

    /// The request-module manifest: one prefixed module name per request
    /// unit, each name once, sorted ascending.
    pub fn request_manifest(&self) -> (r: Vec<String>)
        ensures
            strings_strictly_sorted(r@),
            forall|y: Seq<char>|
                #![trigger has_str(r@, y)]
                has_str(r@, y) == (exists|i: int|
                    0 <= i < self@.request_files.len() && y == self@.prefix
                        + #[trigger] self@.request_files[i].name),
    {
        let mut names: Vec<String> = Vec::new();
        let mut i: usize = 0;
        while i < self.request_files.len()
            invariant
                i <= self.request_files@.len(),
                names@.len() == i,
                forall|k: int|
                    0 <= k < i ==> names@[k]@ == self@.prefix
                        + #[trigger] self@.request_files[k].name,
            decreases self.request_files@.len() - i,
        {
            names.push(self.prefix.clone().concat(self.request_files[i].name.as_str()));
            i = i + 1;
        }
        let r = sort_dedup_strings(&names);
        proof {
            assert forall|y: Seq<char>| #![trigger has_str(r@, y)]
                has_str(r@, y) == (exists|i: int|
                    0 <= i < self@.request_files.len() && y == self@.prefix
                        + #[trigger] self@.request_files[i].name) by {
                if has_str(names@, y) {
                    let k = choose|k: int| 0 <= k < names@.len() && names@[k]@ == y;
                    assert(y == self@.prefix + self@.request_files[k].name);
                }
                if exists|i: int|
                    0 <= i < self@.request_files.len() && y == self@.prefix
                        + #[trigger] self@.request_files[i].name {
                    let i = choose|i: int|
                        0 <= i < self@.request_files.len() && y == self@.prefix
                            + #[trigger] self@.request_files[i].name;
                    assert(names@[i]@ == y);
                    assert(has_str(names@, y));
                }
            }
        }
        r
    }

    /// The alias list of the shared envelope unit: every distinct recorded
    /// action name, sorted ascending.
    pub fn envelope_aliases(&self) -> (r: Vec<String>)
        ensures
            strings_strictly_sorted(r@),
            forall|y: Seq<char>|
                #![trigger has_str(r@, y)]
                has_str(r@, y) == self@.annotation_string.contains(y),
    {
        let r = sort_dedup_strings(&self.annotation_string);
        proof {
            assert forall|y: Seq<char>| #![trigger has_str(r@, y)]
                has_str(r@, y) == self@.annotation_string.contains(y) by {
                if has_str(self.annotation_string@, y) {
                    let k = choose|k: int|
                        0 <= k < self.annotation_string@.len() && self.annotation_string@[k]@ == y;
                    assert(self@.annotation_string[k] == y);
                }
                if self@.annotation_string.contains(y) {
                    let k = choose|k: int|
                        0 <= k < self@.annotation_string.len()
                            && #[trigger] self@.annotation_string[k] == y;
                    assert(self.annotation_string@[k]@ == y);
                    assert(has_str(self.annotation_string@, y));
                }
            }
        }
        r
    }
}


/// The abstract values of a list of fields.
pub open spec fn views_of_fields(v: Seq<Field>) -> Seq<FieldView> {
    v.map_values(|f: Field| f@)
}

/// The abstract values of a list of response-record models.
pub open spec fn views_of_template_actions(v: Seq<TemplateAction>) -> Seq<TemplateActionView> {
    v.map_values(|a: TemplateAction| a@)
}

/// The abstract values of a list of parameters.
pub open spec fn views_of_parameters(v: Seq<ParameterAndType>) -> Seq<ParameterAndTypeView> {
    v.map_values(|p: ParameterAndType| p@)
}

/// The abstract values of a list of request constructors.
pub open spec fn views_of_request_functions(v: Seq<RequestFunction>) -> Seq<RequestFunctionView> {
    v.map_values(|f: RequestFunction| f@)
}

/// The abstract values of a list of response units.
pub open spec fn views_of_response_files(v: Seq<ResponseFile>) -> Seq<ResponseFileView> {
    v.map_values(|f: ResponseFile| f@)
}

/// The abstract values of a list of request units.
pub open spec fn views_of_request_files(v: Seq<RequestFile>) -> Seq<RequestFileView> {
    v.map_values(|f: RequestFile| f@)
}

/// The character sequences of a list of strings.
pub open spec fn views_of_strings(v: Seq<String>) -> Seq<Seq<char>> {
    v.map_values(|s: String| s@)
}


/// Appending to a list and then taking abstract values appends the element's
/// abstract value.
pub proof fn lemma_views_of_fields_push(v: Seq<Field>, x: Field)
    ensures
        views_of_fields(v.push(x)) == views_of_fields(v).push(x@),
{
    assert(views_of_fields(v.push(x)).len() == v.len() + 1);
    assert(views_of_fields(v).push(x@).len() == v.len() + 1);
    assert forall|k: int| 0 <= k < v.len() + 1 implies views_of_fields(v.push(x))[k]
        == views_of_fields(v).push(x@)[k] by {
        assert(views_of_fields(v.push(x))[k] == v.push(x)[k]@);
        if k < v.len() {
            assert(v.push(x)[k] == v[k]);
            assert(views_of_fields(v)[k] == v[k]@);
        } else {
            assert(v.push(x)[k] == x);
        }
    }
    assert(views_of_fields(v.push(x)) =~= views_of_fields(v).push(x@));
}

/// As `lemma_views_of_fields_push`, for parameters.
pub proof fn lemma_views_of_parameters_push(v: Seq<ParameterAndType>, x: ParameterAndType)
    ensures
        views_of_parameters(v.push(x)) == views_of_parameters(v).push(x@),
{
    assert(views_of_parameters(v.push(x)).len() == v.len() + 1);
    assert(views_of_parameters(v).push(x@).len() == v.len() + 1);
    assert forall|k: int| 0 <= k < v.len() + 1 implies views_of_parameters(v.push(x))[k]
        == views_of_parameters(v).push(x@)[k] by {
        assert(views_of_parameters(v.push(x))[k] == v.push(x)[k]@);
        if k < v.len() {
            assert(v.push(x)[k] == v[k]);
            assert(views_of_parameters(v)[k] == v[k]@);
        } else {
            assert(v.push(x)[k] == x);
        }
    }
    assert(views_of_parameters(v.push(x)) =~= views_of_parameters(v).push(x@));
}

/// As `lemma_views_of_fields_push`, for response-record models.
pub proof fn lemma_views_of_template_actions_push(v: Seq<TemplateAction>, x: TemplateAction)
    ensures
        views_of_template_actions(v.push(x)) == views_of_template_actions(v).push(x@),
{
    assert(views_of_template_actions(v.push(x)).len() == v.len() + 1);
    assert(views_of_template_actions(v).push(x@).len() == v.len() + 1);
    assert forall|k: int| 0 <= k < v.len() + 1 implies views_of_template_actions(v.push(x))[k]
        == views_of_template_actions(v).push(x@)[k] by {
        assert(views_of_template_actions(v.push(x))[k] == v.push(x)[k]@);
        if k < v.len() {
            assert(v.push(x)[k] == v[k]);
            assert(views_of_template_actions(v)[k] == v[k]@);
        } else {
            assert(v.push(x)[k] == x);
        }
    }
    assert(views_of_template_actions(v.push(x)) =~= views_of_template_actions(v).push(x@));
}

/// As `lemma_views_of_fields_push`, for request constructors.
pub proof fn lemma_views_of_request_functions_push(v: Seq<RequestFunction>, x: RequestFunction)
    ensures
        views_of_request_functions(v.push(x)) == views_of_request_functions(v).push(x@),
{
    assert(views_of_request_functions(v.push(x)).len() == v.len() + 1);
    assert(views_of_request_functions(v).push(x@).len() == v.len() + 1);
    assert forall|k: int| 0 <= k < v.len() + 1 implies views_of_request_functions(v.push(x))[k]
        == views_of_request_functions(v).push(x@)[k] by {
        assert(views_of_request_functions(v.push(x))[k] == v.push(x)[k]@);
        if k < v.len() {
            assert(v.push(x)[k] == v[k]);
            assert(views_of_request_functions(v)[k] == v[k]@);
        } else {
            assert(v.push(x)[k] == x);
        }
    }
    assert(views_of_request_functions(v.push(x)) =~= views_of_request_functions(v).push(x@));
}

/// As `lemma_views_of_fields_push`, for response units.
pub proof fn lemma_views_of_response_files_push(v: Seq<ResponseFile>, x: ResponseFile)
    ensures
        views_of_response_files(v.push(x)) == views_of_response_files(v).push(x@),
{
    assert(views_of_response_files(v.push(x)).len() == v.len() + 1);
    assert(views_of_response_files(v).push(x@).len() == v.len() + 1);
    assert forall|k: int| 0 <= k < v.len() + 1 implies views_of_response_files(v.push(x))[k]
        == views_of_response_files(v).push(x@)[k] by {
        assert(views_of_response_files(v.push(x))[k] == v.push(x)[k]@);
        if k < v.len() {
            assert(v.push(x)[k] == v[k]);
            assert(views_of_response_files(v)[k] == v[k]@);
        } else {
            assert(v.push(x)[k] == x);
        }
    }
    assert(views_of_response_files(v.push(x)) =~= views_of_response_files(v).push(x@));
}

/// As `lemma_views_of_fields_push`, for request units.
pub proof fn lemma_views_of_request_files_push(v: Seq<RequestFile>, x: RequestFile)
    ensures
        views_of_request_files(v.push(x)) == views_of_request_files(v).push(x@),
{
    assert(views_of_request_files(v.push(x)).len() == v.len() + 1);
    assert(views_of_request_files(v).push(x@).len() == v.len() + 1);
    assert forall|k: int| 0 <= k < v.len() + 1 implies views_of_request_files(v.push(x))[k]
        == views_of_request_files(v).push(x@)[k] by {
        assert(views_of_request_files(v.push(x))[k] == v.push(x)[k]@);
        if k < v.len() {
            assert(v.push(x)[k] == v[k]);
            assert(views_of_request_files(v)[k] == v[k]@);
        } else {
            assert(v.push(x)[k] == x);
        }
    }
    assert(views_of_request_files(v.push(x)) =~= views_of_request_files(v).push(x@));
}

/// Concatenating two string lists and taking their character sequences
/// concatenates the character sequences.
pub proof fn lemma_views_of_strings_add(a: Seq<String>, b: Seq<String>)
    ensures
        views_of_strings(a + b) == views_of_strings(a) + views_of_strings(b),
{
    assert(views_of_strings(a + b).len() == a.len() + b.len());
    assert(views_of_strings(a).len() == a.len());
    assert(views_of_strings(b).len() == b.len());
    assert forall|k: int| 0 <= k < a.len() + b.len() implies views_of_strings(a + b)[k] == (
    views_of_strings(a) + views_of_strings(b))[k] by {
        assert(views_of_strings(a + b)[k] == (a + b)[k]@);
        if k < a.len() {
            assert((a + b)[k] == a[k]);
            assert(views_of_strings(a)[k] == a[k]@);
        } else {
            assert((a + b)[k] == b[k - a.len()]);
            assert(views_of_strings(b)[k - a.len()] == b[k - a.len()]@);
        }
    }
    assert(views_of_strings(a + b) =~= views_of_strings(a) + views_of_strings(b));
}

/// Sorting and deduplication make a manifest deterministic: any two strictly
/// sorted lists with the same members — such as the manifests of two runs
/// over the same services — are equal element for element.
pub proof fn lemma_manifest_deterministic(a: Seq<String>, b: Seq<String>)
    requires
        strings_strictly_sorted(a),
        strings_strictly_sorted(b),
        forall|y: Seq<char>| has_str(a, y) == has_str(b, y),
    ensures
        a.len() == b.len(),
        forall|i: int| 0 <= i < a.len() ==> a[i]@ == b[i]@,
{
    crate::text::lemma_sorted_dedup_unique(a, b);
}

} // verus!
