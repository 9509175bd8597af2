//! One service's schema document — its actions, arguments and state-variable
//! table — and the builder that turns it into the service's output model.
//!
//! Every argument resolves its type through the state-variable table: a
//! reference to a missing variable is an `UnknownStateVariable` error, and a
//! variable with an unrecognized type tag an `UnmappedType` error. Either one
//! aborts the whole service: no partial action model is ever produced.

use vstd::prelude::*;
use vstd::string::*;
use crate::api_desc_dir::SpecVersion;
use crate::error::{error_reports, GenError, Issue};
use crate::helper::{rustify_spec, rustify_string};
use crate::model::{
    views_of_fields, views_of_parameters, views_of_strings, views_of_template_actions,
    views_of_request_functions, views_of_response_files, views_of_request_files,
    lemma_views_of_fields_push, lemma_views_of_parameters_push,
    lemma_views_of_template_actions_push, lemma_views_of_request_functions_push,
    lemma_views_of_response_files_push, lemma_views_of_request_files_push,
    lemma_views_of_strings_add, Field, FieldView, OutputFiles, OutputFilesView, ParameterAndType,
    ParameterAndTypeView, RequestFile, RequestFileView, RequestFunction, RequestFunctionView,
    ResponseFile, ResponseFileView, TemplateAction, TemplateActionView,
};
use crate::text::{chars_of_str, str_eq, string_of_chars};
use crate::types::{resolve_tag_spec, resolve_type_tag};

verus! {

broadcast use vstd::string::group_string_axioms;

/// A parsed service schema document.
#[derive(Debug)]
pub struct ApiDesc {
    pub spec_version: SpecVersion,
    pub action_list: ActionList,
    pub service_state_table: ServiceStateTable,
}

/// The actions a service offers, in document order.
#[derive(Debug)]
pub struct ActionList {
    pub action: Vec<Action>,
}

/// One remotely invocable action and its arguments, in document order.
#[derive(Debug)]
pub struct Action {
    pub name: String,
    pub argument_list: ArgumentList,
}

/// The arguments of one action.
#[derive(Debug)]
pub struct ArgumentList {
    pub argument: Vec<Argument>,
}

/// One argument: its wire name, its direction (`in` or `out`), and the state
/// variable that declares its type.
#[derive(Debug)]
pub struct Argument {
    pub name: String,
    pub direction: String,
    pub related_state_variable: String,
}

/// The state-variable table of a schema document.
#[derive(Debug)]
pub struct ServiceStateTable {
    pub state_variable: Vec<StateVariable>,
}

/// One state variable: its name, declared type tag, optional default and
/// optional enumeration of allowed values.
#[derive(Debug)]
pub struct StateVariable {
    pub name: String,
    pub data_type: String,
    pub default_value: String,
    pub allowed_value_list: AllowedValueList,
}

/// The enumerated values a state variable may take.
#[derive(Debug)]
pub struct AllowedValueList {
    pub allowed_value: Vec<String>,
}

/// The first state variable of the table with the given name, if any.
pub open spec fn sst_lookup(vars: Seq<StateVariable>, name: Seq<char>) -> Option<StateVariable>
    decreases vars.len(),
{
    if vars.len() == 0 {
        None
    } else if vars[0].name@ == name {
        Some(vars[0])
    } else {
        sst_lookup(vars.drop_first(), name)
    }
}

/// Why one argument fails to resolve, if it does. An argument whose direction
/// is neither `in` nor `out` is skipped entirely and never fails.
pub open spec fn arg_issue(desc: ApiDesc, a: Argument) -> Option<Issue> {
    if a.direction@ == "in"@ || a.direction@ == "out"@ {
        match sst_lookup(desc.service_state_table.state_variable@, a.related_state_variable@) {
            None => Some(Issue::UnknownVar(a.related_state_variable@)),
            Some(sv) => match resolve_tag_spec(sv.data_type@) {
                None => Some(Issue::BadType(sv.data_type@)),
                Some(t) => None,
            },
        }
    } else {
        None
    }
}

/// The rendered type name of an argument that resolves.
pub open spec fn arg_target_type(desc: ApiDesc, a: Argument) -> Seq<char> {
    match sst_lookup(desc.service_state_table.state_variable@, a.related_state_variable@) {
        None => Seq::empty(),
        Some(sv) => match resolve_tag_spec(sv.data_type@) {
            None => Seq::empty(),
            Some(t) => t.target_type_spec(),
        },
    }
}

/// The response-record field an `out` argument becomes.
pub open spec fn field_of(desc: ApiDesc, a: Argument) -> FieldView {
    FieldView {
        name: rustify_spec(a.name@),
        xml_name: a.name@,
        target_type: arg_target_type(desc, a),
    }
}

/// The request parameter an `in` argument becomes.
pub open spec fn param_of(desc: ApiDesc, a: Argument) -> ParameterAndTypeView {
    ParameterAndTypeView {
        parameter_name: a.name@,
        parameter_name_rusty: rustify_spec(a.name@),
        target_type: arg_target_type(desc, a),
    }
}

/// Characters that survive in a response type name.
pub open spec fn keep_char(c: char) -> bool {
    c != '-' && c != '_'
}

/// The action name with hyphens and underscores struck out.
pub open spec fn strip_separators(s: Seq<char>) -> Seq<char> {
    s.filter(|c: char| keep_char(c))
}

/// The response-record type name of an action: the raw action name without
/// separators, then the fixed response suffix. The name deliberately stays in
/// the vendor's casing — response types follow type-naming convention, not
/// field-naming convention.
pub open spec fn response_name_spec(name: Seq<char>) -> Seq<char> {
    strip_separators(name) + "Response"@
}

/// The response fields contributed by the arguments from position `i` on:
/// one per `out` argument, in source order.
pub open spec fn fields_from(desc: ApiDesc, args: Seq<Argument>, i: int) -> Seq<FieldView>
    decreases args.len() - i,
{
    if i < 0 || i >= args.len() {
        Seq::empty()
    } else if args[i].direction@ == "out"@ {
        seq![field_of(desc, args[i])] + fields_from(desc, args, i + 1)
    } else {
        fields_from(desc, args, i + 1)
    }
}

/// The request parameters contributed by the arguments from position `i` on:
/// one per `in` argument, in source order.
pub open spec fn params_from(desc: ApiDesc, args: Seq<Argument>, i: int) -> Seq<
    ParameterAndTypeView,
>
    decreases args.len() - i,
{
    if i < 0 || i >= args.len() {
        Seq::empty()
    } else if args[i].direction@ == "in"@ {
        seq![param_of(desc, args[i])] + params_from(desc, args, i + 1)
    } else {
        params_from(desc, args, i + 1)
    }
}

/// The first failure among the arguments from position `i` on, if any.
pub open spec fn args_issue_from(desc: ApiDesc, args: Seq<Argument>, i: int) -> Option<Issue>
    decreases args.len() - i,
{
    if i < 0 || i >= args.len() {
        None
    } else if arg_issue(desc, args[i]) is Some {
        arg_issue(desc, args[i])
    } else {
        args_issue_from(desc, args, i + 1)
    }
}

/// The response-record model one action builds.
pub open spec fn template_action_of(desc: ApiDesc, act: Action) -> TemplateActionView {
    TemplateActionView {
        name: response_name_spec(act.name@),
        fields: fields_from(desc, act.argument_list.argument@, 0),
    }
}

/// The request constructor one action builds.
pub open spec fn request_function_of(
    desc: ApiDesc,
    act: Action,
    service_type: Seq<char>,
    control_url: Seq<char>,
) -> RequestFunctionView {
    RequestFunctionView {
        name: act.name@,
        name_rusty: rustify_spec(act.name@),
        parameter: params_from(desc, act.argument_list.argument@, 0),
        service_type: service_type,
        action_name: act.name@,
        control_url: control_url,
    }
}

/// The response-record models of the actions from position `i` on.
pub open spec fn template_actions_from(desc: ApiDesc, acts: Seq<Action>, i: int) -> Seq<
    TemplateActionView,
>
    decreases acts.len() - i,
{
    if i < 0 || i >= acts.len() {
        Seq::empty()
    } else {
        seq![template_action_of(desc, acts[i])] + template_actions_from(desc, acts, i + 1)
    }
}

/// The request constructors of the actions from position `i` on.
pub open spec fn request_functions_from(
    desc: ApiDesc,
    acts: Seq<Action>,
    service_type: Seq<char>,
    control_url: Seq<char>,
    i: int,
) -> Seq<RequestFunctionView>
    decreases acts.len() - i,
{
    if i < 0 || i >= acts.len() {
        Seq::empty()
    } else {
        seq![request_function_of(desc, acts[i], service_type, control_url)]
            + request_functions_from(desc, acts, service_type, control_url, i + 1)
    }
}

/// The raw names of the actions from position `i` on.
pub open spec fn action_names_from(acts: Seq<Action>, i: int) -> Seq<Seq<char>>
    decreases acts.len() - i,
{
    if i < 0 || i >= acts.len() {
        Seq::empty()
    } else {
        seq![acts[i].name@] + action_names_from(acts, i + 1)
    }
}

/// The first failure among the actions from position `i` on, if any.
pub open spec fn actions_issue_from(desc: ApiDesc, acts: Seq<Action>, i: int) -> Option<Issue>
    decreases acts.len() - i,
{
    if i < 0 || i >= acts.len() {
        None
    } else if args_issue_from(desc, acts[i].argument_list.argument@, 0) is Some {
        args_issue_from(desc, acts[i].argument_list.argument@, 0)
    } else {
        actions_issue_from(desc, acts, i + 1)
    }
}

/// The first failure of a whole schema document, if any: actions in order,
/// and within each action its arguments in order.
pub open spec fn desc_issue(desc: ApiDesc) -> Option<Issue> {
    actions_issue_from(desc, desc.action_list.action@, 0)
}

/// Whether an argument flows out of the device.
pub open spec fn is_out_arg(a: Argument) -> bool {
    a.direction@ == "out"@
}

/// The `out` arguments of an action, in source order.
pub open spec fn out_arguments(args: Seq<Argument>) -> Seq<Argument> {
    args.filter(|a: Argument| is_out_arg(a))
}

/// Each argument of the list turned into its response field.
pub open spec fn fields_of_arguments(desc: ApiDesc, args: Seq<Argument>) -> Seq<FieldView> {
    args.map_values(|a: Argument| field_of(desc, a))
}

/// An action with no `in`-direction arguments produces a request constructor
/// whose parameter list is empty: the request function takes nothing beyond
/// its fixed endpoint data.
pub proof fn lemma_no_in_arguments_no_parameters(
    desc: ApiDesc,
    act: Action,
    service_type: Seq<char>,
    control_url: Seq<char>,
)
    requires
        forall|k: int|
            0 <= k < act.argument_list.argument@.len()
                ==> #[trigger] act.argument_list.argument@[k].direction@ != "in"@,
    ensures
        request_function_of(desc, act, service_type, control_url).parameter.len() == 0,
{
    lemma_params_from_no_in(desc, act.argument_list.argument@, 0);
}

proof fn lemma_params_from_no_in(desc: ApiDesc, args: Seq<Argument>, i: int)
    requires
        0 <= i,
        forall|k: int| 0 <= k < args.len() ==> #[trigger] args[k].direction@ != "in"@,
    ensures
        params_from(desc, args, i).len() == 0,
    decreases args.len() - i,
{
    if i < args.len() {
        lemma_params_from_no_in(desc, args, i + 1);
    }
}

/// Mapping a list of arguments to fields commutes with appending one.
proof fn lemma_fields_of_arguments_push(desc: ApiDesc, v: Seq<Argument>, x: Argument)
    ensures
        fields_of_arguments(desc, v.push(x)) == fields_of_arguments(desc, v).push(
            field_of(desc, x),
        ),
{
    assert(fields_of_arguments(desc, v.push(x)).len() == v.len() + 1);
    assert(fields_of_arguments(desc, v).push(field_of(desc, x)).len() == v.len() + 1);
    assert forall|k: int| 0 <= k < v.len() + 1 implies fields_of_arguments(desc, v.push(x))[k]
        == fields_of_arguments(desc, v).push(field_of(desc, x))[k] by {
        assert(fields_of_arguments(desc, v.push(x))[k] == field_of(desc, v.push(x)[k]));
        if k < v.len() {
            assert(v.push(x)[k] == v[k]);
            assert(fields_of_arguments(desc, v)[k] == field_of(desc, v[k]));
        } else {
            assert(v.push(x)[k] == x);
        }
    }
    assert(fields_of_arguments(desc, v.push(x)) =~= fields_of_arguments(desc, v).push(
        field_of(desc, x),
    ));
}

/// Striking the last argument off the list removes at most the last field.
proof fn lemma_fields_from_drop_last(desc: ApiDesc, args: Seq<Argument>, i: int)
    requires
        0 <= i < args.len(),
    ensures
        fields_from(desc, args, i) == fields_from(desc, args.drop_last(), i) + (if is_out_arg(
            args.last(),
        ) {
            seq![field_of(desc, args.last())]
        } else {
            Seq::<FieldView>::empty()
        }),
    decreases args.len() - i,
{
    let dl = args.drop_last();
    let tail = if is_out_arg(args.last()) {
        seq![field_of(desc, args.last())]
    } else {
        Seq::<FieldView>::empty()
    };
    if i == args.len() - 1 {
        assert(fields_from(desc, args, i + 1) =~= Seq::<FieldView>::empty());
        assert(fields_from(desc, dl, i) =~= Seq::<FieldView>::empty());
        assert(args[i] == args.last());
        if is_out_arg(args.last()) {
            assert(fields_from(desc, args, i) == seq![field_of(desc, args[i])] + fields_from(
                desc,
                args,
                i + 1,
            ));
            assert(seq![field_of(desc, args[i])] + Seq::<FieldView>::empty() =~= Seq::<
                FieldView,
            >::empty() + seq![field_of(desc, args.last())]);
        } else {
            assert(fields_from(desc, args, i) == fields_from(desc, args, i + 1));
            assert(Seq::<FieldView>::empty() =~= Seq::<FieldView>::empty() + Seq::<
                FieldView,
            >::empty());
        }
    } else {
        lemma_fields_from_drop_last(desc, args, i + 1);
        assert(dl[i] == args[i]);
        if is_out_arg(args[i]) {
            assert(fields_from(desc, args, i) == seq![field_of(desc, args[i])] + fields_from(
                desc,
                args,
                i + 1,
            ));
            assert(fields_from(desc, dl, i) == seq![field_of(desc, dl[i])] + fields_from(
                desc,
                dl,
                i + 1,
            ));
            assert(seq![field_of(desc, args[i])] + (fields_from(desc, dl, i + 1) + tail) =~= (seq![
                field_of(desc, args[i]),
            ] + fields_from(desc, dl, i + 1)) + tail);
        } else {
            assert(fields_from(desc, args, i) == fields_from(desc, args, i + 1));
            assert(fields_from(desc, dl, i) == fields_from(desc, dl, i + 1));
        }
    }
}

/// Source-order preservation of response fields: the field list of an
/// action's response record is exactly its `out` arguments, in the order they
/// stand in the schema, each turned into its field — never reordered.
pub proof fn lemma_fields_in_source_order(desc: ApiDesc, args: Seq<Argument>)
    ensures
        fields_from(desc, args, 0) == fields_of_arguments(desc, out_arguments(args)),
    decreases args.len(),
{
    reveal(Seq::filter);
    if args.len() == 0 {
        assert(out_arguments(args) =~= Seq::<Argument>::empty());
        assert(fields_of_arguments(desc, out_arguments(args)) =~= Seq::<FieldView>::empty());
    } else {
        let dl = args.drop_last();
        lemma_fields_in_source_order(desc, dl);
        lemma_fields_from_drop_last(desc, args, 0);
        if is_out_arg(args.last()) {
            assert(out_arguments(args) == out_arguments(dl).push(args.last()));
            lemma_fields_of_arguments_push(desc, out_arguments(dl), args.last());
            assert(fields_of_arguments(desc, out_arguments(dl)).push(field_of(desc, args.last()))
                =~= fields_of_arguments(desc, out_arguments(dl)) + seq![
                field_of(desc, args.last()),
            ]);
        } else {
            assert(out_arguments(args) == out_arguments(dl));
            assert(fields_from(desc, dl, 0) + Seq::<FieldView>::empty() =~= fields_from(
                desc,
                dl,
                0,
            ));
        }
    }
}

/// Derives the response-record type name of an action: the raw name without
/// hyphens or underscores, then the fixed response suffix.
pub fn response_type_name(name: &str) -> (r: String)
    ensures
        r@ == response_name_spec(name@),
{
    let v = chars_of_str(name);
    let mut out: Vec<char> = Vec::new();
    let mut i: usize = 0;
    proof {
        reveal(Seq::filter);
        assert(v@.take(0) =~= Seq::<char>::empty());
    }
    while i < v.len()
        invariant
            i <= v@.len(),
            out@ == strip_separators(v@.take(i as int)),
        decreases v@.len() - i,
    {
        let c = v[i];
        if !(c == '-' || c == '_') {
            out.push(c);
        }
        i = i + 1;
        proof {
            reveal(Seq::filter);
            assert(v@.take(i as int).drop_last() =~= v@.take(i - 1));
            assert(v@.take(i as int).last() == v@[i - 1]);
        }
    }
    proof {
        assert(v@.take(v@.len() as int) =~= v@);
    }
    let s = string_of_chars(&out);
    s.concat("Response")
}

impl ApiDesc {
    /// Looks the named state variable up in this schema's table and renders
    /// its resolved type: `UnknownStateVariable` when the table has no such
    /// entry, `UnmappedType` when its type tag is not recognized.
    pub fn search_state_variable_type(&self, state_variable_name: &str) -> (r: Result<
        String,
        GenError,
    >)
        ensures
            (match sst_lookup(self.service_state_table.state_variable@, state_variable_name@) {
                None => r matches Err(e) && (e matches GenError::UnknownStateVariable(m) && m@
                    == state_variable_name@),
                Some(sv) => match resolve_tag_spec(sv.data_type@) {
                    None => r matches Err(e) && (e matches GenError::UnmappedType(m) && m@
                        == sv.data_type@),
                    Some(t) => r matches Ok(s) && s@ == t.target_type_spec(),
                },
            }),
    {
        let n = self.service_state_table.state_variable.len();
        let mut i: usize = 0;
        proof {
            assert(self.service_state_table.state_variable@.skip(0)
                =~= self.service_state_table.state_variable@);
        }
        while i < n
            invariant
                n == self.service_state_table.state_variable@.len(),
                i <= n,
                sst_lookup(self.service_state_table.state_variable@, state_variable_name@)
                    == sst_lookup(
                    self.service_state_table.state_variable@.skip(i as int),
                    state_variable_name@,
                ),
            decreases n - i,
        {
            proof {
                assert(self.service_state_table.state_variable@.skip(i as int)[0]
                    == self.service_state_table.state_variable@[i as int]);
                assert(self.service_state_table.state_variable@.skip(i as int).drop_first()
                    =~= self.service_state_table.state_variable@.skip(i + 1));
            }
            let variable = &self.service_state_table.state_variable[i];
            if str_eq(state_variable_name, variable.name.as_str()) {
                match resolve_type_tag(variable.data_type.as_str()) {
                    Ok(t) => {
                        return Ok(t.target_type());
                    },
                    Err(e) => {
                        return Err(e);
                    },
                }
            }
            i = i + 1;
        }
        proof {
            assert(self.service_state_table.state_variable@.skip(i as int).len() == 0);
        }
        Err(GenError::UnknownStateVariable(String::from_str(state_variable_name)))
    }
}

/// Builds one action's response-record model and request constructor,
/// aborting on the first argument that fails to resolve.
fn build_action(desc: &ApiDesc, act: &Action, service_type: &str, control_url: &str) -> (r: Result<
    (TemplateAction, RequestFunction),
    GenError,
>)
    ensures
        r is Ok <==> args_issue_from(*desc, act.argument_list.argument@, 0) is None,
        r matches Ok(pair) ==> pair.0@ == template_action_of(*desc, *act) && pair.1@
            == request_function_of(*desc, *act, service_type@, control_url@),
        r matches Err(e) ==> (args_issue_from(*desc, act.argument_list.argument@, 0) matches Some(
        issue) && error_reports(e, issue)),
{
    let ghost args = act.argument_list.argument@;
    let mut request_function = RequestFunction::new(
        act.name.clone(),
        String::from_str(service_type),
        String::from_str(control_url),
    );
    let mut fields: Vec<Field> = Vec::new();
    let mut j: usize = 0;
    proof {
        assert(views_of_fields(fields@) + fields_from(*desc, args, 0) =~= fields_from(
            *desc,
            args,
            0,
        ));
        assert(views_of_parameters(request_function.parameter@) + params_from(*desc, args, 0)
            =~= params_from(*desc, args, 0));
    }
    while j < act.argument_list.argument.len()
        invariant
            j <= args.len(),
            args == act.argument_list.argument@,
            args_issue_from(*desc, args, 0) == args_issue_from(*desc, args, j as int),
            views_of_fields(fields@) + fields_from(*desc, args, j as int) == fields_from(
                *desc,
                args,
                0,
            ),
            views_of_parameters(request_function.parameter@) + params_from(*desc, args, j as int)
                == params_from(*desc, args, 0),
            request_function@.name == act.name@,
            request_function@.name_rusty == rustify_spec(act.name@),
            request_function@.service_type == service_type@,
            request_function@.action_name == act.name@,
            request_function@.control_url == control_url@,
        decreases args.len() - j,
    {
        let argument = &act.argument_list.argument[j];
        proof {
            assert(*argument == args[j as int]);
        }
        let is_out = str_eq(argument.direction.as_str(), "out");
        let is_in = if is_out {
            false
        } else {
            str_eq(argument.direction.as_str(), "in")
        };
        if is_out || is_in {
            let t = match desc.search_state_variable_type(argument.related_state_variable.as_str())
                {
                Ok(t) => t,
                Err(e) => {
                    proof {
                        assert(arg_issue(*desc, args[j as int]) is Some);
                        assert(args_issue_from(*desc, args, j as int) == arg_issue(
                            *desc,
                            args[j as int],
                        ));
                        assert(args_issue_from(*desc, args, 0) matches Some(issue)
                            && error_reports(e, issue));
                    }
                    return Err(e);
                },
            };
            proof {
                assert(arg_issue(*desc, args[j as int]) is None);
                assert(t@ == arg_target_type(*desc, args[j as int]));
            }
            if is_out {
                let ghost fields_prior = fields@;
                fields.push(
                    Field {
                        name: rustify_string(argument.name.as_str()),
                        xml_name: argument.name.clone(),
                        target_type: t,
                    },
                );
                proof {
                    reveal_strlit("in");
                    reveal_strlit("out");
                    lemma_views_of_fields_push(fields_prior, fields@.last());
                    assert(fields@.last()@ == field_of(*desc, args[j as int]));
                    assert(fields_from(*desc, args, j as int) == seq![
                        field_of(*desc, args[j as int]),
                    ] + fields_from(*desc, args, j + 1));
                    assert(views_of_fields(fields_prior).push(field_of(*desc, args[j as int]))
                        =~= views_of_fields(fields_prior) + seq![field_of(*desc, args[j as int])]);
                    assert((views_of_fields(fields_prior) + seq![field_of(*desc, args[j as int])])
                        + fields_from(*desc, args, j + 1) =~= views_of_fields(fields_prior) + (seq![
                        field_of(*desc, args[j as int]),
                    ] + fields_from(*desc, args, j + 1)));
                    // the two direction words differ, so an out argument
                    // contributes no parameter
                    assert("in"@.len() == 2);
                    assert("out"@.len() == 3);
                    assert(args[j as int].direction@ != "in"@);
                    assert(params_from(*desc, args, j as int) == params_from(*desc, args, j + 1));
                }
            } else {
                let ghost params_prior = request_function.parameter@;
                request_function.parameter.push(
                    ParameterAndType {
                        parameter_name: argument.name.clone(),
                        parameter_name_rusty: rustify_string(argument.name.as_str()),
                        target_type: t,
                    },
                );
                proof {
                    lemma_views_of_parameters_push(
                        params_prior,
                        request_function.parameter@.last(),
                    );
                    assert(request_function.parameter@.last()@ == param_of(
                        *desc,
                        args[j as int],
                    ));
                    assert(params_from(*desc, args, j as int) == seq![
                        param_of(*desc, args[j as int]),
                    ] + params_from(*desc, args, j + 1));
                    assert(views_of_parameters(params_prior).push(param_of(*desc, args[j as int]))
                        =~= views_of_parameters(params_prior) + seq![
                        param_of(*desc, args[j as int]),
                    ]);
                    assert((views_of_parameters(params_prior) + seq![
                        param_of(*desc, args[j as int]),
                    ]) + params_from(*desc, args, j + 1) =~= views_of_parameters(params_prior) + (
                    seq![param_of(*desc, args[j as int])] + params_from(*desc, args, j + 1)));
                    assert(fields_from(*desc, args, j as int) == fields_from(*desc, args, j + 1));
                }
            }
        } else {
            proof {
                assert(arg_issue(*desc, args[j as int]) is None);
                assert(fields_from(*desc, args, j as int) == fields_from(*desc, args, j + 1));
                assert(params_from(*desc, args, j as int) == params_from(*desc, args, j + 1));
            }
        }
        j = j + 1;
    }
    proof {
        assert(args_issue_from(*desc, args, j as int) is None);
        assert(fields_from(*desc, args, j as int) =~= Seq::<FieldView>::empty());
        assert(views_of_fields(fields@) + fields_from(*desc, args, j as int) =~= views_of_fields(
            fields@,
        ));
        assert(params_from(*desc, args, j as int) =~= Seq::<ParameterAndTypeView>::empty());
        assert(views_of_parameters(request_function.parameter@) + params_from(
            *desc,
            args,
            j as int,
        ) =~= views_of_parameters(request_function.parameter@));
    }
    let ta = TemplateAction { name: response_type_name(act.name.as_str()), fields };
    proof {
        assert(ta@ =~~= template_action_of(*desc, *act));
        assert(request_function@ =~~= request_function_of(
            *desc,
            *act,
            service_type@,
            control_url@,
        ));
    }
    Ok((ta, request_function))
}

impl ApiDesc {
    /// Builds this schema's whole contribution to the aggregate — the raw
    /// action names for the shared envelope, one response unit and one
    /// request unit, both named by the normalized service name — and appends
    /// it to `output_files`. On the first argument that fails to resolve the
    /// aggregate is left exactly as it was and the error reports the
    /// offending name or tag.
    pub fn fill_output_files(
        &self,
        output_files: &mut OutputFiles,
        name: &str,
        control_url: &str,
        service_type: &str,
    ) -> (r: Result<(), GenError>)
        ensures
            r is Ok <==> desc_issue(*self) is None,
            r is Ok ==> final(output_files)@ == (OutputFilesView {
                annotation_string: old(output_files)@.annotation_string + action_names_from(
                    self.action_list.action@,
                    0,
                ),
                response_files: old(output_files)@.response_files.push(
                    ResponseFileView {
                        name: rustify_spec(name@),
                        actions: template_actions_from(*self, self.action_list.action@, 0),
                    },
                ),
                request_files: old(output_files)@.request_files.push(
                    RequestFileView {
                        name: rustify_spec(name@),
                        request_functions: request_functions_from(
                            *self,
                            self.action_list.action@,
                            service_type@,
                            control_url@,
                            0,
                        ),
                    },
                ),
                response_output_folder: old(output_files)@.response_output_folder,
                request_output_folder: old(output_files)@.request_output_folder,
                prefix: old(output_files)@.prefix,
            }),
            r matches Err(e) ==> (desc_issue(*self) matches Some(issue) && error_reports(e, issue)
                && final(output_files)@ == old(output_files)@),
    {
        let ghost acts = self.action_list.action@;
        let rusty_name = rustify_string(name);
        let mut template_actions: Vec<TemplateAction> = Vec::new();
        let mut request_functions: Vec<RequestFunction> = Vec::new();
        let mut annotations: Vec<String> = Vec::new();
        let mut i: usize = 0;
        proof {
            assert(views_of_template_actions(template_actions@) + template_actions_from(
                *self,
                acts,
                0,
            ) =~= template_actions_from(*self, acts, 0));
            assert(views_of_request_functions(request_functions@) + request_functions_from(
                *self,
                acts,
                service_type@,
                control_url@,
                0,
            ) =~= request_functions_from(*self, acts, service_type@, control_url@, 0));
            assert(views_of_strings(annotations@) + action_names_from(acts, 0)
                =~= action_names_from(acts, 0));
        }
        while i < self.action_list.action.len()
            invariant
                i <= acts.len(),
                acts == self.action_list.action@,
                actions_issue_from(*self, acts, 0) == actions_issue_from(*self, acts, i as int),
                views_of_template_actions(template_actions@) + template_actions_from(
                    *self,
                    acts,
                    i as int,
                ) == template_actions_from(*self, acts, 0),
                views_of_request_functions(request_functions@) + request_functions_from(
                    *self,
                    acts,
                    service_type@,
                    control_url@,
                    i as int,
                ) == request_functions_from(*self, acts, service_type@, control_url@, 0),
                views_of_strings(annotations@) + action_names_from(acts, i as int)
                    == action_names_from(acts, 0),
            decreases acts.len() - i,
        {
            let act = &self.action_list.action[i];
            proof {
                assert(*act == acts[i as int]);
            }
            match build_action(self, act, service_type, control_url) {
                Ok(pair) => {
                    let (ta, rf) = pair;
                    let ghost tas_prior = template_actions@;
                    let ghost rfs_prior = request_functions@;
                    let ghost ann_prior = annotations@;
                    template_actions.push(ta);
                    request_functions.push(rf);
                    annotations.push(act.name.clone());
                    proof {
                        assert(actions_issue_from(*self, acts, i as int) == actions_issue_from(
                            *self,
                            acts,
                            i + 1,
                        ));
                        lemma_views_of_template_actions_push(tas_prior, template_actions@.last());
                        assert(template_actions_from(*self, acts, i as int) == seq![
                            template_action_of(*self, acts[i as int]),
                        ] + template_actions_from(*self, acts, i + 1));
                        assert(views_of_template_actions(tas_prior).push(
                            template_action_of(*self, acts[i as int]),
                        ) =~= views_of_template_actions(tas_prior) + seq![
                            template_action_of(*self, acts[i as int]),
                        ]);
                        assert((views_of_template_actions(tas_prior) + seq![
                            template_action_of(*self, acts[i as int]),
                        ]) + template_actions_from(*self, acts, i + 1)
                            =~= views_of_template_actions(tas_prior) + (seq![
                            template_action_of(*self, acts[i as int]),
                        ] + template_actions_from(*self, acts, i + 1)));
                        lemma_views_of_request_functions_push(
                            rfs_prior,
                            request_functions@.last(),
                        );
                        assert(request_functions_from(
                            *self,
                            acts,
                            service_type@,
                            control_url@,
                            i as int,
                        ) == seq![
                            request_function_of(
                                *self,
                                acts[i as int],
                                service_type@,
                                control_url@,
                            ),
                        ] + request_functions_from(
                            *self,
                            acts,
                            service_type@,
                            control_url@,
                            i + 1,
                        ));
                        assert(views_of_request_functions(rfs_prior).push(
                            request_function_of(
                                *self,
                                acts[i as int],
                                service_type@,
                                control_url@,
                            ),
                        ) =~= views_of_request_functions(rfs_prior) + seq![
                            request_function_of(
                                *self,
                                acts[i as int],
                                service_type@,
                                control_url@,
                            ),
                        ]);
                        assert((views_of_request_functions(rfs_prior) + seq![
                            request_function_of(
                                *self,
                                acts[i as int],
                                service_type@,
                                control_url@,
                            ),
                        ]) + request_functions_from(
                            *self,
                            acts,
                            service_type@,
                            control_url@,
                            i + 1,
                        ) =~= views_of_request_functions(rfs_prior) + (seq![
                            request_function_of(
                                *self,
                                acts[i as int],
                                service_type@,
                                control_url@,
                            ),
                        ] + request_functions_from(
                            *self,
                            acts,
                            service_type@,
                            control_url@,
                            i + 1,
                        )));
                        assert(annotations@ == ann_prior.push(annotations@.last()));
                        assert(annotations@.last()@ == acts[i as int].name@);
                        assert(action_names_from(acts, i as int) == seq![acts[i as int].name@]
                            + action_names_from(acts, i + 1));
                        assert forall|k: int| 0 <= k < annotations@.len() implies views_of_strings(
                            annotations@,
                        )[k] == views_of_strings(ann_prior).push(acts[i as int].name@)[k] by {
                            assert(views_of_strings(annotations@)[k] == annotations@[k]@);
                            if k < ann_prior.len() {
                                assert(annotations@[k] == ann_prior[k]);
                                assert(views_of_strings(ann_prior)[k] == ann_prior[k]@);
                            }
                        }
                        assert(views_of_strings(annotations@).len() == ann_prior.len() + 1);
                        assert(views_of_strings(ann_prior).len() == ann_prior.len());
                        assert(views_of_strings(annotations@) =~= views_of_strings(
                            ann_prior,
                        ).push(acts[i as int].name@));
                        assert(views_of_strings(ann_prior).push(acts[i as int].name@)
                            =~= views_of_strings(ann_prior) + seq![acts[i as int].name@]);
                        assert((views_of_strings(ann_prior) + seq![acts[i as int].name@])
                            + action_names_from(acts, i + 1) =~= views_of_strings(ann_prior) + (
                        seq![acts[i as int].name@] + action_names_from(acts, i + 1)));
                    }
                },
                Err(e) => {
                    proof {
                        assert(actions_issue_from(*self, acts, i as int) == args_issue_from(
                            *self,
                            acts[i as int].argument_list.argument@,
                            0,
                        ));
                        assert(desc_issue(*self) matches Some(issue) && error_reports(e, issue));
                    }
                    return Err(e);
                },
            }
            i = i + 1;
        }
        proof {
            assert(actions_issue_from(*self, acts, i as int) is None);
            assert(template_actions_from(*self, acts, i as int)
                =~= Seq::<TemplateActionView>::empty());
            assert(views_of_template_actions(template_actions@) + template_actions_from(
                *self,
                acts,
                i as int,
            ) =~= views_of_template_actions(template_actions@));
            assert(request_functions_from(*self, acts, service_type@, control_url@, i as int)
                =~= Seq::<RequestFunctionView>::empty());
            assert(views_of_request_functions(request_functions@) + request_functions_from(
                *self,
                acts,
                service_type@,
                control_url@,
                i as int,
            ) =~= views_of_request_functions(request_functions@));
            assert(action_names_from(acts, i as int) =~= Seq::<Seq<char>>::empty());
            assert(views_of_strings(annotations@) + action_names_from(acts, i as int)
                =~= views_of_strings(annotations@));
        }
        let ghost old_files = output_files@;
        let ghost ann_old = output_files.annotation_string@;
        let ghost ann_new = annotations@;
        output_files.annotation_string.append(&mut annotations);
        let ghost resp_old = output_files.response_files@;
        let response_file = ResponseFile { name: rusty_name.clone(), actions: template_actions };
        output_files.response_files.push(response_file);
        let ghost req_old = output_files.request_files@;
        let request_file = RequestFile { name: rusty_name, request_functions };
        output_files.request_files.push(request_file);
        proof {
            lemma_views_of_strings_add(ann_old, ann_new);
            lemma_views_of_response_files_push(resp_old, output_files.response_files@.last());
            lemma_views_of_request_files_push(req_old, output_files.request_files@.last());
            assert(output_files.response_files@.last()@ =~~= (ResponseFileView {
                name: rustify_spec(name@),
                actions: template_actions_from(*self, acts, 0),
            }));
            assert(output_files.request_files@.last()@ =~~= (RequestFileView {
                name: rustify_spec(name@),
                request_functions: request_functions_from(
                    *self,
                    acts,
                    service_type@,
                    control_url@,
                    0,
                ),
            }));
            assert(output_files@ =~~= (OutputFilesView {
                annotation_string: old_files.annotation_string + action_names_from(acts, 0),
                response_files: old_files.response_files.push(
                    ResponseFileView {
                        name: rustify_spec(name@),
                        actions: template_actions_from(*self, acts, 0),
                    },
                ),
                request_files: old_files.request_files.push(
                    RequestFileView {
                        name: rustify_spec(name@),
                        request_functions: request_functions_from(
                            *self,
                            acts,
                            service_type@,
                            control_url@,
                            0,
                        ),
                    },
                ),
                response_output_folder: old_files.response_output_folder,
                request_output_folder: old_files.request_output_folder,
                prefix: old_files.prefix,
            }));
        }
        Ok(())
    }
}

} // verus!
