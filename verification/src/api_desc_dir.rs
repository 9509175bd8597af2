//! The device-tree description: a device, its services, and its nested
//! devices, plus the walker that enumerates every service of the tree in
//! depth-first preorder.

use vstd::prelude::*;
use vstd::string::*;
use crate::api_desc::{
    action_names_from, desc_issue, request_functions_from, template_actions_from, ApiDesc,
};
use crate::error::{error_reports, GenError, Issue};
use crate::helper::rustify_spec;
use crate::model::{OutputFiles, OutputFilesView, RequestFileView, ResponseFileView};
use crate::text::chars_of_str;
use crate::text::string_of_chars;

verus! {

/// A parsed top-level device description document.
#[derive(Debug)]
pub struct ApiDescDir {
    pub spec_version: SpecVersion,
    pub system_version: SystemVersion,
    pub device: Device,
}

/// One device of the tree: its descriptive fields, its own services, and its
/// nested devices.
#[derive(Debug)]
pub struct Device {
    pub device_type: String,
    pub friendly_name: String,
    pub manufacturer: String,
    pub manufacturer_url: String,
    pub model_description: String,
    pub model_name: String,
    pub model_number: String,
    pub model_url: String,
    pub udn: String,
    pub upc: String,
    pub icon_list: IconList,
    pub service_list: ServiceList,
    pub device_list: DeviceList,
    pub presentation_url: String,
}

/// The icons a device advertises.
#[derive(Debug)]
pub struct IconList {
    pub icon: Vec<Icon>,
}

/// The devices nested under a device.
#[derive(Debug)]
pub struct DeviceList {
    pub device: Vec<Device>,
}

/// One advertised icon.
#[derive(Debug)]
pub struct Icon {
    pub mimetype: String,
    pub width: u32,
    pub height: u32,
    pub depth: u32,
    pub url: String,
}

/// The services listed directly under a device.
#[derive(Debug)]
pub struct ServiceList {
    pub service: Vec<Service>,
}

/// One service: its type token, identity, control endpoint and the path of
/// its schema document.
#[derive(Debug)]
pub struct Service {
    pub service_type: String,
    pub service_id: String,
    pub control_url: String,
    pub event_sub_url: String,
    pub scpd_url: String,
}

/// The abstract value of a `Service`.
pub struct ServiceView {
    pub service_type: Seq<char>,
    pub service_id: Seq<char>,
    pub control_url: Seq<char>,
    pub event_sub_url: Seq<char>,
    pub scpd_url: Seq<char>,
}

impl View for Service {
    type V = ServiceView;

    open spec fn view(&self) -> ServiceView {
        ServiceView {
            service_type: self.service_type@,
            service_id: self.service_id@,
            control_url: self.control_url@,
            event_sub_url: self.event_sub_url@,
            scpd_url: self.scpd_url@,
        }
    }
}

impl Service {
    /// A field-for-field copy of the service entry.
    pub fn duplicate(&self) -> (r: Service)
        ensures
            r@ == self@,
    {
        Service {
            service_type: self.service_type.clone(),
            service_id: self.service_id.clone(),
            control_url: self.control_url.clone(),
            event_sub_url: self.event_sub_url.clone(),
            scpd_url: self.scpd_url.clone(),
        }
    }
}

/// The firmware version block of the top-level description.
#[derive(Debug)]
pub struct SystemVersion {
    pub hw: u32,
    pub major: u32,
    pub minor: u32,
    pub patch: u32,
    pub buildnumber: u32,
    pub display: String,
}

/// The schema version block of a description document.
#[derive(Debug)]
pub struct SpecVersion {
    pub major: u32,
    pub minor: u32,
}

/// The abstract values of a list of services.
pub open spec fn views_of_services(v: Seq<Service>) -> Seq<ServiceView> {
    v.map_values(|s: Service| s@)
}

/// Every service of the tree rooted at `d`, in depth-first preorder: the
/// device's own services first, then those of each nested device in turn.
pub open spec fn services_of(d: Device) -> Seq<ServiceView>
    decreases d,
{
    views_of_services(d.service_list.service@) + services_of_seq(d.device_list.device@)
}

/// Every service of a forest of devices, in order.
pub open spec fn services_of_seq(ds: Seq<Device>) -> Seq<ServiceView>
    decreases ds,
{
    if ds.len() == 0 {
        Seq::empty()
    } else {
        services_of(ds[0]) + services_of_seq(ds.drop_first())
    }
}

/// The abstract values of a list have the list's length.
proof fn lemma_views_of_services_len(v: Seq<Service>)
    ensures
        views_of_services(v).len() == v.len(),
{
}

/// Taking the abstract values of two concatenated lists is the concatenation
/// of their abstract values.
proof fn lemma_views_of_services_add(a: Seq<Service>, b: Seq<Service>)
    ensures
        views_of_services(a + b) == views_of_services(a) + views_of_services(b),
{
    assert forall|k: int| 0 <= k < a.len() + b.len() implies views_of_services(a + b)[k] == (
    views_of_services(a) + views_of_services(b))[k] by {
        assert(views_of_services(a + b)[k] == (a + b)[k]@);
        if k < a.len() {
            assert((a + b)[k] == a[k]);
            assert(views_of_services(a)[k] == a[k]@);
        } else {
            assert((a + b)[k] == b[k - a.len()]);
            assert(views_of_services(b)[k - a.len()] == b[k - a.len()]@);
        }
    }
    assert(views_of_services(a + b) =~= views_of_services(a) + views_of_services(b));
}

impl Device {
    /// Enumerates every service of the tree rooted at this device, in
    /// depth-first preorder.
    pub fn collect_services(&self) -> (r: Vec<Service>)
        ensures
            views_of_services(r@) == services_of(*self),
        decreases *self,
    {
        let mut out: Vec<Service> = Vec::new();
        let mut i: usize = 0;
        while i < self.service_list.service.len()
            invariant
                i <= self.service_list.service@.len(),
                out@.len() == i,
                views_of_services(out@) == views_of_services(
                    self.service_list.service@.take(i as int),
                ),
            decreases self.service_list.service@.len() - i,
        {
            let ghost prior = out@;
            out.push(self.service_list.service[i].duplicate());
            i = i + 1;
            proof {
                assert(out@ == prior.push(out@[i - 1]));
                assert(out@[i - 1]@ == self.service_list.service@[i - 1]@);
                lemma_views_of_services_len(out@);
                lemma_views_of_services_len(self.service_list.service@.take(i as int));
                assert forall|k: int| 0 <= k < i implies views_of_services(out@)[k]
                    == views_of_services(self.service_list.service@.take(i as int))[k] by {
                    assert(views_of_services(out@)[k] == out@[k]@);
                    assert(views_of_services(self.service_list.service@.take(i as int))[k]
                        == self.service_list.service@.take(i as int)[k]@);
                    if k < i - 1 {
                        assert(out@[k] == prior[k]);
                        assert(views_of_services(prior)[k] == prior[k]@);
                        assert(views_of_services(self.service_list.service@.take(i - 1))[k]
                            == self.service_list.service@.take(i - 1)[k]@);
                    }
                }
                assert(views_of_services(out@) =~= views_of_services(
                    self.service_list.service@.take(i as int),
                ));
            }
        }
        proof {
            assert(self.service_list.service@.take(self.service_list.service@.len() as int)
                =~= self.service_list.service@);
        }
        let mut j: usize = 0;
        while j < self.device_list.device.len()
            invariant
                j <= self.device_list.device@.len(),
                views_of_services(out@) == views_of_services(self.service_list.service@)
                    + services_of_seq(self.device_list.device@.take(j as int)),
            decreases self.device_list.device@.len() - j,
        {
            proof {
                assert(decreases_to!(*self => self.device_list.device@[j as int]));
            }
            let ghost prior = out@;
            let mut sub = self.device_list.device[j].collect_services();
            let ghost subv = sub@;
            out.append(&mut sub);
            j = j + 1;
            proof {
                assert(out@ == prior + subv);
                lemma_views_of_services_add(prior, subv);
                lemma_services_of_seq_take(self.device_list.device@, j as int);
                assert(views_of_services(subv) == services_of(
                    self.device_list.device@[j - 1],
                ));
                assert((views_of_services(self.service_list.service@) + services_of_seq(
                    self.device_list.device@.take(j - 1),
                )) + services_of(self.device_list.device@[j - 1])
                    =~= views_of_services(self.service_list.service@) + (services_of_seq(
                    self.device_list.device@.take(j - 1),
                ) + services_of(self.device_list.device@[j - 1])));
            }
        }
        proof {
            assert(self.device_list.device@.take(self.device_list.device@.len() as int)
                =~= self.device_list.device@);
        }
        out
    }
}

/// The position of the first colon of `s`, or its length when it has none.
pub open spec fn first_colon(s: Seq<char>) -> int
    decreases s.len(),
{
    if s.len() == 0 {
        0
    } else if s[0] == ':' {
        0
    } else {
        1 + first_colon(s.drop_first())
    }
}

/// The colon-separated segments of `s`, in order. A string without colons is
/// one segment; every colon ends a segment.
pub open spec fn split_colon(s: Seq<char>) -> Seq<Seq<char>>
    decreases s.len(),
{
    let i = first_colon(s);
    if i < 0 || i >= s.len() {
        seq![s]
    } else {
        seq![s.take(i)] + split_colon(s.skip(i + 1))
    }
}

/// The first colon lies within the string, or just past its end.
proof fn lemma_first_colon_bounds(s: Seq<char>)
    ensures
        0 <= first_colon(s) <= s.len(),
        first_colon(s) < s.len() ==> s[first_colon(s)] == ':',
    decreases s.len(),
{
    if s.len() != 0 && s[0] != ':' {
        lemma_first_colon_bounds(s.drop_first());
    }
}

/// Finds the first colon of `v` at or after position `from`.
fn find_colon(v: &Vec<char>, from: usize) -> (r: usize)
    requires
        from <= v@.len(),
    ensures
        from <= r <= v@.len(),
        r - from == first_colon(v@.skip(from as int)),
{
    let mut i: usize = from;
    proof {
        assert(v@.skip(from as int).skip(0) =~= v@.skip(from as int));
    }
    while i < v.len()
        invariant
            from <= i <= v@.len(),
            first_colon(v@.skip(from as int)) == i - from + first_colon(v@.skip(i as int)),
        decreases v@.len() - i,
    {
        proof {
            assert(v@.skip(i as int)[0] == v@[i as int]);
            assert(v@.skip(i as int).drop_first() =~= v@.skip(i + 1));
        }
        if v[i] == ':' {
            return i;
        }
        i = i + 1;
    }
    proof {
        assert(v@.skip(i as int).len() == 0);
    }
    i
}

/// The fourth colon-separated segment of a service-type token — the segment
/// naming the service — or nothing when the token has fewer than four
/// segments.
pub fn service_name_token(service_type: &str) -> (r: Option<String>)
    ensures
        split_colon(service_type@).len() > 3 ==> (r matches Some(s) && s@ == split_colon(
            service_type@,
        )[3]),
        split_colon(service_type@).len() <= 3 ==> r is None,
{
    let v = chars_of_str(service_type);
    let mut p: usize = 0;
    let mut k: usize = 0;
    proof {
        assert(v@.skip(0) =~= v@);
    }
    while k < 3
        invariant
            k <= 3,
            p <= v@.len(),
            v@ == service_type@,
            split_colon(v@).len() == k + split_colon(v@.skip(p as int)).len(),
            split_colon(v@).skip(k as int) == split_colon(v@.skip(p as int)),
        decreases 3 - k,
    {
        let c = find_colon(&v, p);
        proof {
            lemma_first_colon_bounds(v@.skip(p as int));
        }
        if c == v.len() {
            proof {
                assert(first_colon(v@.skip(p as int)) == v@.skip(p as int).len());
                assert(split_colon(v@.skip(p as int)) =~= seq![v@.skip(p as int)]);
                assert(split_colon(v@).len() == k + 1);
            }
            return None;
        }
        proof {
            assert(first_colon(v@.skip(p as int)) < v@.skip(p as int).len());
            assert(split_colon(v@.skip(p as int)) == seq![
                v@.skip(p as int).take(first_colon(v@.skip(p as int))),
            ] + split_colon(v@.skip(p as int).skip(first_colon(v@.skip(p as int)) + 1)));
            assert(v@.skip(p as int).skip(first_colon(v@.skip(p as int)) + 1) =~= v@.skip(
                c + 1,
            ));
            assert(split_colon(v@).skip(k + 1) =~= split_colon(v@.skip(p as int)).drop_first());
            assert(split_colon(v@.skip(p as int)).drop_first() =~= split_colon(v@.skip(c + 1)));
        }
        p = c + 1;
        k = k + 1;
    }
    let c = find_colon(&v, p);
    proof {
        lemma_first_colon_bounds(v@.skip(p as int));
        if c == v@.len() {
            assert(split_colon(v@.skip(p as int)) =~= seq![v@.skip(p as int)]);
            assert(v@.skip(p as int) =~= v@.subrange(p as int, c as int));
        } else {
            assert(split_colon(v@.skip(p as int))[0] == v@.skip(p as int).take(
                first_colon(v@.skip(p as int)),
            ));
            assert(v@.skip(p as int).take(first_colon(v@.skip(p as int))) =~= v@.subrange(
                p as int,
                c as int,
            ));
        }
        assert(split_colon(v@).len() > 3);
        assert(split_colon(v@)[3] == split_colon(v@).skip(3)[0]);
        assert(split_colon(v@)[3] == v@.subrange(p as int, c as int));
    }
    let mut out: Vec<char> = Vec::new();
    let mut q: usize = p;
    while q < c
        invariant
            p <= q <= c <= v@.len(),
            out@ == v@.subrange(p as int, q as int),
        decreases c - q,
    {
        out.push(v[q]);
        q = q + 1;
        proof {
            assert(out@ =~= v@.subrange(p as int, q as int));
        }
    }
    Some(string_of_chars(&out))
}

/// The module-name prefix of a run: the caller's namespace prefix with the
/// separating underscore, or nothing.
pub open spec fn prefix_view(prefix: Option<String>) -> Seq<char> {
    match prefix {
        Some(p) => p@ + "_"@,
        None => Seq::empty(),
    }
}

/// The normalized module name of a service.
pub open spec fn service_name_of(svc: ServiceView) -> Seq<char> {
    rustify_spec(split_colon(svc.service_type)[3])
}

/// Why one service fails, if it does: a service-type token with fewer than
/// four segments, else whatever its schema reports.
pub open spec fn service_issue(svc: ServiceView, desc: ApiDesc) -> Option<Issue> {
    if split_colon(svc.service_type).len() <= 3 {
        Some(Issue::BadServiceType(svc.service_type))
    } else {
        desc_issue(desc)
    }
}

/// The first failure among the services from position `i` on, if any.
pub open spec fn run_issue_from(svcs: Seq<ServiceView>, schemas: Seq<ApiDesc>, i: int) -> Option<
    Issue,
>
    decreases svcs.len() - i,
{
    if i < 0 || i >= svcs.len() {
        None
    } else if service_issue(svcs[i], schemas[i]) is Some {
        service_issue(svcs[i], schemas[i])
    } else {
        run_issue_from(svcs, schemas, i + 1)
    }
}

/// The action names every schema from position `i` on contributes, in order.
pub open spec fn run_annotations_from(schemas: Seq<ApiDesc>, i: int) -> Seq<Seq<char>>
    decreases schemas.len() - i,
{
    if i < 0 || i >= schemas.len() {
        Seq::empty()
    } else {
        action_names_from(schemas[i].action_list.action@, 0) + run_annotations_from(schemas, i + 1)
    }
}

/// The response units of the services from position `i` on, in order.
pub open spec fn run_response_files_from(
    svcs: Seq<ServiceView>,
    schemas: Seq<ApiDesc>,
    i: int,
) -> Seq<ResponseFileView>
    decreases svcs.len() - i,
{
    if i < 0 || i >= svcs.len() {
        Seq::empty()
    } else {
        seq![
            ResponseFileView {
                name: service_name_of(svcs[i]),
                actions: template_actions_from(
                    schemas[i],
                    schemas[i].action_list.action@,
                    0,
                ),
            },
        ] + run_response_files_from(svcs, schemas, i + 1)
    }
}

/// The request units of the services from position `i` on, in order.
pub open spec fn run_request_files_from(
    svcs: Seq<ServiceView>,
    schemas: Seq<ApiDesc>,
    i: int,
) -> Seq<RequestFileView>
    decreases svcs.len() - i,
{
    if i < 0 || i >= svcs.len() {
        Seq::empty()
    } else {
        seq![
            RequestFileView {
                name: service_name_of(svcs[i]),
                request_functions: request_functions_from(
                    schemas[i],
                    schemas[i].action_list.action@,
                    svcs[i].service_type,
                    svcs[i].control_url,
                    0,
                ),
            },
        ] + run_request_files_from(svcs, schemas, i + 1)
    }
}

impl ApiDescDir {
    /// Builds the whole aggregate of one run: walks every service of the
    /// device tree in preorder, paired with its already-fetched schema, and
    /// assembles the output units, the envelope action names and the output
    /// folders under the given namespace prefix. The first failing service
    /// aborts the run with its error; nothing is handed out.
    pub fn generate_files(
        &self,
        schemas: &Vec<ApiDesc>,
        responses_output_folder: String,
        request_output_folder: String,
        prefix: Option<String>,
    ) -> (r: Result<OutputFiles, GenError>)
        requires
            schemas@.len() == services_of(self.device).len(),
        ensures
            r is Ok <==> run_issue_from(services_of(self.device), schemas@, 0) is None,
            r matches Ok(out) ==> out@ == (OutputFilesView {
                annotation_string: run_annotations_from(schemas@, 0),
                response_files: run_response_files_from(services_of(self.device), schemas@, 0),
                request_files: run_request_files_from(services_of(self.device), schemas@, 0),
                response_output_folder: "output/"@ + prefix_view(prefix)
                    + responses_output_folder@,
                request_output_folder: "output/"@ + prefix_view(prefix) + request_output_folder@,
                prefix: prefix_view(prefix),
            }),
            r matches Err(e) ==> (run_issue_from(services_of(self.device), schemas@, 0)
                matches Some(issue) && error_reports(e, issue)),
    {
        let mut output_files = OutputFiles::new();
        let prefix_string = match prefix {
            Some(p) => p.concat("_"),
            None => String::new(),
        };
        output_files.response_output_folder = String::from_str("output/").concat(
            prefix_string.as_str(),
        ).concat(responses_output_folder.as_str());
        output_files.request_output_folder = String::from_str("output/").concat(
            prefix_string.as_str(),
        ).concat(request_output_folder.as_str());
        output_files.prefix = prefix_string;
        let services = self.device.collect_services();
        let ghost svcs = services_of(self.device);
        let mut i: usize = 0;
        proof {
            assert(views_of_services(services@).len() == services@.len());
            assert(output_files@.annotation_string + run_annotations_from(schemas@, 0)
                =~= run_annotations_from(schemas@, 0));
            assert(output_files@.response_files + run_response_files_from(svcs, schemas@, 0)
                =~= run_response_files_from(svcs, schemas@, 0));
            assert(output_files@.request_files + run_request_files_from(svcs, schemas@, 0)
                =~= run_request_files_from(svcs, schemas@, 0));
        }
        while i < services.len()
            invariant
                i <= services@.len(),
                services@.len() == schemas@.len(),
                svcs == services_of(self.device),
                views_of_services(services@) == svcs,
                svcs.len() == services@.len(),
                run_issue_from(svcs, schemas@, 0) == run_issue_from(svcs, schemas@, i as int),
                output_files@.annotation_string + run_annotations_from(schemas@, i as int)
                    == run_annotations_from(schemas@, 0),
                output_files@.response_files + run_response_files_from(svcs, schemas@, i as int)
                    == run_response_files_from(svcs, schemas@, 0),
                output_files@.request_files + run_request_files_from(svcs, schemas@, i as int)
                    == run_request_files_from(svcs, schemas@, 0),
                output_files@.response_output_folder == "output/"@ + prefix_view(prefix)
                    + responses_output_folder@,
                output_files@.request_output_folder == "output/"@ + prefix_view(prefix)
                    + request_output_folder@,
                output_files@.prefix == prefix_view(prefix),
            decreases services@.len() - i,
        {
            let svc = &services[i];
            proof {
                assert(*svc == services@[i as int]);
                assert(views_of_services(services@)[i as int] == services@[i as int]@);
                assert(svc@ == svcs[i as int]);
            }
            let name = match service_name_token(svc.service_type.as_str()) {
                Some(n) => n,
                None => {
                    proof {
                        assert(split_colon(svcs[i as int].service_type).len() <= 3);
                        assert(run_issue_from(svcs, schemas@, i as int) == service_issue(
                            svcs[i as int],
                            schemas@[i as int],
                        ));
                    }
                    return Err(GenError::ParseError(svc.service_type.clone()));
                },
            };
            let ghost files_prior = output_files@;
            match schemas[i].fill_output_files(
                &mut output_files,
                name.as_str(),
                svc.control_url.as_str(),
                svc.service_type.as_str(),
            ) {
                Ok(()) => {
                    proof {
                        assert(service_issue(svcs[i as int], schemas@[i as int]) is None);
                        assert(run_issue_from(svcs, schemas@, i as int) == run_issue_from(
                            svcs,
                            schemas@,
                            i + 1,
                        ));
                        assert(run_annotations_from(schemas@, i as int) == action_names_from(
                            schemas@[i as int].action_list.action@,
                            0,
                        ) + run_annotations_from(schemas@, i + 1));
                        assert((files_prior.annotation_string + action_names_from(
                            schemas@[i as int].action_list.action@,
                            0,
                        )) + run_annotations_from(schemas@, i + 1) =~= files_prior.annotation_string
                            + (action_names_from(schemas@[i as int].action_list.action@, 0)
                            + run_annotations_from(schemas@, i + 1)));
                        let rfv = ResponseFileView {
                            name: service_name_of(svcs[i as int]),
                            actions: template_actions_from(
                                schemas@[i as int],
                                schemas@[i as int].action_list.action@,
                                0,
                            ),
                        };
                        assert(name@ == split_colon(svcs[i as int].service_type)[3]);
                        assert(output_files@.response_files =~= files_prior.response_files.push(
                            rfv,
                        ));
                        assert(run_response_files_from(svcs, schemas@, i as int) == seq![rfv]
                            + run_response_files_from(svcs, schemas@, i + 1));
                        assert(files_prior.response_files.push(rfv)
                            =~= files_prior.response_files + seq![rfv]);
                        assert((files_prior.response_files + seq![rfv])
                            + run_response_files_from(svcs, schemas@, i + 1)
                            =~= files_prior.response_files + (seq![rfv]
                            + run_response_files_from(svcs, schemas@, i + 1)));
                        let qfv = RequestFileView {
                            name: service_name_of(svcs[i as int]),
                            request_functions: request_functions_from(
                                schemas@[i as int],
                                schemas@[i as int].action_list.action@,
                                svcs[i as int].service_type,
                                svcs[i as int].control_url,
                                0,
                            ),
                        };
                        assert(output_files@.request_files =~= files_prior.request_files.push(
                            qfv,
                        ));
                        assert(run_request_files_from(svcs, schemas@, i as int) == seq![qfv]
                            + run_request_files_from(svcs, schemas@, i + 1));
                        assert(files_prior.request_files.push(qfv) =~= files_prior.request_files
                            + seq![qfv]);
                        assert((files_prior.request_files + seq![qfv]) + run_request_files_from(
                            svcs,
                            schemas@,
                            i + 1,
                        ) =~= files_prior.request_files + (seq![qfv] + run_request_files_from(
                            svcs,
                            schemas@,
                            i + 1,
                        )));
                    }
                },
                Err(e) => {
                    proof {
                        assert(service_issue(svcs[i as int], schemas@[i as int]) matches Some(
                            issue) && error_reports(e, issue));
                        assert(run_issue_from(svcs, schemas@, i as int) == service_issue(
                            svcs[i as int],
                            schemas@[i as int],
                        ));
                    }
                    return Err(e);
                },
            }
            i = i + 1;
        }
        proof {
            assert(run_issue_from(svcs, schemas@, i as int) is None);
            assert(run_annotations_from(schemas@, i as int) =~= Seq::<Seq<char>>::empty());
            assert(output_files@.annotation_string + run_annotations_from(schemas@, i as int)
                =~= output_files@.annotation_string);
            assert(run_response_files_from(svcs, schemas@, i as int) =~= Seq::<
                ResponseFileView,
            >::empty());
            assert(output_files@.response_files + run_response_files_from(svcs, schemas@, i as int)
                =~= output_files@.response_files);
            assert(run_request_files_from(svcs, schemas@, i as int) =~= Seq::<
                RequestFileView,
            >::empty());
            assert(output_files@.request_files + run_request_files_from(svcs, schemas@, i as int)
                =~= output_files@.request_files);
            assert(output_files@ =~~= (OutputFilesView {
                annotation_string: run_annotations_from(schemas@, 0),
                response_files: run_response_files_from(services_of(self.device), schemas@, 0),
                request_files: run_request_files_from(services_of(self.device), schemas@, 0),
                response_output_folder: "output/"@ + prefix_view(prefix)
                    + responses_output_folder@,
                request_output_folder: "output/"@ + prefix_view(prefix) + request_output_folder@,
                prefix: prefix_view(prefix),
            }));
        }
        Ok(output_files)
    }
}

/// Splitting a device forest after its first `j` members: the services of the
/// first `j + 1` devices are those of the first `j` followed by those of
/// device `j`.
proof fn lemma_services_of_seq_take(ds: Seq<Device>, j: int)
    requires
        0 < j <= ds.len(),
    ensures
        services_of_seq(ds.take(j)) == services_of_seq(ds.take(j - 1)) + services_of(ds[j - 1]),
    decreases j,
{
    if j == 1 {
        let t = ds.take(1);
        assert(t[0] == ds[0]);
        assert(t.drop_first() =~= Seq::<Device>::empty());
        assert(services_of_seq(t) == services_of(ds[0]) + services_of_seq(t.drop_first()));
        assert(services_of_seq(ds.take(0)).len() == 0);
        assert(services_of_seq(t) =~= services_of_seq(ds.take(0)) + services_of(ds[0]));
    } else {
        let t = ds.take(j);
        let u = ds.take(j - 1);
        assert(t[0] == ds[0]);
        assert(u[0] == ds[0]);
        assert(t.drop_first() =~= ds.drop_first().take(j - 1));
        assert(u.drop_first() =~= ds.drop_first().take(j - 2));
        lemma_services_of_seq_take(ds.drop_first(), j - 1);
        assert(ds.drop_first()[j - 2] == ds[j - 1]);
        assert(services_of_seq(t) == services_of(ds[0]) + services_of_seq(
            ds.drop_first().take(j - 1),
        ));
        assert(services_of_seq(ds.drop_first().take(j - 1)) == services_of_seq(
            ds.drop_first().take(j - 2),
        ) + services_of(ds[j - 1]));
        assert((services_of(ds[0]) + (services_of_seq(ds.drop_first().take(j - 2)) + services_of(
            ds[j - 1],
        ))) =~= (services_of(ds[0]) + services_of_seq(ds.drop_first().take(j - 2))) + services_of(
            ds[j - 1],
        ));
        assert(services_of_seq(u) == services_of(ds[0]) + services_of_seq(
            ds.drop_first().take(j - 2),
        ));
    }
}

} // verus!
