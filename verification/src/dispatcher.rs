//! The dispatcher: turns every entry of a severity map into one status
//! update for the status API and accounts for what became of each.
//!
//! Sending is left to the caller. [`Dispatcher::plan`] either refuses the
//! whole request for want of a credential or lists the requests to make;
//! [`report`] pairs each request with the result of its delivery. One failed
//! delivery never hides another: every planned request has its outcome.
//! Nothing is retried.

use crate::aggregator::{reduce, severity_map};
use crate::credential::{
    bearer_token,
    credential_of,
    get_bearer_token,
    resolved,
    text_of,
    AuthorizationHeader,
    CredentialError,
};
use crate::model::{AlertHook, CachetAnnotation, CachetResponse};
use crate::numi8::{decimal, serialize};
use crate::reply::STATUS_INTERNAL_ERROR;
use std::collections::HashMap;
use vstd::prelude::*;

verus! {

broadcast use vstd::std_specs::hash::group_hash_axioms;

/// The request header that carries the credential to the status API.
pub const TOKEN_HEADER: &'static str = "X-Cachet-Token";

/// The path of the status API under which its components live.
pub const COMPONENTS_PATH: &'static str = "/api/v1/components/";

/// The address of a component at the status API.
pub open spec fn endpoint(base_url: Seq<char>, component: i8) -> Seq<char> {
    base_url + COMPONENTS_PATH@ + decimal(component as int)
}

/// The JSON document that sets a component to `severity`.
pub open spec fn status_document(severity: i8) -> Seq<char> {
    "{\"status\":"@ + decimal(severity as int) + "}"@
}

/// The updates for the components below `bound`, in ascending order of
/// component.
pub open spec fn directives_below(components: Map<i8, i8>, bound: int) -> Seq<CachetAnnotation>
    decreases bound - i8::MIN,
{
    if bound <= i8::MIN {
        Seq::empty()
    } else {
        let component = (bound - 1) as i8;
        let lower = directives_below(components, bound - 1);
        if components.contains_key(component) {
            lower.push(CachetAnnotation { component, severity: components[component] })
        } else {
            lower
        }
    }
}

/// The updates that a severity map asks for: one for each entry, in
/// ascending order of component.
pub open spec fn directives_of(components: Map<i8, i8>) -> Seq<CachetAnnotation> {
    directives_below(components, i8::MAX + 1)
}

/// One `PUT` request to the status API.
#[derive(Debug)]
pub struct OutboundRequest {
    /// The update that the request carries.
    pub directive: CachetAnnotation,
    /// Where to send it.
    pub url: String,
    /// The JSON document to send.
    pub body: String,
}

/// An [`OutboundRequest`] with its texts as sequences of characters.
pub struct RequestView {
    pub directive: CachetAnnotation,
    pub url: Seq<char>,
    pub body: Seq<char>,
}

impl View for OutboundRequest {
    type V = RequestView;

    open spec fn view(&self) -> RequestView {
        RequestView { directive: self.directive, url: self.url@, body: self.body@ }
    }
}

/// A run of requests, each with its texts as sequences of characters.
pub open spec fn views_of(requests: Seq<OutboundRequest>) -> Seq<RequestView> {
    requests.map_values(|request: OutboundRequest| request@)
}

/// The request that carries `directive` to the status API at `base_url`.
pub open spec fn request_for(base_url: Seq<char>, directive: CachetAnnotation) -> RequestView {
    RequestView {
        directive,
        url: endpoint(base_url, directive.component),
        body: status_document(directive.severity),
    }
}

/// What the dispatcher decides for a request.
#[derive(Debug)]
pub enum Plan {
    /// No credential could be resolved: nothing is sent.
    Unauthorized(CredentialError),
    /// The requests to make, each with `token` in the [`TOKEN_HEADER`].
    Dispatch { token: String, requests: Vec<OutboundRequest> },
}

/// A [`Plan`] with its texts as sequences of characters.
pub enum PlanView {
    Unauthorized(CredentialError),
    Dispatch { token: Seq<char>, requests: Seq<RequestView> },
}

impl View for Plan {
    type V = PlanView;

    open spec fn view(&self) -> PlanView {
        match *self {
            Plan::Unauthorized(error) => PlanView::Unauthorized(error),
            Plan::Dispatch { token, requests } => PlanView::Dispatch {
                token: token@,
                requests: views_of(requests@),
            },
        }
    }
}

/// The plan for a severity map under a credential or the refusal of one.
pub open spec fn planned(
    base_url: Seq<char>,
    components: Map<i8, i8>,
    credential: Result<Seq<char>, CredentialError>,
) -> PlanView {
    match credential {
        Err(error) => PlanView::Unauthorized(error),
        Ok(token) => PlanView::Dispatch {
            token,
            requests: directives_of(components).map_values(
                |directive: CachetAnnotation| request_for(base_url, directive),
            ),
        },
    }
}

/// How the delivery of one request ended.
#[derive(Clone, Copy, Debug, PartialEq, Eq, Structural)]
pub enum Delivery {
    /// The status API answered, with this status code.
    Delivered(u16),
    /// The request failed on the way.
    TransportFailure,
}

/// The outcome to record for `directive` after `delivery`.
pub open spec fn outcome_of(directive: CachetAnnotation, delivery: Delivery) -> CachetResponse {
    CachetResponse {
        http_status: match delivery {
            Delivery::Delivered(code) => code,
            Delivery::TransportFailure => STATUS_INTERNAL_ERROR,
        },
        status: directive,
    }
}

/// The outcomes of a run of requests: the i-th pairs the i-th request with
/// the i-th delivery.
pub open spec fn outcomes_of(requests: Seq<RequestView>, deliveries: Seq<Delivery>) -> Seq<
    CachetResponse,
> {
    Seq::new(requests.len(), |i: int| outcome_of(requests[i].directive, deliveries[i]))
}

/// The address of `component` at the status API under `base_url`.
pub fn component_url(base_url: &str, component: i8) -> (url: String)
    ensures
        url@ == endpoint(base_url@, component),
{
    let mut url = String::from_str(base_url);
    url.append(COMPONENTS_PATH);
    let number = serialize(&component);
    url.append(number.as_str());
    url
}

/// The JSON document that sets a component to `severity`.
pub fn status_body(severity: i8) -> (body: String)
    ensures
        body@ == status_document(severity),
{
    let mut body = String::from_str("{\"status\":");
    let number = serialize(&severity);
    body.append(number.as_str());
    body.append("}");
    body
}

/// Lists the updates that a severity map asks for, in ascending order of
/// component.
pub fn directives(components: &HashMap<i8, i8>) -> (list: Vec<CachetAnnotation>)
    ensures
        list@ == directives_of(components@),
{
    let mut list: Vec<CachetAnnotation> = Vec::new();
    let mut bound: i16 = -128;
    while bound < 128
        invariant
            -128 <= bound <= 128,
            list@ == directives_below(components@, bound as int),
        decreases 128 - bound,
    {
        let component = bound as i8;
        match components.get(&component) {
            Some(severity) => {
                list.push(CachetAnnotation { component, severity: *severity });
            },
            None => {},
        }
        bound += 1;
    }
    list
}

/// Records the outcome of one update.
pub fn outcome(directive: CachetAnnotation, delivery: Delivery) -> (recorded: CachetResponse)
    ensures
        recorded == outcome_of(directive, delivery),
{
    let http_status = match delivery {
        Delivery::Delivered(code) => code,
        Delivery::TransportFailure => STATUS_INTERNAL_ERROR,
    };
    CachetResponse { http_status, status: directive }
}

/// Records the outcomes of the planned requests, given how the delivery of
/// each ended: one outcome per request, in the order of the plan.
pub fn report(requests: &Vec<OutboundRequest>, deliveries: &Vec<Delivery>) -> (outcomes: Vec<
    CachetResponse,
>)
    requires
        deliveries.len() == requests.len(),
    ensures
        outcomes@ == outcomes_of(views_of(requests@), deliveries@),
{
    let mut outcomes: Vec<CachetResponse> = Vec::new();
    let mut i: usize = 0;
    while i < requests.len()
        invariant
            i <= requests.len(),
            deliveries.len() == requests.len(),
            outcomes.len() == i,
            forall|k: int|
                0 <= k < i ==> outcomes[k] == outcome_of(
                    #[trigger] requests[k].directive,
                    deliveries[k],
                ),
        decreases requests.len() - i,
    {
        outcomes.push(outcome(requests[i].directive, deliveries[i]));
        i += 1;
    }
    outcomes
}

/// The dispatcher with its configuration: where the status API lives, and
/// the credential to use for requests that bring none.
#[derive(Debug)]
pub struct Dispatcher {
    pub base_url: String,
    pub fallback_credential: Option<String>,
}

impl Dispatcher {
    /// A dispatcher for the status API at `base_url`.
    pub fn new(base_url: String, fallback_credential: Option<String>) -> (dispatcher: Dispatcher)
        ensures
            dispatcher.base_url@ == base_url@,
            dispatcher.fallback_credential == fallback_credential,
    {
        Dispatcher { base_url, fallback_credential }
    }

    /// Plans the requests for a severity map, given the credential that was
    /// resolved for the request or the refusal of one. A refusal stops the
    /// whole batch; a credential yields one request per entry of the map.
    pub fn plan_with(
        &self,
        components: &HashMap<i8, i8>,
        credential: Result<String, CredentialError>,
    ) -> (plan: Plan)
        ensures
            plan@ == planned(self.base_url@, components@, credential_of(credential)),
    {
        match credential {
            Err(error) => Plan::Unauthorized(error),
            Ok(token) => {
                let list = directives(components);
                let mut requests: Vec<OutboundRequest> = Vec::new();
                let mut i: usize = 0;
                while i < list.len()
                    invariant
                        i <= list.len(),
                        requests.len() == i,
                        forall|k: int|
                            0 <= k < i ==> (#[trigger] requests[k])@ == request_for(
                                self.base_url@,
                                list[k],
                            ),
                    decreases list.len() - i,
                {
                    let directive = list[i];
                    requests.push(
                        OutboundRequest {
                            directive,
                            url: component_url(self.base_url.as_str(), directive.component),
                            body: status_body(directive.severity),
                        },
                    );
                    i += 1;
                }
                let plan = Plan::Dispatch { token, requests };
                assert(plan@->requests =~= list@.map_values(
                    |directive: CachetAnnotation| request_for(self.base_url@, directive),
                ));
                plan
            },
        }
    }

    /// Plans the requests for one webhook delivery: reduces its alerts to a
    /// severity map, resolves the credential from the `Authorization` header
    /// and the fallback, and lists the requests to make.
    pub fn plan(&self, batch: &AlertHook, header: &AuthorizationHeader) -> (plan: Plan)
        ensures
            plan@ == planned(
                self.base_url@,
                severity_map(batch.alerts@),
                resolved(*header, bearer_token(*header), text_of(self.fallback_credential)),
            ),
    {
        let components = reduce(&batch.alerts);
        let credential = get_bearer_token(header, &self.fallback_credential);
        self.plan_with(&components, credential)
    }
}

/// The components of a severity map that lie below `bound`.
spec fn components_below(components: Map<i8, i8>, bound: int) -> Set<i8> {
    components.dom().filter(|component: i8| component < bound)
}

/// The updates below a bound are those of the entries below it: each update
/// is an entry, each entry has its update, the components ascend, and there
/// are as many updates as entries.
proof fn directives_below_match_entries(components: Map<i8, i8>, bound: int)
    requires
        i8::MIN <= bound <= i8::MAX + 1,
    ensures
        forall|i: int|
            0 <= i < directives_below(components, bound).len() ==> {
                let directive = #[trigger] directives_below(components, bound)[i];
                &&& directive.component < bound
                &&& components.contains_key(directive.component)
                &&& components[directive.component] == directive.severity
            },
        forall|i: int, j: int|
            0 <= i < j < directives_below(components, bound).len() ==> (#[trigger] directives_below(
                components,
                bound,
            )[i]).component < (#[trigger] directives_below(components, bound)[j]).component,
        forall|component: i8|
            component < bound && #[trigger] components.contains_key(component)
                ==> directives_below(components, bound).contains(
                CachetAnnotation { component, severity: components[component] },
            ),
        components_below(components, bound).finite(),
        components_below(components, bound).len() == directives_below(components, bound).len(),
    decreases bound - i8::MIN,
{
    if bound <= i8::MIN {
        assert(components_below(components, bound) =~= Set::<i8>::empty());
    } else {
        let top = (bound - 1) as i8;
        let lower = directives_below(components, bound - 1);
        let list = directives_below(components, bound);
        directives_below_match_entries(components, bound - 1);
        if components.contains_key(top) {
            let added = CachetAnnotation { component: top, severity: components[top] };
            assert(components_below(components, bound) =~= components_below(
                components,
                bound - 1,
            ).insert(top));
            assert forall|component: i8|
                component < bound && #[trigger] components.contains_key(
                    component,
                ) implies list.contains(
                CachetAnnotation { component, severity: components[component] },
            ) by {
                if component == top {
                    assert(list[list.len() - 1] == added);
                } else {
                    let wanted = CachetAnnotation { component, severity: components[component] };
                    let i = choose|i: int| 0 <= i < lower.len() && lower[i] == wanted;
                    assert(list[i] == wanted);
                }
            }
        } else {
            assert(components_below(components, bound) =~= components_below(
                components,
                bound - 1,
            ));
        }
    }
}

/// The updates of a severity map are its entries: one update for each entry
/// and none besides, in ascending order of component, so that no component
/// is updated twice.
pub proof fn directives_match_entries(components: Map<i8, i8>)
    ensures
        components.dom().finite(),
        directives_of(components).len() == components.dom().len(),
        forall|i: int|
            0 <= i < directives_of(components).len() ==> {
                let directive = #[trigger] directives_of(components)[i];
                &&& components.contains_key(directive.component)
                &&& components[directive.component] == directive.severity
            },
        forall|i: int, j: int|
            0 <= i < j < directives_of(components).len() ==> (#[trigger] directives_of(
                components,
            )[i]).component < (#[trigger] directives_of(components)[j]).component,
        forall|component: i8| #[trigger]
            components.contains_key(component) ==> directives_of(components).contains(
                CachetAnnotation { component, severity: components[component] },
            ),
{
    directives_below_match_entries(components, i8::MAX + 1);
    assert(components_below(components, i8::MAX + 1) =~= components.dom());
}

/// Every entry of the severity map has its outcome, and only one: with a
/// credential, the plan holds one request per entry, and the report one
/// outcome per request, for the update of that request and in the order of
/// the plan, whatever became of the deliveries.
pub proof fn every_entry_has_its_outcome(
    base_url: Seq<char>,
    components: Map<i8, i8>,
    token: Seq<char>,
    deliveries: Seq<Delivery>,
)
    requires
        deliveries.len() == directives_of(components).len(),
    ensures
        planned(base_url, components, Ok(token)) is Dispatch,
        ({
            let requests = planned(base_url, components, Ok(token))->requests;
            let outcomes = outcomes_of(requests, deliveries);
            &&& requests.len() == components.dom().len()
            &&& outcomes.len() == components.dom().len()
            &&& forall|i: int|
                0 <= i < outcomes.len() ==> (#[trigger] outcomes[i]).status == directives_of(
                    components,
                )[i]
            &&& forall|i: int, j: int|
                0 <= i < j < outcomes.len() ==> (#[trigger] outcomes[i]).status.component < (
                #[trigger] outcomes[j]).status.component
            &&& forall|component: i8| #[trigger]
                components.contains_key(component) ==> exists|i: int|
                    0 <= i < outcomes.len() && (#[trigger] outcomes[i]).status == (
                    CachetAnnotation { component, severity: components[component] })
        }),
{
    directives_match_entries(components);
    let list = directives_of(components);
    let requests = planned(base_url, components, Ok(token))->requests;
    let outcomes = outcomes_of(requests, deliveries);
    assert forall|component: i8| #[trigger] components.contains_key(component) implies exists|
        i: int,
    |
        0 <= i < outcomes.len() && (#[trigger] outcomes[i]).status == (CachetAnnotation {
            component,
            severity: components[component],
        }) by {
        let wanted = CachetAnnotation { component, severity: components[component] };
        let i = choose|i: int| 0 <= i < list.len() && list[i] == wanted;
        assert(outcomes[i].status == wanted);
    }
}

/// Without a credential the whole request is refused: the plan holds no
/// request at all, whatever the severity map.
pub proof fn refusal_stops_the_batch(
    base_url: Seq<char>,
    components: Map<i8, i8>,
    error: CredentialError,
)
    ensures
        planned(base_url, components, Err(error)) == PlanView::Unauthorized(error),
{
}

/// A batch without alerts asks for no update and has no outcome.
pub proof fn empty_batch_asks_for_nothing(base_url: Seq<char>, token: Seq<char>)
    ensures
        directives_of(severity_map(Seq::empty())) == Seq::<CachetAnnotation>::empty(),
        planned(base_url, severity_map(Seq::empty()), Ok(token)) == (PlanView::Dispatch {
            token,
            requests: Seq::empty(),
        }),
        outcomes_of(Seq::empty(), Seq::empty()) == Seq::<CachetResponse>::empty(),
{
    crate::aggregator::empty_batch_has_no_entries();
    directives_match_entries(Map::<i8, i8>::empty());
    assert(planned(base_url, Map::<i8, i8>::empty(), Ok(token))->requests =~= Seq::<
        RequestView,
    >::empty());
}

} // verus!
