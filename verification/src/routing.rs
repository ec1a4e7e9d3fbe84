//! Voice routes: where a dialled string goes.
use crate::config::{EndpointView, RouteEndpoint, RouteView, VoiceRouteConfig};
use crate::sip_state::{LegEndpoint, LegView};
use crate::text::{chars_of, has_prefix, slice_of, starts_with, string_of};
use vstd::prelude::*;
use vstd::string::*;

verus! {

/// Where a call comes from.
pub enum CallOrigin {
    /// An extension, by the user part of its address of record.
    SipExtension(String),
    /// A trunk, by name.
    SipTrunk(String),
    /// A Brew subscriber, by ISSI.
    BrewPrivate(u32),
}

/// The contents of a `CallOrigin`.
#[verifier::ext_equal]
pub enum OriginView {
    SipExtension(Seq<char>),
    SipTrunk(Seq<char>),
    BrewPrivate(u32),
}

impl View for CallOrigin {
    type V = OriginView;

    open spec fn view(&self) -> OriginView {
        match self {
            CallOrigin::SipExtension(user) => OriginView::SipExtension(user@),
            CallOrigin::SipTrunk(name) => OriginView::SipTrunk(name@),
            CallOrigin::BrewPrivate(issi) => OriginView::BrewPrivate(*issi),
        }
    }
}

/// The leg that a call from the origin starts with.
pub open spec fn origin_leg(origin: OriginView) -> LegView {
    match origin {
        OriginView::SipExtension(user) => LegView::SipExtension { aor: user },
        OriginView::SipTrunk(name) => LegView::SipTrunk { trunk: name, number: Seq::empty() },
        OriginView::BrewPrivate(issi) => LegView::BrewPrivate { issi },
    }
}

impl CallOrigin {
    /// The leg that a call from here starts with.
    pub fn to_leg(&self) -> (r: LegEndpoint)
        ensures
            r@ == origin_leg(self@),
    {
        match self {
            CallOrigin::SipExtension(user) => LegEndpoint::SipExtension { aor: user.clone() },
            CallOrigin::SipTrunk(name) => LegEndpoint::SipTrunk {
                trunk: name.clone(),
                number: String::new(),
            },
            CallOrigin::BrewPrivate(issi) => LegEndpoint::BrewPrivate { issi: *issi },
        }
    }
}

/// Whether the dialled string matches the pattern: `*` matches anything, a trailing `*` a prefix,
/// anything else itself.
pub open spec fn pattern_matches(pattern: Seq<char>, dialled: Seq<char>) -> bool {
    if pattern.len() > 0 && pattern.last() == '*' {
        starts_with(dialled, pattern.drop_last())
    } else {
        pattern == dialled
    }
}

/// Whether a call from `origin` is one from the endpoint.
pub open spec fn comes_from(e: EndpointView, origin: OriginView, dialled: Seq<char>) -> bool {
    match (e, origin) {
        (EndpointView::SipExtension { user }, OriginView::SipExtension(u)) => user == u,
        (EndpointView::SipTrunk { trunk, number }, OriginView::SipTrunk(t)) => trunk == t && (
        number.len() == 0 || number == dialled),
        (EndpointView::BrewPrivate { issi }, OriginView::BrewPrivate(i)) => issi == i,
        _ => false,
    }
}

/// Whether the route takes the call.
pub open spec fn route_matches(
    route: RouteView,
    origin: OriginView,
    dialled: Seq<char>,
) -> bool {
    &&& route.enabled
    &&& route.to is Some
    &&& pattern_matches(route.match_pattern, dialled)
    &&& route.from matches Some(e) ==> comes_from(e, origin, dialled)
}

/// The dialled string without the prefix that the route takes off.
pub open spec fn stripped(dialled: Seq<char>, prefix: Seq<char>) -> Seq<char> {
    if starts_with(dialled, prefix) {
        dialled.skip(prefix.len() as int)
    } else {
        dialled
    }
}

/// The leg that a call over the route ends on.
pub open spec fn route_leg(route: RouteView, dialled: Seq<char>) -> LegView {
    match route.to->0 {
        EndpointView::SipExtension { user } => LegView::SipExtension { aor: user },
        EndpointView::SipTrunk { trunk, number } => LegView::SipTrunk {
            trunk,
            number: if number.len() == 0 {
                stripped(dialled, route.strip_prefix)
            } else {
                number
            },
        },
        EndpointView::BrewPrivate { issi } => LegView::BrewPrivate { issi },
        EndpointView::BrewGroup { gssi } => LegView::BrewGroup { gssi },
    }
}

/// The contents of the routes.
pub open spec fn routes_view(v: Seq<VoiceRouteConfig>) -> Seq<RouteView> {
    Seq::new(v.len(), |i: int| v[i]@)
}

/// The first of the routes from `k` on that takes the call.
pub open spec fn first_route(
    routes: Seq<RouteView>,
    origin: OriginView,
    dialled: Seq<char>,
    k: int,
) -> Option<int>
    decreases routes.len() - k,
{
    if k < 0 || k >= routes.len() {
        None
    } else if route_matches(routes[k], origin, dialled) {
        Some(k)
    } else {
        first_route(routes, origin, dialled, k + 1)
    }
}

/// Where the routes take the call.
pub open spec fn resolved(
    routes: Seq<RouteView>,
    origin: OriginView,
    dialled: Seq<char>,
) -> Option<LegView> {
    match first_route(routes, origin, dialled, 0) {
        Some(k) => Some(route_leg(routes[k], dialled)),
        None => None,
    }
}

fn matches_pattern(pattern: &String, dialled: &str) -> (r: bool)
    ensures
        r == pattern_matches(pattern@, dialled@),
{
    let p = chars_of(pattern.as_str());
    let d = chars_of(dialled);
    if p.len() > 0 && p[p.len() - 1] == '*' {
        let head = slice_of(&p, 0, p.len() - 1);
        assert(head@ =~= p@.drop_last());
        let text = string_of(head.as_slice());
        has_prefix(&d, text.as_str())
    } else {
        let dialled_text = string_of(d.as_slice());
        *pattern == dialled_text
    }
}

fn is_from(e: &RouteEndpoint, origin: &CallOrigin, dialled: &str) -> (r: bool)
    ensures
        r == comes_from(e@, origin@, dialled@),
{
    match (e, origin) {
        (RouteEndpoint::SipExtension { user }, CallOrigin::SipExtension(u)) => *user == *u,
        (RouteEndpoint::SipTrunk { trunk, number }, CallOrigin::SipTrunk(t)) => {
            if *trunk == *t {
                let n = number.as_str().unicode_len();
                n == 0 || *number == dialled.to_string()
            } else {
                false
            }
        },
        (RouteEndpoint::BrewPrivate { issi }, CallOrigin::BrewPrivate(i)) => *issi == *i,
        _ => false,
    }
}

fn matches_route(route: &VoiceRouteConfig, origin: &CallOrigin, dialled: &str) -> (r: bool)
    ensures
        r == route_matches(route@, origin@, dialled@),
{
    if !route.enabled || route.to.is_none() || !matches_pattern(&route.match_pattern, dialled) {
        return false;
    }
    match &route.from {
        Some(e) => is_from(e, origin, dialled),
        None => true,
    }
}

/// The dialled string without the prefix, where it has it.
pub fn strip_prefix(dialled: &str, prefix: &str) -> (r: String)
    ensures
        r@ == stripped(dialled@, prefix@),
{
    let d = chars_of(dialled);
    if has_prefix(&d, prefix) {
        let n = prefix.unicode_len();
        let rest = slice_of(&d, n, d.len());
        assert(rest@ =~= dialled@.skip(prefix@.len() as int));
        string_of(rest.as_slice())
    } else {
        dialled.to_string()
    }
}

/// Where the routes take a call: the first that matches decides. The number of the route is given
/// with the leg.
pub fn resolve(routes: &Vec<VoiceRouteConfig>, origin: &CallOrigin, dialled: &str) -> (r: Option<
    (LegEndpoint, usize),
>)
    ensures
        match r {
            Some((leg, k)) => {
                &&& first_route(routes_view(routes@), origin@, dialled@, 0) == Some(k as int)
                &&& leg@ == route_leg(routes@[k as int]@, dialled@)
                &&& resolved(routes_view(routes@), origin@, dialled@) == Some(leg@)
            },
            None => resolved(routes_view(routes@), origin@, dialled@) is None,
        },
{
    let mut k: usize = 0;
    while k < routes.len()
        invariant
            k <= routes@.len(),
            first_route(routes_view(routes@), origin@, dialled@, 0) == first_route(
                routes_view(routes@),
                origin@,
                dialled@,
                k as int,
            ),
        decreases routes@.len() - k,
    {
        let route = &routes[k];
        assert(routes_view(routes@)[k as int] == route@);
        if matches_route(route, origin, dialled) {
            match &route.to {
                Some(to) => {
                    let leg = match to {
                        RouteEndpoint::SipExtension { user } => LegEndpoint::SipExtension {
                            aor: user.clone(),
                        },
                        RouteEndpoint::SipTrunk { trunk, number } => {
                            let n = number.as_str().unicode_len();
                            let sent = if n == 0 {
                                strip_prefix(dialled, route.strip_prefix.as_str())
                            } else {
                                number.clone()
                            };
                            LegEndpoint::SipTrunk { trunk: trunk.clone(), number: sent }
                        },
                        RouteEndpoint::BrewPrivate { issi } => LegEndpoint::BrewPrivate {
                            issi: *issi,
                        },
                        RouteEndpoint::BrewGroup { gssi } => LegEndpoint::BrewGroup { gssi: *gssi },
                    };
                    return Some((leg, k));
                },
                None => {},
            }
        }
        k += 1;
    }
    None
}

/// The first route that takes a call wins, whatever stands behind it.
pub proof fn first_match_wins(
    routes: Seq<RouteView>,
    more: Seq<RouteView>,
    origin: OriginView,
    dialled: Seq<char>,
)
    requires
        resolved(routes, origin, dialled) is Some,
    ensures
        resolved(routes + more, origin, dialled) == resolved(routes, origin, dialled),
{
    lemma_first_route(routes, more, origin, dialled, 0);
}

proof fn lemma_first_route(
    routes: Seq<RouteView>,
    more: Seq<RouteView>,
    origin: OriginView,
    dialled: Seq<char>,
    k: int,
)
    requires
        0 <= k,
        first_route(routes, origin, dialled, k) is Some,
    ensures
        first_route(routes + more, origin, dialled, k) == first_route(routes, origin, dialled, k),
        0 <= first_route(routes, origin, dialled, k)->0 < routes.len(),
    decreases routes.len() - k,
{
    let all = routes + more;
    if k < routes.len() {
        assert(all[k] == routes[k]);
        if !route_matches(routes[k], origin, dialled) {
            lemma_first_route(routes, more, origin, dialled, k + 1);
        }
    }
}

} // verus!
