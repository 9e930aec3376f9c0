//! What an endpoint announced it supports when the connection was negotiated.
use vstd::prelude::*;

use crate::text::str_equal;

verus! {

/// The capability of an endpoint that reports which surfaces a client shows.
pub const SURFACE_INTEREST_CAPABILITY: &'static str = "surface_interest";
/// The capability of an endpoint that fences presentation effects.
pub const PRESENTATION_EFFECTS_FENCE_CAPABILITY: &'static str = "presentation_effects_fence";
/// The capability of an endpoint that answers health probes.
pub const HEALTH_CHECK_CAPABILITY: &'static str = "health_check";
/// The method a client calls to tell the endpoint which surface it shows.
pub const SURFACE_SET_METHOD: &'static str = "client_shell.surface.set";

/// The views of a list of strings, as a set.
pub open spec fn string_set(s: Seq<String>) -> Set<Seq<char>> {
    Set::new(|x: Seq<char>| exists|i: int| 0 <= i < s.len() && (#[trigger] s[i])@ == x)
}

/// No two strings of `s` hold the same characters.
pub open spec fn distinct_strings(s: Seq<String>) -> bool {
    forall|i: int, j: int| 0 <= i < s.len() && 0 <= j < s.len() && i != j ==> (#[trigger] s[i])@
        != (#[trigger] s[j])@
}

/// The abstract negotiation: the methods and the capabilities the endpoint named.
pub ghost struct NegotiationView {
    pub methods: Set<Seq<char>>,
    pub capabilities: Set<Seq<char>>,
}

/// Whether the negotiation `n` allows the client to report its visible surface: it
/// needs both surface capabilities and the surface method.
pub open spec fn view_supports_surface_interest(n: NegotiationView) -> bool {
    n.capabilities.contains(SURFACE_INTEREST_CAPABILITY@) && n.capabilities.contains(
        PRESENTATION_EFFECTS_FENCE_CAPABILITY@,
    ) && n.methods.contains(SURFACE_SET_METHOD@)
}

/// Whether the negotiation `n` lets the client probe the endpoint's health.
pub open spec fn view_supports_health_check(n: NegotiationView) -> bool {
    n.capabilities.contains(HEALTH_CHECK_CAPABILITY@)
}

/// The methods and capabilities an endpoint announced.
#[derive(Debug)]
pub struct EndpointNegotiation {
    methods: Vec<String>,
    capabilities: Vec<String>,
}

impl View for EndpointNegotiation {
    type V = NegotiationView;

    closed spec fn view(&self) -> NegotiationView {
        NegotiationView { methods: string_set(self.methods@), capabilities: string_set(self.capabilities@) }
    }
}

/// Whether some string of `list` holds the characters of `item`.
fn list_contains(list: &Vec<String>, item: &str) -> (r: bool)
    ensures
        r == string_set(list@).contains(item@),
{
    let mut i: usize = 0;
    while i < list.len()
        invariant
            i <= list.len(),
            forall|k: int| 0 <= k < i ==> (#[trigger] list@[k])@ != item@,
        decreases list.len() - i,
    {
        if str_equal(list[i].as_str(), item) {
            assert(list@[i as int]@ == item@);
            return true;
        }
        i = i + 1;
    }
    false
}

/// `list` without repetitions, first occurrences kept in order.
fn distinct(list: Vec<String>) -> (r: Vec<String>)
    ensures
        string_set(r@) == string_set(list@),
        distinct_strings(r@),
{
    let mut out: Vec<String> = Vec::new();
    let mut i: usize = 0;
    while i < list.len()
        invariant
            i <= list.len(),
            distinct_strings(out@),
            string_set(out@) == string_set(list@.subrange(0, i as int)),
        decreases list.len() - i,
    {
        let ghost before = out@;
        let item = list[i].clone();
        if !list_contains(&out, item.as_str()) {
            out.push(item);
        }
        proof {
            let prefix = list@.subrange(0, i + 1);
            assert(prefix.drop_last() =~= list@.subrange(0, i as int));
            assert forall|x: Seq<char>| string_set(out@).contains(x) == string_set(prefix).contains(x) by {
                if string_set(prefix).contains(x) {
                    let k = choose|k: int| 0 <= k < prefix.len() && (#[trigger] prefix[k])@ == x;
                    if k < i {
                        assert(list@.subrange(0, i as int)[k] == prefix[k]);
                        assert(string_set(list@.subrange(0, i as int)).contains(x));
                        assert(string_set(before).contains(x));
                        let j = choose|j: int| 0 <= j < before.len() && (#[trigger] before[j])@ == x;
                        assert(out@[j] == before[j]);
                    } else {
                        assert(prefix[k] == list@[i as int]);
                        if out@.len() > before.len() {
                            assert(out@[before.len() as int]@ == x);
                        } else {
                            assert(string_set(before).contains(x));
                            let j = choose|j: int| 0 <= j < before.len() && (#[trigger] before[j])@ == x;
                            assert(out@[j] == before[j]);
                        }
                    }
                }
                if string_set(out@).contains(x) {
                    let j = choose|j: int| 0 <= j < out@.len() && (#[trigger] out@[j])@ == x;
                    if j < before.len() {
                        assert(out@[j] == before[j]);
                        assert(string_set(before).contains(x));
                        let k = choose|k: int| 0 <= k < i && (#[trigger] list@.subrange(0, i as int)[k])@ == x;
                        assert(prefix[k] == list@.subrange(0, i as int)[k]);
                    } else {
                        assert(prefix[i as int] == list@[i as int]);
                    }
                }
            }
            assert(string_set(out@) =~= string_set(prefix));
        }
        i = i + 1;
    }
    assert(list@.subrange(0, list.len() as int) =~= list@);
    out
}

impl EndpointNegotiation {
    /// The negotiation in which the endpoint announced `methods` and `capabilities`.
    pub fn new(methods: Vec<String>, capabilities: Vec<String>) -> (n: Self)
        ensures
            n@.methods == string_set(methods@),
            n@.capabilities == string_set(capabilities@),
    {
        EndpointNegotiation { methods: distinct(methods), capabilities: distinct(capabilities) }
    }

    /// Every announced method, each once, in no particular order.
    pub fn methods(&self) -> (r: Vec<String>)
        ensures
            string_set(r@) == self@.methods,
            distinct_strings(r@),
    {
        let copy = clone_strings(&self.methods);
        proof {
            assert forall|x: Seq<char>| string_set(copy@).contains(x) == string_set(self.methods@).contains(x) by {
                if string_set(copy@).contains(x) {
                    let k = choose|k: int| 0 <= k < copy@.len() && (#[trigger] copy@[k])@ == x;
                    assert(self.methods@[k]@ == x);
                }
                if string_set(self.methods@).contains(x) {
                    let k = choose|k: int| 0 <= k < self.methods@.len() && (#[trigger] self.methods@[k])@ == x;
                    assert(copy@[k]@ == x);
                }
            }
            assert(string_set(copy@) =~= string_set(self.methods@));
        }
        distinct(copy)
    }

    /// Whether the endpoint announced `method`.
    pub fn supports_method(&self, method: &str) -> (r: bool)
        ensures
            r == self@.methods.contains(method@),
    {
        list_contains(&self.methods, method)
    }

    /// Whether the endpoint announced `capability`.
    pub fn supports_capability(&self, capability: &str) -> (r: bool)
        ensures
            r == self@.capabilities.contains(capability@),
    {
        list_contains(&self.capabilities, capability)
    }

    /// Whether the client may report its visible surface to the endpoint.
    pub fn supports_surface_interest(&self) -> (r: bool)
        ensures
            r == view_supports_surface_interest(self@),
    {
        self.supports_capability(SURFACE_INTEREST_CAPABILITY) && self.supports_capability(
            PRESENTATION_EFFECTS_FENCE_CAPABILITY,
        ) && self.supports_method(SURFACE_SET_METHOD)
    }

    /// Whether the client may probe the endpoint's health.
    pub fn supports_health_check(&self) -> (r: bool)
        ensures
            r == view_supports_health_check(self@),
    {
        self.supports_capability(HEALTH_CHECK_CAPABILITY)
    }
}

/// A copy of `list`, string by string.
fn clone_strings(list: &Vec<String>) -> (r: Vec<String>)
    ensures
        r@.len() == list@.len(),
        forall|i: int| 0 <= i < r@.len() ==> (#[trigger] r@[i])@ == list@[i]@,
{
    let mut out: Vec<String> = Vec::new();
    let mut i: usize = 0;
    while i < list.len()
        invariant
            i <= list.len(),
            out@.len() == i,
            forall|k: int| 0 <= k < i ==> (#[trigger] out@[k])@ == list@[k]@,
        decreases list.len() - i,
    {
        out.push(list[i].clone());
        i = i + 1;
    }
    out
}

} // verus!
