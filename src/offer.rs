//! Connection offers: the candidate addresses a listener can be dialled at,
//! and the transport credentials the dialler must authenticate against.

use vstd::prelude::*;

use crate::address::{
    address_text, format_socket_address, parse_socket_address, parse_spec,
    SocketAddress,
};
use crate::error::PeerError;

verus! {

/// A connection offer.
#[derive(Clone, Debug)]
pub struct Offer {
    pub candidates: Vec<SocketAddress>,
    pub transport_credentials: Vec<u8>,
}

/// The texts of a list of addresses.
pub open spec fn texts_of(c: Seq<SocketAddress>) -> Seq<Seq<char>> {
    c.map_values(|x: SocketAddress| address_text(x))
}

/// Each text reads as the address at the same place.
pub open spec fn parsed_all(texts: Seq<Seq<char>>, c: Seq<SocketAddress>) -> bool {
    &&& texts.len() == c.len()
    &&& forall|i: int| 0 <= i < c.len() ==> parse_spec(texts[i]) == Some(#[trigger] c[i])
}

pub open spec fn string_views(v: Seq<String>) -> Seq<Seq<char>> {
    v.map_values(|s: String| s@)
}

/// Parses candidate addresses, failing with `err` on the first that is not
/// the text of an address.
fn parse_addresses(texts: &Vec<String>, err: PeerError) -> (r: Result<Vec<SocketAddress>, PeerError>)
    ensures
        match r {
            Ok(v) => parsed_all(string_views(texts@), v@),
            Err(e) => e == err && exists|i: int|
                0 <= i < texts@.len() && parse_spec(#[trigger] texts@[i]@) is None,
        },
{
    let mut out: Vec<SocketAddress> = Vec::new();
    let mut i: usize = 0;
    while i < texts.len()
        invariant
            0 <= i <= texts@.len(),
            out@.len() == i,
            forall|j: int| 0 <= j < i ==> parse_spec(texts@[j]@) == Some(#[trigger] out@[j]),
        decreases texts@.len() - i,
    {
        match parse_socket_address(texts[i].as_str()) {
            Ok(x) => out.push(x),
            Err(_) => {
                assert(parse_spec(texts@[i as int]@) is None);
                return Err(err);
            },
        }
        i = i + 1;
    }
    proof {
        assert forall|j: int| 0 <= j < out@.len() implies parse_spec(
            string_views(texts@)[j],
        ) == Some(#[trigger] out@[j]) by {
            assert(string_views(texts@)[j] == texts@[j]@);
        }
    }
    Ok(out)
}

/// The candidates of an offer: the bound address when none are advertised,
/// else the advertised ones verbatim. Fails with `InvalidCandidate` exactly
/// when an advertised candidate is not the text of an address.
pub fn offer_candidates(bound: SocketAddress, advertised: Option<Vec<String>>) -> (r: Result<
    Vec<SocketAddress>,
    PeerError,
>)
    ensures
        match advertised {
            None => r matches Ok(v) && v@ == seq![bound],
            Some(list) => match r {
                Ok(v) => parsed_all(string_views(list@), v@),
                Err(e) => e == PeerError::InvalidCandidate && exists|i: int|
                    0 <= i < list@.len() && parse_spec(#[trigger] list@[i]@) is None,
            },
        },
{
    match advertised {
        None => {
            let mut v: Vec<SocketAddress> = Vec::new();
            v.push(bound);
            assert(v@ =~= seq![bound]);
            Ok(v)
        },
        Some(list) => parse_addresses(&list, PeerError::InvalidCandidate),
    }
}

/// Builds the offer of a listener bound at `bound` with the given credentials.
pub fn build_offer(
    bound: SocketAddress,
    advertised: Option<Vec<String>>,
    transport_credentials: Vec<u8>,
) -> (r: Result<Offer, PeerError>)
    ensures
        match advertised {
            None => r matches Ok(o) && o.candidates@ == seq![bound] && o.transport_credentials@
                == transport_credentials@,
            Some(list) => match r {
                Ok(o) => parsed_all(string_views(list@), o.candidates@)
                    && o.transport_credentials@ == transport_credentials@,
                Err(e) => e == PeerError::InvalidCandidate && exists|i: int|
                    0 <= i < list@.len() && parse_spec(#[trigger] list@[i]@) is None,
            },
        },
{
    let candidates = offer_candidates(bound, advertised)?;
    Ok(Offer { candidates, transport_credentials })
}

impl Offer {
    /// The candidates as texts, in order.
    pub fn candidate_texts(&self) -> (r: Vec<String>)
        ensures
            string_views(r@) == texts_of(self.candidates@),
            parsed_all(string_views(r@), self.candidates@),
    {
        let mut out: Vec<String> = Vec::new();
        let mut i: usize = 0;
        while i < self.candidates.len()
            invariant
                0 <= i <= self.candidates@.len(),
                out@.len() == i,
                forall|j: int| 0 <= j < i ==> (#[trigger] out@[j])@ == address_text(self.candidates@[j]),
                forall|j: int| 0 <= j < i ==> parse_spec((#[trigger] out@[j])@) == Some(self.candidates@[j]),
            decreases self.candidates@.len() - i,
        {
            out.push(format_socket_address(&self.candidates[i]));
            i = i + 1;
        }
        assert(string_views(out@) =~= texts_of(self.candidates@));
        assert forall|j: int| 0 <= j < self.candidates@.len() implies parse_spec(
            string_views(out@)[j],
        ) == Some(#[trigger] self.candidates@[j]) by {
            assert(string_views(out@)[j] == out@[j]@);
        }
        out
    }

    /// The offer that a list of candidate texts and credentials describe.
    /// Fails with `MalformedMessage` exactly when a candidate is not the
    /// text of an address.
    pub fn from_parts(candidates: &Vec<String>, transport_credentials: Vec<u8>) -> (r: Result<
        Offer,
        PeerError,
    >)
        ensures
            match r {
                Ok(o) => parsed_all(string_views(candidates@), o.candidates@)
                    && o.transport_credentials@ == transport_credentials@,
                Err(e) => e == PeerError::MalformedMessage && exists|i: int|
                    0 <= i < candidates@.len() && parse_spec(#[trigger] candidates@[i]@) is None,
            },
    {
        let c = parse_addresses(candidates, PeerError::MalformedMessage)?;
        Ok(Offer { candidates: c, transport_credentials })
    }
}

/// Writing an offer's candidates as text (`candidate_texts`) and reading
/// them back (`from_parts`) loses nothing, the empty list included: every
/// text is accepted, and the only list the texts read as is the original.
pub proof fn lemma_offer_round_trip(c: Seq<SocketAddress>, texts: Seq<Seq<char>>)
    requires
        parsed_all(texts, c),
    ensures
        forall|i: int| 0 <= i < texts.len() ==> #[trigger] parse_spec(texts[i]) is Some,
        forall|d: Seq<SocketAddress>| parsed_all(texts, d) ==> d == c,
{
    assert forall|i: int| 0 <= i < texts.len() implies #[trigger] parse_spec(texts[i]) is Some by {
        assert(parse_spec(texts[i]) == Some(c[i]));
    }
    assert forall|d: Seq<SocketAddress>| parsed_all(texts, d) implies d == c by {
        assert forall|i: int| 0 <= i < c.len() implies d[i] == c[i] by {
            assert(parse_spec(texts[i]) == Some(d[i]));
        }
        assert(d =~= c);
    }
}

} // verus!
