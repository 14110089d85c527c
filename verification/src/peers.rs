//! The registry of peers: network locations, each held once, in the order in
//! which they were first registered.

use vstd::prelude::*;
use vstd::string::*;
use crate::error::ValidationError;

verus! {

/// The network location (`host:port`, with the user information where there
/// is any) and the host name that a URL-like text holds. The location is
/// empty where the text has no `//` after its scheme; the host name is absent
/// where the location names none.
pub uninterp spec fn url_location(address: Seq<char>) -> (Seq<char>, Option<Seq<char>>);

/// Calls `urlparse::urlparse` and hands out the fields `netloc` and
/// `hostname` of the `Url` that it returns. The parser accepts every text;
/// the contract names what it finds.
#[verifier::external_body]
fn parse_location(address: &str) -> (parts: (String, Option<String>))
    ensures
        parts.0@ == url_location(address@).0,
        match parts.1 {
            Some(host) => url_location(address@).1 == Some(host@),
            None => url_location(address@).1 is None,
        },
{
    let url = urlparse::urlparse(address);
    (url.netloc, url.hostname)
}

/// A URL-like text taken apart: its network location and its host name.
pub struct Location {
    pub netloc: String,
    pub hostname: Option<String>,
}

impl Location {
    /// Takes the address apart.
    pub fn parse(address: &str) -> (location: Location)
        ensures
            location.netloc@ == url_location(address@).0,
            match location.hostname {
                Some(host) => url_location(address@).1 == Some(host@),
                None => url_location(address@).1 is None,
            },
    {
        let (netloc, hostname) = parse_location(address);
        Location { netloc, hostname }
    }
}

/// The texts of a list of strings, in its order.
pub open spec fn texts(strings: Seq<String>) -> Seq<Seq<char>> {
    Seq::new(strings.len(), |i: int| strings[i]@)
}

/// The registry after `location` was offered to it: an empty location and
/// one that is already held change nothing, any other comes last.
pub open spec fn with_location(peers: Seq<Seq<char>>, location: Seq<char>) -> Seq<Seq<char>> {
    if location.len() == 0 || peers.contains(location) {
        peers
    } else {
        peers.push(location)
    }
}

/// Every location is held once, and none is empty.
pub open spec fn well_formed(peers: Seq<Seq<char>>) -> bool {
    &&& peers.no_duplicates()
    &&& forall|i: int| 0 <= i < peers.len() ==> (#[trigger] peers[i]).len() > 0
}

/// A set of network locations that keeps the order of registration.
#[derive(Debug)]
pub struct PeerSet {
    locations: Vec<String>,
}

impl View for PeerSet {
    type V = Seq<Seq<char>>;

    closed spec fn view(&self) -> Seq<Seq<char>> {
        texts(self.locations@)
    }
}

impl PeerSet {
    #[verifier::type_invariant]
    spec fn held_once(self) -> bool {
        well_formed(self@)
    }

    /// The empty registry.
    pub fn new() -> (peers: PeerSet)
        ensures
            peers@ == Seq::<Seq<char>>::empty(),
    {
        let peers = PeerSet { locations: Vec::new() };
        peers
    }

    /// The number of locations held.
    pub fn len(&self) -> (count: usize)
        ensures
            count == self@.len(),
    {
        self.locations.len()
    }

    /// Tells whether `location` is held.
    pub fn contains(&self, location: &str) -> (held: bool)
        ensures
            held == self@.contains(location@),
    {
        let needle = String::from_str(location);
        let mut i: usize = 0;
        while i < self.locations.len()
            invariant
                i <= self.locations.len(),
                needle@ == location@,
                forall|j: int| 0 <= j < i ==> self@[j] != location@,
            decreases self.locations.len() - i,
        {
            if self.locations[i] == needle {
                assert(self@[i as int] == location@);
                return true;
            }
            i += 1;
        }
        false
    }

    /// Offers `location` to the registry. An empty location is refused; one
    /// that is held already is accepted and changes nothing.
    pub fn insert(&mut self, location: String) -> (outcome: Result<(), ValidationError>)
        ensures
            final(self)@ == with_location(old(self)@, location@),
            outcome == if location@.len() == 0 {
                Err::<(), ValidationError>(ValidationError::EmptyLocation)
            } else {
                Ok::<(), ValidationError>(())
            },
    {
        proof {
            use_type_invariant(&*self);
        }
        if location.as_str().unicode_len() == 0 {
            return Err(ValidationError::EmptyLocation);
        }
        if self.contains(location.as_str()) {
            return Ok(());
        }
        let mut held = clone_strings(&self.locations);
        held.push(location);
        assert(texts(held@) =~= self@.push(location@));
        self.locations = held;
        Ok(())
    }

    /// The locations held, in the order of registration.
    pub fn locations(&self) -> (held: &Vec<String>)
        ensures
            texts(held@) == self@,
            well_formed(self@),
    {
        proof {
            use_type_invariant(self);
        }
        &self.locations
    }
}

/// Copies a list of strings.
pub fn clone_strings(strings: &Vec<String>) -> (copy: Vec<String>)
    ensures
        texts(copy@) == texts(strings@),
{
    let mut copy: Vec<String> = Vec::new();
    let mut i: usize = 0;
    while i < strings.len()
        invariant
            i <= strings.len(),
            copy.len() == i,
            forall|j: int| 0 <= j < i ==> copy@[j]@ == strings@[j]@,
        decreases strings.len() - i,
    {
        copy.push(strings[i].clone());
        i += 1;
    }
    copy
}

} // verus!
