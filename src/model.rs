use vstd::prelude::*;

verus! {

/// Direction of one throughput measurement.
#[derive(PartialEq, Eq, Structural, Clone, Copy, Debug)]
pub enum Direction {
    Download,
    Upload,
}

/// What identifies one time series: a direction and the server's country and host.
pub type KeyView = (Direction, Seq<char>, Seq<char>);

/// One measured target-direction pair.
#[derive(Debug)]
pub struct MetricKey {
    pub direction: Direction,
    pub country: String,
    pub host: String,
}

impl View for MetricKey {
    type V = KeyView;

    open spec fn view(&self) -> KeyView {
        (self.direction, self.country@, self.host@)
    }
}

impl MetricKey {
    pub fn new(direction: Direction, country: String, host: String) -> (r: MetricKey)
        ensures
            r@ == (direction, country@, host@),
    {
        MetricKey { direction, country, host }
    }

    /// Whether both keys name the same time series.
    pub fn same_series(&self, other: &MetricKey) -> (r: bool)
        ensures
            r == (self@ == other@),
    {
        let d = self.direction == other.direction;
        let c = self.country == other.country;
        let h = self.host == other.host;
        d && c && h
    }

    /// A fresh copy of the key.
    pub fn copied(&self) -> (r: MetricKey)
        ensures
            r@ == self@,
    {
        MetricKey { direction: self.direction, country: self.country.clone(), host: self.host.clone() }
    }
}

/// A candidate test server, as discovery reports it.
#[derive(Debug)]
pub struct ServerDescriptor {
    pub host: String,
    pub country: String,
}

/// The series, in either direction, of the servers listed.
pub open spec fn served_by(servers: Seq<ServerDescriptor>) -> Set<KeyView> {
    Set::new(|k: KeyView| exists|i: int| 0 <= i < servers.len() && servers[i].country@ == k.1 && servers[i].host@ == k.2)
}

/// Whether `key` is a series of one of the servers listed.
pub fn serves(servers: &Vec<ServerDescriptor>, key: &MetricKey) -> (r: bool)
    ensures
        r == served_by(servers@).contains(key@),
{
    let mut i: usize = 0;
    while i < servers.len()
        invariant
            i <= servers@.len(),
            forall|j: int| 0 <= j < i ==> !(servers@[j].country@ == key.country@ && servers@[j].host@ == key.host@),
        decreases servers@.len() - i,
    {
        if servers[i].country == key.country && servers[i].host == key.host {
            return true;
        }
        i = i + 1;
    }
    false
}

/// One entry of a registry: the last rate, in kbps, for a key.
#[derive(Debug)]
pub struct Sample {
    pub key: MetricKey,
    pub value: u64,
}

/// A sequence of samples lists exactly the entries of a map, each key once.
pub open spec fn samples_match(s: Seq<Sample>, m: Map<KeyView, u64>) -> bool {
    &&& forall|i: int| 0 <= i < s.len() ==> #[trigger] m.contains_key(s[i].key@) && m[s[i].key@] == s[i].value
    &&& forall|k: KeyView| #[trigger] m.contains_key(k) ==> exists|i: int| 0 <= i < s.len() && s[i].key@ == k
    &&& forall|i: int, j: int| 0 <= i < j < s.len() ==> s[i].key@ != s[j].key@
}

} // verus!
