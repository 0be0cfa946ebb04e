//! Routing keys: four ordered path segments. Segments 0 to 2 address hops in
//! the exchange tree, segment 3 always names the target queue. A segment that
//! is empty, begins with NUL or begins with `!` stops the walk at the current
//! node; the segment `*` fans out to every child exchange.

use vstd::prelude::*;

verus! {

/// A four-segment routing path; the variant tags the intended routing
/// semantics, the resolution rules are shared.
pub enum RoutingKey {
    Direct(Vec<String>),
    Topic(Vec<String>),
    Fanout(Vec<String>),
}

/// The mathematical value of a routing key.
pub enum RoutingKeyModel {
    Direct(Seq<Seq<char>>),
    Topic(Seq<Seq<char>>),
    Fanout(Seq<Seq<char>>),
}

impl RoutingKeyModel {
    /// The ordered segments, independent of variant.
    pub open spec fn segments(&self) -> Seq<Seq<char>> {
        match self {
            RoutingKeyModel::Direct(v) => *v,
            RoutingKeyModel::Topic(v) => *v,
            RoutingKeyModel::Fanout(v) => *v,
        }
    }
}

impl View for RoutingKey {
    type V = RoutingKeyModel;

    open spec fn view(&self) -> RoutingKeyModel {
        match self {
            RoutingKey::Direct(v) => RoutingKeyModel::Direct(v.deep_view()),
            RoutingKey::Topic(v) => RoutingKeyModel::Topic(v.deep_view()),
            RoutingKey::Fanout(v) => RoutingKeyModel::Fanout(v.deep_view()),
        }
    }
}

impl RoutingKey {
    /// The ordered segments, independent of variant.
    pub open spec fn segments(&self) -> Seq<Seq<char>> {
        match self {
            RoutingKey::Direct(v) => v.deep_view(),
            RoutingKey::Topic(v) => v.deep_view(),
            RoutingKey::Fanout(v) => v.deep_view(),
        }
    }

    /// A well-formed key carries exactly four segments.
    pub open spec fn wf(&self) -> bool {
        self.segments().len() == 4
    }

    pub fn segment(&self, i: usize) -> (r: &String)
        requires
            self.wf(),
            i < 4,
        ensures
            r@ == self.segments()[i as int],
    {
        let v = match self {
            RoutingKey::Direct(v) => v,
            RoutingKey::Topic(v) => v,
            RoutingKey::Fanout(v) => v,
        };
        &v[i]
    }

    /// Segment 3: the name of the target queue.
    pub fn queue_name(&self) -> (r: &String)
        requires
            self.wf(),
        ensures
            r@ == self.segments()[3],
    {
        self.segment(3)
    }
}

/// A segment that ends the walk at the current node: empty, starting with
/// NUL padding, or explicitly marked with `!`.
pub open spec fn is_stop_segment(s: Seq<char>) -> bool {
    s.len() == 0 || s[0] == '\u{0}' || s[0] == '!'
}

/// The wildcard segment `*`, fanning out to every child exchange.
pub open spec fn is_wildcard_segment(s: Seq<char>) -> bool {
    s.len() == 1 && s[0] == '*'
}

/// How one segment steers the walk.
pub enum SegmentKind {
    Stop,
    Wildcard,
    Name,
}

/// Classify a segment as stop marker, wildcard, or child name.
pub fn classify_segment(s: &String) -> (r: SegmentKind)
    ensures
        r is Stop <==> is_stop_segment(s@),
        r is Wildcard <==> !is_stop_segment(s@) && is_wildcard_segment(s@),
        r is Name <==> !is_stop_segment(s@) && !is_wildcard_segment(s@),
{
    let len = s.as_str().unicode_len();
    if len == 0 {
        SegmentKind::Stop
    } else {
        let c = s.as_str().get_char(0);
        if c == '\u{0}' || c == '!' {
            SegmentKind::Stop
        } else if c == '*' && len == 1 {
            SegmentKind::Wildcard
        } else {
            SegmentKind::Name
        }
    }
}

} // verus!
