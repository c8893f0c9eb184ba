//! The PROPFIND request parser: a state machine over the events of the
//! request body that collects the requested property names.
use vstd::prelude::*;
use vstd::string::*;
use crate::xml_model::{
    QName, QNameV, ReadEvent, ReadEventV, events_prefixes_bound, events_view, prefix_bound,
    read_events, xml_events_of,
};

verus! {

/// Where the parser stands in `<propfind><prop>...</prop></propfind>`.
#[derive(Clone, Copy, PartialEq, Eq, Structural, Debug)]
pub enum ParseState {
    Start,
    PropFind,
    Prop,
    InProp,
}

/// What one event does to the parser.
#[derive(Clone, Copy, PartialEq, Eq, Structural, Debug)]
pub enum Transition {
    /// Move to the given state.
    Goto(ParseState),
    /// Record the element's name as a requested property and enter it.
    Record,
    /// `</prop>` after at least one property: the list is complete.
    Finish,
    /// The event is not accepted in this state.
    Reject,
}

/// Why a body was not accepted.
pub enum PropfindError {
    /// An event that is not accepted in the given state.
    Unexpected(ParseState, ReadEvent),
    /// The events ran out before `</prop>`.
    Truncated,
}

pub enum PropfindErrorV {
    Unexpected(ParseState, ReadEventV),
    Truncated,
}

impl View for PropfindError {
    type V = PropfindErrorV;

    open spec fn view(&self) -> PropfindErrorV {
        match self {
            PropfindError::Unexpected(s, e) => PropfindErrorV::Unexpected(*s, e@),
            PropfindError::Truncated => PropfindErrorV::Truncated,
        }
    }
}

pub open spec fn names_view(v: Seq<QName>) -> Seq<QNameV> {
    v.map_values(|n: QName| n@)
}

pub open spec fn outcome_view(r: Result<Vec<QName>, PropfindError>) -> Result<Seq<QNameV>, PropfindErrorV> {
    match r {
        Ok(v) => Ok(names_view(v@)),
        Err(e) => Err(e@),
    }
}

/// The transition table of the parser; `recorded` where at least one
/// property name was recorded. A `prop` closed before any child is refused.
pub open spec fn transition(s: ParseState, e: ReadEventV, recorded: bool) -> Transition {
    match (s, e) {
        (ParseState::Start, ReadEventV::StartDocument) => Transition::Goto(ParseState::Start),
        (ParseState::Start, ReadEventV::StartElement(n)) => if n.local_name == "propfind"@ {
            Transition::Goto(ParseState::PropFind)
        } else {
            Transition::Reject
        },
        (ParseState::PropFind, ReadEventV::StartElement(n)) => if n.local_name == "prop"@ {
            Transition::Goto(ParseState::Prop)
        } else {
            Transition::Reject
        },
        (ParseState::Prop, ReadEventV::StartElement(_)) => Transition::Record,
        (ParseState::Prop, ReadEventV::EndElement) => if recorded {
            Transition::Finish
        } else {
            Transition::Reject
        },
        (ParseState::InProp, ReadEventV::EndElement) => Transition::Goto(ParseState::Prop),
        _ => Transition::Reject,
    }
}

/// The result of running the parser from state `s` over `evs`, with the
/// names `acc` already recorded.
pub open spec fn outcome_from(s: ParseState, evs: Seq<ReadEventV>, acc: Seq<QNameV>) -> Result<
    Seq<QNameV>,
    PropfindErrorV,
>
    decreases evs.len(),
{
    if evs.len() == 0 {
        Err(PropfindErrorV::Truncated)
    } else {
        let e = evs[0];
        match transition(s, e, acc.len() > 0) {
            Transition::Goto(t) => outcome_from(t, evs.drop_first(), acc),
            Transition::Record => match e {
                ReadEventV::StartElement(n) => outcome_from(
                    ParseState::InProp,
                    evs.drop_first(),
                    acc.push(n),
                ),
                _ => Err(PropfindErrorV::Unexpected(s, e)),
            },
            Transition::Finish => Ok(acc),
            Transition::Reject => Err(PropfindErrorV::Unexpected(s, e)),
        }
    }
}

/// The requested properties of a body whose events are `evs`.
pub open spec fn propfind_outcome(evs: Seq<ReadEventV>) -> Result<Seq<QNameV>, PropfindErrorV> {
    outcome_from(ParseState::Start, evs, Seq::empty())
}

/// The transition that `e` makes from `s`.
pub fn transition_of(s: ParseState, e: &ReadEvent, recorded: bool) -> (t: Transition)
    ensures
        t == transition(s, e@, recorded),
{
    match (s, e) {
        (ParseState::Start, ReadEvent::StartDocument) => Transition::Goto(ParseState::Start),
        (ParseState::Start, ReadEvent::StartElement(n)) => {
            if n.local_name == String::from_str("propfind") {
                Transition::Goto(ParseState::PropFind)
            } else {
                Transition::Reject
            }
        },
        (ParseState::PropFind, ReadEvent::StartElement(n)) => {
            if n.local_name == String::from_str("prop") {
                Transition::Goto(ParseState::Prop)
            } else {
                Transition::Reject
            }
        },
        (ParseState::Prop, ReadEvent::StartElement(_)) => Transition::Record,
        (ParseState::Prop, ReadEvent::EndElement) => if recorded {
            Transition::Finish
        } else {
            Transition::Reject
        },
        (ParseState::InProp, ReadEvent::EndElement) => Transition::Goto(ParseState::Prop),
        _ => Transition::Reject,
    }
}

/// The events of the children of `prop`, each an empty element.
pub open spec fn prop_children(names: Seq<QNameV>) -> Seq<ReadEventV>
    decreases names.len(),
{
    if names.len() == 0 {
        Seq::empty()
    } else {
        seq![ReadEventV::StartElement(names[0]), ReadEventV::EndElement] + prop_children(
            names.drop_first(),
        )
    }
}

/// The events of a well-formed body up to `</prop>`: the document start,
/// `propfind`, `prop`, one empty element for each name, and the end of `prop`.
pub open spec fn propfind_body(pf: QNameV, p: QNameV, names: Seq<QNameV>) -> Seq<ReadEventV> {
    seq![ReadEventV::StartDocument, ReadEventV::StartElement(pf), ReadEventV::StartElement(p)]
        + prop_children(names) + seq![ReadEventV::EndElement]
}

proof fn lemma_prop_phase(names: Seq<QNameV>, acc: Seq<QNameV>, tail: Seq<ReadEventV>)
    requires
        acc.len() + names.len() > 0,
    ensures
        outcome_from(
            ParseState::Prop,
            prop_children(names) + seq![ReadEventV::EndElement] + tail,
            acc,
        ) == Ok::<Seq<QNameV>, PropfindErrorV>(acc + names),
    decreases names.len(),
{
    let evs = prop_children(names) + seq![ReadEventV::EndElement] + tail;
    if names.len() == 0 {
        assert(prop_children(names) =~= Seq::<ReadEventV>::empty());
        assert(evs[0] == ReadEventV::EndElement);
        assert(acc + names =~= acc);
    } else {
        let rest = names.drop_first();
        let a1 = acc.push(names[0]);
        lemma_prop_phase(rest, a1, tail);
        let e1 = evs.drop_first();
        let e2 = e1.drop_first();
        assert(evs[0] == ReadEventV::StartElement(names[0]));
        assert(outcome_from(ParseState::Prop, evs, acc) == outcome_from(ParseState::InProp, e1, a1));
        assert(e1[0] == ReadEventV::EndElement);
        assert(outcome_from(ParseState::InProp, e1, a1) == outcome_from(ParseState::Prop, e2, a1));
        assert(e2 =~= prop_children(rest) + seq![ReadEventV::EndElement] + tail);
        assert(a1 + rest =~= acc + names);
    }
}

proof fn lemma_prop_phase_truncated(names: Seq<QNameV>, acc: Seq<QNameV>, j: int)
    requires
        0 <= j < prop_children(names).len() + 1,
    ensures
        outcome_from(
            ParseState::Prop,
            (prop_children(names) + seq![ReadEventV::EndElement]).take(j),
            acc,
        ) is Err,
    decreases names.len(),
{
    let x = prop_children(names) + seq![ReadEventV::EndElement];
    let evs = x.take(j);
    if j > 0 && names.len() > 0 {
        let rest = names.drop_first();
        let y = prop_children(rest) + seq![ReadEventV::EndElement];
        assert(x =~= seq![ReadEventV::StartElement(names[0]), ReadEventV::EndElement] + y);
        assert(evs[0] == ReadEventV::StartElement(names[0]));
        let e1 = evs.drop_first();
        assert(outcome_from(ParseState::Prop, evs, acc) == outcome_from(
            ParseState::InProp,
            e1,
            acc.push(names[0]),
        ));
        if j >= 2 {
            assert(e1[0] == ReadEventV::EndElement);
            assert(e1.drop_first() =~= y.take(j - 2));
            lemma_prop_phase_truncated(rest, acc.push(names[0]), j - 2);
        }
    }
}

/// Every well-formed body, with at least one property, parses to exactly
/// the names of the children of `prop`, in document order and with
/// duplicates, whatever follows `</prop>`.
pub proof fn lemma_wellformed_body_parses(
    pf: QNameV,
    p: QNameV,
    names: Seq<QNameV>,
    tail: Seq<ReadEventV>,
)
    requires
        pf.local_name == "propfind"@,
        p.local_name == "prop"@,
        names.len() > 0,
    ensures
        propfind_outcome(propfind_body(pf, p, names) + tail) == Ok::<
            Seq<QNameV>,
            PropfindErrorV,
        >(names),
{
    let evs = propfind_body(pf, p, names) + tail;
    let e: Seq<QNameV> = Seq::empty();
    lemma_prop_phase(names, e, tail);
    let e1 = evs.drop_first();
    let e2 = e1.drop_first();
    let e3 = e2.drop_first();
    assert(e3 =~= prop_children(names) + seq![ReadEventV::EndElement] + tail);
    assert(evs[0] == ReadEventV::StartDocument);
    assert(outcome_from(ParseState::Start, evs, e) == outcome_from(ParseState::Start, e1, e));
    assert(e1[0] == ReadEventV::StartElement(pf));
    assert(outcome_from(ParseState::Start, e1, e) == outcome_from(ParseState::PropFind, e2, e));
    assert(e2[0] == ReadEventV::StartElement(p));
    assert(outcome_from(ParseState::PropFind, e2, e) == outcome_from(ParseState::Prop, e3, e));
    assert(Seq::<QNameV>::empty() + names =~= names);
}

/// A body that ends before `</prop>` (any strict prefix of the events of a
/// well-formed body) is rejected, never taken as a shorter list.
pub proof fn lemma_truncated_body_rejected(pf: QNameV, p: QNameV, names: Seq<QNameV>, k: int)
    requires
        pf.local_name == "propfind"@,
        p.local_name == "prop"@,
        0 <= k < propfind_body(pf, p, names).len(),
    ensures
        propfind_outcome(propfind_body(pf, p, names).take(k)) is Err,
{
    let evs = propfind_body(pf, p, names).take(k);
    let e: Seq<QNameV> = Seq::empty();
    let e1 = evs.drop_first();
    let e2 = e1.drop_first();
    let e3 = e2.drop_first();
    if k > 0 {
        assert(evs[0] == ReadEventV::StartDocument);
        assert(outcome_from(ParseState::Start, evs, e) == outcome_from(ParseState::Start, e1, e));
    }
    if k > 1 {
        assert(e1[0] == ReadEventV::StartElement(pf));
        assert(outcome_from(ParseState::Start, e1, e) == outcome_from(ParseState::PropFind, e2, e));
    }
    if k > 2 {
        assert(e2[0] == ReadEventV::StartElement(p));
        assert(outcome_from(ParseState::PropFind, e2, e) == outcome_from(ParseState::Prop, e3, e));
        let x = prop_children(names) + seq![ReadEventV::EndElement];
        assert(e3 =~= x.take(k - 3));
        lemma_prop_phase_truncated(names, e, k - 3);
    }
}

/// A body whose `prop` is closed before any child is rejected.
pub proof fn lemma_empty_prop_rejected(pf: QNameV, p: QNameV, tail: Seq<ReadEventV>)
    requires
        pf.local_name == "propfind"@,
        p.local_name == "prop"@,
    ensures
        propfind_outcome(propfind_body(pf, p, Seq::empty()) + tail) == Err::<
            Seq<QNameV>,
            PropfindErrorV,
        >(PropfindErrorV::Unexpected(ParseState::Prop, ReadEventV::EndElement)),
{
    let evs = propfind_body(pf, p, Seq::empty()) + tail;
    let e: Seq<QNameV> = Seq::empty();
    assert(prop_children(e) =~= Seq::<ReadEventV>::empty());
    let e1 = evs.drop_first();
    let e2 = e1.drop_first();
    let e3 = e2.drop_first();
    assert(evs[0] == ReadEventV::StartDocument);
    assert(outcome_from(ParseState::Start, evs, e) == outcome_from(ParseState::Start, e1, e));
    assert(e1[0] == ReadEventV::StartElement(pf));
    assert(outcome_from(ParseState::Start, e1, e) == outcome_from(ParseState::PropFind, e2, e));
    assert(e2[0] == ReadEventV::StartElement(p));
    assert(outcome_from(ParseState::PropFind, e2, e) == outcome_from(ParseState::Prop, e3, e));
    assert(e3[0] == ReadEventV::EndElement);
}

/// Runs the parser over the events of a body: the names of the children of
/// `prop`, in order and with duplicates, or why the body was not accepted.
pub fn parse_propfind_events(events: &Vec<ReadEvent>) -> (r: Result<Vec<QName>, PropfindError>)
    ensures
        outcome_view(r) == propfind_outcome(events_view(events@)),
{
    let ghost evs = events_view(events@);
    let mut state = ParseState::Start;
    let mut props: Vec<QName> = Vec::new();
    let mut i: usize = 0;
    assert(evs.skip(0) =~= evs);
    assert(names_view(props@) =~= Seq::<QNameV>::empty());
    while i < events.len()
        invariant
            evs == events_view(events@),
            i <= events.len(),
            outcome_from(state, evs.skip(i as int), names_view(props@)) == propfind_outcome(evs),
        decreases events.len() - i,
    {
        let ghost rest = evs.skip(i as int);
        assert(rest[0] == events@[i as int]@);
        assert(rest.drop_first() =~= evs.skip(i + 1));
        let e = &events[i];
        match transition_of(state, e, props.len() > 0) {
            Transition::Goto(t) => {
                state = t;
            },
            Transition::Record => {
                match e {
                    ReadEvent::StartElement(n) => {
                        let ghost before = props@;
                        props.push(n.clone_name());
                        assert(names_view(props@) =~= names_view(before).push(n@));
                        state = ParseState::InProp;
                    },
                    _ => {
                        return Err(PropfindError::Unexpected(state, e.clone_event()));
                    },
                }
            },
            Transition::Finish => {
                return Ok(props);
            },
            Transition::Reject => {
                return Err(PropfindError::Unexpected(state, e.clone_event()));
            },
        }
        i = i + 1;
    }
    assert(evs.skip(i as int) =~= Seq::<ReadEventV>::empty());
    Err(PropfindError::Truncated)
}

/// Every name of `names` that has a prefix has a namespace.
pub open spec fn names_prefixes_bound(names: Seq<QNameV>) -> bool {
    forall|i: int| 0 <= i < names.len() ==> prefix_bound(#[trigger] names[i])
}

/// The parser records only names of element starts among its events, so
/// where those have their prefixes bound, so do the names it returns.
pub proof fn lemma_outcome_prefixes_bound(s: ParseState, evs: Seq<ReadEventV>, acc: Seq<QNameV>)
    requires
        events_prefixes_bound(evs),
        names_prefixes_bound(acc),
    ensures
        outcome_from(s, evs, acc) is Ok ==> names_prefixes_bound(outcome_from(s, evs, acc)->Ok_0),
    decreases evs.len(),
{
    if evs.len() > 0 {
        let rest = evs.drop_first();
        assert forall|i: int| 0 <= i < rest.len() && (#[trigger] rest[i]) is StartElement implies prefix_bound(
            rest[i]->StartElement_0,
        ) by {
            assert(rest[i] == evs[i + 1]);
        }
        match transition(s, evs[0], acc.len() > 0) {
            Transition::Goto(t) => lemma_outcome_prefixes_bound(t, rest, acc),
            Transition::Record => {
                if let ReadEventV::StartElement(n) = evs[0] {
                    assert(evs[0] is StartElement);
                    let a = acc.push(n);
                    assert forall|i: int| 0 <= i < a.len() implies prefix_bound(#[trigger] a[i]) by {
                        if i < acc.len() {
                            assert(a[i] == acc[i]);
                        }
                    }
                    lemma_outcome_prefixes_bound(ParseState::InProp, rest, a);
                }
            },
            _ => {},
        }
    }
}

/// Parses a PROPFIND request body: the names of the children of
/// `<propfind><prop>`, in document order and with duplicates, or why the
/// body was not accepted.
pub fn parse_propfind(body: &[u8]) -> (r: Result<Vec<QName>, PropfindError>)
    ensures
        outcome_view(r) == propfind_outcome(xml_events_of(body@)),
        r is Ok ==> names_prefixes_bound(outcome_view(r)->Ok_0),
{
    let events = read_events(body);
    proof {
        lemma_outcome_prefixes_bound(ParseState::Start, events_view(events@), Seq::empty());
    }
    parse_propfind_events(&events)
}

} // verus!
