use vstd::prelude::*;

verus! {

broadcast use vstd::std_specs::vec::group_vec_axioms, vstd::seq::group_seq_axioms;

/// Mathematical model of a structured document: the view of [`Event`].
///
/// Number and string atoms carry the raw bytes of their tokens, so a
/// document is forwarded verbatim and never reinterpreted by the core.
pub enum Doc {
    Null,
    Bool(bool),
    /// The literal bytes of a number token, kept verbatim.
    Num(Seq<u8>),
    /// The raw bytes between the quotes of a string, escapes kept intact.
    Str(Seq<u8>),
    Arr(Seq<Doc>),
    Obj(Seq<(Seq<u8>, Doc)>),
}

/// A structured document: a remote change notification, held verbatim.
///
/// Its model is a [`Doc`]; the fan-out hub and the wire codec speak of
/// events only through that model.
#[derive(Debug, PartialEq, Eq)]
pub enum Event {
    Null,
    Bool(bool),
    Num(Vec<u8>),
    Str(Vec<u8>),
    Arr(Vec<Event>),
    Obj(Vec<(Vec<u8>, Event)>),
}

/// The model of one event.
pub open spec fn doc_of(e: Event) -> Doc
    decreases e via doc_of_dec
{
    match e {
        Event::Null => Doc::Null,
        Event::Bool(b) => Doc::Bool(b),
        Event::Num(n) => Doc::Num(n@),
        Event::Str(s) => Doc::Str(s@),
        Event::Arr(v) => Doc::Arr(docs_of(v@)),
        Event::Obj(m) => Doc::Obj(entries_of(m@)),
    }
}

/// The models of a sequence of events, in order.
pub open spec fn docs_of(s: Seq<Event>) -> Seq<Doc>
    decreases s via docs_of_dec
{
    if s.len() == 0 {
        Seq::empty()
    } else {
        seq![doc_of(s[0])] + docs_of(s.subrange(1, s.len() as int))
    }
}

/// The models of a sequence of keyed entries, in order.
pub open spec fn entries_of(s: Seq<(Vec<u8>, Event)>) -> Seq<(Seq<u8>, Doc)>
    decreases s via entries_of_dec
{
    if s.len() == 0 {
        Seq::empty()
    } else {
        seq![(s[0].0@, doc_of(s[0].1))] + entries_of(s.subrange(1, s.len() as int))
    }
}

#[via_fn]
proof fn doc_of_dec(e: Event) {
    match e {
        Event::Arr(v) => {
            assert(decreases_to!(e => v));
            assert(decreases_to!(v => v@));
        },
        Event::Obj(m) => {
            assert(decreases_to!(e => m));
            assert(decreases_to!(m => m@));
        },
        _ => {},
    }
}

#[via_fn]
proof fn docs_of_dec(s: Seq<Event>) {
    if s.len() != 0 {
        assert(decreases_to!(s => s[0]));
        assert(decreases_to!(s => s.subrange(1, s.len() as int)));
    }
}

#[via_fn]
proof fn entries_of_dec(s: Seq<(Vec<u8>, Event)>) {
    if s.len() != 0 {
        assert(decreases_to!(s => s[0]));
        assert(decreases_to!(s[0] => s[0].1));
        assert(decreases_to!(s => s.subrange(1, s.len() as int)));
    }
}

impl View for Event {
    type V = Doc;

    open spec fn view(&self) -> Doc {
        doc_of(*self)
    }
}

/// `docs_of` maps each element to its model, keeping length and order.
pub proof fn lemma_docs_of(s: Seq<Event>)
    ensures
        docs_of(s).len() == s.len(),
        forall|i: int| 0 <= i < s.len() ==> docs_of(s)[i] == doc_of(s[i]),
    decreases s.len(),
{
    if s.len() != 0 {
        lemma_docs_of(s.subrange(1, s.len() as int));
    }
}

/// `entries_of` maps each entry to its model, keeping length and order.
pub proof fn lemma_entries_of(s: Seq<(Vec<u8>, Event)>)
    ensures
        entries_of(s).len() == s.len(),
        forall|i: int|
            0 <= i < s.len() ==> entries_of(s)[i] == (s[i].0@, doc_of(s[i].1)),
    decreases s.len(),
{
    if s.len() != 0 {
        lemma_entries_of(s.subrange(1, s.len() as int));
    }
}

/// Byte-for-byte copy of a byte vector.
pub fn copy_bytes(v: &Vec<u8>) -> (r: Vec<u8>)
    ensures
        r@ == v@,
{
    let mut r: Vec<u8> = Vec::new();
    let mut i: usize = 0;
    while i < v.len()
        invariant
            i <= v.len(),
            r@ =~= v@.take(i as int),
        decreases v.len() - i,
    {
        r.push(v[i]);
        i = i + 1;
    }
    proof {
        assert(v@.take(v@.len() as int) =~= v@);
    }
    r
}

impl Event {
    /// Deep copy: the copy has the same model as the original.
    pub fn dup(&self) -> (r: Event)
        ensures
            r@ == self@,
        decreases *self,
    {
        match self {
            Event::Null => Event::Null,
            Event::Bool(b) => Event::Bool(*b),
            Event::Num(n) => Event::Num(copy_bytes(n)),
            Event::Str(s) => Event::Str(copy_bytes(s)),
            Event::Arr(v) => Event::Arr(dup_vec(v)),
            Event::Obj(m) => Event::Obj(dup_entries(m)),
        }
    }
}

/// Deep copy of a vector of events, element by element.
fn dup_vec(v: &Vec<Event>) -> (out: Vec<Event>)
    ensures
        docs_of(out@) == docs_of(v@),
    decreases *v,
{
    let mut out: Vec<Event> = Vec::new();
    let mut i: usize = 0;
    while i < v.len()
        invariant
            i <= v.len(),
            out@.len() == i as nat,
            forall|j: int| 0 <= j < i ==> doc_of(out@[j]) == doc_of(v@[j]),
        decreases v.len() - i,
    {
        proof {
            assert(decreases_to!(*v => v@));
            assert(decreases_to!(v@ => v@[i as int]));
        }
        out.push(v[i].dup());
        i = i + 1;
    }
    proof {
        lemma_docs_of(out@);
        lemma_docs_of(v@);
        assert(docs_of(out@) =~= docs_of(v@));
    }
    out
}

/// Deep copy of a vector of keyed entries, entry by entry.
fn dup_entries(m: &Vec<(Vec<u8>, Event)>) -> (out: Vec<(Vec<u8>, Event)>)
    ensures
        entries_of(out@) == entries_of(m@),
    decreases *m,
{
    let mut out: Vec<(Vec<u8>, Event)> = Vec::new();
    let mut i: usize = 0;
    while i < m.len()
        invariant
            i <= m.len(),
            out@.len() == i as nat,
            forall|j: int|
                0 <= j < i ==> out@[j].0@ == m@[j].0@ && doc_of(out@[j].1) == doc_of(m@[j].1),
        decreases m.len() - i,
    {
        proof {
            assert(decreases_to!(*m => m@));
            assert(decreases_to!(m@ => m@[i as int]));
            assert(decreases_to!(m@[i as int] => m@[i as int].1));
        }
        let key = copy_bytes(&m[i].0);
        let val = m[i].1.dup();
        out.push((key, val));
        i = i + 1;
    }
    proof {
        lemma_entries_of(out@);
        lemma_entries_of(m@);
        assert(entries_of(out@) =~= entries_of(m@));
    }
    out
}

} // verus!
