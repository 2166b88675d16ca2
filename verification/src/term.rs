use vstd::prelude::*;

verus! {

/// The mathematical value of an Erlang term.
pub enum TermV {
    Int(int),
    Atom(Seq<char>),
    Binary(Seq<u8>),
    Tuple(Seq<TermV>),
    List(Seq<TermV>),
    MapTerm(Seq<(TermV, TermV)>),
    Pid(u64),
    Port(u64),
    Ref(u64),
    /// A float, by the bits of its IEEE 754 double-precision representation.
    Float(u64),
}

/// An Erlang term held as plain data.
pub enum Term {
    Int(i128),
    Atom(String),
    Binary(Vec<u8>),
    Tuple(Vec<Term>),
    List(Vec<Term>),
    MapTerm(Vec<(Term, Term)>),
    Pid(u64),
    Port(u64),
    Ref(u64),
    /// A float, by the bits of its IEEE 754 double-precision representation.
    Float(u64),
}

pub open spec fn term_view(t: Term) -> TermV
    decreases t,
{
    match t {
        Term::Int(i) => TermV::Int(i as int),
        Term::Atom(s) => TermV::Atom(s@),
        Term::Binary(b) => TermV::Binary(b@),
        Term::Tuple(v) => TermV::Tuple(terms_view(v@)),
        Term::List(v) => TermV::List(terms_view(v@)),
        Term::MapTerm(v) => TermV::MapTerm(entries_view(v@)),
        Term::Pid(p) => TermV::Pid(p),
        Term::Port(p) => TermV::Port(p),
        Term::Ref(r) => TermV::Ref(r),
        Term::Float(b) => TermV::Float(b),
    }
}

pub open spec fn terms_view(s: Seq<Term>) -> Seq<TermV>
    decreases s,
{
    if s.len() == 0 {
        Seq::empty()
    } else {
        seq![term_view(s[0])] + terms_view(s.subrange(1, s.len() as int))
    }
}

pub open spec fn entries_view(s: Seq<(Term, Term)>) -> Seq<(TermV, TermV)>
    decreases s,
{
    if s.len() == 0 {
        Seq::empty()
    } else {
        seq![(term_view(s[0].0), term_view(s[0].1))] + entries_view(s.subrange(1, s.len() as int))
    }
}

impl View for Term {
    type V = TermV;

    open spec fn view(&self) -> TermV {
        term_view(*self)
    }
}


pub proof fn lemma_terms_view(s: Seq<Term>)
    ensures
        terms_view(s).len() == s.len(),
        forall|i: int| 0 <= i < s.len() ==> #[trigger] terms_view(s)[i] == term_view(s[i]),
    decreases s.len(),
{
    if s.len() > 0 {
        let rest = s.subrange(1, s.len() as int);
        lemma_terms_view(rest);
        assert forall|i: int| 0 <= i < s.len() implies #[trigger] terms_view(s)[i] == term_view(s[i]) by {
            if i > 0 {
                assert(rest[i - 1] == s[i]);
            }
        }
    }
}

pub proof fn lemma_entries_view(s: Seq<(Term, Term)>)
    ensures
        entries_view(s).len() == s.len(),
        forall|i: int| 0 <= i < s.len() ==> #[trigger] entries_view(s)[i] == (term_view(s[i].0), term_view(s[i].1)),
    decreases s.len(),
{
    if s.len() > 0 {
        let rest = s.subrange(1, s.len() as int);
        lemma_entries_view(rest);
        assert forall|i: int| 0 <= i < s.len() implies #[trigger] entries_view(s)[i] == (term_view(s[i].0), term_view(s[i].1)) by {
            if i > 0 {
                assert(rest[i - 1] == s[i]);
            }
        }
    }
}

pub fn bytes_equal(a: &Vec<u8>, b: &Vec<u8>) -> (r: bool)
    ensures
        r == (a@ == b@),
{
    if a.len() != b.len() {
        return false;
    }
    let mut i: usize = 0;
    while i < a.len()
        invariant
            a.len() == b.len(),
            i <= a.len(),
            forall|j: int| 0 <= j < i ==> a@[j] == b@[j],
        decreases a.len() - i,
    {
        if a[i] != b[i] {
            return false;
        }
        i = i + 1;
    }
    assert(a@ =~= b@);
    true
}

impl Term {
    /// Structural equality of two terms (Erlang's exact equality `=:=`).
    pub fn equals(&self, other: &Term) -> (r: bool)
        ensures
            r == (self@ == other@),
        decreases self,
    {
        match (self, other) {
            (Term::Int(a), Term::Int(b)) => *a == *b,
            (Term::Atom(a), Term::Atom(b)) => {
                let r = a.eq(b);
                r
            },
            (Term::Binary(a), Term::Binary(b)) => bytes_equal(a, b),
            (Term::Tuple(a), Term::Tuple(b)) => Term::all_equal(a, b),
            (Term::List(a), Term::List(b)) => Term::all_equal(a, b),
            (Term::MapTerm(a), Term::MapTerm(b)) => Term::entries_equal(a, b),
            (Term::Pid(a), Term::Pid(b)) => *a == *b,
            (Term::Port(a), Term::Port(b)) => *a == *b,
            (Term::Ref(a), Term::Ref(b)) => *a == *b,
            (Term::Float(a), Term::Float(b)) => *a == *b,
            _ => {
                assert(self@ != other@);
                false
            },
        }
    }

    fn all_equal(a: &Vec<Term>, b: &Vec<Term>) -> (r: bool)
        ensures
            r == (terms_view(a@) == terms_view(b@)),
        decreases a,
    {
        proof {
            lemma_terms_view(a@);
            lemma_terms_view(b@);
        }
        if a.len() != b.len() {
            return false;
        }
        let mut i: usize = 0;
        while i < a.len()
            invariant
                a.len() == b.len(),
                i <= a.len(),
                terms_view(a@).len() == a.len(),
                terms_view(b@).len() == b.len(),
                forall|k: int| 0 <= k < a.len() ==> #[trigger] terms_view(a@)[k] == term_view(a@[k]),
                forall|k: int| 0 <= k < b.len() ==> #[trigger] terms_view(b@)[k] == term_view(b@[k]),
                forall|j: int| 0 <= j < i ==> terms_view(a@)[j] == terms_view(b@)[j],
            decreases a.len() - i,
        {
            proof {
                assert(decreases_to!(a => a@[i as int]));
            }
            if !a[i].equals(&b[i]) {
                assert(terms_view(a@)[i as int] != terms_view(b@)[i as int]);
                return false;
            }
            i = i + 1;
        }
        assert(terms_view(a@) =~= terms_view(b@));
        true
    }

    fn entries_equal(a: &Vec<(Term, Term)>, b: &Vec<(Term, Term)>) -> (r: bool)
        ensures
            r == (entries_view(a@) == entries_view(b@)),
        decreases a,
    {
        proof {
            lemma_entries_view(a@);
            lemma_entries_view(b@);
        }
        if a.len() != b.len() {
            return false;
        }
        let mut i: usize = 0;
        while i < a.len()
            invariant
                a.len() == b.len(),
                i <= a.len(),
                entries_view(a@).len() == a.len(),
                entries_view(b@).len() == b.len(),
                forall|k: int| 0 <= k < a.len() ==> #[trigger] entries_view(a@)[k] == (term_view(a@[k].0), term_view(a@[k].1)),
                forall|k: int| 0 <= k < b.len() ==> #[trigger] entries_view(b@)[k] == (term_view(b@[k].0), term_view(b@[k].1)),
                forall|j: int| 0 <= j < i ==> entries_view(a@)[j] == entries_view(b@)[j],
            decreases a.len() - i,
        {
            proof {
                assert(decreases_to!(a => a@[i as int]));
                assert(decreases_to!(a@[i as int] => a@[i as int].0));
            }
            let same_key = a[i].0.equals(&b[i].0);
            if !same_key {
                assert(entries_view(a@)[i as int] != entries_view(b@)[i as int]);
                return false;
            }
            let same_value = a[i].1.equals(&b[i].1);
            if !same_value {
                assert(entries_view(a@)[i as int] != entries_view(b@)[i as int]);
                return false;
            }
            i = i + 1;
        }
        assert(entries_view(a@) =~= entries_view(b@));
        true
    }
}


impl Term {
    /// A copy of this term.
    pub fn duplicate(&self) -> (r: Term)
        ensures
            r@ == self@,
        decreases self,
    {
        match self {
            Term::Int(i) => Term::Int(*i),
            Term::Atom(s) => Term::Atom(s.clone()),
            Term::Binary(b) => Term::Binary(b.clone()),
            Term::Tuple(v) => Term::Tuple(Term::duplicate_all(v)),
            Term::List(v) => Term::List(Term::duplicate_all(v)),
            Term::MapTerm(v) => Term::MapTerm(Term::duplicate_entries(v)),
            Term::Pid(p) => Term::Pid(*p),
            Term::Port(p) => Term::Port(*p),
            Term::Ref(r) => Term::Ref(*r),
            Term::Float(b) => Term::Float(*b),
        }
    }

    /// Copies of all the terms of `v`, in order.
    pub fn duplicate_all(v: &Vec<Term>) -> (r: Vec<Term>)
        ensures
            terms_view(r@) == terms_view(v@),
        decreases v,
    {
        proof {
            lemma_terms_view(v@);
        }
        let mut r: Vec<Term> = Vec::new();
        let mut i: usize = 0;
        while i < v.len()
            invariant
                i <= v.len(),
                r.len() == i,
                terms_view(v@).len() == v.len(),
                forall|k: int| 0 <= k < v.len() ==> #[trigger] terms_view(v@)[k] == term_view(v@[k]),
                forall|k: int| 0 <= k < i ==> term_view(#[trigger] r@[k]) == term_view(v@[k]),
            decreases v.len() - i,
        {
            proof {
                assert(decreases_to!(v => v@[i as int]));
            }
            let t = v[i].duplicate();
            r.push(t);
            i = i + 1;
        }
        proof {
            lemma_terms_view(r@);
            assert(terms_view(r@) =~= terms_view(v@));
        }
        r
    }

    fn duplicate_entries(v: &Vec<(Term, Term)>) -> (r: Vec<(Term, Term)>)
        ensures
            entries_view(r@) == entries_view(v@),
        decreases v,
    {
        proof {
            lemma_entries_view(v@);
        }
        let mut r: Vec<(Term, Term)> = Vec::new();
        let mut i: usize = 0;
        while i < v.len()
            invariant
                i <= v.len(),
                r.len() == i,
                entries_view(v@).len() == v.len(),
                forall|k: int| 0 <= k < v.len() ==> #[trigger] entries_view(v@)[k] == (term_view(v@[k].0), term_view(v@[k].1)),
                forall|k: int| 0 <= k < i ==> (term_view(#[trigger] r@[k].0), term_view(r@[k].1)) == (term_view(v@[k].0), term_view(v@[k].1)),
            decreases v.len() - i,
        {
            proof {
                assert(decreases_to!(v => v@[i as int]));
                assert(decreases_to!(v@[i as int] => v@[i as int].0));
            }
            let k = v[i].0.duplicate();
            let val = v[i].1.duplicate();
            r.push((k, val));
            i = i + 1;
        }
        proof {
            lemma_entries_view(r@);
            assert(entries_view(r@) =~= entries_view(v@));
        }
        r
    }
}


impl Term {
    /// The two-element tuple `{a, b}`.
    pub fn pair(a: Term, b: Term) -> (t: Term)
        ensures
            t@ == TermV::Tuple(seq![a@, b@]),
    {
        let mut v: Vec<Term> = Vec::new();
        v.push(a);
        v.push(b);
        proof {
            lemma_terms_view(v@);
            assert(terms_view(v@) =~= seq![a@, b@]);
        }
        Term::Tuple(v)
    }

    /// The three-element tuple `{a, b, c}`.
    pub fn triple(a: Term, b: Term, c: Term) -> (t: Term)
        ensures
            t@ == TermV::Tuple(seq![a@, b@, c@]),
    {
        let mut v: Vec<Term> = Vec::new();
        v.push(a);
        v.push(b);
        v.push(c);
        proof {
            lemma_terms_view(v@);
            assert(terms_view(v@) =~= seq![a@, b@, c@]);
        }
        Term::Tuple(v)
    }
}

} // verus!
