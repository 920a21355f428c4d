use itertools::Itertools;
use vstd::prelude::*;

verus! {

/// Separator between two clauses of a filter.
pub const CLAUSE_SEP: &'static str = "&";

/// Separator between the key and the value of one clause.
pub const KEY_VALUE_SEP: &'static str = "=";

/// Separator between values of one clause that must all match.
pub const SEP_AND: &'static str = ",";

/// Separator between values of one clause of which one must match.
pub const SEP_OR: &'static str = "|";

/// One `key=value` clause.
pub open spec fn clause_text(c: (Seq<char>, Seq<char>)) -> Seq<char> {
    c.0 + seq!['='] + c.1
}

/// The clauses in the order given, each written `key=value`, joined by `&`.
pub open spec fn render(cs: Seq<(Seq<char>, Seq<char>)>) -> Seq<char>
    decreases cs.len(),
{
    if cs.len() == 0 {
        Seq::empty()
    } else if cs.len() == 1 {
        clause_text(cs[0])
    } else {
        render(cs.drop_last()) + seq!['&'] + clause_text(cs.last())
    }
}

/// Clauses keep the order in which they were added: the first clause is
/// written alone, and each later one comes after the text of those before
/// it, preceded by `&`.
pub proof fn law_clause_appended(cs: Seq<(Seq<char>, Seq<char>)>, key: Seq<char>, value: Seq<char>)
    ensures
        render(cs.push((key, value))) == (if cs.len() == 0 {
            key + seq!['='] + value
        } else {
            render(cs) + seq!['&'] + key + seq!['='] + value
        }),
{
    assert(cs.push((key, value)).drop_last() =~= cs);
    if cs.len() != 0 {
        assert(render(cs) + seq!['&'] + clause_text((key, value)) =~= render(cs) + seq!['&'] + key
            + seq!['='] + value);
    }
}

/// Keys are not merged: adding the same key twice writes two clauses, one
/// for each value, joined by `&`.
pub proof fn law_repeated_key_kept(
    cs: Seq<(Seq<char>, Seq<char>)>,
    key: Seq<char>,
    first: Seq<char>,
    second: Seq<char>,
)
    ensures
        render(cs.push((key, first)).push((key, second))) == (if cs.len() == 0 {
            Seq::<char>::empty()
        } else {
            render(cs) + seq!['&']
        }) + key + seq!['='] + first + seq!['&'] + key + seq!['='] + second,
{
    law_clause_appended(cs, key, first);
    law_clause_appended(cs.push((key, first)), key, second);
    if cs.len() == 0 {
        assert(render(cs.push((key, first)).push((key, second))) =~= Seq::<char>::empty() + key
            + seq!['='] + first + seq!['&'] + key + seq!['='] + second);
    } else {
        assert(render(cs.push((key, first)).push((key, second))) =~= render(cs) + seq!['&'] + key
            + seq!['='] + first + seq!['&'] + key + seq!['='] + second);
    }
}

/// Relies on Itertools::join: the two items written one after the other with
/// `sep` between them (a `&str` is written as itself).
#[verifier::external_body]
fn join_two(first: &str, second: &str, sep: &str) -> (r: String)
    ensures
        r@ == first@ + sep@ + second@,
{
    [first, second].into_iter().join(sep)
}

/// Accumulates `key=value` clauses, in the order they are added, into the
/// text of a set filter.
#[derive(Clone)]
pub struct SetFilterBuilder {
    filter: String,
    clauses: Ghost<Seq<(Seq<char>, Seq<char>)>>,
}

impl View for SetFilterBuilder {
    type V = Seq<(Seq<char>, Seq<char>)>;

    /// The clauses added so far, in order.
    closed spec fn view(&self) -> Seq<(Seq<char>, Seq<char>)> {
        self.clauses@
    }
}

impl SetFilterBuilder {
    /// The accumulated text is the rendering of the clauses added so far.
    pub closed spec fn wf(&self) -> bool {
        self.filter@ == render(self.clauses@)
    }

    fn new() -> (r: SetFilterBuilder)
        ensures
            r.wf(),
            r@ == Seq::<(Seq<char>, Seq<char>)>::empty(),
    {
        SetFilterBuilder { filter: String::new(), clauses: Ghost(Seq::empty()) }
    }

    /// Finishes the builder: the filter holds every clause added, in order,
    /// written `key=value` and joined by `&`.
    pub fn build(self) -> (r: SetFilter)
        requires
            self.wf(),
        ensures
            r.0@ == render(self@),
    {
        SetFilter(self.filter)
    }

    /// Adds the clause `key=value`.
    pub fn custom(self, key: &str, value: &str) -> (r: SetFilterBuilder)
        requires
            self.wf(),
        ensures
            r.wf(),
            r@ == self@.push((key@, value@)),
    {
        let mut b = self;
        b.add_filter(key, value);
        b
    }

    /// Adds the clause `name=<name>`: sets whose name (partially) matches.
    pub fn name(self, name: &str) -> (r: SetFilterBuilder)
        requires
            self.wf(),
        ensures
            r.wf(),
            r@ == self@.push((seq!['n', 'a', 'm', 'e'], name@)),
    {
        let mut b = self;
        proof {
            reveal_strlit("name");
            assert("name"@ =~= seq!['n', 'a', 'm', 'e']);
        }
        b.add_filter("name", name);
        b
    }

    /// Adds the clause `block=<block>`: sets whose block (partially) matches.
    pub fn block(self, block: &str) -> (r: SetFilterBuilder)
        requires
            self.wf(),
        ensures
            r.wf(),
            r@ == self@.push((seq!['b', 'l', 'o', 'c', 'k'], block@)),
    {
        let mut b = self;
        proof {
            reveal_strlit("block");
            assert("block"@ =~= seq!['b', 'l', 'o', 'c', 'k']);
        }
        b.add_filter("block", block);
        b
    }

    fn add_filter(&mut self, key: &str, value: &str)
        requires
            old(self).wf(),
        ensures
            final(self).wf(),
            final(self)@ == old(self)@.push((key@, value@)),
    {
        let ghost cs = self.clauses@;
        let ghost c = (key@, value@);
        proof {
            reveal_strlit("&");
            reveal_strlit("=");
            if cs.len() > 0 {
                assert(render(cs).len() > 0);
            }
        }
        if !self.filter.as_str().is_empty() {
            self.filter.append(CLAUSE_SEP);
        }
        let text = join_two(key, value, KEY_VALUE_SEP);
        self.filter.append(text.as_str());
        self.clauses = Ghost(cs.push(c));
        proof {
            assert(cs.push(c).drop_last() =~= cs);
            assert(clause_text(c) =~= key@ + KEY_VALUE_SEP@ + value@);
            assert(self.filter@ =~= render(cs.push(c)));
        }
    }
}

/// The text of a filter for set requests, passed on unchanged as a query
/// parameter.
#[derive(Clone, Debug)]
pub struct SetFilter(pub String);

impl PartialEq for SetFilter {
    fn eq(&self, other: &SetFilter) -> (r: bool) {
        self.0 == other.0
    }
}

impl vstd::std_specs::cmp::PartialEqSpecImpl for SetFilter {
    open spec fn obeys_eq_spec() -> bool {
        true
    }

    open spec fn eq_spec(&self, other: &SetFilter) -> bool {
        self.0@ == other.0@
    }
}

impl Eq for SetFilter {
}

impl SetFilter {
    /// A builder with no clauses.
    pub fn builder() -> (r: SetFilterBuilder)
        ensures
            r.wf(),
            r@ == Seq::<(Seq<char>, Seq<char>)>::empty(),
    {
        SetFilterBuilder::new()
    }
}

} // verus!
