//! The names that the manifests declare: those of one ecosystem each once and
//! in the order of names, the ecosystems one after another.

use vstd::prelude::*;
use crate::text::{
    compare, lemma_text_lt_asymmetric, lemma_text_lt_transitive, text_lt, texts, Order,
};

verus! {

/// Each text of `names` comes before every later one.
pub open spec fn strictly_sorted(names: Seq<Seq<char>>) -> bool {
    forall|i: int, j: int| 0 <= i < j < names.len() ==> text_lt(#[trigger] names[i], #[trigger] names[j])
}

/// A strictly sorted sequence holds no text twice.
pub proof fn lemma_sorted_no_duplicates(names: Seq<Seq<char>>)
    requires
        strictly_sorted(names),
    ensures
        names.no_duplicates(),
{
    assert forall|i: int, j: int| 0 <= i < names.len() && 0 <= j < names.len() && i != j implies names[i] != names[j] by {
        if i < j {
            lemma_text_lt_asymmetric(names[i], names[j]);
        } else {
            lemma_text_lt_asymmetric(names[j], names[i]);
        }
    }
}

/// Putting `name` between the texts that come before it and those that come
/// after it keeps the order, and adds `name` to what the sequence holds.
pub proof fn lemma_insert_sorted(names: Seq<Seq<char>>, at: int, name: Seq<char>)
    requires
        strictly_sorted(names),
        0 <= at <= names.len(),
        forall|j: int| 0 <= j < at ==> text_lt(#[trigger] names[j], name),
        at < names.len() ==> text_lt(name, names[at]),
    ensures
        strictly_sorted(names.insert(at, name)),
        names.insert(at, name).to_set() == names.to_set().insert(name),
{
    let grown = names.insert(at, name);
    assert forall|i: int, j: int| 0 <= i < j < grown.len() implies text_lt(#[trigger] grown[i], #[trigger] grown[j]) by {
        if j == at {
            assert(grown[i] == names[i]);
        } else if i == at {
            assert(grown[j] == names[j - 1]);
            if j - 1 > at {
                lemma_text_lt_transitive(name, names[at], names[j - 1]);
            }
        } else if i < at && at < j {
            assert(grown[i] == names[i]);
            assert(grown[j] == names[j - 1]);
        } else if j < at {
            assert(grown[i] == names[i]);
            assert(grown[j] == names[j]);
        } else {
            assert(grown[i] == names[i - 1]);
            assert(grown[j] == names[j - 1]);
        }
    }
    assert forall|t: Seq<char>| grown.to_set().contains(t) <==> names.to_set().insert(name).contains(t) by {
        if grown.contains(t) {
            let k = choose|k: int| 0 <= k < grown.len() && grown[k] == t;
            if k < at {
                assert(names[k] == t);
            } else if k > at {
                assert(names[k - 1] == t);
            }
        }
        if names.contains(t) {
            let k = choose|k: int| 0 <= k < names.len() && names[k] == t;
            if k < at {
                assert(grown[k] == t);
            } else {
                assert(grown[k + 1] == t);
            }
        }
        if t == name {
            assert(grown[at] == t);
        }
    }
    assert(grown.to_set() =~= names.to_set().insert(name));
}

/// Two strictly sorted sequences that hold the same texts are the same
/// sequence: the order in which names are resolved depends on which names
/// were declared, and on nothing else.
pub proof fn lemma_sorted_unique(a: Seq<Seq<char>>, b: Seq<Seq<char>>)
    requires
        strictly_sorted(a),
        strictly_sorted(b),
        a.to_set() == b.to_set(),
    ensures
        a == b,
    decreases a.len(),
{
    lemma_sorted_no_duplicates(a);
    lemma_sorted_no_duplicates(b);
    if a.len() == 0 {
        if b.len() > 0 {
            assert(b.to_set().contains(b[0]));
            assert(a.contains(b[0]));
        }
        assert(a =~= b);
    } else if b.len() == 0 {
        assert(a.to_set().contains(a[0]));
        assert(b.contains(a[0]));
    } else {
        // Both begin with the first of their texts.
        assert(a.to_set().contains(a[0]));
        assert(b.contains(a[0]));
        let j = choose|j: int| 0 <= j < b.len() && b[j] == a[0];
        assert(b.to_set().contains(b[0]));
        assert(a.contains(b[0]));
        let i = choose|i: int| 0 <= i < a.len() && a[i] == b[0];
        if j > 0 {
            // b[0] < b[j] == a[0] <= a[i] == b[0]
            assert(text_lt(b[0], b[j]));
            if i > 0 {
                assert(text_lt(a[0], a[i]));
                lemma_text_lt_asymmetric(a[0], a[i]);
            } else {
                lemma_text_lt_asymmetric(b[0], b[j]);
            }
        }
        assert(a[0] == b[0]);
        let ra = a.drop_first();
        let rb = b.drop_first();
        assert forall|t: Seq<char>| ra.to_set().contains(t) <==> rb.to_set().contains(t) by {
            if ra.contains(t) {
                let k = choose|k: int| 0 <= k < ra.len() && ra[k] == t;
                assert(a[k + 1] == t);
                assert(a.to_set().contains(t));
                assert(b.contains(t));
                let m = choose|m: int| 0 <= m < b.len() && b[m] == t;
                assert(m != 0);
                assert(rb[m - 1] == t);
            }
            if rb.contains(t) {
                let k = choose|k: int| 0 <= k < rb.len() && rb[k] == t;
                assert(b[k + 1] == t);
                assert(b.to_set().contains(t));
                assert(a.contains(t));
                let m = choose|m: int| 0 <= m < a.len() && a[m] == t;
                assert(m != 0);
                assert(ra[m - 1] == t);
            }
        }
        assert(ra.to_set() =~= rb.to_set());
        assert forall|i: int, j: int| 0 <= i < j < ra.len() implies text_lt(#[trigger] ra[i], #[trigger] ra[j]) by {
            assert(ra[i] == a[i + 1] && ra[j] == a[j + 1]);
        }
        assert forall|i: int, j: int| 0 <= i < j < rb.len() implies text_lt(#[trigger] rb[i], #[trigger] rb[j]) by {
            assert(rb[i] == b[i + 1] && rb[j] == b[j + 1]);
        }
        lemma_sorted_unique(ra, rb);
        assert(a =~= seq![a[0]] + ra);
        assert(b =~= seq![b[0]] + rb);
    }
}

/// The names that the manifests of one ecosystem declare: each once, kept in
/// the order of names.
#[derive(Debug)]
pub struct NameSet {
    names: Vec<String>,
}

impl View for NameSet {
    type V = Set<Seq<char>>;

    /// The names held.
    closed spec fn view(&self) -> Set<Seq<char>> {
        texts(self.names@).to_set()
    }
}

impl NameSet {
    #[verifier::type_invariant]
    spec fn ordered(self) -> bool {
        strictly_sorted(texts(self.names@))
    }

    /// The names stand in the order of names, each once. This holds of every
    /// set that the functions of this type have made.
    pub open spec fn well_formed(&self) -> bool {
        strictly_sorted(self.sequence())
    }

    /// The names held, first to last in the order of names.
    pub closed spec fn sequence(&self) -> Seq<Seq<char>> {
        texts(self.names@)
    }

    /// Two sets that hold the same names hold them in the same order: the
    /// order in which the names are resolved, and so that of the records,
    /// depends on which names the manifests declare, not on where or how
    /// often they declare them.
    pub proof fn lemma_order_by_names_alone(&self, other: &NameSet)
        requires
            self.well_formed(),
            other.well_formed(),
            self@ == other@,
        ensures
            self.sequence() == other.sequence(),
    {
        lemma_sorted_unique(self.sequence(), other.sequence());
    }

    /// No names.
    pub fn new() -> (set: Self)
        ensures
            set@ == Set::<Seq<char>>::empty(),
            set.sequence() == Seq::<Seq<char>>::empty(),
            set.well_formed(),
    {
        let set = NameSet { names: Vec::new() };
        assert(texts(set.names@) =~= Seq::<Seq<char>>::empty());
        assert(set@ =~= Set::<Seq<char>>::empty());
        set
    }

    /// Adds `name`, unless it is held already. Its place is found by
    /// halving.
    pub fn insert(&mut self, name: String)
        ensures
            final(self)@ == old(self)@.insert(name@),
            final(self).well_formed(),
    {
        proof {
            use_type_invariant(&*self);
        }
        let mut at: usize = 0;
        let mut end: usize = self.names.len();
        while at < end
            invariant
                at <= end <= self.names.len(),
                *self == *old(self),
                strictly_sorted(texts(self.names@)),
                forall|j: int| 0 <= j < at ==> text_lt(#[trigger] texts(self.names@)[j], name@),
                forall|j: int|
                    end <= j < self.names.len() ==> text_lt(
                        name@,
                        #[trigger] texts(self.names@)[j],
                    ),
            decreases end - at,
        {
            let middle = at + (end - at) / 2;
            let ghost held = texts(self.names@);
            match compare(self.names[middle].as_str(), name.as_str()) {
                Order::Before => {
                    proof {
                        assert forall|j: int| 0 <= j < middle + 1 implies text_lt(
                            #[trigger] held[j],
                            name@,
                        ) by {
                            if j < middle {
                                lemma_text_lt_transitive(held[j], held[middle as int], name@);
                            }
                        }
                    }
                    at = middle + 1;
                },
                Order::Same => {
                    proof {
                        assert(held[middle as int] == name@);
                        assert(self@.contains(name@));
                        assert(self@ =~= self@.insert(name@));
                    }
                    return;
                },
                Order::After => {
                    proof {
                        assert forall|j: int| middle <= j < held.len() implies text_lt(
                            name@,
                            #[trigger] held[j],
                        ) by {
                            if middle < j {
                                lemma_text_lt_transitive(name@, held[middle as int], held[j]);
                            }
                        }
                    }
                    end = middle;
                },
            }
        }
        let mut names: Vec<String> = Vec::new();
        assert(texts(names@) =~= Seq::<Seq<char>>::empty());
        std::mem::swap(&mut self.names, &mut names);
        proof {
            lemma_insert_sorted(texts(names@), at as int, name@);
            assert(texts(names@.insert(at as int, name)) =~= texts(names@).insert(at as int, name@));
        }
        names.insert(at, name);
        self.names = names;
    }

    /// Adds each of `names`.
    pub fn extend(&mut self, names: Vec<String>)
        ensures
            final(self)@ == old(self)@.union(texts(names@).to_set()),
            final(self).well_formed(),
    {
        proof {
            use_type_invariant(&*self);
        }
        let mut names = names;
        let ghost all = texts(names@);
        let ghost mut added: Seq<Seq<char>> = Seq::empty();
        assert(self@ =~= old(self)@.union(added.to_set()));
        while names.len() > 0
            invariant
                all == texts(names@) + added,
                self@ == old(self)@.union(added.to_set()),
                self.well_formed(),
            decreases names.len(),
        {
            let ghost before = texts(names@);
            let name = names.pop().unwrap();
            proof {
                assert(texts(names@) =~= before.drop_last());
                assert(before.last() == name@);
                assert(all =~= texts(names@) + added.insert(0, name@));
                assert(added.insert(0, name@).to_set() =~= added.to_set().insert(name@)) by {
                    let grown = added.insert(0, name@);
                    assert forall|t: Seq<char>| grown.to_set().contains(t) <==> added.to_set().insert(name@).contains(t) by {
                        if grown.contains(t) {
                            let k = choose|k: int| 0 <= k < grown.len() && grown[k] == t;
                            if k > 0 {
                                assert(added[k - 1] == t);
                            }
                        }
                        if added.contains(t) {
                            let k = choose|k: int| 0 <= k < added.len() && added[k] == t;
                            assert(grown[k + 1] == t);
                        }
                        if t == name@ {
                            assert(grown[0] == t);
                        }
                    }
                }
                added = added.insert(0, name@);
            }
            self.insert(name);
            assert(self@ =~= old(self)@.union(added.to_set()));
        }
        assert(all =~= added);
    }

    /// The names, first to last in the order of names.
    pub fn names(&self) -> (names: &Vec<String>)
        ensures
            texts(names@) == self.sequence(),
            self.well_formed(),
            self.sequence().to_set() == self@,
    {
        proof {
            use_type_invariant(self);
        }
        &self.names
    }
}

/// One of the three ecosystems whose dependencies are resolved.
#[derive(Clone, Copy, Debug, PartialEq, Eq, Structural)]
pub enum Ecosystem {
    Python,
    Rust,
    Node,
}

impl Ecosystem {
    /// What the category of a dependency of this ecosystem reads.
    pub open spec fn category_text(self) -> Seq<char> {
        match self {
            Ecosystem::Python => "python"@,
            Ecosystem::Rust => "rust"@,
            Ecosystem::Node => "node"@,
        }
    }

    /// The category of the dependencies of this ecosystem.
    pub fn category(self) -> (category: &'static str)
        ensures
            category@ == self.category_text(),
    {
        match self {
            Ecosystem::Python => "python",
            Ecosystem::Rust => "rust",
            Ecosystem::Node => "node",
        }
    }
}

/// Each of `names` as a dependency of `ecosystem`.
pub open spec fn of_ecosystem(ecosystem: Ecosystem, names: Seq<Seq<char>>) -> Seq<
    (Ecosystem, Seq<char>),
> {
    names.map_values(|name: Seq<char>| (ecosystem, name))
}

/// What each entry of a list of work holds.
pub open spec fn work(list: Seq<(Ecosystem, &str)>) -> Seq<(Ecosystem, Seq<char>)> {
    list.map_values(|entry: (Ecosystem, &str)| (entry.0, entry.1@))
}

/// The names that the manifests declare, by ecosystem.
#[derive(Debug)]
pub struct Names {
    pub python: NameSet,
    pub rust: NameSet,
    pub node: NameSet,
}

impl Names {
    /// The dependencies in the order in which they are resolved and
    /// reported: those of Python, then those of Rust, then those of Node,
    /// each group in the order of names.
    pub open spec fn order(&self) -> Seq<(Ecosystem, Seq<char>)> {
        of_ecosystem(Ecosystem::Python, self.python.sequence()) + of_ecosystem(
            Ecosystem::Rust,
            self.rust.sequence(),
        ) + of_ecosystem(Ecosystem::Node, self.node.sequence())
    }

    /// The order of resolution depends on which names are declared for each
    /// ecosystem, and on nothing else.
    pub proof fn lemma_order_by_names_alone(&self, other: &Names)
        requires
            self.python.well_formed(),
            self.rust.well_formed(),
            self.node.well_formed(),
            other.python.well_formed(),
            other.rust.well_formed(),
            other.node.well_formed(),
            self.python@ == other.python@,
            self.rust@ == other.rust@,
            self.node@ == other.node@,
        ensures
            self.order() == other.order(),
    {
        self.python.lemma_order_by_names_alone(&other.python);
        self.rust.lemma_order_by_names_alone(&other.rust);
        self.node.lemma_order_by_names_alone(&other.node);
    }

    /// No names yet.
    pub fn new() -> (names: Self)
        ensures
            names.python@ == Set::<Seq<char>>::empty(),
            names.rust@ == Set::<Seq<char>>::empty(),
            names.node@ == Set::<Seq<char>>::empty(),
            names.python.well_formed(),
            names.rust.well_formed(),
            names.node.well_formed(),
    {
        Names { python: NameSet::new(), rust: NameSet::new(), node: NameSet::new() }
    }

    /// The dependencies in the order in which they are resolved and reported.
    pub fn resolution_order(&self) -> (list: Vec<(Ecosystem, &str)>)
        ensures
            work(list@) == self.order(),
    {
        let mut list: Vec<(Ecosystem, &str)> = Vec::new();
        assert(work(list@) =~= Seq::<(Ecosystem, Seq<char>)>::empty());
        append(&mut list, Ecosystem::Python, self.python.names());
        append(&mut list, Ecosystem::Rust, self.rust.names());
        append(&mut list, Ecosystem::Node, self.node.names());
        assert(Seq::<(Ecosystem, Seq<char>)>::empty() + of_ecosystem(
            Ecosystem::Python,
            self.python.sequence(),
        ) =~= of_ecosystem(Ecosystem::Python, self.python.sequence()));
        list
    }
}

/// Adds each of `names` to `list`, as a dependency of `ecosystem`.
fn append<'a>(list: &mut Vec<(Ecosystem, &'a str)>, ecosystem: Ecosystem, names: &'a Vec<String>)
    ensures
        work(final(list)@) == work(old(list)@) + of_ecosystem(ecosystem, texts(names@)),
{
    let ghost before = work(list@);
    let ghost added = of_ecosystem(ecosystem, texts(names@));
    let mut i: usize = 0;
    assert(work(list@) =~= before + added.take(0));
    while i < names.len()
        invariant
            i <= names@.len(),
            added == of_ecosystem(ecosystem, texts(names@)),
            work(list@) == before + added.take(i as int),
        decreases names@.len() - i,
    {
        let ghost was = list@;
        list.push((ecosystem, names[i].as_str()));
        proof {
            assert(work(list@) =~= work(was).push((ecosystem, names@[i as int]@)));
            assert(added.take(i + 1) =~= added.take(i as int).push(added[i as int]));
            assert(work(list@) =~= before + added.take(i + 1));
        }
        i = i + 1;
    }
    assert(added.take(names@.len() as int) =~= added);
}

} // verus!
