//! The ledger: the names of the files that are already synchronised. It only
//! grows, and it is kept on disk as a JSON list of names.

use vstd::prelude::*;

verus! {

/// The list of names that serde_json reads from a JSON text; `None` where it
/// reads none (the text is no JSON list of strings).
pub uninterp spec fn parsed_names(bytes: Seq<u8>) -> Option<Seq<Seq<char>>>;

/// The pretty-printed JSON text that serde_json writes for a list of names;
/// `None` where it reports an error.
pub uninterp spec fn rendered_names(names: Seq<Seq<char>>) -> Option<Seq<u8>>;

/// The views of a sequence of names.
pub open spec fn name_views(names: Seq<String>) -> Seq<Seq<char>> {
    names.map_values(|s: String| s@)
}

/// The views of an optional list of names.
pub open spec fn list_view(names: Option<Vec<String>>) -> Option<Seq<Seq<char>>> {
    match names {
        Some(list) => Some(name_views(list@)),
        None => None,
    }
}

/// The view of an optional byte string.
pub open spec fn bytes_view(bytes: Option<Vec<u8>>) -> Option<Seq<u8>> {
    match bytes {
        Some(b) => Some(b@),
        None => None,
    }
}

/// Trusted: serde_json's `from_slice::<Vec<String>>`, with its error
/// dropped. Parsing depends on the bytes alone, so what it reads is named
/// `parsed_names`; nothing more is claimed of it.
#[verifier::external_body]
fn parse_names(bytes: &[u8]) -> (r: Option<Vec<String>>)
    ensures
        list_view(r) == parsed_names(bytes@),
{
    serde_json::from_slice::<Vec<String>>(bytes).ok()
}

/// Trusted: serde_json's `to_vec_pretty` on a list of strings, with its error
/// dropped. The text depends on the list alone, so it is named
/// `rendered_names`; nothing more is claimed of it.
#[verifier::external_body]
fn render_names(names: &Vec<String>) -> (r: Option<Vec<u8>>)
    ensures
        bytes_view(r) == rendered_names(name_views(names@)),
{
    serde_json::to_vec_pretty(names).ok()
}

/// `names` without repetitions: each name once, where it first stands.
pub open spec fn distinct(names: Seq<Seq<char>>) -> Seq<Seq<char>>
    decreases names.len(),
{
    if names.len() == 0 {
        Seq::empty()
    } else {
        let front = distinct(names.drop_last());
        if front.contains(names.last()) {
            front
        } else {
            front.push(names.last())
        }
    }
}

/// `names` with `name` added at the end unless it is already there.
pub open spec fn with_name(names: Seq<Seq<char>>, name: Seq<char>) -> Seq<Seq<char>> {
    if names.contains(name) {
        names
    } else {
        names.push(name)
    }
}

/// Adding a name keeps every name that was there, makes the new one
/// present, and repeats none.
pub proof fn lemma_with_name(names: Seq<Seq<char>>, name: Seq<char>)
    ensures
        with_name(names, name).contains(name),
        forall|other: Seq<char>| names.contains(other) ==> with_name(names, name).contains(other),
        forall|other: Seq<char>|
            with_name(names, name).contains(other) ==> names.contains(other) || other == name,
        names.no_duplicates() ==> with_name(names, name).no_duplicates(),
{
    let grown = with_name(names, name);
    if !names.contains(name) {
        assert(grown[names.len() as int] == name);
        assert forall|other: Seq<char>| names.contains(other) implies grown.contains(other) by {
            let i = choose|i: int| 0 <= i < names.len() && names[i] == other;
            assert(grown[i] == other);
        }
        assert forall|other: Seq<char>| grown.contains(other) implies names.contains(other)
            || other == name by {
            let i = choose|i: int| 0 <= i < grown.len() && grown[i] == other;
            if i < names.len() {
                assert(names[i] == other);
            }
        }
    }
}

/// The ledger that a stored list of names stands for. A list that could not
/// be read stands for the empty ledger.
pub open spec fn ledger_of(parsed: Option<Seq<Seq<char>>>) -> Seq<Seq<char>> {
    match parsed {
        Some(list) => distinct(list),
        None => Seq::empty(),
    }
}

/// `distinct` holds exactly the names of the list, none of them twice.
pub proof fn lemma_distinct(names: Seq<Seq<char>>)
    ensures
        distinct(names).no_duplicates(),
        forall|name: Seq<char>| distinct(names).contains(name) <==> names.contains(name),
    decreases names.len(),
{
    if names.len() > 0 {
        let front = names.drop_last();
        let last = names.last();
        let kept = distinct(front);
        lemma_distinct(front);
        assert forall|name: Seq<char>| distinct(names).contains(name) implies names.contains(
            name,
        ) by {
            if kept.contains(name) {
                assert(front.contains(name));
                let i = choose|i: int| 0 <= i < front.len() && front[i] == name;
                assert(names[i] == name);
            } else {
                let j = choose|j: int|
                    0 <= j < distinct(names).len() && distinct(names)[j] == name;
                if j < kept.len() {
                    assert(kept[j] == name);
                }
                assert(names[names.len() - 1] == name);
            }
        }
        assert forall|name: Seq<char>| names.contains(name) implies distinct(names).contains(
            name,
        ) by {
            let i = choose|i: int| 0 <= i < names.len() && names[i] == name;
            if i < front.len() {
                assert(front[i] == name);
                assert(front.contains(name));
                assert(kept.contains(name));
                let j = choose|j: int| 0 <= j < kept.len() && kept[j] == name;
                assert(distinct(names)[j] == name);
            } else if kept.contains(last) {
                assert(distinct(names) == kept);
            } else {
                assert(distinct(names)[kept.len() as int] == last);
            }
        }
    }
}

/// The names of the files that are already synchronised, in the order in
/// which they were recorded. No name stands twice.
#[derive(Clone, Debug, PartialEq, Eq)]
pub struct Ledger {
    names: Vec<String>,
}

impl View for Ledger {
    type V = Seq<Seq<char>>;

    closed spec fn view(&self) -> Seq<Seq<char>> {
        name_views(self.names@)
    }
}

impl Ledger {
    /// No name is recorded twice.
    pub open spec fn wf(&self) -> bool {
        self@.no_duplicates()
    }

    /// The empty ledger: what a first run starts from.
    pub fn new() -> (r: Ledger)
        ensures
            r@ == Seq::<Seq<char>>::empty(),
            r.wf(),
    {
        let r = Ledger { names: Vec::new() };
        assert(r@ =~= Seq::<Seq<char>>::empty());
        r
    }

    /// Whether `name` is recorded.
    pub fn contains(&self, name: &str) -> (r: bool)
        ensures
            r == self@.contains(name@),
    {
        let key: String = name.to_owned();
        let mut i: usize = 0;
        while i < self.names.len()
            invariant
                i <= self.names@.len(),
                key@ == name@,
                forall|j: int| 0 <= j < i ==> (#[trigger] self@[j]) != name@,
            decreases self.names@.len() - i,
        {
            if self.names[i] == key {
                assert(self@[i as int] == name@);
                return true;
            }
            i = i + 1;
        }
        false
    }

    /// Records `name`, unless it is recorded already. Nothing is ever taken
    /// out of a ledger.
    pub fn record(&mut self, name: &str)
        requires
            old(self).wf(),
        ensures
            final(self).wf(),
            final(self)@ == with_name(old(self)@, name@),
            final(self)@.contains(name@),
            forall|other: Seq<char>| old(self)@.contains(other) ==> final(self)@.contains(other),
    {
        proof {
            lemma_with_name(self@, name@);
        }
        if !self.contains(name) {
            self.names.push(name.to_owned());
            assert(self@ =~= old(self)@.push(name@));
        }
    }

    /// The number of recorded names.
    pub fn len(&self) -> (r: usize)
        ensures
            r == self@.len(),
    {
        self.names.len()
    }

    /// The ledger of the names in `names`, each once.
    pub fn from_names(names: Vec<String>) -> (r: Ledger)
        ensures
            r.wf(),
            r@ == distinct(name_views(names@)),
            forall|name: Seq<char>| r@.contains(name) <==> name_views(names@).contains(name),
    {
        let mut ledger = Ledger::new();
        let mut i: usize = 0;
        while i < names.len()
            invariant
                i <= names@.len(),
                ledger.wf(),
                ledger@ == distinct(name_views(names@).subrange(0, i as int)),
            decreases names@.len() - i,
        {
            proof {
                let upto = name_views(names@).subrange(0, i + 1);
                assert(upto.drop_last() =~= name_views(names@).subrange(0, i as int));
                assert(upto.last() == names@[i as int]@);
            }
            ledger.record(names[i].as_str());
            i = i + 1;
        }
        proof {
            assert(name_views(names@).subrange(0, i as int) =~= name_views(names@));
            lemma_distinct(name_views(names@));
        }
        ledger
    }

    /// The ledger that a parsed list of names stands for; the empty ledger if
    /// there is no list.
    pub fn from_parsed(parsed: Option<Vec<String>>) -> (r: Ledger)
        ensures
            r.wf(),
            r@ == ledger_of(list_view(parsed)),
    {
        match parsed {
            Some(names) => Ledger::from_names(names),
            None => Ledger::new(),
        }
    }

    /// Reads a ledger from the bytes of its file. Bytes that are no JSON
    /// list of strings give the empty ledger.
    pub fn decode(bytes: &[u8]) -> (r: Ledger)
        ensures
            r.wf(),
            r@ == ledger_of(parsed_names(bytes@)),
    {
        Ledger::from_parsed(parse_names(bytes))
    }

    /// The bytes to store for this ledger: its names as a JSON list, in the
    /// order in which they were recorded. `None` if they cannot be written.
    pub fn encode(&self) -> (r: Option<Vec<u8>>)
        ensures
            bytes_view(r) == rendered_names(self@),
    {
        render_names(&self.names)
    }

    /// A copy of the ledger as it stands.
    pub fn snapshot(&self) -> (r: Ledger)
        ensures
            r@ == self@,
    {
        let r = Ledger { names: self.names.clone() };
        assert(r@ =~= self@);
        r
    }

    /// The ledger read from its file: `stored` holds the bytes of the file,
    /// or `None` if there is no file yet, which gives the empty ledger.
    pub fn load(stored: Option<&[u8]>) -> (r: Ledger)
        ensures
            r.wf(),
            r@ == match stored {
                Some(bytes) => ledger_of(parsed_names(bytes@)),
                None => Seq::empty(),
            },
    {
        match stored {
            Some(bytes) => Ledger::decode(bytes),
            None => Ledger::new(),
        }
    }

    /// The recorded names, in the order in which they were recorded.
    pub fn names(&self) -> (r: Vec<String>)
        ensures
            name_views(r@) == self@,
    {
        let r = self.names.clone();
        assert(name_views(r@) =~= self@);
        r
    }
}

} // verus!
