use vstd::prelude::*;

verus! {

/// The map that a list of (name, value) pairs denotes when each pair is
/// written in turn: a later pair for the same name replaces an earlier one.
pub open spec fn pairs_to_map(s: Seq<(Seq<char>, Seq<char>)>) -> Map<Seq<char>, Seq<char>>
    decreases s.len(),
{
    if s.len() == 0 {
        Map::empty()
    } else {
        pairs_to_map(s.drop_last()).insert(s.last().0, s.last().1)
    }
}

/// No name occurs twice in the list.
pub open spec fn distinct_names(s: Seq<(Seq<char>, Seq<char>)>) -> bool {
    forall|i: int, j: int| 0 <= i < j < s.len() ==> s[i].0 != s[j].0
}

proof fn lemma_lookup(s: Seq<(Seq<char>, Seq<char>)>, i: int)
    requires
        distinct_names(s),
        0 <= i < s.len(),
    ensures
        pairs_to_map(s).dom().contains(s[i].0),
        pairs_to_map(s)[s[i].0] == s[i].1,
    decreases s.len(),
{
    if i < s.len() - 1 {
        let t = s.drop_last();
        assert(t[i] == s[i]);
        assert(distinct_names(t)) by {
            assert forall|a: int, b: int| 0 <= a < b < t.len() implies t[a].0 != t[b].0 by {
                assert(t[a] == s[a] && t[b] == s[b]);
            }
        }
        lemma_lookup(t, i);
        assert(s[i].0 != s.last().0);
    }
}

proof fn lemma_absent(s: Seq<(Seq<char>, Seq<char>)>, k: Seq<char>)
    requires
        forall|i: int| 0 <= i < s.len() ==> s[i].0 != k,
    ensures
        !pairs_to_map(s).dom().contains(k),
    decreases s.len(),
{
    if s.len() > 0 {
        let t = s.drop_last();
        assert forall|i: int| 0 <= i < t.len() implies t[i].0 != k by {
            assert(t[i] == s[i]);
        }
        lemma_absent(t, k);
        assert(s[s.len() - 1].0 != k);
    }
}

proof fn lemma_update(s: Seq<(Seq<char>, Seq<char>)>, i: int, v: Seq<char>)
    requires
        distinct_names(s),
        0 <= i < s.len(),
    ensures
        pairs_to_map(s.update(i, (s[i].0, v))) =~= pairs_to_map(s).insert(s[i].0, v),
    decreases s.len(),
{
    let u = s.update(i, (s[i].0, v));
    let t = s.drop_last();
    assert(distinct_names(t)) by {
        assert forall|a: int, b: int| 0 <= a < b < t.len() implies t[a].0 != t[b].0 by {
            assert(t[a] == s[a] && t[b] == s[b]);
        }
    }
    if i == s.len() - 1 {
        assert(u.drop_last() =~= t);
    } else {
        assert(u.drop_last() =~= t.update(i, (t[i].0, v)));
        lemma_update(t, i, v);
        assert(s[i].0 != s.last().0);
    }
}

proof fn lemma_nonempty(s: Seq<(Seq<char>, Seq<char>)>)
    requires
        s.len() > 0,
    ensures
        pairs_to_map(s).dom().contains(s.last().0),
{
}

/// The variables that a UPS reported: each name maps to one value.
pub struct UpsVars {
    entries: Vec<(String, String)>,
}

impl UpsVars {
    /// The entries as plain character sequences.
    pub closed spec fn pairs(&self) -> Seq<(Seq<char>, Seq<char>)> {
        self.entries@.map_values(|e: (String, String)| (e.0@, e.1@))
    }

    /// No name is stored twice.
    #[verifier::type_invariant]
    spec fn wf(&self) -> bool {
        distinct_names(self.pairs())
    }

    /// An empty set of variables.
    pub fn new() -> (res: UpsVars)
        ensures
            res@ == Map::<Seq<char>, Seq<char>>::empty(),
    {
        let res = UpsVars { entries: Vec::new() };
        assert(res.pairs() =~= Seq::<(Seq<char>, Seq<char>)>::empty());
        res
    }

    fn find(&self, name: &String) -> (res: Option<usize>)
        ensures
            res matches Some(i) ==> i < self.pairs().len() && self.pairs()[i as int].0 == name@,
            res is None ==> forall|i: int| 0 <= i < self.pairs().len() ==> self.pairs()[i].0 != name@,
    {
        proof {
            use_type_invariant(self);
        }
        let n = self.entries.len();
        let mut i: usize = 0;
        while i < n
            invariant
                n == self.entries.len(),
                n == self.pairs().len(),
                i <= n,
                forall|j: int| 0 <= j < i ==> self.pairs()[j].0 != name@,
            decreases n - i,
        {
            let key: &String = &self.entries[i].0;
            assert(self.pairs()[i as int].0 == key@);
            if key.eq(name) {
                return Some(i);
            }
            i = i + 1;
        }
        None
    }

    /// Sets `name` to `value`, replacing an earlier value of the same name.
    pub fn insert(&mut self, name: String, value: String)
        ensures
            final(self)@ == old(self)@.insert(name@, value@),
    {
        proof {
            use_type_invariant(&*self);
        }
        let found = self.find(&name);
        let ghost s = self.pairs();
        let mut entries: Vec<(String, String)> = Vec::new();
        std::mem::swap(&mut entries, &mut self.entries);
        assert(entries@.map_values(|e: (String, String)| (e.0@, e.1@)) == s);
        match found {
            Some(i) => {
                proof {
                    lemma_update(s, i as int, value@);
                }
                entries.set(i, (name, value));
                assert(entries@.map_values(|e: (String, String)| (e.0@, e.1@)) =~= s.update(
                    i as int,
                    (s[i as int].0, value@),
                ));
            },
            None => {
                entries.push((name, value));
                assert(entries@.map_values(|e: (String, String)| (e.0@, e.1@)) =~= s.push((name@, value@)));
                assert(s.push((name@, value@)).drop_last() =~= s);
                assert forall|a: int, b: int| 0 <= a < b < s.len() + 1 implies #[trigger] s.push((name@, value@))[a].0
                    != #[trigger] s.push((name@, value@))[b].0 by {
                    if b < s.len() {
                        assert(s.push((name@, value@))[a] == s[a]);
                        assert(s.push((name@, value@))[b] == s[b]);
                    }
                }
            },
        }
        self.entries = entries;
    }

    /// The value of `name`, if the UPS reported it.
    pub fn get(&self, name: &str) -> (res: Option<&str>)
        ensures
            res is Some <==> self@.dom().contains(name@),
            res matches Some(v) ==> v@ == self@[name@],
    {
        proof {
            use_type_invariant(self);
        }
        let owned: String = name.to_owned();
        match self.find(&owned) {
            Some(i) => {
                proof {
                    lemma_lookup(self.pairs(), i as int);
                }
                Some(self.entries[i].1.as_str())
            }
            None => {
                proof {
                    lemma_absent(self.pairs(), name@);
                }
                None
            }
        }
    }

    /// Whether no variable was reported.
    pub fn is_empty(&self) -> (res: bool)
        ensures
            res == (self@.dom() =~= Set::<Seq<char>>::empty()),
    {
        if self.entries.len() == 0 {
            assert(self.pairs() =~= Seq::<(Seq<char>, Seq<char>)>::empty());
            true
        } else {
            proof {
                lemma_nonempty(self.pairs());
                assert(self@.dom().contains(self.pairs().last().0));
            }
            false
        }
    }
}

/// Reading a variable right after setting it gives the value set, and
/// setting one variable leaves every other as it was.
pub proof fn law_read_after_write(m: Map<Seq<char>, Seq<char>>, name: Seq<char>, value: Seq<char>, other: Seq<char>)
    ensures
        m.insert(name, value).dom().contains(name),
        m.insert(name, value)[name] == value,
        other != name ==> (m.insert(name, value).dom().contains(other) == m.dom().contains(other)),
        other != name && m.dom().contains(other) ==> m.insert(name, value)[other] == m[other],
{
}

impl View for UpsVars {
    type V = Map<Seq<char>, Seq<char>>;

    closed spec fn view(&self) -> Map<Seq<char>, Seq<char>> {
        pairs_to_map(self.pairs())
    }
}

} // verus!
