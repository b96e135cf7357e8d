use vstd::prelude::*;
use vstd::pervasive::VecAdditionalExecFns;
use crate::uc::{from_str, sap_uc_of};

verus! {

/// A named connection parameter in native form, both parts null-terminated.
#[derive(Clone, Debug)]
pub struct ConnectionParameter {
    pub name: Vec<u16>,
    pub value: Vec<u16>,
}

/// The map that a list of (name, value) entries stands for; a later entry wins.
pub open spec fn entries_map(e: Seq<(Seq<char>, Seq<char>)>) -> Map<Seq<char>, Seq<char>>
    decreases e.len(),
{
    if e.len() == 0 {
        Map::empty()
    } else {
        entries_map(e.drop_last()).insert(e.last().0, e.last().1)
    }
}

/// No name occurs twice among the entries.
pub open spec fn keys_unique(e: Seq<(Seq<char>, Seq<char>)>) -> bool {
    forall|i: int, j: int| 0 <= i < e.len() && 0 <= j < e.len() && e[i].0 == e[j].0 ==> i == j
}

/// Collects named string parameters for a single connect attempt.
#[derive(Clone, Debug)]
pub struct RfcConnectionBuilder {
    params: Vec<(String, String)>,
}

impl RfcConnectionBuilder {
    /// The stored entries, in the order they were first set.
    pub closed spec fn entries(&self) -> Seq<(Seq<char>, Seq<char>)> {
        self.params@.map_values(|p: (String, String)| (p.0@, p.1@))
    }

    /// Each stored name occurs once.
    pub open spec fn wf(&self) -> bool {
        keys_unique(self.entries())
    }

    /// The parameters as a map from name to value.
    pub open spec fn param_map(&self) -> Map<Seq<char>, Seq<char>> {
        entries_map(self.entries())
    }

    /// A new, empty builder.
    pub fn new() -> (r: RfcConnectionBuilder)
        ensures
            r.wf(),
            r.entries() == Seq::<(Seq<char>, Seq<char>)>::empty(),
            r.param_map() == Map::<Seq<char>, Seq<char>>::empty(),
    {
        let r = RfcConnectionBuilder { params: Vec::new() };
        proof {
            assert(r.entries() =~= Seq::<(Seq<char>, Seq<char>)>::empty());
        }
        r
    }

    /// Sets a parameter, replacing any earlier value of the same name.
    ///
    /// All connection parameters are strings to the native library, so a number
    /// is given in its decimal form.
    pub fn set_param(self, key: &str, value: &str) -> (r: RfcConnectionBuilder)
        requires
            self.wf(),
        ensures
            r.wf(),
            r.param_map() == self.param_map().insert(key@, value@),
            (exists|i: int| 0 <= i < self.entries().len() && self.entries()[i].0 == key@)
                ==> r.entries().len() == self.entries().len(),
            (forall|i: int| 0 <= i < self.entries().len() ==> self.entries()[i].0 != key@)
                ==> r.entries() == self.entries().push((key@, value@)),
    {
        let mut params = self.params;
        let k = key.to_owned();
        let v = value.to_owned();
        let ghost e = params@.map_values(|p: (String, String)| (p.0@, p.1@));
        let n = params.len();
        let mut i: usize = 0;
        while i < n
            invariant
                n == params@.len(),
                e == params@.map_values(|p: (String, String)| (p.0@, p.1@)),
                i <= n,
                k@ == key@,
                v@ == value@,
                keys_unique(e),
                e == self.entries(),
                forall|j: int| 0 <= j < i ==> e[j].0 != key@,
            decreases n - i,
        {
            if params[i].0 == k {
                let ghost before = params@;
                params.set(i, (k, v));
                let r = RfcConnectionBuilder { params };
                proof {
                    let e2 = r.entries();
                    assert(e[i as int].0 == key@);
                    assert(params@ == before.update(i as int, (k, v)));
                    assert(e2 =~= e.update(i as int, (key@, value@)));
                    lemma_entries_map_update(e, i as int, value@);
                }
                return r;
            }
            i = i + 1;
        }
        params.push((k, v));
        let r = RfcConnectionBuilder { params };
        proof {
            let e2 = r.entries();
            assert(e2 =~= e.push((key@, value@)));
            assert(e2.drop_last() =~= e);
        }
        r
    }

    /// Consumes the builder and encodes every parameter to native form, in
    /// entry order, ready for one connect attempt.
    pub fn into_params(self) -> (r: Vec<ConnectionParameter>)
        ensures
            r@.len() == self.entries().len(),
            forall|i: int|
                0 <= i < r@.len() ==> r@[i].name@ == sap_uc_of(#[trigger] self.entries()[i].0)
                    && r@[i].value@ == sap_uc_of(self.entries()[i].1),
    {
        let n = self.params.len();
        let mut out: Vec<ConnectionParameter> = Vec::new();
        let mut i: usize = 0;
        while i < n
            invariant
                n == self.params@.len(),
                i <= n,
                out@.len() == i,
                forall|j: int|
                    0 <= j < i ==> out@[j].name@ == sap_uc_of(#[trigger] self.entries()[j].0)
                        && out@[j].value@ == sap_uc_of(self.entries()[j].1),
            decreases n - i,
        {
            let name = from_str(self.params[i].0.as_str());
            let value = from_str(self.params[i].1.as_str());
            out.push(ConnectionParameter { name, value });
            i = i + 1;
        }
        out
    }
}

impl Default for RfcConnectionBuilder {
    fn default() -> (r: RfcConnectionBuilder)
        ensures
            r.wf(),
            r.param_map() == Map::<Seq<char>, Seq<char>>::empty(),
    {
        RfcConnectionBuilder::new()
    }
}

proof fn lemma_entries_map_update(e: Seq<(Seq<char>, Seq<char>)>, i: int, v: Seq<char>)
    requires
        keys_unique(e),
        0 <= i < e.len(),
    ensures
        keys_unique(e.update(i, (e[i].0, v))),
        entries_map(e.update(i, (e[i].0, v))) == entries_map(e).insert(e[i].0, v),
    decreases e.len(),
{
    let k = e[i].0;
    let e2 = e.update(i, (k, v));
    assert(e2.drop_last().len() == e.drop_last().len());
    if i == e.len() - 1 {
        assert(e2.drop_last() =~= e.drop_last());
        assert(entries_map(e2) =~= entries_map(e).insert(k, v));
    } else {
        assert(e2.drop_last() =~= e.drop_last().update(i, (k, v)));
        lemma_entries_map_update(e.drop_last(), i, v);
        assert(e.last().0 != k);
        assert(entries_map(e2) =~= entries_map(e).insert(k, v));
    }
}

proof fn lemma_entries_map_index(e: Seq<(Seq<char>, Seq<char>)>, i: int)
    requires
        keys_unique(e),
        0 <= i < e.len(),
    ensures
        entries_map(e).contains_key(e[i].0),
        entries_map(e)[e[i].0] == e[i].1,
    decreases e.len(),
{
    if i < e.len() - 1 {
        lemma_entries_map_index(e.drop_last(), i);
        assert(e.last().0 != e[i].0);
    }
}

proof fn lemma_entries_map_key(e: Seq<(Seq<char>, Seq<char>)>, k: Seq<char>)
    requires
        entries_map(e).contains_key(k),
    ensures
        exists|i: int| 0 <= i < e.len() && e[i].0 == k,
    decreases e.len(),
{
    if e.last().0 != k {
        lemma_entries_map_key(e.drop_last(), k);
        let i = choose|i: int| 0 <= i < e.len() - 1 && e.drop_last()[i].0 == k;
        assert(e[i].0 == k);
    }
}

/// Setting one name twice keeps only the later value: the builder then holds
/// that name exactly once, with the second value, and every other name as before.
pub proof fn lemma_last_write_wins(
    before: Map<Seq<char>, Seq<char>>,
    b: RfcConnectionBuilder,
    k: Seq<char>,
    first: Seq<char>,
    second: Seq<char>,
)
    requires
        b.wf(),
        b.param_map() == before.insert(k, first).insert(k, second),
    ensures
        b.param_map() == before.insert(k, second),
        exists|i: int| 0 <= i < b.entries().len() && b.entries()[i] == (k, second),
        forall|i: int|
            0 <= i < b.entries().len() && #[trigger] b.entries()[i].0 == k ==> b.entries()[i].1
                == second,
{
    let e = b.entries();
    assert(before.insert(k, first).insert(k, second) =~= before.insert(k, second));
    lemma_entries_map_key(e, k);
    let i = choose|i: int| 0 <= i < e.len() && e[i].0 == k;
    lemma_entries_map_index(e, i);
    assert(e[i] == (k, second));
    assert forall|j: int| 0 <= j < e.len() && #[trigger] e[j].0 == k implies e[j].1 == second by {
        assert(j == i);
    }
}

} // verus!
