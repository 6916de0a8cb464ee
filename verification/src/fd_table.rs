//! Which terminal has which descriptor.
use std::collections::BTreeMap;
use vstd::prelude::*;

verus! {

broadcast use {vstd::std_specs::btree::group_btree_axioms, vstd::laws_cmp::group_laws_cmp};

/// The terminals of a server by id. One that is only reserved has no descriptor yet.
pub struct FdTable {
    fds: BTreeMap<u32, Option<i32>>,
}

/// Whether a list of terminals is sorted by id, without one occurring twice.
pub open spec fn ids_increase(list: Seq<(u32, i32)>) -> bool {
    forall|i: int, j: int| #![trigger list[i], list[j]] 0 <= i < j < list.len() ==> list[i].0
        < list[j].0
}

/// Whether `e` is one of the first `n` entries.
spec fn is_among<'a>(all: Seq<(&'a u32, &'a Option<i32>)>, n: int, e: (u32, i32)) -> bool {
    exists|j: int| #![trigger all[j]] 0 <= j < n && *all[j].0 == e.0 && *all[j].1 == Some(e.1)
}

/// Whether `e` is one of the entries.
spec fn is_listed<'a>(all: Seq<(&'a u32, &'a Option<i32>)>, e: (u32, i32)) -> bool {
    is_among(all, all.len() as int, e)
}

impl View for FdTable {
    type V = Map<u32, Option<i32>>;

    closed spec fn view(&self) -> Map<u32, Option<i32>> {
        self.fds@
    }
}

impl FdTable {
    pub fn new() -> (table: Self)
        ensures
            table@ == Map::<u32, Option<i32>>::empty(),
    {
        FdTable { fds: BTreeMap::new() }
    }

    /// Set what is known of a terminal.
    pub fn set(&mut self, terminal_id: u32, fd: Option<i32>)
        ensures
            final(self)@ == old(self)@.insert(terminal_id, fd),
    {
        self.fds.insert(terminal_id, fd);
    }

    /// Forget a terminal.
    pub fn clear(&mut self, terminal_id: u32)
        ensures
            final(self)@ == old(self)@.remove(terminal_id),
    {
        self.fds.remove(&terminal_id);
    }

    /// The descriptor of a terminal, if it is known and has one.
    pub fn get(&self, terminal_id: u32) -> (fd: Option<i32>)
        ensures
            fd == (if self@.contains_key(terminal_id) {
                self@[terminal_id]
            } else {
                None
            }),
    {
        match self.fds.get(&terminal_id) {
            Some(fd) => *fd,
            None => None,
        }
    }

    /// The terminals that have a descriptor, sorted by id.
    pub fn open_terminals(&self) -> (list: Vec<(u32, i32)>)
        ensures
            ids_increase(list@),
            forall|id: u32, fd: i32| #[trigger]
                list@.contains((id, fd)) <==> self@.contains_key(id) && self@[id] == Some(fd),
    {
        let mut list: Vec<(u32, i32)> = Vec::new();
        let ghost m = self.fds@;
        let iter = self.fds.iter();
        let ghost all = vstd::std_specs::iter::IteratorSpec::remaining(&iter);
        proof {
            let keys = all.map_values(|kv: (&u32, &Option<i32>)| *kv.0);
            assert(vstd::std_specs::btree::increasing_seq(keys));
            assert forall|i: int, j: int| #![trigger all[i], all[j]]
                0 <= i < j < all.len() implies *all[i].0 < *all[j].0 by {
                assert(vstd::std_specs::cmp::OrdSpec::cmp_spec(&keys[i], &keys[j]) is Less);
            }
        }
        for entry in it: iter
            invariant
                m == self.fds@,
                it.seq() == all,
                forall|i: int, j: int| #![trigger all[i], all[j]]
                    0 <= i < j < all.len() ==> *all[i].0 < *all[j].0,
                forall|i: int| #![trigger all[i]]
                    0 <= i < all.len() ==> m.contains_key(*all[i].0) && m[*all[i].0] == *all[i].1,
                forall|k: u32| #[trigger] m.contains_key(k) ==> all.contains((&k, &m[k])),
                ids_increase(list@),
                forall|k: int|
                    0 <= k < list@.len() ==> is_among(all, it.index(), #[trigger] list@[k]),
                forall|j: int| #![trigger all[j]]
                    0 <= j < it.index() ==> (*all[j].1 matches Some(fd) ==> list@.contains(
                        (*all[j].0, fd),
                    )),
        {
            let ghost n = it.index();
            let ghost before = list@;
            let (id, fd) = entry;
            assert(all[n] == entry);
            if let Some(fd) = fd {
                list.push((*id, *fd));
                assert(list@[list@.len() - 1] == (*id, *fd));
                assert forall|k: int| 0 <= k < before.len() implies #[trigger] list@[k]
                    == before[k] by {}
                assert forall|i: int, j: int| #![trigger list@[i], list@[j]]
                    0 <= i < j < list@.len() implies list@[i].0 < list@[j].0 by {
                    if j == before.len() {
                        assert(is_among(all, n, before[i]));
                        let q = choose|q: int| #![trigger all[q]]
                            0 <= q < n && *all[q].0 == before[i].0 && *all[q].1 == Some(
                                before[i].1,
                            );
                        assert(*all[q].0 < *all[n].0);
                    } else {
                        assert(before[i].0 < before[j].0);
                    }
                }
            }
            proof {
                assert forall|k: int| 0 <= k < list@.len() implies is_among(
                    all,
                    n + 1,
                    #[trigger] list@[k],
                ) by {
                    if k < before.len() {
                        assert(is_among(all, n, before[k]));
                        let q = choose|q: int| #![trigger all[q]]
                            0 <= q < n && *all[q].0 == before[k].0 && *all[q].1 == Some(
                                before[k].1,
                            );
                        assert(*all[q].0 == list@[k].0);
                    } else {
                        assert(*all[n].0 == list@[k].0);
                    }
                }
                assert forall|j: int| #![trigger all[j]] 0 <= j < n + 1 implies (
                *all[j].1 matches Some(fd) ==> list@.contains((*all[j].0, fd))) by {
                    if j < n && *all[j].1 is Some {
                        let e = (*all[j].0, (*all[j].1)->0);
                        assert(before.contains(e));
                        let q = choose|q: int| 0 <= q < before.len() && before[q] == e;
                        assert(list@[q] == e);
                    }
                }
            }
        }
        assert forall|id: u32, fd: i32| #[trigger] list@.contains((id, fd)) <==> m.contains_key(id)
            && m[id] == Some(fd) by {
            if list@.contains((id, fd)) {
                let k = choose|k: int| 0 <= k < list@.len() && list@[k] == (id, fd);
                assert(is_listed(all, list@[k]));
                let q = choose|q: int| #![trigger all[q]]
                    0 <= q < all.len() && *all[q].0 == list@[k].0 && *all[q].1 == Some(list@[k].1);
                assert(m.contains_key(*all[q].0));
            }
            if m.contains_key(id) && m[id] == Some(fd) {
                let q = choose|q: int| 0 <= q < all.len() && all[q] == (&id, &m[id]);
                assert(*all[q].0 == id);
            }
        }
        list
    }
}

/// A terminal has the descriptor that was set last, and none once it is forgotten; every other one
/// has what it had.
pub proof fn law_terminal_keeps_what_was_set(
    table: &mut FdTable,
    id: u32,
    fd: Option<i32>,
    other: u32,
    before: Option<i32>,
    own: Option<i32>,
    after: Option<i32>,
)
    requires
        call_ensures(FdTable::set, (table, id, fd), ()),
        call_ensures(FdTable::get, (&*old(table), other), before),
        call_ensures(FdTable::get, (&*final(table), id), own),
        call_ensures(FdTable::get, (&*final(table), other), after),
    ensures
        own == fd,
        other != id ==> after == before,
{
}

/// A terminal that was forgotten has no descriptor; every other one has what it had.
pub proof fn law_forgotten_terminal_has_none(
    table: &mut FdTable,
    id: u32,
    other: u32,
    before: Option<i32>,
    own: Option<i32>,
    after: Option<i32>,
)
    requires
        call_ensures(FdTable::clear, (table, id), ()),
        call_ensures(FdTable::get, (&*old(table), other), before),
        call_ensures(FdTable::get, (&*final(table), id), own),
        call_ensures(FdTable::get, (&*final(table), other), after),
    ensures
        own is None,
        other != id ==> after == before,
{
}

/// The terminals that are listed are exactly those that have a descriptor, each once, by id.
pub proof fn law_open_terminals_are_listed_once(
    table: FdTable,
    list: Vec<(u32, i32)>,
    id: u32,
    fd: Option<i32>,
    i: int,
    j: int,
)
    requires
        call_ensures(FdTable::open_terminals, (&table,), list),
        call_ensures(FdTable::get, (&table, id), fd),
    ensures
        fd matches Some(fd) ==> list@.contains((id, fd)),
        0 <= i < list@.len() && list@[i].0 == id ==> fd == Some(list@[i].1),
        0 <= i < j < list@.len() ==> list@[i].0 < list@[j].0,
{
    if 0 <= i < list@.len() {
        assert(list@.contains((list@[i].0, list@[i].1)));
    }
}

} // verus!
