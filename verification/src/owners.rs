//! Grouping per-client data by the client that owns it.  Items come with
//! the id of their owning client.
use vstd::prelude::*;
use std::collections::HashMap;

verus! {

broadcast use vstd::std_specs::hash::group_hash_axioms;

/// The items owned by `owner`, in the order they were given.
pub open spec fn owned_by<T>(items: Seq<(T, u64)>, owner: u64) -> Seq<T>
    decreases items.len(),
{
    if items.len() == 0 {
        seq![]
    } else if items.last().1 == owner {
        owned_by(items.drop_last(), owner).push(items.last().0)
    } else {
        owned_by(items.drop_last(), owner)
    }
}

/// For each owner, the last item it owns.
pub open spec fn table_of<T>(items: Seq<(T, u64)>) -> Map<u64, T>
    decreases items.len(),
{
    if items.len() == 0 {
        Map::empty()
    } else {
        table_of(items.drop_last()).insert(items.last().1, items.last().0)
    }
}

/// Take out the elements controlled by given client.
pub fn filter_controlled_by<T: Copy>(items: &Vec<(T, u64)>, owner: u64) -> (r: Vec<T>)
    ensures
        r@ == owned_by(items@, owner),
{
    let n = items.len();
    let mut out: Vec<T> = Vec::new();
    let mut i: usize = 0;
    while i < n
        invariant
            n == items@.len(),
            i <= n,
            out@ == owned_by(items@.take(i as int), owner),
        decreases n - i,
    {
        assert(items@.take((i + 1) as int).drop_last() == items@.take(i as int));
        let (item, o) = items[i];
        if o == owner {
            out.push(item);
        }
        i = i + 1;
    }
    assert(items@.take(n as int) == items@);
    out
}

/// Take out the first element controlled by given client.
pub fn take_controlled_by<T: Copy>(items: &Vec<(T, u64)>, owner: u64) -> (r: Option<T>)
    ensures
        r == if owned_by(items@, owner).len() > 0 {
            Some(owned_by(items@, owner)[0])
        } else {
            None
        },
{
    let v = filter_controlled_by(items, owner);
    if v.len() > 0 {
        Some(v[0])
    } else {
        None
    }
}

/// Index the items by their owner, assuming that each owner has at most one
/// item; when an owner has several, the last one is kept.
pub fn build_per_client_table<T: Copy>(items: &Vec<(T, u64)>) -> (r: HashMap<u64, T>)
    ensures
        r@ == table_of(items@),
{
    let n = items.len();
    let mut map: HashMap<u64, T> = HashMap::new();
    let mut i: usize = 0;
    while i < n
        invariant
            n == items@.len(),
            i <= n,
            map@ == table_of(items@.take(i as int)),
        decreases n - i,
    {
        assert(items@.take((i + 1) as int).drop_last() == items@.take(i as int));
        let (item, o) = items[i];
        map.insert(o, item);
        i = i + 1;
    }
    assert(items@.take(n as int) == items@);
    map
}

/// Group the items by their owner, keeping their order.
pub fn build_per_client_lists<T: Copy>(items: &Vec<(T, u64)>) -> (r: HashMap<u64, Vec<T>>)
    ensures
        forall|o: u64| #[trigger] r@.contains_key(o) <==> owned_by(items@, o).len() > 0,
        forall|o: u64| #[trigger] r@.contains_key(o) ==> r@[o]@ == owned_by(items@, o),
{
    let n = items.len();
    let mut map: HashMap<u64, Vec<T>> = HashMap::new();
    let mut i: usize = 0;
    while i < n
        invariant
            n == items@.len(),
            i <= n,
            forall|o: u64|
                #[trigger] map@.contains_key(o) <==> owned_by(items@.take(i as int), o).len() > 0,
            forall|o: u64|
                #[trigger] map@.contains_key(o) ==> map@[o]@ == owned_by(items@.take(i as int), o),
        decreases n - i,
    {
        assert(items@.take((i + 1) as int).drop_last() == items@.take(i as int));
        let (item, o) = items[i];
        let mut list = match map.remove(&o) {
            Some(v) => v,
            None => Vec::new(),
        };
        list.push(item);
        map.insert(o, list);
        i = i + 1;
    }
    assert(items@.take(n as int) == items@);
    map
}


/// The table keeps, for each owner, the last item that owner has; with one
/// item per owner, that is the owner's only item.
pub proof fn law_table_keeps_last<T>(items: Seq<(T, u64)>, o: u64)
    ensures
        table_of(items).contains_key(o) <==> owned_by(items, o).len() > 0,
        table_of(items).contains_key(o) ==> table_of(items)[o] == owned_by(items, o).last(),
    decreases items.len(),
{
    if items.len() > 0 {
        law_table_keeps_last(items.drop_last(), o);
    }
}

} // verus!
