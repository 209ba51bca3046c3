//! How the phone app lists the BLE devices a scan found: strongest signal
//! first, devices that reported no signal strength last, and devices of
//! equal strength in the order the scan returned them.
use vstd::prelude::*;

verus! {

/// The sort key of a reported signal strength; no report sorts as `i16::MIN`.
pub open spec fn signal_key(rssi: Option<i16>) -> i16 {
    match rssi {
        Some(v) => v,
        None => i16::MIN,
    }
}

/// Whether device `a` is listed before device `b`.
pub open spec fn listed_before(rssi: Seq<Option<i16>>, a: int, b: int) -> bool {
    signal_key(rssi[a]) > signal_key(rssi[b]) || (signal_key(rssi[a]) == signal_key(rssi[b]) && a < b)
}

/// `order` lists the devices `0..count` of `rssi`, each once, in listing order.
pub open spec fn is_listing(rssi: Seq<Option<i16>>, order: Seq<usize>, count: int) -> bool {
    &&& order.len() == count
    &&& forall|i: int| 0 <= i < order.len() ==> #[trigger] order[i] < count
    &&& forall|i: int, j: int| 0 <= i < j < order.len() ==> listed_before(rssi, #[trigger] order[i] as int, #[trigger] order[j] as int)
}

/// The sort key of a reported signal strength.
pub fn signal_key_of(rssi: Option<i16>) -> (k: i16)
    ensures
        k == signal_key(rssi),
{
    match rssi {
        Some(v) => v,
        None => i16::MIN,
    }
}

/// The listing order of devices with these signal strengths: indices into
/// `rssi`, strongest first, equal strengths in scan order.
pub fn rank_by_signal(rssi: &[Option<i16>]) -> (order: Vec<usize>)
    ensures
        is_listing(rssi@, order@, rssi@.len() as int),
{
    let mut order: Vec<usize> = Vec::new();
    let mut i: usize = 0;
    while i < rssi.len()
        invariant
            i <= rssi@.len(),
            is_listing(rssi@, order@, i as int),
        decreases rssi@.len() - i,
    {
        let key = signal_key_of(rssi[i]);
        let mut p: usize = 0;
        while p < order.len() && signal_key_of(rssi[order[p]]) >= key
            invariant
                p <= order@.len(),
                i < rssi@.len(),
                key == signal_key(rssi@[i as int]),
                is_listing(rssi@, order@, i as int),
                forall|q: int| 0 <= q < p ==> signal_key(rssi@[#[trigger] order@[q] as int]) >= key,
            decreases order@.len() - p,
        {
            p = p + 1;
        }
        let ghost old_order = order@;
        proof {
            assert forall|q: int| p <= q < old_order.len() implies signal_key(rssi@[#[trigger] old_order[q] as int]) < key by {
                if q > p {
                    assert(listed_before(rssi@, old_order[p as int] as int, old_order[q] as int));
                }
            }
        }
        order.insert(p, i);
        proof {
            let n = order@;
            assert forall|a: int, b: int| 0 <= a < b < n.len() implies listed_before(rssi@, #[trigger] n[a] as int, #[trigger] n[b] as int) by {
                if a < p && b < p {
                    assert(n[a] == old_order[a] && n[b] == old_order[b]);
                } else if a < p && b == p {
                    assert(n[a] == old_order[a]);
                } else if a < p {
                    assert(n[a] == old_order[a] && n[b] == old_order[b - 1]);
                } else if a == p {
                    assert(n[b] == old_order[b - 1]);
                } else {
                    assert(n[a] == old_order[a - 1] && n[b] == old_order[b - 1]);
                }
            }
            assert forall|q: int| 0 <= q < n.len() implies #[trigger] n[q] < i + 1 by {
                if q < p {
                    assert(n[q] == old_order[q]);
                } else if q > p {
                    assert(n[q] == old_order[q - 1]);
                }
            }
        }
        i = i + 1;
    }
    order
}

/// No device appears twice in a listing.
pub proof fn lemma_listing_is_permutation(rssi: Seq<Option<i16>>, order: Seq<usize>, count: int, i: int, j: int)
    requires
        is_listing(rssi, order, count),
        0 <= i < order.len(),
        0 <= j < order.len(),
        i != j,
    ensures
        order[i] != order[j],
{
    if i < j {
        assert(listed_before(rssi, order[i] as int, order[j] as int));
    } else {
        assert(listed_before(rssi, order[j] as int, order[i] as int));
    }
}

/// The name shown for a device that advertised `name`.
pub fn display_name(name: Option<String>) -> (s: String)
    ensures
        s@ == match name {
            Some(n) => n@,
            None => "(unnamed)"@,
        },
{
    match name {
        Some(n) => n,
        None => "(unnamed)".to_owned(),
    }
}

/// The name shown for a device that advertised `name`.
pub open spec fn shown_name(name: Option<String>) -> Seq<char> {
    match name {
        Some(n) => n@,
        None => "(unnamed)"@,
    }
}

/// One entry of the device list: which device of the scan it is, the name
/// shown for it and the signal strength it reported.
#[derive(Debug, PartialEq, Eq)]
pub struct Listed {
    pub index: usize,
    pub name: String,
    pub rssi: Option<i16>,
}

/// Entry `l` shows device `l.index` with the name shown for it and the
/// signal strength it reported.
pub open spec fn shows_device(l: Listed, names: Seq<Option<String>>, rssi: Seq<Option<i16>>) -> bool {
    &&& l.name@ == shown_name(names[l.index as int])
    &&& l.rssi == rssi[l.index as int]
}

/// The device list of a scan that found devices with these advertised names
/// and signal strengths: one entry per device, strongest signal first,
/// equal strengths in scan order, unnamed devices shown as "(unnamed)".
pub fn list_devices(names: &[Option<String>], rssi: &[Option<i16>]) -> (list: Vec<Listed>)
    requires
        names@.len() == rssi@.len(),
    ensures
        is_listing(rssi@, list@.map_values(|l: Listed| l.index), rssi@.len() as int),
        forall|p: int| 0 <= p < list@.len() ==> shows_device(#[trigger] list@[p], names@, rssi@),
{
    let order = rank_by_signal(rssi);
    let mut list: Vec<Listed> = Vec::new();
    let mut p: usize = 0;
    while p < order.len()
        invariant
            names@.len() == rssi@.len(),
            is_listing(rssi@, order@, rssi@.len() as int),
            p <= order@.len(),
            list@.len() == p,
            forall|q: int| 0 <= q < p ==> (#[trigger] list@[q]).index == order@[q],
            forall|q: int| 0 <= q < p ==> shows_device(#[trigger] list@[q], names@, rssi@),
        decreases order@.len() - p,
    {
        let index = order[p];
        assert(order@[p as int] < rssi@.len());
        let name = match &names[index] {
            Some(n) => n.clone(),
            None => "(unnamed)".to_owned(),
        };
        let entry = Listed { index, name, rssi: rssi[index] };
        assert(shows_device(entry, names@, rssi@));
        list.push(entry);
        p = p + 1;
    }
    assert(list@.map_values(|l: Listed| l.index) =~= order@);
    list
}

/// Whether the app connects on its own after a scan: only when it found
/// exactly one device; otherwise it lists them and the user picks.
pub fn auto_connect(found: usize) -> (r: bool)
    ensures
        r == (found == 1),
{
    found == 1
}

/// Whether a scanned device advertised the badge's name.
pub open spec fn is_badge(name: Option<String>) -> bool {
    name matches Some(n) && n@ == "nameyourbadge"@
}

/// The indices among the first `n` scanned devices that advertised the
/// badge's name, in scan order.
pub open spec fn badge_indices(names: Seq<Option<String>>, n: nat) -> Seq<usize>
    decreases n,
{
    if n == 0 {
        Seq::empty()
    } else if is_badge(names[n - 1]) {
        badge_indices(names, (n - 1) as nat).push((n - 1) as usize)
    } else {
        badge_indices(names, (n - 1) as nat)
    }
}

/// The badges a scan found: the devices whose advertised name is the
/// badge's (a device whose properties could not be read counts as unnamed),
/// in scan order, each with that name and its signal strength.
pub fn find_badges(names: &[Option<String>], rssi: &[Option<i16>]) -> (found: Vec<Listed>)
    requires
        names@.len() == rssi@.len(),
    ensures
        found@.map_values(|l: Listed| l.index) == badge_indices(names@, names@.len()),
        forall|p: int| 0 <= p < found@.len() ==> {
            &&& #[trigger] found@[p].name@ == "nameyourbadge"@
            &&& found@[p].rssi == rssi@[found@[p].index as int]
        },
{
    let badge = "nameyourbadge".to_owned();
    let mut found: Vec<Listed> = Vec::new();
    let mut i: usize = 0;
    while i < names.len()
        invariant
            names@.len() == rssi@.len(),
            i <= names@.len(),
            badge@ == "nameyourbadge"@,
            found@.map_values(|l: Listed| l.index) == badge_indices(names@, i as nat),
            forall|p: int| 0 <= p < found@.len() ==> {
                &&& #[trigger] found@[p].name@ == "nameyourbadge"@
                &&& found@[p].rssi == rssi@[found@[p].index as int]
            },
        decreases names@.len() - i,
    {
        let ghost before = found@;
        match &names[i] {
            Some(n) => {
                if *n == badge {
                    found.push(Listed { index: i, name: n.clone(), rssi: rssi[i] });
                    assert(found@.map_values(|l: Listed| l.index)
                        =~= before.map_values(|l: Listed| l.index).push(i));
                } else {
                    assert(!is_badge(names@[i as int]));
                }
            },
            None => {},
        }
        assert(found@.map_values(|l: Listed| l.index) =~= badge_indices(names@, (i + 1) as nat));
        i = i + 1;
    }
    found
}

} // verus!
