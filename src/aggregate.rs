use vstd::prelude::*;
use crate::record::{build, built, RawObservation};
use crate::security::WifiSecurity;
use crate::wifi::{Error, Wifi};

verus! {

/// All records of all interfaces, interface after interface.
pub open spec fn concat_all(s: Seq<Seq<Wifi>>) -> Seq<Wifi>
    decreases s.len(),
{
    if s.len() == 0 {
        seq![]
    } else {
        s[0] + concat_all(s.drop_first())
    }
}

pub open spec fn vec_views(s: Seq<Vec<Wifi>>) -> Seq<Seq<Wifi>> {
    s.map_values(|v: Vec<Wifi>| v@)
}

/// Whether some record of `acc` has MAC text `mac`.
pub open spec fn has_mac(acc: Seq<Wifi>, mac: Seq<char>) -> bool {
    exists|i: int| 0 <= i < acc.len() && acc[i].mac@ == mac
}

/// The records in order, without those whose non-empty MAC an earlier
/// record has already; records with an empty MAC are all kept.
pub open spec fn dedup(s: Seq<Wifi>) -> Seq<Wifi>
    decreases s.len(),
{
    if s.len() == 0 {
        seq![]
    } else {
        let d = dedup(s.drop_last());
        let w = s.last();
        if w.mac@.len() > 0 && has_mac(d, w.mac@) {
            d
        } else {
            d.push(w)
        }
    }
}

fn contains_mac(acc: &Vec<Wifi>, mac: &String) -> (r: bool)
    ensures
        r == has_mac(acc@, mac@),
{
    let mut i: usize = 0;
    while i < acc.len()
        invariant
            i <= acc@.len(),
            forall|j: int| 0 <= j < i ==> acc@[j].mac@ != mac@,
        decreases acc@.len() - i,
    {
        if acc[i].mac == *mac {
            return true;
        }
        i = i + 1;
    }
    false
}

proof fn lemma_concat_step(s: Seq<Seq<Wifi>>)
    requires
        s.len() > 0,
    ensures
        concat_all(s) == s[0] + concat_all(s.drop_first()),
{
}

/// Merges the records of several interfaces, in the order the interfaces
/// were enumerated, keeping the first record of each non-empty MAC.
pub fn aggregate(per_interface: Vec<Vec<Wifi>>) -> (r: Vec<Wifi>)
    ensures
        r@ == dedup(concat_all(vec_views(per_interface@))),
{
    let ghost all = concat_all(vec_views(per_interface@));
    let mut rest = per_interface;
    let mut out: Vec<Wifi> = Vec::new();
    let ghost mut done: Seq<Wifi> = seq![];
    assert(done + concat_all(vec_views(rest@)) =~= all);
    while rest.len() > 0
        invariant
            out@ == dedup(done),
            done + concat_all(vec_views(rest@)) == all,
        decreases rest@.len(),
    {
        let ghost before = rest@;
        let mut list = rest.remove(0);
        proof {
            lemma_concat_step(vec_views(before));
            assert(vec_views(before).drop_first() =~= vec_views(rest@));
            assert(vec_views(before)[0] == list@);
            assert(done + (list@ + concat_all(vec_views(rest@))) =~= done + list@ + concat_all(vec_views(rest@)));
        }
        while list.len() > 0
            invariant
                out@ == dedup(done),
                done + list@ + concat_all(vec_views(rest@)) == all,
            decreases list@.len(),
        {
            let ghost lbefore = list@;
            let w = list.remove(0);
            let ghost gw = w;
            if w.mac.as_str().is_empty() || !contains_mac(&out, &w.mac) {
                out.push(w);
            }
            proof {
                let nd = done.push(gw);
                assert(nd.drop_last() =~= done);
                assert(nd.last() == gw);
                assert(out@ == dedup(nd));
                assert(nd + list@ + concat_all(vec_views(rest@)) =~= done + lbefore + concat_all(vec_views(rest@)));
                done = nd;
            }
        }
        assert(done + list@ =~= done);
    }
    assert(concat_all(vec_views(rest@)) =~= Seq::<Wifi>::empty());
    assert(done =~= all);
    out
}

/// Whether `w` is the record that observation `o` decodes to.
pub open spec fn is_built_from(w: Wifi, o: RawObservation) -> bool {
    &&& w@ == built(o)
    &&& w.security@.len() > 0
    &&& w.security@.no_duplicates()
    &&& w.security@.contains(WifiSecurity::Open) ==> w.security@ == seq![WifiSecurity::Open]
}

/// Decodes the observations of one interface.
fn build_all(observations: &Vec<RawObservation>) -> (r: Vec<Wifi>)
    ensures
        r@.len() == observations@.len(),
        forall|j: int| 0 <= j < r@.len() ==> is_built_from(#[trigger] r@[j], observations@[j]),
{
    let mut r: Vec<Wifi> = Vec::new();
    let mut j: usize = 0;
    while j < observations.len()
        invariant
            j <= observations@.len(),
            r@.len() == j,
            forall|k: int| 0 <= k < j ==> is_built_from(#[trigger] r@[k], observations@[k]),
        decreases observations@.len() - j,
    {
        r.push(build(&observations[j]));
        j = j + 1;
    }
    r
}

/// Decodes the observations that each interface reported and merges them
/// with [`aggregate`]. No interface at all is an `InterfaceError`.
pub fn scan(interfaces: Vec<Vec<RawObservation>>) -> (r: Result<Vec<Wifi>, Error>)
    ensures
        interfaces@.len() == 0 <==> r is Err,
        match r {
            Err(e) => e is InterfaceError,
            Ok(v) => exists|records: Seq<Seq<Wifi>>|
                {
                    &&& records.len() == interfaces@.len()
                    &&& forall|i: int| 0 <= i < records.len() ==> (#[trigger] records[i]).len() == interfaces@[i]@.len()
                    &&& forall|i: int, j: int| 0 <= i < records.len() && 0 <= j < records[i].len()
                        ==> is_built_from(#[trigger] records[i][j], interfaces@[i]@[j])
                    &&& v@ == dedup(concat_all(records))
                },
        },
{
    if interfaces.len() == 0 {
        return Err(Error::InterfaceError(String::from_str("No WiFi adapters detected")));
    }
    let mut per_interface: Vec<Vec<Wifi>> = Vec::new();
    let mut i: usize = 0;
    while i < interfaces.len()
        invariant
            i <= interfaces@.len(),
            per_interface@.len() == i,
            forall|k: int| 0 <= k < i ==> (#[trigger] per_interface@[k])@.len() == interfaces@[k]@.len(),
            forall|k: int, j: int| 0 <= k < i && 0 <= j < per_interface@[k]@.len()
                ==> is_built_from(#[trigger] per_interface@[k]@[j], interfaces@[k]@[j]),
        decreases interfaces@.len() - i,
    {
        per_interface.push(build_all(&interfaces[i]));
        i = i + 1;
    }
    let ghost records = vec_views(per_interface@);
    let v = aggregate(per_interface);
    assert(records.len() == interfaces@.len());
    assert(forall|k: int| 0 <= k < records.len() ==> #[trigger] records[k] == per_interface@[k]@);
    Ok(v)
}

} // verus!
