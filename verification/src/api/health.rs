//! The health report: the gateway's own health and, per configured model,
//! whether its backend answered a probe.
use vstd::prelude::*;

use crate::text::{text_eq, trim_end_char, trim_end_matches_char};

verus! {

/// The answer to `GET /health`.
#[derive(Debug)]
pub struct HealthResponse {
    pub health: bool,
    /// Model name and whether its backend was reachable; a later entry of
    /// a name overrides an earlier one.
    pub network: Vec<(String, bool)>,
}

/// The models of a list of probe results.
pub open spec fn probes_view(ps: Seq<(String, bool)>) -> Seq<(Seq<char>, bool)> {
    ps.map_values(|p: (String, bool)| (p.0@, p.1))
}

/// The reachability map a list of results gives, later results of a name
/// overriding earlier ones.
pub open spec fn reachability(ps: Seq<(Seq<char>, bool)>) -> Map<Seq<char>, bool>
    decreases ps.len(),
{
    if ps.len() == 0 {
        Map::empty()
    } else {
        reachability(ps.drop_last()).insert(ps.last().0, ps.last().1)
    }
}

/// `p` with reachability `up` if it is the result for `name`.
pub open spec fn set_if_named(p: (Seq<char>, bool), name: Seq<char>, up: bool) -> (Seq<char>, bool) {
    if p.0 == name {
        (name, up)
    } else {
        p
    }
}

/// The results after recording `up` for `name`: a result for that name is
/// replaced where it stands; without one, the result is added at the end.
pub open spec fn record_probe(ps: Seq<(Seq<char>, bool)>, name: Seq<char>, up: bool) -> Seq<
    (Seq<char>, bool),
> {
    if exists|i: int| 0 <= i < ps.len() && #[trigger] ps[i].0 == name {
        ps.map_values(|p: (Seq<char>, bool)| set_if_named(p, name, up))
    } else {
        ps.push((name, up))
    }
}

/// The results recorded one after another, from none.
pub open spec fn recorded(ps: Seq<(Seq<char>, bool)>) -> Seq<(Seq<char>, bool)>
    decreases ps.len(),
{
    if ps.len() == 0 {
        Seq::empty()
    } else {
        record_probe(recorded(ps.drop_last()), ps.last().0, ps.last().1)
    }
}

proof fn lemma_reachability_set(ps: Seq<(Seq<char>, bool)>, name: Seq<char>, up: bool)
    ensures
        reachability(ps.map_values(|p: (Seq<char>, bool)| set_if_named(p, name, up))) == if reachability(
            ps,
        ).dom().contains(name) {
            reachability(ps).insert(name, up)
        } else {
            reachability(ps)
        },
    decreases ps.len(),
{
    let f = |p: (Seq<char>, bool)| set_if_named(p, name, up);
    if ps.len() > 0 {
        lemma_reachability_set(ps.drop_last(), name, up);
        assert(ps.map_values(f).drop_last() =~= ps.drop_last().map_values(f));
        let prev = reachability(ps.drop_last());
        if ps.last().0 == name {
            assert(reachability(ps.map_values(f)) =~= reachability(ps).insert(name, up));
        } else {
            assert(reachability(ps.map_values(f)) =~= if reachability(ps).dom().contains(name) {
                reachability(ps).insert(name, up)
            } else {
                reachability(ps)
            });
        }
    } else {
        assert(ps.map_values(f) =~= ps);
    }
}

proof fn lemma_reachability_names(ps: Seq<(Seq<char>, bool)>, name: Seq<char>)
    ensures
        reachability(ps).dom().contains(name) <==> exists|i: int|
            0 <= i < ps.len() && #[trigger] ps[i].0 == name,
    decreases ps.len(),
{
    if ps.len() > 0 {
        lemma_reachability_names(ps.drop_last(), name);
        if exists|i: int| 0 <= i < ps.len() && #[trigger] ps[i].0 == name {
            let i = choose|i: int| 0 <= i < ps.len() && #[trigger] ps[i].0 == name;
            if i < ps.len() - 1 {
                assert(ps.drop_last()[i].0 == name);
            }
        }
        if exists|i: int| 0 <= i < ps.len() - 1 && #[trigger] ps.drop_last()[i].0 == name {
            let i = choose|i: int| 0 <= i < ps.len() - 1 && #[trigger] ps.drop_last()[i].0 == name;
            assert(ps[i].0 == name);
        }
    }
}

impl HealthResponse {
    /// The reachability of each model's backend.
    pub open spec fn network_map(&self) -> Map<Seq<char>, bool> {
        reachability(probes_view(self.network@))
    }

    /// A healthy gateway with no probe results yet.
    pub fn new() -> (r: Self)
        ensures
            r.health,
            r.network@.len() == 0,
            r.network_map() == Map::<Seq<char>, bool>::empty(),
    {
        let r = HealthResponse { health: true, network: Vec::new() };
        assert(probes_view(r.network@) =~= Seq::<(Seq<char>, bool)>::empty());
        r
    }

    /// Records whether the backend of model `name` was reachable,
    /// replacing an earlier result for that name.
    pub fn record(&mut self, name: String, reachable: bool)
        ensures
            final(self).health == old(self).health,
            probes_view(final(self).network@) == record_probe(
                probes_view(old(self).network@),
                name@,
                reachable,
            ),
            final(self).network_map() == old(self).network_map().insert(name@, reachable),
    {
        let ghost old_view = probes_view(self.network@);
        let ghost f = |p: (Seq<char>, bool)| set_if_named(p, name@, reachable);
        let mut found = false;
        let mut i: usize = 0;
        while i < self.network.len()
            invariant
                i <= self.network@.len(),
                self.network@.len() == old_view.len(),
                self.health == old(self).health,
                forall|j: int|
                    0 <= j < i ==> #[trigger] probes_view(self.network@)[j] == set_if_named(
                        old_view[j],
                        name@,
                        reachable,
                    ),
                forall|j: int|
                    i <= j < old_view.len() ==> #[trigger] probes_view(self.network@)[j]
                        == old_view[j],
                found == exists|j: int| 0 <= j < i && #[trigger] old_view[j].0 == name@,
            decreases self.network.len() - i,
        {
            let ghost before = probes_view(self.network@);
            assert(before[i as int] == old_view[i as int]);
            assert(before[i as int].0 == self.network@[i as int].0@);
            if text_eq(self.network[i].0.as_str(), name.as_str()) {
                let copy = name.clone();
                assert(copy@ == name@);
                let entry = (copy, reachable);
                self.network.set(i, entry);
                found = true;
                assert(probes_view(self.network@) =~= before.update(
                    i as int,
                    set_if_named(old_view[i as int], name@, reachable),
                ));
            }
            i = i + 1;
        }
        proof {
            lemma_reachability_names(old_view, name@);
        }
        if found {
            assert(probes_view(self.network@) =~= old_view.map_values(f));
            proof {
                lemma_reachability_set(old_view, name@, reachable);
            }
        } else {
            let ghost before = probes_view(self.network@);
            assert(before =~= old_view);
            self.network.push((name, reachable));
            assert(probes_view(self.network@) =~= old_view.push((name@, reachable)));
            assert(probes_view(self.network@).drop_last() =~= old_view);
        }
    }
}

/// The health report for the probe results, in the order they came in:
/// healthy, with each model's latest result.
pub fn health_report(probes: &Vec<(String, bool)>) -> (r: HealthResponse)
    ensures
        r.health,
        probes_view(r.network@) == recorded(probes_view(probes@)),
        r.network_map() == reachability(probes_view(probes@)),
{
    let mut r = HealthResponse::new();
    assert(probes_view(r.network@) =~= Seq::<(Seq<char>, bool)>::empty());
    assert(probes_view(probes@).take(0) =~= Seq::<(Seq<char>, bool)>::empty());
    let mut i: usize = 0;
    while i < probes.len()
        invariant
            i <= probes@.len(),
            r.health,
            probes_view(r.network@) == recorded(probes_view(probes@).take(i as int)),
            r.network_map() == reachability(probes_view(probes@).take(i as int)),
        decreases probes.len() - i,
    {
        assert(probes_view(probes@).take(i + 1).drop_last() =~= probes_view(probes@).take(i as int));
        r.record(probes[i].0.clone(), probes[i].1);
        i = i + 1;
    }
    assert(probes_view(probes@).take(probes@.len() as int) =~= probes_view(probes@));
    r
}

/// Every probed model appears in the report with its latest result, and
/// no other model does.
pub proof fn law_report_covers_probes(probes: Seq<(Seq<char>, bool)>, name: Seq<char>)
    ensures
        reachability(probes).dom().contains(name) <==> exists|i: int|
            0 <= i < probes.len() && #[trigger] probes[i].0 == name,
        probes.len() > 0 && probes.last().0 == name ==> reachability(probes)[name]
            == probes.last().1,
{
    lemma_reachability_names(probes, name);
}

/// The URL a model's backend is probed at: its base URL without trailing
/// slashes.
pub fn health_probe_url(base_url: &str) -> (r: String)
    ensures
        r@ == trim_end_char(base_url@, '/'),
{
    trim_end_matches_char(base_url, '/')
}

} // verus!
