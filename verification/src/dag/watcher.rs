//! The loaded DAG definitions, keyed by DAG id.
use vstd::prelude::*;
use crate::dag::definition::DagDefinition;
use crate::dag::validator::{validation_accepts, DagValidator, ValidationError};

verus! {

/// The ids of a sequence of DAGs.
pub open spec fn dag_ids(dags: Seq<DagDefinition>) -> Seq<Seq<char>> {
    dags.map_values(|d: DagDefinition| d.id@)
}

/// The loaded DAGs: at most one per id, each one that passed validation.
pub struct DagWatcher {
    dags: Vec<DagDefinition>,
}

/// Every DAG of `dags` passes validation.
pub open spec fn all_valid(dags: Seq<DagDefinition>) -> bool {
    forall|i: int| 0 <= i < dags.len() ==> validation_accepts(#[trigger] dags[i])
}

impl DagWatcher {
    #[verifier::type_invariant]
    spec fn well_formed(self) -> bool {
        &&& dag_ids(self.dags@).no_duplicates()
        &&& all_valid(self.dags@)
    }

    /// The loaded DAGs, by id.
    pub closed spec fn loaded(self) -> Map<Seq<char>, DagDefinition> {
        Map::new(
            |id: Seq<char>| dag_ids(self.dags@).contains(id),
            |id: Seq<char>| self.dags@[dag_ids(self.dags@).index_of(id)],
        )
    }

    /// No DAGs loaded.
    pub fn new() -> (r: DagWatcher)
        ensures
            r.loaded() == Map::<Seq<char>, DagDefinition>::empty(),
    {
        let r = DagWatcher { dags: Vec::new() };
        proof {
            assert(r.loaded() =~= Map::<Seq<char>, DagDefinition>::empty());
        }
        r
    }

    /// Position of the DAG with id `dag_id`.
    fn position(&self, dag_id: &str) -> (r: Option<usize>)
        ensures
            match r {
                Some(i) => i < self.dags@.len() && self.dags@[i as int].id@ == dag_id@,
                None => !dag_ids(self.dags@).contains(dag_id@),
            },
    {
        let key = dag_id.to_owned();
        let mut i: usize = 0;
        while i < self.dags.len()
            invariant
                key@ == dag_id@,
                i <= self.dags@.len(),
                forall|j: int| 0 <= j < i ==> self.dags@[j].id@ != dag_id@,
            decreases self.dags@.len() - i,
        {
            if self.dags[i].id == key {
                return Some(i);
            }
            i = i + 1;
        }
        proof {
            if dag_ids(self.dags@).contains(dag_id@) {
                let k = choose|k: int| 0 <= k < dag_ids(self.dags@).len() && dag_ids(self.dags@)[k] == dag_id@;
                assert(self.dags@[k].id@ == dag_id@);
            }
        }
        None
    }

    /// The DAG loaded under `dag_id`.
    pub fn get_dag(&self, dag_id: &str) -> (r: Option<&DagDefinition>)
        ensures
            match r {
                Some(d) => self.loaded().contains_key(dag_id@) && self.loaded()[dag_id@] == *d
                    && validation_accepts(*d),
                None => !self.loaded().contains_key(dag_id@),
            },
    {
        proof {
            use_type_invariant(self);
        }
        match self.position(dag_id) {
            Some(i) => {
                proof {
                    let ids = dag_ids(self.dags@);
                    assert(ids[i as int] == dag_id@);
                    assert(ids.contains(dag_id@));
                    lemma_index_of_unique(ids, dag_id@, i as int);
                }
                Some(&self.dags[i])
            },
            None => None,
        }
    }

    /// All loaded DAGs, each once.
    pub fn get_all_dags(&self) -> (r: &Vec<DagDefinition>)
        ensures
            dag_ids(r@).no_duplicates(),
            forall|id: Seq<char>| #[trigger] dag_ids(r@).contains(id) <==> self.loaded().contains_key(id),
            forall|i: int| 0 <= i < r@.len() ==> self.loaded()[#[trigger] r@[i].id@] == r@[i],
            all_valid(r@),
    {
        proof {
            use_type_invariant(self);
            let ids = dag_ids(self.dags@);
            assert forall|i: int| 0 <= i < self.dags@.len() implies self.loaded()[#[trigger] self.dags@[i].id@]
                == self.dags@[i] by {
                assert(ids[i] == self.dags@[i].id@);
                lemma_index_of_unique(ids, self.dags@[i].id@, i);
            }
        }
        &self.dags
    }

    /// Loads `dag`, which passed validation, replacing a DAG with the same
    /// id.
    fn insert_dag(&mut self, dag: DagDefinition)
        requires
            validation_accepts(dag),
        ensures
            final(self).loaded() == old(self).loaded().insert(dag.id@, dag),
    {
        proof {
            use_type_invariant(&*self);
        }
        let ghost before = self.dags@;
        let ghost d = dag;
        let pos = self.position(dag.id.as_str());
        let mut dags: Vec<DagDefinition> = Vec::new();
        std::mem::swap(&mut dags, &mut self.dags);
        proof {
            assert(dags@ == before);
        }
        match pos {
            Some(i) => {
                dags.remove(i);
                dags.insert(i, dag);
                proof {
                    let after = dags@;
                    assert(after =~= before.update(i as int, d));
                    let ib = dag_ids(before);
                    let ia = dag_ids(after);
                    assert(ia =~= ib.update(i as int, d.id@));
                    assert(ib[i as int] == d.id@);
                    assert(ia =~= ib);
                    assert(ia.no_duplicates());
                    assert(all_valid(after));
                    assert forall|id: Seq<char>| #[trigger] ia.contains(id) <==> ib.contains(id) by {
                        if ia.contains(id) {
                            let k = choose|k: int| 0 <= k < ia.len() && ia[k] == id;
                            assert(ib[k] == ia[k] || k == i);
                            assert(ib[i as int] == d.id@);
                        }
                        if ib.contains(id) {
                            let k = choose|k: int| 0 <= k < ib.len() && ib[k] == id;
                            assert(ia[k] == ib[k] || k == i);
                            assert(ia[i as int] == d.id@);
                        }
                    }
                    let nw = DagWatcher { dags: dags };
                    assert(nw.loaded().dom() =~= old(self).loaded().insert(d.id@, d).dom()) by {
                        assert forall|id: Seq<char>| nw.loaded().dom().contains(id) <==> old(self).loaded().insert(
                            d.id@,
                            d,
                        ).dom().contains(id) by {
                            assert(ia.contains(id) == nw.loaded().dom().contains(id));
                            assert(ib.contains(id) == old(self).loaded().dom().contains(id));
                        }
                    }
                    assert(DagWatcher { dags: dags }.loaded() =~= old(self).loaded().insert(d.id@, d)) by {
                        assert forall|id: Seq<char>| #[trigger] ia.contains(id) implies (DagWatcher { dags: dags }).loaded()[id]
                            == old(self).loaded().insert(d.id@, d)[id] by {
                            let k = ia.index_of(id);
                            lemma_index_of_unique(ia, id, k);
                            if id == d.id@ {
                                lemma_index_of_unique(ia, id, i as int);
                            } else {
                                lemma_index_of_unique(ib, id, k);
                            }
                        }
                    }
                }
            },
            None => {
                dags.push(dag);
                proof {
                    let after = dags@;
                    let ib = dag_ids(before);
                    let ia = dag_ids(after);
                    crate::dag::definition::lemma_map_push(before, d, |x: DagDefinition| x.id@);
                    assert(ia == ib.push(d.id@));
                    assert(ia.no_duplicates());
                    assert(all_valid(after));
                    assert forall|id: Seq<char>| #[trigger] ia.contains(id) <==> (ib.contains(id) || id == d.id@) by {
                        vstd::seq_lib::lemma_seq_contains_after_push(ib, d.id@, id);
                    }
                    let nw = DagWatcher { dags: dags };
                    assert(nw.loaded().dom() =~= old(self).loaded().insert(d.id@, d).dom()) by {
                        assert forall|id: Seq<char>| nw.loaded().dom().contains(id) <==> old(self).loaded().insert(
                            d.id@,
                            d,
                        ).dom().contains(id) by {
                            assert(ia.contains(id) == nw.loaded().dom().contains(id));
                            assert(ib.contains(id) == old(self).loaded().dom().contains(id));
                        }
                    }
                    assert(DagWatcher { dags: dags }.loaded() =~= old(self).loaded().insert(d.id@, d)) by {
                        assert forall|id: Seq<char>| #[trigger] ia.contains(id) implies (DagWatcher { dags: dags }).loaded()[id]
                            == old(self).loaded().insert(d.id@, d)[id] by {
                            let k = ia.index_of(id);
                            lemma_index_of_unique(ia, id, k);
                            if id == d.id@ {
                                lemma_index_of_unique(ia, id, before.len() as int);
                            } else {
                                lemma_index_of_unique(ib, id, k);
                            }
                        }
                    }
                }
            },
        }
        self.dags = dags;
    }

    /// Validates `dag` and loads it when it passes; a rejected DAG leaves
    /// the loaded DAGs unchanged.
    pub fn load_dag(&mut self, dag: DagDefinition) -> (r: Result<(), ValidationError>)
        ensures
            r is Ok <==> validation_accepts(dag),
            r is Ok ==> final(self).loaded() == old(self).loaded().insert(dag.id@, dag),
            r is Err ==> final(self).loaded() == old(self).loaded(),
    {
        match DagValidator::validate(&dag) {
            Ok(()) => {
                self.insert_dag(dag);
                Ok(())
            },
            Err(e) => Err(e),
        }
    }
}

/// In a duplicate-free sequence, the position of an element is unique.
proof fn lemma_index_of_unique(s: Seq<Seq<char>>, x: Seq<char>, i: int)
    requires
        s.no_duplicates(),
        0 <= i < s.len(),
        s[i] == x,
    ensures
        s.index_of(x) == i,
{
    let k = s.index_of(x);
    assert(0 <= k < s.len() && s[k] == x);
}

/// A DAG read back by its id after loading is the DAG loaded.
pub proof fn lemma_get_after_insert(
    before: Map<Seq<char>, DagDefinition>,
    dag: DagDefinition,
    id: Seq<char>,
)
    ensures
        before.insert(dag.id@, dag).contains_key(dag.id@),
        before.insert(dag.id@, dag)[dag.id@] == dag,
        id != dag.id@ ==> (before.insert(dag.id@, dag).contains_key(id) == before.contains_key(id)),
        id != dag.id@ && before.contains_key(id) ==> before.insert(dag.id@, dag)[id] == before[id],
{
}

} // verus!
