use core::marker::PhantomData;
use vstd::prelude::*;
use crate::collections::index_map::IndexMap;
use crate::collections::index_set::{IndexSet, lemma_swap_remove_distinct, seq_swap_remove};
use crate::nodes::request::request::Request;

verus! {

pub type RequestIdentifier = usize;

/// Where a request stands in the queue.
#[derive(PartialEq, Eq, Structural, Clone, Copy)]
pub enum RequestSituation {
    Question,
    Processing,
    Answer,
}

fn same_situation(a: Option<RequestSituation>, b: Option<RequestSituation>) -> (r: bool)
    ensures
        r == (a == b),
{
    match (a, b) {
        (None, None) => true,
        (Some(x), Some(y)) => x == y,
        _ => false,
    }
}

/// `s` without `x` (by swap-remove), or `s` when `x` is not there.
pub open spec fn seq_remove_value(s: Seq<usize>, x: usize) -> Seq<usize> {
    if s.contains(x) {
        seq_swap_remove(s, s.index_of(x))
    } else {
        s
    }
}

#[derive(Debug)]
pub enum SituationChangeError {
    OldSituationIncorrect,
    AlreadyWasNewSituation,
}

/// The identifiers of the requests in each situation.
pub struct IdSituationKeeper<const SIZE: usize> {
    question_ids: IndexSet<SIZE>,
    processing_ids: IndexSet<SIZE>,
    answer_ids: IndexSet<SIZE>,
}

impl<const SIZE: usize> IdSituationKeeper<SIZE> {
    pub closed spec fn set_of(&self, s: RequestSituation) -> Seq<usize> {
        match s {
            RequestSituation::Question => self.question_ids@,
            RequestSituation::Processing => self.processing_ids@,
            RequestSituation::Answer => self.answer_ids@,
        }
    }

    pub closed spec fn situation(&self, id: usize) -> Option<RequestSituation> {
        if self.question_ids@.contains(id) {
            Some(RequestSituation::Question)
        } else if self.processing_ids@.contains(id) {
            Some(RequestSituation::Processing)
        } else if self.answer_ids@.contains(id) {
            Some(RequestSituation::Answer)
        } else {
            None
        }
    }

    /// How many identifiers the keeper holds.
    pub closed spec fn count(&self) -> nat {
        self.question_ids@.len() + self.processing_ids@.len() + self.answer_ids@.len()
    }

    /// Each set is well formed and no identifier is in two situations.
    pub closed spec fn wf(&self) -> bool {
        &&& self.question_ids.wf()
        &&& self.processing_ids.wf()
        &&& self.answer_ids.wf()
        &&& forall|x: usize| !(self.question_ids@.contains(x) && self.processing_ids@.contains(x))
        &&& forall|x: usize| !(self.question_ids@.contains(x) && self.answer_ids@.contains(x))
        &&& forall|x: usize| !(self.processing_ids@.contains(x) && self.answer_ids@.contains(x))
    }

    pub closed spec fn with_set(&self, s: RequestSituation, set: IndexSet<SIZE>) -> Self {
        match s {
            RequestSituation::Question => IdSituationKeeper {
                question_ids: set,
                processing_ids: self.processing_ids,
                answer_ids: self.answer_ids,
            },
            RequestSituation::Processing => IdSituationKeeper {
                question_ids: self.question_ids,
                processing_ids: set,
                answer_ids: self.answer_ids,
            },
            RequestSituation::Answer => IdSituationKeeper {
                question_ids: self.question_ids,
                processing_ids: self.processing_ids,
                answer_ids: set,
            },
        }
    }

    pub closed spec fn set_struct(&self, s: RequestSituation) -> IndexSet<SIZE> {
        match s {
            RequestSituation::Question => self.question_ids,
            RequestSituation::Processing => self.processing_ids,
            RequestSituation::Answer => self.answer_ids,
        }
    }

    fn new() -> (k: Self)
        ensures
            k.wf(),
            k.count() == 0,
            forall|id: usize| k.situation(id) is None,
    {
        IdSituationKeeper {
            question_ids: IndexSet::new(),
            processing_ids: IndexSet::new(),
            answer_ids: IndexSet::new(),
        }
    }

    fn get_set_mut(&mut self, situation: &RequestSituation) -> (r: &mut IndexSet<SIZE>)
        ensures
            *r == old(self).set_struct(*situation),
            *final(self) == old(self).with_set(*situation, *final(r)),
    {
        match situation {
            RequestSituation::Question => &mut self.question_ids,
            RequestSituation::Processing => &mut self.processing_ids,
            RequestSituation::Answer => &mut self.answer_ids,
        }
    }

    /// The situation of `req_id`, if it is in the keeper.
    fn get_situation(&self, req_id: RequestIdentifier) -> (r: Option<RequestSituation>)
        ensures
            r == self.situation(req_id),
    {
        if self.question_ids.contains(req_id) {
            Some(RequestSituation::Question)
        } else if self.processing_ids.contains(req_id) {
            Some(RequestSituation::Processing)
        } else if self.answer_ids.contains(req_id) {
            Some(RequestSituation::Answer)
        } else {
            None
        }
    }
    /// The set of `s` after `set_situation` moved `id` from `old_s` to `new_s`
    /// (when it was in `old_s`).
    pub closed spec fn moved_set(
        &self,
        id: usize,
        old_s: Option<RequestSituation>,
        new_s: Option<RequestSituation>,
        s: RequestSituation,
    ) -> Seq<usize> {
        let removed = if old_s == Some(s) {
            seq_remove_value(self.set_of(s), id)
        } else {
            self.set_of(s)
        };
        if new_s == Some(s) && !self.set_of(s).contains(id) {
            removed.push(id)
        } else {
            removed
        }
    }

    /// Both keepers hold the same identifiers in the same order in each situation.
    pub closed spec fn same_sets(&self, other: Self) -> bool {
        forall|s: RequestSituation| #![trigger self.set_of(s)] self.set_of(s) == other.set_of(s)
    }

    /// `old_s` names a situation that `id` is not in.
    pub closed spec fn old_missing(&self, id: usize, old_s: Option<RequestSituation>) -> bool {
        old_s matches Some(o) && !self.set_of(o).contains(id)
    }

    /// `new_s` names a situation that `id` is already in.
    pub closed spec fn new_present(&self, id: usize, new_s: Option<RequestSituation>) -> bool {
        new_s matches Some(n) && self.set_of(n).contains(id)
    }

    /// Moves `req_id` from `old_situation` to `new_situation` (`None`: in no situation).
    fn set_situation(
        &mut self,
        req_id: RequestIdentifier,
        old_situation: Option<RequestSituation>,
        new_situation: Option<RequestSituation>,
    ) -> (r: Result<(), SituationChangeError>)
        requires
            old(self).wf(),
            old_situation != new_situation && !old(self).old_missing(req_id, old_situation)
                && !old(self).new_present(req_id, new_situation) && new_situation is Some
                ==> old(self).set_of(new_situation->0).len() < SIZE,
        ensures
            old_situation is None && old(self).situation(req_id) is None ==> final(self).wf(),
            old_situation is Some ==> final(self).wf(),
            old_situation == new_situation ==> r is Ok && final(self).same_sets(*old(self)),
            old_situation != new_situation && old(self).old_missing(req_id, old_situation) ==> r
                == Err::<(), SituationChangeError>(SituationChangeError::OldSituationIncorrect)
                && final(self).same_sets(*old(self)),
            old_situation != new_situation && !old(self).old_missing(req_id, old_situation) ==> {
                &&& r == if old(self).new_present(req_id, new_situation) {
                    Err::<(), SituationChangeError>(SituationChangeError::AlreadyWasNewSituation)
                } else {
                    Ok(())
                }
                &&& forall|s: RequestSituation|
                    #![trigger final(self).set_of(s)]
                    final(self).set_of(s) == old(self).moved_set(req_id, old_situation, new_situation, s)
            },
    {
        let ghost k0 = *self;
        if !same_situation(new_situation, old_situation) {
            if let Some(old_s) = old_situation {
                let has_removed = self.get_set_mut(&old_s).remove(req_id);
                if !has_removed {
                    return Err(SituationChangeError::OldSituationIncorrect);
                }
            }
            let ghost k1 = *self;
            if let Some(new_s) = new_situation {
                let inserted = self.get_set_mut(&new_s).insert(req_id);
                match inserted {
                    Ok(has_inserted) => {
                        if !has_inserted {
                            proof {
                                lemma_moved_sets(k0, k1, *self, req_id, old_situation, new_situation);
                                if old_situation is Some || k0.situation(req_id) is None {
                                    lemma_moved_wf(k0, *self, req_id, old_situation, new_situation);
                                }
                            }
                            return Err(SituationChangeError::AlreadyWasNewSituation);
                        }
                    },
                    Err(_) => {
                        assert(false);
                    },
                }
            }
            proof {
                lemma_moved_sets(k0, k1, *self, req_id, old_situation, new_situation);
                if old_situation is Some || k0.situation(req_id) is None {
                    lemma_moved_wf(k0, *self, req_id, old_situation, new_situation);
                }
            }
        }
        Ok(())
    }

    /// Moves `req_id` from `old_situation` to `new_situation` without reporting
    /// whether it was where it was said to be.
    fn set_situation_unchecked(
        &mut self,
        req_id: RequestIdentifier,
        old_situation: Option<RequestSituation>,
        new_situation: Option<RequestSituation>,
    )
        requires
            old(self).wf(),
            old_situation != new_situation && !old(self).new_present(req_id, new_situation)
                && new_situation is Some ==> old(self).set_of(new_situation->0).len() < SIZE,
        ensures
            old_situation == new_situation ==> final(self).same_sets(*old(self)),
            old_situation != new_situation ==> forall|s: RequestSituation|
                #![trigger final(self).set_of(s)]
                final(self).set_of(s) == old(self).moved_set(req_id, old_situation, new_situation, s),
    {
        let ghost k0 = *self;
        if !same_situation(new_situation, old_situation) {
            if let Some(old_s) = old_situation {
                self.get_set_mut(&old_s).remove(req_id);
            }
            let ghost k1 = *self;
            if let Some(new_s) = new_situation {
                let inserted = self.get_set_mut(&new_s).insert(req_id);
                if inserted.is_err() {
                    assert(false);
                }
            }
            proof {
                assert forall|s: RequestSituation|
                    #![trigger self.set_of(s)]
                    self.set_of(s) == k0.moved_set(req_id, old_situation, new_situation, s) by {
                    if old_situation == Some(s) {
                        assert(k1.set_of(s) == seq_remove_value(k0.set_of(s), req_id));
                    } else {
                        assert(k1.set_of(s) == k0.set_of(s));
                    }
                }
            }
        }
    }
}

/// Each situation's set is the field that holds it.
proof fn lemma_set_of_fields<const SIZE: usize>(k: IdSituationKeeper<SIZE>)
    ensures
        k.set_of(RequestSituation::Question) == k.question_ids@,
        k.set_of(RequestSituation::Processing) == k.processing_ids@,
        k.set_of(RequestSituation::Answer) == k.answer_ids@,
{
}

/// Moving an identifier that was where it was said to be keeps the keeper well formed.
proof fn lemma_moved_wf<const SIZE: usize>(
    k0: IdSituationKeeper<SIZE>,
    k2: IdSituationKeeper<SIZE>,
    id: usize,
    old_s: Option<RequestSituation>,
    new_s: Option<RequestSituation>,
)
    requires
        k0.wf(),
        old_s != new_s,
        !k0.old_missing(id, old_s),
        old_s is None ==> k0.situation(id) is None,
        !k0.new_present(id, new_s) && new_s is Some ==> k0.set_of(new_s->0).len() < SIZE,
        forall|s: RequestSituation|
            #![trigger k2.set_of(s)]
            k2.set_of(s) == k0.moved_set(id, old_s, new_s, s),
    ensures
        k2.wf(),
        forall|x: usize, s: RequestSituation|
            #![trigger k2.set_of(s).contains(x)]
            k2.set_of(s).contains(x) <==> ((k0.set_of(s).contains(x) && !(old_s == Some(s) && x == id))
                || (new_s == Some(s) && x == id)),
{
    assert forall|s: RequestSituation|
        #![trigger k2.set_of(s)]
        k2.set_of(s).no_duplicates() && k2.set_of(s).len() <= SIZE && (forall|x: usize|
            #![trigger k2.set_of(s).contains(x)]
            k2.set_of(s).contains(x) <==> ((k0.set_of(s).contains(x) && !(old_s == Some(s) && x
                == id)) || (new_s == Some(s) && x == id))) by {
        let s0 = k0.set_of(s);
        assert(s0.no_duplicates() && s0.len() <= SIZE) by {
            match s {
                RequestSituation::Question => {},
                RequestSituation::Processing => {},
                RequestSituation::Answer => {},
            }
        }
        let removed = if old_s == Some(s) {
            seq_remove_value(s0, id)
        } else {
            s0
        };
        if old_s == Some(s) {
            let i = s0.index_of(id);
            assert(s0.contains(id));
            assert(0 <= i < s0.len() && s0[i] == id);
            lemma_swap_remove_distinct(s0, i);
        }
        assert(removed.no_duplicates());
        assert(forall|x: usize| removed.contains(x) <==> (s0.contains(x) && !(old_s == Some(s) && x == id)));
        if new_s == Some(s) && !s0.contains(id) {
            let pushed = removed.push(id);
            assert forall|a: int, b: int| 0 <= a < b < pushed.len() implies pushed[a] != pushed[b] by {
                if b == pushed.len() - 1 {
                    assert(removed.contains(removed[a]));
                }
            }
            assert forall|x: usize| pushed.contains(x) <==> (removed.contains(x) || x == id) by {
                if pushed.contains(x) && x != id {
                    let j = choose|j: int| 0 <= j < pushed.len() && pushed[j] == x;
                    assert(removed[j] == x);
                }
                if removed.contains(x) {
                    let j = choose|j: int| 0 <= j < removed.len() && removed[j] == x;
                    assert(pushed[j] == x);
                }
                if x == id {
                    assert(pushed[removed.len() as int] == id);
                }
            }
        }
    }
    lemma_set_of_fields(k0);
    lemma_set_of_fields(k2);
    assert forall|x: usize|
        !(k2.question_ids@.contains(x) && k2.processing_ids@.contains(x)) && !(k2.question_ids@.contains(x)
            && k2.answer_ids@.contains(x)) && !(k2.processing_ids@.contains(x) && k2.answer_ids@.contains(x)) by {
        assert(k2.set_of(RequestSituation::Question).contains(x) == k2.question_ids@.contains(x));
        assert(k2.set_of(RequestSituation::Processing).contains(x) == k2.processing_ids@.contains(x));
        assert(k2.set_of(RequestSituation::Answer).contains(x) == k2.answer_ids@.contains(x));
    }
}

/// Moving `id` out of situation `o`, where it is, into `new_s` changes only its own
/// situation, and the count by one when it leaves the keeper.
proof fn lemma_moved_situation<const SIZE: usize>(
    k0: IdSituationKeeper<SIZE>,
    k2: IdSituationKeeper<SIZE>,
    id: usize,
    o: RequestSituation,
    new_s: Option<RequestSituation>,
)
    requires
        k0.wf(),
        k0.situation(id) == Some(o),
        Some(o) != new_s,
        !k0.new_present(id, new_s) && new_s is Some ==> k0.set_of(new_s->0).len() < SIZE,
        forall|s: RequestSituation|
            #![trigger k2.set_of(s)]
            k2.set_of(s) == k0.moved_set(id, Some(o), new_s, s),
    ensures
        k2.wf(),
        forall|x: usize| #![trigger k2.situation(x)] k2.situation(x) == if x == id {
            new_s
        } else {
            k0.situation(x)
        },
        k2.count() + (if new_s is None { 1int } else { 0int }) == k0.count(),
{
    let qs = RequestSituation::Question;
    let ps = RequestSituation::Processing;
    let as_ = RequestSituation::Answer;
    lemma_set_of_fields(k0);
    lemma_set_of_fields(k2);
    assert(k0.set_of(o).contains(id));
    assert(!k0.old_missing(id, Some(o)));
    lemma_moved_wf(k0, k2, id, Some(o), new_s);
    let so = k0.set_of(o);
    let i = so.index_of(id);
    assert(0 <= i < so.len() && so[i] == id);
    lemma_swap_remove_distinct(so, i);
    assert(k2.set_of(o).len() == so.len() - 1);
    if let Some(n) = new_s {
        assert(!k0.set_of(n).contains(id));
        assert(k2.set_of(n).len() == k0.set_of(n).len() + 1);
    }
    assert forall|x: usize| #![trigger k2.situation(x)] k2.situation(x) == if x == id {
        new_s
    } else {
        k0.situation(x)
    } by {
        assert(k2.set_of(qs).contains(x) == k2.question_ids@.contains(x));
        assert(k2.set_of(ps).contains(x) == k2.processing_ids@.contains(x));
        assert(k2.set_of(as_).contains(x) == k2.answer_ids@.contains(x));
    }
}

/// The sets after the removal (`k1`) and after the insertion (`k2`) are the moved sets.
proof fn lemma_moved_sets<const SIZE: usize>(
    k0: IdSituationKeeper<SIZE>,
    k1: IdSituationKeeper<SIZE>,
    k2: IdSituationKeeper<SIZE>,
    id: usize,
    old_s: Option<RequestSituation>,
    new_s: Option<RequestSituation>,
)
    requires
        k0.wf(),
        old_s != new_s,
        !k0.old_missing(id, old_s),
        forall|s: RequestSituation|
            #![trigger k1.set_of(s)]
            k1.set_of(s) == if old_s == Some(s) {
                seq_remove_value(k0.set_of(s), id)
            } else {
                k0.set_of(s)
            },
        forall|s: RequestSituation|
            #![trigger k2.set_of(s)]
            k2.set_of(s) == if new_s == Some(s) && !k1.set_of(s).contains(id) {
                k1.set_of(s).push(id)
            } else {
                k1.set_of(s)
            },
    ensures
        forall|s: RequestSituation|
            #![trigger k2.set_of(s)]
            k2.set_of(s) == k0.moved_set(id, old_s, new_s, s),
{
    assert forall|s: RequestSituation| #![trigger k2.set_of(s)] k2.set_of(s) == k0.moved_set(id, old_s, new_s, s) by {
        if new_s == Some(s) {
            assert(k1.set_of(s) == k0.set_of(s));
        }
    }
}

/// Which slot of the queue holds each live request, and which slots are free.
pub struct LocationInfoKeeper<const SIZE: usize> {
    id_to_location: IndexMap<SIZE>,
    open_locations: IndexSet<SIZE>,
}

impl<const SIZE: usize> LocationInfoKeeper<SIZE> {
    pub closed spec fn wf(&self) -> bool {
        &&& self.id_to_location.wf()
        &&& self.open_locations.wf()
    }

    pub closed spec fn locations(&self) -> Map<usize, usize> {
        self.id_to_location.to_map()
    }

    pub closed spec fn open(&self) -> Seq<usize> {
        self.open_locations@
    }

    pub closed spec fn used(&self) -> nat {
        self.id_to_location@.len()
    }

    /// Hands the first free slot to `req_id`, if there is one.
    fn get_open_loc(&mut self, req_id: RequestIdentifier) -> (r: Option<usize>)
        requires
            old(self).wf(),
            old(self).open().len() > 0 && !old(self).locations().contains_key(req_id) ==> old(
                self,
            ).used() < SIZE,
        ensures
            final(self).wf(),
            old(self).open().len() == 0 ==> r is None && final(self).locations() == old(
                self,
            ).locations() && final(self).open() == old(self).open() && final(self).used() == old(
                self,
            ).used(),
            old(self).open().len() > 0 ==> {
                &&& r == Some(old(self).open()[0])
                &&& final(self).locations() == old(self).locations().insert(req_id, old(self).open()[0])
                &&& final(self).open() == seq_swap_remove(old(self).open(), 0)
                &&& !old(self).locations().contains_key(req_id) ==> final(self).used() == old(self).used() + 1
            },
    {
        let loc = match self.open_locations.first() {
            Some(loc) => loc,
            None => {
                return None;
            },
        };
        let inserted = self.id_to_location.insert(req_id, loc);
        if inserted.is_err() {
            assert(false);
        }
        proof {
            crate::collections::index_map::lemma_index_of_unique(self.open_locations@, 0);
        }
        self.open_locations.remove(loc);
        Some(loc)
    }

    /// Frees the slot of `req_id`; reports whether it had one.
    fn clear_loc(&mut self, req_id: RequestIdentifier) -> (b: bool)
        requires
            old(self).wf(),
            old(self).locations().contains_key(req_id) && !old(self).open().contains(
                old(self).locations()[req_id],
            ) ==> old(self).open().len() < SIZE,
        ensures
            final(self).wf(),
            b == old(self).locations().contains_key(req_id),
            !b ==> final(self).locations() == old(self).locations() && final(self).open() == old(
                self,
            ).open() && final(self).used() == old(self).used(),
            b ==> {
                &&& final(self).locations() == old(self).locations().remove(req_id)
                &&& final(self).used() == old(self).used() - 1
                &&& final(self).open() == if old(self).open().contains(old(self).locations()[req_id]) {
                    old(self).open()
                } else {
                    old(self).open().push(old(self).locations()[req_id])
                }
            },
    {
        match self.id_to_location.remove(req_id) {
            Some(loc) => {
                let inserted = self.open_locations.insert(loc);
                if inserted.is_err() {
                    assert(false);
                }
                true
            },
            None => false,
        }
    }
}

/// The content of a slot of the queue.
pub enum RequestQueueDataCell<TQues, TAns> {
    Vacant,
    Question(TQues),
    Answer(TAns),
}

/// Where a request is and where it stands.
pub struct RequestQueueReqHeader {
    pub location: usize,
    pub situation: RequestSituation,
    pub id: RequestIdentifier,
}

/// The abstract state of a request queue: the requests by identifier, the
/// identifiers of the questions not yet taken in the order a server takes them,
/// and the last identifier handed out.
pub struct QueueModel<TQues, TAns> {
    pub requests: Map<RequestIdentifier, Request<TQues, TAns>>,
    pub questions: Seq<RequestIdentifier>,
    pub last_id: nat,
}

impl<TQues, TAns> QueueModel<TQues, TAns> {
    /// What every reachable state satisfies.
    pub open spec fn inv(self) -> bool {
        &&& self.requests.dom().finite()
        &&& self.questions.no_duplicates()
        &&& forall|id: RequestIdentifier|
            #![trigger self.questions.contains(id)]
            self.questions.contains(id) <==> (self.requests.contains_key(id)
                && self.requests[id] is Question)
        &&& forall|id: RequestIdentifier|
            #![trigger self.requests.contains_key(id)]
            self.requests.contains_key(id) ==> 1 <= id <= self.last_id && !(self.requests[id] is StandingBy)
    }
}

/// A bounded queue of requests between clients and servers, with room for
/// `QUEUE_SIZE` requests at a time.
pub struct RequestQueue<TQues, TAns, const QUEUE_SIZE: usize> {
    last_identifier: RequestIdentifier,
    id_situations_data: IdSituationKeeper<QUEUE_SIZE>,
    loc_info: LocationInfoKeeper<QUEUE_SIZE>,
    queue_data: Vec<RequestQueueDataCell<TQues, TAns>>,
}

impl<TQues, TAns, const QUEUE_SIZE: usize> View for RequestQueue<TQues, TAns, QUEUE_SIZE> {
    type V = QueueModel<TQues, TAns>;

    open spec fn view(&self) -> QueueModel<TQues, TAns> {
        QueueModel {
            requests: self.spec_requests(),
            questions: self.spec_questions(),
            last_id: self.spec_last_id(),
        }
    }
}

impl<TQues, TAns, const QUEUE_SIZE: usize> RequestQueue<TQues, TAns, QUEUE_SIZE> {
    pub closed spec fn live(&self, id: RequestIdentifier) -> bool {
        self.loc_info.locations().contains_key(id)
    }

    pub closed spec fn loc(&self, id: RequestIdentifier) -> usize {
        self.loc_info.locations()[id]
    }

    pub closed spec fn request_of(&self, id: RequestIdentifier) -> Request<TQues, TAns> {
        match self.id_situations_data.situation(id) {
            Some(RequestSituation::Question) => match self.queue_data@[self.loc(id) as int] {
                RequestQueueDataCell::Question(q) => Request::Question(q),
                _ => Request::StandingBy,
            },
            Some(RequestSituation::Processing) => Request::Processing,
            Some(RequestSituation::Answer) => match self.queue_data@[self.loc(id) as int] {
                RequestQueueDataCell::Answer(a) => Request::Answer(a),
                _ => Request::StandingBy,
            },
            None => Request::StandingBy,
        }
    }

    pub closed spec fn spec_requests(&self) -> Map<RequestIdentifier, Request<TQues, TAns>> {
        Map::new(|id: RequestIdentifier| self.live(id), |id: RequestIdentifier| self.request_of(id))
    }

    pub closed spec fn spec_questions(&self) -> Seq<RequestIdentifier> {
        self.id_situations_data.set_of(RequestSituation::Question)
    }

    pub closed spec fn spec_last_id(&self) -> nat {
        self.last_identifier as nat
    }

    /// The number of requests in the queue.
    pub closed spec fn spec_len(&self) -> nat {
        self.loc_info.used()
    }

    /// The internal invariant of the queue.
    pub closed spec fn wf(&self) -> bool {
        &&& self.id_situations_data.wf()
        &&& self.loc_info.wf()
        &&& forall|id: RequestIdentifier|
            #![trigger self.live(id)]
            self.live(id) <==> self.id_situations_data.situation(id) is Some
        &&& self.id_situations_data.count() == self.loc_info.used()
        &&& self.loc_info.used() + self.loc_info.open().len() == QUEUE_SIZE
        &&& forall|id: RequestIdentifier|
            #![trigger self.live(id)]
            self.live(id) ==> self.loc(id) < QUEUE_SIZE && !self.loc_info.open().contains(self.loc(id))
                && 1 <= id <= self.last_identifier
        &&& forall|id1: RequestIdentifier, id2: RequestIdentifier|
            #![trigger self.live(id1), self.live(id2)]
            self.live(id1) && self.live(id2) && id1 != id2 ==> self.loc(id1) != self.loc(id2)
        &&& forall|x: usize| #![trigger self.loc_info.open().contains(x)] self.loc_info.open().contains(x) ==> x < QUEUE_SIZE
        &&& self.queue_data@.len() == QUEUE_SIZE
        &&& forall|id: RequestIdentifier|
            #![trigger self.id_situations_data.situation(id)]
            self.id_situations_data.situation(id) == Some(RequestSituation::Question)
                ==> self.queue_data@[self.loc(id) as int] is Question
        &&& forall|id: RequestIdentifier|
            #![trigger self.id_situations_data.situation(id)]
            self.id_situations_data.situation(id) == Some(RequestSituation::Answer)
                ==> self.queue_data@[self.loc(id) as int] is Answer
    }
}

/// The model of a well-formed queue satisfies the model invariant, and the
/// queue holds as many requests as the model.
pub proof fn lemma_queue_model<TQues, TAns, const QUEUE_SIZE: usize>(q: RequestQueue<TQues, TAns, QUEUE_SIZE>)
    requires
        q.wf(),
    ensures
        q@.inv(),
        q@.requests.dom().len() == q.spec_len(),
        q.spec_len() <= QUEUE_SIZE,
{
    let m = q.loc_info.id_to_location;
    let ks = m.keys();
    assert(q@.requests.dom() =~= ks.to_set());
    ks.unique_seq_to_set();
    assert(m@.len() == ks.len());
    let k = q.id_situations_data;
    assert(k.set_of(RequestSituation::Question) == k.question_ids@);
    assert forall|id: RequestIdentifier|
        #![trigger q@.questions.contains(id)]
        q@.questions.contains(id) <==> (q@.requests.contains_key(id) && q@.requests[id] is Question) by {
        if q@.questions.contains(id) {
            assert(k.situation(id) == Some(RequestSituation::Question));
            assert(q.live(id));
        }
        if q@.requests.contains_key(id) && q@.requests[id] is Question {
            assert(q.live(id));
        }
    }
    assert forall|id: RequestIdentifier|
        #![trigger q@.requests.contains_key(id)]
        q@.requests.contains_key(id) implies 1 <= id <= q@.last_id && !(q@.requests[id] is StandingBy) by {
        assert(q.live(id));
        assert(k.situation(id) is Some);
    }
}

/// The queue after a client with (`has_request`) or without a pending request
/// posts `req` to a queue with room for `capacity` requests, and the identifier
/// it gets or the reason it is refused.
pub open spec fn spec_post_request<TQues, TAns>(
    m: QueueModel<TQues, TAns>,
    has_request: bool,
    capacity: nat,
    req: TQues,
) -> (QueueModel<TQues, TAns>, Result<RequestIdentifier, QueueRequestPostError>) {
    if has_request {
        (m, Err(QueueRequestPostError::AlreadyHasRequest))
    } else if m.requests.dom().len() >= capacity {
        (m, Err(QueueRequestPostError::QueueFull))
    } else {
        let id = (m.last_id + 1) as RequestIdentifier;
        (
            QueueModel {
                requests: m.requests.insert(id, Request::Question(req)),
                questions: m.questions.push(id),
                last_id: m.last_id + 1,
            },
            Ok(id),
        )
    }
}

/// The queue after a client whose pending request is `current` tries to take
/// its answer, and what it gets.
pub open spec fn spec_take_answer<TQues, TAns>(
    m: QueueModel<TQues, TAns>,
    current: Option<RequestIdentifier>,
) -> (QueueModel<TQues, TAns>, Result<Option<TAns>, QueueRequestQueryError>) {
    match current {
        None => (m, Err(QueueRequestQueryError::NoRequest)),
        Some(id) => if !m.requests.contains_key(id) {
            (m, Err(QueueRequestQueryError::RequestNotFound))
        } else {
            match m.requests[id] {
                Request::Answer(a) => (
                    QueueModel { requests: m.requests.remove(id), questions: m.questions, last_id: m.last_id },
                    Ok(Some(a)),
                ),
                _ => (m, Ok(None)),
            }
        },
    }
}

/// Whether request `id` has its answer.
pub open spec fn spec_is_ready<TQues, TAns>(m: QueueModel<TQues, TAns>, id: RequestIdentifier) -> Result<
    bool,
    QueueRequestQueryError,
> {
    if m.requests.contains_key(id) {
        Ok(m.requests[id] is Answer)
    } else {
        Err(QueueRequestQueryError::RequestNotFound)
    }
}

/// The queue after a free server takes the first question, and the question it
/// takes with its identifier.
pub open spec fn spec_get_question<TQues, TAns>(m: QueueModel<TQues, TAns>) -> (
    QueueModel<TQues, TAns>,
    Option<(RequestIdentifier, TQues)>,
) {
    if m.questions.len() == 0 {
        (m, None)
    } else {
        let id = m.questions[0];
        match m.requests[id] {
            Request::Question(q) => (
                QueueModel {
                    requests: m.requests.insert(id, Request::Processing),
                    questions: seq_swap_remove(m.questions, 0),
                    last_id: m.last_id,
                },
                Some((id, q)),
            ),
            _ => (m, None),
        }
    }
}

/// The queue after a server working on `current` puts answer `ans`, and the
/// reason it is refused, if it is.
pub open spec fn spec_put_answer<TQues, TAns>(
    m: QueueModel<TQues, TAns>,
    current: Option<RequestIdentifier>,
    ans: TAns,
) -> (QueueModel<TQues, TAns>, Result<(), PutAnswerError>) {
    match current {
        None => (m, Err(PutAnswerError::NoRequestId)),
        Some(id) => if m.requests.contains_key(id) && m.requests[id] is Processing {
            (
                QueueModel {
                    requests: m.requests.insert(id, Request::Answer(ans)),
                    questions: m.questions,
                    last_id: m.last_id,
                },
                Ok(()),
            )
        } else {
            (m, Err(PutAnswerError::WeirdRequestId))
        },
    }
}

#[derive(Clone, Copy, PartialEq, Eq, Debug)]
pub enum QueueRequestQueryError {
    RequestNotFound,
    NoRequest,
}

#[derive(Clone, Copy, PartialEq, Eq, Debug)]
pub enum QueueRequestPostError {
    AlreadyHasRequest,
    QueueFull,
}

#[derive(Debug)]
pub enum GetQuestionError {
    AlreadyHasQuestion,
}

#[derive(Debug)]
pub enum PutAnswerError {
    NoRequestId,
    WeirdRequestId,
}

impl<TQues, TAns, const QUEUE_SIZE: usize> RequestQueue<TQues, TAns, QUEUE_SIZE> {
    /// An empty queue with all `QUEUE_SIZE` slots free.
    pub fn new() -> (q: Self)
        ensures
            q.wf(),
            q@.requests == Map::<RequestIdentifier, Request<TQues, TAns>>::empty(),
            q@.questions == Seq::<RequestIdentifier>::empty(),
            q@.last_id == 0,
    {
        let mut open_locations = IndexSet::<QUEUE_SIZE>::new();
        let mut queue_data: Vec<RequestQueueDataCell<TQues, TAns>> = Vec::new();
        let mut i: usize = 0;
        while i < QUEUE_SIZE
            invariant
                i <= QUEUE_SIZE,
                open_locations.wf(),
                open_locations@ == Seq::new(i as nat, |j: int| j as usize),
                queue_data@.len() == i,
            decreases QUEUE_SIZE - i,
        {
            let ghost before = open_locations@;
            let inserted = open_locations.insert(i);
            proof {
                if before.contains(i) {
                    let j = choose|j: int| 0 <= j < before.len() && before[j] == i;
                    assert(before[j] == j as usize);
                }
            }
            assert(open_locations@ =~= Seq::new((i + 1) as nat, |j: int| j as usize));
            queue_data.push(RequestQueueDataCell::Vacant);
            i = i + 1;
        }
        let q = RequestQueue {
            last_identifier: 0,
            id_situations_data: IdSituationKeeper::new(),
            loc_info: LocationInfoKeeper { id_to_location: IndexMap::new(), open_locations },
            queue_data,
        };
        proof {
            assert forall|x: usize| #![trigger q.loc_info.open().contains(x)] q.loc_info.open().contains(x) implies x < QUEUE_SIZE by {
                let j = choose|j: int| 0 <= j < q.loc_info.open().len() && q.loc_info.open()[j] == x;
            }
            assert(q@.requests =~= Map::<RequestIdentifier, Request<TQues, TAns>>::empty());
            assert(q@.questions =~= Seq::<RequestIdentifier>::empty());
        }
        q
    }

    /// The slot and situation of request `req_id`, if it is in the queue.
    fn get_req_header(&self, req_id: RequestIdentifier) -> (r: Option<RequestQueueReqHeader>)
        requires
            self.wf(),
        ensures
            r is None <==> !self.live(req_id),
            r matches Some(h) ==> h.location == self.loc(req_id) && Some(h.situation)
                == self.id_situations_data.situation(req_id) && h.id == req_id,
    {
        let situation = match self.id_situations_data.get_situation(req_id) {
            Some(s) => s,
            None => {
                assert(!self.live(req_id));
                return None;
            },
        };
        assert(self.live(req_id));
        let location = self.loc_info.id_to_location.get(req_id).unwrap();
        Some(RequestQueueReqHeader { location, situation, id: req_id })
    }

    /// A view of request `req_id`, if it is in the queue.
    fn get_req(&self, req_id: RequestIdentifier) -> (r: Option<Request<&TQues, &TAns>>)
        requires
            self.wf(),
        ensures
            !self@.requests.contains_key(req_id) ==> r is None,
            self@.requests.contains_key(req_id) ==> (r matches Some(x) && match self@.requests[req_id] {
                Request::Question(q) => x == Request::<&TQues, &TAns>::Question(&q),
                Request::Processing => x is Processing,
                Request::Answer(a) => x == Request::<&TQues, &TAns>::Answer(&a),
                Request::StandingBy => false,
            }),
    {
        let header = match self.get_req_header(req_id) {
            Some(h) => h,
            None => {
                return None;
            },
        };
        proof {
            lemma_queue_model(*self);
        }
        let data_cell = &self.queue_data[header.location];
        match header.situation {
            RequestSituation::Question => match data_cell {
                RequestQueueDataCell::Question(q) => Some(Request::Question(q)),
                _ => {
                    assert(false);
                    None
                },
            },
            RequestSituation::Processing => Some(Request::Processing),
            RequestSituation::Answer => match data_cell {
                RequestQueueDataCell::Answer(a) => Some(Request::Answer(a)),
                _ => {
                    assert(false);
                    None
                },
            },
        }
    }

    /// A client endpoint with no request.
    pub fn make_client_endpoint(&self) -> (e: RequestQueueClientEndpoint<TQues, TAns>)
        ensures
            e@ is None,
    {
        RequestQueueClientEndpoint::new()
    }
}

/// A client of a request queue, with at most one request at a time.
pub struct RequestQueueClientEndpoint<TQues, TAns> {
    current_req_id: Option<RequestIdentifier>,
    io_phantom: PhantomData<(TQues, TAns)>,
}

impl<TQues, TAns> View for RequestQueueClientEndpoint<TQues, TAns> {
    type V = Option<RequestIdentifier>;

    /// The identifier of the client's pending request.
    open spec fn view(&self) -> Option<RequestIdentifier> {
        self.spec_current()
    }
}

impl<TQues, TAns> RequestQueueClientEndpoint<TQues, TAns> {
    pub closed spec fn spec_current(&self) -> Option<RequestIdentifier> {
        self.current_req_id
    }

    pub fn new() -> (e: Self)
        ensures
            e@ is None,
    {
        RequestQueueClientEndpoint { current_req_id: None, io_phantom: PhantomData }
    }

    pub fn has_request(&self) -> (b: bool)
        ensures
            b == self@ is Some,
    {
        self.current_req_id.is_some()
    }

    pub fn current_request_id(&self) -> (r: &Option<RequestIdentifier>)
        ensures
            *r == self@,
    {
        &self.current_req_id
    }

    pub fn current_request_id_mut(&mut self) -> (r: &mut Option<RequestIdentifier>)
        ensures
            *r == old(self)@,
            final(self)@ == *final(r),
    {
        &mut self.current_req_id
    }
}

impl<TQues, TAns> RequestQueueClientEndpoint<TQues, TAns> {
    /// Posts `req` to `queue` as this client's request. Refused, and `req` handed
    /// back, when the client already has a request or the queue is full.
    pub fn try_post_request<const QUEUE_SIZE: usize>(
        &mut self,
        queue: &mut RequestQueue<TQues, TAns, QUEUE_SIZE>,
        req: TQues,
    ) -> (r: Result<(), (QueueRequestPostError, TQues)>)
        requires
            old(queue).wf(),
            old(queue)@.last_id < usize::MAX,
        ensures
            final(queue).wf(),
            ({
                let (m, res) = spec_post_request(old(queue)@, old(self)@ is Some, QUEUE_SIZE as nat, req);
                &&& final(queue)@ == m
                &&& match res {
                    Ok(id) => r is Ok && final(self)@ == Some(id),
                    Err(e) => r == Err::<(), (QueueRequestPostError, TQues)>((e, req)) && final(self)@ == old(self)@,
                }
            }),
    {
        proof {
            lemma_queue_model(*queue);
        }
        if self.has_request() {
            return Err((QueueRequestPostError::AlreadyHasRequest, req));
        }
        let new_req_id = queue.last_identifier + 1;
        let ghost q0 = *queue;
        proof {
            if q0.live(new_req_id) {
                assert(new_req_id <= q0.last_identifier);
            }
            if q0.loc_info.open().len() > 0 {
                assert(q0.loc_info.used() < QUEUE_SIZE);
            }
        }
        let location = match queue.loc_info.get_open_loc(new_req_id) {
            Some(loc) => loc,
            None => {
                proof {
                    lemma_same_views(q0, *queue);
                }
                return Err((QueueRequestPostError::QueueFull, req));
            },
        };
        proof {
            assert(q0.loc_info.open().contains(location));
            crate::collections::index_map::lemma_index_of_unique(q0.loc_info.open(), 0);
            lemma_swap_remove_distinct(q0.loc_info.open(), 0);
        }
        queue.queue_data.set(location, RequestQueueDataCell::Question(req));
        let ghost q1 = *queue;
        proof {
            let k = q0.id_situations_data;
            assert(k.situation(new_req_id) is None);
            assert(k.set_of(RequestSituation::Question).len() <= k.count());
        }
        let _ = queue.id_situations_data.set_situation(new_req_id, None, Some(RequestSituation::Question));
        queue.last_identifier = new_req_id;
        self.current_req_id = Some(new_req_id);
        proof {
            lemma_post_request_wf(q0, *queue, new_req_id, location, req);
        }
        Ok(())
    }
}

/// Two queues whose parts have the same views have the same model and invariant.
proof fn lemma_same_views<TQues, TAns, const QUEUE_SIZE: usize>(
    q0: RequestQueue<TQues, TAns, QUEUE_SIZE>,
    q1: RequestQueue<TQues, TAns, QUEUE_SIZE>,
)
    requires
        q0.wf(),
        q1.last_identifier == q0.last_identifier,
        q1.id_situations_data.same_sets(q0.id_situations_data),
        q1.loc_info.locations() == q0.loc_info.locations(),
        q1.loc_info.open() == q0.loc_info.open(),
        q1.loc_info.used() == q0.loc_info.used(),
        q1.loc_info.wf(),
        q1.queue_data@ == q0.queue_data@,
    ensures
        q1.wf(),
        q1@ == q0@,
{
    let k0 = q0.id_situations_data;
    let k1 = q1.id_situations_data;
    assert(k1.set_of(RequestSituation::Question) == k0.set_of(RequestSituation::Question));
    assert(k1.set_of(RequestSituation::Processing) == k0.set_of(RequestSituation::Processing));
    assert(k1.set_of(RequestSituation::Answer) == k0.set_of(RequestSituation::Answer));
    assert(k1.question_ids@ == k0.question_ids@);
    assert(k1.processing_ids@ == k0.processing_ids@);
    assert(k1.answer_ids@ == k0.answer_ids@);
    assert(forall|x: usize| #![trigger k1.situation(x)] k1.situation(x) == k0.situation(x));
    assert(k1.wf());
    assert(k1.count() == k0.count());
    assert(forall|x: usize| #![trigger q1.live(x)] q1.live(x) == q0.live(x));
    assert(forall|x: usize| #![trigger q1.live(x)] q1.live(x) ==> q1.loc(x) == q0.loc(x));
    assert(q1.wf());
    assert(q1@.requests =~= q0@.requests) by {
        assert forall|x: usize| #![trigger q1@.requests.contains_key(x)] q1@.requests.contains_key(x) implies q1@.requests[x] == q0@.requests[x] by {
            assert(q1.request_of(x) == q0.request_of(x));
        }
    }
}

/// Rewriting the cell at `location`, which no other live request uses, changes no
/// request but `id`: every other request keeps its contents, and its cell still
/// matches its situation.
proof fn lemma_other_requests_kept<TQues, TAns, const QUEUE_SIZE: usize>(
    q0: RequestQueue<TQues, TAns, QUEUE_SIZE>,
    q2: RequestQueue<TQues, TAns, QUEUE_SIZE>,
    id: RequestIdentifier,
    location: usize,
    cell: RequestQueueDataCell<TQues, TAns>,
)
    requires
        q0.wf(),
        location < QUEUE_SIZE,
        forall|x: usize| #![trigger q0.live(x)] q0.live(x) && x != id ==> q0.loc(x) != location,
        forall|x: usize| #![trigger q2.live(x)] x != id ==> q2.live(x) == q0.live(x),
        forall|x: usize| #![trigger q2.live(x)] x != id && q2.live(x) ==> q2.loc(x) == q0.loc(x),
        forall|x: usize|
            #![trigger q2.id_situations_data.situation(x)]
            x != id ==> q2.id_situations_data.situation(x) == q0.id_situations_data.situation(x),
        q2.queue_data@ == q0.queue_data@.update(location as int, cell),
    ensures
        forall|x: usize| #![trigger q2.request_of(x)] x != id && q0.live(x) ==> q2.request_of(x) == q0.request_of(x),
        forall|x: RequestIdentifier|
            #![trigger q2.id_situations_data.situation(x)]
            x != id && q2.id_situations_data.situation(x) == Some(RequestSituation::Question)
                ==> q2.queue_data@[q2.loc(x) as int] is Question,
        forall|x: RequestIdentifier|
            #![trigger q2.id_situations_data.situation(x)]
            x != id && q2.id_situations_data.situation(x) == Some(RequestSituation::Answer)
                ==> q2.queue_data@[q2.loc(x) as int] is Answer,
{
    assert forall|x: usize| #![trigger q2.request_of(x)] x != id && q0.live(x) implies q2.request_of(x) == q0.request_of(
        x,
    ) by {
        assert(q2.live(x));
        assert(q0.id_situations_data.situation(x) == q2.id_situations_data.situation(x));
        assert(q2.queue_data@[q0.loc(x) as int] == q0.queue_data@[q0.loc(x) as int]);
    }
    assert forall|x: RequestIdentifier|
        #![trigger q2.id_situations_data.situation(x)]
        x != id && q2.id_situations_data.situation(x) == Some(RequestSituation::Question) implies q2.queue_data@[q2.loc(
        x,
    ) as int] is Question by {
        assert(q0.id_situations_data.situation(x) == Some(RequestSituation::Question));
        assert(q0.live(x));
        assert(q2.live(x));
        assert(q2.queue_data@[q0.loc(x) as int] == q0.queue_data@[q0.loc(x) as int]);
    }
    assert forall|x: RequestIdentifier|
        #![trigger q2.id_situations_data.situation(x)]
        x != id && q2.id_situations_data.situation(x) == Some(RequestSituation::Answer) implies q2.queue_data@[q2.loc(
        x,
    ) as int] is Answer by {
        assert(q0.id_situations_data.situation(x) == Some(RequestSituation::Answer));
        assert(q0.live(x));
        assert(q2.live(x));
        assert(q2.queue_data@[q0.loc(x) as int] == q0.queue_data@[q0.loc(x) as int]);
    }
}

/// A post that found a free slot keeps the queue well formed and changes its model as
/// `spec_post_request` says.
proof fn lemma_post_request_wf<TQues, TAns, const QUEUE_SIZE: usize>(
    q0: RequestQueue<TQues, TAns, QUEUE_SIZE>,
    q2: RequestQueue<TQues, TAns, QUEUE_SIZE>,
    id: RequestIdentifier,
    location: usize,
    req: TQues,
)
    requires
        q0.wf(),
        id == q0.last_identifier + 1,
        q0.loc_info.open().len() > 0,
        location == q0.loc_info.open()[0],
        q2.last_identifier == id,
        q2.loc_info.wf(),
        q2.loc_info.locations() == q0.loc_info.locations().insert(id, location),
        q2.loc_info.open() == seq_swap_remove(q0.loc_info.open(), 0),
        q2.loc_info.used() == q0.loc_info.used() + 1,
        q2.queue_data@ == q0.queue_data@.update(location as int, RequestQueueDataCell::Question(req)),
        q2.id_situations_data.wf(),
        forall|s: RequestSituation|
            #![trigger q2.id_situations_data.set_of(s)]
            q2.id_situations_data.set_of(s) == q0.id_situations_data.moved_set(
                id,
                None,
                Some(RequestSituation::Question),
                s,
            ),
    ensures
        q2.wf(),
        q2@ == spec_post_request(q0@, false, QUEUE_SIZE as nat, req).0,
{
    let k0 = q0.id_situations_data;
    let k2 = q2.id_situations_data;
    let qs = RequestSituation::Question;
    let ps = RequestSituation::Processing;
    let as_ = RequestSituation::Answer;
    lemma_queue_model(q0);
    assert(!q0.live(id));
    assert(k0.situation(id) is None);
    lemma_set_of_fields(k0);
    lemma_set_of_fields(k2);
    assert(!k0.question_ids@.contains(id));
    assert(k2.question_ids@ == k0.question_ids@.push(id));
    assert(k2.processing_ids@ == k0.processing_ids@);
    assert(k2.answer_ids@ == k0.answer_ids@);
    assert forall|x: usize| #![trigger k2.situation(x)] k2.situation(x) == if x == id {
        Some(RequestSituation::Question)
    } else {
        k0.situation(x)
    } by {
        assert(k2.question_ids@.contains(x) <==> (k0.question_ids@.contains(x) || x == id)) by {
            if k2.question_ids@.contains(x) && x != id {
                let j = choose|j: int| 0 <= j < k2.question_ids@.len() && k2.question_ids@[j] == x;
                assert(k0.question_ids@[j] == x);
            }
            if k0.question_ids@.contains(x) {
                let j = choose|j: int| 0 <= j < k0.question_ids@.len() && k0.question_ids@[j] == x;
                assert(k2.question_ids@[j] == x);
            }
            if x == id {
                assert(k2.question_ids@[k0.question_ids@.len() as int] == id);
            }
        }
    }
    let open0 = q0.loc_info.open();
    let open2 = q2.loc_info.open();
    lemma_swap_remove_distinct(open0, 0);
    assert(open0.contains(location));
    assert forall|x: usize| #![trigger q2.live(x)] q2.live(x) == (x == id || q0.live(x)) by {}
    assert forall|x: usize| #![trigger q2.live(x)] q2.live(x) implies q2.loc(x) == if x == id {
        location
    } else {
        q0.loc(x)
    } by {}
    assert forall|x: usize| #![trigger q0.live(x)] q0.live(x) implies q0.loc(x) != location by {}
    assert(q2.id_situations_data.wf());
    assert(q2.loc_info.wf());
    assert(forall|id: RequestIdentifier|
            #![trigger q2.live(id)]
            q2.live(id) <==> q2.id_situations_data.situation(id) is Some);
    assert(k2.count() == k0.count() + 1);
    assert(q2.id_situations_data.count() == q2.loc_info.used());
    assert(q2.loc_info.used() + q2.loc_info.open().len() == QUEUE_SIZE);
    assert(forall|id: RequestIdentifier|
            #![trigger q2.live(id)]
            q2.live(id) ==> q2.loc(id) < QUEUE_SIZE && !q2.loc_info.open().contains(q2.loc(id))
                && 1 <= id <= q2.last_identifier);
    assert(forall|id1: RequestIdentifier, id2: RequestIdentifier|
            #![trigger q2.live(id1), q2.live(id2)]
            q2.live(id1) && q2.live(id2) && id1 != id2 ==> q2.loc(id1) != q2.loc(id2));
    assert forall|x: usize| #![trigger q2.loc_info.open().contains(x)] q2.loc_info.open().contains(x) implies x < QUEUE_SIZE by {
        assert(open0.contains(x));
    }
    assert(q2.queue_data@.len() == QUEUE_SIZE);
    lemma_other_requests_kept(q0, q2, id, location, RequestQueueDataCell::Question(req));
    assert(forall|id: RequestIdentifier|
            #![trigger q2.id_situations_data.situation(id)]
            q2.id_situations_data.situation(id) == Some(RequestSituation::Question)
                ==> q2.queue_data@[q2.loc(id) as int] is Question);
    assert(forall|id: RequestIdentifier|
            #![trigger q2.id_situations_data.situation(id)]
            q2.id_situations_data.situation(id) == Some(RequestSituation::Answer)
                ==> q2.queue_data@[q2.loc(id) as int] is Answer);
    assert(q2.wf());
    assert(q2@.requests =~= q0@.requests.insert(id, Request::Question(req))) by {
        assert forall|x: usize| #![trigger q2@.requests.contains_key(x)] q2@.requests.contains_key(x) implies q2@.requests[x]
            == q0@.requests.insert(id, Request::Question(req))[x] by {
            if x != id {
                assert(q0.live(x));
                assert(q2.request_of(x) == q0.request_of(x));
            }
        }
    }
}

impl<TQues, TAns> RequestQueueClientEndpoint<TQues, TAns> {
    /// Takes the answer to this client's request out of `queue`, if it has come.
    pub fn try_take_answer<const QUEUE_SIZE: usize>(
        &mut self,
        queue: &mut RequestQueue<TQues, TAns, QUEUE_SIZE>,
    ) -> (r: Result<Option<TAns>, QueueRequestQueryError>)
        requires
            old(queue).wf(),
        ensures
            final(queue).wf(),
            ({
                let (m, res) = spec_take_answer(old(queue)@, old(self)@);
                &&& final(queue)@ == m
                &&& r == res
                &&& final(self)@ == if res matches Ok(Some(_)) {
                    None
                } else {
                    old(self)@
                }
            }),
    {
        proof {
            lemma_queue_model(*queue);
        }
        let req_id = match self.current_req_id {
            Some(id) => id,
            None => {
                return Err(QueueRequestQueryError::NoRequest);
            },
        };
        let req_header = match queue.get_req_header(req_id) {
            Some(h) => h,
            None => {
                return Err(QueueRequestQueryError::RequestNotFound);
            },
        };
        if req_header.situation == RequestSituation::Answer {
            let ghost q0 = *queue;
            let location = req_header.location;
            let mut cell = RequestQueueDataCell::Vacant;
            std::mem::swap(&mut queue.queue_data[location], &mut cell);
            let value = match cell {
                RequestQueueDataCell::Answer(a) => Some(a),
                _ => None,
            };
            let value = value.unwrap();
            let ghost q1 = *queue;
            proof {
                assert(q0.id_situations_data.set_of(RequestSituation::Answer).contains(req_id));
            }
            let _ = queue.id_situations_data.set_situation(req_id, Some(RequestSituation::Answer), None);
            proof {
                assert(q0.loc_info.used() >= 1) by {
                    assert(q0.live(req_id));
                    assert(q0.loc_info.id_to_location.keys().contains(req_id));
                }
            }
            queue.loc_info.clear_loc(req_id);
            self.current_req_id = None;
            proof {
                lemma_take_answer_wf(q0, *queue, req_id, location, value);
            }
            Ok(Some(value))
        } else {
            Ok(None)
        }
    }

    /// Whether request `req_id` of `queue` has its answer.
    pub fn is_ready<const QUEUE_SIZE: usize>(
        &self,
        queue: &RequestQueue<TQues, TAns, QUEUE_SIZE>,
        req_id: RequestIdentifier,
    ) -> (r: Result<bool, QueueRequestQueryError>)
        requires
            queue.wf(),
        ensures
            r == spec_is_ready(queue@, req_id),
    {
        match queue.get_req(req_id) {
            Some(req) => Ok(req.is_answer()),
            None => Err(QueueRequestQueryError::RequestNotFound),
        }
    }
}

/// Taking an answer keeps the queue well formed and removes the request from the model.
proof fn lemma_take_answer_wf<TQues, TAns, const QUEUE_SIZE: usize>(
    q0: RequestQueue<TQues, TAns, QUEUE_SIZE>,
    q2: RequestQueue<TQues, TAns, QUEUE_SIZE>,
    id: RequestIdentifier,
    location: usize,
    value: TAns,
)
    requires
        q0.wf(),
        q0.live(id),
        location == q0.loc(id),
        q0.id_situations_data.situation(id) == Some(RequestSituation::Answer),
        q0.queue_data@[location as int] == RequestQueueDataCell::<TQues, TAns>::Answer(value),
        q2.last_identifier == q0.last_identifier,
        q2.loc_info.wf(),
        q2.loc_info.locations() == q0.loc_info.locations().remove(id),
        q2.loc_info.used() == q0.loc_info.used() - 1,
        q2.loc_info.open() == q0.loc_info.open().push(location),
        q2.queue_data@ == q0.queue_data@.update(location as int, RequestQueueDataCell::Vacant),
        q2.id_situations_data.wf(),
        forall|s: RequestSituation|
            #![trigger q2.id_situations_data.set_of(s)]
            q2.id_situations_data.set_of(s) == q0.id_situations_data.moved_set(
                id,
                Some(RequestSituation::Answer),
                None,
                s,
            ),
    ensures
        q2.wf(),
        q2@ == spec_take_answer(q0@, Some(id)).0,
{
    let k0 = q0.id_situations_data;
    let k2 = q2.id_situations_data;
    lemma_queue_model(q0);
    lemma_moved_situation(k0, k2, id, RequestSituation::Answer, None);
    let open0 = q0.loc_info.open();
    let open2 = q2.loc_info.open();
    assert(!open0.contains(location));
    assert forall|x: usize| #![trigger q2.live(x)] q2.live(x) == (x != id && q0.live(x)) by {}
    assert forall|x: usize| #![trigger q2.live(x)] q2.live(x) implies q2.loc(x) == q0.loc(x) && q2.loc(x) != location by {
        assert(q0.live(x));
    }
    assert forall|x: usize| #![trigger open2.contains(x)] open2.contains(x) <==> (open0.contains(x) || x == location) by {
        if open2.contains(x) && x != location {
            let j = choose|j: int| 0 <= j < open2.len() && open2[j] == x;
            assert(open0[j] == x);
        }
        if open0.contains(x) {
            let j = choose|j: int| 0 <= j < open0.len() && open0[j] == x;
            assert(open2[j] == x);
        }
        if x == location {
            assert(open2[open0.len() as int] == location);
        }
    }
    lemma_other_requests_kept(q0, q2, id, location, RequestQueueDataCell::Vacant);
    assert(q2.wf());
    assert(q2@.requests =~= q0@.requests.remove(id)) by {
        assert forall|x: usize| #![trigger q2@.requests.contains_key(x)] q2@.requests.contains_key(x) implies q2@.requests[x]
            == q0@.requests[x] by {
            assert(q0.live(x));
            assert(q2.request_of(x) == q0.request_of(x));
        }
    }
}

/// A server of a request queue, working on at most one request at a time.
pub struct RequestQueueServerEndpoint<TQues, TAns> {
    current_req_id: Option<RequestIdentifier>,
    io_phantom: PhantomData<(TQues, TAns)>,
}

impl<TQues, TAns> View for RequestQueueServerEndpoint<TQues, TAns> {
    type V = Option<RequestIdentifier>;

    /// The identifier of the request the server works on.
    open spec fn view(&self) -> Option<RequestIdentifier> {
        self.spec_current()
    }
}

impl<TQues, TAns> RequestQueueServerEndpoint<TQues, TAns> {
    pub closed spec fn spec_current(&self) -> Option<RequestIdentifier> {
        self.current_req_id
    }

    pub fn new() -> (e: Self)
        ensures
            e@ is None,
    {
        RequestQueueServerEndpoint { current_req_id: None, io_phantom: PhantomData }
    }

    pub fn has_request(&self) -> (b: bool)
        ensures
            b == self@ is Some,
    {
        self.current_req_id.is_some()
    }

    /// Takes the first question of `queue`, which then waits for this server's answer.
    /// Refused while the server works on a request.
    pub fn get_question<const QUEUE_SIZE: usize>(
        &mut self,
        queue: &mut RequestQueue<TQues, TAns, QUEUE_SIZE>,
    ) -> (r: Result<Option<TQues>, GetQuestionError>)
        requires
            old(queue).wf(),
        ensures
            final(queue).wf(),
            old(self)@ is Some ==> r == Err::<Option<TQues>, GetQuestionError>(GetQuestionError::AlreadyHasQuestion)
                && final(queue)@ == old(queue)@ && final(self)@ == old(self)@,
            old(self)@ is None ==> ({
                let (m, res) = spec_get_question(old(queue)@);
                &&& final(queue)@ == m
                &&& match res {
                    Some((id, q)) => r == Ok::<Option<TQues>, GetQuestionError>(Some(q)) && final(self)@ == Some(id),
                    None => r == Ok::<Option<TQues>, GetQuestionError>(None) && final(self)@ is None,
                }
            }),
    {
        proof {
            lemma_queue_model(*queue);
        }
        if self.has_request() {
            return Err(GetQuestionError::AlreadyHasQuestion);
        }
        let question_id = queue.id_situations_data.question_ids.first();
        match question_id {
            Some(question_id) => {
                let ghost q0 = *queue;
                proof {
                    assert(q0.id_situations_data.set_of(RequestSituation::Question).contains(question_id));
                    assert(q0.id_situations_data.situation(question_id) == Some(RequestSituation::Question));
                    assert(q0.live(question_id));
                }
                let loc = queue.loc_info.id_to_location.get(question_id).unwrap();
                let mut cell = RequestQueueDataCell::Vacant;
                std::mem::swap(&mut queue.queue_data[loc], &mut cell);
                let req = match cell {
                    RequestQueueDataCell::Question(q) => Some(q),
                    _ => None,
                };
                let req = req.unwrap();
                proof {
                    let k = q0.id_situations_data;
                    assert(k.set_of(RequestSituation::Processing).len() < QUEUE_SIZE) by {
                        assert(k.set_of(RequestSituation::Question).len() >= 1);
                        assert(k.count() <= QUEUE_SIZE);
                    }
                    assert(!k.set_of(RequestSituation::Processing).contains(question_id)) by {
                        assert(k.set_of(RequestSituation::Question) == k.question_ids@);
                        assert(k.set_of(RequestSituation::Processing) == k.processing_ids@);
                    }
                }
                let _ = queue.id_situations_data.set_situation(
                    question_id,
                    Some(RequestSituation::Question),
                    Some(RequestSituation::Processing),
                );
                self.current_req_id = Some(question_id);
                proof {
                    lemma_get_question_wf(q0, *queue, question_id, loc, req);
                }
                Ok(Some(req))
            },
            None => Ok(None),
        }
    }

    /// Puts `ans` as the answer to the request this server works on. Refused, and `ans`
    /// handed back, when it works on none or that request does not wait for an answer.
    pub fn put_answer<const QUEUE_SIZE: usize>(
        &mut self,
        queue: &mut RequestQueue<TQues, TAns, QUEUE_SIZE>,
        ans: TAns,
    ) -> (r: Result<(), (PutAnswerError, TAns)>)
        requires
            old(queue).wf(),
        ensures
            final(queue).wf(),
            final(self)@ == old(self)@,
            ({
                let (m, res) = spec_put_answer(old(queue)@, old(self)@, ans);
                &&& final(queue)@ == m
                &&& match res {
                    Ok(()) => r is Ok,
                    Err(e) => r == Err::<(), (PutAnswerError, TAns)>((e, ans)),
                }
            }),
    {
        proof {
            lemma_queue_model(*queue);
        }
        let req_id = match self.current_req_id {
            Some(req_id) => req_id,
            None => {
                return Err((PutAnswerError::NoRequestId, ans));
            },
        };
        if !queue.id_situations_data.processing_ids.contains(req_id) {
            proof {
                let k = queue.id_situations_data;
                assert(k.set_of(RequestSituation::Processing) == k.processing_ids@);
                if queue@.requests.contains_key(req_id) && queue@.requests[req_id] is Processing {
                    assert(queue.live(req_id));
                }
            }
            return Err((PutAnswerError::WeirdRequestId, ans));
        }
        let ghost q0 = *queue;
        proof {
            let k = q0.id_situations_data;
            assert(k.set_of(RequestSituation::Processing) == k.processing_ids@);
            assert(k.situation(req_id) == Some(RequestSituation::Processing));
            assert(q0.live(req_id));
            assert(k.set_of(RequestSituation::Answer).len() < QUEUE_SIZE) by {
                assert(k.set_of(RequestSituation::Processing).len() >= 1);
                assert(k.count() <= QUEUE_SIZE);
                assert(k.set_of(RequestSituation::Answer) == k.answer_ids@);
                assert(k.set_of(RequestSituation::Question) == k.question_ids@);
            }
            assert(!k.set_of(RequestSituation::Answer).contains(req_id)) by {
                assert(k.set_of(RequestSituation::Answer) == k.answer_ids@);
            }
        }
        let loc = queue.loc_info.id_to_location.get(req_id).unwrap();
        queue.queue_data.set(loc, RequestQueueDataCell::Answer(ans));
        let _ = queue.id_situations_data.set_situation(
            req_id,
            Some(RequestSituation::Processing),
            Some(RequestSituation::Answer),
        );
        proof {
            lemma_put_answer_wf(q0, *queue, req_id, loc, ans);
        }
        Ok(())
    }
}

/// Taking the first question keeps the queue well formed and sets it to processing.
proof fn lemma_get_question_wf<TQues, TAns, const QUEUE_SIZE: usize>(
    q0: RequestQueue<TQues, TAns, QUEUE_SIZE>,
    q2: RequestQueue<TQues, TAns, QUEUE_SIZE>,
    id: RequestIdentifier,
    location: usize,
    question: TQues,
)
    requires
        q0.wf(),
        q0@.questions.len() > 0,
        id == q0@.questions[0],
        q0.live(id),
        location == q0.loc(id),
        q0.queue_data@[location as int] == RequestQueueDataCell::<TQues, TAns>::Question(question),
        q2.last_identifier == q0.last_identifier,
        q2.loc_info == q0.loc_info,
        q2.queue_data@ == q0.queue_data@.update(location as int, RequestQueueDataCell::Vacant),
        q2.id_situations_data.wf(),
        forall|s: RequestSituation|
            #![trigger q2.id_situations_data.set_of(s)]
            q2.id_situations_data.set_of(s) == q0.id_situations_data.moved_set(
                id,
                Some(RequestSituation::Question),
                Some(RequestSituation::Processing),
                s,
            ),
    ensures
        q2.wf(),
        spec_get_question(q0@) == (q2@, Some((id, question))),
{
    let k0 = q0.id_situations_data;
    let k2 = q2.id_situations_data;
    lemma_queue_model(q0);
    assert(k0.set_of(RequestSituation::Question) == k0.question_ids@);
    assert(k0.question_ids@.contains(id));
    assert(k0.situation(id) == Some(RequestSituation::Question));
    lemma_moved_situation(k0, k2, id, RequestSituation::Question, Some(RequestSituation::Processing));
    assert forall|x: usize| #![trigger q2.live(x)] q2.live(x) == q0.live(x) by {}
    assert forall|x: usize| #![trigger q0.live(x)] q0.live(x) && x != id implies q0.loc(x) != location by {}
    lemma_other_requests_kept(q0, q2, id, location, RequestQueueDataCell::Vacant);
    assert(q2.wf());
    crate::collections::index_map::lemma_index_of_unique(k0.question_ids@, 0);
    assert(q2@.questions == seq_swap_remove(q0@.questions, 0)) by {
        assert(k2.set_of(RequestSituation::Question) == k2.question_ids@);
    }
    assert(q0@.requests[id] == Request::<TQues, TAns>::Question(question));
    assert(q2@.requests =~= q0@.requests.insert(id, Request::Processing)) by {
        assert forall|x: usize| #![trigger q2@.requests.contains_key(x)] q2@.requests.contains_key(x) && x != id implies q2@.requests[x]
            == q0@.requests[x] by {
            assert(q0.live(x));
            assert(q2.request_of(x) == q0.request_of(x));
        }
    }
}

/// Putting an answer keeps the queue well formed and records the answer.
proof fn lemma_put_answer_wf<TQues, TAns, const QUEUE_SIZE: usize>(
    q0: RequestQueue<TQues, TAns, QUEUE_SIZE>,
    q2: RequestQueue<TQues, TAns, QUEUE_SIZE>,
    id: RequestIdentifier,
    location: usize,
    ans: TAns,
)
    requires
        q0.wf(),
        q0.live(id),
        q0.id_situations_data.situation(id) == Some(RequestSituation::Processing),
        location == q0.loc(id),
        q2.last_identifier == q0.last_identifier,
        q2.loc_info == q0.loc_info,
        q2.queue_data@ == q0.queue_data@.update(location as int, RequestQueueDataCell::Answer(ans)),
        q2.id_situations_data.wf(),
        forall|s: RequestSituation|
            #![trigger q2.id_situations_data.set_of(s)]
            q2.id_situations_data.set_of(s) == q0.id_situations_data.moved_set(
                id,
                Some(RequestSituation::Processing),
                Some(RequestSituation::Answer),
                s,
            ),
    ensures
        q2.wf(),
        q2@ == spec_put_answer(q0@, Some(id), ans).0,
{
    let k0 = q0.id_situations_data;
    let k2 = q2.id_situations_data;
    lemma_queue_model(q0);
    lemma_moved_situation(k0, k2, id, RequestSituation::Processing, Some(RequestSituation::Answer));
    assert forall|x: usize| #![trigger q2.live(x)] q2.live(x) == q0.live(x) by {}
    assert forall|x: usize| #![trigger q0.live(x)] q0.live(x) && x != id implies q0.loc(x) != location by {}
    lemma_other_requests_kept(q0, q2, id, location, RequestQueueDataCell::Answer(ans));
    assert(q2.wf());
    assert(q0@.requests[id] is Processing);
    assert(q2@.requests =~= q0@.requests.insert(id, Request::Answer(ans))) by {
        assert forall|x: usize| #![trigger q2@.requests.contains_key(x)] q2@.requests.contains_key(x) && x != id implies q2@.requests[x]
            == q0@.requests[x] by {
            assert(q0.live(x));
            assert(q2.request_of(x) == q0.request_of(x));
        }
    }
}

/// What a client posts to a queue without pending questions, a free server takes;
/// the answer the server puts, the client takes; and the queue is left with the
/// requests it had.
pub proof fn lemma_queue_round_trip<TQues, TAns>(
    m: QueueModel<TQues, TAns>,
    capacity: nat,
    question: TQues,
    answer: TAns,
)
    requires
        m.inv(),
        m.last_id < usize::MAX,
        m.questions.len() == 0,
        m.requests.dom().len() < capacity,
    ensures
        ({
            let id = (m.last_id + 1) as RequestIdentifier;
            let (m1, posted) = spec_post_request(m, false, capacity, question);
            let (m2, taken) = spec_get_question(m1);
            let (m3, put) = spec_put_answer(m2, Some(id), answer);
            let (m4, received) = spec_take_answer(m3, Some(id));
            &&& posted == Ok::<RequestIdentifier, QueueRequestPostError>(id)
            &&& taken == Some((id, question))
            &&& put is Ok
            &&& spec_is_ready(m2, id) == Ok::<bool, QueueRequestQueryError>(false)
            &&& spec_is_ready(m3, id) == Ok::<bool, QueueRequestQueryError>(true)
            &&& received == Ok::<Option<TAns>, QueueRequestQueryError>(Some(answer))
            &&& m4.requests == m.requests
            &&& m4.questions == m.questions
        }),
{
    let id = (m.last_id + 1) as RequestIdentifier;
    let (m1, posted) = spec_post_request(m, false, capacity, question);
    assert(m1.questions =~= seq![id]);
    let (m2, taken) = spec_get_question(m1);
    assert(m2.questions =~= Seq::<RequestIdentifier>::empty());
    let (m3, put) = spec_put_answer(m2, Some(id), answer);
    let (m4, received) = spec_take_answer(m3, Some(id));
    assert(!m.requests.contains_key(id));
    assert(m4.requests =~= m.requests);
    assert(m4.questions =~= m.questions);
}

/// A refused operation leaves the queue as it was: a post by a client that has a
/// request or to a full queue, a take by a client without request or whose request
/// has no answer yet, an answer by a server without a waiting request.
pub proof fn lemma_queue_refusals<TQues, TAns>(
    m: QueueModel<TQues, TAns>,
    has_request: bool,
    capacity: nat,
    question: TQues,
    current: Option<RequestIdentifier>,
    answer: TAns,
)
    ensures
        spec_post_request(m, has_request, capacity, question).1 is Err
            ==> spec_post_request(m, has_request, capacity, question).0 == m,
        !(spec_take_answer(m, current).1 matches Ok(Some(_))) ==> spec_take_answer(m, current).0 == m,
        spec_put_answer(m, current, answer).1 is Err ==> spec_put_answer(m, current, answer).0 == m,
{
}

/// A client holds a request from an accepted post to the take that gives its
/// answer: a post is accepted only from a client that holds none, a take gives an
/// answer only to a client that holds one, and meanwhile no other post, take,
/// question taken or answer put removes that request from the queue.
pub proof fn lemma_client_request_span<TQues, TAns>(
    m: QueueModel<TQues, TAns>,
    has_request: bool,
    capacity: nat,
    question: TQues,
    current: Option<RequestIdentifier>,
    other: RequestIdentifier,
    server_current: Option<RequestIdentifier>,
    answer: TAns,
)
    requires
        m.inv(),
    ensures
        spec_post_request(m, has_request, capacity, question).1 is Ok ==> !has_request,
        spec_take_answer(m, current).1 matches Ok(Some(_)) ==> current is Some,
        current is Some && m.requests.contains_key(current->0) ==> {
            let id = current->0;
            &&& spec_post_request(m, has_request, capacity, question).0.requests.contains_key(id)
            &&& other != id ==> spec_take_answer(m, Some(other)).0.requests.contains_key(id)
            &&& spec_get_question(m).0.requests.contains_key(id)
            &&& spec_put_answer(m, server_current, answer).0.requests.contains_key(id)
        },
{
}

/// Every request that a post accepts gets an identifier that no request in the
/// queue has, greater than all of them.
pub proof fn lemma_post_fresh_identifier<TQues, TAns>(m: QueueModel<TQues, TAns>, capacity: nat, question: TQues)
    requires
        m.inv(),
        m.last_id < usize::MAX,
    ensures
        spec_post_request(m, false, capacity, question).1 matches Ok(id) ==> !m.requests.contains_key(id)
            && forall|other: RequestIdentifier| #![trigger m.requests.contains_key(other)] m.requests.contains_key(other) ==> other < id,
{
}

} // verus!
