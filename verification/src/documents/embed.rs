//! Embedding chunk texts in bounded requests.
//!
//! [`EmbedRun::next_request`] says which texts go into the next request, the caller
//! sends it, and [`EmbedRun::accept`] takes the provider's answer.

use vstd::prelude::*;

verus! {

/// Upper bound on the texts of one embedding request.
pub const EMBED_REQUEST_MAX_TEXTS: usize = 64;

/// A provider's answer: one vector per text, by bit pattern, or why it refused.
pub type EmbedAnswer = Result<Vec<Vec<u32>>, String>;

/// The embedding of a list of texts.
#[derive(Debug)]
pub struct EmbedRun {
    total: usize,
    slots: Vec<Option<Vec<u32>>>,
}

/// An embedding run: how many texts there are, and the slots filled so far.
pub ghost struct EmbedView {
    pub total: nat,
    pub slots: Seq<Option<Seq<u32>>>,
}

impl View for EmbedRun {
    type V = EmbedView;

    closed spec fn view(&self) -> EmbedView {
        EmbedView {
            total: self.total as nat,
            slots: crate::documents::write::vector_views(self.slots@),
        }
    }
}

/// The vectors of an answer, if it is not a refusal.
pub open spec fn answer_view(answer: EmbedAnswer) -> Option<Seq<Seq<u32>>> {
    match answer {
        Ok(vectors) => Some(vectors@.map_values(|v: Vec<u32>| v@)),
        Err(_) => None,
    }
}

/// The slot that an answer gives a position: a refused request, a missing vector
/// and an empty one leave it without a vector.
pub open spec fn slot_of(answer: Option<Seq<Seq<u32>>>, position: int) -> Option<Seq<u32>> {
    match answer {
        Some(vectors) => if position < vectors.len() && vectors[position].len() > 0 {
            Some(vectors[position])
        } else {
            None
        },
        None => None,
    }
}

impl EmbedView {
    /// How many texts go into the next request.
    pub open spec fn request_len(self) -> nat {
        let left = self.total - self.slots.len();
        if left <= 0 {
            0
        } else if left < EMBED_REQUEST_MAX_TEXTS {
            left as nat
        } else {
            EMBED_REQUEST_MAX_TEXTS as nat
        }
    }

    /// The run after an answer to the next request.
    pub open spec fn after(self, answer: Option<Seq<Seq<u32>>>) -> EmbedView {
        EmbedView {
            slots: self.slots + Seq::new(self.request_len(), |i: int| slot_of(answer, i)),
            ..self
        }
    }

    /// The run after some answers.
    pub open spec fn after_all(self, answers: Seq<Option<Seq<Seq<u32>>>>) -> EmbedView
        decreases answers.len(),
    {
        if answers.len() == 0 {
            self
        } else {
            self.after_all(answers.drop_last()).after(answers.last())
        }
    }
}

impl EmbedRun {
    /// A run over a number of texts.
    pub fn new(total: usize) -> (r: Self)
        ensures
            r@ == (EmbedView { total: total as nat, slots: Seq::empty() }),
    {
        let r = EmbedRun { total, slots: Vec::new() };
        assert(r@.slots =~= Seq::empty());
        r
    }

    /// The positions of the texts of the next request: from the first, up to but not
    /// including the second. `None` when every text has a slot.
    pub fn next_request(&self) -> (r: Option<(usize, usize)>)
        ensures
            match r {
                Some((from, to)) => from == self@.slots.len() && to == from + self@.request_len()
                    && from < to <= self@.total,
                None => self@.slots.len() >= self@.total,
            },
    {
        let from: usize = self.slots.len();
        if from >= self.total {
            return None;
        }
        if self.total - from < EMBED_REQUEST_MAX_TEXTS {
            Some((from, self.total))
        } else {
            Some((from, from + EMBED_REQUEST_MAX_TEXTS))
        }
    }

    /// Takes the answer to the next request.
    pub fn accept(&mut self, answer: EmbedAnswer)
        ensures
            final(self)@ == old(self)@.after(answer_view(answer)),
    {
        let ghost before = self@;
        let count: usize = match self.next_request() {
            Some((from, to)) => to - from,
            None => 0,
        };
        let ghost vectors = answer_view(answer);
        let mut answer = answer;
        let mut i: usize = 0;
        assert(self@.slots =~= before.slots + Seq::new(0, |i: int| slot_of(vectors, i)));
        while i < count
            invariant
                i <= count,
                count == before.request_len(),
                self@.total == before.total,
                match answer {
                    Ok(held) => vectors is Some && held@.len() == vectors->0.len() && forall|j: int|
                        i <= j < held@.len() ==> (#[trigger] held@[j])@ == vectors->0[j],
                    Err(_) => vectors is None,
                },
                self@.slots =~= before.slots + Seq::new(
                    i as nat,
                    |i: int| slot_of(vectors, i),
                ),
            decreases count - i,
        {
            let mut vector: Option<Vec<u32>> = None;
            if let Ok(held) = &mut answer {
                if i < held.len() && held[i].len() > 0 {
                    let mut taken: Vec<u32> = Vec::new();
                    std::mem::swap(&mut taken, &mut held[i]);
                    vector = Some(taken);
                }
            }
            assert(crate::documents::opt_vector(vector) == slot_of(vectors, i as int));
            let ghost slots = self.slots@;
            self.slots.push(vector);
            assert(crate::documents::write::vector_views(self.slots@)
                =~= crate::documents::write::vector_views(slots).push(
                slot_of(vectors, i as int),
            ));
            i = i + 1;
        }
    }

    /// The slots, one per text once every request has been answered.
    pub fn finish(self) -> (r: Vec<Option<Vec<u32>>>)
        ensures
            crate::documents::write::vector_views(r@) == self@.slots,
    {
        self.slots
    }
}

/// Every text gets exactly one slot, in order, and a request never holds more than
/// [`EMBED_REQUEST_MAX_TEXTS`] texts: after `n` answers the first `64 n` texts, or
/// all of them, have the slots that their own request's answer gives them.
pub proof fn law_one_slot_per_text(total: nat, answers: Seq<Option<Seq<Seq<u32>>>>)
    ensures
        ({
            let run = (EmbedView { total, slots: Seq::empty() }).after_all(answers);
            &&& run.total == total
            &&& run.slots.len() == if EMBED_REQUEST_MAX_TEXTS * answers.len() <= total {
                EMBED_REQUEST_MAX_TEXTS * answers.len()
            } else {
                total as int
            }
            &&& run.request_len() <= EMBED_REQUEST_MAX_TEXTS
            &&& forall|i: int|
                0 <= i < run.slots.len() ==> #[trigger] run.slots[i] == slot_of(
                    answers[i / EMBED_REQUEST_MAX_TEXTS as int],
                    i % EMBED_REQUEST_MAX_TEXTS as int,
                )
        }),
    decreases answers.len(),
{
    if answers.len() > 0 {
        let before = answers.drop_last();
        law_one_slot_per_text(total, before);
        let run = (EmbedView { total, slots: Seq::empty() }).after_all(before);
        let after = (EmbedView { total, slots: Seq::empty() }).after_all(answers);
        assert(after == run.after(answers.last()));
        assert forall|i: int| 0 <= i < after.slots.len() implies #[trigger] after.slots[i]
            == slot_of(
            answers[i / EMBED_REQUEST_MAX_TEXTS as int],
            i % EMBED_REQUEST_MAX_TEXTS as int,
        ) by {
            if i < run.slots.len() {
                assert(after.slots[i] == run.slots[i]);
                assert(answers[i / 64] == before[i / 64]);
            } else {
                assert(i - run.slots.len() < 64);
                assert(i / 64 == answers.len() - 1);
            }
        }
    }
}

/// The next request asks for the texts behind those that have a slot, as many as fit, and
/// an answer gives each of them the vector that stands at its place in the answer. A refused
/// request, a missing vector and an empty one leave their texts without a vector, and the
/// slots that were filled before stay.
pub proof fn law_answers_fill_their_own_slots(run: EmbedView, answer: EmbedAnswer, i: int)
    requires
        0 <= i < run.slots.len() + run.request_len(),
    ensures
        ({
            let after = run.after(answer_view(answer));
            let place = i - run.slots.len();
            &&& after.total == run.total
            &&& after.slots.len() == run.slots.len() + run.request_len()
            &&& run.slots.len() <= run.total ==> run.request_len() <= 64 && run.slots.len()
                + run.request_len() <= run.total
            &&& run.slots.len() < run.total ==> run.request_len() == 64 || run.slots.len()
                + run.request_len() == run.total
            &&& run.slots.len() < run.total ==> run.request_len() > 0
            &&& place < 0 ==> after.slots[i] == run.slots[i]
            &&& place >= 0 && answer is Err ==> after.slots[i] is None
            &&& place >= 0 && answer is Ok && place >= answer->Ok_0@.len() ==> after.slots[i] is None
            &&& place >= 0 && answer is Ok && place < answer->Ok_0@.len() ==> match after.slots[i] {
                Some(vector) => vector == answer->Ok_0@[place]@ && vector.len() > 0,
                None => answer->Ok_0@[place]@.len() == 0,
            }
        }),
{
}

} // verus!
