//! The record store: owns the identifier counter and the mapping from
//! identifier to encoded record bytes, and exposes create, vote, fetch and
//! paginated scan. Reads decode on the fly; a missing or undecodable entry
//! is uniformly treated as absent.

use std::collections::HashMap;
use vstd::prelude::*;

use crate::codec::{decode, encode, lemma_encode_decode, spec_decode, spec_encode};
use crate::record::{
    apply_vote, crop_text, spec_category_code, AccountId, Category, Question, QuestionView,
};

verus! {

broadcast use vstd::std_specs::hash::group_hash_axioms;

/// The compact tuple form in which records are handed out: identifier,
/// author, text, category index, timestamp, upvotes, downvotes.
pub type QuestionTuple = (u32, AccountId, String, u32, u64, u32, u32);

/// Whether a tuple reports exactly the fields of a question value.
pub open spec fn tuple_matches(t: QuestionTuple, q: QuestionView) -> bool {
    &&& t.0 == q.id
    &&& t.1@ == q.author
    &&& t.2@ == q.text
    &&& t.3 == spec_category_code(q.category) as u32
    &&& t.4 == q.created_at
    &&& t.5 == q.upvotes
    &&& t.6 == q.downvotes
}

/// The record store.
pub struct DotsageQuestions {
    /// The identifier the next successful creation will take: strictly
    /// increasing from 0, stepped by exactly 1, never reset.
    next_id: u32,
    /// Identifier to encoded record bytes.
    questions: HashMap<u32, Vec<u8>>,
}

impl DotsageQuestions {
    /// The identifier counter: also the number of records ever created.
    pub closed spec fn counter(self) -> u32 {
        self.next_id
    }

    /// The stored mapping, as identifier to byte string.
    pub closed spec fn table(self) -> Map<u32, Seq<u8>> {
        Map::new(
            |id: u32| self.questions@.contains_key(id),
            |id: u32| self.questions@[id]@,
        )
    }

    /// The record stored under an identifier: `None` when the key is absent
    /// or its bytes do not decode.
    pub open spec fn entry(self, id: u32) -> Option<QuestionView> {
        if self.table().contains_key(id) {
            spec_decode(self.table()[id])
        } else {
            None
        }
    }

    /// The store's invariant: exactly the identifiers below the counter are
    /// present, and every stored byte string decodes to a well-formed record
    /// carrying its own key.
    pub open spec fn wf(self) -> bool {
        &&& forall|id: u32|
            #![trigger self.table().contains_key(id)]
            self.table().contains_key(id) <==> id < self.counter()
        &&& forall|id: u32| #[trigger]
            self.table().contains_key(id) ==> {
                &&& spec_decode(self.table()[id]) is Some
                &&& spec_decode(self.table()[id]).unwrap().id == id
                &&& spec_decode(self.table()[id]).unwrap().wf()
            }
    }

    /// Creates an empty store: counter at zero, no records.
    pub fn new() -> (s: Self)
        ensures
            s.counter() == 0,
            s.table() == Map::<u32, Seq<u8>>::empty(),
            s.wf(),
    {
        let s = DotsageQuestions { next_id: 0, questions: HashMap::new() };
        proof {
            assert(s.table() =~= Map::<u32, Seq<u8>>::empty());
        }
        s
    }

    /// The number of records created so far, which is also the identifier
    /// the next creation will return.
    pub fn question_count(&self) -> (n: u32)
        ensures
            n == self.counter(),
    {
        self.next_id
    }

    /// Creates a new record and stores it under a fresh identifier.
    ///
    /// The text is cut to the creation-time cap, by characters; the fresh
    /// identifier is the current counter, which moves up by one. The caller
    /// must have ruled out identifier-space exhaustion: a creation that
    /// would wrap the counter is a fatal condition, not a state change.
    pub fn ask_question(
        &mut self,
        text: String,
        category: Category,
        created_at: u64,
        author: AccountId,
    ) -> (id: u32)
        requires
            old(self).counter() < u32::MAX,
        ensures
            ({
                let q = QuestionView {
                    id,
                    author: author@,
                    text: crop_text(text@),
                    category,
                    created_at,
                    upvotes: 0,
                    downvotes: 0,
                };
                &&& id == old(self).counter()
                &&& final(self).counter() == old(self).counter() + 1
                &&& final(self).table() == old(self).table().insert(id, spec_encode(q))
                &&& final(self).entry(id) == Some(q)
                &&& q.wf()
                &&& (old(self).wf() ==> final(self).wf())
            }),
    {
        let limited = crate::record::crop(text);
        let id = self.next_id;
        self.next_id = self.next_id + 1;
        let q = Question {
            id,
            author,
            text: limited,
            category,
            created_at,
            upvotes: 0,
            downvotes: 0,
        };
        let encoded = encode(&q);
        self.questions.insert(id, encoded);
        proof {
            lemma_encode_decode(q@);
            assert(self.table() =~= old(self).table().insert(id, spec_encode(q@)));
        }
        id
    }

    /// Casts a vote: bumps one counter of the record under `question_id`
    /// with saturation and stores the record back. Returns `false`, changing
    /// nothing, when no record is stored there or its bytes do not decode.
    pub fn vote(&mut self, question_id: u32, is_up: bool) -> (ok: bool)
        ensures
            ok == (old(self).entry(question_id) is Some),
            final(self).counter() == old(self).counter(),
            !ok ==> *final(self) == *old(self),
            ok ==> ({
                let q1 = apply_vote(old(self).entry(question_id).unwrap(), is_up);
                &&& final(self).table() == old(self).table().insert(
                    question_id,
                    spec_encode(q1),
                )
                &&& final(self).entry(question_id) == Some(q1)
            }),
            old(self).wf() ==> final(self).wf(),
    {
        let found = match self.questions.get(&question_id) {
            Some(b) => decode(b.as_slice()),
            None => None,
        };
        match found {
            None => false,
            Some(mut q) => {
                if is_up {
                    q.upvotes = q.upvotes.saturating_add(1);
                } else {
                    q.downvotes = q.downvotes.saturating_add(1);
                }
                proof {
                    assert(q@ == apply_vote(old(self).entry(question_id).unwrap(), is_up));
                }
                let encoded = encode(&q);
                self.questions.insert(question_id, encoded);
                proof {
                    lemma_encode_decode(q@);
                    assert(self.table() =~= old(self).table().insert(
                        question_id,
                        spec_encode(q@),
                    ));
                }
                true
            },
        }
    }

    /// Fetches the record under an identifier in compact tuple form; `None`
    /// when it is absent or does not decode.
    pub fn get_question(&self, question_id: u32) -> (r: Option<QuestionTuple>)
        ensures
            r is Some <==> self.entry(question_id) is Some,
            r matches Some(t) ==> tuple_matches(t, self.entry(question_id).unwrap()),
    {
        let found = match self.questions.get(&question_id) {
            Some(b) => decode(b.as_slice()),
            None => None,
        };
        match found {
            None => None,
            Some(q) => {
                let code = q.category.code();
                Some((q.id, q.author, q.text, code as u32, q.created_at, q.upvotes, q.downvotes))
            },
        }
    }

    /// The records present in the identifier range `[from, to)`, in
    /// ascending identifier order, skipping absent or undecodable entries.
    pub open spec fn listed(self, from: int, to: int) -> Seq<QuestionView>
        decreases to - from,
    {
        if from >= to {
            Seq::empty()
        } else {
            let init = self.listed(from, to - 1);
            match self.entry((to - 1) as u32) {
                Some(q) => init.push(q),
                None => init,
            }
        }
    }

    /// Where a scan starting at `offset` with the given limit stops: the end
    /// of the half-open range, clamped to the counter.
    pub open spec fn scan_end(self, offset: u32, limit: u32) -> int {
        if offset + limit <= self.counter() {
            offset + limit
        } else {
            self.counter() as int
        }
    }

    /// Scans the identifier range `[offset, offset + limit)`, clamped to the
    /// counter, and returns the records found there in ascending identifier
    /// order. The limit bounds the range scanned, not the count returned:
    /// entries that are absent or do not decode are skipped, not backfilled.
    pub fn get_questions(&self, offset: u32, limit: u32) -> (r: Vec<QuestionTuple>)
        ensures
            ({
                let qs = self.listed(offset as int, self.scan_end(offset, limit));
                &&& r@.len() == qs.len()
                &&& forall|i: int| 0 <= i < qs.len() ==> tuple_matches(#[trigger] r@[i], qs[i])
            }),
    {
        let mut items: Vec<QuestionTuple> = Vec::new();
        let end_raw = offset.saturating_add(limit);
        let real_end = if end_raw < self.next_id {
            end_raw
        } else {
            self.next_id
        };
        if offset >= real_end {
            return items;
        }
        let mut current = offset;
        while current < real_end
            invariant
                offset <= current <= real_end,
                real_end as int == self.scan_end(offset, limit),
                items@.len() == self.listed(offset as int, current as int).len(),
                forall|i: int|
                    0 <= i < items@.len() ==> tuple_matches(
                        #[trigger] items@[i],
                        self.listed(offset as int, current as int)[i],
                    ),
            decreases real_end - current,
        {
            let found = match self.questions.get(&current) {
                Some(b) => decode(b.as_slice()),
                None => None,
            };
            if let Some(q) = found {
                let code = q.category.code();
                items.push(
                    (q.id, q.author, q.text, code as u32, q.created_at, q.upvotes, q.downvotes),
                );
            }
            proof {
                assert(self.listed(offset as int, current + 1) == (match self.entry(current) {
                    Some(q) => self.listed(offset as int, current as int).push(q),
                    None => self.listed(offset as int, current as int),
                }));
            }
            current = current + 1;
        }
        items
    }
}

} // verus!
