//! The data model: questions, categories, identities, and the ghost-level
//! view of a question together with the operations votes perform on it.

use vstd::prelude::*;
use vstd::string::StrSliceExecFns;

verus! {

/// An opaque fixed-size caller identity, set once at creation of a record.
pub type AccountId = [u8; 32];

/// The closed set of question categories.
#[derive(Clone, Copy, PartialEq, Eq, Structural, Debug)]
pub enum Category {
    Docs,
    Builders,
    Governance,
    Ecosystem,
}

/// The discriminant under which a category is stored; also the index
/// reported in the compact tuple form of a record.
pub open spec fn spec_category_code(c: Category) -> u8 {
    match c {
        Category::Docs => 0,
        Category::Builders => 1,
        Category::Governance => 2,
        Category::Ecosystem => 3,
    }
}

/// The category stored under a discriminant byte; any byte outside the four
/// known discriminants is malformed.
pub open spec fn spec_category_from_code(code: u8) -> Option<Category> {
    if code == 0 {
        Some(Category::Docs)
    } else if code == 1 {
        Some(Category::Builders)
    } else if code == 2 {
        Some(Category::Governance)
    } else if code == 3 {
        Some(Category::Ecosystem)
    } else {
        None
    }
}

impl Category {
    /// The discriminant byte of this category.
    pub fn code(&self) -> (code: u8)
        ensures
            code == spec_category_code(*self),
    {
        match self {
            Category::Docs => 0,
            Category::Builders => 1,
            Category::Governance => 2,
            Category::Ecosystem => 3,
        }
    }

    /// The category encoded by a discriminant byte, if any.
    pub fn from_code(code: u8) -> (c: Option<Category>)
        ensures
            c == spec_category_from_code(code),
    {
        if code == 0 {
            Some(Category::Docs)
        } else if code == 1 {
            Some(Category::Builders)
        } else if code == 2 {
            Some(Category::Governance)
        } else if code == 3 {
            Some(Category::Ecosystem)
        } else {
            None
        }
    }
}

/// The longest text a stored question may carry, counted in characters.
pub const TEXT_LIMIT: usize = 256;

/// The mathematical value of a question: every field as a plain value.
#[verifier::ext_equal]
pub ghost struct QuestionView {
    pub id: u32,
    pub author: Seq<u8>,
    pub text: Seq<char>,
    pub category: Category,
    pub created_at: u64,
    pub upvotes: u32,
    pub downvotes: u32,
}

impl QuestionView {
    /// Well-formedness: the identity is exactly 32 bytes and the text is
    /// within the creation-time cap.
    pub open spec fn wf(self) -> bool {
        &&& self.author.len() == 32
        &&& self.text.len() <= TEXT_LIMIT
    }
}

/// A single question entry: identity, text, category, timestamp, and the two
/// vote counters. Only the counters ever change after creation.
#[derive(Clone, Debug)]
pub struct Question {
    pub id: u32,
    pub author: AccountId,
    pub text: String,
    pub category: Category,
    pub created_at: u64,
    pub upvotes: u32,
    pub downvotes: u32,
}

impl View for Question {
    type V = QuestionView;

    open spec fn view(&self) -> QuestionView {
        QuestionView {
            id: self.id,
            author: self.author@,
            text: self.text@,
            category: self.category,
            created_at: self.created_at,
            upvotes: self.upvotes,
            downvotes: self.downvotes,
        }
    }
}

impl Question {
    /// Well-formedness of the underlying value.
    pub open spec fn wf(self) -> bool {
        self@.wf()
    }
}

/// Whether two identities hold the same bytes.
fn account_eq(a: &AccountId, b: &AccountId) -> (r: bool)
    ensures
        r == (a@ == b@),
{
    let mut i: usize = 0;
    while i < 32
        invariant
            i <= 32,
            forall|j: int| 0 <= j < i ==> a@[j] == b@[j],
        decreases 32 - i,
    {
        if a[i] != b[i] {
            return false;
        }
        i = i + 1;
    }
    proof {
        assert(a@ =~= b@);
    }
    true
}

impl PartialEq for Question {
    /// Two questions are equal when every field is: equality goes by value.
    fn eq(&self, other: &Question) -> (r: bool) {
        let fields_eq = self.id == other.id && self.category == other.category
            && self.created_at == other.created_at && self.upvotes == other.upvotes
            && self.downvotes == other.downvotes && account_eq(&self.author, &other.author)
            && self.text == other.text;
        proof {
            if fields_eq {
                assert(self@ =~= other@);
            }
        }
        fields_eq
    }
}

impl Eq for Question {

}

impl vstd::std_specs::cmp::PartialEqSpecImpl for Question {
    open spec fn obeys_eq_spec() -> bool {
        true
    }

    open spec fn eq_spec(&self, other: &Question) -> bool {
        self@ == other@
    }
}

/// Saturating increment: the successor of `x`, clamped at the largest `u32`.
pub open spec fn sat_inc(x: u32) -> u32 {
    if x == u32::MAX {
        u32::MAX
    } else {
        (x + 1) as u32
    }
}

/// The record a single vote leaves behind: one counter is incremented with
/// saturation, every other field is kept.
pub open spec fn apply_vote(q: QuestionView, is_up: bool) -> QuestionView {
    if is_up {
        QuestionView { upvotes: sat_inc(q.upvotes), ..q }
    } else {
        QuestionView { downvotes: sat_inc(q.downvotes), ..q }
    }
}

/// Two question values that agree on every identity field, that is on
/// everything but the vote counters.
pub open spec fn same_identity(a: QuestionView, b: QuestionView) -> bool {
    &&& a.id == b.id
    &&& a.author == b.author
    &&& a.text == b.text
    &&& a.category == b.category
    &&& a.created_at == b.created_at
}

/// Text as stored at creation: kept as given when within the cap, cut to the
/// first `TEXT_LIMIT` characters otherwise. The cut is by characters, never
/// through the middle of one.
pub open spec fn crop_text(t: Seq<char>) -> Seq<char> {
    if t.len() <= TEXT_LIMIT {
        t
    } else {
        t.take(TEXT_LIMIT as int)
    }
}

/// Cuts a text down to the creation-time cap: text within the cap is kept as
/// given; longer text keeps exactly its first `TEXT_LIMIT` characters, so no
/// character is ever split.
pub fn crop(text: String) -> (out: String)
    ensures
        out@ == crop_text(text@),
{
    let n = text.as_str().unicode_len();
    if n <= TEXT_LIMIT {
        text
    } else {
        let head = text.as_str().substring_char(0, TEXT_LIMIT);
        proof {
            assert(head@ =~= crop_text(text@));
        }
        head.to_owned()
    }
}

/// The notification handed to the event collaborator when a record is created.
#[derive(Clone, Copy, Debug)]
pub struct QuestionAsked {
    pub id: u32,
    pub author: AccountId,
    pub category: Category,
}

/// The notification handed to the event collaborator when a vote succeeds.
#[derive(Clone, Copy, Debug)]
pub struct QuestionVoted {
    pub id: u32,
    pub voter: AccountId,
    pub is_up: bool,
}

} // verus!
