//! A blog-post review workflow, twice: once as a state value inside one
//! type, once encoded in the type system so that only reviewed posts ever
//! expose their text.

use vstd::prelude::*;

verus! {

/// Where a post stands in the review workflow.
#[derive(Debug, Clone, Copy, PartialEq, Eq, Structural)]
pub enum PostState {
    Draft,
    PendingReview,
    Published,
}

/// A post that carries its workflow state: its text is visible only once
/// it is published.
pub struct Post {
    state: PostState,
    content: String,
}

impl Post {
    /// The workflow state, for contracts.
    pub closed spec fn spec_state(&self) -> PostState {
        self.state
    }

    /// The stored text, for contracts.
    pub closed spec fn spec_content(&self) -> Seq<char> {
        self.content@
    }

    /// A new, empty draft.
    pub fn new() -> (p: Post)
        ensures
            p.spec_state() is Draft,
            p.spec_content().len() == 0,
    {
        Post { state: PostState::Draft, content: String::new() }
    }

    /// Appends text to the post, whatever its state.
    pub fn add_text(&mut self, text: &str)
        ensures
            final(self).spec_state() == old(self).spec_state(),
            final(self).spec_content() == old(self).spec_content() + text@,
    {
        self.content.append(text);
    }

    /// The visible text: empty until the post is published.
    pub fn content(&self) -> (r: &str)
        ensures
            self.spec_state() is Published ==> r@ == self.spec_content(),
            !(self.spec_state() is Published) ==> r@ == Seq::<char>::empty(),
    {
        proof {
            reveal_strlit("");
        }
        match self.state {
            PostState::Published => self.content.as_str(),
            _ => "",
        }
    }

    /// Asks for review: a draft becomes pending; other states stay as they
    /// are.
    pub fn request_review(&mut self)
        ensures
            final(self).spec_content() == old(self).spec_content(),
            final(self).spec_state() == (if old(self).spec_state() is Draft {
                PostState::PendingReview
            } else {
                old(self).spec_state()
            }),
    {
        if let PostState::Draft = self.state {
            self.state = PostState::PendingReview;
        }
    }

    /// Approves the post: a pending post becomes published; other states
    /// stay as they are.
    pub fn approve(&mut self)
        ensures
            final(self).spec_content() == old(self).spec_content(),
            final(self).spec_state() == (if old(self).spec_state() is PendingReview {
                PostState::Published
            } else {
                old(self).spec_state()
            }),
    {
        if let PostState::PendingReview = self.state {
            self.state = PostState::Published;
        }
    }
}

/// A published post in the typestate encoding: the only way to obtain one
/// is to approve a pending review, so having the value is the proof that
/// the workflow ran.
pub struct PostII {
    content: String,
}

/// A draft in the typestate encoding: its text can grow, but cannot be read
/// back out.
pub struct DraftPostII {
    content: String,
}

/// A post under review in the typestate encoding: it can only be approved.
pub struct PendingReviewPostII {
    content: String,
}

impl PostII {
    /// The stored text, for contracts.
    pub closed spec fn spec_content(&self) -> Seq<char> {
        self.content@
    }

    /// Starting a post gives a draft, not a published post.
    pub fn new() -> (p: DraftPostII)
        ensures
            p.spec_content().len() == 0,
    {
        DraftPostII { content: String::new() }
    }

    /// A published post shows its text.
    pub fn content(&self) -> (r: &str)
        ensures
            r@ == self.spec_content(),
    {
        self.content.as_str()
    }
}

impl DraftPostII {
    /// The stored text, for contracts.
    pub closed spec fn spec_content(&self) -> Seq<char> {
        self.content@
    }

    /// Appends text to the draft.
    pub fn add_text(&mut self, text: &str)
        ensures
            final(self).spec_content() == old(self).spec_content() + text@,
    {
        self.content.append(text);
    }

    /// Consumes the draft and hands it to review: no draft remains.
    pub fn request_review(self) -> (p: PendingReviewPostII)
        ensures
            p.spec_content() == self.spec_content(),
    {
        PendingReviewPostII { content: self.content }
    }
}

impl PendingReviewPostII {
    /// The stored text, for contracts.
    pub closed spec fn spec_content(&self) -> Seq<char> {
        self.content@
    }

    /// Consumes the pending review and publishes the post.
    pub fn approve(self) -> (p: PostII)
        ensures
            p.spec_content() == self.spec_content(),
    {
        PostII { content: self.content }
    }
}

} // verus!
