//! The data types of the registry: caller identities, records, errors, and
//! the notification values a host may forward to observers.

use vstd::prelude::*;

verus! {

/// An opaque caller identity. The registry never interprets it; it is only
/// compared for equality and used as part of the vote-ledger key.
#[derive(Clone, Copy, PartialEq, Eq, Structural, Hash, Debug)]
pub struct AccountId(pub u64);

/// A stored record. Everything but `likes` is immutable after creation.
#[derive(Debug, Clone)]
pub struct Meme {
    /// Positive, unique, assigned sequentially starting at 1; never reused.
    pub id: u32,
    /// The identity that created the record.
    pub creator: AccountId,
    /// At most 100 characters (Unicode scalar values, not bytes).
    pub title: String,
    /// Non-empty at creation; not otherwise validated.
    pub url: String,
    /// Number of distinct identities that have up-voted this record.
    pub likes: u32,
}

/// The mathematical model of a [`Meme`]: the same fields with the text as
/// character sequences.
#[verifier::ext_equal]
pub struct MemeModel {
    /// See [`Meme::id`].
    pub id: u32,
    /// See [`Meme::creator`].
    pub creator: AccountId,
    /// The title as a sequence of characters.
    pub title: Seq<char>,
    /// The url as a sequence of characters.
    pub url: Seq<char>,
    /// See [`Meme::likes`].
    pub likes: u32,
}

impl View for Meme {
    type V = MemeModel;

    open spec fn view(&self) -> MemeModel {
        MemeModel {
            id: self.id,
            creator: self.creator,
            title: self.title@,
            url: self.url@,
            likes: self.likes,
        }
    }
}

impl Meme {
    /// An explicit deep copy whose result is known to equal the original.
    pub fn duplicate(&self) -> (r: Meme)
        ensures
            r == *self,
    {
        Meme {
            id: self.id,
            creator: self.creator,
            title: self.title.clone(),
            url: self.url.clone(),
            likes: self.likes,
        }
    }
}

/// The closed set of failures; every one is a permanent rejection of that
/// call's arguments, detected locally.
#[derive(Debug, Clone, Copy, PartialEq, Eq, Structural)]
pub enum Error {
    /// The title given to a create call exceeds 100 characters.
    TitleTooLong,
    /// The url given to a create call is empty.
    EmptyUrl,
    /// An up-vote names a record id that does not exist.
    MemeNotFound,
    /// The same identity already up-voted this record.
    AlreadyVoted,
}

/// Notification value for a successful create: what a host forwards to
/// observers. The registry itself never consumes it.
#[derive(Debug, Clone)]
pub struct MemeAdded {
    /// The id the new record was assigned.
    pub id: u32,
    /// The identity that created it.
    pub creator: AccountId,
    /// The record's title.
    pub title: String,
    /// The record's url.
    pub url: String,
}

/// Notification value for a successful up-vote.
#[derive(Debug, Clone, Copy, PartialEq, Eq, Structural)]
pub struct Voted {
    /// The record that was up-voted.
    pub meme_id: u32,
    /// The identity that cast the vote.
    pub voter: AccountId,
}

} // verus!
