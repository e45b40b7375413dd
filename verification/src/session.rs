//! Where a session is kept, and the order in which a chain of session
//! stores is asked.

use vstd::prelude::*;

verus! {

/// The file that holds the session where no other path is given.
pub const SESSION_FILE: &'static str = "session.json";

/// A session store that keeps the session in one file.
#[derive(Debug, Clone, PartialEq, Eq)]
pub struct LocalFileSessionStore {
    path: String,
}

impl LocalFileSessionStore {
    /// A store that keeps the session in the file at `path`.
    pub fn new(path: &str) -> (r: Self)
        ensures
            r.path_of() == path@,
    {
        Self { path: path.to_owned() }
    }

    /// The path of the file.
    pub closed spec fn path_of(&self) -> Seq<char> {
        self.path@
    }

    /// The path of the file.
    pub fn path(&self) -> (r: &str)
        ensures
            r@ == self.path_of(),
    {
        self.path.as_str()
    }
}

impl Default for LocalFileSessionStore {
    fn default() -> (r: Self)
        ensures
            r.path_of() == SESSION_FILE@,
    {
        LocalFileSessionStore::new(SESSION_FILE)
    }
}

/// What is done next with a chain of stores.
#[derive(Debug, Clone, Copy, PartialEq, Eq, Structural)]
pub enum ChainStep {
    /// Turn to the store at this index.
    Visit(usize),
    /// Nothing is left to do.
    Done,
}

/// The step that follows the visit of the store at `visited`, in a chain of
/// `len` stores, when the walk goes on: the next store, or the end.
pub open spec fn step_after(len: usize, visited: usize) -> ChainStep {
    if visited + 1 < len {
        ChainStep::Visit((visited + 1) as usize)
    } else {
        ChainStep::Done
    }
}

/// The first step with a chain of `len` stores: the first store, if there is
/// one.
pub fn first_step(len: usize) -> (r: ChainStep)
    ensures
        r == if len > 0 {
            ChainStep::Visit(0)
        } else {
            ChainStep::Done
        },
{
    if len > 0 {
        ChainStep::Visit(0)
    } else {
        ChainStep::Done
    }
}

/// The step after the store at `visited` was asked for the session. A
/// session that was found ends the walk: the first store that has one
/// answers for the chain.
pub fn step_after_read(len: usize, visited: usize, found: bool) -> (r: ChainStep)
    ensures
        r == if found {
            ChainStep::Done
        } else {
            step_after(len, visited)
        },
{
    if found || len == 0 || visited >= len - 1 {
        ChainStep::Done
    } else {
        ChainStep::Visit(visited + 1)
    }
}

/// The step after the store at `visited` was written to or cleared: every
/// store of the chain has its turn.
pub fn step_after_write(len: usize, visited: usize) -> (r: ChainStep)
    ensures
        r == step_after(len, visited),
{
    if len > 0 && visited < len - 1 {
        ChainStep::Visit(visited + 1)
    } else {
        ChainStep::Done
    }
}

/// The first index at or after `from` at which `present` holds, or the
/// length of `present`.
pub open spec fn first_present(present: Seq<bool>, from: int) -> int
    decreases present.len() - from,
{
    if 0 <= from < present.len() && !present[from] {
        first_present(present, from + 1)
    } else {
        from
    }
}

/// The store at which a read that stands at `step` ends, where `present`
/// says which stores hold a session: the index of the store that answers,
/// or the length of the chain where none does.
pub open spec fn read_ends_at(present: Seq<bool>, step: ChainStep) -> int
    decreases
        present.len() - (match step {
            ChainStep::Visit(i) => i as int,
            ChainStep::Done => present.len() as int,
        }),
{
    match step {
        ChainStep::Visit(i) => if i >= present.len() {
            present.len() as int
        } else if present[i as int] {
            i as int
        } else {
            read_ends_at(present, step_after(present.len() as usize, i))
        },
        ChainStep::Done => present.len() as int,
    }
}

/// A read that stands at the store `from` ends at the first store at or
/// after `from` that holds a session.
pub proof fn lemma_read_from(present: Seq<bool>, from: usize)
    requires
        from <= present.len() <= usize::MAX,
    ensures
        read_ends_at(
            present,
            if from < present.len() {
                ChainStep::Visit(from)
            } else {
                ChainStep::Done
            },
        ) == first_present(present, from as int),
    decreases present.len() - from,
{
    if from < present.len() && !present[from as int] {
        lemma_read_from(present, (from + 1) as usize);
    }
}

/// Reading a chain asks the stores in order and ends at the first that
/// holds a session: the stores before it are passed over, those after it
/// are not asked.
pub proof fn lemma_read_takes_first_present(present: Seq<bool>)
    requires
        present.len() <= usize::MAX,
    ensures
        read_ends_at(
            present,
            if present.len() > 0 {
                ChainStep::Visit(0)
            } else {
                ChainStep::Done
            },
        ) == first_present(present, 0),
{
    lemma_read_from(present, 0);
}

} // verus!
