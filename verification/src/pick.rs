//! Choosing what to act on: the only tree kept, or the one picked out of
//! several; the task picked out of a tree's tasks. The picking itself, in a
//! terminal, is the program's: these decide when it is needed and what its
//! outcome means.
use vstd::prelude::*;
use crate::task::Task;
use crate::text::push_str;

verus! {

pub enum Error {
    /// No trees are kept.
    Nothing,
    /// The tree has no tasks.
    NoTasks,
    /// The picker was left without a choice.
    Abandoned,
    /// There is no terminal to choose the named kind of thing in.
    NotInteractive(&'static str),
    /// The picker failed, for the reason given.
    Failed(String),
}

/// What is left to do once the candidates are known.
pub enum Pending<T> {
    /// The choice is made already.
    Settled(T),
    /// These are to be picked from.
    Choose(Vec<T>),
}

/// How a picker ended.
pub enum Picked<T> {
    /// One was chosen.
    Chosen(T),
    /// The picker was closed without a choice.
    Dismissed,
    /// The user interrupted the picker.
    Interrupted,
    /// There was no terminal to pick in.
    NotInteractive,
    /// The picker failed, for the reason given.
    Failed(String),
}

/// The tree to work on: none when none is kept, the only one when one is,
/// and a choice among them when several are.
pub fn one_of(trees: Vec<u128>) -> (r: Result<Pending<u128>, Error>)
    ensures
        trees@.len() == 0 ==> r matches Err(Error::Nothing),
        trees@.len() == 1 ==> (r matches Ok(Pending::Settled(tree)) && tree == trees@[0]),
        trees@.len() > 1 ==> (r matches Ok(Pending::Choose(among)) && among@ == trees@),
{
    if trees.len() == 0 {
        Err(Error::Nothing)
    } else if trees.len() == 1 {
        Ok(Pending::Settled(trees[0]))
    } else {
        Ok(Pending::Choose(trees))
    }
}

/// The task to act on is chosen out of the tree's own tasks, of which there
/// must be some.
pub fn a_task(tasks: Vec<Task>) -> (r: Result<Pending<Task>, Error>)
    ensures
        tasks@.len() == 0 ==> r matches Err(Error::NoTasks),
        tasks@.len() > 0 ==> (r matches Ok(Pending::Choose(among)) && among@ == tasks@),
{
    if tasks.len() == 0 {
        Err(Error::NoTasks)
    } else {
        Ok(Pending::Choose(tasks))
    }
}

/// What a picker's ending means when choosing a `what`: the one chosen; an
/// abandoned choice when it was closed or interrupted; otherwise the reason
/// it could not be made.
pub fn settle<T>(picked: Picked<T>, what: &'static str) -> (r: Result<T, Error>)
    ensures
        match picked {
            Picked::Chosen(one) => r == Ok::<T, Error>(one),
            Picked::Dismissed | Picked::Interrupted => r matches Err(Error::Abandoned),
            Picked::NotInteractive => r matches Err(Error::NotInteractive(w)) && w == what,
            Picked::Failed(cause) => r matches Err(Error::Failed(c)) && c == cause,
        },
{
    match picked {
        Picked::Chosen(one) => Ok(one),
        Picked::Dismissed | Picked::Interrupted => Err(Error::Abandoned),
        Picked::NotInteractive => Err(Error::NotInteractive(what)),
        Picked::Failed(cause) => Err(Error::Failed(cause)),
    }
}

impl Error {
    /// What the error tells the user.
    pub open spec fn message_spec(&self) -> Seq<char> {
        match self {
            Error::Nothing => "no trees kept \u{2014} run jata with a link to keep one"@,
            Error::NoTasks => "that tree has no tasks"@,
            Error::Abandoned => "nothing chosen"@,
            Error::NotInteractive(what) => "choosing a "@ + what@ + " needs a terminal to choose in"@,
            Error::Failed(cause) => cause@,
        }
    }

    /// What the error tells the user.
    pub fn message(&self) -> (message: String)
        ensures
            message@ == self.message_spec(),
    {
        let mut message = String::new();
        match self {
            Error::Nothing => push_str(&mut message, "no trees kept \u{2014} run jata with a link to keep one"),
            Error::NoTasks => push_str(&mut message, "that tree has no tasks"),
            Error::Abandoned => push_str(&mut message, "nothing chosen"),
            Error::NotInteractive(what) => {
                push_str(&mut message, "choosing a ");
                push_str(&mut message, what);
                push_str(&mut message, " needs a terminal to choose in");
            },
            Error::Failed(cause) => push_str(&mut message, cause.as_str()),
        }
        message
    }
}

} // verus!
