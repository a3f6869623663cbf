//! A single task: a title, the day it is pinned to, and whether it is done.

use crate::date::{Date, Ymd};
use vstd::prelude::*;

verus! {

/// What a [`Task`] stands for.
pub struct TaskView {
    pub title: Seq<char>,
    pub date: Ymd,
    pub completed: bool,
}

/// A titled, dated unit of work. Title and date are fixed when the task is
/// made; only the completion flag changes afterwards.
#[derive(Debug)]
pub struct Task {
    title: String,
    date: Date,
    completed: bool,
}

impl View for Task {
    type V = TaskView;

    closed spec fn view(&self) -> TaskView {
        TaskView { title: self.title@, date: self.date@, completed: self.completed }
    }
}

impl Clone for Task {
    fn clone(&self) -> (copy: Task)
        ensures
            copy@ == self@,
    {
        Task { title: self.title.clone(), date: self.date, completed: self.completed }
    }
}

impl Task {
    /// A task that is not yet done.
    pub fn new(title: String, date: Date) -> (task: Task)
        ensures
            task@ == (TaskView { title: title@, date: date@, completed: false }),
    {
        Task { title, date, completed: false }
    }

    /// A task as it was stored, with its completion flag.
    pub fn from_parts(title: String, date: Date, completed: bool) -> (task: Task)
        ensures
            task@ == (TaskView { title: title@, date: date@, completed }),
    {
        Task { title, date, completed }
    }

    pub fn title(&self) -> (title: &str)
        ensures
            title@ == self@.title,
    {
        self.title.as_str()
    }

    pub fn date(&self) -> (date: Date)
        ensures
            date@ == self@.date,
    {
        self.date
    }

    pub fn is_completed(&self) -> (completed: bool)
        ensures
            completed == self@.completed,
    {
        self.completed
    }

    /// Marks the task done or not done. Nothing else changes.
    pub fn set_completed(&mut self, value: bool)
        ensures
            final(self)@ == (TaskView { completed: value, ..old(self)@ }),
    {
        self.completed = value;
    }
}

} // verus!
