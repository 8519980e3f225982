//! A rendered notification: what a channel handler sends once a new entity
//! has been turned into user-facing text.

use vstd::prelude::*;

verus! {

/// The mathematical value of an [`Event`].
pub ghost struct EventView {
    pub kind: Seq<char>,
    pub title: Option<Seq<char>>,
    pub description: Option<Seq<char>>,
}

/// The view of an optional string.
pub open spec fn opt_string_view(s: Option<String>) -> Option<Seq<char>> {
    match s {
        Some(t) => Some(t@),
        None => None,
    }
}

/// One notification to deliver: its kind tag plus optional title and body.
#[derive(Debug)]
pub struct Event {
    kind: String,
    title: Option<String>,
    description: Option<String>,
}

impl View for Event {
    type V = EventView;

    closed spec fn view(&self) -> EventView {
        EventView {
            kind: self.kind@,
            title: opt_string_view(self.title),
            description: opt_string_view(self.description),
        }
    }
}

impl Event {
    pub fn new(kind: String, title: Option<String>, description: Option<String>) -> (e: Event)
        ensures
            e@.kind == kind@,
            e@.title == opt_string_view(title),
            e@.description == opt_string_view(description),
    {
        Event { kind, title, description }
    }

    pub fn kind(&self) -> (r: &String)
        ensures
            r@ == self@.kind,
    {
        &self.kind
    }

    pub fn title(&self) -> (r: Option<&String>)
        ensures
            match r {
                Some(t) => self@.title == Some(t@),
                None => self@.title is None,
            },
    {
        self.title.as_ref()
    }

    pub fn description(&self) -> (r: Option<&String>)
        ensures
            match r {
                Some(d) => self@.description == Some(d@),
                None => self@.description is None,
            },
    {
        self.description.as_ref()
    }

    pub fn set_kind(&mut self, kind: String)
        ensures
            final(self)@.kind == kind@,
            final(self)@.title == old(self)@.title,
            final(self)@.description == old(self)@.description,
    {
        self.kind = kind;
    }

    pub fn set_title(&mut self, title: Option<String>)
        ensures
            final(self)@.title == opt_string_view(title),
            final(self)@.kind == old(self)@.kind,
            final(self)@.description == old(self)@.description,
    {
        self.title = title;
    }

    pub fn set_description(&mut self, description: Option<String>)
        ensures
            final(self)@.description == opt_string_view(description),
            final(self)@.kind == old(self)@.kind,
            final(self)@.title == old(self)@.title,
    {
        self.description = description;
    }
}

} // verus!
