pub mod action;
pub mod page;
pub mod service;
pub mod typing;

use vstd::prelude::*;
use crate::event::{Event, KeyCode, KeyEvent};
use crate::route::{Page, Transition};
use action::{
    after_input_event, event_is_applicable, handle_input_event, input_event_applicable, submitted_query,
    ActionResult,
};
use typing::{GeoIPResponse, InputModel, InputState};

verus! {

/// How the GeoIP page treats an event.
pub enum GeoipEventKind {
    /// `q`: leave the application.
    Quit,
    /// `h`: back to the home page.
    Home,
    /// Escape: forget the input, the answer and any pending lookup.
    Reset,
    /// Any other key, and mouse actions: edit the input line.
    Edit,
    Ignore,
}

pub open spec fn geoip_event_kind(e: Event) -> GeoipEventKind {
    match e {
        Event::Key(KeyEvent { code, .. }) => match code {
            KeyCode::Char(c) => if c == 'q' {
                GeoipEventKind::Quit
            } else if c == 'h' {
                GeoipEventKind::Home
            } else {
                GeoipEventKind::Edit
            },
            KeyCode::Esc => GeoipEventKind::Reset,
            _ => GeoipEventKind::Edit,
        },
        Event::Mouse(_) => GeoipEventKind::Edit,
        Event::Other => GeoipEventKind::Ignore,
    }
}

/// The state of the GeoIP page between two events.
pub struct GeoipPage {
    pub input_state: InputState,
    /// The last answer of the service, or its error message.
    pub geoip_result: Option<Result<GeoIPResponse, String>>,
    /// A submitted query whose lookup has not been started yet.
    pub query_to_load: Option<String>,
    /// A lookup has been started and its answer is still wanted.
    pub awaiting_result: bool,
}

impl GeoipPage {
    pub fn new() -> (p: Self)
        ensures
            p.input_state@ == (InputModel { text: Seq::empty(), cursor: 0, active: true, loading: false }),
            p.geoip_result is None,
            p.query_to_load is None,
            !p.awaiting_result,
    {
        GeoipPage {
            input_state: InputState::new(),
            geoip_result: None,
            query_to_load: None,
            awaiting_result: false,
        }
    }

    /// Hands out the query waiting to be looked up, if any; from then on the
    /// page waits for its answer.
    pub fn take_query(&mut self) -> (q: Option<String>)
        ensures
            q == old(self).query_to_load,
            final(self).query_to_load is None,
            final(self).awaiting_result == (old(self).awaiting_result || old(self).query_to_load is Some),
            final(self).input_state@ == old(self).input_state@,
            final(self).geoip_result == old(self).geoip_result,
    {
        let q = self.query_to_load.take();
        if q.is_some() {
            self.awaiting_result = true;
        }
        q
    }

    /// The answer of the lookup arrived: show it and stop loading.
    pub fn receive_result(&mut self, result: Result<GeoIPResponse, String>)
        requires
            old(self).awaiting_result,
        ensures
            final(self).geoip_result == Some(result),
            final(self).input_state@ == (InputModel { loading: false, ..old(self).input_state@ }),
            !final(self).awaiting_result,
            final(self).query_to_load == old(self).query_to_load,
    {
        self.geoip_result = Some(result);
        self.input_state.is_loading = false;
        self.awaiting_result = false;
    }

    /// Nothing about the page changed.
    pub open spec fn same_as(&self, before: &GeoipPage) -> bool {
        &&& self.input_state@ == before.input_state@
        &&& self.geoip_result == before.geoip_result
        &&& self.query_to_load == before.query_to_load
        &&& self.awaiting_result == before.awaiting_result
    }

    /// The page was reset: empty input, no answer, nothing pending.
    pub open spec fn is_reset_of(&self, before: &GeoipPage) -> bool {
        &&& self.input_state@ == before.input_state@.after_clear()
        &&& self.geoip_result is None
        &&& self.query_to_load is None
        &&& !self.awaiting_result
    }

    /// The input line took the event; a submitted query waits to be looked up.
    pub open spec fn is_edit_of(&self, before: &GeoipPage, e: Event) -> bool {
        &&& self.input_state@ == after_input_event(before.input_state@, e)
        &&& self.geoip_result == before.geoip_result
        &&& self.awaiting_result == before.awaiting_result
        &&& match submitted_query(before.input_state@, e) {
            Some(q) => self.query_to_load matches Some(s) && s@ == q,
            None => self.query_to_load == before.query_to_load,
        }
    }

    /// The event can be applied without breaking a character of the input apart.
    pub open spec fn event_is_applicable(&self, e: Event) -> bool {
        geoip_event_kind(e) is Edit ==> event_is_applicable(self.input_state@, e)
    }

    /// Whether `handle_event` can apply `event`.
    pub fn event_applicable(&self, event: &Event) -> (r: bool)
        ensures
            r == self.event_is_applicable(*event),
    {
        let edits = match event {
            Event::Key(KeyEvent { code, .. }) => match code {
                KeyCode::Char(c) => *c != 'q' && *c != 'h',
                KeyCode::Esc => false,
                _ => true,
            },
            Event::Mouse(_) => true,
            Event::Other => false,
        };
        !edits || input_event_applicable(&self.input_state, event)
    }

    /// Applies one input event to the page; returns the transition the event
    /// asks for, if any.
    pub fn handle_event(&mut self, event: Event) -> (t: Option<Transition>)
        requires
            old(self).event_is_applicable(event),
        ensures
            match geoip_event_kind(event) {
                GeoipEventKind::Quit => t == Some(Transition::Quit) && final(self).same_as(old(self)),
                GeoipEventKind::Home => t == Some(Transition::To(Page::Home)) && final(self).same_as(old(self)),
                GeoipEventKind::Reset => t is None && final(self).is_reset_of(old(self)),
                GeoipEventKind::Edit => t is None && final(self).is_edit_of(old(self), event),
                GeoipEventKind::Ignore => t is None && final(self).same_as(old(self)),
            },
    {
        match event {
            Event::Key(key) => {
                match key.code {
                    KeyCode::Char(c) => {
                        if c == 'q' {
                            return Some(Transition::Quit);
                        }
                        if c == 'h' {
                            return Some(Transition::To(Page::Home));
                        }
                    },
                    KeyCode::Esc => {
                        self.input_state.clear();
                        self.geoip_result = None;
                        self.query_to_load = None;
                        self.awaiting_result = false;
                        return None;
                    },
                    _ => {},
                }
                self.apply_input(Event::Key(key));
                None
            },
            Event::Mouse(mouse_event) => {
                self.apply_input(Event::Mouse(mouse_event));
                None
            },
            _ => None,
        }
    }

    fn apply_input(&mut self, event: Event)
        requires
            event_is_applicable(old(self).input_state@, event),
        ensures
            final(self).is_edit_of(old(self), event),
    {
        let event_result = handle_input_event(&mut self.input_state, event);
        match event_result {
            ActionResult::StartLoading(query) => {
                self.query_to_load = Some(query);
            },
            ActionResult::NewSearch(result) => {
                self.geoip_result = Some(result);
            },
            ActionResult::NoAction => {},
        }
    }
}

} // verus!
