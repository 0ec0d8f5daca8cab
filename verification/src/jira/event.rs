//! What the Jira source tells the scheduler.

use vstd::prelude::*;
use vstd::string::*;

use crate::text;

verus! {

/// The fields of a ticket that an explore prompt is made of.
#[derive(Debug, PartialEq, Eq)]
pub struct JiraTicketPayload {
    pub key: String,
    pub title: String,
    pub description: String,
    pub acceptance_criteria: String,
    pub labels: Vec<String>,
    pub reporter: Option<String>,
}

/// What a [`JiraTicketPayload`] holds.
#[verifier::ext_equal]
pub ghost struct PayloadView {
    pub key: Seq<char>,
    pub title: Seq<char>,
    pub description: Seq<char>,
    pub acceptance_criteria: Seq<char>,
    pub labels: Seq<Seq<char>>,
    pub reporter: Option<Seq<char>>,
}

impl View for JiraTicketPayload {
    type V = PayloadView;

    open spec fn view(&self) -> PayloadView {
        PayloadView {
            key: self.key@,
            title: self.title@,
            description: self.description@,
            acceptance_criteria: self.acceptance_criteria@,
            labels: text::texts(self.labels@),
            reporter: text::text_option(self.reporter),
        }
    }
}

impl Clone for JiraTicketPayload {
    fn clone(&self) -> (r: Self)
        ensures
            r@ == self@,
    {
        JiraTicketPayload {
            key: self.key.clone(),
            title: self.title.clone(),
            description: self.description.clone(),
            acceptance_criteria: self.acceptance_criteria.clone(),
            labels: text::owned_list(&self.labels),
            reporter: match &self.reporter {
                Some(r) => Some(r.clone()),
                None => None,
            },
        }
    }
}

impl Default for JiraTicketPayload {
    fn default() -> (r: Self)
        ensures
            r@ == (PayloadView {
                key: Seq::empty(),
                title: Seq::empty(),
                description: Seq::empty(),
                acceptance_criteria: Seq::empty(),
                labels: Seq::empty(),
                reporter: None,
            }),
    {
        let r = JiraTicketPayload {
            key: String::new(),
            title: String::new(),
            description: String::new(),
            acceptance_criteria: String::new(),
            labels: Vec::new(),
            reporter: None,
        };
        proof {
            assert(r@.key =~= Seq::<char>::empty());
            assert(r@.labels =~= Seq::<Seq<char>>::empty());
        }
        r
    }
}

/// What a list of payloads holds.
pub open spec fn payload_views(ps: Seq<JiraTicketPayload>) -> Seq<PayloadView> {
    ps.map_values(|p: JiraTicketPayload| p@)
}

/// An event of the Jira source.
#[derive(Debug, PartialEq, Eq)]
pub enum JiraEvent {
    /// A ticket began to match the filter of a queue. Its key becomes the name
    /// of a workflow.
    TicketAppeared { key: String, payload: JiraTicketPayload },
    /// A ticket that matched no longer does.
    TicketLeftFilter { key: String },
}

/// What a [`JiraEvent`] holds.
pub ghost enum JiraEventView {
    TicketAppeared { key: Seq<char>, payload: PayloadView },
    TicketLeftFilter { key: Seq<char> },
}

impl View for JiraEvent {
    type V = JiraEventView;

    open spec fn view(&self) -> JiraEventView {
        match *self {
            JiraEvent::TicketAppeared { key, payload } => JiraEventView::TicketAppeared {
                key: key@,
                payload: payload@,
            },
            JiraEvent::TicketLeftFilter { key } => JiraEventView::TicketLeftFilter { key: key@ },
        }
    }
}

impl Clone for JiraEvent {
    fn clone(&self) -> (r: Self)
        ensures
            r@ == self@,
    {
        match self {
            JiraEvent::TicketAppeared { key, payload } => JiraEvent::TicketAppeared {
                key: key.clone(),
                payload: payload.clone(),
            },
            JiraEvent::TicketLeftFilter { key } => JiraEvent::TicketLeftFilter { key: key.clone() },
        }
    }
}

/// What an optional event holds.
pub open spec fn event_option(e: Option<JiraEvent>) -> Option<JiraEventView> {
    match e {
        Some(e) => Some(e@),
        None => None,
    }
}

} // verus!
