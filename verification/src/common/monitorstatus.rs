use vstd::prelude::*;
use vstd::string::StringExecFns;

verus! {

/// The latest classification produced by a monitor's check.
#[derive(Debug, PartialEq, Eq)]
pub enum Status {
    /// No check has run yet.
    Unknown,
    /// The last check passed.
    Okay,
    /// The last check failed; `message` says why.
    Error { message: String },
}

/// The mathematical value of a [`Status`]: the message is a sequence of characters.
pub enum StatusView {
    Unknown,
    Okay,
    Error { message: Seq<char> },
}

impl View for Status {
    type V = StatusView;

    open spec fn view(&self) -> StatusView {
        match self {
            Status::Unknown => StatusView::Unknown,
            Status::Okay => StatusView::Okay,
            Status::Error { message } => StatusView::Error { message: message@ },
        }
    }
}

impl Clone for Status {
    fn clone(&self) -> (copy: Status)
        ensures
            copy@ == self@,
    {
        match self {
            Status::Unknown => Status::Unknown,
            Status::Okay => Status::Okay,
            Status::Error { message } => Status::Error { message: message.clone() },
        }
    }
}

impl StatusView {
    /// The text by which a status appears inside another message:
    /// `Unknown`, `Ok`, or `Error { message: "..." }` with the message between the quotes.
    pub open spec fn text(self) -> Seq<char> {
        match self {
            StatusView::Unknown => "Unknown"@,
            StatusView::Okay => "Ok"@,
            StatusView::Error { message } => "Error { message: \""@ + message + "\" }"@,
        }
    }
}

impl Status {
    /// Whether this status is `Okay`.
    pub fn is_okay(&self) -> (okay: bool)
        ensures
            okay == (self@ is Okay),
    {
        match self {
            Status::Okay => true,
            _ => false,
        }
    }

    /// Whether this status is an `Error`.
    pub fn is_error(&self) -> (failed: bool)
        ensures
            failed == (self@ is Error),
    {
        match self {
            Status::Error { .. } => true,
            _ => false,
        }
    }

    /// Whether two statuses are the same variant with the same message.
    pub fn same_as(&self, other: &Status) -> (same: bool)
        ensures
            same == (self@ == other@),
    {
        match (self, other) {
            (Status::Unknown, Status::Unknown) => true,
            (Status::Okay, Status::Okay) => true,
            (Status::Error { message: mine }, Status::Error { message: theirs }) => {
                let same = *mine == *theirs;
                assert(same == (self@ == other@));
                same
            },
            _ => false,
        }
    }

    /// Renders the status as it appears inside another message.
    pub fn describe(&self) -> (text: String)
        ensures
            text@ == self@.text(),
    {
        match self {
            Status::Unknown => String::from_str("Unknown"),
            Status::Okay => String::from_str("Ok"),
            Status::Error { message } => {
                let mut text = String::from_str("Error { message: \"");
                text.append(message.as_str());
                text.append("\" }");
                text
            },
        }
    }
}

/// The status of one monitor, by the monitor's name.
#[derive(Debug, PartialEq, Eq)]
pub struct MonitorStatus {
    /// The monitor's name, unique among the configured monitors.
    pub name: String,
    /// The monitor's current status.
    pub status: Status,
}

/// The mathematical value of a [`MonitorStatus`].
pub struct MonitorStatusView {
    pub name: Seq<char>,
    pub status: StatusView,
}

impl View for MonitorStatus {
    type V = MonitorStatusView;

    open spec fn view(&self) -> MonitorStatusView {
        MonitorStatusView { name: self.name@, status: self.status@ }
    }
}

impl Clone for MonitorStatus {
    fn clone(&self) -> (copy: MonitorStatus)
        ensures
            copy@ == self@,
    {
        MonitorStatus { name: self.name.clone(), status: self.status.clone() }
    }
}

impl MonitorStatus {
    /// Pairs a monitor's name with its status.
    pub fn new(name: String, status: Status) -> (entry: MonitorStatus)
        ensures
            entry@ == (MonitorStatusView { name: name@, status: status@ }),
    {
        MonitorStatus { name, status }
    }
}

} // verus!
