use vstd::prelude::*;

verus! {

/// The kind of a message shown on the dashboard.
#[derive(Clone, Copy, Debug, PartialEq, Eq, Structural)]
pub enum DashboardMessageType {
    Info,
    Success,
    Warning,
    Error,
}

impl DashboardMessageType {
    /// The tag that the dashboard uses for this kind of message.
    pub open spec fn class_spec(self) -> Seq<char> {
        match self {
            DashboardMessageType::Info => "info"@,
            DashboardMessageType::Success => "success"@,
            DashboardMessageType::Warning => "warning"@,
            DashboardMessageType::Error => "error"@,
        }
    }

    pub fn get_class(&self) -> (r: String)
        ensures
            r@ == self.class_spec(),
    {
        match self {
            DashboardMessageType::Info => "info".to_string(),
            DashboardMessageType::Success => "success".to_string(),
            DashboardMessageType::Warning => "warning".to_string(),
            DashboardMessageType::Error => "error".to_string(),
        }
    }
}

} // verus!
