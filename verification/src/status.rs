//! The message of the status line.

use crate::decimal::fixed2_text;
use crate::series::Point;
use vstd::prelude::*;

verus! {

/// What the status line has to say.
#[derive(Debug)]
pub enum Status {
    /// Nothing. A front end is free to show a hint in its place.
    Idle,
    /// A point was added to the selected series.
    Inserted(Point),
    /// The two fields did not both hold a number.
    InvalidInput,
    /// The stored data could not be loaded, for the given reason.
    LoadFailed(String),
    /// The data could not be stored, for the given reason.
    SaveFailed(String),
}

/// What a status is, to a specification.
pub enum StatusModel {
    Idle,
    Inserted(Point),
    InvalidInput,
    LoadFailed(Seq<char>),
    SaveFailed(Seq<char>),
}

/// The text of a status: empty where there is nothing to say, the two
/// coordinates with two digits after the point for an added point, and the
/// reason behind a fixed opening for a failure.
pub open spec fn status_text(status: StatusModel) -> Seq<char> {
    match status {
        StatusModel::Idle => Seq::empty(),
        StatusModel::Inserted(p) => "Inserted point ("@ + fixed2_text(p.x.units as int) + ", "@
            + fixed2_text(p.y.units as int) + ")"@,
        StatusModel::InvalidInput => "Error: enter valid numbers for x and y"@,
        StatusModel::LoadFailed(reason) => "Could not load data.csv: "@ + reason,
        StatusModel::SaveFailed(reason) => "Could not write to data.csv (Press any key to exit): "@
            + reason,
    }
}

impl View for Status {
    type V = StatusModel;

    open spec fn view(&self) -> StatusModel {
        match self {
            Status::Idle => StatusModel::Idle,
            Status::Inserted(p) => StatusModel::Inserted(*p),
            Status::InvalidInput => StatusModel::InvalidInput,
            Status::LoadFailed(reason) => StatusModel::LoadFailed(reason@),
            Status::SaveFailed(reason) => StatusModel::SaveFailed(reason@),
        }
    }
}

impl Status {
    /// The text of the status.
    pub fn text(&self) -> (text: String)
        ensures
            text@ == status_text(self@),
    {
        match self {
            Status::Idle => String::new(),
            Status::Inserted(p) => {
                let mut out = "Inserted point (".to_owned();
                out.append(p.x.to_fixed2().as_str());
                out.append(", ");
                out.append(p.y.to_fixed2().as_str());
                out.append(")");
                out
            },
            Status::InvalidInput => "Error: enter valid numbers for x and y".to_owned(),
            Status::LoadFailed(reason) => {
                let mut out = "Could not load data.csv: ".to_owned();
                out.append(reason.as_str());
                out
            },
            Status::SaveFailed(reason) => {
                let mut out = "Could not write to data.csv (Press any key to exit): ".to_owned();
                out.append(reason.as_str());
                out
            },
        }
    }

    /// Whether there is nothing to say.
    pub fn is_idle(&self) -> (b: bool)
        ensures
            b == (self@ is Idle),
    {
        match self {
            Status::Idle => true,
            _ => false,
        }
    }
}

} // verus!
