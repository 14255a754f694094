use vstd::prelude::*;

verus! {

/// The ways building or reading a chart can fail.
#[derive(Clone, Copy, Debug, PartialEq, Eq, Structural)]
pub enum ChartError {
    /// The x and y series of a pair do not have the same number of points.
    LengthMismatch,
    /// A label was looked up that the categorical domain does not hold.
    UnknownLabel,
    /// Margins and axis strips leave no room for the plot area.
    InvalidGeometry,
    /// A group mixes label-typed and numeric series on the same axis.
    MixedSeries,
}

impl ChartError {
    /// A sentence describing the error, for the host's log.
    pub fn message(&self) -> (r: &'static str)
        ensures
            r@.len() > 0,
    {
        match self {
            ChartError::LengthMismatch => {
                proof { reveal_strlit("The lengths of the series are not equal"); }
                "The lengths of the series are not equal"
            },
            ChartError::UnknownLabel => {
                proof { reveal_strlit("The label is not in the domain"); }
                "The label is not in the domain"
            },
            ChartError::InvalidGeometry => {
                proof { reveal_strlit("The margins and axes leave no room for the chart"); }
                "The margins and axes leave no room for the chart"
            },
            ChartError::MixedSeries => {
                proof { reveal_strlit("The series of the group are not all of one kind"); }
                "The series of the group are not all of one kind"
            },
        }
    }
}

} // verus!
