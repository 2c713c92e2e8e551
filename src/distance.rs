use vstd::prelude::*;

verus! {

broadcast use vstd::string::to_string_from_display_ensures_for_str;

/// The metric nearest-neighbour queries rank documents by.
#[derive(Debug, Clone, Copy, PartialEq, Eq, Hash, Structural)]
pub enum Distance {
    SquaredL2,
    InnerProduct,
    Cosine,
}

/// The metric a name stands for: the long names and their short forms.
pub open spec fn distance_named(s: Seq<char>) -> Option<Distance> {
    if s == "squared-l2"@ || s == "l2"@ {
        Some(Distance::SquaredL2)
    } else if s == "inner-product"@ || s == "ip"@ {
        Some(Distance::InnerProduct)
    } else if s == "cosine"@ {
        Some(Distance::Cosine)
    } else {
        None
    }
}

/// The name the vector store knows a metric by.
pub open spec fn space_of(d: Distance) -> Seq<char> {
    match d {
        Distance::SquaredL2 => "l2"@,
        Distance::InnerProduct => "ip"@,
        Distance::Cosine => "cosine"@,
    }
}

impl Distance {
    /// The metric named `s`, if any.
    pub fn parse(s: &str) -> (r: Option<Distance>)
        ensures
            r == distance_named(s@),
    {
        let s = s.to_string();
        if s == "squared-l2".to_string() || s == "l2".to_string() {
            Some(Distance::SquaredL2)
        } else if s == "inner-product".to_string() || s == "ip".to_string() {
            Some(Distance::InnerProduct)
        } else if s == "cosine".to_string() {
            Some(Distance::Cosine)
        } else {
            None
        }
    }

    /// The vector store's name for this metric.
    pub fn space_name(&self) -> (r: String)
        ensures
            r@ == space_of(*self),
    {
        match self {
            Distance::SquaredL2 => "l2".to_string(),
            Distance::InnerProduct => "ip".to_string(),
            Distance::Cosine => "cosine".to_string(),
        }
    }
}

impl std::str::FromStr for Distance {
    type Err = String;

    fn from_str(s: &str) -> (r: Result<Distance, String>)
        ensures
            r matches Ok(d) ==> distance_named(s@) == Some(d),
            r matches Err(e) ==> distance_named(s@) is None && e@ == "Invalid distance metric"@,
    {
        match Distance::parse(s) {
            Some(d) => Ok(d),
            None => Err("Invalid distance metric".to_string()),
        }
    }
}

} // verus!
