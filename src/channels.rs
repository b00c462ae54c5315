//! Building the channels of a colour from a sequence of values.
use vstd::prelude::*;

verus! {

/// Why a sequence of values cannot make a colour.
#[derive(Clone, Copy, Debug, PartialEq, Eq, Structural)]
pub enum ChannelCountError {
    /// More than four values.
    TooMany,
    /// Fewer than three values.
    NotEnough,
}

impl ChannelCountError {
    /// A description of the error.
    pub fn message(&self) -> (r: String)
        ensures
            *self == ChannelCountError::TooMany ==> r@ == "There are too many elements."@,
            *self == ChannelCountError::NotEnough ==> r@ == "There are not enough elements."@,
    {
        match self {
            ChannelCountError::TooMany => String::from_str("There are too many elements."),
            ChannelCountError::NotEnough => String::from_str("There are not enough elements."),
        }
    }
}

/// The channels of a colour: red, green and blue, and the alpha if one was
/// given.
#[derive(Debug, PartialEq, Eq)]
pub struct Channels<T> {
    pub r: T,
    pub g: T,
    pub b: T,
    pub a: Option<T>,
}

/// Splits three or four values into the channels of a colour: three give red,
/// green and blue with no alpha, four give an alpha as well. More than four
/// values are too many, fewer than three not enough.
pub fn split_channels<T: Copy>(values: &[T]) -> (r: Result<Channels<T>, ChannelCountError>)
    ensures
        values@.len() > 4 <==> r == Err::<Channels<T>, ChannelCountError>(ChannelCountError::TooMany),
        values@.len() < 3 <==> r == Err::<Channels<T>, ChannelCountError>(ChannelCountError::NotEnough),
        values@.len() == 3 ==> r == Ok::<Channels<T>, ChannelCountError>(
            (Channels { r: values@[0], g: values@[1], b: values@[2], a: None }),
        ),
        values@.len() == 4 ==> r == Ok::<Channels<T>, ChannelCountError>(
            (Channels { r: values@[0], g: values@[1], b: values@[2], a: Some(values@[3]) }),
        ),
{
    if values.len() > 4 {
        Err(ChannelCountError::TooMany)
    } else if values.len() < 3 {
        Err(ChannelCountError::NotEnough)
    } else if values.len() == 3 {
        Ok(Channels { r: values[0], g: values[1], b: values[2], a: None })
    } else {
        Ok(Channels { r: values[0], g: values[1], b: values[2], a: Some(values[3]) })
    }
}

} // verus!
