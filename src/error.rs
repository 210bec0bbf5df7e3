use vstd::prelude::*;

verus! {

/// Why a fetch gave no weather.
#[derive(Clone, Copy, Debug, PartialEq, Eq, Structural)]
pub enum WeatherError {
    /// The API could not be reached (name lookup, connection, timeout).
    Transport,
    /// The API answered with a status outside 200..=299.
    Upstream { status: u16 },
    /// The answer is no JSON document, or lacks a field of the model.
    Decode,
}

/// The API answered, but not with success.
#[derive(Clone, Copy, Debug, PartialEq, Eq, Structural)]
pub struct ApiError {
    pub status: u16,
}

/// The API key was not found in the process configuration.
#[derive(Clone, Copy, Debug, PartialEq, Eq, Structural)]
pub struct EnvVariableError;

impl ApiError {
    pub fn message(&self) -> (r: String)
        ensures
            r@ == "Error retrieving information from you API!"@,
    {
        String::from_str("Error retrieving information from you API!")
    }
}

impl EnvVariableError {
    pub fn message(&self) -> (r: String)
        ensures
            r@ == "Trouble getting an environment variable"@,
    {
        String::from_str("Trouble getting an environment variable")
    }
}

impl WeatherError {
    /// A line for the user that says what went wrong.
    pub fn message(&self) -> (r: String)
        ensures
            r@ == match *self {
                WeatherError::Transport => "Could not reach the weather API"@,
                WeatherError::Upstream { .. } => "Error retrieving information from you API!"@,
                WeatherError::Decode => "Parsing JSON failed"@,
            },
    {
        match self {
            WeatherError::Transport => String::from_str("Could not reach the weather API"),
            WeatherError::Upstream { .. } => String::from_str(
                "Error retrieving information from you API!",
            ),
            WeatherError::Decode => String::from_str("Parsing JSON failed"),
        }
    }
}

} // verus!
